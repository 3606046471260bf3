//! Verified core of a voice input assistant: skill matching, browser command
//! planning, scene switching, configuration migration and the streaming
//! recognition wire format.

pub mod text;
pub mod skills;
pub mod matching;
pub mod storage;
pub mod scenes;
pub mod commands;
pub mod browser;
pub mod browser_plan;
pub mod ip;
pub mod actions;
pub mod asr;
pub mod input;
pub mod session;
pub mod audio;
pub mod llm;
pub mod pipeline;
pub mod proxy;
