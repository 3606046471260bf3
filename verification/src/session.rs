//! The recording session: which trigger events start or stop a recording,
//! given the recording in progress and whether the previous result is still
//! being processed.

use vstd::prelude::*;
use crate::input::InputEvent;

verus! {

/// What a recording is for: dictation (the text is pasted) or a skill (the
/// text is matched against the skills).
#[derive(Debug, Clone, Copy, PartialEq, Eq)]
pub enum RecordingMode {
    Dictation,
    Skill,
}

/// What the application does on a trigger event.
#[derive(Debug, Clone, Copy, PartialEq, Eq)]
pub enum SessionAction {
    /// Nothing.
    Ignore,
    /// Stop the recording in progress and transcribe it.
    StopAndTranscribe { skill_mode: bool },
    /// Start a recording of this kind.
    StartRecording(RecordingMode),
    /// Cancel the correction still running, then start a recording of this
    /// kind unless the previous result is still being processed.
    CancelThenStart(RecordingMode),
}

/// What a trigger event asks for. A click stops a dictation in progress
/// (unless its result is still being processed) and starts one when nothing
/// is recorded; a hold starts a skill recording when nothing is recorded,
/// and its release stops it. A start while a result is still processed
/// first cancels the pending correction.
pub open spec fn session_action_spec(mode: Option<RecordingMode>, event: InputEvent, processing: bool) -> SessionAction {
    match event {
        InputEvent::Click => if mode == Some(RecordingMode::Dictation) && !processing {
            SessionAction::StopAndTranscribe { skill_mode: false }
        } else if mode is None {
            if processing {
                SessionAction::CancelThenStart(RecordingMode::Dictation)
            } else {
                SessionAction::StartRecording(RecordingMode::Dictation)
            }
        } else {
            SessionAction::Ignore
        },
        InputEvent::StartSkill => if mode is Some {
            SessionAction::Ignore
        } else if processing {
            SessionAction::CancelThenStart(RecordingMode::Skill)
        } else {
            SessionAction::StartRecording(RecordingMode::Skill)
        },
        InputEvent::StopSkill => if mode != Some(RecordingMode::Skill) || processing {
            SessionAction::Ignore
        } else {
            SessionAction::StopAndTranscribe { skill_mode: true }
        },
        _ => SessionAction::Ignore,
    }
}

/// What a trigger event asks for, given the recording in progress and
/// whether the previous result is still being processed.
pub fn next_session_action(mode: Option<RecordingMode>, event: &InputEvent, processing: bool) -> (r:
    SessionAction)
    ensures
        r == session_action_spec(mode, *event, processing),
        match r {
            SessionAction::StartRecording(_) | SessionAction::CancelThenStart(_) => mode is None,
            SessionAction::StopAndTranscribe { skill_mode } => !processing && mode == Some(
                if skill_mode {
                    RecordingMode::Skill
                } else {
                    RecordingMode::Dictation
                },
            ),
            SessionAction::Ignore => true,
        },
{
    match event {
        InputEvent::Click => {
            if matches!(mode, Some(RecordingMode::Dictation)) && !processing {
                SessionAction::StopAndTranscribe { skill_mode: false }
            } else if mode.is_none() {
                if processing {
                    SessionAction::CancelThenStart(RecordingMode::Dictation)
                } else {
                    SessionAction::StartRecording(RecordingMode::Dictation)
                }
            } else {
                SessionAction::Ignore
            }
        },
        InputEvent::StartSkill => {
            if mode.is_some() {
                SessionAction::Ignore
            } else if processing {
                SessionAction::CancelThenStart(RecordingMode::Skill)
            } else {
                SessionAction::StartRecording(RecordingMode::Skill)
            }
        },
        InputEvent::StopSkill => {
            if !matches!(mode, Some(RecordingMode::Skill)) || processing {
                SessionAction::Ignore
            } else {
                SessionAction::StopAndTranscribe { skill_mode: true }
            }
        },
        _ => SessionAction::Ignore,
    }
}

/// The recording in progress after an action: none after a stop; the new
/// one after a start that succeeded; otherwise unchanged.
pub open spec fn mode_after_spec(mode: Option<RecordingMode>, action: SessionAction, started: bool) -> Option<
    RecordingMode,
> {
    match action {
        SessionAction::StopAndTranscribe { .. } => None,
        SessionAction::StartRecording(m) | SessionAction::CancelThenStart(m) => if started {
            Some(m)
        } else {
            mode
        },
        SessionAction::Ignore => mode,
    }
}

/// The recording in progress after an action was carried out.
pub fn mode_after(mode: Option<RecordingMode>, action: SessionAction, started: bool) -> (r: Option<
    RecordingMode,
>)
    ensures
        r == mode_after_spec(mode, action, started),
{
    match action {
        SessionAction::StopAndTranscribe { .. } => None,
        SessionAction::StartRecording(m) | SessionAction::CancelThenStart(m) => if started {
            Some(m)
        } else {
            mode
        },
        SessionAction::Ignore => mode,
    }
}

/// At most one recording at a time: an event never starts a recording while
/// one is in progress, so the recording in progress only changes from none
/// to some or from some to none.
pub proof fn law_one_recording_at_a_time(
    mode: Option<RecordingMode>,
    event: InputEvent,
    processing: bool,
    started: bool,
)
    ensures
        ({
            let next = mode_after_spec(mode, session_action_spec(mode, event, processing), started);
            mode is Some && next is Some ==> next == mode
        }),
{
}

} // verus!
