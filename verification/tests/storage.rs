use fastsp::storage::{
    llm_config_is_valid, recover_config, recover_llm_config, AppConfig, ConfigLoadResult, HistoryItem, LlmConfig,
    PromptProfile, SavedConfigFile, SavedLlmConfig, SavedSettings, StorageService,
    INVALID_SETTINGS_NOTICE, LLM_RESET_NOTICE,
};

#[test]
fn migrates_legacy_profile_content_into_advanced_instruction() {
    let mut config = LlmConfig {
        profiles: vec![PromptProfile {
            id: "legacy".to_string(),
            name: "Legacy".to_string(),
            content: "Return [fixed] text".to_string(),
            ..PromptProfile::new_default()
        }],
        active_profile_id: "legacy".to_string(),
        ..LlmConfig::default()
    };

    assert!(config.migrate_if_needed());

    let profile = &config.profiles[0];
    assert_eq!(profile.task_kind, "custom_transform");
    assert_eq!(profile.advanced_instruction, "Return [fixed] text");
    assert!(profile.expert_mode);
    assert!(profile.legacy_imported);
    assert!(profile.content.is_empty());
}

#[test]
fn migrates_custom_prompt_into_visible_scene() {
    let mut config = LlmConfig {
        custom_prompt: "Legacy prompt".to_string(),
        ..LlmConfig::default()
    };

    assert!(config.migrate_if_needed());

    let profile = config
        .profiles
        .iter()
        .find(|profile| profile.id == config.active_profile_id)
        .expect("active imported profile");

    assert_eq!(profile.task_kind, "custom_transform");
    assert_eq!(profile.advanced_instruction, "Legacy prompt");
    assert!(profile.legacy_imported);
    assert!(profile.expert_mode);
}

#[test]
fn invalid_llm_config_resets_to_default_profile() {
    let saved = LlmConfig {
        enabled: true,
        base_url: "https://api.openai.com/v1".to_string(),
        api_key: "test".to_string(),
        model: "gpt-4o-mini".to_string(),
        profiles: vec![],
        active_profile_id: "missing".to_string(),
        custom_prompt: String::new(),
    };
    let (config, changed, notice) = recover_llm_config(SavedLlmConfig::Parsed(saved));

    assert!(changed);
    assert!(notice.is_some());
    assert_eq!(config.active_profile_id, "default");
    assert_eq!(config.profiles.len(), 1);
    assert_eq!(config.profiles[0].task_kind, "plain_correction");
}

#[test]
fn malformed_llm_value_resets_to_default_profile() {
    let (config, changed, notice) = recover_llm_config(SavedLlmConfig::Malformed);

    assert!(changed);
    assert!(notice.is_some());
    assert_eq!(config.active_profile_id, "default");
    assert_eq!(config.profiles.len(), 1);
}

#[test]
fn missing_llm_settings_take_defaults_quietly() {
    let (config, changed, notice) = recover_llm_config(SavedLlmConfig::Missing);
    assert!(!changed);
    assert!(notice.is_none());
    assert_eq!(config.active_profile_id, "default");
}

#[test]
fn valid_llm_settings_lose_their_custom_prompt_after_migration() {
    let saved = LlmConfig {
        custom_prompt: "Old prompt".to_string(),
        ..LlmConfig::default()
    };
    let (config, changed, notice) = recover_llm_config(SavedLlmConfig::Parsed(saved));
    assert!(changed);
    assert!(notice.is_none());
    assert!(config.custom_prompt.is_empty());
    assert!(config.profiles.iter().any(|p| p.advanced_instruction == "Old prompt"));
}

#[test]
fn missing_settings_file_gives_defaults_without_saving() {
    let result = recover_config(SavedConfigFile::Missing);
    assert!(!result.needs_save);
    assert!(result.notice.is_none());
    assert!(result.config.trigger_mouse);
    assert_eq!(result.config.online_asr_config.resource_id, "volc.bigasr.sauc.duration");
}

#[test]
fn invalid_settings_file_is_reset_with_notice() {
    let result = recover_config(SavedConfigFile::Invalid);
    assert!(result.needs_save);
    assert_eq!(result.notice.as_deref(), Some(INVALID_SETTINGS_NOTICE));
}

#[test]
fn saved_settings_keep_their_values_and_drop_obsolete_keys() {
    let result = recover_config(SavedConfigFile::Object(SavedSettings {
        had_obsolete_keys: true,
        llm: SavedLlmConfig::Missing,
        trigger_mouse: Some(false),
        trigger_hold: None,
        trigger_toggle: None,
        online_asr_config: None,
        input_device: Some("Mic (2)".to_string()),
        proxy: None,
        skills: None,
    }));
    assert!(result.needs_save);
    assert!(result.notice.is_none());
    assert!(!result.config.trigger_mouse);
    assert!(result.config.trigger_hold);
    assert_eq!(result.config.input_device, "Mic (2)");
    assert_eq!(result.config.online_asr_config.resource_id, "");
    assert!(!result.config.skills.is_empty());
}

#[test]
fn malformed_llm_settings_in_file_bring_their_notice() {
    let result = recover_config(SavedConfigFile::Object(SavedSettings {
        had_obsolete_keys: false,
        llm: SavedLlmConfig::Malformed,
        trigger_mouse: None,
        trigger_hold: None,
        trigger_toggle: None,
        online_asr_config: None,
        input_device: None,
        proxy: None,
        skills: None,
    }));
    assert!(result.needs_save);
    assert_eq!(result.notice.as_deref(), Some(LLM_RESET_NOTICE));
}

#[test]
fn first_notice_waits_until_taken() {
    let mut storage = StorageService::new();
    let (_, save) = storage.load_config(ConfigLoadResult {
        config: AppConfig::default(),
        needs_save: true,
        notice: Some("first".to_string()),
    });
    assert!(save);
    storage.load_config(ConfigLoadResult {
        config: AppConfig::default(),
        needs_save: false,
        notice: Some("second".to_string()),
    });
    assert_eq!(storage.take_runtime_notice(), Some("first".to_string()));
    assert_eq!(storage.take_runtime_notice(), None);
}

fn item(id: &str, text: &str) -> HistoryItem {
    HistoryItem {
        id: id.to_string(),
        timestamp: "2024-01-01 00:00:00".to_string(),
        text: text.to_string(),
        duration_ms: 0,
    }
}

#[test]
fn history_is_newest_first_and_delete_undoes_add() {
    let history = vec![item("a", "one"), item("b", "two")];
    let added = StorageService::add_history_item(history, item("c", "three"));
    let ids: Vec<&str> = added.iter().map(|h| h.id.as_str()).collect();
    assert_eq!(ids, vec!["c", "a", "b"]);
    let deleted = StorageService::delete_history_item(added, "c");
    let ids: Vec<&str> = deleted.iter().map(|h| h.id.as_str()).collect();
    assert_eq!(ids, vec!["a", "b"]);
    assert!(StorageService::clear_history().is_empty());
}

fn settings_with_llm(llm: SavedLlmConfig) -> SavedConfigFile {
    SavedConfigFile::Object(SavedSettings {
        had_obsolete_keys: false,
        llm,
        trigger_mouse: None,
        trigger_hold: None,
        trigger_toggle: None,
        online_asr_config: None,
        input_device: None,
        proxy: None,
        skills: None,
    })
}

#[test]
fn loaded_llm_settings_are_always_usable() {
    let imported_prompt = LlmConfig {
        custom_prompt: "Legacy prompt".to_string(),
        profiles: vec![PromptProfile {
            id: "legacy_imported".to_string(),
            name: "Mine".to_string(),
            ..PromptProfile::new_default()
        }],
        active_profile_id: "legacy_imported".to_string(),
        ..LlmConfig::default()
    };
    let unusable = LlmConfig { active_profile_id: "nowhere".to_string(), ..LlmConfig::default() };
    let cases = vec![
        SavedConfigFile::Missing,
        SavedConfigFile::Invalid,
        settings_with_llm(SavedLlmConfig::Missing),
        settings_with_llm(SavedLlmConfig::Malformed),
        settings_with_llm(SavedLlmConfig::Parsed(unusable)),
        settings_with_llm(SavedLlmConfig::Parsed(imported_prompt)),
    ];
    for saved in cases {
        let result = recover_config(saved);
        assert!(llm_config_is_valid(&result.config.llm_config));
    }
}

#[test]
fn imported_prompt_gets_a_fresh_identifier() {
    let config = LlmConfig {
        custom_prompt: "Legacy prompt".to_string(),
        profiles: vec![PromptProfile {
            id: "legacy_imported".to_string(),
            name: "Mine".to_string(),
            ..PromptProfile::new_default()
        }],
        active_profile_id: "legacy_imported".to_string(),
        ..LlmConfig::default()
    };
    let (config, changed, notice) = recover_llm_config(SavedLlmConfig::Parsed(config));
    assert!(changed);
    assert!(notice.is_none());
    assert_eq!(config.profiles[0].id, "legacy_imported_1");
    assert_eq!(config.profiles[0].name, "Legacy Imported 1");
    assert_eq!(config.active_profile_id, "legacy_imported_1");
    assert!(config.custom_prompt.is_empty());
}
