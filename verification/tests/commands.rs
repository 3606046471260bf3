use fastsp::commands::{plan_config_skill_update, ConfigSkillPlan, VoiceCommandFeedback};
use fastsp::matching::SkillMatch;
use fastsp::scenes::normalize_scene_token;
use fastsp::skills::{DISABLE_POLISH_SKILL_ID, ENABLE_POLISH_SKILL_ID, SWITCH_POLISH_SCENE_SKILL_ID};
use fastsp::storage::{llm_config_is_valid, AppConfig, PromptProfile};

fn expect_saved_config(plan: ConfigSkillPlan) -> (AppConfig, VoiceCommandFeedback) {
    match plan {
        ConfigSkillPlan::Save { config, feedback } => (config, feedback),
        ConfigSkillPlan::Feedback(feedback) => {
            panic!("expected saved config, got feedback: {:?}", feedback)
        }
    }
}

fn profile(id: &str, name: &str, voice_aliases: &[&str]) -> PromptProfile {
    PromptProfile {
        id: id.to_string(),
        name: name.to_string(),
        voice_aliases: voice_aliases.iter().map(|alias| alias.to_string()).collect(),
        ..PromptProfile::new_default()
    }
}

fn switch_match() -> SkillMatch {
    SkillMatch {
        skill_id: SWITCH_POLISH_SCENE_SKILL_ID.to_string(),
        keyword: "切换到".to_string(),
        start: 0,
        end: "切换到".len(),
    }
}

#[test]
fn enable_polish_plans_enabled_config() {
    let config = AppConfig::default();
    let plan = plan_config_skill_update(
        "启用润色",
        &SkillMatch {
            skill_id: ENABLE_POLISH_SKILL_ID.to_string(),
            keyword: "启用润色".to_string(),
            start: 0,
            end: "启用润色".len(),
        },
        None,
        &config,
    )
    .expect("plan should succeed");

    let (next_config, feedback) = expect_saved_config(plan);
    assert!(next_config.llm_config.enabled);
    assert_eq!(feedback.message, "已启用润色");
}

#[test]
fn disable_polish_plans_disabled_config() {
    let mut config = AppConfig::default();
    config.llm_config.enabled = true;

    let plan = plan_config_skill_update(
        "关闭润色",
        &SkillMatch {
            skill_id: DISABLE_POLISH_SKILL_ID.to_string(),
            keyword: "关闭润色".to_string(),
            start: 0,
            end: "关闭润色".len(),
        },
        None,
        &config,
    )
    .expect("plan should succeed");

    let (next_config, feedback) = expect_saved_config(plan);
    assert!(!next_config.llm_config.enabled);
    assert_eq!(feedback.message, "已关闭润色");
}

#[test]
fn switch_scene_matches_voice_alias() {
    let mut config = AppConfig::default();
    config.llm_config.profiles = vec![
        profile("default", "默认", &[]),
        profile("email", "邮件写作", &["邮件"]),
    ];
    config.llm_config.active_profile_id = "default".to_string();

    let plan = plan_config_skill_update("切换到邮件", &switch_match(), None, &config)
        .expect("plan should succeed");

    let (next_config, feedback) = expect_saved_config(plan);
    assert_eq!(next_config.llm_config.active_profile_id, "email");
    assert_eq!(feedback.message, "已切换到场景“邮件写作”");
}

#[test]
fn switch_scene_falls_back_to_profile_name() {
    let mut config = AppConfig::default();
    config.llm_config.profiles = vec![profile("meeting", "会议纪要", &[])];
    config.llm_config.active_profile_id = "meeting".to_string();

    let plan = plan_config_skill_update("切换到会议纪要模式", &switch_match(), None, &config)
        .expect("plan should succeed");

    match plan {
        ConfigSkillPlan::Feedback(feedback) => {
            assert_eq!(feedback.message, "当前已经是场景“会议纪要”");
        }
        ConfigSkillPlan::Save { .. } => panic!("expected no-op feedback when already active"),
    }
}

#[test]
fn switch_scene_reports_alias_conflicts() {
    let mut config = AppConfig::default();
    config.llm_config.profiles = vec![
        profile("email", "邮件", &["客服"]),
        profile("support", "客服回复", &["客服"]),
    ];

    let plan = plan_config_skill_update("切换到客服", &switch_match(), None, &config)
        .expect("plan should succeed");

    match plan {
        ConfigSkillPlan::Feedback(feedback) => {
            assert_eq!(feedback.level, "error");
            assert!(feedback.message.contains("匹配到多个场景"));
        }
        ConfigSkillPlan::Save { .. } => panic!("expected ambiguity feedback"),
    }
}

#[test]
fn combined_enable_and_switch_commands_apply_in_order() {
    let mut config = AppConfig::default();
    config.llm_config.enabled = false;
    config.llm_config.profiles = vec![
        profile("default", "默认", &[]),
        profile("email", "邮件", &["邮件"]),
    ];
    config.llm_config.active_profile_id = "default".to_string();

    let transcript = "启用润色切换到邮件";
    let enable_match = SkillMatch {
        skill_id: ENABLE_POLISH_SKILL_ID.to_string(),
        keyword: "启用润色".to_string(),
        start: 0,
        end: "启用润色".len(),
    };
    let switch_match = SkillMatch {
        skill_id: SWITCH_POLISH_SCENE_SKILL_ID.to_string(),
        keyword: "切换到".to_string(),
        start: "启用润色".len(),
        end: "启用润色切换到".len(),
    };

    let (after_enable, _) = expect_saved_config(
        plan_config_skill_update(transcript, &enable_match, Some(&switch_match), &config)
            .expect("enable plan should succeed"),
    );
    let (after_switch, _) = expect_saved_config(
        plan_config_skill_update(transcript, &switch_match, None, &after_enable)
            .expect("switch plan should succeed"),
    );

    assert!(after_switch.llm_config.enabled);
    assert_eq!(after_switch.llm_config.active_profile_id, "email");
}

#[test]
fn enable_when_already_enabled_only_informs() {
    let mut config = AppConfig::default();
    config.llm_config.enabled = true;
    let plan = plan_config_skill_update(
        "启用润色",
        &SkillMatch {
            skill_id: ENABLE_POLISH_SKILL_ID.to_string(),
            keyword: "启用润色".to_string(),
            start: 0,
            end: "启用润色".len(),
        },
        None,
        &config,
    )
    .expect("plan should succeed");
    match plan {
        ConfigSkillPlan::Feedback(feedback) => {
            assert_eq!(feedback.level, "info");
            assert_eq!(feedback.message, "润色已经处于启用状态");
        }
        ConfigSkillPlan::Save { .. } => panic!("expected feedback only"),
    }
}

#[test]
fn switch_without_scene_name_reports_error() {
    let config = AppConfig::default();
    let plan = plan_config_skill_update("切换到", &switch_match(), None, &config)
        .expect("plan should succeed");
    match plan {
        ConfigSkillPlan::Feedback(feedback) => {
            assert_eq!(feedback.level, "error");
            assert_eq!(feedback.message, "未识别到要切换的润色场景");
        }
        ConfigSkillPlan::Save { .. } => panic!("expected error feedback"),
    }
}

#[test]
fn switch_to_unknown_scene_reports_no_match() {
    let config = AppConfig::default();
    let plan = plan_config_skill_update("切换到火星", &switch_match(), None, &config)
        .expect("plan should succeed");
    match plan {
        ConfigSkillPlan::Feedback(feedback) => {
            assert_eq!(feedback.message, "未找到匹配场景：火星");
        }
        ConfigSkillPlan::Save { .. } => panic!("expected error feedback"),
    }
}

#[test]
fn alias_conflict_lists_names_sorted() {
    let mut config = AppConfig::default();
    config.llm_config.profiles = vec![
        profile("b", "邮件", &["客服"]),
        profile("a", "客服", &["客服"]),
    ];
    let plan = plan_config_skill_update("切换到客服", &switch_match(), None, &config)
        .expect("plan should succeed");
    match plan {
        ConfigSkillPlan::Feedback(feedback) => {
            assert_eq!(feedback.message, "匹配到多个场景：客服、邮件");
        }
        ConfigSkillPlan::Save { .. } => panic!("expected ambiguity feedback"),
    }
}

#[test]
fn unsupported_config_skill_is_an_error() {
    let config = AppConfig::default();
    let result = plan_config_skill_update(
        "x",
        &SkillMatch {
            skill_id: "open_calculator".to_string(),
            keyword: "x".to_string(),
            start: 0,
            end: 1,
        },
        None,
        &config,
    );
    assert_eq!(result.err(), Some("Unsupported config skill: open_calculator".to_string()));
}

#[test]
fn config_update_failure_names_the_error() {
    let feedback = fastsp::commands::config_update_failure("disk full");
    assert_eq!(feedback.level, "error");
    assert_eq!(feedback.message, "配置更新失败：disk full");
}

#[test]
fn scene_switch_keeps_settings_usable() {
    let mut config = AppConfig::default();
    config.llm_config.profiles = vec![
        profile("default", "默认", &[]),
        profile("email", "邮件写作", &["邮件"]),
    ];
    config.llm_config.active_profile_id = "default".to_string();
    assert!(llm_config_is_valid(&config.llm_config));

    let plan = plan_config_skill_update("切换到邮件", &switch_match(), None, &config)
        .expect("plan should succeed");
    let (next_config, _) = expect_saved_config(plan);
    assert!(llm_config_is_valid(&next_config.llm_config));
    assert_eq!(next_config.llm_config.enabled, config.llm_config.enabled);
    let ids: Vec<&str> = next_config.llm_config.profiles.iter().map(|p| p.id.as_str()).collect();
    assert_eq!(ids, vec!["default", "email"]);
    assert_eq!(next_config.skills.len(), config.skills.len());
}

#[test]
fn normalized_scene_names_are_stable() {
    for raw in ["邮件 场景模式", "Meeting Notes 模式", "  客服，回复！ ", "场景"] {
        let once = normalize_scene_token(raw);
        assert!(!once.ends_with("场景") && !once.ends_with("模式"));
        assert_eq!(normalize_scene_token(&once), once);
    }
    assert_eq!(normalize_scene_token("邮件 场景模式"), "邮件");
    assert_eq!(normalize_scene_token("Meeting Notes 模式"), "meetingnotes");
}

#[test]
fn enable_then_switch_keeps_polishing_on() {
    let mut config = AppConfig::default();
    config.llm_config.profiles = vec![
        profile("default", "默认", &[]),
        profile("email", "邮件写作", &["邮件"]),
    ];
    config.llm_config.active_profile_id = "default".to_string();
    let transcript = "启用润色切换到邮件";
    let enable = SkillMatch {
        skill_id: ENABLE_POLISH_SKILL_ID.to_string(),
        keyword: "启用润色".to_string(),
        start: 0,
        end: "启用润色".len(),
    };
    let switch = SkillMatch {
        skill_id: SWITCH_POLISH_SCENE_SKILL_ID.to_string(),
        keyword: "切换到".to_string(),
        start: "启用润色".len(),
        end: "启用润色切换到".len(),
    };
    let (after_enable, _) =
        expect_saved_config(plan_config_skill_update(transcript, &enable, Some(&switch), &config).unwrap());
    let (after_switch, _) =
        expect_saved_config(plan_config_skill_update(transcript, &switch, None, &after_enable).unwrap());
    assert!(after_switch.llm_config.enabled);
    assert_eq!(after_switch.llm_config.active_profile_id, "email");
}
