use fastsp::browser::{build_browser_search_url, normalize_browser_url, parse_tab_index, resolve_browser_site_url};
use fastsp::browser_plan::{plan_browser_action, BrowserAction, BrowserPlanResult};
use fastsp::matching::{match_skills, SkillMatch};
use fastsp::scenes::{extract_scene_query, resolve_scene, SceneResolveResult};
use fastsp::skills::{
    default_browser_sub_commands, find_skill_config, get_default_skills, merge_with_default_skills,
    SkillConfig, ENABLE_POLISH_SKILL_ID, OPEN_BROWSER_SKILL_ID, SWITCH_POLISH_SCENE_SKILL_ID,
};
use fastsp::storage::PromptProfile;

fn test_skill(id: &str, keywords: &str) -> SkillConfig {
    SkillConfig {
        id: id.to_string(),
        name: id.to_string(),
        keywords: keywords.to_string(),
        enabled: true,
        sub_commands: Vec::new(),
        browser_options: None,
    }
}

fn matched_ids(text: &str, skills: &[SkillConfig]) -> Vec<String> {
    match_skills(text, skills)
        .into_iter()
        .map(|skill_match| skill_match.skill_id)
        .collect()
}

fn browser_skill() -> SkillConfig {
    find_skill_config(&get_default_skills(), OPEN_BROWSER_SKILL_ID)
        .expect("browser skill")
        .clone()
}

#[test]
fn test_match_skills_single() {
    let skills = vec![
        test_skill("compose_email", "compose email,write email"),
        test_skill("open_calculator", "calculator,open calculator"),
    ];

    assert_eq!(matched_ids("compose email", &skills), vec!["compose_email".to_string()]);
    assert_eq!(
        matched_ids("please write email to the team", &skills),
        vec!["compose_email".to_string()]
    );
    assert_eq!(matched_ids("open calculator", &skills), vec!["open_calculator".to_string()]);
    assert!(matched_ids("the weather is nice today", &skills).is_empty());
}

#[test]
fn test_match_skills_multiple_in_transcript_order() {
    let skills = vec![
        test_skill("open_calculator", "calculator,open calculator"),
        test_skill(OPEN_BROWSER_SKILL_ID, "browser,open browser"),
    ];

    assert_eq!(
        matched_ids("browser and calculator", &skills),
        vec![OPEN_BROWSER_SKILL_ID.to_string(), "open_calculator".to_string()]
    );
}

#[test]
fn test_match_skills_deduplicates_per_skill() {
    let skills = vec![test_skill(OPEN_BROWSER_SKILL_ID, "browser,open browser")];

    assert_eq!(
        matched_ids("please open browser in the browser", &skills),
        vec![OPEN_BROWSER_SKILL_ID.to_string()]
    );
}

#[test]
fn merge_with_default_skills_backfills_browser_settings() {
    let legacy_browser = SkillConfig {
        id: OPEN_BROWSER_SKILL_ID.to_string(),
        name: "浏览器".to_string(),
        keywords: "打开浏览器".to_string(),
        enabled: true,
        sub_commands: Vec::new(),
        browser_options: None,
    };

    let (merged, changed) = merge_with_default_skills(vec![legacy_browser]);
    let browser = find_skill_config(&merged, OPEN_BROWSER_SKILL_ID).expect("browser skill");

    assert!(changed);
    assert_eq!(browser.sub_commands.len(), default_browser_sub_commands().len());
    assert!(browser.browser_options.is_some());
    assert!(browser
        .browser_options
        .as_ref()
        .expect("browser options")
        .sites
        .iter()
        .any(|site| site.id == "bilibili"));
}

#[test]
fn browser_plan_prefers_first_sub_command() {
    let browser = browser_skill();

    let plan = plan_browser_action("打开 github 然后关闭页面", &browser, None);
    match plan {
        BrowserPlanResult::Action(plan) => {
            assert_eq!(plan.action, BrowserAction::CloseTab);
            assert!(plan.note.is_some());
        }
        other => panic!("unexpected plan: {:?}", other),
    }
}

#[test]
fn browser_plan_prefers_specific_sub_command_over_open_target() {
    let browser = browser_skill();

    let plan = plan_browser_action("打开开发者工具", &browser, None);
    match plan {
        BrowserPlanResult::Action(plan) => {
            assert_eq!(plan.action, BrowserAction::OpenDevtools);
        }
        other => panic!("unexpected plan: {:?}", other),
    }
}

#[test]
fn browser_plan_uses_parent_match_when_only_browser_keyword_present() {
    let browser = browser_skill();
    let browser_match = SkillMatch {
        skill_id: OPEN_BROWSER_SKILL_ID.to_string(),
        keyword: "打开浏览器".to_string(),
        start: 0,
        end: "打开浏览器".len(),
    };

    let plan = plan_browser_action("打开浏览器 github.com", &browser, Some(&browser_match));
    match plan {
        BrowserPlanResult::Action(plan) => {
            assert_eq!(plan.action, BrowserAction::OpenTarget { query: "github.com".to_string() });
        }
        other => panic!("unexpected plan: {:?}", other),
    }
}

#[test]
fn resolve_browser_site_matches_alias() {
    let browser = browser_skill();

    assert_eq!(
        resolve_browser_site_url(&browser, "B站"),
        Some("https://www.bilibili.com".to_string())
    );
}

#[test]
fn normalize_browser_url_accepts_bare_domain() {
    assert_eq!(normalize_browser_url("github.com").expect("normalized"), "https://github.com/");
}

#[test]
fn normalize_browser_url_rejects_dangerous_scheme() {
    assert!(normalize_browser_url("javascript:alert(1)").is_err());
    assert!(normalize_browser_url("file:///c:/windows").is_err());
}

#[test]
fn build_browser_search_url_replaces_query_placeholder() {
    assert_eq!(
        build_browser_search_url("https://www.bing.com/search?q={query}", "飞书 文档")
            .expect("search url"),
        "https://www.bing.com/search?q=%E9%A3%9E%E4%B9%A6+%E6%96%87%E6%A1%A3"
    );
}

#[test]
fn parse_tab_index_supports_digits_and_chinese_numbers() {
    assert_eq!(parse_tab_index("3个页面"), Some(3));
    assert_eq!(parse_tab_index("第六个标签页"), Some(6));
}

#[test]
fn test_extract_scene_query_stops_before_next_skill() {
    let matches = vec![
        SkillMatch {
            skill_id: ENABLE_POLISH_SKILL_ID.to_string(),
            keyword: "启用润色".to_string(),
            start: 0,
            end: "启用润色".len(),
        },
        SkillMatch {
            skill_id: SWITCH_POLISH_SCENE_SKILL_ID.to_string(),
            keyword: "切换到".to_string(),
            start: "启用润色".len(),
            end: "启用润色切换到".len(),
        },
    ];

    assert_eq!(extract_scene_query("启用润色切换到邮件", &matches[1], None), "邮件".to_string());
}

#[test]
fn test_resolve_scene_prefers_aliases() {
    let profiles = vec![
        PromptProfile {
            id: "email".to_string(),
            name: "邮件写作".to_string(),
            voice_aliases: vec!["邮件".to_string()],
            ..PromptProfile::new_default()
        },
        PromptProfile {
            id: "notes".to_string(),
            name: "邮件".to_string(),
            voice_aliases: vec![],
            ..PromptProfile::new_default()
        },
    ];

    assert_eq!(
        resolve_scene(&profiles, "邮件场景"),
        SceneResolveResult::Unique {
            profile_id: "email".to_string(),
            profile_name: "邮件写作".to_string(),
        }
    );
}

#[test]
fn test_resolve_scene_detects_alias_conflicts() {
    let profiles = vec![
        PromptProfile {
            id: "email".to_string(),
            name: "邮件".to_string(),
            voice_aliases: vec!["客服".to_string()],
            ..PromptProfile::new_default()
        },
        PromptProfile {
            id: "support".to_string(),
            name: "客服".to_string(),
            voice_aliases: vec!["客服".to_string()],
            ..PromptProfile::new_default()
        },
    ];

    assert_eq!(
        resolve_scene(&profiles, "客服"),
        SceneResolveResult::Ambiguous(vec!["客服".to_string(), "邮件".to_string()])
    );
}
