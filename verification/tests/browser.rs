use fastsp::browser::{
    build_browser_search_url, extract_freeform_query, is_likely_public_host, normalize_browser_target_token,
    normalize_browser_url, parse_tab_index, validate_safe_browser_url, UrlParts,
};
use fastsp::browser_plan::{plan_browser_action, BrowserAction, BrowserPlanResult};
use fastsp::ip::ip_literal;
use fastsp::skills::{find_skill_config, get_default_skills, OPEN_BROWSER_SKILL_ID};

#[test]
fn freeform_query_drops_trailing_connectives() {
    let t = "打开 github 然后";
    assert_eq!(extract_freeform_query(t, "打开".len(), None), "github");
    assert_eq!(extract_freeform_query("打开“知乎”再并且", "打开".len(), None), "知乎");
    assert_eq!(extract_freeform_query("打开", "打开".len(), None), "");
    assert_eq!(extract_freeform_query("打开", 1, None), "");
}

#[test]
fn tab_numbers() {
    assert_eq!(parse_tab_index("第十个"), Some(10));
    assert_eq!(parse_tab_index("第两个页面"), Some(2));
    assert_eq!(parse_tab_index("0"), None);
    assert_eq!(parse_tab_index("   "), None);
    assert_eq!(parse_tab_index("第十一个"), None);
    assert_eq!(parse_tab_index("99999999999999999999999"), None);
    assert_eq!(parse_tab_index("007"), Some(7));
}

#[test]
fn target_tokens_ignore_punctuation_and_case() {
    assert_eq!(normalize_browser_target_token("Git-Hub.com!"), "githubcom");
}

#[test]
fn urls_are_checked() {
    assert_eq!(normalize_browser_url("  https://example.com/a b "), Err("URL 包含空白字符".to_string()));
    assert_eq!(normalize_browser_url("   "), Err("URL 为空".to_string()));
    assert_eq!(normalize_browser_url("ftp://example.com"), Err("仅支持 http 或 https 地址".to_string()));
    assert_eq!(normalize_browser_url("localhost:8080"), Err("仅支持 http 或 https 地址".to_string()));
    assert_eq!(normalize_browser_url("intranet"), Err("无法识别为可打开的网址".to_string()));
    assert_eq!(normalize_browser_url("127.0.0.1").unwrap(), "https://127.0.0.1/");
    assert_eq!(normalize_browser_url("HTTP://Example.COM").unwrap(), "http://example.com/");
}

#[test]
fn safe_urls_need_http() {
    let ok = UrlParts {
        scheme: "https".to_string(),
        host: None,
        serialization: "https://a/".to_string(),
        port: Some(443),
        username: String::new(),
        password: None,
    };
    assert_eq!(validate_safe_browser_url(&ok), Ok("https://a/".to_string()));
    let bad = UrlParts {
        scheme: "data".to_string(),
        host: None,
        serialization: "data:x".to_string(),
        port: None,
        username: String::new(),
        password: None,
    };
    assert!(validate_safe_browser_url(&bad).is_err());
}

#[test]
fn public_hosts() {
    assert!(is_likely_public_host("LocalHost"));
    assert!(is_likely_public_host("10.0.0.1"));
    assert!(is_likely_public_host("::1"));
    assert!(is_likely_public_host("example.org"));
    assert!(!is_likely_public_host(".example"));
    assert!(!is_likely_public_host("example."));
    assert!(!is_likely_public_host("intranet"));
}

#[test]
fn ip_literals() {
    assert!(ip_literal("192.168.1.255"));
    assert!(!ip_literal("256.1.1.1"));
    assert!(!ip_literal("01.2.3.4"));
    assert!(!ip_literal("1.2.3"));
    assert!(ip_literal("2001:db8::1"));
    assert!(ip_literal("::"));
    assert!(ip_literal("::ffff:1.2.3.4"));
    assert!(ip_literal("1:2:3:4:5:6:7:8"));
    assert!(!ip_literal("1:2:3:4:5:6:7:8:9"));
    assert!(!ip_literal("1::2::3"));
    assert!(!ip_literal("12345::"));
    assert!(!ip_literal("1:2:3:4:5:6:7::8"));
    assert!(ip_literal("1:2:3:4:5:6:7::"));
    assert!(ip_literal("1:2:3:4:5:6:1.2.3.4"));
    assert!(!ip_literal("1.2.3.4::"));
    assert!(!ip_literal("::1.2.3.4:5"));
}

#[test]
fn search_url_without_placeholder_appends_query() {
    assert_eq!(
        build_browser_search_url("https://example.com/?q=", " a&b ").unwrap(),
        "https://example.com/?q=a%26b"
    );
}

#[test]
fn browser_plan_switches_to_numbered_tab() {
    let browser = find_skill_config(&get_default_skills(), OPEN_BROWSER_SKILL_ID).unwrap().clone();
    match plan_browser_action("切到第三个页面", &browser, None) {
        BrowserPlanResult::Action(plan) => {
            assert_eq!(plan.action, BrowserAction::SwitchTabIndex { index: 3 });
            assert_eq!(plan.consumed_end, "切到第三个页面".len());
        }
        other => panic!("unexpected plan: {:?}", other),
    }
}

#[test]
fn disabled_browser_skill_plans_nothing() {
    let mut browser = find_skill_config(&get_default_skills(), OPEN_BROWSER_SKILL_ID).unwrap().clone();
    browser.enabled = false;
    assert_eq!(plan_browser_action("打开开发者工具", &browser, None), BrowserPlanResult::NoAction);
}

#[test]
fn open_without_target_asks_for_one() {
    let browser = find_skill_config(&get_default_skills(), OPEN_BROWSER_SKILL_ID).unwrap().clone();
    assert_eq!(
        plan_browser_action("打开", &browser, None),
        BrowserPlanResult::Feedback("未识别到要打开的网站或网址".to_string())
    );
}
