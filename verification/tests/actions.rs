use fastsp::actions::{browser_shortcut_keys, skill_launch, KeyName, KeyStroke};
use fastsp::browser_plan::BrowserAction;

#[test]
fn skills_launch_their_programs() {
    let calc = skill_launch("open_calculator").expect("launch");
    assert_eq!(calc.program, "calc");
    assert!(calc.args.is_empty());
    let mail = skill_launch("compose_email").expect("launch");
    assert_eq!(mail.program, "cmd");
    assert_eq!(mail.args, vec!["/C", "start", "", "mailto:"]);
    assert_eq!(mail.failure, "Failed to open email client");
}

#[test]
fn skills_that_cannot_be_launched_say_why() {
    assert_eq!(
        skill_launch("open_browser").unwrap_err(),
        "Browser skill requires sub-command planning before execution"
    );
    assert_eq!(
        skill_launch("enable_polish").unwrap_err(),
        "Config skill 'enable_polish' must be handled by the transcription pipeline"
    );
    assert_eq!(skill_launch("teleport").unwrap_err(), "Unknown skill: teleport");
}

#[test]
fn shortcuts_press_the_browser_keys() {
    assert_eq!(
        browser_shortcut_keys(&BrowserAction::NewTab).unwrap(),
        vec![KeyStroke::Chord { modifiers: vec![KeyName::Control], key: KeyName::Char('t') }]
    );
    assert_eq!(
        browser_shortcut_keys(&BrowserAction::SwitchTabIndex { index: 42 }).unwrap(),
        vec![KeyStroke::Chord { modifiers: vec![KeyName::Control], key: KeyName::Char('9') }]
    );
    assert_eq!(
        browser_shortcut_keys(&BrowserAction::SwitchTabIndex { index: 0 }).unwrap(),
        vec![KeyStroke::Chord { modifiers: vec![KeyName::Control], key: KeyName::Char('1') }]
    );
    assert_eq!(
        browser_shortcut_keys(&BrowserAction::Find { query: Some("rust".to_string()) }).unwrap(),
        vec![
            KeyStroke::Chord { modifiers: vec![KeyName::Control], key: KeyName::Char('f') },
            KeyStroke::Type("rust".to_string()),
        ]
    );
    assert_eq!(browser_shortcut_keys(&BrowserAction::Refresh).unwrap(), vec![KeyStroke::Click(KeyName::F5)]);
}

#[test]
fn unsupported_shortcuts_are_errors() {
    assert_eq!(
        browser_shortcut_keys(&BrowserAction::CloseOtherTabs).unwrap_err(),
        "当前快捷键模式暂不支持这个浏览器操作"
    );
    assert_eq!(
        browser_shortcut_keys(&BrowserAction::OpenTarget { query: "x".to_string() }).unwrap_err(),
        "OpenTarget must be executed via URL navigation"
    );
}
