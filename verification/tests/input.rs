use fastsp::input::{HoldTrigger, InputEvent, InputListener, InputRoute, RawInput, TriggerKey};
use fastsp::session::{mode_after, next_session_action, RecordingMode, SessionAction};

#[test]
fn short_press_is_a_click() {
    let mut t = HoldTrigger::new();
    let g = t.on_press().expect("new press");
    assert_eq!(t.on_release(), Some(InputEvent::Click));
    assert_eq!(t.on_timer(g), None);
}

#[test]
fn long_press_starts_and_stops_skill() {
    let mut t = HoldTrigger::new();
    let g = t.on_press().expect("new press");
    assert_eq!(t.on_press(), None);
    assert_eq!(t.on_timer(g), Some(InputEvent::StartSkill));
    assert_eq!(t.on_timer(g), None);
    assert_eq!(t.on_release(), Some(InputEvent::StopSkill));
    assert_eq!(t.on_release(), None);
}

#[test]
fn stale_timer_is_ignored() {
    let mut t = HoldTrigger::new();
    let first = t.on_press().expect("press");
    t.on_release();
    let second = t.on_press().expect("press");
    assert_ne!(first, second);
    assert_eq!(t.on_timer(first), None);
    assert_eq!(t.on_timer(second), Some(InputEvent::StartSkill));
}

#[test]
fn generation_wraps_around() {
    let mut t = HoldTrigger { pressed: false, skill_active: false, generation: u64::MAX };
    assert_eq!(t.on_press(), Some(0));
}

#[test]
fn listener_routes_enabled_triggers_and_swallows_them() {
    let mut l = InputListener::new();
    assert_eq!(l.route(RawInput::Press(TriggerKey::MiddleButton)), (InputRoute::Press(TriggerKey::MiddleButton), true));
    assert_eq!(l.route(RawInput::Release(TriggerKey::AltGr)), (InputRoute::Release(TriggerKey::AltGr), true));
    assert_eq!(l.route(RawInput::MouseMove), (InputRoute::Ignore, false));
    l.enable_mouse = false;
    l.track_mouse_position = true;
    assert_eq!(l.route(RawInput::Press(TriggerKey::MiddleButton)), (InputRoute::Ignore, false));
    assert_eq!(l.route(RawInput::MouseMove), (InputRoute::ForwardMouseMove, false));
    assert_eq!(l.route(RawInput::Other), (InputRoute::Ignore, false));
}

#[test]
fn click_toggles_dictation() {
    let start = next_session_action(None, &InputEvent::Click, false);
    assert_eq!(start, SessionAction::StartRecording(RecordingMode::Dictation));
    let mode = mode_after(None, start, true);
    assert_eq!(mode, Some(RecordingMode::Dictation));
    let stop = next_session_action(mode, &InputEvent::Click, false);
    assert_eq!(stop, SessionAction::StopAndTranscribe { skill_mode: false });
    assert_eq!(mode_after(mode, stop, false), None);
}

#[test]
fn busy_pipeline_is_cancelled_before_a_new_recording() {
    assert_eq!(
        next_session_action(None, &InputEvent::StartSkill, true),
        SessionAction::CancelThenStart(RecordingMode::Skill)
    );
    assert_eq!(
        next_session_action(Some(RecordingMode::Dictation), &InputEvent::Click, true),
        SessionAction::Ignore
    );
    assert_eq!(mode_after(None, SessionAction::CancelThenStart(RecordingMode::Skill), false), None);
}

#[test]
fn skill_stop_only_ends_a_skill_recording() {
    assert_eq!(
        next_session_action(Some(RecordingMode::Dictation), &InputEvent::StopSkill, false),
        SessionAction::Ignore
    );
    assert_eq!(
        next_session_action(Some(RecordingMode::Skill), &InputEvent::StopSkill, false),
        SessionAction::StopAndTranscribe { skill_mode: true }
    );
    assert_eq!(
        next_session_action(Some(RecordingMode::Skill), &InputEvent::StartSkill, false),
        SessionAction::Ignore
    );
    assert_eq!(next_session_action(None, &InputEvent::MouseMove, false), SessionAction::Ignore);
}
