//! The trigger keys: a short press of the middle mouse button (or AltGr) is a
//! click, a press held past the threshold starts a skill recording that its
//! release stops.

use vstd::prelude::*;

verus! {

/// How long a press must be held before it counts as a hold.
pub const HOLD_THRESHOLD_MS: u64 = 350;

/// What the input listener tells the application.
#[derive(Debug, PartialEq, Eq)]
pub enum InputEvent {
    Click,
    StartSkill,
    StopSkill,
    MouseMove,
    DictationFinalizeWindowElapsed { session_id: u64 },
    DictationAsrFinished { session_id: u64, result: Result<String, String> },
}

/// The state of one trigger key: whether it is down, whether the current
/// press has become a hold, and the number of the current press (each
/// press's hold timer carries it, so that the timer of an earlier press does
/// nothing).
#[derive(Debug, Clone, Copy, PartialEq, Eq)]
pub struct HoldTrigger {
    pub pressed: bool,
    pub skill_active: bool,
    pub generation: u64,
}

/// A hold is only active while the key is down.
pub open spec fn trigger_wf(t: HoldTrigger) -> bool {
    t.skill_active ==> t.pressed
}

/// The next press number (the counter wraps around).
pub open spec fn next_generation(g: u64) -> u64 {
    if g == u64::MAX {
        0
    } else {
        (g + 1) as u64
    }
}

/// A press: ignored while the key is already down; otherwise the key goes
/// down with a new press number, for which a hold timer is to be started.
pub open spec fn press_step(t: HoldTrigger) -> (HoldTrigger, Option<u64>) {
    if t.pressed {
        (t, None)
    } else {
        let g = next_generation(t.generation);
        (HoldTrigger { pressed: true, skill_active: false, generation: g }, Some(g))
    }
}

/// The hold timer of press `g` fires: if that press is still the current one
/// and still down and not yet a hold, it becomes one and starts the skill.
pub open spec fn timer_step(t: HoldTrigger, g: u64) -> (HoldTrigger, Option<InputEvent>) {
    if t.generation != g || !t.pressed || t.skill_active {
        (t, None)
    } else {
        (HoldTrigger { skill_active: true, ..t }, Some(InputEvent::StartSkill))
    }
}

/// A release: ignored while the key is up; otherwise the key goes up and the
/// press was a click, or, if it had become a hold, stops the skill.
pub open spec fn release_step(t: HoldTrigger) -> (HoldTrigger, Option<InputEvent>) {
    if !t.pressed {
        (t, None)
    } else if t.skill_active {
        (HoldTrigger { pressed: false, skill_active: false, ..t }, Some(InputEvent::StopSkill))
    } else {
        (HoldTrigger { pressed: false, ..t }, Some(InputEvent::Click))
    }
}

impl HoldTrigger {
    /// A key that is up.
    pub fn new() -> (r: Self)
        ensures
            r == (HoldTrigger { pressed: false, skill_active: false, generation: 0 }),
    {
        HoldTrigger { pressed: false, skill_active: false, generation: 0 }
    }

    /// The key went down; returns the press number for which to start the
    /// hold timer, if this is a new press.
    pub fn on_press(&mut self) -> (r: Option<u64>)
        ensures
            (*final(self), r) == press_step(*old(self)),
    {
        if self.pressed {
            return None;
        }
        self.pressed = true;
        self.skill_active = false;
        self.generation = if self.generation == u64::MAX {
            0
        } else {
            self.generation + 1
        };
        Some(self.generation)
    }

    /// The hold timer of press `generation` fired.
    pub fn on_timer(&mut self, generation: u64) -> (r: Option<InputEvent>)
        ensures
            (*final(self), r) == timer_step(*old(self), generation),
    {
        if self.generation != generation || !self.pressed || self.skill_active {
            return None;
        }
        self.skill_active = true;
        Some(InputEvent::StartSkill)
    }

    /// The key went up.
    pub fn on_release(&mut self) -> (r: Option<InputEvent>)
        ensures
            (*final(self), r) == release_step(*old(self)),
    {
        if !self.pressed {
            return None;
        }
        self.pressed = false;
        if self.skill_active {
            self.skill_active = false;
            Some(InputEvent::StopSkill)
        } else {
            Some(InputEvent::Click)
        }
    }
}

/// Every step keeps a hold tied to a key that is down.
pub proof fn law_trigger_steps_keep_wf(t: HoldTrigger, g: u64)
    requires
        trigger_wf(t),
    ensures
        trigger_wf(press_step(t).0),
        trigger_wf(timer_step(t, g).0),
        trigger_wf(release_step(t).0),
{
}

/// A skill is stopped only by the release of a press that started it: a
/// release gives `StopSkill` exactly when the press had become a hold.
pub proof fn law_stop_follows_start(t: HoldTrigger)
    ensures
        release_step(t).1 == Some(InputEvent::StopSkill) <==> t.pressed && t.skill_active,
{
}

/// A press released before its hold timer fires is a click, and its timer
/// then does nothing.
pub proof fn law_short_press_is_click(t: HoldTrigger)
    requires
        !t.pressed,
    ensures
        ({
            let (t1, g) = press_step(t);
            let (t2, e) = release_step(t1);
            &&& g is Some
            &&& e == Some(InputEvent::Click)
            &&& timer_step(t2, g->0) == (t2, None::<InputEvent>)
        }),
{
}

/// A press held until its timer fires starts the skill once, and its release
/// stops it.
pub proof fn law_long_press_starts_and_stops(t: HoldTrigger)
    requires
        !t.pressed,
    ensures
        ({
            let (t1, g) = press_step(t);
            let (t2, e1) = timer_step(t1, g->0);
            let (t3, e2) = timer_step(t2, g->0);
            let (t4, e3) = release_step(t3);
            &&& e1 == Some(InputEvent::StartSkill)
            &&& e2 is None
            &&& e3 == Some(InputEvent::StopSkill)
            &&& !t4.pressed && !t4.skill_active
        }),
{
}

/// The timer of an earlier press does nothing.
pub proof fn law_stale_timer_is_ignored(t: HoldTrigger, g: u64)
    requires
        g != t.generation,
    ensures
        timer_step(t, g) == (t, None::<InputEvent>),
{
}

/// The trigger keys of the listener.
#[derive(Debug, Clone, Copy, PartialEq, Eq)]
pub enum TriggerKey {
    MiddleButton,
    AltGr,
}

/// A raw event from the keyboard and mouse hook.
#[derive(Debug, Clone, Copy, PartialEq, Eq)]
pub enum RawInput {
    Press(TriggerKey),
    Release(TriggerKey),
    MouseMove,
    Other,
}

/// Where a raw event goes.
#[derive(Debug, Clone, Copy, PartialEq, Eq)]
pub enum InputRoute {
    /// To the trigger of this key, as a press.
    Press(TriggerKey),
    /// To the trigger of this key, as a release.
    Release(TriggerKey),
    /// The mouse moved; the application wants to hear of it.
    ForwardMouseMove,
    /// Nothing for the application.
    Ignore,
}

/// The listener's settings: which triggers are enabled, and whether mouse
/// moves are to be reported.
#[derive(Debug, Clone, Copy, PartialEq, Eq)]
pub struct InputListener {
    pub enable_mouse: bool,
    pub enable_alt: bool,
    pub track_mouse_position: bool,
}

/// Where a raw event goes, and whether it is swallowed (kept from other
/// applications): an enabled trigger key's events go to its trigger and are
/// swallowed; mouse moves are reported while tracking; everything else passes.
pub open spec fn route_spec(l: InputListener, ev: RawInput) -> (InputRoute, bool) {
    match ev {
        RawInput::Press(k) => if (k == TriggerKey::MiddleButton && l.enable_mouse) || (k == TriggerKey::AltGr
            && l.enable_alt) {
            (InputRoute::Press(k), true)
        } else {
            (InputRoute::Ignore, false)
        },
        RawInput::Release(k) => if (k == TriggerKey::MiddleButton && l.enable_mouse) || (k
            == TriggerKey::AltGr && l.enable_alt) {
            (InputRoute::Release(k), true)
        } else {
            (InputRoute::Ignore, false)
        },
        RawInput::MouseMove => if l.track_mouse_position {
            (InputRoute::ForwardMouseMove, false)
        } else {
            (InputRoute::Ignore, false)
        },
        RawInput::Other => (InputRoute::Ignore, false),
    }
}

impl InputListener {
    /// Both triggers enabled; mouse moves not reported.
    pub fn new() -> (r: Self)
        ensures
            r == (InputListener { enable_mouse: true, enable_alt: true, track_mouse_position: false }),
    {
        InputListener { enable_mouse: true, enable_alt: true, track_mouse_position: false }
    }

    /// Takes the trigger settings of a saved configuration: the mouse trigger
    /// follows `trigger_mouse`, the AltGr trigger `trigger_toggle`.
    pub fn apply_config(&mut self, config: &crate::storage::AppConfig)
        ensures
            final(self).enable_mouse == config.trigger_mouse,
            final(self).enable_alt == config.trigger_toggle,
            final(self).track_mouse_position == old(self).track_mouse_position,
    {
        self.enable_mouse = config.trigger_mouse;
        self.enable_alt = config.trigger_toggle;
    }

    fn key_enabled(&self, k: TriggerKey) -> (b: bool)
        ensures
            b == ((k == TriggerKey::MiddleButton && self.enable_mouse) || (k == TriggerKey::AltGr
                && self.enable_alt)),
    {
        match k {
            TriggerKey::MiddleButton => self.enable_mouse,
            TriggerKey::AltGr => self.enable_alt,
        }
    }

    /// Where a raw event goes, and whether to swallow it.
    pub fn route(&self, ev: RawInput) -> (r: (InputRoute, bool))
        ensures
            r == route_spec(*self, ev),
    {
        match ev {
            RawInput::Press(k) => if self.key_enabled(k) {
                (InputRoute::Press(k), true)
            } else {
                (InputRoute::Ignore, false)
            },
            RawInput::Release(k) => if self.key_enabled(k) {
                (InputRoute::Release(k), true)
            } else {
                (InputRoute::Ignore, false)
            },
            RawInput::MouseMove => if self.track_mouse_position {
                (InputRoute::ForwardMouseMove, false)
            } else {
                (InputRoute::Ignore, false)
            },
            RawInput::Other => (InputRoute::Ignore, false),
        }
    }
}

} // verus!
