//! What running a skill or a browser action does on the desktop, decided
//! here and carried out by the caller: the program to start for a skill, and
//! the keys to press for a browser shortcut.

use vstd::prelude::*;
use crate::browser_plan::{ActionModel, BrowserAction};
use crate::skills::{builtin_skill_of, BuiltinSkillId};
use crate::text::concat3;

verus! {

/// A program to start, with its arguments, and the words that begin the
/// error message if it cannot be started.
#[derive(Debug, PartialEq, Eq)]
pub struct LaunchCommand {
    pub program: String,
    pub args: Vec<String>,
    pub failure: String,
}

/// Mathematical model of a [`LaunchCommand`].
pub struct LaunchModel {
    pub program: Seq<char>,
    pub args: Seq<Seq<char>>,
    pub failure: Seq<char>,
}

impl View for LaunchCommand {
    type V = LaunchModel;

    open spec fn view(&self) -> LaunchModel {
        LaunchModel {
            program: self.program@,
            args: crate::text::string_views(self.args@),
            failure: self.failure@,
        }
    }
}

/// The PowerShell command that sends the screenshot shortcut (Win+Shift+S).
pub const SCREENSHOT_SCRIPT: &'static str = "Add-Type -AssemblyName System.Windows.Forms; [System.Windows.Forms.SendKeys]::SendWait('+#{s}')";

/// A launch with the given program, arguments and failure words.
pub open spec fn launch(program: Seq<char>, args: Seq<Seq<char>>, failure: Seq<char>) -> LaunchModel {
    LaunchModel { program, args, failure }
}

/// What running the skill `skill_id` starts, or why it cannot be run
/// directly: the browser skill needs a planned sub-command, and the
/// configuration skills belong to the transcription pipeline.
pub open spec fn skill_launch_spec(skill_id: Seq<char>) -> Result<LaunchModel, Seq<char>> {
    match builtin_skill_of(skill_id) {
        Some(BuiltinSkillId::ComposeEmail) => Ok(
            launch("cmd"@, seq!["/C"@, "start"@, ""@, "mailto:"@], "Failed to open email client"@),
        ),
        Some(BuiltinSkillId::OpenCalculator) => Ok(
            launch("calc"@, Seq::empty(), "Failed to open calculator"@),
        ),
        Some(BuiltinSkillId::OpenBrowser) => Err(
            "Browser skill requires sub-command planning before execution"@,
        ),
        Some(BuiltinSkillId::OpenNotepad) => Ok(
            launch("notepad"@, Seq::empty(), "Failed to open notepad"@),
        ),
        Some(BuiltinSkillId::OpenExplorer) => Ok(
            launch("explorer"@, Seq::empty(), "Failed to open explorer"@),
        ),
        Some(BuiltinSkillId::Screenshot) => Ok(
            launch(
                "powershell"@,
                seq!["-Command"@, SCREENSHOT_SCRIPT@],
                "Failed to trigger screenshot"@,
            ),
        ),
        Some(_) => Err(
            "Config skill '"@ + skill_id + "' must be handled by the transcription pipeline"@,
        ),
        None => Err("Unknown skill: "@ + skill_id + ""@),
    }
}

fn strings(parts: &[&str]) -> (r: Vec<String>)
    ensures
        r@.len() == parts@.len(),
        forall|i: int| 0 <= i < parts@.len() ==> #[trigger] r@[i]@ == parts@[i]@,
{
    let mut r: Vec<String> = Vec::new();
    let mut i: usize = 0;
    while i < parts.len()
        invariant
            i <= parts@.len(),
            r@.len() == i,
            forall|t: int| 0 <= t < i ==> #[trigger] r@[t]@ == parts@[t]@,
        decreases parts@.len() - i,
    {
        r.push(String::from_str(parts[i]));
        i = i + 1;
    }
    r
}

fn make_launch(program: &str, args: Vec<String>, failure: &str) -> (r: LaunchCommand)
    ensures
        r@ == launch(program@, crate::text::string_views(args@), failure@),
{
    LaunchCommand { program: String::from_str(program), args, failure: String::from_str(failure) }
}

/// What running the skill `skill_id` starts, or why it cannot be run here.
pub fn skill_launch(skill_id: &str) -> (r: Result<LaunchCommand, String>)
    ensures
        match r {
            Ok(c) => skill_launch_spec(skill_id@) == Ok::<LaunchModel, Seq<char>>(c@),
            Err(e) => skill_launch_spec(skill_id@) == Err::<LaunchModel, Seq<char>>(e@),
        },
{
    match BuiltinSkillId::from_str(skill_id) {
        Some(BuiltinSkillId::ComposeEmail) => {
            let args = strings(&["/C", "start", "", "mailto:"]);
            proof {
                assert(crate::text::string_views(args@) =~= seq!["/C"@, "start"@, ""@, "mailto:"@]);
            }
            Ok(make_launch("cmd", args, "Failed to open email client"))
        },
        Some(BuiltinSkillId::OpenCalculator) => {
            let args: Vec<String> = Vec::new();
            proof {
                assert(crate::text::string_views(args@) =~= Seq::<Seq<char>>::empty());
            }
            Ok(make_launch("calc", args, "Failed to open calculator"))
        },
        Some(BuiltinSkillId::OpenBrowser) => Err(
            String::from_str("Browser skill requires sub-command planning before execution"),
        ),
        Some(BuiltinSkillId::OpenNotepad) => {
            let args: Vec<String> = Vec::new();
            proof {
                assert(crate::text::string_views(args@) =~= Seq::<Seq<char>>::empty());
            }
            Ok(make_launch("notepad", args, "Failed to open notepad"))
        },
        Some(BuiltinSkillId::OpenExplorer) => {
            let args: Vec<String> = Vec::new();
            proof {
                assert(crate::text::string_views(args@) =~= Seq::<Seq<char>>::empty());
            }
            Ok(make_launch("explorer", args, "Failed to open explorer"))
        },
        Some(BuiltinSkillId::Screenshot) => {
            let args = strings(&["-Command", SCREENSHOT_SCRIPT]);
            proof {
                assert(crate::text::string_views(args@) =~= seq!["-Command"@, SCREENSHOT_SCRIPT@]);
            }
            Ok(make_launch("powershell", args, "Failed to trigger screenshot"))
        },
        Some(_) => Err(
            concat3("Config skill '", skill_id, "' must be handled by the transcription pipeline"),
        ),
        None => Err(concat3("Unknown skill: ", skill_id, "")),
    }
}


/// A key on the keyboard.
#[derive(Debug, Clone, Copy, PartialEq, Eq)]
pub enum KeyName {
    Control,
    Shift,
    Alt,
    Meta,
    Tab,
    Escape,
    Home,
    End,
    UpArrow,
    DownArrow,
    LeftArrow,
    RightArrow,
    PageUp,
    PageDown,
    F5,
    F11,
    F12,
    Char(char),
}

/// One step of a keyboard shortcut: a key clicked while modifiers are held,
/// a key clicked alone, or text typed character by character.
#[derive(Debug, PartialEq, Eq)]
pub enum KeyStroke {
    Chord { modifiers: Vec<KeyName>, key: KeyName },
    Click(KeyName),
    Type(String),
}

/// Mathematical model of a [`KeyStroke`].
pub enum StrokeModel {
    Chord { modifiers: Seq<KeyName>, key: KeyName },
    Click(KeyName),
    Type(Seq<char>),
}

impl View for KeyStroke {
    type V = StrokeModel;

    open spec fn view(&self) -> StrokeModel {
        match self {
            KeyStroke::Chord { modifiers, key } => StrokeModel::Chord { modifiers: modifiers@, key: *key },
            KeyStroke::Click(k) => StrokeModel::Click(*k),
            KeyStroke::Type(t) => StrokeModel::Type(t@),
        }
    }
}

/// Models of a sequence of strokes.
pub open spec fn stroke_views(v: Seq<KeyStroke>) -> Seq<StrokeModel> {
    v.map_values(|k: KeyStroke| k@)
}

/// `key` clicked with Ctrl held.
pub open spec fn ctrl(key: KeyName) -> StrokeModel {
    StrokeModel::Chord { modifiers: seq![KeyName::Control], key }
}

/// `key` clicked with Ctrl and Shift held.
pub open spec fn ctrl_shift(key: KeyName) -> StrokeModel {
    StrokeModel::Chord { modifiers: seq![KeyName::Control, KeyName::Shift], key }
}

/// `key` clicked with `modifier` held.
pub open spec fn with_modifier(modifier: KeyName, key: KeyName) -> StrokeModel {
    StrokeModel::Chord { modifiers: seq![modifier], key }
}

/// The digit key for a tab position, clamped to 1..9 (9 is the last tab).
pub open spec fn tab_digit(index: nat) -> char {
    if index <= 1 {
        '1'
    } else if index >= 9 {
        '9'
    } else if index == 2 {
        '2'
    } else if index == 3 {
        '3'
    } else if index == 4 {
        '4'
    } else if index == 5 {
        '5'
    } else if index == 6 {
        '6'
    } else if index == 7 {
        '7'
    } else {
        '8'
    }
}

/// The keys a browser action presses, or why the shortcut mode cannot do it.
pub open spec fn shortcut_spec(action: ActionModel) -> Result<Seq<StrokeModel>, Seq<char>> {
    match action {
        ActionModel::OpenTarget { .. } => Err("OpenTarget must be executed via URL navigation"@),
        ActionModel::NewTab => Ok(seq![ctrl(KeyName::Char('t'))]),
        ActionModel::CloseTab => Ok(seq![ctrl(KeyName::Char('w'))]),
        ActionModel::NextTab => Ok(seq![ctrl(KeyName::Tab)]),
        ActionModel::PreviousTab => Ok(seq![ctrl_shift(KeyName::Tab)]),
        ActionModel::SwitchTabIndex { index } => Ok(seq![ctrl(KeyName::Char(tab_digit(index)))]),
        ActionModel::ReopenTab => Ok(seq![ctrl_shift(KeyName::Char('t'))]),
        ActionModel::CloseOtherTabs => Err("当前快捷键模式暂不支持这个浏览器操作"@),
        ActionModel::CloseTabsToRight => Err("当前快捷键模式暂不支持这个浏览器操作"@),
        ActionModel::GoBack => Ok(seq![with_modifier(KeyName::Alt, KeyName::LeftArrow)]),
        ActionModel::GoForward => Ok(seq![with_modifier(KeyName::Alt, KeyName::RightArrow)]),
        ActionModel::Refresh => Ok(seq![StrokeModel::Click(KeyName::F5)]),
        ActionModel::HardRefresh => Ok(seq![ctrl(KeyName::F5)]),
        ActionModel::StopLoading => Ok(seq![StrokeModel::Click(KeyName::Escape)]),
        ActionModel::GoHome => Ok(seq![with_modifier(KeyName::Alt, KeyName::Home)]),
        ActionModel::ScrollUp => Ok(seq![StrokeModel::Click(KeyName::UpArrow)]),
        ActionModel::ScrollDown => Ok(seq![StrokeModel::Click(KeyName::DownArrow)]),
        ActionModel::ScrollTop => Ok(seq![ctrl(KeyName::Home)]),
        ActionModel::ScrollBottom => Ok(seq![ctrl(KeyName::End)]),
        ActionModel::PageUp => Ok(seq![StrokeModel::Click(KeyName::PageUp)]),
        ActionModel::PageDown => Ok(seq![StrokeModel::Click(KeyName::PageDown)]),
        ActionModel::Find { query } => match query {
            Some(q) => Ok(seq![ctrl(KeyName::Char('f')), StrokeModel::Type(q)]),
            None => Ok(seq![ctrl(KeyName::Char('f'))]),
        },
        ActionModel::Fullscreen => Ok(seq![StrokeModel::Click(KeyName::F11)]),
        ActionModel::CopyUrl => Ok(seq![ctrl(KeyName::Char('l')), ctrl(KeyName::Char('c'))]),
        ActionModel::OpenHistory => Ok(seq![ctrl(KeyName::Char('h'))]),
        ActionModel::OpenDownloads => Ok(seq![ctrl(KeyName::Char('j'))]),
        ActionModel::OpenDevtools => Ok(seq![StrokeModel::Click(KeyName::F12)]),
        ActionModel::MinimizeWindow => Ok(seq![with_modifier(KeyName::Meta, KeyName::DownArrow)]),
        ActionModel::MaximizeWindow => Ok(seq![with_modifier(KeyName::Meta, KeyName::UpArrow)]),
        ActionModel::NewPrivateWindow => Ok(seq![ctrl_shift(KeyName::Char('n'))]),
    }
}

/// Moves in opposite directions press the browser's own shortcuts for them:
/// back is Alt+Left and forward Alt+Right; the next tab Ctrl+Tab and the
/// previous one Ctrl+Shift+Tab; scrolling up and down the arrow keys, to the
/// top and bottom Ctrl+Home and Ctrl+End, by a page Page Up and Page Down;
/// minimising the window Win+Down and maximising it Win+Up.
pub proof fn law_directional_shortcuts()
    ensures
        shortcut_spec(ActionModel::GoBack) == Ok::<Seq<StrokeModel>, Seq<char>>(seq![StrokeModel::Chord { modifiers: seq![KeyName::Alt], key: KeyName::LeftArrow }]),
        shortcut_spec(ActionModel::GoForward) == Ok::<Seq<StrokeModel>, Seq<char>>(seq![StrokeModel::Chord { modifiers: seq![KeyName::Alt], key: KeyName::RightArrow }]),
        shortcut_spec(ActionModel::NextTab) == Ok::<Seq<StrokeModel>, Seq<char>>(seq![StrokeModel::Chord { modifiers: seq![KeyName::Control], key: KeyName::Tab }]),
        shortcut_spec(ActionModel::PreviousTab) == Ok::<Seq<StrokeModel>, Seq<char>>(seq![StrokeModel::Chord { modifiers: seq![KeyName::Control, KeyName::Shift], key: KeyName::Tab }]),
        shortcut_spec(ActionModel::ScrollUp) == Ok::<Seq<StrokeModel>, Seq<char>>(seq![StrokeModel::Click(KeyName::UpArrow)]),
        shortcut_spec(ActionModel::ScrollDown) == Ok::<Seq<StrokeModel>, Seq<char>>(seq![StrokeModel::Click(KeyName::DownArrow)]),
        shortcut_spec(ActionModel::ScrollTop) == Ok::<Seq<StrokeModel>, Seq<char>>(seq![StrokeModel::Chord { modifiers: seq![KeyName::Control], key: KeyName::Home }]),
        shortcut_spec(ActionModel::ScrollBottom) == Ok::<Seq<StrokeModel>, Seq<char>>(seq![StrokeModel::Chord { modifiers: seq![KeyName::Control], key: KeyName::End }]),
        shortcut_spec(ActionModel::PageUp) == Ok::<Seq<StrokeModel>, Seq<char>>(seq![StrokeModel::Click(KeyName::PageUp)]),
        shortcut_spec(ActionModel::PageDown) == Ok::<Seq<StrokeModel>, Seq<char>>(seq![StrokeModel::Click(KeyName::PageDown)]),
        shortcut_spec(ActionModel::MinimizeWindow) == Ok::<Seq<StrokeModel>, Seq<char>>(seq![StrokeModel::Chord { modifiers: seq![KeyName::Meta], key: KeyName::DownArrow }]),
        shortcut_spec(ActionModel::MaximizeWindow) == Ok::<Seq<StrokeModel>, Seq<char>>(seq![StrokeModel::Chord { modifiers: seq![KeyName::Meta], key: KeyName::UpArrow }]),
{
}

fn chord1(modifier: KeyName, key: KeyName) -> (r: Vec<KeyStroke>)
    ensures
        stroke_views(r@) == seq![with_modifier(modifier, key)],
{
    let mut m: Vec<KeyName> = Vec::new();
    m.push(modifier);
    let mut r: Vec<KeyStroke> = Vec::new();
    r.push(KeyStroke::Chord { modifiers: m, key });
    proof {
        assert(m@ =~= seq![modifier]);
        assert(stroke_views(r@) =~= seq![with_modifier(modifier, key)]);
    }
    r
}

fn ctrl_stroke(key: KeyName) -> (r: KeyStroke)
    ensures
        r@ == ctrl(key),
{
    let mut m: Vec<KeyName> = Vec::new();
    m.push(KeyName::Control);
    proof {
        assert(m@ =~= seq![KeyName::Control]);
    }
    KeyStroke::Chord { modifiers: m, key }
}

fn ctrl_shift_chord(key: KeyName) -> (r: Vec<KeyStroke>)
    ensures
        stroke_views(r@) == seq![ctrl_shift(key)],
{
    let mut m: Vec<KeyName> = Vec::new();
    m.push(KeyName::Control);
    m.push(KeyName::Shift);
    let mut r: Vec<KeyStroke> = Vec::new();
    r.push(KeyStroke::Chord { modifiers: m, key });
    proof {
        assert(m@ =~= seq![KeyName::Control, KeyName::Shift]);
        assert(stroke_views(r@) =~= seq![ctrl_shift(key)]);
    }
    r
}

fn click(key: KeyName) -> (r: Vec<KeyStroke>)
    ensures
        stroke_views(r@) == seq![StrokeModel::Click(key)],
{
    let mut r: Vec<KeyStroke> = Vec::new();
    r.push(KeyStroke::Click(key));
    proof {
        assert(stroke_views(r@) =~= seq![StrokeModel::Click(key)]);
    }
    r
}

/// The digit key for a tab position, clamped to 1..9.
fn tab_digit_key(index: usize) -> (c: char)
    ensures
        c == tab_digit(index as nat),
{
    if index <= 1 {
        '1'
    } else if index >= 9 {
        '9'
    } else if index == 2 {
        '2'
    } else if index == 3 {
        '3'
    } else if index == 4 {
        '4'
    } else if index == 5 {
        '5'
    } else if index == 6 {
        '6'
    } else if index == 7 {
        '7'
    } else {
        '8'
    }
}

/// The keys that carry out a browser action, or why the shortcut mode cannot.
pub fn browser_shortcut_keys(action: &BrowserAction) -> (r: Result<Vec<KeyStroke>, String>)
    ensures
        action@ == ActionModel::GoBack ==> (r matches Ok(keys) && stroke_views(keys@) == seq![
            StrokeModel::Chord { modifiers: seq![KeyName::Alt], key: KeyName::LeftArrow },
        ]),
        action@ == ActionModel::GoForward ==> (r matches Ok(keys) && stroke_views(keys@) == seq![
            StrokeModel::Chord { modifiers: seq![KeyName::Alt], key: KeyName::RightArrow },
        ]),
        match r {
            Ok(keys) => shortcut_spec(action@) == Ok::<Seq<StrokeModel>, Seq<char>>(stroke_views(keys@)),
            Err(e) => shortcut_spec(action@) == Err::<Seq<StrokeModel>, Seq<char>>(e@),
        },
{
    match action {
        BrowserAction::OpenTarget { .. } => Err(
            String::from_str("OpenTarget must be executed via URL navigation"),
        ),
        BrowserAction::NewTab => Ok(chord1(KeyName::Control, KeyName::Char('t'))),
        BrowserAction::CloseTab => Ok(chord1(KeyName::Control, KeyName::Char('w'))),
        BrowserAction::NextTab => Ok(chord1(KeyName::Control, KeyName::Tab)),
        BrowserAction::PreviousTab => Ok(ctrl_shift_chord(KeyName::Tab)),
        BrowserAction::SwitchTabIndex { index } => Ok(
            chord1(KeyName::Control, KeyName::Char(tab_digit_key(*index))),
        ),
        BrowserAction::ReopenTab => Ok(ctrl_shift_chord(KeyName::Char('t'))),
        BrowserAction::CloseOtherTabs => Err(String::from_str("当前快捷键模式暂不支持这个浏览器操作")),
        BrowserAction::CloseTabsToRight => Err(String::from_str("当前快捷键模式暂不支持这个浏览器操作")),
        BrowserAction::GoBack => Ok(chord1(KeyName::Alt, KeyName::LeftArrow)),
        BrowserAction::GoForward => Ok(chord1(KeyName::Alt, KeyName::RightArrow)),
        BrowserAction::Refresh => Ok(click(KeyName::F5)),
        BrowserAction::HardRefresh => Ok(chord1(KeyName::Control, KeyName::F5)),
        BrowserAction::StopLoading => Ok(click(KeyName::Escape)),
        BrowserAction::GoHome => Ok(chord1(KeyName::Alt, KeyName::Home)),
        BrowserAction::ScrollUp => Ok(click(KeyName::UpArrow)),
        BrowserAction::ScrollDown => Ok(click(KeyName::DownArrow)),
        BrowserAction::ScrollTop => Ok(chord1(KeyName::Control, KeyName::Home)),
        BrowserAction::ScrollBottom => Ok(chord1(KeyName::Control, KeyName::End)),
        BrowserAction::PageUp => Ok(click(KeyName::PageUp)),
        BrowserAction::PageDown => Ok(click(KeyName::PageDown)),
        BrowserAction::Find { query } => {
            let mut keys: Vec<KeyStroke> = Vec::new();
            keys.push(ctrl_stroke(KeyName::Char('f')));
            match query {
                Some(q) => {
                    keys.push(KeyStroke::Type(q.clone()));
                    proof {
                        assert(stroke_views(keys@)[0] == ctrl(KeyName::Char('f')));
                        assert(stroke_views(keys@)[1] == StrokeModel::Type(q@));
                        assert(stroke_views(keys@) =~= seq![ctrl(KeyName::Char('f')), StrokeModel::Type(q@)]);
                    }
                },
                None => {
                    proof {
                        assert(stroke_views(keys@) =~= seq![ctrl(KeyName::Char('f'))]);
                    }
                },
            }
            Ok(keys)
        },
        BrowserAction::Fullscreen => Ok(click(KeyName::F11)),
        BrowserAction::CopyUrl => {
            let mut keys: Vec<KeyStroke> = Vec::new();
            keys.push(ctrl_stroke(KeyName::Char('l')));
            keys.push(ctrl_stroke(KeyName::Char('c')));
            proof {
                assert(stroke_views(keys@)[0] == ctrl(KeyName::Char('l')));
                assert(stroke_views(keys@)[1] == ctrl(KeyName::Char('c')));
                assert(stroke_views(keys@) =~= seq![ctrl(KeyName::Char('l')), ctrl(KeyName::Char('c'))]);
            }
            Ok(keys)
        },
        BrowserAction::OpenHistory => Ok(chord1(KeyName::Control, KeyName::Char('h'))),
        BrowserAction::OpenDownloads => Ok(chord1(KeyName::Control, KeyName::Char('j'))),
        BrowserAction::OpenDevtools => Ok(click(KeyName::F12)),
        BrowserAction::MinimizeWindow => Ok(chord1(KeyName::Meta, KeyName::DownArrow)),
        BrowserAction::MaximizeWindow => Ok(chord1(KeyName::Meta, KeyName::UpArrow)),
        BrowserAction::NewPrivateWindow => Ok(ctrl_shift_chord(KeyName::Char('n'))),
    }
}

} // verus!
