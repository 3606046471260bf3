//! What a transcript asks of the browser: the sub-command spoken after the
//! browser keyword, chosen among those matched, with its argument.

use vstd::prelude::*;
use crate::browser::{extract_freeform_query, freeform_query_spec, parse_tab_index, tab_index_spec};
use crate::matching::{match_sub_commands, SkillMatch, SkillMatchModel, SubCommandMatch, SubCommandMatchModel};
use crate::skills::{
    BROWSER_CLOSE_OTHER_TABS_SUB_COMMAND_ID,
    BROWSER_CLOSE_TABS_TO_RIGHT_SUB_COMMAND_ID,
    BROWSER_CLOSE_TAB_SUB_COMMAND_ID,
    BROWSER_COPY_URL_SUB_COMMAND_ID,
    BROWSER_FIND_SUB_COMMAND_ID,
    BROWSER_FULLSCREEN_SUB_COMMAND_ID,
    BROWSER_GO_BACK_SUB_COMMAND_ID,
    BROWSER_GO_FORWARD_SUB_COMMAND_ID,
    BROWSER_GO_HOME_SUB_COMMAND_ID,
    BROWSER_HARD_REFRESH_SUB_COMMAND_ID,
    BROWSER_MAXIMIZE_WINDOW_SUB_COMMAND_ID,
    BROWSER_MINIMIZE_WINDOW_SUB_COMMAND_ID,
    BROWSER_NEW_PRIVATE_WINDOW_SUB_COMMAND_ID,
    BROWSER_NEW_TAB_SUB_COMMAND_ID,
    BROWSER_NEXT_TAB_SUB_COMMAND_ID,
    BROWSER_OPEN_DEVTOOLS_SUB_COMMAND_ID,
    BROWSER_OPEN_DOWNLOADS_SUB_COMMAND_ID,
    BROWSER_OPEN_HISTORY_SUB_COMMAND_ID,
    BROWSER_OPEN_TARGET_SUB_COMMAND_ID,
    BROWSER_PAGE_DOWN_SUB_COMMAND_ID,
    BROWSER_PAGE_UP_SUB_COMMAND_ID,
    BROWSER_PREVIOUS_TAB_SUB_COMMAND_ID,
    BROWSER_REFRESH_SUB_COMMAND_ID,
    BROWSER_REOPEN_TAB_SUB_COMMAND_ID,
    BROWSER_SCROLL_BOTTOM_SUB_COMMAND_ID,
    BROWSER_SCROLL_DOWN_SUB_COMMAND_ID,
    BROWSER_SCROLL_TOP_SUB_COMMAND_ID,
    BROWSER_SCROLL_UP_SUB_COMMAND_ID,
    BROWSER_STOP_LOADING_SUB_COMMAND_ID,
    BROWSER_SWITCH_TAB_INDEX_SUB_COMMAND_ID,
    SkillConfig,
    SkillModel,
};
use crate::text::{chars_of, concat3, str_equal};

verus! {

/// An action on the browser.
#[derive(Debug, PartialEq, Eq)]
pub enum BrowserAction {
    OpenTarget { query: String },
    NewTab,
    CloseTab,
    NextTab,
    PreviousTab,
    SwitchTabIndex { index: usize },
    ReopenTab,
    CloseOtherTabs,
    CloseTabsToRight,
    GoBack,
    GoForward,
    Refresh,
    HardRefresh,
    StopLoading,
    GoHome,
    ScrollUp,
    ScrollDown,
    ScrollTop,
    ScrollBottom,
    PageUp,
    PageDown,
    Find { query: Option<String> },
    Fullscreen,
    CopyUrl,
    OpenHistory,
    OpenDownloads,
    OpenDevtools,
    MinimizeWindow,
    MaximizeWindow,
    NewPrivateWindow,
}

/// Mathematical model of a [`BrowserAction`].
pub enum ActionModel {
    OpenTarget { query: Seq<char> },
    NewTab,
    CloseTab,
    NextTab,
    PreviousTab,
    SwitchTabIndex { index: nat },
    ReopenTab,
    CloseOtherTabs,
    CloseTabsToRight,
    GoBack,
    GoForward,
    Refresh,
    HardRefresh,
    StopLoading,
    GoHome,
    ScrollUp,
    ScrollDown,
    ScrollTop,
    ScrollBottom,
    PageUp,
    PageDown,
    Find { query: Option<Seq<char>> },
    Fullscreen,
    CopyUrl,
    OpenHistory,
    OpenDownloads,
    OpenDevtools,
    MinimizeWindow,
    MaximizeWindow,
    NewPrivateWindow,
}

impl View for BrowserAction {
    type V = ActionModel;

    open spec fn view(&self) -> ActionModel {
        match self {
            BrowserAction::OpenTarget { query } => ActionModel::OpenTarget { query: query@ },
            BrowserAction::NewTab => ActionModel::NewTab,
            BrowserAction::CloseTab => ActionModel::CloseTab,
            BrowserAction::NextTab => ActionModel::NextTab,
            BrowserAction::PreviousTab => ActionModel::PreviousTab,
            BrowserAction::SwitchTabIndex { index } => ActionModel::SwitchTabIndex {
                index: *index as nat,
            },
            BrowserAction::ReopenTab => ActionModel::ReopenTab,
            BrowserAction::CloseOtherTabs => ActionModel::CloseOtherTabs,
            BrowserAction::CloseTabsToRight => ActionModel::CloseTabsToRight,
            BrowserAction::GoBack => ActionModel::GoBack,
            BrowserAction::GoForward => ActionModel::GoForward,
            BrowserAction::Refresh => ActionModel::Refresh,
            BrowserAction::HardRefresh => ActionModel::HardRefresh,
            BrowserAction::StopLoading => ActionModel::StopLoading,
            BrowserAction::GoHome => ActionModel::GoHome,
            BrowserAction::ScrollUp => ActionModel::ScrollUp,
            BrowserAction::ScrollDown => ActionModel::ScrollDown,
            BrowserAction::ScrollTop => ActionModel::ScrollTop,
            BrowserAction::ScrollBottom => ActionModel::ScrollBottom,
            BrowserAction::PageUp => ActionModel::PageUp,
            BrowserAction::PageDown => ActionModel::PageDown,
            BrowserAction::Find { query } => ActionModel::Find {
                query: match query {
                    Some(q) => Some(q@),
                    None => None,
                },
            },
            BrowserAction::Fullscreen => ActionModel::Fullscreen,
            BrowserAction::CopyUrl => ActionModel::CopyUrl,
            BrowserAction::OpenHistory => ActionModel::OpenHistory,
            BrowserAction::OpenDownloads => ActionModel::OpenDownloads,
            BrowserAction::OpenDevtools => ActionModel::OpenDevtools,
            BrowserAction::MinimizeWindow => ActionModel::MinimizeWindow,
            BrowserAction::MaximizeWindow => ActionModel::MaximizeWindow,
            BrowserAction::NewPrivateWindow => ActionModel::NewPrivateWindow,
        }
    }
}

/// A planned browser action with the name of the sub-command that asked for
/// it, an optional note for the user, and the byte offset up to which the
/// transcript was used.
#[derive(Debug, PartialEq, Eq)]
pub struct BrowserActionPlan {
    pub action: BrowserAction,
    pub action_name: String,
    pub note: Option<String>,
    pub consumed_end: usize,
}

/// Mathematical model of a [`BrowserActionPlan`].
pub struct ActionPlanModel {
    pub action: ActionModel,
    pub action_name: Seq<char>,
    pub note: Option<Seq<char>>,
    pub consumed_end: int,
}

impl View for BrowserActionPlan {
    type V = ActionPlanModel;

    open spec fn view(&self) -> ActionPlanModel {
        ActionPlanModel {
            action: self.action@,
            action_name: self.action_name@,
            note: match self.note {
                Some(n) => Some(n@),
                None => None,
            },
            consumed_end: self.consumed_end as int,
        }
    }
}

/// What the browser is asked to do: an action, feedback for the user, or
/// nothing.
#[derive(Debug, PartialEq, Eq)]
pub enum BrowserPlanResult {
    Action(BrowserActionPlan),
    Feedback(String),
    NoAction,
}

/// Mathematical model of a [`BrowserPlanResult`].
pub enum PlanResultModel {
    Action(ActionPlanModel),
    Feedback(Seq<char>),
    NoAction,
}

impl View for BrowserPlanResult {
    type V = PlanResultModel;

    open spec fn view(&self) -> PlanResultModel {
        match self {
            BrowserPlanResult::Action(p) => PlanResultModel::Action(p@),
            BrowserPlanResult::Feedback(m) => PlanResultModel::Feedback(m@),
            BrowserPlanResult::NoAction => PlanResultModel::NoAction,
        }
    }
}

/// The action that a sub-command without an argument stands for.
pub open spec fn unit_action(id: Seq<char>) -> Option<ActionModel> {
    if id == BROWSER_NEW_TAB_SUB_COMMAND_ID@ {
        Some(ActionModel::NewTab)
    } else if id == BROWSER_CLOSE_TAB_SUB_COMMAND_ID@ {
        Some(ActionModel::CloseTab)
    } else if id == BROWSER_NEXT_TAB_SUB_COMMAND_ID@ {
        Some(ActionModel::NextTab)
    } else if id == BROWSER_PREVIOUS_TAB_SUB_COMMAND_ID@ {
        Some(ActionModel::PreviousTab)
    } else if id == BROWSER_REOPEN_TAB_SUB_COMMAND_ID@ {
        Some(ActionModel::ReopenTab)
    } else if id == BROWSER_CLOSE_OTHER_TABS_SUB_COMMAND_ID@ {
        Some(ActionModel::CloseOtherTabs)
    } else if id == BROWSER_CLOSE_TABS_TO_RIGHT_SUB_COMMAND_ID@ {
        Some(ActionModel::CloseTabsToRight)
    } else if id == BROWSER_GO_BACK_SUB_COMMAND_ID@ {
        Some(ActionModel::GoBack)
    } else if id == BROWSER_GO_FORWARD_SUB_COMMAND_ID@ {
        Some(ActionModel::GoForward)
    } else if id == BROWSER_REFRESH_SUB_COMMAND_ID@ {
        Some(ActionModel::Refresh)
    } else if id == BROWSER_HARD_REFRESH_SUB_COMMAND_ID@ {
        Some(ActionModel::HardRefresh)
    } else if id == BROWSER_STOP_LOADING_SUB_COMMAND_ID@ {
        Some(ActionModel::StopLoading)
    } else if id == BROWSER_GO_HOME_SUB_COMMAND_ID@ {
        Some(ActionModel::GoHome)
    } else if id == BROWSER_SCROLL_UP_SUB_COMMAND_ID@ {
        Some(ActionModel::ScrollUp)
    } else if id == BROWSER_SCROLL_DOWN_SUB_COMMAND_ID@ {
        Some(ActionModel::ScrollDown)
    } else if id == BROWSER_SCROLL_TOP_SUB_COMMAND_ID@ {
        Some(ActionModel::ScrollTop)
    } else if id == BROWSER_SCROLL_BOTTOM_SUB_COMMAND_ID@ {
        Some(ActionModel::ScrollBottom)
    } else if id == BROWSER_PAGE_UP_SUB_COMMAND_ID@ {
        Some(ActionModel::PageUp)
    } else if id == BROWSER_PAGE_DOWN_SUB_COMMAND_ID@ {
        Some(ActionModel::PageDown)
    } else if id == BROWSER_FULLSCREEN_SUB_COMMAND_ID@ {
        Some(ActionModel::Fullscreen)
    } else if id == BROWSER_COPY_URL_SUB_COMMAND_ID@ {
        Some(ActionModel::CopyUrl)
    } else if id == BROWSER_OPEN_HISTORY_SUB_COMMAND_ID@ {
        Some(ActionModel::OpenHistory)
    } else if id == BROWSER_OPEN_DOWNLOADS_SUB_COMMAND_ID@ {
        Some(ActionModel::OpenDownloads)
    } else if id == BROWSER_OPEN_DEVTOOLS_SUB_COMMAND_ID@ {
        Some(ActionModel::OpenDevtools)
    } else if id == BROWSER_MINIMIZE_WINDOW_SUB_COMMAND_ID@ {
        Some(ActionModel::MinimizeWindow)
    } else if id == BROWSER_MAXIMIZE_WINDOW_SUB_COMMAND_ID@ {
        Some(ActionModel::MaximizeWindow)
    } else if id == BROWSER_NEW_PRIVATE_WINDOW_SUB_COMMAND_ID@ {
        Some(ActionModel::NewPrivateWindow)
    } else {
        None
    }
}

/// The action that a sub-command without an argument stands for.
fn unit_action_for(id: &str) -> (r: Option<BrowserAction>)
    ensures
        match r {
            Some(a) => unit_action(id@) == Some(a@),
            None => unit_action(id@) is None,
        },
{
    if str_equal(id, BROWSER_NEW_TAB_SUB_COMMAND_ID) {
        Some(BrowserAction::NewTab)
    } else if str_equal(id, BROWSER_CLOSE_TAB_SUB_COMMAND_ID) {
        Some(BrowserAction::CloseTab)
    } else if str_equal(id, BROWSER_NEXT_TAB_SUB_COMMAND_ID) {
        Some(BrowserAction::NextTab)
    } else if str_equal(id, BROWSER_PREVIOUS_TAB_SUB_COMMAND_ID) {
        Some(BrowserAction::PreviousTab)
    } else if str_equal(id, BROWSER_REOPEN_TAB_SUB_COMMAND_ID) {
        Some(BrowserAction::ReopenTab)
    } else if str_equal(id, BROWSER_CLOSE_OTHER_TABS_SUB_COMMAND_ID) {
        Some(BrowserAction::CloseOtherTabs)
    } else if str_equal(id, BROWSER_CLOSE_TABS_TO_RIGHT_SUB_COMMAND_ID) {
        Some(BrowserAction::CloseTabsToRight)
    } else if str_equal(id, BROWSER_GO_BACK_SUB_COMMAND_ID) {
        Some(BrowserAction::GoBack)
    } else if str_equal(id, BROWSER_GO_FORWARD_SUB_COMMAND_ID) {
        Some(BrowserAction::GoForward)
    } else if str_equal(id, BROWSER_REFRESH_SUB_COMMAND_ID) {
        Some(BrowserAction::Refresh)
    } else if str_equal(id, BROWSER_HARD_REFRESH_SUB_COMMAND_ID) {
        Some(BrowserAction::HardRefresh)
    } else if str_equal(id, BROWSER_STOP_LOADING_SUB_COMMAND_ID) {
        Some(BrowserAction::StopLoading)
    } else if str_equal(id, BROWSER_GO_HOME_SUB_COMMAND_ID) {
        Some(BrowserAction::GoHome)
    } else if str_equal(id, BROWSER_SCROLL_UP_SUB_COMMAND_ID) {
        Some(BrowserAction::ScrollUp)
    } else if str_equal(id, BROWSER_SCROLL_DOWN_SUB_COMMAND_ID) {
        Some(BrowserAction::ScrollDown)
    } else if str_equal(id, BROWSER_SCROLL_TOP_SUB_COMMAND_ID) {
        Some(BrowserAction::ScrollTop)
    } else if str_equal(id, BROWSER_SCROLL_BOTTOM_SUB_COMMAND_ID) {
        Some(BrowserAction::ScrollBottom)
    } else if str_equal(id, BROWSER_PAGE_UP_SUB_COMMAND_ID) {
        Some(BrowserAction::PageUp)
    } else if str_equal(id, BROWSER_PAGE_DOWN_SUB_COMMAND_ID) {
        Some(BrowserAction::PageDown)
    } else if str_equal(id, BROWSER_FULLSCREEN_SUB_COMMAND_ID) {
        Some(BrowserAction::Fullscreen)
    } else if str_equal(id, BROWSER_COPY_URL_SUB_COMMAND_ID) {
        Some(BrowserAction::CopyUrl)
    } else if str_equal(id, BROWSER_OPEN_HISTORY_SUB_COMMAND_ID) {
        Some(BrowserAction::OpenHistory)
    } else if str_equal(id, BROWSER_OPEN_DOWNLOADS_SUB_COMMAND_ID) {
        Some(BrowserAction::OpenDownloads)
    } else if str_equal(id, BROWSER_OPEN_DEVTOOLS_SUB_COMMAND_ID) {
        Some(BrowserAction::OpenDevtools)
    } else if str_equal(id, BROWSER_MINIMIZE_WINDOW_SUB_COMMAND_ID) {
        Some(BrowserAction::MinimizeWindow)
    } else if str_equal(id, BROWSER_MAXIMIZE_WINDOW_SUB_COMMAND_ID) {
        Some(BrowserAction::MaximizeWindow)
    } else if str_equal(id, BROWSER_NEW_PRIVATE_WINDOW_SUB_COMMAND_ID) {
        Some(BrowserAction::NewPrivateWindow)
    } else {
        None
    }
}


/// The matches that start at or after byte offset `from`, in order.
pub open spec fn matches_from(ms: Seq<SubCommandMatchModel>, from: int) -> Seq<SubCommandMatchModel>
    decreases ms.len(),
{
    if ms.len() == 0 {
        Seq::empty()
    } else {
        let r = matches_from(ms.drop_last(), from);
        if ms.last().start >= from {
            r.push(ms.last())
        } else {
            r
        }
    }
}

/// The sub-command matches of the transcript that count: all of them, or
/// those after the browser keyword when it was matched.
pub open spec fn counted_matches(
    transcript: Seq<char>,
    skill: SkillModel,
    browser_end: Option<int>,
) -> Seq<SubCommandMatchModel> {
    let all = crate::matching::sub_matches_spec(transcript, skill.sub_commands);
    match browser_end {
        Some(e) => matches_from(all, e),
        None => all,
    }
}

/// Index of the first match, from index `k` on, that is not "open target".
pub open spec fn first_other_from(ms: Seq<SubCommandMatchModel>, k: int) -> Option<int>
    decreases ms.len() - k,
{
    if k < 0 || k >= ms.len() {
        None
    } else if ms[k].sub_command_id != BROWSER_OPEN_TARGET_SUB_COMMAND_ID@ {
        Some(k)
    } else {
        first_other_from(ms, k + 1)
    }
}

/// The match that is acted on: the first that is not "open target", else the
/// first.
pub open spec fn selected_index(ms: Seq<SubCommandMatchModel>) -> Option<int> {
    match first_other_from(ms, 0) {
        Some(i) => Some(i),
        None => if ms.len() > 0 {
            Some(0)
        } else {
            None
        },
    }
}

/// Start of the first match, from index `k` on in list order, that begins
/// after byte offset `s`.
pub open spec fn next_start_from(ms: Seq<SubCommandMatchModel>, k: int, s: int) -> Option<int>
    decreases ms.len() - k,
{
    if k < 0 || k >= ms.len() {
        None
    } else if ms[k].start > s {
        Some(ms[k].start)
    } else {
        next_start_from(ms, k + 1, s)
    }
}

/// An action planned for the selected sub-command.
pub open spec fn action_result(
    action: ActionModel,
    name: Seq<char>,
    note: Option<Seq<char>>,
    consumed_end: int,
) -> PlanResultModel {
    PlanResultModel::Action(ActionPlanModel { action, action_name: name, note, consumed_end })
}

/// The plan for the selected sub-command `sel` among the counted matches.
pub open spec fn selected_plan(
    transcript: Seq<char>,
    ms: Seq<SubCommandMatchModel>,
    sel: SubCommandMatchModel,
) -> PlanResultModel {
    let next = next_start_from(ms, 0, sel.start);
    let consumed = match next {
        Some(x) => x,
        None => crate::text::utf8_len(transcript) as int,
    };
    let note = if ms.len() > 1 {
        Some("检测到多个浏览器动作，已执行第一个："@ + sel.name + ""@)
    } else {
        None
    };
    let id = sel.sub_command_id;
    if id == BROWSER_OPEN_TARGET_SUB_COMMAND_ID@ {
        let query = freeform_query_spec(transcript, sel.end, next);
        if query.len() == 0 {
            PlanResultModel::Feedback("未识别到要打开的网站或网址"@)
        } else {
            action_result(ActionModel::OpenTarget { query }, sel.name, note, consumed)
        }
    } else if id == BROWSER_SWITCH_TAB_INDEX_SUB_COMMAND_ID@ {
        match tab_index_spec(freeform_query_spec(transcript, sel.end, next)) {
            Some(index) => action_result(ActionModel::SwitchTabIndex { index }, sel.name, note, consumed),
            None => PlanResultModel::Feedback("未识别到要切换到第几个页面"@),
        }
    } else if id == BROWSER_FIND_SUB_COMMAND_ID@ {
        let query = freeform_query_spec(transcript, sel.end, next);
        action_result(
            ActionModel::Find {
                query: if query.len() > 0 {
                    Some(query)
                } else {
                    None
                },
            },
            sel.name,
            note,
            consumed,
        )
    } else {
        match unit_action(id) {
            Some(a) => action_result(a, sel.name, note, consumed),
            None => PlanResultModel::NoAction,
        }
    }
}

/// The sub-command each browser action is named after.
pub open spec fn action_sub_command_id(a: ActionModel) -> Seq<char> {
    match a {
        ActionModel::OpenTarget { .. } => BROWSER_OPEN_TARGET_SUB_COMMAND_ID@,
        ActionModel::NewTab => BROWSER_NEW_TAB_SUB_COMMAND_ID@,
        ActionModel::CloseTab => BROWSER_CLOSE_TAB_SUB_COMMAND_ID@,
        ActionModel::NextTab => BROWSER_NEXT_TAB_SUB_COMMAND_ID@,
        ActionModel::PreviousTab => BROWSER_PREVIOUS_TAB_SUB_COMMAND_ID@,
        ActionModel::SwitchTabIndex { .. } => BROWSER_SWITCH_TAB_INDEX_SUB_COMMAND_ID@,
        ActionModel::ReopenTab => BROWSER_REOPEN_TAB_SUB_COMMAND_ID@,
        ActionModel::CloseOtherTabs => BROWSER_CLOSE_OTHER_TABS_SUB_COMMAND_ID@,
        ActionModel::CloseTabsToRight => BROWSER_CLOSE_TABS_TO_RIGHT_SUB_COMMAND_ID@,
        ActionModel::GoBack => BROWSER_GO_BACK_SUB_COMMAND_ID@,
        ActionModel::GoForward => BROWSER_GO_FORWARD_SUB_COMMAND_ID@,
        ActionModel::Refresh => BROWSER_REFRESH_SUB_COMMAND_ID@,
        ActionModel::HardRefresh => BROWSER_HARD_REFRESH_SUB_COMMAND_ID@,
        ActionModel::StopLoading => BROWSER_STOP_LOADING_SUB_COMMAND_ID@,
        ActionModel::GoHome => BROWSER_GO_HOME_SUB_COMMAND_ID@,
        ActionModel::ScrollUp => BROWSER_SCROLL_UP_SUB_COMMAND_ID@,
        ActionModel::ScrollDown => BROWSER_SCROLL_DOWN_SUB_COMMAND_ID@,
        ActionModel::ScrollTop => BROWSER_SCROLL_TOP_SUB_COMMAND_ID@,
        ActionModel::ScrollBottom => BROWSER_SCROLL_BOTTOM_SUB_COMMAND_ID@,
        ActionModel::PageUp => BROWSER_PAGE_UP_SUB_COMMAND_ID@,
        ActionModel::PageDown => BROWSER_PAGE_DOWN_SUB_COMMAND_ID@,
        ActionModel::Find { .. } => BROWSER_FIND_SUB_COMMAND_ID@,
        ActionModel::Fullscreen => BROWSER_FULLSCREEN_SUB_COMMAND_ID@,
        ActionModel::CopyUrl => BROWSER_COPY_URL_SUB_COMMAND_ID@,
        ActionModel::OpenHistory => BROWSER_OPEN_HISTORY_SUB_COMMAND_ID@,
        ActionModel::OpenDownloads => BROWSER_OPEN_DOWNLOADS_SUB_COMMAND_ID@,
        ActionModel::OpenDevtools => BROWSER_OPEN_DEVTOOLS_SUB_COMMAND_ID@,
        ActionModel::MinimizeWindow => BROWSER_MINIMIZE_WINDOW_SUB_COMMAND_ID@,
        ActionModel::MaximizeWindow => BROWSER_MAXIMIZE_WINDOW_SUB_COMMAND_ID@,
        ActionModel::NewPrivateWindow => BROWSER_NEW_PRIVATE_WINDOW_SUB_COMMAND_ID@,
    }
}

/// A planned action is the one its sub-command is named after: whatever
/// the transcript and the matches, when the selected sub-command yields an
/// action, that action belongs to the selected sub-command's identifier
/// (`next_tab` gives `NextTab`, `previous_tab` gives `PreviousTab`, and so on).
pub proof fn law_action_matches_sub_command(
    transcript: Seq<char>,
    ms: Seq<SubCommandMatchModel>,
    sel: SubCommandMatchModel,
)
    ensures
        selected_plan(transcript, ms, sel) matches PlanResultModel::Action(p) ==> action_sub_command_id(
            p.action,
        ) == sel.sub_command_id,
{
}

/// What the transcript asks of the browser: nothing if the browser skill is
/// disabled; the selected sub-command if one was matched (after the browser
/// keyword, when that was matched); else the text after the browser keyword
/// as a target to open.
pub open spec fn browser_plan_spec(
    transcript: Seq<char>,
    skill: SkillModel,
    browser_match: Option<SkillMatchModel>,
) -> PlanResultModel {
    if !skill.enabled {
        PlanResultModel::NoAction
    } else {
        let ms = counted_matches(
            transcript,
            skill,
            match browser_match {
                Some(b) => Some(b.end),
                None => None,
            },
        );
        match selected_index(ms) {
            Some(i) => selected_plan(transcript, ms, ms[i]),
            None => match browser_match {
                Some(b) => {
                    let query = freeform_query_spec(transcript, b.end, None);
                    if query.len() == 0 {
                        PlanResultModel::Feedback("未识别到要打开的网站或网址"@)
                    } else {
                        action_result(
                            ActionModel::OpenTarget { query },
                            "打开目标"@,
                            None,
                            crate::text::utf8_len(transcript) as int,
                        )
                    }
                },
                None => PlanResultModel::NoAction,
            },
        }
    }
}

/// The matches that start at or after byte offset `from`.
fn keep_matches_from(ms: &Vec<SubCommandMatch>, from: usize) -> (r: Vec<SubCommandMatch>)
    ensures
        crate::matching::sub_match_views(r@) == matches_from(
            crate::matching::sub_match_views(ms@),
            from as int,
        ),
{
    let ghost mv = crate::matching::sub_match_views(ms@);
    let mut r: Vec<SubCommandMatch> = Vec::new();
    let mut i: usize = 0;
    proof {
        assert(mv.take(0) =~= Seq::<SubCommandMatchModel>::empty());
        assert(crate::matching::sub_match_views(r@) =~= Seq::<SubCommandMatchModel>::empty());
    }
    while i < ms.len()
        invariant
            i <= ms@.len(),
            mv == crate::matching::sub_match_views(ms@),
            crate::matching::sub_match_views(r@) == matches_from(mv.take(i as int), from as int),
        decreases ms@.len() - i,
    {
        proof {
            assert(mv.take(i + 1).drop_last() =~= mv.take(i as int));
            assert(mv.take(i + 1).last() == ms@[i as int]@);
        }
        if ms[i].start >= from {
            let ghost before = crate::matching::sub_match_views(r@);
            let m = ms[i].clone();
            r.push(m);
            proof {
                assert(crate::matching::sub_match_views(r@) =~= before.push(ms@[i as int]@));
            }
        }
        i = i + 1;
    }
    proof {
        assert(mv.take(mv.len() as int) =~= mv);
    }
    r
}

/// The index of the match to act on.
fn select_match(ms: &Vec<SubCommandMatch>) -> (r: Option<usize>)
    ensures
        match r {
            Some(i) => selected_index(crate::matching::sub_match_views(ms@)) == Some(i as int) && i
                < ms@.len(),
            None => selected_index(crate::matching::sub_match_views(ms@)) is None,
        },
{
    let ghost mv = crate::matching::sub_match_views(ms@);
    let mut i: usize = 0;
    while i < ms.len()
        invariant
            i <= ms@.len(),
            mv == crate::matching::sub_match_views(ms@),
            first_other_from(mv, 0) == first_other_from(mv, i as int),
        decreases ms@.len() - i,
    {
        proof {
            assert(mv[i as int] == ms@[i as int]@);
        }
        if !str_equal(ms[i].sub_command_id.as_str(), BROWSER_OPEN_TARGET_SUB_COMMAND_ID) {
            return Some(i);
        }
        i = i + 1;
    }
    if ms.len() > 0 {
        Some(0)
    } else {
        None
    }
}

/// Start of the first match in list order that begins after `s`.
fn next_start_after(ms: &Vec<SubCommandMatch>, s: usize) -> (r: Option<usize>)
    ensures
        match r {
            Some(x) => next_start_from(crate::matching::sub_match_views(ms@), 0, s as int) == Some(
                x as int,
            ),
            None => next_start_from(crate::matching::sub_match_views(ms@), 0, s as int) is None,
        },
{
    let ghost mv = crate::matching::sub_match_views(ms@);
    let mut i: usize = 0;
    while i < ms.len()
        invariant
            i <= ms@.len(),
            mv == crate::matching::sub_match_views(ms@),
            next_start_from(mv, 0, s as int) == next_start_from(mv, i as int, s as int),
        decreases ms@.len() - i,
    {
        proof {
            assert(mv[i as int] == ms@[i as int]@);
        }
        if ms[i].start > s {
            return Some(ms[i].start);
        }
        i = i + 1;
    }
    None
}

fn plan_action(action: BrowserAction, name: &String, note: Option<String>, consumed_end: usize) -> (r:
    BrowserPlanResult)
    ensures
        r@ == action_result(
            action@,
            name@,
            match note {
                Some(n) => Some(n@),
                None => None,
            },
            consumed_end as int,
        ),
{
    BrowserPlanResult::Action(
        BrowserActionPlan { action, action_name: name.clone(), note, consumed_end },
    )
}

/// The plan for the selected match.
fn plan_selected(transcript: &str, ms: &Vec<SubCommandMatch>, sel: &SubCommandMatch) -> (r: BrowserPlanResult)
    ensures
        r@ == selected_plan(transcript@, crate::matching::sub_match_views(ms@), sel@),
{
    let t = chars_of(transcript);
    let next = next_start_after(ms, sel.start);
    let consumed_end = match next {
        Some(x) => x,
        None => crate::matching::byte_offset(&t, t.len()),
    };
    proof {
        assert(t@.take(t@.len() as int) =~= t@);
    }
    let note = if ms.len() > 1 {
        Some(concat3("检测到多个浏览器动作，已执行第一个：", sel.name.as_str(), ""))
    } else {
        None
    };
    let id = sel.sub_command_id.as_str();
    if str_equal(id, BROWSER_OPEN_TARGET_SUB_COMMAND_ID) {
        let query = extract_freeform_query(transcript, sel.end, next);
        if query.as_str().is_empty() {
            BrowserPlanResult::Feedback(String::from_str("未识别到要打开的网站或网址"))
        } else {
            plan_action(BrowserAction::OpenTarget { query }, &sel.name, note, consumed_end)
        }
    } else if str_equal(id, BROWSER_SWITCH_TAB_INDEX_SUB_COMMAND_ID) {
        let query = extract_freeform_query(transcript, sel.end, next);
        match parse_tab_index(query.as_str()) {
            Some(index) => plan_action(
                BrowserAction::SwitchTabIndex { index },
                &sel.name,
                note,
                consumed_end,
            ),
            None => BrowserPlanResult::Feedback(String::from_str("未识别到要切换到第几个页面")),
        }
    } else if str_equal(id, BROWSER_FIND_SUB_COMMAND_ID) {
        let query = extract_freeform_query(transcript, sel.end, next);
        let q = if query.as_str().is_empty() {
            None
        } else {
            Some(query)
        };
        plan_action(BrowserAction::Find { query: q }, &sel.name, note, consumed_end)
    } else {
        match unit_action_for(id) {
            Some(a) => plan_action(a, &sel.name, note, consumed_end),
            None => BrowserPlanResult::NoAction,
        }
    }
}

/// Plans what the transcript asks of the browser.
pub fn plan_browser_action(
    transcript: &str,
    browser_skill: &SkillConfig,
    browser_match: Option<&SkillMatch>,
) -> (r: BrowserPlanResult)
    ensures
        r@ == browser_plan_spec(
            transcript@,
            browser_skill@,
            match browser_match {
                Some(b) => Some(b@),
                None => None,
            },
        ),
{
    if !browser_skill.enabled {
        return BrowserPlanResult::NoAction;
    }
    let all = match_sub_commands(transcript, &browser_skill.sub_commands);
    let ms = match browser_match {
        Some(b) => keep_matches_from(&all, b.end),
        None => all,
    };
    match select_match(&ms) {
        Some(i) => {
            proof {
                assert(crate::matching::sub_match_views(ms@)[i as int] == ms@[i as int]@);
            }
            plan_selected(transcript, &ms, &ms[i])
        },
        None => match browser_match {
            Some(b) => {
                let query = extract_freeform_query(transcript, b.end, None);
                if query.as_str().is_empty() {
                    BrowserPlanResult::Feedback(String::from_str("未识别到要打开的网站或网址"))
                } else {
                    let t = chars_of(transcript);
                    let end = crate::matching::byte_offset(&t, t.len());
                    proof {
                        assert(t@.take(t@.len() as int) =~= t@);
                    }
                    BrowserPlanResult::Action(
                        BrowserActionPlan {
                            action: BrowserAction::OpenTarget { query },
                            action_name: String::from_str("打开目标"),
                            note: None,
                            consumed_end: end,
                        },
                    )
                }
            },
            None => BrowserPlanResult::NoAction,
        },
    }
}

} // verus!
