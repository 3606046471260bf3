//! Skill configuration: the built-in skills, their browser sub-commands and
//! sites, and the merge that brings a saved configuration up to date with the
//! built-in defaults.

use vstd::prelude::*;
use vstd::string::*;
use crate::text::{chars_of, str_equal, trim_class, CharClass};


verus! {
/// Identifier `enable_polish`.
pub const ENABLE_POLISH_SKILL_ID: &'static str = "enable_polish";
/// Identifier `disable_polish`.
pub const DISABLE_POLISH_SKILL_ID: &'static str = "disable_polish";
/// Identifier `switch_polish_scene`.
pub const SWITCH_POLISH_SCENE_SKILL_ID: &'static str = "switch_polish_scene";
/// Identifier `open_browser`.
pub const OPEN_BROWSER_SKILL_ID: &'static str = "open_browser";
/// Identifier `open_target`.
pub const BROWSER_OPEN_TARGET_SUB_COMMAND_ID: &'static str = "open_target";
/// Identifier `new_tab`.
pub const BROWSER_NEW_TAB_SUB_COMMAND_ID: &'static str = "new_tab";
/// Identifier `close_tab`.
pub const BROWSER_CLOSE_TAB_SUB_COMMAND_ID: &'static str = "close_tab";
/// Identifier `next_tab`.
pub const BROWSER_NEXT_TAB_SUB_COMMAND_ID: &'static str = "next_tab";
/// Identifier `previous_tab`.
pub const BROWSER_PREVIOUS_TAB_SUB_COMMAND_ID: &'static str = "previous_tab";
/// Identifier `switch_tab_index`.
pub const BROWSER_SWITCH_TAB_INDEX_SUB_COMMAND_ID: &'static str = "switch_tab_index";
/// Identifier `reopen_tab`.
pub const BROWSER_REOPEN_TAB_SUB_COMMAND_ID: &'static str = "reopen_tab";
/// Identifier `close_other_tabs`.
pub const BROWSER_CLOSE_OTHER_TABS_SUB_COMMAND_ID: &'static str = "close_other_tabs";
/// Identifier `close_tabs_to_right`.
pub const BROWSER_CLOSE_TABS_TO_RIGHT_SUB_COMMAND_ID: &'static str = "close_tabs_to_right";
/// Identifier `go_back`.
pub const BROWSER_GO_BACK_SUB_COMMAND_ID: &'static str = "go_back";
/// Identifier `go_forward`.
pub const BROWSER_GO_FORWARD_SUB_COMMAND_ID: &'static str = "go_forward";
/// Identifier `refresh`.
pub const BROWSER_REFRESH_SUB_COMMAND_ID: &'static str = "refresh";
/// Identifier `hard_refresh`.
pub const BROWSER_HARD_REFRESH_SUB_COMMAND_ID: &'static str = "hard_refresh";
/// Identifier `stop_loading`.
pub const BROWSER_STOP_LOADING_SUB_COMMAND_ID: &'static str = "stop_loading";
/// Identifier `go_home`.
pub const BROWSER_GO_HOME_SUB_COMMAND_ID: &'static str = "go_home";
/// Identifier `scroll_up`.
pub const BROWSER_SCROLL_UP_SUB_COMMAND_ID: &'static str = "scroll_up";
/// Identifier `scroll_down`.
pub const BROWSER_SCROLL_DOWN_SUB_COMMAND_ID: &'static str = "scroll_down";
/// Identifier `scroll_top`.
pub const BROWSER_SCROLL_TOP_SUB_COMMAND_ID: &'static str = "scroll_top";
/// Identifier `scroll_bottom`.
pub const BROWSER_SCROLL_BOTTOM_SUB_COMMAND_ID: &'static str = "scroll_bottom";
/// Identifier `page_up`.
pub const BROWSER_PAGE_UP_SUB_COMMAND_ID: &'static str = "page_up";
/// Identifier `page_down`.
pub const BROWSER_PAGE_DOWN_SUB_COMMAND_ID: &'static str = "page_down";
/// Identifier `find`.
pub const BROWSER_FIND_SUB_COMMAND_ID: &'static str = "find";
/// Identifier `fullscreen`.
pub const BROWSER_FULLSCREEN_SUB_COMMAND_ID: &'static str = "fullscreen";
/// Identifier `copy_url`.
pub const BROWSER_COPY_URL_SUB_COMMAND_ID: &'static str = "copy_url";
/// Identifier `open_history`.
pub const BROWSER_OPEN_HISTORY_SUB_COMMAND_ID: &'static str = "open_history";
/// Identifier `open_downloads`.
pub const BROWSER_OPEN_DOWNLOADS_SUB_COMMAND_ID: &'static str = "open_downloads";
/// Identifier `open_devtools`.
pub const BROWSER_OPEN_DEVTOOLS_SUB_COMMAND_ID: &'static str = "open_devtools";
/// Identifier `minimize_window`.
pub const BROWSER_MINIMIZE_WINDOW_SUB_COMMAND_ID: &'static str = "minimize_window";
/// Identifier `maximize_window`.
pub const BROWSER_MAXIMIZE_WINDOW_SUB_COMMAND_ID: &'static str = "maximize_window";
/// Identifier `new_private_window`.
pub const BROWSER_NEW_PRIVATE_WINDOW_SUB_COMMAND_ID: &'static str = "new_private_window";

/// A sub-command of a skill (a browser action, for example) with the keywords
/// that trigger it.
#[derive(Debug, PartialEq, Eq)]
pub struct SkillSubCommandConfig {
    pub id: String,
    pub name: String,
    pub keywords: String,
    pub enabled: bool,
}

/// Mathematical model of a [`SkillSubCommandConfig`].
pub struct SubCommandModel {
    pub id: Seq<char>,
    pub name: Seq<char>,
    pub keywords: Seq<char>,
    pub enabled: bool,
}

impl View for SkillSubCommandConfig {
    type V = SubCommandModel;

    open spec fn view(&self) -> SubCommandModel {
        SubCommandModel {
            id: self.id@,
            name: self.name@,
            keywords: self.keywords@,
            enabled: self.enabled,
        }
    }
}

impl Clone for SkillSubCommandConfig {
    fn clone(&self) -> (r: Self)
        ensures
            r@ == self@,
    {
        SkillSubCommandConfig {
            id: self.id.clone(),
            name: self.name.clone(),
            keywords: self.keywords.clone(),
            enabled: self.enabled,
        }
    }
}

/// Model of an enabled sub-command built from three strings.
pub open spec fn sub_model(id: &str, name: &str, keywords: &str) -> SubCommandModel {
    SubCommandModel { id: id@, name: name@, keywords: keywords@, enabled: true }
}

impl SkillSubCommandConfig {
    /// An enabled sub-command.
    pub fn new(id: &str, name: &str, keywords: &str) -> (r: Self)
        ensures
            r@ == sub_model(id, name, keywords),
    {
        SkillSubCommandConfig {
            id: String::from_str(id),
            name: String::from_str(name),
            keywords: String::from_str(keywords),
            enabled: true,
        }
    }
}

/// Models of a sequence of sub-commands.
pub open spec fn sub_views(s: Seq<SkillSubCommandConfig>) -> Seq<SubCommandModel> {
    s.map_values(|x: SkillSubCommandConfig| x@)
}

/// A website that the browser skill can open by name.
#[derive(Debug, PartialEq, Eq)]
pub struct BrowserSiteConfig {
    pub id: String,
    pub name: String,
    pub aliases: String,
    pub url: String,
    pub enabled: bool,
}

/// Mathematical model of a [`BrowserSiteConfig`].
pub struct SiteModel {
    pub id: Seq<char>,
    pub name: Seq<char>,
    pub aliases: Seq<char>,
    pub url: Seq<char>,
    pub enabled: bool,
}

impl View for BrowserSiteConfig {
    type V = SiteModel;

    open spec fn view(&self) -> SiteModel {
        SiteModel {
            id: self.id@,
            name: self.name@,
            aliases: self.aliases@,
            url: self.url@,
            enabled: self.enabled,
        }
    }
}

impl Clone for BrowserSiteConfig {
    fn clone(&self) -> (r: Self)
        ensures
            r@ == self@,
    {
        BrowserSiteConfig {
            id: self.id.clone(),
            name: self.name.clone(),
            aliases: self.aliases.clone(),
            url: self.url.clone(),
            enabled: self.enabled,
        }
    }
}

/// Model of an enabled site built from four strings.
pub open spec fn site_model(id: &str, name: &str, aliases: &str, url: &str) -> SiteModel {
    SiteModel { id: id@, name: name@, aliases: aliases@, url: url@, enabled: true }
}

impl BrowserSiteConfig {
    /// An enabled site.
    pub fn new(id: &str, name: &str, aliases: &str, url: &str) -> (r: Self)
        ensures
            r@ == site_model(id, name, aliases, url),
    {
        BrowserSiteConfig {
            id: String::from_str(id),
            name: String::from_str(name),
            aliases: String::from_str(aliases),
            url: String::from_str(url),
            enabled: true,
        }
    }
}

/// Models of a sequence of sites.
pub open spec fn site_views(s: Seq<BrowserSiteConfig>) -> Seq<SiteModel> {
    s.map_values(|x: BrowserSiteConfig| x@)
}

/// Options of the browser skill.
#[derive(Debug, PartialEq, Eq)]
pub struct BrowserSkillOptions {
    pub llm_site_resolution_enabled: bool,
    pub search_fallback_enabled: bool,
    pub search_url_template: String,
    pub sites: Vec<BrowserSiteConfig>,
}

/// Mathematical model of [`BrowserSkillOptions`].
pub struct BrowserOptionsModel {
    pub llm_site_resolution_enabled: bool,
    pub search_fallback_enabled: bool,
    pub search_url_template: Seq<char>,
    pub sites: Seq<SiteModel>,
}

impl View for BrowserSkillOptions {
    type V = BrowserOptionsModel;

    open spec fn view(&self) -> BrowserOptionsModel {
        BrowserOptionsModel {
            llm_site_resolution_enabled: self.llm_site_resolution_enabled,
            search_fallback_enabled: self.search_fallback_enabled,
            search_url_template: self.search_url_template@,
            sites: site_views(self.sites@),
        }
    }
}

/// Copies a vector of sites.
pub fn clone_sites(v: &Vec<BrowserSiteConfig>) -> (r: Vec<BrowserSiteConfig>)
    ensures
        site_views(r@) == site_views(v@),
{
    let r = v.clone();
    proof {
        assert forall|i: int| 0 <= i < v@.len() implies r@[i]@ == v@[i]@ by {
            assert(cloned::<BrowserSiteConfig>(v[i], r[i]));
        }
        assert(site_views(r@) =~= site_views(v@));
    }
    r
}

/// Copies a vector of sub-commands.
pub fn clone_sub_commands(v: &Vec<SkillSubCommandConfig>) -> (r: Vec<SkillSubCommandConfig>)
    ensures
        sub_views(r@) == sub_views(v@),
{
    let r = v.clone();
    proof {
        assert forall|i: int| 0 <= i < v@.len() implies r@[i]@ == v@[i]@ by {
            assert(cloned::<SkillSubCommandConfig>(v[i], r[i]));
        }
        assert(sub_views(r@) =~= sub_views(v@));
    }
    r
}

impl Clone for BrowserSkillOptions {
    fn clone(&self) -> (r: Self)
        ensures
            r@ == self@,
    {
        BrowserSkillOptions {
            llm_site_resolution_enabled: self.llm_site_resolution_enabled,
            search_fallback_enabled: self.search_fallback_enabled,
            search_url_template: self.search_url_template.clone(),
            sites: clone_sites(&self.sites),
        }
    }
}

/// The web search used when a spoken target is not a known site.
pub const DEFAULT_SEARCH_URL_TEMPLATE: &'static str = "https://www.bing.com/search?q={query}";

/// The built-in sites.
pub open spec fn default_browser_sites_model() -> Seq<SiteModel> {
    seq![
        site_model("github", "GitHub", "github,代码托管", "https://github.com"),
        site_model("bilibili", "B站", "b站,哔哩哔哩,bilibili", "https://www.bilibili.com"),
        site_model("gmail", "Gmail", "gmail,谷歌邮箱", "https://mail.google.com"),
    ]
}

/// The built-in sites.
pub fn default_browser_sites() -> (r: Vec<BrowserSiteConfig>)
    ensures
        site_views(r@) == default_browser_sites_model(),
{
    let mut r: Vec<BrowserSiteConfig> = Vec::new();
    r.push(BrowserSiteConfig::new("github", "GitHub", "github,代码托管", "https://github.com"));
    r.push(
        BrowserSiteConfig::new(
            "bilibili",
            "B站",
            "b站,哔哩哔哩,bilibili",
            "https://www.bilibili.com",
        ),
    );
    r.push(BrowserSiteConfig::new("gmail", "Gmail", "gmail,谷歌邮箱", "https://mail.google.com"));
    proof {
        assert(site_views(r@) =~= default_browser_sites_model());
    }
    r
}

/// The default browser options.
pub open spec fn default_browser_options_model() -> BrowserOptionsModel {
    BrowserOptionsModel {
        llm_site_resolution_enabled: true,
        search_fallback_enabled: true,
        search_url_template: DEFAULT_SEARCH_URL_TEMPLATE@,
        sites: default_browser_sites_model(),
    }
}

/// Options saved without a value are on.
pub fn default_true() -> (b: bool)
    ensures
        b,
{
    true
}

/// The search template of browser options saved without one.
pub fn default_search_url_template() -> (r: String)
    ensures
        r@ == DEFAULT_SEARCH_URL_TEMPLATE@,
{
    String::from_str(DEFAULT_SEARCH_URL_TEMPLATE)
}

impl Default for BrowserSkillOptions {
    fn default() -> (r: Self)
        ensures
            r@ == default_browser_options_model(),
    {
        BrowserSkillOptions {
            llm_site_resolution_enabled: true,
            search_fallback_enabled: true,
            search_url_template: String::from_str(DEFAULT_SEARCH_URL_TEMPLATE),
            sites: default_browser_sites(),
        }
    }
}
/// The built-in sub-commands of the browser skill.
pub open spec fn default_browser_sub_commands_model() -> Seq<SubCommandModel> {
    seq![
        sub_model(BROWSER_OPEN_TARGET_SUB_COMMAND_ID, "打开目标", "打开,访问,前往,进入"),
        sub_model(BROWSER_NEW_TAB_SUB_COMMAND_ID, "新建页面", "新建页面,新建标签页,新建标签,打开新页面,打开新标签页"),
        sub_model(BROWSER_CLOSE_TAB_SUB_COMMAND_ID, "关闭页面", "关闭页面,关闭当前页面,关闭标签页,关闭标签"),
        sub_model(BROWSER_NEXT_TAB_SUB_COMMAND_ID, "下一个页面", "下一个页面,下一个标签页,下一个标签,切到下一个页面,切到下一个标签页"),
        sub_model(BROWSER_PREVIOUS_TAB_SUB_COMMAND_ID, "上一个页面", "上一个页面,上一个标签页,上一个标签,切到上一个页面,切到上一个标签页"),
        sub_model(BROWSER_SWITCH_TAB_INDEX_SUB_COMMAND_ID, "第几个页面", "第,切到第,打开第,第几个页面,第几个标签页,第几页,第几个标签"),
        sub_model(BROWSER_REOPEN_TAB_SUB_COMMAND_ID, "重新打开", "重新打开,重新打开页面,重新打开标签页,恢复关闭页面,恢复关闭标签页"),
        sub_model(BROWSER_CLOSE_OTHER_TABS_SUB_COMMAND_ID, "关闭其他页面", "关闭其他页面,关闭其他标签页,关闭其他标签"),
        sub_model(BROWSER_CLOSE_TABS_TO_RIGHT_SUB_COMMAND_ID, "关闭右侧页面", "关闭右侧页面,关闭右侧标签页,关闭右侧标签"),
        sub_model(BROWSER_GO_BACK_SUB_COMMAND_ID, "后退", "后退,返回上一页"),
        sub_model(BROWSER_GO_FORWARD_SUB_COMMAND_ID, "前进", "前进,前往下一页"),
        sub_model(BROWSER_REFRESH_SUB_COMMAND_ID, "刷新", "刷新,刷新页面"),
        sub_model(BROWSER_HARD_REFRESH_SUB_COMMAND_ID, "强制刷新", "强制刷新,硬刷新,重新加载页面"),
        sub_model(BROWSER_STOP_LOADING_SUB_COMMAND_ID, "停止加载", "停止加载,停止打开,停止页面加载"),
        sub_model(BROWSER_GO_HOME_SUB_COMMAND_ID, "回主页", "回主页,打开主页,返回主页"),
        sub_model(BROWSER_SCROLL_UP_SUB_COMMAND_ID, "往上", "往上,往山,向上滚动,往上滚,向上翻"),
        sub_model(BROWSER_SCROLL_DOWN_SUB_COMMAND_ID, "往下", "往下,向下滚动,往下滚,向下翻"),
        sub_model(BROWSER_SCROLL_TOP_SUB_COMMAND_ID, "滚到顶部", "滚到顶部,回到顶部,到顶部,跳到顶部"),
        sub_model(BROWSER_SCROLL_BOTTOM_SUB_COMMAND_ID, "滚到底部", "滚到底部,回到底部,到底部,跳到底部"),
        sub_model(BROWSER_PAGE_UP_SUB_COMMAND_ID, "上一页", "上一页,上翻页"),
        sub_model(BROWSER_PAGE_DOWN_SUB_COMMAND_ID, "下一页", "下一页,下翻页"),
        sub_model(BROWSER_FIND_SUB_COMMAND_ID, "查找", "查找,搜索页面,页内查找"),
        sub_model(BROWSER_FULLSCREEN_SUB_COMMAND_ID, "全屏", "全屏,进入全屏,退出全屏"),
        sub_model(BROWSER_COPY_URL_SUB_COMMAND_ID, "复制网址", "复制网址,复制链接,复制当前网址,复制当前链接"),
        sub_model(BROWSER_OPEN_HISTORY_SUB_COMMAND_ID, "打开历史记录", "打开历史记录,历史记录,打开浏览历史"),
        sub_model(BROWSER_OPEN_DOWNLOADS_SUB_COMMAND_ID, "打开下载", "打开下载,下载列表,下载记录"),
        sub_model(BROWSER_OPEN_DEVTOOLS_SUB_COMMAND_ID, "打开开发者工具", "打开开发者工具,开发者工具,调试工具"),
        sub_model(BROWSER_MINIMIZE_WINDOW_SUB_COMMAND_ID, "最小化", "最小化,最小化窗口"),
        sub_model(BROWSER_MAXIMIZE_WINDOW_SUB_COMMAND_ID, "最大化", "最大化,最大化窗口"),
        sub_model(BROWSER_NEW_PRIVATE_WINDOW_SUB_COMMAND_ID, "新建隐私窗口", "新建隐私窗口,新建无痕窗口,打开无痕窗口,打开隐私窗口"),
    ]
}

/// The built-in sub-commands of the browser skill.
#[verifier::rlimit(50)]
pub fn default_browser_sub_commands() -> (r: Vec<SkillSubCommandConfig>)
    ensures
        sub_views(r@) == default_browser_sub_commands_model(),
{
    let mut r: Vec<SkillSubCommandConfig> = Vec::new();
    r.push(SkillSubCommandConfig::new(BROWSER_OPEN_TARGET_SUB_COMMAND_ID, "打开目标", "打开,访问,前往,进入"));
    r.push(SkillSubCommandConfig::new(BROWSER_NEW_TAB_SUB_COMMAND_ID, "新建页面", "新建页面,新建标签页,新建标签,打开新页面,打开新标签页"));
    r.push(SkillSubCommandConfig::new(BROWSER_CLOSE_TAB_SUB_COMMAND_ID, "关闭页面", "关闭页面,关闭当前页面,关闭标签页,关闭标签"));
    r.push(SkillSubCommandConfig::new(BROWSER_NEXT_TAB_SUB_COMMAND_ID, "下一个页面", "下一个页面,下一个标签页,下一个标签,切到下一个页面,切到下一个标签页"));
    r.push(SkillSubCommandConfig::new(BROWSER_PREVIOUS_TAB_SUB_COMMAND_ID, "上一个页面", "上一个页面,上一个标签页,上一个标签,切到上一个页面,切到上一个标签页"));
    r.push(SkillSubCommandConfig::new(BROWSER_SWITCH_TAB_INDEX_SUB_COMMAND_ID, "第几个页面", "第,切到第,打开第,第几个页面,第几个标签页,第几页,第几个标签"));
    r.push(SkillSubCommandConfig::new(BROWSER_REOPEN_TAB_SUB_COMMAND_ID, "重新打开", "重新打开,重新打开页面,重新打开标签页,恢复关闭页面,恢复关闭标签页"));
    r.push(SkillSubCommandConfig::new(BROWSER_CLOSE_OTHER_TABS_SUB_COMMAND_ID, "关闭其他页面", "关闭其他页面,关闭其他标签页,关闭其他标签"));
    r.push(SkillSubCommandConfig::new(BROWSER_CLOSE_TABS_TO_RIGHT_SUB_COMMAND_ID, "关闭右侧页面", "关闭右侧页面,关闭右侧标签页,关闭右侧标签"));
    r.push(SkillSubCommandConfig::new(BROWSER_GO_BACK_SUB_COMMAND_ID, "后退", "后退,返回上一页"));
    r.push(SkillSubCommandConfig::new(BROWSER_GO_FORWARD_SUB_COMMAND_ID, "前进", "前进,前往下一页"));
    r.push(SkillSubCommandConfig::new(BROWSER_REFRESH_SUB_COMMAND_ID, "刷新", "刷新,刷新页面"));
    r.push(SkillSubCommandConfig::new(BROWSER_HARD_REFRESH_SUB_COMMAND_ID, "强制刷新", "强制刷新,硬刷新,重新加载页面"));
    r.push(SkillSubCommandConfig::new(BROWSER_STOP_LOADING_SUB_COMMAND_ID, "停止加载", "停止加载,停止打开,停止页面加载"));
    r.push(SkillSubCommandConfig::new(BROWSER_GO_HOME_SUB_COMMAND_ID, "回主页", "回主页,打开主页,返回主页"));
    r.push(SkillSubCommandConfig::new(BROWSER_SCROLL_UP_SUB_COMMAND_ID, "往上", "往上,往山,向上滚动,往上滚,向上翻"));
    r.push(SkillSubCommandConfig::new(BROWSER_SCROLL_DOWN_SUB_COMMAND_ID, "往下", "往下,向下滚动,往下滚,向下翻"));
    r.push(SkillSubCommandConfig::new(BROWSER_SCROLL_TOP_SUB_COMMAND_ID, "滚到顶部", "滚到顶部,回到顶部,到顶部,跳到顶部"));
    r.push(SkillSubCommandConfig::new(BROWSER_SCROLL_BOTTOM_SUB_COMMAND_ID, "滚到底部", "滚到底部,回到底部,到底部,跳到底部"));
    r.push(SkillSubCommandConfig::new(BROWSER_PAGE_UP_SUB_COMMAND_ID, "上一页", "上一页,上翻页"));
    r.push(SkillSubCommandConfig::new(BROWSER_PAGE_DOWN_SUB_COMMAND_ID, "下一页", "下一页,下翻页"));
    r.push(SkillSubCommandConfig::new(BROWSER_FIND_SUB_COMMAND_ID, "查找", "查找,搜索页面,页内查找"));
    r.push(SkillSubCommandConfig::new(BROWSER_FULLSCREEN_SUB_COMMAND_ID, "全屏", "全屏,进入全屏,退出全屏"));
    r.push(SkillSubCommandConfig::new(BROWSER_COPY_URL_SUB_COMMAND_ID, "复制网址", "复制网址,复制链接,复制当前网址,复制当前链接"));
    r.push(SkillSubCommandConfig::new(BROWSER_OPEN_HISTORY_SUB_COMMAND_ID, "打开历史记录", "打开历史记录,历史记录,打开浏览历史"));
    r.push(SkillSubCommandConfig::new(BROWSER_OPEN_DOWNLOADS_SUB_COMMAND_ID, "打开下载", "打开下载,下载列表,下载记录"));
    r.push(SkillSubCommandConfig::new(BROWSER_OPEN_DEVTOOLS_SUB_COMMAND_ID, "打开开发者工具", "打开开发者工具,开发者工具,调试工具"));
    r.push(SkillSubCommandConfig::new(BROWSER_MINIMIZE_WINDOW_SUB_COMMAND_ID, "最小化", "最小化,最小化窗口"));
    r.push(SkillSubCommandConfig::new(BROWSER_MAXIMIZE_WINDOW_SUB_COMMAND_ID, "最大化", "最大化,最大化窗口"));
    r.push(SkillSubCommandConfig::new(BROWSER_NEW_PRIVATE_WINDOW_SUB_COMMAND_ID, "新建隐私窗口", "新建隐私窗口,新建无痕窗口,打开无痕窗口,打开隐私窗口"));
    proof {
        assert(sub_views(r@) =~= default_browser_sub_commands_model());
    }
    r
}


/// A skill: a voice command triggered by one of its comma-separated keywords.
#[derive(Debug, PartialEq, Eq)]
pub struct SkillConfig {
    pub id: String,
    pub name: String,
    pub keywords: String,
    pub enabled: bool,
    pub sub_commands: Vec<SkillSubCommandConfig>,
    pub browser_options: Option<BrowserSkillOptions>,
}

/// Mathematical model of a [`SkillConfig`].
pub struct SkillModel {
    pub id: Seq<char>,
    pub name: Seq<char>,
    pub keywords: Seq<char>,
    pub enabled: bool,
    pub sub_commands: Seq<SubCommandModel>,
    pub browser_options: Option<BrowserOptionsModel>,
}

/// Model of optional browser options.
pub open spec fn options_view(o: Option<BrowserSkillOptions>) -> Option<BrowserOptionsModel> {
    match o {
        Some(x) => Some(x@),
        None => None,
    }
}

impl View for SkillConfig {
    type V = SkillModel;

    open spec fn view(&self) -> SkillModel {
        SkillModel {
            id: self.id@,
            name: self.name@,
            keywords: self.keywords@,
            enabled: self.enabled,
            sub_commands: sub_views(self.sub_commands@),
            browser_options: options_view(self.browser_options),
        }
    }
}

/// Copies optional browser options.
pub fn clone_options(o: &Option<BrowserSkillOptions>) -> (r: Option<BrowserSkillOptions>)
    ensures
        options_view(r) == options_view(*o),
{
    match o {
        Some(x) => Some(x.clone()),
        None => None,
    }
}

impl Clone for SkillConfig {
    fn clone(&self) -> (r: Self)
        ensures
            r@ == self@,
    {
        SkillConfig {
            id: self.id.clone(),
            name: self.name.clone(),
            keywords: self.keywords.clone(),
            enabled: self.enabled,
            sub_commands: clone_sub_commands(&self.sub_commands),
            browser_options: clone_options(&self.browser_options),
        }
    }
}

/// Models of a sequence of skills.
pub open spec fn skill_views(s: Seq<SkillConfig>) -> Seq<SkillModel> {
    s.map_values(|x: SkillConfig| x@)
}

/// Copies a vector of skills.
pub fn clone_skills(v: &Vec<SkillConfig>) -> (r: Vec<SkillConfig>)
    ensures
        skill_views(r@) == skill_views(v@),
{
    let r = v.clone();
    proof {
        assert forall|i: int| 0 <= i < v@.len() implies r@[i]@ == v@[i]@ by {
            assert(cloned::<SkillConfig>(v[i], r[i]));
        }
        assert(skill_views(r@) =~= skill_views(v@));
    }
    r
}

/// Model of an enabled skill without sub-commands or browser options.
pub open spec fn skill_model(id: &str, name: &str, keywords: &str) -> SkillModel {
    SkillModel {
        id: id@,
        name: name@,
        keywords: keywords@,
        enabled: true,
        sub_commands: Seq::empty(),
        browser_options: None,
    }
}

impl SkillConfig {
    /// An enabled skill without sub-commands or browser options.
    pub fn new(id: &str, name: &str, keywords: &str) -> (r: Self)
        ensures
            r@ == skill_model(id, name, keywords),
    {
        let r = SkillConfig {
            id: String::from_str(id),
            name: String::from_str(name),
            keywords: String::from_str(keywords),
            enabled: true,
            sub_commands: Vec::new(),
            browser_options: None,
        };
        proof {
            assert(sub_views(r.sub_commands@) =~= Seq::<SubCommandModel>::empty());
        }
        r
    }
}

/// The built-in browser skill.
pub open spec fn browser_skill_model() -> SkillModel {
    SkillModel {
        id: OPEN_BROWSER_SKILL_ID@,
        name: "浏览器"@,
        keywords: "打开浏览器,上网,浏览器"@,
        enabled: true,
        sub_commands: default_browser_sub_commands_model(),
        browser_options: Some(default_browser_options_model()),
    }
}

/// The built-in skills, in the order in which they are listed.
pub open spec fn default_skills_model() -> Seq<SkillModel> {
    seq![
        skill_model("compose_email", "写邮件", "写邮件,发邮件,新邮件,发送邮件"),
        skill_model("open_calculator", "计算器", "计算器,打开计算器"),
        browser_skill_model(),
        skill_model("open_notepad", "记事本", "记事本,打开记事本"),
        skill_model("open_explorer", "文件管理器", "文件管理器,资源管理器,打开文件夹"),
        skill_model("screenshot", "截图", "截图,截屏,屏幕截图"),
        skill_model(ENABLE_POLISH_SKILL_ID, "启用润色", "启用润色,打开润色,开启润色"),
        skill_model(DISABLE_POLISH_SKILL_ID, "关闭润色", "关闭润色,停用润色,禁用润色"),
        skill_model(SWITCH_POLISH_SCENE_SKILL_ID, "切换润色场景", "切换到,切到,使用"),
    ]
}

/// The built-in skills.
pub fn get_default_skills() -> (r: Vec<SkillConfig>)
    ensures
        skill_views(r@) == default_skills_model(),
{
    let mut browser_skill = SkillConfig::new(OPEN_BROWSER_SKILL_ID, "浏览器", "打开浏览器,上网,浏览器");
    browser_skill.sub_commands = default_browser_sub_commands();
    browser_skill.browser_options = Some(BrowserSkillOptions::default());
    let mut r: Vec<SkillConfig> = Vec::new();
    r.push(SkillConfig::new("compose_email", "写邮件", "写邮件,发邮件,新邮件,发送邮件"));
    r.push(SkillConfig::new("open_calculator", "计算器", "计算器,打开计算器"));
    r.push(browser_skill);
    r.push(SkillConfig::new("open_notepad", "记事本", "记事本,打开记事本"));
    r.push(SkillConfig::new("open_explorer", "文件管理器", "文件管理器,资源管理器,打开文件夹"));
    r.push(SkillConfig::new("screenshot", "截图", "截图,截屏,屏幕截图"));
    r.push(SkillConfig::new(ENABLE_POLISH_SKILL_ID, "启用润色", "启用润色,打开润色,开启润色"));
    r.push(SkillConfig::new(DISABLE_POLISH_SKILL_ID, "关闭润色", "关闭润色,停用润色,禁用润色"));
    r.push(SkillConfig::new(SWITCH_POLISH_SCENE_SKILL_ID, "切换润色场景", "切换到,切到,使用"));
    proof {
        assert(skill_views(r@) =~= default_skills_model());
    }
    r
}

/// The built-in skills that the application knows how to run.
#[derive(Debug, Clone, Copy, PartialEq, Eq)]
pub enum BuiltinSkillId {
    ComposeEmail,
    OpenCalculator,
    OpenBrowser,
    OpenNotepad,
    OpenExplorer,
    Screenshot,
    EnablePolish,
    DisablePolish,
    SwitchPolishScene,
}

/// The built-in skill that an identifier names.
pub open spec fn builtin_skill_of(s: Seq<char>) -> Option<BuiltinSkillId> {
    if s == "compose_email"@ {
        Some(BuiltinSkillId::ComposeEmail)
    } else if s == "open_calculator"@ {
        Some(BuiltinSkillId::OpenCalculator)
    } else if s == OPEN_BROWSER_SKILL_ID@ {
        Some(BuiltinSkillId::OpenBrowser)
    } else if s == "open_notepad"@ {
        Some(BuiltinSkillId::OpenNotepad)
    } else if s == "open_explorer"@ {
        Some(BuiltinSkillId::OpenExplorer)
    } else if s == "screenshot"@ {
        Some(BuiltinSkillId::Screenshot)
    } else if s == ENABLE_POLISH_SKILL_ID@ {
        Some(BuiltinSkillId::EnablePolish)
    } else if s == DISABLE_POLISH_SKILL_ID@ {
        Some(BuiltinSkillId::DisablePolish)
    } else if s == SWITCH_POLISH_SCENE_SKILL_ID@ {
        Some(BuiltinSkillId::SwitchPolishScene)
    } else {
        None
    }
}

/// The skills that change the configuration rather than run something.
pub open spec fn is_config_control_spec(id: BuiltinSkillId) -> bool {
    id == BuiltinSkillId::EnablePolish || id == BuiltinSkillId::DisablePolish || id
        == BuiltinSkillId::SwitchPolishScene
}

impl BuiltinSkillId {
    /// The built-in skill named by `s`, if any.
    pub fn from_str(s: &str) -> (r: Option<Self>)
        ensures
            r == builtin_skill_of(s@),
    {
        if str_equal(s, "compose_email") {
            Some(BuiltinSkillId::ComposeEmail)
        } else if str_equal(s, "open_calculator") {
            Some(BuiltinSkillId::OpenCalculator)
        } else if str_equal(s, OPEN_BROWSER_SKILL_ID) {
            Some(BuiltinSkillId::OpenBrowser)
        } else if str_equal(s, "open_notepad") {
            Some(BuiltinSkillId::OpenNotepad)
        } else if str_equal(s, "open_explorer") {
            Some(BuiltinSkillId::OpenExplorer)
        } else if str_equal(s, "screenshot") {
            Some(BuiltinSkillId::Screenshot)
        } else if str_equal(s, ENABLE_POLISH_SKILL_ID) {
            Some(BuiltinSkillId::EnablePolish)
        } else if str_equal(s, DISABLE_POLISH_SKILL_ID) {
            Some(BuiltinSkillId::DisablePolish)
        } else if str_equal(s, SWITCH_POLISH_SCENE_SKILL_ID) {
            Some(BuiltinSkillId::SwitchPolishScene)
        } else {
            None
        }
    }

    /// Whether the skill changes the configuration.
    pub fn is_config_control(&self) -> (b: bool)
        ensures
            b == is_config_control_spec(*self),
    {
        match self {
            BuiltinSkillId::EnablePolish => true,
            BuiltinSkillId::DisablePolish => true,
            BuiltinSkillId::SwitchPolishScene => true,
            _ => false,
        }
    }
}

/// Whether `skill_id` names a skill that changes the configuration.
pub fn is_config_skill(skill_id: &str) -> (b: bool)
    ensures
        b == match builtin_skill_of(skill_id@) {
            Some(k) => is_config_control_spec(k),
            None => false,
        },
{
    match BuiltinSkillId::from_str(skill_id) {
        Some(k) => k.is_config_control(),
        None => false,
    }
}

/// The first skill whose identifier is `skill_id`.
pub fn find_skill_config<'a>(skills: &'a [SkillConfig], skill_id: &str) -> (r: Option<
    &'a SkillConfig,
>)
    ensures
        match r {
            Some(s) => exists|i: int|
                0 <= i < skills@.len() && skills@[i] == *s && s.id@ == skill_id@ && forall|j: int|
                    0 <= j < i ==> skills@[j].id@ != skill_id@,
            None => forall|i: int| 0 <= i < skills@.len() ==> skills@[i].id@ != skill_id@,
        },
{
    let mut i: usize = 0;
    while i < skills.len()
        invariant
            i <= skills@.len(),
            forall|j: int| 0 <= j < i ==> skills@[j].id@ != skill_id@,
        decreases skills@.len() - i,
    {
        if str_equal(skills[i].id.as_str(), skill_id) {
            return Some(&skills[i]);
        }
        i = i + 1;
    }
    None
}


/// Some sub-command of `s` has identifier `id`.
pub open spec fn has_sub_id(s: Seq<SubCommandModel>, id: Seq<char>) -> bool {
    exists|i: int| 0 <= i < s.len() && s[i].id == id
}

/// The defaults whose identifier does not occur in `present`, in order.
pub open spec fn absent_subs(defaults: Seq<SubCommandModel>, present: Seq<SubCommandModel>) -> Seq<
    SubCommandModel,
>
    decreases defaults.len(),
{
    if defaults.len() == 0 {
        Seq::empty()
    } else {
        let r = absent_subs(defaults.drop_last(), present);
        if has_sub_id(present, defaults.last().id) {
            r
        } else {
            r.push(defaults.last())
        }
    }
}

/// Some site of `s` has identifier `id`.
pub open spec fn has_site_id(s: Seq<SiteModel>, id: Seq<char>) -> bool {
    exists|i: int| 0 <= i < s.len() && s[i].id == id
}

/// The default sites whose identifier does not occur in `present`, in order.
pub open spec fn absent_sites(defaults: Seq<SiteModel>, present: Seq<SiteModel>) -> Seq<SiteModel>
    decreases defaults.len(),
{
    if defaults.len() == 0 {
        Seq::empty()
    } else {
        let r = absent_sites(defaults.drop_last(), present);
        if has_site_id(present, defaults.last().id) {
            r
        } else {
            r.push(defaults.last())
        }
    }
}

/// Some skill of `s` has identifier `id`.
pub open spec fn has_skill_id(s: Seq<SkillModel>, id: Seq<char>) -> bool {
    exists|i: int| 0 <= i < s.len() && s[i].id == id
}

/// The default skills whose identifier does not occur in `present`, in order.
pub open spec fn absent_skills(defaults: Seq<SkillModel>, present: Seq<SkillModel>) -> Seq<
    SkillModel,
>
    decreases defaults.len(),
{
    if defaults.len() == 0 {
        Seq::empty()
    } else {
        let r = absent_skills(defaults.drop_last(), present);
        if has_skill_id(present, defaults.last().id) {
            r
        } else {
            r.push(defaults.last())
        }
    }
}

/// The first skill of `s` with identifier `id`.
pub open spec fn find_by_id(s: Seq<SkillModel>, id: Seq<char>) -> Option<SkillModel>
    decreases s.len(),
{
    if s.len() == 0 {
        None
    } else if s[0].id == id {
        Some(s[0])
    } else {
        find_by_id(s.drop_first(), id)
    }
}

/// Browser options of a skill brought up to date with the options of its
/// built-in default, and whether anything changed.
pub open spec fn merge_options_spec(
    o: Option<BrowserOptionsModel>,
    d: Option<BrowserOptionsModel>,
) -> (Option<BrowserOptionsModel>, bool) {
    match (o, d) {
        (None, Some(dd)) => (Some(dd), true),
        (Some(oo), Some(dd)) => {
            let blank = crate::text::trim(oo.search_url_template, CharClass::WhiteSpace).len() == 0;
            let added = absent_sites(dd.sites, oo.sites);
            (
                Some(
                    BrowserOptionsModel {
                        search_url_template: if blank {
                            dd.search_url_template
                        } else {
                            oo.search_url_template
                        },
                        sites: oo.sites + added,
                        ..oo
                    },
                ),
                blank || added.len() > 0,
            )
        },
        _ => (o, false),
    }
}

/// A skill brought up to date with its built-in default `d`: missing
/// sub-commands and sites appended, missing browser options and a blank search
/// template filled in; and whether anything changed.
pub open spec fn merge_skill_spec(skill: SkillModel, d: SkillModel) -> (SkillModel, bool) {
    let added = absent_subs(d.sub_commands, skill.sub_commands);
    let (opts, opts_changed) = merge_options_spec(skill.browser_options, d.browser_options);
    (
        SkillModel {
            sub_commands: skill.sub_commands + added,
            browser_options: opts,
            ..skill
        },
        added.len() > 0 || opts_changed,
    )
}

/// A skill merged with the first default that has its identifier, if any.
pub open spec fn merge_one(skill: SkillModel, defaults: Seq<SkillModel>) -> (SkillModel, bool) {
    match find_by_id(defaults, skill.id) {
        Some(d) => merge_skill_spec(skill, d),
        None => (skill, false),
    }
}

/// A saved skill list brought up to date with `defaults`: every skill merged
/// with its default, then the defaults that are missing appended; and whether
/// anything changed.
pub open spec fn merge_skills_spec(existing: Seq<SkillModel>, defaults: Seq<SkillModel>) -> (
    Seq<SkillModel>,
    bool,
) {
    let updated = existing.map_values(|s: SkillModel| merge_one(s, defaults).0);
    let added = absent_skills(defaults, existing);
    (
        updated + added,
        (exists|i: int| 0 <= i < existing.len() && merge_one(existing[i], defaults).1) || added.len()
            > 0,
    )
}

/// Whether one of the first `n` sub-commands has identifier `id`.
fn sub_id_in_prefix(v: &Vec<SkillSubCommandConfig>, n: usize, id: &String) -> (b: bool)
    requires
        n <= v@.len(),
    ensures
        b == has_sub_id(sub_views(v@).take(n as int), id@),
{
    let mut k: usize = 0;
    while k < n
        invariant
            k <= n <= v@.len(),
            forall|j: int| 0 <= j < k ==> v@[j].id@ != id@,
        decreases n - k,
    {
        if v[k].id == *id {
            proof {
                assert(sub_views(v@).take(n as int)[k as int].id == id@);
            }
            return true;
        }
        k = k + 1;
    }
    proof {
        assert forall|j: int| 0 <= j < n implies sub_views(v@).take(n as int)[j].id != id@ by {
            assert(sub_views(v@).take(n as int)[j] == v@[j]@);
        }
    }
    false
}

/// Appends the default sub-commands whose identifier is missing.
fn merge_sub_commands(existing: &mut Vec<SkillSubCommandConfig>, defaults: &Vec<SkillSubCommandConfig>) -> (changed: bool)
    ensures
        sub_views(final(existing)@) == sub_views(old(existing)@) + absent_subs(
            sub_views(defaults@),
            sub_views(old(existing)@),
        ),
        changed == (absent_subs(sub_views(defaults@), sub_views(old(existing)@)).len() > 0),
{
    let ghost before = sub_views(existing@);
    let n = existing.len();
    let mut changed = false;
    let mut j: usize = 0;
    proof {
        assert(sub_views(defaults@).take(0) =~= Seq::<SubCommandModel>::empty());
        assert(before + Seq::<SubCommandModel>::empty() =~= before);
    }
    while j < defaults.len()
        invariant
            n == before.len(),
            n <= existing@.len(),
            j <= defaults@.len(),
            sub_views(existing@).take(n as int) == before,
            sub_views(existing@) == before + absent_subs(sub_views(defaults@).take(j as int), before),
            changed == (absent_subs(sub_views(defaults@).take(j as int), before).len() > 0),
        decreases defaults@.len() - j,
    {
        let ghost dj = sub_views(defaults@).take(j + 1);
        proof {
            assert(dj.drop_last() =~= sub_views(defaults@).take(j as int));
            assert(dj.last() == defaults@[j as int]@);
        }
        let present = sub_id_in_prefix(existing, n, &defaults[j].id);
        if !present {
            let ghost prev = sub_views(existing@);
            existing.push(defaults[j].clone());
            changed = true;
            proof {
                assert(sub_views(existing@) =~= prev.push(defaults@[j as int]@));
                assert(sub_views(existing@).take(n as int) =~= before);
            }
        }
        j = j + 1;
    }
    proof {
        assert(sub_views(defaults@).take(defaults@.len() as int) =~= sub_views(defaults@));
    }
    changed
}

/// Whether one of the first `n` sites has identifier `id`.
fn site_id_in_prefix(v: &Vec<BrowserSiteConfig>, n: usize, id: &String) -> (b: bool)
    requires
        n <= v@.len(),
    ensures
        b == has_site_id(site_views(v@).take(n as int), id@),
{
    let mut k: usize = 0;
    while k < n
        invariant
            k <= n <= v@.len(),
            forall|j: int| 0 <= j < k ==> v@[j].id@ != id@,
        decreases n - k,
    {
        if v[k].id == *id {
            proof {
                assert(site_views(v@).take(n as int)[k as int].id == id@);
            }
            return true;
        }
        k = k + 1;
    }
    proof {
        assert forall|j: int| 0 <= j < n implies site_views(v@).take(n as int)[j].id != id@ by {
            assert(site_views(v@).take(n as int)[j] == v@[j]@);
        }
    }
    false
}

/// Appends the default sites whose identifier is missing.
fn merge_browser_sites(existing: &mut Vec<BrowserSiteConfig>, defaults: &Vec<BrowserSiteConfig>) -> (changed: bool)
    ensures
        site_views(final(existing)@) == site_views(old(existing)@) + absent_sites(
            site_views(defaults@),
            site_views(old(existing)@),
        ),
        changed == (absent_sites(site_views(defaults@), site_views(old(existing)@)).len() > 0),
{
    let ghost before = site_views(existing@);
    let n = existing.len();
    let mut changed = false;
    let mut j: usize = 0;
    proof {
        assert(site_views(defaults@).take(0) =~= Seq::<SiteModel>::empty());
        assert(before + Seq::<SiteModel>::empty() =~= before);
    }
    while j < defaults.len()
        invariant
            n == before.len(),
            n <= existing@.len(),
            j <= defaults@.len(),
            site_views(existing@).take(n as int) == before,
            site_views(existing@) == before + absent_sites(site_views(defaults@).take(j as int), before),
            changed == (absent_sites(site_views(defaults@).take(j as int), before).len() > 0),
        decreases defaults@.len() - j,
    {
        let ghost dj = site_views(defaults@).take(j + 1);
        proof {
            assert(dj.drop_last() =~= site_views(defaults@).take(j as int));
            assert(dj.last() == defaults@[j as int]@);
        }
        let present = site_id_in_prefix(existing, n, &defaults[j].id);
        if !present {
            let ghost prev = site_views(existing@);
            existing.push(defaults[j].clone());
            changed = true;
            proof {
                assert(site_views(existing@) =~= prev.push(defaults@[j as int]@));
                assert(site_views(existing@).take(n as int) =~= before);
            }
        }
        j = j + 1;
    }
    proof {
        assert(site_views(defaults@).take(defaults@.len() as int) =~= site_views(defaults@));
    }
    changed
}


/// Whether a string is empty after trimming white space.
pub fn is_blank(s: &String) -> (b: bool)
    ensures
        b == (crate::text::trim(s@, CharClass::WhiteSpace).len() == 0),
{
    let cs = chars_of(s.as_str());
    let t = trim_class(&cs, CharClass::WhiteSpace);
    t.len() == 0
}

/// Browser options brought up to date with the default options.
fn merge_options(o: &Option<BrowserSkillOptions>, d: &Option<BrowserSkillOptions>) -> (r: (
    Option<BrowserSkillOptions>,
    bool,
))
    ensures
        (options_view(r.0), r.1) == merge_options_spec(options_view(*o), options_view(*d)),
{
    match (o, d) {
        (None, Some(dd)) => (Some(dd.clone()), true),
        (Some(oo), Some(dd)) => {
            let mut next = oo.clone();
            let blank = is_blank(&next.search_url_template);
            if blank {
                next.search_url_template = dd.search_url_template.clone();
            }
            let added = merge_browser_sites(&mut next.sites, &dd.sites);
            (Some(next), blank || added)
        },
        _ => (clone_options(o), false),
    }
}

/// Brings a skill up to date with its built-in default.
fn merge_skill_defaults(skill: &mut SkillConfig, default_skill: &SkillConfig) -> (changed: bool)
    ensures
        (final(skill)@, changed) == merge_skill_spec(old(skill)@, default_skill@),
{
    let added = merge_sub_commands(&mut skill.sub_commands, &default_skill.sub_commands);
    let (opts, opts_changed) = merge_options(&skill.browser_options, &default_skill.browser_options);
    skill.browser_options = opts;
    added || opts_changed
}

/// Index of the first default with identifier `id`.
fn find_default(defaults: &Vec<SkillConfig>, id: &String) -> (r: Option<usize>)
    ensures
        match r {
            Some(k) => k < defaults@.len() && find_by_id(skill_views(defaults@), id@) == Some(
                defaults@[k as int]@,
            ),
            None => find_by_id(skill_views(defaults@), id@) is None,
        },
{
    let mut j: usize = 0;
    proof {
        assert(skill_views(defaults@).skip(0) =~= skill_views(defaults@));
    }
    while j < defaults.len()
        invariant
            j <= defaults@.len(),
            find_by_id(skill_views(defaults@), id@) == find_by_id(
                skill_views(defaults@).skip(j as int),
                id@,
            ),
        decreases defaults@.len() - j,
    {
        let ghost rest = skill_views(defaults@).skip(j as int);
        proof {
            assert(rest[0] == defaults@[j as int]@);
            assert(rest.drop_first() =~= skill_views(defaults@).skip(j + 1));
        }
        if defaults[j].id == *id {
            return Some(j);
        }
        j = j + 1;
    }
    None
}

/// Whether one of the first `n` skills has identifier `id`.
fn skill_id_in_prefix(v: &Vec<SkillConfig>, n: usize, id: &String) -> (b: bool)
    requires
        n <= v@.len(),
    ensures
        b == has_skill_id(skill_views(v@).take(n as int), id@),
{
    let mut k: usize = 0;
    while k < n
        invariant
            k <= n <= v@.len(),
            forall|j: int| 0 <= j < k ==> v@[j].id@ != id@,
        decreases n - k,
    {
        if v[k].id == *id {
            proof {
                assert(skill_views(v@).take(n as int)[k as int].id == id@);
            }
            return true;
        }
        k = k + 1;
    }
    proof {
        assert forall|j: int| 0 <= j < n implies skill_views(v@).take(n as int)[j].id != id@ by {
            assert(skill_views(v@).take(n as int)[j] == v@[j]@);
        }
    }
    false
}

/// Brings a saved skill list up to date with the built-in skills: each saved
/// skill gets the sub-commands, sites, options and search template that its
/// default has and it lacks, and missing built-in skills are appended. Also
/// says whether anything changed.
pub fn merge_with_default_skills(existing_skills: Vec<SkillConfig>) -> (r: (Vec<SkillConfig>, bool))
    ensures
        (skill_views(r.0@), r.1) == merge_skills_spec(
            skill_views(existing_skills@),
            default_skills_model(),
        ),
{
    let defaults = get_default_skills();
    let ghost ev = skill_views(existing_skills@);
    let ghost dv = default_skills_model();
    let n = existing_skills.len();
    let mut merged: Vec<SkillConfig> = Vec::new();
    let mut changed = false;
    let mut i: usize = 0;
    while i < n
        invariant
            n == existing_skills@.len() == ev.len(),
            ev == skill_views(existing_skills@),
            skill_views(defaults@) == dv,
            i <= n,
            merged@.len() == i,
            forall|t: int| 0 <= t < i ==> merged@[t]@ == merge_one(ev[t], dv).0,
            changed == exists|t: int| 0 <= t < i && merge_one(ev[t], dv).1,
        decreases n - i,
    {
        let mut skill = existing_skills[i].clone();
        let found = find_default(&defaults, &skill.id);
        let ghost before = changed;
        match found {
            Some(k) => {
                let c = merge_skill_defaults(&mut skill, &defaults[k]);
                changed = changed || c;
            },
            None => {},
        }
        proof {
            assert(ev[i as int] == existing_skills@[i as int]@);
            if merge_one(ev[i as int], dv).1 {
                assert(exists|t: int| 0 <= t < i + 1 && merge_one(ev[t], dv).1);
            }
            if before {
                let w = choose|t: int| 0 <= t < i && merge_one(ev[t], dv).1;
                assert(0 <= w < i + 1 && merge_one(ev[w], dv).1);
            }
        }
        merged.push(skill);
        i = i + 1;
    }
    let ghost updated = merged@;
    let mut j: usize = 0;
    proof {
        assert(dv.take(0) =~= Seq::<SkillModel>::empty());
        assert(skill_views(merged@) =~= ev.map_values(|s: SkillModel| merge_one(s, dv).0)
            + absent_skills(dv.take(0), ev));
        assert(skill_views(existing_skills@).take(n as int) =~= ev);
    }
    while j < defaults.len()
        invariant
            n == existing_skills@.len() == ev.len(),
            ev == skill_views(existing_skills@),
            skill_views(defaults@) == dv,
            j <= defaults@.len(),
            skill_views(merged@) == ev.map_values(|s: SkillModel| merge_one(s, dv).0)
                + absent_skills(dv.take(j as int), ev),
            changed == ((exists|t: int| 0 <= t < n && merge_one(ev[t], dv).1) || absent_skills(
                dv.take(j as int),
                ev,
            ).len() > 0),
        decreases defaults@.len() - j,
    {
        let ghost dj = dv.take(j + 1);
        proof {
            assert(dj.drop_last() =~= dv.take(j as int));
            assert(dj.last() == defaults@[j as int]@);
            assert(skill_views(existing_skills@).take(n as int) =~= ev);
        }
        let present = skill_id_in_prefix(&existing_skills, n, &defaults[j].id);
        if !present {
            let ghost prev = skill_views(merged@);
            merged.push(defaults[j].clone());
            changed = true;
            proof {
                assert(skill_views(merged@) =~= prev.push(defaults@[j as int]@));
            }
        }
        j = j + 1;
    }
    proof {
        assert(dv.take(dv.len() as int) =~= dv);
    }
    (merged, changed)
}


proof fn lemma_absent_subs_empty(defaults: Seq<SubCommandModel>, present: Seq<SubCommandModel>)
    requires
        forall|j: int| 0 <= j < defaults.len() ==> has_sub_id(present, #[trigger] defaults[j].id),
    ensures
        absent_subs(defaults, present).len() == 0,
    decreases defaults.len(),
{
    if defaults.len() > 0 {
        let d = defaults.drop_last();
        assert forall|j: int| 0 <= j < d.len() implies has_sub_id(present, #[trigger] d[j].id) by {
            assert(d[j] == defaults[j]);
        }
        lemma_absent_subs_empty(d, present);
        assert(has_sub_id(present, defaults[defaults.len() - 1].id));
    }
}

proof fn lemma_absent_subs_covers(defaults: Seq<SubCommandModel>, present: Seq<SubCommandModel>)
    ensures
        forall|j: int|
            0 <= j < defaults.len() ==> has_sub_id(present, #[trigger] defaults[j].id) || has_sub_id(
                absent_subs(defaults, present),
                defaults[j].id,
            ),
    decreases defaults.len(),
{
    if defaults.len() > 0 {
        let d = defaults.drop_last();
        let r = absent_subs(d, present);
        lemma_absent_subs_covers(d, present);
        let last = defaults[defaults.len() - 1];
        assert forall|j: int|
            0 <= j < defaults.len() implies has_sub_id(present, #[trigger] defaults[j].id)
            || has_sub_id(absent_subs(defaults, present), defaults[j].id) by {
            if j < defaults.len() - 1 {
                assert(d[j] == defaults[j]);
                if !has_sub_id(present, d[j].id) {
                    let k = choose|k: int| 0 <= k < r.len() && r[k].id == d[j].id;
                    if !has_sub_id(present, last.id) {
                        assert(absent_subs(defaults, present)[k] == r[k]);
                    }
                }
            } else {
                if !has_sub_id(present, last.id) {
                    assert(absent_subs(defaults, present)[r.len() as int] == last);
                }
            }
        }
    }
}

proof fn lemma_has_sub_id_concat(a: Seq<SubCommandModel>, b: Seq<SubCommandModel>, id: Seq<char>)
    requires
        has_sub_id(a, id) || has_sub_id(b, id),
    ensures
        has_sub_id(a + b, id),
{
    if has_sub_id(a, id) {
        let k = choose|k: int| 0 <= k < a.len() && a[k].id == id;
        assert((a + b)[k] == a[k]);
    } else {
        let k = choose|k: int| 0 <= k < b.len() && b[k].id == id;
        assert((a + b)[a.len() + k] == b[k]);
    }
}

/// After appending the absent defaults, none is absent any more.
proof fn lemma_subs_merge_complete(present: Seq<SubCommandModel>, defaults: Seq<SubCommandModel>)
    ensures
        absent_subs(defaults, present + absent_subs(defaults, present)).len() == 0,
{
    let added = absent_subs(defaults, present);
    lemma_absent_subs_covers(defaults, present);
    assert forall|j: int| 0 <= j < defaults.len() implies has_sub_id(
        present + added,
        #[trigger] defaults[j].id,
    ) by {
        lemma_has_sub_id_concat(present, added, defaults[j].id);
    }
    lemma_absent_subs_empty(defaults, present + added);
}

proof fn lemma_absent_sites_empty(defaults: Seq<SiteModel>, present: Seq<SiteModel>)
    requires
        forall|j: int| 0 <= j < defaults.len() ==> has_site_id(present, #[trigger] defaults[j].id),
    ensures
        absent_sites(defaults, present).len() == 0,
    decreases defaults.len(),
{
    if defaults.len() > 0 {
        let d = defaults.drop_last();
        assert forall|j: int| 0 <= j < d.len() implies has_site_id(present, #[trigger] d[j].id) by {
            assert(d[j] == defaults[j]);
        }
        lemma_absent_sites_empty(d, present);
        assert(has_site_id(present, defaults[defaults.len() - 1].id));
    }
}

proof fn lemma_absent_sites_covers(defaults: Seq<SiteModel>, present: Seq<SiteModel>)
    ensures
        forall|j: int|
            0 <= j < defaults.len() ==> has_site_id(present, #[trigger] defaults[j].id) || has_site_id(
                absent_sites(defaults, present),
                defaults[j].id,
            ),
    decreases defaults.len(),
{
    if defaults.len() > 0 {
        let d = defaults.drop_last();
        let r = absent_sites(d, present);
        lemma_absent_sites_covers(d, present);
        let last = defaults[defaults.len() - 1];
        assert forall|j: int|
            0 <= j < defaults.len() implies has_site_id(present, #[trigger] defaults[j].id)
            || has_site_id(absent_sites(defaults, present), defaults[j].id) by {
            if j < defaults.len() - 1 {
                assert(d[j] == defaults[j]);
                if !has_site_id(present, d[j].id) {
                    let k = choose|k: int| 0 <= k < r.len() && r[k].id == d[j].id;
                    if !has_site_id(present, last.id) {
                        assert(absent_sites(defaults, present)[k] == r[k]);
                    }
                }
            } else {
                if !has_site_id(present, last.id) {
                    assert(absent_sites(defaults, present)[r.len() as int] == last);
                }
            }
        }
    }
}

proof fn lemma_has_site_id_concat(a: Seq<SiteModel>, b: Seq<SiteModel>, id: Seq<char>)
    requires
        has_site_id(a, id) || has_site_id(b, id),
    ensures
        has_site_id(a + b, id),
{
    if has_site_id(a, id) {
        let k = choose|k: int| 0 <= k < a.len() && a[k].id == id;
        assert((a + b)[k] == a[k]);
    } else {
        let k = choose|k: int| 0 <= k < b.len() && b[k].id == id;
        assert((a + b)[a.len() + k] == b[k]);
    }
}

/// After appending the absent defaults, none is absent any more.
proof fn lemma_sites_merge_complete(present: Seq<SiteModel>, defaults: Seq<SiteModel>)
    ensures
        absent_sites(defaults, present + absent_sites(defaults, present)).len() == 0,
{
    let added = absent_sites(defaults, present);
    lemma_absent_sites_covers(defaults, present);
    assert forall|j: int| 0 <= j < defaults.len() implies has_site_id(
        present + added,
        #[trigger] defaults[j].id,
    ) by {
        lemma_has_site_id_concat(present, added, defaults[j].id);
    }
    lemma_absent_sites_empty(defaults, present + added);
}

proof fn lemma_trim_start_keeps(s: Seq<char>, k: CharClass, i: int)
    requires
        0 <= i < s.len(),
        !crate::text::in_class(k, s[i]),
    ensures
        exists|a: int| 0 <= a <= i && crate::text::trim_start(s, k) == s.skip(a),
    decreases s.len(),
{
    if crate::text::in_class(k, s[0]) {
        let t = s.drop_first();
        assert(t[i - 1] == s[i]);
        lemma_trim_start_keeps(t, k, i - 1);
        let a = choose|a: int| 0 <= a <= i - 1 && crate::text::trim_start(t, k) == t.skip(a);
        assert(t.skip(a) =~= s.skip(a + 1));
    } else {
        assert(s.skip(0) =~= s);
    }
}

proof fn lemma_trim_end_keeps(t: Seq<char>, k: CharClass, i: int)
    requires
        0 <= i < t.len(),
        !crate::text::in_class(k, t[i]),
    ensures
        crate::text::trim_end(t, k).len() > i,
    decreases t.len(),
{
    if crate::text::in_class(k, t.last()) {
        let u = t.drop_last();
        assert(u[i] == t[i]);
        lemma_trim_end_keeps(u, k, i);
    }
}

/// A string with a character outside the class is not trimmed to nothing.
pub proof fn lemma_trim_nonempty(s: Seq<char>, k: CharClass, i: int)
    requires
        0 <= i < s.len(),
        !crate::text::in_class(k, s[i]),
    ensures
        crate::text::trim(s, k).len() > 0,
{
    lemma_trim_start_keeps(s, k, i);
    let a = choose|a: int| 0 <= a <= i && crate::text::trim_start(s, k) == s.skip(a);
    let t = s.skip(a);
    assert(t[i - a] == s[i]);
    lemma_trim_end_keeps(t, k, i - a);
}

/// The properties of a list of defaults that make the merge idempotent:
/// identifiers are distinct and every search template is not blank.
pub open spec fn well_formed_defaults(defaults: Seq<SkillModel>) -> bool {
    &&& forall|i: int, j: int|
        0 <= i < defaults.len() && 0 <= j < defaults.len() && i != j ==> defaults[i].id
            != defaults[j].id
    &&& forall|i: int|
        0 <= i < defaults.len() && (#[trigger] defaults[i]).browser_options is Some ==> crate::text::trim(
            defaults[i].browser_options->0.search_url_template,
            CharClass::WhiteSpace,
        ).len() > 0
}

proof fn lemma_find_by_id_some(s: Seq<SkillModel>, id: Seq<char>)
    ensures
        match find_by_id(s, id) {
            Some(d) => exists|k: int|
                0 <= k < s.len() && s[k] == d && d.id == id && forall|j: int|
                    0 <= j < k ==> s[j].id != id,
            None => forall|j: int| 0 <= j < s.len() ==> s[j].id != id,
        },
    decreases s.len(),
{
    if s.len() > 0 && s[0].id != id {
        let t = s.drop_first();
        lemma_find_by_id_some(t, id);
        match find_by_id(t, id) {
            Some(d) => {
                let k = choose|k: int|
                    0 <= k < t.len() && t[k] == d && d.id == id && forall|j: int|
                        0 <= j < k ==> t[j].id != id;
                assert(s[k + 1] == d);
                assert forall|j: int| 0 <= j < k + 1 implies s[j].id != id by {
                    if j > 0 {
                        assert(s[j] == t[j - 1]);
                    }
                }
            },
            None => {
                assert forall|j: int| 0 <= j < s.len() implies s[j].id != id by {
                    if j > 0 {
                        assert(s[j] == t[j - 1]);
                    }
                }
            },
        }
    }
}

/// Merging a skill with a default twice changes nothing the second time.
proof fn lemma_merge_skill_twice(skill: SkillModel, d: SkillModel)
    requires
        d.browser_options is Some ==> crate::text::trim(
            d.browser_options->0.search_url_template,
            CharClass::WhiteSpace,
        ).len() > 0,
    ensures
        merge_skill_spec(merge_skill_spec(skill, d).0, d) == (merge_skill_spec(skill, d).0, false),
{
    let m = merge_skill_spec(skill, d).0;
    lemma_subs_merge_complete(skill.sub_commands, d.sub_commands);
    assert(m.sub_commands + absent_subs(d.sub_commands, m.sub_commands) =~= m.sub_commands);
    match (skill.browser_options, d.browser_options) {
        (None, Some(dd)) => {
            lemma_absent_sites_empty(dd.sites, dd.sites);
            assert(dd.sites + absent_sites(dd.sites, dd.sites) =~= dd.sites);
        },
        (Some(oo), Some(dd)) => {
            let o2 = m.browser_options->0;
            lemma_sites_merge_complete(oo.sites, dd.sites);
            assert(o2.sites + absent_sites(dd.sites, o2.sites) =~= o2.sites);
        },
        _ => {},
    }
}

proof fn lemma_absent_skills_covers(defaults: Seq<SkillModel>, present: Seq<SkillModel>)
    ensures
        forall|j: int|
            0 <= j < defaults.len() ==> has_skill_id(present, #[trigger] defaults[j].id)
                || has_skill_id(absent_skills(defaults, present), defaults[j].id),
    decreases defaults.len(),
{
    if defaults.len() > 0 {
        let d = defaults.drop_last();
        let r = absent_skills(d, present);
        lemma_absent_skills_covers(d, present);
        let last = defaults[defaults.len() - 1];
        assert forall|j: int|
            0 <= j < defaults.len() implies has_skill_id(present, #[trigger] defaults[j].id)
            || has_skill_id(absent_skills(defaults, present), defaults[j].id) by {
            if j < defaults.len() - 1 {
                assert(d[j] == defaults[j]);
                if !has_skill_id(present, d[j].id) {
                    let k = choose|k: int| 0 <= k < r.len() && r[k].id == d[j].id;
                    if !has_skill_id(present, last.id) {
                        assert(absent_skills(defaults, present)[k] == r[k]);
                    }
                }
            } else {
                if !has_skill_id(present, last.id) {
                    assert(absent_skills(defaults, present)[r.len() as int] == last);
                }
            }
        }
    }
}

proof fn lemma_absent_skills_empty(defaults: Seq<SkillModel>, present: Seq<SkillModel>)
    requires
        forall|j: int| 0 <= j < defaults.len() ==> has_skill_id(present, #[trigger] defaults[j].id),
    ensures
        absent_skills(defaults, present).len() == 0,
    decreases defaults.len(),
{
    if defaults.len() > 0 {
        let d = defaults.drop_last();
        assert forall|j: int| 0 <= j < d.len() implies has_skill_id(present, #[trigger] d[j].id) by {
            assert(d[j] == defaults[j]);
        }
        lemma_absent_skills_empty(d, present);
        assert(has_skill_id(present, defaults[defaults.len() - 1].id));
    }
}

/// Each skill that `absent_skills` yields is one of the defaults.
proof fn lemma_absent_skills_members(defaults: Seq<SkillModel>, present: Seq<SkillModel>)
    ensures
        forall|k: int|
            0 <= k < absent_skills(defaults, present).len() ==> exists|j: int|
                0 <= j < defaults.len() && defaults[j] == #[trigger] absent_skills(
                    defaults,
                    present,
                )[k],
    decreases defaults.len(),
{
    if defaults.len() > 0 {
        let d = defaults.drop_last();
        lemma_absent_skills_members(d, present);
        let r = absent_skills(d, present);
        assert forall|k: int| 0 <= k < absent_skills(defaults, present).len() implies exists|j: int|
            0 <= j < defaults.len() && defaults[j] == #[trigger] absent_skills(
                defaults,
                present,
            )[k] by {
            if k < r.len() {
                assert(absent_skills(defaults, present)[k] == r[k]);
                let j = choose|j: int| 0 <= j < d.len() && d[j] == r[k];
                assert(defaults[j] == d[j]);
            } else {
                assert(absent_skills(defaults, present)[k] == defaults[defaults.len() - 1]);
            }
        }
    }
}

/// Merging a list that was already merged with the same defaults changes
/// nothing.
pub proof fn lemma_merge_skills_idempotent(existing: Seq<SkillModel>, defaults: Seq<SkillModel>)
    requires
        well_formed_defaults(defaults),
    ensures
        merge_skills_spec(merge_skills_spec(existing, defaults).0, defaults) == (
            merge_skills_spec(existing, defaults).0,
            false,
        ),
{
    let updated = existing.map_values(|s: SkillModel| merge_one(s, defaults).0);
    let added = absent_skills(defaults, existing);
    let m = updated + added;
    assert(m == merge_skills_spec(existing, defaults).0);
    assert forall|i: int| 0 <= i < m.len() implies merge_one(#[trigger] m[i], defaults) == (
        m[i],
        false,
    ) by {
        if i < updated.len() {
            let s = existing[i];
            lemma_find_by_id_some(defaults, s.id);
            match find_by_id(defaults, s.id) {
                Some(d) => {
                    let k = choose|k: int|
                        0 <= k < defaults.len() && defaults[k] == d && d.id == s.id && forall|
                            j: int,
                        |
                            0 <= j < k ==> defaults[j].id != s.id;
                    assert(defaults[k] == d);
                    lemma_merge_skill_twice(s, d);
                    assert(m[i] == merge_skill_spec(s, d).0);
                    assert(m[i].id == s.id);
                },
                None => {
                    assert(m[i] == s);
                },
            }
        } else {
            let x = m[i];
            assert(x == added[i - updated.len()]);
            lemma_absent_skills_members(defaults, existing);
            let j = choose|j: int| 0 <= j < defaults.len() && defaults[j] == x;
            lemma_find_by_id_some(defaults, x.id);
            match find_by_id(defaults, x.id) {
                Some(d) => {
                    let k = choose|k: int|
                        0 <= k < defaults.len() && defaults[k] == d && d.id == x.id && forall|
                            t: int,
                        |
                            0 <= t < k ==> defaults[t].id != x.id;
                    assert(k == j);
                    assert(defaults[j] == x);
                    lemma_merge_skill_twice(x, x);
                    lemma_subs_merge_complete(x.sub_commands, x.sub_commands);
                    lemma_absent_subs_empty(x.sub_commands, x.sub_commands);
                    assert(x.sub_commands + absent_subs(x.sub_commands, x.sub_commands)
                        =~= x.sub_commands);
                    match x.browser_options {
                        Some(o) => {
                            lemma_absent_sites_empty(o.sites, o.sites);
                            assert(o.sites + absent_sites(o.sites, o.sites) =~= o.sites);
                        },
                        None => {},
                    }
                },
                None => {},
            }
        }
    }
    assert(m.map_values(|s: SkillModel| merge_one(s, defaults).0) =~= m);
    lemma_absent_skills_covers(defaults, existing);
    assert forall|j: int| 0 <= j < defaults.len() implies has_skill_id(
        m,
        #[trigger] defaults[j].id,
    ) by {
        if has_skill_id(existing, defaults[j].id) {
            let k = choose|k: int| 0 <= k < existing.len() && existing[k].id == defaults[j].id;
            lemma_find_by_id_some(defaults, existing[k].id);
            assert(m[k] == merge_one(existing[k], defaults).0);
            assert(m[k].id == existing[k].id);
        } else {
            let k = choose|k: int| 0 <= k < added.len() && added[k].id == defaults[j].id;
            assert(m[updated.len() + k] == added[k]);
        }
    }
    lemma_absent_skills_empty(defaults, m);
    assert(m + absent_skills(defaults, m) =~= m);
}


/// The built-in skills have distinct identifiers and a non-blank search
/// template.
pub proof fn lemma_default_skills_well_formed()
    ensures
        well_formed_defaults(default_skills_model()),
{
    reveal_strlit("compose_email");
    reveal_strlit("open_calculator");
    reveal_strlit("open_browser");
    reveal_strlit("open_notepad");
    reveal_strlit("open_explorer");
    reveal_strlit("screenshot");
    reveal_strlit("enable_polish");
    reveal_strlit("disable_polish");
    reveal_strlit("switch_polish_scene");
    reveal_strlit("https://www.bing.com/search?q={query}");
    let d = default_skills_model();
    assert forall|i: int, j: int|
        0 <= i < d.len() && 0 <= j < d.len() && i != j implies d[i].id != d[j].id by {
        assert(d[i].id.len() != d[j].id.len() || d[i].id[0] != d[j].id[0] || d[i].id[5]
            != d[j].id[5]);
    }
    let t = DEFAULT_SEARCH_URL_TEMPLATE@;
    assert(t[0] == 'h');
    lemma_trim_nonempty(t, CharClass::WhiteSpace, 0);
    assert forall|i: int|
        0 <= i < d.len() && (#[trigger] d[i]).browser_options is Some implies crate::text::trim(
        d[i].browser_options->0.search_url_template,
        CharClass::WhiteSpace,
    ).len() > 0 by {
        assert(i == 2);
    }
}

/// Bringing a skill list up to date with the built-in skills a second time
/// changes nothing and reports no change.
pub proof fn law_merge_with_default_skills_idempotent(existing: Seq<SkillModel>)
    ensures
        merge_skills_spec(merge_skills_spec(existing, default_skills_model()).0, default_skills_model())
            == (merge_skills_spec(existing, default_skills_model()).0, false),
{
    lemma_default_skills_well_formed();
    lemma_merge_skills_idempotent(existing, default_skills_model());
}

} // verus!
