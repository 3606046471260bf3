//! Browser commands: the query spoken after a browser keyword, tab numbers,
//! site aliases, the URLs that may be opened, and the action that a
//! transcript asks of the browser.

use vstd::prelude::*;
use crate::skills::{BrowserSiteConfig, SiteModel, SkillConfig, SkillModel};
use crate::text::{
    byte_range_of, chars_equal, chars_of, ends_with_chars, prefix_chars, replace_chars, string_of,
    trim_class, CharClass,
};

verus! {

/// A browser query with sentence punctuation, quotes and white space trimmed
/// from both ends.
pub open spec fn query_trim(s: Seq<char>) -> Seq<char> {
    crate::text::trim(crate::text::trim(s, CharClass::QueryBoundary), CharClass::WhiteSpace)
}

/// `q` without the connective `suf` at its end (and re-trimmed), and whether
/// it was there.
pub open spec fn strip_connector(q: Seq<char>, suf: Seq<char>) -> (Seq<char>, bool) {
    if crate::text::ends_with(q, suf) {
        (query_trim(q.take(q.len() - suf.len())), true)
    } else {
        (q, false)
    }
}

/// One pass over the trailing connectives "然后", "再", "并且", "并", "接着"
/// ("then", "again", "and"), in that order.
pub open spec fn connector_pass(q: Seq<char>) -> (Seq<char>, bool) {
    let a = strip_connector(q, "然后"@);
    let b = strip_connector(a.0, "再"@);
    let c = strip_connector(b.0, "并且"@);
    let d = strip_connector(c.0, "并"@);
    let e = strip_connector(d.0, "接着"@);
    (e.0, a.1 || b.1 || c.1 || d.1 || e.1)
}

/// `q` after passes over the trailing connectives until a pass strips none.
/// (A pass that strips one makes `q` shorter, see
/// [`lemma_connector_pass_shrinks`].)
pub open spec fn strip_connectors(q: Seq<char>) -> Seq<char>
    decreases q.len(),
{
    let p = connector_pass(q);
    if p.1 && p.0.len() < q.len() {
        strip_connectors(p.0)
    } else {
        p.0
    }
}

proof fn lemma_query_trim_len(s: Seq<char>)
    ensures
        query_trim(s).len() <= s.len(),
{
    crate::text::lemma_trim_len(s, CharClass::QueryBoundary);
    crate::text::lemma_trim_len(crate::text::trim(s, CharClass::QueryBoundary), CharClass::WhiteSpace);
}

proof fn lemma_strip_connector_len(q: Seq<char>, suf: Seq<char>)
    requires
        suf.len() > 0,
    ensures
        strip_connector(q, suf).0.len() <= q.len(),
        strip_connector(q, suf).1 ==> strip_connector(q, suf).0.len() < q.len(),
        !strip_connector(q, suf).1 ==> strip_connector(q, suf).0 == q,
{
    if crate::text::ends_with(q, suf) {
        lemma_query_trim_len(q.take(q.len() - suf.len()));
    }
}

/// A pass that strips a connective shortens the query; one that strips none
/// leaves it as it was.
pub proof fn lemma_connector_pass_shrinks(q: Seq<char>)
    ensures
        connector_pass(q).1 ==> connector_pass(q).0.len() < q.len(),
        !connector_pass(q).1 ==> connector_pass(q).0 == q,
{
    reveal_strlit("然后");
    reveal_strlit("再");
    reveal_strlit("并且");
    reveal_strlit("并");
    reveal_strlit("接着");
    let a = strip_connector(q, "然后"@);
    let b = strip_connector(a.0, "再"@);
    let c = strip_connector(b.0, "并且"@);
    let d = strip_connector(c.0, "并"@);
    lemma_strip_connector_len(q, "然后"@);
    lemma_strip_connector_len(a.0, "再"@);
    lemma_strip_connector_len(b.0, "并且"@);
    lemma_strip_connector_len(c.0, "并"@);
    lemma_strip_connector_len(d.0, "接着"@);
}

/// The free-form query spoken between byte offsets `start` and `end` (the end
/// of the transcript when absent): empty unless both are character
/// boundaries with `start < end`; otherwise the text between them trimmed and
/// without trailing connectives.
pub open spec fn freeform_query_spec(transcript: Seq<char>, start: int, end: Option<int>) -> Seq<char> {
    let e = match end {
        Some(x) => x,
        None => crate::text::utf8_len(transcript) as int,
    };
    match crate::text::byte_range_chars(transcript, start, e) {
        Some(piece) => strip_connectors(query_trim(piece)),
        None => Seq::empty(),
    }
}

fn query_trim_chars(s: &Vec<char>) -> (r: Vec<char>)
    ensures
        r@ == query_trim(s@),
{
    let a = trim_class(s, CharClass::QueryBoundary);
    trim_class(&a, CharClass::WhiteSpace)
}

fn strip_connector_chars(q: Vec<char>, suf: &Vec<char>) -> (r: (Vec<char>, bool))
    ensures
        (r.0@, r.1) == strip_connector(q@, suf@),
{
    if ends_with_chars(&q, suf) {
        let head = prefix_chars(&q, q.len() - suf.len());
        (query_trim_chars(&head), true)
    } else {
        (q, false)
    }
}

/// Removes trailing connectives until none is left.
fn strip_connectors_chars(q: Vec<char>) -> (r: Vec<char>)
    ensures
        r@ == strip_connectors(q@),
{
    let s1 = chars_of("然后");
    let s2 = chars_of("再");
    let s3 = chars_of("并且");
    let s4 = chars_of("并");
    let s5 = chars_of("接着");
    let mut query = q;
    let mut done = false;
    let ghost target = strip_connectors(q@);
    while !done
        invariant
            s1@ == "然后"@,
            s2@ == "再"@,
            s3@ == "并且"@,
            s4@ == "并"@,
            s5@ == "接着"@,
            !done ==> strip_connectors(query@) == target,
            done ==> query@ == target,
        decreases query@.len(), if done { 0int } else { 1int },
    {
        let ghost before = query@;
        proof {
            lemma_connector_pass_shrinks(before);
        }
        let (a, x1) = strip_connector_chars(query, &s1);
        let (b, x2) = strip_connector_chars(a, &s2);
        let (c, x3) = strip_connector_chars(b, &s3);
        let (d, x4) = strip_connector_chars(c, &s4);
        let (e, x5) = strip_connector_chars(d, &s5);
        query = e;
        if !(x1 || x2 || x3 || x4 || x5) {
            done = true;
        }
    }
    query
}

/// The free-form query spoken after a browser keyword, up to the next
/// command (or the end of the transcript).
pub fn extract_freeform_query(transcript: &str, start: usize, end: Option<usize>) -> (r: String)
    ensures
        r@ == freeform_query_spec(
            transcript@,
            start as int,
            match end {
                Some(x) => Some(x as int),
                None => None,
            },
        ),
{
    let t = chars_of(transcript);
    let e = match end {
        Some(x) => x,
        None => crate::matching::byte_offset(&t, t.len()),
    };
    proof {
        assert(t@.take(t@.len() as int) =~= t@);
    }
    match byte_range_of(&t, start, e) {
        Some(piece) => {
            let trimmed = query_trim_chars(&piece);
            string_of(&strip_connectors_chars(trimmed))
        },
        None => String::new(),
    }
}


/// An ASCII decimal digit.
pub open spec fn is_ascii_digit(c: char) -> bool {
    48 <= (c as u32) && (c as u32) <= 57
}

/// The ASCII digits of `s`, in order.
pub open spec fn ascii_digits(s: Seq<char>) -> Seq<char>
    decreases s.len(),
{
    if s.len() == 0 {
        Seq::empty()
    } else if is_ascii_digit(s.last()) {
        ascii_digits(s.drop_last()).push(s.last())
    } else {
        ascii_digits(s.drop_last())
    }
}

/// The number that a string of ASCII digits writes in decimal.
pub open spec fn digits_value(d: Seq<char>) -> nat
    decreases d.len(),
{
    if d.len() == 0 {
        0
    } else {
        digits_value(d.drop_last()) * 10 + ((d.last() as u32) - 48) as nat
    }
}

/// The value of a Chinese numeral from one to ten, as a tab number.
pub open spec fn chinese_numeral(s: Seq<char>) -> Option<nat> {
    if s == "一"@ || s == "壹"@ || s == "幺"@ {
        Some(1)
    } else if s == "二"@ || s == "两"@ || s == "贰"@ {
        Some(2)
    } else if s == "三"@ || s == "叁"@ {
        Some(3)
    } else if s == "四"@ || s == "肆"@ {
        Some(4)
    } else if s == "五"@ || s == "伍"@ {
        Some(5)
    } else if s == "六"@ || s == "陆"@ {
        Some(6)
    } else if s == "七"@ || s == "柒"@ {
        Some(7)
    } else if s == "八"@ || s == "捌"@ {
        Some(8)
    } else if s == "九"@ || s == "玖"@ {
        Some(9)
    } else if s == "十"@ {
        Some(10)
    } else {
        None
    }
}

/// A spoken tab position without its ordinal and "tab"/"page" words:
/// "第", "个", "页面", "标签页", "标签", "页" removed in that order, then
/// trimmed.
pub open spec fn tab_words_removed(t: Seq<char>) -> Seq<char> {
    let e = Seq::<char>::empty();
    let a = crate::text::replace_all(t, "第"@, e);
    let b = crate::text::replace_all(a, "个"@, e);
    let c = crate::text::replace_all(b, "页面"@, e);
    let d = crate::text::replace_all(c, "标签页"@, e);
    let f = crate::text::replace_all(d, "标签"@, e);
    let g = crate::text::replace_all(f, "页"@, e);
    crate::text::trim(g, CharClass::WhiteSpace)
}

/// The tab number that `raw` names: its ASCII digits read in decimal when it
/// has any (at least one, at most `usize::MAX`), else a Chinese numeral from
/// one to ten.
pub open spec fn tab_index_spec(raw: Seq<char>) -> Option<nat> {
    let t = crate::text::trim(raw, CharClass::WhiteSpace);
    if t.len() == 0 {
        None
    } else if ascii_digits(t).len() > 0 {
        let v = digits_value(ascii_digits(t));
        if 1 <= v && v <= usize::MAX {
            Some(v)
        } else {
            None
        }
    } else {
        chinese_numeral(tab_words_removed(t))
    }
}

/// The ASCII digits of `s`.
fn ascii_digits_of(s: &Vec<char>) -> (r: Vec<char>)
    ensures
        r@ == ascii_digits(s@),
{
    let mut r: Vec<char> = Vec::new();
    let mut i: usize = 0;
    proof {
        assert(s@.take(0) =~= Seq::<char>::empty());
    }
    while i < s.len()
        invariant
            i <= s@.len(),
            r@ == ascii_digits(s@.take(i as int)),
        decreases s@.len() - i,
    {
        proof {
            assert(s@.take(i + 1).drop_last() =~= s@.take(i as int));
            assert(s@.take(i + 1).last() == s@[i as int]);
        }
        let c = s[i];
        let u = c as u32;
        if 48 <= u && u <= 57 {
            r.push(c);
        }
        i = i + 1;
    }
    proof {
        assert(s@.take(s@.len() as int) =~= s@);
    }
    r
}

/// The decimal value of a digit string, if it is between one and
/// `usize::MAX`.
fn positive_digits_value(d: &Vec<char>) -> (r: Option<usize>)
    requires
        forall|i: int| 0 <= i < d@.len() ==> is_ascii_digit(#[trigger] d@[i]),
    ensures
        match r {
            Some(v) => v == digits_value(d@) && v >= 1,
            None => digits_value(d@) < 1 || digits_value(d@) > usize::MAX,
        },
{
    let mut acc: u128 = 0;
    let mut i: usize = 0;
    let mut overflow = false;
    proof {
        assert(d@.take(0) =~= Seq::<char>::empty());
    }
    while i < d.len()
        invariant
            i <= d@.len(),
            forall|t: int| 0 <= t < d@.len() ==> is_ascii_digit(#[trigger] d@[t]),
            !overflow ==> acc == digits_value(d@.take(i as int)) && acc <= usize::MAX,
            overflow ==> digits_value(d@.take(i as int)) > usize::MAX,
        decreases d@.len() - i,
    {
        proof {
            assert(d@.take(i + 1).drop_last() =~= d@.take(i as int));
            assert(d@.take(i + 1).last() == d@[i as int]);
            assert(is_ascii_digit(d@[i as int]));
        }
        let digit = (d[i] as u32 - 48) as u128;
        if !overflow {
            let next = acc * 10 + digit;
            if next > usize::MAX as u128 {
                overflow = true;
            } else {
                acc = next;
            }
        }
        i = i + 1;
    }
    proof {
        assert(d@.take(d@.len() as int) =~= d@);
    }
    if overflow || acc < 1 {
        None
    } else {
        Some(acc as usize)
    }
}

fn literal_is(s: &Vec<char>, lit: &str) -> (b: bool)
    ensures
        b == (s@ == lit@),
{
    chars_equal(s, &chars_of(lit))
}

/// The value of a Chinese numeral from one to ten.
fn chinese_numeral_of(s: &Vec<char>) -> (r: Option<usize>)
    ensures
        match r {
            Some(v) => chinese_numeral(s@) == Some(v as nat),
            None => chinese_numeral(s@) is None,
        },
{
    if literal_is(s, "一") || literal_is(s, "壹") || literal_is(s, "幺") {
        Some(1)
    } else if literal_is(s, "二") || literal_is(s, "两") || literal_is(s, "贰") {
        Some(2)
    } else if literal_is(s, "三") || literal_is(s, "叁") {
        Some(3)
    } else if literal_is(s, "四") || literal_is(s, "肆") {
        Some(4)
    } else if literal_is(s, "五") || literal_is(s, "伍") {
        Some(5)
    } else if literal_is(s, "六") || literal_is(s, "陆") {
        Some(6)
    } else if literal_is(s, "七") || literal_is(s, "柒") {
        Some(7)
    } else if literal_is(s, "八") || literal_is(s, "捌") {
        Some(8)
    } else if literal_is(s, "九") || literal_is(s, "玖") {
        Some(9)
    } else if literal_is(s, "十") {
        Some(10)
    } else {
        None
    }
}

/// Removes every occurrence of the literal `pat`.
fn remove_literal(s: &Vec<char>, pat: &str) -> (r: Vec<char>)
    requires
        pat@.len() > 0,
    ensures
        r@ == crate::text::replace_all(s@, pat@, Seq::<char>::empty()),
{
    let p = chars_of(pat);
    let e: Vec<char> = Vec::new();
    proof {
        assert(e@ =~= Seq::<char>::empty());
    }
    replace_chars(s, &p, &e)
}

/// The tab number spoken in `raw`: "3", "第三个", "第十个标签页".
pub fn parse_tab_index(raw: &str) -> (r: Option<usize>)
    ensures
        match r {
            Some(v) => tab_index_spec(raw@) == Some(v as nat),
            None => tab_index_spec(raw@) is None,
        },
{
    let t = trim_class(&chars_of(raw), CharClass::WhiteSpace);
    if t.len() == 0 {
        return None;
    }
    let digits = ascii_digits_of(&t);
    if digits.len() > 0 {
        proof {
            lemma_ascii_digits_are_digits(t@);
        }
        return positive_digits_value(&digits);
    }
    proof {
        reveal_strlit("第");
        reveal_strlit("个");
        reveal_strlit("页面");
        reveal_strlit("标签页");
        reveal_strlit("标签");
        reveal_strlit("页");
    }
    let a = remove_literal(&t, "第");
    let b = remove_literal(&a, "个");
    let c = remove_literal(&b, "页面");
    let d = remove_literal(&c, "标签页");
    let f = remove_literal(&d, "标签");
    let g = remove_literal(&f, "页");
    let n = trim_class(&g, CharClass::WhiteSpace);
    chinese_numeral_of(&n)
}

/// Every character that [`ascii_digits`] keeps is a digit.
pub proof fn lemma_ascii_digits_are_digits(s: Seq<char>)
    ensures
        forall|i: int| 0 <= i < ascii_digits(s).len() ==> is_ascii_digit(#[trigger] ascii_digits(s)[i]),
    decreases s.len(),
{
    if s.len() > 0 {
        lemma_ascii_digits_are_digits(s.drop_last());
        let prev = ascii_digits(s.drop_last());
        assert forall|i: int| 0 <= i < ascii_digits(s).len() implies is_ascii_digit(
            #[trigger] ascii_digits(s)[i],
        ) by {
            if i < prev.len() {
                assert(prev[i] == ascii_digits(s)[i]);
            }
        }
    }
}


/// A spoken site name in comparable form: punctuation and white space
/// dropped, lower case.
pub fn normalize_browser_target_token(value: &str) -> (r: String)
    ensures
        r@ == crate::scenes::lower_filtered(value@),
{
    string_of(&crate::scenes::lower_filtered_chars(&chars_of(value)))
}

/// The names a site answers to: its name, then its comma-separated aliases.
pub open spec fn site_names(site: SiteModel) -> Seq<Seq<char>> {
    seq![site.name] + crate::text::list_entries(site.aliases)
}

/// An enabled site one of whose names normalises to the query `q`.
pub open spec fn site_matches(site: SiteModel, q: Seq<char>) -> bool {
    site.enabled && exists|i: int|
        0 <= i < site_names(site).len() && crate::scenes::lower_filtered(#[trigger] site_names(site)[i]).len()
            > 0 && crate::scenes::lower_filtered(site_names(site)[i]) == q
}

/// The trimmed URL of the first site that matches `q`.
pub open spec fn first_site_url(sites: Seq<SiteModel>, q: Seq<char>) -> Option<Seq<char>>
    decreases sites.len(),
{
    if sites.len() == 0 {
        None
    } else if site_matches(sites[0], q) {
        Some(crate::text::trim(sites[0].url, CharClass::WhiteSpace))
    } else {
        first_site_url(sites.drop_first(), q)
    }
}

/// The URL of the configured site that a spoken name refers to.
pub open spec fn site_url_spec(skill: SkillModel, query: Seq<char>) -> Option<Seq<char>> {
    match skill.browser_options {
        None => None,
        Some(options) => {
            let q = crate::scenes::lower_filtered(query);
            if q.len() == 0 {
                None
            } else {
                first_site_url(options.sites, q)
            }
        },
    }
}

fn name_matches_query(name: &Vec<char>, q: &Vec<char>) -> (b: bool)
    ensures
        b == (crate::scenes::lower_filtered(name@).len() > 0 && crate::scenes::lower_filtered(name@)
            == q@),
{
    let n = crate::scenes::lower_filtered_chars(name);
    n.len() > 0 && chars_equal(&n, q)
}

/// Whether the site is enabled and one of its names normalises to `q`.
fn site_matches_query(site: &BrowserSiteConfig, q: &Vec<char>) -> (b: bool)
    ensures
        b == site_matches(site@, q@),
{
    if !site.enabled {
        return false;
    }
    let ghost names = site_names(site@);
    let name = chars_of(site.name.as_str());
    if name_matches_query(&name, q) {
        proof {
            assert(names[0] == site@.name);
        }
        return true;
    }
    let aliases = crate::text::list_entries_of(&chars_of(site.aliases.as_str()));
    let mut i: usize = 0;
    while i < aliases.len()
        invariant
            i <= aliases@.len(),
            names == site_names(site@),
            site.enabled,
            crate::text::views(aliases@) == crate::text::list_entries(site@.aliases),
            forall|t: int|
                0 <= t < i + 1 ==> !(crate::scenes::lower_filtered(#[trigger] names[t]).len() > 0
                    && crate::scenes::lower_filtered(names[t]) == q@),
        decreases aliases@.len() - i,
    {
        proof {
            assert(names[i + 1] == aliases@[i as int]@);
        }
        if name_matches_query(&aliases[i], q) {
            proof {
                let n = names[i + 1];
                assert(crate::scenes::lower_filtered(n).len() > 0 && crate::scenes::lower_filtered(n)
                    == q@);
            }
            return true;
        }
        i = i + 1;
    }
    false
}

/// The URL of the enabled site whose name or alias is the spoken `query`,
/// compared after normalisation; none if the skill has no browser options or
/// the query is empty once normalised.
pub fn resolve_browser_site_url(browser_skill: &SkillConfig, query: &str) -> (r: Option<String>)
    ensures
        match r {
            Some(u) => site_url_spec(browser_skill@, query@) == Some(u@),
            None => site_url_spec(browser_skill@, query@) is None,
        },
{
    let options = match &browser_skill.browser_options {
        Some(o) => o,
        None => return None,
    };
    let q = crate::scenes::lower_filtered_chars(&chars_of(query));
    if q.len() == 0 {
        return None;
    }
    let ghost sites = crate::skills::site_views(options.sites@);
    let mut i: usize = 0;
    proof {
        assert(sites.skip(0) =~= sites);
    }
    while i < options.sites.len()
        invariant
            i <= options.sites@.len(),
            sites == crate::skills::site_views(options.sites@),
            browser_skill@.browser_options == Some(options@),
            q@ == crate::scenes::lower_filtered(query@),
            q@.len() > 0,
            first_site_url(sites, q@) == first_site_url(sites.skip(i as int), q@),
        decreases options.sites@.len() - i,
    {
        let site = &options.sites[i];
        proof {
            assert(sites.skip(i as int)[0] == site@);
            assert(sites.skip(i as int).drop_first() =~= sites.skip(i + 1));
        }
        if site_matches_query(site, &q) {
            let url = trim_class(&chars_of(site.url.as_str()), CharClass::WhiteSpace);
            proof {
                assert(browser_skill@.browser_options == Some(options@));
                assert(options@.sites == sites);
                assert(first_site_url(sites.skip(i as int), q@) == Some(
                    crate::text::trim(site@.url, CharClass::WhiteSpace),
                ));
            }
            return Some(string_of(&url));
        }
        i = i + 1;
    }
    None
}


/// The parts of a parsed URL that the logic reads: scheme, host (if any),
/// the whole serialization, the port (explicit or the scheme's default), and
/// the user name and password.
#[derive(Debug, PartialEq, Eq)]
pub struct UrlParts {
    pub scheme: String,
    pub host: Option<String>,
    pub serialization: String,
    pub port: Option<u16>,
    pub username: String,
    pub password: Option<String>,
}

/// Mathematical model of [`UrlParts`].
pub struct UrlModel {
    pub scheme: Seq<char>,
    pub host: Option<Seq<char>>,
    pub serialization: Seq<char>,
    pub port: Option<u16>,
    pub username: Seq<char>,
    pub password: Option<Seq<char>>,
}

impl View for UrlParts {
    type V = UrlModel;

    open spec fn view(&self) -> UrlModel {
        UrlModel {
            scheme: self.scheme@,
            host: match self.host {
                Some(h) => Some(h@),
                None => None,
            },
            serialization: self.serialization@,
            port: self.port,
            username: self.username@,
            password: match self.password {
                Some(p) => Some(p@),
                None => None,
            },
        }
    }
}

/// What `url::Url::parse` makes of a text, by the parts above, or the text
/// of its parse error.
pub uninterp spec fn url_parse(input: Seq<char>) -> Result<UrlModel, Seq<char>>;

/// The parts of a parsed URL, when it parsed.
pub open spec fn parsed_parts(r: Result<UrlModel, Seq<char>>) -> Option<UrlModel> {
    match r {
        Ok(u) => Some(u),
        Err(_) => None,
    }
}

/// Parses `input` with `url::Url::parse` and keeps `scheme()`, `host_str()`,
/// the serialization (`to_string()`), `port_or_known_default()`,
/// `username()` and `password()`; or the parse error as text. The contract
/// claims only that this is a function of `input`; what the parser makes of
/// a text is left unsaid.
#[verifier::external_body]
pub(crate) fn parse_url(input: &str) -> (r: Result<UrlParts, String>)
    ensures
        url_parse(input@) == match r {
            Ok(p) => Ok::<UrlModel, Seq<char>>(p@),
            Err(e) => Err::<UrlModel, Seq<char>>(e@),
        },
{
    match url::Url::parse(input) {
        Ok(url) => Ok(
            UrlParts {
                scheme: url.scheme().to_string(),
                host: url.host_str().map(|h| h.to_string()),
                serialization: url.to_string(),
                port: url.port_or_known_default(),
                username: url.username().to_string(),
                password: url.password().map(|p| p.to_string()),
            },
        ),
        Err(e) => Err(e.to_string()),
    }
}

/// A URL is accepted only with the `http` or `https` scheme, as its
/// serialization.
pub open spec fn safe_url_spec(url: UrlModel) -> Result<Seq<char>, Seq<char>> {
    if url.scheme == "http"@ || url.scheme == "https"@ {
        Ok(url.serialization)
    } else {
        Err("仅支持 http 或 https 地址"@)
    }
}

/// Accepts a parsed URL only with the `http` or `https` scheme.
pub fn validate_safe_browser_url(url: &UrlParts) -> (r: Result<String, String>)
    ensures
        match r {
            Ok(s) => safe_url_spec(url@) == Ok::<Seq<char>, Seq<char>>(s@),
            Err(e) => safe_url_spec(url@) == Err::<Seq<char>, Seq<char>>(e@),
        },
{
    let scheme = url.scheme.as_str();
    if crate::text::str_equal(scheme, "http") || crate::text::str_equal(scheme, "https") {
        Ok(url.serialization.clone())
    } else {
        Err(String::from_str("仅支持 http 或 https 地址"))
    }
}

/// The code point of `c` with ASCII upper-case letters taken as lower case.
pub open spec fn ascii_lower(c: char) -> u32 {
    if 65 <= (c as u32) && (c as u32) <= 90 {
        ((c as u32) + 32) as u32
    } else {
        c as u32
    }
}

/// `a` and `b` are equal up to ASCII case (`str::eq_ignore_ascii_case`).
pub open spec fn ascii_case_eq(a: Seq<char>, b: Seq<char>) -> bool {
    a.len() == b.len() && forall|i: int| 0 <= i < a.len() ==> ascii_lower(#[trigger] a[i]) == ascii_lower(b[i])
}

/// A host that looks reachable on the public network: `localhost` in any
/// case, an IP address, or a dotted name that neither starts nor ends with a
/// dot.
pub open spec fn public_host_spec(host: Seq<char>) -> bool {
    ||| ascii_case_eq(host, "localhost"@)
    ||| crate::ip::is_ip_literal(host)
    ||| (host.contains('.') && !(host.len() > 0 && host[0] == '.') && !(host.len() > 0 && host.last()
        == '.'))
}

fn ascii_case_equal(a: &Vec<char>, b: &Vec<char>) -> (r: bool)
    ensures
        r == ascii_case_eq(a@, b@),
{
    if a.len() != b.len() {
        return false;
    }
    let mut i: usize = 0;
    while i < a.len()
        invariant
            i <= a@.len() == b@.len(),
            forall|t: int| 0 <= t < i ==> ascii_lower(#[trigger] a@[t]) == ascii_lower(b@[t]),
        decreases a@.len() - i,
    {
        let x = a[i];
        let y = b[i];
        let xu = x as u32;
        let yu = y as u32;
        let xl = if 65 <= xu && xu <= 90 { xu + 32 } else { xu };
        let yl = if 65 <= yu && yu <= 90 { yu + 32 } else { yu };
        if xl != yl {
            return false;
        }
        i = i + 1;
    }
    true
}

/// Whether a host looks reachable on the public network.
pub fn is_likely_public_host(host: &str) -> (b: bool)
    ensures
        b == public_host_spec(host@),
{
    let h = chars_of(host);
    if ascii_case_equal(&h, &chars_of("localhost")) {
        return true;
    }
    if crate::ip::ip_literal(host) {
        return true;
    }
    let mut has_dot = false;
    let mut i: usize = 0;
    while i < h.len()
        invariant
            i <= h@.len(),
            h@ == host@,
            has_dot == exists|t: int| 0 <= t < i && h@[t] == '.',
        decreases h@.len() - i,
    {
        if h[i] == '.' {
            has_dot = true;
        }
        i = i + 1;
    }
    proof {
        if has_dot {
            let t = choose|t: int| 0 <= t < h@.len() && h@[t] == '.';
            assert(host@.contains('.'));
        }
    }
    has_dot && !(h.len() > 0 && h[0] == '.') && !(h.len() > 0 && h[h.len() - 1] == '.')
}


/// What a URL candidate (trimmed, without white space) comes to, given what
/// the parser made of it (`direct`) and of it with `https://` in front
/// (`prefixed`): a parsed URL is accepted by its scheme; an unparsable one
/// with a scheme separator is refused; otherwise the `https://` form is
/// accepted if its host looks public.
pub open spec fn url_from_parses_spec(
    candidate: Seq<char>,
    direct: Option<UrlModel>,
    prefixed: Option<UrlModel>,
) -> Result<Seq<char>, Seq<char>> {
    match direct {
        Some(u) => safe_url_spec(u),
        None => if crate::text::contains(candidate, "://"@) {
            Err("仅支持 http 或 https 地址"@)
        } else {
            match prefixed {
                None => Err("无法识别为可打开的网址"@),
                Some(p) => {
                    let host = match p.host {
                        Some(h) => h,
                        None => Seq::empty(),
                    };
                    if !public_host_spec(host) {
                        Err("无法识别为可打开的网址"@)
                    } else {
                        safe_url_spec(p)
                    }
                },
            }
        },
    }
}

/// Decides on a URL candidate from what the parser made of it and of its
/// `https://` form.
pub fn browser_url_from_parses(candidate: &str, direct: Option<UrlParts>, prefixed: Option<UrlParts>) -> (r:
    Result<String, String>)
    ensures
        match r {
            Ok(s) => url_from_parses_spec(
                candidate@,
                match direct {
                    Some(u) => Some(u@),
                    None => None,
                },
                match prefixed {
                    Some(u) => Some(u@),
                    None => None,
                },
            ) == Ok::<Seq<char>, Seq<char>>(s@),
            Err(e) => url_from_parses_spec(
                candidate@,
                match direct {
                    Some(u) => Some(u@),
                    None => None,
                },
                match prefixed {
                    Some(u) => Some(u@),
                    None => None,
                },
            ) == Err::<Seq<char>, Seq<char>>(e@),
        },
{
    if let Some(u) = direct {
        return validate_safe_browser_url(&u);
    }
    if crate::text::contains_chars(&chars_of(candidate), &chars_of("://")) {
        return Err(String::from_str("仅支持 http 或 https 地址"));
    }
    match prefixed {
        None => Err(String::from_str("无法识别为可打开的网址")),
        Some(p) => {
            let public = match &p.host {
                Some(h) => is_likely_public_host(h.as_str()),
                None => is_likely_public_host(""),
            };
            proof {
                reveal_strlit("");
                assert(""@ =~= Seq::<char>::empty());
            }
            if !public {
                Err(String::from_str("无法识别为可打开的网址"))
            } else {
                validate_safe_browser_url(&p)
            }
        },
    }
}

/// Some character of `s` is white space.
pub open spec fn has_white_space(s: Seq<char>) -> bool {
    exists|i: int| 0 <= i < s.len() && crate::text::is_white_space(#[trigger] s[i])
}

/// What a URL typed or spoken by the user comes to: refused when empty or
/// with white space inside; else decided from what the URL parser makes of
/// it and of its `https://` form.
pub open spec fn normalize_url_spec(raw: Seq<char>) -> Result<Seq<char>, Seq<char>> {
    let candidate = crate::text::trim(raw, CharClass::WhiteSpace);
    if candidate.len() == 0 {
        Err("URL 为空"@)
    } else if has_white_space(candidate) {
        Err("URL 包含空白字符"@)
    } else {
        url_from_parses_spec(
            candidate,
            parsed_parts(url_parse(candidate)),
            parsed_parts(url_parse("https://"@ + candidate)),
        )
    }
}

/// Turns a URL or a bare domain into an `http`/`https` URL that may be
/// opened, or says why not.
pub fn normalize_browser_url(raw: &str) -> (r: Result<String, String>)
    ensures
        match r {
            Ok(s) => normalize_url_spec(raw@) == Ok::<Seq<char>, Seq<char>>(s@),
            Err(e) => normalize_url_spec(raw@) == Err::<Seq<char>, Seq<char>>(e@),
        },
{
    let c = trim_class(&chars_of(raw), CharClass::WhiteSpace);
    if c.len() == 0 {
        return Err(String::from_str("URL 为空"));
    }
    let mut i: usize = 0;
    while i < c.len()
        invariant
            i <= c@.len(),
            c@ == crate::text::trim(raw@, CharClass::WhiteSpace),
            c@.len() > 0,
            forall|t: int| 0 <= t < i ==> !crate::text::is_white_space(#[trigger] c@[t]),
        decreases c@.len() - i,
    {
        if crate::text::is_white_space_char(c[i]) {
            proof {
                assert(crate::text::is_white_space(c@[i as int]));
                assert(has_white_space(c@));
            }
            return Err(String::from_str("URL 包含空白字符"));
        }
        i = i + 1;
    }
    let candidate = string_of(&c);
    let direct = parse_url(candidate.as_str()).ok();
    let direct_found = match &direct {
        Some(_) => true,
        None => false,
    };
    if direct_found || crate::text::contains_chars(&c, &chars_of("://")) {
        return browser_url_from_parses(candidate.as_str(), direct, None);
    }
    let prefixed_text = concat3_strs("https://", candidate.as_str());
    let prefixed = parse_url(prefixed_text.as_str()).ok();
    browser_url_from_parses(candidate.as_str(), direct, prefixed)
}

fn concat3_strs(a: &str, b: &str) -> (r: String)
    ensures
        r@ == a@ + b@,
{
    let r = crate::text::concat3(a, b, "");
    proof {
        reveal_strlit("");
        assert(a@ + b@ + ""@ =~= a@ + b@);
    }
    r
}

/// The `application/x-www-form-urlencoded` form of one byte: unchanged for
/// `*`, `-`, `.`, `_`, digits and ASCII letters; `+` for a space; else `%`
/// and two upper-case hexadecimal digits.
pub open spec fn form_urlencoded_byte(b: u8) -> Seq<char> {
    if b == 42 || b == 45 || b == 46 || b == 95 || (48 <= b && b <= 57) || (65 <= b && b <= 90) || (97
        <= b && b <= 122) {
        seq![(b as u32) as char]
    } else if b == 32 {
        seq!['+']
    } else {
        seq!['%', hex_upper(b / 16), hex_upper(b % 16)]
    }
}

/// Upper-case hexadecimal digit of `n < 16`.
pub open spec fn hex_upper(n: u8) -> char {
    if n < 10 {
        ((48 + n) as u32) as char
    } else {
        ((55 + n) as u32) as char
    }
}

/// The `application/x-www-form-urlencoded` form of a byte string.
pub open spec fn form_urlencoded(bytes: Seq<u8>) -> Seq<char>
    decreases bytes.len(),
{
    if bytes.len() == 0 {
        Seq::empty()
    } else {
        form_urlencoded(bytes.drop_last()) + form_urlencoded_byte(bytes.last())
    }
}

/// Encodes bytes with `url::form_urlencoded::byte_serialize`, collected into
/// one string: each byte as [`form_urlencoded_byte`] says, in order (as the
/// crate's source shows).
#[verifier::external_body]
fn byte_serialize(input: &[u8]) -> (r: String)
    ensures
        r@ == form_urlencoded(input@),
{
    url::form_urlencoded::byte_serialize(input).collect()
}

/// The search URL for `query`: the template with each `{query}` replaced by
/// the encoded query (or the encoded query appended when the template has
/// none), then normalised like any URL.
pub open spec fn search_url_spec(template: Seq<char>, query: Seq<char>) -> Result<Seq<char>, Seq<char>> {
    let encoded = form_urlencoded(vstd::utf8::encode_utf8(crate::text::trim(query, CharClass::WhiteSpace)));
    let resolved = if crate::text::contains(template, "{query}"@) {
        crate::text::replace_all(template, "{query}"@, encoded)
    } else {
        template + encoded
    };
    normalize_url_spec(resolved)
}

/// Builds the search URL for `query` from a template.
pub fn build_browser_search_url(template: &str, query: &str) -> (r: Result<String, String>)
    ensures
        match r {
            Ok(s) => search_url_spec(template@, query@) == Ok::<Seq<char>, Seq<char>>(s@),
            Err(e) => search_url_spec(template@, query@) == Err::<Seq<char>, Seq<char>>(e@),
        },
{
    let trimmed = string_of(&trim_class(&chars_of(query), CharClass::WhiteSpace));
    let encoded = byte_serialize(trimmed.as_str().as_bytes());
    let t = chars_of(template);
    let pat = chars_of("{query}");
    proof {
        reveal_strlit("{query}");
    }
    let resolved = if crate::text::contains_chars(&t, &pat) {
        string_of(&replace_chars(&t, &pat, &chars_of(encoded.as_str())))
    } else {
        concat3_strs(template, encoded.as_str())
    };
    normalize_browser_url(resolved.as_str())
}

} // verus!
