//! Switching the correction scene by voice: the spoken scene name after the
//! command keyword, its normalisation, and its resolution against the scenes'
//! voice aliases and names.

use vstd::prelude::*;
use crate::matching::SkillMatch;
use crate::storage::{PromptProfile, ProfileModel};
use crate::text::{
    byte_range_of, char_in_class, chars_of, chars_equal, ends_with_chars, lowercase_char,
    prefix_chars, string_of, trim_class, CharClass,
};

verus! {

/// Characters of `s` outside the ignored class, each replaced by its lower
/// case (`char::to_lowercase`).
pub open spec fn lower_filtered(s: Seq<char>) -> Seq<char>
    decreases s.len(),
{
    if s.len() == 0 {
        Seq::empty()
    } else if crate::text::in_class(CharClass::IgnoredInName, s.last()) {
        lower_filtered(s.drop_last())
    } else {
        lower_filtered(s.drop_last()) + crate::text::char_lowercase(s.last())
    }
}

/// Lower-cases `s` and drops the characters that do not count in names.
pub fn lower_filtered_chars(s: &Vec<char>) -> (r: Vec<char>)
    ensures
        r@ == lower_filtered(s@),
{
    let mut r: Vec<char> = Vec::new();
    let mut i: usize = 0;
    proof {
        assert(s@.take(0) =~= Seq::<char>::empty());
    }
    while i < s.len()
        invariant
            i <= s@.len(),
            r@ == lower_filtered(s@.take(i as int)),
        decreases s@.len() - i,
    {
        proof {
            assert(s@.take(i + 1).drop_last() =~= s@.take(i as int));
            assert(s@.take(i + 1).last() == s@[i as int]);
        }
        let c = s[i];
        if !char_in_class(CharClass::IgnoredInName, c) {
            let lower = lowercase_char(c);
            let ghost before = r@;
            let mut t: usize = 0;
            while t < lower.len()
                invariant
                    t <= lower@.len(),
                    r@ == before + lower@.take(t as int),
                decreases lower@.len() - t,
            {
                r.push(lower[t]);
                t = t + 1;
                proof {
                    assert(r@ =~= before + lower@.take(t as int));
                }
            }
            proof {
                assert(lower@.take(lower@.len() as int) =~= lower@);
            }
        }
        i = i + 1;
    }
    proof {
        assert(s@.take(s@.len() as int) =~= s@);
    }
    r
}

/// `s` with trailing `场景` ("scene") and `模式` ("mode") removed, repeatedly.
pub open spec fn strip_scene_suffixes(s: Seq<char>) -> Seq<char>
    decreases s.len(),
{
    if crate::text::ends_with(s, "场景"@) && "场景"@.len() > 0 {
        strip_scene_suffixes(s.take(s.len() - "场景"@.len()))
    } else if crate::text::ends_with(s, "模式"@) && "模式"@.len() > 0 {
        strip_scene_suffixes(s.take(s.len() - "模式"@.len()))
    } else {
        s
    }
}

/// A spoken scene name in comparable form.
pub open spec fn normalize_scene_spec(s: Seq<char>) -> Seq<char> {
    strip_scene_suffixes(lower_filtered(s))
}

proof fn lemma_stripped_has_no_suffix(s: Seq<char>)
    ensures
        !crate::text::ends_with(strip_scene_suffixes(s), "场景"@),
        !crate::text::ends_with(strip_scene_suffixes(s), "模式"@),
        !crate::text::ends_with(s, "场景"@) && !crate::text::ends_with(s, "模式"@) ==> strip_scene_suffixes(s)
            == s,
    decreases s.len(),
{
    reveal_strlit("场景");
    reveal_strlit("模式");
    if crate::text::ends_with(s, "场景"@) {
        lemma_stripped_has_no_suffix(s.take(s.len() - 2));
    } else if crate::text::ends_with(s, "模式"@) {
        lemma_stripped_has_no_suffix(s.take(s.len() - 2));
    }
}

/// A normalised scene name never ends with `场景` or `模式`, and normalising
/// it again gives it back whenever each of its characters is kept by the
/// filter and lower-cases to itself.
pub proof fn law_normalized_name_is_stable(s: Seq<char>)
    ensures
        !crate::text::ends_with(normalize_scene_spec(s), "场景"@),
        !crate::text::ends_with(normalize_scene_spec(s), "模式"@),
        lower_filtered(normalize_scene_spec(s)) == normalize_scene_spec(s) ==> normalize_scene_spec(
            normalize_scene_spec(s),
        ) == normalize_scene_spec(s),
{
    lemma_stripped_has_no_suffix(lower_filtered(s));
    lemma_stripped_has_no_suffix(normalize_scene_spec(s));
}

/// A spoken scene name in comparable form: punctuation and white space
/// dropped, lower case, trailing "scene"/"mode" words removed.
pub fn normalize_scene_token(value: &str) -> (r: String)
    ensures
        r@ == normalize_scene_spec(value@),
{
    let v = chars_of(value);
    let mut normalized = lower_filtered_chars(&v);
    let scene = chars_of("场景");
    let mode = chars_of("模式");
    proof {
        reveal_strlit("场景");
        reveal_strlit("模式");
    }
    let mut done = false;
    while !done
        invariant
            scene@ == "场景"@,
            mode@ == "模式"@,
            "场景"@.len() == 2,
            "模式"@.len() == 2,
            strip_scene_suffixes(normalized@) == normalize_scene_spec(value@),
            done ==> strip_scene_suffixes(normalized@) == normalized@,
        decreases normalized@.len(), if done { 0int } else { 1int },
    {
        if ends_with_chars(&normalized, &scene) {
            normalized = prefix_chars(&normalized, normalized.len() - scene.len());
        } else if ends_with_chars(&normalized, &mode) {
            normalized = prefix_chars(&normalized, normalized.len() - mode.len());
        } else {
            done = true;
        }
    }
    string_of(&normalized)
}


/// The spoken scene name after a scene-switching keyword: the text from the
/// end of the keyword up to the next matched command (or the end), trimmed of
/// white space and sentence punctuation; empty if that range is empty or not
/// on character boundaries.
pub open spec fn extract_scene_query_spec(
    transcript: Seq<char>,
    current_end: int,
    next_start: Option<int>,
) -> Seq<char> {
    let end = match next_start {
        Some(s) => s,
        None => crate::text::utf8_len(transcript) as int,
    };
    match crate::text::byte_range_chars(transcript, current_end, end) {
        Some(piece) => crate::text::trim(piece, CharClass::SceneBoundary),
        None => Seq::empty(),
    }
}

/// The spoken scene name that follows the matched scene-switching keyword.
pub fn extract_scene_query(transcript: &str, current: &SkillMatch, next: Option<&SkillMatch>) -> (r: String)
    ensures
        r@ == extract_scene_query_spec(
            transcript@,
            current.end as int,
            match next {
                Some(m) => Some(m.start as int),
                None => None,
            },
        ),
{
    let t = chars_of(transcript);
    let end = match next {
        Some(m) => m.start,
        None => crate::matching::byte_offset(&t, t.len()),
    };
    proof {
        assert(t@.take(t@.len() as int) =~= t@);
    }
    match byte_range_of(&t, current.end, end) {
        Some(piece) => {
            let trimmed = trim_class(&piece, CharClass::SceneBoundary);
            string_of(&trimmed)
        },
        None => String::new(),
    }
}

/// The outcome of resolving a spoken scene name.
#[derive(Debug, PartialEq, Eq)]
pub enum SceneResolveResult {
    /// Exactly one scene matches.
    Unique { profile_id: String, profile_name: String },
    /// No scene matches.
    NoMatch,
    /// Several scenes match; their names, sorted, without repetitions.
    Ambiguous(Vec<String>),
}

/// Mathematical model of a [`SceneResolveResult`].
pub enum SceneResolveModel {
    Unique { profile_id: Seq<char>, profile_name: Seq<char> },
    NoMatch,
    Ambiguous(Seq<Seq<char>>),
}

impl View for SceneResolveResult {
    type V = SceneResolveModel;

    open spec fn view(&self) -> SceneResolveModel {
        match self {
            SceneResolveResult::Unique { profile_id, profile_name } => SceneResolveModel::Unique {
                profile_id: profile_id@,
                profile_name: profile_name@,
            },
            SceneResolveResult::NoMatch => SceneResolveModel::NoMatch,
            SceneResolveResult::Ambiguous(names) => SceneResolveModel::Ambiguous(
                crate::text::string_views(names@),
            ),
        }
    }
}

/// A scene matches the normalised query by one of its voice aliases
/// (`use_aliases`) or by its name.
pub open spec fn profile_matches(p: ProfileModel, query: Seq<char>, use_aliases: bool) -> bool {
    if use_aliases {
        exists|i: int|
            0 <= i < p.voice_aliases.len() && normalize_scene_spec(#[trigger] p.voice_aliases[i]).len() > 0
                && normalize_scene_spec(p.voice_aliases[i]) == query
    } else {
        normalize_scene_spec(p.name).len() > 0 && normalize_scene_spec(p.name) == query
    }
}

/// Some pair in `ms` has identifier `id`.
pub open spec fn has_match_id(ms: Seq<(Seq<char>, Seq<char>)>, id: Seq<char>) -> bool {
    exists|i: int| 0 <= i < ms.len() && ms[i].0 == id
}

/// `(identifier, name)` of the matching scenes, in order, each identifier once.
pub open spec fn collect_spec(ps: Seq<ProfileModel>, query: Seq<char>, use_aliases: bool) -> Seq<
    (Seq<char>, Seq<char>),
>
    decreases ps.len(),
{
    if ps.len() == 0 {
        Seq::empty()
    } else {
        let r = collect_spec(ps.drop_last(), query, use_aliases);
        let p = ps.last();
        if profile_matches(p, query, use_aliases) && !has_match_id(r, p.id) {
            r.push((p.id, p.name))
        } else {
            r
        }
    }
}

/// Whether some voice alias of the scene matches the normalised query.
fn alias_matches(p: &PromptProfile, query: &Vec<char>) -> (b: bool)
    ensures
        b == profile_matches(p@, query@, true),
{
    let mut i: usize = 0;
    while i < p.voice_aliases.len()
        invariant
            i <= p.voice_aliases@.len(),
            forall|t: int|
                0 <= t < i ==> !(normalize_scene_spec(
                    #[trigger] crate::text::string_views(p.voice_aliases@)[t],
                ).len() > 0 && normalize_scene_spec(crate::text::string_views(p.voice_aliases@)[t])
                    == query@),
        decreases p.voice_aliases@.len() - i,
    {
        let c = normalize_scene_token(p.voice_aliases[i].as_str());
        let cc = chars_of(c.as_str());
        proof {
            assert(crate::text::string_views(p.voice_aliases@)[i as int] == p.voice_aliases@[i as int]@);
        }
        if cc.len() > 0 && chars_equal(&cc, query) {
            proof {
                let a = p@.voice_aliases[i as int];
                assert(normalize_scene_spec(a).len() > 0 && normalize_scene_spec(a) == query@);
            }
            return true;
        }
        i = i + 1;
    }
    false
}

/// Whether the scene name matches the normalised query.
fn name_matches(p: &PromptProfile, query: &Vec<char>) -> (b: bool)
    ensures
        b == profile_matches(p@, query@, false),
{
    let c = normalize_scene_token(p.name.as_str());
    let cc = chars_of(c.as_str());
    cc.len() > 0 && chars_equal(&cc, query)
}

/// Whether some pair has identifier `id`.
fn match_id_present(ms: &Vec<(String, String)>, id: &String) -> (b: bool)
    ensures
        b == has_match_id(ms@.map_values(|m: (String, String)| (m.0@, m.1@)), id@),
{
    let ghost mv = ms@.map_values(|m: (String, String)| (m.0@, m.1@));
    let mut i: usize = 0;
    while i < ms.len()
        invariant
            i <= ms@.len(),
            mv == ms@.map_values(|m: (String, String)| (m.0@, m.1@)),
            forall|t: int| 0 <= t < i ==> mv[t].0 != id@,
        decreases ms@.len() - i,
    {
        if ms[i].0 == *id {
            proof {
                assert(mv[i as int].0 == id@);
            }
            return true;
        }
        i = i + 1;
    }
    false
}

/// The matching scenes in order, each identifier once.
fn collect_scene_matches(profiles: &[PromptProfile], normalized_query: &Vec<char>, use_aliases: bool) -> (r: Vec<(String, String)>)
    ensures
        r@.map_values(|m: (String, String)| (m.0@, m.1@)) == collect_spec(
            crate::storage::profile_views(profiles@),
            normalized_query@,
            use_aliases,
        ),
{
    let ghost pv = crate::storage::profile_views(profiles@);
    let mut r: Vec<(String, String)> = Vec::new();
    let mut i: usize = 0;
    proof {
        assert(pv.take(0) =~= Seq::<ProfileModel>::empty());
        assert(r@.map_values(|m: (String, String)| (m.0@, m.1@)) =~= Seq::<
            (Seq<char>, Seq<char>),
        >::empty());
    }
    while i < profiles.len()
        invariant
            i <= profiles@.len(),
            pv == crate::storage::profile_views(profiles@),
            r@.map_values(|m: (String, String)| (m.0@, m.1@)) == collect_spec(
                pv.take(i as int),
                normalized_query@,
                use_aliases,
            ),
        decreases profiles@.len() - i,
    {
        proof {
            assert(pv.take(i + 1).drop_last() =~= pv.take(i as int));
            assert(pv.take(i + 1).last() == profiles@[i as int]@);
        }
        let p = &profiles[i];
        let matched = if use_aliases {
            alias_matches(p, normalized_query)
        } else {
            name_matches(p, normalized_query)
        };
        if matched && !match_id_present(&r, &p.id) {
            let ghost before = r@.map_values(|m: (String, String)| (m.0@, m.1@));
            r.push((p.id.clone(), p.name.clone()));
            proof {
                assert(r@.map_values(|m: (String, String)| (m.0@, m.1@)) =~= before.push(
                    (p.id@, p.name@),
                ));
            }
        }
        i = i + 1;
    }
    proof {
        assert(pv.take(pv.len() as int) =~= pv);
    }
    r
}


/// Every element comes strictly before the ones after it.
pub open spec fn strictly_sorted(s: Seq<Seq<char>>) -> bool {
    forall|i: int, j: int| 0 <= i < j < s.len() ==> crate::text::lex_lt(#[trigger] s[i], #[trigger] s[j])
}

/// `a` and `b` hold the same elements.
pub open spec fn same_members(a: Seq<Seq<char>>, b: Seq<Seq<char>>) -> bool {
    forall|x: Seq<char>| a.contains(x) <==> b.contains(x)
}

/// The scene names of `(identifier, name)` pairs.
pub open spec fn match_names(ms: Seq<(Seq<char>, Seq<char>)>) -> Seq<Seq<char>> {
    ms.map_values(|m: (Seq<char>, Seq<char>)| m.1)
}

/// The names of the scenes sorted, without repetitions (the one strictly
/// sorted sequence with these elements, see
/// [`lemma_strictly_sorted_unique`]).
pub open spec fn sorted_names_spec(ms: Seq<(Seq<char>, Seq<char>)>) -> Seq<Seq<char>> {
    choose|names: Seq<Seq<char>>| strictly_sorted(names) && same_members(names, match_names(ms))
}

/// What a list of matching scenes is answered: none, the one scene, or the
/// names of all of them sorted without repetitions.
pub open spec fn collapse_spec(ms: Seq<(Seq<char>, Seq<char>)>) -> SceneResolveModel {
    if ms.len() == 0 {
        SceneResolveModel::NoMatch
    } else if ms.len() == 1 {
        SceneResolveModel::Unique { profile_id: ms[0].0, profile_name: ms[0].1 }
    } else {
        SceneResolveModel::Ambiguous(sorted_names_spec(ms))
    }
}

/// A strictly sorted sequence is determined by its elements: two strictly
/// sorted sequences with the same elements are equal.
pub proof fn lemma_strictly_sorted_unique(a: Seq<Seq<char>>, b: Seq<Seq<char>>)
    requires
        strictly_sorted(a),
        strictly_sorted(b),
        same_members(a, b),
    ensures
        a == b,
    decreases a.len(),
{
    if a.len() == 0 {
        if b.len() > 0 {
            assert(b.contains(b[0]));
        }
        assert(a =~= b);
    } else if b.len() == 0 {
        assert(a.contains(a[0]));
    } else {
        assert(a.contains(a[0]));
        assert(b.contains(b[0]));
        let k = choose|k: int| 0 <= k < b.len() && b[k] == a[0];
        let m = choose|m: int| 0 <= m < a.len() && a[m] == b[0];
        if k > 0 {
            // b[0] < b[k] == a[0], and b[0] == a[m] with a[0] <= a[m]
            if m == 0 {
                crate::text::lemma_lex_irreflexive(a[0]);
            } else {
                crate::text::lemma_lex_transitive(a[0], a[m], a[0]);
                crate::text::lemma_lex_irreflexive(a[0]);
            }
        }
        assert(b[0] == a[0]);
        let a1 = a.drop_first();
        let b1 = b.drop_first();
        assert forall|x: Seq<char>| a1.contains(x) <==> b1.contains(x) by {
            if a1.contains(x) {
                let i = choose|i: int| 0 <= i < a1.len() && a1[i] == x;
                assert(a[i + 1] == x);
                assert(b.contains(x));
                let j = choose|j: int| 0 <= j < b.len() && b[j] == x;
                if j == 0 {
                    crate::text::lemma_lex_irreflexive(a[0]);
                }
                assert(b1[j - 1] == x);
            }
            if b1.contains(x) {
                let j = choose|j: int| 0 <= j < b1.len() && b1[j] == x;
                assert(b[j + 1] == x);
                assert(a.contains(x));
                let i = choose|i: int| 0 <= i < a.len() && a[i] == x;
                if i == 0 {
                    crate::text::lemma_lex_irreflexive(b[0]);
                }
                assert(a1[i - 1] == x);
            }
        }
        lemma_strictly_sorted_unique(a1, b1);
        assert(a =~= seq![a[0]] + a1);
        assert(b =~= seq![b[0]] + b1);
    }
}

/// Inserts `x` at its place in a strictly sorted list, unless it is there.
fn insert_sorted(keys: &mut Vec<Vec<char>>, x: Vec<char>)
    requires
        strictly_sorted(crate::text::views(old(keys)@)),
    ensures
        strictly_sorted(crate::text::views(final(keys)@)),
        forall|y: Seq<char>|
            crate::text::views(final(keys)@).contains(y) <==> (crate::text::views(old(keys)@).contains(y)
                || y == x@),
{
    let ghost old_v = crate::text::views(keys@);
    let mut j: usize = 0;
    while j < keys.len() && crate::text::lex_less(&keys[j], &x)
        invariant
            j <= keys@.len(),
            old_v == crate::text::views(keys@),
            forall|t: int| 0 <= t < j ==> crate::text::lex_lt(#[trigger] old_v[t], x@),
        decreases keys@.len() - j,
    {
        j = j + 1;
    }
    if j < keys.len() && crate::text::chars_equal(&keys[j], &x) {
        proof {
            assert(old_v[j as int] == x@);
        }
        return;
    }
    let ghost xv = x@;
    keys.insert(j, x);
    proof {
        let nv = crate::text::views(keys@);
        assert(nv =~= old_v.insert(j as int, xv));
        if j < old_v.len() {
            assert(old_v[j as int] != xv);
            assert(!crate::text::lex_lt(old_v[j as int], xv));
            crate::text::lemma_lex_total(old_v[j as int], xv);
        }
        assert forall|a: int, b: int| 0 <= a < b < nv.len() implies crate::text::lex_lt(
            #[trigger] nv[a],
            #[trigger] nv[b],
        ) by {
            if b < j {
            } else if b == j {
            } else if a < j {
                // nv[a] = old_v[a] < x < old_v[j] <= old_v[b - 1]
                if b - 1 > j {
                    crate::text::lemma_lex_transitive(xv, old_v[j as int], old_v[b - 1]);
                }
                crate::text::lemma_lex_transitive(old_v[a], xv, old_v[b - 1]);
            } else if a == j {
                if b - 1 > j {
                    crate::text::lemma_lex_transitive(xv, old_v[j as int], old_v[b - 1]);
                }
            } else {
                assert(nv[a] == old_v[a - 1]);
                assert(nv[b] == old_v[b - 1]);
            }
        }
        assert forall|y: Seq<char>| nv.contains(y) <==> (old_v.contains(y) || y == xv) by {
            if nv.contains(y) {
                let i = choose|i: int| 0 <= i < nv.len() && nv[i] == y;
                if i < j {
                    assert(old_v[i] == y);
                } else if i > j {
                    assert(old_v[i - 1] == y);
                }
            }
            if old_v.contains(y) {
                let i = choose|i: int| 0 <= i < old_v.len() && old_v[i] == y;
                if i < j {
                    assert(nv[i] == y);
                } else {
                    assert(nv[i + 1] == y);
                }
            }
            if y == xv {
                assert(nv[j as int] == y);
            }
        }
    }
}

/// The names of the matching scenes, sorted, without repetitions.
fn sorted_names(ms: &Vec<(String, String)>) -> (names: Vec<String>)
    ensures
        crate::text::string_views(names@) == sorted_names_spec(
            ms@.map_values(|m: (String, String)| (m.0@, m.1@)),
        ),
{
    let ghost mv = ms@.map_values(|m: (String, String)| (m.0@, m.1@));
    let mut keys: Vec<Vec<char>> = Vec::new();
    let mut i: usize = 0;
    while i < ms.len()
        invariant
            i <= ms@.len(),
            mv == ms@.map_values(|m: (String, String)| (m.0@, m.1@)),
            strictly_sorted(crate::text::views(keys@)),
            forall|y: Seq<char>|
                crate::text::views(keys@).contains(y) <==> match_names(mv).take(i as int).contains(y),
        decreases ms@.len() - i,
    {
        let x = chars_of(ms[i].1.as_str());
        let ghost before = crate::text::views(keys@);
        insert_sorted(&mut keys, x);
        proof {
            let mn = match_names(mv);
            assert(mn.take(i + 1) =~= mn.take(i as int).push(mn[i as int]));
            assert(mn[i as int] == ms@[i as int].1@);
            let big = mn.take(i + 1);
            let small = mn.take(i as int);
            assert forall|y: Seq<char>| big.contains(y) <==> (small.contains(y) || y == mn[i as int]) by {
                if big.contains(y) {
                    let t = choose|t: int| 0 <= t < big.len() && big[t] == y;
                    if t < i {
                        assert(small[t] == y);
                    }
                }
                if small.contains(y) {
                    let t = choose|t: int| 0 <= t < small.len() && small[t] == y;
                    assert(big[t] == y);
                }
                if y == mn[i as int] {
                    assert(big[i as int] == y);
                }
            }
        }
        i = i + 1;
    }
    let mut names: Vec<String> = Vec::new();
    let mut t: usize = 0;
    while t < keys.len()
        invariant
            t <= keys@.len(),
            crate::text::string_views(names@) == crate::text::views(keys@).take(t as int),
        decreases keys@.len() - t,
    {
        let n = string_of(&keys[t]);
        let ghost before = names@;
        let ghost nv = n@;
        names.push(n);
        t = t + 1;
        proof {
            assert(crate::text::string_views(names@) =~= crate::text::string_views(before).push(nv));
            assert(crate::text::views(keys@).take(t as int) =~= crate::text::views(keys@).take(t - 1).push(
                keys@[t - 1]@,
            ));
            assert(crate::text::string_views(names@) =~= crate::text::views(keys@).take(t as int));
        }
    }
    proof {
        assert(crate::text::views(keys@).take(keys@.len() as int) =~= crate::text::views(keys@));
        assert(match_names(mv).take(ms@.len() as int) =~= match_names(mv));
        let nv = crate::text::string_views(names@);
        assert(strictly_sorted(nv) && same_members(nv, match_names(mv)));
        let c = sorted_names_spec(mv);
        lemma_strictly_sorted_unique(nv, c);
    }
    names
}

/// Turns the matching scenes into the answer.
fn collapse_scene_matches(matches: Vec<(String, String)>) -> (r: SceneResolveResult)
    ensures
        r@ == collapse_spec(matches@.map_values(|m: (String, String)| (m.0@, m.1@))),
{
    let ghost mv = matches@.map_values(|m: (String, String)| (m.0@, m.1@));
    if matches.len() == 0 {
        SceneResolveResult::NoMatch
    } else if matches.len() == 1 {
        let first = &matches[0];
        proof {
            assert(mv[0] == (first.0@, first.1@));
        }
        SceneResolveResult::Unique { profile_id: first.0.clone(), profile_name: first.1.clone() }
    } else {
        let names = sorted_names(&matches);
        SceneResolveResult::Ambiguous(names)
    }
}

/// The scenes that a normalised query names: those whose voice aliases match
/// it, or, where none does, those whose names match it.
pub open spec fn scene_candidates(ps: Seq<ProfileModel>, query: Seq<char>) -> Seq<(Seq<char>, Seq<char>)> {
    let by_alias = collect_spec(ps, query, true);
    if by_alias.len() > 0 {
        by_alias
    } else {
        collect_spec(ps, query, false)
    }
}

/// Every scene that a query is found to match is one of the scenes.
pub proof fn lemma_collected_scenes_exist(ps: Seq<ProfileModel>, query: Seq<char>, use_aliases: bool)
    ensures
        forall|k: int|
            0 <= k < collect_spec(ps, query, use_aliases).len() ==> crate::storage::has_profile_id(
                ps,
                (#[trigger] collect_spec(ps, query, use_aliases)[k]).0,
            ),
    decreases ps.len(),
{
    if ps.len() > 0 {
        let rest = ps.drop_last();
        lemma_collected_scenes_exist(rest, query, use_aliases);
        let r = collect_spec(rest, query, use_aliases);
        assert forall|k: int|
            0 <= k < collect_spec(ps, query, use_aliases).len() implies crate::storage::has_profile_id(
                ps,
                (#[trigger] collect_spec(ps, query, use_aliases)[k]).0,
            ) by {
            if k < r.len() {
                assert(collect_spec(ps, query, use_aliases)[k] == r[k]);
                let i = choose|i: int| 0 <= i < rest.len() && rest[i].id == r[k].0;
                assert(ps[i] == rest[i]);
            } else {
                assert(ps[ps.len() - 1].id == collect_spec(ps, query, use_aliases)[k].0);
            }
        }
    }
}

/// Some voice alias of scene `p`, at any index, normalises to `query`.
pub open spec fn alias_names(p: ProfileModel, query: Seq<char>) -> bool {
    exists|b: int| 0 <= b < p.voice_aliases.len() && normalize_scene_spec(#[trigger] p.voice_aliases[b]) == query
}

proof fn lemma_collect_grows(ps: Seq<ProfileModel>, query: Seq<char>, use_aliases: bool, p: int)
    requires
        0 <= p < ps.len(),
        profile_matches(ps[p], query, use_aliases),
    ensures
        collect_spec(ps, query, use_aliases).len() > 0,
    decreases ps.len(),
{
    let rest = ps.drop_last();
    let r = collect_spec(rest, query, use_aliases);
    if p < ps.len() - 1 {
        assert(rest[p] == ps[p]);
        lemma_collect_grows(rest, query, use_aliases, p);
    } else if has_match_id(r, ps.last().id) {
        assert(r.len() > 0);
    }
}

/// Every voice alias counts: when an alias of scene `p`, at any index,
/// normalises to the (non-empty) normalised spoken name, the name does not go
/// unmatched; and when no other scene has such an alias, scene `p` is the one
/// chosen.
pub proof fn law_any_alias_resolves(ps: Seq<ProfileModel>, raw_query: Seq<char>, p: int, a: int)
    requires
        0 <= p < ps.len(),
        0 <= a < ps[p].voice_aliases.len(),
        normalize_scene_spec(raw_query).len() > 0,
        normalize_scene_spec(ps[p].voice_aliases[a]) == normalize_scene_spec(raw_query),
    ensures
        !(resolve_scene_spec(ps, raw_query) is NoMatch),
        (forall|q: int|
            0 <= q < ps.len() && q != p ==> !alias_names(#[trigger] ps[q], normalize_scene_spec(raw_query)))
            ==> resolve_scene_spec(ps, raw_query) == (SceneResolveModel::Unique {
            profile_id: ps[p].id,
            profile_name: ps[p].name,
        }),
{
    let query = normalize_scene_spec(raw_query);
    assert(profile_matches(ps[p], query, true));
    lemma_collect_grows(ps, query, true, p);
    if forall|q: int|
        0 <= q < ps.len() && q != p ==> !alias_names(#[trigger] ps[q], query) {
        lemma_collect_only(ps, query, p);
    }
}

proof fn lemma_collect_only(ps: Seq<ProfileModel>, query: Seq<char>, p: int)
    requires
        0 <= p < ps.len(),
        profile_matches(ps[p], query, true),
        forall|q: int|
            0 <= q < ps.len() && q != p ==> !alias_names(#[trigger] ps[q], query),
    ensures
        collect_spec(ps, query, true) == seq![(ps[p].id, ps[p].name)],
    decreases ps.len(),
{
    let rest = ps.drop_last();
    let last = ps.len() - 1;
    if p < last {
        assert(rest[p] == ps[p]);
        assert forall|q: int|
            0 <= q < rest.len() && q != p implies !alias_names(#[trigger] rest[q], query) by {
            assert(rest[q] == ps[q]);
        }
        lemma_collect_only(rest, query, p);
        if profile_matches(ps[last], query, true) {
            let b = choose|b: int|
                0 <= b < ps[last].voice_aliases.len() && normalize_scene_spec(
                    #[trigger] ps[last].voice_aliases[b],
                ).len() > 0 && normalize_scene_spec(ps[last].voice_aliases[b]) == query;
            assert(normalize_scene_spec(ps[last].voice_aliases[b]) == query);
            assert(false);
        }
    } else {
        lemma_collect_none(rest, query);
        assert(collect_spec(rest, query, true) =~= Seq::<(Seq<char>, Seq<char>)>::empty());
        assert(!has_match_id(collect_spec(rest, query, true), ps[p].id));
    }
}

proof fn lemma_collect_none(ps: Seq<ProfileModel>, query: Seq<char>)
    requires
        forall|q: int|
            0 <= q < ps.len() ==> !alias_names(#[trigger] ps[q], query),
    ensures
        collect_spec(ps, query, true).len() == 0,
    decreases ps.len(),
{
    if ps.len() > 0 {
        let rest = ps.drop_last();
        assert forall|q: int|
            0 <= q < rest.len() implies !alias_names(#[trigger] rest[q], query) by {
            assert(rest[q] == ps[q]);
        }
        lemma_collect_none(rest, query);
        let last = ps.len() - 1;
        if profile_matches(ps[last], query, true) {
            let b = choose|b: int|
                0 <= b < ps[last].voice_aliases.len() && normalize_scene_spec(
                    #[trigger] ps[last].voice_aliases[b],
                ).len() > 0 && normalize_scene_spec(ps[last].voice_aliases[b]) == query;
            assert(normalize_scene_spec(ps[last].voice_aliases[b]) == query);
            assert(false);
        }
    }
}

/// A scene that a spoken name resolves to uniquely is one of the scenes.
pub proof fn lemma_resolved_scene_exists(ps: Seq<ProfileModel>, raw_query: Seq<char>)
    ensures
        resolve_scene_spec(ps, raw_query) matches SceneResolveModel::Unique { profile_id, .. }
            ==> crate::storage::has_profile_id(ps, profile_id),
{
    let query = normalize_scene_spec(raw_query);
    lemma_collected_scenes_exist(ps, query, true);
    lemma_collected_scenes_exist(ps, query, false);
    if query.len() > 0 && scene_candidates(ps, query).len() == 1 {
        assert(crate::storage::has_profile_id(ps, scene_candidates(ps, query)[0].0));
    }
}

/// How a spoken scene name resolves against the scenes.
pub open spec fn resolve_scene_spec(ps: Seq<ProfileModel>, raw_query: Seq<char>) -> SceneResolveModel {
    let query = normalize_scene_spec(raw_query);
    if query.len() == 0 {
        SceneResolveModel::NoMatch
    } else {
        collapse_spec(scene_candidates(ps, query))
    }
}

/// Resolves a spoken scene name against the scenes. Voice aliases take
/// precedence over names; a query that is empty once normalised matches
/// nothing.
pub fn resolve_scene(profiles: &[PromptProfile], raw_query: &str) -> (r: SceneResolveResult)
    ensures
        r@ == resolve_scene_spec(crate::storage::profile_views(profiles@), raw_query@),
{
    let normalized = normalize_scene_token(raw_query);
    let query = chars_of(normalized.as_str());
    if query.len() == 0 {
        return SceneResolveResult::NoMatch;
    }
    let by_alias = collect_scene_matches(profiles, &query, true);
    if by_alias.len() > 0 {
        return collapse_scene_matches(by_alias);
    }
    collapse_scene_matches(collect_scene_matches(profiles, &query, false))
}

} // verus!
