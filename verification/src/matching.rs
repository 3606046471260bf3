//! Keyword matching of a transcript against skills and sub-commands.
//!
//! Matching is done on the lower-cased transcript; positions are byte offsets
//! into it. Each enabled entry yields at most one match: the keyword that
//! occurs earliest (the first such keyword on a tie). Matches are ordered by
//! position, entries that match at the same position in list order.

use vstd::prelude::*;
use crate::skills::{SkillConfig, SkillModel, SkillSubCommandConfig, SubCommandModel};
use crate::text::{
    chars_of, find_chars, list_entries_of, lowercase_str, string_of, utf8_width,
};

verus! {

/// A keyword hit of entry `index` at byte range `start..end` of the
/// lower-cased transcript.
pub struct HitModel {
    pub index: int,
    pub keyword: Seq<char>,
    pub start: int,
    pub end: int,
}

/// Byte range of the first occurrence of a keyword, lower-cased, in the
/// lower-cased transcript.
pub open spec fn keyword_hit(text_lower: Seq<char>, keyword: Seq<char>) -> Option<(int, int)> {
    let kl = crate::text::str_lowercase(keyword);
    match crate::text::find_first(text_lower, kl) {
        Some(ci) => Some(
            (
                crate::text::utf8_len(text_lower.take(ci)) as int,
                (crate::text::utf8_len(text_lower.take(ci)) + crate::text::utf8_len(kl)) as int,
            ),
        ),
        None => None,
    }
}

/// The hit of a keyword list: the earliest one, the first in list order on a
/// tie.
pub open spec fn best_hit(text_lower: Seq<char>, keywords: Seq<Seq<char>>) -> Option<(Seq<char>, int, int)>
    decreases keywords.len(),
{
    if keywords.len() == 0 {
        None
    } else {
        let prev = best_hit(text_lower, keywords.drop_last());
        match keyword_hit(text_lower, keywords.last()) {
            None => prev,
            Some((s, e)) => match prev {
                None => Some((keywords.last(), s, e)),
                Some((k, ps, pe)) => if s < ps {
                    Some((keywords.last(), s, e))
                } else {
                    prev
                },
            },
        }
    }
}

/// The hit of one entry: none if it is disabled, else the best hit of its
/// comma-separated keywords.
pub open spec fn entry_hit(text_lower: Seq<char>, keywords: Seq<char>, enabled: bool) -> Option<(Seq<char>, int, int)> {
    if !enabled {
        None
    } else {
        best_hit(text_lower, crate::text::list_entries(keywords))
    }
}

/// The hits of the entries `(keywords, enabled)`, in entry order.
pub open spec fn hits_in_order(text_lower: Seq<char>, entries: Seq<(Seq<char>, bool)>) -> Seq<HitModel>
    decreases entries.len(),
{
    if entries.len() == 0 {
        Seq::empty()
    } else {
        let prev = hits_in_order(text_lower, entries.drop_last());
        match entry_hit(text_lower, entries.last().0, entries.last().1) {
            Some((k, s, e)) => prev.push(HitModel { index: entries.len() - 1, keyword: k, start: s, end: e }),
            None => prev,
        }
    }
}

/// `a` comes before `b`: earlier position, or same position and earlier entry.
pub open spec fn hit_before(a: HitModel, b: HitModel) -> bool {
    a.start < b.start || (a.start == b.start && a.index < b.index)
}

/// Strictly ordered by position, then by entry.
pub open spec fn sorted_hits_pred(r: Seq<HitModel>) -> bool {
    forall|i: int, j: int| 0 <= i < j < r.len() ==> hit_before(r[i], r[j])
}

/// Same length and the same elements.
pub open spec fn same_elements(r: Seq<HitModel>, h: Seq<HitModel>) -> bool {
    &&& r.len() == h.len()
    &&& forall|k: int| 0 <= k < r.len() ==> h.contains(#[trigger] r[k])
    &&& forall|k: int| 0 <= k < h.len() ==> r.contains(#[trigger] h[k])
}

/// The hits in position order.
pub open spec fn sorted_hits(h: Seq<HitModel>) -> Seq<HitModel> {
    choose|r: Seq<HitModel>| sorted_hits_pred(r) && same_elements(r, h)
}

/// Two ordered arrangements of the same hits are equal.
pub proof fn lemma_sorted_hits_unique(r1: Seq<HitModel>, r2: Seq<HitModel>)
    requires
        sorted_hits_pred(r1),
        sorted_hits_pred(r2),
        same_elements(r1, r2),
    ensures
        r1 == r2,
    decreases r1.len(),
{
    if r1.len() == 0 {
        assert(r1 =~= r2);
    } else {
        assert(r2.contains(r1[0]));
        let m = choose|m: int| 0 <= m < r2.len() && r2[m] == r1[0];
        assert(r1.contains(r2[0]));
        let n = choose|n: int| 0 <= n < r1.len() && r1[n] == r2[0];
        if m > 0 {
            assert(hit_before(r2[0], r2[m]));
            if n > 0 {
                assert(hit_before(r1[0], r1[n]));
            }
        }
        assert(r1[0] == r2[0]);
        let t1 = r1.drop_first();
        let t2 = r2.drop_first();
        assert forall|k: int| 0 <= k < t1.len() implies t2.contains(#[trigger] t1[k]) by {
            assert(r2.contains(r1[k + 1]));
            let j = choose|j: int| 0 <= j < r2.len() && r2[j] == r1[k + 1];
            assert(hit_before(r1[0], r1[k + 1]));
            assert(j != 0);
            assert(t2[j - 1] == r1[k + 1]);
        }
        assert forall|k: int| 0 <= k < t2.len() implies t1.contains(#[trigger] t2[k]) by {
            assert(r1.contains(r2[k + 1]));
            let j = choose|j: int| 0 <= j < r1.len() && r1[j] == r2[k + 1];
            assert(hit_before(r2[0], r2[k + 1]));
            assert(j != 0);
            assert(t1[j - 1] == r2[k + 1]);
        }
        lemma_sorted_hits_unique(t1, t2);
        assert forall|k: int| 0 <= k < r1.len() implies r1[k] == r2[k] by {
            if k > 0 {
                assert(r1[k] == t1[k - 1]);
                assert(r2[k] == t2[k - 1]);
            }
        }
        assert(r1 =~= r2);
    }
}

/// Once an ordered arrangement is known, it is the one `sorted_hits` names.
pub proof fn lemma_sorted_hits_is(r: Seq<HitModel>, h: Seq<HitModel>)
    requires
        sorted_hits_pred(r),
        same_elements(r, h),
    ensures
        sorted_hits(h) == r,
{
    let s = sorted_hits(h);
    assert(sorted_hits_pred(s) && same_elements(s, h));
    assert forall|k: int| 0 <= k < s.len() implies r.contains(#[trigger] s[k]) by {
        assert(h.contains(s[k]));
        let j = choose|j: int| 0 <= j < h.len() && h[j] == s[k];
        assert(r.contains(h[j]));
    }
    assert forall|k: int| 0 <= k < r.len() implies s.contains(#[trigger] r[k]) by {
        assert(h.contains(r[k]));
        let j = choose|j: int| 0 <= j < h.len() && h[j] == r[k];
        assert(s.contains(h[j]));
    }
    lemma_sorted_hits_unique(s, r);
}

/// A hit as the matcher holds it.
pub struct RawHit {
    pub index: usize,
    pub keyword: Vec<char>,
    pub start: usize,
    pub end: usize,
}

impl View for RawHit {
    type V = HitModel;

    open spec fn view(&self) -> HitModel {
        HitModel {
            index: self.index as int,
            keyword: self.keyword@,
            start: self.start as int,
            end: self.end as int,
        }
    }
}

/// Models of a sequence of hits.
pub open spec fn hit_views(v: Seq<RawHit>) -> Seq<HitModel> {
    v.map_values(|h: RawHit| h@)
}

/// Byte length of a prefix is at most the byte length of the whole.
pub proof fn lemma_utf8_len_prefix(s: Seq<char>, k: int)
    requires
        0 <= k <= s.len(),
    ensures
        crate::text::utf8_len(s.take(k)) <= crate::text::utf8_len(s),
        crate::text::utf8_len(s) == crate::text::utf8_len(s.take(k)) + crate::text::utf8_len(
            s.skip(k),
        ),
{
    assert(s =~= s.take(k) + s.skip(k));
    crate::text::lemma_encode_utf8_concat(s.take(k), s.skip(k));
}

/// Byte offset of character index `k` in `v`.
pub fn byte_offset(v: &Vec<char>, k: usize) -> (r: usize)
    requires
        k <= v@.len(),
        crate::text::utf8_len(v@) <= usize::MAX,
    ensures
        r == crate::text::utf8_len(v@.take(k as int)),
{
    let mut total: usize = 0;
    let mut i: usize = 0;
    proof {
        assert(v@.take(0) =~= Seq::<char>::empty());
    }
    while i < k
        invariant
            i <= k <= v@.len(),
            crate::text::utf8_len(v@) <= usize::MAX,
            total == crate::text::utf8_len(v@.take(i as int)),
        decreases k - i,
    {
        proof {
            crate::text::lemma_utf8_len_take_step(v@, i as int);
            lemma_utf8_len_prefix(v@, i + 1);
        }
        total = total + utf8_width(v[i]);
        i = i + 1;
    }
    total
}


/// Model of an optional best hit.
pub open spec fn opt_hit_view(o: Option<(Vec<char>, usize, usize)>) -> Option<(Seq<char>, int, int)> {
    match o {
        Some((k, s, e)) => Some((k@, s as int, e as int)),
        None => None,
    }
}

/// Byte range of the first occurrence of `keyword`, lower-cased, in the
/// lower-cased transcript.
fn keyword_hit_exec(text_lower: &Vec<char>, keyword: &Vec<char>) -> (r: Option<(usize, usize)>)
    requires
        crate::text::utf8_len(text_lower@) <= usize::MAX,
    ensures
        match r {
            Some((s, e)) => keyword_hit(text_lower@, keyword@) == Some((s as int, e as int)),
            None => keyword_hit(text_lower@, keyword@) is None,
        },
{
    let ks = string_of(keyword);
    let kl = lowercase_str(ks.as_str());
    let klc = chars_of(kl.as_str());
    match find_chars(text_lower, &klc) {
        Some(ci) => {
            proof {
                crate::text::lemma_find_from(text_lower@, klc@, 0);
                let tl = text_lower@;
                assert(tl.take(ci + klc@.len()) =~= tl.take(ci as int) + klc@);
                crate::text::lemma_encode_utf8_concat(tl.take(ci as int), klc@);
                lemma_utf8_len_prefix(tl, ci + klc@.len());
                assert(klc@.take(klc@.len() as int) =~= klc@);
            }
            let start = byte_offset(text_lower, ci);
            let len = byte_offset(&klc, klc.len());
            Some((start, start + len))
        },
        None => None,
    }
}

/// The best hit of a comma-separated keyword list.
pub fn best_keyword_hit(text_lower: &Vec<char>, keywords: &String) -> (r: Option<(Vec<char>, usize, usize)>)
    requires
        crate::text::utf8_len(text_lower@) <= usize::MAX,
    ensures
        opt_hit_view(r) == best_hit(text_lower@, crate::text::list_entries(keywords@)),
{
    let kc = chars_of(keywords.as_str());
    let entries = list_entries_of(&kc);
    let ghost ev = crate::text::views(entries@);
    let mut best: Option<(Vec<char>, usize, usize)> = None;
    let mut j: usize = 0;
    proof {
        assert(ev.take(0) =~= Seq::<Seq<char>>::empty());
    }
    while j < entries.len()
        invariant
            ev == crate::text::views(entries@),
            ev == crate::text::list_entries(keywords@),
            j <= entries@.len(),
            crate::text::utf8_len(text_lower@) <= usize::MAX,
            opt_hit_view(best) == best_hit(text_lower@, ev.take(j as int)),
        decreases entries@.len() - j,
    {
        proof {
            assert(ev.take(j + 1).drop_last() =~= ev.take(j as int));
            assert(ev.take(j + 1).last() == entries@[j as int]@);
        }
        match keyword_hit_exec(text_lower, &entries[j]) {
            Some((s, e)) => {
                let replace = match &best {
                    Some((_, ps, _)) => s < *ps,
                    None => true,
                };
                if replace {
                    let k = entries[j].clone();
                    best = Some((k, s, e));
                }
            },
            None => {},
        }
        j = j + 1;
    }
    proof {
        assert(ev.take(ev.len() as int) =~= ev);
    }
    best
}

/// Inserts a hit of a later entry into an ordered list of hits.
pub fn insert_hit(sorted: &mut Vec<RawHit>, x: RawHit)
    requires
        sorted_hits_pred(hit_views(old(sorted)@)),
        forall|k: int| 0 <= k < old(sorted)@.len() ==> old(sorted)@[k].index < x.index,
    ensures
        sorted_hits_pred(hit_views(final(sorted)@)),
        exists|p: int|
            0 <= p <= old(sorted)@.len() && hit_views(final(sorted)@) == hit_views(
                old(sorted)@,
            ).insert(p, x@),
{
    let ghost before = hit_views(sorted@);
    let mut p: usize = 0;
    while p < sorted.len() && sorted[p].start <= x.start
        invariant
            p <= sorted@.len(),
            hit_views(sorted@) == before,
            forall|k: int| 0 <= k < p ==> sorted@[k].start <= x.start,
        decreases sorted@.len() - p,
    {
        p = p + 1;
    }
    let ghost xv = x@;
    let ghost xi = x.index;
    sorted.insert(p, x);
    proof {
        assert(hit_views(sorted@) =~= before.insert(p as int, xv));
        let a = hit_views(sorted@);
        assert forall|i: int, j: int| 0 <= i < j < a.len() implies hit_before(a[i], a[j]) by {
            if j < p {
                assert(a[i] == before[i] && a[j] == before[j]);
            } else if j == p {
                assert(a[i] == before[i]);
                assert(before[i].index < xi);
            } else if i == p {
                assert(a[j] == before[j - 1]);
                assert(before[p as int].start > xv.start);
                if j - 1 > p {
                    assert(hit_before(before[p as int], before[j - 1]));
                }
            } else if i < p {
                assert(a[i] == before[i] && a[j] == before[j - 1]);
            } else {
                assert(a[i] == before[i - 1] && a[j] == before[j - 1]);
            }
        }
    }
}


proof fn lemma_same_elements_insert(r: Seq<HitModel>, h: Seq<HitModel>, p: int, x: HitModel)
    requires
        same_elements(r, h),
        0 <= p <= r.len(),
    ensures
        same_elements(r.insert(p, x), h.push(x)),
{
    let a = r.insert(p, x);
    let b = h.push(x);
    assert forall|k: int| 0 <= k < a.len() implies b.contains(#[trigger] a[k]) by {
        if k == p {
            assert(b[h.len() as int] == x);
        } else {
            let t = if k < p {
                k
            } else {
                k - 1
            };
            assert(a[k] == r[t]);
            assert(h.contains(r[t]));
            let j = choose|j: int| 0 <= j < h.len() && h[j] == r[t];
            assert(b[j] == h[j]);
        }
    }
    assert forall|k: int| 0 <= k < b.len() implies a.contains(#[trigger] b[k]) by {
        if k == h.len() {
            assert(a[p] == x);
        } else {
            assert(b[k] == h[k]);
            assert(r.contains(h[k]));
            let j = choose|j: int| 0 <= j < r.len() && r[j] == h[k];
            if j < p {
                assert(a[j] == r[j]);
            } else {
                assert(a[j + 1] == r[j]);
            }
        }
    }
}

/// Models of entries `(keywords, enabled)`.
pub open spec fn entry_views(v: Seq<(String, bool)>) -> Seq<(Seq<char>, bool)> {
    v.map_values(|e: (String, bool)| (e.0@, e.1))
}

/// The hits of the entries, in position order.
pub fn sorted_entry_hits(text_lower: &Vec<char>, entries: &Vec<(String, bool)>) -> (r: Vec<RawHit>)
    requires
        crate::text::utf8_len(text_lower@) <= usize::MAX,
    ensures
        hit_views(r@) == sorted_hits(hits_in_order(text_lower@, entry_views(entries@))),
        forall|k: int| 0 <= k < r@.len() ==> r@[k].index < entries@.len(),
        forall|a: int, b: int| 0 <= a < b < r@.len() ==> r@[a].start <= r@[b].start,
        forall|a: int, b: int| 0 <= a < b < r@.len() ==> r@[a].index != r@[b].index,
{
    let ghost ev = entry_views(entries@);
    let mut r: Vec<RawHit> = Vec::new();
    let mut i: usize = 0;
    proof {
        assert(ev.take(0) =~= Seq::<(Seq<char>, bool)>::empty());
        assert(hit_views(r@) =~= Seq::<HitModel>::empty());
    }
    while i < entries.len()
        invariant
            ev == entry_views(entries@),
            i <= entries@.len(),
            crate::text::utf8_len(text_lower@) <= usize::MAX,
            sorted_hits_pred(hit_views(r@)),
            same_elements(hit_views(r@), hits_in_order(text_lower@, ev.take(i as int))),
            forall|k: int| 0 <= k < r@.len() ==> r@[k].index < i,
            forall|a: int, b: int| 0 <= a < b < r@.len() ==> r@[a].index != r@[b].index,
        decreases entries@.len() - i,
    {
        let ghost h = hits_in_order(text_lower@, ev.take(i as int));
        proof {
            assert(ev.take(i + 1).drop_last() =~= ev.take(i as int));
            assert(ev.take(i + 1).last() == (entries@[i as int].0@, entries@[i as int].1));
        }
        if entries[i].1 {
            match best_keyword_hit(text_lower, &entries[i].0) {
                Some((k, s, e)) => {
                    let x = RawHit { index: i, keyword: k, start: s, end: e };
                    let ghost xv = x@;
                    let ghost rv = hit_views(r@);
                    insert_hit(&mut r, x);
                    proof {
                        let p = choose|p: int|
                            0 <= p <= rv.len() && hit_views(r@) == rv.insert(p, xv);
                        lemma_same_elements_insert(rv, h, p, xv);
                        assert(hits_in_order(text_lower@, ev.take(i + 1)) == h.push(xv));
                        assert forall|k: int| 0 <= k < r@.len() implies r@[k].index < i + 1 by {
                            assert(hit_views(r@)[k] == r@[k]@);
                            if k < p {
                                assert(rv[k] == hit_views(r@)[k]);
                            } else if k > p {
                                assert(rv[k - 1] == hit_views(r@)[k]);
                            }
                        }
                        assert forall|a: int, b: int| 0 <= a < b < r@.len() implies r@[a].index
                            != r@[b].index by {
                            assert(hit_views(r@)[a] == r@[a]@);
                            assert(hit_views(r@)[b] == r@[b]@);
                            if a != p && b != p {
                                let a0 = if a < p {
                                    a
                                } else {
                                    a - 1
                                };
                                let b0 = if b < p {
                                    b
                                } else {
                                    b - 1
                                };
                                assert(rv[a0] == hit_views(r@)[a]);
                                assert(rv[b0] == hit_views(r@)[b]);
                                assert(rv[a0].index < i && rv[b0].index < i);
                            } else if a == p {
                                let b0 = b - 1;
                                assert(rv[b0] == hit_views(r@)[b]);
                            } else {
                                let a0 = if a < p {
                                    a
                                } else {
                                    a - 1
                                };
                                assert(rv[a0] == hit_views(r@)[a]);
                            }
                        }
                    }
                },
                None => {},
            }
        }
        i = i + 1;
    }
    proof {
        assert(ev.take(ev.len() as int) =~= ev);
        lemma_sorted_hits_is(hit_views(r@), hits_in_order(text_lower@, ev));
        assert forall|a: int, b: int| 0 <= a < b < r@.len() implies r@[a].start <= r@[b].start by {
            assert(hit_views(r@)[a] == r@[a]@);
            assert(hit_views(r@)[b] == r@[b]@);
            assert(hit_before(hit_views(r@)[a], hit_views(r@)[b]));
        }
    }
    r
}


/// A skill whose keyword occurs in the transcript, with the keyword as
/// configured and its byte range in the lower-cased transcript.
#[derive(Debug, PartialEq, Eq)]
pub struct SkillMatch {
    pub skill_id: String,
    pub keyword: String,
    pub start: usize,
    pub end: usize,
}

/// Mathematical model of a [`SkillMatch`].
pub struct SkillMatchModel {
    pub skill_id: Seq<char>,
    pub keyword: Seq<char>,
    pub start: int,
    pub end: int,
}

impl View for SkillMatch {
    type V = SkillMatchModel;

    open spec fn view(&self) -> SkillMatchModel {
        SkillMatchModel {
            skill_id: self.skill_id@,
            keyword: self.keyword@,
            start: self.start as int,
            end: self.end as int,
        }
    }
}

impl Clone for SkillMatch {
    fn clone(&self) -> (r: Self)
        ensures
            r@ == self@,
    {
        SkillMatch {
            skill_id: self.skill_id.clone(),
            keyword: self.keyword.clone(),
            start: self.start,
            end: self.end,
        }
    }
}

/// Models of a sequence of skill matches.
pub open spec fn skill_match_views(v: Seq<SkillMatch>) -> Seq<SkillMatchModel> {
    v.map_values(|m: SkillMatch| m@)
}

/// The `(keywords, enabled)` entries of skills.
pub open spec fn skill_entries(skills: Seq<SkillModel>) -> Seq<(Seq<char>, bool)> {
    skills.map_values(|s: SkillModel| (s.keywords, s.enabled))
}

/// The matches of a transcript against skills, in position order.
pub open spec fn skill_matches_spec(text: Seq<char>, skills: Seq<SkillModel>) -> Seq<SkillMatchModel> {
    let hs = sorted_hits(
        hits_in_order(
            crate::text::str_lowercase(text),
            skill_entries(skills),
        ),
    );
    hs.map_values(
        |h: HitModel|
            SkillMatchModel {
                skill_id: skills[h.index].id,
                keyword: h.keyword,
                start: h.start,
                end: h.end,
            },
    )
}

proof fn lemma_sorted_insert_at(r: Seq<HitModel>, x: HitModel) -> (p: int)
    requires
        sorted_hits_pred(r),
        forall|k: int| 0 <= k < r.len() ==> r[k].index < x.index,
    ensures
        0 <= p <= r.len(),
        sorted_hits_pred(r.insert(p, x)),
    decreases r.len(),
{
    if r.len() == 0 {
        assert(r.insert(0, x) =~= seq![x]);
        0
    } else if r.last().start <= x.start {
        let p = r.len() as int;
        let a = r.insert(p, x);
        assert forall|i: int, j: int| 0 <= i < j < a.len() implies hit_before(a[i], a[j]) by {
            if j < p {
                assert(a[i] == r[i] && a[j] == r[j]);
            } else {
                assert(a[i] == r[i]);
                if i < p - 1 {
                    assert(hit_before(r[i], r[p - 1]));
                }
            }
        }
        p
    } else {
        let t = r.drop_last();
        assert forall|i: int, j: int| 0 <= i < j < t.len() implies hit_before(t[i], t[j]) by {
            assert(t[i] == r[i] && t[j] == r[j]);
        }
        let p = lemma_sorted_insert_at(t, x);
        let last = r.last();
        let b = t.insert(p, x);
        let a = r.insert(p, x);
        assert(a =~= b.push(last));
        assert forall|i: int, j: int| 0 <= i < j < a.len() implies hit_before(a[i], a[j]) by {
            if j < a.len() - 1 {
                assert(a[i] == b[i] && a[j] == b[j]);
            } else {
                assert(a[j] == last);
                if i == p {
                    assert(a[i] == x);
                } else if i < p {
                    assert(a[i] == r[i]);
                    assert(hit_before(r[i], r[r.len() - 1]));
                } else {
                    assert(a[i] == r[i - 1]);
                    assert(hit_before(r[i - 1], r[r.len() - 1]));
                }
            }
        }
        p
    }
}

/// The hits of entries are hits of enabled entries, each with an entry
/// index, and some ordering of them exists.
proof fn lemma_hits_facts(t: Seq<char>, entries: Seq<(Seq<char>, bool)>)
    ensures
        forall|k: int|
            0 <= k < hits_in_order(t, entries).len() ==> 0 <= (#[trigger] hits_in_order(t, entries)[k]).index
                < entries.len() && entries[hits_in_order(t, entries)[k].index].1,
        exists|r: Seq<HitModel>| sorted_hits_pred(r) && same_elements(r, hits_in_order(t, entries)),
    decreases entries.len(),
{
    let h = hits_in_order(t, entries);
    if entries.len() == 0 {
        assert(sorted_hits_pred(Seq::<HitModel>::empty()) && same_elements(Seq::<HitModel>::empty(), h));
    } else {
        let prev_entries = entries.drop_last();
        lemma_hits_facts(t, prev_entries);
        let prev = hits_in_order(t, prev_entries);
        let r0 = choose|r: Seq<HitModel>| sorted_hits_pred(r) && same_elements(r, prev);
        assert forall|k: int| 0 <= k < prev.len() implies prev[k].index < entries.len() && entries[prev[k].index].1 by {
            assert(entries[prev[k].index] == prev_entries[prev[k].index]);
        }
        match entry_hit(t, entries.last().0, entries.last().1) {
            Some((kw, s, e)) => {
                let x = HitModel { index: entries.len() - 1, keyword: kw, start: s, end: e };
                assert(h == prev.push(x));
                assert forall|k: int| 0 <= k < r0.len() implies r0[k].index < x.index by {
                    assert(prev.contains(r0[k]));
                }
                let p = lemma_sorted_insert_at(r0, x);
                lemma_same_elements_insert(r0, prev, p, x);
                assert(sorted_hits_pred(r0.insert(p, x)) && same_elements(r0.insert(p, x), h));
                assert forall|k: int| 0 <= k < h.len() implies 0 <= (#[trigger] h[k]).index < entries.len()
                    && entries[h[k].index].1 by {
                    if k < prev.len() {
                        assert(h[k] == prev[k]);
                    }
                }
            },
            None => {
                assert(h == prev);
                assert(sorted_hits_pred(r0) && same_elements(r0, h));
            },
        }
    }
}

/// Some skill of the list is enabled and has identifier `id`.
pub open spec fn names_enabled_skill(skills: Seq<SkillModel>, id: Seq<char>) -> bool {
    exists|i: int| 0 <= i < skills.len() && #[trigger] skills[i].enabled && skills[i].id == id
}

/// A disabled skill never matches: every match names a skill of the list
/// that is enabled and has that identifier.
pub proof fn law_only_enabled_skills_match(text: Seq<char>, skills: Seq<SkillModel>)
    ensures
        forall|k: int|
            0 <= k < skill_matches_spec(text, skills).len() ==> names_enabled_skill(
                skills,
                (#[trigger] skill_matches_spec(text, skills)[k]).skill_id,
            ),
{
    let t = crate::text::str_lowercase(text);
    let entries = skill_entries(skills);
    let h = hits_in_order(t, entries);
    lemma_hits_facts(t, entries);
    let hs = sorted_hits(h);
    assert(sorted_hits_pred(hs) && same_elements(hs, h));
    let m = skill_matches_spec(text, skills);
    assert forall|k: int| 0 <= k < m.len() implies names_enabled_skill(skills, (#[trigger] m[k]).skill_id) by {
        assert(h.contains(hs[k]));
        let j = choose|j: int| 0 <= j < h.len() && h[j] == hs[k];
        let i = h[j].index;
        assert(entries[i] == (skills[i].keywords, skills[i].enabled));
        assert(m[k].skill_id == skills[i].id);
        assert(0 <= i < skills.len() && skills[i].enabled);
    }
}

/// The skills whose keywords occur in `text`, in the order in which they occur.
pub fn match_skills(text: &str, skills: &[SkillConfig]) -> (r: Vec<SkillMatch>)
    ensures
        skill_match_views(r@) == skill_matches_spec(
            text@,
            crate::skills::skill_views(skills@),
        ),
        forall|a: int, b: int| 0 <= a < b < r@.len() ==> r@[a].start <= r@[b].start,
        forall|k: int|
            0 <= k < r@.len() ==> names_enabled_skill(
                crate::skills::skill_views(skills@),
                (#[trigger] r@[k]).skill_id@,
            ),
        (forall|a: int, b: int| 0 <= a < b < skills@.len() ==> skills@[a].id@ != skills@[b].id@) ==> forall|
            a: int,
            b: int,
        | 0 <= a < b < r@.len() ==> r@[a].skill_id@ != r@[b].skill_id@,
{
    let ghost sv = crate::skills::skill_views(skills@);
    let text_lower = lowercase_str(text);
    let tl = chars_of(text_lower.as_str());
    let mut entries: Vec<(String, bool)> = Vec::new();
    let mut i: usize = 0;
    while i < skills.len()
        invariant
            i <= skills@.len(),
            sv == crate::skills::skill_views(skills@),
            entry_views(entries@) == skill_entries(sv).take(
                i as int,
            ),
        decreases skills@.len() - i,
    {
        let ghost prev = entry_views(entries@);
        let kw = skills[i].keywords.clone();
        let en = skills[i].enabled;
        entries.push((kw, en));
        proof {
            assert(sv[i as int] == skills@[i as int]@);
            assert(entry_views(entries@) =~= prev.push((kw@, en)));
            assert(skill_entries(sv).take(i + 1) =~= skill_entries(sv).take(i as int).push(
                (sv[i as int].keywords, sv[i as int].enabled),
            ));
        }
        i = i + 1;
    }
    proof {
        let m = skill_entries(sv);
        assert(m.take(m.len() as int) =~= m);
    }
    let hits = sorted_entry_hits(&tl, &entries);
    let mut r: Vec<SkillMatch> = Vec::new();
    let mut k: usize = 0;
    while k < hits.len()
        invariant
            k <= hits@.len(),
            entries@.len() == skills@.len(),
            sv == crate::skills::skill_views(skills@),
            forall|t: int| 0 <= t < hits@.len() ==> hits@[t].index < entries@.len(),
            r@.len() == k,
            forall|t: int|
                0 <= t < k ==> r@[t]@ == (SkillMatchModel {
                    skill_id: sv[hit_views(hits@)[t].index].id,
                    keyword: hit_views(hits@)[t].keyword,
                    start: hit_views(hits@)[t].start,
                    end: hit_views(hits@)[t].end,
                }),
        decreases hits@.len() - k,
    {
        let h = &hits[k];
        let m = SkillMatch {
            skill_id: skills[h.index].id.clone(),
            keyword: string_of(&h.keyword),
            start: h.start,
            end: h.end,
        };
        r.push(m);
        k = k + 1;
    }
    proof {
        assert(skill_match_views(r@) =~= skill_matches_spec(text@, sv));
        law_only_enabled_skills_match(text@, sv);
        assert forall|k: int| 0 <= k < r@.len() implies names_enabled_skill(sv, (#[trigger] r@[k]).skill_id@) by {
            assert(skill_match_views(r@)[k] == r@[k]@);
        }
        assert forall|a: int, b: int| 0 <= a < b < r@.len() implies r@[a].start <= r@[b].start by {
            assert(hit_views(hits@)[a] == hits@[a]@);
            assert(hit_views(hits@)[b] == hits@[b]@);
        }
        if forall|a: int, b: int| 0 <= a < b < skills@.len() ==> skills@[a].id@ != skills@[b].id@ {
            assert forall|a: int, b: int| 0 <= a < b < r@.len() implies r@[a].skill_id@
                != r@[b].skill_id@ by {
                assert(hit_views(hits@)[a] == hits@[a]@);
                assert(hit_views(hits@)[b] == hits@[b]@);
                let ia = hits@[a].index as int;
                let ib = hits@[b].index as int;
                assert(sv[ia] == skills@[ia]@);
                assert(sv[ib] == skills@[ib]@);
                if ia < ib {
                    assert(skills@[ia].id@ != skills@[ib].id@);
                } else {
                    assert(skills@[ib].id@ != skills@[ia].id@);
                }
            }
        }
    }
    r
}


/// A sub-command whose keyword occurs in the transcript.
#[derive(Debug, PartialEq, Eq)]
pub struct SubCommandMatch {
    pub sub_command_id: String,
    pub name: String,
    pub keyword: String,
    pub start: usize,
    pub end: usize,
}

/// Mathematical model of a [`SubCommandMatch`].
pub struct SubCommandMatchModel {
    pub sub_command_id: Seq<char>,
    pub name: Seq<char>,
    pub keyword: Seq<char>,
    pub start: int,
    pub end: int,
}

impl View for SubCommandMatch {
    type V = SubCommandMatchModel;

    open spec fn view(&self) -> SubCommandMatchModel {
        SubCommandMatchModel {
            sub_command_id: self.sub_command_id@,
            name: self.name@,
            keyword: self.keyword@,
            start: self.start as int,
            end: self.end as int,
        }
    }
}

impl Clone for SubCommandMatch {
    fn clone(&self) -> (r: Self)
        ensures
            r@ == self@,
    {
        SubCommandMatch {
            sub_command_id: self.sub_command_id.clone(),
            name: self.name.clone(),
            keyword: self.keyword.clone(),
            start: self.start,
            end: self.end,
        }
    }
}

/// Models of a sequence of sub-command matches.
pub open spec fn sub_match_views(v: Seq<SubCommandMatch>) -> Seq<SubCommandMatchModel> {
    v.map_values(|m: SubCommandMatch| m@)
}

/// The `(keywords, enabled)` entries of sub-commands.
pub open spec fn sub_entries(subs: Seq<SubCommandModel>) -> Seq<(Seq<char>, bool)> {
    subs.map_values(|s: SubCommandModel| (s.keywords, s.enabled))
}

/// The matches of a transcript against sub-commands, in position order.
pub open spec fn sub_matches_spec(text: Seq<char>, subs: Seq<SubCommandModel>) -> Seq<SubCommandMatchModel> {
    let hs = sorted_hits(hits_in_order(crate::text::str_lowercase(text), sub_entries(subs)));
    hs.map_values(
        |h: HitModel|
            SubCommandMatchModel {
                sub_command_id: subs[h.index].id,
                name: subs[h.index].name,
                keyword: h.keyword,
                start: h.start,
                end: h.end,
            },
    )
}

/// The sub-commands whose keywords occur in `text`, in the order in which they
/// occur.
pub fn match_sub_commands(text: &str, sub_commands: &[SkillSubCommandConfig]) -> (r: Vec<SubCommandMatch>)
    ensures
        sub_match_views(r@) == sub_matches_spec(text@, crate::skills::sub_views(sub_commands@)),
        forall|a: int, b: int| 0 <= a < b < r@.len() ==> r@[a].start <= r@[b].start,
{
    let ghost sv = crate::skills::sub_views(sub_commands@);
    let text_lower = lowercase_str(text);
    let tl = chars_of(text_lower.as_str());
    let mut entries: Vec<(String, bool)> = Vec::new();
    let mut i: usize = 0;
    while i < sub_commands.len()
        invariant
            i <= sub_commands@.len(),
            sv == crate::skills::sub_views(sub_commands@),
            entry_views(entries@) == sub_entries(sv).take(i as int),
        decreases sub_commands@.len() - i,
    {
        let ghost prev = entry_views(entries@);
        let kw = sub_commands[i].keywords.clone();
        let en = sub_commands[i].enabled;
        entries.push((kw, en));
        proof {
            assert(sv[i as int] == sub_commands@[i as int]@);
            assert(entry_views(entries@) =~= prev.push((kw@, en)));
            assert(sub_entries(sv).take(i + 1) =~= sub_entries(sv).take(i as int).push(
                (sv[i as int].keywords, sv[i as int].enabled),
            ));
        }
        i = i + 1;
    }
    proof {
        let m = sub_entries(sv);
        assert(m.take(m.len() as int) =~= m);
    }
    let hits = sorted_entry_hits(&tl, &entries);
    let mut r: Vec<SubCommandMatch> = Vec::new();
    let mut k: usize = 0;
    while k < hits.len()
        invariant
            k <= hits@.len(),
            entries@.len() == sub_commands@.len(),
            sv == crate::skills::sub_views(sub_commands@),
            forall|t: int| 0 <= t < hits@.len() ==> hits@[t].index < entries@.len(),
            r@.len() == k,
            forall|t: int|
                0 <= t < k ==> r@[t]@ == (SubCommandMatchModel {
                    sub_command_id: sv[hit_views(hits@)[t].index].id,
                    name: sv[hit_views(hits@)[t].index].name,
                    keyword: hit_views(hits@)[t].keyword,
                    start: hit_views(hits@)[t].start,
                    end: hit_views(hits@)[t].end,
                }),
        decreases hits@.len() - k,
    {
        let h = &hits[k];
        let m = SubCommandMatch {
            sub_command_id: sub_commands[h.index].id.clone(),
            name: sub_commands[h.index].name.clone(),
            keyword: string_of(&h.keyword),
            start: h.start,
            end: h.end,
        };
        r.push(m);
        k = k + 1;
    }
    proof {
        assert(sub_match_views(r@) =~= sub_matches_spec(text@, sv));
        assert forall|a: int, b: int| 0 <= a < b < r@.len() implies r@[a].start <= r@[b].start by {
            assert(hit_views(hits@)[a] == hits@[a]@);
            assert(hit_views(hits@)[b] == hits@[b]@);
        }
    }
    r
}

} // verus!
