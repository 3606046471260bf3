//! Character-level text utilities with their mathematical specifications.
//!
//! Text is modelled as a `Seq<char>` (the view of `str` and `String`); byte
//! offsets are lengths of UTF-8 encodings of prefixes, as in `str` indexing.

use vstd::prelude::*;
use vstd::string::*;
use vstd::utf8::*;

verus! {

broadcast use vstd::utf8::char_is_scalar;

/// Number of bytes of the UTF-8 encoding of a character sequence.
pub open spec fn utf8_len(s: Seq<char>) -> nat {
    encode_utf8(s).len()
}

/// Number of bytes of the UTF-8 encoding of one character.
pub open spec fn char_width(c: char) -> nat {
    encode_scalar(c as u32).len()
}

/// The encoding of a concatenation is the concatenation of the encodings.
pub proof fn lemma_encode_utf8_concat(a: Seq<char>, b: Seq<char>)
    ensures
        encode_utf8(a + b) == encode_utf8(a) + encode_utf8(b),
    decreases a.len(),
{
    if a.len() == 0 {
        assert(a + b =~= b);
        assert(encode_utf8(a) =~= Seq::<u8>::empty());
        assert(encode_utf8(a) + encode_utf8(b) =~= encode_utf8(b));
    } else {
        assert((a + b).drop_first() =~= a.drop_first() + b);
        assert((a + b)[0] == a[0]);
        lemma_encode_utf8_concat(a.drop_first(), b);
        assert(encode_utf8(a + b) =~= encode_scalar(a[0] as u32) + encode_utf8(a.drop_first() + b));
        assert(encode_utf8(a) + encode_utf8(b) =~= encode_scalar(a[0] as u32) + (encode_utf8(
            a.drop_first(),
        ) + encode_utf8(b)));
    }
}

/// Appending one character adds its width to the byte length.
pub proof fn lemma_utf8_len_push(s: Seq<char>, c: char)
    ensures
        utf8_len(s.push(c)) == utf8_len(s) + char_width(c),
{
    lemma_encode_utf8_concat(s, seq![c]);
    assert(s.push(c) =~= s + seq![c]);
    assert(seq![c].drop_first() =~= Seq::<char>::empty());
    assert(encode_utf8(seq![c]) =~= encode_scalar(c as u32) + encode_utf8(Seq::<char>::empty()));
}

/// Byte length of a prefix grows by the width of the next character.
pub proof fn lemma_utf8_len_take_step(s: Seq<char>, i: int)
    requires
        0 <= i < s.len(),
    ensures
        utf8_len(s.take(i + 1)) == utf8_len(s.take(i)) + char_width(s[i]),
{
    assert(s.take(i + 1) =~= s.take(i).push(s[i]));
    lemma_utf8_len_push(s.take(i), s[i]);
}

/// Width in bytes of the UTF-8 encoding of `c`.
pub fn utf8_width(c: char) -> (w: usize)
    ensures
        w == char_width(c),
        1 <= w <= 4,
{
    let u = c as u32;
    if u < 0x80 {
        1
    } else if u < 0x800 {
        2
    } else if u < 0x10000 {
        3
    } else {
        4
    }
}


/// The Unicode `White_Space` property, which `char::is_whitespace` tests.
pub open spec fn is_white_space(c: char) -> bool {
    let u = c as u32;
    ||| 0x09 <= u <= 0x0D
    ||| u == 0x20
    ||| u == 0x85
    ||| u == 0xA0
    ||| u == 0x1680
    ||| 0x2000 <= u <= 0x200A
    ||| u == 0x2028
    ||| u == 0x2029
    ||| u == 0x202F
    ||| u == 0x205F
    ||| u == 0x3000
}

/// Whether `c` has the Unicode `White_Space` property.
pub fn is_white_space_char(c: char) -> (b: bool)
    ensures
        b == is_white_space(c),
{
    let u = c as u32;
    (0x09 <= u && u <= 0x0D) || u == 0x20 || u == 0x85 || u == 0xA0 || u == 0x1680 || (0x2000 <= u
        && u <= 0x200A) || u == 0x2028 || u == 0x2029 || u == 0x202F || u == 0x205F || u == 0x3000
}

/// Character classes that the text operations of this crate trim or drop.
#[derive(Clone, Copy, Debug, PartialEq, Eq)]
pub enum CharClass {
    /// White space only.
    WhiteSpace,
    /// White space and sentence punctuation around a scene name.
    SceneBoundary,
    /// White space, sentence punctuation and quotes around a browser query.
    QueryBoundary,
    /// Characters that do not count when two spoken names are compared.
    IgnoredInName,
}

/// Membership of a character in a class.
pub open spec fn in_class(k: CharClass, c: char) -> bool {
    match k {
        CharClass::WhiteSpace => is_white_space(c),
        CharClass::SceneBoundary => is_white_space(c) || c == ',' || c == '.' || c == ':' || c
            == ';' || c == '!' || c == '?' || c == '，' || c == '。' || c == '：' || c == '；'
            || c == '！' || c == '？' || c == '、',
        CharClass::QueryBoundary => is_white_space(c) || c == ',' || c == '.' || c == ':' || c
            == ';' || c == '!' || c == '?' || c == '，' || c == '。' || c == '：' || c == '；'
            || c == '！' || c == '？' || c == '、' || c == '"' || c == '\'' || c == '“' || c
            == '”' || c == '‘' || c == '’',
        CharClass::IgnoredInName => is_white_space(c) || c == ',' || c == '.' || c == ':' || c
            == ';' || c == '!' || c == '?' || c == '/' || c == '\\' || c == '|' || c == '-' || c
            == '_' || c == '，' || c == '。' || c == '：' || c == '；' || c == '！' || c == '？'
            || c == '、' || c == '“' || c == '”' || c == '‘' || c == '’' || c == '"' || c
            == '\'' || c == '(' || c == ')' || c == '（' || c == '）',
    }
}

/// Whether `c` belongs to class `k`.
pub fn char_in_class(k: CharClass, c: char) -> (b: bool)
    ensures
        b == in_class(k, c),
{
    let ws = is_white_space_char(c);
    match k {
        CharClass::WhiteSpace => ws,
        CharClass::SceneBoundary => ws || c == ',' || c == '.' || c == ':' || c == ';' || c == '!'
            || c == '?' || c == '，' || c == '。' || c == '：' || c == '；' || c == '！' || c
            == '？' || c == '、',
        CharClass::QueryBoundary => ws || c == ',' || c == '.' || c == ':' || c == ';' || c == '!'
            || c == '?' || c == '，' || c == '。' || c == '：' || c == '；' || c == '！' || c
            == '？' || c == '、' || c == '"' || c == '\'' || c == '“' || c == '”' || c == '‘'
            || c == '’',
        CharClass::IgnoredInName => ws || c == ',' || c == '.' || c == ':' || c == ';' || c == '!'
            || c == '?' || c == '/' || c == '\\' || c == '|' || c == '-' || c == '_' || c == '，'
            || c == '。' || c == '：' || c == '；' || c == '！' || c == '？' || c == '、' || c
            == '“' || c == '”' || c == '‘' || c == '’' || c == '"' || c == '\'' || c == '('
            || c == ')' || c == '（' || c == '）',
    }
}

/// `s` without the characters of class `k` at its start.
pub open spec fn trim_start(s: Seq<char>, k: CharClass) -> Seq<char>
    decreases s.len(),
{
    if s.len() > 0 && in_class(k, s[0]) {
        trim_start(s.drop_first(), k)
    } else {
        s
    }
}

/// `s` without the characters of class `k` at its end.
pub open spec fn trim_end(s: Seq<char>, k: CharClass) -> Seq<char>
    decreases s.len(),
{
    if s.len() > 0 && in_class(k, s.last()) {
        trim_end(s.drop_last(), k)
    } else {
        s
    }
}

/// `s` without the characters of class `k` at both ends (`str::trim_matches`).
pub open spec fn trim(s: Seq<char>, k: CharClass) -> Seq<char> {
    trim_end(trim_start(s, k), k)
}

proof fn lemma_trim_start_skip(s: Seq<char>, k: CharClass, i: int)
    requires
        0 <= i <= s.len(),
        forall|t: int| 0 <= t < i ==> in_class(k, #[trigger] s[t]),
        i == s.len() || !in_class(k, s[i]),
    ensures
        trim_start(s, k) == s.skip(i),
    decreases i,
{
    if i == 0 {
        assert(s.skip(0) =~= s);
    } else {
        let t = s.drop_first();
        assert forall|x: int| 0 <= x < i - 1 implies in_class(k, #[trigger] t[x]) by {
            assert(t[x] == s[x + 1]);
        }
        lemma_trim_start_skip(t, k, i - 1);
        assert(t.skip(i - 1) =~= s.skip(i));
    }
}

proof fn lemma_trim_end_take(s: Seq<char>, k: CharClass, j: int)
    requires
        0 <= j <= s.len(),
        forall|t: int| j <= t < s.len() ==> in_class(k, #[trigger] s[t]),
        j == 0 || !in_class(k, s[j - 1]),
    ensures
        trim_end(s, k) == s.take(j),
    decreases s.len() - j,
{
    if j == s.len() {
        assert(s.take(j) =~= s);
    } else {
        let t = s.drop_last();
        assert forall|x: int| j <= x < t.len() implies in_class(k, #[trigger] t[x]) by {
            assert(t[x] == s[x]);
        }
        lemma_trim_end_take(t, k, j);
        assert(t.take(j) =~= s.take(j));
    }
}

proof fn lemma_trim_end_keeps_first(s: Seq<char>, k: CharClass)
    requires
        s.len() > 0,
        !in_class(k, s[0]),
    ensures
        trim_end(s, k).len() > 0,
    decreases s.len(),
{
    if in_class(k, s.last()) {
        let t = s.drop_last();
        assert(t[0] == s[0]);
        lemma_trim_end_keeps_first(t, k);
    }
}

/// A text that starts outside the class is not empty once trimmed.
pub proof fn lemma_trim_keeps_first(s: Seq<char>, k: CharClass)
    requires
        s.len() > 0,
        !in_class(k, s[0]),
    ensures
        trim(s, k).len() > 0,
{
    assert(trim_start(s, k) == s);
    lemma_trim_end_keeps_first(s, k);
}

/// Trimming both ends keeps the range between the first and the last character
/// outside the class.
pub proof fn lemma_trim_range(s: Seq<char>, k: CharClass, i: int, j: int)
    requires
        0 <= i <= j <= s.len(),
        forall|t: int| 0 <= t < i ==> in_class(k, #[trigger] s[t]),
        forall|t: int| j <= t < s.len() ==> in_class(k, #[trigger] s[t]),
        i == j || (!in_class(k, s[i]) && !in_class(k, s[j - 1])),
        i == j ==> i == s.len() || !in_class(k, s[i]),
    ensures
        trim(s, k) == s.subrange(i, j),
{
    lemma_trim_start_skip(s, k, i);
    let u = s.skip(i);
    assert forall|x: int| j - i <= x < u.len() implies in_class(k, #[trigger] u[x]) by {
        assert(u[x] == s[x + i]);
    }
    if i < j {
        assert(u[j - i - 1] == s[j - 1]);
    }
    lemma_trim_end_take(u, k, j - i);
    assert(u.take(j - i) =~= s.subrange(i, j));
}

/// `str::trim_matches` with the class `k` as pattern.
pub fn trim_class(s: &Vec<char>, k: CharClass) -> (r: Vec<char>)
    ensures
        r@ == trim(s@, k),
{
    let n = s.len();
    let mut i: usize = 0;
    while i < n && char_in_class(k, s[i])
        invariant
            i <= n == s@.len(),
            forall|t: int| 0 <= t < i ==> in_class(k, #[trigger] s@[t]),
        decreases n - i,
    {
        i = i + 1;
    }
    let mut j: usize = n;
    while j > i && char_in_class(k, s[j - 1])
        invariant
            i <= j <= n == s@.len(),
            forall|t: int| j <= t < n ==> in_class(k, #[trigger] s@[t]),
        decreases j,
    {
        j = j - 1;
    }
    proof {
        lemma_trim_range(s@, k, i as int, j as int);
    }
    let mut r: Vec<char> = Vec::new();
    let mut t: usize = i;
    while t < j
        invariant
            i <= t <= j <= n == s@.len(),
            r@ == s@.subrange(i as int, t as int),
        decreases j - t,
    {
        r.push(s[t]);
        t = t + 1;
        proof {
            assert(r@ =~= s@.subrange(i as int, t as int));
        }
    }
    r
}

/// The characters of a string slice, with the fact that its UTF-8 length fits
/// in `usize`.
pub fn chars_of(s: &str) -> (v: Vec<char>)
    ensures
        v@ == s@,
        utf8_len(s@) <= usize::MAX,
{
    let bytes = s.as_bytes();
    let _byte_count = bytes.len();
    let n = s.unicode_len();
    let mut v: Vec<char> = Vec::new();
    let mut i: usize = 0;
    while i < n
        invariant
            i <= n,
            n == s@.len(),
            v@ == s@.take(i as int),
        decreases n - i,
    {
        let c = s.get_char(i);
        v.push(c);
        i = i + 1;
        proof {
            assert(v@ =~= s@.take(i as int));
        }
    }
    proof {
        assert(v@ =~= s@);
    }
    v
}

/// Calls `String::push`, which appends one character to the string.
#[verifier::external_body]
fn push_char(s: &mut String, c: char)
    ensures
        final(s)@ == old(s)@.push(c),
{
    s.push(c);
}

/// A `String` holding the given characters.
pub fn string_of(v: &Vec<char>) -> (s: String)
    ensures
        s@ == v@,
{
    let mut s = String::new();
    let mut i: usize = 0;
    while i < v.len()
        invariant
            i <= v@.len(),
            s@ == v@.take(i as int),
        decreases v@.len() - i,
    {
        push_char(&mut s, v[i]);
        i = i + 1;
        proof {
            assert(s@ =~= v@.take(i as int));
        }
    }
    proof {
        assert(v@.take(v@.len() as int) =~= v@);
    }
    s
}

/// Equality of two character sequences.
pub fn chars_equal(a: &Vec<char>, b: &Vec<char>) -> (r: bool)
    ensures
        r == (a@ == b@),
{
    if a.len() != b.len() {
        return false;
    }
    let mut i: usize = 0;
    while i < a.len()
        invariant
            i <= a@.len() == b@.len(),
            forall|t: int| 0 <= t < i ==> a@[t] == b@[t],
        decreases a@.len() - i,
    {
        if a[i] != b[i] {
            return false;
        }
        i = i + 1;
    }
    proof {
        assert(a@ =~= b@);
    }
    true
}

/// Equality of two string slices.
pub fn str_equal(a: &str, b: &str) -> (r: bool)
    ensures
        r == (a@ == b@),
{
    let x = chars_of(a);
    let y = chars_of(b);
    chars_equal(&x, &y)
}

/// Lower-case form of a string as `str::to_lowercase` computes it.
pub uninterp spec fn str_lowercase(s: Seq<char>) -> Seq<char>;

/// Calls `str::to_lowercase`; its result is a function of the characters of
/// `s` alone (Unicode case mapping, with the context rule for final sigma).
#[verifier::external_body]
pub(crate) fn lowercase_str(s: &str) -> (r: String)
    ensures
        r@ == str_lowercase(s@),
{
    s.to_lowercase()
}

/// Lower-case form of one character as `char::to_lowercase` yields it.
pub uninterp spec fn char_lowercase(c: char) -> Seq<char>;

/// Calls `char::to_lowercase` and collects what it yields; the result is a
/// function of `c` alone (Unicode case mapping).
#[verifier::external_body]
pub(crate) fn lowercase_char(c: char) -> (r: Vec<char>)
    ensures
        r@ == char_lowercase(c),
{
    c.to_lowercase().collect()
}


/// Pieces of `s` between occurrences of `sep` (`str::split` with a `char`).
pub open spec fn split_on(s: Seq<char>, sep: char) -> Seq<Seq<char>>
    decreases s.len(),
{
    if s.len() == 0 {
        seq![Seq::<char>::empty()]
    } else {
        let r = split_on(s.drop_last(), sep);
        if s.last() == sep {
            r.push(Seq::<char>::empty())
        } else {
            r.update(r.len() - 1, r.last().push(s.last()))
        }
    }
}

/// `split_on` always yields at least one piece.
pub proof fn lemma_split_on_nonempty(s: Seq<char>, sep: char)
    ensures
        split_on(s, sep).len() >= 1,
    decreases s.len(),
{
    if s.len() > 0 {
        lemma_split_on_nonempty(s.drop_last(), sep);
    }
}

/// Trimmed pieces with the empty ones left out.
pub open spec fn trimmed_nonempty(pieces: Seq<Seq<char>>) -> Seq<Seq<char>>
    decreases pieces.len(),
{
    if pieces.len() == 0 {
        Seq::empty()
    } else {
        let r = trimmed_nonempty(pieces.drop_last());
        let t = trim(pieces.last(), CharClass::WhiteSpace);
        if t.len() == 0 {
            r
        } else {
            r.push(t)
        }
    }
}

/// The entries of a comma-separated list: split on `,`, trimmed, empty entries
/// left out.
pub open spec fn list_entries(s: Seq<char>) -> Seq<Seq<char>> {
    trimmed_nonempty(split_on(s, ','))
}

/// Views of a sequence of character vectors.
pub open spec fn views(v: Seq<Vec<char>>) -> Seq<Seq<char>> {
    v.map_values(|x: Vec<char>| x@)
}

/// Pieces of `s` between occurrences of `sep`.
pub fn split_chars(s: &Vec<char>, sep: char) -> (r: Vec<Vec<char>>)
    ensures
        views(r@) == split_on(s@, sep),
{
    let mut done: Vec<Vec<char>> = Vec::new();
    let mut cur: Vec<char> = Vec::new();
    let mut i: usize = 0;
    proof {
        assert(views(done@) =~= Seq::<Seq<char>>::empty());
        assert(s@.take(0) =~= Seq::<char>::empty());
        assert(views(done@).push(cur@) =~= seq![Seq::<char>::empty()]);
    }
    while i < s.len()
        invariant
            i <= s@.len(),
            views(done@).push(cur@) == split_on(s@.take(i as int), sep),
        decreases s@.len() - i,
    {
        let c = s[i];
        let ghost prev = views(done@);
        let ghost prev_cur = cur@;
        proof {
            assert(s@.take(i + 1).drop_last() =~= s@.take(i as int));
            assert(s@.take(i + 1).last() == c);
        }
        if c == sep {
            let finished = cur;
            done.push(finished);
            cur = Vec::new();
            proof {
                assert(views(done@) =~= prev.push(prev_cur));
                assert(views(done@).push(cur@) =~= prev.push(prev_cur).push(Seq::<char>::empty()));
            }
        } else {
            cur.push(c);
            proof {
                assert(views(done@) =~= prev);
                assert(views(done@).push(cur@) =~= prev.push(prev_cur).update(
                    prev.len() as int,
                    prev_cur.push(c),
                ));
            }
        }
        i = i + 1;
    }
    let ghost prev = views(done@);
    done.push(cur);
    proof {
        assert(s@.take(s@.len() as int) =~= s@);
        assert(views(done@) =~= prev.push(cur@));
    }
    done
}


/// The entries of a comma-separated list.
pub fn list_entries_of(s: &Vec<char>) -> (r: Vec<Vec<char>>)
    ensures
        views(r@) == list_entries(s@),
{
    let pieces = split_chars(s, ',');
    let mut r: Vec<Vec<char>> = Vec::new();
    let mut i: usize = 0;
    proof {
        assert(views(pieces@).take(0) =~= Seq::<Seq<char>>::empty());
        assert(views(r@) =~= Seq::<Seq<char>>::empty());
    }
    while i < pieces.len()
        invariant
            i <= pieces@.len(),
            views(pieces@) == split_on(s@, ','),
            views(r@) == trimmed_nonempty(views(pieces@).take(i as int)),
        decreases pieces@.len() - i,
    {
        let t = trim_class(&pieces[i], CharClass::WhiteSpace);
        let ghost prev = views(r@);
        proof {
            let ps = views(pieces@).take(i + 1);
            assert(ps.drop_last() =~= views(pieces@).take(i as int));
            assert(ps.last() == pieces@[i as int]@);
        }
        if t.len() > 0 {
            r.push(t);
            proof {
                assert(views(r@) =~= prev.push(t@));
            }
        }
        i = i + 1;
    }
    proof {
        assert(views(pieces@).take(pieces@.len() as int) =~= views(pieces@));
    }
    r
}

/// `n` occurs in `h` starting at index `i`.
pub open spec fn occurs_at(h: Seq<char>, n: Seq<char>, i: int) -> bool {
    0 <= i && i + n.len() <= h.len() && h.subrange(i, i + n.len()) == n
}

/// First index at or after `i` where `n` occurs in `h`.
pub open spec fn find_from(h: Seq<char>, n: Seq<char>, i: int) -> Option<int>
    decreases h.len() + 1 - i,
{
    if i < 0 || i + n.len() > h.len() {
        None
    } else if occurs_at(h, n, i) {
        Some(i)
    } else {
        find_from(h, n, i + 1)
    }
}

/// First index where `n` occurs in `h` (`str::find`, counted in characters).
pub open spec fn find_first(h: Seq<char>, n: Seq<char>) -> Option<int> {
    find_from(h, n, 0)
}

/// What `find_from` returns is the first occurrence at or after `i`.
pub proof fn lemma_find_from(h: Seq<char>, n: Seq<char>, i: int)
    requires
        0 <= i,
    ensures
        match find_from(h, n, i) {
            Some(j) => i <= j && occurs_at(h, n, j) && forall|k: int|
                i <= k < j ==> !occurs_at(h, n, k),
            None => forall|k: int| i <= k ==> !occurs_at(h, n, k),
        },
    decreases h.len() + 1 - i,
{
    if i + n.len() > h.len() {
    } else if occurs_at(h, n, i) {
    } else {
        lemma_find_from(h, n, i + 1);
    }
}

/// Whether `n` occurs in `h` at index `i`.
pub fn occurs_at_exec(h: &Vec<char>, n: &Vec<char>, i: usize) -> (b: bool)
    ensures
        b == occurs_at(h@, n@, i as int),
{
    if i > h.len() || n.len() > h.len() - i {
        return false;
    }
    let end = i + n.len();
    let mut t: usize = 0;
    while t < n.len()
        invariant
            end == i + n@.len(),
            end <= h@.len(),
            t <= n@.len(),
            forall|x: int| 0 <= x < t ==> h@[i + x] == n@[x],
        decreases n@.len() - t,
    {
        if h[i + t] != n[t] {
            proof {
                assert(h@.subrange(i as int, i + n@.len())[t as int] != n@[t as int]);
            }
            return false;
        }
        t = t + 1;
    }
    proof {
        assert(h@.subrange(i as int, i + n@.len()) =~= n@);
    }
    true
}

/// First index where `n` occurs in `h`.
pub fn find_chars(h: &Vec<char>, n: &Vec<char>) -> (r: Option<usize>)
    ensures
        match r {
            Some(i) => find_first(h@, n@) == Some(i as int),
            None => find_first(h@, n@) is None,
        },
{
    if n.len() > h.len() {
        return None;
    }
    if n.len() == 0 {
        proof {
            assert(h@.subrange(0, 0) =~= n@);
        }
        return Some(0);
    }
    let last = h.len() - n.len();
    let mut i: usize = 0;
    while i <= last
        invariant
            last + n@.len() == h@.len(),
            n@.len() > 0,
            last < usize::MAX,
            i <= last + 1,
            find_first(h@, n@) == find_from(h@, n@, i as int),
        decreases last + 1 - i,
    {
        if occurs_at_exec(h, n, i) {
            return Some(i);
        }
        i = i + 1;
    }
    None
}

/// `suffix` ends `s`.
pub open spec fn ends_with(s: Seq<char>, suffix: Seq<char>) -> bool {
    suffix.len() <= s.len() && s.subrange(s.len() - suffix.len(), s.len() as int) == suffix
}

/// Whether `suffix` ends `s`.
pub fn ends_with_chars(s: &Vec<char>, suffix: &Vec<char>) -> (b: bool)
    ensures
        b == ends_with(s@, suffix@),
{
    if suffix.len() > s.len() {
        return false;
    }
    let b = occurs_at_exec(s, suffix, s.len() - suffix.len());
    b
}

/// The first `k` characters of `s`.
pub fn prefix_chars(s: &Vec<char>, k: usize) -> (r: Vec<char>)
    requires
        k <= s@.len(),
    ensures
        r@ == s@.take(k as int),
{
    let mut r: Vec<char> = Vec::new();
    let mut i: usize = 0;
    while i < k
        invariant
            i <= k <= s@.len(),
            r@ == s@.take(i as int),
        decreases k - i,
    {
        r.push(s[i]);
        i = i + 1;
        proof {
            assert(r@ =~= s@.take(i as int));
        }
    }
    r
}

/// The characters of `s` from index `a` up to index `b`.
pub fn slice_chars(s: &Vec<char>, a: usize, b: usize) -> (r: Vec<char>)
    requires
        a <= b <= s@.len(),
    ensures
        r@ == s@.subrange(a as int, b as int),
{
    let mut r: Vec<char> = Vec::new();
    let mut i: usize = a;
    while i < b
        invariant
            a <= i <= b <= s@.len(),
            r@ == s@.subrange(a as int, i as int),
        decreases b - i,
    {
        r.push(s[i]);
        i = i + 1;
        proof {
            assert(r@ =~= s@.subrange(a as int, i as int));
        }
    }
    r
}

/// `n` occurs somewhere in `h`.
pub open spec fn contains(h: Seq<char>, n: Seq<char>) -> bool {
    exists|i: int| occurs_at(h, n, i)
}

/// Whether `n` occurs in `h`.
pub fn contains_chars(h: &Vec<char>, n: &Vec<char>) -> (b: bool)
    ensures
        b == contains(h@, n@),
{
    let r = find_chars(h, n);
    proof {
        lemma_find_from(h@, n@, 0);
    }
    match r {
        Some(_) => true,
        None => false,
    }
}

/// Decimal digit `d` as a character.
pub open spec fn digit_char(d: nat) -> char {
    if d == 0 {
        '0'
    } else if d == 1 {
        '1'
    } else if d == 2 {
        '2'
    } else if d == 3 {
        '3'
    } else if d == 4 {
        '4'
    } else if d == 5 {
        '5'
    } else if d == 6 {
        '6'
    } else if d == 7 {
        '7'
    } else if d == 8 {
        '8'
    } else {
        '9'
    }
}

/// Decimal representation of `n` without leading zeros, as `{}` formats an
/// unsigned integer.
pub open spec fn decimal(n: nat) -> Seq<char>
    decreases n,
{
    if n < 10 {
        seq![digit_char(n)]
    } else {
        decimal(n / 10).push(digit_char(n % 10))
    }
}

fn digit_of(d: u128) -> (c: char)
    requires
        d < 10,
    ensures
        c == digit_char(d as nat),
{
    if d == 0 {
        '0'
    } else if d == 1 {
        '1'
    } else if d == 2 {
        '2'
    } else if d == 3 {
        '3'
    } else if d == 4 {
        '4'
    } else if d == 5 {
        '5'
    } else if d == 6 {
        '6'
    } else if d == 7 {
        '7'
    } else if d == 8 {
        '8'
    } else {
        '9'
    }
}

/// Appends the decimal representation of `n` to `out`.
pub fn push_decimal(out: &mut Vec<char>, n: u128)
    ensures
        final(out)@ == old(out)@ + decimal(n as nat),
    decreases n,
{
    let ghost start = out@;
    if n < 10 {
        out.push(digit_of(n));
        proof {
            assert(out@ =~= start + decimal(n as nat));
        }
    } else {
        push_decimal(out, n / 10);
        out.push(digit_of(n % 10));
        proof {
            assert(out@ =~= start + decimal(n as nat));
        }
    }
}


/// Views of a sequence of strings.
pub open spec fn string_views(v: Seq<String>) -> Seq<Seq<char>> {
    v.map_values(|x: String| x@)
}

/// Copies a vector of strings.
pub fn clone_strings(v: &Vec<String>) -> (r: Vec<String>)
    ensures
        string_views(r@) == string_views(v@),
{
    let r = v.clone();
    proof {
        assert forall|i: int| 0 <= i < v@.len() implies r@[i]@ == v@[i]@ by {
            assert(cloned::<String>(v[i], r[i]));
        }
        assert(string_views(r@) =~= string_views(v@));
    }
    r
}


/// A decimal representation has at least one digit.
pub proof fn lemma_decimal_nonempty(n: nat)
    ensures
        decimal(n).len() >= 1,
        n >= 10 ==> decimal(n).len() >= 2,
    decreases n,
{
    if n >= 10 {
        lemma_decimal_nonempty(n / 10);
    }
}

proof fn lemma_digit_char_injective(a: nat, b: nat)
    requires
        a < 10,
        b < 10,
        digit_char(a) == digit_char(b),
    ensures
        a == b,
{
}

/// Distinct numbers have distinct decimal representations.
pub proof fn lemma_decimal_injective(a: nat, b: nat)
    requires
        decimal(a) == decimal(b),
    ensures
        a == b,
    decreases a,
{
    lemma_decimal_nonempty(a);
    lemma_decimal_nonempty(b);
    if a < 10 && b < 10 {
        assert(decimal(a)[0] == digit_char(a));
        assert(decimal(b)[0] == digit_char(b));
        lemma_digit_char_injective(a, b);
    } else if a >= 10 && b >= 10 {
        let da = decimal(a);
        let db = decimal(b);
        assert(da.last() == digit_char(a % 10));
        assert(db.last() == digit_char(b % 10));
        lemma_digit_char_injective(a % 10, b % 10);
        assert(da.drop_last() =~= decimal(a / 10));
        assert(db.drop_last() =~= decimal(b / 10));
        lemma_decimal_injective(a / 10, b / 10);
    } else {
        assert(decimal(a).len() != decimal(b).len());
    }
}


/// Byte offset `b` falls between characters of `t` (or at either end).
pub open spec fn is_boundary(t: Seq<char>, b: int) -> bool {
    exists|k: int| 0 <= k <= t.len() && utf8_len(t.take(k)) == b
}

/// Byte length of a prefix grows strictly with the prefix.
pub proof fn lemma_utf8_len_take_strict(t: Seq<char>, i: int, j: int)
    requires
        0 <= i < j <= t.len(),
    ensures
        utf8_len(t.take(i)) < utf8_len(t.take(j)),
    decreases j - i,
{
    lemma_utf8_len_take_step(t, j - 1);
    if i < j - 1 {
        lemma_utf8_len_take_strict(t, i, j - 1);
    }
}

/// The character index at byte offset `b`, when `b` is a boundary.
pub open spec fn char_index_at(t: Seq<char>, b: int) -> int {
    choose|k: int| 0 <= k <= t.len() && utf8_len(t.take(k)) == b
}

/// The characters between byte offsets `a` and `b` when `a < b` and both are
/// boundaries.
pub open spec fn byte_range_chars(t: Seq<char>, a: int, b: int) -> Option<Seq<char>> {
    if a < b && is_boundary(t, a) && is_boundary(t, b) {
        Some(t.subrange(char_index_at(t, a), char_index_at(t, b)))
    } else {
        None
    }
}

/// The character index at byte offset `b`, if `b` is a boundary.
pub fn char_index_of_byte(t: &Vec<char>, b: usize) -> (r: Option<usize>)
    requires
        utf8_len(t@) <= usize::MAX,
    ensures
        match r {
            Some(k) => k <= t@.len() && utf8_len(t@.take(k as int)) == b && is_boundary(t@, b as int)
                && char_index_at(t@, b as int) == k,
            None => !is_boundary(t@, b as int),
        },
{
    let mut k: usize = 0;
    let mut off: usize = 0;
    proof {
        assert(t@.take(0) =~= Seq::<char>::empty());
    }
    while k < t.len() && off < b
        invariant
            k <= t@.len(),
            utf8_len(t@) <= usize::MAX,
            off == utf8_len(t@.take(k as int)),
            forall|j: int| 0 <= j < k ==> utf8_len(t@.take(j)) < b,
        decreases t@.len() - k,
    {
        proof {
            lemma_utf8_len_take_step(t@, k as int);
            assert(t@ =~= t@.take(k + 1) + t@.skip(k + 1));
            lemma_encode_utf8_concat(t@.take(k + 1), t@.skip(k + 1));
        }
        off = off + utf8_width(t[k]);
        k = k + 1;
    }
    if off == b {
        proof {
            assert(is_boundary(t@, b as int));
            let c = char_index_at(t@, b as int);
            if c < k {
                lemma_utf8_len_take_strict(t@, c, k as int);
            }
            if k < c {
                lemma_utf8_len_take_strict(t@, k as int, c);
            }
        }
        Some(k)
    } else {
        proof {
            assert forall|j: int| 0 <= j <= t@.len() implies utf8_len(t@.take(j)) != b by {
                if j > k {
                    lemma_utf8_len_take_strict(t@, k as int, j);
                }
            }
        }
        None
    }
}

/// The characters of `t` between byte offsets `a` and `b`, when `a < b` and
/// both are boundaries.
pub fn byte_range_of(t: &Vec<char>, a: usize, b: usize) -> (r: Option<Vec<char>>)
    requires
        utf8_len(t@) <= usize::MAX,
    ensures
        match r {
            Some(v) => byte_range_chars(t@, a as int, b as int) == Some(v@),
            None => byte_range_chars(t@, a as int, b as int) is None,
        },
{
    if a >= b {
        return None;
    }
    let ka = char_index_of_byte(t, a);
    let kb = char_index_of_byte(t, b);
    match (ka, kb) {
        (Some(x), Some(y)) => {
            if x > y {
                proof {
                    lemma_utf8_len_take_strict(t@, y as int, x as int);
                }
                return None;
            }
            Some(slice_chars(t, x, y))
        },
        _ => None,
    }
}


/// Strict lexicographic order of character sequences by code point, the
/// order in which `String`s compare (UTF-8 byte order agrees with it).
pub open spec fn lex_lt(a: Seq<char>, b: Seq<char>) -> bool
    decreases a.len(),
{
    if a.len() == 0 {
        b.len() > 0
    } else if b.len() == 0 {
        false
    } else if (a[0] as u32) < (b[0] as u32) {
        true
    } else if a[0] == b[0] {
        lex_lt(a.drop_first(), b.drop_first())
    } else {
        false
    }
}

/// No sequence comes before itself.
pub proof fn lemma_lex_irreflexive(a: Seq<char>)
    ensures
        !lex_lt(a, a),
    decreases a.len(),
{
    if a.len() > 0 {
        lemma_lex_irreflexive(a.drop_first());
    }
}

/// The order is transitive.
pub proof fn lemma_lex_transitive(a: Seq<char>, b: Seq<char>, c: Seq<char>)
    requires
        lex_lt(a, b),
        lex_lt(b, c),
    ensures
        lex_lt(a, c),
    decreases a.len(),
{
    if a.len() > 0 && b.len() > 0 && c.len() > 0 && a[0] == b[0] && b[0] == c[0] {
        lemma_lex_transitive(a.drop_first(), b.drop_first(), c.drop_first());
    }
}

/// Two different sequences are ordered one way or the other.
pub proof fn lemma_lex_total(a: Seq<char>, b: Seq<char>)
    requires
        a != b,
    ensures
        lex_lt(a, b) || lex_lt(b, a),
    decreases a.len(),
{
    if a.len() > 0 && b.len() > 0 && a[0] == b[0] {
        if a.drop_first() == b.drop_first() {
            assert(a =~= seq![a[0]] + a.drop_first());
            assert(b =~= seq![b[0]] + b.drop_first());
        }
        lemma_lex_total(a.drop_first(), b.drop_first());
    } else if a.len() > 0 && b.len() > 0 {
        if (a[0] as u32) == (b[0] as u32) {
            vstd::utf8::char_u32_cast(a[0], a[0] as u32);
            vstd::utf8::char_u32_cast(b[0], b[0] as u32);
        }
    } else if a.len() == 0 && b.len() == 0 {
        assert(a =~= b);
    }
}

/// Whether `a` comes strictly before `b`.
pub fn lex_less(a: &Vec<char>, b: &Vec<char>) -> (r: bool)
    ensures
        r == lex_lt(a@, b@),
{
    let mut i: usize = 0;
    proof {
        assert(a@.skip(0) =~= a@);
        assert(b@.skip(0) =~= b@);
    }
    while i < a.len() && i < b.len()
        invariant
            i <= a@.len(),
            i <= b@.len(),
            a@.take(i as int) == b@.take(i as int),
            lex_lt(a@, b@) == lex_lt(a@.skip(i as int), b@.skip(i as int)),
        decreases a@.len() - i,
    {
        let x = a[i];
        let y = b[i];
        if (x as u32) < (y as u32) {
            return true;
        }
        if x != y {
            return false;
        }
        proof {
            assert(a@.skip(i as int).drop_first() =~= a@.skip(i + 1));
            assert(b@.skip(i as int).drop_first() =~= b@.skip(i + 1));
            assert(a@.take(i + 1) =~= a@.take(i as int).push(x));
            assert(b@.take(i + 1) =~= b@.take(i as int).push(y));
        }
        i = i + 1;
    }
    i < b.len()
}


/// Appends the characters of `s` to `out`.
pub fn append_chars(out: &mut Vec<char>, s: &Vec<char>)
    ensures
        final(out)@ == old(out)@ + s@,
{
    let ghost before = out@;
    let mut t: usize = 0;
    while t < s.len()
        invariant
            t <= s@.len(),
            out@ == before + s@.take(t as int),
        decreases s@.len() - t,
    {
        out.push(s[t]);
        t = t + 1;
        proof {
            assert(out@ =~= before + s@.take(t as int));
        }
    }
    proof {
        assert(s@.take(s@.len() as int) =~= s@);
    }
}

/// The two texts one after the other.
pub fn concat2(a: &str, b: &str) -> (r: String)
    ensures
        r@ == a@ + b@,
{
    let mut out = chars_of(a);
    append_chars(&mut out, &chars_of(b));
    string_of(&out)
}

/// The three texts one after the other.
pub fn concat3(a: &str, b: &str, c: &str) -> (r: String)
    ensures
        r@ == a@ + b@ + c@,
{
    let mut out = chars_of(a);
    append_chars(&mut out, &chars_of(b));
    append_chars(&mut out, &chars_of(c));
    string_of(&out)
}

/// The parts joined by `sep`.
pub open spec fn join_with(parts: Seq<Seq<char>>, sep: Seq<char>) -> Seq<char>
    decreases parts.len(),
{
    if parts.len() == 0 {
        Seq::empty()
    } else if parts.len() == 1 {
        parts[0]
    } else {
        join_with(parts.drop_last(), sep) + sep + parts.last()
    }
}

/// The strings joined by `sep` (`[String]::join`).
pub fn join_strings(parts: &Vec<String>, sep: &str) -> (r: String)
    ensures
        r@ == join_with(string_views(parts@), sep@),
{
    let ghost v = string_views(parts@);
    if parts.len() == 0 {
        return String::new();
    }
    let sep_chars = chars_of(sep);
    let mut out: Vec<char> = chars_of(parts[0].as_str());
    let mut i: usize = 1;
    proof {
        assert(v.take(1).len() == 1);
        assert(join_with(v.take(1), sep@) == v[0]);
    }
    while i < parts.len()
        invariant
            1 <= i <= parts@.len(),
            v == string_views(parts@),
            sep_chars@ == sep@,
            out@ == join_with(v.take(i as int), sep@),
        decreases parts@.len() - i,
    {
        let part = chars_of(parts[i].as_str());
        append_chars(&mut out, &sep_chars);
        append_chars(&mut out, &part);
        proof {
            assert(v.take(i + 1).drop_last() =~= v.take(i as int));
            assert(v.take(i + 1).last() == part@);
        }
        i = i + 1;
    }
    proof {
        assert(v.take(v.len() as int) =~= v);
    }
    string_of(&out)
}


/// Line breaks and tabs become spaces in a one-line preview.
pub open spec fn preview_char(c: char) -> char {
    if c == '\n' || c == '\r' || c == '\t' {
        ' '
    } else {
        c
    }
}

/// A one-line preview of `s`: its first `max_chars` characters (all of them
/// when it is shorter), line breaks and tabs as spaces.
pub open spec fn preview_spec(s: Seq<char>, max_chars: nat) -> Seq<char> {
    let n: int = if s.len() < max_chars { s.len() as int } else { max_chars as int };
    s.map_values(|c: char| preview_char(c)).take(n)
}

/// A one-line preview of `s` for the log, cut to at most `max_chars`
/// characters.
pub fn preview_text(s: &str, max_chars: usize) -> (r: String)
    ensures
        r@ == preview_spec(s@, max_chars as nat),
{
    let v = chars_of(s);
    let mut out: Vec<char> = Vec::new();
    let mut i: usize = 0;
    let ghost mapped = s@.map_values(|c: char| preview_char(c));
    while i < v.len() && i < max_chars
        invariant
            i <= v@.len(),
            i <= max_chars,
            v@ == s@,
            mapped == s@.map_values(|c: char| preview_char(c)),
            out@ == mapped.take(i as int),
        decreases v@.len() - i,
    {
        let ch = v[i];
        if ch == '\n' || ch == '\r' || ch == '\t' {
            out.push(' ');
        } else {
            out.push(ch);
        }
        i = i + 1;
        proof {
            assert(out@ =~= mapped.take(i as int));
        }
    }
    string_of(&out)
}


/// Trimming never lengthens a sequence.
pub proof fn lemma_trim_len(s: Seq<char>, k: CharClass)
    ensures
        trim_start(s, k).len() <= s.len(),
        trim_end(s, k).len() <= s.len(),
        trim(s, k).len() <= s.len(),
    decreases s.len(),
{
    if s.len() > 0 {
        lemma_trim_len(s.drop_first(), k);
        lemma_trim_len(s.drop_last(), k);
    }
    lemma_trim_end_len(trim_start(s, k), k);
}

proof fn lemma_trim_end_len(s: Seq<char>, k: CharClass)
    ensures
        trim_end(s, k).len() <= s.len(),
    decreases s.len(),
{
    if s.len() > 0 {
        lemma_trim_end_len(s.drop_last(), k);
    }
}

/// `s` with each occurrence of `pat`, taken from the left without overlaps,
/// replaced by `rep` (`str::replace` for a non-empty pattern).
pub open spec fn replace_all(s: Seq<char>, pat: Seq<char>, rep: Seq<char>) -> Seq<char>
    decreases s.len(),
{
    if pat.len() == 0 || s.len() < pat.len() {
        s
    } else if s.take(pat.len() as int) == pat {
        rep + replace_all(s.skip(pat.len() as int), pat, rep)
    } else {
        seq![s[0]] + replace_all(s.skip(1), pat, rep)
    }
}

/// Replaces each occurrence of `pat` in `s` by `rep`, from the left.
pub fn replace_chars(s: &Vec<char>, pat: &Vec<char>, rep: &Vec<char>) -> (r: Vec<char>)
    requires
        pat@.len() > 0,
    ensures
        r@ == replace_all(s@, pat@, rep@),
{
    let mut out: Vec<char> = Vec::new();
    let mut i: usize = 0;
    proof {
        assert(s@.skip(0) =~= s@);
    }
    while i < s.len()
        invariant
            i <= s@.len(),
            pat@.len() > 0,
            out@ + replace_all(s@.skip(i as int), pat@, rep@) == replace_all(s@, pat@, rep@),
        decreases s@.len() - i,
    {
        let ghost rest = s@.skip(i as int);
        let ghost before = out@;
        if occurs_at_exec(s, pat, i) {
            proof {
                assert(rest.take(pat@.len() as int) =~= s@.subrange(i as int, i + pat@.len()));
                assert(rest.skip(pat@.len() as int) =~= s@.skip(i + pat@.len()));
            }
            append_chars(&mut out, rep);
            i = i + pat.len();
            proof {
                assert(out@ + replace_all(s@.skip(i as int), pat@, rep@) =~= before + replace_all(
                    rest,
                    pat@,
                    rep@,
                ));
            }
        } else {
            out.push(s[i]);
            proof {
                assert(rest.skip(1) =~= s@.skip(i + 1));
                if rest.len() >= pat@.len() {
                    assert(rest.take(pat@.len() as int) =~= s@.subrange(i as int, i + pat@.len()));
                    assert(replace_all(rest, pat@, rep@) == seq![rest[0]] + replace_all(
                        rest.skip(1),
                        pat@,
                        rep@,
                    ));
                } else {
                    assert(replace_all(rest, pat@, rep@) == rest);
                    assert(replace_all(rest.skip(1), pat@, rep@) == rest.skip(1));
                    assert(rest =~= seq![rest[0]] + rest.skip(1));
                }
            }
            i = i + 1;
            proof {
                assert(out@ + replace_all(s@.skip(i as int), pat@, rep@) =~= before + replace_all(
                    rest,
                    pat@,
                    rep@,
                ));
            }
        }
    }
    proof {
        assert(s@.skip(s@.len() as int) =~= Seq::<char>::empty());
        assert(out@ + Seq::<char>::empty() =~= out@);
    }
    out
}

} // verus!
