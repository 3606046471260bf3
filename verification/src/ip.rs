//! Textual IP addresses, in the forms that `IpAddr`'s `FromStr` accepts:
//! dotted-decimal IPv4 and colon-separated IPv6 with at most one `::`.

use vstd::prelude::*;
use crate::browser::{digits_value, is_ascii_digit};
use crate::text::{chars_of, find_chars, split_chars, split_on, views};

verus! {

/// An ASCII hexadecimal digit.
pub open spec fn is_hex_digit(c: char) -> bool {
    let u = c as u32;
    (48 <= u && u <= 57) || (65 <= u && u <= 70) || (97 <= u && u <= 102)
}

/// A decimal octet: one to three digits, no leading zero unless it is the
/// only digit, at most 255.
pub open spec fn is_dec_octet(p: Seq<char>) -> bool {
    &&& 1 <= p.len() <= 3
    &&& forall|i: int| 0 <= i < p.len() ==> is_ascii_digit(#[trigger] p[i])
    &&& (p.len() == 1 || p[0] != '0')
    &&& digits_value(p) <= 255
}

/// Four decimal octets separated by dots.
pub open spec fn is_ipv4_literal(s: Seq<char>) -> bool {
    let parts = split_on(s, '.');
    parts.len() == 4 && forall|i: int| 0 <= i < 4 ==> is_dec_octet(#[trigger] parts[i])
}

/// One to four hexadecimal digits.
pub open spec fn is_hex_group(g: Seq<char>) -> bool {
    1 <= g.len() <= 4 && forall|i: int| 0 <= i < g.len() ==> is_hex_digit(#[trigger] g[i])
}

/// Every part is a hexadecimal group.
pub open spec fn all_hex_groups(parts: Seq<Seq<char>>) -> bool {
    forall|i: int| 0 <= i < parts.len() ==> is_hex_group(#[trigger] parts[i])
}

/// How many 16-bit groups a colon-separated list of hexadecimal groups,
/// possibly ending in an IPv4 address (worth two), stands for.
pub open spec fn group_count(s: Seq<char>) -> Option<nat> {
    let parts = split_on(s, ':');
    if all_hex_groups(parts) {
        Some(parts.len())
    } else if parts.len() >= 1 && is_ipv4_literal(parts.last()) && all_hex_groups(parts.drop_last()) {
        Some(parts.len() + 1)
    } else {
        None
    }
}

/// An IPv6 address: eight groups, or fewer around the first `::` (which
/// stands for at least one zero group), with groups before it plain
/// hexadecimal.
pub open spec fn is_ipv6_literal(s: Seq<char>) -> bool {
    match crate::text::find_first(s, "::"@) {
        None => group_count(s) == Some(8nat),
        Some(k) => {
            let head = s.take(k);
            let tail = s.skip(k + 2);
            let h: nat = if head.len() == 0 {
                0
            } else {
                split_on(head, ':').len()
            };
            &&& (head.len() == 0 || all_hex_groups(split_on(head, ':')))
            &&& match (if tail.len() == 0 {
                Some(0nat)
            } else {
                group_count(tail)
            }) {
                Some(t) => h + t <= 7,
                None => false,
            }
        },
    }
}

/// An IPv4 or IPv6 address.
pub open spec fn is_ip_literal(s: Seq<char>) -> bool {
    is_ipv4_literal(s) || is_ipv6_literal(s)
}

fn dec_octet(p: &Vec<char>) -> (b: bool)
    ensures
        b == is_dec_octet(p@),
{
    if p.len() < 1 || p.len() > 3 {
        return false;
    }
    let mut i: usize = 0;
    let mut value: u32 = 0;
    proof {
        assert(p@.take(0) =~= Seq::<char>::empty());
    }
    while i < p.len()
        invariant
            i <= p@.len() <= 3,
            forall|t: int| 0 <= t < i ==> is_ascii_digit(#[trigger] p@[t]),
            value == digits_value(p@.take(i as int)),
            i == 0 ==> value == 0,
            i <= 1 ==> value < 10,
            i <= 2 ==> value < 100,
            value < 1000,
        decreases p@.len() - i,
    {
        let u = p[i] as u32;
        if u < 48 || u > 57 {
            return false;
        }
        proof {
            assert(p@.take(i + 1).drop_last() =~= p@.take(i as int));
        }
        value = value * 10 + (u - 48);
        i = i + 1;
        proof {
            assert(value == digits_value(p@.take(i as int)));
        }
    }
    proof {
        assert(p@.take(p@.len() as int) =~= p@);
    }
    (p.len() == 1 || p[0] != '0') && value <= 255
}

/// Whether `s` is a dotted-decimal IPv4 address.
pub fn ipv4_literal(s: &Vec<char>) -> (b: bool)
    ensures
        b == is_ipv4_literal(s@),
{
    let parts = split_chars(s, '.');
    if parts.len() != 4 {
        return false;
    }
    let mut i: usize = 0;
    while i < 4
        invariant
            i <= 4,
            parts@.len() == 4,
            views(parts@) == split_on(s@, '.'),
            forall|t: int| 0 <= t < i ==> is_dec_octet(#[trigger] split_on(s@, '.')[t]),
        decreases 4 - i,
    {
        proof {
            assert(views(parts@)[i as int] == parts@[i as int]@);
        }
        if !dec_octet(&parts[i]) {
            return false;
        }
        i = i + 1;
    }
    true
}

fn hex_group(g: &Vec<char>) -> (b: bool)
    ensures
        b == is_hex_group(g@),
{
    if g.len() < 1 || g.len() > 4 {
        return false;
    }
    let mut i: usize = 0;
    while i < g.len()
        invariant
            i <= g@.len(),
            forall|t: int| 0 <= t < i ==> is_hex_digit(#[trigger] g@[t]),
        decreases g@.len() - i,
    {
        let u = g[i] as u32;
        if !((48 <= u && u <= 57) || (65 <= u && u <= 70) || (97 <= u && u <= 102)) {
            return false;
        }
        i = i + 1;
    }
    true
}

/// Whether the first `n` parts are hexadecimal groups.
fn hex_groups_upto(parts: &Vec<Vec<char>>, n: usize) -> (b: bool)
    requires
        n <= parts@.len(),
    ensures
        b == all_hex_groups(views(parts@).take(n as int)),
{
    let ghost v = views(parts@);
    let mut i: usize = 0;
    while i < n
        invariant
            i <= n <= parts@.len(),
            v == views(parts@),
            forall|t: int| 0 <= t < i ==> is_hex_group(#[trigger] v[t]),
        decreases n - i,
    {
        proof {
            assert(v[i as int] == parts@[i as int]@);
        }
        if !hex_group(&parts[i]) {
            proof {
                assert(v.take(n as int)[i as int] == v[i as int]);
            }
            return false;
        }
        i = i + 1;
    }
    proof {
        assert forall|t: int| 0 <= t < v.take(n as int).len() implies is_hex_group(
            #[trigger] v.take(n as int)[t],
        ) by {
            assert(v.take(n as int)[t] == v[t]);
        }
    }
    true
}

/// The parts of `s` between colons, and whether the last one is an IPv4
/// address (worth two groups), if `s` is a list of groups.
fn group_count_of(s: &Vec<char>) -> (r: Option<(usize, bool)>)
    ensures
        match r {
            Some((n, extra)) => group_count(s@) == Some((if extra { n + 1 } else { n as int }) as nat),
            None => group_count(s@) is None,
        },
{
    let parts = split_chars(s, ':');
    let ghost v = views(parts@);
    proof {
        crate::text::lemma_split_on_nonempty(s@, ':');
        assert(v.take(v.len() as int) =~= v);
        assert(v.take(v.len() - 1) =~= v.drop_last());
    }
    let n = parts.len();
    if hex_groups_upto(&parts, n) {
        return Some((n, false));
    }
    proof {
        assert(v.last() == parts@[n - 1]@);
    }
    if ipv4_literal(&parts[n - 1]) && hex_groups_upto(&parts, n - 1) {
        return Some((n, true));
    }
    None
}

/// Whether `s` is an IPv6 address.
pub fn ipv6_literal(s: &Vec<char>) -> (b: bool)
    ensures
        b == is_ipv6_literal(s@),
{
    let dc = chars_of("::");
    match find_chars(s, &dc) {
        None => match group_count_of(s) {
            Some((n, extra)) => if extra {
                n == 7
            } else {
                n == 8
            },
            None => false,
        },
        Some(k) => {
            let len = s.len();
            proof {
                crate::text::lemma_find_from(s@, "::"@, 0);
                reveal_strlit("::");
                assert(crate::text::occurs_at(s@, "::"@, k as int));
                assert(k + 2 <= s@.len());
            }
            let head = crate::text::prefix_chars(s, k);
            let tail = crate::text::slice_chars(s, k + 2, len);
            proof {
                assert(tail@ =~= s@.skip(k + 2));
            }
            let h: usize = if head.len() == 0 {
                0
            } else {
                let hp = split_chars(&head, ':');
                if !hex_groups_upto(&hp, hp.len()) {
                    proof {
                        assert(views(hp@).take(hp@.len() as int) =~= views(hp@));
                    }
                    return false;
                }
                proof {
                    assert(views(hp@).take(hp@.len() as int) =~= views(hp@));
                }
                hp.len()
            };
            if tail.len() == 0 {
                return h <= 7;
            }
            match group_count_of(&tail) {
                Some((t, extra)) => if extra {
                    h <= 7 && t <= 7 - h && t + 1 <= 7 - h
                } else {
                    h <= 7 && t <= 7 - h
                },
                None => false,
            }
        },
    }
}

/// Whether `s` is an IPv4 or IPv6 address (`s.parse::<IpAddr>().is_ok()`).
pub fn ip_literal(s: &str) -> (b: bool)
    ensures
        b == is_ip_literal(s@),
{
    let v = chars_of(s);
    ipv4_literal(&v) || ipv6_literal(&v)
}

} // verus!
