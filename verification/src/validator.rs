//! The validator: a structural check of a candidate string against the
//! exact grammar the builder produces. It never fails; malformed input is
//! answered with `false`.

use vstd::prelude::*;
use crate::hex::{is_hex_digit, is_hex_seq};
use crate::grammar::{cidr_suffix, split_colon, count_colons, valid_address, lemma_split_colon_len,
    lemma_count_colons_zero, lemma_count_colons_push, lemma_split_colon_whole,
    lemma_split_colon_prepend};

verus! {

/// Decides whether `c` is an ASCII hexadecimal digit: 0-9, a-f or A-F.
fn is_hex_digit_char(c: char) -> (r: bool)
    ensures
        r == is_hex_digit(c),
{
    let u = c as u32;
    (48 <= u && u <= 57) || (97 <= u && u <= 102) || (65 <= u && u <= 70)
}

/// Reports whether every character of `s` with index in [lo, hi) is an
/// ASCII hexadecimal digit.
fn all_hex_in(s: &str, lo: usize, hi: usize) -> (r: bool)
    requires
        lo <= hi <= s@.len(),
    ensures
        r == is_hex_seq(s@.subrange(lo as int, hi as int)),
{
    let ghost piece = s@.subrange(lo as int, hi as int);
    let mut i: usize = lo;
    while i < hi
        invariant
            lo <= i <= hi <= s@.len(),
            piece == s@.subrange(lo as int, hi as int),
            forall|j: int| lo <= j < i ==> is_hex_digit(#[trigger] s@[j]),
        decreases hi - i,
    {
        let c = s.get_char(i);
        if !is_hex_digit_char(c) {
            proof {
                assert(piece[i - lo] == s@[i as int]);
            }
            return false;
        }
        i += 1;
    }
    proof {
        assert forall|j: int| 0 <= j < piece.len() implies is_hex_digit(#[trigger] piece[j]) by {
            assert(piece[j] == s@[lo + j]);
        }
    }
    true
}

/// Checks a candidate against the address grammar: the suffix ":/64", four
/// non-empty colon-separated groups of hex digits before it, and the "fd"
/// marker opening the first group. Returns true exactly on the strings that
/// satisfy `valid_address`, and false on every other input.
pub fn is_valid_private_ipv6(ipv6_str: &str) -> (r: bool)
    ensures
        r == valid_address(ipv6_str@),
{
    let ghost s = ipv6_str@;
    let n = ipv6_str.unicode_len();
    if n < 4 {
        return false;
    }
    let c1 = ipv6_str.get_char(n - 4);
    let c2 = ipv6_str.get_char(n - 3);
    let c3 = ipv6_str.get_char(n - 2);
    let c4 = ipv6_str.get_char(n - 1);
    if !(c1 == ':' && c2 == '/' && c3 == '6' && c4 == '4') {
        proof {
            let tail = s.subrange(s.len() - 4, s.len() as int);
            assert(tail[0] == c1 && tail[1] == c2 && tail[2] == c3 && tail[3] == c4);
            assert(cidr_suffix()[0] == ':' && cidr_suffix()[1] == '/' && cidr_suffix()[2] == '6'
                && cidr_suffix()[3] == '4');
        }
        return false;
    }
    let m = n - 4;
    let ghost body = s.subrange(0, s.len() - 4);
    let mut pos: Vec<usize> = Vec::new();
    let mut i: usize = 0;
    while i < m
        invariant
            s == ipv6_str@,
            s.len() == n,
            4 <= n,
            m == n - 4,
            i <= m,
            pos@.len() == count_colons(s.subrange(0, i as int)),
            forall|k: int| 0 <= k < pos@.len() ==> #[trigger] pos@[k] < i,
            forall|k: int| 0 <= k < pos@.len() ==> s[#[trigger] pos@[k] as int] == ':',
            forall|k1: int, k2: int| 0 <= k1 < k2 < pos@.len() ==> pos@[k1] < pos@[k2],
            forall|j: int|
                0 <= j < i && s[j] == ':' ==> exists|k: int|
                    0 <= k < pos@.len() && #[trigger] pos@[k] == j,
        decreases m - i,
    {
        let c = ipv6_str.get_char(i);
        let ghost pos0 = pos@;
        proof {
            assert(s.subrange(0, i + 1) =~= s.subrange(0, i as int).push(s[i as int]));
            lemma_count_colons_push(s.subrange(0, i as int), s[i as int]);
        }
        if c == ':' {
            pos.push(i);
            proof {
                assert forall|j: int| 0 <= j < i + 1 && s[j] == ':' implies exists|k: int|
                    0 <= k < pos@.len() && #[trigger] pos@[k] == j by {
                    if j == i {
                        assert(pos@[pos@.len() - 1] == i);
                    } else {
                        let k = choose|k: int| 0 <= k < pos0.len() && pos0[k] == j;
                        assert(pos@[k] == j);
                    }
                }
            }
        }
        i += 1;
    }
    proof {
        assert(s.subrange(0, m as int) == body);
    }
    if pos.len() != 3 {
        proof {
            lemma_split_colon_len(body);
        }
        return false;
    }
    let p1 = pos[0];
    let p2 = pos[1];
    let p3 = pos[2];
    proof {
        assert(p1 < p2 < p3 < m);
        assert(s[p1 as int] == ':' && s[p2 as int] == ':' && s[p3 as int] == ':');
    }
    let ghost ga = body.subrange(0, p1 as int);
    let ghost gb = body.subrange(p1 + 1, p2 as int);
    let ghost gc = body.subrange(p2 + 1, p3 as int);
    let ghost gd = body.subrange(p3 + 1, m as int);
    proof {
        assert forall|j: int| 0 <= j < m && s[j] == ':' implies j == p1 || j == p2 || j == p3 by {
            let k = choose|k: int| 0 <= k < pos@.len() && pos@[k] == j;
            assert(k == 0 || k == 1 || k == 2);
        }
        assert(count_colons(ga) == 0) by {
            lemma_count_colons_zero(ga);
            assert forall|j: int| 0 <= j < ga.len() implies #[trigger] ga[j] != ':' by {
                assert(ga[j] == s[j]);
            }
        }
        assert(count_colons(gb) == 0) by {
            lemma_count_colons_zero(gb);
            assert forall|j: int| 0 <= j < gb.len() implies #[trigger] gb[j] != ':' by {
                assert(gb[j] == s[p1 + 1 + j]);
            }
        }
        assert(count_colons(gc) == 0) by {
            lemma_count_colons_zero(gc);
            assert forall|j: int| 0 <= j < gc.len() implies #[trigger] gc[j] != ':' by {
                assert(gc[j] == s[p2 + 1 + j]);
            }
        }
        assert(count_colons(gd) == 0) by {
            lemma_count_colons_zero(gd);
            assert forall|j: int| 0 <= j < gd.len() implies #[trigger] gd[j] != ':' by {
                assert(gd[j] == s[p3 + 1 + j]);
            }
        }
        let t2 = gc + seq![':'] + gd;
        let t1 = gb + seq![':'] + t2;
        assert(body =~= ga + seq![':'] + t1);
        lemma_split_colon_prepend(ga, t1);
        lemma_split_colon_prepend(gb, t2);
        lemma_split_colon_prepend(gc, gd);
        lemma_split_colon_whole(gd);
        assert(split_colon(body) =~= seq![ga, gb, gc, gd]);
    }
    let ghost groups = split_colon(body);
    if p1 < 2 {
        proof {
            assert(groups[0].len() < 2);
        }
        return false;
    }
    if !(ipv6_str.get_char(0) == 'f' && ipv6_str.get_char(1) == 'd') {
        proof {
            assert(groups[0][0] == s[0] && groups[0][1] == s[1]);
        }
        return false;
    }
    if p2 - p1 < 2 || p3 - p2 < 2 || m - p3 < 2 {
        proof {
            assert(groups[1].len() == p2 - p1 - 1);
            assert(groups[2].len() == p3 - p2 - 1);
            assert(groups[3].len() == m - p3 - 1);
        }
        return false;
    }
    let ok = all_hex_in(ipv6_str, 0, p1) && all_hex_in(ipv6_str, p1 + 1, p2) && all_hex_in(
        ipv6_str,
        p2 + 1,
        p3,
    ) && all_hex_in(ipv6_str, p3 + 1, m);
    proof {
        assert(s.subrange(0, p1 as int) =~= ga);
        assert(s.subrange(p1 + 1, p2 as int) =~= gb);
        assert(s.subrange(p2 + 1, p3 as int) =~= gc);
        assert(s.subrange(p3 + 1, m as int) =~= gd);
    }
    if !ok {
        return false;
    }
    proof {
        assert(s.subrange(s.len() - 4, s.len() as int) =~= cidr_suffix());
        assert forall|k: int| 0 <= k < 4 implies (#[trigger] groups[k]).len() > 0 && is_hex_seq(
            groups[k],
        ) by {
            if k == 0 {
            } else if k == 1 {
            } else if k == 2 {
            } else {
            }
        }
        assert(groups[0].len() >= 2 && groups[0][0] == 'f' && groups[0][1] == 'd');
    }
    true
}

} // verus!
