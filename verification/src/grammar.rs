//! The address grammar: four colon-separated hexadecimal groups, the first
//! carrying the `fd` marker, closed by the `:/64` suffix. The validator and
//! the builder both answer to the predicates here.

use vstd::prelude::*;
use crate::hex::{is_hex_digit, is_hex_seq, hex_rep, hex_rep_byte, hex_val,
    lemma_hex_rep_round_trip, lemma_hex_rep_byte_round_trip};

verus! {

/// The fixed CIDR suffix `:/64`.
pub open spec fn cidr_suffix() -> Seq<char> {
    seq![':', '/', '6', '4']
}

/// Splits `s` on ':' the way the validator walks it: one piece more than
/// there are colons, empty pieces kept.
pub open spec fn split_colon(s: Seq<char>) -> Seq<Seq<char>>
    decreases s.len(),
{
    if s.len() == 0 {
        seq![Seq::<char>::empty()]
    } else if s[0] == ':' {
        seq![Seq::<char>::empty()] + split_colon(s.drop_first())
    } else {
        let rest = split_colon(s.drop_first());
        seq![seq![s[0]] + rest[0]] + rest.drop_first()
    }
}

/// The number of ':' characters in `s`.
pub open spec fn count_colons(s: Seq<char>) -> nat
    decreases s.len(),
{
    if s.len() == 0 {
        0
    } else {
        (if s[0] == ':' {
            1nat
        } else {
            0nat
        }) + count_colons(s.drop_first())
    }
}

/// A string is a valid private address exactly when it ends with the
/// suffix `:/64` and what precedes the suffix splits on ':' into four
/// non-empty groups of hexadecimal digits, the first starting with "fd".
pub open spec fn valid_address(s: Seq<char>) -> bool {
    &&& s.len() >= 4
    &&& s.subrange(s.len() - 4, s.len() as int) == cidr_suffix()
    &&& {
        let groups = split_colon(s.subrange(0, s.len() - 4));
        &&& groups.len() == 4
        &&& (forall|i: int| 0 <= i < 4 ==> (#[trigger] groups[i]).len() > 0)
        &&& (forall|i: int| 0 <= i < 4 ==> is_hex_seq(#[trigger] groups[i]))
        &&& groups[0].len() >= 2
        &&& groups[0][0] == 'f'
        &&& groups[0][1] == 'd'
    }
}

/// The address text assembled from a first byte and three group values:
/// "fd", the zero-padded byte, then the three compact groups, colon-joined,
/// with the suffix appended.
pub open spec fn address_chars(b: int, g2: int, g3: int, g4: int) -> Seq<char> {
    seq!['f', 'd'] + hex_rep_byte(b) + seq![':'] + hex_rep(g2) + seq![':'] + hex_rep(g3)
        + seq![':'] + hex_rep(g4) + cidr_suffix()
}

/// A split always yields one piece more than there are colons.
pub proof fn lemma_split_colon_len(s: Seq<char>)
    ensures
        split_colon(s).len() == count_colons(s) + 1,
    decreases s.len(),
{
    if s.len() > 0 {
        lemma_split_colon_len(s.drop_first());
    }
}

/// A string has no colons exactly when none of its characters is ':'.
pub proof fn lemma_count_colons_zero(s: Seq<char>)
    ensures
        (count_colons(s) == 0) <==> (forall|i: int| 0 <= i < s.len() ==> #[trigger] s[i] != ':'),
    decreases s.len(),
{
    if s.len() > 0 {
        lemma_count_colons_zero(s.drop_first());
        assert(forall|i: int| 1 <= i < s.len() ==> #[trigger] s[i] == s.drop_first()[i - 1]);
    }
}

/// Appending one character raises the colon count exactly when it is ':'.
pub proof fn lemma_count_colons_push(s: Seq<char>, c: char)
    ensures
        count_colons(s.push(c)) == count_colons(s) + (if c == ':' {
            1nat
        } else {
            0nat
        }),
    decreases s.len(),
{
    if s.len() == 0 {
        assert(s.push(c).drop_first() =~= Seq::<char>::empty());
        assert(s.push(c)[0] == c);
        assert(count_colons(Seq::<char>::empty()) == 0);
    } else {
        lemma_count_colons_push(s.drop_first(), c);
        assert(s.push(c).drop_first() =~= s.drop_first().push(c));
        assert(s.push(c)[0] == s[0]);
    }
}

/// A colon-free string splits into the single piece that is the string itself.
pub proof fn lemma_split_colon_whole(s: Seq<char>)
    requires
        count_colons(s) == 0,
    ensures
        split_colon(s) == seq![s],
    decreases s.len(),
{
    if s.len() == 0 {
        assert(s =~= Seq::<char>::empty());
        assert(split_colon(s) =~= seq![s]);
    } else {
        lemma_split_colon_whole(s.drop_first());
        assert(s[0] != ':');
        let rest = split_colon(s.drop_first());
        assert(rest == seq![s.drop_first()]);
        assert(rest[0] == s.drop_first());
        assert(seq![s[0]] + s.drop_first() =~= s);
        assert(rest.drop_first() =~= Seq::<Seq<char>>::empty());
        assert(split_colon(s) == seq![seq![s[0]] + rest[0]] + rest.drop_first());
        assert(split_colon(s) =~= seq![s]);
    }
}

/// Splitting a colon-free piece, a colon, and a remainder yields that piece
/// followed by the split of the remainder.
pub proof fn lemma_split_colon_prepend(a: Seq<char>, t: Seq<char>)
    requires
        count_colons(a) == 0,
    ensures
        split_colon(a + seq![':'] + t) == seq![a] + split_colon(t),
    decreases a.len(),
{
    let s = a + seq![':'] + t;
    if a.len() == 0 {
        assert(s[0] == ':');
        assert(s.drop_first() =~= t);
        assert(Seq::<char>::empty() =~= a);
        assert(split_colon(s) =~= seq![a] + split_colon(t));
    } else {
        lemma_split_colon_prepend(a.drop_first(), t);
        assert(s[0] == a[0]);
        assert(s[0] != ':');
        assert(s.drop_first() =~= a.drop_first() + seq![':'] + t);
        let rest = split_colon(s.drop_first());
        assert(rest == seq![a.drop_first()] + split_colon(t));
        assert(rest[0] == a.drop_first());
        assert(seq![s[0]] + rest[0] =~= a);
        assert(rest.drop_first() =~= split_colon(t));
        assert(split_colon(s) =~= seq![a] + split_colon(t));
    }
}

/// The groups of a built address are exactly the rendered inputs: splitting
/// the part before the suffix recovers "fd" plus the padded byte, then the
/// three compact groups, and reading each back in base 16 yields the value
/// it was built from.
pub proof fn lemma_address_chars_groups(b: int, g2: int, g3: int, g4: int)
    requires
        0 <= b < 256,
        0 <= g2 < 65536,
        0 <= g3 < 65536,
        0 <= g4 < 65536,
    ensures
        ({
            let s = address_chars(b, g2, g3, g4);
            let first = seq!['f', 'd'] + hex_rep_byte(b);
            &&& s.len() >= 4
            &&& s.subrange(s.len() - 4, s.len() as int) == cidr_suffix()
            &&& split_colon(s.subrange(0, s.len() - 4)) == seq![first, hex_rep(g2), hex_rep(
                g3,
            ), hex_rep(g4)]
            &&& hex_val(first.subrange(2, first.len() as int)) == b
            &&& hex_val(hex_rep(g2)) == g2
            &&& hex_val(hex_rep(g3)) == g3
            &&& hex_val(hex_rep(g4)) == g4
        }),
{
    lemma_hex_rep_byte_round_trip(b);
    lemma_hex_rep_round_trip(g2);
    lemma_hex_rep_round_trip(g3);
    lemma_hex_rep_round_trip(g4);
    let s = address_chars(b, g2, g3, g4);
    let first = seq!['f', 'd'] + hex_rep_byte(b);
    let r2 = hex_rep(g2);
    let r3 = hex_rep(g3);
    let r4 = hex_rep(g4);
    let body = s.subrange(0, s.len() - 4);
    assert(s.subrange(s.len() - 4, s.len() as int) =~= cidr_suffix());
    assert(first.subrange(2, first.len() as int) =~= hex_rep_byte(b));

    assert(is_hex_digit('f') && is_hex_digit('d'));
    assert(is_hex_seq(first));
    assert(count_colons(first) == 0) by {
        lemma_count_colons_zero(first);
        assert(forall|i: int| 0 <= i < first.len() ==> #[trigger] first[i] != ':') by {
            assert(forall|i: int| 0 <= i < first.len() ==> is_hex_digit(#[trigger] first[i]));
        }
    }
    assert(count_colons(r2) == 0) by {
        lemma_count_colons_zero(r2);
    }
    assert(count_colons(r3) == 0) by {
        lemma_count_colons_zero(r3);
    }
    assert(count_colons(r4) == 0) by {
        lemma_count_colons_zero(r4);
    }

    let t2 = r3 + seq![':'] + r4;
    let t1 = r2 + seq![':'] + t2;
    assert(body =~= first + seq![':'] + t1);
    lemma_split_colon_prepend(first, t1);
    assert(t1 == r2 + seq![':'] + t2);
    lemma_split_colon_prepend(r2, t2);
    lemma_split_colon_prepend(r3, r4);
    lemma_split_colon_whole(r4);
    assert(split_colon(body) =~= seq![first, r2, r3, r4]);
}

/// Every address the builder can assemble satisfies the grammar: it is
/// valid, starts with the marker "fd", and ends with the suffix ":/64".
#[verifier::rlimit(50)]
pub proof fn lemma_address_chars_valid(b: int, g2: int, g3: int, g4: int)
    requires
        0 <= b < 256,
        0 <= g2 < 65536,
        0 <= g3 < 65536,
        0 <= g4 < 65536,
    ensures
        valid_address(address_chars(b, g2, g3, g4)),
        address_chars(b, g2, g3, g4)[0] == 'f',
        address_chars(b, g2, g3, g4)[1] == 'd',
{
    lemma_address_chars_groups(b, g2, g3, g4);
    lemma_hex_rep_byte_round_trip(b);
    lemma_hex_rep_round_trip(g2);
    lemma_hex_rep_round_trip(g3);
    lemma_hex_rep_round_trip(g4);
    let s = address_chars(b, g2, g3, g4);
    let first = seq!['f', 'd'] + hex_rep_byte(b);
    let groups = split_colon(s.subrange(0, s.len() - 4));
    assert(groups == seq![first, hex_rep(g2), hex_rep(g3), hex_rep(g4)]);
    assert(groups[0] == first && groups[1] == hex_rep(g2) && groups[2] == hex_rep(g3) && groups[3]
        == hex_rep(g4));
    assert(first[0] == 'f' && first[1] == 'd');
    assert(is_hex_seq(first)) by {
        assert forall|i: int| 0 <= i < first.len() implies is_hex_digit(#[trigger] first[i]) by {
            if i >= 2 {
                assert(first[i] == hex_rep_byte(b)[i - 2]);
            }
        }
    }
    assert forall|i: int| 0 <= i < 4 implies (#[trigger] groups[i]).len() > 0 && is_hex_seq(
        groups[i],
    ) by {
        if i == 0 {
        } else if i == 1 {
        } else if i == 2 {
        } else {
        }
    }
    assert(s[0] == 'f');
    assert(s[1] == 'd');
}

} // verus!
