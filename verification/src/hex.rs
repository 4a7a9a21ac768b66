//! Hexadecimal text: the spec-level rendering and parsing of unsigned
//! values in base 16, and verified string builders for the compact and
//! the two-digit zero-padded forms.

use vstd::prelude::*;

verus! {

/// The lowercase hexadecimal digit character for a value in [0, 16).
pub open spec fn hex_digit_char(d: int) -> char {
    if d == 0 {
        '0'
    } else if d == 1 {
        '1'
    } else if d == 2 {
        '2'
    } else if d == 3 {
        '3'
    } else if d == 4 {
        '4'
    } else if d == 5 {
        '5'
    } else if d == 6 {
        '6'
    } else if d == 7 {
        '7'
    } else if d == 8 {
        '8'
    } else if d == 9 {
        '9'
    } else if d == 10 {
        'a'
    } else if d == 11 {
        'b'
    } else if d == 12 {
        'c'
    } else if d == 13 {
        'd'
    } else if d == 14 {
        'e'
    } else {
        'f'
    }
}

/// The numeric value of an ASCII hexadecimal digit (either case);
/// -1 for every other character.
pub open spec fn hex_char_val(c: char) -> int {
    if c == '0' {
        0
    } else if c == '1' {
        1
    } else if c == '2' {
        2
    } else if c == '3' {
        3
    } else if c == '4' {
        4
    } else if c == '5' {
        5
    } else if c == '6' {
        6
    } else if c == '7' {
        7
    } else if c == '8' {
        8
    } else if c == '9' {
        9
    } else if c == 'a' || c == 'A' {
        10
    } else if c == 'b' || c == 'B' {
        11
    } else if c == 'c' || c == 'C' {
        12
    } else if c == 'd' || c == 'D' {
        13
    } else if c == 'e' || c == 'E' {
        14
    } else if c == 'f' || c == 'F' {
        15
    } else {
        -1
    }
}

/// An ASCII hexadecimal digit: 0-9, a-f or A-F.
pub open spec fn is_hex_digit(c: char) -> bool {
    hex_char_val(c) >= 0
}

/// Every character of the string is an ASCII hexadecimal digit.
pub open spec fn is_hex_seq(s: Seq<char>) -> bool {
    forall|i: int| 0 <= i < s.len() ==> is_hex_digit(#[trigger] s[i])
}

/// Compact lowercase hexadecimal rendering: no leading zeros, no prefix;
/// the single digit 0 for the value zero.
pub open spec fn hex_rep(v: int) -> Seq<char>
    recommends
        0 <= v,
    decreases v,
{
    if v < 16 {
        seq![hex_digit_char(v)]
    } else {
        hex_rep(v / 16).push(hex_digit_char(v % 16))
    }
}

/// Two-digit zero-padded lowercase hexadecimal rendering of a byte value.
pub open spec fn hex_rep_byte(v: int) -> Seq<char>
    recommends
        0 <= v < 256,
{
    if v < 16 {
        seq!['0', hex_digit_char(v)]
    } else {
        hex_rep(v)
    }
}

/// The value of a string of hexadecimal digits, read in base 16.
pub open spec fn hex_val(s: Seq<char>) -> int
    recommends
        is_hex_seq(s),
    decreases s.len(),
{
    if s.len() == 0 {
        0
    } else {
        16 * hex_val(s.drop_last()) + hex_char_val(s.last())
    }
}

/// Rendering a value in base 16 and reading the digits back recovers the
/// value exactly; the rendering is non-empty and made of hex digits only.
pub proof fn lemma_hex_rep_round_trip(v: int)
    requires
        0 <= v,
    ensures
        hex_val(hex_rep(v)) == v,
        hex_rep(v).len() >= 1,
        is_hex_seq(hex_rep(v)),
    decreases v,
{
    if v < 16 {
        let s = seq![hex_digit_char(v)];
        assert(s.drop_last() =~= Seq::<char>::empty());
        assert(hex_val(s) == hex_char_val(hex_digit_char(v))) by {
            reveal_with_fuel(hex_val, 2);
        }
    } else {
        lemma_hex_rep_round_trip(v / 16);
        let s = hex_rep(v / 16).push(hex_digit_char(v % 16));
        assert(s.drop_last() =~= hex_rep(v / 16));
        assert(hex_val(s) == 16 * (v / 16) + (v % 16));
    }
}

/// The zero-padded byte rendering also reads back to the value it renders,
/// and is exactly two hex digits long.
pub proof fn lemma_hex_rep_byte_round_trip(v: int)
    requires
        0 <= v < 256,
    ensures
        hex_val(hex_rep_byte(v)) == v,
        hex_rep_byte(v).len() == 2,
        is_hex_seq(hex_rep_byte(v)),
{
    if v < 16 {
        let s = seq!['0', hex_digit_char(v)];
        assert(s.drop_last() =~= seq!['0']);
        assert(seq!['0'].drop_last() =~= Seq::<char>::empty());
        assert(hex_val(seq!['0']) == 0) by {
            reveal_with_fuel(hex_val, 2);
        }
    } else {
        lemma_hex_rep_round_trip(v);
        lemma_hex_rep_round_trip(v / 16);
    }
}

/// Appends the lowercase hexadecimal digit for `d` to `s`.
fn push_hex_digit(s: &mut String, d: u16)
    requires
        d < 16,
    ensures
        final(s)@ == old(s)@ + seq![hex_digit_char(d as int)],
{
    let piece: &str = if d == 0 {
        "0"
    } else if d == 1 {
        "1"
    } else if d == 2 {
        "2"
    } else if d == 3 {
        "3"
    } else if d == 4 {
        "4"
    } else if d == 5 {
        "5"
    } else if d == 6 {
        "6"
    } else if d == 7 {
        "7"
    } else if d == 8 {
        "8"
    } else if d == 9 {
        "9"
    } else if d == 10 {
        "a"
    } else if d == 11 {
        "b"
    } else if d == 12 {
        "c"
    } else if d == 13 {
        "d"
    } else if d == 14 {
        "e"
    } else {
        "f"
    };
    proof {
        reveal_strlit("0");
        reveal_strlit("1");
        reveal_strlit("2");
        reveal_strlit("3");
        reveal_strlit("4");
        reveal_strlit("5");
        reveal_strlit("6");
        reveal_strlit("7");
        reveal_strlit("8");
        reveal_strlit("9");
        reveal_strlit("a");
        reveal_strlit("b");
        reveal_strlit("c");
        reveal_strlit("d");
        reveal_strlit("e");
        reveal_strlit("f");
        assert(piece@ =~= seq![hex_digit_char(d as int)]);
    }
    s.append(piece);
}

/// Appends the compact hexadecimal rendering of `v` to `s`.
fn push_hex(s: &mut String, v: u16)
    ensures
        final(s)@ == old(s)@ + hex_rep(v as int),
    decreases v,
{
    if v < 16 {
        push_hex_digit(s, v);
    } else {
        push_hex(s, v / 16);
        push_hex_digit(s, v % 16);
        proof {
            assert(old(s)@ + hex_rep((v / 16) as int) + seq![hex_digit_char((v % 16) as int)]
                =~= old(s)@ + hex_rep(v as int));
        }
    }
}

/// Renders `v` as compact lowercase hexadecimal text.
pub fn hex_text(v: u16) -> (r: String)
    ensures
        r@ == hex_rep(v as int),
{
    let mut s = String::new();
    push_hex(&mut s, v);
    proof {
        assert(s@ =~= hex_rep(v as int));
    }
    s
}

/// Renders `b` as exactly two lowercase hexadecimal digits, zero-padded.
pub fn hex_text_byte(b: u8) -> (r: String)
    ensures
        r@ == hex_rep_byte(b as int),
{
    let mut s = String::new();
    if b < 16 {
        proof {
            reveal_strlit("0");
        }
        s.append("0");
        push_hex_digit(&mut s, b as u16);
        proof {
            assert(s@ =~= hex_rep_byte(b as int));
        }
    } else {
        push_hex(&mut s, b as u16);
        proof {
            assert(s@ =~= hex_rep_byte(b as int));
        }
    }
    s
}

} // verus!
