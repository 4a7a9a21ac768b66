//! Generation: a bounded random draw rendered as compact hexadecimal text,
//! and the assembly of a full private address from a first byte and three
//! group values, randomized or explicit.

use vstd::prelude::*;
use rand::RngExt;
use crate::hex::{hex_rep, hex_val, is_hex_seq, hex_text, hex_text_byte, lemma_hex_rep_round_trip};
use crate::grammar::{address_chars, cidr_suffix, valid_address, lemma_address_chars_valid};

verus! {

/// Relies on rand::rng and rand::RngExt::random_range over the inclusive
/// range 0..=max: the sampled value lies within the range. The range is
/// never empty, so the draw itself cannot panic; rand::rng panics only if
/// the operating system's random source fails, a fatal condition by design.
#[verifier::external_body]
fn random_up_to(max: u16) -> (r: u16)
    ensures
        r <= max,
{
    rand::rng().random_range(0..=max)
}

/// Draws a random value in [0, max] and renders it as compact lowercase
/// hexadecimal text: some rendering of a value within the bound comes back,
/// it reads back in base 16 to a value at most `max`, and the bound 0
/// forces the single digit "0".
pub fn generate_hex(max: u16) -> (r: String)
    ensures
        exists|v: int| 0 <= v <= max && r@ == hex_rep(v),
        is_hex_seq(r@),
        r@.len() >= 1,
        hex_val(r@) <= max,
        max == 0 ==> r@ == seq!['0'],
{
    let v = random_up_to(max);
    let r = hex_text(v);
    proof {
        lemma_hex_rep_round_trip(v as int);
        assert(0 <= v as int <= max && r@ == hex_rep(v as int));
        if max == 0 {
            assert(hex_rep(0) =~= seq!['0']);
        }
    }
    r
}

/// Assembles the address text from explicit values: the marker "fd", the
/// zero-padded byte, then the three compact groups, colon-joined, with the
/// suffix ":/64" appended. The result is exactly `address_chars` of the
/// inputs, and therefore a valid address.
pub fn generate_private_ipv6_with_values(first_byte: u8, group2: u16, group3: u16, group4: u16) -> (r:
    String)
    ensures
        r@ == address_chars(first_byte as int, group2 as int, group3 as int, group4 as int),
        valid_address(r@),
{
    let mut s = String::from_str("fd");
    let byte_hex = hex_text_byte(first_byte);
    s.append(byte_hex.as_str());
    s.append(":");
    let g2 = hex_text(group2);
    s.append(g2.as_str());
    s.append(":");
    let g3 = hex_text(group3);
    s.append(g3.as_str());
    s.append(":");
    let g4 = hex_text(group4);
    s.append(g4.as_str());
    s.append(":/64");
    proof {
        reveal_strlit("fd");
        reveal_strlit(":");
        reveal_strlit(":/64");
        assert(s@ =~= address_chars(
            first_byte as int,
            group2 as int,
            group3 as int,
            group4 as int,
        ));
        lemma_address_chars_valid(first_byte as int, group2 as int, group3 as int, group4 as int);
    }
    s
}

/// Generates a random private address: a random byte behind the "fd"
/// marker and three random 16-bit groups, assembled exactly as the
/// explicit builder does. Whatever was drawn, the result is a built
/// address: it is valid, starts with "fd" and ends with ":/64".
pub fn generate_private_ipv6() -> (r: String)
    ensures
        exists|b: int, g2: int, g3: int, g4: int|
            0 <= b < 256 && 0 <= g2 < 65536 && 0 <= g3 < 65536 && 0 <= g4 < 65536 && r@
                == address_chars(b, g2, g3, g4),
        valid_address(r@),
        r@.len() >= 4,
        r@[0] == 'f' && r@[1] == 'd',
        r@.subrange(r@.len() - 4, r@.len() as int) == cidr_suffix(),
{
    let b = random_up_to(255);
    let g2 = random_up_to(65535);
    let g3 = random_up_to(65535);
    let g4 = random_up_to(65535);
    let r = generate_private_ipv6_with_values(b as u8, g2, g3, g4);
    proof {
        assert((b as u8) as int == b as int);
        assert(((b as u8) as int) < 256 && (g2 as int) < 65536 && (g3 as int) < 65536 && (
        g4 as int) < 65536 && r@ == address_chars((b as u8) as int, g2 as int, g3 as int, g4 as int));
        lemma_address_chars_valid((b as u8) as int, g2 as int, g3 as int, g4 as int);
    }
    r
}

} // verus!
