//! Sensor hardware addresses: a fixed-size six-byte link-layer address,
//! its colon-separated hexadecimal string form, and the node id derived
//! from it by stripping the separators.

use vstd::prelude::*;
use vstd::string::*;

use crate::text::{
    append_hex_byte, hex_value, spec_hex_byte, spec_hex_digit, spec_hex_value, spec_is_hex_digit,
};

verus! {

/// A six-byte link-layer hardware address, in the order in which its
/// bytes appear in the usual colon-separated string form.
#[derive(Clone, Copy, PartialEq, Eq, Structural, Hash, Debug)]
pub struct SensorAddress {
    pub b0: u8,
    pub b1: u8,
    pub b2: u8,
    pub b3: u8,
    pub b4: u8,
    pub b5: u8,
}

impl SensorAddress {
    /// The six bytes, most significant (leftmost in the string form) first.
    pub open spec fn bytes(self) -> Seq<u8> {
        seq![self.b0, self.b1, self.b2, self.b3, self.b4, self.b5]
    }

    pub fn new(b0: u8, b1: u8, b2: u8, b3: u8, b4: u8, b5: u8) -> (r: SensorAddress)
        ensures
            r == (SensorAddress { b0, b1, b2, b3, b4, b5 }),
    {
        SensorAddress { b0, b1, b2, b3, b4, b5 }
    }
}

/// The colon-separated uppercase hexadecimal string form of an address,
/// for example "A4:C1:38:01:02:03".
pub open spec fn spec_address_chars(a: SensorAddress) -> Seq<char> {
    spec_hex_byte(a.b0 as int) + seq![':'] + spec_hex_byte(a.b1 as int) + seq![':']
        + spec_hex_byte(a.b2 as int) + seq![':'] + spec_hex_byte(a.b3 as int) + seq![':']
        + spec_hex_byte(a.b4 as int) + seq![':'] + spec_hex_byte(a.b5 as int)
}

/// The node id derived from an address: its hexadecimal string form with
/// the separator characters stripped.
pub open spec fn spec_node_id_chars(a: SensorAddress) -> Seq<char> {
    spec_hex_byte(a.b0 as int) + spec_hex_byte(a.b1 as int) + spec_hex_byte(a.b2 as int)
        + spec_hex_byte(a.b3 as int) + spec_hex_byte(a.b4 as int) + spec_hex_byte(a.b5 as int)
}

impl SensorAddress {
    /// The colon-separated uppercase hexadecimal string form.
    pub fn to_address_string(&self) -> (r: String)
        ensures
            r@ == spec_address_chars(*self),
    {
        let mut s = String::new();
        let colon = ":";
        proof {
            reveal_strlit(":");
            assert(colon@ =~= seq![':']);
        }
        append_hex_byte(&mut s, self.b0);
        s.append(colon);
        append_hex_byte(&mut s, self.b1);
        s.append(colon);
        append_hex_byte(&mut s, self.b2);
        s.append(colon);
        append_hex_byte(&mut s, self.b3);
        s.append(colon);
        append_hex_byte(&mut s, self.b4);
        s.append(colon);
        append_hex_byte(&mut s, self.b5);
        proof {
            assert(s@ =~= spec_address_chars(*self));
        }
        s
    }

    /// The node id form: hexadecimal digits only, no separators.
    pub fn to_node_id_string(&self) -> (r: String)
        ensures
            r@ == spec_node_id_chars(*self),
    {
        let mut s = String::new();
        append_hex_byte(&mut s, self.b0);
        append_hex_byte(&mut s, self.b1);
        append_hex_byte(&mut s, self.b2);
        append_hex_byte(&mut s, self.b3);
        append_hex_byte(&mut s, self.b4);
        append_hex_byte(&mut s, self.b5);
        proof {
            assert(s@ =~= spec_node_id_chars(*self));
        }
        s
    }
}

/// Hexadecimal digits are pairwise distinct characters.
proof fn lemma_hex_digit_injective(x: int, y: int)
    requires
        0 <= x < 16,
        0 <= y < 16,
        spec_hex_digit(x) == spec_hex_digit(y),
    ensures
        x == y,
{
}

/// Distinct addresses have distinct node ids: the hexadecimal form of
/// the six bytes determines them.
pub proof fn lemma_node_id_injective(a: SensorAddress, b: SensorAddress)
    requires
        spec_node_id_chars(a) == spec_node_id_chars(b),
    ensures
        a == b,
{
    let sa = spec_node_id_chars(a);
    let sb = spec_node_id_chars(b);
    assert(sa =~= seq![
        spec_hex_digit(a.b0 as int / 16),
        spec_hex_digit(a.b0 as int % 16),
        spec_hex_digit(a.b1 as int / 16),
        spec_hex_digit(a.b1 as int % 16),
        spec_hex_digit(a.b2 as int / 16),
        spec_hex_digit(a.b2 as int % 16),
        spec_hex_digit(a.b3 as int / 16),
        spec_hex_digit(a.b3 as int % 16),
        spec_hex_digit(a.b4 as int / 16),
        spec_hex_digit(a.b4 as int % 16),
        spec_hex_digit(a.b5 as int / 16),
        spec_hex_digit(a.b5 as int % 16),
    ]);
    assert(sb =~= seq![
        spec_hex_digit(b.b0 as int / 16),
        spec_hex_digit(b.b0 as int % 16),
        spec_hex_digit(b.b1 as int / 16),
        spec_hex_digit(b.b1 as int % 16),
        spec_hex_digit(b.b2 as int / 16),
        spec_hex_digit(b.b2 as int % 16),
        spec_hex_digit(b.b3 as int / 16),
        spec_hex_digit(b.b3 as int % 16),
        spec_hex_digit(b.b4 as int / 16),
        spec_hex_digit(b.b4 as int % 16),
        spec_hex_digit(b.b5 as int / 16),
        spec_hex_digit(b.b5 as int % 16),
    ]);
    lemma_hex_digit_injective(a.b0 as int / 16, b.b0 as int / 16);
    lemma_hex_digit_injective(a.b0 as int % 16, b.b0 as int % 16);
    lemma_hex_digit_injective(a.b1 as int / 16, b.b1 as int / 16);
    lemma_hex_digit_injective(a.b1 as int % 16, b.b1 as int % 16);
    lemma_hex_digit_injective(a.b2 as int / 16, b.b2 as int / 16);
    lemma_hex_digit_injective(a.b2 as int % 16, b.b2 as int % 16);
    lemma_hex_digit_injective(a.b3 as int / 16, b.b3 as int / 16);
    lemma_hex_digit_injective(a.b3 as int % 16, b.b3 as int % 16);
    lemma_hex_digit_injective(a.b4 as int / 16, b.b4 as int / 16);
    lemma_hex_digit_injective(a.b4 as int % 16, b.b4 as int % 16);
    lemma_hex_digit_injective(a.b5 as int / 16, b.b5 as int / 16);
    lemma_hex_digit_injective(a.b5 as int % 16, b.b5 as int % 16);
}

/// Whether `s` is a well-formed address string: seventeen characters,
/// colons at the five separator positions, hexadecimal digits (of either
/// letter case) everywhere else.
pub open spec fn spec_valid_address_chars(s: Seq<char>) -> bool {
    &&& s.len() == 17
    &&& s[2] == ':'
    &&& s[5] == ':'
    &&& s[8] == ':'
    &&& s[11] == ':'
    &&& s[14] == ':'
    &&& spec_is_hex_digit(s[0])
    &&& spec_is_hex_digit(s[1])
    &&& spec_is_hex_digit(s[3])
    &&& spec_is_hex_digit(s[4])
    &&& spec_is_hex_digit(s[6])
    &&& spec_is_hex_digit(s[7])
    &&& spec_is_hex_digit(s[9])
    &&& spec_is_hex_digit(s[10])
    &&& spec_is_hex_digit(s[12])
    &&& spec_is_hex_digit(s[13])
    &&& spec_is_hex_digit(s[15])
    &&& spec_is_hex_digit(s[16])
}

/// The address denoted by a well-formed address string.
pub open spec fn spec_address_of_chars(s: Seq<char>) -> SensorAddress
    recommends
        spec_valid_address_chars(s),
{
    SensorAddress {
        b0: (spec_hex_value(s[0]) * 16 + spec_hex_value(s[1])) as u8,
        b1: (spec_hex_value(s[3]) * 16 + spec_hex_value(s[4])) as u8,
        b2: (spec_hex_value(s[6]) * 16 + spec_hex_value(s[7])) as u8,
        b3: (spec_hex_value(s[9]) * 16 + spec_hex_value(s[10])) as u8,
        b4: (spec_hex_value(s[12]) * 16 + spec_hex_value(s[13])) as u8,
        b5: (spec_hex_value(s[15]) * 16 + spec_hex_value(s[16])) as u8,
    }
}

fn parse_hex_pair(s: &str, i: usize) -> (r: Option<u8>)
    requires
        i + 2 <= s@.len(),
        i <= 15,
    ensures
        r is Some <==> spec_is_hex_digit(s@[i as int]) && spec_is_hex_digit(s@[i + 1]),
        r matches Some(b) ==> b == spec_hex_value(s@[i as int]) * 16 + spec_hex_value(s@[i + 1]),
{
    let hi = match hex_value(s.get_char(i)) {
        Some(v) => v,
        None => {
            return None;
        },
    };
    let lo = match hex_value(s.get_char(i + 1)) {
        Some(v) => v,
        None => {
            return None;
        },
    };
    Some(hi * 16 + lo)
}

/// Parses the colon-separated hexadecimal string form of an address.
/// Returns `None` exactly when the string is not a well-formed address.
pub fn parse_address(s: &str) -> (r: Option<SensorAddress>)
    ensures
        r is Some <==> spec_valid_address_chars(s@),
        r matches Some(a) ==> a == spec_address_of_chars(s@),
{
    if s.unicode_len() != 17 {
        return None;
    }
    let colon: char = ':';
    if s.get_char(2) != colon || s.get_char(5) != colon || s.get_char(8) != colon || s.get_char(11)
        != colon || s.get_char(14) != colon {
        return None;
    }
    let b0 = match parse_hex_pair(s, 0) {
        Some(b) => b,
        None => {
            return None;
        },
    };
    let b1 = match parse_hex_pair(s, 3) {
        Some(b) => b,
        None => {
            return None;
        },
    };
    let b2 = match parse_hex_pair(s, 6) {
        Some(b) => b,
        None => {
            return None;
        },
    };
    let b3 = match parse_hex_pair(s, 9) {
        Some(b) => b,
        None => {
            return None;
        },
    };
    let b4 = match parse_hex_pair(s, 12) {
        Some(b) => b,
        None => {
            return None;
        },
    };
    let b5 = match parse_hex_pair(s, 15) {
        Some(b) => b,
        None => {
            return None;
        },
    };
    Some(SensorAddress { b0, b1, b2, b3, b4, b5 })
}

} // verus!
