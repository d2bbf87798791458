//! Verified text formatting: decimal numbers, two-decimal fixed-point
//! values, and hexadecimal bytes, as used for publish payloads and for
//! the string forms of sensor addresses.

use vstd::prelude::*;
use vstd::string::*;

verus! {

/// The decimal digit character for `d` (`0 <= d <= 9`).
pub open spec fn spec_dec_digit(d: int) -> char {
    if d == 0 {
        '0'
    } else if d == 1 {
        '1'
    } else if d == 2 {
        '2'
    } else if d == 3 {
        '3'
    } else if d == 4 {
        '4'
    } else if d == 5 {
        '5'
    } else if d == 6 {
        '6'
    } else if d == 7 {
        '7'
    } else if d == 8 {
        '8'
    } else {
        '9'
    }
}

/// The usual decimal rendering of a non-negative integer, most
/// significant digit first, with no leading zeros (except for 0 itself).
pub open spec fn spec_decimal(n: int) -> Seq<char>
    recommends
        n >= 0,
    decreases n,
{
    if n < 10 {
        seq![spec_dec_digit(n)]
    } else {
        spec_decimal(n / 10).push(spec_dec_digit(n % 10))
    }
}

fn dec_digit_str(d: u8) -> (r: &'static str)
    requires
        d < 10,
    ensures
        r@ == seq![spec_dec_digit(d as int)],
{
    let s: &'static str = match d {
        0 => "0",
        1 => "1",
        2 => "2",
        3 => "3",
        4 => "4",
        5 => "5",
        6 => "6",
        7 => "7",
        8 => "8",
        _ => "9",
    };
    proof {
        reveal_strlit("0");
        reveal_strlit("1");
        reveal_strlit("2");
        reveal_strlit("3");
        reveal_strlit("4");
        reveal_strlit("5");
        reveal_strlit("6");
        reveal_strlit("7");
        reveal_strlit("8");
        reveal_strlit("9");
        assert(s@ =~= seq![spec_dec_digit(d as int)]);
    }
    s
}

/// Renders `n` in decimal.
pub fn decimal_string(n: u32) -> (r: String)
    ensures
        r@ == spec_decimal(n as int),
    decreases n,
{
    if n < 10 {
        String::from_str(dec_digit_str(n as u8))
    } else {
        let mut s = decimal_string(n / 10);
        s.append(dec_digit_str((n % 10) as u8));
        proof {
            assert(s@ =~= spec_decimal(n as int));
        }
        s
    }
}

/// A signed value scaled by 100, rendered with exactly two digits after
/// the decimal point (for example 232 is rendered as "2.32").
pub open spec fn spec_fixed_point(centi: int) -> Seq<char> {
    if centi < 0 {
        seq!['-'] + spec_fixed_point_magnitude(-centi)
    } else {
        spec_fixed_point_magnitude(centi)
    }
}

/// The two-decimal rendering of a non-negative value scaled by 100.
pub open spec fn spec_fixed_point_magnitude(centi: int) -> Seq<char>
    recommends
        centi >= 0,
{
    spec_decimal(centi / 100) + seq!['.', spec_dec_digit((centi % 100) / 10), spec_dec_digit(
        centi % 10,
    )]
}

/// Renders a value scaled by 100 with two digits after the decimal point.
pub fn fixed_point_string(centi: i32) -> (r: String)
    ensures
        r@ == spec_fixed_point(centi as int),
{
    let magnitude: u32 = if centi < 0 {
        (-(centi as i64)) as u32
    } else {
        centi as u32
    };
    let mut s: String = if centi < 0 {
        let m = String::from_str("-");
        proof {
            reveal_strlit("-");
            assert(m@ =~= seq!['-']);
        }
        m
    } else {
        let m = String::new();
        m
    };
    let whole = decimal_string(magnitude / 100);
    s.append(whole.as_str());
    let dot = ".";
    proof {
        reveal_strlit(".");
        assert(dot@ =~= seq!['.']);
    }
    s.append(dot);
    s.append(dec_digit_str(((magnitude / 10) % 10) as u8));
    s.append(dec_digit_str((magnitude % 10) as u8));
    proof {
        assert((magnitude as int) % 100 / 10 == (magnitude as int) / 10 % 10) by (nonlinear_arith);
        assert(s@ =~= spec_fixed_point(centi as int));
    }
    s
}

/// Character-by-character string equality.
#[verifier::loop_isolation(false)]
pub fn str_eq(a: &str, b: &str) -> (r: bool)
    ensures
        r == (a@ == b@),
{
    let len = a.unicode_len();
    if len != b.unicode_len() {
        proof {
            assert(a@.len() != b@.len());
        }
        return false;
    }
    let mut i: usize = 0;
    while i < len
        invariant
            i <= len,
            forall|j: int| 0 <= j < i ==> a@[j] == b@[j],
        decreases len - i,
    {
        if a.get_char(i) != b.get_char(i) {
            proof {
                assert(a@[i as int] != b@[i as int]);
            }
            return false;
        }
        i += 1;
    }
    proof {
        assert(a@ =~= b@);
    }
    true
}

/// The uppercase hexadecimal digit character for `d` (`0 <= d <= 15`).
pub open spec fn spec_hex_digit(d: int) -> char {
    if d < 10 {
        spec_dec_digit(d)
    } else if d == 10 {
        'A'
    } else if d == 11 {
        'B'
    } else if d == 12 {
        'C'
    } else if d == 13 {
        'D'
    } else if d == 14 {
        'E'
    } else {
        'F'
    }
}

/// The two uppercase hexadecimal digits of a byte.
pub open spec fn spec_hex_byte(b: int) -> Seq<char>
    recommends
        0 <= b < 256,
{
    seq![spec_hex_digit(b / 16), spec_hex_digit(b % 16)]
}

fn hex_digit_str(d: u8) -> (r: &'static str)
    requires
        d < 16,
    ensures
        r@ == seq![spec_hex_digit(d as int)],
{
    if d < 10 {
        dec_digit_str(d)
    } else {
        let s: &'static str = match d {
            10 => "A",
            11 => "B",
            12 => "C",
            13 => "D",
            14 => "E",
            _ => "F",
        };
        proof {
            reveal_strlit("A");
            reveal_strlit("B");
            reveal_strlit("C");
            reveal_strlit("D");
            reveal_strlit("E");
            reveal_strlit("F");
            assert(s@ =~= seq![spec_hex_digit(d as int)]);
        }
        s
    }
}

/// Appends the two uppercase hexadecimal digits of `b` to `s`.
pub fn append_hex_byte(s: &mut String, b: u8)
    ensures
        final(s)@ == old(s)@ + spec_hex_byte(b as int),
{
    s.append(hex_digit_str(b / 16));
    s.append(hex_digit_str(b % 16));
    proof {
        assert(s@ =~= old(s)@ + spec_hex_byte(b as int));
    }
}

/// Whether `c` is a hexadecimal digit, in either letter case.
pub open spec fn spec_is_hex_digit(c: char) -> bool {
    ('0' <= c && c <= '9') || ('a' <= c && c <= 'f') || ('A' <= c && c <= 'F')
}

/// The numeric value of a hexadecimal digit character.
pub open spec fn spec_hex_value(c: char) -> int
    recommends
        spec_is_hex_digit(c),
{
    if '0' <= c && c <= '9' {
        c as int - '0' as int
    } else if 'a' <= c && c <= 'f' {
        c as int - 'a' as int + 10
    } else {
        c as int - 'A' as int + 10
    }
}

/// The numeric value of a hexadecimal digit character, or `None` for any
/// other character.
pub fn hex_value(c: char) -> (r: Option<u8>)
    ensures
        r is Some <==> spec_is_hex_digit(c),
        r matches Some(v) ==> v == spec_hex_value(c) && v < 16,
{
    if '0' <= c && c <= '9' {
        Some((c as u8) - ('0' as u8))
    } else if 'a' <= c && c <= 'f' {
        Some((c as u8) - ('a' as u8) + 10)
    } else if 'A' <= c && c <= 'F' {
        Some((c as u8) - ('A' as u8) + 10)
    } else {
        None
    }
}

} // verus!
