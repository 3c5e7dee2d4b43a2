//! Decimal rendering of integers as character sequences, used when the
//! launch policy and the child's exit status are written out as text.

use vstd::prelude::*;

verus! {

/// The character for a single decimal digit value.
pub open spec fn spec_digit_char(d: nat) -> char {
    if d == 0 {
        '0'
    } else if d == 1 {
        '1'
    } else if d == 2 {
        '2'
    } else if d == 3 {
        '3'
    } else if d == 4 {
        '4'
    } else if d == 5 {
        '5'
    } else if d == 6 {
        '6'
    } else if d == 7 {
        '7'
    } else if d == 8 {
        '8'
    } else {
        '9'
    }
}

/// The usual decimal rendering of a natural number: no sign, no leading
/// zeros (except for the single digit of zero itself).
pub open spec fn spec_decimal(n: nat) -> Seq<char>
    decreases n,
{
    if n < 10 {
        seq![spec_digit_char(n)]
    } else {
        spec_decimal(n / 10) + seq![spec_digit_char(n % 10)]
    }
}

/// The decimal rendering of a signed value: a leading minus sign for
/// negative values, then the rendering of the magnitude.
pub open spec fn spec_decimal_int(n: int) -> Seq<char> {
    if n >= 0 {
        spec_decimal(n as nat)
    } else {
        seq!['-'] + spec_decimal((-n) as nat)
    }
}

/// A one-character string for a digit value.
fn digit_str(d: u32) -> (s: &'static str)
    requires
        d < 10,
    ensures
        s@ =~= seq![spec_digit_char(d as nat)],
{
    proof {
        reveal_strlit("0");
        reveal_strlit("1");
        reveal_strlit("2");
        reveal_strlit("3");
        reveal_strlit("4");
        reveal_strlit("5");
        reveal_strlit("6");
        reveal_strlit("7");
        reveal_strlit("8");
        reveal_strlit("9");
    }
    if d == 0 {
        "0"
    } else if d == 1 {
        "1"
    } else if d == 2 {
        "2"
    } else if d == 3 {
        "3"
    } else if d == 4 {
        "4"
    } else if d == 5 {
        "5"
    } else if d == 6 {
        "6"
    } else if d == 7 {
        "7"
    } else if d == 8 {
        "8"
    } else {
        "9"
    }
}

/// Render an unsigned value in decimal.
pub fn u32_to_string(n: u32) -> (s: String)
    ensures
        s@ == spec_decimal(n as nat),
    decreases n,
{
    if n < 10 {
        String::from_str(digit_str(n))
    } else {
        let prefix = u32_to_string(n / 10);
        prefix.concat(digit_str(n % 10))
    }
}

/// Render a signed value in decimal, with a minus sign when negative.
pub fn i32_to_string(n: i32) -> (s: String)
    ensures
        s@ == spec_decimal_int(n as int),
{
    if n >= 0 {
        u32_to_string(n as u32)
    } else {
        let magnitude: u32 = (-(n as i64)) as u32;
        proof {
            reveal_strlit("-");
        }
        let sign = String::from_str("-");
        sign.concat(u32_to_string(magnitude).as_str())
    }
}

} // verus!
