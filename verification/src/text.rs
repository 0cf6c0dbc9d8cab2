//! Decimal rendering for manifests: integers, and 90 kHz tick counts as
//! seconds with six decimal places.

use vstd::prelude::*;

verus! {

/// The digit character for a value below ten.
pub open spec fn spec_digit_char(d: int) -> char {
    if d == 0 {
        '0'
    } else if d == 1 {
        '1'
    } else if d == 2 {
        '2'
    } else if d == 3 {
        '3'
    } else if d == 4 {
        '4'
    } else if d == 5 {
        '5'
    } else if d == 6 {
        '6'
    } else if d == 7 {
        '7'
    } else if d == 8 {
        '8'
    } else {
        '9'
    }
}

/// The decimal digits of a non-negative number, most significant first.
pub open spec fn spec_dec(n: int) -> Seq<char>
    decreases n,
{
    if n < 10 {
        seq![spec_digit_char(if n < 0 {
            0
        } else {
            n
        })]
    } else {
        spec_dec(n / 10) + seq![spec_digit_char(n % 10)]
    }
}

/// The one-character string for a digit.
fn digit_str(d: u64) -> (r: &'static str)
    requires
        d < 10,
    ensures
        r@ == seq![spec_digit_char(d as int)],
{
    proof {
        reveal_strlit("0");
        reveal_strlit("1");
        reveal_strlit("2");
        reveal_strlit("3");
        reveal_strlit("4");
        reveal_strlit("5");
        reveal_strlit("6");
        reveal_strlit("7");
        reveal_strlit("8");
        reveal_strlit("9");
    }
    if d == 0 {
        "0"
    } else if d == 1 {
        "1"
    } else if d == 2 {
        "2"
    } else if d == 3 {
        "3"
    } else if d == 4 {
        "4"
    } else if d == 5 {
        "5"
    } else if d == 6 {
        "6"
    } else if d == 7 {
        "7"
    } else if d == 8 {
        "8"
    } else {
        "9"
    }
}

/// Render a number in decimal.
pub fn u64_to_string(n: u64) -> (r: String)
    ensures
        r@ == spec_dec(n as int),
    decreases n,
{
    if n < 10 {
        let mut s = String::new();
        s.append(digit_str(n));
        proof {
            assert(s@ =~= spec_dec(n as int));
        }
        s
    } else {
        let mut s = u64_to_string(n / 10);
        s.append(digit_str(n % 10));
        s
    }
}

/// The digits of a number, left padded with zeros to six places.
pub open spec fn spec_dec6(n: int) -> Seq<char> {
    seq![
        spec_digit_char((n / 100000) % 10),
        spec_digit_char((n / 10000) % 10),
        spec_digit_char((n / 1000) % 10),
        spec_digit_char((n / 100) % 10),
        spec_digit_char((n / 10) % 10),
        spec_digit_char(n % 10),
    ]
}

/// Render a number below one million as six digits.
pub fn u64_to_string6(n: u64) -> (r: String)
    requires
        n < 1000000,
    ensures
        r@ == spec_dec6(n as int),
{
    let mut s = String::new();
    s.append(digit_str((n / 100000) % 10));
    s.append(digit_str((n / 10000) % 10));
    s.append(digit_str((n / 1000) % 10));
    s.append(digit_str((n / 100) % 10));
    s.append(digit_str((n / 10) % 10));
    s.append(digit_str(n % 10));
    proof {
        assert(s@ =~= spec_dec6(n as int));
    }
    s
}

/// A 90 kHz tick count as seconds with six decimal places, rounded to
/// nearest: the whole seconds, a point, then the microseconds.
pub open spec fn spec_seconds6(ticks: int) -> Seq<char> {
    spec_dec(ticks / 90000) + seq!['.'] + spec_dec6(((ticks % 90000) * 1000000 + 45000) / 90000)
}

/// Render a 90 kHz tick count as seconds with six decimal places.
pub fn ticks_to_seconds6(ticks: u64) -> (r: String)
    requires
        ticks < 0x1_0000_0000_0000,
    ensures
        r@ == spec_seconds6(ticks as int),
{
    let mut s = u64_to_string(ticks / 90000);
    proof {
        reveal_strlit(".");
    }
    s.append(".");
    let frac = ((ticks % 90000) * 1000000 + 45000) / 90000;
    s.append(u64_to_string6(frac).as_str());
    s
}

} // verus!
