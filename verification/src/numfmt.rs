//! Verified decimal rendering of integers.
//!
//! The report shows every numeric value as a string. These functions produce
//! the usual base-ten numeral of an integer, and the six-digit fractional
//! part used for fee totals, with contracts that pin the exact character
//! sequence produced.

use vstd::prelude::*;
use vstd::string::*;

verus! {

/// The character for one decimal digit value.
pub open spec fn spec_digit(d: int) -> char {
    if d == 0 {
        '0'
    } else if d == 1 {
        '1'
    } else if d == 2 {
        '2'
    } else if d == 3 {
        '3'
    } else if d == 4 {
        '4'
    } else if d == 5 {
        '5'
    } else if d == 6 {
        '6'
    } else if d == 7 {
        '7'
    } else if d == 8 {
        '8'
    } else {
        '9'
    }
}

/// The base-ten numeral of `n`, most significant digit first, no sign and no
/// leading zeros (the numeral of zero is "0").
pub open spec fn spec_dec(n: nat) -> Seq<char>
    decreases n,
{
    if n < 10 {
        seq![spec_digit(n as int)]
    } else {
        spec_dec(n / 10) + seq![spec_digit((n % 10) as int)]
    }
}

/// The numeral of a signed value: a leading '-' for negatives.
pub open spec fn spec_signed_dec(n: int) -> Seq<char> {
    if n < 0 {
        seq!['-'] + spec_dec((-n) as nat)
    } else {
        spec_dec(n as nat)
    }
}

fn digit_str(d: u128) -> (s: &'static str)
    requires
        d < 10,
    ensures
        s@ == seq![spec_digit(d as int)],
{
    if d == 0 {
        proof {
            reveal_strlit("0");
            assert("0"@ =~= seq![spec_digit(0)]);
        }
        "0"
    } else if d == 1 {
        proof {
            reveal_strlit("1");
            assert("1"@ =~= seq![spec_digit(1)]);
        }
        "1"
    } else if d == 2 {
        proof {
            reveal_strlit("2");
            assert("2"@ =~= seq![spec_digit(2)]);
        }
        "2"
    } else if d == 3 {
        proof {
            reveal_strlit("3");
            assert("3"@ =~= seq![spec_digit(3)]);
        }
        "3"
    } else if d == 4 {
        proof {
            reveal_strlit("4");
            assert("4"@ =~= seq![spec_digit(4)]);
        }
        "4"
    } else if d == 5 {
        proof {
            reveal_strlit("5");
            assert("5"@ =~= seq![spec_digit(5)]);
        }
        "5"
    } else if d == 6 {
        proof {
            reveal_strlit("6");
            assert("6"@ =~= seq![spec_digit(6)]);
        }
        "6"
    } else if d == 7 {
        proof {
            reveal_strlit("7");
            assert("7"@ =~= seq![spec_digit(7)]);
        }
        "7"
    } else if d == 8 {
        proof {
            reveal_strlit("8");
            assert("8"@ =~= seq![spec_digit(8)]);
        }
        "8"
    } else {
        proof {
            reveal_strlit("9");
            assert("9"@ =~= seq![spec_digit(9)]);
        }
        "9"
    }
}

/// Renders `n` in base ten.
pub fn u128_to_dec(n: u128) -> (s: String)
    ensures
        s@ == spec_dec(n as nat),
    decreases n,
{
    if n < 10 {
        digit_str(n).to_owned()
    } else {
        let mut s = u128_to_dec(n / 10);
        s.append(digit_str(n % 10));
        proof {
            assert(s@ =~= spec_dec(n as nat));
        }
        s
    }
}

/// Renders a signed value in base ten, with a leading '-' for negatives.
pub fn i64_to_dec(n: i64) -> (s: String)
    ensures
        s@ == spec_signed_dec(n as int),
{
    if n < 0 {
        let wide: i128 = n as i128;
        let magnitude: u128 = (-wide) as u128;
        let mut s = "-".to_owned();
        s.append(u128_to_dec(magnitude).as_str());
        proof {
            reveal_strlit("-");
            assert(s@ =~= spec_signed_dec(n as int));
        }
        s
    } else {
        u128_to_dec(n as u128)
    }
}

/// The six fractional digits of a fee total given in millionths: the value
/// `f < 1000000` zero-padded on the left to width six.
pub open spec fn spec_frac6(f: nat) -> Seq<char> {
    seq![
        spec_digit(((f / 100000) % 10) as int),
        spec_digit(((f / 10000) % 10) as int),
        spec_digit(((f / 1000) % 10) as int),
        spec_digit(((f / 100) % 10) as int),
        spec_digit(((f / 10) % 10) as int),
        spec_digit((f % 10) as int),
    ]
}

/// Renders the fractional part of a fee total: exactly six digits.
pub fn frac6_to_dec(f: u64) -> (s: String)
    requires
        f < 1000000,
    ensures
        s@ == spec_frac6(f as nat),
{
    let f = f as u128;
    let mut s = digit_str((f / 100000) % 10).to_owned();
    s.append(digit_str((f / 10000) % 10));
    s.append(digit_str((f / 1000) % 10));
    s.append(digit_str((f / 100) % 10));
    s.append(digit_str((f / 10) % 10));
    s.append(digit_str(f % 10));
    proof {
        assert(s@ =~= spec_frac6(f as nat));
    }
    s
}

} // verus!
