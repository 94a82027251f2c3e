//! Verified fixed-point parsing of transaction fee fields.
//!
//! Fee fields arrive as text and may be malformed. A well-formed fee is a
//! plain decimal numeral: one or more digits, or digits around a single
//! decimal point with at least one digit on either side overall ("7", "1.5",
//! ".25", "3."). Its value is taken in millionths (six fractional digits,
//! further digits truncated), which is exactly the precision the report
//! shows. A field that does not match this grammar, or whose value in
//! millionths does not fit in 64 bits, is treated as unparsable and
//! contributes zero to a fee total.

use vstd::prelude::*;
use vstd::string::*;

verus! {

/// True of the ten ASCII digit characters.
pub open spec fn is_digit(c: char) -> bool {
    '0' as int <= c as int && c as int <= '9' as int
}

/// The numeric value of a digit character.
pub open spec fn digit_val(c: char) -> nat {
    (c as int - '0' as int) as nat
}

/// True when every character of `s` is an ASCII digit.
pub open spec fn all_digits(s: Seq<char>) -> bool {
    forall|i: int| 0 <= i < s.len() ==> is_digit(#[trigger] s[i])
}

/// The value of a digit string read in base ten; the empty string has value
/// zero.
pub open spec fn digits_val(s: Seq<char>) -> nat
    decreases s.len(),
{
    if s.len() == 0 {
        0
    } else {
        digits_val(s.drop_last()) * 10 + digit_val(s.last())
    }
}

/// The index of the first '.' in `s`, or -1 when there is none.
pub open spec fn first_dot(s: Seq<char>) -> int
    decreases s.len(),
{
    if s.len() == 0 {
        -1
    } else if s[0] == '.' {
        0
    } else if first_dot(s.subrange(1, s.len() as int)) == -1 {
        -1
    } else {
        1 + first_dot(s.subrange(1, s.len() as int))
    }
}

/// Ten to the power `e`.
pub open spec fn pow10(e: nat) -> nat
    decreases e,
{
    if e == 0 {
        1
    } else {
        10 * pow10((e - 1) as nat)
    }
}

/// The fractional digits that count: everything past the sixth is below the
/// precision of the report and is dropped.
pub open spec fn frac_take(fp: Seq<char>) -> Seq<char> {
    if fp.len() <= 6 {
        fp
    } else {
        fp.take(6)
    }
}

/// The factor that scales the kept fractional digits to millionths.
pub open spec fn frac_scale(len: nat) -> nat {
    if len == 0 {
        1000000
    } else if len == 1 {
        100000
    } else if len == 2 {
        10000
    } else if len == 3 {
        1000
    } else if len == 4 {
        100
    } else if len == 5 {
        10
    } else {
        1
    }
}

/// The value in millionths of a fractional digit string.
pub open spec fn frac_micro(fp: Seq<char>) -> nat {
    digits_val(frac_take(fp)) * frac_scale(fp.len())
}

/// The value of a fee field in millionths, or `None` when the field is not a
/// decimal numeral or its value in millionths exceeds `u64::MAX`.
pub open spec fn fee_micro(s: Seq<char>) -> Option<u64> {
    let d = first_dot(s);
    if d == -1 {
        if s.len() > 0 && all_digits(s) && digits_val(s) * 1000000 <= u64::MAX {
            Some((digits_val(s) * 1000000) as u64)
        } else {
            None
        }
    } else {
        let ip = s.subrange(0, d);
        let fp = s.subrange(d + 1, s.len() as int);
        if all_digits(ip) && all_digits(fp) && ip.len() + fp.len() > 0 && digits_val(ip)
            * 1000000 + frac_micro(fp) <= u64::MAX {
            Some((digits_val(ip) * 1000000 + frac_micro(fp)) as u64)
        } else {
            None
        }
    }
}

/// The fee contribution of one field: its value in millionths, or zero when
/// it is unparsable.
pub open spec fn fee_or_zero(s: Seq<char>) -> nat {
    match fee_micro(s) {
        Some(v) => v as nat,
        None => 0,
    }
}

proof fn lemma_first_dot_none(s: Seq<char>)
    requires
        forall|j: int| 0 <= j < s.len() ==> s[j] != '.',
    ensures
        first_dot(s) == -1,
    decreases s.len(),
{
    if s.len() > 0 {
        lemma_first_dot_none(s.subrange(1, s.len() as int));
    }
}

proof fn lemma_first_dot_at(s: Seq<char>, d: int)
    requires
        0 <= d < s.len(),
        s[d] == '.',
        forall|j: int| 0 <= j < d ==> s[j] != '.',
    ensures
        first_dot(s) == d,
    decreases s.len(),
{
    if d > 0 {
        lemma_first_dot_at(s.subrange(1, s.len() as int), d - 1);
    }
}

proof fn lemma_digits_val_push(s: Seq<char>, c: char)
    ensures
        digits_val(s.push(c)) == digits_val(s) * 10 + digit_val(c),
{
    assert(s.push(c).drop_last() =~= s);
    assert(s.push(c).last() == c);
}

proof fn lemma_pow10_values()
    ensures
        pow10(0) == 1,
        pow10(1) == 10,
        pow10(2) == 100,
        pow10(3) == 1000,
        pow10(4) == 10000,
        pow10(5) == 100000,
        pow10(6) == 1000000,
{
    assert(pow10(0) == 1);
    assert(pow10(1) == 10);
    assert(pow10(2) == 100);
    assert(pow10(3) == 1000);
    assert(pow10(4) == 10000);
    assert(pow10(5) == 100000);
    assert(pow10(6) == 1000000);
}

/// Parses one fee field; returns its value in millionths exactly when
/// [`fee_micro`] gives one.
pub fn parse_fee_micro(s: &str) -> (r: Option<u64>)
    ensures
        r == fee_micro(s@),
{
    let n = s.unicode_len();

    // Scan the integer part: digits up to the first '.', the end, or a
    // character that rules the field out.
    let mut i: usize = 0;
    let mut saw_dot = false;
    while i < n && !saw_dot
        invariant
            i <= n,
            n == s@.len(),
            forall|j: int| 0 <= j < i ==> is_digit(#[trigger] s@[j]),
            saw_dot ==> i < n && s@[i as int] == '.',
        decreases n - i, (if saw_dot { 0int } else { 1int }),
    {
        let c = s.get_char(i);
        if c == '.' {
            saw_dot = true;
        } else {
            let cv = c as u32;
            if cv < 48 || cv > 57 {
                proof {
                    assert(!is_digit(s@[i as int]));
                    assert(s@[i as int] != '.');
                    lemma_first_dot_props(s@);
                    let d = first_dot(s@);
                    if d == -1 {
                        assert(!all_digits(s@));
                        assert(fee_micro(s@) is None);
                    } else {
                        assert(d != i as int);
                        if d < i as int {
                            assert(is_digit(s@[d]));
                            assert(s@[d] == '.');
                            assert(false);
                        }
                        assert(d > i);
                        assert(s@.subrange(0, d)[i as int] == s@[i as int]);
                        assert(!all_digits(s@.subrange(0, d)));
                        assert(fee_micro(s@) is None);
                    }
                }
                return None;
            }
            i += 1;
        }
    }

    if !saw_dot {
        // The whole field is the integer part.
        proof {
            assert(forall|j: int| 0 <= j < s@.len() ==> s@[j] != '.');
            lemma_first_dot_none(s@);
        }
        if n == 0 {
            return None;
        }
        let (acc, big) = digits_value(s, 0, n);
        proof {
            assert(s@.subrange(0, n as int) =~= s@);
        }
        if big {
            proof {
                assert(digits_val(s@) * 1000000 >= digits_val(s@));
            }
            return None;
        }
        let total: u128 = acc * 1000000;
        if total <= 0xffff_ffff_ffff_ffff {
            Some(total as u64)
        } else {
            None
        }
    } else {
        let d = i;
        proof {
            lemma_first_dot_at(s@, d as int);
        }
        if n == 1 {
            // The field is "." alone: no digit on either side.
            return None;
        }

        // Scan the fractional part, keeping the value of its first six
        // digits.
        let mut j: usize = d + 1;
        let mut frac_acc: u64 = 0;
        proof {
            lemma_pow10_values();
        }
        while j < n
            invariant
                d < j <= n,
                n == s@.len(),
                (d as int) < n,
                first_dot(s@) == d as int,
                forall|t: int| d < t < j ==> is_digit(#[trigger] s@[t]),
                j - d - 1 < 6 ==> frac_acc == digits_val(
                    s@.subrange(d as int + 1, j as int),
                ) && (frac_acc as nat) < pow10((j - d - 1) as nat),
                j - d - 1 >= 6 ==> frac_acc == digits_val(
                    s@.subrange(d as int + 1, j as int).take(6),
                ),
                frac_acc < 1000000,
            decreases n - j,
        {
            let c = s.get_char(j);
            let cv = c as u32;
            if cv < 48 || cv > 57 {
                proof {
                    let fp = s@.subrange(d as int + 1, s@.len() as int);
                    assert(fp[j - d - 1] == s@[j as int]);
                    assert(!all_digits(fp));
                }
                return None;
            }
            let cnt = j - d - 1;
            proof {
                lemma_pow10_values();
                let pre = s@.subrange(d as int + 1, j as int);
                let pre2 = s@.subrange(d as int + 1, j as int + 1);
                assert(pre2 =~= pre.push(s@[j as int]));
                lemma_digits_val_push(pre, s@[j as int]);
                if cnt >= 6 {
                    assert(pre2.take(6) =~= pre.take(6));
                }
                assert(digit_val(s@[j as int]) <= 9);
            }
            if cnt < 6 {
                frac_acc = frac_acc * 10 + ((cv - 48) as u64);
                proof {
                    if cnt + 1 == 6 {
                        let pre2 = s@.subrange(d as int + 1, j as int + 1);
                        assert(pre2.take(6) =~= pre2);
                    }
                }
            }
            j += 1;
        }

        // Scale the kept digits to millionths.
        let frac_len = n - d - 1;
        let ghost fp = s@.subrange(d as int + 1, n as int);
        proof {
            lemma_pow10_values();
            assert(all_digits(fp));
            if frac_len < 6 {
                assert(frac_take(fp) =~= fp);
            } else if frac_len == 6 {
                assert(frac_take(fp) =~= fp);
                assert(fp.take(6) =~= fp);
            }
        }
        let scale: u64 = if frac_len == 0 {
            1000000
        } else if frac_len == 1 {
            100000
        } else if frac_len == 2 {
            10000
        } else if frac_len == 3 {
            1000
        } else if frac_len == 4 {
            100
        } else if frac_len == 5 {
            10
        } else {
            1
        };
        let frac_val: u64 = frac_acc * scale;
        proof {
            assert(frac_val as nat == frac_micro(fp));
            assert(frac_val < 1000000);
        }

        // Value of the integer part.
        let (acc, big) = digits_value(s, 0, d);
        if big {
            proof {
                let ip = s@.subrange(0, d as int);
                assert(digits_val(ip) * 1000000 >= digits_val(ip));
            }
            return None;
        }
        let total: u128 = acc * 1000000 + (frac_val as u128);
        if total <= 0xffff_ffff_ffff_ffff {
            Some(total as u64)
        } else {
            None
        }
    }
}

/// Reads the value of the digit characters `s[from..to]`; the flag reports
/// that the value exceeds `u64::MAX` (the returned accumulator is then
/// meaningless).
fn digits_value(s: &str, from: usize, to: usize) -> (r: (u128, bool))
    requires
        from <= to <= s@.len(),
        forall|j: int| from <= j < to ==> is_digit(#[trigger] s@[j]),
    ensures
        !r.1 ==> r.0 == digits_val(s@.subrange(from as int, to as int)) && r.0 <= u64::MAX,
        r.1 ==> digits_val(s@.subrange(from as int, to as int)) > u64::MAX,
{
    let mut k: usize = from;
    let mut acc: u128 = 0;
    let mut big = false;
    while k < to
        invariant
            from <= k <= to <= s@.len(),
            forall|j: int| from <= j < to ==> is_digit(#[trigger] s@[j]),
            !big ==> acc == digits_val(s@.subrange(from as int, k as int)) && acc <= u64::MAX,
            big ==> digits_val(s@.subrange(from as int, k as int)) > u64::MAX,
        decreases to - k,
    {
        let c = s.get_char(k);
        let cv = c as u32;
        let dv = (cv - 48) as u128;
        proof {
            assert(is_digit(s@[k as int]));
            let pre = s@.subrange(from as int, k as int);
            let pre2 = s@.subrange(from as int, k as int + 1);
            assert(pre2 =~= pre.push(s@[k as int]));
            lemma_digits_val_push(pre, s@[k as int]);
            assert(dv == digit_val(s@[k as int]));
        }
        if !big {
            let next: u128 = acc * 10 + dv;
            if next > 0xffff_ffff_ffff_ffff {
                big = true;
            } else {
                acc = next;
            }
        } else {
            proof {
                let pre = s@.subrange(from as int, k as int);
                assert(digits_val(pre) * 10 >= digits_val(pre));
            }
        }
        k += 1;
    }
    (acc, big)
}

proof fn lemma_first_dot_props(s: Seq<char>)
    ensures
        first_dot(s) != -1 ==> 0 <= first_dot(s) < s.len() && s[first_dot(s)] == '.' && forall|
            j: int,
        | 0 <= j < first_dot(s) ==> s[j] != '.',
    decreases s.len(),
{
    if s.len() > 0 && s[0] != '.' {
        let t = s.subrange(1, s.len() as int);
        lemma_first_dot_props(t);
        if first_dot(t) != -1 {
            let dt = first_dot(t);
            assert(s[1 + dt] == t[dt]);
            assert(first_dot(s) == 1 + dt);
            assert forall|j: int| 0 <= j < first_dot(s) implies s[j] != '.' by {
                if j > 0 {
                    assert(s[j] == t[j - 1]);
                }
            }
        }
    }
}

} // verus!
