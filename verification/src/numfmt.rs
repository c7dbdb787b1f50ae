//! Decimal rendering of the integer values that appear in the report:
//! counters, percentages, temperatures and uptime figures.

use vstd::prelude::*;
use vstd::string::*;

use crate::text::is_digit;
use crate::text::is_digit_char;
use crate::text::to_chars;

verus! {

/// The character for one decimal digit (meaningful for `d < 10`).
pub open spec fn digit_char(d: nat) -> char {
    if d == 0 {
        '0'
    } else if d == 1 {
        '1'
    } else if d == 2 {
        '2'
    } else if d == 3 {
        '3'
    } else if d == 4 {
        '4'
    } else if d == 5 {
        '5'
    } else if d == 6 {
        '6'
    } else if d == 7 {
        '7'
    } else if d == 8 {
        '8'
    } else {
        '9'
    }
}

/// The base-ten rendering of `n`: no sign, no leading zeros, a single `'0'`
/// for zero.
pub open spec fn dec_str(n: nat) -> Seq<char>
    decreases n,
{
    if n < 10 {
        seq![digit_char(n)]
    } else {
        dec_str(n / 10).push(digit_char(n % 10))
    }
}

/// Appends the single digit `d` to `out`.
fn push_digit(out: &mut String, d: u64)
    requires
        d < 10,
    ensures
        final(out)@ == old(out)@ + seq![digit_char(d as nat)],
{
    let s: &str = if d == 0 {
        "0"
    } else if d == 1 {
        "1"
    } else if d == 2 {
        "2"
    } else if d == 3 {
        "3"
    } else if d == 4 {
        "4"
    } else if d == 5 {
        "5"
    } else if d == 6 {
        "6"
    } else if d == 7 {
        "7"
    } else if d == 8 {
        "8"
    } else {
        "9"
    };
    proof {
        reveal_strlit("0");
        reveal_strlit("1");
        reveal_strlit("2");
        reveal_strlit("3");
        reveal_strlit("4");
        reveal_strlit("5");
        reveal_strlit("6");
        reveal_strlit("7");
        reveal_strlit("8");
        reveal_strlit("9");
    }
    out.append(s);
    proof {
        assert(s@ =~= seq![digit_char(d as nat)]);
    }
}

/// The digit characters of `digits` reversed, so that the lowest-order digit
/// comes last.
spec fn rev_digit_chars(digits: Seq<u8>) -> Seq<char> {
    Seq::new(digits.len(), |i: int| digit_char(digits[digits.len() - 1 - i] as nat))
}

/// Renders `n` in decimal.
pub fn u64_to_string(n: u64) -> (r: String)
    ensures
        r@ == dec_str(n as nat),
{
    if n == 0 {
        proof {
            reveal_strlit("0");
            assert("0"@ =~= seq![digit_char(0)]);
        }
        return String::from_str("0");
    }
    let mut digits: Vec<u8> = Vec::new();
    let mut m: u64 = n;
    while m > 0
        invariant
            n > 0,
            forall|i: int| 0 <= i < digits@.len() ==> digits@[i] < 10,
            digits@.len() == 0 ==> m == n,
            digits@.len() > 0 && m == 0 ==> dec_str(n as nat) == rev_digit_chars(digits@),
            digits@.len() > 0 && m > 0 ==> dec_str(n as nat) == dec_str(m as nat)
                + rev_digit_chars(digits@),
        decreases m,
    {
        let ghost old_digits = digits@;
        let ghost old_m = m;
        let d: u64 = m % 10;
        digits.push(d as u8);
        m = m / 10;
        proof {
            assert(rev_digit_chars(digits@) =~= seq![digit_char(d as nat)] + rev_digit_chars(
                old_digits,
            ));
            if old_m < 10 {
                assert(dec_str(old_m as nat) == seq![digit_char(old_m as nat)]);
            } else {
                assert(dec_str(old_m as nat) == dec_str((old_m / 10) as nat).push(
                    digit_char((old_m % 10) as nat),
                ));
                assert(dec_str(old_m as nat) =~= dec_str(m as nat) + seq![digit_char(d as nat)]);
            }
            if old_digits.len() == 0 {
                if m > 0 {
                    assert(dec_str(n as nat) =~= dec_str(m as nat) + rev_digit_chars(digits@));
                } else {
                    assert(dec_str(n as nat) =~= rev_digit_chars(digits@));
                }
            } else {
                if m > 0 {
                    assert(dec_str(n as nat) =~= dec_str(m as nat) + rev_digit_chars(digits@));
                } else {
                    assert(dec_str(n as nat) =~= rev_digit_chars(digits@));
                }
            }
        }
    }
    let mut r = String::new();
    let mut i: usize = digits.len();
    while i > 0
        invariant
            i <= digits@.len(),
            forall|k: int| 0 <= k < digits@.len() ==> digits@[k] < 10,
            dec_str(n as nat) == rev_digit_chars(digits@),
            r@ == rev_digit_chars(digits@).take(digits@.len() - i),
        decreases i,
    {
        i = i - 1;
        push_digit(&mut r, digits[i] as u64);
        proof {
            assert(r@ =~= rev_digit_chars(digits@).take(digits@.len() - i));
        }
    }
    proof {
        assert(r@ =~= dec_str(n as nat));
    }
    r
}

/// The numeric value of one decimal digit character.
pub open spec fn digit_val(c: char) -> nat {
    (c as int - 48) as nat
}

/// Whether every character of `s` is a decimal digit.
pub open spec fn all_digit_chars(s: Seq<char>) -> bool {
    forall|i: int| 0 <= i < s.len() ==> is_digit_char(s[i])
}

/// The value of a run of decimal digits, highest-order digit first.
pub open spec fn digits_val(s: Seq<char>) -> nat
    decreases s.len(),
{
    if s.len() == 0 {
        0
    } else {
        digits_val(s.drop_last()) * 10 + digit_val(s.last())
    }
}

/// Appending digits never lowers the value: the value of a digit run is at
/// least the value of any of its prefixes.
proof fn lemma_digits_val_prefix(s: Seq<char>, k: int)
    requires
        0 <= k <= s.len(),
    ensures
        digits_val(s) >= digits_val(s.take(k)),
    decreases s.len(),
{
    if k == s.len() {
        assert(s.take(k) =~= s);
    } else {
        lemma_digits_val_prefix(s.drop_last(), k);
        assert(s.drop_last().take(k) =~= s.take(k));
    }
}

/// What `str::parse::<u64>` accepts: an optional plus sign and a nonempty
/// run of digits whose value fits.
pub open spec fn spec_parse_u64(s: Seq<char>) -> Option<u64> {
    let d = if s.len() >= 1 && s[0] == '+' {
        s.drop_first()
    } else {
        s
    };
    if d.len() >= 1 && all_digit_chars(d) && digits_val(d) <= u64::MAX {
        Some(digits_val(d) as u64)
    } else {
        None
    }
}

/// Parses the digit run `cs[start..]` as a `u64`.
pub(crate) fn parse_digits(cs: &Vec<char>, start: usize) -> (r: Option<u64>)
    requires
        start <= cs@.len(),
    ensures
        ({
            let d = cs@.skip(start as int);
            if d.len() >= 1 && all_digit_chars(d) && digits_val(d) <= u64::MAX {
                r == Some(digits_val(d) as u64)
            } else {
                r is None
            }
        }),
{
    let ghost d = cs@.skip(start as int);
    let n = cs.len();
    if start == n {
        return None;
    }
    let mut acc: u64 = 0;
    let mut i = start;
    while i < n
        invariant
            start <= i <= n,
            n == cs@.len(),
            d == cs@.skip(start as int),
            forall|t: int| start <= t < i ==> is_digit_char(cs@[t]),
            acc == digits_val(cs@.subrange(start as int, i as int)),
        decreases n - i,
    {
        let c = cs[i];
        if !is_digit(c) {
            proof {
                assert(d[i - start] == cs@[i as int]);
                assert(!all_digit_chars(d));
            }
            return None;
        }
        let dv: u64 = (c as u32 as u64) - 48;
        proof {
            assert(dv == digit_val(cs@[i as int]));
            assert(dv <= 9);
        }
        let ghost prefix = cs@.subrange(start as int, i as int);
        let ghost extended = cs@.subrange(start as int, i + 1);
        proof {
            assert(extended =~= prefix.push(cs@[i as int]));
            assert(extended.drop_last() =~= prefix);
            assert(digits_val(extended) == acc * 10 + dv);
        }
        if acc > u64::MAX / 10 || (acc == u64::MAX / 10 && dv > u64::MAX % 10) {
            proof {
                assert(digits_val(extended) > u64::MAX);
                assert(extended =~= d.take(i + 1 - start));
                lemma_digits_val_prefix(d, i + 1 - start);
            }
            return None;
        }
        acc = acc * 10 + dv;
        i = i + 1;
    }
    proof {
        assert(cs@.subrange(start as int, n as int) =~= d);
    }
    Some(acc)
}

/// Parses `s` as `str::parse::<u64>` does.
pub fn parse_u64(s: &str) -> (r: Option<u64>)
    ensures
        r == spec_parse_u64(s@),
{
    let cs = to_chars(s);
    let start: usize = if cs.len() >= 1 && cs[0] == '+' {
        1
    } else {
        0
    };
    let r = parse_digits(&cs, start);
    proof {
        if start == 1 {
            assert(cs@.skip(1) =~= s@.drop_first());
        } else {
            assert(cs@.skip(0) =~= s@);
        }
    }
    r
}

/// What `str::parse::<i32>` accepts: an optional sign and a nonempty run of
/// digits whose value lies within the type's range.
pub open spec fn spec_parse_i32(s: Seq<char>) -> Option<i32> {
    if s.len() >= 1 && s[0] == '-' {
        let d = s.drop_first();
        if d.len() >= 1 && all_digit_chars(d) && digits_val(d) <= 0x8000_0000 {
            Some((-(digits_val(d) as int)) as i32)
        } else {
            None
        }
    } else {
        let d = if s.len() >= 1 && s[0] == '+' {
            s.drop_first()
        } else {
            s
        };
        if d.len() >= 1 && all_digit_chars(d) && digits_val(d) <= 0x7fff_ffff {
            Some(digits_val(d) as i32)
        } else {
            None
        }
    }
}

/// Parses `s` as `str::parse::<i32>` does.
pub fn parse_i32(s: &str) -> (r: Option<i32>)
    ensures
        r == spec_parse_i32(s@),
{
    let cs = to_chars(s);
    let negative = cs.len() >= 1 && cs[0] == '-';
    let start: usize = if cs.len() >= 1 && (cs[0] == '-' || cs[0] == '+') {
        1
    } else {
        0
    };
    proof {
        if start == 1 {
            assert(cs@.skip(1) =~= s@.drop_first());
        } else {
            assert(cs@.skip(0) =~= s@);
        }
    }
    match parse_digits(&cs, start) {
        None => None,
        Some(mag) => {
            if negative {
                if mag > 0x8000_0000 {
                    None
                } else if mag == 0x8000_0000 {
                    Some(i32::MIN)
                } else {
                    Some(-(mag as i32))
                }
            } else {
                if mag > 0x7fff_ffff {
                    None
                } else {
                    Some(mag as i32)
                }
            }
        },
    }
}

} // verus!
