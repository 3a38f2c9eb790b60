//! Whole numbers as text, read the way the standard library reads them.

use crate::text::to_chars;
use vstd::prelude::*;

verus! {

/// The value of `c` as a digit in base `radix`, as `char::to_digit` gives it: the decimal
/// digits stand for zero to nine, the letters from `a` on, in either case, for ten and more.
/// `None` where `c` is no such character or its value is not below `radix`.
pub open spec fn digit_of(c: char, radix: int) -> Option<int> {
    let n = c as u32 as int;
    let value = if 0x30 <= n <= 0x39 {
        n - 0x30
    } else if 0x61 <= n <= 0x7A {
        n - 0x61 + 10
    } else if 0x41 <= n <= 0x5A {
        n - 0x41 + 10
    } else {
        radix
    };
    if value < radix {
        Some(value)
    } else {
        None
    }
}

/// The number that the first `k` characters of `digits` write in base `radix`, or `None`
/// where one of them is no digit.
pub open spec fn value_of(digits: Seq<char>, radix: int, k: int) -> Option<int>
    decreases k,
{
    if k <= 0 || k > digits.len() {
        Some(0)
    } else {
        match (value_of(digits, radix, k - 1), digit_of(digits[k - 1], radix)) {
            (Some(high), Some(low)) => Some(high * radix + low),
            _ => None,
        }
    }
}

/// The number that `digits` write in base `radix`, where there is a digit, each is one, and
/// the number is at most `limit`.
pub open spec fn bounded_number(digits: Seq<char>, radix: int, limit: int) -> Option<int> {
    match value_of(digits, radix, digits.len() as int) {
        Some(n) => if digits.len() > 0 && n <= limit {
            Some(n)
        } else {
            None
        },
        None => None,
    }
}

/// `s` without the sign that may stand ahead: a plus always, a minus where `signed` says so.
pub open spec fn unsigned_part(s: Seq<char>, signed: bool) -> Seq<char> {
    if s.len() > 0 && (s[0] == '+' || (signed && s[0] == '-')) {
        s.subrange(1, s.len() as int)
    } else {
        s
    }
}

/// The number that `s` writes in base sixteen, as `u32::from_str_radix` reads it: one `+`
/// may stand ahead, at least one digit has to be there, and the number has to fit 32 bits.
pub open spec fn hex_number(s: Seq<char>) -> Option<u32> {
    match bounded_number(unsigned_part(s, false), 16, u32::MAX as int) {
        Some(n) => Some(n as u32),
        None => None,
    }
}

/// The number that `s` writes in decimal, as `i64::from_str` reads it: one sign may stand
/// ahead, at least one digit has to be there, and the number has to fit 64 bits.
pub open spec fn int_number(s: Seq<char>) -> Option<i64> {
    if s.len() > 0 && s[0] == '-' {
        match bounded_number(unsigned_part(s, true), 10, -(i64::MIN as int)) {
            Some(n) => Some((-n) as i64),
            None => None,
        }
    } else {
        match bounded_number(unsigned_part(s, true), 10, i64::MAX as int) {
            Some(n) => Some(n as i64),
            None => None,
        }
    }
}

/// The value of `c` as a digit in base `radix`; see [`digit_of`].
fn digit_value(c: char, radix: u32) -> (r: Option<u64>)
    requires
        radix <= 36,
    ensures
        match r {
            Some(d) => digit_of(c, radix as int) == Some(d as int) && d < radix,
            None => digit_of(c, radix as int) is None,
        },
{
    let n: u32 = c as u32;
    let value: u32 = if 0x30 <= n && n <= 0x39 {
        n - 0x30
    } else if 0x61 <= n && n <= 0x7A {
        n - 0x61 + 10
    } else if 0x41 <= n && n <= 0x5A {
        n - 0x41 + 10
    } else {
        radix
    };
    if value < radix {
        Some(value as u64)
    } else {
        None
    }
}

/// One more digit never makes the number smaller, and no digit mends a character that is
/// none.
proof fn lemma_value_grows(digits: Seq<char>, radix: int, k: int)
    requires
        0 <= k < digits.len(),
        radix >= 1,
    ensures
        value_of(digits, radix, k + 1) is Some ==> value_of(digits, radix, k) is Some && value_of(
            digits,
            radix,
            k + 1,
        )->0 >= value_of(digits, radix, k)->0 >= 0,
        value_of(digits, radix, k) is None ==> value_of(digits, radix, k + 1) is None,
    decreases k,
{
    if k > 0 {
        lemma_value_grows(digits, radix, k - 1);
    }
    if value_of(digits, radix, k + 1) is Some {
        let high = value_of(digits, radix, k)->0;
        let low = digit_of(digits[k], radix)->0;
        assert(high * radix + low >= high) by (nonlinear_arith)
            requires
                high >= 0,
                radix >= 1,
                low >= 0,
        ;
    }
}

/// Once a character is no digit, the text writes no number however it goes on.
proof fn lemma_value_stays_none(digits: Seq<char>, radix: int, k: int, n: int)
    requires
        0 <= k <= n <= digits.len(),
        radix >= 1,
        value_of(digits, radix, k) is None,
    ensures
        value_of(digits, radix, n) is None,
    decreases n - k,
{
    if k < n {
        lemma_value_grows(digits, radix, k);
        lemma_value_stays_none(digits, radix, k + 1, n);
    }
}

/// Once the number is above a limit, it stays above it however the text goes on.
proof fn lemma_value_stays_large(digits: Seq<char>, radix: int, limit: int, k: int, n: int)
    requires
        0 <= k <= n <= digits.len(),
        radix >= 1,
        value_of(digits, radix, k) is Some,
        value_of(digits, radix, k)->0 > limit,
    ensures
        value_of(digits, radix, n) is None || value_of(digits, radix, n)->0 > limit,
    decreases n - k,
{
    if k < n {
        lemma_value_grows(digits, radix, k);
        if value_of(digits, radix, k + 1) is Some {
            lemma_value_stays_large(digits, radix, limit, k + 1, n);
        } else {
            lemma_value_stays_none(digits, radix, k + 1, n);
        }
    }
}

/// Reads the digits `v[from..]` in base `radix`; see [`bounded_number`].
fn read_digits(v: &Vec<char>, from: usize, radix: u32, limit: u64) -> (r: Option<u64>)
    requires
        from <= v.len(),
        1 <= radix <= 36,
    ensures
        match r {
            Some(n) => bounded_number(
                v@.subrange(from as int, v.len() as int),
                radix as int,
                limit as int,
            ) == Some(n as int),
            None => bounded_number(
                v@.subrange(from as int, v.len() as int),
                radix as int,
                limit as int,
            ) is None,
        },
{
    let ghost digits = v@.subrange(from as int, v.len() as int);
    if v.len() == from {
        return None;
    }
    let mut value: u128 = 0;
    let mut i: usize = from;
    while i < v.len()
        invariant
            from <= i <= v.len(),
            from < v.len(),
            1 <= radix <= 36,
            digits == v@.subrange(from as int, v.len() as int),
            value_of(digits, radix as int, i - from) == Some(value as int),
            value <= limit,
        decreases v.len() - i,
    {
        assert(digits[i - from] == v@[i as int]);
        match digit_value(v[i], radix) {
            None => {
                proof {
                    assert(value_of(digits, radix as int, i - from + 1) is None);
                    lemma_value_stays_none(
                        digits,
                        radix as int,
                        i - from + 1,
                        digits.len() as int,
                    );
                }
                return None;
            },
            Some(d) => {
                assert(value * radix + d <= 0xFFFF_FFFF_FFFF_FFFF * 36 + 36) by (nonlinear_arith)
                    requires
                        value <= 0xFFFF_FFFF_FFFF_FFFF,
                        1 <= radix <= 36,
                        d < radix,
                ;
                value = value * (radix as u128) + d as u128;
                if value > limit as u128 {
                    proof {
                        lemma_value_stays_large(
                            digits,
                            radix as int,
                            limit as int,
                            i - from + 1,
                            digits.len() as int,
                        );
                    }
                    return None;
                }
            },
        }
        i += 1;
    }
    Some(value as u64)
}

/// Reads a number in base sixteen; see [`hex_number`].
pub fn parse_hex(s: &str) -> (r: Option<u32>)
    ensures
        r == hex_number(s@),
{
    let v = to_chars(s);
    let start: usize = if v.len() > 0 && v[0] == '+' {
        1
    } else {
        0
    };
    assert(start == 0 ==> v@.subrange(0, v.len() as int) =~= v@);
    match read_digits(&v, start, 16, 0xFFFF_FFFF) {
        Some(n) => Some(n as u32),
        None => None,
    }
}

/// Reads a whole number in decimal; see [`int_number`].
pub fn parse_int(s: &str) -> (r: Option<i64>)
    ensures
        r == int_number(s@),
{
    let v = to_chars(s);
    let negative = v.len() > 0 && v[0] == '-';
    let start: usize = if v.len() > 0 && (v[0] == '+' || v[0] == '-') {
        1
    } else {
        0
    };
    assert(start == 0 ==> v@.subrange(0, v.len() as int) =~= v@);
    if negative {
        match read_digits(&v, start, 10, 0x8000_0000_0000_0000) {
            Some(n) => if n == 0x8000_0000_0000_0000 {
                Some(i64::MIN)
            } else {
                Some(-(n as i64))
            },
            None => None,
        }
    } else {
        match read_digits(&v, start, 10, 0x7FFF_FFFF_FFFF_FFFF) {
            Some(n) => Some(n as i64),
            None => None,
        }
    }
}

} // verus!
