//! Verified parsing of write-value and option literals.
//!
//! The literal grammar is selected by the active format: unsigned
//! register values accept decimal, `0x`-prefixed hex and `0b`-prefixed
//! binary digits; signed values accept an optional sign followed by
//! decimal digits; coils and single points accept the boolean tokens.
//! Timeouts are decimal seconds with an optional fraction and are
//! returned in milliseconds.

use vstd::prelude::*;
use vstd::string::StrSliceExecFns;
use crate::errors::ConfigError;
use crate::strutil::find_from;
use crate::strutil::str_eq;

verus! {

/// Whether `c` is a digit of the given base (2, 10 or 16; both hex
/// letter cases are accepted).
pub open spec fn is_radix_digit(c: char, base: int) -> bool {
    if base == 16 {
        ('0' as u32 <= c as u32 && c as u32 <= '9' as u32) || ('a' as u32 <= c as u32 && c as u32
            <= 'f' as u32) || ('A' as u32 <= c as u32 && c as u32 <= 'F' as u32)
    } else if base == 2 {
        c == '0' || c == '1'
    } else {
        '0' as u32 <= c as u32 && c as u32 <= '9' as u32
    }
}

/// The numeric value of a digit character.
pub open spec fn digit_val(c: char) -> int {
    if '0' as u32 <= c as u32 && c as u32 <= '9' as u32 {
        c as u32 - '0' as u32
    } else if 'a' as u32 <= c as u32 && c as u32 <= 'f' as u32 {
        c as u32 - 'a' as u32 + 10
    } else {
        c as u32 - 'A' as u32 + 10
    }
}

/// Whether `s` is one or more digits of the given base.
pub open spec fn is_digit_seq(s: Seq<char>, base: int) -> bool {
    s.len() > 0 && forall|i: int| 0 <= i < s.len() ==> is_radix_digit(s[i], base)
}

/// The value of a digit string under the given base (most significant
/// digit first).
pub open spec fn radix_value(s: Seq<char>, base: int) -> int
    decreases s.len(),
{
    if s.len() == 0 {
        0
    } else {
        radix_value(s.drop_last(), base) * base + digit_val(s.last())
    }
}

/// A digit string's value is never negative.
proof fn lemma_radix_value_nonneg(s: Seq<char>, base: int)
    requires
        base >= 2,
        forall|i: int| 0 <= i < s.len() ==> is_radix_digit(s[i], base),
    ensures
        radix_value(s, base) >= 0,
    decreases s.len(),
{
    if s.len() > 0 {
        lemma_radix_value_nonneg(s.drop_last(), base);
        let p = radix_value(s.drop_last(), base);
        assert(p * base >= 0) by (nonlinear_arith)
            requires
                p >= 0,
                base >= 2,
        ;
        assert(is_radix_digit(s.last(), base));
        assert(digit_val(s.last()) >= 0);
    }
}

/// Extending a digit string can only grow its value.
proof fn lemma_radix_value_prefix_le(s: Seq<char>, base: int, from: int, i: int, j: int)
    requires
        base >= 2,
        0 <= from <= i <= j <= s.len(),
        forall|k: int| from <= k < j ==> is_radix_digit(s[k], base),
    ensures
        radix_value(s.subrange(from, i), base) <= radix_value(s.subrange(from, j), base),
    decreases j - i,
{
    if i < j {
        lemma_radix_value_prefix_le(s, base, from, i, j - 1);
        let prev = s.subrange(from, j - 1);
        let cur = s.subrange(from, j);
        assert(cur.drop_last() =~= prev);
        assert(cur.last() == s[j - 1]);
        assert(forall|k: int| 0 <= k < prev.len() ==> is_radix_digit(prev[k], base));
        lemma_radix_value_nonneg(prev, base);
        let p = radix_value(prev, base);
        assert(p * base >= p) by (nonlinear_arith)
            requires
                p >= 0,
                base >= 2,
        ;
        assert(digit_val(s[j - 1]) >= 0);
    }
}

/// The digit value of `c` under `base`, read off the character code.
fn digit_of(c: char, base: u64) -> (r: Option<u64>)
    requires
        base == 2 || base == 10 || base == 16,
    ensures
        match r {
            Some(v) => is_radix_digit(c, base as int) && v == digit_val(c) && v < base,
            None => !is_radix_digit(c, base as int),
        },
{
    let cv = c as u32;
    if base == 2 {
        if cv == 48 {
            Some(0)
        } else if cv == 49 {
            Some(1)
        } else {
            None
        }
    } else if base == 10 {
        if 48 <= cv && cv <= 57 {
            Some((cv - 48) as u64)
        } else {
            None
        }
    } else {
        if 48 <= cv && cv <= 57 {
            Some((cv - 48) as u64)
        } else if 97 <= cv && cv <= 102 {
            Some((cv - 97 + 10) as u64)
        } else if 65 <= cv && cv <= 70 {
            Some((cv - 65 + 10) as u64)
        } else {
            None
        }
    }
}

/// Parse the digits of `s` from position `from` to the end as a number
/// of the given base, refusing values above `cap`.
fn parse_radix_digits(s: &str, from: usize, base: u64, cap: u64) -> (r: Option<u64>)
    requires
        from <= s@.len(),
        base == 2 || base == 10 || base == 16,
        cap <= (u64::MAX - 15) / 16,
    ensures
        match r {
            Some(v) => is_digit_seq(s@.subrange(from as int, s@.len() as int), base as int)
                && radix_value(s@.subrange(from as int, s@.len() as int), base as int) == v && v
                <= cap,
            None => !is_digit_seq(s@.subrange(from as int, s@.len() as int), base as int)
                || radix_value(s@.subrange(from as int, s@.len() as int), base as int) > cap,
        },
{
    let n = s.unicode_len();
    if from == n {
        return None;
    }
    let ghost whole = s@.subrange(from as int, s@.len() as int);
    let mut acc: u64 = 0;
    let mut i: usize = from;
    while i < n
        invariant
            from <= i <= n,
            n == s@.len(),
            base == 2 || base == 10 || base == 16,
            cap <= (u64::MAX - 15) / 16,
            acc <= cap,
            forall|k: int| from <= k < i ==> is_radix_digit(s@[k], base as int),
            acc == radix_value(s@.subrange(from as int, i as int), base as int),
        decreases n - i,
    {
        let c = s.get_char(i);
        let d = match digit_of(c, base) {
            None => {
                proof {
                    assert(s@.subrange(from as int, s@.len() as int)[i - from] == s@[i as int]);
                }
                return None;
            },
            Some(d) => d,
        };
        proof {
            let prev = s@.subrange(from as int, i as int);
            let cur = s@.subrange(from as int, i + 1);
            assert(cur.drop_last() =~= prev);
            assert(cur.last() == s@[i as int]);
        }
        proof {
            assert(acc * base <= cap * 16) by (nonlinear_arith)
                requires
                    acc <= cap,
                    base <= 16,
            ;
        }
        let next = acc * base + d;
        if next > cap {
            proof {
                let whole_len = s@.len() as int;
                if is_digit_seq(s@.subrange(from as int, whole_len), base as int) {
                    assert(forall|k: int| from <= k < whole_len ==> is_radix_digit(
                        #[trigger] s@[k],
                        base as int,
                    )) by {
                        assert(forall|k: int| from <= k < whole_len ==> s@.subrange(
                            from as int,
                            whole_len,
                        )[k - from] == s@[k]);
                    }
                    lemma_radix_value_prefix_le(s@, base as int, from as int, i + 1, whole_len);
                }
            }
            return None;
        }
        acc = next;
        i = i + 1;
    }
    proof {
        assert(s@.subrange(from as int, n as int) =~= s@.subrange(from as int, s@.len() as int));
    }
    Some(acc)
}

/// The value of an unsigned register literal: decimal digits, or hex
/// digits behind `0x`, or binary digits behind `0b`.
pub open spec fn spec_uint_literal(s: Seq<char>) -> Option<int> {
    if s.len() >= 2 && s[0] == '0' && s[1] == 'x' && is_digit_seq(s.subrange(2, s.len() as int), 16) {
        Some(radix_value(s.subrange(2, s.len() as int), 16))
    } else if s.len() >= 2 && s[0] == '0' && s[1] == 'b' && is_digit_seq(
        s.subrange(2, s.len() as int),
        2,
    ) {
        Some(radix_value(s.subrange(2, s.len() as int), 2))
    } else if is_digit_seq(s, 10) {
        Some(radix_value(s, 10))
    } else {
        None
    }
}

/// An unsigned literal's value is never negative.
pub proof fn lemma_uint_literal_nonneg(s: Seq<char>)
    ensures
        spec_uint_literal(s) matches Some(v) ==> v >= 0,
{
    if s.len() >= 2 && s[0] == '0' && s[1] == 'x' && is_digit_seq(s.subrange(2, s.len() as int), 16) {
        lemma_radix_value_nonneg(s.subrange(2, s.len() as int), 16);
    } else if s.len() >= 2 && s[0] == '0' && s[1] == 'b' && is_digit_seq(
        s.subrange(2, s.len() as int),
        2,
    ) {
        lemma_radix_value_nonneg(s.subrange(2, s.len() as int), 2);
    } else if is_digit_seq(s, 10) {
        lemma_radix_value_nonneg(s, 10);
    }
}

/// Parse an unsigned literal up to `cap`, under the dec/hex/bin grammar.
fn parse_uint_literal(s: &str, cap: u64) -> (r: Option<u64>)
    requires
        cap <= (u64::MAX - 15) / 16,
    ensures
        match spec_uint_literal(s@) {
            Some(v) => v >= 0 && if v <= cap {
                r == Some(v as u64)
            } else {
                r is None
            },
            None => r is None,
        },
{
    proof {
        lemma_uint_literal_nonneg(s@);
    }
    let n = s.unicode_len();
    if n >= 2 {
        let c0 = s.get_char(0);
        let c1 = s.get_char(1);
        if c0 == '0' && c1 == 'x' {
            return parse_radix_digits(s, 2, 16, cap);
        }
        if c0 == '0' && c1 == 'b' {
            return parse_radix_digits(s, 2, 2, cap);
        }
    }
    proof {
        assert(s@.subrange(0, s@.len() as int) =~= s@);
    }
    parse_radix_digits(s, 0, 10, cap)
}

/// Parse an unsigned 16-bit register literal (decimal, `0x` hex or
/// `0b` binary).
pub fn parse_u16_literal(s: &str) -> (r: Option<u16>)
    ensures
        match spec_uint_literal(s@) {
            Some(v) => v >= 0 && if v <= 0xFFFF {
                r == Some(v as u16)
            } else {
                r is None
            },
            None => r is None,
        },
{
    match parse_uint_literal(s, 0xFFFF) {
        Some(v) => Some(v as u16),
        None => None,
    }
}

/// Parse an unsigned 32-bit register literal (decimal, `0x` hex or
/// `0b` binary).
pub fn parse_u32_literal(s: &str) -> (r: Option<u32>)
    ensures
        match spec_uint_literal(s@) {
            Some(v) => v >= 0 && if v <= 0xFFFF_FFFF {
                r == Some(v as u32)
            } else {
                r is None
            },
            None => r is None,
        },
{
    match parse_uint_literal(s, 0xFFFF_FFFF) {
        Some(v) => Some(v as u32),
        None => None,
    }
}

/// The value of a signed decimal literal: an optional `+` or `-` sign
/// followed by decimal digits.
pub open spec fn spec_signed_literal(s: Seq<char>) -> Option<int> {
    if s.len() >= 1 && (s[0] == '-' || s[0] == '+') {
        if is_digit_seq(s.subrange(1, s.len() as int), 10) {
            if s[0] == '-' {
                Some(-radix_value(s.subrange(1, s.len() as int), 10))
            } else {
                Some(radix_value(s.subrange(1, s.len() as int), 10))
            }
        } else {
            None
        }
    } else if is_digit_seq(s, 10) {
        Some(radix_value(s, 10))
    } else {
        None
    }
}

/// Parse a signed decimal literal with the given magnitude bounds.
fn parse_signed_literal(s: &str, neg_cap: u64, pos_cap: u64) -> (r: Option<(bool, u64)>)
    requires
        neg_cap <= (u64::MAX - 15) / 16,
        pos_cap <= (u64::MAX - 15) / 16,
    ensures
        match spec_signed_literal(s@) {
            Some(v) => if v == 0 {
                r matches Some(p) && p.1 == 0
            } else if 0 < v <= pos_cap {
                r == Some((false, v as u64))
            } else if -(neg_cap as int) <= v < 0 {
                r == Some((true, (-v) as u64))
            } else {
                r is None
            },
            None => r is None,
        },
{
    let n = s.unicode_len();
    if n >= 1 {
        let c0 = s.get_char(0);
        if c0 == '-' {
            return match parse_radix_digits(s, 1, 10, neg_cap) {
                Some(v) => {
                    proof {
                        lemma_radix_value_nonneg(s@.subrange(1, s@.len() as int), 10);
                    }
                    Some((true, v))
                },
                None => None,
            };
        }
        if c0 == '+' {
            return match parse_radix_digits(s, 1, 10, pos_cap) {
                Some(v) => Some((false, v)),
                None => None,
            };
        }
    }
    proof {
        assert(s@.subrange(0, s@.len() as int) =~= s@);
    }
    match parse_radix_digits(s, 0, 10, pos_cap) {
        Some(v) => Some((false, v)),
        None => None,
    }
}

/// Parse a signed 16-bit decimal literal.
pub fn parse_i16_literal(s: &str) -> (r: Option<i16>)
    ensures
        match spec_signed_literal(s@) {
            Some(v) => if -0x8000 <= v <= 0x7FFF {
                r == Some(v as i16)
            } else {
                r is None
            },
            None => r is None,
        },
{
    match parse_signed_literal(s, 0x8000, 0x7FFF) {
        Some((neg, m)) => {
            if neg {
                Some((-(m as i32)) as i16)
            } else {
                Some(m as i16)
            }
        },
        None => None,
    }
}

/// Parse a signed 32-bit decimal literal.
pub fn parse_i32_literal(s: &str) -> (r: Option<i32>)
    ensures
        match spec_signed_literal(s@) {
            Some(v) => if -0x8000_0000 <= v <= 0x7FFF_FFFF {
                r == Some(v as i32)
            } else {
                r is None
            },
            None => r is None,
        },
{
    match parse_signed_literal(s, 0x8000_0000, 0x7FFF_FFFF) {
        Some((neg, m)) => {
            if neg {
                Some((-(m as i64)) as i32)
            } else {
                Some(m as i32)
            }
        },
        None => None,
    }
}

/// Parse a boolean literal: exactly `true` or `false`.
pub fn parse_bool_literal(s: &str) -> (r: Option<bool>)
    ensures
        r == (if s@ == "true"@ {
            Some(true)
        } else if s@ == "false"@ {
            Some(false)
        } else {
            None::<bool>
        }),
{
    if str_eq(s, "true") {
        Some(true)
    } else if str_eq(s, "false") {
        Some(false)
    } else {
        None
    }
}

/// Parse a start reference: a 16-bit number in decimal, hex or binary.
pub fn parse_reference(s: &str) -> (r: Result<u16, ConfigError>)
    ensures
        match spec_uint_literal(s@) {
            Some(v) => if v <= 0xFFFF {
                r == Ok::<u16, ConfigError>(v as u16)
            } else {
                r == Err::<u16, ConfigError>(ConfigError::InvalidReference)
            },
            None => r == Err::<u16, ConfigError>(ConfigError::InvalidReference),
        },
{
    match parse_u16_literal(s) {
        Some(v) => Ok(v),
        None => Err(ConfigError::InvalidReference),
    }
}

/// The value in milliseconds of a fraction-of-a-second digit string:
/// the first three digits, padded with zeros on the right.  Digits past
/// the millisecond are dropped.
pub open spec fn frac_millis(f: Seq<char>) -> int {
    if f.len() >= 3 {
        radix_value(f.subrange(0, 3), 10)
    } else if f.len() == 2 {
        radix_value(f, 10) * 10
    } else {
        radix_value(f, 10) * 100
    }
}

/// The value in milliseconds of a timeout literal: decimal seconds with
/// an optional fractional part, such as `1`, `0.25` or `10.`.  At least
/// one digit must be present.
pub open spec fn spec_timeout_millis(s: Seq<char>) -> Option<int> {
    match find_from(s, '.', 0) {
        None => if is_digit_seq(s, 10) {
            Some(radix_value(s, 10) * 1000)
        } else {
            None
        },
        Some(i) => {
            let ip = s.subrange(0, i);
            let fp = s.subrange(i + 1, s.len() as int);
            if (ip.len() == 0 || is_digit_seq(ip, 10)) && (fp.len() == 0 || is_digit_seq(fp, 10))
                && (ip.len() > 0 || fp.len() > 0) {
                Some(radix_value(ip, 10) * 1000 + frac_millis(fp))
            } else {
                None
            }
        },
    }
}

/// The largest timeout this crate accepts, in milliseconds: the largest
/// whole-second value whose milliseconds still fit a 64-bit counter.
pub open spec fn spec_timeout_cap_millis() -> int {
    18_446_744_073_709_550_999
}

/// Parse a timeout given in seconds into milliseconds.
pub fn parse_timeout(s: &str) -> (r: Result<u64, ConfigError>)
    ensures
        match spec_timeout_millis(s@) {
            Some(v) => if v <= spec_timeout_cap_millis() {
                r == Ok::<u64, ConfigError>(v as u64)
            } else {
                r == Err::<u64, ConfigError>(ConfigError::InvalidTimeout)
            },
            None => r == Err::<u64, ConfigError>(ConfigError::InvalidTimeout),
        },
{
    let n = s.unicode_len();
    let dot = crate::strutil::find_char(s, '.');
    match dot {
        None => {
            proof {
                assert(s@.subrange(0, s@.len() as int) =~= s@);
            }
            match parse_radix_digits(s, 0, 10, 18_446_744_073_709_550) {
                Some(v) => Ok(v * 1000),
                None => Err(ConfigError::InvalidTimeout),
            }
        },
        Some(i) => {
            let ghost ip = s@.subrange(0, i as int);
            let ghost fp = s@.subrange(i + 1, s@.len() as int);
            let ip_val: u64 = if i == 0 {
                proof {
                    assert(radix_value(ip, 10) == 0);
                }
                0
            } else {
                match parse_radix_digits_range(s, 0, i, 10, 18_446_744_073_709_550) {
                    Some(v) => v,
                    None => {
                        proof {
                            lemma_frac_millis_bounds_cond(fp);
                        }
                        return Err(ConfigError::InvalidTimeout);
                    },
                }
            };
            let fp_start = i + 1;
            let fp_val: u64 = if fp_start == n {
                if i == 0 {
                    return Err(ConfigError::InvalidTimeout);
                }
                proof {
                    assert(fp.len() == 0);
                    assert(radix_value(fp, 10) == 0);
                }
                0
            } else {
                match parse_frac_millis(s, fp_start) {
                    Some(v) => v,
                    None => {
                        return Err(ConfigError::InvalidTimeout);
                    },
                }
            };
            Ok(ip_val * 1000 + fp_val)
        },
    }
}

/// Parse the decimal digits of `s` in positions `from..to`, refusing
/// values above `cap`.
pub fn parse_dec_range(s: &str, from: usize, to: usize, cap: u64) -> (r: Option<u64>)
    requires
        from <= to <= s@.len(),
        cap <= (u64::MAX - 15) / 16,
    ensures
        match r {
            Some(v) => is_digit_seq(s@.subrange(from as int, to as int), 10) && radix_value(
                s@.subrange(from as int, to as int),
                10,
            ) == v && v <= cap,
            None => !is_digit_seq(s@.subrange(from as int, to as int), 10) || radix_value(
                s@.subrange(from as int, to as int),
                10,
            ) > cap,
        },
{
    parse_radix_digits_range(s, from, to, 10, cap)
}

/// Parse the digits of `s` in positions `from..to` as a number of the
/// given base, refusing values above `cap`.
fn parse_radix_digits_range(s: &str, from: usize, to: usize, base: u64, cap: u64) -> (r: Option<
    u64,
>)
    requires
        from <= to <= s@.len(),
        base == 2 || base == 10 || base == 16,
        cap <= (u64::MAX - 15) / 16,
    ensures
        match r {
            Some(v) => is_digit_seq(s@.subrange(from as int, to as int), base as int)
                && radix_value(s@.subrange(from as int, to as int), base as int) == v && v <= cap,
            None => !is_digit_seq(s@.subrange(from as int, to as int), base as int)
                || radix_value(s@.subrange(from as int, to as int), base as int) > cap,
        },
{
    let sub = s.substring_char(from, to);
    proof {
        assert(sub@.subrange(0, sub@.len() as int) =~= s@.subrange(from as int, to as int));
    }
    parse_radix_digits(sub, 0, base, cap)
}

/// Parse the fractional part of a timeout, from `from` to the end of
/// `s`, into milliseconds.
fn parse_frac_millis(s: &str, from: usize) -> (r: Option<u64>)
    requires
        from < s@.len(),
    ensures
        ({
            let fp = s@.subrange(from as int, s@.len() as int);
            match r {
                Some(v) => is_digit_seq(fp, 10) && frac_millis(fp) == v && v <= 999,
                None => !is_digit_seq(fp, 10),
            }
        }),
{
    let n = s.unicode_len();
    let len = n - from;
    let ghost fp = s@.subrange(from as int, s@.len() as int);
    if len >= 3 {
        let head = match parse_radix_digits_range(s, from, from + 3, 10, 999) {
            Some(v) => v,
            None => {
                proof {
                    let h = s@.subrange(from as int, from + 3);
                    if is_digit_seq(fp, 10) {
                        assert(forall|k: int| 0 <= k < h.len() ==> h[k] == fp[k]);
                        assert(is_digit_seq(h, 10));
                        lemma_three_digit_bound(h);
                    }
                }
                return None;
            },
        };
        // the remaining digits must still be digits, though their value
        // is dropped
        let mut j = from + 3;
        while j < n
            invariant
                from + 3 <= j <= n,
                n == s@.len(),
                fp == s@.subrange(from as int, s@.len() as int),
                forall|k: int| from + 3 <= k < j ==> is_radix_digit(s@[k], 10),
            decreases n - j,
        {
            let c = s.get_char(j);
            match digit_of(c, 10) {
                None => {
                    proof {
                        assert(fp[j - from] == s@[j as int]);
                    }
                    return None;
                },
                Some(_) => {},
            }
            j = j + 1;
        }
        proof {
            assert(fp.subrange(0, 3) =~= s@.subrange(from as int, from + 3));
            assert(forall|k: int| 0 <= k < fp.len() ==> is_radix_digit(fp[k], 10)) by {
                assert(forall|k: int| 0 <= k < fp.len() ==> fp[k] == s@[from + k]);
            }
        }
        Some(head)
    } else if len == 2 {
        match parse_radix_digits(s, from, 10, 99) {
            Some(v) => Some(v * 10),
            None => {
                proof {
                    if is_digit_seq(fp, 10) {
                        lemma_two_digit_bound(fp);
                    }
                }
                None
            },
        }
    } else {
        match parse_radix_digits(s, from, 10, 9) {
            Some(v) => Some(v * 100),
            None => {
                proof {
                    if is_digit_seq(fp, 10) {
                        assert(fp.len() == 1);
                        assert(fp.drop_last() =~= Seq::<char>::empty());
                        assert(radix_value(Seq::<char>::empty(), 10) == 0);
                        assert(radix_value(fp, 10) == digit_val(fp.last()));
                    }
                }
                None
            },
        }
    }
}

/// The fraction bound, guarded on the fraction being well formed.
proof fn lemma_frac_millis_bounds_cond(f: Seq<char>)
    ensures
        (f.len() == 0 || is_digit_seq(f, 10)) ==> 0 <= frac_millis(f) <= 999,
{
    if f.len() == 0 || is_digit_seq(f, 10) {
        lemma_frac_millis_bounds(f);
    }
}

/// The millisecond value of a digit-string fraction lies in 0..=999.
proof fn lemma_frac_millis_bounds(f: Seq<char>)
    requires
        f.len() == 0 || is_digit_seq(f, 10),
    ensures
        0 <= frac_millis(f) <= 999,
{
    if f.len() == 0 {
        assert(radix_value(f, 10) == 0);
    } else if f.len() >= 3 {
        let h = f.subrange(0, 3);
        assert(forall|k: int| 0 <= k < h.len() ==> h[k] == f[k]);
        lemma_three_digit_bound(h);
    } else if f.len() == 2 {
        lemma_two_digit_bound(f);
    } else {
        assert(f.drop_last() =~= Seq::<char>::empty());
        assert(radix_value(Seq::<char>::empty(), 10) == 0);
        assert(radix_value(f, 10) == digit_val(f.last()));
        assert(is_radix_digit(f[0], 10));
    }
}

/// A three-digit decimal string is at most 999.
proof fn lemma_three_digit_bound(s: Seq<char>)
    requires
        s.len() == 3,
        is_digit_seq(s, 10),
    ensures
        0 <= radix_value(s, 10) <= 999,
{
    let p = s.drop_last();
    assert(forall|i: int| 0 <= i < p.len() ==> p[i] == s[i]);
    lemma_two_digit_bound(p);
    assert(is_radix_digit(s[2], 10));
    assert(0 <= digit_val(s.last()) <= 9);
    let pv = radix_value(p, 10);
    assert(pv * 10 <= 990) by (nonlinear_arith)
        requires
            0 <= pv <= 99,
    ;
}

/// A two-digit decimal string is at most 99.
proof fn lemma_two_digit_bound(s: Seq<char>)
    requires
        s.len() == 2,
        is_digit_seq(s, 10),
    ensures
        0 <= radix_value(s, 10) <= 99,
{
    let p = s.drop_last();
    assert(p.len() == 1);
    assert(p.drop_last() =~= Seq::<char>::empty());
    assert(radix_value(Seq::<char>::empty(), 10) == 0);
    assert(p[0] == s[0]);
    assert(is_radix_digit(s[0], 10));
    assert(radix_value(p, 10) == digit_val(p.last()));
    assert(0 <= radix_value(p, 10) <= 9);
    assert(is_radix_digit(s[1], 10));
    assert(0 <= digit_val(s.last()) <= 9);
}

} // verus!
