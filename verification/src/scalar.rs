//! Scalar token parsing: the meaning of a token as a boolean or as a
//! decimal integer of each supported width, and the corresponding
//! verified executable parsers.  The text-to-value conversions follow
//! the standard library's textual conversions: an optional sign (only
//! `+` for the unsigned widths) followed by one or more decimal digits,
//! rejecting the token when the value does not fit the width.

use vstd::prelude::*;

verus! {

pub open spec fn is_digit(c: char) -> bool {
    48 <= c as u32 <= 57
}

pub open spec fn digit_val(c: char) -> int {
    c as u32 - 48
}

pub open spec fn all_digits(s: Seq<char>) -> bool {
    forall|i: int| 0 <= i < s.len() ==> is_digit(#[trigger] s[i])
}

/// The value of a non-empty string of decimal digits, most significant
/// digit first.
pub open spec fn digits_val(s: Seq<char>) -> int
    decreases s.len(),
{
    if s.len() == 0 {
        0
    } else {
        10 * digits_val(s.drop_last()) + digit_val(s.last())
    }
}

/// The value denoted by a bare digit string: at least one digit and
/// nothing else.
pub open spec fn dec_digits(s: Seq<char>) -> Option<int> {
    if s.len() > 0 && all_digits(s) {
        Some(digits_val(s))
    } else {
        None
    }
}

/// The integer denoted by a signed decimal token: an optional `+` or
/// `-`, then digits.
pub open spec fn int_text_val(s: Seq<char>) -> Option<int> {
    if s.len() == 0 {
        None
    } else if s[0] == '+' {
        dec_digits(s.drop_first())
    } else if s[0] == '-' {
        match dec_digits(s.drop_first()) {
            Some(n) => Some(-n),
            None => None,
        }
    } else {
        dec_digits(s)
    }
}

/// The integer denoted by an unsigned decimal token: an optional `+`,
/// then digits.
pub open spec fn uint_text_val(s: Seq<char>) -> Option<int> {
    if s.len() == 0 {
        None
    } else if s[0] == '+' {
        dec_digits(s.drop_first())
    } else {
        dec_digits(s)
    }
}

pub open spec fn i32_of_text(s: Seq<char>) -> Option<i32> {
    match int_text_val(s) {
        Some(n) => if i32::MIN <= n <= i32::MAX {
            Some(n as i32)
        } else {
            None
        },
        None => None,
    }
}

pub open spec fn i64_of_text(s: Seq<char>) -> Option<i64> {
    match int_text_val(s) {
        Some(n) => if i64::MIN <= n <= i64::MAX {
            Some(n as i64)
        } else {
            None
        },
        None => None,
    }
}

pub open spec fn u32_of_text(s: Seq<char>) -> Option<u32> {
    match uint_text_val(s) {
        Some(n) => if n <= u32::MAX {
            Some(n as u32)
        } else {
            None
        },
        None => None,
    }
}

pub open spec fn u64_of_text(s: Seq<char>) -> Option<u64> {
    match uint_text_val(s) {
        Some(n) => if n <= u64::MAX {
            Some(n as u64)
        } else {
            None
        },
        None => None,
    }
}

/// The boolean denoted by a token: exactly `true` or `false`.
pub open spec fn bool_of_text(s: Seq<char>) -> Option<bool> {
    if s == "true"@ {
        Some(true)
    } else if s == "false"@ {
        Some(false)
    } else {
        None
    }
}

/// Character-wise string equality.
pub fn str_eq(a: &str, b: &str) -> (r: bool)
    ensures
        r == (a@ == b@),
{
    let alen = a.unicode_len();
    let blen = b.unicode_len();
    if alen != blen {
        assert(a@ != b@) by {
            assert(a@.len() != b@.len());
        }
        return false;
    }
    let mut i: usize = 0;
    while i < alen
        invariant
            alen == a@.len(),
            alen == b@.len(),
            0 <= i <= alen,
            forall|k: int| 0 <= k < i ==> a@[k] == b@[k],
        decreases alen - i,
    {
        if a.get_char(i) != b.get_char(i) {
            return false;
        }
        i += 1;
    }
    proof {
        assert(a@ =~= b@);
    }
    true
}

pub proof fn lemma_digits_val_bounds(s: Seq<char>)
    requires
        all_digits(s),
    ensures
        0 <= digits_val(s),
    decreases s.len(),
{
    if s.len() > 0 {
        assert(all_digits(s.drop_last())) by {
            assert(forall|i: int| 0 <= i < s.len() - 1 ==> s.drop_last()[i] == s[i]);
        }
        lemma_digits_val_bounds(s.drop_last());
    }
}

/// Parses the digit run `s[start..]` as an unsigned 64-bit value.
/// Returns the value exactly when the suffix is one or more decimal
/// digits whose value fits; distinguishes nothing else.
fn parse_magnitude(s: &str, start: usize) -> (r: Option<u64>)
    requires
        start <= s@.len(),
    ensures
        match dec_digits(s@.subrange(start as int, s@.len() as int)) {
            Some(n) => 0 <= n && r == (if n <= u64::MAX {
                Some(n as u64)
            } else {
                None::<u64>
            }),
            None => r is None,
        },
{
    let len = s.unicode_len();
    let ghost digits = s@.subrange(start as int, s@.len() as int);
    if start == len {
        return None;
    }
    let mut i: usize = start;
    let mut acc: u64 = 0;
    let mut over: bool = false;
    while i < len
        invariant
            start <= i <= len,
            len == s@.len(),
            start < len,
            digits == s@.subrange(start as int, len as int),
            all_digits(s@.subrange(start as int, i as int)),
            forall|k: int| start <= k < i ==> is_digit(#[trigger] s@[k]),
            !over ==> acc as int == digits_val(s@.subrange(start as int, i as int)),
            over ==> digits_val(s@.subrange(start as int, i as int)) > u64::MAX,
        decreases len - i,
    {
        let c = s.get_char(i);
        let cv = c as u32;
        if cv < 48 || cv > 57 {
            assert(digits[i - start] == s@[i as int]);
            assert(!all_digits(digits));
            return None;
        }
        let d: u64 = (cv - 48) as u64;
        let ghost pre = s@.subrange(start as int, i as int);
        let ghost ext = s@.subrange(start as int, i + 1);
        assert(ext.drop_last() =~= pre);
        assert(ext.last() == s@[i as int]);
        assert(digits_val(ext) == 10 * digits_val(pre) + d);
        if over {
            proof {
                assert(digits_val(pre) >= 0) by {
                    lemma_digits_val_bounds(pre);
                }
                assert(digits_val(ext) > u64::MAX);
            }
        } else {
            // u64::MAX == 18446744073709551615; its leading digits are
            // 1844674407370955161 and its last digit is 5.
            if acc > 1844674407370955161u64 || (acc == 1844674407370955161u64 && d > 5) {
                over = true;
                proof {
                    assert(digits_val(ext) > u64::MAX);
                }
            } else {
                acc = acc * 10 + d;
            }
        }
        i += 1;
        proof {
            assert(all_digits(s@.subrange(start as int, i as int)));
        }
    }
    assert(s@.subrange(start as int, i as int) =~= digits);
    assert(digits.len() > 0);
    proof {
        lemma_digits_val_bounds(digits);
    }
    if over {
        None
    } else {
        Some(acc)
    }
}

/// The value of an unsigned decimal token is never negative.
pub proof fn lemma_uint_text_val_nonneg(s: Seq<char>)
    ensures
        uint_text_val(s) matches Some(n) ==> n >= 0,
{
    if s.len() > 0 && s[0] == '+' {
        if dec_digits(s.drop_first()) is Some {
            lemma_digits_val_bounds(s.drop_first());
        }
    } else if dec_digits(s) is Some {
        lemma_digits_val_bounds(s);
    }
}

/// Parses a token as an unsigned 64-bit decimal integer.
pub fn parse_u64_token(s: &str) -> (r: Option<u64>)
    ensures
        r == u64_of_text(s@),
{
    let len = s.unicode_len();
    if len == 0 {
        return None;
    }
    if s.get_char(0) == '+' {
        let r = parse_magnitude(s, 1);
        assert(s@.subrange(1, s@.len() as int) =~= s@.drop_first());
        r
    } else {
        let r = parse_magnitude(s, 0);
        assert(s@.subrange(0, s@.len() as int) =~= s@);
        r
    }
}

/// Parses a token as an unsigned 32-bit decimal integer.
pub fn parse_u32_token(s: &str) -> (r: Option<u32>)
    ensures
        r == u32_of_text(s@),
{
    proof {
        lemma_uint_text_val_nonneg(s@);
    }
    match parse_u64_token(s) {
        Some(v) => if v <= u32::MAX as u64 {
            Some(v as u32)
        } else {
            None
        },
        None => None,
    }
}

/// Parses a token as a signed 64-bit decimal integer.
pub fn parse_i64_token(s: &str) -> (r: Option<i64>)
    ensures
        r == i64_of_text(s@),
{
    let len = s.unicode_len();
    if len == 0 {
        return None;
    }
    let c0 = s.get_char(0);
    if c0 == '-' {
        match parse_magnitude(s, 1) {
            Some(mag) => {
                assert(s@.subrange(1, s@.len() as int) =~= s@.drop_first());
                if mag <= 9223372036854775807u64 {
                    Some(-(mag as i64))
                } else if mag == 9223372036854775808u64 {
                    Some(i64::MIN)
                } else {
                    None
                }
            },
            None => {
                assert(s@.subrange(1, s@.len() as int) =~= s@.drop_first());
                proof {
                    if dec_digits(s@.drop_first()) is Some {
                        lemma_digits_val_bounds(s@.drop_first());
                    }
                }
                None
            },
        }
    } else {
        let start: usize = if c0 == '+' {
            1
        } else {
            0
        };
        match parse_magnitude(s, start) {
            Some(mag) => {
                assert(s@.subrange(1, s@.len() as int) =~= s@.drop_first());
                assert(s@.subrange(0, s@.len() as int) =~= s@);
                if mag <= i64::MAX as u64 {
                    Some(mag as i64)
                } else {
                    None
                }
            },
            None => {
                assert(s@.subrange(1, s@.len() as int) =~= s@.drop_first());
                assert(s@.subrange(0, s@.len() as int) =~= s@);
                None
            },
        }
    }
}

/// Parses a token as a signed 32-bit decimal integer.
pub fn parse_i32_token(s: &str) -> (r: Option<i32>)
    ensures
        r == i32_of_text(s@),
{
    let len = s.unicode_len();
    if len == 0 {
        return None;
    }
    let c0 = s.get_char(0);
    if c0 == '-' {
        match parse_magnitude(s, 1) {
            Some(mag) => {
                assert(s@.subrange(1, s@.len() as int) =~= s@.drop_first());
                if mag <= 2147483647u64 {
                    Some(-(mag as i32))
                } else if mag == 2147483648u64 {
                    Some(i32::MIN)
                } else {
                    None
                }
            },
            None => {
                assert(s@.subrange(1, s@.len() as int) =~= s@.drop_first());
                proof {
                    if dec_digits(s@.drop_first()) is Some {
                        lemma_digits_val_bounds(s@.drop_first());
                    }
                }
                None
            },
        }
    } else {
        let start: usize = if c0 == '+' {
            1
        } else {
            0
        };
        match parse_magnitude(s, start) {
            Some(mag) => {
                assert(s@.subrange(1, s@.len() as int) =~= s@.drop_first());
                assert(s@.subrange(0, s@.len() as int) =~= s@);
                if mag <= i32::MAX as u64 {
                    Some(mag as i32)
                } else {
                    None
                }
            },
            None => {
                assert(s@.subrange(1, s@.len() as int) =~= s@.drop_first());
                assert(s@.subrange(0, s@.len() as int) =~= s@);
                None
            },
        }
    }
}

/// Parses a token as a boolean: exactly `true` or `false`.
pub fn parse_bool_token(s: &str) -> (r: Option<bool>)
    ensures
        r == bool_of_text(s@),
{
    if str_eq(s, "true") {
        Some(true)
    } else if str_eq(s, "false") {
        Some(false)
    } else {
        None
    }
}

} // verus!
