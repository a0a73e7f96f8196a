//! The floating-point token grammar.  Floating-point numbers themselves
//! cannot appear in the verified library, so a floating-point field
//! keeps the token text of its value, validated here against the
//! grammar that the standard text-to-float conversion accepts:
//! an optional sign, then either one of the named values `inf`,
//! `infinity` or `nan` (case-insensitively) or a decimal number
//! `digits`, `digits.digits?` or `.digits`, optionally followed by an
//! exponent `e`/`E`, an optional sign and one or more digits.

use vstd::prelude::*;
use crate::scalar::all_digits;

verus! {

/// `c` equals the lowercase letter `l`, ignoring case.
pub open spec fn ci_char(c: char, l: char) -> bool {
    c == l || c as u32 == l as u32 - 32
}

/// `a` spells the all-lowercase word `word`, ignoring case.
pub open spec fn ci_matches(a: Seq<char>, word: Seq<char>) -> bool {
    a.len() == word.len() && forall|i: int| 0 <= i < a.len() ==> ci_char(#[trigger] a[i], word[i])
}

/// The number of characters before the first `.`.
pub open spec fn dot_prefix_len(s: Seq<char>) -> int
    decreases s.len(),
{
    if s.len() == 0 || s[0] == '.' {
        0
    } else {
        1 + dot_prefix_len(s.drop_first())
    }
}

/// The number of characters before the first exponent marker.
pub open spec fn exp_prefix_len(s: Seq<char>) -> int
    decreases s.len(),
{
    if s.len() == 0 || s[0] == 'e' || s[0] == 'E' {
        0
    } else {
        1 + exp_prefix_len(s.drop_first())
    }
}

/// A well-formed exponent tail: an optional sign, then digits.
pub open spec fn exp_ok(s: Seq<char>) -> bool {
    if s.len() > 0 && (s[0] == '+' || s[0] == '-') {
        s.drop_first().len() > 0 && all_digits(s.drop_first())
    } else {
        s.len() > 0 && all_digits(s)
    }
}

/// A well-formed mantissa: digits, optionally split by one `.`, with at
/// least one digit on one side of it.
pub open spec fn mantissa_ok(s: Seq<char>) -> bool {
    let k = dot_prefix_len(s);
    if k == s.len() {
        s.len() > 0 && all_digits(s)
    } else {
        all_digits(s.subrange(0, k)) && all_digits(s.subrange(k + 1, s.len() as int)) && (k > 0
            || s.len() > k + 1)
    }
}

/// A well-formed unsigned number: a mantissa with an optional exponent.
pub open spec fn number_ok(s: Seq<char>) -> bool {
    let k = exp_prefix_len(s);
    if k == s.len() {
        mantissa_ok(s)
    } else {
        mantissa_ok(s.subrange(0, k)) && exp_ok(s.subrange(k + 1, s.len() as int))
    }
}

pub open spec fn strip_sign(s: Seq<char>) -> Seq<char> {
    if s.len() > 0 && (s[0] == '+' || s[0] == '-') {
        s.drop_first()
    } else {
        s
    }
}

/// A token accepted by the standard floating-point conversion.
pub open spec fn is_float_text(s: Seq<char>) -> bool {
    let b = strip_sign(s);
    ci_matches(b, "inf"@) || ci_matches(b, "infinity"@) || ci_matches(b, "nan"@) || number_ok(b)
}

proof fn lemma_dot_prefix_at(s: Seq<char>, j: int)
    requires
        0 <= j <= s.len(),
        forall|m: int| 0 <= m < j ==> s[m] != '.',
        j == s.len() || s[j] == '.',
    ensures
        dot_prefix_len(s) == j,
    decreases j,
{
    if j > 0 {
        let t = s.drop_first();
        assert(forall|m: int| 0 <= m < j - 1 ==> t[m] == s[m + 1] && s[m + 1] != '.');
        assert(j - 1 == t.len() || t[j - 1] == '.');
        lemma_dot_prefix_at(t, j - 1);
    }
}

proof fn lemma_exp_prefix_at(s: Seq<char>, j: int)
    requires
        0 <= j <= s.len(),
        forall|m: int| 0 <= m < j ==> s[m] != 'e' && s[m] != 'E',
        j == s.len() || s[j] == 'e' || s[j] == 'E',
    ensures
        exp_prefix_len(s) == j,
    decreases j,
{
    if j > 0 {
        let t = s.drop_first();
        assert(forall|m: int| 0 <= m < j - 1 ==> t[m] == s[m + 1] && s[m + 1] != 'e' && s[m + 1]
            != 'E');
        assert(j - 1 == t.len() || t[j - 1] == 'e' || t[j - 1] == 'E');
        lemma_exp_prefix_at(t, j - 1);
    }
}

/// Checks that every character of `s[from..to]` is a decimal digit.
fn check_digits(s: &str, from: usize, to: usize) -> (r: bool)
    requires
        from <= to <= s@.len(),
    ensures
        r == all_digits(s@.subrange(from as int, to as int)),
{
    let ghost part = s@.subrange(from as int, to as int);
    let mut i: usize = from;
    while i < to
        invariant
            from <= i <= to <= s@.len(),
            part == s@.subrange(from as int, to as int),
            forall|k: int| from <= k < i ==> crate::scalar::is_digit(#[trigger] s@[k]),
        decreases to - i,
    {
        let cv = s.get_char(i) as u32;
        if cv < 48 || cv > 57 {
            assert(part[i - from] == s@[i as int]);
            return false;
        }
        i += 1;
    }
    assert forall|k: int| 0 <= k < part.len() implies crate::scalar::is_digit(#[trigger] part[k]) by {
        assert(part[k] == s@[from + k]);
    }
    true
}

/// Compares `s[lo..]` with the all-lowercase word `w`, ignoring case.
fn ci_match_tail(s: &str, lo: usize, w: &str) -> (r: bool)
    requires
        lo <= s@.len(),
    ensures
        r == ci_matches(s@.skip(lo as int), w@),
{
    let ghost tail = s@.skip(lo as int);
    let slen = s.unicode_len();
    let wlen = w.unicode_len();
    if slen - lo != wlen {
        return false;
    }
    let mut i: usize = 0;
    while i < wlen
        invariant
            slen == s@.len(),
            lo + wlen == slen,
            wlen == w@.len(),
            0 <= i <= wlen,
            tail == s@.skip(lo as int),
            forall|k: int| 0 <= k < i ==> ci_char(#[trigger] tail[k], w@[k]),
        decreases wlen - i,
    {
        let c = s.get_char(lo + i);
        let l = w.get_char(i);
        assert(tail[i as int] == s@[lo + i]);
        if !(c == l || (l as u32 >= 32 && c as u32 == l as u32 - 32)) {
            assert(!ci_char(tail[i as int], w@[i as int]));
            return false;
        }
        i += 1;
    }
    true
}

/// Checks a token against the floating-point grammar.
pub fn is_float_token(s: &str) -> (r: bool)
    ensures
        r == is_float_text(s@),
{
    let len = s.unicode_len();
    let lo: usize = if len > 0 {
        let c0 = s.get_char(0);
        if c0 == '+' || c0 == '-' {
            1
        } else {
            0
        }
    } else {
        0
    };
    let ghost b = strip_sign(s@);
    proof {
        assert(b =~= s@.skip(lo as int));
    }
    if ci_match_tail(s, lo, "inf") || ci_match_tail(s, lo, "infinity") || ci_match_tail(
        s,
        lo,
        "nan",
    ) {
        return true;
    }
    // Find the exponent marker, if any.
    let mut ke: usize = lo;
    let mut ke_found = false;
    while !ke_found && ke < len
        invariant
            lo <= ke <= len,
            len == s@.len(),
            forall|m: int| lo <= m < ke ==> s@[m] != 'e' && s@[m] != 'E',
            ke_found ==> ke < len && (s@[ke as int] == 'e' || s@[ke as int] == 'E'),
        decreases len - ke + (if ke_found {
            0int
        } else {
            1int
        }),
    {
        let c = s.get_char(ke);
        if c == 'e' || c == 'E' {
            ke_found = true;
        } else {
            ke += 1;
        }
    }
    proof {
        assert forall|m: int| 0 <= m < ke - lo implies b[m] != 'e' && b[m] != 'E' by {
            assert(b[m] == s@[lo + m]);
        }
        if ke < len {
            assert(b[ke - lo] == s@[ke as int]);
        }
        lemma_exp_prefix_at(b, ke - lo);
    }
    let mant = check_mantissa(s, lo, ke);
    proof {
        assert(s@.subrange(lo as int, ke as int) =~= b.subrange(0, ke - lo));
    }
    if ke == len {
        return mant;
    }
    if !mant {
        return false;
    }
    // Exponent tail: s[ke + 1 .. len].
    let ghost et = b.subrange(ke - lo + 1, b.len() as int);
    let mut elo: usize = ke + 1;
    if elo < len {
        let c = s.get_char(elo);
        if c == '+' || c == '-' {
            elo += 1;
        }
    }
    proof {
        assert(et =~= s@.subrange(ke + 1, len as int));
        if et.len() > 0 && (et[0] == '+' || et[0] == '-') {
            assert(et.drop_first() =~= s@.subrange(elo as int, len as int));
        } else {
            assert(et =~= s@.subrange(elo as int, len as int));
        }
    }
    if elo == len {
        assert(!exp_ok(et));
        return false;
    }
    let r = check_digits(s, elo, len);
    proof {
        if r {
            assert(s@.subrange(elo as int, len as int).len() > 0);
        }
    }
    r
}

/// Checks that `s[lo..hi]` is a well-formed mantissa.
fn check_mantissa(s: &str, lo: usize, hi: usize) -> (r: bool)
    requires
        lo <= hi <= s@.len(),
    ensures
        r == mantissa_ok(s@.subrange(lo as int, hi as int)),
{
    let ghost part = s@.subrange(lo as int, hi as int);
    let mut kd: usize = lo;
    let mut kd_found = false;
    while !kd_found && kd < hi
        invariant
            lo <= kd <= hi <= s@.len(),
            forall|m: int| lo <= m < kd ==> s@[m] != '.',
            kd_found ==> kd < hi && s@[kd as int] == '.',
        decreases hi - kd + (if kd_found {
            0int
        } else {
            1int
        }),
    {
        if s.get_char(kd) == '.' {
            kd_found = true;
        } else {
            kd += 1;
        }
    }
    proof {
        assert forall|m: int| 0 <= m < kd - lo implies part[m] != '.' by {
            assert(part[m] == s@[lo + m]);
        }
        if kd < hi {
            assert(part[kd - lo] == s@[kd as int]);
        }
        lemma_dot_prefix_at(part, kd - lo);
    }
    if kd == hi {
        // No dot: one or more digits.
        let r = hi > lo && check_digits(s, lo, hi);
        proof {
            assert(part =~= s@.subrange(lo as int, hi as int));
        }
        r
    } else {
        let ip = check_digits(s, lo, kd);
        let fp = check_digits(s, kd + 1, hi);
        proof {
            assert(s@.subrange(lo as int, kd as int) =~= part.subrange(0, kd - lo));
            assert(s@.subrange(kd + 1, hi as int) =~= part.subrange(kd - lo + 1, part.len() as int));
        }
        ip && fp && (kd > lo || hi > kd + 1)
    }
}

} // verus!
