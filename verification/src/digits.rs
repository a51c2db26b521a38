//! Verified decimal parsing for the numeric fields the diagnostic
//! reads: process-table entry names, version components, and the
//! kilobyte magnitudes in a status text block.

use vstd::prelude::*;

verus! {

/// `c` is an ASCII decimal digit.
pub open spec fn is_digit(c: char) -> bool {
    48 <= c as int <= 57
}

/// Numeric value of a digit character.
pub open spec fn digit_val(c: char) -> int {
    c as int - 48
}

/// Every character of `s` is an ASCII decimal digit.
pub open spec fn all_digits(s: Seq<char>) -> bool {
    forall|i: int| 0 <= i < s.len() ==> is_digit(s[i])
}

/// The number a digit string denotes, most significant digit first.
pub open spec fn digits_val(s: Seq<char>) -> int
    decreases s.len(),
{
    if s.len() == 0 {
        0
    } else {
        digits_val(s.drop_last()) * 10 + digit_val(s.last())
    }
}

/// `s` is a nonempty digit string whose value fits in a `u64`.
pub open spec fn parses_as_u64(s: Seq<char>) -> bool {
    s.len() > 0 && all_digits(s) && digits_val(s) <= u64::MAX
}

/// `s` is a nonempty digit string whose value fits in a `u32`.
pub open spec fn parses_as_u32(s: Seq<char>) -> bool {
    s.len() > 0 && all_digits(s) && digits_val(s) <= u32::MAX
}

/// A digit string denotes a nonnegative number.
pub proof fn lemma_digits_val_nonneg(s: Seq<char>)
    requires
        all_digits(s),
    ensures
        digits_val(s) >= 0,
    decreases s.len(),
{
    if s.len() > 0 {
        assert(all_digits(s.drop_last())) by {
            assert(forall|i: int|
                0 <= i < s.len() - 1 ==> s.drop_last()[i] == s[i] && is_digit(s[i]));
        }
        lemma_digits_val_nonneg(s.drop_last());
    }
}

/// Extending a digit string can only increase its value.
pub proof fn lemma_digits_val_prefix_le(s: Seq<char>, k: int)
    requires
        all_digits(s),
        0 <= k <= s.len(),
    ensures
        digits_val(s.take(k)) <= digits_val(s),
    decreases s.len() - k,
{
    if k < s.len() {
        assert(all_digits(s.take(k + 1))) by {
            assert(forall|i: int|
                0 <= i < k + 1 ==> s.take(k + 1)[i] == s[i] && is_digit(s[i]));
        }
        assert(s.take(k + 1).drop_last() =~= s.take(k));
        assert(s.take(k + 1).last() == s[k]);
        lemma_digits_val_nonneg(s.take(k));
        assert(digits_val(s.take(k)) <= digits_val(s.take(k + 1)));
        lemma_digits_val_prefix_le(s, k + 1);
    } else {
        assert(s.take(k) =~= s);
    }
}

/// Parses a nonempty all-digit string as a `u64`; anything else,
/// including a value too large for a `u64`, is `None`.
pub fn parse_u64_digits(s: &str) -> (r: Option<u64>)
    ensures
        parses_as_u64(s@) ==> (r matches Some(v) && v == digits_val(s@)),
        !parses_as_u64(s@) ==> r is None,
{
    let n = s.unicode_len();
    if n == 0 {
        return None;
    }
    let mut acc: u64 = 0;
    let mut i: usize = 0;
    while i < n
        invariant
            n == s@.len(),
            0 <= i <= n,
            all_digits(s@.take(i as int)),
            acc == digits_val(s@.take(i as int)),
        decreases n - i,
    {
        let c = s.get_char(i);
        let code = c as u32;
        if code < 48 || code > 57 {
            assert(!is_digit(s@[i as int]));
            assert(!all_digits(s@));
            return None;
        }
        let d: u64 = (code - 48) as u64;
        let wide: u128 = acc as u128 * 10 + d as u128;
        proof {
            assert(s@.take(i + 1).drop_last() =~= s@.take(i as int));
            assert(s@.take(i + 1).last() == s@[i as int]);
            assert(all_digits(s@.take(i + 1))) by {
                assert(forall|j: int|
                    0 <= j < i + 1 ==> s@.take(i + 1)[j] == s@[j]);
            }
        }
        if wide > u64::MAX as u128 {
            proof {
                assert(digits_val(s@.take(i + 1)) > u64::MAX);
                if all_digits(s@) {
                    lemma_digits_val_prefix_le(s@, i + 1);
                }
            }
            return None;
        }
        acc = acc * 10 + d;
        i = i + 1;
    }
    proof {
        assert(s@.take(n as int) =~= s@);
    }
    Some(acc)
}

/// Parses a nonempty all-digit string as a `u32`.
pub fn parse_u32_digits(s: &str) -> (r: Option<u32>)
    ensures
        parses_as_u32(s@) ==> (r matches Some(v) && v == digits_val(s@)),
        !parses_as_u32(s@) ==> r is None,
{
    match parse_u64_digits(s) {
        Some(v) => {
            if v <= u32::MAX as u64 {
                Some(v as u32)
            } else {
                None
            }
        },
        None => None,
    }
}

} // verus!
