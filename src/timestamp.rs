//! Reading a timestamp header: a base-10 signed 64-bit integer, in the
//! grammar that Rust's standard integer parsing accepts (an optional `+` or
//! `-`, then one or more ASCII digits, the value within range).
use vstd::prelude::*;
use vstd::string::StringSliceAdditionalSpecFns;

verus! {

pub open spec fn is_digit(b: u8) -> bool {
    48 <= b <= 57
}

pub open spec fn all_digits(s: Seq<u8>) -> bool {
    forall|i: int| 0 <= i < s.len() ==> is_digit(#[trigger] s[i])
}

/// The value of a string of decimal digits, most significant first.
pub open spec fn digits_value(s: Seq<u8>) -> int
    decreases s.len(),
{
    if s.len() == 0 {
        0
    } else {
        10 * digits_value(s.drop_last()) + (s.last() - 48)
    }
}

/// The integer that `s` writes in decimal, with an optional sign, if it
/// writes one.
pub open spec fn decimal_value(s: Seq<u8>) -> Option<int> {
    if s.len() > 0 && (s[0] == 43 || s[0] == 45) {
        let rest = s.drop_first();
        if rest.len() > 0 && all_digits(rest) {
            if s[0] == 45 {
                Some(-digits_value(rest))
            } else {
                Some(digits_value(rest))
            }
        } else {
            None
        }
    } else if s.len() > 0 && all_digits(s) {
        Some(digits_value(s))
    } else {
        None
    }
}

/// The timestamp that the bytes `s` denote: their decimal value, where it
/// exists and fits in an `i64`.
pub open spec fn timestamp_value(s: Seq<u8>) -> Option<i64> {
    match decimal_value(s) {
        Some(v) => if i64::MIN <= v <= i64::MAX {
            Some(v as i64)
        } else {
            None
        },
        None => None,
    }
}

proof fn lemma_digits_value_nonneg(s: Seq<u8>)
    requires
        all_digits(s),
    ensures
        digits_value(s) >= 0,
    decreases s.len(),
{
    if s.len() > 0 {
        assert(all_digits(s.drop_last()));
        lemma_digits_value_nonneg(s.drop_last());
    }
}

proof fn lemma_digits_value_prefix(s: Seq<u8>, k: int)
    requires
        all_digits(s),
        0 <= k <= s.len(),
    ensures
        digits_value(s.subrange(0, k)) <= digits_value(s),
    decreases s.len(),
{
    if k < s.len() {
        let t = s.drop_last();
        assert(all_digits(t));
        assert(t.subrange(0, k) =~= s.subrange(0, k));
        lemma_digits_value_prefix(t, k);
        lemma_digits_value_nonneg(t);
    } else {
        assert(s.subrange(0, k) =~= s);
    }
}

/// The largest magnitude a decimal `i64` can have (that of `i64::MIN`).
const MAGNITUDE_LIMIT: u128 = 9223372036854775808;

/// Parses a timestamp header value.
pub fn parse_timestamp(s: &str) -> (r: Option<i64>)
    ensures
        r == timestamp_value(s.spec_bytes()),
{
    let b = s.as_bytes();
    let n = b.len();
    let ghost bs = s.spec_bytes();
    if n == 0 {
        return None;
    }
    let negative = b[0] == 45;
    let start: usize = if b[0] == 45 || b[0] == 43 { 1 } else { 0 };
    if start == n {
        return None;
    }
    let ghost digits = bs.subrange(start as int, n as int);
    proof {
        if start == 1 {
            assert(digits =~= bs.drop_first());
        } else {
            assert(digits =~= bs);
        }
        assert(decimal_value(bs) == if all_digits(digits) {
            Some(if negative { -digits_value(digits) } else { digits_value(digits) })
        } else {
            None::<int>
        });
    }
    let mut acc: u128 = 0;
    let mut i: usize = start;
    while i < n
        invariant
            b@ == bs,
            bs == s.spec_bytes(),
            n == bs.len(),
            n > 0,
            negative == (bs[0] == 45),
            decimal_value(bs) == if all_digits(digits) {
                Some(if negative { -digits_value(digits) } else { digits_value(digits) })
            } else {
                None::<int>
            },
            start <= i <= n,
            digits == bs.subrange(start as int, n as int),
            all_digits(bs.subrange(start as int, i as int)),
            acc as int == digits_value(bs.subrange(start as int, i as int)),
            acc <= MAGNITUDE_LIMIT,
        decreases n - i,
    {
        let c = b[i];
        if c < 48 || c > 57 {
            proof {
                assert(digits[i - start] == c);
            }
            assert(!all_digits(digits));
            return None;
        }
        let ghost before = bs.subrange(start as int, i as int);
        let ghost after = bs.subrange(start as int, i + 1);
        proof {
            assert(after.drop_last() =~= before);
            assert(after.last() == c);
            assert(all_digits(after)) by {
                assert forall|j: int| 0 <= j < after.len() implies is_digit(#[trigger] after[j]) by {
                    if j < before.len() {
                        assert(after[j] == before[j]);
                    }
                }
            }
        }
        acc = acc * 10 + (c - 48) as u128;
        if acc > MAGNITUDE_LIMIT {
            proof {
                assert(digits.subrange(0, i + 1 - start) =~= after);
                if all_digits(digits) {
                    lemma_digits_value_prefix(digits, i + 1 - start);
                }
            }
            return None;
        }
        i = i + 1;
    }
    assert(bs.subrange(start as int, n as int) =~= digits);
    if negative {
        Some((0i128 - acc as i128) as i64)
    } else if acc < MAGNITUDE_LIMIT {
        Some(acc as i64)
    } else {
        None
    }
}

} // verus!
