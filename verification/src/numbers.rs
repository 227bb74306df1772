//! Decimal integer parsing for numeric flag values.
//!
//! A value is accepted when it is an optional leading `+` followed by one
//! or more ASCII digits and the encoded number fits the target type;
//! anything else is rejected, which the caller treats as a fatal
//! configuration error.

use vstd::prelude::*;
use vstd::arithmetic::div_mod::lemma_fundamental_div_mod;

verus! {

/// `c` is an ASCII decimal digit.
pub open spec fn is_dec_digit(c: char) -> bool {
    48 <= c as u32 <= 57
}

/// Numeric value of the digit `c`.
pub open spec fn dec_digit_val(c: char) -> int {
    c as u32 - 48
}

/// The digit portion of a decimal token: everything after an optional
/// leading `+`.
pub open spec fn digit_seq_of(s: Seq<char>) -> Seq<char> {
    if s.len() > 0 && s[0] == '+' {
        s.drop_first()
    } else {
        s
    }
}

/// Every character of `s` is an ASCII decimal digit.
pub open spec fn all_dec_digits(s: Seq<char>) -> bool {
    forall|i: int| 0 <= i < s.len() ==> is_dec_digit(#[trigger] s[i])
}

/// The number encoded by the digit string `s`, most significant digit
/// first.
pub open spec fn dec_value(s: Seq<char>) -> int
    decreases s.len(),
{
    if s.len() == 0 {
        0
    } else {
        dec_value(s.drop_last()) * 10 + dec_digit_val(s.last())
    }
}

/// `s` is a well-formed decimal token whose value fits below `max`:
/// an optional `+`, then at least one digit, encoding a number `<= max`.
pub open spec fn dec_parses(s: Seq<char>, max: int) -> bool {
    let d = digit_seq_of(s);
    d.len() > 0 && all_dec_digits(d) && dec_value(d) <= max
}

proof fn lemma_all_dec_digits_subrange(s: Seq<char>, a: int, b: int)
    requires
        all_dec_digits(s),
        0 <= a <= b <= s.len(),
    ensures
        all_dec_digits(s.subrange(a, b)),
{
    assert forall|i: int| 0 <= i < b - a implies is_dec_digit(#[trigger] s.subrange(a, b)[i]) by {
        assert(s.subrange(a, b)[i] == s[a + i]);
    }
}

proof fn lemma_dec_value_nonneg(s: Seq<char>)
    requires
        all_dec_digits(s),
    ensures
        dec_value(s) >= 0,
    decreases s.len(),
{
    if s.len() > 0 {
        lemma_all_dec_digits_subrange(s, 0, s.len() - 1);
        lemma_dec_value_nonneg(s.drop_last());
    }
}

/// Extending a digit string never shrinks its value: the whole string is
/// worth at least any of its prefixes.
proof fn lemma_dec_value_prefix_le(s: Seq<char>, k: int)
    requires
        all_dec_digits(s),
        0 <= k <= s.len(),
    ensures
        dec_value(s.subrange(0, k)) <= dec_value(s),
    decreases s.len() - k,
{
    if k == s.len() {
        assert(s.subrange(0, k) =~= s);
    } else {
        assert(s.subrange(0, k + 1).drop_last() =~= s.subrange(0, k));
        assert(s.subrange(0, k + 1).last() == s[k]);
        lemma_all_dec_digits_subrange(s, 0, k);
        lemma_dec_value_nonneg(s.subrange(0, k));
        assert(dec_value(s.subrange(0, k + 1)) == dec_value(s.subrange(0, k)) * 10
            + dec_digit_val(s[k]));
        lemma_dec_value_prefix_le(s, k + 1);
    }
}

/// Parse a decimal token as a `u64`, accepting exactly the strings that
/// `dec_parses` describes.
pub fn parse_u64(s: &str) -> (r: Option<u64>)
    ensures
        match r {
            Some(v) => dec_parses(s@, u64::MAX as int) && v == dec_value(digit_seq_of(s@)),
            None => !dec_parses(s@, u64::MAX as int),
        },
{
    let n = s.unicode_len();
    let start: usize = if n > 0 && s.get_char(0) == '+' {
        1
    } else {
        0
    };
    let ghost d: Seq<char> = digit_seq_of(s@);
    proof {
        assert(d =~= s@.subrange(start as int, n as int));
    }
    if start >= n {
        return None;
    }
    let mut acc: u64 = 0;
    let mut i: usize = start;
    while i < n
        invariant
            start <= i <= n,
            start < n,
            n == s@.len(),
            d == s@.subrange(start as int, n as int),
            d == digit_seq_of(s@),
            all_dec_digits(d.subrange(0, i - start)),
            acc as int == dec_value(d.subrange(0, i - start)),
        decreases n - i,
    {
        let c = s.get_char(i);
        let cv = c as u32;
        proof {
            assert(d[i - start] == s@[i as int]);
        }
        if cv < 48 || cv > 57 {
            proof {
                assert(!is_dec_digit(d[i - start]));
            }
            return None;
        }
        let dv = (cv - 48) as u64;
        proof {
            lemma_fundamental_div_mod((u64::MAX - dv) as int, 10);
        }
        if acc > (u64::MAX - dv) / 10 {
            proof {
                assert(acc as int * 10 + dv as int > u64::MAX as int);
                assert(d.subrange(0, i - start + 1).drop_last() =~= d.subrange(0, i - start));
                assert(d.subrange(0, i - start + 1).last() == d[i - start]);
                assert(dec_value(d.subrange(0, i - start + 1)) == acc as int * 10 + dv as int);
                if all_dec_digits(d) {
                    lemma_dec_value_prefix_le(d, i - start + 1);
                    assert(dec_value(d) > u64::MAX as int);
                }
            }
            return None;
        }
        proof {
            assert(d.subrange(0, i - start + 1).drop_last() =~= d.subrange(0, i - start));
            assert(d.subrange(0, i - start + 1).last() == d[i - start]);
            assert(all_dec_digits(d.subrange(0, i - start + 1)));
        }
        acc = acc * 10 + dv;
        i = i + 1;
    }
    proof {
        assert(d.subrange(0, n - start) =~= d);
    }
    Some(acc)
}

/// Parse a decimal token as a `usize`, accepting exactly the strings that
/// `dec_parses` describes.
pub fn parse_usize(s: &str) -> (r: Option<usize>)
    ensures
        match r {
            Some(v) => dec_parses(s@, usize::MAX as int) && v == dec_value(digit_seq_of(s@)),
            None => !dec_parses(s@, usize::MAX as int),
        },
{
    match parse_u64(s) {
        Some(v) => {
            if v <= usize::MAX as u64 {
                Some(v as usize)
            } else {
                None
            }
        },
        None => None,
    }
}

} // verus!
