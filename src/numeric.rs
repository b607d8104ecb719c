//! Exact conversion of stored decimal text into fixed-width integers.
use vstd::prelude::*;

verus! {

/// A stored value could not be read as the requested integer type.
#[derive(Debug, Clone, Copy, PartialEq, Eq, Structural)]
pub enum NumericError {
    /// The text is empty or holds something other than decimal digits.
    NotANumber,
    /// The value does not fit the requested type.
    OutOfRange,
}

pub open spec fn is_digit(c: char) -> bool {
    '0' <= c && c <= '9'
}

pub open spec fn digit_value(c: char) -> int {
    c as int - '0' as int
}

pub open spec fn all_digits(s: Seq<char>) -> bool {
    forall|i: int| 0 <= i < s.len() ==> is_digit(#[trigger] s[i])
}

/// A non-empty run of decimal digits.
pub open spec fn is_decimal(s: Seq<char>) -> bool {
    s.len() > 0 && all_digits(s)
}

/// The value of a run of decimal digits, most significant first.
pub open spec fn decimal_value(s: Seq<char>) -> int
    decreases s.len(),
{
    if s.len() == 0 {
        0
    } else {
        decimal_value(s.drop_last()) * 10 + digit_value(s.last())
    }
}

/// A decimal value never shrinks when more digits follow.
proof fn lemma_prefix_value_le(s: Seq<char>, k: int)
    requires
        all_digits(s),
        0 <= k <= s.len(),
    ensures
        decimal_value(s.subrange(0, k)) <= decimal_value(s),
        0 <= decimal_value(s.subrange(0, k)),
    decreases s.len(),
{
    if k < s.len() {
        assert(s.drop_last() =~= s.subrange(0, s.len() - 1));
        assert(s.drop_last().subrange(0, k) =~= s.subrange(0, k));
        lemma_prefix_value_le(s.drop_last(), k);
        assert(is_digit(s[s.len() - 1]));
    } else {
        assert(s.subrange(0, k) =~= s);
        if s.len() > 0 {
            assert(s.drop_last() =~= s.subrange(0, s.len() - 1));
            lemma_prefix_value_le(s.drop_last(), s.len() - 1);
            assert(s.drop_last().subrange(0, s.len() - 1) =~= s.drop_last());
            assert(is_digit(s[s.len() - 1]));
        }
    }
}

/// Why text does not fit an unsigned type: not digits at all, or too large.
pub open spec fn fit_error(s: Seq<char>) -> NumericError {
    if !is_decimal(s) {
        NumericError::NotANumber
    } else {
        NumericError::OutOfRange
    }
}

/// Reads unsigned decimal text as a `u128`.
pub fn parse_u128(s: &str) -> (r: Result<u128, NumericError>)
    ensures
        r is Ok <==> is_decimal(s@) && decimal_value(s@) <= u128::MAX,
        r matches Ok(v) ==> v == decimal_value(s@),
        r == Err::<u128, _>(NumericError::NotANumber) <==> !is_decimal(s@),
{
    let n = s.unicode_len();
    if n == 0 {
        return Err(NumericError::NotANumber);
    }
    let mut i: usize = 0;
    while i < n
        invariant
            n == s@.len(),
            i <= n,
            all_digits(s@.subrange(0, i as int)),
        decreases n - i,
    {
        let c = s.get_char(i);
        if !('0' <= c && c <= '9') {
            return Err(NumericError::NotANumber);
        }
        i = i + 1;
    }
    assert(s@.subrange(0, n as int) =~= s@);
    let mut v: u128 = 0;
    let mut j: usize = 0;
    while j < n
        invariant
            n == s@.len(),
            j <= n,
            all_digits(s@),
            v == decimal_value(s@.subrange(0, j as int)),
        decreases n - j,
    {
        let c = s.get_char(j);
        let d = (c as u32 - '0' as u32) as u128;
        let ghost next = s@.subrange(0, j + 1);
        assert(next.drop_last() =~= s@.subrange(0, j as int));
        assert(is_digit(s@[j as int]));
        match v.checked_mul(10) {
            Some(t) => match t.checked_add(d) {
                Some(w) => {
                    v = w;
                },
                None => {
                    proof {
                        lemma_prefix_value_le(s@, j + 1);
                    }
                    return Err(NumericError::OutOfRange);
                },
            },
            None => {
                proof {
                    lemma_prefix_value_le(s@, j + 1);
                }
                return Err(NumericError::OutOfRange);
            },
        }
        j = j + 1;
    }
    assert(s@.subrange(0, n as int) =~= s@);
    Ok(v)
}

/// Reads unsigned decimal text as a `u64`.
pub fn parse_u64(s: &str) -> (r: Result<u64, NumericError>)
    ensures
        r is Ok <==> is_decimal(s@) && decimal_value(s@) <= u64::MAX,
        r matches Ok(v) ==> v == decimal_value(s@),
        r == Err::<u64, _>(NumericError::NotANumber) <==> !is_decimal(s@),
{
    match parse_u128(s) {
        Ok(v) => {
            if v <= u64::MAX as u128 {
                Ok(v as u64)
            } else {
                Err(NumericError::OutOfRange)
            }
        },
        Err(e) => Err(e),
    }
}

/// Signed decimal text: an optional minus sign, then digits.
pub open spec fn signed_digits(s: Seq<char>) -> Seq<char> {
    if s.len() > 0 && s[0] == '-' {
        s.drop_first()
    } else {
        s
    }
}

pub open spec fn is_negative_text(s: Seq<char>) -> bool {
    s.len() > 0 && s[0] == '-'
}

/// The value of signed decimal text.
pub open spec fn signed_value(s: Seq<char>) -> int {
    if is_negative_text(s) {
        -decimal_value(signed_digits(s))
    } else {
        decimal_value(s)
    }
}

/// Reads signed decimal text as an `i128`.
pub fn parse_i128(s: &str) -> (r: Result<i128, NumericError>)
    ensures
        r is Ok <==> is_decimal(signed_digits(s@)) && i128::MIN <= signed_value(s@) <= i128::MAX,
        r matches Ok(v) ==> v == signed_value(s@),
        r == Err::<i128, _>(NumericError::NotANumber) <==> !is_decimal(signed_digits(s@)),
{
    let n = s.unicode_len();
    let negative = n > 0 && s.get_char(0) == '-';
    let digits = if negative {
        s.substring_char(1, n)
    } else {
        s
    };
    assert(digits@ == signed_digits(s@)) by {
        if negative {
            assert(s@.subrange(1, n as int) =~= s@.drop_first());
        }
    }
    let v = match parse_u128(digits) {
        Ok(v) => v,
        Err(e) => return Err(e),
    };
    if negative {
        if v > i128::MAX as u128 + 1 {
            Err(NumericError::OutOfRange)
        } else if v == i128::MAX as u128 + 1 {
            Ok(i128::MIN)
        } else {
            Ok(-(v as i128))
        }
    } else if v > i128::MAX as u128 {
        Err(NumericError::OutOfRange)
    } else {
        Ok(v as i128)
    }
}

} // verus!
