use vstd::prelude::*;

use crate::errors::ApiError;

verus! {

/// A decimal digit.
pub open spec fn is_digit(c: char) -> bool {
    48 <= c as u32 && c as u32 <= 57
}

/// The value of one digit; 0 for anything that is not a digit.
pub open spec fn digit_value(c: char) -> nat {
    if is_digit(c) {
        (c as u32 - 48) as nat
    } else {
        0
    }
}

/// Every character is a decimal digit.
pub open spec fn all_digits(s: Seq<char>) -> bool {
    forall|i: int| 0 <= i < s.len() ==> is_digit(#[trigger] s[i])
}

/// A numeric path parameter: one or more decimal digits.
pub open spec fn is_numeric(s: Seq<char>) -> bool {
    s.len() > 0 && all_digits(s)
}

/// The number the digits spell, most significant first.
pub open spec fn decimal_value(s: Seq<char>) -> nat
    decreases s.len(),
{
    if s.len() == 0 {
        0
    } else {
        decimal_value(s.drop_last()) * 10 + digit_value(s.last())
    }
}

/// A longer digit prefix never spells a smaller number.
proof fn lemma_decimal_value_monotone(s: Seq<char>, i: int, j: int)
    requires
        0 <= i <= j <= s.len(),
    ensures
        decimal_value(s.subrange(0, i)) <= decimal_value(s.subrange(0, j)),
    decreases j - i,
{
    if i < j {
        lemma_decimal_value_monotone(s, i, j - 1);
        assert(s.subrange(0, j).drop_last() =~= s.subrange(0, j - 1));
        assert(decimal_value(s.subrange(0, j)) == decimal_value(s.subrange(0, j - 1)) * 10
            + digit_value(s.subrange(0, j).last()));
    }
}

/// Parses a path-embedded id. Exactly the non-empty all-digit strings
/// whose value fits the id type are accepted; anything else is rejected
/// as `BadRequest` (non-numeric input), before any lookup happens.
pub fn parse_id(s: &str) -> (r: Result<u64, ApiError>)
    ensures
        match r {
            Result::Ok(v) => is_numeric(s@) && decimal_value(s@) <= u64::MAX && v == decimal_value(
                s@,
            ),
            Result::Err(e) => e == ApiError::BadRequest && !(is_numeric(s@) && decimal_value(s@)
                <= u64::MAX),
        },
{
    let n = s.unicode_len();
    if n == 0 {
        return Result::Err(ApiError::BadRequest);
    }
    let mut acc: u64 = 0;
    let mut i: usize = 0;
    while i < n
        invariant
            n == s@.len(),
            0 < n,
            i <= n,
            all_digits(s@.subrange(0, i as int)),
            acc as nat == decimal_value(s@.subrange(0, i as int)),
        decreases n - i,
    {
        let c = s.get_char(i);
        let v = c as u32;
        if !(48 <= v && v <= 57) {
            return Result::Err(ApiError::BadRequest);
        }
        let d: u64 = (v - 48) as u64;
        proof {
            assert(s@.subrange(0, (i + 1) as int).drop_last() =~= s@.subrange(0, i as int));
            assert(s@.subrange(0, (i + 1) as int).last() == s@[i as int]);
            assert(decimal_value(s@.subrange(0, (i + 1) as int)) == decimal_value(
                s@.subrange(0, i as int),
            ) * 10 + digit_value(s@[i as int]));
        }
        let scaled = match acc.checked_mul(10) {
            Option::Some(x) => x,
            Option::None => {
                proof {
                    lemma_decimal_value_monotone(s@, (i + 1) as int, s@.len() as int);
                    assert(s@.subrange(0, s@.len() as int) =~= s@);
                }
                return Result::Err(ApiError::BadRequest);
            },
        };
        acc = match scaled.checked_add(d) {
            Option::Some(x) => x,
            Option::None => {
                proof {
                    lemma_decimal_value_monotone(s@, (i + 1) as int, s@.len() as int);
                    assert(s@.subrange(0, s@.len() as int) =~= s@);
                }
                return Result::Err(ApiError::BadRequest);
            },
        };
        i = i + 1;
    }
    proof {
        assert(s@.subrange(0, n as int) =~= s@);
    }
    Result::Ok(acc)
}

} // verus!
