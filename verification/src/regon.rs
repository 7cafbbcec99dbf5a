//! Validation of the 9-digit organization statistical identifier: a weighted
//! digit sum modulo 11 where a check value of 10 wraps to 0.

use vstd::prelude::*;
use crate::error::{AppError, IdScheme, ValidationError};
use crate::text::{collect_digits, digit_val, digits_of};

verus! {

/// The checksum weight of position `i` of the statistical identifier.
pub open spec fn regon_weight(i: int) -> int {
    if i == 0 {
        8
    } else if i == 1 {
        9
    } else if i == 2 {
        2
    } else if i == 3 {
        3
    } else if i == 4 {
        4
    } else if i == 5 {
        5
    } else if i == 6 {
        6
    } else {
        7
    }
}

/// The weighted sum of the first `k` digits of the cleaned identifier.
pub open spec fn regon_wsum(t: Seq<char>, k: int) -> int
    decreases k,
{
    if k <= 0 {
        0
    } else {
        regon_wsum(t, k - 1) + digit_val(t[k - 1]) * regon_weight(k - 1)
    }
}

/// The recomputed check value: the weighted sum modulo 11, with 10 wrapped
/// to 0 (unlike the tax identifier scheme).
pub open spec fn regon_check_value(t: Seq<char>) -> int {
    let c = regon_wsum(t, 8) % 11;
    if c == 10 {
        0
    } else {
        c
    }
}

/// Whether `s`, after keeping only its digit characters, is a valid
/// statistical identifier.
pub open spec fn regon_valid(s: Seq<char>) -> bool {
    let t = digits_of(s);
    &&& t.len() == 9
    &&& regon_check_value(t) == digit_val(t[8])
}

/// The validation finding for `s`, or `None` when `s` is valid.
pub open spec fn regon_error(s: Seq<char>) -> Option<ValidationError> {
    let t = digits_of(s);
    if t.len() != 9 {
        Some(
            (ValidationError::IdWrongLength { scheme: IdScheme::OrgStat, actual: t.len() as usize }),
        )
    } else if regon_check_value(t) != digit_val(t[8]) {
        Some((ValidationError::IdChecksum { scheme: IdScheme::OrgStat }))
    } else {
        None
    }
}

/// Validates an organization statistical identifier, ignoring any non-digit
/// characters.
///
/// Returns `Ok` exactly on valid identifiers; a recomputed check value of 10
/// is treated as 0 and accepted when the stored check digit is 0.
pub fn validate(regon: &str) -> (r: Result<(), AppError>)
    ensures
        r is Ok <==> regon_valid(regon@),
        r matches Err(e) ==> regon_error(regon@) matches Some(v) && e == AppError::Validation(v),
{
    let dv = collect_digits(regon);
    if dv.len() != 9 {
        return Err(
            AppError::Validation(
                (ValidationError::IdWrongLength { scheme: IdScheme::OrgStat, actual: dv.len() }),
            ),
        );
    }
    let ghost t = digits_of(regon@);
    let mut sum: u32 = 0;
    let mut k: usize = 0;
    while k < 8
        invariant
            dv@.len() == 9,
            t.len() == 9,
            t == digits_of(regon@),
            forall|j: int| 0 <= j < 9 ==> dv@[j] as int == digit_val(#[trigger] t[j]),
            k <= 8,
            sum as int == regon_wsum(t, k as int),
            sum <= 81 * k,
        decreases 8 - k,
    {
        let w: u32 = if k == 0 {
            8
        } else if k == 1 {
            9
        } else if k == 2 {
            2
        } else if k == 3 {
            3
        } else if k == 4 {
            4
        } else if k == 5 {
            5
        } else if k == 6 {
            6
        } else {
            7
        };
        assert(w as int == regon_weight(k as int));
        assert(dv@[k as int] as int == digit_val(t[k as int]));
        assert(digit_val(t[k as int]) <= 9);
        sum = sum + (dv[k] as u32) * w;
        k = k + 1;
    }
    let rem: u32 = sum % 11;
    let check: u32 = if rem == 10 {
        0
    } else {
        rem
    };
    assert(check as int == regon_check_value(t));
    if check != dv[8] as u32 {
        return Err(
            AppError::Validation((ValidationError::IdChecksum { scheme: IdScheme::OrgStat })),
        );
    }
    Ok(())
}

/// A statistical identifier whose recomputed weighted sum is 10 modulo 11 is
/// accepted exactly when its stored check digit is 0: the check value wraps.
pub proof fn lemma_regon_check_ten_wraps(s: Seq<char>)
    requires
        digits_of(s).len() == 9,
        regon_wsum(digits_of(s), 8) % 11 == 10,
    ensures
        regon_valid(s) <==> digit_val(digits_of(s)[8]) == 0,
{
}

} // verus!
