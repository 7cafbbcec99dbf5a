//! Validation of the 10-digit organization tax identifier: a weighted digit
//! sum modulo 11 where a check value of 10 is always rejected.

use vstd::prelude::*;
use crate::error::{AppError, IdScheme, ValidationError};
use crate::text::{collect_digits, digit_val, digits_of};

verus! {

/// The checksum weight of position `i` of the tax identifier.
pub open spec fn nip_weight(i: int) -> int {
    if i == 0 {
        6
    } else if i == 1 {
        5
    } else if i == 2 {
        7
    } else if i == 3 {
        2
    } else if i == 4 {
        3
    } else if i == 5 {
        4
    } else if i == 6 {
        5
    } else if i == 7 {
        6
    } else {
        7
    }
}

/// The weighted sum of the first `k` digits of the cleaned identifier.
pub open spec fn nip_wsum(t: Seq<char>, k: int) -> int
    decreases k,
{
    if k <= 0 {
        0
    } else {
        nip_wsum(t, k - 1) + digit_val(t[k - 1]) * nip_weight(k - 1)
    }
}

/// Whether `s`, after keeping only its digit characters, is a valid tax
/// identifier: ten digits whose weighted sum modulo 11 is neither 10 nor
/// different from the tenth digit.
pub open spec fn nip_valid(s: Seq<char>) -> bool {
    let t = digits_of(s);
    &&& t.len() == 10
    &&& nip_wsum(t, 9) % 11 != 10
    &&& nip_wsum(t, 9) % 11 == digit_val(t[9])
}

/// The validation finding for `s`, or `None` when `s` is valid.
pub open spec fn nip_error(s: Seq<char>) -> Option<ValidationError> {
    let t = digits_of(s);
    if t.len() != 10 {
        Some(
            (ValidationError::IdWrongLength { scheme: IdScheme::OrgTax, actual: t.len() as usize }),
        )
    } else if nip_wsum(t, 9) % 11 == 10 || nip_wsum(t, 9) % 11 != digit_val(t[9]) {
        Some((ValidationError::IdChecksum { scheme: IdScheme::OrgTax }))
    } else {
        None
    }
}

/// Validates an organization tax identifier, ignoring any non-digit
/// characters such as dashes.
///
/// Returns `Ok` exactly on valid identifiers; a recomputed check value of 10
/// is rejected outright, even when the stored check digit is 0.
pub fn validate(nip: &str) -> (r: Result<(), AppError>)
    ensures
        r is Ok <==> nip_valid(nip@),
        r matches Err(e) ==> nip_error(nip@) matches Some(v) && e == AppError::Validation(v),
{
    let dv = collect_digits(nip);
    if dv.len() != 10 {
        return Err(
            AppError::Validation(
                (ValidationError::IdWrongLength { scheme: IdScheme::OrgTax, actual: dv.len() }),
            ),
        );
    }
    let ghost t = digits_of(nip@);
    let mut sum: u32 = 0;
    let mut k: usize = 0;
    while k < 9
        invariant
            dv@.len() == 10,
            t.len() == 10,
            t == digits_of(nip@),
            forall|j: int| 0 <= j < 10 ==> dv@[j] as int == digit_val(#[trigger] t[j]),
            k <= 9,
            sum as int == nip_wsum(t, k as int),
            sum <= 63 * k,
        decreases 9 - k,
    {
        let w: u32 = if k == 0 {
            6
        } else if k == 1 {
            5
        } else if k == 2 {
            7
        } else if k == 3 {
            2
        } else if k == 4 {
            3
        } else if k == 5 {
            4
        } else if k == 6 {
            5
        } else if k == 7 {
            6
        } else {
            7
        };
        assert(w as int == nip_weight(k as int));
        assert(dv@[k as int] as int == digit_val(t[k as int]));
        assert(digit_val(t[k as int]) <= 9);
        sum = sum + (dv[k] as u32) * w;
        k = k + 1;
    }
    let check: u32 = sum % 11;
    assert(check as int == nip_wsum(t, 9) % 11);
    if check == 10 || check != dv[9] as u32 {
        return Err(
            AppError::Validation((ValidationError::IdChecksum { scheme: IdScheme::OrgTax })),
        );
    }
    Ok(())
}

/// A tax identifier whose recomputed check value is 10 is invalid no matter
/// what its stored check digit holds, including a stored 0.
pub proof fn lemma_nip_check_ten_rejected(s: Seq<char>)
    requires
        nip_wsum(digits_of(s), 9) % 11 == 10,
    ensures
        !nip_valid(s),
{
}

} // verus!
