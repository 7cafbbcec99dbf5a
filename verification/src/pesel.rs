//! Validation of the 11-digit national personal identifier: weighted checksum,
//! birth-date derivation across the five century bands, and sex derivation.

use vstd::prelude::*;
use crate::error::{AppError, IdScheme, ValidationError};
use crate::text::{all_digits, char_is_digit, digit_val, digit_value_of, is_dec_digit, pad_nat};
use vstd::string::StrSliceExecFns;
use vstd::string::StringExecFns;

verus! {

/// Information derived from a valid personal identifier.
#[derive(Clone, Debug, PartialEq, Eq)]
pub struct PeselInfo {
    /// Birth date rendered as `YYYY-MM-DD`.
    pub date_of_birth: String,
    /// Sex code: `"M"` for an odd tenth digit, `"K"` for an even one.
    pub gender: String,
}

/// The checksum weight of position `i` of a personal identifier.
pub open spec fn pesel_weight(i: int) -> int {
    if i % 4 == 0 {
        1
    } else if i % 4 == 1 {
        3
    } else if i % 4 == 2 {
        7
    } else {
        9
    }
}

/// The weighted sum of the first `k` digits of a personal identifier.
pub open spec fn pesel_wsum(s: Seq<char>, k: int) -> int
    decreases k,
{
    if k <= 0 {
        0
    } else {
        pesel_wsum(s, k - 1) + digit_val(s[k - 1]) * pesel_weight(k - 1)
    }
}

/// The check value recomputed from the first ten digits.
pub open spec fn pesel_check_value(s: Seq<char>) -> int {
    (10 - pesel_wsum(s, 10) % 10) % 10
}

/// The two-digit month block of the identifier (digits 2 and 3).
pub open spec fn pesel_month_part(s: Seq<char>) -> int {
    digit_val(s[2]) * 10 + digit_val(s[3])
}

/// The two-digit year part of the identifier (digits 0 and 1).
pub open spec fn pesel_year_part(s: Seq<char>) -> int {
    digit_val(s[0]) * 10 + digit_val(s[1])
}

/// The two-digit day part of the identifier (digits 4 and 5).
pub open spec fn pesel_day_part(s: Seq<char>) -> int {
    digit_val(s[4]) * 10 + digit_val(s[5])
}

/// Whether the month block falls in one of the five 12-month century bands.
pub open spec fn pesel_band_ok(mp: int) -> bool {
    (1 <= mp <= 12) || (21 <= mp <= 32) || (41 <= mp <= 52) || (61 <= mp <= 72) || (81 <= mp
        <= 92)
}

/// The century base of a month block: 1900 for 1-12, then +100 years per
/// +20 offset, wrapping to 1800 for the 81-92 band.
pub open spec fn pesel_century(mp: int) -> int {
    if 1 <= mp <= 12 {
        1900
    } else if 21 <= mp <= 32 {
        2000
    } else if 41 <= mp <= 52 {
        2100
    } else if 61 <= mp <= 72 {
        2200
    } else {
        1800
    }
}

/// The month-block offset subtracted to recover the calendar month.
pub open spec fn pesel_month_offset(mp: int) -> int {
    if 1 <= mp <= 12 {
        0
    } else if 21 <= mp <= 32 {
        20
    } else if 41 <= mp <= 52 {
        40
    } else if 61 <= mp <= 72 {
        60
    } else {
        80
    }
}

/// The derived birth year of a valid identifier.
pub open spec fn pesel_year(s: Seq<char>) -> int {
    pesel_century(pesel_month_part(s)) + pesel_year_part(s)
}

/// The derived calendar birth month of a valid identifier.
pub open spec fn pesel_month(s: Seq<char>) -> int {
    pesel_month_part(s) - pesel_month_offset(pesel_month_part(s))
}

/// Whether `s` is a valid personal identifier.
pub open spec fn pesel_valid(s: Seq<char>) -> bool {
    &&& s.len() == 11
    &&& all_digits(s)
    &&& pesel_check_value(s) == digit_val(s[10])
    &&& pesel_band_ok(pesel_month_part(s))
}

/// The validation finding for `s`, or `None` when `s` is valid, in the order
/// the checks are made: length, digits, checksum, month band.
pub open spec fn pesel_error(s: Seq<char>) -> Option<ValidationError> {
    if s.len() != 11 {
        Some(
            (ValidationError::IdWrongLength {
                scheme: IdScheme::Personal,
                actual: s.len() as usize,
            }),
        )
    } else if !all_digits(s) {
        Some((ValidationError::IdNonDigit { scheme: IdScheme::Personal }))
    } else if pesel_check_value(s) != digit_val(s[10]) {
        Some((ValidationError::IdChecksum { scheme: IdScheme::Personal }))
    } else if !pesel_band_ok(pesel_month_part(s)) {
        Some(ValidationError::IdMonthRange)
    } else {
        None
    }
}

/// The birth date of a valid identifier, rendered as `YYYY-MM-DD`.
pub open spec fn pesel_birth_date(s: Seq<char>) -> Seq<char> {
    pad_nat(pesel_year(s) as nat, 4) + seq!['-'] + pad_nat(pesel_month(s) as nat, 2) + seq!['-']
        + pad_nat(pesel_day_part(s) as nat, 2)
}

/// The sex code of a valid identifier: digit 10 odd is `M`, even is `K`.
pub open spec fn pesel_gender(s: Seq<char>) -> Seq<char> {
    if digit_val(s[9]) % 2 == 1 {
        seq!['M']
    } else {
        seq!['K']
    }
}

/// Validates a personal identifier and derives its birth date and sex code.
///
/// Returns `Ok` exactly on valid identifiers; on invalid ones it returns the
/// first applicable finding, checked in the order length, digit characters,
/// checksum, month band.
pub fn validate(pesel: &str) -> (r: Result<PeselInfo, AppError>)
    ensures
        pesel_error(pesel@) is None <==> r is Ok,
        r matches Err(e) ==> pesel_error(pesel@) matches Some(v) && e == AppError::Validation(v),
        r matches Ok(info) ==> {
            &&& pesel_valid(pesel@)
            &&& info.date_of_birth@ == pesel_birth_date(pesel@)
            &&& info.gender@ == pesel_gender(pesel@)
        },
{
    let n = pesel.unicode_len();
    if n != 11 {
        return Err(
            AppError::Validation(
                ValidationError::IdWrongLength { scheme: IdScheme::Personal, actual: n },
            ),
        );
    }
    let mut dv: Vec<u8> = Vec::new();
    let mut i: usize = 0;
    while i < 11
        invariant
            pesel@.len() == 11,
            i <= 11,
            dv@.len() == i,
            forall|j: int|
                0 <= j < i ==> is_dec_digit(#[trigger] pesel@[j]) && dv@[j] as int == digit_val(
                    pesel@[j],
                ),
        decreases 11 - i,
    {
        let c = pesel.get_char(i);
        if !char_is_digit(c) {
            return Err(
                AppError::Validation((ValidationError::IdNonDigit { scheme: IdScheme::Personal })),
            );
        }
        dv.push(digit_value_of(c));
        i = i + 1;
    }
    assert(all_digits(pesel@));
    let mut sum: u32 = 0;
    let mut k: usize = 0;
    while k < 10
        invariant
            pesel@.len() == 11,
            all_digits(pesel@),
            k <= 10,
            dv@.len() == 11,
            forall|j: int| 0 <= j < 11 ==> dv@[j] as int == digit_val(#[trigger] pesel@[j]),
            sum as int == pesel_wsum(pesel@, k as int),
            sum <= 81 * k,
        decreases 10 - k,
    {
        let w: u32 = if k % 4 == 0 {
            1
        } else if k % 4 == 1 {
            3
        } else if k % 4 == 2 {
            7
        } else {
            9
        };
        assert(w as int == pesel_weight(k as int));
        assert(digit_val(pesel@[k as int]) <= 9);
        sum = sum + (dv[k] as u32) * w;
        k = k + 1;
    }
    let check: u32 = (10 - sum % 10) % 10;
    assert(check as int == pesel_check_value(pesel@));
    if check != dv[10] as u32 {
        return Err(
            AppError::Validation((ValidationError::IdChecksum { scheme: IdScheme::Personal })),
        );
    }
    let year_part: u32 = dv[0] as u32 * 10 + dv[1] as u32;
    let month_part: u32 = dv[2] as u32 * 10 + dv[3] as u32;
    let day: u32 = dv[4] as u32 * 10 + dv[5] as u32;
    assert(year_part as int == pesel_year_part(pesel@));
    assert(month_part as int == pesel_month_part(pesel@));
    assert(day as int == pesel_day_part(pesel@));
    let (year, month): (u32, u32) = if 1 <= month_part && month_part <= 12 {
        (1900 + year_part, month_part)
    } else if 21 <= month_part && month_part <= 32 {
        (2000 + year_part, month_part - 20)
    } else if 41 <= month_part && month_part <= 52 {
        (2100 + year_part, month_part - 40)
    } else if 61 <= month_part && month_part <= 72 {
        (2200 + year_part, month_part - 60)
    } else if 81 <= month_part && month_part <= 92 {
        (1800 + year_part, month_part - 80)
    } else {
        return Err(AppError::Validation(ValidationError::IdMonthRange));
    };
    assert(year as int == pesel_year(pesel@));
    assert(month as int == pesel_month(pesel@));
    let mut date_of_birth = String::new();
    crate::text::push_pad_nat(&mut date_of_birth, year as u128, 4);
    date_of_birth.append("-");
    crate::text::push_pad_nat(&mut date_of_birth, month as u128, 2);
    date_of_birth.append("-");
    crate::text::push_pad_nat(&mut date_of_birth, day as u128, 2);
    proof {
        reveal_strlit("-");
        assert(date_of_birth@ =~= pesel_birth_date(pesel@));
    }
    let gender = if dv[9] % 2 == 1 {
        String::from_str("M")
    } else {
        String::from_str("K")
    };
    proof {
        reveal_strlit("M");
        reveal_strlit("K");
        assert(gender@ =~= pesel_gender(pesel@));
    }
    Ok(PeselInfo { date_of_birth, gender })
}

/// For every valid personal identifier, recomputing the weighted checksum
/// over the first ten digits yields exactly the stored check digit.
pub proof fn lemma_pesel_checksum_matches(s: Seq<char>)
    requires
        pesel_valid(s),
    ensures
        (10 - pesel_wsum(s, 10) % 10) % 10 == digit_val(s[10]),
{
}

/// For every valid personal identifier, the derived calendar month lies in
/// 1-12, and the derived year lies in the century that its month band names.
pub proof fn lemma_pesel_month_bands(s: Seq<char>)
    requires
        pesel_valid(s),
    ensures
        1 <= pesel_month(s) <= 12,
        1 <= pesel_month_part(s) <= 12 ==> 1900 <= pesel_year(s) <= 1999,
        21 <= pesel_month_part(s) <= 32 ==> 2000 <= pesel_year(s) <= 2099,
        41 <= pesel_month_part(s) <= 52 ==> 2100 <= pesel_year(s) <= 2199,
        61 <= pesel_month_part(s) <= 72 ==> 2200 <= pesel_year(s) <= 2299,
        81 <= pesel_month_part(s) <= 92 ==> 1800 <= pesel_year(s) <= 1899,
{
    assert(digit_val(s[0]) <= 9);
    assert(digit_val(s[1]) <= 9);
    assert(0 <= pesel_year_part(s) <= 99);
}

/// What the identifier-validation command returns to its caller.
#[derive(Clone, Debug, PartialEq, Eq)]
pub struct PeselValidationResult {
    pub valid: bool,
    pub date_of_birth: Option<String>,
    pub gender: Option<String>,
    pub error: Option<String>,
}

/// Validates a personal identifier and reports the outcome as one value:
/// the derived birth date and sex code on success, the human-readable
/// message of the first finding otherwise.
pub fn validate_pesel(pesel_str: String) -> (r: PeselValidationResult)
    ensures
        r.valid <==> pesel_error(pesel_str@) is None,
        pesel_error(pesel_str@) is None ==> {
            &&& r.date_of_birth matches Some(d) && d@ == pesel_birth_date(pesel_str@)
            &&& r.gender matches Some(g) && g@ == pesel_gender(pesel_str@)
            &&& r.error is None
        },
        pesel_error(pesel_str@) matches Some(v) ==> {
            &&& r.date_of_birth is None
            &&& r.gender is None
            &&& r.error matches Some(m) && m@ == crate::error::app_message(
                AppError::Validation(v),
            )
        },
{
    match validate(pesel_str.as_str()) {
        Ok(info) => PeselValidationResult {
            valid: true,
            date_of_birth: Some(info.date_of_birth),
            gender: Some(info.gender),
            error: None,
        },
        Err(e) => {
            let message = e.message();
            PeselValidationResult { valid: false, date_of_birth: None, gender: None, error: Some(message) }
        },
    }
}

} // verus!
