//! Monetary amounts: parsing through the outside decimal library, validation
//! of stored amount strings, and the exact two-fractional-digit renderings
//! that both document encodings use.

use vstd::prelude::*;
use crate::error::{AppError, MoneyField, ValidationError};
use crate::text::{dec_nat, pad_nat, pow10, push_dec_u128, push_pad_nat};
use vstd::string::StrSliceExecFns;
use vstd::string::StringExecFns;

verus! {

/// The sign, absolute mantissa and scale of a parsed decimal number: the
/// value is `(-1)^negative * mantissa / 10^scale`.
#[derive(Clone, Copy, Debug, PartialEq, Eq, Structural)]
pub struct DecParts {
    /// Whether the number carried a negative sign.
    pub negative: bool,
    /// The absolute value of the mantissa.
    pub mantissa: u128,
    /// The number of fractional digits.
    pub scale: u32,
}

/// What the outside decimal parser returns for a given character sequence.
pub uninterp spec fn dec_parse(s: Seq<char>) -> Option<DecParts>;

/// Relies on rust_decimal::Decimal::from_str for parsing, and on
/// Decimal::is_sign_negative, Decimal::mantissa and Decimal::scale to read
/// the parsed value out as plain parts. A parsed mantissa fits in 96 bits
/// and a parsed scale is at most 28, the library's documented limits.
#[verifier::external_body]
pub fn parse_decimal(s: &str) -> (r: Option<DecParts>)
    ensures
        r == dec_parse(s@),
        r matches Some(p) ==> p.mantissa < 0x1000000000000000000000000 && p.scale <= 28,
{
    match <rust_decimal::Decimal as core::str::FromStr>::from_str(s) {
        Ok(d) => Some(
            DecParts {
                negative: d.is_sign_negative(),
                mantissa: d.mantissa().unsigned_abs(),
                scale: d.scale(),
            },
        ),
        Err(_) => None,
    }
}

/// The value of `p` in hundredths, truncated toward zero past the second
/// fractional digit, exactly as a two-place rendering drops later digits.
pub open spec fn cents_of(p: DecParts) -> nat {
    if p.scale <= 2 {
        p.mantissa as nat * pow10((2 - p.scale) as nat)
    } else {
        p.mantissa as nat / pow10((p.scale - 2) as nat)
    }
}

/// Computes `pow10(k)` for the scale range of parsed decimals.
fn pow10_u128(k: u32) -> (r: u128)
    requires
        k <= 28,
    ensures
        r as nat == pow10(k as nat),
        r >= 1,
{
    let mut r: u128 = 1;
    let mut i: u32 = 0;
    proof {
        lemma_pow10_le(0, 28);
    }
    while i < k
        invariant
            i <= k <= 28,
            r as nat == pow10(i as nat),
            r >= 1,
        decreases k - i,
    {
        proof {
            lemma_pow10_le((i + 1) as nat, 28);
            lemma_pow10_28();
        }
        r = r * 10;
        i = i + 1;
    }
    r
}

/// `pow10` is monotone.
pub proof fn lemma_pow10_le(i: nat, j: nat)
    requires
        i <= j,
    ensures
        pow10(i) <= pow10(j),
        pow10(i) >= 1,
    decreases j,
{
    if j > 0 {
        if i == j {
            lemma_pow10_le((j - 1) as nat, (j - 1) as nat);
        } else {
            lemma_pow10_le(i, (j - 1) as nat);
        }
    }
}

/// The largest power of ten a parsed scale can call for.
proof fn lemma_pow10_28()
    ensures
        pow10(28) == 10000000000000000000000000000nat,
{
    assert(pow10(28) == 10000000000000000000000000000nat) by {
        reveal_with_fuel(pow10, 30);
    }
}

/// The cent value of parsed decimal `p`.
pub fn cents_value(p: DecParts) -> (c: u128)
    requires
        p.mantissa < 0x1000000000000000000000000,
        p.scale <= 28,
    ensures
        c as nat == cents_of(p),
{
    proof {
        reveal_with_fuel(pow10, 3);
        assert(pow10(0) == 1);
        assert(pow10(1) == 10);
        assert(pow10(2) == 100);
    }
    if p.scale == 2 {
        assert(cents_of(p) == p.mantissa as nat * 1);
        p.mantissa
    } else if p.scale == 1 {
        assert(cents_of(p) == p.mantissa as nat * 10);
        p.mantissa * 10
    } else if p.scale == 0 {
        assert(cents_of(p) == p.mantissa as nat * 100);
        p.mantissa * 100
    } else {
        let d = pow10_u128(p.scale - 2);
        let c = p.mantissa / d;
        assert(c as nat == p.mantissa as nat / pow10((p.scale - 2) as nat));
        c
    }
}

/// The rendering of `c` hundredths with the units and the two-digit
/// fraction split by `sep`.
pub open spec fn render_cents(c: nat, sep: char) -> Seq<char> {
    dec_nat(c / 100) + seq![sep] + pad_nat(c % 100, 2)
}

/// The canonical two-fractional-digit rendering of parsed decimal `p`.
pub open spec fn render_two(p: DecParts, sep: char) -> Seq<char> {
    if p.negative {
        seq!['-'] + render_cents(cents_of(p), sep)
    } else {
        render_cents(cents_of(p), sep)
    }
}

/// Appends the rendering of `c` hundredths to `out`.
pub fn push_render_cents(out: &mut String, c: u128, comma: bool)
    ensures
        final(out)@ == old(out)@ + render_cents(c as nat, if comma {
            ','
        } else {
            '.'
        }),
{
    push_dec_u128(out, c / 100);
    if comma {
        out.append(",");
        proof {
            reveal_strlit(",");
        }
    } else {
        out.append(".");
        proof {
            reveal_strlit(".");
        }
    }
    push_pad_nat(out, c % 100, 2);
    assert(final(out)@ =~= old(out)@ + render_cents(c as nat, if comma {
        ','
    } else {
        '.'
    }));
}

/// Appends the two-place rendering of `p` to `out`.
pub fn push_render_two(out: &mut String, p: DecParts, comma: bool)
    requires
        p.mantissa < 0x1000000000000000000000000,
        p.scale <= 28,
    ensures
        final(out)@ == old(out)@ + render_two(p, if comma {
            ','
        } else {
            '.'
        }),
{
    if p.negative {
        out.append("-");
        proof {
            reveal_strlit("-");
        }
    }
    let c = cents_value(p);
    push_render_cents(out, c, comma);
    assert(final(out)@ =~= old(out)@ + render_two(p, if comma {
        ','
    } else {
        '.'
    }));
}

/// `s` with every dot replaced by a comma.
pub open spec fn swap_dot_comma(s: Seq<char>) -> Seq<char> {
    s.map_values(
        |c: char|
            if c == '.' {
                ','
            } else {
                c
            },
    )
}

/// What either encoding shows for stored amount `s`: the parsed value
/// re-rendered to exactly two fractional digits, or, when `s` does not
/// parse, `s` itself with only the separator swapped for the comma form.
pub open spec fn fmt_amount(s: Seq<char>, comma: bool) -> Seq<char> {
    match dec_parse(s) {
        Some(p) => render_two(p, if comma {
            ','
        } else {
            '.'
        }),
        None => if comma {
            swap_dot_comma(s)
        } else {
            s
        },
    }
}

/// Renders stored amount `value` for the structured document: two
/// fractional digits with a dot, or the value unchanged when it does not
/// parse.
pub fn format_dot_decimal(value: &str) -> (r: String)
    ensures
        r@ == fmt_amount(value@, false),
{
    match parse_decimal(value) {
        Some(p) => {
            let mut out = String::new();
            push_render_two(&mut out, p, false);
            assert(out@ =~= fmt_amount(value@, false));
            out
        },
        None => String::from_str(value),
    }
}

/// Renders stored amount `value` for the delimited table: two fractional
/// digits with a comma, or the value with dots swapped to commas when it
/// does not parse.
pub fn format_comma_decimal(value: &str) -> (r: String)
    ensures
        r@ == fmt_amount(value@, true),
{
    match parse_decimal(value) {
        Some(p) => {
            let mut out = String::new();
            push_render_two(&mut out, p, true);
            assert(out@ =~= fmt_amount(value@, true));
            out
        },
        None => {
            let n = value.unicode_len();
            let mut out = String::new();
            let mut i: usize = 0;
            while i < n
                invariant
                    n == value@.len(),
                    i <= n,
                    out@ == swap_dot_comma(value@.subrange(0, i as int)),
                decreases n - i,
            {
                let c = value.get_char(i);
                if c == '.' {
                    out.push(',');
                } else {
                    out.push(c);
                }
                proof {
                    assert(value@.subrange(0, i + 1).drop_last() =~= value@.subrange(0, i as int));
                    assert(out@ =~= swap_dot_comma(value@.subrange(0, i + 1)));
                }
                i = i + 1;
            }
            proof {
                assert(value@.subrange(0, n as int) =~= value@);
            }
            out
        },
    }
}

/// Whether stored amount `s` satisfies the monetary invariant: it parses,
/// is not negative, and has at most two fractional digits.
pub open spec fn money_valid(s: Seq<char>) -> bool {
    match dec_parse(s) {
        None => false,
        Some(p) => {
            &&& (!p.negative || p.mantissa == 0)
            &&& p.scale <= 2
        },
    }
}

/// The validation finding for stored amount `s` against `field`, or `None`
/// when the amount is acceptable, in the order the checks are made:
/// parse, sign, precision.
pub open spec fn money_error(s: Seq<char>, field: MoneyField) -> Option<ValidationError> {
    match dec_parse(s) {
        None => Some((ValidationError::AmountUnparsable { field })),
        Some(p) => {
            if p.negative && p.mantissa > 0 {
                Some((ValidationError::AmountNegative { field }))
            } else if p.scale > 2 {
                Some((ValidationError::AmountPrecision { field }))
            } else {
                None
            }
        },
    }
}

/// Validates a monetary amount string supplied for `field`.
///
/// Accepts exactly the amounts that satisfy the monetary invariant:
/// parseable, non-negative, at most two fractional digits.
pub fn validate_money(value: &str, field: MoneyField) -> (r: Result<(), AppError>)
    ensures
        r is Ok <==> money_valid(value@),
        r matches Err(e) ==> money_error(value@, field) matches Some(v) && e == AppError::Validation(
            v,
        ),
{
    match parse_decimal(value) {
        None => Err(AppError::Validation((ValidationError::AmountUnparsable { field }))),
        Some(p) => {
            if p.negative && p.mantissa > 0 {
                Err(AppError::Validation((ValidationError::AmountNegative { field })))
            } else if p.scale > 2 {
                Err(AppError::Validation((ValidationError::AmountPrecision { field })))
            } else {
                Ok(())
            }
        },
    }
}

/// The cent value a row's amount contributes to a filing total: the exact
/// value for an amount that satisfies the monetary invariant, 0 otherwise.
/// A valid amount's cent value is below `2^103`: the parsed mantissa fits
/// 96 bits and is scaled by at most 100.
pub open spec fn cents_or_zero(s: Seq<char>) -> nat {
    if money_valid(s) {
        match dec_parse(s) {
            Some(p) => cents_of(p),
            None => 0,
        }
    } else {
        0
    }
}

/// The cent value of stored amount `value`, or 0 when it breaks the
/// monetary invariant.
pub fn cents_of_amount(value: &str) -> (c: u128)
    ensures
        c as nat == cents_or_zero(value@),
{
    match parse_decimal(value) {
        None => 0,
        Some(p) => {
            if p.negative && p.mantissa > 0 {
                0
            } else if p.scale > 2 {
                0
            } else {
                cents_value(p)
            }
        },
    }
}

/// The finding that rejects a partial contribution upsert, or `None` when
/// every supplied amount is acceptable, checking the four amounts in order.
pub open spec fn upsert_error(d: crate::models::UpsertContribution) -> Option<ValidationError> {
    if d.employee_basic matches Some(v) && money_error(v@, MoneyField::EmployeeBasic) is Some {
        money_error(d.employee_basic->Some_0@, MoneyField::EmployeeBasic)
    } else if d.employee_additional matches Some(v) && money_error(
        v@,
        MoneyField::EmployeeAdditional,
    ) is Some {
        money_error(d.employee_additional->Some_0@, MoneyField::EmployeeAdditional)
    } else if d.employer_basic matches Some(v) && money_error(v@, MoneyField::EmployerBasic) is Some {
        money_error(d.employer_basic->Some_0@, MoneyField::EmployerBasic)
    } else if d.employer_additional matches Some(v) && money_error(
        v@,
        MoneyField::EmployerAdditional,
    ) is Some {
        money_error(d.employer_additional->Some_0@, MoneyField::EmployerAdditional)
    } else {
        None
    }
}

/// Validates the amounts supplied in a partial contribution upsert: each
/// supplied amount must satisfy the monetary invariant; unsupplied fields
/// are not checked, since they keep their stored values.
pub fn validate_upsert(data: &crate::models::UpsertContribution) -> (r: Result<(), AppError>)
    ensures
        r is Ok <==> upsert_error(*data) is None,
        r matches Err(e) ==> upsert_error(*data) matches Some(v) && e == AppError::Validation(v),
{
    if let Some(v) = &data.employee_basic {
        match validate_money(v.as_str(), MoneyField::EmployeeBasic) {
            Ok(()) => {},
            Err(e) => {
                return Err(e);
            },
        }
    }
    if let Some(v) = &data.employee_additional {
        match validate_money(v.as_str(), MoneyField::EmployeeAdditional) {
            Ok(()) => {},
            Err(e) => {
                return Err(e);
            },
        }
    }
    if let Some(v) = &data.employer_basic {
        match validate_money(v.as_str(), MoneyField::EmployerBasic) {
            Ok(()) => {},
            Err(e) => {
                return Err(e);
            },
        }
    }
    if let Some(v) = &data.employer_additional {
        match validate_money(v.as_str(), MoneyField::EmployerAdditional) {
            Ok(()) => {},
            Err(e) => {
                return Err(e);
            },
        }
    }
    Ok(())
}

} // verus!
