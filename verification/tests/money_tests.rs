use ppk_gen::error::{AppError, MoneyField, ValidationError};
use ppk_gen::models::UpsertContribution;
use ppk_gen::money;

#[test]
fn test_format_dot_keeps_two_places() {
    assert_eq!(money::format_dot_decimal("94.38"), "94.38");
    assert_eq!(money::format_dot_decimal("94.3"), "94.30");
    assert_eq!(money::format_dot_decimal("94"), "94.00");
    assert_eq!(money::format_dot_decimal("0"), "0.00");
}

#[test]
fn test_format_comma_swaps_separator() {
    assert_eq!(money::format_comma_decimal("94.38"), "94,38");
    assert_eq!(money::format_comma_decimal("0.5"), "0,50");
    assert_eq!(money::format_comma_decimal("7"), "7,00");
}

#[test]
fn test_format_fallback_passes_unparseable_values_through() {
    assert_eq!(money::format_dot_decimal("abc"), "abc");
    assert_eq!(money::format_comma_decimal("abc"), "abc");
    assert_eq!(money::format_dot_decimal("1.2.3"), "1.2.3");
    assert_eq!(money::format_comma_decimal("1.2.3"), "1,2,3");
    assert_eq!(money::format_dot_decimal(""), "");
}

#[test]
fn test_validate_money_accepts_valid_amounts() {
    assert!(money::validate_money("0.00", MoneyField::EmployeeBasic).is_ok());
    assert!(money::validate_money("94.38", MoneyField::EmployeeBasic).is_ok());
    assert!(money::validate_money("1000", MoneyField::EmployeeBasic).is_ok());
}

#[test]
fn test_validate_money_rejects_unparseable() {
    let r = money::validate_money("abc", MoneyField::EmployerBasic);
    assert!(matches!(
        r,
        Err(AppError::Validation(ValidationError::AmountUnparsable {
            field: MoneyField::EmployerBasic
        }))
    ));
}

#[test]
fn test_validate_money_rejects_negative() {
    let r = money::validate_money("-1.00", MoneyField::EmployeeBasic);
    assert!(matches!(
        r,
        Err(AppError::Validation(ValidationError::AmountNegative { .. }))
    ));
}

#[test]
fn test_validate_money_rejects_over_precision() {
    let r = money::validate_money("1.234", MoneyField::EmployeeAdditional);
    assert!(matches!(
        r,
        Err(AppError::Validation(ValidationError::AmountPrecision { .. }))
    ));
}

#[test]
fn test_validate_money_accepts_very_large_amounts() {
    assert!(money::validate_money("999999999999999999999999.00", MoneyField::EmployerAdditional)
        .is_ok());
    assert_eq!(
        money::format_dot_decimal("999999999999999999999999.00"),
        "999999999999999999999999.00"
    );
}

#[test]
fn test_upsert_checks_only_supplied_fields() {
    let data = UpsertContribution {
        member_id: 1,
        period_year: 2025,
        period_month: 12,
        employee_basic: Some("94.38".to_string()),
        employee_additional: None,
        employer_basic: None,
        employer_additional: None,
        reduced_basic_flag: None,
    };
    assert!(money::validate_upsert(&data).is_ok());

    let bad = UpsertContribution {
        employer_basic: Some("-5".to_string()),
        ..data
    };
    let r = money::validate_upsert(&bad);
    assert!(matches!(
        r,
        Err(AppError::Validation(ValidationError::AmountNegative {
            field: MoneyField::EmployerBasic
        }))
    ));
}

#[test]
fn test_totals_have_no_drift_over_repeated_cents() {
    // one hundred rows of 0.01 must total exactly 1.00
    let mut rows = Vec::new();
    for i in 0..100 {
        rows.push(ppk_gen::models::ContributionWithMember {
            id: i,
            member_id: i,
            period_year: 2025,
            period_month: 12,
            employee_basic: "0.01".to_string(),
            employee_additional: "0.10".to_string(),
            employer_basic: "0.03".to_string(),
            employer_additional: "0.00".to_string(),
            reduced_basic_flag: "N".to_string(),
            source: "manual".to_string(),
            updated_at: "t".to_string(),
            pesel: "85032212342".to_string(),
            first_name: "A".to_string(),
            last_name: "B".to_string(),
            gender: "K".to_string(),
            date_of_birth: "1985-03-22".to_string(),
            citizenship: "PL".to_string(),
            second_name: "".to_string(),
            doc_type: "".to_string(),
            doc_number: "".to_string(),
            member_status: "active".to_string(),
        });
    }
    let (t0, t1, t2, t3) = ppk_gen::filing::compute_totals(&rows).unwrap();
    assert_eq!(ppk_gen::filing::format_total(t0), "1.00");
    assert_eq!(ppk_gen::filing::format_total(t1), "10.00");
    assert_eq!(ppk_gen::filing::format_total(t2), "3.00");
    assert_eq!(ppk_gen::filing::format_total(t3), "0.00");
}

#[test]
fn test_error_messages_name_the_field() {
    let e = ValidationError::AmountNegative {
        field: MoneyField::EmployerBasic,
    };
    assert_eq!(e.message(), "employer basic amount must not be negative");
    let app = AppError::Validation(e);
    assert_eq!(
        app.message(),
        "validation error: employer basic amount must not be negative"
    );
}

#[test]
fn test_format_truncates_past_two_places() {
    assert_eq!(money::format_dot_decimal("0.005"), "0.00");
    assert_eq!(money::format_dot_decimal("-1.239"), "-1.23");
    assert_eq!(money::format_comma_decimal("2.999"), "2,99");
}

#[test]
fn test_format_accepts_separator_grammar() {
    assert_eq!(money::format_dot_decimal("1_000"), "1000.00");
    assert_eq!(money::format_dot_decimal("+5"), "5.00");
}

#[test]
fn test_format_comma_fallback_handles_wide_characters() {
    assert_eq!(money::format_comma_decimal("ab.ć"), "ab,ć");
}
