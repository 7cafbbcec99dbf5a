use ppk_gen::error::AppError;
use ppk_gen::error::ValidationError;
use ppk_gen::nip;
use ppk_gen::pesel;
use ppk_gen::regon;

#[test]
fn test_valid_nip() {
    assert!(nip::validate("5261040828").is_ok());
}

#[test]
fn test_invalid_nip() {
    assert!(nip::validate("1234567890").is_err());
}

#[test]
fn test_valid_pesel_female_1985() {
    let info = pesel::validate("85032212342").unwrap();
    assert_eq!(info.date_of_birth, "1985-03-22");
    assert_eq!(info.gender, "K");
}

#[test]
fn test_valid_pesel_female_1992() {
    let info = pesel::validate("92061578905").unwrap();
    assert_eq!(info.date_of_birth, "1992-06-15");
    assert_eq!(info.gender, "K");
}

#[test]
fn test_invalid_checksum() {
    assert!(pesel::validate("85032212349").is_err());
}

#[test]
fn test_wrong_length() {
    assert!(pesel::validate("1234567890").is_err());
}

#[test]
fn test_valid_regon() {
    assert!(regon::validate("123456785").is_ok());
}

#[test]
fn test_invalid_regon() {
    assert!(regon::validate("123456789").is_err());
}

#[test]
fn test_pesel_male() {
    let info = pesel::validate("85032212359").unwrap();
    assert_eq!(info.date_of_birth, "1985-03-22");
    assert_eq!(info.gender, "M");
}

#[test]
fn test_pesel_month_out_of_range() {
    // valid checksum, but the month block 13 falls in no century band
    let r = pesel::validate("85132212345");
    assert!(matches!(
        r,
        Err(AppError::Validation(ValidationError::IdMonthRange))
    ));
}

#[test]
fn test_pesel_non_digit() {
    let r = pesel::validate("8503221234x");
    assert!(matches!(
        r,
        Err(AppError::Validation(ValidationError::IdNonDigit { .. }))
    ));
}

#[test]
fn test_nip_check_value_ten_rejected_even_for_zero_digit() {
    // weighted sum is 10 modulo 11; the scheme rejects it outright even
    // though the stored check digit is 0
    assert!(nip::validate("0000000030").is_err());
}

#[test]
fn test_regon_check_value_ten_wraps_to_zero() {
    // weighted sum is 10 modulo 11; the scheme wraps it to 0 and accepts a
    // stored check digit of 0
    assert!(regon::validate("000000030").is_ok());
}

#[test]
fn test_nip_dashes_are_stripped() {
    assert!(nip::validate("526-104-08-28").is_ok());
}

#[test]
fn test_validate_pesel_result() {
    let ok = pesel::validate_pesel(String::from("92061578905"));
    assert!(ok.valid);
    assert_eq!(ok.date_of_birth.as_deref(), Some("1992-06-15"));
    assert_eq!(ok.gender.as_deref(), Some("K"));
    assert!(ok.error.is_none());

    let bad = pesel::validate_pesel(String::from("123"));
    assert!(!bad.valid);
    assert!(bad.date_of_birth.is_none());
    assert!(bad.gender.is_none());
    assert_eq!(
        bad.error.as_deref(),
        Some("validation error: personal ID must have 11 digits")
    );
}
