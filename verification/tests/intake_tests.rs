use ppk_gen::error::{AppError, NameField, ValidationError};
use ppk_gen::members;
use ppk_gen::models::{CreateMember, UpdateMember};
use ppk_gen::organizations;

fn create_data() -> CreateMember {
    CreateMember {
        organization_id: 1,
        pesel: "92061578905".to_string(),
        first_name: "Ewa".to_string(),
        last_name: "Przykladowa".to_string(),
        gender: "".to_string(),
        date_of_birth: "".to_string(),
        citizenship: Some("PL".to_string()),
        second_name: None,
        doc_type: None,
        doc_number: None,
    }
}

#[test]
fn test_member_creation_derives_birth_date_and_sex() {
    let out = members::prepare_create_member(create_data()).unwrap();
    assert_eq!(out.date_of_birth, "1992-06-15");
    assert_eq!(out.gender, "K");
    assert_eq!(out.first_name, "Ewa");
    assert_eq!(out.pesel, "92061578905");
}

#[test]
fn test_member_creation_rejects_bad_identifier() {
    let mut data = create_data();
    data.pesel = "92061578904".to_string();
    let r = members::prepare_create_member(data);
    assert!(matches!(
        r,
        Err(AppError::Validation(ValidationError::IdChecksum { .. }))
    ));
}

#[test]
fn test_member_creation_rejects_blank_names() {
    let mut data = create_data();
    data.first_name = "   ".to_string();
    let r = members::prepare_create_member(data);
    assert!(matches!(
        r,
        Err(AppError::Validation(ValidationError::EmptyName {
            field: NameField::FirstName
        }))
    ));

    let mut data = create_data();
    data.last_name = "".to_string();
    let r = members::prepare_create_member(data);
    assert!(matches!(
        r,
        Err(AppError::Validation(ValidationError::EmptyName {
            field: NameField::LastName
        }))
    ));
}

#[test]
fn test_member_update_checks_names() {
    let data = UpdateMember {
        first_name: "Ewa".to_string(),
        last_name: "Przykladowa".to_string(),
        gender: "K".to_string(),
        date_of_birth: "1992-06-15".to_string(),
        citizenship: None,
        second_name: None,
        doc_type: None,
        doc_number: None,
        status: Some("active".to_string()),
    };
    assert!(members::validate_update_member(&data).is_ok());
    let blank = UpdateMember {
        last_name: " ".to_string(),
        ..data
    };
    assert!(members::validate_update_member(&blank).is_err());
}

#[test]
fn test_organization_validation_order_and_outcomes() {
    assert!(organizations::validate_organization("Firma", "5261040828", "123456785").is_ok());
    // bad tax identifier is reported first
    let r = organizations::validate_organization("Firma", "1234567890", "123456789");
    assert!(matches!(
        r,
        Err(AppError::Validation(ValidationError::IdChecksum { .. }))
    ));
    // then the statistical identifier
    let r = organizations::validate_organization("Firma", "5261040828", "123456789");
    assert!(matches!(
        r,
        Err(AppError::Validation(ValidationError::IdChecksum { .. }))
    ));
    // then the blank name
    let r = organizations::validate_organization("  ", "5261040828", "123456785");
    assert!(matches!(
        r,
        Err(AppError::Validation(ValidationError::EmptyName {
            field: NameField::OrganizationName
        }))
    ));
}
