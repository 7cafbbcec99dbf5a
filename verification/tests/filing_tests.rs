use ppk_gen::error::AppError;
use ppk_gen::models::{ContributionWithMember, Organization};

fn sample_org() -> Organization {
    Organization {
        id: 1,
        name: "Test Org".to_string(),
        nip: "5261040828".to_string(),
        regon: "123456785".to_string(),
        contact_person: "Jan Kowalski".to_string(),
        created_at: "2026-01-09".to_string(),
        updated_at: "2026-01-09".to_string(),
    }
}

fn sample_row() -> ContributionWithMember {
    ContributionWithMember {
        id: 1,
        member_id: 1,
        period_year: 2025,
        period_month: 12,
        employee_basic: "94.38".to_string(),
        employee_additional: "0.00".to_string(),
        employer_basic: "70.78".to_string(),
        employer_additional: "0.00".to_string(),
        reduced_basic_flag: "N".to_string(),
        source: "manual".to_string(),
        updated_at: "2026-01-09".to_string(),
        pesel: "85032212342".to_string(),
        first_name: "MARIA".to_string(),
        last_name: "TESTOWA".to_string(),
        gender: "K".to_string(),
        date_of_birth: "1985-03-22".to_string(),
        citizenship: "PL".to_string(),
        second_name: "".to_string(),
        doc_type: "".to_string(),
        doc_number: "".to_string(),
        member_status: "active".to_string(),
    }
}

#[test]
fn test_generate_refuses_empty_period() {
    let org = sample_org();
    let r = ppk_gen::filing::generate_filing(&org, vec![], 2025, 12);
    assert!(matches!(r, Err(AppError::EmptyPeriod)));
}

#[test]
fn test_generate_produces_consistent_bundle() {
    let org = sample_org();
    let rows = vec![sample_row(), sample_row()];
    let bundle = ppk_gen::filing::generate_filing(&org, rows.clone(), 2025, 12).unwrap();
    assert_eq!(bundle.member_count, 2);
    assert_eq!(bundle.total_employee_basic, "188.76");
    assert_eq!(bundle.total_employee_additional, "0.00");
    assert_eq!(bundle.total_employer_basic, "141.56");
    assert_eq!(bundle.total_employer_additional, "0.00");
    assert_eq!(bundle.csv, ppk_gen::csv::build(&rows, 2025, 12));
    assert!(bundle.zip_filename.starts_with("SKLADKA_"));
    assert!(bundle.zip_filename.ends_with(".zip"));
    assert!(!bundle.files.zip_bytes.is_empty());

    // the stored blob re-exports to the very same table
    let export =
        ppk_gen::filing::export_filing(&bundle.snapshot_blob, 2025, 12, "t").unwrap();
    assert_eq!(export.csv, bundle.csv);
}

#[test]
fn test_generation_record_carries_the_bundle_values() {
    let org = sample_org();
    let bundle = ppk_gen::filing::generate_filing(&org, vec![sample_row()], 2025, 12).unwrap();
    let record = ppk_gen::filing::generation_record(
        9,
        org.id,
        2025,
        12,
        "2026-01-09 12:00:00".to_string(),
        &bundle,
    );
    assert_eq!(record.id, 9);
    assert_eq!(record.organization_id, 1);
    assert_eq!(record.period_year, 2025);
    assert_eq!(record.period_month, 12);
    assert_eq!(record.file_path, bundle.zip_filename);
    assert_eq!(record.total_employee_basic, bundle.total_employee_basic);
    assert_eq!(record.total_employer_basic, bundle.total_employer_basic);
    assert_eq!(record.member_count, 1);
}
