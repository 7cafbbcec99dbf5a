use ppk_gen::models::{ContributionWithMember, Organization};
use ppk_gen::snapshot::{decode_snapshot, encode_snapshot, Snapshot};

fn sample_org() -> Organization {
    Organization {
        id: 3,
        name: "Zakład Usług: Wielobranżowych".to_string(),
        nip: "5261040828".to_string(),
        regon: "123456785".to_string(),
        contact_person: "Jan Kowalski".to_string(),
        created_at: "2026-01-09 10:00:00".to_string(),
        updated_at: "2026-01-09 11:00:00".to_string(),
    }
}

fn sample_row() -> ContributionWithMember {
    ContributionWithMember {
        id: 11,
        member_id: 4,
        period_year: 2025,
        period_month: 12,
        employee_basic: "94.38".to_string(),
        employee_additional: "0.00".to_string(),
        employer_basic: "70.78".to_string(),
        employer_additional: "0.00".to_string(),
        reduced_basic_flag: "N".to_string(),
        source: "manual".to_string(),
        updated_at: "2026-01-09".to_string(),
        pesel: "85032212342".to_string(),
        first_name: "Łucja:Maria".to_string(),
        last_name: "Żółć;".to_string(),
        gender: "K".to_string(),
        date_of_birth: "1985-03-22".to_string(),
        citizenship: "PL".to_string(),
        second_name: "".to_string(),
        doc_type: "".to_string(),
        doc_number: "".to_string(),
        member_status: "active".to_string(),
    }
}

#[test]
fn test_snapshot_round_trip() {
    let snap = Snapshot {
        organization: sample_org(),
        contributions: vec![sample_row(), sample_row()],
        period_year: 2025,
        period_month: 12,
    };
    let blob = encode_snapshot(&snap);
    let back = decode_snapshot(&blob).unwrap();
    assert_eq!(back, snap);
}

#[test]
fn test_snapshot_round_trip_empty_dataset() {
    let snap = Snapshot {
        organization: sample_org(),
        contributions: vec![],
        period_year: 2024,
        period_month: 1,
    };
    let blob = encode_snapshot(&snap);
    let back = decode_snapshot(&blob).unwrap();
    assert_eq!(back, snap);
}

#[test]
fn test_snapshot_malformed_blob_is_rejected() {
    assert!(decode_snapshot("").is_none());
    assert!(decode_snapshot("not a snapshot").is_none());
    assert!(decode_snapshot("5:abc").is_none());
    assert!(decode_snapshot("3:ab").is_none());
}

#[test]
fn test_export_renders_the_stored_dataset_not_live_state() {
    let snap = Snapshot {
        organization: sample_org(),
        contributions: vec![sample_row()],
        period_year: 2025,
        period_month: 12,
    };
    let blob = encode_snapshot(&snap);
    let stamp = "2026-01-09 12:00:00";
    let a = ppk_gen::filing::export_filing(&blob, 2025, 12, stamp).unwrap();
    let b = ppk_gen::filing::export_filing(&blob, 2025, 12, stamp).unwrap();
    // both renderings are byte-identical across exports of one generation
    assert_eq!(a.csv, b.csv);
    assert_eq!(a.xml, b.xml);
    // and equal the renderings computed straight from the dataset
    assert_eq!(a.csv, ppk_gen::csv::build(&snap.contributions, 2025, 12));
    assert_eq!(
        a.xml,
        ppk_gen::xml::build_at(&snap.organization, &snap.contributions, 2025, 12, stamp)
    );
    assert_eq!(a.member_count, 1);
}

#[test]
fn test_export_rejects_malformed_blob() {
    let r = ppk_gen::filing::export_filing("garbage", 2025, 12, "t");
    assert!(matches!(r, Err(ppk_gen::error::AppError::MalformedSnapshot)));
}

#[test]
fn test_decode_rejects_non_canonical_blobs() {
    // a zero-padded length prefix is not how any snapshot is encoded
    assert!(decode_snapshot("02:ab").is_none());
    // a zero-padded numeric field is not how any snapshot is encoded
    let snap = Snapshot {
        organization: sample_org(),
        contributions: vec![],
        period_year: 2025,
        period_month: 7,
    };
    let blob = encode_snapshot(&snap);
    let padded = blob.replacen("4:2025", "5:02025", 1);
    assert_ne!(blob, padded);
    assert!(decode_snapshot(&padded).is_none());
}

#[test]
fn test_decode_inverts_encode_exactly() {
    let snap = Snapshot {
        organization: sample_org(),
        contributions: vec![sample_row()],
        period_year: 2025,
        period_month: 12,
    };
    let blob = encode_snapshot(&snap);
    let back = decode_snapshot(&blob).unwrap();
    assert_eq!(encode_snapshot(&back), blob);
}
