use ppk_gen::models::{Contribution, Member};
use ppk_gen::reconcile::ContributionRecord;

fn member(id: i64, status: &str) -> Member {
    Member {
        id,
        organization_id: 1,
        pesel: "85032212342".to_string(),
        first_name: "MARIA".to_string(),
        last_name: "TESTOWA".to_string(),
        gender: "K".to_string(),
        date_of_birth: "1985-03-22".to_string(),
        citizenship: "PL".to_string(),
        second_name: "".to_string(),
        doc_type: "".to_string(),
        doc_number: "".to_string(),
        status: status.to_string(),
        created_at: "2026-01-09".to_string(),
        updated_at: "2026-01-09".to_string(),
    }
}

fn record(member_id: i64, year: i32, month: i32, employee_basic: &str) -> ContributionRecord {
    ContributionRecord {
        member_id,
        period_year: year,
        period_month: month,
        employee_basic: employee_basic.to_string(),
        employee_additional: "0.00".to_string(),
        employer_basic: "10.00".to_string(),
        employer_additional: "0.00".to_string(),
        reduced_basic_flag: "N".to_string(),
        source: "manual".to_string(),
    }
}

#[test]
fn test_prefill_copies_most_recent_prior_record() {
    let members = vec![member(1, "active")];
    let rows = vec![record(1, 2025, 10, "50.00"), record(1, 2025, 11, "75.00")];
    let plan = Contribution::prefill_plan(&members, &rows, 2025, 12);
    assert_eq!(plan.len(), 1);
    assert_eq!(plan[0].member_id, 1);
    assert_eq!(plan[0].period_year, 2025);
    assert_eq!(plan[0].period_month, 12);
    // the (2025,11) values are copied, not (2025,10)
    assert_eq!(plan[0].employee_basic, "75.00");
    assert_eq!(plan[0].source, "prefilled");
}

#[test]
fn test_prefill_year_boundary_prefers_later_year() {
    let members = vec![member(1, "active")];
    let rows = vec![record(1, 2025, 12, "99.00"), record(1, 2024, 12, "11.00")];
    let plan = Contribution::prefill_plan(&members, &rows, 2026, 1);
    assert_eq!(plan.len(), 1);
    assert_eq!(plan[0].employee_basic, "99.00");
}

#[test]
fn test_prefill_zero_default_without_history() {
    let members = vec![member(7, "active")];
    let rows: Vec<ContributionRecord> = vec![];
    let plan = Contribution::prefill_plan(&members, &rows, 2025, 12);
    assert_eq!(plan.len(), 1);
    assert_eq!(plan[0].employee_basic, "0.00");
    assert_eq!(plan[0].employee_additional, "0.00");
    assert_eq!(plan[0].employer_basic, "0.00");
    assert_eq!(plan[0].employer_additional, "0.00");
    assert_eq!(plan[0].reduced_basic_flag, "N");
    assert_eq!(plan[0].source, "prefilled");
}

#[test]
fn test_prefill_skips_inactive_members() {
    let members = vec![member(1, "inactive"), member(2, "active")];
    let rows = vec![record(2, 2025, 11, "20.00")];
    let plan = Contribution::prefill_plan(&members, &rows, 2025, 12);
    assert_eq!(plan.len(), 1);
    assert_eq!(plan[0].member_id, 2);
}

#[test]
fn test_prefill_skips_members_with_target_record() {
    let members = vec![member(1, "active")];
    let rows = vec![record(1, 2025, 12, "20.00")];
    let plan = Contribution::prefill_plan(&members, &rows, 2025, 12);
    assert_eq!(plan.len(), 0);
}

#[test]
fn test_prefill_twice_inserts_nothing_the_second_time() {
    let members = vec![member(1, "active"), member(2, "active")];
    let mut rows = vec![record(1, 2025, 11, "50.00")];
    let plan = Contribution::prefill_plan(&members, &rows, 2025, 12);
    assert_eq!(plan.len(), 2);
    rows.extend(plan);
    let second = Contribution::prefill_plan(&members, &rows, 2025, 12);
    assert_eq!(second.len(), 0);
}
