//! The data model: organizations, members, contribution rows joined with
//! their member, and generation records with their frozen snapshot blob.

use vstd::prelude::*;

verus! {

/// An employer organization.
#[derive(Clone, Debug, PartialEq, Eq)]
pub struct Organization {
    pub id: i64,
    pub name: String,
    /// The 10-digit tax identifier.
    pub nip: String,
    /// The 9-digit statistical identifier.
    pub regon: String,
    pub contact_person: String,
    pub created_at: String,
    pub updated_at: String,
}

/// The fields needed to create an organization.
#[derive(Clone, Debug, PartialEq, Eq)]
pub struct CreateOrganization {
    pub name: String,
    pub nip: String,
    pub regon: String,
    pub contact_person: String,
}

/// The fields accepted when updating an organization.
#[derive(Clone, Debug, PartialEq, Eq)]
pub struct UpdateOrganization {
    pub name: String,
    pub nip: String,
    pub regon: String,
    pub contact_person: String,
}

/// A program member owned by an organization.
#[derive(Clone, Debug, PartialEq, Eq)]
pub struct Member {
    pub id: i64,
    pub organization_id: i64,
    pub pesel: String,
    pub first_name: String,
    pub last_name: String,
    pub gender: String,
    pub date_of_birth: String,
    pub citizenship: String,
    pub second_name: String,
    pub doc_type: String,
    pub doc_number: String,
    pub status: String,
    pub created_at: String,
    pub updated_at: String,
}

/// The fields needed to create a member; the birth date and sex code are
/// derived from the personal identifier before storage.
#[derive(Clone, Debug, PartialEq, Eq)]
pub struct CreateMember {
    pub organization_id: i64,
    pub pesel: String,
    pub first_name: String,
    pub last_name: String,
    pub gender: String,
    pub date_of_birth: String,
    pub citizenship: Option<String>,
    pub second_name: Option<String>,
    pub doc_type: Option<String>,
    pub doc_number: Option<String>,
}

/// The fields accepted when updating a member.
#[derive(Clone, Debug, PartialEq, Eq)]
pub struct UpdateMember {
    pub first_name: String,
    pub last_name: String,
    pub gender: String,
    pub date_of_birth: String,
    pub citizenship: Option<String>,
    pub second_name: Option<String>,
    pub doc_type: Option<String>,
    pub doc_number: Option<String>,
    pub status: Option<String>,
}

/// A contribution row joined with its member's identity fields, as the
/// document codec consumes it.
#[derive(Clone, Debug, PartialEq, Eq)]
pub struct ContributionWithMember {
    pub id: i64,
    pub member_id: i64,
    pub period_year: i32,
    pub period_month: i32,
    pub employee_basic: String,
    pub employee_additional: String,
    pub employer_basic: String,
    pub employer_additional: String,
    pub reduced_basic_flag: String,
    pub source: String,
    pub updated_at: String,
    pub pesel: String,
    pub first_name: String,
    pub last_name: String,
    pub gender: String,
    pub date_of_birth: String,
    pub citizenship: String,
    pub second_name: String,
    pub doc_type: String,
    pub doc_number: String,
    pub member_status: String,
}

/// A partial contribution upsert: only the supplied fields overwrite the
/// stored row, and the provenance tag always becomes `manual`.
#[derive(Clone, Debug, PartialEq, Eq)]
pub struct UpsertContribution {
    pub member_id: i64,
    pub period_year: i32,
    pub period_month: i32,
    pub employee_basic: Option<String>,
    pub employee_additional: Option<String>,
    pub employer_basic: Option<String>,
    pub employer_additional: Option<String>,
    pub reduced_basic_flag: Option<String>,
}

/// Namespace for contribution operations.
#[derive(Clone, Copy, Debug, PartialEq, Eq, Structural)]
pub struct Contribution;

/// One (year, month) contribution period.
#[derive(Clone, Copy, Debug, PartialEq, Eq, Structural)]
pub struct Period {
    pub year: i32,
    pub month: i32,
}

/// A recorded filing generation.
#[derive(Clone, Debug, PartialEq, Eq)]
pub struct Generation {
    pub id: i64,
    pub organization_id: i64,
    pub period_year: i32,
    pub period_month: i32,
    pub generated_at: String,
    pub file_path: String,
    pub total_employee_basic: String,
    pub total_employer_basic: String,
    pub member_count: i32,
}

/// A recorded filing generation together with its frozen snapshot blob.
#[derive(Clone, Debug, PartialEq, Eq)]
pub struct GenerationWithSnapshot {
    pub id: i64,
    pub organization_id: i64,
    pub period_year: i32,
    pub period_month: i32,
    pub generated_at: String,
    pub file_path: String,
    pub total_employee_basic: String,
    pub total_employer_basic: String,
    pub member_count: i32,
    pub snapshot_json: String,
}

} // verus!
