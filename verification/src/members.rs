//! Member intake rules: the personal identifier is validated and the birth
//! date and sex code are derived from it before a member is stored; names
//! must not be blank. Storage itself is a thin collaborator elsewhere.

use vstd::prelude::*;
use crate::error::{AppError, NameField, ValidationError};
use crate::models::{CreateMember, UpdateMember};
use crate::pesel::{pesel_birth_date, pesel_error, pesel_gender, validate};
use crate::text::{is_blank, str_is_blank};
use vstd::string::StringExecFns;

verus! {

/// The finding that rejects a member creation, or `None` when it passes, in
/// the order the checks are made: identifier, first name, last name.
pub open spec fn create_member_error(data: CreateMember) -> Option<ValidationError> {
    match pesel_error(data.pesel@) {
        Some(e) => Some(e),
        None => if is_blank(data.first_name@) {
            Some((ValidationError::EmptyName { field: NameField::FirstName }))
        } else if is_blank(data.last_name@) {
            Some((ValidationError::EmptyName { field: NameField::LastName }))
        } else {
            None
        },
    }
}

/// Validates a member creation and fills in the derived fields.
///
/// Accepts exactly the requests whose personal identifier is valid and whose
/// first and last names are not blank; on success the birth date and sex
/// code are overwritten with the values derived from the identifier, and
/// every other field is returned unchanged.
pub fn prepare_create_member(data: CreateMember) -> (r: Result<CreateMember, AppError>)
    ensures
        create_member_error(data) is None <==> r is Ok,
        r matches Err(e) ==> create_member_error(data) matches Some(v) && e == AppError::Validation(
            v,
        ),
        r matches Ok(out) ==> {
            &&& out.date_of_birth@ == pesel_birth_date(data.pesel@)
            &&& out.gender@ == pesel_gender(data.pesel@)
            &&& out.organization_id == data.organization_id
            &&& out.pesel == data.pesel
            &&& out.first_name == data.first_name
            &&& out.last_name == data.last_name
            &&& out.citizenship == data.citizenship
            &&& out.second_name == data.second_name
            &&& out.doc_type == data.doc_type
            &&& out.doc_number == data.doc_number
        },
{
    let info = match validate(data.pesel.as_str()) {
        Ok(info) => info,
        Err(e) => {
            return Err(e);
        },
    };
    if str_is_blank(data.first_name.as_str()) {
        return Err(AppError::Validation((ValidationError::EmptyName { field: NameField::FirstName })));
    }
    if str_is_blank(data.last_name.as_str()) {
        return Err(AppError::Validation((ValidationError::EmptyName { field: NameField::LastName })));
    }
    Ok(
        CreateMember {
            date_of_birth: info.date_of_birth,
            gender: info.gender,
            ..data
        },
    )
}

/// The finding that rejects a member update, or `None` when it passes.
pub open spec fn update_member_error(data: UpdateMember) -> Option<ValidationError> {
    if is_blank(data.first_name@) {
        Some((ValidationError::EmptyName { field: NameField::FirstName }))
    } else if is_blank(data.last_name@) {
        Some((ValidationError::EmptyName { field: NameField::LastName }))
    } else {
        None
    }
}

/// Validates a member update: the first and last names must not be blank.
pub fn validate_update_member(data: &UpdateMember) -> (r: Result<(), AppError>)
    ensures
        update_member_error(*data) is None <==> r is Ok,
        r matches Err(e) ==> update_member_error(*data) matches Some(v) && e
            == AppError::Validation(v),
{
    if str_is_blank(data.first_name.as_str()) {
        return Err(AppError::Validation((ValidationError::EmptyName { field: NameField::FirstName })));
    }
    if str_is_blank(data.last_name.as_str()) {
        return Err(AppError::Validation((ValidationError::EmptyName { field: NameField::LastName })));
    }
    Ok(())
}

} // verus!
