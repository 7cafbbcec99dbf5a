//! Organization intake rules: both registration identifiers must pass their
//! checksum schemes and the name must not be blank. Storage itself is a
//! thin collaborator elsewhere.

use vstd::prelude::*;
use crate::error::{AppError, NameField, ValidationError};
use crate::nip::{nip_error, nip_valid};
use crate::regon::{regon_error, regon_valid};
use crate::text::{is_blank, str_is_blank};
use vstd::string::StringExecFns;

verus! {

/// The finding that rejects an organization's fields, or `None` when they
/// pass, in the order the checks are made: tax identifier, statistical
/// identifier, name.
pub open spec fn organization_error(name: Seq<char>, nip: Seq<char>, regon: Seq<char>) -> Option<
    ValidationError,
> {
    match nip_error(nip) {
        Some(e) => Some(e),
        None => match regon_error(regon) {
            Some(e) => Some(e),
            None => if is_blank(name) {
                Some((ValidationError::EmptyName { field: NameField::OrganizationName }))
            } else {
                None
            },
        },
    }
}

/// Validates the fields an organization is created or updated with.
///
/// Accepts exactly the requests whose tax and statistical identifiers pass
/// their checksum schemes and whose name is not blank.
pub fn validate_organization(name: &str, nip: &str, regon: &str) -> (r: Result<(), AppError>)
    ensures
        r is Ok <==> (nip_valid(nip@) && regon_valid(regon@) && !is_blank(name@)),
        r matches Err(e) ==> organization_error(name@, nip@, regon@) matches Some(v) && e
            == AppError::Validation(v),
{
    match crate::nip::validate(nip) {
        Ok(()) => {},
        Err(e) => {
            return Err(e);
        },
    }
    match crate::regon::validate(regon) {
        Ok(()) => {},
        Err(e) => {
            return Err(e);
        },
    }
    if str_is_blank(name) {
        return Err(
            AppError::Validation(
                (ValidationError::EmptyName { field: NameField::OrganizationName }),
            ),
        );
    }
    Ok(())
}

} // verus!
