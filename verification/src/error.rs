//! Error taxonomy of the library: validation findings, missing records,
//! generation failures, and wrapped failures of the storage and archive layers.

use vstd::prelude::*;
use vstd::string::StringExecFns;

verus! {

/// Which checksum-validated identifier scheme a finding is about.
#[derive(Clone, Copy, Debug, PartialEq, Eq, Structural)]
pub enum IdScheme {
    /// The 11-digit national personal identifier.
    Personal,
    /// The 10-digit organization tax identifier.
    OrgTax,
    /// The 9-digit organization statistical identifier.
    OrgStat,
}

/// Which monetary field of a contribution a finding is about.
#[derive(Clone, Copy, Debug, PartialEq, Eq, Structural)]
pub enum MoneyField {
    EmployeeBasic,
    EmployeeAdditional,
    EmployerBasic,
    EmployerAdditional,
}

/// Which required name field a finding is about.
#[derive(Clone, Copy, Debug, PartialEq, Eq, Structural)]
pub enum NameField {
    FirstName,
    LastName,
    OrganizationName,
}

/// A recoverable validation finding, reported verbatim to the caller.
#[derive(Clone, Copy, Debug, PartialEq, Eq, Structural)]
pub enum ValidationError {
    /// The identifier does not have the scheme's required number of characters.
    IdWrongLength { scheme: IdScheme, actual: usize },
    /// The identifier holds a character that is not a decimal digit.
    IdNonDigit { scheme: IdScheme },
    /// The identifier's weighted checksum does not match its check digit.
    IdChecksum { scheme: IdScheme },
    /// The personal identifier's month block falls outside every century band.
    IdMonthRange,
    /// A monetary value does not parse as a decimal number.
    AmountUnparsable { field: MoneyField },
    /// A monetary value is negative.
    AmountNegative { field: MoneyField },
    /// A monetary value has more than two fractional digits.
    AmountPrecision { field: MoneyField },
    /// A required name is empty or blank.
    EmptyName { field: NameField },
}

/// A record kind that a lookup can fail to find.
#[derive(Clone, Copy, Debug, PartialEq, Eq, Structural)]
pub enum Resource {
    Organization,
    Member,
    Generation,
}

/// The library's error type.
#[derive(Clone, Debug, PartialEq, Eq)]
pub enum AppError {
    /// A malformed input; always recoverable.
    Validation(ValidationError),
    /// A referenced record does not exist; terminal for the request.
    NotFound(Resource),
    /// A filing was requested for a period with no contribution rows.
    EmptyPeriod,
    /// A filing's column totals exceed the generator's arithmetic range.
    TotalsOverflow,
    /// A stored snapshot blob does not decode; terminal for that one export.
    MalformedSnapshot,
    /// The archive layer failed; carries its report.
    Archive(String),
    /// The storage layer failed; carries its report.
    Storage(String),
}

/// The human-readable, field-named message for a validation finding.
pub open spec fn validation_message(e: ValidationError) -> Seq<char> {
    match e {
        ValidationError::IdWrongLength { scheme, .. } => match scheme {
            IdScheme::Personal => "personal ID must have 11 digits"@,
            IdScheme::OrgTax => "tax ID must have 10 digits"@,
            IdScheme::OrgStat => "statistical ID must have 9 digits"@,
        },
        ValidationError::IdNonDigit { scheme } => match scheme {
            IdScheme::Personal => "personal ID may hold only digits"@,
            IdScheme::OrgTax => "tax ID may hold only digits"@,
            IdScheme::OrgStat => "statistical ID may hold only digits"@,
        },
        ValidationError::IdChecksum { scheme } => match scheme {
            IdScheme::Personal => "personal ID checksum is wrong"@,
            IdScheme::OrgTax => "tax ID checksum is wrong"@,
            IdScheme::OrgStat => "statistical ID checksum is wrong"@,
        },
        ValidationError::IdMonthRange => "personal ID month is out of range"@,
        ValidationError::AmountUnparsable { field } => match field {
            MoneyField::EmployeeBasic => "employee basic amount is not a valid number"@,
            MoneyField::EmployeeAdditional => "employee additional amount is not a valid number"@,
            MoneyField::EmployerBasic => "employer basic amount is not a valid number"@,
            MoneyField::EmployerAdditional => "employer additional amount is not a valid number"@,
        },
        ValidationError::AmountNegative { field } => match field {
            MoneyField::EmployeeBasic => "employee basic amount must not be negative"@,
            MoneyField::EmployeeAdditional => "employee additional amount must not be negative"@,
            MoneyField::EmployerBasic => "employer basic amount must not be negative"@,
            MoneyField::EmployerAdditional => "employer additional amount must not be negative"@,
        },
        ValidationError::AmountPrecision { field } => match field {
            MoneyField::EmployeeBasic => "employee basic amount may have at most 2 fractional digits"@,
            MoneyField::EmployeeAdditional => "employee additional amount may have at most 2 fractional digits"@,
            MoneyField::EmployerBasic => "employer basic amount may have at most 2 fractional digits"@,
            MoneyField::EmployerAdditional => "employer additional amount may have at most 2 fractional digits"@,
        },
        ValidationError::EmptyName { field } => match field {
            NameField::FirstName => "first name is required"@,
            NameField::LastName => "last name is required"@,
            NameField::OrganizationName => "organization name is required"@,
        },
    }
}

impl ValidationError {
    /// Renders this finding as its human-readable message.
    pub fn message(&self) -> (r: String)
        ensures
            r@ == validation_message(*self),
    {
        let text: &str = match *self {
            ValidationError::IdWrongLength { scheme, .. } => match scheme {
                IdScheme::Personal => "personal ID must have 11 digits",
                IdScheme::OrgTax => "tax ID must have 10 digits",
                IdScheme::OrgStat => "statistical ID must have 9 digits",
            },
            ValidationError::IdNonDigit { scheme } => match scheme {
                IdScheme::Personal => "personal ID may hold only digits",
                IdScheme::OrgTax => "tax ID may hold only digits",
                IdScheme::OrgStat => "statistical ID may hold only digits",
            },
            ValidationError::IdChecksum { scheme } => match scheme {
                IdScheme::Personal => "personal ID checksum is wrong",
                IdScheme::OrgTax => "tax ID checksum is wrong",
                IdScheme::OrgStat => "statistical ID checksum is wrong",
            },
            ValidationError::IdMonthRange => "personal ID month is out of range",
            ValidationError::AmountUnparsable { field } => match field {
                MoneyField::EmployeeBasic => "employee basic amount is not a valid number",
                MoneyField::EmployeeAdditional => "employee additional amount is not a valid number",
                MoneyField::EmployerBasic => "employer basic amount is not a valid number",
                MoneyField::EmployerAdditional => "employer additional amount is not a valid number",
            },
            ValidationError::AmountNegative { field } => match field {
                MoneyField::EmployeeBasic => "employee basic amount must not be negative",
                MoneyField::EmployeeAdditional => "employee additional amount must not be negative",
                MoneyField::EmployerBasic => "employer basic amount must not be negative",
                MoneyField::EmployerAdditional => "employer additional amount must not be negative",
            },
            ValidationError::AmountPrecision { field } => match field {
                MoneyField::EmployeeBasic => "employee basic amount may have at most 2 fractional digits",
                MoneyField::EmployeeAdditional => "employee additional amount may have at most 2 fractional digits",
                MoneyField::EmployerBasic => "employer basic amount may have at most 2 fractional digits",
                MoneyField::EmployerAdditional => "employer additional amount may have at most 2 fractional digits",
            },
            ValidationError::EmptyName { field } => match field {
                NameField::FirstName => "first name is required",
                NameField::LastName => "last name is required",
                NameField::OrganizationName => "organization name is required",
            },
        };
        String::from_str(text)
    }
}

/// The human-readable message for any library error.
pub open spec fn app_message(e: AppError) -> Seq<char> {
    match e {
        AppError::Validation(v) => "validation error: "@ + validation_message(v),
        AppError::NotFound(r) => match r {
            Resource::Organization => "not found: organization"@,
            Resource::Member => "not found: member"@,
            Resource::Generation => "not found: generation"@,
        },
        AppError::EmptyPeriod => "no contributions to generate for the selected period"@,
        AppError::TotalsOverflow => "contribution totals exceed the supported range"@,
        AppError::MalformedSnapshot => "stored snapshot cannot be read"@,
        AppError::Archive(m) => "archive error: "@ + m@,
        AppError::Storage(m) => "storage error: "@ + m@,
    }
}

impl AppError {
    /// Renders this error as its human-readable message.
    pub fn message(&self) -> (r: String)
        ensures
            r@ == app_message(*self),
    {
        match self {
            AppError::Validation(v) => {
                let mut out = String::from_str("validation error: ");
                let detail = v.message();
                out.append(detail.as_str());
                out
            },
            AppError::NotFound(which) => match which {
                Resource::Organization => String::from_str("not found: organization"),
                Resource::Member => String::from_str("not found: member"),
                Resource::Generation => String::from_str("not found: generation"),
            },
            AppError::EmptyPeriod => String::from_str(
                "no contributions to generate for the selected period",
            ),
            AppError::TotalsOverflow => String::from_str(
                "contribution totals exceed the supported range",
            ),
            AppError::MalformedSnapshot => String::from_str("stored snapshot cannot be read"),
            AppError::Archive(m) => {
                let mut out = String::from_str("archive error: ");
                out.append(m.as_str());
                out
            },
            AppError::Storage(m) => {
                let mut out = String::from_str("storage error: ");
                out.append(m.as_str());
                out
            },
        }
    }
}

} // verus!
