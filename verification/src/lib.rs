//! Employer payroll filings for a capital-savings program: checksum
//! validation of national identifiers, period reconciliation of
//! contribution records, a byte-exact dual-format document codec, archive
//! packaging, and a snapshot codec that lets any past filing be reproduced
//! exactly.

pub mod archive;
pub mod clock;
pub mod csv;
pub mod error;
pub mod filing;
pub mod members;
pub mod models;
pub mod money;
pub mod nip;
pub mod organizations;
pub mod pesel;
pub mod reconcile;
pub mod snapshot;
pub mod regon;
pub mod text;
pub mod xml;
