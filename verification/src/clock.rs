//! The wall-clock reading that stamps a generation: the one place where the
//! library's output depends on anything beyond its arguments.

use vstd::prelude::*;

verus! {

/// Relies on chrono::Local::now for the wall-clock reading; the first
/// string renders it as `%Y-%m-%d %H:%M:%S`, the second as `%Y%m%d_%H%M%S`.
/// Nothing is promised of the result: callers treat the clock reading as an
/// arbitrary string and every contract downstream takes it as an argument.
#[verifier::external_body]
pub fn now_strings() -> (String, String) {
    let now = chrono::Local::now();
    (
        now.format("%Y-%m-%d %H:%M:%S").to_string(),
        now.format("%Y%m%d_%H%M%S").to_string(),
    )
}

} // verus!
