//! The one place where the library asks for the time.

use vstd::prelude::*;

verus! {

/// The current local time as text, from `chrono::Local::now` followed by
/// `DateTime::to_rfc3339`.
///
/// This is trusted, not proved. Nothing is claimed of the text: it depends
/// on the clock and on the time zone of the machine, so two calls may differ.
/// `Local::now` panics where the system clock stands before 1970.
#[verifier::external_body]
pub(crate) fn local_timestamp() -> (text: String) {
    chrono::Local::now().to_rfc3339()
}

} // verus!
