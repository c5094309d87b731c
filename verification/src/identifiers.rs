//! Identifiers for new rows, had from `uuid`.

use vstd::prelude::*;

verus! {

/// Draws a random identifier with `uuid::Uuid::new_v4` and writes it in the
/// hyphenated form (`Uuid`'s `Display`). The result differs from call to call,
/// so nothing is claimed of it.
#[verifier::external_body]
pub(crate) fn new_identifier() -> String {
    uuid::Uuid::new_v4().to_string()
}

} // verus!
