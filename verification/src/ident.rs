//! Fresh identifiers for tracks and clips.

use vstd::prelude::*;

verus! {

#[verifier::external_type_specification]
#[verifier::external_body]
pub struct ExUuid(uuid::Uuid);

/// Draws a new random identifier with `uuid::Uuid::new_v4`. Nothing is
/// claimed of the value: it comes from the operating system's random source.
#[verifier::external_body]
pub(crate) fn new_uuid() -> (value: uuid::Uuid) {
    uuid::Uuid::new_v4()
}

} // verus!
