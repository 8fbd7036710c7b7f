//! The opaque carrier for unmodeled document content.

use vstd::prelude::*;

verus! {

/// Relies on serde_json::Value, the JSON tree type, so that a path document
/// can carry fields the model does not understand through a
/// read-modify-write cycle. The value is opaque here: nothing in the
/// library reads inside one, it is only kept and handed back unchanged.
#[verifier::external_type_specification]
#[verifier::external_body]
pub struct ExValue(serde_json::Value);

} // verus!
