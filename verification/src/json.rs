//! JSON values, as the `serde_json` crate represents them.
use vstd::prelude::*;

verus! {

/// A JSON document. The library carries these values through without looking inside.
#[verifier::external_type_specification]
#[verifier::external_body]
pub struct ExJsonValue(serde_json::Value);

/// `Clone::clone` of `serde_json::Value`: the derived clone copies the whole document,
/// so the copy is the same JSON value.
#[verifier::external_body]
pub fn clone_json(v: &serde_json::Value) -> (r: serde_json::Value)
    ensures
        r == *v,
{
    v.clone()
}

} // verus!
