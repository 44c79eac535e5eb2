//! JSON values, which some requests and messages carry along unread.

use vstd::prelude::*;

verus! {

/// `serde_json::Value`: any JSON value. It is carried through and never looked into.
#[verifier::external_type_specification]
#[verifier::external_body]
pub struct ExValue(serde_json::Value);

} // verus!
