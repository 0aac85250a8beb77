//! The opaque JSON values that saved states carry through unread.
use vstd::prelude::*;

verus! {

/// `serde_json::Value`, carried through opaque: nothing inside a value is
/// read by verified code.
#[verifier::external_type_specification]
#[verifier::external_body]
pub struct ExJsonValue(serde_json::Value);

/// `serde_json::Value::Null`, the content of a state that holds none.
/// Nothing is claimed of the value.
#[verifier::external_body]
pub(crate) fn json_null() -> serde_json::Value {
    serde_json::Value::Null
}

} // verus!

verus! {

/// `Clone` of a JSON value, which the derived `Clone` of the saved states
/// calls; nothing is claimed of the copy.
pub assume_specification[ <serde_json::Value as Clone>::clone ](v: &serde_json::Value) -> serde_json::Value;

} // verus!
