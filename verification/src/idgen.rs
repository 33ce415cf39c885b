use vstd::prelude::*;

use crate::service::ports::UUIDService;

verus! {

/// Identifier source backed by random version-4 UUIDs.
#[derive(Debug, Clone)]
pub struct UUIDServiceImpl;

/// Relies on uuid::Uuid::new_v4 and its hyphenated text form: a random
/// identifier of exactly 36 characters; nothing is known of its value.
#[verifier::external_body]
fn fresh_uuid_string() -> (r: String)
    ensures
        r@.len() == 36,
{
    format!("{}", uuid::Uuid::new_v4())
}

impl UUIDService for UUIDServiceImpl {
    fn generate(&self) -> String {
        fresh_uuid_string()
    }
}

} // verus!
