//! Fresh identifiers, drawn from `uuid`.

use vstd::prelude::*;

verus! {

/// Calls `uuid::Uuid::new_v4` and prints the result in its hyphenated form,
/// which is 36 characters long. The identifier is random: nothing else is
/// promised of it.
#[verifier::external_body]
pub(crate) fn fresh_id() -> (r: String)
    ensures
        r@.len() == 36,
{
    uuid::Uuid::new_v4().to_string()
}

} // verus!
