pub mod team;
pub mod ticket;
pub mod user;

use vstd::prelude::*;

verus! {

/// Relies on uuid's `Uuid::new_v4` and its `Display` impl: a random version 4
/// identifier written in hyphenated form, 36 characters with a hyphen at
/// positions 8, 13, 18 and 23.
#[verifier::external_body]
pub(crate) fn new_id() -> (r: String)
    ensures
        r@.len() == 36,
        r@[8] == '-' && r@[13] == '-' && r@[18] == '-' && r@[23] == '-',
{
    uuid::Uuid::new_v4().to_string()
}

} // verus!
