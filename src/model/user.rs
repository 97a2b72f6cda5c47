use crate::table::Record;
use vstd::prelude::*;

verus! {

/// A person who can create tickets and have them assigned.
#[derive(Debug, PartialEq, Eq)]
pub struct User {
    pub id: String,
    pub name: String,
}

impl Clone for User {
    fn clone(&self) -> (r: Self)
        ensures
            r == *self,
    {
        User { id: self.id.clone(), name: self.name.clone() }
    }
}

impl Record for User {
    fn duplicate(&self) -> (r: Self) {
        self.clone()
    }
}

} // verus!
