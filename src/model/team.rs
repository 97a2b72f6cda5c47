use crate::table::Record;
use vstd::prelude::*;

verus! {

/// A group of people that tickets can be filed under.
#[derive(Debug, PartialEq, Eq)]
pub struct Team {
    pub id: String,
    pub name: String,
}

impl Clone for Team {
    fn clone(&self) -> (r: Self)
        ensures
            r == *self,
    {
        Team { id: self.id.clone(), name: self.name.clone() }
    }
}

impl Record for Team {
    fn duplicate(&self) -> (r: Self) {
        self.clone()
    }
}

} // verus!
