use crate::table::Record;
use vstd::prelude::*;

verus! {

/// The stage a ticket is in; no other stages exist.
#[derive(Clone, Copy, Debug, PartialEq, Eq, Structural)]
pub enum TicketStatus {
    New,
    Pending,
    Complete,
    Rejected,
}

/// A unit of work. `created_by` and `assigned_to` hold user ids and `team_id`
/// a team id; each may be empty, and none has to name an existing record.
#[derive(Debug, PartialEq, Eq)]
pub struct Ticket {
    pub id: String,
    pub title: String,
    pub description: String,
    pub status: TicketStatus,
    pub created_by: String,
    pub assigned_to: String,
    pub team_id: String,
}

impl Clone for Ticket {
    fn clone(&self) -> (r: Self)
        ensures
            r == *self,
    {
        Ticket {
            id: self.id.clone(),
            title: self.title.clone(),
            description: self.description.clone(),
            status: self.status,
            created_by: self.created_by.clone(),
            assigned_to: self.assigned_to.clone(),
            team_id: self.team_id.clone(),
        }
    }
}

impl Record for Ticket {
    fn duplicate(&self) -> (r: Self) {
        self.clone()
    }
}

} // verus!
