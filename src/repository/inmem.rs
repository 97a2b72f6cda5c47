use crate::api::ticket::TicketFilter;
use crate::model::team::Team;
use crate::model::ticket::{Ticket, TicketStatus};
use crate::model::user::User;
use crate::table::{Table, folded, keyed, unique_keys, lookup, lists, listed_by};
use crate::text::{blank, is_blank};
use vstd::prelude::*;

verus! {

/// The abstract state of a store: where it is persisted, and the three
/// collections, each a map from key to record.
pub struct InmemView {
    pub file_name: Seq<char>,
    pub users: Map<Seq<char>, User>,
    pub tickets: Map<Seq<char>, Ticket>,
    pub teams: Map<Seq<char>, Team>,
}

impl InmemView {
    /// A store persisted at `file_name` with three empty collections.
    pub open spec fn empty(file_name: Seq<char>) -> InmemView {
        InmemView {
            file_name,
            users: Map::empty(),
            tickets: Map::empty(),
            teams: Map::empty(),
        }
    }

    /// The state after storing `u` under its id.
    pub open spec fn put_user(self, u: User) -> InmemView {
        InmemView { users: self.users.insert(u.id@, u), ..self }
    }

    /// The state after removing the user stored under `id`.
    pub open spec fn drop_user(self, id: Seq<char>) -> InmemView {
        InmemView { users: self.users.remove(id), ..self }
    }

    /// The state after storing `t` under its id.
    pub open spec fn put_team(self, t: Team) -> InmemView {
        InmemView { teams: self.teams.insert(t.id@, t), ..self }
    }

    /// The state after storing `t` under its id.
    pub open spec fn put_ticket(self, t: Ticket) -> InmemView {
        InmemView { tickets: self.tickets.insert(t.id@, t), ..self }
    }

    /// The state after removing the ticket stored under `id`.
    pub open spec fn drop_ticket(self, id: Seq<char>) -> InmemView {
        InmemView { tickets: self.tickets.remove(id), ..self }
    }

    /// Whether ticket `t` has status `status` (when given) and belongs to a
    /// stored team named `team` (when given).
    pub open spec fn passes(self, t: Ticket, status: Option<TicketStatus>, team: Option<Seq<char>>) -> bool {
        &&& (status matches Some(s) ==> t.status == s)
        &&& (team matches Some(name) ==> self.teams.contains_key(t.team_id@)
            && self.teams[t.team_id@].name@ == name)
    }

    /// The stored tickets that pass the two criteria.
    pub open spec fn selected(self, status: Option<TicketStatus>, team: Option<Seq<char>>) -> Map<
        Seq<char>,
        Ticket,
    > {
        Map::new(
            |k: Seq<char>| self.tickets.contains_key(k) && self.passes(self.tickets[k], status, team),
            |k: Seq<char>| self.tickets[k],
        )
    }
}

/// The team criterion that a filter's team field stands for: none when the
/// field is absent or blank.
pub open spec fn team_criterion(team: Option<String>) -> Option<Seq<char>> {
    match team {
        Some(name) => if blank(name@) {
            None
        } else {
            Some(name@)
        },
        None => None,
    }
}

/// The whole content of a store as persisted: each collection as its entries,
/// each entry with the key that it is stored under.
pub struct Data {
    pub users: Vec<(String, User)>,
    pub tickets: Vec<(String, Ticket)>,
    pub teams: Vec<(String, Team)>,
}

impl Data {
    /// The state that loading this snapshot into a store at `file_name` gives:
    /// each collection filled entry by entry, under the entry's key.
    pub open spec fn restored(self, file_name: Seq<char>) -> InmemView {
        InmemView {
            file_name,
            users: folded(self.users@),
            tickets: folded(self.tickets@),
            teams: folded(self.teams@),
        }
    }

    /// Whether this snapshot holds exactly the collections of `v`, with no
    /// key repeated.
    pub open spec fn is_snapshot_of(self, v: InmemView) -> bool {
        &&& unique_keys(self.users@) && keyed(self.users@) == v.users
        &&& unique_keys(self.tickets@) && keyed(self.tickets@) == v.tickets
        &&& unique_keys(self.teams@) && keyed(self.teams@) == v.teams
    }
}

/// The store: three independent collections and the path that they are
/// persisted at. References between records are not enforced.
pub struct Inmem {
    file_name: String,
    users: Table<User>,
    tickets: Table<Ticket>,
    teams: Table<Team>,
}

impl View for Inmem {
    type V = InmemView;

    closed spec fn view(&self) -> InmemView {
        InmemView {
            file_name: self.file_name@,
            users: self.users@,
            tickets: self.tickets@,
            teams: self.teams@,
        }
    }
}

impl Inmem {
    /// A store persisted at `file_name`, holding what `last_state` holds, or
    /// nothing when there was no earlier state.
    pub fn new(file_name: String, last_state: Option<Data>) -> (r: Self)
        ensures
            r@ == match last_state {
                Some(d) => d.restored(file_name@),
                None => InmemView::empty(file_name@),
            },
    {
        match last_state {
            Some(data) => Inmem {
                file_name,
                users: Table::from_entries(data.users),
                tickets: Table::from_entries(data.tickets),
                teams: Table::from_entries(data.teams),
            },
            None => Inmem {
                file_name,
                users: Table::new(),
                tickets: Table::new(),
                teams: Table::new(),
            },
        }
    }

    /// The path that the store is persisted at.
    pub fn file_name(&self) -> (r: &String)
        ensures
            r@ == self@.file_name,
    {
        &self.file_name
    }

    /// The current content of all three collections.
    pub fn snapshot(&self) -> (r: Data)
        ensures
            r.is_snapshot_of(self@),
    {
        Data {
            users: self.users.entries(),
            tickets: self.tickets.entries(),
            teams: self.teams.entries(),
        }
    }

    /// All users, in no particular order.
    pub fn get_users(&self) -> (r: Vec<User>)
        ensures
            lists(self@.users, r@),
    {
        self.users.values()
    }

    /// The user stored under `id`, if any.
    pub fn get_user(&self, id: String) -> (r: Option<User>)
        ensures
            r == lookup(self@.users, id@),
    {
        match self.users.get(&id) {
            Some(u) => Some(u.clone()),
            None => None,
        }
    }

    /// Stores `user` under its id, replacing any user already there.
    pub fn create_user(&mut self, user: User)
        ensures
            final(self)@ == old(self)@.put_user(user),
    {
        self.users.insert(user.id.clone(), user);
    }

    /// Removes the user stored under `id`; an absent id changes nothing.
    pub fn _delete_user(&mut self, id: String)
        ensures
            final(self)@ == old(self)@.drop_user(id@),
    {
        self.users.remove(&id);
    }

    /// All teams, in no particular order.
    pub fn get_teams(&self) -> (r: Vec<Team>)
        ensures
            lists(self@.teams, r@),
    {
        self.teams.values()
    }

    /// The team stored under `id`, if any.
    pub fn get_team(&self, id: String) -> (r: Option<Team>)
        ensures
            r == lookup(self@.teams, id@),
    {
        match self.teams.get(&id) {
            Some(t) => Some(t.clone()),
            None => None,
        }
    }

    /// Stores `team` under its id, replacing any team already there.
    pub fn create_team(&mut self, team: Team)
        ensures
            final(self)@ == old(self)@.put_team(team),
    {
        self.teams.insert(team.id.clone(), team);
    }

    /// The tickets that `filter` lets through, in no particular order. A blank
    /// team name filters nothing; a team name that no stored team has lets
    /// no ticket through.
    pub fn get_tickets(&self, filter: &TicketFilter) -> (r: Vec<Ticket>)
        ensures
            lists(self@.selected(filter.status, team_criterion(filter.team)), r@),
    {
        match &filter.team {
            Some(team) => {
                if is_blank(team) {
                    self.tickets_matching(filter.status, None)
                } else {
                    self.tickets_matching(filter.status, Some(team))
                }
            },
            None => self.tickets_matching(filter.status, None),
        }
    }

    /// The tickets with status `status` (when given) whose team id names a
    /// stored team called `team` (when given), in no particular order.
    pub fn tickets_matching(&self, status: Option<TicketStatus>, team: Option<&String>) -> (r: Vec<
        Ticket,
    >)
        ensures
            lists(
                self@.selected(
                    status,
                    match team {
                        Some(name) => Some(name@),
                        None => None,
                    },
                ),
                r@,
            ),
    {
        let ghost v = self@;
        let ghost crit = match team {
            Some(name) => Some(name@),
            None => None,
        };
        let ghost sel = v.selected(status, crit);
        let all = self.tickets.values();
        let ghost ks = choose|ks: Seq<Seq<char>>| listed_by(v.tickets, ks, all@);
        let ghost mut ks_out: Seq<Seq<char>> = Seq::empty();
        let mut r: Vec<Ticket> = Vec::new();
        let mut i: usize = 0;
        while i < all.len()
            invariant
                v == self@,
                sel == v.selected(status, crit),
                crit == match team {
                    Some(name) => Some(name@),
                    None => None::<Seq<char>>,
                },
                listed_by(v.tickets, ks, all@),
                i <= all@.len(),
                ks_out.len() == r@.len(),
                ks_out.no_duplicates(),
                forall|j: int| 0 <= j < ks_out.len() ==> sel.contains_key(#[trigger] ks_out[j]) && r@[j]
                    == sel[ks_out[j]],
                forall|j: int| 0 <= j < ks_out.len() ==> exists|m: int| 0 <= m < i && ks[m] == #[trigger] ks_out[j],
                forall|j: int| 0 <= j < i && sel.contains_key(#[trigger] ks[j]) ==> ks_out.contains(ks[j]),
            decreases all@.len() - i,
        {
            let t = &all[i];
            let status_ok = match status {
                Some(s) => t.status == s,
                None => true,
            };
            let team_ok = match team {
                Some(name) => match self.teams.get(&t.team_id) {
                    Some(found) => found.name == *name,
                    None => false,
                },
                None => true,
            };
            proof {
                assert(v.tickets.contains_key(ks[i as int]) && *t == v.tickets[ks[i as int]]);
                assert(status_ok && team_ok <==> v.passes(*t, status, crit));
            }
            if status_ok && team_ok {
                r.push(t.clone());
                proof {
                    let prev = ks_out;
                    let k = ks[i as int];
                    assert forall|j: int| 0 <= j < prev.len() implies prev[j] != k by {
                        let m = choose|m: int| 0 <= m < i && ks[m] == prev[j];
                        assert(ks[m] != k);
                    }
                    ks_out = prev.push(k);
                    assert forall|j: int| 0 <= j < ks_out.len() implies exists|m: int|
                        0 <= m < i + 1 && ks[m] == #[trigger] ks_out[j] by {
                        if j < prev.len() {
                            let m = choose|m: int| 0 <= m < i && ks[m] == prev[j];
                            assert(ks[m] == ks_out[j]);
                        } else {
                            assert(ks[i as int] == ks_out[j]);
                        }
                    }
                    assert forall|j: int| 0 <= j < i + 1 && sel.contains_key(#[trigger] ks[j])
                        implies ks_out.contains(ks[j]) by {
                        if j < i {
                            let w = choose|w: int| 0 <= w < prev.len() && prev[w] == ks[j];
                            assert(ks_out[w] == ks[j]);
                        } else {
                            assert(ks_out[prev.len() as int] == ks[j]);
                        }
                    }
                }
            } else {
                proof {
                    assert(!sel.contains_key(ks[i as int]));
                }
            }
            i = i + 1;
        }
        proof {
            assert forall|k: Seq<char>| #[trigger] sel.contains_key(k) implies ks_out.contains(k) by {
                assert(v.tickets.contains_key(k));
                assert(ks.contains(k));
                let j = choose|j: int| 0 <= j < ks.len() && ks[j] == k;
            }
            assert(listed_by(sel, ks_out, r@));
        }
        r
    }

    /// The ticket stored under `id`, if any. A ticket is returned whether or
    /// not the users and team it refers to exist.
    pub fn get_ticket(&self, id: String) -> (r: Option<Ticket>)
        ensures
            r == lookup(self@.tickets, id@),
    {
        match self.tickets.get(&id) {
            Some(t) => Some(t.clone()),
            None => None,
        }
    }

    /// Stores `ticket` under its id, replacing any ticket already there: the
    /// one operation both for creating a ticket and for updating it.
    pub fn create_ticket(&mut self, ticket: Ticket)
        ensures
            final(self)@ == old(self)@.put_ticket(ticket),
    {
        self.tickets.insert(ticket.id.clone(), ticket);
    }

    /// Removes the ticket stored under `id`; an absent id changes nothing.
    pub fn delete_ticket(&mut self, id: String)
        ensures
            final(self)@ == old(self)@.drop_ticket(id@),
    {
        self.tickets.remove(&id);
    }
}

} // verus!
