use crate::api::ticket::{merged, response_of, UpdateTicket};
use crate::model::team::Team;
use crate::model::ticket::Ticket;
use crate::model::user::User;
use crate::repository::inmem::{Data, InmemView};
use crate::table::{lemma_folded_keyed, lemma_lists_same_values, listed_by, lists, lookup};
use vstd::prelude::*;

verus! {

/// After `m.insert(id, e2)` over a map holding `e1` or anything else under
/// `id`, every listing of the map holds `id` exactly once, with `e2`.
proof fn lemma_listed_once<T>(m: Map<Seq<char>, T>, id: Seq<char>, e2: T)
    requires
        m.contains_key(id),
        m[id] == e2,
    ensures
        forall|ks: Seq<Seq<char>>, r: Seq<T>|
            #![trigger listed_by(m, ks, r)]
            listed_by(m, ks, r) ==> exists|j: int|
                {
                    &&& 0 <= j < ks.len()
                    &&& ks[j] == id
                    &&& r[j] == e2
                    &&& forall|j2: int| 0 <= j2 < ks.len() && ks[j2] == id ==> j2 == j
                },
{
    assert forall|ks: Seq<Seq<char>>, r: Seq<T>| listed_by(m, ks, r) implies exists|j: int|
        {
            &&& 0 <= j < ks.len()
            &&& ks[j] == id
            &&& r[j] == e2
            &&& forall|j2: int| 0 <= j2 < ks.len() && ks[j2] == id ==> j2 == j
        } by {
        assert(ks.contains(id));
        let j = choose|j: int| 0 <= j < ks.len() && ks[j] == id;
        assert(m.contains_key(ks[j]));
    }
}

/// Storing a record and then looking up its id gives back that record,
/// field for field, in each of the three collections.
pub proof fn create_then_get(v: InmemView, u: User, tm: Team, t: Ticket)
    ensures
        lookup(v.put_user(u).users, u.id@) == Some(u),
        lookup(v.put_team(tm).teams, tm.id@) == Some(tm),
        lookup(v.put_ticket(t).tickets, t.id@) == Some(t),
{
}

/// Storing two tickets with the same id keeps the second: a lookup gives it,
/// and every listing holds that id exactly once, with the second ticket.
pub proof fn ticket_last_write_wins(v: InmemView, t1: Ticket, t2: Ticket)
    requires
        t2.id@ == t1.id@,
    ensures
        lookup(v.put_ticket(t1).put_ticket(t2).tickets, t1.id@) == Some(t2),
        forall|ks: Seq<Seq<char>>, r: Seq<Ticket>|
            #![trigger listed_by(v.put_ticket(t1).put_ticket(t2).tickets, ks, r)]
            listed_by(v.put_ticket(t1).put_ticket(t2).tickets, ks, r) ==> exists|j: int|
                {
                    &&& 0 <= j < ks.len()
                    &&& ks[j] == t1.id@
                    &&& r[j] == t2
                    &&& forall|j2: int| 0 <= j2 < ks.len() && ks[j2] == t1.id@ ==> j2 == j
                },
{
    lemma_listed_once(v.put_ticket(t1).put_ticket(t2).tickets, t1.id@, t2);
}

/// Storing two users with the same id keeps the second: a lookup gives it,
/// and every listing holds that id exactly once, with the second user.
pub proof fn user_last_write_wins(v: InmemView, u1: User, u2: User)
    requires
        u2.id@ == u1.id@,
    ensures
        lookup(v.put_user(u1).put_user(u2).users, u1.id@) == Some(u2),
        forall|ks: Seq<Seq<char>>, r: Seq<User>|
            #![trigger listed_by(v.put_user(u1).put_user(u2).users, ks, r)]
            listed_by(v.put_user(u1).put_user(u2).users, ks, r) ==> exists|j: int|
                {
                    &&& 0 <= j < ks.len()
                    &&& ks[j] == u1.id@
                    &&& r[j] == u2
                    &&& forall|j2: int| 0 <= j2 < ks.len() && ks[j2] == u1.id@ ==> j2 == j
                },
{
    lemma_listed_once(v.put_user(u1).put_user(u2).users, u1.id@, u2);
}

/// Storing two teams with the same id keeps the second: a lookup gives it,
/// and every listing holds that id exactly once, with the second team.
pub proof fn team_last_write_wins(v: InmemView, t1: Team, t2: Team)
    requires
        t2.id@ == t1.id@,
    ensures
        lookup(v.put_team(t1).put_team(t2).teams, t1.id@) == Some(t2),
        forall|ks: Seq<Seq<char>>, r: Seq<Team>|
            #![trigger listed_by(v.put_team(t1).put_team(t2).teams, ks, r)]
            listed_by(v.put_team(t1).put_team(t2).teams, ks, r) ==> exists|j: int|
                {
                    &&& 0 <= j < ks.len()
                    &&& ks[j] == t1.id@
                    &&& r[j] == t2
                    &&& forall|j2: int| 0 <= j2 < ks.len() && ks[j2] == t1.id@ ==> j2 == j
                },
{
    lemma_listed_once(v.put_team(t1).put_team(t2).teams, t1.id@, t2);
}

/// Deleting an id that is not stored changes nothing; in particular the
/// number of tickets (or users) stays the same.
pub proof fn delete_absent_is_no_op(v: InmemView, id: Seq<char>)
    ensures
        !v.tickets.contains_key(id) ==> v.drop_ticket(id) == v && v.drop_ticket(id).tickets.len()
            == v.tickets.len(),
        !v.users.contains_key(id) ==> v.drop_user(id) == v && v.drop_user(id).users.len()
            == v.users.len(),
{
    if !v.tickets.contains_key(id) {
        assert(v.tickets.remove(id) =~= v.tickets);
    }
    if !v.users.contains_key(id) {
        assert(v.users.remove(id) =~= v.users);
    }
}

/// Loading a snapshot of a store gives back the same store, so listing any
/// collection before and after gives the same records.
pub proof fn snapshot_round_trip(v: InmemView, d: Data)
    requires
        d.is_snapshot_of(v),
    ensures
        d.restored(v.file_name) == v,
        forall|r1: Seq<User>, r2: Seq<User>|
            lists(v.users, r1) && lists(d.restored(v.file_name).users, r2) ==> r1.to_set()
                == r2.to_set(),
        forall|r1: Seq<Team>, r2: Seq<Team>|
            lists(v.teams, r1) && lists(d.restored(v.file_name).teams, r2) ==> r1.to_set()
                == r2.to_set(),
        forall|r1: Seq<Ticket>, r2: Seq<Ticket>|
            lists(v.tickets, r1) && lists(d.restored(v.file_name).tickets, r2) ==> r1.to_set()
                == r2.to_set(),
{
    lemma_folded_keyed(d.users@);
    lemma_folded_keyed(d.teams@);
    lemma_folded_keyed(d.tickets@);
    assert forall|r1: Seq<User>, r2: Seq<User>|
        lists(v.users, r1) && lists(d.restored(v.file_name).users, r2) implies r1.to_set()
        == r2.to_set() by {
        lemma_lists_same_values(v.users, r1, r2);
    }
    assert forall|r1: Seq<Team>, r2: Seq<Team>|
        lists(v.teams, r1) && lists(d.restored(v.file_name).teams, r2) implies r1.to_set()
        == r2.to_set() by {
        lemma_lists_same_values(v.teams, r1, r2);
    }
    assert forall|r1: Seq<Ticket>, r2: Seq<Ticket>|
        lists(v.tickets, r1) && lists(d.restored(v.file_name).tickets, r2) implies r1.to_set()
        == r2.to_set() by {
        lemma_lists_same_values(v.tickets, r1, r2);
    }
}

/// A change request leaves every field that it does not carry as it was, sets
/// every field that it carries, and never changes the id or the creator; the
/// stored record is the merged one.
pub proof fn update_keeps_absent_fields(v: InmemView, t: Ticket, body: UpdateTicket)
    ensures
        merged(t, body).id == t.id,
        merged(t, body).created_by == t.created_by,
        body.title is None ==> merged(t, body).title == t.title,
        body.description is None ==> merged(t, body).description == t.description,
        body.status is None ==> merged(t, body).status == t.status,
        body.assigned_to is None ==> merged(t, body).assigned_to == t.assigned_to,
        body.team_id is None ==> merged(t, body).team_id == t.team_id,
        body.title matches Some(x) ==> merged(t, body).title == x,
        body.description matches Some(x) ==> merged(t, body).description == x,
        body.status matches Some(x) ==> merged(t, body).status == x,
        body.assigned_to matches Some(x) ==> merged(t, body).assigned_to == x,
        body.team_id matches Some(x) ==> merged(t, body).team_id == x,
        lookup(v.put_ticket(merged(t, body)).tickets, t.id@) == Some(merged(t, body)),
{
}

/// A stored ticket is found whatever its references name: where its assignee
/// (or creator, or team) is not stored, the ticket is still returned and only
/// the resolved reference is absent.
pub proof fn dangling_reference_still_found(v: InmemView, id: Seq<char>)
    requires
        v.tickets.contains_key(id),
    ensures
        lookup(v.tickets, id) == Some(v.tickets[id]),
        response_of(v, v.tickets[id]).id == v.tickets[id].id,
        !v.users.contains_key(v.tickets[id].assigned_to@) ==> response_of(
            v,
            v.tickets[id],
        ).assigned_to is None,
        !v.users.contains_key(v.tickets[id].created_by@) ==> response_of(
            v,
            v.tickets[id],
        ).created_by is None,
        !v.teams.contains_key(v.tickets[id].team_id@) ==> response_of(v, v.tickets[id]).team is None,
{
}

} // verus!
