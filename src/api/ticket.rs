use crate::api::new_id;
use crate::model::team::Team;
use crate::model::ticket::{Ticket, TicketStatus};
use crate::model::user::User;
use crate::repository::inmem::{Inmem, InmemView, team_criterion};
use crate::table::{lists, lookup};
use vstd::prelude::*;

verus! {

/// Which tickets a listing returns: those with the given status, if one is
/// given, and those of the team with the given name, if a name that is not
/// blank is given.
pub struct TicketFilter {
    pub status: Option<TicketStatus>,
    pub team: Option<String>,
}

/// What a request to create a ticket carries; absent fields take defaults.
pub struct CreateTicket {
    pub title: String,
    pub description: Option<String>,
    pub status: Option<TicketStatus>,
    pub assigned_to: Option<String>,
    pub team_id: Option<String>,
}

/// What a request to change a ticket carries; absent fields keep their value.
pub struct UpdateTicket {
    pub title: Option<String>,
    pub description: Option<String>,
    pub status: Option<TicketStatus>,
    pub assigned_to: Option<String>,
    pub team_id: Option<String>,
}

/// A ticket as presented to clients: its references resolved to the records
/// they name, or to nothing where no such record is stored.
#[derive(Clone, Debug, PartialEq, Eq)]
pub struct TicketResponse {
    pub id: String,
    pub title: String,
    pub description: String,
    pub status: TicketStatus,
    pub created_by: Option<User>,
    pub assigned_to: Option<User>,
    pub team: Option<Team>,
}

/// The result of a change request: the ticket was there and was changed, or
/// it was not and a new one was created.
#[derive(Clone, Debug, PartialEq, Eq)]
pub enum UpdateOutcome {
    Updated(TicketResponse),
    Created(TicketResponse),
}

/// The characters of an optional text, empty when it is absent.
pub open spec fn text_or_empty(o: Option<String>) -> Seq<char> {
    match o {
        Some(s) => s@,
        None => Seq::empty(),
    }
}

/// An optional status, `New` when it is absent.
pub open spec fn status_or_new(o: Option<TicketStatus>) -> TicketStatus {
    match o {
        Some(s) => s,
        None => TicketStatus::New,
    }
}

/// Ticket `t` is the one that a creation request makes from `title`, the
/// optional fields of a request, the id `id` and the requesting user `user_id`.
pub open spec fn is_new_ticket(
    t: Ticket,
    id: Seq<char>,
    title: Seq<char>,
    description: Option<String>,
    status: Option<TicketStatus>,
    assigned_to: Option<String>,
    team_id: Option<String>,
    user_id: Seq<char>,
) -> bool {
    &&& t.id@ == id
    &&& t.title@ == title
    &&& t.description@ == text_or_empty(description)
    &&& t.status == status_or_new(status)
    &&& t.assigned_to@ == text_or_empty(assigned_to)
    &&& t.team_id@ == text_or_empty(team_id)
    &&& t.created_by@ == user_id
}

/// `is_new_ticket` for a creation request.
pub open spec fn created_from(t: Ticket, id: Seq<char>, body: CreateTicket, user_id: Seq<char>) -> bool {
    is_new_ticket(
        t,
        id,
        body.title@,
        body.description,
        body.status,
        body.assigned_to,
        body.team_id,
        user_id,
    )
}

/// `is_new_ticket` for a change request whose ticket does not exist.
pub open spec fn created_from_update(t: Ticket, id: Seq<char>, body: UpdateTicket, user_id: Seq<char>) -> bool {
    is_new_ticket(
        t,
        id,
        text_or_empty(body.title),
        body.description,
        body.status,
        body.assigned_to,
        body.team_id,
        user_id,
    )
}

/// `ticket` with each field that `body` carries replaced; id and creator kept.
pub open spec fn merged(ticket: Ticket, body: UpdateTicket) -> Ticket {
    Ticket {
        id: ticket.id,
        title: match body.title {
            Some(x) => x,
            None => ticket.title,
        },
        description: match body.description {
            Some(x) => x,
            None => ticket.description,
        },
        status: match body.status {
            Some(x) => x,
            None => ticket.status,
        },
        created_by: ticket.created_by,
        assigned_to: match body.assigned_to {
            Some(x) => x,
            None => ticket.assigned_to,
        },
        team_id: match body.team_id {
            Some(x) => x,
            None => ticket.team_id,
        },
    }
}

/// The response for `t` in store state `v`.
pub open spec fn response_of(v: InmemView, t: Ticket) -> TicketResponse {
    TicketResponse {
        id: t.id,
        title: t.title,
        description: t.description,
        status: t.status,
        created_by: lookup(v.users, t.created_by@),
        assigned_to: lookup(v.users, t.assigned_to@),
        team: lookup(v.teams, t.team_id@),
    }
}

fn text_or_default(o: Option<String>) -> (r: String)
    ensures
        r@ == text_or_empty(o),
{
    match o {
        Some(s) => s,
        None => String::new(),
    }
}

fn or_keep(o: Option<String>, current: &String) -> (r: String)
    ensures
        r == match o {
            Some(x) => x,
            None => *current,
        },
{
    match o {
        Some(s) => s,
        None => current.clone(),
    }
}

/// The ticket that a creation request makes, under id `id`, created by
/// `user_id`.
pub fn new_ticket(id: String, body: CreateTicket, user_id: String) -> (r: Ticket)
    ensures
        created_from(r, id@, body, user_id@),
{
    Ticket {
        id,
        title: body.title,
        description: text_or_default(body.description),
        status: match body.status {
            Some(s) => s,
            None => TicketStatus::New,
        },
        created_by: user_id,
        assigned_to: text_or_default(body.assigned_to),
        team_id: text_or_default(body.team_id),
    }
}

/// The ticket that a change request makes when no ticket is there to change,
/// under id `id`, created by `user_id`.
pub fn new_ticket_from_update(id: String, body: UpdateTicket, user_id: String) -> (r: Ticket)
    ensures
        created_from_update(r, id@, body, user_id@),
{
    Ticket {
        id,
        title: text_or_default(body.title),
        description: text_or_default(body.description),
        status: match body.status {
            Some(s) => s,
            None => TicketStatus::New,
        },
        created_by: user_id,
        assigned_to: text_or_default(body.assigned_to),
        team_id: text_or_default(body.team_id),
    }
}

/// `ticket` with the fields that `body` carries laid over it.
pub fn merge_update(ticket: &Ticket, body: UpdateTicket) -> (r: Ticket)
    ensures
        r == merged(*ticket, body),
{
    Ticket {
        id: ticket.id.clone(),
        title: or_keep(body.title, &ticket.title),
        description: or_keep(body.description, &ticket.description),
        status: match body.status {
            Some(s) => s,
            None => ticket.status,
        },
        created_by: ticket.created_by.clone(),
        assigned_to: or_keep(body.assigned_to, &ticket.assigned_to),
        team_id: or_keep(body.team_id, &ticket.team_id),
    }
}

/// `ticket` with its creator, assignee and team looked up in `repo`.
pub fn create_ticket_response(ticket: Ticket, repo: &Inmem) -> (r: TicketResponse)
    ensures
        r == response_of(repo@, ticket),
{
    let created_by = repo.get_user(ticket.created_by.clone());
    let assigned_to = repo.get_user(ticket.assigned_to.clone());
    let team = repo.get_team(ticket.team_id.clone());
    TicketResponse {
        id: ticket.id,
        title: ticket.title,
        description: ticket.description,
        status: ticket.status,
        created_by,
        assigned_to,
        team,
    }
}

/// The ticket stored under `id` as a response, if there is one.
pub fn find(id: String, repo: &Inmem) -> (r: Option<TicketResponse>)
    ensures
        r == match lookup(repo@.tickets, id@) {
            Some(t) => Some(response_of(repo@, t)),
            None => None,
        },
{
    match repo.get_ticket(id) {
        Some(ticket) => Some(create_ticket_response(ticket, repo)),
        None => None,
    }
}

/// The tickets that `filter` lets through, as responses, in no particular order.
pub fn find_all(filter: &TicketFilter, repo: &Inmem) -> (r: Vec<TicketResponse>)
    ensures
        exists|ts: Seq<Ticket>|
            {
                &&& lists(repo@.selected(filter.status, team_criterion(filter.team)), ts)
                &&& r@ == ts.map_values(|t: Ticket| response_of(repo@, t))
            },
{
    let tickets = repo.get_tickets(filter);
    let mut responses: Vec<TicketResponse> = Vec::new();
    let mut i: usize = 0;
    while i < tickets.len()
        invariant
            i <= tickets@.len(),
            responses@.len() == i,
            forall|j: int| 0 <= j < i ==> #[trigger] responses@[j] == response_of(repo@, tickets@[j]),
        decreases tickets@.len() - i,
    {
        responses.push(create_ticket_response(tickets[i].clone(), repo));
        i = i + 1;
    }
    assert(responses@ =~= tickets@.map_values(|t: Ticket| response_of(repo@, t)));
    responses
}

/// Creates a ticket from `body` under a fresh id, created by `user_id`, and
/// returns it as a response.
pub fn create(body: CreateTicket, user_id: String, repo: &mut Inmem) -> (r: TicketResponse)
    ensures
        r.id@.len() == 36,
        exists|t: Ticket|
            {
                &&& created_from(t, r.id@, body, user_id@)
                &&& final(repo)@ == old(repo)@.put_ticket(t)
                &&& r == response_of(final(repo)@, t)
            },
{
    let ticket = new_ticket(new_id(), body, user_id);
    repo.create_ticket(ticket.clone());
    create_ticket_response(ticket, repo)
}

/// Applies a change request to the ticket stored under `id`. Fields that
/// `body` does not carry keep their value. Where no ticket is stored under
/// `id`, a new one is created from `body` under a fresh id, created by
/// `user_id`.
pub fn update(id: String, body: UpdateTicket, user_id: String, repo: &mut Inmem) -> (r: UpdateOutcome)
    ensures
        match lookup(old(repo)@.tickets, id@) {
            Some(t) => {
                &&& final(repo)@ == old(repo)@.put_ticket(merged(t, body))
                &&& r == UpdateOutcome::Updated(response_of(final(repo)@, merged(t, body)))
            },
            None => match r {
                UpdateOutcome::Created(resp) => {
                    &&& resp.id@.len() == 36
                    &&& exists|t: Ticket|
                        {
                            &&& created_from_update(t, resp.id@, body, user_id@)
                            &&& final(repo)@ == old(repo)@.put_ticket(t)
                            &&& resp == response_of(final(repo)@, t)
                        }
                },
                UpdateOutcome::Updated(_) => false,
            },
        },
{
    match repo.get_ticket(id) {
        Some(existing) => {
            let ticket = merge_update(&existing, body);
            repo.create_ticket(ticket.clone());
            UpdateOutcome::Updated(create_ticket_response(ticket, repo))
        },
        None => {
            let ticket = new_ticket_from_update(new_id(), body, user_id);
            repo.create_ticket(ticket.clone());
            UpdateOutcome::Created(create_ticket_response(ticket, repo))
        },
    }
}

/// Removes the ticket stored under `id`; an absent id changes nothing.
pub fn delete(id: String, repo: &mut Inmem)
    ensures
        final(repo)@ == old(repo)@.drop_ticket(id@),
{
    repo.delete_ticket(id);
}

} // verus!
