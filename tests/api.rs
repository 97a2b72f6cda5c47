use ticket_store::api::team::{self, CreateTeam};
use ticket_store::api::ticket::{
    create, create_ticket_response, delete, find, find_all, merge_update, new_ticket,
    new_ticket_from_update, update, CreateTicket, TicketFilter, UpdateOutcome, UpdateTicket,
};
use ticket_store::api::user::{self, CreateUser};
use ticket_store::model::team::Team;
use ticket_store::model::ticket::{Ticket, TicketStatus};
use ticket_store::model::user::User;
use ticket_store::repository::inmem::Inmem;

fn empty_update() -> UpdateTicket {
    UpdateTicket { title: None, description: None, status: None, assigned_to: None, team_id: None }
}

fn is_fresh_id(id: &str) -> bool {
    let chars: Vec<char> = id.chars().collect();
    chars.len() == 36
        && chars[8] == '-'
        && chars[13] == '-'
        && chars[18] == '-'
        && chars[23] == '-'
}

fn stored(id: &str, title: &str, status: TicketStatus) -> Ticket {
    Ticket {
        id: id.to_string(),
        title: title.to_string(),
        description: "d".to_string(),
        status,
        created_by: "creator".to_string(),
        assigned_to: "u1".to_string(),
        team_id: "A".to_string(),
    }
}

#[test]
fn create_user_and_team_get_fresh_ids() {
    let mut s = Inmem::new(String::new(), None);
    let u = user::create(CreateUser { name: "Ann".to_string() }, &mut s);
    let v = user::create(CreateUser { name: "Bob".to_string() }, &mut s);
    assert!(is_fresh_id(&u.id));
    assert_ne!(u.id, v.id);
    assert_eq!(u.name, "Ann");
    assert_eq!(s.get_user(u.id.clone()), Some(u.clone()));
    assert_eq!(user::find_all(&s).len(), 2);
    let t = team::create(CreateTeam { name: "Alpha".to_string() }, &mut s);
    assert!(is_fresh_id(&t.id));
    assert_eq!(t.name, "Alpha");
    assert_eq!(team::find_all(&s), vec![t]);
}

#[test]
fn create_ticket_applies_defaults() {
    let mut s = Inmem::new(String::new(), None);
    let body = CreateTicket {
        title: "a".to_string(),
        description: None,
        status: None,
        assigned_to: None,
        team_id: None,
    };
    let r = create(body, "me".to_string(), &mut s);
    assert!(is_fresh_id(&r.id));
    assert_eq!(r.title, "a");
    assert_eq!(r.description, "");
    assert_eq!(r.status, TicketStatus::New);
    assert_eq!(r.created_by, None);
    assert_eq!(r.assigned_to, None);
    assert_eq!(r.team, None);
    let t = s.get_ticket(r.id.clone()).unwrap();
    assert_eq!(t.created_by, "me");
    assert_eq!(t.assigned_to, "");
    assert_eq!(t.team_id, "");
}

#[test]
fn new_ticket_takes_given_fields() {
    let body = CreateTicket {
        title: "t".to_string(),
        description: Some("d".to_string()),
        status: Some(TicketStatus::Complete),
        assigned_to: Some("u9".to_string()),
        team_id: Some("B".to_string()),
    };
    let t = new_ticket("id1".to_string(), body, "me".to_string());
    assert_eq!(
        t,
        Ticket {
            id: "id1".to_string(),
            title: "t".to_string(),
            description: "d".to_string(),
            status: TicketStatus::Complete,
            created_by: "me".to_string(),
            assigned_to: "u9".to_string(),
            team_id: "B".to_string(),
        }
    );
}

#[test]
fn update_keeps_unspecified_fields() {
    let mut s = Inmem::new(String::new(), None);
    s.create_ticket(stored("X", "a", TicketStatus::New));
    let body = UpdateTicket { status: Some(TicketStatus::Pending), ..empty_update() };
    let out = update("X".to_string(), body, "someone".to_string(), &mut s);
    match out {
        UpdateOutcome::Updated(r) => {
            assert_eq!(r.id, "X");
            assert_eq!(r.title, "a");
            assert_eq!(r.status, TicketStatus::Pending);
        }
        UpdateOutcome::Created(_) => panic!("expected an update"),
    }
    let t = s.get_ticket("X".to_string()).unwrap();
    assert_eq!(t.title, "a");
    assert_eq!(t.status, TicketStatus::Pending);
    assert_eq!(t.description, "d");
    assert_eq!(t.created_by, "creator");
    assert_eq!(t.assigned_to, "u1");
    assert_eq!(t.team_id, "A");
}

#[test]
fn merge_update_overlays_given_fields() {
    let t = stored("X", "a", TicketStatus::New);
    let body = UpdateTicket {
        title: Some("b".to_string()),
        description: None,
        status: Some(TicketStatus::Rejected),
        assigned_to: Some(String::new()),
        team_id: None,
    };
    let m = merge_update(&t, body);
    assert_eq!(m.id, "X");
    assert_eq!(m.title, "b");
    assert_eq!(m.description, "d");
    assert_eq!(m.status, TicketStatus::Rejected);
    assert_eq!(m.assigned_to, "");
    assert_eq!(m.team_id, "A");
    assert_eq!(m.created_by, "creator");
}

#[test]
fn update_of_absent_ticket_creates_one() {
    let mut s = Inmem::new(String::new(), None);
    let body = UpdateTicket { title: Some("t".to_string()), ..empty_update() };
    let out = update("missing".to_string(), body, "me".to_string(), &mut s);
    let r = match out {
        UpdateOutcome::Created(r) => r,
        UpdateOutcome::Updated(_) => panic!("expected a creation"),
    };
    assert!(is_fresh_id(&r.id));
    assert_ne!(r.id, "missing");
    assert_eq!(r.title, "t");
    assert_eq!(r.description, "");
    assert_eq!(r.status, TicketStatus::New);
    assert_eq!(s.get_ticket("missing".to_string()), None);
    assert_eq!(s.get_ticket(r.id.clone()).unwrap().created_by, "me");
}

#[test]
fn new_ticket_from_update_defaults_title() {
    let t = new_ticket_from_update("i".to_string(), empty_update(), String::new());
    assert_eq!(t.title, "");
    assert_eq!(t.status, TicketStatus::New);
    assert_eq!(t.id, "i");
}

#[test]
fn find_ticket_with_absent_assignee() {
    let mut s = Inmem::new(String::new(), None);
    s.create_user(User { id: "creator".to_string(), name: "Cy".to_string() });
    s.create_team(Team { id: "A".to_string(), name: "Alpha".to_string() });
    s.create_ticket(stored("X", "a", TicketStatus::New));
    let r = find("X".to_string(), &s).unwrap();
    assert_eq!(r.id, "X");
    assert_eq!(r.assigned_to, None);
    assert_eq!(r.created_by, Some(User { id: "creator".to_string(), name: "Cy".to_string() }));
    assert_eq!(r.team, Some(Team { id: "A".to_string(), name: "Alpha".to_string() }));
    assert_eq!(s.get_ticket("X".to_string()), Some(stored("X", "a", TicketStatus::New)));
    assert_eq!(find("Y".to_string(), &s), None);
}

#[test]
fn response_resolves_references() {
    let mut s = Inmem::new(String::new(), None);
    s.create_user(User { id: "u1".to_string(), name: "Ann".to_string() });
    let r = create_ticket_response(stored("X", "a", TicketStatus::Complete), &s);
    assert_eq!(r.assigned_to, Some(User { id: "u1".to_string(), name: "Ann".to_string() }));
    assert_eq!(r.created_by, None);
    assert_eq!(r.team, None);
    assert_eq!(r.status, TicketStatus::Complete);
    assert_eq!(r.description, "d");
}

#[test]
fn find_all_filters_and_resolves() {
    let mut s = Inmem::new(String::new(), None);
    s.create_team(Team { id: "A".to_string(), name: "Alpha".to_string() });
    s.create_ticket(stored("X", "a", TicketStatus::New));
    s.create_ticket(stored("Y", "b", TicketStatus::Pending));
    let f = TicketFilter { status: Some(TicketStatus::Pending), team: Some("Alpha".to_string()) };
    let rs = find_all(&f, &s);
    assert_eq!(rs.len(), 1);
    assert_eq!(rs[0].id, "Y");
    assert_eq!(rs[0].team, Some(Team { id: "A".to_string(), name: "Alpha".to_string() }));
}

#[test]
fn delete_is_silent_for_absent_ids() {
    let mut s = Inmem::new(String::new(), None);
    s.create_ticket(stored("X", "a", TicketStatus::New));
    delete("absent".to_string(), &mut s);
    assert!(s.get_ticket("X".to_string()).is_some());
    delete("X".to_string(), &mut s);
    assert_eq!(s.get_ticket("X".to_string()), None);
}
