use ticket_store::model::team::Team;
use ticket_store::model::ticket::{Ticket, TicketStatus};
use ticket_store::model::user::User;
use ticket_store::repository::inmem::{Data, Inmem};
use ticket_store::api::ticket::TicketFilter;

fn user(id: &str, name: &str) -> User {
    User { id: id.to_string(), name: name.to_string() }
}

fn team(id: &str, name: &str) -> Team {
    Team { id: id.to_string(), name: name.to_string() }
}

fn ticket(id: &str, status: TicketStatus, team_id: &str) -> Ticket {
    Ticket {
        id: id.to_string(),
        title: format!("title {}", id),
        description: format!("description {}", id),
        status,
        created_by: "u1".to_string(),
        assigned_to: "u2".to_string(),
        team_id: team_id.to_string(),
    }
}

fn all() -> TicketFilter {
    TicketFilter { status: None, team: None }
}

fn sorted_ids(tickets: &[Ticket]) -> Vec<String> {
    let mut ids: Vec<String> = tickets.iter().map(|t| t.id.clone()).collect();
    ids.sort();
    ids
}

fn filter_store() -> Inmem {
    let mut s = Inmem::new(String::new(), None);
    s.create_team(team("A", "Alpha"));
    s.create_team(team("B", "Beta"));
    s.create_ticket(ticket("T1", TicketStatus::New, "A"));
    s.create_ticket(ticket("T2", TicketStatus::Pending, "A"));
    s.create_ticket(ticket("T3", TicketStatus::New, "B"));
    s
}

#[test]
fn new_store_without_state_is_empty() {
    let s = Inmem::new("db.json".to_string(), None);
    assert_eq!(s.file_name(), "db.json");
    assert!(s.get_users().is_empty());
    assert!(s.get_teams().is_empty());
    assert!(s.get_tickets(&all()).is_empty());
}

#[test]
fn create_then_get_returns_same_records() {
    let mut s = Inmem::new(String::new(), None);
    let u = user("u1", "Ann");
    let tm = team("t1", "Alpha");
    let t = ticket("k1", TicketStatus::Complete, "t1");
    s.create_user(u.clone());
    s.create_team(tm.clone());
    s.create_ticket(t.clone());
    assert_eq!(s.get_user("u1".to_string()), Some(u));
    assert_eq!(s.get_team("t1".to_string()), Some(tm));
    assert_eq!(s.get_ticket("k1".to_string()), Some(t));
    assert_eq!(s.get_user("missing".to_string()), None);
    assert_eq!(s.get_team("missing".to_string()), None);
    assert_eq!(s.get_ticket("missing".to_string()), None);
}

#[test]
fn second_create_with_same_id_wins() {
    let mut s = Inmem::new(String::new(), None);
    s.create_user(user("u1", "Ann"));
    s.create_user(user("u2", "Bob"));
    s.create_user(user("u1", "Annie"));
    assert_eq!(s.get_user("u1".to_string()), Some(user("u1", "Annie")));
    let users = s.get_users();
    assert_eq!(users.len(), 2);
    assert_eq!(users.iter().filter(|u| u.id == "u1").count(), 1);

    let mut t2 = ticket("k1", TicketStatus::Rejected, "");
    t2.title = "second".to_string();
    s.create_ticket(ticket("k1", TicketStatus::New, ""));
    s.create_ticket(t2.clone());
    assert_eq!(s.get_ticket("k1".to_string()), Some(t2));
    assert_eq!(s.get_tickets(&all()).len(), 1);

    s.create_team(team("A", "Alpha"));
    s.create_team(team("A", "Aleph"));
    assert_eq!(s.get_teams(), vec![team("A", "Aleph")]);
}

#[test]
fn delete_absent_ticket_is_no_op() {
    let mut s = filter_store();
    s.delete_ticket("nope".to_string());
    assert_eq!(s.get_tickets(&all()).len(), 3);
    s.delete_ticket("T2".to_string());
    assert_eq!(sorted_ids(&s.get_tickets(&all())), vec!["T1", "T3"]);
    assert_eq!(s.get_ticket("T2".to_string()), None);
    s.delete_ticket("T2".to_string());
    assert_eq!(s.get_tickets(&all()).len(), 2);
}

#[test]
fn delete_user_removes_only_that_user() {
    let mut s = Inmem::new(String::new(), None);
    s.create_user(user("u1", "Ann"));
    s.create_user(user("u2", "Bob"));
    s._delete_user("u1".to_string());
    s._delete_user("absent".to_string());
    assert_eq!(s.get_users(), vec![user("u2", "Bob")]);
}

#[test]
fn filter_by_status() {
    let s = filter_store();
    let f = TicketFilter { status: Some(TicketStatus::New), team: None };
    assert_eq!(sorted_ids(&s.get_tickets(&f)), vec!["T1", "T3"]);
}

#[test]
fn filter_by_team_name() {
    let s = filter_store();
    let f = TicketFilter { status: None, team: Some("Alpha".to_string()) };
    assert_eq!(sorted_ids(&s.get_tickets(&f)), vec!["T1", "T2"]);
}

#[test]
fn filter_by_status_and_team_name() {
    let s = filter_store();
    let f = TicketFilter { status: Some(TicketStatus::New), team: Some("Alpha".to_string()) };
    assert_eq!(sorted_ids(&s.get_tickets(&f)), vec!["T1"]);
}

#[test]
fn filter_by_unknown_team_name_is_empty() {
    let s = filter_store();
    let f = TicketFilter { status: None, team: Some("Nonexistent".to_string()) };
    assert!(s.get_tickets(&f).is_empty());
}

#[test]
fn blank_team_name_filters_nothing() {
    let s = filter_store();
    let f = TicketFilter { status: None, team: Some(" \t\n".to_string()) };
    assert_eq!(sorted_ids(&s.get_tickets(&f)), vec!["T1", "T2", "T3"]);
    let f = TicketFilter { status: Some(TicketStatus::Pending), team: Some(String::new()) };
    assert_eq!(sorted_ids(&s.get_tickets(&f)), vec!["T2"]);
}

#[test]
fn team_name_with_surrounding_spaces_is_not_trimmed() {
    let s = filter_store();
    let f = TicketFilter { status: None, team: Some(" Alpha".to_string()) };
    assert!(s.get_tickets(&f).is_empty());
}

#[test]
fn ticket_with_dangling_team_is_excluded_by_team_filter() {
    let mut s = filter_store();
    s.create_ticket(ticket("T4", TicketStatus::New, "gone"));
    let f = TicketFilter { status: None, team: Some("Alpha".to_string()) };
    assert_eq!(sorted_ids(&s.get_tickets(&f)), vec!["T1", "T2"]);
    let f = TicketFilter { status: Some(TicketStatus::New), team: None };
    assert_eq!(sorted_ids(&s.get_tickets(&f)), vec!["T1", "T3", "T4"]);
}

#[test]
fn tickets_matching_without_criteria_lists_all() {
    let s = filter_store();
    assert_eq!(sorted_ids(&s.tickets_matching(None, None)), vec!["T1", "T2", "T3"]);
    let beta = "Beta".to_string();
    assert_eq!(sorted_ids(&s.tickets_matching(Some(TicketStatus::New), Some(&beta))), vec!["T3"]);
}

#[test]
fn snapshot_round_trip_keeps_every_record() {
    let mut s = filter_store();
    s.create_user(user("u1", "Ann"));
    s.create_user(user("u2", "Bob"));
    let data = s.snapshot();
    assert_eq!(data.users.len(), 2);
    assert_eq!(data.teams.len(), 2);
    assert_eq!(data.tickets.len(), 3);
    let r = Inmem::new("other".to_string(), Some(data));
    let mut before = s.get_users();
    let mut after = r.get_users();
    before.sort_by(|a, b| a.id.cmp(&b.id));
    after.sort_by(|a, b| a.id.cmp(&b.id));
    assert_eq!(before, after);
    let mut before = s.get_teams();
    let mut after = r.get_teams();
    before.sort_by(|a, b| a.id.cmp(&b.id));
    after.sort_by(|a, b| a.id.cmp(&b.id));
    assert_eq!(before, after);
    let mut before = s.get_tickets(&all());
    let mut after = r.get_tickets(&all());
    before.sort_by(|a, b| a.id.cmp(&b.id));
    after.sort_by(|a, b| a.id.cmp(&b.id));
    assert_eq!(before, after);
}

#[test]
fn loading_uses_snapshot_keys_and_last_entry_wins() {
    let data = Data {
        users: vec![
            ("k".to_string(), user("payload-id", "First")),
            ("k".to_string(), user("payload-id", "Second")),
        ],
        tickets: vec![],
        teams: vec![("A".to_string(), team("A", "Alpha"))],
    };
    let s = Inmem::new(String::new(), Some(data));
    assert_eq!(s.get_user("k".to_string()), Some(user("payload-id", "Second")));
    assert_eq!(s.get_user("payload-id".to_string()), None);
    assert_eq!(s.get_users().len(), 1);
    assert_eq!(s.get_team("A".to_string()), Some(team("A", "Alpha")));
}
