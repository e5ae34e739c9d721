use fleet_telemetry::handlers::{
    add_comment, create_machine, create_user, get_comments, get_history, ingest_reading,
    list_machines, list_users,
};
use fleet_telemetry::models::{
    AddCommentRequest, CreateMachineRequest, CreateUserRequest, HistoryQuery,
};
use fleet_telemetry::store::FleetStore;

fn admin_header() -> Option<String> {
    Some("Bearer admin_token_12345".to_string())
}

fn machine_request(name: &str, code: &str) -> CreateMachineRequest {
    CreateMachineRequest {
        name: name.to_string(),
        code: code.to_string(),
        location: None,
        machine_type: None,
    }
}

#[test]
fn machines_list_in_name_order() {
    let mut st = FleetStore::new();
    create_machine(&mut st, &admin_header(), &machine_request("mill", "C2")).unwrap();
    create_machine(&mut st, &admin_header(), &machine_request("anvil", "C1")).unwrap();
    create_machine(&mut st, &admin_header(), &machine_request("press", "C3")).unwrap();
    let listing = list_machines(&st, &admin_header()).unwrap();
    let names: Vec<&str> = listing.machines.iter().map(|m| m.name.as_str()).collect();
    assert_eq!(names, vec!["anvil", "mill", "press"]);
}

#[test]
fn users_list_in_username_order() {
    let mut st = FleetStore::new();
    for name in ["zoe", "bo", "kim"] {
        create_user(
            &mut st,
            &admin_header(),
            &CreateUserRequest {
                username: name.to_string(),
                password: "pw".to_string(),
                role: "technician".to_string(),
            },
        )
        .unwrap();
    }
    let listing = list_users(&st, &admin_header()).unwrap();
    let names: Vec<&str> = listing.users.iter().map(|u| u.username.as_str()).collect();
    // the bootstrap admin sorts among them
    assert_eq!(names, vec!["admin", "bo", "kim", "zoe"]);
}

#[test]
fn comments_come_back_newest_first() {
    let mut st = FleetStore::new();
    let m = create_machine(&mut st, &admin_header(), &machine_request("Line1", "L1")).unwrap();
    for text in ["first", "second", "third"] {
        add_comment(
            &mut st,
            &admin_header(),
            m.id,
            &AddCommentRequest { comment: text.to_string(), priority: None },
        )
        .unwrap();
    }
    let listing = get_comments(&st, &admin_header(), m.id).unwrap();
    let texts: Vec<&str> = listing.comments.iter().map(|c| c.comment.as_str()).collect();
    assert_eq!(texts, vec!["third", "second", "first"]);
}

#[test]
fn comments_are_scoped_to_their_machine() {
    let mut st = FleetStore::new();
    let a = create_machine(&mut st, &admin_header(), &machine_request("A", "CA")).unwrap();
    let b = create_machine(&mut st, &admin_header(), &machine_request("B", "CB")).unwrap();
    add_comment(
        &mut st,
        &admin_header(),
        a.id,
        &AddCommentRequest { comment: "for a".to_string(), priority: None },
    )
    .unwrap();
    add_comment(
        &mut st,
        &admin_header(),
        b.id,
        &AddCommentRequest { comment: "for b".to_string(), priority: None },
    )
    .unwrap();
    let listing = get_comments(&st, &admin_header(), a.id).unwrap();
    assert_eq!(listing.comments.len(), 1);
    assert_eq!(listing.comments[0].comment, "for a");
}

#[test]
fn history_sorts_by_timestamp_with_later_entries_winning_ties() {
    let mut st = FleetStore::new();
    let m = create_machine(&mut st, &admin_header(), &machine_request("Line1", "L1")).unwrap();
    ingest_reading(&mut st, m.id, 10, &None, 100).unwrap();
    ingest_reading(&mut st, m.id, 20, &None, 300).unwrap();
    ingest_reading(&mut st, m.id, 30, &None, 200).unwrap();
    ingest_reading(&mut st, m.id, 40, &None, 300).unwrap();
    let hist = get_history(&st, &admin_header(), m.id, &HistoryQuery { limit: None })
        .unwrap()
        .history;
    let speeds: Vec<u64> = hist.iter().map(|h| h.speed).collect();
    // both 300-stamped readings precede the rest; the later-appended one first
    assert_eq!(speeds, vec![40, 20, 30, 10]);
}

#[test]
fn history_honours_its_limit() {
    let mut st = FleetStore::new();
    let m = create_machine(&mut st, &admin_header(), &machine_request("Line1", "L1")).unwrap();
    for t in 1..=5i64 {
        ingest_reading(&mut st, m.id, t as u64, &None, t).unwrap();
    }
    let top2 = get_history(&st, &admin_header(), m.id, &HistoryQuery { limit: Some(2) })
        .unwrap()
        .history;
    assert_eq!(top2.len(), 2);
    assert_eq!(top2[0].timestamp, 5);
    assert_eq!(top2[1].timestamp, 4);
    let all = get_history(&st, &admin_header(), m.id, &HistoryQuery { limit: Some(-1) })
        .unwrap()
        .history;
    assert_eq!(all.len(), 5);
    let default = get_history(&st, &admin_header(), m.id, &HistoryQuery { limit: None })
        .unwrap()
        .history;
    assert_eq!(default.len(), 5);
    let zero = get_history(&st, &admin_header(), m.id, &HistoryQuery { limit: Some(0) })
        .unwrap()
        .history;
    assert_eq!(zero.len(), 0);
}

#[test]
fn latest_reading_heads_the_history() {
    let mut st = FleetStore::new();
    let m = create_machine(&mut st, &admin_header(), &machine_request("Line1", "L1")).unwrap();
    ingest_reading(&mut st, m.id, 1, &None, 50).unwrap();
    ingest_reading(&mut st, m.id, 2, &Some("peak".to_string()), 60).unwrap();
    let hist = get_history(&st, &admin_header(), m.id, &HistoryQuery { limit: Some(1) })
        .unwrap()
        .history;
    assert_eq!(hist.len(), 1);
    assert_eq!(hist[0].speed, 2);
    assert_eq!(hist[0].message.as_deref(), Some("peak"));
    assert_eq!(hist[0].timestamp, 60);
    assert_eq!(st.machines[0].last_update, 60);
    assert_eq!(st.machines[0].current_speed, 2);
}
