use fleet_telemetry::auth::{validate_token, AuthResult};
use fleet_telemetry::handlers::{
    add_comment, create_machine, create_machine_with_key, create_user, get_comments, get_history,
    ingest_reading, list_machines, list_users, login, update_machine, update_machine_speed,
    update_user,
};
use fleet_telemetry::models::{
    AddCommentRequest, ApiError, CreateMachineRequest, CreateUserRequest, HistoryQuery,
    LoginRequest, SpeedUpdateRequest, UpdateMachineRequest, UpdateUserRequest,
};
use fleet_telemetry::store::FleetStore;
use fleet_telemetry::update::{build_machine_update, build_user_update};

fn admin_header() -> Option<String> {
    Some("Bearer admin_token_12345".to_string())
}

fn bearer(token: &str) -> Option<String> {
    Some(format!("Bearer {}", token))
}

fn machine_request(name: &str, code: &str) -> CreateMachineRequest {
    CreateMachineRequest {
        name: name.to_string(),
        code: code.to_string(),
        location: None,
        machine_type: None,
    }
}

fn empty_machine_update() -> UpdateMachineRequest {
    UpdateMachineRequest {
        name: None,
        code: None,
        location: None,
        machine_type: None,
        regenerate_api_key: None,
    }
}

#[test]
fn bootstrap_admin_login_returns_fixed_token() {
    let st = FleetStore::new();
    let resp = login(
        &st,
        &LoginRequest { username: "admin".to_string(), password: "admin123".to_string() },
    )
    .unwrap();
    assert_eq!(resp.token, "admin_token_12345");
    assert_eq!(resp.role, "admin");
    assert_eq!(resp.username, "admin");
}

#[test]
fn login_with_wrong_password_is_unauthorized() {
    let st = FleetStore::new();
    let r = login(
        &st,
        &LoginRequest { username: "admin".to_string(), password: "wrong".to_string() },
    );
    assert!(matches!(r, Err(ApiError::Unauthorized)));
}

#[test]
fn admin_sentinel_beats_colliding_user_row() {
    // The bootstrap user row carries the sentinel literal as its own
    // session token; classification must still say Admin, not User.
    let st = FleetStore::new();
    let r = validate_token(&"admin_token_12345".to_string(), &st);
    assert!(matches!(r, Some(AuthResult::Admin)));
}

#[test]
fn classification_covers_all_four_outcomes() {
    let mut st = FleetStore::new();
    let resp = create_machine(&mut st, &admin_header(), &machine_request("Line1", "L1")).unwrap();
    // machine key resolves to the machine
    match validate_token(&resp.api_key, &st) {
        Some(AuthResult::Machine(id)) => assert_eq!(id, resp.id),
        other => panic!("expected machine identity, got {:?}", other),
    }
    // a fresh user token resolves to the user
    let user = create_user(
        &mut st,
        &admin_header(),
        &CreateUserRequest {
            username: "tess".to_string(),
            password: "pw".to_string(),
            role: "technician".to_string(),
        },
    )
    .unwrap();
    match validate_token(&user.token, &st) {
        Some(AuthResult::User(name)) => assert_eq!(name, "tess"),
        other => panic!("expected user identity, got {:?}", other),
    }
    // a machine-shaped token with no row falls through to nothing
    assert!(validate_token(&"machine_unknown".to_string(), &st).is_none());
    assert!(validate_token(&"gibberish".to_string(), &st).is_none());
}

#[test]
fn create_machine_requires_admin() {
    let mut st = FleetStore::new();
    let r = create_machine(&mut st, &None, &machine_request("Line1", "L1"));
    assert!(matches!(r, Err(ApiError::Unauthorized)));
    let r = create_machine(&mut st, &bearer("nonsense"), &machine_request("Line1", "L1"));
    assert!(matches!(r, Err(ApiError::Unauthorized)));
    assert_eq!(st.machines.len(), 0);
}

#[test]
fn duplicate_code_is_conflict_and_first_machine_survives() {
    let mut st = FleetStore::new();
    let first = create_machine(&mut st, &admin_header(), &machine_request("Line1", "L1")).unwrap();
    let r = create_machine(&mut st, &admin_header(), &machine_request("Line2", "L1"));
    assert!(matches!(r, Err(ApiError::Conflict)));
    assert_eq!(st.machines.len(), 1);
    assert_eq!(st.machines[0].name, "Line1");
    assert_eq!(st.machines[0].code, "L1");
    assert_eq!(st.machines[0].api_key, first.api_key);
}

#[test]
fn duplicate_name_is_conflict_too() {
    let mut st = FleetStore::new();
    create_machine(&mut st, &admin_header(), &machine_request("Line1", "L1")).unwrap();
    let r = create_machine(&mut st, &admin_header(), &machine_request("Line1", "L2"));
    assert!(matches!(r, Err(ApiError::Conflict)));
}

#[test]
fn machine_id_exhaustion_is_internal_error() {
    let mut st = FleetStore::new();
    st.next_machine_id = i64::MAX;
    let r = create_machine(&mut st, &admin_header(), &machine_request("Line1", "L1"));
    assert!(matches!(r, Err(ApiError::Internal)));
    assert_eq!(st.machines.len(), 0);
}

#[test]
fn generated_credentials_carry_their_namespaces() {
    let mut st = FleetStore::new();
    let m = create_machine(&mut st, &admin_header(), &machine_request("Line1", "L1")).unwrap();
    assert!(m.api_key.starts_with("machine_"));
    assert_eq!(m.api_key.chars().count(), 40);
    let u = create_user(
        &mut st,
        &admin_header(),
        &CreateUserRequest {
            username: "mia".to_string(),
            password: "pw".to_string(),
            role: "manager".to_string(),
        },
    )
    .unwrap();
    assert!(u.token.starts_with("user_"));
    assert_eq!(u.token.chars().count(), 37);
    // and they really act as credentials
    assert!(list_machines(&st, &bearer(&u.token)).is_ok());
    assert!(update_machine_speed(
        &mut st,
        &bearer(&m.api_key),
        &SpeedUpdateRequest { speed: 0, message: None },
    )
    .is_ok());
}

#[test]
fn scenario_create_ingest_list_and_history() {
    let mut st = FleetStore::new();
    let created =
        create_machine(&mut st, &admin_header(), &machine_request("Line1", "L1")).unwrap();
    let key = created.api_key.clone();

    let speed_bits = 42.5f64.to_bits();
    let ack = update_machine_speed(
        &mut st,
        &bearer(&key),
        &SpeedUpdateRequest { speed: speed_bits, message: None },
    )
    .unwrap();
    assert!(ack.success);
    let ts = ack.timestamp;

    let listing = list_machines(&st, &admin_header()).unwrap();
    assert_eq!(listing.machines.len(), 1);
    let m = &listing.machines[0];
    assert_eq!(m.name, "Line1");
    assert_eq!(f64::from_bits(m.current_speed), 42.5);
    assert_eq!(m.status_message, "");
    assert!(m.is_online);
    assert_eq!(m.last_update, ts);

    let hist = get_history(
        &st,
        &admin_header(),
        created.id,
        &HistoryQuery { limit: Some(1) },
    )
    .unwrap();
    assert_eq!(hist.history.len(), 1);
    assert_eq!(f64::from_bits(hist.history[0].speed), 42.5);
    assert!(hist.history[0].message.is_none());
    assert_eq!(hist.history[0].timestamp, ts);
}

#[test]
fn ingestion_needs_a_machine_credential() {
    let mut st = FleetStore::new();
    create_machine(&mut st, &admin_header(), &machine_request("Line1", "L1")).unwrap();
    let req = SpeedUpdateRequest { speed: 1, message: None };
    assert!(matches!(
        update_machine_speed(&mut st, &admin_header(), &req),
        Err(ApiError::Unauthorized)
    ));
    assert!(matches!(update_machine_speed(&mut st, &None, &req), Err(ApiError::Unauthorized)));
    assert!(!st.machines[0].is_online);
}

#[test]
fn a_machine_updates_only_itself() {
    let mut st = FleetStore::new();
    let a = create_machine(&mut st, &admin_header(), &machine_request("A", "CA")).unwrap();
    let b = create_machine(&mut st, &admin_header(), &machine_request("B", "CB")).unwrap();
    update_machine_speed(
        &mut st,
        &bearer(&a.api_key),
        &SpeedUpdateRequest { speed: 7, message: Some("running".to_string()) },
    )
    .unwrap();
    let am = st.machines.iter().find(|m| m.id == a.id).unwrap();
    let bm = st.machines.iter().find(|m| m.id == b.id).unwrap();
    assert!(am.is_online);
    assert_eq!(am.current_speed, 7);
    assert_eq!(am.status_message, "running");
    assert!(!bm.is_online);
    assert_eq!(bm.current_speed, 0);
    assert_eq!(bm.status_message, "");
}

#[test]
fn empty_machine_update_is_rejected_and_row_unchanged() {
    let mut st = FleetStore::new();
    let created =
        create_machine(&mut st, &admin_header(), &machine_request("Line1", "L1")).unwrap();
    let before_name = st.machines[0].name.clone();
    let before_key = st.machines[0].api_key.clone();
    let r = update_machine(&mut st, &admin_header(), created.id, &empty_machine_update());
    assert!(matches!(r, Err(ApiError::NoFieldsProvided)));
    assert_eq!(st.machines[0].name, before_name);
    assert_eq!(st.machines[0].api_key, before_key);
}

#[test]
fn build_update_rejects_empty_field_sets() {
    let r = build_machine_update(&empty_machine_update(), None);
    assert!(matches!(r, Err(ApiError::NoFieldsProvided)));
    let r = build_user_update(&UpdateUserRequest { password: None, role: None, is_active: None });
    assert!(matches!(r, Err(ApiError::NoFieldsProvided)));
}

#[test]
fn machine_update_touches_exactly_the_present_fields() {
    let mut st = FleetStore::new();
    let created =
        create_machine(&mut st, &admin_header(), &machine_request("Line1", "L1")).unwrap();
    let resp = update_machine(
        &mut st,
        &admin_header(),
        created.id,
        &UpdateMachineRequest {
            name: Some("Line1b".to_string()),
            code: None,
            location: Some("hall 3".to_string()),
            machine_type: None,
            regenerate_api_key: None,
        },
    )
    .unwrap();
    assert_eq!(resp.name, "Line1b");
    assert_eq!(resp.code, "L1");
    assert_eq!(resp.location.as_deref(), Some("hall 3"));
    assert_eq!(resp.api_key, created.api_key);
}

#[test]
fn regenerating_the_key_revokes_the_old_one() {
    let mut st = FleetStore::new();
    let created =
        create_machine(&mut st, &admin_header(), &machine_request("Line1", "L1")).unwrap();
    let resp = update_machine(
        &mut st,
        &admin_header(),
        created.id,
        &UpdateMachineRequest {
            name: None,
            code: None,
            location: None,
            machine_type: None,
            regenerate_api_key: Some(true),
        },
    )
    .unwrap();
    assert_ne!(resp.api_key, created.api_key);
    assert!(resp.api_key.starts_with("machine_"));
    assert!(validate_token(&created.api_key, &st).is_none());
    assert!(matches!(validate_token(&resp.api_key, &st), Some(AuthResult::Machine(_))));
}

#[test]
fn machine_update_conflicts_on_anothers_name() {
    let mut st = FleetStore::new();
    create_machine(&mut st, &admin_header(), &machine_request("A", "CA")).unwrap();
    let b = create_machine(&mut st, &admin_header(), &machine_request("B", "CB")).unwrap();
    let r = update_machine(
        &mut st,
        &admin_header(),
        b.id,
        &UpdateMachineRequest {
            name: Some("A".to_string()),
            code: None,
            location: None,
            machine_type: None,
            regenerate_api_key: None,
        },
    );
    assert!(matches!(r, Err(ApiError::Conflict)));
    assert_eq!(st.machines[1].name, "B");
}

#[test]
fn machine_update_on_missing_id_is_not_found() {
    let mut st = FleetStore::new();
    let r = update_machine(
        &mut st,
        &admin_header(),
        99,
        &UpdateMachineRequest {
            name: Some("A".to_string()),
            code: None,
            location: None,
            machine_type: None,
            regenerate_api_key: None,
        },
    );
    assert!(matches!(r, Err(ApiError::NotFound)));
}

#[test]
fn user_create_and_update_validate_the_role() {
    let mut st = FleetStore::new();
    let r = create_user(
        &mut st,
        &admin_header(),
        &CreateUserRequest {
            username: "kay".to_string(),
            password: "pw".to_string(),
            role: "owner".to_string(),
        },
    );
    assert!(matches!(r, Err(ApiError::InvalidFieldValue)));
    let u = create_user(
        &mut st,
        &admin_header(),
        &CreateUserRequest {
            username: "kay".to_string(),
            password: "pw".to_string(),
            role: "manager".to_string(),
        },
    )
    .unwrap();
    let r = update_user(
        &mut st,
        &admin_header(),
        u.id,
        &UpdateUserRequest { password: None, role: Some("boss".to_string()), is_active: None },
    );
    assert!(matches!(r, Err(ApiError::InvalidFieldValue)));
    let updated = update_user(
        &mut st,
        &admin_header(),
        u.id,
        &UpdateUserRequest {
            password: Some("pw2".to_string()),
            role: Some("technician".to_string()),
            is_active: Some(false),
        },
    )
    .unwrap();
    assert_eq!(updated.role, "technician");
    assert_eq!(updated.token, u.token);
    // the new password logs in, the old one no longer does
    assert!(login(
        &st,
        &LoginRequest { username: "kay".to_string(), password: "pw2".to_string() },
    )
    .is_ok());
    assert!(login(
        &st,
        &LoginRequest { username: "kay".to_string(), password: "pw".to_string() },
    )
    .is_err());
}

#[test]
fn empty_user_update_is_rejected() {
    let mut st = FleetStore::new();
    let u = create_user(
        &mut st,
        &admin_header(),
        &CreateUserRequest {
            username: "kay".to_string(),
            password: "pw".to_string(),
            role: "manager".to_string(),
        },
    )
    .unwrap();
    let r = update_user(
        &mut st,
        &admin_header(),
        u.id,
        &UpdateUserRequest { password: None, role: None, is_active: None },
    );
    assert!(matches!(r, Err(ApiError::NoFieldsProvided)));
}

#[test]
fn duplicate_username_is_conflict() {
    let mut st = FleetStore::new();
    let req = CreateUserRequest {
        username: "kay".to_string(),
        password: "pw".to_string(),
        role: "manager".to_string(),
    };
    create_user(&mut st, &admin_header(), &req).unwrap();
    let r = create_user(&mut st, &admin_header(), &req);
    assert!(matches!(r, Err(ApiError::Conflict)));
}

#[test]
fn update_user_on_missing_id_is_not_found() {
    let mut st = FleetStore::new();
    let r = update_user(
        &mut st,
        &admin_header(),
        42,
        &UpdateUserRequest { password: Some("x".to_string()), role: None, is_active: None },
    );
    assert!(matches!(r, Err(ApiError::NotFound)));
}

#[test]
fn comments_attribute_their_author_and_default_priority() {
    let mut st = FleetStore::new();
    let m = create_machine(&mut st, &admin_header(), &machine_request("Line1", "L1")).unwrap();
    let u = create_user(
        &mut st,
        &admin_header(),
        &CreateUserRequest {
            username: "tess".to_string(),
            password: "pw".to_string(),
            role: "technician".to_string(),
        },
    )
    .unwrap();
    let c1 = add_comment(
        &mut st,
        &admin_header(),
        m.id,
        &AddCommentRequest { comment: "checked belts".to_string(), priority: None },
    )
    .unwrap();
    assert_eq!(c1.username, "admin");
    assert_eq!(c1.priority, "normal");
    let c2 = add_comment(
        &mut st,
        &bearer(&u.token),
        m.id,
        &AddCommentRequest {
            comment: "bearing noise".to_string(),
            priority: Some("critical".to_string()),
        },
    )
    .unwrap();
    assert_eq!(c2.username, "tess");
    assert_eq!(c2.priority, "critical");
}

#[test]
fn comment_errors_cover_missing_machine_and_bad_priority() {
    let mut st = FleetStore::new();
    let m = create_machine(&mut st, &admin_header(), &machine_request("Line1", "L1")).unwrap();
    let r = add_comment(
        &mut st,
        &admin_header(),
        m.id + 1,
        &AddCommentRequest { comment: "x".to_string(), priority: None },
    );
    assert!(matches!(r, Err(ApiError::NotFound)));
    let r = add_comment(
        &mut st,
        &admin_header(),
        m.id,
        &AddCommentRequest { comment: "x".to_string(), priority: Some("urgent".to_string()) },
    );
    assert!(matches!(r, Err(ApiError::InvalidFieldValue)));
    let r = add_comment(
        &mut st,
        &bearer(&m.api_key),
        m.id,
        &AddCommentRequest { comment: "x".to_string(), priority: None },
    );
    assert!(matches!(r, Err(ApiError::Unauthorized)));
    assert_eq!(st.comments.len(), 0);
}

#[test]
fn reads_are_denied_without_a_recognized_token() {
    let mut st = FleetStore::new();
    let m = create_machine(&mut st, &admin_header(), &machine_request("Line1", "L1")).unwrap();
    assert!(matches!(list_machines(&st, &None), Err(ApiError::Unauthorized)));
    assert!(matches!(
        list_machines(&st, &Some("Token abc".to_string())),
        Err(ApiError::Unauthorized)
    ));
    assert!(matches!(
        get_comments(&st, &bearer("nope"), m.id),
        Err(ApiError::Unauthorized)
    ));
    assert!(matches!(list_users(&st, &bearer(&m.api_key)), Err(ApiError::Unauthorized)));
    assert!(matches!(
        get_history(&st, &None, m.id, &HistoryQuery { limit: None }),
        Err(ApiError::Unauthorized)
    ));
}

#[test]
fn history_and_comments_need_an_existing_machine() {
    let st = FleetStore::new();
    assert!(matches!(
        get_history(&st, &admin_header(), 7, &HistoryQuery { limit: None }),
        Err(ApiError::NotFound)
    ));
    assert!(matches!(get_comments(&st, &admin_header(), 7), Err(ApiError::NotFound)));
}

#[test]
fn ingest_reading_is_exact_about_live_state_and_history() {
    let mut st = FleetStore::new();
    let m = create_machine_with_key(
        &mut st,
        &admin_header(),
        &machine_request("Line1", "L1"),
        "machine_fixedkey".to_string(),
    )
    .unwrap();
    let ack = ingest_reading(&mut st, m.id, 5, &Some("warming up".to_string()), 1111).unwrap();
    assert!(ack.success);
    assert_eq!(ack.timestamp, 1111);
    assert_eq!(st.machines[0].current_speed, 5);
    assert_eq!(st.machines[0].status_message, "warming up");
    assert_eq!(st.machines[0].last_update, 1111);
    assert!(st.machines[0].is_online);
    assert_eq!(st.history.len(), 1);
    assert_eq!(st.history[0].message.as_deref(), Some("warming up"));
    assert_eq!(st.history[0].timestamp, 1111);
    assert!(matches!(
        ingest_reading(&mut st, m.id + 9, 5, &None, 1112),
        Err(ApiError::NotFound)
    ));
}

#[test]
fn the_clock_reads_a_real_time() {
    let t = fleet_telemetry::clock::current_timestamp();
    // any sane wall clock stands well past the year 2020
    assert!(t > 1_577_836_800);
}

#[test]
fn errors_map_to_their_status_classes() {
    assert_eq!(ApiError::Unauthorized.status_code(), 401);
    assert_eq!(ApiError::NotFound.status_code(), 404);
    assert_eq!(ApiError::NoFieldsProvided.status_code(), 400);
    assert_eq!(ApiError::InvalidFieldValue.status_code(), 400);
    assert_eq!(ApiError::Conflict.status_code(), 400);
    assert_eq!(ApiError::Internal.status_code(), 500);
    assert_eq!(ApiError::NoFieldsProvided.to_response().error, "No fields to update");
}
