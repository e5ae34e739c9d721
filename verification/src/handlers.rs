//! The operations of the service, one verified function per endpoint.
//!
//! Every operation first resolves the caller's bearer header to exactly
//! one identity class and gates on it; each contract states, over the
//! store's view, precisely which outcome comes back on which input and
//! how the store changes.

use vstd::prelude::*;

use crate::auth::{
    authenticate_user, extract_token, generate_machine_api_key, generate_user_token, has_prefix,
    spec_classify, spec_extract_token, str_is, validate_token, AuthResult,
};
use crate::models::{
    AddCommentRequest, ApiError, CommentListResponse, CreateMachineRequest, CreateUserRequest,
    is_valid_priority, is_valid_role, HistoryEntry, HistoryQuery, HistoryResponse,
    LoginRequest, LoginResponse, Machine,
    MachineListResponse, MachineResponse, MaintenanceComment, SpeedUpdateRequest, UpdateResponse,
    UpdateMachineRequest, UpdateUserRequest, User, UserListResponse, UserRecord,
    clone_opt_string,
};
use crate::queries::{
    comment_for, comment_newer, comments_for_machine, entries_for_machine, entry_for, entry_newer,
    history_public_view_fn, machine_name_before, machines_sorted_by_name, project_history,
    user_name_before, user_public_view_fn, users_sorted_by_username,
};
use crate::sorting::sort_ordered;
use crate::store::{
    machine_code_taken, machine_id_exists, machine_index_with_id, machine_key_exists, machine_key_taken,
    machine_name_taken, machine_with_key, user_credentials_exist, user_id_exists, user_token_exists,
    user_with_credentials, username_taken, FleetStore, lemma_push_comment_wf,
    lemma_push_history_wf, lemma_push_machine_wf, lemma_push_user_wf, lemma_update_machine_row_wf,
    lemma_update_user_row_wf,
};
use crate::clock::current_timestamp;

verus! {

/// The identity a request's authorization header resolves to.
pub open spec fn spec_auth_identity(st: FleetStore, header: Option<String>) -> Option<AuthResult> {
    match spec_extract_token(header) {
        Option::None => Option::None,
        Option::Some(t) => spec_classify(st, t),
    }
}

/// The header resolves to the administrator.
pub open spec fn spec_is_admin(st: FleetStore, header: Option<String>) -> bool {
    spec_auth_identity(st, header) == Option::Some(AuthResult::Admin)
}

/// The header resolves to an identity allowed to read the fleet: the
/// administrator or any human user.
pub open spec fn spec_is_reader(st: FleetStore, header: Option<String>) -> bool {
    match spec_auth_identity(st, header) {
        Option::Some(AuthResult::Admin) => true,
        Option::Some(AuthResult::User(_)) => true,
        _ => false,
    }
}

/// The machine table and its id counter are untouched.
pub open spec fn machines_unchanged(a: FleetStore, b: FleetStore) -> bool {
    a.machines@ == b.machines@ && a.next_machine_id == b.next_machine_id
}

/// The user table and its id counter are untouched.
pub open spec fn users_unchanged(a: FleetStore, b: FleetStore) -> bool {
    a.users@ == b.users@ && a.next_user_id == b.next_user_id
}

/// The comment table and its id counter are untouched.
pub open spec fn comments_unchanged(a: FleetStore, b: FleetStore) -> bool {
    a.comments@ == b.comments@ && a.next_comment_id == b.next_comment_id
}

/// The history table and its id counter are untouched.
pub open spec fn history_unchanged(a: FleetStore, b: FleetStore) -> bool {
    a.history@ == b.history@ && a.next_entry_id == b.next_entry_id
}

/// Some machine row other than the one with id `skip_id` carries a key
/// of the generated shape — 40 characters in the machine namespace — so
/// only such a row could collide with a freshly drawn key.
pub open spec fn machine_key_shape_taken(s: Seq<Machine>, skip_id: i64) -> bool {
    exists|j: int|
        0 <= j < s.len() && (#[trigger] s[j].id) != skip_id && s[j].api_key@.len() == 40
            && has_prefix(s[j].api_key@, "machine_"@)
}

/// Some user row carries a token of the generated shape — 37 characters
/// in the user namespace — so only such a row could collide with a
/// freshly drawn token.
pub open spec fn user_token_shape_taken(s: Seq<UserRecord>) -> bool {
    exists|j: int|
        0 <= j < s.len() && (#[trigger] s[j].token@).len() == 37 && has_prefix(
            s[j].token@,
            "user_"@,
        )
}

/// Allows the request only when its header resolves to the
/// administrator; a missing credential and a recognized but
/// insufficient one are rejected alike.
pub fn require_admin(st: &FleetStore, header: &Option<String>) -> (r: Result<(), ApiError>)
    requires
        st.wf(),
    ensures
        (r is Ok) <==> spec_is_admin(*st, *header),
        r matches Err(e) ==> e == ApiError::Unauthorized,
{
    match extract_token(header) {
        Option::None => Result::Err(ApiError::Unauthorized),
        Option::Some(tok) => match validate_token(&tok, st) {
            Option::Some(AuthResult::Admin) => Result::Ok(()),
            _ => Result::Err(ApiError::Unauthorized),
        },
    }
}

/// Allows the request only when its header resolves to the
/// administrator or a human user.
pub fn require_reader(st: &FleetStore, header: &Option<String>) -> (r: Result<(), ApiError>)
    requires
        st.wf(),
    ensures
        (r is Ok) <==> spec_is_reader(*st, *header),
        r matches Err(e) ==> e == ApiError::Unauthorized,
{
    match extract_token(header) {
        Option::None => Result::Err(ApiError::Unauthorized),
        Option::Some(tok) => match validate_token(&tok, st) {
            Option::Some(AuthResult::Admin) => Result::Ok(()),
            Option::Some(AuthResult::User(_)) => Result::Ok(()),
            _ => Result::Err(ApiError::Unauthorized),
        },
    }
}

/// What a login yields: the stored session token, role, and username of
/// the single row matching the credentials, or a rejection.
pub open spec fn spec_login(st: FleetStore, req: LoginRequest) -> Result<LoginResponse, ApiError> {
    if user_credentials_exist(st.users@, req.username@, req.password@) {
        let u = user_with_credentials(st.users@, req.username@, req.password@);
        Result::Ok(LoginResponse { token: u.token, role: u.role, username: u.username })
    } else {
        Result::Err(ApiError::Unauthorized)
    }
}

/// Exchanges a username/password pair for the stored session token.
pub fn login(st: &FleetStore, req: &LoginRequest) -> (r: Result<LoginResponse, ApiError>)
    requires
        st.wf(),
    ensures
        r == spec_login(*st, *req),
{
    match authenticate_user(&req.username, &req.password, st) {
        Option::Some(user) => Result::Ok(
            LoginResponse { token: user.token, role: user.role, username: user.username },
        ),
        Option::None => Result::Err(ApiError::Unauthorized),
    }
}

/// Lists every machine, ordered by name, to the administrator or any
/// human user.
pub fn list_machines(st: &FleetStore, header: &Option<String>) -> (r: Result<
    MachineListResponse,
    ApiError,
>)
    requires
        st.wf(),
    ensures
        (r is Ok) <==> spec_is_reader(*st, *header),
        r matches Ok(resp) ==> resp.machines@ == sort_ordered(st.machines@, machine_name_before()),
        r matches Err(e) ==> e == ApiError::Unauthorized,
{
    match require_reader(st, header) {
        Result::Err(e) => Result::Err(e),
        Result::Ok(()) => Result::Ok(
            MachineListResponse { machines: machines_sorted_by_name(&st.machines) },
        ),
    }
}

/// Lists every user's public view, ordered by username, to the
/// administrator only.
pub fn list_users(st: &FleetStore, header: &Option<String>) -> (r: Result<
    UserListResponse,
    ApiError,
>)
    requires
        st.wf(),
    ensures
        (r is Ok) <==> spec_is_admin(*st, *header),
        r matches Ok(resp) ==> resp.users@ == sort_ordered(
            st.users@.map_values(user_public_view_fn()),
            user_name_before(),
        ),
        r matches Err(e) ==> e == ApiError::Unauthorized,
{
    match require_admin(st, header) {
        Result::Err(e) => Result::Err(e),
        Result::Ok(()) => Result::Ok(
            UserListResponse { users: users_sorted_by_username(&st.users) },
        ),
    }
}

/// Creates a machine with a caller-supplied API key: the outcome is an
/// exact function of the store, the header, the request, and the key.
/// Only the administrator may create; any clash on the unique name,
/// code, or key columns is a conflict; id exhaustion is a storage
/// failure. On any error the store is untouched.
pub fn create_machine_with_key(
    st: &mut FleetStore,
    header: &Option<String>,
    req: &CreateMachineRequest,
    api_key: String,
) -> (r: Result<MachineResponse, ApiError>)
    requires
        old(st).wf(),
    ensures
        final(st).wf(),
        users_unchanged(*old(st), *final(st)),
        comments_unchanged(*old(st), *final(st)),
        history_unchanged(*old(st), *final(st)),
        final(st).admin_token == old(st).admin_token,
        (r is Ok) <==> (spec_is_admin(*old(st), *header) && !machine_name_taken(
            old(st).machines@,
            req.name@,
            0,
        ) && !machine_code_taken(old(st).machines@, req.code@, 0) && !machine_key_taken(
            old(st).machines@,
            api_key@,
            0,
        ) && old(st).next_machine_id < i64::MAX),
        r matches Err(e) ==> *final(st) == *old(st) && (if !spec_is_admin(*old(st), *header) {
            e == ApiError::Unauthorized
        } else if machine_name_taken(old(st).machines@, req.name@, 0) || machine_code_taken(
            old(st).machines@,
            req.code@,
            0,
        ) || machine_key_taken(old(st).machines@, api_key@, 0) {
            e == ApiError::Conflict
        } else {
            e == ApiError::Internal
        }),
        r matches Ok(resp) ==> ({
            let m = final(st).machines@.last();
            &&& final(st).machines@ == old(st).machines@.push(m)
            &&& final(st).next_machine_id == old(st).next_machine_id + 1
            &&& m.id == old(st).next_machine_id
            &&& m.name == req.name
            &&& m.code == req.code
            &&& m.api_key == api_key
            &&& m.location == req.location
            &&& m.machine_type == req.machine_type
            &&& m.current_speed == 0
            &&& m.status_message@ == Seq::<char>::empty()
            &&& !m.is_online
            &&& m.last_update == 0
            &&& resp.id == m.id
            &&& resp.name == req.name
            &&& resp.code == req.code
            &&& resp.api_key == api_key
            &&& resp.location == req.location
            &&& resp.machine_type == req.machine_type
        }),
{
    match require_admin(st, header) {
        Result::Err(e) => {
            return Result::Err(e);
        },
        Result::Ok(()) => (),
    }
    if st.is_machine_name_taken(&req.name, 0) || st.is_machine_code_taken(&req.code, 0)
        || st.is_machine_key_taken(&api_key, 0) {
        return Result::Err(ApiError::Conflict);
    }
    if st.next_machine_id == i64::MAX {
        return Result::Err(ApiError::Internal);
    }
    let id = st.next_machine_id;
    let m = Machine {
        id,
        name: req.name.clone(),
        code: req.code.clone(),
        api_key,
        location: clone_opt_string(&req.location),
        machine_type: clone_opt_string(&req.machine_type),
        current_speed: 0,
        status_message: String::new(),
        is_online: false,
        last_update: 0,
    };
    let resp = MachineResponse {
        id,
        name: m.name.clone(),
        code: m.code.clone(),
        api_key: m.api_key.clone(),
        location: clone_opt_string(&m.location),
        machine_type: clone_opt_string(&m.machine_type),
    };
    let ghost gm = m;
    st.machines.push(m);
    st.next_machine_id = id + 1;
    proof {
        lemma_push_machine_wf(*old(st), *st, gm);
    }
    Result::Ok(resp)
}

/// Creates a machine under a freshly generated API key. The caller
/// cannot predict the key, so success is owed exactly when the caller
/// is the administrator, the name and code are free, ids remain, and
/// the fresh key happens not to collide; on every other account the
/// clauses below pin the error down.
pub fn create_machine(
    st: &mut FleetStore,
    header: &Option<String>,
    req: &CreateMachineRequest,
) -> (r: Result<MachineResponse, ApiError>)
    requires
        old(st).wf(),
    ensures
        final(st).wf(),
        users_unchanged(*old(st), *final(st)),
        comments_unchanged(*old(st), *final(st)),
        history_unchanged(*old(st), *final(st)),
        final(st).admin_token == old(st).admin_token,
        r is Err ==> *final(st) == *old(st),
        (r matches Err(e) && e == ApiError::Unauthorized) <==> !spec_is_admin(*old(st), *header),
        spec_is_admin(*old(st), *header) && (machine_name_taken(old(st).machines@, req.name@, 0)
            || machine_code_taken(old(st).machines@, req.code@, 0)) ==> (r matches Err(e) && e
            == ApiError::Conflict),
        (spec_is_admin(*old(st), *header) && !machine_name_taken(old(st).machines@, req.name@, 0)
            && !machine_code_taken(old(st).machines@, req.code@, 0) && old(st).next_machine_id
            < i64::MAX && !machine_key_shape_taken(old(st).machines@, 0)) ==> r is Ok,
        r matches Ok(resp) ==> ({
            let m = final(st).machines@.last();
            &&& spec_is_admin(*old(st), *header)
            &&& !machine_name_taken(old(st).machines@, req.name@, 0)
            &&& !machine_code_taken(old(st).machines@, req.code@, 0)
            &&& !machine_key_taken(old(st).machines@, m.api_key@, 0)
            &&& final(st).machines@ == old(st).machines@.push(m)
            &&& final(st).next_machine_id == old(st).next_machine_id + 1
            &&& m.id == old(st).next_machine_id
            &&& m.name == req.name
            &&& m.code == req.code
            &&& has_prefix(m.api_key@, "machine_"@)
            &&& m.api_key@.len() == 40
            &&& m.location == req.location
            &&& m.machine_type == req.machine_type
            &&& m.current_speed == 0
            &&& m.status_message@ == Seq::<char>::empty()
            &&& !m.is_online
            &&& m.last_update == 0
            &&& resp.id == m.id
            &&& resp.name == req.name
            &&& resp.code == req.code
            &&& resp.api_key == m.api_key
            &&& resp.location == req.location
            &&& resp.machine_type == req.machine_type
        }),
{
    let api_key = generate_machine_api_key();
    let ghost keyview = api_key@;
    let r = create_machine_with_key(st, header, req, api_key);
    proof {
        if machine_key_taken(old(st).machines@, keyview, 0) {
            let j = choose|j: int|
                0 <= j < old(st).machines@.len() && (#[trigger] old(st).machines@[j].id) != 0
                    && old(st).machines@[j].api_key@ == keyview;
            assert(machine_key_shape_taken(old(st).machines@, 0));
        }
    }
    r
}

/// Creates a user with a caller-supplied session token: the outcome is
/// an exact function of its arguments. Only the administrator may
/// create; the role must be one of the recognized three; a clash on the
/// unique username or token is a conflict. On any error the store is
/// untouched.
pub fn create_user_with_token(
    st: &mut FleetStore,
    header: &Option<String>,
    req: &CreateUserRequest,
    token: String,
) -> (r: Result<User, ApiError>)
    requires
        old(st).wf(),
    ensures
        final(st).wf(),
        machines_unchanged(*old(st), *final(st)),
        comments_unchanged(*old(st), *final(st)),
        history_unchanged(*old(st), *final(st)),
        final(st).admin_token == old(st).admin_token,
        (r is Ok) <==> (spec_is_admin(*old(st), *header) && is_valid_role(req.role@)
            && !username_taken(old(st).users@, req.username@) && !user_token_exists(
            old(st).users@,
            token@,
        ) && old(st).next_user_id < i64::MAX),
        r matches Err(e) ==> *final(st) == *old(st) && (if !spec_is_admin(*old(st), *header) {
            e == ApiError::Unauthorized
        } else if !is_valid_role(req.role@) {
            e == ApiError::InvalidFieldValue
        } else if username_taken(old(st).users@, req.username@) || user_token_exists(
            old(st).users@,
            token@,
        ) {
            e == ApiError::Conflict
        } else {
            e == ApiError::Internal
        }),
        r matches Ok(u) ==> ({
            let rec = final(st).users@.last();
            &&& final(st).users@ == old(st).users@.push(rec)
            &&& final(st).next_user_id == old(st).next_user_id + 1
            &&& rec.id == old(st).next_user_id
            &&& rec.username == req.username
            &&& rec.password == req.password
            &&& rec.role == req.role
            &&& rec.token == token
            &&& rec.is_active
            &&& u == rec.spec_public_view()
        }),
{
    match require_admin(st, header) {
        Result::Err(e) => {
            return Result::Err(e);
        },
        Result::Ok(()) => (),
    }
    if !(str_is(&req.role, "admin") || str_is(&req.role, "manager") || str_is(
        &req.role,
        "technician",
    )) {
        return Result::Err(ApiError::InvalidFieldValue);
    }
    if st.is_username_taken(&req.username) || st.is_user_token_taken(&token) {
        return Result::Err(ApiError::Conflict);
    }
    if st.next_user_id == i64::MAX {
        return Result::Err(ApiError::Internal);
    }
    let id = st.next_user_id;
    let rec = UserRecord {
        id,
        username: req.username.clone(),
        password: req.password.clone(),
        role: req.role.clone(),
        token,
        is_active: true,
    };
    let u = rec.public_view();
    let ghost grec = rec;
    st.users.push(rec);
    st.next_user_id = id + 1;
    proof {
        lemma_push_user_wf(*old(st), *st, grec);
    }
    Result::Ok(u)
}

/// Creates a user under a freshly generated session token. The caller
/// cannot predict the token, so success is owed exactly when the caller
/// is the administrator, the role is recognized, the username is free,
/// ids remain, and the fresh token happens not to collide.
pub fn create_user(st: &mut FleetStore, header: &Option<String>, req: &CreateUserRequest) -> (r:
    Result<User, ApiError>)
    requires
        old(st).wf(),
    ensures
        final(st).wf(),
        machines_unchanged(*old(st), *final(st)),
        comments_unchanged(*old(st), *final(st)),
        history_unchanged(*old(st), *final(st)),
        final(st).admin_token == old(st).admin_token,
        r is Err ==> *final(st) == *old(st),
        (r matches Err(e) && e == ApiError::Unauthorized) <==> !spec_is_admin(*old(st), *header),
        (r matches Err(e) && e == ApiError::InvalidFieldValue) <==> (spec_is_admin(
            *old(st),
            *header,
        ) && !is_valid_role(req.role@)),
        spec_is_admin(*old(st), *header) && is_valid_role(req.role@)
            && username_taken(old(st).users@, req.username@) ==> (r matches Err(e) && e
            == ApiError::Conflict),
        (spec_is_admin(*old(st), *header) && is_valid_role(req.role@) && !username_taken(
            old(st).users@,
            req.username@,
        ) && old(st).next_user_id < i64::MAX && !user_token_shape_taken(old(st).users@)) ==> r
            is Ok,
        r matches Ok(u) ==> ({
            let rec = final(st).users@.last();
            &&& spec_is_admin(*old(st), *header)
            &&& is_valid_role(req.role@)
            &&& !username_taken(old(st).users@, req.username@)
            &&& final(st).users@ == old(st).users@.push(rec)
            &&& final(st).next_user_id == old(st).next_user_id + 1
            &&& rec.id == old(st).next_user_id
            &&& rec.username == req.username
            &&& rec.password == req.password
            &&& rec.role == req.role
            &&& has_prefix(rec.token@, "user_"@)
            &&& rec.token@.len() == 37
            &&& rec.is_active
            &&& u == rec.spec_public_view()
        }),
{
    let token = generate_user_token();
    let ghost tokview = token@;
    let r = create_user_with_token(st, header, req, token);
    proof {
        if user_token_exists(old(st).users@, tokview) {
            let j = choose|j: int|
                0 <= j < old(st).users@.len() && (#[trigger] old(st).users@[j].token@) == tokview;
            assert(user_token_shape_taken(old(st).users@));
        }
    }
    r
}

/// Writes one reading into a machine's live state and appends the
/// matching history entry, both under the one given timestamp: an exact
/// function of its arguments. The live-state write is the point of the
/// call; when history ids are exhausted the entry is dropped and the
/// call still succeeds — history loss is tolerated, live-state loss is
/// not.
pub fn ingest_reading(
    st: &mut FleetStore,
    machine_id: i64,
    speed: u64,
    message: &Option<String>,
    timestamp: i64,
) -> (r: Result<UpdateResponse, ApiError>)
    requires
        old(st).wf(),
    ensures
        final(st).wf(),
        users_unchanged(*old(st), *final(st)),
        comments_unchanged(*old(st), *final(st)),
        final(st).admin_token == old(st).admin_token,
        (r is Ok) <==> machine_id_exists(old(st).machines@, machine_id),
        r matches Err(e) ==> *final(st) == *old(st) && e == ApiError::NotFound,
        r matches Ok(resp) ==> ({
            let i = machine_index_with_id(old(st).machines@, machine_id);
            let om = old(st).machines@[i];
            let m = final(st).machines@[i];
            &&& resp.success
            &&& resp.timestamp == timestamp
            &&& final(st).machines@ == old(st).machines@.update(i, m)
            &&& final(st).next_machine_id == old(st).next_machine_id
            &&& m.id == om.id
            &&& m.name == om.name
            &&& m.code == om.code
            &&& m.api_key == om.api_key
            &&& m.location == om.location
            &&& m.machine_type == om.machine_type
            &&& m.current_speed == speed
            &&& m.status_message@ == (match *message {
                Option::Some(s) => s@,
                Option::None => Seq::<char>::empty(),
            })
            &&& m.is_online
            &&& m.last_update == timestamp
            &&& if old(st).next_entry_id < i64::MAX {
                &&& final(st).history@ == old(st).history@.push(final(st).history@.last())
                &&& final(st).next_entry_id == old(st).next_entry_id + 1
                &&& ({
                    let h = final(st).history@.last();
                    &&& h.entry_id == old(st).next_entry_id
                    &&& h.machine_id == machine_id
                    &&& h.speed == speed
                    &&& h.message == *message
                    &&& h.timestamp == timestamp
                })
            } else {
                history_unchanged(*old(st), *final(st))
            }
        }),
{
    let idx = match st.find_machine_by_id(machine_id) {
        Option::Some(i) => i,
        Option::None => {
            return Result::Err(ApiError::NotFound);
        },
    };
    let om = st.machines[idx].duplicate();
    let live_message: String = match message {
        Option::Some(s) => s.clone(),
        Option::None => String::new(),
    };
    let m = Machine {
        id: om.id,
        name: om.name,
        code: om.code,
        api_key: om.api_key,
        location: om.location,
        machine_type: om.machine_type,
        current_speed: speed,
        status_message: live_message,
        is_online: true,
        last_update: timestamp,
    };
    let ghost gm = m;
    st.machines[idx] = m;
    proof {
        crate::store::lemma_own_keys_not_taken(*old(st), idx as int);
        lemma_update_machine_row_wf(*old(st), *st, idx as int, gm);
        let i = machine_index_with_id(old(st).machines@, machine_id);
        if i != idx as int {
            crate::store::lemma_machine_ids_distinct(old(st).machines@, i, idx as int);
        }
    }
    if st.next_entry_id < i64::MAX {
        let e = HistoryEntry {
            entry_id: st.next_entry_id,
            machine_id,
            speed,
            message: clone_opt_string(message),
            timestamp,
        };
        let ghost ge = e;
        let ghost mid_state = *st;
        st.history.push(e);
        st.next_entry_id = st.next_entry_id + 1;
        proof {
            assert(mid_state.machines@[idx as int].id == machine_id);
            lemma_push_history_wf(mid_state, *st, ge);
        }
    }
    Result::Ok(UpdateResponse { success: true, timestamp })
}

/// Accepts a machine's telemetry report. The reporting machine is
/// identified entirely by its own API key — the request carries no
/// machine id, so no machine can target another — and only a
/// machine-classified credential may report. The current time is
/// resolved once and shared by the live-state write, the history entry,
/// and the acknowledgement.
pub fn update_machine_speed(
    st: &mut FleetStore,
    header: &Option<String>,
    req: &SpeedUpdateRequest,
) -> (r: Result<UpdateResponse, ApiError>)
    requires
        old(st).wf(),
    ensures
        final(st).wf(),
        users_unchanged(*old(st), *final(st)),
        comments_unchanged(*old(st), *final(st)),
        final(st).admin_token == old(st).admin_token,
        (r is Ok) <==> (spec_auth_identity(*old(st), *header) matches Option::Some(
            AuthResult::Machine(_),
        )),
        r matches Err(e) ==> *final(st) == *old(st) && e == ApiError::Unauthorized,
        r matches Ok(resp) ==> (spec_auth_identity(*old(st), *header) matches Option::Some(
            AuthResult::Machine(mid),
        ) && ({
            let i = machine_index_with_id(old(st).machines@, mid);
            let om = old(st).machines@[i];
            let m = final(st).machines@[i];
            &&& resp.success
            &&& resp.timestamp >= 0
            &&& machine_id_exists(old(st).machines@, mid)
            &&& final(st).machines@ == old(st).machines@.update(i, m)
            &&& final(st).next_machine_id == old(st).next_machine_id
            &&& m.id == om.id
            &&& m.name == om.name
            &&& m.code == om.code
            &&& m.api_key == om.api_key
            &&& m.location == om.location
            &&& m.machine_type == om.machine_type
            &&& m.current_speed == req.speed
            &&& m.status_message@ == (match req.message {
                Option::Some(s) => s@,
                Option::None => Seq::<char>::empty(),
            })
            &&& m.is_online
            &&& m.last_update == resp.timestamp
            &&& if old(st).next_entry_id < i64::MAX {
                &&& final(st).history@ == old(st).history@.push(final(st).history@.last())
                &&& final(st).next_entry_id == old(st).next_entry_id + 1
                &&& ({
                    let h = final(st).history@.last();
                    &&& h.entry_id == old(st).next_entry_id
                    &&& h.machine_id == mid
                    &&& h.speed == req.speed
                    &&& h.message == req.message
                    &&& h.timestamp == resp.timestamp
                })
            } else {
                history_unchanged(*old(st), *final(st))
            }
        })),
{
    let tok = match extract_token(header) {
        Option::None => {
            return Result::Err(ApiError::Unauthorized);
        },
        Option::Some(t) => t,
    };
    let mid = match validate_token(&tok, st) {
        Option::Some(AuthResult::Machine(id)) => id,
        _ => {
            return Result::Err(ApiError::Unauthorized);
        },
    };
    proof {
        assert(machine_key_exists(st.machines@, tok@));
        let j = choose|j: int|
            0 <= j < st.machines@.len() && (#[trigger] st.machines@[j].api_key@) == tok@;
        assert(machine_with_key(st.machines@, tok@) == st.machines@[j]);
        assert(st.machines@[j].id == mid);
        assert(machine_id_exists(st.machines@, mid));
    }
    let timestamp = current_timestamp();
    ingest_reading(st, mid, req.speed, &req.message, timestamp)
}

/// Appends a maintenance comment row: an exact function of its
/// arguments. The priority must already lie in the recognized set (a
/// store invariant); the referenced machine must exist; id exhaustion
/// is a storage failure. On any error the store is untouched.
pub fn add_comment_record(
    st: &mut FleetStore,
    machine_id: i64,
    username: String,
    comment: String,
    priority: String,
    created_at: i64,
) -> (r: Result<MaintenanceComment, ApiError>)
    requires
        old(st).wf(),
        is_valid_priority(priority@),
    ensures
        final(st).wf(),
        machines_unchanged(*old(st), *final(st)),
        users_unchanged(*old(st), *final(st)),
        history_unchanged(*old(st), *final(st)),
        final(st).admin_token == old(st).admin_token,
        (r is Ok) <==> (machine_id_exists(old(st).machines@, machine_id)
            && old(st).next_comment_id < i64::MAX),
        r matches Err(e) ==> *final(st) == *old(st) && (if !machine_id_exists(
            old(st).machines@,
            machine_id,
        ) {
            e == ApiError::NotFound
        } else {
            e == ApiError::Internal
        }),
        r matches Ok(c) ==> ({
            let rec = final(st).comments@.last();
            &&& final(st).comments@ == old(st).comments@.push(rec)
            &&& final(st).next_comment_id == old(st).next_comment_id + 1
            &&& rec.id == old(st).next_comment_id
            &&& rec.machine_id == machine_id
            &&& rec.comment == comment
            &&& rec.priority == priority
            &&& rec.username == username
            &&& rec.created_at == created_at
            &&& c == rec
        }),
{
    match st.find_machine_by_id(machine_id) {
        Option::None => {
            return Result::Err(ApiError::NotFound);
        },
        Option::Some(_) => (),
    }
    if st.next_comment_id == i64::MAX {
        return Result::Err(ApiError::Internal);
    }
    let id = st.next_comment_id;
    let rec = MaintenanceComment { id, machine_id, comment, priority, username, created_at };
    let c = rec.duplicate();
    let ghost grec = rec;
    st.comments.push(rec);
    st.next_comment_id = id + 1;
    proof {
        lemma_push_comment_wf(*old(st), *st, grec);
    }
    Result::Ok(c)
}

/// Adds a maintenance comment to a machine. The administrator and any
/// human user may comment; the attributed author is the literal `admin`
/// for the administrator and the user's own username otherwise. An
/// absent priority defaults to `normal`; one outside the enumerated
/// four is an invalid field value. The creation time is read from the
/// clock.
pub fn add_comment(
    st: &mut FleetStore,
    header: &Option<String>,
    machine_id: i64,
    req: &AddCommentRequest,
) -> (r: Result<MaintenanceComment, ApiError>)
    requires
        old(st).wf(),
    ensures
        final(st).wf(),
        machines_unchanged(*old(st), *final(st)),
        users_unchanged(*old(st), *final(st)),
        history_unchanged(*old(st), *final(st)),
        final(st).admin_token == old(st).admin_token,
        r is Err ==> *final(st) == *old(st),
        ({
            let ident = spec_auth_identity(*old(st), *header);
            let allowed = spec_is_reader(*old(st), *header);
            let found = machine_id_exists(old(st).machines@, machine_id);
            let prio_ok = (match req.priority {
                Option::Some(p) => is_valid_priority(p@),
                Option::None => true,
            });
            &&& ((r matches Err(e) && e == ApiError::Unauthorized) <==> !allowed)
            &&& ((r matches Err(e) && e == ApiError::NotFound) <==> (allowed && !found))
            &&& ((r matches Err(e) && e == ApiError::InvalidFieldValue) <==> (allowed && found
                && !prio_ok))
            &&& ((r matches Err(e) && e == ApiError::Internal) <==> (allowed && found && prio_ok
                && old(st).next_comment_id == i64::MAX))
            &&& ((r is Ok) <==> (allowed && found && prio_ok && old(st).next_comment_id
                < i64::MAX))
            &&& (r matches Ok(c) ==> ({
                let rec = final(st).comments@.last();
                &&& final(st).comments@ == old(st).comments@.push(rec)
                &&& final(st).next_comment_id == old(st).next_comment_id + 1
                &&& rec.id == old(st).next_comment_id
                &&& rec.machine_id == machine_id
                &&& rec.comment == req.comment
                &&& rec.priority@ == (match req.priority {
                    Option::Some(p) => p@,
                    Option::None => "normal"@,
                })
                &&& rec.username@ == (match ident {
                    Option::Some(AuthResult::Admin) => "admin"@,
                    Option::Some(AuthResult::User(u)) => u@,
                    _ => Seq::<char>::empty(),
                })
                &&& rec.created_at >= 0
                &&& c == rec
            }))
        }),
{
    let tok = match extract_token(header) {
        Option::None => {
            return Result::Err(ApiError::Unauthorized);
        },
        Option::Some(t) => t,
    };
    let username: String = match validate_token(&tok, st) {
        Option::Some(AuthResult::Admin) => "admin".to_owned(),
        Option::Some(AuthResult::User(u)) => u,
        _ => {
            return Result::Err(ApiError::Unauthorized);
        },
    };
    match st.find_machine_by_id(machine_id) {
        Option::None => {
            return Result::Err(ApiError::NotFound);
        },
        Option::Some(_) => (),
    }
    let priority: String = match &req.priority {
        Option::Some(p) => {
            if !(str_is(p, "low") || str_is(p, "normal") || str_is(p, "high") || str_is(
                p,
                "critical",
            )) {
                return Result::Err(ApiError::InvalidFieldValue);
            }
            p.clone()
        },
        Option::None => "normal".to_owned(),
    };
    let created_at = current_timestamp();
    add_comment_record(st, machine_id, username, req.comment.clone(), priority, created_at)
}

/// Lists a machine's comments, newest first, to the administrator or
/// any human user.
pub fn get_comments(st: &FleetStore, header: &Option<String>, machine_id: i64) -> (r: Result<
    CommentListResponse,
    ApiError,
>)
    requires
        st.wf(),
    ensures
        ((r matches Err(e) && e == ApiError::Unauthorized) <==> !spec_is_reader(*st, *header)),
        ((r matches Err(e) && e == ApiError::NotFound) <==> (spec_is_reader(*st, *header)
            && !machine_id_exists(st.machines@, machine_id))),
        (r is Ok) <==> (spec_is_reader(*st, *header) && machine_id_exists(
            st.machines@,
            machine_id,
        )),
        r matches Ok(resp) ==> resp.comments@ == sort_ordered(
            st.comments@.filter(comment_for(machine_id)),
            comment_newer(),
        ),
{
    match require_reader(st, header) {
        Result::Err(e) => {
            return Result::Err(e);
        },
        Result::Ok(()) => (),
    }
    match st.find_machine_by_id(machine_id) {
        Option::None => {
            return Result::Err(ApiError::NotFound);
        },
        Option::Some(_) => (),
    }
    Result::Ok(CommentListResponse { comments: comments_for_machine(&st.comments, machine_id) })
}

/// Lists a machine's speed history, newest first, to the administrator
/// or any human user. The optional result-count limit defaults to 100;
/// a negative limit means no limit.
pub fn get_history(
    st: &FleetStore,
    header: &Option<String>,
    machine_id: i64,
    query: &HistoryQuery,
) -> (r: Result<HistoryResponse, ApiError>)
    requires
        st.wf(),
    ensures
        ((r matches Err(e) && e == ApiError::Unauthorized) <==> !spec_is_reader(*st, *header)),
        ((r matches Err(e) && e == ApiError::NotFound) <==> (spec_is_reader(*st, *header)
            && !machine_id_exists(st.machines@, machine_id))),
        (r is Ok) <==> (spec_is_reader(*st, *header) && machine_id_exists(
            st.machines@,
            machine_id,
        )),
        r matches Ok(resp) ==> ({
            let full = sort_ordered(
                st.history@.filter(entry_for(machine_id)),
                entry_newer(),
            ).map_values(history_public_view_fn());
            let lim = (match query.limit {
                Option::Some(l) => l,
                Option::None => 100i64,
            });
            &&& (lim < 0 ==> resp.history@ == full)
            &&& (lim >= 0 ==> resp.history@ == full.take(
                if lim <= full.len() {
                    lim as int
                } else {
                    full.len() as int
                },
            ))
        }),
{
    match require_reader(st, header) {
        Result::Err(e) => {
            return Result::Err(e);
        },
        Result::Ok(()) => (),
    }
    match st.find_machine_by_id(machine_id) {
        Option::None => {
            return Result::Err(ApiError::NotFound);
        },
        Option::Some(_) => (),
    }
    let mut entries = entries_for_machine(&st.history, machine_id);
    let ghost sorted = entries@;
    let lim: i64 = match query.limit {
        Option::Some(l) => l,
        Option::None => 100,
    };
    if lim >= 0 {
        if (entries.len() as u64) > (lim as u64) {
            proof {
                assert(0 <= (lim as u64) < (entries@.len() as u64));
            }
            entries.truncate(lim as usize);
        }
    }
    proof {
        let f = history_public_view_fn();
        let full = sorted.map_values(f);
        if lim >= 0 {
            let k: int = if lim <= full.len() {
                lim as int
            } else {
                full.len() as int
            };
            assert(entries@ =~= sorted.take(k));
            assert(entries@.map_values(f) =~= full.take(k));
        } else {
            assert(entries@.map_values(f) =~= full);
        }
    }
    let history = project_history(&entries);
    Result::Ok(HistoryResponse { history })
}

/// Partially updates a user: only the administrator, only an existing
/// user id, only the present fields. The outcome is an exact function
/// of its arguments; the updated row is re-read and handed back. On any
/// error the store is untouched.
pub fn update_user(
    st: &mut FleetStore,
    header: &Option<String>,
    user_id: i64,
    req: &UpdateUserRequest,
) -> (r: Result<User, ApiError>)
    requires
        old(st).wf(),
    ensures
        final(st).wf(),
        machines_unchanged(*old(st), *final(st)),
        comments_unchanged(*old(st), *final(st)),
        history_unchanged(*old(st), *final(st)),
        final(st).admin_token == old(st).admin_token,
        final(st).next_user_id == old(st).next_user_id,
        r is Err ==> *final(st) == *old(st),
        ({
            let admin = spec_is_admin(*old(st), *header);
            let found = user_id_exists(old(st).users@, user_id);
            let role_ok = (match req.role {
                Option::Some(ro) => is_valid_role(ro@),
                Option::None => true,
            });
            let empty = crate::update::spec_build_user_fields(*req).len() == 0;
            &&& ((r matches Err(e) && e == ApiError::Unauthorized) <==> !admin)
            &&& ((r matches Err(e) && e == ApiError::NotFound) <==> (admin && !found))
            &&& ((r matches Err(e) && e == ApiError::InvalidFieldValue) <==> (admin && found
                && !role_ok))
            &&& ((r matches Err(e) && e == ApiError::NoFieldsProvided) <==> (admin && found
                && role_ok && empty))
            &&& ((r is Ok) <==> (admin && found && role_ok && !empty))
            &&& (r matches Ok(u) ==> ({
                let i = crate::store::user_index_with_id(old(st).users@, user_id);
                let updated = crate::update::spec_user_updated(old(st).users@[i], *req);
                &&& final(st).users@ == old(st).users@.update(i, updated)
                &&& u == updated.spec_public_view()
            }))
        }),
{
    match require_admin(st, header) {
        Result::Err(e) => {
            return Result::Err(e);
        },
        Result::Ok(()) => (),
    }
    let idx = match st.find_user_by_id(user_id) {
        Option::None => {
            return Result::Err(ApiError::NotFound);
        },
        Option::Some(i) => i,
    };
    let fields = match crate::update::build_user_update(req) {
        Result::Err(e) => {
            return Result::Err(e);
        },
        Result::Ok(f) => f,
    };
    let orig = st.users[idx].duplicate();
    let updated = crate::update::apply_user_fields(orig, &fields);
    let u = updated.public_view();
    let ghost gupd = updated;
    st.users[idx] = updated;
    proof {
        crate::update::lemma_user_update_fields(old(st).users@[idx as int], *req);
        lemma_update_user_row_wf(*old(st), *st, idx as int, gupd);
        let i = crate::store::user_index_with_id(old(st).users@, user_id);
        if i != idx as int {
            crate::store::lemma_user_ids_distinct(old(st).users@, i, idx as int);
        }
    }
    Result::Ok(u)
}

/// Partially updates a machine under a caller-supplied fresh API key
/// for the regenerate command: the outcome is an exact function of its
/// arguments. Only the administrator, only an existing machine id, only
/// the present fields; a clash of the resulting name, code, or key with
/// another row is a conflict. The updated row is re-read and handed
/// back, key included. On any error the store is untouched.
pub fn update_machine_with_key(
    st: &mut FleetStore,
    header: &Option<String>,
    machine_id: i64,
    req: &UpdateMachineRequest,
    fresh_key: Option<String>,
) -> (r: Result<MachineResponse, ApiError>)
    requires
        old(st).wf(),
        req.regenerate_api_key == Option::Some(true) ==> fresh_key is Some,
    ensures
        final(st).wf(),
        users_unchanged(*old(st), *final(st)),
        comments_unchanged(*old(st), *final(st)),
        history_unchanged(*old(st), *final(st)),
        final(st).admin_token == old(st).admin_token,
        final(st).next_machine_id == old(st).next_machine_id,
        r is Err ==> *final(st) == *old(st),
        ({
            let admin = spec_is_admin(*old(st), *header);
            let found = machine_id_exists(old(st).machines@, machine_id);
            let empty = crate::update::spec_build_machine_fields(*req, fresh_key).len() == 0;
            let i = machine_index_with_id(old(st).machines@, machine_id);
            let updated = crate::update::spec_machine_updated(
                old(st).machines@[i],
                *req,
                fresh_key,
            );
            let conflict = machine_name_taken(old(st).machines@, updated.name@, machine_id)
                || machine_code_taken(old(st).machines@, updated.code@, machine_id)
                || machine_key_taken(old(st).machines@, updated.api_key@, machine_id);
            &&& ((r matches Err(e) && e == ApiError::Unauthorized) <==> !admin)
            &&& ((r matches Err(e) && e == ApiError::NotFound) <==> (admin && !found))
            &&& ((r matches Err(e) && e == ApiError::NoFieldsProvided) <==> (admin && found
                && empty))
            &&& ((r matches Err(e) && e == ApiError::Conflict) <==> (admin && found && !empty
                && conflict))
            &&& ((r is Ok) <==> (admin && found && !empty && !conflict))
            &&& (r matches Ok(resp) ==> ({
                &&& final(st).machines@ == old(st).machines@.update(i, updated)
                &&& updated.id == machine_id
                &&& resp.id == machine_id
                &&& resp.name == updated.name
                &&& resp.code == updated.code
                &&& resp.api_key == updated.api_key
                &&& resp.location == updated.location
                &&& resp.machine_type == updated.machine_type
            }))
        }),
{
    match require_admin(st, header) {
        Result::Err(e) => {
            return Result::Err(e);
        },
        Result::Ok(()) => (),
    }
    let idx = match st.find_machine_by_id(machine_id) {
        Option::None => {
            return Result::Err(ApiError::NotFound);
        },
        Option::Some(i) => i,
    };
    proof {
        let i = machine_index_with_id(old(st).machines@, machine_id);
        if i != idx as int {
            crate::store::lemma_machine_ids_distinct(old(st).machines@, i, idx as int);
        }
    }
    let fields = match crate::update::build_machine_update(req, fresh_key) {
        Result::Err(e) => {
            return Result::Err(e);
        },
        Result::Ok(f) => f,
    };
    let orig = st.machines[idx].duplicate();
    let updated = crate::update::apply_machine_fields(orig, &fields);
    proof {
        crate::update::lemma_machine_update_fields(old(st).machines@[idx as int], *req, fresh_key);
    }
    if st.is_machine_name_taken(&updated.name, machine_id) || st.is_machine_code_taken(
        &updated.code,
        machine_id,
    ) || st.is_machine_key_taken(&updated.api_key, machine_id) {
        return Result::Err(ApiError::Conflict);
    }
    let resp = MachineResponse {
        id: updated.id,
        name: updated.name.clone(),
        code: updated.code.clone(),
        api_key: updated.api_key.clone(),
        location: clone_opt_string(&updated.location),
        machine_type: clone_opt_string(&updated.machine_type),
    };
    let ghost gupd = updated;
    st.machines[idx] = updated;
    proof {
        lemma_update_machine_row_wf(*old(st), *st, idx as int, gupd);
    }
    Result::Ok(resp)
}

/// Partially updates a machine, generating the fresh API key itself
/// when the regenerate command is present. Without that command the
/// outcome is exact; with it, the caller cannot predict the key, and
/// the clauses below state what holds of every key that may come back.
pub fn update_machine(
    st: &mut FleetStore,
    header: &Option<String>,
    machine_id: i64,
    req: &UpdateMachineRequest,
) -> (r: Result<MachineResponse, ApiError>)
    requires
        old(st).wf(),
    ensures
        final(st).wf(),
        users_unchanged(*old(st), *final(st)),
        comments_unchanged(*old(st), *final(st)),
        history_unchanged(*old(st), *final(st)),
        final(st).admin_token == old(st).admin_token,
        final(st).next_machine_id == old(st).next_machine_id,
        r is Err ==> *final(st) == *old(st),
        ({
            let admin = spec_is_admin(*old(st), *header);
            let found = machine_id_exists(old(st).machines@, machine_id);
            let empty = req.name is None && req.code is None && req.location is None
                && req.machine_type is None && req.regenerate_api_key != Option::Some(true);
            let i = machine_index_with_id(old(st).machines@, machine_id);
            let om = old(st).machines@[i];
            &&& ((r matches Err(e) && e == ApiError::Unauthorized) <==> !admin)
            &&& ((r matches Err(e) && e == ApiError::NotFound) <==> (admin && !found))
            &&& ((r matches Err(e) && e == ApiError::NoFieldsProvided) <==> (admin && found
                && empty))
            &&& (req.regenerate_api_key != Option::Some(true) ==> ({
                let updated = crate::update::spec_machine_updated(om, *req, Option::None);
                let conflict = machine_name_taken(old(st).machines@, updated.name@, machine_id)
                    || machine_code_taken(old(st).machines@, updated.code@, machine_id)
                    || machine_key_taken(old(st).machines@, updated.api_key@, machine_id);
                &&& ((r matches Err(e) && e == ApiError::Conflict) <==> (admin && found && !empty
                    && conflict))
                &&& ((r is Ok) <==> (admin && found && !empty && !conflict))
                &&& (r is Ok ==> final(st).machines@ == old(st).machines@.update(i, updated))
            }))
            &&& (({
                let updated0 = crate::update::spec_machine_updated(om, *req, Option::None);
                req.regenerate_api_key == Option::Some(true) && admin && found
                    && !machine_name_taken(old(st).machines@, updated0.name@, machine_id)
                    && !machine_code_taken(old(st).machines@, updated0.code@, machine_id)
                    && !machine_key_shape_taken(old(st).machines@, machine_id)
            }) ==> r is Ok)
            &&& (r matches Ok(resp) ==> ({
                let m = final(st).machines@[i];
                &&& admin && found && !empty
                &&& final(st).machines@ == old(st).machines@.update(i, m)
                &&& m.id == machine_id
                &&& m.name == (match req.name {
                    Option::Some(n) => n,
                    Option::None => om.name,
                })
                &&& m.code == (match req.code {
                    Option::Some(c) => c,
                    Option::None => om.code,
                })
                &&& m.location == (match req.location {
                    Option::Some(l) => Option::Some(l),
                    Option::None => om.location,
                })
                &&& m.machine_type == (match req.machine_type {
                    Option::Some(t) => Option::Some(t),
                    Option::None => om.machine_type,
                })
                &&& (req.regenerate_api_key == Option::Some(true) ==> has_prefix(
                    m.api_key@,
                    "machine_"@,
                ) && m.api_key@.len() == 40)
                &&& (req.regenerate_api_key != Option::Some(true) ==> m.api_key == om.api_key)
                &&& !machine_name_taken(old(st).machines@, m.name@, machine_id)
                &&& !machine_code_taken(old(st).machines@, m.code@, machine_id)
                &&& !machine_key_taken(old(st).machines@, m.api_key@, machine_id)
                &&& m.current_speed == om.current_speed
                &&& m.status_message == om.status_message
                &&& m.is_online == om.is_online
                &&& m.last_update == om.last_update
                &&& resp.id == machine_id
                &&& resp.name == m.name
                &&& resp.code == m.code
                &&& resp.api_key == m.api_key
                &&& resp.location == m.location
                &&& resp.machine_type == m.machine_type
            }))
        }),
{
    let regenerate = match req.regenerate_api_key {
        Option::Some(true) => true,
        _ => false,
    };
    let fresh_key: Option<String> = if regenerate {
        Option::Some(generate_machine_api_key())
    } else {
        Option::None
    };
    let ghost gkey = fresh_key;
    let r = update_machine_with_key(st, header, machine_id, req, fresh_key);
    proof {
        let i = machine_index_with_id(old(st).machines@, machine_id);
        if machine_id_exists(old(st).machines@, machine_id) {
            crate::update::lemma_machine_update_fields(
                old(st).machines@[i],
                *req,
                gkey,
            );
            if regenerate {
                let om = old(st).machines@[i];
                let updated = crate::update::spec_machine_updated(om, *req, gkey);
                if machine_key_taken(old(st).machines@, updated.api_key@, machine_id) {
                    let j = choose|j: int|
                        0 <= j < old(st).machines@.len() && (#[trigger] old(st).machines@[j].id)
                            != machine_id && old(st).machines@[j].api_key@ == updated.api_key@;
                    assert(machine_key_shape_taken(old(st).machines@, machine_id));
                }
                assert(crate::update::spec_build_machine_fields(*req, gkey).len() > 0);
            }
        }
    }
    r
}

} // verus!
