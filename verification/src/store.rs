//! The credential store: in-memory tables for machines, users,
//! maintenance comments, and speed history, with the unique-key
//! invariants a relational storage layer would enforce.
//!
//! Rows are append-only (machines and users are never deleted, comments
//! and history entries are immutable); ids are assigned from
//! monotonically increasing counters, so every table holds its rows in
//! strictly increasing id order.

use vstd::prelude::*;

use crate::models::{is_valid_priority, is_valid_role, HistoryEntry, Machine, MaintenanceComment, UserRecord};

verus! {

/// Machine rows stand in strictly increasing id order.
pub open spec fn machine_ids_increasing(s: Seq<Machine>) -> bool {
    forall|i: int, j: int| #![trigger s[i].id, s[j].id] 0 <= i < j < s.len() ==> s[i].id < s[j].id
}

/// User rows stand in strictly increasing id order.
pub open spec fn user_ids_increasing(s: Seq<UserRecord>) -> bool {
    forall|i: int, j: int| #![trigger s[i].id, s[j].id] 0 <= i < j < s.len() ==> s[i].id < s[j].id
}

/// Comment rows stand in strictly increasing id order.
pub open spec fn comment_ids_increasing(s: Seq<MaintenanceComment>) -> bool {
    forall|i: int, j: int| #![trigger s[i].id, s[j].id] 0 <= i < j < s.len() ==> s[i].id < s[j].id
}

/// History entries stand in strictly increasing id order: the id order
/// is the append order.
pub open spec fn entry_ids_increasing(s: Seq<HistoryEntry>) -> bool {
    forall|i: int, j: int| #![trigger s[i].entry_id, s[j].entry_id] 0 <= i < j < s.len() ==> s[i].entry_id < s[j].entry_id
}

/// No two machines share a name.
pub open spec fn machine_names_unique(s: Seq<Machine>) -> bool {
    forall|i: int, j: int| #![trigger s[i].name, s[j].name] 0 <= i < j < s.len() ==> s[i].name@ != s[j].name@
}

/// No two machines share a code.
pub open spec fn machine_codes_unique(s: Seq<Machine>) -> bool {
    forall|i: int, j: int| #![trigger s[i].code, s[j].code] 0 <= i < j < s.len() ==> s[i].code@ != s[j].code@
}

/// No two machines share an API key.
pub open spec fn machine_keys_unique(s: Seq<Machine>) -> bool {
    forall|i: int, j: int| #![trigger s[i].api_key, s[j].api_key] 0 <= i < j < s.len() ==> s[i].api_key@ != s[j].api_key@
}

/// No two users share a username.
pub open spec fn usernames_unique(s: Seq<UserRecord>) -> bool {
    forall|i: int, j: int| #![trigger s[i].username, s[j].username] 0 <= i < j < s.len() ==> s[i].username@ != s[j].username@
}

/// No two users share a session token.
pub open spec fn user_tokens_unique(s: Seq<UserRecord>) -> bool {
    forall|i: int, j: int| #![trigger s[i].token, s[j].token] 0 <= i < j < s.len() ==> s[i].token@ != s[j].token@
}

/// Every stored user's role lies in the recognized set.
pub open spec fn user_roles_valid(s: Seq<UserRecord>) -> bool {
    forall|i: int| 0 <= i < s.len() ==> is_valid_role((#[trigger] s[i]).role@)
}

/// Every stored comment's priority lies in the recognized set.
pub open spec fn comment_priorities_valid(s: Seq<MaintenanceComment>) -> bool {
    forall|i: int| 0 <= i < s.len() ==> is_valid_priority((#[trigger] s[i]).priority@)
}

/// Some machine row carries this id.
pub open spec fn machine_id_exists(s: Seq<Machine>, id: i64) -> bool {
    exists|i: int| 0 <= i < s.len() && (#[trigger] s[i].id) == id
}

/// The machine row carrying this id (meaningful when one exists).
pub open spec fn machine_with_id(s: Seq<Machine>, id: i64) -> Machine {
    s[choose|i: int| 0 <= i < s.len() && (#[trigger] s[i].id) == id]
}

/// Some machine row carries this API key.
pub open spec fn machine_key_exists(s: Seq<Machine>, key: Seq<char>) -> bool {
    exists|i: int| 0 <= i < s.len() && (#[trigger] s[i].api_key@) == key
}

/// The machine row carrying this API key (meaningful when one exists).
pub open spec fn machine_with_key(s: Seq<Machine>, key: Seq<char>) -> Machine {
    s[choose|i: int| 0 <= i < s.len() && (#[trigger] s[i].api_key@) == key]
}

/// The position of the machine row carrying this id (meaningful when
/// one exists).
pub open spec fn machine_index_with_id(s: Seq<Machine>, id: i64) -> int {
    choose|i: int| 0 <= i < s.len() && (#[trigger] s[i].id) == id
}

/// Some user row carries this id.
pub open spec fn user_id_exists(s: Seq<UserRecord>, id: i64) -> bool {
    exists|i: int| 0 <= i < s.len() && (#[trigger] s[i].id) == id
}

/// The position of the user row carrying this id (meaningful when one
/// exists).
pub open spec fn user_index_with_id(s: Seq<UserRecord>, id: i64) -> int {
    choose|i: int| 0 <= i < s.len() && (#[trigger] s[i].id) == id
}

/// The user row carrying this id (meaningful when one exists).
pub open spec fn user_with_id(s: Seq<UserRecord>, id: i64) -> UserRecord {
    s[choose|i: int| 0 <= i < s.len() && (#[trigger] s[i].id) == id]
}

/// Some user row carries this session token.
pub open spec fn user_token_exists(s: Seq<UserRecord>, token: Seq<char>) -> bool {
    exists|i: int| 0 <= i < s.len() && (#[trigger] s[i].token@) == token
}

/// The user row carrying this session token (meaningful when one
/// exists).
pub open spec fn user_with_token(s: Seq<UserRecord>, token: Seq<char>) -> UserRecord {
    s[choose|i: int| 0 <= i < s.len() && (#[trigger] s[i].token@) == token]
}

/// Some user row carries exactly these credentials.
pub open spec fn user_credentials_exist(
    s: Seq<UserRecord>,
    username: Seq<char>,
    password: Seq<char>,
) -> bool {
    exists|i: int|
        0 <= i < s.len() && (#[trigger] s[i].username@) == username && s[i].password@ == password
}

/// The user row carrying these credentials (meaningful when one exists).
pub open spec fn user_with_credentials(
    s: Seq<UserRecord>,
    username: Seq<char>,
    password: Seq<char>,
) -> UserRecord {
    s[choose|i: int|
        0 <= i < s.len() && (#[trigger] s[i].username@) == username && s[i].password@ == password]
}

/// A machine other than the one with id `skip_id` already carries this
/// name. Creation passes a `skip_id` no row carries.
pub open spec fn machine_name_taken(s: Seq<Machine>, name: Seq<char>, skip_id: i64) -> bool {
    exists|j: int| 0 <= j < s.len() && (#[trigger] s[j].id) != skip_id && s[j].name@ == name
}

/// A machine other than the one with id `skip_id` already carries this
/// code.
pub open spec fn machine_code_taken(s: Seq<Machine>, code: Seq<char>, skip_id: i64) -> bool {
    exists|j: int| 0 <= j < s.len() && (#[trigger] s[j].id) != skip_id && s[j].code@ == code
}

/// A machine other than the one with id `skip_id` already carries this
/// API key.
pub open spec fn machine_key_taken(s: Seq<Machine>, key: Seq<char>, skip_id: i64) -> bool {
    exists|j: int| 0 <= j < s.len() && (#[trigger] s[j].id) != skip_id && s[j].api_key@ == key
}

/// Some user already carries this username.
pub open spec fn username_taken(s: Seq<UserRecord>, username: Seq<char>) -> bool {
    exists|j: int| 0 <= j < s.len() && (#[trigger] s[j].username@) == username
}

/// Every comment references a machine row that exists.
pub open spec fn comments_reference_machines(
    comments: Seq<MaintenanceComment>,
    machines: Seq<Machine>,
) -> bool {
    forall|i: int|
        0 <= i < comments.len() ==> machine_id_exists(machines, #[trigger] comments[i].machine_id)
}

/// Every history entry references a machine row that exists.
pub open spec fn entries_reference_machines(
    entries: Seq<HistoryEntry>,
    machines: Seq<Machine>,
) -> bool {
    forall|i: int|
        0 <= i < entries.len() ==> machine_id_exists(machines, #[trigger] entries[i].machine_id)
}

/// The persisted state: four append-only tables, the id counters, and
/// the bootstrap admin sentinel token, seeded once at initialization.
pub struct FleetStore {
    /// The standing bootstrap credential; an exact match classifies as
    /// the administrator before any table is consulted.
    pub admin_token: String,
    pub machines: Vec<Machine>,
    pub users: Vec<UserRecord>,
    pub comments: Vec<MaintenanceComment>,
    pub history: Vec<HistoryEntry>,
    pub next_machine_id: i64,
    pub next_user_id: i64,
    pub next_comment_id: i64,
    pub next_entry_id: i64,
}

impl FleetStore {
    /// Well-formedness: rows in increasing id order below their
    /// counters, the unique-key constraints, and referential integrity
    /// of comments and history.
    pub open spec fn wf(&self) -> bool {
        &&& machine_ids_increasing(self.machines@)
        &&& user_ids_increasing(self.users@)
        &&& comment_ids_increasing(self.comments@)
        &&& entry_ids_increasing(self.history@)
        &&& forall|i: int|
            0 <= i < self.machines@.len() ==> 0 < (#[trigger] self.machines@[i].id)
                < self.next_machine_id
        &&& forall|i: int|
            0 <= i < self.users@.len() ==> 0 < (#[trigger] self.users@[i].id) < self.next_user_id
        &&& forall|i: int|
            0 <= i < self.comments@.len() ==> 0 < (#[trigger] self.comments@[i].id)
                < self.next_comment_id
        &&& forall|i: int|
            0 <= i < self.history@.len() ==> 0 < (#[trigger] self.history@[i].entry_id)
                < self.next_entry_id
        &&& self.next_machine_id >= 1
        &&& self.next_user_id >= 1
        &&& self.next_comment_id >= 1
        &&& self.next_entry_id >= 1
        &&& machine_names_unique(self.machines@)
        &&& machine_codes_unique(self.machines@)
        &&& machine_keys_unique(self.machines@)
        &&& usernames_unique(self.users@)
        &&& user_tokens_unique(self.users@)
        &&& user_roles_valid(self.users@)
        &&& comment_priorities_valid(self.comments@)
        &&& comments_reference_machines(self.comments@, self.machines@)
        &&& entries_reference_machines(self.history@, self.machines@)
    }

    /// Initializes the store and seeds the single bootstrap admin user
    /// with its fixed, well-known token, before anything else can reach
    /// the store.
    pub fn new() -> (st: FleetStore)
        ensures
            st.wf(),
            st.machines@.len() == 0,
            st.comments@.len() == 0,
            st.history@.len() == 0,
            st.admin_token@ == "admin_token_12345"@,
            st.users@.len() == 1,
            st.users@[0].id == 1,
            st.users@[0].username@ == "admin"@,
            st.users@[0].password@ == "admin123"@,
            st.users@[0].role@ == "admin"@,
            st.users@[0].token@ == "admin_token_12345"@,
            st.users@[0].is_active,
            st.next_machine_id == 1,
            st.next_user_id == 2,
            st.next_comment_id == 1,
            st.next_entry_id == 1,
    {
        let bootstrap = UserRecord {
            id: 1,
            username: "admin".to_owned(),
            password: "admin123".to_owned(),
            role: "admin".to_owned(),
            token: "admin_token_12345".to_owned(),
            is_active: true,
        };
        let mut users: Vec<UserRecord> = Vec::new();
        users.push(bootstrap);
        FleetStore {
            admin_token: "admin_token_12345".to_owned(),
            machines: Vec::new(),
            users,
            comments: Vec::new(),
            history: Vec::new(),
            next_machine_id: 1,
            next_user_id: 2,
            next_comment_id: 1,
            next_entry_id: 1,
        }
    }

    /// Point lookup of a machine by API key.
    pub fn find_machine_by_key(&self, key: &String) -> (r: Option<usize>)
        ensures
            match r {
                Option::Some(i) => i < self.machines@.len() && self.machines@[i as int].api_key@
                    == key@,
                Option::None => !machine_key_exists(self.machines@, key@),
            },
    {
        let mut i: usize = 0;
        while i < self.machines.len()
            invariant
                i <= self.machines@.len(),
                forall|j: int| 0 <= j < i ==> (#[trigger] self.machines@[j].api_key@) != key@,
            decreases self.machines@.len() - i,
        {
            if self.machines[i].api_key.eq(key) {
                return Option::Some(i);
            }
            i += 1;
        }
        Option::None
    }

    /// Point lookup of a machine by id.
    pub fn find_machine_by_id(&self, id: i64) -> (r: Option<usize>)
        ensures
            match r {
                Option::Some(i) => i < self.machines@.len() && self.machines@[i as int].id == id,
                Option::None => !machine_id_exists(self.machines@, id),
            },
    {
        let mut i: usize = 0;
        while i < self.machines.len()
            invariant
                i <= self.machines@.len(),
                forall|j: int| 0 <= j < i ==> (#[trigger] self.machines@[j].id) != id,
            decreases self.machines@.len() - i,
        {
            if self.machines[i].id == id {
                return Option::Some(i);
            }
            i += 1;
        }
        Option::None
    }

    /// Point lookup of a user by id.
    pub fn find_user_by_id(&self, id: i64) -> (r: Option<usize>)
        ensures
            match r {
                Option::Some(i) => i < self.users@.len() && self.users@[i as int].id == id,
                Option::None => !user_id_exists(self.users@, id),
            },
    {
        let mut i: usize = 0;
        while i < self.users.len()
            invariant
                i <= self.users@.len(),
                forall|j: int| 0 <= j < i ==> (#[trigger] self.users@[j].id) != id,
            decreases self.users@.len() - i,
        {
            if self.users[i].id == id {
                return Option::Some(i);
            }
            i += 1;
        }
        Option::None
    }

    /// Point lookup of a user by session token.
    pub fn find_user_by_token(&self, token: &String) -> (r: Option<usize>)
        ensures
            match r {
                Option::Some(i) => i < self.users@.len() && self.users@[i as int].token@ == token@,
                Option::None => !user_token_exists(self.users@, token@),
            },
    {
        let mut i: usize = 0;
        while i < self.users.len()
            invariant
                i <= self.users@.len(),
                forall|j: int| 0 <= j < i ==> (#[trigger] self.users@[j].token@) != token@,
            decreases self.users@.len() - i,
        {
            if self.users[i].token.eq(token) {
                return Option::Some(i);
            }
            i += 1;
        }
        Option::None
    }

    /// Point lookup of a user by exact credential equality.
    pub fn find_user_by_credentials(&self, username: &String, password: &String) -> (r: Option<
        usize,
    >)
        ensures
            match r {
                Option::Some(i) => i < self.users@.len() && self.users@[i as int].username@
                    == username@ && self.users@[i as int].password@ == password@,
                Option::None => !user_credentials_exist(self.users@, username@, password@),
            },
    {
        let mut i: usize = 0;
        while i < self.users.len()
            invariant
                i <= self.users@.len(),
                forall|j: int|
                    0 <= j < i ==> !((#[trigger] self.users@[j].username@) == username@
                        && self.users@[j].password@ == password@),
            decreases self.users@.len() - i,
        {
            if self.users[i].username.eq(username) && self.users[i].password.eq(password) {
                return Option::Some(i);
            }
            i += 1;
        }
        Option::None
    }

    /// Whether a machine other than the one with id `skip_id` already
    /// carries this name.
    pub fn is_machine_name_taken(&self, name: &String, skip_id: i64) -> (r: bool)
        ensures
            r == machine_name_taken(self.machines@, name@, skip_id),
    {
        let mut i: usize = 0;
        while i < self.machines.len()
            invariant
                i <= self.machines@.len(),
                forall|j: int|
                    0 <= j < i ==> !((#[trigger] self.machines@[j].id) != skip_id
                        && self.machines@[j].name@ == name@),
            decreases self.machines@.len() - i,
        {
            if self.machines[i].id != skip_id && self.machines[i].name.eq(name) {
                return true;
            }
            i += 1;
        }
        false
    }

    /// Whether a machine other than the one with id `skip_id` already
    /// carries this code.
    pub fn is_machine_code_taken(&self, code: &String, skip_id: i64) -> (r: bool)
        ensures
            r == machine_code_taken(self.machines@, code@, skip_id),
    {
        let mut i: usize = 0;
        while i < self.machines.len()
            invariant
                i <= self.machines@.len(),
                forall|j: int|
                    0 <= j < i ==> !((#[trigger] self.machines@[j].id) != skip_id
                        && self.machines@[j].code@ == code@),
            decreases self.machines@.len() - i,
        {
            if self.machines[i].id != skip_id && self.machines[i].code.eq(code) {
                return true;
            }
            i += 1;
        }
        false
    }

    /// Whether a machine other than the one with id `skip_id` already
    /// carries this API key.
    pub fn is_machine_key_taken(&self, key: &String, skip_id: i64) -> (r: bool)
        ensures
            r == machine_key_taken(self.machines@, key@, skip_id),
    {
        let mut i: usize = 0;
        while i < self.machines.len()
            invariant
                i <= self.machines@.len(),
                forall|j: int|
                    0 <= j < i ==> !((#[trigger] self.machines@[j].id) != skip_id
                        && self.machines@[j].api_key@ == key@),
            decreases self.machines@.len() - i,
        {
            if self.machines[i].id != skip_id && self.machines[i].api_key.eq(key) {
                return true;
            }
            i += 1;
        }
        false
    }

    /// Whether some user already carries this username.
    pub fn is_username_taken(&self, username: &String) -> (r: bool)
        ensures
            r == username_taken(self.users@, username@),
    {
        let mut i: usize = 0;
        while i < self.users.len()
            invariant
                i <= self.users@.len(),
                forall|j: int| 0 <= j < i ==> (#[trigger] self.users@[j].username@) != username@,
            decreases self.users@.len() - i,
        {
            if self.users[i].username.eq(username) {
                return true;
            }
            i += 1;
        }
        false
    }

    /// Whether some user already carries this session token.
    pub fn is_user_token_taken(&self, token: &String) -> (r: bool)
        ensures
            r == user_token_exists(self.users@, token@),
    {
        let mut i: usize = 0;
        while i < self.users.len()
            invariant
                i <= self.users@.len(),
                forall|j: int| 0 <= j < i ==> (#[trigger] self.users@[j].token@) != token@,
            decreases self.users@.len() - i,
        {
            if self.users[i].token.eq(token) {
                return true;
            }
            i += 1;
        }
        false
    }
}

/// Appending a machine row with a fresh id and untaken unique keys
/// preserves well-formedness.
pub proof fn lemma_push_machine_wf(pre: FleetStore, post: FleetStore, m: Machine)
    requires
        pre.wf(),
        post.machines@ == pre.machines@.push(m),
        m.id == pre.next_machine_id,
        pre.next_machine_id < i64::MAX,
        post.next_machine_id == pre.next_machine_id + 1,
        !machine_name_taken(pre.machines@, m.name@, 0),
        !machine_code_taken(pre.machines@, m.code@, 0),
        !machine_key_taken(pre.machines@, m.api_key@, 0),
        post.users@ == pre.users@,
        post.next_user_id == pre.next_user_id,
        post.comments@ == pre.comments@,
        post.next_comment_id == pre.next_comment_id,
        post.history@ == pre.history@,
        post.next_entry_id == pre.next_entry_id,
    ensures
        post.wf(),
{
    let oldm = pre.machines@;
    let newm = post.machines@;
    assert forall|i: int, j: int| #![trigger newm[i].id, newm[j].id]
        0 <= i < j < newm.len() implies newm[i].id < newm[j].id by {
        if j < oldm.len() {
            assert(newm[i] == oldm[i]);
            assert(newm[j] == oldm[j]);
        } else {
            assert(newm[i] == oldm[i]);
            assert(newm[j] == m);
            assert(0 < oldm[i].id < pre.next_machine_id);
        }
    }
    assert forall|i: int, j: int| #![trigger newm[i].name, newm[j].name]
        0 <= i < j < newm.len() implies newm[i].name@ != newm[j].name@ by {
        if j < oldm.len() {
            assert(newm[i] == oldm[i]);
            assert(newm[j] == oldm[j]);
        } else {
            assert(newm[i] == oldm[i]);
            assert(0 < oldm[i].id);
            assert(!(oldm[i].id != 0 && oldm[i].name@ == m.name@));
        }
    }
    assert forall|i: int, j: int| #![trigger newm[i].code, newm[j].code]
        0 <= i < j < newm.len() implies newm[i].code@ != newm[j].code@ by {
        if j < oldm.len() {
            assert(newm[i] == oldm[i]);
            assert(newm[j] == oldm[j]);
        } else {
            assert(newm[i] == oldm[i]);
            assert(0 < oldm[i].id);
            assert(!(oldm[i].id != 0 && oldm[i].code@ == m.code@));
        }
    }
    assert forall|i: int, j: int| #![trigger newm[i].api_key, newm[j].api_key]
        0 <= i < j < newm.len() implies newm[i].api_key@ != newm[j].api_key@ by {
        if j < oldm.len() {
            assert(newm[i] == oldm[i]);
            assert(newm[j] == oldm[j]);
        } else {
            assert(newm[i] == oldm[i]);
            assert(0 < oldm[i].id);
            assert(!(oldm[i].id != 0 && oldm[i].api_key@ == m.api_key@));
        }
    }
    assert forall|i: int| 0 <= i < newm.len() implies 0 < (#[trigger] newm[i].id)
        < post.next_machine_id by {
        if i < oldm.len() {
            assert(newm[i] == oldm[i]);
        }
    }
    assert forall|i: int|
        0 <= i < post.comments@.len() implies machine_id_exists(
        newm,
        #[trigger] post.comments@[i].machine_id,
    ) by {
        assert(machine_id_exists(oldm, pre.comments@[i].machine_id));
        let w = choose|w: int|
            0 <= w < oldm.len() && (#[trigger] oldm[w].id) == pre.comments@[i].machine_id;
        assert(newm[w] == oldm[w]);
    }
    assert forall|i: int|
        0 <= i < post.history@.len() implies machine_id_exists(
        newm,
        #[trigger] post.history@[i].machine_id,
    ) by {
        assert(machine_id_exists(oldm, pre.history@[i].machine_id));
        let w = choose|w: int|
            0 <= w < oldm.len() && (#[trigger] oldm[w].id) == pre.history@[i].machine_id;
        assert(newm[w] == oldm[w]);
    }
}

/// A machine row's own name, code, and key are taken by no other row.
pub proof fn lemma_own_keys_not_taken(st: FleetStore, idx: int)
    requires
        st.wf(),
        0 <= idx < st.machines@.len(),
    ensures
        !machine_name_taken(st.machines@, st.machines@[idx].name@, st.machines@[idx].id),
        !machine_code_taken(st.machines@, st.machines@[idx].code@, st.machines@[idx].id),
        !machine_key_taken(st.machines@, st.machines@[idx].api_key@, st.machines@[idx].id),
{
    let s = st.machines@;
    let own = s[idx];
    if machine_name_taken(s, own.name@, own.id) {
        let j = choose|j: int|
            0 <= j < s.len() && (#[trigger] s[j].id) != own.id && s[j].name@ == own.name@;
        if j < idx {
            assert(s[j].name@ != s[idx].name@);
        } else {
            assert(s[idx].name@ != s[j].name@);
        }
    }
    if machine_code_taken(s, own.code@, own.id) {
        let j = choose|j: int|
            0 <= j < s.len() && (#[trigger] s[j].id) != own.id && s[j].code@ == own.code@;
        if j < idx {
            assert(s[j].code@ != s[idx].code@);
        } else {
            assert(s[idx].code@ != s[j].code@);
        }
    }
    if machine_key_taken(s, own.api_key@, own.id) {
        let j = choose|j: int|
            0 <= j < s.len() && (#[trigger] s[j].id) != own.id && s[j].api_key@ == own.api_key@;
        if j < idx {
            assert(s[j].api_key@ != s[idx].api_key@);
        } else {
            assert(s[idx].api_key@ != s[j].api_key@);
        }
    }
}

/// Rows at distinct positions carry distinct ids.
pub proof fn lemma_machine_ids_distinct(s: Seq<Machine>, i: int, j: int)
    requires
        machine_ids_increasing(s),
        0 <= i < s.len(),
        0 <= j < s.len(),
        i != j,
    ensures
        s[i].id != s[j].id,
{
    if i < j {
        assert(s[i].id < s[j].id);
    } else {
        assert(s[j].id < s[i].id);
    }
}

/// User rows at distinct positions carry distinct ids.
pub proof fn lemma_user_ids_distinct(s: Seq<UserRecord>, i: int, j: int)
    requires
        user_ids_increasing(s),
        0 <= i < s.len(),
        0 <= j < s.len(),
        i != j,
    ensures
        s[i].id != s[j].id,
{
    if i < j {
        assert(s[i].id < s[j].id);
    } else {
        assert(s[j].id < s[i].id);
    }
}

/// Replacing one machine row by a row with the same id and untaken
/// unique keys preserves well-formedness.
pub proof fn lemma_update_machine_row_wf(pre: FleetStore, post: FleetStore, idx: int, m: Machine)
    requires
        pre.wf(),
        0 <= idx < pre.machines@.len(),
        m.id == pre.machines@[idx].id,
        post.machines@ == pre.machines@.update(idx, m),
        !machine_name_taken(pre.machines@, m.name@, m.id),
        !machine_code_taken(pre.machines@, m.code@, m.id),
        !machine_key_taken(pre.machines@, m.api_key@, m.id),
        post.next_machine_id == pre.next_machine_id,
        post.users@ == pre.users@,
        post.next_user_id == pre.next_user_id,
        post.comments@ == pre.comments@,
        post.next_comment_id == pre.next_comment_id,
        post.history@ == pre.history@,
        post.next_entry_id == pre.next_entry_id,
    ensures
        post.wf(),
{
    let oldm = pre.machines@;
    let newm = post.machines@;
    assert forall|i: int, j: int| #![trigger newm[i].id, newm[j].id]
        0 <= i < j < newm.len() implies newm[i].id < newm[j].id by {
        assert(oldm[i].id < oldm[j].id);
        assert(newm[i].id == oldm[i].id);
        assert(newm[j].id == oldm[j].id);
    }
    assert forall|i: int, j: int| #![trigger newm[i].name, newm[j].name]
        0 <= i < j < newm.len() implies newm[i].name@ != newm[j].name@ by {
        if i != idx && j != idx {
            assert(newm[i] == oldm[i]);
            assert(newm[j] == oldm[j]);
        } else {
            let other: int = if i == idx {
                j
            } else {
                i
            };
            lemma_machine_ids_distinct(oldm, idx, other);
            assert(!(oldm[other].id != m.id && oldm[other].name@ == m.name@));
            assert(newm[other] == oldm[other]);
        }
    }
    assert forall|i: int, j: int| #![trigger newm[i].code, newm[j].code]
        0 <= i < j < newm.len() implies newm[i].code@ != newm[j].code@ by {
        if i != idx && j != idx {
            assert(newm[i] == oldm[i]);
            assert(newm[j] == oldm[j]);
        } else {
            let other: int = if i == idx {
                j
            } else {
                i
            };
            lemma_machine_ids_distinct(oldm, idx, other);
            assert(!(oldm[other].id != m.id && oldm[other].code@ == m.code@));
            assert(newm[other] == oldm[other]);
        }
    }
    assert forall|i: int, j: int| #![trigger newm[i].api_key, newm[j].api_key]
        0 <= i < j < newm.len() implies newm[i].api_key@ != newm[j].api_key@ by {
        if i != idx && j != idx {
            assert(newm[i] == oldm[i]);
            assert(newm[j] == oldm[j]);
        } else {
            let other: int = if i == idx {
                j
            } else {
                i
            };
            lemma_machine_ids_distinct(oldm, idx, other);
            assert(!(oldm[other].id != m.id && oldm[other].api_key@ == m.api_key@));
            assert(newm[other] == oldm[other]);
        }
    }
    assert forall|i: int| 0 <= i < newm.len() implies 0 < (#[trigger] newm[i].id)
        < post.next_machine_id by {
        if i != idx {
            assert(newm[i] == oldm[i]);
        } else {
            assert(0 < oldm[idx].id < pre.next_machine_id);
        }
    }
    assert forall|i: int|
        0 <= i < post.comments@.len() implies machine_id_exists(
        newm,
        #[trigger] post.comments@[i].machine_id,
    ) by {
        assert(machine_id_exists(oldm, pre.comments@[i].machine_id));
        let w = choose|w: int|
            0 <= w < oldm.len() && (#[trigger] oldm[w].id) == pre.comments@[i].machine_id;
        assert(newm[w].id == oldm[w].id);
    }
    assert forall|i: int|
        0 <= i < post.history@.len() implies machine_id_exists(
        newm,
        #[trigger] post.history@[i].machine_id,
    ) by {
        assert(machine_id_exists(oldm, pre.history@[i].machine_id));
        let w = choose|w: int|
            0 <= w < oldm.len() && (#[trigger] oldm[w].id) == pre.history@[i].machine_id;
        assert(newm[w].id == oldm[w].id);
    }
}

/// Appending a user row with a fresh id, an untaken username, and an
/// untaken token preserves well-formedness.
pub proof fn lemma_push_user_wf(pre: FleetStore, post: FleetStore, u: UserRecord)
    requires
        pre.wf(),
        post.users@ == pre.users@.push(u),
        u.id == pre.next_user_id,
        pre.next_user_id < i64::MAX,
        post.next_user_id == pre.next_user_id + 1,
        !username_taken(pre.users@, u.username@),
        !user_token_exists(pre.users@, u.token@),
        is_valid_role(u.role@),
        post.machines@ == pre.machines@,
        post.next_machine_id == pre.next_machine_id,
        post.comments@ == pre.comments@,
        post.next_comment_id == pre.next_comment_id,
        post.history@ == pre.history@,
        post.next_entry_id == pre.next_entry_id,
    ensures
        post.wf(),
{
    let oldu = pre.users@;
    let newu = post.users@;
    assert forall|i: int, j: int| #![trigger newu[i].id, newu[j].id]
        0 <= i < j < newu.len() implies newu[i].id < newu[j].id by {
        if j < oldu.len() {
            assert(newu[i] == oldu[i]);
            assert(newu[j] == oldu[j]);
        } else {
            assert(newu[i] == oldu[i]);
            assert(0 < oldu[i].id < pre.next_user_id);
        }
    }
    assert forall|i: int, j: int| #![trigger newu[i].username, newu[j].username]
        0 <= i < j < newu.len() implies newu[i].username@ != newu[j].username@ by {
        if j < oldu.len() {
            assert(newu[i] == oldu[i]);
            assert(newu[j] == oldu[j]);
        } else {
            assert(newu[i] == oldu[i]);
            assert(!(oldu[i].username@ == u.username@));
        }
    }
    assert forall|i: int, j: int| #![trigger newu[i].token, newu[j].token]
        0 <= i < j < newu.len() implies newu[i].token@ != newu[j].token@ by {
        if j < oldu.len() {
            assert(newu[i] == oldu[i]);
            assert(newu[j] == oldu[j]);
        } else {
            assert(newu[i] == oldu[i]);
            assert(!(oldu[i].token@ == u.token@));
        }
    }
    assert forall|i: int| 0 <= i < newu.len() implies 0 < (#[trigger] newu[i].id)
        < post.next_user_id by {
        if i < oldu.len() {
            assert(newu[i] == oldu[i]);
        }
    }
    assert forall|i: int| 0 <= i < newu.len() implies is_valid_role(
        (#[trigger] newu[i]).role@,
    ) by {
        if i < oldu.len() {
            assert(newu[i] == oldu[i]);
        }
    }
}

/// Replacing one user row by a row with the same id, username, and
/// token preserves well-formedness.
pub proof fn lemma_update_user_row_wf(pre: FleetStore, post: FleetStore, idx: int, u: UserRecord)
    requires
        pre.wf(),
        0 <= idx < pre.users@.len(),
        u.id == pre.users@[idx].id,
        u.username == pre.users@[idx].username,
        u.token == pre.users@[idx].token,
        is_valid_role(u.role@),
        post.users@ == pre.users@.update(idx, u),
        post.next_user_id == pre.next_user_id,
        post.machines@ == pre.machines@,
        post.next_machine_id == pre.next_machine_id,
        post.comments@ == pre.comments@,
        post.next_comment_id == pre.next_comment_id,
        post.history@ == pre.history@,
        post.next_entry_id == pre.next_entry_id,
    ensures
        post.wf(),
{
    let oldu = pre.users@;
    let newu = post.users@;
    assert forall|i: int, j: int| #![trigger newu[i].id, newu[j].id]
        0 <= i < j < newu.len() implies newu[i].id < newu[j].id by {
        assert(oldu[i].id < oldu[j].id);
        assert(newu[i].id == oldu[i].id);
        assert(newu[j].id == oldu[j].id);
    }
    assert forall|i: int, j: int| #![trigger newu[i].username, newu[j].username]
        0 <= i < j < newu.len() implies newu[i].username@ != newu[j].username@ by {
        assert(oldu[i].username@ != oldu[j].username@);
        assert(newu[i].username == oldu[i].username);
        assert(newu[j].username == oldu[j].username);
    }
    assert forall|i: int, j: int| #![trigger newu[i].token, newu[j].token]
        0 <= i < j < newu.len() implies newu[i].token@ != newu[j].token@ by {
        assert(oldu[i].token@ != oldu[j].token@);
        assert(newu[i].token == oldu[i].token);
        assert(newu[j].token == oldu[j].token);
    }
    assert forall|i: int| 0 <= i < newu.len() implies 0 < (#[trigger] newu[i].id)
        < post.next_user_id by {
        assert(newu[i].id == oldu[i].id);
    }
    assert forall|i: int| 0 <= i < newu.len() implies is_valid_role(
        (#[trigger] newu[i]).role@,
    ) by {
        if i != idx {
            assert(newu[i] == oldu[i]);
        }
    }
}

/// Appending a comment row with a fresh id that references an existing
/// machine preserves well-formedness.
pub proof fn lemma_push_comment_wf(pre: FleetStore, post: FleetStore, c: MaintenanceComment)
    requires
        pre.wf(),
        post.comments@ == pre.comments@.push(c),
        c.id == pre.next_comment_id,
        pre.next_comment_id < i64::MAX,
        post.next_comment_id == pre.next_comment_id + 1,
        machine_id_exists(pre.machines@, c.machine_id),
        is_valid_priority(c.priority@),
        post.machines@ == pre.machines@,
        post.next_machine_id == pre.next_machine_id,
        post.users@ == pre.users@,
        post.next_user_id == pre.next_user_id,
        post.history@ == pre.history@,
        post.next_entry_id == pre.next_entry_id,
    ensures
        post.wf(),
{
    let oldc = pre.comments@;
    let newc = post.comments@;
    assert forall|i: int, j: int| #![trigger newc[i].id, newc[j].id]
        0 <= i < j < newc.len() implies newc[i].id < newc[j].id by {
        if j < oldc.len() {
            assert(newc[i] == oldc[i]);
            assert(newc[j] == oldc[j]);
        } else {
            assert(newc[i] == oldc[i]);
            assert(0 < oldc[i].id < pre.next_comment_id);
        }
    }
    assert forall|i: int| 0 <= i < newc.len() implies 0 < (#[trigger] newc[i].id)
        < post.next_comment_id by {
        if i < oldc.len() {
            assert(newc[i] == oldc[i]);
        }
    }
    assert forall|i: int|
        0 <= i < newc.len() implies machine_id_exists(
        post.machines@,
        #[trigger] newc[i].machine_id,
    ) by {
        if i < oldc.len() {
            assert(newc[i] == oldc[i]);
        }
    }
    assert forall|i: int| 0 <= i < newc.len() implies is_valid_priority(
        (#[trigger] newc[i]).priority@,
    ) by {
        if i < oldc.len() {
            assert(newc[i] == oldc[i]);
        }
    }
}

/// Appending a history entry with a fresh id that references an
/// existing machine preserves well-formedness.
pub proof fn lemma_push_history_wf(pre: FleetStore, post: FleetStore, e: HistoryEntry)
    requires
        pre.wf(),
        post.history@ == pre.history@.push(e),
        e.entry_id == pre.next_entry_id,
        pre.next_entry_id < i64::MAX,
        post.next_entry_id == pre.next_entry_id + 1,
        machine_id_exists(pre.machines@, e.machine_id),
        post.machines@ == pre.machines@,
        post.next_machine_id == pre.next_machine_id,
        post.users@ == pre.users@,
        post.next_user_id == pre.next_user_id,
        post.comments@ == pre.comments@,
        post.next_comment_id == pre.next_comment_id,
    ensures
        post.wf(),
{
    let oldh = pre.history@;
    let newh = post.history@;
    assert forall|i: int, j: int| #![trigger newh[i].entry_id, newh[j].entry_id]
        0 <= i < j < newh.len() implies newh[i].entry_id < newh[j].entry_id by {
        if j < oldh.len() {
            assert(newh[i] == oldh[i]);
            assert(newh[j] == oldh[j]);
        } else {
            assert(newh[i] == oldh[i]);
            assert(0 < oldh[i].entry_id < pre.next_entry_id);
        }
    }
    assert forall|i: int| 0 <= i < newh.len() implies 0 < (#[trigger] newh[i].entry_id)
        < post.next_entry_id by {
        if i < oldh.len() {
            assert(newh[i] == oldh[i]);
        }
    }
    assert forall|i: int|
        0 <= i < newh.len() implies machine_id_exists(
        post.machines@,
        #[trigger] newh[i].machine_id,
    ) by {
        if i < oldh.len() {
            assert(newh[i] == oldh[i]);
        }
    }
}

} // verus!
