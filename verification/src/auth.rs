//! Token classification and credential checks.
//!
//! Every request resolves its bearer token to exactly one identity
//! class before anything else happens. The rules apply in a fixed,
//! security-relevant order: the admin sentinel first, then the machine
//! key namespace, then user session tokens; a token that matches none
//! is unauthenticated.

use vstd::prelude::*;
use vstd::string::{StrSliceExecFns, StringExecFns};

use crate::models::User;
use crate::store::{
    machine_key_exists, machine_with_key, user_credentials_exist, user_token_exists,
    user_with_credentials, user_with_token, FleetStore,
};

verus! {

/// A classified identity: the administrator, a human user (by
/// username), or a machine (by machine id).
#[derive(Debug)]
pub enum AuthResult {
    Admin,
    User(String),
    Machine(i64),
}

/// `p` is a prefix of `s`.
pub open spec fn has_prefix(s: Seq<char>, p: Seq<char>) -> bool {
    s.len() >= p.len() && s.subrange(0, p.len() as int) == p
}

/// Whether `p` is a prefix of `s`, by character comparison.
pub fn str_has_prefix(s: &String, p: &str) -> (r: bool)
    ensures
        r == has_prefix(s@, p@),
{
    let n = p.unicode_len();
    if s.as_str().unicode_len() < n {
        return false;
    }
    let mut i: usize = 0;
    while i < n
        invariant
            n == p@.len(),
            s@.len() >= n,
            i <= n,
            forall|j: int| 0 <= j < i ==> s@[j] == p@[j],
        decreases n - i,
    {
        if s.as_str().get_char(i) != p.get_char(i) {
            proof {
                if s@.subrange(0, p@.len() as int) == p@ {
                    assert(s@.subrange(0, p@.len() as int)[i as int] == s@[i as int]);
                }
            }
            return false;
        }
        i += 1;
    }
    proof {
        assert(s@.subrange(0, p@.len() as int) =~= p@);
    }
    true
}

/// Whether `s` holds exactly the text `t`.
pub fn str_is(s: &String, t: &str) -> (r: bool)
    ensures
        r == (s@ == t@),
{
    let n = t.unicode_len();
    if s.as_str().unicode_len() != n {
        return false;
    }
    let p = str_has_prefix(s, t);
    proof {
        assert(s@.subrange(0, t@.len() as int) =~= s@);
    }
    p
}

/// What a bearer header yields: the token after the `Bearer ` marker,
/// or nothing when the header is absent or shaped otherwise.
pub open spec fn spec_extract_token(header: Option<String>) -> Option<Seq<char>> {
    match header {
        Option::None => Option::None,
        Option::Some(h) => if has_prefix(h@, "Bearer "@) {
            Option::Some(h@.skip("Bearer "@.len() as int))
        } else {
            Option::None
        },
    }
}

/// Pulls the bearer token out of an authorization header value.
pub fn extract_token(header: &Option<String>) -> (r: Option<String>)
    ensures
        (r is Some) == (spec_extract_token(*header) is Some),
        r matches Some(t) ==> spec_extract_token(*header) matches Some(s) && t@ == s,
{
    match header {
        Option::None => Option::None,
        Option::Some(h) => {
            if str_has_prefix(h, "Bearer ") {
                let n = "Bearer ".unicode_len();
                let len = h.as_str().unicode_len();
                let rest = h.as_str().substring_char(n, len);
                proof {
                    assert(rest@ =~= h@.skip("Bearer "@.len() as int));
                }
                Option::Some(rest.to_owned())
            } else {
                Option::None
            }
        },
    }
}

/// The classification of a bearer token against the store, in strict
/// rule order: the admin sentinel wins over everything; a token in the
/// machine-key namespace resolves by exact API-key equality; a
/// structural miss there falls through to the user-token lookup; and a
/// token matching nothing is unauthenticated.
pub open spec fn spec_classify(st: FleetStore, token: Seq<char>) -> Option<AuthResult> {
    if token == st.admin_token@ {
        Option::Some(AuthResult::Admin)
    } else if has_prefix(token, "machine_"@) && machine_key_exists(st.machines@, token) {
        Option::Some(AuthResult::Machine(machine_with_key(st.machines@, token).id))
    } else if user_token_exists(st.users@, token) {
        Option::Some(AuthResult::User(user_with_token(st.users@, token).username))
    } else {
        Option::None
    }
}

/// Resolves a bearer token to exactly one identity class, re-querying
/// the store on every call so that a revoked credential loses effect on
/// the very next request.
pub fn validate_token(token: &String, st: &FleetStore) -> (r: Option<AuthResult>)
    requires
        st.wf(),
    ensures
        r == spec_classify(*st, token@),
{
    if token.eq(&st.admin_token) {
        return Option::Some(AuthResult::Admin);
    }
    if str_has_prefix(token, "machine_") {
        match st.find_machine_by_key(token) {
            Option::Some(i) => {
                proof {
                    assert(machine_key_exists(st.machines@, token@));
                    let j = choose|j: int|
                        0 <= j < st.machines@.len() && (#[trigger] st.machines@[j].api_key@)
                            == token@;
                    if j < i as int {
                        assert(st.machines@[j].api_key@ != st.machines@[i as int].api_key@);
                    }
                    if (i as int) < j {
                        assert(st.machines@[i as int].api_key@ != st.machines@[j].api_key@);
                    }
                }
                return Option::Some(AuthResult::Machine(st.machines[i].id));
            },
            Option::None => {},
        }
    }
    match st.find_user_by_token(token) {
        Option::Some(i) => {
            proof {
                assert(user_token_exists(st.users@, token@));
                let j = choose|j: int|
                    0 <= j < st.users@.len() && (#[trigger] st.users@[j].token@) == token@;
                if j < i as int {
                    assert(st.users@[j].token@ != st.users@[i as int].token@);
                }
                if (i as int) < j {
                    assert(st.users@[i as int].token@ != st.users@[j].token@);
                }
            }
            Option::Some(AuthResult::User(st.users[i].username.clone()))
        },
        Option::None => Option::None,
    }
}

/// What the credential check yields: the public view of the single user
/// row matching both the username and the password, if there is one.
pub open spec fn spec_authenticate(st: FleetStore, username: Seq<char>, password: Seq<char>) -> Option<User> {
    if user_credentials_exist(st.users@, username, password) {
        Option::Some(user_with_credentials(st.users@, username, password).spec_public_view())
    } else {
        Option::None
    }
}

/// Checks a username/password pair by exact equality against the user
/// table and hands back the matching row's public view.
pub fn authenticate_user(username: &String, password: &String, st: &FleetStore) -> (r: Option<User>)
    requires
        st.wf(),
    ensures
        r == spec_authenticate(*st, username@, password@),
{
    match st.find_user_by_credentials(username, password) {
        Option::Some(i) => {
            proof {
                assert(user_credentials_exist(st.users@, username@, password@));
                let j = choose|j: int|
                    0 <= j < st.users@.len() && (#[trigger] st.users@[j].username@) == username@
                        && st.users@[j].password@ == password@;
                if j < i as int {
                    assert(st.users@[j].username@ != st.users@[i as int].username@);
                }
                if (i as int) < j {
                    assert(st.users@[i as int].username@ != st.users@[j].username@);
                }
            }
            Option::Some(st.users[i].public_view())
        },
        Option::None => Option::None,
    }
}

/// Relies on uuid's `Uuid::new_v4` with simple formatting: a fresh
/// random credential body of exactly 32 hexadecimal digits. Nothing is
/// assumed about which digits come back.
#[verifier::external_body]
fn fresh_credential_digits() -> (r: String)
    ensures
        r@.len() == 32,
{
    uuid::Uuid::new_v4().simple().to_string()
}

/// A fresh machine credential: the machine namespace prefix followed by
/// 32 freshly drawn hexadecimal digits.
pub fn generate_machine_api_key() -> (r: String)
    ensures
        r@.len() == 40,
        has_prefix(r@, "machine_"@),
{
    let mut key: String = "machine_".to_owned();
    let digits = fresh_credential_digits();
    key.append(digits.as_str());
    proof {
        reveal_strlit("machine_");
        assert(key@.subrange(0, "machine_"@.len() as int) =~= "machine_"@);
    }
    key
}

/// A fresh user session token: the user namespace prefix followed by 32
/// freshly drawn hexadecimal digits.
pub fn generate_user_token() -> (r: String)
    ensures
        r@.len() == 37,
        has_prefix(r@, "user_"@),
{
    let mut token: String = "user_".to_owned();
    let digits = fresh_credential_digits();
    token.append(digits.as_str());
    proof {
        reveal_strlit("user_");
        assert(token@.subrange(0, "user_"@.len() as int) =~= "user_"@);
    }
    token
}

/// Law: classification yields exactly one of the four outcomes, and an
/// exact match of the admin sentinel always takes precedence over the
/// machine-key and user-token lookups, even when a machine row or a
/// user row carries that very literal as its own credential.
pub proof fn lemma_classify_one_of_four(st: FleetStore, token: Seq<char>)
    ensures
        spec_classify(st, token) == Option::Some(AuthResult::Admin) <==> token == st.admin_token@,
        spec_classify(st, token) matches Some(AuthResult::Machine(id)) ==> token != st.admin_token@
            && has_prefix(token, "machine_"@) && machine_key_exists(st.machines@, token) && id
            == machine_with_key(st.machines@, token).id,
        spec_classify(st, token) matches Some(AuthResult::User(u)) ==> token != st.admin_token@
            && !(has_prefix(token, "machine_"@) && machine_key_exists(st.machines@, token))
            && user_token_exists(st.users@, token) && u == user_with_token(
            st.users@,
            token,
        ).username,
        spec_classify(st, token) is None <==> (token != st.admin_token@ && !(has_prefix(
            token,
            "machine_"@,
        ) && machine_key_exists(st.machines@, token)) && !user_token_exists(st.users@, token)),
{
}

} // verus!
