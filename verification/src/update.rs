//! The partial-update engine.
//!
//! An update request is an explicit optional-field struct; each present
//! field is validated and projected into a typed assignment, and the
//! typed assignment list is what reaches the store — never a textual
//! statement. An empty assignment list is rejected before anything is
//! touched; the one command-shaped field, `regenerate_api_key`,
//! substitutes a caller-supplied fresh credential for the stored key.

use vstd::prelude::*;

use crate::models::{is_valid_role, ApiError, Machine, UpdateMachineRequest, UpdateUserRequest, UserRecord};

verus! {

/// A typed assignment to one machine column.
pub enum MachineField {
    Name(String),
    Code(String),
    Location(String),
    MachineType(String),
    ApiKey(String),
}

/// A typed assignment to one user column.
pub enum UserField {
    Password(String),
    Role(String),
    IsActive(bool),
}

/// The assignment list a machine update projects to, in field order;
/// the API-key assignment carries the caller-supplied fresh credential.
pub open spec fn spec_build_machine_fields(
    req: UpdateMachineRequest,
    fresh_key: Option<String>,
) -> Seq<MachineField> {
    (match req.name {
        Option::Some(n) => seq![MachineField::Name(n)],
        Option::None => Seq::empty(),
    }) + (match req.code {
        Option::Some(c) => seq![MachineField::Code(c)],
        Option::None => Seq::empty(),
    }) + (match req.location {
        Option::Some(l) => seq![MachineField::Location(l)],
        Option::None => Seq::empty(),
    }) + (match req.machine_type {
        Option::Some(t) => seq![MachineField::MachineType(t)],
        Option::None => Seq::empty(),
    }) + (if req.regenerate_api_key == Option::Some(true) {
        match fresh_key {
            Option::Some(k) => seq![MachineField::ApiKey(k)],
            Option::None => Seq::empty(),
        }
    } else {
        Seq::empty()
    })
}

/// Validates and projects a machine update into its assignment list,
/// rejecting an empty update before any storage is touched.
pub fn build_machine_update(req: &UpdateMachineRequest, fresh_key: Option<String>) -> (r: Result<
    Vec<MachineField>,
    ApiError,
>)
    requires
        req.regenerate_api_key == Option::Some(true) ==> fresh_key is Some,
    ensures
        (r is Err) <==> spec_build_machine_fields(*req, fresh_key).len() == 0,
        r matches Err(e) ==> e == ApiError::NoFieldsProvided,
        r matches Ok(fields) ==> fields@ == spec_build_machine_fields(*req, fresh_key),
{
    let mut fields: Vec<MachineField> = Vec::new();
    match &req.name {
        Option::Some(n) => fields.push(MachineField::Name(n.clone())),
        Option::None => (),
    }
    match &req.code {
        Option::Some(c) => fields.push(MachineField::Code(c.clone())),
        Option::None => (),
    }
    match &req.location {
        Option::Some(l) => fields.push(MachineField::Location(l.clone())),
        Option::None => (),
    }
    match &req.machine_type {
        Option::Some(t) => fields.push(MachineField::MachineType(t.clone())),
        Option::None => (),
    }
    let regenerate = match req.regenerate_api_key {
        Option::Some(true) => true,
        _ => false,
    };
    if regenerate {
        match fresh_key {
            Option::Some(k) => fields.push(MachineField::ApiKey(k)),
            Option::None => (),
        }
    }
    proof {
        assert(fields@ =~= spec_build_machine_fields(*req, fresh_key));
    }
    if fields.len() == 0 {
        Result::Err(ApiError::NoFieldsProvided)
    } else {
        Result::Ok(fields)
    }
}

/// The assignment list a user update projects to, in field order.
pub open spec fn spec_build_user_fields(req: UpdateUserRequest) -> Seq<UserField> {
    (match req.password {
        Option::Some(p) => seq![UserField::Password(p)],
        Option::None => Seq::empty(),
    }) + (match req.role {
        Option::Some(ro) => seq![UserField::Role(ro)],
        Option::None => Seq::empty(),
    }) + (match req.is_active {
        Option::Some(a) => seq![UserField::IsActive(a)],
        Option::None => Seq::empty(),
    })
}

/// Validates and projects a user update into its assignment list: a
/// role outside the enumerated three is rejected as an invalid field
/// value, and an empty update is rejected before any storage is
/// touched.
pub fn build_user_update(req: &UpdateUserRequest) -> (r: Result<Vec<UserField>, ApiError>)
    ensures
        r matches Ok(fields) ==> fields@ == spec_build_user_fields(*req) && fields@.len() > 0 && (
        req.role matches Some(ro) ==> is_valid_role(ro@)),
        r == Result::<Vec<UserField>, ApiError>::Err(ApiError::InvalidFieldValue) <==> (
        req.role matches Some(ro) && !is_valid_role(ro@)),
        r == Result::<Vec<UserField>, ApiError>::Err(ApiError::NoFieldsProvided) <==> ((
        req.role matches Some(ro) ==> is_valid_role(ro@)) && spec_build_user_fields(*req).len()
            == 0),
        r is Err ==> (r == Result::<Vec<UserField>, ApiError>::Err(ApiError::InvalidFieldValue)
            || r == Result::<Vec<UserField>, ApiError>::Err(ApiError::NoFieldsProvided)),
{
    match &req.role {
        Option::Some(ro) => {
            if !crate::auth::str_is(ro, "admin") && !crate::auth::str_is(ro, "manager")
                && !crate::auth::str_is(ro, "technician") {
                return Result::Err(ApiError::InvalidFieldValue);
            }
        },
        Option::None => (),
    }
    let mut fields: Vec<UserField> = Vec::new();
    match &req.password {
        Option::Some(p) => fields.push(UserField::Password(p.clone())),
        Option::None => (),
    }
    match &req.role {
        Option::Some(ro) => fields.push(UserField::Role(ro.clone())),
        Option::None => (),
    }
    match &req.is_active {
        Option::Some(a) => fields.push(UserField::IsActive(*a)),
        Option::None => (),
    }
    proof {
        assert(fields@ =~= spec_build_user_fields(*req));
    }
    if fields.len() == 0 {
        Result::Err(ApiError::NoFieldsProvided)
    } else {
        Result::Ok(fields)
    }
}

/// One assignment applied to a machine row.
pub open spec fn spec_apply_machine_field(m: Machine, f: MachineField) -> Machine {
    match f {
        MachineField::Name(n) => Machine { name: n, ..m },
        MachineField::Code(c) => Machine { code: c, ..m },
        MachineField::Location(l) => Machine { location: Option::Some(l), ..m },
        MachineField::MachineType(t) => Machine { machine_type: Option::Some(t), ..m },
        MachineField::ApiKey(k) => Machine { api_key: k, ..m },
    }
}

/// An assignment list applied to a machine row, left to right.
pub open spec fn spec_apply_machine_fields(m: Machine, fs: Seq<MachineField>) -> Machine
    decreases fs.len(),
{
    if fs.len() == 0 {
        m
    } else {
        spec_apply_machine_field(spec_apply_machine_fields(m, fs.drop_last()), fs.last())
    }
}

/// Applies an assignment list to a machine row.
pub fn apply_machine_fields(m: Machine, fields: &Vec<MachineField>) -> (r: Machine)
    ensures
        r == spec_apply_machine_fields(m, fields@),
{
    let ghost m0 = m;
    let mut cur = m;
    let mut i: usize = 0;
    proof {
        assert(fields@.take(0) =~= Seq::<MachineField>::empty());
    }
    while i < fields.len()
        invariant
            i <= fields@.len(),
            cur == spec_apply_machine_fields(m0, fields@.take(i as int)),
        decreases fields@.len() - i,
    {
        match &fields[i] {
            MachineField::Name(n) => {
                cur.name = n.clone();
            },
            MachineField::Code(c) => {
                cur.code = c.clone();
            },
            MachineField::Location(l) => {
                cur.location = Option::Some(l.clone());
            },
            MachineField::MachineType(t) => {
                cur.machine_type = Option::Some(t.clone());
            },
            MachineField::ApiKey(k) => {
                cur.api_key = k.clone();
            },
        }
        proof {
            assert(fields@.take(i + 1 as int).drop_last() =~= fields@.take(i as int));
            assert(fields@.take(i + 1 as int).last() == fields@[i as int]);
        }
        i += 1;
    }
    proof {
        assert(fields@.take(fields@.len() as int) =~= fields@);
    }
    cur
}

/// One assignment applied to a user row.
pub open spec fn spec_apply_user_field(u: UserRecord, f: UserField) -> UserRecord {
    match f {
        UserField::Password(p) => UserRecord { password: p, ..u },
        UserField::Role(ro) => UserRecord { role: ro, ..u },
        UserField::IsActive(a) => UserRecord { is_active: a, ..u },
    }
}

/// An assignment list applied to a user row, left to right.
pub open spec fn spec_apply_user_fields(u: UserRecord, fs: Seq<UserField>) -> UserRecord
    decreases fs.len(),
{
    if fs.len() == 0 {
        u
    } else {
        spec_apply_user_field(spec_apply_user_fields(u, fs.drop_last()), fs.last())
    }
}

/// Applies an assignment list to a user row.
pub fn apply_user_fields(u: UserRecord, fields: &Vec<UserField>) -> (r: UserRecord)
    ensures
        r == spec_apply_user_fields(u, fields@),
{
    let ghost u0 = u;
    let mut cur = u;
    let mut i: usize = 0;
    proof {
        assert(fields@.take(0) =~= Seq::<UserField>::empty());
    }
    while i < fields.len()
        invariant
            i <= fields@.len(),
            cur == spec_apply_user_fields(u0, fields@.take(i as int)),
        decreases fields@.len() - i,
    {
        match &fields[i] {
            UserField::Password(p) => {
                cur.password = p.clone();
            },
            UserField::Role(ro) => {
                cur.role = ro.clone();
            },
            UserField::IsActive(a) => {
                cur.is_active = *a;
            },
        }
        proof {
            assert(fields@.take(i + 1 as int).drop_last() =~= fields@.take(i as int));
            assert(fields@.take(i + 1 as int).last() == fields@[i as int]);
        }
        i += 1;
    }
    proof {
        assert(fields@.take(fields@.len() as int) =~= fields@);
    }
    cur
}

/// The machine row a partial update yields, stated field by field: a
/// present field replaces the column, an absent one leaves it alone,
/// and the regenerate command substitutes the supplied fresh key. The
/// identity and the live-state columns are never touched.
pub open spec fn spec_machine_updated(
    m: Machine,
    req: UpdateMachineRequest,
    new_key: Option<String>,
) -> Machine {
    Machine {
        name: (match req.name {
            Option::Some(n) => n,
            Option::None => m.name,
        }),
        code: (match req.code {
            Option::Some(c) => c,
            Option::None => m.code,
        }),
        location: (match req.location {
            Option::Some(l) => Option::Some(l),
            Option::None => m.location,
        }),
        machine_type: (match req.machine_type {
            Option::Some(t) => Option::Some(t),
            Option::None => m.machine_type,
        }),
        api_key: (if req.regenerate_api_key == Option::Some(true) {
            match new_key {
                Option::Some(k) => k,
                Option::None => m.api_key,
            }
        } else {
            m.api_key
        }),
        ..m
    }
}

/// The user row a partial update yields, stated field by field. The
/// identity, username, and token are never touched.
pub open spec fn spec_user_updated(u: UserRecord, req: UpdateUserRequest) -> UserRecord {
    UserRecord {
        password: (match req.password {
            Option::Some(p) => p,
            Option::None => u.password,
        }),
        role: (match req.role {
            Option::Some(ro) => ro,
            Option::None => u.role,
        }),
        is_active: (match req.is_active {
            Option::Some(a) => a,
            Option::None => u.is_active,
        }),
        ..u
    }
}

/// Applying a concatenation of assignment lists is applying them one
/// after the other.
proof fn lemma_apply_machine_concat(m: Machine, s1: Seq<MachineField>, s2: Seq<MachineField>)
    ensures
        spec_apply_machine_fields(m, s1 + s2) == spec_apply_machine_fields(
            spec_apply_machine_fields(m, s1),
            s2,
        ),
    decreases s2.len(),
{
    if s2.len() == 0 {
        assert(s1 + s2 =~= s1);
    } else {
        assert((s1 + s2).drop_last() =~= s1 + s2.drop_last());
        assert((s1 + s2).last() == s2.last());
        lemma_apply_machine_concat(m, s1, s2.drop_last());
    }
}

/// Applying a single assignment is one field replacement.
proof fn lemma_apply_machine_singleton(m: Machine, f: MachineField)
    ensures
        spec_apply_machine_fields(m, seq![f]) == spec_apply_machine_field(m, f),
{
    assert(seq![f].drop_last() =~= Seq::<MachineField>::empty());
    assert(spec_apply_machine_fields(m, Seq::<MachineField>::empty()) == m);
    assert(seq![f].last() == f);
}

/// Law: the assignment-list engine computes exactly the field-by-field
/// update — what `build` projects and `apply` folds is the row that
/// `spec_machine_updated` states directly.
pub proof fn lemma_machine_update_fields(
    m: Machine,
    req: UpdateMachineRequest,
    fresh_key: Option<String>,
)
    requires
        req.regenerate_api_key == Option::Some(true) ==> fresh_key is Some,
    ensures
        spec_apply_machine_fields(m, spec_build_machine_fields(req, fresh_key))
            == spec_machine_updated(m, req, fresh_key),
{
    let a = (match req.name {
        Option::Some(n) => seq![MachineField::Name(n)],
        Option::None => Seq::<MachineField>::empty(),
    });
    let b = (match req.code {
        Option::Some(c) => seq![MachineField::Code(c)],
        Option::None => Seq::<MachineField>::empty(),
    });
    let c = (match req.location {
        Option::Some(l) => seq![MachineField::Location(l)],
        Option::None => Seq::<MachineField>::empty(),
    });
    let d = (match req.machine_type {
        Option::Some(t) => seq![MachineField::MachineType(t)],
        Option::None => Seq::<MachineField>::empty(),
    });
    let e = (if req.regenerate_api_key == Option::Some(true) {
        match fresh_key {
            Option::Some(k) => seq![MachineField::ApiKey(k)],
            Option::None => Seq::<MachineField>::empty(),
        }
    } else {
        Seq::<MachineField>::empty()
    });
    assert(spec_build_machine_fields(req, fresh_key) == a + b + c + d + e);
    lemma_apply_machine_concat(m, a + b + c + d, e);
    lemma_apply_machine_concat(m, a + b + c, d);
    lemma_apply_machine_concat(m, a + b, c);
    lemma_apply_machine_concat(m, a, b);
    let m1 = spec_apply_machine_fields(m, a);
    let m2 = spec_apply_machine_fields(m1, b);
    let m3 = spec_apply_machine_fields(m2, c);
    let m4 = spec_apply_machine_fields(m3, d);
    match req.name {
        Option::Some(n) => lemma_apply_machine_singleton(m, MachineField::Name(n)),
        Option::None => (),
    }
    match req.code {
        Option::Some(cv) => lemma_apply_machine_singleton(m1, MachineField::Code(cv)),
        Option::None => (),
    }
    match req.location {
        Option::Some(l) => lemma_apply_machine_singleton(m2, MachineField::Location(l)),
        Option::None => (),
    }
    match req.machine_type {
        Option::Some(t) => lemma_apply_machine_singleton(m3, MachineField::MachineType(t)),
        Option::None => (),
    }
    if req.regenerate_api_key == Option::Some(true) {
        match fresh_key {
            Option::Some(k) => lemma_apply_machine_singleton(m4, MachineField::ApiKey(k)),
            Option::None => (),
        }
    }
}

/// Applying a concatenation of assignment lists is applying them one
/// after the other.
proof fn lemma_apply_user_concat(u: UserRecord, s1: Seq<UserField>, s2: Seq<UserField>)
    ensures
        spec_apply_user_fields(u, s1 + s2) == spec_apply_user_fields(
            spec_apply_user_fields(u, s1),
            s2,
        ),
    decreases s2.len(),
{
    if s2.len() == 0 {
        assert(s1 + s2 =~= s1);
    } else {
        assert((s1 + s2).drop_last() =~= s1 + s2.drop_last());
        assert((s1 + s2).last() == s2.last());
        lemma_apply_user_concat(u, s1, s2.drop_last());
    }
}

/// Applying a single assignment is one field replacement.
proof fn lemma_apply_user_singleton(u: UserRecord, f: UserField)
    ensures
        spec_apply_user_fields(u, seq![f]) == spec_apply_user_field(u, f),
{
    assert(seq![f].drop_last() =~= Seq::<UserField>::empty());
    assert(spec_apply_user_fields(u, Seq::<UserField>::empty()) == u);
    assert(seq![f].last() == f);
}

/// Law: the assignment-list engine computes exactly the field-by-field
/// update — what `build` projects and `apply` folds is the row that
/// `spec_user_updated` states directly.
pub proof fn lemma_user_update_fields(u: UserRecord, req: UpdateUserRequest)
    ensures
        spec_apply_user_fields(u, spec_build_user_fields(req)) == spec_user_updated(u, req),
{
    let a = (match req.password {
        Option::Some(p) => seq![UserField::Password(p)],
        Option::None => Seq::<UserField>::empty(),
    });
    let b = (match req.role {
        Option::Some(ro) => seq![UserField::Role(ro)],
        Option::None => Seq::<UserField>::empty(),
    });
    let c = (match req.is_active {
        Option::Some(v) => seq![UserField::IsActive(v)],
        Option::None => Seq::<UserField>::empty(),
    });
    assert(spec_build_user_fields(req) == a + b + c);
    lemma_apply_user_concat(u, a + b, c);
    lemma_apply_user_concat(u, a, b);
    let u1 = spec_apply_user_fields(u, a);
    let u2 = spec_apply_user_fields(u1, b);
    match req.password {
        Option::Some(p) => lemma_apply_user_singleton(u, UserField::Password(p)),
        Option::None => (),
    }
    match req.role {
        Option::Some(ro) => lemma_apply_user_singleton(u1, UserField::Role(ro)),
        Option::None => (),
    }
    match req.is_active {
        Option::Some(v) => lemma_apply_user_singleton(u2, UserField::IsActive(v)),
        Option::None => (),
    }
}

/// Law: an update request carrying no fields at all always projects to
/// the empty assignment list and is rejected with the no-fields
/// validation error, whatever fresh credential stands by.
pub proof fn lemma_empty_machine_update_rejected(
    req: UpdateMachineRequest,
    fresh_key: Option<String>,
)
    requires
        req.name is None,
        req.code is None,
        req.location is None,
        req.machine_type is None,
        req.regenerate_api_key != Option::Some(true),
    ensures
        spec_build_machine_fields(req, fresh_key).len() == 0,
{
}

/// Law: a user update carrying no fields at all projects to the empty
/// assignment list and is rejected with the no-fields validation error.
pub proof fn lemma_empty_user_update_rejected(req: UpdateUserRequest)
    requires
        req.password is None,
        req.role is None,
        req.is_active is None,
    ensures
        spec_build_user_fields(req).len() == 0,
{
}

} // verus!
