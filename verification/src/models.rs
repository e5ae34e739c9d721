//! Data model of the fleet: machine and user records, maintenance
//! comments, speed-history entries, the request/response shapes of the
//! operations, and the error taxonomy.
//!
//! A gauge reading travels through the core as the `u64` bit pattern of
//! the transport's floating-point value; the core never interprets it,
//! so callers decode it losslessly at the boundary.

use vstd::prelude::*;

verus! {

/// A machine record: identity, unique credentials, optional descriptive
/// fields, and the mutable live state written by telemetry ingestion.
#[derive(Debug)]
pub struct Machine {
    pub id: i64,
    pub name: String,
    pub code: String,
    pub api_key: String,
    pub location: Option<String>,
    pub machine_type: Option<String>,
    /// Encoded gauge reading (bit pattern of the reported value).
    pub current_speed: u64,
    pub status_message: String,
    pub is_online: bool,
    pub last_update: i64,
}

/// A stored user row. The password and the active flag stay inside the
/// store; [`User`] is the shape handed back to callers.
#[derive(Debug)]
pub struct UserRecord {
    pub id: i64,
    pub username: String,
    pub password: String,
    pub role: String,
    pub token: String,
    pub is_active: bool,
}

/// The caller-visible projection of a user row: everything but the
/// password and the active flag.
#[derive(Debug)]
pub struct User {
    pub id: i64,
    pub username: String,
    pub role: String,
    pub token: String,
}

/// An immutable maintenance comment attributed to a username.
#[derive(Debug)]
pub struct MaintenanceComment {
    pub id: i64,
    pub machine_id: i64,
    pub comment: String,
    pub priority: String,
    pub username: String,
    pub created_at: i64,
}

/// A stored speed-history entry. `entry_id` records the append order and
/// breaks timestamp ties in the newest-first history query.
#[derive(Debug)]
pub struct HistoryEntry {
    pub entry_id: i64,
    pub machine_id: i64,
    pub speed: u64,
    pub message: Option<String>,
    pub timestamp: i64,
}

/// The caller-visible projection of a history entry.
#[derive(Debug)]
pub struct SpeedHistory {
    pub speed: u64,
    pub message: Option<String>,
    pub timestamp: i64,
}

/// Request body for creating a machine.
#[derive(Debug)]
pub struct CreateMachineRequest {
    pub name: String,
    pub code: String,
    pub location: Option<String>,
    pub machine_type: Option<String>,
}

/// The shape returned when a machine is created or updated; the only
/// place the machine's API key is handed out.
#[derive(Debug)]
pub struct MachineResponse {
    pub id: i64,
    pub name: String,
    pub code: String,
    pub api_key: String,
    pub location: Option<String>,
    pub machine_type: Option<String>,
}

/// A machine's telemetry report: the encoded reading and an optional
/// status message. It carries no machine id on purpose: the reporting
/// machine is identified by its API key alone.
#[derive(Debug)]
pub struct SpeedUpdateRequest {
    pub speed: u64,
    pub message: Option<String>,
}

/// Credentials presented at login.
#[derive(Debug)]
pub struct LoginRequest {
    pub username: String,
    pub password: String,
}

/// A successful login: the session token and the user's role.
#[derive(Debug)]
pub struct LoginResponse {
    pub token: String,
    pub role: String,
    pub username: String,
}

/// Request body for creating a user.
#[derive(Debug)]
pub struct CreateUserRequest {
    pub username: String,
    pub password: String,
    pub role: String,
}

/// Request body for adding a maintenance comment.
#[derive(Debug)]
pub struct AddCommentRequest {
    pub comment: String,
    pub priority: Option<String>,
}

/// Partial update of a machine: only fields that are present are
/// touched. `regenerate_api_key` is a command rather than a value: when
/// true, a fresh credential is substituted for the stored API key.
#[derive(Debug)]
pub struct UpdateMachineRequest {
    pub name: Option<String>,
    pub code: Option<String>,
    pub location: Option<String>,
    pub machine_type: Option<String>,
    pub regenerate_api_key: Option<bool>,
}

/// Partial update of a user: only fields that are present are touched.
#[derive(Debug)]
pub struct UpdateUserRequest {
    pub password: Option<String>,
    pub role: Option<String>,
    pub is_active: Option<bool>,
}

/// Query parameters of the history endpoint.
#[derive(Debug)]
pub struct HistoryQuery {
    pub limit: Option<i64>,
}

/// A generic single-value response wrapper.
#[derive(Debug)]
pub struct ApiResponse<T> {
    pub data: T,
}

/// A single-field human-readable error body.
#[derive(Debug)]
pub struct ErrorResponse {
    pub error: String,
}

/// The machines list, ordered by name.
#[derive(Debug)]
pub struct MachineListResponse {
    pub machines: Vec<Machine>,
}

/// The users list, ordered by username.
#[derive(Debug)]
pub struct UserListResponse {
    pub users: Vec<User>,
}

/// A machine's comments, newest first.
#[derive(Debug)]
pub struct CommentListResponse {
    pub comments: Vec<MaintenanceComment>,
}

/// A machine's speed history, newest first.
#[derive(Debug)]
pub struct HistoryResponse {
    pub history: Vec<SpeedHistory>,
}

/// Acknowledgement of a telemetry report, carrying the timestamp shared
/// by the live-state write and the history entry.
#[derive(Debug)]
pub struct UpdateResponse {
    pub success: bool,
    pub timestamp: i64,
}

/// The recognized user roles.
pub open spec fn is_valid_role(r: Seq<char>) -> bool {
    r == "admin"@ || r == "manager"@ || r == "technician"@
}

/// The recognized comment priorities.
pub open spec fn is_valid_priority(p: Seq<char>) -> bool {
    p == "low"@ || p == "normal"@ || p == "high"@ || p == "critical"@
}

/// The error taxonomy of the core. A missing credential and a
/// recognized-but-insufficient identity are deliberately merged into the
/// single `Unauthorized` outcome, as the surrounding transport reports
/// both with the same status class.
#[derive(Debug)]
pub enum ApiError {
    /// Missing, unrecognized, or insufficient credential.
    Unauthorized,
    /// The referenced machine or user id does not exist.
    NotFound,
    /// A partial update carried no fields at all.
    NoFieldsProvided,
    /// A field value lies outside its enumerated domain.
    InvalidFieldValue,
    /// A unique-key constraint would be violated.
    Conflict,
    /// Any other storage failure, such as id exhaustion.
    Internal,
}

impl ApiError {
    /// The status class of the error, as the transport reports it.
    pub open spec fn spec_status_code(&self) -> u16 {
        match self {
            ApiError::Unauthorized => 401u16,
            ApiError::NotFound => 404u16,
            ApiError::NoFieldsProvided => 400u16,
            ApiError::InvalidFieldValue => 400u16,
            ApiError::Conflict => 400u16,
            ApiError::Internal => 500u16,
        }
    }

    /// The HTTP-like status class of the error.
    pub fn status_code(&self) -> (code: u16)
        ensures
            code == self.spec_status_code(),
    {
        match self {
            ApiError::Unauthorized => 401,
            ApiError::NotFound => 404,
            ApiError::NoFieldsProvided => 400,
            ApiError::InvalidFieldValue => 400,
            ApiError::Conflict => 400,
            ApiError::Internal => 500,
        }
    }

    /// The single-field error body the transport serializes.
    pub fn to_response(&self) -> (r: ErrorResponse)
        ensures
            r.error@ == self.spec_message(),
    {
        ErrorResponse { error: self.message() }
    }

    /// The message each error carries.
    pub open spec fn spec_message(&self) -> Seq<char> {
        match self {
            ApiError::Unauthorized => "Invalid token"@,
            ApiError::NotFound => "Not found"@,
            ApiError::NoFieldsProvided => "No fields to update"@,
            ApiError::InvalidFieldValue => (
            "Invalid role. Must be one of: admin, manager, technician"@),
            ApiError::Conflict => "Unique value already exists"@,
            ApiError::Internal => "Storage error"@,
        }
    }

    /// A human-readable message for the error body.
    pub fn message(&self) -> (r: String)
        ensures
            r@ == self.spec_message(),
    {
        match self {
            ApiError::Unauthorized => "Invalid token".to_owned(),
            ApiError::NotFound => "Not found".to_owned(),
            ApiError::NoFieldsProvided => "No fields to update".to_owned(),
            ApiError::InvalidFieldValue => {
                "Invalid role. Must be one of: admin, manager, technician".to_owned()
            },
            ApiError::Conflict => "Unique value already exists".to_owned(),
            ApiError::Internal => "Storage error".to_owned(),
        }
    }
}

/// Duplicates an optional string, preserving its value exactly.
pub fn clone_opt_string(o: &Option<String>) -> (r: Option<String>)
    ensures
        r == *o,
{
    match o {
        Option::Some(s) => Option::Some(s.clone()),
        Option::None => Option::None,
    }
}

impl Machine {
    /// An exact copy of the record.
    pub fn duplicate(&self) -> (r: Machine)
        ensures
            r == *self,
    {
        Machine {
            id: self.id,
            name: self.name.clone(),
            code: self.code.clone(),
            api_key: self.api_key.clone(),
            location: clone_opt_string(&self.location),
            machine_type: clone_opt_string(&self.machine_type),
            current_speed: self.current_speed,
            status_message: self.status_message.clone(),
            is_online: self.is_online,
            last_update: self.last_update,
        }
    }
}

impl MaintenanceComment {
    /// An exact copy of the record.
    pub fn duplicate(&self) -> (r: MaintenanceComment)
        ensures
            r == *self,
    {
        MaintenanceComment {
            id: self.id,
            machine_id: self.machine_id,
            comment: self.comment.clone(),
            priority: self.priority.clone(),
            username: self.username.clone(),
            created_at: self.created_at,
        }
    }
}

impl UserRecord {
    /// An exact copy of the row.
    pub fn duplicate(&self) -> (r: UserRecord)
        ensures
            r == *self,
    {
        UserRecord {
            id: self.id,
            username: self.username.clone(),
            password: self.password.clone(),
            role: self.role.clone(),
            token: self.token.clone(),
            is_active: self.is_active,
        }
    }

    /// The caller-visible projection of the row.
    pub open spec fn spec_public_view(&self) -> User {
        User { id: self.id, username: self.username, role: self.role, token: self.token }
    }

    /// Projects the row to the shape handed back to callers.
    pub fn public_view(&self) -> (r: User)
        ensures
            r == self.spec_public_view(),
    {
        User {
            id: self.id,
            username: self.username.clone(),
            role: self.role.clone(),
            token: self.token.clone(),
        }
    }
}

impl HistoryEntry {
    /// An exact copy of the entry.
    pub fn duplicate(&self) -> (r: HistoryEntry)
        ensures
            r == *self,
    {
        HistoryEntry {
            entry_id: self.entry_id,
            machine_id: self.machine_id,
            speed: self.speed,
            message: clone_opt_string(&self.message),
            timestamp: self.timestamp,
        }
    }

    /// The caller-visible projection of the entry.
    pub open spec fn spec_public_view(&self) -> SpeedHistory {
        SpeedHistory { speed: self.speed, message: self.message, timestamp: self.timestamp }
    }

    /// Projects the entry to the shape handed back to callers.
    pub fn public_view(&self) -> (r: SpeedHistory)
        ensures
            r == self.spec_public_view(),
    {
        SpeedHistory {
            speed: self.speed,
            message: clone_opt_string(&self.message),
            timestamp: self.timestamp,
        }
    }
}

} // verus!
