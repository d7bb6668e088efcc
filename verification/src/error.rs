//! The error every endpoint answers with: an HTTP status and a registry code.
//!
//! The code is what a client branches on and what a user quotes to support;
//! the status is what an intermediary sees. The two travel together, so every
//! refusal in the crate is one value of [`ApiError`].
use vstd::prelude::*;

verus! {

/// The registry codes the endpoints refuse with.
#[derive(Debug, Clone, Copy, PartialEq, Eq, Structural)]
pub enum ErrorCode {
    OutOfRange,
    ReferenceNotFound,
    NotFound,
    InvalidEnum,
    MalformedBody,
    TaskNotFound,
    ProjectNotFound,
    PageTooLarge,
    VersionConflict,
    MissingField,
    UnknownField,
    ParentOutOfProject,
    StatusWrongWorkflow,
    NoGrant,
    ConstraintUnsatisfied,
    AssigneeNotProjectMember,
    WrongCredentialType,
    UnsortableField,
    UnknownSymbol,
    TransitionPermission,
    TransitionFieldsMissing,
    TeamNameTaken,
    StatusNotDirectlyWritable,
    SlugTaken,
    ScopeCeiling,
    NoSuchTransition,
    LastOwner,
    LastMember,
    InitialStatusRule,
    IfMatchMalformed,
    IdempotencyRequired,
    BulkTooLarge,
    BlockedByDependencies,
    BadCursor,
    TransitionExists,
    TagNameTaken,
    TagLimit,
    StatusNameTaken,
    StatusHoldsTasks,
    SelfElevation,
    SearchTooLong,
    RoleNameTaken,
    ReleaseNotFound,
    ReleaseNameTaken,
    NotBuilt,
    MigrationTooLarge,
    IdempotencyInProgress,
    IdempotencyBodyChanged,
    GrantCeiling,
    /// `428`: a conditional write sent without `If-Match`.
    PreconditionRequired,
    /// `429`: over the rate limit.
    RateLimited,
    /// `503`: the database could not be reached.
    Unavailable,
    /// `500`: a fault the caller did not cause.
    Internal,
}

/// The registry number of a code, for the codes whose number the API's
/// documentation gives; the rest have none here.
pub open spec fn registry_of(code: ErrorCode) -> Option<Seq<char>> {
    match code {
        ErrorCode::NoGrant => Some("TF-AZN-0001"@),
        ErrorCode::ConstraintUnsatisfied => Some("TF-AZN-0002"@),
        ErrorCode::GrantCeiling => Some("TF-AZN-0003"@),
        ErrorCode::ScopeCeiling => Some("TF-AZN-0004"@),
        ErrorCode::SelfElevation => Some("TF-AZN-0006"@),
        ErrorCode::IdempotencyInProgress => Some("TF-IDM-0001"@),
        ErrorCode::IdempotencyBodyChanged => Some("TF-IDM-0002"@),
        ErrorCode::IdempotencyRequired => Some("TF-IDM-0003"@),
        ErrorCode::BulkTooLarge => Some("TF-LIM-0003"@),
        ErrorCode::BadCursor => Some("TF-QRY-0006"@),
        ErrorCode::PageTooLarge => Some("TF-QRY-0007"@),
        ErrorCode::ParentOutOfProject => Some("TF-TSK-0006"@),
        ErrorCode::UnknownField => Some("TF-VAL-0002"@),
        ErrorCode::MissingField => Some("TF-VAL-0003"@),
        ErrorCode::OutOfRange => Some("TF-VAL-0004"@),
        ErrorCode::InvalidEnum => Some("TF-VAL-0005"@),
        ErrorCode::StatusNotDirectlyWritable => Some("TF-WFL-0001"@),
        ErrorCode::TransitionFieldsMissing => Some("TF-WFL-0004"@),
        ErrorCode::StatusHoldsTasks => Some("TF-WFL-0006"@),
        ErrorCode::InitialStatusRule => Some("TF-WFL-0007"@),
        ErrorCode::StatusWrongWorkflow => Some("TF-WFL-0008"@),
        ErrorCode::MigrationTooLarge => Some("TF-WFL-0010"@),
        ErrorCode::TransitionExists => Some("TF-WFL-0011"@),
        _ => None,
    }
}

impl ErrorCode {
    /// The registry number a client quotes to support, where there is one.
    pub fn registry(self) -> (r: Option<&'static str>)
        ensures
            match r {
                Some(s) => registry_of(self) == Some(s@),
                None => registry_of(self) is None,
            },
    {
        match self {
            ErrorCode::NoGrant => Some("TF-AZN-0001"),
            ErrorCode::ConstraintUnsatisfied => Some("TF-AZN-0002"),
            ErrorCode::GrantCeiling => Some("TF-AZN-0003"),
            ErrorCode::ScopeCeiling => Some("TF-AZN-0004"),
            ErrorCode::SelfElevation => Some("TF-AZN-0006"),
            ErrorCode::IdempotencyInProgress => Some("TF-IDM-0001"),
            ErrorCode::IdempotencyBodyChanged => Some("TF-IDM-0002"),
            ErrorCode::IdempotencyRequired => Some("TF-IDM-0003"),
            ErrorCode::BulkTooLarge => Some("TF-LIM-0003"),
            ErrorCode::BadCursor => Some("TF-QRY-0006"),
            ErrorCode::PageTooLarge => Some("TF-QRY-0007"),
            ErrorCode::ParentOutOfProject => Some("TF-TSK-0006"),
            ErrorCode::UnknownField => Some("TF-VAL-0002"),
            ErrorCode::MissingField => Some("TF-VAL-0003"),
            ErrorCode::OutOfRange => Some("TF-VAL-0004"),
            ErrorCode::InvalidEnum => Some("TF-VAL-0005"),
            ErrorCode::StatusNotDirectlyWritable => Some("TF-WFL-0001"),
            ErrorCode::TransitionFieldsMissing => Some("TF-WFL-0004"),
            ErrorCode::StatusHoldsTasks => Some("TF-WFL-0006"),
            ErrorCode::InitialStatusRule => Some("TF-WFL-0007"),
            ErrorCode::StatusWrongWorkflow => Some("TF-WFL-0008"),
            ErrorCode::MigrationTooLarge => Some("TF-WFL-0010"),
            ErrorCode::TransitionExists => Some("TF-WFL-0011"),
            _ => None,
        }
    }
}

/// An HTTP status, a registry code, and for the two "try later" answers how
/// long to wait.
#[derive(Debug, Clone, Copy, PartialEq, Eq, Structural)]
pub struct ApiError {
    pub status: u16,
    pub code: ErrorCode,
    /// Seconds, for `429` and `503`.
    pub retry_after: Option<u64>,
}

pub const BAD_REQUEST: u16 = 400;
pub const FORBIDDEN: u16 = 403;
pub const NOT_FOUND: u16 = 404;
pub const CONFLICT: u16 = 409;
pub const PAYLOAD_TOO_LARGE: u16 = 413;
pub const UNPROCESSABLE: u16 = 422;
pub const PRECONDITION_REQUIRED: u16 = 428;
pub const TOO_MANY_REQUESTS: u16 = 429;
pub const INTERNAL: u16 = 500;
pub const NOT_IMPLEMENTED: u16 = 501;
pub const UNAVAILABLE: u16 = 503;

pub open spec fn with_status(status: u16, code: ErrorCode) -> ApiError {
    ApiError { status, code, retry_after: None }
}

/// `400` with `code`.
pub open spec fn bad(code: ErrorCode) -> ApiError {
    with_status(BAD_REQUEST, code)
}

/// `404` with `code`: absent and invisible are one answer.
pub open spec fn missing(code: ErrorCode) -> ApiError {
    with_status(NOT_FOUND, code)
}

/// `403` with `code`.
pub open spec fn denied(code: ErrorCode) -> ApiError {
    with_status(FORBIDDEN, code)
}

/// `409` with `code`.
pub open spec fn conflicting(code: ErrorCode) -> ApiError {
    with_status(CONFLICT, code)
}

/// `422` with `code`.
pub open spec fn refused(code: ErrorCode) -> ApiError {
    with_status(UNPROCESSABLE, code)
}

impl ApiError {
    pub fn new(status: u16, code: ErrorCode) -> (e: Self)
        ensures
            e == with_status(status, code),
    {
        ApiError { status, code, retry_after: None }
    }

    pub fn bad_request(code: ErrorCode) -> (e: Self)
        ensures
            e == bad(code),
    {
        Self::new(BAD_REQUEST, code)
    }

    pub fn missing(code: ErrorCode) -> (e: Self)
        ensures
            e == missing(code),
    {
        Self::new(NOT_FOUND, code)
    }

    pub fn denied(code: ErrorCode) -> (e: Self)
        ensures
            e == denied(code),
    {
        Self::new(FORBIDDEN, code)
    }

    pub fn conflict(code: ErrorCode) -> (e: Self)
        ensures
            e == conflicting(code),
    {
        Self::new(CONFLICT, code)
    }

    pub fn unprocessable(code: ErrorCode) -> (e: Self)
        ensures
            e == refused(code),
    {
        Self::new(UNPROCESSABLE, code)
    }

    /// `428`: `If-Match` is required and absent.
    pub fn precondition_required() -> (e: Self)
        ensures
            e == with_status(PRECONDITION_REQUIRED, ErrorCode::PreconditionRequired),
    {
        Self::new(PRECONDITION_REQUIRED, ErrorCode::PreconditionRequired)
    }

    /// `500`, with nothing about the cause.
    pub fn internal() -> (e: Self)
        ensures
            e == with_status(INTERNAL, ErrorCode::Internal),
    {
        Self::new(INTERNAL, ErrorCode::Internal)
    }

    /// `429`, telling the client when a token will be there.
    pub fn too_many_requests(retry_after: u64) -> (e: Self)
        ensures
            e == (ApiError {
                status: TOO_MANY_REQUESTS,
                code: ErrorCode::RateLimited,
                retry_after: Some(retry_after),
            }),
    {
        ApiError { status: TOO_MANY_REQUESTS, code: ErrorCode::RateLimited, retry_after: Some(retry_after) }
    }

    /// `503`: "do not send me traffic", not "I am broken".
    pub fn unavailable(retry_after: u64) -> (e: Self)
        ensures
            e == (ApiError {
                status: UNAVAILABLE,
                code: ErrorCode::Unavailable,
                retry_after: Some(retry_after),
            }),
    {
        ApiError { status: UNAVAILABLE, code: ErrorCode::Unavailable, retry_after: Some(retry_after) }
    }

    pub fn status(&self) -> (s: u16)
        ensures
            s == self.status,
    {
        self.status
    }

    pub fn code(&self) -> (c: ErrorCode)
        ensures
            c == self.code,
    {
        self.code
    }
}

} // verus!
