use vstd::prelude::*;

verus! {

/// The status codes of gRPC.
#[derive(Debug, Clone, Copy, PartialEq, Eq, Structural)]
pub enum RpcCode {
    Success,
    Cancelled,
    Unknown,
    InvalidArgument,
    DeadlineExceeded,
    NotFound,
    AlreadyExists,
    PermissionDenied,
    ResourceExhausted,
    FailedPrecondition,
    Aborted,
    OutOfRange,
    Unimplemented,
    Internal,
    Unavailable,
    DataLoss,
    Unauthenticated,
}

/// A gRPC status: its code and message (with no details and no metadata).
#[derive(Debug, Clone)]
pub struct RpcStatus {
    pub code: RpcCode,
    pub message: String,
}

/// The errors of the orchestrator. The errors of outside libraries (gRPC status,
/// serialization, I/O) are held by their code and text.
#[derive(Debug, Clone)]
pub enum OrchestratorError {
    ModelNotFound(String),
    RoutingError(String),
    MemoryError(String),
    InferenceError(String),
    GrpcError(RpcStatus),
    CommunicationError(String),
    ConfigError(String),
    SerializationError(String),
    IoError(String),
    Timeout,
    ResourceExhausted(String),
    InvalidRequest(String),
    InternalError(String),
}

/// The result type of the orchestrator.
pub type Result<T> = core::result::Result<T, OrchestratorError>;

/// `a` followed by `b`.
pub fn concat(a: &str, b: &str) -> (r: String)
    ensures
        r@ == a@ + b@,
{
    let mut r = String::from_str(a);
    r.append(b);
    r
}

/// `a`, `b` and `c` one after the other.
pub fn concat3(a: &str, b: &str, c: &str) -> (r: String)
    ensures
        r@ == a@ + b@ + c@,
{
    let mut r = String::from_str(a);
    r.append(b);
    r.append(c);
    r
}

/// A string as `{:?}` writes it: quoted, with escapes.
pub uninterp spec fn str_debug(s: Seq<char>) -> Seq<char>;

/// `<str as Debug>::fmt`, through `format!("{:?}", ..)`: the result is the named function
/// of the string.
#[verifier::external_body]
fn debug_quoted(s: &str) -> (r: String)
    ensures
        r@ == str_debug(s@),
{
    format!("{:?}", s)
}

/// The name of a status code, as `{:?}` writes gRPC's `Code`.
pub open spec fn code_name(c: RpcCode) -> Seq<char> {
    match c {
        RpcCode::Success => "Ok"@,
        RpcCode::Cancelled => "Cancelled"@,
        RpcCode::Unknown => "Unknown"@,
        RpcCode::InvalidArgument => "InvalidArgument"@,
        RpcCode::DeadlineExceeded => "DeadlineExceeded"@,
        RpcCode::NotFound => "NotFound"@,
        RpcCode::AlreadyExists => "AlreadyExists"@,
        RpcCode::PermissionDenied => "PermissionDenied"@,
        RpcCode::ResourceExhausted => "ResourceExhausted"@,
        RpcCode::FailedPrecondition => "FailedPrecondition"@,
        RpcCode::Aborted => "Aborted"@,
        RpcCode::OutOfRange => "OutOfRange"@,
        RpcCode::Unimplemented => "Unimplemented"@,
        RpcCode::Internal => "Internal"@,
        RpcCode::Unavailable => "Unavailable"@,
        RpcCode::DataLoss => "DataLoss"@,
        RpcCode::Unauthenticated => "Unauthenticated"@,
    }
}

/// The text of a status as gRPC's `Status` displays it: its code, its quoted message, and
/// the empty details and metadata.
pub open spec fn status_text(s: RpcStatus) -> Seq<char> {
    "status: "@ + code_name(s.code) + ", message: "@ + str_debug(s.message@)
        + ", details: b\"\", metadata: MetadataMap { headers: {} }"@
}

impl RpcCode {
    /// The code's name (see `code_name`).
    pub fn name(&self) -> (r: &'static str)
        ensures
            r@ == code_name(*self),
    {
        match self {
            RpcCode::Success => "Ok",
            RpcCode::Cancelled => "Cancelled",
            RpcCode::Unknown => "Unknown",
            RpcCode::InvalidArgument => "InvalidArgument",
            RpcCode::DeadlineExceeded => "DeadlineExceeded",
            RpcCode::NotFound => "NotFound",
            RpcCode::AlreadyExists => "AlreadyExists",
            RpcCode::PermissionDenied => "PermissionDenied",
            RpcCode::ResourceExhausted => "ResourceExhausted",
            RpcCode::FailedPrecondition => "FailedPrecondition",
            RpcCode::Aborted => "Aborted",
            RpcCode::OutOfRange => "OutOfRange",
            RpcCode::Unimplemented => "Unimplemented",
            RpcCode::Internal => "Internal",
            RpcCode::Unavailable => "Unavailable",
            RpcCode::DataLoss => "DataLoss",
            RpcCode::Unauthenticated => "Unauthenticated",
        }
    }
}

impl RpcStatus {
    /// The status's text (see `status_text`).
    pub fn text(&self) -> (r: String)
        ensures
            r@ == status_text(*self),
    {
        let mut r = String::from_str("status: ");
        r.append(self.code.name());
        r.append(", message: ");
        r.append(debug_quoted(self.message.as_str()).as_str());
        r.append(", details: b\"\", metadata: MetadataMap { headers: {} }");
        r
    }
}

/// The text of an error.
pub open spec fn error_text(e: OrchestratorError) -> Seq<char> {
    match e {
        OrchestratorError::ModelNotFound(m) => "Model not found: "@ + m@,
        OrchestratorError::RoutingError(m) => "Routing error: "@ + m@,
        OrchestratorError::MemoryError(m) => "Memory error: "@ + m@,
        OrchestratorError::InferenceError(m) => "Inference error: "@ + m@,
        OrchestratorError::GrpcError(s) => "gRPC error: "@ + status_text(s),
        OrchestratorError::CommunicationError(m) => "Communication error: "@ + m@,
        OrchestratorError::ConfigError(m) => "Configuration error: "@ + m@,
        OrchestratorError::SerializationError(m) => "Serialization error: "@ + m@,
        OrchestratorError::IoError(m) => "IO error: "@ + m@,
        OrchestratorError::Timeout => "Timeout occurred"@,
        OrchestratorError::ResourceExhausted(m) => "Resource exhausted: "@ + m@,
        OrchestratorError::InvalidRequest(m) => "Invalid request: "@ + m@,
        OrchestratorError::InternalError(m) => "Internal error: "@ + m@,
    }
}

/// The gRPC status an error is answered with, as (code, message).
pub open spec fn status_of(e: OrchestratorError) -> (RpcCode, Seq<char>) {
    match e {
        OrchestratorError::ModelNotFound(m) => (RpcCode::NotFound, m@),
        OrchestratorError::RoutingError(m) => (RpcCode::Internal, "Routing error: "@ + m@),
        OrchestratorError::MemoryError(m) => (RpcCode::ResourceExhausted, m@),
        OrchestratorError::InferenceError(m) => (RpcCode::Internal, "Inference error: "@ + m@),
        OrchestratorError::GrpcError(s) => (s.code, s.message@),
        OrchestratorError::CommunicationError(m) => (RpcCode::Unavailable, m@),
        OrchestratorError::ConfigError(m) => (RpcCode::InvalidArgument, m@),
        OrchestratorError::Timeout => (RpcCode::DeadlineExceeded, "Request timeout"@),
        OrchestratorError::ResourceExhausted(m) => (RpcCode::ResourceExhausted, m@),
        OrchestratorError::InvalidRequest(m) => (RpcCode::InvalidArgument, m@),
        _ => (RpcCode::Internal, error_text(e)),
    }
}

impl OrchestratorError {
    /// The error's text.
    pub fn message(&self) -> (r: String)
        ensures
            r@ == error_text(*self),
    {
        match self {
            OrchestratorError::ModelNotFound(m) => concat("Model not found: ", m.as_str()),
            OrchestratorError::RoutingError(m) => concat("Routing error: ", m.as_str()),
            OrchestratorError::MemoryError(m) => concat("Memory error: ", m.as_str()),
            OrchestratorError::InferenceError(m) => concat("Inference error: ", m.as_str()),
            OrchestratorError::GrpcError(s) => concat("gRPC error: ", s.text().as_str()),
            OrchestratorError::CommunicationError(m) => concat("Communication error: ", m.as_str()),
            OrchestratorError::ConfigError(m) => concat("Configuration error: ", m.as_str()),
            OrchestratorError::SerializationError(m) => concat("Serialization error: ", m.as_str()),
            OrchestratorError::IoError(m) => concat("IO error: ", m.as_str()),
            OrchestratorError::Timeout => String::from_str("Timeout occurred"),
            OrchestratorError::ResourceExhausted(m) => concat("Resource exhausted: ", m.as_str()),
            OrchestratorError::InvalidRequest(m) => concat("Invalid request: ", m.as_str()),
            OrchestratorError::InternalError(m) => concat("Internal error: ", m.as_str()),
        }
    }

    /// The gRPC status the error is answered with.
    pub fn to_status(&self) -> (s: RpcStatus)
        ensures
            (s.code, s.message@) == status_of(*self),
    {
        match self {
            OrchestratorError::ModelNotFound(m) => RpcStatus { code: RpcCode::NotFound, message: m.clone() },
            OrchestratorError::RoutingError(m) => RpcStatus {
                code: RpcCode::Internal,
                message: concat("Routing error: ", m.as_str()),
            },
            OrchestratorError::MemoryError(m) => RpcStatus {
                code: RpcCode::ResourceExhausted,
                message: m.clone(),
            },
            OrchestratorError::InferenceError(m) => RpcStatus {
                code: RpcCode::Internal,
                message: concat("Inference error: ", m.as_str()),
            },
            OrchestratorError::GrpcError(s) => RpcStatus { code: s.code, message: s.message.clone() },
            OrchestratorError::CommunicationError(m) => RpcStatus {
                code: RpcCode::Unavailable,
                message: m.clone(),
            },
            OrchestratorError::ConfigError(m) => RpcStatus {
                code: RpcCode::InvalidArgument,
                message: m.clone(),
            },
            OrchestratorError::Timeout => RpcStatus {
                code: RpcCode::DeadlineExceeded,
                message: String::from_str("Request timeout"),
            },
            OrchestratorError::ResourceExhausted(m) => RpcStatus {
                code: RpcCode::ResourceExhausted,
                message: m.clone(),
            },
            OrchestratorError::InvalidRequest(m) => RpcStatus {
                code: RpcCode::InvalidArgument,
                message: m.clone(),
            },
            _ => RpcStatus { code: RpcCode::Internal, message: self.message() },
        }
    }
}

} // verus!
