//! The session's side of the wire: what a session asks for, how a failed call is described, and
//! what a run's calls are reported as.
use vstd::prelude::*;

verus! {

/// The text of an optional string.
pub open spec fn text_of(text: Option<String>) -> Option<Seq<char>> {
    match text {
        Some(t) => Some(t@),
        None => None,
    }
}

/// The texts of a list of strings.
pub open spec fn texts(strings: Seq<String>) -> Seq<Seq<char>> {
    strings.map_values(|s: String| s@)
}

/// A copy of an optional string.
pub(crate) fn copy_text(text: &Option<String>) -> (copy: Option<String>)
    ensures
        copy == *text,
{
    match text {
        Some(t) => Some(t.clone()),
        None => None,
    }
}

/// The session handshake: the flat list of logical names that the session will call, its
/// deadline, and who it acts for.
#[derive(Debug)]
pub struct WireInit {
    /// The logical resource names that the session asks for.
    pub resources: Vec<String>,
    /// The wall-clock budget of the run, in milliseconds.
    pub timeout_ms: u64,
    /// The trusted id of the acting tenant (`None` in a single-tenant session).
    pub tenant: Option<String>,
    /// The client's secret, where the transport carries one.
    pub token: Option<String>,
}

impl Default for WireInit {
    fn default() -> (init: WireInit)
        ensures
            init.resources@.len() == 0,
            init.timeout_ms == 0,
            init.tenant is None,
            init.token is None,
    {
        WireInit { resources: Vec::new(), timeout_ms: 0, tenant: None, token: None }
    }
}

/// Who has to act on an error.
#[derive(Clone, Copy, Debug, PartialEq, Eq, Structural)]
pub enum ErrorOwner {
    /// The caller of the script.
    Caller,
    /// The author of the script.
    Developer,
    /// The operator of the daemon.
    Operator,
}

/// Why a call failed, as the session is told.
#[derive(Debug)]
pub struct EgressError {
    /// Stable machine code.
    pub code: String,
    /// Human-safe cause.
    pub message: String,
    /// The tag of the capability that failed.
    pub source: String,
    /// Structured machine context, as JSON text.
    pub details: Option<String>,
    /// Whether the same call may succeed later.
    pub retryable: bool,
    /// Who has to act on it.
    pub owner: ErrorOwner,
}

/// What an [`EgressError`] says.
pub struct EgressErrorView {
    pub code: Seq<char>,
    pub message: Seq<char>,
    pub source: Seq<char>,
    pub details: Option<Seq<char>>,
    pub retryable: bool,
    pub owner: ErrorOwner,
}

impl View for EgressError {
    type V = EgressErrorView;

    open spec fn view(&self) -> EgressErrorView {
        EgressErrorView {
            code: self.code@,
            message: self.message@,
            source: self.source@,
            details: text_of(self.details),
            retryable: self.retryable,
            owner: self.owner,
        }
    }
}

/// Whether `source` is the tag of a capability. An error from any other source would be taken for
/// one of the script.
pub open spec fn known_source(source: Seq<char>) -> bool {
    ||| source == "db"@
    ||| source == "mongo"@
    ||| source == "mail"@
    ||| source == "redis"@
    ||| source == "amq"@
    ||| source == "auth"@
}

/// The error that `source` reports under `code` with `message`, and that `owner` has to act on:
/// permanent, and without details.
pub open spec fn plain_error(
    source: Seq<char>,
    code: Seq<char>,
    message: Seq<char>,
    owner: ErrorOwner,
) -> EgressErrorView {
    EgressErrorView { code, message, source, details: None, retryable: false, owner }
}

impl EgressError {
    /// A permanent error without details, owned by the operator.
    pub fn new(source: &str, code: &str, message: String) -> (error: Self)
        ensures
            error@ == plain_error(source@, code@, message@, ErrorOwner::Operator),
            error.source@ == source@,
            error.code@ == code@,
            error.message == message,
            error.details is None,
            !error.retryable,
            error.owner == ErrorOwner::Operator,
    {
        EgressError {
            code: code.to_owned(),
            message,
            source: source.to_owned(),
            details: None,
            retryable: false,
            owner: ErrorOwner::Operator,
        }
    }

    /// The same error with another owner.
    pub fn owner(self, owner: ErrorOwner) -> (error: Self)
        ensures
            error == (EgressError { owner, ..self }),
    {
        EgressError { owner, ..self }
    }
}

impl Clone for EgressError {
    fn clone(&self) -> (copy: Self)
        ensures
            copy == *self,
    {
        EgressError {
            code: self.code.clone(),
            message: self.message.clone(),
            source: self.source.clone(),
            details: copy_text(&self.details),
            retryable: self.retryable,
            owner: self.owner,
        }
    }
}

/// One `db` operation.
#[derive(Debug, PartialEq, Eq)]
pub struct DbMetric {
    pub action: String,
    pub duration_us: u128,
    pub rows_returned: u64,
    pub rows_affected: u64,
    pub truncated: bool,
}

/// One `mongo` operation.
#[derive(Debug, PartialEq, Eq)]
pub struct MongoMetric {
    pub action: String,
    pub duration_us: u128,
    pub docs_returned: u64,
    pub docs_affected: u64,
    pub truncated: bool,
}

/// One `mail` operation.
#[derive(Debug, PartialEq, Eq)]
pub struct MailMetric {
    pub action: String,
    pub duration_us: u128,
    pub recipients: u64,
    pub bytes: u64,
    pub accepted: bool,
}

/// One `redis` operation.
#[derive(Debug, PartialEq, Eq)]
pub struct RedisMetric {
    pub action: String,
    pub duration_us: u128,
    pub bytes: u64,
    pub hit: bool,
}

/// One `amq` operation.
#[derive(Debug, PartialEq, Eq)]
pub struct AmqMetric {
    pub action: String,
    pub duration_us: u128,
    pub messages: u64,
    pub bytes: u64,
    pub published: bool,
}

/// One `auth` operation.
#[derive(Debug, PartialEq, Eq)]
pub struct AuthMetric {
    pub action: String,
    pub host: String,
    pub status: u16,
    pub duration_us: u128,
}

/// What a run's calls are reported as: the operations of each capability.
#[derive(Debug)]
pub struct BackendMetrics {
    pub db: Vec<DbMetric>,
    pub mongo: Vec<MongoMetric>,
    pub mail: Vec<MailMetric>,
    pub redis: Vec<RedisMetric>,
    pub amq: Vec<AmqMetric>,
    pub auth: Vec<AuthMetric>,
}

impl Default for BackendMetrics {
    fn default() -> (metrics: BackendMetrics)
        ensures
            metrics.db@.len() == 0,
            metrics.mongo@.len() == 0,
            metrics.mail@.len() == 0,
            metrics.redis@.len() == 0,
            metrics.amq@.len() == 0,
            metrics.auth@.len() == 0,
    {
        BackendMetrics {
            db: Vec::new(),
            mongo: Vec::new(),
            mail: Vec::new(),
            redis: Vec::new(),
            amq: Vec::new(),
            auth: Vec::new(),
        }
    }
}

} // verus!
