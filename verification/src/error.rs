//! Error types of the crate, with the text each of them shows.
use vstd::prelude::*;
use vstd::std_specs::convert::FromSpecImpl;

use crate::ids::{IdentifierError, JobId, JobName};
use crate::policy::{LeaseDurationError, MaxAttemptsError};
use crate::text;
use crate::text::Text;

verus! {

/// Why the database refused a statement.
#[derive(Debug, Clone, PartialEq, Eq)]
pub enum DatabaseError {
    /// A row with the same key is already there.
    UniqueViolation,
    /// A value that the statement computes cannot be stored.
    OutOfRange,
    /// What the connection reported.
    Other(String),
}

impl DatabaseError {
    pub open spec fn message(self) -> Seq<char> {
        match self {
            DatabaseError::UniqueViolation =>
                "duplicate key value violates unique constraint"@,
            DatabaseError::OutOfRange => "value out of range"@,
            DatabaseError::Other(m) => m@,
        }
    }

    pub fn to_string(&self) -> (res: String)
        ensures
            res@ == self.message(),
    {
        match self {
            DatabaseError::UniqueViolation =>
                "duplicate key value violates unique constraint".to_owned(),
            DatabaseError::OutOfRange => "value out of range".to_owned(),
            DatabaseError::Other(m) => m.clone(),
        }
    }
}

/// A handler was already registered for this job name.
#[derive(Debug, Clone, PartialEq, Eq)]
pub struct DuplicateJobName(pub JobName);

impl DuplicateJobName {
    pub open spec fn message(self) -> Seq<char> {
        "a handler is already registered for job name "@ + self.0@
    }

    pub fn to_string(&self) -> (res: String)
        ensures
            res@ == self.message(),
    {
        text::joined("a handler is already registered for job name ", self.0.as_str())
    }
}

/// Why a registration was rejected.
#[derive(Debug, Clone, PartialEq, Eq)]
pub enum RegisterError {
    Name(IdentifierError),
    Duplicate(DuplicateJobName),
}

impl RegisterError {
    pub open spec fn message(self) -> Seq<char> {
        match self {
            RegisterError::Name(e) => e.message(),
            RegisterError::Duplicate(e) => e.message(),
        }
    }

    pub fn to_string(&self) -> (res: String)
        ensures
            res@ == self.message(),
    {
        match self {
            RegisterError::Name(e) => e.to_string(),
            RegisterError::Duplicate(e) => e.to_string(),
        }
    }
}

impl From<IdentifierError> for RegisterError {
    fn from(e: IdentifierError) -> (res: Self) {
        RegisterError::Name(e)
    }
}

impl FromSpecImpl<IdentifierError> for RegisterError {
    open spec fn obeys_from_spec() -> bool {
        true
    }

    open spec fn from_spec(e: IdentifierError) -> Self {
        RegisterError::Name(e)
    }
}

impl From<DuplicateJobName> for RegisterError {
    fn from(e: DuplicateJobName) -> (res: Self) {
        RegisterError::Duplicate(e)
    }
}

impl FromSpecImpl<DuplicateJobName> for RegisterError {
    open spec fn obeys_from_spec() -> bool {
        true
    }

    open spec fn from_spec(e: DuplicateJobName) -> Self {
        RegisterError::Duplicate(e)
    }
}

/// Why a stored job row stands for no job. Each reason is something that is
/// checked before a row is written, so the row was changed by another hand.
#[derive(Debug, Clone, PartialEq, Eq)]
pub enum CorruptJobRow {
    Cron(String),
    LeaseDuration(LeaseDurationError),
    MaxAttempts(MaxAttemptsError),
}

impl CorruptJobRow {
    pub open spec fn message(self) -> Seq<char> {
        match self {
            CorruptJobRow::Cron(m) => "unparseable cron: "@ + m@,
            CorruptJobRow::LeaseDuration(e) => e.message(),
            CorruptJobRow::MaxAttempts(e) => e.message(),
        }
    }

    pub fn to_string(&self) -> (res: String)
        ensures
            res@ == self.message(),
    {
        match self {
            CorruptJobRow::Cron(m) => text::joined("unparseable cron: ", m.as_str()),
            CorruptJobRow::LeaseDuration(e) => e.to_string(),
            CorruptJobRow::MaxAttempts(e) => e.to_string(),
        }
    }
}

impl From<LeaseDurationError> for CorruptJobRow {
    fn from(e: LeaseDurationError) -> (res: Self) {
        CorruptJobRow::LeaseDuration(e)
    }
}

impl FromSpecImpl<LeaseDurationError> for CorruptJobRow {
    open spec fn obeys_from_spec() -> bool {
        true
    }

    open spec fn from_spec(e: LeaseDurationError) -> Self {
        CorruptJobRow::LeaseDuration(e)
    }
}

impl From<MaxAttemptsError> for CorruptJobRow {
    fn from(e: MaxAttemptsError) -> (res: Self) {
        CorruptJobRow::MaxAttempts(e)
    }
}

impl FromSpecImpl<MaxAttemptsError> for CorruptJobRow {
    open spec fn obeys_from_spec() -> bool {
        true
    }

    open spec fn from_spec(e: MaxAttemptsError) -> Self {
        CorruptJobRow::MaxAttempts(e)
    }
}

/// What can go wrong in the scheduler.
#[derive(Debug, Clone, PartialEq, Eq)]
pub enum SchedulerError {
    Database(DatabaseError),
    Pool(String),
    Cron(String),
    Config(String),
    Identifier(IdentifierError),
    Register(RegisterError),
    Serde(String),
    /// A structural guarantee was violated; surfaced loudly.
    Invariant(&'static str),
    /// A stored job row stands for no job.
    CorruptJob { job_id: JobId, source: CorruptJobRow },
}

impl SchedulerError {
    pub open spec fn message(self) -> Seq<char> {
        match self {
            SchedulerError::Database(e) => "database error: "@ + e.message(),
            SchedulerError::Pool(m) => "connection pool error: "@ + m@,
            SchedulerError::Cron(m) => "cron parse error: "@ + m@,
            SchedulerError::Config(m) => "configuration error: "@ + m@,
            SchedulerError::Identifier(e) => "invalid identifier: "@ + e.message(),
            SchedulerError::Register(e) => e.message(),
            SchedulerError::Serde(m) => "serialization error: "@ + m@,
            SchedulerError::Invariant(m) => "invariant violated: "@ + m@,
            SchedulerError::CorruptJob { job_id, source } => "corrupt job row JobId("@
                + text::uuid_hyphenated(job_id.0) + "): "@ + source.message(),
        }
    }

    pub fn to_string(&self) -> (res: String)
        ensures
            res@ == self.message(),
    {
        match self {
            SchedulerError::Database(e) =>
                text::joined("database error: ", e.to_string().as_str()),
            SchedulerError::Pool(m) => text::joined("connection pool error: ", m.as_str()),
            SchedulerError::Cron(m) => text::joined("cron parse error: ", m.as_str()),
            SchedulerError::Config(m) => text::joined("configuration error: ", m.as_str()),
            SchedulerError::Identifier(e) =>
                text::joined("invalid identifier: ", e.to_string().as_str()),
            SchedulerError::Register(e) => e.to_string(),
            SchedulerError::Serde(m) => text::joined("serialization error: ", m.as_str()),
            SchedulerError::Invariant(m) => text::joined("invariant violated: ", m),
            SchedulerError::CorruptJob { job_id, source } =>
                text::joined("corrupt job row JobId(", text::uuid_text(job_id.0).as_str())
                    .concat("): ").concat(source.to_string().as_str()),
        }
    }
}

impl From<DatabaseError> for SchedulerError {
    fn from(e: DatabaseError) -> (res: Self) {
        SchedulerError::Database(e)
    }
}

impl FromSpecImpl<DatabaseError> for SchedulerError {
    open spec fn obeys_from_spec() -> bool {
        true
    }

    open spec fn from_spec(e: DatabaseError) -> Self {
        SchedulerError::Database(e)
    }
}

impl From<IdentifierError> for SchedulerError {
    fn from(e: IdentifierError) -> (res: Self) {
        SchedulerError::Identifier(e)
    }
}

impl FromSpecImpl<IdentifierError> for SchedulerError {
    open spec fn obeys_from_spec() -> bool {
        true
    }

    open spec fn from_spec(e: IdentifierError) -> Self {
        SchedulerError::Identifier(e)
    }
}

impl From<RegisterError> for SchedulerError {
    fn from(e: RegisterError) -> (res: Self) {
        SchedulerError::Register(e)
    }
}

impl FromSpecImpl<RegisterError> for SchedulerError {
    open spec fn obeys_from_spec() -> bool {
        true
    }

    open spec fn from_spec(e: RegisterError) -> Self {
        SchedulerError::Register(e)
    }
}

/// What a handler reports when it fails: the text that is stored as the error of
/// the run, and whether another attempt may help.
#[derive(Debug)]
pub struct JobError {
    source: String,
    retryable: bool,
}

impl JobError {
    pub closed spec fn message(self) -> Seq<char> {
        self.source@
    }

    pub closed spec fn retryable_spec(&self) -> bool {
        self.retryable
    }

    /// A permanent failure.
    pub fn msg(message: impl Text) -> (res: Self)
        ensures
            res.message() == message.text(),
            !res.is_retryable(),
    {
        Self::permanent(message)
    }

    /// A failure that no further attempt can mend.
    pub fn permanent(message: impl Text) -> (res: Self)
        ensures
            res.message() == message.text(),
            !res.is_retryable(),
    {
        JobError { source: message.into_text(), retryable: false }
    }

    /// A failure that another attempt may mend.
    pub fn retry(message: impl Text) -> (res: Self)
        ensures
            res.message() == message.text(),
            res.is_retryable(),
    {
        JobError { source: message.into_text(), retryable: true }
    }

    #[verifier::when_used_as_spec(retryable_spec)]
    pub fn is_retryable(&self) -> (res: bool)
        ensures
            res == self.is_retryable(),
    {
        self.retryable
    }

    pub fn to_string(&self) -> (res: String)
        ensures
            res@ == self.message(),
    {
        self.source.clone()
    }
}

/// An ordinary error, by the text it shows, makes a permanent failure: only
/// [`JobError::retry`] asks for another attempt.
impl From<String> for JobError {
    fn from(shown: String) -> (res: Self)
        ensures
            res.message() == shown@,
            !res.is_retryable(),
    {
        JobError::permanent(shown)
    }
}

impl FromSpecImpl<String> for JobError {
    open spec fn obeys_from_spec() -> bool {
        false
    }

    open spec fn from_spec(shown: String) -> Self {
        arbitrary()
    }
}

} // verus!
