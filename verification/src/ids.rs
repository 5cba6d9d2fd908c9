//! Identifiers: what names a job, a run, a worker and a claim.
use std::str::FromStr;

use vstd::prelude::*;
use vstd::std_specs::convert::TryFromSpecImpl;
use vstd::string::*;

use crate::text;

verus! {

/// Most characters that a [`JobName`], [`WorkerId`] or [`DeduplicationKey`] has.
pub const MAX_IDENTIFIER_LEN: usize = 255;

/// Why a string was rejected as an identifier.
#[derive(Debug, Clone, Copy, PartialEq, Eq, Structural)]
pub enum IdentifierError {
    Empty,
    SurroundingWhitespace,
    TooLong,
}

impl IdentifierError {
    pub open spec fn message(self) -> Seq<char> {
        match self {
            IdentifierError::Empty => "identifier must not be empty"@,
            IdentifierError::SurroundingWhitespace =>
                "identifier must not have leading or trailing whitespace"@,
            IdentifierError::TooLong => "identifier must be at most 255 characters"@,
        }
    }

    pub fn to_string(&self) -> (res: String)
        ensures
            res@ == self.message(),
    {
        match self {
            IdentifierError::Empty => "identifier must not be empty".to_owned(),
            IdentifierError::SurroundingWhitespace =>
                "identifier must not have leading or trailing whitespace".to_owned(),
            IdentifierError::TooLong => "identifier must be at most 255 characters".to_owned(),
        }
    }
}

/// The identifier policy: the first rule that `s` breaks, if any. An identifier is
/// not empty, neither begins nor ends with white space, and has at most
/// [`MAX_IDENTIFIER_LEN`] characters.
pub open spec fn identifier_rejection(s: Seq<char>) -> Option<IdentifierError> {
    if s.len() == 0 {
        Some(IdentifierError::Empty)
    } else if text::is_white_space(s.first()) || text::is_white_space(s.last()) {
        Some(IdentifierError::SurroundingWhitespace)
    } else if s.len() > MAX_IDENTIFIER_LEN {
        Some(IdentifierError::TooLong)
    } else {
        None
    }
}

/// Whether `res` is what a constructor owes for the string `s`: the identifier
/// that reads `s`, or the rule that `s` breaks.
pub open spec fn admits<T: View<V = Seq<char>>>(
    s: Seq<char>,
    res: Result<T, IdentifierError>,
) -> bool {
    match identifier_rejection(s) {
        None => res is Ok && res->Ok_0@ == s,
        Some(e) => res is Err && res->Err_0 == e,
    }
}

fn validate_identifier(s: &str) -> (res: Result<(), IdentifierError>)
    ensures
        res == match identifier_rejection(s@) {
            None => Ok::<(), IdentifierError>(()),
            Some(e) => Err(e),
        },
{
    if s.is_empty() {
        return Err(IdentifierError::Empty);
    }
    let len: usize = s.unicode_len();
    if s.get_char(0).is_whitespace() || s.get_char(len - 1).is_whitespace() {
        return Err(IdentifierError::SurroundingWhitespace);
    }
    if len > MAX_IDENTIFIER_LEN {
        return Err(IdentifierError::TooLong);
    }
    Ok(())
}

/// Whether `value` has the version and variant bits of a random UUID.
pub open spec fn is_random_uuid(value: u128) -> bool {
    &&& (value >> 76) & 0xf == 4
    &&& (value >> 62) & 0x3 == 2
}

/// Wraps `uuid::Uuid::new_v4`. The result carries the version and variant of a
/// random UUID; nothing is claimed of the other bits. The outside function ends
/// the program where the operating system has no randomness to give.
#[verifier::external_body]
fn random_uuid() -> (res: u128)
    ensures
        is_random_uuid(res),
{
    uuid::Uuid::new_v4().as_u128()
}

/// Names a recurring job.
#[derive(Debug, Clone, Copy, PartialEq, Eq, PartialOrd, Ord, Hash, Structural)]
pub struct JobId(pub u128);

impl JobId {
    /// A fresh random identifier.
    pub fn generate() -> (res: Self)
        ensures
            is_random_uuid(res.0),
    {
        JobId(random_uuid())
    }
}

/// Names a run: one occurrence of a recurring job, or one enqueued task.
#[derive(Debug, Clone, Copy, PartialEq, Eq, PartialOrd, Ord, Hash, Structural)]
pub struct RunId(pub u128);

impl RunId {
    /// A fresh random identifier.
    pub fn generate() -> (res: Self)
        ensures
            is_random_uuid(res.0),
    {
        RunId(random_uuid())
    }
}

/// Queue-oriented name for [`RunId`]. Scheduled occurrences and immediate work
/// use the same durable identifier and execution path.
pub type TaskId = RunId;

/// Queue-oriented name for [`JobId`].
pub type ScheduleId = JobId;

/// Fencing token of one claim. The inside is private: a new token comes from
/// [`LeaseToken::generate`], a stored one from [`LeaseToken::from_stored`].
#[derive(Debug, Clone, Copy, PartialEq, Eq, Hash, Structural)]
pub struct LeaseToken {
    value: u128,
}

impl LeaseToken {
    pub closed spec fn value_spec(&self) -> u128 {
        self.value
    }

    /// A fresh random token.
    pub fn generate() -> (res: Self)
        ensures
            is_random_uuid(res.value()),
    {
        LeaseToken { value: random_uuid() }
    }

    /// The token that a stored row holds.
    pub fn from_stored(value: u128) -> (res: Self)
        ensures
            res.value() == value,
    {
        LeaseToken { value }
    }

    /// What a row stores for this token.
    #[verifier::when_used_as_spec(value_spec)]
    pub fn value(&self) -> (res: u128)
        ensures
            res == self.value(),
    {
        self.value
    }
}

/// Name of a job: what a handler is registered under.
#[derive(Debug, PartialEq, Eq, Hash)]
pub struct JobName {
    text: String,
}

impl View for JobName {
    type V = Seq<char>;

    closed spec fn view(&self) -> Seq<char> {
        self.text@
    }
}

impl JobName {
    pub fn as_str(&self) -> (res: &str)
        ensures
            res@ == self@,
    {
        self.text.as_str()
    }

    /// The name that a stored row holds. Rows are not validated again: a name
    /// that no constructor admits matches no registered handler.
    pub fn from_stored(text: String) -> (res: Self)
        ensures
            res@ == text@,
    {
        JobName { text }
    }
}

impl Clone for JobName {
    fn clone(&self) -> (res: Self)
        ensures
            res == *self,
    {
        JobName { text: self.text.clone() }
    }
}

impl TryFrom<&str> for JobName {
    type Error = IdentifierError;

    fn try_from(s: &str) -> (res: Result<Self, IdentifierError>)
        ensures
            admits(s@, res),
    {
        match validate_identifier(s) {
            Ok(()) => Ok(JobName { text: s.to_owned() }),
            Err(e) => Err(e),
        }
    }
}

impl TryFromSpecImpl<&str> for JobName {
    open spec fn obeys_try_from_spec() -> bool {
        false
    }

    open spec fn try_from_spec(s: &str) -> Result<Self, IdentifierError> {
        arbitrary()
    }
}

impl TryFrom<String> for JobName {
    type Error = IdentifierError;

    fn try_from(s: String) -> (res: Result<Self, IdentifierError>)
        ensures
            admits(s@, res),
    {
        match validate_identifier(s.as_str()) {
            Ok(()) => Ok(JobName { text: s }),
            Err(e) => Err(e),
        }
    }
}

impl TryFromSpecImpl<String> for JobName {
    open spec fn obeys_try_from_spec() -> bool {
        false
    }

    open spec fn try_from_spec(s: String) -> Result<Self, IdentifierError> {
        arbitrary()
    }
}

impl FromStr for JobName {
    type Err = IdentifierError;

    fn from_str(s: &str) -> (res: Result<Self, IdentifierError>)
        ensures
            admits(s@, res),
    {
        JobName::try_from(s)
    }
}

/// Name of a worker process.
#[derive(Debug, PartialEq, Eq, Hash)]
pub struct WorkerId {
    text: String,
}

impl View for WorkerId {
    type V = Seq<char>;

    closed spec fn view(&self) -> Seq<char> {
        self.text@
    }
}

impl WorkerId {
    pub fn as_str(&self) -> (res: &str)
        ensures
            res@ == self@,
    {
        self.text.as_str()
    }

    /// The worker that a stored row holds. Rows are not validated again.
    pub fn from_stored(text: String) -> (res: Self)
        ensures
            res@ == text@,
    {
        WorkerId { text }
    }
}

impl Clone for WorkerId {
    fn clone(&self) -> (res: Self)
        ensures
            res == *self,
    {
        WorkerId { text: self.text.clone() }
    }
}

impl TryFrom<&str> for WorkerId {
    type Error = IdentifierError;

    fn try_from(s: &str) -> (res: Result<Self, IdentifierError>)
        ensures
            admits(s@, res),
    {
        match validate_identifier(s) {
            Ok(()) => Ok(WorkerId { text: s.to_owned() }),
            Err(e) => Err(e),
        }
    }
}

impl TryFromSpecImpl<&str> for WorkerId {
    open spec fn obeys_try_from_spec() -> bool {
        false
    }

    open spec fn try_from_spec(s: &str) -> Result<Self, IdentifierError> {
        arbitrary()
    }
}

impl TryFrom<String> for WorkerId {
    type Error = IdentifierError;

    fn try_from(s: String) -> (res: Result<Self, IdentifierError>)
        ensures
            admits(s@, res),
    {
        match validate_identifier(s.as_str()) {
            Ok(()) => Ok(WorkerId { text: s }),
            Err(e) => Err(e),
        }
    }
}

impl TryFromSpecImpl<String> for WorkerId {
    open spec fn obeys_try_from_spec() -> bool {
        false
    }

    open spec fn try_from_spec(s: String) -> Result<Self, IdentifierError> {
        arbitrary()
    }
}

impl FromStr for WorkerId {
    type Err = IdentifierError;

    fn from_str(s: &str) -> (res: Result<Self, IdentifierError>)
        ensures
            admits(s@, res),
    {
        WorkerId::try_from(s)
    }
}

/// Optional idempotency key that a producer supplies. It is unique among the
/// tasks of one name.
#[derive(Debug, PartialEq, Eq, Hash)]
pub struct DeduplicationKey {
    text: String,
}

impl View for DeduplicationKey {
    type V = Seq<char>;

    closed spec fn view(&self) -> Seq<char> {
        self.text@
    }
}

impl DeduplicationKey {
    pub fn as_str(&self) -> (res: &str)
        ensures
            res@ == self@,
    {
        self.text.as_str()
    }

    /// The key that a stored row holds. Rows are not validated again.
    pub fn from_stored(text: String) -> (res: Self)
        ensures
            res@ == text@,
    {
        DeduplicationKey { text }
    }
}

impl Clone for DeduplicationKey {
    fn clone(&self) -> (res: Self)
        ensures
            res == *self,
    {
        DeduplicationKey { text: self.text.clone() }
    }
}

impl TryFrom<&str> for DeduplicationKey {
    type Error = IdentifierError;

    fn try_from(value: &str) -> (res: Result<Self, IdentifierError>)
        ensures
            admits(value@, res),
    {
        match validate_identifier(value) {
            Ok(()) => Ok(DeduplicationKey { text: value.to_owned() }),
            Err(e) => Err(e),
        }
    }
}

impl TryFromSpecImpl<&str> for DeduplicationKey {
    open spec fn obeys_try_from_spec() -> bool {
        false
    }

    open spec fn try_from_spec(value: &str) -> Result<Self, IdentifierError> {
        arbitrary()
    }
}

impl TryFrom<String> for DeduplicationKey {
    type Error = IdentifierError;

    fn try_from(value: String) -> (res: Result<Self, IdentifierError>)
        ensures
            admits(value@, res),
    {
        match validate_identifier(value.as_str()) {
            Ok(()) => Ok(DeduplicationKey { text: value }),
            Err(e) => Err(e),
        }
    }
}

impl TryFromSpecImpl<String> for DeduplicationKey {
    open spec fn obeys_try_from_spec() -> bool {
        false
    }

    open spec fn try_from_spec(value: String) -> Result<Self, IdentifierError> {
        arbitrary()
    }
}

} // verus!
