//! Execution policy: how often a run may be attempted, how long one attempt may
//! hold its lease, and how long a failed attempt waits. Each value is checked when
//! it is made, so what is stored is always what was asked for.
use vstd::prelude::*;
use vstd::std_specs::convert::TryFromSpecImpl;
use vstd::string::*;

use crate::text;
use crate::time::{Duration, PgInterval};

verus! {

/// Whether a job is due for materialization at all.
#[derive(Debug, Clone, Copy, PartialEq, Eq, Structural)]
pub enum JobLifecycle {
    Active,
    Paused,
}

impl JobLifecycle {
    /// What the `is_paused` column holds for this lifecycle.
    pub fn is_paused(self) -> (res: bool)
        ensures
            res == (self == JobLifecycle::Paused),
    {
        match self {
            JobLifecycle::Paused => true,
            JobLifecycle::Active => false,
        }
    }

    /// The lifecycle that an `is_paused` column stands for.
    pub fn from_paused(paused: bool) -> (res: Self)
        ensures
            res == (if paused {
                JobLifecycle::Paused
            } else {
                JobLifecycle::Active
            }),
    {
        if paused {
            JobLifecycle::Paused
        } else {
            JobLifecycle::Active
        }
    }
}

/// Most claims of one run: from 1 to `i32::MAX`.
#[derive(Debug, PartialEq, Eq)]
pub struct MaxAttempts {
    count: i32,
}

/// Why a value was rejected as a [`MaxAttempts`].
#[derive(Debug, Clone, Copy, PartialEq, Eq, Structural)]
pub enum MaxAttemptsError {
    NonPositive,
    TooLarge,
}

impl MaxAttemptsError {
    pub open spec fn message(self) -> Seq<char> {
        match self {
            MaxAttemptsError::NonPositive => "max_attempts must be greater than zero"@,
            MaxAttemptsError::TooLarge => "max_attempts exceeds i32::MAX"@,
        }
    }

    pub fn to_string(&self) -> (res: String)
        ensures
            res@ == self.message(),
    {
        match self {
            MaxAttemptsError::NonPositive => "max_attempts must be greater than zero".to_owned(),
            MaxAttemptsError::TooLarge => "max_attempts exceeds i32::MAX".to_owned(),
        }
    }
}

impl MaxAttempts {
    #[verifier::type_invariant]
    spec fn inv(self) -> bool {
        self.count >= 1
    }

    pub closed spec fn count_spec(&self) -> i32 {
        self.count
    }

    /// The limit of `count` attempts.
    pub closed spec fn of_count(count: i32) -> Self {
        MaxAttempts { count }
    }

    /// Three attempts.
    pub fn default_value() -> (res: Self)
        ensures
            res.to_i32() == 3,
    {
        MaxAttempts { count: 3 }
    }

    /// The count that a stored column stands for.
    pub fn from_db_i32(i: i32) -> (res: Result<Self, MaxAttemptsError>)
        ensures
            res == stored_count(i),
            match res {
                Ok(m) => i > 0 && m.to_i32() == i,
                Err(e) => i <= 0 && e == MaxAttemptsError::NonPositive,
            },
    {
        if i > 0 {
            Ok(MaxAttempts { count: i })
        } else {
            Err(MaxAttemptsError::NonPositive)
        }
    }

    /// What is stored for this count.
    #[verifier::when_used_as_spec(count_spec)]
    pub fn to_i32(&self) -> (res: i32)
        ensures
            res == self.to_i32(),
            res >= 1,
    {
        proof {
            use_type_invariant(self);
        }
        self.count
    }
}

/// What a stored column stands for: a positive count for the limit of that many
/// attempts, any other for none.
pub open spec fn stored_count(i: i32) -> Result<MaxAttempts, MaxAttemptsError> {
    if i > 0 {
        Ok(MaxAttempts::of_count(i))
    } else {
        Err(MaxAttemptsError::NonPositive)
    }
}

/// A limit that is stored is read back as it was, and the other way round: a column
/// that stands for a limit is what that limit stores.
pub proof fn law_a_stored_count_is_read_back(limit: MaxAttempts, i: i32)
    requires
        limit.to_i32() >= 1,
    ensures
        stored_count(limit.to_i32()) == Ok::<MaxAttempts, MaxAttemptsError>(limit),
        stored_count(i) is Ok ==> stored_count(i)->Ok_0.to_i32() == i,
{
}

impl Clone for MaxAttempts {
    fn clone(&self) -> (res: Self)
        ensures
            res == *self,
    {
        proof {
            use_type_invariant(self);
        }
        MaxAttempts { count: self.count }
    }
}

impl Copy for MaxAttempts {

}

impl TryFrom<u32> for MaxAttempts {
    type Error = MaxAttemptsError;

    fn try_from(v: u32) -> (res: Result<Self, MaxAttemptsError>)
        ensures
            match res {
                Ok(m) => 0 < v <= i32::MAX && m.to_i32() == v,
                Err(e) => e == (if v == 0 {
                    MaxAttemptsError::NonPositive
                } else {
                    MaxAttemptsError::TooLarge
                }) && !(0 < v <= i32::MAX),
            },
    {
        if v > i32::MAX as u32 {
            return Err(MaxAttemptsError::TooLarge);
        }
        if v == 0 {
            return Err(MaxAttemptsError::NonPositive);
        }
        Ok(MaxAttempts { count: v as i32 })
    }
}

impl TryFromSpecImpl<u32> for MaxAttempts {
    open spec fn obeys_try_from_spec() -> bool {
        false
    }

    open spec fn try_from_spec(v: u32) -> Result<Self, MaxAttemptsError> {
        arbitrary()
    }
}

/// Longest that one attempt holds its lease without renewal: a positive whole
/// number of microseconds.
#[derive(Debug, PartialEq, Eq)]
pub struct LeaseDuration {
    micros: i64,
}

/// Why a span was rejected as a [`LeaseDuration`].
#[derive(Debug, Clone, Copy, PartialEq, Eq, Structural)]
pub enum LeaseDurationError {
    Zero,
    PrecisionLoss,
    TooLarge,
    CalendarComponent { months: i32, days: i32 },
}

impl LeaseDurationError {
    pub open spec fn message(self) -> Seq<char> {
        match self {
            LeaseDurationError::Zero => "lease duration must be greater than zero"@,
            LeaseDurationError::PrecisionLoss =>
                "lease duration must be a whole number of microseconds"@,
            LeaseDurationError::TooLarge =>
                "lease duration exceeds the maximum of i64::MAX microseconds"@,
            LeaseDurationError::CalendarComponent { months, days } =>
                "lease interval has calendar components (months="@ + text::decimal(months as int)
                    + ", days="@ + text::decimal(days as int)
                    + "); only microseconds are valid"@,
        }
    }

    pub fn to_string(&self) -> (res: String)
        ensures
            res@ == self.message(),
    {
        match self {
            LeaseDurationError::Zero => "lease duration must be greater than zero".to_owned(),
            LeaseDurationError::PrecisionLoss =>
                "lease duration must be a whole number of microseconds".to_owned(),
            LeaseDurationError::TooLarge =>
                "lease duration exceeds the maximum of i64::MAX microseconds".to_owned(),
            LeaseDurationError::CalendarComponent { months, days } =>
                "lease interval has calendar components (months=".to_owned()
                    .concat(text::decimal_text(*months).as_str()).concat(", days=")
                    .concat(text::decimal_text(*days).as_str())
                    .concat("); only microseconds are valid"),
        }
    }
}

/// The first reason for which the span `d` is no lease, if any.
pub open spec fn lease_rejection(d: Duration) -> Option<LeaseDurationError> {
    if d.nanos % 1_000 != 0 {
        Some(LeaseDurationError::PrecisionLoss)
    } else if d.nanos / 1_000 > i64::MAX {
        Some(LeaseDurationError::TooLarge)
    } else if d.nanos == 0 {
        Some(LeaseDurationError::Zero)
    } else {
        None
    }
}

/// The first reason for which the stored interval `iv` is no lease, if any.
pub open spec fn stored_lease_rejection(iv: PgInterval) -> Option<LeaseDurationError> {
    if iv.months != 0 || iv.days != 0 {
        Some(LeaseDurationError::CalendarComponent { months: iv.months, days: iv.days })
    } else if iv.microseconds <= 0 {
        Some(LeaseDurationError::Zero)
    } else {
        None
    }
}

impl LeaseDuration {
    #[verifier::type_invariant]
    spec fn inv(self) -> bool {
        self.micros >= 1
    }

    /// The length of the lease in microseconds.
    pub closed spec fn micros_spec(&self) -> i64 {
        self.micros
    }

    /// The lease of `micros` microseconds.
    pub closed spec fn of_micros(micros: i64) -> Self {
        LeaseDuration { micros }
    }

    /// Five minutes.
    pub fn default_value() -> (res: Self)
        ensures
            res.micros() == 300_000_000,
    {
        LeaseDuration { micros: 300_000_000 }
    }

    #[verifier::when_used_as_spec(micros_spec)]
    pub fn micros(&self) -> (res: i64)
        ensures
            res == self.micros(),
            res >= 1,
    {
        proof {
            use_type_invariant(self);
        }
        self.micros
    }

    /// The span of this lease.
    pub fn as_duration(&self) -> (res: Duration)
        ensures
            res.nanos == self.micros() * 1_000,
            res.nanos > 0,
    {
        proof {
            use_type_invariant(self);
        }
        Duration { nanos: self.micros as u128 * 1_000 }
    }

    /// What is stored for this lease.
    pub fn to_pg_interval(&self) -> (res: PgInterval)
        ensures
            res == (PgInterval { microseconds: self.micros(), days: 0, months: 0 }),
            stored_lease_rejection(res) is None,
    {
        proof {
            use_type_invariant(self);
        }
        PgInterval::from_microseconds(self.micros)
    }

    /// The lease that a stored interval stands for. Only pure, positive
    /// microseconds are ever stored; anything else is rejected.
    pub fn from_pg_interval(iv: PgInterval) -> (res: Result<Self, LeaseDurationError>)
        ensures
            match res {
                Ok(l) => stored_lease_rejection(iv) is None && l.micros() == iv.microseconds && l
                    == LeaseDuration::of_micros(iv.microseconds),
                Err(e) => stored_lease_rejection(iv) == Some(e),
            },
    {
        if iv.months != 0 || iv.days != 0 {
            return Err(
                LeaseDurationError::CalendarComponent { months: iv.months, days: iv.days },
            );
        }
        if iv.microseconds <= 0 {
            return Err(LeaseDurationError::Zero);
        }
        Ok(LeaseDuration { micros: iv.microseconds })
    }
}

/// A lease that is stored is read back as it was.
pub proof fn law_a_stored_lease_is_read_back(lease: LeaseDuration)
    requires
        lease.micros() >= 1,
    ensures
        stored_lease_rejection(
            PgInterval { microseconds: lease.micros(), days: 0, months: 0 },
        ) is None,
        LeaseDuration::of_micros(lease.micros()) == lease,
{
}

/// A lease that is read has the length that is stored.
pub proof fn law_a_read_lease_has_its_length(micros: i64)
    ensures
        LeaseDuration::of_micros(micros).micros() == micros,
{
}

impl Clone for LeaseDuration {
    fn clone(&self) -> (res: Self)
        ensures
            res == *self,
    {
        proof {
            use_type_invariant(self);
        }
        LeaseDuration { micros: self.micros }
    }
}

impl Copy for LeaseDuration {

}

impl TryFrom<Duration> for LeaseDuration {
    type Error = LeaseDurationError;

    fn try_from(d: Duration) -> (res: Result<Self, LeaseDurationError>)
        ensures
            match res {
                Ok(l) => lease_rejection(d) is None && l.micros() * 1_000 == d.nanos,
                Err(e) => lease_rejection(d) == Some(e),
            },
    {
        if d.subsec_nanos() % 1_000 != 0 {
            return Err(LeaseDurationError::PrecisionLoss);
        }
        let micros: u128 = d.as_micros();
        if micros > i64::MAX as u128 {
            return Err(LeaseDurationError::TooLarge);
        }
        if micros == 0 {
            return Err(LeaseDurationError::Zero);
        }
        Ok(LeaseDuration { micros: micros as i64 })
    }
}

impl TryFromSpecImpl<Duration> for LeaseDuration {
    open spec fn obeys_try_from_spec() -> bool {
        false
    }

    open spec fn try_from_spec(d: Duration) -> Result<Self, LeaseDurationError> {
        arbitrary()
    }
}

/// How long a failed attempt waits before the run is available again: a whole
/// number of microseconds, possibly none.
#[derive(Debug, PartialEq, Eq)]
pub struct RetryBackoff {
    micros: i64,
}

/// Why a span was rejected as a [`RetryBackoff`].
#[derive(Debug, Clone, Copy, PartialEq, Eq, Structural)]
pub enum RetryBackoffError {
    PrecisionLoss,
    TooLarge,
}

impl RetryBackoffError {
    pub open spec fn message(self) -> Seq<char> {
        match self {
            RetryBackoffError::PrecisionLoss =>
                "retry backoff must be a whole number of microseconds"@,
            RetryBackoffError::TooLarge =>
                "retry backoff exceeds the maximum of i64::MAX microseconds"@,
        }
    }

    pub fn to_string(&self) -> (res: String)
        ensures
            res@ == self.message(),
    {
        match self {
            RetryBackoffError::PrecisionLoss =>
                "retry backoff must be a whole number of microseconds".to_owned(),
            RetryBackoffError::TooLarge =>
                "retry backoff exceeds the maximum of i64::MAX microseconds".to_owned(),
        }
    }
}

/// The first reason for which the span `d` is no backoff, if any.
pub open spec fn backoff_rejection(d: Duration) -> Option<RetryBackoffError> {
    if d.nanos % 1_000 != 0 {
        Some(RetryBackoffError::PrecisionLoss)
    } else if d.nanos / 1_000 > i64::MAX {
        Some(RetryBackoffError::TooLarge)
    } else {
        None
    }
}

impl RetryBackoff {
    #[verifier::type_invariant]
    spec fn inv(self) -> bool {
        self.micros >= 0
    }

    /// The length of the wait in microseconds.
    pub closed spec fn micros(&self) -> i64 {
        self.micros
    }

    /// What is stored for this backoff.
    pub fn to_pg_interval(&self) -> (res: PgInterval)
        ensures
            res == (PgInterval { microseconds: self.micros(), days: 0, months: 0 }),
            res.microseconds >= 0,
    {
        proof {
            use_type_invariant(self);
        }
        PgInterval::from_microseconds(self.micros)
    }
}

impl Default for RetryBackoff {
    /// One second.
    fn default() -> (res: Self)
        ensures
            res.micros() == 1_000_000,
    {
        RetryBackoff { micros: 1_000_000 }
    }
}

impl Clone for RetryBackoff {
    fn clone(&self) -> (res: Self)
        ensures
            res == *self,
    {
        proof {
            use_type_invariant(self);
        }
        RetryBackoff { micros: self.micros }
    }
}

impl Copy for RetryBackoff {

}

impl TryFrom<Duration> for RetryBackoff {
    type Error = RetryBackoffError;

    fn try_from(d: Duration) -> (res: Result<Self, RetryBackoffError>)
        ensures
            match res {
                Ok(b) => backoff_rejection(d) is None && b.micros() * 1_000 == d.nanos,
                Err(e) => backoff_rejection(d) == Some(e),
            },
    {
        if d.subsec_nanos() % 1_000 != 0 {
            return Err(RetryBackoffError::PrecisionLoss);
        }
        let micros: u128 = d.as_micros();
        if micros > i64::MAX as u128 {
            return Err(RetryBackoffError::TooLarge);
        }
        Ok(RetryBackoff { micros: micros as i64 })
    }
}

impl TryFromSpecImpl<Duration> for RetryBackoff {
    open spec fn obeys_try_from_spec() -> bool {
        false
    }

    open spec fn try_from_spec(d: Duration) -> Result<Self, RetryBackoffError> {
        arbitrary()
    }
}

} // verus!
