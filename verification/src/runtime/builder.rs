//! Configuration of a scheduler.
use vstd::prelude::*;

use crate::error::{DuplicateJobName, RegisterError, SchedulerError};
use crate::ids;
use crate::ids::{IdentifierError, JobName, WorkerId};
use crate::runtime::registry::Registry;
use crate::time::Duration;

verus! {

/// How many handlers a worker runs at once where nothing else is said.
pub const DEFAULT_MAX_CONCURRENCY: usize = 16;

/// What can be given where a job name is asked for: text, which is checked, or a
/// name that was made before.
pub trait IntoJobName: Sized {
    spec fn text(&self) -> Seq<char>;

    /// Why this is no job name, or `None`.
    spec fn rejection(&self) -> Option<IdentifierError>;

    fn into_job_name(self) -> (res: Result<JobName, IdentifierError>)
        ensures
            match self.rejection() {
                None => res is Ok && res->Ok_0@ == self.text(),
                Some(e) => res == Err::<JobName, IdentifierError>(e),
            },
    ;
}

impl IntoJobName for &str {
    open spec fn text(&self) -> Seq<char> {
        self@
    }

    open spec fn rejection(&self) -> Option<IdentifierError> {
        ids::identifier_rejection(self@)
    }

    fn into_job_name(self) -> (res: Result<JobName, IdentifierError>) {
        JobName::try_from(self)
    }
}

impl IntoJobName for String {
    open spec fn text(&self) -> Seq<char> {
        self@
    }

    open spec fn rejection(&self) -> Option<IdentifierError> {
        ids::identifier_rejection(self@)
    }

    fn into_job_name(self) -> (res: Result<JobName, IdentifierError>) {
        JobName::try_from(self)
    }
}

impl IntoJobName for JobName {
    open spec fn text(&self) -> Seq<char> {
        self@
    }

    open spec fn rejection(&self) -> Option<IdentifierError> {
        None
    }

    fn into_job_name(self) -> (res: Result<JobName, IdentifierError>) {
        Ok(self)
    }
}

/// Settings of a scheduler.
#[derive(Debug, Clone, PartialEq, Eq)]
pub struct Config {
    pub worker_id: WorkerId,
    pub poll_interval: Duration,
    pub reaper_interval: Duration,
    pub shutdown_timeout: Duration,
    /// How many handlers run at once: at least one.
    pub max_concurrency: usize,
}

/// The settings that worker `worker_id` starts from: a poll each second, a
/// recovery every twenty, twenty-five seconds to shut down.
pub open spec fn default_config(worker_id: WorkerId) -> Config {
    Config {
        worker_id,
        poll_interval: Duration { nanos: 1_000_000_000 },
        reaper_interval: Duration { nanos: 20_000_000_000 },
        shutdown_timeout: Duration { nanos: 25_000_000_000 },
        max_concurrency: DEFAULT_MAX_CONCURRENCY,
    }
}

/// Builds a [`Scheduler`] over a source of connections `P`, with handlers `H`.
pub struct SchedulerBuilder<P, H> {
    pool: P,
    registry: Registry<H>,
    config: Config,
}

impl<P, H> SchedulerBuilder<P, H> {
    pub closed spec fn pool_spec(&self) -> P {
        self.pool
    }

    /// The registered handlers by name.
    pub closed spec fn handlers(&self) -> Map<Seq<char>, H> {
        self.registry@
    }

    pub closed spec fn config_spec(&self) -> Config {
        self.config
    }

    pub fn new(pool: P, worker_id: WorkerId) -> (res: Self)
        ensures
            res.pool_spec() == pool,
            res.handlers() == Map::<Seq<char>, H>::empty(),
            res.config_spec() == default_config(worker_id),
    {
        SchedulerBuilder {
            pool,
            registry: Registry::new(),
            config: Config {
                worker_id,
                poll_interval: Duration::from_secs(1),
                reaper_interval: Duration::from_secs(20),
                shutdown_timeout: Duration::from_secs(25),
                max_concurrency: DEFAULT_MAX_CONCURRENCY,
            },
        }
    }

    pub fn poll_interval(self, d: Duration) -> (res: Self)
        ensures
            res.pool_spec() == self.pool_spec(),
            res.handlers() == self.handlers(),
            res.config_spec() == (Config { poll_interval: d, ..self.config_spec() }),
    {
        let mut builder = self;
        builder.config.poll_interval = d;
        builder
    }

    pub fn reaper_interval(self, d: Duration) -> (res: Self)
        ensures
            res.pool_spec() == self.pool_spec(),
            res.handlers() == self.handlers(),
            res.config_spec() == (Config { reaper_interval: d, ..self.config_spec() }),
    {
        let mut builder = self;
        builder.config.reaper_interval = d;
        builder
    }

    pub fn shutdown_timeout(self, d: Duration) -> (res: Self)
        ensures
            res.pool_spec() == self.pool_spec(),
            res.handlers() == self.handlers(),
            res.config_spec() == (Config { shutdown_timeout: d, ..self.config_spec() }),
    {
        let mut builder = self;
        builder.config.shutdown_timeout = d;
        builder
    }

    /// Runs at most `n` handlers at once.
    pub fn max_concurrency(self, n: usize) -> (res: Self)
        requires
            n > 0,
        ensures
            res.pool_spec() == self.pool_spec(),
            res.handlers() == self.handlers(),
            res.config_spec() == (Config { max_concurrency: n, ..self.config_spec() }),
    {
        let mut builder = self;
        builder.config.max_concurrency = n;
        builder
    }

    /// Registers `handler` under `name`. A name that is invalid, or has a handler
    /// already, is an error.
    pub fn register(self, name: impl IntoJobName, handler: H) -> (res: Result<Self, RegisterError>)
        ensures
            match name.rejection() {
                Some(e) => res == Err::<Self, RegisterError>(RegisterError::Name(e)),
                None => if self.handlers().dom().contains(name.text()) {
                    res matches Err(RegisterError::Duplicate(DuplicateJobName(taken)))
                        && taken@ == name.text()
                } else {
                    &&& res is Ok
                    &&& res->Ok_0.pool_spec() == self.pool_spec()
                    &&& res->Ok_0.config_spec() == self.config_spec()
                    &&& res->Ok_0.handlers() == self.handlers().insert(name.text(), handler)
                },
            },
    {
        let mut builder = self;
        let name = match name.into_job_name() {
            Ok(name) => name,
            Err(e) => return Err(RegisterError::Name(e)),
        };
        match builder.registry.register(name, handler) {
            Ok(()) => Ok(builder),
            Err(duplicate) => Err(RegisterError::Duplicate(duplicate)),
        }
    }

    /// The scheduler, where at least one handler is registered.
    pub fn build(self) -> (res: Result<Scheduler<P, H>, SchedulerError>)
        ensures
            self.handlers() == Map::<Seq<char>, H>::empty() ==> res is Err && res->Err_0 is Config
                && res->Err_0->Config_0@ == "at least one handler must be registered"@,
            self.handlers() != Map::<Seq<char>, H>::empty() ==> {
                &&& res is Ok
                &&& res->Ok_0.pool == self.pool_spec()
                &&& res->Ok_0.registry@ == self.handlers()
                &&& res->Ok_0.config == self.config_spec()
            },
    {
        if self.registry.is_empty() {
            return Err(
                SchedulerError::Config("at least one handler must be registered".to_owned()),
            );
        }
        Ok(Scheduler { pool: self.pool, registry: self.registry, config: self.config })
    }
}

/// A configured worker over a source of connections `P`, with handlers `H`.
pub struct Scheduler<P, H> {
    pub pool: P,
    pub registry: Registry<H>,
    pub config: Config,
}

impl<P, H> Scheduler<P, H> {
    /// Starts the configuration of worker `worker_id`.
    pub fn builder(pool: P, worker_id: WorkerId) -> (res: SchedulerBuilder<P, H>)
        ensures
            res.pool_spec() == pool,
            res.handlers() == Map::<Seq<char>, H>::empty(),
            res.config_spec() == default_config(worker_id),
    {
        SchedulerBuilder::new(pool, worker_id)
    }
}

} // verus!
