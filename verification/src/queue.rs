//! Enqueueing, cancelling and pruning of tasks.
use vstd::prelude::*;

use crate::error::{DatabaseError, SchedulerError};
use crate::ids;
use crate::ids::{DeduplicationKey, JobName, LeaseToken, RunId};
use crate::models::{AttemptRow, SchedulerRun, StoredAttemptOutcome, StoredRunState};
use crate::policy::{LeaseDuration, MaxAttempts, RetryBackoff};
use crate::ranking;
use crate::ranking::Rank;
use crate::selection;
use crate::store::finalize;
use crate::tables;
use crate::tables::{Tables, TablesView};
use crate::time::{DbClock, PgInterval, Timestamp};

verus! {

/// How urgent a task is: the greater, the sooner it is claimed.
#[derive(Debug, Clone, Copy, PartialEq, Eq, Structural)]
pub struct Priority {
    value: i16,
}

impl Priority {
    pub closed spec fn value_spec(&self) -> i16 {
        self.value
    }

    /// The priority of a task that asks for none.
    pub fn normal() -> (res: Self)
        ensures
            res.get() == 0,
    {
        Priority { value: 0 }
    }

    pub fn new(value: i16) -> (res: Self)
        ensures
            res.get() == value,
    {
        Priority { value }
    }

    #[verifier::when_used_as_spec(value_spec)]
    pub fn get(&self) -> (res: i16)
        ensures
            res == self.get(),
    {
        self.value
    }
}

/// When a task may be claimed.
#[derive(Debug, Clone, Copy, PartialEq, Eq, Structural)]
pub enum Availability {
    Immediate,
    At(Timestamp),
}

/// Whether a task is enqueued once for each key.
#[derive(Debug, PartialEq, Eq)]
pub enum Deduplication {
    Off,
    Key(DeduplicationKey),
}

impl Default for Deduplication {
    fn default() -> (res: Self)
        ensures
            res is Off,
    {
        Deduplication::Off
    }
}

impl Clone for Deduplication {
    fn clone(&self) -> (res: Self)
        ensures
            res == *self,
    {
        match self {
            Deduplication::Off => Deduplication::Off,
            Deduplication::Key(key) => Deduplication::Key(key.clone()),
        }
    }
}

/// How a task is to be run.
#[derive(Debug, Clone)]
pub struct EnqueueOptions {
    availability: Availability,
    priority: Priority,
    lease_duration: LeaseDuration,
    max_attempts: MaxAttempts,
    retry_backoff: RetryBackoff,
    deduplication: Deduplication,
}

/// What [`EnqueueOptions`] ask for. `available_at` is absent where the task may be
/// claimed at once, `key` where it is not deduplicated.
pub ghost struct OptionsView {
    pub available_at: Option<Timestamp>,
    pub priority: i16,
    pub lease_duration: PgInterval,
    pub max_attempts: i32,
    pub retry_backoff: PgInterval,
    pub key: Option<DeduplicationKey>,
}

impl View for EnqueueOptions {
    type V = OptionsView;

    closed spec fn view(&self) -> OptionsView {
        OptionsView {
            available_at: match self.availability {
                Availability::Immediate => None,
                Availability::At(at) => Some(at),
            },
            priority: self.priority.get(),
            lease_duration: PgInterval {
                microseconds: self.lease_duration.micros(),
                days: 0,
                months: 0,
            },
            max_attempts: self.max_attempts.to_i32(),
            retry_backoff: PgInterval {
                microseconds: self.retry_backoff.micros(),
                days: 0,
                months: 0,
            },
            key: match self.deduplication {
                Deduplication::Off => None,
                Deduplication::Key(key) => Some(key),
            },
        }
    }
}

/// What options ask for where nothing else is said.
pub open spec fn default_options() -> OptionsView {
    OptionsView {
        available_at: None,
        priority: 0,
        lease_duration: PgInterval { microseconds: 300_000_000, days: 0, months: 0 },
        max_attempts: 3,
        retry_backoff: PgInterval { microseconds: 1_000_000, days: 0, months: 0 },
        key: None,
    }
}

impl Default for EnqueueOptions {
    fn default() -> (res: Self)
        ensures
            res@ == default_options(),
    {
        EnqueueOptions {
            availability: Availability::Immediate,
            priority: Priority::normal(),
            lease_duration: LeaseDuration::default_value(),
            max_attempts: MaxAttempts::default_value(),
            retry_backoff: RetryBackoff::default(),
            deduplication: Deduplication::Off,
        }
    }
}

impl EnqueueOptions {
    /// A task that may be claimed at once.
    pub fn immediate() -> (res: Self)
        ensures
            res@ == default_options(),
    {
        Self::default()
    }

    /// A task that may be claimed from `available_at` on.
    pub fn at(available_at: Timestamp) -> (res: Self)
        ensures
            res@ == (OptionsView { available_at: Some(available_at), ..default_options() }),
    {
        let mut options = Self::default();
        options.availability = Availability::At(available_at);
        options
    }

    pub fn priority(self, priority: Priority) -> (res: Self)
        ensures
            res@ == (OptionsView { priority: priority.get(), ..self@ }),
    {
        let mut options = self;
        options.priority = priority;
        options
    }

    pub fn lease_duration(self, lease_duration: LeaseDuration) -> (res: Self)
        ensures
            res@ == (OptionsView {
                lease_duration: PgInterval {
                    microseconds: lease_duration.micros(),
                    days: 0,
                    months: 0,
                },
                ..self@
            }),
    {
        let mut options = self;
        options.lease_duration = lease_duration;
        options
    }

    pub fn max_attempts(self, max_attempts: MaxAttempts) -> (res: Self)
        ensures
            res@ == (OptionsView { max_attempts: max_attempts.to_i32(), ..self@ }),
    {
        let mut options = self;
        options.max_attempts = max_attempts;
        options
    }

    pub fn retry_backoff(self, retry_backoff: RetryBackoff) -> (res: Self)
        ensures
            res@ == (OptionsView {
                retry_backoff: PgInterval {
                    microseconds: retry_backoff.micros(),
                    days: 0,
                    months: 0,
                },
                ..self@
            }),
    {
        let mut options = self;
        options.retry_backoff = retry_backoff;
        options
    }

    pub fn deduplicate(self, key: DeduplicationKey) -> (res: Self)
        ensures
            res@ == (OptionsView { key: Some(key), ..self@ }),
    {
        let mut options = self;
        options.deduplication = Deduplication::Key(key);
        options
    }

    /// The key under which the task is enqueued once, if it has one.
    pub fn key(&self) -> (res: Option<&DeduplicationKey>)
        ensures
            match self@.key {
                Some(key) => res == Some(&key),
                None => res is None,
            },
    {
        match &self.deduplication {
            Deduplication::Off => None,
            Deduplication::Key(key) => Some(key),
        }
    }
}

/// The task that a request stands for.
#[derive(Debug, Clone, Copy, PartialEq, Eq, Structural)]
pub struct EnqueuedTask {
    pub task_id: RunId,
}

/// What became of a request to cancel a task.
#[derive(Debug, Clone, Copy, PartialEq, Eq, Structural)]
pub enum CancelOutcome {
    Cancelled,
    AlreadyTerminal,
    NotFound,
}

/// The run that enqueueing task `name` adds under `id`.
pub open spec fn enqueued_run(
    id: RunId,
    name: JobName,
    args: serde_json::Value,
    options: OptionsView,
    now: Timestamp,
) -> SchedulerRun {
    let available_at = match options.available_at {
        Some(at) => at,
        None => now,
    };
    SchedulerRun {
        id,
        job_id: None,
        job_name: name,
        job_args: args,
        scheduled_for: available_at,
        available_at,
        priority: options.priority,
        state: StoredRunState::Pending,
        attempt_count: 0,
        max_attempts: options.max_attempts,
        lease_duration: options.lease_duration,
        retry_backoff: options.retry_backoff,
        worker_id: None,
        lease_token: None,
        lease_expires_at: None,
        started_at: None,
        finished_at: None,
        last_error: None,
        deduplication_key: options.key,
        created_at: now,
        updated_at: now,
    }
}

/// What enqueueing task `name` under `id` does to `v`, and what it returns. A task
/// with a key that is already there is not added again.
pub open spec fn enqueue_effect(
    v: TablesView,
    now: Timestamp,
    id: RunId,
    name: JobName,
    args: serde_json::Value,
    options: OptionsView,
) -> (TablesView, Result<EnqueuedTask, SchedulerError>) {
    if options.key is Some && v.has_keyed(name@, options.key->0@) {
        (
            v,
            Ok(
                EnqueuedTask {
                    task_id: v.runs[v.keyed_position(name@, options.key->0@)].id,
                },
            ),
        )
    } else if v.has_run(id) {
        (v, Err(SchedulerError::Database(DatabaseError::UniqueViolation)))
    } else {
        (
            TablesView {
                runs: v.runs.push(enqueued_run(id, name, args, options, now)),
                ..v
            },
            Ok(EnqueuedTask { task_id: id }),
        )
    }
}

/// Enqueues task `name` under the identifier `id`.
pub fn enqueue_run(
    tables: &mut Tables,
    clock: &DbClock,
    id: RunId,
    name: JobName,
    args: serde_json::Value,
    options: EnqueueOptions,
) -> (res: Result<EnqueuedTask, SchedulerError>)
    ensures
        (final(tables)@, res) == enqueue_effect(
            old(tables)@,
            clock.now(),
            id,
            name,
            args,
            options@,
        ),
{
    let now: Timestamp = clock.now();
    let key = match options.deduplication {
        Deduplication::Off => None,
        Deduplication::Key(key) => Some(key),
    };
    if let Some(key) = &key {
        let at: usize = tables.find_keyed(&name, key);
        if at < tables.runs.len() {
            return Ok(EnqueuedTask { task_id: tables.runs[at].id });
        }
    }
    if tables.find_run(id) < tables.runs.len() {
        return Err(SchedulerError::Database(DatabaseError::UniqueViolation));
    }
    let available_at: Timestamp = match options.availability {
        Availability::Immediate => now,
        Availability::At(at) => at,
    };
    let run = SchedulerRun {
        id,
        job_id: None,
        job_name: name,
        job_args: args,
        scheduled_for: available_at,
        available_at,
        priority: options.priority.get(),
        state: StoredRunState::Pending,
        attempt_count: 0,
        max_attempts: options.max_attempts.to_i32(),
        lease_duration: options.lease_duration.to_pg_interval(),
        retry_backoff: options.retry_backoff.to_pg_interval(),
        worker_id: None,
        lease_token: None,
        lease_expires_at: None,
        started_at: None,
        finished_at: None,
        last_error: None,
        deduplication_key: key,
        created_at: now,
        updated_at: now,
    };
    tables.runs.push(run);
    Ok(EnqueuedTask { task_id: id })
}

/// Whether `res` and `after` are what enqueueing the serialized task `name` owes:
/// the effect of [`enqueue_run`] under some random identifier.
pub open spec fn enqueues(
    v: TablesView,
    now: Timestamp,
    name: JobName,
    args: serde_json::Value,
    options: OptionsView,
    id: RunId,
    after: TablesView,
    res: Result<EnqueuedTask, SchedulerError>,
) -> bool {
    ids::is_random_uuid(id.0) && (after, res) == enqueue_effect(v, now, id, name, args, options)
}

/// Enqueues task `name` with the outcome `args` of serializing its arguments. An
/// invalid name is reported before arguments that could not be serialized; neither
/// adds anything.
pub fn enqueue(
    tables: &mut Tables,
    clock: &DbClock,
    name: &str,
    args: Result<serde_json::Value, String>,
    options: EnqueueOptions,
) -> (res: Result<EnqueuedTask, SchedulerError>)
    ensures
        match (ids::identifier_rejection(name@), args) {
            (Some(e), _) => final(tables)@ == old(tables)@ && res == Err::<
                EnqueuedTask,
                SchedulerError,
            >(SchedulerError::Identifier(e)),
            (None, Err(m)) => final(tables)@ == old(tables)@ && res == Err::<
                EnqueuedTask,
                SchedulerError,
            >(SchedulerError::Serde(m)),
            (None, Ok(value)) => exists|n: JobName, id: RunId|
                n@ == name@ && #[trigger] enqueues(
                    old(tables)@,
                    clock.now(),
                    n,
                    value,
                    options@,
                    id,
                    final(tables)@,
                    res,
                ),
        },
{
    let name = match JobName::try_from(name) {
        Ok(name) => name,
        Err(e) => return Err(SchedulerError::Identifier(e)),
    };
    let value = match args {
        Ok(value) => value,
        Err(m) => return Err(SchedulerError::Serde(m)),
    };
    let id: RunId = RunId::generate();
    let ghost n = name;
    let res = enqueue_run(tables, clock, id, name, value, options);
    assert(enqueues(old(tables)@, clock.now(), n, value, options@, id, tables@, res));
    res
}

/// Whether an attempt of run `id` is live under `token`.
pub open spec fn has_live_attempt(v: TablesView, id: RunId, token: LeaseToken) -> bool {
    exists|k: int|
        0 <= k < v.attempts.len() && tables::is_live(#[trigger] v.attempts[k], token)
            && v.attempts[k].run_id == id
}

/// `r` cancelled at `wall`.
pub open spec fn cancelled_row(r: SchedulerRun, wall: Timestamp) -> SchedulerRun {
    finalize::released(r, StoredRunState::Cancelled, Some(wall), None, wall)
}

/// What [`cancel`] does to `v`, and what it returns. A running task is cancelled
/// together with its live attempt.
pub open spec fn cancel_effect(
    v: TablesView,
    wall: Timestamp,
    id: RunId,
) -> (TablesView, CancelOutcome) {
    if !v.has_run(id) {
        (v, CancelOutcome::NotFound)
    } else {
        let r = v.run(id)->0;
        if r.state is Pending {
            (v.with_run(cancelled_row(r, wall)), CancelOutcome::Cancelled)
        } else if r.state is Running && r.lease_token is Some {
            let closed = tables::close_live(
                v.attempts,
                r.lease_token->0,
                StoredAttemptOutcome::Cancelled,
                None,
                wall,
            );
            if has_live_attempt(v, id, r.lease_token->0) {
                (
                    TablesView { attempts: closed, ..v.with_run(cancelled_row(r, wall)) },
                    CancelOutcome::Cancelled,
                )
            } else {
                (TablesView { attempts: closed, ..v }, CancelOutcome::AlreadyTerminal)
            }
        } else {
            (v, CancelOutcome::AlreadyTerminal)
        }
    }
}

fn find_live_attempt(tables: &Tables, id: RunId, token: LeaseToken) -> (res: bool)
    ensures
        res == has_live_attempt(tables@, id, token),
{
    let mut k: usize = 0;
    while k < tables.attempts.len()
        invariant
            k <= tables.attempts@.len(),
            forall|j: int|
                0 <= j < k ==> !(tables::is_live(#[trigger] tables.attempts@[j], token)
                    && tables.attempts@[j].run_id == id),
        decreases tables.attempts@.len() - k,
    {
        let attempt = &tables.attempts[k];
        if attempt.lease_token == token && attempt.outcome.is_none() && attempt.run_id == id {
            assert(tables::is_live(tables@.attempts[k as int], token));
            return true;
        }
        k = k + 1;
    }
    false
}

fn cancel_at(tables: &mut Tables, at: usize, wall: Timestamp)
    requires
        at < old(tables).runs@.len(),
    ensures
        final(tables)@ == (TablesView {
            runs: old(tables).runs@.update(
                at as int,
                cancelled_row(old(tables).runs@[at as int], wall),
            ),
            ..old(tables)@
        }),
{
    tables.runs[at].state = StoredRunState::Cancelled;
    tables.runs[at].worker_id = None;
    tables.runs[at].lease_token = None;
    tables.runs[at].lease_expires_at = None;
    tables.runs[at].started_at = None;
    tables.runs[at].finished_at = Some(wall);
    tables.runs[at].last_error = None;
    tables.runs[at].updated_at = wall;
}

/// Cancels a pending or running task. The live attempt of a running task ends with
/// it, and its worker is fenced from then on.
pub fn cancel(tables: &mut Tables, clock: &DbClock, task_id: RunId) -> (res: Result<
    CancelOutcome,
    SchedulerError,
>)
    ensures
        res is Ok,
        (final(tables)@, res->Ok_0) == cancel_effect(old(tables)@, clock.wall(), task_id),
{
    let wall: Timestamp = clock.wall();
    let at: usize = tables.find_run(task_id);
    if at == tables.runs.len() {
        return Ok(CancelOutcome::NotFound);
    }
    match tables.runs[at].state {
        StoredRunState::Pending => {
            cancel_at(tables, at, wall);
            Ok(CancelOutcome::Cancelled)
        },
        StoredRunState::Running => {
            let token = match tables.runs[at].lease_token {
                Some(token) => token,
                None => return Ok(CancelOutcome::AlreadyTerminal),
            };
            let live = find_live_attempt(tables, task_id, token);
            if live {
                cancel_at(tables, at, wall);
            }
            tables.close_live(token, StoredAttemptOutcome::Cancelled, None, wall);
            if live {
                Ok(CancelOutcome::Cancelled)
            } else {
                Ok(CancelOutcome::AlreadyTerminal)
            }
        },
        StoredRunState::Completed | StoredRunState::Failed | StoredRunState::Cancelled => Ok(
            CancelOutcome::AlreadyTerminal,
        ),
    }
}

/// Whether `r` ended before `before`.
pub open spec fn prunable(r: SchedulerRun, before: Timestamp) -> bool {
    &&& r.state.terminal()
    &&& r.finished_at is Some
    &&& r.finished_at->0.micros < before.micros
}

/// Longest ended first, then by identifier.
pub open spec fn prune_rank(r: SchedulerRun) -> Rank {
    Rank {
        major: if r.finished_at is Some {
            r.finished_at->0.micros
        } else {
            0
        },
        minor: 0,
        id: r.id.0,
    }
}

/// The runs that one pruning of at most `limit` takes, longest ended first.
pub open spec fn doomed(v: TablesView, before: Timestamp, limit: nat) -> Seq<RunId> {
    selection::selected(
        v.runs,
        |r: SchedulerRun| prunable(r, before),
        |r: SchedulerRun| prune_rank(r),
        limit,
    )
}

/// `v` without the runs `ids` and their attempts.
pub open spec fn without(v: TablesView, ids: Seq<RunId>) -> TablesView {
    TablesView {
        runs: v.runs.filter(|r: SchedulerRun| !ids.contains(r.id)),
        attempts: v.attempts.filter(|a: AttemptRow| !ids.contains(a.run_id)),
        ..v
    }
}

/// The runs that one pruning of at most `limit` takes.
fn prune_candidates(tables: &Tables, before: Timestamp, limit: usize) -> (res: Vec<RunId>)
    ensures
        res@ == doomed(tables@, before, limit as nat),
{
    let ghost p = |r: SchedulerRun| prunable(r, before);
    let ghost key = |r: SchedulerRun| prune_rank(r);
    let mut ranks: Vec<Rank> = Vec::new();
    let mut i: usize = 0;
    assert(tables.runs@.take(0) =~= Seq::<SchedulerRun>::empty());
    while i < tables.runs.len()
        invariant
            i <= tables.runs@.len(),
            ranks@ == ranking::ranks_where(tables.runs@.take(i as int), p, key),
            p == (|r: SchedulerRun| prunable(r, before)),
            key == (|r: SchedulerRun| prune_rank(r)),
        decreases tables.runs@.len() - i,
    {
        proof {
            ranking::lemma_ranks_step(tables.runs@, p, key, i as int);
        }
        let run = &tables.runs[i];
        if let Some(finished_at) = run.finished_at {
            if run.state.is_terminal() && finished_at.micros < before.micros {
                ranks.push(Rank { major: finished_at.micros, minor: 0, id: run.id.0 });
            }
        }
        i = i + 1;
    }
    assert(tables.runs@.take(i as int) =~= tables.runs@);
    let first: Vec<Rank> = ranking::select(&ranks, limit);
    selection::run_ids(&first)
}

proof fn lemma_filter_step<T>(rows: Seq<T>, p: spec_fn(T) -> bool, n: int)
    requires
        0 <= n < rows.len(),
    ensures
        rows.take(n + 1).filter(p) == if p(rows[n]) {
            rows.take(n).filter(p).push(rows[n])
        } else {
            rows.take(n).filter(p)
        },
{
    reveal(Seq::filter);
    assert(rows.take(n + 1).drop_last() =~= rows.take(n));
}

fn remove_runs(tables: &mut Tables, ids: &Vec<RunId>)
    ensures
        final(tables)@ == (TablesView {
            runs: without(old(tables)@, ids@).runs,
            ..old(tables)@
        }),
{
    let ghost rows = tables.runs@;
    let ghost p = |r: SchedulerRun| !ids@.contains(r.id);
    let ghost mut seen: int = 0;
    let mut i: usize = 0;
    proof {
        reveal(Seq::filter);
        assert(rows.take(0).filter(p) + rows.skip(0) =~= rows);
    }
    while i < tables.runs.len()
        invariant
            p == (|r: SchedulerRun| !ids@.contains(r.id)),
            0 <= seen <= rows.len(),
            i == rows.take(seen).filter(p).len(),
            tables.runs@ == rows.take(seen).filter(p) + rows.skip(seen),
            tables.jobs == old(tables).jobs,
            tables.attempts == old(tables).attempts,
        decreases rows.len() - seen,
    {
        assert(seen < rows.len());
        proof {
            lemma_filter_step(rows, p, seen);
            assert(tables.runs@[i as int] == rows[seen]);
        }
        if selection::contains_id(ids, tables.runs[i].id) {
            tables.runs.remove(i);
        } else {
            i = i + 1;
        }
        proof {
            seen = seen + 1;
            assert(tables.runs@ =~= rows.take(seen).filter(p) + rows.skip(seen));
        }
    }
    assert(rows.take(seen) =~= rows);
    assert(tables.runs@ =~= rows.filter(p));
}

fn remove_attempts(tables: &mut Tables, ids: &Vec<RunId>)
    ensures
        final(tables)@ == (TablesView {
            attempts: without(old(tables)@, ids@).attempts,
            ..old(tables)@
        }),
{
    let ghost rows = tables.attempts@;
    let ghost p = |a: AttemptRow| !ids@.contains(a.run_id);
    let ghost mut seen: int = 0;
    let mut i: usize = 0;
    proof {
        reveal(Seq::filter);
        assert(rows.take(0).filter(p) + rows.skip(0) =~= rows);
    }
    while i < tables.attempts.len()
        invariant
            p == (|a: AttemptRow| !ids@.contains(a.run_id)),
            0 <= seen <= rows.len(),
            i == rows.take(seen).filter(p).len(),
            tables.attempts@ == rows.take(seen).filter(p) + rows.skip(seen),
            tables.jobs == old(tables).jobs,
            tables.runs == old(tables).runs,
        decreases rows.len() - seen,
    {
        assert(seen < rows.len());
        proof {
            lemma_filter_step(rows, p, seen);
            assert(tables.attempts@[i as int] == rows[seen]);
        }
        if selection::contains_id(ids, tables.attempts[i].run_id) {
            tables.attempts.remove(i);
        } else {
            i = i + 1;
        }
        proof {
            seen = seen + 1;
            assert(tables.attempts@ =~= rows.take(seen).filter(p) + rows.skip(seen));
        }
    }
    assert(rows.take(seen) =~= rows);
    assert(tables.attempts@ =~= rows.filter(p));
}

/// Deletes up to `limit` runs that ended before `before`, with their attempts, and
/// tells how many it deleted. Pending and running tasks are never deleted.
pub fn prune_terminal(tables: &mut Tables, before: Timestamp, limit: usize) -> (res: Result<
    usize,
    SchedulerError,
>)
    ensures
        limit > i64::MAX ==> final(tables)@ == old(tables)@ && res is Err && res->Err_0 is Config
            && res->Err_0->Config_0@ == "retention batch is too large"@,
        limit <= i64::MAX ==> {
            &&& final(tables)@ == without(
                old(tables)@,
                doomed(old(tables)@, before, limit as nat),
            )
            &&& res is Ok
            &&& res->Ok_0 == old(tables)@.runs.len() - final(tables)@.runs.len()
        },
{
    if limit as u64 > i64::MAX as u64 {
        return Err(SchedulerError::Config("retention batch is too large".to_owned()));
    }
    let ids = prune_candidates(tables, before, limit);
    let total: usize = tables.runs.len();
    remove_runs(tables, &ids);
    remove_attempts(tables, &ids);
    proof {
        old(tables)@.runs.lemma_filter_len(|r: SchedulerRun| !ids@.contains(r.id));
    }
    Ok(total - tables.runs.len())
}

} // verus!
