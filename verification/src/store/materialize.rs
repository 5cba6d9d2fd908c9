//! Turning due jobs into runs.
//!
//! The run for the slot that came due and the next cursor of the job are written
//! together, so a slot is never passed over. After a downtime one run stands for
//! the missed slot, and the cursor moves to the next slot in the future.
use vstd::prelude::*;

use crate::cron;
use crate::cron::CronExpression;
use crate::error::{DatabaseError, SchedulerError};
use crate::ids;
use crate::ids::RunId;
use crate::models::{SchedulerJob, SchedulerRun, StoredRunState};
use crate::tables::{Tables, TablesView};
use crate::time;
use crate::time::{DbClock, Timestamp};

verus! {

/// Most jobs that one materialization handles.
pub const MATERIALIZE_LIMIT: usize = 100;

/// Whether a job was due.
#[derive(Debug, Clone, Copy, PartialEq, Eq, Structural)]
pub enum Tick {
    Processed,
    Idle,
}

/// Whether `job` is active and its slot has come at `now`.
pub open spec fn is_due(job: SchedulerJob, now: Timestamp) -> bool {
    !job.is_paused && job.next_run_at.micros <= now.micros
}

/// Whether the next slots that handling the due jobs of `jobs` takes can be searched
/// from `now`: none is due, or schedules can be searched from there.
pub open spec fn can_advance(jobs: Seq<SchedulerJob>, now: Timestamp) -> bool {
    due_position(jobs, now) < jobs.len() ==> time::searchable(now.micros)
}

/// Where the job stands whose slot came first, among those that are due at `now`;
/// past the end where none is.
pub open spec fn due_position(jobs: Seq<SchedulerJob>, now: Timestamp) -> int
    decreases jobs.len(),
{
    if jobs.len() == 0 {
        0
    } else {
        let before = due_position(jobs.drop_last(), now);
        let none_before = before >= jobs.len() - 1;
        if is_due(jobs.last(), now) && (none_before || jobs.last().next_run_at.micros
            < jobs[before].next_run_at.micros) {
            jobs.len() - 1
        } else if none_before {
            jobs.len() as int
        } else {
            before
        }
    }
}

/// The job at `due_position` is due, no due job has an earlier slot, and where
/// there is none, no job is due.
pub proof fn lemma_due_position(jobs: Seq<SchedulerJob>, now: Timestamp)
    ensures
        0 <= due_position(jobs, now) <= jobs.len(),
        due_position(jobs, now) < jobs.len() ==> is_due(jobs[due_position(jobs, now)], now),
        due_position(jobs, now) < jobs.len() ==> forall|j: int|
            0 <= j < jobs.len() && is_due(#[trigger] jobs[j], now) ==> jobs[due_position(
                jobs,
                now,
            )].next_run_at.micros <= jobs[j].next_run_at.micros,
        due_position(jobs, now) == jobs.len() ==> forall|j: int|
            0 <= j < jobs.len() ==> !is_due(#[trigger] jobs[j], now),
    decreases jobs.len(),
{
    if jobs.len() > 0 {
        let init = jobs.drop_last();
        lemma_due_position(init, now);
        assert(forall|j: int| 0 <= j < init.len() ==> init[j] == jobs[j]);
    }
}

/// The run for the slot `job.next_run_at` of `job`. It holds its own copy of all
/// that its execution needs.
pub open spec fn occurrence(id: RunId, job: SchedulerJob, now: Timestamp) -> SchedulerRun {
    SchedulerRun {
        id,
        job_id: Some(job.id),
        job_name: job.name,
        job_args: job.job_args,
        scheduled_for: job.next_run_at,
        available_at: job.next_run_at,
        priority: 0,
        state: StoredRunState::Pending,
        attempt_count: 0,
        max_attempts: job.max_attempts,
        lease_duration: job.lease_duration,
        retry_backoff: job.retry_backoff,
        worker_id: None,
        lease_token: None,
        lease_expires_at: None,
        started_at: None,
        finished_at: None,
        last_error: None,
        deduplication_key: None,
        created_at: now,
        updated_at: now,
    }
}

/// `v` with the job at `at` paused.
pub open spec fn paused_at(v: TablesView, at: int, now: Timestamp) -> TablesView {
    TablesView {
        jobs: v.jobs.update(
            at,
            SchedulerJob { is_paused: true, updated_at: now, ..v.jobs[at] },
        ),
        ..v
    }
}

/// `v` with the cursor of the job at `at` moved to `next`.
pub open spec fn advanced_at(v: TablesView, at: int, next: Timestamp, now: Timestamp) -> TablesView {
    TablesView {
        jobs: v.jobs.update(
            at,
            SchedulerJob { next_run_at: next, updated_at: now, ..v.jobs[at] },
        ),
        ..v
    }
}

/// `v` with the run `id` for the slot of the job at `at`, unless that slot has a
/// run already.
pub open spec fn with_occurrence(v: TablesView, at: int, id: RunId, now: Timestamp) -> TablesView {
    if v.has_occurrence(v.jobs[at].id, v.jobs[at].next_run_at) {
        v
    } else {
        TablesView { runs: v.runs.push(occurrence(id, v.jobs[at], now)), ..v }
    }
}

/// What the expression of a due job gives for its next slot.
#[derive(Debug, Clone, PartialEq, Eq)]
pub enum Cursor {
    /// The grammar rejects the expression.
    Corrupt,
    /// The search found no slot.
    Stuck(SchedulerError),
    /// The next slot.
    Next(Timestamp),
}

impl Cursor {
    /// The next slot, where there is one.
    pub open spec fn slot(self) -> Option<Timestamp> {
        match self {
            Cursor::Next(next) => Some(next),
            _ => None,
        }
    }
}

/// What handling the due job at `at` does to `v`, and what it returns, where its
/// next slot is `next`. A job without one is paused and never advanced, so that it
/// does not stand in the way of the others.
pub open spec fn handled(
    v: TablesView,
    now: Timestamp,
    at: int,
    id: RunId,
    next: Option<Timestamp>,
) -> (TablesView, Result<Tick, SchedulerError>) {
    match next {
        None => (paused_at(v, at, now), Ok(Tick::Processed)),
        Some(next) => if !v.has_occurrence(v.jobs[at].id, v.jobs[at].next_run_at) && v.has_run(
            id,
        ) {
            (v, Err(SchedulerError::Database(DatabaseError::UniqueViolation)))
        } else {
            (
                advanced_at(with_occurrence(v, at, id, now), at, next, now),
                Ok(Tick::Processed),
            )
        },
    }
}

/// What [`materialize_one`] does to `v`, and what it returns.
pub open spec fn tick_effect(v: TablesView, now: Timestamp, id: RunId) -> (
    TablesView,
    Result<Tick, SchedulerError>,
) {
    let at = due_position(v.jobs, now);
    if at == v.jobs.len() {
        (v, Ok(Tick::Idle))
    } else {
        handled(v, now, at, id, cron::next_slot(v.jobs[at].cron_expression@, now))
    }
}

/// Where the job stands whose slot came first, among those that are due at `now`.
pub fn find_due(tables: &Tables, now: Timestamp) -> (res: usize)
    ensures
        res == due_position(tables.jobs@, now),
        res <= tables.jobs@.len(),
{
    let mut found: usize = 0;
    let mut i: usize = 0;
    assert(tables.jobs@.take(0) =~= Seq::<SchedulerJob>::empty());
    while i < tables.jobs.len()
        invariant
            i <= tables.jobs@.len(),
            found <= i,
            found == due_position(tables.jobs@.take(i as int), now),
        decreases tables.jobs@.len() - i,
    {
        let job = &tables.jobs[i];
        assert(tables.jobs@.take(i + 1).drop_last() =~= tables.jobs@.take(i as int));
        assert(tables.jobs@.take(i + 1).last() == job);
        if !job.is_paused && job.next_run_at.micros <= now.micros {
            if found == i || job.next_run_at.micros < tables.jobs[found].next_run_at.micros {
                found = i;
            }
        } else if found == i {
            found = i + 1;
        }
        i = i + 1;
    }
    assert(tables.jobs@.take(i as int) =~= tables.jobs@);
    found
}

/// What `expression` gives for the next slot after the start of the transaction.
pub fn stored_cursor(expression: &str, clock: &DbClock) -> (res: Cursor)
    requires
        time::searchable(clock.now().micros),
    ensures
        res.slot() == cron::next_slot(expression@, clock.now()),
        match cron::cron_rejection(expression@) {
            Some(_) => res == Cursor::Corrupt,
            None => match cron::cron_next(expression@, clock.now().micros) {
                Err(m) => res is Stuck && res->Stuck_0 is Cron && res->Stuck_0->Cron_0@ == m,
                Ok(next) => res == Cursor::Next(Timestamp { micros: next }),
            },
        },
{
    match CronExpression::parse(expression) {
        Ok(cron) => match cron.next_after(clock.now()) {
            Ok(next) => Cursor::Next(next),
            Err(e) => Cursor::Stuck(e),
        },
        Err(_) => Cursor::Corrupt,
    }
}

/// Handles the job at `at` whose expression gives `cursor`: adds the run `id` for
/// its slot, unless that slot has one, and moves the cursor. A job without a next
/// slot is paused.
pub fn handle_due(
    tables: &mut Tables,
    clock: &DbClock,
    at: usize,
    id: RunId,
    cursor: Cursor,
) -> (res: Result<Tick, SchedulerError>)
    requires
        at < old(tables).jobs@.len(),
    ensures
        (final(tables)@, res) == handled(
            old(tables)@,
            clock.now(),
            at as int,
            id,
            cursor.slot(),
        ),
{
    let now: Timestamp = clock.now();
    let next: Timestamp = match cursor {
        Cursor::Corrupt | Cursor::Stuck(_) => {
            tables.jobs[at].is_paused = true;
            tables.jobs[at].updated_at = now;
            assert(tables@ =~= paused_at(old(tables)@, at as int, now));
            return Ok(Tick::Processed);
        },
        Cursor::Next(next) => next,
    };
    let job = &tables.jobs[at];
    if tables.find_occurrence(job.id, job.next_run_at) == tables.runs.len() {
        if tables.find_run(id) < tables.runs.len() {
            return Err(SchedulerError::Database(DatabaseError::UniqueViolation));
        }
        let run = SchedulerRun {
            id,
            job_id: Some(job.id),
            job_name: job.name.clone(),
            job_args: job.job_args.clone(),
            scheduled_for: job.next_run_at,
            available_at: job.next_run_at,
            priority: 0,
            state: StoredRunState::Pending,
            attempt_count: 0,
            max_attempts: job.max_attempts,
            lease_duration: job.lease_duration,
            retry_backoff: job.retry_backoff,
            worker_id: None,
            lease_token: None,
            lease_expires_at: None,
            started_at: None,
            finished_at: None,
            last_error: None,
            deduplication_key: None,
            created_at: now,
            updated_at: now,
        };
        tables.runs.push(run);
    }
    tables.jobs[at].next_run_at = next;
    tables.jobs[at].updated_at = now;
    assert(tables@ =~= advanced_at(
        with_occurrence(old(tables)@, at as int, id, now),
        at as int,
        next,
        now,
    ));
    Ok(Tick::Processed)
}

/// Handles the job whose slot came first, if one is due: adds the run `id` for
/// that slot and moves the cursor to the next slot after the start of the
/// transaction. Both are written or neither is. A job whose expression is corrupt,
/// or has no further slot, is paused instead.
pub fn materialize_one(tables: &mut Tables, clock: &DbClock, id: RunId) -> (res: Result<
    Tick,
    SchedulerError,
>)
    requires
        can_advance(old(tables).jobs@, clock.now()),
    ensures
        (final(tables)@, res) == tick_effect(old(tables)@, clock.now(), id),
{
    let at: usize = find_due(tables, clock.now());
    if at == tables.jobs.len() {
        return Ok(Tick::Idle);
    }
    let cursor = stored_cursor(tables.jobs[at].cron_expression.as_str(), clock);
    handle_due(tables, clock, at, id, cursor)
}

/// What becomes of a batch that has handled `done` jobs when the next step gives
/// `tick`: how many it has handled where it goes on, and what it returns where it is
/// over.
pub open spec fn batch_step(done: usize, tick: Result<Tick, SchedulerError>) -> (
    usize,
    Option<Result<usize, SchedulerError>>,
) {
    match tick {
        Err(e) => (done, Some(Err(e))),
        Ok(Tick::Idle) => (done, Some(Ok(done))),
        Ok(Tick::Processed) => if done + 1 < MATERIALIZE_LIMIT {
            ((done + 1) as usize, None)
        } else {
            (done, Some(Ok((done + 1) as usize)))
        },
    }
}

/// A batch of due jobs that are handled one after the other, until none is due or
/// [`MATERIALIZE_LIMIT`] are done.
#[derive(Debug, Clone, Copy, PartialEq, Eq, Structural)]
pub struct Batch {
    done: usize,
}

impl Batch {
    #[verifier::type_invariant]
    spec fn inv(self) -> bool {
        self.done < MATERIALIZE_LIMIT
    }

    pub closed spec fn done_spec(&self) -> usize {
        self.done
    }

    pub fn new() -> (res: Self)
        ensures
            res.done() == 0,
    {
        Batch { done: 0 }
    }

    /// How many jobs the batch has handled.
    #[verifier::when_used_as_spec(done_spec)]
    pub fn done(&self) -> (res: usize)
        ensures
            res == self.done(),
            res < MATERIALIZE_LIMIT,
    {
        proof {
            use_type_invariant(self);
        }
        self.done
    }

    /// Takes the outcome of one step. Returns what the batch returns where it is
    /// over, and `None` where it goes on.
    pub fn on_tick(&mut self, tick: Result<Tick, SchedulerError>) -> (res: Option<
        Result<usize, SchedulerError>,
    >)
        ensures
            (final(self).done(), res) == batch_step(old(self).done(), tick),
    {
        proof {
            use_type_invariant(&*self);
        }
        match tick {
            Err(e) => Some(Err(e)),
            Ok(Tick::Idle) => Some(Ok(self.done)),
            Ok(Tick::Processed) => {
                let done: usize = self.done + 1;
                if done < MATERIALIZE_LIMIT {
                    self.done = done;
                    None
                } else {
                    Some(Ok(done))
                }
            },
        }
    }
}

/// What a batch that has handled `done` jobs does to `v` from there on, and what it
/// returns. Each further step takes the next of `run_ids`; without one the batch is
/// over.
pub open spec fn batch_from(
    v: TablesView,
    now: Timestamp,
    run_ids: Seq<RunId>,
    done: usize,
) -> (TablesView, Result<usize, SchedulerError>)
    decreases run_ids.len() - done,
{
    if done >= run_ids.len() {
        (v, Ok(done))
    } else {
        let (after, tick) = tick_effect(v, now, run_ids[done as int]);
        match batch_step(done, tick) {
            (_, Some(res)) => (after, res),
            (more, None) => batch_from(after, now, run_ids, more),
        }
    }
}

/// What [`materialize_due_jobs_as`] does to `v`, and what it returns.
pub open spec fn batch_effect(v: TablesView, now: Timestamp, run_ids: Seq<RunId>) -> (
    TablesView,
    Result<usize, SchedulerError>,
) {
    batch_from(v, now, run_ids, 0)
}

/// Handles due jobs one after the other, until none is due, [`MATERIALIZE_LIMIT`]
/// are done, or no identifier is left, and tells how many it handled. Step by step
/// the new run takes the next of `run_ids`. What was handled before an error stays.
pub fn materialize_due_jobs_as(
    tables: &mut Tables,
    clock: &DbClock,
    run_ids: &Vec<RunId>,
) -> (res: Result<usize, SchedulerError>)
    requires
        can_advance(old(tables).jobs@, clock.now()),
    ensures
        (final(tables)@, res) == batch_effect(old(tables)@, clock.now(), run_ids@),
{
    let mut batch = Batch::new();
    while batch.done() < run_ids.len()
        invariant
            batch.done() <= run_ids@.len(),
            can_advance(tables@.jobs, clock.now()),
            batch_from(tables@, clock.now(), run_ids@, batch.done()) == batch_effect(
                old(tables)@,
                clock.now(),
                run_ids@,
            ),
        decreases run_ids@.len() - batch.done(),
    {
        let tick = materialize_one(tables, clock, run_ids[batch.done()]);
        if let Some(res) = batch.on_tick(tick) {
            return res;
        }
    }
    Ok(batch.done())
}

/// Whether `run_ids` has a random identifier for each job that one materialization
/// may handle.
pub open spec fn are_drawn(run_ids: Seq<RunId>) -> bool {
    run_ids.len() == MATERIALIZE_LIMIT && forall|i: int|
        0 <= i < run_ids.len() ==> ids::is_random_uuid((#[trigger] run_ids[i]).0)
}

/// Handles due jobs one after the other, until none is due or
/// [`MATERIALIZE_LIMIT`] are done, and tells how many it handled. Each new run has
/// a random identifier.
pub fn materialize_due_jobs(tables: &mut Tables, clock: &DbClock) -> (res: Result<
    usize,
    SchedulerError,
>)
    requires
        can_advance(old(tables).jobs@, clock.now()),
    ensures
        exists|run_ids: Seq<RunId>| #[trigger]
            are_drawn(run_ids) && (final(tables)@, res) == batch_effect(
                old(tables)@,
                clock.now(),
                run_ids,
            ),
{
    let mut run_ids: Vec<RunId> = Vec::new();
    while run_ids.len() < MATERIALIZE_LIMIT
        invariant
            run_ids@.len() <= MATERIALIZE_LIMIT,
            forall|i: int|
                0 <= i < run_ids@.len() ==> ids::is_random_uuid((#[trigger] run_ids@[i]).0),
        decreases MATERIALIZE_LIMIT - run_ids@.len(),
    {
        run_ids.push(RunId::generate());
    }
    assert(are_drawn(run_ids@));
    materialize_due_jobs_as(tables, clock, &run_ids)
}

} // verus!
