//! Storing jobs: what was asked for is what is read back.
use vstd::prelude::*;

use crate::cron;
use crate::error::SchedulerError;
use crate::ids::JobId;
use crate::jobs;
use crate::models;
use crate::models::{Job, SchedulerJob};
use crate::policy;
use crate::tables;
use crate::tables::TablesView;
use crate::time::Timestamp;

verus! {

/// Whether `spec` asks for a job that can be: its expression, lease and attempt
/// count are valid.
pub open spec fn valid(spec: jobs::JobSpec) -> bool {
    &&& cron::cron_rejection(spec.cron) is None
    &&& policy::stored_lease_rejection(spec.lease_duration) is None
    &&& spec.max_attempts > 0
}

/// Whether `job` is what `spec` asks for.
pub open spec fn fulfils(spec: jobs::JobSpec, job: Job) -> bool {
    &&& job.name@ == spec.name@
    &&& job.cron@ == spec.cron
    &&& job.args == spec.args
    &&& job.lease_duration.micros() == spec.lease_duration.microseconds
    &&& job.max_attempts.to_i32() == spec.max_attempts
}

/// A job that was created is there under its identifier, and its row stands for the
/// job that was returned: what was asked for, with a cursor at a whole minute in the
/// future.
pub proof fn law_a_created_job_is_read_back(
    v: TablesView,
    now: Timestamp,
    id: JobId,
    spec: jobs::JobSpec,
    after: TablesView,
    job: Job,
)
    requires
        valid(spec),
        jobs::creates(v, now, id, spec, after, Ok(job)),
    ensures
        after.job(id) is Some,
        models::job_of(after.job(id)->0, Ok(job)),
        job.id == id,
        fulfils(spec, job),
        job.lifecycle is Paused <==> spec.is_paused,
        cron::is_slot(job.next_run_at.micros, now.micros),
{
    let row = after.jobs.last();
    let same = |j: SchedulerJob| j.id == id;
    tables::lemma_first_position(v.jobs, same);
    assert forall|i: int| 0 <= i < v.jobs.len() implies !same(#[trigger] after.jobs[i]) by {
        assert(after.jobs[i] == v.jobs[i]);
        assert(!same(v.jobs[i]));
    }
    tables::lemma_is_first_position(after.jobs, same, v.jobs.len() as int);
    assert(after.job(id) == Some(row));
}

/// A job that was ensured is there under its name, and its row stands for the job
/// that was returned: what was asked for.
pub proof fn law_an_ensured_job_is_read_back(
    v: TablesView,
    now: Timestamp,
    id: JobId,
    spec: jobs::JobSpec,
    after: TablesView,
    job: Job,
)
    requires
        valid(spec),
        jobs::ensures_job(v, now, id, spec, after, Ok(job)),
    ensures
        after.has_named(spec.name@),
        models::job_of(after.jobs[after.named_position(spec.name@)], Ok(job)),
        fulfils(spec, job),
{
    let named = |j: SchedulerJob| j.name@ == spec.name@;
    tables::lemma_first_position(v.jobs, named);
    let at = v.named_position(spec.name@);
    assert forall|i: int| 0 <= i < at implies !named(#[trigger] after.jobs[i]) by {
        assert(after.jobs[i] == v.jobs[i]);
        assert(!named(v.jobs[i]));
    }
    tables::lemma_is_first_position(after.jobs, named, at);
}

/// A job whose cursor was moved is read back with the cursor where it was put, and
/// with nothing else changed.
pub proof fn law_a_moved_cursor_is_read_back(
    v: TablesView,
    now: Timestamp,
    id: JobId,
    at: Timestamp,
    after: TablesView,
    res: Result<Option<Job>, SchedulerError>,
)
    requires
        v.has_job(id),
        jobs::reschedules(v, now, id, jobs::ScheduleUpdate::SetNextRunAt(at), after, res),
    ensures
        after.job(id) == Some(SchedulerJob { next_run_at: at, updated_at: now, ..v.job(id)->0 }),
        jobs::found_job(after.job(id)->0, res),
        models::projectable(v.job(id)->0) <==> res is Ok,
        res is Ok ==> res->Ok_0 is Some && res->Ok_0->0.next_run_at == at,
{
    let same = |j: SchedulerJob| j.id == id;
    tables::lemma_first_position(v.jobs, same);
    let p = v.job_position(id);
    assert forall|i: int| 0 <= i < p implies !same(#[trigger] after.jobs[i]) by {
        assert(after.jobs[i] == v.jobs[i]);
        assert(!same(v.jobs[i]));
    }
    tables::lemma_is_first_position(after.jobs, same, p);
}

} // verus!
