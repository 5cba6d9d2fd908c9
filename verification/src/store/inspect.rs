//! Reading the state of a run and the history of its attempts.
use vstd::prelude::*;

use crate::error::SchedulerError;
use crate::ids::RunId;
use crate::models::{
    AttemptRow, AttemptState, Lease, RunState, SchedulerRun, StatusRow, StoredAttemptOutcome,
    StoredRunState, TaskAttempt, copy_text, copy_worker,
};
use crate::ranking;
use crate::ranking::Rank;
use crate::tables;
use crate::tables::{Tables, TablesView};
use crate::time::Timestamp;

verus! {

/// The columns of `r` from which its state is read.
pub open spec fn status_of(r: SchedulerRun) -> StatusRow {
    StatusRow {
        id: r.id,
        job_id: r.job_id,
        scheduled_for: r.scheduled_for,
        attempt_count: r.attempt_count,
        worker_id: r.worker_id,
        lease_token: r.lease_token,
        lease_expires_at: r.lease_expires_at,
        started_at: r.started_at,
        state: r.state,
        finished_at: r.finished_at,
        last_error: r.last_error,
    }
}

/// The state that `row` stands for, or the first column it lacks for its state.
pub open spec fn state_read(row: StatusRow) -> Result<RunState, SchedulerError> {
    match row.state {
        StoredRunState::Pending => Ok(RunState::Pending),
        StoredRunState::Running => if row.worker_id is None {
            Err(SchedulerError::Invariant("running task without worker"))
        } else if row.lease_token is None {
            Err(SchedulerError::Invariant("running task without token"))
        } else if row.lease_expires_at is None {
            Err(SchedulerError::Invariant("running task without expiry"))
        } else if row.started_at is None {
            Err(SchedulerError::Invariant("running task without start"))
        } else {
            Ok(
                RunState::Running(
                    Lease {
                        worker_id: row.worker_id->0,
                        lease_token: row.lease_token->0,
                        lease_expires_at: row.lease_expires_at->0,
                        started_at: row.started_at->0,
                    },
                ),
            )
        },
        StoredRunState::Completed => if row.finished_at is None {
            Err(SchedulerError::Invariant("completed task without finish"))
        } else {
            Ok(RunState::Completed { finished_at: row.finished_at->0 })
        },
        StoredRunState::Failed => if row.finished_at is None {
            Err(SchedulerError::Invariant("failed task without finish"))
        } else if row.last_error is None {
            Err(SchedulerError::Invariant("failed task without error"))
        } else {
            Ok(RunState::Failed { finished_at: row.finished_at->0, error: row.last_error->0 })
        },
        StoredRunState::Cancelled => if row.finished_at is None {
            Err(SchedulerError::Invariant("cancelled task without finish"))
        } else {
            Ok(RunState::Cancelled { finished_at: row.finished_at->0 })
        },
    }
}

/// The state that `row` stands for.
pub fn state_of(row: StatusRow) -> (res: Result<RunState, SchedulerError>)
    ensures
        res == state_read(row),
{
    match row.state {
        StoredRunState::Pending => Ok(RunState::Pending),
        StoredRunState::Running => {
            let worker_id = match row.worker_id {
                Some(worker_id) => worker_id,
                None => return Err(SchedulerError::Invariant("running task without worker")),
            };
            let lease_token = match row.lease_token {
                Some(lease_token) => lease_token,
                None => return Err(SchedulerError::Invariant("running task without token")),
            };
            let lease_expires_at: Timestamp = match row.lease_expires_at {
                Some(lease_expires_at) => lease_expires_at,
                None => return Err(SchedulerError::Invariant("running task without expiry")),
            };
            let started_at: Timestamp = match row.started_at {
                Some(started_at) => started_at,
                None => return Err(SchedulerError::Invariant("running task without start")),
            };
            Ok(RunState::Running(Lease { worker_id, lease_token, lease_expires_at, started_at }))
        },
        StoredRunState::Completed => match row.finished_at {
            Some(finished_at) => Ok(RunState::Completed { finished_at }),
            None => Err(SchedulerError::Invariant("completed task without finish")),
        },
        StoredRunState::Failed => match (row.finished_at, row.last_error) {
            (Some(finished_at), Some(error)) => Ok(RunState::Failed { finished_at, error }),
            (None, _) => Err(SchedulerError::Invariant("failed task without finish")),
            (Some(_), None) => Err(SchedulerError::Invariant("failed task without error")),
        },
        StoredRunState::Cancelled => match row.finished_at {
            Some(finished_at) => Ok(RunState::Cancelled { finished_at }),
            None => Err(SchedulerError::Invariant("cancelled task without finish")),
        },
    }
}

/// The state of the run `run_id`, where there is one.
pub fn run_state(tables: &Tables, run_id: RunId) -> (res: Result<
    Option<RunState>,
    SchedulerError,
>)
    ensures
        match tables@.run(run_id) {
            None => res == Ok::<Option<RunState>, SchedulerError>(None),
            Some(r) => match state_read(status_of(r)) {
                Ok(state) => res == Ok::<Option<RunState>, SchedulerError>(Some(state)),
                Err(e) => res == Err::<Option<RunState>, SchedulerError>(e),
            },
        },
{
    let at: usize = tables.find_run(run_id);
    if at == tables.runs.len() {
        return Ok(None);
    }
    let run = &tables.runs[at];
    let row = StatusRow {
        id: run.id,
        job_id: run.job_id,
        scheduled_for: run.scheduled_for,
        attempt_count: run.attempt_count,
        worker_id: copy_worker(&run.worker_id),
        lease_token: run.lease_token,
        lease_expires_at: run.lease_expires_at,
        started_at: run.started_at,
        state: run.state,
        finished_at: run.finished_at,
        last_error: copy_text(&run.last_error),
    };
    match state_of(row) {
        Ok(state) => Ok(Some(state)),
        Err(e) => Err(e),
    }
}

/// By the number of the attempt.
pub open spec fn history_rank(a: AttemptRow) -> Rank {
    Rank { major: a.attempt_number as i64, minor: 0, id: 0 }
}

/// The attempts of run `id`, in the order of their numbers.
pub open spec fn history_rows(v: TablesView, id: RunId) -> Seq<AttemptRow> {
    ranking::ranked(
        ranking::ranks_where(
            v.attempts,
            |a: AttemptRow| a.run_id == id,
            |a: AttemptRow| history_rank(a),
        ),
    ).map_values(
        |rank: Rank|
            v.attempts[tables::first_position(
                v.attempts,
                |a: AttemptRow| tables::is_attempt(a, id, rank.major as int),
            )],
    )
}

/// How the attempt `a` stands.
pub open spec fn attempt_state(a: AttemptRow) -> AttemptState {
    match a.outcome {
        None => AttemptState::Running,
        Some(StoredAttemptOutcome::Completed) => AttemptState::Completed,
        Some(StoredAttemptOutcome::Failed) => AttemptState::Failed { error: a.error },
        Some(StoredAttemptOutcome::Expired) => AttemptState::Expired { error: a.error },
        Some(StoredAttemptOutcome::Cancelled) => AttemptState::Cancelled,
    }
}

/// The entry that `a` makes in the history.
pub open spec fn history_entry(a: AttemptRow) -> TaskAttempt {
    TaskAttempt {
        attempt: a.attempt_number as u32,
        worker_id: a.worker_id,
        started_at: a.started_at,
        lease_expires_at: a.lease_expires_at,
        finished_at: a.finished_at,
        state: attempt_state(a),
    }
}

/// The entry that `row` makes in the history.
fn entry_of(row: &AttemptRow) -> (res: Result<TaskAttempt, SchedulerError>)
    ensures
        res == if row.attempt_number > 0 {
            Ok::<TaskAttempt, SchedulerError>(history_entry(*row))
        } else {
            Err(SchedulerError::Invariant("attempt history contains a non-positive number"))
        },
{
    if row.attempt_number <= 0 {
        return Err(
            SchedulerError::Invariant("attempt history contains a non-positive number"),
        );
    }
    let state = match row.outcome {
        None => AttemptState::Running,
        Some(StoredAttemptOutcome::Completed) => AttemptState::Completed,
        Some(StoredAttemptOutcome::Failed) => AttemptState::Failed {
            error: copy_text(&row.error),
        },
        Some(StoredAttemptOutcome::Expired) => AttemptState::Expired {
            error: copy_text(&row.error),
        },
        Some(StoredAttemptOutcome::Cancelled) => AttemptState::Cancelled,
    };
    Ok(
        TaskAttempt {
            attempt: row.attempt_number as u32,
            worker_id: row.worker_id.clone(),
            started_at: row.started_at,
            lease_expires_at: row.lease_expires_at,
            finished_at: row.finished_at,
            state,
        },
    )
}

fn find_attempt(tables: &Tables, id: RunId, number: i64) -> (res: usize)
    ensures
        res == tables::first_position(
            tables.attempts@,
            |a: AttemptRow| tables::is_attempt(a, id, number as int),
        ),
        res <= tables.attempts@.len(),
{
    let ghost p = |a: AttemptRow| tables::is_attempt(a, id, number as int);
    let mut i: usize = 0;
    while i < tables.attempts.len()
        invariant
            i <= tables.attempts@.len(),
            p == (|a: AttemptRow| tables::is_attempt(a, id, number as int)),
            forall|j: int| 0 <= j < i ==> !p(#[trigger] tables.attempts@[j]),
        decreases tables.attempts@.len() - i,
    {
        if tables.attempts[i].run_id == id && tables.attempts[i].attempt_number as i64
            == number {
            proof {
                tables::lemma_is_first_position(tables.attempts@, p, i as int);
            }
            return i;
        }
        i = i + 1;
    }
    proof {
        tables::lemma_is_first_position(tables.attempts@, p, i as int);
    }
    i
}

/// The history of the run `run_id`, first attempt first.
pub fn task_attempts(tables: &Tables, run_id: RunId) -> (res: Result<
    Vec<TaskAttempt>,
    SchedulerError,
>)
    ensures
        match res {
            Ok(history) => {
                &&& forall|j: int|
                    0 <= j < history_rows(tables@, run_id).len() ==> (#[trigger] history_rows(
                        tables@,
                        run_id,
                    )[j]).attempt_number > 0
                &&& history@ == history_rows(tables@, run_id).map_values(
                    |a: AttemptRow| history_entry(a),
                )
            },
            Err(e) => {
                &&& exists|j: int|
                    0 <= j < history_rows(tables@, run_id).len() && (#[trigger] history_rows(
                        tables@,
                        run_id,
                    )[j]).attempt_number <= 0
                &&& e == SchedulerError::Invariant(
                    "attempt history contains a non-positive number",
                )
            },
        },
{
    let ghost p = |a: AttemptRow| a.run_id == run_id;
    let ghost key = |a: AttemptRow| history_rank(a);
    let mut ranks: Vec<Rank> = Vec::new();
    let mut i: usize = 0;
    assert(tables.attempts@.take(0) =~= Seq::<AttemptRow>::empty());
    while i < tables.attempts.len()
        invariant
            i <= tables.attempts@.len(),
            p == (|a: AttemptRow| a.run_id == run_id),
            key == (|a: AttemptRow| history_rank(a)),
            ranks@ == ranking::ranks_where(tables.attempts@.take(i as int), p, key),
        decreases tables.attempts@.len() - i,
    {
        proof {
            ranking::lemma_ranks_step(tables.attempts@, p, key, i as int);
        }
        if tables.attempts[i].run_id == run_id {
            ranks.push(
                Rank { major: tables.attempts[i].attempt_number as i64, minor: 0, id: 0 },
            );
        }
        i = i + 1;
    }
    assert(tables.attempts@.take(i as int) =~= tables.attempts@);
    let sorted: Vec<Rank> = ranking::select(&ranks, ranks.len());
    let ghost rows = history_rows(tables@, run_id);
    proof {
        ranking::lemma_first_ranked(ranks@, ranks@.len());
        ranking::lemma_all_ranked(ranks@);
    }
    let mut history: Vec<TaskAttempt> = Vec::new();
    let mut k: usize = 0;
    while k < sorted.len()
        invariant
            k <= sorted@.len(),
            p == (|a: AttemptRow| a.run_id == run_id),
            key == (|a: AttemptRow| history_rank(a)),
            ranks@ == ranking::ranks_where(tables.attempts@, p, key),
            sorted@ == ranking::ranked(ranks@),
            rows == history_rows(tables@, run_id),
            forall|j: int| 0 <= j < sorted@.len() ==> ranks@.contains(#[trigger] sorted@[j]),
            history@.len() == k,
            forall|j: int| 0 <= j < k ==> (#[trigger] rows[j]).attempt_number > 0,
            forall|j: int| 0 <= j < k ==> #[trigger] history@[j] == history_entry(rows[j]),
        decreases sorted@.len() - k,
    {
        let number: i64 = sorted[k].major;
        let at: usize = find_attempt(tables, run_id, number);
        proof {
            let rank = sorted@[k as int];
            assert(ranks@.contains(rank));
            ranking::lemma_ranks_where(tables.attempts@, p, key, rank);
            let j = choose|j: int|
                0 <= j < tables.attempts@.len() && p(#[trigger] tables.attempts@[j]) && key(
                    tables.attempts@[j],
                ) == rank;
            let q = |a: AttemptRow| tables::is_attempt(a, run_id, number as int);
            assert(q(tables.attempts@[j]));
            tables::lemma_first_position(tables.attempts@, q);
        }
        assert(tables.attempts@[at as int] == rows[k as int]);
        match entry_of(&tables.attempts[at]) {
            Ok(entry) => history.push(entry),
            Err(e) => return Err(e),
        }
        k = k + 1;
    }
    assert(history@ =~= rows.map_values(|a: AttemptRow| history_entry(a)));
    Ok(history)
}

} // verus!
