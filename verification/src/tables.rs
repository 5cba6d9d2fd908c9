//! The rows that one transaction works on, and what finding and changing them
//! means.
//!
//! [`Tables`] holds the rows that a transaction has locked. Its view is the three
//! tables as sequences, in the order in which they were read. Every operation on
//! the queue is a function from one view to the next.
use vstd::prelude::*;

use crate::ids::{DeduplicationKey, JobId, JobName, LeaseToken, RunId};
use crate::models::{
    AttemptRow, SchedulerJob, SchedulerRun, StoredAttemptOutcome, copy_text,
};
use crate::time::Timestamp;

verus! {

/// The rows that a transaction has locked.
#[derive(Debug, Default, Clone, PartialEq, Eq)]
pub struct Tables {
    pub jobs: Vec<SchedulerJob>,
    pub runs: Vec<SchedulerRun>,
    pub attempts: Vec<AttemptRow>,
}

/// The three tables as sequences of rows.
#[verifier::ext_equal]
pub ghost struct TablesView {
    pub jobs: Seq<SchedulerJob>,
    pub runs: Seq<SchedulerRun>,
    pub attempts: Seq<AttemptRow>,
}

impl View for Tables {
    type V = TablesView;

    open spec fn view(&self) -> TablesView {
        TablesView { jobs: self.jobs@, runs: self.runs@, attempts: self.attempts@ }
    }
}

/// The first position in `rows` at which `p` holds, or the length of `rows` where
/// it holds at none.
pub open spec fn first_position<T>(rows: Seq<T>, p: spec_fn(T) -> bool) -> int
    decreases rows.len(),
{
    if rows.len() == 0 {
        0
    } else {
        let before = first_position(rows.drop_last(), p);
        if before < rows.len() - 1 || p(rows.last()) {
            before
        } else {
            rows.len() as int
        }
    }
}

/// `first_position` is in range, satisfies `p` where it is a row, and nothing
/// before it does.
pub proof fn lemma_first_position<T>(rows: Seq<T>, p: spec_fn(T) -> bool)
    ensures
        0 <= first_position(rows, p) <= rows.len(),
        first_position(rows, p) < rows.len() ==> p(rows[first_position(rows, p)]),
        forall|j: int| 0 <= j < first_position(rows, p) ==> !p(#[trigger] rows[j]),
    decreases rows.len(),
{
    if rows.len() > 0 {
        let init = rows.drop_last();
        lemma_first_position(init, p);
        assert(forall|j: int| 0 <= j < init.len() ==> init[j] == rows[j]);
    }
}

/// A position with the properties of `first_position` is `first_position`.
pub proof fn lemma_is_first_position<T>(rows: Seq<T>, p: spec_fn(T) -> bool, at: int)
    requires
        0 <= at <= rows.len(),
        at < rows.len() ==> p(rows[at]),
        forall|j: int| 0 <= j < at ==> !p(#[trigger] rows[j]),
    ensures
        first_position(rows, p) == at,
{
    lemma_first_position(rows, p);
    let found = first_position(rows, p);
    if found < at {
        assert(!p(rows[found]));
    } else if found > at {
        assert(!p(rows[at]));
    }
}

/// How many of `rows` satisfy `p`.
pub open spec fn count_where<T>(rows: Seq<T>, p: spec_fn(T) -> bool) -> nat
    decreases rows.len(),
{
    if rows.len() == 0 {
        0
    } else {
        count_where(rows.drop_last(), p) + if p(rows.last()) {
            1nat
        } else {
            0nat
        }
    }
}

/// The first `n + 1` of `rows` count one more than the first `n` where row `n` does.
pub proof fn lemma_count_step<T>(rows: Seq<T>, p: spec_fn(T) -> bool, n: int)
    requires
        0 <= n < rows.len(),
    ensures
        count_where(rows.take(n + 1), p) == count_where(rows.take(n), p) + (if p(rows[n]) {
            1nat
        } else {
            0nat
        }),
        count_where(rows.take(n), p) <= n,
{
    assert(rows.take(n + 1).drop_last() =~= rows.take(n));
    lemma_count_bound(rows.take(n), p);
}

/// No more rows satisfy `p` than there are.
pub proof fn lemma_count_bound<T>(rows: Seq<T>, p: spec_fn(T) -> bool)
    ensures
        count_where(rows, p) <= rows.len(),
    decreases rows.len(),
{
    if rows.len() > 0 {
        lemma_count_bound(rows.drop_last(), p);
    }
}

/// Whether `a` is an attempt under `token` that has not ended.
pub open spec fn is_live(a: AttemptRow, token: LeaseToken) -> bool {
    a.lease_token == token && a.outcome is None
}

/// How many attempts under `token` have not ended.
pub open spec fn live_count(attempts: Seq<AttemptRow>, token: LeaseToken) -> nat {
    count_where(attempts, |a: AttemptRow| is_live(a, token))
}

/// `a`, ended at `at`.
pub open spec fn ended(
    a: AttemptRow,
    outcome: StoredAttemptOutcome,
    error: Option<String>,
    at: Timestamp,
) -> AttemptRow {
    AttemptRow { finished_at: Some(at), outcome: Some(outcome), error, ..a }
}

/// `attempts`, with those under `token` that had not ended ended at `at`.
pub open spec fn close_live(
    attempts: Seq<AttemptRow>,
    token: LeaseToken,
    outcome: StoredAttemptOutcome,
    error: Option<String>,
    at: Timestamp,
) -> Seq<AttemptRow> {
    attempts.map_values(
        |a: AttemptRow|
            if is_live(a, token) {
                ended(a, outcome, error, at)
            } else {
                a
            },
    )
}

/// `attempts`, with the expiry of those under `token` that have not ended moved to
/// `expires_at`.
pub open spec fn extend_live(
    attempts: Seq<AttemptRow>,
    token: LeaseToken,
    expires_at: Timestamp,
) -> Seq<AttemptRow> {
    attempts.map_values(
        |a: AttemptRow|
            if is_live(a, token) {
                AttemptRow { lease_expires_at: expires_at, ..a }
            } else {
                a
            },
    )
}

impl TablesView {
    /// Where the run `id` stands, or past the end where there is none.
    pub open spec fn run_position(self, id: RunId) -> int {
        first_position(self.runs, |r: SchedulerRun| r.id == id)
    }

    pub open spec fn has_run(self, id: RunId) -> bool {
        self.run_position(id) < self.runs.len()
    }

    /// The run `id`, where there is one.
    pub open spec fn run(self, id: RunId) -> Option<SchedulerRun> {
        if self.has_run(id) {
            Some(self.runs[self.run_position(id)])
        } else {
            None
        }
    }

    /// These tables with `row` in place of the run of that id.
    pub open spec fn with_run(self, row: SchedulerRun) -> TablesView {
        TablesView { runs: self.runs.update(self.run_position(row.id), row), ..self }
    }

    /// Where the job `id` stands, or past the end where there is none.
    pub open spec fn job_position(self, id: JobId) -> int {
        first_position(self.jobs, |j: SchedulerJob| j.id == id)
    }

    pub open spec fn has_job(self, id: JobId) -> bool {
        self.job_position(id) < self.jobs.len()
    }

    /// The job `id`, where there is one.
    pub open spec fn job(self, id: JobId) -> Option<SchedulerJob> {
        if self.has_job(id) {
            Some(self.jobs[self.job_position(id)])
        } else {
            None
        }
    }

    /// These tables with `row` in place of the job of that id.
    pub open spec fn with_job(self, row: SchedulerJob) -> TablesView {
        TablesView { jobs: self.jobs.update(self.job_position(row.id), row), ..self }
    }

    /// Where the job named `name` stands, or past the end where there is none.
    pub open spec fn named_position(self, name: Seq<char>) -> int {
        first_position(self.jobs, |j: SchedulerJob| j.name@ == name)
    }

    pub open spec fn has_named(self, name: Seq<char>) -> bool {
        self.named_position(name) < self.jobs.len()
    }

    /// Where the run of task `name` with key `key` stands, or past the end where
    /// there is none.
    pub open spec fn keyed_position(self, name: Seq<char>, key: Seq<char>) -> int {
        first_position(self.runs, |r: SchedulerRun| is_keyed(r, name, key))
    }

    pub open spec fn has_keyed(self, name: Seq<char>, key: Seq<char>) -> bool {
        self.keyed_position(name, key) < self.runs.len()
    }

    /// Where the run of job `id` for the slot `at` stands, or past the end where
    /// there is none.
    pub open spec fn occurrence_position(self, id: JobId, at: Timestamp) -> int {
        first_position(self.runs, |r: SchedulerRun| is_occurrence(r, id, at))
    }

    pub open spec fn has_occurrence(self, id: JobId, at: Timestamp) -> bool {
        self.occurrence_position(id, at) < self.runs.len()
    }

    /// Whether attempt `number` of run `id` is in the history.
    pub open spec fn has_attempt(self, id: RunId, number: int) -> bool {
        exists|k: int|
            0 <= k < self.attempts.len() && is_attempt(#[trigger] self.attempts[k], id, number)
    }
}

/// Whether `r` is a run of task `name` with the deduplication key `key`.
pub open spec fn is_keyed(r: SchedulerRun, name: Seq<char>, key: Seq<char>) -> bool {
    r.job_name@ == name && r.deduplication_key is Some && r.deduplication_key->0@ == key
}

/// Whether `r` is the run of job `id` for the slot `at`.
pub open spec fn is_occurrence(r: SchedulerRun, id: JobId, at: Timestamp) -> bool {
    r.job_id == Some(id) && r.scheduled_for == at
}

/// Whether `a` is attempt `number` of run `id`.
pub open spec fn is_attempt(a: AttemptRow, id: RunId, number: int) -> bool {
    a.run_id == id && a.attempt_number == number
}

/// Whether two strings read the same.
pub(crate) fn same_text(a: &str, b: &str) -> (res: bool)
    ensures
        res == (a@ == b@),
{
    a.to_owned() == b.to_owned()
}

impl Tables {
    pub fn new() -> (res: Tables)
        ensures
            res@ == (TablesView { jobs: seq![], runs: seq![], attempts: seq![] }),
    {
        Tables { jobs: Vec::new(), runs: Vec::new(), attempts: Vec::new() }
    }

    /// The position of the run `id`, or the number of runs.
    pub fn find_run(&self, id: RunId) -> (res: usize)
        ensures
            res == self@.run_position(id),
            res <= self.runs@.len(),
            res < self.runs@.len() ==> self.runs@[res as int].id == id,
    {
        let ghost p = |r: SchedulerRun| r.id == id;
        let mut i: usize = 0;
        while i < self.runs.len()
            invariant
                i <= self.runs@.len(),
                forall|j: int| 0 <= j < i ==> self.runs@[j].id != id,
                p == (|r: SchedulerRun| r.id == id),
            decreases self.runs@.len() - i,
        {
            if self.runs[i].id == id {
                proof {
                    lemma_is_first_position(self.runs@, p, i as int);
                }
                return i;
            }
            i = i + 1;
        }
        proof {
            lemma_is_first_position(self.runs@, p, i as int);
        }
        i
    }

    /// The position of the job `id`, or the number of jobs.
    pub fn find_job(&self, id: JobId) -> (res: usize)
        ensures
            res == self@.job_position(id),
            res <= self.jobs@.len(),
            res < self.jobs@.len() ==> self.jobs@[res as int].id == id,
    {
        let ghost p = |r: SchedulerJob| r.id == id;
        let mut i: usize = 0;
        while i < self.jobs.len()
            invariant
                i <= self.jobs@.len(),
                forall|j: int| 0 <= j < i ==> self.jobs@[j].id != id,
                p == (|r: SchedulerJob| r.id == id),
            decreases self.jobs@.len() - i,
        {
            if self.jobs[i].id == id {
                proof {
                    lemma_is_first_position(self.jobs@, p, i as int);
                }
                return i;
            }
            i = i + 1;
        }
        proof {
            lemma_is_first_position(self.jobs@, p, i as int);
        }
        i
    }

    /// The position of the job named `name`, or the number of jobs.
    pub fn find_named(&self, name: &JobName) -> (res: usize)
        ensures
            res == self@.named_position(name@),
            res <= self.jobs@.len(),
    {
        let ghost p = |r: SchedulerJob| r.name@ == name@;
        let mut i: usize = 0;
        while i < self.jobs.len()
            invariant
                i <= self.jobs@.len(),
                forall|j: int| 0 <= j < i ==> self.jobs@[j].name@ != name@,
                p == (|r: SchedulerJob| r.name@ == name@),
            decreases self.jobs@.len() - i,
        {
            if same_text(self.jobs[i].name.as_str(), name.as_str()) {
                proof {
                    lemma_is_first_position(self.jobs@, p, i as int);
                }
                return i;
            }
            i = i + 1;
        }
        proof {
            lemma_is_first_position(self.jobs@, p, i as int);
        }
        i
    }

    /// The position of the run of task `name` with key `key`, or the number of
    /// runs.
    pub fn find_keyed(&self, name: &JobName, key: &DeduplicationKey) -> (res: usize)
        ensures
            res == self@.keyed_position(name@, key@),
            res <= self.runs@.len(),
    {
        let ghost p = |r: SchedulerRun| is_keyed(r, name@, key@);
        let mut i: usize = 0;
        while i < self.runs.len()
            invariant
                i <= self.runs@.len(),
                forall|j: int| 0 <= j < i ==> !is_keyed(#[trigger] self.runs@[j], name@, key@),
                p == (|r: SchedulerRun| is_keyed(r, name@, key@)),
            decreases self.runs@.len() - i,
        {
            let run = &self.runs[i];
            let matches_key = match &run.deduplication_key {
                Some(stored) => same_text(stored.as_str(), key.as_str()),
                None => false,
            };
            if matches_key && same_text(run.job_name.as_str(), name.as_str()) {
                proof {
                    lemma_is_first_position(self.runs@, p, i as int);
                }
                return i;
            }
            i = i + 1;
        }
        proof {
            lemma_is_first_position(self.runs@, p, i as int);
        }
        i
    }

    /// The position of the run of job `id` for the slot `at`, or the number of
    /// runs.
    pub fn find_occurrence(&self, id: JobId, at: Timestamp) -> (res: usize)
        ensures
            res == self@.occurrence_position(id, at),
            res <= self.runs@.len(),
    {
        let ghost p = |r: SchedulerRun| is_occurrence(r, id, at);
        let mut i: usize = 0;
        while i < self.runs.len()
            invariant
                i <= self.runs@.len(),
                forall|j: int| 0 <= j < i ==> !is_occurrence(#[trigger] self.runs@[j], id, at),
                p == (|r: SchedulerRun| is_occurrence(r, id, at)),
            decreases self.runs@.len() - i,
        {
            let run = &self.runs[i];
            let of_job = match run.job_id {
                Some(stored) => stored == id,
                None => false,
            };
            if of_job && run.scheduled_for == at {
                proof {
                    lemma_is_first_position(self.runs@, p, i as int);
                }
                return i;
            }
            i = i + 1;
        }
        proof {
            lemma_is_first_position(self.runs@, p, i as int);
        }
        i
    }

    /// Whether attempt `number` of run `id` is in the history.
    pub fn attempt_recorded(&self, id: RunId, number: i32) -> (res: bool)
        ensures
            res == self@.has_attempt(id, number as int),
    {
        let mut i: usize = 0;
        while i < self.attempts.len()
            invariant
                i <= self.attempts@.len(),
                forall|k: int|
                    0 <= k < i ==> !is_attempt(#[trigger] self.attempts@[k], id, number as int),
            decreases self.attempts@.len() - i,
        {
            if self.attempts[i].run_id == id && self.attempts[i].attempt_number == number {
                assert(is_attempt(self@.attempts[i as int], id, number as int));
                return true;
            }
            i = i + 1;
        }
        false
    }

    /// How many attempts under `token` have not ended.
    pub fn count_live(&self, token: LeaseToken) -> (res: usize)
        ensures
            res == live_count(self.attempts@, token),
    {
        let ghost p = |a: AttemptRow| is_live(a, token);
        let mut i: usize = 0;
        let mut count: usize = 0;
        while i < self.attempts.len()
            invariant
                i <= self.attempts@.len(),
                count <= i,
                count == count_where(self.attempts@.take(i as int), p),
                p == (|a: AttemptRow| is_live(a, token)),
            decreases self.attempts@.len() - i,
        {
            proof {
                lemma_count_step(self.attempts@, p, i as int);
            }
            if self.attempts[i].lease_token == token && self.attempts[i].outcome.is_none() {
                count = count + 1;
            }
            i = i + 1;
        }
        assert(self.attempts@.take(i as int) =~= self.attempts@);
        count
    }

    /// Ends at `at` the attempts under `token` that have not ended.
    pub fn close_live(
        &mut self,
        token: LeaseToken,
        outcome: StoredAttemptOutcome,
        error: Option<String>,
        at: Timestamp,
    )
        ensures
            final(self)@ == (TablesView {
                attempts: close_live(old(self).attempts@, token, outcome, error, at),
                ..old(self)@
            }),
    {
        let mut i: usize = 0;
        while i < self.attempts.len()
            invariant
                i <= self.attempts@.len(),
                self.attempts@.len() == old(self).attempts@.len(),
                self.jobs == old(self).jobs,
                self.runs == old(self).runs,
                forall|k: int|
                    0 <= k < i ==> #[trigger] self.attempts@[k] == (if is_live(
                        old(self).attempts@[k],
                        token,
                    ) {
                        ended(old(self).attempts@[k], outcome, error, at)
                    } else {
                        old(self).attempts@[k]
                    }),
                forall|k: int|
                    i <= k < self.attempts@.len() ==> #[trigger] self.attempts@[k] == old(
                        self,
                    ).attempts@[k],
            decreases self.attempts@.len() - i,
        {
            if self.attempts[i].lease_token == token && self.attempts[i].outcome.is_none() {
                self.attempts[i].finished_at = Some(at);
                self.attempts[i].outcome = Some(outcome);
                self.attempts[i].error = copy_text(&error);
            }
            i = i + 1;
        }
        assert(self.attempts@ =~= close_live(old(self).attempts@, token, outcome, error, at));
    }

    /// Moves the expiry of the attempts under `token` that have not ended to
    /// `expires_at`.
    pub fn extend_live(&mut self, token: LeaseToken, expires_at: Timestamp)
        ensures
            final(self)@ == (TablesView {
                attempts: extend_live(old(self).attempts@, token, expires_at),
                ..old(self)@
            }),
    {
        let mut i: usize = 0;
        while i < self.attempts.len()
            invariant
                i <= self.attempts@.len(),
                self.attempts@.len() == old(self).attempts@.len(),
                self.jobs == old(self).jobs,
                self.runs == old(self).runs,
                forall|k: int|
                    0 <= k < i ==> #[trigger] self.attempts@[k] == (if is_live(
                        old(self).attempts@[k],
                        token,
                    ) {
                        AttemptRow { lease_expires_at: expires_at, ..old(self).attempts@[k] }
                    } else {
                        old(self).attempts@[k]
                    }),
                forall|k: int|
                    i <= k < self.attempts@.len() ==> #[trigger] self.attempts@[k] == old(
                        self,
                    ).attempts@[k],
            decreases self.attempts@.len() - i,
        {
            if self.attempts[i].lease_token == token && self.attempts[i].outcome.is_none() {
                self.attempts[i].lease_expires_at = expires_at;
            }
            i = i + 1;
        }
        assert(self.attempts@ =~= extend_live(old(self).attempts@, token, expires_at));
    }
}

} // verus!
