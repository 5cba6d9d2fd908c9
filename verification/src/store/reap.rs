//! Recovery of runs whose lease has expired.
use vstd::prelude::*;

use crate::error::SchedulerError;
use crate::ids::{LeaseToken, RunId};
use crate::models::{AttemptRow, SchedulerRun, StoredAttemptOutcome, StoredRunState};
use crate::ranking;
use crate::ranking::Rank;
use crate::selection;
use crate::store::finalize;
use crate::tables;
use crate::tables::{Tables, TablesView};
use crate::time::{DbClock, Timestamp};

verus! {

/// Most runs that [`reap_expired`] recovers.
pub const REAP_LIMIT: usize = 1_000;

/// How many runs a recovery made pending again, and how many it failed.
#[derive(Debug, Clone, Copy, PartialEq, Eq, Structural)]
pub struct RecoverySummary {
    pub requeued: usize,
    pub failed: usize,
}

impl Default for RecoverySummary {
    fn default() -> (res: Self)
        ensures
            res == (RecoverySummary { requeued: 0, failed: 0 }),
    {
        RecoverySummary { requeued: 0, failed: 0 }
    }
}

/// Whether `r` runs under a lease that has expired at `wall`.
pub open spec fn expired(r: SchedulerRun, wall: Timestamp) -> bool {
    &&& r.state is Running
    &&& r.lease_expires_at is Some
    &&& r.lease_expires_at->0.micros <= wall.micros
}

/// Longest expired first, then by identifier.
pub open spec fn expiry_rank(r: SchedulerRun) -> Rank {
    Rank {
        major: if r.lease_expires_at is Some {
            r.lease_expires_at->0.micros
        } else {
            0
        },
        minor: 0,
        id: r.id.0,
    }
}

/// The runs that one recovery of at most `limit` takes, longest expired first.
pub open spec fn recoverable(v: TablesView, wall: Timestamp, limit: nat) -> Seq<RunId> {
    selection::selected(
        v.runs,
        |r: SchedulerRun| expired(r, wall),
        |r: SchedulerRun| expiry_rank(r),
        limit,
    )
}

/// Whether one of the runs `ids` is under `token`.
pub open spec fn covers(v: TablesView, ids: Seq<RunId>, token: LeaseToken) -> bool {
    exists|i: int|
        0 <= i < ids.len() && v.run(#[trigger] ids[i])->0.lease_token == Some(token)
}

/// Whether `a` has not ended and is under the token of one of the runs `ids`.
pub open spec fn interrupted(v: TablesView, ids: Seq<RunId>, a: AttemptRow) -> bool {
    a.outcome is None && covers(v, ids, a.lease_token)
}

/// Whether run `id` is one of `ids` and has an attempt to interrupt.
pub open spec fn recovers(v: TablesView, ids: Seq<RunId>, id: RunId) -> bool {
    &&& ids.contains(id)
    &&& exists|k: int|
        0 <= k < v.attempts.len() && interrupted(v, ids, #[trigger] v.attempts[k])
            && v.attempts[k].run_id == id
}

/// Whether another attempt of `r` is left.
pub open spec fn has_attempts_left(r: SchedulerRun) -> bool {
    r.attempt_count < r.max_attempts
}

/// `r` after its lease expired: available again where attempts are left, failed
/// with `exhausted` otherwise.
pub open spec fn recovered_row(
    r: SchedulerRun,
    exhausted: String,
    wall: Timestamp,
) -> SchedulerRun {
    if has_attempts_left(r) {
        finalize::requeued(r, wall, wall)
    } else {
        finalize::released(r, StoredRunState::Failed, Some(wall), Some(exhausted), wall)
    }
}

/// `v` after the recovery of the runs `ids`. Their live attempts end with `note`.
pub open spec fn recovered(
    v: TablesView,
    ids: Seq<RunId>,
    wall: Timestamp,
    note: String,
    exhausted: String,
) -> TablesView {
    TablesView {
        runs: v.runs.map_values(
            |r: SchedulerRun|
                if recovers(v, ids, r.id) {
                    recovered_row(r, exhausted, wall)
                } else {
                    r
                },
        ),
        attempts: v.attempts.map_values(
            |a: AttemptRow|
                if interrupted(v, ids, a) {
                    tables::ended(a, StoredAttemptOutcome::Expired, Some(note), wall)
                } else {
                    a
                },
        ),
        ..v
    }
}

/// How many runs the recovery of `ids` makes pending again.
pub open spec fn requeued_count(v: TablesView, ids: Seq<RunId>) -> nat {
    tables::count_where(
        v.runs,
        |r: SchedulerRun| recovers(v, ids, r.id) && has_attempts_left(r),
    )
}

/// How many runs the recovery of `ids` fails.
pub open spec fn failed_count(v: TablesView, ids: Seq<RunId>) -> nat {
    tables::count_where(
        v.runs,
        |r: SchedulerRun| recovers(v, ids, r.id) && !has_attempts_left(r),
    )
}

/// Whether `note` and `exhausted` are the errors that recovery records.
pub open spec fn recovery_texts(note: String, exhausted: String) -> bool {
    note@ == "lease expired"@ && exhausted@ == "lease expired; max attempts exhausted"@
}

/// What a recovery of at most `limit` runs does to `v`, making it `after`, and the
/// summary it returns.
pub open spec fn recovery(
    v: TablesView,
    wall: Timestamp,
    limit: nat,
    after: TablesView,
    summary: RecoverySummary,
) -> bool {
    let ids = recoverable(v, wall, limit);
    &&& exists|note: String, exhausted: String|
        #[trigger] recovery_texts(note, exhausted) && after == recovered(
            v,
            ids,
            wall,
            note,
            exhausted,
        )
    &&& summary.requeued == requeued_count(v, ids)
    &&& summary.failed == failed_count(v, ids)
}

/// The runs that one recovery of at most `limit` takes, longest expired first.
fn recovery_candidates(tables: &Tables, wall: Timestamp, limit: usize) -> (res: Vec<RunId>)
    ensures
        res@ == recoverable(tables@, wall, limit as nat),
        forall|i: int| 0 <= i < res@.len() ==> tables@.has_run(#[trigger] res@[i]),
{
    let ghost p = |r: SchedulerRun| expired(r, wall);
    let ghost key = |r: SchedulerRun| expiry_rank(r);
    let mut ranks: Vec<Rank> = Vec::new();
    let mut i: usize = 0;
    assert(tables.runs@.take(0) =~= Seq::<SchedulerRun>::empty());
    while i < tables.runs.len()
        invariant
            i <= tables.runs@.len(),
            ranks@ == ranking::ranks_where(tables.runs@.take(i as int), p, key),
            p == (|r: SchedulerRun| expired(r, wall)),
            key == (|r: SchedulerRun| expiry_rank(r)),
        decreases tables.runs@.len() - i,
    {
        proof {
            ranking::lemma_ranks_step(tables.runs@, p, key, i as int);
        }
        let run = &tables.runs[i];
        let running = match run.state {
            StoredRunState::Running => true,
            _ => false,
        };
        if let Some(expires_at) = run.lease_expires_at {
            if running && expires_at.micros <= wall.micros {
                ranks.push(Rank { major: expires_at.micros, minor: 0, id: run.id.0 });
            }
        }
        i = i + 1;
    }
    assert(tables.runs@.take(i as int) =~= tables.runs@);
    let first: Vec<Rank> = ranking::select(&ranks, limit);
    proof {
        selection::lemma_selected(tables.runs@, p, key, limit as nat);
    }
    selection::run_ids(&first)
}

/// Whether one of the runs `ids` is under `token`.
fn is_covered(tables: &Tables, ids: &Vec<RunId>, token: LeaseToken) -> (res: bool)
    requires
        forall|i: int| 0 <= i < ids@.len() ==> tables@.has_run(#[trigger] ids@[i]),
    ensures
        res == covers(tables@, ids@, token),
{
    let mut i: usize = 0;
    while i < ids.len()
        invariant
            i <= ids@.len(),
            forall|j: int| 0 <= j < ids@.len() ==> tables@.has_run(#[trigger] ids@[j]),
            forall|j: int|
                0 <= j < i ==> tables@.run(#[trigger] ids@[j])->0.lease_token != Some(token),
        decreases ids@.len() - i,
    {
        assert(tables@.has_run(ids@[i as int]));
        let at: usize = tables.find_run(ids[i]);
        if let Some(stored) = tables.runs[at].lease_token {
            if stored == token {
                assert(tables@.run(ids@[i as int])->0.lease_token == Some(token));
                return true;
            }
        }
        i = i + 1;
    }
    false
}

/// The positions of the attempts that the recovery of `ids` interrupts.
fn interrupted_positions(tables: &Tables, ids: &Vec<RunId>) -> (res: Vec<usize>)
    requires
        forall|i: int| 0 <= i < ids@.len() ==> tables@.has_run(#[trigger] ids@[i]),
    ensures
        forall|i: int|
            0 <= i < res@.len() ==> (#[trigger] res@[i]) < tables.attempts@.len() && interrupted(
                tables@,
                ids@,
                tables.attempts@[res@[i] as int],
            ),
        forall|k: int|
            0 <= k < tables.attempts@.len() && interrupted(
                tables@,
                ids@,
                #[trigger] tables.attempts@[k],
            ) ==> res@.contains(k as usize),
{
    let mut found: Vec<usize> = Vec::new();
    let mut k: usize = 0;
    while k < tables.attempts.len()
        invariant
            k <= tables.attempts@.len(),
            forall|i: int| 0 <= i < ids@.len() ==> tables@.has_run(#[trigger] ids@[i]),
            forall|i: int|
                0 <= i < found@.len() ==> (#[trigger] found@[i]) < k && interrupted(
                    tables@,
                    ids@,
                    tables.attempts@[found@[i] as int],
                ),
            forall|j: int|
                0 <= j < k && interrupted(tables@, ids@, #[trigger] tables.attempts@[j])
                    ==> found@.contains(j as usize),
        decreases tables.attempts@.len() - k,
    {
        let ghost before = found@;
        let live = tables.attempts[k].outcome.is_none();
        if live && is_covered(tables, ids, tables.attempts[k].lease_token) {
            found.push(k);
            proof {
                assert(found@.last() == k);
                assert forall|j: usize| before.contains(j) implies found@.contains(j) by {
                    let i = choose|i: int| 0 <= i < before.len() && before[i] == j;
                    assert(found@[i] == j);
                }
            }
        }
        k = k + 1;
    }
    found
}

/// Whether run `id` has one of the attempts at `positions`.
fn has_interrupted(tables: &Tables, positions: &Vec<usize>, id: RunId) -> (res: bool)
    requires
        forall|i: int|
            0 <= i < positions@.len() ==> (#[trigger] positions@[i]) < tables.attempts@.len(),
    ensures
        res == exists|i: int|
            0 <= i < positions@.len() && tables.attempts@[(
            #[trigger] positions@[i]) as int].run_id == id,
{
    let mut i: usize = 0;
    while i < positions.len()
        invariant
            i <= positions@.len(),
            forall|j: int|
                0 <= j < positions@.len() ==> (#[trigger] positions@[j])
                    < tables.attempts@.len(),
            forall|j: int|
                0 <= j < i ==> tables.attempts@[(#[trigger] positions@[j]) as int].run_id != id,
        decreases positions@.len() - i,
    {
        if tables.attempts[positions[i]].run_id == id {
            assert(tables.attempts@[positions@[i as int] as int].run_id == id);
            return true;
        }
        i = i + 1;
    }
    false
}

/// Ends the attempts at `positions` as expired.
fn expire_attempts(
    tables: &mut Tables,
    positions: &Vec<usize>,
    ids: &Vec<RunId>,
    wall: Timestamp,
    note: &String,
    Ghost(v): Ghost<TablesView>,
)
    requires
        old(tables).attempts@ == v.attempts,
        forall|i: int|
            0 <= i < positions@.len() ==> (#[trigger] positions@[i]) < v.attempts.len()
                && interrupted(v, ids@, v.attempts[positions@[i] as int]),
        forall|k: int|
            0 <= k < v.attempts.len() && interrupted(v, ids@, #[trigger] v.attempts[k])
                ==> positions@.contains(k as usize),
    ensures
        final(tables)@ == (TablesView {
            attempts: recovered(v, ids@, wall, *note, *note).attempts,
            ..old(tables)@
        }),
{
    let total: usize = tables.attempts.len();
    let mut i: usize = 0;
    while i < positions.len()
        invariant
            i <= positions@.len(),
            total == v.attempts.len(),
            tables.jobs == old(tables).jobs,
            tables.runs == old(tables).runs,
            tables.attempts@.len() == v.attempts.len(),
            forall|j: int|
                0 <= j < positions@.len() ==> (#[trigger] positions@[j]) < v.attempts.len()
                    && interrupted(v, ids@, v.attempts[positions@[j] as int]),
            forall|k: int|
                0 <= k < v.attempts.len() ==> #[trigger] tables.attempts@[k]
                    == if positions@.take(i as int).contains(k as usize) {
                    tables::ended(
                        v.attempts[k],
                        StoredAttemptOutcome::Expired,
                        Some(*note),
                        wall,
                    )
                } else {
                    v.attempts[k]
                },
        decreases positions@.len() - i,
    {
        let at: usize = positions[i];
        tables.attempts[at].finished_at = Some(wall);
        tables.attempts[at].outcome = Some(StoredAttemptOutcome::Expired);
        tables.attempts[at].error = Some(note.clone());
        proof {
            let done = positions@.take(i as int);
            let more = positions@.take(i + 1);
            assert(more =~= done.push(at));
            assert forall|k: usize| more.contains(k) <==> done.contains(k) || k == at by {
                if done.contains(k) {
                    let j = choose|j: int| 0 <= j < done.len() && done[j] == k;
                    assert(more[j] == k);
                }
                if k == at {
                    assert(more[i as int] == k);
                }
            }
        }
        i = i + 1;
    }
    proof {
        assert(positions@.take(i as int) =~= positions@);
        assert(tables.attempts@ =~= recovered(v, ids@, wall, *note, *note).attempts) by {
            assert forall|k: int| 0 <= k < v.attempts.len() implies positions@.contains(k as usize)
                == interrupted(v, ids@, #[trigger] v.attempts[k]) by {
                if positions@.contains(k as usize) {
                    let j = choose|j: int|
                        0 <= j < positions@.len() && positions@[j] == k as usize;
                    assert(interrupted(v, ids@, v.attempts[positions@[j] as int]));
                }
            }
        }
    }
}

/// Recovers up to `limit` runs whose lease has expired: each becomes available
/// again where attempts are left, and fails otherwise.
pub fn recover_expired(tables: &mut Tables, clock: &DbClock, limit: usize) -> (res: Result<
    RecoverySummary,
    SchedulerError,
>)
    ensures
        limit > i64::MAX ==> final(tables)@ == old(tables)@ && res is Err && res->Err_0 is Config
            && res->Err_0->Config_0@ == "recovery batch is too large"@,
        limit <= i64::MAX ==> res is Ok && recovery(
            old(tables)@,
            clock.wall(),
            limit as nat,
            final(tables)@,
            res->Ok_0,
        ),
{
    if limit as u64 > i64::MAX as u64 {
        return Err(SchedulerError::Config("recovery batch is too large".to_owned()));
    }
    let wall: Timestamp = clock.wall();
    let ghost v = tables@;
    let ids = recovery_candidates(tables, wall, limit);
    let positions = interrupted_positions(tables, &ids);
    let note = "lease expired".to_owned();
    let exhausted = "lease expired; max attempts exhausted".to_owned();
    let mut summary = RecoverySummary::default();
    let ghost again = |r: SchedulerRun| recovers(v, ids@, r.id) && has_attempts_left(r);
    let ghost over = |r: SchedulerRun| recovers(v, ids@, r.id) && !has_attempts_left(r);
    let total: usize = tables.attempts.len();
    let mut i: usize = 0;
    while i < tables.runs.len()
        invariant
            i <= tables.runs@.len(),
            total == v.attempts.len(),
            tables.runs@.len() == v.runs.len(),
            tables.jobs@ == v.jobs,
            tables.attempts@ == v.attempts,
            again == (|r: SchedulerRun| recovers(v, ids@, r.id) && has_attempts_left(r)),
            over == (|r: SchedulerRun| recovers(v, ids@, r.id) && !has_attempts_left(r)),
            summary.requeued <= i,
            summary.failed <= i,
            summary.requeued == tables::count_where(v.runs.take(i as int), again),
            summary.failed == tables::count_where(v.runs.take(i as int), over),
            forall|j: int|
                0 <= j < positions@.len() ==> (#[trigger] positions@[j]) < v.attempts.len()
                    && interrupted(v, ids@, v.attempts[positions@[j] as int]),
            forall|k: int|
                0 <= k < v.attempts.len() && interrupted(v, ids@, #[trigger] v.attempts[k])
                    ==> positions@.contains(k as usize),
            forall|j: int|
                0 <= j < i ==> #[trigger] tables.runs@[j] == if recovers(
                    v,
                    ids@,
                    v.runs[j].id,
                ) {
                    recovered_row(v.runs[j], exhausted, wall)
                } else {
                    v.runs[j]
                },
            forall|j: int|
                i <= j < v.runs.len() ==> #[trigger] tables.runs@[j] == v.runs[j],
        decreases tables.runs@.len() - i,
    {
        proof {
            tables::lemma_count_step(v.runs, again, i as int);
            tables::lemma_count_step(v.runs, over, i as int);
        }
        let id: RunId = tables.runs[i].id;
        let hit = has_interrupted(tables, &positions, id);
        proof {
            lemma_hit(v, ids@, positions@, id);
        }
        if selection::contains_id(&ids, id) && hit {
            let retry = tables.runs[i].attempt_count < tables.runs[i].max_attempts;
            tables.runs[i].worker_id = None;
            tables.runs[i].lease_token = None;
            tables.runs[i].lease_expires_at = None;
            tables.runs[i].started_at = None;
            tables.runs[i].updated_at = wall;
            if retry {
                tables.runs[i].state = StoredRunState::Pending;
                tables.runs[i].available_at = wall;
                tables.runs[i].finished_at = None;
                tables.runs[i].last_error = None;
                summary.requeued = summary.requeued + 1;
            } else {
                tables.runs[i].state = StoredRunState::Failed;
                tables.runs[i].finished_at = Some(wall);
                tables.runs[i].last_error = Some(exhausted.clone());
                summary.failed = summary.failed + 1;
            }
        }
        i = i + 1;
    }
    assert(v.runs.take(i as int) =~= v.runs);
    expire_attempts(tables, &positions, &ids, wall, &note, Ghost(v));
    proof {
        assert(recovery_texts(note, exhausted));
        let expected = recovered(v, ids@, wall, note, exhausted);
        assert(expected.attempts == recovered(v, ids@, wall, note, note).attempts);
        assert(tables@ =~= expected);
    }
    Ok(summary)
}

/// The interrupted attempts at `positions` are those of the runs that recover.
proof fn lemma_hit(v: TablesView, ids: Seq<RunId>, positions: Seq<usize>, id: RunId)
    requires
        v.attempts.len() <= usize::MAX,
        forall|i: int|
            0 <= i < positions.len() ==> (#[trigger] positions[i]) < v.attempts.len()
                && interrupted(v, ids, v.attempts[positions[i] as int]),
        forall|k: int|
            0 <= k < v.attempts.len() && interrupted(v, ids, #[trigger] v.attempts[k])
                ==> positions.contains(k as usize),
    ensures
        (ids.contains(id) && exists|i: int|
            0 <= i < positions.len() && v.attempts[(
            #[trigger] positions[i]) as int].run_id == id) == recovers(v, ids, id),
{
    if recovers(v, ids, id) {
        let k = choose|k: int|
            0 <= k < v.attempts.len() && interrupted(v, ids, #[trigger] v.attempts[k])
                && v.attempts[k].run_id == id;
        let i = choose|i: int| 0 <= i < positions.len() && positions[i] == k as usize;
        assert(v.attempts[positions[i] as int].run_id == id);
    }
}

/// Recovers a bounded batch, and tells how many of its runs failed.
pub fn reap_expired(tables: &mut Tables, clock: &DbClock) -> (res: Result<usize, SchedulerError>)
    ensures
        res is Ok,
        exists|summary: RecoverySummary|
            #[trigger] recovery(
                old(tables)@,
                clock.wall(),
                REAP_LIMIT as nat,
                final(tables)@,
                summary,
            ) && res->Ok_0 == summary.failed,
{
    match recover_expired(tables, clock, REAP_LIMIT) {
        Ok(summary) => Ok(summary.failed),
        Err(e) => Err(e),
    }
}

} // verus!
