//! Claiming pending runs for a worker.
use vstd::prelude::*;

use crate::error::{DatabaseError, SchedulerError};
use crate::ids;
use crate::ids::{LeaseToken, RunId, WorkerId};
use crate::models::{AttemptRow, ClaimedRun, SchedulerRun, StoredRunState};
use crate::policy;
use crate::policy::LeaseDuration;
use crate::ranking;
use crate::ranking::Rank;
use crate::selection;
use crate::tables;
use crate::tables::{Tables, TablesView, same_text};
use crate::time;
use crate::time::{DbClock, Timestamp};

verus! {

/// Whether `name` is among `names`.
pub open spec fn named_in(names: Seq<String>, name: Seq<char>) -> bool {
    exists|i: int| 0 <= i < names.len() && (#[trigger] names[i])@ == name
}

/// Whether `r` is pending, available at `now`, and of one of `names`.
pub open spec fn claimable(r: SchedulerRun, names: Seq<String>, now: Timestamp) -> bool {
    &&& r.state is Pending
    &&& r.available_at.micros <= now.micros
    &&& named_in(names, r.job_name@)
}

/// Highest priority first, then longest available, then by identifier.
pub open spec fn claim_rank(r: SchedulerRun) -> Rank {
    Rank { major: (-r.priority) as i64, minor: r.available_at.micros, id: r.id.0 }
}

/// The runs that one claim of at most `limit` takes, best first.
pub open spec fn chosen(
    v: TablesView,
    names: Seq<String>,
    now: Timestamp,
    limit: nat,
) -> Seq<RunId> {
    selection::selected(
        v.runs,
        |r: SchedulerRun| claimable(r, names, now),
        |r: SchedulerRun| claim_rank(r),
        limit,
    )
}

/// Why run `id` cannot be claimed at `wall` after all: its attempt count or the
/// end of its lease cannot be represented, or the attempt is already recorded.
pub open spec fn grant_fault(v: TablesView, id: RunId, wall: Timestamp) -> Option<DatabaseError> {
    let r = v.run(id)->0;
    if r.attempt_count == i32::MAX || time::instant_after(wall, r.lease_duration) is None {
        Some(DatabaseError::OutOfRange)
    } else if v.has_attempt(id, r.attempt_count + 1) {
        Some(DatabaseError::UniqueViolation)
    } else {
        None
    }
}

/// The fault of the first of `ids` that has one.
pub open spec fn first_fault(
    v: TablesView,
    ids: Seq<RunId>,
    wall: Timestamp,
) -> Option<DatabaseError>
    decreases ids.len(),
{
    if ids.len() == 0 {
        None
    } else {
        match first_fault(v, ids.drop_last(), wall) {
            Some(e) => Some(e),
            None => grant_fault(v, ids.last(), wall),
        }
    }
}

/// `r` claimed by `worker` under `token` at `wall`.
pub open spec fn granted(
    r: SchedulerRun,
    worker: WorkerId,
    token: LeaseToken,
    wall: Timestamp,
) -> SchedulerRun {
    SchedulerRun {
        state: StoredRunState::Running,
        attempt_count: (r.attempt_count + 1) as i32,
        worker_id: Some(worker),
        lease_token: Some(token),
        started_at: Some(wall),
        lease_expires_at: time::instant_after(wall, r.lease_duration),
        updated_at: wall,
        ..r
    }
}

/// The attempt that the claimed run `r` records.
pub open spec fn attempt_of(r: SchedulerRun) -> AttemptRow {
    AttemptRow {
        run_id: r.id,
        attempt_number: r.attempt_count,
        worker_id: r.worker_id->0,
        lease_token: r.lease_token->0,
        started_at: r.started_at->0,
        lease_expires_at: r.lease_expires_at->0,
        finished_at: None,
        outcome: None,
        error: None,
    }
}

/// `v` once the first `n` of `ids` are claimed by `worker`, each under the token
/// of the same position.
pub open spec fn grants(
    v: TablesView,
    worker: WorkerId,
    ids: Seq<RunId>,
    tokens: Seq<LeaseToken>,
    wall: Timestamp,
    n: nat,
) -> TablesView
    decreases n,
{
    if n == 0 {
        v
    } else {
        let u = grants(v, worker, ids, tokens, wall, (n - 1) as nat);
        let row = granted(v.run(ids[n - 1])->0, worker, tokens[n - 1], wall);
        TablesView {
            runs: u.runs.update(v.run_position(ids[n - 1]), row),
            attempts: u.attempts.push(attempt_of(row)),
            ..u
        }
    }
}

/// Why the claimed run `r` cannot be handed out, if it cannot.
pub open spec fn report_error(r: SchedulerRun) -> Option<SchedulerError> {
    if r.attempt_count <= 0 {
        Some(SchedulerError::Invariant("attempt_count must be positive after claim"))
    } else if policy::stored_lease_rejection(r.lease_duration) is Some {
        Some(SchedulerError::Invariant("claimed task has invalid lease duration"))
    } else {
        None
    }
}

/// The claimed run `r` as it is handed out.
pub open spec fn reported(r: SchedulerRun) -> ClaimedRun {
    ClaimedRun {
        run_id: r.id,
        job_id: r.job_id,
        job_name: r.job_name,
        job_args: r.job_args,
        scheduled_for: r.scheduled_for,
        attempt: r.attempt_count as u32,
        lease_token: r.lease_token->0,
        lease_expires_at: r.lease_expires_at->0,
        lease_duration: LeaseDuration::of_micros(r.lease_duration.microseconds),
    }
}

/// Earliest slot first, then by identifier.
pub open spec fn report_rank(r: SchedulerRun) -> Rank {
    Rank { major: r.scheduled_for.micros, minor: 0, id: r.id.0 }
}

/// The claimed runs `ids` of `v`, in the order in which they are handed out.
pub open spec fn report_rows(v: TablesView, ids: Seq<RunId>) -> Seq<SchedulerRun> {
    ranking::ranked(ids.map_values(|id: RunId| report_rank(v.run(id)->0))).map_values(
        |rank: Rank| v.run(RunId(rank.id))->0,
    )
}

/// Whether `res` hands out the claimed runs `ids` of `v`: all of them in order, or
/// the error of the first that cannot be handed out.
pub open spec fn hands_out(
    v: TablesView,
    ids: Seq<RunId>,
    res: Result<Vec<ClaimedRun>, SchedulerError>,
) -> bool {
    let rows = report_rows(v, ids);
    let bad = tables::first_position(rows, |r: SchedulerRun| report_error(r) is Some);
    if bad < rows.len() {
        res is Err && Some(res->Err_0) == report_error(rows[bad])
    } else {
        res is Ok && res->Ok_0@ == rows.map_values(|r: SchedulerRun| reported(r))
    }
}

/// Whether `tokens` are distinct and none of them was ever used in `v`.
pub open spec fn unused(v: TablesView, tokens: Seq<LeaseToken>) -> bool {
    &&& tokens.no_duplicates()
    &&& forall|i: int, k: int|
        #![trigger tokens[i], v.attempts[k]]
        0 <= i < tokens.len() && 0 <= k < v.attempts.len() ==> v.attempts[k].lease_token
            != tokens[i]
}

/// What claiming the runs `ids` under `tokens` does to `v`, making it `after`, and
/// what it returns. All of them are claimed, or none is.
pub open spec fn grants_all(
    v: TablesView,
    clock: DbClock,
    worker: WorkerId,
    ids: Seq<RunId>,
    tokens: Seq<LeaseToken>,
    after: TablesView,
    res: Result<Vec<ClaimedRun>, SchedulerError>,
) -> bool {
    match first_fault(v, ids, clock.wall()) {
        Some(e) => after == v && res == Err::<Vec<ClaimedRun>, SchedulerError>(
            SchedulerError::Database(e),
        ),
        None => {
            &&& after == grants(v, worker, ids, tokens, clock.wall(), ids.len())
            &&& hands_out(after, ids, res)
        },
    }
}

/// What claiming under `tokens` does to `v`, making it `after`, and what it
/// returns. All chosen runs are claimed, or none is.
pub open spec fn claims(
    v: TablesView,
    clock: DbClock,
    worker: WorkerId,
    names: Seq<String>,
    limit: nat,
    tokens: Seq<LeaseToken>,
    after: TablesView,
    res: Result<Vec<ClaimedRun>, SchedulerError>,
) -> bool {
    grants_all(v, clock, worker, chosen(v, names, clock.now(), limit), tokens, after, res)
}

/// What is left of a run when the columns that a claim writes are taken away.
spec fn unclaimed(r: SchedulerRun) -> SchedulerRun {
    SchedulerRun {
        state: StoredRunState::Pending,
        attempt_count: 0,
        worker_id: None,
        lease_token: None,
        started_at: None,
        lease_expires_at: None,
        updated_at: Timestamp { micros: 0 },
        ..r
    }
}

fn contains_name(names: &[String], name: &str) -> (res: bool)
    ensures
        res == named_in(names@, name@),
{
    let mut i: usize = 0;
    while i < names.len()
        invariant
            i <= names@.len(),
            forall|j: int| 0 <= j < i ==> (#[trigger] names@[j])@ != name@,
        decreases names@.len() - i,
    {
        if same_text(names[i].as_str(), name) {
            assert(names@[i as int]@ == name@);
            return true;
        }
        i = i + 1;
    }
    false
}

/// The runs that one claim of at most `limit` takes, best first.
pub fn claim_candidates(
    tables: &Tables,
    clock: &DbClock,
    names: &[String],
    limit: usize,
) -> (res: Vec<RunId>)
    ensures
        res@ == chosen(tables@, names@, clock.now(), limit as nat),
        forall|i: int| 0 <= i < res@.len() ==> tables@.has_run(#[trigger] res@[i]),
        res@.len() <= limit,
        res@.len() <= tables.runs@.len(),
{
    let now: Timestamp = clock.now();
    let ghost p = |r: SchedulerRun| claimable(r, names@, now);
    let ghost key = |r: SchedulerRun| claim_rank(r);
    let mut ranks: Vec<Rank> = Vec::new();
    let mut i: usize = 0;
    assert(tables.runs@.take(0) =~= Seq::<SchedulerRun>::empty());
    while i < tables.runs.len()
        invariant
            i <= tables.runs@.len(),
            ranks@ == ranking::ranks_where(tables.runs@.take(i as int), p, key),
            p == (|r: SchedulerRun| claimable(r, names@, now)),
            key == (|r: SchedulerRun| claim_rank(r)),
        decreases tables.runs@.len() - i,
    {
        proof {
            ranking::lemma_ranks_step(tables.runs@, p, key, i as int);
        }
        let run = &tables.runs[i];
        let pending = match run.state {
            StoredRunState::Pending => true,
            _ => false,
        };
        if pending && run.available_at.micros <= now.micros && contains_name(
            names,
            run.job_name.as_str(),
        ) {
            ranks.push(
                Rank {
                    major: -(run.priority as i64),
                    minor: run.available_at.micros,
                    id: run.id.0,
                },
            );
        }
        i = i + 1;
    }
    assert(tables.runs@.take(i as int) =~= tables.runs@);
    let best: Vec<Rank> = ranking::select(&ranks, limit);
    proof {
        selection::lemma_selected(tables.runs@, p, key, limit as nat);
    }
    selection::run_ids(&best)
}

/// What a claim writes to the run at one position.
struct Grant {
    at: usize,
    attempt: i32,
    expires_at: Timestamp,
}

/// What claiming each of `ids` writes, or why one of them cannot be claimed.
fn plan_grants(tables: &Tables, wall: Timestamp, ids: &Vec<RunId>) -> (res: Result<
    Vec<Grant>,
    DatabaseError,
>)
    requires
        forall|i: int| 0 <= i < ids@.len() ==> tables@.has_run(#[trigger] ids@[i]),
    ensures
        match res {
            Err(e) => first_fault(tables@, ids@, wall) == Some(e),
            Ok(plan) => {
                &&& first_fault(tables@, ids@, wall) is None
                &&& plan@.len() == ids@.len()
                &&& forall|i: int|
                    0 <= i < ids@.len() ==> planned(tables@, wall, ids@[i], #[trigger] plan@[i])
            },
        },
{
    let mut plan: Vec<Grant> = Vec::new();
    let mut i: usize = 0;
    assert(ids@.take(0) =~= Seq::<RunId>::empty());
    while i < ids.len()
        invariant
            i <= ids@.len(),
            forall|j: int| 0 <= j < ids@.len() ==> tables@.has_run(#[trigger] ids@[j]),
            first_fault(tables@, ids@.take(i as int), wall) is None,
            plan@.len() == i,
            forall|j: int| 0 <= j < i ==> planned(tables@, wall, ids@[j], #[trigger] plan@[j]),
        decreases ids@.len() - i,
    {
        let id: RunId = ids[i];
        assert(tables@.has_run(ids@[i as int]));
        assert(ids@.take(i + 1).drop_last() =~= ids@.take(i as int));
        let at: usize = tables.find_run(id);
        let run = &tables.runs[at];
        let fault: Option<DatabaseError> = if run.attempt_count == i32::MAX {
            Some(DatabaseError::OutOfRange)
        } else {
            match wall.checked_add(run.lease_duration) {
                None => Some(DatabaseError::OutOfRange),
                Some(expires_at) => {
                    let attempt: i32 = run.attempt_count + 1;
                    if tables.attempt_recorded(id, attempt) {
                        Some(DatabaseError::UniqueViolation)
                    } else {
                        plan.push(Grant { at, attempt, expires_at });
                        None
                    }
                },
            }
        };
        assert(fault == grant_fault(tables@, id, wall));
        if let Some(e) = fault {
            proof {
                lemma_fault_of_prefix(tables@, ids@, wall, i as int);
            }
            return Err(e);
        }
        i = i + 1;
    }
    assert(ids@.take(i as int) =~= ids@);
    Ok(plan)
}

/// Whether `grant` is what claiming run `id` of `v` at `wall` writes.
spec fn planned(v: TablesView, wall: Timestamp, id: RunId, grant: Grant) -> bool {
    &&& grant.at == v.run_position(id)
    &&& grant.attempt == v.run(id)->0.attempt_count + 1
    &&& time::instant_after(wall, v.run(id)->0.lease_duration) == Some(grant.expires_at)
}

/// The first fault is that of the first run with one.
proof fn lemma_fault_of_prefix(v: TablesView, ids: Seq<RunId>, wall: Timestamp, n: int)
    requires
        0 <= n < ids.len(),
        first_fault(v, ids.take(n), wall) is None,
        grant_fault(v, ids[n], wall) is Some,
    ensures
        first_fault(v, ids, wall) == grant_fault(v, ids[n], wall),
    decreases ids.len(),
{
    if n == ids.len() - 1 {
        assert(ids.drop_last() =~= ids.take(n));
    } else {
        let init = ids.drop_last();
        assert(init.take(n) =~= ids.take(n));
        lemma_fault_of_prefix(v, init, wall, n);
    }
}

/// Hands out the claimed runs `ids`.
fn hand_out(tables: &Tables, ids: &Vec<RunId>) -> (res: Result<Vec<ClaimedRun>, SchedulerError>)
    requires
        forall|i: int|
            0 <= i < ids@.len() ==> tables@.has_run(#[trigger] ids@[i]) && tables@.run(
                ids@[i],
            )->0.lease_token is Some && tables@.run(ids@[i])->0.lease_expires_at is Some,
    ensures
        hands_out(tables@, ids@, res),
{
    let mut ranks: Vec<Rank> = Vec::new();
    let mut i: usize = 0;
    while i < ids.len()
        invariant
            i <= ids@.len(),
            forall|j: int| 0 <= j < ids@.len() ==> tables@.has_run(#[trigger] ids@[j]),
            ranks@.len() == i,
            forall|j: int|
                0 <= j < i ==> #[trigger] ranks@[j] == report_rank(tables@.run(ids@[j])->0),
        decreases ids@.len() - i,
    {
        assert(tables@.has_run(ids@[i as int]));
        let at: usize = tables.find_run(ids[i]);
        let run = &tables.runs[at];
        ranks.push(Rank { major: run.scheduled_for.micros, minor: 0, id: run.id.0 });
        i = i + 1;
    }
    assert(ranks@ =~= ids@.map_values(|id: RunId| report_rank(tables@.run(id)->0)));
    let sorted: Vec<Rank> = ranking::select(&ranks, ranks.len());
    let ghost rows = report_rows(tables@, ids@);
    proof {
        ranking::lemma_first_ranked(ranks@, ranks@.len());
        ranking::lemma_all_ranked(ranks@);
    }
    let ghost bad = |r: SchedulerRun| report_error(r) is Some;
    let mut claimed: Vec<ClaimedRun> = Vec::new();
    let mut k: usize = 0;
    while k < sorted.len()
        invariant
            k <= sorted@.len(),
            rows == report_rows(tables@, ids@),
            bad == (|r: SchedulerRun| report_error(r) is Some),
            sorted@ == ranking::ranked(
                ids@.map_values(|id: RunId| report_rank(tables@.run(id)->0)),
            ),
            ranks@ == ids@.map_values(|id: RunId| report_rank(tables@.run(id)->0)),
            forall|j: int| 0 <= j < sorted@.len() ==> ranks@.contains(#[trigger] sorted@[j]),
            forall|j: int|
                0 <= j < ids@.len() ==> tables@.has_run(#[trigger] ids@[j]) && tables@.run(
                    ids@[j],
                )->0.lease_token is Some && tables@.run(ids@[j])->0.lease_expires_at is Some,
            claimed@.len() == k,
            forall|j: int| 0 <= j < k ==> !bad(#[trigger] rows[j]),
            forall|j: int| 0 <= j < k ==> #[trigger] claimed@[j] == reported(rows[j]),
        decreases sorted@.len() - k,
    {
        proof {
            let rank = sorted@[k as int];
            assert(ranks@.contains(rank));
            let j = choose|j: int| 0 <= j < ranks@.len() && ranks@[j] == rank;
            assert(tables@.has_run(ids@[j]));
            tables::lemma_first_position(tables.runs@, |r: SchedulerRun| r.id == ids@[j]);
            assert(RunId(rank.id) == ids@[j]);
        }
        let at: usize = tables.find_run(RunId(sorted[k].id));
        let run = &tables.runs[at];
        assert(*run == rows[k as int]);
        if run.attempt_count <= 0 {
            proof {
                tables::lemma_is_first_position(rows, bad, k as int);
            }
            return Err(SchedulerError::Invariant("attempt_count must be positive after claim"));
        }
        let lease_duration = match LeaseDuration::from_pg_interval(run.lease_duration) {
            Ok(lease_duration) => lease_duration,
            Err(_) => {
                proof {
                    tables::lemma_is_first_position(rows, bad, k as int);
                }
                return Err(SchedulerError::Invariant("claimed task has invalid lease duration"));
            },
        };
        if let (Some(lease_token), Some(lease_expires_at)) = (
            run.lease_token,
            run.lease_expires_at,
        ) {
            claimed.push(
                ClaimedRun {
                    run_id: run.id,
                    job_id: run.job_id,
                    job_name: run.job_name.clone(),
                    job_args: run.job_args.clone(),
                    scheduled_for: run.scheduled_for,
                    attempt: run.attempt_count as u32,
                    lease_token,
                    lease_expires_at,
                    lease_duration,
                },
            );
        }
        k = k + 1;
    }
    proof {
        tables::lemma_is_first_position(rows, bad, k as int);
        assert(claimed@ =~= rows.map_values(|r: SchedulerRun| reported(r)));
    }
    Ok(claimed)
}

/// Claims the runs `ids` for `worker_id`, each under the token of the same
/// position: all of them, or none.
fn grant_batch(
    tables: &mut Tables,
    clock: &DbClock,
    worker_id: &WorkerId,
    ids: &Vec<RunId>,
    tokens: &Vec<LeaseToken>,
) -> (res: Result<Vec<ClaimedRun>, SchedulerError>)
    requires
        forall|i: int| 0 <= i < ids@.len() ==> old(tables)@.has_run(#[trigger] ids@[i]),
        tokens@.len() == ids@.len(),
    ensures
        grants_all(old(tables)@, *clock, *worker_id, ids@, tokens@, final(tables)@, res),
{
    let wall: Timestamp = clock.wall();
    let plan = match plan_grants(tables, wall, ids) {
        Ok(plan) => plan,
        Err(e) => return Err(SchedulerError::Database(e)),
    };
    let ghost v = tables@;
    let mut k: usize = 0;
    while k < plan.len()
        invariant
            k <= plan@.len(),
            plan@.len() == ids@.len(),
            tokens@.len() == ids@.len(),
            forall|i: int| 0 <= i < ids@.len() ==> v.has_run(#[trigger] ids@[i]),
            forall|i: int|
                0 <= i < ids@.len() ==> planned(v, wall, ids@[i], #[trigger] plan@[i]),
            tables@ == grants(v, *worker_id, ids@, tokens@, wall, k as nat),
            tables.runs@.len() == v.runs.len(),
            forall|j: int|
                0 <= j < v.runs.len() ==> unclaimed(#[trigger] tables.runs@[j]) == unclaimed(
                    v.runs[j],
                ),
            forall|i: int|
                0 <= i < k ==> tables.runs@[(#[trigger] plan@[i]).at as int].lease_token is Some
                    && tables.runs@[plan@[i].at as int].lease_expires_at is Some,
        decreases plan@.len() - k,
    {
        let at: usize = plan[k].at;
        assert(planned(v, wall, ids@[k as int], plan@[k as int]));
        assert(v.has_run(ids@[k as int]));
        proof {
            tables::lemma_first_position(v.runs, |r: SchedulerRun| r.id == ids@[k as int]);
            assert(unclaimed(tables.runs@[at as int]) == unclaimed(v.runs[at as int]));
        }
        tables.runs[at].state = StoredRunState::Running;
        tables.runs[at].attempt_count = plan[k].attempt;
        tables.runs[at].worker_id = Some(worker_id.clone());
        tables.runs[at].lease_token = Some(tokens[k]);
        tables.runs[at].started_at = Some(wall);
        tables.runs[at].lease_expires_at = Some(plan[k].expires_at);
        tables.runs[at].updated_at = wall;
        let attempt = AttemptRow {
            run_id: ids[k],
            attempt_number: plan[k].attempt,
            worker_id: worker_id.clone(),
            lease_token: tokens[k],
            started_at: wall,
            lease_expires_at: plan[k].expires_at,
            finished_at: None,
            outcome: None,
            error: None,
        };
        tables.attempts.push(attempt);
        k = k + 1;
    }
    proof {
        assert forall|i: int| 0 <= i < ids@.len() implies tables@.has_run(#[trigger] ids@[i])
            && tables@.run(ids@[i])->0.lease_token is Some && tables@.run(
            ids@[i],
        )->0.lease_expires_at is Some by {
            let p = |r: SchedulerRun| r.id == ids@[i];
            let at = plan@[i].at as int;
            assert(v.has_run(ids@[i]));
            tables::lemma_first_position(v.runs, p);
            assert forall|j: int| 0 <= j < at implies !p(#[trigger] tables.runs@[j]) by {
                assert(unclaimed(tables.runs@[j]) == unclaimed(v.runs[j]));
                assert(!p(v.runs[j]));
            }
            assert(unclaimed(tables.runs@[at]) == unclaimed(v.runs[at]));
            tables::lemma_is_first_position(tables.runs@, p, at);
        }
    }
    hand_out(tables, ids)
}

/// As many fresh tokens as `count`.
fn fresh_tokens(count: usize) -> (res: Vec<LeaseToken>)
    ensures
        res@.len() == count,
        forall|i: int| 0 <= i < count ==> ids::is_random_uuid((#[trigger] res@[i]).value()),
{
    let mut tokens: Vec<LeaseToken> = Vec::new();
    while tokens.len() < count
        invariant
            tokens@.len() <= count,
            forall|i: int|
                0 <= i < tokens@.len() ==> ids::is_random_uuid((#[trigger] tokens@[i]).value()),
        decreases count - tokens@.len(),
    {
        tokens.push(LeaseToken::generate());
    }
    tokens
}

/// Whether `token` is none of the first `n` of `tokens`, and under none of the
/// attempts of `tables`.
fn is_unused(tables: &Tables, tokens: &Vec<LeaseToken>, n: usize, token: LeaseToken) -> (res: bool)
    requires
        n <= tokens@.len(),
    ensures
        res == ((forall|i: int| 0 <= i < n ==> #[trigger] tokens@[i] != token) && (forall|k: int|
            0 <= k < tables.attempts@.len() ==> (#[trigger] tables.attempts@[k]).lease_token
                != token)),
{
    let mut i: usize = 0;
    while i < n
        invariant
            i <= n <= tokens@.len(),
            forall|j: int| 0 <= j < i ==> #[trigger] tokens@[j] != token,
        decreases n - i,
    {
        if tokens[i] == token {
            assert(tokens@[i as int] == token);
            return false;
        }
        i = i + 1;
    }
    let mut k: usize = 0;
    while k < tables.attempts.len()
        invariant
            k <= tables.attempts@.len(),
            forall|j: int|
                0 <= j < k ==> (#[trigger] tables.attempts@[j]).lease_token != token,
        decreases tables.attempts@.len() - k,
    {
        if tables.attempts[k].lease_token == token {
            assert(tables.attempts@[k as int].lease_token == token);
            return false;
        }
        k = k + 1;
    }
    true
}

/// Whether `tokens` are distinct and none of them was ever used in `tables`.
fn are_unused(tables: &Tables, tokens: &Vec<LeaseToken>) -> (res: bool)
    ensures
        res == unused(tables@, tokens@),
{
    let mut i: usize = 0;
    while i < tokens.len()
        invariant
            i <= tokens@.len(),
            forall|a: int, b: int|
                0 <= a < b < i ==> #[trigger] tokens@[a] != #[trigger] tokens@[b],
            forall|a: int, k: int|
                #![trigger tokens@[a], tables@.attempts[k]]
                0 <= a < i && 0 <= k < tables@.attempts.len() ==> tables@.attempts[k].lease_token
                    != tokens@[a],
        decreases tokens@.len() - i,
    {
        if !is_unused(tables, tokens, i, tokens[i]) {
            proof {
                let token = tokens@[i as int];
                if unused(tables@, tokens@) {
                    assert forall|a: int| 0 <= a < i implies #[trigger] tokens@[a] != token by {}
                    assert forall|k: int| 0 <= k < tables.attempts@.len() implies (
                    #[trigger] tables.attempts@[k]).lease_token != token by {
                        assert(tables@.attempts[k].lease_token != tokens@[i as int]);
                    }
                }
            }
            return false;
        }
        i = i + 1;
    }
    true
}

/// Whether `tokens` has a random token for each of `count` runs.
pub open spec fn are_fresh(tokens: Seq<LeaseToken>, count: nat) -> bool {
    tokens.len() == count && forall|i: int|
        0 <= i < count ==> ids::is_random_uuid((#[trigger] tokens[i]).value())
}

/// What a claim that has drawn `tokens` does to `v`, making it `after`, and what it
/// returns. Where one of them is taken, the claim is refused and changes nothing.
pub open spec fn settles(
    v: TablesView,
    clock: DbClock,
    worker: WorkerId,
    names: Seq<String>,
    limit: nat,
    tokens: Seq<LeaseToken>,
    after: TablesView,
    res: Result<Vec<ClaimedRun>, SchedulerError>,
) -> bool {
    if unused(v, tokens) {
        claims(v, clock, worker, names, limit, tokens, after, res)
    } else {
        after == v && res == Err::<Vec<ClaimedRun>, SchedulerError>(
            SchedulerError::Database(DatabaseError::UniqueViolation),
        )
    }
}

/// What a claim does that draws a random token for each run, and what it returns:
/// `tokens` are what it may have drawn.
pub open spec fn draws(
    v: TablesView,
    clock: DbClock,
    worker: WorkerId,
    names: Seq<String>,
    limit: nat,
    tokens: Seq<LeaseToken>,
    after: TablesView,
    res: Result<Vec<ClaimedRun>, SchedulerError>,
) -> bool {
    &&& are_fresh(tokens, chosen(v, names, clock.now(), limit).len())
    &&& settles(v, clock, worker, names, limit, tokens, after, res)
}

/// Claims the runs `ids` for `worker_id`, each under the token of the same
/// position. Where one of `tokens` is taken, nothing is claimed.
pub fn grant_unused(
    tables: &mut Tables,
    clock: &DbClock,
    worker_id: &WorkerId,
    ids: &Vec<RunId>,
    tokens: &Vec<LeaseToken>,
) -> (res: Result<Vec<ClaimedRun>, SchedulerError>)
    requires
        forall|i: int| 0 <= i < ids@.len() ==> old(tables)@.has_run(#[trigger] ids@[i]),
        tokens@.len() == ids@.len(),
    ensures
        if unused(old(tables)@, tokens@) {
            grants_all(old(tables)@, *clock, *worker_id, ids@, tokens@, final(tables)@, res)
        } else {
            final(tables)@ == old(tables)@ && res == Err::<Vec<ClaimedRun>, SchedulerError>(
                SchedulerError::Database(DatabaseError::UniqueViolation),
            )
        },
{
    if !are_unused(tables, tokens) {
        return Err(SchedulerError::Database(DatabaseError::UniqueViolation));
    }
    grant_batch(tables, clock, worker_id, ids, tokens)
}

/// Claims up to `limit` pending runs of `names` for `worker_id`, the best first.
/// Each claim has a token that was never used before, and records an attempt.
pub fn claim_batch(
    tables: &mut Tables,
    clock: &DbClock,
    worker_id: &WorkerId,
    names: &[String],
    limit: usize,
) -> (res: Result<Vec<ClaimedRun>, SchedulerError>)
    ensures
        limit > i64::MAX ==> final(tables)@ == old(tables)@ && res is Err && res->Err_0 is Config
            && res->Err_0->Config_0@ == "claim batch is too large"@,
        limit <= i64::MAX ==> exists|tokens: Seq<LeaseToken>| #[trigger]
            draws(
                old(tables)@,
                *clock,
                *worker_id,
                names@,
                limit as nat,
                tokens,
                final(tables)@,
                res,
            ),
{
    if limit as u64 > i64::MAX as u64 {
        return Err(SchedulerError::Config("claim batch is too large".to_owned()));
    }
    let ids = claim_candidates(tables, clock, names, limit);
    let tokens = fresh_tokens(ids.len());
    let res = grant_unused(tables, clock, worker_id, &ids, &tokens);
    assert(draws(
        old(tables)@,
        *clock,
        *worker_id,
        names@,
        limit as nat,
        tokens@,
        tables@,
        res,
    ));
    res
}

/// Claims one pending run of `names` for `worker_id`, where there is one.
pub fn claim_one(
    tables: &mut Tables,
    clock: &DbClock,
    worker_id: &WorkerId,
    names: &[String],
) -> (res: Result<Option<ClaimedRun>, SchedulerError>)
    ensures
        exists|tokens: Seq<LeaseToken>, batch: Result<Vec<ClaimedRun>, SchedulerError>|
            #[trigger] draws(
                old(tables)@,
                *clock,
                *worker_id,
                names@,
                1,
                tokens,
                final(tables)@,
                batch,
            ) && match batch {
                Ok(claimed) => res is Ok && res->Ok_0 == if claimed@.len() == 0 {
                    None
                } else {
                    Some(claimed@.last())
                },
                Err(e) => res is Err && res->Err_0 == e,
            },
{
    let batch = claim_batch(tables, clock, worker_id, names, 1);
    match batch {
        Ok(mut claimed) => Ok(claimed.pop()),
        Err(e) => Err(e),
    }
}

} // verus!
