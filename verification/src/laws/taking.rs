//! Taking work: every run that waits is claimed, in order, and handed out whole.
//! What these laws say they say of the columns of the rows.
use vstd::prelude::*;

use crate::consistency;
use crate::error::{DatabaseError, SchedulerError};
use crate::ids;
use crate::ids::{LeaseToken, RunId, WorkerId};
use crate::laws::claiming;
use crate::laws::granting;
use crate::models::{ClaimedRun, SchedulerRun};
use crate::policy;
use crate::ranking;
use crate::store::claim;
use crate::tables;
use crate::tables::TablesView;
use crate::time;
use crate::time::{DbClock, Timestamp};

verus! {

/// Every pending run that is available and of one of the names is chosen, or the
/// choice is full: it has as many runs as were asked for.
pub proof fn law_every_available_run_is_chosen(
    v: TablesView,
    names: Seq<String>,
    now: Timestamp,
    limit: nat,
    i: int,
    n: int,
)
    requires
        consistency::consistent(v),
        0 <= i < v.runs.len(),
        v.runs[i].state is Pending,
        v.runs[i].available_at.micros <= now.micros,
        0 <= n < names.len(),
        names[n]@ == v.runs[i].job_name@,
    ensures
        claim::chosen(v, names, now, limit).contains(v.runs[i].id) || claim::chosen(
            v,
            names,
            now,
            limit,
        ).len() == limit,
{
    let p = |r: SchedulerRun| claim::claimable(r, names, now);
    let key = |r: SchedulerRun| claim::claim_rank(r);
    let ids = claim::chosen(v, names, now, limit);
    assert(p(v.runs[i]));
    if ids.len() != limit && !ids.contains(v.runs[i].id) {
        let ranks = ranking::ranks_where(v.runs, p, key);
        let best = ranking::first_ranked(ranks, limit);
        ranking::lemma_first_ranked(ranks, limit);
        ranking::lemma_ranks_where(v.runs, p, key, key(v.runs[i]));
        ranking::lemma_all_taken(ranks, limit);
        assert(ranks.contains(key(v.runs[i])));
        let k = choose|k: int| 0 <= k < best.len() && best[k] == key(v.runs[i]);
        assert(ids[k] == v.runs[i].id);
    }
}

/// Whatever is chosen is a pending run that is available and of one of the names;
/// no run is chosen twice, and no more are chosen than were asked for.
pub proof fn law_only_available_runs_are_chosen(
    v: TablesView,
    names: Seq<String>,
    now: Timestamp,
    limit: nat,
    k: int,
)
    requires
        consistency::consistent(v),
        0 <= k < claim::chosen(v, names, now, limit).len(),
    ensures
        claim::chosen(v, names, now, limit).len() <= limit,
        forall|j: int|
            0 <= j < k ==> #[trigger] claim::chosen(v, names, now, limit)[j] != claim::chosen(
                v,
                names,
                now,
                limit,
            )[k],
        exists|i: int, n: int|
            #![trigger v.runs[i], names[n]]
            {
                &&& 0 <= i < v.runs.len()
                &&& 0 <= n < names.len()
                &&& v.runs[i].id == claim::chosen(v, names, now, limit)[k]
                &&& v.runs[i].state is Pending
                &&& v.runs[i].available_at.micros <= now.micros
                &&& v.runs[i].job_name@ == names[n]@
            },
{
    let ids = claim::chosen(v, names, now, limit);
    granting::lemma_chosen(v, names, now, limit);
    assert(v.has_run(ids[k]));
    consistency::lemma_found(v, ids[k]);
    let i = v.run_position(ids[k]);
    assert(claim::claimable(v.run(ids[k])->0, names, now));
    let n = choose|n: int| 0 <= n < names.len() && (#[trigger] names[n])@ == v.runs[i].job_name@;
    assert(v.runs[i].id == ids[k] && names[n]@ == v.runs[i].job_name@);
}

/// A chosen run comes before every run that waits and comes later in the choice or is
/// left out: it has the higher priority, or the same one and has been available for
/// longer, or both are the same and its identifier is lower.
pub proof fn law_runs_are_chosen_in_order(
    v: TablesView,
    names: Seq<String>,
    now: Timestamp,
    limit: nat,
    k: int,
    i: int,
    j: int,
    n: int,
)
    requires
        consistency::consistent(v),
        0 <= k < claim::chosen(v, names, now, limit).len(),
        0 <= i < v.runs.len(),
        v.runs[i].id == claim::chosen(v, names, now, limit)[k],
        0 <= j < v.runs.len(),
        v.runs[j].state is Pending,
        v.runs[j].available_at.micros <= now.micros,
        0 <= n < names.len(),
        names[n]@ == v.runs[j].job_name@,
        forall|m: int| 0 <= m <= k ==> #[trigger] claim::chosen(v, names, now, limit)[m]
            != v.runs[j].id,
    ensures
        v.runs[i].priority >= v.runs[j].priority,
        v.runs[i].priority == v.runs[j].priority ==> v.runs[i].available_at.micros
            <= v.runs[j].available_at.micros,
        v.runs[i].priority == v.runs[j].priority && v.runs[i].available_at.micros
            == v.runs[j].available_at.micros ==> v.runs[i].id.0 < v.runs[j].id.0,
{
    let p = |r: SchedulerRun| claim::claimable(r, names, now);
    let key = |r: SchedulerRun| claim::claim_rank(r);
    let ids = claim::chosen(v, names, now, limit);
    let ranks = ranking::ranks_where(v.runs, p, key);
    let best = ranking::first_ranked(ranks, limit);
    ranking::lemma_first_ranked(ranks, limit);
    ranking::lemma_rank_order();
    consistency::lemma_distinct(v);
    assert(p(v.runs[j]));
    ranking::lemma_ranks_where(v.runs, p, key, key(v.runs[j]));
    assert(ranks.contains(key(v.runs[j])));
    assert(ranks.contains(best[k]));
    ranking::lemma_ranks_where(v.runs, p, key, best[k]);
    let row = choose|row: int|
        0 <= row < v.runs.len() && p(#[trigger] v.runs[row]) && key(v.runs[row]) == best[k];
    assert(v.runs[row].id == ids[k]);
    assert(row == i) by {
        if row < i {
            assert(v.runs[row].id != v.runs[i].id);
        } else if i < row {
            assert(v.runs[i].id != v.runs[row].id);
        }
    }
    assert(v.runs[i].id != v.runs[j].id) by {
        assert(ids[k] != v.runs[j].id);
    }
    if best.contains(key(v.runs[j])) {
        let m = choose|m: int| 0 <= m < best.len() && best[m] == key(v.runs[j]);
        assert(ids[m] == v.runs[j].id);
        assert(k < m);
        assert(ranking::rank_order()(best[k], best[m]));
    }
    assert(ranking::precedes(key(v.runs[i]), key(v.runs[j])));
}

/// Nothing stops a claim under distinct tokens that are on no attempt, where the
/// leases of pending runs are positive spans whose end can be represented. It hands
/// out as many runs as it chose.
pub proof fn law_a_claim_goes_through(
    v: TablesView,
    clock: DbClock,
    worker: WorkerId,
    names: Seq<String>,
    limit: nat,
    tokens: Seq<LeaseToken>,
    after: TablesView,
    res: Result<Vec<ClaimedRun>, SchedulerError>,
)
    requires
        consistency::consistent(v),
        tokens.len() == claim::chosen(v, names, clock.now(), limit).len(),
        forall|a: int, b: int|
            0 <= a < b < tokens.len() ==> #[trigger] tokens[a] != #[trigger] tokens[b],
        forall|a: int, k: int|
            #![trigger tokens[a], v.attempts[k]]
            0 <= a < tokens.len() && 0 <= k < v.attempts.len() ==> v.attempts[k].lease_token
                != tokens[a],
        forall|i: int|
            0 <= i < v.runs.len() && v.runs[i].state is Pending ==> {
                let lease = (#[trigger] v.runs[i]).lease_duration;
                &&& lease.months == 0
                &&& lease.days == 0
                &&& lease.microseconds > 0
                &&& clock.wall().micros + lease.microseconds <= i64::MAX
            },
        claim::settles(v, clock, worker, names, limit, tokens, after, res),
    ensures
        claim::unused(v, tokens),
        claiming::goes_through(v, claim::chosen(v, names, clock.now(), limit), clock.wall()),
        res is Ok,
        res->Ok_0@.len() == tokens.len(),
        after.runs.len() == v.runs.len(),
        after.jobs == v.jobs,
        forall|j: int|
            0 <= j < res->Ok_0@.len() ==> claim::chosen(v, names, clock.now(), limit).contains(
                (#[trigger] res->Ok_0@[j]).run_id,
            ) && after.run(res->Ok_0@[j].run_id) is Some && res->Ok_0@[j] == claim::reported(
                after.run(res->Ok_0@[j].run_id)->0,
            ),
        forall|k: int|
            0 <= k < tokens.len() ==> exists|j: int|
                0 <= j < res->Ok_0@.len() && (#[trigger] res->Ok_0@[j]).run_id
                    == #[trigger] claim::chosen(v, names, clock.now(), limit)[k],
{
    let ids = claim::chosen(v, names, clock.now(), limit);
    let wall = clock.wall();
    granting::lemma_chosen(v, names, clock.now(), limit);
    assert(claim::unused(v, tokens));
    assert forall|i: int| 0 <= i < ids.len() implies time::instant_after(
        wall,
        v.run(#[trigger] ids[i])->0.lease_duration,
    ) is Some && v.has_run(ids[i]) by {
        assert(v.has_run(ids[i]));
        consistency::lemma_found(v, ids[i]);
        assert(claim::claimable(v.run(ids[i])->0, names, clock.now()));
        assert(v.runs[v.run_position(ids[i])].state is Pending);
    }
    claiming::law_claims_fail_only_out_of_range(v, names, clock.now(), limit, wall);
    lemma_handed_out(v, clock, worker, names, limit, tokens, after, res);
}

/// What a claim that goes through hands out.
proof fn lemma_handed_out(
    v: TablesView,
    clock: DbClock,
    worker: WorkerId,
    names: Seq<String>,
    limit: nat,
    tokens: Seq<LeaseToken>,
    after: TablesView,
    res: Result<Vec<ClaimedRun>, SchedulerError>,
)
    requires
        consistency::consistent(v),
        tokens.len() == claim::chosen(v, names, clock.now(), limit).len(),
        claim::unused(v, tokens),
        claim::claims(v, clock, worker, names, limit, tokens, after, res),
        claiming::goes_through(v, claim::chosen(v, names, clock.now(), limit), clock.wall()),
        forall|i: int|
            0 <= i < v.runs.len() && v.runs[i].state is Pending ==> {
                let lease = (#[trigger] v.runs[i]).lease_duration;
                &&& lease.months == 0
                &&& lease.days == 0
                &&& lease.microseconds > 0
            },
    ensures
        res is Ok,
        res->Ok_0@.len() == tokens.len(),
        after.runs.len() == v.runs.len(),
        after.jobs == v.jobs,
        forall|j: int|
            0 <= j < res->Ok_0@.len() ==> claim::chosen(v, names, clock.now(), limit).contains(
                (#[trigger] res->Ok_0@[j]).run_id,
            ) && after.run(res->Ok_0@[j].run_id) is Some && res->Ok_0@[j] == claim::reported(
                after.run(res->Ok_0@[j].run_id)->0,
            ),
        forall|k: int|
            0 <= k < tokens.len() ==> exists|j: int|
                0 <= j < res->Ok_0@.len() && (#[trigger] res->Ok_0@[j]).run_id
                    == #[trigger] claim::chosen(v, names, clock.now(), limit)[k],
{
    let wall = clock.wall();
    let ids = claim::chosen(v, names, clock.now(), limit);
    granting::lemma_chosen(v, names, clock.now(), limit);
    granting::lemma_no_fault(v, ids, wall);
    granting::lemma_grants(v, worker, ids, tokens, wall, ids.len());
    consistency::lemma_distinct(v);
    consistency::lemma_distinct(after);
    let ranks = ids.map_values(|id: RunId| claim::report_rank(after.run(id)->0));
    let sorted = ranking::ranked(ranks);
    let rows = claim::report_rows(after, ids);
    ranking::lemma_all_ranked(ranks);
    ranking::lemma_first_ranked(ranks, ranks.len());
    assert forall|k: int| 0 <= k < ids.len() implies after.run(#[trigger] ids[k]) is Some
        && after.run(ids[k])->0.id == ids[k] && claim::report_error(after.run(ids[k])->0)
        is None by {
        assert(v.has_run(ids[k]));
        consistency::lemma_found(v, ids[k]);
        let p = v.run_position(ids[k]);
        assert(claim::claimable(v.run(ids[k])->0, names, clock.now()));
        assert(after.runs[v.run_position(ids[k])] == claim::granted(
            v.run(ids[k])->0,
            worker,
            tokens[k],
            wall,
        ));
        consistency::lemma_position(after, p);
        assert(consistency::run_ok(v.runs[p]));
        assert(v.runs[p].state is Pending);
    }
    assert forall|j: int| 0 <= j < rows.len() implies ids.contains((#[trigger] rows[j]).id)
        && after.run(rows[j].id) == Some(rows[j]) && claim::report_error(rows[j]) is None by {
        assert(ranks.contains(sorted[j]));
        let k = choose|k: int| 0 <= k < ranks.len() && ranks[k] == sorted[j];
        assert(after.run(ids[k])->0.id == ids[k]);
        assert(ids.contains(ids[k]));
    }
    let bad = |r: SchedulerRun| claim::report_error(r) is Some;
    assert forall|j: int| 0 <= j < rows.len() implies !bad(#[trigger] rows[j]) by {}
    tables::lemma_is_first_position(rows, bad, rows.len() as int);
    assert forall|k: int| 0 <= k < tokens.len() implies exists|j: int|
        0 <= j < res->Ok_0@.len() && (#[trigger] res->Ok_0@[j]).run_id == #[trigger] ids[k] by {
        assert(ranks[k] == claim::report_rank(after.run(ids[k])->0));
        assert(ranks.contains(ranks[k]));
        ranking::lemma_all_taken(ranks, ranks.len());
        let j = choose|j: int| 0 <= j < sorted.len() && sorted[j] == ranks[k];
        assert(rows[j].id == ids[k]) by {
            assert(RunId(sorted[j].id) == ids[k]);
        }
        assert(res->Ok_0@[j].run_id == ids[k]);
    }
}

/// Every pending run that is available and of one of the names is handed out by a
/// claim that goes through, or the claim hands out as many runs as were asked for.
pub proof fn law_available_runs_are_handed_out(
    v: TablesView,
    clock: DbClock,
    worker: WorkerId,
    names: Seq<String>,
    limit: nat,
    tokens: Seq<LeaseToken>,
    after: TablesView,
    res: Result<Vec<ClaimedRun>, SchedulerError>,
    i: int,
    n: int,
)
    requires
        consistency::consistent(v),
        tokens.len() == claim::chosen(v, names, clock.now(), limit).len(),
        forall|a: int, b: int|
            0 <= a < b < tokens.len() ==> #[trigger] tokens[a] != #[trigger] tokens[b],
        forall|a: int, k: int|
            #![trigger tokens[a], v.attempts[k]]
            0 <= a < tokens.len() && 0 <= k < v.attempts.len() ==> v.attempts[k].lease_token
                != tokens[a],
        forall|i: int|
            0 <= i < v.runs.len() && v.runs[i].state is Pending ==> {
                let lease = (#[trigger] v.runs[i]).lease_duration;
                &&& lease.months == 0
                &&& lease.days == 0
                &&& lease.microseconds > 0
                &&& clock.wall().micros + lease.microseconds <= i64::MAX
            },
        claim::settles(v, clock, worker, names, limit, tokens, after, res),
        0 <= i < v.runs.len(),
        v.runs[i].state is Pending,
        v.runs[i].available_at.micros <= clock.now().micros,
        0 <= n < names.len(),
        names[n]@ == v.runs[i].job_name@,
    ensures
        res is Ok,
        res->Ok_0@.len() <= limit,
        res->Ok_0@.len() == limit || exists|j: int|
            0 <= j < res->Ok_0@.len() && (#[trigger] res->Ok_0@[j]).run_id == v.runs[i].id,
{
    let ids = claim::chosen(v, names, clock.now(), limit);
    law_a_claim_goes_through(v, clock, worker, names, limit, tokens, after, res);
    granting::lemma_chosen(v, names, clock.now(), limit);
    law_every_available_run_is_chosen(v, names, clock.now(), limit, i, n);
    if ids.contains(v.runs[i].id) {
        let k = choose|k: int| 0 <= k < ids.len() && ids[k] == v.runs[i].id;
        assert(exists|j: int|
            0 <= j < res->Ok_0@.len() && (#[trigger] res->Ok_0@[j]).run_id == ids[k]);
    }
}

/// What is handed out is the row: a run that waited, with what it was made with, its
/// attempts counted one up, under a token of its own until its lease is over. The row
/// says the same, and so does the attempt that is recorded.
pub proof fn law_what_is_handed_out_is_stored(
    v: TablesView,
    clock: DbClock,
    worker: WorkerId,
    names: Seq<String>,
    limit: nat,
    tokens: Seq<LeaseToken>,
    after: TablesView,
    res: Result<Vec<ClaimedRun>, SchedulerError>,
    j: int,
) -> (i: int)
    requires
        consistency::consistent(v),
        tokens.len() == claim::chosen(v, names, clock.now(), limit).len(),
        forall|a: int, b: int|
            0 <= a < b < tokens.len() ==> #[trigger] tokens[a] != #[trigger] tokens[b],
        forall|a: int, k: int|
            #![trigger tokens[a], v.attempts[k]]
            0 <= a < tokens.len() && 0 <= k < v.attempts.len() ==> v.attempts[k].lease_token
                != tokens[a],
        forall|i: int|
            0 <= i < v.runs.len() && v.runs[i].state is Pending ==> {
                let lease = (#[trigger] v.runs[i]).lease_duration;
                &&& lease.months == 0
                &&& lease.days == 0
                &&& lease.microseconds > 0
                &&& clock.wall().micros + lease.microseconds <= i64::MAX
            },
        claim::settles(v, clock, worker, names, limit, tokens, after, res),
        res is Ok,
        0 <= j < res->Ok_0@.len(),
    ensures
        0 <= i < v.runs.len(),
        after.runs.len() == v.runs.len(),
        ({
            let was = v.runs[i];
            let row = after.runs[i];
            let c = res->Ok_0@[j];
            &&& c.run_id == was.id
            &&& c.job_id == was.job_id
            &&& c.job_name == was.job_name
            &&& c.job_args == was.job_args
            &&& c.scheduled_for == was.scheduled_for
            &&& c.attempt == was.attempt_count + 1
            &&& c.lease_duration.micros() == was.lease_duration.microseconds
            &&& c.lease_expires_at.micros == clock.wall().micros + was.lease_duration.microseconds
            &&& tokens.contains(c.lease_token)
            &&& was.state is Pending
            &&& was.available_at.micros <= clock.now().micros
            &&& row.id == was.id
            &&& row.job_id == was.job_id
            &&& row.job_name == was.job_name
            &&& row.job_args == was.job_args
            &&& row.scheduled_for == was.scheduled_for
            &&& row.available_at == was.available_at
            &&& row.priority == was.priority
            &&& row.max_attempts == was.max_attempts
            &&& row.lease_duration == was.lease_duration
            &&& row.retry_backoff == was.retry_backoff
            &&& row.deduplication_key == was.deduplication_key
            &&& row.created_at == was.created_at
            &&& row.finished_at is None
            &&& row.last_error is None
            &&& row.state is Running
            &&& row.attempt_count == was.attempt_count + 1
            &&& row.worker_id == Some(worker)
            &&& row.lease_token == Some(c.lease_token)
            &&& row.lease_expires_at == Some(c.lease_expires_at)
            &&& row.started_at == Some(clock.wall())
            &&& row.updated_at == clock.wall()
        }),
        exists|k: int|
            {
                &&& v.attempts.len() <= k < after.attempts.len()
                &&& (#[trigger] after.attempts[k]).run_id == res->Ok_0@[j].run_id
                &&& after.attempts[k].attempt_number == res->Ok_0@[j].attempt
                &&& after.attempts[k].worker_id == worker
                &&& after.attempts[k].lease_token == res->Ok_0@[j].lease_token
                &&& after.attempts[k].started_at == clock.wall()
                &&& after.attempts[k].lease_expires_at == res->Ok_0@[j].lease_expires_at
                &&& after.attempts[k].finished_at is None
                &&& after.attempts[k].outcome is None
                &&& after.attempts[k].error is None
            },
{
    let wall = clock.wall();
    let ids = claim::chosen(v, names, clock.now(), limit);
    law_a_claim_goes_through(v, clock, worker, names, limit, tokens, after, res);
    granting::lemma_chosen(v, names, clock.now(), limit);
    granting::lemma_no_fault(v, ids, wall);
    granting::lemma_grants(v, worker, ids, tokens, wall, ids.len());
    consistency::lemma_distinct(v);
    consistency::lemma_distinct(after);
    let c = res->Ok_0@[j];
    let k = choose|k: int| 0 <= k < ids.len() && ids[k] == c.run_id;
    assert(v.has_run(ids[k]));
    consistency::lemma_found(v, ids[k]);
    let i = v.run_position(ids[k]);
    assert(claim::claimable(v.run(ids[k])->0, names, clock.now()));
    assert(after.runs[v.run_position(ids[k])] == claim::granted(
        v.run(ids[k])->0,
        worker,
        tokens[k],
        wall,
    ));
    consistency::lemma_position(after, i);
    assert(consistency::run_ok(v.runs[i]));
    assert(v.runs[i].state is Pending);
    assert(tokens.contains(tokens[k]));
    policy::law_a_read_lease_has_its_length(v.runs[i].lease_duration.microseconds);
    assert(after.attempts[v.attempts.len() + k] == claim::attempt_of(
        claim::granted(v.run(ids[k])->0, worker, tokens[k], wall),
    ));
    i
}

/// A claim leaves every run as it was that it does not hand out, and every attempt
/// that was there.
pub proof fn law_a_claim_leaves_the_rest(
    v: TablesView,
    clock: DbClock,
    worker: WorkerId,
    names: Seq<String>,
    limit: nat,
    tokens: Seq<LeaseToken>,
    after: TablesView,
    res: Result<Vec<ClaimedRun>, SchedulerError>,
    i: int,
    k: int,
)
    requires
        consistency::consistent(v),
        tokens.len() == claim::chosen(v, names, clock.now(), limit).len(),
        forall|a: int, b: int|
            0 <= a < b < tokens.len() ==> #[trigger] tokens[a] != #[trigger] tokens[b],
        forall|a: int, k: int|
            #![trigger tokens[a], v.attempts[k]]
            0 <= a < tokens.len() && 0 <= k < v.attempts.len() ==> v.attempts[k].lease_token
                != tokens[a],
        forall|i: int|
            0 <= i < v.runs.len() && v.runs[i].state is Pending ==> {
                let lease = (#[trigger] v.runs[i]).lease_duration;
                &&& lease.months == 0
                &&& lease.days == 0
                &&& lease.microseconds > 0
                &&& clock.wall().micros + lease.microseconds <= i64::MAX
            },
        claim::settles(v, clock, worker, names, limit, tokens, after, res),
        0 <= i < v.runs.len(),
        forall|j: int|
            0 <= j < res->Ok_0@.len() ==> (#[trigger] res->Ok_0@[j]).run_id != v.runs[i].id,
    ensures
        after.runs[i] == v.runs[i],
        after.jobs == v.jobs,
        after.attempts.len() == v.attempts.len() + res->Ok_0@.len(),
        0 <= k < v.attempts.len() ==> after.attempts[k] == v.attempts[k],
{
    let wall = clock.wall();
    let ids = claim::chosen(v, names, clock.now(), limit);
    law_a_claim_goes_through(v, clock, worker, names, limit, tokens, after, res);
    granting::lemma_chosen(v, names, clock.now(), limit);
    granting::lemma_no_fault(v, ids, wall);
    granting::lemma_grants(v, worker, ids, tokens, wall, ids.len());
    assert(ids.take(ids.len() as int) =~= ids);
    if ids.contains(v.runs[i].id) {
        let m = choose|m: int| 0 <= m < ids.len() && ids[m] == v.runs[i].id;
        assert(exists|j: int|
            0 <= j < res->Ok_0@.len() && (#[trigger] res->Ok_0@[j]).run_id == ids[m]);
    }
}

/// Whatever tokens a claim draws, there is a random one for each run it chose, and where
/// they are distinct and on no attempt, the claim goes through under them; where they
/// are not, it is refused and changes nothing.
pub proof fn law_a_claim_uses_the_tokens_it_draws(
    v: TablesView,
    clock: DbClock,
    worker: WorkerId,
    names: Seq<String>,
    limit: nat,
    tokens: Seq<LeaseToken>,
    after: TablesView,
    res: Result<Vec<ClaimedRun>, SchedulerError>,
)
    requires
        claim::draws(v, clock, worker, names, limit, tokens, after, res),
    ensures
        tokens.len() == claim::chosen(v, names, clock.now(), limit).len(),
        forall|k: int|
            0 <= k < tokens.len() ==> ids::is_random_uuid((#[trigger] tokens[k]).value()),
        claim::settles(v, clock, worker, names, limit, tokens, after, res),
        (exists|a: int, b: int|
            0 <= a < b < tokens.len() && #[trigger] tokens[a] == #[trigger] tokens[b]) || (exists|
            a: int,
            k: int,
        |
            #![trigger tokens[a], v.attempts[k]]
            0 <= a < tokens.len() && 0 <= k < v.attempts.len() && v.attempts[k].lease_token
                == tokens[a]) ==> after == v && res == Err::<Vec<ClaimedRun>, SchedulerError>(
            SchedulerError::Database(DatabaseError::UniqueViolation),
        ),
{
}

} // verus!
