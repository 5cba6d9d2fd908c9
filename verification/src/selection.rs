//! Bounded batches of runs: those that satisfy a condition, in the order of their
//! ranks, up to a limit.
use vstd::prelude::*;
use vstd::relations::*;

use crate::ids::RunId;
use crate::models::SchedulerRun;
use crate::ranking;
use crate::ranking::Rank;
use crate::tables;

verus! {

/// The run that a rank stands for.
pub open spec fn ranked_id() -> spec_fn(Rank) -> RunId {
    |rank: Rank| RunId(rank.id)
}

/// The runs that satisfy `p`, ordered by `key`, at most `limit` of them.
pub open spec fn selected(
    runs: Seq<SchedulerRun>,
    p: spec_fn(SchedulerRun) -> bool,
    key: spec_fn(SchedulerRun) -> Rank,
    limit: nat,
) -> Seq<RunId> {
    ranking::first_ranked(ranking::ranks_where(runs, p, key), limit).map_values(ranked_id())
}

/// Whether `key` ranks every run under its own identifier.
pub open spec fn keeps_id(key: spec_fn(SchedulerRun) -> Rank) -> bool {
    forall|r: SchedulerRun| (#[trigger] key(r)).id == r.id.0
}

/// Whether no two of `runs` have the same identifier.
pub open spec fn distinct_runs(runs: Seq<SchedulerRun>) -> bool {
    forall|i: int, j: int|
        0 <= i < j < runs.len() ==> (#[trigger] runs[i]).id != (#[trigger] runs[j]).id
}

/// Every selected run is there, and there are at most `limit` of them.
pub proof fn lemma_selected(
    runs: Seq<SchedulerRun>,
    p: spec_fn(SchedulerRun) -> bool,
    key: spec_fn(SchedulerRun) -> Rank,
    limit: nat,
)
    requires
        keeps_id(key),
    ensures
        selected(runs, p, key, limit).len() <= limit,
        selected(runs, p, key, limit).len() <= runs.len(),
        forall|i: int|
            0 <= i < selected(runs, p, key, limit).len() ==> tables::first_position(
                runs,
                |r: SchedulerRun| r.id == #[trigger] selected(runs, p, key, limit)[i],
            ) < runs.len(),
{
    let ranks = ranking::ranks_where(runs, p, key);
    let ids = selected(runs, p, key, limit);
    let best = ranking::first_ranked(ranks, limit);
    ranking::lemma_first_ranked(ranks, limit);
    ranking::lemma_ranks_where(runs, p, key, arbitrary());
    assert forall|i: int| 0 <= i < ids.len() implies tables::first_position(
        runs,
        |r: SchedulerRun| r.id == #[trigger] ids[i],
    ) < runs.len() by {
        let same = |r: SchedulerRun| r.id == ids[i];
        assert(ranks.contains(best[i]));
        ranking::lemma_ranks_where(runs, p, key, best[i]);
        let at = choose|at: int|
            0 <= at < runs.len() && p(#[trigger] runs[at]) && key(runs[at]) == best[i];
        assert(key(runs[at]).id == runs[at].id.0);
        assert(same(runs[at]));
        tables::lemma_first_position(runs, same);
    }
}

/// Among runs with distinct identifiers, a selection has no run twice, holds only
/// runs that satisfy `p`, in order, and prefers whatever comes first: where it
/// leaves a run that satisfies `p` out, it is full, and all it holds comes before.
pub proof fn lemma_selected_distinct(
    runs: Seq<SchedulerRun>,
    p: spec_fn(SchedulerRun) -> bool,
    key: spec_fn(SchedulerRun) -> Rank,
    limit: nat,
)
    requires
        keeps_id(key),
        distinct_runs(runs),
    ensures
        selected(runs, p, key, limit).no_duplicates(),
        forall|j: int|
            0 <= j < runs.len() && selected(runs, p, key, limit).contains(runs[j].id) ==> p(
                #[trigger] runs[j],
            ),
        forall|j: int, k: int|
            #![trigger runs[j], runs[k]]
            0 <= j < runs.len() && 0 <= k < runs.len() && p(runs[j]) && !selected(
                runs,
                p,
                key,
                limit,
            ).contains(runs[j].id) && selected(runs, p, key, limit).contains(runs[k].id)
                ==> ranking::precedes(key(runs[k]), key(runs[j])),
        forall|j: int|
            0 <= j < runs.len() && p(#[trigger] runs[j]) && !selected(
                runs,
                p,
                key,
                limit,
            ).contains(runs[j].id) ==> selected(runs, p, key, limit).len() == limit,
        forall|i: int, j: int, a: int, b: int|
            #![trigger selected(runs, p, key, limit)[i], selected(runs, p, key, limit)[j], runs[a], runs[b]]
            0 <= i < j < selected(runs, p, key, limit).len() && 0 <= a < runs.len() && 0 <= b
                < runs.len() && runs[a].id == selected(runs, p, key, limit)[i] && runs[b].id
                == selected(runs, p, key, limit)[j] ==> ranking::precedes(
                key(runs[a]),
                key(runs[b]),
            ),
{
    let ranks = ranking::ranks_where(runs, p, key);
    let ids = selected(runs, p, key, limit);
    let best = ranking::first_ranked(ranks, limit);
    ranking::lemma_first_ranked(ranks, limit);
    assert forall|i: int, j: int| 0 <= i < j < runs.len() implies key(#[trigger] runs[i]) != key(
        #[trigger] runs[j],
    ) by {
        assert(key(runs[i]).id == runs[i].id.0);
        assert(key(runs[j]).id == runs[j].id.0);
        assert(runs[i].id != runs[j].id);
    }
    ranking::lemma_ranks_distinct(runs, p, key);
    assert forall|i: int| 0 <= i < best.len() implies #[trigger] best[i] == key(
        runs[row_of(runs, ids[i])],
    ) && p(runs[row_of(runs, ids[i])]) by {
        lemma_row_of_rank(runs, p, key, best[i]);
    }
    assert forall|i: int, j: int| 0 <= i < ids.len() && 0 <= j < ids.len() && i != j implies ids[i]
        != ids[j] by {
        assert(best[i] == key(runs[row_of(runs, ids[i])]));
        assert(best[j] == key(runs[row_of(runs, ids[j])]));
        assert(best[i] != best[j]);
    }
    assert forall|j: int| 0 <= j < runs.len() && ids.contains(runs[j].id) implies p(
        #[trigger] runs[j],
    ) && best.contains(key(runs[j])) by {
        let i = choose|i: int| 0 <= i < ids.len() && ids[i] == runs[j].id;
        assert(best[i] == key(runs[row_of(runs, ids[i])]));
        lemma_row_of(runs, j);
    }
    assert forall|j: int| 0 <= j < runs.len() && p(#[trigger] runs[j]) && !ids.contains(
        runs[j].id,
    ) implies ranks.contains(key(runs[j])) && !best.contains(key(runs[j])) by {
        ranking::lemma_ranks_where(runs, p, key, key(runs[j]));
        if best.contains(key(runs[j])) {
            let i = choose|i: int| 0 <= i < best.len() && best[i] == key(runs[j]);
            assert(key(runs[j]).id == runs[j].id.0);
            assert(ids[i] == runs[j].id);
        }
    }
    assert forall|j: int, k: int|
        #![trigger runs[j], runs[k]]
        0 <= j < runs.len() && 0 <= k < runs.len() && p(runs[j]) && !ids.contains(runs[j].id)
            && ids.contains(runs[k].id) implies ranking::precedes(key(runs[k]), key(runs[j])) by {
        assert(ranks.contains(key(runs[j])));
        assert(best.contains(key(runs[k])));
        let i = choose|i: int| 0 <= i < best.len() && best[i] == key(runs[k]);
        assert(ranking::precedes(best[i], key(runs[j])));
    }
    assert forall|j: int| 0 <= j < runs.len() && p(#[trigger] runs[j]) && !ids.contains(
        runs[j].id,
    ) implies ids.len() == limit by {
        if ranks.len() <= limit {
            ranking::lemma_rank_order();
            ranks.lemma_sort_by_ensures(ranking::rank_order());
            ranking::lemma_all_ranked(ranks);
            vstd::seq_lib::to_multiset_contains(ranks, key(runs[j]));
            vstd::seq_lib::to_multiset_contains(best, key(runs[j]));
        }
    }
    assert forall|i: int, j: int, a: int, b: int|
        #![trigger ids[i], ids[j], runs[a], runs[b]]
        0 <= i < j < ids.len() && 0 <= a < runs.len() && 0 <= b < runs.len() && runs[a].id
            == ids[i] && runs[b].id == ids[j] implies ranking::precedes(
        key(runs[a]),
        key(runs[b]),
    ) by {
        lemma_row_of(runs, a);
        lemma_row_of(runs, b);
        assert(best[i] == key(runs[row_of(runs, ids[i])]));
        assert(best[j] == key(runs[row_of(runs, ids[j])]));
        assert(ranking::rank_order()(best[i], best[j]));
    }
}

/// Where the run `id` stands.
spec fn row_of(runs: Seq<SchedulerRun>, id: RunId) -> int {
    tables::first_position(runs, |r: SchedulerRun| r.id == id)
}

proof fn lemma_row_of(runs: Seq<SchedulerRun>, at: int)
    requires
        distinct_runs(runs),
        0 <= at < runs.len(),
    ensures
        row_of(runs, runs[at].id) == at,
{
    let same = |r: SchedulerRun| r.id == runs[at].id;
    assert forall|j: int| 0 <= j < at implies !same(#[trigger] runs[j]) by {
        assert(runs[j].id != runs[at].id);
    }
    tables::lemma_is_first_position(runs, same, at);
}

proof fn lemma_row_of_rank(
    runs: Seq<SchedulerRun>,
    p: spec_fn(SchedulerRun) -> bool,
    key: spec_fn(SchedulerRun) -> Rank,
    rank: Rank,
)
    requires
        distinct_runs(runs),
        keeps_id(key),
        ranking::ranks_where(runs, p, key).contains(rank),
    ensures
        0 <= row_of(runs, RunId(rank.id)) < runs.len(),
        key(runs[row_of(runs, RunId(rank.id))]) == rank,
        p(runs[row_of(runs, RunId(rank.id))]),
{
    ranking::lemma_ranks_where(runs, p, key, rank);
    let at = choose|at: int|
        0 <= at < runs.len() && p(#[trigger] runs[at]) && key(runs[at]) == rank;
    assert(key(runs[at]).id == runs[at].id.0);
    lemma_row_of(runs, at);
}

/// The runs that `ranks` stand for.
pub fn run_ids(ranks: &Vec<Rank>) -> (res: Vec<RunId>)
    ensures
        res@ == ranks@.map_values(ranked_id()),
{
    let mut ids: Vec<RunId> = Vec::new();
    let mut i: usize = 0;
    while i < ranks.len()
        invariant
            i <= ranks@.len(),
            ids@ == ranks@.take(i as int).map_values(ranked_id()),
        decreases ranks@.len() - i,
    {
        ids.push(RunId(ranks[i].id));
        assert(ranks@.take(i + 1).map_values(ranked_id()) =~= ranks@.take(
            i as int,
        ).map_values(ranked_id()).push(RunId(ranks@[i as int].id)));
        i = i + 1;
    }
    assert(ranks@.take(i as int) =~= ranks@);
    ids
}

/// Whether `id` is among `ids`.
pub fn contains_id(ids: &Vec<RunId>, id: RunId) -> (res: bool)
    ensures
        res == ids@.contains(id),
{
    let mut i: usize = 0;
    while i < ids.len()
        invariant
            i <= ids@.len(),
            forall|j: int| 0 <= j < i ==> ids@[j] != id,
        decreases ids@.len() - i,
    {
        if ids[i] == id {
            assert(ids@[i as int] == id);
            return true;
        }
        i = i + 1;
    }
    false
}

} // verus!
