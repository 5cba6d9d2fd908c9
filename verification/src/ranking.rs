//! Which rows a bounded batch takes: the first ones by two sort keys, and by
//! identifier among equals.
use vstd::prelude::*;
use vstd::relations::*;
use vstd::seq_lib::*;

verus! {

/// The sort keys of a row.
#[derive(Debug, Clone, Copy, PartialEq, Eq, Structural)]
pub struct Rank {
    pub major: i64,
    pub minor: i64,
    pub id: u128,
}

/// Whether `a` comes no later than `b`.
pub open spec fn precedes(a: Rank, b: Rank) -> bool {
    ||| a.major < b.major
    ||| a.major == b.major && a.minor < b.minor
    ||| a.major == b.major && a.minor == b.minor && a.id <= b.id
}

/// The order of ranks as a relation.
pub open spec fn rank_order() -> spec_fn(Rank, Rank) -> bool {
    |a: Rank, b: Rank| precedes(a, b)
}

/// `ranks` in order.
pub open spec fn ranked(ranks: Seq<Rank>) -> Seq<Rank> {
    ranks.sort_by(rank_order())
}

/// The first `limit` of `ranks` in order, or all of them where there are fewer.
pub open spec fn first_ranked(ranks: Seq<Rank>, limit: nat) -> Seq<Rank> {
    if ranked(ranks).len() <= limit {
        ranked(ranks)
    } else {
        ranked(ranks).take(limit as int)
    }
}

/// The order of ranks is total.
pub proof fn lemma_rank_order()
    ensures
        total_ordering(rank_order()),
{
}

/// What taking the first ranks means: they are among `ranks`, in order, as many
/// as `limit` allows, none of them twice where `ranks` has none twice; and
/// whatever was not taken comes after all that were.
pub proof fn lemma_first_ranked(ranks: Seq<Rank>, limit: nat)
    ensures
        first_ranked(ranks, limit).len() == if ranks.len() <= limit {
            ranks.len()
        } else {
            limit
        },
        forall|i: int|
            0 <= i < first_ranked(ranks, limit).len() ==> ranks.contains(
                #[trigger] first_ranked(ranks, limit)[i],
            ),
        sorted_by(first_ranked(ranks, limit), rank_order()),
        ranks.no_duplicates() ==> first_ranked(ranks, limit).no_duplicates(),
        forall|r: Rank, i: int|
            #![trigger ranks.contains(r), first_ranked(ranks, limit)[i]]
            ranks.contains(r) && !first_ranked(ranks, limit).contains(r) && 0 <= i
                < first_ranked(ranks, limit).len() ==> precedes(first_ranked(ranks, limit)[i], r),
{
    broadcast use group_to_multiset_ensures;

    lemma_rank_order();
    ranks.lemma_sort_by_ensures(rank_order());
    let sorted = ranked(ranks);
    let taken = first_ranked(ranks, limit);
    assert(sorted.len() == ranks.len()) by {
        assert(ranks.to_multiset().len() == ranks.len());
        assert(sorted.to_multiset().len() == sorted.len());
    }
    assert forall|i: int| 0 <= i < taken.len() implies ranks.contains(#[trigger] taken[i]) by {
        assert(taken[i] == sorted[i]);
        assert(sorted.contains(sorted[i]));
    }
    assert forall|i: int, j: int| 0 <= i < j < taken.len() implies #[trigger] rank_order()(
        taken[i],
        taken[j],
    ) by {
        assert(rank_order()(sorted[i], sorted[j]));
    }
    if ranks.no_duplicates() {
        ranks.lemma_multiset_has_no_duplicates();
        sorted.lemma_multiset_has_no_duplicates_conv();
    }
    assert forall|r: Rank, i: int|
        #![trigger ranks.contains(r), taken[i]]
        ranks.contains(r) && !taken.contains(r) && 0 <= i < taken.len() implies precedes(
        taken[i],
        r,
    ) by {
        assert(sorted.to_multiset().count(r) > 0);
        assert(sorted.contains(r));
        let k = choose|k: int| 0 <= k < sorted.len() && sorted[k] == r;
        if k < taken.len() {
            assert(taken[k] == r);
        }
        assert(rank_order()(sorted[i], sorted[k]));
    }
}

/// Where fewer ranks are taken than `limit` allows, all of them are.
pub proof fn lemma_all_taken(ranks: Seq<Rank>, limit: nat)
    requires
        first_ranked(ranks, limit).len() < limit || ranks.len() <= limit,
    ensures
        forall|r: Rank| #[trigger] ranks.contains(r) ==> first_ranked(ranks, limit).contains(r),
        first_ranked(ranks, limit) == ranked(ranks),
{
    lemma_first_ranked(ranks, limit);
    lemma_rank_order();
    ranks.lemma_sort_by_ensures(rank_order());
    to_multiset_len(ranks);
    to_multiset_len(ranked(ranks));
    assert forall|r: Rank| #[trigger] ranks.contains(r) implies ranked(ranks).contains(r) by {
        to_multiset_contains(ranks, r);
        to_multiset_contains(ranked(ranks), r);
    }
}

/// Taking as many ranks as there are takes all of them, in order.
pub proof fn lemma_all_ranked(ranks: Seq<Rank>)
    ensures
        first_ranked(ranks, ranks.len()) == ranked(ranks),
        ranked(ranks).len() == ranks.len(),
{
    lemma_rank_order();
    ranks.lemma_sort_by_ensures(rank_order());
    to_multiset_len(ranks);
    to_multiset_len(ranked(ranks));
}

/// The ranks by `key` of the rows that satisfy `p`, in the order of the rows.
pub open spec fn ranks_where<T>(
    rows: Seq<T>,
    p: spec_fn(T) -> bool,
    key: spec_fn(T) -> Rank,
) -> Seq<Rank>
    decreases rows.len(),
{
    if rows.len() == 0 {
        seq![]
    } else {
        let before = ranks_where(rows.drop_last(), p, key);
        if p(rows.last()) {
            before.push(key(rows.last()))
        } else {
            before
        }
    }
}

/// The ranks of one row more.
pub proof fn lemma_ranks_step<T>(
    rows: Seq<T>,
    p: spec_fn(T) -> bool,
    key: spec_fn(T) -> Rank,
    n: int,
)
    requires
        0 <= n < rows.len(),
    ensures
        ranks_where(rows.take(n + 1), p, key) == if p(rows[n]) {
            ranks_where(rows.take(n), p, key).push(key(rows[n]))
        } else {
            ranks_where(rows.take(n), p, key)
        },
{
    assert(rows.take(n + 1).drop_last() =~= rows.take(n));
}

/// A rank is among those of `rows` exactly where a row that satisfies `p` has it.
pub proof fn lemma_ranks_where<T>(
    rows: Seq<T>,
    p: spec_fn(T) -> bool,
    key: spec_fn(T) -> Rank,
    rank: Rank,
)
    ensures
        ranks_where(rows, p, key).contains(rank) <==> exists|j: int|
            0 <= j < rows.len() && p(#[trigger] rows[j]) && key(rows[j]) == rank,
        ranks_where(rows, p, key).len() <= rows.len(),
    decreases rows.len(),
{
    let all = ranks_where(rows, p, key);
    if rows.len() > 0 {
        let init = rows.drop_last();
        let before = ranks_where(init, p, key);
        lemma_ranks_where(init, p, key, rank);
        if before.contains(rank) {
            let j = choose|j: int| 0 <= j < init.len() && p(#[trigger] init[j]) && key(init[j]) == rank;
            assert(rows[j] == init[j]);
            let i = choose|i: int| 0 <= i < before.len() && before[i] == rank;
            assert(all[i] == rank);
        }
        if p(rows.last()) {
            assert(all.last() == key(rows.last()));
        }
        if all.contains(rank) && !before.contains(rank) {
            let i = choose|i: int| 0 <= i < all.len() && all[i] == rank;
            if i < before.len() {
                assert(before[i] == rank);
            }
            assert(p(rows[rows.len() - 1]) && key(rows[rows.len() - 1]) == rank);
        }
        if exists|j: int| 0 <= j < rows.len() && p(#[trigger] rows[j]) && key(rows[j]) == rank {
            let j = choose|j: int| 0 <= j < rows.len() && p(#[trigger] rows[j]) && key(rows[j]) == rank;
            if j < init.len() {
                assert(p(init[j]) && key(init[j]) == rank);
            }
        }
    }
}

/// Where the rows that satisfy `p` have different keys, no rank comes twice.
pub proof fn lemma_ranks_distinct<T>(
    rows: Seq<T>,
    p: spec_fn(T) -> bool,
    key: spec_fn(T) -> Rank,
)
    requires
        forall|i: int, j: int|
            0 <= i < j < rows.len() && p(rows[i]) && p(rows[j]) ==> key(#[trigger] rows[i]) != key(
                #[trigger] rows[j],
            ),
    ensures
        ranks_where(rows, p, key).no_duplicates(),
    decreases rows.len(),
{
    if rows.len() > 0 {
        let init = rows.drop_last();
        let before = ranks_where(init, p, key);
        assert forall|i: int, j: int| 0 <= i < j < init.len() && p(init[i]) && p(
            init[j],
        ) implies key(#[trigger] init[i]) != key(#[trigger] init[j]) by {
            assert(key(rows[i]) != key(rows[j]));
        }
        lemma_ranks_distinct(init, p, key);
        assert forall|i: int| 0 <= i < before.len() && p(rows.last()) implies before[i] != key(
            rows.last(),
        ) by {
            lemma_ranks_where(init, p, key, before[i]);
            assert(before.contains(before[i]));
            let j = choose|j: int|
                0 <= j < init.len() && p(#[trigger] init[j]) && key(init[j]) == before[i];
            assert(key(rows[j]) != key(rows[rows.len() - 1]));
        }
    }
}

fn comes_first(a: Rank, b: Rank) -> (res: bool)
    ensures
        res == precedes(a, b),
{
    if a.major != b.major {
        a.major < b.major
    } else if a.minor != b.minor {
        a.minor < b.minor
    } else {
        a.id <= b.id
    }
}

/// Where `rank` belongs in `sorted`: behind everything that comes no later.
fn slot_for(sorted: &Vec<Rank>, rank: Rank) -> (res: usize)
    requires
        sorted_by(sorted@, rank_order()),
    ensures
        res <= sorted@.len(),
        forall|j: int| 0 <= j < res ==> precedes(#[trigger] sorted@[j], rank),
        forall|j: int| res <= j < sorted@.len() ==> precedes(rank, #[trigger] sorted@[j]),
{
    let mut low: usize = 0;
    let mut high: usize = sorted.len();
    while low < high
        invariant
            low <= high <= sorted@.len(),
            sorted_by(sorted@, rank_order()),
            forall|j: int| 0 <= j < low ==> precedes(#[trigger] sorted@[j], rank),
            forall|j: int| high <= j < sorted@.len() ==> precedes(rank, #[trigger] sorted@[j]),
        decreases high - low,
    {
        let middle: usize = low + (high - low) / 2;
        if comes_first(sorted[middle], rank) {
            assert forall|j: int| 0 <= j < middle + 1 implies precedes(
                #[trigger] sorted@[j],
                rank,
            ) by {
                if j < middle {
                    assert(rank_order()(sorted@[j], sorted@[middle as int]));
                }
            }
            low = middle + 1;
        } else {
            assert forall|j: int| middle <= j < sorted@.len() implies precedes(
                rank,
                #[trigger] sorted@[j],
            ) by {
                if middle < j {
                    assert(rank_order()(sorted@[middle as int], sorted@[j]));
                }
            }
            high = middle;
        }
    }
    low
}

/// The first `limit` of `ranks` in order.
pub fn select(ranks: &Vec<Rank>, limit: usize) -> (res: Vec<Rank>)
    ensures
        res@ == first_ranked(ranks@, limit as nat),
{
    let mut sorted: Vec<Rank> = Vec::new();
    let mut i: usize = 0;
    proof {
        ranks@.take(0).to_multiset_ensures();
        assert(ranks@.take(0) =~= sorted@);
    }
    while i < ranks.len()
        invariant
            i <= ranks@.len(),
            sorted_by(sorted@, rank_order()),
            sorted@.to_multiset() == ranks@.take(i as int).to_multiset(),
        decreases ranks@.len() - i,
    {
        let slot: usize = slot_for(&sorted, ranks[i]);
        let ghost before = sorted@;
        sorted.insert(slot, ranks[i]);
        proof {
            let rank = ranks@[i as int];
            assert forall|a: int, b: int| 0 <= a < b < sorted@.len() implies #[trigger] rank_order()(
                sorted@[a],
                sorted@[b],
            ) by {
                if b < slot {
                    assert(rank_order()(before[a], before[b]));
                } else if a > slot {
                    assert(rank_order()(before[a - 1], before[b - 1]));
                } else if a < slot && b > slot {
                    assert(rank_order()(before[a], before[b - 1]));
                }
            }
            to_multiset_insert(before, slot as int, rank);
            assert(ranks@.take(i + 1) =~= ranks@.take(i as int).push(rank));
            ranks@.take(i as int).to_multiset_ensures();
        }
        i = i + 1;
    }
    proof {
        assert(ranks@.take(i as int) =~= ranks@);
        lemma_rank_order();
        ranks@.lemma_sort_by_ensures(rank_order());
        lemma_sorted_unique(sorted@, ranked(ranks@), rank_order());
    }
    if sorted.len() > limit {
        sorted.truncate(limit);
    }
    sorted
}

} // verus!
