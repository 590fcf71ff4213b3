use vstd::prelude::*;

verus! {

/// Position `a` ranks before position `b`: it is heavier, or equally heavy
/// and earlier in the input.
pub open spec fn precedes(weights: Seq<u64>, a: int, b: int) -> bool {
    weights[a] > weights[b] || (weights[a] == weights[b] && a < b)
}

/// Position `a` occurs somewhere in `order`.
pub open spec fn lists(order: Seq<usize>, a: int) -> bool {
    exists|i: int| 0 <= i < order.len() && #[trigger] order[i] == a
}

/// `order` lists each of the first `count` positions of `weights` exactly
/// once, every listed position ranking before all that follow it.
pub open spec fn ranks_prefix(weights: Seq<u64>, count: int, order: Seq<usize>) -> bool {
    &&& 0 <= count <= weights.len()
    &&& order.len() == count
    &&& forall|i: int| 0 <= i < order.len() ==> (#[trigger] order[i]) < count
    &&& forall|i: int, j: int|
        0 <= i < j < order.len() ==> precedes(weights, #[trigger] order[i] as int, #[trigger] order[j] as int)
    &&& forall|a: int| 0 <= a < count ==> #[trigger] lists(order, a)
}

/// `order` is the ranking of `weights`: a permutation of its positions,
/// heaviest first, equal weights in input order.
pub open spec fn is_ranking(weights: Seq<u64>, order: Seq<usize>) -> bool {
    ranks_prefix(weights, weights.len() as int, order)
}

/// The ranking of `weights`. There is exactly one, see [`lemma_ranking_unique`]
/// and [`rank`].
pub open spec fn ranking(weights: Seq<u64>) -> Seq<usize> {
    choose|order: Seq<usize>| is_ranking(weights, order)
}

/// Two rankings of the same weights are the same sequence: ranking leaves
/// nothing to chance, ties included.
pub proof fn lemma_ranking_unique(weights: Seq<u64>, first: Seq<usize>, second: Seq<usize>)
    requires
        is_ranking(weights, first),
        is_ranking(weights, second),
    ensures
        first == second,
{
    assert forall|i: int| 0 <= i < first.len() implies first[i] == second[i] by {
        lemma_agree_upto(weights, first, second, i);
    }
    assert(first =~= second);
}

proof fn lemma_agree_upto(weights: Seq<u64>, first: Seq<usize>, second: Seq<usize>, i: int)
    requires
        is_ranking(weights, first),
        is_ranking(weights, second),
        0 <= i < first.len(),
    ensures
        first[i] == second[i],
    decreases i,
{
    assert forall|k: int| 0 <= k < i implies first[k] == second[k] by {
        lemma_agree_upto(weights, first, second, k);
    }
    let a = first[i] as int;
    let b = second[i] as int;
    assert(lists(second, a) && lists(first, b));
    let j = choose|j: int| 0 <= j < second.len() && second[j] == a;
    let k = choose|k: int| 0 <= k < first.len() && first[k] == b;
    if j < i {
        assert(precedes(weights, first[j] as int, first[i] as int));
    }
    if k < i {
        assert(precedes(weights, second[k] as int, second[i] as int));
    }
    if j > i {
        assert(precedes(weights, second[i] as int, second[j] as int));
    }
    if k > i {
        assert(precedes(weights, first[i] as int, first[k] as int));
    }
}

/// Putting position `next` into a ranking of the positions before it,
/// behind everything at least as heavy and in front of everything lighter,
/// gives a ranking of the positions up to `next`.
proof fn lemma_insert_ranks(weights: Seq<u64>, before: Seq<usize>, next: usize, at: int)
    requires
        ranks_prefix(weights, next as int, before),
        next < weights.len(),
        0 <= at <= before.len(),
        forall|q: int| 0 <= q < at ==> weights[#[trigger] before[q] as int] >= weights[next as int],
        at < before.len() ==> weights[before[at] as int] < weights[next as int],
    ensures
        ranks_prefix(weights, next + 1, before.insert(at, next)),
{
    let after = before.insert(at, next);
    assert forall|i: int| 0 <= i < after.len() implies (#[trigger] after[i]) < next + 1 by {
        if i < at {
            assert(after[i] == before[i]);
        } else if i > at {
            assert(after[i] == before[i - 1]);
        }
    }
    assert forall|i: int, j: int| 0 <= i < j < after.len() implies precedes(
        weights,
        #[trigger] after[i] as int,
        #[trigger] after[j] as int,
    ) by {
        let bi = if i < at { i } else { i - 1 };
        let bj = if j < at { j } else { j - 1 };
        if i == at {
            assert(after[j] == before[bj]);
            if at < bj {
                assert(precedes(weights, before[at] as int, before[bj] as int));
            }
        } else if j == at {
            assert(after[i] == before[bi]);
        } else {
            assert(after[i] == before[bi]);
            assert(after[j] == before[bj]);
            assert(precedes(weights, before[bi] as int, before[bj] as int));
        }
    }
    assert forall|a: int| 0 <= a < next + 1 implies #[trigger] lists(after, a) by {
        if a == next {
            assert(after[at] == a);
        } else {
            assert(lists(before, a));
            let i = choose|i: int| 0 <= i < before.len() && before[i] == a;
            if i < at {
                assert(after[i] == a);
            } else {
                assert(after[i + 1] == a);
            }
        }
    }
}

/// The first place at or after `from` in `order` whose position is lighter
/// than `weight`, or the end of `order`.
spec fn spec_slot(weights: Seq<u64>, order: Seq<usize>, weight: u64, from: int) -> int
    decreases order.len() - from,
{
    if from < 0 || from >= order.len() || weights[order[from] as int] < weight {
        from
    } else {
        spec_slot(weights, order, weight, from + 1)
    }
}

proof fn lemma_slot(weights: Seq<u64>, order: Seq<usize>, weight: u64, from: int)
    requires
        0 <= from <= order.len(),
    ensures
        from <= spec_slot(weights, order, weight, from) <= order.len(),
        forall|q: int|
            from <= q < spec_slot(weights, order, weight, from) ==> weights[#[trigger] order[q] as int]
                >= weight,
        spec_slot(weights, order, weight, from) < order.len() ==> weights[order[spec_slot(
            weights,
            order,
            weight,
            from,
        )] as int] < weight,
    decreases order.len() - from,
{
    if from < order.len() && weights[order[from] as int] >= weight {
        lemma_slot(weights, order, weight, from + 1);
    }
}

proof fn lemma_prefix_has_ranking(weights: Seq<u64>, count: int)
    requires
        0 <= count <= weights.len() <= usize::MAX,
    ensures
        exists|order: Seq<usize>| ranks_prefix(weights, count, order),
    decreases count,
{
    if count == 0 {
        assert(ranks_prefix(weights, 0, Seq::<usize>::empty()));
    } else {
        let fewer = count - 1;
        lemma_prefix_has_ranking(weights, fewer);
        let before = choose|order: Seq<usize>| ranks_prefix(weights, fewer, order);
        let next = fewer as usize;
        let at = spec_slot(weights, before, weights[fewer], 0);
        lemma_slot(weights, before, weights[fewer], 0);
        lemma_insert_ranks(weights, before, next, at);
        assert(ranks_prefix(weights, count, before.insert(at, next)));
    }
}

/// Every sequence of weights whose positions fit a `usize` has a ranking,
/// and [`ranking`] is it.
pub proof fn lemma_ranking_exists(weights: Seq<u64>)
    requires
        weights.len() <= usize::MAX,
    ensures
        is_ranking(weights, ranking(weights)),
{
    let count = weights.len() as int;
    lemma_prefix_has_ranking(weights, count);
    let order = choose|order: Seq<usize>| ranks_prefix(weights, count, order);
    assert(is_ranking(weights, order));
}

/// Any ranking is the ranking.
pub proof fn lemma_ranking_is(weights: Seq<u64>, order: Seq<usize>)
    requires
        is_ranking(weights, order),
    ensures
        order == ranking(weights),
{
    lemma_ranking_unique(weights, order, ranking(weights));
}

/// Ranks the positions of `weights`, heaviest first; positions of equal
/// weight keep their input order.
pub fn rank(weights: &Vec<u64>) -> (order: Vec<usize>)
    ensures
        is_ranking(weights@, order@),
        order@ == ranking(weights@),
{
    let mut order: Vec<usize> = Vec::new();
    let mut next: usize = 0;
    while next < weights.len()
        invariant
            ranks_prefix(weights@, next as int, order@),
        decreases weights.len() - next,
    {
        let weight = weights[next];
        let mut at: usize = 0;
        while at < order.len() && weights[order[at]] >= weight
            invariant
                ranks_prefix(weights@, next as int, order@),
                next < weights.len(),
                weight == weights@[next as int],
                at <= order.len(),
                forall|q: int| 0 <= q < at ==> weights@[#[trigger] order@[q] as int] >= weight,
            decreases order.len() - at,
        {
            at = at + 1;
        }
        proof {
            lemma_insert_ranks(weights@, order@, next, at as int);
        }
        order.insert(at, next);
        next = next + 1;
    }
    proof {
        lemma_ranking_is(weights@, order@);
    }
    order
}

} // verus!
