use crate::math::tournament_selection;
use crate::models::algorithm::Algorithm;
use crate::models::node::{is_copy_of, Node, UNSCORED};
use crate::models::test_parameters::TestParameters;
use rand::rngs::StdRng;
use vstd::prelude::*;

verus! {

/// `order` ranks `nodes` from the highest fitness down: it lists every
/// index of `nodes` exactly once, in non-increasing order of fitness.
pub open spec fn is_ranking<S>(nodes: Seq<Node<S>>, order: Seq<usize>) -> bool {
    &&& order.len() == nodes.len()
    &&& forall|i: int| 0 <= i < order.len() ==> #[trigger] order[i] < nodes.len()
    &&& forall|i: int, j: int| 0 <= i < j < order.len() ==> order[i] != order[j]
    &&& forall|i: int, j: int|
        0 <= i < j < order.len() ==> nodes[order[i] as int].score >= nodes[order[j] as int].score
}

/// Orders the indices of `nodes` by fitness, highest first (equal fitness
/// in no particular order).
pub fn rank_by_fitness<S>(nodes: &Vec<Node<S>>) -> (order: Vec<usize>)
    ensures
        is_ranking(nodes@, order@),
{
    let n = nodes.len();
    let mut order: Vec<usize> = Vec::new();
    let mut k: usize = 0;
    while k < n
        invariant
            n == nodes.len(),
            k <= n,
            order.len() == k,
            forall|i: int| 0 <= i < k ==> #[trigger] order@[i] == i,
        decreases n - k,
    {
        order.push(k);
        k = k + 1;
    }
    let mut i: usize = 0;
    while i < n
        invariant
            n == nodes.len(),
            i <= n,
            order.len() == n,
            forall|a: int| 0 <= a < n ==> #[trigger] order@[a] < n,
            forall|a: int, b: int| 0 <= a < b < n ==> order@[a] != order@[b],
            forall|a: int, b: int|
                0 <= a < b && a < i && b < n ==> nodes@[order@[a] as int].score
                    >= nodes@[order@[b] as int].score,
        decreases n - i,
    {
        let mut m: usize = i;
        let mut j: usize = i + 1;
        while j < n
            invariant
                n == nodes.len(),
                order.len() == n,
                i <= m < n,
                i < j <= n,
                forall|a: int| 0 <= a < n ==> #[trigger] order@[a] < n,
                forall|b: int|
                    i <= b < j ==> nodes@[#[trigger] order@[b] as int].score
                        <= nodes@[order@[m as int] as int].score,
            decreases n - j,
        {
            if nodes[order[j]].score > nodes[order[m]].score {
                m = j;
            }
            j = j + 1;
        }
        let a = order[i];
        let b = order[m];
        order[i] = b;
        order[m] = a;
        i = i + 1;
    }
    order
}

/// The index of the best node of a scored population: scanning in order,
/// a node becomes the best only with a fitness strictly above the best so
/// far (at first, above `UNSCORED`), so the first of equals is kept.
pub open spec fn best_of<S>(nodes: Seq<Node<S>>) -> Option<int>
    decreases nodes.len(),
{
    if nodes.len() == 0 {
        None
    } else {
        let last = nodes.len() - 1;
        let prev = best_of(nodes.drop_last());
        let bar = match prev {
            None => UNSCORED,
            Some(k) => nodes[k].score,
        };
        if nodes[last].score > bar {
            Some(last)
        } else {
            prev
        }
    }
}

proof fn lemma_best_of_prefix<S>(nodes: Seq<Node<S>>, k: int)
    requires
        0 <= k < nodes.len(),
    ensures
        best_of(nodes.take(k + 1)) == ({
            let prev = best_of(nodes.take(k));
            let bar = match prev {
                None => UNSCORED,
                Some(b) => nodes[b].score,
            };
            if nodes[k].score > bar {
                Some(k)
            } else {
                prev
            }
        }),
{
    assert(nodes.take(k + 1).drop_last() =~= nodes.take(k));
    lemma_best_of_bounds(nodes.take(k));
}

/// The best node, if any, lies in the population and outscores `UNSCORED`;
/// there is none only when no node does.
pub proof fn lemma_best_of_bounds<S>(nodes: Seq<Node<S>>)
    ensures
        best_of(nodes) matches Some(k) ==> 0 <= k < nodes.len() && nodes[k].score > UNSCORED,
        best_of(nodes) is None <==> forall|i: int| 0 <= i < nodes.len() ==> nodes[i].score == UNSCORED,
        best_of(nodes) matches Some(k) ==> forall|i: int|
            0 <= i < nodes.len() ==> nodes[i].score <= nodes[k].score,
    decreases nodes.len(),
{
    if nodes.len() > 0 {
        let prefix = nodes.drop_last();
        lemma_best_of_bounds(prefix);
        assert forall|i: int| 0 <= i < prefix.len() implies prefix[i] == nodes[i] by {}
    }
}

/// The index of the best node of a scored population, as `best_of` defines
/// it.
pub fn best_index<S>(nodes: &Vec<Node<S>>) -> (r: Option<usize>)
    ensures
        r matches Some(k) ==> best_of(nodes@) == Some(k as int),
        r is None ==> best_of(nodes@) is None,
{
    let mut best: Option<usize> = None;
    let mut i: usize = 0;
    while i < nodes.len()
        invariant
            i <= nodes.len(),
            best matches Some(k) ==> k < i,
            best_of(nodes@.take(i as int)) == match best {
                Some(k) => Some(k as int),
                None => None::<int>,
            },
        decreases nodes.len() - i,
    {
        proof {
            lemma_best_of_prefix(nodes@, i as int);
        }
        let bar = match best {
            None => UNSCORED,
            Some(k) => nodes[k].score,
        };
        if nodes[i].score > bar {
            best = Some(i);
        }
        i = i + 1;
    }
    assert(nodes@.take(nodes.len() as int) =~= nodes@);
    best
}

/// The first `2 * pairs` nodes of `next` are the elites of `nodes` under
/// the ranking `order`, in pairs: the `i`-th best, then the `i`-th worst.
pub open spec fn keeps_elites<S: Clone>(
    nodes: Seq<Node<S>>,
    order: Seq<usize>,
    next: Seq<Node<S>>,
    pairs: int,
) -> bool {
    &&& 2 * pairs <= next.len()
    &&& forall|i: int|
        0 <= i < pairs ==> {
            &&& is_copy_of(#[trigger] next[2 * i], nodes[order[i] as int])
            &&& is_copy_of(next[2 * i + 1], nodes[order[nodes.len() - 1 - i] as int])
        }
}

/// Builds the next generation from a scored population: the elite pairs
/// of `params` carried over unchanged, then offspring of tournament winners
/// until the population has its former size.
pub fn next_generation<I, O, S: Clone, F, A: Algorithm<I, O, S, F>>(
    nodes: &Vec<Node<S>>,
    params: &TestParameters<F>,
    algo: &A,
    rng: &mut StdRng,
) -> (next: Vec<Node<S>>)
    requires
        params.is_valid(),
        nodes.len() == params.population,
    ensures
        next.len() == nodes.len(),
        exists|order: Seq<usize>|
            is_ranking(nodes@, order) && keeps_elites(nodes@, order, next@, params.spec_elite_pairs()),
{
    let n = nodes.len();
    let order = rank_by_fitness(nodes);
    let pairs = params.elite_pairs();
    let mut next: Vec<Node<S>> = Vec::new();
    let mut i: usize = 0;
    while i < pairs
        invariant
            n == nodes.len(),
            is_ranking(nodes@, order@),
            pairs == params.spec_elite_pairs(),
            2 * pairs <= n,
            i <= pairs,
            next.len() == 2 * i,
            forall|k: int|
                0 <= k < i ==> {
                    &&& is_copy_of(#[trigger] next@[2 * k], nodes@[order@[k] as int])
                    &&& is_copy_of(next@[2 * k + 1], nodes@[order@[n - 1 - k] as int])
                },
        decreases pairs - i,
    {
        let top = nodes[order[i]].clone();
        let bottom = nodes[order[n - 1 - i]].clone();
        next.push(top);
        next.push(bottom);
        proof {
            assert(next@[2 * i as int] == top);
        }
        i = i + 1;
    }
    let ghost elites = next@;
    let mut attempts: usize = 2 * pairs;
    while attempts < n
        invariant
            n == nodes.len(),
            n > 0,
            params.tournament_size > 0,
            2 * pairs <= attempts <= n,
            next.len() == attempts,
            forall|k: int| 0 <= k < 2 * pairs ==> next@[k] == elites[k],
        decreases n - attempts,
    {
        let left = tournament_selection(nodes, params, rng);
        let right = tournament_selection(nodes, params, rng);
        match (left, right) {
            (Some(l), Some(r)) => {
                let child = algo.combine_node(l, r, params, rng);
                next.push(child);
            },
            _ => {},
        }
        attempts = attempts + 1;
    }
    proof {
        assert forall|k: int| 0 <= k < pairs implies {
            &&& is_copy_of(#[trigger] next@[2 * k], nodes@[order@[k] as int])
            &&& is_copy_of(next@[2 * k + 1], nodes@[order@[n - 1 - k] as int])
        } by {
            assert(next@[2 * k] == elites[2 * k]);
            assert(next@[2 * k + 1] == elites[2 * k + 1]);
        }
    }
    next
}

} // verus!
