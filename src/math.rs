use crate::models::node::{is_copy_of, Node};
use crate::models::test_parameters::TestParameters;
use crate::random::draw_index;
use rand::rngs::StdRng;
use vstd::prelude::*;

verus! {

/// The position, within `picks`, of the winner of a tournament over
/// `nodes[picks[0]], nodes[picks[1]], ...`: the first pick is the first
/// leader, and a later pick replaces the leader only with a strictly higher
/// fitness, so the first of equal candidates wins. `None` for no picks.
pub open spec fn tournament_leader<S>(nodes: Seq<Node<S>>, picks: Seq<usize>) -> Option<int>
    decreases picks.len(),
{
    if picks.len() == 0 {
        None
    } else {
        let last = picks.len() - 1;
        match tournament_leader(nodes, picks.drop_last()) {
            None => Some(last),
            Some(k) => if nodes[picks[last] as int].score > nodes[picks[k] as int].score {
                Some(last)
            } else {
                Some(k)
            },
        }
    }
}

/// The node index that wins the tournament over `picks`.
pub open spec fn tournament_winner<S>(nodes: Seq<Node<S>>, picks: Seq<usize>) -> Option<int> {
    match tournament_leader(nodes, picks) {
        None => None,
        Some(k) => Some(picks[k] as int),
    }
}

pub open spec fn picks_in_range<S>(nodes: Seq<Node<S>>, picks: Seq<usize>) -> bool {
    forall|i: int| 0 <= i < picks.len() ==> #[trigger] picks[i] < nodes.len()
}

proof fn lemma_leader_bounds<S>(nodes: Seq<Node<S>>, picks: Seq<usize>)
    ensures
        tournament_leader(nodes, picks) is None <==> picks.len() == 0,
        tournament_leader(nodes, picks) matches Some(k) ==> 0 <= k < picks.len(),
    decreases picks.len(),
{
    if picks.len() > 0 {
        lemma_leader_bounds(nodes, picks.drop_last());
    }
}

/// The leader of a tournament has a fitness at least that of every pick.
pub proof fn lemma_leader_is_maximal<S>(nodes: Seq<Node<S>>, picks: Seq<usize>)
    requires
        picks_in_range(nodes, picks),
    ensures
        tournament_leader(nodes, picks) matches Some(k) ==> forall|i: int|
            0 <= i < picks.len() ==> nodes[picks[i] as int].score <= nodes[picks[k] as int].score,
    decreases picks.len(),
{
    if picks.len() > 0 {
        let prefix = picks.drop_last();
        assert(picks_in_range(nodes, prefix)) by {
            assert forall|i: int| 0 <= i < prefix.len() implies #[trigger] prefix[i] < nodes.len() by {
                assert(prefix[i] == picks[i]);
            }
        }
        lemma_leader_is_maximal(nodes, prefix);
        lemma_leader_bounds(nodes, prefix);
        assert forall|i: int| 0 <= i < prefix.len() implies prefix[i] == picks[i] by {}
    }
}

/// With every node of a population among the picks, a tournament returns
/// the unique node of highest fitness.
pub proof fn lemma_full_tournament_finds_unique_best<S>(
    nodes: Seq<Node<S>>,
    picks: Seq<usize>,
    best: int,
)
    requires
        picks_in_range(nodes, picks),
        0 <= best < nodes.len(),
        forall|j: int| 0 <= j < nodes.len() && j != best ==> nodes[j].score < nodes[best].score,
        exists|i: int| 0 <= i < picks.len() && picks[i] == best,
    ensures
        tournament_winner(nodes, picks) == Some(best),
{
    lemma_leader_bounds(nodes, picks);
    lemma_leader_is_maximal(nodes, picks);
    let i = choose|i: int| 0 <= i < picks.len() && picks[i] == best;
    let k = tournament_leader(nodes, picks)->Some_0;
    assert(nodes[picks[i] as int].score <= nodes[picks[k] as int].score);
}

/// Runs a tournament over the given picks, returning the index of the
/// winning node, or `None` when there are no picks.
pub fn tournament_pick<S>(nodes: &Vec<Node<S>>, picks: &Vec<usize>) -> (r: Option<usize>)
    requires
        picks_in_range(nodes@, picks@),
    ensures
        r matches Some(w) ==> tournament_winner(nodes@, picks@) == Some(w as int),
        r is None ==> tournament_winner(nodes@, picks@) is None,
{
    let mut leader: Option<usize> = None;
    let mut i: usize = 0;
    while i < picks.len()
        invariant
            i <= picks.len(),
            picks_in_range(nodes@, picks@),
            leader matches Some(k) ==> k < i,
            tournament_leader(nodes@, picks@.take(i as int)) == match leader {
                Some(k) => Some(k as int),
                None => None::<int>,
            },
        decreases picks.len() - i,
    {
        assert(picks@.take(i + 1).drop_last() =~= picks@.take(i as int));
        let p = picks[i];
        let better = match leader {
            None => true,
            Some(k) => nodes[p].score > nodes[picks[k]].score,
        };
        if better {
            leader = Some(i);
        }
        i = i + 1;
    }
    assert(picks@.take(picks.len() as int) =~= picks@);
    match leader {
        Some(k) => Some(picks[k]),
        None => None,
    }
}

/// Samples `params.tournament_size` nodes uniformly at random, with
/// replacement, and returns a copy of the best of them (the first seen among
/// equals); `None` exactly when the population is empty or the tournament
/// samples no node.
pub fn tournament_selection<S: Clone, FeatureFlags>(
    nodes: &Vec<Node<S>>,
    params: &TestParameters<FeatureFlags>,
    rng: &mut StdRng,
) -> (r: Option<Node<S>>)
    ensures
        r is None <==> nodes.len() == 0 || params.tournament_size == 0,
        r matches Some(n) ==> exists|picks: Seq<usize>|
            #[trigger] tournament_winner(nodes@, picks) matches Some(w) && {
                &&& picks.len() == params.tournament_size
                &&& picks_in_range(nodes@, picks)
                &&& 0 <= w < nodes.len()
                &&& is_copy_of(n, nodes@[w])
            },
{
    if nodes.len() == 0 || params.tournament_size == 0 {
        return None;
    }
    let picks = draw_picks(nodes.len(), params.tournament_size, rng);
    match tournament_pick(nodes, &picks) {
        Some(w) => {
            proof {
                lemma_leader_bounds(nodes@, picks@);
            }
            let won = nodes[w].clone();
            assert(tournament_winner(nodes@, picks@) == Some(w as int));
            Some(won)
        },
        None => {
            proof {
                lemma_leader_bounds(nodes@, picks@);
            }
            None
        },
    }
}

/// Draws `count` indices below `bound`.
pub fn draw_picks(bound: usize, count: usize, rng: &mut StdRng) -> (picks: Vec<usize>)
    requires
        bound > 0,
    ensures
        picks.len() == count,
        forall|i: int| 0 <= i < picks.len() ==> #[trigger] picks@[i] < bound,
{
    let mut picks: Vec<usize> = Vec::new();
    let mut i: usize = 0;
    while i < count
        invariant
            bound > 0,
            i <= count,
            picks.len() == i,
            forall|j: int| 0 <= j < picks.len() ==> #[trigger] picks@[j] < bound,
        decreases count - i,
    {
        let idx = draw_index(rng, bound);
        picks.push(idx);
        i = i + 1;
    }
    picks
}

} // verus!
