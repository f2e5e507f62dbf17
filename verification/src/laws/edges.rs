//! Edges of a block: one entry for each target, and counts that add up.

use vstd::prelude::*;
use crate::laws::lookup::{lemma_first_index_from, lemma_first_index_push};
use crate::model::{taken, weight, BlockView};

verus! {

/// Observing an edge to `target` adds [`weight`]`(traversed)` to the
/// traversal count of `target` and leaves every other count as it was; an
/// edge to `target` is known afterwards, and no other edge appears. The
/// number of edges grows by one exactly if the edge was unknown.
pub proof fn lemma_with_edge_observed(block: BlockView, target: nat, traversed: bool, other: nat)
    ensures
        block.with_edge(target, traversed).has_edge(target),
        block.with_edge(target, traversed).traversals(target) == block.traversals(target) + weight(
            traversed,
        ),
        other != target ==> block.with_edge(target, traversed).has_edge(other) == block.has_edge(
            other,
        ),
        other != target ==> block.with_edge(target, traversed).traversals(other)
            == block.traversals(other),
        block.with_edge(target, traversed).edges.len() == block.edges.len() + (if block.has_edge(
            target,
        ) {
            0int
        } else {
            1int
        }),
{
    let after = block.with_edge(target, traversed);
    let slot = block.edge_slot(target);
    lemma_first_index_from(block.targets(), target, 0);
    lemma_first_index_from(block.targets(), other, 0);
    if slot < block.edges.len() {
        assert(after.targets() =~= block.targets());
    } else {
        assert(after.targets() =~= block.targets().push(target));
        lemma_first_index_push(block.targets(), target, target);
        lemma_first_index_push(block.targets(), other, target);
    }
}

/// Observing an edge keeps the targets of a block distinct.
pub proof fn lemma_with_edge_distinct(block: BlockView, target: nat, traversed: bool)
    requires
        block.distinct_targets(),
    ensures
        block.with_edge(target, traversed).distinct_targets(),
{
    let after = block.with_edge(target, traversed);
    lemma_first_index_from(block.targets(), target, 0);
    assert forall|i: int, j: int| 0 <= i < j < after.edges.len() implies after.edges[i].0
        != after.edges[j].0 by {
        if j >= block.edges.len() {
            assert(block.targets()[i] == block.edges[i].0);
        }
    }
}

/// Observing an edge keeps the block's invariant.
pub proof fn lemma_with_edge_wf(block: BlockView, target: nat, traversed: bool)
    requires
        block.wf(),
    ensures
        block.with_edge(target, traversed).wf(),
{
    lemma_with_edge_distinct(block, target, traversed);
}

/// Observing the same edge twice leaves one entry for it: the second
/// observation adds no entry, and the count holds the traversals of both.
pub proof fn lemma_with_edge_twice(block: BlockView, target: nat, first: bool, second: bool)
    ensures
        block.with_edge(target, first).with_edge(target, second).edges.len() == block.with_edge(
            target,
            first,
        ).edges.len(),
        block.with_edge(target, first).with_edge(target, second).traversals(target)
            == block.traversals(target) + weight(first) + weight(second),
{
    lemma_with_edge_observed(block, target, first, target);
    lemma_with_edge_observed(block.with_edge(target, first), target, second, target);
}

/// Edges are never duplicated and their counts add up: after any sequence
/// of observations, the traversal count of each target has grown by the
/// number of observations that saw the edge to it taken; an edge to a
/// target is known exactly if it was known before or the target was
/// observed; and where no two edges shared a target before, none do after.
pub proof fn lemma_with_edges_counts(block: BlockView, observations: Seq<(nat, bool)>, target: nat)
    ensures
        block.with_edges(observations).traversals(target) == block.traversals(target) + taken(
            observations,
            target,
        ),
        block.with_edges(observations).has_edge(target) <==> (block.has_edge(target) || exists|
            i: int,
        |
            0 <= i < observations.len() && (#[trigger] observations[i]).0 == target),
        block.distinct_targets() ==> block.with_edges(observations).distinct_targets(),
    decreases observations.len(),
{
    if observations.len() > 0 {
        let front = observations.drop_last();
        let last = observations.last();
        let before = block.with_edges(front);
        lemma_with_edges_counts(block, front, target);
        lemma_with_edge_observed(before, last.0, last.1, target);
        if block.distinct_targets() {
            lemma_with_edge_distinct(before, last.0, last.1);
        }
        if exists|i: int| 0 <= i < observations.len() && (#[trigger] observations[i]).0 == target {
            let i = choose|i: int|
                0 <= i < observations.len() && (#[trigger] observations[i]).0 == target;
            if i < front.len() {
                assert(front[i].0 == target);
            }
        }
    }
}

} // verus!
