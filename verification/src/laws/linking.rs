//! The parts of a step: recording an instruction, looking up a block, and
//! linking the block under the cursor to a successor.

use vstd::prelude::*;
use crate::laws::edges::{lemma_with_edge_observed, lemma_with_edge_wf};
use crate::laws::lookup::{lemma_first_index_from, lemma_first_index_push};
use crate::model::{BlockView, GraphView};
use crate::types::BlockType;

verus! {

/// Recording an instruction in the block under the cursor touches neither
/// the cursor, nor the number of blocks, nor any other block, nor the edges
/// of the block itself.
pub proof fn lemma_with_instruction(graph: GraphView, address: usize, instruction: BlockType)
    requires
        graph.cursor_valid(),
    ensures
        graph.with_instruction(address, instruction).current == graph.current,
        graph.with_instruction(address, instruction).blocks.len() == graph.blocks.len(),
        graph.with_instruction(address, instruction).starts() == graph.starts(),
        graph.with_instruction(address, instruction).current_block()
            == graph.current_block().with_instruction(address, instruction),
        graph.with_instruction(address, instruction).current_block().edges
            == graph.current_block().edges,
        forall|i: int|
            0 <= i < graph.blocks.len() && i != graph.current ==> #[trigger] graph.with_instruction(
                address,
                instruction,
            ).blocks[i] == graph.blocks[i],
{
}

/// Looking up the block at `address` keeps the cursor and every block that
/// was there, at its index; afterwards a block starts at `address`, at the
/// index that the lookup resolved to, and every address that had a block
/// resolves as before.
pub proof fn lemma_with_block_at(graph: GraphView, address: usize, other: usize)
    ensures
        graph.with_block_at(address).current == graph.current,
        graph.with_block_at(address).blocks.len() == graph.blocks.len() + (if graph.has_block_at(
            address,
        ) {
            0int
        } else {
            1int
        }),
        forall|i: int|
            0 <= i < graph.blocks.len() ==> #[trigger] graph.with_block_at(address).blocks[i]
                == graph.blocks[i],
        graph.with_block_at(address).has_block_at(address),
        graph.with_block_at(address).resolve(address) == graph.resolve(address),
        graph.with_block_at(address).blocks[graph.resolve(address) as int].start == address,
        !graph.has_block_at(address) ==> graph.with_block_at(address).blocks[graph.resolve(
            address,
        ) as int] == BlockView::fresh(address),
        graph.has_block_at(other) ==> graph.with_block_at(address).resolve(other) == graph.resolve(
            other,
        ),
{
    let after = graph.with_block_at(address);
    lemma_first_index_from(graph.starts(), address, 0);
    if !graph.has_block_at(address) {
        assert(after.starts() =~= graph.starts().push(address));
        lemma_first_index_push(graph.starts(), address, address);
        lemma_first_index_push(graph.starts(), other, address);
    }
}

/// Observing an edge changes neither the cursor, nor the number of blocks,
/// nor where a block starts, so every address resolves as before.
pub proof fn lemma_with_edge_starts(graph: GraphView, src: nat, dest: nat, traversed: bool)
    ensures
        graph.with_edge(src, dest, traversed).current == graph.current,
        graph.with_edge(src, dest, traversed).blocks.len() == graph.blocks.len(),
        graph.with_edge(src, dest, traversed).starts() == graph.starts(),
{
}

/// Linking the block under the cursor to `address` keeps the cursor and
/// every other block that was there; afterwards a block starts at
/// `address`, at the index that the address resolved to before, every
/// address that had a block resolves as before, and the block under the
/// cursor has observed the edge to that index.
pub proof fn lemma_linked(graph: GraphView, address: usize, traversed: bool, other: usize)
    requires
        graph.cursor_valid(),
    ensures
        graph.linked(address, traversed).current == graph.current,
        graph.linked(address, traversed).cursor_valid(),
        graph.linked(address, traversed).blocks.len() == graph.blocks.len() + (
        if graph.has_block_at(address) {
            0int
        } else {
            1int
        }),
        graph.linked(address, traversed).has_block_at(address),
        graph.linked(address, traversed).resolve(address) == graph.resolve(address),
        graph.linked(address, traversed).blocks[graph.resolve(address) as int].start == address,
        graph.has_block_at(other) ==> graph.linked(address, traversed).resolve(other)
            == graph.resolve(other),
        graph.linked(address, traversed).current_block() == graph.current_block().with_edge(
            graph.resolve(address),
            traversed,
        ),
        forall|i: int|
            0 <= i < graph.blocks.len() && i != graph.current ==> #[trigger] graph.linked(
                address,
                traversed,
            ).blocks[i] == graph.blocks[i],
        !graph.has_block_at(address) ==> graph.linked(address, traversed).blocks[graph.resolve(
            address,
        ) as int] == BlockView::fresh(address),
{
    let found = graph.with_block_at(address);
    lemma_with_block_at(graph, address, other);
    lemma_with_edge_starts(found, graph.current, graph.resolve(address), traversed);
}

/// Linking keeps what the graph held: no block is removed or moved, no
/// block changes its start, its end or its instructions, and no traversal
/// count decreases.
pub proof fn lemma_linked_keeps(graph: GraphView, address: usize, traversed: bool)
    requires
        graph.cursor_valid(),
    ensures
        graph.blocks.len() <= graph.linked(address, traversed).blocks.len() <= graph.blocks.len()
            + 1,
        forall|i: int|
            0 <= i < graph.blocks.len() ==> {
                &&& (#[trigger] graph.linked(address, traversed).blocks[i]).start
                    == graph.blocks[i].start
                &&& graph.linked(address, traversed).blocks[i].end == graph.blocks[i].end
                &&& graph.linked(address, traversed).blocks[i].instructions
                    == graph.blocks[i].instructions
            },
        forall|i: int, target: nat|
            0 <= i < graph.blocks.len() ==> graph.blocks[i].traversals(target) <= (
            #[trigger] graph.linked(address, traversed).blocks[i].traversals(target)),
{
    let after = graph.linked(address, traversed);
    assert forall|i: int, target: nat| 0 <= i < graph.blocks.len() implies (
    #[trigger] after.blocks[i].traversals(target)) >= graph.blocks[i].traversals(target) by {
        if i == graph.current {
            lemma_with_edge_observed(
                graph.current_block(),
                graph.resolve(address),
                traversed,
                target,
            );
        }
    }
}

/// Linking the block under the cursor to an address keeps the graph's
/// invariant.
pub proof fn lemma_linked_wf(graph: GraphView, address: usize, traversed: bool)
    requires
        graph.wf(),
    ensures
        graph.linked(address, traversed).wf(),
{
    let after = graph.linked(address, traversed);
    lemma_first_index_from(graph.starts(), address, 0);
    lemma_with_edge_wf(graph.current_block(), graph.resolve(address), traversed);
    assert forall|i: int, j: int| 0 <= i < j < after.blocks.len() implies after.blocks[i].start
        != after.blocks[j].start by {
        if j >= graph.blocks.len() {
            assert(graph.starts()[i] == graph.blocks[i].start);
        }
    }
}

} // verus!
