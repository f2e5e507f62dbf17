//! Whole steps: what feeding an instruction keeps, where it leaves the
//! cursor, and what feeding an instruction again does.

use vstd::prelude::*;
use crate::laws::edges::lemma_with_edge_observed;
use crate::laws::instructions::lemma_with_instruction_wf;
use crate::laws::linking::{
    lemma_linked, lemma_linked_keeps, lemma_linked_wf, lemma_with_edge_starts,
    lemma_with_instruction,
};
use crate::laws::lookup::lemma_first_index_from;
use crate::model::{goes_on_at, BlockView, GraphView};
use crate::types::{BlockType, JumpType};

verus! {

/// A new graph satisfies the invariant.
pub proof fn lemma_initial_wf(entry: usize)
    ensures
        GraphView::initial(entry).wf(),
{
}

/// Feeding an instruction whose address does not lie before the start of
/// the block under the cursor keeps the graph's invariant.
pub proof fn lemma_step_wf(graph: GraphView, program_counter: usize, instruction: BlockType)
    requires
        graph.wf(),
        graph.current_block().start <= program_counter,
    ensures
        graph.step(program_counter, instruction).wf(),
{
    let recorded = graph.with_instruction(program_counter, instruction);
    assert(recorded.wf()) by {
        lemma_with_instruction_wf(graph.current_block(), program_counter, instruction);
    }
    match instruction {
        BlockType::Instruction(_, _) => {},
        BlockType::Jump(_, success, JumpType::UnconditionalJump, _) => {
            lemma_linked_wf(recorded, success, true);
            lemma_linked(recorded, success, true, success);
        },
        BlockType::Jump(_, _, _, None) => {},
        BlockType::Jump(_, success, JumpType::ConditionalTaken, Some(failure)) => {
            let first = recorded.linked(failure, false);
            lemma_linked_wf(recorded, failure, false);
            lemma_linked_wf(first, success, true);
            lemma_linked(first, success, true, success);
        },
        BlockType::Jump(_, success, JumpType::ConditionalNotTaken, Some(failure)) => {
            let first = recorded.linked(failure, true);
            lemma_linked_wf(recorded, failure, true);
            lemma_linked(recorded, failure, true, failure);
            lemma_linked_wf(first, success, false);
            lemma_linked(first, success, false, failure);
        },
    }
}

/// Block indices are stable and nothing is forgotten: feeding an
/// instruction removes and moves no block and adds at most two; no block
/// changes its start; every recorded instruction stays recorded as it was;
/// and no traversal count decreases.
pub proof fn lemma_step_keeps(graph: GraphView, program_counter: usize, instruction: BlockType)
    ensures
        graph.blocks.len() <= graph.step(program_counter, instruction).blocks.len()
            <= graph.blocks.len() + 2,
        forall|i: int|
            0 <= i < graph.blocks.len() ==> (#[trigger] graph.step(
                program_counter,
                instruction,
            ).blocks[i]).start == graph.blocks[i].start,
        forall|i: int, address: usize|
            0 <= i < graph.blocks.len() && graph.blocks[i].instructions.contains_key(address) ==> (
            #[trigger] graph.step(
                program_counter,
                instruction,
            ).blocks[i].instructions.contains_pair(address, graph.blocks[i].instructions[address])),
        forall|i: int, target: nat|
            0 <= i < graph.blocks.len() ==> graph.blocks[i].traversals(target) <= (
            #[trigger] graph.step(program_counter, instruction).blocks[i].traversals(target)),
{
    if graph.cursor_valid() {
        let recorded = graph.with_instruction(program_counter, instruction);
        assert forall|i: int, target: nat| 0 <= i < graph.blocks.len() implies (
        #[trigger] recorded.blocks[i].traversals(target)) == graph.blocks[i].traversals(target) by {
            assert(recorded.blocks[i].edges == graph.blocks[i].edges);
        }
        match instruction {
            BlockType::Instruction(_, _) => {},
            BlockType::Jump(_, success, JumpType::UnconditionalJump, _) => {
                lemma_linked_keeps(recorded, success, true);
            },
            BlockType::Jump(_, _, _, None) => {},
            BlockType::Jump(_, success, JumpType::ConditionalTaken, Some(failure)) => {
                let first = recorded.linked(failure, false);
                lemma_linked_keeps(recorded, failure, false);
                lemma_linked_keeps(first, success, true);
            },
            BlockType::Jump(_, success, JumpType::ConditionalNotTaken, Some(failure)) => {
                let first = recorded.linked(failure, true);
                lemma_linked_keeps(recorded, failure, true);
                lemma_linked_keeps(first, success, false);
            },
        }
    }
}

/// Where the cursor goes: feeding an instruction to a graph with a valid
/// cursor leaves the cursor on the instruction's
/// [`destination`](GraphView::destination), which is a block of the graph
/// that results.
pub proof fn lemma_step_destination(
    graph: GraphView,
    program_counter: usize,
    instruction: BlockType,
)
    requires
        graph.cursor_valid(),
    ensures
        graph.step(program_counter, instruction).current == graph.destination(instruction),
        graph.step(program_counter, instruction).cursor_valid(),
{
    let recorded = graph.with_instruction(program_counter, instruction);
    lemma_with_instruction(graph, program_counter, instruction);
    match instruction {
        BlockType::Instruction(_, _) => {},
        BlockType::Jump(_, success, JumpType::UnconditionalJump, _) => {
            lemma_linked(recorded, success, true, success);
        },
        BlockType::Jump(_, _, _, None) => {},
        BlockType::Jump(_, success, JumpType::ConditionalTaken, Some(failure)) => {
            let first = recorded.linked(failure, false);
            lemma_linked(first, success, true, success);
            lemma_with_edge_starts(
                recorded.with_block_at(failure),
                recorded.current,
                recorded.resolve(failure),
                false,
            );
            assert(recorded.with_block_at(failure).starts() =~= graph.with_block_at(
                failure,
            ).starts());
        },
        BlockType::Jump(_, success, JumpType::ConditionalNotTaken, Some(failure)) => {
            let first = recorded.linked(failure, true);
            lemma_linked(recorded, failure, true, failure);
            lemma_linked(first, success, false, failure);
        },
    }
}

/// The cursor follows the control flow: after an instruction was fed with
/// success, the cursor points at a block that starts nowhere after the
/// address at which the run goes on; after a jump it starts exactly there.
pub proof fn lemma_cursor_follows(
    graph: GraphView,
    program_counter: usize,
    instruction: BlockType,
    next: usize,
)
    requires
        graph.cursor_valid(),
        graph.current_block().start <= program_counter,
        graph.outcome(instruction) is Ok,
        goes_on_at(program_counter, instruction, next),
    ensures
        graph.step(program_counter, instruction).cursor_valid(),
        graph.step(program_counter, instruction).current_block().start <= next,
        instruction is Jump ==> graph.step(program_counter, instruction).current_block().start
            == next,
{
    let recorded = graph.with_instruction(program_counter, instruction);
    match instruction {
        BlockType::Instruction(_, _) => {},
        BlockType::Jump(_, success, JumpType::UnconditionalJump, _) => {
            lemma_linked(recorded, success, true, success);
        },
        BlockType::Jump(_, _, _, None) => {},
        BlockType::Jump(_, success, JumpType::ConditionalTaken, Some(failure)) => {
            let first = recorded.linked(failure, false);
            lemma_linked(first, success, true, success);
        },
        BlockType::Jump(_, success, JumpType::ConditionalNotTaken, Some(failure)) => {
            let first = recorded.linked(failure, true);
            lemma_linked(recorded, failure, true, failure);
            lemma_linked(first, success, false, failure);
        },
    }
}

/// Feeding an instruction again is a no-op where no control is
/// transferred: an instruction that is not a jump, or a conditional jump
/// without failure address, whose address the block under the cursor already
/// holds leaves the whole graph as it is.
pub proof fn lemma_replay_is_noop(graph: GraphView, program_counter: usize, instruction: BlockType)
    requires
        graph.cursor_valid() ==> graph.current_block().instructions.contains_key(program_counter),
        !instruction.transfers(),
    ensures
        graph.step(program_counter, instruction) == graph,
{
    if graph.cursor_valid() {
        assert(graph.with_instruction(program_counter, instruction).blocks =~= graph.blocks);
    }
}

/// Feeding the same instruction twice in a row is the same as feeding it
/// once, where the instruction transfers no control.
pub proof fn lemma_step_idempotent(graph: GraphView, program_counter: usize, instruction: BlockType)
    requires
        !instruction.transfers(),
    ensures
        graph.step(program_counter, instruction).step(program_counter, instruction) == graph.step(
            program_counter,
            instruction,
        ),
        graph.step(program_counter, instruction).outcome(instruction) == graph.outcome(instruction),
{
    lemma_replay_is_noop(graph.step(program_counter, instruction), program_counter, instruction);
}

/// Feeding a jump again, from the block that holds it and with blocks at
/// the addresses it names, adds no block and no instruction and moves no
/// `end`; it counts one more traversal of the edge to the block where the
/// run went on, and changes no other count.
pub proof fn lemma_replay_counts_once(
    graph: GraphView,
    program_counter: usize,
    instruction: BlockType,
)
    requires
        graph.cursor_valid(),
        graph.current_block().instructions.contains_key(program_counter),
        instruction.transfers(),
        graph.has_blocks_for(instruction),
    ensures
        graph.step(program_counter, instruction).blocks.len() == graph.blocks.len(),
        graph.step(program_counter, instruction).current == graph.resolve(instruction.landing()),
        forall|i: int|
            0 <= i < graph.blocks.len() ==> {
                &&& (#[trigger] graph.step(program_counter, instruction).blocks[i]).start
                    == graph.blocks[i].start
                &&& graph.step(program_counter, instruction).blocks[i].end == graph.blocks[i].end
                &&& graph.step(program_counter, instruction).blocks[i].instructions
                    == graph.blocks[i].instructions
            },
        forall|i: int|
            0 <= i < graph.blocks.len() && i != graph.current ==> (#[trigger] graph.step(
                program_counter,
                instruction,
            ).blocks[i]).edges == graph.blocks[i].edges,
        forall|target: nat| #[trigger]
            graph.step(program_counter, instruction).blocks[graph.current as int].traversals(target)
                == graph.current_block().traversals(target) + (if target == graph.resolve(
                instruction.landing(),
            ) {
                1nat
            } else {
                0nat
            }),
{
    let recorded = graph.with_instruction(program_counter, instruction);
    assert(recorded.blocks =~= graph.blocks);
    let after = graph.step(program_counter, instruction);
    match instruction {
        BlockType::Instruction(_, _) => {},
        BlockType::Jump(_, success, JumpType::UnconditionalJump, _) => {
            lemma_linked(graph, success, true, success);
            assert forall|target: nat| #[trigger]
                after.blocks[graph.current as int].traversals(target)
                    == graph.current_block().traversals(target) + (if target == graph.resolve(
                    success,
                ) {
                    1nat
                } else {
                    0nat
                }) by {
                lemma_with_edge_observed(
                    graph.current_block(),
                    graph.resolve(success),
                    true,
                    target,
                );
            }
        },
        BlockType::Jump(_, _, _, None) => {},
        BlockType::Jump(_, success, JumpType::ConditionalTaken, Some(failure)) => {
            let first = graph.linked(failure, false);
            lemma_linked(graph, failure, false, success);
            lemma_linked(first, success, true, success);
            assert forall|target: nat| #[trigger]
                after.blocks[graph.current as int].traversals(target)
                    == graph.current_block().traversals(target) + (if target == graph.resolve(
                    success,
                ) {
                    1nat
                } else {
                    0nat
                }) by {
                lemma_with_edge_observed(
                    graph.current_block(),
                    graph.resolve(failure),
                    false,
                    target,
                );
                lemma_with_edge_observed(
                    first.current_block(),
                    graph.resolve(success),
                    true,
                    target,
                );
            }
        },
        BlockType::Jump(_, success, JumpType::ConditionalNotTaken, Some(failure)) => {
            let first = graph.linked(failure, true);
            lemma_linked(graph, failure, true, success);
            lemma_linked(first, success, false, failure);
            assert forall|target: nat| #[trigger]
                after.blocks[graph.current as int].traversals(target)
                    == graph.current_block().traversals(target) + (if target == graph.resolve(
                    failure,
                ) {
                    1nat
                } else {
                    0nat
                }) by {
                lemma_with_edge_observed(
                    graph.current_block(),
                    graph.resolve(failure),
                    true,
                    target,
                );
                lemma_with_edge_observed(
                    first.current_block(),
                    graph.resolve(success),
                    false,
                    target,
                );
            }
        },
    }
}

/// Every graph that can be built satisfies the invariant: a graph that
/// satisfies it still does after any feed that it admits.
pub proof fn lemma_fed_wf(graph: GraphView, feed: Seq<(usize, BlockType)>)
    requires
        graph.wf(),
        graph.admits(feed),
    ensures
        graph.fed(feed).wf(),
    decreases feed.len(),
{
    if feed.len() > 0 {
        lemma_fed_wf(graph, feed.drop_last());
        lemma_step_wf(graph.fed(feed.drop_last()), feed.last().0, feed.last().1);
    }
}

/// Whatever is fed, the blocks of a graph stay where they are: none is
/// removed or moved, none changes its start, every recorded instruction
/// stays recorded as it was, and no traversal count decreases.
pub proof fn lemma_fed_keeps(graph: GraphView, feed: Seq<(usize, BlockType)>)
    ensures
        graph.blocks.len() <= graph.fed(feed).blocks.len(),
        forall|i: int|
            0 <= i < graph.blocks.len() ==> (#[trigger] graph.fed(feed).blocks[i]).start
                == graph.blocks[i].start,
        forall|i: int, address: usize|
            0 <= i < graph.blocks.len() && graph.blocks[i].instructions.contains_key(address) ==> (
            #[trigger] graph.fed(feed).blocks[i].instructions.contains_pair(
                address,
                graph.blocks[i].instructions[address],
            )),
        forall|i: int, target: nat|
            0 <= i < graph.blocks.len() ==> graph.blocks[i].traversals(target) <= (
            #[trigger] graph.fed(feed).blocks[i].traversals(target)),
    decreases feed.len(),
{
    if feed.len() > 0 {
        let before = graph.fed(feed.drop_last());
        let after = graph.fed(feed);
        lemma_fed_keeps(graph, feed.drop_last());
        lemma_step_keeps(before, feed.last().0, feed.last().1);
        assert forall|i: int, address: usize|
            0 <= i < graph.blocks.len() && graph.blocks[i].instructions.contains_key(
                address,
            ) implies (#[trigger] after.blocks[i].instructions.contains_pair(
            address,
            graph.blocks[i].instructions[address],
        )) by {
            assert(before.blocks[i].instructions.contains_pair(
                address,
                graph.blocks[i].instructions[address],
            ));
        }
    }
}

} // verus!
