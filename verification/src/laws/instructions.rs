//! Instructions of a block: what a run records and where `end` comes to lie.

use vstd::prelude::*;
use crate::model::{ascending, BlockView};
use crate::types::BlockType;

verus! {

/// Recording an instruction at or after the start of a block keeps the
/// block's invariant.
pub proof fn lemma_with_instruction_wf(block: BlockView, address: usize, instruction: BlockType)
    requires
        block.wf(),
        block.start <= address,
    ensures
        block.with_instruction(address, instruction).wf(),
{
}

/// After a run of instructions, a block holds what it held before and the
/// addresses of the run, and nothing else.
pub proof fn lemma_with_instructions_domain(
    block: BlockView,
    run: Seq<(usize, BlockType)>,
    address: usize,
)
    ensures
        block.with_instructions(run).instructions.contains_key(address) <==> (
        block.instructions.contains_key(address) || exists|i: int|
            0 <= i < run.len() && (#[trigger] run[i]).0 == address),
        block.with_instructions(run).start == block.start,
        block.with_instructions(run).edges == block.edges,
    decreases run.len(),
{
    if run.len() > 0 {
        let front = run.drop_last();
        lemma_with_instructions_domain(block, front, address);
        if exists|i: int| 0 <= i < run.len() && (#[trigger] run[i]).0 == address {
            let i = choose|i: int| 0 <= i < run.len() && (#[trigger] run[i]).0 == address;
            if i < front.len() {
                assert(front[i].0 == address);
            }
        }
    }
}

/// The end address follows the greatest address recorded: after a run of
/// instructions whose addresses increase strictly, `end` is the address of
/// the last instruction of the run that the block did not hold before, and
/// the block is unchanged where it held them all. In particular `end` is
/// the last address of a run of which the block held none, and `end` has
/// not decreased where the run begins at or after it.
pub proof fn lemma_end_is_greatest_recorded(block: BlockView, run: Seq<(usize, BlockType)>)
    requires
        ascending(run),
    ensures
        forall|i: int|
            0 <= i < run.len() && !block.instructions.contains_key((#[trigger] run[i]).0) && (
            forall|j: int| i < j < run.len() ==> block.instructions.contains_key(run[j].0))
                ==> block.with_instructions(run).end == run[i].0,
        (forall|j: int| 0 <= j < run.len() ==> block.instructions.contains_key(run[j].0))
            ==> block.with_instructions(run) == block,
        run.len() > 0 && !block.instructions.contains_key(run.last().0) ==> block.with_instructions(
            run,
        ).end == run.last().0,
        run.len() > 0 && block.end <= run[0].0 ==> block.end <= block.with_instructions(run).end,
    decreases run.len(),
{
    if run.len() > 0 {
        let front = run.drop_last();
        let last = run.last();
        assert(ascending(front));
        lemma_end_is_greatest_recorded(block, front);
        lemma_with_instructions_domain(block, front, last.0);
        assert forall|i: int|
            0 <= i < run.len() && !block.instructions.contains_key((#[trigger] run[i]).0) && (
            forall|j: int|
                i < j < run.len() ==> block.instructions.contains_key(
                    run[j].0,
                )) implies block.with_instructions(run).end == run[i].0 by {
            if i < front.len() {
                assert(front[i] == run[i]);
            }
        }
    }
}

} // verus!
