//! The control-flow graph and the state machine that builds it.

use vstd::prelude::*;
use vstd::std_specs::iter::IteratorSpec;
use crate::block::BasicBlock;
use crate::laws::edges::lemma_with_edge_observed;
use crate::laws::linking::{lemma_linked, lemma_with_block_at, lemma_with_instruction};
use crate::laws::lookup::{lemma_first_index_from, lemma_first_index_push};
use crate::laws::steps::{
    lemma_cursor_follows, lemma_initial_wf, lemma_step_destination, lemma_step_wf,
};
use crate::model::{first_index, first_index_from, goes_on_at, GraphView};
use crate::types::{BlockType, CFGError, JumpType};

verus! {

/// A control-flow graph under construction: the blocks found so far and the
/// cursor, the index of the block that receives the next instruction.
pub struct ControlFlowGraph {
    /// The index of the current block.
    current_block: usize,
    /// The basic blocks of this graph, in the order of their creation.
    blocks: Vec<BasicBlock>,
}

impl View for ControlFlowGraph {
    type V = GraphView;

    closed spec fn view(&self) -> GraphView {
        GraphView {
            current: self.current_block as nat,
            blocks: Seq::new(self.blocks@.len(), |i: int| self.blocks@[i]@),
        }
    }
}

impl ControlFlowGraph {
    /// A graph with one empty block at `entry_point` and the cursor on it.
    pub fn new(entry_point: usize) -> (graph: Self)
        ensures
            graph@ == GraphView::initial(entry_point),
            graph@.wf(),
    {
        proof {
            lemma_initial_wf(entry_point);
        }
        let mut blocks: Vec<BasicBlock> = Vec::new();
        blocks.push(BasicBlock::new(entry_point));
        let graph = ControlFlowGraph { current_block: 0, blocks };
        assert(graph@.blocks =~= GraphView::initial(entry_point).blocks);
        graph
    }

    /// The index of the block that receives the next instruction.
    pub fn current_block(&self) -> (index: usize)
        ensures
            index == self@.current,
    {
        self.current_block
    }

    /// The blocks in the order of their creation; a block's position is the
    /// index by which edges name it.
    pub fn blocks(&self) -> (iter: core::slice::Iter<'_, BasicBlock>)
        ensures
            iter.decrease() is Some,
            iter.initial_value_relation(&iter),
            iter.remaining().len() == self@.blocks.len(),
            forall|i: int|
                0 <= i < iter.remaining().len() ==> (#[trigger] iter.remaining()[i])@
                    == self@.blocks[i],
    {
        self.blocks.iter()
    }

    /// Lets block `src_block` observe an edge to block `dest_block`.
    fn add_edge(&mut self, src_block: usize, dest_block: usize, traversed: bool) -> (result: Result<
        (),
        CFGError,
    >)
        requires
            src_block < old(self)@.blocks.len() && traversed ==> old(
                self,
            )@.blocks[src_block as int].traversals(dest_block as nat) < usize::MAX,
        ensures
            final(self)@ == old(self)@.with_edge(src_block as nat, dest_block as nat, traversed),
            src_block < old(self)@.blocks.len() ==> result is Ok,
            src_block >= old(self)@.blocks.len() ==> result == Err::<(), CFGError>(
                CFGError::MissingBlock,
            ),
    {
        if src_block < self.blocks.len() {
            self.blocks[src_block].add_edge(dest_block, traversed);
            assert(self@.blocks =~= old(self)@.with_edge(
                src_block as nat,
                dest_block as nat,
                traversed,
            ).blocks);
            Ok(())
        } else {
            Err(CFGError::MissingBlock)
        }
    }

    /// Appends `block` to the graph and returns its index.
    fn add_block(&mut self, block: BasicBlock) -> (index: usize)
        ensures
            final(self)@ == (GraphView { blocks: old(self)@.blocks.push(block@), ..old(self)@ }),
            index == old(self)@.blocks.len(),
    {
        self.blocks.push(block);
        assert(self@.blocks =~= old(self)@.blocks.push(block@));
        self.blocks.len() - 1
    }

    /// The index of the first block that starts at `address`, or the number
    /// of blocks where there is none.
    fn query_block(&self, address: usize) -> (index: usize)
        ensures
            index == self@.resolve(address),
            index <= self.blocks.len() == self@.blocks.len(),
    {
        let ghost starts = self@.starts();
        let mut i: usize = 0;
        while i < self.blocks.len()
            invariant
                starts == self@.starts(),
                0 <= i <= self.blocks.len(),
                self.blocks.len() == starts.len(),
                first_index(starts, address) == first_index_from(starts, address, i as nat),
            decreases self.blocks.len() - i,
        {
            if self.blocks[i].start() == address {
                return i;
            }
            i += 1;
        }
        i
    }

    /// Returns the index of the first block that starts at `address`, after
    /// appending an empty block there where none does.
    fn query_block_or_create(&mut self, address: usize) -> (index: usize)
        ensures
            final(self)@ == old(self)@.with_block_at(address),
            index == old(self)@.resolve(address),
            index < final(self)@.blocks.len(),
    {
        let index = self.query_block(address);
        if index < self.blocks.len() {
            index
        } else {
            let new_block = BasicBlock::new(address);
            self.add_block(new_block)
        }
    }

    /// Whether [`execute`](Self::execute) can take `instruction` at
    /// `program_counter`: the address does not lie before the start of the
    /// block under the cursor, and the count of the edge that the jump
    /// traverses is below `usize::MAX`.
    pub fn accepts(&self, program_counter: usize, instruction: &BlockType) -> (ok: bool)
        ensures
            ok == self@.accepts(program_counter, *instruction),
    {
        if self.current_block >= self.blocks.len() {
            return true;
        }
        let block = &self.blocks[self.current_block];
        if program_counter < block.start() {
            return false;
        }
        match instruction {
            BlockType::Instruction(_, _) => true,
            BlockType::Jump(_, success, JumpType::UnconditionalJump, _) => {
                block.traversals(self.query_block(*success)) < usize::MAX
            },
            BlockType::Jump(_, _, _, None) => true,
            BlockType::Jump(_, _, JumpType::ConditionalNotTaken, Some(failure)) => {
                block.traversals(self.query_block(*failure)) < usize::MAX
            },
            BlockType::Jump(_, success, JumpType::ConditionalTaken, Some(failure)) => {
                proof {
                    lemma_with_block_at(self@, *failure, *success);
                    lemma_first_index_push(self@.starts(), *success, *failure);
                    block.lemma_edges_fit();
                }
                let count = self.blocks.len();
                let found = self.query_block(*success);
                if found < count || *success == *failure || self.query_block(*failure) < count {
                    block.traversals(found) < usize::MAX
                } else {
                    assert(self@.with_block_at(*failure).starts() =~= self@.starts().push(
                        *failure,
                    ));
                    count == usize::MAX || block.traversals(count + 1) < usize::MAX
                }
            },
        }
    }

    /// Feeds the instruction that the traced run executed at
    /// `program_counter`.
    ///
    /// The instruction is recorded in the block under the cursor, unless
    /// that block already holds one at this address. A jump then links the
    /// block to the blocks at its failure and success addresses, in this
    /// order, creating them where needed; it counts a traversal for the one
    /// where the run went on and moves the cursor there. This happens every
    /// time a jump is fed, also where the block already held it: the counts
    /// say how often the run took each edge. A conditional jump without a
    /// failure address is recorded and then refused; the graph keeps the
    /// record.
    ///
    /// The caller sees to it that the graph
    /// [`accepts`](GraphView::accepts) the instruction, which
    /// [`ControlFlowGraph::accepts`] tests.
    pub fn execute(&mut self, program_counter: usize, instruction: BlockType) -> (result: Result<
        (),
        CFGError,
    >)
        requires
            old(self)@.accepts(program_counter, instruction),
        ensures
            final(self)@ == old(self)@.step(program_counter, instruction),
            result == old(self)@.outcome(instruction),
            old(self)@.wf() ==> final(self)@.wf(),
            result is Ok ==> final(self)@.cursor_valid() && forall|next: usize| #[trigger]
                goes_on_at(program_counter, instruction, next)
                    ==> final(self)@.current_block().start <= next,
    {
        if self.current_block >= self.blocks.len() {
            return Err(CFGError::MissingCurrentBlock);
        }
        let current = self.current_block;
        let ghost before = self@;
        let ghost recorded = before.with_instruction(program_counter, instruction);
        proof {
            lemma_step_destination(before, program_counter, instruction);
            if before.wf() {
                lemma_step_wf(before, program_counter, instruction);
            }
            assert forall|next: usize| #[trigger]
                goes_on_at(program_counter, instruction, next) && before.outcome(
                    instruction,
                ) is Ok implies before.step(program_counter, instruction).current_block().start
                <= next by {
                lemma_cursor_follows(before, program_counter, instruction, next);
            }
        }
        match instruction {
            BlockType::Instruction(name, operand) => {
                self.blocks[current].add_instruction(
                    program_counter,
                    BlockType::Instruction(name, operand),
                );
                assert(self@.blocks =~= recorded.blocks);
                Ok(())
            },
            BlockType::Jump(name, success_address, jump_type, failure_address) => {
                self.blocks[current].add_instruction(
                    program_counter,
                    BlockType::Jump(name, success_address, jump_type, failure_address),
                );
                assert(self@.blocks =~= recorded.blocks);
                match jump_type {
                    JumpType::UnconditionalJump => {
                        proof {
                            lemma_linked(recorded, success_address, true, success_address);
                        }
                        let success_index = self.query_block_or_create(success_address);
                        self.add_edge(self.current_block, success_index, true)?;
                        self.current_block = success_index;
                        Ok(())
                    },
                    JumpType::ConditionalTaken => {
                        let failure_address = failure_address.ok_or(
                            CFGError::ExpectedFailureAddress,
                        )?;
                        let ghost linked = recorded.linked(failure_address, false);
                        proof {
                            lemma_with_edge_observed(
                                recorded.current_block(),
                                recorded.resolve(failure_address),
                                false,
                                linked.resolve(success_address),
                            );
                            lemma_linked(linked, success_address, true, success_address);
                        }
                        let failure_index = self.query_block_or_create(failure_address);
                        self.add_edge(self.current_block, failure_index, false)?;
                        let success_index = self.query_block_or_create(success_address);
                        self.add_edge(self.current_block, success_index, true)?;
                        self.current_block = success_index;
                        Ok(())
                    },
                    JumpType::ConditionalNotTaken => {
                        let failure_address = failure_address.ok_or(
                            CFGError::ExpectedFailureAddress,
                        )?;
                        let ghost linked = recorded.linked(failure_address, true);
                        proof {
                            lemma_linked(recorded, failure_address, true, failure_address);
                            lemma_linked(linked, success_address, false, failure_address);
                        }
                        let failure_index = self.query_block_or_create(failure_address);
                        self.add_edge(self.current_block, failure_index, true)?;
                        let success_index = self.query_block_or_create(success_address);
                        self.add_edge(self.current_block, success_index, false)?;
                        self.current_block = failure_index;
                        Ok(())
                    },
                }
            },
        }
    }
}

} // verus!
