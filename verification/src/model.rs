//! The mathematical model of blocks and graphs.
//!
//! A block is modelled by a [`BlockView`], a graph by a [`GraphView`]. Every
//! operation of the executable types is a total function on these views, and
//! the contracts of the executable functions say which one.

use vstd::prelude::*;
use crate::types::{BlockType, CFGError, JumpType};

verus! {

/// The least index `i >= from` with `keys[i] == key`, or `keys.len()` where
/// there is none.
pub open spec fn first_index_from<K>(keys: Seq<K>, key: K, from: nat) -> nat
    decreases keys.len() - from,
{
    if from >= keys.len() {
        keys.len()
    } else if keys[from as int] == key {
        from
    } else {
        first_index_from(keys, key, from + 1)
    }
}

/// The index of the first occurrence of `key` in `keys`, or `keys.len()`
/// where it does not occur.
pub open spec fn first_index<K>(keys: Seq<K>, key: K) -> nat {
    first_index_from(keys, key, 0)
}

/// How much one observation of an edge adds to its traversal count.
pub open spec fn weight(traversed: bool) -> nat {
    if traversed {
        1
    } else {
        0
    }
}

/// How many of `observations` saw the edge to `target` taken.
pub open spec fn taken(observations: Seq<(nat, bool)>, target: nat) -> nat
    decreases observations.len(),
{
    if observations.len() == 0 {
        0
    } else {
        taken(observations.drop_last(), target) + (if observations.last().0 == target {
            weight(observations.last().1)
        } else {
            0
        })
    }
}

/// Whether the addresses of `run` increase strictly.
pub open spec fn ascending(run: Seq<(usize, BlockType)>) -> bool {
    forall|i: int, j: int| 0 <= i < j < run.len() ==> (#[trigger] run[i]).0 < (#[trigger] run[j]).0
}

/// The model of a basic block.
pub struct BlockView {
    /// The address at which the block begins.
    pub start: usize,
    /// The address of the instruction that was recorded last.
    pub end: usize,
    /// The recorded instructions, by address.
    pub instructions: Map<usize, BlockType>,
    /// The outgoing edges in the order of their first observation: the index
    /// of the target block and the number of times the edge was taken.
    pub edges: Seq<(nat, nat)>,
}

impl BlockView {
    /// The block that begins at `start` and holds nothing yet.
    pub open spec fn fresh(start: usize) -> BlockView {
        BlockView { start, end: start, instructions: Map::empty(), edges: Seq::empty() }
    }

    /// The targets of the edges, in order.
    pub open spec fn targets(self) -> Seq<nat> {
        Seq::new(self.edges.len(), |i: int| self.edges[i].0)
    }

    /// The position of the first edge to `target`, or `edges.len()` where
    /// there is none.
    pub open spec fn edge_slot(self, target: nat) -> nat {
        first_index(self.targets(), target)
    }

    /// Whether an edge to `target` is recorded.
    pub open spec fn has_edge(self, target: nat) -> bool {
        self.edge_slot(target) < self.edges.len()
    }

    /// How often the edge to `target` was taken; 0 where no such edge is recorded.
    pub open spec fn traversals(self, target: nat) -> nat {
        if self.has_edge(target) {
            self.edges[self.edge_slot(target) as int].1
        } else {
            0
        }
    }

    /// The block after recording `instruction` at `address`: unchanged where
    /// the address already holds an instruction, else the instruction is
    /// entered and `end` moves to `address`.
    pub open spec fn with_instruction(self, address: usize, instruction: BlockType) -> BlockView {
        if self.instructions.contains_key(address) {
            self
        } else {
            BlockView {
                end: address,
                instructions: self.instructions.insert(address, instruction),
                ..self
            }
        }
    }

    /// The block after observing an edge to `target`: a known edge gains
    /// [`weight`]`(traversed)`, an unknown one is appended with that count.
    pub open spec fn with_edge(self, target: nat, traversed: bool) -> BlockView {
        let slot = self.edge_slot(target);
        if slot < self.edges.len() {
            BlockView {
                edges: self.edges.update(
                    slot as int,
                    (target, self.edges[slot as int].1 + weight(traversed)),
                ),
                ..self
            }
        } else {
            BlockView { edges: self.edges.push((target, weight(traversed))), ..self }
        }
    }

    /// The block after recording the instructions of `run`, first to last.
    pub open spec fn with_instructions(self, run: Seq<(usize, BlockType)>) -> BlockView
        decreases run.len(),
    {
        if run.len() == 0 {
            self
        } else {
            self.with_instructions(run.drop_last()).with_instruction(run.last().0, run.last().1)
        }
    }

    /// The block after observing the edges of `observations`, first to
    /// last; each names its target and says whether the edge was taken.
    pub open spec fn with_edges(self, observations: Seq<(nat, bool)>) -> BlockView
        decreases observations.len(),
    {
        if observations.len() == 0 {
            self
        } else {
            self.with_edges(observations.drop_last()).with_edge(
                observations.last().0,
                observations.last().1,
            )
        }
    }

    /// No two edges lead to the same target.
    pub open spec fn distinct_targets(self) -> bool {
        forall|i: int, j: int|
            0 <= i < j < self.edges.len() ==> #[trigger] self.edges[i].0
                != #[trigger] self.edges[j].0
    }

    /// The block's invariant: finitely many instructions, none before
    /// `start`; `end` is the address of a recorded instruction, or `start`
    /// while there is none; and no two edges share a target.
    pub open spec fn wf(self) -> bool {
        &&& self.instructions.dom().finite()
        &&& forall|a: usize| #[trigger] self.instructions.contains_key(a) ==> self.start <= a
        &&& self.start <= self.end
        &&& self.instructions.len() == 0 ==> self.end == self.start
        &&& self.instructions.len() > 0 ==> self.instructions.contains_key(self.end)
        &&& self.distinct_targets()
    }
}

/// Whether a traced run that executed `instruction` at `program_counter`
/// can go on at `next`: after a jump at the address where it landed, after
/// any other instruction nowhere before it.
pub open spec fn goes_on_at(program_counter: usize, instruction: BlockType, next: usize) -> bool {
    if instruction is Jump {
        next == instruction.landing()
    } else {
        program_counter <= next
    }
}

/// The model of a control-flow graph.
pub struct GraphView {
    /// The cursor: the index of the block that receives the next instruction.
    pub current: nat,
    /// The blocks in the order of their creation. A block's index never changes.
    pub blocks: Seq<BlockView>,
}

impl GraphView {
    /// The graph that holds one empty block at `entry`, with the cursor on it.
    pub open spec fn initial(entry: usize) -> GraphView {
        GraphView { current: 0, blocks: seq![BlockView::fresh(entry)] }
    }

    /// The start addresses of the blocks, in order.
    pub open spec fn starts(self) -> Seq<usize> {
        Seq::new(self.blocks.len(), |i: int| self.blocks[i].start)
    }

    /// Whether the cursor points at a block of the graph.
    pub open spec fn cursor_valid(self) -> bool {
        self.current < self.blocks.len()
    }

    /// The block under the cursor.
    pub open spec fn current_block(self) -> BlockView
        recommends
            self.cursor_valid(),
    {
        self.blocks[self.current as int]
    }

    /// The index of the first block that starts at `address`, or
    /// `blocks.len()`, the index that the next new block gets, where there
    /// is none.
    pub open spec fn resolve(self, address: usize) -> nat {
        first_index(self.starts(), address)
    }

    /// Whether a block starts at `address`.
    pub open spec fn has_block_at(self, address: usize) -> bool {
        self.resolve(address) < self.blocks.len()
    }

    /// Whether blocks start at the addresses to which `instruction` links
    /// the block under the cursor: the success address of a jump, and the
    /// failure address of a conditional jump that has one.
    pub open spec fn has_blocks_for(self, instruction: BlockType) -> bool {
        match instruction {
            BlockType::Instruction(_, _) => true,
            BlockType::Jump(_, success, JumpType::UnconditionalJump, _) => self.has_block_at(
                success,
            ),
            BlockType::Jump(_, success, _, Some(failure)) => self.has_block_at(success)
                && self.has_block_at(failure),
            BlockType::Jump(_, _, _, None) => true,
        }
    }

    /// The graph after looking up the block at `address`, which appends an
    /// empty block there where none starts at that address.
    pub open spec fn with_block_at(self, address: usize) -> GraphView {
        if self.has_block_at(address) {
            self
        } else {
            GraphView { blocks: self.blocks.push(BlockView::fresh(address)), ..self }
        }
    }

    /// The graph after block `src` observed an edge to block `dest`; the
    /// graph is unchanged where it holds no block `src`.
    pub open spec fn with_edge(self, src: nat, dest: nat, traversed: bool) -> GraphView {
        if src < self.blocks.len() {
            GraphView {
                blocks: self.blocks.update(
                    src as int,
                    self.blocks[src as int].with_edge(dest, traversed),
                ),
                ..self
            }
        } else {
            self
        }
    }

    /// The graph after the block under the cursor recorded `instruction` at
    /// `address`.
    pub open spec fn with_instruction(self, address: usize, instruction: BlockType) -> GraphView
        recommends
            self.cursor_valid(),
    {
        GraphView {
            blocks: self.blocks.update(
                self.current as int,
                self.current_block().with_instruction(address, instruction),
            ),
            ..self
        }
    }

    /// The graph after the block under the cursor observed a possible
    /// successor at `address`: the block there is looked up or created, and
    /// the edge to it is entered or counted.
    pub open spec fn linked(self, address: usize, traversed: bool) -> GraphView {
        self.with_block_at(address).with_edge(self.current, self.resolve(address), traversed)
    }

    /// The graph with the cursor on the block that starts at `address`.
    pub open spec fn moved_to(self, address: usize) -> GraphView {
        GraphView { current: self.resolve(address), ..self }
    }

    /// The index of the block on which the cursor is after `instruction` was
    /// fed: where a jump transfers control, the block at the address where
    /// the run went on, which for a taken conditional jump is looked up
    /// after the block at the failure address; else the block it was on.
    pub open spec fn destination(self, instruction: BlockType) -> nat {
        match instruction {
            BlockType::Jump(_, success, JumpType::UnconditionalJump, _) => self.resolve(success),
            BlockType::Jump(_, success, JumpType::ConditionalTaken, Some(failure)) => {
                self.with_block_at(failure).resolve(success)
            },
            BlockType::Jump(_, _, JumpType::ConditionalNotTaken, Some(failure)) => self.resolve(
                failure,
            ),
            _ => self.current,
        }
    }

    /// What feeding `instruction` reports.
    pub open spec fn outcome(self, instruction: BlockType) -> Result<(), CFGError> {
        if !self.cursor_valid() {
            Err(CFGError::MissingCurrentBlock)
        } else if instruction.lacks_failure_address() {
            Err(CFGError::ExpectedFailureAddress)
        } else {
            Ok(())
        }
    }

    /// The graph after feeding `instruction` at `program_counter`.
    ///
    /// Without a valid cursor nothing happens. Else the instruction is
    /// recorded in the block under the cursor. A jump that lacks a needed
    /// failure address stops there. Any other jump links the block to its
    /// successors, the failure address before the success address, counting
    /// a traversal for the one where the run went on, and moves the cursor
    /// there.
    pub open spec fn step(self, program_counter: usize, instruction: BlockType) -> GraphView {
        if !self.cursor_valid() {
            self
        } else {
            let recorded = self.with_instruction(program_counter, instruction);
            match instruction {
                BlockType::Instruction(_, _) => recorded,
                BlockType::Jump(_, success, JumpType::UnconditionalJump, _) => recorded.linked(
                    success,
                    true,
                ).moved_to(success),
                BlockType::Jump(_, _, _, None) => recorded,
                BlockType::Jump(_, success, JumpType::ConditionalTaken, Some(failure)) => {
                    recorded.linked(failure, false).linked(success, true).moved_to(success)
                },
                BlockType::Jump(_, success, JumpType::ConditionalNotTaken, Some(failure)) => {
                    recorded.linked(failure, true).linked(success, false).moved_to(failure)
                },
            }
        }
    }

    /// The graph after feeding the instructions of `feed`, first to last,
    /// each at its address.
    pub open spec fn fed(self, feed: Seq<(usize, BlockType)>) -> GraphView
        decreases feed.len(),
    {
        if feed.len() == 0 {
            self
        } else {
            self.fed(feed.drop_last()).step(feed.last().0, feed.last().1)
        }
    }

    /// Whether no instruction of `feed` comes at an address before the
    /// start of the block that is under the cursor at its turn.
    pub open spec fn admits(self, feed: Seq<(usize, BlockType)>) -> bool
        decreases feed.len(),
    {
        feed.len() > 0 ==> {
            &&& self.admits(feed.drop_last())
            &&& self.fed(feed.drop_last()).cursor_valid() ==> self.fed(
                feed.drop_last(),
            ).current_block().start <= feed.last().0
        }
    }

    /// Whether the graph can take `instruction` at `program_counter`: the
    /// address does not lie before the start of the block under the cursor,
    /// and the count of the edge that the step traverses can still grow.
    pub open spec fn accepts(self, program_counter: usize, instruction: BlockType) -> bool {
        self.cursor_valid() ==> {
            &&& self.current_block().start <= program_counter
            &&& instruction.transfers() ==> self.current_block().traversals(
                self.destination(instruction),
            ) < usize::MAX
        }
    }

    /// Every edge of every block leads to a block of the graph.
    pub open spec fn edges_in_range(self) -> bool {
        forall|b: int, e: int|
            0 <= b < self.blocks.len() && 0 <= e < self.blocks[b].edges.len() ==> (
            #[trigger] self.blocks[b].edges[e]).0 < self.blocks.len()
    }

    /// No two blocks start at the same address.
    pub open spec fn distinct_starts(self) -> bool {
        forall|i: int, j: int|
            0 <= i < j < self.blocks.len() ==> #[trigger] self.blocks[i].start
                != #[trigger] self.blocks[j].start
    }

    /// The graph's invariant: it holds a block, the cursor points at one,
    /// every block satisfies its own invariant, block starts are distinct,
    /// and edges lead to blocks of the graph.
    pub open spec fn wf(self) -> bool {
        &&& self.blocks.len() > 0
        &&& self.cursor_valid()
        &&& forall|i: int| 0 <= i < self.blocks.len() ==> (#[trigger] self.blocks[i]).wf()
        &&& self.distinct_starts()
        &&& self.edges_in_range()
    }
}

} // verus!
