//! Basic blocks: a straight-line run of instructions and its outgoing edges.

use vstd::prelude::*;
use std::collections::HashMap;
use vstd::std_specs::iter::IteratorSpec;
use crate::laws::edges::lemma_with_edge_wf;
use crate::laws::instructions::lemma_with_instruction_wf;
use crate::laws::lookup::lemma_first_index_from;
use crate::model::{first_index, first_index_from, BlockView};
use crate::types::BlockType;

verus! {

broadcast use vstd::std_specs::hash::group_hash_axioms;

/// A run of instructions with one entry point, together with the edges that
/// leave it. Each edge names its target block by index and counts how often
/// it was taken.
pub struct BasicBlock {
    /// The starting address of this block.
    start: usize,
    /// The address of the instruction recorded last.
    end: usize,
    /// The recorded instructions, by address.
    block: HashMap<usize, BlockType>,
    /// The outgoing edges: target block index and traversal count.
    edges: Vec<(usize, usize)>,
}

impl View for BasicBlock {
    type V = BlockView;

    closed spec fn view(&self) -> BlockView {
        BlockView {
            start: self.start,
            end: self.end,
            instructions: self.block@,
            edges: Seq::new(
                self.edges@.len(),
                |i: int| (self.edges@[i].0 as nat, self.edges@[i].1 as nat),
            ),
        }
    }
}

impl BasicBlock {
    /// An empty block that begins at `start`.
    pub fn new(start: usize) -> (block: Self)
        ensures
            block@ == BlockView::fresh(start),
            block@.wf(),
    {
        let block = BasicBlock { start, end: start, block: HashMap::new(), edges: Vec::new() };
        assert(block@.edges =~= Seq::empty());
        block
    }

    /// The address at which the block begins.
    pub fn start(&self) -> (start: usize)
        ensures
            start == self@.start,
    {
        self.start
    }

    /// The address of the instruction recorded last, or the start address
    /// while none is recorded.
    pub fn end(&self) -> (end: usize)
        ensures
            end == self@.end,
    {
        self.end
    }

    /// The recorded instructions with their addresses, each exactly once, in
    /// no particular order.
    pub fn instructions(&self) -> (iter: std::collections::hash_map::Iter<'_, usize, BlockType>)
        ensures
            iter.decrease() is Some,
            iter.initial_value_relation(&iter),
            iter.remaining().no_duplicates(),
            iter.remaining().len() == self@.instructions.len(),
            forall|i: int|
                0 <= i < iter.remaining().len() ==> self@.instructions.contains_pair(
                    *(#[trigger] iter.remaining()[i]).0,
                    *iter.remaining()[i].1,
                ),
            forall|a: usize| #[trigger]
                self@.instructions.contains_key(a) ==> iter.remaining().contains(
                    (&a, &self@.instructions[a]),
                ),
    {
        self.block.iter()
    }

    /// The outgoing edges in the order of their first observation: the
    /// index of the target block and the number of times the edge was taken.
    pub fn edges(&self) -> (iter: core::slice::Iter<'_, (usize, usize)>)
        ensures
            iter.decrease() is Some,
            iter.initial_value_relation(&iter),
            iter.remaining().len() == self@.edges.len(),
            forall|i: int|
                0 <= i < iter.remaining().len() ==> (#[trigger] iter.remaining()[i]).0
                    == self@.edges[i].0 && iter.remaining()[i].1 == self@.edges[i].1,
    {
        self.edges.iter()
    }

    /// Records `instruction` at `address`. Where the address already holds an
    /// instruction nothing changes; else the instruction is entered and
    /// `end` moves to `address`.
    pub fn add_instruction(&mut self, address: usize, instruction: BlockType)
        ensures
            final(self)@ == old(self)@.with_instruction(address, instruction),
            old(self)@.wf() && old(self)@.start <= address ==> final(self)@.wf(),
    {
        proof {
            if self@.wf() && self@.start <= address {
                lemma_with_instruction_wf(self@, address, instruction);
            }
        }
        if !self.block.contains_key(&address) {
            self.block.insert(address, instruction);
            self.end = address;
        }
    }

    /// Targets and counts of a block's edges are machine integers, so no
    /// edge leads to an index beyond them.
    pub proof fn lemma_edges_fit(&self)
        ensures
            forall|i: int|
                0 <= i < self@.edges.len() ==> (#[trigger] self@.edges[i]).0 <= usize::MAX
                    && self@.edges[i].1 <= usize::MAX,
            forall|target: nat| target > usize::MAX ==> #[trigger] self@.traversals(target) == 0,
    {
        assert forall|target: nat| target > usize::MAX implies #[trigger] self@.traversals(target)
            == 0 by {
            lemma_first_index_from(self@.targets(), target, 0);
        }
    }

    /// The position of the first edge to `target`, or the number of edges
    /// where there is none.
    fn find_edge(&self, target: usize) -> (slot: usize)
        ensures
            slot == self@.edge_slot(target as nat),
            slot <= self@.edges.len(),
            self@.edges.len() == self.edges@.len(),
            slot < self@.edges.len() ==> self.edges@[slot as int].0 == target
                && self.edges@[slot as int].1 == self@.edges[slot as int].1,
    {
        let ghost targets = self@.targets();
        let mut i: usize = 0;
        while i < self.edges.len()
            invariant
                targets == self@.targets(),
                0 <= i <= self.edges.len(),
                self.edges.len() == targets.len(),
                first_index(targets, target as nat) == first_index_from(
                    targets,
                    target as nat,
                    i as nat,
                ),
            decreases self.edges.len() - i,
        {
            if self.edges[i].0 == target {
                return i;
            }
            i += 1;
        }
        i
    }

    /// How often the edge to the block with index `target` was taken; 0
    /// where no such edge is recorded.
    pub fn traversals(&self, target: usize) -> (count: usize)
        ensures
            count == self@.traversals(target as nat),
    {
        let slot = self.find_edge(target);
        if slot < self.edges.len() {
            self.edges[slot].1
        } else {
            0
        }
    }

    /// Observes an edge to the block with index `edge`. A known edge gains
    /// one traversal where `traversed` holds and stays as it is where not;
    /// an unknown edge is appended with a count of one or zero.
    pub fn add_edge(&mut self, edge: usize, traversed: bool)
        requires
            traversed ==> old(self)@.traversals(edge as nat) < usize::MAX,
        ensures
            final(self)@ == old(self)@.with_edge(edge as nat, traversed),
            old(self)@.wf() ==> final(self)@.wf(),
    {
        proof {
            if self@.wf() {
                lemma_with_edge_wf(self@, edge as nat, traversed);
            }
        }
        let step: usize = if traversed {
            1
        } else {
            0
        };
        let slot = self.find_edge(edge);
        if slot < self.edges.len() {
            let count = self.edges[slot].1;
            self.edges[slot] = (edge, count + step);
        } else {
            self.edges.push((edge, step));
        }
        assert(self@.edges =~= old(self)@.with_edge(edge as nat, traversed).edges);
    }
}

} // verus!
