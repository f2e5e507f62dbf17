//! Trace-driven construction of a control-flow graph.
//!
//! A [`ControlFlowGraph`] is fed decoded instructions one at a time, in the
//! order in which a traced run executed them. Straight-line instructions are
//! appended to the block under the cursor; a jump closes that block, records
//! edges to its possible successors together with how often each one was
//! actually taken, and moves the cursor to the block where the run continued.
//!
//! * [`types`] holds the instruction records and the errors.
//! * [`block`] and [`graph`] hold the executable types, [`BasicBlock`] and
//!   [`ControlFlowGraph`].
//! * [`model`] holds their mathematical model; the contract of every
//!   executable function says which function of the model it computes.
//! * [`laws`] holds what is proved of the model: that every step keeps the
//!   invariants and forgets nothing, that the cursor follows the control
//!   flow, that edges are never duplicated and their counts add up, where
//!   the end of a block comes to lie, and what feeding an instruction again
//!   does.
//! * [`text`] renders addresses in decimal notation.

pub mod block;
pub mod graph;
pub mod laws;
pub mod model;
pub mod text;
pub mod types;

pub use crate::block::BasicBlock;
pub use crate::graph::ControlFlowGraph;
pub use crate::types::{BlockType, CFGError, JumpType};
