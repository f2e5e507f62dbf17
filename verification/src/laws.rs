//! What holds of the model's operations.
//!
//! [`lookup`] is about finding first occurrences; [`edges`] and
//! [`instructions`] are about single blocks; [`linking`] is about the parts
//! of which a step is made; [`steps`] is about whole steps of a graph: that
//! they keep the invariant and forget nothing, where they leave the cursor,
//! and what feeding an instruction again does.

pub mod edges;
pub mod instructions;
pub mod linking;
pub mod lookup;
pub mod steps;
