//! The instruction records that are fed to the graph and the errors it reports.

use vstd::prelude::*;
use vstd::string::StringExecFns;
use crate::text::{append_decimal, decimal};

verus! {

/// How a jump instruction behaved in the traced run.
#[derive(Clone, Copy, Debug, PartialEq, Eq, Structural)]
pub enum JumpType {
    /// The jump always transfers control to its success address.
    UnconditionalJump,
    /// A conditional jump whose condition held: the run went on at the success address.
    ConditionalTaken,
    /// A conditional jump whose condition failed: the run went on at the failure address.
    ConditionalNotTaken,
}

/// One decoded instruction.
pub enum BlockType {
    /// A non-branching instruction: its mnemonic and, where it has one, its operand.
    Instruction(String, Option<String>),
    /// A control transfer: mnemonic, success address, behaviour, and the
    /// failure (fall-through) address, which a conditional jump must carry.
    Jump(String, usize, JumpType, Option<usize>),
}

/// What can go wrong while feeding an instruction to the graph.
#[derive(Debug, PartialEq, Eq, Structural)]
pub enum CFGError {
    /// An edge was to be added to a block that the graph does not hold.
    MissingBlock,
    /// The cursor does not point at a block of the graph.
    MissingCurrentBlock,
    /// A conditional jump came without a failure address.
    ExpectedFailureAddress,
}

impl BlockType {
    /// Whether this is a conditional jump that lacks its failure address.
    pub open spec fn lacks_failure_address(self) -> bool {
        self matches BlockType::Jump(_, _, kind, failure) && kind != JumpType::UnconditionalJump
            && failure is None
    }

    /// Whether this is a jump that names every address it needs.
    pub open spec fn transfers(self) -> bool {
        self is Jump && !self.lacks_failure_address()
    }

    /// The address at which the traced run continued after a jump that
    /// [`transfers`](Self::transfers).
    pub open spec fn landing(self) -> usize {
        match self {
            BlockType::Jump(_, success, JumpType::ConditionalNotTaken, Some(failure)) => failure,
            BlockType::Jump(_, success, _, _) => success,
            BlockType::Instruction(_, _) => 0,
        }
    }

    /// How the instruction reads: the mnemonic, a space, and then the
    /// operand, or nothing where there is none, or for a jump the success
    /// address in decimal notation.
    pub open spec fn text(self) -> Seq<char> {
        match self {
            BlockType::Instruction(name, Some(operand)) => name@ + seq![' '] + operand@,
            BlockType::Instruction(name, None) => name@ + seq![' '],
            BlockType::Jump(name, success, _, _) => name@ + seq![' '] + decimal(success as nat),
        }
    }

    /// Renders the instruction as text.
    pub fn to_string(&self) -> (text: String)
        ensures
            text@ == self.text(),
    {
        proof {
            reveal_strlit(" ");
        }
        match self {
            BlockType::Instruction(name, operand) => {
                let mut text = name.clone();
                text.append(" ");
                match operand {
                    Some(operand) => {
                        text.append(operand.as_str());
                    },
                    None => {},
                }
                text
            },
            BlockType::Jump(name, success_address, _, _) => {
                let mut text = name.clone();
                text.append(" ");
                append_decimal(&mut text, *success_address);
                text
            },
        }
    }
}

impl CFGError {
    /// What the error says.
    pub open spec fn message(self) -> Seq<char> {
        match self {
            CFGError::MissingBlock => {
                "There was an attempt to find a BasicBlock which doesn't exist."@
            },
            CFGError::MissingCurrentBlock => {
                "The current block does not exist inside the BasicBlocks."@
            },
            CFGError::ExpectedFailureAddress => {
                "A failure address was expected for a conditional jump and it was not provided."@
            },
        }
    }

    /// Renders the error as text.
    pub fn to_string(&self) -> (text: String)
        ensures
            text@ == self.message(),
    {
        match self {
            CFGError::MissingBlock => {
                "There was an attempt to find a BasicBlock which doesn't exist.".to_owned()
            },
            CFGError::MissingCurrentBlock => {
                "The current block does not exist inside the BasicBlocks.".to_owned()
            },
            CFGError::ExpectedFailureAddress => {
                "A failure address was expected for a conditional jump and it was not provided."
                    .to_owned()
            },
        }
    }
}

} // verus!
