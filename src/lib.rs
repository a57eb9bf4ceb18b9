//! A stack-based bytecode virtual machine: container validation, an operand
//! stack with activation frames, and a verified fetch-decode-execute core.

pub mod bytecode;
pub mod calls;
pub mod cursor;
pub mod laws;
pub mod opcode;
pub mod runtime;
pub mod semantics;
pub mod stack;
pub mod status;

use vstd::prelude::*;

verus! {

/// The virtual machine as its host sees it.
#[derive(Clone, Copy, Debug, PartialEq, Eq, Structural)]
pub struct ChesVM {}

impl ChesVM {
    pub fn new() -> (r: ChesVM)
        ensures
            r == (ChesVM {}),
    {
        ChesVM {}
    }
}

} // verus!
