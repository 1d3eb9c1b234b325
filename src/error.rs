use vstd::prelude::*;

use crate::memory::Address;

verus! {

/// Why the decoder could not produce an instruction.
#[derive(Debug, Clone, Copy, PartialEq, Eq, Structural)]
pub enum Error {
    /// The leading byte (or its instruction selector) names no known instruction;
    /// carries the leading byte and its address.
    UnknownInstruction(u8, Address),
    /// A byte was needed but the instruction stream had ended.
    EndOfInstructionStream(),
}

} // verus!
