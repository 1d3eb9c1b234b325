use vstd::prelude::*;

pub mod cpu_state;
pub mod decode;
pub mod error;
pub mod instruction;
pub mod memory;
pub mod operand;
pub mod register;
pub mod text;

verus! {

} // verus!
