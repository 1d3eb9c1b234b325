use vstd::prelude::*;
use vstd::string::*;

use crate::operand::{operand_text, Operand};
use crate::text::{push_signed_decimal, signed_decimal};

verus! {

/// A decoded instruction. Each carries its encoded size in bytes; the
/// conditional branches and loops carry their signed displacement, measured
/// from the address just after the instruction.
#[derive(Debug, Clone, Copy, PartialEq, Eq)]
pub enum Instruction {
    Mov { sz: u8, dst: Operand, src: Operand },
    Add { sz: u8, dst: Operand, src: Operand },
    Sub { sz: u8, dst: Operand, src: Operand },
    Cmp { sz: u8, dst: Operand, src: Operand },
    Je { sz: u8, ip_increment: i8 },
    Jl { sz: u8, ip_increment: i8 },
    Jle { sz: u8, ip_increment: i8 },
    Jb { sz: u8, ip_increment: i8 },
    Jbe { sz: u8, ip_increment: i8 },
    Jp { sz: u8, ip_increment: i8 },
    Jo { sz: u8, ip_increment: i8 },
    Js { sz: u8, ip_increment: i8 },
    Jne { sz: u8, ip_increment: i8 },
    Jnl { sz: u8, ip_increment: i8 },
    Jnle { sz: u8, ip_increment: i8 },
    Jnb { sz: u8, ip_increment: i8 },
    Jnbe { sz: u8, ip_increment: i8 },
    Jnp { sz: u8, ip_increment: i8 },
    Jno { sz: u8, ip_increment: i8 },
    Jns { sz: u8, ip_increment: i8 },
    Loop { sz: u8, ip_increment: i8 },
    Loopz { sz: u8, ip_increment: i8 },
    Loopnz { sz: u8, ip_increment: i8 },
    Jcxz { sz: u8, ip_increment: i8 },
}

/// A conditional branch or loop, with its displacement widened to 16 bits.
#[derive(Debug, Clone, Copy, PartialEq, Eq, Structural)]
pub enum Jump {
    Je { ip_increment: i16 },
    Jl { ip_increment: i16 },
    Jle { ip_increment: i16 },
    Jb { ip_increment: i16 },
    Jbe { ip_increment: i16 },
    Jp { ip_increment: i16 },
    Jo { ip_increment: i16 },
    Js { ip_increment: i16 },
    Jne { ip_increment: i16 },
    Jnl { ip_increment: i16 },
    Jnle { ip_increment: i16 },
    Jnb { ip_increment: i16 },
    Jnbe { ip_increment: i16 },
    Jnp { ip_increment: i16 },
    Jno { ip_increment: i16 },
    Jns { ip_increment: i16 },
    Loop { ip_increment: i16 },
    Loopz { ip_increment: i16 },
    Loopnz { ip_increment: i16 },
    Jcxz { ip_increment: i16 },
}

impl Instruction {
    /// The encoded size of this instruction in bytes.
    pub open spec fn size(&self) -> u8 {
        match *self {
            Instruction::Mov { sz, .. } => sz,
            Instruction::Add { sz, .. } => sz,
            Instruction::Sub { sz, .. } => sz,
            Instruction::Cmp { sz, .. } => sz,
            Instruction::Je { sz, .. } => sz,
            Instruction::Jl { sz, .. } => sz,
            Instruction::Jle { sz, .. } => sz,
            Instruction::Jb { sz, .. } => sz,
            Instruction::Jbe { sz, .. } => sz,
            Instruction::Jp { sz, .. } => sz,
            Instruction::Jo { sz, .. } => sz,
            Instruction::Js { sz, .. } => sz,
            Instruction::Jne { sz, .. } => sz,
            Instruction::Jnl { sz, .. } => sz,
            Instruction::Jnle { sz, .. } => sz,
            Instruction::Jnb { sz, .. } => sz,
            Instruction::Jnbe { sz, .. } => sz,
            Instruction::Jnp { sz, .. } => sz,
            Instruction::Jno { sz, .. } => sz,
            Instruction::Jns { sz, .. } => sz,
            Instruction::Loop { sz, .. } => sz,
            Instruction::Loopz { sz, .. } => sz,
            Instruction::Loopnz { sz, .. } => sz,
            Instruction::Jcxz { sz, .. } => sz,
        }
    }

    /// The branch that this instruction is, if it is one.
    pub open spec fn jump(&self) -> Option<Jump> {
        match *self {
            Instruction::Je { ip_increment, .. } => Some(Jump::Je { ip_increment: ip_increment as i16 }),
            Instruction::Jl { ip_increment, .. } => Some(Jump::Jl { ip_increment: ip_increment as i16 }),
            Instruction::Jle { ip_increment, .. } => Some(Jump::Jle { ip_increment: ip_increment as i16 }),
            Instruction::Jb { ip_increment, .. } => Some(Jump::Jb { ip_increment: ip_increment as i16 }),
            Instruction::Jbe { ip_increment, .. } => Some(Jump::Jbe { ip_increment: ip_increment as i16 }),
            Instruction::Jp { ip_increment, .. } => Some(Jump::Jp { ip_increment: ip_increment as i16 }),
            Instruction::Jo { ip_increment, .. } => Some(Jump::Jo { ip_increment: ip_increment as i16 }),
            Instruction::Js { ip_increment, .. } => Some(Jump::Js { ip_increment: ip_increment as i16 }),
            Instruction::Jne { ip_increment, .. } => Some(Jump::Jne { ip_increment: ip_increment as i16 }),
            Instruction::Jnl { ip_increment, .. } => Some(Jump::Jnl { ip_increment: ip_increment as i16 }),
            Instruction::Jnle { ip_increment, .. } => Some(Jump::Jnle { ip_increment: ip_increment as i16 }),
            Instruction::Jnb { ip_increment, .. } => Some(Jump::Jnb { ip_increment: ip_increment as i16 }),
            Instruction::Jnbe { ip_increment, .. } => Some(Jump::Jnbe { ip_increment: ip_increment as i16 }),
            Instruction::Jnp { ip_increment, .. } => Some(Jump::Jnp { ip_increment: ip_increment as i16 }),
            Instruction::Jno { ip_increment, .. } => Some(Jump::Jno { ip_increment: ip_increment as i16 }),
            Instruction::Jns { ip_increment, .. } => Some(Jump::Jns { ip_increment: ip_increment as i16 }),
            Instruction::Loop { ip_increment, .. } => Some(Jump::Loop { ip_increment: ip_increment as i16 }),
            Instruction::Loopz { ip_increment, .. } => Some(Jump::Loopz { ip_increment: ip_increment as i16 }),
            Instruction::Loopnz { ip_increment, .. } => Some(Jump::Loopnz { ip_increment: ip_increment as i16 }),
            Instruction::Jcxz { ip_increment, .. } => Some(Jump::Jcxz { ip_increment: ip_increment as i16 }),
            _ => None,
        }
    }

    /// The encoded size of this instruction in bytes.
    pub fn get_size(&self) -> (r: u8)
        ensures
            r == self.size(),
    {
        match self {
            Instruction::Mov { sz, .. } => *sz,
            Instruction::Add { sz, .. } => *sz,
            Instruction::Sub { sz, .. } => *sz,
            Instruction::Cmp { sz, .. } => *sz,
            Instruction::Je { sz, .. } => *sz,
            Instruction::Jl { sz, .. } => *sz,
            Instruction::Jle { sz, .. } => *sz,
            Instruction::Jb { sz, .. } => *sz,
            Instruction::Jbe { sz, .. } => *sz,
            Instruction::Jp { sz, .. } => *sz,
            Instruction::Jo { sz, .. } => *sz,
            Instruction::Js { sz, .. } => *sz,
            Instruction::Jne { sz, .. } => *sz,
            Instruction::Jnl { sz, .. } => *sz,
            Instruction::Jnle { sz, .. } => *sz,
            Instruction::Jnb { sz, .. } => *sz,
            Instruction::Jnbe { sz, .. } => *sz,
            Instruction::Jnp { sz, .. } => *sz,
            Instruction::Jno { sz, .. } => *sz,
            Instruction::Jns { sz, .. } => *sz,
            Instruction::Loop { sz, .. } => *sz,
            Instruction::Loopz { sz, .. } => *sz,
            Instruction::Loopnz { sz, .. } => *sz,
            Instruction::Jcxz { sz, .. } => *sz,
        }
    }

    /// The branch that this instruction is, or `None` for a move or an
    /// arithmetic instruction.
    pub fn to_jump(&self) -> (r: Option<Jump>)
        ensures
            r == self.jump(),
    {
        match self {
            Instruction::Je { ip_increment, .. } => Some(Jump::Je { ip_increment: *ip_increment as i16 }),
            Instruction::Jl { ip_increment, .. } => Some(Jump::Jl { ip_increment: *ip_increment as i16 }),
            Instruction::Jle { ip_increment, .. } => Some(Jump::Jle { ip_increment: *ip_increment as i16 }),
            Instruction::Jb { ip_increment, .. } => Some(Jump::Jb { ip_increment: *ip_increment as i16 }),
            Instruction::Jbe { ip_increment, .. } => Some(Jump::Jbe { ip_increment: *ip_increment as i16 }),
            Instruction::Jp { ip_increment, .. } => Some(Jump::Jp { ip_increment: *ip_increment as i16 }),
            Instruction::Jo { ip_increment, .. } => Some(Jump::Jo { ip_increment: *ip_increment as i16 }),
            Instruction::Js { ip_increment, .. } => Some(Jump::Js { ip_increment: *ip_increment as i16 }),
            Instruction::Jne { ip_increment, .. } => Some(Jump::Jne { ip_increment: *ip_increment as i16 }),
            Instruction::Jnl { ip_increment, .. } => Some(Jump::Jnl { ip_increment: *ip_increment as i16 }),
            Instruction::Jnle { ip_increment, .. } => Some(Jump::Jnle { ip_increment: *ip_increment as i16 }),
            Instruction::Jnb { ip_increment, .. } => Some(Jump::Jnb { ip_increment: *ip_increment as i16 }),
            Instruction::Jnbe { ip_increment, .. } => Some(Jump::Jnbe { ip_increment: *ip_increment as i16 }),
            Instruction::Jnp { ip_increment, .. } => Some(Jump::Jnp { ip_increment: *ip_increment as i16 }),
            Instruction::Jno { ip_increment, .. } => Some(Jump::Jno { ip_increment: *ip_increment as i16 }),
            Instruction::Jns { ip_increment, .. } => Some(Jump::Jns { ip_increment: *ip_increment as i16 }),
            Instruction::Loop { ip_increment, .. } => Some(Jump::Loop { ip_increment: *ip_increment as i16 }),
            Instruction::Loopz { ip_increment, .. } => Some(Jump::Loopz { ip_increment: *ip_increment as i16 }),
            Instruction::Loopnz { ip_increment, .. } => Some(Jump::Loopnz { ip_increment: *ip_increment as i16 }),
            Instruction::Jcxz { ip_increment, .. } => Some(Jump::Jcxz { ip_increment: *ip_increment as i16 }),
            _ => None,
        }
    }

    /// Renders this instruction in assembler syntax; a branch shows its target
    /// relative to its own address, as `$` plus an offset.
    pub fn to_text(&self) -> (s: String)
        ensures
            s@ == instruction_text(*self),
    {
        match self {
            Instruction::Mov { dst, src, .. } => {
                let mut s = String::from_str("mov ");
                s.append(dst.to_text().as_str());
                s.append(", ");
                s.append(src.to_text().as_str());
                s
            },
            Instruction::Add { dst, src, .. } => {
                let mut s = String::from_str("add ");
                s.append(dst.to_text().as_str());
                s.append(", ");
                s.append(src.to_text().as_str());
                s
            },
            Instruction::Sub { dst, src, .. } => {
                let mut s = String::from_str("sub ");
                s.append(dst.to_text().as_str());
                s.append(", ");
                s.append(src.to_text().as_str());
                s
            },
            Instruction::Cmp { dst, src, .. } => {
                let mut s = String::from_str("cmp ");
                s.append(dst.to_text().as_str());
                s.append(", ");
                s.append(src.to_text().as_str());
                s
            },
            _ => {
                let j = self.to_jump().unwrap();
                let mut s = String::from_str(j.mnemonic());
                s.append(" $");
                push_signed_decimal(&mut s, j.ip_increment() as i32 + self.get_size() as i32);
                s
            },
        }
    }
}

/// The mnemonic of a branch.
pub open spec fn jump_mnemonic(j: Jump) -> Seq<char> {
    match j {
        Jump::Je { .. } => "je"@,
        Jump::Jl { .. } => "jl"@,
        Jump::Jle { .. } => "jle"@,
        Jump::Jb { .. } => "jb"@,
        Jump::Jbe { .. } => "jbe"@,
        Jump::Jp { .. } => "jp"@,
        Jump::Jo { .. } => "jo"@,
        Jump::Js { .. } => "js"@,
        Jump::Jne { .. } => "jne"@,
        Jump::Jnl { .. } => "jnl"@,
        Jump::Jnle { .. } => "jnle"@,
        Jump::Jnb { .. } => "jnb"@,
        Jump::Jnbe { .. } => "jnbe"@,
        Jump::Jnp { .. } => "jnp"@,
        Jump::Jno { .. } => "jno"@,
        Jump::Jns { .. } => "jns"@,
        Jump::Loop { .. } => "loop"@,
        Jump::Loopz { .. } => "loopz"@,
        Jump::Loopnz { .. } => "loopnz"@,
        Jump::Jcxz { .. } => "jcxz"@,
    }
}

/// The assembler text of an instruction.
pub open spec fn instruction_text(i: Instruction) -> Seq<char> {
    match i {
        Instruction::Mov { dst, src, .. } => "mov "@ + operand_text(dst) + ", "@ + operand_text(src),
        Instruction::Add { dst, src, .. } => "add "@ + operand_text(dst) + ", "@ + operand_text(src),
        Instruction::Sub { dst, src, .. } => "sub "@ + operand_text(dst) + ", "@ + operand_text(src),
        Instruction::Cmp { dst, src, .. } => "cmp "@ + operand_text(dst) + ", "@ + operand_text(src),
        _ => {
            let j = i.jump().unwrap();
            jump_mnemonic(j) + " $"@ + signed_decimal(j.displacement() + i.size())
        },
    }
}

impl Jump {
    /// The signed displacement of this branch.
    pub open spec fn displacement(&self) -> int {
        match *self {
            Jump::Je { ip_increment } => ip_increment as int,
            Jump::Jl { ip_increment } => ip_increment as int,
            Jump::Jle { ip_increment } => ip_increment as int,
            Jump::Jb { ip_increment } => ip_increment as int,
            Jump::Jbe { ip_increment } => ip_increment as int,
            Jump::Jp { ip_increment } => ip_increment as int,
            Jump::Jo { ip_increment } => ip_increment as int,
            Jump::Js { ip_increment } => ip_increment as int,
            Jump::Jne { ip_increment } => ip_increment as int,
            Jump::Jnl { ip_increment } => ip_increment as int,
            Jump::Jnle { ip_increment } => ip_increment as int,
            Jump::Jnb { ip_increment } => ip_increment as int,
            Jump::Jnbe { ip_increment } => ip_increment as int,
            Jump::Jnp { ip_increment } => ip_increment as int,
            Jump::Jno { ip_increment } => ip_increment as int,
            Jump::Jns { ip_increment } => ip_increment as int,
            Jump::Loop { ip_increment } => ip_increment as int,
            Jump::Loopz { ip_increment } => ip_increment as int,
            Jump::Loopnz { ip_increment } => ip_increment as int,
            Jump::Jcxz { ip_increment } => ip_increment as int,
        }
    }

    /// The signed displacement of this branch, from the address just after it.
    pub fn ip_increment(&self) -> (r: i16)
        ensures
            r == self.displacement(),
    {
        match self {
            Jump::Je { ip_increment } => *ip_increment,
            Jump::Jl { ip_increment } => *ip_increment,
            Jump::Jle { ip_increment } => *ip_increment,
            Jump::Jb { ip_increment } => *ip_increment,
            Jump::Jbe { ip_increment } => *ip_increment,
            Jump::Jp { ip_increment } => *ip_increment,
            Jump::Jo { ip_increment } => *ip_increment,
            Jump::Js { ip_increment } => *ip_increment,
            Jump::Jne { ip_increment } => *ip_increment,
            Jump::Jnl { ip_increment } => *ip_increment,
            Jump::Jnle { ip_increment } => *ip_increment,
            Jump::Jnb { ip_increment } => *ip_increment,
            Jump::Jnbe { ip_increment } => *ip_increment,
            Jump::Jnp { ip_increment } => *ip_increment,
            Jump::Jno { ip_increment } => *ip_increment,
            Jump::Jns { ip_increment } => *ip_increment,
            Jump::Loop { ip_increment } => *ip_increment,
            Jump::Loopz { ip_increment } => *ip_increment,
            Jump::Loopnz { ip_increment } => *ip_increment,
            Jump::Jcxz { ip_increment } => *ip_increment,
        }
    }

    /// The encoded size of every branch: an opcode and a displacement byte.
    pub fn len(&self) -> (r: i16)
        ensures
            r == 2,
    {
        2
    }

    /// The mnemonic of this branch.
    pub fn mnemonic(&self) -> (s: &'static str)
        ensures
            s@ == jump_mnemonic(*self),
    {
        match self {
            Jump::Je { .. } => "je",
            Jump::Jl { .. } => "jl",
            Jump::Jle { .. } => "jle",
            Jump::Jb { .. } => "jb",
            Jump::Jbe { .. } => "jbe",
            Jump::Jp { .. } => "jp",
            Jump::Jo { .. } => "jo",
            Jump::Js { .. } => "js",
            Jump::Jne { .. } => "jne",
            Jump::Jnl { .. } => "jnl",
            Jump::Jnle { .. } => "jnle",
            Jump::Jnb { .. } => "jnb",
            Jump::Jnbe { .. } => "jnbe",
            Jump::Jnp { .. } => "jnp",
            Jump::Jno { .. } => "jno",
            Jump::Jns { .. } => "jns",
            Jump::Loop { .. } => "loop",
            Jump::Loopz { .. } => "loopz",
            Jump::Loopnz { .. } => "loopnz",
            Jump::Jcxz { .. } => "jcxz",
        }
    }
}

} // verus!
