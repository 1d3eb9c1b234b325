use vstd::prelude::*;
use vstd::string::*;

use crate::register::{register_name, Register};
use crate::text::{decimal, push_decimal};

verus! {

/// A zero-based byte offset into the instruction stream.
#[derive(Debug, Clone, Copy, PartialEq, Eq, Structural)]
pub struct Address(pub u16);

/// A memory operand: up to two base registers and a displacement.
#[derive(Debug, Clone, Copy, PartialEq, Eq)]
pub struct Memory {
    pub displacement: Displacement,
    pub registers: [Option<Register>; 2],
}

/// The displacement of a memory operand, as encoded.
#[derive(Debug, Clone, Copy, PartialEq, Eq, Structural)]
pub enum Displacement {
    /// A signed 8-bit displacement.
    Disp8(u8),
    /// A signed 16-bit displacement, or a direct address when there is no base register.
    Disp16(u16),
    /// No displacement.
    Disp0,
}

/// A byte read as a two's-complement signed value.
pub open spec fn signed8(b: u8) -> int {
    if b < 128 {
        b as int
    } else {
        b as int - 256
    }
}

/// A word read as a two's-complement signed value.
pub open spec fn signed16(w: u16) -> int {
    if w < 32768 {
        w as int
    } else {
        w as int - 65536
    }
}

/// The magnitude of `i`.
pub open spec fn abs(i: int) -> nat {
    if i < 0 {
        (-i) as nat
    } else {
        i as nat
    }
}

/// The text of a signed displacement after the base registers: its sign, then
/// its magnitude.
pub open spec fn displacement_text(v: int) -> Seq<char> {
    (if v >= 0 {
        " + "@
    } else {
        " - "@
    }) + decimal(abs(v))
}

/// The text between the brackets of a memory operand.
pub open spec fn memory_inner_text(m: Memory) -> Seq<char> {
    let first = match m.registers[0] {
        Some(r) => register_name(r),
        None => Seq::empty(),
    };
    let second = match m.registers[1] {
        Some(r) => (if m.registers[0] is Some {
            " + "@
        } else {
            Seq::empty()
        }) + register_name(r),
        None => Seq::empty(),
    };
    let has_register = m.registers[0] is Some || m.registers[1] is Some;
    let disp = match m.displacement {
        Displacement::Disp8(d) => if has_register {
            displacement_text(signed8(d))
        } else {
            decimal(d as nat)
        },
        Displacement::Disp16(d) => if has_register {
            displacement_text(signed16(d))
        } else {
            decimal(d as nat)
        },
        Displacement::Disp0 => Seq::empty(),
    };
    first + second + disp
}

/// The assembler text of a memory operand, such as `[bx + si - 4]`; a direct
/// address, with no base register, is written unsigned, such as `[65535]`.
pub open spec fn memory_text(m: Memory) -> Seq<char> {
    "["@ + memory_inner_text(m) + "]"@
}

fn push_displacement(s: &mut String, v: i32)
    requires
        -65536 < v < 65536,
    ensures
        final(s)@ == old(s)@ + displacement_text(v as int),
{
    if v >= 0 {
        s.append(" + ");
    } else {
        s.append(" - ");
    }
    let magnitude: usize = if v < 0 {
        (-v) as usize
    } else {
        v as usize
    };
    push_decimal(s, magnitude);
    assert(final(s)@ =~= old(s)@ + displacement_text(v as int));
}

impl Memory {
    /// Renders this operand in assembler syntax.
    pub fn to_text(&self) -> (s: String)
        ensures
            s@ == memory_text(*self),
    {
        let mut s = String::new();
        s.append("[");
        let ghost start = s@;
        let mut has_register = false;
        if let Some(reg) = &self.registers[0] {
            s.append(reg.name());
            has_register = true;
        }
        if let Some(reg) = &self.registers[1] {
            if has_register {
                s.append(" + ");
            }
            s.append(reg.name());
            has_register = true;
        }
        match self.displacement {
            Displacement::Disp8(d) => {
                if has_register {
                    let v = d as i8;
                    assert(v as int == signed8(d)) by (bit_vector)
                        requires
                            v == d as i8,
                    ;
                    push_displacement(&mut s, v as i32);
                } else {
                    push_decimal(&mut s, d as usize);
                }
            },
            Displacement::Disp16(d) => {
                if has_register {
                    let v = d as i16;
                    assert(v as int == signed16(d)) by (bit_vector)
                        requires
                            v == d as i16,
                    ;
                    push_displacement(&mut s, v as i32);
                } else {
                    push_decimal(&mut s, d as usize);
                }
            },
            Displacement::Disp0 => {},
        }
        s.append("]");
        assert(s@ =~= memory_text(*self));
        s
    }
}

} // verus!
