use vstd::prelude::*;
use vstd::string::*;

use crate::decode::CountingPeekable;
use crate::error::Error;
use crate::memory::{memory_text, Displacement, Memory};
use crate::register::{base_registers, reg_of_code, register_name, Register};
use crate::text::{decimal, push_decimal};

verus! {

/// An instruction operand.
#[derive(Debug, Clone, Copy, PartialEq, Eq)]
pub enum Operand {
    Register(Register),
    Memory(Memory),
    Immediate8(u8),
    Immediate16(u16),
}

/// The little-endian word made of `lo` and `hi`.
pub open spec fn le_word(lo: u8, hi: u8) -> u16 {
    (hi as int * 256 + lo as int) as u16
}

/// How many displacement bytes follow an addressing byte.
pub open spec fn displacement_len(mod_rm: u8) -> int {
    let mode = mod_rm / 64;
    if mode == 0 {
        if mod_rm % 8 == 6 {
            2
        } else {
            0
        }
    } else if mode == 1 {
        1
    } else if mode == 2 {
        2
    } else {
        0
    }
}

/// The register-or-memory operand that addressing byte `mod_rm` selects, with
/// its displacement bytes (if any) starting at position `p` of `b`.
pub open spec fn rm_operand(w: u8, mod_rm: u8, b: Seq<u8>, p: int) -> Operand {
    let mode = mod_rm / 64;
    if mode == 3 {
        Operand::Register(reg_of_code(mod_rm % 8, w))
    } else {
        let displacement = if mode == 1 {
            Displacement::Disp8(b[p])
        } else if mode == 2 || mod_rm % 8 == 6 {
            Displacement::Disp16(le_word(b[p], b[p + 1]))
        } else {
            Displacement::Disp0
        };
        Operand::Memory(Memory { displacement, registers: base_registers(mod_rm) })
    }
}

/// The register operand named by bits 3 to 5 of an addressing byte.
pub open spec fn reg_operand(w: u8, mod_reg_rm: u8) -> Operand {
    Operand::Register(reg_of_code((mod_reg_rm / 8) % 8, w))
}

/// The assembler text of an operand.
pub open spec fn operand_text(op: Operand) -> Seq<char> {
    match op {
        Operand::Register(r) => register_name(r),
        Operand::Memory(m) => memory_text(m),
        Operand::Immediate8(v) => "byte "@ + decimal(v as nat),
        Operand::Immediate16(v) => "word "@ + decimal(v as nat),
    }
}

/// `new` is `old` moved on by `n` bytes, each of them counted.
pub open spec fn consumed(old: CountingPeekable, new: CountingPeekable, n: int) -> bool {
    &&& new.wf()
    &&& new.image() == old.image()
    &&& new.position() == old.position() + n
    &&& new.count() == old.count() + n
}

/// Reads a little-endian word from the next two bytes.
pub fn read_word(bytes: &mut CountingPeekable) -> (r: Result<u16, Error>)
    requires
        old(bytes).wf(),
    ensures
        final(bytes).wf(),
        final(bytes).image() == old(bytes).image(),
        old(bytes).position() + 2 <= old(bytes).image().len() ==> {
            &&& r == Ok::<u16, Error>(
                le_word(
                    old(bytes).image()[old(bytes).position()],
                    old(bytes).image()[old(bytes).position() + 1],
                ),
            )
            &&& consumed(*old(bytes), *final(bytes), 2)
        },
        old(bytes).position() + 2 > old(bytes).image().len() ==> r == Err::<u16, Error>(
            Error::EndOfInstructionStream(),
        ),
{
    let (_, lo) = bytes.try_next()?;
    let (_, hi) = bytes.try_next()?;
    Ok((hi as u16) * 256 + lo as u16)
}

/// The pair `[destination, source]` of a register-to-either form: the
/// register-or-memory operand is the destination when the direction bit is 0.
pub open spec fn ordered(d: u8, reg: Operand, rm: Operand) -> [Operand; 2] {
    if d == 0 {
        [rm, reg]
    } else {
        [reg, rm]
    }
}

/// The immediate of width `w` at position `q` of `b`.
pub open spec fn immediate_at(w: u8, b: Seq<u8>, q: int) -> Operand {
    if w == 0 {
        Operand::Immediate8(b[q])
    } else {
        Operand::Immediate16(le_word(b[q], b[q + 1]))
    }
}

impl Operand {
    /// Reads an addressing byte and then an immediate of width `w`: the pair
    /// `[register-or-memory, immediate]` of a move-immediate form.
    pub fn immediate(w: u8, bytes: &mut CountingPeekable) -> (r: Result<[Operand; 2], Error>)
        requires
            w < 2,
            old(bytes).wf(),
        ensures
            final(bytes).wf(),
            final(bytes).image() == old(bytes).image(),
            ({
                let b = old(bytes).image();
                let p = old(bytes).position();
                let n = if p < b.len() {
                    displacement_len(b[p])
                } else {
                    0
                };
                let total = 1 + n + 1 + w;
                if p + total <= b.len() {
                    &&& r == Ok::<[Operand; 2], Error>(
                        [rm_operand(w, b[p], b, p + 1), immediate_at(w, b, p + 1 + n)],
                    )
                    &&& consumed(*old(bytes), *final(bytes), total)
                } else {
                    r == Err::<[Operand; 2], Error>(Error::EndOfInstructionStream())
                }
            }),
    {
        let (_, mod_rm) = bytes.try_next()?;
        let op_rm = Operand::from_mod_rm(w, mod_rm, bytes)?;
        if w == 0 {
            let (_, data) = bytes.try_next()?;
            Ok([op_rm, Operand::Immediate8(data)])
        } else {
            let data = read_word(bytes)?;
            Ok([op_rm, Operand::Immediate16(data)])
        }
    }

    /// Decodes the register-or-memory operand that addressing byte `mod_rm`
    /// selects under width bit `w`, reading its displacement bytes.
    pub fn from_mod_rm(w: u8, mod_rm: u8, bytes: &mut CountingPeekable) -> (r: Result<Operand, Error>)
        requires
            w < 2,
            old(bytes).wf(),
        ensures
            final(bytes).wf(),
            final(bytes).image() == old(bytes).image(),
            ({
                let b = old(bytes).image();
                let p = old(bytes).position();
                let n = displacement_len(mod_rm);
                if p + n <= b.len() {
                    &&& r == Ok::<Operand, Error>(rm_operand(w, mod_rm, b, p))
                    &&& consumed(*old(bytes), *final(bytes), n)
                } else {
                    r == Err::<Operand, Error>(Error::EndOfInstructionStream())
                }
            }),
    {
        let mode = mod_rm >> 6;
        let code = mod_rm & 0b111;
        assert(mode == mod_rm / 64 && code == mod_rm % 8 && mode < 4) by (bit_vector)
            requires
                mode == mod_rm >> 6,
                code == mod_rm & 0b111,
        ;
        if mode == 3 {
            return Ok(Operand::Register(Register::decode_reg(code, w)));
        }
        let registers = Register::effective_address_calculation(mod_rm);
        let displacement = if mode == 1 {
            let (_, byte1) = bytes.try_next()?;
            Displacement::Disp8(byte1)
        } else if mode == 2 || code == 6 {
            Displacement::Disp16(read_word(bytes)?)
        } else {
            Displacement::Disp0
        };
        Ok(Operand::Memory(Memory { displacement, registers }))
    }

    /// Reads an addressing byte and decodes both of its operands: the register
    /// of bits 3 to 5 and the register-or-memory operand, ordered
    /// `[destination, source]` by the direction bit `d`.
    pub fn from_mod_reg_rm(d: u8, w: u8, bytes: &mut CountingPeekable) -> (r: Result<[Operand; 2], Error>)
        requires
            w < 2,
            old(bytes).wf(),
        ensures
            final(bytes).wf(),
            final(bytes).image() == old(bytes).image(),
            ({
                let b = old(bytes).image();
                let p = old(bytes).position();
                let n = if p < b.len() {
                    displacement_len(b[p])
                } else {
                    0
                };
                if p + 1 + n <= b.len() {
                    &&& r == Ok::<[Operand; 2], Error>(
                        ordered(d, reg_operand(w, b[p]), rm_operand(w, b[p], b, p + 1)),
                    )
                    &&& consumed(*old(bytes), *final(bytes), 1 + n)
                } else {
                    r == Err::<[Operand; 2], Error>(Error::EndOfInstructionStream())
                }
            }),
    {
        let (_, mod_reg_rm) = bytes.try_next()?;
        let reg = (mod_reg_rm & 0b0011_1000) >> 3;
        assert(reg == (mod_reg_rm / 8) % 8 && reg < 8) by (bit_vector)
            requires
                reg == (mod_reg_rm & 0b0011_1000) >> 3,
        ;
        let op_reg = Operand::Register(Register::decode_reg(reg, w));
        let op_rm = Operand::from_mod_rm(w, mod_reg_rm, bytes)?;
        if d == 0 {
            Ok([op_rm, op_reg])
        } else {
            Ok([op_reg, op_rm])
        }
    }

    /// Renders this operand in assembler syntax.
    pub fn to_text(&self) -> (s: String)
        ensures
            s@ == operand_text(*self),
    {
        match self {
            Operand::Register(reg) => String::from_str(reg.name()),
            Operand::Memory(mem) => mem.to_text(),
            Operand::Immediate8(v) => {
                let mut s = String::from_str("byte ");
                push_decimal(&mut s, *v as usize);
                s
            },
            Operand::Immediate16(v) => {
                let mut s = String::from_str("word ");
                push_decimal(&mut s, *v as usize);
                s
            },
        }
    }
}

} // verus!
