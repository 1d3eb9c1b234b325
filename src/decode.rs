use vstd::prelude::*;
use vstd::string::*;

use std::collections::BTreeMap;

use crate::error::Error;
use crate::instruction::{instruction_text, jump_mnemonic, Instruction, Jump};
use crate::memory::{Address, Displacement, Memory};
use crate::operand::{
    consumed, displacement_len, immediate_at, le_word, ordered, read_word, reg_operand, rm_operand,
    Operand,
};
use crate::register::{reg_of_code, Register};
use crate::text::{decimal, push_decimal};

verus! {

/// The address of the byte at stream position `p`.
pub open spec fn address_of(p: int) -> Address {
    Address((p % 65536) as u16)
}

/// A reader over an instruction image that looks one byte ahead and counts the
/// bytes consumed since its count was last reset.
pub struct CountingPeekable<'a> {
    bytes: &'a [u8],
    pos: usize,
    counter: usize,
}

impl<'a> CountingPeekable<'a> {
    /// The whole image being read.
    pub closed spec fn image(&self) -> Seq<u8> {
        self.bytes@
    }

    /// The position of the next byte to be read.
    pub closed spec fn position(&self) -> int {
        self.pos as int
    }

    /// The number of bytes consumed since the last reset.
    pub closed spec fn count(&self) -> int {
        self.counter as int
    }

    /// The count never exceeds the position, which never passes the end.
    pub open spec fn wf(&self) -> bool {
        0 <= self.count() <= self.position() <= self.image().len()
    }

    /// A reader positioned at `start`, with its count at zero.
    pub fn new(bytes: &'a [u8], start: usize) -> (r: Self)
        requires
            start <= bytes@.len(),
        ensures
            r.wf(),
            r.image() == bytes@,
            r.position() == start,
            r.count() == 0,
    {
        CountingPeekable { bytes, pos: start, counter: 0 }
    }

    /// The next byte and its address, without consuming it.
    pub fn peek(&self) -> (r: Option<(Address, u8)>)
        requires
            self.wf(),
        ensures
            self.position() < self.image().len() ==> r == Some(
                (address_of(self.position()), self.image()[self.position()]),
            ),
            self.position() >= self.image().len() ==> r is None,
    {
        if self.pos < self.bytes.len() {
            Some((Address((self.pos % 65536) as u16), self.bytes[self.pos]))
        } else {
            None
        }
    }

    /// The number of bytes consumed since the last reset.
    pub fn get_count(&self) -> (r: usize)
        ensures
            r == self.count(),
    {
        self.counter
    }

    /// Starts a new count at zero.
    pub fn reset_count(&mut self)
        requires
            old(self).wf(),
        ensures
            final(self).wf(),
            final(self).image() == old(self).image(),
            final(self).position() == old(self).position(),
            final(self).count() == 0,
    {
        self.counter = 0;
    }

    /// Consumes the next byte, or fails with `EndOfInstructionStream` at the
    /// end of the image.
    pub fn try_next(&mut self) -> (r: Result<(Address, u8), Error>)
        requires
            old(self).wf(),
        ensures
            final(self).wf(),
            final(self).image() == old(self).image(),
            old(self).position() < old(self).image().len() ==> {
                &&& r == Ok::<(Address, u8), Error>(
                    (address_of(old(self).position()), old(self).image()[old(self).position()]),
                )
                &&& final(self).position() == old(self).position() + 1
                &&& final(self).count() == old(self).count() + 1
            },
            old(self).position() >= old(self).image().len() ==> {
                &&& r == Err::<(Address, u8), Error>(Error::EndOfInstructionStream())
                &&& *final(self) == *old(self)
            },
    {
        if self.pos < self.bytes.len() {
            let item = (Address((self.pos % 65536) as u16), self.bytes[self.pos]);
            self.pos = self.pos + 1;
            self.counter = self.counter + 1;
            Ok(item)
        } else {
            Err(Error::EndOfInstructionStream())
        }
    }
}

/// A source of address-tagged bytes that fails, rather than returning `None`,
/// when a byte is needed and none is left.
pub trait AddressByteIteratorExt {
    fn try_next(&mut self) -> Result<(Address, u8), Error>;
}

impl<'a> AddressByteIteratorExt for CountingPeekable<'a> {
    /// As the inherent `try_next`; a reader is always well formed, which the
    /// body checks again since a trait method cannot require it.
    fn try_next(&mut self) -> (r: Result<(Address, u8), Error>)
        ensures
            old(self).wf() && old(self).position() < old(self).image().len() ==> {
                &&& r == Ok::<(Address, u8), Error>(
                    (address_of(old(self).position()), old(self).image()[old(self).position()]),
                )
                &&& consumed(*old(self), *final(self), 1)
            },
            old(self).position() >= old(self).image().len() ==> r == Err::<(Address, u8), Error>(
                Error::EndOfInstructionStream(),
            ),
    {
        if self.counter <= self.pos && self.pos < self.bytes.len() {
            CountingPeekable::try_next(self)
        } else {
            Err(Error::EndOfInstructionStream())
        }
    }
}

/// The four two-operand operations.
#[derive(Debug, Clone, Copy, PartialEq, Eq, Structural)]
pub enum Operation {
    Mov,
    Add,
    Sub,
    Cmp,
}

/// The instruction performing `operation` on `dst` and `src`.
pub open spec fn binop_spec(operation: Operation, sz: u8, dst: Operand, src: Operand) -> Instruction {
    match operation {
        Operation::Mov => Instruction::Mov { sz, dst, src },
        Operation::Add => Instruction::Add { sz, dst, src },
        Operation::Sub => Instruction::Sub { sz, dst, src },
        Operation::Cmp => Instruction::Cmp { sz, dst, src },
    }
}

/// Whether `op` is the opcode of one of the short conditional branches or loops.
pub open spec fn is_jump_opcode(op: u8) -> bool {
    op == 0x74
        || op == 0x7C
        || op == 0x7E
        || op == 0x72
        || op == 0x76
        || op == 0x7A
        || op == 0x70
        || op == 0x78
        || op == 0x75
        || op == 0x7D
        || op == 0x7F
        || op == 0x73
        || op == 0x77
        || op == 0x7B
        || op == 0x71
        || op == 0x79
        || op == 0xE2
        || op == 0xE1
        || op == 0xE0
        || op == 0xE3
}

/// The branch of opcode `op` with displacement `inc`; its size is always 2.
pub open spec fn jump_spec(op: u8, inc: i8) -> Instruction {
    if op == 0x74 {
        Instruction::Je { sz: 2, ip_increment: inc }
    } else if op == 0x7C {
        Instruction::Jl { sz: 2, ip_increment: inc }
    } else if op == 0x7E {
        Instruction::Jle { sz: 2, ip_increment: inc }
    } else if op == 0x72 {
        Instruction::Jb { sz: 2, ip_increment: inc }
    } else if op == 0x76 {
        Instruction::Jbe { sz: 2, ip_increment: inc }
    } else if op == 0x7A {
        Instruction::Jp { sz: 2, ip_increment: inc }
    } else if op == 0x70 {
        Instruction::Jo { sz: 2, ip_increment: inc }
    } else if op == 0x78 {
        Instruction::Js { sz: 2, ip_increment: inc }
    } else if op == 0x75 {
        Instruction::Jne { sz: 2, ip_increment: inc }
    } else if op == 0x7D {
        Instruction::Jnl { sz: 2, ip_increment: inc }
    } else if op == 0x7F {
        Instruction::Jnle { sz: 2, ip_increment: inc }
    } else if op == 0x73 {
        Instruction::Jnb { sz: 2, ip_increment: inc }
    } else if op == 0x77 {
        Instruction::Jnbe { sz: 2, ip_increment: inc }
    } else if op == 0x7B {
        Instruction::Jnp { sz: 2, ip_increment: inc }
    } else if op == 0x71 {
        Instruction::Jno { sz: 2, ip_increment: inc }
    } else if op == 0x79 {
        Instruction::Jns { sz: 2, ip_increment: inc }
    } else if op == 0xE2 {
        Instruction::Loop { sz: 2, ip_increment: inc }
    } else if op == 0xE1 {
        Instruction::Loopz { sz: 2, ip_increment: inc }
    } else if op == 0xE0 {
        Instruction::Loopnz { sz: 2, ip_increment: inc }
    } else {
        Instruction::Jcxz { sz: 2, ip_increment: inc }
    }
}

/// The outcome when `total` bytes from position `p` are needed and `ok` is the
/// instruction they make.
pub open spec fn needs(b: Seq<u8>, p: int, total: int, ok: Instruction) -> Result<Instruction, Error> {
    if p + total <= b.len() {
        Ok(ok)
    } else {
        Err(Error::EndOfInstructionStream())
    }
}

/// A move or arithmetic instruction between a register and a register-or-memory
/// operand: opcode (direction bit 1, width bit 0), addressing byte, displacement.
pub open spec fn register_to_either_spec(operation: Operation, b: Seq<u8>, p: int) -> Result<Instruction, Error> {
    let op = b[p];
    if p + 2 > b.len() {
        Err(Error::EndOfInstructionStream())
    } else {
        let m = b[p + 1];
        let n = displacement_len(m);
        let pair = ordered((op / 2) % 2, reg_operand(op % 2, m), rm_operand(op % 2, m, b, p + 2));
        needs(b, p, 2 + n, binop_spec(operation, (2 + n) as u8, pair[0], pair[1]))
    }
}

/// A move of an immediate into the register of the opcode's low three bits
/// (width bit 3).
pub open spec fn mov_immediate_to_reg_spec(b: Seq<u8>, p: int) -> Result<Instruction, Error> {
    let op = b[p];
    let w = (op / 8) % 2;
    let dst = Operand::Register(reg_of_code(op % 8, w));
    if w == 0 {
        needs(b, p, 2, Instruction::Mov { sz: 2, dst, src: Operand::Immediate8(b[p + 1]) })
    } else {
        needs(
            b,
            p,
            3,
            Instruction::Mov { sz: 3, dst, src: Operand::Immediate16(le_word(b[p + 1], b[p + 2])) },
        )
    }
}

/// A move of an immediate into a register-or-memory operand: opcode (width
/// bit 0), addressing byte, displacement, immediate.
pub open spec fn mov_immediate_to_reg_mem_spec(b: Seq<u8>, p: int) -> Result<Instruction, Error> {
    let w = b[p] % 2;
    if p + 2 > b.len() {
        Err(Error::EndOfInstructionStream())
    } else {
        let m = b[p + 1];
        let n = displacement_len(m);
        let total = 2 + n + 1 + w;
        needs(
            b,
            p,
            total,
            Instruction::Mov {
                sz: total as u8,
                dst: rm_operand(w, m, b, p + 2),
                src: immediate_at(w, b, p + 2 + n),
            },
        )
    }
}

/// The accumulator and the direct address of a move between them: `AL` when
/// the width bit is 0, `AX` otherwise; the address is two bytes either way.
pub open spec fn accumulator_and_mem_spec(b: Seq<u8>, p: int) -> (Register, Displacement) {
    let address = Displacement::Disp16(le_word(b[p + 1], b[p + 2]));
    if b[p] % 2 == 0 {
        (Register::Al, address)
    } else {
        (Register::Ax, address)
    }
}

/// A move between the accumulator and a direct address; `to_accumulator` tells
/// its direction.
pub open spec fn accumulator_mov_spec(to_accumulator: bool, b: Seq<u8>, p: int) -> Result<Instruction, Error> {
    let total = 3int;
    let (reg, displacement) = accumulator_and_mem_spec(b, p);
    let mem = Operand::Memory(Memory { displacement, registers: [None, None] });
    let acc = Operand::Register(reg);
    if to_accumulator {
        needs(b, p, total, Instruction::Mov { sz: total as u8, dst: acc, src: mem })
    } else {
        needs(b, p, total, Instruction::Mov { sz: total as u8, dst: mem, src: acc })
    }
}

/// The operation that bits 3 to 5 of the addressing byte select in the
/// immediate-to-register-or-memory arithmetic form, if any.
pub open spec fn selected_operation(m: u8) -> Option<Operation> {
    let sel = (m / 8) % 8;
    if sel == 0 {
        Some(Operation::Add)
    } else if sel == 5 {
        Some(Operation::Sub)
    } else if sel == 7 {
        Some(Operation::Cmp)
    } else {
        None
    }
}

/// Arithmetic with an immediate on a register-or-memory operand: opcode (sign
/// bit 1, width bit 0), addressing byte, displacement, immediate. With both
/// bits set the immediate is one byte, taken as the low byte of a word whose
/// high byte is zero.
pub open spec fn immediate_to_register_memory_spec(b: Seq<u8>, p: int) -> Result<Instruction, Error> {
    let op = b[p];
    let s = (op / 2) % 2;
    let w = op % 2;
    if p + 2 > b.len() {
        Err(Error::EndOfInstructionStream())
    } else {
        let m = b[p + 1];
        let n = displacement_len(m);
        let q = p + 2 + n;
        match selected_operation(m) {
            None => Err(Error::UnknownInstruction(op, address_of(p))),
            Some(operation) => {
                let dst = rm_operand(w, m, b, p + 2);
                if w == 0 {
                    needs(b, p, q + 1 - p, binop_spec(operation, (q + 1 - p) as u8, dst, Operand::Immediate8(b[q])))
                } else if s == 0 {
                    needs(
                        b,
                        p,
                        q + 2 - p,
                        binop_spec(operation, (q + 2 - p) as u8, dst, Operand::Immediate16(le_word(b[q], b[q + 1]))),
                    )
                } else {
                    needs(b, p, q + 1 - p, binop_spec(operation, (q + 1 - p) as u8, dst, Operand::Immediate16(b[q] as u16)))
                }
            },
        }
    }
}

/// Arithmetic with an immediate on the accumulator (`AL` or `AX` by the width bit).
pub open spec fn immediate_to_accumulator_spec(operation: Operation, b: Seq<u8>, p: int) -> Result<Instruction, Error> {
    if b[p] % 2 == 0 {
        needs(b, p, 2, binop_spec(operation, 2, Operand::Register(Register::Al), Operand::Immediate8(b[p + 1])))
    } else {
        needs(
            b,
            p,
            3,
            binop_spec(operation, 3, Operand::Register(Register::Ax), Operand::Immediate16(le_word(b[p + 1], b[p + 2]))),
        )
    }
}

/// A short branch or loop: opcode and a signed displacement byte.
pub open spec fn jump_form_spec(b: Seq<u8>, p: int) -> Result<Instruction, Error> {
    needs(b, p, 2, jump_spec(b[p], b[p + 1] as i8))
}

/// The instruction that starts at position `p` of `b`, chosen by its leading byte.
#[verifier::opaque]
pub open spec fn decode_spec(b: Seq<u8>, p: int) -> Result<Instruction, Error> {
    if p < 0 || p >= b.len() {
        Err(Error::EndOfInstructionStream())
    } else {
        let op = b[p];
        if 0x88 <= op <= 0x8B {
            register_to_either_spec(Operation::Mov, b, p)
        } else if 0xB0 <= op <= 0xBF {
            mov_immediate_to_reg_spec(b, p)
        } else if 0xC6 <= op <= 0xC7 {
            mov_immediate_to_reg_mem_spec(b, p)
        } else if 0xA0 <= op <= 0xA1 {
            accumulator_mov_spec(true, b, p)
        } else if 0xA2 <= op <= 0xA3 {
            accumulator_mov_spec(false, b, p)
        } else if op <= 0x03 {
            register_to_either_spec(Operation::Add, b, p)
        } else if 0x28 <= op <= 0x2B {
            register_to_either_spec(Operation::Sub, b, p)
        } else if 0x38 <= op <= 0x3B {
            register_to_either_spec(Operation::Cmp, b, p)
        } else if 0x80 <= op <= 0x83 {
            immediate_to_register_memory_spec(b, p)
        } else if 0x04 <= op <= 0x07 {
            immediate_to_accumulator_spec(Operation::Add, b, p)
        } else if 0x2C <= op <= 0x2F {
            immediate_to_accumulator_spec(Operation::Sub, b, p)
        } else if 0x3C <= op <= 0x3F {
            immediate_to_accumulator_spec(Operation::Cmp, b, p)
        } else if is_jump_opcode(op) {
            jump_form_spec(b, p)
        } else {
            Err(Error::UnknownInstruction(op, address_of(p)))
        }
    }
}


/// Whether `op` is the leading byte of some instruction family.
pub open spec fn is_known_opcode(op: u8) -> bool {
    ||| 0x88 <= op <= 0x8B
    ||| 0xB0 <= op <= 0xBF
    ||| 0xC6 <= op <= 0xC7
    ||| 0xA0 <= op <= 0xA3
    ||| op <= 0x07
    ||| 0x28 <= op <= 0x2F
    ||| 0x38 <= op <= 0x3F
    ||| 0x80 <= op <= 0x83
    ||| is_jump_opcode(op)
}

/// An unknown leading byte is never skipped: decoding there fails with
/// `UnknownInstruction`, carrying that byte and its address (and
/// `decode_instruction` leaves the reader on that byte, with its count at zero).
pub proof fn lemma_unknown_opcode(b: Seq<u8>, p: int)
    requires
        0 <= p < b.len(),
        !is_known_opcode(b[p]),
    ensures
        decode_spec(b, p) == Err::<Instruction, Error>(Error::UnknownInstruction(b[p], address_of(p))),
{
    reveal(decode_spec);
}

/// A decode step that started at `old`, with its count at zero, and left the
/// reader at `new`: the result is `expected`, and on success exactly the
/// instruction's bytes were consumed and counted.
pub open spec fn decoded(
    old: CountingPeekable,
    new: CountingPeekable,
    r: Result<Instruction, Error>,
    expected: Result<Instruction, Error>,
) -> bool {
    &&& new.wf()
    &&& new.image() == old.image()
    &&& r == expected
    &&& r matches Ok(i) ==> {
        &&& new.position() == old.position() + i.size()
        &&& new.count() == i.size()
    }
}

/// The reader is at the leading byte of an instruction, with its count at zero.
pub open spec fn at_opcode(bytes: CountingPeekable) -> bool {
    &&& bytes.wf()
    &&& bytes.position() < bytes.image().len()
    &&& bytes.count() == 0
}

/// The leading byte under the reader.
pub open spec fn opcode(bytes: CountingPeekable) -> u8 {
    bytes.image()[bytes.position()]
}

fn binop(operation: Operation, sz: u8, dst: Operand, src: Operand) -> (r: Instruction)
    ensures
        r == binop_spec(operation, sz, dst, src),
{
    match operation {
        Operation::Mov => Instruction::Mov { sz, dst, src },
        Operation::Add => Instruction::Add { sz, dst, src },
        Operation::Sub => Instruction::Sub { sz, dst, src },
        Operation::Cmp => Instruction::Cmp { sz, dst, src },
    }
}

fn make_jump(op: u8, inc: i8) -> (r: Instruction)
    requires
        is_jump_opcode(op),
    ensures
        r == jump_spec(op, inc),
{
    match op {
        0x74 => Instruction::Je { sz: 2, ip_increment: inc },
        0x7C => Instruction::Jl { sz: 2, ip_increment: inc },
        0x7E => Instruction::Jle { sz: 2, ip_increment: inc },
        0x72 => Instruction::Jb { sz: 2, ip_increment: inc },
        0x76 => Instruction::Jbe { sz: 2, ip_increment: inc },
        0x7A => Instruction::Jp { sz: 2, ip_increment: inc },
        0x70 => Instruction::Jo { sz: 2, ip_increment: inc },
        0x78 => Instruction::Js { sz: 2, ip_increment: inc },
        0x75 => Instruction::Jne { sz: 2, ip_increment: inc },
        0x7D => Instruction::Jnl { sz: 2, ip_increment: inc },
        0x7F => Instruction::Jnle { sz: 2, ip_increment: inc },
        0x73 => Instruction::Jnb { sz: 2, ip_increment: inc },
        0x77 => Instruction::Jnbe { sz: 2, ip_increment: inc },
        0x7B => Instruction::Jnp { sz: 2, ip_increment: inc },
        0x71 => Instruction::Jno { sz: 2, ip_increment: inc },
        0x79 => Instruction::Jns { sz: 2, ip_increment: inc },
        0xE2 => Instruction::Loop { sz: 2, ip_increment: inc },
        0xE1 => Instruction::Loopz { sz: 2, ip_increment: inc },
        0xE0 => Instruction::Loopnz { sz: 2, ip_increment: inc },
        _ => Instruction::Jcxz { sz: 2, ip_increment: inc },
    }
}

/// The width bit (bit 0) and the bit above it (direction or sign) of an opcode.
proof fn lemma_low_bits(op: u8)
    ensures
        op & 1 == op % 2,
        (op & 0b10) >> 1 == (op / 2) % 2,
        op & 1 < 2,
{
    assert(op & 1 == op % 2 && (op & 0b10) >> 1 == (op / 2) % 2 && op & 1 < 2) by (bit_vector);
}

fn decode_register_to_either(operation: Operation, bytes: &mut CountingPeekable) -> (r: Result<Instruction, Error>)
    requires
        at_opcode(*old(bytes)),
    ensures
        decoded(*old(bytes), *final(bytes), r, register_to_either_spec(operation, old(bytes).image(), old(bytes).position())),
{
    let (_, byte1) = bytes.try_next()?;
    proof {
        lemma_low_bits(byte1);
    }
    let d = (byte1 & 0b10) >> 1;
    let w = byte1 & 1;
    let pair = Operand::from_mod_reg_rm(d, w, bytes)?;
    Ok(binop(operation, bytes.get_count() as u8, pair[0], pair[1]))
}

fn decode_mov_immediate_to_reg(bytes: &mut CountingPeekable) -> (r: Result<Instruction, Error>)
    requires
        at_opcode(*old(bytes)),
    ensures
        decoded(*old(bytes), *final(bytes), r, mov_immediate_to_reg_spec(old(bytes).image(), old(bytes).position())),
{
    let (_, byte1) = bytes.try_next()?;
    let w = (byte1 & 0b1000) >> 3;
    let reg = byte1 & 0b111;
    assert(w == (byte1 / 8) % 2 && reg == byte1 % 8 && w < 2 && reg < 8) by (bit_vector)
        requires
            w == (byte1 & 0b1000) >> 3,
            reg == byte1 & 0b111,
    ;
    let (_, byte2) = bytes.try_next()?;
    let dst = Operand::Register(Register::decode_reg(reg, w));
    if w == 0 {
        Ok(Instruction::Mov { sz: bytes.get_count() as u8, dst, src: Operand::Immediate8(byte2) })
    } else {
        let (_, byte3) = bytes.try_next()?;
        Ok(
            Instruction::Mov {
                sz: bytes.get_count() as u8,
                dst,
                src: Operand::Immediate16((byte3 as u16) * 256 + byte2 as u16),
            },
        )
    }
}

fn decode_mov_immediate_to_reg_mem(bytes: &mut CountingPeekable) -> (r: Result<Instruction, Error>)
    requires
        at_opcode(*old(bytes)),
    ensures
        decoded(*old(bytes), *final(bytes), r, mov_immediate_to_reg_mem_spec(old(bytes).image(), old(bytes).position())),
{
    let (_, byte1) = bytes.try_next()?;
    proof {
        lemma_low_bits(byte1);
    }
    let w = byte1 & 1;
    let pair = Operand::immediate(w, bytes)?;
    Ok(Instruction::Mov { sz: bytes.get_count() as u8, dst: pair[0], src: pair[1] })
}

fn decode_accumulator_and_mem(bytes: &mut CountingPeekable) -> (r: Result<(Register, Displacement), Error>)
    requires
        at_opcode(*old(bytes)),
    ensures
        final(bytes).wf(),
        final(bytes).image() == old(bytes).image(),
        ({
            let b = old(bytes).image();
            let p = old(bytes).position();
            if p + 3 <= b.len() {
                &&& r == Ok::<(Register, Displacement), Error>(accumulator_and_mem_spec(b, p))
                &&& consumed(*old(bytes), *final(bytes), 3)
            } else {
                r == Err::<(Register, Displacement), Error>(Error::EndOfInstructionStream())
            }
        }),
{
    let (_, byte1) = bytes.try_next()?;
    proof {
        lemma_low_bits(byte1);
    }
    let address = read_word(bytes)?;
    if byte1 & 1 == 0 {
        Ok((Register::Al, Displacement::Disp16(address)))
    } else {
        Ok((Register::Ax, Displacement::Disp16(address)))
    }
}

fn decode_mem_to_accumulator(bytes: &mut CountingPeekable) -> (r: Result<Instruction, Error>)
    requires
        at_opcode(*old(bytes)),
    ensures
        decoded(*old(bytes), *final(bytes), r, accumulator_mov_spec(true, old(bytes).image(), old(bytes).position())),
{
    let (reg, displacement) = decode_accumulator_and_mem(bytes)?;
    Ok(
        Instruction::Mov {
            sz: bytes.get_count() as u8,
            dst: Operand::Register(reg),
            src: Operand::Memory(Memory { displacement, registers: [None, None] }),
        },
    )
}

fn decode_accumulator_to_mem(bytes: &mut CountingPeekable) -> (r: Result<Instruction, Error>)
    requires
        at_opcode(*old(bytes)),
    ensures
        decoded(*old(bytes), *final(bytes), r, accumulator_mov_spec(false, old(bytes).image(), old(bytes).position())),
{
    let (reg, displacement) = decode_accumulator_and_mem(bytes)?;
    Ok(
        Instruction::Mov {
            sz: bytes.get_count() as u8,
            dst: Operand::Memory(Memory { displacement, registers: [None, None] }),
            src: Operand::Register(reg),
        },
    )
}

fn decode_immediate_to_register_memory(bytes: &mut CountingPeekable) -> (r: Result<Instruction, Error>)
    requires
        at_opcode(*old(bytes)),
    ensures
        decoded(*old(bytes), *final(bytes), r, immediate_to_register_memory_spec(old(bytes).image(), old(bytes).position())),
{
    let (address, byte1) = bytes.try_next()?;
    let (_, mod_rm) = bytes.try_next()?;
    proof {
        lemma_low_bits(byte1);
    }
    let s = (byte1 & 0b10) >> 1;
    let w = byte1 & 1;
    let sel = mod_rm & 0b0011_1000;
    assert(sel == ((mod_rm / 8) % 8) * 8) by (bit_vector)
        requires
            sel == mod_rm & 0b0011_1000,
    ;
    let operation = if sel == 0b0000_0000 {
        Operation::Add
    } else if sel == 0b0010_1000 {
        Operation::Sub
    } else if sel == 0b0011_1000 {
        Operation::Cmp
    } else {
        return Err(Error::UnknownInstruction(byte1, address));
    };
    let dst = Operand::from_mod_rm(w, mod_rm, bytes)?;
    let src = if w == 0 {
        let (_, data) = bytes.try_next()?;
        Operand::Immediate8(data)
    } else if s == 0 {
        Operand::Immediate16(read_word(bytes)?)
    } else {
        let (_, data_lo) = bytes.try_next()?;
        Operand::Immediate16(data_lo as u16)
    };
    Ok(binop(operation, bytes.get_count() as u8, dst, src))
}

fn decode_immediate_to_accumulator(operation: Operation, bytes: &mut CountingPeekable) -> (r: Result<Instruction, Error>)
    requires
        at_opcode(*old(bytes)),
    ensures
        decoded(*old(bytes), *final(bytes), r, immediate_to_accumulator_spec(operation, old(bytes).image(), old(bytes).position())),
{
    let (_, byte1) = bytes.try_next()?;
    proof {
        lemma_low_bits(byte1);
    }
    if byte1 & 1 == 0 {
        let (_, data) = bytes.try_next()?;
        Ok(binop(operation, bytes.get_count() as u8, Operand::Register(Register::Al), Operand::Immediate8(data)))
    } else {
        let data = read_word(bytes)?;
        Ok(binop(operation, bytes.get_count() as u8, Operand::Register(Register::Ax), Operand::Immediate16(data)))
    }
}

fn decode_jump(bytes: &mut CountingPeekable) -> (r: Result<Instruction, Error>)
    requires
        at_opcode(*old(bytes)),
        is_jump_opcode(opcode(*old(bytes))),
    ensures
        decoded(*old(bytes), *final(bytes), r, jump_form_spec(old(bytes).image(), old(bytes).position())),
{
    let (_, byte1) = bytes.try_next()?;
    let (_, inc) = bytes.try_next()?;
    Ok(make_jump(byte1, inc as i8))
}


/// Decodes the instruction at the reader's position, resetting its count first.
///
/// The result is `decode_spec` at that position; on success the reader has
/// consumed and counted exactly the instruction's bytes, at least two.
pub fn decode_instruction(bytes: &mut CountingPeekable) -> (r: Result<Instruction, Error>)
    requires
        old(bytes).wf(),
    ensures
        decoded(*old(bytes), *final(bytes), r, decode_spec(old(bytes).image(), old(bytes).position())),
        r matches Ok(i) ==> i.size() >= 2,
        old(bytes).position() >= old(bytes).image().len() || !is_known_opcode(opcode(*old(bytes)))
            ==> final(bytes).position() == old(bytes).position() && final(bytes).count() == 0,
{
    reveal(decode_spec);
    bytes.reset_count();
    let (_, op) = match bytes.peek() {
        Some(item) => item,
        None => return Err(Error::EndOfInstructionStream()),
    };
    if 0x88 <= op && op <= 0x8B {
        decode_register_to_either(Operation::Mov, bytes)
    } else if 0xB0 <= op && op <= 0xBF {
        decode_mov_immediate_to_reg(bytes)
    } else if 0xC6 <= op && op <= 0xC7 {
        decode_mov_immediate_to_reg_mem(bytes)
    } else if 0xA0 <= op && op <= 0xA1 {
        decode_mem_to_accumulator(bytes)
    } else if 0xA2 <= op && op <= 0xA3 {
        decode_accumulator_to_mem(bytes)
    } else if op <= 0x03 {
        decode_register_to_either(Operation::Add, bytes)
    } else if 0x28 <= op && op <= 0x2B {
        decode_register_to_either(Operation::Sub, bytes)
    } else if 0x38 <= op && op <= 0x3B {
        decode_register_to_either(Operation::Cmp, bytes)
    } else if 0x80 <= op && op <= 0x83 {
        decode_immediate_to_register_memory(bytes)
    } else if 0x04 <= op && op <= 0x07 {
        decode_immediate_to_accumulator(Operation::Add, bytes)
    } else if 0x2C <= op && op <= 0x2F {
        decode_immediate_to_accumulator(Operation::Sub, bytes)
    } else if 0x3C <= op && op <= 0x3F {
        decode_immediate_to_accumulator(Operation::Cmp, bytes)
    } else if is_jump_opcode_exec(op) {
        decode_jump(bytes)
    } else {
        Err(Error::UnknownInstruction(op, Address((bytes.pos % 65536) as u16)))
    }
}

fn is_jump_opcode_exec(op: u8) -> (r: bool)
    ensures
        r == is_jump_opcode(op),
{
    (0x70 <= op && op <= 0x7F) || (0xE0 <= op && op <= 0xE3)
}


/// The instructions of `b` from position `p` to its end, each with its
/// address, or the first decode error met on the way. (Every decoded
/// instruction is at least two bytes long and lies within `b`, as
/// `decode_instruction` shows, so the last branch is never taken.)
pub open spec fn decode_all(b: Seq<u8>, p: int) -> Result<Seq<(Address, Instruction)>, Error>
    decreases b.len() - p,
{
    if p < 0 || p >= b.len() {
        Ok(Seq::empty())
    } else {
        match decode_spec(b, p) {
            Err(e) => Err(e),
            Ok(i) => if 0 < i.size() && p + i.size() <= b.len() {
                prepend(seq![(address_of(p), i)], decode_all(b, p + i.size()))
            } else {
                Err(Error::EndOfInstructionStream())
            },
        }
    }
}

/// The total encoded size of a run of decoded instructions.
pub open spec fn total_size(entries: Seq<(Address, Instruction)>) -> int
    decreases entries.len(),
{
    if entries.len() == 0 {
        0
    } else {
        entries[0].1.size() + total_size(entries.drop_first())
    }
}

/// Decoding an image from position `p` accounts for every byte exactly once:
/// when it succeeds, the sizes of the decoded instructions add up to the
/// number of bytes from `p` to the end, and each instruction is the one that
/// decodes at its own address.
pub proof fn lemma_decode_all_covers(b: Seq<u8>, p: int)
    requires
        0 <= p <= b.len(),
    ensures
        decode_all(b, p) matches Ok(entries) ==> {
            &&& total_size(entries) == b.len() - p
            &&& forall|k: int|
                0 <= k < entries.len() ==> decode_spec(b, p + total_size(#[trigger] entries.take(k)))
                    == Ok::<Instruction, Error>(entries[k].1) && entries[k].0 == address_of(
                    p + total_size(entries.take(k)),
                )
        },
    decreases b.len() - p,
{
    if p < b.len() {
        if let Ok(i) = decode_spec(b, p) {
            if 0 < i.size() && p + i.size() <= b.len() {
                let q = p + i.size();
                lemma_decode_all_covers(b, q);
                if let Ok(rest) = decode_all(b, q) {
                    let entries = seq![(address_of(p), i)] + rest;
                    assert(entries.drop_first() =~= rest);
                    assert forall|k: int| 0 <= k < entries.len() implies decode_spec(
                        b,
                        p + total_size(#[trigger] entries.take(k)),
                    ) == Ok::<Instruction, Error>(entries[k].1) && entries[k].0 == address_of(
                        p + total_size(entries.take(k)),
                    ) by {
                        if k == 0 {
                            assert(entries.take(0).len() == 0);
                        } else {
                            assert(entries.take(k).drop_first() =~= rest.take(k - 1));
                            assert(entries[k] == rest[k - 1]);
                        }
                    }
                }
            }
        }
    }
}

/// `prefix` put before a successful result; an error passed on unchanged.
pub open spec fn prepend(
    prefix: Seq<(Address, Instruction)>,
    rest: Result<Seq<(Address, Instruction)>, Error>,
) -> Result<Seq<(Address, Instruction)>, Error> {
    match rest {
        Ok(tail) => Ok(prefix + tail),
        Err(e) => Err(e),
    }
}

/// The address that a branch at address `a` goes to: the address after the
/// two-byte branch plus its displacement, modulo 2^16.
pub open spec fn jump_target(a: Address, j: Jump) -> u16 {
    ((a.0 + 2 + j.displacement()) % 65536) as u16
}

/// The branch targets of `entries`, each once, in the order first seen; a
/// target's label number is its index here.
pub open spec fn label_targets(entries: Seq<(Address, Instruction)>) -> Seq<u16>
    decreases entries.len(),
{
    if entries.len() == 0 {
        Seq::empty()
    } else {
        let before = label_targets(entries.drop_last());
        let (a, i) = entries.last();
        match i.jump() {
            Some(j) => if before.contains(jump_target(a, j)) {
                before
            } else {
                before.push(jump_target(a, j))
            },
            None => before,
        }
    }
}

/// The name of label number `n`.
pub open spec fn label_name(n: int) -> Seq<char> {
    "label"@ + decimal(n as nat)
}

/// The lines for one decoded instruction: a label line first if a branch goes
/// to its address, then the instruction, with a branch naming its target's label.
pub open spec fn entry_text(e: (Address, Instruction), targets: Seq<u16>) -> Seq<char> {
    let (a, i) = e;
    let label = if targets.contains(a.0) {
        label_name(targets.index_of(a.0)) + ":\n"@
    } else {
        Seq::empty()
    };
    let line = match i.jump() {
        Some(j) => jump_mnemonic(j) + " "@ + label_name(targets.index_of(jump_target(a, j))) + "\n"@,
        None => instruction_text(i) + "\n"@,
    };
    label + line
}

/// The lines for the first `n` entries.
pub open spec fn listing_lines(entries: Seq<(Address, Instruction)>, targets: Seq<u16>, n: int) -> Seq<char>
    decreases n,
{
    if n <= 0 {
        Seq::empty()
    } else {
        listing_lines(entries, targets, n - 1) + entry_text(entries[n - 1], targets)
    }
}

/// The label line for the end of an image of length `len`, when a branch goes
/// there (an image of 2^16 bytes or more has no end address of its own).
pub open spec fn end_label_text(len: int, targets: Seq<u16>) -> Seq<char> {
    if len < 65536 && targets.contains(len as u16) {
        label_name(targets.index_of(len as u16)) + ":\n"@
    } else {
        Seq::empty()
    }
}

/// The disassembly of a whole image: a `bits 16` header, a blank line, the
/// lines of every instruction, and a label line for the end of the image when
/// a branch goes there; or the first decode error.
pub open spec fn listing(b: Seq<u8>) -> Result<Seq<char>, Error> {
    match decode_all(b, 0) {
        Ok(entries) => Ok(
            "bits 16\n\n"@ + listing_lines(entries, label_targets(entries), entries.len() as int)
                + end_label_text(b.len() as int, label_targets(entries)),
        ),
        Err(e) => Err(e),
    }
}

/// Label numbers by target address: each target maps to its index in `targets`.
pub open spec fn label_map(targets: Seq<u16>) -> Map<u16, usize> {
    Map::new(|k: u16| targets.contains(k), |k: u16| targets.index_of(k) as usize)
}

proof fn lemma_label_targets_cover(entries: Seq<(Address, Instruction)>)
    ensures
        label_targets(entries).no_duplicates(),
        forall|k: int|
            0 <= k < entries.len() && (#[trigger] entries[k]).1.jump() is Some ==> label_targets(
                entries,
            ).contains(jump_target(entries[k].0, entries[k].1.jump().unwrap())),
    decreases entries.len(),
{
    if entries.len() > 0 {
        let before = entries.drop_last();
        lemma_label_targets_cover(before);
        let t = label_targets(entries);
        let tb = label_targets(before);
        assert forall|x: u16| tb.contains(x) implies t.contains(x) by {
            let k = choose|k: int| 0 <= k < tb.len() && tb[k] == x;
            if t != tb {
                assert(t[k] == x);
            }
        }
        assert forall|k: int|
            0 <= k < entries.len() && (#[trigger] entries[k]).1.jump() is Some implies t.contains(
                jump_target(entries[k].0, entries[k].1.jump().unwrap()),
            ) by {
            if k < entries.len() - 1 {
                assert(entries[k] == before[k]);
            } else {
                let x = jump_target(entries[k].0, entries[k].1.jump().unwrap());
                if !tb.contains(x) {
                    assert(t[t.len() - 1] == x);
                }
            }
        }
    }
}

proof fn lemma_index_of_unique(s: Seq<u16>, i: int)
    requires
        s.no_duplicates(),
        0 <= i < s.len(),
    ensures
        s.contains(s[i]),
        s.index_of(s[i]) == i,
{
    assert(s.contains(s[i]));
}

proof fn lemma_index_of_in_range(s: Seq<u16>, x: u16)
    requires
        s.contains(x),
    ensures
        0 <= s.index_of(x) < s.len(),
        s[s.index_of(x)] == x,
{
}

proof fn lemma_label_map_push(targets: Seq<u16>, x: u16)
    requires
        targets.no_duplicates(),
        !targets.contains(x),
    ensures
        targets.push(x).no_duplicates(),
        label_map(targets.push(x)) == label_map(targets).insert(x, targets.len() as usize),
{
    let t = targets.push(x);
    assert forall|i: int, j: int| 0 <= i < t.len() && 0 <= j < t.len() && i != j implies t[i] != t[j] by {
        if i < targets.len() && j < targets.len() {
            assert(targets[i] != targets[j]);
        } else if i < targets.len() {
            assert(targets.contains(targets[i]));
        } else {
            assert(targets.contains(targets[j]));
        }
    }
    lemma_index_of_unique(t, targets.len() as int);
    assert forall|k: u16| #[trigger] targets.contains(k) implies t.index_of(k) == targets.index_of(k) by {
        let i = choose|i: int| 0 <= i < targets.len() && targets[i] == k;
        lemma_index_of_unique(targets, i);
        assert(t[i] == k);
        lemma_index_of_unique(t, i);
    }
    assert forall|k: u16| t.contains(k) <==> targets.contains(k) || k == x by {
        if t.contains(k) && k != x {
            let i = choose|i: int| 0 <= i < t.len() && t[i] == k;
            assert(targets[i] == k);
        }
        if targets.contains(k) {
            let i = choose|i: int| 0 <= i < targets.len() && targets[i] == k;
            assert(t[i] == k);
        }
        if k == x {
            assert(t[targets.len() as int] == x);
        }
    }
    assert(label_map(t) =~= label_map(targets).insert(x, targets.len() as usize));
}

fn jump_target_exec(a: Address, j: &Jump) -> (t: u16)
    ensures
        t == jump_target(a, *j),
{
    let sum: i32 = a.0 as i32 + j.ip_increment() as i32 + j.len() as i32;
    if sum < 0 {
        (sum + 65536) as u16
    } else if sum >= 65536 {
        (sum - 65536) as u16
    } else {
        sum as u16
    }
}

/// Appends the lines of one decoded instruction.
fn push_entry(
    out: &mut String,
    entry: (Address, Instruction),
    label_addresses: &BTreeMap<u16, usize>,
    Ghost(targets): Ghost<Seq<u16>>,
)
    requires
        label_addresses@ == label_map(targets),
        targets.len() <= usize::MAX,
        entry.1.jump() is Some ==> targets.contains(jump_target(entry.0, entry.1.jump().unwrap())),
    ensures
        final(out)@ == old(out)@ + entry_text(entry, targets),
{
    let (address, instruction) = entry;
    let ghost before = out@;
    if let Some(index) = label_addresses.get(&address.0) {
        proof {
            lemma_index_of_in_range(targets, address.0);
        }
        out.append("label");
        push_decimal(out, *index);
        out.append(":\n");
    }
    let ghost middle = out@;
    assert(middle =~= before + (if targets.contains(address.0) {
        label_name(targets.index_of(address.0)) + ":\n"@
    } else {
        Seq::empty()
    }));
    match instruction.to_jump() {
        Some(jmp) => {
            let target = jump_target_exec(address, &jmp);
            let index = match label_addresses.get(&target) {
                Some(i) => *i,
                None => 0,
            };
            proof {
                lemma_index_of_in_range(targets, target);
            }
            out.append(jmp.mnemonic());
            out.append(" ");
            out.append("label");
            push_decimal(out, index);
            out.append("\n");
        },
        None => {
            out.append(instruction.to_text().as_str());
            out.append("\n");
        },
    }
    assert(out@ =~= before + entry_text(entry, targets));
}

/// Disassembles a whole image into assembler text: a `bits 16` header, then one
/// line per instruction, with every branch target given a label (numbered in
/// the order first seen) and every branch naming its target's label.
///
/// Fails with the first decode error; no text is produced past it.
pub fn disassemble(bytes: &[u8]) -> (r: Result<String, Error>)
    ensures
        listing(bytes@) matches Ok(t) ==> r matches Ok(s) && s@ == t,
        listing(bytes@) matches Err(e) ==> r == Err::<String, Error>(e),
{
    let ghost b = bytes@;
    let mut cursor = CountingPeekable::new(bytes, 0);
    let mut instructions: Vec<(Address, Instruction)> = Vec::new();
    let mut label_addresses: BTreeMap<u16, usize> = BTreeMap::new();
    let mut label_count: usize = 0;
    let ghost mut targets: Seq<u16> = Seq::empty();
    assert(label_map(targets) =~= Map::<u16, usize>::empty());
    while cursor.pos < bytes.len()
        invariant
            cursor.wf(),
            cursor.image() == b,
            b == bytes@,
            decode_all(b, 0) == prepend(instructions@, decode_all(b, cursor.position())),
            targets == label_targets(instructions@),
            targets.no_duplicates(),
            label_addresses@ == label_map(targets),
            label_count == targets.len(),
            targets.len() <= instructions@.len(),
            instructions@.len() <= cursor.position(),
        decreases b.len() - cursor.position(),
    {
        let address = Address((cursor.pos % 65536) as u16);
        let instruction = match decode_instruction(&mut cursor) {
            Ok(i) => i,
            Err(e) => {
                return Err(e);
            },
        };
        let ghost old_instructions = instructions@;
        instructions.push((address, instruction));
        assert(instructions@.drop_last() =~= old_instructions);
        assert(old_instructions + (seq![(address, instruction)] + decode_all(b, cursor.position())->Ok_0)
            =~= instructions@ + decode_all(b, cursor.position())->Ok_0);
        if let Some(jmp) = instruction.to_jump() {
            let target = jump_target_exec(address, &jmp);
            if !label_addresses.contains_key(&target) {
                proof {
                    lemma_label_map_push(targets, target);
                    targets = targets.push(target);
                }
                label_addresses.insert(target, label_count);
                label_count = label_count + 1;
            }
        }
    }
    assert(decode_all(b, cursor.position()) == Ok::<Seq<(Address, Instruction)>, Error>(Seq::empty()));
    assert(instructions@ + Seq::empty() =~= instructions@);
    proof {
        lemma_label_targets_cover(instructions@);
    }
    let mut out = String::from_str("bits 16\n\n");
    let mut k: usize = 0;
    while k < instructions.len()
        invariant
            k <= instructions@.len(),
            targets == label_targets(instructions@),
            label_addresses@ == label_map(targets),
            targets.len() <= usize::MAX,
            forall|m: int|
                0 <= m < instructions@.len() && (#[trigger] instructions@[m]).1.jump() is Some
                    ==> targets.contains(
                    jump_target(instructions@[m].0, instructions@[m].1.jump().unwrap()),
                ),
            out@ == "bits 16\n\n"@ + listing_lines(instructions@, targets, k as int),
        decreases instructions@.len() - k,
    {
        let entry = instructions[k];
        push_entry(&mut out, entry, &label_addresses, Ghost(targets));
        assert(listing_lines(instructions@, targets, k + 1) == listing_lines(instructions@, targets, k as int)
            + entry_text(entry, targets));
        k = k + 1;
    }
    let ghost lines = out@;
    if bytes.len() < 65536 {
        if let Some(index) = label_addresses.get(&(bytes.len() as u16)) {
            proof {
                lemma_index_of_in_range(targets, bytes.len() as u16);
            }
            out.append("label");
            push_decimal(&mut out, *index);
            out.append(":\n");
        }
    }
    assert(out@ =~= lines + end_label_text(b.len() as int, targets));
    Ok(out)
}

} // verus!
