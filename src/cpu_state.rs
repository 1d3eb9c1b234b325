use vstd::prelude::*;
use vstd::string::*;

use crate::decode::{address_of, decode_instruction, decode_spec, CountingPeekable};
use crate::error::Error;
use crate::instruction::Instruction;
use crate::memory::Address;
use crate::operand::Operand;
use crate::register::Register;

verus! {

/// The zero and sign flags, one bit each.
#[derive(Debug, Clone, Copy, PartialEq, Eq, Structural)]
pub struct CpuStateFlags {
    flags: u8,
}

const ZERO_FLAG_MASK: u8 = 0b0000_0001;

const SIGN_FLAG_MASK: u8 = 0b0000_0010;

impl CpuStateFlags {
    /// Whether the zero flag is set.
    pub closed spec fn zero(&self) -> bool {
        self.flags & ZERO_FLAG_MASK != 0
    }

    /// Whether the sign flag is set.
    pub closed spec fn sign(&self) -> bool {
        self.flags & SIGN_FLAG_MASK != 0
    }

    /// Both flags clear.
    pub fn new() -> (r: CpuStateFlags)
        ensures
            !r.zero(),
            !r.sign(),
    {
        assert(0u8 & ZERO_FLAG_MASK == 0 && 0u8 & SIGN_FLAG_MASK == 0) by (bit_vector);
        CpuStateFlags { flags: 0 }
    }

    /// Sets or clears the zero flag, keeping the sign flag.
    pub fn set_zero_flag(&mut self, v: bool)
        ensures
            final(self).zero() == v,
            final(self).sign() == old(self).sign(),
    {
        let f = self.flags;
        if v {
            self.flags = f | ZERO_FLAG_MASK;
            assert((f | 1u8) & 1u8 != 0 && ((f | 1u8) & 2u8 != 0) == (f & 2u8 != 0)) by (bit_vector);
        } else {
            self.flags = f & !ZERO_FLAG_MASK;
            assert((f & !1u8) & 1u8 == 0 && ((f & !1u8) & 2u8 != 0) == (f & 2u8 != 0)) by (bit_vector);
        }
    }

    /// Whether the zero flag is set.
    pub fn get_zero_flag(&self) -> (r: bool)
        ensures
            r == self.zero(),
    {
        (self.flags & ZERO_FLAG_MASK) != 0
    }

    /// Sets or clears the sign flag, keeping the zero flag.
    pub fn set_sign_flag(&mut self, v: bool)
        ensures
            final(self).sign() == v,
            final(self).zero() == old(self).zero(),
    {
        let f = self.flags;
        if v {
            self.flags = f | SIGN_FLAG_MASK;
            assert((f | 2u8) & 2u8 != 0 && ((f | 2u8) & 1u8 != 0) == (f & 1u8 != 0)) by (bit_vector);
        } else {
            self.flags = f & !SIGN_FLAG_MASK;
            assert((f & !2u8) & 2u8 == 0 && ((f & !2u8) & 1u8 != 0) == (f & 1u8 != 0)) by (bit_vector);
        }
    }

    /// Whether the sign flag is set.
    pub fn get_sign_flag(&self) -> (r: bool)
        ensures
            r == self.sign(),
    {
        (self.flags & SIGN_FLAG_MASK) != 0
    }

    /// The set flags as letters: `Z` for zero, then `S` for sign.
    pub fn to_text(&self) -> (s: String)
        ensures
            s@ == (if self.zero() {
                "Z"@
            } else {
                Seq::empty()
            }) + (if self.sign() {
                "S"@
            } else {
                Seq::empty()
            }),
    {
        let mut s = String::new();
        if self.get_zero_flag() {
            s.append("Z");
        }
        if self.get_sign_flag() {
            s.append("S");
        }
        s
    }
}


/// What the interpreter can hold of the machine: instruction pointer, the eight
/// word registers (in the order AX, BX, CX, DX, SP, BP, SI, DI) and the flags.
pub struct CpuView {
    pub ip: u16,
    pub registers: Seq<u16>,
    pub zero: bool,
    pub sign: bool,
}

/// Why the interpreter stopped short of the end of the image.
#[derive(Debug, Clone, Copy, PartialEq, Eq, Structural)]
pub enum ExecError {
    /// The bytes at the instruction pointer do not decode.
    Decode(Error),
    /// The instruction at this address decodes but has no execution effect
    /// here: a branch other than `jne`, a loop, or a memory operand.
    Unsupported(Address),
}

/// The word slot that a register lives in.
pub open spec fn slot(r: Register) -> int {
    match r {
        Register::Al | Register::Ah | Register::Ax => 0,
        Register::Bl | Register::Bh | Register::Bx => 1,
        Register::Cl | Register::Ch | Register::Cx => 2,
        Register::Dl | Register::Dh | Register::Dx => 3,
        Register::Sp => 4,
        Register::Bp => 5,
        Register::Si => 6,
        Register::Di => 7,
    }
}

/// Whether a register is the low byte of its slot.
pub open spec fn is_low(r: Register) -> bool {
    r == Register::Al || r == Register::Cl || r == Register::Dl || r == Register::Bl
}

/// Whether a register is the high byte of its slot.
pub open spec fn is_high(r: Register) -> bool {
    r == Register::Ah || r == Register::Ch || r == Register::Dh || r == Register::Bh
}

/// The number of distinct values a register holds: 2^8 or 2^16.
pub open spec fn modulus(r: Register) -> int {
    if is_low(r) || is_high(r) {
        256
    } else {
        65536
    }
}

/// The value of register `r`.
pub open spec fn read_reg(regs: Seq<u16>, r: Register) -> int {
    let word = regs[slot(r)] as int;
    if is_low(r) {
        word % 256
    } else if is_high(r) {
        word / 256
    } else {
        word
    }
}

/// The registers after `v`, cut to the width of `r`, is written to `r`; the
/// other byte of a byte register's slot is kept.
pub open spec fn write_reg(regs: Seq<u16>, r: Register, v: int) -> Seq<u16> {
    let word = regs[slot(r)] as int;
    let new_word = if is_low(r) {
        (word / 256) * 256 + v % 256
    } else if is_high(r) {
        (v % 256) * 256 + word % 256
    } else {
        v % 65536
    };
    regs.update(slot(r), new_word as u16)
}

/// The value of an operand, or `None` for a memory operand, which the
/// interpreter does not read.
pub open spec fn operand_value(regs: Seq<u16>, op: Operand) -> Option<int> {
    match op {
        Operand::Register(r) => Some(read_reg(regs, r)),
        Operand::Immediate8(v) => Some(v as int),
        Operand::Immediate16(v) => Some(v as int),
        Operand::Memory(_) => None,
    }
}

/// The two's-complement negation of a 16-bit value.
pub open spec fn negate(v: int) -> int {
    (65536 - v) % 65536
}

/// `s` after adding `v` to register `r` in the register's width: the sum is
/// stored when `store` holds, and the zero and sign flags follow the sum.
pub open spec fn add_effect(s: CpuView, r: Register, v: int, store: bool) -> CpuView {
    let sum = (read_reg(s.registers, r) + v) % modulus(r);
    CpuView {
        registers: if store {
            write_reg(s.registers, r, sum)
        } else {
            s.registers
        },
        zero: sum == 0,
        sign: sum >= modulus(r) / 2,
        ..s
    }
}

/// What instruction `i` does to `s`, whose instruction pointer has already
/// moved past it; `None` where the interpreter has no effect for it.
pub open spec fn effect(i: Instruction, s: CpuView) -> Option<CpuView> {
    match i {
        Instruction::Mov { dst: Operand::Register(r), src, .. } => match operand_value(s.registers, src) {
            Some(v) => Some(CpuView { registers: write_reg(s.registers, r, v), ..s }),
            None => None,
        },
        Instruction::Add { dst: Operand::Register(r), src, .. } => match operand_value(s.registers, src) {
            Some(v) => Some(add_effect(s, r, v, true)),
            None => None,
        },
        Instruction::Sub { dst: Operand::Register(r), src, .. } => match operand_value(s.registers, src) {
            Some(v) => Some(add_effect(s, r, negate(v), true)),
            None => None,
        },
        Instruction::Cmp { dst: Operand::Register(r), src, .. } => match operand_value(s.registers, src) {
            Some(v) => Some(add_effect(s, r, negate(v), false)),
            None => None,
        },
        Instruction::Jne { ip_increment, .. } => if s.zero {
            Some(s)
        } else {
            Some(CpuView { ip: ((s.ip + ip_increment) % 65536) as u16, ..s })
        },
        _ => None,
    }
}

/// One fetch-decode-execute step on image `prog`: decode at the instruction
/// pointer, move it past the instruction, then apply the instruction's effect.
pub open spec fn step_spec(prog: Seq<u8>, s: CpuView) -> Result<(Instruction, CpuView), ExecError> {
    match decode_spec(prog, s.ip as int) {
        Err(e) => Err(ExecError::Decode(e)),
        Ok(i) => match effect(i, CpuView { ip: ((s.ip + i.size()) % 65536) as u16, ..s }) {
            Some(next) => Ok((i, next)),
            None => Err(ExecError::Unsupported(address_of(s.ip as int))),
        },
    }
}

/// Whether the instruction pointer has reached the end of the image.
pub open spec fn halted(prog: Seq<u8>, s: CpuView) -> bool {
    s.ip >= prog.len()
}

/// At most `fuel` steps from `s`: the state reached, and `Ok(true)` if the
/// machine halted, `Ok(false)` if the steps ran out first, or the error of
/// the step that failed (the state is then the one before it).
pub open spec fn run(prog: Seq<u8>, s: CpuView, fuel: nat) -> (CpuView, Result<bool, ExecError>)
    decreases fuel,
{
    if halted(prog, s) {
        (s, Ok(true))
    } else if fuel == 0 {
        (s, Ok(false))
    } else {
        match step_spec(prog, s) {
            Err(e) => (s, Err(e)),
            Ok((_, next)) => run(prog, next, (fuel - 1) as nat),
        }
    }
}

/// Writing a register sets it to the value cut to its width and leaves every
/// other register unchanged, the other byte of its own slot included.
pub proof fn lemma_write_keeps_others(regs: Seq<u16>, r: Register, v: int)
    requires
        regs.len() == 8,
        0 <= v,
    ensures
        read_reg(write_reg(regs, r, v), r) == v % modulus(r),
        forall|r2: Register|
            slot(r2) != slot(r) ==> read_reg(write_reg(regs, r, v), r2) == read_reg(regs, r2),
        forall|r2: Register|
            slot(r2) == slot(r) && ((is_low(r) && is_high(r2)) || (is_high(r) && is_low(r2)))
                ==> read_reg(write_reg(regs, r, v), r2) == read_reg(regs, r2),
{
    let w = regs[slot(r)] as int;
    assert(0 <= w < 65536);
    assert forall|r2: Register|
        slot(r2) != slot(r) implies read_reg(write_reg(regs, r, v), r2) == read_reg(regs, r2) by {}
    if is_low(r) {
        assert(((w / 256) * 256 + v % 256) % 256 == v % 256) by (nonlinear_arith)
            requires
                0 <= w < 65536,
                0 <= v,
        ;
        assert(((w / 256) * 256 + v % 256) / 256 == w / 256) by (nonlinear_arith)
            requires
                0 <= w < 65536,
                0 <= v,
        ;
        assert(0 <= (w / 256) * 256 + v % 256 < 65536) by (nonlinear_arith)
            requires
                0 <= w < 65536,
                0 <= v,
        ;
    } else if is_high(r) {
        assert(((v % 256) * 256 + w % 256) / 256 == v % 256) by (nonlinear_arith)
            requires
                0 <= w < 65536,
                0 <= v,
        ;
        assert(((v % 256) * 256 + w % 256) % 256 == w % 256) by (nonlinear_arith)
            requires
                0 <= w < 65536,
                0 <= v,
        ;
        assert(0 <= (v % 256) * 256 + w % 256 < 65536) by (nonlinear_arith)
            requires
                0 <= w < 65536,
                0 <= v,
        ;
    }
}

/// After an addition the zero flag tells whether the stored result is zero and
/// the sign flag whether the top bit of the register's width is set.
pub proof fn lemma_add_flags(s: CpuView, r: Register, v: int)
    requires
        s.registers.len() == 8,
        0 <= v,
    ensures
        add_effect(s, r, v, true).zero == (read_reg(add_effect(s, r, v, true).registers, r) == 0),
        add_effect(s, r, v, true).sign == (read_reg(add_effect(s, r, v, true).registers, r) >= modulus(r) / 2),
{
    let sum = (read_reg(s.registers, r) + v) % modulus(r);
    lemma_write_keeps_others(s.registers, r, sum);
    assert(sum % modulus(r) == sum);
}

/// A compare sets the flags exactly as the subtraction of the same operands,
/// and leaves every register as it was.
pub proof fn lemma_cmp_is_sub_without_store(s: CpuView, sz: u8, r: Register, src: Operand)
    ensures
        effect(Instruction::Cmp { sz, dst: Operand::Register(r), src }, s) is Some
            <==> effect(Instruction::Sub { sz, dst: Operand::Register(r), src }, s) is Some,
        effect(Instruction::Cmp { sz, dst: Operand::Register(r), src }, s) matches Some(c) ==> {
            let u = effect(Instruction::Sub { sz, dst: Operand::Register(r), src }, s).unwrap();
            &&& c.registers == s.registers
            &&& c.ip == u.ip
            &&& c.zero == u.zero
            &&& c.sign == u.sign
        },
{
}

/// A `jne` moves the instruction pointer past itself and then, when the zero
/// flag is clear, by its displacement.
pub proof fn lemma_jne_target(prog: Seq<u8>, s: CpuView, sz: u8, ip_increment: i8)
    requires
        decode_spec(prog, s.ip as int) == Ok::<Instruction, Error>(Instruction::Jne { sz, ip_increment }),
    ensures
        step_spec(prog, s) matches Ok((_, next)) && next.registers == s.registers && next.ip == (if s.zero {
            ((s.ip + sz) % 65536) as u16
        } else {
            ((s.ip + sz + ip_increment) % 65536) as u16
        }),
{
    let moved = ((s.ip + sz) % 65536) as int;
    assert((moved + ip_increment) % 65536 == (s.ip + sz + ip_increment) % 65536);
}

/// The interpreter: an instruction image it borrows, and the machine state.
#[derive(Clone, Copy)]
pub struct CpuState<'a> {
    instructions: &'a [u8],
    instruction_pointer: u16,
    registers: [u16; 8],
    flags: CpuStateFlags,
}

impl<'a> CpuState<'a> {
    /// The image being run.
    pub closed spec fn program(&self) -> Seq<u8> {
        self.instructions@
    }

    /// The machine state.
    pub closed spec fn view(&self) -> CpuView {
        CpuView {
            ip: self.instruction_pointer,
            registers: self.registers@,
            zero: self.flags.zero(),
            sign: self.flags.sign(),
        }
    }

    /// A machine at instruction pointer 0 with every register zero and both
    /// flags clear.
    pub fn new(instructions: &'a [u8]) -> (r: Self)
        ensures
            r.program() == instructions@,
            r.view().ip == 0,
            r.view().registers == Seq::new(8, |i: int| 0u16),
            !r.view().zero,
            !r.view().sign,
    {
        let r = CpuState {
            instructions,
            instruction_pointer: 0,
            registers: [0u16; 8],
            flags: CpuStateFlags::new(),
        };
        assert(r.registers@ =~= Seq::new(8, |i: int| 0u16));
        r
    }

    /// The instruction pointer.
    pub fn instruction_pointer(&self) -> (r: u16)
        ensures
            r == self.view().ip,
    {
        self.instruction_pointer
    }

    /// The eight word registers, in the order AX, BX, CX, DX, SP, BP, SI, DI.
    pub fn registers(&self) -> (r: [u16; 8])
        ensures
            r@ == self.view().registers,
    {
        self.registers
    }

    /// The flags.
    pub fn flags(&self) -> (r: CpuStateFlags)
        ensures
            r.zero() == self.view().zero,
            r.sign() == self.view().sign,
    {
        self.flags
    }

    /// Whether the instruction pointer has reached the end of the image.
    pub fn is_halted(&self) -> (r: bool)
        ensures
            r == halted(self.program(), self.view()),
    {
        self.instruction_pointer as usize >= self.instructions.len()
    }

    /// The slot of a register and the mask of its bits within the slot.
    fn get_register_index_and_mask(reg: Register) -> (r: (usize, u16))
        ensures
            r.0 == slot(reg),
            r.1 == (if is_low(reg) {
                0x00FFu16
            } else if is_high(reg) {
                0xFF00u16
            } else {
                0xFFFFu16
            }),
    {
        match reg {
            Register::Al => (0, 0x00FF),
            Register::Ah => (0, 0xFF00),
            Register::Ax => (0, 0xFFFF),
            Register::Bl => (1, 0x00FF),
            Register::Bh => (1, 0xFF00),
            Register::Bx => (1, 0xFFFF),
            Register::Cl => (2, 0x00FF),
            Register::Ch => (2, 0xFF00),
            Register::Cx => (2, 0xFFFF),
            Register::Dl => (3, 0x00FF),
            Register::Dh => (3, 0xFF00),
            Register::Dx => (3, 0xFFFF),
            Register::Sp => (4, 0xFFFF),
            Register::Bp => (5, 0xFFFF),
            Register::Si => (6, 0xFFFF),
            Register::Di => (7, 0xFFFF),
        }
    }

    /// The value of a register.
    pub fn read_register(&self, reg: Register) -> (r: u16)
        ensures
            r == read_reg(self.view().registers, reg),
    {
        let (index, mask) = Self::get_register_index_and_mask(reg);
        let word = self.registers[index];
        if mask == 0x00FF {
            assert(word & 0x00FF == word % 256) by (bit_vector);
            word & mask
        } else if mask == 0xFF00 {
            assert((word & 0xFF00) >> 8 == word / 256) by (bit_vector);
            (word & mask) >> 8
        } else {
            word
        }
    }

    /// Writes `value`, cut to the register's width, to a register; the other
    /// byte of a byte register's slot is kept.
    pub fn write_register(&mut self, reg: Register, value: u16)
        ensures
            final(self).program() == old(self).program(),
            final(self).view() == (CpuView {
                registers: write_reg(old(self).view().registers, reg, value as int),
                ..old(self).view()
            }),
    {
        let (index, mask) = Self::get_register_index_and_mask(reg);
        let word = self.registers[index];
        let new_word = if mask == 0x00FF {
            assert((word & 0xFF00) | (value & 0x00FF) == (word / 256) * 256 + value % 256) by (bit_vector);
            (word & 0xFF00) | (value & 0x00FF)
        } else if mask == 0xFF00 {
            assert(((value & 0x00FF) << 8) | (word & 0x00FF) == (value % 256) * 256 + word % 256) by (bit_vector);
            ((value & 0x00FF) << 8) | (word & 0x00FF)
        } else {
            value
        };
        self.registers[index] = new_word;
        assert(self.registers@ =~= write_reg(old(self).view().registers, reg, value as int));
    }

    /// Runs one fetch-decode-execute step: decodes the instruction at the
    /// instruction pointer, moves the pointer past it, and applies its effect.
    /// Returns the instruction; on an error the state is left as it was.
    pub fn run_next_instruction(&mut self) -> (r: Result<Instruction, ExecError>)
        ensures
            final(self).program() == old(self).program(),
            step_spec(old(self).program(), old(self).view()) matches Ok((i, next)) ==> {
                &&& r == Ok::<Instruction, ExecError>(i)
                &&& final(self).view() == next
            },
            step_spec(old(self).program(), old(self).view()) matches Err(e) ==> {
                &&& r == Err::<Instruction, ExecError>(e)
                &&& final(self).view() == old(self).view()
            },
    {
        let ip = self.instruction_pointer;
        if ip as usize > self.instructions.len() {
            reveal(decode_spec);
            return Err(ExecError::Decode(Error::EndOfInstructionStream()));
        }
        let instruction = match self.decode_instruction() {
            Ok(i) => i,
            Err(e) => {
                return Err(ExecError::Decode(e));
            },
        };
        let next_ip = ip.wrapping_add(instruction.get_size() as u16);
        if self.apply(instruction, next_ip) {
            Ok(instruction)
        } else {
            Err(ExecError::Unsupported(Address(ip)))
        }
    }

    /// Applies the effect of `instruction`, with the instruction pointer moved
    /// to `next_ip` first; returns false, changing nothing, where the
    /// interpreter has no effect for it.
    fn apply(&mut self, instruction: Instruction, next_ip: u16) -> (ok: bool)
        ensures
            final(self).program() == old(self).program(),
            effect(instruction, CpuView { ip: next_ip, ..old(self).view() }) matches Some(next) ==> {
                &&& ok
                &&& final(self).view() == next
            },
            effect(instruction, CpuView { ip: next_ip, ..old(self).view() }) is None ==> {
                &&& !ok
                &&& final(self).view() == old(self).view()
            },
    {
        match instruction {
            Instruction::Mov { dst: Operand::Register(reg), src, .. } => self.apply_mov(reg, src, next_ip),
            Instruction::Add { dst: Operand::Register(reg), src, .. } => self.apply_add(reg, src, next_ip, false, true),
            Instruction::Sub { dst: Operand::Register(reg), src, .. } => self.apply_add(reg, src, next_ip, true, true),
            Instruction::Cmp { dst: Operand::Register(reg), src, .. } => self.apply_add(reg, src, next_ip, true, false),
            Instruction::Jne { ip_increment, .. } => {
                self.apply_jne(ip_increment, next_ip);
                true
            },
            _ => false,
        }
    }

    fn apply_mov(&mut self, reg: Register, src: Operand, next_ip: u16) -> (ok: bool)
        ensures
            final(self).program() == old(self).program(),
            operand_value(old(self).view().registers, src) matches Some(v) ==> {
                &&& ok
                &&& final(self).view() == (CpuView {
                    ip: next_ip,
                    registers: write_reg(old(self).view().registers, reg, v),
                    ..old(self).view()
                })
            },
            operand_value(old(self).view().registers, src) is None ==> {
                &&& !ok
                &&& final(self).view() == old(self).view()
            },
    {
        match self.get_operand_value(&src) {
            Some(v) => {
                self.instruction_pointer = next_ip;
                self.write_register(reg, v);
                true
            },
            None => false,
        }
    }

    /// Adds the value of `src`, negated when `negative` holds, to `reg`.
    fn apply_add(&mut self, reg: Register, src: Operand, next_ip: u16, negative: bool, store: bool) -> (ok: bool)
        ensures
            final(self).program() == old(self).program(),
            operand_value(old(self).view().registers, src) matches Some(v) ==> {
                &&& ok
                &&& final(self).view() == add_effect(
                    CpuView { ip: next_ip, ..old(self).view() },
                    reg,
                    if negative {
                        negate(v)
                    } else {
                        v
                    },
                    store,
                )
            },
            operand_value(old(self).view().registers, src) is None ==> {
                &&& !ok
                &&& final(self).view() == old(self).view()
            },
    {
        match self.get_operand_value(&src) {
            Some(v) => {
                self.instruction_pointer = next_ip;
                let addend = if negative {
                    0u16.wrapping_sub(v)
                } else {
                    v
                };
                self.add_to_register(reg, addend, store);
                true
            },
            None => false,
        }
    }

    fn apply_jne(&mut self, ip_increment: i8, next_ip: u16)
        ensures
            final(self).program() == old(self).program(),
            final(self).view() == (if old(self).view().zero {
                CpuView { ip: next_ip, ..old(self).view() }
            } else {
                CpuView { ip: ((next_ip + ip_increment) % 65536) as u16, ..old(self).view() }
            }),
    {
        if self.flags.get_zero_flag() {
            self.instruction_pointer = next_ip;
        } else {
            let target: i32 = next_ip as i32 + ip_increment as i32;
            self.instruction_pointer = if target < 0 {
                (target + 65536) as u16
            } else if target >= 65536 {
                (target - 65536) as u16
            } else {
                target as u16
            };
        }
    }

    /// Decodes the instruction at the instruction pointer.
    fn decode_instruction(&self) -> (r: Result<Instruction, Error>)
        requires
            self.view().ip <= self.program().len(),
        ensures
            r == decode_spec(self.program(), self.view().ip as int),
            r matches Ok(i) ==> i.size() >= 2,
    {
        let mut cursor = CountingPeekable::new(self.instructions, self.instruction_pointer as usize);
        decode_instruction(&mut cursor)
    }

    /// Runs at most `max_steps` steps, stopping early when the instruction
    /// pointer reaches the end of the image. Returns `Ok(true)` if it did,
    /// `Ok(false)` if the steps ran out first, or the error of the step that
    /// failed, with the state as it was before that step.
    pub fn exec(&mut self, max_steps: u64) -> (r: Result<bool, ExecError>)
        ensures
            final(self).program() == old(self).program(),
            (final(self).view(), r) == run(old(self).program(), old(self).view(), max_steps as nat),
    {
        let mut fuel = max_steps;
        while !self.is_halted()
            invariant
                self.program() == old(self).program(),
                run(old(self).program(), old(self).view(), max_steps as nat) == run(
                    self.program(),
                    self.view(),
                    fuel as nat,
                ),
            decreases fuel,
        {
            if fuel == 0 {
                return Ok(false);
            }
            match self.run_next_instruction() {
                Ok(_) => {},
                Err(e) => {
                    return Err(e);
                },
            }
            fuel = fuel - 1;
        }
        Ok(true)
    }

    /// The value of an operand, or `None` for a memory operand.
    fn get_operand_value(&self, op: &Operand) -> (r: Option<u16>)
        ensures
            operand_value(self.view().registers, *op) matches Some(v) ==> r == Some(v as u16),
            operand_value(self.view().registers, *op) is None ==> r is None,
    {
        match op {
            Operand::Register(reg) => Some(self.read_register(*reg)),
            Operand::Memory(_) => None,
            Operand::Immediate8(v) => Some(*v as u16),
            Operand::Immediate16(v) => Some(*v),
        }
    }

    /// Adds `src_value` to register `dst` in the register's width, sets the zero
    /// and sign flags from the sum, and stores the sum when `store` holds.
    fn add_to_register(&mut self, dst: Register, src_value: u16, store: bool)
        ensures
            final(self).program() == old(self).program(),
            final(self).view() == add_effect(old(self).view(), dst, src_value as int, store),
    {
        let current = self.read_register(dst);
        let (_, mask) = Self::get_register_index_and_mask(dst);
        let sum: u16 = if mask == 0xFFFF {
            current.wrapping_add(src_value)
        } else {
            (((current as u32) + (src_value as u32)) % 256) as u16
        };
        let negative = if mask == 0xFFFF {
            sum >= 0x8000
        } else {
            sum >= 0x80
        };
        self.flags.set_zero_flag(sum == 0);
        self.flags.set_sign_flag(negative);
        if store {
            self.write_register(dst, sum);
        }
        assert(self.view() =~~= add_effect(old(self).view(), dst, src_value as int, store));
    }
}

} // verus!
