use sim8086::decode::{decode_instruction, CountingPeekable};
use sim8086::error::Error;
use sim8086::instruction::{Instruction, Jump};
use sim8086::memory::{Address, Displacement, Memory};
use sim8086::operand::Operand;
use sim8086::register::Register;

fn decode_at(bytes: &[u8], start: usize) -> Result<Instruction, Error> {
    let mut cursor = CountingPeekable::new(bytes, start);
    decode_instruction(&mut cursor)
}

#[test]
fn mov_word_immediate_to_register_is_three_bytes() {
    let i = decode_at(&[0xB8, 0x34, 0x12], 0).unwrap();
    assert_eq!(i.get_size(), 3);
    assert_eq!(
        i,
        Instruction::Mov {
            sz: 3,
            dst: Operand::Register(Register::Ax),
            src: Operand::Immediate16(0x1234),
        }
    );
}

#[test]
fn cmp_byte_registers_is_two_bytes() {
    let i = decode_at(&[0x38, 0xD8], 0).unwrap();
    assert_eq!(i.get_size(), 2);
    assert_eq!(
        i,
        Instruction::Cmp {
            sz: 2,
            dst: Operand::Register(Register::Al),
            src: Operand::Register(Register::Bl),
        }
    );
    assert_eq!(i.to_text(), "cmp al, bl");
}

#[test]
fn cursor_counts_consumed_bytes() {
    let bytes = [0x8B, 0x46, 0xFD, 0x90];
    let mut cursor = CountingPeekable::new(&bytes, 0);
    let i = decode_instruction(&mut cursor).unwrap();
    assert_eq!(cursor.get_count(), 3);
    assert_eq!(i.get_size(), 3);
    assert_eq!(cursor.peek(), Some((Address(3), 0x90)));
    cursor.reset_count();
    assert_eq!(cursor.get_count(), 0);
}

#[test]
fn cursor_try_next_fails_at_end() {
    let bytes = [0x01];
    let mut cursor = CountingPeekable::new(&bytes, 0);
    assert_eq!(cursor.try_next(), Ok((Address(0), 0x01)));
    assert_eq!(cursor.try_next(), Err(Error::EndOfInstructionStream()));
    assert_eq!(cursor.peek(), None);
}

#[test]
fn unknown_leading_byte_reports_byte_and_address() {
    assert_eq!(decode_at(&[0xB0, 0x00, 0x0F], 2), Err(Error::UnknownInstruction(0x0F, Address(2))));
    assert_eq!(decode_at(&[0x90], 0), Err(Error::UnknownInstruction(0x90, Address(0))));
}

#[test]
fn invalid_selector_in_immediate_arithmetic_is_unknown() {
    // Bits 3 to 5 of the addressing byte are 001, which names no operation here.
    assert_eq!(decode_at(&[0x83, 0xC8, 0x01], 0), Err(Error::UnknownInstruction(0x83, Address(0))));
}

#[test]
fn truncated_instruction_is_end_of_stream() {
    assert_eq!(decode_at(&[0xB8, 0x34], 0), Err(Error::EndOfInstructionStream()));
    assert_eq!(decode_at(&[0x8B, 0x86, 0x01], 0), Err(Error::EndOfInstructionStream()));
    assert_eq!(decode_at(&[], 0), Err(Error::EndOfInstructionStream()));
}

#[test]
fn direct_address_in_mode_zero() {
    // mov bx, [0x1000]: mode 00, code 110, a 16-bit direct address.
    let i = decode_at(&[0x8B, 0x1E, 0x00, 0x10], 0).unwrap();
    assert_eq!(
        i,
        Instruction::Mov {
            sz: 4,
            dst: Operand::Register(Register::Bx),
            src: Operand::Memory(Memory { displacement: Displacement::Disp16(0x1000), registers: [None, None] }),
        }
    );
    assert_eq!(i.to_text(), "mov bx, [4096]");
}

#[test]
fn bp_base_in_mode_one() {
    // mov ax, [bp - 3]: mode 01, code 110, an 8-bit displacement.
    let i = decode_at(&[0x8B, 0x46, 0xFD], 0).unwrap();
    assert_eq!(
        i,
        Instruction::Mov {
            sz: 3,
            dst: Operand::Register(Register::Ax),
            src: Operand::Memory(Memory { displacement: Displacement::Disp8(0xFD), registers: [Some(Register::Bp), None] }),
        }
    );
    assert_eq!(i.to_text(), "mov ax, [bp - 3]");
}

#[test]
fn effective_address_table() {
    assert_eq!(Register::effective_address_calculation(0b00_000_110), [None, None]);
    assert_eq!(Register::effective_address_calculation(0b01_000_110), [Some(Register::Bp), None]);
    assert_eq!(Register::effective_address_calculation(0b10_000_110), [Some(Register::Bp), None]);
    assert_eq!(Register::effective_address_calculation(0b00_000_000), [Some(Register::Bx), Some(Register::Si)]);
    assert_eq!(Register::effective_address_calculation(0b00_000_011), [Some(Register::Bp), Some(Register::Di)]);
    assert_eq!(Register::effective_address_calculation(0b01_000_111), [Some(Register::Bx), None]);
}

#[test]
fn from_mod_rm_displacements() {
    let bytes = [0x34, 0x12];
    let mut cursor = CountingPeekable::new(&bytes, 0);
    let op = Operand::from_mod_rm(1, 0b00_000_110, &mut cursor).unwrap();
    assert_eq!(op, Operand::Memory(Memory { displacement: Displacement::Disp16(0x1234), registers: [None, None] }));
    assert_eq!(cursor.get_count(), 2);

    let mut cursor = CountingPeekable::new(&bytes, 0);
    let op = Operand::from_mod_rm(1, 0b01_000_110, &mut cursor).unwrap();
    assert_eq!(op, Operand::Memory(Memory { displacement: Displacement::Disp8(0x34), registers: [Some(Register::Bp), None] }));
    assert_eq!(cursor.get_count(), 1);

    let mut cursor = CountingPeekable::new(&bytes, 0);
    let op = Operand::from_mod_rm(1, 0b00_000_001, &mut cursor).unwrap();
    assert_eq!(op, Operand::Memory(Memory { displacement: Displacement::Disp0, registers: [Some(Register::Bx), Some(Register::Di)] }));
    assert_eq!(cursor.get_count(), 0);

    let mut cursor = CountingPeekable::new(&bytes, 0);
    assert_eq!(Operand::from_mod_rm(0, 0b11_000_100, &mut cursor), Ok(Operand::Register(Register::Ah)));
}

#[test]
fn from_mod_reg_rm_orders_by_direction() {
    let bytes = [0b11_011_001];
    let mut cursor = CountingPeekable::new(&bytes, 0);
    let pair = Operand::from_mod_reg_rm(0, 1, &mut cursor).unwrap();
    assert_eq!(pair, [Operand::Register(Register::Cx), Operand::Register(Register::Bx)]);
    let mut cursor = CountingPeekable::new(&bytes, 0);
    let pair = Operand::from_mod_reg_rm(1, 1, &mut cursor).unwrap();
    assert_eq!(pair, [Operand::Register(Register::Bx), Operand::Register(Register::Cx)]);
}

#[test]
fn move_immediate_to_memory() {
    let bytes = [0x07, 0x05];
    let mut cursor = CountingPeekable::new(&bytes, 0);
    let pair = Operand::immediate(0, &mut cursor).unwrap();
    assert_eq!(pair[1], Operand::Immediate8(5));
    let i = decode_at(&[0xC6, 0x07, 0x05], 0).unwrap();
    assert_eq!(i.get_size(), 3);
    assert_eq!(i.to_text(), "mov [bx], byte 5");
    let i = decode_at(&[0xC7, 0x85, 0x10, 0x00, 0x2C, 0x01], 0).unwrap();
    assert_eq!(i.get_size(), 6);
    assert_eq!(i.to_text(), "mov [di + 16], word 300");
}

#[test]
fn decode_register_codes() {
    assert_eq!(Register::decode_reg(0, 0), Register::Al);
    assert_eq!(Register::decode_reg(0, 1), Register::Ax);
    assert_eq!(Register::decode_reg(4, 0), Register::Ah);
    assert_eq!(Register::decode_reg(4, 1), Register::Sp);
    assert_eq!(Register::decode_reg(7, 1), Register::Di);
    assert_eq!(Register::Bh.name(), "bh");
}

#[test]
fn immediate_arithmetic_forms() {
    // add word [bx + si], 300
    let i = decode_at(&[0x81, 0x00, 0x2C, 0x01], 0).unwrap();
    assert_eq!(i.to_text(), "add [bx + si], word 300");
    // sub ax, 255 with the sign bit set: one immediate byte, high byte zero.
    let i = decode_at(&[0x83, 0xE8, 0xFF], 0).unwrap();
    assert_eq!(i.get_size(), 3);
    assert_eq!(i.to_text(), "sub ax, word 255");
    // cmp byte [bp + si - 2], 7
    let i = decode_at(&[0x80, 0x7A, 0xFE, 0x07], 0).unwrap();
    assert_eq!(i.to_text(), "cmp [bp + si - 2], byte 7");
    // add al, 9 / sub ax, 1000
    assert_eq!(decode_at(&[0x04, 0x09], 0).unwrap().to_text(), "add al, byte 9");
    assert_eq!(decode_at(&[0x2D, 0xE8, 0x03], 0).unwrap().to_text(), "sub ax, word 1000");
}

#[test]
fn byte_accumulator_moves_use_a_word_address() {
    let i = decode_at(&[0xA0, 0x34, 0x12], 0).unwrap();
    assert_eq!(i.get_size(), 3);
    assert_eq!(
        i,
        Instruction::Mov {
            sz: 3,
            dst: Operand::Register(Register::Al),
            src: Operand::Memory(Memory { displacement: Displacement::Disp16(0x1234), registers: [None, None] }),
        }
    );
    assert_eq!(i.to_text(), "mov al, [4660]");
    assert_eq!(decode_at(&[0xA2, 0x00, 0x80], 0).unwrap().to_text(), "mov [32768], al");
    assert_eq!(decode_at(&[0xA0, 0x34], 0), Err(Error::EndOfInstructionStream()));
}

#[test]
fn direct_addresses_are_unsigned() {
    assert_eq!(decode_at(&[0x8B, 0x1E, 0xFF, 0xFF], 0).unwrap().to_text(), "mov bx, [65535]");
    assert_eq!(decode_at(&[0x89, 0x0E, 0x00, 0x80], 0).unwrap().to_text(), "mov [32768], cx");
    let m = Memory { displacement: Displacement::Disp16(0xFFFF), registers: [None, None] };
    assert_eq!(m.to_text(), "[65535]");
    let m = Memory { displacement: Displacement::Disp16(0xFFFF), registers: [Some(Register::Bx), None] };
    assert_eq!(m.to_text(), "[bx - 1]");
}

#[test]
fn unknown_leading_byte_is_not_consumed() {
    let bytes = [0x0F, 0x90];
    let mut cursor = CountingPeekable::new(&bytes, 0);
    assert_eq!(decode_instruction(&mut cursor), Err(Error::UnknownInstruction(0x0F, Address(0))));
    assert_eq!(cursor.get_count(), 0);
    assert_eq!(cursor.peek(), Some((Address(0), 0x0F)));
}

#[test]
fn accumulator_memory_moves() {
    let i = decode_at(&[0xA1, 0xFB, 0x09], 0).unwrap();
    assert_eq!(i.to_text(), "mov ax, [2555]");
    let i = decode_at(&[0xA3, 0x10, 0x00], 0).unwrap();
    assert_eq!(i.to_text(), "mov [16], ax");
}

#[test]
fn jumps() {
    let i = decode_at(&[0x75, 0xFB], 0).unwrap();
    assert_eq!(i, Instruction::Jne { sz: 2, ip_increment: -5 });
    assert_eq!(i.to_text(), "jne $-3");
    let j = i.to_jump().unwrap();
    assert_eq!(j, Jump::Jne { ip_increment: -5 });
    assert_eq!(j.ip_increment(), -5);
    assert_eq!(j.len(), 2);
    assert_eq!(j.mnemonic(), "jne");
    assert_eq!(decode_at(&[0xE2, 0x10], 0).unwrap().to_text(), "loop $18");
    assert_eq!(decode_at(&[0xE3, 0x00], 0).unwrap().to_jump(), Some(Jump::Jcxz { ip_increment: 0 }));
    assert_eq!(decode_at(&[0x89, 0xD9], 0).unwrap().to_jump(), None);
}
