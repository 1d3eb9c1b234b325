use sim8086::cpu_state::{CpuState, CpuStateFlags, ExecError};
use sim8086::instruction::Instruction;
use sim8086::memory::Address;
use sim8086::register::Register;

#[test]
fn byte_writes_keep_the_other_byte() {
    let mut cpu = CpuState::new(&[]);
    cpu.write_register(Register::Ax, 0x1234);
    cpu.write_register(Register::Al, 0xFF);
    assert_eq!(cpu.read_register(Register::Ax), 0x12FF);
    cpu.write_register(Register::Ax, 0x1234);
    cpu.write_register(Register::Ah, 0xFF);
    assert_eq!(cpu.read_register(Register::Ax), 0xFF34);
    assert_eq!(cpu.read_register(Register::Ah), 0xFF);
    assert_eq!(cpu.read_register(Register::Al), 0x34);
}

#[test]
fn byte_moves_in_a_program() {
    // mov ax, 0x1234; mov al, 0xff; mov bh, 0xab; mov bl, ah
    let program = [0xB8, 0x34, 0x12, 0xB0, 0xFF, 0xB7, 0xAB, 0x88, 0xE3];
    let mut cpu = CpuState::new(&program);
    assert_eq!(cpu.exec(100), Ok(true));
    assert_eq!(cpu.registers(), [0x12FF, 0xAB12, 0, 0, 0, 0, 0, 0]);
    assert_eq!(cpu.instruction_pointer(), 9);
}

#[test]
fn add_sets_zero_and_sign() {
    // mov ax, 0xffff; add ax, 1
    let program = [0xB8, 0xFF, 0xFF, 0x05, 0x01, 0x00];
    let mut cpu = CpuState::new(&program);
    assert_eq!(cpu.exec(100), Ok(true));
    assert_eq!(cpu.read_register(Register::Ax), 0);
    assert!(cpu.flags().get_zero_flag());
    assert!(!cpu.flags().get_sign_flag());

    // mov bx, 0x1234; mov bl, 0x7f; add bl, 1
    let program = [0xBB, 0x34, 0x12, 0xB3, 0x7F, 0x80, 0xC3, 0x01];
    let mut cpu = CpuState::new(&program);
    assert_eq!(cpu.exec(100), Ok(true));
    assert_eq!(cpu.read_register(Register::Bx), 0x1280);
    assert!(!cpu.flags().get_zero_flag());
    assert!(cpu.flags().get_sign_flag());
}

#[test]
fn high_byte_arithmetic() {
    // mov ax, 0x10ff; add ah, 0xf0; sub ah, 1
    let program = [0xB8, 0xFF, 0x10, 0x80, 0xC4, 0xF0, 0x80, 0xEC, 0x01];
    let mut cpu = CpuState::new(&program);
    assert_eq!(cpu.exec(100), Ok(true));
    assert_eq!(cpu.read_register(Register::Ax), 0xFFFF);
    assert!(cpu.flags().get_sign_flag());
    assert!(!cpu.flags().get_zero_flag());
}

#[test]
fn cmp_sets_flags_without_storing() {
    // mov bx, 5; cmp bx, 5
    let program = [0xBB, 0x05, 0x00, 0x83, 0xFB, 0x05];
    let mut cpu = CpuState::new(&program);
    assert_eq!(cpu.exec(100), Ok(true));
    assert_eq!(cpu.read_register(Register::Bx), 5);
    assert!(cpu.flags().get_zero_flag());

    // mov bx, 5; sub bx, 6
    let program = [0xBB, 0x05, 0x00, 0x83, 0xEB, 0x06];
    let mut cpu = CpuState::new(&program);
    assert_eq!(cpu.exec(100), Ok(true));
    assert_eq!(cpu.read_register(Register::Bx), 0xFFFF);
    assert!(cpu.flags().get_sign_flag());
    assert!(!cpu.flags().get_zero_flag());

    // mov bx, 5; cmp bx, 6
    let program = [0xBB, 0x05, 0x00, 0x83, 0xFB, 0x06];
    let mut cpu = CpuState::new(&program);
    assert_eq!(cpu.exec(100), Ok(true));
    assert_eq!(cpu.read_register(Register::Bx), 5);
    assert!(cpu.flags().get_sign_flag());
    assert!(!cpu.flags().get_zero_flag());
}

#[test]
fn jne_taken_when_zero_clear() {
    // five two-byte moves, then at address 10: jne -5
    let program = [0xB0, 0x00, 0xB0, 0x00, 0xB0, 0x00, 0xB0, 0x00, 0xB0, 0x00, 0x75, 0xFB];
    let mut cpu = CpuState::new(&program);
    assert_eq!(cpu.exec(5), Ok(false));
    assert_eq!(cpu.instruction_pointer(), 10);
    assert!(!cpu.flags().get_zero_flag());
    assert_eq!(cpu.run_next_instruction(), Ok(Instruction::Jne { sz: 2, ip_increment: -5 }));
    assert_eq!(cpu.instruction_pointer(), 7);
}

#[test]
fn jne_not_taken_when_zero_set() {
    // four two-byte moves, cmp al, 0, then at address 10: jne -5
    let program = [0xB0, 0x00, 0xB0, 0x00, 0xB0, 0x00, 0xB0, 0x00, 0x3C, 0x00, 0x75, 0xFB];
    let mut cpu = CpuState::new(&program);
    assert_eq!(cpu.exec(5), Ok(false));
    assert_eq!(cpu.instruction_pointer(), 10);
    assert!(cpu.flags().get_zero_flag());
    cpu.run_next_instruction().unwrap();
    assert_eq!(cpu.instruction_pointer(), 12);
    assert!(cpu.is_halted());
}

#[test]
fn counting_loop() {
    // mov cx, 3; mov ax, 0; add ax, 2; sub cx, 1; jne -8
    let program = [0xB9, 0x03, 0x00, 0xB8, 0x00, 0x00, 0x83, 0xC0, 0x02, 0x83, 0xE9, 0x01, 0x75, 0xF8];
    let mut cpu = CpuState::new(&program);
    assert_eq!(cpu.exec(1000), Ok(true));
    assert_eq!(cpu.read_register(Register::Ax), 6);
    assert_eq!(cpu.read_register(Register::Cx), 0);
    assert_eq!(cpu.instruction_pointer(), 14);
}

#[test]
fn endless_loop_runs_out_of_steps() {
    let program = [0x75, 0xFE];
    let mut cpu = CpuState::new(&program);
    assert_eq!(cpu.exec(50), Ok(false));
    assert_eq!(cpu.instruction_pointer(), 0);
}

#[test]
fn unsupported_instructions_stop_without_change() {
    // mov ax, 1; je 0
    let program = [0xB8, 0x01, 0x00, 0x74, 0x00];
    let mut cpu = CpuState::new(&program);
    assert_eq!(cpu.exec(100), Err(ExecError::Unsupported(Address(3))));
    assert_eq!(cpu.instruction_pointer(), 3);
    assert_eq!(cpu.read_register(Register::Ax), 1);

    // mov [bx], ax
    let program = [0x89, 0x07];
    let mut cpu = CpuState::new(&program);
    assert_eq!(cpu.exec(100), Err(ExecError::Unsupported(Address(0))));
}

#[test]
fn decode_errors_stop_execution() {
    let program = [0xB8, 0x01, 0x00, 0x0F];
    let mut cpu = CpuState::new(&program);
    assert_eq!(
        cpu.exec(100),
        Err(ExecError::Decode(sim8086::error::Error::UnknownInstruction(0x0F, Address(3))))
    );
    let program = [0xB8, 0x01];
    let mut cpu = CpuState::new(&program);
    assert_eq!(cpu.exec(100), Err(ExecError::Decode(sim8086::error::Error::EndOfInstructionStream())));
}

#[test]
fn flags_are_independent_bits() {
    let mut flags = CpuStateFlags::new();
    assert!(!flags.get_zero_flag());
    assert!(!flags.get_sign_flag());
    assert_eq!(flags.to_text(), "");
    flags.set_zero_flag(true);
    assert!(flags.get_zero_flag());
    assert!(!flags.get_sign_flag());
    flags.set_sign_flag(true);
    assert_eq!(flags.to_text(), "ZS");
    flags.set_zero_flag(false);
    assert!(flags.get_sign_flag());
    assert_eq!(flags.to_text(), "S");
}
