use emu6502::address_decoder::AddressDecoder;
use emu6502::cpu::cpu_6502::CPU6502;
use emu6502::cpu::opcodes::find_instruction;
use emu6502::cpu::status_register::StatusRegister;
use emu6502::memory::ram::RAM;

// A machine whose first page is RAM holding `prog`, with the program counter
// at 0. The first `tick` fetches and dispatches the first opcode; each
// instruction then takes exactly its declared number of cycles.
fn machine(prog: [u8; 0x100]) -> (CPU6502, AddressDecoder) {
    let mut bus = AddressDecoder::new();
    bus.add_device(0x0000, 0x00FF, RAM::new(Some(prog)).into_device());
    (CPU6502::new(), bus)
}

#[test]
fn lda_immediate_loads_value() {
    let mut prog = [0u8; 0x100];
    prog[0] = 0xA9;
    prog[1] = 0x05;
    let (mut cpu, mut bus) = machine(prog);
    assert!(cpu.tick(&mut bus)); // dispatch
    cpu.tick(&mut bus); // cycle 0: latch operand
    cpu.tick(&mut bus); // cycle 1: commit
    assert_eq!(cpu.registers.a, 5);
    assert!(!cpu.registers.status.flag(StatusRegister::ZERO));
    assert!(!cpu.registers.status.flag(StatusRegister::NEGATIVE));
}

#[test]
fn lda_immediate_zero_sets_zero_flag() {
    let mut prog = [0u8; 0x100];
    prog[0] = 0xA9;
    prog[1] = 0x00;
    let (mut cpu, mut bus) = machine(prog);
    cpu.tick(&mut bus);
    cpu.tick(&mut bus);
    cpu.tick(&mut bus);
    assert_eq!(cpu.registers.a, 0);
    assert!(cpu.registers.status.flag(StatusRegister::ZERO));
}

#[test]
fn lda_immediate_negative_sets_negative_flag() {
    let mut prog = [0u8; 0x100];
    prog[0] = 0xA9;
    prog[1] = 0x80;
    let (mut cpu, mut bus) = machine(prog);
    cpu.tick(&mut bus);
    cpu.tick(&mut bus);
    cpu.tick(&mut bus);
    assert_eq!(cpu.registers.a, 0x80);
    assert!(cpu.registers.status.flag(StatusRegister::NEGATIVE));
}

#[test]
fn adc_absolute_adds_memory() {
    let mut prog = [0u8; 0x100];
    prog[0] = 0x6D;
    prog[1] = 0x10;
    prog[2] = 0x00;
    prog[0x10] = 0x05;
    let (mut cpu, mut bus) = machine(prog);
    cpu.registers.a = 0x01;
    cpu.tick(&mut bus); // dispatch
    for _ in 0..4 {
        cpu.tick(&mut bus);
    }
    assert_eq!(cpu.registers.a, 0x06);
    assert!(!cpu.registers.status.flag(StatusRegister::CARRY));
    assert!(!cpu.registers.status.flag(StatusRegister::ZERO));
    assert!(!cpu.registers.status.flag(StatusRegister::NEGATIVE));
    assert!(!cpu.registers.status.flag(StatusRegister::OVERFLOW));
}

#[test]
fn adc_absolute_uses_carry_in() {
    let mut prog = [0u8; 0x100];
    prog[0] = 0x6D;
    prog[1] = 0x10;
    prog[2] = 0x00;
    prog[0x10] = 0x05;
    let (mut cpu, mut bus) = machine(prog);
    cpu.registers.a = 0x01;
    cpu.registers.status.set_flag(StatusRegister::CARRY);
    cpu.tick(&mut bus);
    for _ in 0..4 {
        cpu.tick(&mut bus);
    }
    // 1 + 5 + carry-in = 7; the sum fits, so CARRY is cleared.
    assert_eq!(cpu.registers.a, 0x07);
    assert!(!cpu.registers.status.flag(StatusRegister::CARRY));
}

#[test]
fn adc_absolute_wraps_and_sets_carry_zero_overflow() {
    let mut prog = [0u8; 0x100];
    prog[0] = 0x6D;
    prog[1] = 0x10;
    prog[2] = 0x00;
    prog[0x10] = 0x80;
    let (mut cpu, mut bus) = machine(prog);
    cpu.registers.a = 0x80;
    cpu.tick(&mut bus);
    for _ in 0..4 {
        cpu.tick(&mut bus);
    }
    // 0x80 + 0x80 = 0x100: truncates to 0, carries out, and bit 7 of the
    // original accumulator (1) differs from bit 7 of the result (0).
    assert_eq!(cpu.registers.a, 0x00);
    assert!(cpu.registers.status.flag(StatusRegister::CARRY));
    assert!(cpu.registers.status.flag(StatusRegister::ZERO));
    assert!(!cpu.registers.status.flag(StatusRegister::NEGATIVE));
    assert!(cpu.registers.status.flag(StatusRegister::OVERFLOW));
}

#[test]
fn sta_absolute_stores_accumulator() {
    let mut prog = [0u8; 0x100];
    prog[0] = 0x8D;
    prog[1] = 0x00;
    prog[2] = 0x20;
    let mut bus = AddressDecoder::new();
    bus.add_device(0x0000, 0x00FF, RAM::new(Some(prog)).into_device());
    bus.add_device(0x2000, 0x2FFF, RAM::<0x1000>::new(None).into_device());
    let mut cpu = CPU6502::new();
    cpu.registers.a = 0x42;
    cpu.tick(&mut bus); // dispatch
    for _ in 0..4 {
        cpu.tick(&mut bus);
    }
    assert_eq!(bus.get(0x2000), 0x42);
}

#[test]
fn lda_absolute_loads_memory() {
    let mut prog = [0u8; 0x100];
    prog[0] = 0xAD;
    prog[1] = 0x40;
    prog[2] = 0x00;
    prog[0x40] = 0x7F;
    let (mut cpu, mut bus) = machine(prog);
    cpu.tick(&mut bus);
    for _ in 0..4 {
        cpu.tick(&mut bus);
    }
    assert_eq!(cpu.registers.a, 0x7F);
    assert!(!cpu.registers.status.flag(StatusRegister::ZERO));
    assert!(!cpu.registers.status.flag(StatusRegister::NEGATIVE));
}

#[test]
fn clc_clears_carry_only() {
    let mut prog = [0u8; 0x100];
    prog[0] = 0x18;
    let (mut cpu, mut bus) = machine(prog);
    cpu.registers.status.set_flag(StatusRegister::CARRY);
    cpu.registers.status.set_flag(StatusRegister::NEGATIVE);
    cpu.tick(&mut bus); // dispatch
    cpu.tick(&mut bus);
    cpu.tick(&mut bus);
    assert!(!cpu.registers.status.flag(StatusRegister::CARRY));
    assert!(cpu.registers.status.flag(StatusRegister::NEGATIVE));
}

#[test]
fn cld_clears_decimal_mode_only() {
    let mut prog = [0u8; 0x100];
    prog[0] = 0xD8;
    let (mut cpu, mut bus) = machine(prog);
    cpu.registers.status.set_flag(StatusRegister::DECIMAL_MODE);
    cpu.registers.status.set_flag(StatusRegister::CARRY);
    cpu.tick(&mut bus); // dispatch
    cpu.tick(&mut bus);
    cpu.tick(&mut bus);
    assert!(!cpu.registers.status.flag(StatusRegister::DECIMAL_MODE));
    assert!(cpu.registers.status.flag(StatusRegister::CARRY));
}

#[test]
fn unknown_opcode_reports_inactive_and_keeps_fetching() {
    let mut prog = [0u8; 0x100];
    prog[0] = 0xFF;
    prog[1] = 0xA9;
    prog[2] = 0x05;
    let (mut cpu, mut bus) = machine(prog);
    // The call that fetches the unknown byte reports no active instruction,
    // but the program counter still advances by one.
    assert!(!cpu.tick(&mut bus));
    assert_eq!(cpu.registers.pc, 1);
    assert!(cpu.instruction.is_none());
    // The next call decodes the following byte and execution proceeds.
    assert!(cpu.tick(&mut bus));
    cpu.tick(&mut bus);
    cpu.tick(&mut bus);
    assert_eq!(cpu.registers.a, 5);
}

#[test]
fn tick_always_fetches_into_latches() {
    let mut prog = [0u8; 0x100];
    prog[0] = 0xFF;
    let (mut cpu, mut bus) = machine(prog);
    cpu.tick(&mut bus);
    assert_eq!(cpu.registers.adh, 0x00);
    assert_eq!(cpu.registers.adl, 0x00);
    assert_eq!(cpu.registers.data, 0xFF);
}

#[test]
fn find_instruction_recognizes_known_opcodes() {
    assert!(find_instruction(0x18).is_some());
    assert!(find_instruction(0x6D).is_some());
    assert!(find_instruction(0x8D).is_some());
    assert!(find_instruction(0xA9).is_some());
    assert!(find_instruction(0xAD).is_some());
    assert!(find_instruction(0xD8).is_some());
    assert!(find_instruction(0xFF).is_none());
    assert!(find_instruction(0x60).is_none());
    assert!(find_instruction(0x00).is_none());
}

#[test]
fn back_to_back_instructions_share_the_fetch_cycle() {
    // Two immediate loads in a row: the cycle that finishes the first one
    // also fetches and dispatches the second opcode.
    let mut prog = [0u8; 0x100];
    prog[0] = 0xA9;
    prog[1] = 0x05;
    prog[2] = 0xA9;
    prog[3] = 0x80;
    let (mut cpu, mut bus) = machine(prog);
    assert!(cpu.tick(&mut bus)); // dispatch first load
    assert!(cpu.tick(&mut bus)); // latch 0x05
    assert!(cpu.tick(&mut bus)); // commit 0x05, dispatch second load
    assert_eq!(cpu.registers.a, 0x05);
    assert!(cpu.tick(&mut bus)); // latch 0x80
    // The commit cycle fetches the byte after the program, which is no known
    // opcode, so the engine reports no active instruction for that cycle.
    assert!(!cpu.tick(&mut bus)); // commit 0x80
    assert_eq!(cpu.registers.a, 0x80);
    assert!(cpu.registers.status.flag(StatusRegister::NEGATIVE));
}
