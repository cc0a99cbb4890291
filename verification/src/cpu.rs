//! The processor: register file, status flags, and the per-opcode
//! cycle-stepped instruction state machine.

pub mod cpu_6502;
pub mod opcodes;
pub mod status_register;
