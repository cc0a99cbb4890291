//! The CPU engine: the register file and the advance-one-bus-cycle
//! operation. Every call fetches the byte at the program counter into the
//! data latch and increments the counter, then either runs one cycle of the
//! active instruction or decodes the just-fetched byte as a new opcode.

use vstd::prelude::*;

use crate::address_decoder::AddressDecoder;
use crate::address_decoder::MapModel;
use crate::address_decoder::decode_read;
use crate::cpu::opcodes::Instruction;
use crate::cpu::opcodes::InstructionState;
use crate::cpu::opcodes::cycle_spec;
use crate::cpu::opcodes::decode_op;
use crate::cpu::opcodes::find_instruction;
use crate::cpu::opcodes::lemma_decode_op_cycles;
use crate::cpu::status_register::StatusRegister;
use crate::memory::hl_addr;

verus! {

/// The program counter after its per-cycle increment, wrapping at the top of
/// the 16-bit address space.
pub open spec fn pc_inc(pc: u16) -> u16 {
    if pc == 0xFFFF {
        0
    } else {
        (pc + 1) as u16
    }
}

/// The program counter after the correction a non-fetch cycle applies,
/// wrapping at the bottom of the 16-bit address space.
pub open spec fn pc_dec(pc: u16) -> u16 {
    if pc == 0 {
        0xFFFF
    } else {
        (pc - 1) as u16
    }
}

/// The high byte of the program counter.
pub open spec fn pc_high(pc: u16) -> u8 {
    (pc >> 8) as u8
}

/// The low byte of the program counter.
pub open spec fn pc_low(pc: u16) -> u8 {
    (pc & 0xFF) as u8
}

/// Splitting the program counter into high and low bytes and re-composing
/// them gives the program counter back.
pub proof fn lemma_pc_split(pc: u16)
    ensures
        hl_addr(pc_high(pc), pc_low(pc)) == pc,
{
    assert(((((pc >> 8) as u8) as u16) << 8) | (((pc & 0xFF) as u8) as u16) == pc) by (bit_vector);
}

pub fn pc_add_one(pc: u16) -> (r: u16)
    ensures
        r == pc_inc(pc),
{
    if pc == 0xFFFF {
        0
    } else {
        pc + 1
    }
}

pub fn pc_sub_one(pc: u16) -> (r: u16)
    ensures
        r == pc_dec(pc),
{
    if pc == 0 {
        0xFFFF
    } else {
        pc - 1
    }
}

/// The register file: accumulator, index registers, status flags, program
/// counter, stack pointer, and the three transient bus-latch fields (address
/// high, address low, and the last byte on the data bus).
pub struct Registers {
    pub a: u8,
    pub x: u8,
    pub y: u8,
    pub status: StatusRegister,
    pub pc: u16,
    pub stack: u8,
    pub adl: u8,
    pub adh: u8,
    pub data: u8,
}

pub struct CPU6502 {
    pub registers: Registers,
    pub instruction: Option<Instruction>,
    pub cycle: usize,
}

/// The register file after the unconditional per-cycle bus fetch: the address
/// latches hold the split program counter, the data latch holds the byte the
/// bus serves at that address, and the program counter has moved on by one.
pub open spec fn fetched(reg: Registers, ms: Seq<MapModel>) -> Registers {
    Registers {
        adh: pc_high(reg.pc),
        adl: pc_low(reg.pc),
        data: decode_read(ms, reg.pc),
        pc: pc_inc(reg.pc),
        ..reg
    }
}

/// The state one `tick` call produces: the new engine state, the new bus
/// contents, and whether an instruction is active afterwards.
pub open spec fn tick_spec(cpu: CPU6502, ms: Seq<MapModel>) -> (CPU6502, Seq<MapModel>, bool) {
    let reg1 = fetched(cpu.registers, ms);
    match cpu.instruction {
        Some(ins) => {
            let (ins2, reg2, ms2, st) = cycle_spec(ins, cpu.cycle as nat, reg1, ms);
            if st == InstructionState::Continue {
                (
                    CPU6502 {
                        registers: reg2,
                        instruction: Some(ins2),
                        cycle: (cpu.cycle + 1) as usize,
                    },
                    ms2,
                    true,
                )
            } else {
                (
                    CPU6502 { registers: reg2, instruction: decode_op(reg2.data), cycle: 0 },
                    ms2,
                    decode_op(reg2.data) is Some,
                )
            }
        },
        None => (
            CPU6502 { registers: reg1, instruction: decode_op(reg1.data), cycle: 0 },
            ms,
            decode_op(reg1.data) is Some,
        ),
    }
}

impl CPU6502 {
    /// The engine's internal consistency: while an instruction is active, the
    /// cycle index is within the instruction's contract. `tick` preserves
    /// this, so a cycle index outside an instruction's declared contract — a
    /// defect of the cycle table — can never occur.
    pub open spec fn wf(&self) -> bool {
        self.instruction matches Some(i) ==> self.cycle < i.cycle_count()
    }

    pub fn new() -> (r: Self)
        ensures
            r.wf(),
            r.instruction is None,
            r.cycle == 0,
            r.registers == (Registers {
                a: 0,
                x: 0,
                y: 0,
                status: StatusRegister { flags: 0 },
                pc: 0,
                stack: 0,
                adl: 0,
                adh: 0,
                data: 0,
            }),
    {
        Self {
            registers: Registers {
                a: 0,
                x: 0,
                y: 0,
                status: StatusRegister::new(0b00000000),
                pc: 0,
                stack: 0,
                adl: 0,
                adh: 0,
                data: 0,
            },
            instruction: None,
            cycle: 0,
        }
    }

    /// The unconditional per-cycle bus fetch: split the program counter into
    /// the address latches and read the byte there into the data latch. This
    /// happens on every cycle, whether or not the active instruction needs a
    /// fresh instruction-stream byte.
    pub fn update_buses(&mut self, address_bus: &AddressDecoder)
        requires
            address_bus.wf(),
        ensures
            final(self).registers == (Registers {
                adh: pc_high(old(self).registers.pc),
                adl: pc_low(old(self).registers.pc),
                data: decode_read(address_bus.mappings(), old(self).registers.pc),
                ..old(self).registers
            }),
            final(self).instruction == old(self).instruction,
            final(self).cycle == old(self).cycle,
    {
        proof {
            lemma_pc_split(self.registers.pc);
            let pc = self.registers.pc;
            assert(((pc & 0xFF00) >> 8) as u8 == (pc >> 8) as u8) by (bit_vector);
            assert((pc & 0x00FF) as u8 == (pc & 0xFF) as u8) by (bit_vector);
        }
        self.registers.adh = ((self.registers.pc & 0xFF00) >> 8) as u8;
        self.registers.adl = (self.registers.pc & 0x00FF) as u8;
        self.registers.data = address_bus.get_hl(self.registers.adh, self.registers.adl);
    }

    /// Decode the byte in the data latch as a fresh opcode and reset the
    /// cycle counter.
    pub fn next_instruction(&mut self)
        ensures
            final(self).wf(),
            final(self).registers == old(self).registers,
            final(self).instruction == decode_op(old(self).registers.data),
            final(self).cycle == 0,
    {
        proof {
            lemma_decode_op_cycles(self.registers.data);
        }
        self.instruction = find_instruction(self.registers.data);
        self.cycle = 0;
    }

    /// Advance one bus cycle: fetch at the program counter, increment it,
    /// then run one cycle of the active instruction — or, if none is active
    /// or the active one just finished, decode the just-fetched byte as a new
    /// opcode. Returns whether an instruction is active afterwards; `false`
    /// means the most recently fetched byte matched no known opcode, for this
    /// cycle only.
    pub fn tick(&mut self, address_bus: &mut AddressDecoder) -> (r: bool)
        requires
            old(self).wf(),
            old(address_bus).wf(),
        ensures
            final(self).wf(),
            final(address_bus).wf(),
            (*final(self), final(address_bus).mappings(), r) == tick_spec(
                *old(self),
                old(address_bus).mappings(),
            ),
    {
        self.update_buses(address_bus);
        self.registers.pc = pc_add_one(self.registers.pc);
        let cur = self.instruction;
        match cur {
            Some(ins) => {
                let (ins2, st) = ins.cycle(self.cycle, &mut self.registers, address_bus);
                match st {
                    InstructionState::Continue => {
                        self.instruction = Some(ins2);
                        self.cycle = self.cycle + 1;
                    },
                    InstructionState::Finished => {
                        self.next_instruction();
                    },
                }
            },
            None => {
                self.next_instruction();
            },
        }
        self.instruction.is_some()
    }
}

} // verus!
