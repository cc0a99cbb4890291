//! The per-opcode cycle state machines. One `Instruction` value is live at a
//! time; it carries only the scratch state needed to finish the one
//! instruction being executed (latched address bytes or a latched operand).
//!
//! Every cycle of the engine fetches a byte at the program counter and
//! increments the counter. A cycle that repurposes the bus for an
//! effective-address access instead of an instruction-stream fetch must
//! therefore decrement the program counter by one to cancel the spurious
//! increment; that correction is part of each such cycle's contract here.

use vstd::prelude::*;

use crate::address_decoder::AddressDecoder;
use crate::address_decoder::MapModel;
use crate::address_decoder::decode_read;
use crate::address_decoder::decode_write;
use crate::cpu::cpu_6502::Registers;
use crate::cpu::cpu_6502::pc_dec;
use crate::cpu::cpu_6502::pc_sub_one;
use crate::cpu::status_register::StatusRegister;
use crate::cpu::status_register::apply_flag;
use crate::cpu::status_register::bit_set;
use crate::cpu::status_register::flag_bit;
use crate::cpu::status_register::lemma_apply_flag_bits;
use crate::memory::hl_addr;

verus! {

/// Whether the instruction needs more bus cycles or has completed.
#[derive(Clone, Copy, Debug, PartialEq, Eq, Structural)]
pub enum InstructionState {
    Continue,
    Finished,
}

/// The closed set of supported opcodes, each variant carrying its
/// addressing-mode scratch state.
#[derive(Clone, Copy, Debug, PartialEq, Eq, Structural)]
pub enum Instruction {
    /// Add with carry, absolute addressing.
    AdcAbs { adh: u8, adl: u8 },
    /// Clear the carry flag, implied addressing.
    Clc,
    /// Clear the decimal-mode flag, implied addressing.
    Cld,
    /// Load the accumulator, immediate addressing.
    LdaImm { data: u8 },
    /// Load the accumulator, absolute addressing.
    LdaAbs { adh: u8, adl: u8 },
    /// Store the accumulator, absolute addressing.
    StaAbs { adh: u8, adl: u8 },
}

/// The unbounded sum of accumulator, operand and carry-in.
pub open spec fn adc_total(a: u8, m: u8, carry: bool) -> int {
    a + m + (if carry {
        1int
    } else {
        0int
    })
}

/// The new accumulator: the sum truncated to 8 bits.
pub open spec fn adc_result(a: u8, m: u8, carry: bool) -> u8 {
    (adc_total(a, m, carry) % 256) as u8
}

/// The status byte after an add-with-carry: CARRY iff the sum exceeded 255,
/// ZERO iff the truncated sum is zero, NEGATIVE iff its bit 7 is set, and
/// OVERFLOW iff bit 7 of the original accumulator differs from bit 7 of the
/// truncated sum.
pub open spec fn adc_flags(flags: u8, a: u8, m: u8, carry: bool) -> u8 {
    let res = adc_result(a, m, carry);
    apply_flag(
        apply_flag(
            apply_flag(
                apply_flag(flags, StatusRegister::CARRY, adc_total(a, m, carry) > 255),
                StatusRegister::ZERO,
                res == 0,
            ),
            StatusRegister::NEGATIVE,
            bit_set(res, StatusRegister::NEGATIVE),
        ),
        StatusRegister::OVERFLOW,
        bit_set(a, StatusRegister::NEGATIVE) != bit_set(res, StatusRegister::NEGATIVE),
    )
}

/// The status byte after a register load: ZERO iff the loaded value is zero,
/// NEGATIVE iff its bit 7 is set.
pub open spec fn load_flags(flags: u8, res: u8) -> u8 {
    apply_flag(
        apply_flag(flags, StatusRegister::ZERO, res == 0),
        StatusRegister::NEGATIVE,
        bit_set(res, StatusRegister::NEGATIVE),
    )
}

/// Law: add-with-carry. The new accumulator is `(a + m + carry) mod 256`;
/// CARRY is set iff the unbounded sum exceeds 255; ZERO iff the new
/// accumulator is zero; NEGATIVE iff its bit 7 is set; OVERFLOW iff bit 7 of
/// the original accumulator differs from bit 7 of the truncated sum; every
/// other status bit keeps its old value.
pub proof fn lemma_adc(flags: u8, a: u8, m: u8, carry: bool)
    ensures
        adc_result(a, m, carry) == adc_total(a, m, carry) % 256,
        bit_set(adc_flags(flags, a, m, carry), StatusRegister::CARRY) == (adc_total(a, m, carry)
            > 255),
        bit_set(adc_flags(flags, a, m, carry), StatusRegister::ZERO) == (adc_result(a, m, carry)
            == 0),
        bit_set(adc_flags(flags, a, m, carry), StatusRegister::NEGATIVE) == bit_set(
            adc_result(a, m, carry),
            StatusRegister::NEGATIVE,
        ),
        bit_set(adc_flags(flags, a, m, carry), StatusRegister::OVERFLOW) == (bit_set(
            a,
            StatusRegister::NEGATIVE,
        ) != bit_set(adc_result(a, m, carry), StatusRegister::NEGATIVE)),
        forall|d: u8|
            flag_bit(d) && d != StatusRegister::CARRY && d != StatusRegister::ZERO && d
                != StatusRegister::NEGATIVE && d != StatusRegister::OVERFLOW ==> bit_set(
                adc_flags(flags, a, m, carry),
                d,
            ) == bit_set(flags, d),
{
    let res = adc_result(a, m, carry);
    let c = adc_total(a, m, carry) > 255;
    let z = res == 0;
    let n = bit_set(res, StatusRegister::NEGATIVE);
    let v = bit_set(a, StatusRegister::NEGATIVE) != n;
    let f1 = apply_flag(flags, StatusRegister::CARRY, c);
    let f2 = apply_flag(f1, StatusRegister::ZERO, z);
    let f3 = apply_flag(f2, StatusRegister::NEGATIVE, n);
    lemma_apply_flag_bits(flags, StatusRegister::CARRY, c, StatusRegister::CARRY);
    lemma_apply_flag_bits(f1, StatusRegister::ZERO, z, StatusRegister::CARRY);
    lemma_apply_flag_bits(f2, StatusRegister::NEGATIVE, n, StatusRegister::CARRY);
    lemma_apply_flag_bits(f3, StatusRegister::OVERFLOW, v, StatusRegister::CARRY);
    lemma_apply_flag_bits(f1, StatusRegister::ZERO, z, StatusRegister::ZERO);
    lemma_apply_flag_bits(f2, StatusRegister::NEGATIVE, n, StatusRegister::ZERO);
    lemma_apply_flag_bits(f3, StatusRegister::OVERFLOW, v, StatusRegister::ZERO);
    lemma_apply_flag_bits(f2, StatusRegister::NEGATIVE, n, StatusRegister::NEGATIVE);
    lemma_apply_flag_bits(f3, StatusRegister::OVERFLOW, v, StatusRegister::NEGATIVE);
    lemma_apply_flag_bits(f3, StatusRegister::OVERFLOW, v, StatusRegister::OVERFLOW);
    assert forall|d: u8|
        flag_bit(d) && d != StatusRegister::CARRY && d != StatusRegister::ZERO && d
            != StatusRegister::NEGATIVE && d != StatusRegister::OVERFLOW implies bit_set(
        adc_flags(flags, a, m, carry),
        d,
    ) == bit_set(flags, d) by {
        lemma_apply_flag_bits(flags, StatusRegister::CARRY, c, d);
        lemma_apply_flag_bits(f1, StatusRegister::ZERO, z, d);
        lemma_apply_flag_bits(f2, StatusRegister::NEGATIVE, n, d);
        lemma_apply_flag_bits(f3, StatusRegister::OVERFLOW, v, d);
    }
}

impl Instruction {
    /// The number of bus cycles the instruction's contract covers.
    pub open spec fn cycle_count(&self) -> nat {
        match self {
            Instruction::AdcAbs { .. } => 4,
            Instruction::Clc => 2,
            Instruction::Cld => 2,
            Instruction::LdaImm { .. } => 2,
            Instruction::LdaAbs { .. } => 4,
            Instruction::StaAbs { .. } => 4,
        }
    }
}

/// One cycle of add-with-carry, absolute: latch the low then the high address
/// byte; then read the operand at the formed address, add it and the carry
/// into the accumulator, update CARRY, ZERO, NEGATIVE and OVERFLOW, and
/// cancel the spurious program-counter increment; the last cycle is a pure
/// bus-timing filler.
pub open spec fn adc_abs_spec(adh: u8, adl: u8, step: nat, reg: Registers, ms: Seq<MapModel>) -> (
    Instruction,
    Registers,
    Seq<MapModel>,
    InstructionState,
) {
    if step == 0 {
        (Instruction::AdcAbs { adh, adl: reg.data }, reg, ms, InstructionState::Continue)
    } else if step == 1 {
        (Instruction::AdcAbs { adh: reg.data, adl }, reg, ms, InstructionState::Continue)
    } else if step == 2 {
        let m = decode_read(ms, hl_addr(adh, adl));
        let carry = bit_set(reg.status.flags, StatusRegister::CARRY);
        (
            Instruction::AdcAbs { adh, adl },
            Registers {
                a: adc_result(reg.a, m, carry),
                status: StatusRegister { flags: adc_flags(reg.status.flags, reg.a, m, carry) },
                pc: pc_dec(reg.pc),
                adh,
                adl,
                data: m,
                ..reg
            },
            ms,
            InstructionState::Continue,
        )
    } else {
        (Instruction::AdcAbs { adh, adl }, reg, ms, InstructionState::Finished)
    }
}

/// One cycle of clear-carry, implied: cancel the spurious program-counter
/// increment, then clear the flag and finish.
pub open spec fn clc_spec(step: nat, reg: Registers, ms: Seq<MapModel>) -> (
    Instruction,
    Registers,
    Seq<MapModel>,
    InstructionState,
) {
    if step == 0 {
        (Instruction::Clc, Registers { pc: pc_dec(reg.pc), ..reg }, ms, InstructionState::Continue)
    } else {
        (
            Instruction::Clc,
            Registers {
                status: StatusRegister {
                    flags: apply_flag(reg.status.flags, StatusRegister::CARRY, false),
                },
                ..reg
            },
            ms,
            InstructionState::Finished,
        )
    }
}

/// One cycle of clear-decimal-mode, implied: cancel the spurious
/// program-counter increment, then clear the flag and finish.
pub open spec fn cld_spec(step: nat, reg: Registers, ms: Seq<MapModel>) -> (
    Instruction,
    Registers,
    Seq<MapModel>,
    InstructionState,
) {
    if step == 0 {
        (Instruction::Cld, Registers { pc: pc_dec(reg.pc), ..reg }, ms, InstructionState::Continue)
    } else {
        (
            Instruction::Cld,
            Registers {
                status: StatusRegister {
                    flags: apply_flag(reg.status.flags, StatusRegister::DECIMAL_MODE, false),
                },
                ..reg
            },
            ms,
            InstructionState::Finished,
        )
    }
}

/// One cycle of load-accumulator, immediate: latch the just-fetched operand,
/// then commit it to the accumulator, update ZERO and NEGATIVE, and finish.
pub open spec fn lda_imm_spec(data: u8, step: nat, reg: Registers, ms: Seq<MapModel>) -> (
    Instruction,
    Registers,
    Seq<MapModel>,
    InstructionState,
) {
    if step == 0 {
        (Instruction::LdaImm { data: reg.data }, reg, ms, InstructionState::Continue)
    } else {
        (
            Instruction::LdaImm { data },
            Registers {
                a: data,
                status: StatusRegister { flags: load_flags(reg.status.flags, data) },
                ..reg
            },
            ms,
            InstructionState::Finished,
        )
    }
}

/// One cycle of load-accumulator, absolute: latch the low then the high
/// address byte; then read the byte at the formed address into the
/// accumulator, update ZERO and NEGATIVE, and cancel the spurious
/// program-counter increment; the last cycle is a pure bus-timing filler.
pub open spec fn lda_abs_spec(adh: u8, adl: u8, step: nat, reg: Registers, ms: Seq<MapModel>) -> (
    Instruction,
    Registers,
    Seq<MapModel>,
    InstructionState,
) {
    if step == 0 {
        (Instruction::LdaAbs { adh, adl: reg.data }, reg, ms, InstructionState::Continue)
    } else if step == 1 {
        (Instruction::LdaAbs { adh: reg.data, adl }, reg, ms, InstructionState::Continue)
    } else if step == 2 {
        let m = decode_read(ms, hl_addr(adh, adl));
        (
            Instruction::LdaAbs { adh, adl },
            Registers {
                a: m,
                status: StatusRegister { flags: load_flags(reg.status.flags, m) },
                pc: pc_dec(reg.pc),
                adh,
                adl,
                data: m,
                ..reg
            },
            ms,
            InstructionState::Continue,
        )
    } else {
        (Instruction::LdaAbs { adh, adl }, reg, ms, InstructionState::Finished)
    }
}

/// One cycle of store-accumulator, absolute: latch the low then the high
/// address byte; then write the accumulator to the formed address and cancel
/// the spurious program-counter increment; the last cycle is a pure
/// bus-timing filler.
pub open spec fn sta_abs_spec(adh: u8, adl: u8, step: nat, reg: Registers, ms: Seq<MapModel>) -> (
    Instruction,
    Registers,
    Seq<MapModel>,
    InstructionState,
) {
    if step == 0 {
        (Instruction::StaAbs { adh, adl: reg.data }, reg, ms, InstructionState::Continue)
    } else if step == 1 {
        (Instruction::StaAbs { adh: reg.data, adl }, reg, ms, InstructionState::Continue)
    } else if step == 2 {
        (
            Instruction::StaAbs { adh, adl },
            Registers { pc: pc_dec(reg.pc), adh, adl, data: reg.a, ..reg },
            decode_write(ms, hl_addr(adh, adl), reg.a),
            InstructionState::Continue,
        )
    } else {
        (Instruction::StaAbs { adh, adl }, reg, ms, InstructionState::Finished)
    }
}

/// The transition one bus cycle makes: the instruction's (possibly updated)
/// scratch state, the register file, the bus contents, and whether the
/// instruction finished on this cycle.
pub open spec fn cycle_spec(ins: Instruction, step: nat, reg: Registers, ms: Seq<MapModel>) -> (
    Instruction,
    Registers,
    Seq<MapModel>,
    InstructionState,
) {
    match ins {
        Instruction::AdcAbs { adh, adl } => adc_abs_spec(adh, adl, step, reg, ms),
        Instruction::Clc => clc_spec(step, reg, ms),
        Instruction::Cld => cld_spec(step, reg, ms),
        Instruction::LdaImm { data } => lda_imm_spec(data, step, reg, ms),
        Instruction::LdaAbs { adh, adl } => lda_abs_spec(adh, adl, step, reg, ms),
        Instruction::StaAbs { adh, adl } => sta_abs_spec(adh, adl, step, reg, ms),
    }
}

impl Instruction {
    /// Run cycle `step` of this instruction against the register file and the
    /// bus. The cycle index is always within the instruction's contract: the
    /// engine dispatches with index 0 and increments it only while the
    /// instruction reports `Continue`, so the out-of-contract defect cannot
    /// occur.
    pub fn cycle(self, step: usize, reg: &mut Registers, address_bus: &mut AddressDecoder) -> (r: (
        Instruction,
        InstructionState,
    ))
        requires
            step < self.cycle_count(),
            old(address_bus).wf(),
        ensures
            final(address_bus).wf(),
            (r.0, *final(reg), final(address_bus).mappings(), r.1) == cycle_spec(
                self,
                step as nat,
                *old(reg),
                old(address_bus).mappings(),
            ),
            r.0.cycle_count() == self.cycle_count(),
            (r.1 == InstructionState::Finished) <==> step + 1 == self.cycle_count(),
    {
        match self {
            Instruction::AdcAbs { adh, adl } => adc_abs_cycle(adh, adl, step, reg, address_bus),
            Instruction::Clc => clc_cycle(step, reg),
            Instruction::Cld => cld_cycle(step, reg),
            Instruction::LdaImm { data } => lda_imm_cycle(data, step, reg),
            Instruction::LdaAbs { adh, adl } => lda_abs_cycle(adh, adl, step, reg, address_bus),
            Instruction::StaAbs { adh, adl } => sta_abs_cycle(adh, adl, step, reg, address_bus),
        }
    }
}

fn adc_abs_cycle(adh: u8, adl: u8, step: usize, reg: &mut Registers, address_bus: &mut AddressDecoder) -> (r: (
    Instruction,
    InstructionState,
))
    requires
        step < 4,
        old(address_bus).wf(),
    ensures
        final(address_bus).wf(),
        (r.0, *final(reg), final(address_bus).mappings(), r.1) == adc_abs_spec(
            adh,
            adl,
            step as nat,
            *old(reg),
            old(address_bus).mappings(),
        ),
        (r.1 == InstructionState::Finished) <==> step == 3,
{
    if step == 0 {
        let ins = Instruction::AdcAbs { adh, adl: reg.data };
        (ins, InstructionState::Continue)
    } else if step == 1 {
        let ins = Instruction::AdcAbs { adh: reg.data, adl };
        (ins, InstructionState::Continue)
    } else if step == 2 {
        let ghost flags0 = reg.status.flags;
        let a0 = reg.a;
        reg.adh = adh;
        reg.adl = adl;
        reg.data = address_bus.get_hl(reg.adh, reg.adl);
        let m = reg.data;
        let carry = reg.status.flag(StatusRegister::CARRY);
        let total: u16 = a0 as u16 + m as u16 + (if carry {
            1
        } else {
            0
        });
        reg.a = (total % 256) as u8;
        if total > 255 {
            reg.status.set_flag(StatusRegister::CARRY);
        } else {
            reg.status.clear_flag(StatusRegister::CARRY);
        }
        if reg.a == 0 {
            reg.status.set_flag(StatusRegister::ZERO);
        } else {
            reg.status.clear_flag(StatusRegister::ZERO);
        }
        if reg.a & 0x80 == 0x80 {
            reg.status.set_flag(StatusRegister::NEGATIVE);
        } else {
            reg.status.clear_flag(StatusRegister::NEGATIVE);
        }
        if (a0 & 0x80 == 0x80) != (reg.a & 0x80 == 0x80) {
            reg.status.set_flag(StatusRegister::OVERFLOW);
        } else {
            reg.status.clear_flag(StatusRegister::OVERFLOW);
        }
        reg.pc = pc_sub_one(reg.pc);
        proof {
            assert(total == adc_total(a0, m, carry));
            assert(reg.a == adc_result(a0, m, carry));
            assert(reg.status.flags == adc_flags(flags0, a0, m, carry));
        }
        (Instruction::AdcAbs { adh, adl }, InstructionState::Continue)
    } else {
        (Instruction::AdcAbs { adh, adl }, InstructionState::Finished)
    }
}

fn clc_cycle(step: usize, reg: &mut Registers) -> (r: (Instruction, InstructionState))
    requires
        step < 2,
    ensures
        forall|ms: Seq<MapModel>| #[trigger] clc_spec(step as nat, *old(reg), ms) == (
        r.0,
        *final(reg),
        ms,
        r.1,
        ),
        (r.1 == InstructionState::Finished) <==> step == 1,
{
    if step == 0 {
        reg.pc = pc_sub_one(reg.pc);
        (Instruction::Clc, InstructionState::Continue)
    } else {
        reg.status.clear_flag(StatusRegister::CARRY);
        (Instruction::Clc, InstructionState::Finished)
    }
}

fn cld_cycle(step: usize, reg: &mut Registers) -> (r: (Instruction, InstructionState))
    requires
        step < 2,
    ensures
        forall|ms: Seq<MapModel>| #[trigger] cld_spec(step as nat, *old(reg), ms) == (
        r.0,
        *final(reg),
        ms,
        r.1,
        ),
        (r.1 == InstructionState::Finished) <==> step == 1,
{
    if step == 0 {
        reg.pc = pc_sub_one(reg.pc);
        (Instruction::Cld, InstructionState::Continue)
    } else {
        reg.status.clear_flag(StatusRegister::DECIMAL_MODE);
        (Instruction::Cld, InstructionState::Finished)
    }
}

fn lda_imm_cycle(data: u8, step: usize, reg: &mut Registers) -> (r: (Instruction, InstructionState))
    requires
        step < 2,
    ensures
        forall|ms: Seq<MapModel>| #[trigger] lda_imm_spec(data, step as nat, *old(reg), ms) == (
        r.0,
        *final(reg),
        ms,
        r.1,
        ),
        (r.1 == InstructionState::Finished) <==> step == 1,
{
    if step == 0 {
        (Instruction::LdaImm { data: reg.data }, InstructionState::Continue)
    } else {
        let ghost flags0 = reg.status.flags;
        reg.a = data;
        if reg.a == 0 {
            reg.status.set_flag(StatusRegister::ZERO);
        } else {
            reg.status.clear_flag(StatusRegister::ZERO);
        }
        if reg.a & 0x80 == 0x80 {
            reg.status.set_flag(StatusRegister::NEGATIVE);
        } else {
            reg.status.clear_flag(StatusRegister::NEGATIVE);
        }
        proof {
            assert(reg.status.flags == load_flags(flags0, data));
        }
        (Instruction::LdaImm { data }, InstructionState::Finished)
    }
}

fn lda_abs_cycle(adh: u8, adl: u8, step: usize, reg: &mut Registers, address_bus: &mut AddressDecoder) -> (r: (
    Instruction,
    InstructionState,
))
    requires
        step < 4,
        old(address_bus).wf(),
    ensures
        final(address_bus).wf(),
        (r.0, *final(reg), final(address_bus).mappings(), r.1) == lda_abs_spec(
            adh,
            adl,
            step as nat,
            *old(reg),
            old(address_bus).mappings(),
        ),
        (r.1 == InstructionState::Finished) <==> step == 3,
{
    if step == 0 {
        (Instruction::LdaAbs { adh, adl: reg.data }, InstructionState::Continue)
    } else if step == 1 {
        (Instruction::LdaAbs { adh: reg.data, adl }, InstructionState::Continue)
    } else if step == 2 {
        let ghost flags0 = reg.status.flags;
        reg.adh = adh;
        reg.adl = adl;
        reg.data = address_bus.get_hl(reg.adh, reg.adl);
        reg.a = reg.data;
        if reg.a == 0 {
            reg.status.set_flag(StatusRegister::ZERO);
        } else {
            reg.status.clear_flag(StatusRegister::ZERO);
        }
        if reg.a & 0x80 == 0x80 {
            reg.status.set_flag(StatusRegister::NEGATIVE);
        } else {
            reg.status.clear_flag(StatusRegister::NEGATIVE);
        }
        reg.pc = pc_sub_one(reg.pc);
        proof {
            assert(reg.status.flags == load_flags(flags0, reg.a));
        }
        (Instruction::LdaAbs { adh, adl }, InstructionState::Continue)
    } else {
        (Instruction::LdaAbs { adh, adl }, InstructionState::Finished)
    }
}

fn sta_abs_cycle(adh: u8, adl: u8, step: usize, reg: &mut Registers, address_bus: &mut AddressDecoder) -> (r: (
    Instruction,
    InstructionState,
))
    requires
        step < 4,
        old(address_bus).wf(),
    ensures
        final(address_bus).wf(),
        (r.0, *final(reg), final(address_bus).mappings(), r.1) == sta_abs_spec(
            adh,
            adl,
            step as nat,
            *old(reg),
            old(address_bus).mappings(),
        ),
        (r.1 == InstructionState::Finished) <==> step == 3,
{
    if step == 0 {
        (Instruction::StaAbs { adh, adl: reg.data }, InstructionState::Continue)
    } else if step == 1 {
        (Instruction::StaAbs { adh: reg.data, adl }, InstructionState::Continue)
    } else if step == 2 {
        reg.adh = adh;
        reg.adl = adl;
        reg.data = reg.a;
        address_bus.put_hl(reg.adh, reg.adl, reg.data);
        reg.pc = pc_sub_one(reg.pc);
        (Instruction::StaAbs { adh, adl }, InstructionState::Continue)
    } else {
        (Instruction::StaAbs { adh, adl }, InstructionState::Finished)
    }
}

/// The instruction the given opcode byte decodes to, if the opcode is
/// recognized.
pub open spec fn decode_op(opcode: u8) -> Option<Instruction> {
    if opcode == 0x18 {
        Some(Instruction::Clc)
    } else if opcode == 0x6d {
        Some(Instruction::AdcAbs { adh: 0, adl: 0 })
    } else if opcode == 0x8d {
        Some(Instruction::StaAbs { adh: 0, adl: 0 })
    } else if opcode == 0xa9 {
        Some(Instruction::LdaImm { data: 0 })
    } else if opcode == 0xad {
        Some(Instruction::LdaAbs { adh: 0, adl: 0 })
    } else if opcode == 0xd8 {
        Some(Instruction::Cld)
    } else {
        None
    }
}

/// Dispatch an opcode byte to a fresh instruction state machine, or `None`
/// for an unrecognized opcode.
pub fn find_instruction(opcode: u8) -> (r: Option<Instruction>)
    ensures
        r == decode_op(opcode),
{
    match opcode {
        0x18 => Some(Instruction::Clc),
        0x6d => Some(Instruction::AdcAbs { adh: 0, adl: 0 }),
        0x8d => Some(Instruction::StaAbs { adh: 0, adl: 0 }),
        0xa9 => Some(Instruction::LdaImm { data: 0 }),
        0xad => Some(Instruction::LdaAbs { adh: 0, adl: 0 }),
        0xd8 => Some(Instruction::Cld),
        _ => None,
    }
}

/// Every decoded instruction starts with at least one contracted cycle, so
/// dispatch re-establishes the engine's cycle-index invariant.
pub proof fn lemma_decode_op_cycles(opcode: u8)
    ensures
        decode_op(opcode) matches Some(i) ==> i.cycle_count() >= 1,
{
}

} // verus!
