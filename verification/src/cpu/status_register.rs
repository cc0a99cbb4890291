//! The processor status register: an 8-bit value in which each bit is an
//! independently named boolean flag. Every mutation is a pure bitwise set or
//! clear of the named bit and leaves every other bit unchanged.

use vstd::prelude::*;

verus! {

/// True iff every bit of `flag` is set in `flags`. All contracts over the
/// status register are stated with this predicate.
pub open spec fn bit_set(flags: u8, flag: u8) -> bool {
    flags & flag == flag
}

/// `flags` with the single bit `flag` either ORed in or masked out.
pub open spec fn apply_flag(flags: u8, flag: u8, on: bool) -> u8 {
    if on {
        flags | flag
    } else {
        flags & (flag ^ 0xFF)
    }
}

pub struct StatusRegister {
    pub flags: u8,
}

impl StatusRegister {
    pub const CARRY: u8 = 0x01;

    pub const ZERO: u8 = 0x02;

    pub const IRQ_DISABLE: u8 = 0x04;

    pub const DECIMAL_MODE: u8 = 0x08;

    pub const BRK_COMMAND: u8 = 0x10;

    pub const OVERFLOW: u8 = 0x40;

    pub const NEGATIVE: u8 = 0x80;

    pub fn new(flags: u8) -> (r: Self)
        ensures
            r.flags == flags,
    {
        Self { flags }
    }

    pub fn flag(&self, flag: u8) -> (r: bool)
        ensures
            r == bit_set(self.flags, flag),
    {
        self.flags & flag == flag
    }

    pub fn set_flag(&mut self, flag: u8)
        ensures
            final(self).flags == old(self).flags | flag,
    {
        self.flags = self.flags | flag;
    }

    pub fn clear_flag(&mut self, flag: u8)
        ensures
            final(self).flags == old(self).flags & (flag ^ 0xFF),
    {
        self.flags = self.flags & (flag ^ 0xFF);
    }
}

/// True of the eight single-bit values of the status byte: the seven named
/// flags and the reserved bit 0x20.
pub open spec fn flag_bit(flag: u8) -> bool {
    ||| flag == StatusRegister::CARRY
    ||| flag == StatusRegister::ZERO
    ||| flag == StatusRegister::IRQ_DISABLE
    ||| flag == StatusRegister::DECIMAL_MODE
    ||| flag == StatusRegister::BRK_COMMAND
    ||| flag == 0x20
    ||| flag == StatusRegister::OVERFLOW
    ||| flag == StatusRegister::NEGATIVE
}

/// Law: after setting a flag bit, a test of that bit is true, and every other
/// single-bit flag is unchanged.
pub proof fn lemma_set_flag_bits(flags: u8, flag: u8, other: u8)
    requires
        flag_bit(flag),
        flag_bit(other),
    ensures
        bit_set(flags | flag, flag),
        other != flag ==> bit_set(flags | flag, other) == bit_set(flags, other),
{
    assert((flags | flag) & flag == flag && (other != flag ==> (((flags | flag) & other == other)
        == (flags & other == other)))) by (bit_vector)
        requires
            (flag == 0x01 || flag == 0x02 || flag == 0x04 || flag == 0x08 || flag == 0x10 || flag
                == 0x20 || flag == 0x40 || flag == 0x80) && (other == 0x01 || other == 0x02 || other
                == 0x04 || other == 0x08 || other == 0x10 || other == 0x20 || other == 0x40 || other
                == 0x80),
    ;
}

/// Law: after clearing a flag bit, a test of that bit is false, and every
/// other single-bit flag is unchanged.
pub proof fn lemma_clear_flag_bits(flags: u8, flag: u8, other: u8)
    requires
        flag_bit(flag),
        flag_bit(other),
    ensures
        !bit_set(flags & (flag ^ 0xFF), flag),
        other != flag ==> bit_set(flags & (flag ^ 0xFF), other) == bit_set(flags, other),
{
    assert((flags & (flag ^ 0xFF)) & flag != flag && (other != flag ==> (((flags & (flag ^ 0xFF))
        & other == other) == (flags & other == other)))) by (bit_vector)
        requires
            (flag == 0x01 || flag == 0x02 || flag == 0x04 || flag == 0x08 || flag == 0x10 || flag
                == 0x20 || flag == 0x40 || flag == 0x80) && (other == 0x01 || other == 0x02 || other
                == 0x04 || other == 0x08 || other == 0x10 || other == 0x20 || other == 0x40 || other
                == 0x80),
    ;
}

/// Law: applying a flag (set or clear) decides exactly that bit and leaves
/// every other single-bit flag unchanged.
pub proof fn lemma_apply_flag_bits(flags: u8, flag: u8, on: bool, other: u8)
    requires
        flag_bit(flag),
        flag_bit(other),
    ensures
        bit_set(apply_flag(flags, flag, on), other) == (if other == flag {
            on
        } else {
            bit_set(flags, other)
        }),
{
    if on {
        lemma_set_flag_bits(flags, flag, other);
    } else {
        lemma_clear_flag_bits(flags, flag, other);
    }
}

} // verus!
