//! A cycle-accurate core for a classic 8-bit microprocessor: a register file
//! with a status-flag bitset, a per-instruction bus-cycle state machine, and
//! an address decoder that routes 16-bit bus addresses to mapped devices.

pub mod address_decoder;
pub mod cpu;
pub mod device;
pub mod memory;
