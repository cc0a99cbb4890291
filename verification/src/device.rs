//! An addressable bus device: a byte store with a fixed capacity, either
//! writable (RAM-like) or read-only (ROM-like). Offsets handed to a device
//! are pre-translated by the address decoder to be relative to the device's
//! own base, and are always below its capacity by construction.

use vstd::prelude::*;

verus! {

pub struct Device {
    cells: Vec<u8>,
    writable: bool,
}

impl Device {
    /// The bytes the device currently holds, indexed by device-local offset.
    pub closed spec fn contents(&self) -> Seq<u8> {
        self.cells@
    }

    /// Whether writes change the device's contents; a read-only device
    /// absorbs writes as no-ops.
    pub closed spec fn writable(&self) -> bool {
        self.writable
    }

    /// The number of addressable bytes.
    pub open spec fn capacity(&self) -> nat {
        self.contents().len()
    }

    pub fn new_ram(cells: Vec<u8>) -> (r: Self)
        ensures
            r.contents() == cells@,
            r.writable(),
    {
        Self { cells, writable: true }
    }

    pub fn new_rom(cells: Vec<u8>) -> (r: Self)
        ensures
            r.contents() == cells@,
            !r.writable(),
    {
        Self { cells, writable: false }
    }

    pub fn read(&self, offset: u16) -> (r: u8)
        requires
            offset < self.capacity(),
        ensures
            r == self.contents()[offset as int],
    {
        self.cells[offset as usize]
    }

    pub fn write(&mut self, offset: u16, value: u8)
        requires
            offset < old(self).capacity(),
        ensures
            final(self).writable() == old(self).writable(),
            old(self).writable() ==> final(self).contents() == old(self).contents().update(
                offset as int,
                value,
            ),
            !old(self).writable() ==> final(self).contents() == old(self).contents(),
    {
        if self.writable {
            self.cells[offset as usize] = value;
        }
    }
}

} // verus!
