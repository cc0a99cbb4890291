//! A read-only memory of `N` bytes: writes are accepted and discarded, and
//! never change a subsequent read.

use vstd::prelude::*;

use crate::device::Device;
use crate::memory::hl_addr;
use crate::memory::hl_to_addr;
use crate::memory::init_contents;

verus! {

pub struct ROM<const N: usize> {
    contents: Vec<u8>,
}

impl<const N: usize> View for ROM<N> {
    type V = Seq<u8>;

    closed spec fn view(&self) -> Seq<u8> {
        self.contents@
    }
}

impl<const N: usize> ROM<N> {
    pub fn new(contents: Option<[u8; N]>) -> (r: Self)
        ensures
            r@.len() == N,
            match contents {
                Some(c) => r@ == c@,
                None => forall|i: int| 0 <= i < N ==> r@[i] == 0u8,
            },
    {
        Self { contents: init_contents(contents) }
    }

    pub fn get(&self, addr: u16) -> (r: u8)
        requires
            addr < self@.len(),
        ensures
            r == self@[addr as int],
    {
        self.contents[addr as usize]
    }

    pub fn get_hl(&self, high: u8, low: u8) -> (r: u8)
        requires
            hl_addr(high, low) < self@.len(),
        ensures
            r == self@[hl_addr(high, low) as int],
    {
        let addr = hl_to_addr(high, low);
        self.contents[addr as usize]
    }

    /// A write to read-only memory is a no-op.
    pub fn put(&mut self, addr: u16, value: u8)
        ensures
            final(self)@ == old(self)@,
    {
    }

    /// A split-address write to read-only memory is a no-op.
    pub fn put_hl(&mut self, high: u8, low: u8, value: u8)
        ensures
            final(self)@ == old(self)@,
    {
    }

    /// Replace the contents with the first `N` bytes of `bytes`. Populating
    /// a read-only memory from an external byte source happens at assembly
    /// time, before the memory is registered on the bus.
    pub fn set_from_bytes(&mut self, bytes: &Vec<u8>)
        requires
            old(self)@.len() == N,
            bytes@.len() >= N,
        ensures
            final(self)@ == bytes@.subrange(0, N as int),
    {
        let mut i: usize = 0;
        while i < N
            invariant
                i <= N,
                self@.len() == N,
                bytes@.len() >= N,
                forall|j: int| 0 <= j < i ==> self@[j] == bytes@[j],
            decreases N - i,
        {
            self.contents[i] = bytes[i];
            i = i + 1;
        }
        assert(self@ =~= bytes@.subrange(0, N as int));
    }

    /// A memory holding the first `N` bytes of `bytes`.
    pub fn new_from_bytes(bytes: &Vec<u8>) -> (r: Self)
        requires
            bytes@.len() >= N,
        ensures
            r@ == bytes@.subrange(0, N as int),
    {
        let mut r = Self::new(None);
        r.set_from_bytes(bytes);
        r
    }

    /// The memory as a read-only bus device, for registration with the
    /// address decoder.
    pub fn into_device(self) -> (d: Device)
        ensures
            d.contents() == self@,
            !d.writable(),
    {
        Device::new_rom(self.contents)
    }
}

} // verus!
