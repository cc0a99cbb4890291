//! Byte-addressable storage: a fixed 64 KiB block covering the whole 16-bit
//! address space, and the high/low byte address composition shared by every
//! split-address accessor.

pub mod ram;
pub mod rom;

use vstd::prelude::*;

verus! {

/// The 16-bit address formed from separate high and low bytes.
pub open spec fn hl_addr(high: u8, low: u8) -> u16 {
    ((high as u16) << 8) | (low as u16)
}

/// The composed address equals `high * 256 + low`.
pub proof fn lemma_hl_addr(high: u8, low: u8)
    ensures
        hl_addr(high, low) == high * 256 + low,
{
    assert((((high as u16) << 8) | (low as u16)) == (high as u16) * 256 + (low as u16))
        by (bit_vector);
}

/// Convert an address represented by separate high and low u8 values into a
/// u16 value.
pub fn hl_to_addr(high: u8, low: u8) -> (r: u16)
    ensures
        r == hl_addr(high, low),
        r == high * 256 + low,
{
    proof {
        lemma_hl_addr(high, low);
    }
    ((high as u16) << 8) | (low as u16)
}

/// A byte vector of length `N`: a copy of the given block, or all zeroes.
pub(crate) fn init_contents<const N: usize>(contents: Option<[u8; N]>) -> (v: Vec<u8>)
    ensures
        v@.len() == N,
        match contents {
            Some(c) => v@ == c@,
            None => forall|i: int| 0 <= i < N ==> v@[i] == 0u8,
        },
{
    match contents {
        Some(c) => {
            let mut v: Vec<u8> = Vec::new();
            let mut i: usize = 0;
            while i < N
                invariant
                    i <= N,
                    v@.len() == i,
                    c@.len() == N,
                    forall|j: int| 0 <= j < i ==> v@[j] == c@[j],
                decreases N - i,
            {
                v.push(c[i]);
                i = i + 1;
            }
            assert(v@ =~= c@);
            v
        },
        None => {
            let mut v: Vec<u8> = Vec::new();
            let mut i: usize = 0;
            while i < N
                invariant
                    i <= N,
                    v@.len() == i,
                    forall|j: int| 0 <= j < i ==> v@[j] == 0u8,
                decreases N - i,
            {
                v.push(0);
                i = i + 1;
            }
            v
        },
    }
}

/// A read/write byte store spanning the full 16-bit address space, so every
/// address is in bounds.
pub struct Memory {
    contents: Vec<u8>,
}

impl View for Memory {
    type V = Seq<u8>;

    closed spec fn view(&self) -> Seq<u8> {
        self.contents@
    }
}

impl Memory {
    pub open spec fn wf(&self) -> bool {
        self@.len() == 0x10000
    }

    pub fn new(contents: Option<[u8; 65536]>) -> (r: Self)
        ensures
            r.wf(),
            match contents {
                Some(c) => r@ == c@,
                None => forall|i: int| 0 <= i < 0x10000 ==> r@[i] == 0u8,
            },
    {
        Self { contents: init_contents(contents) }
    }

    pub fn get(&self, addr: u16) -> (r: u8)
        requires
            self.wf(),
        ensures
            r == self@[addr as int],
    {
        self.contents[addr as usize]
    }

    pub fn get_hl(&self, high: u8, low: u8) -> (r: u8)
        requires
            self.wf(),
        ensures
            r == self@[hl_addr(high, low) as int],
    {
        let addr = hl_to_addr(high, low);
        self.contents[addr as usize]
    }

    pub fn put(&mut self, addr: u16, value: u8)
        requires
            old(self).wf(),
        ensures
            final(self).wf(),
            final(self)@ == old(self)@.update(addr as int, value),
    {
        self.contents[addr as usize] = value;
    }

    pub fn put_hl(&mut self, high: u8, low: u8, value: u8)
        requires
            old(self).wf(),
        ensures
            final(self).wf(),
            final(self)@ == old(self)@.update(hl_addr(high, low) as int, value),
    {
        let addr = hl_to_addr(high, low);
        self.contents[addr as usize] = value;
    }
}

} // verus!
