//! The address decoder: an insertion-ordered list of (inclusive address
//! range, device) mappings. A 16-bit bus address is routed to the earliest
//! registered mapping whose range contains it, translated to a device-local
//! offset. A read of an unmapped address returns 0 (open bus); a write to an
//! unmapped address is silently discarded.

use vstd::prelude::*;

use crate::device::Device;
use crate::memory::hl_addr;
use crate::memory::hl_to_addr;

verus! {

/// The mathematical model of one device mapping: its inclusive address range
/// and the mapped device's contents and writability.
#[verifier::ext_equal]
pub struct MapModel {
    pub start: u16,
    pub end: u16,
    pub mem: Seq<u8>,
    pub writable: bool,
}

/// Whether `addr` falls in the mapping's inclusive range.
pub open spec fn in_range(m: MapModel, addr: u16) -> bool {
    m.start <= addr && addr <= m.end
}

/// A mapping whose range never produces an offset outside its device: the
/// range is no larger than the device's capacity.
pub open spec fn mapping_wf(m: MapModel) -> bool {
    m.start <= m.end ==> m.end - m.start < m.mem.len()
}

/// The index of the first mapping at or after position `i` whose range
/// contains `addr`, if any.
pub open spec fn first_match_from(ms: Seq<MapModel>, addr: u16, i: int) -> Option<int>
    decreases ms.len() - i,
{
    if i < 0 || i >= ms.len() {
        None
    } else if in_range(ms[i], addr) {
        Some(i)
    } else {
        first_match_from(ms, addr, i + 1)
    }
}

/// The index of the earliest-registered mapping containing `addr`, if any.
pub open spec fn first_match(ms: Seq<MapModel>, addr: u16) -> Option<int> {
    first_match_from(ms, addr, 0)
}

/// The byte a bus read of `addr` returns: the matched device's byte at the
/// range-relative offset, or 0 when no mapping contains `addr`.
pub open spec fn decode_read(ms: Seq<MapModel>, addr: u16) -> u8 {
    match first_match(ms, addr) {
        Some(i) => ms[i].mem[addr - ms[i].start],
        None => 0,
    }
}

/// The mappings after a bus write of `value` to `addr`: the matched writable
/// device's byte at the range-relative offset is replaced; a read-only match
/// or an unmapped address leaves everything unchanged.
pub open spec fn decode_write(ms: Seq<MapModel>, addr: u16, value: u8) -> Seq<MapModel> {
    match first_match(ms, addr) {
        Some(i) => if ms[i].writable {
            ms.update(i, MapModel { mem: ms[i].mem.update(addr - ms[i].start, value), ..ms[i] })
        } else {
            ms
        },
        None => ms,
    }
}

/// What `first_match_from` finds: a contained address with no earlier match,
/// or a guarantee that no mapping from `i` on contains the address.
pub proof fn lemma_first_match_from(ms: Seq<MapModel>, addr: u16, i: int)
    requires
        0 <= i <= ms.len(),
    ensures
        match first_match_from(ms, addr, i) {
            Some(k) => i <= k < ms.len() && in_range(ms[k], addr) && (forall|j: int|
                i <= j < k ==> !in_range(ms[j], addr)),
            None => forall|j: int| i <= j < ms.len() ==> !in_range(ms[j], addr),
        },
    decreases ms.len() - i,
{
    if i < ms.len() && !in_range(ms[i], addr) {
        lemma_first_match_from(ms, addr, i + 1);
    }
}

/// Converse: a contained address with no earlier match is the first match.
pub proof fn lemma_first_match_at(ms: Seq<MapModel>, addr: u16, k: int, i: int)
    requires
        0 <= i <= k < ms.len(),
        in_range(ms[k], addr),
        forall|j: int| i <= j < k ==> !in_range(ms[j], addr),
    ensures
        first_match_from(ms, addr, i) == Some(k),
    decreases k - i,
{
    if i < k {
        lemma_first_match_at(ms, addr, k, i + 1);
    }
}

/// Two mapping lists with identical ranges resolve every address to the same
/// mapping index.
pub proof fn lemma_first_match_ranges(ms1: Seq<MapModel>, ms2: Seq<MapModel>, addr: u16, i: int)
    requires
        ms1.len() == ms2.len(),
        forall|j: int| 0 <= j < ms1.len() ==> ms1[j].start == ms2[j].start && ms1[j].end
            == ms2[j].end,
        0 <= i <= ms1.len(),
    ensures
        first_match_from(ms1, addr, i) == first_match_from(ms2, addr, i),
    decreases ms1.len() - i,
{
    if i < ms1.len() && !in_range(ms1[i], addr) {
        lemma_first_match_ranges(ms1, ms2, addr, i + 1);
    }
}

/// Law: a read of an address contained in a registered range, and in no
/// earlier-registered range, returns the mapped device's byte at the
/// range-relative offset.
pub proof fn lemma_read_routes(ms: Seq<MapModel>, k: int, addr: u16)
    requires
        0 <= k < ms.len(),
        in_range(ms[k], addr),
        forall|j: int| 0 <= j < k ==> !in_range(ms[j], addr),
    ensures
        decode_read(ms, addr) == ms[k].mem[addr - ms[k].start],
{
    lemma_first_match_at(ms, addr, k, 0);
}

/// Law: a read of an address outside every registered range returns 0.
pub proof fn lemma_read_open_bus(ms: Seq<MapModel>, addr: u16)
    requires
        forall|j: int| 0 <= j < ms.len() ==> !in_range(ms[j], addr),
    ensures
        decode_read(ms, addr) == 0,
{
    lemma_first_match_from(ms, addr, 0);
    if first_match(ms, addr) is Some {
        let k = first_match(ms, addr)->Some_0;
        assert(!in_range(ms[k], addr));
    }
}

/// Law: a write followed by a read of the same mapped address returns the
/// written value when the mapped device is writable; when it is read-only,
/// the write changes nothing. A write to an unmapped address also changes
/// nothing.
pub proof fn lemma_write_then_read(ms: Seq<MapModel>, addr: u16, value: u8)
    requires
        forall|i: int| 0 <= i < ms.len() ==> mapping_wf(#[trigger] ms[i]),
    ensures
        match first_match(ms, addr) {
            Some(k) => decode_read(decode_write(ms, addr, value), addr) == (if ms[k].writable {
                value
            } else {
                ms[k].mem[addr - ms[k].start]
            }),
            None => decode_write(ms, addr, value) == ms,
        },
{
    let ms2 = decode_write(ms, addr, value);
    lemma_first_match_from(ms, addr, 0);
    match first_match(ms, addr) {
        Some(k) => {
            assert(ms2.len() == ms.len() && forall|j: int|
                0 <= j < ms.len() ==> ms[j].start == ms2[j].start && ms[j].end == ms2[j].end);
            lemma_first_match_ranges(ms, ms2, addr, 0);
        },
        None => {},
    }
}

/// One registered mapping: an inclusive address range and the device that
/// owns it.
struct DeviceMapping {
    start: u16,
    end: u16,
    device: Device,
}

impl DeviceMapping {
    spec fn model(&self) -> MapModel {
        MapModel {
            start: self.start,
            end: self.end,
            mem: self.device.contents(),
            writable: self.device.writable(),
        }
    }
}

pub struct AddressDecoder {
    ranges: Vec<DeviceMapping>,
}

impl AddressDecoder {
    /// The registered mappings, in insertion order.
    pub closed spec fn mappings(&self) -> Seq<MapModel> {
        self.ranges@.map_values(|m: DeviceMapping| m.model())
    }

    pub open spec fn wf(&self) -> bool {
        forall|i: int| 0 <= i < self.mappings().len() ==> mapping_wf(#[trigger] self.mappings()[i])
    }

    pub fn new() -> (r: Self)
        ensures
            r.wf(),
            r.mappings() == Seq::<MapModel>::empty(),
    {
        let r = Self { ranges: Vec::new() };
        proof {
            assert(r.mappings() =~= Seq::<MapModel>::empty());
        }
        r
    }

    /// Append a mapping of the inclusive range `[start, end]` to `device`,
    /// taking ownership of the device. The range must be no larger than the
    /// device, so that every contained address translates to an in-capacity
    /// offset. Disjointness from earlier registrations is not validated: an
    /// address that several ranges contain resolves to the
    /// earliest-registered one.
    pub fn add_device(&mut self, start: u16, end: u16, device: Device)
        requires
            old(self).wf(),
            start <= end ==> end - start < device.capacity(),
        ensures
            final(self).wf(),
            final(self).mappings() == old(self).mappings().push(
                MapModel {
                    start,
                    end,
                    mem: device.contents(),
                    writable: device.writable(),
                },
            ),
    {
        let ghost m = MapModel {
            start,
            end,
            mem: device.contents(),
            writable: device.writable(),
        };
        self.ranges.push(DeviceMapping { start, end, device });
        proof {
            assert(self.mappings() =~= old(self).mappings().push(m));
        }
    }

    /// Read the byte at `addr`: the earliest mapping containing `addr`
    /// serves the read at offset `addr - start`; an unmapped address reads
    /// as 0.
    pub fn get(&self, addr: u16) -> (r: u8)
        requires
            self.wf(),
        ensures
            r == decode_read(self.mappings(), addr),
    {
        let ghost ms = self.mappings();
        let n = self.ranges.len();
        let mut i: usize = 0;
        while i < n
            invariant
                self.wf(),
                ms == self.mappings(),
                n == self.ranges@.len(),
                i <= n,
                first_match(ms, addr) == first_match_from(ms, addr, i as int),
            decreases n - i,
        {
            proof {
                assert(ms[i as int] == self.ranges@[i as int].model());
            }
            let start = self.ranges[i].start;
            let end = self.ranges[i].end;
            if start <= addr && addr <= end {
                proof {
                    assert(first_match_from(ms, addr, i as int) == Some(i as int));
                }
                return self.ranges[i].device.read(addr - start);
            }
            proof {
                assert(first_match_from(ms, addr, i as int) == first_match_from(
                    ms,
                    addr,
                    i as int + 1,
                ));
            }
            i = i + 1;
        }
        0
    }

    /// Read via a 16-bit address given as separate high and low bytes.
    pub fn get_hl(&self, high: u8, low: u8) -> (r: u8)
        requires
            self.wf(),
        ensures
            r == decode_read(self.mappings(), hl_addr(high, low)),
    {
        self.get(hl_to_addr(high, low))
    }

    /// Write `value` to `addr`: the earliest mapping containing `addr`
    /// receives the write at offset `addr - start`; a write to an unmapped
    /// address is discarded.
    pub fn put(&mut self, addr: u16, value: u8)
        requires
            old(self).wf(),
        ensures
            final(self).wf(),
            final(self).mappings() == decode_write(old(self).mappings(), addr, value),
    {
        let ghost ms = old(self).mappings();
        let n = self.ranges.len();
        let mut i: usize = 0;
        while i < n
            invariant
                self.wf(),
                *self == *old(self),
                ms == self.mappings(),
                n == self.ranges@.len(),
                i <= n,
                first_match(ms, addr) == first_match_from(ms, addr, i as int),
            decreases n - i,
        {
            proof {
                assert(ms[i as int] == self.ranges@[i as int].model());
            }
            let start = self.ranges[i].start;
            let end = self.ranges[i].end;
            if start <= addr && addr <= end {
                proof {
                    assert(first_match_from(ms, addr, i as int) == Some(i as int));
                }
                let mut dm = self.ranges.remove(i);
                dm.device.write(addr - start, value);
                self.ranges.insert(i, dm);
                proof {
                    let idx = i as int;
                    assert(self.ranges@ =~= old(self).ranges@.update(idx, self.ranges@[idx]));
                    assert(self.mappings() =~~= decode_write(ms, addr, value));
                }
                return ;
            }
            proof {
                assert(first_match_from(ms, addr, i as int) == first_match_from(
                    ms,
                    addr,
                    i as int + 1,
                ));
            }
            i = i + 1;
        }
        proof {
            assert(self.mappings() =~~= decode_write(ms, addr, value));
        }
    }

    /// Write via a 16-bit address given as separate high and low bytes.
    pub fn put_hl(&mut self, high: u8, low: u8, value: u8)
        requires
            old(self).wf(),
        ensures
            final(self).wf(),
            final(self).mappings() == decode_write(old(self).mappings(), hl_addr(high, low), value),
    {
        let addr = hl_to_addr(high, low);
        self.put(addr, value);
    }
}

} // verus!
