//! Byte-level model of the guest physical address space, and the range
//! operator that reclaims (decommit: the range refaults as zero) or
//! provisions (pre-allocate, pre-fault) page ranges of it.
//!
//! The space is a sorted list of disjoint regions, each a run of bytes at a
//! guest physical start address.  Reclaiming a range zeroes it, the model of
//! the decommit advisory's refault-as-zero semantics; provisioning stamps a
//! fixed marker at the start of the range for diagnostic visibility, after
//! punching the range back to zero when the memory was restored from a
//! snapshot.

use vstd::prelude::*;
use crate::wire::u16_of_le;
use crate::wire::u32_of_le;
use crate::wire::u64_of_le;
use crate::wire::pack_u16_le;
use crate::wire::pack_u32_le;
use crate::wire::pack_u64_le;

verus! {

/// Argument block of the hypervisor pre-fault call that pre-populates the
/// second-level page tables for a guest range; issued by the embedding, not
/// by the library.
#[allow(non_camel_case_types)]
#[derive(Clone, Copy, Debug, Default, PartialEq)]
pub struct kvm_userspace_prealloc_memory_region {
    pub guest_phys_addr: u64,
    pub memory_size: u64,
}

/// Failures of the range operator.  The advisory and mapping failure codes
/// carry the raw OS error; the model itself resolves every range that fits,
/// so it reports only the resolution errors.
#[derive(Clone, Copy, Debug, PartialEq, Eq, Structural)]
pub enum RemoveRegionError {
    AddressTranslation,
    MalformedRange,
    MadviseFail(i32),
    MmapFail(i32),
    RegionNotFound,
}

/// One mapped region of guest memory.
#[derive(Clone, Debug)]
pub struct MemRegion {
    /// Guest physical address of the first byte.
    pub start: u64,
    /// Contents of the region.
    pub bytes: Vec<u8>,
}

/// The guest physical address space: disjoint regions in ascending order.
#[derive(Clone, Debug)]
pub struct GuestMemoryModel {
    pub regions: Vec<MemRegion>,
}

/// The fixed six-byte marker stamped at the start of a provisioned range.
pub open spec fn provision_marker() -> Seq<u8> {
    seq![0x4Bu8, 0x49u8, 0x4Eu8, 0x47u8, 0x44u8, 0x4Fu8]
}

impl GuestMemoryModel {
    /// Address `a` lies inside region `i`.
    pub open spec fn region_contains(&self, i: int, a: int) -> bool {
        self.regions@[i].start <= a < self.regions@[i].start + self.regions@[i].bytes@.len()
    }

    /// The range `[a, a + n)` starts inside region `i` and ends within it.
    pub open spec fn region_fits(&self, i: int, a: int, n: int) -> bool {
        self.region_contains(i, a) && a + n <= self.regions@[i].start
            + self.regions@[i].bytes@.len()
    }

    /// Some region contains address `a`.
    pub open spec fn has_addr(&self, a: int) -> bool {
        exists|i: int| 0 <= i < self.regions@.len() && self.region_contains(i, a)
    }

    /// The range `[a, a + n)` starts in a region and does not cross its end.
    pub open spec fn range_fits(&self, a: int, n: int) -> bool {
        exists|i: int| 0 <= i < self.regions@.len() && self.region_fits(i, a, n)
    }

    /// Regions are disjoint, in ascending order, and end within the address
    /// space.
    pub open spec fn wf(&self) -> bool {
        &&& forall|i: int|
            0 <= i < self.regions@.len() ==> (#[trigger] self.regions@[i]).start
                + self.regions@[i].bytes@.len() <= u64::MAX + 1
        &&& forall|i: int, j: int|
            0 <= i < j < self.regions@.len() ==> (#[trigger] self.regions@[i]).start
                + self.regions@[i].bytes@.len() <= (#[trigger] self.regions@[j]).start
    }

    /// `other` maps the same regions as `self`: same starts, same sizes.
    pub open spec fn same_layout(&self, other: &Self) -> bool {
        &&& self.regions@.len() == other.regions@.len()
        &&& forall|i: int|
            0 <= i < self.regions@.len() ==> (#[trigger] self.regions@[i]).start
                == other.regions@[i].start && self.regions@[i].bytes@.len()
                == other.regions@[i].bytes@.len()
    }

    /// Only one region can contain a given address.
    pub proof fn lemma_region_unique(&self, i: int, j: int, a: int)
        requires
            self.wf(),
            0 <= i < self.regions@.len(),
            0 <= j < self.regions@.len(),
            self.region_contains(i, a),
            self.region_contains(j, a),
        ensures
            i == j,
    {
    }


    /// The byte at address `a` (meaningful when some region contains `a`).
    pub open spec fn byte_at(&self, a: int) -> u8 {
        let i = choose|i: int| 0 <= i < self.regions@.len() && #[trigger] self.region_contains(i, a);
        self.regions@[i].bytes@[a - self.regions@[i].start]
    }

    /// The `n` bytes starting at address `a`.
    pub open spec fn bytes_at(&self, a: int, n: nat) -> Seq<u8> {
        Seq::new(n, |k: int| self.byte_at(a + k))
    }

    /// The little-endian u16 at address `a`.
    pub open spec fn u16_at(&self, a: int) -> u16 {
        u16_of_le(self.bytes_at(a, 2))
    }

    /// The little-endian u32 at address `a`.
    pub open spec fn u32_at(&self, a: int) -> u32 {
        u32_of_le(self.bytes_at(a, 4))
    }

    /// The little-endian u64 at address `a`.
    pub open spec fn u64_at(&self, a: int) -> u64 {
        u64_of_le(self.bytes_at(a, 8))
    }

    /// Within one region, `bytes_at` is that region's slice.
    pub proof fn lemma_bytes_at_region(&self, i: int, a: int, n: int)
        requires
            self.wf(),
            0 <= i < self.regions@.len(),
            n >= 0,
            self.region_fits(i, a, n),
        ensures
            self.bytes_at(a, n as nat) =~= self.regions@[i].bytes@.subrange(
                a - self.regions@[i].start,
                a - self.regions@[i].start + n,
            ),
    {
        assert forall|k: int| 0 <= k < n implies #[trigger] self.bytes_at(a, n as nat)[k]
            == self.regions@[i].bytes@[a - self.regions@[i].start + k] by {
            assert(self.region_contains(i, a + k));
            let w = choose|w: int|
                0 <= w < self.regions@.len() && #[trigger] self.region_contains(w, a + k);
            self.lemma_region_unique(w, i, a + k);
        }
    }

    /// A layout-preserving mutation changes no region lookup.
    pub proof fn lemma_same_layout_lookups(&self, other: &Self)
        requires
            self.same_layout(other),
        ensures
            forall|a: int, n: int| self.range_fits(a, n) <==> #[trigger] other.range_fits(a, n),
            forall|a: int| self.has_addr(a) <==> #[trigger] other.has_addr(a),
    {
        assert forall|a: int, n: int| self.range_fits(a, n) <==> #[trigger] other.range_fits(
            a,
            n,
        ) by {
            if self.range_fits(a, n) {
                let i = choose|i: int|
                    0 <= i < self.regions@.len() && #[trigger] self.region_fits(i, a, n);
                assert(other.region_fits(i, a, n));
            }
            if other.range_fits(a, n) {
                let i = choose|i: int|
                    0 <= i < other.regions@.len() && #[trigger] other.region_fits(i, a, n);
                assert(self.region_fits(i, a, n));
            }
        }
        assert forall|a: int| self.has_addr(a) <==> #[trigger] other.has_addr(a) by {
            if self.has_addr(a) {
                let i = choose|i: int|
                    0 <= i < self.regions@.len() && #[trigger] self.region_contains(i, a);
                assert(other.region_contains(i, a));
            }
            if other.has_addr(a) {
                let i = choose|i: int|
                    0 <= i < other.regions@.len() && #[trigger] other.region_contains(i, a);
                assert(self.region_contains(i, a));
            }
        }
    }

    pub fn new(regions: Vec<MemRegion>) -> (r: GuestMemoryModel)
        ensures
            r.regions == regions,
    {
        GuestMemoryModel { regions }
    }

    /// Index of the region containing `addr`, if any.
    pub fn find_region(&self, addr: u64) -> (r: Option<usize>)
        ensures
            r is Some <==> self.has_addr(addr as int),
            r is Some ==> r->0 < self.regions@.len() && self.region_contains(
                r->0 as int,
                addr as int,
            ),
    {
        let n = self.regions.len();
        let mut i: usize = 0;
        while i < n
            invariant
                n == self.regions@.len(),
                0 <= i <= n,
                forall|k: int| 0 <= k < i ==> !self.region_contains(k, addr as int),
            decreases n - i,
        {
            let start = self.regions[i].start;
            if start <= addr {
                let rlen = self.regions[i].bytes.len() as u64;
                if addr - start < rlen {
                    proof {
                        assert(self.region_contains(i as int, addr as int));
                        assert(self.has_addr(addr as int));
                    }
                    return Some(i);
                }
            }
            i += 1;
        }
        None
    }

    /// Reads the byte at `addr`.
    pub fn read_u8(&self, addr: u64) -> (r: Option<u8>)
        requires
            self.wf(),
        ensures
            r is Some <==> self.has_addr(addr as int),
            forall|i: int|
                0 <= i < self.regions@.len() && self.region_contains(i, addr as int) ==> r
                    == Some(self.regions@[i].bytes@[addr - self.regions@[i].start]),
    {
        match self.find_region(addr) {
            Some(i) => {
                let start = self.regions[i].start;
                let blen = self.regions[i].bytes.len();
                proof {
                    assert(addr - start < blen);
                }
                let off = (addr - start) as usize;
                let b = self.regions[i].bytes[off];
                proof {
                    assert forall|j: int|
                        0 <= j < self.regions@.len() && self.region_contains(
                            j,
                            addr as int,
                        ) implies Some(b) == Some::<u8>(
                        self.regions@[j].bytes@[addr - self.regions@[j].start],
                    ) by {
                        self.lemma_region_unique(i as int, j, addr as int);
                        assert(j == i as int);
                        assert(off as int == addr - self.regions@[j].start);
                        assert(b == self.regions@[j].bytes@[off as int]);
                    }
                }
                Some(b)
            },
            None => None,
        }
    }

    /// Reads `COUNT` bytes starting at `addr`, all from one region.
    fn read_window(&self, addr: u64, count: usize) -> (r: Option<Vec<u8>>)
        requires
            self.wf(),
            count >= 1,
        ensures
            r is Some <==> self.range_fits(addr as int, count as int),
            r is Some ==> r->0@.len() == count,
            forall|i: int|
                0 <= i < self.regions@.len() && self.region_fits(i, addr as int, count as int)
                    ==> r is Some && r->0@ =~= self.regions@[i].bytes@.subrange(
                    addr - self.regions@[i].start,
                    addr - self.regions@[i].start + count,
                ),
    {
        match self.find_region(addr) {
            Some(i) => {
                let start = self.regions[i].start;
                let rlen = self.regions[i].bytes.len() as u64;
                if count as u64 <= rlen - (addr - start) {
                    let off = (addr - start) as usize;
                    let blen = self.regions[i].bytes.len();
                    let mut out: Vec<u8> = Vec::new();
                    let mut k: usize = 0;
                    while k < count
                        invariant
                            self.wf(),
                            0 <= k <= count,
                            i < self.regions@.len(),
                            self.region_fits(i as int, addr as int, count as int),
                            off == addr - self.regions@[i as int].start,
                            blen == self.regions@[i as int].bytes@.len(),
                            off + count <= blen,
                            out@.len() == k,
                            out@ =~= self.regions@[i as int].bytes@.subrange(
                                off as int,
                                off + k,
                            ),
                        decreases count - k,
                    {
                        let b = self.regions[i].bytes[off + k];
                        out.push(b);
                        proof {
                            assert(out@ =~= self.regions@[i as int].bytes@.subrange(
                                off as int,
                                off + k + 1,
                            ));
                        }
                        k += 1;
                    }
                    proof {
                        assert forall|j: int|
                            0 <= j < self.regions@.len() && self.region_fits(
                                j,
                                addr as int,
                                count as int,
                            ) implies out@ =~= self.regions@[j].bytes@.subrange(
                            addr - self.regions@[j].start,
                            addr - self.regions@[j].start + count,
                        ) by {
                            self.lemma_region_unique(i as int, j, addr as int);
                        }
                    }
                    Some(out)
                } else {
                    proof {
                        assert forall|j: int|
                            !(0 <= j < self.regions@.len() && self.region_fits(
                                j,
                                addr as int,
                                count as int,
                            )) by {
                            if 0 <= j < self.regions@.len() && self.region_contains(
                                j,
                                addr as int,
                            ) {
                                self.lemma_region_unique(i as int, j, addr as int);
                            }
                        }
                    }
                    None
                }
            },
            None => None,
        }
    }

    /// Reads a little-endian u16 at `addr`.
    pub fn read_u16_le(&self, addr: u64) -> (r: Option<u16>)
        requires
            self.wf(),
        ensures
            r is Some <==> self.range_fits(addr as int, 2),
            r is Some ==> r->0 == self.u16_at(addr as int),
            forall|i: int|
                0 <= i < self.regions@.len() && self.region_fits(i, addr as int, 2) ==> r
                    == Some(u16_of_le(self.regions@[i].bytes@.subrange(
                    addr - self.regions@[i].start,
                    addr - self.regions@[i].start + 2,
                ))),
    {
        match self.read_window(addr, 2) {
            Some(w) => {
                let r = pack_u16_le(w[0], w[1]);
                proof {
                    let i = choose|i: int|
                        0 <= i < self.regions@.len() && #[trigger] self.region_fits(i, addr as int, 2);
                    self.lemma_bytes_at_region(i, addr as int, 2);
                    assert(w@ =~= self.bytes_at(addr as int, 2));
                }
                Some(r)
            },
            None => None,
        }
    }

    /// Reads a little-endian u32 at `addr`.
    pub fn read_u32_le(&self, addr: u64) -> (r: Option<u32>)
        requires
            self.wf(),
        ensures
            r is Some <==> self.range_fits(addr as int, 4),
            r is Some ==> r->0 == self.u32_at(addr as int),
            forall|i: int|
                0 <= i < self.regions@.len() && self.region_fits(i, addr as int, 4) ==> r
                    == Some(u32_of_le(self.regions@[i].bytes@.subrange(
                    addr - self.regions@[i].start,
                    addr - self.regions@[i].start + 4,
                ))),
    {
        match self.read_window(addr, 4) {
            Some(w) => {
                let r = pack_u32_le(w[0], w[1], w[2], w[3]);
                proof {
                    let i = choose|i: int|
                        0 <= i < self.regions@.len() && #[trigger] self.region_fits(i, addr as int, 4);
                    self.lemma_bytes_at_region(i, addr as int, 4);
                    assert(w@ =~= self.bytes_at(addr as int, 4));
                }
                Some(r)
            },
            None => None,
        }
    }

    /// Reads a little-endian u64 at `addr`.
    pub fn read_u64_le(&self, addr: u64) -> (r: Option<u64>)
        requires
            self.wf(),
        ensures
            r is Some <==> self.range_fits(addr as int, 8),
            r is Some ==> r->0 == self.u64_at(addr as int),
            forall|i: int|
                0 <= i < self.regions@.len() && self.region_fits(i, addr as int, 8) ==> r
                    == Some(u64_of_le(self.regions@[i].bytes@.subrange(
                    addr - self.regions@[i].start,
                    addr - self.regions@[i].start + 8,
                ))),
    {
        match self.read_window(addr, 8) {
            Some(w) => {
                let r = pack_u64_le([w[0], w[1], w[2], w[3], w[4], w[5], w[6], w[7]]);
                proof {
                    let i = choose|i: int|
                        0 <= i < self.regions@.len() && #[trigger] self.region_fits(i, addr as int, 8);
                    self.lemma_bytes_at_region(i, addr as int, 8);
                    assert(w@ =~= self.bytes_at(addr as int, 8));
                }
                Some(r)
            },
            None => None,
        }
    }

    /// Writes the byte at `addr`.
    pub fn write_u8(&mut self, addr: u64, val: u8)
        requires
            old(self).wf(),
            old(self).has_addr(addr as int),
        ensures
            final(self).wf(),
            old(self).same_layout(final(self)),
            forall|i: int, j: int|
                0 <= i < final(self).regions@.len() && 0 <= j < final(self).regions@[i].bytes@.len()
                    ==> #[trigger] final(self).regions@[i].bytes@[j] == if old(self).regions@[i].start + j
                    == addr {
                    val
                } else {
                    old(self).regions@[i].bytes@[j]
                },
    {
        let i = self.find_region(addr).unwrap();
        let start = self.regions[i].start;
        let blen = self.regions[i].bytes.len();
        proof {
            assert(addr - start < blen);
        }
        let off = (addr - start) as usize;
        let ghost prev = *self;
        let region = vstd::std_specs::vec::vec_index_mut(&mut self.regions, i);
        region.bytes[off] = val;
        proof {
            assert(self.regions@ =~= prev.regions@.update(i as int, self.regions@[i as int]));
            assert(self.regions@[i as int].start == prev.regions@[i as int].start);
            assert(self.regions@[i as int].bytes@ =~= prev.regions@[i as int].bytes@.update(
                off as int,
                val,
            ));
            assert(off as int == addr - prev.regions@[i as int].start);
            assert forall|p: int, j: int|
                0 <= p < self.regions@.len() && 0 <= j < self.regions@[p].bytes@.len()
                    implies #[trigger] self.regions@[p].bytes@[j] == if prev.regions@[p].start + j
                == addr {
                val
            } else {
                prev.regions@[p].bytes@[j]
            } by {
                if p != i as int {
                    assert(self.regions@[p] == prev.regions@[p]);
                    if prev.regions@[p].start + j == addr {
                        assert(prev.region_contains(p, addr as int));
                        assert(prev.region_contains(i as int, addr as int));
                        prev.lemma_region_unique(p, i as int, addr as int);
                    }
                }
            }
        }
    }

    /// Writes `data` starting at `addr`, within one region.
    pub fn write_bytes(&mut self, addr: u64, data: &Vec<u8>)
        requires
            old(self).wf(),
            old(self).range_fits(addr as int, data@.len() as int),
        ensures
            final(self).wf(),
            old(self).same_layout(final(self)),
            forall|i: int, j: int|
                0 <= i < final(self).regions@.len() && 0 <= j < final(self).regions@[i].bytes@.len()
                    ==> #[trigger] final(self).regions@[i].bytes@[j] == if addr <= old(
                    self,
                ).regions@[i].start + j < addr + data@.len() {
                    data@[old(self).regions@[i].start + j - addr]
                } else {
                    old(self).regions@[i].bytes@[j]
                },
    {
        let ghost orig = *self;
        let mut k: usize = 0;
        while k < data.len()
            invariant
                self.wf(),
                orig.wf(),
                orig.same_layout(self),
                0 <= k <= data@.len(),
                orig.range_fits(addr as int, data@.len() as int),
                forall|i: int, j: int|
                    0 <= i < self.regions@.len() && 0 <= j < self.regions@[i].bytes@.len()
                        ==> #[trigger] self.regions@[i].bytes@[j] == if addr <= orig.regions@[i].start
                        + j < addr + k {
                        data@[orig.regions@[i].start + j - addr]
                    } else {
                        orig.regions@[i].bytes@[j]
                    },
            decreases data@.len() - k,
        {
            proof {
                let w = choose|i: int|
                    0 <= i < orig.regions@.len() && #[trigger] orig.region_fits(
                        i,
                        addr as int,
                        data@.len() as int,
                    );
                assert(self.region_contains(w, addr + k));
                assert(self.has_addr(addr + k as int));
            }
            let b = data[k];
            self.write_u8(addr + k as u64, b);
            k += 1;
        }
    }

    /// Zeroes the range `[addr, addr + len)`, which must fit in one region.
    fn zero_span(&mut self, addr: u64, len: u64)
        requires
            old(self).wf(),
            old(self).range_fits(addr as int, len as int),
        ensures
            final(self).wf(),
            old(self).same_layout(final(self)),
            forall|i: int, j: int|
                0 <= i < final(self).regions@.len()
                    && 0 <= j < final(self).regions@[i].bytes@.len()
                    ==> #[trigger] final(self).regions@[i].bytes@[j]
                    == if addr <= old(self).regions@[i].start + j < addr + len {
                    0u8
                } else {
                    old(self).regions@[i].bytes@[j]
                },
    {
        let ghost orig = *self;
        let i = self.find_region(addr).unwrap();
        proof {
            let w = choose|w: int|
                0 <= w < orig.regions@.len() && #[trigger] orig.region_fits(w, addr as int, len as int);
            orig.lemma_region_unique(i as int, w, addr as int);
            assert(orig.region_fits(i as int, addr as int, len as int));
        }
        let mut k: u64 = 0;
        while k < len
            invariant
                self.wf(),
                orig.wf(),
                orig.same_layout(self),
                0 <= k <= len,
                i < orig.regions@.len(),
                orig.region_fits(i as int, addr as int, len as int),
                forall|p: int, j: int|
                    0 <= p < self.regions@.len() && 0 <= j < self.regions@[p].bytes@.len()
                        ==> #[trigger] self.regions@[p].bytes@[j] == if addr <= orig.regions@[p].start
                        + j < addr + k {
                        0u8
                    } else {
                        orig.regions@[p].bytes@[j]
                    },
            decreases len - k,
        {
            proof {
                assert(self.region_contains(i as int, addr + k));
                assert(self.has_addr(addr + k as int));
            }
            self.write_u8(addr + k, 0);
            k += 1;
        }
    }
}

/// Reclaims a guest range: resolves it against the regions and decommits it,
/// after which every byte of the range reads back as zero.  When the memory
/// was restored from a snapshot, a private anonymous mapping is punched over
/// the range first; the visible effect is the same.  A range whose start lies
/// in no region is refused with `RegionNotFound`; one that crosses its
/// region's end with `MalformedRange`.  On failure the memory is untouched.
pub fn remove_range(
    guest_memory: &mut GuestMemoryModel,
    range: (u64, u64),
    restored: bool,
) -> (r: Result<(), RemoveRegionError>)
    requires
        old(guest_memory).wf(),
    ensures
        final(guest_memory).wf(),
        old(guest_memory).same_layout(final(guest_memory)),
        r is Ok <==> old(guest_memory).range_fits(range.0 as int, range.1 as int),
        r == Err::<(), RemoveRegionError>(RemoveRegionError::RegionNotFound) <==> !old(
            guest_memory,
        ).has_addr(range.0 as int),
        r == Err::<(), RemoveRegionError>(RemoveRegionError::MalformedRange) <==> old(
            guest_memory,
        ).has_addr(range.0 as int) && !old(guest_memory).range_fits(range.0 as int, range.1 as int),
        forall|i: int, j: int|
            0 <= i < final(guest_memory).regions@.len()
                && 0 <= j < final(guest_memory).regions@[i].bytes@.len()
                ==> #[trigger] final(guest_memory).regions@[i].bytes@[j]
                == if r is Ok && range.0 <= old(guest_memory).regions@[i].start + j < range.0
                + range.1 {
                0u8
            } else {
                old(guest_memory).regions@[i].bytes@[j]
            },
{
    let (guest_address, range_len) = range;
    match guest_memory.find_region(guest_address) {
        Some(i) => {
            let start = guest_memory.regions[i].start;
            let rlen = guest_memory.regions[i].bytes.len() as u64;
            if range_len > rlen - (guest_address - start) {
                proof {
                    assert forall|j: int|
                        !(0 <= j < guest_memory.regions@.len() && guest_memory.region_fits(
                            j,
                            guest_address as int,
                            range_len as int,
                        )) by {
                        if 0 <= j < guest_memory.regions@.len() && guest_memory.region_contains(
                            j,
                            guest_address as int,
                        ) {
                            guest_memory.lemma_region_unique(i as int, j, guest_address as int);
                        }
                    }
                }
                return Err(RemoveRegionError::MalformedRange);
            }
            proof {
                assert(guest_memory.region_fits(i as int, guest_address as int, range_len as int));
            }
            guest_memory.zero_span(guest_address, range_len);
            Ok(())
        },
        None => Err(RemoveRegionError::RegionNotFound),
    }
}

/// Provisions a guest range: resolves it against the regions, optionally
/// pre-allocates backing memory and pre-faults the second-level page tables
/// (neither changes the bytes the guest reads), and stamps the fixed marker
/// at the start of the range, trimmed to the region's end.  When the memory
/// was restored from a snapshot, a private anonymous mapping is punched over
/// the range first, which zeroes it.  Resolution failures are as for
/// `remove_range`; on failure the memory is untouched.
pub fn populate_range(
    guest_memory: &mut GuestMemoryModel,
    range: (u64, u64),
    restored: bool,
    pre_mem_alloc: bool,
    pre_tdp_alloc: bool,
) -> (r: Result<(), RemoveRegionError>)
    requires
        old(guest_memory).wf(),
    ensures
        final(guest_memory).wf(),
        old(guest_memory).same_layout(final(guest_memory)),
        r is Ok <==> old(guest_memory).range_fits(range.0 as int, range.1 as int),
        r == Err::<(), RemoveRegionError>(RemoveRegionError::RegionNotFound) <==> !old(
            guest_memory,
        ).has_addr(range.0 as int),
        r == Err::<(), RemoveRegionError>(RemoveRegionError::MalformedRange) <==> old(
            guest_memory,
        ).has_addr(range.0 as int) && !old(guest_memory).range_fits(range.0 as int, range.1 as int),
        r is Err ==> forall|i: int, j: int|
            0 <= i < final(guest_memory).regions@.len()
                && 0 <= j < final(guest_memory).regions@[i].bytes@.len()
                ==> #[trigger] final(guest_memory).regions@[i].bytes@[j]
                == old(guest_memory).regions@[i].bytes@[j],
        forall|ri: int|
            0 <= ri < old(guest_memory).regions@.len() && #[trigger] old(
                guest_memory,
            ).region_fits(ri, range.0 as int, range.1 as int) ==> forall|i: int, j: int|
                0 <= i < final(guest_memory).regions@.len()
                    && 0 <= j < final(guest_memory).regions@[i].bytes@.len()
                    ==> #[trigger] final(guest_memory).regions@[i].bytes@[j] == {
                    let a = old(guest_memory).regions@[i].start + j;
                    let avail = old(guest_memory).regions@[ri].start + old(
                        guest_memory,
                    ).regions@[ri].bytes@.len() - range.0;
                    let m = if avail < 6 {
                        avail
                    } else {
                        6
                    };
                    if range.0 <= a < range.0 + m {
                        provision_marker()[a - range.0]
                    } else if restored && range.0 <= a < range.0 + range.1 {
                        0u8
                    } else {
                        old(guest_memory).regions@[i].bytes@[j]
                    }
                },
{
    let (guest_address, range_len) = range;
    match guest_memory.find_region(guest_address) {
        Some(i) => {
            let start = guest_memory.regions[i].start;
            let blen = guest_memory.regions[i].bytes.len() as u64;
            if range_len > blen - (guest_address - start) {
                proof {
                    assert forall|j: int|
                        !(0 <= j < guest_memory.regions@.len() && guest_memory.region_fits(
                            j,
                            guest_address as int,
                            range_len as int,
                        )) by {
                        if 0 <= j < guest_memory.regions@.len() && guest_memory.region_contains(
                            j,
                            guest_address as int,
                        ) {
                            guest_memory.lemma_region_unique(i as int, j, guest_address as int);
                        }
                    }
                }
                return Err(RemoveRegionError::MalformedRange);
            }
            let ghost orig = *guest_memory;
            proof {
                assert(orig.region_fits(i as int, guest_address as int, range_len as int));
            }
            if restored {
                guest_memory.zero_span(guest_address, range_len);
            }
            let avail = blen - (guest_address - start);
            let mlen: u64 = if avail < 6 {
                avail
            } else {
                6
            };
            let mut marker: Vec<u8> = Vec::new();
            marker.push(0x4B);
            marker.push(0x49);
            marker.push(0x4E);
            marker.push(0x47);
            marker.push(0x44);
            marker.push(0x4F);
            marker.truncate(mlen as usize);
            proof {
                assert(marker@ =~= provision_marker().subrange(0, mlen as int));
                assert(guest_memory.region_fits(i as int, guest_address as int, mlen as int));
            }
            guest_memory.write_bytes(guest_address, &marker);
            proof {
                assert forall|ri: int|
                    0 <= ri < orig.regions@.len() && #[trigger] orig.region_fits(
                        ri,
                        guest_address as int,
                        range_len as int,
                    ) implies ri == i as int by {
                    orig.lemma_region_unique(ri, i as int, guest_address as int);
                }
            }
            Ok(())
        },
        None => Err(RemoveRegionError::RegionNotFound),
    }
}

} // verus!
