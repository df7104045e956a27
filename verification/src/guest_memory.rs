//! Guest memory as the device models see it.
//!
//! The bytes behind a guest address belong to a running guest: two reads of one
//! address may differ. What the device does to guest memory is therefore stated over
//! a log of accesses: every read enters the log with the value that came back, every
//! write with the bytes that were handed over, every fence in its place among them.
use vstd::prelude::*;

use vm_memory::{Bytes, GuestMemoryBackend, GuestMemoryError, GuestMemoryMmap, GuestMemoryRegion};

verus! {

/// `vm_memory::GuestRegionCollection`, a sorted set of guest memory regions.
#[verifier::external_type_specification]
#[verifier::external_body]
#[verifier::reject_recursive_types(R)]
pub struct ExGuestRegionCollection<R>(vm_memory::GuestRegionCollection<R>);

/// `vm_memory::GuestRegionMmap`, one region backed by a host mapping.
#[verifier::external_type_specification]
#[verifier::external_body]
#[verifier::reject_recursive_types(B)]
pub struct ExGuestRegionMmap<B>(vm_memory::GuestRegionMmap<B>);

/// `vm_memory::GuestMemoryError`, why an access was refused.
#[verifier::external_type_specification]
#[verifier::external_body]
pub struct ExGuestMemoryError(vm_memory::GuestMemoryError);

/// The regions a guest memory is made of, each as its first address and its length.
pub uninterp spec fn mapped_regions(mem: GuestMemoryMmap) -> Seq<(u64, u64)>;

/// Which of these regions a file stands behind, as they were mapped.
pub uninterp spec fn backed_regions(mem: GuestMemoryMmap) -> Seq<bool>;

/// A guest physical address.
#[derive(Clone, Copy, Debug, PartialEq, Eq, Structural)]
pub struct GuestAddress(pub u64);

impl GuestAddress {
    pub fn raw_value(&self) -> (res: u64)
        ensures
            res == self.0,
    {
        self.0
    }

    pub fn checked_add(&self, offset: u64) -> (res: Option<GuestAddress>)
        ensures
            res == if self.0 + offset <= u64::MAX {
                Some(GuestAddress((self.0 + offset) as u64))
            } else {
                None
            },
    {
        match self.0.checked_add(offset) {
            Some(sum) => Some(GuestAddress(sum)),
            None => None,
        }
    }
}

/// Whether `addr` lies in the region `region`.
pub open spec fn region_holds(region: (u64, u64), addr: int) -> bool {
    region.0 <= addr < region.0 + region.1
}

/// Whether some region holds `addr`.
pub open spec fn is_mapped(regions: Seq<(u64, u64)>, addr: int) -> bool {
    exists|i: int| 0 <= i < regions.len() && region_holds(#[trigger] regions[i], addr)
}

/// Whether all `len` bytes from `addr` on are mapped.
pub open spec fn range_mapped(regions: Seq<(u64, u64)>, addr: int, len: int) -> bool {
    forall|a: int| addr <= a < addr + len ==> #[trigger] is_mapped(regions, a)
}

/// Whether all `len` bytes from `addr` on lie in the address space and are mapped.
pub open spec fn span_mapped(regions: Seq<(u64, u64)>, addr: u64, len: int) -> bool {
    addr + len <= u64::MAX && range_mapped(regions, addr as int, len)
}

/// Whether `bytes` can be what a read of `len` bytes from `addr` on gives: so many bytes
/// exactly if all of them are mapped.
pub open spec fn reads_as(
    regions: Seq<(u64, u64)>,
    addr: u64,
    len: int,
    bytes: Option<Seq<u8>>,
) -> bool {
    &&& bytes is Some <==> span_mapped(regions, addr, len)
    &&& bytes matches Some(b) ==> b.len() == len
}

/// Whether one region holds all `len` bytes from `addr` on.
pub open spec fn in_one_region(regions: Seq<(u64, u64)>, addr: int, len: int) -> bool {
    exists|i: int|
        0 <= i < regions.len() && (#[trigger] regions[i]).0 <= addr < regions[i].0 + regions[i].1
            && addr + len <= regions[i].0 + regions[i].1
}

/// Whether a 16-bit cell at `addr` can be loaded and stored in one go: one region holds
/// both bytes, at an even offset from its start.
pub open spec fn is_cell(regions: Seq<(u64, u64)>, addr: u64) -> bool {
    exists|i: int|
        0 <= i < regions.len() && (#[trigger] regions[i]).0 <= addr && addr + 2 <= regions[i].0
            + regions[i].1 && (addr - regions[i].0) % 2 == 0
}

/// One access to guest memory.
pub enum MemOp {
    /// A 16-bit load, with the value it gave.
    Load { addr: u64, val: Option<u16> },
    /// A 16-bit store, and whether it was carried out.
    Store { addr: u64, stored: u16, done: bool },
    /// A read of `len` bytes, with the bytes it gave.
    Read { addr: u64, len: nat, bytes: Option<Seq<u8>> },
    /// A write of `data`, and whether all of it was written.
    Write { addr: u64, data: Seq<u8>, written: bool },
    /// A fence: what stands behind it happens behind all that stands before it.
    Fence,
}

/// The value a load gave, if it gave one.
pub open spec fn loaded(res: Result<u16, GuestMemoryError>) -> Option<u16> {
    match res {
        Ok(val) => Some(val),
        Err(_) => None,
    }
}

/// The bytes a read gave, if it gave them.
pub open spec fn bytes_read(res: Result<Vec<u8>, GuestMemoryError>) -> Option<Seq<u8>> {
    match res {
        Ok(bytes) => Some(bytes@),
        Err(_) => None,
    }
}

/// Guest memory, with the log of the accesses made through this handle. Every access in the
/// log was made.
pub struct GuestMemory {
    mem: GuestMemoryMmap,
    log: Ghost<Seq<MemOp>>,
}

/// Calls `GuestMemoryBackend::find_region`: the one region that holds `addr`, by its first
/// address and its length, if there is one. Regions never overlap, and none is empty.
#[verifier::external_body]
fn find_region(mem: &GuestMemoryMmap, addr: u64) -> (res: Option<(u64, u64)>)
    ensures
        match res {
            Some(region) => {
                &&& mapped_regions(*mem).contains(region)
                &&& region_holds(region, addr as int)
                &&& region.0 + region.1 <= u64::MAX
                &&& forall|i: int|
                    0 <= i < mapped_regions(*mem).len() && region_holds(
                        #[trigger] mapped_regions(*mem)[i],
                        addr as int,
                    ) ==> mapped_regions(*mem)[i] == region
            },
            None => !is_mapped(mapped_regions(*mem), addr as int),
        },
{
    let region = mem.find_region(vm_memory::GuestAddress(addr))?;
    Some((region.start_addr().0, region.len()))
}

/// Calls `GuestMemoryBackend::address_in_range`: whether some region holds `addr`.
#[verifier::external_body]
fn address_in_range(mem: &GuestMemoryMmap, addr: u64) -> (res: bool)
    ensures
        res == is_mapped(mapped_regions(*mem), addr as int),
{
    mem.address_in_range(vm_memory::GuestAddress(addr))
}

/// Calls `GuestMemoryBackend::check_range`: whether all `len` bytes from `addr` on are
/// mapped. The last byte of the address space never is.
#[verifier::external_body]
fn check_range(mem: &GuestMemoryMmap, addr: u64, len: usize) -> (res: bool)
    ensures
        res == span_mapped(mapped_regions(*mem), addr, len as int),
{
    GuestMemoryBackend::check_range(mem, vm_memory::GuestAddress(addr), len)
}

/// Calls `Bytes::load` for a `u16` with acquire ordering. It succeeds exactly on a cell
/// that one region holds at an even offset, mappings being page aligned; the value is
/// whatever the guest left there.
#[verifier::external_body]
fn load_u16(mem: &GuestMemoryMmap, addr: u64) -> (res: Result<u16, GuestMemoryError>)
    ensures
        res is Ok <==> is_cell(mapped_regions(*mem), addr),
{
    mem.load(vm_memory::GuestAddress(addr), std::sync::atomic::Ordering::Acquire)
}

/// Calls `Bytes::store` for a `u16` with release ordering. It succeeds exactly on a cell
/// that one region holds at an even offset, mappings being page aligned.
#[verifier::external_body]
fn store_u16(mem: &GuestMemoryMmap, val: u16, addr: u64) -> (res: Result<(), GuestMemoryError>)
    ensures
        res is Ok <==> is_cell(mapped_regions(*mem), addr),
{
    mem.store(val, vm_memory::GuestAddress(addr), std::sync::atomic::Ordering::Release)
}

/// Calls `Bytes::read_slice` for `len` bytes. It succeeds exactly if all of them are
/// mapped; the bytes are whatever the guest left there. The last byte of the address space
/// never is mapped.
#[verifier::external_body]
fn read_slice(mem: &GuestMemoryMmap, addr: u64, len: usize) -> (res: Result<
    Vec<u8>,
    GuestMemoryError,
>)
    ensures
        res is Ok <==> span_mapped(mapped_regions(*mem), addr, len as int),
        res matches Ok(bytes) ==> bytes@.len() == len,
{
    let mut bytes = vec![0u8; len];
    mem.read_slice(&mut bytes, vm_memory::GuestAddress(addr))?;
    Ok(bytes)
}

/// Calls `Bytes::write_slice`. It succeeds exactly if all the bytes are mapped; a write
/// that fails may have written a part of `data`. The last byte of the address space never
/// is mapped.
#[verifier::external_body]
fn write_slice(mem: &GuestMemoryMmap, data: &[u8], addr: u64) -> (res: Result<
    (),
    GuestMemoryError,
>)
    ensures
        res is Ok <==> span_mapped(mapped_regions(*mem), addr, data@.len() as int),
{
    mem.write_slice(data, vm_memory::GuestAddress(addr))
}

/// Calls `GuestMemoryBackend::get_slice` for `len` bytes and copies them out. It succeeds
/// exactly if one region holds all of them; the bytes are whatever the guest left there.
#[verifier::external_body]
fn copy_slice(mem: &GuestMemoryMmap, addr: u64, len: usize) -> (res: Result<
    Vec<u8>,
    GuestMemoryError,
>)
    ensures
        res is Ok <==> in_one_region(mapped_regions(*mem), addr as int, len as int),
        res matches Ok(bytes) ==> bytes@.len() == len,
{
    let slice = mem.get_slice(vm_memory::GuestAddress(addr), len)?;
    let mut bytes = vec![0u8; len];
    slice.copy_to(&mut bytes);
    Ok(bytes)
}

/// A region of guest memory as the host sees it.
#[derive(Clone, Copy, Debug, PartialEq, Eq, Structural)]
pub struct HostRegion {
    /// The first guest address.
    pub start: u64,
    pub size: u64,
    /// Where the region is mapped in this process.
    pub host: u64,
    /// Whether a file stands behind the mapping.
    pub file_backed: bool,
}

/// Calls `GuestMemoryBackend::iter` and reads each region: its bounds, and whether a file
/// stands behind it, are those of the named regions, in their order. Nothing is claimed of
/// the host addresses, which differ from run to run.
#[verifier::external_body]
fn list_regions(mem: &GuestMemoryMmap) -> (res: Vec<HostRegion>)
    ensures
        res@.len() == mapped_regions(*mem).len(),
        forall|i: int|
            0 <= i < res@.len() ==> (#[trigger] res@[i]).start == mapped_regions(*mem)[i].0
                && res@[i].size == mapped_regions(*mem)[i].1 && res@[i].start + res@[i].size
                <= u64::MAX && res@[i].file_backed == backed_regions(*mem)[i],
{
    mem.iter().map(
        |region| HostRegion {
            start: region.start_addr().0,
            size: region.len(),
            host: region.as_ptr() as u64,
            file_backed: region.file_offset().is_some(),
        },
    ).collect()
}

/// Calls `std::sync::atomic::fence` with sequentially consistent ordering.
#[verifier::external_body]
fn full_fence() {
    std::sync::atomic::fence(std::sync::atomic::Ordering::SeqCst)
}

/// Whether `op` was made on `mem`: the call for it came back with what stands in it.
spec fn happened(mem: GuestMemoryMmap, op: MemOp) -> bool {
    match op {
        MemOp::Load { addr, val } => exists|res: Result<u16, GuestMemoryError>| #[trigger]
            call_ensures(load_u16, (&mem, addr), res) && val == loaded(res),
        MemOp::Store { addr, stored, done } => exists|res: Result<(), GuestMemoryError>| #[trigger]
            call_ensures(store_u16, (&mem, stored, addr), res) && done == res is Ok,
        MemOp::Read { addr, len, bytes } => {
            ||| exists|n: usize, res: Result<Vec<u8>, GuestMemoryError>| #[trigger]
                call_ensures(read_slice, (&mem, addr, n), res) && n == len && bytes
                    == bytes_read(res)
            ||| exists|n: usize, res: Result<Vec<u8>, GuestMemoryError>| #[trigger]
                call_ensures(copy_slice, (&mem, addr, n), res) && n == len && bytes
                    == bytes_read(res)
        },
        MemOp::Write { addr, data, written } => exists|
            bytes: &[u8],
            res: Result<(), GuestMemoryError>,
        | #[trigger]
            call_ensures(write_slice, (&mem, bytes, addr), res) && bytes@ == data && written
                == res is Ok,
        MemOp::Fence => call_ensures(full_fence, (), ()),
    }
}

impl GuestMemory {
    /// Every access in the log was made on this memory.
    #[verifier::type_invariant]
    spec fn log_is_true(self) -> bool {
        forall|i: int| 0 <= i < self.log@.len() ==> happened(self.mem, #[trigger] self.log@[i])
    }

    /// Whether loading the cell at `addr` of this memory came back with `res`.
    pub closed spec fn gave(&self, addr: GuestAddress, res: Result<u16, GuestMemoryError>) -> bool {
        call_ensures(load_u16, (&self.mem, addr.0), res)
    }

    /// Whether storing `val` in the cell at `addr` of this memory came back with `res`.
    pub closed spec fn stored(
        &self,
        val: u16,
        addr: GuestAddress,
        res: Result<(), GuestMemoryError>,
    ) -> bool {
        call_ensures(store_u16, (&self.mem, val, addr.0), res)
    }

    /// Whether reading `len` bytes of this memory from `addr` on came back with `res`.
    pub closed spec fn held(
        &self,
        addr: GuestAddress,
        len: usize,
        res: Result<Vec<u8>, GuestMemoryError>,
    ) -> bool {
        call_ensures(read_slice, (&self.mem, addr.0, len), res)
    }

    /// Whether reading `len` bytes of one region of this memory from `addr` on came back with
    /// `res`.
    pub closed spec fn held_in_one_region(
        &self,
        addr: GuestAddress,
        len: usize,
        res: Result<Vec<u8>, GuestMemoryError>,
    ) -> bool {
        call_ensures(copy_slice, (&self.mem, addr.0, len), res)
    }

    /// Whether writing `data` to this memory from `addr` on came back with `res`.
    pub closed spec fn wrote(
        &self,
        data: &[u8],
        addr: GuestAddress,
        res: Result<(), GuestMemoryError>,
    ) -> bool {
        call_ensures(write_slice, (&self.mem, data, addr.0), res)
    }

    /// The regions of this memory.
    pub closed spec fn regions(&self) -> Seq<(u64, u64)> {
        mapped_regions(self.mem)
    }

    /// Which regions of this memory a file stands behind.
    pub closed spec fn backed(&self) -> Seq<bool> {
        backed_regions(self.mem)
    }

    /// The accesses made so far, oldest first.
    pub closed spec fn log(&self) -> Seq<MemOp> {
        self.log@
    }

    /// A handle on `mem` through which nothing has been accessed yet.
    pub fn new(mem: GuestMemoryMmap) -> (res: GuestMemory)
        ensures
            res.regions() == mapped_regions(mem),
            res.backed() == backed_regions(mem),
            res.log() == Seq::<MemOp>::empty(),
    {
        GuestMemory { mem, log: Ghost(Seq::empty()) }
    }

    /// The regions of this memory as the host sees them.
    pub fn host_regions(&self) -> (res: Vec<HostRegion>)
        ensures
            res@.len() == self.regions().len(),
            forall|i: int|
                0 <= i < res@.len() ==> (#[trigger] res@[i]).start == self.regions()[i].0
                    && res@[i].size == self.regions()[i].1 && res@[i].start + res@[i].size
                    <= u64::MAX && res@[i].file_backed == self.backed()[i],
    {
        list_regions(&self.mem)
    }

    /// Whether `addr` is mapped.
    pub fn address_in_range(&self, addr: GuestAddress) -> (res: bool)
        ensures
            res == is_mapped(self.regions(), addr.0 as int),
    {
        address_in_range(&self.mem, addr.0)
    }

    /// `base + offset`, if it does not overflow and is mapped.
    pub fn checked_offset(&self, base: GuestAddress, offset: usize) -> (res: Option<GuestAddress>)
        ensures
            res == if base.0 + offset <= u64::MAX && is_mapped(self.regions(), base.0 + offset) {
                Some(GuestAddress((base.0 + offset) as u64))
            } else {
                None
            },
    {
        match base.checked_add(offset as u64) {
            Some(addr) => if self.address_in_range(addr) {
                Some(addr)
            } else {
                None
            },
            None => None,
        }
    }

    /// Whether the 16-bit cell at `addr` can be loaded and stored.
    pub fn cell_in_reach(&self, addr: GuestAddress) -> (res: bool)
        ensures
            res == is_cell(self.regions(), addr.0),
    {
        match find_region(&self.mem, addr.0) {
            Some((start, len)) => {
                let fits: bool = addr.0 <= u64::MAX - 2 && addr.0 + 2 <= start + len;
                let res: bool = fits && (addr.0 - start) % 2 == 0;
                proof {
                    let regions = self.regions();
                    if res {
                        let i = choose|i: int| 0 <= i < regions.len() && regions[i] == (start, len);
                        assert(regions[i].0 <= addr.0);
                    }
                    if is_cell(regions, addr.0) {
                        let i = choose|i: int|
                            0 <= i < regions.len() && (#[trigger] regions[i]).0 <= addr.0 && addr.0 + 2
                                <= regions[i].0 + regions[i].1 && (addr.0 - regions[i].0) % 2 == 0;
                        assert(region_holds(regions[i], addr.0 as int));
                    }
                }
                res
            },
            None => {
                proof {
                    if is_cell(self.regions(), addr.0) {
                        let regions = self.regions();
                        let i = choose|i: int|
                            0 <= i < regions.len() && (#[trigger] regions[i]).0 <= addr.0 && addr.0 + 2
                                <= regions[i].0 + regions[i].1 && (addr.0 - regions[i].0) % 2 == 0;
                        assert(region_holds(regions[i], addr.0 as int));
                    }
                }
                false
            },
        }
    }

    /// Whether all `len` bytes from `addr` on are mapped.
    pub fn range_in_reach(&self, addr: GuestAddress, len: usize) -> (res: bool)
        ensures
            res == span_mapped(self.regions(), addr.0, len as int),
    {
        check_range(&self.mem, addr.0, len)
    }

    /// Loads the 16-bit cell at `addr`.
    pub fn load(&mut self, addr: GuestAddress) -> (res: Result<u16, GuestMemoryError>)
        ensures
            old(self).gave(addr, res),
            final(self).regions() == old(self).regions(),
            final(self).backed() == old(self).backed(),
            final(self).log() == old(self).log().push(
                MemOp::Load { addr: addr.0, val: loaded(res) },
            ),
            res is Ok <==> is_cell(old(self).regions(), addr.0),
    {
        let res = load_u16(&self.mem, addr.0);
        proof {
            use_type_invariant(&*self);
            let op = MemOp::Load { addr: addr.0, val: loaded(res) };
            assert(happened(self.mem, op));
            self.log@ = self.log@.push(op);
        }
        res
    }

    /// Stores `val` in the 16-bit cell at `addr`.
    pub fn store(&mut self, val: u16, addr: GuestAddress) -> (res: Result<(), GuestMemoryError>)
        ensures
            old(self).stored(val, addr, res),
            final(self).regions() == old(self).regions(),
            final(self).backed() == old(self).backed(),
            final(self).log() == old(self).log().push(
                MemOp::Store { addr: addr.0, stored: val, done: res is Ok },
            ),
            res is Ok <==> is_cell(old(self).regions(), addr.0),
    {
        let res = store_u16(&self.mem, val, addr.0);
        proof {
            use_type_invariant(&*self);
            let op = MemOp::Store { addr: addr.0, stored: val, done: res is Ok };
            assert(happened(self.mem, op));
            self.log@ = self.log@.push(op);
        }
        res
    }

    /// Has all accesses from here on happen behind all that came before.
    pub fn fence(&mut self)
        ensures
            final(self).regions() == old(self).regions(),
            final(self).backed() == old(self).backed(),
            final(self).log() == old(self).log().push(MemOp::Fence),
    {
        full_fence();
        proof {
            use_type_invariant(&*self);
            assert(happened(self.mem, MemOp::Fence));
            self.log@ = self.log@.push(MemOp::Fence);
        }
    }

    /// Reads `len` bytes from `addr` on.
    pub fn read(&mut self, addr: GuestAddress, len: usize) -> (res: Result<
        Vec<u8>,
        GuestMemoryError,
    >)
        ensures
            old(self).held(addr, len, res),
            final(self).regions() == old(self).regions(),
            final(self).backed() == old(self).backed(),
            final(self).log() == old(self).log().push(
                MemOp::Read { addr: addr.0, len: len as nat, bytes: bytes_read(res) },
            ),
            reads_as(old(self).regions(), addr.0, len as int, bytes_read(res)),
    {
        let res = read_slice(&self.mem, addr.0, len);
        proof {
            use_type_invariant(&*self);
            let op = MemOp::Read { addr: addr.0, len: len as nat, bytes: bytes_read(res) };
            assert(happened(self.mem, op));
            self.log@ = self.log@.push(op);
        }
        res
    }

    /// Reads `len` bytes from `addr` on, all of which one region has to hold.
    pub fn read_contiguous(&mut self, addr: GuestAddress, len: usize) -> (res: Result<
        Vec<u8>,
        GuestMemoryError,
    >)
        ensures
            old(self).held_in_one_region(addr, len, res),
            final(self).regions() == old(self).regions(),
            final(self).backed() == old(self).backed(),
            final(self).log() == old(self).log().push(
                MemOp::Read { addr: addr.0, len: len as nat, bytes: bytes_read(res) },
            ),
            res is Ok <==> in_one_region(old(self).regions(), addr.0 as int, len as int),
            res matches Ok(bytes) ==> bytes@.len() == len,
    {
        let res = copy_slice(&self.mem, addr.0, len);
        proof {
            use_type_invariant(&*self);
            let op = MemOp::Read { addr: addr.0, len: len as nat, bytes: bytes_read(res) };
            assert(happened(self.mem, op));
            self.log@ = self.log@.push(op);
        }
        res
    }

    /// Writes `data` from `addr` on.
    pub fn write(&mut self, data: &[u8], addr: GuestAddress) -> (res: Result<(), GuestMemoryError>)
        ensures
            old(self).wrote(data, addr, res),
            final(self).regions() == old(self).regions(),
            final(self).backed() == old(self).backed(),
            final(self).log() == old(self).log().push(
                MemOp::Write { addr: addr.0, data: data@, written: res is Ok },
            ),
            res is Ok <==> span_mapped(old(self).regions(), addr.0, data@.len() as int),
    {
        let res = write_slice(&self.mem, data, addr.0);
        proof {
            use_type_invariant(&*self);
            let op = MemOp::Write { addr: addr.0, data: data@, written: res is Ok };
            assert(happened(self.mem, op));
            self.log@ = self.log@.push(op);
        }
        res
    }
}

/// An address is mapped exactly if it is in one of the regions, and a span exactly if all of it
/// is. What is in one region is mapped, but a span that is mapped can be in two of them.
pub proof fn spans_can_cross_regions(regions: Seq<(u64, u64)>, i: int, addr: u64, len: u64)
    requires
        0 <= i < regions.len(),
        regions[i].0 + regions[i].1 <= u64::MAX,
    ensures
        regions[i].0 <= addr < regions[i].0 + regions[i].1 ==> is_mapped(regions, addr as int),
        regions[i].0 <= addr && addr + len <= regions[i].0 + regions[i].1 ==> span_mapped(
            regions,
            addr,
            len as int,
        ),
        span_mapped(regions, addr, len as int) && len > 0 ==> is_mapped(regions, addr as int)
            && is_mapped(regions, addr + len - 1),
        span_mapped(regions, addr, len as int) ==> addr + len <= 18446744073709551615,
        0 < len && in_one_region(regions, addr as int, len as int) ==> range_mapped(
            regions,
            addr as int,
            len as int,
        ),
        is_cell(regions, addr) ==> is_mapped(regions, addr as int) && is_mapped(regions, addr + 1),
        regions[i].0 <= addr && addr + 2 <= regions[i].0 + regions[i].1 && (addr - regions[i].0) % 2
            == 0 ==> is_cell(regions, addr),
{
    if regions[i].0 <= addr < regions[i].0 + regions[i].1 {
        assert(region_holds(regions[i], addr as int));
    }
    if regions[i].0 <= addr && addr + len <= regions[i].0 + regions[i].1 {
        assert forall|a: int| addr <= a < addr + len implies #[trigger] is_mapped(regions, a) by {
            assert(region_holds(regions[i], a));
        }
    }
    if 0 < len && in_one_region(regions, addr as int, len as int) {
        let k = choose|k: int|
            0 <= k < regions.len() && (#[trigger] regions[k]).0 <= addr < regions[k].0
                + regions[k].1 && addr + len <= regions[k].0 + regions[k].1;
        assert forall|a: int| addr <= a < addr + len implies #[trigger] is_mapped(regions, a) by {
            assert(region_holds(regions[k], a));
        }
    }
    if is_cell(regions, addr) {
        let k = choose|k: int|
            0 <= k < regions.len() && (#[trigger] regions[k]).0 <= addr && addr + 2
                <= regions[k].0 + regions[k].1 && (addr - regions[k].0) % 2 == 0;
        assert(region_holds(regions[k], addr as int));
        assert(region_holds(regions[k], addr + 1));
    }
}

} // verus!
