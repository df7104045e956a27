//! The split virtqueue: descriptor chains, the available ring and the used ring.
use vstd::prelude::*;

use vm_memory::{GuestMemoryError, VolatileMemoryError};
use vstd::string::StringExecFns;

use crate::byte_order::{read_le_u16, read_le_u32, read_le_u64, write_le_u32};
use crate::guest_memory::{GuestAddress, GuestMemory, MemOp};
use crate::text::append_decimal;
use crate::{byte_order, guest_memory, text};

verus! {

/// `vm_memory::VolatileMemoryError`.
#[verifier::external_type_specification]
#[verifier::external_body]
pub struct ExVolatileMemoryError(vm_memory::VolatileMemoryError);

/// Size of the used ring header: flags and index, 16 bits each.
pub const VIRTQ_USED_RING_HEADER_SIZE: u64 = 4;

/// Size of one element of the used ring: id and length, 32 bits each.
pub const VIRTQ_USED_ELEMENT_SIZE: u64 = 8;

/// Size of the available ring header: flags and index, 16 bits each.
pub const VIRTQ_AVAIL_RING_HEADER_SIZE: u64 = 4;

/// Size of one element of the available ring.
pub const VIRTQ_AVAIL_ELEMENT_SIZE: u64 = 2;

pub const VIRTQ_DESC_F_NEXT: u16 = 0x1;

pub const VIRTQ_DESC_F_WRITE: u16 = 0x2;

/// The used ring flag by which the device asks the driver not to notify it.
pub const VRING_USED_F_NO_NOTIFY: u16 = 1;

/// Virtio queue errors.
#[derive(Debug)]
pub enum Error {
    /// Address overflow.
    AddressOverflow,
    /// Failed to access guest memory.
    GuestMemory(GuestMemoryError),
    /// Invalid indirect descriptor.
    InvalidIndirectDescriptor,
    /// Invalid indirect descriptor table.
    InvalidIndirectDescriptorTable,
    /// Invalid descriptor chain.
    InvalidChain,
    /// Invalid descriptor index.
    InvalidDescriptorIndex,
    /// Invalid maximal size.
    InvalidMaxSize,
    /// Invalid queue size.
    InvalidSize,
    /// Invalid alignment of the descriptor table address.
    InvalidDescTableAlign,
    /// Invalid alignment of the available ring address.
    InvalidAvailRingAlign,
    /// Invalid alignment of the used ring address.
    InvalidUsedRingAlign,
    /// Invalid available ring index.
    InvalidAvailRingIndex,
    /// The queue is not ready for operation.
    QueueNotReady,
    /// Volatile memory error.
    VolatileMemoryError(VolatileMemoryError),
    /// The combined length of all the buffers of a chain would overflow.
    DescriptorChainOverflow,
    /// No memory region for this address range.
    FindMemoryRegion,
    /// Descriptor guest memory error.
    GuestMemoryError(GuestMemoryError),
    /// A split of a chain is out of bounds.
    SplitOutOfBounds(usize),
}

/// Formats a `vm_memory::VolatileMemoryError`. Nothing is claimed of the text.
#[verifier::external_body]
fn volatile_error_text(e: &VolatileMemoryError) -> String {
    format!("{e}")
}

/// Formats a `vm_memory::GuestMemoryError`. Nothing is claimed of the text.
#[verifier::external_body]
fn guest_error_text(e: &GuestMemoryError) -> String {
    format!("{e}")
}

impl Error {
    /// What the error says, up to what follows from the value in it.
    pub open spec fn headline(&self) -> Seq<char> {
        match *self {
            Error::AddressOverflow => "address overflow"@,
            Error::GuestMemory(_) => "error accessing guest memory"@,
            Error::InvalidChain => "invalid descriptor chain"@,
            Error::InvalidIndirectDescriptor => "invalid indirect descriptor"@,
            Error::InvalidIndirectDescriptorTable => "invalid indirect descriptor table"@,
            Error::InvalidDescriptorIndex => "invalid descriptor index"@,
            Error::InvalidMaxSize => "invalid queue maximum size"@,
            Error::InvalidSize => "invalid queue size"@,
            Error::InvalidDescTableAlign => "virtio queue descriptor table breaks alignment constraints"@,
            Error::InvalidAvailRingAlign => "virtio queue available ring breaks alignment constraints"@,
            Error::InvalidUsedRingAlign => "virtio queue used ring breaks alignment constraints"@,
            Error::InvalidAvailRingIndex => "invalid available ring index (more descriptors to process than queue size)"@,
            Error::QueueNotReady => "trying to process requests on a queue that's not ready"@,
            Error::VolatileMemoryError(_) => "volatile memory error: "@,
            Error::DescriptorChainOverflow => "the combined length of all the buffers in a `DescriptorChain` would overflow"@,
            Error::FindMemoryRegion => "no memory region for this address range"@,
            Error::GuestMemoryError(_) => "descriptor guest memory error: "@,
            Error::SplitOutOfBounds(_) => "`DescriptorChain` split is out of bounds: "@,
        }
    }

    /// What the error says. Behind the headline of an error of guest memory that was met
    /// while a chain was used comes what that error says, which depends on the memory.
    pub fn description(&self) -> (res: String)
        ensures
            match *self {
                Error::VolatileMemoryError(_) => self.headline().is_prefix_of(res@),
                Error::GuestMemoryError(_) => self.headline().is_prefix_of(res@),
                Error::SplitOutOfBounds(off) => res@ == self.headline() + text::decimal(off as nat),
                _ => res@ == self.headline(),
            },
    {
        let headline = match self {
            Error::AddressOverflow => "address overflow",
            Error::GuestMemory(_) => "error accessing guest memory",
            Error::InvalidChain => "invalid descriptor chain",
            Error::InvalidIndirectDescriptor => "invalid indirect descriptor",
            Error::InvalidIndirectDescriptorTable => "invalid indirect descriptor table",
            Error::InvalidDescriptorIndex => "invalid descriptor index",
            Error::InvalidMaxSize => "invalid queue maximum size",
            Error::InvalidSize => "invalid queue size",
            Error::InvalidDescTableAlign => "virtio queue descriptor table breaks alignment constraints",
            Error::InvalidAvailRingAlign => "virtio queue available ring breaks alignment constraints",
            Error::InvalidUsedRingAlign => "virtio queue used ring breaks alignment constraints",
            Error::InvalidAvailRingIndex => "invalid available ring index (more descriptors to process than queue size)",
            Error::QueueNotReady => "trying to process requests on a queue that's not ready",
            Error::VolatileMemoryError(_) => "volatile memory error: ",
            Error::DescriptorChainOverflow => "the combined length of all the buffers in a `DescriptorChain` would overflow",
            Error::FindMemoryRegion => "no memory region for this address range",
            Error::GuestMemoryError(_) => "descriptor guest memory error: ",
            Error::SplitOutOfBounds(_) => "`DescriptorChain` split is out of bounds: ",
        };
        let mut out = String::from_str(headline);
        let ghost head = out@;
        match self {
            Error::VolatileMemoryError(e) => {
                out.append(volatile_error_text(e).as_str());
                assert(head.is_prefix_of(out@));
            },
            Error::GuestMemoryError(e) => {
                out.append(guest_error_text(e).as_str());
                assert(head.is_prefix_of(out@));
            },
            Error::SplitOutOfBounds(off) => {
                append_decimal(&mut out, *off as u64);
            },
            _ => {},
        }
        out
    }
}

/// `n` modulo 2^16, the arithmetic of the ring indices.
pub open spec fn wrap16(n: int) -> u16 {
    (n % 0x1_0000) as u16
}

/// An element of the used ring.
#[derive(Clone, Copy, Debug, Default)]
pub struct VirtqUsedElem {
    pub id: u32,
    pub len: u32,
}

impl VirtqUsedElem {
    /// `id` is the index of the used chain, `len` the number of bytes written to it.
    pub fn new(id: u32, len: u32) -> (res: Self)
        ensures
            res.id == id,
            res.len == len,
    {
        VirtqUsedElem { id, len }
    }

    /// The element as it stands in the ring.
    pub open spec fn bytes(&self) -> Seq<u8> {
        byte_order::le32_bytes(self.id) + byte_order::le32_bytes(self.len)
    }

    pub fn to_bytes(&self) -> (res: [u8; 8])
        ensures
            res@ == self.bytes(),
    {
        let mut id: [u8; 4] = [0, 0, 0, 0];
        write_le_u32(&mut id, self.id);
        let mut len: [u8; 4] = [0, 0, 0, 0];
        write_le_u32(&mut len, self.len);
        let res: [u8; 8] = [id[0], id[1], id[2], id[3], len[0], len[1], len[2], len[3]];
        proof {
            assert(res@ =~= self.bytes());
        }
        res
    }
}

/// A virtio descriptor.
#[derive(Clone, Copy, Debug, Default, PartialEq, Eq, Structural)]
pub struct Descriptor {
    pub addr: u64,
    pub len: u32,
    pub flags: u16,
    pub next: u16,
}

impl Descriptor {
    /// The descriptor as it stands in the descriptor table.
    pub open spec fn bytes(&self) -> Seq<u8> {
        byte_order::le64_bytes(self.addr) + byte_order::le32_bytes(self.len) + byte_order::le16_bytes(self.flags) + byte_order::le16_bytes(
            self.next,
        )
    }

    /// The descriptor that `bytes` stand for.
    pub open spec fn decode(bytes: Seq<u8>) -> Descriptor {
        Descriptor {
            addr: byte_order::le_u64(bytes),
            len: byte_order::le_u32(byte_order::tail(bytes, 8)),
            flags: byte_order::le_u16(byte_order::tail(bytes, 12)),
            next: byte_order::le_u16(byte_order::tail(bytes, 14)),
        }
    }

    /// Reads a descriptor from its 16 bytes.
    pub fn from_bytes(bytes: &[u8]) -> (res: Descriptor)
        requires
            bytes@.len() == 16,
        ensures
            res == Descriptor::decode(bytes@),
    {
        Descriptor {
            addr: read_le_u64(bytes),
            len: read_le_u32(vstd::slice::slice_subrange(bytes, 8, 16)),
            flags: read_le_u16(vstd::slice::slice_subrange(bytes, 12, 16)),
            next: read_le_u16(vstd::slice::slice_subrange(bytes, 14, 16)),
        }
    }
}

/// What stands in the used ring for an element gives the index and the length back.
pub proof fn used_element_reads_back(e: VirtqUsedElem)
    ensures
        e.bytes().len() == 8,
        byte_order::le_u32(e.bytes()) == e.id,
        byte_order::le_u32(byte_order::tail(e.bytes(), 4)) == e.len,
{
    let b = e.bytes();
    byte_order::write_then_read_u32(b, e.id);
    assert(byte_order::overlay(b, 0, byte_order::le32_bytes(e.id)) =~= b);
    let t = byte_order::tail(b, 4);
    byte_order::write_then_read_u32(t, e.len);
    assert(byte_order::overlay(t, 0, byte_order::le32_bytes(e.len)) =~= t);
}

/// A descriptor read back from the bytes it was written as is the same descriptor.
pub proof fn descriptor_bytes_round_trip(d: Descriptor)
    ensures
        Descriptor::decode(d.bytes()) == d,
        d.bytes().len() == 16,
{
    let b = d.bytes();
    assert(byte_order::le_u64(b) == d.addr) by {
        byte_order::write_then_read_u64(b, d.addr);
        assert(byte_order::overlay(b, 0, byte_order::le64_bytes(d.addr)) =~= b);
    }
    assert(byte_order::le_u32(byte_order::tail(b, 8)) == d.len) by {
        byte_order::write_then_read_u32(byte_order::tail(b, 8), d.len);
        assert(byte_order::overlay(byte_order::tail(b, 8), 0, byte_order::le32_bytes(d.len)) =~= byte_order::tail(b, 8));
    }
    assert(byte_order::le_u16(byte_order::tail(b, 12)) == d.flags) by {
        byte_order::write_then_read_u16(byte_order::tail(b, 12), d.flags);
        assert(byte_order::overlay(byte_order::tail(b, 12), 0, byte_order::le16_bytes(d.flags)) =~= byte_order::tail(b, 12));
    }
    assert(byte_order::le_u16(byte_order::tail(b, 14)) == d.next) by {
        byte_order::write_then_read_u16(byte_order::tail(b, 14), d.next);
        assert(byte_order::overlay(byte_order::tail(b, 14), 0, byte_order::le16_bytes(d.next)) =~= byte_order::tail(b, 14));
    }
}

/// A virtio descriptor chain, seen from one of its descriptors.
#[derive(Clone, Copy, Debug, PartialEq, Eq, Structural)]
pub struct DescriptorChain {
    pub desc_table: GuestAddress,
    pub queue_size: u16,
    /// How many more descriptors the walk may visit; it ends cyclic chains.
    pub ttl: u16,
    /// Index into the descriptor table.
    pub index: u16,
    /// Guest physical address of the buffer.
    pub addr: GuestAddress,
    /// Length of the buffer.
    pub len: u32,
    /// Next, write and indirect bits.
    pub flags: u16,
    /// Index of the next descriptor, if the next bit is set.
    pub next: u16,
}

/// Where descriptor `index` of the table at `table` stands.
pub open spec fn descriptor_addr(table: GuestAddress, index: u16) -> int {
    table.0 + index * 16
}

/// Whether descriptor `index` may be read: the index is in the table, and both the
/// descriptor and the byte behind it are at mapped addresses.
pub open spec fn descriptor_in_reach(
    regions: Seq<(u64, u64)>,
    table: GuestAddress,
    queue_size: u16,
    index: u16,
) -> bool {
    let at = descriptor_addr(table, index);
    &&& index < queue_size
    &&& at + 16 <= u64::MAX
    &&& guest_memory::is_mapped(regions, at)
    &&& guest_memory::is_mapped(regions, at + 16)
}

/// The chain that descriptor `d`, found at `index`, begins: none if it links to a
/// descriptor outside the table.
pub open spec fn chain_at(
    table: GuestAddress,
    queue_size: u16,
    index: u16,
    d: Descriptor,
) -> Option<DescriptorChain> {
    let chain = DescriptorChain {
        desc_table: table,
        queue_size,
        ttl: queue_size,
        index,
        addr: GuestAddress(d.addr),
        len: d.len,
        flags: d.flags,
        next: d.next,
    };
    if chain.links_on() && d.next >= queue_size {
        None
    } else {
        Some(chain)
    }
}

/// The chain that the bytes of a descriptor read begin.
pub open spec fn chain_in(
    table: GuestAddress,
    queue_size: u16,
    index: u16,
    bytes: Option<Seq<u8>>,
) -> Option<DescriptorChain> {
    match bytes {
        Some(b) => chain_at(table, queue_size, index, Descriptor::decode(b)),
        None => None,
    }
}

impl DescriptorChain {
    /// Whether the walk goes on behind this descriptor.
    pub open spec fn links_on(&self) -> bool {
        self.flags & VIRTQ_DESC_F_NEXT != 0 && self.ttl > 1
    }

    /// Whether the driver set the write bit: the device writes the buffer.
    pub open spec fn writable(&self) -> bool {
        self.flags & VIRTQ_DESC_F_WRITE != 0
    }

    /// The chain that the descriptor `desc`, read from place `index` of the table, begins.
    pub fn from_descriptor(
        desc_table: GuestAddress,
        queue_size: u16,
        index: u16,
        desc: Descriptor,
    ) -> (res: Option<DescriptorChain>)
        ensures
            res == chain_at(desc_table, queue_size, index, desc),
    {
        let chain = DescriptorChain {
            desc_table,
            queue_size,
            ttl: queue_size,
            index,
            addr: GuestAddress(desc.addr),
            len: desc.len,
            flags: desc.flags,
            next: desc.next,
        };
        if chain.is_valid() {
            Some(chain)
        } else {
            None
        }
    }

    /// Reads descriptor `index` of the table, if it is in reach and links on within the table.
    pub fn checked_new(
        mem: &mut GuestMemory,
        desc_table: GuestAddress,
        queue_size: u16,
        index: u16,
    ) -> (res: Option<DescriptorChain>)
        ensures
            final(mem).regions() == old(mem).regions(),
            final(mem).backed() == old(mem).backed(),
            if descriptor_in_reach(old(mem).regions(), desc_table, queue_size, index) {
                &&& final(mem).log() == old(mem).log().push(
                    MemOp::Read {
                        addr: descriptor_addr(desc_table, index) as u64,
                        len: 16,
                        bytes: final(mem).log().last()->bytes,
                    },
                )
                &&& guest_memory::reads_as(
                    old(mem).regions(),
                    descriptor_addr(desc_table, index) as u64,
                    16,
                    final(mem).log().last()->bytes,
                )
                &&& res == chain_in(
                    desc_table,
                    queue_size,
                    index,
                    final(mem).log().last()->bytes,
                )
            } else {
                &&& final(mem).log() == old(mem).log()
                &&& res is None
            },
    {
        if index >= queue_size {
            return None;
        }
        let desc_head = match mem.checked_offset(desc_table, index as usize * 16) {
            Some(addr) => addr,
            None => return None,
        };
        if mem.checked_offset(desc_head, 16).is_none() {
            return None;
        }
        match mem.read(desc_head, 16) {
            Ok(bytes) => DescriptorChain::from_descriptor(
                desc_table,
                queue_size,
                index,
                Descriptor::from_bytes(bytes.as_slice()),
            ),
            Err(_) => None,
        }
    }

    /// Whether the link of this descriptor, if it has one, stays in the table.
    pub fn is_valid(&self) -> (res: bool)
        ensures
            res == (self.links_on() ==> self.next < self.queue_size),
    {
        !self.has_next() || self.next < self.queue_size
    }

    /// Whether another descriptor is linked behind this one.
    pub fn has_next(&self) -> (res: bool)
        ensures
            res == self.links_on(),
    {
        self.flags & VIRTQ_DESC_F_NEXT != 0 && self.ttl > 1
    }

    /// Whether the driver designated this descriptor as write only.
    pub fn is_write_only(&self) -> (res: bool)
        ensures
            res == self.writable(),
    {
        self.flags & VIRTQ_DESC_F_WRITE != 0
    }

    /// Whether the driver designated this descriptor as read only.
    pub fn is_read_only(&self) -> (res: bool)
        ensures
            res == !self.writable(),
    {
        self.flags & VIRTQ_DESC_F_WRITE == 0
    }

    /// The next descriptor of the chain, if there is one.
    pub fn next_descriptor(&self, mem: &mut GuestMemory) -> (res: Option<DescriptorChain>)
        ensures
            final(mem).regions() == old(mem).regions(),
            final(mem).backed() == old(mem).backed(),
            next_step(old(mem).regions(), *self, old(mem).log(), final(mem).log(), res),
    {
        if self.has_next() {
            match DescriptorChain::checked_new(mem, self.desc_table, self.queue_size, self.next) {
                Some(chain) => {
                    let mut next = chain;
                    next.ttl = self.ttl - 1;
                    Some(next)
                },
                None => None,
            }
        } else {
            None
        }
    }

    /// All the descriptors of the chain from this one on.
    pub fn into_iter(self, mem: &mut GuestMemory) -> (res: DescIter)
        ensures
            final(mem).regions() == old(mem).regions(),
            final(mem).backed() == old(mem).backed(),
            walk_step(old(mem).regions(), self, old(mem).log(), final(mem).log(), res@),
        decreases self.ttl,
    {
        let ghost log0 = mem.log();
        let ghost regions = mem.regions();
        match self.next_descriptor(mem) {
            Some(next) => {
                let ghost log1 = mem.log();
                let rest = next.into_iter(mem);
                proof {
                    let acc = mem.log().skip(log0.len() as int);
                    assert(acc.skip(1) =~= mem.log().skip(log1.len() as int));
                    assert(acc[0] == mem.log()[log0.len() as int]);
                    assert(log1.is_prefix_of(mem.log()));
                    assert(log1[log0.len() as int] == mem.log()[log0.len() as int]);
                    assert(log0.is_prefix_of(mem.log()));
                }
                let mut chain: Vec<DescriptorChain> = vec![self];
                let mut tail_items = rest.items;
                chain.append(&mut tail_items);
                proof {
                    assert(chain@ =~= chain_of(
                        regions,
                        self,
                        mem.log().skip(log0.len() as int),
                    ));
                }
                DescIter { items: chain }
            },
            None => {
                proof {
                    let acc = mem.log().skip(log0.len() as int);
                    if fetches_next(regions, self) {
                        assert(acc =~= seq![mem.log().last()]);
                        assert(acc.skip(1) =~= Seq::empty());
                    } else {
                        assert(acc =~= Seq::empty());
                    }
                }
                let chain: Vec<DescriptorChain> = vec![self];
                proof {
                    assert(chain@ =~= chain_of(
                        regions,
                        self,
                        mem.log().skip(log0.len() as int),
                    ));
                }
                DescIter { items: chain }
            },
        }
    }

    pub fn descriptor(&self) -> (res: Descriptor)
        ensures
            res == (Descriptor {
                addr: self.addr.0,
                len: self.len,
                flags: self.flags,
                next: self.next,
            }),
    {
        Descriptor { addr: self.addr.0, len: self.len, flags: self.flags, next: self.next }
    }
}

/// Whether the walk reads a descriptor behind `chain`.
pub open spec fn fetches_next(regions: Seq<(u64, u64)>, chain: DescriptorChain) -> bool {
    chain.links_on() && descriptor_in_reach(
        regions,
        chain.desc_table,
        chain.queue_size,
        chain.next,
    )
}

/// The descriptor behind `chain`, given the bytes its read gave.
pub open spec fn next_in(chain: DescriptorChain, bytes: Option<Seq<u8>>) -> Option<
    DescriptorChain,
> {
    match chain_in(chain.desc_table, chain.queue_size, chain.next, bytes) {
        Some(next) => Some(DescriptorChain { ttl: (chain.ttl - 1) as u16, ..next }),
        None => None,
    }
}

/// Whether looking for the descriptor behind `chain` took the log from `before` to `after` and
/// gave `next`.
pub open spec fn next_step(
    regions: Seq<(u64, u64)>,
    chain: DescriptorChain,
    before: Seq<MemOp>,
    after: Seq<MemOp>,
    next: Option<DescriptorChain>,
) -> bool {
    if fetches_next(regions, chain) {
        let addr = descriptor_addr(chain.desc_table, chain.next) as u64;
        let bytes = after.last()->bytes;
        &&& after == before.push(MemOp::Read { addr, len: 16, bytes })
        &&& guest_memory::reads_as(regions, addr, 16, bytes)
        &&& next == next_in(chain, bytes)
    } else {
        after == before && next is None
    }
}

/// Whether `acc` are the accesses of a walk that starts at `first`: one read for each
/// descriptor behind it.
pub open spec fn chain_reads(
    regions: Seq<(u64, u64)>,
    first: DescriptorChain,
    acc: Seq<MemOp>,
) -> bool
    decreases first.ttl,
{
    if fetches_next(regions, first) {
        &&& acc.len() > 0
        &&& acc[0] == (MemOp::Read {
            addr: descriptor_addr(first.desc_table, first.next) as u64,
            len: 16,
            bytes: acc[0]->bytes,
        })
        &&& guest_memory::reads_as(
            regions,
            descriptor_addr(first.desc_table, first.next) as u64,
            16,
            acc[0]->bytes,
        )
        &&& match next_in(first, acc[0]->bytes) {
            Some(next) => next.ttl < first.ttl && chain_reads(regions, next, acc.skip(1)),
            None => acc.len() == 1,
        }
    } else {
        acc.len() == 0
    }
}

/// The descriptors that a walk from `first` with the accesses `acc` visits.
pub open spec fn chain_of(
    regions: Seq<(u64, u64)>,
    first: DescriptorChain,
    acc: Seq<MemOp>,
) -> Seq<DescriptorChain>
    decreases first.ttl,
{
    if fetches_next(regions, first) {
        match next_in(first, acc[0]->bytes) {
            Some(next) => if next.ttl < first.ttl {
                seq![first] + chain_of(regions, next, acc.skip(1))
            } else {
                seq![first]
            },
            None => seq![first],
        }
    } else {
        seq![first]
    }
}

/// Whether a walk from `first` took the log from `before` to `after` and gave `chain`.
pub open spec fn walk_step(
    regions: Seq<(u64, u64)>,
    first: DescriptorChain,
    before: Seq<MemOp>,
    after: Seq<MemOp>,
    chain: Seq<DescriptorChain>,
) -> bool {
    &&& before.is_prefix_of(after)
    &&& chain_reads(regions, first, after.skip(before.len() as int))
    &&& chain == chain_of(regions, first, after.skip(before.len() as int))
}

/// A walk visits at most as many descriptors as the time to live of its first one, so a
/// chain popped from a queue has at most as many as the queue has entries, also where the
/// driver linked it into a circle.
pub proof fn chain_is_bounded(regions: Seq<(u64, u64)>, first: DescriptorChain, acc: Seq<MemOp>)
    requires
        first.ttl >= 1,
    ensures
        1 <= chain_of(regions, first, acc).len() <= first.ttl,
        chain_of(regions, first, acc)[0] == first,
        forall|i: int|
            0 <= i < chain_of(regions, first, acc).len() ==> (#[trigger] chain_of(
                regions,
                first,
                acc,
            )[i]).ttl == first.ttl - i,
    decreases first.ttl,
{
    if fetches_next(regions, first) {
        match next_in(first, acc[0]->bytes) {
            Some(next) => {
                chain_is_bounded(regions, next, acc.skip(1));
                let rest = chain_of(regions, next, acc.skip(1));
                assert forall|i: int| 0 <= i < chain_of(regions, first, acc).len() implies (
                #[trigger] chain_of(regions, first, acc)[i]).ttl == first.ttl - i by {
                    if i > 0 {
                        assert(chain_of(regions, first, acc)[i] == rest[i - 1]);
                    }
                }
            },
            None => {},
        }
    }
}

/// A walk along a chain that does something at each descriptor before it looks for the next.
pub struct Walk {
    pub descs: Seq<DescriptorChain>,
    /// The log when a descriptor was reached.
    pub reached: Seq<Seq<MemOp>>,
    /// The log when all was done there.
    pub done: Seq<Seq<MemOp>>,
}

/// Whether `walk` goes on from descriptor `i` to the one behind it.
pub open spec fn goes_on(regions: Seq<(u64, u64)>, walk: Walk, i: int) -> bool {
    next_step(
        regions,
        walk.descs[i],
        walk.done[i],
        walk.reached[i + 1],
        Some(walk.descs[i + 1]),
    )
}

/// Whether `walk` has come from `first`, with the log `before`, to its last descriptor, at
/// which nothing has been done yet.
pub open spec fn walking(
    regions: Seq<(u64, u64)>,
    first: DescriptorChain,
    before: Seq<MemOp>,
    walk: Walk,
) -> bool {
    &&& walk.descs.len() >= 1
    &&& walk.reached.len() == walk.descs.len()
    &&& walk.done.len() == walk.descs.len() - 1
    &&& walk.descs[0] == first
    &&& walk.reached[0] == before
    &&& forall|i: int| 0 <= i < walk.descs.len() - 1 ==> #[trigger] goes_on(regions, walk, i)
}

/// Whether `walk` went from `first`, with the log `before`, to the end of the chain, with the
/// log `after`.
pub open spec fn walked(
    regions: Seq<(u64, u64)>,
    first: DescriptorChain,
    before: Seq<MemOp>,
    walk: Walk,
    after: Seq<MemOp>,
) -> bool {
    &&& walk.descs.len() >= 1
    &&& walk.reached.len() == walk.descs.len()
    &&& walk.done.len() == walk.descs.len()
    &&& walk.descs[0] == first
    &&& walk.reached[0] == before
    &&& forall|i: int| 0 <= i < walk.descs.len() - 1 ==> #[trigger] goes_on(regions, walk, i)
    &&& next_step(regions, walk.descs.last(), walk.done.last(), after, None)
}

impl Walk {
    /// A walk that has just come to `first`.
    pub open spec fn begin(first: DescriptorChain, before: Seq<MemOp>) -> Walk {
        Walk { descs: seq![first], reached: seq![before], done: Seq::empty() }
    }

    /// The walk once all is done at its last descriptor.
    pub open spec fn work(self, log: Seq<MemOp>) -> Walk {
        Walk { done: self.done.push(log), ..self }
    }

    /// The walk once it has come to `next`.
    pub open spec fn go_on(self, next: DescriptorChain, log: Seq<MemOp>) -> Walk {
        Walk { descs: self.descs.push(next), reached: self.reached.push(log), ..self }
    }
}

/// A walk that has come to its last descriptor and found another one has come to that.
pub proof fn walk_goes_on(
    regions: Seq<(u64, u64)>,
    first: DescriptorChain,
    before: Seq<MemOp>,
    walk: Walk,
    done: Seq<MemOp>,
    next: DescriptorChain,
    after: Seq<MemOp>,
)
    requires
        walking(regions, first, before, walk),
        next_step(regions, walk.descs.last(), done, after, Some(next)),
    ensures
        walking(regions, first, before, walk.work(done).go_on(next, after)),
        next.ttl < walk.descs.last().ttl,
{
    let longer = walk.work(done).go_on(next, after);
    assert forall|i: int| 0 <= i < longer.descs.len() - 1 implies #[trigger] goes_on(
        regions,
        longer,
        i,
    ) by {
        if i < walk.descs.len() - 1 {
            assert(goes_on(regions, walk, i));
        }
    }
}

/// A walk that has come to its last descriptor and found no other is at the end.
pub proof fn walk_ends(
    regions: Seq<(u64, u64)>,
    first: DescriptorChain,
    before: Seq<MemOp>,
    walk: Walk,
    done: Seq<MemOp>,
    after: Seq<MemOp>,
)
    requires
        walking(regions, first, before, walk),
        next_step(regions, walk.descs.last(), done, after, None),
    ensures
        walked(regions, first, before, walk.work(done), after),
{
    let all = walk.work(done);
    assert forall|i: int| 0 <= i < all.descs.len() - 1 implies #[trigger] goes_on(
        regions,
        all,
        i,
    ) by {
        assert(goes_on(regions, walk, i));
    }
}

/// However long a walk is, it visits at most as many descriptors as the time to live of its
/// first one, also where the driver links the chain into a circle or changes it on the way.
pub proof fn walk_is_bounded(
    regions: Seq<(u64, u64)>,
    first: DescriptorChain,
    before: Seq<MemOp>,
    walk: Walk,
    after: Seq<MemOp>,
    i: int,
)
    requires
        walked(regions, first, before, walk, after),
        first.ttl >= 1,
        0 <= i < walk.descs.len(),
    ensures
        walk.descs[i].ttl == first.ttl - i,
        i < first.ttl,
    decreases i,
{
    if i > 0 {
        walk_is_bounded(regions, first, before, walk, after, i - 1);
        assert(goes_on(regions, walk, i - 1));
    }
}

/// The descriptors of a chain, in order.
pub struct DescIter {
    pub items: Vec<DescriptorChain>,
}

impl View for DescIter {
    type V = Seq<DescriptorChain>;

    open spec fn view(&self) -> Seq<DescriptorChain> {
        self.items@
    }
}

impl DescIter {
    /// The descriptors that are write only if `write_only`, else those that are read only.
    fn select(&self, write_only: bool) -> (res: Vec<DescriptorChain>)
        ensures
            res@ == self@.filter(|d: DescriptorChain| d.writable() == write_only),
    {
        let ghost fits = |d: DescriptorChain| d.writable() == write_only;
        let mut res: Vec<DescriptorChain> = Vec::new();
        let mut i: usize = 0;
        proof {
            reveal(Seq::filter);
            assert(self@.take(0) =~= Seq::<DescriptorChain>::empty());
        }
        while i < self.items.len()
            invariant
                i <= self@.len(),
                fits == (|d: DescriptorChain| d.writable() == write_only),
                res@ == self@.take(i as int).filter(fits),
            decreases self@.len() - i,
        {
            let d: DescriptorChain = self.items[i];
            if d.is_write_only() == write_only {
                res.push(d);
            }
            proof {
                reveal(Seq::filter);
                assert(self@.take(i + 1).drop_last() =~= self@.take(i as int));
                assert(self@.take(i + 1).last() == d);
            }
            i += 1;
        }
        assert(self@.take(i as int) =~= self@);
        res
    }

    /// The readable descriptors of the chain.
    pub fn readable(self) -> (res: Vec<DescriptorChain>)
        ensures
            res@ == self@.filter(|d: DescriptorChain| !d.writable()),
    {
        let res = self.select(false);
        proof {
            let f = |d: DescriptorChain| d.writable() == false;
            let g = |d: DescriptorChain| !d.writable();
            assert(f =~= g);
        }
        res
    }

    /// The writable descriptors of the chain.
    pub fn writable(self) -> (res: Vec<DescriptorChain>)
        ensures
            res@ == self@.filter(|d: DescriptorChain| d.writable()),
    {
        let res = self.select(true);
        proof {
            let f = |d: DescriptorChain| d.writable() == true;
            let g = |d: DescriptorChain| d.writable();
            assert(f =~= g);
        }
        res
    }
}

/// Whether `n` is a power of two.
pub open spec fn is_power_of_two(n: u16) -> bool {
    exists|k: nat| k < 16 && n == #[trigger] vstd::arithmetic::power2::pow2(k)
}

/// A positive number is a power of two exactly if it has no bit in common with its
/// predecessor.
proof fn power_of_two_by_bits(n: u16)
    requires
        n > 0,
    ensures
        (n & (n - 1) as u16) == 0 <==> is_power_of_two(n),
{
    let m = (n - 1) as u16;
    assert((n & m) == 0 <==> (n == 1 || n == 2 || n == 4 || n == 8 || n == 16 || n == 32 || n == 64
        || n == 128 || n == 256 || n == 512 || n == 1024 || n == 2048 || n == 4096 || n == 8192
        || n == 16384 || n == 32768)) by (bit_vector)
        requires
            n > 0,
            m == n - 1,
    ;
    vstd::arithmetic::power2::lemma2_to64();
}

/// The readiness, size and alignment conditions on a queue.
pub open spec fn params_valid(
    ready: bool,
    size: u16,
    max_size: u16,
    desc_table: u64,
    avail_ring: u64,
    used_ring: u64,
) -> bool {
    &&& ready
    &&& size <= max_size
    &&& is_power_of_two(size)
    &&& desc_table % 16 == 0
    &&& avail_ring % 2 == 0
    &&& used_ring % 4 == 0
}

/// Whether `base + len` is the address of a mapped byte.
pub open spec fn end_mapped(regions: Seq<(u64, u64)>, base: GuestAddress, len: int) -> bool {
    base.0 + len <= u64::MAX && guest_memory::is_mapped(regions, base.0 + len)
}

/// Whether the device owes the driver a notification: the index that the driver waits for
/// is among the last `added` of those in front of `next_used`.
pub open spec fn must_notify(next_used: u16, used_event: u16, added: u16) -> bool {
    wrap16(next_used - used_event - 1) < added
}

/// Whether a pop took the queue from `q0` to `q1` and the log from `before` to `after`, and
/// gave `res`. The queue moves on exactly if there is a chain.
pub open spec fn pop_step(
    regions: Seq<(u64, u64)>,
    q0: Queue,
    before: Seq<MemOp>,
    q1: Queue,
    after: Seq<MemOp>,
    res: Option<DescriptorChain>,
) -> bool {
    &&& before.is_prefix_of(after)
    &&& q0.pops(regions, after.skip(before.len() as int), res)
    &&& q1 == (Queue {
        next_avail: if res is Some {
            wrap16(q0.next_avail + 1)
        } else {
            q0.next_avail
        },
        ..q0
    })
}

/// Whether handing chain `head_index` back with `len` bytes written took the queue from
/// `q0` to `q1` and the log from `before` to `after`, and gave `res`: the element goes to
/// the next slot of the used ring, then the new index to the ring's header.
pub open spec fn add_used_step(
    regions: Seq<(u64, u64)>,
    q0: Queue,
    before: Seq<MemOp>,
    q1: Queue,
    after: Seq<MemOp>,
    head_index: u16,
    len: u32,
    res: Result<(), Error>,
) -> bool {
    if head_index >= q0.size {
        &&& res matches Err(Error::InvalidDescriptorIndex)
        &&& q1 == q0
        &&& after == before
    } else if q0.next_used_addr() > u64::MAX {
        &&& res matches Err(Error::AddressOverflow)
        &&& q1 == q0
        &&& after == before
    } else {
        let written = guest_memory::span_mapped(regions, q0.next_used_addr() as u64, 8);
        let elem = MemOp::Write {
            addr: q0.next_used_addr() as u64,
            data: (VirtqUsedElem { id: head_index as u32, len }).bytes(),
            written,
        };
        if written {
            let done = guest_memory::is_cell(regions, (q0.used_ring.0 + 2) as u64);
            &&& q1 == q0.after_add_used()
            &&& after == before.push(elem).push(
                MemOp::Store {
                    addr: (q0.used_ring.0 + 2) as u64,
                    stored: q1.next_used,
                    done,
                },
            )
            &&& done ==> res is Ok
            &&& !done ==> res matches Err(Error::GuestMemory(_))
        } else {
            &&& res matches Err(Error::GuestMemory(_))
            &&& q1 == q0
            &&& after == before.push(elem)
        }
    }
}

/// A virtio queue.
#[derive(Clone, Copy, Debug, PartialEq, Eq, Structural)]
pub struct Queue {
    /// The most elements that the device offers.
    pub max_size: u16,
    /// The number of elements that the driver selected.
    pub size: u16,
    /// Whether the driver has finished configuring the queue.
    pub ready: bool,
    /// Guest physical address of the descriptor table.
    pub desc_table: GuestAddress,
    /// Guest physical address of the available ring.
    pub avail_ring: GuestAddress,
    /// Guest physical address of the used ring.
    pub used_ring: GuestAddress,
    pub next_avail: u16,
    pub next_used: u16,
    /// Whether event indices were negotiated.
    pub event_idx_enabled: bool,
    /// The chains added to the used ring since `needs_notification` was last asked.
    pub num_added: u16,
}

/// An empty queue of at most `max_size` elements.
pub open spec fn empty_queue(max_size: u16) -> Queue {
    Queue {
        max_size,
        size: 0,
        ready: false,
        desc_table: GuestAddress(0),
        avail_ring: GuestAddress(0),
        used_ring: GuestAddress(0),
        next_avail: 0,
        next_used: 0,
        event_idx_enabled: false,
        num_added: 0,
    }
}

impl Queue {
    /// An empty queue of at most `max_size` elements.
    pub fn new(max_size: u16) -> (res: Queue)
        ensures
            res == empty_queue(max_size),
    {
        Queue {
            max_size,
            size: 0,
            ready: false,
            desc_table: GuestAddress(0),
            avail_ring: GuestAddress(0),
            used_ring: GuestAddress(0),
            next_avail: 0,
            next_used: 0,
            event_idx_enabled: false,
            num_added: 0,
        }
    }

    pub fn get_max_size(&self) -> (res: u16)
        ensures
            res == self.max_size,
    {
        self.max_size
    }

    /// The number of elements in use: the driver may set up fewer than the device offers.
    pub open spec fn entries(&self) -> u16 {
        if self.size <= self.max_size {
            self.size
        } else {
            self.max_size
        }
    }

    pub fn actual_size(&self) -> (res: u16)
        ensures
            res == self.entries(),
    {
        if self.size <= self.max_size {
            self.size
        } else {
            self.max_size
        }
    }

    pub fn next_avail(&self) -> (res: u16)
        ensures
            res == self.next_avail,
    {
        self.next_avail
    }

    pub fn next_used(&self) -> (res: u16)
        ensures
            res == self.next_used,
    {
        self.next_used
    }

    /// Sets the next available index, for a restore.
    pub fn set_next_avail(&mut self, idx: u16)
        ensures
            *final(self) == (Queue { next_avail: idx, ..*old(self) }),
    {
        self.next_avail = idx;
    }

    /// Sets the next used index, for a restore.
    pub fn set_next_used(&mut self, idx: u16)
        ensures
            *final(self) == (Queue { next_used: idx, ..*old(self) }),
    {
        self.next_used = idx;
    }

    /// The conditions on a queue that need no look at guest memory.
    pub fn is_valid_params(
        ready: bool,
        size: u16,
        max_size: u16,
        desc_table_addr: u64,
        avail_ring_addr: u64,
        used_ring_addr: u64,
    ) -> (res: bool)
        ensures
            res == params_valid(
                ready,
                size,
                max_size,
                desc_table_addr,
                avail_ring_addr,
                used_ring_addr,
            ),
    {
        proof {
            if size > 0 {
                power_of_two_by_bits(size);
            } else {
                vstd::arithmetic::power2::lemma2_to64();
                assert forall|k: nat| k < 16 implies size != #[trigger]
                vstd::arithmetic::power2::pow2(k) by {
                    vstd::arithmetic::power2::lemma_pow2_pos(k);
                }
            }
            assert(desc_table_addr & 0xf == desc_table_addr % 16) by (bit_vector);
            assert(avail_ring_addr & 0x1 == avail_ring_addr % 2) by (bit_vector);
            assert(used_ring_addr & 0x3 == used_ring_addr % 4) by (bit_vector);
        }
        ready && size != 0 && size <= max_size && (size & (size - 1)) == 0 && desc_table_addr & 0xf
            == 0 && avail_ring_addr & 0x1 == 0 && used_ring_addr & 0x3 == 0
    }

    /// What a valid queue is: sound parameters, and rings that end at mapped addresses.
    pub open spec fn valid_in(&self, regions: Seq<(u64, u64)>) -> bool {
        &&& params_valid(
            self.ready,
            self.size,
            self.max_size,
            self.desc_table.0,
            self.avail_ring.0,
            self.used_ring.0,
        )
        &&& end_mapped(regions, self.desc_table, 16 * self.size)
        &&& end_mapped(regions, self.avail_ring, 6 + 2 * self.size)
        &&& end_mapped(regions, self.used_ring, 6 + 8 * self.size)
    }

    /// Whether the driver has set the queue up so that it can be used.
    pub fn is_valid(&self, mem: &GuestMemory) -> (res: bool)
        ensures
            res == self.valid_in(mem.regions()),
    {
        let queue_size: u64 = self.actual_size() as u64;
        if !Queue::is_valid_params(
            self.ready,
            self.size,
            self.max_size,
            self.desc_table.0,
            self.avail_ring.0,
            self.used_ring.0,
        ) {
            return false;
        }
        Queue::ring_ends_in_range(mem, self.desc_table, 16 * queue_size)
            && Queue::ring_ends_in_range(mem, self.avail_ring, 6 + 2 * queue_size)
            && Queue::ring_ends_in_range(mem, self.used_ring, 6 + 8 * queue_size)
    }

    fn ring_ends_in_range(mem: &GuestMemory, base: GuestAddress, len: u64) -> (res: bool)
        ensures
            res == end_mapped(mem.regions(), base, len as int),
    {
        match base.checked_add(len) {
            Some(end) => mem.address_in_range(end),
            None => false,
        }
    }

    /// Where the index field of the available ring stands.
    pub open spec fn avail_idx_addr(&self) -> int {
        self.avail_ring.0 + 2
    }

    /// Where entry `slot` of the available ring stands.
    pub open spec fn avail_slot_addr(&self, slot: int) -> int {
        self.avail_ring.0 + 4 + 2 * slot
    }

    /// Where element `slot` of the used ring stands.
    pub open spec fn used_slot_addr(&self, slot: int) -> int {
        self.used_ring.0 + 4 + 8 * slot
    }

    /// Whether the index field of the available ring can be read.
    pub open spec fn countable_in(&self, regions: Seq<(u64, u64)>) -> bool {
        &&& self.avail_idx_addr() <= u64::MAX
        &&& guest_memory::is_cell(regions, self.avail_idx_addr() as u64)
    }

    /// Whether the index field of the available ring can be read.
    pub fn is_countable(&self, mem: &GuestMemory) -> (res: bool)
        ensures
            res == self.countable_in(mem.regions()),
    {
        match self.avail_ring.checked_add(2) {
            Some(addr) => mem.cell_in_reach(addr),
            None => false,
        }
    }

    /// Whether the available ring can be read: its index field, and all its entries.
    pub open spec fn readable_in(&self, regions: Seq<(u64, u64)>) -> bool {
        &&& self.avail_slot_addr(0) <= u64::MAX
        &&& guest_memory::is_cell(regions, self.avail_idx_addr() as u64)
        &&& guest_memory::span_mapped(
            regions,
            self.avail_slot_addr(0) as u64,
            2 * self.entries(),
        )
    }

    /// Whether the available ring can be read: its index field, and all its entries.
    pub fn is_readable(&self, mem: &GuestMemory) -> (res: bool)
        ensures
            res == self.readable_in(mem.regions()),
    {
        match self.avail_ring.checked_add(4) {
            Some(entries) => {
                mem.range_in_reach(entries, 2 * self.actual_size() as usize) && mem.cell_in_reach(
                    GuestAddress(self.avail_ring.0 + 2),
                )
            },
            None => false,
        }
    }

    /// Whether the used ring can be written: its index field, and all its elements.
    pub open spec fn writable_in(&self, regions: Seq<(u64, u64)>) -> bool {
        &&& self.used_slot_addr(0) <= u64::MAX
        &&& guest_memory::is_cell(regions, (self.used_ring.0 + 2) as u64)
        &&& guest_memory::span_mapped(regions, self.used_slot_addr(0) as u64, 8 * self.size)
    }

    /// Whether the used ring can be written: its index field, and all its elements.
    pub fn is_writable(&self, mem: &GuestMemory) -> (res: bool)
        ensures
            res == self.writable_in(mem.regions()),
    {
        match self.used_ring.checked_add(4) {
            Some(elements) => {
                mem.range_in_reach(elements, 8 * self.size as usize) && mem.cell_in_reach(
                    GuestAddress(self.used_ring.0 + 2),
                )
            },
            None => false,
        }
    }

    /// The number of chains in the available ring that were not popped yet.
    pub fn len(&self, mem: &mut GuestMemory) -> (res: u16)
        requires
            self.countable_in(old(mem).regions()),
        ensures
            final(mem).regions() == old(mem).regions(),
            final(mem).backed() == old(mem).backed(),
            final(mem).log().last()->val is Some,
            final(mem).log() == old(mem).log().push(
                MemOp::Load {
                    addr: self.avail_idx_addr() as u64,
                    val: final(mem).log().last()->val,
                },
            ),
            res == wrap16(final(mem).log().last()->val->0 - self.next_avail),
    {
        match mem.load(GuestAddress(self.avail_ring.0 + 2)) {
            Ok(idx) => idx.wrapping_sub(self.next_avail),
            Err(_) => 0,
        }
    }

    /// Whether the driver has made no chain available that was not popped yet.
    pub fn is_empty(&self, mem: &mut GuestMemory) -> (res: bool)
        requires
            self.countable_in(old(mem).regions()),
        ensures
            final(mem).regions() == old(mem).regions(),
            final(mem).backed() == old(mem).backed(),
            final(mem).log().last()->val is Some,
            final(mem).log() == old(mem).log().push(
                MemOp::Load {
                    addr: self.avail_idx_addr() as u64,
                    val: final(mem).log().last()->val,
                },
            ),
            res == (final(mem).log().last()->val->0 == self.next_avail),
    {
        self.len(mem) == 0
    }

    /// Where the entry for the next pop stands.
    pub open spec fn next_slot_addr(&self) -> int {
        self.avail_slot_addr((self.next_avail % self.entries()) as int)
    }

    /// Whether `acc` are the accesses of a pop, and `res` is what it gives: the available
    /// index, behind a fence the entry of the ring it leads to, and the descriptor that the
    /// entry names.
    pub open spec fn pops(
        &self,
        regions: Seq<(u64, u64)>,
        acc: Seq<MemOp>,
        res: Option<DescriptorChain>,
    ) -> bool {
        &&& acc.len() >= 1
        &&& acc[0]->val is Some
        &&& acc[0] == (MemOp::Load { addr: self.avail_idx_addr() as u64, val: acc[0]->val })
        &&& if acc[0]->val->0 == self.next_avail || self.entries() == 0 {
            acc.len() == 1 && res is None
        } else {
            &&& acc.len() >= 3
            &&& acc[1] == MemOp::Fence
            &&& acc[2]->bytes is Some
            &&& acc[2]->bytes->0.len() == 2
            &&& acc[2] == (MemOp::Read {
                addr: self.next_slot_addr() as u64,
                len: 2,
                bytes: acc[2]->bytes,
            })
            &&& {
                let head = byte_order::le_u16(acc[2]->bytes->0);
                if descriptor_in_reach(regions, self.desc_table, self.entries(), head) {
                    &&& acc.len() == 4
                    &&& acc[3] == (MemOp::Read {
                        addr: descriptor_addr(self.desc_table, head) as u64,
                        len: 16,
                        bytes: acc[3]->bytes,
                    })
                    &&& guest_memory::reads_as(
                        regions,
                        descriptor_addr(self.desc_table, head) as u64,
                        16,
                        acc[3]->bytes,
                    )
                    &&& res == chain_in(self.desc_table, self.entries(), head, acc[3]->bytes)
                } else {
                    acc.len() == 3 && res is None
                }
            }
        }
    }

    /// Takes the first chain that the driver made available.
    pub fn pop(&mut self, mem: &mut GuestMemory) -> (res: Option<DescriptorChain>)
        requires
            old(self).readable_in(old(mem).regions()),
        ensures
            final(mem).regions() == old(mem).regions(),
            final(mem).backed() == old(mem).backed(),
            pop_step(
                old(mem).regions(),
                *old(self),
                old(mem).log(),
                *final(self),
                final(mem).log(),
                res,
            ),
    {
        let ghost log0 = mem.log();
        if self.len(mem) == 0 || self.actual_size() == 0 {
            proof {
                assert(mem.log().skip(log0.len() as int) =~= seq![mem.log().last()]);
            }
            return None;
        }
        let ghost log1 = mem.log();
        let slot: u64 = (self.next_avail % self.actual_size()) as u64;
        // All updates of the driver up to the index are to be seen below.
        mem.fence();
        let ghost fenced = mem.log();
        proof {
            assert forall|a: int|
                self.next_slot_addr() <= a < self.next_slot_addr()
                    + 2 implies #[trigger] guest_memory::is_mapped(mem.regions(), a) by {}
        }
        let desc_index: u16 = match mem.read(GuestAddress(self.avail_ring.0 + (4 + 2 * slot)), 2) {
            Ok(bytes) => read_le_u16(bytes.as_slice()),
            Err(_) => 0,
        };
        let ghost log2 = mem.log();
        let res = DescriptorChain::checked_new(
            mem,
            self.desc_table,
            self.actual_size(),
            desc_index,
        );
        if res.is_some() {
            self.next_avail = self.next_avail.wrapping_add(1);
        }
        proof {
            let acc = mem.log().skip(log0.len() as int);
            assert(acc[0] == log1.last());
            assert(acc[1] == fenced.last());
            assert(acc[2] == log2.last());
            assert(acc.len() == 4 ==> acc[3] == mem.log().last());
        }
        res
    }

    /// Undoes the last `pop`, for a caller that could not consume the chain.
    pub fn undo_pop(&mut self)
        ensures
            *final(self) == (Queue { next_avail: wrap16(old(self).next_avail - 1), ..*old(self) }),
    {
        self.next_avail = self.next_avail.wrapping_sub(1);
    }

    /// The queue after a chain was added to the used ring.
    pub open spec fn after_add_used(&self) -> Queue {
        Queue {
            next_used: wrap16(self.next_used + 1),
            num_added: wrap16(self.num_added + 1),
            ..*self
        }
    }

    /// Where the next used element goes.
    pub open spec fn next_used_addr(&self) -> int {
        self.used_slot_addr((self.next_used % self.size) as int)
    }

    /// Hands the chain `head_index` back to the driver, with `len` bytes written to it.
    pub fn add_used(&mut self, mem: &mut GuestMemory, head_index: u16, len: u32) -> (res: Result<
        (),
        Error,
    >)
        ensures
            final(mem).regions() == old(mem).regions(),
            final(mem).backed() == old(mem).backed(),
            add_used_step(
                old(mem).regions(),
                *old(self),
                old(mem).log(),
                *final(self),
                final(mem).log(),
                head_index,
                len,
                res,
            ),
    {
        if head_index >= self.size {
            return Err(Error::InvalidDescriptorIndex);
        }
        let next_used_index: u64 = (self.next_used % self.size) as u64;
        let offset: u64 = VIRTQ_USED_RING_HEADER_SIZE + next_used_index * VIRTQ_USED_ELEMENT_SIZE;
        let addr = match self.used_ring.checked_add(offset) {
            Some(addr) => addr,
            None => return Err(Error::AddressOverflow),
        };
        let elem = VirtqUsedElem::new(head_index as u32, len);
        let elem_bytes = elem.to_bytes();
        if let Err(e) = mem.write(&elem_bytes, addr) {
            return Err(Error::GuestMemory(e));
        }
        self.next_used = self.next_used.wrapping_add(1);
        self.num_added = self.num_added.wrapping_add(1);
        match mem.store(self.next_used, GuestAddress(self.used_ring.0 + 2)) {
            Ok(()) => Ok(()),
            Err(e) => Err(Error::GuestMemory(e)),
        }
    }
}

impl Queue {
    /// Where the field stands by which the driver asks for the next notification.
    pub open spec fn used_event_addr(&self) -> int {
        self.avail_slot_addr(self.size as int)
    }

    /// Where the field stands by which the device asks for the next notification.
    pub open spec fn avail_event_addr(&self) -> int {
        self.used_slot_addr(self.size as int)
    }

    /// Whether a 16-bit load of `addr` came out as `res`: an overflow without an access,
    /// an error of guest memory, or the value.
    pub open spec fn loads(
        regions: Seq<(u64, u64)>,
        before: Seq<MemOp>,
        after: Seq<MemOp>,
        addr: int,
        res: Result<u16, Error>,
    ) -> bool {
        if addr > u64::MAX {
            res matches Err(Error::AddressOverflow) && after == before
        } else {
            &&& after == before.push(MemOp::Load { addr: addr as u64, val: after.last()->val })
            &&& after.last()->val is Some <==> guest_memory::is_cell(regions, addr as u64)
            &&& match after.last()->val {
                Some(val) => res == Ok::<u16, Error>(val),
                None => res matches Err(Error::GuestMemory(_)),
            }
        }
    }

    /// Whether a 16-bit store of `val` to `addr` came out as `res`.
    pub open spec fn stores(
        regions: Seq<(u64, u64)>,
        before: Seq<MemOp>,
        after: Seq<MemOp>,
        addr: int,
        val: u16,
        res: Result<(), Error>,
    ) -> bool {
        if addr > u64::MAX {
            res matches Err(Error::AddressOverflow) && after == before
        } else {
            let done = guest_memory::is_cell(regions, addr as u64);
            &&& after == before.push(MemOp::Store { addr: addr as u64, stored: val, done })
            &&& if done {
                res is Ok
            } else {
                res matches Err(Error::GuestMemory(_))
            }
        }
    }

    /// The value of the used event field, which the driver writes.
    pub fn used_event(&self, mem: &mut GuestMemory) -> (res: Result<u16, Error>)
        ensures
            final(mem).regions() == old(mem).regions(),
            final(mem).backed() == old(mem).backed(),
            Queue::loads(
                old(mem).regions(),
                old(mem).log(),
                final(mem).log(),
                self.used_event_addr(),
                res,
            ),
    {
        let offset: u64 = VIRTQ_AVAIL_RING_HEADER_SIZE + self.size as u64
            * VIRTQ_AVAIL_ELEMENT_SIZE;
        match self.avail_ring.checked_add(offset) {
            Some(addr) => match mem.load(addr) {
                Ok(val) => Ok(val),
                Err(e) => Err(Error::GuestMemory(e)),
            },
            None => Err(Error::AddressOverflow),
        }
    }

    /// Writes the available event field.
    pub fn set_avail_event(&self, mem: &mut GuestMemory, val: u16) -> (res: Result<(), Error>)
        ensures
            final(mem).regions() == old(mem).regions(),
            final(mem).backed() == old(mem).backed(),
            Queue::stores(
                old(mem).regions(),
                old(mem).log(),
                final(mem).log(),
                self.avail_event_addr(),
                val,
                res,
            ),
    {
        let offset: u64 = VIRTQ_USED_RING_HEADER_SIZE + VIRTQ_USED_ELEMENT_SIZE * self.size as u64;
        match self.used_ring.checked_add(offset) {
            Some(addr) => match mem.store(val, addr) {
                Ok(()) => Ok(()),
                Err(e) => Err(Error::GuestMemory(e)),
            },
            None => Err(Error::AddressOverflow),
        }
    }

    pub fn set_event_idx(&mut self, enabled: bool)
        ensures
            *final(self) == (Queue { event_idx_enabled: enabled, ..*old(self) }),
    {
        self.event_idx_enabled = enabled;
    }

    /// Writes the flags field of the used ring.
    pub fn set_used_flags(&self, mem: &mut GuestMemory, val: u16) -> (res: Result<(), Error>)
        ensures
            final(mem).regions() == old(mem).regions(),
            final(mem).backed() == old(mem).backed(),
            Queue::stores(
                old(mem).regions(),
                old(mem).log(),
                final(mem).log(),
                self.used_ring.0 as int,
                val,
                res,
            ),
    {
        match mem.store(val, self.used_ring) {
            Ok(()) => Ok(()),
            Err(e) => Err(Error::GuestMemory(e)),
        }
    }

    /// What asking for notifications (`enable`) or for none does: with event indices the
    /// device asks for the one at `next_avail`, and asks for none by leaving the field
    /// alone; without, it clears or sets the flag in the used ring.
    pub open spec fn sets_notification(
        &self,
        regions: Seq<(u64, u64)>,
        before: Seq<MemOp>,
        after: Seq<MemOp>,
        enable: bool,
        res: Result<(), Error>,
    ) -> bool {
        if !self.event_idx_enabled {
            Queue::stores(
                regions,
                before,
                after,
                self.used_ring.0 as int,
                if enable {
                    0
                } else {
                    VRING_USED_F_NO_NOTIFY
                },
                res,
            )
        } else if enable {
            Queue::stores(regions, before, after, self.avail_event_addr(), self.next_avail, res)
        } else {
            res is Ok && after == before
        }
    }

    /// Asks the driver for notifications, or for none.
    pub fn set_notification(&self, mem: &mut GuestMemory, enable: bool) -> (res: Result<(), Error>)
        ensures
            final(mem).regions() == old(mem).regions(),
            final(mem).backed() == old(mem).backed(),
            self.sets_notification(
                old(mem).regions(),
                old(mem).log(),
                final(mem).log(),
                enable,
                res,
            ),
    {
        if enable {
            if self.event_idx_enabled {
                // `next_avail` rather than the current available index: chains that came in
                // since must not go unnoticed.
                self.set_avail_event(mem, self.next_avail)
            } else {
                self.set_used_flags(mem, 0)
            }
        } else if !self.event_idx_enabled {
            self.set_used_flags(mem, VRING_USED_F_NO_NOTIFY)
        } else {
            // With event indices a notification disables itself once it has come.
            Ok(())
        }
    }

    /// What asking for notifications again does: the request is written, then, behind a fence,
    /// the available index is read; the result says whether it has moved past `next_avail`.
    pub open spec fn enables_notification(
        &self,
        regions: Seq<(u64, u64)>,
        before: Seq<MemOp>,
        after: Seq<MemOp>,
        res: Result<bool, Error>,
    ) -> bool {
        exists|mid: Seq<MemOp>, set: Result<(), Error>|
            {
                &&& #[trigger] self.sets_notification(regions, before, mid, true, set)
                &&& match set {
                    Err(e) => res == Err::<bool, Error>(e) && after == mid,
                    Ok(()) => exists|idx: Result<u16, Error>|
                        {
                            &&& #[trigger] Queue::loads(
                                regions,
                                mid.push(MemOp::Fence),
                                after,
                                self.avail_idx_addr(),
                                idx,
                            )
                            &&& match idx {
                                Ok(idx) => res == Ok::<bool, Error>(idx != self.next_avail),
                                Err(e) => res == Err::<bool, Error>(e),
                            }
                        },
                }
            }
    }

    /// Asks for notifications again; `true` if the driver has added chains meanwhile.
    pub fn enable_notification(&mut self, mem: &mut GuestMemory) -> (res: Result<bool, Error>)
        ensures
            *final(self) == *old(self),
            final(mem).regions() == old(mem).regions(),
            final(mem).backed() == old(mem).backed(),
            old(self).enables_notification(
                old(mem).regions(),
                old(mem).log(),
                final(mem).log(),
                res,
            ),
    {
        let ghost log0 = mem.log();
        let set = self.set_notification(mem, true);
        let ghost mid = mem.log();
        assert(self.sets_notification(mem.regions(), log0, mid, true, set));
        if let Err(e) = set {
            return Err(e);
        }
        // The index is to be read behind the write above.
        mem.fence();
        let idx = self.avail_idx(mem);
        assert(Queue::loads(
            mem.regions(),
            mid.push(MemOp::Fence),
            mem.log(),
            self.avail_idx_addr(),
            idx,
        ));
        match idx {
            Ok(idx) => Ok(idx != self.next_avail),
            Err(e) => Err(e),
        }
    }

    /// Asks for no notifications.
    pub fn disable_notification(&mut self, mem: &mut GuestMemory) -> (res: Result<(), Error>)
        ensures
            *final(self) == *old(self),
            final(mem).regions() == old(mem).regions(),
            final(mem).backed() == old(mem).backed(),
            old(self).sets_notification(
                old(mem).regions(),
                old(mem).log(),
                final(mem).log(),
                false,
                res,
            ),
    {
        self.set_notification(mem, false)
    }

    /// What asking whether to notify the driver does: behind a fence, the field that the driver
    /// wrote is read where event indices are in use; otherwise the driver is always to be notified.
    pub open spec fn asks_notification(
        &self,
        regions: Seq<(u64, u64)>,
        before: Seq<MemOp>,
        after_queue: Queue,
        after: Seq<MemOp>,
        res: Result<bool, Error>,
    ) -> bool {
        if self.event_idx_enabled {
            exists|event: Result<u16, Error>|
                {
                    &&& #[trigger] Queue::loads(
                        regions,
                        before.push(MemOp::Fence),
                        after,
                        self.used_event_addr(),
                        event,
                    )
                    &&& match event {
                        Ok(event) => {
                            &&& res == Ok::<bool, Error>(
                                must_notify(self.next_used, event, self.num_added),
                            )
                            &&& after_queue == (Queue { num_added: 0, ..*self })
                        },
                        Err(e) => res == Err::<bool, Error>(e) && after_queue == *self,
                    }
                }
        } else {
            &&& res == Ok::<bool, Error>(true)
            &&& after_queue == *self
            &&& after == before.push(MemOp::Fence)
        }
    }

    /// Whether notifications can be asked for and asked about: the fields for that are in
    /// reach.
    pub open spec fn notifiable_in(&self, regions: Seq<(u64, u64)>) -> bool {
        let request = if self.event_idx_enabled {
            self.avail_event_addr()
        } else {
            self.used_ring.0 as int
        };
        &&& request <= u64::MAX && guest_memory::is_cell(regions, request as u64)
        &&& self.avail_idx_addr() <= u64::MAX && guest_memory::is_cell(
            regions,
            self.avail_idx_addr() as u64,
        )
        &&& self.event_idx_enabled ==> self.used_event_addr() <= u64::MAX && guest_memory::is_cell(
            regions,
            self.used_event_addr() as u64,
        )
    }

    /// Whether the driver is to be notified of the chains added since the last time this
    /// was asked.
    pub fn needs_notification(&mut self, mem: &mut GuestMemory) -> (res: Result<bool, Error>)
        ensures
            final(mem).regions() == old(mem).regions(),
            final(mem).backed() == old(mem).backed(),
            old(self).asks_notification(
                old(mem).regions(),
                old(mem).log(),
                *final(self),
                final(mem).log(),
                res,
            ),
    {
        let used_idx: u16 = self.next_used;
        // The writes of `add_used` are to be complete before the event is read.
        mem.fence();
        if self.event_idx_enabled {
            let event = self.used_event(mem);
            match event {
                Ok(used_event) => {
                    let old_idx: u16 = used_idx.wrapping_sub(self.num_added);
                    self.num_added = 0;
                    return Ok(
                        used_idx.wrapping_sub(used_event).wrapping_sub(1) < used_idx.wrapping_sub(
                            old_idx,
                        ),
                    );
                },
                Err(e) => return Err(e),
            }
        }
        Ok(true)
    }

    /// Goes back one position in the available ring.
    pub fn go_to_previous_position(&mut self)
        ensures
            *final(self) == (Queue { next_avail: wrap16(old(self).next_avail - 1), ..*old(self) }),
    {
        self.next_avail = self.next_avail.wrapping_sub(1);
    }

    /// The index of the available ring, which the driver writes.
    pub fn avail_idx(&self, mem: &mut GuestMemory) -> (res: Result<u16, Error>)
        ensures
            final(mem).regions() == old(mem).regions(),
            final(mem).backed() == old(mem).backed(),
            Queue::loads(
                old(mem).regions(),
                old(mem).log(),
                final(mem).log(),
                self.avail_idx_addr(),
                res,
            ),
    {
        match self.avail_ring.checked_add(2) {
            Some(addr) => match mem.load(addr) {
                Ok(val) => Ok(val),
                Err(e) => Err(Error::GuestMemory(e)),
            },
            None => Err(Error::AddressOverflow),
        }
    }
}

/// Whether one region, which starts at an even address, holds everything from `from` to `to`.
pub open spec fn unbroken(regions: Seq<(u64, u64)>, from: int, to: int) -> bool {
    exists|i: int|
        {
            &&& 0 <= i < regions.len()
            &&& (#[trigger] regions[i]).0 % 2 == 0
            &&& regions[i].0 <= from
            &&& to < regions[i].0 + regions[i].1
        }
}

/// What an unbroken stretch of memory holds is mapped.
proof fn unbroken_is_mapped(regions: Seq<(u64, u64)>, from: int, to: int, at: u64, len: int)
    requires
        unbroken(regions, from, to),
        from <= at,
        0 <= len,
        at + len <= to <= u64::MAX,
    ensures
        guest_memory::span_mapped(regions, at, len),
        guest_memory::is_mapped(regions, at as int),
        guest_memory::is_mapped(regions, at + len),
        len == 2 && at % 2 == 0 ==> guest_memory::is_cell(regions, at),
{
    let i = choose|i: int|
        {
            &&& 0 <= i < regions.len()
            &&& (#[trigger] regions[i]).0 % 2 == 0
            &&& regions[i].0 <= from
            &&& to < regions[i].0 + regions[i].1
        };
    assert forall|x: int| at <= x <= at + len implies #[trigger] guest_memory::is_mapped(
        regions,
        x,
    ) by {
        assert(guest_memory::region_holds(regions[i], x));
    }
    assert(guest_memory::is_mapped(regions, at as int));
    assert(regions[i].0 <= at);
}

/// A valid queue whose table and rings are not broken up over regions can be worked with:
/// every access that the queue makes lies in guest memory, whatever its indices are.
pub proof fn valid_queues_can_be_used(regions: Seq<(u64, u64)>, q: Queue, index: u16)
    requires
        q.valid_in(regions),
        unbroken(regions, q.desc_table.0 as int, q.desc_table.0 + 16 * q.size),
        unbroken(regions, q.avail_ring.0 as int, q.avail_ring.0 + 6 + 2 * q.size),
        unbroken(regions, q.used_ring.0 as int, q.used_ring.0 + 6 + 8 * q.size),
        index < q.size,
    ensures
        q.entries() == q.size,
        q.readable_in(regions),
        q.writable_in(regions),
        q.notifiable_in(regions),
        descriptor_in_reach(regions, q.desc_table, q.entries(), index),
        guest_memory::span_mapped(regions, descriptor_addr(q.desc_table, index) as u64, 16),
{
    let (d, a, u) = (q.desc_table.0 as int, q.avail_ring.0 as int, q.used_ring.0 as int);
    let n = q.size as int;
    unbroken_is_mapped(regions, d, d + 16 * n, descriptor_addr(q.desc_table, index) as u64, 16);
    unbroken_is_mapped(regions, a, a + 6 + 2 * n, (a + 2) as u64, 2);
    unbroken_is_mapped(regions, a, a + 6 + 2 * n, (a + 4) as u64, 2 * n);
    unbroken_is_mapped(regions, a, a + 6 + 2 * n, (a + 4 + 2 * n) as u64, 2);
    unbroken_is_mapped(regions, u, u + 6 + 8 * n, u as u64, 2);
    unbroken_is_mapped(regions, u, u + 6 + 8 * n, (u + 2) as u64, 2);
    unbroken_is_mapped(regions, u, u + 6 + 8 * n, (u + 4) as u64, 8 * n);
    unbroken_is_mapped(regions, u, u + 6 + 8 * n, (u + 4 + 8 * n) as u64, 2);
}

/// A chain that was popped starts at an entry of the table and may be walked.
pub proof fn popped_chain_is_sound(
    regions: Seq<(u64, u64)>,
    q0: Queue,
    before: Seq<MemOp>,
    q1: Queue,
    after: Seq<MemOp>,
    head: DescriptorChain,
)
    requires
        pop_step(regions, q0, before, q1, after, Some(head)),
    ensures
        head.index < q0.entries(),
        head.ttl == q0.entries(),
        head.queue_size == q0.entries(),
        head.desc_table == q0.desc_table,
{
}

/// Handing a chain of the table back succeeds where the used ring can be written.
pub proof fn add_used_succeeds(
    regions: Seq<(u64, u64)>,
    q0: Queue,
    before: Seq<MemOp>,
    q1: Queue,
    after: Seq<MemOp>,
    head_index: u16,
    len: u32,
    res: Result<(), Error>,
)
    requires
        q0.writable_in(regions),
        head_index < q0.size,
        add_used_step(regions, q0, before, q1, after, head_index, len, res),
    ensures
        res is Ok,
        q1 == q0.after_add_used(),
        q1.writable_in(regions),
{
    assert forall|a: int|
        q0.next_used_addr() <= a < q0.next_used_addr()
            + 8 implies #[trigger] guest_memory::is_mapped(regions, a) by {}
}

/// Undoing a pop restores the queue as it was before it.
pub proof fn undo_pop_inverts_pop(before: Queue, popped: Queue, undone: Queue)
    requires
        popped == (Queue { next_avail: wrap16(before.next_avail + 1), ..before }),
        undone == (Queue { next_avail: wrap16(popped.next_avail - 1), ..popped }),
    ensures
        undone == before,
{
}

/// The ring index that lies `back` indices in front of `idx`.
pub open spec fn index_before(idx: u16, back: int) -> u16 {
    wrap16(idx - back)
}

/// A notification is owed exactly if the event index is one of the `added` indices in
/// front of `next_used`.
pub proof fn notification_window(next_used: u16, used_event: u16, added: u16)
    ensures
        must_notify(next_used, used_event, added) <==> exists|back: int|
            1 <= back <= added && used_event == #[trigger] index_before(next_used, back),
{
    let back = wrap16(next_used - used_event - 1) + 1;
    if must_notify(next_used, used_event, added) {
        assert(used_event == index_before(next_used, back));
    }
}

/// Without a chain added since the last time, no notification is owed; with one added, the
/// event index just in front of `next_used` demands one and `next_used` itself does not.
pub proof fn notification_edges(next_used: u16, used_event: u16, added: u16)
    ensures
        added == 0 ==> !must_notify(next_used, used_event, added),
        added >= 1 && used_event == wrap16(next_used - 1) ==> must_notify(
            next_used,
            used_event,
            added,
        ),
        used_event == next_used ==> !must_notify(next_used, used_event, added),
{
}

/// The ring slots that a queue touches lie inside its rings, whatever its indices are, and the
/// fields for events lie behind them, not far from the start of the ring.
pub proof fn slots_stay_in_rings(q: Queue)
    requires
        q.size > 0,
        q.entries() > 0,
    ensures
        q.avail_slot_addr(0) <= q.next_slot_addr(),
        q.next_slot_addr() + 2 <= q.avail_slot_addr(q.entries() as int),
        q.used_slot_addr(0) <= q.next_used_addr(),
        q.next_used_addr() + 8 <= q.avail_event_addr(),
        q.avail_slot_addr(q.entries() as int) <= q.used_event_addr(),
        q.used_event_addr() - q.avail_ring.0 <= 131_074,
        q.avail_event_addr() - q.used_ring.0 <= 524_284,
{
}

/// A descriptor is either read only or write only, and the two flag bits are distinct.
pub proof fn read_and_write_exclude(chain: DescriptorChain)
    ensures
        VIRTQ_DESC_F_NEXT & VIRTQ_DESC_F_WRITE == 0,
        chain.writable() <==> chain.flags / 2 % 2 == 1,
{
    assert(1u16 & 2u16 == 0) by (bit_vector);
    let flags = chain.flags;
    assert(flags & 2 != 0 <==> flags / 2 % 2 == 1) by (bit_vector);
}

/// The address in guest memory that an access is about, if it is about one.
pub open spec fn place_of(op: MemOp) -> Option<u64> {
    match op {
        MemOp::Load { addr, .. } => Some(addr),
        MemOp::Store { addr, .. } => Some(addr),
        MemOp::Read { addr, .. } => Some(addr),
        MemOp::Write { addr, .. } => Some(addr),
        MemOp::Fence => None,
    }
}

/// The smaller one of the size that the driver chose and the most that the device offers is how
/// many entries a queue has.
pub proof fn queues_have_the_smaller_size(q: Queue)
    ensures
        q.entries() <= q.size,
        q.entries() <= q.max_size,
        q.entries() == q.size || q.entries() == q.max_size,
{
}

/// A pop that gives a chain loads the index of the available ring, which has moved past
/// `next_avail`. Behind a fence it reads the two bytes at place `next_avail` modulo the number
/// of entries, and these name the chain. The 16 bytes of the descriptor they name are what the
/// chain begins with. `next_avail` goes on by one, and nothing else of the queue changes.
pub proof fn pops_read_the_entry_that_is_next(
    regions: Seq<(u64, u64)>,
    q0: Queue,
    before: Seq<MemOp>,
    q1: Queue,
    after: Seq<MemOp>,
    head: DescriptorChain,
    n: int,
)
    requires
        pop_step(regions, q0, before, q1, after, Some(head)),
        q0.avail_ring.0 + 4 + 2 * q0.size <= u64::MAX,
        n == if q0.size <= q0.max_size {
            q0.size
        } else {
            q0.max_size
        },
    ensures
        n > 0,
        after.len() == before.len() + 4,
        after.take(before.len() as int) == before,
        after[before.len() as int] matches MemOp::Load { addr, val } && addr == q0.avail_ring.0 + 2
            && val is Some && val->0 != q0.next_avail,
        after[before.len() as int + 1] == MemOp::Fence,
        after[before.len() as int + 2] matches MemOp::Read { addr, len, bytes: Some(entry) } && {
            &&& addr == q0.avail_ring.0 + 4 + 2 * (q0.next_avail as int % n)
            &&& len == 2
            &&& entry.len() == 2
            &&& head.index == entry[0] + 256 * entry[1]
            &&& head.index < n
        },
        after[before.len() as int + 3] matches MemOp::Read { addr, len, bytes: Some(d) } && {
            &&& addr == q0.desc_table.0 + 16 * head.index
            &&& len == 16
            &&& d.len() == 16
            &&& head.addr.0 == d[0] + 256 * d[1] + 65536 * d[2] + 16777216 * d[3] + 4294967296 * (
            d[4] + 256 * d[5] + 65536 * d[6] + 16777216 * d[7])
            &&& head.len == d[8] + 256 * d[9] + 65536 * d[10] + 16777216 * d[11]
            &&& head.flags == d[12] + 256 * d[13]
            &&& head.next == d[14] + 256 * d[15]
        },
        head.desc_table == q0.desc_table,
        head.queue_size == n,
        head.ttl == n,
        q1.next_avail == (q0.next_avail + 1) % 65536,
        q1 == (Queue { next_avail: q1.next_avail, ..q0 }),
{
    let acc = after.skip(before.len() as int);
    assert(after[before.len() as int] == acc[0]);
    assert(after[before.len() as int + 1] == acc[1]);
    assert(after[before.len() as int + 2] == acc[2]);
    assert(after[before.len() as int + 3] == acc[3]);
    let entry = acc[2]->bytes->0;
    byte_order::bytes_count_by_their_place(entry);
    let d = acc[3]->bytes->0;
    descriptors_are_read_byte_by_byte(d);
    assert(after.take(before.len() as int) =~= before);
}

/// The 16 bytes of a descriptor are its address, its length, its flags and its link, in this
/// order and little-endian.
pub proof fn descriptors_are_read_byte_by_byte(d: Seq<u8>)
    requires
        d.len() == 16,
    ensures
        Descriptor::decode(d).addr == d[0] + 256 * d[1] + 65536 * d[2] + 16777216 * d[3]
            + 4294967296 * (d[4] + 256 * d[5] + 65536 * d[6] + 16777216 * d[7]),
        Descriptor::decode(d).len == d[8] + 256 * d[9] + 65536 * d[10] + 16777216 * d[11],
        Descriptor::decode(d).flags == d[12] + 256 * d[13],
        Descriptor::decode(d).next == d[14] + 256 * d[15],
{
    byte_order::bytes_count_by_their_place(d);
    let (t8, t12, t14) = (
        byte_order::tail(d, 8),
        byte_order::tail(d, 12),
        byte_order::tail(d, 14),
    );
    byte_order::bytes_count_by_their_place(t8);
    byte_order::bytes_count_by_their_place(t12);
    byte_order::bytes_count_by_their_place(t14);
    assert(t8[0] == d[8] && t8[1] == d[9] && t8[2] == d[10] && t8[3] == d[11]);
    assert(t12[0] == d[12] && t12[1] == d[13]);
    assert(t14[0] == d[14] && t14[1] == d[15]);
}

/// A pop gives nothing only where nothing is there for it: the driver's index is at
/// `next_avail`, the queue has no entries, or the entry names a descriptor that is not in the
/// table or not in memory, or that links out of the table. The queue then stays as it is.
pub proof fn pops_give_what_is_there(
    regions: Seq<(u64, u64)>,
    q0: Queue,
    before: Seq<MemOp>,
    q1: Queue,
    after: Seq<MemOp>,
    res: Option<DescriptorChain>,
    n: int,
)
    requires
        pop_step(regions, q0, before, q1, after, res),
        q0.avail_ring.0 + 4 + 2 * q0.size <= u64::MAX,
        n == if q0.size <= q0.max_size {
            q0.size
        } else {
            q0.max_size
        },
    ensures
        res is None ==> q1 == q0,
        after[before.len() as int] matches MemOp::Load { addr, val: Some(idx) } && {
            &&& addr == q0.avail_ring.0 + 2
            &&& idx == q0.next_avail || n == 0 ==> res is None && after.len() == before.len() + 1
            &&& idx != q0.next_avail && n > 0 ==> {
                &&& after.len() >= before.len() + 3
                &&& after[before.len() as int + 2] matches MemOp::Read { addr, bytes: Some(b), .. }
                &&& addr == q0.avail_ring.0 + 4 + 2 * (q0.next_avail as int % n)
                &&& b.len() == 2
                &&& {
                    let at = q0.desc_table.0 + 16 * (b[0] + 256 * b[1]);
                    (b[0] + 256 * b[1]) < n && at + 16 < u64::MAX && guest_memory::is_mapped(
                        regions,
                        at,
                    ) && guest_memory::is_mapped(regions, at + 16) ==> {
                        &&& after.len() == before.len() + 4
                        &&& after[before.len() as int + 3] matches MemOp::Read { addr, len, bytes }
                        &&& addr == at && len == 16
                        &&& res is Some <==> bytes is Some && {
                            let d = bytes->0;
                            let flags = (d[12] + 256 * d[13]) as u16;
                            flags & 1 == 0 || n <= 1 || d[14] + 256 * d[15] < n
                        }
                    }
                }
            }
        },
{
    let acc = after.skip(before.len() as int);
    assert(after[before.len() as int] == acc[0]);
    if acc.len() >= 3 {
        assert(after[before.len() as int + 2] == acc[2]);
        let b = acc[2]->bytes->0;
        byte_order::bytes_count_by_their_place(b);
        if acc.len() == 4 {
            assert(after[before.len() as int + 3] == acc[3]);
            if acc[3]->bytes is Some {
                descriptors_are_read_byte_by_byte(acc[3]->bytes->0);
            }
        }
    }
}

/// Where a pop reads its entry: the access behind the fence.
pub open spec fn entry_read(before: Seq<MemOp>, after: Seq<MemOp>) -> Option<u64> {
    place_of(after[before.len() as int + 2])
}

/// One pop that gave a chain: the queue and the log before and behind it.
pub struct Popped {
    pub q0: Queue,
    pub before: Seq<MemOp>,
    pub q1: Queue,
    pub after: Seq<MemOp>,
    pub head: DescriptorChain,
}

/// Whether `p` is a pop from the ring of `q`.
pub open spec fn popped_from(regions: Seq<(u64, u64)>, q: Queue, p: Popped) -> bool {
    &&& pop_step(regions, p.q0, p.before, p.q1, p.after, Some(p.head))
    &&& p.q0.avail_ring == q.avail_ring
    &&& p.q0.size == q.size
    &&& p.q0.max_size == q.max_size
}

/// Two pops from one ring read the same entry exactly if their indices differ by a multiple of
/// the number of entries: pops that are fewer apart read different ones.
pub proof fn pops_take_turns(regions: Seq<(u64, u64)>, q: Queue, a: Popped, b: Popped)
    requires
        popped_from(regions, q, a),
        popped_from(regions, q, b),
        q.avail_ring.0 + 4 + 2 * q.size <= u64::MAX,
    ensures
        ({
            let n = if q.size <= q.max_size {
                q.size as int
            } else {
                q.max_size as int
            };
            let (i, j) = (a.q0.next_avail as int, b.q0.next_avail as int);
            &&& entry_read(a.before, a.after) is Some
            &&& entry_read(b.before, b.after) is Some
            &&& entry_read(a.before, a.after) == entry_read(b.before, b.after) <==> (i - j) % n == 0
            &&& 0 < i - j < n ==> entry_read(a.before, a.after) != entry_read(b.before, b.after)
            &&& i == j + n ==> entry_read(a.before, a.after) == entry_read(b.before, b.after)
        }),
{
    let n = if q.size <= q.max_size {
        q.size as int
    } else {
        q.max_size as int
    };
    pops_read_the_entry_that_is_next(regions, a.q0, a.before, a.q1, a.after, a.head, n);
    pops_read_the_entry_that_is_next(regions, b.q0, b.before, b.q1, b.after, b.head, n);
    let (i, j) = (a.q0.next_avail as int, b.q0.next_avail as int);
    vstd::arithmetic::div_mod::lemma_mod_equivalence(i, j, n);
    if 0 < i - j < n {
        vstd::arithmetic::div_mod::lemma_small_mod((i - j) as nat, n as nat);
    }
    if i == j + n {
        vstd::arithmetic::div_mod::lemma_mod_self_0(n);
    }
}

/// Whether `run` are pops from the ring of `q`, each of which goes on where the one before it
/// stopped.
pub open spec fn pops_on(regions: Seq<(u64, u64)>, q: Queue, run: Seq<Popped>) -> bool {
    &&& forall|i: int| 0 <= i < run.len() ==> popped_from(regions, q, #[trigger] run[i])
    &&& forall|i: int, j: int|
        0 <= i && j == i + 1 && j < run.len() ==> (#[trigger] run[j]).q0.next_avail == (
        #[trigger] run[i]).q1.next_avail
}

/// Where pop `i` of a run reads, with the number of entries a power of two: one entry behind the
/// other, round and round, from wherever the first one starts.
pub proof fn runs_of_pops_go_round(regions: Seq<(u64, u64)>, q: Queue, run: Seq<Popped>, i: int)
    requires
        pops_on(regions, q, run),
        0 <= i < run.len(),
        is_power_of_two(q.size),
        q.size <= q.max_size,
        q.avail_ring.0 + 4 + 2 * q.size <= u64::MAX,
    ensures
        entry_read(run[i].before, run[i].after) == Some(
            (q.avail_ring.0 + 4 + 2 * ((run[0].q0.next_avail + i) % q.size as int)) as u64,
        ),
        run[i].q0.next_avail == (run[0].q0.next_avail + i) % 65536,
    decreases i,
{
    let start = run[0].q0.next_avail as int;
    place_of_a_pop(regions, q, run[i]);
    if i > 0 {
        runs_of_pops_go_round(regions, q, run, i - 1);
        place_of_a_pop(regions, q, run[i - 1]);
        assert(run[i].q0.next_avail == (run[i - 1].q0.next_avail + 1) % 65536);
    }
    assert(run[i].q0.next_avail == (start + i) % 65536);
    power_of_two_divides(q.size, start + i);
}

/// Where one pop reads its entry, and where the next one goes on.
proof fn place_of_a_pop(regions: Seq<(u64, u64)>, q: Queue, p: Popped)
    requires
        popped_from(regions, q, p),
        q.size <= q.max_size,
        q.avail_ring.0 + 4 + 2 * q.size <= u64::MAX,
    ensures
        entry_read(p.before, p.after) == Some(
            (q.avail_ring.0 + 4 + 2 * (p.q0.next_avail as int % q.size as int)) as u64,
        ),
        p.q1.next_avail == (p.q0.next_avail + 1) % 65536,
{
    pops_read_the_entry_that_is_next(
        regions,
        p.q0,
        p.before,
        p.q1,
        p.after,
        p.head,
        q.size as int,
    );
}

/// The number of entries divides 2^16, so indices may wrap around.
proof fn power_of_two_divides(n: u16, x: int)
    requires
        is_power_of_two(n),
    ensures
        n > 0,
        x % 65536 % n as int == x % n as int,
{
    let k = choose|k: nat| n == vstd::arithmetic::power2::pow2(k);
    vstd::arithmetic::power2::lemma2_to64();
    vstd::arithmetic::power2::lemma_pow2_pos(k);
    if k >= 16 {
        if k > 16 {
            vstd::arithmetic::power2::lemma_pow2_strictly_increases(16, k);
        }
    } else {
        let m = (16 - k) as nat;
        vstd::arithmetic::power2::lemma_pow2_adds(k, m);
        vstd::arithmetic::power2::lemma_pow2_pos(m);
        let b = vstd::arithmetic::power2::pow2(m) as int;
        vstd::arithmetic::div_mod::lemma_mod_mod(x, n as int, b);
    }
}

/// As many pops as there are entries read every entry of the ring once, from any start.
pub proof fn a_round_of_pops_reads_every_entry(
    regions: Seq<(u64, u64)>,
    q: Queue,
    run: Seq<Popped>,
    slot: int,
)
    requires
        pops_on(regions, q, run),
        is_power_of_two(q.size),
        q.size <= q.max_size,
        run.len() == q.size,
        q.avail_ring.0 + 4 + 2 * q.size <= u64::MAX,
        0 <= slot < q.size,
    ensures
        exists|i: int|
            0 <= i < run.len() && entry_read((#[trigger] run[i]).before, run[i].after) == Some(
                (q.avail_ring.0 + 4 + 2 * slot) as u64,
            ),
        forall|i: int, j: int|
            0 <= i < j < run.len() ==> entry_read((#[trigger] run[i]).before, run[i].after)
                != entry_read((#[trigger] run[j]).before, run[j].after),
{
    let n = q.size as int;
    let start = run[0].q0.next_avail as int;
    let i = (slot - start) % n;
    runs_of_pops_go_round(regions, q, run, i);
    vstd::arithmetic::div_mod::lemma_add_mod_noop(start, slot - start, n);
    vstd::arithmetic::div_mod::lemma_add_mod_noop(start, i, n);
    vstd::arithmetic::div_mod::lemma_mod_twice(slot - start, n);
    vstd::arithmetic::div_mod::lemma_small_mod(slot as nat, n as nat);
    assert((start + i) % n == slot);
    assert(entry_read(run[i].before, run[i].after) == Some(
        (q.avail_ring.0 + 4 + 2 * slot) as u64,
    ));
    assert forall|i: int, j: int| 0 <= i < j < run.len() implies entry_read(
        (#[trigger] run[i]).before,
        run[i].after,
    ) != entry_read((#[trigger] run[j]).before, run[j].after) by {
        runs_of_pops_go_round(regions, q, run, i);
        runs_of_pops_go_round(regions, q, run, j);
        vstd::arithmetic::div_mod::lemma_mod_equivalence(start + j, start + i, n);
        vstd::arithmetic::div_mod::lemma_small_mod((j - i) as nat, n as nat);
    }
}

/// Handing a chain back writes its index and the length, each in four bytes, to the element at
/// place `next_used` modulo the size of the queue. Only then the new index is stored in the head
/// of the used ring. The index and the number of chains that were added go on by one, and
/// nothing else of the queue changes.
pub proof fn used_elements_are_written_in_order(
    regions: Seq<(u64, u64)>,
    q0: Queue,
    before: Seq<MemOp>,
    q1: Queue,
    after: Seq<MemOp>,
    head_index: u16,
    len: u32,
)
    requires
        add_used_step(regions, q0, before, q1, after, head_index, len, Ok(())),
    ensures
        head_index < q0.size,
        after.len() == before.len() + 2,
        after.take(before.len() as int) == before,
        after[before.len() as int] matches MemOp::Write { addr, data, written } && {
            &&& addr == q0.used_ring.0 + 4 + 8 * (q0.next_used as int % q0.size as int)
            &&& written
            &&& data.len() == 8
            &&& data[0] + 256 * data[1] + 65536 * data[2] + 16777216 * data[3] == head_index
            &&& data[4] + 256 * data[5] + 65536 * data[6] + 16777216 * data[7] == len
        },
        after[before.len() as int + 1] == (MemOp::Store {
            addr: (q0.used_ring.0 + 2) as u64,
            stored: q1.next_used,
            done: true,
        }),
        q1.next_used == (q0.next_used + 1) % 65536,
        q1.num_added == (q0.num_added + 1) % 65536,
        q1 == (Queue { next_used: q1.next_used, num_added: q1.num_added, ..q0 }),
{
    let elem = VirtqUsedElem { id: head_index as u32, len };
    used_element_reads_back(elem);
    byte_order::bytes_count_by_their_place(elem.bytes());
    let t = byte_order::tail(elem.bytes(), 4);
    byte_order::bytes_count_by_their_place(t);
    assert(t[0] == elem.bytes()[4] && t[1] == elem.bytes()[5] && t[2] == elem.bytes()[6] && t[3]
        == elem.bytes()[7]);
    assert(after.take(before.len() as int) =~= before);
}

/// A chain that cannot be handed back leaves the queue as it is, but for the one case in which
/// only the new index could not be stored.
pub proof fn refused_chains_leave_the_queue(
    regions: Seq<(u64, u64)>,
    q0: Queue,
    before: Seq<MemOp>,
    q1: Queue,
    after: Seq<MemOp>,
    head_index: u16,
    len: u32,
    error: Error,
)
    requires
        add_used_step(regions, q0, before, q1, after, head_index, len, Err(error)),
    ensures
        head_index >= q0.size ==> q1 == q0 && after == before && error
            is InvalidDescriptorIndex,
        after.len() <= before.len() + 1 ==> q1 == q0,
        head_index < q0.size && q0.used_ring.0 + 4 + 8 * q0.size <= u64::MAX ==> error
            is GuestMemory,
{
}

/// Two chains that are handed back one behind the other go to different elements, unless the
/// queue has only one, and to neighbouring ones but for the end of the ring.
pub proof fn used_elements_take_turns(
    regions: Seq<(u64, u64)>,
    q0: Queue,
    log0: Seq<MemOp>,
    q1: Queue,
    log1: Seq<MemOp>,
    q2: Queue,
    log2: Seq<MemOp>,
    first: u16,
    second: u16,
    len1: u32,
    len2: u32,
)
    requires
        add_used_step(regions, q0, log0, q1, log1, first, len1, Ok(())),
        add_used_step(regions, q1, log1, q2, log2, second, len2, Ok(())),
        is_power_of_two(q0.size),
    ensures
        q0.size > 1 ==> place_of(log1[log0.len() as int]) != place_of(log2[log1.len() as int]),
        place_of(log2[log1.len() as int]) == Some(
            if (q0.next_used + 1) % q0.size as int == 0 {
                (q0.used_ring.0 + 4) as u64
            } else {
                (place_of(log1[log0.len() as int])->0 + 8) as u64
            },
        ),
{
    used_elements_are_written_in_order(regions, q0, log0, q1, log1, first, len1);
    used_elements_are_written_in_order(regions, q1, log1, q2, log2, second, len2);
    let n = q0.size as int;
    let x = q0.next_used as int;
    power_of_two_divides(q0.size, x + 1);
    if n == 1 {
        assert((x + 1) % 1 == 0);
    } else {
        vstd::arithmetic::div_mod::lemma_add_mod_noop(x, 1, n);
        vstd::arithmetic::div_mod::lemma_small_mod(1, n as nat);
        let r = x % n;
        if r + 1 < n {
            vstd::arithmetic::div_mod::lemma_small_mod((r + 1) as nat, n as nat);
        } else {
            vstd::arithmetic::div_mod::lemma_mod_self_0(n);
        }
    }
}

/// The descriptor behind another one is read at the place that the link names, 16 bytes for each
/// descriptor, and is what stands there. One is looked for exactly if the lowest flag is set and
/// the walk may go on, and the walk may then visit one less.
pub proof fn links_are_followed(
    regions: Seq<(u64, u64)>,
    chain: DescriptorChain,
    before: Seq<MemOp>,
    after: Seq<MemOp>,
    next: Option<DescriptorChain>,
)
    requires
        next_step(regions, chain, before, after, next),
        chain.desc_table.0 + 16 * chain.queue_size <= u64::MAX,
    ensures
        chain.flags % 2 == 0 || chain.ttl <= 1 ==> after == before && next is None,
        next matches Some(n) ==> {
            &&& chain.flags % 2 == 1
            &&& chain.ttl > 1
            &&& n.index == chain.next
            &&& n.index < chain.queue_size
            &&& n.ttl == chain.ttl - 1
            &&& n.desc_table == chain.desc_table
            &&& n.queue_size == chain.queue_size
            &&& after.len() == before.len() + 1
            &&& after.take(before.len() as int) == before
            &&& after.last() matches MemOp::Read { addr, len, bytes: Some(d) }
            &&& addr == chain.desc_table.0 + 16 * chain.next
            &&& len == 16
            &&& d.len() == 16
            &&& n.addr.0 == d[0] + 256 * d[1] + 65536 * d[2] + 16777216 * d[3] + 4294967296 * (d[4]
                + 256 * d[5] + 65536 * d[6] + 16777216 * d[7])
            &&& n.len == d[8] + 256 * d[9] + 65536 * d[10] + 16777216 * d[11]
            &&& n.flags == d[12] + 256 * d[13]
            &&& n.next == d[14] + 256 * d[15]
        },
        ({
            let at = chain.desc_table.0 + 16 * chain.next;
            chain.flags % 2 == 1 && chain.ttl > 1 && chain.next < chain.queue_size
                && guest_memory::is_mapped(regions, at) && guest_memory::is_mapped(regions, at + 16)
                ==> {
                &&& after.len() == before.len() + 1
                &&& after.last() matches MemOp::Read { addr, len, bytes }
                &&& addr == at && len == 16
                &&& next is None <==> bytes is None || {
                    let d = bytes->0;
                    d[12] % 2 == 1 && chain.queue_size > 1 && d[14] + 256 * d[15]
                        >= chain.queue_size
                }
            }
        }),
{
    let flags = chain.flags;
    assert(flags & 1 != 0 <==> flags % 2 == 1) by (bit_vector);
    if fetches_next(regions, chain) {
        if let Some(d) = after.last()->bytes {
            descriptors_are_read_byte_by_byte(d);
            let f = Descriptor::decode(d).flags;
            assert(f & 1 != 0 <==> f % 2 == 1) by (bit_vector);
        }
        assert(after.take(before.len() as int) =~= before);
    }
}

/// A chain that is walked to its end is linked: every descriptor behind the first is the one that
/// the link of the one before it names. The walk ends where there is no link to follow.
pub proof fn chains_follow_their_links(
    regions: Seq<(u64, u64)>,
    first: DescriptorChain,
    acc: Seq<MemOp>,
    i: int,
)
    requires
        chain_reads(regions, first, acc),
        0 <= i < chain_of(regions, first, acc).len(),
    ensures
        chain_of(regions, first, acc)[0] == first,
        acc.len() <= chain_of(regions, first, acc).len() <= acc.len() + 1,
        i + 1 < chain_of(regions, first, acc).len() ==> {
            let chain = chain_of(regions, first, acc);
            &&& chain[i].flags & 1 != 0
            &&& chain[i].ttl > 1
            &&& chain[i + 1].index == chain[i].next
            &&& chain[i + 1].ttl == chain[i].ttl - 1
            &&& acc[i] matches MemOp::Read { addr, len, bytes: Some(d) }
            &&& addr == descriptor_addr(chain[i].desc_table, chain[i].next) as u64
            &&& len == 16
            &&& chain[i + 1].descriptor_parts() == Descriptor::decode(d)
        },
        i + 1 == chain_of(regions, first, acc).len() ==> {
            let last = chain_of(regions, first, acc)[i];
            if acc.len() == i {
                !fetches_next(regions, last)
            } else {
                fetches_next(regions, last) && next_in(last, acc[i]->bytes) is None
            }
        },
    decreases first.ttl,
{
    let chain = chain_of(regions, first, acc);
    if fetches_next(regions, first) {
        match next_in(first, acc[0]->bytes) {
            Some(next) => {
                let rest = chain_of(regions, next, acc.skip(1));
                assert(chain =~= seq![first] + rest);
                if i > 0 {
                    chains_follow_their_links(regions, next, acc.skip(1), i - 1);
                    assert(chain[i] == rest[i - 1]);
                    if i < acc.len() {
                        assert(acc.skip(1)[i - 1] == acc[i]);
                    }
                    if i + 1 < chain.len() {
                        assert(chain[i + 1] == rest[i]);
                    }
                } else {
                    chains_follow_their_links(regions, next, acc.skip(1), 0);
                    assert(chain[1] == rest[0]);
                }
            },
            None => {},
        }
    }
}

impl DescriptorChain {
    /// What stands in the table for this descriptor.
    pub open spec fn descriptor_parts(&self) -> Descriptor {
        Descriptor { addr: self.addr.0, len: self.len, flags: self.flags, next: self.next }
    }
}

/// Notifications are asked for without event indices by a zero in the flags of the used ring and
/// refused by a one there. With event indices they are asked for by the index that is popped
/// next, in the two bytes behind the used elements, and refused by doing nothing.
pub proof fn notifications_are_asked_for(
    regions: Seq<(u64, u64)>,
    q: Queue,
    before: Seq<MemOp>,
    after: Seq<MemOp>,
    enable: bool,
)
    requires
        q.sets_notification(regions, before, after, enable, Ok(())),
    ensures
        !q.event_idx_enabled ==> after == before.push(
            MemOp::Store {
                addr: q.used_ring.0,
                stored: if enable {
                    0
                } else {
                    1
                },
                done: true,
            },
        ),
        q.event_idx_enabled && enable ==> q.used_ring.0 + 4 + 8 * q.size <= u64::MAX && after
            == before.push(
            MemOp::Store {
                addr: (q.used_ring.0 + 4 + 8 * q.size) as u64,
                stored: q.next_avail,
                done: true,
            },
        ),
        q.event_idx_enabled && !enable ==> after == before,
{
}

/// Asking for notifications again says that there is more exactly if the index of the available
/// ring, which is loaded behind the request and a fence, is not the one that is popped next.
pub proof fn chains_are_not_overlooked(
    regions: Seq<(u64, u64)>,
    q: Queue,
    before: Seq<MemOp>,
    after: Seq<MemOp>,
    more: bool,
)
    requires
        q.enables_notification(regions, before, after, Ok(more)),
    ensures
        after.len() == before.len() + 3,
        after[before.len() as int] matches MemOp::Store { addr, stored, done } && {
            &&& done
            &&& if q.event_idx_enabled {
                addr == q.used_ring.0 + 4 + 8 * q.size && stored == q.next_avail
            } else {
                addr == q.used_ring.0 && stored == 0
            }
        },
        after[before.len() as int + 1] == MemOp::Fence,
        after[before.len() as int + 2] matches MemOp::Load { addr, val: Some(idx) } && {
            &&& addr == q.avail_ring.0 + 2
            &&& more <==> idx != q.next_avail
        },
{
}

/// Behind a fence, the driver is to be notified always without event indices. With them it is
/// exactly if the index that it waits for, in the two bytes behind the available entries, is one
/// of those that were given back since it was last asked; the count starts anew then.
pub proof fn drivers_are_notified_of_what_they_wait_for(
    regions: Seq<(u64, u64)>,
    q0: Queue,
    before: Seq<MemOp>,
    q1: Queue,
    after: Seq<MemOp>,
    notify: bool,
)
    requires
        q0.asks_notification(regions, before, q1, after, Ok(notify)),
    ensures
        after[before.len() as int] == MemOp::Fence,
        !q0.event_idx_enabled ==> notify && q1 == q0 && after.len() == before.len() + 1,
        q0.event_idx_enabled ==> {
            &&& q1 == (Queue { num_added: 0, ..q0 })
            &&& after.len() == before.len() + 2
            &&& after.last() matches MemOp::Load { addr, val: Some(event) }
            &&& addr == q0.avail_ring.0 + 4 + 2 * q0.size
            &&& notify <==> exists|back: int|
                1 <= back <= q0.num_added && event == #[trigger] ring_index(q0.next_used - back)
        },
{
    if q0.event_idx_enabled {
        let event = after.last()->val->0;
        notification_window(q0.next_used, event, q0.num_added);
        assert forall|back: int| index_before(q0.next_used, back) == #[trigger] ring_index(
            q0.next_used - back,
        ) by {}
        if notify {
            let back = choose|back: int|
                1 <= back <= q0.num_added && event == #[trigger] index_before(q0.next_used, back);
            assert(event == ring_index(q0.next_used - back));
        }
    }
}

/// `n` as an index of a ring, which has 16 bits.
pub open spec fn ring_index(n: int) -> int {
    n % 65536
}

/// A queue is valid exactly if the driver is done with it, its size is a power of two that the
/// device offers, its table and its rings are aligned, and the byte behind each of them is
/// mapped.
pub proof fn valid_queues_are_complete(regions: Seq<(u64, u64)>, q: Queue)
    ensures
        q.valid_in(regions) <==> {
            &&& q.ready
            &&& 1 <= q.size <= q.max_size
            &&& exists|k: nat| q.size == #[trigger] vstd::arithmetic::power2::pow2(k)
            &&& q.desc_table.0 % 16 == 0
            &&& q.avail_ring.0 % 2 == 0
            &&& q.used_ring.0 % 4 == 0
            &&& q.desc_table.0 + 16 * q.size <= u64::MAX
            &&& guest_memory::is_mapped(regions, q.desc_table.0 + 16 * q.size)
            &&& q.avail_ring.0 + 6 + 2 * q.size <= u64::MAX
            &&& guest_memory::is_mapped(regions, q.avail_ring.0 + 6 + 2 * q.size)
            &&& q.used_ring.0 + 6 + 8 * q.size <= u64::MAX
            &&& guest_memory::is_mapped(regions, q.used_ring.0 + 6 + 8 * q.size)
        },
{
    assert forall|k: nat| q.size == #[trigger] vstd::arithmetic::power2::pow2(k) implies q.size > 0
        && k < 16 by {
        vstd::arithmetic::power2::lemma_pow2_pos(k);
        vstd::arithmetic::power2::lemma2_to64();
        if k > 16 {
            vstd::arithmetic::power2::lemma_pow2_strictly_increases(16, k);
        }
    }
}

/// The fields of the rings stand at fixed places: the index behind two bytes, the entries behind
/// four, and the event behind the entries. What a queue is asked for before it is used is whether
/// these can be reached.
pub proof fn rings_are_asked_for_their_fields(q: Queue, regions: Seq<(u64, u64)>)
    ensures
        q.countable_in(regions) <==> q.avail_ring.0 + 2 <= u64::MAX && guest_memory::is_cell(
            regions,
            (q.avail_ring.0 + 2) as u64,
        ),
        q.readable_in(regions) <==> {
            &&& q.avail_ring.0 + 4 <= u64::MAX
            &&& guest_memory::is_cell(regions, (q.avail_ring.0 + 2) as u64)
            &&& guest_memory::span_mapped(
                regions,
                (q.avail_ring.0 + 4) as u64,
                if q.size <= q.max_size {
                    2 * q.size
                } else {
                    2 * q.max_size
                },
            )
        },
        q.writable_in(regions) <==> {
            &&& q.used_ring.0 + 4 <= u64::MAX
            &&& guest_memory::is_cell(regions, (q.used_ring.0 + 2) as u64)
            &&& guest_memory::span_mapped(regions, (q.used_ring.0 + 4) as u64, 8 * q.size)
        },
        q.notifiable_in(regions) && q.event_idx_enabled ==> {
            &&& q.used_ring.0 + 4 + 8 * q.size <= u64::MAX
            &&& q.avail_ring.0 + 4 + 2 * q.size <= u64::MAX
            &&& guest_memory::is_cell(regions, (q.used_ring.0 + 4 + 8 * q.size) as u64)
            &&& guest_memory::is_cell(regions, (q.avail_ring.0 + 4 + 2 * q.size) as u64)
        },
        q.notifiable_in(regions) ==> q.countable_in(regions),
        !q.event_idx_enabled ==> (q.notifiable_in(regions) <==> guest_memory::is_cell(
            regions,
            q.used_ring.0,
        ) && q.countable_in(regions)),
{
}

/// A field is read once, at its place, and what was read is what is given. It is given exactly if
/// it can be reached.
pub proof fn fields_are_given_as_read(
    regions: Seq<(u64, u64)>,
    before: Seq<MemOp>,
    after: Seq<MemOp>,
    addr: int,
    res: Result<u16, Error>,
)
    requires
        Queue::loads(regions, before, after, addr, res),
    ensures
        addr > u64::MAX ==> res is Err && after == before,
        addr <= u64::MAX ==> {
            &&& after.len() == before.len() + 1
            &&& after.drop_last() == before
            &&& after.last() matches MemOp::Load { addr: at, val }
            &&& at == addr as u64
            &&& res is Ok <==> guest_memory::is_cell(regions, addr as u64)
            &&& res matches Ok(given) ==> val == Some(given)
        },
{
    if addr <= u64::MAX {
        assert(after.drop_last() =~= before);
    }
}

/// A walk leaves what was done before it, begins with the first descriptor, and takes one read
/// for every further one, at the place that the link before it names.
pub proof fn walks_read_what_they_give(
    regions: Seq<(u64, u64)>,
    first: DescriptorChain,
    before: Seq<MemOp>,
    after: Seq<MemOp>,
    chain: Seq<DescriptorChain>,
    i: int,
)
    requires
        walk_step(regions, first, before, after, chain),
        0 <= i < chain.len(),
    ensures
        before.is_prefix_of(after),
        chain[0] == first,
        before.len() + chain.len() - 1 <= after.len() <= before.len() + chain.len(),
        i + 1 < chain.len() ==> {
            &&& chain[i].flags & 1 != 0
            &&& chain[i + 1].index == chain[i].next
            &&& after[before.len() + i] matches MemOp::Read { addr, len, bytes: Some(d) }
            &&& addr == (chain[i].desc_table.0 + 16 * chain[i].next) as u64
            &&& len == 16
            &&& chain[i + 1].descriptor_parts() == Descriptor::decode(d)
        },
{
    let acc = after.skip(before.len() as int);
    chains_follow_their_links(regions, first, acc, i);
    if i + 1 < chain.len() {
        assert(acc[i] == after[before.len() + i]);
    }
}

} // verus!
