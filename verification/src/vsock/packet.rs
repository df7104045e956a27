//! Packets of the socket device.
//!
//! A packet has a header of 44 bytes in the first buffer of a descriptor chain:
//!
//! | bytes | field       | bytes | field       |
//! |-------|-------------|-------|-------------|
//! | 0-7   | `src_cid`   | 28-29 | `type`      |
//! | 8-15  | `dst_cid`   | 30-31 | `op`        |
//! | 16-19 | `src_port`  | 32-35 | `flags`     |
//! | 20-23 | `dst_port`  | 36-39 | `buf_alloc` |
//! | 24-27 | `len`       | 40-43 | `fwd_cnt`   |
//!
//! All fields have their lowest byte first. The data is in a buffer of its own or, for
//! received packets, behind the header.
use vstd::prelude::*;

use super::defs;
use crate::byte_order;
use crate::byte_order::{
    le16_array, le32_array, le64_array, put, read_be_u16, read_le_u16, read_le_u32, read_le_u64,
    to_signed, to_unsigned,
};
use crate::guest_memory;
use crate::guest_memory::{GuestAddress, GuestMemory, MemOp};
use crate::queue;
use crate::queue::DescriptorChain;

verus! {

/// The size of the header.
pub const VSOCK_PKT_HDR_SIZE: usize = 44;

const HDROFF_SRC_CID: usize = 0;

const HDROFF_DST_CID: usize = 8;

const HDROFF_SRC_PORT: usize = 16;

const HDROFF_DST_PORT: usize = 20;

const HDROFF_LEN: usize = 24;

const HDROFF_TYPE: usize = 28;

const HDROFF_OP: usize = 30;

const HDROFF_FLAGS: usize = 32;

const HDROFF_BUF_ALLOC: usize = 36;

const HDROFF_FWD_CNT: usize = 40;

/// Why a chain does not hold a packet.
#[derive(Clone, Copy, Debug, PartialEq, Eq, Structural)]
pub enum VsockError {
    /// The device has to read a buffer that it may only write.
    UnreadableDescriptor,
    /// The device has to write a buffer that it may only read.
    UnwritableDescriptor,
    /// The first buffer is too small for a header.
    HdrDescTooSmall(u32),
    /// A buffer is not in guest memory.
    GuestMemoryMmap,
    /// A buffer leaves the address space.
    GuestMemoryBounds,
    /// The packet claims too much data.
    InvalidPktLen(u32),
    /// There is no buffer for the data.
    BufDescMissing,
    /// The buffer is too small for the data.
    BufDescTooSmall,
}

/// A packet: its bytes, and where they are in guest memory.
pub struct VsockPacket {
    pub hdr: [u8; 44],
    pub hdr_addr: GuestAddress,
    pub data: Option<Vec<u8>>,
    pub data_addr: GuestAddress,
}

/// The 16-bit number at `at`.
pub open spec fn get16(bytes: Seq<u8>, at: int) -> u16 {
    byte_order::le_u16(bytes.skip(at))
}

/// The 32-bit number at `at`.
pub open spec fn get32(bytes: Seq<u8>, at: int) -> u32 {
    byte_order::le_u32(bytes.skip(at))
}

/// The 64-bit number at `at`.
pub open spec fn get64(bytes: Seq<u8>, at: int) -> u64 {
    byte_order::le_u64(bytes.skip(at))
}

/// What is written at a place of the header is read there.
pub proof fn fields_round_trip(bytes: Seq<u8>, at: int, n16: u16, n32: u32, n64: u64)
    requires
        0 <= at,
    ensures
        at + 2 <= bytes.len() ==> get16(
            byte_order::overlay(bytes, at, byte_order::le16_bytes(n16)),
            at,
        ) == n16,
        at + 4 <= bytes.len() ==> get32(
            byte_order::overlay(bytes, at, byte_order::le32_bytes(n32)),
            at,
        ) == n32,
        at + 8 <= bytes.len() ==> get64(
            byte_order::overlay(bytes, at, byte_order::le64_bytes(n64)),
            at,
        ) == n64,
{
    if at + 2 <= bytes.len() {
        let rest = bytes.skip(at);
        byte_order::write_then_read_u16(rest, n16);
        assert(byte_order::overlay(bytes, at, byte_order::le16_bytes(n16)).skip(at)
            =~= byte_order::overlay(rest, 0, byte_order::le16_bytes(n16)));
        if at + 4 <= bytes.len() {
            byte_order::write_then_read_u32(rest, n32);
            assert(byte_order::overlay(bytes, at, byte_order::le32_bytes(n32)).skip(at)
                =~= byte_order::overlay(rest, 0, byte_order::le32_bytes(n32)));
        }
        if at + 8 <= bytes.len() {
            byte_order::write_then_read_u64(rest, n64);
            assert(byte_order::overlay(bytes, at, byte_order::le64_bytes(n64)).skip(at)
                =~= byte_order::overlay(rest, 0, byte_order::le64_bytes(n64)));
        }
    }
}

/// What is written at one place of the header changes no field at another: the bytes of a
/// field stay as they are unless the two overlap.
pub proof fn fields_are_isolated(bytes: Seq<u8>, at: int, data: Seq<u8>, other: int)
    requires
        0 <= at,
        0 <= other <= bytes.len(),
    ensures
        other + 2 <= at || at + data.len() <= other ==> get16(
            byte_order::overlay(bytes, at, data),
            other,
        ) == get16(bytes, other),
        other + 4 <= at || at + data.len() <= other ==> get32(
            byte_order::overlay(bytes, at, data),
            other,
        ) == get32(bytes, other),
        other + 8 <= at || at + data.len() <= other ==> get64(
            byte_order::overlay(bytes, at, data),
            other,
        ) == get64(bytes, other),
{
    let after = byte_order::overlay(bytes, at, data).skip(other);
    let before = bytes.skip(other);
    assert(forall|i: int|
        0 <= i && (other + i < at || at + data.len() <= other + i) ==> byte_order::byte_at(
            after,
            i,
        ) == byte_order::byte_at(before, i));
    assert(after.len() == before.len());
    if at + data.len() <= other {
        assert(after =~= before);
    }
}

/// Reads the 16-bit number at `at`.
fn read16(bytes: &[u8], at: usize) -> (res: u16)
    requires
        at <= bytes@.len(),
    ensures
        res == get16(bytes@, at as int),
{
    let rest = vstd::slice::slice_subrange(bytes, at, bytes.len());
    assert(rest@ =~= bytes@.skip(at as int));
    read_le_u16(rest)
}

/// Reads the 32-bit number at `at`.
fn read32(bytes: &[u8], at: usize) -> (res: u32)
    requires
        at <= bytes@.len(),
    ensures
        res == get32(bytes@, at as int),
{
    let rest = vstd::slice::slice_subrange(bytes, at, bytes.len());
    assert(rest@ =~= bytes@.skip(at as int));
    read_le_u32(rest)
}

/// Reads the 64-bit number at `at`.
fn read64(bytes: &[u8], at: usize) -> (res: u64)
    requires
        at <= bytes@.len(),
    ensures
        res == get64(bytes@, at as int),
{
    let rest = vstd::slice::slice_subrange(bytes, at, bytes.len());
    assert(rest@ =~= bytes@.skip(at as int));
    read_le_u64(rest)
}

/// The 44 bytes of a header as an array.
fn to_header(bytes: &Vec<u8>) -> (res: [u8; 44])
    requires
        bytes@.len() == VSOCK_PKT_HDR_SIZE,
    ensures
        res@ == bytes@,
{
    let mut hdr: [u8; 44] = [0; 44];
    put(&mut hdr, 0, bytes.as_slice());
    assert(hdr@ =~= bytes@);
    hdr
}

/// Whether `log1` is `log0` with a read of `len` bytes at `addr` that gave `bytes`: one
/// region has to hold them all.
pub open spec fn slice_step(
    regions: Seq<(u64, u64)>,
    addr: u64,
    len: nat,
    log0: Seq<MemOp>,
    log1: Seq<MemOp>,
    bytes: Option<Seq<u8>>,
) -> bool {
    &&& log1 == log0.push(MemOp::Read { addr, len, bytes })
    &&& bytes is Some <==> guest_memory::in_one_region(regions, addr as int, len as int)
    &&& bytes matches Some(b) ==> b.len() == len
}

/// The bytes of a packet's data.
pub open spec fn data_of(packet: VsockPacket) -> Option<Seq<u8>> {
    match packet.data {
        Some(data) => Some(data@),
        None => None,
    }
}

/// Whether `res` is the packet with the header `hdr` at `head`, and `data` at `addr`.
pub open spec fn is_packet(
    res: Result<VsockPacket, VsockError>,
    head: DescriptorChain,
    hdr: Seq<u8>,
    data: Option<Seq<u8>>,
    addr: GuestAddress,
) -> bool {
    &&& res matches Ok(packet)
    &&& packet.hdr@ == hdr
    &&& packet.hdr_addr == head.addr
    &&& data_of(packet) == data
    &&& data is Some ==> packet.data_addr == addr
}

/// Whether `res` is what the data buffer `len` bytes long at `addr` makes of a packet with
/// the header `hdr`.
pub open spec fn data_step(
    regions: Seq<(u64, u64)>,
    head: DescriptorChain,
    hdr: Seq<u8>,
    addr: GuestAddress,
    len: nat,
    log0: Seq<MemOp>,
    log1: Seq<MemOp>,
    res: Result<VsockPacket, VsockError>,
) -> bool {
    let bytes = log1.last()->bytes;
    &&& slice_step(regions, addr.0, len, log0, log1, bytes)
    &&& match bytes {
        Some(data) => is_packet(res, head, hdr, Some(data), addr),
        None => res == Err::<VsockPacket, VsockError>(VsockError::GuestMemoryMmap),
    }
}

/// Whether `res` is what the sent packet at `head` comes out as behind its header `hdr`.
pub open spec fn tx_body_step(
    regions: Seq<(u64, u64)>,
    head: DescriptorChain,
    hdr: Seq<u8>,
    log0: Seq<MemOp>,
    log1: Seq<MemOp>,
    res: Result<VsockPacket, VsockError>,
) -> bool {
    let len = get32(hdr, 24);
    if len == 0 {
        log1 == log0 && is_packet(res, head, hdr, None, GuestAddress(0))
    } else if len > defs::MAX_PKT_BUF_SIZE {
        log1 == log0 && res == Err::<VsockPacket, VsockError>(VsockError::InvalidPktLen(len))
    } else {
        exists|mid: Seq<MemOp>, next: Option<DescriptorChain>|
            {
                &&& #[trigger] queue::next_step(regions, head, log0, mid, next)
                &&& match next {
                    None => log1 == mid && res == Err::<VsockPacket, VsockError>(
                        VsockError::BufDescMissing,
                    ),
                    Some(desc) => if desc.writable() {
                        log1 == mid && res == Err::<VsockPacket, VsockError>(
                            VsockError::UnreadableDescriptor,
                        )
                    } else if desc.len < len {
                        log1 == mid && res == Err::<VsockPacket, VsockError>(
                            VsockError::BufDescTooSmall,
                        )
                    } else {
                        data_step(regions, head, hdr, desc.addr, desc.len as nat, mid, log1, res)
                    },
                }
            }
    }
}

/// Whether `res` is what the received packet at `head` comes out as behind its header
/// `hdr`: the data goes behind the header if the buffer is long enough and stands alone,
/// else to the next buffer, which has to be writable too.
pub open spec fn rx_body_step(
    regions: Seq<(u64, u64)>,
    head: DescriptorChain,
    hdr: Seq<u8>,
    log0: Seq<MemOp>,
    log1: Seq<MemOp>,
    res: Result<VsockPacket, VsockError>,
) -> bool {
    if !head.links_on() && head.len > VSOCK_PKT_HDR_SIZE {
        if head.addr.0 + VSOCK_PKT_HDR_SIZE <= u64::MAX {
            data_step(
                regions,
                head,
                hdr,
                GuestAddress((head.addr.0 + VSOCK_PKT_HDR_SIZE) as u64),
                (head.len - VSOCK_PKT_HDR_SIZE) as nat,
                log0,
                log1,
                res,
            )
        } else {
            log1 == log0 && res == Err::<VsockPacket, VsockError>(VsockError::GuestMemoryBounds)
        }
    } else {
        exists|mid: Seq<MemOp>, next: Option<DescriptorChain>|
            {
                &&& #[trigger] queue::next_step(regions, head, log0, mid, next)
                &&& match next {
                    None => log1 == mid && res == Err::<VsockPacket, VsockError>(
                        VsockError::BufDescMissing,
                    ),
                    Some(desc) => if desc.writable() {
                        data_step(regions, head, hdr, desc.addr, desc.len as nat, mid, log1, res)
                    } else {
                        log1 == mid && res == Err::<VsockPacket, VsockError>(
                            VsockError::UnwritableDescriptor,
                        )
                    },
                }
            }
    }
}

/// Whether `res` is what the chain at `head` comes out as: a packet that is sent if `sent`,
/// else one that is to be received.
#[verifier::opaque]
pub open spec fn packet_step(
    regions: Seq<(u64, u64)>,
    head: DescriptorChain,
    sent: bool,
    log0: Seq<MemOp>,
    log1: Seq<MemOp>,
    res: Result<VsockPacket, VsockError>,
) -> bool {
    if sent && head.writable() {
        log1 == log0 && res == Err::<VsockPacket, VsockError>(VsockError::UnreadableDescriptor)
    } else if !sent && !head.writable() {
        log1 == log0 && res == Err::<VsockPacket, VsockError>(VsockError::UnwritableDescriptor)
    } else if head.len < VSOCK_PKT_HDR_SIZE {
        log1 == log0 && res == Err::<VsockPacket, VsockError>(VsockError::HdrDescTooSmall(head.len))
    } else {
        exists|mid: Seq<MemOp>, hdr: Option<Seq<u8>>|
            {
                &&& #[trigger] slice_step(regions, head.addr.0, 44, log0, mid, hdr)
                &&& match hdr {
                    None => log1 == mid && res == Err::<VsockPacket, VsockError>(
                        VsockError::GuestMemoryMmap,
                    ),
                    Some(bytes) => if sent {
                        tx_body_step(regions, head, bytes, mid, log1, res)
                    } else {
                        rx_body_step(regions, head, bytes, mid, log1, res)
                    },
                }
            }
    }
}

impl VsockPacket {
    /// The size of the data buffer; zero if there is none.
    pub open spec fn size(&self) -> nat {
        match self.data {
            Some(data) => data@.len(),
            None => 0,
        }
    }

    /// The packet whose data is in the buffer at `addr`.
    fn with_data(
        hdr: [u8; 44],
        head: &DescriptorChain,
        addr: GuestAddress,
        len: usize,
        mem: &mut GuestMemory,
    ) -> (res: Result<VsockPacket, VsockError>)
        ensures
            final(mem).regions() == old(mem).regions(),
            final(mem).backed() == old(mem).backed(),
            data_step(
                old(mem).regions(),
                *head,
                hdr@,
                addr,
                len as nat,
                old(mem).log(),
                final(mem).log(),
                res,
            ),
    {
        match mem.read_contiguous(addr, len) {
            Ok(data) => Ok(
                VsockPacket { hdr, hdr_addr: head.addr, data: Some(data), data_addr: addr },
            ),
            Err(_) => Err(VsockError::GuestMemoryMmap),
        }
    }

    /// The descriptor behind `head`.
    fn next_of(head: &DescriptorChain, mem: &mut GuestMemory) -> (res: Option<DescriptorChain>)
        ensures
            final(mem).regions() == old(mem).regions(),
            final(mem).backed() == old(mem).backed(),
            queue::next_step(old(mem).regions(), *head, old(mem).log(), final(mem).log(), res),
    {
        head.next_descriptor(mem)
    }

    /// The packet in a chain of the queue for sent packets. All of its buffers are only
    /// read; there is a data buffer exactly if the header announces data.
    pub fn from_tx_virtq_head(head: &DescriptorChain, mem: &mut GuestMemory) -> (res: Result<
        VsockPacket,
        VsockError,
    >)
        ensures
            final(mem).regions() == old(mem).regions(),
            final(mem).backed() == old(mem).backed(),
            packet_step(old(mem).regions(), *head, true, old(mem).log(), final(mem).log(), res),
    {
        reveal(packet_step);
        let ghost regions = mem.regions();
        let ghost log0 = mem.log();
        if head.is_write_only() {
            return Err(VsockError::UnreadableDescriptor);
        }
        if head.len < 44 {
            return Err(VsockError::HdrDescTooSmall(head.len));
        }
        let hdr = match mem.read_contiguous(head.addr, VSOCK_PKT_HDR_SIZE) {
            Ok(hdr) => to_header(&hdr),
            Err(_) => {
                assert(slice_step(regions, head.addr.0, 44, log0, mem.log(), None));
                return Err(VsockError::GuestMemoryMmap);
            },
        };
        let ghost log1 = mem.log();
        let ghost bytes = hdr@;
        assert(slice_step(regions, head.addr.0, 44, log0, log1, Some(bytes)));
        let len: u32 = read32(hdr.as_slice(), HDROFF_LEN);
        if len == 0 {
            let packet = VsockPacket {
                hdr,
                hdr_addr: head.addr,
                data: None,
                data_addr: GuestAddress(0),
            };
            return Ok(packet);
        }
        if len > defs::MAX_PKT_BUF_SIZE {
            return Err(VsockError::InvalidPktLen(len));
        }
        let next = VsockPacket::next_of(head, mem);
        let ghost log2 = mem.log();
        assert(queue::next_step(regions, *head, log1, log2, next));
        let buf_desc = match next {
            Some(desc) => desc,
            None => {
                assert(tx_body_step(
                    regions,
                    *head,
                    bytes,
                    log1,
                    log2,
                    Err(VsockError::BufDescMissing),
                ));
                return Err(VsockError::BufDescMissing);
            },
        };
        if buf_desc.is_write_only() {
            assert(tx_body_step(
                regions,
                *head,
                bytes,
                log1,
                log2,
                Err(VsockError::UnreadableDescriptor),
            ));
            return Err(VsockError::UnreadableDescriptor);
        }
        if buf_desc.len < len {
            assert(tx_body_step(
                regions,
                *head,
                bytes,
                log1,
                log2,
                Err(VsockError::BufDescTooSmall),
            ));
            return Err(VsockError::BufDescTooSmall);
        }
        let res = VsockPacket::with_data(hdr, head, buf_desc.addr, buf_desc.len as usize, mem);
        assert(tx_body_step(regions, *head, bytes, log1, mem.log(), res));
        res
    }

    /// The packet that is to be received in a chain of the queue for received packets. All
    /// of its buffers are written; there are two, or one for header and data.
    pub fn from_rx_virtq_head(head: &DescriptorChain, mem: &mut GuestMemory) -> (res: Result<
        VsockPacket,
        VsockError,
    >)
        ensures
            final(mem).regions() == old(mem).regions(),
            final(mem).backed() == old(mem).backed(),
            packet_step(old(mem).regions(), *head, false, old(mem).log(), final(mem).log(), res),
            res matches Ok(packet) ==> packet.data is Some,
    {
        reveal(packet_step);
        let ghost regions = mem.regions();
        let ghost log0 = mem.log();
        if !head.is_write_only() {
            return Err(VsockError::UnwritableDescriptor);
        }
        if head.len < 44 {
            return Err(VsockError::HdrDescTooSmall(head.len));
        }
        let hdr = match mem.read_contiguous(head.addr, VSOCK_PKT_HDR_SIZE) {
            Ok(hdr) => to_header(&hdr),
            Err(_) => {
                assert(slice_step(regions, head.addr.0, 44, log0, mem.log(), None));
                return Err(VsockError::GuestMemoryMmap);
            },
        };
        let ghost log1 = mem.log();
        let ghost bytes = hdr@;
        assert(slice_step(regions, head.addr.0, 44, log0, log1, Some(bytes)));
        if !head.has_next() && head.len > 44 {
            let buf_addr = match head.addr.checked_add(44) {
                Some(addr) => addr,
                None => return Err(VsockError::GuestMemoryBounds),
            };
            let res = VsockPacket::with_data(hdr, head, buf_addr, head.len as usize - 44, mem);
            assert(rx_body_step(regions, *head, bytes, log1, mem.log(), res));
            res
        } else {
            let next = VsockPacket::next_of(head, mem);
            let ghost log2 = mem.log();
            assert(queue::next_step(regions, *head, log1, log2, next));
            match next {
                Some(desc) => {
                    if !desc.is_write_only() {
                        assert(rx_body_step(
                            regions,
                            *head,
                            bytes,
                            log1,
                            log2,
                            Err(VsockError::UnwritableDescriptor),
                        ));
                        return Err(VsockError::UnwritableDescriptor);
                    }
                    let res = VsockPacket::with_data(hdr, head, desc.addr, desc.len as usize, mem);
                    assert(rx_body_step(regions, *head, bytes, log1, mem.log(), res));
                    res
                },
                None => {
                    assert(rx_body_step(
                        regions,
                        *head,
                        bytes,
                        log1,
                        log2,
                        Err(VsockError::BufDescMissing),
                    ));
                    Err(VsockError::BufDescMissing)
                },
            }
        }
    }
}

impl VsockPacket {
    /// The packet with `bytes` laid over its header from `at` on.
    pub open spec fn with_field(self, after: VsockPacket, at: int, bytes: Seq<u8>) -> bool {
        &&& after.hdr@ == byte_order::overlay(self.hdr@, at, bytes)
        &&& after == (VsockPacket { hdr: after.hdr, ..self })
    }

    /// The header.
    pub fn hdr(&self) -> (res: &[u8])
        ensures
            res@ == self.hdr@,
    {
        self.hdr.as_slice()
    }

    /// The header, to be changed.
    pub fn hdr_mut(&mut self) -> (res: &mut [u8; 44])
        ensures
            *res == old(self).hdr,
            *final(self) == (VsockPacket { hdr: *final(res), ..*old(self) }),
    {
        &mut self.hdr
    }

    /// The data buffer, if there is one. It may be longer than the data.
    pub fn buf(&self) -> (res: Option<&[u8]>)
        ensures
            match res {
                Some(bytes) => data_of(*self) == Some(bytes@),
                None => self.data is None,
            },
    {
        match &self.data {
            Some(data) => Some(data.as_slice()),
            None => None,
        }
    }

    /// The data buffer, to be changed. Its size stays.
    pub fn buf_mut(&mut self) -> (res: Option<&mut [u8]>)
        ensures
            match res {
                Some(bytes) => {
                    &&& data_of(*old(self)) == Some(bytes@)
                    &&& data_of(*final(self)) == Some(final(bytes)@)
                    &&& *final(self) == (VsockPacket { data: final(self).data, ..*old(self) })
                },
                None => old(self).data is None && *final(self) == *old(self),
            },
    {
        match &mut self.data {
            Some(data) => Some(data.as_mut_slice()),
            None => None,
        }
    }

    /// The size of the data buffer.
    pub fn buf_size(&self) -> (res: usize)
        ensures
            res == self.size(),
    {
        match &self.data {
            Some(data) => data.len(),
            None => 0,
        }
    }

    /// Whether `after` is the packet with `bytes` laid over its data buffer from `at` on.
    pub open spec fn with_data_bytes(self, after: VsockPacket, at: int, bytes: Seq<u8>) -> bool {
        match self.data {
            Some(data) => {
                &&& after.data matches Some(new)
                &&& new@ == byte_order::overlay(data@, at, bytes)
                &&& after == (VsockPacket { data: after.data, ..self })
            },
            None => after == self,
        }
    }

    /// Writes `bytes` to the data buffer from `at` on, as far as they fit.
    pub fn write_buf(&mut self, at: usize, bytes: &[u8])
        ensures
            old(self).with_data_bytes(*final(self), at as int, bytes@),
    {
        match self.data.take() {
            Some(mut data) => {
                put(data.as_mut_slice(), at, bytes);
                self.data = Some(data);
            },
            None => {},
        }
    }

    pub fn src_cid(&self) -> (res: u64)
        ensures
            res == get64(self.hdr@, 0),
    {
        read64(self.hdr.as_slice(), HDROFF_SRC_CID)
    }

    pub fn set_src_cid(&mut self, cid: u64) -> (res: &mut VsockPacket)
        ensures
            old(self).with_field(*res, 0, byte_order::le64_bytes(cid)),
            *final(self) == *final(res),
    {
        put(&mut self.hdr, HDROFF_SRC_CID, le64_array(cid).as_slice());
        self
    }

    pub fn dst_cid(&self) -> (res: u64)
        ensures
            res == get64(self.hdr@, 8),
    {
        read64(self.hdr.as_slice(), HDROFF_DST_CID)
    }

    pub fn set_dst_cid(&mut self, cid: u64) -> (res: &mut VsockPacket)
        ensures
            old(self).with_field(*res, 8, byte_order::le64_bytes(cid)),
            *final(self) == *final(res),
    {
        put(&mut self.hdr, HDROFF_DST_CID, le64_array(cid).as_slice());
        self
    }

    pub fn src_port(&self) -> (res: u32)
        ensures
            res == get32(self.hdr@, 16),
    {
        read32(self.hdr.as_slice(), HDROFF_SRC_PORT)
    }

    pub fn set_src_port(&mut self, port: u32) -> (res: &mut VsockPacket)
        ensures
            old(self).with_field(*res, 16, byte_order::le32_bytes(port)),
            *final(self) == *final(res),
    {
        put(&mut self.hdr, HDROFF_SRC_PORT, le32_array(port).as_slice());
        self
    }

    pub fn dst_port(&self) -> (res: u32)
        ensures
            res == get32(self.hdr@, 20),
    {
        read32(self.hdr.as_slice(), HDROFF_DST_PORT)
    }

    pub fn set_dst_port(&mut self, port: u32) -> (res: &mut VsockPacket)
        ensures
            old(self).with_field(*res, 20, byte_order::le32_bytes(port)),
            *final(self) == *final(res),
    {
        put(&mut self.hdr, HDROFF_DST_PORT, le32_array(port).as_slice());
        self
    }

    pub fn len(&self) -> (res: u32)
        ensures
            res == get32(self.hdr@, 24),
    {
        read32(self.hdr.as_slice(), HDROFF_LEN)
    }

    pub fn set_len(&mut self, len: u32) -> (res: &mut VsockPacket)
        ensures
            old(self).with_field(*res, 24, byte_order::le32_bytes(len)),
            *final(self) == *final(res),
    {
        put(&mut self.hdr, HDROFF_LEN, le32_array(len).as_slice());
        self
    }

    pub fn type_(&self) -> (res: u16)
        ensures
            res == get16(self.hdr@, 28),
    {
        read16(self.hdr.as_slice(), HDROFF_TYPE)
    }

    pub fn set_type(&mut self, type_: u16) -> (res: &mut VsockPacket)
        ensures
            old(self).with_field(*res, 28, byte_order::le16_bytes(type_)),
            *final(self) == *final(res),
    {
        put(&mut self.hdr, HDROFF_TYPE, le16_array(type_).as_slice());
        self
    }

    pub fn op(&self) -> (res: u16)
        ensures
            res == get16(self.hdr@, 30),
    {
        read16(self.hdr.as_slice(), HDROFF_OP)
    }

    pub fn set_op(&mut self, op: u16) -> (res: &mut VsockPacket)
        ensures
            old(self).with_field(*res, 30, byte_order::le16_bytes(op)),
            *final(self) == *final(res),
    {
        put(&mut self.hdr, HDROFF_OP, le16_array(op).as_slice());
        self
    }

    pub fn flags(&self) -> (res: u32)
        ensures
            res == get32(self.hdr@, 32),
    {
        read32(self.hdr.as_slice(), HDROFF_FLAGS)
    }

    pub fn set_flags(&mut self, flags: u32) -> (res: &mut VsockPacket)
        ensures
            old(self).with_field(*res, 32, byte_order::le32_bytes(flags)),
            *final(self) == *final(res),
    {
        put(&mut self.hdr, HDROFF_FLAGS, le32_array(flags).as_slice());
        self
    }

    pub fn buf_alloc(&self) -> (res: u32)
        ensures
            res == get32(self.hdr@, 36),
    {
        read32(self.hdr.as_slice(), HDROFF_BUF_ALLOC)
    }

    pub fn set_buf_alloc(&mut self, buf_alloc: u32) -> (res: &mut VsockPacket)
        ensures
            old(self).with_field(*res, 36, byte_order::le32_bytes(buf_alloc)),
            *final(self) == *final(res),
    {
        put(&mut self.hdr, HDROFF_BUF_ALLOC, le32_array(buf_alloc).as_slice());
        self
    }

    pub fn fwd_cnt(&self) -> (res: u32)
        ensures
            res == get32(self.hdr@, 40),
    {
        read32(self.hdr.as_slice(), HDROFF_FWD_CNT)
    }

    pub fn set_fwd_cnt(&mut self, fwd_cnt: u32) -> (res: &mut VsockPacket)
        ensures
            old(self).with_field(*res, 40, byte_order::le32_bytes(fwd_cnt)),
            *final(self) == *final(res),
    {
        put(&mut self.hdr, HDROFF_FWD_CNT, le32_array(fwd_cnt).as_slice());
        self
    }

    /// Sets `flag` beside the flags that are set.
    pub fn set_flag(&mut self, flag: u32) -> (res: &mut VsockPacket)
        ensures
            old(self).with_field(
                *res,
                32,
                byte_order::le32_bytes(get32(old(self).hdr@, 32) | flag),
            ),
            *final(self) == *final(res),
    {
        let flags: u32 = self.flags() | flag;
        self.set_flags(flags)
    }

    /// A packet with the same bytes in the same places.
    pub fn copied(&self) -> (res: VsockPacket)
        ensures
            is_copy(res, *self),
    {
        let data = match &self.data {
            Some(data) => {
                let mut bytes: Vec<u8> = Vec::new();
                bytes.extend_from_slice(data.as_slice());
                assert(bytes@ =~= data@);
                Some(bytes)
            },
            None => None,
        };
        VsockPacket { hdr: self.hdr, hdr_addr: self.hdr_addr, data, data_addr: self.data_addr }
    }

    /// Puts the packet back into the buffers of `given`, which it was made of.
    pub fn settle(&mut self, given: &VsockPacket)
        ensures
            is_settled(*given, *old(self), *final(self)),
    {
        let data = match &given.data {
            Some(before) => {
                let mut bytes: Vec<u8> = Vec::new();
                bytes.extend_from_slice(before.as_slice());
                assert(bytes@ =~= before@);
                if let Some(left) = &self.data {
                    let n: usize = if left.len() < bytes.len() {
                        left.len()
                    } else {
                        bytes.len()
                    };
                    put(
                        bytes.as_mut_slice(),
                        0,
                        vstd::slice::slice_subrange(left.as_slice(), 0, n),
                    );
                }
                assert(bytes@ =~= laid_in(before@, self.data_bytes()));
                Some(bytes)
            },
            None => None,
        };
        self.data = data;
        self.hdr_addr = given.hdr_addr;
        self.data_addr = given.data_addr;
    }

    /// Writes to guest memory what was changed since the packet was `given`: the header, or
    /// the data, or both.
    pub fn write_back(&self, given: &VsockPacket, mem: &mut GuestMemory) -> (res: Result<
        (),
        VsockError,
    >)
        ensures
            final(mem).regions() == old(mem).regions(),
            final(mem).backed() == old(mem).backed(),
            written_back(
                old(mem).regions(),
                *given,
                *self,
                old(mem).log(),
                final(mem).log(),
                res is Ok,
            ),
            res is Err ==> res == Err::<(), VsockError>(VsockError::GuestMemoryMmap),
    {
        let mut done = true;
        if !same_bytes(self.hdr.as_slice(), given.hdr.as_slice()) {
            done = mem.write(self.hdr.as_slice(), self.hdr_addr).is_ok();
        }
        if let Some(data) = &self.data {
            let changed = match &given.data {
                Some(before) => !same_bytes(data.as_slice(), before.as_slice()),
                None => true,
            };
            if changed {
                let stored = mem.write(data.as_slice(), self.data_addr).is_ok();
                done = done && stored;
            }
        }
        proof {
            let hdr_changed = self.hdr@ != given.hdr@;
            let data_changed = self.data is Some && data_of(*self) != data_of(*given);
            let hdr_ops = change_of(mem.regions(), hdr_changed, self.hdr_addr, self.hdr@);
            let data_ops = change_of(
                mem.regions(),
                data_changed,
                self.data_addr,
                self.data_bytes(),
            );
            assert(mem.log() =~= old(mem).log() + hdr_ops + data_ops);
        }
        if done {
            Ok(())
        } else {
            Err(VsockError::GuestMemoryMmap)
        }
    }
}

/// Whether two runs of bytes are equal.
fn same_bytes(a: &[u8], b: &[u8]) -> (res: bool)
    ensures
        res == (a@ == b@),
{
    if a.len() != b.len() {
        return false;
    }
    let mut i: usize = 0;
    while i < a.len()
        invariant
            a@.len() == b@.len(),
            i <= a@.len(),
            forall|j: int| 0 <= j < i ==> a@[j] == b@[j],
        decreases a@.len() - i,
    {
        if a[i] != b[i] {
            assert(a@[i as int] != b@[i as int]);
            return false;
        }
        i += 1;
    }
    assert(a@ =~= b@);
    true
}

/// Whether `copy` has the bytes of `packet`, in the same places.
pub open spec fn is_copy(copy: VsockPacket, packet: VsockPacket) -> bool {
    &&& copy.hdr == packet.hdr
    &&& copy.hdr_addr == packet.hdr_addr
    &&& data_of(copy) == data_of(packet)
    &&& copy.data_addr == packet.data_addr
}

/// A buffer that held `given` and got `left`: its length stays.
pub open spec fn laid_in(given: Seq<u8>, left: Seq<u8>) -> Seq<u8> {
    Seq::new(
        given.len(),
        |i: int|
            if i < left.len() {
                left[i]
            } else {
                given[i]
            },
    )
}

/// Whether `packet` is what the buffers of `given` hold once the packet was left as `left`:
/// its header and its data. The buffers stay where they are and as long as they are.
pub open spec fn is_settled(given: VsockPacket, left: VsockPacket, packet: VsockPacket) -> bool {
    &&& packet.hdr == left.hdr
    &&& packet.hdr_addr == given.hdr_addr
    &&& packet.data_addr == given.data_addr
    &&& data_of(packet) == match given.data {
        Some(data) => Some(laid_in(data@, left.data_bytes())),
        None => None,
    }
}

/// The accesses by which `data` is written to `addr`, if it was changed.
pub open spec fn change_of(
    regions: Seq<(u64, u64)>,
    changed: bool,
    addr: GuestAddress,
    data: Seq<u8>,
) -> Seq<MemOp> {
    if changed {
        seq![
            MemOp::Write {
                addr: addr.0,
                data,
                written: guest_memory::span_mapped(regions, addr.0, data.len() as int),
            },
        ]
    } else {
        Seq::empty()
    }
}

/// Whether `log1` is `log0` with the header and the data of `packet` written, each if it is not
/// that of `given`, and whether all that was `done`.
pub open spec fn written_back(
    regions: Seq<(u64, u64)>,
    given: VsockPacket,
    packet: VsockPacket,
    log0: Seq<MemOp>,
    log1: Seq<MemOp>,
    done: bool,
) -> bool {
    let hdr_changed = packet.hdr@ != given.hdr@;
    let data_changed = packet.data is Some && data_of(packet) != data_of(given);
    let data = packet.data_bytes();
    &&& log1 == log0 + change_of(regions, hdr_changed, packet.hdr_addr, packet.hdr@) + change_of(
        regions,
        data_changed,
        packet.data_addr,
        data,
    )
    &&& done <==> (hdr_changed ==> guest_memory::span_mapped(regions, packet.hdr_addr.0, 44)) && (
    data_changed ==> guest_memory::span_mapped(regions, packet.data_addr.0, data.len() as int))
}

/// What a packet was filled with goes to its buffers: of guest memory only the 44 bytes of the
/// header and the bytes of the data buffer are written, and if nothing was changed, nothing.
pub proof fn filling_stays_in_the_buffers(
    regions: Seq<(u64, u64)>,
    given: VsockPacket,
    left: VsockPacket,
    packet: VsockPacket,
    log0: Seq<MemOp>,
    log1: Seq<MemOp>,
    done: bool,
)
    requires
        is_settled(given, left, packet),
        written_back(regions, given, packet, log0, log1, done),
    ensures
        packet.size() == given.size(),
        log0.is_prefix_of(log1),
        forall|i: int|
            log0.len() <= i < log1.len() ==> {
                &&& #[trigger] log1[i] matches MemOp::Write { addr, data, .. }
                &&& {
                    ||| addr == given.hdr_addr.0 && data.len() == 44
                    ||| addr == given.data_addr.0 && data.len() == given.size()
                }
            },
        is_copy(left, given) ==> log1 == log0,
{
    if is_copy(left, given) {
        if let Some(data) = given.data {
            assert(laid_in(data@, left.data_bytes()) =~= data@);
        }
        assert(log1 =~= log0);
    }
}

/// A request for a proxy socket.
#[derive(Clone, Copy, Debug, PartialEq, Eq, Structural)]
pub struct TsiProxyCreate {
    pub peer_port: u32,
    pub family: u16,
    pub _type: u16,
}

/// A request to connect a proxy socket.
#[derive(Debug)]
pub struct TsiConnectReq {
    pub peer_port: u32,
    pub addr: SockAddr,
}

#[derive(Clone, Copy, Debug, PartialEq, Eq, Structural)]
pub struct TsiConnectRsp {
    pub result: i32,
}

/// A request for the name of a proxy socket or, if `peer` is set, of its peer.
#[derive(Clone, Copy, Debug, PartialEq, Eq, Structural)]
pub struct TsiGetnameReq {
    pub peer_port: u32,
    pub local_port: u32,
    pub peer: u32,
}

#[derive(Debug)]
pub struct TsiGetnameRsp {
    pub result: i32,
    pub addr_len: u32,
    pub addr: SockAddr,
}

/// Where a datagram is to be sent.
#[derive(Debug)]
pub struct TsiSendtoAddr {
    pub peer_port: u32,
    pub addr: SockAddr,
}

/// A request to listen on a proxy socket.
#[derive(Debug)]
pub struct TsiListenReq {
    pub peer_port: u32,
    pub vm_port: u32,
    pub backlog: i32,
    pub addr: SockAddr,
}

#[derive(Clone, Copy, Debug, PartialEq, Eq, Structural)]
pub struct TsiListenRsp {
    pub result: i32,
}

/// A request to accept a connection on a proxy socket.
#[derive(Clone, Copy, Debug, PartialEq, Eq, Structural)]
pub struct TsiAcceptReq {
    pub peer_port: u32,
    pub flags: u32,
}

#[derive(Clone, Copy, Debug, PartialEq, Eq, Structural)]
pub struct TsiAcceptRsp {
    pub result: i32,
}

/// A request to release a proxy socket.
#[derive(Clone, Copy, Debug, PartialEq, Eq, Structural)]
pub struct TsiReleaseReq {
    pub peer_port: u32,
    pub local_port: u32,
}

/// The bytes of a socket address: its family in two bytes, then what the family says.
#[derive(Debug)]
pub struct SockAddr {
    pub bytes: Vec<u8>,
}

/// The most bytes of a socket address.
pub const SOCKADDR_STORAGE_SIZE: u32 = 128;

impl Default for TsiGetnameRsp {
    /// No name: the address of any host, in a storage of full size, of which 16 bytes count.
    fn default() -> (res: TsiGetnameRsp)
        ensures
            res.result == -1,
            res.addr_len == 16,
            res.addr.bytes@ == Seq::new(
                SOCKADDR_STORAGE_SIZE as nat,
                |i: int|
                    if i == 0 {
                        defs::LINUX_AF_INET as u8
                    } else {
                        0
                    },
            ),
    {
        let mut bytes: Vec<u8> = Vec::new();
        bytes.push(2);
        while bytes.len() < 128
            invariant
                1 <= bytes@.len() <= 128,
                bytes@[0] == 2,
                forall|i: int| 1 <= i < bytes@.len() ==> bytes@[i] == 0,
            decreases 128 - bytes@.len(),
        {
            bytes.push(0);
        }
        assert(bytes@ =~= Seq::new(
            SOCKADDR_STORAGE_SIZE as nat,
            |i: int|
                if i == 0 {
                    defs::LINUX_AF_INET as u8
                } else {
                    0
                },
        ));
        TsiGetnameRsp { result: -1, addr_len: 16, addr: SockAddr { bytes } }
    }
}

/// Calls `String::from_utf8`: the text whose encoding the bytes are, if they are one.
#[verifier::external_body]
fn text_of(bytes: Vec<u8>) -> (res: Option<String>)
    ensures
        res is Some <==> vstd::utf8::valid_utf8(bytes@),
        res matches Some(text) ==> text@ == vstd::utf8::decode_utf8(bytes@),
{
    String::from_utf8(bytes).ok()
}

/// The bytes of a request for a proxy socket.
pub open spec fn proxy_create_bytes(req: TsiProxyCreate) -> Seq<u8> {
    byte_order::le32_bytes(req.peer_port) + byte_order::le16_bytes(req.family)
        + byte_order::le16_bytes(req._type)
}

/// The request for a proxy socket that `data` begins with, if it is long enough.
pub open spec fn proxy_create_in(data: Seq<u8>) -> Option<TsiProxyCreate> {
    if data.len() >= 8 {
        Some(
            TsiProxyCreate {
                peer_port: get32(data, 0),
                family: get16(data, 4),
                _type: get16(data, 6),
            },
        )
    } else {
        None
    }
}

/// A request for a proxy socket that was written is the one that is read, where there is room
/// for it.
pub proof fn proxy_create_round_trip(before: VsockPacket, after: VsockPacket, req: TsiProxyCreate)
    requires
        before.with_proxy_create(after, req),
        before.size() >= 8,
    ensures
        proxy_create_in(after.data_bytes()) == Some(req),
{
    let b = before.data_bytes();
    let a = after.data_bytes();
    let port = byte_order::overlay(b, 0, byte_order::le32_bytes(req.peer_port));
    let family = byte_order::overlay(port, 4, byte_order::le16_bytes(req.family));
    let whole = byte_order::overlay(family, 6, byte_order::le16_bytes(req._type));
    assert(a =~= whole);
    fields_round_trip(b, 0, 0, req.peer_port, 0);
    fields_round_trip(port, 4, req.family, 0, 0);
    fields_round_trip(family, 6, req._type, 0, 0);
    fields_are_isolated(port, 4, byte_order::le16_bytes(req.family), 0);
    fields_are_isolated(family, 6, byte_order::le16_bytes(req._type), 0);
    fields_are_isolated(family, 6, byte_order::le16_bytes(req._type), 4);
}

/// Whether `family` is one that proxy sockets can have.
pub open spec fn supported_family(family: u16) -> bool {
    family == defs::LINUX_AF_INET || family == defs::LINUX_AF_INET6 || family
        == defs::LINUX_AF_UNIX
}

/// The socket address of `addr_len` bytes that `buf` begins with. It has to be in the buffer,
/// to hold a family and to fit a storage.
pub open spec fn address_in(buf: Seq<u8>, addr_len: u32) -> Option<Seq<u8>> {
    if 2 <= addr_len <= SOCKADDR_STORAGE_SIZE && addr_len <= buf.len() && supported_family(
        get16(buf, 0),
    ) {
        Some(buf.take(addr_len as int))
    } else {
        None
    }
}

/// The first byte from `from` on that is zero.
pub open spec fn zero_from(bytes: Seq<u8>, from: int) -> Option<int>
    decreases bytes.len() - from,
{
    if from < 0 || from >= bytes.len() {
        None
    } else if bytes[from] == 0 {
        Some(from)
    } else {
        zero_from(bytes, from + 1)
    }
}

/// The path in a data buffer that holds the address of a socket in the file system: the text
/// up to a zero byte, behind the family.
pub open spec fn path_in(data: Seq<u8>) -> Option<Seq<char>> {
    match zero_from(data, 2) {
        Some(end) => if data.len() >= 108 && vstd::utf8::valid_utf8(data.subrange(2, end)) {
            Some(vstd::utf8::decode_utf8(data.subrange(2, end)))
        } else {
            None
        },
        None => None,
    }
}

impl VsockPacket {
    /// The bytes of the data buffer; none if there is no buffer.
    pub open spec fn data_bytes(&self) -> Seq<u8> {
        match self.data {
            Some(data) => data@,
            None => Seq::empty(),
        }
    }

    /// The address family in the data.
    pub fn sa_family(&self) -> (res: Option<u16>)
        ensures
            res == if self.size() >= 2 {
                Some(get16(self.data_bytes(), 0))
            } else {
                None
            },
    {
        match &self.data {
            Some(data) if data.len() >= 2 => Some(read16(data.as_slice(), 0)),
            _ => None,
        }
    }

    /// The port in the data, highest byte first.
    pub fn inet_port(&self) -> (res: Option<u16>)
        ensures
            res == if self.size() >= 4 {
                Some(byte_order::be_u16(self.data_bytes().skip(2)))
            } else {
                None
            },
    {
        match &self.data {
            Some(data) if data.len() >= 4 => {
                let rest = vstd::slice::slice_subrange(data.as_slice(), 2, data.len());
                assert(rest@ =~= data@.skip(2));
                Some(read_be_u16(rest))
            },
            _ => None,
        }
    }

    /// The IPv4 address in the data.
    pub fn inet_addr(&self) -> (res: Option<[u8; 4]>)
        ensures
            res is Some <==> self.size() >= 8,
            res matches Some(addr) ==> addr@ == self.data_bytes().subrange(4, 8),
    {
        match &self.data {
            Some(data) if data.len() >= 8 => {
                let addr: [u8; 4] = [data[4], data[5], data[6], data[7]];
                assert(addr@ =~= data@.subrange(4, 8));
                Some(addr)
            },
            _ => None,
        }
    }

    /// The path in the data. There is none without a zero byte behind it.
    pub fn unix_path(&self) -> (res: Option<String>)
        ensures
            match res {
                Some(path) => path_in(self.data_bytes()) == Some(path@),
                None => path_in(self.data_bytes()) is None,
            },
    {
        let data = match &self.data {
            Some(data) => data,
            None => return None,
        };
        if data.len() < 108 {
            return None;
        }
        let mut path: Vec<u8> = Vec::new();
        let mut end: usize = 2;
        while end < data.len() && data[end] != 0
            invariant
                2 <= end <= data@.len(),
                zero_from(data@, 2) == zero_from(data@, end as int),
                path@ == data@.subrange(2, end as int),
            decreases data@.len() - end,
        {
            path.push(data[end]);
            end += 1;
            assert(path@ =~= data@.subrange(2, end as int));
        }
        if end == data.len() {
            return None;
        }
        text_of(path)
    }

    /// Whether a socket address of `addr_len` bytes fits a buffer of `buf_len` bytes.
    pub fn validate_parse_address_len(addr_len: u32, buf_len: usize) -> (res: bool)
        ensures
            res == (addr_len <= buf_len),
    {
        addr_len as usize <= buf_len
    }

    /// The socket address that `data` holds from `at` on, with its length before it given by
    /// the sender. There has to be something at `at`, unless the length says otherwise.
    fn parse_address(data: &Vec<u8>, at: usize, addr_len: u32) -> (res: Option<SockAddr>)
        requires
            at <= data@.len(),
            at < data@.len() || addr_len > 0,
        ensures
            match res {
                Some(addr) => address_in(data@.skip(at as int), addr_len) == Some(addr.bytes@),
                None => address_in(data@.skip(at as int), addr_len) is None,
            },
    {
        if !VsockPacket::validate_parse_address_len(addr_len, data.len() - at) {
            return None;
        }
        if addr_len < 2 || addr_len > SOCKADDR_STORAGE_SIZE {
            return None;
        }
        let family: u16 = read16(data.as_slice(), at);
        assert(data@.skip(at as int).skip(0) =~= data@.skip(at as int));
        if family == defs::LINUX_AF_INET || family == defs::LINUX_AF_INET6 || family
            == defs::LINUX_AF_UNIX {
            let part = vstd::slice::slice_subrange(
                data.as_slice(),
                at,
                at + addr_len as usize,
            );
            let mut bytes: Vec<u8> = Vec::new();
            bytes.extend_from_slice(part);
            assert(bytes@ =~= data@.skip(at as int).take(addr_len as int));
            Some(SockAddr { bytes })
        } else {
            None
        }
    }

    /// The request for a proxy socket in the data.
    pub fn read_proxy_create(&self) -> (res: Option<TsiProxyCreate>)
        ensures
            res == proxy_create_in(self.data_bytes()),
    {
        match &self.data {
            Some(data) if data.len() >= 8 => Some(
                TsiProxyCreate {
                    peer_port: read32(data.as_slice(), 0),
                    family: read16(data.as_slice(), 4),
                    _type: read16(data.as_slice(), 6),
                },
            ),
            _ => None,
        }
    }

    /// Whether the data holds a length at `at` and what it announces, as far as that can be
    /// told: a request that ends before, or right behind a length of zero, is malformed.
    pub open spec fn holds_address(&self, at: int) -> bool {
        &&& self.size() >= at + 4
        &&& self.size() > at + 4 || get32(self.data_bytes(), at) != 0
    }

    /// The packet after a request for a proxy socket was written to it, if its buffer has room
    /// for one.
    pub open spec fn with_proxy_create(self, after: VsockPacket, req: TsiProxyCreate) -> bool {
        if self.size() >= 8 {
            self.with_data_bytes(after, 0, proxy_create_bytes(req))
        } else {
            after == self
        }
    }

    /// Writes a request for a proxy socket to the data, if there is room for it.
    pub fn write_proxy_create(&mut self, req: TsiProxyCreate)
        ensures
            old(self).with_proxy_create(*final(self), req),
    {
        if self.buf_size() >= 8 {
            let mut bytes: Vec<u8> = Vec::new();
            bytes.extend_from_slice(le32_array(req.peer_port).as_slice());
            bytes.extend_from_slice(le16_array(req.family).as_slice());
            bytes.extend_from_slice(le16_array(req._type).as_slice());
            assert(bytes@ =~= proxy_create_bytes(req));
            self.write_buf(0, bytes.as_slice());
        }
    }

    /// The request to connect in the data. A buffer of 4 bytes or more has to hold a length.
    pub fn read_connect_req(&self) -> (res: Option<TsiConnectReq>)
        requires
            self.size() < 4 || self.holds_address(4),
        ensures
            match res {
                Some(req) => {
                    &&& self.size() >= 4
                    &&& req.peer_port == get32(self.data_bytes(), 0)
                    &&& address_in(self.data_bytes().skip(8), get32(self.data_bytes(), 4)) == Some(
                        req.addr.bytes@,
                    )
                },
                None => self.size() < 4 || address_in(
                    self.data_bytes().skip(8),
                    get32(self.data_bytes(), 4),
                ) is None,
            },
    {
        match &self.data {
            Some(data) if data.len() >= 4 => {
                let peer_port: u32 = read32(data.as_slice(), 0);
                let addr_len: u32 = read32(data.as_slice(), 4);
                match VsockPacket::parse_address(data, 8, addr_len) {
                    Some(addr) => Some(TsiConnectReq { peer_port, addr }),
                    None => None,
                }
            },
            _ => None,
        }
    }

    /// The destination of a datagram in the data. A buffer of 4 bytes or more has to hold a
    /// length.
    pub fn read_sendto_addr(&self) -> (res: Option<TsiSendtoAddr>)
        requires
            self.size() < 4 || self.holds_address(4),
        ensures
            match res {
                Some(req) => {
                    &&& self.size() >= 4
                    &&& req.peer_port == get32(self.data_bytes(), 0)
                    &&& address_in(self.data_bytes().skip(8), get32(self.data_bytes(), 4)) == Some(
                        req.addr.bytes@,
                    )
                },
                None => self.size() < 4 || address_in(
                    self.data_bytes().skip(8),
                    get32(self.data_bytes(), 4),
                ) is None,
            },
    {
        match self.read_connect_req() {
            Some(req) => Some(TsiSendtoAddr { peer_port: req.peer_port, addr: req.addr }),
            None => None,
        }
    }

    /// The request to listen in the data. A buffer of 12 bytes or more has to hold a length.
    pub fn read_listen_req(&self) -> (res: Option<TsiListenReq>)
        requires
            self.size() < 12 || self.holds_address(12),
        ensures
            match res {
                Some(req) => {
                    &&& self.size() >= 12
                    &&& req.peer_port == get32(self.data_bytes(), 0)
                    &&& req.vm_port == get32(self.data_bytes(), 4)
                    &&& req.backlog == byte_order::signed(get32(self.data_bytes(), 8))
                    &&& address_in(self.data_bytes().skip(16), get32(self.data_bytes(), 12))
                        == Some(req.addr.bytes@)
                },
                None => self.size() < 12 || address_in(
                    self.data_bytes().skip(16),
                    get32(self.data_bytes(), 12),
                ) is None,
            },
    {
        match &self.data {
            Some(data) if data.len() >= 12 => {
                let peer_port: u32 = read32(data.as_slice(), 0);
                let vm_port: u32 = read32(data.as_slice(), 4);
                let backlog: i32 = to_signed(read32(data.as_slice(), 8));
                let addr_len: u32 = read32(data.as_slice(), 12);
                match VsockPacket::parse_address(data, 16, addr_len) {
                    Some(addr) => Some(TsiListenReq { peer_port, vm_port, backlog, addr }),
                    None => None,
                }
            },
            _ => None,
        }
    }

    /// The request for a name in the data.
    pub fn read_getname_req(&self) -> (res: Option<TsiGetnameReq>)
        ensures
            res == if self.size() >= 12 {
                Some(
                    TsiGetnameReq {
                        peer_port: get32(self.data_bytes(), 0),
                        local_port: get32(self.data_bytes(), 4),
                        peer: get32(self.data_bytes(), 8),
                    },
                )
            } else {
                None
            },
    {
        match &self.data {
            Some(data) if data.len() >= 12 => Some(
                TsiGetnameReq {
                    peer_port: read32(data.as_slice(), 0),
                    local_port: read32(data.as_slice(), 4),
                    peer: read32(data.as_slice(), 8),
                },
            ),
            _ => None,
        }
    }

    /// The request to accept in the data.
    pub fn read_accept_req(&self) -> (res: Option<TsiAcceptReq>)
        ensures
            res == if self.size() >= 8 {
                Some(
                    TsiAcceptReq {
                        peer_port: get32(self.data_bytes(), 0),
                        flags: get32(self.data_bytes(), 4),
                    },
                )
            } else {
                None
            },
    {
        match &self.data {
            Some(data) if data.len() >= 8 => Some(
                TsiAcceptReq { peer_port: read32(data.as_slice(), 0), flags: read32(data.as_slice(), 4) },
            ),
            _ => None,
        }
    }

    /// The request to release in the data.
    pub fn read_release_req(&self) -> (res: Option<TsiReleaseReq>)
        ensures
            res == if self.size() >= 8 {
                Some(
                    TsiReleaseReq {
                        peer_port: get32(self.data_bytes(), 0),
                        local_port: get32(self.data_bytes(), 4),
                    },
                )
            } else {
                None
            },
    {
        match &self.data {
            Some(data) if data.len() >= 8 => Some(
                TsiReleaseReq { peer_port: read32(data.as_slice(), 0), local_port: read32(data.as_slice(), 4) },
            ),
            _ => None,
        }
    }

    /// The packet after a result was written to it, if its buffer has room for one.
    pub open spec fn with_result(self, after: VsockPacket, result: i32) -> bool {
        if self.size() >= 4 {
            self.with_data_bytes(after, 0, byte_order::le32_bytes(byte_order::unsigned(result)))
        } else {
            after == self
        }
    }

    /// Writes a result to the data, if there is room for it.
    fn write_result(&mut self, result: i32)
        ensures
            old(self).with_result(*final(self), result),
    {
        if self.buf_size() >= 4 {
            self.write_buf(0, le32_array(to_unsigned(result)).as_slice());
        }
    }

    pub fn write_connect_rsp(&mut self, rsp: TsiConnectRsp)
        ensures
            old(self).with_result(*final(self), rsp.result),
    {
        self.write_result(rsp.result);
    }

    pub fn write_listen_rsp(&mut self, rsp: TsiListenRsp)
        ensures
            old(self).with_result(*final(self), rsp.result),
    {
        self.write_result(rsp.result);
    }

    pub fn write_accept_rsp(&mut self, rsp: TsiAcceptRsp)
        ensures
            old(self).with_result(*final(self), rsp.result),
    {
        self.write_result(rsp.result);
    }

    /// Writes the answer to a request for a name, if there is room for any: the result, the
    /// length of the address, and the address, which has to fit then.
    pub fn write_getname_rsp(&mut self, rsp: &TsiGetnameRsp)
        requires
            old(self).size() >= 132 ==> 8 + rsp.addr.bytes@.len() <= old(self).size(),
        ensures
            if old(self).size() >= 132 {
                old(self).with_data_bytes(
                    *final(self),
                    0,
                    byte_order::le32_bytes(byte_order::unsigned(rsp.result))
                        + byte_order::le32_bytes(rsp.addr_len) + rsp.addr.bytes@,
                )
            } else {
                *final(self) == *old(self)
            },
    {
        if self.buf_size() >= 132 {
            let mut bytes: Vec<u8> = Vec::new();
            bytes.extend_from_slice(le32_array(to_unsigned(rsp.result)).as_slice());
            bytes.extend_from_slice(le32_array(rsp.addr_len).as_slice());
            bytes.extend_from_slice(rsp.addr.bytes.as_slice());
            assert(bytes@ =~= byte_order::le32_bytes(byte_order::unsigned(rsp.result))
                + byte_order::le32_bytes(rsp.addr_len) + rsp.addr.bytes@);
            self.write_buf(0, bytes.as_slice());
        }
    }

    /// Writes the time to the data, if there is room for it.
    pub fn write_time_sync(&mut self, time: u64)
        ensures
            if old(self).size() >= 8 {
                old(self).with_data_bytes(*final(self), 0, byte_order::le64_bytes(time))
            } else {
                *final(self) == *old(self)
            },
    {
        if self.buf_size() >= 8 {
            self.write_buf(0, le64_array(time).as_slice());
        }
    }
}

/// An address that was accepted is in the buffer it was read from, and has a family that
/// proxy sockets can have.
pub proof fn addresses_stay_in_the_buffer(buf: Seq<u8>, addr_len: u32)
    ensures
        address_in(buf, addr_len) matches Some(addr) ==> addr.len() == addr_len && addr.len()
            <= buf.len() && supported_family(get16(addr, 0)),
{
    if address_in(buf, addr_len) is Some {
        let addr = address_in(buf, addr_len)->0;
        assert(addr.skip(0) =~= addr);
        assert(buf.skip(0) =~= buf);
    }
}

/// A path that was accepted ends before the end of the buffer it was read from.
pub proof fn paths_are_terminated(data: Seq<u8>, from: int)
    requires
        0 <= from,
    ensures
        zero_from(data, from) matches Some(end) ==> from <= end < data.len() && data[end] == 0,
        zero_from(data, from) is None ==> forall|i: int|
            from <= i < data.len() ==> #[trigger] data[i] != 0,
    decreases data.len() - from,
{
    if from < data.len() && data[from] != 0 {
        paths_are_terminated(data, from + 1);
    }
}

/// The header and the data of a received packet that stand in one buffer lie next to each
/// other, without overlap, and fill it.
pub proof fn one_buffer_holds_header_and_data(
    regions: Seq<(u64, u64)>,
    head: DescriptorChain,
    log0: Seq<MemOp>,
    log1: Seq<MemOp>,
    packet: VsockPacket,
)
    requires
        packet_step(regions, head, false, log0, log1, Ok(packet)),
        !head.links_on(),
        head.len > VSOCK_PKT_HDR_SIZE,
    ensures
        packet.hdr_addr == head.addr,
        packet.data_addr.0 == packet.hdr_addr.0 + VSOCK_PKT_HDR_SIZE,
        packet.size() == head.len - VSOCK_PKT_HDR_SIZE,
{
    reveal(packet_step);
}

/// A packet that the guest sent holds all the data that it announces, which are not more than
/// a packet may have; there is a data buffer exactly if it announces some.
pub proof fn sent_packets_hold_their_data(
    regions: Seq<(u64, u64)>,
    head: DescriptorChain,
    log0: Seq<MemOp>,
    log1: Seq<MemOp>,
    packet: VsockPacket,
)
    requires
        packet_step(regions, head, true, log0, log1, Ok(packet)),
    ensures
        get32(packet.hdr@, 24) <= packet.size(),
        get32(packet.hdr@, 24) <= defs::MAX_PKT_BUF_SIZE,
        packet.data is Some <==> get32(packet.hdr@, 24) > 0,
{
    reveal(packet_step);
}

/// The fields of a packet are little-endian: the byte at its place counts once, the next one 256
/// times, and so on.
pub proof fn fields_are_little_endian(bytes: Seq<u8>, at: int)
    requires
        0 <= at,
    ensures
        at + 2 <= bytes.len() ==> get16(bytes, at) == bytes[at] + 256 * bytes[at + 1],
        at + 4 <= bytes.len() ==> get32(bytes, at) == bytes[at] + 256 * bytes[at + 1] + 65536
            * bytes[at + 2] + 16777216 * bytes[at + 3],
        at + 8 <= bytes.len() ==> get64(bytes, at) == bytes[at] + 256 * bytes[at + 1] + 65536
            * bytes[at + 2] + 16777216 * bytes[at + 3] + 4294967296 * (bytes[at + 4] + 256 * bytes[at
            + 5] + 65536 * bytes[at + 6] + 16777216 * bytes[at + 7]),
{
    if at + 2 <= bytes.len() {
        let rest = bytes.skip(at);
        byte_order::bytes_count_by_their_place(rest);
        assert(rest[0] == bytes[at] && rest[1] == bytes[at + 1]);
        if at + 4 <= bytes.len() {
            assert(rest[2] == bytes[at + 2] && rest[3] == bytes[at + 3]);
        }
        if at + 8 <= bytes.len() {
            assert(rest[4] == bytes[at + 4] && rest[5] == bytes[at + 5] && rest[6] == bytes[at + 6]
                && rest[7] == bytes[at + 7]);
        }
    }
}

/// A field that is set has its bytes in its place in the header. The rest of the header, the data
/// and the places in guest memory stay.
pub proof fn setting_a_field_sets_that_field(
    before: VsockPacket,
    after: VsockPacket,
    at: int,
    bytes: Seq<u8>,
    i: int,
)
    requires
        before.with_field(after, at, bytes),
        0 <= at,
        at + bytes.len() <= 44,
        0 <= i < 44,
    ensures
        after.hdr@.subrange(at, at + bytes.len()) == bytes,
        i < at || at + bytes.len() <= i ==> after.hdr@[i] == before.hdr@[i],
        after.data == before.data,
        after.hdr_addr == before.hdr_addr && after.data_addr == before.data_addr,
{
    assert(after.hdr@.subrange(at, at + bytes.len()) =~= bytes);
}

/// What is written to the data stands there from its place on, as far as there is room. The rest
/// of the data, its size, the header and the places in guest memory stay.
pub proof fn writing_data_writes_data(
    before: VsockPacket,
    after: VsockPacket,
    at: int,
    bytes: Seq<u8>,
    i: int,
)
    requires
        before.with_data_bytes(after, at, bytes),
        0 <= at,
        0 <= i < before.size(),
    ensures
        after.size() == before.size(),
        at <= i < at + bytes.len() ==> after.data_bytes()[i] == bytes[i - at],
        i < at || at + bytes.len() <= i ==> after.data_bytes()[i] == before.data_bytes()[i],
        after.hdr == before.hdr,
        after.hdr_addr == before.hdr_addr && after.data_addr == before.data_addr,
{
}

/// A request for a proxy socket is in the first eight bytes: four for the port, two for the
/// family, two for the type. A result that is written is in the first four, and nothing is
/// written where there is no room.
pub proof fn requests_and_results_stand_first(
    data: Seq<u8>,
    before: VsockPacket,
    after: VsockPacket,
    result: i32,
)
    requires
        before.with_result(after, result),
    ensures
        proxy_create_in(data) is Some <==> data.len() >= 8,
        proxy_create_in(data) matches Some(req) ==> {
            &&& req.peer_port == data[0] + 256 * data[1] + 65536 * data[2] + 16777216 * data[3]
            &&& req.family == data[4] + 256 * data[5]
            &&& req._type == data[6] + 256 * data[7]
        },
        before.size() < 4 ==> after == before,
        before.size() >= 4 ==> {
            let d = after.data_bytes();
            let n = d[0] + 256 * d[1] + 65536 * d[2] + 16777216 * d[3];
            &&& after.size() == before.size()
            &&& n == result || n == result + 4294967296
        },
{
    if data.len() >= 8 {
        fields_are_little_endian(data, 0);
        fields_are_little_endian(data, 4);
        fields_are_little_endian(data, 6);
    }
    if before.size() >= 4 {
        let d = after.data_bytes();
        let bits = byte_order::unsigned(result);
        byte_order::bytes_are_digits(0, bits);
        byte_order::signs_keep_the_bits(bits, result, 0, 0);
        assert(d[0] == byte_order::le32_bytes(bits)[0] && d[1] == byte_order::le32_bytes(bits)[1]
            && d[2] == byte_order::le32_bytes(bits)[2] && d[3] == byte_order::le32_bytes(bits)[3]);
    }
}

/// An address is accepted exactly if its length is from 2 to 128, it is in the buffer, and its
/// family, in its first two bytes, is 1, 2 or 10. It is then the bytes of that length.
pub proof fn addresses_have_a_known_family(buf: Seq<u8>, addr_len: u32)
    ensures
        address_in(buf, addr_len) is Some <==> {
            &&& 2 <= addr_len <= 128
            &&& addr_len <= buf.len()
            &&& {
                let family = buf[0] + 256 * buf[1];
                family == 1 || family == 2 || family == 10
            }
        },
        address_in(buf, addr_len) matches Some(addr) ==> addr == buf.take(addr_len as int),
{
    if buf.len() >= 2 {
        fields_are_little_endian(buf, 0);
    }
}

/// A path is the text from the third byte up to the first zero byte, in a buffer of at least 108
/// bytes.
pub proof fn paths_end_at_the_first_zero(data: Seq<u8>, text: Seq<char>)
    requires
        path_in(data) == Some(text),
    ensures
        data.len() >= 108,
        exists|end: int|
            {
                &&& 2 <= end < data.len()
                &&& data[end] == 0
                &&& forall|i: int| 2 <= i < end ==> #[trigger] data[i] != 0
                &&& text == vstd::utf8::decode_utf8(#[trigger] data.subrange(2, end))
            },
{
    paths_are_terminated(data, 2);
    let end = zero_from(data, 2)->0;
    no_zero_before(data, 2, end);
    assert(text == vstd::utf8::decode_utf8(data.subrange(2, end)));
}

/// Before the first zero byte there is none.
proof fn no_zero_before(data: Seq<u8>, from: int, end: int)
    requires
        0 <= from,
        zero_from(data, from) == Some(end),
    ensures
        forall|i: int| from <= i < end ==> #[trigger] data[i] != 0,
    decreases data.len() - from,
{
    if data[from] != 0 {
        no_zero_before(data, from + 1, end);
    }
}

/// A packet of the guest is read from its chain: the header from the 44 bytes of the first
/// buffer, which is not writable; the data, if the header announces any, from all of the second
/// buffer, which is not writable either and has room for what is announced.
pub proof fn sent_packets_are_read_from_their_chain(
    regions: Seq<(u64, u64)>,
    head: DescriptorChain,
    log0: Seq<MemOp>,
    log1: Seq<MemOp>,
    packet: VsockPacket,
)
    requires
        packet_step(regions, head, true, log0, log1, Ok(packet)),
    ensures
        head.flags & 2 == 0,
        head.len >= 44,
        packet.hdr_addr == head.addr,
        log1.len() > log0.len(),
        log1[log0.len() as int] == (MemOp::Read {
            addr: head.addr.0,
            len: 44,
            bytes: Some(packet.hdr@),
        }),
        ({
            let h = packet.hdr@;
            let len = h[24] + 256 * h[25] + 65536 * h[26] + 16777216 * h[27];
            &&& len == 0 ==> packet.data is None && log1.len() == log0.len() + 1
            &&& len > 0 ==> {
                &&& len <= 65536
                &&& packet.data is Some && len <= packet.size()
                &&& log1.last() == (MemOp::Read {
                    addr: packet.data_addr.0,
                    len: packet.size(),
                    bytes: Some(packet.data_bytes()),
                })
                &&& exists|desc: DescriptorChain|
                    {
                        &&& #[trigger] queue::next_step(
                            regions,
                            head,
                            log1.take(log0.len() as int + 1),
                            log1.drop_last(),
                            Some(desc),
                        )
                        &&& desc.flags & 2 == 0
                        &&& packet.data_addr == desc.addr && packet.size() == desc.len
                    }
            }
        }),
{
    reveal(packet_step);
    let (mid, hdr) = choose|mid: Seq<MemOp>, hdr: Option<Seq<u8>>|
        {
            &&& #[trigger] slice_step(regions, head.addr.0, 44, log0, mid, hdr)
            &&& match hdr {
                None => log1 == mid && Ok::<VsockPacket, VsockError>(packet) == Err::<
                    VsockPacket,
                    VsockError,
                >(VsockError::GuestMemoryMmap),
                Some(bytes) => tx_body_step(regions, head, bytes, mid, log1, Ok(packet)),
            }
        };
    let h = hdr->0;
    fields_are_little_endian(h, 24);
    if get32(h, 24) > 0 {
        let (after_next, next) = choose|after_next: Seq<MemOp>, next: Option<DescriptorChain>|
            {
                &&& #[trigger] queue::next_step(regions, head, mid, after_next, next)
                &&& match next {
                    None => false,
                    Some(desc) => !desc.writable() && desc.len >= get32(h, 24) && data_step(
                        regions,
                        head,
                        h,
                        desc.addr,
                        desc.len as nat,
                        after_next,
                        log1,
                        Ok(packet),
                    ),
                }
            };
        assert(log1.drop_last() =~= after_next);
        assert(log1.take(log0.len() as int + 1) =~= mid);
        assert(log1[log0.len() as int] == mid.last());
    }
}

/// A packet for the guest gets its places from its chain: the header in the first buffer, which
/// is writable; the data behind it, if the buffer is longer and stands alone, or else in the
/// second buffer, which is writable too.
pub proof fn packets_to_fill_get_the_buffers_of_their_chain(
    regions: Seq<(u64, u64)>,
    head: DescriptorChain,
    log0: Seq<MemOp>,
    log1: Seq<MemOp>,
    packet: VsockPacket,
)
    requires
        packet_step(regions, head, false, log0, log1, Ok(packet)),
    ensures
        head.flags & 2 != 0,
        head.len >= 44,
        packet.hdr_addr == head.addr,
        packet.data is Some,
        log1[log0.len() as int] == (MemOp::Read {
            addr: head.addr.0,
            len: 44,
            bytes: Some(packet.hdr@),
        }),
        log1.last() == (MemOp::Read {
            addr: packet.data_addr.0,
            len: packet.size(),
            bytes: Some(packet.data_bytes()),
        }),
        !head.links_on() && head.len > 44 ==> packet.data_addr.0 == head.addr.0 + 44
            && packet.size() == head.len - 44,
        head.links_on() || head.len <= 44 ==> exists|desc: DescriptorChain|
            {
                &&& #[trigger] queue::next_step(
                    regions,
                    head,
                    log1.take(log0.len() as int + 1),
                    log1.drop_last(),
                    Some(desc),
                )
                &&& desc.flags & 2 != 0
                &&& packet.data_addr == desc.addr && packet.size() == desc.len
            },
{
    reveal(packet_step);
    let (mid, hdr) = choose|mid: Seq<MemOp>, hdr: Option<Seq<u8>>|
        {
            &&& #[trigger] slice_step(regions, head.addr.0, 44, log0, mid, hdr)
            &&& match hdr {
                None => log1 == mid && Ok::<VsockPacket, VsockError>(packet) == Err::<
                    VsockPacket,
                    VsockError,
                >(VsockError::GuestMemoryMmap),
                Some(bytes) => rx_body_step(regions, head, bytes, mid, log1, Ok(packet)),
            }
        };
    let h = hdr->0;
    if head.links_on() || head.len <= 44 {
        let (after_next, next) = choose|after_next: Seq<MemOp>, next: Option<DescriptorChain>|
            {
                &&& #[trigger] queue::next_step(regions, head, mid, after_next, next)
                &&& match next {
                    None => false,
                    Some(desc) => desc.writable() && data_step(
                        regions,
                        head,
                        h,
                        desc.addr,
                        desc.len as nat,
                        after_next,
                        log1,
                        Ok(packet),
                    ),
                }
            };
        assert(log1.drop_last() =~= after_next);
        assert(log1.take(log0.len() as int + 1) =~= mid);
    }
    assert(log1[log0.len() as int] == mid.last());
}

/// A chain that holds no packet is refused for what is wrong with it. A first buffer with the
/// wrong direction, or one that is too short for a header, is refused before anything is read.
pub proof fn bad_chains_are_refused(
    regions: Seq<(u64, u64)>,
    head: DescriptorChain,
    sent: bool,
    log0: Seq<MemOp>,
    log1: Seq<MemOp>,
    error: VsockError,
)
    requires
        packet_step(regions, head, sent, log0, log1, Err(error)),
    ensures
        sent && head.flags & 2 != 0 ==> error == VsockError::UnreadableDescriptor && log1 == log0,
        !sent && head.flags & 2 == 0 ==> error == VsockError::UnwritableDescriptor && log1 == log0,
        sent == (head.flags & 2 == 0) && head.len < 44 ==> error == (VsockError::HdrDescTooSmall(
            head.len,
        )) && log1 == log0,
        sent == (head.flags & 2 == 0) && head.len >= 44 ==> {
            &&& log1.len() > log0.len()
            &&& log1[log0.len() as int] matches MemOp::Read { addr, len, bytes }
            &&& addr == head.addr.0 && len == 44
            &&& bytes is None ==> error == VsockError::GuestMemoryMmap
            &&& sent ==> (bytes matches Some(h) ==> {
                let n = h[24] + 256 * h[25] + 65536 * h[26] + 16777216 * h[27];
                &&& n > 0
                &&& n > 65536 ==> error == VsockError::InvalidPktLen(n as u32)
                &&& error is InvalidPktLen ==> n > 65536
            })
            &&& !(error is HdrDescTooSmall)
            &&& sent ==> !(error is UnwritableDescriptor) && !(error is GuestMemoryBounds)
            &&& !sent ==> !(error is UnreadableDescriptor) && !(error is InvalidPktLen) && !(error
                is BufDescTooSmall)
        },
{
    reveal(packet_step);
    if sent == (head.flags & 2 == 0) && head.len >= 44 {
        let (mid, hdr) = choose|mid: Seq<MemOp>, hdr: Option<Seq<u8>>|
            {
                &&& #[trigger] slice_step(regions, head.addr.0, 44, log0, mid, hdr)
                &&& match hdr {
                    None => log1 == mid && Err::<VsockPacket, VsockError>(error) == Err::<
                        VsockPacket,
                        VsockError,
                    >(VsockError::GuestMemoryMmap),
                    Some(bytes) => if sent {
                        tx_body_step(regions, head, bytes, mid, log1, Err(error))
                    } else {
                        rx_body_step(regions, head, bytes, mid, log1, Err(error))
                    },
                }
            };
        assert(mid.is_prefix_of(log1)) by {
            if let Some(h) = hdr {
                body_goes_on(regions, head, h, sent, mid, log1, error);
            }
        }
        assert(log1[log0.len() as int] == mid[log0.len() as int]);
        if let Some(h) = hdr {
            fields_are_little_endian(h, 24);
        }
    }
}

/// What is read behind the header comes behind it.
proof fn body_goes_on(
    regions: Seq<(u64, u64)>,
    head: DescriptorChain,
    hdr: Seq<u8>,
    sent: bool,
    mid: Seq<MemOp>,
    log1: Seq<MemOp>,
    error: VsockError,
)
    requires
        sent ==> tx_body_step(regions, head, hdr, mid, log1, Err(error)),
        !sent ==> rx_body_step(regions, head, hdr, mid, log1, Err(error)),
    ensures
        mid.is_prefix_of(log1),
{
}

} // verus!
