//! Moving frames between descriptor chains and byte buffers.
use vstd::prelude::*;

use crate::byte_order;
use crate::guest_memory;
use crate::guest_memory::{GuestAddress, GuestMemory, MemOp};
use crate::queue;
use crate::queue::{DescriptorChain, Walk};

verus! {

/// Size of the header in front of every frame in a virtqueue.
pub const VIRTIO_NET_HDR_SIZE: usize = 12;

/// The most bytes of one chain that are looked at.
pub const MAX_BUFFER_SIZE: usize = 65535;

/// Index of the receive queue: what the guest gets.
pub const RX_INDEX: usize = 0;

/// Index of the transmit queue: what the guest sends.
pub const TX_INDEX: usize = 1;

/// How many bytes of descriptor `d` are taken when `off` bytes were taken before it.
pub open spec fn share(d: DescriptorChain, cap: int, off: int) -> int {
    if d.len <= cap - off {
        d.len as int
    } else {
        cap - off
    }
}

/// Whether reading `len` bytes at `d` succeeds.
pub open spec fn reaches(regions: Seq<(u64, u64)>, d: DescriptorChain, len: int) -> bool {
    guest_memory::span_mapped(regions, d.addr.0, len)
}

/// How many bytes the readable descriptors of `chain` give, `cap` at the most. One that
/// cannot be read gives none.
pub open spec fn taken(regions: Seq<(u64, u64)>, chain: Seq<DescriptorChain>, cap: int) -> int
    decreases chain.len(),
{
    if chain.len() == 0 {
        0
    } else {
        let off = taken(regions, chain.drop_last(), cap);
        let d = chain.last();
        if !d.writable() && reaches(regions, d, share(d, cap, off)) {
            off + share(d, cap, off)
        } else {
            off
        }
    }
}

/// Whether descriptor `i` of `walk` was read for its part of `data`, if it can be read.
pub open spec fn gathers_at(
    regions: Seq<(u64, u64)>,
    walk: Walk,
    cap: int,
    data: Seq<u8>,
    i: int,
) -> bool {
    let d = walk.descs[i];
    let off = taken(regions, walk.descs.take(i), cap);
    let len = share(d, cap, off);
    walk.done[i] == if d.writable() {
        walk.reached[i]
    } else {
        walk.reached[i].push(
            MemOp::Read {
                addr: d.addr.0,
                len: len as nat,
                bytes: if reaches(regions, d, len) {
                    Some(data.subrange(off, off + len))
                } else {
                    None
                },
            },
        )
    }
}

/// Whether gathering `data`, `cap` bytes at the most, from the chain that begins with `head`
/// took the log from `before` to `after`: every descriptor is read before the next is looked
/// for.
pub open spec fn gathers(
    regions: Seq<(u64, u64)>,
    head: DescriptorChain,
    cap: int,
    before: Seq<MemOp>,
    after: Seq<MemOp>,
    data: Seq<u8>,
) -> bool {
    exists|walk: Walk|
        {
            &&& #[trigger] queue::walked(regions, head, before, walk, after)
            &&& data.len() == taken(regions, walk.descs, cap)
            &&& forall|i: int|
                0 <= i < walk.descs.len() ==> #[trigger] gathers_at(regions, walk, cap, data, i)
        }
}

proof fn taken_is_bounded(regions: Seq<(u64, u64)>, chain: Seq<DescriptorChain>, cap: int)
    requires
        cap >= 0,
    ensures
        0 <= taken(regions, chain, cap) <= cap,
    decreases chain.len(),
{
    if chain.len() > 0 {
        taken_is_bounded(regions, chain.drop_last(), cap);
    }
}

/// What was gathered at a descriptor does not depend on what comes later.
proof fn gathered_stays(
    regions: Seq<(u64, u64)>,
    walk: Walk,
    longer: Walk,
    cap: int,
    data: Seq<u8>,
    more: Seq<u8>,
    i: int,
)
    requires
        cap >= 0,
        0 <= i < walk.done.len(),
        walk.done.len() <= walk.descs.len(),
        walk.done.len() <= walk.reached.len(),
        walk.descs.is_prefix_of(longer.descs),
        walk.reached.is_prefix_of(longer.reached),
        walk.done.is_prefix_of(longer.done),
        data.len() == taken(regions, walk.descs.take(walk.done.len() as int), cap),
        gathers_at(regions, walk, cap, data, i),
    ensures
        gathers_at(regions, longer, cap, data + more, i),
{
    let n = walk.done.len() as int;
    let off = taken(regions, walk.descs.take(i), cap);
    assert(walk.descs.take(i) =~= longer.descs.take(i));
    assert(longer.descs[i] == walk.descs[i]);
    assert(longer.reached[i] == walk.reached[i]);
    assert(longer.done[i] == walk.done[i]);
    taken_is_bounded(regions, walk.descs.take(i), cap);
    taken_grows(regions, walk.descs.take(n), cap, i + 1);
    assert(walk.descs.take(n).take(i + 1) =~= walk.descs.take(i + 1));
    assert(walk.descs.take(i + 1).drop_last() =~= walk.descs.take(i));
    let d = walk.descs[i];
    let len = share(d, cap, off);
    if !d.writable() && reaches(regions, d, len) {
        assert((data + more).subrange(off, off + len) =~= data.subrange(off, off + len));
    }
}

/// The first descriptors of a chain give no more than all.
proof fn taken_grows(regions: Seq<(u64, u64)>, chain: Seq<DescriptorChain>, cap: int, i: int)
    requires
        cap >= 0,
        0 <= i <= chain.len(),
    ensures
        taken(regions, chain.take(i), cap) <= taken(regions, chain, cap),
    decreases chain.len(),
{
    if i < chain.len() {
        taken_grows(regions, chain.drop_last(), cap, i);
        taken_is_bounded(regions, chain.drop_last(), cap);
        assert(chain.drop_last().take(i) =~= chain.take(i));
    } else {
        assert(chain.take(i) =~= chain);
    }
}

/// Reads the readable descriptors of the chain that begins with `head` one behind the other,
/// `cap` bytes at the most.
pub fn gather(head: DescriptorChain, mem: &mut GuestMemory, cap: usize) -> (data: Vec<u8>)
    ensures
        final(mem).regions() == old(mem).regions(),
        final(mem).backed() == old(mem).backed(),
        gathers(
            old(mem).regions(),
            head,
            cap as int,
            old(mem).log(),
            final(mem).log(),
            data@,
        ),
        data@.len() <= cap,
{
    let ghost regions = mem.regions();
    let ghost log0 = mem.log();
    let mut data: Vec<u8> = Vec::new();
    let mut d: DescriptorChain = head;
    let ghost mut walk = Walk::begin(head, log0);
    assert(walk.descs.take(0) =~= Seq::<DescriptorChain>::empty());
    loop
        invariant_except_break
            mem.regions() == regions,
            mem.backed() == old(mem).backed(),
            queue::walking(regions, head, log0, walk),
            walk.descs.last() == d,
            walk.reached.last() == mem.log(),
            data@.len() == taken(regions, walk.descs.take(walk.done.len() as int), cap as int),
            data@.len() <= cap,
            forall|i: int|
                0 <= i < walk.done.len() ==> #[trigger] gathers_at(
                    regions,
                    walk,
                    cap as int,
                    data@,
                    i,
                ),
        ensures
            mem.regions() == regions,
            mem.backed() == old(mem).backed(),
            gathers(regions, head, cap as int, log0, mem.log(), data@),
            data@.len() <= cap,
        decreases d.ttl,
    {
        let ghost n = walk.done.len() as int;
        let ghost so_far = data@;
        let ghost mut got: Seq<u8> = Seq::empty();
        if d.is_read_only() {
            let left: usize = cap - data.len();
            let len: usize = if d.len as usize <= left {
                d.len as usize
            } else {
                left
            };
            match mem.read(d.addr, len) {
                Ok(bytes) => {
                    let mut bytes = bytes;
                    proof {
                        got = bytes@;
                    }
                    data.append(&mut bytes);
                    assert(data@.subrange(so_far.len() as int, so_far.len() + len) =~= got);
                },
                Err(_) => {},
            }
        }
        let ghost worked = walk.work(mem.log());
        proof {
            assert(data@ =~= so_far + got);
            assert(walk.descs.take(n + 1).drop_last() =~= walk.descs.take(n));
            assert(walk.descs.take(n + 1).last() == d);
            assert forall|i: int| 0 <= i < worked.done.len() implies #[trigger] gathers_at(
                regions,
                worked,
                cap as int,
                data@,
                i,
            ) by {
                if i < n {
                    assert(gathers_at(regions, walk, cap as int, so_far, i));
                    gathered_stays(regions, walk, worked, cap as int, so_far, got, i);
                }
            }
        }
        let ghost done = mem.log();
        match d.next_descriptor(mem) {
            Some(next) => {
                proof {
                    let longer = worked.go_on(next, mem.log());
                    queue::walk_goes_on(regions, head, log0, walk, done, next, mem.log());
                    assert(longer.descs.take(n + 1) =~= worked.descs.take(n + 1));
                    assert forall|i: int| 0 <= i < longer.done.len() implies #[trigger] gathers_at(
                        regions,
                        longer,
                        cap as int,
                        data@,
                        i,
                    ) by {
                        assert(gathers_at(regions, worked, cap as int, data@, i));
                        gathered_stays(
                            regions,
                            worked,
                            longer,
                            cap as int,
                            data@,
                            Seq::empty(),
                            i,
                        );
                        assert(data@ + Seq::<u8>::empty() =~= data@);
                    }
                    walk = longer;
                }
                d = next;
            },
            None => {
                proof {
                    queue::walk_ends(regions, head, log0, walk, done, mem.log());
                    assert(worked.descs.take(n + 1) =~= worked.descs);
                }
                break;
            },
        }
    }
    data
}

/// The frame in the gathered bytes of a chain: what follows the header, if anything does.
pub open spec fn frame_in(data: Seq<u8>) -> Option<Seq<u8>> {
    if data.len() > VIRTIO_NET_HDR_SIZE {
        Some(data.skip(VIRTIO_NET_HDR_SIZE as int))
    } else {
        None
    }
}

/// Strips the header off the gathered bytes of a chain.
pub fn strip_header(data: Vec<u8>) -> (res: Option<Vec<u8>>)
    ensures
        match res {
            Some(frame) => frame_in(data@) == Some(frame@),
            None => frame_in(data@) is None,
        },
{
    if data.len() > VIRTIO_NET_HDR_SIZE {
        let mut data = data;
        let frame = data.split_off(VIRTIO_NET_HDR_SIZE);
        Some(frame)
    } else {
        None
    }
}

/// How many bytes of a frame of `len` bytes are placed in the writable descriptors of
/// `chain`. One that cannot be written takes none.
pub open spec fn placed(regions: Seq<(u64, u64)>, chain: Seq<DescriptorChain>, len: int) -> int
    decreases chain.len(),
{
    if chain.len() == 0 {
        0
    } else {
        let off = placed(regions, chain.drop_last(), len);
        let d = chain.last();
        if d.writable() && reaches(regions, d, share(d, len, off)) {
            off + share(d, len, off)
        } else {
            off
        }
    }
}

/// Whether descriptor `i` of `walk` was written with its part of `frame`, if it can be written.
pub open spec fn scatters_at(
    regions: Seq<(u64, u64)>,
    walk: Walk,
    frame: Seq<u8>,
    i: int,
) -> bool {
    let d = walk.descs[i];
    let off = placed(regions, walk.descs.take(i), frame.len() as int);
    let len = share(d, frame.len() as int, off);
    walk.done[i] == if d.writable() {
        walk.reached[i].push(
            MemOp::Write {
                addr: d.addr.0,
                data: frame.subrange(off, off + len),
                written: reaches(regions, d, len),
            },
        )
    } else {
        walk.reached[i]
    }
}

/// Whether spreading `frame` over the chain that begins with `head` took the log from `before`
/// to `after` and wrote `written` bytes: every descriptor is written before the next is looked
/// for.
pub open spec fn scatters(
    regions: Seq<(u64, u64)>,
    head: DescriptorChain,
    frame: Seq<u8>,
    before: Seq<MemOp>,
    after: Seq<MemOp>,
    written: int,
) -> bool {
    exists|walk: Walk|
        {
            &&& #[trigger] queue::walked(regions, head, before, walk, after)
            &&& written == placed(regions, walk.descs, frame.len() as int)
            &&& forall|i: int|
                0 <= i < walk.descs.len() ==> #[trigger] scatters_at(regions, walk, frame, i)
        }
}

/// Spreads `frame` over the writable descriptors of the chain that begins with `head` and
/// gives the number of bytes that were written.
pub fn scatter(head: DescriptorChain, mem: &mut GuestMemory, frame: &[u8]) -> (written: usize)
    ensures
        final(mem).regions() == old(mem).regions(),
        final(mem).backed() == old(mem).backed(),
        scatters(
            old(mem).regions(),
            head,
            frame@,
            old(mem).log(),
            final(mem).log(),
            written as int,
        ),
        written <= frame@.len(),
{
    let ghost regions = mem.regions();
    let ghost log0 = mem.log();
    let mut written: usize = 0;
    let mut d: DescriptorChain = head;
    let ghost mut walk = Walk::begin(head, log0);
    assert(walk.descs.take(0) =~= Seq::<DescriptorChain>::empty());
    loop
        invariant_except_break
            mem.regions() == regions,
            mem.backed() == old(mem).backed(),
            queue::walking(regions, head, log0, walk),
            walk.descs.last() == d,
            walk.reached.last() == mem.log(),
            written == placed(
                regions,
                walk.descs.take(walk.done.len() as int),
                frame@.len() as int,
            ),
            written <= frame@.len(),
            forall|i: int|
                0 <= i < walk.done.len() ==> #[trigger] scatters_at(regions, walk, frame@, i),
        ensures
            mem.regions() == regions,
            mem.backed() == old(mem).backed(),
            scatters(regions, head, frame@, log0, mem.log(), written as int),
            written <= frame@.len(),
        decreases d.ttl,
    {
        let ghost n = walk.done.len() as int;
        if d.is_write_only() {
            let left: usize = frame.len() - written;
            let len: usize = if d.len as usize <= left {
                d.len as usize
            } else {
                left
            };
            let part = vstd::slice::slice_subrange(frame, written, written + len);
            if mem.write(part, d.addr).is_ok() {
                written += len;
            }
        }
        let ghost worked = walk.work(mem.log());
        let ghost done = mem.log();
        proof {
            assert(walk.descs.take(n + 1).drop_last() =~= walk.descs.take(n));
            assert(walk.descs.take(n + 1).last() == d);
            assert forall|i: int| 0 <= i < worked.done.len() implies #[trigger] scatters_at(
                regions,
                worked,
                frame@,
                i,
            ) by {
                if i < n {
                    assert(scatters_at(regions, walk, frame@, i));
                }
            }
        }
        match d.next_descriptor(mem) {
            Some(next) => {
                proof {
                    let longer = worked.go_on(next, mem.log());
                    queue::walk_goes_on(regions, head, log0, walk, done, next, mem.log());
                    assert(longer.descs.take(n + 1) =~= worked.descs.take(n + 1));
                    assert forall|i: int| 0 <= i < longer.done.len() implies #[trigger] scatters_at(
                        regions,
                        longer,
                        frame@,
                        i,
                    ) by {
                        assert(scatters_at(regions, worked, frame@, i));
                        assert(longer.descs.take(i) =~= worked.descs.take(i));
                    }
                    walk = longer;
                }
                d = next;
            },
            None => {
                proof {
                    queue::walk_ends(regions, head, log0, walk, done, mem.log());
                    assert(worked.descs.take(n + 1) =~= worked.descs);
                }
                break;
            },
        }
    }
    written
}

/// The smaller of two numbers.
pub open spec fn lesser(a: int, b: int) -> int {
    if a <= b {
        a
    } else {
        b
    }
}

/// How many bytes of header and packet are accounted for in the writable descriptors of
/// `chain`, whether or not they could be written.
pub open spec fn filled(chain: Seq<DescriptorChain>, packet_len: int) -> int
    decreases chain.len(),
{
    if chain.len() == 0 {
        0
    } else {
        let off = filled(chain.drop_last(), packet_len);
        let d = chain.last();
        if d.writable() {
            off + lesser(VIRTIO_NET_HDR_SIZE + packet_len - off, d.len as int)
        } else {
            off
        }
    }
}

/// A write of `data` to `addr`; none where the address overflows.
pub open spec fn write_at(regions: Seq<(u64, u64)>, addr: int, data: Seq<u8>) -> Seq<MemOp> {
    if addr <= u64::MAX {
        seq![
            MemOp::Write {
                addr: addr as u64,
                data,
                written: guest_memory::span_mapped(regions, addr as u64, data.len() as int),
            },
        ]
    } else {
        Seq::empty()
    }
}

/// The writes to one descriptor when `off` bytes are accounted for before it: what is left
/// of the header, and behind it what fits of the packet; or the next part of the packet.
pub open spec fn fill_one(
    regions: Seq<(u64, u64)>,
    d: DescriptorChain,
    off: int,
    packet: Seq<u8>,
) -> Seq<MemOp> {
    if off < VIRTIO_NET_HDR_SIZE {
        let hdr = lesser(VIRTIO_NET_HDR_SIZE - off, d.len as int);
        let header = write_at(regions, d.addr.0 as int, byte_order::zeros(hdr as nat));
        if hdr < d.len {
            header + write_at(
                regions,
                d.addr.0 + hdr,
                packet.take(lesser(packet.len() as int, d.len - hdr)),
            )
        } else {
            header
        }
    } else {
        let from = off - VIRTIO_NET_HDR_SIZE;
        let len = lesser(packet.len() - from, d.len as int);
        if len > 0 {
            write_at(regions, d.addr.0 as int, packet.subrange(from, from + len))
        } else {
            Seq::empty()
        }
    }
}

/// Whether descriptor `i` of `walk` was written with its part of header and packet, if it can
/// be written.
pub open spec fn fills_at(
    regions: Seq<(u64, u64)>,
    walk: Walk,
    packet: Seq<u8>,
    i: int,
) -> bool {
    let d = walk.descs[i];
    let off = filled(walk.descs.take(i), packet.len() as int);
    walk.done[i] == if d.writable() {
        walk.reached[i] + fill_one(regions, d, off, packet)
    } else {
        walk.reached[i]
    }
}

/// Whether spreading a header of zeros and `packet` over the chain that begins with `head` took
/// the log from `before` to `after`, and `written` bytes are to be reported: every descriptor
/// is written before the next is looked for.
pub open spec fn fills(
    regions: Seq<(u64, u64)>,
    head: DescriptorChain,
    packet: Seq<u8>,
    before: Seq<MemOp>,
    after: Seq<MemOp>,
    written: int,
) -> bool {
    exists|walk: Walk|
        {
            &&& #[trigger] queue::walked(regions, head, before, walk, after)
            &&& written == filled(walk.descs, packet.len() as int)
            &&& forall|i: int|
                0 <= i < walk.descs.len() ==> #[trigger] fills_at(regions, walk, packet, i)
        }
}

/// The number of bytes reported to the driver is the size of header and packet, or that of
/// all the writable descriptors together where those are smaller.
pub proof fn filled_is_what_fits(chain: Seq<DescriptorChain>, packet_len: int)
    requires
        packet_len >= 0,
    ensures
        filled(chain, packet_len) == lesser(
            VIRTIO_NET_HDR_SIZE + packet_len,
            writable_room(chain),
        ),
        writable_room(chain) >= 0,
    decreases chain.len(),
{
    if chain.len() > 0 {
        filled_is_what_fits(chain.drop_last(), packet_len);
    }
}

/// The size of all the writable descriptors of `chain` together.
pub open spec fn writable_room(chain: Seq<DescriptorChain>) -> int
    decreases chain.len(),
{
    if chain.len() == 0 {
        0
    } else {
        writable_room(chain.drop_last()) + if chain.last().writable() {
            chain.last().len as int
        } else {
            0
        }
    }
}

fn write_data(mem: &mut GuestMemory, addr: GuestAddress, offset: u64, data: &[u8])
    ensures
        final(mem).regions() == old(mem).regions(),
        final(mem).backed() == old(mem).backed(),
        final(mem).log() == old(mem).log() + write_at(
            old(mem).regions(),
            addr.0 + offset,
            data@,
        ),
{
    match addr.checked_add(offset) {
        Some(at) => {
            let ghost log0 = mem.log();
            let _ = mem.write(data, at);
            proof {
                assert(mem.log() =~= log0 + write_at(mem.regions(), addr.0 + offset, data@));
            }
        },
        None => {
            proof {
                assert(mem.log() =~= mem.log() + Seq::<MemOp>::empty());
            }
        },
    }
}

/// Writes what belongs of a header of zeros and `packet` to the descriptor `d` when `written`
/// bytes are accounted for before it, and gives how many are behind it.
fn fill_descriptor(
    d: DescriptorChain,
    mem: &mut GuestMemory,
    packet: &[u8],
    written: usize,
) -> (res: usize)
    requires
        packet@.len() + VIRTIO_NET_HDR_SIZE <= usize::MAX,
        written <= VIRTIO_NET_HDR_SIZE + packet@.len(),
    ensures
        final(mem).regions() == old(mem).regions(),
        final(mem).backed() == old(mem).backed(),
        final(mem).log() == old(mem).log() + fill_one(
            old(mem).regions(),
            d,
            written as int,
            packet@,
        ),
        res == written + lesser(VIRTIO_NET_HDR_SIZE + packet@.len() - written, d.len as int),
{
    let ghost log0 = mem.log();
    let ghost regions = mem.regions();
    let header: [u8; 12] = [0, 0, 0, 0, 0, 0, 0, 0, 0, 0, 0, 0];
    assert(header@ =~= byte_order::zeros(12));
    let available: usize = d.len as usize;
    let res: usize = if written < VIRTIO_NET_HDR_SIZE {
        let hdr_remaining: usize = VIRTIO_NET_HDR_SIZE - written;
        let hdr_write: usize = if hdr_remaining <= available {
            hdr_remaining
        } else {
            available
        };
        let head = vstd::slice::slice_subrange(header.as_slice(), written, written + hdr_write);
        assert(head@ =~= byte_order::zeros(hdr_write as nat));
        write_data(mem, d.addr, 0, head);
        if hdr_write < available {
            let room: usize = available - hdr_write;
            let pkt_write: usize = if packet.len() <= room {
                packet.len()
            } else {
                room
            };
            let part = vstd::slice::slice_subrange(packet, 0, pkt_write);
            assert(part@ =~= packet@.take(pkt_write as int));
            write_data(mem, d.addr, hdr_write as u64, part);
            VIRTIO_NET_HDR_SIZE + pkt_write
        } else {
            written + hdr_write
        }
    } else {
        let pkt_offset: usize = written - VIRTIO_NET_HDR_SIZE;
        let pkt_remaining: usize = packet.len() - pkt_offset;
        let pkt_write: usize = if pkt_remaining <= available {
            pkt_remaining
        } else {
            available
        };
        if pkt_write > 0 {
            let part = vstd::slice::slice_subrange(packet, pkt_offset, pkt_offset + pkt_write);
            write_data(mem, d.addr, 0, part);
        }
        written + pkt_write
    };
    assert(mem.log() =~= log0 + fill_one(regions, d, written as int, packet@));
    res
}

/// Writes a header of zeros and `packet` to the writable descriptors of the chain that begins
/// with `head`, and gives the number of bytes to report to the driver.
pub fn fill(head: DescriptorChain, mem: &mut GuestMemory, packet: &[u8]) -> (written: usize)
    requires
        packet@.len() + VIRTIO_NET_HDR_SIZE <= usize::MAX,
    ensures
        final(mem).regions() == old(mem).regions(),
        final(mem).backed() == old(mem).backed(),
        fills(
            old(mem).regions(),
            head,
            packet@,
            old(mem).log(),
            final(mem).log(),
            written as int,
        ),
{
    let ghost regions = mem.regions();
    let ghost log0 = mem.log();
    let mut written: usize = 0;
    let mut d: DescriptorChain = head;
    let ghost mut walk = Walk::begin(head, log0);
    assert(walk.descs.take(0) =~= Seq::<DescriptorChain>::empty());
    loop
        invariant_except_break
            mem.regions() == regions,
            mem.backed() == old(mem).backed(),
            packet@.len() + VIRTIO_NET_HDR_SIZE <= usize::MAX,
            queue::walking(regions, head, log0, walk),
            walk.descs.last() == d,
            walk.reached.last() == mem.log(),
            written == filled(walk.descs.take(walk.done.len() as int), packet@.len() as int),
            written <= VIRTIO_NET_HDR_SIZE + packet@.len(),
            forall|i: int|
                0 <= i < walk.done.len() ==> #[trigger] fills_at(regions, walk, packet@, i),
        ensures
            mem.regions() == regions,
            mem.backed() == old(mem).backed(),
            fills(regions, head, packet@, log0, mem.log(), written as int),
        decreases d.ttl,
    {
        let ghost n = walk.done.len() as int;
        if d.is_write_only() {
            written = fill_descriptor(d, mem, packet, written);
        }
        let ghost worked = walk.work(mem.log());
        let ghost done = mem.log();
        proof {
            assert(walk.descs.take(n + 1).drop_last() =~= walk.descs.take(n));
            assert(walk.descs.take(n + 1).last() == d);
            assert forall|i: int| 0 <= i < worked.done.len() implies #[trigger] fills_at(
                regions,
                worked,
                packet@,
                i,
            ) by {
                if i < n {
                    assert(fills_at(regions, walk, packet@, i));
                }
            }
        }
        match d.next_descriptor(mem) {
            Some(next) => {
                proof {
                    let longer = worked.go_on(next, mem.log());
                    queue::walk_goes_on(regions, head, log0, walk, done, next, mem.log());
                    assert(longer.descs.take(n + 1) =~= worked.descs.take(n + 1));
                    assert forall|i: int| 0 <= i < longer.done.len() implies #[trigger] fills_at(
                        regions,
                        longer,
                        packet@,
                        i,
                    ) by {
                        assert(fills_at(regions, worked, packet@, i));
                        assert(longer.descs.take(i) =~= worked.descs.take(i));
                    }
                    walk = longer;
                }
                d = next;
            },
            None => {
                proof {
                    queue::walk_ends(regions, head, log0, walk, done, mem.log());
                    assert(worked.descs.take(n + 1) =~= worked.descs);
                }
                break;
            },
        }
    }
    written
}

/// The bytes of the writes among `ops`, one behind the other.
pub open spec fn poured(ops: Seq<MemOp>) -> Seq<u8>
    decreases ops.len(),
{
    if ops.len() == 0 {
        Seq::empty()
    } else {
        poured(ops.drop_last()) + match ops.last() {
            MemOp::Write { data, .. } => data,
            _ => Seq::empty(),
        }
    }
}

/// What was done at descriptor `i` of a walk.
pub open spec fn deeds(walk: Walk, i: int) -> Seq<MemOp> {
    walk.done[i].skip(walk.reached[i].len() as int)
}

/// The bytes that were written at the first `n` descriptors of a walk, one behind the other.
pub open spec fn poured_out(walk: Walk, n: int) -> Seq<u8>
    decreases n,
{
    if n <= 0 {
        Seq::empty()
    } else {
        poured_out(walk, n - 1) + poured(deeds(walk, n - 1))
    }
}

/// Whether the writes `ops` lie one behind the other from `addr` on.
pub open spec fn side_by_side(ops: Seq<MemOp>, addr: int) -> bool {
    forall|k: int|
        0 <= k < ops.len() ==> (#[trigger] ops[k] matches MemOp::Write { addr: at, .. } && at == addr
            + poured(ops.take(k)).len())
}

/// What is written to one descriptor.
proof fn poured_into_one(
    regions: Seq<(u64, u64)>,
    d: DescriptorChain,
    off: int,
    packet: Seq<u8>,
    stream: Seq<u8>,
)
    requires
        d.addr.0 + d.len <= u64::MAX,
        stream == byte_order::zeros(12) + packet,
        0 <= off <= stream.len(),
    ensures
        side_by_side(fill_one(regions, d, off, packet), d.addr.0 as int),
        poured(fill_one(regions, d, off, packet)) == stream.subrange(
            off,
            off + lesser(stream.len() - off, d.len as int),
        ),
{
    let ops = fill_one(regions, d, off, packet);
    reveal_with_fuel(poured, 3);
    assert(ops.len() <= 2);
    if ops.len() == 2 {
        assert(ops.drop_last() =~= seq![ops[0]]);
        assert(ops.take(1) =~= seq![ops[0]]);
        assert(seq![ops[0]].drop_last() =~= Seq::<MemOp>::empty());
    }
    if ops.len() == 1 {
        assert(ops.drop_last() =~= Seq::<MemOp>::empty());
    }
    if ops.len() > 0 {
        assert(ops.take(0) =~= Seq::<MemOp>::empty());
    }
    assert(poured(ops) =~= stream.subrange(off, off + lesser(stream.len() - off, d.len as int)));
}

/// Whether buffer `i` of a walk was filled from its start with what is left of `total` bytes, as
/// far as it has room, if it is writable; otherwise nothing was done there.
pub open spec fn fills_up(walk: Walk, total: int, i: int) -> bool {
    let d = walk.descs[i];
    let left = total - poured_out(walk, i).len();
    &&& walk.reached[i].is_prefix_of(walk.done[i])
    &&& d.flags / 2 % 2 == 0 ==> walk.done[i] == walk.reached[i]
    &&& d.flags / 2 % 2 == 1 ==> {
        &&& side_by_side(deeds(walk, i), d.addr.0 as int)
        &&& poured(deeds(walk, i)).len() == if d.len <= left {
            d.len as int
        } else {
            left
        }
    }
}

/// A packet reaches the guest in order: what is written to the writable buffers of the chain, one
/// behind the other, is a header of twelve zeros and the packet behind it, as much of it as is
/// reported. Each buffer is filled from its start, one behind the other, before the next one
/// gets anything, and the buffers that are not writable get nothing.
pub proof fn packets_arrive_in_order(
    regions: Seq<(u64, u64)>,
    head: DescriptorChain,
    packet: Seq<u8>,
    before: Seq<MemOp>,
    after: Seq<MemOp>,
    written: int,
    walk: Walk,
)
    requires
        queue::walked(regions, head, before, walk, after),
        written == filled(walk.descs, packet.len() as int),
        forall|i: int|
            0 <= i < walk.descs.len() ==> #[trigger] fills_at(regions, walk, packet, i),
        forall|i: int|
            0 <= i < walk.descs.len() && (#[trigger] walk.descs[i]).flags / 2 % 2 == 1
                ==> walk.descs[i].addr.0 + walk.descs[i].len <= u64::MAX,
    ensures
        fills(regions, head, packet, before, after, written),
        written <= 12 + packet.len(),
        poured_out(walk, walk.descs.len() as int) == (byte_order::zeros(12) + packet).take(written),
        forall|i: int|
            0 <= i < walk.descs.len() ==> #[trigger] fills_up(walk, 12 + packet.len() as int, i),
{
    let stream = byte_order::zeros(12) + packet;
    let n = walk.descs.len() as int;
    packet_is_poured(regions, packet, walk, n);
    assert(walk.descs.take(n) =~= walk.descs);
    filled_is_what_fits(walk.descs, packet.len() as int);
    assert forall|i: int| 0 <= i < n implies #[trigger] fills_up(
        walk,
        12 + packet.len() as int,
        i,
    ) by {
        let d = walk.descs[i];
        queue::read_and_write_exclude(d);
        assert(fills_at(regions, walk, packet, i));
        packet_is_poured(regions, packet, walk, i);
        filled_is_what_fits(walk.descs.take(i), packet.len() as int);
        let off = filled(walk.descs.take(i), packet.len() as int);
        if d.writable() {
            let ops = fill_one(regions, d, off, packet);
            poured_into_one(regions, d, off, packet, stream);
            assert(deeds(walk, i) =~= ops);
        }
    }
}

/// What was written at the first `n` descriptors.
proof fn packet_is_poured(regions: Seq<(u64, u64)>, packet: Seq<u8>, walk: Walk, n: int)
    requires
        0 <= n <= walk.descs.len(),
        forall|i: int|
            0 <= i < walk.descs.len() ==> #[trigger] fills_at(regions, walk, packet, i),
        forall|i: int|
            0 <= i < walk.descs.len() && (#[trigger] walk.descs[i]).flags / 2 % 2 == 1
                ==> walk.descs[i].addr.0 + walk.descs[i].len <= u64::MAX,
    ensures
        0 <= filled(walk.descs.take(n), packet.len() as int) <= 12 + packet.len(),
        poured_out(walk, n) == (byte_order::zeros(12) + packet).take(
            filled(walk.descs.take(n), packet.len() as int),
        ),
    decreases n,
{
    let stream = byte_order::zeros(12) + packet;
    filled_is_what_fits(walk.descs.take(n), packet.len() as int);
    if n > 0 {
        packet_is_poured(regions, packet, walk, n - 1);
        filled_is_what_fits(walk.descs.take(n - 1), packet.len() as int);
        let d = walk.descs[n - 1];
        let off = filled(walk.descs.take(n - 1), packet.len() as int);
        assert(walk.descs.take(n).drop_last() =~= walk.descs.take(n - 1));
        assert(fills_at(regions, walk, packet, n - 1));
        queue::read_and_write_exclude(d);
        if d.writable() {
            poured_into_one(regions, d, off, packet, stream);
            assert(deeds(walk, n - 1) =~= fill_one(regions, d, off, packet));
        } else {
            assert(deeds(walk, n - 1) =~= Seq::<MemOp>::empty());
        }
    }
    assert(poured_out(walk, n) =~= stream.take(filled(walk.descs.take(n), packet.len() as int)));
}

/// The bytes that the accesses `ops` moved: those of the writes that were carried out and of the
/// reads that gave something, one behind the other.
pub open spec fn moved(ops: Seq<MemOp>) -> Seq<u8>
    decreases ops.len(),
{
    if ops.len() == 0 {
        Seq::empty()
    } else {
        moved(ops.drop_last()) + match ops.last() {
            MemOp::Write { data, written: true, .. } => data,
            MemOp::Read { bytes: Some(data), .. } => data,
            _ => Seq::empty(),
        }
    }
}

/// The bytes that were moved at the first `n` descriptors of a walk, one behind the other.
pub open spec fn moved_at(walk: Walk, n: int) -> Seq<u8>
    decreases n,
{
    if n <= 0 {
        Seq::empty()
    } else {
        moved_at(walk, n - 1) + moved(deeds(walk, n - 1))
    }
}

/// A chain that is sent gives its bytes in order: `data` is what its readable buffers gave, one
/// behind the other, from the start of each and all of it up to the most that is taken. The
/// buffers that are writable are not read.
pub proof fn chains_are_read_in_order(
    regions: Seq<(u64, u64)>,
    head: DescriptorChain,
    cap: int,
    before: Seq<MemOp>,
    after: Seq<MemOp>,
    data: Seq<u8>,
    walk: Walk,
)
    requires
        cap >= 0,
        queue::walked(regions, head, before, walk, after),
        data.len() == taken(regions, walk.descs, cap),
        forall|i: int|
            0 <= i < walk.descs.len() ==> #[trigger] gathers_at(regions, walk, cap, data, i),
    ensures
        gathers(regions, head, cap, before, after, data),
        moved_at(walk, walk.descs.len() as int) == data,
        forall|i: int|
            0 <= i < walk.descs.len() ==> {
                let d = #[trigger] walk.descs[i];
                let room = cap - moved_at(walk, i).len();
                let wanted = if d.len <= room {
                    d.len as int
                } else {
                    room
                };
                &&& d.flags / 2 % 2 == 1 ==> walk.done[i] == walk.reached[i]
                &&& d.flags / 2 % 2 == 0 ==> {
                    &&& walk.done[i].len() == walk.reached[i].len() + 1
                    &&& walk.done[i].last() matches MemOp::Read { addr, len, bytes }
                    &&& addr == d.addr.0 && len == wanted
                    &&& bytes is Some <==> guest_memory::span_mapped(regions, d.addr.0, wanted)
                }
            },
{
    let n = walk.descs.len() as int;
    chain_is_moved(regions, cap, data, walk, n);
    assert(walk.descs.take(n) =~= walk.descs);
    assert(data.take(data.len() as int) =~= data);
    assert forall|i: int| 0 <= i < n implies {
        let d = #[trigger] walk.descs[i];
        let room = cap - moved_at(walk, i).len();
        let wanted = if d.len <= room {
            d.len as int
        } else {
            room
        };
        &&& d.flags / 2 % 2 == 1 ==> walk.done[i] == walk.reached[i]
        &&& d.flags / 2 % 2 == 0 ==> {
            &&& walk.done[i].len() == walk.reached[i].len() + 1
            &&& walk.done[i].last() matches MemOp::Read { addr, len, bytes }
            &&& addr == d.addr.0 && len == wanted
            &&& bytes is Some <==> guest_memory::span_mapped(regions, d.addr.0, wanted)
        }
    } by {
        let d = walk.descs[i];
        queue::read_and_write_exclude(d);
        assert(gathers_at(regions, walk, cap, data, i));
        chain_is_moved(regions, cap, data, walk, i);
        taken_is_bounded(regions, walk.descs.take(i), cap);
    }
}

/// What was read at the first `n` descriptors.
proof fn chain_is_moved(regions: Seq<(u64, u64)>, cap: int, data: Seq<u8>, walk: Walk, n: int)
    requires
        cap >= 0,
        0 <= n <= walk.descs.len(),
        data.len() == taken(regions, walk.descs, cap),
        forall|i: int|
            0 <= i < walk.descs.len() ==> #[trigger] gathers_at(regions, walk, cap, data, i),
    ensures
        0 <= taken(regions, walk.descs.take(n), cap) <= data.len(),
        moved_at(walk, n) == data.take(taken(regions, walk.descs.take(n), cap)),
    decreases n,
{
    taken_is_bounded(regions, walk.descs.take(n), cap);
    taken_grows(regions, walk.descs, cap, n);
    let upto = taken(regions, walk.descs.take(n), cap);
    if n > 0 {
        chain_is_moved(regions, cap, data, walk, n - 1);
        let d = walk.descs[n - 1];
        let off = taken(regions, walk.descs.take(n - 1), cap);
        assert(walk.descs.take(n).drop_last() =~= walk.descs.take(n - 1));
        assert(walk.descs.take(n).last() == d);
        taken_is_bounded(regions, walk.descs.take(n - 1), cap);
        assert(gathers_at(regions, walk, cap, data, n - 1));
        let ops = deeds(walk, n - 1);
        reveal_with_fuel(moved, 2);
        if d.writable() {
            assert(ops =~= Seq::<MemOp>::empty());
        } else {
            let len = share(d, cap, off);
            assert(ops =~= seq![walk.done[n - 1].last()]);
            assert(ops.drop_last() =~= Seq::<MemOp>::empty());
            if reaches(regions, d, len) {
                assert(upto == off + len);
                assert(off + len <= data.len());
                assert(moved(ops) =~= data.subrange(off, off + len));
            } else {
                assert(moved(ops) =~= Seq::<u8>::empty());
            }
        }
        assert(moved_at(walk, n) =~= data.take(off) + moved(ops));
        assert(moved_at(walk, n) =~= data.take(upto));
    } else {
        assert(moved_at(walk, n) =~= data.take(upto));
    }
}

/// A frame that is spread over a chain arrives in order: what could be written to its writable
/// buffers, one behind the other, is the beginning of the frame, as much as is reported. Each
/// buffer is offered all of the rest that it takes, from its start. The buffers that are not
/// writable get nothing.
pub proof fn frames_arrive_in_order(
    regions: Seq<(u64, u64)>,
    head: DescriptorChain,
    frame: Seq<u8>,
    before: Seq<MemOp>,
    after: Seq<MemOp>,
    written: int,
    walk: Walk,
)
    requires
        queue::walked(regions, head, before, walk, after),
        written == placed(regions, walk.descs, frame.len() as int),
        forall|i: int|
            0 <= i < walk.descs.len() ==> #[trigger] scatters_at(regions, walk, frame, i),
    ensures
        scatters(regions, head, frame, before, after, written),
        0 <= written <= frame.len(),
        moved_at(walk, walk.descs.len() as int) == frame.take(written),
        forall|i: int|
            0 <= i < walk.descs.len() ==> {
                let d = #[trigger] walk.descs[i];
                let room = frame.len() - moved_at(walk, i).len();
                let wanted = if d.len <= room {
                    d.len as int
                } else {
                    room
                };
                &&& d.flags / 2 % 2 == 0 ==> walk.done[i] == walk.reached[i]
                &&& d.flags / 2 % 2 == 1 ==> {
                    &&& walk.done[i].len() == walk.reached[i].len() + 1
                    &&& walk.done[i].last() matches MemOp::Write { addr, data, written: stored }
                    &&& addr == d.addr.0 && data.len() == wanted
                    &&& stored == guest_memory::span_mapped(regions, d.addr.0, wanted)
                }
            },
{
    let n = walk.descs.len() as int;
    frame_is_moved(regions, frame, walk, n);
    assert(walk.descs.take(n) =~= walk.descs);
    assert forall|i: int| 0 <= i < n implies {
        let d = #[trigger] walk.descs[i];
        let room = frame.len() - moved_at(walk, i).len();
        let wanted = if d.len <= room {
            d.len as int
        } else {
            room
        };
        &&& d.flags / 2 % 2 == 0 ==> walk.done[i] == walk.reached[i]
        &&& d.flags / 2 % 2 == 1 ==> {
            &&& walk.done[i].len() == walk.reached[i].len() + 1
            &&& walk.done[i].last() matches MemOp::Write { addr, data, written: stored }
            &&& addr == d.addr.0 && data.len() == wanted
            &&& stored == guest_memory::span_mapped(regions, d.addr.0, wanted)
        }
    } by {
        queue::read_and_write_exclude(walk.descs[i]);
        assert(scatters_at(regions, walk, frame, i));
        frame_is_moved(regions, frame, walk, i);
    }
}

/// What was written at the first `n` descriptors.
proof fn frame_is_moved(regions: Seq<(u64, u64)>, frame: Seq<u8>, walk: Walk, n: int)
    requires
        0 <= n <= walk.descs.len(),
        forall|i: int|
            0 <= i < walk.descs.len() ==> #[trigger] scatters_at(regions, walk, frame, i),
    ensures
        0 <= placed(regions, walk.descs.take(n), frame.len() as int) <= frame.len(),
        moved_at(walk, n) == frame.take(placed(regions, walk.descs.take(n), frame.len() as int)),
    decreases n,
{
    let upto = placed(regions, walk.descs.take(n), frame.len() as int);
    if n > 0 {
        frame_is_moved(regions, frame, walk, n - 1);
        let d = walk.descs[n - 1];
        assert(walk.descs.take(n).drop_last() =~= walk.descs.take(n - 1));
        assert(scatters_at(regions, walk, frame, n - 1));
        let ops = deeds(walk, n - 1);
        reveal_with_fuel(moved, 2);
        if d.writable() {
            assert(ops =~= seq![walk.done[n - 1].last()]);
            assert(ops.drop_last() =~= Seq::<MemOp>::empty());
        } else {
            assert(ops =~= Seq::<MemOp>::empty());
        }
    }
    assert(moved_at(walk, n) =~= frame.take(upto));
}

/// A frame is what stands behind the twelve bytes of its header; there is none where nothing
/// does.
pub proof fn frames_follow_their_header(header: Seq<u8>, frame: Seq<u8>)
    requires
        header.len() == 12,
    ensures
        frame.len() > 0 ==> frame_in(header + frame) == Some(frame),
        frame_in(header) is None,
        forall|k: int| 0 <= k <= 12 ==> frame_in(#[trigger] header.take(k)) is None,
{
    assert((header + frame).skip(12) =~= frame);
}

/// What one part of a walk read: nothing of a buffer for writing, and as much of another as there
/// is room for.
pub open spec fn reads_up(regions: Seq<(u64, u64)>, walk: Walk, cap: int, i: int) -> bool {
    let d = walk.descs[i];
    let room = cap - moved_at(walk, i).len();
    let wanted = if d.len <= room {
        d.len as int
    } else {
        room
    };
    &&& d.flags / 2 % 2 == 1 ==> walk.done[i] == walk.reached[i]
    &&& d.flags / 2 % 2 == 0 ==> {
        &&& walk.done[i].len() == walk.reached[i].len() + 1
        &&& walk.done[i].last() matches MemOp::Read { addr, len, bytes }
        &&& addr == d.addr.0 && len == wanted
        &&& bytes is Some <==> guest_memory::span_mapped(regions, d.addr.0, wanted)
    }
}

/// What is gathered from a chain is everything that was read on a walk along it, one buffer after
/// the other.
pub proof fn chains_are_gathered_in_order(
    regions: Seq<(u64, u64)>,
    head: DescriptorChain,
    cap: int,
    before: Seq<MemOp>,
    after: Seq<MemOp>,
    data: Seq<u8>,
)
    requires
        cap >= 0,
        gathers(regions, head, cap, before, after, data),
    ensures
        exists|walk: Walk|
            {
                &&& #[trigger] queue::walked(regions, head, before, walk, after)
                &&& moved_at(walk, walk.descs.len() as int) == data
                &&& forall|i: int|
                    0 <= i < walk.descs.len() ==> #[trigger] reads_up(regions, walk, cap, i)
            },
{
    let walk = choose|walk: Walk|
        {
            &&& #[trigger] queue::walked(regions, head, before, walk, after)
            &&& data.len() == taken(regions, walk.descs, cap)
            &&& forall|i: int|
                0 <= i < walk.descs.len() ==> #[trigger] gathers_at(regions, walk, cap, data, i)
        };
    chains_are_read_in_order(regions, head, cap, before, after, data, walk);
    assert forall|i: int| 0 <= i < walk.descs.len() implies #[trigger] reads_up(
        regions,
        walk,
        cap,
        i,
    ) by {
        let d = walk.descs[i];
    }
}

/// What one part of a walk wrote: nothing to a buffer for reading, and as much to another as is
/// left.
pub open spec fn writes_up(regions: Seq<(u64, u64)>, walk: Walk, total: int, i: int) -> bool {
    let d = walk.descs[i];
    let room = total - moved_at(walk, i).len();
    let wanted = if d.len <= room {
        d.len as int
    } else {
        room
    };
    &&& d.flags / 2 % 2 == 0 ==> walk.done[i] == walk.reached[i]
    &&& d.flags / 2 % 2 == 1 ==> {
        &&& walk.done[i].len() == walk.reached[i].len() + 1
        &&& walk.done[i].last() matches MemOp::Write { addr, data, written: stored }
        &&& addr == d.addr.0 && data.len() == wanted
        &&& stored == guest_memory::span_mapped(regions, d.addr.0, wanted)
    }
}

/// What is scattered over a chain are the bytes of the frame from the first on, one buffer after
/// the other.
pub proof fn frames_are_scattered_in_order(
    regions: Seq<(u64, u64)>,
    head: DescriptorChain,
    frame: Seq<u8>,
    before: Seq<MemOp>,
    after: Seq<MemOp>,
    written: int,
)
    requires
        scatters(regions, head, frame, before, after, written),
    ensures
        0 <= written <= frame.len(),
        exists|walk: Walk|
            {
                &&& #[trigger] queue::walked(regions, head, before, walk, after)
                &&& moved_at(walk, walk.descs.len() as int) == frame.take(written)
                &&& forall|i: int|
                    0 <= i < walk.descs.len() ==> #[trigger] writes_up(
                        regions,
                        walk,
                        frame.len() as int,
                        i,
                    )
            },
{
    let walk = choose|walk: Walk|
        {
            &&& #[trigger] queue::walked(regions, head, before, walk, after)
            &&& written == placed(regions, walk.descs, frame.len() as int)
            &&& forall|i: int|
                0 <= i < walk.descs.len() ==> #[trigger] scatters_at(regions, walk, frame, i)
        };
    frames_arrive_in_order(regions, head, frame, before, after, written, walk);
    assert forall|i: int| 0 <= i < walk.descs.len() implies #[trigger] writes_up(
        regions,
        walk,
        frame.len() as int,
        i,
    ) by {
        let d = walk.descs[i];
    }
}

/// What a chain is filled with is a header of 12 zero bytes and the packet, one buffer after the
/// other, wherever no buffer goes beyond the last address.
pub proof fn packets_are_filled_in_order(
    regions: Seq<(u64, u64)>,
    head: DescriptorChain,
    packet: Seq<u8>,
    before: Seq<MemOp>,
    after: Seq<MemOp>,
    written: int,
)
    requires
        fills(regions, head, packet, before, after, written),
    ensures
        exists|walk: Walk|
            {
                &&& #[trigger] queue::walked(regions, head, before, walk, after)
                &&& (forall|i: int|
                    0 <= i < walk.descs.len() && (#[trigger] walk.descs[i]).flags / 2 % 2 == 1
                        ==> walk.descs[i].addr.0 + walk.descs[i].len <= u64::MAX) ==> {
                    &&& written <= 12 + packet.len()
                    &&& poured_out(walk, walk.descs.len() as int) == (byte_order::zeros(12)
                        + packet).take(written)
                    &&& forall|i: int|
                        0 <= i < walk.descs.len() ==> #[trigger] fills_up(
                            walk,
                            12 + packet.len() as int,
                            i,
                        )
                }
            },
{
    let walk = choose|walk: Walk|
        {
            &&& #[trigger] queue::walked(regions, head, before, walk, after)
            &&& written == filled(walk.descs, packet.len() as int)
            &&& forall|i: int|
                0 <= i < walk.descs.len() ==> #[trigger] fills_at(regions, walk, packet, i)
        };
    if forall|i: int|
        0 <= i < walk.descs.len() && (#[trigger] walk.descs[i]).flags / 2 % 2 == 1
            ==> walk.descs[i].addr.0 + walk.descs[i].len <= u64::MAX {
        packets_arrive_in_order(regions, head, packet, before, after, written, walk);
    }
}

} // verus!
