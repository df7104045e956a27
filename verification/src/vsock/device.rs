//! The socket device: packets between the queues and the sockets of the host.
use vstd::prelude::*;

use super::defs;
use super::muxer;
use super::muxer::{MuxCall, RecordedMuxer, VsockMuxer};
use super::packet;
use super::packet::{VsockError, VsockPacket};
use crate::byte_order;
use crate::byte_order::{write_le_u32, write_le_u64};
use crate::guest_memory::{GuestMemory, MemOp};
use crate::queue;
use crate::queue::{DescriptorChain, Error, Queue};
use crate::virtio_device::BadActivate;

verus! {

/// A packet in a chain that was taken from a queue.
pub struct PacketChain {
    /// The index of the chain.
    pub index: u16,
    pub packet: VsockPacket,
}

/// What looking for the next packet gave.
pub struct NextPacket {
    /// The packet, if there is one.
    pub chain: Option<PacketChain>,
    /// Whether chains were given back on the way.
    pub have_used: bool,
}

/// A queue, and the accesses to guest memory so far.
pub type At = (Queue, Seq<MemOp>);

/// How a chain without a packet is given back.
pub struct Skip {
    pub head: DescriptorChain,
    pub popped: Queue,
    pub after_pop: Seq<MemOp>,
    pub after_parse: Seq<MemOp>,
    pub error: VsockError,
    pub used: Result<(), Error>,
}

/// Whether `skip` leads from `from` to `to`: the chain is taken, holds no packet, and is
/// given back with nothing written to it.
pub open spec fn skip_step(
    regions: Seq<(u64, u64)>,
    sent: bool,
    from: At,
    skip: Skip,
    to: At,
) -> bool {
    &&& queue::pop_step(regions, from.0, from.1, skip.popped, skip.after_pop, Some(skip.head))
    &&& packet::packet_step(
        regions,
        skip.head,
        sent,
        skip.after_pop,
        skip.after_parse,
        Err(skip.error),
    )
    &&& queue::add_used_step(
        regions,
        skip.popped,
        skip.after_parse,
        to.0,
        to.1,
        skip.head.index,
        0,
        skip.used,
    )
}

/// Whether step `i` of `run` gives a chain back.
pub open spec fn skips_at(regions: Seq<(u64, u64)>, sent: bool, run: Seq<At>, i: int) -> bool {
    exists|skip: Skip| #[trigger] skip_step(regions, sent, run[i], skip, run[i + 1])
}

/// Whether `run` gives chains back from `start` on.
pub open spec fn skips_all(
    regions: Seq<(u64, u64)>,
    sent: bool,
    start: At,
    run: Seq<At>,
) -> bool {
    &&& run.len() >= 1
    &&& run[0] == start
    &&& forall|i: int| 0 <= i < run.len() - 1 ==> #[trigger] skips_at(regions, sent, run, i)
}

/// Whether `chain` is taken at `from`, which leads to `to`.
pub open spec fn takes(
    regions: Seq<(u64, u64)>,
    sent: bool,
    from: At,
    chain: PacketChain,
    to: At,
) -> bool {
    exists|head: DescriptorChain, after_pop: Seq<MemOp>|
        #[trigger] takes_by(regions, sent, from, chain, to, head, after_pop)
}

/// Whether `chain`, which begins with `head`, is taken at `from`, which leads to `to`.
pub open spec fn takes_by(
    regions: Seq<(u64, u64)>,
    sent: bool,
    from: At,
    chain: PacketChain,
    to: At,
    head: DescriptorChain,
    after_pop: Seq<MemOp>,
) -> bool {
    &&& queue::pop_step(regions, from.0, from.1, to.0, after_pop, Some(head))
    &&& packet::packet_step(regions, head, sent, after_pop, to.1, Ok(chain.packet))
    &&& chain.index == head.index
}

/// Whether looking for the next packet at `start` gave `res` and leads to `end`: chains that
/// hold no packet are given back, 2^64 - 1 of them at the most.
pub open spec fn next_packet_step(
    regions: Seq<(u64, u64)>,
    sent: bool,
    start: At,
    res: NextPacket,
    end: At,
) -> bool {
    exists|run: Seq<At>|
        {
            &&& #[trigger] skips_all(regions, sent, start, run)
            &&& res.have_used == (run.len() > 1)
            &&& match res.chain {
                Some(chain) => takes(regions, sent, run.last(), chain, end),
                None => if run.len() - 1 < u64::MAX {
                    queue::pop_step(
                        regions,
                        run.last().0,
                        run.last().1,
                        end.0,
                        end.1,
                        None,
                    )
                } else {
                    end == run.last()
                },
            }
        }
}

/// Takes the next packet from `queue`.
fn next_packet(queue: &mut Queue, sent: bool, mem: &mut GuestMemory) -> (res: NextPacket)
    requires
        old(queue).readable_in(old(mem).regions()),
    ensures
        final(mem).regions() == old(mem).regions(),
        final(mem).backed() == old(mem).backed(),
        final(queue).readable_in(final(mem).regions()),
        next_packet_step(
            old(mem).regions(),
            sent,
            (*old(queue), old(mem).log()),
            res,
            (*final(queue), final(mem).log()),
        ),
{
    let ghost regions = mem.regions();
    let ghost start = (*queue, mem.log());
    let ghost mut run: Seq<At> = seq![start];
    let mut budget: u64 = u64::MAX;
    while budget > 0
        invariant
            regions == mem.regions(),
            mem.backed() == old(mem).backed(),
            regions == old(mem).regions(),
            start == (*old(queue), old(mem).log()),
            queue.readable_in(regions),
            (*queue, mem.log()) == run.last(),
            skips_all(regions, sent, start, run),
            run.len() - 1 == u64::MAX - budget,
        decreases budget,
    {
        let ghost from = run.last();
        let head = match queue.pop(mem) {
            Some(head) => head,
            None => {
                let res = NextPacket { chain: None, have_used: budget < u64::MAX };
                assert(next_packet_step(regions, sent, start, res, (*queue, mem.log())));
                return res;
            },
        };
        let ghost popped = *queue;
        let ghost after_pop = mem.log();
        let parsed = if sent {
            VsockPacket::from_tx_virtq_head(&head, mem)
        } else {
            VsockPacket::from_rx_virtq_head(&head, mem)
        };
        let ghost after_parse = mem.log();
        assert(packet::packet_step(regions, head, sent, after_pop, after_parse, parsed));
        match parsed {
            Ok(packet) => {
                let chain = PacketChain { index: head.index, packet };
                assert(takes_by(
                    regions,
                    sent,
                    from,
                    chain,
                    (*queue, mem.log()),
                    head,
                    after_pop,
                ));
                assert(takes(regions, sent, from, chain, (*queue, mem.log())));
                let res = NextPacket { chain: Some(chain), have_used: budget < u64::MAX };
                assert(next_packet_step(regions, sent, start, res, (*queue, mem.log())));
                return res;
            },
            Err(error) => {
                let used = queue.add_used(mem, head.index, 0);
                budget -= 1;
                proof {
                    let skip = Skip { head, popped, after_pop, after_parse, error, used };
                    let to = (*queue, mem.log());
                    assert(skip_step(regions, sent, from, skip, to));
                    let longer = run.push(to);
                    assert forall|i: int| 0 <= i < longer.len() - 1 implies #[trigger] skips_at(
                        regions,
                        sent,
                        longer,
                        i,
                    ) by {
                        if i < run.len() - 1 {
                            assert(skips_at(regions, sent, run, i));
                            assert(longer[i] == run[i] && longer[i + 1] == run[i + 1]);
                        } else {
                            assert(longer[i] == from && longer[i + 1] == to);
                        }
                    }
                    run = longer;
                }
            },
        }
    }
    let res = NextPacket { chain: None, have_used: true };
    assert(next_packet_step(regions, sent, start, res, (*queue, mem.log())));
    res
}

/// The socket device. The packets of the guest and for the guest go by a multiplexer, which
/// knows the sockets of the host.
pub struct Vsock {
    pub cid: u64,
    /// The queue for received packets that is in use.
    pub queue_rx: Queue,
    /// The queue for sent packets that is in use.
    pub queue_tx: Queue,
    /// The queues as they are saved.
    pub queues: Vec<Queue>,
    pub avail_features: u64,
    pub acked_features: u64,
    pub activated: bool,
}

/// The number of bytes that are reported to the driver for a packet: header and data, modulo
/// 2^32.
pub open spec fn used_len(packet: VsockPacket) -> u32 {
    ((44 + packet::get32(packet.hdr@, 24)) % 0x1_0000_0000) as u32
}

/// One direction of the device at one moment: its queue, the accesses to guest memory, the
/// calls of the multiplexer, and whether chains were given back.
pub struct PumpState {
    pub queue: Queue,
    pub log: Seq<MemOp>,
    pub calls: Seq<MuxCall>,
    pub have_used: bool,
}

/// What happened from one packet to the next.
pub struct Exchange {
    pub next: NextPacket,
    pub mid: At,
    /// How the multiplexer left the packet that it was to fill.
    pub left: VsockPacket,
    /// What the buffers of the packet hold then.
    pub settled: VsockPacket,
    pub after_write: Seq<MemOp>,
    pub written: bool,
    pub used: Result<(), Error>,
}

/// The call by which the multiplexer gets a packet of the guest: datagrams go their own way.
pub open spec fn sent_call(packet: VsockPacket, taken: bool) -> MuxCall {
    if packet::get16(packet.hdr@, 28) == defs::VSOCK_TYPE_DGRAM {
        MuxCall::Datagram { packet, taken }
    } else {
        MuxCall::Stream { packet, taken }
    }
}

/// Whether what the multiplexer left of `given` is written to guest memory by `ex`: to the
/// buffers that the packet was made of, and nowhere else.
pub open spec fn delivers(regions: Seq<(u64, u64)>, given: VsockPacket, ex: Exchange) -> bool {
    &&& packet::is_settled(given, ex.left, ex.settled)
    &&& packet::written_back(
        regions,
        given,
        ex.settled,
        ex.mid.1,
        ex.after_write,
        ex.written,
    )
}

/// Whether `ex` leads from `s0` to `s1`: the next packet is taken, the multiplexer takes it
/// or fills it, and the chain is given back. What was filled is written to guest memory
/// before that.
pub open spec fn exchange_step(
    regions: Seq<(u64, u64)>,
    sent: bool,
    s0: PumpState,
    ex: Exchange,
    s1: PumpState,
) -> bool {
    &&& next_packet_step(regions, sent, (s0.queue, s0.log), ex.next, ex.mid)
    &&& ex.next.chain matches Some(chain)
    &&& if sent {
        &&& s1.calls == s0.calls.push(sent_call(chain.packet, true))
        &&& ex.after_write == ex.mid.1
    } else {
        &&& s1.calls == s0.calls.push(
            MuxCall::Recv { given: chain.packet, left: ex.left, filled: true },
        )
        &&& delivers(regions, chain.packet, ex)
    }
    &&& queue::add_used_step(
        regions,
        ex.mid.0,
        ex.after_write,
        s1.queue,
        s1.log,
        chain.index,
        if sent {
            0
        } else {
            used_len(ex.settled)
        },
        ex.used,
    )
    &&& s1.have_used
}

/// Whether `ex` ends the work at `s0` and leads to `s1`: there is no packet any more, or the
/// multiplexer did not take or fill it, and it is kept for later. What the multiplexer left in
/// the packet is in guest memory all the same.
pub open spec fn last_step(
    regions: Seq<(u64, u64)>,
    sent: bool,
    s0: PumpState,
    ex: Exchange,
    s1: PumpState,
) -> bool {
    &&& next_packet_step(regions, sent, (s0.queue, s0.log), ex.next, ex.mid)
    &&& s1.have_used == (s0.have_used || ex.next.have_used)
    &&& match ex.next.chain {
        None => s1.queue == ex.mid.0 && s1.calls == s0.calls && s1.log == ex.mid.1,
        Some(chain) => {
            &&& if sent {
                s1.log == ex.mid.1
            } else {
                delivers(regions, chain.packet, ex) && s1.log == ex.after_write
            }
            &&& s1.queue == (Queue {
                next_avail: queue::wrap16(ex.mid.0.next_avail - 1),
                ..ex.mid.0
            })
            &&& s1.calls == s0.calls.push(
                if sent {
                    sent_call(chain.packet, false)
                } else {
                    MuxCall::Recv { given: chain.packet, left: ex.left, filled: false }
                },
            )
        },
    }
}

/// Whether step `i` of `run` exchanges a packet.
pub open spec fn exchanges_at(
    regions: Seq<(u64, u64)>,
    sent: bool,
    run: Seq<PumpState>,
    i: int,
) -> bool {
    exists|ex: Exchange| #[trigger] exchange_step(regions, sent, run[i], ex, run[i + 1])
}

/// Whether `run` exchanges one packet after the other from `start` on.
pub open spec fn exchanges_all(
    regions: Seq<(u64, u64)>,
    sent: bool,
    start: PumpState,
    run: Seq<PumpState>,
) -> bool {
    &&& run.len() >= 1
    &&& run[0] == start
    &&& forall|i: int| 0 <= i < run.len() - 1 ==> #[trigger] exchanges_at(regions, sent, run, i)
}

/// Whether the work ends at `s0`, which leads to `s1`.
pub open spec fn ends(
    regions: Seq<(u64, u64)>,
    sent: bool,
    s0: PumpState,
    s1: PumpState,
) -> bool {
    exists|ex: Exchange| #[trigger] last_step(regions, sent, s0, ex, s1)
}

/// Whether working off a queue leads from `start` to `end`: packets are exchanged until there
/// are no more or one is refused, 2^64 - 1 of them at the most.
pub open spec fn pumps(
    regions: Seq<(u64, u64)>,
    sent: bool,
    start: PumpState,
    end: PumpState,
) -> bool {
    exists|run: Seq<PumpState>|
        {
            &&& #[trigger] exchanges_all(regions, sent, start, run)
            &&& if run.len() - 1 < u64::MAX {
                ends(regions, sent, run.last(), end)
            } else {
                end == run.last()
            }
        }
}

/// A longer run of exchanges.
proof fn exchange_more(
    regions: Seq<(u64, u64)>,
    sent: bool,
    start: PumpState,
    run: Seq<PumpState>,
    ex: Exchange,
    to: PumpState,
)
    requires
        exchanges_all(regions, sent, start, run),
        exchange_step(regions, sent, run.last(), ex, to),
    ensures
        exchanges_all(regions, sent, start, run.push(to)),
{
    let longer = run.push(to);
    assert forall|i: int| 0 <= i < longer.len() - 1 implies #[trigger] exchanges_at(
        regions,
        sent,
        longer,
        i,
    ) by {
        if i < run.len() - 1 {
            assert(exchanges_at(regions, sent, run, i));
            assert(longer[i] == run[i] && longer[i + 1] == run[i + 1]);
        } else {
            assert(longer[i] == run.last() && longer[i + 1] == to);
        }
    }
}

/// How giving a packet for the guest back came out.
pub struct Delivery {
    /// Whether all that was changed could be written.
    pub written: Result<(), VsockError>,
    /// How the chain was given back, if it was.
    pub used: Option<Result<(), Error>>,
}

impl Vsock {
    /// Whether the queues for packets are there.
    pub open spec fn wf(&self) -> bool {
        self.queues@.len() >= 2
    }

    /// A device with the given queues, not active yet.
    pub fn with_queues(cid: u64, queues: Vec<Queue>) -> (res: Vsock)
        requires
            queues@.len() >= 2,
        ensures
            res == (Vsock {
                cid,
                queue_rx: queues@[0],
                queue_tx: queues@[1],
                queues,
                avail_features: defs::AVAIL_FEATURES,
                acked_features: 0,
                activated: false,
            }),
    {
        Vsock {
            cid,
            queue_rx: queues[defs::RXQ_INDEX],
            queue_tx: queues[defs::TXQ_INDEX],
            queues,
            avail_features: defs::AVAIL_FEATURES,
            acked_features: 0,
            activated: false,
        }
    }

    /// A device for the guest `cid` with empty queues, not active yet.
    pub fn new(cid: u64) -> (res: Vsock)
        ensures
            res.wf(),
            res.cid == cid,
            res.queues@ == Seq::new(
                defs::NUM_QUEUES as nat,
                |i: int| queue::empty_queue(defs::QUEUE_SIZE),
            ),
            res.queue_rx == res.queues@[0],
            res.queue_tx == res.queues@[1],
            res.avail_features == defs::AVAIL_FEATURES,
            res.acked_features == 0,
            !res.activated,
    {
        let queues = vec![
            Queue::new(defs::QUEUE_SIZE),
            Queue::new(defs::QUEUE_SIZE),
            Queue::new(defs::QUEUE_SIZE),
        ];
        Vsock::with_queues(cid, queues)
    }

    pub fn id(&self) -> (res: &'static str)
        ensures
            res@ == defs::VSOCK_DEV_ID@,
    {
        defs::VSOCK_DEV_ID
    }

    pub fn cid(&self) -> (res: u64)
        ensures
            res == self.cid,
    {
        self.cid
    }

    /// The next buffer for a packet that the guest is to receive. It is to be filled by the
    /// multiplexer, and `finish_rx` is to be told whether it was.
    fn next_rx(&mut self, mem: &mut GuestMemory) -> (res: NextPacket)
        requires
            old(self).activated,
            old(self).queue_rx.readable_in(old(mem).regions()),
        ensures
            final(mem).regions() == old(mem).regions(),
            final(mem).backed() == old(mem).backed(),
            final(self).queue_rx.readable_in(final(mem).regions()),
            *final(self) == (Vsock { queue_rx: final(self).queue_rx, ..*old(self) }),
            next_packet_step(
                old(mem).regions(),
                false,
                (old(self).queue_rx, old(mem).log()),
                res,
                (final(self).queue_rx, final(mem).log()),
            ),
    {
        next_packet(&mut self.queue_rx, false, mem)
    }

    /// Writes what the multiplexer has changed in the packet of `next_rx`, which was `given` to
    /// it, and gives the buffer to the guest, if the multiplexer has filled it. If not, the
    /// buffer is kept for later, and this round is over.
    #[verifier::rlimit(60)]
    #[verifier::spinoff_prover]
    fn finish_rx(
        &mut self,
        mem: &mut GuestMemory,
        given: &VsockPacket,
        chain: &PacketChain,
        filled: bool,
    ) -> (res: Delivery)
        ensures
            final(mem).regions() == old(mem).regions(),
            final(mem).backed() == old(mem).backed(),
            *final(self) == (Vsock { queue_rx: final(self).queue_rx, ..*old(self) }),
            res.used is Some == filled,
            exists|mid: Seq<MemOp>|
                {
                    &&& #[trigger] packet::written_back(
                        old(mem).regions(),
                        *given,
                        chain.packet,
                        old(mem).log(),
                        mid,
                        res.written is Ok,
                    )
                    &&& match res.used {
                        Some(used) => queue::add_used_step(
                            old(mem).regions(),
                            old(self).queue_rx,
                            mid,
                            final(self).queue_rx,
                            final(mem).log(),
                            chain.index,
                            used_len(chain.packet),
                            used,
                        ),
                        None => {
                            &&& final(mem).log() == mid
                            &&& final(self).queue_rx == (Queue {
                                next_avail: queue::wrap16(old(self).queue_rx.next_avail - 1),
                                ..old(self).queue_rx
                            })
                        },
                    }
                },
    {
        let ghost log0 = mem.log();
        let written = chain.packet.write_back(given, mem);
        assert(packet::written_back(
            mem.regions(),
            *given,
            chain.packet,
            log0,
            mem.log(),
            written is Ok,
        ));
        if !filled {
            self.queue_rx.undo_pop();
            return Delivery { written, used: None };
        }
        let len: u32 = chain.packet.len().wrapping_add(44);
        let used = self.queue_rx.add_used(mem, chain.index, len);
        Delivery { written, used: Some(used) }
    }

    /// Takes over the queue for received packets into the queues that are saved, at the end
    /// of a round.
    fn end_rx(&mut self)
        requires
            old(self).wf(),
        ensures
            final(self).queues@ == old(self).queues@.update(0, old(self).queue_rx),
            *final(self) == (Vsock { queues: final(self).queues, ..*old(self) }),
    {
        self.queues.set(defs::RXQ_INDEX, self.queue_rx);
    }

    /// The next packet that the guest has sent. It is for the multiplexer, and `finish_tx`
    /// is to be told whether that took it.
    fn next_tx(&mut self, mem: &mut GuestMemory) -> (res: NextPacket)
        requires
            old(self).activated,
            old(self).queue_tx.readable_in(old(mem).regions()),
        ensures
            final(mem).regions() == old(mem).regions(),
            final(mem).backed() == old(mem).backed(),
            final(self).queue_tx.readable_in(final(mem).regions()),
            *final(self) == (Vsock { queue_tx: final(self).queue_tx, ..*old(self) }),
            next_packet_step(
                old(mem).regions(),
                true,
                (old(self).queue_tx, old(mem).log()),
                res,
                (final(self).queue_tx, final(mem).log()),
            ),
    {
        next_packet(&mut self.queue_tx, true, mem)
    }

    /// Whether a sent packet is a datagram; all others belong to streams.
    pub fn is_datagram(packet: &VsockPacket) -> (res: bool)
        ensures
            res == (packet::get16(packet.hdr@, 28) == defs::VSOCK_TYPE_DGRAM),
    {
        packet.type_() == defs::VSOCK_TYPE_DGRAM
    }

    /// Gives the chain `index` of `next_tx` back, if the multiplexer has taken its packet. If
    /// not, the packet is kept for later, and this round is over.
    fn finish_tx(&mut self, mem: &mut GuestMemory, index: u16, taken: bool) -> (res: Option<
        Result<(), Error>,
    >)
        ensures
            final(mem).regions() == old(mem).regions(),
            final(mem).backed() == old(mem).backed(),
            *final(self) == (Vsock { queue_tx: final(self).queue_tx, ..*old(self) }),
            match res {
                Some(used) => {
                    &&& taken
                    &&& queue::add_used_step(
                        old(mem).regions(),
                        old(self).queue_tx,
                        old(mem).log(),
                        final(self).queue_tx,
                        final(mem).log(),
                        index,
                        0,
                        used,
                    )
                },
                None => {
                    &&& !taken
                    &&& final(mem).log() == old(mem).log()
                    &&& final(self).queue_tx == (Queue {
                        next_avail: queue::wrap16(old(self).queue_tx.next_avail - 1),
                        ..old(self).queue_tx
                    })
                },
            },
    {
        if !taken {
            self.queue_tx.undo_pop();
            return None;
        }
        Some(self.queue_tx.add_used(mem, index, 0))
    }

    /// Takes over the queue for sent packets into the queues that are saved, at the end of a
    /// round.
    fn end_tx(&mut self)
        requires
            old(self).wf(),
        ensures
            final(self).queues@ == old(self).queues@.update(1, old(self).queue_tx),
            *final(self) == (Vsock { queues: final(self).queues, ..*old(self) }),
    {
        self.queues.set(defs::TXQ_INDEX, self.queue_tx);
    }

    /// Fills the buffers for received packets with what the multiplexer has for the guest;
    /// `true` if chains were given back.
    pub fn process_stream_rx<M: VsockMuxer>(
        &mut self,
        mem: &mut GuestMemory,
        muxer: &mut RecordedMuxer<M>,
    ) -> (have_used: bool)
        requires
            old(self).wf(),
            old(self).activated,
            old(self).queue_rx.readable_in(old(mem).regions()),
        ensures
            final(mem).regions() == old(mem).regions(),
            final(mem).backed() == old(mem).backed(),
            final(self).queue_rx.readable_in(final(mem).regions()),
            final(self).queues@ == old(self).queues@.update(0, final(self).queue_rx),
            *final(self) == (Vsock {
                queue_rx: final(self).queue_rx,
                queues: final(self).queues,
                ..*old(self)
            }),
            pumps(
                old(mem).regions(),
                false,
                PumpState {
                    queue: old(self).queue_rx,
                    log: old(mem).log(),
                    calls: old(muxer).calls(),
                    have_used: false,
                },
                PumpState {
                    queue: final(self).queue_rx,
                    log: final(mem).log(),
                    calls: final(muxer).calls(),
                    have_used,
                },
            ),
    {
        let ghost regions = mem.regions();
        let ghost start = PumpState {
            queue: self.queue_rx,
            log: mem.log(),
            calls: muxer.calls(),
            have_used: false,
        };
        let ghost mut run: Seq<PumpState> = seq![start];
        let mut have_used = false;
        let mut budget: u64 = u64::MAX;
        let mut over = false;
        while budget > 0 && !over
            invariant
                regions == mem.regions(),
                mem.backed() == old(mem).backed(),
                regions == old(mem).regions(),
                self.activated,
                self.wf(),
                self.queue_rx.readable_in(regions),
                *self == (Vsock { queue_rx: self.queue_rx, ..*old(self) }),
                exchanges_all(regions, false, start, run),
                run.len() - 1 == u64::MAX - budget,
                ({
                    let now = PumpState {
                        queue: self.queue_rx,
                        log: mem.log(),
                        calls: muxer.calls(),
                        have_used,
                    };
                    if over {
                        budget > 0 && ends(regions, false, run.last(), now)
                    } else {
                        now == run.last()
                    }
                }),
            decreases
                    budget,
                    if over {
                        0int
                    } else {
                        1int
                    },
        {
            let next = self.next_rx(mem);
            let ghost found = next;
            let ghost mid = (self.queue_rx, mem.log());
            match next.chain {
                Some(chain) => {
                    let mut chain = chain;
                    let given = chain.packet.copied();
                    let filled: bool = muxer.recv_pkt(&mut chain.packet);
                    let ghost left = chain.packet;
                    chain.packet.settle(&given);
                    let ghost settled = chain.packet;
                    let delivery = self.finish_rx(mem, &given, &chain, filled);
                    let ghost after_write = choose|after_write: Seq<MemOp>|
                        {
                            &&& #[trigger] packet::written_back(
                                regions,
                                given,
                                settled,
                                mid.1,
                                after_write,
                                delivery.written is Ok,
                            )
                            &&& match delivery.used {
                                Some(used) => queue::add_used_step(
                                    regions,
                                    mid.0,
                                    after_write,
                                    self.queue_rx,
                                    mem.log(),
                                    chain.index,
                                    used_len(settled),
                                    used,
                                ),
                                None => {
                                    &&& mem.log() == after_write
                                    &&& self.queue_rx == (Queue {
                                        next_avail: queue::wrap16(mid.0.next_avail - 1),
                                        ..mid.0
                                    })
                                },
                            }
                        };
                    let ghost ex = Exchange {
                        next: found,
                        mid,
                        left,
                        settled,
                        after_write,
                        written: delivery.written is Ok,
                        used: if filled {
                            delivery.used->0
                        } else {
                            Ok(())
                        },
                    };
                    assert(delivers(regions, found.chain->0.packet, ex));
                    match delivery.used {
                        Some(_) => {
                            have_used = true;
                            budget -= 1;
                            proof {
                                let to = PumpState {
                                    queue: self.queue_rx,
                                    log: mem.log(),
                                    calls: muxer.calls(),
                                    have_used,
                                };
                                assert(exchange_step(regions, false, run.last(), ex, to));
                                exchange_more(regions, false, start, run, ex, to);
                                run = run.push(to);
                            }
                        },
                        None => {
                            have_used = have_used || next.have_used;
                            over = true;
                            proof {
                                let to = PumpState {
                                    queue: self.queue_rx,
                                    log: mem.log(),
                                    calls: muxer.calls(),
                                    have_used,
                                };
                                assert(last_step(regions, false, run.last(), ex, to));
                            }
                        },
                    }
                },
                None => {
                    have_used = have_used || next.have_used;
                    over = true;
                    proof {
                        let ex = Exchange {
                            next: found,
                            mid,
                            left: arbitrary(),
                            settled: arbitrary(),
                            after_write: mid.1,
                            written: false,
                            used: Ok(()),
                        };
                        let to = PumpState {
                            queue: self.queue_rx,
                            log: mem.log(),
                            calls: muxer.calls(),
                            have_used,
                        };
                        assert(last_step(regions, false, run.last(), ex, to));
                    }
                },
            }
        }
        self.end_rx();
        have_used
    }

    /// Hands the packets of the guest to the multiplexer; `true` if chains were given back.
    pub fn process_stream_tx<M: VsockMuxer>(
        &mut self,
        mem: &mut GuestMemory,
        muxer: &mut RecordedMuxer<M>,
    ) -> (have_used: bool)
        requires
            old(self).wf(),
            old(self).activated,
            old(self).queue_tx.readable_in(old(mem).regions()),
        ensures
            final(mem).regions() == old(mem).regions(),
            final(mem).backed() == old(mem).backed(),
            final(self).queue_tx.readable_in(final(mem).regions()),
            final(self).queues@ == old(self).queues@.update(1, final(self).queue_tx),
            *final(self) == (Vsock {
                queue_tx: final(self).queue_tx,
                queues: final(self).queues,
                ..*old(self)
            }),
            pumps(
                old(mem).regions(),
                true,
                PumpState {
                    queue: old(self).queue_tx,
                    log: old(mem).log(),
                    calls: old(muxer).calls(),
                    have_used: false,
                },
                PumpState {
                    queue: final(self).queue_tx,
                    log: final(mem).log(),
                    calls: final(muxer).calls(),
                    have_used,
                },
            ),
    {
        let ghost regions = mem.regions();
        let ghost start = PumpState {
            queue: self.queue_tx,
            log: mem.log(),
            calls: muxer.calls(),
            have_used: false,
        };
        let ghost mut run: Seq<PumpState> = seq![start];
        let mut have_used = false;
        let mut budget: u64 = u64::MAX;
        let mut over = false;
        while budget > 0 && !over
            invariant
                regions == mem.regions(),
                mem.backed() == old(mem).backed(),
                regions == old(mem).regions(),
                self.activated,
                self.wf(),
                self.queue_tx.readable_in(regions),
                *self == (Vsock { queue_tx: self.queue_tx, ..*old(self) }),
                exchanges_all(regions, true, start, run),
                run.len() - 1 == u64::MAX - budget,
                ({
                    let now = PumpState {
                        queue: self.queue_tx,
                        log: mem.log(),
                        calls: muxer.calls(),
                        have_used,
                    };
                    if over {
                        budget > 0 && ends(regions, true, run.last(), now)
                    } else {
                        now == run.last()
                    }
                }),
            decreases
                    budget,
                    if over {
                        0int
                    } else {
                        1int
                    },
        {
            let next = self.next_tx(mem);
            let ghost found = next;
            let ghost mid = (self.queue_tx, mem.log());
            match next.chain {
                Some(chain) => {
                    let taken: bool = if Vsock::is_datagram(&chain.packet) {
                        muxer.send_dgram_pkt(&chain.packet)
                    } else {
                        muxer.send_stream_pkt(&chain.packet)
                    };
                    let finished = self.finish_tx(mem, chain.index, taken);
                    match finished {
                        Some(used) => {
                            have_used = true;
                            budget -= 1;
                            proof {
                                let ex = Exchange {
                                    next: found,
                                    mid,
                                    left: chain.packet,
                                    settled: chain.packet,
                                    after_write: mid.1,
                                    written: false,
                                    used,
                                };
                                let to = PumpState {
                                    queue: self.queue_tx,
                                    log: mem.log(),
                                    calls: muxer.calls(),
                                    have_used,
                                };
                                assert(exchange_step(regions, true, run.last(), ex, to));
                                exchange_more(regions, true, start, run, ex, to);
                                run = run.push(to);
                            }
                        },
                        None => {
                            have_used = have_used || next.have_used;
                            over = true;
                            proof {
                                let ex = Exchange {
                                    next: found,
                                    mid,
                                    left: chain.packet,
                                    settled: chain.packet,
                                    after_write: mid.1,
                                    written: false,
                                    used: Ok(()),
                                };
                                let to = PumpState {
                                    queue: self.queue_tx,
                                    log: mem.log(),
                                    calls: muxer.calls(),
                                    have_used,
                                };
                                assert(last_step(regions, true, run.last(), ex, to));
                            }
                        },
                    }
                },
                None => {
                    have_used = have_used || next.have_used;
                    over = true;
                    proof {
                        let ex = Exchange {
                            next: found,
                            mid,
                            left: arbitrary(),
                            settled: arbitrary(),
                            after_write: mid.1,
                            written: false,
                            used: Ok(()),
                        };
                        let to = PumpState {
                            queue: self.queue_tx,
                            log: mem.log(),
                            calls: muxer.calls(),
                            have_used,
                        };
                        assert(last_step(regions, true, run.last(), ex, to));
                    }
                },
            }
        }
        self.end_tx();
        have_used
    }

    pub fn avail_features(&self) -> (res: u64)
        ensures
            res == self.avail_features,
    {
        self.avail_features
    }

    pub fn acked_features(&self) -> (res: u64)
        ensures
            res == self.acked_features,
    {
        self.acked_features
    }

    pub fn set_acked_features(&mut self, acked_features: u64)
        ensures
            *final(self) == (Vsock { acked_features, ..*old(self) }),
    {
        self.acked_features = acked_features;
    }

    pub fn device_type(&self) -> (res: u32)
        ensures
            res == defs::VIRTIO_ID_VSOCK,
    {
        defs::VIRTIO_ID_VSOCK
    }

    pub fn device_name(&self) -> (res: &'static str)
        ensures
            res@ == "vsock"@,
    {
        "vsock"
    }

    pub fn queues(&self) -> (res: &Vec<Queue>)
        ensures
            *res == self.queues,
    {
        &self.queues
    }

    pub fn queues_mut(&mut self) -> (res: &mut [Queue])
        ensures
            res@ == old(self).queues@,
            final(self).queues@ == final(res)@,
            *final(self) == (Vsock { queues: final(self).queues, ..*old(self) }),
    {
        self.queues.as_mut_slice()
    }

    pub fn is_activated(&self) -> (res: bool)
        ensures
            res == self.activated,
    {
        self.activated
    }

    /// Reads the configuration space, which is the guest's address: as a whole, or one of its
    /// halves. Any other read changes nothing.
    pub fn read_config(&self, offset: u64, data: &mut [u8])
        ensures
            final(data)@ == if offset == 0 && old(data)@.len() == 8 {
                byte_order::le64_bytes(self.cid)
            } else if offset == 0 && old(data)@.len() == 4 {
                byte_order::le32_bytes((self.cid % 0x1_0000_0000) as u32)
            } else if offset == 4 && old(data)@.len() == 4 {
                byte_order::le32_bytes((self.cid / 0x1_0000_0000) as u32)
            } else {
                old(data)@
            },
    {
        let len: usize = data.len();
        if offset == 0 && len == 8 {
            write_le_u64(data, self.cid);
            assert(data@ =~= byte_order::le64_bytes(self.cid));
        } else if offset == 0 && len == 4 {
            write_le_u32(data, (self.cid % 0x1_0000_0000) as u32);
            assert(data@ =~= byte_order::le32_bytes((self.cid % 0x1_0000_0000) as u32));
        } else if offset == 4 && len == 4 {
            write_le_u32(data, (self.cid / 0x1_0000_0000) as u32);
            assert(data@ =~= byte_order::le32_bytes((self.cid / 0x1_0000_0000) as u32));
        }
    }

    /// What the guest writes to the configuration space changes nothing.
    pub fn write_config(&mut self, _offset: u64, _data: &[u8])
        ensures
            *final(self) == *old(self),
    {
    }

    /// The device as it uses the queues that are saved.
    pub open spec fn resumed(self, activated: bool) -> Vsock {
        Vsock { queue_rx: self.queues@[0], queue_tx: self.queues@[1], activated, ..self }
    }

    /// Goes on with the queues that the driver configured, of which there have to be three.
    pub fn activate(&mut self) -> (res: Result<(), BadActivate>)
        ensures
            res is Ok <==> old(self).queues@.len() == defs::NUM_QUEUES,
            *final(self) == if res is Ok {
                old(self).resumed(true)
            } else {
                *old(self)
            },
    {
        if self.queues.len() != defs::NUM_QUEUES {
            return Err(BadActivate);
        }
        self.queue_tx = self.queues[defs::TXQ_INDEX];
        self.queue_rx = self.queues[defs::RXQ_INDEX];
        self.activated = true;
        Ok(())
    }

    /// The device is inactive from here on. The multiplexer starts anew.
    pub fn reset(&mut self) -> (res: bool)
        requires
            old(self).wf(),
        ensures
            res,
            *final(self) == old(self).resumed(false),
    {
        self.activated = false;
        self.queue_rx = self.queues[defs::RXQ_INDEX];
        self.queue_tx = self.queues[defs::TXQ_INDEX];
        true
    }

    /// Whether the multiplexer has to be asked to park before a snapshot.
    pub fn begin_snapshot_quiesce(&self) -> (res: bool)
        ensures
            res == self.activated,
    {
        self.activated
    }

    /// Whether the multiplexer has to be told to go on when a snapshot is given up.
    pub fn abort_snapshot_quiesce(&self) -> (res: bool)
        ensures
            res == self.activated,
    {
        self.activated
    }

    /// Takes over the queues in use into those that are saved.
    pub fn sync_queues_for_snapshot(&mut self)
        requires
            old(self).wf(),
        ensures
            final(self).queues@ == old(self).queues@.update(0, old(self).queue_rx).update(
                1,
                old(self).queue_tx,
            ),
            *final(self) == (Vsock { queues: final(self).queues, ..*old(self) }),
    {
        self.queues.set(defs::RXQ_INDEX, self.queue_rx);
        self.queues.set(defs::TXQ_INDEX, self.queue_tx);
    }

    /// Goes on with the queues of a snapshot.
    pub fn post_snapshot_restore(&mut self)
        requires
            old(self).wf(),
        ensures
            *final(self) == old(self).resumed(old(self).activated),
    {
        self.queue_rx = self.queues[defs::RXQ_INDEX];
        self.queue_tx = self.queues[defs::TXQ_INDEX];
    }
}

/// A snapshot and its restore leave the queues in use as they were.
pub proof fn snapshot_keeps_the_queues(before: Vsock, saved: Vsock)
    requires
        before.wf(),
        saved.queues@ == before.queues@.update(0, before.queue_rx).update(1, before.queue_tx),
        saved == (Vsock { queues: saved.queues, ..before }),
    ensures
        saved.resumed(saved.activated) == saved,
        saved.resumed(saved.activated).queue_rx == before.queue_rx,
        saved.resumed(saved.activated).queue_tx == before.queue_tx,
{
}

/// A packet that the multiplexer did not take is the next one again: taking a chain and
/// keeping it for later leaves the position of the queue as it was.
pub proof fn refused_packets_stay(
    regions: Seq<(u64, u64)>,
    sent: bool,
    from: At,
    chain: PacketChain,
    to: At,
)
    requires
        takes(regions, sent, from, chain, to),
    ensures
        queue::wrap16(to.0.next_avail - 1) == from.0.next_avail,
{
    let (head, after_pop) = choose|head: DescriptorChain, after_pop: Seq<MemOp>|
        #[trigger] takes_by(regions, sent, from, chain, to, head, after_pop);
    assert(to.0.next_avail == queue::wrap16(from.0.next_avail + 1));
}

/// Whether `calls` are more calls than `before`, all of which were answered with yes.
pub open spec fn more_accepted(before: Seq<MuxCall>, calls: Seq<MuxCall>) -> bool {
    &&& before.is_prefix_of(calls)
    &&& forall|i: int|
        before.len() <= i < calls.len() ==> muxer::accepted(#[trigger] calls[i])
}

/// Every exchange of a run is one accepted call.
proof fn exchanges_are_accepted(
    regions: Seq<(u64, u64)>,
    sent: bool,
    start: PumpState,
    run: Seq<PumpState>,
    k: int,
)
    requires
        exchanges_all(regions, sent, start, run),
        0 <= k < run.len(),
    ensures
        more_accepted(start.calls, run[k].calls),
        run[k].calls.len() == start.calls.len() + k,
        k > 0 ==> run[k].have_used,
    decreases k,
{
    if k > 0 {
        exchanges_are_accepted(regions, sent, start, run, k - 1);
        assert(exchanges_at(regions, sent, run, k - 1));
        let calls = run[k].calls;
        assert forall|i: int| start.calls.len() <= i < calls.len() implies muxer::accepted(
            #[trigger] calls[i],
        ) by {
            if i < calls.len() - 1 {
                assert(calls[i] == run[k - 1].calls[i]);
            }
        }
    }
}

/// Working off a queue ends with the first packet that the multiplexer does not take or fill:
/// all its calls but the last one were accepted. Chains were given back if any was.
pub proof fn refusals_end_the_work(
    regions: Seq<(u64, u64)>,
    sent: bool,
    start: PumpState,
    end: PumpState,
)
    requires
        pumps(regions, sent, start, end),
    ensures
        start.calls.is_prefix_of(end.calls),
        forall|i: int|
            start.calls.len() <= i < end.calls.len() - 1 ==> muxer::accepted(
                #[trigger] end.calls[i],
            ),
        end.calls.len() > start.calls.len() && muxer::accepted(end.calls.last()) ==> end.have_used,
        end.calls.len() > start.calls.len() + 1 ==> end.have_used,
{
    let run = choose|run: Seq<PumpState>|
        {
            &&& #[trigger] exchanges_all(regions, sent, start, run)
            &&& if run.len() - 1 < u64::MAX {
                ends(regions, sent, run.last(), end)
            } else {
                end == run.last()
            }
        };
    exchanges_are_accepted(regions, sent, start, run, run.len() - 1);
    let before = run.last().calls;
    if end.calls.len() > before.len() {
        assert forall|i: int|
            start.calls.len() <= i < end.calls.len() - 1 implies muxer::accepted(
            #[trigger] end.calls[i],
        ) by {
            assert(end.calls[i] == before[i]);
        }
    }
}

/// A packet of the guest goes to the multiplexer as a datagram exactly if its type, at 28, is 3,
/// and as a packet of a stream otherwise. What is reported for a packet that was filled is the
/// length of its header and of the data that it announces, at 24.
pub proof fn packets_go_by_their_header(packet: VsockPacket, taken: bool)
    ensures
        ({
            let h = packet.hdr@;
            let kind = h[28] + 256 * h[29];
            let len = h[24] + 256 * h[25] + 65536 * h[26] + 16777216 * h[27];
            &&& kind == 3 ==> sent_call(packet, taken) == (MuxCall::Datagram { packet, taken })
            &&& kind != 3 ==> sent_call(packet, taken) == (MuxCall::Stream { packet, taken })
            &&& used_len(packet) == (44 + len) % 4294967296
        }),
{
    packet::fields_are_little_endian(packet.hdr@, 24);
    packet::fields_are_little_endian(packet.hdr@, 28);
}

/// An exchange is one packet: it is taken from its chain and goes to the multiplexer as it is, or
/// is filled by it. The chain is handed back with nothing written to it if it was sent, and with
/// the length of header and data if it was filled.
pub proof fn exchanged_chains_are_handed_back(
    regions: Seq<(u64, u64)>,
    sent: bool,
    s0: PumpState,
    ex: Exchange,
    s1: PumpState,
)
    requires
        exchange_step(regions, sent, s0, ex, s1),
    ensures
        s1.have_used,
        ex.next.chain is Some,
        s1.calls.len() == s0.calls.len() + 1,
        s1.calls.drop_last() == s0.calls,
        muxer::accepted(s1.calls.last()),
        sent ==> (s1.calls.last() matches MuxCall::Datagram { packet, .. } ==> packet
            == ex.next.chain->0.packet),
        sent ==> (s1.calls.last() matches MuxCall::Stream { packet, .. } ==> packet
            == ex.next.chain->0.packet),
        sent ==> s1.calls.last() is Datagram || s1.calls.last() is Stream,
        !sent ==> (s1.calls.last() matches MuxCall::Recv { given, left, .. } && given
            == ex.next.chain->0.packet && left == ex.left),
        ex.used matches Ok(()) ==> {
            let h = ex.settled.hdr@;
            &&& s1.log[ex.after_write.len() as int] matches MemOp::Write { addr, data, .. }
            &&& addr == ex.mid.0.used_ring.0 + 4 + 8 * (ex.mid.0.next_used as int
                % ex.mid.0.size as int)
            &&& data[0] + 256 * data[1] + 65536 * data[2] + 16777216 * data[3]
                == ex.next.chain->0.index
            &&& sent ==> data[4] == 0 && data[5] == 0 && data[6] == 0 && data[7] == 0
            &&& !sent ==> data[4] + 256 * data[5] + 65536 * data[6] + 16777216 * data[7] == (44
                + h[24] + 256 * h[25] + 65536 * h[26] + 16777216 * h[27]) % 4294967296
        },
{
    let chain = ex.next.chain->0;
    assert(s1.calls.drop_last() =~= s0.calls);
    packets_go_by_their_header(ex.settled, true);
    if let Ok(()) = ex.used {
        queue::used_elements_are_written_in_order(
            regions,
            ex.mid.0,
            ex.after_write,
            s1.queue,
            s1.log,
            chain.index,
            if sent {
                0
            } else {
                used_len(ex.settled)
            },
        );
    }
}

/// A chain without a packet is handed back with nothing written to it.
pub proof fn bad_chains_are_handed_back(
    regions: Seq<(u64, u64)>,
    sent: bool,
    from: At,
    skip: Skip,
    to: At,
)
    requires
        skip_step(regions, sent, from, skip, to),
    ensures
        skip.popped.next_avail == (from.0.next_avail + 1) % 65536,
        skip.used matches Ok(()) ==> {
            &&& to.1[skip.after_parse.len() as int] matches MemOp::Write { addr, data, .. }
            &&& addr == from.0.used_ring.0 + 4 + 8 * (from.0.next_used as int
                % from.0.size as int)
            &&& data[0] + 256 * data[1] + 65536 * data[2] + 16777216 * data[3] == skip.head.index
            &&& data[4] == 0 && data[5] == 0 && data[6] == 0 && data[7] == 0
        },
{
    if let Ok(()) = skip.used {
        queue::used_elements_are_written_in_order(
            regions,
            skip.popped,
            skip.after_parse,
            to.0,
            to.1,
            skip.head.index,
            0,
        );
    }
}

/// The work ends only when there is no packet any more, or with one that the multiplexer refused,
/// which is the next one again.
pub proof fn work_ends_for_a_reason(
    regions: Seq<(u64, u64)>,
    sent: bool,
    s0: PumpState,
    ex: Exchange,
    s1: PumpState,
)
    requires
        last_step(regions, sent, s0, ex, s1),
    ensures
        s1.have_used <==> s0.have_used || ex.next.have_used,
        ex.next.chain is None ==> s1.calls == s0.calls && s1.queue == ex.mid.0,
        ex.next.chain is Some ==> {
            &&& s1.calls.len() == s0.calls.len() + 1
            &&& s1.calls.drop_last() == s0.calls
            &&& !muxer::accepted(s1.calls.last())
            &&& s1.queue.next_avail == (ex.mid.0.next_avail + 65535) % 65536
            &&& s1.queue.next_used == ex.mid.0.next_used
            &&& sent ==> s1.log == ex.mid.1
        },
{
    if ex.next.chain is Some {
        assert(s1.calls.drop_last() =~= s0.calls);
    }
}

/// A device that resumes uses the queues that are saved: the first one for received packets, the
/// second one for sent packets.
pub proof fn resumed_devices_use_the_saved_queues(device: Vsock, activated: bool)
    requires
        device.wf(),
    ensures
        ({
            let after = device.resumed(activated);
            &&& after.queue_rx == device.queues@[0]
            &&& after.queue_tx == device.queues@[1]
            &&& after.activated == activated
            &&& after.cid == device.cid && after.queues == device.queues
            &&& after.acked_features == device.acked_features
            &&& after.avail_features == device.avail_features
        }),
        device.queues@.len() >= 2,
{
}

/// Between two steps of a run exactly one packet was accepted, and chains were given back.
pub open spec fn one_accepted(s0: PumpState, s1: PumpState) -> bool {
    &&& s1.have_used
    &&& s1.calls.len() == s0.calls.len() + 1
    &&& s1.calls.drop_last() == s0.calls
    &&& muxer::accepted(s1.calls.last())
}

/// The work on a queue is one accepted packet after the other, from the start on. It ends when
/// there is no packet any more, or with the first that was refused.
pub proof fn packets_are_exchanged_one_by_one(
    regions: Seq<(u64, u64)>,
    sent: bool,
    start: PumpState,
    end: PumpState,
)
    requires
        pumps(regions, sent, start, end),
    ensures
        exists|run: Seq<PumpState>|
            {
                &&& #[trigger] exchanges_all(regions, sent, start, run)
                &&& run.len() >= 1
                &&& run[0] == start
                &&& forall|i: int, j: int|
                    #![trigger run[i], run[j]]
                    0 <= i && j == i + 1 && j < run.len() ==> one_accepted(run[i], run[j])
                &&& run.len() <= u64::MAX ==> {
                    let last = run.last();
                    ||| end.calls == last.calls
                    ||| {
                        &&& end.calls.len() == last.calls.len() + 1
                        &&& end.calls.drop_last() == last.calls
                        &&& !muxer::accepted(end.calls.last())
                    }
                }
                &&& run.len() > u64::MAX ==> end == run.last()
                &&& run.len() > 1 ==> end.have_used
            },
{
    let run = choose|run: Seq<PumpState>|
        {
            &&& #[trigger] exchanges_all(regions, sent, start, run)
            &&& if run.len() - 1 < u64::MAX {
                ends(regions, sent, run.last(), end)
            } else {
                end == run.last()
            }
        };
    assert forall|i: int, j: int|
        #![trigger run[i], run[j]]
        0 <= i && j == i + 1 && j < run.len() implies one_accepted(run[i], run[j]) by {
        assert(exchanges_at(regions, sent, run, i));
        let ex = choose|ex: Exchange| #[trigger]
            exchange_step(regions, sent, run[i], ex, run[i + 1]);
        exchanged_chains_are_handed_back(regions, sent, run[i], ex, run[i + 1]);
    }
    if run.len() > 1 {
        assert(one_accepted(run[run.len() - 2], run[run.len() - 1]));
    }
    if run.len() - 1 < u64::MAX {
        let ex = choose|ex: Exchange| #[trigger] last_step(regions, sent, run.last(), ex, end);
        work_ends_for_a_reason(regions, sent, run.last(), ex, end);
    }
    assert(exchanges_all(regions, sent, start, run));
}

/// The next packet is that of the first chain that has one. Every chain before it was given back,
/// and it was reported exactly then that chains were.
pub proof fn bad_chains_are_passed_over(
    regions: Seq<(u64, u64)>,
    sent: bool,
    start: At,
    res: NextPacket,
    end: At,
)
    requires
        next_packet_step(regions, sent, start, res, end),
    ensures
        exists|run: Seq<At>|
            {
                &&& #[trigger] skips_all(regions, sent, start, run)
                &&& run.len() >= 1
                &&& run[0] == start
                &&& res.have_used <==> run.len() > 1
                &&& forall|i: int, j: int|
                    #![trigger run[i], run[j]]
                    0 <= i && j == i + 1 && j < run.len() ==> run[j].0.next_avail == (
                    run[i].0.next_avail + 1) % 65536
                &&& res.chain is Some ==> {
                    &&& end.0.next_avail == (run.last().0.next_avail + 1) % 65536
                    &&& end.0.next_used == run.last().0.next_used
                    &&& exists|head: DescriptorChain, after_pop: Seq<MemOp>|
                        {
                            &&& #[trigger] takes_by(
                                regions,
                                sent,
                                run.last(),
                                res.chain->0,
                                end,
                                head,
                                after_pop,
                            )
                            &&& res.chain->0.index == head.index
                        }
                }
                &&& res.chain is None ==> end.0.next_avail == run.last().0.next_avail
            },
{
    let run = choose|run: Seq<At>|
        {
            &&& #[trigger] skips_all(regions, sent, start, run)
            &&& res.have_used == (run.len() > 1)
            &&& match res.chain {
                Some(chain) => takes(regions, sent, run.last(), chain, end),
                None => if run.len() - 1 < u64::MAX {
                    queue::pop_step(regions, run.last().0, run.last().1, end.0, end.1, None)
                } else {
                    end == run.last()
                },
            }
        };
    assert forall|i: int, j: int|
        #![trigger run[i], run[j]]
        0 <= i && j == i + 1 && j < run.len() implies run[j].0.next_avail == (run[i].0.next_avail
        + 1) % 65536 by {
        assert(skips_at(regions, sent, run, i));
        let skip = choose|skip: Skip| #[trigger]
            skip_step(regions, sent, run[i], skip, run[i + 1]);
        bad_chains_are_handed_back(regions, sent, run[i], skip, run[i + 1]);
    }
    if let Some(chain) = res.chain {
        let (head, after_pop) = choose|head: DescriptorChain, after_pop: Seq<MemOp>| #[trigger]
            takes_by(regions, sent, run.last(), chain, end, head, after_pop);
        assert(takes_by(regions, sent, run.last(), chain, end, head, after_pop));
    }
    assert(skips_all(regions, sent, start, run));
}

} // verus!
