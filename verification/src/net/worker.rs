//! The work of the network device: frames from the transmit queue to the backend, frames
//! from the backend to the receive queue, and what each event of the worker loop calls for.
use vstd::prelude::*;

use super::backend::{AsyncNetBackend, BackendCall, RecordedBackend};
use super::frames;
use super::frames::{fill, gather, strip_header, MAX_BUFFER_SIZE, VIRTIO_NET_HDR_SIZE};
use crate::byte_order;
use crate::byte_order::read_le_u16;
use crate::guest_memory;
use crate::guest_memory::{GuestAddress, GuestMemory, MemOp};
use crate::queue;
use crate::queue::{DescriptorChain, Error, Queue};

verus! {

/// What happened while one chain of the transmit queue was handled.
pub struct TxRound {
    pub head: DescriptorChain,
    pub popped: Queue,
    pub after_pop: Seq<MemOp>,
    pub data: Seq<u8>,
    pub after_gather: Seq<MemOp>,
    pub used: Result<(), Error>,
}

/// Where the draining of the transmit queue stands.
#[derive(Clone, Copy, Debug, PartialEq, Eq, Structural)]
pub enum TxPhase {
    /// Before the next pass over the queue.
    Top,
    /// In a pass that began with the available index `mark` to be popped next.
    Popping { mark: u16 },
    /// Behind such a pass: the queue gave no more chains.
    Drained { mark: u16 },
    /// Finished.
    Done,
}

/// The transmit side at one moment.
pub struct TxState {
    pub phase: TxPhase,
    pub queue: Queue,
    pub log: Seq<MemOp>,
    pub calls: Seq<BackendCall>,
}

/// The calls of a backend after it got the frame in `data`, if there is one.
pub open spec fn calls_after(calls: Seq<BackendCall>, data: Seq<u8>) -> Seq<BackendCall> {
    match frames::frame_in(data) {
        Some(packet) => calls.push(BackendCall::Tx { packet }),
        None => calls,
    }
}

/// Whether `round` took the transmit side from `from` to `to`: a chain is popped, its bytes are
/// gathered, the frame behind the header goes to the backend, and the chain is handed back
/// with nothing written to it.
pub open spec fn tx_round_step(
    regions: Seq<(u64, u64)>,
    from: TxState,
    round: TxRound,
    to: TxState,
) -> bool {
    &&& queue::pop_step(
        regions,
        from.queue,
        from.log,
        round.popped,
        round.after_pop,
        Some(round.head),
    )
    &&& frames::gathers(
        regions,
        round.head,
        MAX_BUFFER_SIZE as int,
        round.after_pop,
        round.after_gather,
        round.data,
    )
    &&& queue::add_used_step(
        regions,
        round.popped,
        round.after_gather,
        to.queue,
        to.log,
        round.head.index,
        0,
        round.used,
    )
    &&& to.calls == calls_after(from.calls, round.data)
}

/// What a pass that popped nothing leads to, given the available index that was read
/// behind it: where the queue is not ahead of the driver by more than its size, another
/// pass; where it is, another pass from the driver's index; at the same index, the end.
pub open spec fn after_idle_pass(q: Queue, avail_idx: Option<u16>) -> (Queue, TxPhase) {
    match avail_idx {
        Some(idx) => if idx == q.next_avail {
            (q, TxPhase::Done)
        } else if q.entries() != 0 && queue::wrap16(idx - q.next_avail) <= q.entries() {
            (q, TxPhase::Top)
        } else {
            (Queue { next_avail: idx, ..q }, TxPhase::Top)
        },
        None => (q, TxPhase::Done),
    }
}

/// Whether the transmit side goes from `from` to `to` behind a pass that popped nothing, and
/// `avail_idx` was read.
pub open spec fn idle_step(
    regions: Seq<(u64, u64)>,
    from: TxState,
    to: TxState,
    avail_idx: Option<u16>,
) -> bool {
    &&& index_step(regions, from.queue.avail_ring, from.log, to.log, avail_idx)
    &&& (to.queue, to.phase) == after_idle_pass(from.queue, avail_idx)
    &&& to.calls == from.calls
}

/// Whether the transmit side goes from `from` to `to` behind a pass that popped chains:
/// notifications are switched on, and there is another pass if `more` chains came meanwhile.
pub open spec fn rearm_step(
    regions: Seq<(u64, u64)>,
    from: TxState,
    to: TxState,
    more: Result<bool, Error>,
) -> bool {
    &&& from.queue.enables_notification(regions, from.log, to.log, more)
    &&& to.queue == from.queue
    &&& to.calls == from.calls
    &&& to.phase == if more matches Ok(true) {
        TxPhase::Top
    } else {
        TxPhase::Done
    }
}

/// Whether one step of draining takes the transmit side from `from` to `to`.
pub open spec fn drain_step_rel(regions: Seq<(u64, u64)>, from: TxState, to: TxState) -> bool {
    match from.phase {
        TxPhase::Top => to == (TxState {
            phase: TxPhase::Popping { mark: from.queue.next_avail },
            ..from
        }),
        TxPhase::Popping { mark } => {
            ||| {
                &&& to.phase == TxPhase::Popping { mark }
                &&& exists|round: TxRound| #[trigger] tx_round_step(regions, from, round, to)
            }
            ||| {
                &&& to.phase == TxPhase::Drained { mark }
                &&& queue::pop_step(regions, from.queue, from.log, to.queue, to.log, None)
                &&& to.calls == from.calls
            }
        },
        TxPhase::Drained { mark } => if from.queue.next_avail == mark {
            exists|avail_idx: Option<u16>| #[trigger] idle_step(regions, from, to, avail_idx)
        } else {
            exists|more: Result<bool, Error>| #[trigger] rearm_step(regions, from, to, more)
        },
        TxPhase::Done => false,
    }
}

/// Takes one step of draining the transmit queue.
pub fn drain_step<B: AsyncNetBackend>(
    phase: TxPhase,
    queue: &mut Queue,
    mem: &mut GuestMemory,
    backend: &mut RecordedBackend<B>,
) -> (next: TxPhase)
    requires
        phase != TxPhase::Done,
        old(queue).readable_in(old(mem).regions()),
    ensures
        final(mem).regions() == old(mem).regions(),
        final(mem).backed() == old(mem).backed(),
        final(queue).readable_in(final(mem).regions()),
        drain_step_rel(
            old(mem).regions(),
            (TxState {
                phase,
                queue: *old(queue),
                log: old(mem).log(),
                calls: old(backend).calls(),
            }),
            (TxState {
                phase: next,
                queue: *final(queue),
                log: final(mem).log(),
                calls: final(backend).calls(),
            }),
        ),
{
    let ghost from = TxState {
        phase,
        queue: *queue,
        log: mem.log(),
        calls: backend.calls(),
    };
    match phase {
        TxPhase::Top => TxPhase::Popping { mark: queue.next_avail() },
        TxPhase::Popping { mark } => {
            let head = match queue.pop(mem) {
                Some(head) => head,
                None => return TxPhase::Drained { mark },
            };
            let ghost popped = *queue;
            let ghost after_pop = mem.log();
            let head_index: u16 = head.index;
            let data = gather(head, mem, MAX_BUFFER_SIZE);
            let ghost after_gather = mem.log();
            let ghost gathered = data@;
            if let Some(frame) = strip_header(data) {
                backend.handle_guest_tx(frame.as_slice());
            }
            let used = queue.add_used(mem, head_index, 0);
            proof {
                let round = TxRound {
                    head,
                    popped,
                    after_pop,
                    data: gathered,
                    after_gather,
                    used,
                };
                let to = TxState {
                    phase,
                    queue: *queue,
                    log: mem.log(),
                    calls: backend.calls(),
                };
                assert(tx_round_step(mem.regions(), from, round, to));
            }
            TxPhase::Popping { mark }
        },
        TxPhase::Drained { mark } => {
            if queue.next_avail() == mark {
                // No progress: either the driver has added chains meanwhile, or the queue
                // is ahead of the driver, as after a restore.
                let avail_idx: Option<u16> = read_index(mem, queue.avail_ring);
                let next: TxPhase = match avail_idx {
                    Some(idx) => if idx == queue.next_avail() {
                        TxPhase::Done
                    } else {
                        let queue_size: u16 = queue.actual_size();
                        if queue_size == 0 || idx.wrapping_sub(queue.next_avail()) > queue_size {
                            queue.set_next_avail(idx);
                        }
                        TxPhase::Top
                    },
                    None => TxPhase::Done,
                };
                proof {
                    let to = TxState {
                        phase: next,
                        queue: *queue,
                        log: mem.log(),
                        calls: backend.calls(),
                    };
                    assert(idle_step(mem.regions(), from, to, avail_idx));
                }
                next
            } else {
                let more = queue.enable_notification(mem);
                let next: TxPhase = match more {
                    Ok(true) => TxPhase::Top,
                    _ => TxPhase::Done,
                };
                proof {
                    let to = TxState {
                        phase: next,
                        queue: *queue,
                        log: mem.log(),
                        calls: backend.calls(),
                    };
                    assert(rearm_step(mem.regions(), from, to, more));
                }
                next
            }
        },
        TxPhase::Done => TxPhase::Done,
    }
}

/// Whether step `i` of `run` is a step of draining.
pub open spec fn drains_at(regions: Seq<(u64, u64)>, run: Seq<TxState>, i: int) -> bool {
    drain_step_rel(regions, run[i], run[i + 1])
}

/// Whether draining took the transmit side from `from` to `to`: notifications are switched
/// off, then the steps follow one another to the end, 2^64 - 1 at the most.
pub open spec fn drain_rel(
    regions: Seq<(u64, u64)>,
    from: (Queue, Seq<MemOp>, Seq<BackendCall>),
    to: (Queue, Seq<MemOp>, Seq<BackendCall>),
) -> bool {
    exists|off: Result<(), Error>, run: Seq<TxState>|
        {
            &&& run.len() >= 1
            &&& #[trigger] from.0.sets_notification(regions, from.1, run[0].log, false, off)
            &&& run[0].phase == TxPhase::Top
            &&& run[0].queue == from.0
            &&& run[0].calls == from.2
            &&& forall|i: int| 0 <= i < run.len() - 1 ==> #[trigger] drains_at(regions, run, i)
            &&& run.last().phase == TxPhase::Done || run.len() - 1 == u64::MAX
            &&& (run.last().queue, run.last().log, run.last().calls) == to
        }
}

/// Hands all the frames of the transmit queue to the backend. The driver is to be signalled
/// afterwards.
pub fn drain_tx_queue<B: AsyncNetBackend>(
    queue: &mut Queue,
    mem: &mut GuestMemory,
    backend: &mut RecordedBackend<B>,
)
    requires
        old(queue).readable_in(old(mem).regions()),
    ensures
        final(mem).regions() == old(mem).regions(),
        final(mem).backed() == old(mem).backed(),
        final(queue).readable_in(final(mem).regions()),
        drain_rel(
            old(mem).regions(),
            (*old(queue), old(mem).log(), old(backend).calls()),
            (*final(queue), final(mem).log(), final(backend).calls()),
        ),
{
    let ghost from = (*queue, mem.log(), backend.calls());
    let ghost regions = mem.regions();
    let off = queue.disable_notification(mem);
    let mut phase = TxPhase::Top;
    let mut budget: u64 = u64::MAX;
    let ghost mut run: Seq<TxState> = seq![
        TxState { phase, queue: *queue, log: mem.log(), calls: backend.calls() },
    ];
    loop
        invariant
            mem.regions() == regions,
            mem.backed() == old(mem).backed(),
            queue.readable_in(regions),
            run.len() >= 1,
            from.0.sets_notification(regions, from.1, run[0].log, false, off),
            run[0].phase == TxPhase::Top,
            run[0].queue == from.0,
            run[0].calls == from.2,
            forall|i: int| 0 <= i < run.len() - 1 ==> #[trigger] drains_at(regions, run, i),
            run.len() - 1 == u64::MAX - budget,
            run.last() == (TxState {
                phase,
                queue: *queue,
                log: mem.log(),
                calls: backend.calls(),
            }),
        ensures
            phase == TxPhase::Done || budget == 0,
        decreases budget,
    {
        if budget == 0 {
            break;
        }
        if let TxPhase::Done = phase {
            break;
        }
        let ghost before = run.last();
        phase = drain_step(phase, queue, mem, backend);
        budget -= 1;
        proof {
            let to = TxState { phase, queue: *queue, log: mem.log(), calls: backend.calls() };
            let longer = run.push(to);
            assert forall|i: int| 0 <= i < longer.len() - 1 implies #[trigger] drains_at(
                regions,
                longer,
                i,
            ) by {
                if i < run.len() - 1 {
                    assert(drains_at(regions, run, i));
                    assert(longer[i] == run[i] && longer[i + 1] == run[i + 1]);
                } else {
                    assert(longer[i] == before && longer[i + 1] == to);
                }
            }
            run = longer;
        }
    }
}

/// A chain that was handed back unread.
pub struct Discard {
    pub head: DescriptorChain,
    pub popped: Queue,
    pub after_pop: Seq<MemOp>,
    pub used: Result<(), Error>,
}

/// Whether `d` took the transmit queue and the log from `from` to `to`: a chain is popped
/// and handed back with nothing written to it.
pub open spec fn discard_step(
    regions: Seq<(u64, u64)>,
    from: (Queue, Seq<MemOp>),
    d: Discard,
    to: (Queue, Seq<MemOp>),
) -> bool {
    &&& queue::pop_step(regions, from.0, from.1, d.popped, d.after_pop, Some(d.head))
    &&& queue::add_used_step(
        regions,
        d.popped,
        d.after_pop,
        to.0,
        to.1,
        d.head.index,
        0,
        d.used,
    )
}

/// Whether step `i` of `run` hands a chain back unread.
pub open spec fn discards_at(
    regions: Seq<(u64, u64)>,
    run: Seq<(Queue, Seq<MemOp>)>,
    i: int,
) -> bool {
    exists|d: Discard| #[trigger] discard_step(regions, run[i], d, run[i + 1])
}

/// Whether discarding took the transmit queue and the log from `from` to `to`: chain after
/// chain is handed back until there are no more, 2^64 - 1 at the most.
pub open spec fn discard_rel(
    regions: Seq<(u64, u64)>,
    from: (Queue, Seq<MemOp>),
    run: Seq<(Queue, Seq<MemOp>)>,
    to: (Queue, Seq<MemOp>),
) -> bool {
    &&& run.len() >= 1
    &&& run[0] == from
    &&& forall|i: int| 0 <= i < run.len() - 1 ==> #[trigger] discards_at(regions, run, i)
    &&& if run.len() - 1 < u64::MAX {
        queue::pop_step(regions, run.last().0, run.last().1, to.0, to.1, None)
    } else {
        to == run.last()
    }
}

/// Hands all the chains of the transmit queue back unread, for the time before there is a
/// backend. The driver is to be signalled afterwards.
pub fn discard_tx_queue(queue: &mut Queue, mem: &mut GuestMemory)
    requires
        old(queue).readable_in(old(mem).regions()),
    ensures
        final(mem).regions() == old(mem).regions(),
        final(mem).backed() == old(mem).backed(),
        final(queue).readable_in(final(mem).regions()),
        exists|run: Seq<(Queue, Seq<MemOp>)>|
            #[trigger] discard_rel(
                old(mem).regions(),
                (*old(queue), old(mem).log()),
                run,
                (*final(queue), final(mem).log()),
            ),
{
    let ghost regions = mem.regions();
    let ghost start = (*queue, mem.log());
    let ghost mut run: Seq<(Queue, Seq<MemOp>)> = seq![start];
    let mut budget: u64 = u64::MAX;
    while budget > 0
        invariant
            regions == old(mem).regions(),
            start == (*old(queue), old(mem).log()),
            mem.regions() == regions,
            mem.backed() == old(mem).backed(),
            queue.readable_in(regions),
            run.len() >= 1,
            run[0] == start,
            forall|i: int| 0 <= i < run.len() - 1 ==> #[trigger] discards_at(regions, run, i),
            run.len() - 1 == u64::MAX - budget,
            (*queue, mem.log()) == run.last(),
        decreases budget,
    {
        let ghost from = run.last();
        let head = match queue.pop(mem) {
            Some(head) => head,
            None => {
                proof {
                    assert(discard_rel(regions, start, run, (*queue, mem.log())));
                }
                return ;
            },
        };
        let ghost popped = *queue;
        let ghost after_pop = mem.log();
        let used = queue.add_used(mem, head.index, 0);
        budget -= 1;
        proof {
            let d = Discard { head, popped, after_pop, used };
            let to = (*queue, mem.log());
            assert(discard_step(regions, from, d, to));
            let longer = run.push(to);
            assert forall|i: int| 0 <= i < longer.len() - 1 implies #[trigger] discards_at(
                regions,
                longer,
                i,
            ) by {
                if i < run.len() - 1 {
                    assert(discards_at(regions, run, i));
                    assert(longer[i] == run[i] && longer[i + 1] == run[i + 1]);
                } else {
                    assert(longer[i] == from && longer[i + 1] == to);
                }
            }
            run = longer;
        }
    }
    proof {
        assert(discard_rel(regions, start, run, (*queue, mem.log())));
    }
}

/// What happened while one packet was put into the receive queue.
pub struct RxRound {
    pub head: DescriptorChain,
    pub popped: Queue,
    pub after_pop: Seq<MemOp>,
    pub after_fill: Seq<MemOp>,
    pub written: int,
    pub used: Result<(), Error>,
}

/// Whether `round` took the receive queue and the log from `from` to `to`: a chain is popped,
/// header and packet are written to it, and it is handed back with their length.
pub open spec fn rx_round_step(
    regions: Seq<(u64, u64)>,
    packet: Seq<u8>,
    from: (Queue, Seq<MemOp>),
    round: RxRound,
    to: (Queue, Seq<MemOp>),
) -> bool {
    &&& queue::pop_step(
        regions,
        from.0,
        from.1,
        round.popped,
        round.after_pop,
        Some(round.head),
    )
    &&& frames::fills(
        regions,
        round.head,
        packet,
        round.after_pop,
        round.after_fill,
        round.written,
    )
    &&& queue::add_used_step(
        regions,
        round.popped,
        round.after_fill,
        to.0,
        to.1,
        round.head.index,
        round.written as u32,
        round.used,
    )
}

/// Whether `packet` was pushed (`sent`) or dropped for want of a buffer.
pub open spec fn push_rel(
    regions: Seq<(u64, u64)>,
    packet: Seq<u8>,
    from: (Queue, Seq<MemOp>),
    to: (Queue, Seq<MemOp>),
    sent: bool,
) -> bool {
    if sent {
        exists|round: RxRound| #[trigger] rx_round_step(regions, packet, from, round, to)
    } else {
        queue::pop_step(regions, from.0, from.1, to.0, to.1, None)
    }
}

/// Puts `packet` into the next buffer of the receive queue. `false` if there is none: the
/// packet is then dropped. Otherwise the driver is to be signalled.
pub fn push_to_rx_queue(queue: &mut Queue, mem: &mut GuestMemory, packet: &[u8]) -> (sent: bool)
    requires
        old(queue).readable_in(old(mem).regions()),
        packet@.len() + VIRTIO_NET_HDR_SIZE <= usize::MAX,
    ensures
        final(mem).regions() == old(mem).regions(),
        final(mem).backed() == old(mem).backed(),
        final(queue).readable_in(final(mem).regions()),
        push_rel(
            old(mem).regions(),
            packet@,
            (*old(queue), old(mem).log()),
            (*final(queue), final(mem).log()),
            sent,
        ),
{
    let ghost from = (*queue, mem.log());
    let head = match queue.pop(mem) {
        Some(head) => head,
        None => return false,
    };
    let ghost popped = *queue;
    let ghost after_pop = mem.log();
    let head_index: u16 = head.index;
    let written: usize = fill(head, mem, packet);
    let ghost after_fill = mem.log();
    let used = queue.add_used(mem, head_index, written as u32);
    proof {
        let round = RxRound { head, popped, after_pop, after_fill, written: written as int, used };
        assert(rx_round_step(
            mem.regions(),
            packet@,
            from,
            round,
            (*queue, mem.log()),
        ));
    }
    true
}

/// Whether reading the index of the ring at `ring` took the log from `before` to `after` and
/// gave `index`; nothing is read where the address overflows.
pub open spec fn index_step(
    regions: Seq<(u64, u64)>,
    ring: GuestAddress,
    before: Seq<MemOp>,
    after: Seq<MemOp>,
    index: Option<u16>,
) -> bool {
    if ring.0 + 2 > u64::MAX {
        after == before && index is None
    } else {
        let addr = (ring.0 + 2) as u64;
        let bytes = after.last()->bytes;
        &&& after == before.push(MemOp::Read { addr, len: 2, bytes })
        &&& guest_memory::reads_as(regions, addr, 2, bytes)
        &&& index == match bytes {
            Some(b) => Some(byte_order::le_u16(b)),
            None => None,
        }
    }
}

/// The queue that takes the place of `src` after a restore: the used index is taken from
/// guest memory, and the next available index falls back to the driver's where it is ahead
/// of it.
pub open spec fn resynced(src: Queue, used_idx: Option<u16>, avail_idx: Option<u16>) -> Queue {
    let q1 = match used_idx {
        Some(idx) => Queue { next_used: idx, ..src },
        None => src,
    };
    match avail_idx {
        Some(idx) => if src.next_avail > idx {
            Queue { next_avail: idx, ..q1 }
        } else {
            q1
        },
        None => q1,
    }
}

/// Whether resynchronising `src` took the log from `before` to `after` and gave `dst`.
pub open spec fn resync_step(
    regions: Seq<(u64, u64)>,
    src: Queue,
    before: Seq<MemOp>,
    after: Seq<MemOp>,
    dst: Queue,
) -> bool {
    if src.ready {
        exists|mid: Seq<MemOp>, used_idx: Option<u16>, avail_idx: Option<u16>|
            {
                &&& #[trigger] index_step(regions, src.used_ring, before, mid, used_idx)
                &&& #[trigger] index_step(regions, src.avail_ring, mid, after, avail_idx)
                &&& dst == resynced(src, used_idx, avail_idx)
            }
    } else {
        after == before && dst == src
    }
}

/// Reads the index of the ring at `ring`.
fn read_index(mem: &mut GuestMemory, ring: GuestAddress) -> (res: Option<u16>)
    ensures
        final(mem).regions() == old(mem).regions(),
        final(mem).backed() == old(mem).backed(),
        index_step(old(mem).regions(), ring, old(mem).log(), final(mem).log(), res),
{
    match ring.checked_add(2) {
        Some(addr) => match mem.read(addr, 2) {
            Ok(bytes) => Some(read_le_u16(bytes.as_slice())),
            Err(_) => None,
        },
        None => None,
    }
}

/// The queue to go on with after a restore that left `src`.
pub fn resync_queue(src: Queue, mem: &mut GuestMemory) -> (dst: Queue)
    ensures
        final(mem).regions() == old(mem).regions(),
        final(mem).backed() == old(mem).backed(),
        resync_step(old(mem).regions(), src, old(mem).log(), final(mem).log(), dst),
        dst == (Queue { next_avail: dst.next_avail, next_used: dst.next_used, ..src }),
{
    let mut dst: Queue = src;
    if dst.ready {
        let ghost regions = mem.regions();
        let ghost log0 = mem.log();
        let used_idx: Option<u16> = read_index(mem, dst.used_ring);
        let ghost mid = mem.log();
        if let Some(idx) = used_idx {
            dst.set_next_used(idx);
        }
        let avail_idx: Option<u16> = read_index(mem, dst.avail_ring);
        if let Some(idx) = avail_idx {
            if dst.next_avail() > idx {
                dst.set_next_avail(idx);
            }
        }
        proof {
            assert(index_step(regions, src.used_ring, log0, mid, used_idx));
            assert(index_step(regions, src.avail_ring, mid, mem.log(), avail_idx));
        }
    }
    dst
}

/// The longest time between two polls of the backend, in nanoseconds. A lost interrupt
/// is made up for at the next poll.
pub const MAX_POLL_DELAY_NS: u64 = 1_000_000_000;

/// How many nanoseconds to wait for an event, given when the backend wants to be polled.
pub fn wait_ns(poll_delay: Option<u64>) -> (res: u64)
    ensures
        res == match poll_delay {
            Some(ns) => if ns < MAX_POLL_DELAY_NS {
                ns
            } else {
                MAX_POLL_DELAY_NS
            },
            None => MAX_POLL_DELAY_NS,
        },
{
    match poll_delay {
        Some(ns) => if ns < MAX_POLL_DELAY_NS {
            ns
        } else {
            MAX_POLL_DELAY_NS
        },
        None => MAX_POLL_DELAY_NS,
    }
}

/// The queues as the device published them, receive queue first, with the number of the
/// publication. They are not there where they could not be locked.
pub struct SharedQueues {
    pub generation: u64,
    pub queues: Option<(Queue, Queue)>,
}

/// An event of the worker loop.
pub enum WorkerEvent {
    /// A snapshot is being taken.
    Quiesce,
    /// The driver notified the transmit queue.
    TxReady,
    /// The backend has a packet for the guest.
    Packet { packet: Vec<u8> },
    /// The time to wait is over.
    Timer,
    /// A task of the backend wants it polled.
    Wake,
    /// The worker is to end.
    Stop,
    /// A snapshot was restored; `saved` is the state of the backend in it.
    Resync { saved: Option<Vec<u8>> },
}

/// What is left to do of an event.
#[derive(Clone, Copy, Debug, PartialEq, Eq, Structural)]
pub enum WorkerStage {
    /// Look for chains in the transmit queue that came without a notification.
    Look,
    /// Drain the transmit queue.
    Drain,
    /// Poll the backend.
    Poll,
}

/// How the worker loop goes on.
#[derive(Clone, Copy, Debug, PartialEq, Eq, Structural)]
pub enum WorkerNext {
    /// Go on with the event, behind the signal if there is one.
    GoOn { stage: WorkerStage },
    /// Wait for the next event.
    Run,
    /// Wait to be resumed.
    Park,
    /// End.
    Stop,
}

/// What is published before the worker parks.
pub struct Published {
    pub rx: Queue,
    pub tx: Queue,
    pub backend: Option<Vec<u8>>,
}

/// What an event, or a stage of one, calls for.
pub struct Outcome {
    /// Whether the driver is to be signalled, before anything else is done.
    pub signal: bool,
    /// What is to be published.
    pub publish: Option<Published>,
    pub next: WorkerNext,
}

/// An event while the backend is being created.
pub enum StartupEvent {
    /// The driver notified the transmit queue.
    TxReady,
    /// The worker is to end.
    Stop,
    /// The backend is there.
    Created,
    /// There will be no backend.
    Failed,
}

/// The worker at one moment, with the accesses to guest memory and the calls of the backend.
pub struct WorkerState {
    pub rx: Queue,
    pub tx: Queue,
    pub applied_generation: u64,
    pub log: Seq<MemOp>,
    pub calls: Seq<BackendCall>,
}

impl WorkerState {
    pub open spec fn worker(&self) -> NetWorker {
        NetWorker { rx: self.rx, tx: self.tx, applied_generation: self.applied_generation }
    }
}

/// `s` after one more poll of the backend.
pub open spec fn polled(s: WorkerState) -> WorkerState {
    WorkerState { calls: s.calls.push(BackendCall::Poll), ..s }
}

/// Whether taking over published queues leads from `w0` to `w1` and takes the log from
/// `before` to `after`: each publication is taken over once.
pub open spec fn applies(
    regions: Seq<(u64, u64)>,
    shared: SharedQueues,
    w0: NetWorker,
    before: Seq<MemOp>,
    w1: NetWorker,
    after: Seq<MemOp>,
) -> bool {
    match shared.queues {
        Some((rx, tx)) => if shared.generation == w0.applied_generation {
            w1 == w0 && after == before
        } else {
            &&& w1.applied_generation == shared.generation
            &&& exists|mid: Seq<MemOp>|
                #[trigger] resync_step(regions, rx, before, mid, w1.rx) && resync_step(
                    regions,
                    tx,
                    mid,
                    after,
                    w1.tx,
                )
        },
        None => w1 == w0 && after == before,
    }
}

/// Whether taking over published queues leads from `s0` to `s1`.
pub open spec fn sync_rel(
    regions: Seq<(u64, u64)>,
    shared: SharedQueues,
    s0: WorkerState,
    s1: WorkerState,
) -> bool {
    &&& applies(regions, shared, s0.worker(), s0.log, s1.worker(), s1.log)
    &&& s1.calls == s0.calls
}

/// Whether draining the transmit queue leads from `s0` to `s1`.
pub open spec fn drained(regions: Seq<(u64, u64)>, s0: WorkerState, s1: WorkerState) -> bool {
    &&& drain_rel(regions, (s0.tx, s0.log, s0.calls), (s1.tx, s1.log, s1.calls))
    &&& s1.rx == s0.rx
    &&& s1.applied_generation == s0.applied_generation
}

/// `s` after a load of the available index of its transmit queue that gave `idx`.
pub open spec fn looked_at(s: WorkerState, idx: u16) -> WorkerState {
    WorkerState {
        log: s.log.push(MemOp::Load { addr: s.tx.avail_idx_addr() as u64, val: Some(idx) }),
        ..s
    }
}

/// Whether pushing `packet` leads from `s0` to `s1`.
pub open spec fn pushed(
    regions: Seq<(u64, u64)>,
    packet: Seq<u8>,
    s0: WorkerState,
    s1: WorkerState,
    sent: bool,
) -> bool {
    &&& push_rel(regions, packet, (s0.rx, s0.log), (s1.rx, s1.log), sent)
    &&& s1.tx == s0.tx
    &&& s1.applied_generation == s0.applied_generation
    &&& s1.calls == s0.calls
}

/// `s` after the backend got the state of a snapshot, if there is one.
pub open spec fn restored(s: WorkerState, saved: Option<Vec<u8>>) -> WorkerState {
    match saved {
        Some(data) => WorkerState {
            calls: s.calls.push(BackendCall::Restore { data: data@ }),
            ..s
        },
        None => s,
    }
}

/// Whether `out` publishes nothing, signals as `signal` says and goes on with `next`.
pub open spec fn plain_outcome(out: Outcome, signal: bool, next: WorkerNext) -> bool {
    out.publish is None && out.signal == signal && out.next == next
}

/// Whether `event` leads from `s0` to `s1` and calls for `out`.
pub open spec fn event_rel(
    regions: Seq<(u64, u64)>,
    event: WorkerEvent,
    shared: SharedQueues,
    s0: WorkerState,
    s1: WorkerState,
    out: Outcome,
) -> bool {
    match event {
        WorkerEvent::Quiesce => {
            &&& s1 == s0
            &&& out.publish matches Some(published)
            &&& published.rx == s0.rx
            &&& published.tx == s0.tx
            &&& !out.signal
            &&& out.next == WorkerNext::Park
        },
        WorkerEvent::TxReady => {
            &&& sync_rel(regions, shared, s0, s1)
            &&& plain_outcome(out, false, WorkerNext::GoOn { stage: WorkerStage::Drain })
        },
        WorkerEvent::Packet { packet } => exists|a: WorkerState, sent: bool|
            {
                &&& #[trigger] sync_rel(regions, shared, s0, a)
                &&& #[trigger] pushed(regions, packet@, a, s1, sent)
                &&& plain_outcome(out, sent, WorkerNext::GoOn { stage: WorkerStage::Look })
            },
        WorkerEvent::Timer => {
            &&& s1 == polled(s0)
            &&& plain_outcome(out, s0.tx.ready, WorkerNext::GoOn { stage: WorkerStage::Look })
        },
        WorkerEvent::Wake => {
            &&& s1 == polled(s0)
            &&& plain_outcome(out, false, WorkerNext::GoOn { stage: WorkerStage::Look })
        },
        WorkerEvent::Stop => {
            &&& s1 == (WorkerState { calls: s0.calls.push(BackendCall::Exit), ..s0 })
            &&& plain_outcome(out, false, WorkerNext::Stop)
        },
        WorkerEvent::Resync { saved } => {
            &&& exists|a: WorkerState|
                #[trigger] sync_rel(regions, shared, s0, a) && s1 == restored(a, saved)
            &&& plain_outcome(out, false, WorkerNext::GoOn { stage: WorkerStage::Look })
        },
    }
}

/// Whether `stage` leads from `s0` to `s1` and calls for `out`: a look at the transmit queue has
/// it drained if there are chains, the driver is signalled behind that, and then the backend is
/// polled.
pub open spec fn stage_rel(
    regions: Seq<(u64, u64)>,
    stage: WorkerStage,
    s0: WorkerState,
    s1: WorkerState,
    out: Outcome,
) -> bool {
    match stage {
        WorkerStage::Look => if s0.tx.ready {
            exists|idx: u16|
                {
                    &&& s1 == #[trigger] looked_at(s0, idx)
                    &&& plain_outcome(
                        out,
                        false,
                        if idx == s0.tx.next_avail {
                            WorkerNext::Run
                        } else {
                            WorkerNext::GoOn { stage: WorkerStage::Drain }
                        },
                    )
                }
        } else {
            s1 == s0 && plain_outcome(out, false, WorkerNext::Run)
        },
        WorkerStage::Drain => {
            &&& drained(regions, s0, s1)
            &&& plain_outcome(out, true, WorkerNext::GoOn { stage: WorkerStage::Poll })
        },
        WorkerStage::Poll => s1 == polled(s0) && plain_outcome(out, false, WorkerNext::Run),
    }
}

/// The worker that serves the queues of a network device.
pub struct NetWorker {
    pub rx: Queue,
    pub tx: Queue,
    /// The number of the publication that was last taken over.
    pub applied_generation: u64,
}

impl NetWorker {
    pub fn new(rx: Queue, tx: Queue) -> (res: NetWorker)
        ensures
            res == (NetWorker { rx, tx, applied_generation: 0 }),
    {
        NetWorker { rx, tx, applied_generation: 0 }
    }

    /// The receive queue to go on with once what was published is taken over.
    pub open spec fn next_rx(&self, shared: SharedQueues) -> Queue {
        match shared.queues {
            Some((rx, tx)) if shared.generation != self.applied_generation => rx,
            _ => self.rx,
        }
    }

    /// The transmit queue to go on with once what was published is taken over.
    pub open spec fn next_tx(&self, shared: SharedQueues) -> Queue {
        match shared.queues {
            Some((rx, tx)) if shared.generation != self.applied_generation => tx,
            _ => self.tx,
        }
    }

    /// Whether the ring that `event` has the worker take chains from can be read.
    pub open spec fn ready_for(
        &self,
        event: WorkerEvent,
        shared: SharedQueues,
        regions: Seq<(u64, u64)>,
    ) -> bool {
        event is Packet ==> self.next_rx(shared).readable_in(regions)
    }

    /// Whether what `stage` has the worker look at can be read: the index of the transmit queue,
    /// or all of its available ring.
    pub open spec fn ready_at(&self, stage: WorkerStage, regions: Seq<(u64, u64)>) -> bool {
        match stage {
            WorkerStage::Look => self.tx.ready ==> self.tx.countable_in(regions),
            WorkerStage::Drain => self.tx.readable_in(regions),
            WorkerStage::Poll => true,
        }
    }

    /// Whether the ring that `event` has the worker take chains from can be read.
    pub fn is_ready_for(
        &self,
        event: &WorkerEvent,
        shared: &SharedQueues,
        mem: &GuestMemory,
    ) -> (res: bool)
        ensures
            res == self.ready_for(*event, *shared, mem.regions()),
    {
        if let WorkerEvent::Packet { .. } = event {
            match shared.queues {
                Some((rx, _)) => if shared.generation != self.applied_generation {
                    rx.is_readable(mem)
                } else {
                    self.rx.is_readable(mem)
                },
                None => self.rx.is_readable(mem),
            }
        } else {
            true
        }
    }

    /// Whether what `stage` has the worker look at can be read.
    pub fn is_ready_at(&self, stage: WorkerStage, mem: &GuestMemory) -> (res: bool)
        ensures
            res == self.ready_at(stage, mem.regions()),
    {
        match stage {
            WorkerStage::Look => !self.tx.ready || self.tx.is_countable(mem),
            WorkerStage::Drain => self.tx.is_readable(mem),
            WorkerStage::Poll => true,
        }
    }

    /// The worker together with the logs of guest memory and backend.
    pub open spec fn state<B: AsyncNetBackend>(&self, mem: GuestMemory, backend: RecordedBackend<B>) -> WorkerState {
        WorkerState {
            rx: self.rx,
            tx: self.tx,
            applied_generation: self.applied_generation,
            log: mem.log(),
            calls: backend.calls(),
        }
    }

    /// What an event before there is a backend calls for: chains are handed back unread, so
    /// that the guest does not take the device for dead.
    pub fn handle_startup_event(&mut self, event: StartupEvent, mem: &mut GuestMemory) -> (out:
        Outcome)
        requires
            event is TxReady ==> old(self).tx.readable_in(old(mem).regions()),
        ensures
            final(mem).regions() == old(mem).regions(),
            final(mem).backed() == old(mem).backed(),
            final(self).rx == old(self).rx,
            final(self).applied_generation == old(self).applied_generation,
            match event {
                StartupEvent::TxReady => {
                    &&& exists|run: Seq<(Queue, Seq<MemOp>)>|
                        #[trigger] discard_rel(
                            old(mem).regions(),
                            (old(self).tx, old(mem).log()),
                            run,
                            (final(self).tx, final(mem).log()),
                        )
                    &&& plain_outcome(out, true, WorkerNext::Run)
                },
                StartupEvent::Created => {
                    &&& final(self).tx == old(self).tx
                    &&& final(mem).log() == old(mem).log()
                    &&& plain_outcome(out, false, WorkerNext::Run)
                },
                StartupEvent::Stop | StartupEvent::Failed => {
                    &&& final(self).tx == old(self).tx
                    &&& final(mem).log() == old(mem).log()
                    &&& plain_outcome(out, false, WorkerNext::Stop)
                },
            },
    {
        match event {
            StartupEvent::TxReady => {
                let mut tx: Queue = self.tx;
                discard_tx_queue(&mut tx, mem);
                self.tx = tx;
                Outcome { signal: true, publish: None, next: WorkerNext::Run }
            },
            StartupEvent::Created => Outcome {
                signal: false,
                publish: None,
                next: WorkerNext::Run,
            },
            _ => Outcome { signal: false, publish: None, next: WorkerNext::Stop },
        }
    }

    /// Takes over the queues that the device published, if it published any since the last
    /// time.
    pub fn apply_shared_queue_state(&mut self, shared: &SharedQueues, mem: &mut GuestMemory)
        ensures
            final(mem).regions() == old(mem).regions(),
            final(mem).backed() == old(mem).backed(),
            final(self).rx == (Queue {
                next_avail: final(self).rx.next_avail,
                next_used: final(self).rx.next_used,
                ..old(self).next_rx(*shared)
            }),
            final(self).tx == (Queue {
                next_avail: final(self).tx.next_avail,
                next_used: final(self).tx.next_used,
                ..old(self).next_tx(*shared)
            }),
            applies(
                old(mem).regions(),
                *shared,
                *old(self),
                old(mem).log(),
                *final(self),
                final(mem).log(),
            ),
    {
        if shared.generation == self.applied_generation {
            return ;
        }
        if let Some((rx, tx)) = shared.queues {
            let ghost log0 = mem.log();
            self.rx = resync_queue(rx, mem);
            let ghost mid = mem.log();
            self.tx = resync_queue(tx, mem);
            self.applied_generation = shared.generation;
            proof {
                assert(resync_step(mem.regions(), rx, log0, mid, self.rx));
            }
        }
    }

    fn drain<B: AsyncNetBackend>(&mut self, mem: &mut GuestMemory, backend: &mut RecordedBackend<B>)
        requires
            old(self).tx.readable_in(old(mem).regions()),
        ensures
            final(mem).regions() == old(mem).regions(),
            final(mem).backed() == old(mem).backed(),
            drained(
                old(mem).regions(),
                old(self).state(*old(mem), *old(backend)),
                final(self).state(*final(mem), *final(backend)),
            ),
    {
        let mut tx: Queue = self.tx;
        drain_tx_queue(&mut tx, mem, backend);
        self.tx = tx;
    }

    /// Goes on with an event.
    pub fn go_on<B: AsyncNetBackend>(
        &mut self,
        stage: WorkerStage,
        mem: &mut GuestMemory,
        backend: &mut RecordedBackend<B>,
    ) -> (out: Outcome)
        requires
            old(self).ready_at(stage, old(mem).regions()),
        ensures
            final(mem).regions() == old(mem).regions(),
            final(mem).backed() == old(mem).backed(),
            stage_rel(
                old(mem).regions(),
                stage,
                old(self).state(*old(mem), *old(backend)),
                final(self).state(*final(mem), *final(backend)),
                out,
            ),
    {
        match stage {
            WorkerStage::Look => {
                if !self.tx.ready {
                    return Outcome { signal: false, publish: None, next: WorkerNext::Run };
                }
                let ghost s0 = self.state(*mem, *backend);
                let empty = self.tx.is_empty(mem);
                proof {
                    let idx = mem.log().last()->val->0;
                    assert(looked_at(s0, idx) == self.state(*mem, *backend));
                }
                let next = if empty {
                    WorkerNext::Run
                } else {
                    WorkerNext::GoOn { stage: WorkerStage::Drain }
                };
                Outcome { signal: false, publish: None, next }
            },
            WorkerStage::Drain => {
                self.drain(mem, backend);
                Outcome {
                    signal: true,
                    publish: None,
                    next: WorkerNext::GoOn { stage: WorkerStage::Poll },
                }
            },
            WorkerStage::Poll => {
                backend.poll();
                Outcome { signal: false, publish: None, next: WorkerNext::Run }
            },
        }
    }

    /// Handles one event of the worker loop, up to the first signal. What is left to do is for
    /// `go_on`.
    pub fn handle_event<B: AsyncNetBackend>(
        &mut self,
        event: WorkerEvent,
        shared: &SharedQueues,
        mem: &mut GuestMemory,
        backend: &mut RecordedBackend<B>,
    ) -> (out: Outcome)
        requires
            old(self).ready_for(event, *shared, old(mem).regions()),
            event matches WorkerEvent::Packet { packet } ==> packet@.len() + VIRTIO_NET_HDR_SIZE
                <= usize::MAX,
        ensures
            final(mem).regions() == old(mem).regions(),
            final(mem).backed() == old(mem).backed(),
            event is Quiesce ==> call_ensures(
                B::save_snapshot_state,
                (&old(backend).backend(),),
                out.publish->0.backend,
            ),
            event_rel(
                old(mem).regions(),
                event,
                *shared,
                old(self).state(*old(mem), *old(backend)),
                final(self).state(*final(mem), *final(backend)),
                out,
            ),
    {
        let ghost regions = mem.regions();
        let ghost s0 = self.state(*mem, *backend);
        match event {
            WorkerEvent::Quiesce => {
                let saved = backend.save_snapshot_state();
                Outcome {
                    signal: false,
                    publish: Some(Published { rx: self.rx, tx: self.tx, backend: saved }),
                    next: WorkerNext::Park,
                }
            },
            WorkerEvent::TxReady => {
                self.apply_shared_queue_state(shared, mem);
                Outcome {
                    signal: false,
                    publish: None,
                    next: WorkerNext::GoOn { stage: WorkerStage::Drain },
                }
            },
            WorkerEvent::Packet { packet } => {
                self.apply_shared_queue_state(shared, mem);
                let ghost a = self.state(*mem, *backend);
                let mut rx: Queue = self.rx;
                let sent: bool = push_to_rx_queue(&mut rx, mem, packet.as_slice());
                self.rx = rx;
                proof {
                    let s1 = self.state(*mem, *backend);
                    assert(sync_rel(regions, *shared, s0, a));
                    assert(pushed(regions, packet@, a, s1, sent));
                }
                // A flood of packets for the guest must not starve those it sends.
                Outcome {
                    signal: sent,
                    publish: None,
                    next: WorkerNext::GoOn { stage: WorkerStage::Look },
                }
            },
            WorkerEvent::Timer => {
                backend.poll();
                // An earlier signal may have been lost.
                Outcome {
                    signal: self.tx.ready,
                    publish: None,
                    next: WorkerNext::GoOn { stage: WorkerStage::Look },
                }
            },
            WorkerEvent::Wake => {
                backend.poll();
                Outcome {
                    signal: false,
                    publish: None,
                    next: WorkerNext::GoOn { stage: WorkerStage::Look },
                }
            },
            WorkerEvent::Stop => {
                backend.on_exit();
                Outcome { signal: false, publish: None, next: WorkerNext::Stop }
            },
            WorkerEvent::Resync { saved } => {
                self.apply_shared_queue_state(shared, mem);
                let ghost a = self.state(*mem, *backend);
                if let Some(data) = &saved {
                    backend.restore_snapshot_state(data.as_slice());
                }
                assert(self.state(*mem, *backend) == restored(a, saved));
                assert(sync_rel(regions, *shared, s0, a));
                Outcome {
                    signal: false,
                    publish: None,
                    next: WorkerNext::GoOn { stage: WorkerStage::Look },
                }
            },
        }
    }
}

/// What was published is taken over once: to look for it again changes nothing and reads
/// nothing.
pub proof fn publications_are_taken_over_once(
    regions: Seq<(u64, u64)>,
    shared: SharedQueues,
    w0: NetWorker,
    log0: Seq<MemOp>,
    w1: NetWorker,
    log1: Seq<MemOp>,
    w2: NetWorker,
    log2: Seq<MemOp>,
)
    requires
        applies(regions, shared, w0, log0, w1, log1),
        applies(regions, shared, w1, log1, w2, log2),
    ensures
        w2 == w1,
        log2 == log1,
        shared.queues is Some ==> w1.applied_generation == shared.generation,
{
}

/// How many stages are left at the most once `stage` has come.
pub open spec fn stages_left(stage: WorkerStage) -> int {
    match stage {
        WorkerStage::Look => 3,
        WorkerStage::Drain => 2,
        WorkerStage::Poll => 1,
    }
}

/// An event comes to its end: behind every stage the worker waits for the next event, or goes on
/// with a stage that is nearer to the end. The driver is signalled exactly when the transmit
/// queue was drained, and the backend polled behind that.
pub proof fn events_come_to_an_end(
    regions: Seq<(u64, u64)>,
    stage: WorkerStage,
    s0: WorkerState,
    s1: WorkerState,
    out: Outcome,
)
    requires
        stage_rel(regions, stage, s0, s1, out),
    ensures
        out.next == WorkerNext::Run || (out.next matches WorkerNext::GoOn { stage: later }
            && stages_left(later) < stages_left(stage)),
        out.signal <==> stage == WorkerStage::Drain,
        out.signal <==> out.next == (WorkerNext::GoOn { stage: WorkerStage::Poll }),
{
}

/// A restore never skips a chain that waits: the queue goes on where it was saved, or earlier if
/// the driver's index, read from guest memory, is earlier. The used index is the one in guest
/// memory. All else stays, and a queue that is not ready stays as it is.
pub proof fn restored_queues_skip_nothing(
    regions: Seq<(u64, u64)>,
    src: Queue,
    before: Seq<MemOp>,
    after: Seq<MemOp>,
    dst: Queue,
)
    requires
        resync_step(regions, src, before, after, dst),
        src.used_ring.0 + 2 <= u64::MAX,
        src.avail_ring.0 + 2 <= u64::MAX,
    ensures
        dst.next_avail <= src.next_avail,
        dst == (Queue { next_avail: dst.next_avail, next_used: dst.next_used, ..src }),
        !src.ready ==> dst == src && after == before,
        src.ready ==> {
            &&& after.len() == before.len() + 2
            &&& after.take(before.len() as int) == before
            &&& after[before.len() as int] matches MemOp::Read { addr, len, bytes: used }
            &&& addr == src.used_ring.0 + 2 && len == 2
            &&& used matches Some(b) ==> dst.next_used == b[0] + 256 * b[1]
            &&& used is None ==> dst.next_used == src.next_used
            &&& after[before.len() as int + 1] matches MemOp::Read { addr, len, bytes: avail }
            &&& addr == src.avail_ring.0 + 2 && len == 2
            &&& avail is None ==> dst.next_avail == src.next_avail
            &&& avail matches Some(b) ==> {
                let driver = b[0] + 256 * b[1];
                &&& driver >= src.next_avail ==> dst.next_avail == src.next_avail
                &&& driver < src.next_avail ==> dst.next_avail == driver
                &&& forall|idx: int|
                    #![trigger waits(src, driver, idx)]
                    waits(src, driver, idx) ==> waits(dst, driver, idx)
            }
        },
{
    if src.ready {
        let (mid, used_idx, avail_idx) = choose|
            mid: Seq<MemOp>,
            used_idx: Option<u16>,
            avail_idx: Option<u16>,
        |
            {
                &&& #[trigger] index_step(regions, src.used_ring, before, mid, used_idx)
                &&& #[trigger] index_step(regions, src.avail_ring, mid, after, avail_idx)
                &&& dst == resynced(src, used_idx, avail_idx)
            };
        assert(after[before.len() as int] == mid.last());
        assert(after.take(before.len() as int) =~= before);
        if let Some(b) = mid.last()->bytes {
            byte_order::bytes_count_by_their_place(b);
        }
        if let Some(b) = after.last()->bytes {
            byte_order::bytes_count_by_their_place(b);
        }
    }
}

/// Whether the chain at the available index `idx` is still to be popped from `q`, with the driver
/// at `driver`.
pub open spec fn waits(q: Queue, driver: int, idx: int) -> bool {
    q.next_avail <= idx < driver
}

/// The queues that were published are those that are taken over, each in its place.
pub proof fn published_queues_are_taken_over(
    regions: Seq<(u64, u64)>,
    shared: SharedQueues,
    w0: NetWorker,
    before: Seq<MemOp>,
    w1: NetWorker,
    after: Seq<MemOp>,
    rx: Queue,
    tx: Queue,
)
    requires
        applies(regions, shared, w0, before, w1, after),
        shared.queues == Some((rx, tx)),
    ensures
        shared.generation == w0.applied_generation ==> w1 == w0 && after == before,
        shared.generation != w0.applied_generation ==> {
            &&& w1.applied_generation == shared.generation
            &&& w1.rx == (Queue {
                next_avail: w1.rx.next_avail,
                next_used: w1.rx.next_used,
                ..rx
            })
            &&& w1.tx == (Queue {
                next_avail: w1.tx.next_avail,
                next_used: w1.tx.next_used,
                ..tx
            })
            &&& w1.rx.next_avail <= rx.next_avail
            &&& w1.tx.next_avail <= tx.next_avail
        },
{
}

/// Behind a pass that popped nothing, the queue goes back only where it stands where no chain can
/// wait: further from the driver's index than there are entries. Where chains wait it stays and
/// there is another pass, and where none does, or the index cannot be read, draining is over.
pub proof fn waiting_chains_are_not_skipped(q: Queue, idx: u16)
    ensures
        ({
            let (after, phase) = after_idle_pass(q, Some(idx));
            let n = if q.size <= q.max_size {
                q.size as int
            } else {
                q.max_size as int
            };
            let waiting = (idx - q.next_avail) % 65536;
            &&& after == (Queue { next_avail: after.next_avail, ..q })
            &&& waiting == 0 ==> after == q && phase == TxPhase::Done
            &&& 0 < waiting <= n ==> after == q && phase == TxPhase::Top
            &&& waiting > n ==> after.next_avail == idx && phase == TxPhase::Top
        }),
        after_idle_pass(q, None) == (q, TxPhase::Done),
{
}

/// A frame is handed on with the chain that held it: the backend gets what stands behind the
/// twelve bytes of the header, once, and nothing where nothing does. The chain that was popped is
/// handed back with nothing written to it.
pub proof fn frames_are_handed_on_once(
    regions: Seq<(u64, u64)>,
    from: TxState,
    round: TxRound,
    to: TxState,
)
    requires
        tx_round_step(regions, from, round, to),
    ensures
        round.data.len() > 12 ==> to.calls == from.calls.push(
            BackendCall::Tx { packet: round.data.skip(12) },
        ),
        round.data.len() <= 12 ==> to.calls == from.calls,
        round.data.len() <= 65535 ==> round.popped.next_avail == (from.queue.next_avail + 1)
            % 65536,
        round.used matches Ok(()) ==> {
            &&& to.log.len() == round.after_gather.len() + 2
            &&& to.log[round.after_gather.len() as int] matches MemOp::Write { addr, data, .. }
            &&& addr == from.queue.used_ring.0 + 4 + 8 * (from.queue.next_used as int
                % from.queue.size as int)
            &&& data[0] + 256 * data[1] + 65536 * data[2] + 16777216 * data[3] == round.head.index
            &&& data[4] == 0 && data[5] == 0 && data[6] == 0 && data[7] == 0
            &&& to.queue.next_used == (from.queue.next_used + 1) % 65536
        },
{
    if let Ok(()) = round.used {
        queue::used_elements_are_written_in_order(
            regions,
            round.popped,
            round.after_gather,
            to.queue,
            to.log,
            round.head.index,
            0,
        );
    }
}

/// Draining is over only where there is nothing left to drain: the driver's index was at the
/// next chain when it was last read, or it could not be read.
pub proof fn draining_ends_when_nothing_waits(
    regions: Seq<(u64, u64)>,
    from: TxState,
    to: TxState,
)
    requires
        drain_step_rel(regions, from, to),
        to.phase == TxPhase::Done,
        from.queue.avail_ring.0 + 2 <= u64::MAX,
    ensures
        from.phase is Drained,
        to.queue == from.queue,
        to.calls == from.calls,
        from.queue.next_avail != from.phase->Drained_mark ==> exists|more: Result<bool, Error>|
            {
                &&& #[trigger] rearm_step(regions, from, to, more)
                &&& more matches Ok(more) ==> {
                    &&& !more
                    &&& to.log.last() matches MemOp::Load { addr, val: Some(idx) }
                    &&& addr == from.queue.avail_ring.0 + 2
                    &&& idx == from.queue.next_avail
                }
            },
        from.queue.next_avail == from.phase->Drained_mark ==> {
            &&& to.log.last() matches MemOp::Read { addr, bytes, .. }
            &&& addr == from.queue.avail_ring.0 + 2
            &&& bytes matches Some(b) ==> b[0] + 256 * b[1] == from.queue.next_avail
        },
{
    if from.queue.next_avail == from.phase->Drained_mark {
        if let Some(b) = to.log.last()->bytes {
            byte_order::bytes_count_by_their_place(b);
        }
    } else {
        let more = choose|more: Result<bool, Error>| #[trigger] rearm_step(regions, from, to, more);
        if let Ok(more) = more {
            queue::chains_are_not_overlooked(regions, from.queue, from.log, to.log, more);
        }
    }
}

/// Whether `to` is the transmit side `from` with frames handed to the backend and chains taken
/// and given back.
pub open spec fn further_on(from: TxState, to: TxState) -> bool {
    &&& from.calls.is_prefix_of(to.calls)
    &&& forall|k: int|
        from.calls.len() <= k < to.calls.len() ==> (#[trigger] to.calls[k]) is Tx
    &&& to.queue == (Queue {
        next_avail: to.queue.next_avail,
        next_used: to.queue.next_used,
        num_added: to.queue.num_added,
        ..from.queue
    })
}

/// One step of draining hands the backend at most one frame and moves the indices of the queue
/// alone.
proof fn one_step_further(regions: Seq<(u64, u64)>, from: TxState, to: TxState)
    requires
        drain_step_rel(regions, from, to),
    ensures
        further_on(from, to),
        to.calls.len() <= from.calls.len() + 1,
{
}

/// Draining hands the backend frames and nothing else, behind what it got before. Of the queue
/// only the indices move.
pub proof fn draining_only_sends(
    regions: Seq<(u64, u64)>,
    from: (Queue, Seq<MemOp>, Seq<BackendCall>),
    to: (Queue, Seq<MemOp>, Seq<BackendCall>),
)
    requires
        drain_rel(regions, from, to),
    ensures
        from.2.is_prefix_of(to.2),
        forall|k: int| from.2.len() <= k < to.2.len() ==> (#[trigger] to.2[k]) is Tx,
        to.0 == (Queue {
            next_avail: to.0.next_avail,
            next_used: to.0.next_used,
            num_added: to.0.num_added,
            ..from.0
        }),
{
    let (off, run) = choose|off: Result<(), Error>, run: Seq<TxState>|
        {
            &&& run.len() >= 1
            &&& #[trigger] from.0.sets_notification(regions, from.1, run[0].log, false, off)
            &&& run[0].phase == TxPhase::Top
            &&& run[0].queue == from.0
            &&& run[0].calls == from.2
            &&& forall|i: int| 0 <= i < run.len() - 1 ==> #[trigger] drains_at(regions, run, i)
            &&& run.last().phase == TxPhase::Done || run.len() - 1 == u64::MAX
            &&& (run.last().queue, run.last().log, run.last().calls) == to
        };
    steps_further(regions, run, run.len() - 1);
}

/// So many steps of draining.
proof fn steps_further(regions: Seq<(u64, u64)>, run: Seq<TxState>, n: int)
    requires
        0 <= n < run.len(),
        forall|i: int| 0 <= i < run.len() - 1 ==> #[trigger] drains_at(regions, run, i),
    ensures
        further_on(run[0], run[n]),
    decreases n,
{
    if n > 0 {
        steps_further(regions, run, n - 1);
        assert(drains_at(regions, run, n - 1));
        one_step_further(regions, run[n - 1], run[n]);
        let (a, b, c) = (run[0].calls, run[n - 1].calls, run[n].calls);
        assert forall|k: int| a.len() <= k < c.len() implies (#[trigger] c[k]) is Tx by {
            if k < b.len() {
                assert(c[k] == b[k]);
            }
        }
        assert forall|k: int| 0 <= k < a.len() implies a[k] == c[k] by {
            assert(a[k] == b[k]);
        }
    }
}

/// A packet is pushed unless there is no buffer for it. The chain that was popped is handed back
/// with the length of header and packet, or that of its writable buffers if those are shorter.
pub proof fn packets_are_pushed_where_there_is_room(
    regions: Seq<(u64, u64)>,
    packet: Seq<u8>,
    from: (Queue, Seq<MemOp>),
    to: (Queue, Seq<MemOp>),
    sent: bool,
)
    requires
        push_rel(regions, packet, from, to, sent),
        packet.len() + 12 <= u32::MAX,
    ensures
        !sent ==> to.0 == from.0 && queue::pop_step(regions, from.0, from.1, to.0, to.1, None),
        sent ==> to.0.next_avail == (from.0.next_avail + 1) % 65536,
        sent ==> exists|round: RxRound|
            {
                &&& #[trigger] rx_round_step(regions, packet, from, round, to)
                &&& frames::fills(
                    regions,
                    round.head,
                    packet,
                    round.after_pop,
                    round.after_fill,
                    round.written,
                )
                &&& 0 <= round.written <= 12 + packet.len()
                &&& round.used matches Ok(()) ==> {
                    &&& to.1[round.after_fill.len() as int] matches MemOp::Write { addr, data, .. }
                    &&& addr == from.0.used_ring.0 + 4 + 8 * (from.0.next_used as int
                        % from.0.size as int)
                    &&& data[0] + 256 * data[1] + 65536 * data[2] + 16777216 * data[3]
                        == round.head.index
                    &&& data[4] + 256 * data[5] + 65536 * data[6] + 16777216 * data[7]
                        == round.written
                }
            },
{
    if sent {
        let round = choose|round: RxRound|
            #[trigger] rx_round_step(regions, packet, from, round, to);
        let walk = choose|walk: queue::Walk|
            {
                &&& #[trigger] queue::walked(
                    regions,
                    round.head,
                    round.after_pop,
                    walk,
                    round.after_fill,
                )
                &&& round.written == frames::filled(walk.descs, packet.len() as int)
                &&& forall|i: int|
                    0 <= i < walk.descs.len() ==> #[trigger] frames::fills_at(
                        regions,
                        walk,
                        packet,
                        i,
                    )
            };
        frames::filled_is_what_fits(walk.descs, packet.len() as int);
        if let Ok(()) = round.used {
            queue::used_elements_are_written_in_order(
                regions,
                round.popped,
                round.after_fill,
                to.0,
                to.1,
                round.head.index,
                round.written as u32,
            );
        }
    }
}

/// What each event does before its first signal. The backend is polled once on the timer and
/// when it asks for it, gets the state of a snapshot exactly if there is one, and is dismissed
/// when the worker ends. The driver is signalled at once exactly behind a packet that was pushed,
/// and on the timer if the transmit queue is ready. A notification has the transmit queue
/// drained; every other event but the end and a snapshot has it looked at.
pub proof fn events_do_their_part(
    regions: Seq<(u64, u64)>,
    event: WorkerEvent,
    shared: SharedQueues,
    s0: WorkerState,
    s1: WorkerState,
    out: Outcome,
)
    requires
        event_rel(regions, event, shared, s0, s1, out),
    ensures
        s1.calls == s0.calls + match event {
            WorkerEvent::Timer | WorkerEvent::Wake => seq![BackendCall::Poll],
            WorkerEvent::Stop => seq![BackendCall::Exit],
            WorkerEvent::Resync { saved: Some(data) } => seq![BackendCall::Restore { data: data@ }],
            _ => Seq::empty(),
        },
        out.next == match event {
            WorkerEvent::Quiesce => WorkerNext::Park,
            WorkerEvent::Stop => WorkerNext::Stop,
            WorkerEvent::TxReady => WorkerNext::GoOn { stage: WorkerStage::Drain },
            _ => WorkerNext::GoOn { stage: WorkerStage::Look },
        },
        out.publish is Some <==> event is Quiesce,
        out.publish matches Some(published) ==> published.rx == s0.rx && published.tx == s0.tx,
        event is Quiesce || event is Stop || event is Timer || event is Wake ==> {
            &&& s1.rx == s0.rx && s1.tx == s0.tx && s1.log == s0.log
            &&& s1.applied_generation == s0.applied_generation
        },
        event is Timer ==> out.signal == s0.tx.ready,
        out.signal ==> event is Timer || event is Packet,
        event matches WorkerEvent::Packet { packet } ==> exists|a: WorkerState|
            #[trigger] sync_rel(regions, shared, s0, a) && pushed(
                regions,
                packet@,
                a,
                s1,
                out.signal,
            ),
        event is TxReady ==> sync_rel(regions, shared, s0, s1),
        event is Resync ==> exists|a: WorkerState|
            #[trigger] sync_rel(regions, shared, s0, a) && s1.rx == a.rx && s1.tx == a.tx && s1.log
                == a.log,
{
    match event {
        WorkerEvent::Packet { packet } => {
            let (a, sent) = choose|a: WorkerState, sent: bool|
                {
                    &&& #[trigger] sync_rel(regions, shared, s0, a)
                    &&& #[trigger] pushed(regions, packet@, a, s1, sent)
                    &&& plain_outcome(out, sent, WorkerNext::GoOn { stage: WorkerStage::Look })
                };
            assert(s1.calls =~= s0.calls + Seq::<BackendCall>::empty());
        },
        WorkerEvent::Resync { saved } => {
            let a = choose|a: WorkerState|
                #[trigger] sync_rel(regions, shared, s0, a) && s1 == restored(a, saved);
            match saved {
                Some(data) => assert(s1.calls =~= s0.calls + seq![
                    BackendCall::Restore { data: data@ },
                ]),
                None => assert(s1.calls =~= s0.calls + Seq::<BackendCall>::empty()),
            }
        },
        WorkerEvent::Timer | WorkerEvent::Wake => {
            assert(s1.calls =~= s0.calls + seq![BackendCall::Poll]);
        },
        WorkerEvent::Stop => {
            assert(s1.calls =~= s0.calls + seq![BackendCall::Exit]);
        },
        _ => {
            assert(s1.calls =~= s0.calls + Seq::<BackendCall>::empty());
        },
    }
}

/// What each stage of an event does: a look loads the driver's index and has the queue drained
/// exactly if that is not at the next chain; draining hands frames to the backend; a poll is one
/// poll.
pub proof fn stages_do_their_part(
    regions: Seq<(u64, u64)>,
    stage: WorkerStage,
    s0: WorkerState,
    s1: WorkerState,
    out: Outcome,
)
    requires
        stage_rel(regions, stage, s0, s1, out),
        s0.tx.avail_ring.0 + 2 <= u64::MAX,
    ensures
        out.publish is None,
        s1.rx == s0.rx && s1.applied_generation == s0.applied_generation,
        stage is Poll ==> s1.calls == s0.calls.push(BackendCall::Poll) && s1.log == s0.log && s1.tx
            == s0.tx,
        stage is Look ==> {
            &&& s1.calls == s0.calls && s1.tx == s0.tx
            &&& !s0.tx.ready ==> s1.log == s0.log && out.next == WorkerNext::Run
            &&& s0.tx.ready ==> {
                &&& s1.log.len() == s0.log.len() + 1
                &&& s1.log.last() matches MemOp::Load { addr, val: Some(idx) }
                &&& addr == s0.tx.avail_ring.0 + 2
                &&& out.next == (WorkerNext::GoOn { stage: WorkerStage::Drain }) <==> idx
                    != s0.tx.next_avail
            }
        },
        stage is Drain ==> drain_rel(
            regions,
            (s0.tx, s0.log, s0.calls),
            (s1.tx, s1.log, s1.calls),
        ),
{
}

/// A wait is as long as the backend asks for, and never longer than a second.
pub proof fn waits_are_bounded(delay: Option<u64>, res: u64)
    requires
        call_ensures(wait_ns, (delay,), res),
    ensures
        res <= 1_000_000_000,
        delay matches Some(ns) ==> (ns <= 1_000_000_000 ==> res == ns),
        delay is None ==> res == 1_000_000_000,
{
}

/// Discarding takes one chain after the other from where the queue is, and hands each back with
/// nothing written to it, until no chain is left.
pub proof fn discarded_chains_are_handed_back(
    regions: Seq<(u64, u64)>,
    from: (Queue, Seq<MemOp>),
    run: Seq<(Queue, Seq<MemOp>)>,
    to: (Queue, Seq<MemOp>),
    i: int,
)
    requires
        discard_rel(regions, from, run, to),
        0 <= i < run.len() - 1,
    ensures
        run[0] == from,
        run[i + 1].0.next_avail == (run[i].0.next_avail + 1) % 65536,
        run[i + 1].0.next_used == run[i].0.next_used || run[i + 1].0.next_used == (
        run[i].0.next_used + 1) % 65536,
        exists|d: Discard|
            {
                &&& #[trigger] discard_step(regions, run[i], d, run[i + 1])
                &&& d.used is Ok ==> {
                    let q = run[i].0;
                    &&& run[i + 1].1[d.after_pop.len() as int] matches MemOp::Write {
                        addr,
                        data,
                        ..
                    }
                    &&& addr == q.used_ring.0 + 4 + 8 * (q.next_used as int % q.size as int)
                    &&& data[0] + 256 * data[1] + 65536 * data[2] + 16777216 * data[3]
                        == d.head.index
                    &&& data[4] == 0 && data[5] == 0 && data[6] == 0 && data[7] == 0
                    &&& run[i + 1].0.next_used == (q.next_used + 1) % 65536
                }
            },
        run.len() <= u64::MAX ==> queue::pop_step(
            regions,
            run.last().0,
            run.last().1,
            to.0,
            to.1,
            None,
        ) && to.0 == run.last().0,
        run.len() > u64::MAX ==> to == run.last(),
{
    assert(discards_at(regions, run, i));
    let d = choose|d: Discard| #[trigger] discard_step(regions, run[i], d, run[i + 1]);
    if let Ok(()) = d.used {
        queue::used_elements_are_written_in_order(
            regions,
            d.popped,
            d.after_pop,
            run[i + 1].0,
            run[i + 1].1,
            d.head.index,
            0,
        );
    }
    assert(discard_step(regions, run[i], d, run[i + 1]));
}

/// What a stage can be asked for: the index of the sent packets before they are looked at, and
/// all of their ring before they are drained.
pub proof fn stages_are_asked_for_their_ring(worker: NetWorker, regions: Seq<(u64, u64)>)
    ensures
        worker.ready_at(WorkerStage::Poll, regions),
        worker.ready_at(WorkerStage::Drain, regions) <==> worker.tx.readable_in(regions),
        worker.ready_at(WorkerStage::Look, regions) <==> !worker.tx.ready
            || worker.tx.countable_in(regions),
{
}

} // verus!
