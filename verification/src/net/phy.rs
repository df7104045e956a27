//! The network device as a link of the proxy's TCP/IP stack.
use std::collections::VecDeque;
use vstd::prelude::*;

use super::frames;
use super::frames::{gather, scatter, strip_header, MAX_BUFFER_SIZE, VIRTIO_NET_HDR_SIZE};
use crate::byte_order;
use crate::guest_memory::{GuestMemory, MemOp};
use crate::queue;
use crate::queue::{DescriptorChain, Error, Queue};

verus! {

/// The largest packet that goes over the link.
pub const MAX_TRANSMISSION_UNIT: usize = 1500;

/// What happened while a chain of the transmit queue was read.
pub struct RawRead {
    pub head: DescriptorChain,
    pub popped: Queue,
    pub after_pop: Seq<MemOp>,
    pub data: Seq<u8>,
    pub after_gather: Seq<MemOp>,
    pub used: Result<(), Error>,
}

/// Whether `read` took the transmit queue and the log from `from` to `to`: a chain is popped,
/// its bytes are gathered, and it is handed back with nothing written to it.
pub open spec fn raw_read_step(
    regions: Seq<(u64, u64)>,
    from: (Queue, Seq<MemOp>),
    read: RawRead,
    to: (Queue, Seq<MemOp>),
) -> bool {
    &&& queue::pop_step(regions, from.0, from.1, read.popped, read.after_pop, Some(read.head))
    &&& frames::gathers(
        regions,
        read.head,
        MAX_BUFFER_SIZE as int,
        read.after_pop,
        read.after_gather,
        read.data,
    )
    &&& queue::add_used_step(
        regions,
        read.popped,
        read.after_gather,
        to.0,
        to.1,
        read.head.index,
        0,
        read.used,
    )
    &&& read.used is Ok
}

/// Whether looking for a frame of the guest takes the transmit queue and the log from `from`
/// to `to` and gives `res`: there is no chain, or one is read, and gives what is behind the
/// header.
pub open spec fn receives_raw(
    regions: Seq<(u64, u64)>,
    from: (Queue, Seq<MemOp>),
    to: (Queue, Seq<MemOp>),
    res: Option<Seq<u8>>,
) -> bool {
    ||| res is None && queue::pop_step(regions, from.0, from.1, to.0, to.1, None)
    ||| exists|read: RawRead|
        {
            &&& #[trigger] raw_read_step(regions, from, read, to)
            &&& res == frames::frame_in(read.data)
        }
}

/// The bytes of a frame, if there is one.
pub open spec fn frame_bytes(frame: Option<Vec<u8>>) -> Option<Seq<u8>> {
    match frame {
        Some(frame) => Some(frame@),
        None => None,
    }
}

/// What happened while a frame was put into the receive queue.
pub struct RawWrite {
    pub head: DescriptorChain,
    pub popped: Queue,
    pub after_pop: Seq<MemOp>,
    pub after_scatter: Seq<MemOp>,
    pub written: u32,
    pub used: Result<(), Error>,
}

/// Whether `write` took the receive queue and the log from `from` to `to`: a chain is popped,
/// `frame` is spread over it, and it is handed back with the number of bytes written.
pub open spec fn raw_write_step(
    regions: Seq<(u64, u64)>,
    frame: Seq<u8>,
    from: (Queue, Seq<MemOp>),
    write: RawWrite,
    to: (Queue, Seq<MemOp>),
) -> bool {
    &&& queue::pop_step(
        regions,
        from.0,
        from.1,
        write.popped,
        write.after_pop,
        Some(write.head),
    )
    &&& frames::scatters(
        regions,
        write.head,
        frame,
        write.after_pop,
        write.after_scatter,
        write.written as int,
    )
    &&& queue::add_used_step(
        regions,
        write.popped,
        write.after_scatter,
        to.0,
        to.1,
        write.head.index,
        write.written,
        write.used,
    )
    &&& write.used is Ok
}

/// Which of its queues the guest is to be told about.
#[derive(Clone, Copy, Debug, PartialEq, Eq, Structural)]
pub struct Signals {
    pub rx: bool,
    pub tx: bool,
}

/// The two queues of a link and what was done to the memory.
pub struct LinkState {
    pub rx: Queue,
    pub tx: Queue,
    pub log: Seq<MemOp>,
}

/// What happened at the end of a round.
pub struct RoundEnd {
    pub after_rx: Seq<MemOp>,
    pub after_tx: Seq<MemOp>,
    pub after_rx_on: Seq<MemOp>,
    pub rx_on: Result<bool, Error>,
    pub tx_on: Result<bool, Error>,
}

/// Whether `end` leads from `from` to `to`: it is asked about both queues whether to tell the
/// guest, and the notifications of both are asked for again.
pub open spec fn round_end_step(
    regions: Seq<(u64, u64)>,
    from: LinkState,
    end: RoundEnd,
    signals: Signals,
    to: LinkState,
) -> bool {
    &&& from.rx.asks_notification(regions, from.log, to.rx, end.after_rx, Ok(signals.rx))
    &&& from.tx.asks_notification(regions, end.after_rx, to.tx, end.after_tx, Ok(signals.tx))
    &&& to.rx.enables_notification(regions, end.after_tx, end.after_rx_on, end.rx_on)
    &&& end.rx_on is Ok
    &&& to.tx.enables_notification(regions, end.after_rx_on, to.log, end.tx_on)
    &&& end.tx_on is Ok
}

/// Whether the end of a round leads from `from` to `to`.
pub open spec fn ends_round(
    regions: Seq<(u64, u64)>,
    from: LinkState,
    signals: Signals,
    to: LinkState,
) -> bool {
    exists|end: RoundEnd| #[trigger] round_end_step(regions, from, end, signals, to)
}

/// The link: the two queues, and the frames of the guest that wait for the stack.
pub struct VirtualDevice {
    pub rx_buffer: VecDeque<Vec<u8>>,
    pub rx: Queue,
    pub tx: Queue,
}

impl VirtualDevice {
    pub fn new(rx: Queue, tx: Queue) -> (res: VirtualDevice)
        ensures
            res.rx == rx,
            res.tx == tx,
            res.rx_buffer@ == Seq::<Vec<u8>>::empty(),
    {
        VirtualDevice { rx_buffer: VecDeque::new(), rx, tx }
    }

    /// The next frame that the guest sends, without its header. A chain that holds no more
    /// than a header is handed back and gives nothing.
    pub fn receive_raw_from_guest(&mut self, mem: &mut GuestMemory) -> (res: Option<Vec<u8>>)
        requires
            old(self).tx.readable_in(old(mem).regions()),
            old(self).tx.writable_in(old(mem).regions()),
        ensures
            final(mem).regions() == old(mem).regions(),
            final(mem).backed() == old(mem).backed(),
            final(self).rx == old(self).rx,
            final(self).rx_buffer@ == old(self).rx_buffer@,
            final(self).tx.readable_in(final(mem).regions()),
            final(self).tx.writable_in(final(mem).regions()),
            receives_raw(
                old(mem).regions(),
                (old(self).tx, old(mem).log()),
                (final(self).tx, final(mem).log()),
                frame_bytes(res),
            ),
    {
        let ghost regions = mem.regions();
        let ghost from = (self.tx, mem.log());
        let mut tx: Queue = self.tx;
        let head = match tx.pop(mem) {
            Some(head) => head,
            None => {
                self.tx = tx;
                return None;
            },
        };
        let ghost popped = tx;
        let ghost after_pop = mem.log();
        let head_index: u16 = head.index;
        let data = gather(head, mem, MAX_BUFFER_SIZE);
        let ghost after_gather = mem.log();
        let ghost gathered = data@;
        let used = tx.add_used(mem, head_index, 0);
        proof {
            queue::popped_chain_is_sound(regions, from.0, from.1, popped, after_pop, head);
            queue::add_used_succeeds(
                regions,
                popped,
                after_gather,
                tx,
                mem.log(),
                head_index,
                0,
                used,
            );
            let read = RawRead {
                head,
                popped,
                after_pop,
                data: gathered,
                after_gather,
                used,
            };
            assert(raw_read_step(regions, from, read, (tx, mem.log())));
        }
        self.tx = tx;
        strip_header(data)
    }

    /// Whether the guest has a buffer for a frame.
    pub fn can_transmit(&self, mem: &mut GuestMemory) -> (res: bool)
        requires
            self.rx.readable_in(old(mem).regions()),
        ensures
            final(mem).regions() == old(mem).regions(),
            final(mem).backed() == old(mem).backed(),
            final(mem).log().last()->val is Some,
            final(mem).log() == old(mem).log().push(
                MemOp::Load {
                    addr: self.rx.avail_idx_addr() as u64,
                    val: final(mem).log().last()->val,
                },
            ),
            res == (final(mem).log().last()->val->0 != self.rx.next_avail),
    {
        !self.rx.is_empty(mem)
    }

    /// Gives `packet` to the guest behind a header of zeros; it is dropped where there is no
    /// buffer for it.
    pub fn transmit(&mut self, mem: &mut GuestMemory, packet: &[u8])
        requires
            old(self).rx.readable_in(old(mem).regions()),
            old(self).rx.writable_in(old(mem).regions()),
            packet@.len() + VIRTIO_NET_HDR_SIZE <= MAX_BUFFER_SIZE,
        ensures
            final(mem).regions() == old(mem).regions(),
            final(mem).backed() == old(mem).backed(),
            final(self).tx == old(self).tx,
            final(self).rx_buffer@ == old(self).rx_buffer@,
            final(self).rx.readable_in(final(mem).regions()),
            final(self).rx.writable_in(final(mem).regions()),
            ({
                let from = (old(self).rx, old(mem).log());
                let to = (final(self).rx, final(mem).log());
                let frame = byte_order::zeros(VIRTIO_NET_HDR_SIZE as nat) + packet@;
                ||| queue::pop_step(old(mem).regions(), from.0, from.1, to.0, to.1, None)
                ||| exists|write: RawWrite| #[trigger]
                    raw_write_step(old(mem).regions(), frame, from, write, to)
            }),
    {
        let ghost regions = mem.regions();
        let ghost from = (self.rx, mem.log());
        let mut frame: Vec<u8> = vec![0, 0, 0, 0, 0, 0, 0, 0, 0, 0, 0, 0];
        frame.extend_from_slice(packet);
        proof {
            assert(frame@ =~= byte_order::zeros(VIRTIO_NET_HDR_SIZE as nat) + packet@);
        }
        let mut rx: Queue = self.rx;
        let head = match rx.pop(mem) {
            Some(head) => head,
            None => {
                self.rx = rx;
                return ;
            },
        };
        let ghost popped = rx;
        let ghost after_pop = mem.log();
        let head_index: u16 = head.index;
        let written: usize = scatter(head, mem, frame.as_slice());
        let ghost after_scatter = mem.log();
        let used = rx.add_used(mem, head_index, written as u32);
        proof {
            queue::popped_chain_is_sound(regions, from.0, from.1, popped, after_pop, head);
            queue::add_used_succeeds(
                regions,
                popped,
                after_scatter,
                rx,
                mem.log(),
                head_index,
                written as u32,
                used,
            );
            let write = RawWrite {
                head,
                popped,
                after_pop,
                after_scatter,
                written: written as u32,
                used,
            };
            assert(raw_write_step(regions, frame@, from, write, (rx, mem.log())));
        }
        self.rx = rx;
    }

    /// The link's queues with a log.
    pub open spec fn state_with(&self, log: Seq<MemOp>) -> LinkState {
        LinkState { rx: self.rx, tx: self.tx, log }
    }

    /// Ends a round of the proxy: which queues the guest is to be told about, and the request
    /// for notifications of both. It succeeds exactly if the fields for that are in reach.
    pub fn end_round(&mut self, mem: &mut GuestMemory) -> (res: Result<Signals, Error>)
        ensures
            final(mem).regions() == old(mem).regions(),
            final(mem).backed() == old(mem).backed(),
            final(self).rx_buffer@ == old(self).rx_buffer@,
            res is Ok <==> old(self).rx.notifiable_in(old(mem).regions()) && old(
                self,
            ).tx.notifiable_in(old(mem).regions()),
            res matches Ok(signals) ==> ends_round(
                old(mem).regions(),
                old(self).state_with(old(mem).log()),
                signals,
                final(self).state_with(final(mem).log()),
            ),
    {
        let ghost from = self.state_with(mem.log());
        let ghost regions = mem.regions();
        let rx: bool = match self.rx.needs_notification(mem) {
            Ok(needed) => needed,
            Err(e) => return Err(e),
        };
        let ghost after_rx = mem.log();
        let tx: bool = match self.tx.needs_notification(mem) {
            Ok(needed) => needed,
            Err(e) => return Err(e),
        };
        let ghost after_tx = mem.log();
        let rx_on = self.rx.enable_notification(mem);
        let ghost after_rx_on = mem.log();
        if let Err(e) = rx_on {
            return Err(e);
        }
        let tx_on = self.tx.enable_notification(mem);
        if let Err(e) = tx_on {
            return Err(e);
        }
        let signals = Signals { rx, tx };
        let ghost end = RoundEnd { after_rx, after_tx, after_rx_on, rx_on, tx_on };
        let ghost to = self.state_with(mem.log());
        assert(round_end_step(regions, from, end, signals, to));
        Ok(signals)
    }

    /// Keeps a frame of the guest for the stack.
    pub fn keep(&mut self, frame: Vec<u8>)
        ensures
            final(self).rx_buffer@ == old(self).rx_buffer@.push(frame),
            final(self).rx == old(self).rx,
            final(self).tx == old(self).tx,
    {
        self.rx_buffer.push_back(frame);
    }

    /// The oldest frame that was kept for the stack.
    pub fn receive(&mut self) -> (res: Option<Vec<u8>>)
        ensures
            final(self).rx == old(self).rx,
            final(self).tx == old(self).tx,
            match res {
                Some(frame) => {
                    &&& old(self).rx_buffer@.len() > 0
                    &&& frame == old(self).rx_buffer@[0]
                    &&& final(self).rx_buffer@ == old(self).rx_buffer@.skip(1)
                },
                None => {
                    &&& old(self).rx_buffer@.len() == 0
                    &&& final(self).rx_buffer@ == old(self).rx_buffer@
                },
            },
    {
        let res = self.rx_buffer.pop_front();
        proof {
            if res is Some {
                assert(self.rx_buffer@ =~= old(self).rx_buffer@.skip(1));
            }
        }
        res
    }
}

/// A frame of the guest is all that stands behind the twelve bytes of the header in the chain
/// that was popped, which is handed back with nothing written to it. A chain without that gives
/// nothing and is handed back too.
pub proof fn sent_frames_are_received(
    regions: Seq<(u64, u64)>,
    from: (Queue, Seq<MemOp>),
    to: (Queue, Seq<MemOp>),
    res: Option<Seq<u8>>,
)
    requires
        receives_raw(regions, from, to, res),
    ensures
        res is None ==> queue::pop_step(regions, from.0, from.1, to.0, to.1, None) || exists|
            read: RawRead,
        |
            #[trigger] raw_read_step(regions, from, read, to) && read.data.len() <= 12,
        res matches Some(frame) ==> exists|read: RawRead|
            {
                &&& #[trigger] raw_read_step(regions, from, read, to)
                &&& read.data.len() == 12 + frame.len()
                &&& frame.len() > 0
                &&& read.data.skip(12) == frame
            },
        forall|read: RawRead| #[trigger]
            raw_read_step(regions, from, read, to) ==> {
                &&& to.1[read.after_gather.len() as int] matches MemOp::Write { addr, data, .. }
                &&& addr == from.0.used_ring.0 + 4 + 8 * (from.0.next_used as int
                    % from.0.size as int)
                &&& data[0] + 256 * data[1] + 65536 * data[2] + 16777216 * data[3]
                    == read.head.index
                &&& data[4] == 0 && data[5] == 0 && data[6] == 0 && data[7] == 0
                &&& to.0.next_avail == (from.0.next_avail + 1) % 65536
                &&& to.0.next_used == (from.0.next_used + 1) % 65536
            },
{
    assert forall|read: RawRead| #[trigger] raw_read_step(regions, from, read, to) implies {
        &&& to.1[read.after_gather.len() as int] matches MemOp::Write { addr, data, .. }
        &&& addr == from.0.used_ring.0 + 4 + 8 * (from.0.next_used as int % from.0.size as int)
        &&& data[0] + 256 * data[1] + 65536 * data[2] + 16777216 * data[3] == read.head.index
        &&& data[4] == 0 && data[5] == 0 && data[6] == 0 && data[7] == 0
        &&& to.0.next_avail == (from.0.next_avail + 1) % 65536
        &&& to.0.next_used == (from.0.next_used + 1) % 65536
    } by {
        queue::used_elements_are_written_in_order(
            regions,
            read.popped,
            read.after_gather,
            to.0,
            to.1,
            read.head.index,
            0,
        );
    }
}

/// A chain that was filled with a frame is handed back with the number of bytes that are in it.
pub proof fn filled_chains_are_reported(
    regions: Seq<(u64, u64)>,
    frame: Seq<u8>,
    from: (Queue, Seq<MemOp>),
    write: RawWrite,
    to: (Queue, Seq<MemOp>),
)
    requires
        raw_write_step(regions, frame, from, write, to),
    ensures
        write.written <= frame.len(),
        frames::scatters(
            regions,
            write.head,
            frame,
            write.after_pop,
            write.after_scatter,
            write.written as int,
        ),
        to.1[write.after_scatter.len() as int] matches MemOp::Write { addr, data, .. } && {
            &&& addr == from.0.used_ring.0 + 4 + 8 * (from.0.next_used as int
                % from.0.size as int)
            &&& data[0] + 256 * data[1] + 65536 * data[2] + 16777216 * data[3] == write.head.index
            &&& data[4] + 256 * data[5] + 65536 * data[6] + 16777216 * data[7] == write.written
        },
        to.0.next_avail == (from.0.next_avail + 1) % 65536,
        to.0.next_used == (from.0.next_used + 1) % 65536,
{
    queue::used_elements_are_written_in_order(
        regions,
        write.popped,
        write.after_scatter,
        to.0,
        to.1,
        write.head.index,
        write.written,
    );
    let walk = choose|walk: queue::Walk|
        {
            &&& #[trigger] queue::walked(
                regions,
                write.head,
                write.after_pop,
                walk,
                write.after_scatter,
            )
            &&& write.written as int == frames::placed(regions, walk.descs, frame.len() as int)
            &&& forall|i: int|
                0 <= i < walk.descs.len() ==> #[trigger] frames::scatters_at(
                    regions,
                    walk,
                    frame,
                    i,
                )
        };
    frames::frames_arrive_in_order(
        regions,
        write.head,
        frame,
        write.after_pop,
        write.after_scatter,
        write.written as int,
        walk,
    );
}

/// At the end of a round the guest is told of each queue on its own: always where it has no event
/// indices, and otherwise exactly if it waits for something that was given back. Notifications
/// of both queues are asked for behind that.
pub proof fn rounds_end_with_signals(
    regions: Seq<(u64, u64)>,
    from: LinkState,
    end: RoundEnd,
    signals: Signals,
    to: LinkState,
)
    requires
        round_end_step(regions, from, end, signals, to),
    ensures
        !from.rx.event_idx_enabled ==> signals.rx && to.rx == from.rx,
        !from.tx.event_idx_enabled ==> signals.tx && to.tx == from.tx,
        from.rx.event_idx_enabled ==> to.rx == (Queue { num_added: 0, ..from.rx }) && (
        end.after_rx.last() matches MemOp::Load { addr, val: Some(event) } && addr
            == from.rx.avail_ring.0 + 4 + 2 * from.rx.size && (signals.rx <==> exists|back: int|
            1 <= back <= from.rx.num_added && event == #[trigger] queue::ring_index(
                from.rx.next_used - back,
            ))),
        from.tx.event_idx_enabled ==> to.tx == (Queue { num_added: 0, ..from.tx }) && (
        end.after_tx.last() matches MemOp::Load { addr, val: Some(event) } && addr
            == from.tx.avail_ring.0 + 4 + 2 * from.tx.size && (signals.tx <==> exists|back: int|
            1 <= back <= from.tx.num_added && event == #[trigger] queue::ring_index(
                from.tx.next_used - back,
            ))),
        to.log.len() == end.after_tx.len() + 6,
{
    queue::drivers_are_notified_of_what_they_wait_for(
        regions,
        from.rx,
        from.log,
        to.rx,
        end.after_rx,
        signals.rx,
    );
    queue::drivers_are_notified_of_what_they_wait_for(
        regions,
        from.tx,
        end.after_rx,
        to.tx,
        end.after_tx,
        signals.tx,
    );
    queue::chains_are_not_overlooked(
        regions,
        to.rx,
        end.after_tx,
        end.after_rx_on,
        end.rx_on->Ok_0,
    );
    queue::chains_are_not_overlooked(regions, to.tx, end.after_rx_on, to.log, end.tx_on->Ok_0);
}

} // verus!
