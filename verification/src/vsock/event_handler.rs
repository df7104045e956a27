//! Which event of the socket device calls for what.
use vstd::prelude::*;

use super::device;
use super::device::{PumpState, Vsock};
use super::muxer::{MuxCall, RecordedMuxer, VsockMuxer};
use crate::guest_memory::{GuestMemory, MemOp};
use crate::virtio_device;

verus! {

/// The descriptors that the device waits on.
#[derive(Clone, Copy, Debug, PartialEq, Eq, Structural)]
pub struct VsockFds {
    pub activate: i32,
    pub rx: i32,
    pub tx: i32,
    pub events: i32,
}

/// What an event calls for.
#[derive(Clone, Copy, Debug, PartialEq, Eq, Structural)]
pub enum VsockEvent {
    /// Wait for the queues from here on.
    Activate,
    /// Fill buffers for the guest.
    Rx,
    /// Take the packets of the guest; then fill buffers for it, if packets wait.
    Tx,
    /// Nothing.
    Events,
    /// The device is not active.
    Spurious,
    /// The device does not know the descriptor.
    Unexpected,
}

/// Decides what an event on the descriptor `source` calls for.
pub fn process(source: i32, fds: &VsockFds, activated: bool) -> (res: VsockEvent)
    ensures
        res == if source == fds.activate {
            VsockEvent::Activate
        } else if !activated {
            VsockEvent::Spurious
        } else if source == fds.rx {
            VsockEvent::Rx
        } else if source == fds.tx {
            VsockEvent::Tx
        } else if source == fds.events {
            VsockEvent::Events
        } else {
            VsockEvent::Unexpected
        },
{
    if source == fds.activate {
        VsockEvent::Activate
    } else if !activated {
        VsockEvent::Spurious
    } else if source == fds.rx {
        VsockEvent::Rx
    } else if source == fds.tx {
        VsockEvent::Tx
    } else if source == fds.events {
        VsockEvent::Events
    } else {
        VsockEvent::Unexpected
    }
}

/// Whether an event of a queue is one: there is something to read, and nothing else.
pub fn is_queue_event(event_set: u32) -> (res: bool)
    ensures
        res == (event_set == virtio_device::EVENT_IN),
{
    event_set == virtio_device::EVENT_IN
}

/// How an event of the queue for sent packets came out: after the packets of the guest,
/// buffers are filled for it if packets wait.
pub struct TxEvent {
    /// The queue for sent packets once its packets were taken.
    pub sent: PumpState,
    pub waiting: bool,
    /// The queue for received packets after that.
    pub received: PumpState,
}

/// Whether `event` leads from the device `from` to the device `to`.
pub open spec fn tx_event_step(
    regions: Seq<(u64, u64)>,
    from: Vsock,
    log: Seq<MemOp>,
    calls: Seq<MuxCall>,
    event: TxEvent,
    to: Vsock,
) -> bool {
    let asked = PumpState {
        queue: from.queue_rx,
        log: event.sent.log,
        calls: event.sent.calls.push(MuxCall::Pending { waiting: event.waiting }),
        have_used: false,
    };
    &&& device::pumps(
        regions,
        true,
        PumpState { queue: from.queue_tx, log, calls, have_used: false },
        event.sent,
    )
    &&& if event.waiting {
        device::pumps(regions, false, asked, event.received)
    } else {
        event.received == asked
    }
    &&& to.queue_tx == event.sent.queue
    &&& to.queue_rx == event.received.queue
    &&& to.queues@ == if event.waiting {
        from.queues@.update(1, to.queue_tx).update(0, to.queue_rx)
    } else {
        from.queues@.update(1, to.queue_tx)
    }
    &&& to == (Vsock {
        queue_rx: to.queue_rx,
        queue_tx: to.queue_tx,
        queues: to.queues,
        ..from
    })
}

/// Whether an event of the queue for sent packets leads from `from` to `to`, and from the
/// accesses and calls before it to those after it; `raise` says whether chains were given
/// back.
pub open spec fn handles_tx(
    regions: Seq<(u64, u64)>,
    from: Vsock,
    log0: Seq<MemOp>,
    calls0: Seq<MuxCall>,
    to: Vsock,
    log1: Seq<MemOp>,
    calls1: Seq<MuxCall>,
    raise: bool,
) -> bool {
    exists|event: TxEvent|
        {
            &&& #[trigger] tx_event_step(regions, from, log0, calls0, event, to)
            &&& log1 == event.received.log
            &&& calls1 == event.received.calls
            &&& raise == (event.sent.have_used || event.received.have_used)
        }
}

impl Vsock {
    /// Handles an event of the queue for received packets, which was `consumed` if it could be
    /// read: `true` if the guest is to be interrupted.
    pub fn handle_rxq_event<M: VsockMuxer>(
        &mut self,
        event_set: u32,
        consumed: bool,
        mem: &mut GuestMemory,
        muxer: &mut RecordedMuxer<M>,
    ) -> (raise: bool)
        requires
            old(self).wf(),
            old(self).activated,
            old(self).queue_rx.readable_in(old(mem).regions()),
        ensures
            final(mem).regions() == old(mem).regions(),
            final(mem).backed() == old(mem).backed(),
            if event_set == virtio_device::EVENT_IN && consumed {
                &&& final(self).queues@ == old(self).queues@.update(0, final(self).queue_rx)
                &&& *final(self) == (Vsock {
                    queue_rx: final(self).queue_rx,
                    queues: final(self).queues,
                    ..*old(self)
                })
                &&& device::pumps(
                    old(mem).regions(),
                    false,
                    PumpState {
                        queue: old(self).queue_rx,
                        log: old(mem).log(),
                        calls: old(muxer).calls(),
                        have_used: false,
                    },
                    PumpState {
                        queue: final(self).queue_rx,
                        log: final(mem).log(),
                        calls: final(muxer).calls(),
                        have_used: raise,
                    },
                )
            } else {
                &&& !raise
                &&& *final(self) == *old(self)
                &&& final(mem).log() == old(mem).log()
                &&& final(muxer).calls() == old(muxer).calls()
            },
    {
        if is_queue_event(event_set) && consumed {
            self.process_stream_rx(mem, muxer)
        } else {
            false
        }
    }

    /// Handles an event of the queue for sent packets, which was `consumed` if it could be read:
    /// `true` if the guest is to be interrupted.
    pub fn handle_txq_event<M: VsockMuxer>(
        &mut self,
        event_set: u32,
        consumed: bool,
        mem: &mut GuestMemory,
        muxer: &mut RecordedMuxer<M>,
    ) -> (raise: bool)
        requires
            old(self).wf(),
            old(self).activated,
            old(self).queue_rx.readable_in(old(mem).regions()),
            old(self).queue_tx.readable_in(old(mem).regions()),
        ensures
            final(mem).regions() == old(mem).regions(),
            final(mem).backed() == old(mem).backed(),
            if event_set == virtio_device::EVENT_IN && consumed {
                handles_tx(
                    old(mem).regions(),
                    *old(self),
                    old(mem).log(),
                    old(muxer).calls(),
                    *final(self),
                    final(mem).log(),
                    final(muxer).calls(),
                    raise,
                )
            } else {
                &&& !raise
                &&& *final(self) == *old(self)
                &&& final(mem).log() == old(mem).log()
                &&& final(muxer).calls() == old(muxer).calls()
            },
    {
        if !is_queue_event(event_set) || !consumed {
            return false;
        }
        let tx_used: bool = self.process_stream_tx(mem, muxer);
        let ghost sent = PumpState {
            queue: self.queue_tx,
            log: mem.log(),
            calls: muxer.calls(),
            have_used: tx_used,
        };
        let waiting: bool = muxer.has_pending_rx();
        let mut rx_used = false;
        if waiting {
            rx_used = self.process_stream_rx(mem, muxer);
        }
        proof {
            let received = PumpState {
                queue: self.queue_rx,
                log: mem.log(),
                calls: muxer.calls(),
                have_used: rx_used,
            };
            let event = TxEvent { sent, waiting, received };
            assert(tx_event_step(
                old(mem).regions(),
                *old(self),
                old(mem).log(),
                old(muxer).calls(),
                event,
                *self,
            ));
        }
        tx_used || rx_used
    }
}

/// An event of the queue for sent packets takes the packets of the guest first. Then the
/// multiplexer is asked whether packets wait for it, and buffers are filled exactly if they do.
/// The guest is interrupted exactly if chains were given back in either queue.
pub proof fn sent_packets_come_first(
    regions: Seq<(u64, u64)>,
    from: Vsock,
    log0: Seq<MemOp>,
    calls0: Seq<MuxCall>,
    to: Vsock,
    log1: Seq<MemOp>,
    calls1: Seq<MuxCall>,
    raise: bool,
)
    requires
        handles_tx(regions, from, log0, calls0, to, log1, calls1, raise),
        from.queues@.len() >= 2,
    ensures
        exists|event: TxEvent|
            {
                &&& #[trigger] tx_event_step(regions, from, log0, calls0, event, to)
                &&& device::pumps(
                    regions,
                    true,
                    PumpState { queue: from.queue_tx, log: log0, calls: calls0, have_used: false },
                    event.sent,
                )
                &&& !event.waiting ==> {
                    &&& calls1 == event.sent.calls.push(MuxCall::Pending { waiting: false })
                    &&& log1 == event.sent.log
                    &&& to.queue_rx == from.queue_rx
                    &&& raise == event.sent.have_used
                    &&& to.queues@[0] == from.queues@[0]
                }
                &&& event.waiting ==> {
                    &&& device::pumps(
                        regions,
                        false,
                        PumpState {
                            queue: from.queue_rx,
                            log: event.sent.log,
                            calls: event.sent.calls.push(MuxCall::Pending { waiting: true }),
                            have_used: false,
                        },
                        event.received,
                    )
                    &&& calls1 == event.received.calls && log1 == event.received.log
                    &&& raise <==> event.sent.have_used || event.received.have_used
                    &&& to.queues@[0] == to.queue_rx
                }
                &&& to.queues@[1] == to.queue_tx && to.queue_tx == event.sent.queue
            },
        to.cid == from.cid && to.activated == from.activated,
{
    let event = choose|event: TxEvent|
        {
            &&& #[trigger] tx_event_step(regions, from, log0, calls0, event, to)
            &&& log1 == event.received.log
            &&& calls1 == event.received.calls
            &&& raise == (event.sent.have_used || event.received.have_used)
        };
    assert(tx_event_step(regions, from, log0, calls0, event, to));
}

} // verus!
