//! The rounds of the proxy: the queues that events silence, the frames of the guest, and the
//! sessions that go when they were idle for too long.
use vstd::prelude::*;

use super::phy;
use super::phy::VirtualDevice;
use super::sessions;
use super::sessions::{cleanup_due, Action, EphemeralPorts, EventSource, Sessions};
use crate::guest_memory::{GuestMemory, MemOp};
use crate::queue::{Error, Queue};

verus! {

/// The proxy: the link to the guest, the tables of its sessions, the ports of its own
/// connections, and when it last looked for stale sessions.
pub struct ProxyNetWorker {
    pub device: VirtualDevice,
    pub sessions: Sessions,
    pub ports: EphemeralPorts,
    pub last_cleanup: u64,
}

/// Whether taking a frame of the guest leads from one state to the other and gives `res`: a
/// frame is kept for the TCP/IP stack exactly if it is passed on.
pub open spec fn takes_frame(
    regions: Seq<(u64, u64)>,
    from: ProxyNetWorker,
    log0: Seq<MemOp>,
    now: u64,
    to: ProxyNetWorker,
    log1: Seq<MemOp>,
    res: Option<Action>,
) -> bool {
    match res {
        None => {
            &&& phy::receives_raw(regions, (from.device.tx, log0), (to.device.tx, log1), None)
            &&& to.sessions@ == from.sessions@
            &&& to.device.rx_buffer@ == from.device.rx_buffer@
        },
        Some(action) => exists|frame: Vec<u8>|
            {
                &&& phy::receives_raw(
                    regions,
                    (from.device.tx, log0),
                    (to.device.tx, log1),
                    Some(frame@),
                )
                &&& #[trigger] sessions::decides(
                    from.sessions@,
                    frame@,
                    now,
                    action,
                    to.sessions@,
                )
                &&& to.device.rx_buffer@ == if action is PassOn {
                    from.device.rx_buffer@.push(frame)
                } else {
                    from.device.rx_buffer@
                }
            },
    }
}

impl ProxyNetWorker {
    /// A proxy over the two queues that listens for connections to the guest ports `listeners`.
    pub fn new(rx: Queue, tx: Queue, listeners: &Vec<u16>, now: u64) -> (res: ProxyNetWorker)
        requires
            listeners@.len() < u64::MAX - sessions::HOST_SOCKET_START_TOKEN,
        ensures
            res.device.rx == rx,
            res.device.tx == tx,
            res.device.rx_buffer@ == Seq::<Vec<u8>>::empty(),
            sessions::starts_with(res.sessions@, listeners@),
            res.ports.next == sessions::EPHEMERAL_PORT_MIN,
            res.last_cleanup == now,
    {
        ProxyNetWorker {
            device: VirtualDevice::new(rx, tx),
            sessions: Sessions::new(listeners),
            ports: EphemeralPorts::new(),
            last_cleanup: now,
        }
    }

    /// Asks for no notifications of a queue while its event is handled; other events change
    /// nothing.
    pub fn silence(&mut self, source: EventSource, mem: &mut GuestMemory) -> (res: Result<
        (),
        Error,
    >)
        ensures
            *final(self) == *old(self),
            final(mem).regions() == old(mem).regions(),
            final(mem).backed() == old(mem).backed(),
            match source {
                EventSource::TxQueue => old(self).device.tx.sets_notification(
                    old(mem).regions(),
                    old(mem).log(),
                    final(mem).log(),
                    false,
                    res,
                ),
                EventSource::RxQueue => old(self).device.rx.sets_notification(
                    old(mem).regions(),
                    old(mem).log(),
                    final(mem).log(),
                    false,
                    res,
                ),
                _ => res is Ok && final(mem).log() == old(mem).log(),
            },
    {
        match source {
            EventSource::TxQueue => self.device.tx.disable_notification(mem),
            EventSource::RxQueue => self.device.rx.disable_notification(mem),
            _ => Ok(()),
        }
    }

    /// Takes the next frame of the guest and decides on it; nothing if the guest has sent
    /// none, or one without any bytes behind the header. After each frame the guest is to be
    /// told of the buffer that it got back.
    pub fn take_frame(&mut self, mem: &mut GuestMemory, now: u64) -> (res: Option<Action>)
        requires
            old(self).device.tx.readable_in(old(mem).regions()),
            old(self).device.tx.writable_in(old(mem).regions()),
            old(self).sessions@.next_token < u64::MAX,
        ensures
            final(mem).regions() == old(mem).regions(),
            final(mem).backed() == old(mem).backed(),
            final(self).device.rx == old(self).device.rx,
            final(self).device.tx.readable_in(final(mem).regions()),
            final(self).device.tx.writable_in(final(mem).regions()),
            final(self).ports == old(self).ports,
            final(self).last_cleanup == old(self).last_cleanup,
            takes_frame(
                old(mem).regions(),
                *old(self),
                old(mem).log(),
                now,
                *final(self),
                final(mem).log(),
                res,
            ),
    {
        match self.device.receive_raw_from_guest(mem) {
            Some(frame) => {
                let ghost taken = frame;
                let action = self.sessions.intercept(frame.as_slice(), now);
                if let Action::PassOn = action {
                    self.device.keep(frame);
                }
                assert(sessions::decides(
                    old(self).sessions@,
                    taken@,
                    now,
                    action,
                    self.sessions@,
                ));
                Some(action)
            },
            None => None,
        }
    }

    /// Looks for stale sessions, if it is time to, and forgets them. Gives their tokens, whose
    /// sockets are to be closed.
    pub fn clean_up(&mut self, now: u64) -> (gone: Vec<u64>)
        ensures
            final(self).device == old(self).device,
            final(self).ports == old(self).ports,
            if now - old(self).last_cleanup > sessions::CLEANUP_INTERVAL_MS {
                &&& forall|t: u64| #[trigger]
                    gone@.contains(t) <==> sessions::stale_in(old(self).sessions@, t, now)
                &&& sessions::cleaned(old(self).sessions@, final(self).sessions@, now)
                &&& final(self).last_cleanup == now
            } else {
                &&& gone@ == Seq::<u64>::empty()
                &&& final(self).sessions@ == old(self).sessions@
                &&& final(self).last_cleanup == old(self).last_cleanup
            },
    {
        if cleanup_due(now, self.last_cleanup) {
            let gone = self.sessions.expire(now);
            self.last_cleanup = now;
            gone
        } else {
            Vec::new()
        }
    }
}

/// A frame that the guest sent is kept for the TCP/IP stack, behind those that are kept already,
/// exactly if it is neither the start of a connection nor a datagram. Nothing is kept where
/// nothing was sent.
pub proof fn frames_are_kept_for_the_stack(
    regions: Seq<(u64, u64)>,
    from: ProxyNetWorker,
    log0: Seq<MemOp>,
    now: u64,
    to: ProxyNetWorker,
    log1: Seq<MemOp>,
    res: Option<Action>,
)
    requires
        takes_frame(regions, from, log0, now, to, log1, res),
    ensures
        res is None ==> to.device.rx_buffer@ == from.device.rx_buffer@ && to.sessions@
            == from.sessions@,
        res matches Some(action) ==> exists|frame: Vec<u8>|
            {
                &&& #[trigger] sessions::decides(
                    from.sessions@,
                    frame@,
                    now,
                    action,
                    to.sessions@,
                )
                &&& phy::receives_raw(
                    regions,
                    (from.device.tx, log0),
                    (to.device.tx, log1),
                    Some(frame@),
                )
                &&& action is PassOn ==> to.device.rx_buffer@ == from.device.rx_buffer@.push(frame)
                &&& !(action is PassOn) ==> to.device.rx_buffer@ == from.device.rx_buffer@
            },
{
}

} // verus!
