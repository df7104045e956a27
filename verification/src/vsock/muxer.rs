//! What the multiplexer of the socket device offers to it.
use vstd::prelude::*;

use super::packet::VsockPacket;

verus! {

/// One call that a multiplexer got, with its answer.
pub enum MuxCall {
    /// A request to fill `given`, which came back as `left`.
    Recv { given: VsockPacket, left: VsockPacket, filled: bool },
    /// A packet of a stream.
    Stream { packet: VsockPacket, taken: bool },
    /// A datagram.
    Datagram { packet: VsockPacket, taken: bool },
    /// A question whether packets wait for the guest.
    Pending { waiting: bool },
}

/// Whether a call was answered with yes.
pub open spec fn accepted(call: MuxCall) -> bool {
    match call {
        MuxCall::Recv { filled, .. } => filled,
        MuxCall::Stream { taken, .. } => taken,
        MuxCall::Datagram { taken, .. } => taken,
        MuxCall::Pending { waiting } => waiting,
    }
}

/// The multiplexer, which knows the sockets of the host.
pub trait VsockMuxer {
    /// Fills `pkt` with the next packet for the guest; `false` if there is none.
    fn recv_pkt(&mut self, pkt: &mut VsockPacket) -> bool;

    /// Takes a packet of a stream from the guest; `false` if it cannot take it now.
    fn send_stream_pkt(&mut self, pkt: &VsockPacket) -> bool;

    /// Takes a datagram from the guest; `false` if it cannot take it now.
    fn send_dgram_pkt(&mut self, pkt: &VsockPacket) -> bool;

    /// Whether packets wait for the guest.
    fn has_pending_rx(&self) -> bool;
}

/// A multiplexer together with the calls that it got. All calls of the device go through it.
pub struct RecordedMuxer<M> {
    inner: M,
    calls: Ghost<Seq<MuxCall>>,
}

impl<M: VsockMuxer> RecordedMuxer<M> {
    /// The calls that the multiplexer got so far, oldest first.
    pub closed spec fn calls(&self) -> Seq<MuxCall> {
        self.calls@
    }

    /// The multiplexer itself.
    pub closed spec fn muxer(&self) -> M {
        self.inner
    }

    /// A multiplexer that got no calls yet.
    pub fn new(inner: M) -> (res: RecordedMuxer<M>)
        ensures
            res.muxer() == inner,
            res.calls() == Seq::<MuxCall>::empty(),
    {
        RecordedMuxer { inner, calls: Ghost(Seq::empty()) }
    }

    /// The multiplexer itself.
    pub fn inner(&self) -> (res: &M)
        ensures
            *res == self.muxer(),
    {
        &self.inner
    }

    /// Fills `pkt` with the next packet for the guest; `false` if there is none.
    pub fn recv_pkt(&mut self, pkt: &mut VsockPacket) -> (filled: bool)
        ensures
            exists|m: &mut M, p: &mut VsockPacket|
                {
                    &&& *m == old(self).muxer()
                    &&& *p == *old(pkt)
                    &&& *final(p) == *final(pkt)
                    &&& *final(m) == final(self).muxer()
                    &&& #[trigger] call_ensures(M::recv_pkt, (m, p), filled)
                },
            final(self).calls() == old(self).calls().push(
                MuxCall::Recv { given: *old(pkt), left: *final(pkt), filled },
            ),
    {
        let ghost given = *pkt;
        let filled: bool = self.inner.recv_pkt(pkt);
        proof {
            self.calls@ = self.calls@.push(MuxCall::Recv { given, left: *pkt, filled });
        }
        filled
    }

    /// Takes a packet of a stream from the guest; `false` if it cannot take it now.
    pub fn send_stream_pkt(&mut self, pkt: &VsockPacket) -> (taken: bool)
        ensures
            exists|m: &mut M|
                {
                    &&& *m == old(self).muxer()
                    &&& *final(m) == final(self).muxer()
                    &&& #[trigger] call_ensures(M::send_stream_pkt, (m, pkt), taken)
                },
            final(self).calls() == old(self).calls().push(
                MuxCall::Stream { packet: *pkt, taken },
            ),
    {
        let taken: bool = self.inner.send_stream_pkt(pkt);
        proof {
            self.calls@ = self.calls@.push(MuxCall::Stream { packet: *pkt, taken });
        }
        taken
    }

    /// Takes a datagram from the guest; `false` if it cannot take it now.
    pub fn send_dgram_pkt(&mut self, pkt: &VsockPacket) -> (taken: bool)
        ensures
            exists|m: &mut M|
                {
                    &&& *m == old(self).muxer()
                    &&& *final(m) == final(self).muxer()
                    &&& #[trigger] call_ensures(M::send_dgram_pkt, (m, pkt), taken)
                },
            final(self).calls() == old(self).calls().push(
                MuxCall::Datagram { packet: *pkt, taken },
            ),
    {
        let taken: bool = self.inner.send_dgram_pkt(pkt);
        proof {
            self.calls@ = self.calls@.push(MuxCall::Datagram { packet: *pkt, taken });
        }
        taken
    }

    /// Whether packets wait for the guest.
    pub fn has_pending_rx(&mut self) -> (waiting: bool)
        ensures
            call_ensures(M::has_pending_rx, (&old(self).muxer(),), waiting),
            final(self).muxer() == old(self).muxer(),
            final(self).calls() == old(self).calls().push(MuxCall::Pending { waiting }),
    {
        let waiting: bool = self.inner.has_pending_rx();
        proof {
            self.calls@ = self.calls@.push(MuxCall::Pending { waiting });
        }
        waiting
    }
}

} // verus!
