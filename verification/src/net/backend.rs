//! What a network backend offers to the device.
use vstd::prelude::*;

verus! {

/// One call that a backend got.
pub enum BackendCall {
    /// A packet from the guest.
    Tx { packet: Seq<u8> },
    /// A request to run its own machinery.
    Poll,
    /// The worker is going away.
    Exit,
    /// State of an earlier snapshot.
    Restore { data: Seq<u8> },
}

/// A network backend. It gets the packets of the guest and runs its own state machine when
/// polled; packets for the guest come back on a channel of its own.
pub trait AsyncNetBackend {
    /// Handles a packet from the guest.
    fn handle_guest_tx(&mut self, packet: &[u8]);

    /// Runs the backend's own state machine.
    fn poll(&mut self);

    /// In how many nanoseconds the backend needs polling, if a timer is running.
    fn poll_delay(&mut self) -> (res: Option<u64>)
        default_ensures
            res is None,
    {
        None
    }

    /// The worker is shutting down.
    fn on_exit(&mut self);

    /// The state of the backend for a snapshot, if it has any.
    fn save_snapshot_state(&self) -> (res: Option<Vec<u8>>)
        default_ensures
            res is None,
    {
        None
    }

    /// Takes over the state of an earlier snapshot.
    fn restore_snapshot_state(&mut self, data: &[u8]) {
    }
}

/// A backend together with the calls that it got. All calls of the worker go through it.
pub struct RecordedBackend<B> {
    inner: B,
    calls: Ghost<Seq<BackendCall>>,
}

impl<B: AsyncNetBackend> RecordedBackend<B> {
    /// The calls that the backend got so far, oldest first.
    pub closed spec fn calls(&self) -> Seq<BackendCall> {
        self.calls@
    }

    /// The backend itself.
    pub closed spec fn backend(&self) -> B {
        self.inner
    }

    /// A backend that got no calls yet.
    pub fn new(inner: B) -> (res: RecordedBackend<B>)
        ensures
            res.backend() == inner,
            res.calls() == Seq::<BackendCall>::empty(),
    {
        RecordedBackend { inner, calls: Ghost(Seq::empty()) }
    }

    /// The backend itself.
    pub fn inner(&self) -> (res: &B)
        ensures
            *res == self.backend(),
    {
        &self.inner
    }

    /// Handles a packet from the guest.
    pub fn handle_guest_tx(&mut self, packet: &[u8])
        ensures
            exists|b: &mut B|
                {
                    &&& *b == old(self).backend()
                    &&& *final(b) == final(self).backend()
                    &&& #[trigger] call_ensures(B::handle_guest_tx, (b, packet), ())
                },
            final(self).calls() == old(self).calls().push(BackendCall::Tx { packet: packet@ }),
    {
        self.inner.handle_guest_tx(packet);
        proof {
            self.calls@ = self.calls@.push(BackendCall::Tx { packet: packet@ });
        }
    }

    /// Runs the backend's own state machine.
    pub fn poll(&mut self)
        ensures
            exists|b: &mut B|
                {
                    &&& *b == old(self).backend()
                    &&& *final(b) == final(self).backend()
                    &&& #[trigger] call_ensures(B::poll, (b,), ())
                },
            final(self).calls() == old(self).calls().push(BackendCall::Poll),
    {
        self.inner.poll();
        proof {
            self.calls@ = self.calls@.push(BackendCall::Poll);
        }
    }

    /// In how many nanoseconds the backend needs polling, if a timer is running.
    pub fn poll_delay(&mut self) -> (res: Option<u64>)
        ensures
            exists|b: &mut B|
                {
                    &&& *b == old(self).backend()
                    &&& *final(b) == final(self).backend()
                    &&& #[trigger] call_ensures(B::poll_delay, (b,), res)
                },
            final(self).calls() == old(self).calls(),
    {
        let res: Option<u64> = self.inner.poll_delay();
        res
    }

    /// The worker is shutting down.
    pub fn on_exit(&mut self)
        ensures
            exists|b: &mut B|
                {
                    &&& *b == old(self).backend()
                    &&& *final(b) == final(self).backend()
                    &&& #[trigger] call_ensures(B::on_exit, (b,), ())
                },
            final(self).calls() == old(self).calls().push(BackendCall::Exit),
    {
        self.inner.on_exit();
        proof {
            self.calls@ = self.calls@.push(BackendCall::Exit);
        }
    }

    /// The state of the backend for a snapshot, if it has any.
    pub fn save_snapshot_state(&self) -> (res: Option<Vec<u8>>)
        ensures
            call_ensures(B::save_snapshot_state, (&self.backend(),), res),
    {
        self.inner.save_snapshot_state()
    }

    /// Takes over the state of an earlier snapshot.
    pub fn restore_snapshot_state(&mut self, data: &[u8])
        ensures
            exists|b: &mut B|
                {
                    &&& *b == old(self).backend()
                    &&& *final(b) == final(self).backend()
                    &&& #[trigger] call_ensures(B::restore_snapshot_state, (b, data), ())
                },
            final(self).calls() == old(self).calls().push(BackendCall::Restore { data: data@ }),
    {
        self.inner.restore_snapshot_state(data);
        proof {
            self.calls@ = self.calls@.push(BackendCall::Restore { data: data@ });
        }
    }
}

} // verus!
