//! Which event of the clock device calls for what.
use vstd::prelude::*;

use super::device;
use super::device::Rtc;
use crate::guest_memory::GuestMemory;
use crate::virtio_device;

verus! {

/// What an event calls for.
#[derive(Clone, Copy, Debug, PartialEq, Eq, Structural)]
pub enum RtcEvent {
    /// Wait for the queue from here on, and no longer for this.
    Activate,
    /// Serve requests, if `is_request` says so.
    Request,
    /// The device is not active.
    Spurious,
    /// The device does not know the descriptor.
    Unexpected,
}

/// Decides what an event on the descriptor `source` calls for. The queue has a descriptor
/// once it is configured.
pub fn process(source: i32, activate_fd: i32, queue_fd: Option<i32>, activated: bool) -> (res:
    RtcEvent)
    ensures
        res == if !activated {
            RtcEvent::Spurious
        } else if source == activate_fd {
            RtcEvent::Activate
        } else if queue_fd == Some(source) {
            RtcEvent::Request
        } else {
            RtcEvent::Unexpected
        },
{
    if !activated {
        return RtcEvent::Spurious;
    }
    if source == activate_fd {
        return RtcEvent::Activate;
    }
    match queue_fd {
        Some(fd) if fd == source => RtcEvent::Request,
        _ => RtcEvent::Unexpected,
    }
}

/// Whether an event of the queue is one: there is something to read, and nothing else.
pub fn is_request(event_set: u32) -> (res: bool)
    ensures
        res == (event_set == virtio_device::EVENT_IN),
{
    event_set == virtio_device::EVENT_IN
}

impl Rtc {
    /// Handles an event of the queue, which was `consumed` if it could be read: `true` if the
    /// guest is to be told of responses.
    pub fn handle_req_event(&mut self, event_set: u32, consumed: bool, mem: &mut GuestMemory) -> (
    res: bool)
        requires
            old(self).can_serve(old(mem).regions()),
        ensures
            final(mem).regions() == old(mem).regions(),
            final(mem).backed() == old(mem).backed(),
            final(self).can_serve(final(mem).regions()),
            final(self).avail_features == old(self).avail_features,
            final(self).acked_features == old(self).acked_features,
            if event_set == virtio_device::EVENT_IN && consumed {
                device::serves(
                    old(mem).regions(),
                    (old(self).queues@[0], old(mem).log()),
                    (final(self).queues@[0], final(mem).log()),
                    res,
                )
            } else {
                !res && *final(self) == *old(self) && final(mem).log() == old(mem).log()
            },
    {
        if is_request(event_set) && consumed {
            self.process_req(mem)
        } else {
            false
        }
    }
}

} // verus!
