//! The virtio clock device: it tells the guest the host's UTC time.

pub mod device;
pub mod event_handler;
pub mod uapi;
