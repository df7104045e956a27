//! Device-side logic of a small virtual machine monitor.

pub mod byte_order;
pub mod guest_memory;
pub mod krun;
pub mod net;
pub mod queue;
pub mod rtc;
pub mod text;
pub mod vhost_user;
pub mod virtio_device;
pub mod vmgenid;
pub mod vsock;
