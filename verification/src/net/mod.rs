//! The virtio network device.

pub mod backend;
pub mod device;
pub mod dissect;
pub mod forward;
pub mod frames;
pub mod phy;
pub mod proxy;
pub mod reply;
pub mod sessions;
pub mod worker;
