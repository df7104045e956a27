//! The virtio socket device.

pub mod defs;
pub mod packet;
pub mod device;
pub mod event_handler;
pub mod muxer;
pub mod reaper;
