//! Devices whose work is done by another process, over the vhost-user protocol.

pub mod device;
pub mod fs;
pub mod vsock;
