//! The numbers of the socket device.
use vstd::prelude::*;

verus! {

pub const VIRTIO_ID_VSOCK: u32 = 19;

/// Received packets, sent packets, events.
pub const NUM_QUEUES: usize = 3;

pub const QUEUE_SIZE: u16 = 256;

pub const RXQ_INDEX: usize = 0;

pub const TXQ_INDEX: usize = 1;

pub const EVQ_INDEX: usize = 2;

pub const VSOCK_DEV_ID: &'static str = "vsock";

/// Version 1 of the standard (bit 32), used buffers in order (bit 35), datagrams (bit 3).
pub const AVAIL_FEATURES: u64 = 0x9_0000_0008;

/// The most bytes of data in a packet.
pub const MAX_PKT_BUF_SIZE: u32 = 65536;

/// Packet type: connection-oriented.
pub const VSOCK_TYPE_STREAM: u16 = 1;

/// Packet type: datagram.
pub const VSOCK_TYPE_DGRAM: u16 = 3;

pub const LINUX_AF_UNIX: u16 = 1;

pub const LINUX_AF_INET: u16 = 2;

pub const LINUX_AF_INET6: u16 = 10;

} // verus!
