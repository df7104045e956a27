//! Numbers of the virtio clock protocol.
use vstd::prelude::*;

verus! {

pub const VIRTIO_F_VERSION_1: u32 = 32;

pub const VIRTIO_ID_CLOCK: u32 = 17;

// Request types.
pub const VIRTIO_RTC_REQ_READ: u16 = 0x0001;

pub const VIRTIO_RTC_REQ_READ_CROSS: u16 = 0x0002;

pub const VIRTIO_RTC_REQ_CFG: u16 = 0x1000;

pub const VIRTIO_RTC_REQ_CLOCK_CAP: u16 = 0x1001;

pub const VIRTIO_RTC_REQ_CROSS_CAP: u16 = 0x1002;

// Status codes.
pub const VIRTIO_RTC_S_OK: u8 = 0;

pub const VIRTIO_RTC_S_EOPNOTSUPP: u8 = 2;

pub const VIRTIO_RTC_S_ENODEV: u8 = 3;

pub const VIRTIO_RTC_S_EINVAL: u8 = 4;

pub const VIRTIO_RTC_S_EIO: u8 = 5;

// Clock types.
pub const VIRTIO_RTC_CLOCK_UTC: u16 = 0;

pub const VIRTIO_RTC_CLOCK_TAI: u16 = 1;

pub const VIRTIO_RTC_CLOCK_MONOTONIC: u16 = 2;

// Clock flags.
pub const VIRTIO_RTC_FLAG_LEAP_SECOND_INFO: u8 = 1;

// Counter types for cross timestamps.
pub const VIRTIO_RTC_COUNTER_ARM_VCT: u16 = 0;

pub const VIRTIO_RTC_COUNTER_X86_TSC: u16 = 1;

} // verus!
