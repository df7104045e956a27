//! The clock device.

use krun_devices::guest_memory::{GuestAddress, GuestMemory};
use krun_devices::queue::{DescriptorChain, Queue, VIRTQ_DESC_F_NEXT, VIRTQ_DESC_F_WRITE};
use krun_devices::rtc::device::{
    counter_freq, supported_counter_id, Le16, Le64, ReqClockCap, ReqCrossCap, ReqHead, ReqRead,
    ReqReadCross, RespCfg, RespClockCap, RespCrossCap, RespHead, RespRead, RespReadCross, Rtc,
    NUM_CLOCKS,
};
use krun_devices::rtc::event_handler::{is_request, process, RtcEvent};
use krun_devices::rtc::uapi;
use vm_memory::{Bytes, GuestMemoryMmap};

fn at(addr: u64) -> vm_memory::GuestAddress {
    vm_memory::GuestAddress(addr)
}

fn memory() -> GuestMemoryMmap {
    GuestMemoryMmap::from_ranges(&[(at(0), 0x10000)]).unwrap()
}

/// Puts a request and a response buffer in chain 0 of a queue at the bottom of memory, and
/// makes it available.
fn offer_request(m: &GuestMemoryMmap, request: &[u8], response_addr: u64) -> Queue {
    let write_desc = |i: u64, addr: u64, len: u32, flags: u16, next: u16| {
        m.write_obj(addr, at(i * 16)).unwrap();
        m.write_obj(len, at(i * 16 + 8)).unwrap();
        m.write_obj(flags, at(i * 16 + 12)).unwrap();
        m.write_obj(next, at(i * 16 + 14)).unwrap();
    };
    write_desc(0, 0x1000, request.len() as u32, VIRTQ_DESC_F_NEXT, 1);
    write_desc(1, response_addr, 64, VIRTQ_DESC_F_WRITE, 0);
    m.write_slice(request, at(0x1000)).unwrap();
    m.write_obj(0u16, at(0x400 + 4)).unwrap();
    m.write_obj(1u16, at(0x400 + 2)).unwrap();
    let mut q = Queue::new(16);
    q.size = 16;
    q.ready = true;
    q.desc_table = GuestAddress(0);
    q.avail_ring = GuestAddress(0x400);
    q.used_ring = GuestAddress(0x500);
    q
}

#[test]
fn test_structure_sizes() {
    assert_eq!(std::mem::size_of::<ReqHead>(), 8);
    assert_eq!(std::mem::size_of::<RespHead>(), 8);
    assert_eq!(std::mem::size_of::<RespCfg>(), 16);
    assert_eq!(std::mem::size_of::<ReqClockCap>(), 8);
    assert_eq!(std::mem::size_of::<RespClockCap>(), 16);
    assert_eq!(std::mem::size_of::<ReqRead>(), 8);
    assert_eq!(std::mem::size_of::<RespRead>(), 16);
    assert_eq!(std::mem::size_of::<ReqCrossCap>(), 8);
    assert_eq!(std::mem::size_of::<RespCrossCap>(), 16);
}

#[test]
fn test_device_type() {
    assert_eq!(uapi::VIRTIO_ID_CLOCK, 17);

    let rtc = Rtc::new();
    assert_eq!(rtc.device_type(), 17);
}

#[test]
fn test_request_types() {
    assert_eq!(uapi::VIRTIO_RTC_REQ_READ, 0x0001);
    assert_eq!(uapi::VIRTIO_RTC_REQ_READ_CROSS, 0x0002);
    assert_eq!(uapi::VIRTIO_RTC_REQ_CFG, 0x1000);
    assert_eq!(uapi::VIRTIO_RTC_REQ_CLOCK_CAP, 0x1001);
    assert_eq!(uapi::VIRTIO_RTC_REQ_CROSS_CAP, 0x1002);
}

#[test]
fn test_status_codes() {
    assert_eq!(uapi::VIRTIO_RTC_S_OK, 0);
    assert_eq!(uapi::VIRTIO_RTC_S_EOPNOTSUPP, 2);
    assert_eq!(uapi::VIRTIO_RTC_S_ENODEV, 3);
    assert_eq!(uapi::VIRTIO_RTC_S_EINVAL, 4);
    assert_eq!(uapi::VIRTIO_RTC_S_EIO, 5);
}

#[test]
fn test_clock_types() {
    assert_eq!(uapi::VIRTIO_RTC_CLOCK_UTC, 0);
    assert_eq!(uapi::VIRTIO_RTC_CLOCK_TAI, 1);
    assert_eq!(uapi::VIRTIO_RTC_CLOCK_MONOTONIC, 2);
}

#[test]
fn test_get_utc_ns() {
    let time_ns = Rtc::get_utc_ns();

    // After 2020-01-01.
    let min_time_ns: u64 = 1577836800 * 1_000_000_000;
    assert!(time_ns > min_time_ns, "Time {time_ns} should be after 2020");

    // Before 2100-01-01.
    let max_time_ns: u64 = 4102444800 * 1_000_000_000;
    assert!(
        time_ns < max_time_ns,
        "Time {time_ns} should be before 2100"
    );
}

#[test]
fn test_device_init() {
    let rtc = Rtc::new();

    assert_eq!(rtc.device_name(), "rtc");
    assert_eq!(rtc.id(), "virtio_rtc");
    assert_eq!(rtc.queues().len(), 1);
    assert!(!rtc.is_activated());
    assert_eq!(rtc.avail_features(), 1 << 32);
}

#[test]
fn test_num_clocks() {
    assert_eq!(NUM_CLOCKS, 1);
}

#[test]
fn test_req_head_layout() {
    let mut bytes = [0u8; 8];
    bytes[0] = 0x00;
    bytes[1] = 0x10;

    let head = ReqHead::from_bytes(&bytes);
    assert_eq!(head.msg_type.to_native(), uapi::VIRTIO_RTC_REQ_CFG);
}

#[test]
fn test_resp_head_layout() {
    let resp = RespHead {
        status: uapi::VIRTIO_RTC_S_OK,
        reserved: [0; 7],
    };

    let bytes = resp.to_bytes();
    assert_eq!(bytes.len(), 8);
    assert_eq!(bytes[0], 0);
    assert_eq!(bytes[1..], [0; 7]);
}

#[test]
fn test_resp_cfg_layout() {
    let resp = RespCfg {
        head: RespHead {
            status: uapi::VIRTIO_RTC_S_OK,
            reserved: [0; 7],
        },
        num_clocks: Le16::new(1),
        padding: [0; 6],
    };

    let bytes = resp.to_bytes();
    assert_eq!(bytes.len(), 16);
    assert_eq!(bytes[0], 0);
    assert_eq!(bytes[8], 1);
    assert_eq!(bytes[9], 0);
}

#[test]
fn test_resp_read_layout() {
    let resp = RespRead {
        head: RespHead {
            status: uapi::VIRTIO_RTC_S_OK,
            reserved: [0; 7],
        },
        clock_ns: Le64::new(0x123456789ABCDEF0u64),
    };

    let bytes = resp.to_bytes();
    assert_eq!(bytes.len(), 16);
    assert_eq!(bytes[0], 0);
    assert_eq!(bytes[8], 0xF0);
    assert_eq!(bytes[9], 0xDE);
    assert_eq!(bytes[10], 0xBC);
    assert_eq!(bytes[11], 0x9A);
    assert_eq!(bytes[12], 0x78);
    assert_eq!(bytes[13], 0x56);
    assert_eq!(bytes[14], 0x34);
    assert_eq!(bytes[15], 0x12);
}

#[test]
fn test_req_read_cross_size() {
    assert_eq!(std::mem::size_of::<ReqReadCross>(), 8);
}

#[test]
fn test_resp_read_cross_size() {
    assert_eq!(std::mem::size_of::<RespReadCross>(), 24);
}

#[test]
fn test_resp_read_cross_layout() {
    let resp = RespReadCross {
        head: RespHead {
            status: uapi::VIRTIO_RTC_S_OK,
            reserved: [0; 7],
        },
        clock_ns: Le64::new(0x1122334455667788u64),
        counter_value: Le64::new(0xAABBCCDDEEFF0011u64),
    };

    let bytes = resp.to_bytes();
    assert_eq!(bytes.len(), 24);
    assert_eq!(bytes[0], 0);
    assert_eq!(bytes[8], 0x88);
    assert_eq!(bytes[15], 0x11);
    assert_eq!(bytes[16], 0x11);
    assert_eq!(bytes[23], 0xAA);
}

#[test]
fn test_supported_counter_id() {
    let id = supported_counter_id();
    assert_eq!(id, 1, "x86_64 should use counter type 1 (TSC)");
}

#[test]
fn counter_frequency_falls_back() {
    assert_eq!(counter_freq(2, 176, 24_000_000, 0), 2_112_000_000);
    assert_eq!(counter_freq(2, 176, 0, 2100), 2_100_000_000);
    assert_eq!(counter_freq(0, 0, 0, 0), 2_400_000_000);
    assert_eq!(
        counter_freq(1, u32::MAX, u32::MAX, 0),
        u32::MAX as u64 * u32::MAX as u64
    );
}

#[test]
fn cross_timestamp_takes_the_middle() {
    assert_eq!(Rtc::cross_timestamp(10, 77, 20), (77, 15));
    assert_eq!(Rtc::cross_timestamp(10, 77, 21), (77, 15));
    assert_eq!(
        Rtc::cross_timestamp(u64::MAX - 4, 1, u64::MAX),
        (1, u64::MAX - 2)
    );
    assert_eq!(Rtc::cross_timestamp(u64::MAX, 1, u64::MAX), (1, u64::MAX));
}

#[test]
fn clock_readings_are_truncated() {
    assert_eq!(Rtc::utc_ns_of(Some(5)), 5);
    assert_eq!(Rtc::utc_ns_of(Some((1u128 << 64) + 9)), 9);
    assert_eq!(Rtc::utc_ns_of(None), 0);
}

#[test]
fn only_clock_zero_is_valid() {
    assert_eq!(Rtc::validate_clock_id(0), uapi::VIRTIO_RTC_S_OK);
    assert_eq!(Rtc::validate_clock_id(1), uapi::VIRTIO_RTC_S_EINVAL);
    assert_eq!(Rtc::validate_clock_id(u16::MAX), uapi::VIRTIO_RTC_S_EINVAL);
}

#[test]
fn responses_by_request_type() {
    let mut cfg = vec![0u8; 16];
    cfg[8] = 1;
    assert_eq!(Rtc::response(uapi::VIRTIO_RTC_REQ_CFG, 0, 0), cfg);

    let mut cap = vec![0u8; 16];
    cap[10] = 1;
    assert_eq!(Rtc::response(uapi::VIRTIO_RTC_REQ_CLOCK_CAP, 0, 0), cap);
    let mut bad_cap = vec![0u8; 16];
    bad_cap[0] = uapi::VIRTIO_RTC_S_EINVAL;
    assert_eq!(Rtc::response(uapi::VIRTIO_RTC_REQ_CLOCK_CAP, 3, 0), bad_cap);

    let mut read = vec![0u8; 16];
    read[8] = 0x34;
    read[9] = 0x12;
    assert_eq!(Rtc::response(uapi::VIRTIO_RTC_REQ_READ, 0, 0x1234), read);
    assert_eq!(Rtc::response(uapi::VIRTIO_RTC_REQ_READ, 1, 0x1234), bad_cap);

    assert_eq!(Rtc::response(uapi::VIRTIO_RTC_REQ_CROSS_CAP, 0, 0), vec![0u8; 16]);

    let mut cross = vec![0u8; 24];
    cross[0] = uapi::VIRTIO_RTC_S_EOPNOTSUPP;
    assert_eq!(Rtc::response(uapi::VIRTIO_RTC_REQ_READ_CROSS, 0, 9), cross);

    let mut unknown = vec![0u8; 8];
    unknown[0] = uapi::VIRTIO_RTC_S_EINVAL;
    assert_eq!(Rtc::response(0x7777, 0, 9), unknown);
}

#[test]
fn requests_are_served_from_the_queue() {
    let m = memory();
    let mut request = [0u8; 16];
    request[1] = 0x10;
    let q = offer_request(&m, &request, 0x2000);
    let mut mem = GuestMemory::new(m.clone());
    let mut rtc = Rtc::new();
    assert!(rtc.activate(vec![q]));
    assert!(rtc.is_activated());
    assert!(rtc.queues()[0].is_readable(&mem));

    assert!(rtc.process_req(&mut mem));
    let mut answer = [0u8; 16];
    m.read_slice(&mut answer, at(0x2000)).unwrap();
    assert_eq!(answer[0], 0);
    assert_eq!(answer[8], 1);

    // Used ring: one entry, chain 0, sixteen bytes.
    assert_eq!(m.read_obj::<u16>(at(0x502)).unwrap(), 1);
    assert_eq!(m.read_obj::<u32>(at(0x504)).unwrap(), 0);
    assert_eq!(m.read_obj::<u32>(at(0x508)).unwrap(), 16);

    // Nothing is left.
    assert!(!rtc.process_req(&mut mem));
}

#[test]
fn the_clock_is_read_for_read_requests() {
    let m = memory();
    let mut request = [0u8; 16];
    request[0] = 0x01;
    let q = offer_request(&m, &request, 0x2000);
    let mut mem = GuestMemory::new(m.clone());
    let mut rtc = Rtc::new();
    assert!(rtc.activate(vec![q]));
    let before = Rtc::get_utc_ns();
    assert!(rtc.process_req(&mut mem));
    let after = Rtc::get_utc_ns();
    assert_eq!(m.read_obj::<u8>(at(0x2000)).unwrap(), 0);
    let ns: u64 = m.read_obj(at(0x2008)).unwrap();
    assert!(before <= ns && ns <= after);
}

#[test]
fn unwritable_responses_are_not_counted() {
    let m = memory();
    let mut request = [0u8; 16];
    request[1] = 0x10;
    let q = offer_request(&m, &request, 0xfff8);
    let mut mem = GuestMemory::new(m.clone());
    let mut rtc = Rtc::new();
    assert!(rtc.activate(vec![q]));
    assert!(rtc.process_req(&mut mem));
    assert_eq!(m.read_obj::<u32>(at(0x508)).unwrap(), 0);
}

#[test]
fn short_chains_get_no_answer() {
    let mut mem = GuestMemory::new(memory());
    let chain: Vec<DescriptorChain> = Vec::new();
    assert_eq!(Rtc::answer(&chain, &mut mem), 0);
}

#[test]
fn activation_wants_one_queue() {
    let mut rtc = Rtc::new();
    assert!(!rtc.activate(vec![Queue::new(64), Queue::new(64)]));
    assert!(!rtc.activate(Vec::new()));
    assert!(!rtc.is_activated());
    rtc.set_acked_features(5);
    assert_eq!(rtc.acked_features(), 5);
    assert!(rtc.reset());
    assert_eq!(rtc.acked_features(), 5);
}

#[test]
fn rtc_events_are_told_apart() {
    assert!(matches!(process(4, 3, Some(4), true), RtcEvent::Request));
    assert!(matches!(process(3, 3, Some(4), true), RtcEvent::Activate));
    assert!(matches!(process(4, 3, Some(4), false), RtcEvent::Spurious));
    assert!(is_request(1));
    assert!(!is_request(8));
}

#[test]
fn events_of_the_request_queue() {
    let m = memory();
    let mut request = [0u8; 16];
    request[1] = 0x10;
    let q = offer_request(&m, &request, 0x2000);
    let mut mem = GuestMemory::new(m.clone());
    let mut rtc = Rtc::new();
    assert!(rtc.activate(vec![q]));
    assert!(!rtc.handle_req_event(5, true, &mut mem));
    assert!(!rtc.handle_req_event(1, false, &mut mem));
    assert_eq!(rtc.queues()[0].next_avail(), 0);
    assert!(rtc.handle_req_event(1, true, &mut mem));
    assert_eq!(rtc.queues()[0].next_avail(), 1);
    assert!(!rtc.handle_req_event(1, true, &mut mem));

    let mut data = [7u8; 4];
    rtc.read_config(0, &mut data);
    assert_eq!(data, [7; 4]);
    rtc.write_config(0, &data);
    rtc.queues_mut()[0].set_next_avail(3);
    assert_eq!(rtc.queues()[0].next_avail(), 3);
}
