//! Devices that a vhost-user backend serves.

use bincode_next::config;
use krun_devices::guest_memory::{GuestAddress, GuestMemory, HostRegion};
use krun_devices::queue::Queue;
use krun_devices::vhost_user::device::{
    empty_queues, gpa_to_vmm_va, same_configs, saved_base, take_positions, Command, Direction,
    Negotiated, Negotiation, Reconnected, Reply, Stage, Transfer, TransferOutcome, VhostError,
    VhostErrorKind, VhostUserDevice, VringConfig, PROTOCOL_CONFIG, PROTOCOL_CONFIGURE_MEM_SLOTS,
    PROTOCOL_DEVICE_STATE, PROTOCOL_MQ, VHOST_USER_F_PROTOCOL_FEATURES, WANTED_PROTOCOL_FEATURES,
};
use krun_devices::vhost_user::fs::{
    self, FsActivation, FsParts, VhostUserFs, VhostUserFsState, VirtioFsConfig, MAX_SNAPSHOT_BYTES,
};
use krun_devices::vhost_user::vsock::{
    self, VhostUserVsock, VhostUserVsockState, VsockActivation, VsockParts,
};
use krun_devices::virtio_device::{BadActivate, VirtioShmRegion};
use vhost::vhost_user::VhostUserProtocolFeatures;
use vm_memory::GuestMemoryMmap;

fn unconnected() -> VhostUserDevice {
    VhostUserDevice::unconnected(0, "test".to_string())
}

fn test_fs(config: VirtioFsConfig, dax_window_mib: Option<u32>) -> VhostUserFs {
    VhostUserFs::with_config(
        unconnected(),
        config,
        dax_window_mib,
        "test".to_string(),
        "/tmp/test.sock".to_string(),
    )
}

fn test_vsock(cid: u64) -> VhostUserVsock {
    VhostUserVsock::with_cid(unconnected(), cid, None)
}

fn encode_fs(state: VhostUserFsState) -> Vec<u8> {
    bincode_next::encode_to_vec(state.into_parts(), config::standard()).expect("serialize failed")
}

fn decode_fs(bytes: &[u8]) -> VhostUserFsState {
    let limited = config::standard().with_limit::<MAX_SNAPSHOT_BYTES>();
    let (parts, _): (FsParts, usize) =
        bincode_next::decode_from_slice(bytes, limited).expect("deserialize failed");
    VhostUserFsState::from_parts(parts)
}

fn encode_vsock(state: VhostUserVsockState) -> Vec<u8> {
    bincode_next::encode_to_vec(state.into_parts(), config::standard()).expect("serialize failed")
}

fn decode_vsock(bytes: &[u8]) -> VhostUserVsockState {
    let limited = config::standard().with_limit::<MAX_SNAPSHOT_BYTES>();
    let (parts, _): (VsockParts, usize) =
        bincode_next::decode_from_slice(bytes, limited).expect("deserialize failed");
    VhostUserVsockState::from_parts(parts)
}

#[test]
fn test_save_device_state_not_supported() {
    let device = unconnected();
    assert!(!device.device_state_supported());

    let result = device.save_device_state();
    assert!(result.is_err());
    assert_eq!(result.unwrap_err().kind(), VhostErrorKind::InvalidInput);
}

#[test]
fn test_load_device_state_not_supported() {
    let device = unconnected();
    assert!(!device.device_state_supported());

    let result = device.load_device_state();
    assert!(result.is_err());
    assert_eq!(result.unwrap_err().kind(), VhostErrorKind::InvalidInput);
}

#[test]
fn test_device_type_is_fs() {
    let config = VirtioFsConfig::default();
    let device = test_fs(config, None);
    assert_eq!(device.device_type(), 26);
    assert_eq!(device.device_name(), "virtio-fs-vhost");
}

#[test]
fn test_read_config_tag() {
    let mut config = VirtioFsConfig::default();
    let tag = b"testfs";
    config.tag[..tag.len()].copy_from_slice(tag);

    let device = test_fs(config, None);
    let mut buf = [0u8; 36];
    device.read_config(0, &mut buf);
    assert_eq!(&buf[..6], tag);
}

#[test]
fn test_read_config_num_queues() {
    let mut config = VirtioFsConfig::default();
    config.num_request_queues = 2;

    let device = test_fs(config, None);
    let mut buf = [0u8; 4];
    device.read_config(36, &mut buf);
    assert_eq!(u32::from_le_bytes(buf), 2);
}

#[test]
fn test_read_config_oob_zeroes_buffer() {
    let config = VirtioFsConfig::default();
    let device = test_fs(config, None);
    let mut buf = [0xFFu8; 4];
    device.read_config(40, &mut buf);
    assert_eq!(buf, [0u8; 4], "out-of-range read must zero buffer");
}

#[test]
fn fs_test_read_config_partial_zeroes_tail() {
    let mut config = VirtioFsConfig::default();
    config.num_request_queues = 0x42;
    let device = test_fs(config, None);
    let mut buf = [0xFFu8; 8];
    device.read_config(36, &mut buf);
    assert_eq!(buf[..4], 0x42u32.to_le_bytes());
    assert_eq!(buf[4..], [0u8; 4], "tail bytes must be zero, not stale");
}

#[test]
fn test_queue_layout_ac2_3() {
    let mut config = VirtioFsConfig::default();
    config.num_request_queues = 3;

    let device = test_fs(config, None);
    let queues = device.queue_config();

    assert_eq!(queues.len(), 4, "expected 4 queues (1 HPQ + 3 request)");
    for (i, queue_cfg) in queues.iter().enumerate() {
        assert_eq!(queue_cfg.size, 1024, "queue {} should have size 1024", i);
    }
}

#[test]
fn test_shm_region_with_dax_ac2_4() {
    let config = VirtioFsConfig::default();
    let mut device = test_fs(config, Some(32));

    let region = VirtioShmRegion {
        host_addr: 0x1_0000_0000u64,
        guest_addr: 0x1_0000_0000u64,
        size: 32 * 1024 * 1024,
    };
    device.set_shm_region(region);

    let retrieved = device.shm_region();
    assert!(
        retrieved.is_some(),
        "shm_region() should return Some when DAX is configured"
    );

    let retrieved = retrieved.unwrap();
    assert_eq!(retrieved.host_addr, 0x1_0000_0000u64);
    assert_eq!(retrieved.guest_addr, 0x1_0000_0000u64);
    assert_eq!(retrieved.size, 32 * 1024 * 1024);
    assert_eq!(device.dax_window_size(), Some(32 * 1024 * 1024));
}

#[test]
fn test_shm_region_without_dax_ac2_5() {
    let config = VirtioFsConfig::default();
    let device = test_fs(config, None);

    assert!(
        device.shm_region().is_none(),
        "shm_region() should return None when DAX is not configured"
    );
}

#[test]
fn fs_test_snapshot_state_roundtrip() {
    let state = || VhostUserFsState {
        tag: "testfs".to_string(),
        socket_path: "/tmp/test.sock".to_string(),
        dax_window_mib: Some(64),
        acked_features: 0x123456,
        acked_protocol_features: 0x789abc,
        vring_bases: vec![0, 1, 2],
        daemon_state: vec![1, 2, 3, 4, 5],
        config_tag: vec![42; 36],
        config_num_request_queues: 4,
    };

    let serialized = encode_fs(state());
    let deserialized = decode_fs(&serialized);
    let state = state();

    assert_eq!(deserialized.tag, state.tag);
    assert_eq!(deserialized.socket_path, state.socket_path);
    assert_eq!(deserialized.dax_window_mib, state.dax_window_mib);
    assert_eq!(deserialized.acked_features, state.acked_features);
    assert_eq!(
        deserialized.acked_protocol_features,
        state.acked_protocol_features
    );
    assert_eq!(deserialized.vring_bases, state.vring_bases);
    assert_eq!(deserialized.daemon_state, state.daemon_state);
    assert_eq!(deserialized.config_tag, state.config_tag);
    assert_eq!(
        deserialized.config_num_request_queues,
        state.config_num_request_queues
    );
}

#[test]
fn fs_test_restore_backend_state_stores_pending() {
    let config = VirtioFsConfig::default();
    let mut device = test_fs(config, None);

    let state = VhostUserFsState {
        tag: "testfs".to_string(),
        socket_path: "/tmp/test.sock".to_string(),
        dax_window_mib: Some(32),
        acked_features: 0xdeadbeef,
        acked_protocol_features: 0xcafebabe,
        vring_bases: vec![10, 20],
        daemon_state: vec![99, 88, 77],
        config_tag: vec![123; 36],
        config_num_request_queues: 8,
    };

    let serialized = encode_fs(state);
    device.restore_from_bytes(&serialized);

    assert!(device.pending_restore_state.is_some());
    let restored = device.pending_restore_state.as_ref().unwrap();
    assert_eq!(restored.tag, "testfs");
    assert_eq!(restored.socket_path, "/tmp/test.sock");
    assert_eq!(restored.dax_window_mib, Some(32));
    assert_eq!(restored.acked_features, 0xdeadbeef);
    assert_eq!(restored.vring_bases, vec![10, 20]);
    assert_eq!(device.tag(), "testfs");
    assert_eq!(device.config.tag, [123; 36]);
    assert_eq!(device.config.num_request_queues, 8);
}

#[test]
fn test_activate_restore_fails_when_daemon_unavailable() {
    let config = VirtioFsConfig::default();
    let mut device = test_fs(config, None);

    let state = VhostUserFsState {
        tag: "testfs".to_string(),
        socket_path: "/tmp/nonexistent-vhost-socket-12345.sock".to_string(),
        dax_window_mib: None,
        acked_features: 0,
        acked_protocol_features: 0,
        vring_bases: vec![],
        daemon_state: vec![],
        config_tag: vec![0; 36],
        config_num_request_queues: 0,
    };
    device.pending_restore_state = Some(state);

    let (step, state) = device.activate(&vec![Queue::new(1024)]);
    assert_eq!(step, FsActivation::Connect);
    assert!(state.is_some());
    // The daemon cannot be reached.
    let result = device.advance(step, false);
    assert!(
        result.is_err(),
        "activate_restore should fail when daemon unavailable"
    );
    assert!(!device.is_activated());
}

#[test]
fn test_device_type_is_vsock() {
    let device = test_vsock(3);
    assert_eq!(device.device_type(), 19);
}

#[test]
fn test_queue_layout() {
    let device = test_vsock(3);
    let queues = device.queue_config();
    assert_eq!(queues.len(), 3, "expected 3 queues (RX, TX, Event)");
    for (i, qc) in queues.iter().enumerate() {
        assert_eq!(qc.size, 256, "queue {} should have size 256", i);
    }
}

#[test]
fn test_read_config_guest_cid_full() {
    let device = test_vsock(42);
    let mut buf = [0u8; 8];
    device.read_config(0, &mut buf);
    assert_eq!(u64::from_le_bytes(buf), 42);
}

#[test]
fn test_read_config_guest_cid_split() {
    let cid: u64 = 0x0000_0001_0000_002A;
    let device = test_vsock(cid);

    let mut lo = [0u8; 4];
    device.read_config(0, &mut lo);
    assert_eq!(u32::from_le_bytes(lo), 42);

    let mut hi = [0u8; 4];
    device.read_config(4, &mut hi);
    assert_eq!(u32::from_le_bytes(hi), 1);
}

#[test]
fn test_read_config_beyond_size() {
    let device = test_vsock(42);
    let mut buf = [0xFF; 4];
    device.read_config(8, &mut buf);
    assert_eq!(buf, [0u8; 4]);
}

#[test]
fn test_device_name() {
    let device = test_vsock(3);
    assert_eq!(device.device_name(), "virtio-vsock-vhost");
}

#[test]
fn test_guest_cid_accessor() {
    let device = test_vsock(99);
    assert_eq!(device.guest_cid(), 99);
}

#[test]
fn vsock_test_snapshot_state_roundtrip() {
    let state = VhostUserVsockState {
        guest_cid: 42,
        acked_features: 0x1234_5678,
        acked_protocol_features: 0x9abc_def0,
        vring_bases: vec![5, 10, 15],
        daemon_state: vec![1, 2, 3, 4, 5],
        socket_path: Some("/tmp/test.sock".to_string()),
    };

    let serialized = encode_vsock(state);
    let deserialized = decode_vsock(&serialized);

    assert_eq!(deserialized.guest_cid, 42);
    assert_eq!(deserialized.acked_features, 0x1234_5678);
    assert_eq!(deserialized.acked_protocol_features, 0x9abc_def0);
    assert_eq!(deserialized.vring_bases, vec![5, 10, 15]);
    assert_eq!(deserialized.daemon_state, vec![1, 2, 3, 4, 5]);
    assert_eq!(deserialized.socket_path, Some("/tmp/test.sock".to_string()));
}

#[test]
fn vsock_test_restore_backend_state_stores_pending() {
    let mut device = test_vsock(3);

    let state = VhostUserVsockState {
        guest_cid: 99,
        acked_features: 0xdead,
        acked_protocol_features: 0xbeef,
        vring_bases: vec![1, 2, 3],
        daemon_state: vec![10, 20],
        socket_path: Some("/tmp/restore.sock".to_string()),
    };

    let serialized = encode_vsock(state);
    device.restore_from_bytes(&serialized);

    assert!(device.pending_restore_state.is_some());
    let restored = device.pending_restore_state.as_ref().unwrap();
    assert_eq!(restored.guest_cid, 99);
    assert_eq!(restored.vring_bases, vec![1, 2, 3]);
    assert_eq!(restored.socket_path, Some("/tmp/restore.sock".to_string()));
    assert_eq!(device.guest_cid(), 99);
    assert_eq!(device.socket_path, Some("/tmp/restore.sock".to_string()));
}

#[test]
fn vsock_test_read_config_partial_zeroes_tail() {
    let device = test_vsock(42);
    let mut buf = [0xFFu8; 8];
    device.read_config(6, &mut buf);
    let cid_bytes = 42u64.to_le_bytes();
    assert_eq!(buf[..2], cid_bytes[6..8]);
    assert_eq!(buf[2..], [0u8; 6], "tail bytes must be zero, not stale");
}

#[test]
fn test_read_config_no_stale_data_exhaustive() {
    let cid: u64 = 0x0102_0304_0506_0708;
    let device = test_vsock(cid);
    let cid_bytes = cid.to_le_bytes();

    for offset in 0..=16u64 {
        for bufsize in 1..=16usize {
            let mut buf = [0xFFu8; 16];
            let data = &mut buf[..bufsize];
            device.read_config(offset, data);

            for (i, &byte) in data.iter().enumerate() {
                let config_idx = offset as usize + i;
                if config_idx < 8 {
                    assert_eq!(
                        byte, cid_bytes[config_idx],
                        "offset={offset}, buf[{i}]: expected config byte"
                    );
                } else {
                    assert_eq!(
                        byte, 0,
                        "offset={offset}, buf[{i}]: expected zero, got {byte:#x} (stale data)"
                    );
                }
            }
        }
    }
}

#[test]
fn test_activate_restore_fails_with_dummy_backend() {
    let mut device = test_vsock(3);

    let state = VhostUserVsockState {
        guest_cid: 3,
        acked_features: 0,
        acked_protocol_features: 0,
        vring_bases: vec![0, 0, 0],
        daemon_state: vec![],
        socket_path: None,
    };
    device.pending_restore_state = Some(state);

    let (step, state) = device.activate(&empty_queues(3, 256));
    // Without a path the connection is kept.
    assert_eq!(step, VsockActivation::Rings);
    assert_eq!(state.unwrap().guest_cid, 3);
    let result = device.advance(step, false);
    assert!(
        result.is_err(),
        "activate_restore should fail with dummy backend"
    );
}

/// Runs a negotiation with a backend that has these features and protocol features.
fn negotiate(
    features: u64,
    protocol: u64,
    queue_num: u64,
    num_queues: u16,
    sizes: Vec<u16>,
) -> (Vec<Command>, Result<VhostUserDevice, VhostError>) {
    let (mut neg, mut command) = Negotiation::begin(26, "fs".to_string(), num_queues, sizes);
    let mut sent = Vec::new();
    loop {
        sent.push(command);
        let reply = match command {
            Command::GetFeatures => Reply::Value { value: features },
            Command::GetProtocolFeatures => Reply::Value { value: protocol },
            Command::GetQueueNum => Reply::Value { value: queue_num },
            _ => Reply::Value { value: 0 },
        };
        match neg.step(reply) {
            Negotiated::Send { command: c, next } => {
                neg = next;
                command = c;
            }
            Negotiated::Ready { device } => return (sent, Ok(device)),
            Negotiated::Refused { error } => return (sent, Err(error)),
        }
    }
}

#[test]
fn negotiation_with_protocol_features() {
    let features = VHOST_USER_F_PROTOCOL_FEATURES | 0x1_0000_0000;
    let (sent, device) = negotiate(features, u64::MAX, 3, 0, vec![16, 8]);
    assert_eq!(
        sent,
        vec![
            Command::GetFeatures,
            Command::SetFeatures {
                bits: VHOST_USER_F_PROTOCOL_FEATURES
            },
            Command::GetProtocolFeatures,
            Command::SetProtocolFeatures {
                bits: WANTED_PROTOCOL_FEATURES
            },
            Command::GetQueueNum,
        ]
    );
    let device = device.unwrap();
    assert_eq!(device.device_type(), 26);
    assert_eq!(device.device_name(), "fs");
    assert_eq!(device.avail_features(), 0x1_0000_0000);
    assert_eq!(device.backend_features, VHOST_USER_F_PROTOCOL_FEATURES);
    assert_eq!(device.acked_protocol_features(), WANTED_PROTOCOL_FEATURES);
    assert!(device.device_state_supported());
    assert!(!device.is_activated());
    let sizes: Vec<u16> = device.queue_config().iter().map(|c| c.size).collect();
    assert_eq!(sizes, vec![16, 8, 8]);
    assert!(device.add_mem_region().is_ok());
}

#[test]
fn negotiation_without_protocol_features() {
    let (sent, device) = negotiate(1, 0, 9, 2, vec![]);
    assert_eq!(sent, vec![Command::GetFeatures]);
    let device = device.unwrap();
    assert_eq!(device.acked_protocol_features(), 0);
    let sizes: Vec<u16> = device.queue_config().iter().map(|c| c.size).collect();
    assert_eq!(sizes, vec![256, 256]);
    assert_eq!(
        device.add_mem_region(),
        Err(VhostError::MemSlotsNotNegotiated)
    );

    let (_, refused) = negotiate(1, 0, 9, 0, vec![]);
    assert_eq!(refused.err(), Some(VhostError::NoQueueCount));
}

#[test]
fn negotiation_fails_with_the_backend() {
    let (neg, _) = Negotiation::begin(26, "fs".to_string(), 1, vec![]);
    assert!(matches!(
        neg.step(Reply::Failed),
        Negotiated::Refused {
            error: VhostError::Backend
        }
    ));
}

#[test]
fn protocol_feature_bits_are_those_of_the_protocol() {
    assert_eq!(PROTOCOL_MQ, VhostUserProtocolFeatures::MQ.bits());
    assert_eq!(PROTOCOL_CONFIG, VhostUserProtocolFeatures::CONFIG.bits());
    assert_eq!(
        PROTOCOL_CONFIGURE_MEM_SLOTS,
        VhostUserProtocolFeatures::CONFIGURE_MEM_SLOTS.bits()
    );
    assert_eq!(
        PROTOCOL_DEVICE_STATE,
        VhostUserProtocolFeatures::DEVICE_STATE.bits()
    );
    assert_eq!(
        WANTED_PROTOCOL_FEATURES,
        PROTOCOL_MQ | PROTOCOL_CONFIG | PROTOCOL_CONFIGURE_MEM_SLOTS | PROTOCOL_DEVICE_STATE
    );
}

#[test]
fn reconnection_keeps_what_both_have() {
    let mut device = unconnected();
    let (mut state, command) = device.reconnect_for_restore(u64::MAX);
    assert_eq!(command, Command::GetFeatures);
    let features = VHOST_USER_F_PROTOCOL_FEATURES | 5;
    // Unknown bits do not come through, although both sides have them.
    for (value, stage) in [
        (features, Stage::Enable),
        (0, Stage::Offered),
        (0xffff_ffff_0008_0001, Stage::Select),
    ] {
        match device.reconnect_step(state, Reply::Value { value }) {
            Reconnected::Send { next, .. } => state = next,
            other => panic!("{other:?}"),
        }
        assert_eq!(state.stage, stage);
        assert_eq!(device.avail_features(), 0);
    }
    assert_eq!(
        device.reconnect_step(state, Reply::Value { value: 0 }),
        Reconnected::Ready
    );
    assert_eq!(device.acked_protocol_features(), 0x8_0001);
    assert!(device.device_state_supported());
    assert_eq!(device.avail_features(), 5);
    assert_eq!(
        device.reconnect_step(state, Reply::Failed),
        Reconnected::Failed
    );
}

fn region(start: u64, size: u64, host: u64, file_backed: bool) -> HostRegion {
    HostRegion {
        start,
        size,
        host,
        file_backed,
    }
}

#[test]
fn addresses_are_translated() {
    let regions = vec![
        region(0, 0x1000, 0x7000_0000, true),
        region(0x2000, 0x1000, 0x1000_0000, false),
    ];
    assert_eq!(gpa_to_vmm_va(&regions, 0x10), Ok(0x7000_0010));
    assert_eq!(gpa_to_vmm_va(&regions, 0x2fff), Ok(0x1000_0fff));
    assert_eq!(
        gpa_to_vmm_va(&regions, 0x1000),
        Err(VhostError::Unmapped { gpa: 0x1000 })
    );
}

#[test]
fn activation_sets_up_each_ring() {
    let mut device = unconnected();
    device.backend_features = VHOST_USER_F_PROTOCOL_FEATURES;
    device.set_acked_features(1);
    let regions = vec![
        region(0, 0x10000, 0x7000_0000, true),
        region(0x2_0000, 0x1000, 0x1000_0000, false),
    ];
    let mut q = Queue::new(16);
    q.size = 8;
    q.desc_table = GuestAddress(0x100);
    q.avail_ring = GuestAddress(0x200);
    q.used_ring = GuestAddress(0x300);
    let plan = device.activation_plan(&regions, &vec![q], Some(&vec![7]));
    assert!(plan.complete);
    assert_eq!(plan.shared, vec![regions[0]]);
    assert_eq!(
        plan.commands,
        vec![
            Command::SetOwner,
            Command::SetMemTable,
            Command::SetFeatures {
                bits: VHOST_USER_F_PROTOCOL_FEATURES | 1
            },
            Command::SetVringNum { index: 0, size: 8 },
            Command::SetVringBase { index: 0, base: 7 },
            Command::SetVringAddr {
                index: 0,
                config: VringConfig {
                    queue_max_size: 16,
                    queue_size: 8,
                    desc_table_addr: 0x7000_0100,
                    avail_ring_addr: 0x7000_0200,
                    used_ring_addr: 0x7000_0300,
                }
            },
            Command::SetVringKick { index: 0 },
            Command::SetVringCall { index: 0 },
            Command::SetVringEnable {
                index: 0,
                enable: true
            },
        ]
    );

    // A ring outside of memory ends the plan.
    let mut lost = q;
    lost.used_ring = GuestAddress(0x9_0000);
    let plan = device.activation_plan(&regions, &vec![lost, q], None);
    assert!(!plan.complete);
    assert_eq!(plan.commands.len(), 5);

    assert!(device.finish_activation(false).is_err());
    assert!(!device.is_activated());
    assert!(device.finish_activation(true).is_ok());
    assert!(device.is_activated());
    device.queue_configs = same_configs(2, 8);
    assert_eq!(
        device.reset_plan(),
        vec![
            Command::SetVringEnable {
                index: 0,
                enable: false
            },
            Command::SetVringEnable {
                index: 1,
                enable: false
            },
        ]
    );
    assert!(device.reset());
    assert!(!device.is_activated());
}

#[test]
fn plans_are_made_for_mapped_memory() {
    let m: GuestMemoryMmap = GuestMemoryMmap::from_ranges(&[
        (vm_memory::GuestAddress(0), 0x10000),
        (vm_memory::GuestAddress(0x20000), 0x2000),
    ])
    .unwrap();
    let mem = GuestMemory::new(m);
    let listed = mem.host_regions();
    assert_eq!(listed.len(), 2);
    assert_eq!((listed[0].start, listed[0].size), (0, 0x10000));
    assert_eq!((listed[1].start, listed[1].size), (0x20000, 0x2000));
    assert!(!listed[0].file_backed);

    let mut q = Queue::new(16);
    q.size = 16;
    q.used_ring = GuestAddress(0x20010);
    let plan = unconnected()
        .plan_for_memory(&mem, &vec![q], None)
        .unwrap();
    assert!(plan.complete);
    // Anonymous memory is not shared.
    assert!(plan.shared.is_empty());
    let expected = VringConfig {
        queue_max_size: 16,
        queue_size: 16,
        desc_table_addr: listed[0].host,
        avail_ring_addr: listed[0].host,
        used_ring_addr: listed[1].host + 0x10,
    };
    assert_eq!(
        plan.commands[5],
        Command::SetVringAddr {
            index: 0,
            config: expected
        }
    );
}

#[test]
fn state_transfers_go_step_by_step() {
    let mut device = unconnected();
    device.device_state_supported = true;
    let mut step = device.save_device_state().unwrap();
    let direction = Direction::Save;
    assert_eq!(step, Transfer::Pipe { direction });
    for expected in [
        Transfer::Offer { direction },
        Transfer::Move { direction },
        Transfer::Confirm { direction },
        Transfer::Complete,
    ] {
        step = step.step(TransferOutcome::Done).unwrap();
        assert_eq!(step, expected);
    }
    let offer = Transfer::Offer {
        direction: Direction::Load,
    };
    assert_eq!(
        offer.step(TransferOutcome::Replaced),
        Err(VhostError::ReplacementFd)
    );
    assert_eq!(offer.step(TransferOutcome::Failed), Err(VhostError::Backend));
    assert_eq!(VhostError::ReplacementFd.kind(), VhostErrorKind::Other);
}

#[test]
fn positions_are_taken_over() {
    let mut own = empty_queues(2, 32);
    let mut given = Queue::new(64);
    given.size = 16;
    given.ready = true;
    given.desc_table = GuestAddress(0x10);
    given.set_next_avail(3);
    given.set_next_used(2);
    take_positions(&mut own, &vec![given]);
    assert_eq!(own[0].max_size, 32);
    assert_eq!((own[0].size, own[0].ready), (16, true));
    assert_eq!((own[0].next_avail(), own[0].next_used()), (3, 2));
    assert_eq!(own[1], Queue::new(32));
    assert_eq!(saved_base(0x1_0007), 7);
}

#[test]
fn fs_devices_take_tag_and_configuration() {
    let mut payload = [0u8; 40];
    payload[..8].copy_from_slice(b"previous");
    payload[36] = 2;
    let fs = VhostUserFs::new("new", "/run/fs.sock", Some(64), unconnected(), &payload).unwrap();
    let mut tag = [0u8; 8];
    fs.read_config(0, &mut tag);
    assert_eq!(&tag, b"newvious");
    assert_eq!(fs.queues().len(), 3);
    assert_eq!(fs.socket_path(), "/run/fs.sock");
    assert_eq!(fs.dax_window_size(), Some(64 << 20));

    let long = "x".repeat(37);
    assert_eq!(VhostUserFs::check_tag(&long), Err(VhostError::TagTooLong));
    assert_eq!(VhostUserFs::check_tag(&long[..36]), Ok(()));
    assert_eq!(
        VhostUserFs::new("t", "s", None, unconnected(), &payload[..39]).err(),
        Some(VhostError::InvalidConfig)
    );
    assert_eq!(VhostError::InvalidConfig.kind(), VhostErrorKind::InvalidData);
}

#[test]
fn fs_activation_shares_the_window() {
    let mut fs = test_fs(VirtioFsConfig::default(), Some(32));
    let (step, state) = fs.activate(&empty_queues(1, 1024));
    assert_eq!(step, FsActivation::Start);
    assert!(state.is_none());
    assert_eq!(fs.advance(step, true), Ok(FsActivation::Active));
    assert!(fs.is_activated());

    fs.set_dax_window_fd(9);
    fs.set_shm_region(VirtioShmRegion {
        host_addr: 1,
        guest_addr: 2,
        size: 3,
    });
    let dax = fs.dax_region().unwrap();
    assert_eq!(
        (dax.guest_phys_addr, dax.memory_size, dax.userspace_addr),
        (2, 3, 1)
    );
    assert_eq!((dax.mmap_offset, dax.mmap_handle), (0, 9));
    let step = fs.advance(FsActivation::Start, true).unwrap();
    assert_eq!(step, FsActivation::ShareDax { restoring: false });
    assert_eq!(fs.advance(step, false), Err(BadActivate));
    assert!(!fs.is_activated());
}

#[test]
fn fs_restore_goes_through_all_steps() {
    let mut source = test_fs(VirtioFsConfig::default(), Some(32));
    source.config.num_request_queues = 5;
    source.config.tag[0] = b'q';
    source.set_acked_features(0x77);
    assert_eq!(source.next_to_save(0), Some(0));
    assert_eq!(source.next_to_save(1), None);
    let saved = source.save_backend_state(vec![4], vec![1, 2]);
    assert_eq!(saved.dax_window_mib, Some(32));
    assert_eq!(saved.acked_features, 0x77);
    let saved = decode_fs(&encode_fs(saved));

    let mut fs = test_fs(VirtioFsConfig::default(), None);
    fs.restore_backend_state(None);
    assert!(fs.pending_restore_state.is_none());
    fs.restore_backend_state(Some(saved));
    assert_eq!(fs.config.to_bytes(), source.config.to_bytes());
    let (mut step, state) = fs.activate(&Vec::new());
    assert_eq!(state.unwrap().vring_bases, vec![4]);
    let mut steps = vec![step];
    while step != FsActivation::Active {
        assert!(!fs.is_activated());
        step = fs.advance(step, true).unwrap();
        steps.push(step);
    }
    assert!(fs.is_activated());
    assert_eq!(
        steps,
        vec![
            FsActivation::Connect,
            FsActivation::Reconnect,
            FsActivation::Rings,
            FsActivation::LoadState,
            FsActivation::Active,
        ]
    );
    // The state is handed out once.
    assert_eq!(fs.activate(&Vec::new()).0, FsActivation::Start);
}

#[test]
fn vsock_devices_need_a_whole_cid() {
    let payload = [7u8, 0, 0, 0, 0, 0, 0, 1, 9];
    let vsock = VhostUserVsock::build_from_device(unconnected(), None, &payload).unwrap();
    assert_eq!(vsock.guest_cid(), 0x0100_0000_0000_0007);
    let short = VhostUserVsock::build_from_device(unconnected(), None, &payload[..7]);
    assert_eq!(short.err(), Some(VhostError::ShortConfig { got: 7 }));
}

#[test]
fn vsock_restore_goes_through_all_steps() {
    let mut source = test_vsock(42);
    source.socket_path = Some("/run/v.sock".to_string());
    let saved = source.save_backend_state(vec![1, 2, 3], vec![9]);
    let mut vsock = test_vsock(3);
    vsock.restore_backend_state(Some(decode_vsock(&encode_vsock(saved))));
    let (mut step, state) = vsock.activate(&Vec::new());
    assert_eq!(state.unwrap().daemon_state, vec![9]);
    let mut steps = vec![step];
    while step != VsockActivation::Active {
        step = vsock.advance(step, true).unwrap();
        steps.push(step);
    }
    assert_eq!(
        steps,
        vec![
            VsockActivation::Connect,
            VsockActivation::Reconnect,
            VsockActivation::Rings,
            VsockActivation::LoadState,
            VsockActivation::Active,
        ]
    );
    assert!(vsock.is_activated());
    assert_eq!(vsock.advance(VsockActivation::LoadState, false), Err(BadActivate));
    assert!(!vsock.is_activated());
}

#[test]
fn fs_states_survive_as_bytes() {
    let mut source = test_fs(VirtioFsConfig::default(), Some(32));
    source.config.num_request_queues = 5;
    source.config.tag[35] = b'z';
    source.set_acked_features(0x1_0000_0077);
    let bases = vec![0, 250, 251, 256, u16::MAX];
    let bytes = source.save_to_bytes(bases.clone(), vec![7; 300]).unwrap();
    assert_eq!(
        bytes,
        encode_fs(source.save_backend_state(bases.clone(), vec![7; 300]))
    );

    let mut fs = test_fs(VirtioFsConfig::default(), None);
    fs.restore_from_bytes(&bytes);
    assert_eq!(fs.config.to_bytes(), source.config.to_bytes());
    assert_eq!(fs.tag(), source.tag());
    let state = fs.pending_restore_state.as_ref().unwrap();
    assert_eq!(state.vring_bases, bases);
    assert_eq!(state.daemon_state, vec![7; 300]);
    assert_eq!(state.acked_features, 0x1_0000_0077);
    assert_eq!(state.dax_window_mib, Some(32));
    assert_eq!(state.socket_path, "/tmp/test.sock");
}

#[test]
fn fs_bytes_that_hold_no_state_change_nothing() {
    let mut fs = test_fs(VirtioFsConfig::default(), None);
    fs.restore_from_bytes(&[]);
    assert!(fs.pending_restore_state.is_none());
    fs.restore_from_bytes(&[0xff; 40]);
    assert!(fs.pending_restore_state.is_none());
    let cut = fs.save_to_bytes(vec![1], vec![2, 3]).unwrap();
    fs.restore_from_bytes(&cut[..cut.len() - 1]);
    assert!(fs.pending_restore_state.is_none());
    assert_eq!(fs.tag(), "test");
    // The texts take 18 bytes, the tag of the configuration 36 and one position 2.
    let room = MAX_SNAPSHOT_BYTES - 40 - 18 - 36 - 2;
    let long = fs.save_to_bytes(vec![1], vec![9; room + 50]).unwrap();
    fs.restore_from_bytes(&long);
    assert!(fs.pending_restore_state.is_none());
    let fits = fs.save_to_bytes(vec![1], vec![9; room]).unwrap();
    fs.restore_from_bytes(&fits);
    let state = fs.pending_restore_state.as_ref().unwrap();
    assert_eq!(state.daemon_state, vec![9; room]);
}

#[test]
fn vsock_states_survive_as_bytes() {
    let mut source = test_vsock(u64::MAX);
    source.socket_path = Some("/run/v.sock".to_string());
    let bases = vec![u16::MAX, 251, 3];
    let bytes = source.save_to_bytes(bases.clone(), vec![9, 8]).unwrap();
    assert_eq!(
        bytes,
        encode_vsock(source.save_backend_state(bases.clone(), vec![9, 8]))
    );

    let mut vsock = test_vsock(3);
    vsock.restore_from_bytes(&bytes[..bytes.len() - 1]);
    assert!(vsock.pending_restore_state.is_none());
    assert_eq!(vsock.guest_cid(), 3);
    let long = source.save_to_bytes(bases.clone(), vec![0; MAX_SNAPSHOT_BYTES]).unwrap();
    vsock.restore_from_bytes(&long);
    assert_eq!(vsock.guest_cid(), 3);
    vsock.restore_from_bytes(&bytes);
    assert_eq!(vsock.guest_cid(), u64::MAX);
    assert_eq!(vsock.socket_path, Some("/run/v.sock".to_string()));
    let state = vsock.pending_restore_state.as_ref().unwrap();
    assert_eq!(state.vring_bases, bases);
    assert_eq!(state.daemon_state, vec![9, 8]);
}

#[test]
fn rings_stop_when_a_step_behind_them_fails() {
    let steps = [
        (FsActivation::Start, false),
        (FsActivation::Connect, false),
        (FsActivation::Reconnect, false),
        (FsActivation::Rings, false),
        (FsActivation::ShareDax { restoring: false }, true),
        (FsActivation::ShareDax { restoring: true }, true),
        (FsActivation::LoadState, true),
        (FsActivation::Active, false),
    ];
    for (at, stops) in steps {
        assert_eq!(fs::stops_rings(at, false), stops);
        assert!(!fs::stops_rings(at, true));
    }
    assert!(vsock::stops_rings(VsockActivation::LoadState, false));
    assert!(!vsock::stops_rings(VsockActivation::LoadState, true));
    assert!(!vsock::stops_rings(VsockActivation::Rings, false));
}
