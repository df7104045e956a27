//! The builder of virtual machines, its configuration, and the balloon.

use std::collections::HashMap;

use krun_devices::krun::balloon::{
    AwaitStep, AwaitTarget, BalloonError, BalloonHandle, BalloonResult,
};
use krun_devices::krun::builder::{
    Builder, BuilderError, ConsoleDeviceInfo, PortMapConflict, Prepared, PrivilegeStep,
};
use krun_devices::krun::config::{
    iface_id, ContextConfig, LegacyNetworkConfig, StartError, DEFAULT_LEGACY_MAC,
    NET_COMPAT_FEATURES,
};
use krun_devices::krun::handle::PausedWork;
use krun_devices::krun::nitro::{NitroEnclave, NITRO_EINVAL};
use krun_devices::krun::resources::{
    BlockDeviceConfig, BlockDeviceType, BlockRootConfig, CacheType, FsSource, ImageType,
    KernelBundle, PortDescription, RngBackend, SyncMode, TsiFlags, VhostUserVsockConnection,
    VirtioConsoleConfigMode, VmResources, VsockConfig,
};
use krun_devices::net::device::VirtioNetBackend;

fn port(name: &str) -> PortDescription {
    PortDescription {
        name: name.to_string(),
        input: None,
        output: None,
        terminal: None,
    }
}

fn block(id: &str, read_only: bool) -> BlockDeviceConfig {
    BlockDeviceConfig {
        block_id: id.to_string(),
        cache_type: CacheType::Writeback,
        disk_type: BlockDeviceType::Image {
            path: "/dev/null".to_string(),
            format: ImageType::Raw,
            sync_mode: SyncMode::Off,
        },
        is_disk_read_only: read_only,
        direct_io: false,
    }
}

fn ports_of<'a>(builder: &'a Builder, info: &ConsoleDeviceInfo) -> &'a Vec<PortDescription> {
    match &builder.config.vmr.virtio_consoles[info.console_id] {
        VirtioConsoleConfigMode::Custom(ports) => ports,
        _ => panic!("unexpected console mode"),
    }
}

/// Waits for a target from `actual` pages on. The guest reports each of `reports`, a number
/// of pages and whether the time is over then; after the last one it stands still.
fn await_target(
    target_mb: u64,
    actual: u64,
    reports: &[(u64, bool)],
) -> Result<BalloonResult, BalloonError> {
    let wait = AwaitTarget::begin(target_mb, actual);
    let mut actual = actual;
    let mut time_over = false;
    let mut reports = reports.iter();
    loop {
        match wait.check(actual, time_over) {
            AwaitStep::Done { result } => return Ok(result),
            AwaitStep::Failed { error } => return Err(error),
            AwaitStep::Wait => match reports.next() {
                Some((pages, over)) => {
                    actual = *pages;
                    time_over = *over;
                    assert_eq!(wait.after_wait(actual, false), None);
                }
                None => return Ok(wait.after_wait(actual, true).unwrap()),
            },
        }
    }
}

#[test]
fn test_add_virtiofs_vhost_user_tag_too_long_ac3_3() {
    let mut builder = Builder::new();
    let long_tag = "x".repeat(37);
    let result = builder.add_virtiofs_vhost_user(&long_tag, "/tmp/sock", Some(32));

    match result {
        Err(StartError::TagTooLong(len)) => {
            assert_eq!(len, 37, "Error should report correct tag length");
        }
        _ => panic!("Expected TagTooLong error for 37-byte tag"),
    }
}

#[test]
fn test_add_virtiofs_vhost_user_tag_max_length() {
    let mut builder = Builder::new();
    let max_tag = "x".repeat(36);
    let result = builder.add_virtiofs_vhost_user(&max_tag, "/tmp/sock", Some(32));

    assert!(result.is_ok(), "36-byte tag should be accepted");
}

#[test]
fn test_add_virtiofs_vhost_user_coexistence_ac3_4() {
    let mut builder = Builder::new();

    builder.add_virtiofs_path("fs1", "/tmp", None, false);
    let result = builder.add_virtiofs_vhost_user("vhostfs", "/tmp/sock", Some(32));

    assert!(
        result.is_ok(),
        "vhost-user FS should coexist with regular FS"
    );
    assert_eq!(
        builder.config.vmr.fs.len(),
        1,
        "Should have 1 regular FS device"
    );
    assert_eq!(
        builder.config.vmr.vhost_user_fs.len(),
        1,
        "Should have 1 vhost-user FS device"
    );
    assert_eq!(
        builder.config.vmr.vhost_user_fs[0].tag, "vhostfs",
        "vhost-user FS tag should be stored"
    );
    assert_eq!(
        builder.config.vmr.vhost_user_fs[0].socket_path, "/tmp/sock",
        "vhost-user FS socket path should be stored"
    );
    assert_eq!(
        builder.config.vmr.vhost_user_fs[0].dax_window_mib,
        Some(32),
        "vhost-user FS DAX window size should be stored"
    );
}

#[test]
fn test_add_vsock_vhost_user_socket_path_success() {
    let mut builder = Builder::new();
    let result = builder.add_vsock_vhost_user("/tmp/vsock.sock");

    assert!(result.is_ok(), "add_vsock_vhost_user() should succeed");
    assert!(
        builder.config.vhost_user_vsock,
        "vhost_user_vsock flag should be set"
    );
    assert!(
        builder.config.vmr.vhost_user_vsock.is_some(),
        "vhost_user_vsock config should be stored in VmResources"
    );
}

#[test]
fn test_add_vsock_vhost_user_fd_success() {
    let mut builder = Builder::new();
    let result = builder.add_vsock_vhost_user_fd(17);

    assert!(
        result.is_ok(),
        "add_vsock_vhost_user_fd() should succeed with valid UnixStream"
    );
    assert!(
        builder.config.vhost_user_vsock,
        "vhost_user_vsock flag should be set"
    );
    assert_eq!(
        builder.config.vmr.vhost_user_vsock,
        Some(VhostUserVsockConnection::Stream(17)),
        "vhost_user_vsock config should be stored in VmResources"
    );
}

#[test]
fn test_vsock_conflict_explicit_then_vhost_user() {
    let mut builder = Builder::new();

    builder.config.vsock_config = VsockConfig::Explicit {
        tsi_flags: TsiFlags {
            hijack_inet: false,
            hijack_unix: false,
        },
    };

    let result = builder.add_vsock_vhost_user("/tmp/vsock.sock");

    assert!(
        matches!(result, Err(StartError::VsockConflict)),
        "add_vsock_vhost_user() should return VsockConflict when explicit vsock configured"
    );
}

#[test]
fn test_vsock_conflict_vhost_user_then_explicit() {
    let mut builder = Builder::new();

    let result1 = builder.add_vsock_vhost_user("/tmp/vsock.sock");
    assert!(
        result1.is_ok(),
        "first add_vsock_vhost_user() should succeed"
    );

    let result2 = builder.add_vsock_vhost_user("/tmp/other.sock");
    assert!(
        matches!(result2, Err(StartError::VsockConflict)),
        "second add_vsock_vhost_user() should fail with VsockConflict"
    );
}

#[test]
fn test_vsock_conflict_vhost_user_fd_then_explicit() {
    let mut builder = Builder::new();

    let result = builder.add_vsock_vhost_user_fd(17);
    assert!(result.is_ok(), "add_vsock_vhost_user_fd() should succeed");

    let result2 = builder.add_vsock_vhost_user("/tmp/vsock.sock");
    assert!(
        matches!(result2, Err(StartError::VsockConflict)),
        "add_vsock_vhost_user() should return VsockConflict after vhost-user-fd"
    );
    assert!(matches!(
        builder.add_vsock_vhost_user_fd(18),
        Err(StartError::VsockConflict)
    ));
}

#[test]
fn test_balloon_handle_ac4_2_enable_balloon_sets_flag() {
    let mut builder = Builder::new();
    assert_eq!(
        builder.config.vmr.balloon_enabled, false,
        "balloon_enabled should be false by default"
    );

    builder.enable_balloon();
    assert_eq!(
        builder.config.vmr.balloon_enabled, true,
        "balloon_enabled should be true after enable_balloon()"
    );
}

#[test]
fn test_balloon_handle_ac4_6_resize_inactive_device_error() {
    let mut handle = BalloonHandle::new();

    let result = handle.resize(256);
    assert!(
        matches!(result, Err(BalloonError::DeviceNotActive)),
        "resize() on inactive device should return DeviceNotActive"
    );
}

#[test]
fn test_balloon_handle_resize_large_value() {
    let mut handle = BalloonHandle::new();

    let max_mb = (u32::MAX as u64) * 4096 / (1024 * 1024);
    let too_large = max_mb + 1;

    let result = handle.resize(too_large);
    assert!(
        matches!(result, Err(BalloonError::TargetTooLarge { max_mb: m }) if m == max_mb),
        "resize() should fail with TargetTooLarge for target exceeding u32::MAX pages"
    );
    assert!(matches!(
        handle.resize(u64::MAX),
        Err(BalloonError::TargetTooLarge { max_mb: m }) if m == max_mb
    ));
}

#[test]
fn test_balloon_handle_creation_and_accessors() {
    let handle = BalloonHandle::new();

    let actual_mb = handle.actual();
    assert_eq!(actual_mb, 0, "actual should be 0 initially");
}

#[test]
fn test_balloon_handle_await_target_stalled_no_progress() {
    let result = await_target(256, 0, &[]);

    assert!(
        matches!(result, Ok(BalloonResult::Stalled(_))),
        "await_target() should return Stalled when guest doesn't progress"
    );
}

#[test]
fn test_balloon_handle_await_target_reached_with_notification() {
    let result = await_target(1, 0, &[(512, false)]);

    assert!(
        matches!(result, Ok(BalloonResult::Reached(actual_mb)) if actual_mb >= 1),
        "await_target() should return Reached when guest notifies actual >= target"
    );
}

#[test]
fn test_balloon_handle_await_target_with_concurrent_updates() {
    let result = await_target(2, 0, &[(1024, false)]);

    assert!(
        matches!(result, Ok(BalloonResult::Reached(actual_mb)) if actual_mb >= 2),
        "await_target() should return Reached when guest notifies target met"
    );
}

#[test]
fn test_balloon_handle_await_target_deflation_does_not_return_immediately() {
    let result = await_target(1, 1024, &[]);

    assert!(
        matches!(result, Ok(BalloonResult::Stalled(_))),
        "await_target() for deflation should NOT return Reached immediately; \
         it must wait for actual to decrease. Got: {result:?}"
    );
}

#[test]
fn test_balloon_handle_await_target_deflation_reached_with_notification() {
    let result = await_target(1, 1024, &[(128, false)]);

    assert!(
        matches!(result, Ok(BalloonResult::Reached(actual_mb)) if actual_mb <= 1),
        "await_target() for deflation should return Reached when actual drops to target. Got: {result:?}"
    );
}

#[test]
fn test_balloon_resize_sets_num_pages() {
    let mut handle = BalloonHandle::new();

    let result = handle.resize(128);
    assert!(
        result.is_err() && matches!(result, Err(BalloonError::DeviceNotActive)),
        "resize should fail with DeviceNotActive (device not activated in unit test)"
    );

    let result = handle.resize(1);
    assert!(
        result.is_err() && matches!(result, Err(BalloonError::DeviceNotActive)),
        "resize should fail with DeviceNotActive"
    );

    let max_mb = (u32::MAX as u64) * 4096 / (1024 * 1024);
    let too_large = max_mb + 1;
    let result = handle.resize(too_large);
    assert!(
        matches!(result, Err(BalloonError::TargetTooLarge { .. })),
        "resize should fail with TargetTooLarge for too large value"
    );

    handle.activated = true;
    assert_eq!(handle.resize(128), Ok(()));
    assert_eq!(handle.num_pages, 32768);
    assert_eq!(handle.resize(256), Ok(()));
    assert_eq!(handle.num_pages, 65536);
    assert_eq!(handle.resize(1), Ok(()));
    assert_eq!(handle.num_pages, 256);
}

#[test]
fn test_get_workdir_none() {
    let cfg = ContextConfig::default();
    assert_eq!(cfg.get_workdir(), "");
}

#[test]
fn test_get_workdir_some() {
    let mut cfg = ContextConfig::default();
    cfg.workdir = Some("/home/user".to_string());
    assert_eq!(cfg.get_workdir(), "KRUN_WORKDIR=/home/user");
}

#[test]
fn test_get_exec_path_none() {
    let cfg = ContextConfig::default();
    assert_eq!(cfg.get_exec_path(), "");
}

#[test]
fn test_get_exec_path_some() {
    let mut cfg = ContextConfig::default();
    cfg.exec_path = Some("/usr/bin/app".to_string());
    assert_eq!(cfg.get_exec_path(), "KRUN_INIT=/usr/bin/app");
}

#[test]
fn test_get_env_none() {
    let cfg = ContextConfig::default();
    assert_eq!(cfg.get_env(), "");
}

#[test]
fn test_get_env_some() {
    let mut cfg = ContextConfig::default();
    cfg.env = Some("FOO=bar BAZ=qux".to_string());
    assert_eq!(cfg.get_env(), "FOO=bar BAZ=qux");
}

#[test]
fn test_get_args_none() {
    let cfg = ContextConfig::default();
    assert_eq!(cfg.get_args(), "");
}

#[test]
fn test_get_args_some() {
    let mut cfg = ContextConfig::default();
    cfg.args = Some("--verbose --output /tmp/out".to_string());
    assert_eq!(cfg.get_args(), "--verbose --output /tmp/out");
}

#[test]
fn test_get_rlimits_none() {
    let cfg = ContextConfig::default();
    assert_eq!(cfg.get_rlimits(), "");
}

#[test]
fn test_get_rlimits_some() {
    let mut cfg = ContextConfig::default();
    cfg.rlimits = Some("NOFILE=1024".to_string());
    assert_eq!(cfg.get_rlimits(), "KRUN_RLIMITS=NOFILE=1024");
}

#[test]
fn test_get_block_root_none() {
    let cfg = ContextConfig::default();
    assert_eq!(cfg.get_block_root(), "");
}

#[test]
fn test_get_block_root_some_device_only() {
    let mut cfg = ContextConfig::default();
    cfg.block_root = Some(BlockRootConfig {
        device: "/dev/vda".to_string(),
        fstype: None,
        options: None,
    });
    assert_eq!(cfg.get_block_root(), "KRUN_BLOCK_ROOT_DEVICE=/dev/vda");
}

#[test]
fn test_get_block_root_with_fstype() {
    let mut cfg = ContextConfig::default();
    cfg.block_root = Some(BlockRootConfig {
        device: "/dev/vda".to_string(),
        fstype: Some("ext4".to_string()),
        options: None,
    });
    assert_eq!(
        cfg.get_block_root(),
        "KRUN_BLOCK_ROOT_DEVICE=/dev/vda KRUN_BLOCK_ROOT_FSTYPE=ext4"
    );
}

#[test]
fn test_get_block_root_with_options() {
    let mut cfg = ContextConfig::default();
    cfg.block_root = Some(BlockRootConfig {
        device: "/dev/vda".to_string(),
        fstype: Some("ext4".to_string()),
        options: Some("ro,noatime".to_string()),
    });
    let result = cfg.get_block_root();
    assert!(result.contains("KRUN_BLOCK_ROOT_DEVICE=/dev/vda"));
    assert!(result.contains("KRUN_BLOCK_ROOT_FSTYPE=ext4"));
    assert!(result.contains("KRUN_BLOCK_ROOT_OPTIONS=ro,noatime"));
}

#[test]
fn test_builder_workdir_sets_field() {
    let mut builder = Builder::new();
    builder.workdir("/home/user".to_string());
    assert_eq!(builder.config.workdir, Some("/home/user".to_string()));
}

#[test]
fn test_builder_exec_path_sets_field() {
    let mut builder = Builder::new();
    builder.exec_path("/usr/bin/app".to_string());
    assert_eq!(builder.config.exec_path, Some("/usr/bin/app".to_string()));
}

#[test]
fn test_builder_env_sets_field() {
    let mut builder = Builder::new();
    builder.env("FOO=bar".to_string());
    assert_eq!(builder.config.env, Some("FOO=bar".to_string()));
}

#[test]
fn test_builder_args_sets_field() {
    let mut builder = Builder::new();
    builder.args("--flag".to_string());
    assert_eq!(builder.config.args, Some("--flag".to_string()));
}

#[test]
fn test_builder_rlimits_sets_field() {
    let mut builder = Builder::new();
    builder.rlimits("NOFILE=1024".to_string());
    assert_eq!(builder.config.rlimits, Some("NOFILE=1024".to_string()));
}

#[test]
fn test_builder_gpu_virgl_flags_sets_field() {
    let mut builder = Builder::new();
    builder.gpu_virgl_flags(0xdeadbeef);
    assert_eq!(builder.config.gpu_virgl_flags, Some(0xdeadbeef));
}

#[test]
fn test_builder_gpu_shm_size_sets_field() {
    let mut builder = Builder::new();
    builder.gpu_shm_size(64 * 1024 * 1024);
    assert_eq!(builder.config.gpu_shm_size, Some(64 * 1024 * 1024));
}

#[test]
fn test_builder_console_output_sets_field() {
    let mut builder = Builder::new();
    builder.console_output("/tmp/console.log".to_string());
    assert_eq!(
        builder.config.console_output,
        Some("/tmp/console.log".to_string())
    );
}

#[test]
fn test_builder_vmm_uid_sets_field() {
    let mut builder = Builder::new();
    builder.vmm_uid(1000);
    assert_eq!(builder.config.vmm_uid, Some(1000));
}

#[test]
fn test_builder_vmm_gid_sets_field() {
    let mut builder = Builder::new();
    builder.vmm_gid(1000);
    assert_eq!(builder.config.vmm_gid, Some(1000));
}

#[test]
fn test_builder_set_kernel_cmdline_stores_args() {
    let mut builder = Builder::new();
    builder.set_kernel_cmdline(vec!["foo=bar", "baz"]);
    assert_eq!(
        builder.kernel_cmdline,
        vec!["foo=bar".to_string(), "baz".to_string()]
    );
}

#[test]
fn test_builder_add_kernel_cmdline_args_extends() {
    let mut builder = Builder::new();
    builder.add_kernel_cmdline_args(&["quiet", "ro"]);
    assert!(builder.extra_kernel_args.contains(&"quiet".to_string()));
    assert!(builder.extra_kernel_args.contains(&"ro".to_string()));
}

#[test]
fn test_builder_add_vsock_port_inserts_entry() {
    let mut builder = Builder::new();
    builder.add_vsock_port(5000, "/tmp/port.sock".to_string(), true);
    let map = builder.config.unix_ipc_port_map.as_ref().unwrap();
    assert!(map.contains_key(&5000));
    let (path, listen) = &map[&5000];
    assert_eq!(path, "/tmp/port.sock");
    assert!(*listen);
}

#[test]
fn test_builder_add_vsock_port_multiple_entries() {
    let mut builder = Builder::new();
    builder.add_vsock_port(5000, "/tmp/a.sock".to_string(), true);
    builder.add_vsock_port(5001, "/tmp/b.sock".to_string(), false);
    let map = builder.config.unix_ipc_port_map.as_ref().unwrap();
    assert_eq!(map.len(), 2);
    assert!(map.contains_key(&5001));
}

#[test]
fn test_builder_port_map_success_when_no_net() {
    let mut builder = Builder::new();
    let mut map = HashMap::new();
    map.insert(8080u16, 8080u16);
    let result = builder.port_map(map);
    assert!(result.is_ok());
    assert!(builder.config.tsi_port_map.is_some());
}

#[test]
fn test_builder_port_map_fails_after_add_net_device() {
    let mut builder = Builder::new();
    builder.add_net_device(VirtioNetBackend::UnixstreamFd(-1), [0u8; 6], 0);
    let mut map = HashMap::new();
    map.insert(8080u16, 8080u16);
    let result = builder.port_map(map);
    assert!(result.is_err(), "port_map should fail when net_index != 0");
    assert!(matches!(result, Err(PortMapConflict)));
}

#[test]
fn test_builder_add_net_device_increments_net_index() {
    let mut builder = Builder::new();
    assert_eq!(builder.config.net_index, 0);
    builder.add_net_device(VirtioNetBackend::UnixstreamFd(-1), [0u8; 6], 0);
    assert_eq!(
        builder.config.net_index, 1,
        "net_index should be 1 after first add_net_device"
    );
    builder.add_net_device(VirtioNetBackend::UnixstreamFd(-1), [0u8; 6], 0);
    assert_eq!(
        builder.config.net_index, 2,
        "net_index should be 2 after second add_net_device"
    );
    assert_eq!(builder.config.vmr.net[1].iface_id, "eth1");
}

#[test]
fn test_builder_add_block_cfg_appends() {
    let mut builder = Builder::new();
    builder.add_block_cfg(block("disk0", false));
    assert_eq!(builder.config.block_cfgs.len(), 1);
}

#[test]
fn test_next_console_device_index_default() {
    // balloon(1) + rng(1) + rtc(1) + implicit_console(1) = 4
    let builder = Builder::new();
    assert_eq!(builder.next_console_device_index(), 4);
}

#[test]
fn test_next_console_device_index_without_implicit_console() {
    let mut builder = Builder::new();
    builder.config.vmr.disable_implicit_console = true;
    assert_eq!(builder.next_console_device_index(), 3);
}

#[test]
fn test_next_console_device_index_with_one_console_added() {
    let mut builder = Builder::new();
    builder.console_count = 1;
    assert_eq!(builder.next_console_device_index(), 5);
}

#[test]
fn test_next_console_device_index_with_two_consoles_added() {
    let mut builder = Builder::new();
    builder.console_count = 2;
    assert_eq!(builder.next_console_device_index(), 6);
}

#[test]
fn test_console_port_path_format() {
    assert_eq!(Builder::console_port_path(4, 0), "/dev/vport4p0");
    assert_eq!(Builder::console_port_path(4, 1), "/dev/vport4p1");
    assert_eq!(Builder::console_port_path(5, 0), "/dev/vport5p0");
    assert_eq!(Builder::console_port_path(0, 3), "/dev/vport0p3");
}

#[test]
fn test_add_virtio_console_with_ports_returns_correct_paths() {
    let mut builder = Builder::new();
    let paths = builder.add_virtio_console_with_ports(vec![port("port0"), port("port1")]);
    assert_eq!(paths.len(), 2);
    assert_eq!(paths[0], "/dev/vport4p0");
    assert_eq!(paths[1], "/dev/vport4p1");
}

#[test]
fn test_add_virtio_console_with_ports_increments_console_count() {
    let mut builder = Builder::new();
    assert_eq!(builder.console_count, 0);
    builder.add_virtio_console_with_ports(vec![]);
    assert_eq!(builder.console_count, 1);
    builder.add_virtio_console_with_ports(vec![]);
    assert_eq!(builder.console_count, 2);
}

#[test]
fn test_add_virtio_console_with_ports_second_uses_next_index() {
    let mut builder = Builder::new();
    let paths1 = builder.add_virtio_console_with_ports(vec![port("a")]);
    let paths2 = builder.add_virtio_console_with_ports(vec![port("b")]);
    assert_eq!(paths1[0], "/dev/vport4p0");
    assert_eq!(paths2[0], "/dev/vport5p0");
}

#[test]
fn test_add_virtio_console_returns_correct_device_index() {
    let mut builder = Builder::new();
    let info = builder.add_virtio_console();
    assert_eq!(
        info.device_index, 4,
        "first console should be at device index 4"
    );
    assert_eq!(info.console_id, 0);
}

#[test]
fn test_add_virtio_console_second_increments_index() {
    let mut builder = Builder::new();
    let info1 = builder.add_virtio_console();
    let info2 = builder.add_virtio_console();
    assert_eq!(info1.device_index, 4);
    assert_eq!(info2.device_index, 5);
    assert_eq!(info1.console_id, 0);
    assert_eq!(info2.console_id, 1);
}

#[test]
fn test_add_port_returns_correct_path() {
    let mut builder = Builder::new();
    let info = builder.add_virtio_console();
    let path = builder.add_port(&info, port("myport"));
    assert_eq!(path, Some("/dev/vport4p0".to_string()));
}

#[test]
fn test_add_port_second_port_increments_index() {
    let mut builder = Builder::new();
    let info = builder.add_virtio_console();
    let path0 = builder.add_port(&info, port("p0"));
    let path1 = builder.add_port(&info, port("p1"));
    assert_eq!(path0, Some("/dev/vport4p0".to_string()));
    assert_eq!(path1, Some("/dev/vport4p1".to_string()));
}

#[test]
fn test_add_port_invalid_console_id_returns_none() {
    let mut builder = Builder::new();
    let info = ConsoleDeviceInfo {
        console_id: 99,
        device_index: 4,
    };
    let path = builder.add_port(&info, port("x"));
    assert_eq!(path, None);
}

#[test]
fn test_add_port_fd_negative_fds_returns_path() {
    let mut builder = Builder::new();
    let info = builder.add_virtio_console();
    let path = builder.add_port_fd(&info, "myport", -1, -1);
    assert_eq!(path, Some("/dev/vport4p0".to_string()));
}

#[test]
fn test_add_port_fd_with_valid_input_fd() {
    let mut builder = Builder::new();
    let info = builder.add_virtio_console();
    let path = builder.add_port_fd(&info, "port", 0, -1);
    assert!(
        path.is_some(),
        "add_port_fd with valid input fd should succeed"
    );
    assert_eq!(path.unwrap(), "/dev/vport4p0");
}

#[test]
fn test_add_port_fd_with_valid_output_fd() {
    let mut builder = Builder::new();
    let info = builder.add_virtio_console();
    let path = builder.add_port_fd(&info, "port", -1, 1);
    assert!(
        path.is_some(),
        "add_port_fd with valid output fd should succeed"
    );
    assert_eq!(path.unwrap(), "/dev/vport4p0");
}

#[test]
fn test_add_port_console_fd_negative_fds_returns_path() {
    let mut builder = Builder::new();
    let info = builder.add_virtio_console();
    let path = builder.add_port_console_fd(&info, -1, -1, 80, 24);
    assert_eq!(path, Some("/dev/vport4p0".to_string()));
}

#[test]
fn test_add_port_console_fd_with_valid_fds() {
    let mut builder = Builder::new();
    let info = builder.add_virtio_console();
    let path = builder.add_port_console_fd(&info, 0, 1, 80, 24);
    assert!(
        path.is_some(),
        "add_port_console_fd with valid fds should succeed"
    );
    assert_eq!(path.unwrap(), "/dev/vport4p0");
    assert_eq!(ports_of(&builder, &info)[0].terminal, Some((80, 24)));
}

#[test]
fn test_disable_implicit_console_succeeds_when_no_consoles() {
    let mut builder = Builder::new();
    assert!(builder.disable_implicit_console().is_ok());
    assert!(builder.config.vmr.disable_implicit_console);
}

#[test]
fn test_disable_implicit_console_fails_after_console_added() {
    let mut builder = Builder::new();
    builder.console_count = 1;
    let result = builder.disable_implicit_console();
    assert!(
        matches!(result, Err(BuilderError::ConsoleAlreadyAdded)),
        "should fail when consoles already added"
    );
}

#[test]
fn test_disable_implicit_console_changes_device_index() {
    let mut builder = Builder::new();
    assert!(builder.disable_implicit_console().is_ok());
    assert_eq!(builder.next_console_device_index(), 3);
}

#[test]
fn the_implicit_console_stays_once_a_console_is_added() {
    let mut builder = Builder::new();
    builder.enable_balloon();
    builder.add_kernel_cmdline_args(&["quiet"]);
    assert!(builder.disable_implicit_console().is_ok());
    assert_eq!(builder.add_virtio_console().device_index, 3);
    builder.enable_balloon();
    let refused = builder.disable_implicit_console();
    assert!(matches!(refused, Err(BuilderError::ConsoleAlreadyAdded)));
    assert_eq!(builder.add_virtio_console().device_index, 4);

    let mut builder = Builder::new();
    builder.add_virtio_console_with_ports(Vec::new());
    let refused = builder.disable_implicit_console();
    assert!(matches!(refused, Err(BuilderError::ConsoleAlreadyAdded)));
    assert!(!builder.config.vmr.disable_implicit_console);
    assert_eq!(builder.add_virtio_console().device_index, 5);
}

#[test]
fn test_builder_set_rng_backend_stores_backend() {
    let mut builder = Builder::new();
    assert!(builder.config.vmr.rng_backend.is_none());
    builder.set_rng_backend(RngBackend::Os);
    assert!(builder.config.vmr.rng_backend.is_some());
}

#[test]
fn test_add_port_fd_stdin_sets_input() {
    let mut builder = Builder::new();
    let info = builder.add_virtio_console();
    builder.add_port_fd(&info, "port", 0, -1);
    let ports = ports_of(&builder, &info);
    assert!(
        ports[0].input.is_some(),
        "fd=0 should produce Some(input), not None"
    );
    assert!(
        ports[0].output.is_none(),
        "output_fd=-1 should produce None"
    );
    assert_eq!(ports[0].name, "port");
}

#[test]
fn test_add_port_fd_stdout_sets_output() {
    let mut builder = Builder::new();
    let info = builder.add_virtio_console();
    builder.add_port_fd(&info, "port", -1, 1);
    let ports = ports_of(&builder, &info);
    assert!(ports[0].input.is_none(), "input_fd=-1 should produce None");
    assert!(
        ports[0].output.is_some(),
        "fd=1 should produce Some(output), not None"
    );
}

#[test]
fn test_add_port_console_fd_stdin_sets_input() {
    let mut builder = Builder::new();
    let info = builder.add_virtio_console();
    builder.add_port_console_fd(&info, 0, -1, 80, 24);
    let ports = ports_of(&builder, &info);
    assert!(ports[0].input.is_some(), "fd=0 should produce Some(input)");
    assert!(
        ports[0].output.is_none(),
        "output_fd=-1 should produce None"
    );
}

#[test]
fn test_add_port_console_fd_stdout_sets_output() {
    let mut builder = Builder::new();
    let info = builder.add_virtio_console();
    builder.add_port_console_fd(&info, -1, 1, 80, 24);
    let ports = ports_of(&builder, &info);
    assert!(ports[0].input.is_none(), "input_fd=-1 should produce None");
    assert!(
        ports[0].output.is_some(),
        "fd=1 should produce Some(output)"
    );
}

#[test]
fn test_add_port_fd_stdin_as_output_sets_output() {
    let mut builder = Builder::new();
    let info = builder.add_virtio_console();
    builder.add_port_fd(&info, "port", -1, 0);
    assert_eq!(ports_of(&builder, &info)[0].output, Some(0));
}

#[test]
fn test_add_port_console_fd_stdin_as_output_sets_output() {
    let mut builder = Builder::new();
    let info = builder.add_virtio_console();
    builder.add_port_console_fd(&info, -1, 0, 80, 24);
    assert_eq!(ports_of(&builder, &info)[0].output, Some(0));
}

#[test]
fn test_builder_block_root_sets_config() {
    let mut builder = Builder::new();
    builder.block_root(
        "vda".to_string(),
        Some("ext4".to_string()),
        Some("ro".to_string()),
    );
    let root = builder.config.block_root.as_ref().unwrap();
    assert_eq!(root.device, "vda");
    assert_eq!(root.fstype, Some("ext4".to_string()));
    assert_eq!(root.options, Some("ro".to_string()));
}

#[test]
fn test_builder_root_block_cfg_sets_field() {
    let mut builder = Builder::new();
    builder.root_block_cfg(block("root", true));
    assert!(builder.config.root_block_cfg.is_some());
    assert_eq!(
        builder.config.root_block_cfg.as_ref().unwrap().block_id,
        "root"
    );
}

#[test]
fn test_builder_data_block_cfg_sets_field() {
    let mut builder = Builder::new();
    builder.data_block_cfg(block("data", false));
    assert!(builder.config.data_block_cfg.is_some());
    assert_eq!(
        builder.config.data_block_cfg.as_ref().unwrap().block_id,
        "data"
    );
}

#[test]
fn test_context_config_take_block_cfg_returns_items() {
    let mut cfg = ContextConfig::default();
    cfg.block_cfgs.push(block("disk0", false));
    let taken = cfg.take_block_cfg();
    assert_eq!(
        taken.len(),
        1,
        "take_block_cfg should return the pushed block cfg"
    );
    assert_eq!(taken[0].block_id, "disk0");
}

#[test]
fn test_context_config_take_block_cfg_legacy_path() {
    let mut cfg = ContextConfig::default();
    cfg.root_block_cfg = Some(block("root", true));
    let taken = cfg.take_block_cfg();
    assert_eq!(taken.len(), 1);
    assert_eq!(taken[0].block_id, "root");
}

#[test]
fn test_balloon_actual_with_nonzero_pages() {
    let mut handle = BalloonHandle::new();

    handle.actual_pages = 256;
    assert_eq!(handle.actual(), 1, "256 pages should be exactly 1 MB");

    handle.actual_pages = 512;
    assert_eq!(handle.actual(), 2, "512 pages should be exactly 2 MB");

    handle.actual_pages = 1024;
    assert_eq!(handle.actual(), 4, "1024 pages should be exactly 4 MB");
}

#[test]
fn test_balloon_await_target_reached_exact_mb_conversion() {
    let result = await_target(1, 0, &[(512, false)]);

    assert!(
        matches!(result, Ok(BalloonResult::Reached(2))),
        "should report exactly 2 MB, got {:?}",
        result
    );
}

#[test]
fn test_balloon_await_target_stalled_exact_mb_conversion() {
    let result = await_target(2, 256, &[]);

    assert!(
        matches!(result, Ok(BalloonResult::Stalled(1))),
        "should stall and report exactly 1 MB, got {:?}",
        result
    );
}

#[test]
fn test_balloon_await_target_target_pages_computation() {
    let result = await_target(2, 300, &[]);
    assert!(
        matches!(result, Ok(BalloonResult::Stalled(_))),
        "300 pages should not reach 2 MB target (512 pages), got {:?}",
        result
    );
}

#[test]
fn test_balloon_await_target_timeout_exact_mb_conversion() {
    let result = await_target(100, 512, &[(512, true)]);

    assert!(
        matches!(result, Err(BalloonError::Timeout { actual: 2 })),
        "Timeout should report exactly 2 MB from 512 pages, got {:?}",
        result
    );
}

#[test]
fn test_balloon_resize_exact_boundary_succeeds() {
    let mut handle = BalloonHandle::new();

    let max_mb = (u32::MAX as u64) * 4096 / (1024 * 1024);
    let result = handle.resize(max_mb);
    assert!(
        matches!(result, Err(BalloonError::DeviceNotActive)),
        "resize(max_mb) should not trigger TargetTooLarge, got {:?}",
        result
    );
}

#[test]
fn test_builder_deref_returns_config() {
    let mut builder = Builder::new();
    builder.config.workdir = Some("test".to_string());
    assert_eq!(builder.config().workdir, Some("test".to_string()));
}

#[test]
fn test_builder_deref_mut_allows_config_mutation() {
    let mut builder = Builder::new();
    builder.config_mut().workdir = Some("mutated".to_string());
    assert_eq!(builder.config.workdir, Some("mutated".to_string()));
}

#[test]
fn test_add_virtiofs_path_stores_root_dir() {
    let mut builder = Builder::new();
    builder.add_virtiofs_path("tag", "/tmp/mydir", None, false);
    assert_eq!(builder.config.vmr.fs.len(), 1);
    assert_eq!(builder.config.vmr.fs[0].tag, "tag");
    assert_eq!(
        builder.config.vmr.fs[0].source,
        FsSource::Path {
            root_dir: "/tmp/mydir".to_string(),
            allow_root_dir_delete: false
        }
    );
}

#[test]
fn test_set_root_uses_64mb_dax_window() {
    let mut builder = Builder::new();
    builder.set_root("/tmp");
    assert_eq!(builder.config.vmr.fs.len(), 1);
    assert_eq!(builder.config.vmr.fs[0].tag, "krun_root");
    assert_eq!(builder.config.vmr.fs[0].shm_size, Some(1 << 26));
}

#[test]
fn tag_too_long_boundary() {
    let mut builder = Builder::new();
    let tag_36 = "a".repeat(36);
    let tag_37 = "a".repeat(37);
    assert!(builder
        .add_virtiofs_vhost_user(&tag_36, "/tmp/sock", None)
        .is_ok());
    let mut builder2 = Builder::new();
    let result = builder2.add_virtiofs_vhost_user(&tag_37, "/tmp/sock", None);
    assert!(matches!(result, Err(StartError::TagTooLong(37))));
}

#[test]
fn vcpus_are_needed() {
    for ram_mib in [1u32, 128, 65535] {
        let mut builder = Builder::new();
        assert!(matches!(
            builder.vm_config(0, ram_mib),
            Err(StartError::ZeroVcpus)
        ));
        for num_vcpus in 1u8..=16 {
            assert!(builder.vm_config(num_vcpus, ram_mib).is_ok());
            assert_eq!(builder.config.vmr.vm_config.vcpu_count, Some(num_vcpus));
            assert_eq!(
                builder.config.vmr.vm_config.mem_size_mib,
                Some(ram_mib as usize)
            );
        }
    }
}

#[test]
fn start_errors_say_what_is_wrong() {
    assert_eq!(
        StartError::MissingFirmware.message(),
        "could not find or load firmware libkrunfw.so.5"
    );
    assert_eq!(
        StartError::ZeroVcpus.message(),
        "vcpu_count must be at least 1"
    );
    assert_eq!(
        StartError::TagTooLong(40).message(),
        "tag too long: 40 bytes (max 36)"
    );
    assert_eq!(
        StartError::VsockConflict.message(),
        "cannot configure both userspace vsock and vhost-user vsock"
    );
    assert_eq!(
        BuilderError::ConsoleAlreadyAdded.message(),
        "cannot disable implicit console after adding console devices (would invalidate device paths)"
    );
    assert_eq!(iface_id(12), "eth12");
}

const KERNEL: KernelBundle = KernelBundle {
    host_addr: 0x7000_0000,
    guest_addr: 0x100_0000,
    entry_addr: 0x100_0000,
    size: 4096,
};

fn prepared(builder: Builder) -> Prepared {
    match builder.prepare(Some(KERNEL), "console=hvc0") {
        Ok(prepared) => prepared,
        Err(e) => panic!("{e:?}"),
    }
}

#[test]
fn machines_need_a_kernel() {
    let no_kernel = Builder::new().prepare(None, "console=hvc0");
    assert_eq!(no_kernel.err(), Some(StartError::MissingFirmware));
    let null = KernelBundle {
        host_addr: 0,
        ..KERNEL
    };
    let null_kernel = Builder::new().prepare(Some(null), "console=hvc0");
    assert_eq!(null_kernel.err(), Some(StartError::MissingFirmware));
    let mut given = Builder::new();
    given.config.vmr.external_kernel = true;
    assert!(!given.config.needs_krunfw());
    assert!(given.prepare(None, "console=hvc0").is_ok());
    assert_eq!(
        prepared(Builder::new()).vmr.kernel_bundle,
        Some(KERNEL)
    );
}

#[test]
fn the_command_line_is_put_together() {
    let mut builder = Builder::new();
    builder.workdir("/w".to_string());
    builder.exec_path("/e".to_string());
    builder.env("A=b".to_string());
    builder.args("x y".to_string());
    builder.vmm_uid(5);
    builder.vmm_gid(6);
    builder.add_kernel_cmdline_args(&["quiet"]);
    let made = prepared(builder);
    let line = made.vmr.kernel_cmdline.unwrap();
    assert_eq!(
        line.cmdline,
        vec![
            "console=hvc0",
            "init=/init.krun",
            "KRUN_INIT=/e",
            "KRUN_WORKDIR=/w",
            "",
            "",
            "A=b",
            "quiet"
        ]
    );
    assert_eq!(line.args, vec![" -- x y"]);
    assert_eq!((made.vmm_uid, made.vmm_gid), (Some(5), Some(6)));

    let mut own = Builder::new();
    own.set_kernel_cmdline(vec!["a", "b"]);
    own.add_kernel_cmdline_args(&["quiet"]);
    let line = prepared(own).vmr.kernel_cmdline.unwrap();
    assert_eq!(line.cmdline, vec!["a", "b", "", "quiet"]);
}

#[test]
fn the_socket_device_depends_on_the_network() {
    // Nothing configured: sockets of the guest are taken over.
    let vsock = prepared(Builder::new()).vmr.vsock.unwrap();
    assert_eq!(vsock.vsock_id, "vsock0");
    assert_eq!(vsock.guest_cid, 3);
    assert!(vsock.tsi_flags.hijack_inet);

    // A network device makes it superfluous,
    let mut with_net = Builder::new();
    with_net.add_net_device(VirtioNetBackend::UnixstreamFd(-1), [0; 6], 0);
    assert!(prepared(with_net).vmr.vsock.is_none());

    // unless ports are mapped.
    let mut with_port = Builder::new();
    with_port.add_net_device(VirtioNetBackend::UnixstreamFd(-1), [0; 6], 0);
    with_port.add_vsock_port(1, "/s".to_string(), false);
    let vsock = prepared(with_port).vmr.vsock.unwrap();
    assert!(!vsock.tsi_flags.hijack_inet);
    assert!(vsock.host_port_map.is_none());
    assert_eq!(vsock.unix_ipc_port_map.unwrap().len(), 1);

    // With a backend of its own there is no other.
    let mut with_backend = Builder::new();
    assert!(with_backend.add_vsock_vhost_user("/s").is_ok());
    assert!(prepared(with_backend).vmr.vsock.is_none());

    let mut disabled = Builder::new();
    disabled.config.vsock_config = VsockConfig::Disabled;
    assert!(prepared(disabled).vmr.vsock.is_none());
}

#[test]
fn old_network_configurations_still_work() {
    let mut builder = Builder::new();
    builder.config.legacy_net_cfg = Some(LegacyNetworkConfig::VirtioNetPasst(7));
    let made = prepared(builder);
    assert_eq!(made.vmr.net.len(), 1);
    assert_eq!(made.vmr.net[0].iface_id, "eth0");
    assert_eq!(made.vmr.net[0].backend, VirtioNetBackend::UnixstreamFd(7));
    assert_eq!(made.vmr.net[0].mac, DEFAULT_LEGACY_MAC);
    assert_eq!(made.vmr.net[0].features, NET_COMPAT_FEATURES);

    let mut builder = Builder::new();
    builder.net_mac([1, 2, 3, 4, 5, 6]);
    builder.config.legacy_net_cfg =
        Some(LegacyNetworkConfig::VirtioNetGvproxy("/g".to_string()));
    let made = prepared(builder);
    assert_eq!(
        made.vmr.net[0].backend,
        VirtioNetBackend::UnixgramPath("/g".to_string(), true)
    );
    assert_eq!(made.vmr.net[0].mac, [1, 2, 3, 4, 5, 6]);
}

#[test]
fn outputs_and_disks_are_taken_over() {
    let mut builder = Builder::new();
    builder.gpu_virgl_flags(3);
    builder.gpu_shm_size(4);
    builder.console_output("/c".to_string());
    builder.root_block_cfg(block("root", true));
    builder.config.set_data_block_cfg(block("data", false));
    let made = prepared(builder);
    assert_eq!(made.vmr.gpu_virgl_flags, Some(3));
    assert_eq!(made.vmr.gpu_shm_size, Some(4));
    assert_eq!(made.vmr.console_output, Some("/c".to_string()));
    let ids: Vec<&str> = made.vmr.block.iter().map(|b| b.block_id.as_str()).collect();
    assert_eq!(ids, vec!["root", "data"]);
}

fn enclave_config() -> ContextConfig {
    let mut builder = Builder::new();
    assert!(builder.vm_config(2, 512).is_ok());
    builder.set_root("/root");
    builder.exec_path("/bin/app".to_string());
    builder.env("A=b".to_string());
    builder.args("x".to_string());
    builder.console_output("/out".to_string());
    builder.config
}

#[test]
fn enclaves_need_a_whole_configuration() {
    let enclave = NitroEnclave::from_config(enclave_config(), true).unwrap();
    assert_eq!((enclave.mem_size_mib, enclave.vcpus), (512, 2));
    assert_eq!(enclave.rootfs, "/root");
    assert_eq!(enclave.exec_path, "/bin/app");
    assert_eq!(enclave.exec_args, "x");
    assert_eq!(enclave.exec_env, "A=b");
    assert_eq!(enclave.output_path, "/out");
    assert_eq!(enclave.net_unixfd, None);
    assert!(enclave.debug);

    let mut with_net = enclave_config();
    with_net.add_network_interface(VirtioNetBackend::UnixstreamFd(9), [0; 6], 0);
    let enclave = NitroEnclave::from_config(with_net, false).unwrap();
    assert_eq!(enclave.net_unixfd, Some(9));

    let mut tap = enclave_config();
    tap.add_network_interface(VirtioNetBackend::Tap("t".to_string()), [0; 6], 0);
    assert_eq!(NitroEnclave::from_config(tap, false), Err(NITRO_EINVAL));
    let mut no_env = enclave_config();
    no_env.env = None;
    assert_eq!(NitroEnclave::from_config(no_env, false), Err(NITRO_EINVAL));
    let mut no_fs = enclave_config();
    no_fs.vmr.fs.clear();
    assert_eq!(NitroEnclave::from_config(no_fs, false), Err(NITRO_EINVAL));
    assert_eq!(
        NitroEnclave::from_config(ContextConfig::default(), false),
        Err(-22)
    );
}

#[test]
fn paused_machines_go_on() {
    fn run(outcomes: [Result<(), &'static str>; 3]) -> (usize, Result<(), &'static str>) {
        let mut work = PausedWork::begin();
        for (done, outcome) in outcomes.into_iter().enumerate() {
            if let PausedWork::Done { result } = work {
                return (done, result);
            }
            work = work.step(outcome);
        }
        match work {
            PausedWork::Done { result } => (3, result),
            _ => panic!("not over"),
        }
    }
    assert_eq!(run([Ok(()), Ok(()), Ok(())]), (3, Ok(())));
    assert_eq!(run([Err("pause"), Ok(()), Ok(())]), (1, Err("pause")));
    assert_eq!(run([Ok(()), Err("work"), Ok(())]), (3, Err("work")));
    assert_eq!(run([Ok(()), Ok(()), Err("resume")]), (3, Err("resume")));
    assert_eq!(run([Ok(()), Err("work"), Err("resume")]), (3, Err("resume")));
}

#[test]
fn the_group_changes_before_the_user() {
    let prepared = |gid: Option<u32>, uid: Option<u32>| Prepared {
        vmr: VmResources::default(),
        vmm_gid: gid,
        vmm_uid: uid,
    };
    assert_eq!(
        prepared(Some(7), Some(8)).privileges(),
        [PrivilegeStep::Setgid(7), PrivilegeStep::Setuid(8)]
    );
    assert_eq!(prepared(Some(7), None).privileges(), [PrivilegeStep::Setgid(7)]);
    assert_eq!(prepared(None, Some(8)).privileges(), [PrivilegeStep::Setuid(8)]);
    assert!(prepared(None, None).privileges().is_empty());
}
