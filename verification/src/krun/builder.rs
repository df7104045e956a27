//! The builder of virtual machines.
use vstd::prelude::*;

use std::collections::HashMap;
use vstd::string::StringExecFns;

use super::config;
use super::config::{ContextConfig, StartError, INIT_PATH};
use super::resources::{
    BlockDeviceConfig, BlockRootConfig, FsMount, FsSource, KernelBundle, KernelCmdlineConfig,
    PortDescription, RngBackend, VhostUserFsConfig, VhostUserVsockConnection,
    VirtioConsoleConfigMode, VmConfig, VmResources, VsockConfig,
};
use crate::net::device::VirtioNetBackend;
use crate::text;
use crate::text::append_decimal;

verus! {

/// The most bytes of a file system tag.
pub const MAX_TAG_BYTES: usize = 36;

/// The size of the shared memory of the root file system: 64 MiB.
pub const ROOT_SHM_SIZE: usize = 67_108_864;

pub const ROOT_TAG: &'static str = "krun_root";

/// The devices that come before the consoles: the balloon, the random numbers, the clock.
pub const DEVICES_BEFORE_CONSOLES: u32 = 3;

/// Why the builder refuses something.
#[derive(Clone, Copy, Debug, PartialEq, Eq, Structural)]
pub enum BuilderError {
    ConsoleAlreadyAdded,
}

impl BuilderError {
    pub fn message(&self) -> (res: String)
        ensures
            res@ == "cannot disable implicit console after adding console devices (would invalidate device paths)"@,
    {
        String::from_str(
            "cannot disable implicit console after adding console devices (would invalidate device paths)",
        )
    }
}

/// The port map does not go with network devices.
#[derive(Clone, Copy, Debug, PartialEq, Eq, Structural)]
pub struct PortMapConflict;

/// Where a console is.
#[derive(Clone, Copy, Debug, PartialEq, Eq, Structural)]
pub struct ConsoleDeviceInfo {
    /// Its place among the consoles.
    pub console_id: usize,
    /// Its place among the devices.
    pub device_index: u32,
}

/// The builder.
pub struct Builder {
    pub config: ContextConfig,
    pub kernel_cmdline: Vec<String>,
    pub extra_kernel_args: Vec<String>,
    /// The number of consoles so far.
    pub console_count: u32,
}

/// What texts say.
pub open spec fn texts(strings: Seq<String>) -> Seq<Seq<char>> {
    strings.map_values(|s: String| s@)
}

/// The path of port `port_index` of the console at `device_index`.
pub open spec fn port_path(device_index: u32, port_index: usize) -> Seq<char> {
    "/dev/vport"@ + text::decimal(device_index as nat) + "p"@ + text::decimal(port_index as nat)
}

/// The port with the given descriptors; a negative one stands for none.
pub open spec fn is_fd_port(
    port: PortDescription,
    name: Seq<char>,
    input_fd: i32,
    output_fd: i32,
    terminal: Option<(u16, u16)>,
) -> bool {
    &&& port.name@ == name
    &&& port.input == if input_fd < 0 {
        None
    } else {
        Some(input_fd)
    }
    &&& port.output == if output_fd < 0 {
        None
    } else {
        Some(output_fd)
    }
    &&& port.terminal == terminal
}

/// The parts of the kernel command line that a builder makes without a command line of its
/// own, or with `own`.
pub open spec fn cmdline_parts(
    cfg: ContextConfig,
    default_cmdline: Seq<char>,
    own: Seq<Seq<char>>,
    extra: Seq<Seq<char>>,
) -> Seq<Seq<char>> {
    let env = config::assignment(Seq::empty(), cfg.env);
    if own.len() == 0 {
        seq![
            default_cmdline,
            "init="@ + INIT_PATH@,
            config::assignment("KRUN_INIT="@, cfg.exec_path),
            config::assignment("KRUN_WORKDIR="@, cfg.workdir),
            config::block_root_text(cfg.block_root),
            config::assignment("KRUN_RLIMITS="@, cfg.rlimits),
            env,
        ] + extra
    } else {
        own.push(env) + extra
    }
}

/// The arguments of the first program on the kernel command line.
pub open spec fn cmdline_args(cfg: ContextConfig) -> Seq<char> {
    " -- "@ + config::assignment(Seq::empty(), cfg.args)
}

/// Moves the strings of `more` behind those of `list`.
fn move_all(list: &mut Vec<String>, more: Vec<String>)
    ensures
        final(list)@ == old(list)@ + more@,
{
    let mut more = more;
    list.append(&mut more);
}

/// Whether the kernel `kernel` of the firmware library can be used.
pub open spec fn usable(kernel: Option<KernelBundle>) -> bool {
    kernel matches Some(bundle) && bundle.host_addr != 0
}

/// Whether `made` has the network devices of `cfg`, and the one configured in the old way.
pub open spec fn nets_made(cfg: ContextConfig, made: VmResources) -> bool {
    match cfg.legacy_net_cfg {
        Some(legacy) => {
            let added = made.net@.last();
            &&& made.net@.len() == cfg.vmr.net@.len() + 1
            &&& made.net@.drop_last() == cfg.vmr.net@
            &&& added.iface_id@ == config::iface_text(cfg.net_index)
            &&& added.backend == match legacy {
                config::LegacyNetworkConfig::VirtioNetGvproxy(path) => VirtioNetBackend::UnixgramPath(
                    path,
                    true,
                ),
                config::LegacyNetworkConfig::VirtioNetPasst(fd) => VirtioNetBackend::UnixstreamFd(
                    fd,
                ),
            }
            &&& added.mac@ == match cfg.legacy_mac {
                Some(mac) => mac@,
                None => config::DEFAULT_LEGACY_MAC@,
            }
            &&& added.features == config::NET_COMPAT_FEATURES
        },
        None => made.net == cfg.vmr.net,
    }
}

/// Whether `made` has the socket device of `cfg`.
pub open spec fn vsock_made(cfg: ContextConfig, made: VmResources) -> bool {
    match config::vsock_flags(cfg) {
        Some(tsi_flags) => {
            &&& made.vsock matches Some(device)
            &&& device.vsock_id@ == "vsock0"@
            &&& device.guest_cid == config::GUEST_CID
            &&& device.host_port_map == if config::vsock_has_ports(cfg) {
                cfg.tsi_port_map
            } else {
                None
            }
            &&& device.unix_ipc_port_map == cfg.unix_ipc_port_map
            &&& device.tsi_flags == tsi_flags
        },
        None => made.vsock == cfg.vmr.vsock,
    }
}

/// Whether `made` is what the configuration `cfg` makes with the kernel `kernel`.
pub open spec fn machine_made(
    cfg: ContextConfig,
    kernel: Option<KernelBundle>,
    cmdline: Seq<Seq<char>>,
    made: VmResources,
) -> bool {
    &&& made.kernel_bundle == if cfg.vmr.external_kernel || cfg.vmr.kernel_bundle is Some
        || cfg.vmr.firmware_config {
        cfg.vmr.kernel_bundle
    } else {
        kernel
    }
    &&& made.block@ == cfg.vmr.block@ + cfg.block_devices()
    &&& made.kernel_cmdline matches Some(line)
    &&& texts(line.cmdline@) == cmdline
    &&& texts(line.args@) == seq![cmdline_args(cfg)]
    &&& nets_made(cfg, made)
    &&& vsock_made(cfg, made)
    &&& made.gpu_virgl_flags == if cfg.gpu_virgl_flags is Some {
        cfg.gpu_virgl_flags
    } else {
        cfg.vmr.gpu_virgl_flags
    }
    &&& made.gpu_shm_size == if cfg.gpu_shm_size is Some {
        cfg.gpu_shm_size
    } else {
        cfg.vmr.gpu_shm_size
    }
    &&& made.console_output == if cfg.console_output is Some {
        cfg.console_output
    } else {
        cfg.vmr.console_output
    }
    &&& made == (VmResources {
        kernel_bundle: made.kernel_bundle,
        block: made.block,
        kernel_cmdline: made.kernel_cmdline,
        net: made.net,
        vsock: made.vsock,
        gpu_virgl_flags: made.gpu_virgl_flags,
        gpu_shm_size: made.gpu_shm_size,
        console_output: made.console_output,
        ..cfg.vmr
    })
}

/// What a machine is started with.
pub struct Prepared {
    pub vmr: VmResources,
    /// The group to change to. This comes before the user.
    pub vmm_gid: Option<u32>,
    /// The user to change to.
    pub vmm_uid: Option<u32>,
}

/// A change of what this process may do.
#[derive(Clone, Copy, Debug, PartialEq, Eq, Structural)]
pub enum PrivilegeStep {
    Setgid(u32),
    Setuid(u32),
}

/// The changes to the group and the user, if there are such: once the user has changed, the
/// group cannot be changed any more.
pub open spec fn privilege_steps(gid: Option<u32>, uid: Option<u32>) -> Seq<PrivilegeStep> {
    let group = match gid {
        Some(gid) => seq![PrivilegeStep::Setgid(gid)],
        None => Seq::empty(),
    };
    match uid {
        Some(uid) => group.push(PrivilegeStep::Setuid(uid)),
        None => group,
    }
}

/// The group never changes after the user, each changes once at most, and to what is
/// configured.
pub proof fn groups_change_before_users(gid: Option<u32>, uid: Option<u32>, i: int, j: int)
    requires
        0 <= i < privilege_steps(gid, uid).len(),
        0 <= j < privilege_steps(gid, uid).len(),
    ensures
        privilege_steps(gid, uid)[i] is Setgid && privilege_steps(gid, uid)[j] is Setuid ==> i < j,
        (privilege_steps(gid, uid)[i] is Setgid <==> privilege_steps(gid, uid)[j] is Setgid) ==> i
            == j,
        privilege_steps(gid, uid)[i] matches PrivilegeStep::Setgid(g) ==> gid == Some(g),
        privilege_steps(gid, uid)[i] matches PrivilegeStep::Setuid(u) ==> uid == Some(u),
{
}

impl Prepared {
    /// The changes of privileges to make, in this order, before the machine is built.
    pub fn privileges(&self) -> (res: Vec<PrivilegeStep>)
        ensures
            res@ == privilege_steps(self.vmm_gid, self.vmm_uid),
    {
        let mut steps: Vec<PrivilegeStep> = Vec::new();
        if let Some(gid) = self.vmm_gid {
            steps.push(PrivilegeStep::Setgid(gid));
        }
        if let Some(uid) = self.vmm_uid {
            steps.push(PrivilegeStep::Setuid(uid));
        }
        assert(steps@ =~= privilege_steps(self.vmm_gid, self.vmm_uid));
        steps
    }
}

impl Builder {
    /// A builder with nothing configured.
    pub fn new() -> (res: Builder)
        ensures
            res.config.is_default(),
            res.kernel_cmdline@.len() == 0,
            res.extra_kernel_args@.len() == 0,
            res.console_count == 0,
    {
        Builder {
            config: ContextConfig::default(),
            kernel_cmdline: Vec::new(),
            extra_kernel_args: Vec::new(),
            console_count: 0,
        }
    }

    /// The configuration so far.
    pub fn config(&self) -> (res: &ContextConfig)
        ensures
            *res == self.config,
    {
        &self.config
    }

    /// The configuration so far, to be changed.
    pub fn config_mut(&mut self) -> (res: &mut ContextConfig)
        ensures
            *res == old(self).config,
            *final(self) == (Builder { config: *final(res), ..*old(self) }),
    {
        &mut self.config
    }

    /// The builder with another configuration.
    pub open spec fn with(self, config: ContextConfig) -> Builder {
        Builder { config, ..self }
    }

    /// The builder with other resources.
    pub open spec fn with_vmr(self, vmr: VmResources) -> Builder {
        Builder { config: ContextConfig { vmr, ..self.config }, ..self }
    }

    /// Sets the number of processors and the memory. There has to be a processor.
    pub fn vm_config(&mut self, num_vcpus: u8, ram_mib: u32) -> (res: Result<
        &mut Builder,
        StartError,
    >)
        requires
            ram_mib <= usize::MAX,
        ensures
            match res {
                Ok(builder) => {
                    &&& num_vcpus != 0
                    &&& *builder == old(self).with_vmr(
                        VmResources {
                            vm_config: VmConfig {
                                vcpu_count: Some(num_vcpus),
                                mem_size_mib: Some(ram_mib as usize),
                                ht_enabled: Some(false),
                            },
                            ..old(self).config.vmr
                        },
                    )
                    &&& *final(self) == *final(builder)
                },
                Err(error) => {
                    &&& num_vcpus == 0
                    &&& error == StartError::ZeroVcpus
                    &&& *final(self) == *old(self)
                },
            },
    {
        if num_vcpus == 0 {
            return Err(StartError::ZeroVcpus);
        }
        self.config.vmr.vm_config = VmConfig {
            vcpu_count: Some(num_vcpus),
            mem_size_mib: Some(ram_mib as usize),
            ht_enabled: Some(false),
        };
        Ok(self)
    }

    pub fn workdir(&mut self, workdir: String) -> (res: &mut Builder)
        ensures
            *res == old(self).with(ContextConfig { workdir: Some(workdir), ..old(self).config }),
            *final(self) == *final(res),
    {
        self.config.workdir = Some(workdir);
        self
    }

    pub fn exec_path(&mut self, exec_path: String) -> (res: &mut Builder)
        ensures
            *res == old(self).with(ContextConfig { exec_path: Some(exec_path), ..old(self).config }),
            *final(self) == *final(res),
    {
        self.config.exec_path = Some(exec_path);
        self
    }

    pub fn env(&mut self, env: String) -> (res: &mut Builder)
        ensures
            *res == old(self).with(ContextConfig { env: Some(env), ..old(self).config }),
            *final(self) == *final(res),
    {
        self.config.env = Some(env);
        self
    }

    pub fn args(&mut self, args: String) -> (res: &mut Builder)
        ensures
            *res == old(self).with(ContextConfig { args: Some(args), ..old(self).config }),
            *final(self) == *final(res),
    {
        self.config.args = Some(args);
        self
    }

    pub fn rlimits(&mut self, rlimits: String) -> (res: &mut Builder)
        ensures
            *res == old(self).with(ContextConfig { rlimits: Some(rlimits), ..old(self).config }),
            *final(self) == *final(res),
    {
        self.config.rlimits = Some(rlimits);
        self
    }

    pub fn gpu_virgl_flags(&mut self, virgl_flags: u32) -> (res: &mut Builder)
        ensures
            *res == old(self).with(ContextConfig { gpu_virgl_flags: Some(virgl_flags), ..old(self).config }),
            *final(self) == *final(res),
    {
        self.config.gpu_virgl_flags = Some(virgl_flags);
        self
    }

    pub fn gpu_shm_size(&mut self, shm_size: usize) -> (res: &mut Builder)
        ensures
            *res == old(self).with(ContextConfig { gpu_shm_size: Some(shm_size), ..old(self).config }),
            *final(self) == *final(res),
    {
        self.config.gpu_shm_size = Some(shm_size);
        self
    }

    pub fn console_output(&mut self, path: String) -> (res: &mut Builder)
        ensures
            *res == old(self).with(ContextConfig { console_output: Some(path), ..old(self).config }),
            *final(self) == *final(res),
    {
        self.config.console_output = Some(path);
        self
    }

    pub fn vmm_uid(&mut self, vmm_uid: u32) -> (res: &mut Builder)
        ensures
            *res == old(self).with(ContextConfig { vmm_uid: Some(vmm_uid), ..old(self).config }),
            *final(self) == *final(res),
    {
        self.config.vmm_uid = Some(vmm_uid);
        self
    }

    pub fn vmm_gid(&mut self, vmm_gid: u32) -> (res: &mut Builder)
        ensures
            *res == old(self).with(ContextConfig { vmm_gid: Some(vmm_gid), ..old(self).config }),
            *final(self) == *final(res),
    {
        self.config.vmm_gid = Some(vmm_gid);
        self
    }

    pub fn net_mac(&mut self, mac: [u8; 6]) -> (res: &mut Builder)
        ensures
            *res == old(self).with(ContextConfig { legacy_mac: Some(mac), ..old(self).config }),
            *final(self) == *final(res),
    {
        self.config.legacy_mac = Some(mac);
        self
    }

    pub fn root_block_cfg(&mut self, block_cfg: BlockDeviceConfig) -> (res: &mut Builder)
        ensures
            *res == old(self).with(ContextConfig { root_block_cfg: Some(block_cfg), ..old(self).config }),
            *final(self) == *final(res),
    {
        self.config.root_block_cfg = Some(block_cfg);
        self
    }

    pub fn data_block_cfg(&mut self, block_cfg: BlockDeviceConfig) -> (res: &mut Builder)
        ensures
            *res == old(self).with(ContextConfig { data_block_cfg: Some(block_cfg), ..old(self).config }),
            *final(self) == *final(res),
    {
        self.config.data_block_cfg = Some(block_cfg);
        self
    }

    pub fn block_root(
        &mut self,
        device: String,
        fstype: Option<String>,
        options: Option<String>,
    ) -> (res: &mut Builder)
        ensures
            *res == old(self).with(
                ContextConfig {
                    block_root: Some(BlockRootConfig { device, fstype, options }),
                    ..old(self).config
                },
            ),
            *final(self) == *final(res),
    {
        self.config.block_root = Some(BlockRootConfig { device, fstype, options });
        self
    }

    /// Adds a network device under the next name.
    pub fn add_net_device(
        &mut self,
        backend: VirtioNetBackend,
        mac: [u8; 6],
        features: u32,
    ) -> (res: &mut Builder)
        requires
            old(self).config.net_index < u8::MAX,
        ensures
            res.config.vmr.net@.len() == old(self).config.vmr.net@.len() + 1,
            res.config.vmr.net@.drop_last() == old(self).config.vmr.net@,
            ({
                let added = res.config.vmr.net@.last();
                &&& added.iface_id@ == config::iface_text(old(self).config.net_index)
                &&& added.backend == backend
                &&& added.mac == mac
                &&& added.features == features
            }),
            *res == old(self).with(
                ContextConfig {
                    net_index: (old(self).config.net_index + 1) as u8,
                    vmr: VmResources { net: res.config.vmr.net, ..old(self).config.vmr },
                    ..old(self).config
                },
            ),
            *final(self) == *final(res),
    {
        self.config.add_network_interface(backend, mac, features);
        self
    }

    /// Adds a block device.
    pub fn add_block_cfg(&mut self, block_cfg: BlockDeviceConfig) -> (res: &mut Builder)
        ensures
            res.config.block_cfgs@ == old(self).config.block_cfgs@.push(block_cfg),
            *res == old(self).with(
                ContextConfig { block_cfgs: res.config.block_cfgs, ..old(self).config },
            ),
            *final(self) == *final(res),
    {
        self.config.block_cfgs.push(block_cfg);
        self
    }

    /// Adds a file system.
    pub fn add_virtiofs(&mut self, tag: &str, source: FsSource, shm_size: Option<usize>) -> (res:
        &mut Builder)
        ensures
            res.config.vmr.fs@.len() == old(self).config.vmr.fs@.len() + 1,
            res.config.vmr.fs@.drop_last() == old(self).config.vmr.fs@,
            res.config.vmr.fs@.last().tag@ == tag@,
            res.config.vmr.fs@.last().source == source,
            res.config.vmr.fs@.last().shm_size == shm_size,
            *res == old(self).with_vmr(
                VmResources { fs: res.config.vmr.fs, ..old(self).config.vmr },
            ),
            *final(self) == *final(res),
    {
        let mount = FsMount { tag: String::from_str(tag), source, shm_size };
        self.config.vmr.fs.push(mount);
        assert(self.config.vmr.fs@.drop_last() =~= old(self).config.vmr.fs@);
        self
    }

    /// Adds a file system that shows a directory of the host.
    pub fn add_virtiofs_path(
        &mut self,
        tag: &str,
        host_path: &str,
        shm_size: Option<usize>,
        allow_root_dir_delete: bool,
    ) -> (res: &mut Builder)
        ensures
            res.config.vmr.fs@.len() == old(self).config.vmr.fs@.len() + 1,
            res.config.vmr.fs@.drop_last() == old(self).config.vmr.fs@,
            res.config.vmr.fs@.last().tag@ == tag@,
            res.config.vmr.fs@.last().source matches FsSource::Path {
                root_dir,
                allow_root_dir_delete: allowed,
            } && root_dir@ == host_path@ && allowed == allow_root_dir_delete,
            res.config.vmr.fs@.last().shm_size == shm_size,
            *res == old(self).with_vmr(
                VmResources { fs: res.config.vmr.fs, ..old(self).config.vmr },
            ),
            *final(self) == *final(res),
    {
        let source = FsSource::Path { root_dir: String::from_str(host_path), allow_root_dir_delete };
        self.add_virtiofs(tag, source, shm_size)
    }

    /// Adds the root file system.
    pub fn set_root(&mut self, root_path: &str) -> (res: &mut Builder)
        ensures
            res.config.vmr.fs@.len() == old(self).config.vmr.fs@.len() + 1,
            res.config.vmr.fs@.drop_last() == old(self).config.vmr.fs@,
            res.config.vmr.fs@.last().tag@ == ROOT_TAG@,
            res.config.vmr.fs@.last().source matches FsSource::Path {
                root_dir,
                allow_root_dir_delete,
            } && root_dir@ == root_path@ && !allow_root_dir_delete,
            res.config.vmr.fs@.last().shm_size == Some(ROOT_SHM_SIZE),
            *res == old(self).with_vmr(
                VmResources { fs: res.config.vmr.fs, ..old(self).config.vmr },
            ),
            *final(self) == *final(res),
    {
        self.add_virtiofs_path(ROOT_TAG, root_path, Some(ROOT_SHM_SIZE), false)
    }

    /// Adds a file system that a vhost-user backend serves. Its tag has 36 bytes at the most.
    pub fn add_virtiofs_vhost_user(
        &mut self,
        tag: &str,
        socket_path: &str,
        dax_window_mib: Option<u32>,
    ) -> (res: Result<&mut Builder, StartError>)
        ensures
            match res {
                Ok(builder) => {
                    let list = builder.config.vmr.vhost_user_fs@;
                    &&& vstd::utf8::encode_utf8(tag@).len() <= MAX_TAG_BYTES
                    &&& list.len() == old(self).config.vmr.vhost_user_fs@.len() + 1
                    &&& list.drop_last() == old(self).config.vmr.vhost_user_fs@
                    &&& list.last().tag@ == tag@
                    &&& list.last().socket_path@ == socket_path@
                    &&& list.last().dax_window_mib == dax_window_mib
                    &&& *builder == old(self).with_vmr(
                        VmResources {
                            vhost_user_fs: builder.config.vmr.vhost_user_fs,
                            ..old(self).config.vmr
                        },
                    )
                    &&& *final(self) == *final(builder)
                },
                Err(error) => {
                    &&& vstd::utf8::encode_utf8(tag@).len() > MAX_TAG_BYTES
                    &&& error == StartError::TagTooLong(
                        vstd::utf8::encode_utf8(tag@).len() as usize,
                    )
                    &&& *final(self) == *old(self)
                },
            },
    {
        let len: usize = tag.as_bytes().len();
        if len > MAX_TAG_BYTES {
            return Err(StartError::TagTooLong(len));
        }
        let config = VhostUserFsConfig {
            tag: String::from_str(tag),
            socket_path: String::from_str(socket_path),
            dax_window_mib,
        };
        self.config.vmr.vhost_user_fs.push(config);
        assert(self.config.vmr.vhost_user_fs@.drop_last() =~= old(
            self,
        ).config.vmr.vhost_user_fs@);
        Ok(self)
    }

    /// Whether a socket device with a vhost-user backend is refused: beside one of the
    /// device's own that was asked for, or beside another.
    pub open spec fn vsock_conflict(&self) -> bool {
        self.config.vsock_config is Explicit || self.config.vhost_user_vsock
    }

    /// The builder with a socket device that is reached by `connection`.
    pub open spec fn with_vhost_vsock(self, connection: VhostUserVsockConnection) -> Builder {
        self.with(
            ContextConfig {
                vhost_user_vsock: true,
                vmr: VmResources { vhost_user_vsock: Some(connection), ..self.config.vmr },
                ..self.config
            },
        )
    }

    /// Adds a socket device that the backend at `socket_path` serves.
    pub fn add_vsock_vhost_user(&mut self, socket_path: &str) -> (res: Result<
        &mut Builder,
        StartError,
    >)
        ensures
            match res {
                Ok(builder) => {
                    &&& !old(self).vsock_conflict()
                    &&& builder.config.vmr.vhost_user_vsock matches Some(
                        VhostUserVsockConnection::SocketPath(path),
                    )
                    &&& path@ == socket_path@
                    &&& *builder == old(self).with_vhost_vsock(
                        VhostUserVsockConnection::SocketPath(path),
                    )
                    &&& *final(self) == *final(builder)
                },
                Err(error) => {
                    &&& old(self).vsock_conflict()
                    &&& error == StartError::VsockConflict
                    &&& *final(self) == *old(self)
                },
            },
    {
        if let VsockConfig::Explicit { .. } = self.config.vsock_config {
            return Err(StartError::VsockConflict);
        }
        if self.config.vhost_user_vsock {
            return Err(StartError::VsockConflict);
        }
        self.config.vhost_user_vsock = true;
        self.config.vmr.vhost_user_vsock = Some(
            VhostUserVsockConnection::SocketPath(String::from_str(socket_path)),
        );
        Ok(self)
    }

    /// Adds a socket device whose backend is connected by the descriptor `stream`.
    pub fn add_vsock_vhost_user_fd(&mut self, stream: i32) -> (res: Result<
        &mut Builder,
        StartError,
    >)
        ensures
            match res {
                Ok(builder) => {
                    &&& !old(self).vsock_conflict()
                    &&& *builder == old(self).with_vhost_vsock(
                        VhostUserVsockConnection::Stream(stream),
                    )
                    &&& *final(self) == *final(builder)
                },
                Err(error) => {
                    &&& old(self).vsock_conflict()
                    &&& error == StartError::VsockConflict
                    &&& *final(self) == *old(self)
                },
            },
    {
        if let VsockConfig::Explicit { .. } = self.config.vsock_config {
            return Err(StartError::VsockConflict);
        }
        if self.config.vhost_user_vsock {
            return Err(StartError::VsockConflict);
        }
        self.config.vhost_user_vsock = true;
        self.config.vmr.vhost_user_vsock = Some(VhostUserVsockConnection::Stream(stream));
        Ok(self)
    }

    pub fn set_rng_backend(&mut self, backend: RngBackend) -> (res: &mut Builder)
        ensures
            *res == old(self).with_vmr(
                VmResources { rng_backend: Some(backend), ..old(self).config.vmr },
            ),
            *final(self) == *final(res),
    {
        self.config.vmr.rng_backend = Some(backend);
        self
    }

    pub fn enable_balloon(&mut self) -> (res: &mut Builder)
        ensures
            *res == old(self).with_vmr(
                VmResources { balloon_enabled: true, ..old(self).config.vmr },
            ),
            *final(self) == *final(res),
    {
        self.config.vmr.balloon_enabled = true;
        self
    }

    /// The place among the devices that the next console gets: behind the devices that come
    /// first, the implicit console if there is one, and the consoles so far.
    pub open spec fn next_index(&self) -> int {
        DEVICES_BEFORE_CONSOLES + (if self.config.vmr.disable_implicit_console {
            0int
        } else {
            1
        }) + self.console_count
    }

    pub fn next_console_device_index(&self) -> (res: u32)
        requires
            self.next_index() <= u32::MAX,
        ensures
            res == self.next_index(),
    {
        let mut idx: u32 = DEVICES_BEFORE_CONSOLES;
        if !self.config.vmr.disable_implicit_console {
            idx += 1;
        }
        idx + self.console_count
    }

    /// The builder with one more console.
    pub open spec fn with_console(self, after: Builder, ports: Vec<PortDescription>) -> bool {
        &&& after.config.vmr.virtio_consoles@ == self.config.vmr.virtio_consoles@.push(
            VirtioConsoleConfigMode::Custom(ports),
        )
        &&& after == (Builder {
            console_count: (self.console_count + 1) as u32,
            ..self.with_vmr(
                VmResources {
                    virtio_consoles: after.config.vmr.virtio_consoles,
                    ..self.config.vmr
                },
            )
        })
    }

    /// Adds a console with all of its ports, and gives their paths.
    pub fn add_virtio_console_with_ports(&mut self, ports: Vec<PortDescription>) -> (res: Vec<
        String,
    >)
        requires
            old(self).next_index() <= u32::MAX,
        ensures
            old(self).with_console(*final(self), ports),
            texts(res@) == Seq::new(
                ports@.len(),
                |i: int| port_path(old(self).next_index() as u32, i as usize),
            ),
    {
        let device_idx: u32 = self.next_console_device_index();
        let num_ports: usize = ports.len();
        self.config.vmr.virtio_consoles.push(VirtioConsoleConfigMode::Custom(ports));
        self.console_count += 1;
        let mut paths: Vec<String> = Vec::new();
        let mut i: usize = 0;
        while i < num_ports
            invariant
                i <= num_ports,
                paths@.len() == i,
                forall|j: int|
                    0 <= j < i ==> (#[trigger] paths@[j])@ == port_path(device_idx, j as usize),
            decreases num_ports - i,
        {
            paths.push(Builder::console_port_path(device_idx, i));
            i += 1;
        }
        assert(texts(paths@) =~= Seq::new(
            ports@.len(),
            |i: int| port_path(old(self).next_index() as u32, i as usize),
        ));
        paths
    }

    /// Adds a console without ports, to which ports can be added.
    pub fn add_virtio_console(&mut self) -> (res: ConsoleDeviceInfo)
        requires
            old(self).next_index() <= u32::MAX,
        ensures
            final(self).config.vmr.virtio_consoles@.len() == old(
                self,
            ).config.vmr.virtio_consoles@.len() + 1,
            final(self).config.vmr.virtio_consoles@.last() matches VirtioConsoleConfigMode::Custom(
                ports,
            ) && ports@.len() == 0 && old(self).with_console(*final(self), ports),
            res.console_id == old(self).config.vmr.virtio_consoles@.len(),
            res.device_index == old(self).next_index(),
    {
        let console_id: usize = self.config.vmr.virtio_consoles.len();
        let device_index: u32 = self.next_console_device_index();
        self.config.vmr.virtio_consoles.push(VirtioConsoleConfigMode::Custom(Vec::new()));
        self.console_count += 1;
        ConsoleDeviceInfo { console_id, device_index }
    }

    /// The ports of console `console_id`, if ports can be added to it.
    pub open spec fn ports_of(&self, console_id: usize) -> Option<Seq<PortDescription>> {
        if console_id < self.config.vmr.virtio_consoles@.len() {
            match self.config.vmr.virtio_consoles@[console_id as int] {
                VirtioConsoleConfigMode::Custom(ports) => Some(ports@),
                _ => None,
            }
        } else {
            None
        }
    }

    /// Adds a port to a console and gives its path; nothing if there is no such console.
    pub fn add_port(&mut self, info: &ConsoleDeviceInfo, port: PortDescription) -> (res: Option<
        String,
    >)
        ensures
            match old(self).ports_of(info.console_id) {
                Some(ports) => {
                    &&& res matches Some(path)
                    &&& path@ == port_path(info.device_index, ports.len() as usize)
                    &&& final(self).ports_of(info.console_id) == Some(ports.push(port))
                    &&& final(self).config.vmr.virtio_consoles@ == old(
                        self,
                    ).config.vmr.virtio_consoles@.update(
                        info.console_id as int,
                        final(self).config.vmr.virtio_consoles@[info.console_id as int],
                    )
                    &&& *final(self) == old(self).with_vmr(
                        VmResources {
                            virtio_consoles: final(self).config.vmr.virtio_consoles,
                            ..old(self).config.vmr
                        },
                    )
                },
                None => res is None && *final(self) == *old(self),
            },
    {
        if info.console_id >= self.config.vmr.virtio_consoles.len() {
            return None;
        }
        if let VirtioConsoleConfigMode::Autoconfigure =
            &self.config.vmr.virtio_consoles[info.console_id] {
            return None;
        }
        let mut port_index: usize = 0;
        match &mut self.config.vmr.virtio_consoles[info.console_id] {
            VirtioConsoleConfigMode::Custom(ports) => {
                port_index = ports.len();
                ports.push(port);
            },
            VirtioConsoleConfigMode::Autoconfigure => {},
        }
        assert(self.config.vmr.virtio_consoles@ =~= old(self).config.vmr.virtio_consoles@.update(
            info.console_id as int,
            self.config.vmr.virtio_consoles@[info.console_id as int],
        ));
        Some(Builder::console_port_path(info.device_index, port_index))
    }

    /// A port with the given descriptors.
    fn fd_port(name: &str, input_fd: i32, output_fd: i32, terminal: Option<(u16, u16)>) -> (res:
        PortDescription)
        ensures
            is_fd_port(res, name@, input_fd, output_fd, terminal),
    {
        PortDescription {
            name: String::from_str(name),
            input: if input_fd < 0 {
                None
            } else {
                Some(input_fd)
            },
            output: if output_fd < 0 {
                None
            } else {
                Some(output_fd)
            },
            terminal,
        }
    }

    /// Adds a port with the given descriptors, which belong to it from here on, and gives its
    /// path. A negative descriptor leaves the direction out.
    pub fn add_port_fd(
        &mut self,
        info: &ConsoleDeviceInfo,
        name: &str,
        input_fd: i32,
        output_fd: i32,
    ) -> (res: Option<String>)
        ensures
            match old(self).ports_of(info.console_id) {
                Some(ports) => {
                    &&& res matches Some(path)
                    &&& path@ == port_path(info.device_index, ports.len() as usize)
                    &&& final(self).ports_of(info.console_id) matches Some(after)
                    &&& after.len() == ports.len() + 1
                    &&& after.drop_last() == ports
                    &&& is_fd_port(after.last(), name@, input_fd, output_fd, None)
                    &&& final(self).config.vmr.virtio_consoles@ == old(
                        self,
                    ).config.vmr.virtio_consoles@.update(
                        info.console_id as int,
                        final(self).config.vmr.virtio_consoles@[info.console_id as int],
                    )
                    &&& *final(self) == old(self).with_vmr(
                        VmResources {
                            virtio_consoles: final(self).config.vmr.virtio_consoles,
                            ..old(self).config.vmr
                        },
                    )
                },
                None => res is None && *final(self) == *old(self),
            },
    {
        let port = Builder::fd_port(name, input_fd, output_fd, None);
        let ghost added = port;
        let res = self.add_port(info, port);
        proof {
            if let Some(ports) = old(self).ports_of(info.console_id) {
                assert(ports.push(added).drop_last() =~= ports);
            }
        }
        res
    }

    /// Adds a port that is a terminal of a fixed size, with the given descriptors, which
    /// belong to it from here on, and gives its path.
    pub fn add_port_console_fd(
        &mut self,
        info: &ConsoleDeviceInfo,
        input_fd: i32,
        output_fd: i32,
        cols: u16,
        rows: u16,
    ) -> (res: Option<String>)
        ensures
            match old(self).ports_of(info.console_id) {
                Some(ports) => {
                    &&& res matches Some(path)
                    &&& path@ == port_path(info.device_index, ports.len() as usize)
                    &&& final(self).ports_of(info.console_id) matches Some(after)
                    &&& after.len() == ports.len() + 1
                    &&& after.drop_last() == ports
                    &&& is_fd_port(after.last(), ""@, input_fd, output_fd, Some((cols, rows)))
                    &&& final(self).config.vmr.virtio_consoles@ == old(
                        self,
                    ).config.vmr.virtio_consoles@.update(
                        info.console_id as int,
                        final(self).config.vmr.virtio_consoles@[info.console_id as int],
                    )
                    &&& *final(self) == old(self).with_vmr(
                        VmResources {
                            virtio_consoles: final(self).config.vmr.virtio_consoles,
                            ..old(self).config.vmr
                        },
                    )
                },
                None => res is None && *final(self) == *old(self),
            },
    {
        let port = Builder::fd_port("", input_fd, output_fd, Some((cols, rows)));
        let ghost added = port;
        let res = self.add_port(info, port);
        proof {
            if let Some(ports) = old(self).ports_of(info.console_id) {
                assert(ports.push(added).drop_last() =~= ports);
            }
        }
        res
    }

    /// The path of port `port_index` of the console at `device_index`.
    pub fn console_port_path(device_index: u32, port_index: usize) -> (res: String)
        ensures
            res@ == port_path(device_index, port_index),
    {
        let mut out = String::from_str("/dev/vport");
        append_decimal(&mut out, device_index as u64);
        out.append("p");
        append_decimal(&mut out, port_index as u64);
        out
    }

    /// Whether the implicit console has to stay: there are consoles, whose paths would change
    /// without it.
    pub open spec fn keeps_implicit_console(self) -> bool {
        self.console_count > 0
    }

    /// The builder without the implicit console.
    pub open spec fn without_implicit_console(self) -> Builder {
        self.with_vmr(VmResources { disable_implicit_console: true, ..self.config.vmr })
    }

    /// Leaves the implicit console out. This is refused once there are consoles, as their
    /// paths would change.
    pub fn disable_implicit_console(&mut self) -> (res: Result<&mut Builder, BuilderError>)
        ensures
            match res {
                Ok(builder) => {
                    &&& !old(self).keeps_implicit_console()
                    &&& *builder == old(self).without_implicit_console()
                    &&& *final(self) == *final(builder)
                },
                Err(error) => {
                    &&& old(self).keeps_implicit_console()
                    &&& error == BuilderError::ConsoleAlreadyAdded
                    &&& *final(self) == *old(self)
                },
            },
    {
        if self.console_count > 0 {
            return Err(BuilderError::ConsoleAlreadyAdded);
        }
        self.config.vmr.disable_implicit_console = true;
        Ok(self)
    }

    /// Sets the port map. It is refused once there are network devices.
    pub fn port_map(&mut self, new_port_map: HashMap<u16, u16>) -> (res: Result<
        &mut Builder,
        PortMapConflict,
    >)
        ensures
            match res {
                Ok(builder) => {
                    &&& old(self).config.net_index == 0
                    &&& *builder == old(self).with(
                        ContextConfig { tsi_port_map: Some(new_port_map), ..old(self).config },
                    )
                    &&& *final(self) == *final(builder)
                },
                Err(_) => {
                    &&& old(self).config.net_index != 0
                    &&& *final(self) == *old(self)
                },
            },
    {
        if self.config.net_index != 0 {
            return Err(PortMapConflict);
        }
        self.config.tsi_port_map = Some(new_port_map);
        Ok(self)
    }

    /// The sockets of the host that ports of the guest are mapped to.
    pub open spec fn vsock_ports(&self) -> Map<u32, (String, bool)> {
        match self.config.unix_ipc_port_map {
            Some(map) => map@,
            None => Map::empty(),
        }
    }

    /// Maps `port` of the guest to the socket `filepath` of the host.
    pub fn add_vsock_port(&mut self, port: u32, filepath: String, listen: bool) -> (res:
        &mut Builder)
        ensures
            res.config.unix_ipc_port_map is Some,
            res.vsock_ports() == old(self).vsock_ports().insert(port, (filepath, listen)),
            *res == old(self).with(
                ContextConfig {
                    unix_ipc_port_map: res.config.unix_ipc_port_map,
                    ..old(self).config
                },
            ),
            *final(self) == *final(res),
    {
        broadcast use vstd::std_specs::hash::group_hash_axioms;

        let mut map: HashMap<u32, (String, bool)> = match self.config.unix_ipc_port_map.take() {
            Some(map) => map,
            None => HashMap::new(),
        };
        map.insert(port, (filepath, listen));
        self.config.unix_ipc_port_map = Some(map);
        self
    }

    /// Replaces the kernel command line.
    pub fn set_kernel_cmdline(&mut self, cmdline: Vec<&str>) -> (res: &mut Builder)
        ensures
            texts(res.kernel_cmdline@) == cmdline@.map_values(|s: &str| s@),
            *res == (Builder { kernel_cmdline: res.kernel_cmdline, ..*old(self) }),
            *final(self) == *final(res),
    {
        let mut owned: Vec<String> = Vec::new();
        let mut i: usize = 0;
        while i < cmdline.len()
            invariant
                i <= cmdline@.len(),
                owned@.len() == i,
                forall|j: int| 0 <= j < i ==> (#[trigger] owned@[j])@ == cmdline@[j]@,
            decreases cmdline@.len() - i,
        {
            owned.push(String::from_str(cmdline[i]));
            i += 1;
        }
        assert(texts(owned@) =~= cmdline@.map_values(|s: &str| s@));
        self.kernel_cmdline = owned;
        self
    }

    /// Adds to the kernel command line, without a change of what else is on it.
    pub fn add_kernel_cmdline_args(&mut self, args: &[&str]) -> (res: &mut Builder)
        ensures
            texts(res.extra_kernel_args@) == texts(old(self).extra_kernel_args@)
                + args@.map_values(|s: &str| s@),
            *res == (Builder { extra_kernel_args: res.extra_kernel_args, ..*old(self) }),
            *final(self) == *final(res),
    {
        let ghost before = self.extra_kernel_args@;
        let mut i: usize = 0;
        while i < args.len()
            invariant
                i <= args@.len(),
                *self == (Builder { extra_kernel_args: self.extra_kernel_args, ..*old(self) }),
                self.extra_kernel_args@.len() == before.len() + i,
                forall|j: int|
                    0 <= j < before.len() ==> (#[trigger] self.extra_kernel_args@[j])
                        == before[j],
                forall|j: int|
                    0 <= j < i ==> (#[trigger] self.extra_kernel_args@[before.len() + j])@
                        == args@[j]@,
            decreases args@.len() - i,
        {
            self.extra_kernel_args.push(String::from_str(args[i]));
            i += 1;
        }
        assert(texts(self.extra_kernel_args@) =~= texts(before) + args@.map_values(|s: &str| s@)) by {
            assert forall|j: int| 0 <= j < self.extra_kernel_args@.len() implies texts(
                self.extra_kernel_args@,
            )[j] == (texts(before) + args@.map_values(|s: &str| s@))[j] by {
                if j >= before.len() {
                    assert(self.extra_kernel_args@[before.len() + (j - before.len())]@
                        == args@[j - before.len()]@);
                }
            }
        }
        self
    }

    /// The kernel command line.
    fn kernel_line(
        cfg: &ContextConfig,
        own: Vec<String>,
        extra: Vec<String>,
        default_cmdline: &str,
    ) -> (res: KernelCmdlineConfig)
        ensures
            texts(res.cmdline@) == cmdline_parts(
                *cfg,
                default_cmdline@,
                texts(own@),
                texts(extra@),
            ),
            texts(res.args@) == seq![cmdline_args(*cfg)],
    {
        let mut args = String::from_str(" -- ");
        args.append(cfg.get_args().as_str());
        let mut cmdline: Vec<String> = Vec::new();
        if own.len() == 0 {
            let mut init = String::from_str("init=");
            init.append(INIT_PATH);
            cmdline.push(String::from_str(default_cmdline));
            cmdline.push(init);
            cmdline.push(cfg.get_exec_path());
            cmdline.push(cfg.get_workdir());
            cmdline.push(cfg.get_block_root());
            cmdline.push(cfg.get_rlimits());
            cmdline.push(cfg.get_env());
        } else {
            move_all(&mut cmdline, own);
            cmdline.push(cfg.get_env());
        }
        let ghost first = texts(cmdline@);
        let ghost parts = cmdline_parts(*cfg, default_cmdline@, texts(own@), texts(extra@));
        proof {
            assert(first + texts(extra@) =~= parts);
        }
        move_all(&mut cmdline, extra);
        proof {
            assert(texts(cmdline@) =~= first + texts(extra@));
        }
        let args: Vec<String> = vec![args];
        assert(texts(args@) =~= seq![cmdline_args(*cfg)]);
        KernelCmdlineConfig { cmdline, args }
    }

    /// Makes the machine's resources from the configuration, with the kernel of the firmware
    /// library where it is needed.
    pub fn prepare(self, kernel: Option<KernelBundle>, default_cmdline: &str) -> (res: Result<
        Prepared,
        StartError,
    >)
        requires
            self.config.legacy_net_cfg is Some ==> self.config.net_index < u8::MAX,
        ensures
            match res {
                Ok(prepared) => {
                    &&& usable(kernel) || self.config.vmr.external_kernel
                        || self.config.vmr.kernel_bundle is Some
                        || self.config.vmr.firmware_config
                    &&& machine_made(
                        self.config,
                        kernel,
                        cmdline_parts(
                            self.config,
                            default_cmdline@,
                            texts(self.kernel_cmdline@),
                            texts(self.extra_kernel_args@),
                        ),
                        prepared.vmr,
                    )
                    &&& prepared.vmm_gid == self.config.vmm_gid
                    &&& prepared.vmm_uid == self.config.vmm_uid
                },
                Err(error) => {
                    &&& !usable(kernel) && !self.config.vmr.external_kernel
                    &&& self.config.vmr.kernel_bundle is None
                    &&& !self.config.vmr.firmware_config
                    &&& error == StartError::MissingFirmware
                },
            },
    {
        let mut cfg = self.config;
        if cfg.needs_krunfw() {
            match cfg.load_krunfw_payload(kernel) {
                Ok(()) => {},
                Err(error) => return Err(error),
            }
        }
        let mut blocks = cfg.take_block_cfg();
        cfg.vmr.block.append(&mut blocks);
        let line = Builder::kernel_line(
            &cfg,
            self.kernel_cmdline,
            self.extra_kernel_args,
            default_cmdline,
        );
        cfg.vmr.kernel_cmdline = Some(line);
        cfg.add_legacy_net();
        cfg.add_vsock_device();
        cfg.add_outputs();
        Ok(Prepared { vmr: cfg.vmr, vmm_gid: cfg.vmm_gid, vmm_uid: cfg.vmm_uid })
    }
}

/// Consoles get one index after the other, and adding ports does not change the index of the
/// next one.
pub proof fn consoles_are_numbered(
    before: Builder,
    after: Builder,
    ports: Vec<PortDescription>,
    later: Builder,
)
    requires
        before.next_index() <= u32::MAX,
        before.with_console(after, ports),
        later == after.with_vmr(
            VmResources {
                virtio_consoles: later.config.vmr.virtio_consoles,
                ..after.config.vmr
            },
        ),
    ensures
        after.next_index() == before.next_index() + 1,
        after.console_count > 0,
        later.next_index() == after.next_index(),
{
}

/// A call of a builder: one that adds a console, or any other.
pub enum BuilderCall {
    AddConsole { ports: Vec<PortDescription> },
    Other,
}

/// Whether `call` takes a builder from `before` to `after`. A call that adds no console may
/// change everything but their number.
pub open spec fn builder_step(before: Builder, call: BuilderCall, after: Builder) -> bool {
    match call {
        BuilderCall::AddConsole { ports } => {
            &&& before.next_index() <= u32::MAX
            &&& before.with_console(after, ports)
        },
        BuilderCall::Other => after == (Builder { console_count: before.console_count, ..after }),
    }
}

/// Whether `run` are the states of a builder from when it was new, through `calls`.
pub open spec fn builder_run(run: Seq<Builder>, calls: Seq<BuilderCall>) -> bool {
    &&& run.len() == calls.len() + 1
    &&& run[0].console_count == 0
    &&& forall|i: int|
        0 <= i < calls.len() ==> builder_step(run[i], #[trigger] calls[i], run[i + 1])
}

/// Whether a console was added by one of `calls`.
pub open spec fn adds_console(calls: Seq<BuilderCall>) -> bool {
    exists|i: int| 0 <= i < calls.len() && #[trigger] calls[i] is AddConsole
}

/// Whatever was called before, the implicit console can be left out exactly until a console is
/// added. If it is left out, the first console comes right behind the devices that come first,
/// and otherwise one place later.
pub proof fn implicit_console_stays_once_a_console_is_added(
    run: Seq<Builder>,
    calls: Seq<BuilderCall>,
)
    requires
        builder_run(run, calls),
    ensures
        run.last().keeps_implicit_console() <==> adds_console(calls),
        !adds_console(calls) ==> {
            &&& run.last().without_implicit_console().next_index() == 3
            &&& !run.last().config.vmr.disable_implicit_console ==> run.last().next_index() == 4
        },
    decreases calls.len(),
{
    if calls.len() > 0 {
        let last = calls.len() - 1;
        let shorter = calls.drop_last();
        assert forall|i: int| 0 <= i < shorter.len() implies builder_step(
            run.drop_last()[i],
            #[trigger] shorter[i],
            run.drop_last()[i + 1],
        ) by {
            assert(shorter[i] == calls[i]);
        }
        implicit_console_stays_once_a_console_is_added(run.drop_last(), shorter);
        assert(builder_step(run[last], calls[last], run[last + 1]));
        if adds_console(shorter) {
            let i = choose|i: int| 0 <= i < shorter.len() && #[trigger] shorter[i] is AddConsole;
            assert(calls[i] is AddConsole);
        }
        if adds_console(calls) && !(calls[last] is AddConsole) {
            let i = choose|i: int| 0 <= i < calls.len() && #[trigger] calls[i] is AddConsole;
            assert(shorter[i] is AddConsole);
        }
    }
}

/// What is added to the kernel command line comes behind everything that is on it without
/// that, which stays as it is.
pub proof fn extra_args_come_last(
    cfg: ContextConfig,
    default_cmdline: Seq<char>,
    own: Seq<Seq<char>>,
    extra: Seq<Seq<char>>,
)
    ensures
        cmdline_parts(cfg, default_cmdline, own, extra) == cmdline_parts(
            cfg,
            default_cmdline,
            own,
            Seq::empty(),
        ) + extra,
{
    assert(cmdline_parts(cfg, default_cmdline, own, extra) =~= cmdline_parts(
        cfg,
        default_cmdline,
        own,
        Seq::empty(),
    ) + extra);
}

/// A machine has a socket device of its own or one with a vhost-user backend, never both:
/// once one with a backend is configured, another is refused and the machine's own is not
/// made.
pub proof fn one_vsock_only(
    builder: Builder,
    kernel: Option<KernelBundle>,
    cmdline: Seq<Seq<char>>,
    made: VmResources,
)
    requires
        builder.config.vhost_user_vsock,
        builder.config.vmr.vsock is None,
        machine_made(builder.config, kernel, cmdline, made),
    ensures
        builder.vsock_conflict(),
        made.vsock is None,
        made.vhost_user_vsock == builder.config.vmr.vhost_user_vsock,
{
}

/// Every group and every user that is configured is changed to.
pub proof fn privileges_are_given_up(gid: Option<u32>, uid: Option<u32>)
    ensures
        ({
            let steps = privilege_steps(gid, uid);
            &&& gid matches Some(g) ==> steps.len() > 0 && steps[0] == PrivilegeStep::Setgid(g)
            &&& uid matches Some(u) ==> steps.len() > 0 && steps.last() == PrivilegeStep::Setuid(u)
            &&& gid is Some && uid is Some ==> steps.len() == 2
            &&& gid is None && uid is None ==> steps.len() == 0
            &&& steps.len() <= 2
        }),
{
}

/// Ports are under `/dev/vport`, with the number of the console before that of the port. A port
/// has a descriptor exactly if it is not negative.
pub proof fn ports_are_found_by_their_numbers(
    device: u32,
    number: usize,
    port: PortDescription,
    name: Seq<char>,
    input_fd: i32,
    output_fd: i32,
    terminal: Option<(u16, u16)>,
)
    requires
        is_fd_port(port, name, input_fd, output_fd, terminal),
    ensures
        ({
            let path = port_path(device, number);
            let first = text::decimal(device as nat);
            let second = text::decimal(number as nat);
            &&& path.len() == 11 + first.len() + second.len()
            &&& path.take(10) == "/dev/vport"@
            &&& path.subrange(10, 10 + first.len() as int) == first
            &&& path[10 + first.len() as int] == 'p'
            &&& path.skip(11 + first.len() as int) == second
            &&& text::decimal_value(first) == device
            &&& text::decimal_value(second) == number
        }),
        port.name@ == name && port.terminal == terminal,
        port.input is Some <==> input_fd >= 0,
        port.output is Some <==> output_fd >= 0,
        port.input matches Some(fd) ==> fd == input_fd,
        port.output matches Some(fd) ==> fd == output_fd,
{
    reveal_strlit("/dev/vport");
    reveal_strlit("p");
    let path = port_path(device, number);
    let first = text::decimal(device as nat);
    let second = text::decimal(number as nat);
    text::decimals_stand_for_their_number(device as nat);
    text::decimals_stand_for_their_number(number as nat);
    assert(path.take(10) =~= "/dev/vport"@);
    assert(path.subrange(10, 10 + first.len() as int) =~= first);
    assert(path.skip(11 + first.len() as int) =~= second);
}

/// Without a command line of its own a kernel is told, in this order, what the firmware says, the
/// first program, what that is to run and where, the root, the limits, and the environment. With
/// one it is told that and the environment. What was added comes behind either.
pub proof fn kernels_are_told_in_order(
    cfg: ContextConfig,
    default_cmdline: Seq<char>,
    own: Seq<Seq<char>>,
    extra: Seq<Seq<char>>,
    i: int,
)
    ensures
        ({
            let parts = cmdline_parts(cfg, default_cmdline, own, extra);
            let first: nat = if own.len() == 0 {
                7
            } else {
                own.len() + 1
            };
            &&& parts.len() == first + extra.len()
            &&& 0 <= i < extra.len() ==> parts[first + i] == extra[i]
            &&& 0 <= i < own.len() ==> parts[i] == own[i]
            &&& cfg.env matches Some(env) ==> parts[first - 1] == env@
            &&& cfg.env is None ==> parts[first - 1].len() == 0
            &&& own.len() == 0 ==> {
                &&& parts[0] == default_cmdline
                &&& parts[1] == "init="@ + "/init.krun"@
                &&& cfg.exec_path matches Some(path) ==> parts[2] == "KRUN_INIT="@ + path@
                &&& cfg.exec_path is None ==> parts[2].len() == 0
                &&& cfg.workdir matches Some(dir) ==> parts[3] == "KRUN_WORKDIR="@ + dir@
                &&& cfg.workdir is None ==> parts[3].len() == 0
                &&& parts[4] == config::block_root_text(cfg.block_root)
                &&& cfg.rlimits matches Some(limits) ==> parts[5] == "KRUN_RLIMITS="@ + limits@
                &&& cfg.rlimits is None ==> parts[5].len() == 0
            }
        }),
        cfg.args matches Some(args) ==> cmdline_args(cfg) == " -- "@ + args@,
        cfg.args is None ==> cmdline_args(cfg) == " -- "@,
{
    if let Some(env) = cfg.env {
        assert(config::assignment(Seq::empty(), cfg.env) =~= env@);
    }
    if let Some(args) = cfg.args {
        assert(config::assignment(Seq::empty(), cfg.args) =~= args@);
    } else {
        assert(cmdline_args(cfg) =~= " -- "@);
    }
}

/// A machine has the kernel, the block devices, the network devices, the socket device and the
/// outputs that are configured, and everything else of its resources as it was.
pub proof fn machines_are_made_as_configured(
    cfg: ContextConfig,
    kernel: Option<KernelBundle>,
    cmdline: Seq<Seq<char>>,
    made: VmResources,
    i: int,
)
    requires
        machine_made(cfg, kernel, cmdline, made),
    ensures
        cfg.vmr.kernel_bundle is Some ==> made.kernel_bundle == cfg.vmr.kernel_bundle,
        cfg.vmr.kernel_bundle is None && (cfg.vmr.external_kernel || cfg.vmr.firmware_config)
            ==> made.kernel_bundle is None,
        cfg.vmr.kernel_bundle is None && !cfg.vmr.external_kernel && !cfg.vmr.firmware_config
            ==> made.kernel_bundle == kernel,
        made.block@.len() == cfg.vmr.block@.len() + cfg.block_devices().len(),
        0 <= i < cfg.vmr.block@.len() ==> made.block@[i] == cfg.vmr.block@[i],
        0 <= i < cfg.block_devices().len() ==> made.block@[cfg.vmr.block@.len() + i]
            == cfg.block_devices()[i],
        made.kernel_cmdline is Some,
        0 <= i < cmdline.len() ==> made.kernel_cmdline->0.cmdline@[i]@ == cmdline[i],
        made.kernel_cmdline->0.cmdline@.len() == cmdline.len(),
        made.kernel_cmdline->0.args@.len() == 1,
        made.kernel_cmdline->0.args@[0]@ == cmdline_args(cfg),
        0 <= i < cfg.vmr.net@.len() ==> made.net@[i] == cfg.vmr.net@[i],
        cfg.legacy_net_cfg is None ==> made.net@.len() == cfg.vmr.net@.len(),
        cfg.legacy_net_cfg is Some ==> {
            let added = made.net@[cfg.vmr.net@.len() as int];
            &&& made.net@.len() == cfg.vmr.net@.len() + 1
            &&& added.iface_id@ == "eth"@ + text::decimal(cfg.net_index as nat)
            &&& cfg.legacy_mac matches Some(mac) ==> added.mac@ == mac@
            &&& cfg.legacy_mac is None ==> added.mac@ == seq![
                0x5au8,
                0x94,
                0xef,
                0xe4,
                0x0c,
                0xee,
            ]
            &&& cfg.legacy_net_cfg matches Some(config::LegacyNetworkConfig::VirtioNetPasst(fd))
                ==> added.backend == VirtioNetBackend::UnixstreamFd(fd)
            &&& cfg.legacy_net_cfg matches Some(config::LegacyNetworkConfig::VirtioNetGvproxy(path))
                ==> added.backend == VirtioNetBackend::UnixgramPath(path, true)
        },
        config::vsock_flags(cfg) is None ==> made.vsock == cfg.vmr.vsock,
        config::vsock_flags(cfg) matches Some(flags) ==> {
            &&& made.vsock matches Some(device)
            &&& device.vsock_id@ == "vsock0"@
            &&& device.guest_cid == 3
            &&& device.tsi_flags == flags
            &&& device.unix_ipc_port_map == cfg.unix_ipc_port_map
            &&& config::vsock_has_ports(cfg) ==> device.host_port_map == cfg.tsi_port_map
            &&& !config::vsock_has_ports(cfg) ==> device.host_port_map is None
        },
        cfg.gpu_virgl_flags is Some ==> made.gpu_virgl_flags == cfg.gpu_virgl_flags,
        cfg.gpu_shm_size is Some ==> made.gpu_shm_size == cfg.gpu_shm_size,
        cfg.console_output is Some ==> made.console_output == cfg.console_output,
        made.fs == cfg.vmr.fs && made.vm_config == cfg.vmr.vm_config,
        made.vhost_user_fs == cfg.vmr.vhost_user_fs,
        made.vhost_user_vsock == cfg.vmr.vhost_user_vsock,
        made.virtio_consoles == cfg.vmr.virtio_consoles,
        made.disable_implicit_console == cfg.vmr.disable_implicit_console,
        made.balloon_enabled == cfg.vmr.balloon_enabled,
        made.rng_backend == cfg.vmr.rng_backend,
{
    let line = made.kernel_cmdline->0;
    assert(texts(line.cmdline@).len() == line.cmdline@.len());
    assert(texts(line.args@).len() == line.args@.len());
    assert(texts(line.args@)[0] == line.args@[0]@);
    if 0 <= i < cmdline.len() {
        assert(texts(line.cmdline@)[i] == line.cmdline@[i]@);
    }
    if cfg.legacy_net_cfg is Some {
        if 0 <= i < cfg.vmr.net@.len() {
            assert(made.net@.drop_last()[i] == made.net@[i]);
        }
        if cfg.legacy_mac is None {
            assert(made.net@.last().mac@ =~= seq![0x5au8, 0x94, 0xef, 0xe4, 0x0c, 0xee]);
        }
    }
}

/// A second socket device is refused, and a builder that has one with a backend keeps everything
/// else.
pub proof fn second_sockets_are_refused(builder: Builder, connection: VhostUserVsockConnection)
    ensures
        builder.config.vhost_user_vsock ==> builder.vsock_conflict(),
        builder.config.vsock_config is Explicit ==> builder.vsock_conflict(),
        builder.vsock_conflict() ==> builder.config.vhost_user_vsock
            || builder.config.vsock_config is Explicit,
        ({
            let after = builder.with_vhost_vsock(connection);
            &&& after.vsock_conflict()
            &&& after.config.vmr.vhost_user_vsock == Some(connection)
            &&& after.config.vmr.fs == builder.config.vmr.fs
            &&& after.config.vmr.net == builder.config.vmr.net
            &&& after.config.vsock_config == builder.config.vsock_config
            &&& after.config.vmr.vm_config == builder.config.vmr.vm_config
            &&& after.kernel_cmdline == builder.kernel_cmdline
            &&& after.console_count == builder.console_count
        }),
{
}

/// A console comes behind those that are there, with its ports, and only that changes.
pub proof fn consoles_are_added_behind(
    before: Builder,
    after: Builder,
    ports: Vec<PortDescription>,
    i: int,
)
    requires
        before.console_count < u32::MAX,
        before.with_console(after, ports),
    ensures
        ({
            let was = before.config.vmr.virtio_consoles@;
            let now = after.config.vmr.virtio_consoles@;
            &&& now.len() == was.len() + 1
            &&& now.last() == VirtioConsoleConfigMode::Custom(ports)
            &&& 0 <= i < was.len() ==> now[i] == was[i]
        }),
        after.console_count == before.console_count + 1,
        after.config.vmr.fs == before.config.vmr.fs,
        after.config.vmr.net == before.config.vmr.net,
        after.config.vmr.disable_implicit_console == before.config.vmr.disable_implicit_console,
        after.kernel_cmdline == before.kernel_cmdline,
        after.extra_kernel_args == before.extra_kernel_args,
{
}

} // verus!
