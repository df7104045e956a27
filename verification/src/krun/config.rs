//! The configuration of a virtual machine before it is built.
use vstd::prelude::*;

use std::collections::HashMap;
use vstd::string::StringExecFns;

use super::resources::{
    BlockDeviceConfig, BlockRootConfig, KernelBundle, NetworkInterfaceConfig, TsiFlags,
    VmResources, VsockConfig, VsockDeviceConfig,
};
use crate::net::device::VirtioNetBackend;
use crate::text;
use crate::text::append_decimal;

verus! {

/// The library that holds the kernel.
pub const KRUNFW_NAME: &'static str = "libkrunfw.so.5";

/// The program that the kernel starts first.
pub const INIT_PATH: &'static str = "/init.krun";

/// The features of a network device that was configured in the old way.
pub const NET_COMPAT_FEATURES: u32 = 1;

/// The MAC address of a network device that was configured in the old way without one.
pub const DEFAULT_LEGACY_MAC: [u8; 6] = [0x5a, 0x94, 0xef, 0xe4, 0x0c, 0xee];

/// The address of the guest in the socket device.
pub const GUEST_CID: u32 = 3;

/// Why a machine cannot be configured or started.
#[derive(Clone, Copy, Debug, PartialEq, Eq, Structural)]
pub enum StartError {
    MissingFirmware,
    ZeroVcpus,
    /// A tag has so many bytes.
    TagTooLong(usize),
    VsockConflict,
}

impl StartError {
    /// What the error says.
    pub open spec fn text(&self) -> Seq<char> {
        match *self {
            StartError::MissingFirmware => "could not find or load firmware "@ + KRUNFW_NAME@,
            StartError::ZeroVcpus => "vcpu_count must be at least 1"@,
            StartError::TagTooLong(len) => "tag too long: "@ + text::decimal(len as nat)
                + " bytes (max 36)"@,
            StartError::VsockConflict => "cannot configure both userspace vsock and vhost-user vsock"@,
        }
    }

    pub fn message(&self) -> (res: String)
        ensures
            res@ == self.text(),
    {
        match *self {
            StartError::MissingFirmware => {
                let mut out = String::from_str("could not find or load firmware ");
                out.append(KRUNFW_NAME);
                out
            },
            StartError::ZeroVcpus => String::from_str("vcpu_count must be at least 1"),
            StartError::TagTooLong(len) => {
                let mut out = String::from_str("tag too long: ");
                append_decimal(&mut out, len as u64);
                out.append(" bytes (max 36)");
                out
            },
            StartError::VsockConflict => String::from_str(
                "cannot configure both userspace vsock and vhost-user vsock",
            ),
        }
    }
}

/// A network device that was configured in the old way.
#[derive(Debug)]
pub enum LegacyNetworkConfig {
    VirtioNetPasst(i32),
    VirtioNetGvproxy(String),
}

/// The configuration.
pub struct ContextConfig {
    pub vmr: VmResources,
    pub workdir: Option<String>,
    pub exec_path: Option<String>,
    pub env: Option<String>,
    pub args: Option<String>,
    pub rlimits: Option<String>,
    pub legacy_net_cfg: Option<LegacyNetworkConfig>,
    pub legacy_mac: Option<[u8; 6]>,
    /// The number of network devices so far.
    pub net_index: u8,
    pub tsi_port_map: Option<HashMap<u16, u16>>,
    pub vsock_config: VsockConfig,
    pub block_cfgs: Vec<BlockDeviceConfig>,
    pub root_block_cfg: Option<BlockDeviceConfig>,
    pub data_block_cfg: Option<BlockDeviceConfig>,
    pub block_root: Option<BlockRootConfig>,
    pub unix_ipc_port_map: Option<HashMap<u32, (String, bool)>>,
    pub vhost_user_vsock: bool,
    pub gpu_virgl_flags: Option<u32>,
    pub gpu_shm_size: Option<usize>,
    pub console_output: Option<String>,
    pub vmm_uid: Option<u32>,
    pub vmm_gid: Option<u32>,
}

impl ContextConfig {
    /// Whether nothing is configured.
    pub open spec fn is_default(&self) -> bool {
        &&& self.vmr.is_default()
        &&& self.workdir is None
        &&& self.exec_path is None
        &&& self.env is None
        &&& self.args is None
        &&& self.rlimits is None
        &&& self.legacy_net_cfg is None
        &&& self.legacy_mac is None
        &&& self.net_index == 0
        &&& self.tsi_port_map is None
        &&& self.vsock_config == VsockConfig::Implicit
        &&& self.block_cfgs@.len() == 0
        &&& self.root_block_cfg is None
        &&& self.data_block_cfg is None
        &&& self.block_root is None
        &&& self.unix_ipc_port_map is None
        &&& !self.vhost_user_vsock
        &&& self.gpu_virgl_flags is None
        &&& self.gpu_shm_size is None
        &&& self.console_output is None
        &&& self.vmm_uid is None
        &&& self.vmm_gid is None
    }
}

impl Default for ContextConfig {
    fn default() -> (res: ContextConfig)
        ensures
            res.is_default(),
    {
        ContextConfig {
            vmr: VmResources::default(),
            workdir: None,
            exec_path: None,
            env: None,
            args: None,
            rlimits: None,
            legacy_net_cfg: None,
            legacy_mac: None,
            net_index: 0,
            tsi_port_map: None,
            vsock_config: VsockConfig::Implicit,
            block_cfgs: Vec::new(),
            root_block_cfg: None,
            data_block_cfg: None,
            block_root: None,
            unix_ipc_port_map: None,
            vhost_user_vsock: false,
            gpu_virgl_flags: None,
            gpu_shm_size: None,
            console_output: None,
            vmm_uid: None,
            vmm_gid: None,
        }
    }
}

/// `key` with the value behind it; nothing without a value.
pub open spec fn assignment(key: Seq<char>, value: Option<String>) -> Seq<char> {
    match value {
        Some(text) => key + text@,
        None => Seq::empty(),
    }
}

/// Writes `key` with the value behind it.
fn assign(key: &str, value: &Option<String>) -> (res: String)
    ensures
        res@ == assignment(key@, *value),
{
    match value {
        Some(text) => {
            let mut out = String::from_str(key);
            out.append(text.as_str());
            out
        },
        None => String::new(),
    }
}

/// What the kernel is told of the block device that holds the root file system.
pub open spec fn block_root_text(root: Option<BlockRootConfig>) -> Seq<char> {
    match root {
        Some(root) => "KRUN_BLOCK_ROOT_DEVICE="@ + root.device@ + assignment(
            " KRUN_BLOCK_ROOT_FSTYPE="@,
            root.fstype,
        ) + assignment(" KRUN_BLOCK_ROOT_OPTIONS="@, root.options),
        None => Seq::empty(),
    }
}

/// The name of network device `index`.
pub open spec fn iface_text(index: u8) -> Seq<char> {
    "eth"@ + text::decimal(index as nat)
}

/// Writes the name of network device `index`.
pub fn iface_id(index: u8) -> (res: String)
    ensures
        res@ == iface_text(index),
{
    let mut out = String::from_str("eth");
    append_decimal(&mut out, index as u64);
    out
}

/// What the socket device is to offer.
pub open spec fn vsock_flags(cfg: ContextConfig) -> Option<TsiFlags> {
    if cfg.vhost_user_vsock {
        None
    } else {
        match cfg.vsock_config {
            VsockConfig::Disabled => None,
            VsockConfig::Explicit { tsi_flags } => Some(tsi_flags),
            VsockConfig::Implicit => {
                let enable_tsi = cfg.vmr.net@.len() == 0 && cfg.legacy_net_cfg is None;
                if enable_tsi || cfg.unix_ipc_port_map is Some {
                    Some(TsiFlags { hijack_inet: enable_tsi, hijack_unix: false })
                } else {
                    None
                }
            },
        }
    }
}

/// Whether the port map goes to the socket device: not where the device takes over no
/// sockets of its own accord.
pub open spec fn vsock_has_ports(cfg: ContextConfig) -> bool {
    cfg.vsock_config is Explicit || (cfg.vmr.net@.len() == 0 && cfg.legacy_net_cfg is None)
}

impl ContextConfig {
    pub fn get_workdir(&self) -> (res: String)
        ensures
            res@ == assignment("KRUN_WORKDIR="@, self.workdir),
    {
        assign("KRUN_WORKDIR=", &self.workdir)
    }

    pub fn get_exec_path(&self) -> (res: String)
        ensures
            res@ == assignment("KRUN_INIT="@, self.exec_path),
    {
        assign("KRUN_INIT=", &self.exec_path)
    }

    pub fn get_block_root(&self) -> (res: String)
        ensures
            res@ == block_root_text(self.block_root),
    {
        match &self.block_root {
            Some(root) => {
                let mut out = String::from_str("KRUN_BLOCK_ROOT_DEVICE=");
                out.append(root.device.as_str());
                out.append(assign(" KRUN_BLOCK_ROOT_FSTYPE=", &root.fstype).as_str());
                out.append(assign(" KRUN_BLOCK_ROOT_OPTIONS=", &root.options).as_str());
                out
            },
            None => String::new(),
        }
    }

    pub fn get_env(&self) -> (res: String)
        ensures
            res@ == assignment(Seq::empty(), self.env),
    {
        match &self.env {
            Some(env) => env.clone(),
            None => String::new(),
        }
    }

    pub fn get_args(&self) -> (res: String)
        ensures
            res@ == assignment(Seq::empty(), self.args),
    {
        match &self.args {
            Some(args) => args.clone(),
            None => String::new(),
        }
    }

    pub fn get_rlimits(&self) -> (res: String)
        ensures
            res@ == assignment("KRUN_RLIMITS="@, self.rlimits),
    {
        assign("KRUN_RLIMITS=", &self.rlimits)
    }

    pub fn set_data_block_cfg(&mut self, block_cfg: BlockDeviceConfig)
        ensures
            *final(self) == (ContextConfig { data_block_cfg: Some(block_cfg), ..*old(self) }),
    {
        self.data_block_cfg = Some(block_cfg);
    }

    /// The block devices: those that were added; if none was, the one for the root and then
    /// the one for the data.
    pub open spec fn block_devices(&self) -> Seq<BlockDeviceConfig> {
        if self.block_cfgs@.len() > 0 {
            self.block_cfgs@
        } else {
            (match self.root_block_cfg {
                Some(root) => seq![root],
                None => Seq::empty(),
            }) + (match self.data_block_cfg {
                Some(data) => seq![data],
                None => Seq::empty(),
            })
        }
    }

    /// Takes the block devices out of the configuration.
    pub fn take_block_cfg(&mut self) -> (res: Vec<BlockDeviceConfig>)
        ensures
            res@ == old(self).block_devices(),
            if old(self).block_cfgs@.len() > 0 {
                &&& final(self).block_cfgs@.len() == 0
                &&& *final(self) == (ContextConfig {
                    block_cfgs: final(self).block_cfgs,
                    ..*old(self)
                })
            } else {
                *final(self) == (ContextConfig {
                    root_block_cfg: None,
                    data_block_cfg: None,
                    ..*old(self)
                })
            },
    {
        if self.block_cfgs.len() == 0 {
            let mut res: Vec<BlockDeviceConfig> = Vec::new();
            match self.root_block_cfg.take() {
                Some(root) => res.push(root),
                None => {},
            }
            match self.data_block_cfg.take() {
                Some(data) => res.push(data),
                None => {},
            }
            assert(res@ =~= old(self).block_devices());
            res
        } else {
            let mut res: Vec<BlockDeviceConfig> = Vec::new();
            std::mem::swap(&mut res, &mut self.block_cfgs);
            res
        }
    }

    /// Whether the kernel of the firmware library is needed: where neither a kernel nor a
    /// firmware is given.
    pub fn needs_krunfw(&self) -> (res: bool)
        ensures
            res == (!self.vmr.external_kernel && self.vmr.kernel_bundle is None
                && !self.vmr.firmware_config),
    {
        !self.vmr.external_kernel && self.vmr.kernel_bundle.is_none() && !self.vmr.firmware_config
    }

    /// Takes the kernel that the firmware library gave. A library that is not there, or that
    /// gives none, is an error.
    pub fn load_krunfw_payload(&mut self, kernel: Option<KernelBundle>) -> (res: Result<
        (),
        StartError,
    >)
        ensures
            res == if kernel is Some && kernel->0.host_addr != 0 {
                Ok::<(), StartError>(())
            } else {
                Err(StartError::MissingFirmware)
            },
            *final(self) == if res is Ok {
                ContextConfig {
                    vmr: VmResources { kernel_bundle: kernel, ..old(self).vmr },
                    ..*old(self)
                }
            } else {
                *old(self)
            },
    {
        match kernel {
            Some(bundle) => {
                if bundle.host_addr == 0 {
                    return Err(StartError::MissingFirmware);
                }
                self.vmr.kernel_bundle = Some(bundle);
                Ok(())
            },
            None => Err(StartError::MissingFirmware),
        }
    }

    /// Adds a network device under the next name.
    pub fn add_network_interface(
        &mut self,
        backend: VirtioNetBackend,
        mac: [u8; 6],
        features: u32,
    )
        requires
            old(self).net_index < u8::MAX,
        ensures
            final(self).vmr.net@.len() == old(self).vmr.net@.len() + 1,
            final(self).vmr.net@.drop_last() == old(self).vmr.net@,
            ({
                let added = final(self).vmr.net@.last();
                &&& added.iface_id@ == iface_text(old(self).net_index)
                &&& added.backend == backend
                &&& added.mac == mac
                &&& added.features == features
            }),
            *final(self) == (ContextConfig {
                net_index: (old(self).net_index + 1) as u8,
                vmr: VmResources { net: final(self).vmr.net, ..old(self).vmr },
                ..*old(self)
            }),
    {
        let config = NetworkInterfaceConfig {
            iface_id: iface_id(self.net_index),
            backend,
            mac,
            features,
        };
        self.net_index += 1;
        self.vmr.net.push(config);
        assert(self.vmr.net@.drop_last() =~= old(self).vmr.net@);
    }

    /// Adds the network device that was configured in the old way, if there is one.
    pub fn add_legacy_net(&mut self)
        requires
            old(self).legacy_net_cfg is Some ==> old(self).net_index < u8::MAX,
        ensures
            match old(self).legacy_net_cfg {
                Some(legacy) => {
                    let added = final(self).vmr.net@.last();
                    &&& final(self).vmr.net@.len() == old(self).vmr.net@.len() + 1
                    &&& final(self).vmr.net@.drop_last() == old(self).vmr.net@
                    &&& added.iface_id@ == iface_text(old(self).net_index)
                    &&& added.backend == match legacy {
                        LegacyNetworkConfig::VirtioNetGvproxy(path) => VirtioNetBackend::UnixgramPath(
                            path,
                            true,
                        ),
                        LegacyNetworkConfig::VirtioNetPasst(fd) => VirtioNetBackend::UnixstreamFd(
                            fd,
                        ),
                    }
                    &&& added.mac@ == match old(self).legacy_mac {
                        Some(mac) => mac@,
                        None => DEFAULT_LEGACY_MAC@,
                    }
                    &&& added.features == NET_COMPAT_FEATURES
                    &&& *final(self) == (ContextConfig {
                        net_index: (old(self).net_index + 1) as u8,
                        vmr: VmResources { net: final(self).vmr.net, ..old(self).vmr },
                        ..*old(self)
                    })
                },
                None => *final(self) == *old(self),
            },
    {
        let backend = match &self.legacy_net_cfg {
            Some(LegacyNetworkConfig::VirtioNetGvproxy(path)) => VirtioNetBackend::UnixgramPath(
                path.clone(),
                true,
            ),
            Some(LegacyNetworkConfig::VirtioNetPasst(fd)) => VirtioNetBackend::UnixstreamFd(*fd),
            None => {
                return ;
            },
        };
        let mac: [u8; 6] = match self.legacy_mac {
            Some(mac) => mac,
            None => DEFAULT_LEGACY_MAC,
        };
        self.add_network_interface(backend, mac, NET_COMPAT_FEATURES);
    }

    /// Configures the socket device, where there is to be one. It gets the sockets of the
    /// host that are mapped to ports of the guest.
    pub fn add_vsock_device(&mut self)
        ensures
            match vsock_flags(*old(self)) {
                Some(tsi_flags) => {
                    &&& final(self).vmr.vsock matches Some(device)
                    &&& device.vsock_id@ == "vsock0"@
                    &&& device.guest_cid == GUEST_CID
                    &&& device.host_port_map == if vsock_has_ports(*old(self)) {
                        old(self).tsi_port_map
                    } else {
                        None
                    }
                    &&& device.unix_ipc_port_map == old(self).unix_ipc_port_map
                    &&& device.tsi_flags == tsi_flags
                    &&& *final(self) == (ContextConfig {
                        vmr: VmResources { vsock: final(self).vmr.vsock, ..old(self).vmr },
                        tsi_port_map: if vsock_has_ports(*old(self)) {
                            None
                        } else {
                            old(self).tsi_port_map
                        },
                        unix_ipc_port_map: None,
                        ..*old(self)
                    })
                },
                None => *final(self) == *old(self),
            },
    {
        if self.vhost_user_vsock {
            return ;
        }
        let enable_tsi = self.vmr.net.len() == 0 && self.legacy_net_cfg.is_none();
        let (tsi_flags, with_ports) = match self.vsock_config {
            VsockConfig::Disabled => {
                return ;
            },
            VsockConfig::Explicit { tsi_flags } => (tsi_flags, true),
            VsockConfig::Implicit => {
                if !enable_tsi && self.unix_ipc_port_map.is_none() {
                    return ;
                }
                (TsiFlags { hijack_inet: enable_tsi, hijack_unix: false }, enable_tsi)
            },
        };
        let host_port_map = if with_ports {
            self.tsi_port_map.take()
        } else {
            None
        };
        self.vmr.vsock = Some(
            VsockDeviceConfig {
                vsock_id: String::from_str("vsock0"),
                guest_cid: GUEST_CID,
                host_port_map,
                unix_ipc_port_map: self.unix_ipc_port_map.take(),
                tsi_flags,
            },
        );
    }

    /// Takes over what is configured of the graphics and the console.
    pub fn add_outputs(&mut self)
        ensures
            *final(self) == (ContextConfig {
                vmr: VmResources {
                    gpu_virgl_flags: if old(self).gpu_virgl_flags is Some {
                        old(self).gpu_virgl_flags
                    } else {
                        old(self).vmr.gpu_virgl_flags
                    },
                    gpu_shm_size: if old(self).gpu_shm_size is Some {
                        old(self).gpu_shm_size
                    } else {
                        old(self).vmr.gpu_shm_size
                    },
                    console_output: if old(self).console_output is Some {
                        old(self).console_output
                    } else {
                        old(self).vmr.console_output
                    },
                    ..old(self).vmr
                },
                console_output: None,
                ..*old(self)
            }),
    {
        if self.gpu_virgl_flags.is_some() {
            self.vmr.gpu_virgl_flags = self.gpu_virgl_flags;
        }
        if self.gpu_shm_size.is_some() {
            self.vmr.gpu_shm_size = self.gpu_shm_size;
        }
        if self.console_output.is_some() {
            self.vmr.console_output = self.console_output.take();
        }
    }
}

/// A socket device is offered unless it is disabled or a vhost-user backend serves one. What was
/// asked for is offered as it is. If nothing was, it takes over the sockets of the guest exactly
/// if there is no network device, and beside network devices it is there only for ports.
pub proof fn sockets_are_taken_over_without_a_network(cfg: ContextConfig)
    ensures
        cfg.vhost_user_vsock || cfg.vsock_config is Disabled ==> vsock_flags(cfg) is None,
        !cfg.vhost_user_vsock ==> (cfg.vsock_config matches VsockConfig::Explicit { tsi_flags }
            ==> vsock_flags(cfg) == Some(tsi_flags)),
        !cfg.vhost_user_vsock && cfg.vsock_config is Implicit ==> {
            let network = cfg.vmr.net@.len() > 0 || cfg.legacy_net_cfg is Some;
            &&& vsock_flags(cfg) is None <==> network && cfg.unix_ipc_port_map is None
            &&& vsock_flags(cfg) matches Some(flags) ==> flags.hijack_inet == !network
                && !flags.hijack_unix
            &&& vsock_has_ports(cfg) == !network
        },
        cfg.vsock_config is Explicit ==> vsock_has_ports(cfg),
{
}

/// Block devices that were added come alone and in their order. Without such, the root comes
/// before the data.
pub proof fn the_root_comes_before_the_data(cfg: ContextConfig)
    ensures
        ({
            let blocks = cfg.block_devices();
            let roots: nat = if cfg.root_block_cfg is Some {
                1
            } else {
                0
            };
            let datas: nat = if cfg.data_block_cfg is Some {
                1
            } else {
                0
            };
            &&& cfg.block_cfgs@.len() > 0 ==> blocks == cfg.block_cfgs@
            &&& cfg.block_cfgs@.len() == 0 ==> {
                &&& blocks.len() == roots + datas
                &&& cfg.root_block_cfg matches Some(root) ==> blocks[0] == root
                &&& cfg.data_block_cfg matches Some(data) ==> blocks[roots as int] == data
            }
        }),
{
}

/// An assignment is the name before the value, and nothing without a value.
pub proof fn names_stand_before_values(key: Seq<char>, value: Option<String>, root: BlockRootConfig)
    ensures
        value is None ==> assignment(key, value).len() == 0,
        value matches Some(text) ==> {
            &&& assignment(key, value).take(key.len() as int) == key
            &&& assignment(key, value).skip(key.len() as int) == text@
        },
        root.fstype is None && root.options is None ==> block_root_text(Some(root))
            == "KRUN_BLOCK_ROOT_DEVICE="@ + root.device@,
        block_root_text(None).len() == 0,
{
    if let Some(text) = value {
        assert(assignment(key, value).take(key.len() as int) =~= key);
        assert(assignment(key, value).skip(key.len() as int) =~= text@);
    }
    assert(root.fstype is None && root.options is None ==> block_root_text(Some(root))
        =~= "KRUN_BLOCK_ROOT_DEVICE="@ + root.device@);
}

/// A block device with the root file system is described by its name, its type if there is one,
/// and its options if there are such, in this order.
pub proof fn roots_are_described_in_order(root: BlockRootConfig, fstype: String, options: String)
    ensures
        ({
            let name = "KRUN_BLOCK_ROOT_DEVICE="@ + root.device@;
            let typed = name + " KRUN_BLOCK_ROOT_FSTYPE="@ + fstype@;
            &&& block_root_text(
                Some(BlockRootConfig { fstype: Some(fstype), options: None, ..root }),
            ) == typed
            &&& block_root_text(
                Some(BlockRootConfig { fstype: None, options: Some(options), ..root }),
            ) == name + " KRUN_BLOCK_ROOT_OPTIONS="@ + options@
            &&& block_root_text(
                Some(BlockRootConfig { fstype: Some(fstype), options: Some(options), ..root }),
            ) == typed + " KRUN_BLOCK_ROOT_OPTIONS="@ + options@
        }),
{
    let name = "KRUN_BLOCK_ROOT_DEVICE="@ + root.device@;
    let typed = name + " KRUN_BLOCK_ROOT_FSTYPE="@ + fstype@;
    assert(block_root_text(Some(BlockRootConfig { fstype: Some(fstype), options: None, ..root }))
        =~= typed);
    assert(block_root_text(Some(BlockRootConfig { fstype: None, options: Some(options), ..root }))
        =~= name + " KRUN_BLOCK_ROOT_OPTIONS="@ + options@);
    assert(block_root_text(
        Some(BlockRootConfig { fstype: Some(fstype), options: Some(options), ..root }),
    ) =~= typed + " KRUN_BLOCK_ROOT_OPTIONS="@ + options@);
}

} // verus!
