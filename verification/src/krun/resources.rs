//! What a virtual machine is made of.
use vstd::prelude::*;

use std::collections::HashMap;

use crate::net::device::VirtioNetBackend;

verus! {

#[derive(Clone, Copy, Debug, PartialEq, Eq, Structural)]
pub struct VmConfig {
    pub vcpu_count: Option<u8>,
    pub mem_size_mib: Option<usize>,
    pub ht_enabled: Option<bool>,
}

/// What stands behind a file system.
#[derive(Debug, PartialEq, Eq)]
pub enum FsSource {
    /// A directory of the host.
    Path { root_dir: String, allow_root_dir_delete: bool },
    /// A file system of the caller's own.
    Custom,
}

#[derive(Debug, PartialEq, Eq)]
pub struct FsMount {
    pub tag: String,
    pub source: FsSource,
    pub shm_size: Option<usize>,
}

#[derive(Debug, PartialEq, Eq)]
pub struct VhostUserFsConfig {
    pub tag: String,
    pub socket_path: String,
    pub dax_window_mib: Option<u32>,
}

/// How the backend of a socket device is reached.
#[derive(Debug, PartialEq, Eq)]
pub enum VhostUserVsockConnection {
    SocketPath(String),
    /// By a stream that is connected already, given by its descriptor.
    Stream(i32),
}

#[derive(Debug, PartialEq, Eq)]
pub struct NetworkInterfaceConfig {
    pub iface_id: String,
    pub backend: VirtioNetBackend,
    pub mac: [u8; 6],
    pub features: u32,
}

/// A port of a console. A direction without a descriptor is not there.
#[derive(Debug, PartialEq, Eq)]
pub struct PortDescription {
    pub name: String,
    pub input: Option<i32>,
    pub output: Option<i32>,
    /// Columns and rows, if the port is a terminal.
    pub terminal: Option<(u16, u16)>,
}

#[derive(Debug, PartialEq, Eq)]
pub enum VirtioConsoleConfigMode {
    Autoconfigure,
    Custom(Vec<PortDescription>),
}

#[derive(Clone, Copy, Debug, PartialEq, Eq, Structural)]
pub enum CacheType {
    Unsafe,
    Writeback,
}

#[derive(Clone, Copy, Debug, PartialEq, Eq, Structural)]
pub enum ImageType {
    Raw,
    Qcow2,
    Vmdk,
}

#[derive(Clone, Copy, Debug, PartialEq, Eq, Structural)]
pub enum SyncMode {
    Off,
    Relaxed,
    Full,
}

#[derive(Debug, PartialEq, Eq)]
pub enum BlockDeviceType {
    Image { path: String, format: ImageType, sync_mode: SyncMode },
    /// A backend of the caller's own.
    Custom,
}

#[derive(Debug, PartialEq, Eq)]
pub struct BlockDeviceConfig {
    pub block_id: String,
    pub cache_type: CacheType,
    pub disk_type: BlockDeviceType,
    pub is_disk_read_only: bool,
    pub direct_io: bool,
}

#[derive(Debug, PartialEq, Eq)]
pub struct BlockRootConfig {
    pub device: String,
    pub fstype: Option<String>,
    pub options: Option<String>,
}

/// Which sockets of the guest are taken over by the host.
#[derive(Clone, Copy, Debug, PartialEq, Eq, Structural)]
pub struct TsiFlags {
    pub hijack_inet: bool,
    pub hijack_unix: bool,
}

#[derive(Clone, Copy, Debug, PartialEq, Eq, Structural)]
pub enum VsockConfig {
    Disabled,
    Explicit { tsi_flags: TsiFlags },
    /// There is a socket device where something needs it.
    Implicit,
}

pub struct VsockDeviceConfig {
    pub vsock_id: String,
    pub guest_cid: u32,
    pub host_port_map: Option<HashMap<u16, u16>>,
    pub unix_ipc_port_map: Option<HashMap<u32, (String, bool)>>,
    pub tsi_flags: TsiFlags,
}

/// A kernel in the memory of this process.
#[derive(Clone, Copy, Debug, PartialEq, Eq, Structural)]
pub struct KernelBundle {
    pub host_addr: u64,
    pub guest_addr: u64,
    pub entry_addr: u64,
    pub size: usize,
}

#[derive(Debug, PartialEq, Eq)]
pub struct KernelCmdlineConfig {
    pub cmdline: Vec<String>,
    pub args: Vec<String>,
}

/// What stands behind the random number device.
#[derive(Clone, Copy, Debug, PartialEq, Eq, Structural)]
pub enum RngBackend {
    /// The generator of the host.
    Os,
    /// A generator of the caller's own.
    Custom,
}

pub struct VmResources {
    pub vm_config: VmConfig,
    pub fs: Vec<FsMount>,
    pub vhost_user_fs: Vec<VhostUserFsConfig>,
    pub vhost_user_vsock: Option<VhostUserVsockConnection>,
    pub rng_backend: Option<RngBackend>,
    pub net: Vec<NetworkInterfaceConfig>,
    pub block: Vec<BlockDeviceConfig>,
    pub vsock: Option<VsockDeviceConfig>,
    pub disable_implicit_console: bool,
    pub virtio_consoles: Vec<VirtioConsoleConfigMode>,
    pub balloon_enabled: bool,
    /// Whether a kernel is given as a file.
    pub external_kernel: bool,
    pub kernel_bundle: Option<KernelBundle>,
    /// Whether a firmware is given as a file.
    pub firmware_config: bool,
    pub kernel_cmdline: Option<KernelCmdlineConfig>,
    pub gpu_virgl_flags: Option<u32>,
    pub gpu_shm_size: Option<usize>,
    pub console_output: Option<String>,
}

impl VmResources {
    /// Whether nothing is there.
    pub open spec fn is_default(&self) -> bool {
        &&& self.vm_config == (VmConfig { vcpu_count: None, mem_size_mib: None, ht_enabled: None })
        &&& self.fs@.len() == 0
        &&& self.vhost_user_fs@.len() == 0
        &&& self.vhost_user_vsock is None
        &&& self.rng_backend is None
        &&& self.net@.len() == 0
        &&& self.block@.len() == 0
        &&& self.vsock is None
        &&& !self.disable_implicit_console
        &&& self.virtio_consoles@.len() == 0
        &&& !self.balloon_enabled
        &&& !self.external_kernel
        &&& self.kernel_bundle is None
        &&& !self.firmware_config
        &&& self.kernel_cmdline is None
        &&& self.gpu_virgl_flags is None
        &&& self.gpu_shm_size is None
        &&& self.console_output is None
    }
}

impl Default for VmResources {
    fn default() -> (res: VmResources)
        ensures
            res.is_default(),
    {
        VmResources {
            vm_config: VmConfig { vcpu_count: None, mem_size_mib: None, ht_enabled: None },
            fs: Vec::new(),
            vhost_user_fs: Vec::new(),
            vhost_user_vsock: None,
            rng_backend: None,
            net: Vec::new(),
            block: Vec::new(),
            vsock: None,
            disable_implicit_console: false,
            virtio_consoles: Vec::new(),
            balloon_enabled: false,
            external_kernel: false,
            kernel_bundle: None,
            firmware_config: false,
            kernel_cmdline: None,
            gpu_virgl_flags: None,
            gpu_shm_size: None,
            console_output: None,
        }
    }
}

} // verus!
