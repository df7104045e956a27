//! A file system served by a vhost-user backend.
use vstd::prelude::*;

use vstd::string::StringExecFns;

use super::device;
use super::device::{
    empty_queues, same_configs, take_positions, VhostError, VhostUserDevice,
};
use crate::byte_order;
use crate::byte_order::read_le_u32;
use crate::queue;
use crate::queue::Queue;
use crate::virtio_device;
use crate::virtio_device::{BadActivate, QueueConfig, VirtioShmRegion};

verus! {

pub const VIRTIO_ID_FS: u32 = 26;

pub const FS_DEVICE_NAME: &'static str = "virtio-fs-vhost";

pub const QUEUE_SIZE: u16 = 1024;

/// The most bytes of a saved state that are read back.
pub const MAX_SNAPSHOT_BYTES: usize = 8192;

/// The length of a file system tag in the configuration space.
pub const TAG_SIZE: usize = 36;

/// The length of the configuration space.
pub const CONFIG_SIZE: usize = 40;

const MIB: usize = 1_048_576;

/// The configuration space.
#[derive(Clone, Copy, Debug)]
pub struct VirtioFsConfig {
    pub tag: [u8; 36],
    pub num_request_queues: u32,
}

impl Default for VirtioFsConfig {
    fn default() -> (res: VirtioFsConfig)
        ensures
            res.tag@ == byte_order::zeros(36),
            res.num_request_queues == 0,
    {
        let res = VirtioFsConfig { tag: [0; 36], num_request_queues: 0 };
        assert(res.tag@ =~= byte_order::zeros(36));
        res
    }
}

/// The bytes of a tag.
pub open spec fn tag_bytes(tag: &str) -> Seq<u8> {
    vstd::utf8::encode_utf8(tag@)
}

/// `under` with `over` laid over its beginning, as far as it has room.
pub open spec fn laid_over(under: Seq<u8>, over: Seq<u8>) -> Seq<u8> {
    Seq::new(
        under.len(),
        |i: int|
            if i < over.len() {
                over[i]
            } else {
                under[i]
            },
    )
}

impl VirtioFsConfig {
    /// The bytes of the configuration space.
    pub open spec fn bytes(&self) -> Seq<u8> {
        self.tag@ + byte_order::le32_bytes(self.num_request_queues)
    }

    pub fn to_bytes(&self) -> (res: Vec<u8>)
        ensures
            res@ == self.bytes(),
            res@.len() == CONFIG_SIZE,
    {
        let mut bytes: Vec<u8> = Vec::new();
        let mut i: usize = 0;
        while i < 36
            invariant
                i <= 36,
                bytes@ == self.tag@.take(i as int),
                self.tag@.len() == 36,
            decreases 36 - i,
        {
            bytes.push(self.tag[i]);
            i += 1;
            assert(bytes@ =~= self.tag@.take(i as int));
        }
        let n: u32 = self.num_request_queues;
        bytes.push((n % 0x100) as u8);
        bytes.push((n / 0x100 % 0x100) as u8);
        bytes.push((n / 0x1_0000 % 0x100) as u8);
        bytes.push((n / 0x100_0000) as u8);
        assert(bytes@ =~= self.bytes());
        bytes
    }

    /// The configuration space in `bytes`, which are exactly as many as it has.
    pub fn from_slice(bytes: &[u8]) -> (res: Option<VirtioFsConfig>)
        ensures
            res is Some <==> bytes@.len() == CONFIG_SIZE,
            res matches Some(config) ==> config.tag@ == bytes@.take(36)
                && config.num_request_queues == byte_order::le_u32(bytes@.skip(36)),
    {
        if bytes.len() != CONFIG_SIZE {
            return None;
        }
        let mut config = VirtioFsConfig { tag: [0; 36], num_request_queues: 0 };
        config.set_tag(vstd::slice::slice_subrange(bytes, 0, 36));
        let rest = vstd::slice::slice_subrange(bytes, 36, 40);
        assert(rest@ =~= bytes@.skip(36));
        config.num_request_queues = read_le_u32(rest);
        assert(config.tag@ =~= bytes@.take(36));
        Some(config)
    }

    /// Lays `bytes` over the beginning of the tag, as far as it has room.
    pub fn set_tag(&mut self, bytes: &[u8])
        ensures
            final(self).tag@ == laid_over(old(self).tag@, bytes@),
            final(self).num_request_queues == old(self).num_request_queues,
    {
        let ghost before = self.tag@;
        let mut i: usize = 0;
        while i < 36 && i < bytes.len()
            invariant
                i <= 36,
                i <= bytes@.len(),
                self.tag@.len() == 36 == before.len(),
                self.num_request_queues == old(self).num_request_queues,
                forall|j: int| 0 <= j < i ==> self.tag@[j] == bytes@[j],
                forall|j: int| i <= j < 36 ==> self.tag@[j] == before[j],
            decreases 36 - i,
        {
            self.tag[i] = bytes[i];
            i += 1;
        }
        assert(self.tag@ =~= laid_over(before, bytes@));
    }
}

/// What is saved of a device.
#[derive(Debug)]
pub struct VhostUserFsState {
    pub tag: String,
    /// Where the backend listened. A restored device does not go there: it keeps the path
    /// that it was made with.
    pub socket_path: String,
    pub dax_window_mib: Option<u32>,
    pub acked_features: u64,
    pub acked_protocol_features: u64,
    /// The position of each queue.
    pub vring_bases: Vec<u16>,
    /// The backend's own state.
    pub daemon_state: Vec<u8>,
    pub config_tag: Vec<u8>,
    pub config_num_request_queues: u32,
}

/// The parts of a saved state in the order in which they are encoded.
pub type FsParts = (
    String,
    String,
    Option<u32>,
    u64,
    u64,
    Vec<u16>,
    Vec<u8>,
    Vec<u8>,
    u32,
);

impl VhostUserFsState {
    /// The parts of the state.
    pub open spec fn parts(self) -> FsParts {
        (
            self.tag,
            self.socket_path,
            self.dax_window_mib,
            self.acked_features,
            self.acked_protocol_features,
            self.vring_bases,
            self.daemon_state,
            self.config_tag,
            self.config_num_request_queues,
        )
    }

    /// The parts of the state, to be encoded.
    pub fn into_parts(self) -> (res: FsParts)
        ensures
            res == self.parts(),
    {
        (
            self.tag,
            self.socket_path,
            self.dax_window_mib,
            self.acked_features,
            self.acked_protocol_features,
            self.vring_bases,
            self.daemon_state,
            self.config_tag,
            self.config_num_request_queues,
        )
    }

    /// The state that has these parts.
    pub fn from_parts(parts: FsParts) -> (res: VhostUserFsState)
        ensures
            res.parts() == parts,
    {
        let (
            tag,
            socket_path,
            dax_window_mib,
            acked_features,
            acked_protocol_features,
            vring_bases,
            daemon_state,
            config_tag,
            config_num_request_queues,
        ) = parts;
        VhostUserFsState {
            tag,
            socket_path,
            dax_window_mib,
            acked_features,
            acked_protocol_features,
            vring_bases,
            daemon_state,
            config_tag,
            config_num_request_queues,
        }
    }
}

/// A saved state is its parts: two states with the same parts are the same.
pub proof fn states_are_their_parts(a: VhostUserFsState, b: VhostUserFsState)
    requires
        a.parts() == b.parts(),
    ensures
        a == b,
{
}

/// What the parts of a saved state say.
pub type FsPartsView = (
    Seq<char>,
    Seq<char>,
    Option<u32>,
    u64,
    u64,
    Seq<u16>,
    Seq<u8>,
    Seq<u8>,
    u32,
);

/// What `parts` say.
pub open spec fn parts_view(parts: FsParts) -> FsPartsView {
    (
        parts.0@,
        parts.1@,
        parts.2,
        parts.3,
        parts.4,
        parts.5@,
        parts.6@,
        parts.7@,
        parts.8,
    )
}

/// The bytes of saved parts.
pub uninterp spec fn encoded_fs(parts: FsPartsView) -> Seq<u8>;

/// The parts in saved bytes that are read back with a limit; none if they do not hold any.
pub uninterp spec fn decoded_fs(bytes: Seq<u8>, limit: usize) -> Option<FsPartsView>;

/// How much of its limit a reader of `parts` takes at the most: eight bytes for each of the
/// five lists and texts, and what they have in them.
pub open spec fn room_for(parts: FsPartsView) -> nat {
    40 + vstd::utf8::encode_utf8(parts.0).len() + vstd::utf8::encode_utf8(parts.1).len() + 2
        * parts.5.len() + parts.6.len() + parts.7.len()
}

/// Calls `bincode_next::encode_to_vec` with the standard configuration, in which no part can
/// fail to be encoded, and names the bytes. A reader gets the same parts back, if it has a
/// limit that leaves room for them. The positions go in tuples of one element, whose bytes are
/// those of the element.
#[verifier::external_body]
fn encode_parts(parts: FsParts) -> (res: Option<Vec<u8>>)
    ensures
        res is Some,
        res->0@ == encoded_fs(parts_view(parts)),
        forall|limit: usize|
            room_for(parts_view(parts)) <= limit ==> #[trigger] decoded_fs(res->0@, limit) == Some(
                parts_view(parts),
            ),
{
    let (tag, path, mib, features, protocol, bases, state, config, count) = parts;
    let bases: Vec<(u16,)> = bases.into_iter().map(|base| (base,)).collect();
    let record = (tag, path, mib, features, protocol, bases, state, config, count);
    bincode_next::encode_to_vec(record, bincode_next::config::standard()).ok()
}

/// Calls `bincode_next::decode_from_slice` with the standard configuration and `LIMIT`, and
/// names the parts. The positions come in tuples of one element, whose bytes are those of the
/// element: for a list of bare numbers the decoder takes a short cut that can take more off
/// its count of bytes than there is.
#[verifier::external_body]
fn decode_parts<const LIMIT: usize>(bytes: &[u8]) -> (res: Option<FsParts>)
    ensures
        decoded_fs(bytes@, LIMIT) == match res {
            Some(parts) => Some(parts_view(parts)),
            None => None,
        },
{
    let limited = bincode_next::config::standard().with_limit::<LIMIT>();
    let record = bincode_next::decode_from_slice(bytes, limited).ok()?.0;
    let (tag, path, mib, features, protocol, bases, state, config, count) = record;
    let bases: Vec<(u16,)> = bases;
    let bases = bases.into_iter().map(|base| base.0).collect();
    Some((tag, path, mib, features, protocol, bases, state, config, count))
}

/// Guest memory that the backend gets for direct access to files.
#[derive(Clone, Copy, Debug, PartialEq, Eq, Structural)]
pub struct DaxRegion {
    pub guest_phys_addr: u64,
    pub memory_size: u64,
    pub userspace_addr: u64,
    pub mmap_offset: u64,
    /// The descriptor of the memory.
    pub mmap_handle: i32,
}

/// The file system device.
pub struct VhostUserFs {
    pub vhost_user: VhostUserDevice,
    pub config: VirtioFsConfig,
    pub queue_configs: Vec<QueueConfig>,
    pub shm_region: Option<VirtioShmRegion>,
    pub dax_window_size: Option<usize>,
    pub dax_window_fd: Option<i32>,
    pub tag: String,
    pub socket_path: String,
    pub queues: Vec<Queue>,
    /// What the next activation goes on from.
    pub pending_restore_state: Option<VhostUserFsState>,
}

/// An activation, by the step that is next.
#[derive(Clone, Copy, Debug, PartialEq, Eq, Structural)]
pub enum FsActivation {
    /// Carry out the activation plan.
    Start,
    /// Connect to the backend again.
    Connect,
    /// Negotiate on the new connection.
    Reconnect,
    /// Carry out the activation plan with the saved positions.
    Rings,
    /// Add the region for direct access.
    ShareDax { restoring: bool },
    /// Give the backend its state back.
    LoadState,
    Active,
}

/// The size of a window of so many MiB.
pub open spec fn window_size(dax_window_mib: Option<u32>) -> Option<usize> {
    match dax_window_mib {
        Some(mib) => Some((mib * 1_048_576) as usize),
        None => None,
    }
}

/// Whether a window of so many MiB fits the address space.
pub open spec fn window_fits(dax_window_mib: Option<u32>) -> bool {
    dax_window_mib matches Some(mib) ==> mib * 1_048_576 <= usize::MAX
}

/// Whether `fs` is a device as it is made from `config`: one queue for urgent requests, and
/// the request queues of the configuration.
pub open spec fn fresh(fs: VhostUserFs, config: VirtioFsConfig, dax_window_mib: Option<u32>) -> bool {
    let count = 1 + config.num_request_queues as nat;
    &&& fs.config == config
    &&& fs.queue_configs@ == Seq::new(count, |i: int| QueueConfig { size: QUEUE_SIZE })
    &&& fs.queues@ == Seq::new(count, |i: int| queue::empty_queue(QUEUE_SIZE))
    &&& fs.shm_region is None
    &&& fs.dax_window_size == window_size(dax_window_mib)
    &&& fs.dax_window_fd is None
    &&& fs.pending_restore_state is None
}

/// Whether reading the saved bytes `data` back takes a device from `before` to `after`: the tag
/// and the configuration are taken over at once, the rest is kept for the next activation, for
/// which the device becomes inactive. Bytes that do not hold a state change nothing.
pub open spec fn restores(before: VhostUserFs, after: VhostUserFs, data: Seq<u8>) -> bool {
    match decoded_fs(data, MAX_SNAPSHOT_BYTES) {
        Some(saved) => {
            &&& after.tag@ == saved.0
            &&& after.config.tag@ == laid_over(byte_order::zeros(36), saved.7)
            &&& after.config.num_request_queues == saved.8
            &&& after.pending_restore_state matches Some(state)
            &&& parts_view(state.parts()) == saved
            &&& after == (VhostUserFs {
                tag: after.tag,
                config: after.config,
                vhost_user: VhostUserDevice { activated: false, ..before.vhost_user },
                pending_restore_state: after.pending_restore_state,
                ..before
            })
        },
        None => after == before,
    }
}

/// Whether the rings are stopped behind the step `at`: once they were started, and a step of
/// the activation behind that failed.
pub fn stops_rings(at: FsActivation, succeeded: bool) -> (res: bool)
    ensures
        res == (!succeeded && (at is ShareDax || at is LoadState)),
{
    match at {
        FsActivation::ShareDax { .. } => !succeeded,
        FsActivation::LoadState => !succeeded,
        _ => false,
    }
}

impl VhostUserFs {
    /// Whether `tag` can be the tag of a file system: it has 36 bytes at the most. This is
    /// to be asked before the backend is connected.
    pub fn check_tag(tag: &str) -> (res: Result<(), VhostError>)
        ensures
            res == if tag_bytes(tag).len() <= TAG_SIZE {
                Ok::<(), VhostError>(())
            } else {
                Err(VhostError::TagTooLong)
            },
    {
        if tag.as_bytes().len() > TAG_SIZE {
            Err(VhostError::TagTooLong)
        } else {
            Ok(())
        }
    }

    /// A device made from its parts, with the queues that `config` asks for.
    pub fn with_config(
        vhost_user: VhostUserDevice,
        config: VirtioFsConfig,
        dax_window_mib: Option<u32>,
        tag: String,
        socket_path: String,
    ) -> (res: VhostUserFs)
        requires
            window_fits(dax_window_mib),
            config.num_request_queues < usize::MAX,
        ensures
            fresh(res, config, dax_window_mib),
            res.vhost_user == vhost_user,
            res.tag == tag,
            res.socket_path == socket_path,
    {
        let count: usize = 1 + config.num_request_queues as usize;
        let dax_window_size: Option<usize> = match dax_window_mib {
            Some(mib) => Some(mib as usize * MIB),
            None => None,
        };
        VhostUserFs {
            vhost_user,
            config,
            queue_configs: same_configs(count, QUEUE_SIZE),
            shm_region: None,
            dax_window_size,
            dax_window_fd: None,
            tag,
            socket_path,
            queues: empty_queues(count, QUEUE_SIZE),
            pending_restore_state: None,
        }
    }

    /// A device for a connected backend, whose configuration is `payload`. The tag is laid
    /// over the one in the configuration.
    pub fn new(
        tag: &str,
        socket_path: &str,
        dax_window_mib: Option<u32>,
        vhost_user: VhostUserDevice,
        payload: &[u8],
    ) -> (res: Result<VhostUserFs, VhostError>)
        requires
            window_fits(dax_window_mib),
            payload@.len() == CONFIG_SIZE ==> byte_order::le_u32(payload@.skip(36)) < usize::MAX,
        ensures
            match res {
                Ok(fs) => {
                    let config = fs.config;
                    &&& tag_bytes(tag).len() <= TAG_SIZE
                    &&& payload@.len() == CONFIG_SIZE
                    &&& config.tag@ == laid_over(payload@.take(36), tag_bytes(tag))
                    &&& config.num_request_queues == byte_order::le_u32(payload@.skip(36))
                    &&& fresh(fs, config, dax_window_mib)
                    &&& fs.vhost_user == vhost_user
                    &&& fs.tag@ == tag@
                    &&& fs.socket_path@ == socket_path@
                },
                Err(error) => if tag_bytes(tag).len() > TAG_SIZE {
                    error == VhostError::TagTooLong
                } else {
                    error == VhostError::InvalidConfig && payload@.len() != CONFIG_SIZE
                },
            },
    {
        match VhostUserFs::check_tag(tag) {
            Ok(()) => {},
            Err(error) => return Err(error),
        }
        let mut config = match VirtioFsConfig::from_slice(payload) {
            Some(config) => config,
            None => return Err(VhostError::InvalidConfig),
        };
        config.set_tag(tag.as_bytes());
        Ok(
            VhostUserFs::with_config(
                vhost_user,
                config,
                dax_window_mib,
                String::from_str(tag),
                String::from_str(socket_path),
            ),
        )
    }

    pub fn set_shm_region(&mut self, region: VirtioShmRegion)
        ensures
            *final(self) == (VhostUserFs { shm_region: Some(region), ..*old(self) }),
    {
        self.shm_region = Some(region);
    }

    /// Takes the descriptor of the memory for direct access.
    pub fn set_dax_window_fd(&mut self, fd: i32)
        ensures
            *final(self) == (VhostUserFs { dax_window_fd: Some(fd), ..*old(self) }),
    {
        self.dax_window_fd = Some(fd);
    }

    pub fn dax_window_fd(&self) -> (res: Option<i32>)
        ensures
            res == self.dax_window_fd,
    {
        self.dax_window_fd
    }

    pub fn dax_window_size(&self) -> (res: Option<usize>)
        ensures
            res == self.dax_window_size,
    {
        self.dax_window_size
    }

    pub fn socket_path(&self) -> (res: &str)
        ensures
            res@ == self.socket_path@,
    {
        self.socket_path.as_str()
    }

    pub fn tag(&self) -> (res: &str)
        ensures
            res@ == self.tag@,
    {
        self.tag.as_str()
    }

    pub fn shm_region(&self) -> (res: Option<VirtioShmRegion>)
        ensures
            res == self.shm_region,
    {
        self.shm_region
    }

    pub fn device_type(&self) -> (res: u32)
        ensures
            res == VIRTIO_ID_FS,
    {
        VIRTIO_ID_FS
    }

    pub fn device_name(&self) -> (res: &'static str)
        ensures
            res@ == FS_DEVICE_NAME@,
    {
        FS_DEVICE_NAME
    }

    pub fn queue_config(&self) -> (res: &Vec<QueueConfig>)
        ensures
            *res == self.queue_configs,
    {
        &self.queue_configs
    }

    pub fn queues(&self) -> (res: &Vec<Queue>)
        ensures
            *res == self.queues,
    {
        &self.queues
    }

    pub fn queues_mut(&mut self) -> (res: &mut [Queue])
        ensures
            res@ == old(self).queues@,
            final(self).queues@ == final(res)@,
            *final(self) == (VhostUserFs { queues: final(self).queues, ..*old(self) }),
    {
        self.queues.as_mut_slice()
    }

    pub fn avail_features(&self) -> (res: u64)
        ensures
            res == self.vhost_user.avail_features,
    {
        self.vhost_user.avail_features()
    }

    pub fn acked_features(&self) -> (res: u64)
        ensures
            res == self.vhost_user.acked_features,
    {
        self.vhost_user.acked_features()
    }

    pub fn set_acked_features(&mut self, acked_features: u64)
        ensures
            *final(self) == (VhostUserFs {
                vhost_user: VhostUserDevice { acked_features, ..old(self).vhost_user },
                ..*old(self)
            }),
    {
        self.vhost_user.set_acked_features(acked_features);
    }

    pub fn is_activated(&self) -> (res: bool)
        ensures
            res == self.vhost_user.activated,
    {
        self.vhost_user.is_activated()
    }

    pub fn reset(&mut self) -> (res: bool)
        ensures
            res,
            *final(self) == (VhostUserFs {
                vhost_user: VhostUserDevice { activated: false, ..old(self).vhost_user },
                ..*old(self)
            }),
    {
        self.vhost_user.reset()
    }

    /// Reads the configuration space. What lies beyond it reads as zero.
    pub fn read_config(&self, offset: u64, data: &mut [u8])
        ensures
            final(data)@ == virtio_device::window(
                self.config.bytes(),
                offset,
                byte_order::zeros(old(data)@.len()),
            ),
    {
        let bytes = self.config.to_bytes();
        virtio_device::read_zeroed(bytes.as_slice(), offset, data);
    }

    /// What the guest writes to the configuration space changes nothing.
    pub fn write_config(&mut self, _offset: u64, _data: &[u8])
        ensures
            *final(self) == *old(self),
    {
    }

    /// The region for direct access, if there is one and it has its place in guest memory.
    pub open spec fn dax(&self) -> Option<DaxRegion> {
        match (self.dax_window_fd, self.shm_region) {
            (Some(fd), Some(region)) => Some(
                DaxRegion {
                    guest_phys_addr: region.guest_addr,
                    memory_size: region.size as u64,
                    userspace_addr: region.host_addr,
                    mmap_offset: 0,
                    mmap_handle: fd,
                },
            ),
            _ => None,
        }
    }

    /// The region for direct access.
    pub fn dax_region(&self) -> (res: Option<DaxRegion>)
        ensures
            res == self.dax(),
    {
        match (self.dax_window_fd, self.shm_region) {
            (Some(fd), Some(region)) => Some(
                DaxRegion {
                    guest_phys_addr: region.guest_addr,
                    memory_size: region.size as u64,
                    userspace_addr: region.host_addr,
                    mmap_offset: 0,
                    mmap_handle: fd,
                },
            ),
            _ => None,
        }
    }

    /// Begins an activation. A device that was restored goes on from its saved state, which
    /// is handed out once; any other takes over the positions of its queues.
    pub fn activate(&mut self, queues: &Vec<Queue>) -> (res: (
        FsActivation,
        Option<VhostUserFsState>,
    ))
        ensures
            res.1 == old(self).pending_restore_state,
            match old(self).pending_restore_state {
                Some(_) => {
                    &&& res.0 == FsActivation::Connect
                    &&& *final(self) == (VhostUserFs { pending_restore_state: None, ..*old(self) })
                },
                None => {
                    &&& res.0 == FsActivation::Start
                    &&& final(self).queues@ == device::all_repositioned(old(self).queues@, queues@)
                    &&& *final(self) == (VhostUserFs { queues: final(self).queues, ..*old(self) })
                },
            },
    {
        match self.pending_restore_state.take() {
            Some(state) => (FsActivation::Connect, Some(state)),
            None => {
                take_positions(&mut self.queues, queues);
                (FsActivation::Start, None)
            },
        }
    }

    /// The step behind `at`, once that has succeeded.
    pub open spec fn behind(&self, at: FsActivation) -> FsActivation {
        match at {
            FsActivation::Start => if self.dax() is Some {
                FsActivation::ShareDax { restoring: false }
            } else {
                FsActivation::Active
            },
            FsActivation::Connect => FsActivation::Reconnect,
            FsActivation::Reconnect => FsActivation::Rings,
            FsActivation::Rings => if self.dax() is Some {
                FsActivation::ShareDax { restoring: true }
            } else {
                FsActivation::LoadState
            },
            FsActivation::ShareDax { restoring: true } => FsActivation::LoadState,
            _ => FsActivation::Active,
        }
    }

    /// Whether the device is active after the step `at`, which has succeeded or not. It
    /// becomes so with the plan, or at the end of a restore; a step that fails behind the
    /// plan makes it inactive again.
    pub open spec fn active_after(&self, at: FsActivation, succeeded: bool) -> bool {
        match at {
            FsActivation::Start => self.vhost_user.activated || succeeded,
            FsActivation::ShareDax { .. } => self.vhost_user.activated && succeeded,
            FsActivation::LoadState => succeeded,
            _ => self.vhost_user.activated,
        }
    }

    /// Takes note of how the step `at` went, and gives the next one.
    pub fn advance(&mut self, at: FsActivation, succeeded: bool) -> (res: Result<
        FsActivation,
        BadActivate,
    >)
        ensures
            *final(self) == (VhostUserFs {
                vhost_user: VhostUserDevice {
                    activated: old(self).active_after(at, succeeded),
                    ..old(self).vhost_user
                },
                ..*old(self)
            }),
            res == if succeeded {
                Ok::<FsActivation, BadActivate>(old(self).behind(at))
            } else {
                Err(BadActivate)
            },
    {
        let has_dax = self.dax_region().is_some();
        if !succeeded {
            match at {
                FsActivation::ShareDax { .. } | FsActivation::LoadState => {
                    let _ = self.vhost_user.reset();
                },
                _ => {},
            }
            return Err(BadActivate);
        }
        Ok(
            match at {
                FsActivation::Start => {
                    self.vhost_user.mark_activated();
                    if has_dax {
                        FsActivation::ShareDax { restoring: false }
                    } else {
                        FsActivation::Active
                    }
                },
                FsActivation::Connect => FsActivation::Reconnect,
                FsActivation::Reconnect => FsActivation::Rings,
                FsActivation::Rings => if has_dax {
                    FsActivation::ShareDax { restoring: true }
                } else {
                    FsActivation::LoadState
                },
                FsActivation::ShareDax { restoring } => if restoring {
                    FsActivation::LoadState
                } else {
                    FsActivation::Active
                },
                FsActivation::LoadState => {
                    self.vhost_user.mark_activated();
                    FsActivation::Active
                },
                FsActivation::Active => FsActivation::Active,
            },
        )
    }

    /// The queue whose position is to be asked for next when the device is saved, once
    /// those of `taken` queues are there.
    pub fn next_to_save(&self, taken: usize) -> (res: Option<usize>)
        ensures
            res == if taken < self.queue_configs@.len() {
                Some(taken)
            } else {
                None
            },
    {
        if taken < self.queue_configs.len() {
            Some(taken)
        } else {
            None
        }
    }

    /// What is saved of the device, with the positions of its queues and the state of its
    /// backend.
    pub fn save_backend_state(&self, vring_bases: Vec<u16>, daemon_state: Vec<u8>) -> (res:
        VhostUserFsState)
        ensures
            res.tag == self.tag,
            res.socket_path == self.socket_path,
            res.dax_window_mib == match self.dax_window_size {
                Some(size) => Some(((size as int / 1_048_576) % 0x1_0000_0000) as u32),
                None => None,
            },
            res.acked_features == self.vhost_user.acked_features,
            res.acked_protocol_features == self.vhost_user.acked_protocol_features,
            res.vring_bases == vring_bases,
            res.daemon_state == daemon_state,
            res.config_tag@ == self.config.tag@,
            res.config_num_request_queues == self.config.num_request_queues,
    {
        let dax_window_mib: Option<u32> = match self.dax_window_size {
            Some(size) => Some(((size as u64 / 1_048_576) % 0x1_0000_0000) as u32),
            None => None,
        };
        let mut config_tag: Vec<u8> = Vec::new();
        let mut i: usize = 0;
        while i < 36
            invariant
                i <= 36,
                config_tag@ == self.config.tag@.take(i as int),
                self.config.tag@.len() == 36,
            decreases 36 - i,
        {
            config_tag.push(self.config.tag[i]);
            i += 1;
            assert(config_tag@ =~= self.config.tag@.take(i as int));
        }
        assert(config_tag@ =~= self.config.tag@);
        VhostUserFsState {
            tag: self.tag.clone(),
            socket_path: self.socket_path.clone(),
            dax_window_mib,
            acked_features: self.vhost_user.acked_features(),
            acked_protocol_features: self.vhost_user.acked_protocol_features(),
            vring_bases,
            daemon_state,
            config_tag,
            config_num_request_queues: self.config.num_request_queues,
        }
    }

    /// What is saved of the device, with the positions of its queues and the state of its
    /// backend.
    pub open spec fn saved_parts(&self, vring_bases: Seq<u16>, daemon_state: Seq<u8>) -> FsPartsView {
        (
            self.tag@,
            self.socket_path@,
            match self.dax_window_size {
                Some(size) => Some(((size as int / 1_048_576) % 0x1_0000_0000) as u32),
                None => None,
            },
            self.vhost_user.acked_features,
            self.vhost_user.acked_protocol_features,
            vring_bases,
            daemon_state,
            self.config.tag@,
            self.config.num_request_queues,
        )
    }

    /// The bytes of what is saved of the device, with the positions of its queues and the
    /// state of its backend.
    pub fn save_to_bytes(&self, vring_bases: Vec<u16>, daemon_state: Vec<u8>) -> (res: Option<
        Vec<u8>,
    >)
        ensures
            res matches Some(bytes) && bytes@ == encoded_fs(
                self.saved_parts(vring_bases@, daemon_state@),
            ),
            room_for(self.saved_parts(vring_bases@, daemon_state@)) <= MAX_SNAPSHOT_BYTES
                ==> decoded_fs(res->0@, MAX_SNAPSHOT_BYTES) == Some(
                self.saved_parts(vring_bases@, daemon_state@),
            ),
    {
        encode_parts(self.save_backend_state(vring_bases, daemon_state).into_parts())
    }

    /// Takes over the state in saved bytes.
    pub fn restore_from_bytes(&mut self, data: &[u8])
        ensures
            restores(*old(self), *final(self), data@),
    {
        let state: Option<VhostUserFsState> = match decode_parts::<MAX_SNAPSHOT_BYTES>(data) {
            Some(parts) => Some(VhostUserFsState::from_parts(parts)),
            None => None,
        };
        self.restore_backend_state(state);
    }

    /// Takes over a saved state: the tag and the configuration at once, the rest when the
    /// device is activated, for which it becomes inactive. The socket path is not taken
    /// over. Where nothing could be read back, nothing happens.
    pub fn restore_backend_state(&mut self, state: Option<VhostUserFsState>)
        ensures
            match state {
                Some(saved) => {
                    let config = final(self).config;
                    &&& config.tag@ == laid_over(byte_order::zeros(36), saved.config_tag@)
                    &&& config.num_request_queues == saved.config_num_request_queues
                    &&& *final(self) == (VhostUserFs {
                        tag: saved.tag,
                        config,
                        vhost_user: VhostUserDevice { activated: false, ..old(self).vhost_user },
                        pending_restore_state: Some(saved),
                        ..*old(self)
                    })
                },
                None => *final(self) == *old(self),
            },
    {
        match state {
            Some(saved) => {
                self.tag = saved.tag.clone();
                let mut config = VirtioFsConfig {
                    tag: [0; 36],
                    num_request_queues: saved.config_num_request_queues,
                };
                assert(config.tag@ =~= byte_order::zeros(36));
                config.set_tag(saved.config_tag.as_slice());
                self.config = config;
                self.vhost_user.mark_inactive();
                self.pending_restore_state = Some(saved);
            },
            None => {},
        }
    }
}

/// What a device saves it takes over again, unless it is longer than what is read back: after a
/// restore the tag and the configuration are those of the device that was saved, and the next
/// activation goes on from the positions, the features and the state of the backend that were
/// saved.
pub proof fn restore_gives_back_what_was_saved(
    saved: VhostUserFs,
    vring_bases: Seq<u16>,
    daemon_state: Seq<u8>,
    data: Seq<u8>,
    before: VhostUserFs,
    after: VhostUserFs,
)
    requires
        restores(before, after, data),
    ensures
        decoded_fs(data, MAX_SNAPSHOT_BYTES) == Some(saved.saved_parts(vring_bases, daemon_state))
            ==> {
            &&& after.tag@ == saved.tag@
            &&& after.config.bytes() == saved.config.bytes()
            &&& after.socket_path == before.socket_path
            &&& !after.vhost_user.activated
            &&& after.pending_restore_state matches Some(state)
            &&& state.vring_bases@ == vring_bases
            &&& state.daemon_state@ == daemon_state
            &&& state.acked_features == saved.vhost_user.acked_features
            &&& state.acked_protocol_features == saved.vhost_user.acked_protocol_features
        },
{
    if decoded_fs(data, MAX_SNAPSHOT_BYTES) == Some(saved.saved_parts(vring_bases, daemon_state)) {
        assert(after.config.tag@ =~= saved.config.tag@);
    }
}

/// The configuration space holds the 36 bytes of the tag, and behind them the number of request
/// queues, least byte first. A tag is laid over it byte by byte.
pub proof fn tags_come_before_the_queues(
    config: VirtioFsConfig,
    under: Seq<u8>,
    over: Seq<u8>,
    i: int,
)
    ensures
        ({
            let b = config.bytes();
            &&& b.len() == 40
            &&& 0 <= i < 36 ==> b[i] == config.tag@[i]
            &&& b[36] + 256 * b[37] + 65536 * b[38] + 16777216 * b[39]
                == config.num_request_queues
        }),
        laid_over(under, over).len() == under.len(),
        0 <= i < over.len() && i < under.len() ==> laid_over(under, over)[i] == over[i],
        over.len() <= i < under.len() ==> laid_over(under, over)[i] == under[i],
{
    byte_order::bytes_are_digits(0, config.num_request_queues);
}

/// A new device has one queue more than request queues, each of 1024 entries and empty, and a
/// window of as many megabytes as asked for.
pub proof fn new_devices_have_a_queue_more(
    fs: VhostUserFs,
    config: VirtioFsConfig,
    dax_window_mib: Option<u32>,
    i: int,
)
    requires
        fresh(fs, config, dax_window_mib),
        window_fits(dax_window_mib),
    ensures
        fs.config == config,
        fs.queues@.len() == config.num_request_queues + 1,
        fs.queue_configs@.len() == config.num_request_queues + 1,
        0 <= i <= config.num_request_queues ==> {
            &&& fs.queue_configs@[i].size == 1024
            &&& fs.queues@[i].max_size == 1024
            &&& fs.queues@[i].next_avail == 0 && fs.queues@[i].next_used == 0
            &&& !fs.queues@[i].ready
        },
        dax_window_mib is None ==> fs.dax_window_size is None,
        dax_window_mib matches Some(mib) ==> (fs.dax_window_size matches Some(size) && size == mib
            * 1_048_576),
        fs.shm_region is None && fs.dax_window_fd is None && fs.pending_restore_state is None,
        fs.dax() is None,
{
}

/// A window of memory is shared exactly if both its file and its place are known: the file from
/// its beginning, at that place of the guest and of this process, and all of it.
pub proof fn windows_are_shared_whole(fs: VhostUserFs)
    ensures
        fs.dax() is Some <==> fs.dax_window_fd is Some && fs.shm_region is Some,
        fs.dax() matches Some(dax) ==> {
            &&& Some(dax.mmap_handle) == fs.dax_window_fd
            &&& dax.mmap_offset == 0
            &&& dax.guest_phys_addr == fs.shm_region->0.guest_addr
            &&& dax.userspace_addr == fs.shm_region->0.host_addr
            &&& dax.memory_size == fs.shm_region->0.size
        },
{
}

/// A device that is restored connects, negotiates again, sets up its rings, shares its window if
/// there is one, and loads what was saved, in this order; a new one sets up its rings and shares
/// its window if there is one. A device is active only when the last of this has succeeded.
pub proof fn activations_take_their_course(fs: VhostUserFs)
    ensures
        ({
            let a = fs.behind(FsActivation::Connect);
            let b = fs.behind(a);
            let c = fs.behind(b);
            let d = fs.behind(c);
            &&& a == FsActivation::Reconnect && b == FsActivation::Rings
            &&& fs.dax() is None ==> c == FsActivation::LoadState && d == FsActivation::Active
            &&& fs.dax() is Some ==> c == (FsActivation::ShareDax { restoring: true }) && d
                == FsActivation::LoadState && fs.behind(d) == FsActivation::Active
        }),
        fs.dax() is None ==> fs.behind(FsActivation::Start) == FsActivation::Active,
        fs.dax() is Some ==> {
            let a = fs.behind(FsActivation::Start);
            a == (FsActivation::ShareDax { restoring: false }) && fs.behind(a)
                == FsActivation::Active
        },
        fs.active_after(FsActivation::Start, true),
        fs.active_after(FsActivation::LoadState, true),
        !fs.active_after(FsActivation::LoadState, false),
        !fs.vhost_user.activated ==> {
            &&& !fs.active_after(FsActivation::Start, false)
            &&& forall|done: bool|
                !(#[trigger] fs.active_after(FsActivation::Connect, done)) && !fs.active_after(
                    FsActivation::Reconnect,
                    done,
                ) && !fs.active_after(FsActivation::Rings, done)
        },
        forall|restoring: bool|
            !(#[trigger] fs.active_after(FsActivation::ShareDax { restoring }, false)) && (
            fs.active_after(FsActivation::ShareDax { restoring }, true)
                == fs.vhost_user.activated),
{
}

/// What is saved is what the device has: each part of it stands for the part of that name.
pub proof fn what_is_saved_is_what_there_is(
    fs: VhostUserFs,
    bases: Seq<u16>,
    state: Seq<u8>,
    kept: VhostUserFsState,
)
    ensures
        ({
            let s = fs.saved_parts(bases, state);
            &&& s.0 == fs.tag@ && s.1 == fs.socket_path@
            &&& s.3 == fs.vhost_user.acked_features
            &&& s.4 == fs.vhost_user.acked_protocol_features
            &&& s.5 == bases && s.6 == state
            &&& s.7 == fs.config.tag@ && s.8 == fs.config.num_request_queues
            &&& fs.dax_window_size is None ==> s.2 is None
            &&& fs.dax_window_size matches Some(size) ==> s.2 is Some && (size < 0x1_0000_0000
                * 1_048_576 ==> s.2->0 * 1_048_576 <= size < (s.2->0 + 1) * 1_048_576)
        }),
        ({
            let v = parts_view(kept.parts());
            &&& v.0 == kept.tag@ && v.1 == kept.socket_path@ && v.2 == kept.dax_window_mib
            &&& v.3 == kept.acked_features && v.4 == kept.acked_protocol_features
            &&& v.5 == kept.vring_bases@ && v.6 == kept.daemon_state@
            &&& v.7 == kept.config_tag@ && v.8 == kept.config_num_request_queues
        }),
{
}

/// A device that is restored takes over the tag and the configuration that were saved, is not
/// active, and keeps the rest; bytes that hold nothing change nothing.
pub proof fn restored_devices_take_over_what_was_saved(
    before: VhostUserFs,
    after: VhostUserFs,
    data: Seq<u8>,
    i: int,
)
    requires
        restores(before, after, data),
    ensures
        decoded_fs(data, 8192) is None ==> after == before,
        decoded_fs(data, 8192) matches Some(saved) ==> {
            &&& after.tag@ == saved.0
            &&& 0 <= i < 36 && i < saved.7.len() ==> after.config.tag@[i] == saved.7[i]
            &&& saved.7.len() <= i < 36 ==> after.config.tag@[i] == 0
            &&& after.config.num_request_queues == saved.8
            &&& !after.vhost_user.activated
            &&& after.vhost_user.acked_features == before.vhost_user.acked_features
            &&& after.pending_restore_state is Some
            &&& parts_view(after.pending_restore_state->0.parts()) == saved
            &&& after.queues == before.queues && after.socket_path == before.socket_path
            &&& after.shm_region == before.shm_region
            &&& after.dax_window_fd == before.dax_window_fd
        },
{
}

} // verus!
