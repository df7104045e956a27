//! The part that all vhost-user devices share: what is said to the backend, and when.
use vstd::prelude::*;

use crate::byte_order;
use crate::guest_memory::{GuestAddress, GuestMemory, HostRegion};
use crate::queue;
use crate::queue::Queue;
use crate::virtio_device;
use crate::virtio_device::{BadActivate, QueueConfig};

use vhost::vhost_user::VhostUserProtocolFeatures;

verus! {

/// The feature bit by which a backend says that it has protocol features. It is not shown
/// to the guest.
pub const VHOST_USER_F_PROTOCOL_FEATURES: u64 = 0x4000_0000;

/// Protocol feature: more than one queue.
pub const PROTOCOL_MQ: u64 = 0x1;

/// Protocol feature: reads of the configuration space.
pub const PROTOCOL_CONFIG: u64 = 0x200;

/// Protocol feature: memory regions that are added one by one.
pub const PROTOCOL_CONFIGURE_MEM_SLOTS: u64 = 0x8000;

/// Protocol feature: transfer of the backend's state.
pub const PROTOCOL_DEVICE_STATE: u64 = 0x8_0000;

/// The protocol features that are used where the backend has them.
pub const WANTED_PROTOCOL_FEATURES: u64 = 0x8_8201;

/// The size of a queue whose size nobody gave.
pub const DEFAULT_QUEUE_SIZE: u16 = 256;

/// Why a request to a vhost-user device failed.
#[derive(Clone, Copy, Debug, PartialEq, Eq, Structural)]
pub enum VhostError {
    /// The backend has no protocol features and no queue count was given.
    NoQueueCount,
    MemSlotsNotNegotiated,
    DeviceStateNotNegotiated,
    /// The backend answered with a descriptor of its own.
    ReplacementFd,
    TagTooLong,
    InvalidConfig,
    /// The backend's configuration has only so many bytes.
    ShortConfig { got: usize },
    /// No region holds the guest address.
    Unmapped { gpa: u64 },
    /// The exchange with the backend failed.
    Backend,
}

/// The kinds of errors.
#[derive(Clone, Copy, Debug, PartialEq, Eq, Structural)]
pub enum VhostErrorKind {
    InvalidInput,
    InvalidData,
    Other,
}

impl VhostError {
    pub fn kind(&self) -> (res: VhostErrorKind)
        ensures
            res == match *self {
                VhostError::InvalidConfig => VhostErrorKind::InvalidData,
                VhostError::ShortConfig { .. } => VhostErrorKind::InvalidData,
                VhostError::ReplacementFd => VhostErrorKind::Other,
                VhostError::Backend => VhostErrorKind::Other,
                _ => VhostErrorKind::InvalidInput,
            },
    {
        match *self {
            VhostError::InvalidConfig => VhostErrorKind::InvalidData,
            VhostError::ShortConfig { .. } => VhostErrorKind::InvalidData,
            VhostError::ReplacementFd => VhostErrorKind::Other,
            VhostError::Backend => VhostErrorKind::Other,
            _ => VhostErrorKind::InvalidInput,
        }
    }
}

/// Where a ring is, in addresses of this process.
#[derive(Clone, Copy, Debug, PartialEq, Eq, Structural)]
pub struct VringConfig {
    pub queue_max_size: u16,
    pub queue_size: u16,
    pub desc_table_addr: u64,
    pub used_ring_addr: u64,
    pub avail_ring_addr: u64,
}

/// A request to the backend.
#[derive(Clone, Copy, Debug, PartialEq, Eq, Structural)]
pub enum Command {
    GetFeatures,
    SetFeatures { bits: u64 },
    GetProtocolFeatures,
    SetProtocolFeatures { bits: u64 },
    GetQueueNum,
    SetOwner,
    /// Hand over the shared memory regions of the plan.
    SetMemTable,
    SetVringNum { index: usize, size: u16 },
    SetVringBase { index: usize, base: u16 },
    SetVringAddr { index: usize, config: VringConfig },
    SetVringKick { index: usize },
    SetVringCall { index: usize },
    SetVringEnable { index: usize, enable: bool },
}

/// The backend's answer to a request. Where a request asks for nothing, the value is
/// ignored.
#[derive(Clone, Copy, Debug, PartialEq, Eq, Structural)]
pub enum Reply {
    Value { value: u64 },
    Failed,
}

/// Whether all bits of `feature` are in `bits`.
pub open spec fn has(bits: u64, feature: u64) -> bool {
    bits & feature == feature
}

/// Calls `VhostUserProtocolFeatures::from_bits_truncate`: the bits that stand for a known
/// protocol feature, which are the lowest 23, are kept and all others are cleared.
#[verifier::external_body]
fn known_protocol_features(bits: u64) -> (res: u64)
    ensures
        res == bits & 0x7f_ffff,
{
    VhostUserProtocolFeatures::from_bits_truncate(bits).bits()
}

/// A device that a vhost-user backend serves.
pub struct VhostUserDevice {
    pub device_type: u32,
    pub device_name: String,
    pub queue_configs: Vec<QueueConfig>,
    /// The backend's features that the guest sees.
    pub avail_features: u64,
    /// The backend's features that the guest does not see.
    pub backend_features: u64,
    pub acked_features: u64,
    pub acked_protocol_features: u64,
    pub device_state_supported: bool,
    pub activated: bool,
}

/// How far a negotiation has come: which answer it waits for.
#[derive(Clone, Copy, Debug, PartialEq, Eq, Structural)]
pub enum Stage {
    /// To `GetFeatures`.
    Features,
    /// To `SetFeatures`.
    Enable,
    /// To `GetProtocolFeatures`.
    Offered,
    /// To `SetProtocolFeatures`.
    Select,
    /// To `GetQueueNum`.
    Count,
}

/// A negotiation with a backend that makes a device.
pub struct Negotiation {
    pub device_type: u32,
    pub device_name: String,
    /// The number of queues; zero leaves it to the backend.
    pub num_queues: u16,
    pub queue_sizes: Vec<u16>,
    /// The backend's features.
    pub features: u64,
    /// The protocol features in use.
    pub protocol: u64,
    pub stage: Stage,
}

/// What a negotiation does next.
pub enum Negotiated {
    Send { command: Command, next: Negotiation },
    Ready { device: VhostUserDevice },
    Refused { error: VhostError },
}

/// The size of queue `i`: the given one; the last one given where there are too few; a
/// default where there is none.
pub open spec fn queue_size_at(sizes: Seq<u16>, i: int) -> u16 {
    if 0 <= i < sizes.len() {
        sizes[i]
    } else if sizes.len() > 0 {
        sizes.last()
    } else {
        DEFAULT_QUEUE_SIZE
    }
}

/// Whether `device` is what `neg` makes with `count` queues.
pub open spec fn built(device: VhostUserDevice, neg: Negotiation, count: nat) -> bool {
    &&& device.device_type == neg.device_type
    &&& device.device_name@ == neg.device_name@
    &&& device.queue_configs@.len() == count
    &&& forall|i: int|
        0 <= i < count ==> (#[trigger] device.queue_configs@[i]).size == queue_size_at(
            neg.queue_sizes@,
            i,
        )
    &&& device.avail_features == neg.features & !VHOST_USER_F_PROTOCOL_FEATURES
    &&& device.backend_features == neg.features & VHOST_USER_F_PROTOCOL_FEATURES
    &&& device.acked_features == 0
    &&& device.acked_protocol_features == neg.protocol
    &&& device.device_state_supported == has(neg.protocol, PROTOCOL_DEVICE_STATE)
    &&& !device.activated
}

/// Whether `to` is how `neg` goes on once the features are settled: the backend is asked
/// for its queue count where that decides, or where it has to hear that there are several.
pub open spec fn settles(neg: Negotiation, to: Negotiated) -> bool {
    if neg.num_queues == 0 && neg.features & VHOST_USER_F_PROTOCOL_FEATURES == 0 {
        to == Negotiated::Refused { error: VhostError::NoQueueCount }
    } else if neg.num_queues == 0 || has(neg.protocol, PROTOCOL_MQ) {
        to == (Negotiated::Send {
            command: Command::GetQueueNum,
            next: Negotiation { stage: Stage::Count, ..neg },
        })
    } else {
        to matches Negotiated::Ready { device } && built(device, neg, neg.num_queues as nat)
    }
}

/// Whether `to` is how `neg` goes on after `reply`.
pub open spec fn negotiates(neg: Negotiation, reply: Reply, to: Negotiated) -> bool {
    match reply {
        Reply::Failed => to == Negotiated::Refused { error: VhostError::Backend },
        Reply::Value { value } => match neg.stage {
            Stage::Features => {
                let bit = value & VHOST_USER_F_PROTOCOL_FEATURES;
                if bit != 0 {
                    to == (Negotiated::Send {
                        command: Command::SetFeatures { bits: bit },
                        next: Negotiation { features: value, stage: Stage::Enable, ..neg },
                    })
                } else {
                    settles(Negotiation { features: value, ..neg }, to)
                }
            },
            Stage::Enable => to == (Negotiated::Send {
                command: Command::GetProtocolFeatures,
                next: Negotiation { stage: Stage::Offered, ..neg },
            }),
            Stage::Offered => {
                let bits = value & WANTED_PROTOCOL_FEATURES;
                to == (Negotiated::Send {
                    command: Command::SetProtocolFeatures { bits },
                    next: Negotiation { protocol: bits, stage: Stage::Select, ..neg },
                })
            },
            Stage::Select => settles(neg, to),
            Stage::Count => {
                let count = if neg.num_queues == 0 {
                    (value as usize) as nat
                } else {
                    neg.num_queues as nat
                };
                to matches Negotiated::Ready { device } && built(device, neg, count)
            },
        },
    }
}

impl Negotiation {
    /// Starts a negotiation; the first request is `GetFeatures`.
    pub fn begin(
        device_type: u32,
        device_name: String,
        num_queues: u16,
        queue_sizes: Vec<u16>,
    ) -> (res: (Negotiation, Command))
        ensures
            res.0 == (Negotiation {
                device_type,
                device_name,
                num_queues,
                queue_sizes,
                features: 0,
                protocol: 0,
                stage: Stage::Features,
            }),
            res.1 == Command::GetFeatures,
    {
        (
            Negotiation {
                device_type,
                device_name,
                num_queues,
                queue_sizes,
                features: 0,
                protocol: 0,
                stage: Stage::Features,
            },
            Command::GetFeatures,
        )
    }

    /// The device with `count` queues.
    fn build(self, count: usize) -> (res: VhostUserDevice)
        ensures
            built(res, self, count as nat),
    {
        let default_size: u16 = if self.queue_sizes.len() > 0 {
            self.queue_sizes[self.queue_sizes.len() - 1]
        } else {
            DEFAULT_QUEUE_SIZE
        };
        let mut queue_configs: Vec<QueueConfig> = Vec::new();
        let mut i: usize = 0;
        while i < count
            invariant
                i <= count,
                queue_configs@.len() == i,
                default_size == if self.queue_sizes@.len() > 0 {
                    self.queue_sizes@.last()
                } else {
                    DEFAULT_QUEUE_SIZE
                },
                forall|j: int|
                    0 <= j < i ==> (#[trigger] queue_configs@[j]).size == queue_size_at(
                        self.queue_sizes@,
                        j,
                    ),
            decreases count - i,
        {
            let size: u16 = if i < self.queue_sizes.len() {
                self.queue_sizes[i]
            } else {
                default_size
            };
            queue_configs.push(QueueConfig::new(size));
            i += 1;
        }
        VhostUserDevice {
            device_type: self.device_type,
            device_name: self.device_name,
            queue_configs,
            avail_features: self.features & !VHOST_USER_F_PROTOCOL_FEATURES,
            backend_features: self.features & VHOST_USER_F_PROTOCOL_FEATURES,
            acked_features: 0,
            acked_protocol_features: self.protocol,
            device_state_supported: self.protocol & PROTOCOL_DEVICE_STATE
                == PROTOCOL_DEVICE_STATE,
            activated: false,
        }
    }

    /// Goes on once the features are settled.
    fn settle(self) -> (res: Negotiated)
        ensures
            settles(self, res),
    {
        if self.num_queues == 0 && self.features & VHOST_USER_F_PROTOCOL_FEATURES == 0 {
            Negotiated::Refused { error: VhostError::NoQueueCount }
        } else if self.num_queues == 0 || self.protocol & PROTOCOL_MQ == PROTOCOL_MQ {
            Negotiated::Send {
                command: Command::GetQueueNum,
                next: Negotiation { stage: Stage::Count, ..self },
            }
        } else {
            let count: usize = self.num_queues as usize;
            Negotiated::Ready { device: self.build(count) }
        }
    }

    /// Takes the backend's answer to the last request and gives the next one, or the device.
    pub fn step(self, reply: Reply) -> (res: Negotiated)
        ensures
            negotiates(self, reply, res),
    {
        let value: u64 = match reply {
            Reply::Failed => {
                return Negotiated::Refused { error: VhostError::Backend };
            },
            Reply::Value { value } => value,
        };
        match self.stage {
            Stage::Features => {
                let bits: u64 = value & VHOST_USER_F_PROTOCOL_FEATURES;
                if bits != 0 {
                    Negotiated::Send {
                        command: Command::SetFeatures { bits },
                        next: Negotiation { features: value, stage: Stage::Enable, ..self },
                    }
                } else {
                    (Negotiation { features: value, ..self }).settle()
                }
            },
            Stage::Enable => Negotiated::Send {
                command: Command::GetProtocolFeatures,
                next: Negotiation { stage: Stage::Offered, ..self },
            },
            Stage::Offered => {
                let bits: u64 = value & WANTED_PROTOCOL_FEATURES;
                Negotiated::Send {
                    command: Command::SetProtocolFeatures { bits },
                    next: Negotiation { protocol: bits, stage: Stage::Select, ..self },
                }
            },
            Stage::Select => self.settle(),
            Stage::Count => {
                let count: usize = if self.num_queues == 0 {
                    value as usize
                } else {
                    self.num_queues as usize
                };
                Negotiated::Ready { device: self.build(count) }
            },
        }
    }
}

/// How many answers a negotiation can still wait for.
pub open spec fn answers_left(stage: Stage) -> nat {
    match stage {
        Stage::Features => 5,
        Stage::Enable => 4,
        Stage::Offered => 3,
        Stage::Select => 2,
        Stage::Count => 1,
    }
}

/// A negotiation ends after five answers at the most, whatever they are.
pub proof fn negotiation_ends(neg: Negotiation, reply: Reply, to: Negotiated)
    requires
        negotiates(neg, reply, to),
    ensures
        to matches Negotiated::Send { next, .. } ==> answers_left(next.stage) < answers_left(
            neg.stage,
        ),
        neg.stage == Stage::Count ==> !(to is Send),
{
}

/// The guest sees every feature of the backend but the bit for protocol features, and the
/// two parts make up all features.
pub proof fn features_are_split(features: u64)
    ensures
        (features & !VHOST_USER_F_PROTOCOL_FEATURES) & VHOST_USER_F_PROTOCOL_FEATURES == 0,
        (features & !VHOST_USER_F_PROTOCOL_FEATURES) | (features & VHOST_USER_F_PROTOCOL_FEATURES)
            == features,
{
    assert((features & !0x4000_0000u64) & 0x4000_0000u64 == 0 && (features & !0x4000_0000u64) | (
    features & 0x4000_0000u64) == features) by (bit_vector);
}

/// No protocol feature is used that the backend did not offer, and none that is unknown
/// here; of what a feature stands for, all is used or nothing.
pub proof fn protocol_features_were_offered(offered: u64)
    ensures
        has(offered, offered & WANTED_PROTOCOL_FEATURES),
        has(WANTED_PROTOCOL_FEATURES, offered & WANTED_PROTOCOL_FEATURES),
        has(offered & WANTED_PROTOCOL_FEATURES, PROTOCOL_MQ) == has(offered, PROTOCOL_MQ),
        has(offered & WANTED_PROTOCOL_FEATURES, PROTOCOL_CONFIG) == has(offered, PROTOCOL_CONFIG),
        has(offered & WANTED_PROTOCOL_FEATURES, PROTOCOL_CONFIGURE_MEM_SLOTS) == has(
            offered,
            PROTOCOL_CONFIGURE_MEM_SLOTS,
        ),
        has(offered & WANTED_PROTOCOL_FEATURES, PROTOCOL_DEVICE_STATE) == has(
            offered,
            PROTOCOL_DEVICE_STATE,
        ),
{
    let used = offered & 0x8_8201u64;
    assert(offered & used == used && 0x8_8201u64 & used == used && (used & 0x1u64 == 0x1u64) == (
    offered & 0x1u64 == 0x1u64) && (used & 0x200u64 == 0x200u64) == (offered & 0x200u64
        == 0x200u64) && (used & 0x8000u64 == 0x8000u64) == (offered & 0x8000u64 == 0x8000u64) && (
    used & 0x8_0000u64 == 0x8_0000u64) == (offered & 0x8_0000u64 == 0x8_0000u64)) by (bit_vector)
        requires
            used == offered & 0x8_8201u64,
    ;
}

/// How far a new connection has come when a saved device is restored.
#[derive(Clone, Copy, Debug, PartialEq, Eq, Structural)]
pub struct Reconnect {
    /// The protocol features that were in use when the device was saved.
    pub saved_protocol: u64,
    /// The backend's features.
    pub features: u64,
    /// The protocol features in use.
    pub protocol: u64,
    /// Which answer is awaited.
    pub stage: Stage,
}

/// What a new connection does next.
#[derive(Clone, Copy, Debug, PartialEq, Eq, Structural)]
pub enum Reconnected {
    Send { command: Command, next: Reconnect },
    Ready,
    Failed,
}

/// The device's part of a restored connection: the features of the backend, split.
pub open spec fn refeatured(device: VhostUserDevice, features: u64) -> VhostUserDevice {
    VhostUserDevice {
        avail_features: features & !VHOST_USER_F_PROTOCOL_FEATURES,
        backend_features: features & VHOST_USER_F_PROTOCOL_FEATURES,
        ..device
    }
}

/// The device with the protocol features of a restored connection.
pub open spec fn reprotocoled(device: VhostUserDevice, protocol: u64) -> VhostUserDevice {
    VhostUserDevice {
        acked_protocol_features: protocol,
        device_state_supported: has(protocol, PROTOCOL_DEVICE_STATE),
        ..device
    }
}

/// What a new connection does after `reply`, and the device then. Of the saved protocol
/// features those are kept that the backend has now; the device changes only at the end.
pub open spec fn reconnects(device: VhostUserDevice, state: Reconnect, reply: Reply) -> (
    VhostUserDevice,
    Reconnected,
) {
    match reply {
        Reply::Failed => (device, Reconnected::Failed),
        Reply::Value { value } => match state.stage {
            Stage::Features => {
                let bits = value & VHOST_USER_F_PROTOCOL_FEATURES;
                if bits != 0 {
                    (
                        device,
                        Reconnected::Send {
                            command: Command::SetFeatures { bits },
                            next: Reconnect { features: value, stage: Stage::Enable, ..state },
                        },
                    )
                } else {
                    (refeatured(device, value), Reconnected::Ready)
                }
            },
            Stage::Enable => (
                device,
                Reconnected::Send {
                    command: Command::GetProtocolFeatures,
                    next: Reconnect { stage: Stage::Offered, ..state },
                },
            ),
            Stage::Offered => {
                let bits = (state.saved_protocol & 0x7f_ffff) & value;
                (
                    device,
                    Reconnected::Send {
                        command: Command::SetProtocolFeatures { bits },
                        next: Reconnect { protocol: bits, stage: Stage::Select, ..state },
                    },
                )
            },
            _ => (
                refeatured(reprotocoled(device, state.protocol), state.features),
                Reconnected::Ready,
            ),
        },
    }
}

/// What is asked of the backend to start the device.
pub struct Plan {
    /// The regions that are shared with the backend.
    pub shared: Vec<HostRegion>,
    /// The requests in their order.
    pub commands: Vec<Command>,
    /// Whether the device is ready once all requests have succeeded. If not, a ring lies
    /// outside of guest memory.
    pub complete: bool,
}

/// Whether the addresses in a region stay in the address spaces of guest and host.
pub open spec fn sound_region(region: HostRegion) -> bool {
    region.start + region.size <= u64::MAX && region.host + region.size <= u64::MAX
}

/// Whether all regions are sound.
pub open spec fn sound_regions(regions: Seq<HostRegion>) -> bool {
    forall|i: int| 0 <= i < regions.len() ==> sound_region(#[trigger] regions[i])
}

/// The host address of the guest address `gpa` in the first of the regions from `i` on that
/// holds it.
pub open spec fn host_address(regions: Seq<HostRegion>, gpa: u64, i: int) -> Option<u64>
    decreases regions.len() - i,
{
    if i < 0 || i >= regions.len() {
        None
    } else if regions[i].start <= gpa < regions[i].start + regions[i].size {
        Some((regions[i].host + (gpa - regions[i].start)) as u64)
    } else {
        host_address(regions, gpa, i + 1)
    }
}

/// The first `n` regions without those that no file stands behind.
pub open spec fn file_backed(regions: Seq<HostRegion>, n: int) -> Seq<HostRegion>
    decreases n,
{
    if n <= 0 {
        Seq::empty()
    } else if regions[n - 1].file_backed {
        file_backed(regions, n - 1).push(regions[n - 1])
    } else {
        file_backed(regions, n - 1)
    }
}

/// Where the rings of `queue` are, if all are in memory.
pub open spec fn vring_config(regions: Seq<HostRegion>, queue: Queue) -> Option<VringConfig> {
    match (
        host_address(regions, queue.desc_table.0, 0),
        host_address(regions, queue.avail_ring.0, 0),
        host_address(regions, queue.used_ring.0, 0),
    ) {
        (Some(desc_table_addr), Some(avail_ring_addr), Some(used_ring_addr)) => Some(
            VringConfig {
                queue_max_size: queue.max_size,
                queue_size: queue.entries(),
                desc_table_addr,
                used_ring_addr,
                avail_ring_addr,
            },
        ),
        _ => None,
    }
}

/// Where queue `index` starts: where it was saved, else at zero.
pub open spec fn base_of(bases: Option<Seq<u16>>, index: int) -> u16 {
    match bases {
        Some(saved) => if 0 <= index < saved.len() {
            saved[index]
        } else {
            0
        },
        None => 0,
    }
}

/// The requests that set up queue `index`. A ring has to be enabled only where protocol
/// features are in use; otherwise it is from the start.
pub open spec fn vring_commands(
    regions: Seq<HostRegion>,
    queue: Queue,
    index: int,
    base: u16,
    enable: bool,
) -> Seq<Command> {
    let index = index as usize;
    let first = seq![
        Command::SetVringNum { index, size: queue.entries() },
        Command::SetVringBase { index, base },
    ];
    match vring_config(regions, queue) {
        Some(config) => {
            let ring = first.push(Command::SetVringAddr { index, config }).push(
                Command::SetVringKick { index },
            ).push(Command::SetVringCall { index });
            if enable {
                ring.push(Command::SetVringEnable { index, enable: true })
            } else {
                ring
            }
        },
        None => first,
    }
}

/// The requests that set up the queues from `index` on, and whether all can be set up. The
/// first queue that cannot ends them.
pub open spec fn queue_commands(
    regions: Seq<HostRegion>,
    queues: Seq<Queue>,
    bases: Option<Seq<u16>>,
    enable: bool,
    index: int,
) -> (Seq<Command>, bool)
    decreases queues.len() - index,
{
    if index < 0 || index >= queues.len() {
        (Seq::empty(), true)
    } else {
        let own = vring_commands(regions, queues[index], index, base_of(bases, index), enable);
        if vring_config(regions, queues[index]) is None {
            (own, false)
        } else {
            let rest = queue_commands(regions, queues, bases, enable, index + 1);
            (own + rest.0, rest.1)
        }
    }
}

/// Whether `plan` starts a device whose backend gets the features `bits`.
pub open spec fn starts(
    plan: Plan,
    bits: u64,
    regions: Seq<HostRegion>,
    queues: Seq<Queue>,
    bases: Option<Seq<u16>>,
) -> bool {
    let (rings, complete) = queue_commands(
        regions,
        queues,
        bases,
        bits & VHOST_USER_F_PROTOCOL_FEATURES != 0,
        0,
    );
    &&& plan.shared@ == file_backed(regions, regions.len() as int)
    &&& plan.commands@ == seq![
        Command::SetOwner,
        Command::SetMemTable,
        Command::SetFeatures { bits },
    ] + rings
    &&& plan.complete == complete
}

/// Translates a guest physical address to an address of this process.
pub fn gpa_to_vmm_va(regions: &Vec<HostRegion>, gpa: u64) -> (res: Result<u64, VhostError>)
    requires
        sound_regions(regions@),
    ensures
        res == match host_address(regions@, gpa, 0) {
            Some(addr) => Ok::<u64, VhostError>(addr),
            None => Err(VhostError::Unmapped { gpa }),
        },
{
    let mut i: usize = 0;
    while i < regions.len()
        invariant
            i <= regions@.len(),
            sound_regions(regions@),
            host_address(regions@, gpa, 0) == host_address(regions@, gpa, i as int),
        decreases regions@.len() - i,
    {
        let region = regions[i];
        assert(sound_region(regions@[i as int]));
        if gpa >= region.start && gpa < region.start + region.size {
            return Ok(region.host + (gpa - region.start));
        }
        i += 1;
    }
    Err(VhostError::Unmapped { gpa })
}

/// The base of queue `index`.
fn vring_base(bases: Option<&Vec<u16>>, index: usize) -> (res: u16)
    ensures
        res == base_of(
            match bases {
                Some(saved) => Some(saved@),
                None => None,
            },
            index as int,
        ),
{
    match bases {
        Some(saved) => if index < saved.len() {
            saved[index]
        } else {
            0
        },
        None => 0,
    }
}

/// Finds the rings of `queue` in memory.
fn find_rings(regions: &Vec<HostRegion>, queue: &Queue) -> (res: Option<VringConfig>)
    requires
        sound_regions(regions@),
    ensures
        res == vring_config(regions@, *queue),
{
    let desc_table = gpa_to_vmm_va(regions, queue.desc_table.0);
    let avail_ring = gpa_to_vmm_va(regions, queue.avail_ring.0);
    let used_ring = gpa_to_vmm_va(regions, queue.used_ring.0);
    match (desc_table, avail_ring, used_ring) {
        (Ok(desc_table_addr), Ok(avail_ring_addr), Ok(used_ring_addr)) => Some(
            VringConfig {
                queue_max_size: queue.get_max_size(),
                queue_size: queue.actual_size(),
                desc_table_addr,
                used_ring_addr,
                avail_ring_addr,
            },
        ),
        _ => None,
    }
}

/// The saved bases as a sequence.
pub open spec fn saved_bases(bases: Option<&Vec<u16>>) -> Option<Seq<u16>> {
    match bases {
        Some(saved) => Some(saved@),
        None => None,
    }
}

/// Whether `regions` lists the regions `bounds` of a guest memory, of which those marked in
/// `backed` have a file behind them.
pub open spec fn lists(
    regions: Seq<HostRegion>,
    bounds: Seq<(u64, u64)>,
    backed: Seq<bool>,
) -> bool {
    &&& regions.len() == bounds.len()
    &&& forall|i: int|
        0 <= i < regions.len() ==> (#[trigger] regions[i]).start == bounds[i].0 && regions[i].size
            == bounds[i].1 && regions[i].file_backed == backed[i]
}

/// Which way the backend's state goes.
#[derive(Clone, Copy, Debug, PartialEq, Eq, Structural)]
pub enum Direction {
    /// From the backend.
    Save,
    /// To the backend.
    Load,
}

/// A transfer of the backend's state, by the step that is next.
#[derive(Clone, Copy, Debug, PartialEq, Eq, Structural)]
pub enum Transfer {
    /// Make a pipe.
    Pipe { direction: Direction },
    /// Offer the backend its end of the pipe.
    Offer { direction: Direction },
    /// Close the backend's end; read the other to the end, or write the state and close it.
    Move { direction: Direction },
    /// Ask the backend whether the transfer succeeded.
    Confirm { direction: Direction },
    Complete,
}

/// How a step of a transfer came out.
#[derive(Clone, Copy, Debug, PartialEq, Eq, Structural)]
pub enum TransferOutcome {
    Done,
    /// The backend answered the offer with a descriptor of its own.
    Replaced,
    Failed,
}

impl Transfer {
    /// Takes the outcome of the step and gives the one behind it. A descriptor of the
    /// backend's own is not supported.
    pub fn step(&self, outcome: TransferOutcome) -> (res: Result<Transfer, VhostError>)
        ensures
            res == match outcome {
                TransferOutcome::Failed => Err::<Transfer, VhostError>(VhostError::Backend),
                TransferOutcome::Replaced => Err(VhostError::ReplacementFd),
                TransferOutcome::Done => Ok(
                    match *self {
                        Transfer::Pipe { direction } => Transfer::Offer { direction },
                        Transfer::Offer { direction } => Transfer::Move { direction },
                        Transfer::Move { direction } => Transfer::Confirm { direction },
                        _ => Transfer::Complete,
                    },
                ),
            },
    {
        match outcome {
            TransferOutcome::Failed => Err(VhostError::Backend),
            TransferOutcome::Replaced => Err(VhostError::ReplacementFd),
            TransferOutcome::Done => Ok(
                match *self {
                    Transfer::Pipe { direction } => Transfer::Offer { direction },
                    Transfer::Offer { direction } => Transfer::Move { direction },
                    Transfer::Move { direction } => Transfer::Confirm { direction },
                    _ => Transfer::Complete,
                },
            ),
        }
    }
}

/// `own` at the position that `given` has in guest memory.
pub open spec fn repositioned(own: Queue, given: Queue) -> Queue {
    Queue {
        size: given.size,
        ready: given.ready,
        desc_table: given.desc_table,
        avail_ring: given.avail_ring,
        used_ring: given.used_ring,
        next_avail: given.next_avail,
        next_used: given.next_used,
        ..own
    }
}

/// The queues `own`, each at the position of the one of `given` that has its index.
pub open spec fn all_repositioned(own: Seq<Queue>, given: Seq<Queue>) -> Seq<Queue> {
    Seq::new(
        own.len(),
        |i: int|
            if i < given.len() {
                repositioned(own[i], given[i])
            } else {
                own[i]
            },
    )
}

/// Takes over the positions of the queues that the driver configured, so that they can be
/// saved.
pub fn take_positions(own: &mut Vec<Queue>, given: &Vec<Queue>)
    ensures
        final(own)@ == all_repositioned(old(own)@, given@),
{
    let ghost before = own@;
    let mut i: usize = 0;
    while i < given.len() && i < own.len()
        invariant
            i <= given@.len(),
            i <= own@.len(),
            own@.len() == before.len(),
            forall|j: int| 0 <= j < i ==> #[trigger] own@[j] == repositioned(before[j], given@[j]),
            forall|j: int| i <= j < own@.len() ==> #[trigger] own@[j] == before[j],
        decreases given@.len() - i,
    {
        let mut queue: Queue = own[i];
        let from: Queue = given[i];
        queue.size = from.size;
        queue.ready = from.ready;
        queue.desc_table = from.desc_table;
        queue.avail_ring = from.avail_ring;
        queue.used_ring = from.used_ring;
        queue.set_next_avail(from.next_avail());
        queue.set_next_used(from.next_used());
        own.set(i, queue);
        i += 1;
    }
    assert(own@ =~= all_repositioned(before, given@));
}

/// The base that is saved for a queue: the low 16 bits of the backend's answer.
pub fn saved_base(answer: u32) -> (res: u16)
    ensures
        res == answer % 0x1_0000,
{
    (answer % 0x1_0000) as u16
}

/// So many queues of one size.
pub fn same_configs(count: usize, size: u16) -> (res: Vec<QueueConfig>)
    ensures
        res@ == Seq::new(count as nat, |i: int| QueueConfig { size }),
{
    let mut configs: Vec<QueueConfig> = Vec::new();
    let mut i: usize = 0;
    while i < count
        invariant
            i <= count,
            configs@ == Seq::new(i as nat, |j: int| QueueConfig { size }),
        decreases count - i,
    {
        configs.push(QueueConfig::new(size));
        i += 1;
        assert(configs@ =~= Seq::new(i as nat, |j: int| QueueConfig { size }));
    }
    configs
}

/// So many empty queues.
pub fn empty_queues(count: usize, max_size: u16) -> (res: Vec<Queue>)
    ensures
        res@ == Seq::new(count as nat, |i: int| queue::empty_queue(max_size)),
{
    let mut queues: Vec<Queue> = Vec::new();
    let mut i: usize = 0;
    while i < count
        invariant
            i <= count,
            queues@ == Seq::new(i as nat, |j: int| queue::empty_queue(max_size)),
        decreases count - i,
    {
        queues.push(Queue::new(max_size));
        i += 1;
        assert(queues@ =~= Seq::new(i as nat, |j: int| queue::empty_queue(max_size)));
    }
    queues
}

impl VhostUserDevice {
    /// A device that no backend serves.
    pub fn unconnected(device_type: u32, device_name: String) -> (res: VhostUserDevice)
        ensures
            res.device_type == device_type,
            res.device_name@ == device_name@,
            res.queue_configs@.len() == 0,
            res.avail_features == 0,
            res.backend_features == 0,
            res.acked_features == 0,
            res.acked_protocol_features == 0,
            !res.device_state_supported,
            !res.activated,
    {
        VhostUserDevice {
            device_type,
            device_name,
            queue_configs: Vec::new(),
            avail_features: 0,
            backend_features: 0,
            acked_features: 0,
            acked_protocol_features: 0,
            device_state_supported: false,
            activated: false,
        }
    }

    /// Starts over on a new connection; the first request is `GetFeatures`.
    pub fn reconnect_for_restore(&self, saved_protocol: u64) -> (res: (Reconnect, Command))
        ensures
            res.0 == (Reconnect {
                saved_protocol,
                features: 0,
                protocol: 0,
                stage: Stage::Features,
            }),
            res.1 == Command::GetFeatures,
    {
        (
            Reconnect { saved_protocol, features: 0, protocol: 0, stage: Stage::Features },
            Command::GetFeatures,
        )
    }

    /// Takes over the features of the backend.
    fn take_features(&mut self, features: u64)
        ensures
            *final(self) == refeatured(*old(self), features),
    {
        self.avail_features = features & !VHOST_USER_F_PROTOCOL_FEATURES;
        self.backend_features = features & VHOST_USER_F_PROTOCOL_FEATURES;
    }

    /// Takes the backend's answer on a new connection and gives the next request.
    pub fn reconnect_step(&mut self, state: Reconnect, reply: Reply) -> (res: Reconnected)
        ensures
            (*final(self), res) == reconnects(*old(self), state, reply),
    {
        let value: u64 = match reply {
            Reply::Failed => {
                return Reconnected::Failed;
            },
            Reply::Value { value } => value,
        };
        match state.stage {
            Stage::Features => {
                let bits: u64 = value & VHOST_USER_F_PROTOCOL_FEATURES;
                if bits != 0 {
                    Reconnected::Send {
                        command: Command::SetFeatures { bits },
                        next: Reconnect { features: value, stage: Stage::Enable, ..state },
                    }
                } else {
                    self.take_features(value);
                    Reconnected::Ready
                }
            },
            Stage::Enable => Reconnected::Send {
                command: Command::GetProtocolFeatures,
                next: Reconnect { stage: Stage::Offered, ..state },
            },
            Stage::Offered => {
                let bits: u64 = known_protocol_features(state.saved_protocol) & value;
                Reconnected::Send {
                    command: Command::SetProtocolFeatures { bits },
                    next: Reconnect { protocol: bits, stage: Stage::Select, ..state },
                }
            },
            _ => {
                self.acked_protocol_features = state.protocol;
                self.device_state_supported = state.protocol & PROTOCOL_DEVICE_STATE
                    == PROTOCOL_DEVICE_STATE;
                self.take_features(state.features);
                Reconnected::Ready
            },
        }
    }

    /// What is asked of the backend to start the device: the shared memory, the features,
    /// and the rings of `queues`, which start where `bases` says or else at zero.
    pub fn activation_plan(
        &self,
        regions: &Vec<HostRegion>,
        queues: &Vec<Queue>,
        bases: Option<&Vec<u16>>,
    ) -> (res: Plan)
        requires
            sound_regions(regions@),
        ensures
            starts(
                res,
                self.acked_features | self.backend_features,
                regions@,
                queues@,
                saved_bases(bases),
            ),
    {
        let bits: u64 = self.acked_features | self.backend_features;
        let mut shared: Vec<HostRegion> = Vec::new();
        let mut i: usize = 0;
        while i < regions.len()
            invariant
                i <= regions@.len(),
                shared@ == file_backed(regions@, i as int),
            decreases regions@.len() - i,
        {
            if regions[i].file_backed {
                shared.push(regions[i]);
            }
            i += 1;
        }
        let enable = bits & VHOST_USER_F_PROTOCOL_FEATURES != 0;
        let ghost head = seq![
            Command::SetOwner,
            Command::SetMemTable,
            Command::SetFeatures { bits },
        ];
        let ghost all = queue_commands(regions@, queues@, saved_bases(bases), enable, 0);
        let mut commands: Vec<Command> = vec![
            Command::SetOwner,
            Command::SetMemTable,
            Command::SetFeatures { bits },
        ];
        assert(commands@ =~= head);
        let mut index: usize = 0;
        while index < queues.len()
            invariant
                index <= queues@.len(),
                sound_regions(regions@),
                shared@ == file_backed(regions@, regions@.len() as int),
                bits == self.acked_features | self.backend_features,
                enable == (bits & VHOST_USER_F_PROTOCOL_FEATURES != 0),
                head == seq![
                    Command::SetOwner,
                    Command::SetMemTable,
                    Command::SetFeatures { bits },
                ],
                all == queue_commands(regions@, queues@, saved_bases(bases), enable, 0),
                head + all.0 == commands@ + queue_commands(
                    regions@,
                    queues@,
                    saved_bases(bases),
                    enable,
                    index as int,
                ).0,
                all.1 == queue_commands(
                    regions@,
                    queues@,
                    saved_bases(bases),
                    enable,
                    index as int,
                ).1,
            decreases queues@.len() - index,
        {
            let queue: Queue = queues[index];
            let base: u16 = vring_base(bases, index);
            let config = find_rings(regions, &queue);
            let ghost before = commands@;
            let ghost own = vring_commands(regions@, queue, index as int, base, enable);
            let ghost rest = queue_commands(
                regions@,
                queues@,
                saved_bases(bases),
                enable,
                index + 1,
            );
            commands.push(Command::SetVringNum { index, size: queue.actual_size() });
            commands.push(Command::SetVringBase { index, base });
            match config {
                Some(config) => {
                    commands.push(Command::SetVringAddr { index, config });
                    commands.push(Command::SetVringKick { index });
                    commands.push(Command::SetVringCall { index });
                    if enable {
                        commands.push(Command::SetVringEnable { index, enable: true });
                    }
                },
                None => {
                    assert(commands@ =~= before + own);
                    return Plan { shared, commands, complete: false };
                },
            }
            assert(commands@ =~= before + own);
            assert(before + (own + rest.0) =~= (before + own) + rest.0);
            index += 1;
        }
        assert(commands@ + Seq::<Command>::empty() =~= commands@);
        Plan { shared, commands, complete: true }
    }

    /// The plan for a guest memory as it is mapped now; none if its regions do not fit the
    /// address spaces. Where the regions are mapped differs from run to run.
    pub fn plan_for_memory(
        &self,
        mem: &GuestMemory,
        queues: &Vec<Queue>,
        bases: Option<&Vec<u16>>,
    ) -> (res: Option<Plan>)
        ensures
            exists|regions: Seq<HostRegion>|
                {
                    &&& #[trigger] lists(regions, mem.regions(), mem.backed())
                    &&& res is Some <==> sound_regions(regions)
                    &&& res matches Some(plan) ==> starts(
                        plan,
                        self.acked_features | self.backend_features,
                        regions,
                        queues@,
                        saved_bases(bases),
                    )
                },
    {
        let regions = mem.host_regions();
        assert(lists(regions@, mem.regions(), mem.backed()));
        let mut i: usize = 0;
        while i < regions.len()
            invariant
                i <= regions@.len(),
                lists(regions@, mem.regions(), mem.backed()),
                forall|j: int| 0 <= j < i ==> sound_region(#[trigger] regions@[j]),
            decreases regions@.len() - i,
        {
            let region = regions[i];
            if region.size > u64::MAX - region.start || region.size > u64::MAX - region.host {
                assert(!sound_region(regions@[i as int]));
                return None;
            }
            i += 1;
        }
        Some(self.activation_plan(&regions, queues, bases))
    }

    /// Takes note of how the plan went.
    pub fn finish_activation(&mut self, succeeded: bool) -> (res: Result<(), BadActivate>)
        ensures
            *final(self) == (VhostUserDevice {
                activated: old(self).activated || succeeded,
                ..*old(self)
            }),
            res == if succeeded {
                Ok::<(), BadActivate>(())
            } else {
                Err(BadActivate)
            },
    {
        if succeeded {
            self.activated = true;
            Ok(())
        } else {
            Err(BadActivate)
        }
    }

    pub fn mark_inactive(&mut self)
        ensures
            *final(self) == (VhostUserDevice { activated: false, ..*old(self) }),
    {
        self.activated = false;
    }

    pub fn mark_activated(&mut self)
        ensures
            *final(self) == (VhostUserDevice { activated: true, ..*old(self) }),
    {
        self.activated = true;
    }

    /// The requests that stop the rings. None of them has to succeed.
    pub fn reset_plan(&self) -> (res: Vec<Command>)
        ensures
            res@ == Seq::new(
                self.queue_configs@.len(),
                |i: int| Command::SetVringEnable { index: i as usize, enable: false },
            ),
    {
        let mut commands: Vec<Command> = Vec::new();
        let mut index: usize = 0;
        while index < self.queue_configs.len()
            invariant
                index <= self.queue_configs@.len(),
                commands@.len() == index,
                forall|i: int|
                    0 <= i < index ==> #[trigger] commands@[i] == (Command::SetVringEnable {
                        index: i as usize,
                        enable: false,
                    }),
            decreases self.queue_configs@.len() - index,
        {
            commands.push(Command::SetVringEnable { index, enable: false });
            index += 1;
        }
        commands
    }

    /// The device is inactive from here on.
    pub fn reset(&mut self) -> (res: bool)
        ensures
            res,
            *final(self) == (VhostUserDevice { activated: false, ..*old(self) }),
    {
        self.activated = false;
        true
    }

    /// Whether a memory region may be added: not unless it was negotiated.
    pub fn add_mem_region(&self) -> (res: Result<(), VhostError>)
        ensures
            res == if has(self.acked_protocol_features, PROTOCOL_CONFIGURE_MEM_SLOTS) {
                Ok::<(), VhostError>(())
            } else {
                Err(VhostError::MemSlotsNotNegotiated)
            },
    {
        if self.acked_protocol_features & PROTOCOL_CONFIGURE_MEM_SLOTS
            == PROTOCOL_CONFIGURE_MEM_SLOTS {
            Ok(())
        } else {
            Err(VhostError::MemSlotsNotNegotiated)
        }
    }

    /// Starts to fetch the backend's state, if that was negotiated.
    pub fn save_device_state(&self) -> (res: Result<Transfer, VhostError>)
        ensures
            res == if self.device_state_supported {
                Ok::<Transfer, VhostError>(Transfer::Pipe { direction: Direction::Save })
            } else {
                Err(VhostError::DeviceStateNotNegotiated)
            },
    {
        if self.device_state_supported {
            Ok(Transfer::Pipe { direction: Direction::Save })
        } else {
            Err(VhostError::DeviceStateNotNegotiated)
        }
    }

    /// Starts to give the backend its state back, if that was negotiated.
    pub fn load_device_state(&self) -> (res: Result<Transfer, VhostError>)
        ensures
            res == if self.device_state_supported {
                Ok::<Transfer, VhostError>(Transfer::Pipe { direction: Direction::Load })
            } else {
                Err(VhostError::DeviceStateNotNegotiated)
            },
    {
        if self.device_state_supported {
            Ok(Transfer::Pipe { direction: Direction::Load })
        } else {
            Err(VhostError::DeviceStateNotNegotiated)
        }
    }

    /// There is no configuration space: everything reads as zero.
    pub fn read_config(&self, offset: u64, data: &mut [u8])
        ensures
            final(data)@ == byte_order::zeros(old(data)@.len()),
    {
        virtio_device::clear(data);
    }

    /// What the guest writes to the configuration space changes nothing.
    pub fn write_config(&mut self, _offset: u64, _data: &[u8])
        ensures
            *final(self) == *old(self),
    {
    }

    pub fn acked_protocol_features(&self) -> (res: u64)
        ensures
            res == self.acked_protocol_features,
    {
        self.acked_protocol_features
    }

    pub fn device_state_supported(&self) -> (res: bool)
        ensures
            res == self.device_state_supported,
    {
        self.device_state_supported
    }

    pub fn device_type(&self) -> (res: u32)
        ensures
            res == self.device_type,
    {
        self.device_type
    }

    pub fn device_name(&self) -> (res: &str)
        ensures
            res@ == self.device_name@,
    {
        self.device_name.as_str()
    }

    pub fn queue_config(&self) -> (res: &Vec<QueueConfig>)
        ensures
            *res == self.queue_configs,
    {
        &self.queue_configs
    }

    pub fn avail_features(&self) -> (res: u64)
        ensures
            res == self.avail_features,
    {
        self.avail_features
    }

    pub fn acked_features(&self) -> (res: u64)
        ensures
            res == self.acked_features,
    {
        self.acked_features
    }

    pub fn set_acked_features(&mut self, acked_features: u64)
        ensures
            *final(self) == (VhostUserDevice { acked_features, ..*old(self) }),
    {
        self.acked_features = acked_features;
    }

    pub fn is_activated(&self) -> (res: bool)
        ensures
            res == self.activated,
    {
        self.activated
    }
}

/// A restored device uses no protocol feature that it did not have when it was saved, and
/// none that its backend does not offer now.
pub proof fn restored_features_were_saved(
    device: VhostUserDevice,
    state: Reconnect,
    offered: u64,
)
    requires
        state.stage == Stage::Offered,
    ensures
        ({
            let res = reconnects(device, state, Reply::Value { value: offered });
            &&& res.1 matches Reconnected::Send {
                command: Command::SetProtocolFeatures { bits },
                next,
            }
            &&& next.protocol == bits
            &&& has(state.saved_protocol, bits)
            &&& has(offered, bits)
        }),
{
    let saved = state.saved_protocol;
    let bits = (saved & 0x7f_ffff) & offered;
    assert(saved & bits == bits && offered & bits == bits) by (bit_vector)
        requires
            bits == (saved & 0x7f_ffff) & offered,
    ;
}

/// A failed reconnection leaves the device as it was.
pub proof fn failed_reconnection_changes_nothing(
    device: VhostUserDevice,
    state: Reconnect,
    reply: Reply,
)
    ensures
        !(reconnects(device, state, reply).1 is Ready) ==> reconnects(device, state, reply).0
            == device,
{
}

/// A translated address keeps its distance from the start of its region.
pub proof fn translation_keeps_offsets(regions: Seq<HostRegion>, gpa: u64, i: int)
    requires
        0 <= i,
        sound_regions(regions),
        host_address(regions, gpa, i) is Some,
    ensures
        exists|j: int|
            i <= j < regions.len() && (#[trigger] regions[j]).start <= gpa < regions[j].start
                + regions[j].size && host_address(regions, gpa, i)->0 - regions[j].host == gpa
                - regions[j].start,
    decreases regions.len() - i,
{
    assert(sound_region(regions[i]));
    if !(regions[i].start <= gpa < regions[i].start + regions[i].size) {
        translation_keeps_offsets(regions, gpa, i + 1);
    }
}

/// Whether `command` is about ring `index`.
pub open spec fn is_about(command: Command, index: int) -> bool {
    match command {
        Command::SetVringNum { index: i, .. } => i == index,
        Command::SetVringBase { index: i, .. } => i == index,
        Command::SetVringAddr { index: i, .. } => i == index,
        Command::SetVringKick { index: i } => i == index,
        Command::SetVringCall { index: i } => i == index,
        Command::SetVringEnable { index: i, .. } => i == index,
        _ => false,
    }
}

/// Whether the host address `host` is that of the guest address `gpa` in one of the regions.
pub open spec fn stands_for(regions: Seq<HostRegion>, gpa: u64, host: u64) -> bool {
    exists|j: int|
        0 <= j < regions.len() && (#[trigger] regions[j]).start <= gpa < regions[j].start
            + regions[j].size && host - regions[j].host == gpa - regions[j].start
}

/// How many requests set up one ring.
pub open spec fn requests_per_ring(enable: bool) -> int {
    if enable {
        6
    } else {
        5
    }
}

/// Where the requests for ring `i` stand among those from ring `index` on.
proof fn rings_come_one_by_one(
    regions: Seq<HostRegion>,
    queues: Seq<Queue>,
    bases: Option<Seq<u16>>,
    enable: bool,
    index: int,
    i: int,
)
    requires
        0 <= index <= queues.len(),
        index <= i < queues.len(),
        queue_commands(regions, queues, bases, enable, index).1,
    ensures
        ({
            let all = queue_commands(regions, queues, bases, enable, index).0;
            let k = requests_per_ring(enable);
            let own = vring_commands(regions, queues[i], i, base_of(bases, i), enable);
            &&& vring_config(regions, queues[i]) is Some
            &&& own.len() == k
            &&& all.len() == k * (queues.len() - index)
            &&& all.subrange(k * (i - index), k * (i - index) + k) == own
        }),
    decreases i - index,
{
    let all = queue_commands(regions, queues, bases, enable, index).0;
    let rest = queue_commands(regions, queues, bases, enable, index + 1).0;
    let k = requests_per_ring(enable);
    let own = vring_commands(regions, queues[index], index, base_of(bases, index), enable);
    rings_have_a_length(regions, queues, bases, enable, index);
    rings_have_a_length(regions, queues, bases, enable, index + 1);
    assert(all == own + rest);
    if i == index {
        assert(all.subrange(0, k) =~= own);
    } else {
        rings_come_one_by_one(regions, queues, bases, enable, index + 1, i);
        let at = k * (i - index - 1);
        assert(k * (i - index) == at + k) by (nonlinear_arith)
            requires
                at == k * (i - index - 1),
        ;
        assert(at >= 0 && at + k <= rest.len()) by (nonlinear_arith)
            requires
                at == k * (i - index - 1),
                k > 0,
                index < i < queues.len(),
                rest.len() == k * (queues.len() - (index + 1)),
        ;
        assert(all.subrange(at + k, at + k + k) =~= rest.subrange(at, at + k));
    }
}

/// How many requests set up the rings from `index` on.
proof fn rings_have_a_length(
    regions: Seq<HostRegion>,
    queues: Seq<Queue>,
    bases: Option<Seq<u16>>,
    enable: bool,
    index: int,
)
    requires
        0 <= index <= queues.len(),
        queue_commands(regions, queues, bases, enable, index).1,
    ensures
        queue_commands(regions, queues, bases, enable, index).0.len() == requests_per_ring(enable)
            * (queues.len() - index),
        index < queues.len() ==> queue_commands(regions, queues, bases, enable, index + 1).1,
    decreases queues.len() - index,
{
    let k = requests_per_ring(enable);
    if index < queues.len() {
        rings_have_a_length(regions, queues, bases, enable, index + 1);
        assert(k + k * (queues.len() - (index + 1)) == k * (queues.len() - index))
            by (nonlinear_arith);
    } else {
        assert(k * (queues.len() - index) == 0) by (nonlinear_arith)
            requires
                index == queues.len(),
        ;
    }
}

/// A complete plan sets up every ring: its size, its base, its addresses, and how it is kicked
/// and called, each once and in this order. Exactly where the features have the bit for protocol
/// features, each ring is enabled, once and behind the rest. The requests for a ring stand
/// together, ring by ring, and no others are about it.
pub proof fn every_ring_is_set_up(
    plan: Plan,
    bits: u64,
    regions: Seq<HostRegion>,
    queues: Seq<Queue>,
    bases: Option<Seq<u16>>,
    i: int,
)
    requires
        starts(plan, bits, regions, queues, bases),
        plan.complete,
        sound_regions(regions),
        queues.len() <= usize::MAX,
        0 <= i < queues.len(),
    ensures
        ({
            let enable = bits / 0x4000_0000 % 2 == 1;
            let k: int = if enable {
                6
            } else {
                5
            };
            let at = 3 + k * i;
            let n = if queues[i].size <= queues[i].max_size {
                queues[i].size
            } else {
                queues[i].max_size
            };
            let commands = plan.commands@;
            &&& commands.len() == 3 + k * queues.len()
            &&& at + k <= commands.len()
            &&& commands[at] == (Command::SetVringNum { index: i as usize, size: n })
            &&& commands[at + 1] matches Command::SetVringBase { index, base }
            &&& index == i
            &&& base == match bases {
                Some(saved) if i < saved.len() => saved[i],
                _ => 0,
            }
            &&& commands[at + 2] matches Command::SetVringAddr { index, config }
            &&& index == i
            &&& config.queue_max_size == queues[i].max_size && config.queue_size == n
            &&& stands_for(regions, queues[i].desc_table.0, config.desc_table_addr)
            &&& stands_for(regions, queues[i].avail_ring.0, config.avail_ring_addr)
            &&& stands_for(regions, queues[i].used_ring.0, config.used_ring_addr)
            &&& commands[at + 3] == (Command::SetVringKick { index: i as usize })
            &&& commands[at + 4] == (Command::SetVringCall { index: i as usize })
            &&& enable ==> commands[at + 5] == (Command::SetVringEnable {
                index: i as usize,
                enable: true,
            })
            &&& !enable ==> forall|p: int|
                0 <= p < commands.len() ==> !(#[trigger] commands[p] is SetVringEnable)
            &&& forall|p: int|
                0 <= p < commands.len() && is_about(#[trigger] commands[p], i) ==> at <= p < at + k
        }),
{
    let protocol = bits & VHOST_USER_F_PROTOCOL_FEATURES != 0;
    assert((bits & 0x4000_0000u64 != 0) == (bits / 0x4000_0000 % 2 == 1)) by (bit_vector);
    let k = requests_per_ring(protocol);
    let commands = plan.commands@;
    rings_have_a_length(regions, queues, bases, protocol, 0);
    requests_stand_together(plan, bits, regions, queues, bases, i);
    let own = vring_commands(regions, queues[i], i, base_of(bases, i), protocol);
    let part = commands.subrange(3 + k * i, 3 + k * i + k);
    assert(part[0] == own[0] && part[1] == own[1] && part[2] == own[2] && part[3] == own[3]
        && part[4] == own[4]);
    if protocol {
        assert(part[5] == own[5]);
    }
    assert(part[0] == commands[3 + k * i] && part[1] == commands[3 + k * i + 1] && part[2]
        == commands[3 + k * i + 2] && part[3] == commands[3 + k * i + 3] && part[4] == commands[3
        + k * i + 4]);
    if protocol {
        assert(part[5] == commands[3 + k * i + 5]);
    }
    translation_keeps_offsets(regions, queues[i].desc_table.0, 0);
    translation_keeps_offsets(regions, queues[i].avail_ring.0, 0);
    translation_keeps_offsets(regions, queues[i].used_ring.0, 0);
    assert forall|p: int| 0 <= p < commands.len() implies (is_about(#[trigger] commands[p], i)
        ==> 3 + k * i <= p < 3 + k * i + k) && (!protocol ==> !(commands[p] is SetVringEnable)) by {
        requests_are_about_their_ring(plan, bits, regions, queues, bases, p, i);
    }
}

/// Where the requests for ring `i` stand in a plan.
proof fn requests_stand_together(
    plan: Plan,
    bits: u64,
    regions: Seq<HostRegion>,
    queues: Seq<Queue>,
    bases: Option<Seq<u16>>,
    i: int,
)
    requires
        starts(plan, bits, regions, queues, bases),
        plan.complete,
        0 <= i < queues.len(),
    ensures
        ({
            let protocol = bits & VHOST_USER_F_PROTOCOL_FEATURES != 0;
            let k = requests_per_ring(protocol);
            let own = vring_commands(regions, queues[i], i, base_of(bases, i), protocol);
            &&& vring_config(regions, queues[i]) is Some
            &&& own.len() == k
            &&& plan.commands@.len() == 3 + k * queues.len()
            &&& 0 <= k * i && 3 + k * i + k <= plan.commands@.len()
            &&& plan.commands@.subrange(3 + k * i, 3 + k * i + k) == own
        }),
{
    let protocol = bits & VHOST_USER_F_PROTOCOL_FEATURES != 0;
    let k = requests_per_ring(protocol);
    let rings = queue_commands(regions, queues, bases, protocol, 0).0;
    rings_have_a_length(regions, queues, bases, protocol, 0);
    rings_come_one_by_one(regions, queues, bases, protocol, 0, i);
    assert(0 <= k * i && k * i + k <= rings.len()) by (nonlinear_arith)
        requires
            rings.len() == k * (queues.len() - 0),
            0 <= i < queues.len(),
            k > 0,
    ;
    assert(plan.commands@.subrange(3 + k * i, 3 + k * i + k) =~= rings.subrange(k * i, k * i + k));
}

/// Which ring request `p` of a plan is about.
proof fn requests_are_about_their_ring(
    plan: Plan,
    bits: u64,
    regions: Seq<HostRegion>,
    queues: Seq<Queue>,
    bases: Option<Seq<u16>>,
    p: int,
    i: int,
)
    requires
        starts(plan, bits, regions, queues, bases),
        plan.complete,
        queues.len() <= usize::MAX,
        0 <= p < plan.commands@.len(),
        0 <= i < queues.len(),
    ensures
        ({
            let protocol = bits & VHOST_USER_F_PROTOCOL_FEATURES != 0;
            let k = requests_per_ring(protocol);
            &&& is_about(plan.commands@[p], i) ==> 3 + k * i <= p < 3 + k * i + k
            &&& !protocol ==> !(plan.commands@[p] is SetVringEnable)
        }),
{
    let protocol = bits & VHOST_USER_F_PROTOCOL_FEATURES != 0;
    let k = requests_per_ring(protocol);
    requests_stand_together(plan, bits, regions, queues, bases, i);
    if p >= 3 {
        let m = (p - 3) / k;
        let j = (p - 3) % k;
        vstd::arithmetic::div_mod::lemma_fundamental_div_mod(p - 3, k);
        vstd::arithmetic::div_mod::lemma_mod_bound(p - 3, k);
        assert(0 <= m < queues.len()) by (nonlinear_arith)
            requires
                p - 3 == k * m + j,
                0 <= j < k,
                3 <= p,
                p < 3 + k * queues.len(),
        ;
        requests_stand_together(plan, bits, regions, queues, bases, m);
        let theirs = vring_commands(regions, queues[m], m, base_of(bases, m), protocol);
        let part = plan.commands@.subrange(3 + k * m, 3 + k * m + k);
        assert(part[j] == plan.commands@[p]);
        assert(is_about(theirs[j], m));
        assert(m == i ==> 3 + k * i <= p < 3 + k * i + k);
    }
}

/// A plan begins with the owner, the shared memory and the features, and shares exactly the
/// regions that a file stands behind, in their order.
pub proof fn file_backed_memory_is_shared(
    plan: Plan,
    bits: u64,
    regions: Seq<HostRegion>,
    queues: Seq<Queue>,
    bases: Option<Seq<u16>>,
)
    requires
        starts(plan, bits, regions, queues, bases),
    ensures
        plan.commands@.len() >= 3,
        plan.commands@[0] == Command::SetOwner,
        plan.commands@[1] == Command::SetMemTable,
        plan.commands@[2] == (Command::SetFeatures { bits }),
        plan.shared@ == regions.filter(|region: HostRegion| region.file_backed),
{
    file_backed_is_a_filter(regions, regions.len() as int);
    assert(regions.take(regions.len() as int) =~= regions);
}

/// The regions with a file behind them, among the first `n`.
proof fn file_backed_is_a_filter(regions: Seq<HostRegion>, n: int)
    requires
        0 <= n <= regions.len(),
    ensures
        file_backed(regions, n) == regions.take(n).filter(
            |region: HostRegion| region.file_backed,
        ),
    decreases n,
{
    reveal(Seq::filter);
    if n > 0 {
        file_backed_is_a_filter(regions, n - 1);
        assert(regions.take(n).drop_last() =~= regions.take(n - 1));
        assert(regions.take(n).last() == regions[n - 1]);
    } else {
        assert(regions.take(0) =~= Seq::<HostRegion>::empty());
    }
}

/// A guest address has a host address exactly if one of the regions holds it.
pub proof fn held_addresses_are_translated(regions: Seq<HostRegion>, gpa: u64)
    requires
        sound_regions(regions),
    ensures
        host_address(regions, gpa, 0) is Some <==> exists|j: int|
            0 <= j < regions.len() && (#[trigger] regions[j]).start <= gpa < regions[j].start
                + regions[j].size,
{
    if host_address(regions, gpa, 0) is Some {
        translation_keeps_offsets(regions, gpa, 0);
    } else {
        unheld_from(regions, gpa, 0);
    }
}

/// Where an address has no host address, no region from `i` on holds it.
proof fn unheld_from(regions: Seq<HostRegion>, gpa: u64, i: int)
    requires
        0 <= i,
        host_address(regions, gpa, i) is None,
    ensures
        forall|j: int|
            i <= j < regions.len() ==> !((#[trigger] regions[j]).start <= gpa < regions[j].start
                + regions[j].size),
    decreases regions.len() - i,
{
    if i < regions.len() {
        unheld_from(regions, gpa, i + 1);
    }
}

/// A plan is complete exactly if all three parts of every queue are in memory.
pub proof fn plans_are_complete_where_all_rings_are_mapped(
    plan: Plan,
    bits: u64,
    regions: Seq<HostRegion>,
    queues: Seq<Queue>,
    bases: Option<Seq<u16>>,
)
    requires
        starts(plan, bits, regions, queues, bases),
    ensures
        plan.complete <==> forall|i: int|
            0 <= i < queues.len() ==> {
                &&& host_address(regions, (#[trigger] queues[i]).desc_table.0, 0) is Some
                &&& host_address(regions, queues[i].avail_ring.0, 0) is Some
                &&& host_address(regions, queues[i].used_ring.0, 0) is Some
            },
{
    all_rings_are_found(
        regions,
        queues,
        bases,
        bits & VHOST_USER_F_PROTOCOL_FEATURES != 0,
        0,
    );
}

/// Whether all rings from `index` on are in memory.
proof fn all_rings_are_found(
    regions: Seq<HostRegion>,
    queues: Seq<Queue>,
    bases: Option<Seq<u16>>,
    enable: bool,
    index: int,
)
    requires
        0 <= index <= queues.len(),
    ensures
        queue_commands(regions, queues, bases, enable, index).1 <==> forall|i: int|
            index <= i < queues.len() ==> {
                &&& host_address(regions, (#[trigger] queues[i]).desc_table.0, 0) is Some
                &&& host_address(regions, queues[i].avail_ring.0, 0) is Some
                &&& host_address(regions, queues[i].used_ring.0, 0) is Some
            },
    decreases queues.len() - index,
{
    if index < queues.len() {
        all_rings_are_found(regions, queues, bases, enable, index + 1);
        if vring_config(regions, queues[index]) is None {
            assert(!(host_address(regions, queues[index].desc_table.0, 0) is Some && host_address(
                regions,
                queues[index].avail_ring.0,
                0,
            ) is Some && host_address(regions, queues[index].used_ring.0, 0) is Some));
        }
    }
}

/// A negotiation goes through its requests in order. The features are asked for first. Where the
/// backend has protocol features, these are switched on, asked for and selected: the wanted ones
/// that are offered. Then the number of queues is asked for, where nobody gave one or the backend
/// has several queues as a feature. A failure ends it at once.
pub proof fn negotiations_take_their_course(neg: Negotiation, reply: Reply, to: Negotiated)
    requires
        negotiates(neg, reply, to),
    ensures
        reply is Failed ==> to == (Negotiated::Refused { error: VhostError::Backend }),
        reply matches Reply::Value { value } ==> {
            let asks = neg.num_queues == 0 || neg.protocol & 1 == 1;
            &&& neg.stage == Stage::Features && value & 0x4000_0000 != 0 ==> (to
                matches Negotiated::Send { command, next } && command == (Command::SetFeatures {
                bits: 0x4000_0000,
            }) && next == (Negotiation { features: value, stage: Stage::Enable, ..neg }))
            &&& neg.stage == Stage::Features && value & 0x4000_0000 == 0 && neg.num_queues == 0
                ==> to == (Negotiated::Refused { error: VhostError::NoQueueCount })
            &&& neg.stage == Stage::Enable ==> (to matches Negotiated::Send { command, next }
                && command == Command::GetProtocolFeatures && next == (Negotiation {
                stage: Stage::Offered,
                ..neg
            }))
            &&& neg.stage == Stage::Offered ==> (to matches Negotiated::Send { command, next }
                && command == (Command::SetProtocolFeatures { bits: value & 0x8_8201 }) && next == (
            Negotiation { protocol: value & 0x8_8201, stage: Stage::Select, ..neg }))
            &&& neg.stage == Stage::Select && neg.features & 0x4000_0000 != 0 && asks ==> (to
                matches Negotiated::Send { command, next } && command == Command::GetQueueNum
                && next == (Negotiation { stage: Stage::Count, ..neg }))
            &&& neg.stage == Stage::Select && !asks ==> to is Ready
            &&& neg.stage == Stage::Count ==> to is Ready
        },
        to is Refused && reply is Value ==> neg.num_queues == 0,
{
    if let Reply::Value { value } = reply {
        assert(value & 0x4000_0000u64 != 0 ==> value & 0x4000_0000u64 == 0x4000_0000) by (bit_vector);
    }
}

/// The device that a negotiation makes has as many queues as were asked for, or as the backend
/// has said where none were. Each has its own size, or the last one that was given, or 256 where
/// none was. The guest sees all features but the bit for protocol features, nothing is
/// acknowledged yet, and the state can be transferred exactly if that was selected.
pub proof fn negotiated_devices_are_as_agreed(
    neg: Negotiation,
    reply: Reply,
    device: VhostUserDevice,
    i: int,
)
    requires
        negotiates(neg, reply, Negotiated::Ready { device }),
    ensures
        neg.num_queues > 0 ==> device.queue_configs@.len() == neg.num_queues,
        neg.num_queues == 0 ==> neg.stage == Stage::Count && (reply matches Reply::Value { value }
            && (value <= usize::MAX ==> device.queue_configs@.len() == value)),
        0 <= i < device.queue_configs@.len() ==> device.queue_configs@[i].size == if i
            < neg.queue_sizes@.len() {
            neg.queue_sizes@[i]
        } else if neg.queue_sizes@.len() > 0 {
            neg.queue_sizes@[neg.queue_sizes@.len() - 1]
        } else {
            256
        },
        device.device_type == neg.device_type,
        device.device_name@ == neg.device_name@,
        device.avail_features & 0x4000_0000 == 0,
        device.backend_features & 0x4000_0000 == device.backend_features,
        neg.stage != Stage::Features ==> device.avail_features | device.backend_features
            == neg.features,
        neg.stage == Stage::Features ==> reply == (Reply::Value {
            value: device.avail_features | device.backend_features,
        }),
        device.acked_features == 0,
        device.acked_protocol_features == neg.protocol,
        device.device_state_supported <==> neg.protocol & 0x8_0000 != 0,
        !device.activated,
{
    let features = if neg.stage == Stage::Features {
        reply->value
    } else {
        neg.features
    };
    assert((features & !0x4000_0000u64) & 0x4000_0000u64 == 0 && (features & 0x4000_0000u64)
        & 0x4000_0000u64 == features & 0x4000_0000u64 && (features & !0x4000_0000u64) | (features
        & 0x4000_0000u64) == features) by (bit_vector);
    let p = neg.protocol;
    assert(p & 0x8_0000u64 == 0x8_0000u64 <==> p & 0x8_0000u64 != 0) by (bit_vector);
}

/// A new connection goes through the same requests. Of the protocol features those are selected
/// that were saved, are known and are offered. At the end the device has the features of the
/// backend, split as before, and the protocol features that were selected.
pub proof fn reconnections_take_their_course(
    device: VhostUserDevice,
    state: Reconnect,
    value: u64,
)
    ensures
        reconnects(device, state, Reply::Failed) == (device, Reconnected::Failed),
        ({
            let (after, res) = reconnects(device, state, Reply::Value { value });
            &&& state.stage == Stage::Features && value & 0x4000_0000 != 0 ==> res == (
            Reconnected::Send {
                command: Command::SetFeatures { bits: 0x4000_0000 },
                next: Reconnect { features: value, stage: Stage::Enable, ..state },
            })
            &&& state.stage == Stage::Features && value & 0x4000_0000 == 0 ==> res
                == Reconnected::Ready && after.avail_features | after.backend_features == value
            &&& state.stage == Stage::Enable ==> res == (Reconnected::Send {
                command: Command::GetProtocolFeatures,
                next: Reconnect { stage: Stage::Offered, ..state },
            })
            &&& state.stage == Stage::Offered ==> res == (Reconnected::Send {
                command: Command::SetProtocolFeatures {
                    bits: state.saved_protocol & 0x7f_ffff & value,
                },
                next: Reconnect {
                    protocol: state.saved_protocol & 0x7f_ffff & value,
                    stage: Stage::Select,
                    ..state
                },
            })
            &&& state.stage == Stage::Select || state.stage == Stage::Count ==> {
                &&& res == Reconnected::Ready
                &&& after.avail_features | after.backend_features == state.features
                &&& after.acked_protocol_features == state.protocol
                &&& after.device_state_supported <==> state.protocol & 0x8_0000 != 0
            }
            &&& res == Reconnected::Ready ==> {
                &&& after.avail_features & 0x4000_0000 == 0
                &&& after.backend_features & 0x4000_0000 == after.backend_features
                &&& after.acked_features == device.acked_features
                &&& after.queue_configs == device.queue_configs
                &&& after.activated == device.activated
            }
        }),
{
    let features = if state.stage == Stage::Features {
        value
    } else {
        state.features
    };
    assert((features & !0x4000_0000u64) & 0x4000_0000u64 == 0 && (features & 0x4000_0000u64)
        & 0x4000_0000u64 == features & 0x4000_0000u64 && (features & !0x4000_0000u64) | (features
        & 0x4000_0000u64) == features) by (bit_vector);
    assert(value & 0x4000_0000u64 != 0 ==> value & 0x4000_0000u64 == 0x4000_0000) by (bit_vector);
    let p = state.protocol;
    assert(p & 0x8_0000u64 == 0x8_0000u64 <==> p & 0x8_0000u64 != 0) by (bit_vector);
}

/// A transfer takes four steps that succeed, in its own direction, and ends at once with any that
/// does not.
pub proof fn transfers_take_four_steps(
    direction: Direction,
    offer: Result<Transfer, VhostError>,
    moving: Result<Transfer, VhostError>,
    confirming: Result<Transfer, VhostError>,
    complete: Result<Transfer, VhostError>,
    broken: Result<Transfer, VhostError>,
    outcome: TransferOutcome,
    at: Transfer,
)
    requires
        call_ensures(
            Transfer::step,
            (&Transfer::Pipe { direction }, TransferOutcome::Done),
            offer,
        ),
        offer is Ok && call_ensures(
            Transfer::step,
            (&offer->Ok_0, TransferOutcome::Done),
            moving,
        ),
        moving is Ok && call_ensures(
            Transfer::step,
            (&moving->Ok_0, TransferOutcome::Done),
            confirming,
        ),
        confirming is Ok && call_ensures(
            Transfer::step,
            (&confirming->Ok_0, TransferOutcome::Done),
            complete,
        ),
        call_ensures(Transfer::step, (&at, outcome), broken),
    ensures
        offer == Ok::<Transfer, VhostError>(Transfer::Offer { direction }),
        moving == Ok::<Transfer, VhostError>(Transfer::Move { direction }),
        confirming == Ok::<Transfer, VhostError>(Transfer::Confirm { direction }),
        complete == Ok::<Transfer, VhostError>(Transfer::Complete),
        outcome != TransferOutcome::Done ==> broken is Err,
{
}

/// A queue that takes over a position has the size, the readiness, the addresses and the indices
/// of the one that the driver configured, and keeps what the device gave it. Queues without a
/// counterpart stay.
pub proof fn positions_are_taken_over(own: Seq<Queue>, given: Seq<Queue>, i: int)
    requires
        0 <= i < own.len(),
    ensures
        all_repositioned(own, given).len() == own.len(),
        i >= given.len() ==> all_repositioned(own, given)[i] == own[i],
        i < given.len() ==> {
            let q = all_repositioned(own, given)[i];
            &&& q.size == given[i].size && q.ready == given[i].ready
            &&& q.desc_table == given[i].desc_table
            &&& q.avail_ring == given[i].avail_ring
            &&& q.used_ring == given[i].used_ring
            &&& q.next_avail == given[i].next_avail && q.next_used == given[i].next_used
            &&& q.max_size == own[i].max_size
            &&& q.event_idx_enabled == own[i].event_idx_enabled && q.num_added == own[i].num_added
        },
{
}

/// Regions are sound exactly if none of them goes beyond the last address, neither of the guest
/// nor of this process.
pub proof fn sound_regions_have_an_end(regions: Seq<HostRegion>, i: int)
    requires
        sound_regions(regions),
        0 <= i < regions.len(),
    ensures
        regions[i].start + regions[i].size <= 18446744073709551615,
        regions[i].host + regions[i].size <= 18446744073709551615,
{
    assert(sound_region(regions[i]));
}

} // verus!
