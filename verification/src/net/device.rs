//! The network device as the driver sees it.
use vstd::prelude::*;

use super::worker::SharedQueues;
use crate::byte_order;
use crate::queue;
use crate::queue::Queue;
use crate::virtio_device;
use crate::virtio_device::BadActivate;

verus! {

pub const TYPE_NET: u32 = 1;

/// One queue for received packets, one for sent packets.
pub const NUM_QUEUES: usize = 2;

/// Feature: the device has a MAC address.
pub const VIRTIO_NET_F_MAC: u64 = 0x20;

/// Feature: the device follows version 1 of the standard.
pub const VIRTIO_F_VERSION_1: u64 = 0x1_0000_0000;

/// The configuration space.
#[derive(Clone, Copy, Debug)]
pub struct VirtioNetConfig {
    pub mac: [u8; 6],
    pub status: u16,
    pub max_virtqueue_pairs: u16,
}

impl VirtioNetConfig {
    /// The bytes of the configuration space.
    pub open spec fn bytes(&self) -> Seq<u8> {
        self.mac@ + byte_order::le16_bytes(self.status) + byte_order::le16_bytes(
            self.max_virtqueue_pairs,
        )
    }

    pub fn to_bytes(&self) -> (res: Vec<u8>)
        ensures
            res@ == self.bytes(),
            res@.len() == 10,
    {
        let res: Vec<u8> = vec![
            self.mac[0],
            self.mac[1],
            self.mac[2],
            self.mac[3],
            self.mac[4],
            self.mac[5],
            (self.status % 0x100) as u8,
            (self.status / 0x100) as u8,
            (self.max_virtqueue_pairs % 0x100) as u8,
            (self.max_virtqueue_pairs / 0x100) as u8,
        ];
        assert(res@ =~= self.bytes());
        res
    }

    /// The configuration space in `bytes`, which are exactly as many as it has.
    pub fn from_slice(bytes: &[u8]) -> (res: Option<VirtioNetConfig>)
        ensures
            res is Some <==> bytes@.len() == 10,
            res matches Some(config) ==> config.bytes() == bytes@,
    {
        if bytes.len() != 10 {
            return None;
        }
        let config = VirtioNetConfig {
            mac: [bytes[0], bytes[1], bytes[2], bytes[3], bytes[4], bytes[5]],
            status: bytes[6] as u16 + 0x100 * bytes[7] as u16,
            max_virtqueue_pairs: bytes[8] as u16 + 0x100 * bytes[9] as u16,
        };
        assert(config.bytes() =~= bytes@);
        Some(config)
    }
}

/// What stands behind a network device.
#[derive(Debug, PartialEq, Eq)]
pub enum VirtioNetBackend {
    UnixstreamFd(i32),
    UnixstreamPath(String),
    UnixgramFd(i32),
    UnixgramPath(String, bool),
    Tap(String),
    /// A backend that is made where the worker runs. It can be used once.
    CustomAsyncFactory,
}

impl VirtioNetBackend {
    /// A copy of the backend's description. The descriptors in it are not duplicated, so at
    /// most one of the copies may be opened; a factory cannot be copied at all.
    pub fn duplicate(&self) -> (res: VirtioNetBackend)
        requires
            !(self is CustomAsyncFactory),
        ensures
            res == *self,
    {
        match self {
            VirtioNetBackend::UnixstreamFd(fd) => VirtioNetBackend::UnixstreamFd(*fd),
            VirtioNetBackend::UnixstreamPath(path) => VirtioNetBackend::UnixstreamPath(
                path.clone(),
            ),
            VirtioNetBackend::UnixgramFd(fd) => VirtioNetBackend::UnixgramFd(*fd),
            VirtioNetBackend::UnixgramPath(path, send_vfkit_magic) => VirtioNetBackend::UnixgramPath(
                path.clone(),
                *send_vfkit_magic,
            ),
            VirtioNetBackend::Tap(name) => VirtioNetBackend::Tap(name.clone()),
            VirtioNetBackend::CustomAsyncFactory => VirtioNetBackend::CustomAsyncFactory,
        }
    }
}

/// How the work of an activated device is started.
pub enum NetStart {
    /// By an asynchronous worker with the factory. The device is active.
    Async { rx: Queue, tx: Queue },
    /// By a worker with this backend. The device is active once the worker was made.
    Sync { rx: Queue, tx: Queue, backend: VirtioNetBackend },
}

/// The network device.
pub struct Net {
    pub id: String,
    /// Not there once a factory was used.
    pub cfg_backend: Option<VirtioNetBackend>,
    pub avail_features: u64,
    pub acked_features: u64,
    pub queues: Vec<Queue>,
    pub activated: bool,
    pub config: VirtioNetConfig,
    /// The queues as they are published for the worker.
    pub shared: SharedQueues,
    /// The state of the backend in a snapshot.
    pub backend_state: Option<Vec<u8>>,
}

impl Net {
    /// A device with the given backend and address. It always offers its address and
    /// version 1 of the standard.
    pub fn new(
        id: String,
        cfg_backend: VirtioNetBackend,
        mac: [u8; 6],
        features: u32,
        queue_size: u16,
    ) -> (res: Net)
        ensures
            res.id == id,
            res.cfg_backend == Some(cfg_backend),
            res.avail_features == (features as u64) | VIRTIO_NET_F_MAC | VIRTIO_F_VERSION_1,
            res.acked_features == 0,
            res.queues@ == Seq::new(NUM_QUEUES as nat, |i: int| queue::empty_queue(queue_size)),
            !res.activated,
            res.config == (VirtioNetConfig { mac, status: 0, max_virtqueue_pairs: 0 }),
            res.shared.generation == 0,
            res.shared.queues == Some((res.queues@[0], res.queues@[1])),
            res.backend_state is None,
    {
        let rx = Queue::new(queue_size);
        let tx = Queue::new(queue_size);
        Net {
            id,
            cfg_backend: Some(cfg_backend),
            avail_features: (features as u64) | VIRTIO_NET_F_MAC | VIRTIO_F_VERSION_1,
            acked_features: 0,
            queues: vec![rx, tx],
            activated: false,
            config: VirtioNetConfig { mac, status: 0, max_virtqueue_pairs: 0 },
            shared: SharedQueues { generation: 0, queues: Some((rx, tx)) },
            backend_state: None,
        }
    }

    pub fn id(&self) -> (res: &str)
        ensures
            res@ == self.id@,
    {
        self.id.as_str()
    }

    /// The backend, unless it was used up.
    pub fn backend(&self) -> (res: Option<&VirtioNetBackend>)
        ensures
            match res {
                Some(backend) => self.cfg_backend == Some(*backend),
                None => self.cfg_backend is None,
            },
    {
        match &self.cfg_backend {
            Some(backend) => Some(backend),
            None => None,
        }
    }

    pub fn avail_features(&self) -> (res: u64)
        ensures
            res == self.avail_features,
    {
        self.avail_features
    }

    pub fn acked_features(&self) -> (res: u64)
        ensures
            res == self.acked_features,
    {
        self.acked_features
    }

    pub fn set_acked_features(&mut self, acked_features: u64)
        ensures
            *final(self) == (Net { acked_features, ..*old(self) }),
    {
        self.acked_features = acked_features;
    }

    pub fn device_type(&self) -> (res: u32)
        ensures
            res == TYPE_NET,
    {
        TYPE_NET
    }

    pub fn device_name(&self) -> (res: &'static str)
        ensures
            res@ == "net"@,
    {
        "net"
    }

    pub fn queues(&self) -> (res: &Vec<Queue>)
        ensures
            *res == self.queues,
    {
        &self.queues
    }

    pub fn queues_mut(&mut self) -> (res: &mut [Queue])
        ensures
            res@ == old(self).queues@,
            final(self).queues@ == final(res)@,
            *final(self) == (Net { queues: final(self).queues, ..*old(self) }),
    {
        self.queues.as_mut_slice()
    }

    pub fn is_activated(&self) -> (res: bool)
        ensures
            res == self.activated,
    {
        self.activated
    }

    /// Reads the configuration space. What lies beyond it is left alone.
    pub fn read_config(&self, offset: u64, data: &mut [u8])
        ensures
            final(data)@ == virtio_device::window(self.config.bytes(), offset, old(data)@),
    {
        let bytes = self.config.to_bytes();
        virtio_device::read_over(bytes.as_slice(), offset, data);
    }

    /// What the guest writes to the configuration space changes nothing.
    pub fn write_config(&mut self, _offset: u64, _data: &[u8])
        ensures
            *final(self) == *old(self),
    {
    }

    /// Publishes the queues for the worker, under a new number. The numbers wrap around.
    fn publish(&mut self, rx: Queue, tx: Queue)
        ensures
            *final(self) == (Net {
                shared: SharedQueues {
                    generation: next_generation(old(self).shared.generation),
                    queues: Some((rx, tx)),
                },
                ..*old(self)
            }),
    {
        self.shared = SharedQueues {
            generation: self.shared.generation.wrapping_add(1),
            queues: Some((rx, tx)),
        };
    }

    /// Takes over the queues that the driver configured. There have to be two of them, and a
    /// backend. A factory is used up by that.
    pub fn activate(&mut self, queues: &Vec<Queue>) -> (res: Result<NetStart, BadActivate>)
        ensures
            match res {
                Ok(NetStart::Async { rx, tx }) => {
                    &&& queues@.len() == NUM_QUEUES
                    &&& rx == queues@[0] && tx == queues@[1]
                    &&& old(self).cfg_backend == Some(VirtioNetBackend::CustomAsyncFactory)
                    &&& *final(self) == (Net {
                        cfg_backend: None,
                        activated: true,
                        shared: SharedQueues {
                            generation: next_generation(old(self).shared.generation),
                            queues: Some((rx, tx)),
                        },
                        ..*old(self)
                    })
                },
                Ok(NetStart::Sync { rx, tx, backend }) => {
                    &&& queues@.len() == NUM_QUEUES
                    &&& rx == queues@[0] && tx == queues@[1]
                    &&& !(backend is CustomAsyncFactory)
                    &&& old(self).cfg_backend == Some(backend)
                    &&& *final(self) == *old(self)
                },
                Err(_) => {
                    &&& queues@.len() != NUM_QUEUES || old(self).cfg_backend is None
                    &&& *final(self) == *old(self)
                },
            },
    {
        if queues.len() != NUM_QUEUES {
            return Err(BadActivate);
        }
        let rx: Queue = queues[0];
        let tx: Queue = queues[1];
        match self.cfg_backend.take() {
            None => Err(BadActivate),
            Some(VirtioNetBackend::CustomAsyncFactory) => {
                self.publish(rx, tx);
                self.activated = true;
                Ok(NetStart::Async { rx, tx })
            },
            Some(backend) => {
                self.cfg_backend = Some(backend.duplicate());
                Ok(NetStart::Sync { rx, tx, backend })
            },
        }
    }

    /// Takes note of whether the worker was made.
    pub fn finish_activation(&mut self, succeeded: bool) -> (res: Result<(), BadActivate>)
        ensures
            *final(self) == (Net { activated: old(self).activated || succeeded, ..*old(self) }),
            res == if succeeded {
                Ok::<(), BadActivate>(())
            } else {
                Err(BadActivate)
            },
    {
        if succeeded {
            self.activated = true;
            Ok(())
        } else {
            Err(BadActivate)
        }
    }

    /// Whether the worker takes part in snapshots: only an asynchronous one does.
    pub open spec fn parks(&self) -> bool {
        self.activated && self.cfg_backend is None
    }

    /// Whether the worker has to be asked to park before a snapshot.
    pub fn begin_snapshot_quiesce(&self) -> (res: bool)
        ensures
            res == self.parks(),
    {
        self.activated && self.cfg_backend.is_none()
    }

    /// Whether the worker has to be told to go on when a snapshot is given up.
    pub fn abort_snapshot_quiesce(&self) -> (res: bool)
        ensures
            res == self.parks(),
    {
        self.activated && self.cfg_backend.is_none()
    }

    /// Takes over the queues that were published last, if the device is active.
    pub fn sync_queues_for_snapshot(&mut self)
        ensures
            match old(self).shared.queues {
                Some(shared) if old(self).activated => {
                    &&& final(self).queues@ == seq![shared.0, shared.1]
                    &&& *final(self) == (Net { queues: final(self).queues, ..*old(self) })
                },
                _ => *final(self) == *old(self),
            },
    {
        if self.activated {
            match self.shared.queues {
                Some((rx, tx)) => {
                    self.queues = vec![rx, tx];
                    assert(self.queues@ =~= seq![rx, tx]);
                },
                None => {},
            }
        }
    }

    /// The state of the backend for a snapshot.
    pub fn save_backend_state(&self) -> (res: Option<Vec<u8>>)
        ensures
            match (res, self.backend_state) {
                (Some(saved), Some(state)) => saved@ == state@,
                (None, None) => true,
                _ => false,
            },
    {
        match &self.backend_state {
            Some(state) => {
                let mut saved: Vec<u8> = Vec::new();
                saved.extend_from_slice(state.as_slice());
                assert(saved@ =~= state@);
                Some(saved)
            },
            None => None,
        }
    }

    /// Keeps the state of the backend from a snapshot.
    pub fn restore_backend_state(&mut self, data: &[u8])
        ensures
            final(self).backend_state matches Some(state) && state@ == data@,
            *final(self) == (Net { backend_state: final(self).backend_state, ..*old(self) }),
    {
        let mut state: Vec<u8> = Vec::new();
        state.extend_from_slice(data);
        assert(state@ =~= data@);
        self.backend_state = Some(state);
    }

    /// Publishes the queues of a snapshot for the worker.
    pub fn post_snapshot_restore(&mut self)
        requires
            old(self).queues@.len() == NUM_QUEUES,
        ensures
            *final(self) == (Net {
                shared: SharedQueues {
                    generation: next_generation(old(self).shared.generation),
                    queues: Some((old(self).queues@[0], old(self).queues@[1])),
                },
                ..*old(self)
            }),
    {
        let rx: Queue = self.queues[0];
        let tx: Queue = self.queues[1];
        self.publish(rx, tx);
    }
}

/// The number of the publication behind `generation`.
pub open spec fn next_generation(generation: u64) -> u64 {
    if generation < u64::MAX {
        (generation + 1) as u64
    } else {
        0
    }
}

/// Every publication has another number than the one before, so that the worker notices it.
pub proof fn publications_differ(generation: u64)
    ensures
        next_generation(generation) != generation,
{
}

/// The configuration space and its bytes determine each other.
pub proof fn config_bytes_are_exact(a: VirtioNetConfig, b: VirtioNetConfig)
    ensures
        a.bytes().len() == 10,
        a.bytes() == b.bytes() ==> a.mac@ == b.mac@ && a.status == b.status
            && a.max_virtqueue_pairs == b.max_virtqueue_pairs,
{
    if a.bytes() == b.bytes() {
        assert(a.mac@ =~= a.bytes().take(6));
        assert(b.mac@ =~= b.bytes().take(6));
        assert(a.bytes()[6] == b.bytes()[6] && a.bytes()[7] == b.bytes()[7]);
        assert(a.bytes()[8] == b.bytes()[8] && a.bytes()[9] == b.bytes()[9]);
    }
}

/// Any ten bytes are the bytes of some configuration space.
pub proof fn any_bytes_are_a_config(bytes: Seq<u8>) -> (config: VirtioNetConfig)
    requires
        bytes.len() == 10,
    ensures
        config.bytes() == bytes,
{
    let config = VirtioNetConfig {
        mac: [bytes[0], bytes[1], bytes[2], bytes[3], bytes[4], bytes[5]],
        status: byte_order::le_u16(bytes.skip(6)),
        max_virtqueue_pairs: byte_order::le_u16(bytes.skip(8)),
    };
    assert(config.bytes() =~= bytes);
    config
}

/// The configuration space begins with the six bytes of the address; the status and the number of
/// pairs of queues follow, little-endian.
pub proof fn the_address_comes_first(config: VirtioNetConfig, i: int)
    ensures
        0 <= i < 6 ==> config.bytes()[i] == config.mac@[i],
        config.status == config.bytes()[6] + 256 * config.bytes()[7],
        config.max_virtqueue_pairs == config.bytes()[8] + 256 * config.bytes()[9],
{
}

} // verus!
