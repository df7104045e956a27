//! Guest sockets served by a vhost-user backend.
use vstd::prelude::*;

use super::device;
use super::device::{
    empty_queues, same_configs, take_positions, VhostError, VhostUserDevice,
};
use crate::byte_order;
use crate::byte_order::read_le_u64;
use crate::queue;
use crate::queue::Queue;
use crate::virtio_device;
use crate::virtio_device::{BadActivate, QueueConfig};

verus! {

pub const VIRTIO_ID_VSOCK: u32 = 19;

pub const VSOCK_DEVICE_NAME: &'static str = "virtio-vsock-vhost";

/// One queue for received packets, one for sent packets, one for events.
pub const NUM_QUEUES: usize = 3;

pub const QUEUE_SIZE: u16 = 256;

/// The most bytes of a saved state that are read back.
pub const MAX_SNAPSHOT_BYTES: usize = 8192;

/// What is saved of a device.
#[derive(Debug)]
pub struct VhostUserVsockState {
    pub guest_cid: u64,
    pub acked_features: u64,
    pub acked_protocol_features: u64,
    /// The position of each queue.
    pub vring_bases: Vec<u16>,
    /// The backend's own state.
    pub daemon_state: Vec<u8>,
    /// Where the backend listened, if it was reached by a path.
    pub socket_path: Option<String>,
}

/// The parts of a saved state in the order in which they are encoded.
pub type VsockParts = (u64, u64, u64, Vec<u16>, Vec<u8>, Option<String>);

impl VhostUserVsockState {
    /// The parts of the state.
    pub open spec fn parts(self) -> VsockParts {
        (
            self.guest_cid,
            self.acked_features,
            self.acked_protocol_features,
            self.vring_bases,
            self.daemon_state,
            self.socket_path,
        )
    }

    /// The parts of the state, to be encoded.
    pub fn into_parts(self) -> (res: VsockParts)
        ensures
            res == self.parts(),
    {
        (
            self.guest_cid,
            self.acked_features,
            self.acked_protocol_features,
            self.vring_bases,
            self.daemon_state,
            self.socket_path,
        )
    }

    /// The state that has these parts.
    pub fn from_parts(parts: VsockParts) -> (res: VhostUserVsockState)
        ensures
            res.parts() == parts,
    {
        let (
            guest_cid,
            acked_features,
            acked_protocol_features,
            vring_bases,
            daemon_state,
            socket_path,
        ) = parts;
        VhostUserVsockState {
            guest_cid,
            acked_features,
            acked_protocol_features,
            vring_bases,
            daemon_state,
            socket_path,
        }
    }
}

/// A saved state is its parts: two states with the same parts are the same.
pub proof fn states_are_their_parts(a: VhostUserVsockState, b: VhostUserVsockState)
    requires
        a.parts() == b.parts(),
    ensures
        a == b,
{
}

/// What the parts of a saved state say.
pub type VsockPartsView = (u64, u64, u64, Seq<u16>, Seq<u8>, Option<Seq<char>>);

/// What a path says, if there is one.
pub open spec fn path_text(path: Option<String>) -> Option<Seq<char>> {
    match path {
        Some(path) => Some(path@),
        None => None,
    }
}

/// What `parts` say.
pub open spec fn parts_view(parts: VsockParts) -> VsockPartsView {
    (parts.0, parts.1, parts.2, parts.3@, parts.4@, path_text(parts.5))
}

/// The bytes of saved parts.
pub uninterp spec fn encoded_vsock(parts: VsockPartsView) -> Seq<u8>;

/// The parts in saved bytes that are read back with a limit; none if they do not hold any.
pub uninterp spec fn decoded_vsock(bytes: Seq<u8>, limit: usize) -> Option<VsockPartsView>;

/// How much of its limit a reader of `parts` takes at the most: eight bytes for each of the two
/// lists and for the path, and what they have in them.
pub open spec fn room_for(parts: VsockPartsView) -> nat {
    24 + 2 * parts.3.len() + parts.4.len() + match parts.5 {
        Some(path) => vstd::utf8::encode_utf8(path).len(),
        None => 0,
    }
}

/// Calls `bincode_next::encode_to_vec` with the standard configuration, in which no part can
/// fail to be encoded, and names the bytes. A reader gets the same parts back, if it has a
/// limit that leaves room for them. The positions go in tuples of one element, whose bytes are
/// those of the element.
#[verifier::external_body]
fn encode_parts(parts: VsockParts) -> (res: Option<Vec<u8>>)
    ensures
        res is Some,
        res->0@ == encoded_vsock(parts_view(parts)),
        forall|limit: usize|
            room_for(parts_view(parts)) <= limit ==> #[trigger] decoded_vsock(res->0@, limit)
                == Some(parts_view(parts)),
{
    let (cid, features, protocol, bases, state, path) = parts;
    let bases: Vec<(u16,)> = bases.into_iter().map(|base| (base,)).collect();
    let record = (cid, features, protocol, bases, state, path);
    bincode_next::encode_to_vec(record, bincode_next::config::standard()).ok()
}

/// Calls `bincode_next::decode_from_slice` with the standard configuration and `LIMIT`, and
/// names the parts. The positions come in tuples of one element, whose bytes are those of the
/// element: for a list of bare numbers the decoder takes a short cut that can take more off
/// its count of bytes than there is.
#[verifier::external_body]
fn decode_parts<const LIMIT: usize>(bytes: &[u8]) -> (res: Option<VsockParts>)
    ensures
        decoded_vsock(bytes@, LIMIT) == match res {
            Some(parts) => Some(parts_view(parts)),
            None => None,
        },
{
    let limited = bincode_next::config::standard().with_limit::<LIMIT>();
    let record = bincode_next::decode_from_slice(bytes, limited).ok()?.0;
    let (cid, features, protocol, bases, state, path) = record;
    let bases: Vec<(u16,)> = bases;
    let bases = bases.into_iter().map(|base| base.0).collect();
    Some((cid, features, protocol, bases, state, path))
}

/// The socket device.
pub struct VhostUserVsock {
    pub vhost_user: VhostUserDevice,
    pub guest_cid: u64,
    pub socket_path: Option<String>,
    pub queue_configs: Vec<QueueConfig>,
    pub queues: Vec<Queue>,
    /// What the next activation goes on from.
    pub pending_restore_state: Option<VhostUserVsockState>,
}

/// An activation, by the step that is next.
#[derive(Clone, Copy, Debug, PartialEq, Eq, Structural)]
pub enum VsockActivation {
    /// Carry out the activation plan.
    Start,
    /// Connect to the backend again, by its saved path.
    Connect,
    /// Negotiate on the new connection.
    Reconnect,
    /// Carry out the activation plan with the saved positions.
    Rings,
    /// Give the backend its state back.
    LoadState,
    Active,
}

/// The step behind `at`, once that has succeeded.
pub open spec fn behind(at: VsockActivation) -> VsockActivation {
    match at {
        VsockActivation::Connect => VsockActivation::Reconnect,
        VsockActivation::Reconnect => VsockActivation::Rings,
        VsockActivation::Rings => VsockActivation::LoadState,
        _ => VsockActivation::Active,
    }
}

/// Whether a device is active after the step `at`.
pub open spec fn active_after(active: bool, at: VsockActivation, succeeded: bool) -> bool {
    match at {
        VsockActivation::Start => active || succeeded,
        VsockActivation::LoadState => succeeded,
        _ => active,
    }
}

/// Whether the rings are stopped behind the step `at`: once they were started, and the step of
/// the activation behind that failed.
pub fn stops_rings(at: VsockActivation, succeeded: bool) -> (res: bool)
    ensures
        res == (!succeeded && at == VsockActivation::LoadState),
{
    match at {
        VsockActivation::LoadState => !succeeded,
        _ => false,
    }
}

/// Whether reading the saved bytes `data` back takes a device from `before` to `after`: the
/// guest's address and the path are taken over at once, the rest is kept for the next
/// activation, for which the device becomes inactive. Bytes that do not hold a state change
/// nothing.
pub open spec fn restores(before: VhostUserVsock, after: VhostUserVsock, data: Seq<u8>) -> bool {
    match decoded_vsock(data, MAX_SNAPSHOT_BYTES) {
        Some(saved) => {
            &&& after.guest_cid == saved.0
            &&& path_text(after.socket_path) == saved.5
            &&& after.pending_restore_state matches Some(state)
            &&& parts_view(state.parts()) == saved
            &&& after == (VhostUserVsock {
                guest_cid: after.guest_cid,
                socket_path: after.socket_path,
                vhost_user: VhostUserDevice { activated: false, ..before.vhost_user },
                pending_restore_state: after.pending_restore_state,
                ..before
            })
        },
        None => after == before,
    }
}

/// Reads the configuration space, which is the guest's address in eight bytes. What lies
/// beyond it reads as zero.
pub fn read_vsock_config(guest_cid: u64, offset: u64, data: &mut [u8])
    ensures
        final(data)@ == virtio_device::window(
            byte_order::le64_bytes(guest_cid),
            offset,
            byte_order::zeros(old(data)@.len()),
        ),
{
    let lo: u32 = (guest_cid % 0x1_0000_0000) as u32;
    let hi: u32 = (guest_cid / 0x1_0000_0000) as u32;
    let bytes: Vec<u8> = vec![
        (lo % 0x100) as u8,
        (lo / 0x100 % 0x100) as u8,
        (lo / 0x1_0000 % 0x100) as u8,
        (lo / 0x100_0000) as u8,
        (hi % 0x100) as u8,
        (hi / 0x100 % 0x100) as u8,
        (hi / 0x1_0000 % 0x100) as u8,
        (hi / 0x100_0000) as u8,
    ];
    assert(bytes@ =~= byte_order::le64_bytes(guest_cid));
    virtio_device::read_zeroed(bytes.as_slice(), offset, data);
}

impl VhostUserVsock {
    /// A device for the guest `guest_cid`.
    pub fn with_cid(
        vhost_user: VhostUserDevice,
        guest_cid: u64,
        socket_path: Option<String>,
    ) -> (res: VhostUserVsock)
        ensures
            res.vhost_user == vhost_user,
            res.guest_cid == guest_cid,
            res.socket_path == socket_path,
            res.queue_configs@ == Seq::new(
                NUM_QUEUES as nat,
                |i: int| QueueConfig { size: QUEUE_SIZE },
            ),
            res.queues@ == Seq::new(NUM_QUEUES as nat, |i: int| queue::empty_queue(QUEUE_SIZE)),
            res.pending_restore_state is None,
    {
        VhostUserVsock {
            vhost_user,
            guest_cid,
            socket_path,
            queue_configs: same_configs(NUM_QUEUES, QUEUE_SIZE),
            queues: empty_queues(NUM_QUEUES, QUEUE_SIZE),
            pending_restore_state: None,
        }
    }

    /// A device for a connected backend, whose configuration is `payload`: it begins with
    /// the guest's address in eight bytes.
    pub fn build_from_device(
        vhost_user: VhostUserDevice,
        socket_path: Option<String>,
        payload: &[u8],
    ) -> (res: Result<VhostUserVsock, VhostError>)
        ensures
            match res {
                Ok(vsock) => {
                    &&& payload@.len() >= 8
                    &&& vsock.vhost_user == vhost_user
                    &&& vsock.guest_cid == byte_order::le_u64(payload@)
                    &&& vsock.socket_path == socket_path
                    &&& vsock.queue_configs@ == Seq::new(
                        NUM_QUEUES as nat,
                        |i: int| QueueConfig { size: QUEUE_SIZE },
                    )
                    &&& vsock.queues@ == Seq::new(
                        NUM_QUEUES as nat,
                        |i: int| queue::empty_queue(QUEUE_SIZE),
                    )
                    &&& vsock.pending_restore_state is None
                },
                Err(error) => payload@.len() < 8 && error == (VhostError::ShortConfig {
                    got: payload@.len() as usize,
                }),
            },
    {
        if payload.len() < 8 {
            return Err(VhostError::ShortConfig { got: payload.len() });
        }
        Ok(VhostUserVsock::with_cid(vhost_user, read_le_u64(payload), socket_path))
    }

    pub fn guest_cid(&self) -> (res: u64)
        ensures
            res == self.guest_cid,
    {
        self.guest_cid
    }

    pub fn device_type(&self) -> (res: u32)
        ensures
            res == VIRTIO_ID_VSOCK,
    {
        VIRTIO_ID_VSOCK
    }

    pub fn device_name(&self) -> (res: &'static str)
        ensures
            res@ == VSOCK_DEVICE_NAME@,
    {
        VSOCK_DEVICE_NAME
    }

    pub fn queue_config(&self) -> (res: &Vec<QueueConfig>)
        ensures
            *res == self.queue_configs,
    {
        &self.queue_configs
    }

    pub fn queues(&self) -> (res: &Vec<Queue>)
        ensures
            *res == self.queues,
    {
        &self.queues
    }

    pub fn queues_mut(&mut self) -> (res: &mut [Queue])
        ensures
            res@ == old(self).queues@,
            final(self).queues@ == final(res)@,
            *final(self) == (VhostUserVsock { queues: final(self).queues, ..*old(self) }),
    {
        self.queues.as_mut_slice()
    }

    pub fn avail_features(&self) -> (res: u64)
        ensures
            res == self.vhost_user.avail_features,
    {
        self.vhost_user.avail_features()
    }

    pub fn acked_features(&self) -> (res: u64)
        ensures
            res == self.vhost_user.acked_features,
    {
        self.vhost_user.acked_features()
    }

    pub fn set_acked_features(&mut self, acked_features: u64)
        ensures
            *final(self) == (VhostUserVsock {
                vhost_user: VhostUserDevice { acked_features, ..old(self).vhost_user },
                ..*old(self)
            }),
    {
        self.vhost_user.set_acked_features(acked_features);
    }

    pub fn is_activated(&self) -> (res: bool)
        ensures
            res == self.vhost_user.activated,
    {
        self.vhost_user.is_activated()
    }

    pub fn reset(&mut self) -> (res: bool)
        ensures
            res,
            *final(self) == (VhostUserVsock {
                vhost_user: VhostUserDevice { activated: false, ..old(self).vhost_user },
                ..*old(self)
            }),
    {
        self.vhost_user.reset()
    }

    pub fn read_config(&self, offset: u64, data: &mut [u8])
        ensures
            final(data)@ == virtio_device::window(
                byte_order::le64_bytes(self.guest_cid),
                offset,
                byte_order::zeros(old(data)@.len()),
            ),
    {
        read_vsock_config(self.guest_cid, offset, data);
    }

    /// What the guest writes to the configuration space changes nothing.
    pub fn write_config(&mut self, _offset: u64, _data: &[u8])
        ensures
            *final(self) == *old(self),
    {
    }

    /// Begins an activation. A device that was restored goes on from its saved state, which
    /// is handed out once: it connects again if it has a path, and keeps its connection if
    /// not. Any other device takes over the positions of its queues.
    pub fn activate(&mut self, queues: &Vec<Queue>) -> (res: (
        VsockActivation,
        Option<VhostUserVsockState>,
    ))
        ensures
            res.1 == old(self).pending_restore_state,
            match old(self).pending_restore_state {
                Some(state) => {
                    &&& res.0 == if state.socket_path is Some {
                        VsockActivation::Connect
                    } else {
                        VsockActivation::Rings
                    }
                    &&& *final(self) == (VhostUserVsock {
                        pending_restore_state: None,
                        ..*old(self)
                    })
                },
                None => {
                    &&& res.0 == VsockActivation::Start
                    &&& final(self).queues@ == device::all_repositioned(old(self).queues@, queues@)
                    &&& *final(self) == (VhostUserVsock {
                        queues: final(self).queues,
                        ..*old(self)
                    })
                },
            },
    {
        match self.pending_restore_state.take() {
            Some(state) => {
                let first = if state.socket_path.is_some() {
                    VsockActivation::Connect
                } else {
                    VsockActivation::Rings
                };
                (first, Some(state))
            },
            None => {
                take_positions(&mut self.queues, queues);
                (VsockActivation::Start, None)
            },
        }
    }

    /// Takes note of how the step `at` went, and gives the next one.
    pub fn advance(&mut self, at: VsockActivation, succeeded: bool) -> (res: Result<
        VsockActivation,
        BadActivate,
    >)
        ensures
            *final(self) == (VhostUserVsock {
                vhost_user: VhostUserDevice {
                    activated: active_after(old(self).vhost_user.activated, at, succeeded),
                    ..old(self).vhost_user
                },
                ..*old(self)
            }),
            res == if succeeded {
                Ok::<VsockActivation, BadActivate>(behind(at))
            } else {
                Err(BadActivate)
            },
    {
        if !succeeded {
            if let VsockActivation::LoadState = at {
                let _ = self.vhost_user.reset();
            }
            return Err(BadActivate);
        }
        Ok(
            match at {
                VsockActivation::Start => {
                    self.vhost_user.mark_activated();
                    VsockActivation::Active
                },
                VsockActivation::Connect => VsockActivation::Reconnect,
                VsockActivation::Reconnect => VsockActivation::Rings,
                VsockActivation::Rings => VsockActivation::LoadState,
                VsockActivation::LoadState => {
                    self.vhost_user.mark_activated();
                    VsockActivation::Active
                },
                VsockActivation::Active => VsockActivation::Active,
            },
        )
    }

    /// The queue whose position is to be asked for next when the device is saved, once
    /// those of `taken` queues are there.
    pub fn next_to_save(&self, taken: usize) -> (res: Option<usize>)
        ensures
            res == if taken < self.queue_configs@.len() {
                Some(taken)
            } else {
                None
            },
    {
        if taken < self.queue_configs.len() {
            Some(taken)
        } else {
            None
        }
    }

    /// What is saved of the device, with the positions of its queues and the state of its
    /// backend.
    pub fn save_backend_state(&self, vring_bases: Vec<u16>, daemon_state: Vec<u8>) -> (res:
        VhostUserVsockState)
        ensures
            res == (VhostUserVsockState {
                guest_cid: self.guest_cid,
                acked_features: self.vhost_user.acked_features,
                acked_protocol_features: self.vhost_user.acked_protocol_features,
                vring_bases,
                daemon_state,
                socket_path: self.socket_path,
            }),
    {
        let socket_path: Option<String> = match &self.socket_path {
            Some(path) => Some(path.clone()),
            None => None,
        };
        VhostUserVsockState {
            guest_cid: self.guest_cid,
            acked_features: self.vhost_user.acked_features(),
            acked_protocol_features: self.vhost_user.acked_protocol_features(),
            vring_bases,
            daemon_state,
            socket_path,
        }
    }

    /// What is saved of the device, with the positions of its queues and the state of its
    /// backend.
    pub open spec fn saved_parts(
        &self,
        vring_bases: Seq<u16>,
        daemon_state: Seq<u8>,
    ) -> VsockPartsView {
        (
            self.guest_cid,
            self.vhost_user.acked_features,
            self.vhost_user.acked_protocol_features,
            vring_bases,
            daemon_state,
            path_text(self.socket_path),
        )
    }

    /// The bytes of what is saved of the device, with the positions of its queues and the
    /// state of its backend.
    pub fn save_to_bytes(&self, vring_bases: Vec<u16>, daemon_state: Vec<u8>) -> (res: Option<
        Vec<u8>,
    >)
        ensures
            res matches Some(bytes) && bytes@ == encoded_vsock(
                self.saved_parts(vring_bases@, daemon_state@),
            ),
            room_for(self.saved_parts(vring_bases@, daemon_state@)) <= MAX_SNAPSHOT_BYTES
                ==> decoded_vsock(res->0@, MAX_SNAPSHOT_BYTES) == Some(
                self.saved_parts(vring_bases@, daemon_state@),
            ),
    {
        encode_parts(self.save_backend_state(vring_bases, daemon_state).into_parts())
    }

    /// Takes over the state in saved bytes.
    pub fn restore_from_bytes(&mut self, data: &[u8])
        ensures
            restores(*old(self), *final(self), data@),
    {
        let state: Option<VhostUserVsockState> = match decode_parts::<MAX_SNAPSHOT_BYTES>(data) {
            Some(parts) => Some(VhostUserVsockState::from_parts(parts)),
            None => None,
        };
        self.restore_backend_state(state);
    }

    /// Takes over a saved state: the guest's address and the path at once, the rest when the
    /// device is activated, for which it becomes inactive. Where nothing could be read back,
    /// nothing happens.
    pub fn restore_backend_state(&mut self, state: Option<VhostUserVsockState>)
        ensures
            *final(self) == match state {
                Some(saved) => VhostUserVsock {
                    guest_cid: saved.guest_cid,
                    socket_path: saved.socket_path,
                    vhost_user: VhostUserDevice { activated: false, ..old(self).vhost_user },
                    pending_restore_state: Some(saved),
                    ..*old(self)
                },
                None => *old(self),
            },
    {
        match state {
            Some(saved) => {
                self.guest_cid = saved.guest_cid;
                self.socket_path = match &saved.socket_path {
                    Some(path) => Some(path.clone()),
                    None => None,
                };
                self.vhost_user.mark_inactive();
                self.pending_restore_state = Some(saved);
            },
            None => {},
        }
    }
}

/// What a device saves it takes over again, unless it is longer than what is read back: after a
/// restore the guest's address and the path are those of the device that was saved, and the
/// next activation goes on from the positions, the features and the state of the backend that
/// were saved.
pub proof fn restore_gives_back_what_was_saved(
    saved: VhostUserVsock,
    vring_bases: Seq<u16>,
    daemon_state: Seq<u8>,
    data: Seq<u8>,
    before: VhostUserVsock,
    after: VhostUserVsock,
)
    requires
        restores(before, after, data),
    ensures
        decoded_vsock(data, MAX_SNAPSHOT_BYTES) == Some(
            saved.saved_parts(vring_bases, daemon_state),
        ) ==> {
            &&& after.guest_cid == saved.guest_cid
            &&& path_text(after.socket_path) == path_text(saved.socket_path)
            &&& !after.vhost_user.activated
            &&& after.pending_restore_state matches Some(state)
            &&& state.vring_bases@ == vring_bases
            &&& state.daemon_state@ == daemon_state
            &&& state.acked_features == saved.vhost_user.acked_features
            &&& state.acked_protocol_features == saved.vhost_user.acked_protocol_features
        },
{
}

/// The guest reads its address in the configuration space, in any two halves alike.
pub proof fn config_holds_the_cid(guest_cid: u64)
    ensures
        virtio_device::window(
            byte_order::le64_bytes(guest_cid),
            0,
            byte_order::zeros(8),
        ) == byte_order::le64_bytes(guest_cid),
        virtio_device::window(
            byte_order::le64_bytes(guest_cid),
            0,
            byte_order::zeros(4),
        ) + virtio_device::window(
            byte_order::le64_bytes(guest_cid),
            4,
            byte_order::zeros(4),
        ) == byte_order::le64_bytes(guest_cid),
{
    let bytes = byte_order::le64_bytes(guest_cid);
    assert(bytes.len() == 8);
    assert(virtio_device::window(bytes, 0, byte_order::zeros(8)) =~= bytes);
    assert(virtio_device::window(bytes, 0, byte_order::zeros(4)) + virtio_device::window(
        bytes,
        4,
        byte_order::zeros(4),
    ) =~= bytes);
}

/// A device that is restored connects, negotiates again, sets up its rings and loads what was
/// saved, in this order. A device becomes active with its rings if it is new, and with what was
/// saved if it is restored.
pub proof fn activations_take_their_course(active: bool, done: bool)
    ensures
        ({
            let a = behind(VsockActivation::Connect);
            let b = behind(a);
            let c = behind(b);
            &&& a == VsockActivation::Reconnect
            &&& b == VsockActivation::Rings
            &&& c == VsockActivation::LoadState
            &&& behind(c) == VsockActivation::Active
        }),
        behind(VsockActivation::Start) == VsockActivation::Active,
        active_after(active, VsockActivation::Start, true),
        active_after(active, VsockActivation::LoadState, true),
        !active_after(active, VsockActivation::LoadState, false),
        active_after(active, VsockActivation::Start, false) == active,
        active_after(active, VsockActivation::Connect, done) == active,
        active_after(active, VsockActivation::Reconnect, done) == active,
        active_after(active, VsockActivation::Rings, done) == active,
{
}

/// What is saved is what the device has: each part of it stands for the part of that name.
pub proof fn what_is_saved_is_what_there_is(
    vsock: VhostUserVsock,
    bases: Seq<u16>,
    state: Seq<u8>,
    kept: VhostUserVsockState,
)
    ensures
        ({
            let s = vsock.saved_parts(bases, state);
            &&& s.0 == vsock.guest_cid
            &&& s.1 == vsock.vhost_user.acked_features
            &&& s.2 == vsock.vhost_user.acked_protocol_features
            &&& s.3 == bases && s.4 == state
            &&& vsock.socket_path is None ==> s.5 is None
            &&& vsock.socket_path matches Some(path) ==> s.5 == Some(path@)
        }),
        ({
            let v = parts_view(kept.parts());
            &&& v.0 == kept.guest_cid && v.1 == kept.acked_features
            &&& v.2 == kept.acked_protocol_features
            &&& v.3 == kept.vring_bases@ && v.4 == kept.daemon_state@
            &&& kept.socket_path is None ==> v.5 is None
            &&& kept.socket_path matches Some(path) ==> v.5 == Some(path@)
        }),
{
}

/// A device that is restored takes over the address and the path that were saved, is not active,
/// and keeps the rest; bytes that hold nothing change nothing.
pub proof fn restored_devices_take_over_what_was_saved(
    before: VhostUserVsock,
    after: VhostUserVsock,
    data: Seq<u8>,
)
    requires
        restores(before, after, data),
    ensures
        decoded_vsock(data, 8192) is None ==> after == before,
        decoded_vsock(data, 8192) matches Some(saved) ==> {
            &&& after.guest_cid == saved.0
            &&& after.socket_path is None <==> saved.5 is None
            &&& after.socket_path matches Some(path) ==> saved.5 == Some(path@)
            &&& !after.vhost_user.activated
            &&& after.vhost_user.acked_features == before.vhost_user.acked_features
            &&& after.pending_restore_state is Some
            &&& parts_view(after.pending_restore_state->0.parts()) == saved
            &&& after.queues == before.queues
        },
{
}

} // verus!
