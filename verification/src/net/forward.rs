//! What the proxy does on an event of a host socket, step by step: each step says which
//! socket call is next, and takes the outcome of the one before.
use vstd::prelude::*;

use super::reply;
use super::reply::{udp_reply, MAX_UDP_PAYLOAD};
use super::sessions;
use super::sessions::{ConnKind, Endpoint, EphemeralPorts, Sessions};

verus! {

/// The most bytes read from a host socket at once.
pub const HOST_READ_SIZE: usize = 2048;

/// The address of the guest.
pub const VM_IP: u32 = 0xc0a8_6402;

/// The address of the proxy.
pub const PROXY_IP: u32 = 0xc0a8_6401;

/// The guest's side of a connection, as the TCP/IP stack reports it.
#[derive(Clone, Copy, Debug, PartialEq, Eq, Structural)]
pub struct SocketStatus {
    /// The connection is closed, or waits only for stray segments.
    pub closed: bool,
    pub active: bool,
    pub may_send: bool,
    pub may_recv: bool,
    pub can_send: bool,
    pub can_recv: bool,
    pub send_capacity: usize,
    pub send_queue: usize,
}

/// Where the forwarding on a connection stands.
#[derive(Clone, Copy, Debug, PartialEq, Eq, Structural)]
pub enum Phase {
    /// From the host to the guest.
    Reading,
    /// From the guest to the host.
    Writing,
    /// Both directions are done for now.
    Settling,
}

/// What an event on a connection begins with.
#[derive(Clone, Copy, Debug, PartialEq, Eq, Structural)]
pub enum Begin {
    /// The connection is over: forget it.
    Remove,
    /// The connection is still being set up: nothing is to be done yet.
    Wait,
    Run { phase: Phase },
}

/// The next call on a host socket.
#[derive(Clone, Copy, Debug, PartialEq, Eq, Structural)]
pub enum HostStep {
    /// Read up to `limit` bytes from the host.
    ReadHost { limit: usize },
    /// Write to the host what the guest has sent.
    WriteHost,
    /// Wait for the host to send, and for room to write if `writable`. The event is over.
    Register { writable: bool },
}

/// The phase behind reading.
pub open spec fn behind_reading(writable: bool) -> Phase {
    if writable {
        Phase::Writing
    } else {
        Phase::Settling
    }
}

/// What an event begins with.
pub open spec fn begin_of(status: SocketStatus, readable: bool, writable: bool) -> Begin {
    if status.closed {
        Begin::Remove
    } else if !status.active || (!status.may_send && !status.may_recv) {
        Begin::Wait
    } else if readable {
        Begin::Run { phase: Phase::Reading }
    } else {
        Begin::Run { phase: behind_reading(writable) }
    }
}

/// Decides what an event on a connection begins with.
pub fn begin(status: &SocketStatus, readable: bool, writable: bool) -> (res: Begin)
    ensures
        res == begin_of(*status, readable, writable),
{
    if status.closed {
        Begin::Remove
    } else if !status.active || (!status.may_send && !status.may_recv) {
        Begin::Wait
    } else if readable {
        Begin::Run { phase: Phase::Reading }
    } else if writable {
        Begin::Run { phase: Phase::Writing }
    } else {
        Begin::Run { phase: Phase::Settling }
    }
}

/// How many bytes are read at once: what the guest's buffer takes, up to the read size.
pub open spec fn read_limit(status: SocketStatus) -> usize {
    if status.send_capacity - status.send_queue < HOST_READ_SIZE {
        (status.send_capacity - status.send_queue) as usize
    } else {
        HOST_READ_SIZE
    }
}

/// The next step in `phase`.
pub open spec fn step_of(phase: Phase, status: SocketStatus, writable: bool) -> (Phase, HostStep) {
    if phase == Phase::Reading && status.can_send {
        (Phase::Reading, HostStep::ReadHost { limit: read_limit(status) })
    } else if (phase == Phase::Writing || (phase == Phase::Reading && writable))
        && status.can_recv {
        (Phase::Writing, HostStep::WriteHost)
    } else {
        (Phase::Settling, HostStep::Register { writable: status.can_recv })
    }
}

/// Decides on the next step. Reading ends where the guest's buffer is full, writing where
/// there is nothing left to write.
pub fn next_step(phase: Phase, status: &SocketStatus, writable: bool) -> (res: (Phase, HostStep))
    requires
        status.send_queue <= status.send_capacity,
    ensures
        res == step_of(phase, *status, writable),
{
    let mut phase = phase;
    if let Phase::Reading = phase {
        if status.can_send {
            let room: usize = status.send_capacity - status.send_queue;
            let limit: usize = if room < HOST_READ_SIZE {
                room
            } else {
                HOST_READ_SIZE
            };
            return (Phase::Reading, HostStep::ReadHost { limit });
        }
        phase = if writable {
            Phase::Writing
        } else {
            Phase::Settling
        };
    }
    if let Phase::Writing = phase {
        if status.can_recv {
            return (Phase::Writing, HostStep::WriteHost);
        }
    }
    (Phase::Settling, HostStep::Register { writable: status.can_recv })
}

/// How a read from the host came out.
#[derive(Clone, Copy, Debug, PartialEq, Eq, Structural)]
pub enum ReadOutcome {
    /// The host has closed the connection.
    Eof,
    /// Some bytes came.
    Data,
    /// There is nothing to read now.
    WouldBlock,
    Failed,
}

/// What is to be done with the guest's side of a connection.
#[derive(Clone, Copy, Debug, PartialEq, Eq, Structural)]
pub enum SocketOp {
    Nothing,
    /// Send the bytes that were read.
    Send,
    Close,
    Abort,
}

/// What a read from the host leads to.
pub open spec fn read_result(outcome: ReadOutcome, writable: bool) -> (Phase, SocketOp) {
    match outcome {
        ReadOutcome::Eof => (behind_reading(writable), SocketOp::Close),
        ReadOutcome::Data => (Phase::Reading, SocketOp::Send),
        ReadOutcome::WouldBlock => (behind_reading(writable), SocketOp::Nothing),
        ReadOutcome::Failed => (behind_reading(writable), SocketOp::Abort),
    }
}

/// Decides what a read from the host leads to.
pub fn after_read(outcome: ReadOutcome, writable: bool) -> (res: (Phase, SocketOp))
    ensures
        res == read_result(outcome, writable),
{
    let behind = if writable {
        Phase::Writing
    } else {
        Phase::Settling
    };
    match outcome {
        ReadOutcome::Eof => (behind, SocketOp::Close),
        ReadOutcome::Data => (Phase::Reading, SocketOp::Send),
        ReadOutcome::WouldBlock => (behind, SocketOp::Nothing),
        ReadOutcome::Failed => (behind, SocketOp::Abort),
    }
}

/// How a write to the host came out.
#[derive(Clone, Copy, Debug, PartialEq, Eq, Structural)]
pub enum WriteOutcome {
    /// So many bytes were written.
    Wrote { count: usize },
    /// The host takes no more now.
    WouldBlock,
    Failed,
    /// The guest's side could not be read.
    SocketFailed,
}

/// What a write to the host leads to.
#[derive(Clone, Copy, Debug, PartialEq, Eq, Structural)]
pub struct WriteResult {
    pub phase: Phase,
    /// How many of the guest's bytes are done with.
    pub consumed: usize,
    pub abort: bool,
}

/// What a write of up to `offered` bytes leads to: after a failure all of them are done
/// with, as the connection is aborted.
pub open spec fn write_result(outcome: WriteOutcome, offered: usize) -> WriteResult {
    match outcome {
        WriteOutcome::Wrote { count } => WriteResult {
            phase: if count == 0 {
                Phase::Settling
            } else {
                Phase::Writing
            },
            consumed: count,
            abort: false,
        },
        WriteOutcome::WouldBlock => WriteResult {
            phase: Phase::Settling,
            consumed: 0,
            abort: false,
        },
        WriteOutcome::Failed => WriteResult {
            phase: Phase::Settling,
            consumed: offered,
            abort: true,
        },
        WriteOutcome::SocketFailed => WriteResult {
            phase: Phase::Settling,
            consumed: 0,
            abort: true,
        },
    }
}

/// Decides what a write to the host leads to.
pub fn after_write(outcome: WriteOutcome, offered: usize) -> (res: WriteResult)
    ensures
        res == write_result(outcome, offered),
{
    match outcome {
        WriteOutcome::Wrote { count } => {
            let phase = if count == 0 {
                Phase::Settling
            } else {
                Phase::Writing
            };
            WriteResult { phase, consumed: count, abort: false }
        },
        WriteOutcome::WouldBlock => WriteResult {
            phase: Phase::Settling,
            consumed: 0,
            abort: false,
        },
        WriteOutcome::Failed => WriteResult {
            phase: Phase::Settling,
            consumed: offered,
            abort: true,
        },
        WriteOutcome::SocketFailed => WriteResult {
            phase: Phase::Settling,
            consumed: 0,
            abort: true,
        },
    }
}

/// Forwarding makes progress: a step either ends the event, or reads into room that is
/// there, or writes what is there; and no phase is entered again once it is left.
pub proof fn steps_go_forward(phase: Phase, status: SocketStatus, writable: bool)
    requires
        status.send_queue <= status.send_capacity,
    ensures
        ({
            let (next, step) = step_of(phase, status, writable);
            &&& step matches HostStep::ReadHost { limit } ==> {
                &&& phase == Phase::Reading && status.can_send
                &&& limit <= HOST_READ_SIZE
                &&& limit + status.send_queue <= status.send_capacity
            }
            &&& step is WriteHost ==> phase != Phase::Settling && status.can_recv
            &&& phase == Phase::Settling ==> next == Phase::Settling && step is Register
            &&& phase == Phase::Writing ==> next != Phase::Reading
            &&& step is Register <==> next == Phase::Settling
        }),
{
}

/// The events to wait for on a host socket.
#[derive(Clone, Copy, Debug, PartialEq, Eq, Structural)]
pub struct Interest {
    pub readable: bool,
    pub writable: bool,
}

/// The events to wait for between two rounds of the proxy: to write what the guest has
/// sent, to read what the guest can take; nothing changes where there is neither.
pub fn poll_interest(can_recv: bool, can_send: bool) -> (res: Option<Interest>)
    ensures
        res == if can_recv || can_send {
            Some(Interest { readable: can_send, writable: can_recv })
        } else {
            None
        },
{
    if can_recv && can_send {
        Some(Interest { readable: true, writable: true })
    } else if can_recv {
        Some(Interest { readable: false, writable: true })
    } else if can_send {
        Some(Interest { readable: true, writable: false })
    } else {
        None
    }
}

/// How accepting a connection from a listener came out.
#[derive(Clone, Copy, Debug, PartialEq, Eq, Structural)]
pub enum AcceptOutcome {
    Accepted,
    WouldBlock,
    Failed,
}

/// What is to be done about a listener.
#[derive(Clone, Copy, Debug, PartialEq, Eq, Structural)]
pub enum AcceptStep {
    /// No more connections for now.
    Stop,
    /// The connection is dropped, as there is no port for it; look for the next.
    Refuse,
    /// Connect `local` to the guest's `remote` and keep the connection as `token`; then look
    /// for the next.
    Connect { token: u64, local: Endpoint, remote: Endpoint },
}

/// Handles one outcome of accepting connections for `guest_port`.
pub fn accept_step(
    outcome: AcceptOutcome,
    guest_port: u16,
    ports: &mut EphemeralPorts,
    in_use: &Vec<u16>,
    table: &mut Sessions,
    now: u64,
) -> (res: AcceptStep)
    requires
        old(ports).sound(),
        old(table)@.next_token < u64::MAX,
    ensures
        final(ports).sound(),
        match outcome {
            AcceptOutcome::Accepted => match res {
                AcceptStep::Connect { token, local, remote } => {
                    &&& token == old(table)@.next_token
                    &&& local.addr == PROXY_IP
                    &&& sessions::finds_port(
                        old(ports).next,
                        in_use@,
                        local.port,
                        final(ports).next,
                    )
                    &&& remote == (Endpoint { addr: VM_IP, port: guest_port })
                    &&& final(table)@ == sessions::with_conn(old(table)@, ConnKind::Unix, now)
                },
                AcceptStep::Refuse => {
                    &&& final(table)@ == old(table)@
                    &&& final(ports).next == old(ports).next
                    &&& forall|port: u16|
                        sessions::EPHEMERAL_PORT_MIN <= port ==> #[trigger] in_use@.contains(port)
                },
                AcceptStep::Stop => false,
            },
            _ => {
                &&& res == AcceptStep::Stop
                &&& final(table)@ == old(table)@
                &&& final(ports).next == old(ports).next
            },
        },
{
    match outcome {
        AcceptOutcome::Accepted => match ports.get_ephemeral_port(in_use) {
            Ok(port) => {
                let token: u64 = table.open(ConnKind::Unix, now);
                AcceptStep::Connect {
                    token,
                    local: Endpoint { addr: PROXY_IP, port },
                    remote: Endpoint { addr: VM_IP, port: guest_port },
                }
            },
            Err(_) => AcceptStep::Refuse,
        },
        _ => AcceptStep::Stop,
    }
}

/// What an event on a host socket calls for.
#[derive(Clone, Copy, Debug, PartialEq, Eq, Structural)]
pub enum HostEvent {
    /// No connection has this token.
    Ignore,
    /// Forward in both directions.
    Stream,
    /// Receive datagrams for the guest endpoint.
    Datagrams { guest: Endpoint },
    /// Nothing to receive, or nobody to receive it.
    Idle,
}

/// Decides what an event on the host socket `token` calls for.
pub fn host_event(table: &Sessions, token: u64, readable: bool) -> (res: HostEvent)
    ensures
        res == if !table@.conns.contains_key(token) {
            HostEvent::Ignore
        } else if table@.conns[token].kind != ConnKind::Udp {
            HostEvent::Stream
        } else if readable && table@.reverse.contains_key(token) {
            HostEvent::Datagrams { guest: table@.reverse[token].0 }
        } else {
            HostEvent::Idle
        },
{
    match table.conn(token) {
        Some(conn) => match conn.kind {
            ConnKind::Udp => match table.reply_to(token) {
                Some(guest) => if readable {
                    HostEvent::Datagrams { guest }
                } else {
                    HostEvent::Idle
                },
                None => HostEvent::Idle,
            },
            _ => HostEvent::Stream,
        },
        None => HostEvent::Ignore,
    }
}

/// How receiving a datagram from a host socket came out.
pub enum RecvOutcome {
    Datagram { from: Endpoint, payload: Vec<u8> },
    /// There is none now.
    WouldBlock,
    Failed,
}

/// The packet for the guest endpoint `guest` that an outcome of receiving gives; there is
/// none where the receiving is over.
pub fn after_recv(outcome: RecvOutcome, guest: Endpoint) -> (res: Option<Vec<u8>>)
    requires
        outcome matches RecvOutcome::Datagram { payload, .. } ==> payload@.len() <= MAX_UDP_PAYLOAD,
    ensures
        match outcome {
            RecvOutcome::Datagram { from, payload } => {
                let plain = reply::unsummed(from, guest, payload@);
                &&& res is Some
                &&& res->0@ == reply::datagram_bytes(
                    from,
                    guest,
                    payload@,
                    reply::ipv4_checksum_of(plain),
                    reply::udp_checksum_of(plain),
                )
            },
            _ => res is None,
        },
{
    match outcome {
        RecvOutcome::Datagram { from, payload } => Some(
            udp_reply(from, guest, payload.as_slice()),
        ),
        _ => None,
    }
}

/// What an event does first on a connection that is open: if the host has sent something and
/// the guest has room, that is read, as much as fits; else, if the host takes something and the
/// guest has sent something, that is written; else the host socket is waited for. A connection
/// that is closed is forgotten, and one that is being set up is left alone.
pub proof fn waiting_data_goes_first(status: SocketStatus, readable: bool, writable: bool)
    requires
        status.send_queue <= status.send_capacity,
    ensures
        begin_of(status, readable, writable) is Remove <==> status.closed,
        begin_of(status, readable, writable) is Wait <==> !status.closed && (!status.active || !(
        status.may_send || status.may_recv)),
        begin_of(status, readable, writable) matches Begin::Run { phase } ==> {
            let (next, step) = step_of(phase, status, writable);
            let room = status.send_capacity - status.send_queue;
            &&& step is ReadHost <==> readable && status.can_send
            &&& step is WriteHost <==> writable && status.can_recv && !(readable
                && status.can_send)
            &&& step is Register <==> !(readable && status.can_send) && !(writable
                && status.can_recv)
            &&& step matches HostStep::ReadHost { limit } ==> {
                &&& limit <= room && limit <= 2048
                &&& limit == room || limit == 2048
            }
            &&& step matches HostStep::Register { writable: waits } ==> waits == status.can_recv
        },
{
}

/// A read that gave bytes hands them to the guest and is followed by another, as long as there
/// is room. One that gave none is followed by the other direction: what the guest has sent is
/// written, if the host takes something. The guest's side is closed exactly when the host has
/// closed, and aborted exactly on a failure.
pub proof fn reading_leads_on(outcome: ReadOutcome, status: SocketStatus, writable: bool)
    requires
        status.send_queue <= status.send_capacity,
    ensures
        ({
            let (phase, op) = read_result(outcome, writable);
            let (next, step) = step_of(phase, status, writable);
            &&& op is Send <==> outcome is Data
            &&& op is Close <==> outcome is Eof
            &&& op is Abort <==> outcome is Failed
            &&& op is Nothing <==> outcome is WouldBlock
            &&& step is ReadHost <==> outcome is Data && status.can_send
            &&& step is WriteHost <==> !(outcome is Data && status.can_send) && writable
                && status.can_recv
        }),
{
}

/// A write takes exactly the bytes off the guest that the host has got, and is followed by
/// another as long as there are more. After one that the host did not take, nothing is taken off
/// and the socket is waited for. A failure aborts the connection.
pub proof fn writing_leads_on(
    outcome: WriteOutcome,
    offered: usize,
    status: SocketStatus,
    writable: bool,
)
    requires
        status.send_queue <= status.send_capacity,
        outcome matches WriteOutcome::Wrote { count } ==> count <= offered,
    ensures
        ({
            let res = write_result(outcome, offered);
            let (next, step) = step_of(res.phase, status, writable);
            &&& res.consumed <= offered
            &&& outcome matches WriteOutcome::Wrote { count } ==> res.consumed == count
            &&& outcome is WouldBlock || outcome is SocketFailed ==> res.consumed == 0
            &&& outcome is Failed ==> res.consumed == offered
            &&& res.abort <==> outcome is Failed || outcome is SocketFailed
            &&& step is WriteHost <==> status.can_recv && (outcome matches WriteOutcome::Wrote {
                count,
            } && count > 0)
            &&& !(step is WriteHost) ==> step == (HostStep::Register { writable: status.can_recv })
        }),
{
}

} // verus!
