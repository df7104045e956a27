//! The sessions of the network proxy: which host connection belongs to which guest endpoint.
use std::collections::HashMap;
use vstd::prelude::*;

use super::dissect;
use super::dissect::{
    parse_ethernet, parse_ipv4, parse_tcp, parse_udp, PROTOCOL_TCP, PROTOCOL_UDP, TCP_SYN,
};
use crate::byte_order;

verus! {

broadcast use vstd::std_specs::hash::group_hash_axioms;

/// The token of the transmit queue's event.
pub const VIRTQ_TX_TOKEN: u64 = 0;

/// The token of the receive queue's event.
pub const VIRTQ_RX_TOKEN: u64 = 1;

/// The first token of a host socket.
pub const HOST_SOCKET_START_TOKEN: u64 = 2;

/// How long a UDP session may be idle, in milliseconds.
pub const UDP_TIMEOUT_MS: u64 = 30_000;

/// How often idle UDP sessions are looked for, in milliseconds.
pub const CLEANUP_INTERVAL_MS: u64 = 5_000;

/// An IPv4 address and a port.
#[derive(Clone, Copy, Debug, PartialEq, Eq, Structural)]
pub struct Endpoint {
    pub addr: u32,
    pub port: u16,
}

impl Endpoint {
    /// The number that stands for the endpoint in the tables.
    pub open spec fn key(&self) -> u64 {
        (self.addr * 0x1_0000 + self.port) as u64
    }

    pub fn to_key(&self) -> (res: u64)
        ensures
            res == self.key(),
    {
        self.addr as u64 * 0x1_0000 + self.port as u64
    }
}

/// Different endpoints have different keys.
pub proof fn endpoint_keys_differ(a: Endpoint, b: Endpoint)
    ensures
        a.key() == b.key() <==> a == b,
{
}

/// What a host connection is.
#[derive(Clone, Copy, Debug, PartialEq, Eq, Structural)]
pub enum ConnKind {
    Tcp,
    Udp,
    Unix,
}

/// A host connection.
#[derive(Clone, Copy, Debug, PartialEq, Eq, Structural)]
pub struct Conn {
    pub kind: ConnKind,
    /// When the connection was last active, in milliseconds.
    pub last_activity: u64,
}

/// The tables of the proxy as maps.
#[verifier::ext_equal]
pub struct SessionMaps {
    pub next_token: u64,
    pub conns: Map<u64, Conn>,
    /// Guest endpoint to token.
    pub nat: Map<u64, u64>,
    /// Token to guest endpoint and destination.
    pub reverse: Map<u64, (Endpoint, Endpoint)>,
    /// Token to guest port.
    pub listeners: Map<u64, u16>,
}

/// What a frame of the guest turns out to be.
pub enum Session {
    /// Nothing that opens or carries a session: it is for the TCP/IP stack.
    Other,
    /// The first segment of a TCP connection.
    TcpSyn { guest: Endpoint, dest: Endpoint },
    /// A UDP datagram.
    Udp { guest: Endpoint, dest: Endpoint, payload: Vec<u8> },
}

/// The IPv4 packet in a frame.
pub open spec fn ip_in(frame: Seq<u8>) -> Seq<u8> {
    frame.skip(14)
}

/// The guest endpoint of an IPv4 packet with ports.
pub open spec fn guest_of(ip: Seq<u8>) -> Endpoint {
    Endpoint {
        addr: byte_order::be_u32(byte_order::tail(ip, 12)),
        port: byte_order::be_u16(dissect::ipv4_payload(ip)),
    }
}

/// The destination of an IPv4 packet with ports.
pub open spec fn dest_of(ip: Seq<u8>) -> Endpoint {
    Endpoint {
        addr: byte_order::be_u32(byte_order::tail(ip, 16)),
        port: byte_order::be_u16(byte_order::tail(dissect::ipv4_payload(ip), 2)),
    }
}

/// Whether the frame holds an IPv4 packet with the protocol and at least `len` bytes of
/// payload.
pub open spec fn carries(frame: Seq<u8>, protocol: u8, len: int) -> bool {
    &&& frame.len() >= 14
    &&& ip_in(frame).len() >= 20
    &&& ip_in(frame)[9] == protocol
    &&& dissect::ipv4_payload(ip_in(frame)).len() >= len
}

/// Whether the frame holds a TCP segment with the SYN flag and no other.
pub open spec fn is_syn(frame: Seq<u8>) -> bool {
    carries(frame, PROTOCOL_TCP, 20) && dissect::ipv4_payload(ip_in(frame))[13] == TCP_SYN
}

/// Whether the frame holds a UDP datagram.
pub open spec fn is_datagram(frame: Seq<u8>) -> bool {
    carries(frame, PROTOCOL_UDP, 8)
}

/// Looks for the start of a TCP connection or a UDP datagram in a frame of the guest.
pub fn classify(frame: &[u8]) -> (res: Session)
    ensures
        match res {
            Session::TcpSyn { guest, dest } => {
                &&& is_syn(frame@)
                &&& guest == guest_of(ip_in(frame@))
                &&& dest == dest_of(ip_in(frame@))
            },
            Session::Udp { guest, dest, payload } => {
                &&& is_datagram(frame@)
                &&& guest == guest_of(ip_in(frame@))
                &&& dest == dest_of(ip_in(frame@))
                &&& payload@ == dissect::ipv4_payload(ip_in(frame@)).skip(8)
            },
            Session::Other => !is_syn(frame@) && !is_datagram(frame@),
        },
{
    let eth = match parse_ethernet(frame) {
        Some(eth) => eth,
        None => return Session::Other,
    };
    let ip = match parse_ipv4(eth.payload.as_slice()) {
        Some(ip) => ip,
        None => return Session::Other,
    };
    if ip.protocol == PROTOCOL_TCP {
        match parse_tcp(ip.payload.as_slice()) {
            Some(tcp) => {
                // Only the first segment opens a connection.
                if tcp.flags == TCP_SYN {
                    return Session::TcpSyn {
                        guest: Endpoint { addr: ip.source, port: tcp.source },
                        dest: Endpoint { addr: ip.destination, port: tcp.destination },
                    };
                }
                Session::Other
            },
            None => Session::Other,
        }
    } else if ip.protocol == PROTOCOL_UDP {
        match parse_udp(ip.payload.as_slice()) {
            Some(udp) => Session::Udp {
                guest: Endpoint { addr: ip.source, port: udp.source },
                dest: Endpoint { addr: ip.destination, port: udp.destination },
                payload: udp.payload,
            },
            None => Session::Other,
        }
    } else {
        Session::Other
    }
}

/// What is to be done with a frame of the guest.
pub enum Action {
    /// Give it to the TCP/IP stack.
    PassOn,
    /// Connect to `dest` on the host.
    Connect { dest: Endpoint },
    /// Open a UDP socket under `token` and send `payload` to `dest` on it.
    OpenUdp { token: u64, dest: Endpoint, payload: Vec<u8> },
    /// Send `payload` to `dest` on the socket `token`.
    Forward { token: u64, dest: Endpoint, payload: Vec<u8> },
    /// Nothing: the frame is dropped.
    Drop,
}

/// What an event belongs to.
#[derive(Clone, Copy, Debug, PartialEq, Eq, Structural)]
pub enum EventSource {
    TxQueue,
    RxQueue,
    /// A listening socket for the guest port.
    Listener { port: u16 },
    /// A connection to the host.
    Host,
}

/// `s` with a new connection of the given kind.
pub open spec fn with_conn(s: SessionMaps, kind: ConnKind, now: u64) -> SessionMaps {
    SessionMaps {
        next_token: (s.next_token + 1) as u64,
        conns: s.conns.insert(s.next_token, Conn { kind, last_activity: now }),
        ..s
    }
}

/// `s` with a new UDP session from `guest` to `dest`. It takes the place of an earlier one
/// from the same endpoint.
pub open spec fn with_udp(s: SessionMaps, guest: Endpoint, dest: Endpoint, now: u64) -> SessionMaps {
    SessionMaps {
        nat: s.nat.insert(guest.key(), s.next_token),
        reverse: s.reverse.insert(s.next_token, (guest, dest)),
        ..with_conn(s, ConnKind::Udp, now)
    }
}

/// `s` after the connection `token` was active.
pub open spec fn touched(s: SessionMaps, token: u64, now: u64) -> SessionMaps {
    SessionMaps {
        conns: s.conns.insert(token, Conn { last_activity: now, ..s.conns[token] }),
        ..s
    }
}

/// `s` without the connection `token` and its entries in the address tables.
pub open spec fn without(s: SessionMaps, token: u64) -> SessionMaps {
    SessionMaps {
        conns: s.conns.remove(token),
        nat: if s.reverse.contains_key(token) {
            s.nat.remove(s.reverse[token].0.key())
        } else {
            s.nat
        },
        reverse: s.reverse.remove(token),
        ..s
    }
}

/// The UDP session of `guest`, if all its parts are there.
pub open spec fn live_session(s: SessionMaps, guest: Endpoint) -> bool {
    let token = s.nat[guest.key()];
    &&& s.nat.contains_key(guest.key())
    &&& s.conns.contains_key(token)
    &&& s.conns[token].kind == ConnKind::Udp
    &&& s.reverse.contains_key(token)
}

/// The tokens given out so far are below the next one, and the sockets' tokens do not clash
/// with those of the queues.
pub open spec fn tokens_sound(s: SessionMaps) -> bool {
    &&& s.next_token >= HOST_SOCKET_START_TOKEN
    &&& forall|t: u64| #[trigger]
        s.conns.contains_key(t) ==> HOST_SOCKET_START_TOKEN <= t < s.next_token
    &&& forall|t: u64| #[trigger]
        s.reverse.contains_key(t) ==> HOST_SOCKET_START_TOKEN <= t < s.next_token
    &&& forall|t: u64| #[trigger]
        s.listeners.contains_key(t) ==> HOST_SOCKET_START_TOKEN <= t < s.next_token
    &&& forall|t: u64| #[trigger] s.conns.contains_key(t) ==> !s.listeners.contains_key(t)
}

/// Whether `s` are the tables of a proxy without connections that listens for connections to
/// the guest ports `ports`, under the tokens behind those of the queues.
pub open spec fn starts_with(s: SessionMaps, ports: Seq<u16>) -> bool {
    &&& s.next_token == HOST_SOCKET_START_TOKEN + ports.len()
    &&& s.conns == Map::<u64, Conn>::empty()
    &&& s.nat == Map::<u64, u64>::empty()
    &&& s.reverse == Map::<u64, (Endpoint, Endpoint)>::empty()
    &&& forall|t: u64| #[trigger]
        s.listeners.contains_key(t) <==> HOST_SOCKET_START_TOKEN <= t < HOST_SOCKET_START_TOKEN
            + ports.len()
    &&& forall|i: int|
        0 <= i < ports.len() ==> s.listeners[(HOST_SOCKET_START_TOKEN + i) as u64]
            == #[trigger] ports[i]
}

/// Whether `action` is what is to be done with a frame of the guest, and leads from the
/// tables `s` to `t`: the start of a TCP connection is taken out of the stream and so is
/// every UDP datagram; all else is for the TCP/IP stack.
pub open spec fn decides(
    s: SessionMaps,
    frame: Seq<u8>,
    now: u64,
    action: Action,
    t: SessionMaps,
) -> bool {
    match action {
        Action::PassOn => {
            &&& !is_syn(frame) && !is_datagram(frame)
            &&& t == s
        },
        Action::Connect { dest } => {
            &&& is_syn(frame)
            &&& dest == dest_of(ip_in(frame))
            &&& t == s
        },
        Action::OpenUdp { token, dest, payload } => {
            let guest = guest_of(ip_in(frame));
            &&& is_datagram(frame)
            &&& !s.nat.contains_key(guest.key())
            &&& token == s.next_token
            &&& dest == dest_of(ip_in(frame))
            &&& payload@ == dissect::ipv4_payload(ip_in(frame)).skip(8)
            &&& t == with_udp(s, guest, dest, now)
        },
        Action::Forward { token, dest, payload } => {
            let guest = guest_of(ip_in(frame));
            &&& is_datagram(frame)
            &&& live_session(s, guest)
            &&& token == s.nat[guest.key()]
            &&& dest == s.reverse[token].1
            &&& payload@ == dissect::ipv4_payload(ip_in(frame)).skip(8)
            &&& t == touched(s, token, now)
        },
        Action::Drop => {
            let guest = guest_of(ip_in(frame));
            &&& is_datagram(frame)
            &&& s.nat.contains_key(guest.key())
            &&& !live_session(s, guest)
            &&& t == s
        },
    }
}

/// The tables of the proxy.
pub struct Sessions {
    next_token: u64,
    conns: HashMap<u64, Conn>,
    nat: HashMap<u64, u64>,
    reverse: HashMap<u64, (Endpoint, Endpoint)>,
    listeners: HashMap<u64, u16>,
}

impl View for Sessions {
    type V = SessionMaps;

    closed spec fn view(&self) -> SessionMaps {
        SessionMaps {
            next_token: self.next_token,
            conns: self.conns@,
            nat: self.nat@,
            reverse: self.reverse@,
            listeners: self.listeners@,
        }
    }
}

impl Sessions {
    /// No connections yet, and a listener for each guest port: they get the tokens from 2 on.
    pub fn new(ports: &Vec<u16>) -> (res: Sessions)
        requires
            ports@.len() < u64::MAX - HOST_SOCKET_START_TOKEN,
        ensures
            tokens_sound(res@),
            starts_with(res@, ports@),
    {
        let mut listeners: HashMap<u64, u16> = HashMap::new();
        let mut i: usize = 0;
        while i < ports.len()
            invariant
                i <= ports@.len(),
                ports@.len() < u64::MAX - HOST_SOCKET_START_TOKEN,
                forall|t: u64| #[trigger]
                    listeners@.contains_key(t) <==> HOST_SOCKET_START_TOKEN <= t
                        < HOST_SOCKET_START_TOKEN + i,
                forall|j: int|
                    0 <= j < i ==> listeners@[(HOST_SOCKET_START_TOKEN + j) as u64]
                        == #[trigger] ports@[j],
            decreases ports@.len() - i,
        {
            listeners.insert(HOST_SOCKET_START_TOKEN + i as u64, ports[i]);
            i += 1;
        }
        Sessions {
            next_token: HOST_SOCKET_START_TOKEN + ports.len() as u64,
            conns: HashMap::new(),
            nat: HashMap::new(),
            reverse: HashMap::new(),
            listeners,
        }
    }

    /// The token that the next connection gets.
    pub fn next_token(&self) -> (res: u64)
        ensures
            res == self@.next_token,
    {
        self.next_token
    }

    /// The number of guest endpoints with a UDP session.
    pub fn nat_len(&self) -> (res: usize)
        ensures
            res == self@.nat.len(),
    {
        self.nat.len()
    }

    /// What the event `token` belongs to.
    pub fn source(&self, token: u64) -> (res: EventSource)
        ensures
            res == if token == VIRTQ_TX_TOKEN {
                EventSource::TxQueue
            } else if token == VIRTQ_RX_TOKEN {
                EventSource::RxQueue
            } else if self@.listeners.contains_key(token) {
                EventSource::Listener { port: self@.listeners[token] }
            } else {
                EventSource::Host
            },
    {
        if token == VIRTQ_TX_TOKEN {
            EventSource::TxQueue
        } else if token == VIRTQ_RX_TOKEN {
            EventSource::RxQueue
        } else {
            match self.listeners.get(&token) {
                Some(port) => EventSource::Listener { port: *port },
                None => EventSource::Host,
            }
        }
    }

    /// The connection `token`, if there is one.
    pub fn conn(&self, token: u64) -> (res: Option<Conn>)
        ensures
            res == if self@.conns.contains_key(token) {
                Some(self@.conns[token])
            } else {
                None
            },
    {
        match self.conns.get(&token) {
            Some(conn) => Some(*conn),
            None => None,
        }
    }

    /// The guest endpoint that answers on `token` go to.
    pub fn reply_to(&self, token: u64) -> (res: Option<Endpoint>)
        ensures
            res == if self@.reverse.contains_key(token) {
                Some(self@.reverse[token].0)
            } else {
                None
            },
    {
        match self.reverse.get(&token) {
            Some(entry) => Some(entry.0),
            None => None,
        }
    }

    /// Enters a new connection and gives its token.
    pub fn open(&mut self, kind: ConnKind, now: u64) -> (token: u64)
        requires
            old(self)@.next_token < u64::MAX,
        ensures
            token == old(self)@.next_token,
            final(self)@ == with_conn(old(self)@, kind, now),
    {
        let token: u64 = self.next_token;
        self.next_token = token + 1;
        self.conns.insert(token, Conn { kind, last_activity: now });
        token
    }

    /// Enters a new UDP session and gives its token.
    pub fn open_udp(&mut self, guest: Endpoint, dest: Endpoint, now: u64) -> (token: u64)
        requires
            old(self)@.next_token < u64::MAX,
        ensures
            token == old(self)@.next_token,
            final(self)@ == with_udp(old(self)@, guest, dest, now),
    {
        let token: u64 = self.open(ConnKind::Udp, now);
        self.nat.insert(guest.to_key(), token);
        self.reverse.insert(token, (guest, dest));
        token
    }

    /// Decides on a frame of the guest: the start of a TCP connection is taken out of the
    /// stream and so is every UDP datagram; all else is for the TCP/IP stack.
    pub fn intercept(&mut self, frame: &[u8], now: u64) -> (res: Action)
        requires
            old(self)@.next_token < u64::MAX,
        ensures
            decides(old(self)@, frame@, now, res, final(self)@),
    {
        match classify(frame) {
            Session::Other => Action::PassOn,
            Session::TcpSyn { guest: _, dest } => Action::Connect { dest },
            Session::Udp { guest, dest, payload } => {
                let found = self.nat.get(&guest.to_key());
                match found {
                    Some(t) => {
                        let token: u64 = *t;
                        let real_dest = match self.reverse.get(&token) {
                            Some(entry) => Some(entry.1),
                            None => None,
                        };
                        let conn = match self.conns.get(&token) {
                            Some(conn) => Some(*conn),
                            None => None,
                        };
                        match (conn, real_dest) {
                            (Some(conn), Some(real_dest)) => {
                                if let ConnKind::Udp = conn.kind {
                                    self.conns.insert(
                                        token,
                                        Conn { kind: conn.kind, last_activity: now },
                                    );
                                    Action::Forward { token, dest: real_dest, payload }
                                } else {
                                    Action::Drop
                                }
                            },
                            _ => Action::Drop,
                        }
                    },
                    None => {
                        let token: u64 = self.open_udp(guest, dest, now);
                        Action::OpenUdp { token, dest, payload }
                    },
                }
            },
        }
    }

    /// Records the end of an event on the connection `token`: it stays, with its time of
    /// activity renewed if it was `active`, or it goes with its entries in the address
    /// tables. A token without a connection changes nothing.
    pub fn finish(&mut self, token: u64, keep: bool, active: bool, now: u64)
        ensures
            final(self)@ == if !old(self)@.conns.contains_key(token) {
                old(self)@
            } else if !keep {
                without(old(self)@, token)
            } else if active {
                touched(old(self)@, token, now)
            } else {
                old(self)@
            },
    {
        let conn = match self.conns.get(&token) {
            Some(conn) => *conn,
            None => return ,
        };
        if keep {
            if active {
                self.conns.insert(token, Conn { kind: conn.kind, last_activity: now });
            }
        } else {
            self.remove(token);
        }
    }

    /// Forgets the connection `token`.
    fn remove(&mut self, token: u64)
        ensures
            final(self)@ == without(old(self)@, token),
    {
        self.conns.remove(&token);
        let entry = self.reverse.remove(&token);
        if let Some((guest, _)) = entry {
            self.nat.remove(&guest.to_key());
        }
        proof {
            assert(self@ =~= without(old(self)@, token));
        }
    }
}

/// Whether a connection is a UDP session that was idle for too long.
pub open spec fn is_stale(conn: Conn, now: u64) -> bool {
    conn.kind == ConnKind::Udp && now - conn.last_activity > UDP_TIMEOUT_MS
}

/// Whether `token` is a stale session of `s`.
pub open spec fn stale_in(s: SessionMaps, token: u64, now: u64) -> bool {
    s.conns.contains_key(token) && is_stale(s.conns[token], now)
}

/// Whether the guest endpoint `key` belongs to a stale session of `s`.
pub open spec fn stale_endpoint(s: SessionMaps, key: u64, now: u64) -> bool {
    exists|token: u64| #[trigger]
        stale_in(s, token, now) && s.reverse.contains_key(token) && s.reverse[token].0.key() == key
}

/// Whether `t` is `s` without its stale sessions and their entries in the address tables.
pub open spec fn cleaned(s: SessionMaps, t: SessionMaps, now: u64) -> bool {
    &&& t.next_token == s.next_token
    &&& t.listeners == s.listeners
    &&& t.conns == s.conns.restrict(Set::new(|k: u64| !stale_in(s, k, now)))
    &&& t.reverse == s.reverse.restrict(Set::new(|k: u64| !stale_in(s, k, now)))
    &&& t.nat == s.nat.restrict(Set::new(|k: u64| !stale_endpoint(s, k, now)))
}

/// Whether it is time to look for stale sessions again.
pub fn cleanup_due(now: u64, last_cleanup: u64) -> (res: bool)
    ensures
        res == (now - last_cleanup > CLEANUP_INTERVAL_MS),
{
    now > last_cleanup && now - last_cleanup > CLEANUP_INTERVAL_MS
}

/// The tables without the sessions `gone`.
pub open spec fn minus(s: SessionMaps, gone: Seq<u64>) -> SessionMaps
    decreases gone.len(),
{
    if gone.len() == 0 {
        s
    } else {
        without(minus(s, gone.drop_last()), gone.last())
    }
}

proof fn minus_by_parts(s: SessionMaps, gone: Seq<u64>)
    ensures
        minus(s, gone).next_token == s.next_token,
        minus(s, gone).listeners == s.listeners,
        minus(s, gone).conns == s.conns.restrict(Set::new(|k: u64| !gone.contains(k))),
        minus(s, gone).reverse == s.reverse.restrict(Set::new(|k: u64| !gone.contains(k))),
        forall|k: u64| #[trigger]
            minus(s, gone).nat.contains_key(k) <==> s.nat.contains_key(k) && !(exists|i: int|
                0 <= i < gone.len() && s.reverse.contains_key(#[trigger] gone[i])
                    && s.reverse[gone[i]].0.key() == k),
        forall|k: u64| #[trigger]
            minus(s, gone).nat.contains_key(k) ==> minus(s, gone).nat[k] == s.nat[k],
    decreases gone.len(),
{
    if gone.len() == 0 {
        assert(s.conns.restrict(Set::new(|k: u64| !gone.contains(k))) =~= s.conns);
        assert(s.reverse.restrict(Set::new(|k: u64| !gone.contains(k))) =~= s.reverse);
    } else {
        let front = gone.drop_last();
        let last = gone.last();
        minus_by_parts(s, front);
        assert forall|k: u64| gone.contains(k) <==> front.contains(k) || k == last by {
            if gone.contains(k) {
                let i = gone.index_of(k);
                if i < gone.len() - 1 {
                    assert(front[i] == k);
                }
            }
            if front.contains(k) {
                let i = front.index_of(k);
                assert(gone[i] == k);
            }
            if k == last {
                assert(gone[gone.len() - 1] == k);
            }
        }
        assert(minus(s, gone).conns =~= s.conns.restrict(Set::new(|k: u64| !gone.contains(k))));
        assert(minus(s, gone).reverse =~= s.reverse.restrict(
            Set::new(|k: u64| !gone.contains(k)),
        ));
        assert forall|k: u64| #[trigger]
            minus(s, gone).nat.contains_key(k) <==> s.nat.contains_key(k) && !(exists|i: int|
                0 <= i < gone.len() && s.reverse.contains_key(#[trigger] gone[i])
                    && s.reverse[gone[i]].0.key() == k) by {
            let m = minus(s, front);
            if front.contains(last) {
                let i = front.index_of(last);
                assert(front[i] == last);
            }
            if exists|i: int|
                0 <= i < front.len() && s.reverse.contains_key(#[trigger] front[i])
                    && s.reverse[front[i]].0.key() == k {
                let i = choose|i: int|
                    0 <= i < front.len() && s.reverse.contains_key(#[trigger] front[i])
                        && s.reverse[front[i]].0.key() == k;
                assert(gone[i] == front[i]);
            }
            if exists|i: int|
                0 <= i < gone.len() && s.reverse.contains_key(#[trigger] gone[i])
                    && s.reverse[gone[i]].0.key() == k {
                let i = choose|i: int|
                    0 <= i < gone.len() && s.reverse.contains_key(#[trigger] gone[i])
                        && s.reverse[gone[i]].0.key() == k;
                if i < gone.len() - 1 {
                    assert(front[i] == gone[i]);
                }
            }
            if s.reverse.contains_key(last) && s.reverse[last].0.key() == k {
                assert(gone[gone.len() - 1] == last);
            }
        }
    }
}

/// Whether one of the first `n` entries is a stale session with the token `t`.
spec fn stale_among(entries: Seq<(&u64, &Conn)>, n: int, t: u64, now: u64) -> bool {
    exists|i: int|
        0 <= i < n && *(#[trigger] entries[i]).0 == t && is_stale(*entries[i].1, now)
}

impl Sessions {
    /// The tokens of the stale sessions.
    fn stale_tokens(&self, now: u64) -> (res: Vec<u64>)
        ensures
            forall|t: u64| #[trigger] res@.contains(t) <==> stale_in(self@, t, now),
    {
        let mut res: Vec<u64> = Vec::new();
        for entry in it: self.conns.iter()
            invariant
                it.seq() == vstd::std_specs::iter::IteratorSpec::remaining(
                    &vstd::std_specs::hash::spec_hash_map_iter(&self.conns),
                ),
                forall|t: u64| #[trigger]
                    res@.contains(t) <==> stale_among(it.seq(), it.index(), t, now),
        {
            let (token, conn) = entry;
            let ghost before = res@;
            let stale: bool = if let ConnKind::Udp = conn.kind {
                now > conn.last_activity && now - conn.last_activity > UDP_TIMEOUT_MS
            } else {
                false
            };
            if stale {
                res.push(*token);
            }
            proof {
                let n = it.index();
                assert(it.seq()[n] == entry);
                assert forall|t: u64| #[trigger]
                    stale_among(it.seq(), n + 1, t, now) <==> stale_among(it.seq(), n, t, now) || (
                stale && t == *token) by {
                    if stale_among(it.seq(), n, t, now) {
                        let i = choose|i: int|
                            0 <= i < n && *(#[trigger] it.seq()[i]).0 == t && is_stale(
                                *it.seq()[i].1,
                                now,
                            );
                        assert(*it.seq()[i].0 == t);
                    }
                }
                assert forall|t: u64| #[trigger]
                    res@.contains(t) <==> before.contains(t) || (stale && t == *token) by {
                    if stale {
                        assert(res@[before.len() as int] == *token);
                        if before.contains(t) {
                            assert(res@[before.index_of(t)] == t);
                        }
                    }
                }
                assert forall|t: u64| #[trigger]
                    res@.contains(t) <==> stale_among(it.seq(), n + 1, t, now) by {
                    assert(before.contains(t) <==> stale_among(it.seq(), n, t, now));
                }
            }
        }
        res
    }

    /// Forgets the stale sessions and gives their tokens, whose sockets are to be closed.
    pub fn expire(&mut self, now: u64) -> (gone: Vec<u64>)
        ensures
            forall|t: u64| #[trigger] gone@.contains(t) <==> stale_in(old(self)@, t, now),
            cleaned(old(self)@, final(self)@, now),
    {
        let gone = self.stale_tokens(now);
        let ghost s = self@;
        let mut i: usize = 0;
        proof {
            assert(gone@.take(0) =~= Seq::<u64>::empty());
        }
        while i < gone.len()
            invariant
                i <= gone@.len(),
                self@ == minus(s, gone@.take(i as int)),
            decreases gone@.len() - i,
        {
            proof {
                assert(gone@.take(i + 1).drop_last() =~= gone@.take(i as int));
            }
            self.remove(gone[i]);
            i += 1;
        }
        proof {
            assert(gone@.take(i as int) =~= gone@);
            minus_by_parts(s, gone@);
            let t = self@;
            assert(t.conns =~= s.conns.restrict(Set::new(|k: u64| !stale_in(s, k, now))));
            assert(t.reverse =~= s.reverse.restrict(Set::new(|k: u64| !stale_in(s, k, now))));
            assert forall|k: u64|
                (exists|j: int|
                    0 <= j < gone@.len() && s.reverse.contains_key(#[trigger] gone@[j])
                        && s.reverse[gone@[j]].0.key() == k) <==> #[trigger] stale_endpoint(
                    s,
                    k,
                    now,
                ) by {
                if stale_endpoint(s, k, now) {
                    let token = choose|token: u64| #[trigger]
                        stale_in(s, token, now) && s.reverse.contains_key(token)
                            && s.reverse[token].0.key() == k;
                    assert(gone@.contains(token));
                    assert(gone@[gone@.index_of(token)] == token);
                }
                if exists|j: int|
                    0 <= j < gone@.len() && s.reverse.contains_key(#[trigger] gone@[j])
                        && s.reverse[gone@[j]].0.key() == k {
                    let j = choose|j: int|
                        0 <= j < gone@.len() && s.reverse.contains_key(#[trigger] gone@[j])
                            && s.reverse[gone@[j]].0.key() == k;
                    assert(gone@.contains(gone@[j]));
                    assert(stale_in(s, gone@[j], now));
                }
            }
            assert(t.nat =~= s.nat.restrict(Set::new(|k: u64| !stale_endpoint(s, k, now))));
        }
        gone
    }
}

/// A UDP session is live as soon as it was entered: the next datagram of the endpoint is
/// forwarded on the same token to the same destination, and the address table does not grow
/// by it.
pub proof fn opened_session_is_reused(s: SessionMaps, guest: Endpoint, dest: Endpoint, now: u64)
    requires
        s.next_token < u64::MAX,
    ensures
        live_session(with_udp(s, guest, dest, now), guest),
        with_udp(s, guest, dest, now).nat[guest.key()] == s.next_token,
        with_udp(s, guest, dest, now).reverse[s.next_token] == (guest, dest),
        forall|later: u64| #[trigger]
            touched(with_udp(s, guest, dest, now), s.next_token, later).nat == with_udp(
                s,
                guest,
                dest,
                now,
            ).nat,
{
}

/// A second session from the same endpoint takes the place of the first in the address
/// table, which keeps its size.
pub proof fn reopened_session_takes_the_place(
    s: SessionMaps,
    guest: Endpoint,
    dest: Endpoint,
    now: u64,
)
    requires
        s.nat.contains_key(guest.key()),
    ensures
        with_udp(s, guest, dest, now).nat.dom() == s.nat.dom(),
{
    assert(with_udp(s, guest, dest, now).nat.dom() =~= s.nat.dom());
}

/// The other endpoints keep their sessions when one is entered.
pub proof fn other_sessions_stay(
    s: SessionMaps,
    guest: Endpoint,
    dest: Endpoint,
    now: u64,
    other: Endpoint,
)
    requires
        tokens_sound(s),
        s.next_token < u64::MAX,
        other != guest,
        live_session(s, other),
    ensures
        live_session(with_udp(s, guest, dest, now), other),
        with_udp(s, guest, dest, now).nat[other.key()] == s.nat[other.key()],
{
    endpoint_keys_differ(guest, other);
}

/// Tokens stay sound in everything that happens to the tables, so a new connection never
/// gets the token of another.
pub proof fn tokens_stay_sound(
    s: SessionMaps,
    kind: ConnKind,
    guest: Endpoint,
    dest: Endpoint,
    token: u64,
    now: u64,
)
    requires
        tokens_sound(s),
        s.next_token < u64::MAX,
    ensures
        tokens_sound(with_conn(s, kind, now)),
        tokens_sound(with_udp(s, guest, dest, now)),
        s.conns.contains_key(token) ==> tokens_sound(touched(s, token, now)),
        tokens_sound(without(s, token)),
        forall|t: SessionMaps| #[trigger] cleaned(s, t, now) ==> tokens_sound(t),
        !s.conns.contains_key(s.next_token),
        !s.listeners.contains_key(s.next_token),
{
    assert(!s.listeners.contains_key(s.next_token));
    assert forall|t: SessionMaps| #[trigger] cleaned(s, t, now) implies tokens_sound(t) by {
        assert forall|k: u64| #[trigger] t.conns.contains_key(k) implies s.conns.contains_key(k) by {
        }
        assert forall|k: u64| #[trigger] t.reverse.contains_key(k) implies s.reverse.contains_key(
            k,
        ) by {}
    }
}

/// The first port that is given out for connections to the guest.
pub const EPHEMERAL_PORT_MIN: u16 = 49152;

/// The last port that is given out for connections to the guest.
pub const EPHEMERAL_PORT_MAX: u16 = 65535;

/// Why the proxy could not do something.
#[derive(Clone, Copy, Debug, PartialEq, Eq, Structural)]
pub enum ProxyError {
    EphemeralPortsExhausted,
}

/// The port `n` places behind `from`, going round at the end of the range.
pub open spec fn port_after(from: u16, n: int) -> u16 {
    (EPHEMERAL_PORT_MIN + (from - EPHEMERAL_PORT_MIN + n) % 16384) as u16
}

/// Whether `port` is the first port from `from` on that is not in use, and `next` the one
/// behind it.
pub open spec fn finds_port(from: u16, in_use: Seq<u16>, port: u16, next: u16) -> bool {
    exists|n: int|
        {
            &&& 0 <= n < 16384
            &&& port == #[trigger] port_after(from, n)
            &&& !in_use.contains(port)
            &&& forall|k: int| 0 <= k < n ==> in_use.contains(#[trigger] port_after(from, k))
            &&& next == port_after(from, n + 1)
        }
}

/// The ports for connections to the guest.
pub struct EphemeralPorts {
    pub next: u16,
}

impl EphemeralPorts {
    /// Whether the next port is in the range.
    pub open spec fn sound(&self) -> bool {
        EPHEMERAL_PORT_MIN <= self.next <= EPHEMERAL_PORT_MAX
    }

    pub fn new() -> (res: EphemeralPorts)
        ensures
            res.next == EPHEMERAL_PORT_MIN,
            res.sound(),
    {
        EphemeralPorts { next: EPHEMERAL_PORT_MIN }
    }

    /// The first port from the next one on that is not in use; the search goes round the
    /// range once.
    pub fn get_ephemeral_port(&mut self, in_use: &Vec<u16>) -> (res: Result<u16, ProxyError>)
        requires
            old(self).sound(),
        ensures
            final(self).sound(),
            match res {
                Ok(port) => finds_port(old(self).next, in_use@, port, final(self).next),
                Err(_) => {
                    &&& forall|port: u16|
                        EPHEMERAL_PORT_MIN <= port <= EPHEMERAL_PORT_MAX ==> #[trigger] in_use@.contains(
                            port,
                        )
                    &&& final(self).next == old(self).next
                },
            },
    {
        let ghost from = self.next;
        let mut tried: u32 = 0;
        while tried < 16384
            invariant
                EPHEMERAL_PORT_MIN <= from <= EPHEMERAL_PORT_MAX,
                from == old(self).next,
                tried <= 16384,
                self.next == port_after(from, tried as int),
                forall|k: int|
                    0 <= k < tried ==> in_use@.contains(#[trigger] port_after(from, k)),
            decreases 16384 - tried,
        {
            let candidate: u16 = self.next;
            self.next = self.next.wrapping_add(1);
            if self.next < EPHEMERAL_PORT_MIN {
                self.next = EPHEMERAL_PORT_MIN;
            }
            assert(self.next == port_after(from, tried + 1));
            if !is_in_use(in_use, candidate) {
                return Ok(candidate);
            }
            tried += 1;
        }
        proof {
            assert forall|port: u16| EPHEMERAL_PORT_MIN <= port <= EPHEMERAL_PORT_MAX implies
            #[trigger] in_use@.contains(port) by {
                let k = (port - from) % 16384;
                assert(port == port_after(from, k));
            }
        }
        Err(ProxyError::EphemeralPortsExhausted)
    }
}

fn is_in_use(in_use: &Vec<u16>, port: u16) -> (res: bool)
    ensures
        res == in_use@.contains(port),
{
    let mut i: usize = 0;
    while i < in_use.len()
        invariant
            i <= in_use@.len(),
            forall|j: int| 0 <= j < i ==> in_use@[j] != port,
        decreases in_use@.len() - i,
    {
        if in_use[i] == port {
            return true;
        }
        i += 1;
    }
    false
}

/// A port is found exactly if one of the range is free.
pub proof fn ports_run_out_only_when_all_are_used(from: u16, in_use: Seq<u16>, free: u16)
    requires
        EPHEMERAL_PORT_MIN <= from <= EPHEMERAL_PORT_MAX,
        EPHEMERAL_PORT_MIN <= free <= EPHEMERAL_PORT_MAX,
        !in_use.contains(free),
    ensures
        exists|n: int| 0 <= n < 16384 && !in_use.contains(#[trigger] port_after(from, n)),
{
    let n = (free - from) % 16384;
    assert(free == port_after(from, n));
}

/// Whether `frame` is an Ethernet frame with an IPv4 packet of protocol `protocol` and nothing
/// behind it: 14 bytes of Ethernet header, 20 bytes of IPv4 header, then the payload.
pub open spec fn plain_packet(frame: Seq<u8>, protocol: u8) -> bool {
    &&& frame.len() >= 34
    &&& frame[14] % 16 == 5
    &&& frame[23] == protocol
    &&& 256 * frame[16] + frame[17] == frame.len() - 14
}

/// The parts of such a packet.
proof fn plain_packet_parts(frame: Seq<u8>, protocol: u8)
    requires
        plain_packet(frame, protocol),
    ensures
        ip_in(frame).len() == frame.len() - 14,
        ip_in(frame)[9] == protocol,
        dissect::ipv4_payload(ip_in(frame)) == frame.skip(34),
        frame.len() >= 38 ==> guest_of(ip_in(frame)) == (Endpoint {
            addr: (16777216 * frame[26] + 65536 * frame[27] + 256 * frame[28] + frame[29]) as u32,
            port: (256 * frame[34] + frame[35]) as u16,
        }),
        frame.len() >= 38 ==> dest_of(ip_in(frame)) == (Endpoint {
            addr: (16777216 * frame[30] + 65536 * frame[31] + 256 * frame[32] + frame[33]) as u32,
            port: (256 * frame[36] + frame[37]) as u16,
        }),
{
    let ip = ip_in(frame);
    let t2 = byte_order::tail(ip, 2);
    byte_order::bytes_count_by_their_place(t2);
    assert(t2[0] == frame[16] && t2[1] == frame[17]);
    assert(ip[0] == frame[14] && ip[9] == frame[23]);
    assert(dissect::ipv4_payload(ip) =~= frame.skip(34));
    if frame.len() >= 38 {
        let t12 = byte_order::tail(ip, 12);
        let t16 = byte_order::tail(ip, 16);
        let payload = frame.skip(34);
        let p2 = byte_order::tail(payload, 2);
        byte_order::bytes_count_by_their_place(t12);
        byte_order::bytes_count_by_their_place(t16);
        byte_order::bytes_count_by_their_place(payload);
        byte_order::bytes_count_by_their_place(p2);
        assert(t12[0] == frame[26] && t12[1] == frame[27] && t12[2] == frame[28] && t12[3]
            == frame[29]);
        assert(t16[0] == frame[30] && t16[1] == frame[31] && t16[2] == frame[32] && t16[3]
            == frame[33]);
        assert(payload[0] == frame[34] && payload[1] == frame[35]);
        assert(p2[0] == frame[36] && p2[1] == frame[37]);
    }
}

/// A UDP datagram is known by its bytes, and gives its endpoints and its payload: the addresses
/// stand at 26 and 30, the ports at 34 and 36, the payload from 42 on. It is no start of a
/// connection.
pub proof fn datagrams_are_known_by_their_bytes(frame: Seq<u8>)
    requires
        plain_packet(frame, 17),
    ensures
        is_datagram(frame) <==> frame.len() >= 42,
        !is_syn(frame),
        frame.len() >= 42 ==> {
            &&& guest_of(ip_in(frame)) == (Endpoint {
                addr: (16777216 * frame[26] + 65536 * frame[27] + 256 * frame[28]
                    + frame[29]) as u32,
                port: (256 * frame[34] + frame[35]) as u16,
            })
            &&& dest_of(ip_in(frame)) == (Endpoint {
                addr: (16777216 * frame[30] + 65536 * frame[31] + 256 * frame[32]
                    + frame[33]) as u32,
                port: (256 * frame[36] + frame[37]) as u16,
            })
            &&& dissect::ipv4_payload(ip_in(frame)).skip(8) == frame.skip(42)
        },
{
    plain_packet_parts(frame, 17);
    if frame.len() >= 42 {
        assert(frame.skip(34).skip(8) =~= frame.skip(42));
    }
}

/// The start of a TCP connection is a segment whose flags, at 47, are the SYN flag and no other.
/// No TCP segment is a datagram.
pub proof fn connection_starts_are_known_by_their_bytes(frame: Seq<u8>)
    requires
        plain_packet(frame, 6),
    ensures
        is_syn(frame) <==> frame.len() >= 54 && frame[47] == 2,
        !is_datagram(frame),
        frame.len() >= 54 ==> dest_of(ip_in(frame)) == (Endpoint {
            addr: (16777216 * frame[30] + 65536 * frame[31] + 256 * frame[32] + frame[33]) as u32,
            port: (256 * frame[36] + frame[37]) as u16,
        }),
{
    plain_packet_parts(frame, 6);
}

/// Packets of other protocols, and frames that are too short for a packet, open no session and
/// carry none.
pub proof fn other_frames_are_passed_on(frame: Seq<u8>)
    ensures
        frame.len() < 34 ==> !is_syn(frame) && !is_datagram(frame),
        frame.len() >= 34 && frame[23] != 6 ==> !is_syn(frame),
        frame.len() >= 34 && frame[23] != 17 ==> !is_datagram(frame),
{
}

/// What is done with a frame: the start of a connection is connected to where it goes, a datagram
/// of an endpoint without a session opens one to where it goes, one of an endpoint with a session
/// is sent on that, and everything else is passed on. Only datagrams change the tables.
pub proof fn frames_are_dealt_with(
    s: SessionMaps,
    frame: Seq<u8>,
    now: u64,
    action: Action,
    t: SessionMaps,
)
    requires
        decides(s, frame, now, action, t),
        !(is_syn(frame) && is_datagram(frame)),
    ensures
        action is PassOn <==> !is_syn(frame) && !is_datagram(frame),
        action is Connect <==> is_syn(frame),
        action is OpenUdp <==> is_datagram(frame) && !s.nat.contains_key(
            guest_of(ip_in(frame)).key(),
        ),
        action is PassOn || action is Connect || action is Drop ==> t == s,
        action matches Action::Connect { dest } ==> dest == dest_of(ip_in(frame)),
        action matches Action::OpenUdp { token, dest, payload } ==> {
            &&& dest == dest_of(ip_in(frame))
            &&& payload@ == dissect::ipv4_payload(ip_in(frame)).skip(8)
            &&& token == s.next_token
            &&& t.next_token == token + 1 || s.next_token == u64::MAX
            &&& t.conns.contains_key(token) && t.conns[token] == (Conn {
                kind: ConnKind::Udp,
                last_activity: now,
            })
            &&& t.nat.contains_key(guest_of(ip_in(frame)).key()) && t.nat[guest_of(
                ip_in(frame),
            ).key()] == token
            &&& t.reverse.contains_key(token) && t.reverse[token] == (guest_of(ip_in(frame)), dest)
        },
{
}

/// Two datagrams of one endpoint go the same way: the second is sent on the socket that the first
/// one opened, to where the first one went, with its own payload. That renews the session and
/// opens no other.
pub proof fn sessions_carry_on(
    s: SessionMaps,
    first: Seq<u8>,
    opened_at: u64,
    opening: Action,
    t: SessionMaps,
    second: Seq<u8>,
    now: u64,
    action: Action,
    u: SessionMaps,
)
    requires
        decides(s, first, opened_at, opening, t),
        opening is OpenUdp,
        decides(t, second, now, action, u),
        is_datagram(second),
        !is_syn(second),
        guest_of(ip_in(second)) == guest_of(ip_in(first)),
    ensures
        action matches Action::Forward { token, dest, payload } && {
            &&& opening matches Action::OpenUdp { token: first_token, dest: first_dest, .. }
            &&& token == first_token && token == s.next_token
            &&& dest == first_dest && dest == dest_of(ip_in(first))
            &&& payload@ == dissect::ipv4_payload(ip_in(second)).skip(8)
            &&& u.conns.contains_key(token)
            &&& u.conns[token] == (Conn { kind: ConnKind::Udp, last_activity: now })
            &&& u.next_token == t.next_token
            &&& u.nat == t.nat && u.reverse == t.reverse
        },
{
}

/// A UDP session is stale exactly when nothing has come for more than 30 seconds. Streams never
/// are.
pub proof fn sessions_last_for_half_a_minute(conn: Conn, now: u64)
    ensures
        conn.kind != ConnKind::Udp ==> !is_stale(conn, now),
        conn.kind == ConnKind::Udp && now <= conn.last_activity + 30_000 ==> !is_stale(conn, now),
        conn.kind == ConnKind::Udp && now > conn.last_activity + 30_000 ==> is_stale(conn, now),
{
}

/// What a clean-up leaves: every connection that is not stale, with all that belongs to it, and
/// nothing of one that is.
pub proof fn live_sessions_survive(
    s: SessionMaps,
    t: SessionMaps,
    now: u64,
    token: u64,
    guest: Endpoint,
)
    requires
        cleaned(s, t, now),
    ensures
        t.next_token == s.next_token && t.listeners == s.listeners,
        t.conns.contains_key(token) <==> s.conns.contains_key(token) && !is_stale(
            s.conns[token],
            now,
        ),
        t.conns.contains_key(token) ==> t.conns[token] == s.conns[token],
        s.conns.contains_key(token) && is_stale(s.conns[token], now) ==> !t.reverse.contains_key(
            token,
        ),
        t.conns.contains_key(token) && s.reverse.contains_key(token) ==> t.reverse.contains_key(
            token,
        ) && t.reverse[token] == s.reverse[token],
        s.reverse.contains_key(token) && s.conns.contains_key(token) && is_stale(
            s.conns[token],
            now,
        ) ==> !t.nat.contains_key(s.reverse[token].0.key()),
        live_session(s, guest) && !is_stale(s.conns[s.nat[guest.key()]], now) && (forall|other: u64|
            #[trigger] s.reverse.contains_key(other) && s.reverse[other].0 == guest ==> other
                == s.nat[guest.key()]) ==> live_session(t, guest) && t.nat[guest.key()]
            == s.nat[guest.key()],
{
    if live_session(s, guest) && !is_stale(s.conns[s.nat[guest.key()]], now) && (forall|other: u64|
        #[trigger] s.reverse.contains_key(other) && s.reverse[other].0 == guest ==> other
            == s.nat[guest.key()]) {
        if stale_endpoint(s, guest.key(), now) {
            let other = choose|other: u64| #[trigger]
                stale_in(s, other, now) && s.reverse.contains_key(other)
                    && s.reverse[other].0.key() == guest.key();
            endpoint_keys_differ(s.reverse[other].0, guest);
        }
    }
    if s.reverse.contains_key(token) && stale_in(s, token, now) {
        assert(stale_endpoint(s, s.reverse[token].0.key(), now));
    }
}

/// A connection that is forgotten takes its entries with it, and leaves all others.
pub proof fn forgetting_leaves_the_others(s: SessionMaps, token: u64, other: u64, guest: Endpoint)
    requires
        other != token,
    ensures
        ({
            let t = without(s, token);
            &&& !t.conns.contains_key(token) && !t.reverse.contains_key(token)
            &&& s.reverse.contains_key(token) ==> !t.nat.contains_key(s.reverse[token].0.key())
            &&& t.conns.contains_key(other) <==> s.conns.contains_key(other)
            &&& s.conns.contains_key(other) ==> t.conns[other] == s.conns[other]
            &&& t.reverse.contains_key(other) <==> s.reverse.contains_key(other)
            &&& s.reverse.contains_key(other) ==> t.reverse[other] == s.reverse[other]
            &&& !(s.reverse.contains_key(token) && s.reverse[token].0 == guest) ==> {
                &&& t.nat.contains_key(guest.key()) <==> s.nat.contains_key(guest.key())
                &&& s.nat.contains_key(guest.key()) ==> t.nat[guest.key()] == s.nat[guest.key()]
            }
            &&& t.next_token == s.next_token && t.listeners == s.listeners
        }),
{
    if s.reverse.contains_key(token) {
        endpoint_keys_differ(s.reverse[token].0, guest);
    }
}

/// A connection that was active keeps its kind and gets the time; one that is entered gets the
/// next token, its kind and the time. Nothing else changes.
pub proof fn activity_is_noted(s: SessionMaps, kind: ConnKind, token: u64, now: u64, other: u64)
    requires
        s.next_token < u64::MAX,
    ensures
        ({
            let t = touched(s, token, now);
            &&& t.conns.contains_key(token) && t.conns[token].kind == s.conns[token].kind
            &&& t.conns[token].last_activity == now
            &&& other != token && s.conns.contains_key(other) ==> t.conns.contains_key(other)
                && t.conns[other] == s.conns[other]
            &&& t.nat == s.nat && t.reverse == s.reverse && t.next_token == s.next_token
                && t.listeners == s.listeners
        }),
        ({
            let t = with_conn(s, kind, now);
            &&& t.conns.contains_key(s.next_token)
            &&& t.conns[s.next_token] == (Conn { kind, last_activity: now })
            &&& t.next_token == s.next_token + 1
            &&& other != s.next_token && s.conns.contains_key(other) ==> t.conns.contains_key(other)
                && t.conns[other] == s.conns[other]
            &&& t.nat == s.nat && t.reverse == s.reverse && t.listeners == s.listeners
        }),
{
}

/// The listeners of a proxy have the tokens from 2 on, one for each port in their order, and the
/// first connection gets the token behind them.
pub proof fn listeners_come_first(s: SessionMaps, ports: Seq<u16>, i: int)
    requires
        starts_with(s, ports),
        0 <= i < ports.len(),
        ports.len() < u64::MAX - 2,
    ensures
        s.listeners.contains_key((2 + i) as u64),
        s.listeners[(2 + i) as u64] == ports[i],
        !s.listeners.contains_key(0) && !s.listeners.contains_key(1),
        s.next_token == 2 + ports.len(),
        !s.listeners.contains_key(s.next_token),
{
    assert(ports[i] == s.listeners[(2 + i) as u64]);
}

/// A port that is given out is in the range for that and not in use, and it is the next one where
/// that is not in use. The search goes on behind it, round the end of the range.
pub proof fn ports_are_given_out_in_turn(from: u16, in_use: Seq<u16>, port: u16, next: u16)
    requires
        49152 <= from,
        finds_port(from, in_use, port, next),
    ensures
        49152 <= port,
        !in_use.contains(port),
        !in_use.contains(from) ==> port == from,
        next == if port == 65535 {
            49152
        } else {
            port + 1
        },
        forall|other: u16| from <= other < port ==> #[trigger] in_use.contains(other),
        port < from ==> forall|other: u16|
            from <= other || 49152 <= other < port ==> #[trigger] in_use.contains(other),
{
    let n = choose|n: int|
        {
            &&& 0 <= n < 16384
            &&& port == #[trigger] port_after(from, n)
            &&& !in_use.contains(port)
            &&& forall|k: int| 0 <= k < n ==> in_use.contains(#[trigger] port_after(from, k))
            &&& next == port_after(from, n + 1)
        };
    assert(port_after(from, 0) == from);
    assert forall|other: u16| from <= other < port implies #[trigger] in_use.contains(other) by {
        assert(port_after(from, other - from) == other);
    }
    if port < from {
        assert forall|other: u16| from <= other || 49152 <= other < port implies #[trigger]
        in_use.contains(other) by {
            if from <= other {
                assert(port_after(from, other - from) == other);
            } else {
                assert(port_after(from, other - from + 16384) == other);
            }
        }
    }
}

/// Stale sessions are looked for exactly when more than five seconds have gone by.
pub proof fn cleanups_are_due_after_five_seconds(now: u64, last: u64, due: bool)
    requires
        call_ensures(cleanup_due, (now, last), due),
    ensures
        due <==> now > last + 5_000,
{
}

} // verus!
