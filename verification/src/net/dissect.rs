//! The headers of a frame, and its description in one line of text.
use vstd::prelude::*;
use vstd::string::StringExecFns;

use pnet::packet::arp::ArpPacket;
use pnet::packet::ethernet::{EtherType, EthernetPacket};
use pnet::packet::ip::IpNextHeaderProtocol;
use pnet::packet::ipv4::Ipv4Packet;
use pnet::packet::ipv6::Ipv6Packet;
use pnet::packet::tcp::TcpPacket;
use pnet::packet::udp::UdpPacket;
use pnet::packet::Packet;

use crate::byte_order;
use crate::text;
use crate::text::{append_decimal, append_ipv4, append_mac};

verus! {

pub const ETHERTYPE_IPV4: u16 = 0x0800;

pub const ETHERTYPE_ARP: u16 = 0x0806;

pub const ETHERTYPE_IPV6: u16 = 0x86dd;

pub const PROTOCOL_TCP: u8 = 6;

pub const PROTOCOL_UDP: u8 = 17;

pub const ARP_REQUEST: u16 = 1;

pub const TCP_FIN: u8 = 0x01;

pub const TCP_SYN: u8 = 0x02;

pub const TCP_RST: u8 = 0x04;

pub const TCP_PSH: u8 = 0x08;

pub const TCP_ACK: u8 = 0x10;

pub const TCP_URG: u8 = 0x20;

/// An Ethernet frame.
pub struct EthernetView {
    pub destination: [u8; 6],
    pub source: [u8; 6],
    pub ethertype: u16,
    pub payload: Vec<u8>,
}

/// An IPv4 packet.
pub struct Ipv4View {
    pub source: u32,
    pub destination: u32,
    pub protocol: u8,
    pub payload: Vec<u8>,
}

/// An IPv6 packet, with its addresses as text.
pub struct Ipv6View {
    pub source: String,
    pub destination: String,
    pub next_header: u8,
    pub payload: Vec<u8>,
}

/// A TCP segment.
pub struct TcpView {
    pub source: u16,
    pub destination: u16,
    pub sequence: u32,
    pub acknowledgement: u32,
    pub flags: u8,
    pub window: u16,
    pub payload: Vec<u8>,
}

/// A UDP datagram.
pub struct UdpView {
    pub source: u16,
    pub destination: u16,
    pub length: u16,
    pub payload: Vec<u8>,
}

/// An ARP packet for IPv4 on Ethernet.
pub struct ArpView {
    pub operation: u16,
    pub sender: u32,
    pub target: u32,
}

/// What is left of `data` from `start` on, up to `end` where that comes first.
pub open spec fn part(data: Seq<u8>, start: int, end: int) -> Seq<u8> {
    if data.len() <= start {
        Seq::empty()
    } else if end < data.len() {
        data.subrange(start, end)
    } else {
        data.skip(start)
    }
}

/// The Ethernet frame in `data`: a header of 14 bytes, the rest is payload.
pub open spec fn is_ethernet(data: Seq<u8>, view: EthernetView) -> bool {
    &&& data.len() >= 14
    &&& view.destination@ == data.subrange(0, 6)
    &&& view.source@ == data.subrange(6, 12)
    &&& view.ethertype == byte_order::be_u16(byte_order::tail(data, 12))
    &&& view.payload@ == data.skip(14)
}

/// The length of an IPv4 header in bytes, as the header gives it.
pub open spec fn ipv4_header_len(data: Seq<u8>) -> int {
    (data[0] % 16) * 4
}

/// The length of an IPv4 packet in bytes, as its header gives it.
pub open spec fn ipv4_total_len(data: Seq<u8>) -> int {
    byte_order::be_u16(byte_order::tail(data, 2)) as int
}

/// Where the payload of an IPv4 packet begins: behind a header of at least 20 bytes.
pub open spec fn ipv4_payload_start(data: Seq<u8>) -> int {
    if ipv4_header_len(data) > 20 {
        ipv4_header_len(data)
    } else {
        20
    }
}

/// The length of the payload of an IPv4 packet, as its header gives it.
pub open spec fn ipv4_payload_len(data: Seq<u8>) -> int {
    if ipv4_total_len(data) > ipv4_header_len(data) {
        ipv4_total_len(data) - ipv4_header_len(data)
    } else {
        0
    }
}

/// The IPv4 packet in `data`.
pub open spec fn is_ipv4(data: Seq<u8>, view: Ipv4View) -> bool {
    &&& data.len() >= 20
    &&& view.protocol == data[9]
    &&& view.source == byte_order::be_u32(byte_order::tail(data, 12))
    &&& view.destination == byte_order::be_u32(byte_order::tail(data, 16))
    &&& view.payload@ == ipv4_payload(data)
}

/// The text of an IPv6 address.
pub uninterp spec fn ipv6_text(addr: Seq<u8>) -> Seq<char>;

/// The payload of the IPv6 packet in `data`.
pub open spec fn ipv6_payload(data: Seq<u8>) -> Seq<u8> {
    part(data, 40, 40 + byte_order::be_u16(byte_order::tail(data, 4)))
}

/// The payload of the IPv4 packet in `data`.
pub open spec fn ipv4_payload(data: Seq<u8>) -> Seq<u8> {
    part(
        data,
        ipv4_payload_start(data),
        ipv4_payload_start(data) + ipv4_payload_len(data),
    )
}

/// Where the payload of a TCP segment begins: behind a header of at least 20 bytes.
pub open spec fn tcp_payload_start(data: Seq<u8>) -> int {
    if data[12] / 16 > 5 {
        (data[12] / 16) * 4
    } else {
        20
    }
}

/// The TCP segment in `data`.
pub open spec fn is_tcp(data: Seq<u8>, view: TcpView) -> bool {
    &&& data.len() >= 20
    &&& view.source == byte_order::be_u16(data)
    &&& view.destination == byte_order::be_u16(byte_order::tail(data, 2))
    &&& view.sequence == byte_order::be_u32(byte_order::tail(data, 4))
    &&& view.acknowledgement == byte_order::be_u32(byte_order::tail(data, 8))
    &&& view.flags == data[13]
    &&& view.window == byte_order::be_u16(byte_order::tail(data, 14))
    &&& view.payload@ == part(data, tcp_payload_start(data), data.len() as int)
}

/// The UDP datagram in `data`: a header of eight bytes, the rest is payload.
pub open spec fn is_udp(data: Seq<u8>, view: UdpView) -> bool {
    &&& data.len() >= 8
    &&& view.source == byte_order::be_u16(data)
    &&& view.destination == byte_order::be_u16(byte_order::tail(data, 2))
    &&& view.length == byte_order::be_u16(byte_order::tail(data, 4))
    &&& view.payload@ == data.skip(8)
}

/// The ARP packet in `data`.
pub open spec fn is_arp(data: Seq<u8>, view: ArpView) -> bool {
    &&& data.len() >= 28
    &&& view.operation == byte_order::be_u16(byte_order::tail(data, 6))
    &&& view.sender == byte_order::be_u32(byte_order::tail(data, 14))
    &&& view.target == byte_order::be_u32(byte_order::tail(data, 24))
}

/// Calls `EthernetPacket::new` and the packet's accessors: there is a frame in 14 bytes or
/// more, with the fields where the header has them.
#[verifier::external_body]
pub(crate) fn parse_ethernet(data: &[u8]) -> (res: Option<EthernetView>)
    ensures
        match res {
            Some(view) => is_ethernet(data@, view),
            None => data@.len() < 14,
        },
{
    let packet = EthernetPacket::new(data)?;
    Some(
        EthernetView {
            destination: packet.get_destination().octets(),
            source: packet.get_source().octets(),
            ethertype: packet.get_ethertype().0,
            payload: packet.payload().to_vec(),
        },
    )
}

/// Calls `Ipv4Packet::new` and the packet's accessors: there is a packet in 20 bytes or
/// more; its payload ends where the total length says, or with the data.
#[verifier::external_body]
pub(crate) fn parse_ipv4(data: &[u8]) -> (res: Option<Ipv4View>)
    ensures
        match res {
            Some(view) => is_ipv4(data@, view),
            None => data@.len() < 20,
        },
{
    let packet = Ipv4Packet::new(data)?;
    Some(
        Ipv4View {
            source: u32::from(packet.get_source()),
            destination: u32::from(packet.get_destination()),
            protocol: packet.get_next_level_protocol().0,
            payload: packet.payload().to_vec(),
        },
    )
}

/// Calls `Ipv6Packet::new` and the packet's accessors: there is a packet in 40 bytes or
/// more; its payload ends where the header says, or with the data. The addresses come as
/// std writes them.
#[verifier::external_body]
pub(crate) fn parse_ipv6(data: &[u8]) -> (res: Option<Ipv6View>)
    ensures
        match res {
            Some(view) => {
                &&& data@.len() >= 40
                &&& view.next_header == data@[6]
                &&& view.source@ == ipv6_text(data@.subrange(8, 24))
                &&& view.destination@ == ipv6_text(data@.subrange(24, 40))
                &&& view.payload@ == ipv6_payload(data@)
            },
            None => data@.len() < 40,
        },
{
    let packet = Ipv6Packet::new(data)?;
    Some(
        Ipv6View {
            source: packet.get_source().to_string(),
            destination: packet.get_destination().to_string(),
            next_header: packet.get_next_header().0,
            payload: packet.payload().to_vec(),
        },
    )
}

/// Calls `TcpPacket::new` and the packet's accessors: there is a segment in 20 bytes or
/// more; its payload begins behind the options.
#[verifier::external_body]
pub(crate) fn parse_tcp(data: &[u8]) -> (res: Option<TcpView>)
    ensures
        match res {
            Some(view) => is_tcp(data@, view),
            None => data@.len() < 20,
        },
{
    let packet = TcpPacket::new(data)?;
    Some(
        TcpView {
            source: packet.get_source(),
            destination: packet.get_destination(),
            sequence: packet.get_sequence(),
            acknowledgement: packet.get_acknowledgement(),
            flags: packet.get_flags(),
            window: packet.get_window(),
            payload: packet.payload().to_vec(),
        },
    )
}

/// Calls `UdpPacket::new` and the packet's accessors: there is a datagram in eight bytes or
/// more, and all that follows the header is payload.
#[verifier::external_body]
pub(crate) fn parse_udp(data: &[u8]) -> (res: Option<UdpView>)
    ensures
        match res {
            Some(view) => is_udp(data@, view),
            None => data@.len() < 8,
        },
{
    let packet = UdpPacket::new(data)?;
    Some(
        UdpView {
            source: packet.get_source(),
            destination: packet.get_destination(),
            length: packet.get_length(),
            payload: packet.payload().to_vec(),
        },
    )
}

/// Calls `ArpPacket::new` and the packet's accessors: there is a packet in 28 bytes or more.
#[verifier::external_body]
pub(crate) fn parse_arp(data: &[u8]) -> (res: Option<ArpView>)
    ensures
        match res {
            Some(view) => is_arp(data@, view),
            None => data@.len() < 28,
        },
{
    let packet = ArpPacket::new(data)?;
    Some(
        ArpView {
            operation: packet.get_operation().0,
            sender: u32::from(packet.get_sender_proto_addr()),
            target: u32::from(packet.get_target_proto_addr()),
        },
    )
}

/// The name of an Ethernet payload type.
pub uninterp spec fn ethertype_text(ethertype: u16) -> Seq<char>;

/// Calls the `Display` of `pnet::packet::ethernet::EtherType`.
#[verifier::external_body]
fn ethertype_name(ethertype: u16) -> (res: String)
    ensures
        res@ == ethertype_text(ethertype),
{
    EtherType(ethertype).to_string()
}

/// The name of an IP payload protocol.
pub uninterp spec fn protocol_text(protocol: u8) -> Seq<char>;

/// Calls the `Display` of `pnet::packet::ip::IpNextHeaderProtocol`.
#[verifier::external_body]
fn protocol_name(protocol: u8) -> (res: String)
    ensures
        res@ == protocol_text(protocol),
{
    IpNextHeaderProtocol(protocol).to_string()
}

/// `name` if `flag` is among `flags`, else nothing.
pub open spec fn flag_text(flags: u8, flag: u8, name: Seq<char>) -> Seq<char> {
    if flags & flag != 0 {
        name
    } else {
        Seq::empty()
    }
}

/// The TCP flags as letters.
pub open spec fn tcp_flags_text(flags: u8) -> Seq<char> {
    flag_text(flags, TCP_SYN, "S"@) + flag_text(flags, TCP_ACK, "."@) + flag_text(
        flags,
        TCP_FIN,
        "F"@,
    ) + flag_text(flags, TCP_RST, "R"@) + flag_text(flags, TCP_PSH, "P"@) + flag_text(
        flags,
        TCP_URG,
        "U"@,
    )
}

fn append_flag(out: &mut String, flags: u8, flag: u8, name: &str)
    ensures
        final(out)@ == old(out)@ + flag_text(flags, flag, name@),
{
    if flags & flag != 0 {
        out.append(name);
    }
    proof {
        assert(out@ =~= old(out)@ + flag_text(flags, flag, name@));
    }
}

/// The TCP flags as letters.
pub fn format_tcp_flags(flags: u8) -> (res: String)
    ensures
        res@ == tcp_flags_text(flags),
{
    let mut s = String::new();
    append_flag(&mut s, flags, TCP_SYN, "S");
    append_flag(&mut s, flags, TCP_ACK, ".");
    append_flag(&mut s, flags, TCP_FIN, "F");
    append_flag(&mut s, flags, TCP_RST, "R");
    append_flag(&mut s, flags, TCP_PSH, "P");
    append_flag(&mut s, flags, TCP_URG, "U");
    proof {
        assert(s@ =~= tcp_flags_text(flags));
    }
    s
}

/// The source address and port of a line, or those of the destination: `addr`, a separator
/// and `port`.
pub open spec fn endpoint_line(
    prefix: Seq<char>,
    open: Seq<char>,
    addr: Seq<char>,
    sep: Seq<char>,
    port: u16,
) -> Seq<char> {
    prefix + open + addr + sep + text::decimal(port as nat)
}

/// A line on the TCP segment `tcp` behind the addresses and ports.
pub open spec fn tcp_line(prefix: Seq<char>, tcp: Seq<u8>) -> Seq<char> {
    prefix + ": Flags ["@ + tcp_flags_text(tcp[13]) + "], seq "@ + text::decimal(
        byte_order::be_u32(byte_order::tail(tcp, 4)) as nat,
    ) + ", ack "@ + text::decimal(byte_order::be_u32(byte_order::tail(tcp, 8)) as nat)
        + ", win "@ + text::decimal(byte_order::be_u16(byte_order::tail(tcp, 14)) as nat)
        + ", len "@ + text::decimal(part(tcp, tcp_payload_start(tcp), tcp.len() as int).len())
}

/// A line on two addresses: `source > destination`.
pub open spec fn route_line(
    prefix: Seq<char>,
    open: Seq<char>,
    source: Seq<char>,
    destination: Seq<char>,
) -> Seq<char> {
    prefix + open + source + " > "@ + destination
}

/// The Ethernet addresses at the end of a line.
pub open spec fn mac_line(prefix: Seq<char>, frame: Seq<u8>) -> Seq<char> {
    prefix + " ("@ + text::mac_text(frame.subrange(6, 12)) + " > "@ + text::mac_text(
        frame.subrange(0, 6),
    ) + ")"@
}

/// A line on the IPv4 packet in `frame`.
pub open spec fn ipv4_line(prefix: Seq<char>, frame: Seq<u8>) -> Seq<char> {
    let data = frame.skip(14);
    let source = text::ipv4_text(byte_order::be_u32(byte_order::tail(data, 12)));
    let destination = text::ipv4_text(byte_order::be_u32(byte_order::tail(data, 16)));
    let inner = ipv4_payload(data);
    if data.len() < 20 {
        prefix + "] IPv4 packet (parse failed)"@
    } else if data[9] == PROTOCOL_TCP {
        if inner.len() < 20 {
            route_line(prefix, "] IP "@, source, destination) + ": TCP (parse failed)"@
        } else {
            tcp_line(
                endpoint_line(
                    endpoint_line(prefix, "] IP "@, source, "."@, byte_order::be_u16(inner)),
                    " > "@,
                    destination,
                    "."@,
                    byte_order::be_u16(byte_order::tail(inner, 2)),
                ),
                inner,
            )
        }
    } else if data[9] == PROTOCOL_UDP {
        if inner.len() < 8 {
            route_line(prefix, "] IP "@, source, destination) + ": UDP (parse failed)"@
        } else {
            mac_line(
                endpoint_line(
                    endpoint_line(prefix, "] IP "@, source, "."@, byte_order::be_u16(inner)),
                    " > "@,
                    destination,
                    "."@,
                    byte_order::be_u16(byte_order::tail(inner, 2)),
                ) + ": len "@ + text::decimal(
                    byte_order::be_u16(byte_order::tail(inner, 4)) as nat,
                ),
                frame,
            )
        }
    } else {
        mac_line(
            route_line(prefix, "] IPv4 "@, source, destination) + ": proto "@ + protocol_text(
                data[9],
            ),
            frame,
        )
    }
}

/// A line on the IPv6 packet in `frame`.
pub open spec fn ipv6_line(prefix: Seq<char>, frame: Seq<u8>) -> Seq<char> {
    let data = frame.skip(14);
    let source = ipv6_text(data.subrange(8, 24));
    let destination = ipv6_text(data.subrange(24, 40));
    let inner = ipv6_payload(data);
    if data.len() < 40 {
        prefix + "] IPv6 packet (parse failed)"@
    } else if data[6] == PROTOCOL_TCP {
        if inner.len() < 20 {
            route_line(prefix, "] IP6 "@, source, destination) + ": TCP (parse failed)"@
        } else {
            tcp_line(
                endpoint_line(
                    endpoint_line(prefix, "] IP6 ["@, source, "]:"@, byte_order::be_u16(inner)),
                    " > ["@,
                    destination,
                    "]:"@,
                    byte_order::be_u16(byte_order::tail(inner, 2)),
                ),
                inner,
            )
        }
    } else {
        route_line(prefix, "] IPv6 "@, source, destination) + ": proto "@ + protocol_text(data[6])
    }
}

/// A line on the ARP packet in `frame`.
pub open spec fn arp_line(prefix: Seq<char>, frame: Seq<u8>) -> Seq<char> {
    let data = frame.skip(14);
    if data.len() < 28 {
        prefix + "] ARP packet (parse failed)"@
    } else {
        prefix + "] ARP, "@ + (if byte_order::be_u16(byte_order::tail(data, 6)) == ARP_REQUEST {
            "request"@
        } else {
            "reply"@
        }) + ", who has "@ + text::ipv4_text(byte_order::be_u32(byte_order::tail(data, 24)))
            + "? Tell "@ + text::ipv4_text(byte_order::be_u32(byte_order::tail(data, 14)))
    }
}

/// The description of `frame`, which went in the direction `direction`.
pub open spec fn frame_line(direction: Seq<char>, frame: Seq<u8>) -> Seq<char> {
    let prefix = "["@ + direction;
    let ethertype = byte_order::be_u16(byte_order::tail(frame, 12));
    if frame.len() < 14 {
        prefix + "] Ethernet packet (parse failed)"@
    } else if ethertype == ETHERTYPE_IPV4 {
        ipv4_line(prefix, frame)
    } else if ethertype == ETHERTYPE_IPV6 {
        ipv6_line(prefix, frame)
    } else if ethertype == ETHERTYPE_ARP {
        arp_line(prefix, frame)
    } else {
        prefix + "] Unknown L3 protocol: "@ + ethertype_text(ethertype)
    }
}

/// A frame to be described in one line.
pub struct PacketDumper<'a> {
    pub data: &'a [u8],
    pub direction: &'static str,
}

/// A frame that came from the guest, to be described.
pub fn log_vm_packet_in(data: &[u8]) -> (res: PacketDumper<'_>)
    ensures
        res.data@ == data@,
        res.direction@ == "VM|IN"@,
{
    PacketDumper { data, direction: "VM|IN" }
}

/// A frame that goes to the guest, to be described.
pub fn log_vm_packet_out(data: &[u8]) -> (res: PacketDumper<'_>)
    ensures
        res.data@ == data@,
        res.direction@ == "VM|OUT"@,
{
    PacketDumper { data, direction: "VM|OUT" }
}

fn append_endpoint(out: &mut String, open: &str, addr: &str, sep: &str, port: u16)
    ensures
        final(out)@ == endpoint_line(old(out)@, open@, addr@, sep@, port),
{
    out.append(open);
    out.append(addr);
    out.append(sep);
    append_decimal(out, port as u64);
}

fn append_route(out: &mut String, open: &str, source: &str, destination: &str)
    ensures
        final(out)@ == route_line(old(out)@, open@, source@, destination@),
{
    out.append(open);
    out.append(source);
    out.append(" > ");
    out.append(destination);
}

fn append_tcp(out: &mut String, tcp: &TcpView, Ghost(data): Ghost<Seq<u8>>)
    requires
        is_tcp(data, *tcp),
    ensures
        final(out)@ == tcp_line(old(out)@, data),
{
    out.append(": Flags [");
    let flags = format_tcp_flags(tcp.flags);
    out.append(flags.as_str());
    out.append("], seq ");
    append_decimal(out, tcp.sequence as u64);
    out.append(", ack ");
    append_decimal(out, tcp.acknowledgement as u64);
    out.append(", win ");
    append_decimal(out, tcp.window as u64);
    out.append(", len ");
    append_decimal(out, tcp.payload.len() as u64);
}

fn append_macs(out: &mut String, frame: &EthernetView, Ghost(data): Ghost<Seq<u8>>)
    requires
        is_ethernet(data, *frame),
    ensures
        final(out)@ == mac_line(old(out)@, data),
{
    out.append(" (");
    append_mac(out, &frame.source);
    out.append(" > ");
    append_mac(out, &frame.destination);
    out.append(")");
}

fn ipv4_string(addr: u32) -> (res: String)
    ensures
        res@ == text::ipv4_text(addr),
{
    let mut s = String::new();
    append_ipv4(&mut s, addr);
    proof {
        assert(s@ =~= text::ipv4_text(addr));
    }
    s
}

impl<'a> PacketDumper<'a> {
    fn append_ipv4_packet(&self, out: &mut String, eth: &EthernetView)
        requires
            is_ethernet(self.data@, *eth),
        ensures
            final(out)@ == ipv4_line(old(out)@, self.data@),
    {
        let ip = match parse_ipv4(eth.payload.as_slice()) {
            Some(ip) => ip,
            None => {
                out.append("] IPv4 packet (parse failed)");
                return ;
            },
        };
        let source = ipv4_string(ip.source);
        let destination = ipv4_string(ip.destination);
        if ip.protocol == PROTOCOL_TCP {
            match parse_tcp(ip.payload.as_slice()) {
                Some(tcp) => {
                    append_endpoint(out, "] IP ", source.as_str(), ".", tcp.source);
                    append_endpoint(out, " > ", destination.as_str(), ".", tcp.destination);
                    append_tcp(out, &tcp, Ghost(ip.payload@));
                },
                None => {
                    append_route(out, "] IP ", source.as_str(), destination.as_str());
                    out.append(": TCP (parse failed)");
                },
            }
        } else if ip.protocol == PROTOCOL_UDP {
            match parse_udp(ip.payload.as_slice()) {
                Some(udp) => {
                    append_endpoint(out, "] IP ", source.as_str(), ".", udp.source);
                    append_endpoint(out, " > ", destination.as_str(), ".", udp.destination);
                    out.append(": len ");
                    append_decimal(out, udp.length as u64);
                    append_macs(out, eth, Ghost(self.data@));
                },
                None => {
                    append_route(out, "] IP ", source.as_str(), destination.as_str());
                    out.append(": UDP (parse failed)");
                },
            }
        } else {
            append_route(out, "] IPv4 ", source.as_str(), destination.as_str());
            out.append(": proto ");
            let name = protocol_name(ip.protocol);
            out.append(name.as_str());
            append_macs(out, eth, Ghost(self.data@));
        }
    }

    fn append_ipv6_packet(&self, out: &mut String, eth: &EthernetView)
        requires
            is_ethernet(self.data@, *eth),
        ensures
            final(out)@ == ipv6_line(old(out)@, self.data@),
    {
        let ip = match parse_ipv6(eth.payload.as_slice()) {
            Some(ip) => ip,
            None => {
                out.append("] IPv6 packet (parse failed)");
                return ;
            },
        };
        if ip.next_header == PROTOCOL_TCP {
            match parse_tcp(ip.payload.as_slice()) {
                Some(tcp) => {
                    append_endpoint(out, "] IP6 [", ip.source.as_str(), "]:", tcp.source);
                    append_endpoint(out, " > [", ip.destination.as_str(), "]:", tcp.destination);
                    append_tcp(out, &tcp, Ghost(ip.payload@));
                },
                None => {
                    append_route(out, "] IP6 ", ip.source.as_str(), ip.destination.as_str());
                    out.append(": TCP (parse failed)");
                },
            }
        } else {
            append_route(out, "] IPv6 ", ip.source.as_str(), ip.destination.as_str());
            out.append(": proto ");
            let name = protocol_name(ip.next_header);
            out.append(name.as_str());
        }
    }

    fn append_arp_packet(&self, out: &mut String, eth: &EthernetView)
        requires
            is_ethernet(self.data@, *eth),
        ensures
            final(out)@ == arp_line(old(out)@, self.data@),
    {
        let arp = match parse_arp(eth.payload.as_slice()) {
            Some(arp) => arp,
            None => {
                out.append("] ARP packet (parse failed)");
                return ;
            },
        };
        out.append("] ARP, ");
        if arp.operation == ARP_REQUEST {
            out.append("request");
        } else {
            out.append("reply");
        }
        out.append(", who has ");
        append_ipv4(out, arp.target);
        out.append("? Tell ");
        append_ipv4(out, arp.sender);
    }

    /// The description of the frame in one line.
    pub fn describe(&self) -> (res: String)
        ensures
            res@ == frame_line(self.direction@, self.data@),
    {
        let mut out = String::from_str("[");
        out.append(self.direction);
        let eth = match parse_ethernet(self.data) {
            Some(eth) => eth,
            None => {
                out.append("] Ethernet packet (parse failed)");
                return out;
            },
        };
        if eth.ethertype == ETHERTYPE_IPV4 {
            self.append_ipv4_packet(&mut out, &eth);
        } else if eth.ethertype == ETHERTYPE_IPV6 {
            self.append_ipv6_packet(&mut out, &eth);
        } else if eth.ethertype == ETHERTYPE_ARP {
            self.append_arp_packet(&mut out, &eth);
        } else {
            out.append("] Unknown L3 protocol: ");
            let name = ethertype_name(eth.ethertype);
            out.append(name.as_str());
        }
        out
    }
}

/// The letters of the TCP flags come in the order SYN, ACK, FIN, RST, PSH, URG, each exactly if
/// its bit is set.
pub proof fn flags_are_letters(flags: u8)
    ensures
        tcp_flags_text(flags) == (if flags & 2 != 0 {
            seq!['S']
        } else {
            Seq::empty()
        }) + (if flags & 16 != 0 {
            seq!['.']
        } else {
            Seq::empty()
        }) + (if flags & 1 != 0 {
            seq!['F']
        } else {
            Seq::empty()
        }) + (if flags & 4 != 0 {
            seq!['R']
        } else {
            Seq::empty()
        }) + (if flags & 8 != 0 {
            seq!['P']
        } else {
            Seq::empty()
        }) + (if flags & 32 != 0 {
            seq!['U']
        } else {
            Seq::empty()
        }),
{
    reveal_strlit("S");
    reveal_strlit(".");
    reveal_strlit("F");
    reveal_strlit("R");
    reveal_strlit("P");
    reveal_strlit("U");
    assert("S"@ =~= seq!['S']);
    assert("."@ =~= seq!['.']);
    assert("F"@ =~= seq!['F']);
    assert("R"@ =~= seq!['R']);
    assert("P"@ =~= seq!['P']);
    assert("U"@ =~= seq!['U']);
}

/// What stands behind a header of 20 bytes and before the end that the packet gives is the
/// payload of an IPv4 packet; a longer header takes more off. Bytes behind the packet are no part
/// of it.
pub proof fn payloads_are_cut_out(header: Seq<u8>, payload: Seq<u8>, padding: Seq<u8>)
    requires
        20 <= header.len(),
        header[0] % 16 * 4 == header.len(),
        256 * header[2] + header[3] == header.len() + payload.len(),
    ensures
        ipv4_payload(header + payload + padding) == payload,
{
    let data = header + payload + padding;
    let t = byte_order::tail(data, 2);
    byte_order::bytes_count_by_their_place(t);
    assert(t[0] == header[2] && t[1] == header[3] && data[0] == header[0]);
    assert(ipv4_payload(data) =~= payload);
}

/// A description says which way the frame went and what kind it is, by its type at byte 12: IPv4
/// and IPv6 packets by their protocol, ARP packets, or the type itself. Frames that are too short
/// are said to be so.
pub proof fn descriptions_go_by_the_type(direction: Seq<char>, frame: Seq<u8>)
    requires
        frame.len() >= 14,
    ensures
        ({
            let kind = 256 * frame[12] + frame[13];
            let prefix = "["@ + direction;
            &&& kind == 0x0800 ==> frame_line(direction, frame) == ipv4_line(prefix, frame)
            &&& kind == 0x86dd ==> frame_line(direction, frame) == ipv6_line(prefix, frame)
            &&& kind == 0x0806 ==> frame_line(direction, frame) == arp_line(prefix, frame)
            &&& kind != 0x0800 && kind != 0x86dd && kind != 0x0806 ==> frame_line(direction, frame)
                == prefix + "] Unknown L3 protocol: "@ + ethertype_text(kind as u16)
            &&& frame_line(direction, frame.take(13)) == prefix
                + "] Ethernet packet (parse failed)"@
        }),
{
    let t = byte_order::tail(frame, 12);
    byte_order::bytes_count_by_their_place(t);
    assert(t[0] == frame[12] && t[1] == frame[13]);
}

/// The description of a UDP datagram in an IPv4 packet with a header of 20 bytes has the sender
/// first and the receiver behind it, each with address and port, then the length that the
/// datagram gives, then the Ethernet addresses in the same order.
pub proof fn datagrams_are_described(prefix: Seq<char>, frame: Seq<u8>)
    requires
        frame.len() >= 42,
        frame[14] % 16 == 5,
        frame[23] == 17,
        256 * frame[16] + frame[17] == frame.len() - 14,
    ensures
        ({
            let source = text::ipv4_text(
                (16777216 * frame[26] + 65536 * frame[27] + 256 * frame[28] + frame[29]) as u32,
            );
            let target = text::ipv4_text(
                (16777216 * frame[30] + 65536 * frame[31] + 256 * frame[32] + frame[33]) as u32,
            );
            ipv4_line(prefix, frame) == prefix + "] IP "@ + source + "."@ + text::decimal(
                (256 * frame[34] + frame[35]) as nat,
            ) + " > "@ + target + "."@ + text::decimal((256 * frame[36] + frame[37]) as nat)
                + ": len "@ + text::decimal((256 * frame[38] + frame[39]) as nat) + " ("@
                + text::mac_text(frame.subrange(6, 12)) + " > "@ + text::mac_text(
                frame.subrange(0, 6),
            ) + ")"@
        }),
{
    packet_fields(frame);
    let inner = frame.skip(34);
    let i4 = byte_order::tail(inner, 4);
    byte_order::bytes_count_by_their_place(i4);
    assert(i4[0] == frame[38] && i4[1] == frame[39]);
}

/// The description of a TCP segment in an IPv4 packet with a header of 20 bytes has the sender
/// and the receiver, each with address and port, then its flags, its numbers, its window and the
/// length of its payload.
pub proof fn segments_are_described(prefix: Seq<char>, frame: Seq<u8>)
    requires
        frame.len() >= 54,
        frame[14] % 16 == 5,
        frame[23] == 6,
        256 * frame[16] + frame[17] == frame.len() - 14,
        frame[46] / 16 == 5,
    ensures
        ({
            let source = text::ipv4_text(
                (16777216 * frame[26] + 65536 * frame[27] + 256 * frame[28] + frame[29]) as u32,
            );
            let target = text::ipv4_text(
                (16777216 * frame[30] + 65536 * frame[31] + 256 * frame[32] + frame[33]) as u32,
            );
            ipv4_line(prefix, frame) == prefix + "] IP "@ + source + "."@ + text::decimal(
                (256 * frame[34] + frame[35]) as nat,
            ) + " > "@ + target + "."@ + text::decimal((256 * frame[36] + frame[37]) as nat)
                + ": Flags ["@ + tcp_flags_text(frame[47]) + "], seq "@ + text::decimal(
                (16777216 * frame[38] + 65536 * frame[39] + 256 * frame[40] + frame[41]) as nat,
            ) + ", ack "@ + text::decimal(
                (16777216 * frame[42] + 65536 * frame[43] + 256 * frame[44] + frame[45]) as nat,
            ) + ", win "@ + text::decimal((256 * frame[48] + frame[49]) as nat) + ", len "@
                + text::decimal((frame.len() - 54) as nat)
        }),
{
    packet_fields(frame);
    let inner = frame.skip(34);
    let (i4, i8, i14) = (
        byte_order::tail(inner, 4),
        byte_order::tail(inner, 8),
        byte_order::tail(inner, 14),
    );
    byte_order::bytes_count_by_their_place(i4);
    byte_order::bytes_count_by_their_place(i8);
    byte_order::bytes_count_by_their_place(i14);
    assert(i4[0] == frame[38] && i4[1] == frame[39] && i4[2] == frame[40] && i4[3] == frame[41]);
    assert(i8[0] == frame[42] && i8[1] == frame[43] && i8[2] == frame[44] && i8[3] == frame[45]);
    assert(i14[0] == frame[48] && i14[1] == frame[49]);
    assert(inner[12] == frame[46] && inner[13] == frame[47]);
}

/// Where the fields of a packet with ports stand in a frame.
proof fn packet_fields(frame: Seq<u8>)
    requires
        frame.len() >= 42,
        frame[14] % 16 == 5,
        256 * frame[16] + frame[17] == frame.len() - 14,
    ensures
        ({
            let data = frame.skip(14);
            let inner = frame.skip(34);
            &&& data[9] == frame[23]
            &&& ipv4_payload(data) == inner
            &&& byte_order::be_u32(byte_order::tail(data, 12)) == 16777216 * frame[26] + 65536
                * frame[27] + 256 * frame[28] + frame[29]
            &&& byte_order::be_u32(byte_order::tail(data, 16)) == 16777216 * frame[30] + 65536
                * frame[31] + 256 * frame[32] + frame[33]
            &&& byte_order::be_u16(inner) == 256 * frame[34] + frame[35]
            &&& byte_order::be_u16(byte_order::tail(inner, 2)) == 256 * frame[36] + frame[37]
        }),
{
    let data = frame.skip(14);
    let inner = frame.skip(34);
    let (d2, d12, d16, i2) = (
        byte_order::tail(data, 2),
        byte_order::tail(data, 12),
        byte_order::tail(data, 16),
        byte_order::tail(inner, 2),
    );
    byte_order::bytes_count_by_their_place(d2);
    byte_order::bytes_count_by_their_place(d12);
    byte_order::bytes_count_by_their_place(d16);
    byte_order::bytes_count_by_their_place(inner);
    byte_order::bytes_count_by_their_place(i2);
    assert(d2[0] == frame[16] && d2[1] == frame[17]);
    assert(d12[0] == frame[26] && d12[1] == frame[27] && d12[2] == frame[28] && d12[3]
        == frame[29]);
    assert(d16[0] == frame[30] && d16[1] == frame[31] && d16[2] == frame[32] && d16[3]
        == frame[33]);
    assert(inner[0] == frame[34] && inner[1] == frame[35]);
    assert(i2[0] == frame[36] && i2[1] == frame[37]);
    assert(data[0] == frame[14]);
    assert(ipv4_payload(data) =~= inner);
}

/// The description of an ARP packet asks for the target and names the sender.
pub proof fn arp_packets_are_described(prefix: Seq<char>, frame: Seq<u8>)
    requires
        frame.len() >= 42,
    ensures
        ({
            let asks = 256 * frame[20] + frame[21] == 1;
            arp_line(prefix, frame) == prefix + "] ARP, "@ + (if asks {
                "request"@
            } else {
                "reply"@
            }) + ", who has "@ + text::ipv4_text(
                (16777216 * frame[38] + 65536 * frame[39] + 256 * frame[40] + frame[41]) as u32,
            ) + "? Tell "@ + text::ipv4_text(
                (16777216 * frame[28] + 65536 * frame[29] + 256 * frame[30] + frame[31]) as u32,
            )
        }),
{
    let data = frame.skip(14);
    let (d6, d14, d24) = (
        byte_order::tail(data, 6),
        byte_order::tail(data, 14),
        byte_order::tail(data, 24),
    );
    byte_order::bytes_count_by_their_place(d6);
    byte_order::bytes_count_by_their_place(d14);
    byte_order::bytes_count_by_their_place(d24);
    assert(d6[0] == frame[20] && d6[1] == frame[21]);
    assert(d14[0] == frame[28] && d14[1] == frame[29] && d14[2] == frame[30] && d14[3]
        == frame[31]);
    assert(d24[0] == frame[38] && d24[1] == frame[39] && d24[2] == frame[40] && d24[3]
        == frame[41]);
}

} // verus!
