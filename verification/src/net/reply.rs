//! Answers of host sockets as packets for the guest.
use vstd::prelude::*;

use pnet::packet::ipv4::Ipv4Packet;
use pnet::packet::udp::UdpPacket;
use pnet::packet::Packet;

use super::dissect;
use super::sessions::Endpoint;
use crate::byte_order;
use crate::byte_order::{write_be_u16, write_be_u32};

verus! {

/// The longest payload of a UDP datagram in an IPv4 packet.
pub const MAX_UDP_PAYLOAD: usize = 65507;

/// The sum of the big-endian words in `data`; a last byte without a partner is the upper half of
/// a word.
pub open spec fn word_sum(data: Seq<u8>) -> nat
    decreases data.len(),
{
    if data.len() == 0 {
        0
    } else if data.len() == 1 {
        data[0] as nat * 0x100
    } else {
        data[0] as nat * 0x100 + data[1] as nat + word_sum(data.skip(2))
    }
}

/// A sum in one's complement: carries out of 16 bits are added at the lower end.
pub open spec fn folded(sum: nat) -> nat {
    if sum == 0 {
        0
    } else {
        1 + (sum - 1) as nat % 0xffff
    }
}

/// The checksum of data whose words have the sum `sum`.
pub open spec fn inverted(sum: nat) -> u16 {
    (0xffff - folded(sum)) as u16
}

/// `packet` with the two bytes at `at` zero.
pub open spec fn zeroed(packet: Seq<u8>, at: int) -> Seq<u8> {
    packet.update(at, 0).update(at + 1, 0)
}

/// The sum that the checksum of the header of an IPv4 packet without options is made of.
pub open spec fn header_sum(packet: Seq<u8>) -> nat {
    word_sum(packet.take(20))
}

/// The sum that the checksum of a datagram in an IPv4 packet is made of: the addresses of the
/// packet, the number of the protocol, and the length and the words of the datagram.
pub open spec fn datagram_sum(packet: Seq<u8>, datagram: Seq<u8>) -> nat {
    word_sum(packet.subrange(12, 20)) + dissect::PROTOCOL_UDP as nat + datagram.len() + word_sum(
        datagram,
    )
}

/// The checksum of the header of an IPv4 packet, whose checksum field is taken as zero.
pub open spec fn ipv4_checksum_of(packet: Seq<u8>) -> u16 {
    inverted(header_sum(zeroed(packet, 10)))
}

/// The checksum of the UDP datagram in an IPv4 packet. Its checksum field is taken as zero.
pub open spec fn udp_checksum_of(packet: Seq<u8>) -> u16 {
    inverted(datagram_sum(packet, zeroed(dissect::ipv4_payload(packet), 6)))
}

/// Calls `pnet::packet::ipv4::checksum`, which sums up the words of the header.
#[verifier::external_body]
fn ipv4_checksum(packet: &[u8]) -> (res: u16)
    requires
        packet@.len() >= 20,
        dissect::ipv4_header_len(packet@) == 20,
    ensures
        res == ipv4_checksum_of(packet@),
{
    pnet::packet::ipv4::checksum(&Ipv4Packet::new(packet).unwrap())
}

/// Calls `pnet::packet::udp::ipv4_checksum` on the datagram in an IPv4 packet, with the
/// packet's addresses. It sums up the words of these, the protocol, the length and the words
/// of the datagram.
#[verifier::external_body]
fn udp_checksum(packet: &[u8]) -> (res: u16)
    requires
        20 <= packet@.len() <= 65535,
        dissect::ipv4_payload(packet@).len() >= 8,
    ensures
        res == udp_checksum_of(packet@),
{
    let ip = Ipv4Packet::new(packet).unwrap();
    let udp = UdpPacket::new(ip.payload()).unwrap();
    pnet::packet::udp::ipv4_checksum(&udp, &ip.get_source(), &ip.get_destination())
}

/// The IPv4 packet with a UDP datagram from `from` to `to`: a header of 20 bytes without
/// options, time to live 64, then the datagram.
pub open spec fn datagram_bytes(
    from: Endpoint,
    to: Endpoint,
    payload: Seq<u8>,
    ip_sum: u16,
    udp_sum: u16,
) -> Seq<u8> {
    seq![0x45u8, 0] + byte_order::be16_bytes((28 + payload.len()) as u16) + seq![
        0u8,
        0,
        0,
        0,
        64,
        17,
    ] + byte_order::be16_bytes(ip_sum) + byte_order::be32_bytes(from.addr)
        + byte_order::be32_bytes(to.addr) + byte_order::be16_bytes(from.port)
        + byte_order::be16_bytes(to.port) + byte_order::be16_bytes((8 + payload.len()) as u16)
        + byte_order::be16_bytes(udp_sum) + payload
}

fn append_be16(out: &mut Vec<u8>, n: u16)
    ensures
        final(out)@ == old(out)@ + byte_order::be16_bytes(n),
{
    let mut bytes: [u8; 2] = [0, 0];
    write_be_u16(&mut bytes, n);
    out.push(bytes[0]);
    out.push(bytes[1]);
    proof {
        assert(out@ =~= old(out)@ + byte_order::be16_bytes(n));
    }
}

fn append_be32(out: &mut Vec<u8>, n: u32)
    ensures
        final(out)@ == old(out)@ + byte_order::be32_bytes(n),
{
    let mut bytes: [u8; 4] = [0, 0, 0, 0];
    write_be_u32(&mut bytes, n);
    out.push(bytes[0]);
    out.push(bytes[1]);
    out.push(bytes[2]);
    out.push(bytes[3]);
    proof {
        assert(out@ =~= old(out)@ + byte_order::be32_bytes(n));
    }
}

/// Builds the packet with given checksums.
pub fn datagram_with_sums(
    from: Endpoint,
    to: Endpoint,
    payload: &[u8],
    ip_sum: u16,
    udp_sum: u16,
) -> (res: Vec<u8>)
    requires
        payload@.len() <= MAX_UDP_PAYLOAD,
    ensures
        res@ == datagram_bytes(from, to, payload@, ip_sum, udp_sum),
{
    let mut out: Vec<u8> = vec![0x45, 0];
    append_be16(&mut out, 28 + payload.len() as u16);
    let middle: [u8; 6] = [0, 0, 0, 0, 64, 17];
    out.extend_from_slice(&middle);
    append_be16(&mut out, ip_sum);
    append_be32(&mut out, from.addr);
    append_be32(&mut out, to.addr);
    append_be16(&mut out, from.port);
    append_be16(&mut out, to.port);
    append_be16(&mut out, 8 + payload.len() as u16);
    append_be16(&mut out, udp_sum);
    out.extend_from_slice(payload);
    proof {
        assert(out@ =~= datagram_bytes(from, to, payload@, ip_sum, udp_sum));
    }
    out
}

/// The packet before its checksums are known.
pub open spec fn unsummed(from: Endpoint, to: Endpoint, payload: Seq<u8>) -> Seq<u8> {
    datagram_bytes(from, to, payload, 0, 0)
}

/// Where things stand in such a packet.
proof fn datagram_layout(
    from: Endpoint,
    to: Endpoint,
    payload: Seq<u8>,
    ip_sum: u16,
    udp_sum: u16,
)
    requires
        payload.len() <= MAX_UDP_PAYLOAD,
    ensures
        ({
            let packet = datagram_bytes(from, to, payload, ip_sum, udp_sum);
            &&& packet.len() == 28 + payload.len()
            &&& dissect::ipv4_header_len(packet) == 20
            &&& dissect::ipv4_payload(packet) == packet.skip(20)
            &&& packet.skip(28) == payload
        }),
{
    let packet = datagram_bytes(from, to, payload, ip_sum, udp_sum);
    let total = (28 + payload.len()) as u16;
    assert(packet[0] == 0x45);
    assert(packet[2] == byte_order::be16_bytes(total)[0]);
    assert(packet[3] == byte_order::be16_bytes(total)[1]);
    let rest = byte_order::tail(packet, 2);
    assert(rest[0] == packet[2] && rest[1] == packet[3]);
    assert(byte_order::be_u16(rest) == total);
    assert(dissect::ipv4_payload(packet) =~= packet.skip(20));
    assert(packet.skip(28) =~= payload);
}

/// The packet by which the guest gets `payload`, which came to its endpoint `to` from the
/// host endpoint `from`.
pub fn udp_reply(from: Endpoint, to: Endpoint, payload: &[u8]) -> (res: Vec<u8>)
    requires
        payload@.len() <= MAX_UDP_PAYLOAD,
    ensures
        res@ == datagram_bytes(
            from,
            to,
            payload@,
            ipv4_checksum_of(unsummed(from, to, payload@)),
            udp_checksum_of(unsummed(from, to, payload@)),
        ),
{
    let packet = datagram_with_sums(from, to, payload, 0, 0);
    proof {
        datagram_layout(from, to, payload@, 0, 0);
    }
    let ip_sum: u16 = ipv4_checksum(packet.as_slice());
    let udp_sum: u16 = udp_checksum(packet.as_slice());
    datagram_with_sums(from, to, payload, ip_sum, udp_sum)
}

/// The packet says of itself what it is: an IPv4 packet of its own length that carries a
/// UDP datagram from `from` to `to` with `payload`.
#[verifier::rlimit(60)]
#[verifier::spinoff_prover]
pub proof fn reply_reads_back(
    from: Endpoint,
    to: Endpoint,
    payload: Seq<u8>,
    ip_sum: u16,
    udp_sum: u16,
)
    requires
        payload.len() <= MAX_UDP_PAYLOAD,
    ensures
        ({
            let packet = datagram_bytes(from, to, payload, ip_sum, udp_sum);
            let datagram = dissect::ipv4_payload(packet);
            &&& dissect::ipv4_total_len(packet) == packet.len()
            &&& byte_order::be_u32(byte_order::tail(packet, 12)) == from.addr
            &&& byte_order::be_u32(byte_order::tail(packet, 16)) == to.addr
            &&& packet[9] == dissect::PROTOCOL_UDP
            &&& byte_order::be_u16(datagram) == from.port
            &&& byte_order::be_u16(byte_order::tail(datagram, 2)) == to.port
            &&& byte_order::be_u16(byte_order::tail(datagram, 4)) == datagram.len()
            &&& datagram.skip(8) == payload
        }),
{
    let packet = datagram_bytes(from, to, payload, ip_sum, udp_sum);
    datagram_layout(from, to, payload, ip_sum, udp_sum);
    let datagram = packet.skip(20);
    let total = (28 + payload.len()) as u16;
    let len = (8 + payload.len()) as u16;
    let t2 = byte_order::tail(packet, 2);
    assert(t2[0] == byte_order::be16_bytes(total)[0] && t2[1] == byte_order::be16_bytes(total)[1]);
    let t12 = byte_order::tail(packet, 12);
    assert(forall|i: int| 0 <= i < 4 ==> t12[i] == byte_order::be32_bytes(from.addr)[i]);
    let t16 = byte_order::tail(packet, 16);
    assert(forall|i: int| 0 <= i < 4 ==> t16[i] == byte_order::be32_bytes(to.addr)[i]);
    assert(forall|i: int| 0 <= i < 2 ==> datagram[i] == byte_order::be16_bytes(from.port)[i]);
    let d2 = byte_order::tail(datagram, 2);
    assert(forall|i: int| 0 <= i < 2 ==> d2[i] == byte_order::be16_bytes(to.port)[i]);
    let d4 = byte_order::tail(datagram, 4);
    assert(forall|i: int| 0 <= i < 2 ==> d4[i] == byte_order::be16_bytes(len)[i]);
    assert(packet[9] == 17);
    assert(datagram.skip(8) =~= packet.skip(28));
}

/// A word at an even place counts as its value.
proof fn word_counts(data: Seq<u8>, at: int)
    requires
        0 <= at,
        at % 2 == 0,
        at + 1 < data.len(),
    ensures
        word_sum(data) == word_sum(zeroed(data, at)) + data[at] * 0x100 + data[at + 1],
    decreases at,
{
    let rest = zeroed(data, at);
    if at == 0 {
        assert(rest.skip(2) =~= data.skip(2));
    } else {
        word_counts(data.skip(2), at - 2);
        assert(rest.skip(2) =~= zeroed(data.skip(2), at - 2));
    }
}

/// A sum that is not zero gets a checksum with which it is all ones.
proof fn checksum_completes(sum: nat)
    requires
        sum > 0,
    ensures
        inverted(sum + inverted(sum) as nat) == 0,
{
    let left = (sum - 1) as nat % 0xffff;
    let whole = (sum - 1) as nat / 0xffff;
    assert(sum - 1 == whole * 0xffff + left);
    assert(sum + inverted(sum) - 1 == (whole + 1) * 0xffff - 1);
    assert(((whole + 1) * 0xffff - 1) % 0xffff == 0xfffe);
}

/// The checksums of a packet are right: whoever sums up its header, or its datagram, with the
/// checksum in its place gets a checksum of zero.
pub proof fn replies_have_valid_checksums(from: Endpoint, to: Endpoint, payload: Seq<u8>)
    requires
        payload.len() <= MAX_UDP_PAYLOAD,
    ensures
        ({
            let plain = unsummed(from, to, payload);
            let packet = datagram_bytes(
                from,
                to,
                payload,
                ipv4_checksum_of(plain),
                udp_checksum_of(plain),
            );
            &&& inverted(header_sum(packet)) == 0
            &&& inverted(datagram_sum(packet, dissect::ipv4_payload(packet))) == 0
        }),
{
    let plain = unsummed(from, to, payload);
    let ip_sum = ipv4_checksum_of(plain);
    let udp_sum = udp_checksum_of(plain);
    let packet = datagram_bytes(from, to, payload, ip_sum, udp_sum);
    datagram_layout(from, to, payload, 0, 0);
    datagram_layout(from, to, payload, ip_sum, udp_sum);
    let header = packet.take(20);
    let bare = zeroed(plain, 10).take(20);
    assert(zeroed(header, 10) =~= bare);
    word_counts(header, 10);
    assert(header[10] == byte_order::be16_bytes(ip_sum)[0]);
    assert(header[11] == byte_order::be16_bytes(ip_sum)[1]);
    assert(bare[0] == 0x45);
    assert(word_sum(header) == word_sum(bare) + ip_sum);
    checksum_completes(word_sum(bare));
    let datagram = packet.skip(20);
    let empty = zeroed(plain.skip(20), 6);
    assert(zeroed(datagram, 6) =~= empty);
    word_counts(datagram, 6);
    assert(datagram[6] == byte_order::be16_bytes(udp_sum)[0]);
    assert(datagram[7] == byte_order::be16_bytes(udp_sum)[1]);
    assert(packet.subrange(12, 20) =~= plain.subrange(12, 20));
    assert(datagram_sum(packet, datagram) == datagram_sum(plain, empty) + udp_sum);
    checksum_completes(datagram_sum(plain, empty));
}

/// A datagram is a header with 20 bytes for the addresses, one with 8 bytes for the ports, and
/// the payload. Every number in it has its greatest byte first.
pub proof fn replies_are_laid_out(
    from: Endpoint,
    to: Endpoint,
    payload: Seq<u8>,
    ip_sum: u16,
    udp_sum: u16,
    i: int,
)
    requires
        payload.len() <= 65507,
    ensures
        ({
            let b = datagram_bytes(from, to, payload, ip_sum, udp_sum);
            &&& b.len() == 28 + payload.len()
            &&& b[0] == 0x45 && b[1] == 0
            &&& 256 * b[2] + b[3] == 28 + payload.len()
            &&& b[4] == 0 && b[5] == 0 && b[6] == 0 && b[7] == 0
            &&& b[8] == 64 && b[9] == 17
            &&& 256 * b[10] + b[11] == ip_sum
            &&& 16777216 * b[12] + 65536 * b[13] + 256 * b[14] + b[15] == from.addr
            &&& 16777216 * b[16] + 65536 * b[17] + 256 * b[18] + b[19] == to.addr
            &&& 256 * b[20] + b[21] == from.port
            &&& 256 * b[22] + b[23] == to.port
            &&& 256 * b[24] + b[25] == 8 + payload.len()
            &&& 256 * b[26] + b[27] == udp_sum
            &&& 0 <= i < payload.len() ==> b[28 + i] == payload[i]
        }),
{
    byte_order::bytes_are_digits((28 + payload.len()) as u16, from.addr);
    byte_order::bytes_are_digits((8 + payload.len()) as u16, to.addr);
    byte_order::bytes_are_digits(ip_sum, 0);
    byte_order::bytes_are_digits(udp_sum, 0);
    byte_order::bytes_are_digits(from.port, 0);
    byte_order::bytes_are_digits(to.port, 0);
}

/// Data is summed up in pairs of bytes, the greater byte first, and a last byte without another
/// counts as the greater one. A sum is brought down by adding what does not fit in 16 bits, and
/// a checksum and its sum are all ones together.
pub proof fn carries_are_added(data: Seq<u8>, sum: nat)
    ensures
        data.len() == 0 ==> word_sum(data) == 0,
        data.len() == 1 ==> word_sum(data) == 256 * data[0],
        data.len() >= 2 ==> word_sum(data) == 256 * data[0] + data[1] + word_sum(data.skip(2)),
        sum <= 65535 ==> folded(sum) == sum,
        sum > 65535 ==> folded(sum) == folded((sum % 65536 + sum / 65536) as nat),
        folded(sum) <= 65535,
        inverted(sum) + folded(sum) == 65535,
{
    if sum > 65535 {
        let less = (sum % 65536 + sum / 65536) as nat;
        let high = (sum / 65536) as int;
        assert(sum == less + 65535 * high);
        vstd::arithmetic::div_mod::lemma_mod_multiples_vanish(high, less - 1, 65535);
        assert(sum - 1 == 65535 * high + (less - 1));
    }
}

/// The checksum of the header covers its 20 bytes without the checksum itself. That of the
/// datagram covers the addresses, the number of the protocol, the length, and everything from
/// the ports on without the checksum itself.
pub proof fn checksums_cover_what_they_are_of(packet: Seq<u8>)
    requires
        packet.len() >= 28,
        dissect::ipv4_payload(packet).len() >= 8,
    ensures
        ({
            let bare = packet.update(10, 0).update(11, 0);
            ipv4_checksum_of(packet) + folded(word_sum(bare.take(20))) == 65535
        }),
        ({
            let part = dissect::ipv4_payload(packet);
            let bare = part.update(6, 0).update(7, 0);
            udp_checksum_of(packet) + folded(
                word_sum(packet.subrange(12, 20)) + 17 + part.len() + word_sum(bare),
            ) == 65535
        }),
{
    let part = dissect::ipv4_payload(packet);
    carries_are_added(packet, header_sum(zeroed(packet, 10)));
    carries_are_added(packet, datagram_sum(packet, zeroed(part, 6)));
}

} // verus!
