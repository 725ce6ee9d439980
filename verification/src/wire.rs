//! What the network stack reads from the guest's Ethernet frames.

use smoltcp::wire::{EthernetFrame, Ipv4Packet, TcpPacket};
use vstd::prelude::*;

verus! {

/// An IPv4 address and a port.
#[derive(Debug, Clone, Copy, PartialEq, Eq, Structural)]
pub struct Destination {
    pub ip: u32,
    pub port: u16,
}

/// The ethertype of IPv4.
pub const ETHERTYPE_IPV4: u16 = 0x0800;

/// The protocol number of TCP.
pub const PROTOCOL_TCP: u8 = 6;

/// The 16-bit number at `i`, most significant byte first.
pub open spec fn be16(s: Seq<u8>, i: int) -> nat {
    s[i] as nat * 0x100 + s[i + 1] as nat
}

/// The 32-bit number at `i`, most significant byte first.
pub open spec fn be32(s: Seq<u8>, i: int) -> nat {
    be16(s, i) * 0x1_0000 + be16(s, i + 2)
}

/// Whether an Ethernet frame is complete.
pub open spec fn is_ethernet(s: Seq<u8>) -> bool {
    s.len() >= 14
}

/// The length of an IPv4 header.
pub open spec fn ipv4_header_len(s: Seq<u8>) -> nat {
    (s[0] & 0x0f) as nat * 4
}

/// Whether an IPv4 packet is complete.
pub open spec fn is_ipv4(s: Seq<u8>) -> bool {
    &&& s.len() >= 20
    &&& ipv4_header_len(s) <= be16(s, 2) <= s.len()
}

/// The length of a TCP header.
pub open spec fn tcp_header_len(s: Seq<u8>) -> nat {
    (s[12] >> 4) as nat * 4
}

/// Whether a TCP segment has its whole header.
pub open spec fn is_tcp(s: Seq<u8>) -> bool {
    &&& s.len() >= 20
    &&& 20 <= tcp_header_len(s) <= s.len()
}

/// An Ethernet frame, by ethertype and payload.
pub struct Ethernet<'a> {
    pub ethertype: u16,
    pub payload: &'a [u8],
}

/// An IPv4 packet, by protocol, destination and payload.
pub struct Ipv4<'a> {
    pub protocol: u8,
    pub dst: u32,
    pub payload: &'a [u8],
}

/// A TCP segment, by flags and destination port.
pub struct Tcp {
    pub syn: bool,
    pub ack: bool,
    pub dst_port: u16,
}

/// `EthernetFrame::new_checked` of `smoltcp`, with `ethertype` and `payload`.
/// Trusted: a frame of 14 bytes or more is accepted; the ethertype is its 13th and
/// 14th byte, and the payload what follows.
#[verifier::external_body]
fn read_ethernet<'a>(frame: &'a [u8]) -> (r: Option<Ethernet<'a>>)
    ensures
        match r {
            Some(e) => is_ethernet(frame@) && e.ethertype as nat == be16(frame@, 12)
                && e.payload@ == frame@.skip(14),
            None => !is_ethernet(frame@),
        },
{
    let frame = EthernetFrame::new_checked(frame).ok()?;
    Some(Ethernet { ethertype: frame.ethertype().into(), payload: frame.payload() })
}

/// `Ipv4Packet::new_checked` of `smoltcp`, with `next_header`, `dst_addr` and
/// `payload`. Trusted: a packet is accepted where it holds the fixed part of the
/// header and where header and total length fit into each other and the packet;
/// the fields stand where the Internet Protocol has them.
#[verifier::external_body]
fn read_ipv4<'a>(packet: &'a [u8]) -> (r: Option<Ipv4<'a>>)
    ensures
        match r {
            Some(p) => is_ipv4(packet@) && p.protocol == packet@[9] && p.dst as nat == be32(
                packet@,
                16,
            ) && p.payload@ == packet@.subrange(
                ipv4_header_len(packet@) as int,
                be16(packet@, 2) as int,
            ),
            None => !is_ipv4(packet@),
        },
{
    let packet = Ipv4Packet::new_checked(packet).ok()?;
    Some(
        Ipv4 {
            protocol: packet.next_header().into(),
            dst: packet.dst_addr().into(),
            payload: packet.payload(),
        },
    )
}

/// `TcpPacket::new_checked` of `smoltcp`, with `syn`, `ack` and `dst_port`. Trusted:
/// a segment is accepted where it holds its whole header; the flags and the port
/// stand where the Transmission Control Protocol has them.
#[verifier::external_body]
fn read_tcp(segment: &[u8]) -> (r: Option<Tcp>)
    ensures
        match r {
            Some(t) => is_tcp(segment@) && t.syn == (segment@[13] & 0x02 != 0) && t.ack == (
            segment@[13] & 0x10 != 0) && t.dst_port as nat == be16(segment@, 2),
            None => !is_tcp(segment@),
        },
{
    let segment = TcpPacket::new_checked(segment).ok()?;
    Some(Tcp { syn: segment.syn(), ack: segment.ack(), dst_port: segment.dst_port() })
}

/// The payload of an IPv4 packet.
pub open spec fn ipv4_payload(s: Seq<u8>) -> Seq<u8> {
    s.subrange(ipv4_header_len(s) as int, be16(s, 2) as int)
}

/// Where a frame that opens a TCP connection wants to go; nothing for any other
/// frame.
pub open spec fn syn_dst(frame: Seq<u8>) -> Option<Destination> {
    let packet = frame.skip(14);
    let segment = ipv4_payload(packet);
    if is_ethernet(frame) && be16(frame, 12) == ETHERTYPE_IPV4 && is_ipv4(packet) && packet[9]
        == PROTOCOL_TCP && is_tcp(segment) && segment[13] & 0x02 != 0 && segment[13] & 0x10 == 0 {
        Some(Destination { ip: be32(packet, 16) as u32, port: be16(segment, 2) as u16 })
    } else {
        None
    }
}

/// Parse a TCP SYN's destination from a raw Ethernet frame.
/// Returns None if the frame is not a TCP SYN (without ACK).
pub fn parse_syn_dst(frame: &[u8]) -> (r: Option<Destination>)
    ensures
        r == syn_dst(frame@),
{
    let ethernet = match read_ethernet(frame) {
        Some(e) => e,
        None => return None,
    };
    if ethernet.ethertype != ETHERTYPE_IPV4 {
        return None;
    }
    let ipv4 = match read_ipv4(ethernet.payload) {
        Some(p) => p,
        None => return None,
    };
    if ipv4.protocol != PROTOCOL_TCP {
        return None;
    }
    let tcp = match read_tcp(ipv4.payload) {
        Some(t) => t,
        None => return None,
    };
    if !tcp.syn || tcp.ack {
        return None;
    }
    Some(Destination { ip: ipv4.dst, port: tcp.dst_port })
}

/// A frame opens a connection exactly where it carries IPv4, that carries TCP, and of the
/// flags SYN is set and ACK is not; it then goes to the address and the port that stand in
/// the two headers. Everything is read from where the protocols have it.
pub proof fn law_syns_are_read_from_the_headers(frame: Seq<u8>)
    ensures
        ({
            let ip_len = (frame[14] & 0x0f) as int * 4;
            let tcp = 14 + ip_len;
            let total = frame[16] as int * 256 + frame[17] as int;
            let tcp_len = (frame[tcp + 12] >> 4) as int * 4;
            let complete = frame.len() >= 34 && ip_len <= total && 14 + total <= frame.len()
                && total - ip_len >= 20 && 20 <= tcp_len && tcp_len <= total - ip_len;
            let opens = frame[12] == 0x08 && frame[13] == 0x00 && frame[23] == 6 && frame[tcp + 13]
                & 0x02 != 0 && frame[tcp + 13] & 0x10 == 0;
            &&& syn_dst(frame) is Some <==> complete && opens
            &&& syn_dst(frame) matches Some(d) ==> d.ip == frame[30] * 0x100_0000 + frame[31]
                * 0x1_0000 + frame[32] * 0x100 + frame[33] && d.port == frame[tcp + 2] * 0x100
                + frame[tcp + 3]
        }),
{
    let packet = frame.skip(14);
    let segment = ipv4_payload(packet);
    if frame.len() >= 34 {
        assert(packet[0] == frame[14]);
        assert(packet[2] == frame[16] && packet[3] == frame[17]);
        assert(packet[9] == frame[23]);
        assert(packet[16] == frame[30] && packet[17] == frame[31] && packet[18] == frame[32]
            && packet[19] == frame[33]);
        let h = ipv4_header_len(packet) as int;
        let t = be16(packet, 2) as int;
        if h <= t && t <= packet.len() && t - h >= 20 {
            assert(segment[12] == frame[14 + h + 12]);
            assert(segment[13] == frame[14 + h + 13]);
            assert(segment[2] == frame[14 + h + 2] && segment[3] == frame[14 + h + 3]);
        }
    }
}

} // verus!
