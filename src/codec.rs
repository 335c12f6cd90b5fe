//! Frame codec: decodes a captured Ethernet frame down to the transport
//! header that the scan classifier reads, and encodes ICMP echo requests.
use vstd::prelude::*;
use crate::net::{IpAddr, be_bytes, read_be, lemma_be_bytes_bound, pow256};

verus! {

pub const ETHERNET_HEADER_LEN: usize = 14;
pub const IPV4_HEADER_LEN: usize = 20;
pub const IPV6_HEADER_LEN: usize = 40;
pub const TCP_HEADER_LEN: usize = 20;
pub const UDP_HEADER_LEN: usize = 8;
pub const ICMP_HEADER_LEN: usize = 4;

pub const ETHERTYPE_IPV4: u16 = 0x0800;
pub const ETHERTYPE_IPV6: u16 = 0x86DD;

pub const PROTO_ICMP: u8 = 1;
pub const PROTO_TCP: u8 = 6;
pub const PROTO_UDP: u8 = 17;
pub const PROTO_ICMPV6: u8 = 58;

/// The transport header of a decoded frame, reduced to what classification reads.
#[derive(PartialEq, Eq, Structural, Clone, Copy, Debug)]
pub enum Transport {
    /// A TCP segment: its source port and its flags byte.
    Tcp { source_port: u16, flags: u8 },
    /// A UDP datagram: its source port.
    Udp { source_port: u16 },
    /// An ICMP or ICMPv6 message: its type.
    Icmp { icmp_type: u8 },
}

/// A frame decoded from the link layer down to its transport header.
#[derive(PartialEq, Eq, Structural, Clone, Copy, Debug)]
pub struct DecodedFrame {
    /// The source address of the IP packet.
    pub source: IpAddr,
    /// The IPv4 time to live, or the IPv6 hop limit.
    pub ttl: u8,
    /// The transport header.
    pub transport: Transport,
}

/// The payload bounds of an IPv4 packet `p`: after the header (at least the
/// fixed 20 bytes, more when the header length announces options), as long as
/// the total length announces, cut at the end of the bytes at hand.
pub open spec fn ipv4_payload(p: Seq<u8>) -> Seq<u8> {
    let header = (p[0] % 16) as int * 4;
    let start = if header > 20 { header } else { 20 };
    let total = be_bytes(p, 2, 2) as int;
    let plen = if total >= header { total - header } else { 0 };
    let end = if start + plen < p.len() { start + plen } else { p.len() as int };
    if p.len() <= start {
        Seq::empty()
    } else {
        p.subrange(start, end)
    }
}

/// The payload of an IPv6 packet `p`: after the fixed 40-byte header, as long
/// as its payload length announces, cut at the end of the bytes at hand.
pub open spec fn ipv6_payload(p: Seq<u8>) -> Seq<u8> {
    let end = 40 + be_bytes(p, 4, 2) as int;
    let end = if end < p.len() { end } else { p.len() as int };
    if p.len() <= 40 {
        Seq::empty()
    } else {
        p.subrange(40, end)
    }
}

/// The transport header carried in `payload` under the IP protocol number
/// `proto`, where `icmp_proto` is the number that ICMP has in this IP version.
pub open spec fn transport_view(proto: u8, icmp_proto: u8, payload: Seq<u8>) -> Option<Transport> {
    if proto == PROTO_TCP {
        if payload.len() >= TCP_HEADER_LEN {
            Some(Transport::Tcp { source_port: be_bytes(payload, 0, 2) as u16, flags: payload[13] })
        } else {
            None
        }
    } else if proto == PROTO_UDP {
        if payload.len() >= UDP_HEADER_LEN {
            Some(Transport::Udp { source_port: be_bytes(payload, 0, 2) as u16 })
        } else {
            None
        }
    } else if proto == icmp_proto {
        if payload.len() >= ICMP_HEADER_LEN {
            Some(Transport::Icmp { icmp_type: payload[0] })
        } else {
            None
        }
    } else {
        None
    }
}

/// What a captured Ethernet frame decodes to; `None` where any layer does not
/// parse as the protocol expected there.
pub open spec fn frame_view(f: Seq<u8>) -> Option<DecodedFrame> {
    if f.len() < ETHERNET_HEADER_LEN {
        None
    } else {
        let ethertype = be_bytes(f, 12, 2);
        let p = f.subrange(14, f.len() as int);
        if ethertype == ETHERTYPE_IPV4 {
            if p.len() < IPV4_HEADER_LEN {
                None
            } else {
                match transport_view(p[9], PROTO_ICMP, ipv4_payload(p)) {
                    Some(t) => Some(DecodedFrame {
                        source: IpAddr::V4(be_bytes(p, 12, 4) as u32),
                        ttl: p[8],
                        transport: t,
                    }),
                    None => None,
                }
            }
        } else if ethertype == ETHERTYPE_IPV6 {
            if p.len() < IPV6_HEADER_LEN {
                None
            } else {
                match transport_view(p[6], PROTO_ICMPV6, ipv6_payload(p)) {
                    Some(t) => Some(DecodedFrame {
                        source: IpAddr::V6(be_bytes(p, 8, 16) as u128),
                        ttl: p[7],
                        transport: t,
                    }),
                    None => None,
                }
            }
        } else {
            None
        }
    }
}

fn read_be16(b: &[u8], start: usize) -> (r: u16)
    requires
        start + 2 <= b@.len(),
    ensures
        r as nat == be_bytes(b@, start as int, 2),
{
    proof {
        lemma_be_bytes_bound(b@, start as int, 2);
        reveal_with_fuel(pow256, 3);
    }
    read_be(b, start, 2) as u16
}

/// Decodes the transport header of `payload` under IP protocol `proto`.
pub fn decode_transport(proto: u8, icmp_proto: u8, payload: &[u8]) -> (r: Option<Transport>)
    ensures
        r == transport_view(proto, icmp_proto, payload@),
{
    if proto == PROTO_TCP {
        if payload.len() >= TCP_HEADER_LEN {
            Some(Transport::Tcp { source_port: read_be16(payload, 0), flags: payload[13] })
        } else {
            None
        }
    } else if proto == PROTO_UDP {
        if payload.len() >= UDP_HEADER_LEN {
            Some(Transport::Udp { source_port: read_be16(payload, 0) })
        } else {
            None
        }
    } else if proto == icmp_proto {
        if payload.len() >= ICMP_HEADER_LEN {
            Some(Transport::Icmp { icmp_type: payload[0] })
        } else {
            None
        }
    } else {
        None
    }
}

/// The IPv4 payload of `p`, a packet of at least the fixed header length.
fn ipv4_payload_of(p: &[u8]) -> (r: &[u8])
    requires
        p@.len() >= IPV4_HEADER_LEN,
    ensures
        r@ == ipv4_payload(p@),
{
    let header: usize = (p[0] % 16) as usize * 4;
    let start: usize = if header > 20 { header } else { 20 };
    let total: usize = read_be16(p, 2) as usize;
    let plen: usize = if total >= header { total - header } else { 0 };
    let len = p.len();
    if len <= start {
        return &[];
    }
    let end: usize = if plen < len - start { start + plen } else { len };
    vstd::slice::slice_subrange(p, start, end)
}

/// The IPv6 payload of `p`, a packet of at least the fixed header length.
fn ipv6_payload_of(p: &[u8]) -> (r: &[u8])
    requires
        p@.len() >= IPV6_HEADER_LEN,
    ensures
        r@ == ipv6_payload(p@),
{
    let plen: usize = read_be16(p, 4) as usize;
    let len = p.len();
    if len <= 40 {
        return &[];
    }
    let end: usize = if plen < len - 40 { 40 + plen } else { len };
    vstd::slice::slice_subrange(p, 40, end)
}

/// Decodes a captured Ethernet frame. Frames that do not parse at some layer,
/// or carry another ethertype or IP protocol, give `None`.
pub fn decode_frame(frame: &[u8]) -> (r: Option<DecodedFrame>)
    ensures
        r == frame_view(frame@),
{
    let len = frame.len();
    if len < ETHERNET_HEADER_LEN {
        return None;
    }
    let ethertype = read_be16(frame, 12);
    let p = vstd::slice::slice_subrange(frame, 14, len);
    if ethertype == ETHERTYPE_IPV4 {
        if p.len() < IPV4_HEADER_LEN {
            return None;
        }
        proof {
            lemma_be_bytes_bound(p@, 12, 4);
            reveal_with_fuel(pow256, 5);
        }
        let source = IpAddr::V4(read_be(p, 12, 4) as u32);
        match decode_transport(p[9], PROTO_ICMP, ipv4_payload_of(p)) {
            Some(t) => Some(DecodedFrame { source, ttl: p[8], transport: t }),
            None => None,
        }
    } else if ethertype == ETHERTYPE_IPV6 {
        if p.len() < IPV6_HEADER_LEN {
            return None;
        }
        let source = IpAddr::V6(read_be(p, 8, 16));
        match decode_transport(p[6], PROTO_ICMPV6, ipv6_payload_of(p)) {
            Some(t) => Some(DecodedFrame { source, ttl: p[7], transport: t }),
            None => None,
        }
    } else {
        None
    }
}

/// ICMP type of an echo request.
pub const ICMP_ECHO_REQUEST: u8 = 8;
/// Length of an ICMP echo request header.
pub const ICMP_ECHO_HEADER_LEN: usize = 8;
/// The longest data whose checksum is computed without overflow of the
/// 32-bit sum that accumulates its 16-bit words.
pub const CHECKSUM_MAX_LEN: usize = 131072;

/// The Internet checksum (the one's complement of the one's-complement sum of
/// the 16-bit big-endian words) of `data`, with word number `skipword` left
/// out of the sum.
pub uninterp spec fn internet_checksum(data: Seq<u8>, skipword: nat) -> u16;

/// Relies on `pnet_packet::util::checksum`, which computes the Internet
/// checksum of `data` leaving out word `skipword`, and returns 0 for no data.
/// Its 32-bit sum of words cannot overflow within `CHECKSUM_MAX_LEN` bytes.
#[verifier::external_body]
fn checksum(data: &[u8], skipword: usize) -> (r: u16)
    requires
        data@.len() <= CHECKSUM_MAX_LEN,
    ensures
        r == internet_checksum(data@, skipword as nat),
        data@.len() == 0 ==> r == 0,
{
    pnet_packet::util::checksum(data, skipword)
}

/// `b` with bytes `i` and `i + 1` holding `v` big-endian.
pub open spec fn with_be16(b: Seq<u8>, i: int, v: u16) -> Seq<u8> {
    b.update(i, (v / 256) as u8).update(i + 1, (v % 256) as u8)
}

/// The echo request `b` with its type, identifier and sequence number set,
/// its checksum field still as it was.
pub open spec fn echo_fields(b: Seq<u8>, identifier: u16, sequence: u16) -> Seq<u8> {
    with_be16(with_be16(b.update(0, ICMP_ECHO_REQUEST), 4, identifier), 6, sequence)
}

/// The finished echo request built in `b`: the fields set, then the checksum
/// over the message, computed with the checksum word left out, written into it.
pub open spec fn echo_request(b: Seq<u8>, identifier: u16, sequence: u16) -> Seq<u8> {
    let m = echo_fields(b, identifier, sequence);
    with_be16(m, 2, internet_checksum(m, 1))
}

fn set_be16(b: &mut Vec<u8>, i: usize, v: u16)
    requires
        i + 2 <= old(b)@.len(),
    ensures
        final(b)@ == with_be16(old(b)@, i as int, v),
{
    let n = b.len();
    assert(i + 2 <= n);
    b[i] = (v / 256) as u8;
    b[i + 1] = (v % 256) as u8;
}

/// Turns the ICMP message in `packet` into an echo request with the given
/// identifier and sequence number (the caller draws them at random to match
/// replies), and a correct checksum. The code byte and the data are kept.
pub fn build_icmp_packet(packet: &mut Vec<u8>, identifier: u16, sequence: u16)
    requires
        ICMP_ECHO_HEADER_LEN <= old(packet)@.len() <= CHECKSUM_MAX_LEN,
    ensures
        final(packet)@ == echo_request(old(packet)@, identifier, sequence),
        final(packet)@.len() == old(packet)@.len(),
        final(packet)@[0] == ICMP_ECHO_REQUEST,
        final(packet)@[1] == old(packet)@[1],
        be_bytes(final(packet)@, 4, 2) == identifier,
        be_bytes(final(packet)@, 6, 2) == sequence,
        be_bytes(final(packet)@, 2, 2) == internet_checksum(echo_fields(old(packet)@, identifier, sequence), 1),
        final(packet)@.subrange(8, final(packet)@.len() as int) == old(packet)@.subrange(8, old(packet)@.len() as int),
{
    packet[0] = ICMP_ECHO_REQUEST;
    set_be16(packet, 4, identifier);
    set_be16(packet, 6, sequence);
    let sum = checksum(packet.as_slice(), 1);
    set_be16(packet, 2, sum);
    proof {
        reveal_with_fuel(be_bytes, 3);
        assert(final(packet)@.subrange(8, final(packet)@.len() as int) =~= old(packet)@.subrange(8, old(packet)@.len() as int));
    }
}

} // verus!
