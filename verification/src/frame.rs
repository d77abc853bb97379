//! Zero-copy layered header parsing: Ethernet, IPv4/IPv6, TCP.
//!
//! Every parser hands back positions into the buffer it was given, never a
//! copy. A malformed, truncated or irrelevant header yields no result: such
//! frames are filtered out of the sample stream, not reported as errors.

use vstd::prelude::*;

use crate::addr::IpAddress;
use crate::addr::spec_v6_of_octets;

verus! {

/// Transport endpoints of a decoded TCP segment.
#[derive(Clone, Copy, PartialEq, Eq, Structural, Debug)]
pub struct TcpMetadata {
    pub src_ip: IpAddress,
    pub dst_ip: IpAddress,
    pub src_port: u16,
    pub dst_port: u16,
}

/// A view into a backing buffer: an offset and a length, never a copy.
#[derive(Clone, Copy, PartialEq, Eq, Structural, Debug)]
pub struct PayloadView {
    pub off: usize,
    pub len: usize,
}

impl PayloadView {
    /// The view stays inside the buffer it was sliced from.
    pub open spec fn wf(self, b: Seq<u8>) -> bool {
        self.off + self.len <= b.len()
    }

    /// The bytes the view selects.
    pub open spec fn select(self, b: Seq<u8>) -> Seq<u8> {
        b.subrange(self.off as int, self.off + self.len)
    }

    /// Materializes the viewed bytes of the backing buffer.
    pub fn bytes<'a>(&self, b: &'a [u8]) -> (r: &'a [u8])
        requires
            self.wf(b@),
        ensures
            r@ == self.select(b@),
    {
        let _n = b.len();
        &b[self.off..self.off + self.len]
    }
}

/// A big-endian two-octet value at position `i`.
pub open spec fn u16_be(b: Seq<u8>, i: int) -> int {
    b[i] as int * 0x100 + b[i + 1] as int
}

/// A big-endian four-octet value at position `i`.
pub open spec fn u32_be(b: Seq<u8>, i: int) -> int {
    b[i] as int * 0x1000000 + b[i + 1] as int * 0x10000 + b[i + 2] as int * 0x100 + b[i
        + 3] as int
}

pub fn read_u16_be(b: &[u8], i: usize) -> (r: u16)
    requires
        i + 2 <= b@.len(),
    ensures
        r == u16_be(b@, i as int),
{
    (b[i] as u16) * 0x100 + (b[i + 1] as u16)
}

pub fn read_u32_be(b: &[u8], i: usize) -> (r: u32)
    requires
        i + 4 <= b@.len(),
    ensures
        r == u32_be(b@, i as int),
{
    (b[i] as u32) * 0x1000000 + (b[i + 1] as u32) * 0x10000 + (b[i + 2] as u32) * 0x100 + (b[i
        + 3] as u32)
}

/// What an IP header contributes to a decoded segment: addresses, the
/// transport protocol number, and where the transport payload starts.
pub ghost struct IpHeaderInfo {
    pub src: IpAddress,
    pub dst: IpAddress,
    pub protocol: u8,
    pub payload_off: int,
}

/// IPv4 header: at least twenty octets, a header-length field of at least
/// five words that fits the buffer. The payload is everything after the
/// header.
pub open spec fn spec_parse_ipv4(b: Seq<u8>) -> Option<IpHeaderInfo> {
    if b.len() >= 20 && (b[0] & 0x0f) >= 5 && (b[0] & 0x0f) * 4 <= b.len() {
        Some(
            IpHeaderInfo {
                src: IpAddress::V4(u32_be(b, 12) as u32),
                dst: IpAddress::V4(u32_be(b, 16) as u32),
                protocol: b[9],
                payload_off: (b[0] & 0x0f) * 4,
            },
        )
    } else {
        None
    }
}

/// IPv6 header: a fixed forty octets; the payload is everything after it.
pub open spec fn spec_parse_ipv6(b: Seq<u8>) -> Option<IpHeaderInfo> {
    if b.len() >= 40 {
        Some(
            IpHeaderInfo {
                src: IpAddress::V6(spec_v6_of_octets(b.subrange(8, 24)) as u128),
                dst: IpAddress::V6(spec_v6_of_octets(b.subrange(24, 40)) as u128),
                protocol: b[6],
                payload_off: 40,
            },
        )
    } else {
        None
    }
}

/// Network-layer dispatch on the top nibble of the first octet:
/// 4 selects IPv4, 6 selects IPv6, anything else is filtered.
pub open spec fn spec_parse_ip(b: Seq<u8>) -> Option<IpHeaderInfo> {
    if b.len() >= 1 && b[0] >> 4 == 4 {
        spec_parse_ipv4(b)
    } else if b.len() >= 1 && b[0] >> 4 == 6 {
        spec_parse_ipv6(b)
    } else {
        None
    }
}

/// What a TCP header contributes: ports, the flag octet, and where the
/// segment payload starts.
pub ghost struct TcpHeaderInfo {
    pub src_port: u16,
    pub dst_port: u16,
    pub flags: u8,
    pub payload_off: int,
}

/// TCP header: at least twenty octets, a data-offset field of at least five
/// words that fits the buffer. The payload is everything after the header.
pub open spec fn spec_parse_tcp(b: Seq<u8>) -> Option<TcpHeaderInfo> {
    if b.len() >= 20 && (b[12] >> 4) >= 5 && (b[12] >> 4) * 4 <= b.len() {
        Some(
            TcpHeaderInfo {
                src_port: u16_be(b, 0) as u16,
                dst_port: u16_be(b, 2) as u16,
                flags: b[13],
                payload_off: (b[12] >> 4) * 4,
            },
        )
    } else {
        None
    }
}

/// A fully decoded TCP-in-IP packet: the endpoints and where, inside the
/// whole network-layer packet, the TCP payload starts.
pub ghost struct SegmentInfo {
    pub meta: TcpMetadata,
    pub payload_off: int,
}

/// The complete network-to-transport decode of one network-layer packet.
/// Only TCP is of interest; anything else, and any truncated header, is
/// filtered.
pub open spec fn spec_parse_ip_packet(b: Seq<u8>) -> Option<SegmentInfo> {
    match spec_parse_ip(b) {
        Some(ip) => if ip.protocol == 6 {
            match spec_parse_tcp(b.subrange(ip.payload_off, b.len() as int)) {
                Some(tcp) => Some(
                    SegmentInfo {
                        meta: TcpMetadata {
                            src_ip: ip.src,
                            dst_ip: ip.dst,
                            src_port: tcp.src_port,
                            dst_port: tcp.dst_port,
                        },
                        payload_off: ip.payload_off + tcp.payload_off,
                    },
                ),
                None => None,
            }
        } else {
            None
        },
        None => None,
    }
}

impl TcpMetadata {
    /// Decodes a raw network-layer packet down to its TCP payload view:
    /// the endpoint metadata and the position of the transport payload.
    pub fn parse_ip_packet(ip_packet: &[u8]) -> (r: Option<(TcpMetadata, PayloadView)>)
        ensures
            r is Some <==> spec_parse_ip_packet(ip_packet@) is Some,
            r matches Some((meta, view)) ==> {
                let info = spec_parse_ip_packet(ip_packet@).unwrap();
                &&& meta == info.meta
                &&& view.off == info.payload_off
                &&& view.wf(ip_packet@)
                &&& view.select(ip_packet@) == ip_packet@.subrange(
                    info.payload_off,
                    ip_packet@.len() as int,
                )
            },
    {
        if ip_packet.len() < 1 {
            return None;
        }
        let nibble = ip_packet[0] >> 4;
        let (src_ip, dst_ip, protocol, ip_payload_off): (IpAddress, IpAddress, u8, usize) =
            if nibble == 4 {
            if !(ip_packet.len() >= 20 && (ip_packet[0] & 0x0f) >= 5 && (ip_packet[0] & 0x0f)
                as usize * 4 <= ip_packet.len()) {
                return None;
            }
            let ihl = (ip_packet[0] & 0x0f) as usize;
            (
                IpAddress::V4(read_u32_be(ip_packet, 12)),
                IpAddress::V4(read_u32_be(ip_packet, 16)),
                ip_packet[9],
                ihl * 4,
            )
        } else if nibble == 6 {
            if ip_packet.len() < 40 {
                return None;
            }
            let src = crate::addr::ipv6_from_octets(&ip_packet[8..24]).unwrap();
            let dst = crate::addr::ipv6_from_octets(&ip_packet[24..40]).unwrap();
            (IpAddress::V6(src), IpAddress::V6(dst), ip_packet[6], 40)
        } else {
            return None;
        };
        if protocol != 6 {
            return None;
        }
        let seg = &ip_packet[ip_payload_off..ip_packet.len()];
        if !(seg.len() >= 20 && (seg[12] >> 4) >= 5 && (seg[12] >> 4) as usize * 4 <= seg.len()) {
            return None;
        }
        let data_off = ((seg[12] >> 4) as usize) * 4;
        let meta = TcpMetadata {
            src_ip,
            dst_ip,
            src_port: read_u16_be(seg, 0),
            dst_port: read_u16_be(seg, 2),
        };
        let view = PayloadView {
            off: ip_payload_off + data_off,
            len: ip_packet.len() - ip_payload_off - data_off,
        };
        proof {
            let b = ip_packet@;
            let info = spec_parse_ip_packet(b).unwrap();
            assert(view.select(b) =~= b.subrange(info.payload_off, b.len() as int));
        }
        Some((meta, view))
    }
}

/// Ethernet framing: a fourteen-octet header whose type field at offset
/// twelve selects the network protocol; the payload follows the header.
pub open spec fn spec_eth_type(frame: Seq<u8>) -> int {
    u16_be(frame, 12)
}

pub open spec fn spec_eth_payload(frame: Seq<u8>) -> Seq<u8> {
    frame.subrange(14, frame.len() as int)
}

/// Splits an Ethernet frame into its type field and payload view.
pub fn parse_ethernet(frame: &[u8]) -> (r: Option<(u16, PayloadView)>)
    ensures
        r is Some <==> frame@.len() >= 14,
        r matches Some((et, view)) ==> {
            &&& et == spec_eth_type(frame@)
            &&& view.off == 14
            &&& view.wf(frame@)
            &&& view.select(frame@) == spec_eth_payload(frame@)
        },
{
    if frame.len() < 14 {
        return None;
    }
    let et = read_u16_be(frame, 12);
    let view = PayloadView { off: 14, len: frame.len() - 14 };
    proof {
        assert(view.select(frame@) =~= spec_eth_payload(frame@));
    }
    Some((et, view))
}

/// An IP header as decoded at run time.
#[derive(Clone, Copy, PartialEq, Eq, Structural, Debug)]
pub struct IpHeaderExec {
    pub src: IpAddress,
    pub dst: IpAddress,
    pub protocol: u8,
    pub payload_off: usize,
}

/// Whether a decoded IP header carries what the specification assigns it.
pub open spec fn ip_header_matches(h: IpHeaderExec, i: IpHeaderInfo, b: Seq<u8>) -> bool {
    &&& h.src == i.src
    &&& h.dst == i.dst
    &&& h.protocol == i.protocol
    &&& h.payload_off == i.payload_off
    &&& h.payload_off <= b.len()
}

/// Decodes an IPv4 header.
pub fn parse_ipv4_header(b: &[u8]) -> (r: Option<IpHeaderExec>)
    ensures
        r is Some <==> spec_parse_ipv4(b@) is Some,
        r matches Some(h) ==> ip_header_matches(h, spec_parse_ipv4(b@).unwrap(), b@),
{
    if !(b.len() >= 20 && (b[0] & 0x0f) >= 5 && (b[0] & 0x0f) as usize * 4 <= b.len()) {
        return None;
    }
    Some(
        IpHeaderExec {
            src: IpAddress::V4(read_u32_be(b, 12)),
            dst: IpAddress::V4(read_u32_be(b, 16)),
            protocol: b[9],
            payload_off: (b[0] & 0x0f) as usize * 4,
        },
    )
}

/// Decodes an IPv6 header.
pub fn parse_ipv6_header(b: &[u8]) -> (r: Option<IpHeaderExec>)
    ensures
        r is Some <==> spec_parse_ipv6(b@) is Some,
        r matches Some(h) ==> ip_header_matches(h, spec_parse_ipv6(b@).unwrap(), b@),
{
    if b.len() < 40 {
        return None;
    }
    let src = crate::addr::ipv6_from_octets(&b[8..24]).unwrap();
    let dst = crate::addr::ipv6_from_octets(&b[24..40]).unwrap();
    Some(IpHeaderExec { src: IpAddress::V6(src), dst: IpAddress::V6(dst), protocol: b[6], payload_off: 40 })
}

/// A TCP header as decoded at run time.
#[derive(Clone, Copy, PartialEq, Eq, Structural, Debug)]
pub struct TcpHeaderExec {
    pub src_port: u16,
    pub dst_port: u16,
    pub flags: u8,
    pub payload_off: usize,
}

/// Decodes a TCP header: ports, flag octet, and where the payload starts.
pub fn parse_tcp_header(b: &[u8]) -> (r: Option<TcpHeaderExec>)
    ensures
        r is Some <==> spec_parse_tcp(b@) is Some,
        r matches Some(h) ==> {
            let t = spec_parse_tcp(b@).unwrap();
            &&& h.src_port == t.src_port
            &&& h.dst_port == t.dst_port
            &&& h.flags == t.flags
            &&& h.payload_off == t.payload_off
            &&& h.payload_off <= b@.len()
        },
{
    if !(b.len() >= 20 && (b[12] >> 4) >= 5 && (b[12] >> 4) as usize * 4 <= b.len()) {
        return None;
    }
    Some(
        TcpHeaderExec {
            src_port: read_u16_be(b, 0),
            dst_port: read_u16_be(b, 2),
            flags: b[13],
            payload_off: (b[12] >> 4) as usize * 4,
        },
    )
}

} // verus!
