//! Sample classification: which decoded TCP segments are worth keeping.
//!
//! Exactly two kinds of segment are of interest: a bare acknowledgement
//! (an ACK-only segment with no payload, a lightweight liveness signal) and
//! a segment carrying a TLS ClientHello. Connection setup and teardown
//! segments, and everything that fails to parse, are filtered silently.

use vstd::prelude::*;
use vstd::slice::slice_to_vec;

use crate::frame::parse_ethernet;
use crate::frame::parse_ipv4_header;
use crate::frame::parse_ipv6_header;
use crate::frame::parse_tcp_header;
use crate::frame::spec_eth_payload;
use crate::frame::spec_eth_type;
use crate::frame::spec_parse_ipv4;
use crate::frame::spec_parse_ipv6;
use crate::frame::spec_parse_tcp;
use crate::tls::extract_client_hello;
use crate::tls::spec_tls_hello;

verus! {

/// The TCP flag octet of an acknowledgement alone.
pub const FLAG_ACK: u8 = 0x10;

/// SYN alone: connection setup.
pub const FLAG_SYN: u8 = 0x02;

/// SYN and ACK: connection setup.
pub const FLAG_SYN_ACK: u8 = 0x12;

/// FIN alone: connection teardown.
pub const FLAG_FIN: u8 = 0x01;

/// RST alone: connection teardown.
pub const FLAG_RST: u8 = 0x04;

/// Which sample stream a kept segment belongs to.
#[derive(Clone, Copy, PartialEq, Eq, Structural, Debug)]
pub enum ExtractionType {
    TcpAck,
    TlsClientHello,
}

/// The classification decision over a segment's flag octet and payload, in
/// order: a bare acknowledgement, then uninteresting setup/teardown flags,
/// then a payload that parses as a TLS record carrying a ClientHello;
/// everything else is filtered.
pub open spec fn spec_classify_segment(flags: u8, payload: Seq<u8>) -> Option<ExtractionType> {
    if flags == FLAG_ACK && payload.len() == 0 {
        Some(ExtractionType::TcpAck)
    } else if flags == FLAG_SYN || flags == FLAG_SYN_ACK || flags == FLAG_FIN || flags == FLAG_RST {
        None
    } else if spec_tls_hello(payload) is Some {
        Some(ExtractionType::TlsClientHello)
    } else {
        None
    }
}

/// The classification of a transport payload handed over with its protocol
/// number: only TCP segments that parse are considered at all.
pub open spec fn spec_handle_ip_payload(proto: u8, b: Seq<u8>) -> Option<ExtractionType> {
    if proto == 6 {
        match spec_parse_tcp(b) {
            Some(t) => spec_classify_segment(t.flags, b.subrange(t.payload_off, b.len() as int)),
            None => None,
        }
    } else {
        None
    }
}

/// Classifies the transport part of one packet: TCP only, then by flags and
/// payload as `spec_classify_segment` says.
pub fn handle_ip_payload(next_header_protocol: u8, ip_payload: &[u8]) -> (r: Option<
    ExtractionType,
>)
    ensures
        r == spec_handle_ip_payload(next_header_protocol, ip_payload@),
        ({
            let t = spec_parse_tcp(ip_payload@);
            let seg = ip_payload@.subrange(t.unwrap().payload_off, ip_payload@.len() as int);
            &&& (next_header_protocol == 6 && t is Some && t.unwrap().flags == FLAG_ACK
                && seg.len() == 0) ==> r == Some(ExtractionType::TcpAck)
            &&& (next_header_protocol == 6 && t is Some && (t.unwrap().flags == FLAG_SYN
                || t.unwrap().flags == FLAG_SYN_ACK || t.unwrap().flags == FLAG_FIN
                || t.unwrap().flags == FLAG_RST)) ==> r is None
            &&& (next_header_protocol == 6 && t is Some && !(t.unwrap().flags == FLAG_ACK
                && seg.len() == 0) && !(t.unwrap().flags == FLAG_SYN || t.unwrap().flags
                == FLAG_SYN_ACK || t.unwrap().flags == FLAG_FIN || t.unwrap().flags == FLAG_RST)
                && spec_tls_hello(seg) is None) ==> r is None
        }),
{
    if next_header_protocol != 6 {
        return None;
    }
    let tcp = match parse_tcp_header(ip_payload) {
        Some(t) => t,
        None => {
            return None;
        },
    };
    let payload = &ip_payload[tcp.payload_off..ip_payload.len()];
    if tcp.flags == FLAG_ACK && payload.len() == 0 {
        Some(ExtractionType::TcpAck)
    } else if tcp.flags == FLAG_SYN || tcp.flags == FLAG_SYN_ACK || tcp.flags == FLAG_FIN
        || tcp.flags == FLAG_RST {
        None
    } else if extract_client_hello(payload).is_some() {
        Some(ExtractionType::TlsClientHello)
    } else {
        None
    }
}

/// The classification of a whole link-layer frame: an Ethernet header whose
/// type field selects IPv4 or IPv6, then the transport classification of
/// the IP payload.
pub open spec fn spec_handle_ethernet_frame(frame: Seq<u8>) -> Option<ExtractionType> {
    if frame.len() >= 14 {
        let ethp = spec_eth_payload(frame);
        if spec_eth_type(frame) == 0x0800 {
            match spec_parse_ipv4(ethp) {
                Some(ip) => spec_handle_ip_payload(
                    ip.protocol,
                    ethp.subrange(ip.payload_off, ethp.len() as int),
                ),
                None => None,
            }
        } else if spec_eth_type(frame) == 0x86dd {
            match spec_parse_ipv6(ethp) {
                Some(ip) => spec_handle_ip_payload(
                    ip.protocol,
                    ethp.subrange(ip.payload_off, ethp.len() as int),
                ),
                None => None,
            }
        } else {
            None
        }
    } else {
        None
    }
}

/// Classifies one captured Ethernet frame; a kept frame hands back its kind
/// together with a copy of the network-layer packet, the one copy made
/// before a sample crosses the queue boundary.
pub fn handle_ethernet_frame(frame: &[u8]) -> (r: Option<(ExtractionType, Vec<u8>)>)
    ensures
        r is Some <==> spec_handle_ethernet_frame(frame@) is Some,
        r matches Some((t, p)) ==> Some(t) == spec_handle_ethernet_frame(frame@) && p@
            == spec_eth_payload(frame@),
{
    let (et, view) = match parse_ethernet(frame) {
        Some(x) => x,
        None => {
            return None;
        },
    };
    let ethp = view.bytes(frame);
    let header = if et == 0x0800 {
        parse_ipv4_header(ethp)
    } else if et == 0x86dd {
        parse_ipv6_header(ethp)
    } else {
        return None;
    };
    let ip = match header {
        Some(h) => h,
        None => {
            return None;
        },
    };
    let t = match handle_ip_payload(ip.protocol, &ethp[ip.payload_off..ethp.len()]) {
        Some(t) => t,
        None => {
            return None;
        },
    };
    Some((t, slice_to_vec(ethp)))
}

} // verus!
