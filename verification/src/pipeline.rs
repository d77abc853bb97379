//! Per-sample enrichment: from a raw network-layer packet and its capture
//! timestamp to the stored analytics record.
//!
//! For each TLS-classified sample the pipeline re-derives transport
//! metadata and handshake fields from the raw bytes, enriches both
//! endpoints through the lookup database — substituting operator number
//! zero and empty text when no prefix covers an endpoint, never a stale
//! value — and assigns a time-ordered unique identifier whose low bits are
//! fresh randomness, so same-millisecond samples tolerate collisions.

use vstd::prelude::*;

use crate::addr::spec_v6_mapped;
use crate::addr::ip_to_stored_ipv6;
use crate::fingerprint::spec_ja3_of_summary;
use crate::fingerprint::lemma_ja3_matches_summary;
use crate::frame::TcpMetadata;
use crate::frame::spec_parse_ip_packet;
use crate::lookup::AsnMetadata;
use crate::lookup::IpDatabase;
use crate::lookup::spec_lookup;
use crate::tls::extract_client_hello;
use crate::tls::spec_sni_string;
use crate::tls::spec_tls_hello;

verus! {

/// The stored analytics record for one matched ClientHello sample.
#[derive(Debug, PartialEq)]
pub struct StoredTlsClientHelloMetadata {
    /// Time-ordered unique identifier.
    pub uuid: u128,
    /// Source address, IPv6-mapped.
    pub src_ip: u128,
    pub src_asn: u32,
    pub src_asn_handle: String,
    pub src_asn_description: String,
    /// Destination address, IPv6-mapped.
    pub dst_ip: u128,
    pub dst_asn: u32,
    pub dst_asn_handle: String,
    pub dst_asn_description: String,
    pub src_port: u16,
    pub dst_port: u16,
    /// Version of the outer TLS record header.
    pub outer_version: u16,
    /// Version in the ClientHello.
    pub inner_version: u16,
    pub ciphers: Vec<u16>,
    pub extensions: Vec<u16>,
    pub sni: String,
    pub ec_curves: Vec<u16>,
    pub ec_curve_point_formats: Vec<u8>,
    pub ja3: String,
}

/// The enrichment of one endpoint: its operator's number, handle and
/// description, or the defaults — number zero and empty text — when no
/// prefix covers it.
pub open spec fn spec_enriched_asn(o: Option<AsnMetadata>) -> (u32, Seq<char>, Seq<char>) {
    match o {
        Some(m) => (
            m.asn,
            match m.handle {
                Some(h) => h@,
                None => Seq::empty(),
            },
            match m.description {
                Some(d) => d@,
                None => Seq::empty(),
            },
        ),
        None => (0, Seq::empty(), Seq::empty()),
    }
}

/// Materializes the enrichment fields of one lookup outcome.
fn enrich_fields(o: Option<&AsnMetadata>) -> (r: (u32, String, String))
    ensures
        match o {
            Some(m) => (r.0, r.1@, r.2@) == spec_enriched_asn(Some(*m)),
            None => (r.0, r.1@, r.2@) == spec_enriched_asn(None),
        },
{
    match o {
        Some(m) => (
            m.asn,
            match &m.handle {
                Some(h) => h.clone(),
                None => String::new(),
            },
            match &m.description {
                Some(d) => d.clone(),
                None => String::new(),
            },
        ),
        None => (0, String::new(), String::new()),
    }
}

/// Relies on `uuid::Uuid::new_v7` with `uuid::Timestamp::from_unix`: the
/// top 48 bits carry the unix millisecond timestamp, the version nibble is
/// seven and the variant bits are binary one-zero. The remaining bits are
/// freshly drawn randomness, so nothing is promised of them: two calls on
/// the same instant may differ.
#[verifier::external_body]
fn uuid_v7(secs: u64, nanos: u32) -> (r: u128)
    requires
        (secs as int) * 1000 + (nanos as int) / 1_000_000 <= u64::MAX,
    ensures
        r >> 80 == (((secs as int) * 1000 + (nanos as int) / 1_000_000)
            % 0x1_0000_0000_0000) as u128,
        (r >> 76) & 0xf == 7,
        (r >> 62) & 0x3 == 2,
{
    uuid::Uuid::new_v7(uuid::Timestamp::from_unix(uuid::NoContext, secs, nanos)).as_u128()
}

/// Extracts, fingerprints and enriches one TLS-classified sample: nothing
/// unless the raw packet decodes to a TCP segment whose payload is a
/// well-formed handshake record carrying a ClientHello.
pub fn extract_tcp_client_hello(
    ip_lookup: &IpDatabase,
    timestamp_ms: u64,
    ip_payload: &[u8],
) -> (r: Option<StoredTlsClientHelloMetadata>)
    requires
        ip_lookup.wf(),
    ensures
        r is Some <==> (spec_parse_ip_packet(ip_payload@) matches Some(info) && spec_tls_hello(
            ip_payload@.subrange(info.payload_off, ip_payload@.len() as int),
        ) is Some),
        r matches Some(m) ==> {
            let info = spec_parse_ip_packet(ip_payload@).unwrap();
            let s = spec_tls_hello(
                ip_payload@.subrange(info.payload_off, ip_payload@.len() as int),
            ).unwrap();
            let src = spec_enriched_asn(spec_lookup(*ip_lookup, info.meta.src_ip));
            let dst = spec_enriched_asn(spec_lookup(*ip_lookup, info.meta.dst_ip));
            &&& m.src_ip == spec_v6_mapped(info.meta.src_ip)
            &&& m.dst_ip == spec_v6_mapped(info.meta.dst_ip)
            &&& m.src_port == info.meta.src_port
            &&& m.dst_port == info.meta.dst_port
            &&& m.src_asn == src.0
            &&& m.src_asn_handle@ == src.1
            &&& m.src_asn_description@ == src.2
            &&& m.dst_asn == dst.0
            &&& m.dst_asn_handle@ == dst.1
            &&& m.dst_asn_description@ == dst.2
            &&& m.outer_version == s.outer_version
            &&& m.inner_version == s.inner_version
            &&& m.ciphers@ == s.ciphers
            &&& m.extensions@ == s.extensions
            &&& m.sni@ == spec_sni_string(s.sni)
            &&& m.ec_curves@ == s.curves
            &&& m.ec_curve_point_formats@ == s.point_formats
            &&& m.ja3@ == spec_ja3_of_summary(s)
            &&& m.uuid >> 80 == ((timestamp_ms as int) % 0x1_0000_0000_0000) as u128
            &&& (m.uuid >> 76) & 0xf == 7
            &&& (m.uuid >> 62) & 0x3 == 2
        },
{
    let (meta, view) = match TcpMetadata::parse_ip_packet(ip_payload) {
        Some(x) => x,
        None => {
            return None;
        },
    };
    let payload = view.bytes(ip_payload);
    let tls_meta = match extract_client_hello(payload) {
        Some(t) => t,
        None => {
            return None;
        },
    };
    let ja3 = tls_meta.ja3();
    proof {
        let info = spec_parse_ip_packet(ip_payload@).unwrap();
        let s = spec_tls_hello(
            ip_payload@.subrange(info.payload_off, ip_payload@.len() as int),
        ).unwrap();
        lemma_ja3_matches_summary(tls_meta, s);
    }
    let src_meta = ip_lookup.lookup(meta.src_ip);
    let dst_meta = ip_lookup.lookup(meta.dst_ip);
    let (src_asn, src_asn_handle, src_asn_description) = enrich_fields(src_meta);
    let (dst_asn, dst_asn_handle, dst_asn_description) = enrich_fields(dst_meta);
    let secs = timestamp_ms / 1000;
    let subms = timestamp_ms % 1000;
    let nanos = (subms * 1_000_000) as u32;
    let uuid = uuid_v7(secs, nanos);
    Some(
        StoredTlsClientHelloMetadata {
            uuid,
            src_ip: ip_to_stored_ipv6(meta.src_ip),
            src_asn,
            src_asn_handle,
            src_asn_description,
            dst_ip: ip_to_stored_ipv6(meta.dst_ip),
            dst_asn,
            dst_asn_handle,
            dst_asn_description,
            src_port: meta.src_port,
            dst_port: meta.dst_port,
            outer_version: tls_meta.outer_version,
            inner_version: tls_meta.inner_version,
            ciphers: tls_meta.ciphers,
            extensions: tls_meta.extensions,
            sni: tls_meta.sni,
            ec_curves: tls_meta.ec_curves,
            ec_curve_point_formats: tls_meta.ec_curve_point_formats,
            ja3,
        },
    )
}

} // verus!
