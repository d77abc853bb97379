use std::collections::BTreeMap;
use std::io::Write;
use std::str::FromStr;

use netmon::addr::IpAddress;
use netmon::addr::ip_from_stored;
use netmon::addr::ip_to_stored_ipv6;
use netmon::addr::ipv6_from_octets;
use netmon::addr::ipv6_octets;
use netmon::lookup::IpDatabase;
use netmon::pipeline::extract_tcp_client_hello;
use netmon::records::DnsReverseRecord;
use netmon::records::LibOpts;
use netmon::records::PacketSample;
use netmon::records::ProducerType;

fn compress(plain: &[u8]) -> Vec<u8> {
    let mut w = brotli::CompressorWriter::new(Vec::new(), 4096, 11, 22);
    w.write_all(plain).expect("compression sink accepts all input");
    w.flush().expect("compression flush succeeds");
    w.into_inner()
}

fn database() -> IpDatabase {
    let mut asns: BTreeMap<u32, (u32, Option<String>, Option<String>)> = BTreeMap::new();
    asns.insert(15169, (15169, Some("GOOGLE".into()), Some("Google LLC".into())));
    let mut v4s: BTreeMap<ipnet::Ipv4Net, u32> = BTreeMap::new();
    v4s.insert(ipnet::Ipv4Net::from_str("8.8.8.0/24").unwrap(), 15169);
    let v6s: BTreeMap<ipnet::Ipv6Net, u32> = BTreeMap::new();
    IpDatabase::from_static(
        &compress(&bincode::serialize(&asns).unwrap()),
        &compress(&bincode::serialize(&v4s).unwrap()),
        &compress(&bincode::serialize(&v6s).unwrap()),
    )
    .expect("dataset builds")
}

fn push_u16(out: &mut Vec<u8>, v: u16) {
    out.push((v >> 8) as u8);
    out.push((v & 0xff) as u8);
}

/// A minimal ClientHello record inside a TCP segment inside an IPv4 packet.
fn ch_packet(src: [u8; 4], dst: [u8; 4]) -> Vec<u8> {
    let mut body: Vec<u8> = Vec::new();
    push_u16(&mut body, 0x0303);
    body.extend_from_slice(&[0xaa; 32]);
    body.push(0);
    push_u16(&mut body, 4);
    push_u16(&mut body, 0x1301);
    push_u16(&mut body, 0x1302);
    body.push(1);
    body.push(0);
    let mut exts: Vec<u8> = Vec::new();
    push_u16(&mut exts, 0x0000);
    push_u16(&mut exts, 16);
    push_u16(&mut exts, 14);
    exts.push(0);
    push_u16(&mut exts, 11);
    exts.extend_from_slice(b"example.com");
    push_u16(&mut body, exts.len() as u16);
    body.extend_from_slice(&exts);

    let mut msg: Vec<u8> = vec![1];
    let bl = body.len() as u32;
    msg.push((bl >> 16) as u8);
    msg.push((bl >> 8) as u8);
    msg.push((bl & 0xff) as u8);
    msg.extend_from_slice(&body);

    let mut rec: Vec<u8> = vec![0x16, 0x03, 0x01];
    push_u16(&mut rec, msg.len() as u16);
    rec.extend_from_slice(&msg);

    let mut seg = vec![0u8; 20];
    seg[0] = 0xc8; // source port 51234
    seg[1] = 0x22;
    seg[2] = 0x01; // destination port 443
    seg[3] = 0xbb;
    seg[12] = 0x50;
    seg[13] = 0x18;
    seg.extend_from_slice(&rec);

    let mut p = vec![0u8; 20];
    p[0] = 0x45;
    p[8] = 64;
    p[9] = 6;
    p[12..16].copy_from_slice(&src);
    p[16..20].copy_from_slice(&dst);
    p.extend_from_slice(&seg);
    p
}

#[test]
fn enriched_sample_carries_lookup_and_defaults() {
    let db = database();
    let packet = ch_packet([192, 0, 2, 7], [8, 8, 8, 8]);
    let ts: u64 = 1_700_000_000_123;
    let rec = extract_tcp_client_hello(&db, ts, &packet).expect("sample enriches");

    // Destination is covered: the operator record is applied.
    assert_eq!(rec.dst_asn, 15169);
    assert_eq!(rec.dst_asn_handle, "GOOGLE");
    assert_eq!(rec.dst_asn_description, "Google LLC");
    // Source is covered by no entry: the defaults, never a stale value.
    assert_eq!(rec.src_asn, 0);
    assert_eq!(rec.src_asn_handle, "");
    assert_eq!(rec.src_asn_description, "");

    assert_eq!(rec.src_port, 51234);
    assert_eq!(rec.dst_port, 443);
    assert_eq!(rec.src_ip, 0xffff_0000_0000u128 + u32::from_be_bytes([192, 0, 2, 7]) as u128);
    assert_eq!(rec.dst_ip, 0xffff_0000_0000u128 + u32::from_be_bytes([8, 8, 8, 8]) as u128);

    assert_eq!(rec.outer_version, 0x0301);
    assert_eq!(rec.inner_version, 0x0303);
    assert_eq!(rec.ciphers, vec![0x1301, 0x1302]);
    assert_eq!(rec.extensions, vec![0x0000]);
    assert_eq!(rec.sni, "example.com");
    assert!(rec.ec_curves.is_empty());
    assert!(rec.ec_curve_point_formats.is_empty());
    assert_eq!(rec.ja3.len(), 32);

    // The identifier is time-ordered: its top bits carry the capture
    // millisecond, the version nibble is seven, the variant is one-zero.
    assert_eq!((rec.uuid >> 80) as u64, ts & 0xffff_ffff_ffff);
    assert_eq!((rec.uuid >> 76) & 0xf, 7);
    assert_eq!((rec.uuid >> 62) & 0x3, 2);
}

#[test]
fn same_millisecond_samples_get_distinct_identifiers() {
    let db = database();
    let packet = ch_packet([192, 0, 2, 7], [8, 8, 8, 8]);
    let a = extract_tcp_client_hello(&db, 42, &packet).expect("sample enriches");
    let b = extract_tcp_client_hello(&db, 42, &packet).expect("sample enriches");
    assert_eq!(a.uuid >> 80, b.uuid >> 80);
    assert_ne!(a.uuid, b.uuid, "embedded randomness breaks same-millisecond ties");
}

#[test]
fn unparseable_sample_yields_nothing() {
    let db = database();
    assert!(extract_tcp_client_hello(&db, 1, &[]).is_none());
    // A bare acknowledgement carries no hello.
    let mut seg = vec![0u8; 20];
    seg[12] = 0x50;
    seg[13] = 0x10;
    let mut p = vec![0u8; 20];
    p[0] = 0x45;
    p[9] = 6;
    p.extend_from_slice(&seg);
    assert!(extract_tcp_client_hello(&db, 1, &p).is_none());
}

#[test]
fn ipv4_addresses_store_ipv6_mapped() {
    let v4 = IpAddress::V4(u32::from_be_bytes([8, 8, 8, 8]));
    assert_eq!(ip_to_stored_ipv6(v4), 0xffff_0808_0808u128);
    let v6 = IpAddress::V6(1);
    assert_eq!(ip_to_stored_ipv6(v6), 1);
    assert_eq!(ip_from_stored(0xffff_0808_0808u128), v4);
    assert_eq!(ip_from_stored(1), IpAddress::V6(1));
}

#[test]
fn octet_rendering_round_trips() {
    let stored = ip_to_stored_ipv6(IpAddress::V4(u32::from_be_bytes([1, 2, 3, 4])));
    let octets = ipv6_octets(stored);
    assert_eq!(
        octets,
        vec![0, 0, 0, 0, 0, 0, 0, 0, 0, 0, 0xff, 0xff, 1, 2, 3, 4]
    );
    assert_eq!(ipv6_from_octets(&octets), Some(stored));
    assert_eq!(ipv6_from_octets(&octets[..15]), None);
}

#[test]
fn dns_record_normalizes_its_address() {
    let rec = DnsReverseRecord::new(
        1_700_000_000,
        IpAddress::V4(u32::from_be_bytes([9, 9, 9, 9])),
        vec!["dns9.quad9.net".to_string()],
        false,
    );
    assert_eq!(rec.ip_addr.len(), 16);
    assert_eq!(&rec.ip_addr[10..12], &[0xff, 0xff]);
    assert_eq!(&rec.ip_addr[12..16], &[9, 9, 9, 9]);
    assert_eq!(rec.timestamp_seconds, 1_700_000_000);
    assert!(!rec.no_record);
    assert_eq!(rec.ptr_records, vec!["dns9.quad9.net".to_string()]);
}

#[test]
fn default_options() {
    let opts = LibOpts::default();
    assert_eq!(opts.producer_type, ProducerType::File);
    assert_eq!(opts.kafka_bootstrap_servers, "localhost:9094");
    assert_eq!(opts.kafka_message_timeout_ms, 5000);
    assert_eq!(ProducerType::default(), ProducerType::File);

    let sample = PacketSample::default();
    assert_eq!(sample.timestamp_ms, 0);
    assert!(sample.ip_packet_raw.is_empty());
}
