use netmon::addr::IpAddress;
use netmon::classify::ExtractionType;
use netmon::classify::handle_ethernet_frame;
use netmon::classify::handle_ip_payload;
use netmon::frame::TcpMetadata;
use netmon::tls::extract_client_hello;

fn push_u16(out: &mut Vec<u8>, v: u16) {
    out.push((v >> 8) as u8);
    out.push((v & 0xff) as u8);
}

/// One TLS record holding one ClientHello with the given fields.
fn ch_record(sni: &[u8], ciphers: &[u16], curves: &[u16], formats: &[u8]) -> Vec<u8> {
    let mut body: Vec<u8> = Vec::new();
    push_u16(&mut body, 0x0303); // offered version 771
    body.extend_from_slice(&[0xaa; 32]); // client random
    body.push(0); // empty session id
    push_u16(&mut body, (ciphers.len() * 2) as u16);
    for c in ciphers {
        push_u16(&mut body, *c);
    }
    body.push(1); // one compression method: null
    body.push(0);

    let mut exts: Vec<u8> = Vec::new();
    // server name
    let name_len = sni.len() as u16;
    push_u16(&mut exts, 0x0000);
    push_u16(&mut exts, name_len + 5);
    push_u16(&mut exts, name_len + 3);
    exts.push(0); // host-name entry
    push_u16(&mut exts, name_len);
    exts.extend_from_slice(sni);
    // supported groups
    push_u16(&mut exts, 0x000a);
    push_u16(&mut exts, (curves.len() * 2 + 2) as u16);
    push_u16(&mut exts, (curves.len() * 2) as u16);
    for c in curves {
        push_u16(&mut exts, *c);
    }
    // point formats
    push_u16(&mut exts, 0x000b);
    push_u16(&mut exts, (formats.len() + 1) as u16);
    exts.push(formats.len() as u8);
    exts.extend_from_slice(formats);
    // an unknown extension with empty data
    push_u16(&mut exts, 0x0017);
    push_u16(&mut exts, 0);

    push_u16(&mut body, exts.len() as u16);
    body.extend_from_slice(&exts);

    let mut msg: Vec<u8> = vec![1]; // ClientHello
    let bl = body.len() as u32;
    msg.push((bl >> 16) as u8);
    msg.push((bl >> 8) as u8);
    msg.push((bl & 0xff) as u8);
    msg.extend_from_slice(&body);

    let mut rec: Vec<u8> = vec![0x16, 0x03, 0x01]; // handshake, outer version 769
    push_u16(&mut rec, msg.len() as u16);
    rec.extend_from_slice(&msg);
    rec
}

fn tcp_wrap(payload: &[u8], sport: u16, dport: u16, flags: u8) -> Vec<u8> {
    let mut seg = vec![0u8; 20];
    seg[0] = (sport >> 8) as u8;
    seg[1] = (sport & 0xff) as u8;
    seg[2] = (dport >> 8) as u8;
    seg[3] = (dport & 0xff) as u8;
    seg[12] = 0x50; // data offset: five words
    seg[13] = flags;
    seg.extend_from_slice(payload);
    seg
}

fn ipv4_wrap(seg: &[u8], src: [u8; 4], dst: [u8; 4]) -> Vec<u8> {
    let mut p = vec![0u8; 20];
    p[0] = 0x45;
    p[8] = 64; // ttl
    p[9] = 6; // TCP
    p[12..16].copy_from_slice(&src);
    p[16..20].copy_from_slice(&dst);
    p.extend_from_slice(seg);
    p
}

fn ipv6_wrap(seg: &[u8], src: [u8; 16], dst: [u8; 16]) -> Vec<u8> {
    let mut p = vec![0u8; 40];
    p[0] = 0x60;
    p[6] = 6; // next header: TCP
    p[7] = 64;
    p[8..24].copy_from_slice(&src);
    p[24..40].copy_from_slice(&dst);
    p.extend_from_slice(seg);
    p
}

fn eth_wrap(ip: &[u8], ethertype: u16) -> Vec<u8> {
    let mut f = vec![0u8; 12];
    push_u16(&mut f, ethertype);
    f.extend_from_slice(ip);
    f
}

#[test]
fn round_trip_client_hello_lists() {
    // Duplicates and a GREASE value stay in the stored lists, in offered
    // order.
    let ciphers = [0x1301u16, 0x0a0a, 0x1302, 0x1301];
    let curves = [0x001du16, 0x0017, 0x1a1a];
    let formats = [0u8, 1];
    let record = ch_record(b"example.com", &ciphers, &curves, &formats);
    let seg = tcp_wrap(&record, 51234, 443, 0x18);
    let ip = ipv4_wrap(&seg, [192, 0, 2, 7], [8, 8, 8, 8]);
    let frame = eth_wrap(&ip, 0x0800);

    let (kind, packet) = handle_ethernet_frame(&frame).expect("frame is kept");
    assert_eq!(kind, ExtractionType::TlsClientHello);
    assert_eq!(packet, ip);

    let (meta, view) = TcpMetadata::parse_ip_packet(&packet).expect("packet decodes");
    assert_eq!(meta.src_ip, IpAddress::V4(u32::from_be_bytes([192, 0, 2, 7])));
    assert_eq!(meta.dst_ip, IpAddress::V4(u32::from_be_bytes([8, 8, 8, 8])));
    assert_eq!(meta.src_port, 51234);
    assert_eq!(meta.dst_port, 443);

    let payload = view.bytes(&packet);
    assert_eq!(payload, &record[..]);
    let hello = extract_client_hello(payload).expect("hello parses");
    assert_eq!(hello.outer_version, 0x0301);
    assert_eq!(hello.inner_version, 0x0303);
    assert_eq!(hello.ciphers, ciphers.to_vec());
    assert_eq!(hello.extensions, vec![0x0000, 0x000a, 0x000b, 0x0017]);
    assert_eq!(hello.sni, "example.com");
    assert_eq!(hello.ec_curves, curves.to_vec());
    assert_eq!(hello.ec_curve_point_formats, formats.to_vec());
}

#[test]
fn bare_ack_is_kept() {
    let seg = tcp_wrap(&[], 1000, 2000, 0x10);
    assert_eq!(handle_ip_payload(6, &seg), Some(ExtractionType::TcpAck));
}

#[test]
fn ack_with_payload_is_not_a_bare_ack() {
    let seg = tcp_wrap(b"x", 1000, 2000, 0x10);
    assert_eq!(handle_ip_payload(6, &seg), None);
}

#[test]
fn setup_and_teardown_flags_are_ignored() {
    for flags in [0x02u8, 0x12, 0x01, 0x04] {
        let empty = tcp_wrap(&[], 1000, 2000, flags);
        assert_eq!(handle_ip_payload(6, &empty), None, "flags {flags:#x}");
        let with_payload = tcp_wrap(b"\x16\x03\x01", 1000, 2000, flags);
        assert_eq!(handle_ip_payload(6, &with_payload), None, "flags {flags:#x}");
    }
}

#[test]
fn non_tls_payload_is_ignored() {
    let seg = tcp_wrap(b"GET / HTTP/1.1\r\n", 1000, 80, 0x18);
    assert_eq!(handle_ip_payload(6, &seg), None);
}

#[test]
fn truncated_tls_record_is_ignored() {
    let record = ch_record(b"example.com", &[0x1301], &[0x001d], &[0]);
    let cut = &record[..record.len() - 1];
    let seg = tcp_wrap(cut, 1000, 443, 0x18);
    assert_eq!(handle_ip_payload(6, &seg), None);
}

#[test]
fn non_tcp_protocol_is_ignored() {
    let seg = tcp_wrap(&[], 1000, 2000, 0x10);
    assert_eq!(handle_ip_payload(17, &seg), None);
}

#[test]
fn client_hello_in_ipv6_packet() {
    let record = ch_record(b"example.org", &[0x1301], &[0x001d], &[0]);
    let seg = tcp_wrap(&record, 443, 443, 0x18);
    let src = ((0x2001u128 << 112) | (0xdb8u128 << 96) | 1).to_be_bytes();
    let dst = ((0x2001u128 << 112) | (0xdb8u128 << 96) | 2).to_be_bytes();
    let ip = ipv6_wrap(&seg, src, dst);
    let frame = eth_wrap(&ip, 0x86dd);

    let (kind, packet) = handle_ethernet_frame(&frame).expect("frame is kept");
    assert_eq!(kind, ExtractionType::TlsClientHello);
    let (meta, _view) = TcpMetadata::parse_ip_packet(&packet).expect("packet decodes");
    assert_eq!(meta.src_ip, IpAddress::V6(u128::from_be_bytes(src)));
    assert_eq!(meta.dst_ip, IpAddress::V6(u128::from_be_bytes(dst)));
}

#[test]
fn unknown_ethertype_is_ignored() {
    let seg = tcp_wrap(&[], 1000, 2000, 0x10);
    let ip = ipv4_wrap(&seg, [1, 2, 3, 4], [5, 6, 7, 8]);
    let frame = eth_wrap(&ip, 0x0806); // ARP
    assert!(handle_ethernet_frame(&frame).is_none());
}

#[test]
fn truncated_headers_are_filtered() {
    assert!(handle_ethernet_frame(&[0u8; 13]).is_none());
    assert!(TcpMetadata::parse_ip_packet(&[]).is_none());
    assert!(TcpMetadata::parse_ip_packet(&[0x45u8; 19]).is_none());
    assert!(TcpMetadata::parse_ip_packet(&[0x60u8; 39]).is_none());
    // An IPv4 packet whose TCP segment is cut short.
    let seg = tcp_wrap(&[], 1000, 2000, 0x10);
    let ip = ipv4_wrap(&seg[..19], [1, 2, 3, 4], [5, 6, 7, 8]);
    assert!(TcpMetadata::parse_ip_packet(&ip).is_none());
}
