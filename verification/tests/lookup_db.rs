use std::collections::BTreeMap;
use std::io::Write;
use std::str::FromStr;

use netmon::addr::IpAddress;
use netmon::lookup::AsnMetadata;
use netmon::lookup::DatasetError;
use netmon::lookup::IpDatabase;

fn compress(plain: &[u8]) -> Vec<u8> {
    let mut w = brotli::CompressorWriter::new(Vec::new(), 4096, 11, 22);
    w.write_all(plain).expect("compression sink accepts all input");
    w.flush().expect("compression flush succeeds");
    w.into_inner()
}

fn asn_blob(rows: &[(u32, Option<&str>, Option<&str>)]) -> Vec<u8> {
    let mut map: BTreeMap<u32, AsnRow> = BTreeMap::new();
    for (asn, handle, description) in rows {
        map.insert(
            *asn,
            (*asn, handle.map(|s| s.to_string()), description.map(|s| s.to_string())),
        );
    }
    compress(&bincode::serialize(&map).expect("operator table serializes"))
}

type AsnRow = (u32, Option<String>, Option<String>);

fn v4_blob(rows: &[(&str, u32)]) -> Vec<u8> {
    let mut map: BTreeMap<ipnet::Ipv4Net, u32> = BTreeMap::new();
    for (net, asn) in rows {
        map.insert(ipnet::Ipv4Net::from_str(net).expect("IPv4 prefix parses"), *asn);
    }
    compress(&bincode::serialize(&map).expect("IPv4 table serializes"))
}

fn v6_blob(rows: &[(&str, u32)]) -> Vec<u8> {
    let mut map: BTreeMap<ipnet::Ipv6Net, u32> = BTreeMap::new();
    for (net, asn) in rows {
        map.insert(ipnet::Ipv6Net::from_str(net).expect("IPv6 prefix parses"), *asn);
    }
    compress(&bincode::serialize(&map).expect("IPv6 table serializes"))
}

fn v4(a: u8, b: u8, c: u8, d: u8) -> IpAddress {
    IpAddress::V4(u32::from_be_bytes([a, b, c, d]))
}

fn v6(segments: [u16; 8]) -> IpAddress {
    let mut v: u128 = 0;
    for s in segments {
        v = (v << 16) | s as u128;
    }
    IpAddress::V6(v)
}

fn reference_database() -> IpDatabase {
    let asns = asn_blob(&[
        (13335, Some("CLOUDFLARENET"), Some("Cloudflare, Inc.")),
        (15169, Some("GOOGLE"), Some("Google LLC")),
        (19281, Some("QUAD9-1"), Some("Quad9")),
    ]);
    let v4s = v4_blob(&[
        ("8.8.8.0/24", 15169),
        ("9.9.9.0/24", 19281),
        ("1.1.1.0/24", 13335),
    ]);
    let v6s = v6_blob(&[
        ("2001:4860:4860::/48", 15169),
        ("2620:fe::/29", 19281),
        ("2606:4700:4700::/48", 13335),
    ]);
    IpDatabase::from_static(&asns, &v4s, &v6s).expect("reference dataset builds")
}

#[test]
fn reference_addresses_exist() {
    let database = reference_database();

    assert_eq!(
        database.lookup(v4(8, 8, 8, 8)).expect("Google DNS exists"),
        &AsnMetadata {
            asn: 15169,
            handle: Some("GOOGLE".to_owned()),
            description: Some("Google LLC".to_owned()),
        }
    );

    assert_eq!(
        database.lookup(v4(9, 9, 9, 9)).expect("Quad 9 DNS exists"),
        &AsnMetadata {
            asn: 19281,
            handle: Some("QUAD9-1".to_owned()),
            description: Some("Quad9".to_owned()),
        }
    );

    assert_eq!(
        database.lookup(v4(1, 1, 1, 1)).expect("Cloudflare DNS exists"),
        &AsnMetadata {
            asn: 13335,
            handle: Some("CLOUDFLARENET".to_owned()),
            description: Some("Cloudflare, Inc.".to_owned()),
        }
    );

    assert_eq!(
        database.lookup(v6([0x2001, 0x4860, 0x4860, 0, 0, 0, 0, 0x8888])).expect("Google DNS exists"),
        &AsnMetadata {
            asn: 15169,
            handle: Some("GOOGLE".to_owned()),
            description: Some("Google LLC".to_owned()),
        }
    );

    assert_eq!(
        database.lookup(v6([0x2620, 0xfe, 0, 0, 0, 0, 0, 9])).expect("Quad 9 DNS exists"),
        &AsnMetadata {
            asn: 19281,
            handle: Some("QUAD9-1".to_owned()),
            description: Some("Quad9".to_owned()),
        }
    );

    assert_eq!(
        database.lookup(v6([0x2606, 0x4700, 0x4700, 0, 0, 0, 0, 0x1111])).expect("Cloudflare DNS exists"),
        &AsnMetadata {
            asn: 13335,
            handle: Some("CLOUDFLARENET".to_owned()),
            description: Some("Cloudflare, Inc.".to_owned()),
        }
    );
}

#[test]
fn most_specific_prefix_wins() {
    let asns = asn_blob(&[(64500, Some("WIDE"), None), (64501, Some("NARROW"), None)]);
    let v4s = v4_blob(&[("10.0.0.0/8", 64500), ("10.1.0.0/16", 64501)]);
    let v6s = v6_blob(&[("fd00::/8", 64500), ("fd00:1::/32", 64501)]);
    let db = IpDatabase::from_static(&asns, &v4s, &v6s).expect("dataset builds");

    // The /16 is never shadowed by the /8, whatever the table order.
    assert_eq!(db.lookup(v4(10, 1, 2, 3)).unwrap().asn, 64501);
    assert_eq!(db.lookup(v4(10, 2, 3, 4)).unwrap().asn, 64500);
    assert_eq!(db.lookup(v6([0xfd00, 1, 0, 0, 0, 0, 0, 0x42])).unwrap().asn, 64501);
    assert_eq!(db.lookup(v6([0xfd00, 2, 0, 0, 0, 0, 0, 0x42])).unwrap().asn, 64500);
}

#[test]
fn uncovered_address_has_no_match() {
    let db = reference_database();
    // A hit first, then a miss: the miss yields nothing, never the value
    // left over from the earlier lookup.
    assert!(db.lookup(v4(8, 8, 8, 8)).is_some());
    assert!(db.lookup(v4(192, 168, 1, 1)).is_none());
    assert!(db.lookup(v6([0xfe80, 0, 0, 0, 0, 0, 0, 1])).is_none());
}

#[test]
fn families_never_share_a_decision() {
    // The IPv6 table covers the whole IPv4-mapped range, yet an IPv4
    // lookup consults the IPv4 table alone.
    let asns = asn_blob(&[(64510, Some("SIX"), None)]);
    let v4s = v4_blob(&[]);
    let v6s = v6_blob(&[("::ffff:0:0/96", 64510)]);
    let db = IpDatabase::from_static(&asns, &v4s, &v6s).expect("dataset builds");

    assert!(db.lookup(v4(7, 7, 7, 7)).is_none());
    assert_eq!(db.lookup(v6([0, 0, 0, 0, 0, 0xffff, 0x0707, 0x0707])).unwrap().asn, 64510);
}

#[test]
fn truncated_blob_fails_initialization() {
    let asns = asn_blob(&[(64500, None, None)]);
    let v4s = v4_blob(&[("10.0.0.0/8", 64500)]);
    let v6s = v6_blob(&[]);

    let mut truncated = asns.clone();
    truncated.truncate(truncated.len() / 2);
    assert_eq!(
        IpDatabase::from_static(&truncated, &v4s, &v6s),
        Err(DatasetError::Corrupt)
    );

    // Deterministically: the same corrupt input fails the same way again.
    assert_eq!(
        IpDatabase::from_static(&truncated, &v4s, &v6s),
        Err(DatasetError::Corrupt)
    );
}

#[test]
fn corrupted_blob_fails_initialization() {
    let asns = asn_blob(&[(64500, None, None)]);
    let v4s = v4_blob(&[("10.0.0.0/8", 64500)]);
    let v6s = v6_blob(&[]);

    let garbage = vec![0x5a; 64];
    assert_eq!(
        IpDatabase::from_static(&asns, &garbage, &v6s),
        Err(DatasetError::Corrupt)
    );
    assert_eq!(
        IpDatabase::from_static(&asns, &v4s, &garbage),
        Err(DatasetError::Corrupt)
    );
}

#[test]
fn unknown_operator_fails_initialization() {
    let asns = asn_blob(&[(64500, None, None)]);
    let v4s = v4_blob(&[("10.0.0.0/8", 64500), ("11.0.0.0/8", 64999)]);
    let v6s = v6_blob(&[]);
    assert_eq!(
        IpDatabase::from_static(&asns, &v4s, &v6s),
        Err(DatasetError::UnknownOperator)
    );
}

#[test]
fn empty_tables_build_and_match_nothing() {
    let db = IpDatabase::from_static(&asn_blob(&[]), &v4_blob(&[]), &v6_blob(&[]))
        .expect("empty dataset builds");
    assert!(db.lookup(v4(8, 8, 8, 8)).is_none());
    assert!(db.lookup(v6([0, 0, 0, 0, 0, 0, 0, 1])).is_none());
}
