//! IP-to-network-operator enrichment: a longest-prefix-match database.
//!
//! The database is built once at startup from three compressed, serialized
//! blobs — operator table, IPv4 prefixes, IPv6 prefixes — and is read-only
//! afterwards. Operator records are allocated once in an arena and shared by
//! index, never duplicated per prefix. Lookup returns the record of the most
//! specific prefix covering an address, independently per address family;
//! a corrupt blob fails construction deterministically, and no partially
//! built database is ever handed out.

use vstd::prelude::*;

use crate::addr::IpAddress;

verus! {

/// Why database construction was aborted.
#[derive(Clone, Copy, PartialEq, Eq, Structural, Debug)]
pub enum DatasetError {
    /// A blob failed decompression or deserialization.
    Corrupt,
    /// A prefix names an operator number the operator table lacks.
    UnknownOperator,
}

/// What brotli decompression yields for a compressed stream, as a pure
/// function of those octets; nothing for an invalid stream.
pub uninterp spec fn brotli_plain(compressed: Seq<u8>) -> Option<Seq<u8>>;

/// Relies on `brotli::BrotliDecompress`: decompression reads the compressed
/// octets alone, and fails exactly on streams that are not valid brotli.
#[verifier::external_body]
fn brotli_decompress(data: &[u8]) -> (r: Option<Vec<u8>>)
    ensures
        r is Some <==> brotli_plain(data@) is Some,
        r matches Some(v) ==> Some(v@) == brotli_plain(data@),
{
    let mut out: Vec<u8> = Vec::new();
    match brotli::BrotliDecompress(&mut &data[..], &mut out) {
        Ok(()) => Some(out),
        Err(_) => None,
    }
}

/// The operator table a decompressed blob deserializes to — per row the map
/// key, the operator number, the handle and the description — as a pure
/// function of the octets; nothing for an invalid serialization.
pub uninterp spec fn decoded_asn_rows(plain: Seq<u8>) -> Option<
    Seq<(u32, u32, Option<Seq<char>>, Option<Seq<char>>)>,
>;

/// Relies on `bincode::deserialize` into an ordered map keyed by operator
/// number: the rows are a function of the octets alone. Keys and records
/// come back as parallel vectors in iteration order.
#[verifier::external_body]
fn decode_asn_rows(plain: &[u8]) -> (r: Option<(Vec<u32>, Vec<AsnMetadata>)>)
    ensures
        r is Some <==> decoded_asn_rows(plain@) is Some,
        r matches Some((keys, recs)) ==> {
            let rows = decoded_asn_rows(plain@).unwrap();
            &&& keys@.len() == rows.len()
            &&& recs@.len() == rows.len()
            &&& forall|i: int|
                0 <= i < rows.len() ==> keys@[i] == (#[trigger] rows[i]).0 && recs@[i].asn
                    == rows[i].1 && opt_str_view(recs@[i].handle) == rows[i].2 && opt_str_view(
                    recs@[i].description,
                ) == rows[i].3
        },
{
    let map: std::collections::BTreeMap<u32, (u32, Option<String>, Option<String>)> = match bincode::deserialize(
        plain,
    ) {
        Ok(m) => m,
        Err(_) => {
            return None;
        },
    };
    Some(
        map.into_iter().map(
            |(k, (asn, handle, description))| (k, AsnMetadata { asn, handle, description }),
        ).unzip(),
    )
}

/// The IPv4 prefix table a decompressed blob deserializes to — per row the
/// network bits, the prefix length and the operator number — as a pure
/// function of the octets; nothing for an invalid serialization.
pub uninterp spec fn decoded_v4_rows(plain: Seq<u8>) -> Option<Seq<(u32, u8, u32)>>;

/// Relies on `bincode::deserialize` into an ordered map keyed by IPv4
/// network prefix: the rows are a function of the octets alone, and every
/// deserialized prefix length is at most 32 (the deserializer rejects
/// longer ones).
#[verifier::external_body]
fn decode_v4_rows(plain: &[u8]) -> (r: Option<Vec<(u32, u8, u32)>>)
    ensures
        r is Some <==> decoded_v4_rows(plain@) is Some,
        r matches Some(v) ==> Some(v@) == decoded_v4_rows(plain@) && forall|i: int|
            0 <= i < v@.len() ==> (#[trigger] v@[i]).1 <= 32,
{
    let map: std::collections::BTreeMap<ipnet::Ipv4Net, u32> = match bincode::deserialize(plain) {
        Ok(m) => m,
        Err(_) => {
            return None;
        },
    };
    Some(
        map.into_iter().map(
            |(net, asn)| (u32::from(net.addr()), net.prefix_len(), asn),
        ).collect(),
    )
}

/// The IPv6 prefix table a decompressed blob deserializes to, as a pure
/// function of the octets; nothing for an invalid serialization.
pub uninterp spec fn decoded_v6_rows(plain: Seq<u8>) -> Option<Seq<(u128, u8, u32)>>;

/// Relies on `bincode::deserialize` into an ordered map keyed by IPv6
/// network prefix: the rows are a function of the octets alone, and every
/// deserialized prefix length is at most 128 (the deserializer rejects
/// longer ones).
#[verifier::external_body]
fn decode_v6_rows(plain: &[u8]) -> (r: Option<Vec<(u128, u8, u32)>>)
    ensures
        r is Some <==> decoded_v6_rows(plain@) is Some,
        r matches Some(v) ==> Some(v@) == decoded_v6_rows(plain@) && forall|i: int|
            0 <= i < v@.len() ==> (#[trigger] v@[i]).1 <= 128,
{
    let map: std::collections::BTreeMap<ipnet::Ipv6Net, u32> = match bincode::deserialize(plain) {
        Ok(m) => m,
        Err(_) => {
            return None;
        },
    };
    Some(
        map.into_iter().map(
            |(net, asn)| (u128::from(net.addr()), net.prefix_len(), asn),
        ).collect(),
    )
}

/// The three decoded dataset tables, or nothing as soon as any blob fails
/// decompression or deserialization.
pub open spec fn spec_decoded_dataset(asn_b: Seq<u8>, v4_b: Seq<u8>, v6_b: Seq<u8>) -> Option<
    (Seq<(u32, u32, Option<Seq<char>>, Option<Seq<char>>)>, Seq<(u32, u8, u32)>, Seq<
        (u128, u8, u32),
    >),
> {
    match (brotli_plain(asn_b), brotli_plain(v4_b), brotli_plain(v6_b)) {
        (Some(ap), Some(p4), Some(p6)) => match (decoded_asn_rows(ap), decoded_v4_rows(p4),
            decoded_v6_rows(p6)) {
            (Some(ra), Some(r4), Some(r6)) => Some((ra, r4, r6)),
            _ => None,
        },
        _ => None,
    }
}

/// The arena index of the first operator row with the given key.
pub open spec fn spec_asn_index(
    rows: Seq<(u32, u32, Option<Seq<char>>, Option<Seq<char>>)>,
    key: u32,
) -> Option<int>
    decreases rows.len(),
{
    if rows.len() == 0 {
        None
    } else if rows[0].0 == key {
        Some(0)
    } else {
        match spec_asn_index(rows.skip(1), key) {
            Some(i) => Some(i + 1),
            None => None,
        }
    }
}

proof fn lemma_asn_index_char(
    rows: Seq<(u32, u32, Option<Seq<char>>, Option<Seq<char>>)>,
    key: u32,
)
    ensures
        match spec_asn_index(rows, key) {
            Some(i) => 0 <= i < rows.len() && rows[i].0 == key && forall|j: int|
                0 <= j < i ==> (#[trigger] rows[j]).0 != key,
            None => forall|j: int| 0 <= j < rows.len() ==> (#[trigger] rows[j]).0 != key,
        },
    decreases rows.len(),
{
    if rows.len() > 0 && rows[0].0 != key {
        lemma_asn_index_char(rows.skip(1), key);
        match spec_asn_index(rows.skip(1), key) {
            Some(i2) => {
                assert(rows.skip(1)[i2] == rows[i2 + 1]);
                assert forall|j: int| 0 <= j < i2 + 1 implies (#[trigger] rows[j]).0 != key by {
                    if j > 0 {
                        assert(rows.skip(1)[j - 1] == rows[j]);
                    }
                }
            },
            None => {
                assert forall|j: int| 0 <= j < rows.len() implies (#[trigger] rows[j]).0 != key by {
                    if j > 0 {
                        assert(rows.skip(1)[j - 1] == rows[j]);
                    }
                }
            },
        }
    }
}

/// One network operator's registry record.
#[derive(Debug, Default, PartialEq)]
pub struct AsnMetadata {
    pub asn: u32,
    pub handle: Option<String>,
    pub description: Option<String>,
}

/// The text of an optional string field.
pub open spec fn opt_str_view(o: Option<String>) -> Option<Seq<char>> {
    match o {
        Some(s) => Some(s@),
        None => None,
    }
}

/// One IPv4 prefix entry: network bits, prefix length, record index.
#[derive(Clone, Copy, PartialEq, Eq, Structural, Debug)]
pub struct PrefixEntry4 {
    pub net: u32,
    pub len: u8,
    pub rec: usize,
}

/// One IPv6 prefix entry: network bits, prefix length, record index.
#[derive(Clone, Copy, PartialEq, Eq, Structural, Debug)]
pub struct PrefixEntry6 {
    pub net: u128,
    pub len: u8,
    pub rec: usize,
}

/// Whether an IPv4 prefix of the given length covers an address: the top
/// `plen` bits agree.
pub open spec fn covers4(net: u32, plen: u8, addr: u32) -> bool {
    plen <= 32 && (plen == 0 || (addr ^ net) >> ((32 - plen) as u32) == 0)
}

/// Whether an IPv6 prefix of the given length covers an address.
pub open spec fn covers6(net: u128, plen: u8, addr: u128) -> bool {
    plen <= 128 && (plen == 0 || (addr ^ net) >> ((128 - plen) as u128) == 0)
}

fn covers4_exec(net: u32, plen: u8, addr: u32) -> (r: bool)
    ensures
        r == covers4(net, plen, addr),
{
    if plen > 32 {
        false
    } else if plen == 0 {
        true
    } else {
        (addr ^ net) >> ((32 - plen) as u32) == 0
    }
}

fn covers6_exec(net: u128, plen: u8, addr: u128) -> (r: bool)
    ensures
        r == covers6(net, plen, addr),
{
    if plen > 128 {
        false
    } else if plen == 0 {
        true
    } else {
        (addr ^ net) >> ((128 - plen) as u128) == 0
    }
}

/// The entry a longest-prefix-match lookup selects among the IPv4 entries:
/// the first entry of maximal prefix length among those covering the
/// address, or nothing when none covers it.
pub open spec fn spec_best4(entries: Seq<PrefixEntry4>, addr: u32) -> Option<int>
    decreases entries.len(),
{
    if entries.len() == 0 {
        None
    } else {
        let prev = spec_best4(entries.drop_last(), addr);
        let last = entries.last();
        if covers4(last.net, last.len, addr) && (match prev {
            Some(i) => entries[i].len < last.len,
            None => true,
        }) {
            Some(entries.len() - 1)
        } else {
            prev
        }
    }
}

/// The entry a longest-prefix-match lookup selects among the IPv6 entries.
pub open spec fn spec_best6(entries: Seq<PrefixEntry6>, addr: u128) -> Option<int>
    decreases entries.len(),
{
    if entries.len() == 0 {
        None
    } else {
        let prev = spec_best6(entries.drop_last(), addr);
        let last = entries.last();
        if covers6(last.net, last.len, addr) && (match prev {
            Some(i) => entries[i].len < last.len,
            None => true,
        }) {
            Some(entries.len() - 1)
        } else {
            prev
        }
    }
}

/// Longest prefix match selects a most specific covering IPv4 prefix: the
/// selected entry covers the address and no covering entry is more
/// specific, so a more specific match is never shadowed by a less specific
/// one; and an address no entry covers selects nothing.
pub proof fn lemma_best4_most_specific(entries: Seq<PrefixEntry4>, addr: u32)
    ensures
        match spec_best4(entries, addr) {
            Some(i) => 0 <= i < entries.len() && covers4(entries[i].net, entries[i].len, addr)
                && forall|j: int|
                0 <= j < entries.len() && covers4(
                    (#[trigger] entries[j]).net,
                    entries[j].len,
                    addr,
                ) ==> entries[j].len <= entries[i].len,
            None => forall|j: int|
                0 <= j < entries.len() ==> !covers4(
                    (#[trigger] entries[j]).net,
                    entries[j].len,
                    addr,
                ),
        },
    decreases entries.len(),
{
    if entries.len() > 0 {
        lemma_best4_most_specific(entries.drop_last(), addr);
        assert forall|j: int| 0 <= j < entries.len() - 1 implies entries.drop_last()[j]
            == entries[j] by {}
    }
}

/// Longest prefix match selects a most specific covering IPv6 prefix, and
/// selects nothing for an address no entry covers.
pub proof fn lemma_best6_most_specific(entries: Seq<PrefixEntry6>, addr: u128)
    ensures
        match spec_best6(entries, addr) {
            Some(i) => 0 <= i < entries.len() && covers6(entries[i].net, entries[i].len, addr)
                && forall|j: int|
                0 <= j < entries.len() && covers6(
                    (#[trigger] entries[j]).net,
                    entries[j].len,
                    addr,
                ) ==> entries[j].len <= entries[i].len,
            None => forall|j: int|
                0 <= j < entries.len() ==> !covers6(
                    (#[trigger] entries[j]).net,
                    entries[j].len,
                    addr,
                ),
        },
    decreases entries.len(),
{
    if entries.len() > 0 {
        lemma_best6_most_specific(entries.drop_last(), addr);
        assert forall|j: int| 0 <= j < entries.len() - 1 implies entries.drop_last()[j]
            == entries[j] by {}
    }
}

/// Finds the position of the first occurrence of a key.
fn find_key(keys: &Vec<u32>, key: u32) -> (r: Option<usize>)
    ensures
        match r {
            Some(ix) => ix < keys@.len() && keys@[ix as int] == key && forall|j: int|
                0 <= j < ix ==> keys@[j] != key,
            None => forall|j: int| 0 <= j < keys@.len() ==> keys@[j] != key,
        },
{
    let n = keys.len();
    let mut i: usize = 0;
    while i < n
        invariant
            i <= n,
            n == keys@.len(),
            forall|j: int| 0 <= j < i ==> keys@[j] != key,
        decreases n - i,
    {
        if keys[i] == key {
            return Some(i);
        }
        i += 1;
    }
    None
}

/// Ports `find_key`'s answer to the operator-row index: when the key
/// vector mirrors the row keys, the first occurrence is the same.
proof fn lemma_index_agree(
    rows: Seq<(u32, u32, Option<Seq<char>>, Option<Seq<char>>)>,
    keys: Seq<u32>,
    key: u32,
    r: Option<usize>,
)
    requires
        keys.len() == rows.len(),
        forall|i: int| 0 <= i < rows.len() ==> keys[i] == (#[trigger] rows[i]).0,
        match r {
            Some(ix) => ix < keys.len() && keys[ix as int] == key && forall|j: int|
                0 <= j < ix ==> keys[j] != key,
            None => forall|j: int| 0 <= j < keys.len() ==> keys[j] != key,
        },
    ensures
        match r {
            Some(ix) => spec_asn_index(rows, key) == Some(ix as int),
            None => spec_asn_index(rows, key) is None,
        },
{
    lemma_asn_index_char(rows, key);
    match r {
        Some(ix) => {
            assert(rows[ix as int].0 == key);
            match spec_asn_index(rows, key) {
                Some(i) => {
                    if i < ix {
                        assert(keys[i] == rows[i].0);
                        assert(keys[i] != key);
                        assert(false);
                    }
                    if ix < i {
                        assert(rows[ix as int].0 != key);
                        assert(false);
                    }
                },
                None => {
                    assert(rows[ix as int].0 != key);
                    assert(false);
                },
            }
        },
        None => {
            match spec_asn_index(rows, key) {
                Some(i) => {
                    assert(keys[i] == rows[i].0);
                    assert(keys[i] != key);
                    assert(false);
                },
                None => {},
            }
        },
    }
}

/// Every prefix row names an operator number the operator table has.
pub open spec fn spec_all_keys4(
    r4: Seq<(u32, u8, u32)>,
    rows: Seq<(u32, u32, Option<Seq<char>>, Option<Seq<char>>)>,
) -> bool {
    forall|i: int| 0 <= i < r4.len() ==> spec_asn_index(rows, (#[trigger] r4[i]).2) is Some
}

/// Every IPv6 prefix row names an operator number the operator table has.
pub open spec fn spec_all_keys6(
    r6: Seq<(u128, u8, u32)>,
    rows: Seq<(u32, u32, Option<Seq<char>>, Option<Seq<char>>)>,
) -> bool {
    forall|i: int| 0 <= i < r6.len() ==> spec_asn_index(rows, (#[trigger] r6[i]).2) is Some
}

/// The record a longest-prefix-match lookup yields for an address, per
/// family: the arena record of the selected entry, or nothing.
pub open spec fn spec_lookup(db: IpDatabase, addr: IpAddress) -> Option<AsnMetadata> {
    match addr {
        IpAddress::V4(a) => match spec_best4(db.v4@, a) {
            Some(i) => Some(db.records@[db.v4@[i].rec as int]),
            None => None,
        },
        IpAddress::V6(a) => match spec_best6(db.v6@, a) {
            Some(i) => Some(db.records@[db.v6@[i].rec as int]),
            None => None,
        },
    }
}

/// The two longest-prefix-match structures, one per address family, over a
/// shared arena of operator records.
#[derive(Debug, PartialEq)]
pub struct IpDatabase {
    pub records: Vec<AsnMetadata>,
    pub v4: Vec<PrefixEntry4>,
    pub v6: Vec<PrefixEntry6>,
}

impl IpDatabase {
    /// Every prefix entry points into the record arena and carries a legal
    /// prefix length for its family.
    pub open spec fn wf(self) -> bool {
        &&& forall|i: int|
            0 <= i < self.v4@.len() ==> (#[trigger] self.v4@[i]).rec < self.records@.len()
                && self.v4@[i].len <= 32
        &&& forall|i: int|
            0 <= i < self.v6@.len() ==> (#[trigger] self.v6@[i]).rec < self.records@.len()
                && self.v6@[i].len <= 128
    }

    /// Builds the database from the three static dataset blobs: the
    /// operator table, the IPv4 prefixes and the IPv6 prefixes, each
    /// brotli-compressed. A blob that fails decompression or
    /// deserialization, and a prefix naming an operator the table lacks,
    /// aborts construction deterministically: no partially built database
    /// is ever returned.
    pub fn from_static(asn_blob: &[u8], ipv4_blob: &[u8], ipv6_blob: &[u8]) -> (r: Result<
        IpDatabase,
        DatasetError,
    >)
        ensures
            r is Ok <==> (spec_decoded_dataset(asn_blob@, ipv4_blob@, ipv6_blob@) matches Some(
                (ra, r4, r6),
            ) && spec_all_keys4(r4, ra) && spec_all_keys6(r6, ra)),
            r == Err::<IpDatabase, DatasetError>(DatasetError::Corrupt) <==> spec_decoded_dataset(
                asn_blob@,
                ipv4_blob@,
                ipv6_blob@,
            ) is None,
            r matches Ok(db) ==> {
                let (ra, r4, r6) = spec_decoded_dataset(asn_blob@, ipv4_blob@, ipv6_blob@).unwrap();
                &&& db.wf()
                &&& db.records@.len() == ra.len()
                &&& forall|i: int|
                    0 <= i < ra.len() ==> (#[trigger] db.records@[i]).asn == ra[i].1
                        && opt_str_view(db.records@[i].handle) == ra[i].2 && opt_str_view(
                        db.records@[i].description,
                    ) == ra[i].3
                &&& db.v4@.len() == r4.len()
                &&& forall|i: int|
                    0 <= i < r4.len() ==> (#[trigger] db.v4@[i]).net == r4[i].0 && db.v4@[i].len
                        == r4[i].1 && Some(db.v4@[i].rec as int) == spec_asn_index(ra, r4[i].2)
                &&& db.v6@.len() == r6.len()
                &&& forall|i: int|
                    0 <= i < r6.len() ==> (#[trigger] db.v6@[i]).net == r6[i].0 && db.v6@[i].len
                        == r6[i].1 && Some(db.v6@[i].rec as int) == spec_asn_index(ra, r6[i].2)
            },
    {
        let asn_plain = match brotli_decompress(asn_blob) {
            Some(v) => v,
            None => {
                return Err(DatasetError::Corrupt);
            },
        };
        let v4_plain = match brotli_decompress(ipv4_blob) {
            Some(v) => v,
            None => {
                return Err(DatasetError::Corrupt);
            },
        };
        let v6_plain = match brotli_decompress(ipv6_blob) {
            Some(v) => v,
            None => {
                return Err(DatasetError::Corrupt);
            },
        };
        let (keys, records) = match decode_asn_rows(asn_plain.as_slice()) {
            Some(kr) => kr,
            None => {
                return Err(DatasetError::Corrupt);
            },
        };
        let r4v = match decode_v4_rows(v4_plain.as_slice()) {
            Some(v) => v,
            None => {
                return Err(DatasetError::Corrupt);
            },
        };
        let r6v = match decode_v6_rows(v6_plain.as_slice()) {
            Some(v) => v,
            None => {
                return Err(DatasetError::Corrupt);
            },
        };
        let ghost ra = decoded_asn_rows(asn_plain@).unwrap();
        let ghost gr4 = decoded_v4_rows(v4_plain@).unwrap();
        let ghost gr6 = decoded_v6_rows(v6_plain@).unwrap();

        let mut v4ents: Vec<PrefixEntry4> = Vec::new();
        let n4 = r4v.len();
        let mut i: usize = 0;
        while i < n4
            invariant
                i <= n4,
                n4 == gr4.len(),
                r4v@ == gr4,
                spec_decoded_dataset(asn_blob@, ipv4_blob@, ipv6_blob@) == Some((ra, gr4, gr6)),
                keys@.len() == ra.len(),
                records@.len() == ra.len(),
                forall|j: int| 0 <= j < ra.len() ==> keys@[j] == (#[trigger] ra[j]).0,
                forall|j: int| 0 <= j < gr4.len() ==> (#[trigger] gr4[j]).1 <= 32,
                v4ents@.len() == i,
                forall|j: int|
                    0 <= j < i ==> (#[trigger] v4ents@[j]).net == gr4[j].0 && v4ents@[j].len
                        == gr4[j].1 && Some(v4ents@[j].rec as int) == spec_asn_index(ra, gr4[j].2)
                        && v4ents@[j].rec < records@.len(),
                forall|j: int| 0 <= j < i ==> spec_asn_index(ra, (#[trigger] gr4[j]).2) is Some,
            decreases n4 - i,
        {
            let e = r4v[i];
            let ix = match find_key(&keys, e.2) {
                Some(ix) => ix,
                None => {
                    proof {
                        lemma_index_agree(ra, keys@, e.2, None);
                        assert(spec_decoded_dataset(asn_blob@, ipv4_blob@, ipv6_blob@) == Some(
                            (ra, gr4, gr6),
                        ));
                        assert(gr4[i as int].2 == e.2);
                        assert(!spec_all_keys4(gr4, ra));
                    }
                    return Err(DatasetError::UnknownOperator);
                },
            };
            proof {
                lemma_index_agree(ra, keys@, e.2, Some(ix));
            }
            v4ents.push(PrefixEntry4 { net: e.0, len: e.1, rec: ix });
            i += 1;
        }

        let mut v6ents: Vec<PrefixEntry6> = Vec::new();
        let n6 = r6v.len();
        let mut k: usize = 0;
        while k < n6
            invariant
                k <= n6,
                n6 == gr6.len(),
                r6v@ == gr6,
                spec_decoded_dataset(asn_blob@, ipv4_blob@, ipv6_blob@) == Some((ra, gr4, gr6)),
                keys@.len() == ra.len(),
                records@.len() == ra.len(),
                forall|j: int| 0 <= j < ra.len() ==> keys@[j] == (#[trigger] ra[j]).0,
                forall|j: int| 0 <= j < gr6.len() ==> (#[trigger] gr6[j]).1 <= 128,
                v6ents@.len() == k,
                forall|j: int|
                    0 <= j < k ==> (#[trigger] v6ents@[j]).net == gr6[j].0 && v6ents@[j].len
                        == gr6[j].1 && Some(v6ents@[j].rec as int) == spec_asn_index(ra, gr6[j].2)
                        && v6ents@[j].rec < records@.len(),
                forall|j: int| 0 <= j < k ==> spec_asn_index(ra, (#[trigger] gr6[j]).2) is Some,
            decreases n6 - k,
        {
            let e = r6v[k];
            let ix = match find_key(&keys, e.2) {
                Some(ix) => ix,
                None => {
                    proof {
                        lemma_index_agree(ra, keys@, e.2, None);
                        assert(spec_decoded_dataset(asn_blob@, ipv4_blob@, ipv6_blob@) == Some(
                            (ra, gr4, gr6),
                        ));
                        assert(gr6[k as int].2 == e.2);
                        assert(!spec_all_keys6(gr6, ra));
                    }
                    return Err(DatasetError::UnknownOperator);
                },
            };
            proof {
                lemma_index_agree(ra, keys@, e.2, Some(ix));
            }
            v6ents.push(PrefixEntry6 { net: e.0, len: e.1, rec: ix });
            k += 1;
        }

        Ok(IpDatabase { records, v4: v4ents, v6: v6ents })
    }

    /// Resolves an address to the record of the most specific covering
    /// prefix of its own family, or nothing when no prefix covers it.
    /// Lookup is pure and read-only: the result depends on the database
    /// and the address alone, never on earlier lookups.
    pub fn lookup(&self, addr: IpAddress) -> (r: Option<&AsnMetadata>)
        requires
            self.wf(),
        ensures
            match spec_lookup(*self, addr) {
                Some(m) => r matches Some(x) && *x == m,
                None => r is None,
            },
    {
        match addr {
            IpAddress::V4(a) => {
                let n = self.v4.len();
                let mut best: Option<usize> = None;
                let mut i: usize = 0;
                while i < n
                    invariant
                        i <= n,
                        n == self.v4@.len(),
                        self.wf(),
                        match best {
                            Some(b) => b < i && spec_best4(self.v4@.take(i as int), a) == Some(
                                b as int,
                            ),
                            None => spec_best4(self.v4@.take(i as int), a) is None,
                        },
                    decreases n - i,
                {
                    let e = self.v4[i];
                    proof {
                        assert(self.v4@.take(i + 1).drop_last() =~= self.v4@.take(i as int));
                        assert(self.v4@.take(i + 1).last() == self.v4@[i as int]);
                        assert forall|j: int| 0 <= j < i implies self.v4@.take(i + 1)[j]
                            == self.v4@.take(i as int)[j] by {}
                    }
                    let replace = covers4_exec(e.net, e.len, a) && (match best {
                        Some(b) => self.v4[b].len < e.len,
                        None => true,
                    });
                    if replace {
                        best = Some(i);
                    }
                    i += 1;
                }
                proof {
                    assert(self.v4@.take(n as int) =~= self.v4@);
                }
                match best {
                    Some(b) => Some(&self.records[self.v4[b].rec]),
                    None => None,
                }
            },
            IpAddress::V6(a) => {
                let n = self.v6.len();
                let mut best: Option<usize> = None;
                let mut i: usize = 0;
                while i < n
                    invariant
                        i <= n,
                        n == self.v6@.len(),
                        self.wf(),
                        match best {
                            Some(b) => b < i && spec_best6(self.v6@.take(i as int), a) == Some(
                                b as int,
                            ),
                            None => spec_best6(self.v6@.take(i as int), a) is None,
                        },
                    decreases n - i,
                {
                    let e = self.v6[i];
                    proof {
                        assert(self.v6@.take(i + 1).drop_last() =~= self.v6@.take(i as int));
                        assert(self.v6@.take(i + 1).last() == self.v6@[i as int]);
                        assert forall|j: int| 0 <= j < i implies self.v6@.take(i + 1)[j]
                            == self.v6@.take(i as int)[j] by {}
                    }
                    let replace = covers6_exec(e.net, e.len, a) && (match best {
                        Some(b) => self.v6[b].len < e.len,
                        None => true,
                    });
                    if replace {
                        best = Some(i);
                    }
                    i += 1;
                }
                proof {
                    assert(self.v6@.take(n as int) =~= self.v6@);
                }
                match best {
                    Some(b) => Some(&self.records[self.v6[b].rec]),
                    None => None,
                }
            },
        }
    }
}

} // verus!
