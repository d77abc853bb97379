//! Deterministic client-fingerprint computation.
//!
//! The fingerprint condenses the negotiable fields a ClientHello offers into
//! one short identifier: a five-field, comma-separated string — handshake
//! version in decimal, then the hyphen-joined cipher-suite, extension-type,
//! elliptic-curve and point-format lists in client-offered order, with an
//! empty field for an absent list — hashed with a 128-bit non-cryptographic
//! digest and rendered as lowercase hexadecimal. Reserved GREASE values are
//! excluded from the cipher, extension and curve fields; the server name
//! never enters the string, so two hellos differing only there fingerprint
//! identically.

use vstd::prelude::*;

use crate::tls::TlsClientHelloMetadata;

verus! {

/// Whether every octet is seven-bit ASCII.
pub open spec fn all_ascii(n: Seq<u8>) -> bool {
    forall|i: int| 0 <= i < n.len() ==> n[i] < 128
}

/// The characters of an ASCII octet sequence, one per octet.
pub open spec fn ascii_chars(n: Seq<u8>) -> Seq<char> {
    Seq::new(n.len(), |i: int| n[i] as char)
}

/// Relies on `String::from_utf8`: ASCII octets are valid UTF-8 and decode to
/// the characters with the same code points, one per octet.
#[verifier::external_body]
pub(crate) fn ascii_to_string(v: Vec<u8>) -> (r: String)
    requires
        all_ascii(v@),
    ensures
        r@ == ascii_chars(v@),
{
    String::from_utf8(v).unwrap_or_default()
}

/// A reserved GREASE value: both octets equal, each ending in the nibble
/// `0xa`. Clients offer them to probe extensibility; they carry no meaning
/// and are excluded from the fingerprint.
pub open spec fn spec_is_grease(v: u16) -> bool {
    v as int % 256 == v as int / 256 && v as int % 16 == 10
}

fn is_grease(v: u16) -> (r: bool)
    ensures
        r == spec_is_grease(v),
{
    v % 256 == v / 256 && v % 16 == 10
}

/// A list with its GREASE values removed, order otherwise kept.
pub open spec fn spec_without_grease(l: Seq<u16>) -> Seq<u16> {
    l.filter(|v: u16| !spec_is_grease(v))
}

fn without_grease(l: &Vec<u16>) -> (r: Vec<u16>)
    ensures
        r@ == spec_without_grease(l@),
{
    let mut out: Vec<u16> = Vec::new();
    let mut i: usize = 0;
    let n = l.len();
    while i < n
        invariant
            i <= n,
            n == l@.len(),
            out@ == spec_without_grease(l@.take(i as int)),
        decreases n - i,
    {
        proof {
            reveal(Seq::filter);
            assert(l@.take(i + 1).drop_last() =~= l@.take(i as int));
            assert(l@.take(i + 1).last() == l@[i as int]);
        }
        if !is_grease(l[i]) {
            out.push(l[i]);
        }
        i += 1;
    }
    proof {
        assert(l@.take(n as int) =~= l@);
    }
    out
}

/// The decimal digits of a number, as ASCII octets.
pub open spec fn spec_dec(n: nat) -> Seq<u8>
    decreases n,
{
    if n < 10 {
        seq![(48 + n) as u8]
    } else {
        spec_dec(n / 10).push((48 + n % 10) as u8)
    }
}

fn push_dec(out: &mut Vec<u8>, n: u16)
    ensures
        final(out)@ == old(out)@ + spec_dec(n as nat),
    decreases n,
{
    if n < 10 {
        out.push(48 + n as u8);
        proof {
            assert(out@ =~= old(out)@ + spec_dec(n as nat));
        }
    } else {
        push_dec(out, n / 10);
        out.push(48 + (n % 10) as u8);
        proof {
            assert(out@ =~= old(out)@ + spec_dec(n as nat));
        }
    }
}

/// A hyphen-joined list of decimal numbers; an empty list renders as an
/// empty field.
pub open spec fn spec_join_dec(l: Seq<u16>) -> Seq<u8>
    decreases l.len(),
{
    if l.len() == 0 {
        Seq::empty()
    } else if l.len() == 1 {
        spec_dec(l[0] as nat)
    } else {
        spec_dec(l[0] as nat).push(45u8) + spec_join_dec(l.skip(1))
    }
}

proof fn lemma_join_dec_push(l: Seq<u16>, x: u16)
    ensures
        spec_join_dec(l.push(x)) == if l.len() == 0 {
            spec_dec(x as nat)
        } else {
            spec_join_dec(l).push(45u8) + spec_dec(x as nat)
        },
    decreases l.len(),
{
    let s = l.push(x);
    if l.len() == 0 {
        assert(s.len() == 1);
        assert(s[0] == x);
    } else {
        assert(s[0] == l[0]);
        assert(s.skip(1) =~= l.skip(1).push(x));
        lemma_join_dec_push(l.skip(1), x);
        if l.len() == 1 {
            assert(l.skip(1) =~= Seq::<u16>::empty());
            assert(spec_join_dec(s) == spec_dec(l[0] as nat).push(45u8) + spec_dec(x as nat));
            assert(spec_join_dec(l) == spec_dec(l[0] as nat));
            assert(spec_join_dec(l).push(45u8) + spec_dec(x as nat) == spec_dec(
                l[0] as nat,
            ).push(45u8) + spec_dec(x as nat));
        } else {
            assert(spec_join_dec(l) == spec_dec(l[0] as nat).push(45u8) + spec_join_dec(l.skip(1)));
            assert((spec_dec(l[0] as nat).push(45u8) + spec_join_dec(l.skip(1)).push(45u8)
                + spec_dec(x as nat)) =~= (spec_dec(l[0] as nat).push(45u8) + spec_join_dec(
                l.skip(1),
            )).push(45u8) + spec_dec(x as nat));
        }
    }
}

fn push_join_dec(out: &mut Vec<u8>, l: &Vec<u16>)
    ensures
        final(out)@ == old(out)@ + spec_join_dec(l@),
{
    let n = l.len();
    let mut i: usize = 0;
    while i < n
        invariant
            i <= n,
            n == l@.len(),
            out@ == old(out)@ + spec_join_dec(l@.take(i as int)),
        decreases n - i,
    {
        proof {
            assert(l@.take(i + 1) =~= l@.take(i as int).push(l@[i as int]));
            lemma_join_dec_push(l@.take(i as int), l@[i as int]);
        }
        if i > 0 {
            out.push(45);
        }
        push_dec(out, l[i]);
        proof {
            assert(out@ =~= old(out)@ + spec_join_dec(l@.take(i + 1)));
        }
        i += 1;
    }
    proof {
        assert(l@.take(n as int) =~= l@);
    }
}

/// Point-format octets rendered the same way as the wider lists.
pub open spec fn spec_join_dec8(l: Seq<u8>) -> Seq<u8> {
    spec_join_dec(l.map_values(|v: u8| v as u16))
}

fn push_join_dec8(out: &mut Vec<u8>, l: &Vec<u8>)
    ensures
        final(out)@ == old(out)@ + spec_join_dec8(l@),
{
    let mut wide: Vec<u16> = Vec::new();
    let n = l.len();
    let mut i: usize = 0;
    while i < n
        invariant
            i <= n,
            n == l@.len(),
            wide@.len() == i,
            forall|j: int| 0 <= j < i ==> wide@[j] == l@[j] as u16,
        decreases n - i,
    {
        wide.push(l[i] as u16);
        i += 1;
    }
    proof {
        assert(wide@ =~= l@.map_values(|v: u8| v as u16));
    }
    push_join_dec(out, &wide);
}

/// The five-field fingerprint string, over the fields it depends on — the
/// server name is deliberately not among them.
pub open spec fn spec_ja3_bytes(
    inner_version: u16,
    ciphers: Seq<u16>,
    extensions: Seq<u16>,
    curves: Seq<u16>,
    point_formats: Seq<u8>,
) -> Seq<u8> {
    spec_dec(inner_version as nat).push(44u8) + spec_join_dec(spec_without_grease(ciphers)).push(
        44u8,
    ) + spec_join_dec(spec_without_grease(extensions)).push(44u8) + spec_join_dec(
        spec_without_grease(curves),
    ).push(44u8) + spec_join_dec8(point_formats)
}

/// The fingerprint input octets of one record.
pub open spec fn spec_ja3_input(m: TlsClientHelloMetadata) -> Seq<u8> {
    spec_ja3_bytes(m.inner_version, m.ciphers@, m.extensions@, m.ec_curves@,
        m.ec_curve_point_formats@)
}

/// The 128-bit content digest of an octet sequence, as the digest function
/// computes it from those octets alone.
pub uninterp spec fn md5_of(data: Seq<u8>) -> Seq<u8>;

/// Relies on `md5::compute`: the digest is a pure function of the input
/// octets and is sixteen octets long.
#[verifier::external_body]
fn md5_digest(data: &Vec<u8>) -> (r: Vec<u8>)
    ensures
        r@ == md5_of(data@),
        r@.len() == 16,
{
    md5::compute(data.as_slice()).0.to_vec()
}

/// A lowercase hexadecimal digit for one nibble.
pub open spec fn spec_hex_digit(n: int) -> u8 {
    if n < 10 {
        (48 + n) as u8
    } else {
        (87 + n) as u8
    }
}

/// Lowercase hexadecimal rendering, two digits per octet.
pub open spec fn spec_hex(d: Seq<u8>) -> Seq<u8> {
    Seq::new(
        d.len() * 2,
        |i: int|
            if i % 2 == 0 {
                spec_hex_digit(d[i / 2] as int / 16)
            } else {
                spec_hex_digit(d[i / 2] as int % 16)
            },
    )
}

/// Renders octets as lowercase hexadecimal text.
pub fn hex_lower(d: &Vec<u8>) -> (r: String)
    ensures
        r@ == ascii_chars(spec_hex(d@)),
{
    let mut out: Vec<u8> = Vec::new();
    let n = d.len();
    let mut i: usize = 0;
    while i < n
        invariant
            i <= n,
            n == d@.len(),
            out@.len() == 2 * i,
            forall|j: int| 0 <= j < 2 * i ==> out@[j] == spec_hex(d@)[j],
        decreases n - i,
    {
        let hi = d[i] / 16;
        let lo = d[i] % 16;
        out.push(if hi < 10 { 48 + hi } else { 87 + hi });
        out.push(if lo < 10 { 48 + lo } else { 87 + lo });
        i += 1;
    }
    proof {
        assert(out@ =~= spec_hex(d@));
        assert forall|j: int| 0 <= j < out@.len() implies out@[j] < 128 by {}
    }
    ascii_to_string(out)
}

/// The rendered fingerprint of one record: lowercase hex of the digest of
/// its fingerprint string.
pub open spec fn spec_ja3(m: TlsClientHelloMetadata) -> Seq<char> {
    ascii_chars(spec_hex(md5_of(spec_ja3_input(m))))
}

impl TlsClientHelloMetadata {
    /// Computes the client fingerprint of this record.
    pub fn ja3(&self) -> (r: String)
        ensures
            r@ == spec_ja3(*self),
    {
        let mut input: Vec<u8> = Vec::new();
        push_dec(&mut input, self.inner_version);
        input.push(44);
        let cs = without_grease(&self.ciphers);
        push_join_dec(&mut input, &cs);
        input.push(44);
        let es = without_grease(&self.extensions);
        push_join_dec(&mut input, &es);
        input.push(44);
        let gs = without_grease(&self.ec_curves);
        push_join_dec(&mut input, &gs);
        input.push(44);
        push_join_dec8(&mut input, &self.ec_curve_point_formats);
        proof {
            assert(input@ =~= spec_ja3_input(*self));
        }
        let digest = md5_digest(&input);
        hex_lower(&digest)
    }
}

/// The fingerprint a parsed ClientHello determines, stated over the parse
/// summary itself.
pub open spec fn spec_ja3_of_summary(s: crate::tls::ClientHelloSummary) -> Seq<char> {
    ascii_chars(
        spec_hex(
            md5_of(
                spec_ja3_bytes(
                    s.inner_version as u16,
                    s.ciphers,
                    s.extensions,
                    s.curves,
                    s.point_formats,
                ),
            ),
        ),
    )
}

/// A record that carries a summary's fields fingerprints as the summary
/// itself does.
pub proof fn lemma_ja3_matches_summary(m: TlsClientHelloMetadata, s: crate::tls::ClientHelloSummary)
    requires
        crate::tls::matches_summary(m, s),
    ensures
        spec_ja3(m) == spec_ja3_of_summary(s),
{
    assert(m.inner_version == s.inner_version);
    assert(s.inner_version as u16 == m.inner_version);
}

/// The fingerprint depends on the offered versions, ciphers, extensions,
/// curves and point formats alone: two records that agree on those —
/// whatever their server names — carry the same fingerprint.
pub proof fn lemma_fingerprint_ignores_sni(a: TlsClientHelloMetadata, b: TlsClientHelloMetadata)
    requires
        a.inner_version == b.inner_version,
        a.ciphers@ == b.ciphers@,
        a.extensions@ == b.extensions@,
        a.ec_curves@ == b.ec_curves@,
        a.ec_curve_point_formats@ == b.ec_curve_point_formats@,
    ensures
        spec_ja3(a) == spec_ja3(b),
{
}

/// Fingerprinting is deterministic: any two records extracted from the same
/// ClientHello byte sequence carry the same fingerprint.
pub proof fn lemma_fingerprint_deterministic(
    payload: Seq<u8>,
    a: TlsClientHelloMetadata,
    b: TlsClientHelloMetadata,
)
    requires
        crate::tls::spec_tls_hello(payload) is Some,
        crate::tls::matches_summary(a, crate::tls::spec_tls_hello(payload).unwrap()),
        crate::tls::matches_summary(b, crate::tls::spec_tls_hello(payload).unwrap()),
    ensures
        spec_ja3(a) == spec_ja3(b),
{
}

} // verus!
