//! Strict single-record TLS ClientHello parsing.
//!
//! The classifier inspects one TCP segment at a time: a ClientHello that
//! spans several segments is not reassembled, by design. The payload must
//! start with one complete TLS record; every handshake message inside the
//! record must be well-framed, and the contents of the server-name,
//! supported-groups and point-format extensions must be well-formed wherever
//! they occur. Anything else yields no result and the segment is filtered.

use vstd::prelude::*;
use vstd::slice::slice_to_vec;

use crate::fingerprint::all_ascii;
use crate::fingerprint::ascii_chars;
use crate::fingerprint::ascii_to_string;
use crate::frame::read_u16_be;
use crate::frame::u16_be;

verus! {

/// Everything the fingerprinter needs from one parsed ClientHello.
pub ghost struct ClientHelloSummary {
    /// Protocol version of the outer record header.
    pub outer_version: int,
    /// Protocol version offered inside the ClientHello.
    pub inner_version: int,
    /// Cipher suites in client-offered order, duplicates preserved.
    pub ciphers: Seq<u16>,
    /// Extension types in offered order, duplicates preserved.
    pub extensions: Seq<u16>,
    /// Requested server name, when a well-formed server-name extension names one.
    pub sni: Option<Seq<u8>>,
    /// Elliptic-curve identifiers from the supported-groups extension.
    pub curves: Seq<u16>,
    /// Point formats from the point-format extension.
    pub point_formats: Seq<u8>,
}

/// A three-octet big-endian length at position `i`.
pub open spec fn len24(b: Seq<u8>, i: int) -> int {
    b[i] as int * 0x10000 + b[i + 1] as int * 0x100 + b[i + 2] as int
}

/// The outer record layer: five octets of header, then exactly the declared
/// number of payload octets (data past the first record is ignored).
/// Yields (content type, outer version, record data).
pub open spec fn spec_tls_record(b: Seq<u8>) -> Option<(u8, int, Seq<u8>)> {
    if b.len() >= 5 && 5 + u16_be(b, 3) <= b.len() {
        Some((b[0], u16_be(b, 1), b.subrange(5, 5 + u16_be(b, 3))))
    } else {
        None
    }
}

/// Scans the handshake messages of a record from `pos` to the end, checking
/// that every message is well-framed. Yields `None` when framing is broken,
/// `Some(None)` when no ClientHello occurs, and `Some(Some((start, len)))`
/// for the body of the first ClientHello (message type 1).
pub open spec fn spec_scan_handshake(d: Seq<u8>, pos: int) -> Option<Option<(int, int)>>
    decreases d.len() - pos,
{
    if pos == d.len() {
        Some(None)
    } else if pos + 4 <= d.len() && pos + 4 + len24(d, pos + 1) <= d.len() {
        match spec_scan_handshake(d, pos + 4 + len24(d, pos + 1)) {
            None => None,
            Some(later) => if d[pos] == 1 {
                Some(Some((pos + 4, len24(d, pos + 1))))
            } else {
                Some(later)
            },
        }
    } else {
        None
    }
}

/// A well-formed server-name extension body: either an empty name list, or a
/// single entry whose declared lengths fill the body exactly.
pub open spec fn spec_sni_valid(d: Seq<u8>) -> bool {
    &&& d.len() >= 2
    &&& u16_be(d, 0) == d.len() - 2
    &&& (d.len() > 2 ==> d.len() >= 5 && u16_be(d, 3) == d.len() - 5)
}

/// The host name a well-formed server-name extension asks for: present only
/// when the single entry carries the host-name entry type (zero).
pub open spec fn spec_sni_name(d: Seq<u8>) -> Option<Seq<u8>> {
    if d.len() > 2 && d[2] == 0 {
        Some(d.subrange(5, d.len() as int))
    } else {
        None
    }
}

/// A well-formed supported-groups extension body: a two-octet list length
/// that fills the body exactly, covering whole two-octet entries.
pub open spec fn spec_groups_valid(d: Seq<u8>) -> bool {
    &&& d.len() >= 2
    &&& u16_be(d, 0) == d.len() - 2
    &&& (d.len() - 2) % 2 == 0
}

/// The curve identifiers of a well-formed supported-groups body.
pub open spec fn spec_groups_list(d: Seq<u8>) -> Seq<u16> {
    Seq::new(((d.len() - 2) / 2) as nat, |i: int| u16_be(d, 2 + 2 * i) as u16)
}

/// A well-formed point-format extension body: a one-octet list length that
/// fills the body exactly.
pub open spec fn spec_formats_valid(d: Seq<u8>) -> bool {
    &&& d.len() >= 1
    &&& d[0] as int == d.len() - 1
}

/// The point formats of a well-formed point-format body.
pub open spec fn spec_formats_list(d: Seq<u8>) -> Seq<u8> {
    d.subrange(1, d.len() as int)
}

/// Whether the contents of one extension are acceptable: the three
/// extensions the fingerprinter reads are validated, all others pass as
/// opaque data.
pub open spec fn spec_ext_ok(typ: int, d: Seq<u8>) -> bool {
    &&& (typ == 0 ==> spec_sni_valid(d))
    &&& (typ == 10 ==> spec_groups_valid(d))
    &&& (typ == 11 ==> spec_formats_valid(d))
}

/// Scans an extension block from `pos` to the end: every extension must be
/// well-framed and acceptable. Yields the (type, body) list in offered order.
pub open spec fn spec_exts(e: Seq<u8>, pos: int) -> Option<Seq<(u16, Seq<u8>)>>
    decreases e.len() - pos,
{
    if pos == e.len() {
        Some(Seq::empty())
    } else if pos + 4 <= e.len() && pos + 4 + u16_be(e, pos + 2) <= e.len() && spec_ext_ok(
        u16_be(e, pos),
        e.subrange(pos + 4, pos + 4 + u16_be(e, pos + 2)),
    ) {
        match spec_exts(e, pos + 4 + u16_be(e, pos + 2)) {
            None => None,
            Some(rest) => Some(
                seq![
                    (u16_be(e, pos) as u16, e.subrange(pos + 4, pos + 4 + u16_be(e, pos + 2))),
                ].add(rest),
            ),
        }
    } else {
        None
    }
}

/// The body of the first extension of a given type, in offered order.
pub open spec fn spec_find_ext(exts: Seq<(u16, Seq<u8>)>, typ: u16) -> Option<Seq<u8>>
    decreases exts.len(),
{
    if exts.len() == 0 {
        None
    } else if exts[0].0 == typ {
        Some(exts[0].1)
    } else {
        spec_find_ext(exts.skip(1), typ)
    }
}

/// One parsed ClientHello body: fixed fields, then cipher suites, then
/// compression methods, then an optional extension block that must fill the
/// rest of the body exactly.
pub open spec fn spec_ch_body(b: Seq<u8>, outer_version: int) -> Option<ClientHelloSummary> {
    if b.len() >= 35 && 35 + b[34] as int + 2 <= b.len() {
        let cpos = 35 + b[34] as int;  // cipher-suite list length position
        let clen = u16_be(b, cpos);
        if clen % 2 == 0 && cpos + 2 + clen + 1 <= b.len() {
            let mpos = cpos + 2 + clen;  // compression-method list position
            let epos = mpos + 1 + b[mpos] as int;  // extension block position
            if epos <= b.len() {
                let ciphers = Seq::new(
                    (clen / 2) as nat,
                    |i: int| u16_be(b, cpos + 2 + 2 * i) as u16,
                );
                if epos == b.len() {
                    Some(
                        ClientHelloSummary {
                            outer_version,
                            inner_version: u16_be(b, 0),
                            ciphers,
                            extensions: Seq::empty(),
                            sni: None,
                            curves: Seq::empty(),
                            point_formats: Seq::empty(),
                        },
                    )
                } else if epos + 2 <= b.len() && u16_be(b, epos) == b.len() - epos - 2 {
                    match spec_exts(b.subrange(epos + 2, b.len() as int), 0) {
                        None => None,
                        Some(exts) => Some(
                            ClientHelloSummary {
                                outer_version,
                                inner_version: u16_be(b, 0),
                                ciphers,
                                extensions: exts.map_values(|e: (u16, Seq<u8>)| e.0),
                                sni: match spec_find_ext(exts, 0) {
                                    Some(d) => spec_sni_name(d),
                                    None => None,
                                },
                                curves: match spec_find_ext(exts, 10) {
                                    Some(d) => spec_groups_list(d),
                                    None => Seq::empty(),
                                },
                                point_formats: match spec_find_ext(exts, 11) {
                                    Some(d) => spec_formats_list(d),
                                    None => Seq::empty(),
                                },
                            },
                        ),
                    }
                } else {
                    None
                }
            } else {
                None
            }
        } else {
            None
        }
    } else {
        None
    }
}

/// The server-name characters a record stores: the requested name when it
/// is pure ASCII, empty otherwise (absent or unrepresentable names are
/// stored as the empty string, never as a stale value).
pub open spec fn spec_sni_string(o: Option<Seq<u8>>) -> Seq<char> {
    match o {
        Some(n) => if all_ascii(n) {
            ascii_chars(n)
        } else {
            Seq::empty()
        },
        None => Seq::empty(),
    }
}

/// The full chain over one TCP payload: a handshake record (content type 22)
/// whose messages are all well-framed and whose first ClientHello parses.
pub open spec fn spec_tls_hello(payload: Seq<u8>) -> Option<ClientHelloSummary> {
    match spec_tls_record(payload) {
        None => None,
        Some((ct, ver, data)) => if ct == 22 {
            match spec_scan_handshake(data, 0) {
                None => None,
                Some(None) => None,
                Some(Some((start, len))) => spec_ch_body(data.subrange(start, start + len), ver),
            }
        } else {
            None
        },
    }
}

/// Fields of one ClientHello as stored per matched sample.
#[derive(PartialEq, Debug)]
pub struct TlsClientHelloMetadata {
    /// Version of the outer record header.
    pub outer_version: u16,
    /// Version offered in the ClientHello itself.
    pub inner_version: u16,
    pub ciphers: Vec<u16>,
    pub extensions: Vec<u16>,
    pub sni: String,
    pub ec_curves: Vec<u16>,
    pub ec_curve_point_formats: Vec<u8>,
}

/// Whether a record carries exactly what one parsed ClientHello holds.
pub open spec fn matches_summary(m: TlsClientHelloMetadata, s: ClientHelloSummary) -> bool {
    &&& m.outer_version == s.outer_version
    &&& m.inner_version == s.inner_version
    &&& m.ciphers@ == s.ciphers
    &&& m.extensions@ == s.extensions
    &&& m.sni@ == spec_sni_string(s.sni)
    &&& m.ec_curves@ == s.curves
    &&& m.ec_curve_point_formats@ == s.point_formats
}

proof fn lemma_find_ext_push(a: Seq<(u16, Seq<u8>)>, e: (u16, Seq<u8>), typ: u16)
    ensures
        spec_find_ext(a.push(e), typ) == (match spec_find_ext(a, typ) {
            Some(d) => Some(d),
            None => if e.0 == typ {
                Some(e.1)
            } else {
                None
            },
        }),
    decreases a.len(),
{
    if a.len() == 0 {
        let s = a.push(e);
        assert(s[0] == e);
        assert(s.skip(1) =~= Seq::<(u16, Seq<u8>)>::empty());
        assert(spec_find_ext(Seq::<(u16, Seq<u8>)>::empty(), typ) is None);
    } else {
        assert(a.push(e)[0] == a[0]);
        assert(a.push(e).skip(1) =~= a.skip(1).push(e));
        lemma_find_ext_push(a.skip(1), e, typ);
    }
}

/// Finds the body range of the first ClientHello among the handshake
/// messages of a record, checking that every message is well-framed.
fn scan_handshake(data: &[u8]) -> (r: Option<Option<(usize, usize)>>)
    requires
        data@.len() <= 0xffff,
    ensures
        r is Some <==> spec_scan_handshake(data@, 0) is Some,
        r matches Some(inner) ==> (match spec_scan_handshake(data@, 0) {
            Some(Some((s, l))) => inner matches Some((es, el)) && es == s && el == l && s + l
                <= data@.len(),
            Some(None) => inner is None,
            None => false,
        }),
{
    let dlen = data.len();
    let mut pos: usize = 0;
    let mut found: Option<(usize, usize)> = None;
    while pos < dlen
        invariant
            pos <= dlen,
            dlen == data@.len(),
            dlen <= 0xffff,
            found matches Some((s, l)) ==> s + l <= dlen,
            spec_scan_handshake(data@, 0) == (match spec_scan_handshake(data@, pos as int) {
                None => None::<Option<(int, int)>>,
                Some(later) => Some(
                    match found {
                        Some((s, l)) => Some((s as int, l as int)),
                        None => later,
                    },
                ),
            }),
        decreases dlen - pos,
    {
        if pos + 4 > dlen {
            return None;
        }
        let mlen = (data[pos + 1] as usize) * 0x10000 + (data[pos + 2] as usize) * 0x100 + (data[pos
            + 3] as usize);
        if mlen > dlen - pos - 4 {
            return None;
        }
        if data[pos] == 1 && found.is_none() {
            found = Some((pos + 4, mlen));
        }
        pos = pos + 4 + mlen;
    }
    Some(found)
}

/// What one pass over an extension block collects: the offered type list
/// and the position of the first server-name, supported-groups and
/// point-format extension bodies.
struct ExtScan {
    types: Vec<u16>,
    sni_r: Option<(usize, usize)>,
    cur_r: Option<(usize, usize)>,
    fmt_r: Option<(usize, usize)>,
}

/// Ties one collected body range to the first extension of that type.
spec fn range_matches(
    eblock: Seq<u8>,
    exts: Seq<(u16, Seq<u8>)>,
    typ: u16,
    r: Option<(usize, usize)>,
) -> bool {
    match r {
        Some((o, l)) => o + l <= eblock.len() && spec_find_ext(exts, typ) == Some(
            eblock.subrange(o as int, o + l),
        ),
        None => spec_find_ext(exts, typ) is None,
    }
}

/// Walks an extension block, validating framing and the contents of the
/// three extensions the fingerprinter reads.
fn scan_extensions(eblock: &[u8]) -> (r: Option<ExtScan>)
    requires
        eblock@.len() <= 0xffff,
    ensures
        r is Some <==> spec_exts(eblock@, 0) is Some,
        r matches Some(sc) ==> {
            let exts = spec_exts(eblock@, 0).unwrap();
            &&& sc.types@ == exts.map_values(|e: (u16, Seq<u8>)| e.0)
            &&& range_matches(eblock@, exts, 0, sc.sni_r)
            &&& range_matches(eblock@, exts, 10, sc.cur_r)
            &&& range_matches(eblock@, exts, 11, sc.fmt_r)
            &&& (sc.sni_r matches Some((o, l)) ==> spec_sni_valid(
                eblock@.subrange(o as int, o + l),
            ))
            &&& (sc.cur_r matches Some((o, l)) ==> spec_groups_valid(
                eblock@.subrange(o as int, o + l),
            ))
            &&& (sc.fmt_r matches Some((o, l)) ==> spec_formats_valid(
                eblock@.subrange(o as int, o + l),
            ))
        },
{
    let el = eblock.len();
    let mut types: Vec<u16> = Vec::new();
    let mut sni_r: Option<(usize, usize)> = None;
    let mut cur_r: Option<(usize, usize)> = None;
    let mut fmt_r: Option<(usize, usize)> = None;
    let ghost mut gexts: Seq<(u16, Seq<u8>)> = Seq::empty();
    let mut p: usize = 0;
    while p < el
        invariant
            p <= el,
            el == eblock@.len(),
            el <= 0xffff,
            spec_exts(eblock@, 0) == (match spec_exts(eblock@, p as int) {
                None => None::<Seq<(u16, Seq<u8>)>>,
                Some(rest) => Some(gexts.add(rest)),
            }),
            types@ == gexts.map_values(|e: (u16, Seq<u8>)| e.0),
            range_matches(eblock@, gexts, 0, sni_r),
            range_matches(eblock@, gexts, 10, cur_r),
            range_matches(eblock@, gexts, 11, fmt_r),
            sni_r matches Some((o, l)) ==> spec_sni_valid(eblock@.subrange(o as int, o + l)),
            cur_r matches Some((o, l)) ==> spec_groups_valid(eblock@.subrange(o as int, o + l)),
            fmt_r matches Some((o, l)) ==> spec_formats_valid(eblock@.subrange(o as int, o + l)),
        decreases el - p,
    {
        if p + 4 > el {
            return None;
        }
        let typ = read_u16_be(eblock, p);
        let dl = read_u16_be(eblock, p + 2) as usize;
        if dl > el - p - 4 {
            return None;
        }
        let ghost curd = eblock@.subrange(p + 4, p + 4 + dl as int);
        proof {
            assert forall|j: int| 0 <= j < dl implies curd[j] == eblock@[p + 4 + j] by {}
            assert(curd.len() == dl);
        }
        // Validate the contents of the extensions the fingerprinter reads;
        // any malformed occurrence filters the whole payload.
        if typ == 0 {
            if !(dl >= 2 && read_u16_be(eblock, p + 4) as usize == dl - 2) {
                return None;
            }
            if dl > 2 && !(dl >= 5 && read_u16_be(eblock, p + 4 + 3) as usize == dl - 5) {
                return None;
            }
            assert(spec_sni_valid(curd));
        }
        if typ == 10 {
            if !(dl >= 2 && read_u16_be(eblock, p + 4) as usize == dl - 2 && (dl - 2) % 2 == 0) {
                return None;
            }
            assert(spec_groups_valid(curd));
        }
        if typ == 11 {
            if !(dl >= 1 && eblock[p + 4] as usize == dl - 1) {
                return None;
            }
            assert(spec_formats_valid(curd));
        }
        assert(spec_ext_ok(typ as int, curd));
        let ghost old_gexts = gexts;
        proof {
            gexts = gexts.push((typ, curd));
            assert(gexts =~= old_gexts.add(seq![(typ, curd)]));
            let p2 = p + 4 + dl;
            assert(spec_exts(eblock@, p as int) == (match spec_exts(eblock@, p2 as int) {
                None => None::<Seq<(u16, Seq<u8>)>>,
                Some(rest2) => Some(seq![(typ, curd)].add(rest2)),
            }));
            if spec_exts(eblock@, p2 as int) is Some {
                let rest2 = spec_exts(eblock@, p2 as int).unwrap();
                assert(old_gexts.add(seq![(typ, curd)].add(rest2)) =~= gexts.add(rest2));
            }
            assert(gexts.map_values(|e: (u16, Seq<u8>)| e.0) =~= old_gexts.map_values(
                |e: (u16, Seq<u8>)| e.0,
            ).push(typ));
            lemma_find_ext_push(old_gexts, (typ, curd), 0);
            lemma_find_ext_push(old_gexts, (typ, curd), 10);
            lemma_find_ext_push(old_gexts, (typ, curd), 11);
        }
        types.push(typ);
        if typ == 0 && sni_r.is_none() {
            sni_r = Some((p + 4, dl));
        }
        if typ == 10 && cur_r.is_none() {
            cur_r = Some((p + 4, dl));
        }
        if typ == 11 && fmt_r.is_none() {
            fmt_r = Some((p + 4, dl));
        }
        p = p + 4 + dl;
    }
    proof {
        assert(spec_exts(eblock@, p as int) == Some(Seq::<(u16, Seq<u8>)>::empty()));
        assert(gexts.add(Seq::empty()) =~= gexts);
    }
    Some(ExtScan { types, sni_r, cur_r, fmt_r })
}

/// Materializes the curve list of a well-formed supported-groups body.
fn groups_vec(eblock: &[u8], o: usize, l: usize) -> (cv: Vec<u16>)
    requires
        o + l <= eblock@.len(),
        spec_groups_valid(eblock@.subrange(o as int, o + l)),
    ensures
        cv@ == spec_groups_list(eblock@.subrange(o as int, o + l)),
{
    let el = eblock.len();
    let gcnt = (l - 2) / 2;
    let mut cv: Vec<u16> = Vec::new();
    let mut g: usize = 0;
    while g < gcnt
        invariant
            g <= gcnt,
            o + l <= el,
            el == eblock@.len(),
            l >= 2,
            gcnt == (l - 2) / 2,
            cv@.len() == g,
            forall|j: int| 0 <= j < g ==> cv@[j] == u16_be(eblock@, o + 2 + 2 * j) as u16,
        decreases gcnt - g,
    {
        cv.push(read_u16_be(eblock, o + 2 + 2 * g));
        g += 1;
    }
    proof {
        let d = eblock@.subrange(o as int, o + l);
        assert forall|j: int| 0 <= j < gcnt implies spec_groups_list(d)[j] == cv@[j] by {
            assert(d[2 + 2 * j] == eblock@[o + 2 + 2 * j]);
            assert(d[2 + 2 * j + 1] == eblock@[o + 2 + 2 * j + 1]);
        }
        assert(cv@ =~= spec_groups_list(d));
    }
    cv
}

/// Renders the server name of a well-formed server-name body, empty unless
/// the entry names an ASCII host name.
fn sni_string(eblock: &[u8], o: usize, l: usize) -> (s: String)
    requires
        o + l <= eblock@.len(),
        spec_sni_valid(eblock@.subrange(o as int, o + l)),
    ensures
        s@ == spec_sni_string(spec_sni_name(eblock@.subrange(o as int, o + l))),
{
    let _n = eblock.len();
    let ghost d = eblock@.subrange(o as int, o + l);
    if l > 2 && eblock[o + 2] == 0 {
        assert(d[2] == eblock@[o + 2]);
        let name = slice_to_vec(&eblock[o + 5..o + l]);
        proof {
            assert(name@ =~= d.subrange(5, d.len() as int));
        }
        let mut ok = true;
        let mut q: usize = 0;
        let nl = name.len();
        while q < nl
            invariant
                q <= nl,
                nl == name@.len(),
                ok <==> (forall|j: int| 0 <= j < q ==> name@[j] < 128),
            decreases nl - q,
        {
            if name[q] >= 128 {
                ok = false;
            }
            q += 1;
        }
        if ok {
            let s = ascii_to_string(name);
            s
        } else {
            String::new()
        }
    } else {
        assert(d.len() > 2 ==> d[2] != 0);
        String::new()
    }
}

/// Parses one ClientHello body below the record layer.
fn parse_ch_body(body: &[u8], outer_version: u16) -> (r: Option<TlsClientHelloMetadata>)
    requires
        body@.len() <= 0xffffff,
    ensures
        r is Some <==> spec_ch_body(body@, outer_version as int) is Some,
        r matches Some(m) ==> matches_summary(m, spec_ch_body(body@, outer_version as int).unwrap()),
{
    let blen = body.len();
    if blen < 35 {
        return None;
    }
    let sid = body[34] as usize;
    if 35 + sid + 2 > blen {
        return None;
    }
    let cpos = 35 + sid;
    let clen = read_u16_be(body, cpos) as usize;
    if clen % 2 != 0 {
        return None;
    }
    if cpos + 2 + clen + 1 > blen {
        return None;
    }
    let mpos = cpos + 2 + clen;
    let comp = body[mpos] as usize;
    let epos = mpos + 1 + comp;
    if epos > blen {
        return None;
    }
    let inner_version = read_u16_be(body, 0);
    let cnt = clen / 2;
    let mut ciphers: Vec<u16> = Vec::new();
    let mut k: usize = 0;
    while k < cnt
        invariant
            k <= cnt,
            cnt == clen / 2,
            cpos + 2 + clen <= blen,
            blen == body@.len(),
            ciphers@.len() == k,
            forall|j: int| 0 <= j < k ==> ciphers@[j] == u16_be(body@, cpos + 2 + 2 * j) as u16,
        decreases cnt - k,
    {
        ciphers.push(read_u16_be(body, cpos + 2 + 2 * k));
        k += 1;
    }
    proof {
        assert(ciphers@ =~= Seq::new(
            (clen / 2) as nat,
            |i: int| u16_be(body@, cpos + 2 + 2 * i) as u16,
        ));
    }

    if epos == blen {
        return Some(
            TlsClientHelloMetadata {
                outer_version,
                inner_version,
                ciphers,
                extensions: Vec::new(),
                sni: String::new(),
                ec_curves: Vec::new(),
                ec_curve_point_formats: Vec::new(),
            },
        );
    }

    // An extension block must fill the rest of the body exactly.
    if epos + 2 > blen {
        return None;
    }
    let elen = read_u16_be(body, epos) as usize;
    if elen != blen - epos - 2 {
        return None;
    }
    let eblock = &body[epos + 2..blen];
    let sc = match scan_extensions(eblock) {
        Some(sc) => sc,
        None => {
            return None;
        },
    };
    let ec_curves: Vec<u16> = match sc.cur_r {
        Some((o, l)) => groups_vec(eblock, o, l),
        None => Vec::new(),
    };
    let ec_curve_point_formats: Vec<u8> = match sc.fmt_r {
        Some((o, l)) => {
            let fv = slice_to_vec(&eblock[o + 1..o + l]);
            proof {
                let d = eblock@.subrange(o as int, o + l);
                assert(fv@ =~= spec_formats_list(d));
            }
            fv
        },
        None => Vec::new(),
    };
    let sni: String = match sc.sni_r {
        Some((o, l)) => sni_string(eblock, o, l),
        None => String::new(),
    };
    Some(
        TlsClientHelloMetadata {
            outer_version,
            inner_version,
            ciphers,
            extensions: sc.types,
            sni,
            ec_curves,
            ec_curve_point_formats,
        },
    )
}

/// Extracts the fields of the first ClientHello of a TCP payload, or
/// nothing when the payload is not a well-formed handshake record carrying
/// one. This component never sees a malformed record in the assembled
/// pipeline: the classifier has already filtered those.
pub fn extract_client_hello(payload: &[u8]) -> (r: Option<TlsClientHelloMetadata>)
    ensures
        r is Some <==> spec_tls_hello(payload@) is Some,
        r matches Some(m) ==> matches_summary(m, spec_tls_hello(payload@).unwrap()),
{
    let n = payload.len();
    if n < 5 {
        return None;
    }
    let rec_len = read_u16_be(payload, 3) as usize;
    if rec_len > n - 5 {
        return None;
    }
    if payload[0] != 22 {
        return None;
    }
    let outer_version = read_u16_be(payload, 1);
    let data = &payload[5..5 + rec_len];
    let (ch_start, ch_len) = match scan_handshake(data) {
        Some(Some(f)) => f,
        Some(None) => {
            return None;
        },
        None => {
            return None;
        },
    };
    let body = &data[ch_start..ch_start + ch_len];
    proof {
        assert(body@ =~= data@.subrange(ch_start as int, ch_start as int + ch_len as int));
    }
    parse_ch_body(body, outer_version)
}

} // verus!
