//! Family-normalized model of an IP address and its IPv6-mapped storage form.

use vstd::prelude::*;

verus! {

/// An IP address, modelled as the raw address bits per family.
#[derive(Clone, Copy, PartialEq, Eq, Structural, Debug)]
pub enum IpAddress {
    V4(u32),
    V6(u128),
}

/// The IPv6-mapped storage form of an address: an IPv4 address `a` maps to
/// `::ffff:a`, an IPv6 address is itself.
pub open spec fn spec_v6_mapped(ip: IpAddress) -> int {
    match ip {
        IpAddress::V4(v4) => 0xffff_0000_0000 + v4 as int,
        IpAddress::V6(v6) => v6 as int,
    }
}

/// Normalizes an address for uniform storage: IPv4 becomes IPv6-mapped.
pub fn ip_to_stored_ipv6(ip: IpAddress) -> (r: u128)
    ensures
        r == spec_v6_mapped(ip),
{
    match ip {
        IpAddress::V4(v4) => 0xffff_0000_0000u128 + v4 as u128,
        IpAddress::V6(v6) => v6,
    }
}

/// The sixteen network-order octets of an IPv6 address value.
pub open spec fn spec_v6_octets(v: u128) -> Seq<u8> {
    Seq::new(16, |i: int| ((v >> ((15 - i) * 8)) & 0xff) as u8)
}

/// Renders an IPv6 address value as its sixteen network-order octets,
/// the wire form every record stores.
pub fn ipv6_octets(v: u128) -> (r: Vec<u8>)
    ensures
        r@ == spec_v6_octets(v),
        r@.len() == 16,
{
    let mut out: Vec<u8> = Vec::new();
    let mut i: usize = 0;
    while i < 16
        invariant
            i <= 16,
            out@.len() == i,
            forall|j: int| 0 <= j < i ==> out@[j] == spec_v6_octets(v)[j],
        decreases 16 - i,
    {
        let sh: u32 = ((15 - i) * 8) as u32;
        out.push(((v >> sh) & 0xff) as u8);
        i += 1;
    }
    assert(out@ =~= spec_v6_octets(v));
    out
}

/// The IPv6 address value packed from sixteen network-order octets.
pub open spec fn spec_v6_of_octets(b: Seq<u8>) -> int
    decreases b.len(),
{
    if b.len() == 0 {
        0
    } else {
        spec_v6_of_octets(b.drop_last()) * 256 + b.last() as int
    }
}

/// Packs sixteen network-order octets back into an IPv6 address value.
pub fn ipv6_from_octets(b: &[u8]) -> (r: Option<u128>)
    ensures
        r is Some <==> b@.len() == 16,
        b@.len() == 16 ==> (r matches Some(v) && v == spec_v6_of_octets(b@)),
{
    if b.len() != 16 {
        return None;
    }
    let mut acc: u128 = 0;
    let mut i: usize = 0;
    while i < 16
        invariant
            i <= 16,
            b@.len() == 16,
            acc == spec_v6_of_octets(b@.take(i as int)),
            acc < pow256(i as nat),
        decreases 16 - i,
    {
        proof {
            assert(b@.take(i + 1).drop_last() =~= b@.take(i as int));
            assert(b@.take(i + 1).last() == b@[i as int]);
            assert(pow256((i + 1) as nat) == 256 * pow256(i as nat));
            lemma_pow256_le((i + 1) as nat);
        }
        acc = acc * 256 + b[i] as u128;
        i += 1;
    }
    assert(b@.take(16) =~= b@);
    Some(acc)
}

/// `256^n`, the bound on a big-endian accumulator over `n` octets.
pub open spec fn pow256(n: nat) -> int
    decreases n,
{
    if n == 0 {
        1
    } else {
        256 * pow256((n - 1) as nat)
    }
}

proof fn lemma_pow256_le(n: nat)
    requires
        n <= 16,
    ensures
        pow256(n) <= 0x1_0000_0000_0000_0000_0000_0000_0000_0000,
{
    lemma_pow256_mono(n, 16);
    reveal_with_fuel(pow256, 17);
    assert(pow256(16) == 0x1_0000_0000_0000_0000_0000_0000_0000_0000);
}

proof fn lemma_pow256_mono(a: nat, b: nat)
    requires
        a <= b,
    ensures
        pow256(a) <= pow256(b),
    decreases b,
{
    if a < b {
        lemma_pow256_mono(a, (b - 1) as nat);
        assert(pow256(b) == 256 * pow256((b - 1) as nat));
        assert(pow256((b - 1) as nat) >= 1) by {
            lemma_pow256_pos((b - 1) as nat);
        }
    }
}

proof fn lemma_pow256_pos(n: nat)
    ensures
        pow256(n) >= 1,
    decreases n,
{
    if n > 0 {
        lemma_pow256_pos((n - 1) as nat);
    }
}

/// Whether a stored IPv6 value lies in the IPv4-mapped range `::ffff:0:0/96`.
pub open spec fn spec_is_v4_mapped(v: u128) -> bool {
    v >> 32 == 0xffff
}

/// Undoes the storage normalization: values inside `::ffff:0:0/96` come back
/// as the original IPv4 address.
pub fn ip_from_stored(v: u128) -> (r: IpAddress)
    ensures
        spec_is_v4_mapped(v) ==> r == IpAddress::V4((v & 0xffff_ffff) as u32),
        !spec_is_v4_mapped(v) ==> r == IpAddress::V6(v),
{
    if v >> 32 == 0xffff {
        IpAddress::V4((v & 0xffff_ffff) as u32)
    } else {
        IpAddress::V6(v)
    }
}

} // verus!
