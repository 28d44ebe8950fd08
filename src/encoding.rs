//! SCALE encoding of the values that identifiers and signatures cover.

use vstd::prelude::*;
use parity_scale_codec::Encode;

verus! {

/// The `k` little-endian bytes of `x` (higher bytes are dropped).
pub open spec fn le_bytes(x: nat, k: nat) -> Seq<u8>
    decreases k,
{
    if k == 0 {
        Seq::empty()
    } else {
        seq![(x % 256) as u8] + le_bytes(x / 256, (k - 1) as nat)
    }
}

/// SCALE's compact form of a `u32` (used for collection lengths).
pub open spec fn compact_bytes(n: nat) -> Seq<u8> {
    if n < 0x40 {
        seq![(n * 4) as u8]
    } else if n < 0x4000 {
        le_bytes(n * 4 + 1, 2)
    } else if n < 0x4000_0000 {
        le_bytes(n * 4 + 2, 4)
    } else {
        seq![3u8] + le_bytes(n, 4)
    }
}

/// Relies on parity-scale-codec's `Encode` for `u64`: its eight little-endian bytes.
#[verifier::external_body]
fn scale_u64(x: u64) -> (r: Vec<u8>)
    ensures
        r@ == le_bytes(x as nat, 8),
{
    x.encode()
}

/// Relies on parity-scale-codec's `Encode` for `Compact<u32>`: one, two, four or
/// five bytes, as `compact_bytes` states.
#[verifier::external_body]
fn scale_compact(n: u32) -> (r: Vec<u8>)
    ensures
        r@ == compact_bytes(n as nat),
{
    parity_scale_codec::Compact(n).encode()
}

/// Appends the encoding of a `u64`.
pub fn put_u64(out: &mut Vec<u8>, x: u64)
    ensures
        final(out)@ == old(out)@ + le_bytes(x as nat, 8),
{
    let mut b = scale_u64(x);
    out.append(&mut b);
}

/// Appends the compact encoding of a collection length.
pub fn put_len(out: &mut Vec<u8>, n: usize)
    requires
        n <= u32::MAX,
    ensures
        final(out)@ == old(out)@ + compact_bytes(n as nat),
{
    let mut b = scale_compact(n as u32);
    out.append(&mut b);
}

/// Appends a `bool`: one byte, 1 for true and 0 for false.
pub fn put_bool(out: &mut Vec<u8>, b: bool)
    ensures
        final(out)@ == old(out)@.push(if b { 1u8 } else { 0u8 }),
{
    out.push(if b { 1u8 } else { 0u8 });
}

/// Appends a fixed-size byte array as it stands (SCALE gives arrays no length prefix).
pub fn put_array<const N: usize>(out: &mut Vec<u8>, a: &[u8; N])
    ensures
        final(out)@ == old(out)@ + a@,
{
    let ghost start = out@;
    let mut i: usize = 0;
    while i < N
        invariant
            i <= N,
            a@.len() == N,
            out@ == start + a@.subrange(0, i as int),
        decreases N - i,
    {
        out.push(a[i]);
        i = i + 1;
        assert(out@ =~= start + a@.subrange(0, i as int));
    }
    assert(a@.subrange(0, N as int) =~= a@);
}

/// Appends a byte slice without a length prefix.
pub fn put_slice(out: &mut Vec<u8>, a: &[u8])
    ensures
        final(out)@ == old(out)@ + a@,
{
    let ghost start = out@;
    let mut i: usize = 0;
    while i < a.len()
        invariant
            i <= a@.len(),
            out@ == start + a@.subrange(0, i as int),
        decreases a@.len() - i,
    {
        out.push(a[i]);
        i = i + 1;
        assert(out@ =~= start + a@.subrange(0, i as int));
    }
    assert(a@.subrange(0, a@.len() as int) =~= a@);
}

/// Whether two 32-byte values are equal.
pub fn same_bytes32(a: &[u8; 32], b: &[u8; 32]) -> (r: bool)
    ensures
        r == (a@ == b@),
{
    let mut i: usize = 0;
    while i < 32
        invariant
            i <= 32,
            a@.len() == 32,
            b@.len() == 32,
            a@.subrange(0, i as int) == b@.subrange(0, i as int),
        decreases 32 - i,
    {
        if a[i] != b[i] {
            assert(a@[i as int] != b@[i as int]);
            return false;
        }
        assert(a@.subrange(0, i + 1) =~= a@.subrange(0, i as int).push(a@[i as int]));
        assert(b@.subrange(0, i + 1) =~= b@.subrange(0, i as int).push(b@[i as int]));
        i = i + 1;
    }
    assert(a@ =~= a@.subrange(0, 32));
    assert(b@ =~= b@.subrange(0, 32));
    true
}

} // verus!
