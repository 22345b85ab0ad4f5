//! Canonical little-endian byte encoding of the primitive values that the
//! ledger hashes. Every encoder is deterministic and fixed-width, so two
//! structurally equal values always encode to the same bytes.
use vstd::prelude::*;

verus! {

use crate::U256;

/// The eight little-endian bytes of a 64-bit value.
#[verifier::opaque]
pub open spec fn u64_le(v: u64) -> Seq<u8> {
    seq![
        (v as nat % 256) as u8,
        (v as nat / 0x100 % 256) as u8,
        (v as nat / 0x10000 % 256) as u8,
        (v as nat / 0x1000000 % 256) as u8,
        (v as nat / 0x100000000 % 256) as u8,
        (v as nat / 0x10000000000 % 256) as u8,
        (v as nat / 0x1000000000000 % 256) as u8,
        (v as nat / 0x100000000000000 % 256) as u8,
    ]
}

/// The sixteen little-endian bytes of a 128-bit value.
#[verifier::opaque]
pub open spec fn u128_le(v: u128) -> Seq<u8> {
    u64_le((v as nat % 0x10000000000000000) as u64) + u64_le(
        (v as nat / 0x10000000000000000) as u64,
    )
}

/// The thirty-two little-endian bytes of a 256-bit value.
#[verifier::opaque]
pub open spec fn u256_le(v: U256) -> Seq<u8> {
    u64_le(v.w0) + u64_le(v.w1) + u64_le(v.w2) + u64_le(v.w3)
}

/// Appends the little-endian encoding of `v` to `out`.
pub fn push_u64_le(out: &mut Vec<u8>, v: u64)
    ensures
        final(out)@ == old(out)@ + u64_le(v),
{
    proof {
        reveal(u64_le);
    }
    out.push((v % 256) as u8);
    out.push((v / 0x100 % 256) as u8);
    out.push((v / 0x10000 % 256) as u8);
    out.push((v / 0x1000000 % 256) as u8);
    out.push((v / 0x100000000 % 256) as u8);
    out.push((v / 0x10000000000 % 256) as u8);
    out.push((v / 0x1000000000000 % 256) as u8);
    out.push((v / 0x100000000000000 % 256) as u8);
    assert(out@ =~= old(out)@ + u64_le(v));
}

/// Appends the little-endian encoding of `v` to `out`.
pub fn push_u128_le(out: &mut Vec<u8>, v: u128)
    ensures
        final(out)@ == old(out)@ + u128_le(v),
{
    proof {
        reveal(u128_le);
    }
    push_u64_le(out, (v % 0x10000000000000000) as u64);
    push_u64_le(out, (v / 0x10000000000000000) as u64);
    assert(out@ =~= old(out)@ + u128_le(v));
}

/// Appends the little-endian encoding of `v` to `out`.
pub fn push_u256_le(out: &mut Vec<u8>, v: &U256)
    ensures
        final(out)@ == old(out)@ + u256_le(*v),
{
    proof {
        reveal(u256_le);
    }
    push_u64_le(out, v.w0);
    push_u64_le(out, v.w1);
    push_u64_le(out, v.w2);
    push_u64_le(out, v.w3);
    assert(out@ =~= old(out)@ + u256_le(*v));
}

/// Appends a fixed-width byte array to `out`.
pub fn push_array<const N: usize>(out: &mut Vec<u8>, bytes: &[u8; N])
    ensures
        final(out)@ == old(out)@ + bytes@,
{
    let mut j: usize = 0;
    while j < N
        invariant
            j <= N,
            out@ == old(out)@ + bytes@.take(j as int),
        decreases N - j,
    {
        let b: u8 = bytes[j];
        out.push(b);
        assert(out@ =~= old(out)@ + bytes@.take(j + 1));
        j = j + 1;
    }
    assert(out@ =~= old(out)@ + bytes@);
}

/// The 64-bit value read little-endian from eight bytes of `s` starting
/// at `off`.
#[verifier::opaque]
pub open spec fn u64_from_le_at(s: Seq<u8>, off: int) -> u64 {
    (s[off] as nat + s[off + 1] as nat * 0x100 + s[off + 2] as nat * 0x10000 + s[off + 3] as nat
        * 0x1000000 + s[off + 4] as nat * 0x100000000 + s[off + 5] as nat * 0x10000000000 + s[off
        + 6] as nat * 0x1000000000000 + s[off + 7] as nat * 0x100000000000000) as u64
}

/// The 256-bit value read little-endian from thirty-two bytes of `s`.
#[verifier::opaque]
pub open spec fn u256_from_le(s: Seq<u8>) -> U256 {
    U256 {
        w0: u64_from_le_at(s, 0),
        w1: u64_from_le_at(s, 8),
        w2: u64_from_le_at(s, 16),
        w3: u64_from_le_at(s, 24),
    }
}

/// Reads a 64-bit value little-endian from eight bytes of `bytes`.
pub fn read_u64_le(bytes: &Vec<u8>, off: usize) -> (r: u64)
    requires
        off + 8 <= bytes@.len(),
    ensures
        r == u64_from_le_at(bytes@, off as int),
{
    proof {
        reveal(u64_from_le_at);
    }
    // Binding the length keeps the index arithmetic visibly within usize.
    let _n: usize = bytes.len();
    bytes[off] as u64 + bytes[off + 1] as u64 * 0x100 + bytes[off + 2] as u64 * 0x10000 + bytes[off
        + 3] as u64 * 0x1000000 + bytes[off + 4] as u64 * 0x100000000 + bytes[off + 5] as u64
        * 0x10000000000 + bytes[off + 6] as u64 * 0x1000000000000 + bytes[off + 7] as u64
        * 0x100000000000000
}

/// Reads a 256-bit value little-endian from thirty-two bytes of `bytes`.
pub fn read_u256_le(bytes: &Vec<u8>) -> (r: U256)
    requires
        bytes@.len() >= 32,
    ensures
        r == u256_from_le(bytes@),
{
    proof {
        reveal(u256_from_le);
    }
    U256 {
        w0: read_u64_le(bytes, 0),
        w1: read_u64_le(bytes, 8),
        w2: read_u64_le(bytes, 16),
        w3: read_u64_le(bytes, 24),
    }
}

} // verus!
