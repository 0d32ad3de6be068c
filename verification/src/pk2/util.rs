//! Little-endian integer coding, and the reading of blocks.

use vstd::prelude::*;
use vstd::array::array_fill_for_copy_types;
use vstd::slice::slice_subrange;

pub use crate::pk2::block::read_block;

verus! {

/// The number spelled by the first four bytes of `b`, least significant first.
pub open spec fn spec_u32_le(b: Seq<u8>) -> int
    recommends
        b.len() >= 4,
{
    b[0] as int + b[1] as int * 0x100 + b[2] as int * 0x1_0000 + b[3] as int * 0x100_0000
}

/// The number spelled by the first eight bytes of `b`, least significant first.
pub open spec fn spec_u64_le(b: Seq<u8>) -> int
    recommends
        b.len() >= 8,
{
    spec_u32_le(b) + spec_u32_le(b.subrange(4, 8)) * 0x1_0000_0000
}

/// The four bytes that spell `v`, least significant first.
pub open spec fn spec_u32_le_bytes(v: u32) -> Seq<u8> {
    seq![
        (v as int % 0x100) as u8,
        (v as int / 0x100 % 0x100) as u8,
        (v as int / 0x1_0000 % 0x100) as u8,
        (v as int / 0x100_0000 % 0x100) as u8,
    ]
}

/// The eight bytes that spell `v`, least significant first.
pub open spec fn spec_u64_le_bytes(v: u64) -> Seq<u8> {
    spec_u32_le_bytes((v as int % 0x1_0000_0000) as u32) + spec_u32_le_bytes(
        (v as int / 0x1_0000_0000) as u32,
    )
}

/// Four bytes always spell a number that fits in 32 bits.
pub proof fn lemma_u32_le_range(b: Seq<u8>)
    requires
        b.len() >= 4,
    ensures
        0 <= spec_u32_le(b) <= u32::MAX,
{
}

/// Eight bytes always spell a number that fits in 64 bits.
pub proof fn lemma_u64_le_range(b: Seq<u8>)
    requires
        b.len() >= 8,
    ensures
        0 <= spec_u64_le(b) <= u64::MAX,
{
    lemma_u32_le_range(b);
    lemma_u32_le_range(b.subrange(4, 8));
}

/// Decoding undoes encoding of a 32-bit number.
pub proof fn lemma_u32_le_decode_encode(v: u32)
    ensures
        spec_u32_le_bytes(v).len() == 4,
        spec_u32_le(spec_u32_le_bytes(v)) == v,
{
}

/// Encoding undoes decoding of four bytes.
pub proof fn lemma_u32_le_encode_decode(b: Seq<u8>)
    requires
        b.len() == 4,
    ensures
        spec_u32_le_bytes(spec_u32_le(b) as u32) == b,
{
    let v = spec_u32_le(b);
    let q1 = b[1] as int + b[2] as int * 0x100 + b[3] as int * 0x1_0000;
    let q2 = b[2] as int + b[3] as int * 0x100;
    let q3 = b[3] as int;
    assert(v == b[0] as int + 0x100 * q1);
    assert(v == (b[0] as int + b[1] as int * 0x100) + 0x1_0000 * q2);
    assert(v == (b[0] as int + b[1] as int * 0x100 + b[2] as int * 0x1_0000) + 0x100_0000 * q3);
    assert(q1 == b[1] as int + 0x100 * q2);
    assert(q2 == b[2] as int + 0x100 * q3);
    assert(v / 0x100 == q1 && v / 0x1_0000 == q2 && v / 0x100_0000 == q3);
    assert(spec_u32_le_bytes(v as u32) =~= b);
}

/// Decoding undoes encoding of a 64-bit number.
pub proof fn lemma_u64_le_decode_encode(v: u64)
    ensures
        spec_u64_le_bytes(v).len() == 8,
        spec_u64_le(spec_u64_le_bytes(v)) == v,
{
    let lo = (v as int % 0x1_0000_0000) as u32;
    let hi = (v as int / 0x1_0000_0000) as u32;
    lemma_u32_le_decode_encode(lo);
    lemma_u32_le_decode_encode(hi);
    let e = spec_u64_le_bytes(v);
    assert(e.subrange(4, 8) =~= spec_u32_le_bytes(hi));
    assert(spec_u32_le(e) == spec_u32_le(spec_u32_le_bytes(lo)));
}

/// Encoding undoes decoding of eight bytes.
pub proof fn lemma_u64_le_encode_decode(b: Seq<u8>)
    requires
        b.len() == 8,
    ensures
        spec_u64_le_bytes(spec_u64_le(b) as u64) == b,
{
    let lo = b.subrange(0, 4);
    let hi = b.subrange(4, 8);
    let a = spec_u32_le(lo);
    let c = spec_u32_le(hi);
    lemma_u32_le_range(lo);
    lemma_u32_le_range(hi);
    assert(spec_u32_le(b) == a);
    let v = spec_u64_le(b);
    assert(v == a + c * 0x1_0000_0000);
    assert(v % 0x1_0000_0000 == a && v / 0x1_0000_0000 == c);
    assert(spec_u64_le_bytes(v as u64) == spec_u32_le_bytes(a as u32) + spec_u32_le_bytes(
        c as u32,
    ));
    lemma_u32_le_encode_decode(lo);
    lemma_u32_le_encode_decode(hi);
    assert(lo + hi =~= b);
}

/// Converts a byte slice in little endian to an u32 number.
pub fn as_u32_le(array: &[u8]) -> (r: u32)
    requires
        array@.len() >= 4,
    ensures
        r == spec_u32_le(array@),
{
    let b0: u8 = array[0];
    let b1: u8 = array[1];
    let b2: u8 = array[2];
    let b3: u8 = array[3];
    assert((b0 as u32) | ((b1 as u32) << 8) | ((b2 as u32) << 16) | ((b3 as u32) << 24) == b0
        + b1 * 0x100 + b2 * 0x1_0000 + b3 * 0x100_0000) by (bit_vector);
    (b0 as u32) | ((b1 as u32) << 8) | ((b2 as u32) << 16) | ((b3 as u32) << 24)
}

/// Converts a byte slice in little endian to an u64 number.
pub fn as_u64_le(array: &[u8]) -> (r: u64)
    requires
        array@.len() >= 8,
    ensures
        r == spec_u64_le(array@),
{
    let lo: u32 = as_u32_le(array);
    let hi: u32 = as_u32_le(slice_subrange(array, 4, 8));
    assert((lo as u64) | ((hi as u64) << 32) == lo + hi * 0x1_0000_0000) by (bit_vector);
    (lo as u64) | ((hi as u64) << 32)
}

/// Spells a 32-bit number as four bytes, least significant first.
pub fn u32_le_bytes(v: u32) -> (r: [u8; 4])
    ensures
        r@ == spec_u32_le_bytes(v),
{
    assert((v & 0xff) == v as int % 0x100 && ((v >> 8) & 0xff) == v as int / 0x100 % 0x100 && ((v
        >> 16) & 0xff) == v as int / 0x1_0000 % 0x100 && ((v >> 24) & 0xff) == v as int
        / 0x100_0000 % 0x100) by (bit_vector);
    let r: [u8; 4] = [
        (v & 0xff) as u8,
        ((v >> 8) & 0xff) as u8,
        ((v >> 16) & 0xff) as u8,
        ((v >> 24) & 0xff) as u8,
    ];
    assert(r@ =~= spec_u32_le_bytes(v));
    r
}

/// Spells a 64-bit number as eight bytes, least significant first.
pub fn u64_le_bytes(v: u64) -> (r: [u8; 8])
    ensures
        r@ == spec_u64_le_bytes(v),
{
    assert((v & 0xffff_ffff) == v as int % 0x1_0000_0000 && (v >> 32) == v as int / 0x1_0000_0000
        && (v >> 32) <= 0xffff_ffff) by (bit_vector);
    let lo: [u8; 4] = u32_le_bytes((v & 0xffff_ffff) as u32);
    let hi: [u8; 4] = u32_le_bytes((v >> 32) as u32);
    let r: [u8; 8] = [lo[0], lo[1], lo[2], lo[3], hi[0], hi[1], hi[2], hi[3]];
    assert(r@ =~= spec_u64_le_bytes(v));
    r
}

/// Copies `N` bytes of `src`, from place `at` on, into an array.
pub fn copy_bytes<const N: usize>(src: &[u8], at: usize) -> (out: [u8; N])
    requires
        at + N <= src@.len(),
    ensures
        out@ == src@.subrange(at as int, at + N),
{
    let n: usize = src.len();
    assert(at + N <= n);
    let mut out: [u8; N] = array_fill_for_copy_types::<u8, N>(0u8);
    let mut i: usize = 0;
    while i < N
        invariant
            i <= N,
            at + N <= src@.len(),
            src@.len() == n,
            out@.len() == N,
            forall|j: int| 0 <= j < i ==> out@[j] == src@[at + j],
        decreases N - i,
    {
        out[i] = src[at + i];
        i = i + 1;
    }
    assert(out@ =~= src@.subrange(at as int, at + N));
    out
}

} // verus!
