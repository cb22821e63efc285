//! Little-endian integers inside byte strings.

use vstd::prelude::*;
use crate::error::{RamzError, is_backend_error};

verus! {

/// The four little-endian bytes of `x`.
pub open spec fn le_u32_bytes(x: u32) -> Seq<u8> {
    seq![
        (x & 0xff) as u8,
        ((x >> 8u32) & 0xff) as u8,
        ((x >> 16u32) & 0xff) as u8,
        ((x >> 24u32) & 0xff) as u8,
    ]
}

/// The integer whose little-endian bytes are `b0 b1 b2 b3`.
pub open spec fn u32_from_le(b0: u8, b1: u8, b2: u8, b3: u8) -> u32 {
    (b0 as u32) | ((b1 as u32) << 8u32) | ((b2 as u32) << 16u32) | ((b3 as u32) << 24u32)
}

/// The little-endian `u32` stored in `s` at offset `at`.
pub open spec fn le_u32_at(s: Seq<u8>, at: int) -> u32
    recommends
        0 <= at,
        at + 4 <= s.len(),
{
    u32_from_le(s[at], s[at + 1], s[at + 2], s[at + 3])
}

/// Reading back the bytes that encode `x` gives `x`.
pub proof fn lemma_le_u32_roundtrip(x: u32)
    ensures
        le_u32_at(le_u32_bytes(x), 0) == x,
{
    let b = le_u32_bytes(x);
    let b0 = (x & 0xff) as u8;
    let b1 = ((x >> 8u32) & 0xff) as u8;
    let b2 = ((x >> 16u32) & 0xff) as u8;
    let b3 = ((x >> 24u32) & 0xff) as u8;
    assert(b[0] == b0 && b[1] == b1 && b[2] == b2 && b[3] == b3);
    assert(u32_from_le(b0, b1, b2, b3) == x) by (bit_vector)
        requires
            b0 == (x & 0xff) as u8,
            b1 == ((x >> 8u32) & 0xff) as u8,
            b2 == ((x >> 16u32) & 0xff) as u8,
            b3 == ((x >> 24u32) & 0xff) as u8,
    ;
}

/// The value of the four bytes at `at` read as base-256 digits, least
/// significant first.
pub open spec fn le_value(s: Seq<u8>, at: int) -> int {
    s[at] as int + s[at + 1] as int * 256 + s[at + 2] as int * 65536 + s[at + 3] as int * 16777216
}

/// The four bytes written for `x` are its base-256 digits, least
/// significant first.
pub proof fn law_le_u32_digits(x: u32)
    ensures
        le_u32_bytes(x).len() == 4,
        le_value(le_u32_bytes(x), 0) == x as int,
{
    let b = le_u32_bytes(x);
    let b0 = (x & 0xff) as u8;
    let b1 = ((x >> 8u32) & 0xff) as u8;
    let b2 = ((x >> 16u32) & 0xff) as u8;
    let b3 = ((x >> 24u32) & 0xff) as u8;
    assert(b[0] == b0 && b[1] == b1 && b[2] == b2 && b[3] == b3);
    assert(b0 as int + b1 as int * 256 + b2 as int * 65536 + b3 as int * 16777216 == x as int) by (bit_vector)
        requires
            b0 == (x & 0xff) as u8,
            b1 == ((x >> 8u32) & 0xff) as u8,
            b2 == ((x >> 16u32) & 0xff) as u8,
            b3 == ((x >> 24u32) & 0xff) as u8,
    ;
}

/// Four bytes inside `b` that encode `x` read back as `x`.
#[verifier::spinoff_prover]
pub proof fn lemma_le_value_at(b: Seq<u8>, at: int, x: u32)
    requires
        0 <= at,
        at + 4 <= b.len(),
        b.subrange(at, at + 4) == le_u32_bytes(x),
    ensures
        le_value(b, at) == x as int,
{
    law_le_u32_digits(x);
    assert(b[at] == b.subrange(at, at + 4)[0]);
    assert(b[at + 1] == b.subrange(at, at + 4)[1]);
    assert(b[at + 2] == b.subrange(at, at + 4)[2]);
    assert(b[at + 3] == b.subrange(at, at + 4)[3]);
}

/// Encoding a value read from four bytes gives those bytes back.
pub proof fn lemma_le_u32_bytes_of_value(s: Seq<u8>, at: int)
    requires
        0 <= at,
        at + 4 <= s.len(),
    ensures
        le_u32_bytes(le_u32_at(s, at)) == s.subrange(at, at + 4),
{
    let b0 = s[at];
    let b1 = s[at + 1];
    let b2 = s[at + 2];
    let b3 = s[at + 3];
    let v = u32_from_le(b0, b1, b2, b3);
    assert((v & 0xff) as u8 == b0 && ((v >> 8u32) & 0xff) as u8 == b1 && ((v >> 16u32)
        & 0xff) as u8 == b2 && ((v >> 24u32) & 0xff) as u8 == b3) by (bit_vector)
        requires
            v == (b0 as u32) | ((b1 as u32) << 8u32) | ((b2 as u32) << 16u32) | ((b3 as u32)
                << 24u32),
    ;
    assert(le_u32_bytes(v) =~= s.subrange(at, at + 4));
}

/// Appends the four little-endian bytes of `x` to `out`.
pub fn push_u32_le(out: &mut Vec<u8>, x: u32)
    ensures
        final(out)@ == old(out)@ + le_u32_bytes(x),
{
    out.push((x & 0xff) as u8);
    out.push(((x >> 8u32) & 0xff) as u8);
    out.push(((x >> 16u32) & 0xff) as u8);
    out.push(((x >> 24u32) & 0xff) as u8);
    assert(final(out)@ =~= old(out)@ + le_u32_bytes(x));
}

/// Appends every byte of `data` to `out`.
pub fn push_bytes(out: &mut Vec<u8>, data: &[u8])
    ensures
        final(out)@ == old(out)@ + data@,
{
    out.extend_from_slice(data);
}

/// Copies `data[from..from + len]` into a new vector.
pub fn copy_range(data: &[u8], from: usize, len: usize) -> (r: Vec<u8>)
    requires
        from + len <= data@.len(),
    ensures
        r@ == data@.subrange(from as int, from + len),
{
    let mut r: Vec<u8> = Vec::with_capacity(len);
    let mut i: usize = 0;
    let n = data.len();
    while i < len
        invariant
            n == data@.len(),
            from + len <= data@.len(),
            i <= len,
            r@ == data@.subrange(from as int, from + i),
        decreases len - i,
    {
        r.push(data[from + i]);
        i = i + 1;
        assert(r@ =~= data@.subrange(from as int, from + i));
    }
    r
}

/// Reads the little-endian `u32` at `*pos` and moves `*pos` past it; fails,
/// leaving `*pos` as it was, when fewer than four bytes remain.
pub fn read_u32(raw: &[u8], pos: &mut usize) -> (r: Result<u32, RamzError>)
    requires
        *old(pos) + 4 <= usize::MAX,
    ensures
        *old(pos) + 4 <= raw@.len() ==> r == Ok::<u32, RamzError>(le_u32_at(raw@, *old(pos) as int))
            && *final(pos) == *old(pos) + 4,
        *old(pos) + 4 > raw@.len() ==> is_backend_error(r, "truncated archive header"@)
            && *final(pos) == *old(pos),
{
    let p = *pos;
    if p + 4 > raw.len() {
        proof {
            reveal_strlit("truncated archive header");
        }
        return Err(crate::error::backend_message("truncated archive header"));
    }
    let v = (raw[p] as u32) | ((raw[p + 1] as u32) << 8u32) | ((raw[p + 2] as u32) << 16u32)
        | ((raw[p + 3] as u32) << 24u32);
    *pos = p + 4;
    Ok(v)
}

} // verus!
