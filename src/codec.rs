//! Fixed-width little-endian integers and raw byte runs, appended to or read
//! from a byte buffer.
use vstd::bytes::{
    spec_u32_from_le_bytes, spec_u32_to_le_bytes, spec_u64_from_le_bytes, spec_u64_to_le_bytes,
    u32_from_le_bytes, u32_to_le_bytes, u64_from_le_bytes, u64_to_le_bytes,
};
use vstd::prelude::*;
use vstd::slice::slice_subrange;

verus! {

/// The four little-endian bytes of `x`.
pub open spec fn le_u32(x: u32) -> Seq<u8> {
    spec_u32_to_le_bytes(x)
}

/// The eight little-endian bytes of `x`.
pub open spec fn le_u64(x: u64) -> Seq<u8> {
    spec_u64_to_le_bytes(x)
}

/// The value of four little-endian bytes.
pub open spec fn from_le_u32(s: Seq<u8>) -> u32 {
    spec_u32_from_le_bytes(s)
}

/// The value of eight little-endian bytes.
pub open spec fn from_le_u64(s: Seq<u8>) -> u64 {
    spec_u64_from_le_bytes(s)
}

/// Fixed-width encodings have their width and decode back to their value.
pub proof fn lemma_le_round_trip()
    ensures
        forall|x: u32| #[trigger] le_u32(x).len() == 4 && from_le_u32(le_u32(x)) == x,
        forall|x: u64| #[trigger] le_u64(x).len() == 8 && from_le_u64(le_u64(x)) == x,
{
    vstd::bytes::lemma_auto_spec_u32_to_from_le_bytes();
    vstd::bytes::lemma_auto_spec_u64_to_from_le_bytes();
    assert forall|x: u32| #[trigger] le_u32(x).len() == 4 && from_le_u32(le_u32(x)) == x by {
        assert(spec_u32_to_le_bytes(x).len() == 4);
    }
    assert forall|x: u64| #[trigger] le_u64(x).len() == 8 && from_le_u64(le_u64(x)) == x by {
        assert(spec_u64_to_le_bytes(x).len() == 8);
    }
}

/// Appends one byte.
pub fn push_u8(out: &mut Vec<u8>, x: u8)
    ensures
        final(out)@ == old(out)@ + seq![x],
{
    out.push(x);
}

/// Appends `x` as four little-endian bytes.
pub fn push_u32(out: &mut Vec<u8>, x: u32)
    ensures
        final(out)@ == old(out)@ + le_u32(x),
{
    let mut b = u32_to_le_bytes(x);
    out.append(&mut b);
}

/// Appends `x` as eight little-endian bytes.
pub fn push_u64(out: &mut Vec<u8>, x: u64)
    ensures
        final(out)@ == old(out)@ + le_u64(x),
{
    let mut b = u64_to_le_bytes(x);
    out.append(&mut b);
}

/// Appends the bytes of `src` as they are, with no length prefix.
pub fn push_bytes(out: &mut Vec<u8>, src: &[u8])
    ensures
        final(out)@ == old(out)@ + src@,
{
    let ghost start = out@;
    let mut i: usize = 0;
    while i < src.len()
        invariant
            i <= src@.len(),
            out@ == start + src@.subrange(0, i as int),
        decreases src@.len() - i,
    {
        out.push(src[i]);
        i = i + 1;
        assert(src@.subrange(0, i as int) == src@.subrange(0, i - 1) + seq![src@[i - 1]]);
    }
    assert(src@.subrange(0, src@.len() as int) == src@);
}

/// Reads four little-endian bytes at `pos`.
pub fn read_u32(buf: &[u8], pos: usize) -> (r: u32)
    requires
        pos + 4 <= buf@.len(),
    ensures
        r == from_le_u32(buf@.subrange(pos as int, pos + 4)),
{
    let n = buf.len();
    u32_from_le_bytes(slice_subrange(buf, pos, pos + 4))
}

/// Reads eight little-endian bytes at `pos`.
pub fn read_u64(buf: &[u8], pos: usize) -> (r: u64)
    requires
        pos + 8 <= buf@.len(),
    ensures
        r == from_le_u64(buf@.subrange(pos as int, pos + 8)),
{
    let n = buf.len();
    u64_from_le_bytes(slice_subrange(buf, pos, pos + 8))
}

/// Copies `len` bytes starting at `pos` into a new buffer.
pub fn read_bytes(buf: &[u8], pos: usize, len: usize) -> (r: Vec<u8>)
    requires
        pos + len <= buf@.len(),
    ensures
        r@ == buf@.subrange(pos as int, pos + len),
{
    let n = buf.len();
    let mut r: Vec<u8> = Vec::new();
    push_bytes(&mut r, slice_subrange(buf, pos, pos + len));
    r
}

} // verus!
