//! Little-endian field access on byte buffers.

use vstd::prelude::*;
use vstd::bytes::{
    lemma_auto_spec_u16_to_from_le_bytes,
    lemma_auto_spec_u64_to_from_le_bytes, spec_u16_from_le_bytes, spec_u32_from_le_bytes,
    spec_u32_to_le_bytes, spec_u64_from_le_bytes, spec_u64_to_le_bytes, u16_from_le_bytes,
    u32_from_le_bytes, u32_to_le_bytes, u64_from_le_bytes, u64_to_le_bytes,
};
use vstd::slice::slice_subrange;

verus! {

/// The little-endian `u16` stored at `off` in `s`.
pub open spec fn le_u16(s: Seq<u8>, off: int) -> u16 {
    spec_u16_from_le_bytes(s.subrange(off, off + 2))
}

/// The little-endian `u32` stored at `off` in `s`.
pub open spec fn le_u32(s: Seq<u8>, off: int) -> u32 {
    spec_u32_from_le_bytes(s.subrange(off, off + 4))
}

/// The little-endian `u64` stored at `off` in `s`.
pub open spec fn le_u64(s: Seq<u8>, off: int) -> u64 {
    spec_u64_from_le_bytes(s.subrange(off, off + 8))
}

/// `s` with the bytes of `field` written at `off`.
pub open spec fn splice(s: Seq<u8>, off: int, field: Seq<u8>) -> Seq<u8> {
    s.subrange(0, off) + field + s.subrange(off + field.len(), s.len() as int)
}

/// `s` with the little-endian encoding of `v` written at `off`.
pub open spec fn put_u32(s: Seq<u8>, off: int, v: u32) -> Seq<u8> {
    splice(s, off, spec_u32_to_le_bytes(v))
}

/// `s` with the little-endian encoding of `v` written at `off`.
pub open spec fn put_u64(s: Seq<u8>, off: int, v: u64) -> Seq<u8> {
    splice(s, off, spec_u64_to_le_bytes(v))
}

/// Reading a field back after writing it gives the written value, and
/// writing one field leaves every byte outside it untouched.
pub proof fn lemma_put_u64(s: Seq<u8>, off: int, v: u64)
    requires
        0 <= off,
        off + 8 <= s.len(),
    ensures
        put_u64(s, off, v).len() == s.len(),
        le_u64(put_u64(s, off, v), off) == v,
        forall|j: int| 0 <= j < s.len() && (j < off || j >= off + 8) ==> #[trigger] put_u64(s, off, v)[j] == s[j],
{
    lemma_auto_spec_u64_to_from_le_bytes();
    let r = put_u64(s, off, v);
    assert(r.subrange(off, off + 8) =~= spec_u64_to_le_bytes(v));
}

/// A field read depends only on the bytes it covers.
pub proof fn lemma_le_u32_frame(a: Seq<u8>, b: Seq<u8>, off: int)
    requires
        0 <= off,
        off + 4 <= a.len(),
        off + 4 <= b.len(),
        forall|j: int| off <= j < off + 4 ==> a[j] == b[j],
    ensures
        le_u32(a, off) == le_u32(b, off),
{
    assert(a.subrange(off, off + 4) =~= b.subrange(off, off + 4));
}

/// A field read depends only on the bytes it covers.
pub proof fn lemma_le_u64_frame(a: Seq<u8>, b: Seq<u8>, off: int)
    requires
        0 <= off,
        off + 8 <= a.len(),
        off + 8 <= b.len(),
        forall|j: int| off <= j < off + 8 ==> a[j] == b[j],
    ensures
        le_u64(a, off) == le_u64(b, off),
{
    assert(a.subrange(off, off + 8) =~= b.subrange(off, off + 8));
}

/// Reads the little-endian `u16` at `off`.
pub fn read_u16_le(bytes: &[u8], off: usize) -> (r: u16)
    requires
        off + 2 <= bytes.len(),
    ensures
        r == le_u16(bytes@, off as int),
{
    u16_from_le_bytes(slice_subrange(bytes, off, off + 2))
}

/// Reads the little-endian `u32` at `off`.
pub fn read_u32_le(bytes: &[u8], off: usize) -> (r: u32)
    requires
        off + 4 <= bytes.len(),
    ensures
        r == le_u32(bytes@, off as int),
{
    u32_from_le_bytes(slice_subrange(bytes, off, off + 4))
}

/// Reads the little-endian `u64` at `off`.
pub fn read_u64_le(bytes: &[u8], off: usize) -> (r: u64)
    requires
        off + 8 <= bytes.len(),
    ensures
        r == le_u64(bytes@, off as int),
{
    u64_from_le_bytes(slice_subrange(bytes, off, off + 8))
}

/// Copies `field` into `bytes` starting at `off`.
pub fn write_bytes(bytes: &mut Vec<u8>, off: usize, field: &[u8])
    requires
        off + field@.len() <= old(bytes).len(),
    ensures
        final(bytes)@ == splice(old(bytes)@, off as int, field@),
{
    let ghost start = bytes@;
    let mut k: usize = 0;
    while k < field.len()
        invariant
            off + field@.len() <= start.len(),
            start.len() <= usize::MAX,
            k <= field@.len(),
            bytes@.len() == start.len(),
            forall|j: int| 0 <= j < start.len() && (j < off || j >= off + k) ==> bytes@[j] == start[j],
            forall|j: int| off <= j < off + k ==> bytes@[j] == field@[j - off],
        decreases field@.len() - k,
    {
        bytes.set(off + k, field[k]);
        k = k + 1;
    }
    assert(bytes@ =~= splice(start, off as int, field@));
}

/// Writes `v` as a little-endian `u32` at `off`.
pub fn write_u32_le(bytes: &mut Vec<u8>, off: usize, v: u32)
    requires
        off + 4 <= old(bytes)@.len(),
    ensures
        final(bytes)@ == put_u32(old(bytes)@, off as int, v),
{
    let enc = u32_to_le_bytes(v);
    write_bytes(bytes, off, enc.as_slice());
}

/// Writes `v` as a little-endian `u64` at `off`.
pub fn write_u64_le(bytes: &mut Vec<u8>, off: usize, v: u64)
    requires
        off + 8 <= old(bytes)@.len(),
    ensures
        final(bytes)@ == put_u64(old(bytes)@, off as int, v),
{
    proof {
        lemma_auto_spec_u64_to_from_le_bytes();
    }
    let enc = u64_to_le_bytes(v);
    write_bytes(bytes, off, enc.as_slice());
}

} // verus!
