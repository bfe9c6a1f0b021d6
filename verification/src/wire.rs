//! Little-endian primitives shared by every codec in the crate.

use vstd::bytes::*;
use vstd::prelude::*;
use vstd::slice::*;

verus! {

/// Value of the two little-endian bytes of `s` starting at `off`.
pub open spec fn le16(s: Seq<u8>, off: int) -> u16 {
    spec_u16_from_le_bytes(s.subrange(off, off + 2))
}

/// Value of the four little-endian bytes of `s` starting at `off`.
pub open spec fn le32(s: Seq<u8>, off: int) -> u32 {
    spec_u32_from_le_bytes(s.subrange(off, off + 4))
}

/// Value of the eight little-endian bytes of `s` starting at `off`.
pub open spec fn le64(s: Seq<u8>, off: int) -> u64 {
    spec_u64_from_le_bytes(s.subrange(off, off + 8))
}

pub fn read_u16(s: &[u8], off: usize) -> (x: u16)
    requires
        off + 2 <= s@.len(),
    ensures
        x == le16(s@, off as int),
{
    let slen: usize = s.len();
    u16_from_le_bytes(slice_subrange(s, off, off + 2))
}

pub fn read_u32(s: &[u8], off: usize) -> (x: u32)
    requires
        off + 4 <= s@.len(),
    ensures
        x == le32(s@, off as int),
{
    let slen: usize = s.len();
    u32_from_le_bytes(slice_subrange(s, off, off + 4))
}

pub fn read_u64(s: &[u8], off: usize) -> (x: u64)
    requires
        off + 8 <= s@.len(),
    ensures
        x == le64(s@, off as int),
{
    let slen: usize = s.len();
    u64_from_le_bytes(slice_subrange(s, off, off + 8))
}

pub fn read_u8(s: &[u8], off: usize) -> (x: u8)
    requires
        off < s@.len(),
    ensures
        x == s@[off as int],
{
    *slice_index_get(s, off)
}

pub fn push_u16(out: &mut Vec<u8>, x: u16)
    ensures
        final(out)@ == old(out)@ + spec_u16_to_le_bytes(x),
{
    proof {
        lemma_auto_spec_u16_to_from_le_bytes();
    }
    let bytes = u16_to_le_bytes(x);
    let ghost pre = out@;
    out.extend_from_slice(bytes.as_slice());
    proof {
        assert(out@ =~= pre + spec_u16_to_le_bytes(x));
    }
}

pub fn push_u32(out: &mut Vec<u8>, x: u32)
    ensures
        final(out)@ == old(out)@ + spec_u32_to_le_bytes(x),
{
    proof {
        lemma_auto_spec_u32_to_from_le_bytes();
    }
    let bytes = u32_to_le_bytes(x);
    let ghost pre = out@;
    out.extend_from_slice(bytes.as_slice());
    proof {
        assert(out@ =~= pre + spec_u32_to_le_bytes(x));
    }
}

pub fn push_u64(out: &mut Vec<u8>, x: u64)
    ensures
        final(out)@ == old(out)@ + spec_u64_to_le_bytes(x),
{
    proof {
        lemma_auto_spec_u64_to_from_le_bytes();
    }
    let bytes = u64_to_le_bytes(x);
    let ghost pre = out@;
    out.extend_from_slice(bytes.as_slice());
    proof {
        assert(out@ =~= pre + spec_u64_to_le_bytes(x));
    }
}

} // verus!
