//! 16-byte GUID values as they appear in CPER structures.
//!
//! A GUID is carried through the codec as an opaque 16-byte value; the crate
//! never interprets its RFC 4122 fields. The two halves are stored as the
//! little-endian value of the first and last eight bytes, so equality is
//! plain integer equality and the byte codec is exact.

use crate::wire::{le64, read_u64, push_u64};
use vstd::bytes::*;
use vstd::prelude::*;

verus! {

/// An opaque 16-byte GUID.
#[derive(Debug, Clone, Copy, PartialEq, Eq, Structural)]
pub struct Guid {
    /// Little-endian value of bytes 0..8.
    pub lo: u64,
    /// Little-endian value of bytes 8..16.
    pub hi: u64,
}

/// The 16 bytes that encode `g`.
pub open spec fn guid_bytes(g: Guid) -> Seq<u8> {
    spec_u64_to_le_bytes(g.lo) + spec_u64_to_le_bytes(g.hi)
}

/// The GUID encoded by the 16 bytes of `s` starting at `off`.
pub open spec fn guid_at(s: Seq<u8>, off: int) -> Guid {
    Guid { lo: le64(s, off), hi: le64(s, off + 8) }
}

pub proof fn lemma_guid_roundtrip(g: Guid)
    ensures
        guid_bytes(g).len() == 16,
        guid_at(guid_bytes(g), 0) == g,
{
    lemma_auto_spec_u64_to_from_le_bytes();
    assert(guid_bytes(g).subrange(0, 8) =~= spec_u64_to_le_bytes(g.lo));
    assert(guid_bytes(g).subrange(8, 16) =~= spec_u64_to_le_bytes(g.hi));
}

impl Guid {
    /// The all-zero GUID.
    pub fn zero() -> (g: Guid)
        ensures
            g == (Guid { lo: 0u64, hi: 0u64 }),
    {
        Guid { lo: 0, hi: 0 }
    }

    /// Reads the 16 bytes of `s` starting at `off`.
    pub fn read(s: &[u8], off: usize) -> (g: Guid)
        requires
            off + 16 <= s@.len(),
        ensures
            g == guid_at(s@, off as int),
    {
        let slen: usize = s.len();
        let lo = read_u64(s, off);
        let hi = read_u64(s, off + 8);
        Guid { lo, hi }
    }

    /// Appends the 16 bytes of this GUID to `out`.
    pub fn push_to(&self, out: &mut Vec<u8>)
        ensures
            final(out)@ == old(out)@ + guid_bytes(*self),
    {
        let ghost pre = out@;
        push_u64(out, self.lo);
        push_u64(out, self.hi);
        proof {
            assert(out@ =~= pre + guid_bytes(*self));
        }
    }
}

/// GUID of the CPER Firmware Error Record section type.
pub open spec fn spec_fw_error_record() -> Guid {
    Guid { lo: 0x499609ed81212a96u64, hi: 0xed698e9c728d7194u64 }
}

/// GUID of the CPER Firmware Error Record section type
/// (`81212a96-09ed-4996-9471-8d729c8e69ed`).
pub fn fw_error_record() -> (g: Guid)
    ensures
        g == spec_fw_error_record(),
{
    Guid { lo: 0x499609ed81212a96, hi: 0xed698e9c728d7194 }
}

/// Record identifier GUID marking a Crash Log payload inside a Firmware
/// Error Record.
pub open spec fn spec_record_id_crashlog() -> Guid {
    Guid { lo: 0x4d9ec9988f87f311u64, hi: 0x6d4f8c516560c4a0u64 }
}

/// Record identifier GUID marking a Crash Log payload
/// (`8f87f311-c998-4d9e-a0c4-6065518c4f6d`).
pub fn record_id_crashlog() -> (g: Guid)
    ensures
        g == spec_record_id_crashlog(),
{
    Guid { lo: 0x4d9ec9988f87f311, hi: 0x6d4f8c516560c4a0 }
}

/// CPER boot notification type GUID.
pub open spec fn spec_notification_boot() -> Guid {
    Guid { lo: 0x409aab403d61a466u64, hi: 0x8fb364d462f398a6u64 }
}

/// CPER boot notification type GUID (`3d61a466-ab40-409a-a698-f362d464b38f`).
pub fn notification_boot() -> (g: Guid)
    ensures
        g == spec_notification_boot(),
{
    Guid { lo: 0x409aab403d61a466, hi: 0x8fb364d462f398a6 }
}

/// Default CPER creator identifier GUID.
pub open spec fn spec_creator_lcf() -> Guid {
    Guid { lo: 0x4237b876eba67344u64, hi: 0xffa27f29e1270db8u64 }
}

/// Default CPER creator identifier GUID
/// (`eba67344-b876-4237-b80d-27e1297fa2ff`).
pub fn creator_lcf() -> (g: Guid)
    ensures
        g == spec_creator_lcf(),
{
    Guid { lo: 0x4237b876eba67344, hi: 0xffa27f29e1270db8 }
}


/// Sixteen bytes equal to a GUID's encoding decode to that GUID.
pub proof fn lemma_guid_at_bytes(s: Seq<u8>, off: int, g: Guid)
    requires
        0 <= off,
        off + 16 <= s.len(),
        s.subrange(off, off + 16) =~= guid_bytes(g),
    ensures
        guid_at(s, off) == g,
{
    lemma_auto_spec_u64_to_from_le_bytes();
    assert(s.subrange(off, off + 8) =~= spec_u64_to_le_bytes(g.lo)) by {
        assert forall|i: int| 0 <= i < 8 implies s.subrange(off, off + 8)[i]
            == spec_u64_to_le_bytes(g.lo)[i] by {
            assert(s.subrange(off, off + 16)[i] == guid_bytes(g)[i]);
        }
    }
    assert(s.subrange(off + 8, off + 16) =~= spec_u64_to_le_bytes(g.hi)) by {
        assert forall|i: int| 0 <= i < 8 implies s.subrange(off + 8, off + 16)[i]
            == spec_u64_to_le_bytes(g.hi)[i] by {
            assert(s.subrange(off, off + 16)[i + 8] == guid_bytes(g)[i + 8]);
        }
    }
}

} // verus!
