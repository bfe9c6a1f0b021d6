//! UEFI CPER Firmware Error Record Reference codec.

use crate::guid::{
    guid_at, guid_bytes, lemma_guid_at_bytes, lemma_guid_roundtrip, spec_record_id_crashlog, Guid,
};
use crate::region::{spec_records_bytes, Region};
use crate::wire::{le64, read_u64, read_u8, push_u64};
use vstd::bytes::{lemma_auto_spec_u64_to_from_le_bytes, spec_u64_to_le_bytes};
use vstd::prelude::*;

verus! {

/// Header size of a revision 1 Firmware Error Record.
pub const HEADER_REV1_SIZE: usize = 16;

/// Header size of a revision 2 Firmware Error Record, which adds a
/// GUID.
pub const HEADER_REV2_SIZE: usize = 32;

/// Header of a Firmware Error Record Reference.
#[derive(Debug, Clone, Copy, PartialEq, Eq, Structural)]
pub struct FirmwareErrorRecordHeader {
    pub error_type: u8,
    pub revision: u8,
    pub record_identifier: u64,
    pub guid: Guid,
}

impl FirmwareErrorRecordHeader {
    /// An empty revision 0 header.
    pub fn new() -> (h: FirmwareErrorRecordHeader)
        ensures
            h == (FirmwareErrorRecordHeader {
                error_type: 0u8,
                revision: 0u8,
                record_identifier: 0u64,
                guid: Guid { lo: 0u64, hi: 0u64 },
            }),
    {
        FirmwareErrorRecordHeader {
            error_type: 0,
            revision: 0,
            record_identifier: 0,
            guid: Guid::zero(),
        }
    }

    /// Size of the header in bytes: revision 2 carries a GUID.
    pub open spec fn spec_len(self) -> int {
        if self.revision >= 2 {
            32
        } else {
            16
        }
    }

    /// A revision below 2 carries no GUID, so its field reads as zero.
    pub open spec fn wf(self) -> bool {
        self.revision < 2 ==> self.guid == (Guid { lo: 0u64, hi: 0u64 })
    }

    /// Returns the size of the header in bytes.
    pub fn len(&self) -> (n: usize)
        ensures
            n == self.spec_len(),
    {
        if self.revision >= 2 {
            HEADER_REV2_SIZE
        } else {
            HEADER_REV1_SIZE
        }
    }
}

/// The bytes that encode a Firmware Error Record header: 16 bytes, or
/// 32 with the GUID from revision 2 on.
pub open spec fn spec_enc_fer_header(h: FirmwareErrorRecordHeader) -> Seq<u8> {
    seq![h.error_type, h.revision, 0u8, 0u8, 0u8, 0u8, 0u8, 0u8] + spec_u64_to_le_bytes(
        h.record_identifier,
    ) + if h.revision >= 2 {
        guid_bytes(h.guid)
    } else {
        Seq::empty()
    }
}

/// Whether the bytes of `s` lead with a readable Firmware Error Record
/// header.
pub open spec fn spec_fer_header_ok(s: Seq<u8>) -> bool {
    s.len() >= 16 && (s[1] >= 2 ==> s.len() >= 32)
}

/// The header fields read from the bytes of `s`; a revision below 2
/// has no GUID and reads it as zero.
pub open spec fn spec_parse_fer_header(s: Seq<u8>) -> FirmwareErrorRecordHeader {
    FirmwareErrorRecordHeader {
        error_type: s[0],
        revision: s[1],
        record_identifier: le64(s, 8),
        guid: if s[1] >= 2 {
            guid_at(s, 16)
        } else {
            Guid { lo: 0u64, hi: 0u64 }
        },
    }
}

impl FirmwareErrorRecordHeader {
    /// Parses the section header leading a byte slice.
    pub fn from_slice(s: &[u8]) -> (r: Option<FirmwareErrorRecordHeader>)
        ensures
            r matches Some(h) <==> spec_fer_header_ok(s@),
            r matches Some(h) ==> h == spec_parse_fer_header(s@) && h.wf(),
    {
        let slen: usize = s.len();
        if slen < 16 {
            return None;
        }
        let revision = read_u8(s, 1);
        let guid = if revision >= 2 {
            if slen < 32 {
                return None;
            }
            Guid::read(s, 16)
        } else {
            Guid::zero()
        };
        Some(
            FirmwareErrorRecordHeader {
                error_type: read_u8(s, 0),
                revision,
                record_identifier: read_u64(s, 8),
                guid,
            },
        )
    }

    /// Appends the header bytes to `out`.
    pub fn push_to(&self, out: &mut Vec<u8>)
        ensures
            final(out)@ == old(out)@ + spec_enc_fer_header(*self),
    {
        let ghost pre = out@;
        out.push(self.error_type);
        out.push(self.revision);
        out.push(0);
        out.push(0);
        out.push(0);
        out.push(0);
        out.push(0);
        out.push(0);
        push_u64(out, self.record_identifier);
        if self.revision >= 2 {
            self.guid.push_to(out);
        }
        proof {
            assert(out@ =~= pre + spec_enc_fer_header(*self));
        }
    }

    /// Serializes the section header.
    pub fn to_bytes(&self) -> (b: Vec<u8>)
        ensures
            b@ == spec_enc_fer_header(*self),
    {
        let mut out: Vec<u8> = Vec::new();
        self.push_to(&mut out);
        proof {
            assert(out@ =~= spec_enc_fer_header(*self));
        }
        out
    }
}

/// A well-formed Firmware Error Record header survives its own
/// encoding.
pub proof fn lemma_fer_header_roundtrip(h: FirmwareErrorRecordHeader)
    requires
        h.wf(),
    ensures
        spec_enc_fer_header(h).len() == h.spec_len(),
        spec_fer_header_ok(spec_enc_fer_header(h)),
        spec_parse_fer_header(spec_enc_fer_header(h)) == h,
{
    let e = spec_enc_fer_header(h);
    lemma_auto_spec_u64_to_from_le_bytes();
    lemma_guid_roundtrip(h.guid);
    assert(e.subrange(8, 16) =~= spec_u64_to_le_bytes(h.record_identifier));
    if h.revision >= 2 {
        assert(e.subrange(16, 32) =~= guid_bytes(h.guid));
        lemma_guid_at_bytes(e, 16, h.guid);
    }
}

/// UEFI CPER Firmware Error Record Reference: a typed header over a
/// firmware-specific payload.
#[derive(Debug, Clone, PartialEq)]
pub struct FirmwareErrorRecord {
    pub header: FirmwareErrorRecordHeader,
    pub payload: Vec<u8>,
}

/// Mathematical mirror of [`FirmwareErrorRecord`].
#[verifier::ext_equal]
pub ghost struct FerV {
    pub header: FirmwareErrorRecordHeader,
    pub payload: Seq<u8>,
}

impl View for FirmwareErrorRecord {
    type V = FerV;

    open spec fn view(&self) -> FerV {
        FerV { header: self.header, payload: self.payload@ }
    }
}

/// The bytes that encode a Firmware Error Record: its header followed
/// by the raw payload.
pub open spec fn spec_enc_fer(f: FerV) -> Seq<u8> {
    spec_enc_fer_header(f.header) + f.payload
}

/// The record read from the bytes of `s`: everything after the header
/// is the payload.
pub open spec fn spec_parse_fer(s: Seq<u8>) -> FerV {
    let h = spec_parse_fer_header(s);
    FerV { header: h, payload: s.skip(h.spec_len()) }
}

impl FirmwareErrorRecord {
    /// Parses the section leading a byte slice.
    pub fn from_slice(s: &[u8]) -> (r: Option<FirmwareErrorRecord>)
        ensures
            r matches Some(f) <==> spec_fer_header_ok(s@),
            r matches Some(f) ==> f@ == spec_parse_fer(s@) && f.header.wf(),
    {
        let header = match FirmwareErrorRecordHeader::from_slice(s) {
            None => {
                return None;
            },
            Some(h) => h,
        };
        let hlen = header.len();
        let slen: usize = s.len();
        let payload = vstd::slice::slice_to_vec(vstd::slice::slice_subrange(s, hlen, slen));
        proof {
            assert(payload@ =~= s@.skip(header.spec_len()));
        }
        Some(FirmwareErrorRecord { header, payload })
    }

    /// Wraps the raw bytes of a Crash Log region into a revision 2
    /// Firmware Error Record carrying the Crash Log record identifier.
    pub fn from_crashlog_region(region: &Region) -> (r: FirmwareErrorRecord)
        ensures
            r@.header == (FirmwareErrorRecordHeader {
                error_type: 2u8,
                revision: 2u8,
                record_identifier: 0u64,
                guid: spec_record_id_crashlog(),
            }),
            r@.payload == spec_records_bytes(region@),
    {
        FirmwareErrorRecord {
            header: FirmwareErrorRecordHeader {
                error_type: 2,
                revision: 2,
                record_identifier: 0,
                guid: crate::guid::record_id_crashlog(),
            },
            payload: region.to_bytes(),
        }
    }

    /// Size in bytes of the serialized record.
    pub open spec fn spec_len(self) -> int {
        self.header.spec_len() + self.payload@.len()
    }

    /// Serializes the section.
    pub fn to_bytes(&self) -> (b: Vec<u8>)
        ensures
            b@ == spec_enc_fer(self@),
    {
        let mut out = self.header.to_bytes();
        out.extend_from_slice(self.payload.as_slice());
        proof {
            assert(out@ =~= spec_enc_fer(self@));
        }
        out
    }
}

/// A well-formed Firmware Error Record survives its own encoding.
pub proof fn lemma_fer_roundtrip(f: FerV)
    requires
        f.header.wf(),
    ensures
        spec_enc_fer(f).len() == f.header.spec_len() + f.payload.len(),
        spec_fer_header_ok(spec_enc_fer(f)),
        spec_parse_fer(spec_enc_fer(f)) == f,
{
    let e = spec_enc_fer(f);
    lemma_fer_header_roundtrip(f.header);
    let he = spec_enc_fer_header(f.header);
    assert(e.subrange(0, he.len() as int) =~= he);
    assert(spec_parse_fer_header(e) == spec_parse_fer_header(he)) by {
        assert(e[0] == he[0] && e[1] == he[1]);
        assert(e.subrange(8, 16) =~= he.subrange(8, 16));
        if he[1] >= 2 {
            assert(e.subrange(16, 24) =~= he.subrange(16, 24));
            assert(e.subrange(24, 32) =~= he.subrange(24, 32));
        }
    }
    assert(e.skip(f.header.spec_len()) =~= f.payload);
    assert(spec_parse_fer(e) =~= f);
}

} // verus!
