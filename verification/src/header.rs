//! Crash Log record headers: version word, errata, record size and the
//! eight header layouts.

use crate::error::Error;
use crate::wire::{le16, le32, le64, read_u16, read_u32, read_u64, read_u8};
use vstd::prelude::*;

verus! {

// Crash Log record types.
pub const PMC: u8 = 0x1;
pub const PMC_FW_TRACE: u8 = 0x2;
pub const PUNIT: u8 = 0x3;
pub const PCORE: u8 = 0x4;
pub const ECORE: u8 = 0x6;
pub const UNCORE: u8 = 0x8;
pub const PMC_TRACE: u8 = 0x11;
pub const TCSS: u8 = 0x16;
pub const PMC_RST: u8 = 0x17;
pub const PCODE: u8 = 0x19;
pub const CRASHLOG_AGENT: u8 = 0x1C;
pub const BOX: u8 = 0x3D;
pub const MCA: u8 = 0x3E;

/// Version of the Crash Log record: the packed 32-bit word that leads
/// every record.
#[derive(Debug, Clone, Copy, PartialEq, Eq, Structural)]
pub struct Version {
    /// Revision of the record.
    pub revision: u32,
    /// Type of the header.
    pub header_type: u16,
    /// Product that generated the record.
    pub product_id: u32,
    /// Type of the record.
    pub record_type: u8,
    /// Indicates that the record has been consumed by firmware.
    pub consumed: bool,
    /// Indicates that a trailing integrity checksum is present.
    pub cldic: bool,
}

/// The two version words that terminate a record stream.
pub open spec fn spec_is_sentinel(w: u32) -> bool {
    w == 0 || w == 0xdeadbeefu32
}

/// A buffer too short for a version word, or leading with a sentinel,
/// terminates the stream.
pub open spec fn spec_is_terminator(s: Seq<u8>) -> bool {
    s.len() < 4 || spec_is_sentinel(le32(s, 0))
}

impl Version {
    /// The version fields packed in the word `w`.
    pub open spec fn spec_from_u32(w: u32) -> Version {
        Version {
            revision: w & 0xFF,
            header_type: ((w >> 8) & 0xF) as u16,
            product_id: (w >> 12) & 0xFFF,
            record_type: ((w >> 24) & 0x3F) as u8,
            cldic: (w >> 30) & 1 == 1,
            consumed: (w >> 31) & 1 == 1,
        }
    }

    /// Unpacks a non-sentinel version word.
    pub fn from_u32(w: u32) -> (v: Version)
        ensures
            v == Version::spec_from_u32(w),
    {
        Version {
            revision: w & 0xFF,
            header_type: ((w >> 8) & 0xF) as u16,
            product_id: (w >> 12) & 0xFFF,
            record_type: ((w >> 24) & 0x3F) as u8,
            cldic: (w >> 30) & 1 == 1,
            consumed: (w >> 31) & 1 == 1,
        }
    }

    /// Creates a [`Version`] from the first four bytes of a raw record;
    /// `None` for a termination marker or a buffer too short to hold one.
    pub fn from_slice(slice: &[u8]) -> (r: Option<Version>)
        ensures
            spec_is_terminator(slice@) <==> r is None,
            r matches Some(v) ==> v == Version::spec_from_u32(le32(slice@, 0)),
    {
        let slen: usize = slice.len();
        if slen < 4 {
            return None;
        }
        let w = read_u32(slice, 0);
        if w == 0 || w == 0xdeadbeef {
            return None;
        }
        Some(Version::from_u32(w))
    }

    /// The packed word these fields came from.
    pub open spec fn spec_as_u32(self) -> u32 {
        ((if self.consumed { 1u32 } else { 0u32 }) << 31) | (
        (if self.cldic { 1u32 } else { 0u32 }) << 30) | ((self.record_type as u32) << 24) | (
        self.product_id << 12) | ((self.header_type as u32) << 8) | self.revision
    }

    /// Packs the fields back into a version word.
    pub fn as_u32(&self) -> (w: u32)
        ensures
            w == self.spec_as_u32(),
    {
        ((if self.consumed { 1u32 } else { 0u32 }) << 31) | (
        (if self.cldic { 1u32 } else { 0u32 }) << 30) | ((self.record_type as u32) << 24) | (
        self.product_id << 12) | ((self.header_type as u32) << 8) | self.revision
    }
}

impl Default for Version {
    /// The all-zero version word.
    fn default() -> (v: Version)
        ensures
            v == Version::spec_from_u32(0),
    {
        proof {
            assert(Version::spec_from_u32(0) == Version {
                revision: 0u32,
                header_type: 0u16,
                product_id: 0u32,
                record_type: 0u8,
                cldic: false,
                consumed: false,
            }) by (bit_vector);
        }
        Version {
            revision: 0,
            header_type: 0,
            product_id: 0,
            record_type: 0,
            cldic: false,
            consumed: false,
        }
    }
}

/// Collection of product-specific Crash Log quirks, derived from the
/// version word.
#[derive(Debug, Clone, Copy, PartialEq, Eq, Structural)]
pub struct Errata {
    /// The record uses the legacy server Type0 header layout.
    pub type0_legacy_server: bool,
    /// Legacy server Type0 layout carrying a BOX record.
    pub type0_legacy_server_box: bool,
    /// Record size fields are expressed in bytes instead of dwords.
    pub core_record_size_bytes: bool,
}

impl Errata {
    /// The quirks implied by a version word.
    pub open spec fn spec_from_version(v: Version) -> Errata {
        Errata {
            type0_legacy_server: v.header_type == 0 && v.product_id == 0x2F,
            type0_legacy_server_box: v.header_type == 0 && v.product_id == 0x2F
                && v.record_type == 0x4,
            core_record_size_bytes: !(v.header_type == 0 && v.product_id == 0x2F) && ((
            v.record_type == ECORE && v.product_id < 0x96) || (v.record_type == PCORE
                && v.product_id < 0x71)),
        }
    }

    /// Derives the quirks that apply to a record version.
    pub fn from_version(version: &Version) -> (e: Errata)
        ensures
            e == Errata::spec_from_version(*version),
    {
        let type0_legacy_server = version.header_type == 0 && version.product_id == 0x2F;
        let type0_legacy_server_box = type0_legacy_server && version.record_type == 0x4;
        let core_record_size_bytes = !type0_legacy_server && ((version.record_type == ECORE
            && version.product_id < 0x96) || (version.record_type == PCORE && version.product_id
            < 0x71));
        Errata { type0_legacy_server, type0_legacy_server_box, core_record_size_bytes }
    }
}

impl Version {
    /// Derives the quirks that apply to this record version.
    pub fn into_errata(&self) -> (e: Errata)
        ensures
            e == Errata::spec_from_version(*self),
    {
        Errata::from_version(self)
    }
}

/// Size of the Crash Log record as declared by its header.
#[derive(Debug, Clone, Copy, PartialEq, Eq, Structural)]
pub struct RecordSize {
    /// Size of the main section of the record.
    pub record_size: u16,
    /// Size of the extended section of the record.
    pub extended_record_size: u16,
}

impl RecordSize {
    /// The sizes stored at bytes 4..8 of an ordinary header.
    pub open spec fn spec_from_slice(s: Seq<u8>) -> RecordSize {
        RecordSize { record_size: le16(s, 4), extended_record_size: le16(s, 6) }
    }

    /// The size stored at bytes 16..18 of a legacy server Type0 header.
    pub open spec fn spec_from_slice_type0_legacy_server(s: Seq<u8>) -> RecordSize {
        RecordSize { record_size: le16(s, 16), extended_record_size: 0u16 }
    }

    /// Creates a [`RecordSize`] from a raw record.
    pub fn from_slice(slice: &[u8]) -> (r: Option<RecordSize>)
        ensures
            r matches Some(z) <==> slice@.len() >= 8,
            r matches Some(z) ==> z == RecordSize::spec_from_slice(slice@),
    {
        let slen: usize = slice.len();
        if slen < 8 {
            return None;
        }
        Some(RecordSize { record_size: read_u16(slice, 4), extended_record_size: read_u16(slice, 6) })
    }

    /// Creates a [`RecordSize`] from a raw record of a server product with
    /// the legacy Type0 header.
    pub fn from_slice_type0_legacy_server(slice: &[u8]) -> (r: Option<RecordSize>)
        ensures
            r matches Some(z) <==> slice@.len() >= 18,
            r matches Some(z) ==> z == RecordSize::spec_from_slice_type0_legacy_server(slice@),
    {
        let slen: usize = slice.len();
        if slen < 18 {
            return None;
        }
        Some(RecordSize { record_size: read_u16(slice, 16), extended_record_size: 0 })
    }
}

impl Default for RecordSize {
    /// Zero sizes.
    fn default() -> (z: RecordSize)
        ensures
            z == (RecordSize { record_size: 0u16, extended_record_size: 0u16 }),
    {
        RecordSize { record_size: 0, extended_record_size: 0 }
    }
}

/// The per-type optional fields of a Crash Log record header.
#[derive(Debug, PartialEq)]
pub enum HeaderType {
    Type0,
    Type1,
    Type2 { timestamp: u64, agent_version: u32, reason: u32 },
    Type3 {
        timestamp: u64,
        agent_version: u32,
        reason: u32,
        completion_status: u32,
        collection_complete: bool,
    },
    Type4 { timestamp: u64, agent_version: u32, reason: u32, whoami: u32, misc: u32 },
    Type5 {
        timestamp: u64,
        agent_version: u32,
        reason: u32,
        completion_status: u32,
        collection_complete: bool,
        error_status: u32,
    },
    Type6 {
        timestamp: u64,
        agent_version: u32,
        reason: u32,
        die_id: u8,
        socket_id: u8,
        completion_status_size: u16,
        completion_status: Vec<u32>,
        collection_complete: bool,
    },
    Type0LegacyServer {
        timestamp: u64,
        agent_version: u32,
        reason: u32,
        die_id: u8,
        socket_id: u8,
        completion_status: u32,
        collection_complete: bool,
    },
}

/// Mathematical mirror of [`HeaderType`]: the Type6 completion status
/// dwords become a sequence.
pub ghost enum HeaderTypeV {
    Type0,
    Type1,
    Type2 { timestamp: u64, agent_version: u32, reason: u32 },
    Type3 {
        timestamp: u64,
        agent_version: u32,
        reason: u32,
        completion_status: u32,
        collection_complete: bool,
    },
    Type4 { timestamp: u64, agent_version: u32, reason: u32, whoami: u32, misc: u32 },
    Type5 {
        timestamp: u64,
        agent_version: u32,
        reason: u32,
        completion_status: u32,
        collection_complete: bool,
        error_status: u32,
    },
    Type6 {
        timestamp: u64,
        agent_version: u32,
        reason: u32,
        die_id: u8,
        socket_id: u8,
        completion_status_size: u16,
        completion_status: Seq<u32>,
        collection_complete: bool,
    },
    Type0LegacyServer {
        timestamp: u64,
        agent_version: u32,
        reason: u32,
        die_id: u8,
        socket_id: u8,
        completion_status: u32,
        collection_complete: bool,
    },
}

impl View for HeaderType {
    type V = HeaderTypeV;

    open spec fn view(&self) -> HeaderTypeV {
        match self {
            HeaderType::Type0 => HeaderTypeV::Type0,
            HeaderType::Type1 => HeaderTypeV::Type1,
            HeaderType::Type2 { timestamp, agent_version, reason } => HeaderTypeV::Type2 {
                timestamp: *timestamp,
                agent_version: *agent_version,
                reason: *reason,
            },
            HeaderType::Type3 {
                timestamp,
                agent_version,
                reason,
                completion_status,
                collection_complete,
            } => HeaderTypeV::Type3 {
                timestamp: *timestamp,
                agent_version: *agent_version,
                reason: *reason,
                completion_status: *completion_status,
                collection_complete: *collection_complete,
            },
            HeaderType::Type4 { timestamp, agent_version, reason, whoami, misc } => {
                HeaderTypeV::Type4 {
                    timestamp: *timestamp,
                    agent_version: *agent_version,
                    reason: *reason,
                    whoami: *whoami,
                    misc: *misc,
                }
            },
            HeaderType::Type5 {
                timestamp,
                agent_version,
                reason,
                completion_status,
                collection_complete,
                error_status,
            } => HeaderTypeV::Type5 {
                timestamp: *timestamp,
                agent_version: *agent_version,
                reason: *reason,
                completion_status: *completion_status,
                collection_complete: *collection_complete,
                error_status: *error_status,
            },
            HeaderType::Type6 {
                timestamp,
                agent_version,
                reason,
                die_id,
                socket_id,
                completion_status_size,
                completion_status,
                collection_complete,
            } => HeaderTypeV::Type6 {
                timestamp: *timestamp,
                agent_version: *agent_version,
                reason: *reason,
                die_id: *die_id,
                socket_id: *socket_id,
                completion_status_size: *completion_status_size,
                completion_status: completion_status@,
                collection_complete: *collection_complete,
            },
            HeaderType::Type0LegacyServer {
                timestamp,
                agent_version,
                reason,
                die_id,
                socket_id,
                completion_status,
                collection_complete,
            } => HeaderTypeV::Type0LegacyServer {
                timestamp: *timestamp,
                agent_version: *agent_version,
                reason: *reason,
                die_id: *die_id,
                socket_id: *socket_id,
                completion_status: *completion_status,
                collection_complete: *collection_complete,
            },
        }
    }
}

/// Number of completion status dwords declared at bytes 24..28 of a
/// Type6 header.
pub open spec fn spec_type6_cs_size(s: Seq<u8>) -> u16 {
    le16(s, 26) & 0x7F
}

impl HeaderTypeV {
    /// Fields of a Type2 header as laid out in the raw bytes.
    pub open spec fn spec_type2(s: Seq<u8>) -> HeaderTypeV {
        HeaderTypeV::Type2 {
            timestamp: le64(s, 8),
            agent_version: le32(s, 16),
            reason: le32(s, 20),
        }
    }

    /// Fields of a Type3 header as laid out in the raw bytes.
    pub open spec fn spec_type3(s: Seq<u8>) -> HeaderTypeV {
        HeaderTypeV::Type3 {
            timestamp: le64(s, 8),
            agent_version: le32(s, 16),
            reason: le32(s, 20),
            completion_status: le32(s, 24) & 0x7FFFFFFF,
            collection_complete: (le32(s, 24) >> 31) != 0,
        }
    }

    /// Fields of a Type4 header as laid out in the raw bytes.
    pub open spec fn spec_type4(s: Seq<u8>) -> HeaderTypeV {
        HeaderTypeV::Type4 {
            timestamp: le64(s, 8),
            agent_version: le32(s, 16),
            reason: le32(s, 20),
            whoami: le32(s, 24),
            misc: le32(s, 28),
        }
    }

    /// Fields of a Type5 header as laid out in the raw bytes.
    pub open spec fn spec_type5(s: Seq<u8>) -> HeaderTypeV {
        HeaderTypeV::Type5 {
            timestamp: le64(s, 8),
            agent_version: le32(s, 16),
            reason: le32(s, 20),
            completion_status: le32(s, 24) & 0x7FFFFFFF,
            collection_complete: (le32(s, 24) >> 31) != 0,
            error_status: le32(s, 28),
        }
    }

    /// Fields of a Type6 header as laid out in the raw bytes.
    pub open spec fn spec_type6(s: Seq<u8>) -> HeaderTypeV {
        HeaderTypeV::Type6 {
            timestamp: le64(s, 8),
            agent_version: le32(s, 16),
            reason: le32(s, 20),
            die_id: s[24],
            socket_id: s[25],
            completion_status_size: spec_type6_cs_size(s),
            completion_status: Seq::new(
                spec_type6_cs_size(s) as nat,
                |i: int| le32(s, 28 + 4 * i),
            ),
            collection_complete: (s[27] & 0x80) != 0,
        }
    }

    /// Fields of a legacy server Type0 header as laid out in the raw
    /// bytes. The die identifier is derived from the low bits of byte 0.
    pub open spec fn spec_type0_legacy_server(s: Seq<u8>) -> HeaderTypeV {
        HeaderTypeV::Type0LegacyServer {
            timestamp: le64(s, 8),
            agent_version: le32(s, 20),
            reason: le32(s, 4),
            die_id: spec_legacy_die_id(s[0]),
            socket_id: s[24],
            completion_status: le32(s, 28) & 0x7FFFFFFF,
            collection_complete: (le32(s, 28) >> 31) != 0,
        }
    }
}

/// Die identifier encoded in byte 0 of a legacy server Type0 header:
/// compute dies are numbered in steps of four, I/O dies start at nine.
pub open spec fn spec_legacy_die_id(b: u8) -> u8 {
    if (b >> 7) & 1 == 1 {
        ((b & 0x3) + 9) as u8
    } else {
        ((b & 0x3) << 2) as u8
    }
}

impl HeaderType {
    /// Decodes the per-type fields of an ordinary header.
    /// `Err(InvalidHeader)` when the slice is shorter than the layout of
    /// the detected type, `Err(InvalidHeaderType)` for a type outside 0..7.
    pub fn from_slice(header_type_value: u16, slice: &[u8]) -> (r: Result<HeaderType, Error>)
        ensures
            match r {
                Ok(h) => spec_header_type_result(header_type_value, slice@) == Ok::<
                    HeaderTypeV,
                    Error,
                >(h@),
                Err(e) => spec_header_type_result(header_type_value, slice@) == Err::<
                    HeaderTypeV,
                    Error,
                >(e),
            },
    {
        let slen: usize = slice.len();
        match header_type_value {
            0 => Ok(HeaderType::Type0),
            1 => Ok(HeaderType::Type1),
            2 => {
                if slen < 24 {
                    Err(Error::InvalidHeader)
                } else {
                    Ok(HeaderType::Type2 {
                        timestamp: read_u64(slice, 8),
                        agent_version: read_u32(slice, 16),
                        reason: read_u32(slice, 20),
                    })
                }
            },
            3 => {
                if slen < 28 {
                    Err(Error::InvalidHeader)
                } else {
                    let cs_data = read_u32(slice, 24);
                    Ok(HeaderType::Type3 {
                        timestamp: read_u64(slice, 8),
                        agent_version: read_u32(slice, 16),
                        reason: read_u32(slice, 20),
                        completion_status: cs_data & 0x7FFFFFFF,
                        collection_complete: (cs_data >> 31) != 0,
                    })
                }
            },
            4 => {
                if slen < 32 {
                    Err(Error::InvalidHeader)
                } else {
                    Ok(HeaderType::Type4 {
                        timestamp: read_u64(slice, 8),
                        agent_version: read_u32(slice, 16),
                        reason: read_u32(slice, 20),
                        whoami: read_u32(slice, 24),
                        misc: read_u32(slice, 28),
                    })
                }
            },
            5 => {
                if slen < 32 {
                    Err(Error::InvalidHeader)
                } else {
                    let cs_data = read_u32(slice, 24);
                    Ok(HeaderType::Type5 {
                        timestamp: read_u64(slice, 8),
                        agent_version: read_u32(slice, 16),
                        reason: read_u32(slice, 20),
                        completion_status: cs_data & 0x7FFFFFFF,
                        collection_complete: (cs_data >> 31) != 0,
                        error_status: read_u32(slice, 28),
                    })
                }
            },
            6 => Self::type6_from_slice(slice),
            type_value => Err(Error::InvalidHeaderType(type_value)),
        }
    }

    fn type6_from_slice(slice: &[u8]) -> (r: Result<HeaderType, Error>)
        ensures
            match r {
                Ok(h) => spec_header_type_result(6, slice@) == Ok::<HeaderTypeV, Error>(h@),
                Err(e) => spec_header_type_result(6, slice@) == Err::<HeaderTypeV, Error>(e),
            },
    {
        let slen: usize = slice.len();
        if slen < 28 {
            return Err(Error::InvalidHeader);
        }
        let raw = read_u16(slice, 26);
        let cs_size = raw & 0x7F;
        proof {
            assert(raw & 0x7F <= 0x7F) by (bit_vector);
        }
        if slen < 28 + 4 * (cs_size as usize) {
            return Err(Error::InvalidHeader);
        }
        let mut completion_status: Vec<u32> = Vec::new();
        let mut dword: usize = 0;
        while dword < cs_size as usize
            invariant
                cs_size <= 0x7F,
                dword <= cs_size as usize,
                slen == slice@.len(),
                slen >= 28 + 4 * cs_size,
                completion_status@ =~= Seq::new(
                    dword as nat,
                    |i: int| le32(slice@, 28 + 4 * i),
                ),
            decreases cs_size as usize - dword,
        {
            completion_status.push(read_u32(slice, 28 + 4 * dword));
            dword += 1;
        }
        Ok(HeaderType::Type6 {
            timestamp: read_u64(slice, 8),
            agent_version: read_u32(slice, 16),
            reason: read_u32(slice, 20),
            die_id: read_u8(slice, 24),
            socket_id: read_u8(slice, 25),
            completion_status_size: cs_size,
            completion_status,
            collection_complete: (read_u8(slice, 27) & 0x80) != 0,
        })
    }

    /// Decodes the per-type fields of a legacy server Type0 header.
    pub fn from_slice_type0_legacy_server(slice: &[u8]) -> (r: Result<HeaderType, Error>)
        ensures
            slice@.len() >= 32 ==> (r matches Ok(h)
                && h@ == HeaderTypeV::spec_type0_legacy_server(slice@)),
            slice@.len() < 32 ==> (r matches Err(e) && e is InvalidHeader),
    {
        let slen: usize = slice.len();
        if slen < 32 {
            return Err(Error::InvalidHeader);
        }
        let b0 = read_u8(slice, 0);
        let die_idx = b0 & 0x3;
        proof {
            assert(b0 & 0x3 <= 3) by (bit_vector);
        }
        let die_id = if ((b0 >> 7) & 1) == 1 {
            die_idx + 9
        } else {
            die_idx << 2
        };
        proof {
            assert(die_id == spec_legacy_die_id(b0)) by (bit_vector)
                requires
                    die_idx == b0 & 0x3,
                    die_id == if ((b0 >> 7) & 1) == 1 {
                        (die_idx + 9) as u8
                    } else {
                        (die_idx << 2) as u8
                    },
            ;
        }
        let cs_data = read_u32(slice, 28);
        Ok(HeaderType::Type0LegacyServer {
            timestamp: read_u64(slice, 8),
            agent_version: read_u32(slice, 20),
            reason: read_u32(slice, 4),
            die_id,
            socket_id: read_u8(slice, 24),
            completion_status: cs_data & 0x7FFFFFFF,
            collection_complete: (cs_data >> 31) != 0,
        })
    }
}

/// What decoding the per-type fields of an ordinary header yields on
/// the raw bytes `s`.
pub open spec fn spec_header_type_result(ht: u16, s: Seq<u8>) -> Result<HeaderTypeV, Error> {
    if ht == 0 {
        Ok(HeaderTypeV::Type0)
    } else if ht == 1 {
        Ok(HeaderTypeV::Type1)
    } else if ht == 2 {
        if s.len() < 24 {
            Err(Error::InvalidHeader)
        } else {
            Ok(HeaderTypeV::spec_type2(s))
        }
    } else if ht == 3 {
        if s.len() < 28 {
            Err(Error::InvalidHeader)
        } else {
            Ok(HeaderTypeV::spec_type3(s))
        }
    } else if ht == 4 {
        if s.len() < 32 {
            Err(Error::InvalidHeader)
        } else {
            Ok(HeaderTypeV::spec_type4(s))
        }
    } else if ht == 5 {
        if s.len() < 32 {
            Err(Error::InvalidHeader)
        } else {
            Ok(HeaderTypeV::spec_type5(s))
        }
    } else if ht == 6 {
        if s.len() < 28 || s.len() < 28 + 4 * (spec_type6_cs_size(s) as int) {
            Err(Error::InvalidHeader)
        } else {
            Ok(HeaderTypeV::spec_type6(s))
        }
    } else {
        Err(Error::InvalidHeaderType(ht))
    }
}


impl Default for HeaderType {
    /// Headers default to the fixed-size Type1 layout.
    fn default() -> (h: HeaderType)
        ensures
            h@ == HeaderTypeV::Type1,
    {
        HeaderType::Type1
    }
}

/// Header of a Crash Log record.
#[derive(Debug, PartialEq)]
pub struct Header {
    /// Version ID.
    pub version: Version,
    /// Size of the record.
    pub size: RecordSize,
    /// Optional fields.
    pub header_type: HeaderType,
}

/// Mathematical mirror of [`Header`].
pub ghost struct HeaderV {
    pub version: Version,
    pub size: RecordSize,
    pub header_type: HeaderTypeV,
}

impl View for Header {
    type V = HeaderV;

    open spec fn view(&self) -> HeaderV {
        HeaderV { version: self.version, size: self.size, header_type: self.header_type@ }
    }
}

impl HeaderV {
    /// Granularity of the record size fields in bytes.
    pub open spec fn spec_granularity(self) -> int {
        if Errata::spec_from_version(self.version).core_record_size_bytes {
            1
        } else {
            4
        }
    }

    /// Total declared size of the record in bytes.
    pub open spec fn spec_record_size(self) -> int {
        (self.size.record_size + self.size.extended_record_size) * self.spec_granularity()
    }

    /// Size in bytes of the header itself.
    pub open spec fn spec_header_size(self) -> int {
        match self.header_type {
            HeaderTypeV::Type0 => 8,
            HeaderTypeV::Type1 => 8,
            HeaderTypeV::Type2 { .. } => 24,
            HeaderTypeV::Type3 { .. } => 28,
            HeaderTypeV::Type4 { .. } => 32,
            HeaderTypeV::Type5 { .. } => 32,
            HeaderTypeV::Type6 { completion_status_size, .. } => 28 + 4 * completion_status_size,
            HeaderTypeV::Type0LegacyServer { .. } => 32,
        }
    }
}

/// What decoding a record header yields on the raw bytes `s`: `None` for
/// a termination marker, the header fields once every read is in bounds,
/// and the error of the first check that fails otherwise.
pub open spec fn spec_header_from_slice(s: Seq<u8>) -> Result<Option<HeaderV>, Error> {
    if spec_is_terminator(s) {
        Ok(None)
    } else {
        let v = Version::spec_from_u32(le32(s, 0));
        let e = Errata::spec_from_version(v);
        if e.type0_legacy_server {
            if s.len() < 32 {
                Err(Error::InvalidHeader)
            } else {
                Ok(
                    Some(
                        HeaderV {
                            version: v,
                            size: RecordSize::spec_from_slice_type0_legacy_server(s),
                            header_type: HeaderTypeV::spec_type0_legacy_server(s),
                        },
                    ),
                )
            }
        } else if s.len() < 8 {
            Err(Error::InvalidHeader)
        } else {
            match spec_header_type_result(v.header_type, s) {
                Ok(ht) => Ok(
                    Some(
                        HeaderV {
                            version: v,
                            size: RecordSize::spec_from_slice(s),
                            header_type: ht,
                        },
                    ),
                ),
                Err(err) => Err(err),
            }
        }
    }
}

impl Header {
    /// Decodes the header of a raw Crash Log record. `Ok(None)` for a
    /// termination marker.
    pub fn from_slice(slice: &[u8]) -> (r: Result<Option<Header>, Error>)
        ensures
            match r {
                Ok(None) => spec_header_from_slice(slice@) == Ok::<Option<HeaderV>, Error>(None),
                Ok(Some(h)) => spec_header_from_slice(slice@) == Ok::<Option<HeaderV>, Error>(
                    Some(h@),
                ),
                Err(e) => spec_header_from_slice(slice@) == Err::<Option<HeaderV>, Error>(e),
            },
    {
        let version = match Version::from_slice(slice) {
            None => {
                return Ok(None);
            },
            Some(v) => v,
        };
        let errata = Errata::from_version(&version);
        if errata.type0_legacy_server {
            let size = match RecordSize::from_slice_type0_legacy_server(slice) {
                None => {
                    return Err(Error::InvalidHeader);
                },
                Some(z) => z,
            };
            let header_type = match HeaderType::from_slice_type0_legacy_server(slice) {
                Err(e) => {
                    return Err(e);
                },
                Ok(ht) => ht,
            };
            Ok(Some(Header { version, size, header_type }))
        } else {
            let size = match RecordSize::from_slice(slice) {
                None => {
                    return Err(Error::InvalidHeader);
                },
                Some(z) => z,
            };
            let header_type = match HeaderType::from_slice(version.header_type, slice) {
                Err(e) => {
                    return Err(e);
                },
                Ok(ht) => ht,
            };
            Ok(Some(Header { version, size, header_type }))
        }
    }

    /// Granularity of the record size fields in bytes: one byte for the
    /// core-record erratum, four bytes (dwords) otherwise.
    pub open spec fn spec_granularity(self) -> int {
        self@.spec_granularity()
    }

    /// Returns the granularity of the record size fields in bytes.
    pub fn record_size_granularity(&self) -> (g: usize)
        ensures
            g == self.spec_granularity(),
    {
        if self.version.into_errata().core_record_size_bytes {
            return 1;
        }
        4
    }

    /// Total size of the record in bytes, main and extended sections
    /// together.
    pub open spec fn spec_record_size(self) -> int {
        self@.spec_record_size()
    }

    /// Returns the size of the record in bytes.
    pub fn record_size(&self) -> (n: usize)
        ensures
            n == self.spec_record_size(),
    {
        (self.size.record_size as usize + self.size.extended_record_size as usize)
            * self.record_size_granularity()
    }

    /// Byte offset of the extended record section, when one is declared.
    /// The extended section is positioned by the main record's declared
    /// length, not by where the header ends.
    pub open spec fn spec_extended_record_offset(self) -> Option<int> {
        if self.size.extended_record_size > 0 {
            Some(self.size.record_size * self.spec_granularity())
        } else {
            None
        }
    }

    /// Returns the offset of the extended record in bytes if present.
    pub fn extended_record_offset(&self) -> (r: Option<usize>)
        ensures
            match r {
                Some(off) => self.spec_extended_record_offset() == Some(off as int),
                None => self.spec_extended_record_offset() is None,
            },
    {
        if self.size.extended_record_size > 0 {
            Some(self.size.record_size as usize * self.record_size_granularity())
        } else {
            None
        }
    }

    /// Returns the revision of the record.
    pub fn revision(&self) -> (r: u32)
        ensures
            r == self.version.revision,
    {
        self.version.revision
    }

    /// Returns the product ID of the record.
    pub fn product_id(&self) -> (p: u32)
        ensures
            p == self.version.product_id,
    {
        self.version.product_id
    }

    /// Socket that generated the record: zero unless the header layout
    /// carries one.
    pub open spec fn spec_socket_id(self) -> u8 {
        match self.header_type@ {
            HeaderTypeV::Type6 { socket_id, .. } => socket_id,
            HeaderTypeV::Type0LegacyServer { socket_id, .. } => socket_id,
            _ => 0u8,
        }
    }

    /// Returns the ID of the socket that generated the record.
    pub fn socket_id(&self) -> (r: u8)
        ensures
            r == self.spec_socket_id(),
    {
        match self.header_type {
            HeaderType::Type6 { socket_id, .. } => socket_id,
            HeaderType::Type0LegacyServer { socket_id, .. } => socket_id,
            _ => 0,
        }
    }

    /// Die that generated the record, when the header layout carries one.
    pub open spec fn spec_die_id(self) -> Option<u8> {
        match self.header_type@ {
            HeaderTypeV::Type6 { die_id, .. } => Some(die_id),
            HeaderTypeV::Type0LegacyServer { die_id, .. } => Some(die_id),
            _ => None,
        }
    }

    /// Returns the ID of the die that generated the record.
    pub fn die_id(&self) -> (r: Option<u8>)
        ensures
            r == self.spec_die_id(),
    {
        match self.header_type {
            HeaderType::Type6 { die_id, .. } => Some(die_id),
            HeaderType::Type0LegacyServer { die_id, .. } => Some(die_id),
            _ => None,
        }
    }

    /// Size in bytes of the header itself, fixed by the layout; a Type6
    /// header grows with its completion status dwords.
    pub open spec fn spec_header_size(self) -> int {
        self@.spec_header_size()
    }

    /// Returns the size of the header in bytes.
    pub fn header_size(&self) -> (n: usize)
        ensures
            n == self.spec_header_size(),
    {
        match self.header_type {
            HeaderType::Type0 | HeaderType::Type1 => 8,
            HeaderType::Type2 { .. } => 24,
            HeaderType::Type3 { .. } => 28,
            HeaderType::Type4 { .. } => 32,
            HeaderType::Type5 { .. } => 32,
            HeaderType::Type6 { completion_status_size, .. } => 28 + (
            completion_status_size as usize) * 4,
            HeaderType::Type0LegacyServer { .. } => 32,
        }
    }

    /// Returns the type of the record as its fixed symbolic name.
    pub fn record_type(&self) -> (r: Result<&'static str, Error>)
        ensures
            match r {
                Ok(name) => spec_record_type_known(self.version.record_type) && name@
                    == spec_record_type_name(self.version.record_type),
                Err(e) => !spec_record_type_known(self.version.record_type) && e
                    == Error::InvalidRecordType(self.version.record_type),
            },
    {
        self.version.record_type_as_str()
    }
}

impl Default for Header {
    /// An all-zero version word over the default Type1 layout.
    fn default() -> (h: Header)
        ensures
            h@ == (HeaderV {
                version: Version::spec_from_u32(0),
                size: RecordSize { record_size: 0u16, extended_record_size: 0u16 },
                header_type: HeaderTypeV::Type1,
            }),
    {
        Header {
            version: Version::default(),
            size: RecordSize::default(),
            header_type: HeaderType::default(),
        }
    }
}

/// Whether the record type is one of the fixed symbolic set.
pub open spec fn spec_record_type_known(rt: u8) -> bool {
    rt == PMC || rt == PMC_FW_TRACE || rt == PUNIT || rt == PCORE || rt == ECORE || rt == UNCORE
        || rt == PMC_TRACE || rt == TCSS || rt == PMC_RST || rt == PCODE || rt == CRASHLOG_AGENT
        || rt == BOX || rt == MCA
}

/// The symbolic name of a known record type.
pub open spec fn spec_record_type_name(rt: u8) -> Seq<char> {
    if rt == PMC {
        "PMC"@
    } else if rt == PMC_FW_TRACE {
        "PMC_FW_Trace"@
    } else if rt == PUNIT {
        "Punit"@
    } else if rt == PCORE {
        "PCORE"@
    } else if rt == ECORE {
        "ECORE"@
    } else if rt == UNCORE {
        "UNCORE"@
    } else if rt == PMC_TRACE {
        "PMC_TRACE"@
    } else if rt == TCSS {
        "TCSS"@
    } else if rt == PMC_RST {
        "PMC_RST"@
    } else if rt == PCODE {
        "PCODE"@
    } else if rt == CRASHLOG_AGENT {
        "CRASHLOG_AGENT"@
    } else if rt == BOX {
        "BOX"@
    } else if rt == MCA {
        "MCA"@
    } else {
        Seq::<char>::empty()
    }
}

impl Version {
    /// The symbolic name of the record type carried in this version word.
    pub fn record_type_as_str(&self) -> (r: Result<&'static str, Error>)
        ensures
            match r {
                Ok(name) => spec_record_type_known(self.record_type) && name@
                    == spec_record_type_name(self.record_type),
                Err(e) => !spec_record_type_known(self.record_type) && e
                    == Error::InvalidRecordType(self.record_type),
            },
    {
        match self.record_type {
            PMC => Ok("PMC"),
            PMC_FW_TRACE => Ok("PMC_FW_Trace"),
            PUNIT => Ok("Punit"),
            PCORE => Ok("PCORE"),
            ECORE => Ok("ECORE"),
            UNCORE => Ok("UNCORE"),
            PMC_TRACE => Ok("PMC_TRACE"),
            TCSS => Ok("TCSS"),
            PMC_RST => Ok("PMC_RST"),
            PCODE => Ok("PCODE"),
            CRASHLOG_AGENT => Ok("CRASHLOG_AGENT"),
            BOX => Ok("BOX"),
            MCA => Ok("MCA"),
            rt => Err(Error::InvalidRecordType(rt)),
        }
    }
}

} // verus!
