//! UEFI CPER record header codec.

use crate::cper::revision::{spec_enc_revision, spec_revision_at, Revision};
use crate::cper::utils::{bin_to_bcd, spec_bin_to_bcd};
use crate::guid::{
    guid_at, guid_bytes, lemma_guid_at_bytes, lemma_guid_roundtrip, spec_creator_lcf, Guid,
};
use crate::metadata;
use crate::wire::{le16, le32, le64, read_u16, read_u32, read_u64, read_u8, push_u16, push_u32, push_u64};
use vstd::bytes::{
    lemma_auto_spec_u16_to_from_le_bytes, lemma_auto_spec_u32_to_from_le_bytes,
    lemma_auto_spec_u64_to_from_le_bytes, spec_u16_to_le_bytes, spec_u32_to_le_bytes,
    spec_u64_to_le_bytes,
};
use vstd::prelude::*;

verus! {

/// Size in bytes of the fixed CPER record header.
pub const RECORD_HEADER_SIZE: usize = 128;

// Validation bits of the CPER record header.
pub const VALID_PLATFORM_ID: u32 = 1;
pub const VALID_TIMESTAMP: u32 = 2;
pub const VALID_PARTITION_ID: u32 = 4;

/// Severity of a CPER record.
#[derive(Debug, Clone, Copy, PartialEq, Eq, Structural)]
pub enum ErrorSeverity {
    Recoverable,
    Fatal,
    Corrected,
    Informational,
}

impl ErrorSeverity {
    /// The wire value of the severity.
    pub open spec fn spec_as_u32(self) -> u32 {
        match self {
            ErrorSeverity::Recoverable => 0u32,
            ErrorSeverity::Fatal => 1u32,
            ErrorSeverity::Corrected => 2u32,
            ErrorSeverity::Informational => 3u32,
        }
    }

    /// The severity of a wire value; everything unknown reads as
    /// informational.
    pub open spec fn spec_from_u32(v: u32) -> ErrorSeverity {
        if v == 0 {
            ErrorSeverity::Recoverable
        } else if v == 1 {
            ErrorSeverity::Fatal
        } else if v == 2 {
            ErrorSeverity::Corrected
        } else {
            ErrorSeverity::Informational
        }
    }

    /// Encodes the severity.
    pub fn as_u32(&self) -> (r: u32)
        ensures
            r == self.spec_as_u32(),
    {
        match self {
            ErrorSeverity::Recoverable => 0,
            ErrorSeverity::Fatal => 1,
            ErrorSeverity::Corrected => 2,
            ErrorSeverity::Informational => 3,
        }
    }

    /// Decodes a severity.
    pub fn from_u32(v: u32) -> (r: ErrorSeverity)
        ensures
            r == ErrorSeverity::spec_from_u32(v),
    {
        if v == 0 {
            ErrorSeverity::Recoverable
        } else if v == 1 {
            ErrorSeverity::Fatal
        } else if v == 2 {
            ErrorSeverity::Corrected
        } else {
            ErrorSeverity::Informational
        }
    }
}

/// Timestamp field of the CPER header, in BCD.
#[derive(Debug, Clone, Copy, PartialEq, Eq, Structural)]
pub struct Timestamp {
    pub seconds: u8,
    pub minutes: u8,
    pub hours: u8,
    pub precise: bool,
    pub day: u8,
    pub month: u8,
    pub year: u8,
    pub century: u8,
}

impl Default for Timestamp {
    /// The all-zero timestamp.
    fn default() -> (t: Timestamp)
        ensures
            t == (Timestamp {
                seconds: 0u8,
                minutes: 0u8,
                hours: 0u8,
                precise: false,
                day: 0u8,
                month: 0u8,
                year: 0u8,
                century: 0u8,
            }),
    {
        Timestamp::zero()
    }
}

/// The eight bytes that encode `t`.
pub open spec fn spec_enc_timestamp(t: Timestamp) -> Seq<u8> {
    seq![
        t.seconds,
        t.minutes,
        t.hours,
        if t.precise {
            1u8
        } else {
            0u8
        },
        t.day,
        t.month,
        t.year,
        t.century,
    ]
}

/// The timestamp encoded by the eight bytes of `s` at `off`.
pub open spec fn spec_timestamp_at(s: Seq<u8>, off: int) -> Timestamp {
    Timestamp {
        seconds: s[off],
        minutes: s[off + 1],
        hours: s[off + 2],
        precise: s[off + 3] & 1 != 0,
        day: s[off + 4],
        month: s[off + 5],
        year: s[off + 6],
        century: s[off + 7],
    }
}

impl Timestamp {
    /// An all-zero timestamp.
    pub fn zero() -> (t: Timestamp)
        ensures
            t == (Timestamp {
                seconds: 0u8,
                minutes: 0u8,
                hours: 0u8,
                precise: false,
                day: 0u8,
                month: 0u8,
                year: 0u8,
                century: 0u8,
            }),
    {
        Timestamp {
            seconds: 0,
            minutes: 0,
            hours: 0,
            precise: false,
            day: 0,
            month: 0,
            year: 0,
            century: 0,
        }
    }

    /// The BCD timestamp of an extraction time: seconds zero, not
    /// precise.
    pub open spec fn spec_from_time(time: metadata::Time) -> Timestamp {
        Timestamp {
            seconds: 0u8,
            minutes: spec_bin_to_bcd(time.minute),
            hours: spec_bin_to_bcd(time.hour),
            precise: false,
            day: spec_bin_to_bcd(time.day),
            month: spec_bin_to_bcd(time.month),
            year: spec_bin_to_bcd((time.year % 100) as u8),
            century: spec_bin_to_bcd((time.year / 100) as u8),
        }
    }

    /// Converts an extraction time into the BCD timestamp of a CPER
    /// header.
    pub fn from_crashlog_metadata(time: &metadata::Time) -> (t: Timestamp)
        ensures
            t == Timestamp::spec_from_time(*time),
    {
        Timestamp {
            seconds: 0,
            minutes: bin_to_bcd(time.minute),
            hours: bin_to_bcd(time.hour),
            precise: false,
            day: bin_to_bcd(time.day),
            month: bin_to_bcd(time.month),
            year: bin_to_bcd((time.year % 100) as u8),
            century: bin_to_bcd((time.year / 100) as u8),
        }
    }

    /// Reads the timestamp stored at `off`.
    pub fn read(s: &[u8], off: usize) -> (t: Timestamp)
        requires
            off + 8 <= s@.len(),
        ensures
            t == spec_timestamp_at(s@, off as int),
    {
        let slen: usize = s.len();
        Timestamp {
            seconds: read_u8(s, off),
            minutes: read_u8(s, off + 1),
            hours: read_u8(s, off + 2),
            precise: read_u8(s, off + 3) & 1 != 0,
            day: read_u8(s, off + 4),
            month: read_u8(s, off + 5),
            year: read_u8(s, off + 6),
            century: read_u8(s, off + 7),
        }
    }

    /// Creates a [`Timestamp`] from the first eight bytes of a slice.
    pub fn from_slice(s: &[u8]) -> (r: Option<Timestamp>)
        ensures
            r matches Some(t) <==> s@.len() >= 8,
            r matches Some(t) ==> t == spec_timestamp_at(s@, 0),
    {
        let slen: usize = s.len();
        if slen < 8 {
            return None;
        }
        Some(Timestamp::read(s, 0))
    }

    /// Appends the eight bytes of this timestamp to `out`.
    pub fn push_to(&self, out: &mut Vec<u8>)
        ensures
            final(out)@ == old(out)@ + spec_enc_timestamp(*self),
    {
        let ghost pre = out@;
        out.push(self.seconds);
        out.push(self.minutes);
        out.push(self.hours);
        out.push(
            if self.precise {
                1
            } else {
                0
            },
        );
        out.push(self.day);
        out.push(self.month);
        out.push(self.year);
        out.push(self.century);
        proof {
            assert(out@ =~= pre + spec_enc_timestamp(*self));
        }
    }

    /// Serializes the timestamp.
    pub fn to_bytes(&self) -> (b: Vec<u8>)
        ensures
            b@ == spec_enc_timestamp(*self),
    {
        let mut out: Vec<u8> = Vec::new();
        self.push_to(&mut out);
        proof {
            assert(out@ =~= spec_enc_timestamp(*self));
        }
        out
    }
}

/// A timestamp survives its own encoding.
pub proof fn lemma_timestamp_roundtrip(t: Timestamp)
    ensures
        spec_enc_timestamp(t).len() == 8,
        spec_timestamp_at(spec_enc_timestamp(t), 0) == t,
{
    let e = spec_enc_timestamp(t);
    if t.precise {
        assert(1u8 & 1 != 0) by (bit_vector);
    } else {
        assert(0u8 & 1 == 0) by (bit_vector);
    }
    assert(spec_timestamp_at(e, 0) == t);
}

/// UEFI CPER record header.
#[derive(Debug, Clone, Copy, PartialEq)]
pub struct CperHeader {
    pub revision: Revision,
    pub section_count: u16,
    pub error_severity: ErrorSeverity,
    pub validation_bits: u32,
    pub record_length: u32,
    pub timestamp: Option<Timestamp>,
    pub platform_id: Option<Guid>,
    pub partition_id: Option<Guid>,
    pub creator_id: Guid,
    pub notification_type: Guid,
    pub record_id: u64,
    pub flags: u32,
    pub persistence_information: u64,
}

/// The timestamp bytes of a header: the encoded timestamp when one is
/// present, zeros otherwise.
pub open spec fn spec_ts_bytes(t: Option<Timestamp>) -> Seq<u8> {
    match t {
        Some(ts) => spec_enc_timestamp(ts),
        None => Seq::new(8, |i: int| 0u8),
    }
}

/// The bytes of an optional GUID: the encoded GUID when present, zeros
/// otherwise.
pub open spec fn spec_opt_guid_bytes(g: Option<Guid>) -> Seq<u8> {
    match g {
        Some(guid) => guid_bytes(guid),
        None => Seq::new(16, |i: int| 0u8),
    }
}

/// The 128 bytes that encode a CPER record header.
pub open spec fn spec_enc_cper_header(h: CperHeader) -> Seq<u8> {
    seq![0x43u8, 0x50u8, 0x45u8, 0x52u8] + spec_enc_revision(h.revision) + seq![
        0xFFu8,
        0xFFu8,
        0xFFu8,
        0xFFu8,
    ] + spec_u16_to_le_bytes(h.section_count) + spec_u32_to_le_bytes(
        h.error_severity.spec_as_u32(),
    ) + spec_u32_to_le_bytes(h.validation_bits) + spec_u32_to_le_bytes(h.record_length)
        + spec_ts_bytes(h.timestamp) + spec_opt_guid_bytes(h.platform_id) + spec_opt_guid_bytes(
        h.partition_id,
    ) + guid_bytes(h.creator_id) + guid_bytes(h.notification_type) + spec_u64_to_le_bytes(
        h.record_id,
    ) + spec_u32_to_le_bytes(h.flags) + spec_u64_to_le_bytes(h.persistence_information) + Seq::new(
        12,
        |i: int| 0u8,
    )
}

/// Whether the bytes of `s` lead with a well-formed CPER header: the
/// `CPER` signature, the end-of-signature marker, and enough bytes for
/// every fixed field.
pub open spec fn spec_cper_header_ok(s: Seq<u8>) -> bool {
    s.len() >= 116 && s[0] == 0x43u8 && s[1] == 0x50u8 && s[2] == 0x45u8 && s[3] == 0x52u8
        && s[6] == 0xFFu8 && s[7] == 0xFFu8 && s[8] == 0xFFu8 && s[9] == 0xFFu8
}

/// The header fields read from the bytes of `s`: optional fields are
/// present exactly when their validation bit is set.
pub open spec fn spec_parse_cper_header(s: Seq<u8>) -> CperHeader {
    let validation_bits = le32(s, 16);
    CperHeader {
        revision: spec_revision_at(s, 4),
        section_count: le16(s, 10),
        error_severity: ErrorSeverity::spec_from_u32(le32(s, 12)),
        validation_bits: validation_bits,
        record_length: le32(s, 20),
        timestamp: if validation_bits & VALID_TIMESTAMP != 0 {
            Some(spec_timestamp_at(s, 24))
        } else {
            None
        },
        platform_id: if validation_bits & VALID_PLATFORM_ID != 0 {
            Some(guid_at(s, 32))
        } else {
            None
        },
        partition_id: if validation_bits & VALID_PARTITION_ID != 0 {
            Some(guid_at(s, 48))
        } else {
            None
        },
        creator_id: guid_at(s, 64),
        notification_type: guid_at(s, 80),
        record_id: le64(s, 96),
        flags: le32(s, 104),
        persistence_information: le64(s, 108),
    }
}

impl CperHeader {
    /// Validation bits match exactly which optional fields are present.
    pub open spec fn wf(self) -> bool {
        self.validation_bits == (if self.platform_id is Some {
            VALID_PLATFORM_ID
        } else {
            0u32
        }) | (if self.timestamp is Some {
            VALID_TIMESTAMP
        } else {
            0u32
        }) | (if self.partition_id is Some {
            VALID_PARTITION_ID
        } else {
            0u32
        })
    }

    /// An empty informational header: no sections, the default creator.
    pub fn new() -> (h: CperHeader)
        ensures
            h == (CperHeader {
                revision: Revision { major: 1u8, minor: 1u8 },
                section_count: 0u16,
                error_severity: ErrorSeverity::Informational,
                validation_bits: 0u32,
                record_length: 128u32,
                timestamp: None::<Timestamp>,
                platform_id: None::<Guid>,
                partition_id: None::<Guid>,
                creator_id: spec_creator_lcf(),
                notification_type: Guid { lo: 0u64, hi: 0u64 },
                record_id: 0u64,
                flags: 0u32,
                persistence_information: 0u64,
            }),
    {
        CperHeader {
            revision: Revision::new(1, 1),
            section_count: 0,
            error_severity: ErrorSeverity::Informational,
            validation_bits: 0,
            record_length: 128,
            timestamp: None,
            platform_id: None,
            partition_id: None,
            creator_id: crate::guid::creator_lcf(),
            notification_type: Guid::zero(),
            record_id: 0,
            flags: 0,
            persistence_information: 0,
        }
    }

    /// Parses the CPER header leading a byte slice.
    pub fn from_slice(s: &[u8]) -> (r: Option<CperHeader>)
        ensures
            r matches Some(h) <==> spec_cper_header_ok(s@),
            r matches Some(h) ==> h == spec_parse_cper_header(s@),
    {
        let slen: usize = s.len();
        if slen < 116 {
            return None;
        }
        if !(read_u8(s, 0) == 0x43 && read_u8(s, 1) == 0x50 && read_u8(s, 2) == 0x45 && read_u8(
            s,
            3,
        ) == 0x52) {
            return None;
        }
        if !(read_u8(s, 6) == 0xFF && read_u8(s, 7) == 0xFF && read_u8(s, 8) == 0xFF && read_u8(
            s,
            9,
        ) == 0xFF) {
            return None;
        }
        let validation_bits = read_u32(s, 16);
        Some(
            CperHeader {
                revision: Revision::read(s, 4),
                section_count: read_u16(s, 10),
                error_severity: ErrorSeverity::from_u32(read_u32(s, 12)),
                validation_bits,
                record_length: read_u32(s, 20),
                timestamp: if validation_bits & VALID_TIMESTAMP != 0 {
                    Some(Timestamp::read(s, 24))
                } else {
                    None
                },
                platform_id: if validation_bits & VALID_PLATFORM_ID != 0 {
                    Some(Guid::read(s, 32))
                } else {
                    None
                },
                partition_id: if validation_bits & VALID_PARTITION_ID != 0 {
                    Some(Guid::read(s, 48))
                } else {
                    None
                },
                creator_id: Guid::read(s, 64),
                notification_type: Guid::read(s, 80),
                record_id: read_u64(s, 96),
                flags: read_u32(s, 104),
                persistence_information: read_u64(s, 108),
            },
        )
    }

    /// Recomputes the validation bits from which optional fields are
    /// present.
    pub fn normalize(&mut self)
        ensures
            *final(self) == (CperHeader {
                validation_bits: (if old(self).platform_id is Some {
                    VALID_PLATFORM_ID
                } else {
                    0u32
                }) | (if old(self).timestamp is Some {
                    VALID_TIMESTAMP
                } else {
                    0u32
                }) | (if old(self).partition_id is Some {
                    VALID_PARTITION_ID
                } else {
                    0u32
                }),
                ..*old(self)
            }),
            final(self).wf(),
    {
        let p: u32 = if self.platform_id.is_some() {
            VALID_PLATFORM_ID
        } else {
            0
        };
        let t: u32 = if self.timestamp.is_some() {
            VALID_TIMESTAMP
        } else {
            0
        };
        let q: u32 = if self.partition_id.is_some() {
            VALID_PARTITION_ID
        } else {
            0
        };
        self.validation_bits = p | t | q;
    }

    /// Serializes the CPER header into its 128-byte form; an absent
    /// optional field is written as zeros.
    pub fn to_bytes(&self) -> (b: Vec<u8>)
        ensures
            b@ == spec_enc_cper_header(*self),
            b@.len() == 128,
    {
        let mut out: Vec<u8> = Vec::new();
        out.push(0x43);
        out.push(0x50);
        out.push(0x45);
        out.push(0x52);
        self.revision.push_to(&mut out);
        out.push(0xFF);
        out.push(0xFF);
        out.push(0xFF);
        out.push(0xFF);
        push_u16(&mut out, self.section_count);
        push_u32(&mut out, self.error_severity.as_u32());
        push_u32(&mut out, self.validation_bits);
        push_u32(&mut out, self.record_length);
        match &self.timestamp {
            Some(ts) => ts.push_to(&mut out),
            None => {
                let ghost pre = out@;
                let mut i: usize = 0;
                while i < 8
                    invariant
                        i <= 8,
                        out@ =~= pre + Seq::new(i as nat, |j: int| 0u8),
                    decreases 8 - i,
                {
                    out.push(0);
                    proof {
                        assert(out@ =~= pre + Seq::new((i + 1) as nat, |j: int| 0u8));
                    }
                    i += 1;
                }
            },
        }
        self.push_opt_guid(&mut out, &self.platform_id);
        self.push_opt_guid(&mut out, &self.partition_id);
        self.creator_id.push_to(&mut out);
        self.notification_type.push_to(&mut out);
        push_u64(&mut out, self.record_id);
        push_u32(&mut out, self.flags);
        push_u64(&mut out, self.persistence_information);
        let ghost pre = out@;
        let mut i: usize = 0;
        while i < 12
            invariant
                i <= 12,
                out@ =~= pre + Seq::new(i as nat, |j: int| 0u8),
            decreases 12 - i,
        {
            out.push(0);
            proof {
                assert(out@ =~= pre + Seq::new((i + 1) as nat, |j: int| 0u8));
            }
            i += 1;
        }
        proof {
            lemma_auto_spec_u16_to_from_le_bytes();
            lemma_auto_spec_u32_to_from_le_bytes();
            lemma_auto_spec_u64_to_from_le_bytes();
            lemma_guid_roundtrip(self.creator_id);
            lemma_guid_roundtrip(self.notification_type);
            if self.platform_id is Some {
                lemma_guid_roundtrip(self.platform_id->0);
            }
            if self.partition_id is Some {
                lemma_guid_roundtrip(self.partition_id->0);
            }
            assert(out@ =~= spec_enc_cper_header(*self));
        }
        out
    }

    fn push_opt_guid(&self, out: &mut Vec<u8>, g: &Option<Guid>)
        ensures
            final(out)@ == old(out)@ + spec_opt_guid_bytes(*g),
    {
        match g {
            Some(guid) => guid.push_to(out),
            None => {
                let ghost pre = out@;
                let mut i: usize = 0;
                while i < 16
                    invariant
                        i <= 16,
                        out@ =~= pre + Seq::new(i as nat, |j: int| 0u8),
                    decreases 16 - i,
                {
                    out.push(0);
                    proof {
                        assert(out@ =~= pre + Seq::new((i + 1) as nat, |j: int| 0u8));
                    }
                    i += 1;
                }
                proof {
                    assert(out@ =~= pre + spec_opt_guid_bytes(*g));
                }
            },
        }
    }
}

/// A normalized CPER header survives its own encoding: parsing the 128
/// bytes it serializes to yields the same header, field for field.
pub proof fn lemma_cper_header_roundtrip(h: CperHeader)
    requires
        h.wf(),
    ensures
        spec_enc_cper_header(h).len() == 128,
        spec_cper_header_ok(spec_enc_cper_header(h)),
        spec_parse_cper_header(spec_enc_cper_header(h)) == h,
{
    let e = spec_enc_cper_header(h);
    lemma_auto_spec_u16_to_from_le_bytes();
    lemma_auto_spec_u32_to_from_le_bytes();
    lemma_auto_spec_u64_to_from_le_bytes();
    lemma_guid_roundtrip(h.creator_id);
    lemma_guid_roundtrip(h.notification_type);
    if h.platform_id is Some {
        lemma_guid_roundtrip(h.platform_id->0);
    }
    if h.partition_id is Some {
        lemma_guid_roundtrip(h.partition_id->0);
    }
    if h.timestamp is Some {
        lemma_timestamp_roundtrip(h.timestamp->0);
    }
    assert(e.len() == 128);
    assert(spec_cper_header_ok(e));
    let p = spec_parse_cper_header(e);
    assert(e.subrange(4, 6) =~= spec_enc_revision(h.revision));
    assert(p.revision == h.revision);
    assert(e.subrange(10, 12) =~= spec_u16_to_le_bytes(h.section_count));
    assert(p.section_count == h.section_count);
    assert(e.subrange(12, 16) =~= spec_u32_to_le_bytes(h.error_severity.spec_as_u32()));
    assert(p.error_severity == h.error_severity);
    assert(e.subrange(16, 20) =~= spec_u32_to_le_bytes(h.validation_bits));
    assert(p.validation_bits == h.validation_bits);
    assert(e.subrange(20, 24) =~= spec_u32_to_le_bytes(h.record_length));
    assert(p.record_length == h.record_length);
    let vb = h.validation_bits;
    assert((vb & VALID_TIMESTAMP != 0) == (h.timestamp is Some) && (vb & VALID_PLATFORM_ID != 0)
        == (h.platform_id is Some) && (vb & VALID_PARTITION_ID != 0) == (
    h.partition_id is Some)) by {
        let pbit = if h.platform_id is Some {
            1u32
        } else {
            0u32
        };
        let tbit = if h.timestamp is Some {
            2u32
        } else {
            0u32
        };
        let qbit = if h.partition_id is Some {
            4u32
        } else {
            0u32
        };
        assert(((pbit | tbit | qbit) & 2u32 != 0) == (tbit == 2u32) && ((pbit | tbit | qbit)
            & 1u32 != 0) == (pbit == 1u32) && ((pbit | tbit | qbit) & 4u32 != 0) == (qbit
            == 4u32)) by (bit_vector)
            requires
                pbit == 0u32 || pbit == 1u32,
                tbit == 0u32 || tbit == 2u32,
                qbit == 0u32 || qbit == 4u32,
        ;
    }
    if h.timestamp is Some {
        lemma_timestamp_roundtrip(h.timestamp->0);
        assert(e.subrange(24, 32) =~= spec_enc_timestamp(h.timestamp->0));
        assert(spec_timestamp_at(e, 24) == spec_timestamp_at(spec_enc_timestamp(h.timestamp->0), 0)) by {
            assert(spec_enc_timestamp(h.timestamp->0)[3] == e[27]);
        }
        assert(p.timestamp == h.timestamp);
    }
    if h.platform_id is Some {
        lemma_guid_roundtrip(h.platform_id->0);
        assert(e.subrange(32, 48) =~= guid_bytes(h.platform_id->0));
        lemma_guid_at_bytes(e, 32, h.platform_id->0);
        assert(p.platform_id == h.platform_id);
    }
    if h.partition_id is Some {
        lemma_guid_roundtrip(h.partition_id->0);
        assert(e.subrange(48, 64) =~= guid_bytes(h.partition_id->0));
        lemma_guid_at_bytes(e, 48, h.partition_id->0);
        assert(p.partition_id == h.partition_id);
    }
    assert(e.subrange(64, 80) =~= guid_bytes(h.creator_id));
    lemma_guid_at_bytes(e, 64, h.creator_id);
    assert(e.subrange(80, 96) =~= guid_bytes(h.notification_type));
    lemma_guid_at_bytes(e, 80, h.notification_type);
    assert(e.subrange(96, 104) =~= spec_u64_to_le_bytes(h.record_id));
    assert(p.record_id == h.record_id);
    assert(e.subrange(104, 108) =~= spec_u32_to_le_bytes(h.flags));
    assert(p.flags == h.flags);
    assert(e.subrange(108, 116) =~= spec_u64_to_le_bytes(h.persistence_information));
    assert(p.persistence_information == h.persistence_information);
    assert(p == h);
}


/// The CPER record header always serializes to 128 bytes.
pub proof fn lemma_enc_cper_header_len(h: CperHeader)
    ensures
        spec_enc_cper_header(h).len() == 128,
{
    lemma_auto_spec_u16_to_from_le_bytes();
    lemma_auto_spec_u32_to_from_le_bytes();
    lemma_auto_spec_u64_to_from_le_bytes();
    lemma_guid_roundtrip(h.creator_id);
    lemma_guid_roundtrip(h.notification_type);
    if h.platform_id is Some {
        lemma_guid_roundtrip(h.platform_id->0);
    }
    if h.partition_id is Some {
        lemma_guid_roundtrip(h.partition_id->0);
    }
}

} // verus!
