//! UEFI CPER section descriptor codec.

use crate::cper::revision::{spec_enc_revision, spec_revision_at, Revision};
use crate::guid::{guid_at, guid_bytes, lemma_guid_at_bytes, lemma_guid_roundtrip, Guid};
use crate::wire::{le32, read_u32, read_u8, push_u32};
use vstd::bytes::{lemma_auto_spec_u32_to_from_le_bytes, spec_u32_to_le_bytes};
use vstd::prelude::*;

verus! {

/// Size in bytes of one CPER section descriptor.
pub const SECTION_DESCRIPTOR_SIZE: usize = 72;

// Validation bits of a section descriptor.
pub const VALID_FRU_ID: u8 = 1;
pub const VALID_FRU_STRING: u8 = 2;

/// Severity of a CPER section.
#[derive(Debug, Clone, Copy, PartialEq, Eq, Structural)]
pub enum SectionSeverity {
    Recoverable,
    Fatal,
    Corrected,
    Informational,
}

impl SectionSeverity {
    /// The wire value of the severity.
    pub open spec fn spec_as_u32(self) -> u32 {
        match self {
            SectionSeverity::Recoverable => 0u32,
            SectionSeverity::Fatal => 1u32,
            SectionSeverity::Corrected => 2u32,
            SectionSeverity::Informational => 3u32,
        }
    }

    /// The severity of a wire value; everything unknown reads as
    /// informational.
    pub open spec fn spec_from_u32(v: u32) -> SectionSeverity {
        if v == 0 {
            SectionSeverity::Recoverable
        } else if v == 1 {
            SectionSeverity::Fatal
        } else if v == 2 {
            SectionSeverity::Corrected
        } else {
            SectionSeverity::Informational
        }
    }

    /// Encodes the severity.
    pub fn as_u32(&self) -> (r: u32)
        ensures
            r == self.spec_as_u32(),
    {
        match self {
            SectionSeverity::Recoverable => 0,
            SectionSeverity::Fatal => 1,
            SectionSeverity::Corrected => 2,
            SectionSeverity::Informational => 3,
        }
    }

    /// Decodes a severity.
    pub fn from_u32(v: u32) -> (r: SectionSeverity)
        ensures
            r == SectionSeverity::spec_from_u32(v),
    {
        if v == 0 {
            SectionSeverity::Recoverable
        } else if v == 1 {
            SectionSeverity::Fatal
        } else if v == 2 {
            SectionSeverity::Corrected
        } else {
            SectionSeverity::Informational
        }
    }
}

/// UEFI CPER section descriptor.
#[derive(Debug, Clone, PartialEq)]
pub struct CperSectionDescriptor {
    pub section_offset: u32,
    pub section_length: u32,
    pub revision: Revision,
    pub validation_bits: u8,
    pub flags: u32,
    pub section_type: Guid,
    pub fru_id: Option<Guid>,
    pub section_severity: SectionSeverity,
    pub fru_text: Option<Vec<u8>>,
}

/// Mathematical mirror of [`CperSectionDescriptor`].
#[verifier::ext_equal]
pub ghost struct DescV {
    pub section_offset: u32,
    pub section_length: u32,
    pub revision: Revision,
    pub validation_bits: u8,
    pub flags: u32,
    pub section_type: Guid,
    pub fru_id: Option<Guid>,
    pub section_severity: SectionSeverity,
    pub fru_text: Option<Seq<u8>>,
}

impl View for CperSectionDescriptor {
    type V = DescV;

    open spec fn view(&self) -> DescV {
        DescV {
            section_offset: self.section_offset,
            section_length: self.section_length,
            revision: self.revision,
            validation_bits: self.validation_bits,
            flags: self.flags,
            section_type: self.section_type,
            fru_id: self.fru_id,
            section_severity: self.section_severity,
            fru_text: match self.fru_text {
                Some(v) => Some(v@),
                None => None,
            },
        }
    }
}

impl CperSectionDescriptor {
    /// The FRU text, when present, holds exactly twenty bytes.
    pub open spec fn wf_text(self) -> bool {
        self@.fru_text matches Some(t) ==> t.len() == 20
    }

    /// Validation bits match exactly which optional fields are present.
    pub open spec fn wf(self) -> bool {
        self.wf_text() && self.validation_bits == (if self.fru_id is Some {
            VALID_FRU_ID
        } else {
            0u8
        }) | (if self.fru_text is Some {
            VALID_FRU_STRING
        } else {
            0u8
        })
    }

    /// A descriptor declaring nothing: revision 1.0, no optional
    /// fields, informational severity.
    pub fn new() -> (d: CperSectionDescriptor)
        ensures
            d@ == (DescV {
                section_offset: 0u32,
                section_length: 0u32,
                revision: Revision { major: 1u8, minor: 0u8 },
                validation_bits: 0u8,
                flags: 0u32,
                section_type: Guid { lo: 0u64, hi: 0u64 },
                fru_id: None::<Guid>,
                section_severity: SectionSeverity::Informational,
                fru_text: None::<Seq<u8>>,
            }),
    {
        CperSectionDescriptor {
            section_offset: 0,
            section_length: 0,
            revision: Revision::new(1, 0),
            validation_bits: 0,
            flags: 0,
            section_type: Guid::zero(),
            fru_id: None,
            section_severity: SectionSeverity::Informational,
            fru_text: None,
        }
    }
}

impl Default for CperSectionDescriptor {
    /// A descriptor declaring nothing.
    fn default() -> (d: CperSectionDescriptor)
        ensures
            d@ == (DescV {
                section_offset: 0u32,
                section_length: 0u32,
                revision: Revision { major: 1u8, minor: 0u8 },
                validation_bits: 0u8,
                flags: 0u32,
                section_type: Guid { lo: 0u64, hi: 0u64 },
                fru_id: None::<Guid>,
                section_severity: SectionSeverity::Informational,
                fru_text: None::<Seq<u8>>,
            }),
    {
        CperSectionDescriptor::new()
    }
}

/// The bytes of an optional GUID field: zeros when absent.
pub open spec fn spec_opt_guid(g: Option<Guid>) -> Seq<u8> {
    match g {
        Some(guid) => guid_bytes(guid),
        None => Seq::new(16, |i: int| 0u8),
    }
}

/// The bytes of the FRU text field: zeros when absent.
pub open spec fn spec_fru_text_bytes(t: Option<Seq<u8>>) -> Seq<u8> {
    match t {
        Some(a) => a,
        None => Seq::new(20, |i: int| 0u8),
    }
}

/// The 72 bytes that encode a section descriptor.
pub open spec fn spec_enc_descriptor(d: DescV) -> Seq<u8> {
    spec_u32_to_le_bytes(d.section_offset) + spec_u32_to_le_bytes(d.section_length)
        + spec_enc_revision(d.revision) + seq![d.validation_bits, 0u8] + spec_u32_to_le_bytes(
        d.flags,
    ) + guid_bytes(d.section_type) + spec_opt_guid(d.fru_id) + spec_u32_to_le_bytes(
        d.section_severity.spec_as_u32(),
    ) + spec_fru_text_bytes(d.fru_text)
}

/// Whether the bytes of `s` lead with a readable descriptor: the fixed
/// fields, plus the FRU text when its validation bit announces one.
pub open spec fn spec_descriptor_ok(s: Seq<u8>) -> bool {
    s.len() >= 52 && (s[10] & VALID_FRU_STRING != 0 ==> s.len() >= 72)
}

/// The descriptor fields read from the bytes of `s`.
pub open spec fn spec_parse_descriptor(s: Seq<u8>) -> DescV {
    let validation_bits = s[10];
    DescV {
        section_offset: le32(s, 0),
        section_length: le32(s, 4),
        revision: spec_revision_at(s, 8),
        validation_bits: validation_bits,
        flags: le32(s, 12),
        section_type: guid_at(s, 16),
        fru_id: if validation_bits & VALID_FRU_ID != 0 {
            Some(guid_at(s, 32))
        } else {
            None
        },
        section_severity: SectionSeverity::spec_from_u32(le32(s, 48)),
        fru_text: if validation_bits & VALID_FRU_STRING != 0 {
            Some(s.subrange(52, 72))
        } else {
            None
        },
    }
}

impl CperSectionDescriptor {
    /// Parses the CPER section descriptor leading a byte slice.
    pub fn from_slice(s: &[u8]) -> (r: Option<CperSectionDescriptor>)
        ensures
            r matches Some(d) <==> spec_descriptor_ok(s@),
            r matches Some(d) ==> d@ == spec_parse_descriptor(s@) && d.wf_text(),
    {
        let slen: usize = s.len();
        if slen < 52 {
            return None;
        }
        let validation_bits = read_u8(s, 10);
        let fru_text = if validation_bits & VALID_FRU_STRING != 0 {
            if slen < 72 {
                return None;
            }
            let mut t: Vec<u8> = Vec::new();
            let mut i: usize = 0;
            while i < 20
                invariant
                    i <= 20,
                    slen == s@.len(),
                    slen >= 72,
                    t@ =~= s@.subrange(52, 52 + i),
                decreases 20 - i,
            {
                t.push(read_u8(s, 52 + i));
                proof {
                    assert(t@ =~= s@.subrange(52, 52 + i + 1));
                }
                i += 1;
            }
            Some(t)
        } else {
            None
        };
        Some(
            CperSectionDescriptor {
                section_offset: read_u32(s, 0),
                section_length: read_u32(s, 4),
                revision: Revision::read(s, 8),
                validation_bits,
                flags: read_u32(s, 12),
                section_type: Guid::read(s, 16),
                fru_id: if validation_bits & VALID_FRU_ID != 0 {
                    if slen < 48 {
                        None
                    } else {
                        Some(Guid::read(s, 32))
                    }
                } else {
                    None
                },
                section_severity: SectionSeverity::from_u32(read_u32(s, 48)),
                fru_text,
            },
        )
    }

    /// Recomputes the validation bits from which optional fields are
    /// present.
    pub fn normalize(&mut self)
        requires
            old(self).wf_text(),
        ensures
            final(self)@ == (DescV {
                validation_bits: (if old(self).fru_id is Some {
                    VALID_FRU_ID
                } else {
                    0u8
                }) | (if old(self).fru_text is Some {
                    VALID_FRU_STRING
                } else {
                    0u8
                }),
                ..old(self)@
            }),
            final(self).wf(),
    {
        let a: u8 = if self.fru_id.is_some() {
            VALID_FRU_ID
        } else {
            0
        };
        let b: u8 = if self.fru_text.is_some() {
            VALID_FRU_STRING
        } else {
            0
        };
        self.validation_bits = a | b;
        proof {
            assert(self@ =~= DescV { validation_bits: a | b, ..old(self)@ });
        }
    }

    /// Serializes the section descriptor into its 72-byte form; an
    /// absent optional field is written as zeros.
    pub fn to_bytes(&self) -> (b: Vec<u8>)
        requires
            self.wf_text(),
        ensures
            b@ == spec_enc_descriptor(self@),
            b@.len() == 72,
    {
        let mut out: Vec<u8> = Vec::new();
        push_u32(&mut out, self.section_offset);
        push_u32(&mut out, self.section_length);
        self.revision.push_to(&mut out);
        out.push(self.validation_bits);
        out.push(0);
        push_u32(&mut out, self.flags);
        self.section_type.push_to(&mut out);
        match &self.fru_id {
            Some(g) => g.push_to(&mut out),
            None => {
                let ghost pre = out@;
                let mut i: usize = 0;
                while i < 16
                    invariant
                        i <= 16,
                        out@ =~= pre + Seq::new(i as nat, |j: int| 0u8),
                    decreases 16 - i,
                {
                    out.push(0);
                    proof {
                        assert(out@ =~= pre + Seq::new((i + 1) as nat, |j: int| 0u8));
                    }
                    i += 1;
                }
            },
        }
        push_u32(&mut out, self.section_severity.as_u32());
        match &self.fru_text {
            Some(t) => {
                out.extend_from_slice(t.as_slice());
            },
            None => {
                let ghost pre = out@;
                let mut i: usize = 0;
                while i < 20
                    invariant
                        i <= 20,
                        out@ =~= pre + Seq::new(i as nat, |j: int| 0u8),
                    decreases 20 - i,
                {
                    out.push(0);
                    proof {
                        assert(out@ =~= pre + Seq::new((i + 1) as nat, |j: int| 0u8));
                    }
                    i += 1;
                }
            },
        }
        proof {
            lemma_auto_spec_u32_to_from_le_bytes();
            lemma_guid_roundtrip(self.section_type);
            if self.fru_id is Some {
                lemma_guid_roundtrip(self.fru_id->0);
            }
            assert(out@ =~= spec_enc_descriptor(self@));
        }
        out
    }
}

/// A normalized descriptor survives its own encoding.
pub proof fn lemma_descriptor_roundtrip(d: DescV)
    requires
        d.fru_text matches Some(t) ==> t.len() == 20,
        d.validation_bits == (if d.fru_id is Some {
            VALID_FRU_ID
        } else {
            0u8
        }) | (if d.fru_text is Some {
            VALID_FRU_STRING
        } else {
            0u8
        }),
    ensures
        spec_enc_descriptor(d).len() == 72,
        spec_descriptor_ok(spec_enc_descriptor(d)),
        spec_parse_descriptor(spec_enc_descriptor(d)) == d,
{
    let e = spec_enc_descriptor(d);
    lemma_auto_spec_u32_to_from_le_bytes();
    lemma_guid_roundtrip(d.section_type);
    if d.fru_id is Some {
        lemma_guid_roundtrip(d.fru_id->0);
    }
    assert(e.len() == 72);
    let p = spec_parse_descriptor(e);
    assert(e[10] == d.validation_bits);
    let fbit = if d.fru_id is Some {
        1u8
    } else {
        0u8
    };
    let tbit = if d.fru_text is Some {
        2u8
    } else {
        0u8
    };
    assert(((fbit | tbit) & 1u8 != 0) == (fbit == 1u8) && ((fbit | tbit) & 2u8 != 0) == (tbit
        == 2u8)) by (bit_vector)
        requires
            fbit == 0u8 || fbit == 1u8,
            tbit == 0u8 || tbit == 2u8,
    ;
    assert(spec_descriptor_ok(e));
    assert(e.subrange(0, 4) =~= spec_u32_to_le_bytes(d.section_offset));
    assert(p.section_offset == d.section_offset);
    assert(e.subrange(4, 8) =~= spec_u32_to_le_bytes(d.section_length));
    assert(p.section_length == d.section_length);
    assert(e.subrange(8, 10) =~= spec_enc_revision(d.revision));
    assert(p.revision == d.revision);
    assert(e.subrange(12, 16) =~= spec_u32_to_le_bytes(d.flags));
    assert(p.flags == d.flags);
    assert(e.subrange(16, 32) =~= guid_bytes(d.section_type));
    lemma_guid_at_bytes(e, 16, d.section_type);
    if d.fru_id is Some {
        lemma_guid_roundtrip(d.fru_id->0);
        assert(e.subrange(32, 48) =~= guid_bytes(d.fru_id->0));
        lemma_guid_at_bytes(e, 32, d.fru_id->0);
    }
    assert(p.fru_id == d.fru_id);
    assert(e.subrange(48, 52) =~= spec_u32_to_le_bytes(d.section_severity.spec_as_u32()));
    assert(p.section_severity == d.section_severity);
    if d.fru_text is Some {
        assert(e.subrange(52, 72) =~= d.fru_text->0);
    }
    assert(p.fru_text == d.fru_text);
    assert(p =~= d);
}


/// A buffer whose first 72 bytes are a normalized descriptor's encoding
/// parses to that descriptor, whatever follows.
pub proof fn lemma_parse_descriptor_prefix(t: Seq<u8>, d: DescV)
    requires
        d.fru_text matches Some(ft) ==> ft.len() == 20,
        d.validation_bits == (if d.fru_id is Some {
            VALID_FRU_ID
        } else {
            0u8
        }) | (if d.fru_text is Some {
            VALID_FRU_STRING
        } else {
            0u8
        }),
        t.len() >= 72,
        t.subrange(0, 72) =~= spec_enc_descriptor(d),
    ensures
        spec_descriptor_ok(t),
        spec_parse_descriptor(t) == d,
{
    lemma_descriptor_roundtrip(d);
    let e = spec_enc_descriptor(d);
    assert forall|k: int| 0 <= k < 72 implies t[k] == e[k] by {
        assert(t.subrange(0, 72)[k] == e[k]);
    }
    assert(t.subrange(0, 4) =~= e.subrange(0, 4));
    assert(t.subrange(4, 8) =~= e.subrange(4, 8));
    assert(t.subrange(8, 10) =~= e.subrange(8, 10));
    assert(t.subrange(12, 16) =~= e.subrange(12, 16));
    assert(t.subrange(16, 24) =~= e.subrange(16, 24));
    assert(t.subrange(24, 32) =~= e.subrange(24, 32));
    assert(t.subrange(32, 40) =~= e.subrange(32, 40));
    assert(t.subrange(40, 48) =~= e.subrange(40, 48));
    assert(t.subrange(48, 52) =~= e.subrange(48, 52));
    assert(t.subrange(52, 72) =~= e.subrange(52, 72));
    assert(t[10] == e[10]);
    let pt = spec_parse_descriptor(t);
    let pe = spec_parse_descriptor(e);
    assert(pt.section_offset == pe.section_offset);
    assert(pt.section_length == pe.section_length);
    assert(pt.revision == pe.revision);
    assert(pt.flags == pe.flags);
    assert(pt.section_type == pe.section_type);
    assert(pt.fru_id == pe.fru_id);
    assert(pt.section_severity == pe.section_severity);
    assert(pt.fru_text == pe.fru_text);
    assert(pt =~= pe);
}

} // verus!
