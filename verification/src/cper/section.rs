//! CPER section bodies and sections.

use crate::cper::descr::{CperSectionDescriptor, DescV, SectionSeverity};
use crate::cper::fer::{
    lemma_fer_roundtrip, spec_enc_fer, spec_fer_header_ok, spec_parse_fer, FerV,
    FirmwareErrorRecord,
};
use crate::guid::{spec_fw_error_record, Guid};
use crate::region::{spec_records_bytes, Region};
use vstd::prelude::*;

verus! {

/// One of the CPER section bodies the crate understands: a Firmware
/// Error Record, or an opaque copy of an unknown section.
#[derive(Debug, Clone, PartialEq)]
pub enum CperSectionBody {
    FirmwareErrorRecord(FirmwareErrorRecord),
    Unknown(Guid, Vec<u8>),
}

/// Mathematical mirror of [`CperSectionBody`].
#[verifier::ext_equal]
pub ghost enum BodyV {
    Fer(FerV),
    Unknown(Guid, Seq<u8>),
}

impl View for CperSectionBody {
    type V = BodyV;

    open spec fn view(&self) -> BodyV {
        match self {
            CperSectionBody::FirmwareErrorRecord(f) => BodyV::Fer(f@),
            CperSectionBody::Unknown(g, d) => BodyV::Unknown(*g, d@),
        }
    }
}

impl BodyV {
    /// GUID of the section type.
    pub open spec fn spec_guid(self) -> Guid {
        match self {
            BodyV::Fer(_) => spec_fw_error_record(),
            BodyV::Unknown(g, _) => g,
        }
    }

    /// The serialized bytes of the body.
    pub open spec fn spec_bytes(self) -> Seq<u8> {
        match self {
            BodyV::Fer(f) => spec_enc_fer(f),
            BodyV::Unknown(_, d) => d,
        }
    }

    /// Firmware Error Record headers below revision 2 carry no GUID.
    pub open spec fn wf(self) -> bool {
        self matches BodyV::Fer(f) ==> f.header.wf()
    }
}

/// What parsing a section body under the given type GUID yields: a
/// Firmware Error Record for the canonical GUID, an exact opaque copy
/// otherwise.
pub open spec fn spec_parse_body(guid: Guid, s: Seq<u8>) -> Option<BodyV> {
    if guid == spec_fw_error_record() {
        if spec_fer_header_ok(s) {
            Some(BodyV::Fer(spec_parse_fer(s)))
        } else {
            None
        }
    } else {
        Some(BodyV::Unknown(guid, s))
    }
}

impl CperSectionBody {
    /// Parses a section body from a slice, dispatching on the section
    /// type GUID.
    pub fn from_slice(guid: Guid, s: &[u8]) -> (r: Option<CperSectionBody>)
        ensures
            match r {
                Some(b) => spec_parse_body(guid, s@) == Some(b@) && b@.wf(),
                None => spec_parse_body(guid, s@) is None,
            },
    {
        let fw = crate::guid::fw_error_record();
        if guid.lo == fw.lo && guid.hi == fw.hi {
            match FirmwareErrorRecord::from_slice(s) {
                None => None,
                Some(f) => Some(CperSectionBody::FirmwareErrorRecord(f)),
            }
        } else {
            let mut data: Vec<u8> = Vec::new();
            data.extend_from_slice(s);
            proof {
                assert(data@ =~= s@);
            }
            Some(CperSectionBody::Unknown(guid, data))
        }
    }

    /// Returns the GUID associated with the section type.
    pub fn guid(&self) -> (g: Guid)
        ensures
            g == self@.spec_guid(),
    {
        match self {
            CperSectionBody::FirmwareErrorRecord(_) => crate::guid::fw_error_record(),
            CperSectionBody::Unknown(guid, _) => *guid,
        }
    }

    /// Returns the size of the serialized section body in bytes.
    pub fn len(&self) -> (n: usize)
        requires
            self@.spec_bytes().len() <= usize::MAX,
        ensures
            n == self@.spec_bytes().len(),
    {
        match self {
            CperSectionBody::FirmwareErrorRecord(fer) => {
                proof {
                    vstd::bytes::lemma_auto_spec_u64_to_from_le_bytes();
                    assert(spec_enc_fer(fer@).len() == fer.header.spec_len()
                        + fer.payload@.len());
                }
                fer.header.len() + fer.payload.len()
            },
            CperSectionBody::Unknown(_, data) => data.len(),
        }
    }

    /// Serializes the section body.
    pub fn to_bytes(&self) -> (b: Vec<u8>)
        ensures
            b@ == self@.spec_bytes(),
    {
        match self {
            CperSectionBody::FirmwareErrorRecord(fer) => fer.to_bytes(),
            CperSectionBody::Unknown(_, data) => {
                let mut out: Vec<u8> = Vec::new();
                out.extend_from_slice(data.as_slice());
                proof {
                    assert(out@ =~= data@);
                }
                out
            },
        }
    }
}

/// The descriptor and the body of one CPER section.
#[derive(Debug, Clone, PartialEq)]
pub struct CperSection {
    pub descriptor: CperSectionDescriptor,
    pub body: CperSectionBody,
}

/// Mathematical mirror of [`CperSection`].
#[verifier::ext_equal]
pub ghost struct SectionV {
    pub descriptor: DescV,
    pub body: BodyV,
}

impl View for CperSection {
    type V = SectionV;

    open spec fn view(&self) -> SectionV {
        SectionV { descriptor: self.descriptor@, body: self.body@ }
    }
}

impl CperSection {
    /// Creates a CPER section from a body and populates the descriptor
    /// fields that depend on it: the section type GUID and the body
    /// length.
    pub fn from_body(body: CperSectionBody) -> (r: CperSection)
        requires
            body@.spec_bytes().len() <= u32::MAX,
        ensures
            r.body == body,
            r.descriptor@ == (DescV {
                section_offset: 0u32,
                section_length: body@.spec_bytes().len() as u32,
                revision: crate::cper::revision::Revision { major: 1u8, minor: 0u8 },
                validation_bits: 0u8,
                flags: 0u32,
                section_type: body@.spec_guid(),
                fru_id: None::<Guid>,
                section_severity: SectionSeverity::Informational,
                fru_text: None::<Seq<u8>>,
            }),
    {
        let mut descriptor = CperSectionDescriptor::new();
        descriptor.section_type = body.guid();
        descriptor.section_length = body.len() as u32;
        proof {
            assert(descriptor@ =~= DescV {
                section_offset: 0u32,
                section_length: body@.spec_bytes().len() as u32,
                revision: crate::cper::revision::Revision { major: 1u8, minor: 0u8 },
                validation_bits: 0u8,
                flags: 0u32,
                section_type: body@.spec_guid(),
                fru_id: None::<Guid>,
                section_severity: SectionSeverity::Informational,
                fru_text: None::<Seq<u8>>,
            });
        }
        CperSection { descriptor, body }
    }

    /// Wraps the raw bytes of a Crash Log region into a CPER section
    /// holding a Firmware Error Record.
    pub fn from_crashlog_region(region: &Region) -> (r: CperSection)
        requires
            32 + spec_records_bytes(region@).len() <= u32::MAX,
        ensures
            r@ == spec_region_section(region@),
    {
        let fer = FirmwareErrorRecord::from_crashlog_region(region);
        proof {
            vstd::bytes::lemma_auto_spec_u64_to_from_le_bytes();
            crate::guid::lemma_guid_roundtrip(fer.header.guid);
            assert(spec_enc_fer(fer@).len() == 32 + spec_records_bytes(region@).len());
        }
        let r = Self::from_body(CperSectionBody::FirmwareErrorRecord(fer));
        proof {
            assert(r@ =~~= spec_region_section(region@));
        }
        r
    }

    /// The serialized body, zero-padded or truncated to the length the
    /// descriptor declares.
    pub open spec fn spec_body_bytes(self) -> Seq<u8> {
        let raw = self@.body.spec_bytes();
        let declared = self.descriptor.section_length as int;
        if raw.len() >= declared {
            raw.take(declared)
        } else {
            raw + Seq::new((declared - raw.len()) as nat, |i: int| 0u8)
        }
    }

    /// Serializes the section body, resized with zeros to the length
    /// declared in the descriptor.
    pub fn body_bytes(&self) -> (b: Vec<u8>)
        ensures
            b@ == self.spec_body_bytes(),
    {
        let mut bytes = self.body.to_bytes();
        let declared = self.descriptor.section_length as usize;
        bytes.resize(declared, 0);
        proof {
            assert(bytes@ =~= self.spec_body_bytes());
        }
        bytes
    }
}


/// The CPER section that wraps the records of one region: a revision 2
/// Firmware Error Record marked with the Crash Log record identifier.
pub open spec fn spec_region_section(rv: Seq<crate::record::RecordV>) -> SectionV {
    SectionV {
        descriptor: DescV {
            section_offset: 0u32,
            section_length: (32 + spec_records_bytes(rv).len()) as u32,
            revision: crate::cper::revision::Revision { major: 1u8, minor: 0u8 },
            validation_bits: 0u8,
            flags: 0u32,
            section_type: spec_fw_error_record(),
            fru_id: None,
            section_severity: SectionSeverity::Informational,
            fru_text: None,
        },
        body: BodyV::Fer(
            FerV {
                header: crate::cper::fer::FirmwareErrorRecordHeader {
                    error_type: 2u8,
                    revision: 2u8,
                    record_identifier: 0u64,
                    guid: crate::guid::spec_record_id_crashlog(),
                },
                payload: spec_records_bytes(rv),
            },
        ),
    }
}

/// The CPER section that carries an arbitrary body under a fresh
/// descriptor.
pub open spec fn spec_body_section(b: BodyV) -> SectionV {
    SectionV {
        descriptor: DescV {
            section_offset: 0u32,
            section_length: b.spec_bytes().len() as u32,
            revision: crate::cper::revision::Revision { major: 1u8, minor: 0u8 },
            validation_bits: 0u8,
            flags: 0u32,
            section_type: b.spec_guid(),
            fru_id: None,
            section_severity: SectionSeverity::Informational,
            fru_text: None,
        },
        body: b,
    }
}

impl CperSectionBody {
    /// An element-for-element copy of the body.
    pub fn duplicate(&self) -> (r: CperSectionBody)
        ensures
            r@ == self@,
    {
        match self {
            CperSectionBody::FirmwareErrorRecord(f) => {
                let mut payload: Vec<u8> = Vec::new();
                payload.extend_from_slice(f.payload.as_slice());
                proof {
                    assert(payload@ =~= f.payload@);
                }
                CperSectionBody::FirmwareErrorRecord(
                    FirmwareErrorRecord { header: f.header, payload },
                )
            },
            CperSectionBody::Unknown(g, d) => {
                let mut data: Vec<u8> = Vec::new();
                data.extend_from_slice(d.as_slice());
                proof {
                    assert(data@ =~= d@);
                }
                CperSectionBody::Unknown(*g, data)
            },
        }
    }
}

} // verus!
