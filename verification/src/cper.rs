//! UEFI Common Platform Error Record container codec.

pub mod descr;
pub mod fer;
pub mod header;
pub mod revision;
pub mod section;
pub mod utils;

use crate::cper::descr::{
    spec_descriptor_ok, spec_parse_descriptor, CperSectionDescriptor, DescV, SectionSeverity,
    VALID_FRU_ID, VALID_FRU_STRING,
};
use crate::cper::header::{
    spec_cper_header_ok, spec_enc_cper_header, spec_parse_cper_header, CperHeader, ErrorSeverity,
    Timestamp,
};
use crate::cper::section::{
    spec_body_section, spec_parse_body, spec_region_section, BodyV, CperSection, CperSectionBody,
    SectionV,
};
use crate::record::RecordV;
use crate::region::spec_records_bytes;
use crate::guid::spec_fw_error_record;
use vstd::prelude::*;
use vstd::slice::slice_subrange;
use vstd::std_specs::vec::vec_index_mut;

verus! {

/// A UEFI Common Platform Error Record: its header and sections.
#[derive(Debug)]
pub struct Cper {
    /// CPER record header.
    pub record_header: CperHeader,
    /// CPER sections.
    pub sections: Vec<CperSection>,
}

/// Mathematical mirror of [`Cper`].
#[verifier::ext_equal]
pub ghost struct CperV {
    pub header: CperHeader,
    pub sections: Seq<SectionV>,
}

impl View for Cper {
    type V = CperV;

    open spec fn view(&self) -> CperV {
        CperV {
            header: self.record_header,
            sections: self.sections@.map_values(|s: CperSection| s@),
        }
    }
}

/// The serialized body of one section, padded or truncated to the
/// length its descriptor declares.
pub open spec fn spec_padded_body(sv: SectionV) -> Seq<u8> {
    let raw = sv.body.spec_bytes();
    let declared = sv.descriptor.section_length as int;
    if raw.len() >= declared {
        raw.take(declared)
    } else {
        raw + Seq::new((declared - raw.len()) as nat, |i: int| 0u8)
    }
}

/// Sum of the declared section lengths.
pub open spec fn spec_sections_total(ss: Seq<SectionV>) -> int
    decreases ss.len(),
{
    if ss.len() == 0 {
        0
    } else {
        ss[0].descriptor.section_length + spec_sections_total(ss.skip(1))
    }
}

proof fn lemma_sections_total_bounds(ss: Seq<SectionV>)
    ensures
        0 <= spec_sections_total(ss) <= ss.len() * 0xFFFF_FFFF,
    decreases ss.len(),
{
    if ss.len() > 0 {
        lemma_sections_total_bounds(ss.skip(1));
        assert(ss.len() * 0xFFFF_FFFF == (ss.len() - 1) * 0xFFFF_FFFF + 0xFFFF_FFFF) by (
        nonlinear_arith);
    }
}

proof fn lemma_sections_total_push(ss: Seq<SectionV>, x: SectionV)
    ensures
        spec_sections_total(ss.push(x)) == spec_sections_total(ss) + x.descriptor.section_length,
    decreases ss.len(),
{
    if ss.len() == 0 {
        assert(ss.push(x).skip(1) =~= ss);
        assert(ss.push(x)[0] == x);
        assert(spec_sections_total(ss.push(x)) == x.descriptor.section_length
            + spec_sections_total(ss));
    } else {
        assert(ss.push(x).skip(1) =~= ss.skip(1).push(x));
        lemma_sections_total_push(ss.skip(1), x);
        assert(ss.push(x)[0] == ss[0]);
        assert(spec_sections_total(ss.push(x)) == ss[0].descriptor.section_length
            + spec_sections_total(ss.skip(1).push(x)));
    }
}

/// The normalized form of one descriptor when its section starts at
/// byte `cursor`: offset and validation bits recomputed.
pub open spec fn spec_norm_desc(d: DescV, cursor: int) -> DescV {
    DescV {
        section_offset: (cursor % 0x1_0000_0000) as u32,
        validation_bits: (if d.fru_id is Some {
            VALID_FRU_ID
        } else {
            0u8
        }) | (if d.fru_text is Some {
            VALID_FRU_STRING
        } else {
            0u8
        }),
        ..d
    }
}

/// The sections with their offsets laid out back to back from `cursor`.
pub open spec fn spec_norm_sections(ss: Seq<SectionV>, cursor: int) -> Seq<SectionV>
    decreases ss.len(),
{
    if ss.len() == 0 {
        Seq::empty()
    } else {
        seq![
            SectionV { descriptor: spec_norm_desc(ss[0].descriptor, cursor), body: ss[0].body },
        ] + spec_norm_sections(ss.skip(1), cursor + ss[0].descriptor.section_length)
    }
}

/// The record with every derived field recomputed from the actual
/// layout: section count, section offsets, record length and the
/// validation bits.
pub open spec fn spec_normalize(c: CperV) -> CperV {
    let n = c.sections.len() as int;
    let start = 128 + 72 * n;
    CperV {
        header: CperHeader {
            section_count: (n % 0x1_0000) as u16,
            record_length: ((start + spec_sections_total(c.sections)) % 0x1_0000_0000) as u32,
            validation_bits: (if c.header.platform_id is Some {
                header::VALID_PLATFORM_ID
            } else {
                0u32
            }) | (if c.header.timestamp is Some {
                header::VALID_TIMESTAMP
            } else {
                0u32
            }) | (if c.header.partition_id is Some {
                header::VALID_PARTITION_ID
            } else {
                0u32
            }),
            ..c.header
        },
        sections: spec_norm_sections(c.sections, start),
    }
}

/// The sections parsed from a CPER buffer: for each slot below the
/// declared count, the descriptor at its fixed position and the body
/// bytes it points at; slots that cannot be read are skipped.
pub open spec fn spec_parse_sections(s: Seq<u8>, count: int, i: int) -> Seq<SectionV>
    decreases count - i,
{
    if i < 0 || i >= count {
        Seq::empty()
    } else {
        let idx = 128 + 72 * i;
        let rest = spec_parse_sections(s, count, i + 1);
        if idx > s.len() {
            rest
        } else if !spec_descriptor_ok(s.skip(idx)) {
            rest
        } else {
            let d = spec_parse_descriptor(s.skip(idx));
            let off = d.section_offset as int;
            let end = off + d.section_length;
            if end > s.len() {
                rest
            } else {
                match spec_parse_body(d.section_type, s.subrange(off, end)) {
                    None => rest,
                    Some(b) => seq![SectionV { descriptor: d, body: b }] + rest,
                }
            }
        }
    }
}

/// The record parsed from a CPER buffer, before normalization.
pub open spec fn spec_cper_parse(s: Seq<u8>) -> CperV {
    let h = spec_parse_cper_header(s.subrange(0, 128));
    CperV { header: h, sections: spec_parse_sections(s, h.section_count as int, 0) }
}

/// Whether a buffer leads with a parseable CPER record.
pub open spec fn spec_cper_ok(s: Seq<u8>) -> bool {
    s.len() >= 128 && spec_cper_header_ok(s.subrange(0, 128))
}

/// Every descriptor carries a well-formed FRU text.
pub open spec fn spec_sections_wf_text(ss: Seq<SectionV>) -> bool {
    forall|i: int|
        0 <= i < ss.len() ==> (#[trigger] ss[i].descriptor.fru_text matches Some(t) ==> t.len()
            == 20)
}

impl Cper {
    /// Every descriptor of this record carries a well-formed FRU text.
    pub open spec fn wf_texts(self) -> bool {
        spec_sections_wf_text(self@.sections)
    }

    /// An empty informational CPER.
    pub fn new() -> (r: Cper)
        ensures
            r@.header == CperHeader::spec_new(),
            r@.sections =~= Seq::<SectionV>::empty(),
            r.wf_texts(),
    {
        let r = Cper { record_header: CperHeader::new(), sections: Vec::new() };
        proof {
            assert(r@.sections =~= Seq::<SectionV>::empty());
        }
        r
    }

    /// Parses the CPER stored in a byte slice: the header must lead
    /// with the CPER signature; sections that cannot be read are
    /// dropped, and the result is normalized.
    pub fn from_slice(slice: &[u8]) -> (r: Option<Cper>)
        ensures
            r is Some <==> spec_cper_ok(slice@),
            r matches Some(c) ==> c@ == spec_normalize(spec_cper_parse(slice@)) && c.wf_texts(),
    {
        let slen: usize = slice.len();
        if slen < 128 {
            return None;
        }
        let head = slice_subrange(slice, 0, 128);
        let record_header = match CperHeader::from_slice(head) {
            None => {
                return None;
            },
            Some(h) => h,
        };
        let count = record_header.section_count as usize;
        let mut sections: Vec<CperSection> = Vec::new();
        let mut i: usize = 0;
        proof {
            assert(sections@.map_values(|s: CperSection| s@) =~= Seq::<SectionV>::empty());
            assert(Seq::<SectionV>::empty() + spec_parse_sections(slice@, count as int, 0)
                =~= spec_parse_sections(slice@, count as int, 0));
        }
        while i < count
            invariant
                i <= count,
                slen == slice@.len(),
                slen >= 128,
                count < 0x1_0000,
                sections@.len() <= i,
                spec_parse_sections(slice@, count as int, 0) =~= sections@.map_values(
                    |s: CperSection| s@,
                ) + spec_parse_sections(slice@, count as int, i as int),
                spec_sections_wf_text(sections@.map_values(|s: CperSection| s@)),
            decreases count - i,
        {
            let ghost done = sections@.map_values(|s: CperSection| s@);
            let idx = 128 + 72 * i;
            if idx <= slen {
                let rest = slice_subrange(slice, idx, slen);
                proof {
                    assert(rest@ =~= slice@.skip(idx as int));
                }
                match CperSectionDescriptor::from_slice(rest) {
                    None => {},
                    Some(descriptor) => {
                        let off = descriptor.section_offset as usize;
                        let length = descriptor.section_length as usize;
                        if off <= slen && length <= slen - off {
                            let window = slice_subrange(slice, off, off + length);
                            match CperSectionBody::from_slice(descriptor.section_type, window) {
                                None => {},
                                Some(body) => {
                                    let ghost dv = descriptor@;
                                    let ghost bv = body@;
                                    sections.push(CperSection { descriptor, body });
                                    proof {
                                        assert(sections@.map_values(|s: CperSection| s@) =~= done
                                            .push(SectionV { descriptor: dv, body: bv }));
                                        assert(done + (seq![
                                            SectionV { descriptor: dv, body: bv },
                                        ] + spec_parse_sections(slice@, count as int, i + 1))
                                            =~= done.push(SectionV { descriptor: dv, body: bv })
                                            + spec_parse_sections(slice@, count as int, i + 1));
                                    }
                                },
                            }
                        }
                    },
                }
            }
            i += 1;
        }
        let mut cper = Cper { record_header, sections };
        proof {
            assert(spec_parse_sections(slice@, count as int, count as int)
                =~= Seq::<SectionV>::empty());
            assert(cper@.sections =~= spec_cper_parse(slice@).sections);
            assert(cper@ =~= spec_cper_parse(slice@));
        }
        cper.normalize();
        Some(cper)
    }

    /// Recomputes the derived header and descriptor fields to reflect
    /// the actual binary layout of the record.
    pub fn normalize(&mut self)
        requires
            old(self)@.sections.len() <= 0xFFFF,
            old(self).wf_texts(),
        ensures
            final(self)@ == spec_normalize(old(self)@),
            final(self).wf_texts(),
    {
        let n = self.sections.len();
        let ghost oldss = self@.sections;
        let ghost start = 128 + 72 * (n as int);
        self.record_header.section_count = n as u16;
        let mut cursor: u64 = 128 + 72 * (n as u64);
        let mut i: usize = 0;
        proof {
            assert(oldss.skip(0int) =~= oldss);
            assert(self@.sections.take(0int) =~= Seq::<SectionV>::empty());
            assert(Seq::<SectionV>::empty() + spec_norm_sections(oldss, start)
                =~= spec_norm_sections(oldss, start));
            assert(oldss.take(0int) =~= Seq::<SectionV>::empty());
        }
        while i < n
            invariant
                i <= n,
                n <= 0xFFFF,
                n == self.sections@.len(),
                oldss.len() == n,
                start == 128 + 72 * (n as int),
                spec_sections_wf_text(oldss),
                self@.sections.skip(i as int) =~= oldss.skip(i as int),
                spec_norm_sections(oldss, start) =~= self@.sections.take(i as int)
                    + spec_norm_sections(oldss.skip(i as int), cursor as int),
                cursor as int == start + spec_sections_total(oldss.take(i as int)),
                cursor as int <= start + (i as int) * 0xFFFF_FFFF,
                self.record_header == old(self).record_header.spec_set_count(n as u16),
            decreases n - i,
        {
            let ghost pre = self@.sections;
            let ghost tail = oldss.skip(i as int);
            let ghost cursor0 = cursor as int;
            proof {
                lemma_sections_total_bounds(oldss.take(i as int));
                assert((i as int) * 0xFFFF_FFFF <= 0xFFFF * 0xFFFF_FFFFint) by (nonlinear_arith)
                    requires
                        0 <= i as int <= 0xFFFF,
                ;
                assert(tail[0] == oldss[i as int]);
                assert(tail.skip(1) =~= oldss.skip(i + 1));
            }
            let section = vec_index_mut(&mut self.sections, i);
            let ghost dpre = section.descriptor@;
            let off32 = #[verifier::truncate] (cursor as u32);
            proof {
                assert(off32 == cursor % 0x1_0000_0000) by (bit_vector)
                    requires
                        off32 == cursor as u32,
                ;
            }
            section.descriptor.section_offset = off32;
            section.descriptor.normalize();
            let ghost dpost = section.descriptor@;
            proof {
                assert(dpost =~= spec_norm_desc(dpre, cursor0));
            }
            let step = section.descriptor.section_length;
            proof {
                assert((i as int + 1) * 0xFFFF_FFFF == (i as int) * 0xFFFF_FFFF + 0xFFFF_FFFF) by (
                nonlinear_arith);
            }
            cursor = cursor + (step as u64);
            proof {
                assert(self@.sections =~= pre.update(
                    i as int,
                    SectionV { descriptor: spec_norm_desc(dpre, cursor0), body: tail[0].body },
                ));
                assert(self@.sections.skip(i + 1) =~= oldss.skip(i + 1));
                assert(self@.sections.take(i + 1) =~= pre.take(i as int).push(
                    SectionV { descriptor: spec_norm_desc(dpre, cursor0), body: tail[0].body },
                ));
                lemma_sections_total_push(oldss.take(i as int), oldss[i as int]);
                assert(oldss.take(i + 1) =~= oldss.take(i as int).push(oldss[i as int]));
                assert(spec_norm_sections(tail, cursor0) == seq![
                    SectionV {
                        descriptor: spec_norm_desc(tail[0].descriptor, cursor0),
                        body: tail[0].body,
                    },
                ] + spec_norm_sections(tail.skip(1), cursor as int));
                assert(spec_norm_sections(oldss, start) =~= self@.sections.take(i + 1)
                    + spec_norm_sections(oldss.skip(i + 1), cursor as int));
            }
            i += 1;
        }
        let record_length = #[verifier::truncate] (cursor as u32);
        proof {
            assert(record_length == cursor % 0x1_0000_0000) by (bit_vector)
                requires
                    record_length == cursor as u32,
            ;
        }
        self.record_header.record_length = record_length;
        self.record_header.normalize();
        proof {
            assert(self@.sections.take(n as int) =~= self@.sections);
            assert(oldss.take(n as int) =~= oldss);
            assert(spec_norm_sections(oldss.skip(n as int), cursor as int)
                =~= Seq::<SectionV>::empty());
            assert(self@.sections + Seq::<SectionV>::empty() =~= self@.sections);
            assert(self@.sections =~= spec_norm_sections(oldss, start));
            assert((n as int) % 0x1_0000 == n as int);
            assert(self@ =~= spec_normalize(old(self)@));
            lemma_norm_sections_props(oldss, start);
            assert forall|j: int| 0 <= j < self@.sections.len() implies (
            #[trigger] self@.sections[j].descriptor.fru_text matches Some(t) ==> t.len()
                == 20) by {
                assert(self@.sections[j].descriptor.fru_text == oldss[j].descriptor.fru_text);
            }
        }
    }

    /// Appends a section to the record and renormalizes the layout.
    pub fn append_section(&mut self, section: CperSection)
        requires
            old(self)@.sections.len() < 0xFFFF,
            old(self).wf_texts(),
            section.descriptor@.fru_text matches Some(t) ==> t.len() == 20,
        ensures
            final(self)@ == spec_normalize(
                CperV { header: old(self)@.header, sections: old(self)@.sections.push(section@) },
            ),
            final(self).wf_texts(),
    {
        let ghost sv = section@;
        self.sections.push(section);
        proof {
            assert(self@.sections =~= old(self)@.sections.push(sv));
        }
        self.normalize();
    }

    /// Builds a CPER that carries a Crash Log: a boot notification of
    /// fatal severity, one fatal Firmware Error Record section per
    /// region, and the extra sections of the metadata appended as they
    /// are.
    pub fn from_raw_crashlog(crashlog: &crate::CrashLog) -> (r: Cper)
        requires
            crashlog.regions@.len() + crashlog.metadata.extra_cper_sections@.len() <= 0xFFFF,
            forall|i: int|
                0 <= i < crashlog.regions@.len() ==> 32 + spec_records_bytes(
                    #[trigger] crashlog.regions@[i]@,
                ).len() <= u32::MAX,
            forall|i: int|
                0 <= i < crashlog.metadata.extra_cper_sections@.len()
                    ==> (#[trigger] crashlog.metadata.extra_cper_sections@[i])@.spec_bytes().len()
                    <= u32::MAX,
        ensures
            r@ == spec_normalize(
                CperV {
                    header: spec_crashlog_header(crashlog.metadata.time),
                    sections: crashlog.regions@.map_values(
                        |rg: crate::region::Region| spec_region_section_fatal(rg@),
                    ) + crashlog.metadata.extra_cper_sections@.map_values(
                        |b: CperSectionBody| spec_body_section(b@),
                    ),
                },
            ),
            r.wf_texts(),
    {
        let mut cper = Cper::new();
        cper.record_header.error_severity = ErrorSeverity::Fatal;
        cper.record_header.notification_type = crate::guid::notification_boot();
        cper.record_header.timestamp = match &crashlog.metadata.time {
            Some(t) => Some(header::Timestamp::from_crashlog_metadata(t)),
            None => None,
        };
        proof {
            assert(cper.record_header == spec_crashlog_header(crashlog.metadata.time));
        }
        let nr = crashlog.regions.len();
        let mut i: usize = 0;
        while i < nr
            invariant
                i <= nr,
                nr == crashlog.regions@.len(),
                cper.record_header == spec_crashlog_header(crashlog.metadata.time),
                forall|j: int|
                    0 <= j < nr ==> 32 + spec_records_bytes(
                        #[trigger] crashlog.regions@[j]@,
                    ).len() <= u32::MAX,
                cper@.sections =~= crashlog.regions@.take(i as int).map_values(
                    |rg: crate::region::Region| spec_region_section_fatal(rg@),
                ),
                cper.wf_texts(),
            decreases nr - i,
        {
            let ghost pre = cper@.sections;
            let mut section = CperSection::from_crashlog_region(&crashlog.regions[i]);
            section.descriptor.section_severity = crate::cper::descr::SectionSeverity::Fatal;
            proof {
                assert(section@ =~~= spec_region_section_fatal(crashlog.regions@[i as int]@));
            }
            let ghost sv = section@;
            cper.sections.push(section);
            proof {
                assert(cper@.sections =~= pre.push(sv));
                assert(crashlog.regions@.take(i + 1) =~= crashlog.regions@.take(i as int).push(
                    crashlog.regions@[i as int],
                ));
                assert(cper@.sections =~= crashlog.regions@.take(i + 1).map_values(
                    |rg: crate::region::Region| spec_region_section_fatal(rg@),
                ));
            }
            i += 1;
        }
        proof {
            assert(crashlog.regions@.take(nr as int) =~= crashlog.regions@);
        }
        let extras = &crashlog.metadata.extra_cper_sections;
        let ghost base = cper@.sections;
        let ne = extras.len();
        let mut i: usize = 0;
        while i < ne
            invariant
                i <= ne,
                ne == extras@.len(),
                cper.record_header == spec_crashlog_header(crashlog.metadata.time),
                forall|j: int|
                    0 <= j < ne ==> (#[trigger] extras@[j])@.spec_bytes().len() <= u32::MAX,
                base == crashlog.regions@.map_values(
                    |rg: crate::region::Region| spec_region_section_fatal(rg@),
                ),
                cper@.sections =~= base + extras@.take(i as int).map_values(
                    |b: CperSectionBody| spec_body_section(b@),
                ),
                cper.wf_texts(),
            decreases ne - i,
        {
            let ghost pre = cper@.sections;
            let body = extras[i].duplicate();
            let ghost bv = body@;
            let section = CperSection::from_body(body);
            proof {
                assert(section@ =~~= spec_body_section(bv));
            }
            let ghost sv = section@;
            cper.sections.push(section);
            proof {
                assert(cper@.sections =~= pre.push(sv));
                assert(extras@.take(i + 1) =~= extras@.take(i as int).push(extras@[i as int]));
                assert(cper@.sections =~= base + extras@.take(i + 1).map_values(
                    |b: CperSectionBody| spec_body_section(b@),
                ));
            }
            i += 1;
        }
        proof {
            assert(extras@.take(ne as int) =~= extras@);
        }
        cper.normalize();
        cper
    }

    /// Serializes the CPER: the header, every descriptor back to back,
    /// then every section body padded to its declared length.
    pub fn to_bytes(&self) -> (b: Vec<u8>)
        requires
            self.wf_texts(),
        ensures
            b@ == spec_enc_cper(self@),
    {
        let mut bytes = self.record_header.to_bytes();
        let n = self.sections.len();
        let mut i: usize = 0;
        while i < n
            invariant
                i <= n,
                n == self.sections@.len(),
                self.wf_texts(),
                bytes@ =~= spec_enc_cper_header(self@.header) + spec_desc_block(
                    self@.sections.take(i as int),
                ),
            decreases n - i,
        {
            proof {
                assert(self@.sections[i as int] == self.sections@[i as int]@);
                lemma_desc_block_push(self@.sections.take(i as int), self@.sections[i as int]);
                assert(self@.sections.take(i + 1) =~= self@.sections.take(i as int).push(
                    self@.sections[i as int],
                ));
            }
            let d = self.sections[i].descriptor.to_bytes();
            bytes.extend_from_slice(d.as_slice());
            i += 1;
        }
        proof {
            assert(self@.sections.take(n as int) =~= self@.sections);
        }
        let ghost mid = bytes@;
        let mut i: usize = 0;
        while i < n
            invariant
                i <= n,
                n == self.sections@.len(),
                mid == spec_enc_cper_header(self@.header) + spec_desc_block(self@.sections),
                bytes@ =~= mid + spec_body_block(self@.sections.take(i as int)),
            decreases n - i,
        {
            proof {
                assert(self@.sections[i as int] == self.sections@[i as int]@);
                lemma_body_block_push(self@.sections.take(i as int), self@.sections[i as int]);
                assert(self@.sections.take(i + 1) =~= self@.sections.take(i as int).push(
                    self@.sections[i as int],
                ));
            }
            let body = self.sections[i].body_bytes();
            bytes.extend_from_slice(body.as_slice());
            i += 1;
        }
        proof {
            assert(self@.sections.take(n as int) =~= self@.sections);
            assert(bytes@ =~= spec_enc_cper(self@));
        }
        bytes
    }
}

impl CperHeader {
    /// An empty informational header, as [`CperHeader::new`] builds it.
    pub open spec fn spec_new() -> CperHeader {
        CperHeader {
            revision: revision::Revision { major: 1u8, minor: 1u8 },
            section_count: 0u16,
            error_severity: ErrorSeverity::Informational,
            validation_bits: 0u32,
            record_length: 128u32,
            timestamp: None,
            platform_id: None,
            partition_id: None,
            creator_id: crate::guid::spec_creator_lcf(),
            notification_type: crate::guid::Guid { lo: 0u64, hi: 0u64 },
            record_id: 0u64,
            flags: 0u32,
            persistence_information: 0u64,
        }
    }

    /// This header with another section count.
    pub open spec fn spec_set_count(self, n: u16) -> CperHeader {
        CperHeader { section_count: n, ..self }
    }
}

impl Default for CperHeader {
    /// An empty informational header.
    fn default() -> (h: CperHeader)
        ensures
            h == CperHeader::spec_new(),
    {
        CperHeader::new()
    }
}

impl Default for Cper {
    /// An empty informational CPER.
    fn default() -> (r: Cper)
        ensures
            r@.header == CperHeader::spec_new(),
            r@.sections == Seq::<SectionV>::empty(),
            r.wf_texts(),
    {
        let r = Cper::new();
        proof {
            assert(r@.sections =~= Seq::<SectionV>::empty());
        }
        r
    }
}

/// The descriptors of the sections laid back to back.
pub open spec fn spec_desc_block(ss: Seq<SectionV>) -> Seq<u8>
    decreases ss.len(),
{
    if ss.len() == 0 {
        Seq::empty()
    } else {
        crate::cper::descr::spec_enc_descriptor(ss[0].descriptor) + spec_desc_block(ss.skip(1))
    }
}

/// The padded bodies of the sections laid back to back.
pub open spec fn spec_body_block(ss: Seq<SectionV>) -> Seq<u8>
    decreases ss.len(),
{
    if ss.len() == 0 {
        Seq::empty()
    } else {
        spec_padded_body(ss[0]) + spec_body_block(ss.skip(1))
    }
}

/// The full serialized form of a CPER record.
pub open spec fn spec_enc_cper(c: CperV) -> Seq<u8> {
    spec_enc_cper_header(c.header) + spec_desc_block(c.sections) + spec_body_block(c.sections)
}

proof fn lemma_desc_block_push(ss: Seq<SectionV>, x: SectionV)
    ensures
        spec_desc_block(ss.push(x)) =~= spec_desc_block(ss)
            + crate::cper::descr::spec_enc_descriptor(x.descriptor),
    decreases ss.len(),
{
    if ss.len() == 0 {
        assert(ss.push(x).skip(1) =~= ss);
        assert(ss.push(x)[0] == x);
        assert(spec_desc_block(ss.push(x)) == crate::cper::descr::spec_enc_descriptor(
            x.descriptor,
        ) + spec_desc_block(ss));
        assert(spec_desc_block(ss) =~= Seq::<u8>::empty());
        assert(spec_desc_block(ss.push(x)) =~= spec_desc_block(ss)
            + crate::cper::descr::spec_enc_descriptor(x.descriptor));
    } else {
        assert(ss.push(x).skip(1) =~= ss.skip(1).push(x));
        lemma_desc_block_push(ss.skip(1), x);
        assert(ss.push(x)[0] == ss[0]);
        assert(spec_desc_block(ss.push(x)) == crate::cper::descr::spec_enc_descriptor(
            ss[0].descriptor,
        ) + spec_desc_block(ss.skip(1).push(x)));
        assert(spec_desc_block(ss.push(x)) =~= spec_desc_block(ss)
            + crate::cper::descr::spec_enc_descriptor(x.descriptor));
    }
}

proof fn lemma_body_block_push(ss: Seq<SectionV>, x: SectionV)
    ensures
        spec_body_block(ss.push(x)) =~= spec_body_block(ss) + spec_padded_body(x),
    decreases ss.len(),
{
    if ss.len() == 0 {
        assert(ss.push(x).skip(1) =~= ss);
        assert(ss.push(x)[0] == x);
        assert(spec_body_block(ss.push(x)) == spec_padded_body(x) + spec_body_block(ss));
        assert(spec_body_block(ss) =~= Seq::<u8>::empty());
        assert(spec_body_block(ss.push(x)) =~= spec_body_block(ss) + spec_padded_body(x));
    } else {
        assert(ss.push(x).skip(1) =~= ss.skip(1).push(x));
        lemma_body_block_push(ss.skip(1), x);
        assert(ss.push(x)[0] == ss[0]);
        assert(spec_body_block(ss.push(x)) == spec_padded_body(ss[0]) + spec_body_block(
            ss.skip(1).push(x),
        ));
        assert(spec_body_block(ss.push(x)) =~= spec_body_block(ss) + spec_padded_body(x));
    }
}


proof fn lemma_sections_total_concat(a: Seq<SectionV>, b: Seq<SectionV>)
    ensures
        spec_sections_total(a + b) == spec_sections_total(a) + spec_sections_total(b),
    decreases a.len(),
{
    if a.len() == 0 {
        assert(a + b =~= b);
    } else {
        assert((a + b).skip(1) =~= a.skip(1) + b);
        lemma_sections_total_concat(a.skip(1), b);
        assert((a + b)[0] == a[0]);
        assert(spec_sections_total(a + b) == (a + b)[0].descriptor.section_length
            + spec_sections_total(a.skip(1) + b));
    }
}

/// The layout normalization keeps every section's body, length and FRU
/// fields, and sets each offset to the end of the previous section.
pub proof fn lemma_norm_sections_props(ss: Seq<SectionV>, cursor: int)
    ensures
        spec_norm_sections(ss, cursor).len() == ss.len(),
        forall|j: int|
            0 <= j < ss.len() ==> #[trigger] spec_norm_sections(ss, cursor)[j] == (SectionV {
                descriptor: spec_norm_desc(
                    ss[j].descriptor,
                    cursor + spec_sections_total(ss.take(j)),
                ),
                body: ss[j].body,
            }),
    decreases ss.len(),
{
    if ss.len() > 0 {
        lemma_norm_sections_props(ss.skip(1), cursor + ss[0].descriptor.section_length);
        assert(ss.take(0int) =~= Seq::<SectionV>::empty());
        assert forall|j: int| 0 <= j < ss.len() implies #[trigger] spec_norm_sections(
            ss,
            cursor,
        )[j] == (SectionV {
            descriptor: spec_norm_desc(ss[j].descriptor, cursor + spec_sections_total(ss.take(j))),
            body: ss[j].body,
        }) by {
            if j == 0 {
                assert(spec_sections_total(ss.take(0int)) == 0);
            } else {
                assert(spec_norm_sections(ss, cursor)[j] == spec_norm_sections(
                    ss.skip(1),
                    cursor + ss[0].descriptor.section_length,
                )[j - 1]);
                assert(ss.skip(1)[j - 1] == ss[j]);
                assert(ss.take(j) =~= seq![ss[0]] + ss.skip(1).take(j - 1));
                lemma_sections_total_concat(seq![ss[0]], ss.skip(1).take(j - 1));
                assert(spec_sections_total(seq![ss[0]]) == ss[0].descriptor.section_length) by {
                    let single = seq![ss[0]];
                    assert(single.skip(1) =~= Seq::<SectionV>::empty());
                    assert(spec_sections_total(single) == single[0].descriptor.section_length
                        + spec_sections_total(single.skip(1)));
                    assert(spec_sections_total(single.skip(1)) == 0);
                }
            }
        }
    }
}


/// One section of a laid-out record: its descriptor points at `off`,
/// declares exactly the body's length, types the body by its GUID, and
/// both are internally well formed.
pub open spec fn spec_section_wf(sv: SectionV, off: int) -> bool {
    &&& sv.descriptor.section_offset == off
    &&& sv.descriptor.section_length == sv.body.spec_bytes().len()
    &&& sv.descriptor.section_type == sv.body.spec_guid()
    &&& (sv.descriptor.fru_text matches Some(t) ==> t.len() == 20)
    &&& sv.descriptor.validation_bits == (if sv.descriptor.fru_id is Some {
        VALID_FRU_ID
    } else {
        0u8
    }) | (if sv.descriptor.fru_text is Some {
        VALID_FRU_STRING
    } else {
        0u8
    })
    &&& sv.body.wf()
    &&& (sv.body matches BodyV::Unknown(g, _) ==> g != spec_fw_error_record())
}

/// A fully laid-out CPER value: the derived header fields agree with
/// the sections, every section sits at the end of the previous one,
/// and the whole record fits its 32-bit length field.
pub open spec fn spec_cper_wf(c: CperV) -> bool {
    &&& c.header.wf()
    &&& c.sections.len() <= 0xFFFF
    &&& c.header.section_count == c.sections.len()
    &&& 128 + 72 * c.sections.len() + spec_sections_total(c.sections) <= 0xFFFF_FFFF
    &&& c.header.record_length == 128 + 72 * c.sections.len() + spec_sections_total(c.sections)
    &&& (forall|j: int|
        0 <= j < c.sections.len() ==> spec_section_wf(
            #[trigger] c.sections[j],
            128 + 72 * c.sections.len() + spec_sections_total(c.sections.take(j)),
        ))
}

proof fn lemma_desc_block_len(ss: Seq<SectionV>)
    requires
        forall|j: int|
            0 <= j < ss.len() ==> (#[trigger] ss[j].descriptor.fru_text matches Some(t)
                ==> t.len() == 20),
    ensures
        spec_desc_block(ss).len() == 72 * ss.len(),
    decreases ss.len(),
{
    if ss.len() > 0 {
        assert forall|j: int| 0 <= j < ss.skip(1).len() implies (
        #[trigger] ss.skip(1)[j].descriptor.fru_text matches Some(t) ==> t.len() == 20) by {
            assert(ss.skip(1)[j] == ss[j + 1]);
        }
        lemma_desc_block_len(ss.skip(1));
        lemma_enc_descriptor_len(ss[0].descriptor);
    }
}

proof fn lemma_enc_descriptor_len(d: DescV)
    requires
        d.fru_text matches Some(t) ==> t.len() == 20,
    ensures
        crate::cper::descr::spec_enc_descriptor(d).len() == 72,
{
    vstd::bytes::lemma_auto_spec_u32_to_from_le_bytes();
    crate::guid::lemma_guid_roundtrip(d.section_type);
    if d.fru_id is Some {
        crate::guid::lemma_guid_roundtrip(d.fru_id->0);
    }
}

proof fn lemma_desc_block_index(ss: Seq<SectionV>, i: int)
    requires
        0 <= i < ss.len(),
        forall|j: int|
            0 <= j < ss.len() ==> (#[trigger] ss[j].descriptor.fru_text matches Some(t)
                ==> t.len() == 20),
    ensures
        spec_desc_block(ss).len() == 72 * ss.len(),
        spec_desc_block(ss).subrange(72 * i, 72 * i + 72) =~= crate::cper::descr
            ::spec_enc_descriptor(ss[i].descriptor),
    decreases i,
{
    lemma_desc_block_len(ss);
    lemma_enc_descriptor_len(ss[0].descriptor);
    if i == 0 {
        assert forall|k: int| 0 <= k < 72 implies spec_desc_block(ss)[k] == crate::cper::descr
            ::spec_enc_descriptor(ss[0].descriptor)[k] by {}
    } else {
        assert forall|j: int| 0 <= j < ss.skip(1).len() implies (
        #[trigger] ss.skip(1)[j].descriptor.fru_text matches Some(t) ==> t.len() == 20) by {
            assert(ss.skip(1)[j] == ss[j + 1]);
        }
        lemma_desc_block_index(ss.skip(1), i - 1);
        assert(ss.skip(1)[i - 1] == ss[i]);
        assert forall|k: int| 0 <= k < 72 implies spec_desc_block(ss)[72 * i + k] == crate::cper
            ::descr::spec_enc_descriptor(ss[i].descriptor)[k] by {
            assert(spec_desc_block(ss)[72 * i + k] == spec_desc_block(ss.skip(1))[72 * (i - 1)
                + k]);
            assert(spec_desc_block(ss.skip(1)).subrange(72 * (i - 1), 72 * (i - 1) + 72)[k]
                == spec_desc_block(ss.skip(1))[72 * (i - 1) + k]);
        }
    }
}

proof fn lemma_body_block_len(ss: Seq<SectionV>)
    requires
        forall|j: int|
            0 <= j < ss.len() ==> #[trigger] ss[j].descriptor.section_length == ss[j].body
                .spec_bytes().len(),
    ensures
        spec_body_block(ss).len() == spec_sections_total(ss),
        forall|j: int| 0 <= j < ss.len() ==> #[trigger] spec_padded_body(ss[j]) == ss[j].body
            .spec_bytes(),
    decreases ss.len(),
{
    assert forall|j: int| 0 <= j < ss.len() implies #[trigger] spec_padded_body(ss[j]) == ss[j]
        .body.spec_bytes() by {
        assert(ss[j].body.spec_bytes().take(ss[j].descriptor.section_length as int) =~= ss[j]
            .body.spec_bytes());
    }
    if ss.len() > 0 {
        assert forall|j: int| 0 <= j < ss.skip(1).len() implies #[trigger] ss.skip(
            1,
        )[j].descriptor.section_length == ss.skip(1)[j].body.spec_bytes().len() by {
            assert(ss.skip(1)[j] == ss[j + 1]);
        }
        lemma_body_block_len(ss.skip(1));
    }
}

proof fn lemma_body_block_index(ss: Seq<SectionV>, i: int)
    requires
        0 <= i < ss.len(),
        forall|j: int|
            0 <= j < ss.len() ==> #[trigger] ss[j].descriptor.section_length == ss[j].body
                .spec_bytes().len(),
    ensures
        spec_body_block(ss).subrange(
            spec_sections_total(ss.take(i)),
            spec_sections_total(ss.take(i)) + ss[i].descriptor.section_length,
        ) =~= ss[i].body.spec_bytes(),
    decreases i,
{
    lemma_body_block_len(ss);
    lemma_sections_total_bounds(ss.take(i));
    if i == 0 {
        assert(ss.take(0int) =~= Seq::<SectionV>::empty());
        assert forall|k: int| 0 <= k < ss[0].descriptor.section_length implies spec_body_block(
            ss,
        )[k] == ss[0].body.spec_bytes()[k] by {
            assert(spec_padded_body(ss[0]) == ss[0].body.spec_bytes());
        }
    } else {
        assert forall|j: int| 0 <= j < ss.skip(1).len() implies #[trigger] ss.skip(
            1,
        )[j].descriptor.section_length == ss.skip(1)[j].body.spec_bytes().len() by {
            assert(ss.skip(1)[j] == ss[j + 1]);
        }
        lemma_body_block_index(ss.skip(1), i - 1);
        lemma_body_block_len(ss.skip(1));
        assert(ss.skip(1)[i - 1] == ss[i]);
        assert(ss.take(i) =~= seq![ss[0]] + ss.skip(1).take(i - 1));
        lemma_sections_total_concat(seq![ss[0]], ss.skip(1).take(i - 1));
        assert(spec_sections_total(seq![ss[0]]) == ss[0].descriptor.section_length) by {
            let single = seq![ss[0]];
            assert(single.skip(1) =~= Seq::<SectionV>::empty());
            assert(spec_sections_total(single) == single[0].descriptor.section_length
                + spec_sections_total(single.skip(1)));
            assert(spec_sections_total(single.skip(1)) == 0);
        }
        let p0 = ss[0].descriptor.section_length as int;
        let base = spec_sections_total(ss.take(i));
        let li = ss[i].descriptor.section_length as int;
        lemma_sections_total_bounds(ss.skip(1).take(i - 1));
        assert(spec_padded_body(ss[0]) == ss[0].body.spec_bytes());
        assert(spec_padded_body(ss[0]).len() == p0);
        let base1 = spec_sections_total(ss.skip(1).take(i - 1));
        assert(base == p0 + base1);
        lemma_sections_total_concat(ss.skip(1).take(i - 1), ss.skip(1).skip(i - 1));
        assert(ss.skip(1).take(i - 1) + ss.skip(1).skip(i - 1) =~= ss.skip(1));
        assert(spec_sections_total(ss.skip(1).skip(i - 1)) >= li) by {
            let rest = ss.skip(1).skip(i - 1);
            assert(rest[0] == ss[i]);
            lemma_sections_total_bounds(rest.skip(1));
            assert(spec_sections_total(rest) == rest[0].descriptor.section_length
                + spec_sections_total(rest.skip(1)));
        }
        assert(base1 + li <= spec_sections_total(ss.skip(1)));
        lemma_sections_total_bounds(ss.skip(1).take(i - 1));
        assert forall|k: int| 0 <= k < li implies spec_body_block(ss)[base + k] == ss[i].body
            .spec_bytes()[k] by {
            assert(spec_body_block(ss)[base + k] == spec_body_block(ss.skip(1))[base1 + k]);
            assert(spec_body_block(ss.skip(1)).subrange(base1, base1 + li)[k] == spec_body_block(
                ss.skip(1),
            )[base1 + k]);
        }
    }
}

proof fn lemma_parse_enc_sections(c: CperV, e: Seq<u8>, i: int)
    requires
        spec_cper_wf(c),
        e == spec_enc_cper(c),
        0 <= i <= c.sections.len(),
    ensures
        spec_parse_sections(e, c.sections.len() as int, i) =~= c.sections.skip(i),
    decreases c.sections.len() - i,
{
    let n = c.sections.len() as int;
    let ss = c.sections;
    assert forall|j: int| 0 <= j < ss.len() implies (
    #[trigger] ss[j].descriptor.fru_text matches Some(t) ==> t.len() == 20) by {
        assert(spec_section_wf(ss[j], 128 + 72 * n + spec_sections_total(ss.take(j))));
    }
    assert forall|j: int| 0 <= j < ss.len() implies #[trigger] ss[j].descriptor.section_length
        == ss[j].body.spec_bytes().len() by {
        assert(spec_section_wf(ss[j], 128 + 72 * n + spec_sections_total(ss.take(j))));
    }
    lemma_desc_block_len(ss);
    lemma_body_block_len(ss);
    crate::cper::header::lemma_enc_cper_header_len(c.header);
    assert(e.len() == 128 + 72 * n + spec_sections_total(ss));
    if i == n {
        assert(ss.skip(i) =~= Seq::<SectionV>::empty());
    } else {
        assert(spec_section_wf(ss[i], 128 + 72 * n + spec_sections_total(ss.take(i))));
        lemma_sections_total_bounds(ss.take(i));
        let idx = 128 + 72 * i;
        lemma_desc_block_index(ss, i);
        let de = crate::cper::descr::spec_enc_descriptor(ss[i].descriptor);
        assert(e.skip(idx).len() >= 72);
        assert(e.skip(idx).subrange(0, 72) =~= de) by {
            assert forall|k: int| 0 <= k < 72 implies e.skip(idx).subrange(0, 72)[k] == de[k] by {
                assert(e[idx + k] == spec_desc_block(ss)[72 * i + k]);
                assert(spec_desc_block(ss).subrange(72 * i, 72 * i + 72)[k] == spec_desc_block(
                    ss,
                )[72 * i + k]);
            }
        }
        crate::cper::descr::lemma_parse_descriptor_prefix(e.skip(idx), ss[i].descriptor);
        let d = ss[i].descriptor;
        let off = d.section_offset as int;
        let li = d.section_length as int;
        let base = 128 + 72 * n;
        assert(off == base + spec_sections_total(ss.take(i)));
        lemma_sections_total_concat(ss.take(i), ss.skip(i));
        assert(ss.take(i) + ss.skip(i) =~= ss);
        lemma_sections_total_bounds(ss.skip(i));
        assert(spec_sections_total(ss.skip(i)) >= li) by {
            assert(ss.skip(i)[0] == ss[i]);
            lemma_sections_total_bounds(ss.skip(i).skip(1));
            assert(spec_sections_total(ss.skip(i)) == ss[i].descriptor.section_length
                + spec_sections_total(ss.skip(i).skip(1)));
        }
        assert(off + li <= e.len());
        lemma_body_block_index(ss, i);
        assert(e.subrange(off, off + li) =~= ss[i].body.spec_bytes()) by {
            assert forall|k: int| 0 <= k < li implies e.subrange(off, off + li)[k] == ss[i].body
                .spec_bytes()[k] by {
                assert(e[off + k] == spec_body_block(ss)[spec_sections_total(ss.take(i)) + k]);
                assert(spec_body_block(ss).subrange(
                    spec_sections_total(ss.take(i)),
                    spec_sections_total(ss.take(i)) + li,
                )[k] == spec_body_block(ss)[spec_sections_total(ss.take(i)) + k]);
            }
        }
        match ss[i].body {
            BodyV::Fer(f) => {
                crate::cper::fer::lemma_fer_roundtrip(f);
                assert(spec_parse_body(d.section_type, e.subrange(off, off + li)) == Some(
                    ss[i].body,
                ));
            },
            BodyV::Unknown(g, data) => {
                assert(spec_parse_body(d.section_type, e.subrange(off, off + li)) == Some(
                    ss[i].body,
                ));
            },
        }
        lemma_parse_enc_sections(c, e, i + 1);
        assert(seq![ss[i]] + ss.skip(i + 1) =~= ss.skip(i));
    }
}

/// The layout normalization is the identity on an already laid-out
/// record.
pub proof fn lemma_normalize_identity(c: CperV)
    requires
        spec_cper_wf(c),
    ensures
        spec_normalize(c) == c,
{
    let n = c.sections.len() as int;
    let start = 128 + 72 * n;
    lemma_norm_sections_props(c.sections, start);
    assert forall|j: int| 0 <= j < n implies spec_norm_sections(c.sections, start)[j]
        == c.sections[j] by {
        assert(spec_section_wf(c.sections[j], start + spec_sections_total(c.sections.take(j))));
        lemma_sections_total_bounds(c.sections.take(j));
        assert(spec_norm_desc(
            c.sections[j].descriptor,
            start + spec_sections_total(c.sections.take(j)),
        ) =~= c.sections[j].descriptor);
        assert(spec_norm_sections(c.sections, start)[j] =~= c.sections[j]);
    }
    assert(spec_norm_sections(c.sections, start) =~= c.sections);
    assert(spec_normalize(c) =~= c);
}

/// Serializing a laid-out CPER and parsing the bytes back yields the
/// same record: equal header fields, equal sections, equal body bytes.
pub proof fn lemma_cper_roundtrip(c: CperV)
    requires
        spec_cper_wf(c),
    ensures
        spec_cper_ok(spec_enc_cper(c)),
        spec_cper_parse(spec_enc_cper(c)) == c,
        spec_normalize(spec_cper_parse(spec_enc_cper(c))) == c,
{
    let e = spec_enc_cper(c);
    let n = c.sections.len() as int;
    assert forall|j: int| 0 <= j < c.sections.len() implies (
    #[trigger] c.sections[j].descriptor.fru_text matches Some(t) ==> t.len() == 20) by {
        assert(spec_section_wf(
            c.sections[j],
            128 + 72 * n + spec_sections_total(c.sections.take(j)),
        ));
    }
    lemma_desc_block_len(c.sections);
    crate::cper::header::lemma_cper_header_roundtrip(c.header);
    crate::cper::header::lemma_enc_cper_header_len(c.header);
    assert(e.subrange(0, 128) =~= spec_enc_cper_header(c.header));
    assert(spec_cper_ok(e));
    assert(spec_parse_cper_header(e.subrange(0, 128)) == c.header);
    lemma_parse_enc_sections(c, e, 0);
    assert(c.sections.skip(0int) =~= c.sections);
    assert(spec_cper_parse(e) =~= c);
    lemma_normalize_identity(c);
}


/// The header of a CPER built from a Crash Log: fatal severity, the
/// boot notification type, the extraction time when one is known.
pub open spec fn spec_crashlog_header(time: Option<crate::metadata::Time>) -> CperHeader {
    CperHeader {
        error_severity: ErrorSeverity::Fatal,
        notification_type: crate::guid::spec_notification_boot(),
        timestamp: match time {
            Some(t) => Some(Timestamp::spec_from_time(t)),
            None => None,
        },
        ..CperHeader::spec_new()
    }
}

/// The section of one region as the Crash Log wrapper emits it: a
/// fatal Firmware Error Record.
pub open spec fn spec_region_section_fatal(rv: Seq<RecordV>) -> SectionV {
    SectionV {
        descriptor: DescV {
            section_severity: SectionSeverity::Fatal,
            ..spec_region_section(rv).descriptor
        },
        body: spec_region_section(rv).body,
    }
}

} // verus!
