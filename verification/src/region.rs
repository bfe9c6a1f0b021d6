//! Walking a buffer of back-to-back Crash Log records.

use crate::error::Error;
use crate::header::{Header, HeaderV, spec_header_from_slice};
use crate::record::{Record, RecordV, spec_trailer_len};
use vstd::prelude::*;
use vstd::slice::{slice_subrange, slice_to_vec};

verus! {

/// An ordered sequence of Crash Log records parsed from one buffer,
/// terminated by a sentinel version word or by the end of the buffer.
#[derive(Debug)]
pub struct Region {
    /// The records of the region, in buffer order.
    pub records: Vec<Record>,
}

impl View for Region {
    type V = Seq<RecordV>;

    open spec fn view(&self) -> Seq<RecordV> {
        self.records@.map_values(|r: Record| r@)
    }
}

/// Outcome of walking a record stream: the records read and the number
/// of bytes consumed before the walk stopped.
#[verifier::ext_equal]
pub ghost struct RegionParse {
    pub records: Seq<RecordV>,
    pub consumed: int,
}

/// What walking the buffer `s` from byte `off` yields: records are
/// sliced off the front until a terminator, a buffer too small for
/// another header or record, or a structural error. A record whose
/// declared size cannot even hold its own header is structurally
/// impossible.
pub open spec fn spec_region_parse(s: Seq<u8>, off: int) -> Result<RegionParse, Error>
    decreases s.len() - off,
{
    if off < 0 || s.len() - off < 8 {
        Ok(RegionParse { records: Seq::empty(), consumed: off })
    } else {
        match spec_header_from_slice(s.skip(off)) {
            Err(e) => Err(e),
            Ok(None) => Ok(RegionParse { records: Seq::empty(), consumed: off }),
            Ok(Some(h)) => {
                let rs = h.spec_record_size();
                if rs < h.spec_header_size() + spec_trailer_len(h) {
                    Err(Error::InvalidHeader)
                } else if off + rs > s.len() {
                    Ok(RegionParse { records: Seq::empty(), consumed: off })
                } else {
                    match spec_region_parse(s, off + rs) {
                        Err(e) => Err(e),
                        Ok(rest) => Ok(
                            RegionParse {
                                records: seq![
                                    RecordV { header: h, data: s.subrange(off, off + rs) },
                                ] + rest.records,
                                consumed: rest.consumed,
                            },
                        ),
                    }
                }
            },
        }
    }
}

/// Prefixes already-walked records onto the outcome of the remaining
/// walk.
pub open spec fn spec_prepend_parse(pre: Seq<RecordV>, r: Result<RegionParse, Error>) -> Result<
    RegionParse,
    Error,
> {
    match r {
        Err(e) => Err(e),
        Ok(p) => Ok(RegionParse { records: pre + p.records, consumed: p.consumed }),
    }
}

/// The bytes of a record sequence laid back to back.
pub open spec fn spec_records_bytes(rs: Seq<RecordV>) -> Seq<u8>
    decreases rs.len(),
{
    if rs.len() == 0 {
        Seq::empty()
    } else {
        rs[0].data + spec_records_bytes(rs.skip(1))
    }
}

proof fn lemma_records_bytes_push(rs: Seq<RecordV>, x: RecordV)
    ensures
        spec_records_bytes(rs.push(x)) =~= spec_records_bytes(rs) + x.data,
    decreases rs.len(),
{
    if rs.len() == 0 {
        assert(rs.push(x).skip(1) =~= Seq::<RecordV>::empty());
        assert(rs.push(x)[0] == x);
        assert(spec_records_bytes(rs.push(x)) == x.data + spec_records_bytes(
            Seq::<RecordV>::empty(),
        ));
        assert(spec_records_bytes(rs.push(x)) =~= spec_records_bytes(rs) + x.data);
    } else {
        assert(rs.push(x).skip(1) =~= rs.skip(1).push(x));
        lemma_records_bytes_push(rs.skip(1), x);
        assert(rs.push(x)[0] == rs[0]);
        assert(spec_records_bytes(rs.push(x)) == rs[0].data + spec_records_bytes(
            rs.skip(1).push(x),
        ));
        assert(spec_records_bytes(rs.push(x)) =~= spec_records_bytes(rs) + x.data);
    }
}

/// Every record of the region fits its own header and checksum trailer.
pub open spec fn spec_region_wf(rv: Seq<RecordV>) -> bool {
    forall|i: int|
        0 <= i < rv.len() ==> #[trigger] rv[i].header.spec_header_size() + spec_trailer_len(
            rv[i].header,
        ) <= rv[i].data.len()
}

impl Region {
    /// Every record of the region fits its own header and trailer.
    pub open spec fn wf(self) -> bool {
        spec_region_wf(self@)
    }

    /// A region holding no records.
    pub fn empty() -> (r: Region)
        ensures
            r@ =~= Seq::<RecordV>::empty(),
    {
        Region { records: Vec::new() }
    }

    /// Walks the records stored back to back in `bytes` until a
    /// terminator word, the end of the buffer, or a structural error.
    pub fn from_slice(bytes: &[u8]) -> (r: Result<Region, Error>)
        ensures
            match r {
                Ok(region) => (spec_region_parse(bytes@, 0) matches Ok(p) && region@ == p.records
                    && region.wf()),
                Err(e) => spec_region_parse(bytes@, 0) == Err::<RegionParse, Error>(e),
            },
    {
        let len: usize = bytes.len();
        let mut records: Vec<Record> = Vec::new();
        let mut offset: usize = 0;
        loop
            invariant
                offset <= len,
                len == bytes@.len(),
                spec_region_parse(bytes@, 0) == spec_prepend_parse(
                    records@.map_values(|r: Record| r@),
                    spec_region_parse(bytes@, offset as int),
                ),
                spec_region_wf(records@.map_values(|r: Record| r@)),
            ensures
                len == bytes@.len(),
                offset <= len,
                spec_region_parse(bytes@, 0) == spec_prepend_parse(
                    records@.map_values(|r: Record| r@),
                    spec_region_parse(bytes@, offset as int),
                ),
                spec_region_wf(records@.map_values(|r: Record| r@)),
                spec_region_parse(bytes@, offset as int) == Ok::<RegionParse, Error>(
                    RegionParse { records: Seq::empty(), consumed: offset as int },
                ),
            decreases len - offset,
        {
            let ghost done = records@.map_values(|r: Record| r@);
            if len - offset < 8 {
                break ;
            }
            let rest = slice_subrange(bytes, offset, len);
            proof {
                assert(rest@ =~= bytes@.skip(offset as int));
            }
            let header = match Header::from_slice(rest) {
                Err(e) => {
                    return Err(e);
                },
                Ok(None) => {
                    break ;
                },
                Ok(Some(h)) => h,
            };
            let record_size = header.record_size();
            let trailer: usize = if header.version.cldic {
                4
            } else {
                0
            };
            if record_size < header.header_size() + trailer {
                return Err(Error::InvalidHeader);
            }
            if record_size > len - offset {
                break ;
            }
            let data = slice_to_vec(slice_subrange(bytes, offset, offset + record_size));
            proof {
                assert(bytes@.skip(offset as int).subrange(0, record_size as int) =~= bytes@
                    .subrange(offset as int, offset + record_size));
            }
            let ghost hv = header@;
            records.push(Record::new(header, data));
            proof {
                let s = bytes@;
                let newrec = RecordV { header: hv, data: s.subrange(offset as int, offset + record_size) };
                assert(records@.map_values(|r: Record| r@) =~= done.push(newrec));
                let next = spec_region_parse(s, offset + record_size);
                assert(spec_region_parse(s, offset as int) == spec_prepend_parse(
                    seq![newrec],
                    next,
                ));
                match next {
                    Err(e) => {},
                    Ok(p) => {
                        assert(done + (seq![newrec] + p.records) =~= done.push(newrec)
                            + p.records);
                    },
                }
            }
            offset = offset + record_size;
        }
        proof {
            assert(records@.map_values(|r: Record| r@) + Seq::<RecordV>::empty() =~= records@
                .map_values(|r: Record| r@));
        }
        Ok(Region { records })
    }

    /// Serializes the region: the raw bytes of every record laid back
    /// to back, without a trailing terminator word.
    pub fn to_bytes(&self) -> (b: Vec<u8>)
        ensures
            b@ == spec_records_bytes(self@),
    {
        let mut bytes: Vec<u8> = Vec::new();
        let n = self.records.len();
        let mut i: usize = 0;
        while i < n
            invariant
                i <= n,
                n == self.records@.len(),
                bytes@ == spec_records_bytes(self@.take(i as int)),
            decreases n - i,
        {
            proof {
                assert(self@.take(i as int).push(self@[i as int]) =~= self@.take(i + 1));
                lemma_records_bytes_push(self@.take(i as int), self@[i as int]);
            }
            bytes.extend_from_slice(self.records[i].data.as_slice());
            i += 1;
        }
        proof {
            assert(self@.take(n as int) =~= self@);
        }
        bytes
    }
}

/// Walking a buffer consumes a prefix of it, and the records read are
/// that prefix byte for byte: decoding then re-encoding a region
/// reproduces the input up to the trailing terminator.
pub proof fn lemma_region_roundtrip(s: Seq<u8>)
    requires
        spec_region_parse(s, 0) is Ok,
    ensures
        spec_region_parse(s, 0) matches Ok(p) ==> 0 <= p.consumed <= s.len()
            && spec_records_bytes(p.records) =~= s.subrange(0, p.consumed),
{
    lemma_region_parse_bytes(s, 0);
}

proof fn lemma_region_parse_bytes(s: Seq<u8>, off: int)
    requires
        0 <= off <= s.len(),
        spec_region_parse(s, off) is Ok,
    ensures
        spec_region_parse(s, off) matches Ok(p) ==> off <= p.consumed <= s.len()
            && spec_records_bytes(p.records) =~= s.subrange(off, p.consumed),
    decreases s.len() - off,
{
    if s.len() - off < 8 {
        assert(s.subrange(off, off) =~= Seq::<u8>::empty());
    } else {
        match spec_header_from_slice(s.skip(off)) {
            Err(e) => {},
            Ok(None) => {
                assert(s.subrange(off, off) =~= Seq::<u8>::empty());
            },
            Ok(Some(h)) => {
                let rs = h.spec_record_size();
                if rs < h.spec_header_size() + spec_trailer_len(h) {
                } else if off + rs > s.len() {
                    assert(s.subrange(off, off) =~= Seq::<u8>::empty());
                } else {
                    lemma_region_parse_bytes(s, off + rs);
                    match spec_region_parse(s, off + rs) {
                        Err(e) => {},
                        Ok(rest) => {
                            let full = seq![
                                RecordV { header: h, data: s.subrange(off, off + rs) },
                            ] + rest.records;
                            assert(full.skip(1) =~= rest.records);
                            assert(full[0].data == s.subrange(off, off + rs));
                            assert(spec_records_bytes(full) =~= s.subrange(off, off + rs)
                                + s.subrange(off + rs, rest.consumed));
                            assert(s.subrange(off, off + rs) + s.subrange(off + rs, rest.consumed)
                                =~= s.subrange(off, rest.consumed));
                        },
                    }
                }
            },
        }
    }
}

} // verus!
