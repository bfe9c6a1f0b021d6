//! Codec and decoding engine for Intel platform Crash Log records.
//!
//! The crate decodes the variable-length record headers emitted by firmware
//! and silicon agents, walks regions of back-to-back records, wraps regions
//! into UEFI Common Platform Error Records (CPER) and back, and decodes
//! record payloads into a hierarchical node tree driven by CSV decode
//! definitions.

pub mod collateral;
pub mod cper;
pub mod decode;
pub mod error;
pub mod header;
pub mod header_node;
pub mod metadata;
pub mod node;
pub mod paths;
pub mod record;
pub mod region;
pub mod strutil;
pub mod guid;
pub mod wire;

use crate::collateral::{CollateralManager, CollateralTree};
use crate::cper::section::{spec_body_section, BodyV, CperSectionBody};
use crate::cper::{spec_crashlog_header, spec_normalize, Cper, CperV};
use crate::error::Error;
use crate::metadata::Metadata;
use crate::node::nv;
use crate::record::RecordV;
use crate::region::{spec_records_bytes, spec_region_parse, Region, RegionParse};
use vstd::prelude::*;

verus! {

/// A set of Crash Log regions with the metadata that came with them.
#[derive(Debug)]
pub struct CrashLog {
    /// The regions of the log, in extraction order.
    pub regions: Vec<Region>,
    /// Where and when the log was extracted, and any CPER sections
    /// that rode along.
    pub metadata: Metadata,
}

/// The payloads of the sections of a parsed CPER that carry Crash Log
/// regions: revision 2 Firmware Error Records marked with the Crash
/// Log record identifier.
pub open spec fn spec_cl_payloads(ss: Seq<crate::cper::section::SectionV>) -> Seq<Seq<u8>>
    decreases ss.len(),
{
    if ss.len() == 0 {
        Seq::empty()
    } else {
        let rest = spec_cl_payloads(ss.skip(1));
        match ss[0].body {
            BodyV::Fer(f) => {
                if f.header.guid == crate::guid::spec_record_id_crashlog() {
                    seq![f.payload] + rest
                } else {
                    rest
                }
            },
            BodyV::Unknown(_, _) => rest,
        }
    }
}

/// The section bodies of a parsed CPER that do not carry Crash Log
/// regions.
pub open spec fn spec_cl_extras(ss: Seq<crate::cper::section::SectionV>) -> Seq<BodyV>
    decreases ss.len(),
{
    if ss.len() == 0 {
        Seq::empty()
    } else {
        let rest = spec_cl_extras(ss.skip(1));
        match ss[0].body {
            BodyV::Fer(f) => {
                if f.header.guid == crate::guid::spec_record_id_crashlog() {
                    rest
                } else {
                    seq![ss[0].body] + rest
                }
            },
            BodyV::Unknown(_, _) => seq![ss[0].body] + rest,
        }
    }
}

impl CrashLog {
    /// Every record of every region fits its own header and trailer.
    pub open spec fn wf(self) -> bool {
        forall|i: int|
            0 <= i < self.regions@.len() ==> crate::region::spec_region_wf(
                #[trigger] self.regions@[i]@,
            )
    }

    /// Reads one Crash Log region from a raw buffer.
    pub fn from_slice(data: &[u8]) -> (r: Result<CrashLog, Error>)
        ensures
            match r {
                Ok(cl) => (spec_region_parse(data@, 0) matches Ok(p) && cl.regions@.len() == 1
                    && cl.regions@[0]@ == p.records && cl.wf() && cl.metadata.computer is None
                    && cl.metadata.time is None && cl.metadata.extra_cper_sections@.len() == 0),
                Err(e) => spec_region_parse(data@, 0) == Err::<RegionParse, Error>(e),
            },
    {
        let region = match Region::from_slice(data) {
            Err(e) => {
                return Err(e);
            },
            Ok(rg) => rg,
        };
        let mut regions: Vec<Region> = Vec::new();
        regions.push(region);
        Ok(CrashLog { regions, metadata: Metadata::new() })
    }

    /// Unwraps a CPER into a Crash Log: each section holding a region
    /// becomes one, every other section body is kept as metadata. A
    /// region that cannot be walked fails the whole unwrap.
    pub fn from_cper(cper: Cper) -> (r: Result<CrashLog, Error>)
        ensures
            match r {
                Ok(cl) => {
                    let payloads = spec_cl_payloads(cper@.sections);
                    &&& cl.regions@.len() == payloads.len()
                    &&& (forall|i: int|
                        0 <= i < payloads.len() ==> (spec_region_parse(#[trigger] payloads[i], 0)
                            matches Ok(p) && cl.regions@[i]@ == p.records))
                    &&& cl.wf()
                    &&& cl.metadata.extra_cper_sections@.map_values(|b: CperSectionBody| b@)
                        == spec_cl_extras(cper@.sections)
                    &&& cl.metadata.computer is None
                    &&& cl.metadata.time is None
                },
                Err(e) => exists|i: int|
                    0 <= i < spec_cl_payloads(cper@.sections).len() && spec_region_parse(
                        #[trigger] spec_cl_payloads(cper@.sections)[i],
                        0,
                    ) == Err::<RegionParse, Error>(e),
            },
    {
        let mut regions: Vec<Region> = Vec::new();
        let mut extras: Vec<CperSectionBody> = Vec::new();
        let n = cper.sections.len();
        let mut i: usize = 0;
        proof {
            assert(cper@.sections.skip(0int) =~= cper@.sections);
        }
        while i < n
            invariant
                i <= n,
                n == cper.sections@.len(),
                regions@.len() + spec_cl_payloads(cper@.sections.skip(i as int)).len()
                    == spec_cl_payloads(cper@.sections).len(),
                forall|j: int|
                    0 <= j < regions@.len() ==> (spec_region_parse(
                        #[trigger] spec_cl_payloads(cper@.sections)[j],
                        0,
                    ) matches Ok(p) && regions@[j]@ == p.records),
                forall|j: int|
                    0 <= j < spec_cl_payloads(cper@.sections.skip(i as int)).len()
                        ==> #[trigger] spec_cl_payloads(cper@.sections.skip(i as int))[j]
                        == spec_cl_payloads(cper@.sections)[regions@.len() + j],
                forall|j: int|
                    0 <= j < regions@.len() ==> crate::region::spec_region_wf(
                        #[trigger] regions@[j]@,
                    ),
                extras@.map_values(|b: CperSectionBody| b@) + spec_cl_extras(
                    cper@.sections.skip(i as int),
                ) =~= spec_cl_extras(cper@.sections),
            decreases n - i,
        {
            let ghost tail = cper@.sections.skip(i as int);
            proof {
                assert(tail[0] == cper@.sections[i as int]);
                assert(tail.skip(1) =~= cper@.sections.skip(i + 1));
            }
            let section = &cper.sections[i];
            let mut is_region = false;
            if let CperSectionBody::FirmwareErrorRecord(f) = &section.body {
                let marker = crate::guid::record_id_crashlog();
                if f.header.guid.lo == marker.lo && f.header.guid.hi == marker.hi {
                    is_region = true;
                    let region = match Region::from_slice(f.payload.as_slice()) {
                        Err(e) => {
                            proof {
                                let payloads = spec_cl_payloads(cper@.sections);
                                assert(spec_cl_payloads(tail)[0] == f.payload@);
                                assert(payloads[regions@.len() as int] == f.payload@);
                            }
                            return Err(e);
                        },
                        Ok(rg) => rg,
                    };
                    let ghost pre = regions@;
                    regions.push(region);
                    proof {
                        assert(regions@.map_values(|rg: Region| rg@) =~= pre.map_values(
                            |rg: Region| rg@,
                        ).push(region@));
                        assert(spec_cl_payloads(tail)[0] == f.payload@);
                        assert forall|j: int|
                            0 <= j < spec_cl_payloads(cper@.sections.skip(i + 1)).len() implies
                            #[trigger] spec_cl_payloads(cper@.sections.skip(i + 1))[j]
                            == spec_cl_payloads(cper@.sections)[regions@.len() + j] by {
                            assert(spec_cl_payloads(tail)[j + 1] == spec_cl_payloads(
                                tail.skip(1),
                            )[j]);
                        }
                    }
                }
            }
            if !is_region {
                let ghost pre = extras@;
                let body = section.body.duplicate();
                let ghost bv = body@;
                extras.push(body);
                proof {
                    assert(extras@.map_values(|b: CperSectionBody| b@) =~= pre.map_values(
                        |b: CperSectionBody| b@,
                    ).push(bv));
                    assert(spec_cl_extras(tail)[0] == cper@.sections[i as int].body);
                    assert(extras@.map_values(|b: CperSectionBody| b@) + spec_cl_extras(
                        cper@.sections.skip(i + 1),
                    ) =~= spec_cl_extras(cper@.sections));
                }
            }
            i += 1;
        }
        proof {
            assert(cper@.sections.skip(n as int) =~= Seq::<crate::cper::section::SectionV>::empty());
            assert(extras@.map_values(|b: CperSectionBody| b@) + Seq::<BodyV>::empty()
                =~= extras@.map_values(|b: CperSectionBody| b@));
        }
        let mut metadata = Metadata::new();
        metadata.extra_cper_sections = extras;
        Ok(CrashLog { regions, metadata })
    }

    /// Serializes the Crash Log as a CPER.
    pub fn to_bytes(&self) -> (b: Vec<u8>)
        requires
            self.regions@.len() + self.metadata.extra_cper_sections@.len() <= 0xFFFF,
            forall|i: int|
                0 <= i < self.regions@.len() ==> 32 + spec_records_bytes(
                    #[trigger] self.regions@[i]@,
                ).len() <= u32::MAX,
            forall|i: int|
                0 <= i < self.metadata.extra_cper_sections@.len()
                    ==> (#[trigger] self.metadata.extra_cper_sections@[i])@.spec_bytes().len()
                    <= u32::MAX,
        ensures
            b@ == crate::cper::spec_enc_cper(
                spec_normalize(
                    CperV {
                        header: spec_crashlog_header(self.metadata.time),
                        sections: self.regions@.map_values(
                            |rg: Region| crate::cper::spec_region_section_fatal(rg@),
                        ) + self.metadata.extra_cper_sections@.map_values(
                            |bd: CperSectionBody| spec_body_section(bd@),
                        ),
                    },
                ),
            ),
    {
        Cper::from_raw_crashlog(self).to_bytes()
    }

    /// Decodes every record of every region into one node tree, each
    /// nested under its own hierarchy root: the result is the decode
    /// trees of all records, in order, merged left to right into a
    /// fresh root.
    pub fn decode<T: CollateralTree>(&self, cm: &mut CollateralManager<T>) -> (r:
        crate::node::Node)
        requires
            forall|i: int, j: int|
                0 <= i < self.regions@.len() && 0 <= j < self.regions@[i].records@.len()
                    ==> (#[trigger] self.regions@[i].records@[j]).data@.len() * 8 <= usize::MAX,
        ensures
            final(cm).target_info == old(cm).target_info,
            exists|trees: Seq<Seq<crate::node::NodeV>>|
                #![trigger spec_fold_region_trees(crate::decode::nv_root(), trees, 0)]
                trees.len() == self.regions@.len() && (forall|i: int|
                    0 <= i < trees.len() ==> #[trigger] trees[i].len()
                        == self.regions@[i].records@.len()) && (forall|i: int, j: int|
                    0 <= i < trees.len() && 0 <= j < trees[i].len()
                        ==> self.regions@[i].records@[j].spec_decode_result(
                        old(cm).spec_targets(),
                        #[trigger] trees[i][j],
                    )) && nv(r) == spec_fold_region_trees(crate::decode::nv_root(), trees, 0),
    {
        let mut root = crate::node::Node::root();
        proof {
            assert(nv(root) =~~= crate::decode::nv_root());
        }
        let ghost targets = old(cm).spec_targets();
        let ghost mut trees: Seq<Seq<crate::node::NodeV>> = Seq::empty();
        let nr = self.regions.len();
        let mut i: usize = 0;
        while i < nr
            invariant
                i <= nr,
                nr == self.regions@.len(),
                cm.target_info == old(cm).target_info,
                targets == old(cm).spec_targets(),
                trees.len() == i,
                forall|a: int|
                    0 <= a < i as int ==> #[trigger] trees[a].len()
                        == self.regions@[a].records@.len(),
                forall|a: int, b: int|
                    0 <= a < i as int && 0 <= b < trees[a].len()
                        ==> self.regions@[a].records@[b].spec_decode_result(
                        targets,
                        #[trigger] trees[a][b],
                    ),
                nv(root) == spec_fold_region_trees(crate::decode::nv_root(), trees, 0),
                forall|a: int, j: int|
                    0 <= a < self.regions@.len() && 0 <= j < self.regions@[a].records@.len()
                        ==> (#[trigger] self.regions@[a].records@[j]).data@.len() * 8
                        <= usize::MAX,
            decreases nr - i,
        {
            let region = &self.regions[i];
            let ghost acc0 = nv(root);
            let ghost mut cur: Seq<crate::node::NodeV> = Seq::empty();
            let nk = region.records.len();
            let mut j: usize = 0;
            proof {
                assert(nv(root) == spec_fold_trees(acc0, cur, 0));
            }
            while j < nk
                invariant
                    j <= nk,
                    i < nr,
                    nr == self.regions@.len(),
                    nk == self.regions@[i as int].records@.len(),
                    cm.target_info == old(cm).target_info,
                    targets == old(cm).spec_targets(),
                    cur.len() == j,
                    forall|b: int|
                        0 <= b < j as int ==> self.regions@[i as int].records@[b]
                            .spec_decode_result(targets, #[trigger] cur[b]),
                    nv(root) == spec_fold_trees(acc0, cur, 0),
                    forall|a: int, k: int|
                        0 <= a < self.regions@.len() && 0 <= k < self.regions@[a].records@.len()
                            ==> (#[trigger] self.regions@[a].records@[k]).data@.len() * 8
                            <= usize::MAX,
                decreases nk - j,
            {
                proof {
                    assert(self.regions@[i as int].records@[j as int].data@.len() * 8
                        <= usize::MAX);
                    assert(cm.spec_targets() == old(cm).spec_targets());
                }
                let tree = self.regions[i].records[j].decode(cm);
                proof {
                    lemma_fold_trees_push(acc0, cur, nv(tree));
                }
                root.merge(&tree);
                proof {
                    cur = cur.push(nv(tree));
                    assert(nv(root) == spec_fold_trees(acc0, cur, 0));
                }
                j += 1;
            }
            proof {
                lemma_fold_regions_push(crate::decode::nv_root(), trees, cur);
                trees = trees.push(cur);
                assert(trees[i as int] == cur);
                assert(forall|a: int, b: int|
                    0 <= a < trees.len() && 0 <= b < trees[a].len()
                        ==> self.regions@[a].records@[b].spec_decode_result(
                        targets,
                        #[trigger] trees[a][b],
                    ));
            }
            i += 1;
        }
        root
    }
}

/// The record trees `ts[j..]` merged left to right into `acc`.
pub open spec fn spec_fold_trees(acc: crate::node::NodeV, ts: Seq<crate::node::NodeV>, j: int)
    -> crate::node::NodeV
    decreases ts.len() - j,
{
    if j < 0 || j >= ts.len() {
        acc
    } else {
        spec_fold_trees(crate::node::nv_merge(acc, ts[j]), ts, j + 1)
    }
}

/// The per-region record trees merged left to right into `acc`,
/// region by region.
pub open spec fn spec_fold_region_trees(
    acc: crate::node::NodeV,
    trees: Seq<Seq<crate::node::NodeV>>,
    i: int,
) -> crate::node::NodeV
    decreases trees.len() - i,
{
    if i < 0 || i >= trees.len() {
        acc
    } else {
        spec_fold_region_trees(spec_fold_trees(acc, trees[i], 0), trees, i + 1)
    }
}

proof fn lemma_fold_trees_push_idx(
    acc: crate::node::NodeV,
    ts: Seq<crate::node::NodeV>,
    x: crate::node::NodeV,
    j: int,
)
    requires
        0 <= j <= ts.len(),
    ensures
        spec_fold_trees(acc, ts.push(x), j) == crate::node::nv_merge(
            spec_fold_trees(acc, ts, j),
            x,
        ),
    decreases ts.len() - j,
{
    if j == ts.len() {
        assert(ts.push(x)[j] == x);
    } else {
        assert(ts.push(x)[j] == ts[j]);
        lemma_fold_trees_push_idx(crate::node::nv_merge(acc, ts[j]), ts, x, j + 1);
    }
}

proof fn lemma_fold_trees_push(
    acc: crate::node::NodeV,
    ts: Seq<crate::node::NodeV>,
    x: crate::node::NodeV,
)
    ensures
        spec_fold_trees(acc, ts.push(x), 0) == crate::node::nv_merge(
            spec_fold_trees(acc, ts, 0),
            x,
        ),
{
    lemma_fold_trees_push_idx(acc, ts, x, 0);
}

proof fn lemma_fold_regions_push_idx(
    acc: crate::node::NodeV,
    trees: Seq<Seq<crate::node::NodeV>>,
    cur: Seq<crate::node::NodeV>,
    i: int,
)
    requires
        0 <= i <= trees.len(),
    ensures
        spec_fold_region_trees(acc, trees.push(cur), i) == spec_fold_trees(
            spec_fold_region_trees(acc, trees, i),
            cur,
            0,
        ),
    decreases trees.len() - i,
{
    if i == trees.len() {
        assert(trees.push(cur)[i] == cur);
        assert(spec_fold_region_trees(acc, trees.push(cur), i) == spec_fold_region_trees(
            spec_fold_trees(acc, cur, 0),
            trees.push(cur),
            i + 1,
        ));
        assert(spec_fold_region_trees(spec_fold_trees(acc, cur, 0), trees.push(cur), i + 1)
            == spec_fold_trees(acc, cur, 0));
        assert(spec_fold_region_trees(acc, trees, i) == acc);
    } else {
        assert(trees.push(cur)[i] == trees[i]);
        lemma_fold_regions_push_idx(spec_fold_trees(acc, trees[i], 0), trees, cur, i + 1);
        assert(spec_fold_region_trees(acc, trees.push(cur), i) == spec_fold_region_trees(
            spec_fold_trees(acc, trees[i], 0),
            trees.push(cur),
            i + 1,
        ));
        assert(spec_fold_region_trees(acc, trees, i) == spec_fold_region_trees(
            spec_fold_trees(acc, trees[i], 0),
            trees,
            i + 1,
        ));
    }
}

proof fn lemma_fold_regions_push(
    acc: crate::node::NodeV,
    trees: Seq<Seq<crate::node::NodeV>>,
    cur: Seq<crate::node::NodeV>,
)
    ensures
        spec_fold_region_trees(acc, trees.push(cur), 0) == spec_fold_trees(
            spec_fold_region_trees(acc, trees, 0),
            cur,
            0,
        ),
{
    lemma_fold_regions_push_idx(acc, trees, cur, 0);
}

} // verus!
