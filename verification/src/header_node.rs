//! Decoding a record header into the node tree.

use crate::header::{Header, HeaderTypeV, HeaderV, RecordSize, Version};
use crate::node::{nv, Node, NodeType, NodeV};
use crate::strutil::spec_dec_str;
use crate::strutil::u64_to_string;
use vstd::prelude::*;
use vstd::string::StringExecFns;

verus! {

/// A leaf field node of the header tree.
pub open spec fn nv_field(name: Seq<char>, value: u64) -> NodeV {
    NodeV {
        name: name,
        description: Seq::empty(),
        kind: NodeType::Field { value },
        children: Seq::empty(),
    }
}

/// A section node of the header tree.
pub open spec fn nv_sec(name: Seq<char>, children: Seq<NodeV>) -> NodeV {
    NodeV { name: name, description: Seq::empty(), kind: NodeType::Section, children }
}

pub open spec fn spec_bool_val(b: bool) -> u64 {
    if b {
        1u64
    } else {
        0u64
    }
}

/// The node tree of a version word: the packed word with its unpacked
/// fields below it.
pub open spec fn spec_version_node(v: Version) -> NodeV {
    NodeV {
        name: "version"@,
        description: Seq::empty(),
        kind: NodeType::Field { value: v.spec_as_u32() as u64 },
        children: seq![
            nv_field("revision"@, v.revision as u64),
            nv_field("header_type"@, v.header_type as u64),
            nv_field("product_id"@, v.product_id as u64),
            nv_field("record_type"@, v.record_type as u64),
        ],
    }
}

/// The node tree of the declared record sizes.
pub open spec fn spec_size_node(z: RecordSize) -> NodeV {
    nv_sec(
        "record_size"@,
        seq![
            nv_field("record_size"@, z.record_size as u64),
            nv_field("extended_record_size"@, z.extended_record_size as u64),
        ],
    )
}

/// The completion status sub-tree shared by the layouts that carry one
/// status word.
pub open spec fn spec_cs_node(completion_status: u32, collection_complete: bool) -> NodeV {
    nv_sec(
        "completion_status"@,
        seq![
            nv_field("completion_status"@, completion_status as u64),
            nv_field("record_collection_completed"@, spec_bool_val(collection_complete)),
        ],
    )
}

/// The header-type-specific field nodes.
pub open spec fn spec_type_fields(ht: HeaderTypeV) -> Seq<NodeV> {
    match ht {
        HeaderTypeV::Type0 => Seq::empty(),
        HeaderTypeV::Type1 => Seq::empty(),
        HeaderTypeV::Type2 { timestamp, agent_version, reason } => seq![
            nv_field("timestamp"@, timestamp),
            nv_field("agent_version"@, agent_version as u64),
            nv_field("reason"@, reason as u64),
        ],
        HeaderTypeV::Type3 {
            timestamp,
            agent_version,
            reason,
            completion_status,
            collection_complete,
        } => seq![
            nv_field("timestamp"@, timestamp),
            nv_field("agent_version"@, agent_version as u64),
            nv_field("reason"@, reason as u64),
            spec_cs_node(completion_status, collection_complete),
        ],
        HeaderTypeV::Type4 { timestamp, agent_version, reason, whoami, misc } => seq![
            nv_field("timestamp"@, timestamp),
            nv_field("agent_version"@, agent_version as u64),
            nv_field("reason"@, reason as u64),
            nv_field("whoami"@, whoami as u64),
            nv_field("misc"@, misc as u64),
        ],
        HeaderTypeV::Type5 {
            timestamp,
            agent_version,
            reason,
            completion_status,
            collection_complete,
            error_status,
        } => seq![
            nv_field("timestamp"@, timestamp),
            nv_field("agent_version"@, agent_version as u64),
            nv_field("reason"@, reason as u64),
            nv_field("error_status"@, error_status as u64),
            spec_cs_node(completion_status, collection_complete),
        ],
        HeaderTypeV::Type6 {
            timestamp,
            agent_version,
            reason,
            die_id,
            socket_id,
            completion_status_size,
            completion_status,
            collection_complete,
        } => seq![
            nv_field("timestamp"@, timestamp),
            nv_field("agent_version"@, agent_version as u64),
            nv_field("reason"@, reason as u64),
            nv_sec(
                "die_skt_info"@,
                seq![
                    nv_field("die_id"@, die_id as u64),
                    nv_field("socket_id"@, socket_id as u64),
                    nv_field("completion_status_size"@, completion_status_size as u64),
                    nv_field("record_collection_completed"@, spec_bool_val(collection_complete)),
                ],
            ),
        ] + Seq::new(
            completion_status.len(),
            |i: int|
                nv_field(
                    "completion_status"@ + spec_dec_str(i),
                    completion_status[i] as u64,
                ),
        ),
        HeaderTypeV::Type0LegacyServer {
            timestamp,
            agent_version,
            reason,
            die_id,
            socket_id,
            completion_status,
            collection_complete,
        } => seq![
            nv_field("timestamp"@, timestamp),
            nv_field("agent_version"@, agent_version as u64),
            nv_field("reason"@, reason as u64),
            nv_field("die_id"@, die_id as u64),
            nv_field("socket_id"@, socket_id as u64),
            nv_field("completion_status"@, completion_status as u64),
            nv_field("record_collection_completed"@, spec_bool_val(collection_complete)),
        ],
    }
}

/// The node tree of a whole record header: the version word, the
/// declared sizes and the header-type-specific fields under `hdr`.
pub open spec fn spec_header_node(h: HeaderV) -> NodeV {
    nv_sec(
        "hdr"@,
        seq![spec_version_node(h.version), spec_size_node(h.size)] + spec_type_fields(
            h.header_type,
        ),
    )
}

impl Version {
    /// The node tree of this version word.
    pub fn to_node(&self) -> (r: Node)
        ensures
            nv(r) == spec_version_node(*self),
    {
        let mut node = Node::field("version", self.as_u32() as u64);
        node.add(Node::field("revision", self.revision as u64));
        node.add(Node::field("header_type", self.header_type as u64));
        node.add(Node::field("product_id", self.product_id as u64));
        node.add(Node::field("record_type", self.record_type as u64));
        proof {
            assert(nv(node).children =~= spec_version_node(*self).children);
            assert(nv(node) =~~= spec_version_node(*self));
        }
        node
    }
}

impl RecordSize {
    /// The node tree of the declared record sizes.
    pub fn to_node(&self) -> (r: Node)
        ensures
            nv(r) == spec_size_node(*self),
    {
        let mut node = Node::section("record_size");
        node.add(Node::field("record_size", self.record_size as u64));
        node.add(Node::field("extended_record_size", self.extended_record_size as u64));
        proof {
            assert(nv(node).children =~= spec_size_node(*self).children);
            assert(nv(node) =~~= spec_size_node(*self));
        }
        node
    }
}

fn cs_node(completion_status: u32, collection_complete: bool) -> (r: Node)
    ensures
        nv(r) == spec_cs_node(completion_status, collection_complete),
{
    let mut node = Node::section("completion_status");
    node.add(Node::field("completion_status", completion_status as u64));
    node.add(
        Node::field(
            "record_collection_completed",
            if collection_complete {
                1
            } else {
                0
            },
        ),
    );
    proof {
        assert(nv(node).children =~= spec_cs_node(completion_status, collection_complete).children);
        assert(nv(node) =~~= spec_cs_node(completion_status, collection_complete));
    }
    node
}

impl Header {
    /// The node tree of this header: the version word, the declared
    /// sizes and the header-type-specific fields under `hdr`.
    pub fn to_node(&self) -> (r: Node)
        ensures
            nv(r) == spec_header_node(self@),
    {
        let mut node = Node::section("hdr");
        node.add(self.version.to_node());
        node.add(self.size.to_node());
        let ghost base = nv(node);
        proof {
            assert(base.children =~= seq![
                spec_version_node(self.version),
                spec_size_node(self.size),
            ]);
        }
        match &self.header_type {
            crate::header::HeaderType::Type0 | crate::header::HeaderType::Type1 => {
                proof {
                    assert(nv(node).children =~= spec_header_node(self@).children);
                    assert(nv(node) =~~= spec_header_node(self@));
                }
            },
            crate::header::HeaderType::Type2 { timestamp, agent_version, reason } => {
                node.add(Node::field("timestamp", *timestamp));
                node.add(Node::field("agent_version", *agent_version as u64));
                node.add(Node::field("reason", *reason as u64));
                proof {
                    assert(nv(node).children =~= spec_header_node(self@).children);
                    assert(nv(node) =~~= spec_header_node(self@));
                }
            },
            crate::header::HeaderType::Type3 {
                timestamp,
                agent_version,
                reason,
                completion_status,
                collection_complete,
            } => {
                node.add(Node::field("timestamp", *timestamp));
                node.add(Node::field("agent_version", *agent_version as u64));
                node.add(Node::field("reason", *reason as u64));
                node.add(cs_node(*completion_status, *collection_complete));
                proof {
                    assert(nv(node).children =~= spec_header_node(self@).children);
                    assert(nv(node) =~~= spec_header_node(self@));
                }
            },
            crate::header::HeaderType::Type4 { timestamp, agent_version, reason, whoami, misc } => {
                node.add(Node::field("timestamp", *timestamp));
                node.add(Node::field("agent_version", *agent_version as u64));
                node.add(Node::field("reason", *reason as u64));
                node.add(Node::field("whoami", *whoami as u64));
                node.add(Node::field("misc", *misc as u64));
                proof {
                    assert(nv(node).children =~= spec_header_node(self@).children);
                    assert(nv(node) =~~= spec_header_node(self@));
                }
            },
            crate::header::HeaderType::Type5 {
                timestamp,
                agent_version,
                reason,
                completion_status,
                collection_complete,
                error_status,
            } => {
                node.add(Node::field("timestamp", *timestamp));
                node.add(Node::field("agent_version", *agent_version as u64));
                node.add(Node::field("reason", *reason as u64));
                node.add(Node::field("error_status", *error_status as u64));
                node.add(cs_node(*completion_status, *collection_complete));
                proof {
                    assert(nv(node).children =~= spec_header_node(self@).children);
                    assert(nv(node) =~~= spec_header_node(self@));
                }
            },
            crate::header::HeaderType::Type6 {
                timestamp,
                agent_version,
                reason,
                die_id,
                socket_id,
                completion_status_size,
                completion_status,
                collection_complete,
            } => {
                node.add(Node::field("timestamp", *timestamp));
                node.add(Node::field("agent_version", *agent_version as u64));
                node.add(Node::field("reason", *reason as u64));
                let mut die_skt_info = Node::section("die_skt_info");
                die_skt_info.add(Node::field("die_id", *die_id as u64));
                die_skt_info.add(Node::field("socket_id", *socket_id as u64));
                die_skt_info.add(
                    Node::field("completion_status_size", *completion_status_size as u64),
                );
                die_skt_info.add(
                    Node::field(
                        "record_collection_completed",
                        if *collection_complete {
                            1
                        } else {
                            0
                        },
                    ),
                );
                proof {
                    assert(nv(die_skt_info).children =~= seq![
                        nv_field("die_id"@, *die_id as u64),
                        nv_field("socket_id"@, *socket_id as u64),
                        nv_field("completion_status_size"@, *completion_status_size as u64),
                        nv_field(
                            "record_collection_completed"@,
                            spec_bool_val(*collection_complete),
                        ),
                    ]);
                    assert(nv(die_skt_info) =~~= nv_sec(
                        "die_skt_info"@,
                        seq![
                            nv_field("die_id"@, *die_id as u64),
                            nv_field("socket_id"@, *socket_id as u64),
                            nv_field("completion_status_size"@, *completion_status_size as u64),
                            nv_field(
                                "record_collection_completed"@,
                                spec_bool_val(*collection_complete),
                            ),
                        ],
                    ));
                }
                node.add(die_skt_info);
                proof {
                    assert(nv(node).children =~= spec_header_node(self@).children.take(6));
                }
                let n = completion_status.len();
                let mut i: usize = 0;
                while i < n
                    invariant
                        i <= n,
                        n == completion_status@.len(),
                        nv(node).children =~= spec_header_node(self@).children.take(6) + Seq::new(
                            i as nat,
                            |j: int|
                                nv_field(
                                    "completion_status"@ + spec_dec_str(j),
                                    completion_status@[j] as u64,
                                ),
                        ),
                        nv(node).name == "hdr"@,
                        nv(node).description == Seq::<char>::empty(),
                        nv(node).kind == NodeType::Section,
                    decreases n - i,
                {
                    let mut fname = "completion_status".to_owned();
                    fname.append(u64_to_string(i as u64).as_str());
                    let ghost pre = nv(node).children;
                    node.add(Node::field(fname.as_str(), completion_status[i] as u64));
                    proof {
                        assert(fname@ =~= "completion_status"@ + spec_dec_str(i as int));
                        assert(nv(node).children =~= spec_header_node(self@).children.take(6)
                            + Seq::new(
                            (i + 1) as nat,
                            |j: int|
                                nv_field(
                                    "completion_status"@ + spec_dec_str(j),
                                    completion_status@[j] as u64,
                                ),
                        ));
                    }
                    i += 1;
                }
                proof {
                    assert(nv(node).children =~= spec_header_node(self@).children);
                    assert(nv(node) =~~= spec_header_node(self@));
                }
            },
            crate::header::HeaderType::Type0LegacyServer {
                timestamp,
                agent_version,
                reason,
                die_id,
                socket_id,
                completion_status,
                collection_complete,
            } => {
                node.add(Node::field("timestamp", *timestamp));
                node.add(Node::field("agent_version", *agent_version as u64));
                node.add(Node::field("reason", *reason as u64));
                node.add(Node::field("die_id", *die_id as u64));
                node.add(Node::field("socket_id", *socket_id as u64));
                node.add(Node::field("completion_status", *completion_status as u64));
                node.add(
                    Node::field(
                        "record_collection_completed",
                        if *collection_complete {
                            1
                        } else {
                            0
                        },
                    ),
                );
                proof {
                    assert(nv(node).children =~= spec_header_node(self@).children);
                    assert(nv(node) =~~= spec_header_node(self@));
                }
            },
        }
        node
    }
}

} // verus!
