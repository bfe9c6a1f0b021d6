//! Hierarchical decoded output: a tree of named nodes in insertion
//! order, addressed by dotted paths.

use crate::strutil::{ascii_lower, spec_lower, spec_split, split_char, str_eq};
use vstd::prelude::*;
use vstd::std_specs::vec::vec_index_mut;
use vstd::string::StringExecFns;

verus! {

broadcast use vstd::std_specs::vec::axiom_vec_index_decreases;

/// What a node of the decoded tree stands for.
#[derive(Debug, Clone, Copy, PartialEq, Eq, Structural)]
pub enum NodeType {
    /// The nameless container at the top of a tree.
    Root,
    /// A decoded record.
    Record,
    /// A named grouping level.
    Section,
    /// A decoded bit-field with its value.
    Field { value: u64 },
}

/// One node of the decoded tree. Children keep their insertion order;
/// sibling names are distinct when the tree is grown through the
/// operations of this module.
#[derive(Debug, PartialEq)]
pub struct Node {
    /// Name of the node; one segment of a dotted path.
    pub name: String,
    /// Free-text description from the decode definition.
    pub description: String,
    /// What the node stands for.
    pub kind: NodeType,
    /// Child nodes, in insertion order.
    pub children: Vec<Node>,
}

/// Mathematical mirror of [`Node`].
#[verifier::ext_equal]
pub ghost struct NodeV {
    pub name: Seq<char>,
    pub description: Seq<char>,
    pub kind: NodeType,
    pub children: Seq<NodeV>,
}

/// The mathematical tree that a [`Node`] holds.
pub open spec fn nv(n: Node) -> NodeV
    decreases n, 1int,
{
    NodeV {
        name: n.name@,
        description: n.description@,
        kind: n.kind,
        children: nv_seq(n.children, 0),
    }
}

/// The mathematical trees of the nodes of `v` from index `k` on.
pub open spec fn nv_seq(v: Vec<Node>, k: int) -> Seq<NodeV>
    decreases v, v@.len() - k + 1,
{
    if k < 0 || k >= v@.len() {
        Seq::empty()
    } else {
        seq![nv(v@[k])] + nv_seq(v, k + 1)
    }
}

proof fn lemma_nv_seq_idx(v: Vec<Node>, k: int)
    requires
        0 <= k <= v@.len(),
    ensures
        nv_seq(v, k).len() == v@.len() - k,
        forall|j: int| 0 <= j < v@.len() - k ==> nv_seq(v, k)[j] == nv(v@[k + j]),
    decreases v@.len() - k,
{
    if k < v@.len() {
        lemma_nv_seq_idx(v, k + 1);
    }
}

/// The children of the mathematical tree are the mathematical trees of
/// the children, in order.
pub broadcast proof fn lemma_nv_children(n: Node)
    ensures
        (#[trigger] nv(n)).children == Seq::new(n.children@.len(), |i: int| nv(n.children@[i])),
{
    lemma_nv_seq_idx(n.children, 0);
    assert(nv_seq(n.children, 0) =~= Seq::new(n.children@.len(), |i: int| nv(n.children@[i])));
}

/// Index of the first child named `name`, or `-1`.
pub open spec fn nv_find(ns: Seq<NodeV>, name: Seq<char>) -> int
    decreases ns.len(),
{
    if ns.len() == 0 {
        -1
    } else if ns[0].name == name {
        0
    } else {
        let r = nv_find(ns.skip(1), name);
        if r < 0 {
            -1
        } else {
            r + 1
        }
    }
}

pub proof fn lemma_nv_find_props(ns: Seq<NodeV>, name: Seq<char>)
    ensures
        nv_find(ns, name) == -1 <==> (forall|k: int| 0 <= k < ns.len() ==> ns[k].name != name),
        nv_find(ns, name) >= 0 ==> 0 <= nv_find(ns, name) < ns.len() && ns[nv_find(
            ns,
            name,
        )].name == name && (forall|k: int| 0 <= k < nv_find(ns, name) ==> ns[k].name != name),
    decreases ns.len(),
{
    if ns.len() > 0 && ns[0].name != name {
        lemma_nv_find_props(ns.skip(1), name);
        let r = nv_find(ns.skip(1), name);
        if r == -1 {
            assert forall|k: int| 0 <= k < ns.len() implies ns[k].name != name by {
                if k > 0 {
                    assert(ns[k] == ns.skip(1)[k - 1]);
                }
            }
        } else {
            assert(ns[r + 1] == ns.skip(1)[r]);
            assert forall|k: int| 0 <= k < r + 1 implies ns[k].name != name by {
                if k > 0 {
                    assert(ns[k] == ns.skip(1)[k - 1]);
                }
            }
        }
    }
}

/// First child of `n` named `name`.
pub open spec fn nv_get(n: NodeV, name: Seq<char>) -> Option<NodeV> {
    let i = nv_find(n.children, name);
    if i < 0 {
        None
    } else {
        Some(n.children[i])
    }
}

/// The node reached from `n` by following the path segments from index
/// `k` on.
pub open spec fn nv_get_path(n: NodeV, path: Seq<Seq<char>>, k: int) -> Option<NodeV>
    decreases path.len() - k,
{
    if k < 0 || k >= path.len() {
        Some(n)
    } else {
        match nv_get(n, path[k]) {
            None => None,
            Some(c) => nv_get_path(c, path, k + 1),
        }
    }
}

impl Node {
    /// The nameless container at the top of a tree.
    pub fn root() -> (r: Node)
        ensures
            nv(r) == (NodeV {
                name: Seq::<char>::empty(),
                description: Seq::<char>::empty(),
                kind: NodeType::Root,
                children: Seq::<NodeV>::empty(),
            }),
    {
        let r = Node {
            name: String::new(),
            description: String::new(),
            kind: NodeType::Root,
            children: Vec::new(),
        };
        proof {
            broadcast use lemma_nv_children;

            assert(nv(r).children =~= Seq::<NodeV>::empty());
            assert(nv(r) =~~= NodeV {
                name: Seq::<char>::empty(),
                description: Seq::<char>::empty(),
                kind: NodeType::Root,
                children: Seq::<NodeV>::empty(),
            });
        }
        r
    }

    fn named(name: String, kind: NodeType) -> (r: Node)
        ensures
            nv(r) == (NodeV {
                name: name@,
                description: Seq::<char>::empty(),
                kind: kind,
                children: Seq::<NodeV>::empty(),
            }),
    {
        let r = Node { name, description: String::new(), kind, children: Vec::new() };
        proof {
            broadcast use lemma_nv_children;

            assert(nv(r).children =~= Seq::<NodeV>::empty());
            assert(nv(r) =~~= NodeV {
                name: r.name@,
                description: Seq::<char>::empty(),
                kind: kind,
                children: Seq::<NodeV>::empty(),
            });
        }
        r
    }

    /// A node standing for a decoded record. Record nodes are named by
    /// convention in small letters: ASCII capitals are folded.
    pub fn record(name: &str) -> (r: Node)
        ensures
            nv(r) == (NodeV {
                name: spec_lower(name@),
                description: Seq::<char>::empty(),
                kind: NodeType::Record,
                children: Seq::<NodeV>::empty(),
            }),
    {
        Node::named(ascii_lower(name), NodeType::Record)
    }

    /// A named grouping node.
    pub fn section(name: &str) -> (r: Node)
        ensures
            nv(r) == (NodeV {
                name: name@,
                description: Seq::<char>::empty(),
                kind: NodeType::Section,
                children: Seq::<NodeV>::empty(),
            }),
    {
        Node::named(name.to_owned(), NodeType::Section)
    }

    /// A decoded field carrying a value.
    pub fn field(name: &str, value: u64) -> (r: Node)
        ensures
            nv(r) == (NodeV {
                name: name@,
                description: Seq::<char>::empty(),
                kind: NodeType::Field { value },
                children: Seq::<NodeV>::empty(),
            }),
    {
        Node::named(name.to_owned(), NodeType::Field { value })
    }

    /// Appends `child` to the children, after any existing ones.
    pub fn add(&mut self, child: Node)
        ensures
            nv(*final(self)) == (NodeV {
                children: nv(*old(self)).children.push(nv(child)),
                ..nv(*old(self))
            }),
    {
        self.children.push(child);
        proof {
            broadcast use lemma_nv_children;

            assert(nv(*self).children =~= nv(*old(self)).children.push(nv(child)));
            assert(nv(*self) =~~= NodeV {
                children: nv(*old(self)).children.push(nv(child)),
                ..nv(*old(self))
            });
        }
    }

    /// Index of the first child named `name`.
    fn find_child(&self, name: &str) -> (r: Option<usize>)
        ensures
            match r {
                Some(j) => nv_find(nv(*self).children, name@) == j,
                None => nv_find(nv(*self).children, name@) == -1,
            },
    {
        proof {
            broadcast use lemma_nv_children;
        }
        let n = self.children.len();
        let mut j: usize = 0;
        while j < n
            invariant
                j <= n,
                n == self.children@.len(),
                forall|k: int| 0 <= k < j ==> nv(*self).children[k].name != name@,
            decreases n - j,
        {
            if str_eq(self.children[j].name.as_str(), name) {
                proof {
                    broadcast use lemma_nv_children;

                    lemma_nv_find_props(nv(*self).children, name@);
                    assert(nv(*self).children[j as int].name == name@);
                }
                return Some(j);
            }
            proof {
                broadcast use lemma_nv_children;

                assert(nv(*self).children[j as int].name == self.children@[j as int].name@);
            }
            j += 1;
        }
        proof {
            broadcast use lemma_nv_children;

            lemma_nv_find_props(nv(*self).children, name@);
        }
        None
    }

    /// Returns the first child named `name`.
    pub fn get(&self, name: &str) -> (r: Option<&Node>)
        ensures
            match r {
                Some(c) => nv_get(nv(*self), name@) == Some(nv(*c)),
                None => nv_get(nv(*self), name@) is None,
            },
    {
        proof {
            broadcast use lemma_nv_children;

            lemma_nv_find_props(nv(*self).children, name@);
        }
        match self.find_child(name) {
            Some(j) => Some(&self.children[j]),
            None => None,
        }
    }

    /// Returns the node reached by the dot-separated `path`.
    pub fn get_by_path(&self, path: &str) -> (r: Option<&Node>)
        ensures
            match r {
                Some(c) => nv_get_path(nv(*self), spec_split(path@, '.'), 0) == Some(nv(*c)),
                None => nv_get_path(nv(*self), spec_split(path@, '.'), 0) is None,
            },
    {
        let segs = split_char(path, '.');
        let ghost p = spec_split(path@, '.');
        let n = segs.len();
        let mut cur: &Node = self;
        let mut k: usize = 0;
        while k < n
            invariant
                k <= n,
                n == p.len(),
                p == spec_split(path@, '.'),
                p == segs@.map_values(|x: String| x@),
                nv_get_path(nv(*self), p, 0) == nv_get_path(nv(*cur), p, k as int),
            decreases n - k,
        {
            proof {
                assert(p[k as int] == segs@[k as int]@);
            }
            let seg = segs[k].as_str();
            proof {
                assert(seg@ == p[k as int]);
            }
            match cur.get(seg) {
                None => {
                    proof {
                        assert(nv_get(nv(*cur), p[k as int]) is None);
                        assert(nv_get_path(nv(*cur), p, k as int) is None);
                        assert(nv_get_path(nv(*self), p, 0) is None);
                    }
                    return None;
                },
                Some(c) => {
                    proof {
                        assert(nv_get_path(nv(*cur), p, k as int) == nv_get_path(
                            nv(*c),
                            p,
                            k + 1,
                        ));
                    }
                    cur = c;
                },
            }
            k += 1;
        }
        Some(cur)
    }

    /// Returns the value of the field reached by the dot-separated
    /// `path`, when that node is a decoded field.
    pub fn get_value_by_path(&self, path: &str) -> (r: Option<u64>)
        ensures
            match r {
                Some(v) => nv_get_path(nv(*self), spec_split(path@, '.'), 0) matches Some(c)
                    && c.kind == NodeType::Field { value: v },
                None => !(nv_get_path(nv(*self), spec_split(path@, '.'), 0) matches Some(c)
                    && c.kind is Field),
            },
    {
        match self.get_by_path(path) {
            Some(node) => match node.kind {
                NodeType::Field { value } => Some(value),
                _ => None,
            },
            None => None,
        }
    }
}


/// A fresh grouping node, as the tree operations create missing
/// intermediate path segments.
pub open spec fn nv_section(name: Seq<char>) -> NodeV {
    NodeV {
        name: name,
        description: Seq::empty(),
        kind: NodeType::Section,
        children: Seq::empty(),
    }
}

/// The tree `n` with the path `path[k..]` created (missing segments
/// become sections) and the node at its end given the description
/// `desc` and, when a value was read, a field kind.
pub open spec fn nv_ensure_update(
    n: NodeV,
    path: Seq<Seq<char>>,
    k: int,
    desc: Seq<char>,
    field: Option<u64>,
) -> NodeV
    decreases path.len() - k,
{
    if k < 0 || k >= path.len() {
        NodeV {
            description: desc,
            kind: match field {
                Some(v) => NodeType::Field { value: v },
                None => n.kind,
            },
            ..n
        }
    } else {
        let i = nv_find(n.children, path[k]);
        if i < 0 {
            NodeV {
                children: n.children.push(
                    nv_ensure_update(nv_section(path[k]), path, k + 1, desc, field),
                ),
                ..n
            }
        } else {
            NodeV {
                children: n.children.update(
                    i,
                    nv_ensure_update(n.children[i], path, k + 1, desc, field),
                ),
                ..n
            }
        }
    }
}

/// The union of two trees: children are matched by name, descending in
/// pre-order; unmatched children of `b` are appended in their order;
/// a field kind or a non-empty description of `b` overwrites.
pub open spec fn nv_merge(a: NodeV, b: NodeV) -> NodeV
    decreases b, 0int,
{
    let a1 = NodeV {
        description: if b.description.len() > 0 {
            b.description
        } else {
            a.description
        },
        kind: if b.kind is Field {
            b.kind
        } else {
            a.kind
        },
        ..a
    };
    nv_merge_children(a1, b.children, 0)
}

/// Folds the children of the right-hand tree from index `k` on into
/// `a`.
pub open spec fn nv_merge_children(a: NodeV, bs: Seq<NodeV>, k: int) -> NodeV
    decreases bs, bs.len() - k + 1,
{
    if k < 0 || k >= bs.len() {
        a
    } else {
        nv_merge_children(nv_merge_one(a, bs[k]), bs, k + 1)
    }
}

/// Merges one child of the right-hand tree into `a`: into the
/// name-matched child when there is one, appended otherwise.
pub open spec fn nv_merge_one(a: NodeV, bc: NodeV) -> NodeV
    decreases bc, 1int,
{
    let i = nv_find(a.children, bc.name);
    if i < 0 {
        NodeV { children: a.children.push(bc), ..a }
    } else {
        NodeV { children: a.children.update(i, nv_merge(a.children[i], bc)), ..a }
    }
}

/// The tree `n` with `b` merged into the node at the end of
/// `path[k..]`, missing path segments created as sections.
pub open spec fn nv_merge_at(n: NodeV, path: Seq<Seq<char>>, k: int, b: NodeV) -> NodeV
    decreases path.len() - k,
{
    if k < 0 || k >= path.len() {
        nv_merge(n, b)
    } else {
        let i = nv_find(n.children, path[k]);
        if i < 0 {
            NodeV {
                children: n.children.push(nv_merge_at(nv_section(path[k]), path, k + 1, b)),
                ..n
            }
        } else {
            NodeV {
                children: n.children.update(i, nv_merge_at(n.children[i], path, k + 1, b)),
                ..n
            }
        }
    }
}

impl Node {
    /// An element-for-element copy of the tree.
    pub fn deep_copy(&self) -> (r: Node)
        ensures
            nv(r) == nv(*self),
        decreases nv(*self),
    {
        proof {
            broadcast use lemma_nv_children;
        }
        let mut children: Vec<Node> = Vec::new();
        let n = self.children.len();
        let mut k: usize = 0;
        while k < n
            invariant
                k <= n,
                n == self.children@.len(),
                children@.len() == k,
                forall|i: int| 0 <= i < k ==> nv(#[trigger] children@[i]) == nv(
                    self.children@[i],
                ),
            decreases n - k,
        {
            proof {
                broadcast use lemma_nv_children;

                assert(nv(self.children@[k as int]) == nv(*self).children[k as int]);
            }
            children.push(self.children[k].deep_copy());
            k += 1;
        }
        let r = Node {
            name: self.name.clone(),
            description: self.description.clone(),
            kind: self.kind,
            children,
        };
        proof {
            broadcast use lemma_nv_children;

            assert(nv(r).children =~= nv(*self).children);
            assert(nv(r) =~~= nv(*self));
        }
        r
    }

    /// Creates the hierarchy `segs[k..]` below this node, missing
    /// segments becoming sections, and gives the node at its end the
    /// description `desc` and, when a value was read, a field kind
    /// carrying it.
    pub fn ensure_update(&mut self, segs: &Vec<String>, k: usize, desc: &str, field: Option<u64>)
        requires
            k <= segs@.len(),
        ensures
            nv(*final(self)) == nv_ensure_update(
                nv(*old(self)),
                segs@.map_values(|x: String| x@),
                k as int,
                desc@,
                field,
            ),
        decreases segs@.len() - k,
    {
        let ghost path = segs@.map_values(|x: String| x@);
        if k == segs.len() {
            self.description = desc.to_owned();
            if let Some(v) = field {
                self.kind = NodeType::Field { value: v };
            }
            proof {
                broadcast use lemma_nv_children;

                assert(nv(*self).children =~= nv(*old(self)).children);
                assert(nv(*self) =~~= nv_ensure_update(
                    nv(*old(self)),
                    path,
                    k as int,
                    desc@,
                    field,
                ));
            }
            return ;
        }
        let ghost pre = nv(*self);
        proof {
            broadcast use lemma_nv_children;
        }
        match self.find_child(segs[k].as_str()) {
            Some(j) => {
                proof {
                    lemma_nv_find_props(pre.children, path[k as int]);
                }
                let child = vec_index_mut(&mut self.children, j);
                let ghost child_pre = nv(*child);
                child.ensure_update(segs, k + 1, desc, field);
                proof {
                    broadcast use lemma_nv_children;

                    assert(nv(*self).children =~= pre.children.update(
                        j as int,
                        nv_ensure_update(child_pre, path, k + 1, desc@, field),
                    ));
                    assert(nv(*self) =~~= nv_ensure_update(pre, path, k as int, desc@, field));
                }
            },
            None => {
                let mut node = Node::section(segs[k].as_str());
                node.ensure_update(segs, k + 1, desc, field);
                self.children.push(node);
                proof {
                    broadcast use lemma_nv_children;

                    assert(nv(*self).children =~= pre.children.push(
                        nv_ensure_update(nv_section(path[k as int]), path, k + 1, desc@, field),
                    ));
                    assert(nv(*self) =~~= nv_ensure_update(pre, path, k as int, desc@, field));
                }
            },
        }
    }

    /// Merges `other` into this tree: children are matched by name and
    /// merged in pre-order, unmatched children of `other` are appended
    /// in their insertion order, and a field kind or non-empty
    /// description of `other` overwrites this tree's.
    pub fn merge(&mut self, other: &Node)
        ensures
            nv(*final(self)) == nv_merge(nv(*old(self)), nv(*other)),
        decreases nv(*other),
    {
        proof {
            broadcast use lemma_nv_children;
        }
        if !other.description.as_str().is_empty() {
            self.description = other.description.clone();
        }
        if let NodeType::Field { .. } = other.kind {
            self.kind = other.kind;
        }
        let ghost a1 = nv(*self);
        proof {
            broadcast use lemma_nv_children;

            assert(a1 =~~= NodeV {
                description: if nv(*other).description.len() > 0 {
                    nv(*other).description
                } else {
                    nv(*old(self)).description
                },
                kind: if nv(*other).kind is Field {
                    nv(*other).kind
                } else {
                    nv(*old(self)).kind
                },
                ..nv(*old(self))
            });
        }
        let n = other.children.len();
        let mut k: usize = 0;
        while k < n
            invariant
                k <= n,
                n == other.children@.len(),
                nv_merge(nv(*old(self)), nv(*other)) == nv_merge_children(
                    nv(*self),
                    nv(*other).children,
                    k as int,
                ),
            decreases n - k,
        {
            let ghost pre = nv(*self);
            let ghost bcv = nv(*other).children[k as int];
            proof {
                broadcast use lemma_nv_children;

                assert(bcv == nv(other.children@[k as int]));
            }
            let bc = &other.children[k];
            match self.find_child(bc.name.as_str()) {
                Some(j) => {
                    proof {
                        lemma_nv_find_props(pre.children, bcv.name);
                    }
                    let child = vec_index_mut(&mut self.children, j);
                    let ghost child_pre = nv(*child);
                    child.merge(bc);
                    proof {
                        broadcast use lemma_nv_children;

                        assert(nv(*self).children =~= pre.children.update(
                            j as int,
                            nv_merge(child_pre, bcv),
                        ));
                        assert(nv(*self) =~~= nv_merge_one(pre, bcv));
                    }
                },
                None => {
                    self.children.push(bc.deep_copy());
                    proof {
                        broadcast use lemma_nv_children;

                        assert(nv(*self).children =~= pre.children.push(bcv));
                        assert(nv(*self) =~~= nv_merge_one(pre, bcv));
                    }
                },
            }
            k += 1;
        }
    }

    /// Merges `other` into the node at the end of the path `segs[k..]`
    /// below this tree, creating missing path segments as sections.
    pub fn merge_at_path(&mut self, segs: &Vec<String>, k: usize, other: &Node)
        requires
            k <= segs@.len(),
        ensures
            nv(*final(self)) == nv_merge_at(
                nv(*old(self)),
                segs@.map_values(|x: String| x@),
                k as int,
                nv(*other),
            ),
        decreases segs@.len() - k,
    {
        let ghost path = segs@.map_values(|x: String| x@);
        if k == segs.len() {
            self.merge(other);
            return ;
        }
        let ghost pre = nv(*self);
        proof {
            broadcast use lemma_nv_children;
        }
        match self.find_child(segs[k].as_str()) {
            Some(j) => {
                proof {
                    lemma_nv_find_props(pre.children, path[k as int]);
                }
                let child = vec_index_mut(&mut self.children, j);
                let ghost child_pre = nv(*child);
                child.merge_at_path(segs, k + 1, other);
                proof {
                    broadcast use lemma_nv_children;

                    assert(nv(*self).children =~= pre.children.update(
                        j as int,
                        nv_merge_at(child_pre, path, k + 1, nv(*other)),
                    ));
                    assert(nv(*self) =~~= nv_merge_at(pre, path, k as int, nv(*other)));
                }
            },
            None => {
                let mut node = Node::section(segs[k].as_str());
                node.merge_at_path(segs, k + 1, other);
                self.children.push(node);
                proof {
                    broadcast use lemma_nv_children;

                    assert(nv(*self).children =~= pre.children.push(
                        nv_merge_at(nv_section(path[k as int]), path, k + 1, nv(*other)),
                    ));
                    assert(nv(*self) =~~= nv_merge_at(pre, path, k as int, nv(*other)));
                }
            },
        }
    }
}

impl Clone for Node {
    /// An element-for-element copy of the tree.
    fn clone(&self) -> (r: Node)
        ensures
            nv(r) == nv(*self),
    {
        self.deep_copy()
    }
}


proof fn lemma_ensure_update_name(
    n: NodeV,
    path: Seq<Seq<char>>,
    k: int,
    desc: Seq<char>,
    field: Option<u64>,
)
    ensures
        nv_ensure_update(n, path, k, desc, field).name == n.name,
    decreases path.len() - k,
{
    if 0 <= k < path.len() {
        let i = nv_find(n.children, path[k]);
        if i < 0 {
            lemma_ensure_update_name(nv_section(path[k]), path, k + 1, desc, field);
        } else {
            lemma_ensure_update_name(n.children[i], path, k + 1, desc, field);
        }
    }
}

pub proof fn lemma_merge_children_meta(a: NodeV, bs: Seq<NodeV>, k: int)
    ensures
        nv_merge_children(a, bs, k).name == a.name,
    decreases bs, bs.len() - k + 1,
{
    if 0 <= k < bs.len() {
        lemma_merge_children_meta(nv_merge_one(a, bs[k]), bs, k + 1);
    }
}

pub proof fn lemma_merge_name(a: NodeV, b: NodeV)
    ensures
        nv_merge(a, b).name == a.name,
{
    let a1 = NodeV {
        description: if b.description.len() > 0 {
            b.description
        } else {
            a.description
        },
        kind: if b.kind is Field {
            b.kind
        } else {
            a.kind
        },
        ..a
    };
    lemma_merge_children_meta(a1, b.children, 0);
}

/// Creating a hierarchy makes its end reachable: after the path
/// `path[k..]` is created below `n` with a description and an optional
/// field value, following the same path finds a node carrying exactly
/// them.
pub proof fn lemma_ensure_update_reachable(
    n: NodeV,
    path: Seq<Seq<char>>,
    k: int,
    desc: Seq<char>,
    field: Option<u64>,
)
    requires
        0 <= k <= path.len(),
    ensures
        nv_get_path(nv_ensure_update(n, path, k, desc, field), path, k) matches Some(leaf)
            && leaf.description == desc && (field matches Some(v) ==> leaf.kind == NodeType::Field {
            value: v,
        }),
    decreases path.len() - k,
{
    if k == path.len() {
    } else {
        let i = nv_find(n.children, path[k]);
        let r = nv_ensure_update(n, path, k, desc, field);
        if i < 0 {
            let child = nv_ensure_update(nv_section(path[k]), path, k + 1, desc, field);
            lemma_ensure_update_name(nv_section(path[k]), path, k + 1, desc, field);
            lemma_nv_find_props(n.children, path[k]);
            lemma_nv_find_props(r.children, path[k]);
            assert(r.children == n.children.push(child));
            assert(r.children[n.children.len() as int] == child);
            assert(child.name == path[k]);
            assert(nv_find(r.children, path[k]) == n.children.len());
            lemma_ensure_update_reachable(nv_section(path[k]), path, k + 1, desc, field);
        } else {
            lemma_nv_find_props(n.children, path[k]);
            let child = nv_ensure_update(n.children[i], path, k + 1, desc, field);
            lemma_ensure_update_name(n.children[i], path, k + 1, desc, field);
            assert(r.children == n.children.update(i, child));
            assert(child.name == path[k]);
            assert(forall|j: int| 0 <= j < i ==> r.children[j] == n.children[j]);
            assert(r.children[i].name == path[k]);
            lemma_nv_find_props(r.children, path[k]);
            assert(nv_find(r.children, path[k]) == i);
            lemma_ensure_update_reachable(n.children[i], path, k + 1, desc, field);
        }
    }
}

/// Merging at a path makes the path reachable: after `b` is merged at
/// the end of `path[k..]` below `n`, following the same path finds a
/// node.
pub proof fn lemma_merge_at_reachable(n: NodeV, path: Seq<Seq<char>>, k: int, b: NodeV)
    requires
        0 <= k <= path.len(),
    ensures
        nv_get_path(nv_merge_at(n, path, k, b), path, k) is Some,
    decreases path.len() - k,
{
    if k == path.len() {
    } else {
        let i = nv_find(n.children, path[k]);
        let r = nv_merge_at(n, path, k, b);
        if i < 0 {
            let child = nv_merge_at(nv_section(path[k]), path, k + 1, b);
            lemma_merge_at_name(nv_section(path[k]), path, k + 1, b);
            lemma_nv_find_props(n.children, path[k]);
            lemma_nv_find_props(r.children, path[k]);
            assert(r.children == n.children.push(child));
            assert(r.children[n.children.len() as int] == child);
            assert(child.name == path[k]);
            assert(nv_find(r.children, path[k]) == n.children.len());
            lemma_merge_at_reachable(nv_section(path[k]), path, k + 1, b);
        } else {
            lemma_nv_find_props(n.children, path[k]);
            let child = nv_merge_at(n.children[i], path, k + 1, b);
            lemma_merge_at_name(n.children[i], path, k + 1, b);
            assert(r.children == n.children.update(i, child));
            assert(child.name == path[k]);
            assert(forall|j: int| 0 <= j < i ==> r.children[j] == n.children[j]);
            assert(r.children[i].name == path[k]);
            lemma_nv_find_props(r.children, path[k]);
            assert(nv_find(r.children, path[k]) == i);
            lemma_merge_at_reachable(n.children[i], path, k + 1, b);
        }
    }
}

pub proof fn lemma_merge_at_name(n: NodeV, path: Seq<Seq<char>>, k: int, b: NodeV)
    ensures
        nv_merge_at(n, path, k, b).name == n.name,
    decreases path.len() - k,
{
    if k < 0 || k >= path.len() {
        lemma_merge_name(n, b);
    } else {
        let i = nv_find(n.children, path[k]);
        if i < 0 {
            lemma_merge_at_name(nv_section(path[k]), path, k + 1, b);
        } else {
            lemma_merge_at_name(n.children[i], path, k + 1, b);
        }
    }
}


proof fn lemma_nv_find_same_names(a: Seq<NodeV>, b: Seq<NodeV>, name: Seq<char>)
    requires
        a.len() == b.len(),
        forall|k: int| 0 <= k < a.len() ==> a[k].name == #[trigger] b[k].name,
    ensures
        nv_find(a, name) == nv_find(b, name),
{
    lemma_nv_find_props(a, name);
    lemma_nv_find_props(b, name);
    let fa = nv_find(a, name);
    let fb = nv_find(b, name);
    if fa == -1 {
        assert(forall|k: int| 0 <= k < b.len() ==> b[k].name != name);
    } else {
        assert(b[fa].name == name);
        assert(forall|k: int| 0 <= k < fa ==> b[k].name != name);
        if fb < fa {
            assert(a[fb].name == name);
            assert(false);
        }
        if fb > fa {
            assert(false);
        }
    }
}

proof fn lemma_nv_find_push_found(a: Seq<NodeV>, x: NodeV, name: Seq<char>)
    requires
        nv_find(a, name) >= 0,
    ensures
        nv_find(a.push(x), name) == nv_find(a, name),
{
    lemma_nv_find_props(a, name);
    lemma_nv_find_props(a.push(x), name);
    let fa = nv_find(a, name);
    let fp = nv_find(a.push(x), name);
    assert(a.push(x)[fa].name == name);
    if fp < fa {
        assert(a[fp].name == name);
        assert(false);
    }
    if fp > fa {
        assert(false);
    }
}

/// Appending a child leaves every reachable path reachable.
pub proof fn lemma_push_child_preserves_reachable(n: NodeV, c: NodeV, q: Seq<Seq<char>>, i: int)
    requires
        nv_get_path(n, q, i) is Some,
    ensures
        nv_get_path(NodeV { children: n.children.push(c), ..n }, q, i) is Some,
{
    let m = NodeV { children: n.children.push(c), ..n };
    if 0 <= i < q.len() {
        let jq = nv_find(n.children, q[i]);
        assert(jq >= 0);
        lemma_nv_find_props(n.children, q[i]);
        lemma_nv_find_push_found(n.children, c, q[i]);
        assert(m.children[jq] == n.children[jq]);
    }
}

/// Creating a hierarchy leaves every reachable path reachable: the
/// operation only adds children or rewrites a node in place under its
/// own name.
pub proof fn lemma_ensure_update_preserves_reachable(
    n: NodeV,
    path: Seq<Seq<char>>,
    k: int,
    desc: Seq<char>,
    field: Option<u64>,
    q: Seq<Seq<char>>,
    i: int,
)
    requires
        0 <= k <= path.len(),
        nv_get_path(n, q, i) is Some,
    ensures
        nv_get_path(nv_ensure_update(n, path, k, desc, field), q, i) is Some,
    decreases path.len() - k,
{
    let r = nv_ensure_update(n, path, k, desc, field);
    if i < 0 || i >= q.len() {
    } else if k == path.len() {
        assert(r.children == n.children);
        let jq = nv_find(n.children, q[i]);
        assert(jq >= 0);
        lemma_nv_find_props(n.children, q[i]);
        assert(r.children[jq] == n.children[jq]);
    } else {
        let j = nv_find(n.children, path[k]);
        let jq = nv_find(n.children, q[i]);
        assert(jq >= 0);
        lemma_nv_find_props(n.children, q[i]);
        lemma_nv_find_props(n.children, path[k]);
        if j < 0 {
            let child = nv_ensure_update(nv_section(path[k]), path, k + 1, desc, field);
            assert(r.children == n.children.push(child));
            lemma_nv_find_push_found(n.children, child, q[i]);
            assert(r.children[jq] == n.children[jq]);
        } else {
            let child = nv_ensure_update(n.children[j], path, k + 1, desc, field);
            lemma_ensure_update_name(n.children[j], path, k + 1, desc, field);
            assert(r.children == n.children.update(j, child));
            assert forall|m: int| 0 <= m < n.children.len() implies n.children[m].name == (
            #[trigger] r.children[m].name) by {
                if m == j {
                    assert(r.children[m] == child);
                } else {
                    assert(r.children[m] == n.children[m]);
                }
            }
            lemma_nv_find_same_names(n.children, r.children, q[i]);
            assert(nv_find(r.children, q[i]) == jq);
            if jq == j {
                lemma_ensure_update_preserves_reachable(
                    n.children[j],
                    path,
                    k + 1,
                    desc,
                    field,
                    q,
                    i + 1,
                );
            } else {
                assert(r.children[jq] == n.children[jq]);
            }
        }
    }
}

} // verus!
