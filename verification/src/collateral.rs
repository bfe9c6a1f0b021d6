//! The collateral manager: a read-only, product-versioned tree of
//! decode definitions and product tables.

use crate::error::Error;
use vstd::prelude::*;

verus! {

/// Product description looked up by product identifier.
#[derive(Debug)]
pub struct TargetInfo {
    /// Three-letter acronym of the product.
    pub product: String,
    /// Product variant.
    pub variant: String,
    /// Names of the product's dies by die identifier.
    pub die_id: Vec<(u8, String)>,
}

/// Mathematical mirror of [`TargetInfo`].
#[verifier::ext_equal]
pub ghost struct TargetInfoV {
    pub product: Seq<char>,
    pub variant: Seq<char>,
    pub die_id: Seq<(u8, Seq<char>)>,
}

impl View for TargetInfo {
    type V = TargetInfoV;

    open spec fn view(&self) -> TargetInfoV {
        TargetInfoV {
            product: self.product@,
            variant: self.variant@,
            die_id: self.die_id@.map_values(|p: (u8, String)| (p.0, p.1@)),
        }
    }
}

/// Index of the first pair keyed `k` in an association list, or `-1`.
pub open spec fn spec_assoc_find<V>(s: Seq<(u32, V)>, k: u32) -> int
    decreases s.len(),
{
    if s.len() == 0 {
        -1
    } else if s[0].0 == k {
        0
    } else {
        let r = spec_assoc_find(s.skip(1), k);
        if r < 0 {
            -1
        } else {
            r + 1
        }
    }
}

pub proof fn lemma_assoc_find_props<V>(s: Seq<(u32, V)>, k: u32)
    ensures
        spec_assoc_find(s, k) == -1 <==> (forall|i: int| 0 <= i < s.len() ==> s[i].0 != k),
        spec_assoc_find(s, k) >= 0 ==> 0 <= spec_assoc_find(s, k) < s.len() && s[spec_assoc_find(
            s,
            k,
        )].0 == k && (forall|i: int| 0 <= i < spec_assoc_find(s, k) ==> s[i].0 != k),
    decreases s.len(),
{
    if s.len() > 0 && s[0].0 != k {
        lemma_assoc_find_props(s.skip(1), k);
        let r = spec_assoc_find(s.skip(1), k);
        if r == -1 {
            assert forall|i: int| 0 <= i < s.len() implies s[i].0 != k by {
                if i > 0 {
                    assert(s[i] == s.skip(1)[i - 1]);
                }
            }
        } else {
            assert(s[r + 1] == s.skip(1)[r]);
            assert forall|i: int| 0 <= i < r + 1 implies s[i].0 != k by {
                if i > 0 {
                    assert(s[i] == s.skip(1)[i - 1]);
                }
            }
        }
    }
}

/// The target info registered for the product `k`, if any.
pub open spec fn spec_target_info(s: Seq<(u32, TargetInfoV)>, k: u32) -> Option<TargetInfoV> {
    let i = spec_assoc_find(s, k);
    if i < 0 {
        None
    } else {
        Some(s[i].1)
    }
}

/// Index of the first pair keyed `k` in a die-name list, or `-1`.
pub open spec fn spec_die_find(s: Seq<(u8, Seq<char>)>, k: u8) -> int
    decreases s.len(),
{
    if s.len() == 0 {
        -1
    } else if s[0].0 == k {
        0
    } else {
        let r = spec_die_find(s.skip(1), k);
        if r < 0 {
            -1
        } else {
            r + 1
        }
    }
}

pub proof fn lemma_die_find_props(s: Seq<(u8, Seq<char>)>, k: u8)
    ensures
        spec_die_find(s, k) == -1 <==> (forall|i: int| 0 <= i < s.len() ==> s[i].0 != k),
        spec_die_find(s, k) >= 0 ==> 0 <= spec_die_find(s, k) < s.len() && s[spec_die_find(
            s,
            k,
        )].0 == k && (forall|i: int| 0 <= i < spec_die_find(s, k) ==> s[i].0 != k),
    decreases s.len(),
{
    if s.len() > 0 && s[0].0 != k {
        lemma_die_find_props(s.skip(1), k);
        let r = spec_die_find(s.skip(1), k);
        if r == -1 {
            assert forall|i: int| 0 <= i < s.len() implies s[i].0 != k by {
                if i > 0 {
                    assert(s[i] == s.skip(1)[i - 1]);
                }
            }
        } else {
            assert(s[r + 1] == s.skip(1)[r]);
            assert forall|i: int| 0 <= i < r + 1 implies s[i].0 != k by {
                if i > 0 {
                    assert(s[i] == s.skip(1)[i - 1]);
                }
            }
        }
    }
}

/// The die name registered for die `k`, if any.
pub open spec fn spec_die_name(s: Seq<(u8, Seq<char>)>, k: u8) -> Option<Seq<char>> {
    let i = spec_die_find(s, k);
    if i < 0 {
        None
    } else {
        Some(s[i].1)
    }
}

impl TargetInfo {
    /// Looks up the name of die `die_id` for this product.
    pub fn die_name(&self, die_id: u8) -> (r: Option<&String>)
        ensures
            match r {
                Some(name) => spec_die_name(self@.die_id, die_id) == Some(name@),
                None => spec_die_name(self@.die_id, die_id) is None,
            },
    {
        let n = self.die_id.len();
        let mut i: usize = 0;
        while i < n
            invariant
                i <= n,
                n == self.die_id@.len(),
                forall|j: int| 0 <= j < i ==> self@.die_id[j].0 != die_id,
            decreases n - i,
        {
            proof {
                assert(self@.die_id[i as int] == (self.die_id@[i as int].0, self.die_id@[i as int].1@));
            }
            if self.die_id[i].0 == die_id {
                proof {
                    lemma_die_find_props(self@.die_id, die_id);
                }
                return Some(&self.die_id[i].1);
            }
            i += 1;
        }
        proof {
            lemma_die_find_props(self@.die_id, die_id);
        }
        None
    }
}

/// A sequence of path segments addressing one item of the collateral
/// tree.
#[derive(Debug)]
pub struct ItemPath {
    /// The path segments, outermost first.
    pub segments: Vec<String>,
}

impl View for ItemPath {
    type V = Seq<Seq<char>>;

    open spec fn view(&self) -> Seq<Seq<char>> {
        self.segments@.map_values(|x: String| x@)
    }
}

impl ItemPath {
    /// An empty path.
    pub fn new() -> (r: ItemPath)
        ensures
            r@ =~= Seq::<Seq<char>>::empty(),
    {
        ItemPath { segments: Vec::new() }
    }

    /// Appends one segment to the path.
    pub fn push(&mut self, segment: String)
        ensures
            final(self)@ == old(self)@.push(segment@),
    {
        self.segments.push(segment);
        proof {
            assert(self@ =~= old(self)@.push(segment@));
        }
    }
}

/// The product, variant, silicon and stepping key used to select
/// collateral items.
#[derive(Debug)]
pub struct PVSS {
    pub product: String,
    pub variant: String,
    pub silicon: String,
    pub stepping: String,
}

impl PVSS {
    /// A key selecting the shared collateral of every product.
    pub fn new() -> (r: PVSS)
        ensures
            r.product@ == "all"@,
            r.variant@ == "all"@,
            r.silicon@ == "all"@,
            r.stepping@ == "all"@,
    {
        PVSS {
            product: "all".to_owned(),
            variant: "all".to_owned(),
            silicon: "all".to_owned(),
            stepping: "all".to_owned(),
        }
    }
}

/// The storage behind a collateral manager. An implementation resolves
/// a path to the raw bytes of the stored item, honoring whatever
/// product/variant/silicon/stepping overrides the key implies; nothing
/// more is assumed of it, and the decoders handle every outcome.
pub trait CollateralTree {
    /// Reads the item at `path` under the override key `pvss`, or
    /// fails with the tree's own error.
    fn get_item(&mut self, pvss: &PVSS, path: &ItemPath) -> Result<Vec<u8>, Error>;
}

/// Resolves decode definitions and product information for record
/// headers, over an arbitrary tree backend.
pub struct CollateralManager<T> {
    /// Product descriptions by product identifier.
    pub target_info: Vec<(u32, TargetInfo)>,
    /// The backing tree.
    pub tree: T,
}

impl<T: CollateralTree> CollateralManager<T> {
    /// The target info table as its mathematical mirror.
    pub open spec fn spec_targets(self) -> Seq<(u32, TargetInfoV)> {
        self.target_info@.map_values(|p: (u32, TargetInfo)| (p.0, p.1@))
    }

    /// A manager over the given tree with an empty product table.
    pub fn new(tree: T) -> (r: CollateralManager<T>)
        ensures
            r.spec_targets() =~= Seq::<(u32, TargetInfoV)>::empty(),
    {
        let r = CollateralManager { target_info: Vec::new(), tree };
        proof {
            assert(r.spec_targets() =~= Seq::<(u32, TargetInfoV)>::empty());
        }
        r
    }

    /// Registers the description of a product.
    pub fn add_target_info(&mut self, product_id: u32, info: TargetInfo)
        ensures
            final(self).spec_targets() == old(self).spec_targets().push((product_id, info@)),
            final(self).tree == old(self).tree,
    {
        self.target_info.push((product_id, info));
        proof {
            assert(self.spec_targets() =~= old(self).spec_targets().push((product_id, info@)));
        }
    }

    /// Looks up the description of the product `product_id`.
    pub fn find_target_info(&self, product_id: u32) -> (r: Option<&TargetInfo>)
        ensures
            match r {
                Some(info) => spec_target_info(self.spec_targets(), product_id) == Some(info@),
                None => spec_target_info(self.spec_targets(), product_id) is None,
            },
    {
        let n = self.target_info.len();
        let mut i: usize = 0;
        while i < n
            invariant
                i <= n,
                n == self.target_info@.len(),
                forall|j: int| 0 <= j < i ==> self.spec_targets()[j].0 != product_id,
            decreases n - i,
        {
            proof {
                assert(self.spec_targets()[i as int] == (
                    self.target_info@[i as int].0,
                    self.target_info@[i as int].1@,
                ));
            }
            if self.target_info[i].0 == product_id {
                proof {
                    lemma_assoc_find_props(self.spec_targets(), product_id);
                }
                return Some(&self.target_info[i].1);
            }
            i += 1;
        }
        proof {
            lemma_assoc_find_props(self.spec_targets(), product_id);
        }
        None
    }

    /// Reads the collateral item at `path` without product overrides.
    /// The tree decides what the path resolves to; the caller handles
    /// every outcome. The product table is left as it is.
    pub fn get_item(&mut self, path: &ItemPath) -> (r: Result<Vec<u8>, Error>)
        ensures
            final(self).target_info == old(self).target_info,
    {
        let pvss = PVSS::new();
        self.tree.get_item(&pvss, path)
    }
}

/// A collateral tree held in memory: a list of items keyed by their
/// full path.
#[derive(Debug)]
pub struct MemoryTree {
    /// The stored items, each under its full path.
    pub items: Vec<(ItemPath, Vec<u8>)>,
}

impl MemoryTree {
    /// An empty tree.
    pub fn new() -> (r: MemoryTree)
        ensures
            r.items@.len() == 0,
    {
        MemoryTree { items: Vec::new() }
    }

    /// Stores `bytes` under `path`.
    pub fn insert(&mut self, path: ItemPath, bytes: Vec<u8>)
        ensures
            final(self).items@ == old(self).items@.push((path, bytes)),
    {
        self.items.push((path, bytes));
    }
}

fn path_eq(a: &ItemPath, b: &ItemPath) -> (r: bool)
    ensures
        r == (a@ == b@),
{
    let n = a.segments.len();
    if n != b.segments.len() {
        proof {
            assert(a@.len() == a.segments@.len());
            assert(b@.len() == b.segments@.len());
        }
        return false;
    }
    let mut i: usize = 0;
    while i < n
        invariant
            i <= n,
            n == a.segments@.len(),
            n == b.segments@.len(),
            forall|j: int| 0 <= j < i ==> a@[j] == b@[j],
        decreases n - i,
    {
        proof {
            assert(a@[i as int] == a.segments@[i as int]@);
            assert(b@[i as int] == b.segments@[i as int]@);
        }
        if !crate::strutil::str_eq(a.segments[i].as_str(), b.segments[i].as_str()) {
            proof {
                assert(a@[i as int] != b@[i as int]);
            }
            return false;
        }
        i += 1;
    }
    proof {
        assert(a@ =~= b@);
    }
    true
}

impl CollateralTree for MemoryTree {
    /// Reads the first item stored under a path equal to `path`;
    /// the flat tree holds one variant of every item, so the override
    /// key selects nothing. Absent items fail as a tree access
    /// failure.
    fn get_item(&mut self, _pvss: &PVSS, path: &ItemPath) -> Result<Vec<u8>, Error> {
        let n = self.items.len();
        let mut i: usize = 0;
        while i < n
            invariant
                i <= n,
                n == self.items@.len(),
            decreases n - i,
        {
            if path_eq(&self.items[i].0, path) {
                let mut out: Vec<u8> = Vec::new();
                out.extend_from_slice(self.items[i].1.as_slice());
                return Ok(out);
            }
            i += 1;
        }
        Err(Error::Io)
    }
}

} // verus!
