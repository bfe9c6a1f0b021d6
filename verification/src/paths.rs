//! Routing of records to collateral items and to their place in the
//! decoded hierarchy.

use crate::collateral::{
    spec_die_name, spec_target_info, CollateralManager, CollateralTree, ItemPath, PVSS,
    TargetInfoV,
};
use crate::error::Error;
use crate::header::{spec_record_type_known, spec_record_type_name, Header, HeaderV};
use crate::record::Record;
use crate::strutil::{spec_dec_str, spec_trim_end_digits, trim_end_digits, u64_to_string};
use vstd::prelude::*;
use vstd::string::StringExecFns;

verus! {

/// The name of the die `die_id` of the product of `h`, when the target
/// table knows both the product and the die.
pub open spec fn spec_product_die_name(
    targets: Seq<(u32, TargetInfoV)>,
    product_id: u32,
    die_id: u8,
) -> Option<Seq<char>> {
    match spec_target_info(targets, product_id) {
        None => None,
        Some(ti) => spec_die_name(ti.die_id, die_id),
    }
}

/// The name of the die that generated the record under the header `h`,
/// when the header carries a die and the target table knows it.
pub open spec fn spec_header_die(targets: Seq<(u32, TargetInfoV)>, h: HeaderV) -> Option<
    Seq<char>,
> {
    match h.spec_die_id() {
        None => None,
        Some(id) => spec_product_die_name(targets, h.version.product_id, id),
    }
}

impl HeaderV {
    /// Die that generated the record, when the header layout carries
    /// one.
    pub open spec fn spec_die_id(self) -> Option<u8> {
        match self.header_type {
            crate::header::HeaderTypeV::Type6 { die_id, .. } => Some(die_id),
            crate::header::HeaderTypeV::Type0LegacyServer { die_id, .. } => Some(die_id),
            _ => None,
        }
    }

    /// Socket that generated the record: zero unless the header layout
    /// carries one.
    pub open spec fn spec_socket_id(self) -> u8 {
        match self.header_type {
            crate::header::HeaderTypeV::Type6 { socket_id, .. } => socket_id,
            crate::header::HeaderTypeV::Type0LegacyServer { socket_id, .. } => socket_id,
            _ => 0u8,
        }
    }
}

/// The dotted hierarchy root for a record from the given socket, the
/// die spelled as `die_part`.
pub open spec fn spec_root_path(socket: u8, die_part: Seq<char>) -> Seq<char> {
    "processors.cpu"@ + spec_dec_str(socket as int) + "."@ + die_part
}

/// The default spelling of a die without a known name.
pub open spec fn spec_die_fallback(die_id: u8) -> Seq<char> {
    "die"@ + spec_dec_str(die_id as int)
}

fn make_root_path(socket: u8, die_part: &str) -> (r: String)
    ensures
        r@ == spec_root_path(socket, die_part@),
{
    let mut s = "processors.cpu".to_owned();
    s.append(u64_to_string(socket as u64).as_str());
    s.append(".");
    s.append(die_part);
    proof {
        assert(s@ =~= spec_root_path(socket, die_part@));
    }
    s
}

fn make_die_fallback(die_id: u8) -> (r: String)
    ensures
        r@ == spec_die_fallback(die_id),
{
    let mut s = "die".to_owned();
    s.append(u64_to_string(die_id as u64).as_str());
    proof {
        assert(s@ =~= spec_die_fallback(die_id));
    }
    s
}

impl Header {
    /// Returns the three-letter acronym associated to the product ID
    /// specified in the header, or fails when the target table has no
    /// entry for it.
    pub fn product<'a, T: CollateralTree>(&self, cm: &'a CollateralManager<T>) -> (r: Result<
        &'a String,
        Error,
    >)
        ensures
            match r {
                Ok(p) => spec_target_info(cm.spec_targets(), self.version.product_id) matches Some(
                    ti,
                ) && ti.product == p@,
                Err(e) => spec_target_info(cm.spec_targets(), self.version.product_id) is None && e
                    == Error::InvalidProductID(self.version.product_id),
            },
    {
        match cm.find_target_info(self.version.product_id) {
            Some(info) => Ok(&info.product),
            None => Err(Error::InvalidProductID(self.version.product_id)),
        }
    }

    /// Returns the product variant associated to the product ID
    /// specified in the header.
    pub fn variant<'a, T: CollateralTree>(&self, cm: &'a CollateralManager<T>) -> (r: Option<
        &'a String,
    >)
        ensures
            match r {
                Some(v) => spec_target_info(cm.spec_targets(), self.version.product_id) matches Some(
                    ti,
                ) && ti.variant == v@,
                None => spec_target_info(cm.spec_targets(), self.version.product_id) is None,
            },
    {
        match cm.find_target_info(self.version.product_id) {
            Some(info) => Some(&info.variant),
            None => None,
        }
    }

    /// Looks up the product-specific name of the die `die_id`.
    pub fn get_die_name<'a, T: CollateralTree>(&self, die_id: u8, cm: &'a CollateralManager<T>)
        -> (r: Option<&'a String>)
        ensures
            match r {
                Some(name) => spec_product_die_name(
                    cm.spec_targets(),
                    self.version.product_id,
                    die_id,
                ) == Some(name@),
                None => spec_product_die_name(
                    cm.spec_targets(),
                    self.version.product_id,
                    die_id,
                ) is None,
            },
    {
        match cm.find_target_info(self.version.product_id) {
            Some(info) => info.die_name(die_id),
            None => None,
        }
    }

    /// Returns the name of the die that generated the record, which is
    /// product-specific.
    pub fn die<'a, T: CollateralTree>(&self, cm: &'a CollateralManager<T>) -> (r: Option<
        &'a String,
    >)
        ensures
            match r {
                Some(name) => spec_header_die(cm.spec_targets(), self@) == Some(name@),
                None => spec_header_die(cm.spec_targets(), self@) is None,
            },
    {
        match self.die_id() {
            Some(id) => self.get_die_name(id, cm),
            None => None,
        }
    }

    /// Returns the product/variant key under which collateral for this
    /// record is stored; an unknown product other than zero fails.
    pub fn pvss<T: CollateralTree>(&self, cm: &CollateralManager<T>) -> (r: Result<PVSS, Error>)
        ensures
            match r {
                Ok(p) => (match spec_target_info(cm.spec_targets(), self.version.product_id) {
                    Some(ti) => p.product@ == ti.product && p.variant@ == ti.variant,
                    None => self.version.product_id == 0 && p.product@ == "all"@ && p.variant@
                        == "all"@,
                }) && p.silicon@ == "all"@ && p.stepping@ == "all"@,
                Err(e) => spec_target_info(cm.spec_targets(), self.version.product_id) is None
                    && self.version.product_id != 0 && e == Error::InvalidProductID(
                    self.version.product_id,
                ),
            },
    {
        let mut pvss = PVSS::new();
        match self.product(cm) {
            Ok(p) => {
                pvss.product = p.clone();
            },
            Err(e) => {
                if self.version.product_id != 0 {
                    return Err(e);
                }
            },
        }
        if let Some(v) = self.variant(cm) {
            pvss.variant = v.clone();
        }
        Ok(pvss)
    }

    /// The hierarchy root implied by the header alone: socket and die
    /// number, for the layouts that carry them.
    pub open spec fn spec_get_root_path(self) -> Option<Seq<char>> {
        match self@.spec_die_id() {
            Some(die) => Some(
                spec_root_path(self@.spec_socket_id(), spec_die_fallback(die)),
            ),
            None => None,
        }
    }

    /// Returns the hierarchy root implied by the header alone.
    pub fn get_root_path(&self) -> (r: Option<String>)
        ensures
            match r {
                Some(p) => self.spec_get_root_path() == Some(p@),
                None => self.spec_get_root_path() is None,
            },
    {
        match self.die_id() {
            Some(die) => Some(make_root_path(self.socket_id(), make_die_fallback(die).as_str())),
            None => None,
        }
    }

    /// Returns the hierarchy root for this record, spelling the die by
    /// its product-specific name when the target table knows it.
    pub fn get_root_path_using_cm<T: CollateralTree>(&self, cm: &CollateralManager<T>) -> (r:
        Option<String>)
        ensures
            match r {
                Some(p) => self@.spec_die_id() is Some && p@ == spec_root_path(
                    self@.spec_socket_id(),
                    match spec_header_die(cm.spec_targets(), self@) {
                        Some(name) => name,
                        None => spec_die_fallback(self@.spec_die_id()->0),
                    },
                ),
                None => self@.spec_die_id() is None,
            },
    {
        match self.die_id() {
            Some(_) => {
                match self.die(cm) {
                    Some(die) => {
                        let part = die.clone();
                        Some(make_root_path(self.socket_id(), part.as_str()))
                    },
                    None => self.get_root_path(),
                }
            },
            None => None,
        }
    }

    /// The candidate collateral paths for this record's decode
    /// definitions: under the die root when the die name is known, else
    /// under the revision with a shared fallback.
    pub open spec fn spec_decode_definitions_paths(
        self,
        targets: Seq<(u32, TargetInfoV)>,
    ) -> Seq<Seq<Seq<char>>> {
        let rt = spec_record_type_name(self.version.record_type);
        let rev = spec_dec_str(self.version.revision as int);
        match spec_header_die(targets, self@) {
            Some(die) => seq![
                seq!["decode-defs"@, rt, spec_trim_end_digits(die), rev],
            ],
            None => seq![
                seq!["decode-defs"@, rt, rev],
                seq!["decode-defs"@, rt, "all"@],
            ],
        }
    }

    /// Returns the candidate collateral paths for this record's decode
    /// definitions; an unknown record type fails.
    pub fn decode_definitions_paths<T: CollateralTree>(&self, cm: &CollateralManager<T>) -> (r:
        Result<Vec<ItemPath>, Error>)
        ensures
            match r {
                Ok(paths) => spec_record_type_known(self.version.record_type) && paths@.map_values(
                    |p: ItemPath| p@,
                ) == self.spec_decode_definitions_paths(cm.spec_targets()),
                Err(e) => !spec_record_type_known(self.version.record_type) && e
                    == Error::InvalidRecordType(self.version.record_type),
            },
    {
        let record_type = match self.record_type() {
            Ok(rt) => rt,
            Err(e) => {
                return Err(e);
            },
        };
        let revision = u64_to_string(self.revision() as u64);
        let mut paths: Vec<ItemPath> = Vec::new();
        match self.die(cm) {
            Some(die) => {
                let die_root = trim_end_digits(die.as_str());
                let mut path = ItemPath::new();
                path.push("decode-defs".to_owned());
                path.push(record_type.to_owned());
                path.push(die_root);
                path.push(revision);
                proof {
                    assert(path@ =~= seq![
                        "decode-defs"@,
                        spec_record_type_name(self.version.record_type),
                        spec_trim_end_digits(spec_header_die(cm.spec_targets(), self@)->0),
                        spec_dec_str(self.version.revision as int),
                    ]);
                }
                paths.push(path);
                proof {
                    assert(paths@.map_values(|p: ItemPath| p@) =~~= self
                        .spec_decode_definitions_paths(cm.spec_targets()));
                }
            },
            None => {
                let mut path = ItemPath::new();
                path.push("decode-defs".to_owned());
                path.push(record_type.to_owned());
                path.push(revision.clone());
                proof {
                    assert(path@ =~= seq![
                        "decode-defs"@,
                        spec_record_type_name(self.version.record_type),
                        spec_dec_str(self.version.revision as int),
                    ]);
                }
                paths.push(path);
                let mut path2 = ItemPath::new();
                path2.push("decode-defs".to_owned());
                path2.push(record_type.to_owned());
                path2.push("all".to_owned());
                proof {
                    assert(path2@ =~= seq![
                        "decode-defs"@,
                        spec_record_type_name(self.version.record_type),
                        "all"@,
                    ]);
                }
                paths.push(path2);
                proof {
                    assert(paths@.map_values(|p: ItemPath| p@) =~~= self
                        .spec_decode_definitions_paths(cm.spec_targets()));
                }
            },
        }
        Ok(paths)
    }
}

impl<T: CollateralTree> CollateralManager<T> {
    /// Reads the collateral item at `path` under the
    /// product/variant/silicon/stepping overrides that the record
    /// header implies. The tree decides what the key and path resolve
    /// to; the caller handles every outcome. The product table is left
    /// as it is.
    pub fn get_item_with_header(&mut self, header: &Header, path: &ItemPath) -> (r: Result<
        Vec<u8>,
        Error,
    >)
        ensures
            final(self).target_info == old(self).target_info,
    {
        let pvss = match header.pvss(self) {
            Ok(p) => p,
            Err(e) => {
                return Err(e);
            },
        };
        self.tree.get_item(&pvss, path)
    }
}

impl Record {
    /// The hierarchy root for this record: the one implied by its
    /// header, else the one its context carries.
    pub open spec fn spec_get_root_path(self) -> Option<Seq<char>> {
        match self.header.spec_get_root_path() {
            Some(p) => Some(p),
            None => match (self.context.socket_id, self.context.die_id) {
                (Some(s), Some(d)) => Some(spec_root_path(s, spec_die_fallback(d))),
                _ => None,
            },
        }
    }

    /// Returns the hierarchy root for this record without consulting a
    /// collateral manager.
    pub fn get_root_path(&self) -> (r: Option<String>)
        ensures
            match r {
                Some(p) => self.spec_get_root_path() == Some(p@),
                None => self.spec_get_root_path() is None,
            },
    {
        if let Some(custom_root) = self.header.get_root_path() {
            return Some(custom_root);
        }
        if let (Some(socket_id), Some(die_id)) = (self.context.socket_id, self.context.die_id) {
            return Some(make_root_path(socket_id, make_die_fallback(die_id).as_str()));
        }
        None
    }

    /// The hierarchy root for this record with die names resolved
    /// through the target table.
    pub open spec fn spec_get_root_path_using_cm(
        self,
        targets: Seq<(u32, TargetInfoV)>,
    ) -> Option<Seq<char>> {
        if self.header@.spec_die_id() is Some {
            Some(
                spec_root_path(
                    self.header@.spec_socket_id(),
                    match spec_header_die(targets, self.header@) {
                        Some(name) => name,
                        None => spec_die_fallback(self.header@.spec_die_id()->0),
                    },
                ),
            )
        } else {
            match (self.context.socket_id, self.context.die_id) {
                (Some(s), Some(d)) => Some(
                    spec_root_path(
                        s,
                        match spec_product_die_name(
                            targets,
                            self.header.version.product_id,
                            d,
                        ) {
                            Some(name) => name,
                            None => spec_die_fallback(d),
                        },
                    ),
                ),
                _ => None,
            }
        }
    }

    /// Returns the hierarchy root for this record, spelling dies by
    /// their product-specific names when the target table knows them.
    pub fn get_root_path_using_cm<T: CollateralTree>(&self, cm: &CollateralManager<T>) -> (r:
        Option<String>)
        ensures
            match r {
                Some(p) => self.spec_get_root_path_using_cm(cm.spec_targets()) == Some(p@),
                None => self.spec_get_root_path_using_cm(cm.spec_targets()) is None,
            },
    {
        if let Some(custom_root) = self.header.get_root_path_using_cm(cm) {
            return Some(custom_root);
        }
        if let (Some(socket_id), Some(die_id)) = (self.context.socket_id, self.context.die_id) {
            let die = match self.header.get_die_name(die_id, cm) {
                Some(die_name) => die_name.clone(),
                None => make_die_fallback(die_id),
            };
            return Some(make_root_path(socket_id, die.as_str()));
        }
        None
    }
}

} // verus!
