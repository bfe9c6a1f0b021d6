//! The generic field-decode engine: CSV decode definitions lift raw
//! bit-fields out of a record into a node tree.

use crate::collateral::{CollateralManager, CollateralTree};
use crate::error::Error;
use crate::header_node::spec_header_node;
use crate::node::{nv, nv_ensure_update, nv_find, nv_get, nv_get_path, nv_merge, nv_merge_at, Node, NodeType, NodeV};
use crate::record::{spec_field, Record};
use crate::header::{spec_record_type_known, spec_record_type_name};
use crate::strutil::{
    parse_usize, spec_dec_str, spec_digits_val, spec_is_uint, spec_lower, spec_parse_digits,
    spec_split, split_char, str_eq, u64_to_string,
};
use vstd::prelude::*;
use vstd::string::{StrSliceExecFns, StringSliceAdditionalSpecFns};
use vstd::utf8::{decode_utf8, valid_utf8};

verus! {

/// One row of a decode definition.
struct Entry {
    name: String,
    offset: usize,
    size: usize,
    description: String,
}

/// Mathematical mirror of one decode definition row.
#[verifier::ext_equal]
pub ghost struct EntryV {
    pub name: Seq<char>,
    pub offset: int,
    pub size: int,
    pub description: Seq<char>,
}

/// A line with its trailing carriage return stripped.
pub open spec fn spec_clean_line(l: Seq<char>) -> Seq<char> {
    if l.len() > 0 && l.last() == '\r' {
        l.drop_last()
    } else {
        l
    }
}

/// The row decoded from the fields of one CSV line, under the column
/// names of the first line: recognized columns set the matching entry
/// field, unknown columns are ignored, and a malformed integer is the
/// offending cell's text as an error.
pub open spec fn spec_entry_fields(
    columns: Seq<Seq<char>>,
    fields: Seq<Seq<char>>,
    j: int,
    acc: EntryV,
) -> Result<EntryV, Seq<char>>
    decreases fields.len() - j,
{
    if j < 0 || j >= fields.len() {
        Ok(acc)
    } else if j >= columns.len() {
        spec_entry_fields(columns, fields, j + 1, acc)
    } else if columns[j] == "name"@ {
        spec_entry_fields(columns, fields, j + 1, EntryV { name: fields[j], ..acc })
    } else if columns[j] == "offset"@ {
        if spec_is_uint(fields[j]) && spec_digits_val(spec_parse_digits(fields[j])) <= usize::MAX {
            spec_entry_fields(
                columns,
                fields,
                j + 1,
                EntryV { offset: spec_digits_val(spec_parse_digits(fields[j])), ..acc },
            )
        } else {
            Err(fields[j])
        }
    } else if columns[j] == "size"@ {
        if spec_is_uint(fields[j]) && spec_digits_val(spec_parse_digits(fields[j])) <= usize::MAX {
            spec_entry_fields(
                columns,
                fields,
                j + 1,
                EntryV { size: spec_digits_val(spec_parse_digits(fields[j])), ..acc },
            )
        } else {
            Err(fields[j])
        }
    } else if columns[j] == "description"@ {
        spec_entry_fields(columns, fields, j + 1, EntryV { description: fields[j], ..acc })
    } else {
        spec_entry_fields(columns, fields, j + 1, acc)
    }
}

/// The row decoded from one CSV line.
pub open spec fn spec_parse_line(columns: Seq<Seq<char>>, line: Seq<char>) -> Result<
    EntryV,
    Seq<char>,
> {
    spec_entry_fields(
        columns,
        spec_split(spec_clean_line(line), ';'),
        0,
        EntryV { name: Seq::empty(), offset: 0, size: 0, description: Seq::empty() },
    )
}

/// The running path after the relative segments `segs[k..]`: an empty
/// segment pops one level, a named segment descends.
pub open spec fn spec_resolve_rest(cur: Seq<Seq<char>>, segs: Seq<Seq<char>>, k: int) -> Seq<
    Seq<char>,
>
    decreases segs.len() - k,
{
    if k < 0 || k >= segs.len() {
        cur
    } else if segs[k].len() == 0 {
        spec_resolve_rest(
            if cur.len() > 0 {
                cur.drop_last()
            } else {
                cur
            },
            segs,
            k + 1,
        )
    } else {
        spec_resolve_rest(cur.push(segs[k]), segs, k + 1)
    }
}

/// The running path after resolving a row name against it: a name with
/// a non-empty first segment is absolute and replaces the path, one
/// with an empty first segment is relative to it.
pub open spec fn spec_resolve(cur: Seq<Seq<char>>, name: Seq<char>) -> Seq<Seq<char>> {
    let segs = spec_split(name, '.');
    if segs[0].len() > 0 {
        spec_resolve_rest(seq![segs[0]], segs, 1)
    } else {
        spec_resolve_rest(cur, segs, 1)
    }
}

/// An absolute row name resolves to the same path whatever the running
/// path was: resolution of such names depends on the name alone.
pub proof fn lemma_resolve_absolute(cur1: Seq<Seq<char>>, cur2: Seq<Seq<char>>, name: Seq<char>)
    requires
        spec_split(name, '.')[0].len() > 0,
    ensures
        spec_resolve(cur1, name) == spec_resolve(cur2, name),
{
}

/// The value of the bit-field `off..off + size` of the record section
/// starting at byte `base`: absent when wider than 64 bits or past the
/// end of the buffer.
pub open spec fn spec_csv_field(data: Seq<u8>, base: int, off: int, size: int) -> Option<u64> {
    if size > 64 {
        None
    } else if size == 0 {
        Some(0u64)
    } else if base * 8 + off + size <= 8 * data.len() {
        Some(spec_field(data, base * 8 + off, size as nat))
    } else {
        None
    }
}

/// The tree and running path after applying the row `e` of a decode
/// definition: the resolved hierarchy is created, an absolute top-level
/// name is entered as a record node (ASCII capitals folded), and the
/// bit-field value is attached when it can be read.
pub open spec fn spec_apply_entry(
    data: Seq<u8>,
    base: int,
    root: NodeV,
    cur: Seq<Seq<char>>,
    e: EntryV,
) -> (NodeV, Seq<Seq<char>>) {
    let root1 = spec_apply_entry_base(root, e);
    let path = spec_resolve(cur, e.name);
    let value = spec_csv_field(data, base, e.offset, e.size);
    (nv_ensure_update(root1, path, 0, e.description, value), path)
}

/// The tree and running path after the decode definition lines from
/// index `i` on: rows with an empty name are skipped, and the first
/// malformed integer cell stops the decode with its text.
pub open spec fn spec_csv_lines(
    data: Seq<u8>,
    base: int,
    lines: Seq<Seq<char>>,
    columns: Seq<Seq<char>>,
    i: int,
    root: NodeV,
    cur: Seq<Seq<char>>,
) -> Result<NodeV, Seq<char>>
    decreases lines.len() - i,
{
    if i < 0 || i >= lines.len() {
        Ok(root)
    } else {
        match spec_parse_line(columns, lines[i]) {
            Err(t) => Err(t),
            Ok(e) => {
                if e.name.len() == 0 {
                    spec_csv_lines(data, base, lines, columns, i + 1, root, cur)
                } else {
                    let (root2, path) = spec_apply_entry(data, base, root, cur, e);
                    spec_csv_lines(data, base, lines, columns, i + 1, root2, path)
                }
            },
        }
    }
}

/// The node tree decoded from the record bytes `data` under the decode
/// definition text, the section starting at byte `base`. The first
/// text line names the columns; every further line is a row.
pub open spec fn spec_csv_decode(data: Seq<u8>, text: Seq<char>, base: int) -> Result<
    NodeV,
    Seq<char>,
> {
    let lines = spec_split(text, '\n');
    let columns = spec_split(spec_clean_line(lines[0]), ';');
    spec_csv_lines(
        data,
        base,
        lines,
        columns,
        1,
        NodeV {
            name: Seq::empty(),
            description: Seq::empty(),
            kind: NodeType::Root,
            children: Seq::empty(),
        },
        Seq::empty(),
    )
}


/// Relies on `core::str::from_utf8`: succeeds exactly on UTF-8 input,
/// and the returned slice is the same bytes.
#[verifier::external_body]
fn from_utf8_checked(v: &[u8]) -> (r: Option<&str>)
    ensures
        match r {
            Some(s) => valid_utf8(v@) && s.spec_bytes() == v@,
            None => !valid_utf8(v@),
        },
{
    core::str::from_utf8(v).ok()
}

/// Strips one trailing carriage return, so decode definitions may use
/// either line ending.
fn clean_line(line: &str) -> (r: &str)
    ensures
        r@ == spec_clean_line(line@),
{
    let n = line.unicode_len();
    if n > 0 && line.get_char(n - 1) == '\r' {
        let r = line.substring_char(0, n - 1);
        proof {
            assert(r@ =~= line@.drop_last());
        }
        r
    } else {
        line
    }
}

fn parse_entry(columns: &Vec<String>, line: &str) -> (r: Result<Entry, Error>)
    ensures
        match r {
            Ok(e) => spec_parse_line(columns@.map_values(|x: String| x@), line@) == Ok::<
                EntryV,
                Seq<char>,
            >(EntryV { name: e.name@, offset: e.offset as int, size: e.size as int, description: e.description@ }),
            Err(e) => e matches Error::ParseIntError(t) && spec_parse_line(
                columns@.map_values(|x: String| x@),
                line@,
            ) == Err::<EntryV, Seq<char>>(t@),
        },
{
    let ghost cols = columns@.map_values(|x: String| x@);
    let cleaned = clean_line(line);
    let fields = split_char(cleaned, ';');
    let ghost fv = fields@.map_values(|x: String| x@);
    let mut entry = Entry {
        name: String::new(),
        offset: 0,
        size: 0,
        description: String::new(),
    };
    let ghost goal = spec_parse_line(cols, line@);
    let n = fields.len();
    let mut j: usize = 0;
    while j < n
        invariant
            j <= n,
            n == fv.len(),
            cols == columns@.map_values(|x: String| x@),
            fv == fields@.map_values(|x: String| x@),
            goal == spec_parse_line(cols, line@),
            goal == spec_entry_fields(
                cols,
                fv,
                j as int,
                EntryV {
                    name: entry.name@,
                    offset: entry.offset as int,
                    size: entry.size as int,
                    description: entry.description@,
                },
            ),
        decreases n - j,
    {
        proof {
            assert(fv[j as int] == fields@[j as int]@);
        }
        if j < columns.len() {
            proof {
                assert(cols[j as int] == columns@[j as int]@);
            }
            let col = columns[j].as_str();
            if str_eq(col, "name") {
                entry.name = fields[j].clone();
            } else if str_eq(col, "offset") {
                match parse_usize(fields[j].as_str()) {
                    Some(v) => {
                        entry.offset = v;
                    },
                    None => {
                        return Err(Error::ParseIntError(fields[j].clone()));
                    },
                }
            } else if str_eq(col, "size") {
                match parse_usize(fields[j].as_str()) {
                    Some(v) => {
                        entry.size = v;
                    },
                    None => {
                        return Err(Error::ParseIntError(fields[j].clone()));
                    },
                }
            } else if str_eq(col, "description") {
                entry.description = fields[j].clone();
            }
        }
        j += 1;
    }
    Ok(entry)
}

/// Replaces the running path by the resolution of a row name against
/// it.
fn resolve_name(cur: &mut Vec<String>, name: &str)
    ensures
        final(cur)@.map_values(|x: String| x@) == spec_resolve(
            old(cur)@.map_values(|x: String| x@),
            name@,
        ),
{
    let segs = split_char(name, '.');
    let ghost sv = segs@.map_values(|x: String| x@);
    let n = segs.len();
    proof {
        crate::strutil::lemma_split_not_empty(name@, '.');
        assert(sv[0] == segs@[0]@);
    }
    if !segs[0].as_str().is_empty() {
        cur.clear();
        cur.push(segs[0].clone());
        proof {
            assert(cur@.map_values(|x: String| x@) =~= seq![sv[0]]);
        }
    }
    let ghost start = cur@.map_values(|x: String| x@);
    let mut k: usize = 1;
    if n < 1 {
        return ;
    }
    while k < n
        invariant
            1 <= k <= n,
            1 <= n,
            n == sv.len(),
            sv == segs@.map_values(|x: String| x@),
            spec_resolve_rest(start, sv, 1) == spec_resolve_rest(
                cur@.map_values(|x: String| x@),
                sv,
                k as int,
            ),
        decreases n - k,
    {
        let ghost pre = cur@.map_values(|x: String| x@);
        proof {
            assert(sv[k as int] == segs@[k as int]@);
        }
        if segs[k].as_str().is_empty() {
            if cur.len() > 0 {
                cur.pop();
                proof {
                    assert(cur@.map_values(|x: String| x@) =~= pre.drop_last());
                }
            }
        } else {
            cur.push(segs[k].clone());
            proof {
                assert(cur@.map_values(|x: String| x@) =~= pre.push(sv[k as int]));
            }
        }
        k += 1;
    }
}

impl Record {
    /// The value of the bit-field at `bit_off` (relative to the section
    /// at byte `base`) of this record's raw bytes.
    fn field_value(&self, base: usize, bit_off: usize, size: usize) -> (r: Option<u64>)
        requires
            self.data@.len() * 8 <= usize::MAX,
        ensures
            r == spec_csv_field(self.data@, base as int, bit_off as int, size as int),
    {
        let len: usize = self.data.len();
        if size > 64 {
            None
        } else if size == 0 {
            Some(0)
        } else {
            let total: u128 = (base as u128) * 8 + (bit_off as u128);
            if total + (size as u128) <= (len as u128) * 8 {
                let off = total as usize;
                self.read_field(off, size)
            } else {
                None
            }
        }
    }

    /// Decodes a section of the record located at byte `offset` into a
    /// node tree using an arbitrary CSV decode definition (`layout`).
    ///
    /// The definition uses semicolons as delimiters; its first line
    /// names the columns (`name`, `offset` in bits, `size` in bits,
    /// `description`, in any order, unknown columns ignored), and each
    /// further line describes one field, its dotted name resolved
    /// against the running path of the previous rows.
    pub fn decode_with_csv(&self, layout: &[u8], offset: usize) -> (r: Result<Node, Error>)
        requires
            self.data@.len() * 8 <= usize::MAX,
        ensures
            match r {
                Ok(node) => valid_utf8(layout@) && spec_csv_decode(
                    self.data@,
                    decode_utf8(layout@),
                    offset as int,
                ) == Ok::<NodeV, Seq<char>>(nv(node)),
                Err(e) => match e {
                    Error::Utf8Error => !valid_utf8(layout@),
                    Error::ParseIntError(t) => valid_utf8(layout@) && spec_csv_decode(
                        self.data@,
                        decode_utf8(layout@),
                        offset as int,
                    ) == Err::<NodeV, Seq<char>>(t@),
                    _ => false,
                },
            },
    {
        let text = match from_utf8_checked(layout) {
            None => {
                return Err(Error::Utf8Error);
            },
            Some(s) => s,
        };
        proof {
            broadcast use vstd::utf8::encode_utf8_decode_utf8;

            assert(decode_utf8(layout@) == text@);
        }
        let lines = split_char(text, '\n');
        let ghost lv = lines@.map_values(|x: String| x@);
        proof {
            assert(lv[0] == lines@[0]@);
        }
        let columns = split_char(clean_line(lines[0].as_str()), ';');
        let ghost cols = columns@.map_values(|x: String| x@);
        let mut root = Node::root();
        let mut cur: Vec<String> = Vec::new();
        let ghost goal = spec_csv_decode(self.data@, decode_utf8(layout@), offset as int);
        proof {
            assert(cur@.map_values(|x: String| x@) =~= Seq::<Seq<char>>::empty());
        }
        proof {
            crate::strutil::lemma_split_not_empty(text@, '\n');
        }
        let n = lines.len();
        let mut i: usize = 1;
        while i < n
            invariant
                1 <= i <= n,
                1 <= n,
                n == lv.len(),
                lv == lines@.map_values(|x: String| x@),
                cols == columns@.map_values(|x: String| x@),
                self.data@.len() * 8 <= usize::MAX,
                valid_utf8(layout@),
                goal == spec_csv_decode(self.data@, decode_utf8(layout@), offset as int),
                goal == spec_csv_lines(
                    self.data@,
                    offset as int,
                    lv,
                    cols,
                    i as int,
                    nv(root),
                    cur@.map_values(|x: String| x@),
                ),
            decreases n - i,
        {
            proof {
                assert(lv[i as int] == lines@[i as int]@);
            }
            let entry = match parse_entry(&columns, lines[i].as_str()) {
                Err(e) => {
                    return Err(e);
                },
                Ok(e) => e,
            };
            if !entry.name.as_str().is_empty() {
                let ghost ev = EntryV {
                    name: entry.name@,
                    offset: entry.offset as int,
                    size: entry.size as int,
                    description: entry.description@,
                };
                let ghost pre_root = nv(root);
                let ghost pre_cur = cur@.map_values(|x: String| x@);
                let segs = split_char(entry.name.as_str(), '.');
                proof {
                    assert(segs@.map_values(|x: String| x@)[0] == segs@[0]@);
                    assert(spec_split(ev.name, '.')[0] == segs@[0]@);
                }
                if !segs[0].as_str().is_empty() {
                    if root.get(segs[0].as_str()).is_none() {
                        root.add(Node::record(segs[0].as_str()));
                    }
                }
                let ghost root1 = nv(root);
                resolve_name(&mut cur, entry.name.as_str());
                let value = self.field_value(offset, entry.offset, entry.size);
                root.ensure_update(&cur, 0, entry.description.as_str(), value);
                proof {
                    let applied = spec_apply_entry(self.data@, offset as int, pre_root, pre_cur, ev);
                    assert(cur@.map_values(|x: String| x@) == spec_resolve(pre_cur, ev.name));
                    assert(nv(root) == applied.0);
                    assert(cur@.map_values(|x: String| x@) == applied.1);
                }
            }
            i += 1;
        }
        Ok(root)
    }
}


/// The nameless root of a fresh decode.
pub open spec fn nv_root() -> NodeV {
    NodeV {
        name: Seq::empty(),
        description: Seq::empty(),
        kind: NodeType::Root,
        children: Seq::empty(),
    }
}

/// The header-only decode of a record: its header tree under a record
/// node named by the record type, `record` when the type is unknown.
pub open spec fn spec_decode_header(h: crate::header::HeaderV) -> NodeV {
    NodeV {
        name: Seq::empty(),
        description: Seq::empty(),
        kind: NodeType::Root,
        children: seq![
            NodeV {
                name: spec_lower(
                    if spec_record_type_known(h.version.record_type) {
                        spec_record_type_name(h.version.record_type)
                    } else {
                        "record"@
                    },
                ),
                description: Seq::empty(),
                kind: NodeType::Record,
                children: seq![spec_header_node(h)],
            },
        ],
    }
}

impl Record {
    /// Decodes only the record header into a node tree.
    pub fn decode_header(&self) -> (r: Node)
        ensures
            nv(r) == spec_decode_header(self.header@),
    {
        let name = match self.header.record_type() {
            Ok(rt) => rt,
            Err(_) => "record",
        };
        let mut record = Node::record(name);
        record.add(self.header.to_node());
        let mut root = Node::root();
        root.add(record);
        proof {
            assert(nv(root).children =~= spec_decode_header(self.header@).children);
            assert(nv(root) =~~= spec_decode_header(self.header@));
        }
        root
    }

    /// Decodes the record header into a node tree, nested under the
    /// hierarchy root that the record's header or context implies.
    pub fn decode_without_cm(&self) -> (r: Node)
        ensures
            match self.spec_get_root_path() {
                Some(p) => nv(r) == nv_merge_at(
                    nv_root(),
                    spec_split(p, '.'),
                    0,
                    spec_decode_header(self.header@),
                ),
                None => nv(r) == nv_merge(nv_root(), spec_decode_header(self.header@)),
            },
    {
        let header = self.decode_header();
        let mut root = Node::root();
        proof {
            assert(nv(root) =~~= nv_root());
        }
        match self.get_root_path() {
            Some(custom_root) => {
                let segs = split_char(custom_root.as_str(), '.');
                proof {
                    assert(segs@.map_values(|x: String| x@) == spec_split(custom_root@, '.'));
                }
                root.merge_at_path(&segs, 0, &header);
            },
            None => {
                root.merge(&header);
            },
        }
        root
    }

    /// Decodes a section of the record located at byte `offset` into a
    /// node tree using the decode definition named `decode_def`,
    /// resolved through the collateral tree. Which candidate resolves
    /// is up to the tree; the result is the decode of whatever item it
    /// returned, and the error says why no item could be decoded.
    pub fn decode_with_decode_def<T: CollateralTree>(
        &self,
        cm: &mut CollateralManager<T>,
        decode_def: &str,
        offset: usize,
    ) -> (r: Result<Node, Error>)
        requires
            self.data@.len() * 8 <= usize::MAX,
        ensures
            final(cm).target_info == old(cm).target_info,
            !spec_record_type_known(self.header.version.record_type) <==> (r matches Err(e)
                && e == Error::InvalidRecordType(self.header.version.record_type)),
            match r {
                Ok(node) => spec_record_type_known(self.header.version.record_type)
                    && self.spec_plain_decode_result(offset as int, nv(node)),
                Err(e) => match e {
                    Error::InvalidRecordType(rt) => rt == self.header.version.record_type
                        && !spec_record_type_known(rt),
                    Error::MissingDecodeDefinitions(v) => v == self.header.version,
                    Error::Utf8Error => exists|layout: Seq<u8>| !#[trigger] valid_utf8(layout),
                    Error::ParseIntError(t) => exists|layout: Seq<u8>|
                        valid_utf8(layout) && #[trigger] spec_csv_decode(
                            self.data@,
                            decode_utf8(layout),
                            offset as int,
                        ) == Err::<NodeV, Seq<char>>(t@),
                    _ => false,
                },
            },
    {
        let mut paths = match self.header.decode_definitions_paths(cm) {
            Ok(p) => p,
            Err(e) => {
                return Err(e);
            },
        };
        while paths.len() > 0
            invariant
                self.data@.len() * 8 <= usize::MAX,
                cm.target_info == old(cm).target_info,
                spec_record_type_known(self.header.version.record_type),
            decreases paths@.len(),
        {
            let mut path = paths.remove(0);
            path.push(decode_def.to_owned());
            let layout = match cm.get_item_with_header(&self.header, &path) {
                Err(_) => {
                    continue ;
                },
                Ok(l) => l,
            };
            let csv_root = match self.decode_with_csv(layout.as_slice(), offset) {
                Err(e) => {
                    return Err(e);
                },
                Ok(n) => n,
            };
            let mut root = Node::root();
            proof {
                assert(nv(root) =~~= nv_root());
            }
            root.merge(&csv_root);
            proof {
                let lay = layout@;
                let x = nv(csv_root);
                assert(valid_utf8(lay) && spec_csv_decode(self.data@, decode_utf8(lay), offset as int)
                    == Ok::<NodeV, Seq<char>>(x) && nv(root) == nv_merge(nv_root(), x));
            }
            return Ok(root);
        }
        Err(Error::MissingDecodeDefinitions(self.header.version))
    }
}

/// The value of the field `hdr.whoami.<id_name>` below a decoded
/// subsection, when every level of that path exists and the end is a
/// field.
pub open spec fn spec_whoami_value(sub: NodeV, id_name: Seq<char>) -> Option<u64> {
    match nv_get(sub, "hdr"@) {
        None => None,
        Some(h) => match nv_get(h, "whoami"@) {
            None => None,
            Some(w) => match nv_get(w, id_name) {
                None => None,
                Some(c) => match c.kind {
                    NodeType::Field { value } => Some(value),
                    _ => None,
                },
            },
        },
    }
}

/// One level of the core hierarchy: `<level><id>` when the whoami
/// field for the level is present, nothing otherwise.
pub open spec fn spec_whoami_part(sub: NodeV, level: Seq<char>, id_name: Seq<char>) -> Seq<
    Seq<char>,
> {
    match spec_whoami_value(sub, id_name) {
        Some(v) => seq![level + spec_dec_str(v as int)],
        None => Seq::empty(),
    }
}

/// The module/core/thread nesting a decoded core subsection describes
/// about itself, absent levels skipped.
pub open spec fn spec_whoami_hierarchy(sub: NodeV) -> Seq<Seq<char>> {
    spec_whoami_part(sub, "module"@, "module_id"@) + spec_whoami_part(sub, "core"@, "core_id"@)
        + spec_whoami_part(sub, "thread"@, "thread_id"@)
}

fn whoami_value(sub: &Node, id_name: &str) -> (r: Option<u64>)
    ensures
        r == spec_whoami_value(nv(*sub), id_name@),
{
    match sub.get("hdr") {
        None => None,
        Some(h) => match h.get("whoami") {
            None => None,
            Some(w) => match w.get(id_name) {
                None => None,
                Some(c) => match c.kind {
                    NodeType::Field { value } => Some(value),
                    _ => None,
                },
            },
        },
    }
}

impl Record {
    /// Some decode definition handed out by the collateral tree
    /// decodes this record's section at byte `base` to the tree `x`.
    pub open spec fn spec_some_csv_decode(self, base: int, x: NodeV) -> bool {
        exists|layout: Seq<u8>|
            valid_utf8(layout) && #[trigger] spec_csv_decode(self.data@, decode_utf8(layout), base)
                == Ok::<NodeV, Seq<char>>(x)
    }

    /// The tree a plain decode returns on success: the decode of some
    /// handed-out layout, merged into a fresh root.
    pub open spec fn spec_plain_decode_result(self, base: int, rn: NodeV) -> bool {
        exists|x: NodeV| self.spec_some_csv_decode(base, x) && rn == #[trigger] nv_merge(
            nv_root(),
            x,
        )
    }

    /// What one core subsection attempt yields on success: the
    /// subsection layout decoded at the record start, possibly merged
    /// with one extended-section layout decoded at the extended record
    /// offset; the subsection is present in the result, and the
    /// hierarchy is the one its whoami fields describe.
    pub open spec fn spec_core_subsection_result(
        self,
        name: Seq<char>,
        root: NodeV,
        hierarchy: Seq<Seq<char>>,
    ) -> bool {
        &&& (self.spec_plain_decode_result(0, root) || (
        self.header.spec_extended_record_offset() matches Some(off) && exists|r1: NodeV, e2: NodeV|
            self.spec_plain_decode_result(0, r1) && self.spec_plain_decode_result(off, e2) && root
                == #[trigger] nv_merge(r1, e2)))
        &&& nv_get(root, name) is Some
        &&& hierarchy == spec_whoami_hierarchy(nv_get(root, name)->0)
    }

    fn try_core_subsection<T: CollateralTree>(
        &self,
        cm: &mut CollateralManager<T>,
        subsection_name: &str,
    ) -> (r: Option<(Node, Vec<String>)>)
        requires
            self.data@.len() * 8 <= usize::MAX,
        ensures
            final(cm).target_info == old(cm).target_info,
            r matches Some(pair) ==> self.spec_core_subsection_result(
                subsection_name@,
                nv(pair.0),
                pair.1@.map_values(|x: String| x@),
            ),
    {
        let mut decode_def = "layout_".to_owned();
        decode_def.append(subsection_name);
        decode_def.append(".csv");
        let mut root = match self.decode_with_decode_def(cm, decode_def.as_str(), 0) {
            Err(_) => {
                return None;
            },
            Ok(n) => n,
        };
        if let Some(offset) = self.header.extended_record_offset() {
            match self.decode_with_decode_def(cm, "layout_sq.csv", offset) {
                Ok(extension) => {
                    root.merge(&extension);
                },
                Err(_) => {
                    match self.decode_with_decode_def(cm, "layout_module.csv", offset) {
                        Ok(extension) => {
                            root.merge(&extension);
                        },
                        Err(_) => {},
                    }
                },
            }
        }
        let mut hierarchy: Vec<String> = Vec::new();
        match root.get(subsection_name) {
            None => {
                return None;
            },
            Some(subsection) => {
                proof {
                    assert(hierarchy@.map_values(|x: String| x@) =~= Seq::<Seq<char>>::empty());
                }
                if let Some(id) = whoami_value(subsection, "module_id") {
                    let mut part = "module".to_owned();
                    part.append(u64_to_string(id).as_str());
                    proof {
                        assert(part@ =~= "module"@ + spec_dec_str(id as int));
                    }
                    hierarchy.push(part);
                }
                if let Some(id) = whoami_value(subsection, "core_id") {
                    let mut part = "core".to_owned();
                    part.append(u64_to_string(id).as_str());
                    proof {
                        assert(part@ =~= "core"@ + spec_dec_str(id as int));
                    }
                    hierarchy.push(part);
                }
                if let Some(id) = whoami_value(subsection, "thread_id") {
                    let mut part = "thread".to_owned();
                    part.append(u64_to_string(id).as_str());
                    proof {
                        assert(part@ =~= "thread"@ + spec_dec_str(id as int));
                    }
                    hierarchy.push(part);
                }
                proof {
                    assert(hierarchy@.map_values(|x: String| x@) =~= spec_whoami_hierarchy(
                        nv(*subsection),
                    ));
                }
            },
        }
        Some((root, hierarchy))
    }

    /// The tree a core-record decode returns on success: one of the
    /// thread or core subsection attempts, nested under its whoami
    /// hierarchy below a section named by the record type, in a fresh
    /// root.
    pub open spec fn spec_core_decode_result(self, rn: NodeV) -> bool {
        exists|root: NodeV, hierarchy: Seq<Seq<char>>|
            (self.spec_core_subsection_result("thread"@, root, hierarchy)
                || self.spec_core_subsection_result("core"@, root, hierarchy)) && rn == (NodeV {
                name: Seq::empty(),
                description: Seq::empty(),
                kind: NodeType::Root,
                children: seq![
                    #[trigger] nv_merge_at(
                        crate::node::nv_section(
                            spec_record_type_name(self.header.version.record_type),
                        ),
                        hierarchy,
                        0,
                        root,
                    ),
                ],
            })
    }

    /// Decodes a processor core record: the thread or core layout is
    /// tried, an extended section is merged when the record declares
    /// one, and the result is nested under the module/core/thread
    /// hierarchy that its own header fields describe.
    pub fn decode_as_core_record<T: CollateralTree>(&self, cm: &mut CollateralManager<T>) -> (r:
        Result<Node, Error>)
        requires
            self.data@.len() * 8 <= usize::MAX,
        ensures
            final(cm).target_info == old(cm).target_info,
            match r {
                Ok(node) => spec_record_type_known(self.header.version.record_type)
                    && self.spec_core_decode_result(nv(node)),
                Err(e) => match e {
                    Error::InvalidRecordType(rt) => rt == self.header.version.record_type
                        && !spec_record_type_known(rt),
                    Error::MissingDecodeDefinitions(v) => spec_record_type_known(
                        self.header.version.record_type,
                    ) && v == self.header.version,
                    _ => false,
                },
            },
    {
        let rt_name = match self.header.record_type() {
            Ok(rt) => rt,
            Err(e) => {
                return Err(e);
            },
        };
        let mut si: usize = 0;
        while si < 2
            invariant
                si <= 2,
                self.data@.len() * 8 <= usize::MAX,
                cm.target_info == old(cm).target_info,
                spec_record_type_known(self.header.version.record_type),
                rt_name@ == spec_record_type_name(self.header.version.record_type),
            decreases 2 - si,
        {
            let subsection_name: &str = if si == 0 {
                "thread"
            } else {
                "core"
            };
            if let Some((root, hierarchy)) = self.try_core_subsection(cm, subsection_name) {
                let mut section = Node::section(rt_name);
                let ghost pre_section = nv(section);
                proof {
                    assert(pre_section =~~= crate::node::nv_section(rt_name@));
                }
                section.merge_at_path(&hierarchy, 0, &root);
                let mut out = Node::root();
                out.add(section);
                proof {
                    let hier = hierarchy@.map_values(|x: String| x@);
                    assert(nv(out).children =~= seq![
                        nv_merge_at(crate::node::nv_section(rt_name@), hier, 0, nv(root)),
                    ]);
                    assert(subsection_name@ == "thread"@ || subsection_name@ == "core"@);
                    assert(self.spec_core_decode_result(nv(out)));
                }
                return Ok(out);
            }
            si += 1;
        }
        Err(Error::MissingDecodeDefinitions(self.header.version))
    }

    /// Whether this record decodes through the per-thread core layouts.
    pub open spec fn spec_is_core(self) -> bool {
        (self.header.version.record_type == crate::header::PCORE || self.header.version.record_type
            == crate::header::ECORE) && !crate::header::Errata::spec_from_version(
            self.header.version,
        ).type0_legacy_server_box
    }

    /// The record tree a whole-record decode may produce: the
    /// successful core or plain decode of the record, or the
    /// header-only fallback. A record of unknown type always falls
    /// back to the header-only tree.
    pub open spec fn spec_decode_tree(self, rn: NodeV) -> bool {
        ||| rn == spec_decode_header(self.header@)
        ||| (self.spec_is_core() && self.spec_core_decode_result(rn))
        ||| (!self.spec_is_core() && spec_record_type_known(self.header.version.record_type)
            && self.spec_plain_decode_result(0, rn))
    }

    /// What a whole-record decode returns under the target table
    /// `targets`: one of the admissible record trees, nested under the
    /// record's hierarchy root when it has one.
    pub open spec fn spec_decode_result(
        self,
        targets: Seq<(u32, crate::collateral::TargetInfoV)>,
        r: NodeV,
    ) -> bool {
        exists|rn: NodeV|
            #[trigger] self.spec_decode_tree(rn) && (match self.spec_get_root_path_using_cm(
                targets,
            ) {
                Some(p) => r == nv_merge_at(nv_root(), spec_split(p, '.'), 0, rn),
                None => r == nv_merge(nv_root(), rn),
            })
    }

    /// Decodes the whole record into a node tree using the decode
    /// definitions of the collateral tree: core records through their
    /// per-thread layouts, every other record through its `layout.csv`;
    /// a record whose definitions cannot be found degrades to a
    /// header-only decode. The result is nested under the record's
    /// hierarchy root when it has one, which is then reachable in the
    /// returned tree.
    pub fn decode<T: CollateralTree>(&self, cm: &mut CollateralManager<T>) -> (r: Node)
        requires
            self.data@.len() * 8 <= usize::MAX,
        ensures
            final(cm).target_info == old(cm).target_info,
            self.spec_decode_result(old(cm).spec_targets(), nv(r)),
            self.spec_get_root_path_using_cm(old(cm).spec_targets()) matches Some(p)
                ==> nv_get_path(nv(r), spec_split(p, '.'), 0) is Some,
    {
        let version = &self.header.version;
        let errata = version.into_errata();
        let is_core = (version.record_type == crate::header::PCORE || version.record_type
            == crate::header::ECORE) && !errata.type0_legacy_server_box;
        let record = if is_core {
            self.decode_as_core_record(cm)
        } else {
            self.decode_with_decode_def(cm, "layout.csv", 0)
        };
        let record_node = match record {
            Ok(node) => node,
            Err(_) => self.decode_header(),
        };
        proof {
            assert(is_core == self.spec_is_core());
            assert(self.spec_decode_tree(nv(record_node)));
        }
        let mut root = Node::root();
        proof {
            assert(nv(root) =~~= nv_root());
        }
        proof {
            assert(cm.spec_targets() == old(cm).spec_targets());
        }
        match self.get_root_path_using_cm(cm) {
            Some(custom_root) => {
                let segs = split_char(custom_root.as_str(), '.');
                proof {
                    assert(segs@.map_values(|x: String| x@) == spec_split(custom_root@, '.'));
                }
                root.merge_at_path(&segs, 0, &record_node);
                proof {
                    crate::node::lemma_merge_at_reachable(
                        nv_root(),
                        spec_split(custom_root@, '.'),
                        0,
                        nv(record_node),
                    );
                    assert(self.spec_decode_result(old(cm).spec_targets(), nv(root)));
                }
                root
            },
            None => {
                root.merge(&record_node);
                proof {
                    assert(self.spec_decode_result(old(cm).spec_targets(), nv(root)));
                }
                root
            },
        }
    }
}


proof fn lemma_apply_entry_preserves_reachable(
    data: Seq<u8>,
    base: int,
    root: NodeV,
    cur: Seq<Seq<char>>,
    e: EntryV,
    q: Seq<Seq<char>>,
)
    requires
        nv_get_path(root, q, 0) is Some,
    ensures
        nv_get_path(spec_apply_entry(data, base, root, cur, e).0, q, 0) is Some,
{
    let segs = spec_split(e.name, '.');
    let root1 = if segs[0].len() > 0 && nv_find(root.children, segs[0]) < 0 {
        NodeV {
            children: root.children.push(
                NodeV {
                    name: spec_lower(segs[0]),
                    description: Seq::empty(),
                    kind: NodeType::Record,
                    children: Seq::empty(),
                },
            ),
            ..root
        }
    } else {
        root
    };
    if segs[0].len() > 0 && nv_find(root.children, segs[0]) < 0 {
        crate::node::lemma_push_child_preserves_reachable(
            root,
            NodeV {
                name: spec_lower(segs[0]),
                description: Seq::empty(),
                kind: NodeType::Record,
                children: Seq::empty(),
            },
            q,
            0,
        );
    }
    let path = spec_resolve(cur, e.name);
    let value = spec_csv_field(data, base, e.offset, e.size);
    crate::node::lemma_ensure_update_preserves_reachable(
        root1,
        path,
        0,
        e.description,
        value,
        q,
        0,
    );
}

proof fn lemma_csv_lines_preserve_reachable(
    data: Seq<u8>,
    base: int,
    lines: Seq<Seq<char>>,
    columns: Seq<Seq<char>>,
    i: int,
    root: NodeV,
    cur: Seq<Seq<char>>,
    q: Seq<Seq<char>>,
)
    requires
        nv_get_path(root, q, 0) is Some,
    ensures
        spec_csv_lines(data, base, lines, columns, i, root, cur) matches Ok(res) ==> nv_get_path(
            res,
            q,
            0,
        ) is Some,
    decreases lines.len() - i,
{
    if i < 0 || i >= lines.len() {
    } else {
        match spec_parse_line(columns, lines[i]) {
            Err(t) => {},
            Ok(e) => {
                if e.name.len() == 0 {
                    lemma_csv_lines_preserve_reachable(data, base, lines, columns, i + 1, root, cur, q);
                } else {
                    let applied = spec_apply_entry(data, base, root, cur, e);
                    lemma_apply_entry_preserves_reachable(data, base, root, cur, e, q);
                    lemma_csv_lines_preserve_reachable(
                        data,
                        base,
                        lines,
                        columns,
                        i + 1,
                        applied.0,
                        applied.1,
                        q,
                    );
                }
            },
        }
    }
}

proof fn lemma_csv_lines_absolute_reachable(
    data: Seq<u8>,
    base: int,
    lines: Seq<Seq<char>>,
    columns: Seq<Seq<char>>,
    i: int,
    root: NodeV,
    cur: Seq<Seq<char>>,
    m: int,
)
    requires
        0 <= i <= m < lines.len(),
        spec_parse_line(columns, lines[m]) matches Ok(e) && e.name.len() > 0 && spec_split(
            e.name,
            '.',
        )[0].len() > 0,
    ensures
        spec_csv_lines(data, base, lines, columns, i, root, cur) matches Ok(res) ==> (
        spec_parse_line(columns, lines[m]) matches Ok(e) && nv_get_path(
            res,
            spec_resolve(Seq::empty(), e.name),
            0,
        ) is Some),
    decreases m - i,
{
    match spec_parse_line(columns, lines[i]) {
        Err(t) => {},
        Ok(e) => {
            if i == m {
                let applied = spec_apply_entry(data, base, root, cur, e);
                let path = spec_resolve(cur, e.name);
                lemma_resolve_absolute(cur, Seq::empty(), e.name);
                crate::node::lemma_ensure_update_reachable(
                    spec_apply_entry_base(root, e),
                    path,
                    0,
                    e.description,
                    spec_csv_field(data, base, e.offset, e.size),
                );
                lemma_csv_lines_preserve_reachable(
                    data,
                    base,
                    lines,
                    columns,
                    i + 1,
                    applied.0,
                    applied.1,
                    path,
                );
            } else {
                if e.name.len() == 0 {
                    lemma_csv_lines_absolute_reachable(
                        data,
                        base,
                        lines,
                        columns,
                        i + 1,
                        root,
                        cur,
                        m,
                    );
                } else {
                    let applied = spec_apply_entry(data, base, root, cur, e);
                    lemma_csv_lines_absolute_reachable(
                        data,
                        base,
                        lines,
                        columns,
                        i + 1,
                        applied.0,
                        applied.1,
                        m,
                    );
                }
            }
        },
    }
}

/// The tree a row's entry is created in: the decode root, with the
/// absolute top-level record node already entered when the row adds
/// one.
pub open spec fn spec_apply_entry_base(root: NodeV, e: EntryV) -> NodeV {
    let segs = spec_split(e.name, '.');
    if segs[0].len() > 0 && nv_find(root.children, segs[0]) < 0 {
        NodeV {
            children: root.children.push(
                NodeV {
                    name: spec_lower(segs[0]),
                    description: Seq::empty(),
                    kind: NodeType::Record,
                    children: Seq::empty(),
                },
            ),
            ..root
        }
    } else {
        root
    }
}

/// In a successful decode, every decode-definition row with an
/// absolute name yields a node reachable at exactly the path the name
/// resolves to, whatever rows stand before or after it; for such names
/// the resolution does not depend on the running path.
pub proof fn lemma_csv_decode_absolute_reachable(
    data: Seq<u8>,
    text: Seq<char>,
    base: int,
    m: int,
)
    requires
        1 <= m < spec_split(text, '\n').len(),
        spec_parse_line(
            spec_split(spec_clean_line(spec_split(text, '\n')[0]), ';'),
            spec_split(text, '\n')[m],
        ) matches Ok(e) && e.name.len() > 0 && spec_split(e.name, '.')[0].len() > 0,
    ensures
        spec_csv_decode(data, text, base) matches Ok(res) ==> (spec_parse_line(
            spec_split(spec_clean_line(spec_split(text, '\n')[0]), ';'),
            spec_split(text, '\n')[m],
        ) matches Ok(e) && nv_get_path(res, spec_resolve(Seq::empty(), e.name), 0) is Some),
{
    let lines = spec_split(text, '\n');
    let columns = spec_split(spec_clean_line(lines[0]), ';');
    lemma_csv_lines_absolute_reachable(
        data,
        base,
        lines,
        columns,
        1,
        NodeV {
            name: Seq::empty(),
            description: Seq::empty(),
            kind: NodeType::Root,
            children: Seq::empty(),
        },
        Seq::empty(),
        m,
    );
}

} // verus!
