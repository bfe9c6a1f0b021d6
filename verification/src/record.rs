//! Access to the content of a single Crash Log record.

use crate::header::{Header, HeaderV, HeaderTypeV, Version, RecordSize};
use vstd::prelude::*;
use vstd::slice::slice_subrange;

verus! {

/// Additional data provided to a Crash Log record by its surroundings.
#[derive(Debug, Default)]
pub struct Context {
    /// Socket that produced the record, when the container knows it.
    pub socket_id: Option<u8>,
    /// Die that produced the record, when the container knows it.
    pub die_id: Option<u8>,
}

impl Context {
    /// A context carrying no routing information.
    pub fn new() -> (c: Context)
        ensures
            c.socket_id is None,
            c.die_id is None,
    {
        Context { socket_id: None, die_id: None }
    }
}

/// A single Crash Log record: its decoded header and the full raw bytes
/// the header was decoded from.
#[derive(Debug)]
pub struct Record {
    /// Header of the record.
    pub header: Header,
    /// Raw content of the record, header included.
    pub data: Vec<u8>,
    /// Additional information provided to the record.
    pub context: Context,
}

/// Mathematical mirror of [`Record`]: the decoded header over the raw
/// bytes it was decoded from.
pub ghost struct RecordV {
    pub header: HeaderV,
    pub data: Seq<u8>,
}

impl View for Record {
    type V = RecordV;

    open spec fn view(&self) -> RecordV {
        RecordV { header: self.header@, data: self.data@ }
    }
}

/// Number of trailing checksum bytes of a record: four when the version
/// word announces the integrity checker.
pub open spec fn spec_trailer_len(h: HeaderV) -> int {
    if h.version.cldic {
        4
    } else {
        0
    }
}

impl Record {
    /// Header, payload and trailer fit the raw buffer.
    pub open spec fn wf(self) -> bool {
        self.header.spec_header_size() + spec_trailer_len(self.header@) <= self.data@.len()
    }

    /// Wraps raw record bytes under their decoded header.
    pub fn new(header: Header, data: Vec<u8>) -> (r: Record)
        ensures
            r.header == header,
            r.data == data,
            r.context.socket_id is None,
            r.context.die_id is None,
    {
        Record { header, data, context: Context::new() }
    }

    /// Returns the payload of the record: the raw bytes without the
    /// header and without the trailing checksum word.
    ///
    /// The payload, the header and the checksum trailer partition the
    /// raw record exactly.
    pub fn payload(&self) -> (p: &[u8])
        requires
            self.wf(),
        ensures
            p@ == self.data@.subrange(
                self.header.spec_header_size(),
                self.data@.len() - spec_trailer_len(self.header@),
            ),
            p@.len() + self.header.spec_header_size() + spec_trailer_len(self.header@)
                == self.data@.len(),
    {
        let begin = self.header.header_size();
        let end = if self.header.version.cldic {
            self.data.len() - 4
        } else {
            self.data.len()
        };
        slice_subrange(self.data.as_slice(), begin, end)
    }
}

impl Default for Record {
    /// An empty record under a default header.
    fn default() -> (r: Record)
        ensures
            r.header@ == (crate::header::HeaderV {
                version: crate::header::Version::spec_from_u32(0),
                size: RecordSize { record_size: 0u16, extended_record_size: 0u16 },
                header_type: HeaderTypeV::Type1,
            }),
            r.data@ == Seq::<u8>::empty(),
            r.context.socket_id is None,
            r.context.die_id is None,
    {
        let r = Record::new(Header::default(), Vec::new());
        proof {
            assert(r.data@ =~= Seq::<u8>::empty());
        }
        r
    }
}

/// One little-endian dword read at `i`, bytes past the end of the buffer
/// reading as zero.
pub open spec fn spec_dword_at(s: Seq<u8>, i: int) -> u32 {
    (spec_byte_or_zero(s, i) | (spec_byte_or_zero(s, i + 1) << 8) | (spec_byte_or_zero(s, i + 2)
        << 16) | (spec_byte_or_zero(s, i + 3) << 24))
}

pub open spec fn spec_byte_or_zero(s: Seq<u8>, i: int) -> u32 {
    if 0 <= i < s.len() {
        s[i] as u32
    } else {
        0u32
    }
}

/// Modular 32-bit addition.
pub open spec fn wadd32(a: u32, b: u32) -> u32 {
    (((a as int) + (b as int)) % 0x1_0000_0000) as u32
}

/// Wrapping u32 sum of the little-endian dwords of `s` from byte `i` on,
/// the last partial dword zero-padded.
pub open spec fn spec_dword_sum_from(s: Seq<u8>, i: int) -> u32
    decreases s.len() + 4 - i,
{
    if i < 0 || i >= s.len() {
        0u32
    } else {
        wadd32(spec_dword_at(s, i), spec_dword_sum_from(s, i + 4))
    }
}

/// Wrapping u32 sum of all little-endian dwords of `s`.
pub open spec fn spec_dword_sum(s: Seq<u8>) -> u32 {
    spec_dword_sum_from(s, 0)
}

impl Record {
    /// Verifies the integrity of the record against its trailing
    /// checksum word: the wrapping u32 sum of all dwords of the raw
    /// record must be zero. `None` when the record carries no checksum.
    pub fn checksum(&self) -> (r: Option<bool>)
        ensures
            r == if self.header.version.cldic {
                Some(spec_dword_sum(self.data@) == 0)
            } else {
                None::<bool>
            },
    {
        if !self.header.version.cldic {
            return None;
        }
        let len: usize = self.data.len();
        let mut acc: u32 = 0;
        let mut i: usize = 0;
        while i < len
            invariant
                len == self.data@.len(),
                i <= len,
                spec_dword_sum(self.data@) == wadd32(
                    acc,
                    spec_dword_sum_from(self.data@, i as int),
                ),
            decreases len - i,
        {
            let b0 = self.byte_or_zero(i, 0);
            let b1 = self.byte_or_zero(i, 1);
            let b2 = self.byte_or_zero(i, 2);
            let b3 = self.byte_or_zero(i, 3);
            let dword = b0 | (b1 << 8) | (b2 << 16) | (b3 << 24);
            proof {
                lemma_sum_shift(self.data@, i as int, acc, dword);
            }
            let ghost pre_acc = acc;
            acc = acc.wrapping_add(dword);
            proof {
                assert(acc == wadd32(pre_acc, dword));
            }
            if len - i > 4 {
                i += 4;
            } else {
                i = len;
            }
        }
        proof {
            assert(spec_dword_sum_from(self.data@, len as int) == 0);
        }
        Some(acc == 0)
    }

    fn byte_or_zero(&self, i: usize, k: usize) -> (b: u32)
        ensures
            b == spec_byte_or_zero(self.data@, i + k),
    {
        let len: usize = self.data.len();
        match i.checked_add(k) {
            Some(j) => {
                if j < len {
                    self.data[j] as u32
                } else {
                    0
                }
            },
            None => 0,
        }
    }
}

proof fn lemma_sum_shift(s: Seq<u8>, i: int, acc: u32, dword: u32)
    requires
        0 <= i < s.len(),
        dword == spec_dword_at(s, i),
    ensures
        wadd32(acc, spec_dword_sum_from(s, i)) == wadd32(
            wadd32(acc, dword),
            spec_dword_sum_from(s, i + 4),
        ),
        forall|j: int| i < j <= i + 4 && j >= s.len() ==> wadd32(acc, spec_dword_sum_from(s, i))
            == wadd32(wadd32(acc, dword), spec_dword_sum_from(s, j)),
{
    let rest = spec_dword_sum_from(s, i + 4);
    assert(spec_dword_sum_from(s, i) == wadd32(dword, rest));
    lemma_wadd32_assoc(acc, dword, rest);
    assert forall|j: int| i < j <= i + 4 && j >= s.len() implies wadd32(
        acc,
        spec_dword_sum_from(s, i),
    ) == wadd32(wadd32(acc, dword), spec_dword_sum_from(s, j)) by {
        assert(spec_dword_sum_from(s, j) == 0);
        assert(rest == 0);
    }
}

proof fn lemma_wadd32_assoc(a: u32, b: u32, c: u32)
    ensures
        wadd32(a, wadd32(b, c)) == wadd32(wadd32(a, b), c),
{
    let m = 0x1_0000_0000int;
    vstd::arithmetic::div_mod::lemma_add_mod_noop(a as int + b as int, c as int, m);
    vstd::arithmetic::div_mod::lemma_add_mod_noop(a as int, b as int + c as int, m);
    vstd::arithmetic::div_mod::lemma_small_mod(a as nat, m as nat);
    vstd::arithmetic::div_mod::lemma_small_mod(c as nat, m as nat);
}

/// Bit `i` of a buffer, in the convention of the decode definitions:
/// bit 0 is the least significant bit of byte 0, little-endian across
/// bytes.
pub open spec fn spec_bit_at(s: Seq<u8>, i: int) -> u64 {
    ((s[i / 8] as u64) >> ((i % 8) as u64)) & 1
}

/// Reference value of the bit-field spanning bits `off..off + size`:
/// bit `j` of the result is bit `off + j` of the buffer.
pub open spec fn spec_field(s: Seq<u8>, off: int, size: nat) -> u64
    decreases size,
{
    if size == 0 {
        0u64
    } else {
        spec_field(s, off, (size - 1) as nat) | (spec_bit_at(s, off + size - 1) << (size - 1))
    }
}


proof fn lemma_div8_split(off: int, bit: int)
    requires
        off >= 0,
        bit >= 0,
    ensures
        (off + bit) / 8 == off / 8 + (off % 8 + bit) / 8,
        (off + bit) % 8 == (off % 8 + bit) % 8,
{
    let q = off / 8;
    let r = off % 8;
    vstd::arithmetic::div_mod::lemma_fundamental_div_mod(off, 8);
    let q2 = (r + bit) / 8;
    let r2 = (r + bit) % 8;
    vstd::arithmetic::div_mod::lemma_fundamental_div_mod(r + bit, 8);
    assert(off + bit == (q + q2) * 8 + r2) by (nonlinear_arith)
        requires
            off == q * 8 + r,
            r + bit == q2 * 8 + r2,
    ;
    vstd::arithmetic::div_mod::lemma_fundamental_div_mod_converse(off + bit, 8, q + q2, r2);
}

proof fn lemma_bv_extend(x: u64, b: u64, bo: u64, d: u64, bit: u64)
    requires
        1 <= d,
        bo + d <= 8,
        bit + d <= 64,
    ensures
        (x | (((b >> bo) & (((1u64 << ((d - 1) as u64)) - 1) as u64)) << bit)) | (((b >> ((bo + d
            - 1) as u64)) & 1) << ((bit + d - 1) as u64)) == x | (((b >> bo) & (((1u64 << d)
            - 1) as u64)) << bit),
{
    assert((x | (((b >> bo) & (((1u64 << ((d - 1) as u64)) - 1) as u64)) << bit)) | (((b >> ((bo
        + d - 1) as u64)) & 1) << ((bit + d - 1) as u64)) == x | (((b >> bo) & (((1u64 << d)
        - 1) as u64)) << bit)) by (bit_vector)
        requires
            1 <= d,
            bo + d <= 8,
            bit + d <= 64,
    ;
}

/// All `d` bits added in one step come from the single byte at
/// `(off + bit) / 8`.
proof fn lemma_field_chunk(s: Seq<u8>, off: int, bit: nat, d: nat)
    requires
        off >= 0,
        (off + bit) % 8 + d <= 8,
        bit + d <= 64,
        (off + bit) / 8 < s.len(),
    ensures
        spec_field(s, off, (bit + d) as nat) == spec_field(s, off, bit) | ((((s[(off + bit)
            / 8] as u64) >> (((off + bit) % 8) as u64)) & (((1u64 << (d as u64)) - 1) as u64)) << (
        bit as u64)),
    decreases d,
{
    let c = (off + bit) / 8;
    let bo = (off + bit) % 8;
    let b = s[c] as u64;
    let x = spec_field(s, off, bit);
    let bo64 = bo as u64;
    let bit64 = bit as u64;
    let d64 = d as u64;
    if d == 0 {
        assert(x | (((b >> bo64) & (((1u64 << 0u64) - 1) as u64)) << bit64) == x) by (
        bit_vector);
        assert(x | (((b >> bo64) & (((1u64 << d64) - 1) as u64)) << bit64) == x);
    } else {
        lemma_field_chunk(s, off, bit, (d - 1) as nat);
        vstd::arithmetic::div_mod::lemma_fundamental_div_mod_converse(
            off + bit + d - 1,
            8,
            c,
            bo + d - 1,
        );
        assert(spec_bit_at(s, off + bit + d - 1) == (b >> ((bo + d - 1) as u64)) & 1);
        assert(spec_field(s, off, (bit + d) as nat) == spec_field(s, off, (bit + d - 1) as nat)
            | (spec_bit_at(s, off + bit + d - 1) << (((bit + d - 1)) as u64)));
        lemma_bv_extend(x, b, bo64, d64, bit64);
    }
}

proof fn lemma_bv_mask_trunc(b: u64, bo: u64, m: u64)
    requires
        b < 256,
        bo < 8,
        8 - bo <= m,
        m <= 8,
    ensures
        ((b >> bo) & (((1u64 << m) - 1) as u64)) == ((b >> bo) & (((1u64 << ((8 - bo) as u64))
            - 1) as u64)),
{
    assert(((b >> bo) & (((1u64 << m) - 1) as u64)) == ((b >> bo) & (((1u64 << ((8 - bo) as u64))
        - 1) as u64))) by (bit_vector)
        requires
            b < 256,
            bo < 8,
            8 - bo <= m,
            m <= 8,
    ;
}

impl Record {
    /// Reads the bit-field spanning bits `offset..offset + size` of the
    /// raw record, little-endian, bit 0 being the least significant bit
    /// of byte 0. `None` for fields wider than 64 bits or extending past
    /// the buffer.
    pub fn read_field(&self, offset: usize, size: usize) -> (r: Option<u64>)
        ensures
            size > 64 ==> r is None,
            size == 0 ==> r == Some(0u64),
            size <= 64 && offset + size <= 8 * self.data@.len() ==> r == Some(
                spec_field(self.data@, offset as int, size as nat),
            ),
            0 < size <= 64 && offset + size > 8 * self.data@.len() ==> r is None,
    {
        if size > 64 {
            return None;
        }
        let len: usize = self.data.len();
        let q0 = offset / 8;
        let r0 = offset % 8;
        let mut value: u64 = 0;
        let mut bit: usize = 0;
        while bit < size
            invariant
                size <= 64,
                len == self.data@.len(),
                q0 == offset as int / 8,
                r0 == offset as int % 8,
                bit <= size,
                value == spec_field(self.data@, offset as int, bit as nat),
                bit == 0 || offset + bit <= 8 * len,
            decreases size - bit,
        {
            proof {
                lemma_div8_split(offset as int, bit as int);
            }
            let chunk = q0 + (r0 + bit) / 8;
            let bo = (r0 + bit) % 8;
            if chunk >= len {
                proof {
                    vstd::arithmetic::div_mod::lemma_fundamental_div_mod(
                        offset as int + bit as int,
                        8,
                    );
                    assert(offset + bit >= 8 * len) by (nonlinear_arith)
                        requires
                            (offset as int + bit as int) / 8 >= len,
                            offset as int + bit as int == 8 * ((offset as int + bit as int) / 8)
                                + (offset as int + bit as int) % 8,
                            (offset as int + bit as int) % 8 >= 0,
                    ;
                }
                return None;
            }
            let avail = 8 - bo;
            proof {
                assert(bo < 8);
                assert(avail >= 1);
            }
            let m = if size - bit < 8 {
                size - bit
            } else {
                8
            };
            proof {
                let m64 = m as u64;
                assert(1u64 << m64 >= 1) by (bit_vector)
                    requires
                        m64 <= 8,
                ;
            }
            let mask = (1u64 << (m as u64)) - 1;
            let byte = self.data[chunk] as u64;
            let add = ((byte >> (bo as u64)) & mask) << (bit as u64);
            proof {
                let s = self.data@;
                let off = offset as int;
                let d: nat = if (size - bit) < avail {
                    (size - bit) as nat
                } else {
                    avail as nat
                };
                assert((off + bit) % 8 == bo);
                assert((off + bit) / 8 == chunk);
                if (size - bit) < avail {
                    assert(m == d);
                } else {
                    lemma_bv_mask_trunc(byte, bo as u64, m as u64);
                }
                lemma_field_chunk(s, off, bit as nat, d);
            }
            let step = if avail < size - bit {
                avail
            } else {
                size - bit
            };
            value = value | add;
            bit = bit + step;
        }
        Some(value)
    }
}

} // verus!
