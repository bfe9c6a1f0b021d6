//! The two-byte revision field used by several CPER structures.

use crate::wire::read_u8;
use vstd::prelude::*;

verus! {

/// A CPER revision, serialized little-endian as `[minor, major]`.
#[derive(Debug, Clone, Copy, PartialEq, Eq, Structural)]
pub struct Revision {
    pub major: u8,
    pub minor: u8,
}

/// The two bytes that encode `r`.
pub open spec fn spec_enc_revision(r: Revision) -> Seq<u8> {
    seq![r.minor, r.major]
}

/// The revision encoded by the two bytes of `s` at `off`.
pub open spec fn spec_revision_at(s: Seq<u8>, off: int) -> Revision {
    Revision { minor: s[off], major: s[off + 1] }
}

impl Revision {
    /// A revision from its parts.
    pub fn new(major: u8, minor: u8) -> (r: Revision)
        ensures
            r == (Revision { major, minor }),
    {
        Revision { major, minor }
    }

    /// Reads the revision stored at `off`.
    pub fn read(s: &[u8], off: usize) -> (r: Revision)
        requires
            off + 2 <= s@.len(),
        ensures
            r == spec_revision_at(s@, off as int),
    {
        let slen: usize = s.len();
        Revision { minor: read_u8(s, off), major: read_u8(s, off + 1) }
    }

    /// Creates a [`Revision`] from the first two bytes of a slice.
    pub fn from_slice(s: &[u8]) -> (r: Option<Revision>)
        ensures
            r matches Some(z) <==> s@.len() >= 2,
            r matches Some(z) ==> z == spec_revision_at(s@, 0),
    {
        let slen: usize = s.len();
        if slen < 2 {
            return None;
        }
        Some(Revision::read(s, 0))
    }

    /// Appends the two bytes of this revision to `out`.
    pub fn push_to(&self, out: &mut Vec<u8>)
        ensures
            final(out)@ == old(out)@ + spec_enc_revision(*self),
    {
        let ghost pre = out@;
        out.push(self.minor);
        out.push(self.major);
        proof {
            assert(out@ =~= pre + spec_enc_revision(*self));
        }
    }

    /// Serializes the revision.
    pub fn to_bytes(&self) -> (b: Vec<u8>)
        ensures
            b@ == spec_enc_revision(*self),
    {
        let mut out: Vec<u8> = Vec::new();
        self.push_to(&mut out);
        proof {
            assert(out@ =~= spec_enc_revision(*self));
        }
        out
    }
}

} // verus!
