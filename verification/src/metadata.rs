//! Information extracted alongside the Crash Log records.

use crate::cper::section::CperSectionBody;
use crate::strutil::{spec_dec_str, u64_to_string};
use vstd::prelude::*;
use vstd::string::StringExecFns;

verus! {

/// Crash Log extraction time.
#[derive(Debug, Clone, Copy, PartialEq, Eq, Structural)]
pub struct Time {
    pub year: u16,
    pub month: u8,
    pub day: u8,
    pub hour: u8,
    pub minute: u8,
}

/// Crash Log metadata: where and when the log was extracted, and the
/// CPER sections that rode along with it.
#[derive(Debug)]
pub struct Metadata {
    /// Name of the computer the Crash Log was extracted from.
    pub computer: Option<String>,
    /// Time of the extraction.
    pub time: Option<Time>,
    /// When the Crash Log is extracted from a CPER, the extra CPER
    /// sections that could be read from the CPER structure.
    pub extra_cper_sections: Vec<CperSectionBody>,
}

impl Metadata {
    /// Metadata carrying nothing.
    pub fn new() -> (r: Metadata)
        ensures
            r.computer is None,
            r.time is None,
            r.extra_cper_sections@.len() == 0,
    {
        Metadata { computer: None, time: None, extra_cper_sections: Vec::new() }
    }
}

impl Default for Metadata {
    /// Metadata carrying nothing.
    fn default() -> (r: Metadata)
        ensures
            r.computer is None,
            r.time is None,
            r.extra_cper_sections@.len() == 0,
    {
        Metadata::new()
    }
}

/// `n` in decimal, left-padded with zeros to at least `width` digits
/// (used for two and four digit fields).
pub open spec fn spec_pad_dec(n: int, width: int) -> Seq<char> {
    if width == 4 {
        if n >= 1000 {
            spec_dec_str(n)
        } else if n >= 100 {
            "0"@ + spec_dec_str(n)
        } else if n >= 10 {
            "00"@ + spec_dec_str(n)
        } else {
            "000"@ + spec_dec_str(n)
        }
    } else {
        if n >= 10 {
            spec_dec_str(n)
        } else {
            "0"@ + spec_dec_str(n)
        }
    }
}

fn pad_dec(n: u64, width: usize) -> (r: String)
    requires
        width == 2 || width == 4,
    ensures
        r@ == spec_pad_dec(n as int, width as int),
{
    let digits = u64_to_string(n);
    let mut s = if width == 4 {
        if n >= 1000 {
            String::new()
        } else if n >= 100 {
            "0".to_owned()
        } else if n >= 10 {
            "00".to_owned()
        } else {
            "000".to_owned()
        }
    } else {
        if n >= 10 {
            String::new()
        } else {
            "0".to_owned()
        }
    };
    s.append(digits.as_str());
    proof {
        assert(s@ =~= spec_pad_dec(n as int, width as int));
    }
    s
}

/// The text form of an extraction time: `YYYY-MM-DD-HH-MM`.
pub open spec fn spec_time_string(t: Time) -> Seq<char> {
    spec_pad_dec(t.year as int, 4) + "-"@ + spec_pad_dec(t.month as int, 2) + "-"@ + spec_pad_dec(
        t.day as int,
        2,
    ) + "-"@ + spec_pad_dec(t.hour as int, 2) + "-"@ + spec_pad_dec(t.minute as int, 2)
}

impl Time {
    /// Formats the time as `YYYY-MM-DD-HH-MM`.
    pub fn display_string(&self) -> (r: String)
        ensures
            r@ == spec_time_string(*self),
    {
        let mut s = pad_dec(self.year as u64, 4);
        s.append("-");
        s.append(pad_dec(self.month as u64, 2).as_str());
        s.append("-");
        s.append(pad_dec(self.day as u64, 2).as_str());
        s.append("-");
        s.append(pad_dec(self.hour as u64, 2).as_str());
        s.append("-");
        s.append(pad_dec(self.minute as u64, 2).as_str());
        proof {
            assert(s@ =~= spec_time_string(*self));
        }
        s
    }
}

impl Metadata {
    /// The name under which this Crash Log is filed:
    /// `<computer>-<time>`, either half optional, `unnamed` when both
    /// are absent.
    pub fn display_string(&self) -> (r: String)
        ensures
            match (self.computer, self.time) {
                (Some(c), Some(t)) => r@ == c@ + "-"@ + spec_time_string(t),
                (None, Some(t)) => r@ == spec_time_string(t),
                (Some(c), None) => r@ == c@,
                (None, None) => r@ == "unnamed"@,
            },
    {
        match (&self.computer, &self.time) {
            (Some(computer), Some(time)) => {
                let mut s = computer.clone();
                s.append("-");
                s.append(time.display_string().as_str());
                proof {
                    assert(s@ =~= self.computer->0@ + "-"@ + spec_time_string(self.time->0));
                }
                s
            },
            (None, Some(time)) => time.display_string(),
            (Some(computer), None) => computer.clone(),
            (None, None) => "unnamed".to_owned(),
        }
    }
}

} // verus!
