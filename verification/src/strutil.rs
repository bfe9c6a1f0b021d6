//! Verified character-level string helpers: splitting, integer parsing
//! and formatting, ASCII case folding.

use vstd::prelude::*;
use vstd::string::{StrSliceExecFns, StringExecFns};

verus! {

/// Index of the first occurrence of `d` in `s`, or `-1`.
pub open spec fn spec_find_char(s: Seq<char>, d: char) -> int
    decreases s.len(),
{
    if s.len() == 0 {
        -1
    } else if s[0] == d {
        0
    } else {
        let r = spec_find_char(s.skip(1), d);
        if r < 0 {
            -1
        } else {
            r + 1
        }
    }
}

pub proof fn lemma_find_char_props(s: Seq<char>, d: char)
    ensures
        spec_find_char(s, d) == -1 <==> (forall|k: int| 0 <= k < s.len() ==> s[k] != d),
        spec_find_char(s, d) >= 0 ==> 0 <= spec_find_char(s, d) < s.len() && s[spec_find_char(
            s,
            d,
        )] == d && (forall|k: int| 0 <= k < spec_find_char(s, d) ==> s[k] != d),
    decreases s.len(),
{
    if s.len() > 0 && s[0] != d {
        lemma_find_char_props(s.skip(1), d);
        let r = spec_find_char(s.skip(1), d);
        if r == -1 {
            assert forall|k: int| 0 <= k < s.len() implies s[k] != d by {
                if k > 0 {
                    assert(s[k] == s.skip(1)[k - 1]);
                }
            }
        } else {
            assert(s[r + 1] == s.skip(1)[r]);
            assert forall|k: int| 0 <= k < r + 1 implies s[k] != d by {
                if k > 0 {
                    assert(s[k] == s.skip(1)[k - 1]);
                }
            }
        }
    }
}

/// The segments of `s` between occurrences of the delimiter `d`; always
/// one more segment than there are delimiters.
pub open spec fn spec_split(s: Seq<char>, d: char) -> Seq<Seq<char>>
    decreases s.len(),
{
    let j = spec_find_char(s, d);
    if j < 0 || j >= s.len() {
        seq![s]
    } else {
        seq![s.take(j)] + spec_split(s.skip(j + 1), d)
    }
}

pub proof fn lemma_split_not_empty(s: Seq<char>, d: char)
    ensures
        spec_split(s, d).len() >= 1,
{
}

/// Splits `s` on the delimiter `d`.
pub fn split_char(s: &str, d: char) -> (r: Vec<String>)
    ensures
        r@.map_values(|x: String| x@) == spec_split(s@, d),
{
    let n = s.unicode_len();
    let mut out: Vec<String> = Vec::new();
    let mut start: usize = 0;
    let mut i: usize = 0;
    proof {
        assert(s@.skip(0int) =~= s@);
        assert(out@.map_values(|x: String| x@) =~= Seq::<Seq<char>>::empty());
        assert(Seq::<Seq<char>>::empty() + spec_split(s@, d) =~= spec_split(s@, d));
    }
    while i < n
        invariant
            start <= i <= n,
            n == s@.len(),
            forall|k: int| start <= k < i ==> s@[k] != d,
            spec_split(s@, d) =~= out@.map_values(|x: String| x@) + spec_split(
                s@.skip(start as int),
                d,
            ),
        decreases n - i,
    {
        let c = s.get_char(i);
        if c == d {
            let seg = s.substring_char(start, i);
            proof {
                let t = s@.skip(start as int);
                lemma_find_char_props(t, d);
                assert forall|k: int| 0 <= k < i - start implies t[k] != d by {
                    assert(t[k] == s@[start + k]);
                }
                assert(t[i - start] == s@[i as int]);
                assert(spec_find_char(t, d) == i - start);
                assert(t.take(i - start) =~= s@.subrange(start as int, i as int));
                assert(t.skip(i - start + 1) =~= s@.skip(i + 1));
                assert(spec_split(t, d) == seq![t.take(i - start)] + spec_split(s@.skip(i + 1), d));
            }
            let ghost pre = out@;
            out.push(seg.to_owned());
            proof {
                assert(out@.map_values(|x: String| x@) =~= pre.map_values(|x: String| x@)
                    + seq![s@.subrange(start as int, i as int)]);
                assert(pre.map_values(|x: String| x@) + (seq![s@.subrange(start as int, i as int)]
                    + spec_split(s@.skip(i + 1), d)) =~= (pre.map_values(|x: String| x@) + seq![
                    s@.subrange(start as int, i as int),
                ]) + spec_split(s@.skip(i + 1), d));
            }
            start = i + 1;
        }
        i += 1;
    }
    let seg = s.substring_char(start, n);
    proof {
        let t = s@.skip(start as int);
        lemma_find_char_props(t, d);
        assert forall|k: int| 0 <= k < t.len() implies t[k] != d by {
            assert(t[k] == s@[start + k]);
        }
        assert(spec_find_char(t, d) == -1);
        assert(t =~= s@.subrange(start as int, n as int));
    }
    let ghost pre = out@;
    out.push(seg.to_owned());
    proof {
        assert(out@.map_values(|x: String| x@) =~= pre.map_values(|x: String| x@) + seq![
            s@.subrange(start as int, n as int),
        ]);
    }
    out
}

/// Whether `c` is an ASCII decimal digit.
pub open spec fn spec_is_digit(c: char) -> bool {
    '0' <= c <= '9'
}

/// Numeric value of a sequence of decimal digits, most significant
/// first.
pub open spec fn spec_digits_val(s: Seq<char>) -> int
    decreases s.len(),
{
    if s.len() == 0 {
        0
    } else {
        spec_digits_val(s.drop_last()) * 10 + (s.last() as u32 - '0' as u32)
    }
}

/// Whether every character of `s` is an ASCII decimal digit.
pub open spec fn spec_all_digits(s: Seq<char>) -> bool {
    forall|k: int| 0 <= k < s.len() ==> spec_is_digit(#[trigger] s[k])
}

/// The digits of `s`, after an optional leading `+` sign.
pub open spec fn spec_parse_digits(s: Seq<char>) -> Seq<char> {
    if s.len() > 0 && s[0] == '+' {
        s.skip(1)
    } else {
        s
    }
}

/// Whether `s` is a well-formed unsigned decimal integer: an optional
/// `+` sign followed by at least one digit.
pub open spec fn spec_is_uint(s: Seq<char>) -> bool {
    spec_parse_digits(s).len() > 0 && spec_all_digits(spec_parse_digits(s))
}

proof fn lemma_digits_val_bounds(s: Seq<char>)
    requires
        spec_all_digits(s),
    ensures
        spec_digits_val(s) >= 0,
    decreases s.len(),
{
    if s.len() > 0 {
        lemma_digits_val_bounds(s.drop_last());
    }
}

proof fn lemma_digits_val_monotonic(s: Seq<char>, i: int)
    requires
        spec_all_digits(s),
        0 <= i <= s.len(),
    ensures
        spec_digits_val(s) >= spec_digits_val(s.take(i)),
    decreases s.len() - i,
{
    if i < s.len() {
        lemma_digits_val_monotonic(s, i + 1);
        assert(s.take(i + 1).drop_last() =~= s.take(i));
        assert(s.take(i + 1).last() == s[i]);
        lemma_digits_val_bounds(s.take(i));
    } else {
        assert(s.take(i) =~= s);
    }
}

/// Parses an unsigned decimal integer as `str::parse::<usize>` accepts
/// it: an optional `+` sign, then one or more ASCII digits, rejecting
/// values over `usize::MAX`.
pub fn parse_usize(s: &str) -> (r: Option<usize>)
    ensures
        match r {
            Some(v) => spec_is_uint(s@) && v == spec_digits_val(spec_parse_digits(s@)),
            None => !spec_is_uint(s@) || spec_digits_val(spec_parse_digits(s@)) > usize::MAX,
        },
{
    let n = s.unicode_len();
    let mut i: usize = 0;
    if n > 0 && s.get_char(0) == '+' {
        i = 1;
    }
    if i == n {
        return None;
    }
    let ghost digits = spec_parse_digits(s@);
    proof {
        if i == 1 {
            assert(digits =~= s@.skip(1));
        } else {
            assert(digits =~= s@);
        }
    }
    let start = i;
    let mut acc: usize = 0;
    while i < n
        invariant
            start <= i <= n,
            n == s@.len(),
            start <= 1,
            digits == spec_parse_digits(s@),
            digits.len() == n - start,
            forall|k: int| 0 <= k < digits.len() ==> digits[k] == s@[start + k],
            spec_all_digits(digits.take(i - start)),
            acc == spec_digits_val(digits.take(i - start)),
        decreases n - i,
    {
        let c = s.get_char(i);
        if !(c >= '0' && c <= '9') {
            proof {
                assert(digits[i - start] == s@[i as int]);
            }
            return None;
        }
        let d = (c as u32 - '0' as u32) as usize;
        proof {
            assert(digits.take(i - start + 1).drop_last() =~= digits.take(i - start));
            assert(digits.take(i - start + 1).last() == s@[i as int]);
        }
        let ghost full = digits.take(i - start + 1);
        if acc > (usize::MAX - d) / 10 {
            proof {
                assert(spec_digits_val(full) == acc * 10 + d);
                assert(acc * 10 + d > usize::MAX) by (nonlinear_arith)
                    requires
                        acc > (usize::MAX - d) / 10,
                        0 <= d <= 9,
                        acc >= 0,
                ;
                if spec_all_digits(digits) {
                    lemma_digits_val_monotonic(digits, i - start + 1);
                    assert(spec_digits_val(digits) > usize::MAX);
                }
            }
            return None;
        }
        proof {
            assert(acc * 10 + d <= usize::MAX) by (nonlinear_arith)
                requires
                    acc <= (usize::MAX - d) / 10,
                    0 <= d <= 9,
                    acc >= 0,
            ;
        }
        acc = acc * 10 + d;
        i += 1;
    }
    proof {
        assert(digits.take(i - start) =~= digits);
    }
    Some(acc)
}

/// Decimal digits of `n`, most significant first.
pub open spec fn spec_dec_str(n: int) -> Seq<char>
    decreases n,
{
    if n < 0 {
        Seq::empty()
    } else if n < 10 {
        seq![spec_digit_char(n)]
    } else {
        spec_dec_str(n / 10) + seq![spec_digit_char(n % 10)]
    }
}

/// The character for the digit `d`.
pub open spec fn spec_digit_char(d: int) -> char {
    if d == 0 {
        '0'
    } else if d == 1 {
        '1'
    } else if d == 2 {
        '2'
    } else if d == 3 {
        '3'
    } else if d == 4 {
        '4'
    } else if d == 5 {
        '5'
    } else if d == 6 {
        '6'
    } else if d == 7 {
        '7'
    } else if d == 8 {
        '8'
    } else {
        '9'
    }
}

fn digit_str(d: u64) -> (r: &'static str)
    requires
        d < 10,
    ensures
        r@ =~= seq![spec_digit_char(d as int)],
{
    proof {
        reveal_strlit("0");
        reveal_strlit("1");
        reveal_strlit("2");
        reveal_strlit("3");
        reveal_strlit("4");
        reveal_strlit("5");
        reveal_strlit("6");
        reveal_strlit("7");
        reveal_strlit("8");
        reveal_strlit("9");
    }
    if d == 0 {
        "0"
    } else if d == 1 {
        "1"
    } else if d == 2 {
        "2"
    } else if d == 3 {
        "3"
    } else if d == 4 {
        "4"
    } else if d == 5 {
        "5"
    } else if d == 6 {
        "6"
    } else if d == 7 {
        "7"
    } else if d == 8 {
        "8"
    } else {
        "9"
    }
}

/// Formats `n` in decimal.
pub fn u64_to_string(n: u64) -> (r: String)
    ensures
        r@ == spec_dec_str(n as int),
    decreases n,
{
    if n < 10 {
        return digit_str(n).to_owned();
    }
    let mut r = u64_to_string(n / 10);
    r.append(digit_str(n % 10));
    proof {
        assert(r@ =~= spec_dec_str(n as int));
    }
    r
}

/// `c` with an ASCII capital letter folded to its small form.
pub open spec fn spec_lower_char(c: char) -> char {
    if 'A' <= c <= 'Z' {
        ((c as u32) + 32) as char
    } else {
        c
    }
}

/// `s` with every ASCII capital letter folded to its small form.
pub open spec fn spec_lower(s: Seq<char>) -> Seq<char> {
    s.map_values(|c: char| spec_lower_char(c))
}

fn lower_letter(c: char) -> (r: &'static str)
    requires
        'A' <= c <= 'Z',
    ensures
        r@ =~= seq![spec_lower_char(c)],
{
    proof {
        reveal_strlit("a");
        reveal_strlit("b");
        reveal_strlit("c");
        reveal_strlit("d");
        reveal_strlit("e");
        reveal_strlit("f");
        reveal_strlit("g");
        reveal_strlit("h");
        reveal_strlit("i");
        reveal_strlit("j");
        reveal_strlit("k");
        reveal_strlit("l");
        reveal_strlit("m");
        reveal_strlit("n");
        reveal_strlit("o");
        reveal_strlit("p");
        reveal_strlit("q");
        reveal_strlit("r");
        reveal_strlit("s");
        reveal_strlit("t");
        reveal_strlit("u");
        reveal_strlit("v");
        reveal_strlit("w");
        reveal_strlit("x");
        reveal_strlit("y");
        reveal_strlit("z");
    }
    if c == 'A' {
        "a"
    } else if c == 'B' {
        "b"
    } else if c == 'C' {
        "c"
    } else if c == 'D' {
        "d"
    } else if c == 'E' {
        "e"
    } else if c == 'F' {
        "f"
    } else if c == 'G' {
        "g"
    } else if c == 'H' {
        "h"
    } else if c == 'I' {
        "i"
    } else if c == 'J' {
        "j"
    } else if c == 'K' {
        "k"
    } else if c == 'L' {
        "l"
    } else if c == 'M' {
        "m"
    } else if c == 'N' {
        "n"
    } else if c == 'O' {
        "o"
    } else if c == 'P' {
        "p"
    } else if c == 'Q' {
        "q"
    } else if c == 'R' {
        "r"
    } else if c == 'S' {
        "s"
    } else if c == 'T' {
        "t"
    } else if c == 'U' {
        "u"
    } else if c == 'V' {
        "v"
    } else if c == 'W' {
        "w"
    } else if c == 'X' {
        "x"
    } else if c == 'Y' {
        "y"
    } else {
        "z"
    }
}

/// Folds the ASCII capital letters of `s` to their small forms; all
/// other characters are kept as they are.
pub fn ascii_lower(s: &str) -> (r: String)
    ensures
        r@ == spec_lower(s@),
{
    let n = s.unicode_len();
    let mut out = String::new();
    let mut i: usize = 0;
    while i < n
        invariant
            i <= n,
            n == s@.len(),
            out@ =~= spec_lower(s@.take(i as int)),
        decreases n - i,
    {
        let c = s.get_char(i);
        if c >= 'A' && c <= 'Z' {
            out.append(lower_letter(c));
        } else {
            out.append(s.substring_char(i, i + 1));
        }
        proof {
            assert(s@.take(i + 1).drop_last() =~= s@.take(i as int));
            assert(s@.subrange(i as int, i + 1) =~= seq![s@[i as int]]);
            assert(out@ =~= spec_lower(s@.take(i + 1)));
        }
        i += 1;
    }
    proof {
        assert(s@.take(n as int) =~= s@);
    }
    out
}

/// Compares two string slices by their characters.
pub fn str_eq(a: &str, b: &str) -> (r: bool)
    ensures
        r == (a@ == b@),
{
    let sa = a.to_owned();
    let sb = b.to_owned();
    sa == sb
}

/// Length of `s` without its trailing ASCII digits.
pub open spec fn spec_trim_digits_len(s: Seq<char>) -> int
    decreases s.len(),
{
    if s.len() == 0 {
        0
    } else if spec_is_digit(s.last()) {
        spec_trim_digits_len(s.drop_last())
    } else {
        s.len() as int
    }
}

/// `s` without its trailing ASCII digits.
pub open spec fn spec_trim_end_digits(s: Seq<char>) -> Seq<char> {
    s.take(spec_trim_digits_len(s))
}

/// Strips trailing ASCII digits from `s`.
pub fn trim_end_digits(s: &str) -> (r: String)
    ensures
        r@ == spec_trim_end_digits(s@),
{
    let n = s.unicode_len();
    let mut j: usize = n;
    let mut done = false;
    proof {
        assert(s@.take(n as int) =~= s@);
    }
    while j > 0 && !done
        invariant
            j <= n,
            n == s@.len(),
            !done ==> spec_trim_digits_len(s@) == spec_trim_digits_len(s@.take(j as int)),
            done ==> spec_trim_digits_len(s@) == j,
        decreases j + (if done { 0int } else { 1int }),
    {
        let c = s.get_char(j - 1);
        if !(c >= '0' && c <= '9') {
            proof {
                assert(s@.take(j as int).last() == s@[j - 1]);
                assert(spec_trim_digits_len(s@.take(j as int)) == j);
            }
            done = true;
        } else {
            proof {
                assert(s@.take(j as int).last() == s@[j - 1]);
                assert(s@.take(j as int).drop_last() =~= s@.take(j - 1));
            }
            j -= 1;
        }
    }
    proof {
        if !done {
            assert(s@.take(0int) =~= Seq::<char>::empty());
            assert(spec_trim_digits_len(s@) == 0);
        }
    }
    let r = s.substring_char(0, j);
    proof {
        assert(r@ =~= spec_trim_end_digits(s@));
    }
    r.to_owned()
}

} // verus!
