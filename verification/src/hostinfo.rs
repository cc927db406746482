use vstd::prelude::*;
use crate::text::{spec_lines, split_lines, starts_with, ranges, trimmed, trim};
use crate::process::lemma_lines_bounds;

verus! {

/// The position of the first double quote from `i` up to `end`, or `end`.
pub open spec fn quote_in(s: Seq<u8>, i: int, end: int) -> int
    decreases end - i,
{
    if i >= end {
        end
    } else if s[i] == 34 {
        i
    } else {
        quote_in(s, i + 1, end)
    }
}

proof fn lemma_quote_in_bounds(s: Seq<u8>, i: int, end: int)
    requires
        i <= end,
    ensures
        i <= quote_in(s, i, end) <= end,
        quote_in(s, i, end) < end ==> s[quote_in(s, i, end)] == 34,
    decreases end - i,
{
    if i < end && s[i] != 34 {
        lemma_quote_in_bounds(s, i + 1, end);
    }
}

fn find_quote(s: &[u8], i: usize, end: usize) -> (r: usize)
    requires
        i <= end <= s@.len(),
    ensures
        r == quote_in(s@, i as int, end as int),
{
    let mut k = i;
    while k < end && s[k] != 34
        invariant
            i <= k <= end <= s@.len(),
            quote_in(s@, k as int, end as int) == quote_in(s@, i as int, end as int),
        decreases end - k,
    {
        k = k + 1;
    }
    k
}

/// `NAME`, the key of the distribution's name.
pub open spec fn name_key() -> Seq<u8> {
    seq![78u8, 65u8, 77u8, 69u8]
}

/// `ANSI_COLOR`, the key of the distribution's color.
pub open spec fn color_key() -> Seq<u8> {
    seq![65u8, 78u8, 83u8, 73u8, 95u8, 67u8, 79u8, 76u8, 79u8, 82u8]
}

/// The line from `a` to `b` starts with `key`.
pub open spec fn line_starts(s: Seq<u8>, a: int, b: int, key: Seq<u8>) -> bool {
    key.len() <= b - a && s.subrange(a, a + key.len()) == key
}

/// The name and the color after one line of `/etc/os-release`: a line that
/// starts with `NAME` and holds a double quote sets the name to what lies
/// between that quote and the line's last byte, trimmed; one that starts
/// with `ANSI_COLOR` and holds a quote sets the color to the escape sequence
/// with the parameters found at the same place.
pub open spec fn os_line(s: Seq<u8>, a: int, b: int, acc: (Seq<u8>, Seq<u8>)) -> (Seq<u8>, Seq<u8>) {
    let q = quote_in(s, a, b);
    if line_starts(s, a, b, name_key()) {
        if q < b { (trimmed(s, q + 1, b - 1), acc.1) } else { acc }
    } else if line_starts(s, a, b, color_key()) {
        if q < b { (acc.0, seq![27u8, 91u8] + s.subrange(q + 1, b - 1) + seq![109u8]) } else { acc }
    } else {
        acc
    }
}

/// The line can be read without cutting it wrongly: when it is a name or
/// color line with a quote, the quote is not its last byte and its last
/// byte starts a character.
pub open spec fn os_line_ok(s: Seq<u8>, a: int, b: int) -> bool {
    let q = quote_in(s, a, b);
    (line_starts(s, a, b, name_key()) || line_starts(s, a, b, color_key())) && q < b
        ==> q + 1 <= b - 1 && !(128 <= s[b - 1] && s[b - 1] <= 191)
}

/// The name and the color after the lines from the `k`-th on.
pub open spec fn os_release_from(s: Seq<u8>, k: int, acc: (Seq<u8>, Seq<u8>)) -> (Seq<u8>, Seq<u8>)
    decreases spec_lines(s).len() - k,
{
    let lines = spec_lines(s);
    if k < 0 || k >= lines.len() {
        acc
    } else {
        os_release_from(s, k + 1, os_line(s, lines[k].0, lines[k].1, acc))
    }
}

/// Every line of `s` can be read.
pub open spec fn os_release_ok(s: Seq<u8>) -> bool {
    forall|k: int| 0 <= k < spec_lines(s).len() ==>
        os_line_ok(s, (#[trigger] spec_lines(s)[k]).0, spec_lines(s)[k].1)
}

/// Whether every line of `text` can be read (see `os_release_ok`).
pub fn os_release_fits(text: &[u8]) -> (r: bool)
    ensures
        r == os_release_ok(text@),
{
    let lines = split_lines(text);
    proof {
        lemma_lines_bounds(text@);
    }
    let name_k: Vec<u8> = vec![78u8, 65u8, 77u8, 69u8];
    let color_k: Vec<u8> = vec![65u8, 78u8, 83u8, 73u8, 95u8, 67u8, 79u8, 76u8, 79u8, 82u8];
    let mut k: usize = 0;
    while k < lines.len()
        invariant
            ranges(lines@) == spec_lines(text@),
            forall|j: int| 0 <= j < spec_lines(text@).len() ==>
                0 <= (#[trigger] spec_lines(text@)[j]).0 <= spec_lines(text@)[j].1 <= text@.len(),
            name_k@ == name_key(),
            color_k@ == color_key(),
            k <= lines@.len(),
            forall|j: int| 0 <= j < k ==> os_line_ok(text@, (#[trigger] spec_lines(text@)[j]).0, spec_lines(text@)[j].1),
        decreases lines@.len() - k,
    {
        let (a, b) = lines[k];
        proof {
            assert(ranges(lines@)[k as int] == (a as int, b as int));
            assert(spec_lines(text@)[k as int] == (a as int, b as int));
        }
        let q = find_quote(text, a, b);
        proof {
            lemma_quote_in_bounds(text@, a as int, b as int);
        }
        if (starts_with(text, a, b, name_k.as_slice()) || starts_with(text, a, b, color_k.as_slice())) && q < b {
            if !(q + 1 <= b - 1 && !(128 <= text[b - 1] && text[b - 1] <= 191)) {
                return false;
            }
        }
        k = k + 1;
    }
    true
}

/// `Not Found`, what stands for a name that could not be read.
pub open spec fn not_found() -> Seq<u8> {
    seq![78u8, 111u8, 116u8, 32u8, 70u8, 111u8, 117u8, 110u8, 100u8]
}

/// The color used when none is given: bright white.
pub open spec fn default_color() -> Seq<u8> {
    seq![27u8, 91u8, 57u8, 55u8, 109u8]
}

/// The distribution's name, its color and the kernel's release.
pub struct Hostinfo {
    pub distname: Vec<u8>,
    pub kernel: Vec<u8>,
    pub ansi_color: Vec<u8>,
}

/// Reads the name and the color out of the text of `/etc/os-release`,
/// starting from `Not Found` and bright white.
pub fn parse_os_release(text: &[u8]) -> (r: (Vec<u8>, Vec<u8>))
    requires
        os_release_ok(text@),
    ensures
        (r.0@, r.1@) == os_release_from(text@, 0, (not_found(), default_color())),
{
    let lines = split_lines(text);
    proof {
        lemma_lines_bounds(text@);
    }
    let mut name: Vec<u8> = vec![78u8, 111u8, 116u8, 32u8, 70u8, 111u8, 117u8, 110u8, 100u8];
    let mut color: Vec<u8> = vec![27u8, 91u8, 57u8, 55u8, 109u8];
    let name_k: Vec<u8> = vec![78u8, 65u8, 77u8, 69u8];
    let color_k: Vec<u8> = vec![65u8, 78u8, 83u8, 73u8, 95u8, 67u8, 79u8, 76u8, 79u8, 82u8];
    let mut k: usize = 0;
    while k < lines.len()
        invariant
            ranges(lines@) == spec_lines(text@),
            forall|j: int| 0 <= j < spec_lines(text@).len() ==>
                0 <= (#[trigger] spec_lines(text@)[j]).0 <= spec_lines(text@)[j].1 <= text@.len(),
            os_release_ok(text@),
            name_k@ == name_key(),
            color_k@ == color_key(),
            k <= lines@.len(),
            os_release_from(text@, k as int, (name@, color@)) == os_release_from(text@, 0, (not_found(), default_color())),
        decreases lines@.len() - k,
    {
        let (a, b) = lines[k];
        proof {
            assert(ranges(lines@)[k as int] == (a as int, b as int));
            assert(os_line_ok(text@, a as int, b as int));
        }
        let ghost acc = (name@, color@);
        let q = find_quote(text, a, b);
        proof {
            lemma_quote_in_bounds(text@, a as int, b as int);
        }
        if starts_with(text, a, b, name_k.as_slice()) {
            if q < b {
                name = trim(text, q + 1, b - 1);
            }
        } else if starts_with(text, a, b, color_k.as_slice()) {
            if q < b {
                let mut c: Vec<u8> = vec![27u8, 91u8];
                let mut i = q + 1;
                while i < b - 1
                    invariant
                        q + 1 <= i <= b - 1,
                        b <= text@.len(),
                        c@ == seq![27u8, 91u8] + text@.subrange(q + 1, i as int),
                    decreases b - 1 - i,
                {
                    c.push(text[i]);
                    proof {
                        assert(text@.subrange(q + 1, i + 1) == text@.subrange(q + 1, i as int).push(text@[i as int]));
                    }
                    i = i + 1;
                }
                c.push(109u8);
                color = c;
            }
        }
        proof {
            assert((name@, color@) == os_line(text@, a as int, b as int, acc));
            assert(spec_lines(text@)[k as int] == (a as int, b as int));
        }
        k = k + 1;
    }
    (name, color)
}

impl Hostinfo {
    /// The host's description from the texts of `/etc/os-release` and of
    /// `/proc/sys/kernel/osrelease`; `None` where a file could not be read.
    /// The kernel's release is trimmed; what could not be read is
    /// `Not Found`, and the color bright white.
    pub fn from_texts(os_release: Option<&[u8]>, kernel: Option<&[u8]>) -> (r: Self)
        requires
            os_release matches Some(t) ==> os_release_ok(t@),
        ensures
            (r.distname@, r.ansi_color@) == match os_release {
                Some(t) => os_release_from(t@, 0, (not_found(), default_color())),
                None => (not_found(), default_color()),
            },
            r.kernel@ == match kernel {
                Some(t) => trimmed(t@, 0, t@.len() as int),
                None => not_found(),
            },
    {
        let (distname, ansi_color) = match os_release {
            Some(t) => parse_os_release(t),
            None => (
                vec![78u8, 111u8, 116u8, 32u8, 70u8, 111u8, 117u8, 110u8, 100u8],
                vec![27u8, 91u8, 57u8, 55u8, 109u8],
            ),
        };
        let kernel = match kernel {
            Some(t) => trim(t, 0, t.len()),
            None => vec![78u8, 111u8, 116u8, 32u8, 70u8, 111u8, 117u8, 110u8, 100u8],
        };
        Hostinfo { distname, kernel, ansi_color }
    }
}

} // verus!
