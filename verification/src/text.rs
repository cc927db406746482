use vstd::prelude::*;

verus! {

/// `b` is an ASCII decimal digit.
pub open spec fn is_digit(b: u8) -> bool {
    48 <= b <= 57
}

/// Every byte of `s` is an ASCII decimal digit.
pub open spec fn all_digits(s: Seq<u8>) -> bool {
    forall|k: int| 0 <= k < s.len() ==> is_digit(#[trigger] s[k])
}

/// The number that the decimal digits `s` write (most significant first).
pub open spec fn digits_value(s: Seq<u8>) -> nat
    decreases s.len(),
{
    if s.len() == 0 {
        0
    } else {
        digits_value(s.drop_last()) * 10 + (s.last() - 48) as nat
    }
}

/// An unsigned number written as one or more decimal digits, with no sign,
/// that fits in 64 bits.
pub open spec fn spec_btou(s: Seq<u8>) -> Option<u64> {
    if s.len() > 0 && all_digits(s) && digits_value(s) <= u64::MAX {
        Some(digits_value(s) as u64)
    } else {
        None
    }
}

/// What the standard library's `u64` parsing makes of `s`: an optional `+`
/// and then one or more decimal digits, fitting in 64 bits.
pub open spec fn spec_parse_u64(s: Seq<u8>) -> Option<u64> {
    if s.len() > 0 && s[0] == 43 {
        spec_btou(s.drop_first())
    } else {
        spec_btou(s)
    }
}

/// What the standard library's `i64` parsing makes of `s`: an optional `+`
/// or `-` and then one or more decimal digits, in the range of `i64`.
pub open spec fn spec_parse_i64(s: Seq<u8>) -> Option<i64> {
    if s.len() > 0 && s[0] == 45 {
        let d = s.drop_first();
        if d.len() > 0 && all_digits(d) && digits_value(d) <= 0x8000_0000_0000_0000 {
            Some((0 - digits_value(d)) as i64)
        } else {
            None
        }
    } else {
        let d = if s.len() > 0 && s[0] == 43 { s.drop_first() } else { s };
        if d.len() > 0 && all_digits(d) && digits_value(d) <= i64::MAX {
            Some(digits_value(d) as i64)
        } else {
            None
        }
    }
}

/// ASCII whitespace as `split_ascii_whitespace` knows it: space, tab, line
/// feed, form feed and carriage return.
pub open spec fn is_ascii_ws(b: u8) -> bool {
    b == 32 || b == 9 || b == 10 || b == 12 || b == 13
}

/// The first position at or after `i` that holds a line feed, or the length.
pub open spec fn next_nl(s: Seq<u8>, i: int) -> int
    decreases s.len() - i,
{
    if i >= s.len() {
        s.len() as int
    } else if s[i] == 10 {
        i
    } else {
        next_nl(s, i + 1)
    }
}

/// Where the line that starts at `i` and runs to `j` ends once a carriage
/// return before its line feed is dropped.
pub open spec fn line_end(s: Seq<u8>, i: int, j: int) -> int {
    if j < s.len() && j > i && s[j - 1] == 13 {
        j - 1
    } else {
        j
    }
}

pub proof fn lemma_next_nl_bounds(s: Seq<u8>, i: int)
    requires
        0 <= i,
    ensures
        i <= s.len() ==> i <= next_nl(s, i) <= s.len(),
        i <= next_nl(s, i) || i > s.len(),
        next_nl(s, i) < s.len() ==> s[next_nl(s, i)] == 10,
        forall|k: int| i <= k < next_nl(s, i) ==> s[k] != 10,
    decreases s.len() - i,
{
    if i < s.len() && s[i] != 10 {
        lemma_next_nl_bounds(s, i + 1);
    }
}

/// The lines of `s` from position `i` on, as ranges, the way `str::lines`
/// cuts them: at each line feed, dropping a carriage return right before it,
/// with no empty line after a final line feed.
pub open spec fn lines_from(s: Seq<u8>, i: int) -> Seq<(int, int)>
    decreases s.len() - i,
{
    if i < 0 || i >= s.len() {
        Seq::empty()
    } else {
        proof {
            lemma_next_nl_bounds(s, i);
        }
        let j = next_nl(s, i);
        if j >= s.len() {
            seq![(i, line_end(s, i, j))]
        } else {
            seq![(i, line_end(s, i, j))] + lines_from(s, j + 1)
        }
    }
}

/// The lines of `s`, as ranges.
pub open spec fn spec_lines(s: Seq<u8>) -> Seq<(int, int)> {
    lines_from(s, 0)
}

/// The first position at or after `i` and before `end` that holds ASCII
/// whitespace, or `end`.
pub open spec fn next_ws(s: Seq<u8>, i: int, end: int) -> int
    decreases end - i,
{
    if i >= end {
        end
    } else if is_ascii_ws(s[i]) {
        i
    } else {
        next_ws(s, i + 1, end)
    }
}

pub proof fn lemma_next_ws_bounds(s: Seq<u8>, i: int, end: int)
    ensures
        i <= end ==> i <= next_ws(s, i, end) <= end,
        i > end ==> next_ws(s, i, end) == end,
        next_ws(s, i, end) < end ==> is_ascii_ws(s[next_ws(s, i, end)]),
        forall|k: int| i <= k < next_ws(s, i, end) ==> !is_ascii_ws(#[trigger] s[k]),
    decreases end - i,
{
    if i < end && !is_ascii_ws(s[i]) {
        lemma_next_ws_bounds(s, i + 1, end);
    }
}

/// The words between `i` and `end`, as ranges, the way
/// `split_ascii_whitespace` cuts them.
pub open spec fn tokens_from(s: Seq<u8>, i: int, end: int) -> Seq<(int, int)>
    decreases end - i,
{
    if i >= end {
        Seq::empty()
    } else if is_ascii_ws(s[i]) {
        tokens_from(s, i + 1, end)
    } else {
        let j = next_ws(s, i, end);
        proof {
            lemma_next_ws_bounds(s, i + 1, end);
        }
        seq![(i, j)] + tokens_from(s, j, end)
    }
}

/// Ranges of `usize` read as ranges of `int`.
pub open spec fn ranges(r: Seq<(usize, usize)>) -> Seq<(int, int)> {
    r.map_values(|p: (usize, usize)| (p.0 as int, p.1 as int))
}

/// The lines of `s`, as ranges of positions.
pub fn split_lines(s: &[u8]) -> (r: Vec<(usize, usize)>)
    ensures
        ranges(r@) == spec_lines(s@),
{
    let n = s.len();
    let mut res: Vec<(usize, usize)> = Vec::new();
    let mut i: usize = 0;
    while i < n
        invariant
            n == s@.len(),
            i <= n,
            ranges(res@) + lines_from(s@, i as int) == spec_lines(s@),
        decreases n - i,
    {
        let mut j: usize = i;
        while j < n && s[j] != 10
            invariant
                n == s@.len(),
                i <= j <= n,
                next_nl(s@, i as int) == next_nl(s@, j as int),
            decreases n - j,
        {
            j = j + 1;
        }
        proof {
            lemma_next_nl_bounds(s@, i as int);
        }
        let end = if j < n && j > i && s[j - 1] == 13 { j - 1 } else { j };
        let ghost old_res = res@;
        res.push((i, end));
        proof {
            assert(ranges(res@) == ranges(old_res) + seq![(i as int, end as int)]);
            if j < n {
                assert(lines_from(s@, i as int) == seq![(i as int, end as int)] + lines_from(s@, j + 1));
                assert(ranges(res@) + lines_from(s@, j + 1) == ranges(old_res) + lines_from(s@, i as int));
            } else {
                assert(lines_from(s@, i as int) == seq![(i as int, end as int)]);
                assert(ranges(res@) + lines_from(s@, n as int) == ranges(old_res) + lines_from(s@, i as int));
            }
        }
        if j < n {
            i = j + 1;
        } else {
            i = n;
        }
    }
    assert(ranges(res@) + lines_from(s@, i as int) == ranges(res@));
    res
}

/// The ASCII-whitespace separated words of `s` between `start` and `end`, as
/// ranges of positions.
pub fn split_tokens(s: &[u8], start: usize, end: usize) -> (r: Vec<(usize, usize)>)
    requires
        start <= end <= s@.len(),
    ensures
        ranges(r@) == tokens_from(s@, start as int, end as int),
{
    let mut res: Vec<(usize, usize)> = Vec::new();
    let mut i: usize = start;
    while i < end
        invariant
            start <= i <= end <= s@.len(),
            ranges(res@) + tokens_from(s@, i as int, end as int) == tokens_from(s@, start as int, end as int),
        decreases end - i,
    {
        if s[i] == 32 || s[i] == 9 || s[i] == 10 || s[i] == 12 || s[i] == 13 {
            i = i + 1;
        } else {
            let mut j: usize = i + 1;
            while j < end && !(s[j] == 32 || s[j] == 9 || s[j] == 10 || s[j] == 12 || s[j] == 13)
                invariant
                    start <= i < j <= end <= s@.len(),
                    !is_ascii_ws(s@[i as int]),
                    next_ws(s@, i as int, end as int) == next_ws(s@, j as int, end as int),
                decreases end - j,
            {
                j = j + 1;
            }
            let ghost old_res = res@;
            res.push((i, j));
            proof {
                assert(ranges(res@) == ranges(old_res) + seq![(i as int, j as int)]);
                assert(tokens_from(s@, i as int, end as int) == seq![(i as int, j as int)] + tokens_from(s@, j as int, end as int));
                assert(ranges(res@) + tokens_from(s@, j as int, end as int) == ranges(old_res) + tokens_from(s@, i as int, end as int));
            }
            i = j;
        }
    }
    assert(ranges(res@) + tokens_from(s@, i as int, end as int) == ranges(res@));
    res
}


proof fn lemma_value_prefix_le(t: Seq<u8>, j: int)
    requires
        all_digits(t),
        0 <= j <= t.len(),
    ensures
        digits_value(t.take(j)) <= digits_value(t),
    decreases t.len(),
{
    if j < t.len() {
        assert(t.take(j) == t.drop_last().take(j));
        assert(all_digits(t.drop_last()));
        lemma_value_prefix_le(t.drop_last(), j);
    } else {
        assert(t.take(j) == t);
    }
}

/// The unsigned decimal number that `s[a..b]` writes, with no sign; `None`
/// unless it is one or more digits and fits in 64 bits.
pub fn digits_u64(s: &[u8], a: usize, b: usize) -> (r: Option<u64>)
    requires
        a <= b <= s@.len(),
    ensures
        r == spec_btou(s@.subrange(a as int, b as int)),
{
    if a == b {
        return None;
    }
    let ghost t = s@.subrange(a as int, b as int);
    let mut acc: u64 = 0;
    let mut i: usize = a;
    while i < b
        invariant
            a <= i <= b <= s@.len(),
            t == s@.subrange(a as int, b as int),
            all_digits(s@.subrange(a as int, i as int)),
            acc == digits_value(s@.subrange(a as int, i as int)),
        decreases b - i,
    {
        let c = s[i];
        if c < 48 || c > 57 {
            proof {
                assert(t[i - a] == c);
            }
            return None;
        }
        proof {
            assert(s@.subrange(a as int, i + 1).drop_last() == s@.subrange(a as int, i as int));
            assert(s@.subrange(a as int, i + 1).last() == c);
            assert(all_digits(s@.subrange(a as int, i + 1)));
        }
        let d = (c - 48) as u64;
        match acc.checked_mul(10) {
            Some(m) => match m.checked_add(d) {
                Some(v) => {
                    acc = v;
                },
                None => {
                    proof {
                        if all_digits(t) {
                            assert(t.take(i + 1 - a) == s@.subrange(a as int, i + 1));
                            lemma_value_prefix_le(t, i + 1 - a);
                        }
                    }
                    return None;
                },
            },
            None => {
                proof {
                    if all_digits(t) {
                        assert(t.take(i + 1 - a) == s@.subrange(a as int, i + 1));
                        lemma_value_prefix_le(t, i + 1 - a);
                    }
                }
                return None;
            },
        }
        i = i + 1;
    }
    Some(acc)
}

/// What the standard library's `u64` parsing makes of `s[a..b]`.
pub fn parse_u64(s: &[u8], a: usize, b: usize) -> (r: Option<u64>)
    requires
        a <= b <= s@.len(),
    ensures
        r == spec_parse_u64(s@.subrange(a as int, b as int)),
{
    if a < b && s[a] == 43 {
        proof {
            assert(s@.subrange(a as int, b as int).drop_first() == s@.subrange(a + 1, b as int));
        }
        digits_u64(s, a + 1, b)
    } else {
        digits_u64(s, a, b)
    }
}

/// What the standard library's `i64` parsing makes of `s[a..b]`.
pub fn parse_i64(s: &[u8], a: usize, b: usize) -> (r: Option<i64>)
    requires
        a <= b <= s@.len(),
    ensures
        r == spec_parse_i64(s@.subrange(a as int, b as int)),
{
    let ghost t = s@.subrange(a as int, b as int);
    if a < b && s[a] == 45 {
        proof {
            assert(t.drop_first() == s@.subrange(a + 1, b as int));
        }
        match digits_u64(s, a + 1, b) {
            Some(v) => {
                if v <= 0x8000_0000_0000_0000 {
                    if v == 0x8000_0000_0000_0000 {
                        Some(i64::MIN)
                    } else {
                        Some(0 - (v as i64))
                    }
                } else {
                    None
                }
            },
            None => None,
        }
    } else {
        let start = if a < b && s[a] == 43 { a + 1 } else { a };
        proof {
            if a < b && s@[a as int] == 43 {
                assert(t.drop_first() == s@.subrange(a + 1, b as int));
            }
        }
        match digits_u64(s, start, b) {
            Some(v) => {
                if v <= 0x7fff_ffff_ffff_ffff {
                    Some(v as i64)
                } else {
                    None
                }
            },
            None => None,
        }
    }
}

/// `s[a..b]` begins with `prefix`.
pub fn starts_with(s: &[u8], a: usize, b: usize, prefix: &[u8]) -> (r: bool)
    requires
        a <= b <= s@.len(),
    ensures
        r == (prefix@.len() <= b - a && s@.subrange(a as int, a + prefix@.len()) == prefix@),
{
    let n = prefix.len();
    if n > b - a {
        return false;
    }
    let mut k: usize = 0;
    while k < n
        invariant
            n == prefix@.len(),
            n <= b - a,
            a <= b <= s@.len(),
            k <= n,
            forall|q: int| 0 <= q < k ==> s@[a + q] == prefix@[q],
        decreases n - k,
    {
        if s[a + k] != prefix[k] {
            proof {
                assert(s@.subrange(a as int, a + n)[k as int] != prefix@[k as int]);
            }
            return false;
        }
        k = k + 1;
    }
    assert(s@.subrange(a as int, a + n) == prefix@);
    true
}

/// A one-byte whitespace character: space, or tab through carriage return.
pub open spec fn is_ws1(b: u8) -> bool {
    b == 32 || (9 <= b && b <= 13)
}

/// The three bytes encode a whitespace character in UTF-8: U+1680,
/// U+2000 to U+200A, U+2028, U+2029, U+202F, U+205F or U+3000.
pub open spec fn is_ws3(a: u8, b: u8, c: u8) -> bool {
    ||| (a == 0xE1 && b == 0x9A && c == 0x80)
    ||| (a == 0xE2 && b == 0x80 && ((0x80 <= c && c <= 0x8A) || c == 0xA8 || c == 0xA9 || c == 0xAF))
    ||| (a == 0xE2 && b == 0x81 && c == 0x9F)
    ||| (a == 0xE3 && b == 0x80 && c == 0x80)
}

/// The length of the whitespace character that starts at `i` and ends by
/// `end`, or 0 when none does. The two-byte ones are U+0085 and U+00A0.
pub open spec fn ws_front_at(s: Seq<u8>, i: int, end: int) -> int {
    if end - i >= 1 && is_ws1(s[i]) {
        1
    } else if end - i >= 2 && s[i] == 0xC2 && (s[i + 1] == 0x85 || s[i + 1] == 0xA0) {
        2
    } else if end - i >= 3 && is_ws3(s[i], s[i + 1], s[i + 2]) {
        3
    } else {
        0
    }
}

/// The length of the whitespace character that ends at `j` and starts at
/// or after `start`, or 0 when none does.
pub open spec fn ws_back_at(s: Seq<u8>, start: int, j: int) -> int {
    if j - start >= 1 && is_ws1(s[j - 1]) {
        1
    } else if j - start >= 2 && s[j - 2] == 0xC2 && (s[j - 1] == 0x85 || s[j - 1] == 0xA0) {
        2
    } else if j - start >= 3 && is_ws3(s[j - 3], s[j - 2], s[j - 1]) {
        3
    } else {
        0
    }
}

/// Where the text from `i` to `end` starts once leading whitespace is
/// dropped.
pub open spec fn trim_front(s: Seq<u8>, i: int, end: int) -> int
    decreases end - i,
{
    if i < end && ws_front_at(s, i, end) > 0 {
        trim_front(s, i + ws_front_at(s, i, end), end)
    } else {
        i
    }
}

/// Where the text from `start` to `j` ends once trailing whitespace is
/// dropped.
pub open spec fn trim_back(s: Seq<u8>, start: int, j: int) -> int
    decreases j - start,
{
    if start < j && ws_back_at(s, start, j) > 0 {
        trim_back(s, start, j - ws_back_at(s, start, j))
    } else {
        j
    }
}

/// The text from `a` to `b` with whitespace dropped at both ends; on text
/// that is valid UTF-8 this is what `str::trim` gives.
pub open spec fn trimmed(s: Seq<u8>, a: int, b: int) -> Seq<u8> {
    let i = trim_front(s, a, b);
    s.subrange(i, trim_back(s, i, b))
}

pub proof fn lemma_trim_front_bounds(s: Seq<u8>, i: int, end: int)
    requires
        i <= end,
    ensures
        i <= trim_front(s, i, end) <= end,
    decreases end - i,
{
    if i < end && ws_front_at(s, i, end) > 0 {
        lemma_trim_front_bounds(s, i + ws_front_at(s, i, end), end);
    }
}

pub proof fn lemma_trim_back_bounds(s: Seq<u8>, start: int, j: int)
    requires
        start <= j,
    ensures
        start <= trim_back(s, start, j) <= j,
    decreases j - start,
{
    if start < j && ws_back_at(s, start, j) > 0 {
        lemma_trim_back_bounds(s, start, j - ws_back_at(s, start, j));
    }
}

fn ws_front(s: &[u8], i: usize, end: usize) -> (r: usize)
    requires
        i <= end <= s@.len(),
    ensures
        r == ws_front_at(s@, i as int, end as int),
{
    let n = end - i;
    if n >= 1 && (s[i] == 32 || (9 <= s[i] && s[i] <= 13)) {
        1
    } else if n >= 2 && s[i] == 0xC2 && (s[i + 1] == 0x85 || s[i + 1] == 0xA0) {
        2
    } else if n >= 3 && is_ws3_exec(s[i], s[i + 1], s[i + 2]) {
        3
    } else {
        0
    }
}

fn ws_back(s: &[u8], start: usize, j: usize) -> (r: usize)
    requires
        start <= j <= s@.len(),
    ensures
        r == ws_back_at(s@, start as int, j as int),
{
    let n = j - start;
    if n >= 1 && (s[j - 1] == 32 || (9 <= s[j - 1] && s[j - 1] <= 13)) {
        1
    } else if n >= 2 && s[j - 2] == 0xC2 && (s[j - 1] == 0x85 || s[j - 1] == 0xA0) {
        2
    } else if n >= 3 && is_ws3_exec(s[j - 3], s[j - 2], s[j - 1]) {
        3
    } else {
        0
    }
}

fn is_ws3_exec(a: u8, b: u8, c: u8) -> (r: bool)
    ensures
        r == is_ws3(a, b, c),
{
    (a == 0xE1 && b == 0x9A && c == 0x80)
        || (a == 0xE2 && b == 0x80 && ((0x80 <= c && c <= 0x8A) || c == 0xA8 || c == 0xA9 || c == 0xAF))
        || (a == 0xE2 && b == 0x81 && c == 0x9F)
        || (a == 0xE3 && b == 0x80 && c == 0x80)
}

/// The bytes from `a` to `b` with whitespace dropped at both ends.
pub fn trim(s: &[u8], a: usize, b: usize) -> (r: Vec<u8>)
    requires
        a <= b <= s@.len(),
    ensures
        r@ == trimmed(s@, a as int, b as int),
{
    let mut i = a;
    while i < b && ws_front(s, i, b) > 0
        invariant
            a <= i <= b <= s@.len(),
            trim_front(s@, i as int, b as int) == trim_front(s@, a as int, b as int),
        decreases b - i,
    {
        i = i + ws_front(s, i, b);
    }
    let mut j = b;
    while i < j && ws_back(s, i, j) > 0
        invariant
            i <= j <= b <= s@.len(),
            i == trim_front(s@, a as int, b as int),
            trim_back(s@, i as int, j as int) == trim_back(s@, i as int, b as int),
        decreases j - i,
    {
        j = j - ws_back(s, i, j);
    }
    let mut v: Vec<u8> = Vec::new();
    let mut k = i;
    while k < j
        invariant
            i <= k <= j <= s@.len(),
            v@ == s@.subrange(i as int, k as int),
        decreases j - k,
    {
        v.push(s[k]);
        proof {
            assert(s@.subrange(i as int, k + 1) == s@.subrange(i as int, k as int).push(s@[k as int]));
        }
        k = k + 1;
    }
    v
}

/// The first position from `i` on, before `end`, where a whitespace
/// character starts, or `end`.
pub open spec fn next_space(s: Seq<u8>, i: int, end: int) -> int
    decreases end - i,
{
    if i >= end {
        end
    } else if ws_front_at(s, i, end) > 0 {
        i
    } else {
        next_space(s, i + 1, end)
    }
}

pub proof fn lemma_next_space_bounds(s: Seq<u8>, i: int, end: int)
    requires
        i <= end,
    ensures
        i <= next_space(s, i, end) <= end,
        i < end && ws_front_at(s, i, end) == 0 ==> next_space(s, i, end) > i,
    decreases end - i,
{
    if i < end && ws_front_at(s, i, end) == 0 {
        lemma_next_space_bounds(s, i + 1, end);
    }
}

pub proof fn lemma_trim_front_stops(s: Seq<u8>, i: int, end: int)
    requires
        i <= end,
    ensures
        trim_front(s, i, end) < end ==> ws_front_at(s, trim_front(s, i, end), end) == 0,
    decreases end - i,
{
    if i < end && ws_front_at(s, i, end) > 0 {
        lemma_trim_front_stops(s, i + ws_front_at(s, i, end), end);
    }
}

/// The words of the text from `i` to `end`, as ranges: the runs between
/// whitespace characters, the way `str::split_whitespace` cuts valid
/// UTF-8.
pub open spec fn words_from(s: Seq<u8>, i: int, end: int) -> Seq<(int, int)>
    decreases end - i,
{
    if i >= end {
        Seq::empty()
    } else {
        let a = trim_front(s, i, end);
        if a >= end {
            Seq::empty()
        } else {
            proof {
                lemma_trim_front_bounds(s, i, end);
                lemma_trim_front_stops(s, i, end);
                lemma_next_space_bounds(s, a, end);
            }
            let b = next_space(s, a, end);
            seq![(a, b)] + words_from(s, b, end)
        }
    }
}

pub proof fn lemma_words_bounds(s: Seq<u8>, i: int, end: int)
    requires
        0 <= i,
        end <= s.len(),
    ensures
        forall|k: int| 0 <= k < words_from(s, i, end).len() ==>
            i <= (#[trigger] words_from(s, i, end)[k]).0 <= words_from(s, i, end)[k].1 <= end,
    decreases end - i,
{
    if i < end {
        let a = trim_front(s, i, end);
        lemma_trim_front_bounds(s, i, end);
        lemma_trim_front_stops(s, i, end);
        if a < end {
            lemma_next_space_bounds(s, a, end);
            let b = next_space(s, a, end);
            lemma_words_bounds(s, b, end);
            let w = words_from(s, i, end);
            assert(w == seq![(a, b)] + words_from(s, b, end));
            assert forall|k: int| 0 <= k < w.len() implies i <= (#[trigger] w[k]).0 <= w[k].1 <= end by {
                if k > 0 {
                    assert(w[k] == words_from(s, b, end)[k - 1]);
                }
            }
        }
    }
}

/// The words of the text from `start` to `end`, as ranges of positions.
pub fn split_words(s: &[u8], start: usize, end: usize) -> (r: Vec<(usize, usize)>)
    requires
        start <= end <= s@.len(),
    ensures
        ranges(r@) == words_from(s@, start as int, end as int),
{
    let mut res: Vec<(usize, usize)> = Vec::new();
    let mut i = start;
    while i < end
        invariant
            start <= i <= end <= s@.len(),
            ranges(res@) + words_from(s@, i as int, end as int) == words_from(s@, start as int, end as int),
        decreases end - i,
    {
        let mut a = i;
        while a < end && ws_front(s, a, end) > 0
            invariant
                i <= a <= end <= s@.len(),
                trim_front(s@, a as int, end as int) == trim_front(s@, i as int, end as int),
            decreases end - a,
        {
            a = a + ws_front(s, a, end);
        }
        if a >= end {
            proof {
                assert(words_from(s@, i as int, end as int) == Seq::<(int, int)>::empty());
                assert(ranges(res@) + Seq::<(int, int)>::empty() == ranges(res@));
            }
            return res;
        }
        let mut b = a;
        while b < end && ws_front(s, b, end) == 0
            invariant
                a <= b <= end <= s@.len(),
                a < end,
                ws_front_at(s@, a as int, end as int) == 0,
                next_space(s@, b as int, end as int) == next_space(s@, a as int, end as int),
            decreases end - b,
        {
            b = b + 1;
        }
        proof {
            lemma_next_space_bounds(s@, a as int, end as int);
            assert(b > a);
            assert(words_from(s@, i as int, end as int) == seq![(a as int, b as int)] + words_from(s@, b as int, end as int));
            assert(ranges(res@.push((a, b))) == ranges(res@).push((a as int, b as int)));
            assert(ranges(res@).push((a as int, b as int)) + words_from(s@, b as int, end as int)
                == ranges(res@) + (seq![(a as int, b as int)] + words_from(s@, b as int, end as int)));
        }
        res.push((a, b));
        i = b;
    }
    proof {
        assert(words_from(s@, i as int, end as int) == Seq::<(int, int)>::empty());
        assert(ranges(res@) + Seq::<(int, int)>::empty() == ranges(res@));
    }
    res
}

} // verus!
