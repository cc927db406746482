use vstd::prelude::*;
use vstd::slice::slice_subrange;
use crate::text::{
    spec_btou, spec_lines, tokens_from, ranges, split_lines, split_tokens, lines_from, next_nl,
    lemma_next_nl_bounds, is_ascii_ws, next_ws, lemma_next_ws_bounds,
};

verus! {

/// Calls `btoi::btou::<u64>`: the bytes must be one or more ASCII digits
/// with no sign, and the number must fit in 64 bits; otherwise no value.
#[verifier::external_body]
pub(crate) fn btou_u64(bytes: &[u8]) -> (r: Option<u64>)
    ensures
        r == spec_btou(bytes@),
{
    btoi::btou::<u64>(bytes).ok()
}

/// `btoi::btou` read into an `i64`: as for a `u64`, and the number must be at
/// most `i64::MAX`.
pub open spec fn spec_btou_i64(s: Seq<u8>) -> Option<i64> {
    match spec_btou(s) {
        Some(v) => if v <= i64::MAX { Some(v as i64) } else { None },
        None => None,
    }
}

fn btou_i64(bytes: &[u8]) -> (r: Option<i64>)
    ensures
        r == spec_btou_i64(bytes@),
{
    match btou_u64(bytes) {
        Some(v) => if v <= 0x7fff_ffff_ffff_ffff { Some(v as i64) } else { None },
        None => None,
    }
}

/// The positions of the spaces among the first `n` bytes of `s`, in order.
pub open spec fn spaces_upto(s: Seq<u8>, n: int) -> Seq<int>
    decreases n,
{
    if n <= 0 {
        Seq::empty()
    } else if s[n - 1] == 32 {
        spaces_upto(s, n - 1).push(n - 1)
    } else {
        spaces_upto(s, n - 1)
    }
}

/// The positions of all spaces in `s`, in order.
pub open spec fn spec_spaces(s: Seq<u8>) -> Seq<int> {
    spaces_upto(s, s.len() as int)
}

pub proof fn lemma_spaces_upto(s: Seq<u8>, n: int)
    requires
        0 <= n <= s.len(),
    ensures
        forall|k: int| 0 <= k < spaces_upto(s, n).len() ==> 0 <= #[trigger] spaces_upto(s, n)[k] < n,
        forall|k: int| 0 <= k < spaces_upto(s, n).len() ==> s[#[trigger] spaces_upto(s, n)[k]] == 32,
        forall|k: int, l: int| 0 <= k < l < spaces_upto(s, n).len() ==> spaces_upto(s, n)[k] < spaces_upto(s, n)[l],
        spaces_upto(s, n).len() <= n,
    decreases n,
{
    if n > 0 {
        lemma_spaces_upto(s, n - 1);
    }
}

/// The positions of the spaces in `haystack`, in order.
pub fn find_all(haystack: &[u8]) -> (r: Vec<usize>)
    ensures
        r@.map_values(|p: usize| p as int) == spec_spaces(haystack@),
{
    let mut positions: Vec<usize> = Vec::new();
    let n = haystack.len();
    let mut i: usize = 0;
    while i < n
        invariant
            n == haystack@.len(),
            i <= n,
            positions@.map_values(|p: usize| p as int) == spaces_upto(haystack@, i as int),
        decreases n - i,
    {
        if haystack[i] == 32 {
            let ghost old_p = positions@;
            positions.push(i);
            assert(positions@.map_values(|p: usize| p as int) == old_p.map_values(|p: usize| p as int).push(i as int));
        }
        i = i + 1;
    }
    positions
}

/// The last 51 space positions of a `/proc/[pid]/stat` line, which frame its
/// 52 fields whatever spaces the command name holds; `None` if there are
/// fewer than 51.
pub open spec fn stat_window(s: Seq<u8>) -> Option<Seq<int>> {
    let p = spec_spaces(s);
    if p.len() < 51 {
        None
    } else {
        Some(p.subrange(p.len() - 51, p.len() as int))
    }
}

/// The bytes between the spaces at `w[k]` and `w[k + 1]`.
pub open spec fn stat_text(s: Seq<u8>, w: Seq<int>, k: int) -> Seq<u8> {
    s.subrange(w[k] + 1, w[k + 1])
}

/// The five numbers read from a stat line: the user time, the system time,
/// the children's user and system time and the resident pages, which are
/// fields 14 to 17 and 24 of a line of 52 fields, counting the PID as field
/// 1: the texts between the window's spaces 12 and 13, 13 and 14, 14 and 15,
/// 15 and 16, and 22 and 23.
pub open spec fn spec_stat_numbers(s: Seq<u8>) -> Option<(u64, u64, u64, u64, i64)> {
    match stat_window(s) {
        None => None,
        Some(w) => {
            match (
                spec_btou(stat_text(s, w, 12)),
                spec_btou(stat_text(s, w, 13)),
                spec_btou(stat_text(s, w, 14)),
                spec_btou(stat_text(s, w, 15)),
                spec_btou_i64(stat_text(s, w, 22)),
            ) {
                (Some(u), Some(st), Some(cu), Some(cs), Some(rss)) => Some((u, st, cu, cs, rss)),
                _ => None,
            }
        },
    }
}

/// Why a stat line could not be read.
#[derive(PartialEq, Eq, Structural, Debug, Clone, Copy)]
pub enum StatError {
    /// Fewer than 51 spaces.
    IndexTooSmall,
    /// The user time is not a number.
    Utime,
    /// The system time is not a number.
    Stime,
    /// The children's user time is not a number.
    Cutime,
    /// The children's system time is not a number.
    Cstime,
    /// The resident set size is not a number.
    Rss,
}

/// Why a `smaps_rollup` file could not be read.
#[derive(PartialEq, Eq, Structural, Debug, Clone, Copy)]
pub enum SmapsError {
    /// It has fewer than three lines.
    NoLine,
    /// Its third line has fewer than two words.
    NoWord,
    /// The second word of the third line is not a number.
    NotNumber,
}

/// One process as the monitor tracks it.
pub struct Process {
    pub cmdline: Vec<u8>,
    pub executable: Vec<u8>,
    pub pid: u32,
    pub utime: u64,
    pub stime: u64,
    pub cutime: u64,
    pub cstime: u64,
    /// Resident set size in bytes.
    pub rss: i64,
    /// Proportional set size in bytes; -1 when it could not be read.
    pub pss: i64,
    /// Clock ticks used since the previous reading; 0 on the first one.
    pub work: u64,
    /// Clock ticks used in all.
    pub total: u64,
    /// Shown with its stat name: it has no command line.
    pub not_executable: bool,
    pub stat_fd: i32,
    /// Descriptor of `smaps_rollup`; 0 while it is not open.
    pub smaps_fd: i32,
}

/// The error of a stat line, in the order the fields are read.
pub open spec fn spec_stat_error(s: Seq<u8>) -> StatError {
    match stat_window(s) {
        None => StatError::IndexTooSmall,
        Some(w) => {
            if spec_btou(stat_text(s, w, 12)) is None {
                StatError::Utime
            } else if spec_btou(stat_text(s, w, 13)) is None {
                StatError::Stime
            } else if spec_btou(stat_text(s, w, 14)) is None {
                StatError::Cutime
            } else if spec_btou(stat_text(s, w, 15)) is None {
                StatError::Cstime
            } else {
                StatError::Rss
            }
        },
    }
}

/// The number of the third line's second word of a `smaps_rollup` file, or
/// the error on the way there.
pub open spec fn spec_smaps_value(s: Seq<u8>) -> Result<i64, SmapsError> {
    let lines = spec_lines(s);
    if lines.len() < 3 {
        Err(SmapsError::NoLine)
    } else {
        let words = tokens_from(s, lines[2].0, lines[2].1);
        if words.len() < 2 {
            Err(SmapsError::NoWord)
        } else {
            match spec_btou_i64(s.subrange(words[1].0, words[1].1)) {
                Some(v) => Ok(v),
                None => Err(SmapsError::NotNumber),
            }
        }
    }
}

proof fn lemma_lines_in_bounds(s: Seq<u8>, i: int)
    requires
        0 <= i,
    ensures
        forall|k: int| 0 <= k < lines_from(s, i).len() ==>
            i <= (#[trigger] lines_from(s, i)[k]).0 <= lines_from(s, i)[k].1 <= s.len(),
    decreases s.len() - i,
{
    if 0 <= i < s.len() {
        lemma_next_nl_bounds(s, i);
        let j = next_nl(s, i);
        if j < s.len() {
            lemma_lines_in_bounds(s, j + 1);
        }
        assert forall|k: int| 0 <= k < lines_from(s, i).len() implies
            i <= (#[trigger] lines_from(s, i)[k]).0 <= lines_from(s, i)[k].1 <= s.len() by {
            if k > 0 {
                assert(lines_from(s, i)[k] == lines_from(s, j + 1)[k - 1]);
            }
        }
    }
}

/// Every line range of `s` lies inside `s`.
pub proof fn lemma_lines_bounds(s: Seq<u8>)
    ensures
        forall|k: int| 0 <= k < spec_lines(s).len() ==>
            0 <= (#[trigger] spec_lines(s)[k]).0 <= spec_lines(s)[k].1 <= s.len(),
{
    lemma_lines_in_bounds(s, 0);
}

/// Every word range between `i` and `end` lies inside them.
pub proof fn lemma_tokens_bounds(s: Seq<u8>, i: int, end: int)
    requires
        0 <= i,
        end <= s.len(),
    ensures
        forall|k: int| 0 <= k < tokens_from(s, i, end).len() ==>
            i <= (#[trigger] tokens_from(s, i, end)[k]).0 < tokens_from(s, i, end)[k].1 <= end,
    decreases end - i,
{
    if i < end {
        if is_ascii_ws(s[i]) {
            lemma_tokens_bounds(s, i + 1, end);
            assert(tokens_from(s, i, end) == tokens_from(s, i + 1, end));
        } else {
            lemma_next_ws_bounds(s, i + 1, end);
            let j = next_ws(s, i, end);
            assert(j == next_ws(s, i + 1, end));
            assert(i < j <= end);
            lemma_tokens_bounds(s, j, end);
            assert(tokens_from(s, i, end) == seq![(i, j)] + tokens_from(s, j, end));
            assert forall|k: int| 0 <= k < tokens_from(s, i, end).len() implies
                i <= (#[trigger] tokens_from(s, i, end)[k]).0 < tokens_from(s, i, end)[k].1 <= end by {
                if k > 0 {
                    assert(tokens_from(s, i, end)[k] == tokens_from(s, j, end)[k - 1]);
                }
            }
        }
    }
}

/// The space positions `index` from `base` on frame a stat line's fields.
pub open spec fn window_ok(s: Seq<u8>, index: Seq<usize>, base: int) -> bool {
    &&& index.map_values(|q: usize| q as int) == spec_spaces(s)
    &&& index.len() >= 51
    &&& base == index.len() - 51
    &&& stat_window(s) == Some(index.map_values(|q: usize| q as int).subrange(base, base + 51))
    &&& forall|k: int| 0 <= k < 50 ==> #[trigger] index[base + k] < index[base + k + 1] <= s.len()
}

proof fn lemma_window(s: Seq<u8>, index: Seq<usize>, base: int)
    requires
        index.map_values(|q: usize| q as int) == spec_spaces(s),
        index.len() >= 51,
        base == index.len() - 51,
    ensures
        window_ok(s, index, base),
{
    let p = spec_spaces(s);
    lemma_spaces_upto(s, s.len() as int);
    assert forall|k: int| 0 <= k < 50 implies #[trigger] index[base + k] < index[base + k + 1] <= s.len() by {
        assert(p[base + k] == index[base + k] as int);
        assert(p[base + k + 1] == index[base + k + 1] as int);
    }
}

fn stat_field(buf: &[u8], index: &Vec<usize>, base: usize, k: usize) -> (r: Option<u64>)
    requires
        window_ok(buf@, index@, base as int),
        k < 50,
    ensures
        r == spec_btou(stat_text(buf@, stat_window(buf@)->Some_0, k as int)),
{
    let ghost w = stat_window(buf@)->Some_0;
    let n = index.len();
    proof {
        assert(w[k as int] == index@[base + k] as int);
        assert(w[k + 1] == index@[base + k + 1] as int);
        assert(index@[base + k] < index@[base + k + 1] <= buf@.len());
    }
    btou_u64(slice_subrange(buf, index[base + k] + 1, index[base + k + 1]))
}

/// A process after a stat line whose numbers could all be read.
pub open spec fn stat_updated(p: Process, buf: Seq<u8>) -> Process {
    let (u, st, cu, cs, rss) = spec_stat_numbers(buf)->Some_0;
    let total = (u + st + cu + cs) as u64;
    Process {
        utime: u,
        stime: st,
        cutime: cu,
        cstime: cs,
        rss: (rss * 4096) as i64,
        total,
        work: if p.total != 0 { (total - p.total) as u64 } else { 0 },
        ..p
    }
}

impl Process {
    /// A process with the given names, whose stat file is open as `stat_fd`;
    /// an error when that descriptor is negative (the file could not be
    /// opened). Nothing is measured yet and the PSS is -1.
    pub fn new(pid: u32, executable: Vec<u8>, cmdline: Vec<u8>, not_executable: bool, stat_fd: i32) -> (r: Result<Self, ()>)
        ensures
            stat_fd < 0 <==> r is Err,
            r matches Ok(p) ==> {
                &&& p.pid == pid
                &&& p.executable@ == executable@
                &&& p.cmdline@ == cmdline@
                &&& p.not_executable == not_executable
                &&& p.stat_fd == stat_fd
                &&& p.smaps_fd == 0
                &&& p.pss == -1
                &&& p.rss == 0
                &&& p.work == 0
                &&& p.total == 0
                &&& p.utime == 0 && p.stime == 0 && p.cutime == 0 && p.cstime == 0
            },
    {
        if stat_fd < 0 {
            return Err(());
        }
        Ok(Process {
            cmdline,
            executable,
            pid,
            utime: 0,
            stime: 0,
            cutime: 0,
            cstime: 0,
            rss: 0,
            pss: -1,
            work: 0,
            total: 0,
            not_executable,
            stat_fd,
            smaps_fd: 0,
        })
    }

    /// A process with nothing in it.
    pub(crate) fn placeholder() -> (r: Self)
        ensures
            r.cmdline@.len() == 0,
            r.executable@.len() == 0,
            r.pid == 0,
            r.utime == 0,
            r.stime == 0,
            r.cutime == 0,
            r.cstime == 0,
            r.rss == 0,
            r.pss == -1,
            r.work == 0,
            r.total == 0,
            !r.not_executable,
            r.stat_fd == -1,
            r.smaps_fd == 0,
    {
        Process {
            cmdline: Vec::new(),
            executable: Vec::new(),
            pid: 0,
            utime: 0,
            stime: 0,
            cutime: 0,
            cstime: 0,
            rss: 0,
            pss: -1,
            work: 0,
            total: 0,
            not_executable: false,
            stat_fd: -1,
            smaps_fd: 0,
        }
    }

    /// The `smaps_rollup` file still has to be opened.
    pub fn smaps_open_needed(&self) -> (r: bool)
        ensures
            r == (self.smaps_fd == 0),
    {
        self.smaps_fd == 0
    }

    /// The descriptor of `smaps_rollup`: `opened` (the result of opening it)
    /// is kept when none was open yet, else the one kept before stays.
    pub fn get_smaps_fd(&mut self, opened: i32) -> (r: i32)
        ensures
            old(self).smaps_fd == 0 ==> *final(self) == (Process { smaps_fd: opened, ..*old(self) }),
            old(self).smaps_fd != 0 ==> *final(self) == *old(self),
            r == final(self).smaps_fd,
    {
        if self.smaps_fd == 0 {
            self.smaps_fd = opened;
        }
        self.smaps_fd
    }

    /// Stops reading `smaps_rollup`: hands back the descriptor to close when
    /// one is open, and forgets it.
    pub fn disable_smaps(&mut self) -> (r: Option<i32>)
        ensures
            old(self).smaps_fd > 0 ==> r == Some(old(self).smaps_fd) && *final(self) == (Process { smaps_fd: 0, ..*old(self) }),
            old(self).smaps_fd <= 0 ==> r is None && *final(self) == *old(self),
    {
        if self.smaps_fd > 0 {
            let fd = self.smaps_fd;
            self.smaps_fd = 0;
            Some(fd)
        } else {
            None
        }
    }

    /// Reads a `/proc/[pid]/stat` line: the times and resident set size, then
    /// the total ticks and the ticks used since the previous reading. On an
    /// error the fields before the failing one are already updated.
    #[verifier::rlimit(40)]
    pub fn update_stat(&mut self, buf: &[u8]) -> (r: Result<(), StatError>)
        requires
            stat_ok(*old(self), buf@),
        ensures
            final(self).pid == old(self).pid,
            final(self).pss == old(self).pss,
            final(self).smaps_fd == old(self).smaps_fd,
            final(self).stat_fd == old(self).stat_fd,
            final(self).executable == old(self).executable,
            final(self).cmdline == old(self).cmdline,
            final(self).not_executable == old(self).not_executable,
            r is Ok <==> spec_stat_numbers(buf@) is Some,
            r matches Err(e) ==> e == spec_stat_error(buf@) && final(self).total == old(self).total
                && final(self).work == old(self).work,
            spec_stat_numbers(buf@) is Some ==> *final(self) == stat_updated(*old(self), buf@),
    {
        let old_total = self.total;
        let index = find_all(buf);
        let len = index.len();
        if len < 51 {
            return Err(StatError::IndexTooSmall);
        }
        let base = len - 51;
        proof {
            lemma_window(buf@, index@, base as int);
        }
        match stat_field(buf, &index, base, 12) {
            Some(v) => { self.utime = v; },
            None => { return Err(StatError::Utime); },
        }
        match stat_field(buf, &index, base, 13) {
            Some(v) => { self.stime = v; },
            None => { return Err(StatError::Stime); },
        }
        match stat_field(buf, &index, base, 14) {
            Some(v) => { self.cutime = v; },
            None => { return Err(StatError::Cutime); },
        }
        match stat_field(buf, &index, base, 15) {
            Some(v) => { self.cstime = v; },
            None => { return Err(StatError::Cstime); },
        }
        let rss = match stat_field(buf, &index, base, 22) {
            Some(v) => v,
            None => { return Err(StatError::Rss); },
        };
        if rss > 0x7fff_ffff_ffff_ffff {
            return Err(StatError::Rss);
        }
        self.rss = (rss as i64) * 4096;
        self.total = self.utime + self.stime + self.cutime + self.cstime;
        self.work = if old_total != 0 { self.total - old_total } else { 0 };
        Ok(())
    }

    /// Reads the PSS from a `smaps_rollup` file when it is open (in bytes:
    /// the kilobytes of the third line's second word times 1024); sets it to
    /// -1 when it is not. On an error the PSS stays as it was.
    pub fn update_smaps(&mut self, buf: &[u8]) -> (r: Result<(), SmapsError>)
        requires
            smaps_ok(*old(self), buf@),
        ensures
            old(self).smaps_fd <= 0 ==> r is Ok,
            old(self).smaps_fd > 0 ==> match spec_smaps_value(buf@) {
                Ok(v) => r is Ok && *final(self) == (Process { pss: (v * 1024) as i64, ..*old(self) }),
                Err(e) => r == Err::<(), SmapsError>(e) && *final(self) == *old(self),
            },
            old(self).smaps_fd <= 0 ==> *final(self) == (Process { pss: -1i64, ..*old(self) }),
    {
        if self.smaps_fd > 0 {
            let v = smaps_value(buf)?;
            self.pss = v * 1024;
            Ok(())
        } else {
            self.pss = -1;
            Ok(())
        }
    }

    /// Whether `update_stat` can take in `buf` (see `stat_ok`).
    pub fn stat_fits(&self, buf: &[u8]) -> (r: bool)
        ensures
            r == stat_ok(*self, buf@),
    {
        let index = find_all(buf);
        let len = index.len();
        proof {
            assert(index@.map_values(|q: usize| q as int).len() == index@.len());
        }
        if len >= 128 {
            return false;
        }
        if len < 51 {
            return true;
        }
        let base = len - 51;
        proof {
            lemma_window(buf@, index@, base as int);
        }
        let u = match stat_field(buf, &index, base, 12) { Some(v) => v, None => { return true; } };
        let st = match stat_field(buf, &index, base, 13) { Some(v) => v, None => { return true; } };
        let cu = match stat_field(buf, &index, base, 14) { Some(v) => v, None => { return true; } };
        let cs = match stat_field(buf, &index, base, 15) { Some(v) => v, None => { return true; } };
        let rss = match stat_field(buf, &index, base, 22) { Some(v) => v, None => { return true; } };
        if rss > 0x7fff_ffff_ffff_ffff {
            return true;
        }
        let sum: u128 = u as u128 + st as u128 + cu as u128 + cs as u128;
        (rss as u128) * 4096 <= 0x7fff_ffff_ffff_ffff && sum <= 0xffff_ffff_ffff_ffff
            && (self.total == 0 || sum >= self.total as u128)
    }

    /// Whether `update_smaps` can take in `buf` (see `smaps_ok`).
    pub fn smaps_fits(&self, buf: &[u8]) -> (r: bool)
        ensures
            r == smaps_ok(*self, buf@),
    {
        if self.smaps_fd > 0 {
            match smaps_value(buf) {
                Ok(v) => v <= 0x001f_ffff_ffff_ffff,
                Err(_) => true,
            }
        } else {
            true
        }
    }
}

/// A stat line can be taken in by `p`: it has fewer than 128 spaces, and
/// when its numbers can be read, the resident size fits in bytes, the times
/// add up within 64 bits and their sum did not go back.
pub open spec fn stat_ok(p: Process, buf: Seq<u8>) -> bool {
    &&& spec_spaces(buf).len() < 128
    &&& spec_stat_numbers(buf) matches Some((u, st, cu, cs, rss)) ==> {
        &&& rss * 4096 <= i64::MAX
        &&& u + st + cu + cs <= u64::MAX
        &&& p.total != 0 ==> u + st + cu + cs >= p.total
    }
}

/// A `smaps_rollup` text can be taken in by `p`: when its file is open and
/// the PSS can be read, it fits in bytes.
pub open spec fn smaps_ok(p: Process, buf: Seq<u8>) -> bool {
    p.smaps_fd > 0 ==> (spec_smaps_value(buf) matches Ok(v) ==> v * 1024 <= i64::MAX)
}

/// The PSS in kilobytes that a `smaps_rollup` text gives (see
/// `spec_smaps_value`).
fn smaps_value(buf: &[u8]) -> (r: Result<i64, SmapsError>)
    ensures
        r == spec_smaps_value(buf@),
{
    let lines = split_lines(buf);
    proof {
        lemma_lines_bounds(buf@);
    }
    if lines.len() < 3 {
        return Err(SmapsError::NoLine);
    }
    let (a, b) = lines[2];
    proof {
        assert(ranges(lines@)[2] == (a as int, b as int));
    }
    let words = split_tokens(buf, a, b);
    proof {
        lemma_tokens_bounds(buf@, a as int, b as int);
    }
    if words.len() < 2 {
        return Err(SmapsError::NoWord);
    }
    let (c, d) = words[1];
    proof {
        assert(ranges(words@)[1] == (c as int, d as int));
    }
    match btou_i64(slice_subrange(buf, c, d)) {
        Some(v) => Ok(v),
        None => Err(SmapsError::NotNumber),
    }
}

/// Reading the same stat line twice shows no work the second time: a
/// process that used no CPU time between two readings has done none.
pub proof fn law_same_stat_no_work(p: Process, buf: Seq<u8>)
    requires
        spec_stat_numbers(buf) is Some,
    ensures
        stat_updated(stat_updated(p, buf), buf).work == 0,
        stat_updated(stat_updated(p, buf), buf).total == stat_updated(p, buf).total,
{
}

} // verus!
