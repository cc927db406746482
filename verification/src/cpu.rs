use vstd::prelude::*;
use crate::text::{spec_lines, tokens_from, spec_parse_u64, split_lines, split_tokens, parse_u64, starts_with, ranges};
use crate::process::{lemma_lines_bounds, lemma_tokens_bounds};

verus! {

/// How many lines after the first begin with `cpu`, counting up to the first
/// one that does not.
pub open spec fn cpu_lines(s: Seq<u8>, k: int) -> nat
    decreases spec_lines(s).len() - k,
{
    let lines = spec_lines(s);
    if k < 1 || k >= lines.len() {
        0
    } else {
        let (a, b) = lines[k];
        if b - a >= 3 && s.subrange(a, a + 3) == seq![99u8, 112u8, 117u8] {
            1 + cpu_lines(s, k + 1)
        } else {
            0
        }
    }
}

/// How many CPUs `/proc/stat` lists: the `cpu` lines after the first
/// (which sums them all).
pub fn cpu_line_count(text: &[u8]) -> (r: usize)
    ensures
        r == cpu_lines(text@, 1),
{
    let lines = split_lines(text);
    proof {
        lemma_lines_bounds(text@);
        lemma_cpu_lines_bound(text@, 1);
    }
    let n = lines.len();
    let prefix: Vec<u8> = vec![99u8, 112u8, 117u8];
    assert(prefix@ == seq![99u8, 112u8, 117u8]);
    let mut count: usize = 0;
    let mut k: usize = 1;
    while k < n
        invariant
            n == spec_lines(text@).len(),
            ranges(lines@) == spec_lines(text@),
            1 <= k,
            count + cpu_lines(text@, k as int) == cpu_lines(text@, 1),
            cpu_lines(text@, 1) <= n,
            prefix@ == seq![99u8, 112u8, 117u8],
            forall|q: int| 0 <= q < spec_lines(text@).len() ==>
                0 <= (#[trigger] spec_lines(text@)[q]).0 <= spec_lines(text@)[q].1 <= text@.len(),
        decreases n - k,
    {
        let (a, b) = lines[k];
        proof {
            assert(ranges(lines@)[k as int] == (a as int, b as int));
            lemma_cpu_lines_bound(text@, k as int + 1);
        }
        if starts_with(text, a, b, prefix.as_slice()) {
            count = count + 1;
            k = k + 1;
        } else {
            return count;
        }
    }
    count
}

proof fn lemma_cpu_lines_bound(s: Seq<u8>, k: int)
    requires
        1 <= k,
    ensures
        cpu_lines(s, k) <= if spec_lines(s).len() >= k { spec_lines(s).len() - k } else { 0 },
    decreases spec_lines(s).len() - k,
{
    if k < spec_lines(s).len() {
        lemma_cpu_lines_bound(s, k + 1);
    }
}

/// The number of CPUs that `/proc/stat` lists (see `cpu_line_count`), as
/// the monitor keeps it in a byte.
pub fn count_cpus(text: &[u8]) -> (r: u8)
    requires
        cpu_lines(text@, 1) <= 255,
    ensures
        r == cpu_lines(text@, 1),
{
    cpu_line_count(text) as u8
}

/// Why `/proc/stat` could not be read.
#[derive(PartialEq, Eq, Structural, Debug, Clone, Copy)]
pub enum CpuError {
    /// It has no line.
    NoLine,
    /// The field of this number (0 user, 1 nice, 2 system, 3 idle, 4 iowait,
    /// 5 irq, 6 softirq, 7 steal) is not a number.
    Field(usize),
}

/// CPU time as the first line of `/proc/stat` sums it, and what follows from
/// two readings.
pub struct Cpuinfo {
    /// Ticks between the last two readings.
    pub totald: u64,
    /// Ticks spent busy between the last two readings.
    pub busy: u64,
    pub cpu_count: u8,
    /// Idle and iowait ticks of the last reading.
    pub idle: u64,
    /// Busy ticks of the last reading (user, nice, system, irq, softirq,
    /// steal).
    pub non_idle: u64,
    /// user, nice, system, idle, iowait, irq, softirq, steal.
    pub stats: Vec<u64>,
}

/// Idle ticks of a reading: idle and iowait.
pub open spec fn idle_of(st: Seq<u64>) -> int {
    st[3] + st[4]
}

/// Busy ticks of a reading: user, nice, system, irq, softirq and steal.
pub open spec fn non_idle_of(st: Seq<u64>) -> int {
    st[0] + st[1] + st[2] + st[5] + st[6] + st[7]
}

/// How a reading's counts move with each of its eight fields (user, nice,
/// system, idle, iowait, irq, softirq, steal): raising idle or iowait by
/// `d` raises the idle ticks by `d` and leaves the busy ones; raising any
/// other field by `d` raises the busy ticks by `d` and leaves the idle ones.
/// Either way the ticks in all rise by `d`.
pub proof fn law_field_counts(st: Seq<u64>, i: int, v: u64)
    requires
        st.len() == 8,
        0 <= i < 8,
    ensures
        ({
            let n = st.update(i, v);
            let d = v - st[i];
            &&& (i == 3 || i == 4) ==> idle_of(n) == idle_of(st) + d && non_idle_of(n) == non_idle_of(st)
            &&& !(i == 3 || i == 4) ==> non_idle_of(n) == non_idle_of(st) + d && idle_of(n) == idle_of(st)
            &&& idle_of(n) + non_idle_of(n) == idle_of(st) + non_idle_of(st) + d
        }),
{
    let n = st.update(i, v);
    assert(forall|k: int| 0 <= k < 8 && k != i ==> n[k] == st[k]);
    assert(n[i] == v);
}

/// The idle and busy ticks of a reading split its eight fields between
/// them: idle and iowait are idle, the other six busy.
pub proof fn law_ticks_partition(st: Seq<u64>)
    requires
        st.len() == 8,
    ensures
        idle_of(st) + non_idle_of(st) == st[0] + st[1] + st[2] + st[3] + st[4] + st[5] + st[6] + st[7],
        idle_of(st) == st[3] + st[4],
{
}

/// The fields from the `i`-th on (at most eight) read from the words `toks`
/// of the first line (whose first word is its name): each one read replaces
/// the old value; the first that is not a number stops with an error that
/// names it, the earlier ones already replaced.
pub open spec fn cpu_fill(s: Seq<u8>, toks: Seq<(int, int)>, st: Seq<u64>, i: int) -> (Seq<u64>, Option<CpuError>)
    decreases 8 - i,
{
    if i < 0 || i >= 8 || i + 1 >= toks.len() {
        (st, None)
    } else {
        match spec_parse_u64(s.subrange(toks[i + 1].0, toks[i + 1].1)) {
            Some(v) => cpu_fill(s, toks, st.update(i, v), i + 1),
            None => (st, Some(CpuError::Field(i as usize))),
        }
    }
}

/// The fields after reading `/proc/stat`, and the error if there was one.
pub open spec fn spec_cpu_read(s: Seq<u8>, st: Seq<u64>) -> (Seq<u64>, Option<CpuError>) {
    let lines = spec_lines(s);
    if lines.len() == 0 {
        (st, Some(CpuError::NoLine))
    } else {
        cpu_fill(s, tokens_from(s, lines[0].0, lines[0].1), st, 0)
    }
}

impl Cpuinfo {
    /// Nothing read yet, with this many CPUs.
    pub fn new(cpu_count: u8) -> (r: Self)
        ensures
            r.cpu_count == cpu_count,
            r.stats@ == seq![0u64, 0u64, 0u64, 0u64, 0u64, 0u64, 0u64, 0u64],
            r.totald == 0 && r.busy == 0 && r.idle == 0 && r.non_idle == 0,
    {
        Cpuinfo { totald: 0, busy: 0, cpu_count, idle: 0, non_idle: 0, stats: vec![0u64, 0u64, 0u64, 0u64, 0u64, 0u64, 0u64, 0u64] }
    }

    /// Reads `/proc/stat`: replaces the fields its first line gives, then
    /// works out the ticks since the previous reading, in all (`totald`) and
    /// busy (`busy`).
    pub fn update(&mut self, text: &[u8]) -> (r: Result<(), CpuError>)
        requires
            old(self).stats@.len() == 8,
            cpu_update_ok(old(self).stats@, text@),
        ensures
            final(self).stats@ == spec_cpu_read(text@, old(self).stats@).0,
            final(self).cpu_count == old(self).cpu_count,
            r matches Err(e) ==> spec_cpu_read(text@, old(self).stats@).1 == Some(e),
            r is Ok ==> {
                let st = spec_cpu_read(text@, old(self).stats@).0;
                &&& spec_cpu_read(text@, old(self).stats@).1 is None
                &&& final(self).idle == idle_of(st)
                &&& final(self).non_idle == non_idle_of(st)
                &&& final(self).totald == idle_of(st) + non_idle_of(st) - idle_of(old(self).stats@) - non_idle_of(old(self).stats@)
                &&& final(self).busy == non_idle_of(st) - non_idle_of(old(self).stats@)
            },
            r is Ok ==> {
                let n = final(self).stats@;
                let o = old(self).stats@;
                &&& final(self).idle == n[3] + n[4]
                &&& final(self).non_idle == n[0] + n[1] + n[2] + n[5] + n[6] + n[7]
                &&& final(self).busy == (n[0] + n[1] + n[2] + n[5] + n[6] + n[7]) - (o[0] + o[1] + o[2] + o[5] + o[6] + o[7])
                &&& final(self).totald == (n[0] + n[1] + n[2] + n[3] + n[4] + n[5] + n[6] + n[7])
                    - (o[0] + o[1] + o[2] + o[3] + o[4] + o[5] + o[6] + o[7])
            },
    {
        let prev_idle = self.stats[3] + self.stats[4];
        let prev_non_idle = self.stats[0] + self.stats[1] + self.stats[2] + self.stats[5] + self.stats[6] + self.stats[7];
        if let Some(e) = read_stats(text, &mut self.stats) {
            return Err(e);
        }
        self.idle = self.stats[3] + self.stats[4];
        self.non_idle = self.stats[0] + self.stats[1] + self.stats[2] + self.stats[5] + self.stats[6] + self.stats[7];
        self.totald = self.idle + self.non_idle - prev_idle - prev_non_idle;
        self.busy = self.non_idle - prev_non_idle;
        Ok(())
    }

    /// Whether `update` can take in `text` (see `cpu_update_ok`).
    pub fn update_fits(&self, text: &[u8]) -> (r: bool)
        requires
            self.stats@.len() == 8,
        ensures
            r == cpu_update_ok(self.stats@, text@),
    {
        let prev_idle: u128 = self.stats[3] as u128 + self.stats[4] as u128;
        let prev_non_idle: u128 = self.stats[0] as u128 + self.stats[1] as u128 + self.stats[2] as u128
            + self.stats[5] as u128 + self.stats[6] as u128 + self.stats[7] as u128;
        if prev_idle > 0xffff_ffff_ffff_ffff || prev_non_idle > 0xffff_ffff_ffff_ffff {
            return false;
        }
        let mut st: Vec<u64> = vec![
            self.stats[0], self.stats[1], self.stats[2], self.stats[3],
            self.stats[4], self.stats[5], self.stats[6], self.stats[7],
        ];
        assert(st@ == self.stats@);
        if read_stats(text, &mut st).is_some() {
            return true;
        }
        let idle: u128 = st[3] as u128 + st[4] as u128;
        let non_idle: u128 = st[0] as u128 + st[1] as u128 + st[2] as u128 + st[5] as u128 + st[6] as u128 + st[7] as u128;
        idle <= 0xffff_ffff_ffff_ffff && non_idle <= 0xffff_ffff_ffff_ffff && idle + non_idle <= 0xffff_ffff_ffff_ffff
            && idle + non_idle >= prev_idle + prev_non_idle && non_idle >= prev_non_idle
    }
}

/// The readings `st` and `text` can be taken in without overflow: the sums
/// of the last reading and of the new one fit, and neither the ticks in all
/// nor the busy ones went back.
pub open spec fn cpu_update_ok(st: Seq<u64>, text: Seq<u8>) -> bool {
    &&& idle_of(st) <= u64::MAX
    &&& non_idle_of(st) <= u64::MAX
    &&& spec_cpu_read(text, st).1 is None ==> {
        let n = spec_cpu_read(text, st).0;
        &&& idle_of(n) <= u64::MAX
        &&& non_idle_of(n) <= u64::MAX
        &&& idle_of(n) + non_idle_of(n) <= u64::MAX
        &&& idle_of(n) + non_idle_of(n) >= idle_of(st) + non_idle_of(st)
        &&& non_idle_of(n) >= non_idle_of(st)
    }
}

/// Reads the fields of the first line of `/proc/stat` into `st` (see
/// `spec_cpu_read`); the error, if any.
fn read_stats(text: &[u8], st: &mut Vec<u64>) -> (r: Option<CpuError>)
    requires
        old(st)@.len() == 8,
    ensures
        final(st)@.len() == 8,
        (final(st)@, r) == spec_cpu_read(text@, old(st)@),
{
    let lines = split_lines(text);
    proof {
        lemma_lines_bounds(text@);
    }
    if lines.len() == 0 {
        return Some(CpuError::NoLine);
    }
    let (a, b) = lines[0];
    proof {
        assert(ranges(lines@)[0] == (a as int, b as int));
    }
    let toks = split_tokens(text, a, b);
    proof {
        lemma_tokens_bounds(text@, a as int, b as int);
    }
    let ghost t = ranges(toks@);
    let ghost st0 = st@;
    assert(spec_cpu_read(text@, st0) == cpu_fill(text@, t, st0, 0));
    let mut i: usize = 0;
    while i < 8
        invariant
            i <= 8,
            t == ranges(toks@),
            t == tokens_from(text@, a as int, b as int),
            forall|q: int| 0 <= q < t.len() ==> (#[trigger] t[q]).0 <= t[q].1 <= text@.len(),
            st@.len() == 8,
            cpu_fill(text@, t, st@, i as int) == cpu_fill(text@, t, st0, 0),
            spec_cpu_read(text@, old(st)@) == cpu_fill(text@, t, st0, 0),
        ensures
            st@.len() == 8,
            cpu_fill(text@, t, st0, 0) == (st@, None::<CpuError>),
        decreases 8 - i,
    {
        if i + 1 >= toks.len() {
            break;
        }
        let (c, d) = toks[i + 1];
        proof {
            assert(t[i + 1] == (c as int, d as int));
        }
        match parse_u64(text, c, d) {
            Some(v) => {
                st.set(i, v);
            },
            None => {
                proof {
                    assert(cpu_fill(text@, t, st@, i as int) == (st@, Some(CpuError::Field(i))));
                }
                return Some(CpuError::Field(i));
            },
        }
        i = i + 1;
    }
    None
}

} // verus!
