use vstd::prelude::*;
use ahash::AHashMap;
use crate::ui::{
    XY, push_all, move_to, move_to_text, maxstr, spec_maxstr,
    convert_with_padding_proc, spec_convert_proc, lit_blue, lit_green, maxstr_args_ok,
};
use crate::process::Process;
use crate::processes::Processes as ProcessTable;

verus! {

/// The names already built, by PID.
pub uninterp spec fn name_cache(m: AHashMap<u32, Vec<u8>>) -> Map<u32, Seq<u8>>;

/// Calls `AHashMap::default`: an empty cache.
#[verifier::external_body]
fn name_cache_new() -> (r: AHashMap<u32, Vec<u8>>)
    ensures
        name_cache(r).dom().is_empty(),
{
    AHashMap::default()
}

/// Calls `clear` on the cache: it is empty afterwards.
#[verifier::external_body]
fn name_cache_clear(m: &mut AHashMap<u32, Vec<u8>>)
    ensures
        name_cache(*final(m)).dom().is_empty(),
{
    m.clear();
}

/// Calls `get` on the cache.
#[verifier::external_body]
fn name_cache_get(m: &AHashMap<u32, Vec<u8>>, pid: u32) -> (r: Option<&Vec<u8>>)
    ensures
        name_cache(*m).contains_key(pid) ==> r.is_some() && r.unwrap()@ == name_cache(*m)[pid],
        !name_cache(*m).contains_key(pid) ==> r is None,
{
    m.get(&pid)
}

/// Calls `insert` on the cache: the PID maps to the text afterwards, and
/// nothing else changes.
#[verifier::external_body]
fn name_cache_insert(m: &mut AHashMap<u32, Vec<u8>>, pid: u32, v: Vec<u8>)
    ensures
        name_cache(*final(m)) == name_cache(*old(m)).insert(pid, v@),
{
    m.insert(pid, v);
}

/// The fixed text at the start of row `idx`: the cursor there, the row
/// cleared.
pub open spec fn row_start(pos: XY, idx: int) -> Seq<u8> {
    move_to_text((pos.x) as u16, (pos.y + 1 + idx) as u16)
        + seq![27u8, 91u8, 48u8, 75u8]
        + move_to_text((pos.x) as u16, (pos.y + 1 + idx) as u16)
}

/// The widget's title.
pub open spec fn proc_title(pos: XY) -> Seq<u8> {
    move_to_text((pos.x) as u16, (pos.y) as u16)
        + seq![27u8, 91u8, 57u8, 53u8, 109u8, 80u8, 114u8, 111u8, 99u8, 101u8, 115u8, 115u8, 101u8, 115u8, 27u8, 91u8, 48u8, 109u8]
}

/// The memory shown for a process: its PSS in blue when PSS is on and known,
/// else its RSS in green.
pub open spec fn mem_text(p: Process, smaps: bool) -> Seq<u8> {
    if smaps && p.pss != -1 {
        spec_convert_proc(p.pss, lit_blue())
    } else {
        spec_convert_proc(p.rss, lit_green())
    }
}

/// The name part of a process's row: the cached one, or a new one.
pub open spec fn name_text(cache: Map<u32, Seq<u8>>, p: Process, pidlen: usize, maxlen: usize) -> Seq<u8> {
    if cache.contains_key(p.pid) {
        cache[p.pid]
    } else {
        spec_maxstr(p.executable@, p.cmdline@, p.not_executable, p.pid, pidlen, maxlen)
    }
}

/// `maxstr` can be built for this process.
pub open spec fn maxstr_ok(p: Process, pidlen: usize, maxlen: usize) -> bool {
    maxstr_args_ok(p.executable@, p.cmdline@, p.pid, pidlen, maxlen)
}

/// The first `n` rows, and the cache after them: each row is its start,
/// the CPU text, the memory text and the name text, which is cached.
pub open spec fn draw_rows(
    cache: Map<u32, Seq<u8>>,
    starts: Seq<Seq<u8>>,
    cpu: Seq<Seq<u8>>,
    procs: Seq<Process>,
    smaps: bool,
    pidlen: usize,
    maxlen: usize,
    n: int,
) -> (Map<u32, Seq<u8>>, Seq<u8>)
    decreases n,
{
    if n <= 0 {
        (cache, Seq::empty())
    } else {
        let (c, t) = draw_rows(cache, starts, cpu, procs, smaps, pidlen, maxlen, n - 1);
        let p = procs[n - 1];
        let name = name_text(c, p, pidlen, maxlen);
        (c.insert(p.pid, name), t + starts[n - 1] + cpu[n - 1] + mem_text(p, smaps) + name)
    }
}

/// Writes one row: its start, its CPU text, its memory and its name, which
/// comes from the cache when it is there and is kept in it afterwards.
fn draw_row(
    buffer: &mut Vec<u8>,
    cache: &mut AHashMap<u32, Vec<u8>>,
    start: &Vec<u8>,
    cpu: &Vec<u8>,
    p: &Process,
    smaps: bool,
    pidlen: usize,
    maxlen: usize,
)
    requires
        maxstr_ok(*p, pidlen, maxlen),
    ensures
        final(buffer)@ == old(buffer)@ + start@ + cpu@ + mem_text(*p, smaps)
            + name_text(name_cache(*old(cache)), *p, pidlen, maxlen),
        name_cache(*final(cache)) == name_cache(*old(cache)).insert(p.pid, name_text(name_cache(*old(cache)), *p, pidlen, maxlen)),
{
    push_all(buffer, start);
    push_all(buffer, cpu);
    let mut mem: Vec<u8> = Vec::new();
    if smaps && p.pss != -1 {
        convert_with_padding_proc(&mut mem, p.pss, &vec![27u8, 91u8, 57u8, 52u8, 109u8]);
    } else {
        convert_with_padding_proc(&mut mem, p.rss, &vec![27u8, 91u8, 57u8, 50u8, 109u8]);
    }
    push_all(buffer, &mem);
    let name: Vec<u8> = match name_cache_get(cache, p.pid) {
        Some(v) => v.clone(),
        None => maxstr(p.executable.as_slice(), p.cmdline.as_slice(), p.not_executable, p.pid, pidlen, maxlen),
    };
    push_all(buffer, &name);
    name_cache_insert(cache, p.pid, name);
}

/// The process list widget.
pub struct Processes {
    pub pos: XY,
    pub size: XY,
    pub pidlen: usize,
    pub cache1: Vec<Vec<u8>>,
    pub cache2: AHashMap<u32, Vec<u8>>,
}

impl Processes {
    /// The names cached, by PID.
    pub closed spec fn names(&self) -> Map<u32, Seq<u8>> {
        name_cache(self.cache2)
    }

    /// The widget at `pos`, 4 rows tall, with nothing cached.
    pub fn new(pos: XY) -> (r: Self)
        ensures
            r.pos == pos,
            r.size == (XY { x: 0, y: 4 }),
            r.pidlen == 0,
            r.cache1@.len() == 0,
            r.names().dom().is_empty(),
    {
        Processes { pos, size: XY { x: 0, y: 4 }, pidlen: 0, cache1: Vec::new(), cache2: name_cache_new() }
    }

    /// Sizes the list to end three rows above the bottom of the terminal,
    /// builds the start of every row and forgets the cached names.
    pub fn rebuild_cache(&mut self, terminal_size: XY)
        requires
            old(self).pos.x < u16::MAX,
        ensures
            final(self).size.y == (if terminal_size.y >= old(self).pos.y + 3 { terminal_size.y - old(self).pos.y - 3 } else { 0 }),
            final(self).size.x == old(self).size.x,
            final(self).pos == old(self).pos,
            final(self).pidlen == old(self).pidlen,
            final(self).names().dom().is_empty(),
            final(self).cache1@.len() == final(self).size.y,
            forall|i: int| 0 <= i < final(self).size.y ==> (#[trigger] final(self).cache1@[i])@ == row_start(old(self).pos, i),
    {
        name_cache_clear(&mut self.cache2);
        let t = terminal_size.y;
        let a = if t >= self.pos.y { t - self.pos.y } else { 0 };
        self.size.y = if a >= 3 { a - 3 } else { 0 };
        let pos = self.pos;
        let n = self.size.y;
        let mut rows: Vec<Vec<u8>> = Vec::new();
        let mut idx: u16 = 0;
        while idx < n
            invariant
                idx <= n,
                pos.x < u16::MAX,
                n > 0 ==> pos.y + 3 + n <= u16::MAX,
                rows@.len() == idx,
                forall|i: int| 0 <= i < idx ==> (#[trigger] rows@[i])@ == row_start(pos, i),
            decreases n - idx,
        {
            let mut r: Vec<u8> = Vec::new();
            push_all(&mut r, &move_to(pos.x, pos.y + 1 + idx));
            push_all(&mut r, &vec![27u8, 91u8, 48u8, 75u8]);
            push_all(&mut r, &move_to(pos.x, pos.y + 1 + idx));
            rows.push(r);
            idx = idx + 1;
        }
        self.cache1 = rows;
    }

    /// Writes the widget's title.
    pub fn draw_static(&self, buffer: &mut Vec<u8>)
        requires
            self.pos.x < u16::MAX,
            self.pos.y < u16::MAX,
        ensures
            final(buffer)@ == old(buffer)@ + proc_title(self.pos),
    {
        let pos = self.pos;
        push_all(buffer, &move_to(pos.x, pos.y));
        push_all(buffer, &vec![27u8, 91u8, 57u8, 53u8, 109u8, 80u8, 114u8, 111u8, 99u8, 101u8, 115u8, 115u8, 101u8, 115u8, 27u8, 91u8, 48u8, 109u8]);
    }

    /// Draws the processes of `list` (sorted, from `cpu_sort`) that fit,
    /// one a row: the row's start, its CPU text from `cpu`, its memory and
    /// its name, which is kept for the next frames; the names kept are
    /// forgotten when the longest PID grew. The name is cut to what is
    /// left of the terminal's width after the list's column and 19 more.
    #[verifier::rlimit(40)]
    #[verifier::spinoff_prover]
    pub fn draw(&mut self, buffer: &mut Vec<u8>, table: &ProcessTable, list: &Vec<u32>, pidlen: usize, smaps: bool, terminal_size: XY, cpu: &Vec<Vec<u8>>)
        requires
            terminal_size.x >= old(self).pos.x + 19,
            cpu@.len() == list@.len(),
            old(self).cache1@.len() >= old(self).size.y,
            forall|i: int| 0 <= i < list@.len() ==> table.table().contains_key(#[trigger] list@[i]),
            forall|i: int| 0 <= i < list@.len() ==>
                maxstr_ok(table.table()[#[trigger] list@[i]], pidlen, (terminal_size.x - old(self).pos.x - 19) as usize),
            forall|pid: u32| #[trigger] table.table().contains_key(pid) ==> table.table()[pid].pid == pid,
        ensures
            ({
                let n = if list@.len() < old(self).size.y { list@.len() as int } else { old(self).size.y as int };
                let start = if pidlen > old(self).pidlen { Map::<u32, Seq<u8>>::empty() } else { old(self).names() };
                let (c, t) = draw_rows(
                    start,
                    old(self).cache1@.map_values(|v: Vec<u8>| v@),
                    cpu@.map_values(|v: Vec<u8>| v@),
                    list@.map_values(|pid: u32| table.table()[pid]),
                    smaps,
                    pidlen,
                    (terminal_size.x - old(self).pos.x - 19) as usize,
                    n,
                );
                &&& final(buffer)@ == old(buffer)@ + t
                &&& final(self).names() =~= c
            }),
            final(self).pidlen == if pidlen > old(self).pidlen { pidlen } else { old(self).pidlen },
            final(self).pos == old(self).pos,
            final(self).size == old(self).size,
            final(self).cache1 == old(self).cache1,
    {
        if pidlen > self.pidlen {
            self.pidlen = pidlen;
            name_cache_clear(&mut self.cache2);
            assert(self.names() =~= Map::<u32, Seq<u8>>::empty());
        }
        let max_length = (terminal_size.x - self.pos.x - 19) as usize;
        let n: usize = if list.len() < self.size.y as usize { list.len() } else { self.size.y as usize };
        let ghost start = self.names();
        let ghost starts = self.cache1@.map_values(|v: Vec<u8>| v@);
        let ghost cpus = cpu@.map_values(|v: Vec<u8>| v@);
        let ghost procs = list@.map_values(|pid: u32| table.table()[pid]);
        let ghost fields = (self.pidlen, self.pos, self.size);
        let mut idx: usize = 0;
        while idx < n
            invariant
                (self.pidlen, self.pos, self.size) == fields,
                fields.0 == if pidlen > old(self).pidlen { pidlen } else { old(self).pidlen },
                fields.1 == old(self).pos,
                fields.2 == old(self).size,
                self.cache1 == old(self).cache1,
                idx <= n <= list@.len(),
                n <= self.cache1@.len(),
                cpu@.len() == list@.len(),
                starts == self.cache1@.map_values(|v: Vec<u8>| v@),
                cpus == cpu@.map_values(|v: Vec<u8>| v@),
                procs == list@.map_values(|pid: u32| table.table()[pid]),
                forall|i: int| 0 <= i < list@.len() ==> table.table().contains_key(#[trigger] list@[i]),
                forall|i: int| 0 <= i < list@.len() ==> maxstr_ok(table.table()[#[trigger] list@[i]], pidlen, max_length),
                forall|pid: u32| #[trigger] table.table().contains_key(pid) ==> table.table()[pid].pid == pid,
                ({
                    let (c, t) = draw_rows(start, starts, cpus, procs, smaps, pidlen, max_length, idx as int);
                    &&& buffer@ == old(buffer)@ + t
                    &&& self.names() == c
                }),
            decreases n - idx,
        {
            let pid = list[idx];
            let p = match table.get(pid) {
                Some(p) => p,
                None => {
                    proof {
                        assert(table.table().contains_key(list@[idx as int]));
                    }
                    return;
                },
            };
            proof {
                assert(procs[idx as int] == *p);
                assert(starts[idx as int] == self.cache1@[idx as int]@);
                assert(cpus[idx as int] == cpu@[idx as int]@);
                assert(maxstr_ok(table.table()[list@[idx as int]], pidlen, max_length));
            }
            let ghost c0 = self.names();
            draw_row(buffer, &mut self.cache2, &self.cache1[idx], &cpu[idx], p, smaps, pidlen, max_length);
            proof {
                assert(p.pid == pid);
            }
            idx = idx + 1;
        }
    }
}

} // verus!
