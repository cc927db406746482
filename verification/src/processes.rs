use vstd::prelude::*;
use ahash::{AHashMap, AHashSet, RandomState};
use vstd::slice::slice_subrange;
use crate::process::{Process, btou_u64, StatError, SmapsError, spec_stat_numbers, spec_smaps_value, stat_updated, stat_ok, smaps_ok};
use crate::text::{spec_btou, all_digits, digits_value};
use crate::uring::Uring;

verus! {

#[verifier::external_type_specification]
#[verifier::external_body]
pub struct ExRandomState(RandomState);

#[verifier::external_type_specification]
#[verifier::external_body]
#[verifier::reject_recursive_types(K)]
#[verifier::reject_recursive_types(V)]
#[verifier::reject_recursive_types(S)]
pub struct ExAHashMap<K, V, S>(AHashMap<K, V, S>);

#[verifier::external_type_specification]
#[verifier::external_body]
#[verifier::reject_recursive_types(T)]
#[verifier::reject_recursive_types(S)]
pub struct ExAHashSet<T, S>(AHashSet<T, S>);

/// What the process table holds, by PID.
pub uninterp spec fn table_contents(m: AHashMap<u32, Process>) -> Map<u32, Process>;

/// The PIDs in the ignore set.
pub uninterp spec fn ignored_contents(s: AHashSet<u32>) -> Set<u32>;

/// Calls `AHashMap::default`: an empty table.
#[verifier::external_body]
fn table_new() -> (r: AHashMap<u32, Process>)
    ensures
        table_contents(r).dom().is_empty(),
{
    AHashMap::default()
}

/// Calls `AHashSet::default`: an empty set.
#[verifier::external_body]
fn ignored_new() -> (r: AHashSet<u32>)
    ensures
        ignored_contents(r).is_empty(),
{
    AHashSet::default()
}


/// Calls `clear` on the table: it is empty afterwards.
#[verifier::external_body]
fn table_clear(m: &mut AHashMap<u32, Process>)
    ensures
        table_contents(*final(m)).dom().is_empty(),
{
    m.clear();
}

/// Calls `contains_key` on the table.
#[verifier::external_body]
fn table_contains(m: &AHashMap<u32, Process>, pid: u32) -> (r: bool)
    ensures
        r == table_contents(*m).contains_key(pid),
{
    m.contains_key(&pid)
}

/// Calls `insert` on the table: the PID maps to the process afterwards, and
/// nothing else changes.
#[verifier::external_body]
fn table_insert(m: &mut AHashMap<u32, Process>, pid: u32, p: Process)
    ensures
        table_contents(*final(m)) == table_contents(*old(m)).insert(pid, p),
{
    m.insert(pid, p);
}

/// Calls `remove` on the table: the PID's entry goes, and is handed back
/// when there was one.
#[verifier::external_body]
fn table_remove(m: &mut AHashMap<u32, Process>, pid: u32) -> (r: Option<Process>)
    ensures
        table_contents(*final(m)) == table_contents(*old(m)).remove(pid),
        table_contents(*old(m)).contains_key(pid) ==> r == Some(table_contents(*old(m))[pid]),
        !table_contents(*old(m)).contains_key(pid) ==> r is None,
{
    m.remove(&pid)
}

/// Calls `len` on the table: the number of entries.
#[verifier::external_body]
fn table_len(m: &AHashMap<u32, Process>) -> (r: usize)
    ensures
        r == table_contents(*m).dom().len(),
{
    m.len()
}

/// Calls `get` on the table.
#[verifier::external_body]
fn table_get(m: &AHashMap<u32, Process>, pid: u32) -> (r: Option<&Process>)
    ensures
        table_contents(*m).contains_key(pid) ==> r == Some(&table_contents(*m)[pid]),
        !table_contents(*m).contains_key(pid) ==> r is None,
{
    m.get(&pid)
}

/// Walks the table's keys (`keys`), in the map's own order, which nothing
/// fixes: each PID of the table comes once, and nothing else.
#[verifier::external_body]
fn table_pids(m: &AHashMap<u32, Process>) -> (r: Vec<u32>)
    ensures
        r@.no_duplicates(),
        forall|pid: u32| r@.contains(pid) <==> table_contents(*m).contains_key(pid),
{
    m.keys().map(|k| *k).collect()
}

/// Calls `clear` on the ignore set: it is empty afterwards.
#[verifier::external_body]
fn ignored_clear(s: &mut AHashSet<u32>)
    ensures
        ignored_contents(*final(s)).is_empty(),
{
    s.clear();
}

/// Calls `contains` on the ignore set.
#[verifier::external_body]
fn ignored_contains(s: &AHashSet<u32>, pid: u32) -> (r: bool)
    ensures
        r == ignored_contents(*s).contains(pid),
{
    s.contains(&pid)
}

/// Calls `insert` on the ignore set: the PID is in it afterwards, and
/// nothing else changes.
#[verifier::external_body]
fn ignored_insert(s: &mut AHashSet<u32>, pid: u32)
    ensures
        ignored_contents(*final(s)) == ignored_contents(*old(s)).insert(pid),
{
    s.insert(pid);
}

/// The ordering key of a process: work, then total ticks, then PID.
pub open spec fn load_key(t: Map<u32, Process>, pid: u32) -> (u64, u64, u32) {
    (t[pid].work, t[pid].total, pid)
}

/// `a` comes no later than `b` when sorting by work, then total ticks, both
/// from most to least.
pub open spec fn ranks_before(a: (u64, u64, u32), b: (u64, u64, u32)) -> bool {
    a.0 > b.0 || (a.0 == b.0 && a.1 >= b.1)
}

/// Of two processes, the one that did more work since the last reading
/// comes first; of two that did the same work, the one with more ticks in
/// all comes first; two with the same work and ticks may come in either
/// order.
pub proof fn law_more_load_first(a: (u64, u64, u32), b: (u64, u64, u32))
    ensures
        a.0 > b.0 ==> ranks_before(a, b) && !ranks_before(b, a),
        a.0 == b.0 && a.1 > b.1 ==> ranks_before(a, b) && !ranks_before(b, a),
        a.0 == b.0 && a.1 == b.1 ==> ranks_before(a, b) && ranks_before(b, a),
{
}

/// The keys in `s` are sorted by `ranks_before`.
pub open spec fn sorted_by_load(s: Seq<(u64, u64, u32)>) -> bool {
    forall|i: int, j: int| 0 <= i < j < s.len() ==> ranks_before(#[trigger] s[i], #[trigger] s[j])
}

/// Sorts the keys by work, then total ticks, from most to least; keys that
/// tie keep their order.
fn sort_by_load(input: &Vec<(u64, u64, u32)>) -> (res: Vec<(u64, u64, u32)>)
    requires
        input@.no_duplicates(),
    ensures
        res@.no_duplicates(),
        res@.len() == input@.len(),
        forall|x: (u64, u64, u32)| res@.contains(x) <==> input@.contains(x),
        sorted_by_load(res@),
{
    let mut res: Vec<(u64, u64, u32)> = Vec::new();
    let n = input.len();
    let mut i: usize = 0;
    while i < n
        invariant
            n == input@.len(),
            i <= n,
            input@.no_duplicates(),
            res@.no_duplicates(),
            res@.len() == i,
            forall|x: (u64, u64, u32)| res@.contains(x) <==> input@.take(i as int).contains(x),
            sorted_by_load(res@),
        decreases n - i,
    {
        let x = input[i];
        let mut k: usize = 0;
        while k < res.len() && (res[k].0 > x.0 || (res[k].0 == x.0 && res[k].1 >= x.1))
            invariant
                k <= res@.len(),
                forall|q: int| 0 <= q < k ==> ranks_before(#[trigger] res@[q], x),
            decreases res@.len() - k,
        {
            k = k + 1;
        }
        proof {
            assert(!input@.take(i as int).contains(x)) by {
                if input@.take(i as int).contains(x) {
                    let q = choose|q: int| 0 <= q < i && input@.take(i as int)[q] == x;
                    assert(input@[q] == input@[i as int]);
                }
            }
            assert(input@.take(i + 1) == input@.take(i as int).push(x));
        }
        let ghost old_res = res@;
        res.insert(k, x);
        proof {
            assert(res@ == old_res.insert(k as int, x));
            assert forall|y: (u64, u64, u32)| res@.contains(y) <==> input@.take(i + 1).contains(y) by {
                if res@.contains(y) {
                    let q = choose|q: int| 0 <= q < res@.len() && res@[q] == y;
                    if q < k {
                        assert(old_res[q] == y);
                    } else if q > k {
                        assert(old_res[q - 1] == y);
                    }
                }
                if old_res.contains(y) {
                    let q = choose|q: int| 0 <= q < old_res.len() && old_res[q] == y;
                    if q < k {
                        assert(res@[q] == y);
                    } else {
                        assert(res@[q + 1] == y);
                    }
                }
                if y == x {
                    assert(res@[k as int] == x);
                    assert(input@.take(i + 1)[i as int] == x);
                }
                let t = input@.take(i as int);
                let t1 = input@.take(i + 1);
                if t1.contains(y) {
                    let q = choose|q: int| 0 <= q < t1.len() && t1[q] == y;
                    if q < i {
                        assert(t[q] == y);
                    }
                }
                if t.contains(y) {
                    let q = choose|q: int| 0 <= q < t.len() && t[q] == y;
                    assert(t1[q] == y);
                }
            }
            assert forall|a: int, b: int| 0 <= a < b < res@.len() implies res@[a] != res@[b] by {
                if a < k && b > k {
                    assert(old_res[a] != old_res[b - 1]);
                } else if a < k && b < k {
                } else if a > k {
                    assert(old_res[a - 1] != old_res[b - 1]);
                } else if a == k {
                    assert(old_res.contains(res@[b]));
                } else {
                    assert(old_res.contains(res@[a]));
                }
            }
            assert(res@.no_duplicates());
            assert forall|a: int, b: int| 0 <= a < b < res@.len() implies ranks_before(#[trigger] res@[a], #[trigger] res@[b]) by {
                if b == k {
                    assert(ranks_before(old_res[a], x));
                } else if a == k {
                    // res[b] is old_res[b - 1], which is at or after old_res[k], which does not rank before x
                    let c = old_res[b - 1];
                    assert(!ranks_before(old_res[k as int], x));
                    if b - 1 > k {
                        assert(ranks_before(old_res[k as int], c));
                    }
                } else if a < k && b > k {
                    assert(ranks_before(old_res[a], old_res[b - 1]));
                } else if a > k {
                    assert(ranks_before(old_res[a - 1], old_res[b - 1]));
                }
            }
        }
        i = i + 1;
    }
    proof {
        assert(input@.take(n as int) == input@);
    }
    res
}

/// The record length stored at `pos` (little-endian, two bytes at offset 16).
pub open spec fn reclen_at(s: Seq<u8>, pos: int) -> int {
    s[pos + 16] as int + s[pos + 17] as int * 256
}

/// The first position at or after `i` that holds a zero byte, or the length.
pub open spec fn next_zero(s: Seq<u8>, i: int) -> int
    decreases s.len() - i,
{
    if i >= s.len() {
        s.len() as int
    } else if s[i] == 0 {
        i
    } else {
        next_zero(s, i + 1)
    }
}

proof fn lemma_next_zero(s: Seq<u8>, i: int)
    requires
        0 <= i <= s.len(),
    ensures
        i <= next_zero(s, i) <= s.len(),
        next_zero(s, i) < s.len() ==> s[next_zero(s, i)] == 0,
        forall|k: int| i <= k < next_zero(s, i) ==> s[k] != 0,
    decreases s.len() - i,
{
    if i < s.len() && s[i] != 0 {
        lemma_next_zero(s, i + 1);
    }
}

/// The records from `pos` on are what `getdents64` writes: each header
/// fits, each record length is positive, and each directory's name ends
/// with a zero byte inside the buffer and inside its 4096-byte name field.
pub open spec fn dirents_wf(s: Seq<u8>, pos: int) -> bool
    decreases s.len() - pos,
{
    if pos < 0 || pos >= s.len() {
        true
    } else if pos + 19 > s.len() || reclen_at(s, pos) <= 0 {
        false
    } else {
        &&& s[pos + 18] == 4 ==> next_zero(s, pos + 19) < s.len() && next_zero(s, pos + 19) < pos + 19 + 4096
        &&& pos + reclen_at(s, pos) < s.len() ==> dirents_wf(s, pos + reclen_at(s, pos))
    }
}

/// The names (as ranges) of the directories among the records from `pos` on.
pub open spec fn dir_names_from(s: Seq<u8>, pos: int) -> Seq<(int, int)>
    decreases s.len() - pos,
{
    if pos < 0 || pos >= s.len() || pos + 19 > s.len() || reclen_at(s, pos) <= 0 {
        Seq::empty()
    } else {
        let rest = if pos + reclen_at(s, pos) < s.len() {
            dir_names_from(s, pos + reclen_at(s, pos))
        } else {
            Seq::empty()
        };
        if s[pos + 18] == 4 {
            seq![(pos + 19, next_zero(s, pos + 19))] + rest
        } else {
            rest
        }
    }
}

/// The names, as ranges, of the directories in a `getdents64` buffer, in
/// order.
pub fn dir_entries(buf: &[u8]) -> (r: Vec<(usize, usize)>)
    requires
        dirents_wf(buf@, 0),
    ensures
        r@.map_values(|p: (usize, usize)| (p.0 as int, p.1 as int)) == dir_names_from(buf@, 0),
{
    let n = buf.len();
    let mut res: Vec<(usize, usize)> = Vec::new();
    let mut bpos: usize = 0;
    while bpos < n
        invariant
            n == buf@.len(),
            bpos <= n,
            dirents_wf(buf@, bpos as int),
            res@.map_values(|p: (usize, usize)| (p.0 as int, p.1 as int)) + dir_names_from(buf@, bpos as int)
                == dir_names_from(buf@, 0),
        decreases n - bpos,
    {
        let reclen = buf[bpos + 16] as usize + buf[bpos + 17] as usize * 256;
        let ghost old_res = res@;
        let ghost here = bpos as int;
        if buf[bpos + 18] == 4 {
            let start = bpos + 19;
            let mut end = start;
            proof {
                lemma_next_zero(buf@, start as int);
            }
            while buf[end] != 0
                invariant
                    n == buf@.len(),
                    start <= end < n,
                    next_zero(buf@, start as int) < n,
                    next_zero(buf@, end as int) == next_zero(buf@, start as int),
                decreases n - end,
            {
                end = end + 1;
                proof {
                    lemma_next_zero(buf@, end as int);
                }
            }
            res.push((start, end));
            proof {
                assert(res@.map_values(|p: (usize, usize)| (p.0 as int, p.1 as int))
                    == old_res.map_values(|p: (usize, usize)| (p.0 as int, p.1 as int)).push((start as int, end as int)));
            }
        }
        if reclen >= n - bpos {
            bpos = n;
        } else {
            bpos = bpos + reclen;
        }
        proof {
            assert(dir_names_from(buf@, bpos as int) == dir_names_from(buf@, here + reclen_at(buf@, here)));
        }
    }
    res
}

/// Whether `buf` holds records the way `getdents64` writes them (see
/// `dirents_wf`).
pub fn dirents_fit(buf: &[u8]) -> (r: bool)
    ensures
        r == dirents_wf(buf@, 0),
{
    let n = buf.len();
    let mut bpos: usize = 0;
    while bpos < n
        invariant
            n == buf@.len(),
            bpos <= n,
            dirents_wf(buf@, bpos as int) == dirents_wf(buf@, 0),
        decreases n - bpos,
    {
        if n - bpos < 19 {
            return false;
        }
        let reclen = buf[bpos + 16] as usize + buf[bpos + 17] as usize * 256;
        if reclen == 0 {
            return false;
        }
        if buf[bpos + 18] == 4 {
            let start = bpos + 19;
            let mut end = start;
            proof {
                lemma_next_zero(buf@, start as int);
            }
            while end < n && buf[end] != 0
                invariant
                    n == buf@.len(),
                    start <= end <= n,
                    next_zero(buf@, end as int) == next_zero(buf@, start as int),
                decreases n - end,
            {
                end = end + 1;
            }
            if end >= n || end - start >= 4096 {
                return false;
            }
        }
        if reclen >= n - bpos {
            return true;
        }
        bpos = bpos + reclen;
    }
    true
}

/// `btoi::btou::<u32>`: one or more digits, no sign, at most `u32::MAX`.
pub open spec fn spec_btou_u32(s: Seq<u8>) -> Option<u32> {
    match spec_btou(s) {
        Some(v) => if v <= u32::MAX { Some(v as u32) } else { None },
        None => None,
    }
}

/// The number of decimal digits that write `n`.
pub open spec fn pid_len(n: nat) -> nat
    decreases n,
{
    if n < 10 { 1 } else { 1 + pid_len(n / 10) }
}

/// A number written with some digits has no more digits than were written.
proof fn lemma_pid_len_le(s: Seq<u8>)
    requires
        s.len() > 0,
        all_digits(s),
    ensures
        pid_len(digits_value(s)) <= s.len(),
    decreases s.len(),
{
    let t = s.drop_last();
    let d: nat = (s.last() - 48) as nat;
    assert(crate::text::is_digit(s[s.len() - 1]));
    assert(d < 10);
    if s.len() == 1 {
        assert(digits_value(t) == 0);
        assert(digits_value(s) == d);
    } else {
        assert forall|k: int| 0 <= k < t.len() implies crate::text::is_digit(#[trigger] t[k]) by {
            assert(t[k] == s[k]);
        }
        lemma_pid_len_le(t);
        let v = digits_value(t);
        assert(digits_value(s) == v * 10 + d);
        if digits_value(s) >= 10 {
            assert((v * 10 + d) / 10 == v) by (nonlinear_arith)
                requires d < 10;
        }
    }
}

/// The PID that a directory name of `/proc` writes, if it is one; it has no
/// more digits than the name has bytes.
pub fn pid_of(buf: &[u8], a: usize, b: usize) -> (r: Option<u32>)
    requires
        a <= b <= buf@.len(),
    ensures
        r == spec_btou_u32(buf@.subrange(a as int, b as int)),
        r matches Some(pid) ==> pid_len(pid as nat) <= b - a,
{
    proof {
        let s = buf@.subrange(a as int, b as int);
        if spec_btou(s) is Some {
            lemma_pid_len_le(s);
        }
    }
    match btou_u64(slice_subrange(buf, a, b)) {
        Some(v) => if v <= 0xffff_ffff { Some(v as u32) } else { None },
        None => None,
    }
}

/// A byte that separates the words of a command line here: zero or space.
pub open spec fn is_arg_sep(b: u8) -> bool {
    b == 0 || b == 32
}

/// The first separator at or after `i`, or the length.
pub open spec fn next_sep(s: Seq<u8>, i: int) -> int
    decreases s.len() - i,
{
    if i >= s.len() {
        s.len() as int
    } else if is_arg_sep(s[i]) {
        i
    } else {
        next_sep(s, i + 1)
    }
}

proof fn lemma_next_sep(s: Seq<u8>, i: int)
    requires
        0 <= i <= s.len(),
    ensures
        i <= next_sep(s, i) <= s.len(),
        next_sep(s, i) < s.len() ==> is_arg_sep(s[next_sep(s, i)]),
    decreases s.len() - i,
{
    if i < s.len() && !is_arg_sep(s[i]) {
        lemma_next_sep(s, i + 1);
    }
}

/// The position just after the last `/` before `d`, or 0.
pub open spec fn after_last_slash(s: Seq<u8>, d: int) -> int
    decreases d,
{
    if d <= 0 {
        0
    } else if s[d - 1] == 47 {
        d
    } else {
        after_last_slash(s, d - 1)
    }
}

proof fn lemma_after_last_slash(s: Seq<u8>, d: int)
    requires
        0 <= d <= s.len(),
    ensures
        0 <= after_last_slash(s, d) <= d,
    decreases d,
{
    if d > 0 && s[d - 1] != 47 {
        lemma_after_last_slash(s, d - 1);
    }
}

/// The program name of a command line: its first word (words end at a zero
/// byte or a space), from its last `/` on.
pub open spec fn spec_executable(s: Seq<u8>) -> Seq<u8> {
    let d = next_sep(s, 0);
    s.subrange(after_last_slash(s, d), d)
}

/// The arguments of a command line: the words after the first, joined by
/// single spaces; that is, what follows the first separator with each zero
/// byte turned into a space.
pub open spec fn spec_arguments(s: Seq<u8>) -> Seq<u8> {
    let d = next_sep(s, 0);
    if d < s.len() {
        s.subrange(d + 1, s.len() as int).map_values(|b: u8| if b == 0 { 32u8 } else { b })
    } else {
        Seq::empty()
    }
}

/// Splits the contents of `/proc/[pid]/cmdline` into the program name and
/// its arguments.
pub fn split_cmdline(s: &[u8]) -> (r: (Vec<u8>, Vec<u8>))
    ensures
        r.0@ == spec_executable(s@),
        r.1@ == spec_arguments(s@),
{
    let n = s.len();
    let mut d: usize = 0;
    while d < n && !(s[d] == 0 || s[d] == 32)
        invariant
            n == s@.len(),
            d <= n,
            next_sep(s@, 0) == next_sep(s@, d as int),
        decreases n - d,
    {
        d = d + 1;
    }
    let mut a: usize = d;
    while a > 0 && s[a - 1] != 47
        invariant
            n == s@.len(),
            a <= d <= n,
            after_last_slash(s@, d as int) == after_last_slash(s@, a as int),
        decreases a,
    {
        a = a - 1;
    }
    let mut exe: Vec<u8> = Vec::new();
    let mut k: usize = a;
    while k < d
        invariant
            n == s@.len(),
            a <= k <= d <= n,
            exe@ == s@.subrange(a as int, k as int),
        decreases d - k,
    {
        exe.push(s[k]);
        proof {
            assert(s@.subrange(a as int, k + 1) == s@.subrange(a as int, k as int).push(s@[k as int]));
        }
        k = k + 1;
    }
    let mut args: Vec<u8> = Vec::new();
    if d < n {
        let mut k: usize = d + 1;
        while k < n
            invariant
                n == s@.len(),
                d < n,
                d + 1 <= k <= n,
                args@ == s@.subrange(d + 1, k as int).map_values(|b: u8| if b == 0 { 32u8 } else { b }),
            decreases n - k,
        {
            let b = s[k];
            args.push(if b == 0 { 32u8 } else { b });
            proof {
                assert(s@.subrange(d + 1, k + 1) == s@.subrange(d + 1, k as int).push(b));
                assert(s@.subrange(d + 1, k + 1).map_values(|b: u8| if b == 0 { 32u8 } else { b })
                    == s@.subrange(d + 1, k as int).map_values(|b: u8| if b == 0 { 32u8 } else { b }).push(if b == 0 { 32u8 } else { b }));
            }
            k = k + 1;
        }
    }
    (exe, args)
}

/// The first position of byte `c` in `s`, if any.
pub open spec fn find_byte(s: Seq<u8>, c: u8, i: int) -> Option<int>
    decreases s.len() - i,
{
    if i < 0 || i >= s.len() {
        None
    } else if s[i] == c {
        Some(i)
    } else {
        find_byte(s, c, i + 1)
    }
}

fn find_first(s: &[u8], c: u8) -> (r: Option<usize>)
    ensures
        r matches Some(k) ==> find_byte(s@, c, 0) == Some(k as int) && k < s@.len(),
        r is None ==> find_byte(s@, c, 0) is None,
{
    let n = s.len();
    let mut k: usize = 0;
    while k < n
        invariant
            n == s@.len(),
            k <= n,
            find_byte(s@, c, 0) == find_byte(s@, c, k as int),
        decreases n - k,
    {
        if s[k] == c {
            return Some(k);
        }
        k = k + 1;
    }
    None
}

/// The name that a stat line gives a process: from its first `(` up to (not
/// including) its first `)`; the `(` is kept.
pub open spec fn spec_stat_name(s: Seq<u8>) -> Option<Seq<u8>> {
    match (find_byte(s, 40, 0), find_byte(s, 41, 0)) {
        (Some(a), Some(b)) => Some(s.subrange(a, b)),
        _ => None,
    }
}

proof fn lemma_find_byte(s: Seq<u8>, c: u8, i: int)
    requires
        0 <= i,
    ensures
        find_byte(s, c, i) matches Some(k) ==> i <= k < s.len(),
    decreases s.len() - i,
{
    if 0 <= i < s.len() && s[i] != c {
        lemma_find_byte(s, c, i + 1);
    }
}

/// Reads a process's name from its stat line; an error when it has no `(`
/// or no `)`.
pub fn stat_executable(s: &[u8]) -> (r: Result<Vec<u8>, ()>)
    requires
        (find_byte(s@, 40, 0), find_byte(s@, 41, 0)) matches (Some(a), Some(b)) ==> a <= b,
    ensures
        r matches Ok(v) ==> spec_stat_name(s@) == Some(v@),
        r is Err <==> spec_stat_name(s@) is None,
{
    let a = match find_first(s, 40) {
        Some(a) => a,
        None => { return Err(()); },
    };
    let b = match find_first(s, 41) {
        Some(b) => b,
        None => { return Err(()); },
    };
    let mut v: Vec<u8> = Vec::new();
    let mut k: usize = a;
    while k < b
        invariant
            a <= k <= b < s@.len(),
            v@ == s@.subrange(a as int, k as int),
        decreases b - k,
    {
        v.push(s[k]);
        proof {
            assert(s@.subrange(a as int, k + 1) == s@.subrange(a as int, k as int).push(s@[k as int]));
        }
        k = k + 1;
    }
    Ok(v)
}

/// What becomes of a new PID once its command line has been read.
pub enum Admission {
    /// A program: added with this name and these arguments.
    Program { executable: Vec<u8>, cmdline: Vec<u8> },
    /// No command line (a kernel thread, or PID 1) while all processes are
    /// shown: its stat line gives its name.
    ReadStat,
    /// No command line while only programs are shown: ignored from now on.
    Ignored,
}

/// What a completion did to the table.
pub enum Completion {
    /// Its process is no longer in the table, or its read failed on `smaps`.
    Skipped,
    /// The PSS was read.
    SmapsRead,
    /// The stat read failed: the process has gone and was removed.
    Removed,
    /// The stat line was read; the process has used `work` ticks of `total`.
    StatRead { work: u64, total: u64 },
}

/// Why a completion could not be taken in.
pub enum CompletionError {
    /// The stat line could not be read; the process was removed.
    Stat(StatError),
    /// The `smaps_rollup` file could not be read.
    Smaps(SmapsError),
}

/// What a process table keeps from scan to scan, in the mode `all` (all
/// processes shown or not) and with `maxpidlen` as its longest PID length:
/// - with only programs shown, it holds neither PID 1 nor a process without
///   a command line (a kernel thread);
/// - every process in it holds its stat file open;
/// - `maxpidlen` covers the digits of every PID in it.
pub open spec fn table_inv(t: Map<u32, Process>, all: bool, maxpidlen: usize) -> bool {
    &&& !all ==> forall|pid: u32| #[trigger] t.contains_key(pid) ==> pid != 1 && !t[pid].not_executable
    &&& forall|pid: u32| #[trigger] t.contains_key(pid) ==> t[pid].stat_fd >= 0
    &&& forall|pid: u32| #[trigger] t.contains_key(pid) ==> pid_len(pid as nat) <= maxpidlen
}

/// A process may join a table in mode `all` with longest PID length
/// `maxpidlen`: its stat file is open, its PID fits in that length, and when
/// only programs are shown it is one, other than PID 1.
pub open spec fn may_join(p: Process, all: bool, maxpidlen: usize) -> bool {
    &&& p.stat_fd >= 0
    &&& pid_len(p.pid as nat) <= maxpidlen
    &&& !all ==> p.pid != 1 && !p.not_executable
}

/// Replacing a process by one with the same PID, kind and stat file keeps
/// the table's invariant; so does removing one, or filing a process that may
/// join it under its own PID.
proof fn lemma_table_inv_steps(t: Map<u32, Process>, all: bool, m: usize, pid: u32, q: Process)
    requires
        table_inv(t, all, m),
    ensures
        table_inv(t.remove(pid), all, m),
        t.contains_key(pid) && q.not_executable == t[pid].not_executable && q.stat_fd == t[pid].stat_fd
            ==> table_inv(t.insert(pid, q), all, m),
        q.pid == pid && may_join(q, all, m) ==> table_inv(t.insert(pid, q), all, m),
{
    assert forall|k: u32| #[trigger] t.remove(pid).contains_key(k) implies t.contains_key(k) by {}
}

/// A table in a larger PID length keeps its invariant.
proof fn lemma_table_inv_longer(t: Map<u32, Process>, all: bool, m: usize, m2: usize)
    requires
        table_inv(t, all, m),
        m <= m2,
    ensures
        table_inv(t, all, m2),
{
}

/// A process just filed under `pid`, with its stat file open as `stat_fd`:
/// nothing read yet, and no `smaps_rollup` descriptor.
pub open spec fn fresh_process(q: Process, pid: u32, stat_fd: i32) -> bool {
    &&& q.pid == pid
    &&& q.stat_fd == stat_fd
    &&& q.smaps_fd == 0
    &&& q.pss == -1
    &&& q.rss == 0
    &&& q.work == 0
    &&& q.total == 0
    &&& q.utime == 0 && q.stime == 0 && q.cutime == 0 && q.cstime == 0
}

/// No process in the table holds a `smaps_rollup` descriptor.
pub open spec fn no_pss_fds(t: Map<u32, Process>) -> bool {
    forall|pid: u32| #[trigger] t.contains_key(pid) ==> t[pid].smaps_fd <= 0
}

/// `begin_update(all)` took the table from `a` to `b`: `b` is in mode `all`
/// with the same longest PID length; a change of mode dropped every process
/// first; and `b` keeps the table's promises when `a` did, or when it was
/// emptied.
pub open spec fn scan_begin(a: Processes, b: Processes, all: bool) -> bool {
    &&& b.rebuild == all
    &&& b.maxpidlen == a.maxpidlen
    &&& all != a.rebuild ==> b.table().dom().is_empty()
    &&& a.scan_inv() || all != a.rebuild ==> b.scan_inv()
    &&& no_pss_fds(a.table()) ==> no_pss_fds(b.table())
}

/// One later step of a scan took the table from `a` to `b`: the mode stays,
/// the longest PID length does not shrink, the table's promises are kept,
/// and unless the step may open a `smaps_rollup` file (`smaps`), a table
/// without such descriptors stays without.
pub open spec fn scan_step(a: Processes, b: Processes, smaps: bool) -> bool {
    &&& b.rebuild == a.rebuild
    &&& b.maxpidlen >= a.maxpidlen
    &&& a.scan_inv() ==> b.scan_inv()
    &&& !smaps ==> (no_pss_fds(a.table()) ==> no_pss_fds(b.table()))
}

/// The step from `states[i]` to `states[i + 1]` is one of a scan's.
pub open spec fn step_at(states: Seq<Processes>, i: int, smaps: bool) -> bool {
    scan_step(states[i], states[i + 1], smaps)
}

proof fn lemma_scan_prefix(states: Seq<Processes>, all: bool, smaps: bool, d: int, k: int)
    requires
        1 <= k < states.len(),
        states[1].rebuild == all,
        states[1].scan_inv(),
        forall|i: int| 1 <= i < states.len() - 1 ==> #[trigger] step_at(states, i, smaps),
        !smaps ==> 1 <= d < states.len() && no_pss_fds(states[d].table()),
    ensures
        states[k].rebuild == all,
        states[k].maxpidlen >= states[1].maxpidlen,
        states[k].scan_inv(),
        !smaps && k >= d ==> no_pss_fds(states[k].table()),
    decreases k,
{
    if k > 1 {
        lemma_scan_prefix(states, all, smaps, d, k - 1);
        assert(step_at(states, k - 1, smaps));
    }
}

/// Over one whole scan of `/proc`, in mode `all` and reading PSS or not
/// (`smaps`): `states[0]` is the table before `begin_update(all)` and
/// `states[1]` after it; each later state follows from the one before by one
/// of the table's steps (`scan_step`, which every step ensures; only
/// `smaps_fd_for`, which a scan calls only when reading PSS, may open a
/// `smaps_rollup` file); a scan without PSS runs `disable_smaps_all` on the
/// way, which reaches `states[d]`. Then the table ends in mode `all`; a
/// change of mode dropped every process it held before; the longest PID
/// length has not shrunk and covers every PID left; with only programs
/// shown, neither PID 1 nor a kernel thread is left; every process left holds
/// its stat file open; and without PSS none holds a `smaps_rollup` file.
pub proof fn law_whole_scan(states: Seq<Processes>, all: bool, smaps: bool, d: int)
    requires
        states.len() >= 2,
        states[0].scan_inv(),
        scan_begin(states[0], states[1], all),
        forall|i: int| 1 <= i < states.len() - 1 ==> #[trigger] step_at(states, i, smaps),
        !smaps ==> 1 <= d < states.len() && no_pss_fds(states[d].table()),
    ensures
        ({
            let last = states[states.len() - 1];
            &&& last.rebuild == all
            &&& all != states[0].rebuild ==> states[1].table().dom().is_empty()
            &&& last.maxpidlen >= states[0].maxpidlen
            &&& last.scan_inv()
            &&& !all ==> forall|pid: u32| #[trigger] last.table().contains_key(pid)
                ==> pid != 1 && !last.table()[pid].not_executable
            &&& forall|pid: u32| #[trigger] last.table().contains_key(pid)
                ==> last.table()[pid].stat_fd >= 0 && pid_len(pid as nat) <= last.maxpidlen
            &&& !smaps ==> no_pss_fds(last.table())
        }),
{
    lemma_scan_prefix(states, all, smaps, d, states.len() - 1);
}

/// The process table, with its ignore list and its ring.
pub struct Processes {
    pub processes: AHashMap<u32, Process>,
    /// The length of the longest PID shown.
    pub maxpidlen: usize,
    /// Whether all processes are shown; a change clears the table.
    pub rebuild: bool,
    pub fd: i32,
    pub sorted: Vec<u32>,
    pub ignored: AHashSet<u32>,
    pub uring: Uring,
}

impl Processes {
    /// The processes, by PID.
    pub closed spec fn table(&self) -> Map<u32, Process> {
        table_contents(self.processes)
    }

    /// The PIDs left out for good.
    pub closed spec fn ignore_set(&self) -> Set<u32> {
        ignored_contents(self.ignored)
    }

    /// The PIDs in the order the last sort gave.
    pub closed spec fn sorted_pids(&self) -> Seq<u32> {
        self.sorted@
    }

    /// The table keeps `table_inv` in its own mode and PID length.
    pub open spec fn scan_inv(&self) -> bool {
        table_inv(self.table(), self.rebuild, self.maxpidlen)
    }

    /// Every process is filed under its own PID, and no PID in the table is
    /// ignored.
    pub open spec fn wf(&self) -> bool {
        &&& forall|pid: u32| #[trigger] self.table().contains_key(pid) ==> self.table()[pid].pid == pid
        &&& forall|pid: u32| #[trigger] self.table().contains_key(pid) ==> !self.ignore_set().contains(pid)
    }

    /// An empty table reading the `/proc` directory open as `fd`, with a ring
    /// of the default size; an error when `fd` is negative.
    pub fn new(fd: i32) -> (r: Result<Self, ()>)
        ensures
            fd < 0 <==> r is Err,
            r matches Ok(p) ==> {
                &&& p.wf()
                &&& p.scan_inv()
                &&& p.table().dom().is_empty()
                &&& p.ignore_set().is_empty()
                &&& p.maxpidlen == 0
                &&& !p.rebuild
                &&& p.fd == fd
                &&& p.uring@.entries == 500
            },
    {
        if fd < 0 {
            return Err(());
        }
        Ok(Processes {
            processes: table_new(),
            maxpidlen: 0,
            rebuild: false,
            fd,
            sorted: Vec::new(),
            ignored: ignored_new(),
            uring: Uring::new(0),
        })
    }

    /// Starts a scan: when the all-processes mode differs from the one the
    /// table was built in, the table and the ignore list are emptied.
    pub fn begin_update(&mut self, all: bool)
        requires
            old(self).wf(),
        ensures
            final(self).wf(),
            old(self).scan_inv() ==> final(self).scan_inv(),
            scan_begin(*old(self), *final(self), all),
            final(self).rebuild == all,
            all != old(self).rebuild ==> final(self).table().dom().is_empty() && final(self).ignore_set().is_empty(),
            all == old(self).rebuild ==> final(self).table() == old(self).table() && final(self).ignore_set() == old(self).ignore_set(),
            final(self).maxpidlen == old(self).maxpidlen,
            final(self).uring@ == old(self).uring@,
    {
        if all != self.rebuild {
            self.rebuild = all;
            table_clear(&mut self.processes);
            ignored_clear(&mut self.ignored);
        }
    }

    /// The PID is neither ignored nor in the table yet.
    pub fn wants(&self, pid: u32) -> (r: bool)
        ensures
            r == (!self.ignore_set().contains(pid) && !self.table().contains_key(pid)),
    {
        !ignored_contains(&self.ignored, pid) && !table_contains(&self.processes, pid)
    }

    /// Decides on a new PID from its command line: a program when the
    /// command line is not empty and the PID is not 1; else its stat line is
    /// read when all processes are shown; else it is ignored from now on.
    pub fn classify(&mut self, pid: u32, cmdline: &[u8], all: bool) -> (r: Admission)
        requires
            old(self).wf(),
            !old(self).table().contains_key(pid),
        ensures
            final(self).wf(),
            old(self).scan_inv() ==> final(self).scan_inv(),
            scan_step(*old(self), *final(self), false),
            final(self).table() == old(self).table(),
            final(self).maxpidlen == old(self).maxpidlen,
            final(self).rebuild == old(self).rebuild,
            final(self).uring@ == old(self).uring@,
            cmdline@.len() > 0 && pid != 1 ==> (r matches Admission::Program { executable, cmdline: args } &&
                executable@ == spec_executable(cmdline@) && args@ == spec_arguments(cmdline@)),
            !(cmdline@.len() > 0 && pid != 1) && all ==> r is ReadStat,
            !(cmdline@.len() > 0 && pid != 1) && !all ==> r is Ignored,
            r is Ignored ==> final(self).ignore_set() == old(self).ignore_set().insert(pid),
            !(r is Ignored) ==> final(self).ignore_set() == old(self).ignore_set(),
    {
        if cmdline.len() > 0 && pid != 1 {
            let (executable, args) = split_cmdline(cmdline);
            Admission::Program { executable, cmdline: args }
        } else if all {
            Admission::ReadStat
        } else {
            ignored_insert(&mut self.ignored, pid);
            Admission::Ignored
        }
    }

    /// Files a new process under its PID.
    pub fn insert_process(&mut self, p: Process)
        requires
            old(self).wf(),
            !old(self).ignore_set().contains(p.pid),
        ensures
            final(self).wf(),
            old(self).scan_inv() && may_join(p, old(self).rebuild, old(self).maxpidlen) ==> final(self).scan_inv(),
            may_join(p, old(self).rebuild, old(self).maxpidlen) && p.smaps_fd <= 0 ==> scan_step(*old(self), *final(self), false),
            final(self).table() == old(self).table().insert(p.pid, p),
            final(self).ignore_set() == old(self).ignore_set(),
            final(self).maxpidlen == old(self).maxpidlen,
            final(self).rebuild == old(self).rebuild,
            final(self).uring@ == old(self).uring@,
    {
        let pid = p.pid;
        proof {
            if old(self).scan_inv() {
                lemma_table_inv_steps(old(self).table(), self.rebuild, self.maxpidlen, pid, p);
            }
        }
        table_insert(&mut self.processes, pid, p);
        proof {
            assert forall|q: u32| #[trigger] self.table().contains_key(q) implies self.table()[q].pid == q
                && !self.ignore_set().contains(q) by {
                if q != pid {
                    assert(old(self).table().contains_key(q));
                }
            }
        }
    }

    /// Records the length of a PID that was looked at: the longest one is
    /// kept.
    pub fn note_pid_len(&mut self, len: usize)
        ensures
            final(self).maxpidlen == if old(self).maxpidlen < len { len } else { old(self).maxpidlen },
            old(self).scan_inv() ==> final(self).scan_inv(),
            scan_step(*old(self), *final(self), false),
            final(self).table() == old(self).table(),
            final(self).ignore_set() == old(self).ignore_set(),
            final(self).rebuild == old(self).rebuild,
            final(self).uring@ == old(self).uring@,
    {
        if self.maxpidlen < len {
            proof {
                if old(self).scan_inv() {
                    lemma_table_inv_longer(self.table(), self.rebuild, self.maxpidlen, len);
                }
            }
            self.maxpidlen = len;
        }
    }

    /// Takes in a PID that `classify` admitted, whose entry in `/proc` has a
    /// name of `name_len` bytes and whose stat file was opened as `stat_fd`:
    /// a program is filed with the names its command line gave, a process
    /// whose stat line was read (all processes shown) with `stat_name` and
    /// no arguments. Nothing is filed when the stat file could not be opened
    /// (`stat_fd` negative); either way the longest PID length takes in
    /// `name_len`, as `note_pid_len` does. An ignored PID changes nothing.
    pub fn file_admitted(&mut self, pid: u32, adm: Admission, stat_name: Vec<u8>, stat_fd: i32, name_len: usize)
        requires
            old(self).wf(),
            !old(self).ignore_set().contains(pid),
            !old(self).table().contains_key(pid),
            adm is Program ==> pid != 1,
            adm is ReadStat ==> old(self).rebuild,
            pid_len(pid as nat) <= name_len,
        ensures
            final(self).wf(),
            old(self).scan_inv() ==> final(self).scan_inv(),
            scan_step(*old(self), *final(self), false),
            final(self).ignore_set() == old(self).ignore_set(),
            final(self).rebuild == old(self).rebuild,
            final(self).uring@ == old(self).uring@,
            adm is Ignored ==> final(self).table() == old(self).table() && final(self).maxpidlen == old(self).maxpidlen,
            !(adm is Ignored) ==> final(self).maxpidlen == if old(self).maxpidlen < name_len { name_len } else { old(self).maxpidlen },
            !(adm is Ignored) && stat_fd < 0 ==> final(self).table() == old(self).table(),
            !(adm is Ignored) && stat_fd >= 0 ==> {
                &&& final(self).table().contains_key(pid)
                &&& final(self).table().remove(pid) == old(self).table()
                &&& fresh_process(final(self).table()[pid], pid, stat_fd)
            },
            stat_fd >= 0 ==> (adm matches Admission::Program { executable, cmdline } ==> {
                let q = final(self).table()[pid];
                q.executable@ == executable@ && q.cmdline@ == cmdline@ && !q.not_executable
            }),
            stat_fd >= 0 && adm is ReadStat ==> {
                let q = final(self).table()[pid];
                q.executable@ == stat_name@ && q.cmdline@.len() == 0 && q.not_executable
            },
    {
        let made = match adm {
            Admission::Program { executable, cmdline } => Process::new(pid, executable, cmdline, false, stat_fd),
            Admission::ReadStat => Process::new(pid, stat_name, Vec::new(), true, stat_fd),
            Admission::Ignored => { return; },
        };
        self.note_pid_len(name_len);
        match made {
            Ok(p) => {
                self.insert_process(p);
                proof {
                    assert(self.table().remove(pid) =~= old(self).table());
                }
            },
            Err(()) => {},
        }
    }

    /// How many processes the table holds.
    pub fn len(&self) -> (r: usize)
        ensures
            r == self.table().dom().len(),
    {
        table_len(&self.processes)
    }

    /// The process with this PID, if any.
    pub fn get(&self, pid: u32) -> (r: Option<&Process>)
        ensures
            self.table().contains_key(pid) ==> r == Some(&self.table()[pid]),
            !self.table().contains_key(pid) ==> r is None,
    {
        table_get(&self.processes, pid)
    }

    /// The PIDs in the table, in the map's own order.
    pub fn pids(&self) -> (r: Vec<u32>)
        ensures
            r@.no_duplicates(),
            forall|pid: u32| r@.contains(pid) <==> self.table().contains_key(pid),
    {
        table_pids(&self.processes)
    }

    /// The ring size needed for this round, when the ring is too small: twice
    /// the processes plus 100 when PSS is read and twice the processes exceed
    /// it; else the processes plus 100 when they exceed it.
    pub fn ring_target(&self, csmaps: bool) -> (r: Option<usize>)
        requires
            self.table().dom().len() * 2 + 100 <= usize::MAX,
        ensures
            ({
                let n = self.table().dom().len();
                let e = self.uring@.entries;
                r == if csmaps && n * 2 > e {
                    Some((n * 2 + 100) as usize)
                } else if n > e {
                    Some((n + 100) as usize)
                } else {
                    None::<usize>
                }
            }),
    {
        let n = table_len(&self.processes);
        let e = self.uring.entries();
        if csmaps && n * 2 > e {
            Some(n * 2 + 100)
        } else if n > e {
            Some(n + 100)
        } else {
            None
        }
    }

    /// Takes a process out, to be put back after an update.
    fn take(&mut self, pid: u32) -> (r: Process)
        requires
            old(self).wf(),
            old(self).table().contains_key(pid),
        ensures
            r == old(self).table()[pid],
            r.pid == pid,
            final(self).table() == old(self).table().remove(pid),
            final(self).ignore_set() == old(self).ignore_set(),
            final(self).maxpidlen == old(self).maxpidlen,
            final(self).rebuild == old(self).rebuild,
            final(self).uring@ == old(self).uring@,
    {
        match table_remove(&mut self.processes, pid) {
            Some(p) => p,
            None => {
                assert(false);
                Process::placeholder()
            },
        }
    }

    /// Puts back a process taken out for an update.
    fn put_back(&mut self, p: Process)
        requires
            !old(self).ignore_set().contains(p.pid),
            forall|q: u32| #[trigger] old(self).table().contains_key(q) ==> old(self).table()[q].pid == q
                && !old(self).ignore_set().contains(q),
        ensures
            final(self).wf(),
            final(self).table() == old(self).table().insert(p.pid, p),
            final(self).ignore_set() == old(self).ignore_set(),
            final(self).maxpidlen == old(self).maxpidlen,
            final(self).rebuild == old(self).rebuild,
            final(self).uring@ == old(self).uring@,
    {
        let pid = p.pid;
        table_insert(&mut self.processes, pid, p);
        proof {
            assert forall|q: u32| #[trigger] self.table().contains_key(q) implies self.table()[q].pid == q
                && !self.ignore_set().contains(q) by {
                if q != pid {
                    assert(old(self).table().contains_key(q));
                }
            }
        }
    }

    /// Stops reading PSS for every process: hands back the descriptors to
    /// close; afterwards no process holds one.
    pub fn disable_smaps_all(&mut self) -> (r: Vec<i32>)
        requires
            old(self).wf(),
        ensures
            final(self).wf(),
            old(self).scan_inv() ==> final(self).scan_inv(),
            scan_step(*old(self), *final(self), false),
            forall|pid: u32| #[trigger] final(self).table().contains_key(pid) ==> final(self).table()[pid].smaps_fd <= 0,
            final(self).table().dom() == old(self).table().dom(),
            forall|pid: u32| #[trigger] final(self).table().contains_key(pid) ==> final(self).table()[pid] == if old(self).table()[pid].smaps_fd > 0 {
                Process { smaps_fd: 0, ..old(self).table()[pid] }
            } else {
                old(self).table()[pid]
            },
            forall|fd: i32| r@.contains(fd) ==> fd > 0,
            forall|pid: u32| #[trigger] old(self).table().contains_key(pid) && old(self).table()[pid].smaps_fd > 0
                ==> r@.contains(old(self).table()[pid].smaps_fd),
            final(self).ignore_set() == old(self).ignore_set(),
            final(self).maxpidlen == old(self).maxpidlen,
            final(self).rebuild == old(self).rebuild,
            final(self).uring@ == old(self).uring@,
    {
        let pids = table_pids(&self.processes);
        let mut fds: Vec<i32> = Vec::new();
        let n = pids.len();
        let ghost t0 = self.table();
        let mut i: usize = 0;
        while i < n
            invariant
                n == pids@.len(),
                i <= n,
                pids@.no_duplicates(),
                forall|pid: u32| pids@.contains(pid) <==> t0.contains_key(pid),
                self.wf(),
                self.table().dom() == t0.dom(),
                forall|k: int| 0 <= k < i ==> {
                    let q = #[trigger] pids@[k];
                    self.table()[q] == if t0[q].smaps_fd > 0 { Process { smaps_fd: 0, ..t0[q] } } else { t0[q] }
                },
                forall|k: int| i <= k < n ==> self.table()[#[trigger] pids@[k]] == t0[pids@[k]],
                forall|fd: i32| fds@.contains(fd) ==> fd > 0,
                forall|k: int| 0 <= k < i && t0[#[trigger] pids@[k]].smaps_fd > 0 ==> fds@.contains(t0[pids@[k]].smaps_fd),
                self.ignore_set() == old(self).ignore_set(),
                self.maxpidlen == old(self).maxpidlen,
                self.rebuild == old(self).rebuild,
                self.uring@ == old(self).uring@,
            decreases n - i,
        {
            let pid = pids[i];
            proof {
                assert(pids@.contains(pid));
            }
            let ghost before = self.table();
            let mut p = self.take(pid);
            let ghost fds0 = fds@;
            let ghost p0 = p;
            if let Some(fd) = p.disable_smaps() {
                assert(p0.smaps_fd > 0 && fd == p0.smaps_fd);
                fds.push(fd);
                proof {
                    assert(fds@[fds0.len() as int] == fd);
                    assert forall|f: i32| fds@.contains(f) implies f > 0 by {
                        let q = choose|q: int| 0 <= q < fds@.len() && fds@[q] == f;
                        if q < fds0.len() {
                            assert(fds0[q] == f);
                            assert(fds0.contains(f));
                        } else {
                            assert(f == fd);
                        }
                    }
                    assert forall|k: int| 0 <= k < i && t0[#[trigger] pids@[k]].smaps_fd > 0 implies fds@.contains(t0[pids@[k]].smaps_fd) by {
                        let x = t0[pids@[k]].smaps_fd;
                        assert(fds0.contains(x));
                        let q = choose|q: int| 0 <= q < fds0.len() && fds0[q] == x;
                        assert(fds@[q] == x);
                    }
                    assert(fds@[fds@.len() - 1] == fd);
                }
            }
            self.put_back(p);
            proof {
                assert(self.table().dom() =~= t0.dom());
                assert forall|k: int| 0 <= k < i + 1 implies {
                    let q = #[trigger] pids@[k];
                    self.table()[q] == if t0[q].smaps_fd > 0 { Process { smaps_fd: 0, ..t0[q] } } else { t0[q] }
                } by {
                    if k < i {
                        assert(pids@[k] != pid);
                    }
                }
                assert forall|k: int| i + 1 <= k < n implies self.table()[#[trigger] pids@[k]] == t0[pids@[k]] by {
                    assert(pids@[k] != pid);
                }
            }
            i = i + 1;
        }
        proof {
            assert forall|pid: u32| #[trigger] self.table().contains_key(pid) implies self.table()[pid] == if t0[pid].smaps_fd > 0 {
                Process { smaps_fd: 0, ..t0[pid] }
            } else {
                t0[pid]
            } by {
                assert(pids@.contains(pid));
                let k = choose|k: int| 0 <= k < n && pids@[k] == pid;
            }
            assert forall|pid: u32| #[trigger] t0.contains_key(pid) && t0[pid].smaps_fd > 0 implies fds@.contains(t0[pid].smaps_fd) by {
                assert(pids@.contains(pid));
                let k = choose|k: int| 0 <= k < n && pids@[k] == pid;
            }
        }
        fds
    }

    /// The `smaps_rollup` descriptor of a process: `opened` is kept when it
    /// had none open (see `Process::get_smaps_fd`); -1 when the PID is not in
    /// the table.
    pub fn smaps_fd_for(&mut self, pid: u32, opened: i32) -> (r: i32)
        requires
            old(self).wf(),
        ensures
            final(self).wf(),
            old(self).scan_inv() ==> final(self).scan_inv(),
            scan_step(*old(self), *final(self), true),
            !old(self).table().contains_key(pid) ==> r == -1 && final(self).table() == old(self).table(),
            old(self).table().contains_key(pid) ==> {
                let p = old(self).table()[pid];
                let q = if p.smaps_fd == 0 { Process { smaps_fd: opened, ..p } } else { p };
                &&& final(self).table() == old(self).table().insert(pid, q)
                &&& r == q.smaps_fd
            },
            final(self).ignore_set() == old(self).ignore_set(),
            final(self).maxpidlen == old(self).maxpidlen,
            final(self).rebuild == old(self).rebuild,
            final(self).uring@ == old(self).uring@,
    {
        if !table_contains(&self.processes, pid) {
            return -1;
        }
        let mut p = self.take(pid);
        let fd = p.get_smaps_fd(opened);
        self.put_back(p);
        proof {
            assert(self.table() =~= old(self).table().insert(pid, self.table()[pid]));
        }
        fd
    }

    /// Takes in one completion: `pid` and `smaps` tell which read it was (the
    /// stat line, or `smaps_rollup` when `smaps` is 1), `res` is its result
    /// and `buf` the bytes it read. A process no longer in the table is
    /// skipped. A failed `smaps_rollup` read is skipped, a successful one sets
    /// the PSS. A failed stat read removes the process; a successful one
    /// updates its times, and when the line cannot be read the process is
    /// removed and the error handed back.
    pub fn complete(&mut self, pid: u32, smaps: u32, res: i32, buf: &[u8]) -> (r: Result<Completion, CompletionError>)
        requires
            old(self).wf(),
            complete_ok(old(self).table(), pid, smaps, res, buf@),
        ensures
            final(self).wf(),
            old(self).scan_inv() ==> final(self).scan_inv(),
            scan_step(*old(self), *final(self), false),
            final(self).ignore_set() == old(self).ignore_set(),
            final(self).maxpidlen == old(self).maxpidlen,
            final(self).rebuild == old(self).rebuild,
            final(self).uring@ == old(self).uring@,
            !old(self).table().contains_key(pid) ==> r is Ok && r->Ok_0 is Skipped && final(self).table() == old(self).table(),
            old(self).table().contains_key(pid) && smaps == 1 && res < 0 ==> r is Ok && r->Ok_0 is Skipped
                && final(self).table() == old(self).table(),
            old(self).table().contains_key(pid) && smaps == 1 && res >= 0 ==> {
                let p = old(self).table()[pid];
                if p.smaps_fd <= 0 {
                    r is Ok && r->Ok_0 is SmapsRead && final(self).table() == old(self).table().insert(pid, Process { pss: -1i64, ..p })
                } else {
                    match spec_smaps_value(buf@) {
                        Ok(v) => r is Ok && r->Ok_0 is SmapsRead
                            && final(self).table() == old(self).table().insert(pid, Process { pss: (v * 1024) as i64, ..p }),
                        Err(e) => r matches Err(CompletionError::Smaps(e2)) && e2 == e && final(self).table() == old(self).table(),
                    }
                }
            },
            old(self).table().contains_key(pid) && smaps != 1 && res < 0 ==> r is Ok && r->Ok_0 is Removed
                && final(self).table() == old(self).table().remove(pid),
            old(self).table().contains_key(pid) && smaps != 1 && res >= 0 ==> {
                let p = old(self).table()[pid];
                if spec_stat_numbers(buf@) is Some {
                    let q = stat_updated(p, buf@);
                    &&& r matches Ok(Completion::StatRead { work, total }) && work == q.work && total == q.total
                    &&& final(self).table() == old(self).table().insert(pid, q)
                } else {
                    &&& r is Err && r->Err_0 is Stat
                    &&& final(self).table() == old(self).table().remove(pid)
                }
            },
    {
        if !table_contains(&self.processes, pid) {
            return Ok(Completion::Skipped);
        }
        if smaps == 1 {
            if res >= 0 {
                let mut p = self.take(pid);
                let r = p.update_smaps(buf);
                self.put_back(p);
                proof {
                    if old(self).table()[pid].smaps_fd > 0 && spec_smaps_value(buf@) is Err {
                        assert(self.table() =~= old(self).table());
                    }
                }
                match r {
                    Ok(()) => Ok(Completion::SmapsRead),
                    Err(e) => Err(CompletionError::Smaps(e)),
                }
            } else {
                Ok(Completion::Skipped)
            }
        } else if res < 0 {
            let _ = self.take(pid);
            Ok(Completion::Removed)
        } else {
            let mut p = self.take(pid);
            match p.update_stat(buf) {
                Ok(()) => {
                    let work = p.work;
                    let total = p.total;
                    self.put_back(p);
                    Ok(Completion::StatRead { work, total })
                },
                Err(e) => {
                    proof {
                        assert forall|q: u32| #[trigger] self.table().contains_key(q) implies self.table()[q].pid == q
                            && !self.ignore_set().contains(q) by {
                            assert(old(self).table().contains_key(q));
                        }
                    }
                    Err(CompletionError::Stat(e))
                },
            }
        }
    }

    /// Whether `complete` can take in this completion (see `complete_ok`).
    pub fn complete_fits(&self, pid: u32, smaps: u32, res: i32, buf: &[u8]) -> (r: bool)
        ensures
            r == complete_ok(self.table(), pid, smaps, res, buf@),
    {
        if res < 0 {
            return true;
        }
        match table_get(&self.processes, pid) {
            None => true,
            Some(p) => if smaps == 1 { p.smaps_fits(buf) } else { p.stat_fits(buf) },
        }
    }

    /// Sorts the PIDs by work, then total ticks, from most to least, keeps
    /// that order, and hands it back with the length of the longest PID.
    pub fn cpu_sort(&mut self) -> (r: (usize, &Vec<u32>))
        requires
            old(self).wf(),
        ensures
            final(self).wf(),
            old(self).scan_inv() ==> final(self).scan_inv(),
            scan_step(*old(self), *final(self), false),
            final(self).table() == old(self).table(),
            final(self).ignore_set() == old(self).ignore_set(),
            final(self).maxpidlen == old(self).maxpidlen,
            final(self).rebuild == old(self).rebuild,
            final(self).uring@ == old(self).uring@,
            r.0 == old(self).maxpidlen,
            r.1@ == final(self).sorted_pids(),
            final(self).sorted_pids().no_duplicates(),
            forall|pid: u32| final(self).sorted_pids().contains(pid) <==> old(self).table().contains_key(pid),
            forall|i: int, j: int| 0 <= i < j < final(self).sorted_pids().len() ==> ranks_before(
                load_key(old(self).table(), #[trigger] final(self).sorted_pids()[i]),
                load_key(old(self).table(), #[trigger] final(self).sorted_pids()[j]),
            ),
            forall|i: int, j: int| 0 <= i < j < final(self).sorted_pids().len() ==> {
                let p = old(self).table()[#[trigger] final(self).sorted_pids()[i]];
                let q = old(self).table()[#[trigger] final(self).sorted_pids()[j]];
                p.work > q.work || (p.work == q.work && p.total >= q.total)
            },
    {
        let ghost t = self.table();
        let pids = table_pids(&self.processes);
        let n = pids.len();
        let mut keys: Vec<(u64, u64, u32)> = Vec::new();
        let mut i: usize = 0;
        while i < n
            invariant
                n == pids@.len(),
                i <= n,
                t == self.table(),
                pids@.no_duplicates(),
                forall|pid: u32| pids@.contains(pid) <==> t.contains_key(pid),
                keys@.len() == i,
                forall|k: int| 0 <= k < i ==> #[trigger] keys@[k] == load_key(t, pids@[k]),
            decreases n - i,
        {
            let pid = pids[i];
            proof {
                assert(pids@.contains(pid));
            }
            match table_get(&self.processes, pid) {
                Some(p) => {
                    keys.push((p.work, p.total, pid));
                },
                None => {
                    assert(false);
                },
            }
            i = i + 1;
        }
        proof {
            assert forall|a: int, b: int| 0 <= a < b < keys@.len() implies keys@[a] != keys@[b] by {
                assert(keys@[a].2 == pids@[a]);
                assert(keys@[b].2 == pids@[b]);
            }
            assert(keys@.no_duplicates());
        }
        let sorted = sort_by_load(&keys);
        let mut out: Vec<u32> = Vec::new();
        let m = sorted.len();
        let mut j: usize = 0;
        while j < m
            invariant
                m == sorted@.len(),
                j <= m,
                out@.len() == j,
                forall|k: int| 0 <= k < j ==> #[trigger] out@[k] == sorted@[k].2,
            decreases m - j,
        {
            out.push(sorted[j].2);
            j = j + 1;
        }
        proof {
            assert forall|k: int| 0 <= k < m implies #[trigger] sorted@[k] == load_key(t, sorted@[k].2) && t.contains_key(sorted@[k].2) by {
                assert(keys@.contains(sorted@[k]));
                let q = choose|q: int| 0 <= q < keys@.len() && keys@[q] == sorted@[k];
                assert(pids@.contains(pids@[q]));
            }
            assert forall|a: int, b: int| 0 <= a < b < out@.len() implies out@[a] != out@[b] by {
                assert(sorted@[a] == load_key(t, out@[a]));
                assert(sorted@[b] == load_key(t, out@[b]));
            }
            assert forall|pid: u32| out@.contains(pid) <==> t.contains_key(pid) by {
                if out@.contains(pid) {
                    let k = choose|k: int| 0 <= k < m && out@[k] == pid;
                    assert(sorted@[k] == load_key(t, sorted@[k].2));
                }
                if t.contains_key(pid) {
                    assert(pids@.contains(pid));
                    let q = choose|q: int| 0 <= q < n && pids@[q] == pid;
                    assert(keys@[q] == load_key(t, pid));
                    assert(keys@.contains(load_key(t, pid)));
                    assert(sorted@.contains(load_key(t, pid)));
                    let k = choose|k: int| 0 <= k < m && sorted@[k] == load_key(t, pid);
                    assert(out@[k] == pid);
                }
            }
            assert forall|a: int, b: int| 0 <= a < b < out@.len() implies ranks_before(
                load_key(t, #[trigger] out@[a]),
                load_key(t, #[trigger] out@[b]),
            ) by {
                assert(ranks_before(sorted@[a], sorted@[b]));
            }
        }
        self.sorted = out;
        (self.maxpidlen, &self.sorted)
    }

    /// Replaces the ring.
    pub fn set_uring(&mut self, u: Uring)
        ensures
            final(self).uring@ == u@,
            old(self).scan_inv() ==> final(self).scan_inv(),
            scan_step(*old(self), *final(self), false),
            final(self).table() == old(self).table(),
            final(self).ignore_set() == old(self).ignore_set(),
            final(self).maxpidlen == old(self).maxpidlen,
            final(self).rebuild == old(self).rebuild,
    {
        self.uring = u;
    }
}

/// A completion can be taken in: when it is a successful read for a
/// process of the table, its text can be taken in by that process (its
/// `smaps_rollup` text when `smaps` is 1, else its stat line).
pub open spec fn complete_ok(t: Map<u32, Process>, pid: u32, smaps: u32, res: i32, buf: Seq<u8>) -> bool {
    t.contains_key(pid) && res >= 0 ==> if smaps == 1 { smaps_ok(t[pid], buf) } else { stat_ok(t[pid], buf) }
}

} // verus!
