use vstd::prelude::*;
use crate::text::{spec_lines, tokens_from, spec_parse_u64, split_lines, split_tokens, parse_u64, ranges};
use crate::process::{lemma_lines_bounds, lemma_tokens_bounds};
use crate::keyed::{lex_lt, keys_sorted, lookup, upsert, compare_bytes, copy_bytes, lemma_upsert_at, law_lookup_after_upsert};

verus! {

/// Traffic of one interface: bytes since the previous reading and in all.
#[derive(PartialEq, Eq, Structural, Debug, Clone, Copy)]
pub struct Bandwidth {
    pub recv: u64,
    pub sent: u64,
    pub total_recv: u64,
    pub total_sent: u64,
}

/// What a reading of counters `recv` and `sent` makes of an interface's
/// entry: the differences from the last totals and the new totals; a first
/// reading has no difference.
pub open spec fn next_bandwidth(old: Option<Bandwidth>, recv: u64, sent: u64) -> Bandwidth {
    match old {
        Some(bw) => Bandwidth {
            recv: (recv - bw.total_recv) as u64,
            sent: (sent - bw.total_sent) as u64,
            total_recv: recv,
            total_sent: sent,
        },
        None => Bandwidth { recv: 0, sent: 0, total_recv: recv, total_sent: sent },
    }
}

/// Why a line of `/proc/net/dev` could not be read.
#[derive(PartialEq, Eq, Structural, Debug, Clone, Copy)]
pub enum NetError {
    /// The line has no word.
    Name,
    /// The received byte count is missing or not a number.
    Recv,
    /// The sent byte count is missing or not a number.
    Sent,
}

/// A line of `/proc/net/dev` read: the interface name (first word), bytes
/// received (second word) and sent (tenth word).
pub open spec fn net_line(s: Seq<u8>, a: int, b: int) -> Result<(Seq<u8>, u64, u64), NetError> {
    let t = tokens_from(s, a, b);
    if t.len() < 1 {
        Err(NetError::Name)
    } else if t.len() < 2 {
        Err(NetError::Recv)
    } else {
        match spec_parse_u64(s.subrange(t[1].0, t[1].1)) {
            None => Err(NetError::Recv),
            Some(recv) => if t.len() < 10 {
                Err(NetError::Sent)
            } else {
                match spec_parse_u64(s.subrange(t[9].0, t[9].1)) {
                    None => Err(NetError::Sent),
                    Some(sent) => Ok((s.subrange(t[0].0, t[0].1), recv, sent)),
                }
            },
        }
    }
}

/// The table after one read line: interfaces that have moved no byte at all
/// are left out.
pub open spec fn net_step(m: Seq<(Seq<u8>, Bandwidth)>, name: Seq<u8>, recv: u64, sent: u64) -> Seq<(Seq<u8>, Bandwidth)> {
    if recv + sent != 0 {
        upsert(m, name, next_bandwidth(lookup(m, name), recv, sent))
    } else {
        m
    }
}

/// The table after the lines from the `k`-th on, and the error of the first
/// line that could not be read (the lines before it taken in).
pub open spec fn net_apply(s: Seq<u8>, k: int, m: Seq<(Seq<u8>, Bandwidth)>) -> (Seq<(Seq<u8>, Bandwidth)>, Option<NetError>)
    decreases spec_lines(s).len() - k,
{
    let lines = spec_lines(s);
    if k < 0 || k >= lines.len() {
        (m, None)
    } else {
        match net_line(s, lines[k].0, lines[k].1) {
            Err(e) => (m, Some(e)),
            Ok((name, recv, sent)) => net_apply(s, k + 1, net_step(m, name, recv, sent)),
        }
    }
}

/// The lines from the `k`-th on can be taken in without overflow: counters
/// whose sum fits, and that do not go below the last totals.
pub open spec fn net_safe(s: Seq<u8>, k: int, m: Seq<(Seq<u8>, Bandwidth)>) -> bool
    decreases spec_lines(s).len() - k,
{
    let lines = spec_lines(s);
    if k < 0 || k >= lines.len() {
        true
    } else {
        match net_line(s, lines[k].0, lines[k].1) {
            Err(e) => true,
            Ok((name, recv, sent)) => {
                &&& recv + sent <= u64::MAX
                &&& (recv + sent != 0 && lookup(m, name) is Some) ==> {
                    let bw = lookup(m, name)->Some_0;
                    recv >= bw.total_recv && sent >= bw.total_sent
                }
                &&& net_safe(s, k + 1, net_step(m, name, recv, sent))
            },
        }
    }
}

/// Traffic by interface, in name order.
pub struct Network {
    pub stats: Vec<(Vec<u8>, Bandwidth)>,
}

impl Network {
    /// The table as names and traffic.
    pub open spec fn table(&self) -> Seq<(Seq<u8>, Bandwidth)> {
        self.stats@.map_values(|e: (Vec<u8>, Bandwidth)| (e.0@, e.1))
    }

    /// No interface yet.
    pub fn new() -> (r: Self)
        ensures
            r.table().len() == 0,
    {
        Network { stats: Vec::new() }
    }

    /// Takes in one interface's counters (see `net_step`).
    fn record(&mut self, name: Vec<u8>, recv: u64, sent: u64)
        requires
            keys_sorted(old(self).table()),
            recv + sent <= u64::MAX,
            recv + sent != 0 && lookup(old(self).table(), name@) is Some ==> {
                let bw = lookup(old(self).table(), name@)->Some_0;
                recv >= bw.total_recv && sent >= bw.total_sent
            },
        ensures
            final(self).table() == net_step(old(self).table(), name@, recv, sent),
            keys_sorted(final(self).table()),
    {
        if recv + sent == 0 {
            return;
        }
        let n = self.stats.len();
        let ghost m = self.table();
        let mut i: usize = 0;
        while i < n && compare_bytes(&self.stats[i].0, &name) < 0
            invariant
                n == self.stats@.len(),
                m == self.table(),
                i <= n,
                forall|j: int| 0 <= j < i ==> lex_lt(#[trigger] m[j].0, name@),
            decreases n - i,
        {
            proof {
                assert(m[i as int] == (self.stats@[i as int].0@, self.stats@[i as int].1));
            }
            i = i + 1;
        }
        let found = i < n && compare_bytes(&self.stats[i].0, &name) == 0;
        proof {
            if i < n {
                assert(m[i as int] == (self.stats@[i as int].0@, self.stats@[i as int].1));
            }
            lemma_upsert_at(m, name@, next_bandwidth(lookup(m, name@), recv, sent), i as int);
        }
        if found {
            let old_bw = self.stats[i].1;
            let bw = Bandwidth {
                recv: recv - old_bw.total_recv,
                sent: sent - old_bw.total_sent,
                total_recv: recv,
                total_sent: sent,
            };
            self.stats.set(i, (name, bw));
            proof {
                assert(self.table() == m.update(i as int, (self.stats@[i as int].0@, bw)));
            }
        } else {
            let bw = Bandwidth { recv: 0, sent: 0, total_recv: recv, total_sent: sent };
            let ghost nv = name@;
            self.stats.insert(i, (name, bw));
            proof {
                assert(self.table() == m.insert(i as int, (nv, bw)));
            }
        }
    }

    /// Reads `/proc/net/dev`: each line after the two headers gives an
    /// interface's name and its received and sent byte counts; interfaces
    /// that moved bytes are recorded with the traffic since the previous
    /// reading. A line that cannot be read stops with an error, the lines
    /// before it taken in. The table stays in name order.
    pub fn update(&mut self, text: &[u8]) -> (r: Result<(), NetError>)
        requires
            keys_sorted(old(self).table()),
            net_safe(text@, 2, old(self).table()),
        ensures
            keys_sorted(final(self).table()),
            final(self).table() == net_apply(text@, 2, old(self).table()).0,
            r matches Err(e) ==> net_apply(text@, 2, old(self).table()).1 == Some(e),
            r is Ok ==> net_apply(text@, 2, old(self).table()).1 is None,
    {
        let lines = split_lines(text);
        proof {
            lemma_lines_bounds(text@);
        }
        let n = lines.len();
        let mut k: usize = 2;
        while k < n
            invariant
                n == spec_lines(text@).len(),
                ranges(lines@) == spec_lines(text@),
                2 <= k,
                keys_sorted(self.table()),
                net_safe(text@, k as int, self.table()),
                net_apply(text@, k as int, self.table()) == net_apply(text@, 2, old(self).table()),
                forall|q: int| 0 <= q < spec_lines(text@).len() ==>
                    0 <= (#[trigger] spec_lines(text@)[q]).0 <= spec_lines(text@)[q].1 <= text@.len(),
            decreases n - k,
        {
            let (a, b) = lines[k];
            proof {
                assert(ranges(lines@)[k as int] == (a as int, b as int));
            }
            let (name, recv, sent) = match read_net_line(text, a, b) {
                Ok(v) => v,
                Err(e) => {
                    return Err(e);
                },
            };
            self.record(name, recv, sent);
            k = k + 1;
        }
        Ok(())
    }
}

/// Reads one line of `/proc/net/dev` (see `net_line`).
fn read_net_line(text: &[u8], a: usize, b: usize) -> (r: Result<(Vec<u8>, u64, u64), NetError>)
    requires
        a <= b <= text@.len(),
    ensures
        match net_line(text@, a as int, b as int) {
            Ok((name, recv, sent)) => r is Ok && r->Ok_0.0@ == name && r->Ok_0.1 == recv && r->Ok_0.2 == sent,
            Err(e) => r is Err && r->Err_0 == e,
        },
{
    let toks = split_tokens(text, a, b);
    proof {
        lemma_tokens_bounds(text@, a as int, b as int);
    }
    let ghost t = ranges(toks@);
    if toks.len() < 1 {
        return Err(NetError::Name);
    }
    if toks.len() < 2 {
        return Err(NetError::Recv);
    }
    let (c, d) = toks[1];
    proof { assert(t[1] == (c as int, d as int)); }
    let recv = match parse_u64(text, c, d) {
        Some(v) => v,
        None => { return Err(NetError::Recv); },
    };
    if toks.len() < 10 {
        return Err(NetError::Sent);
    }
    let (c, d) = toks[9];
    proof { assert(t[9] == (c as int, d as int)); }
    let sent = match parse_u64(text, c, d) {
        Some(v) => v,
        None => { return Err(NetError::Sent); },
    };
    let (c, d) = toks[0];
    proof { assert(t[0] == (c as int, d as int)); }
    let name = copy_bytes(text, c, d);
    Ok((name, recv, sent))
}

impl Network {
    /// The traffic kept for `name`, if any.
    pub fn find(&self, name: &Vec<u8>) -> (r: Option<Bandwidth>)
        ensures
            r == lookup(self.table(), name@),
    {
        let ghost m = self.table();
        let n = self.stats.len();
        assert(m.subrange(0, n as int) =~= m);
        let mut i: usize = 0;
        while i < n
            invariant
                n == self.stats@.len(),
                m == self.table(),
                i <= n,
                lookup(m, name@) == lookup(m.subrange(i as int, n as int), name@),
            decreases n - i,
        {
            proof {
                let rest = m.subrange(i as int, n as int);
                assert(rest[0] == m[i as int]);
                assert(rest.drop_first() == m.subrange(i + 1, n as int));
                assert(m[i as int] == (self.stats@[i as int].0@, self.stats@[i as int].1));
            }
            if compare_bytes(&self.stats[i].0, name) == 0 {
                return Some(self.stats[i].1);
            }
            i = i + 1;
        }
        None
    }

    /// Whether `update` can take in `text` (see `net_safe`).
    pub fn update_fits(&self, text: &[u8]) -> (r: bool)
        requires
            keys_sorted(self.table()),
        ensures
            r == net_safe(text@, 2, self.table()),
    {
        let mut shadow = Network { stats: Vec::new() };
        let n = self.stats.len();
        let mut i: usize = 0;
        while i < n
            invariant
                n == self.stats@.len(),
                i <= n,
                shadow.stats@.len() == i,
                shadow.table() == self.table().subrange(0, i as int),
            decreases n - i,
        {
            let name = copy_bytes(self.stats[i].0.as_slice(), 0, self.stats[i].0.len());
            proof {
                assert(self.stats@[i as int].0@.subrange(0, self.stats@[i as int].0@.len() as int) =~= self.stats@[i as int].0@);
            }
            let ghost before = shadow.stats@;
            let ghost nv = name@;
            shadow.stats.push((name, self.stats[i].1));
            proof {
                assert(shadow.table() =~= self.table().subrange(0, i + 1)) by {
                    assert(shadow.stats@ == before.push((shadow.stats@[i as int].0, self.stats@[i as int].1)));
                    assert(shadow.stats@[i as int].0@ == nv);
                }
            }
            i = i + 1;
        }
        assert(shadow.table() =~= self.table());
        let lines = split_lines(text);
        proof {
            lemma_lines_bounds(text@);
        }
        let count = lines.len();
        let mut k: usize = 2;
        while k < count
            invariant
                count == spec_lines(text@).len(),
                ranges(lines@) == spec_lines(text@),
                2 <= k,
                keys_sorted(shadow.table()),
                net_safe(text@, k as int, shadow.table()) == net_safe(text@, 2, self.table()),
                forall|q: int| 0 <= q < spec_lines(text@).len() ==>
                    0 <= (#[trigger] spec_lines(text@)[q]).0 <= spec_lines(text@)[q].1 <= text@.len(),
            decreases count - k,
        {
            let (a, b) = lines[k];
            proof {
                assert(ranges(lines@)[k as int] == (a as int, b as int));
            }
            let (name, recv, sent) = match read_net_line(text, a, b) {
                Ok(v) => v,
                Err(_) => {
                    return true;
                },
            };
            if recv as u128 + sent as u128 > 0xffff_ffff_ffff_ffff {
                return false;
            }
            if recv + sent != 0 {
                match shadow.find(&name) {
                    Some(bw) => {
                        if recv < bw.total_recv || sent < bw.total_sent {
                            return false;
                        }
                    },
                    None => {},
                }
            }
            shadow.record(name, recv, sent);
            k = k + 1;
        }
        true
    }
}

/// Reading the same counters of an interface twice shows no traffic the
/// second time: both rates are zero and the totals are the counters.
pub proof fn law_same_counters_no_traffic(m: Seq<(Seq<u8>, Bandwidth)>, name: Seq<u8>, recv: u64, sent: u64)
    requires
        recv + sent != 0,
    ensures
        lookup(net_step(net_step(m, name, recv, sent), name, recv, sent), name)
            == Some(Bandwidth { recv: 0, sent: 0, total_recv: recv, total_sent: sent }),
{
    let m1 = net_step(m, name, recv, sent);
    law_lookup_after_upsert(m, name, next_bandwidth(lookup(m, name), recv, sent), name);
    law_lookup_after_upsert(m1, name, next_bandwidth(lookup(m1, name), recv, sent), name);
}

} // verus!
