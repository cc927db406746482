use vstd::prelude::*;
use crate::ui::{XY, push_all, pad_right_chars, push_right_padded_chars, move_to, move_to_text};
use crate::network::{Network as NetworkInfo, Bandwidth};

verus! {

/// The four cache pieces of an interface drawn with row offset `cnt`:
/// name line with traffic (red) and without (grey), then the sent line
/// with traffic and without.
pub open spec fn net_entry(pos: XY, cnt: int, key: Seq<u8>) -> (Seq<u8>, Seq<u8>, Seq<u8>, Seq<u8>) {
    (
        move_to_text((pos.x + 25) as u16, (pos.y + 1 + cnt) as u16)
        + seq![27u8, 91u8, 49u8, 75u8]
        + move_to_text((pos.x) as u16, (pos.y + 1 + cnt) as u16)
        + seq![27u8, 91u8, 51u8, 55u8, 109u8]
        + pad_right_chars(key, 8)
        + seq![27u8, 91u8, 57u8, 49u8, 109u8, 91u8, 32u8, 27u8, 91u8, 57u8, 50u8, 109u8],
        move_to_text((pos.x + 25) as u16, (pos.y + 1 + cnt) as u16)
        + seq![27u8, 91u8, 49u8, 75u8]
        + move_to_text((pos.x) as u16, (pos.y + 1 + cnt) as u16)
        + seq![27u8, 91u8, 51u8, 55u8, 109u8]
        + pad_right_chars(key, 8)
        + seq![27u8, 91u8, 51u8, 56u8, 59u8, 53u8, 59u8, 50u8, 52u8, 52u8, 109u8, 91u8, 32u8, 27u8, 91u8, 51u8, 55u8, 109u8],
        move_to_text((pos.x) as u16, (pos.y + 2 + cnt) as u16)
        + seq![27u8, 91u8, 57u8, 49u8, 109u8, 32u8, 32u8, 32u8, 32u8, 32u8, 32u8, 32u8, 32u8, 91u8, 32u8, 27u8, 91u8, 57u8, 50u8, 109u8],
        move_to_text((pos.x) as u16, (pos.y + 2 + cnt) as u16)
        + seq![27u8, 91u8, 51u8, 56u8, 59u8, 53u8, 59u8, 50u8, 52u8, 52u8, 109u8, 32u8, 32u8, 32u8, 32u8, 32u8, 32u8, 32u8, 32u8, 91u8, 32u8, 27u8, 91u8, 51u8, 55u8, 109u8],
    )
}

/// The widget's title.
pub open spec fn net_title(pos: XY) -> Seq<u8> {
    move_to_text((pos.x) as u16, (pos.y) as u16)
        + seq![27u8, 91u8, 57u8, 53u8, 109u8, 78u8, 101u8, 116u8, 119u8, 111u8, 114u8, 107u8, 27u8, 91u8, 48u8, 109u8]
}

/// What follows a received rate.
pub open spec fn rx_tail() -> Seq<u8> {
    seq![27u8, 91u8, 51u8, 55u8, 109u8, 32u8, 82u8, 120u8, 27u8, 91u8, 48u8, 109u8]
}

/// What follows a sent rate.
pub open spec fn tx_tail() -> Seq<u8> {
    seq![27u8, 91u8, 51u8, 55u8, 109u8, 32u8, 84u8, 120u8, 27u8, 91u8, 48u8, 109u8]
}

/// The network widget.
pub struct Network {
    pub pos: XY,
    pub size: XY,
    pub cache: Vec<(Vec<u8>, Vec<u8>, Vec<u8>, Vec<u8>)>,
}

/// The cache pieces as byte strings.
pub open spec fn cache_view(c: Seq<(Vec<u8>, Vec<u8>, Vec<u8>, Vec<u8>)>) -> Seq<(Seq<u8>, Seq<u8>, Seq<u8>, Seq<u8>)> {
    c.map_values(|e: (Vec<u8>, Vec<u8>, Vec<u8>, Vec<u8>)| (e.0@, e.1@, e.2@, e.3@))
}

/// The lines of the first `n` interfaces: each received rate after the red
/// or grey piece (as the interface received bytes or not), each sent rate
/// likewise.
pub open spec fn net_draw_text(
    cache: Seq<(Seq<u8>, Seq<u8>, Seq<u8>, Seq<u8>)>,
    table: Seq<(Seq<u8>, Bandwidth)>,
    speeds: Seq<(Seq<u8>, Seq<u8>)>,
    n: int,
) -> Seq<u8>
    decreases n,
{
    if n <= 0 {
        Seq::empty()
    } else {
        let i = n - 1;
        let bw = table[i].1;
        net_draw_text(cache, table, speeds, i)
            + (if bw.recv != 0 { cache[i].0 } else { cache[i].1 }) + speeds[i].0 + rx_tail()
            + (if bw.sent != 0 { cache[i].2 } else { cache[i].3 }) + speeds[i].1 + tx_tail()
    }
}

impl Network {
    /// The widget at `pos`, 23 columns wide, tall enough for `interfaces`.
    pub fn new(pos: XY, interfaces: usize) -> (r: Self)
        requires
            (interfaces as u16) * 2 + 2 <= u16::MAX,
        ensures
            r.pos == pos,
            r.size == (XY { x: 23, y: ((interfaces as u16) * 2 + 2) as u16 }),
            r.cache@.len() == 0,
    {
        Network { pos, size: XY { x: 23, y: (interfaces as u16) * 2 + 2 }, cache: Vec::new() }
    }

    /// Builds the fixed text of every interface of `info`, two rows each,
    /// and sizes the widget for them.
    pub fn rebuild_cache(&mut self, info: &NetworkInfo)
        requires
            (info.stats@.len() as u16) * 2 + 2 <= u16::MAX,
            old(self).pos.x + 25 < u16::MAX,
            old(self).pos.y + 2 + 2 * info.stats@.len() < u16::MAX,
        ensures
            final(self).size == (XY { x: old(self).size.x, y: ((info.stats@.len() as u16) * 2 + 2) as u16 }),
            final(self).pos == old(self).pos,
            cache_view(final(self).cache@).len() == info.stats@.len(),
            forall|i: int| 0 <= i < info.stats@.len() ==>
                #[trigger] cache_view(final(self).cache@)[i] == net_entry(old(self).pos, 2 * i, info.table()[i].0),
    {
        self.size.y = (info.stats.len() as u16) * 2 + 2;
        let pos = self.pos;
        let n = info.stats.len();
        let mut cache: Vec<(Vec<u8>, Vec<u8>, Vec<u8>, Vec<u8>)> = Vec::new();
        let mut cnt: u16 = 0;
        let mut i: usize = 0;
        while i < n
            invariant
                n == info.stats@.len(),
                i <= n,
                cnt == 2 * i,
                pos.x + 25 < u16::MAX,
                pos.y + 2 + 2 * n < u16::MAX,
                cache_view(cache@).len() == i,
                forall|j: int| 0 <= j < i ==> #[trigger] cache_view(cache@)[j] == net_entry(pos, 2 * j, info.table()[j].0),
            decreases n - i,
        {
            let ghost key = info.table()[i as int].0;
            let mut padded: Vec<u8> = Vec::new();
            push_right_padded_chars(&mut padded, &info.stats[i].0, 8);
            let mut a: Vec<u8> = Vec::new();
        push_all(&mut a, &move_to(pos.x + 25, pos.y + 1 + cnt));
        push_all(&mut a, &vec![27u8, 91u8, 49u8, 75u8]);
        push_all(&mut a, &move_to(pos.x, pos.y + 1 + cnt));
        push_all(&mut a, &vec![27u8, 91u8, 51u8, 55u8, 109u8]);
        push_all(&mut a, &padded);
        push_all(&mut a, &vec![27u8, 91u8, 57u8, 49u8, 109u8, 91u8, 32u8, 27u8, 91u8, 57u8, 50u8, 109u8]);
            let mut b: Vec<u8> = Vec::new();
        push_all(&mut b, &move_to(pos.x + 25, pos.y + 1 + cnt));
        push_all(&mut b, &vec![27u8, 91u8, 49u8, 75u8]);
        push_all(&mut b, &move_to(pos.x, pos.y + 1 + cnt));
        push_all(&mut b, &vec![27u8, 91u8, 51u8, 55u8, 109u8]);
        push_all(&mut b, &padded);
        push_all(&mut b, &vec![27u8, 91u8, 51u8, 56u8, 59u8, 53u8, 59u8, 50u8, 52u8, 52u8, 109u8, 91u8, 32u8, 27u8, 91u8, 51u8, 55u8, 109u8]);
            let mut c: Vec<u8> = Vec::new();
        push_all(&mut c, &move_to(pos.x, pos.y + 2 + cnt));
        push_all(&mut c, &vec![27u8, 91u8, 57u8, 49u8, 109u8, 32u8, 32u8, 32u8, 32u8, 32u8, 32u8, 32u8, 32u8, 91u8, 32u8, 27u8, 91u8, 57u8, 50u8, 109u8]);
            let mut d: Vec<u8> = Vec::new();
        push_all(&mut d, &move_to(pos.x, pos.y + 2 + cnt));
        push_all(&mut d, &vec![27u8, 91u8, 51u8, 56u8, 59u8, 53u8, 59u8, 50u8, 52u8, 52u8, 109u8, 32u8, 32u8, 32u8, 32u8, 32u8, 32u8, 32u8, 32u8, 91u8, 32u8, 27u8, 91u8, 51u8, 55u8, 109u8]);
            proof {
                let e = net_entry(pos, cnt as int, key);
                assert(a@ == e.0);
                assert(b@ == e.1);
                assert(c@ == e.2);
                assert(d@ == e.3);
            }
            let ghost before = cache@;
            cache.push((a, b, c, d));
            proof {
                assert(cache_view(cache@) == cache_view(before).push((a@, b@, c@, d@)));
            }
            cnt = cnt + 2;
            i = i + 1;
        }
        self.cache = cache;
    }

    /// Writes the widget's title.
    pub fn draw_static(&self, buffer: &mut Vec<u8>)
        requires
            self.pos.x < u16::MAX,
            self.pos.y < u16::MAX,
        ensures
            final(buffer)@ == old(buffer)@ + net_title(self.pos),
    {
        let pos = self.pos;
        push_all(buffer, &move_to(pos.x, pos.y));
        push_all(buffer, &vec![27u8, 91u8, 57u8, 53u8, 109u8, 78u8, 101u8, 116u8, 119u8, 111u8, 114u8, 107u8, 27u8, 91u8, 48u8, 109u8]);
    }

    /// Draws every interface's rates, `speeds` holding the received and
    /// sent rate texts in table order; when the cache does not have one
    /// entry per interface, nothing is drawn and `true` asks for a rebuild.
    pub fn draw(&self, buffer: &mut Vec<u8>, info: &NetworkInfo, speeds: &Vec<(Vec<u8>, Vec<u8>)>) -> (r: bool)
        requires
            speeds@.len() == info.stats@.len(),
        ensures
            r == (self.cache@.len() != info.stats@.len()),
            r ==> final(buffer)@ == old(buffer)@,
            !r ==> final(buffer)@ == old(buffer)@ + net_draw_text(
                cache_view(self.cache@),
                info.table(),
                speeds@.map_values(|s: (Vec<u8>, Vec<u8>)| (s.0@, s.1@)),
                info.stats@.len() as int,
            ),
    {
        let n = info.stats.len();
        if self.cache.len() != n {
            return true;
        }
        let ghost cv = cache_view(self.cache@);
        let ghost sv = speeds@.map_values(|s: (Vec<u8>, Vec<u8>)| (s.0@, s.1@));
        let mut i: usize = 0;
        while i < n
            invariant
                n == info.stats@.len(),
                n == self.cache@.len(),
                n == speeds@.len(),
                i <= n,
                cv == cache_view(self.cache@),
                sv == speeds@.map_values(|s: (Vec<u8>, Vec<u8>)| (s.0@, s.1@)),
                buffer@ == old(buffer)@ + net_draw_text(cv, info.table(), sv, i as int),
            decreases n - i,
        {
            let bw = info.stats[i].1;
            let ghost before = buffer@;
            proof {
                assert(info.table()[i as int].1 == bw);
                assert(cv[i as int] == (self.cache@[i as int].0@, self.cache@[i as int].1@, self.cache@[i as int].2@, self.cache@[i as int].3@));
                assert(sv[i as int] == (speeds@[i as int].0@, speeds@[i as int].1@));
            }
            if bw.recv != 0 {
                push_all(buffer, &self.cache[i].0);
            } else {
                push_all(buffer, &self.cache[i].1);
            }
            push_all(buffer, &speeds[i].0);
            push_all(buffer, &vec![27u8, 91u8, 51u8, 55u8, 109u8, 32u8, 82u8, 120u8, 27u8, 91u8, 48u8, 109u8]);
            if bw.sent != 0 {
                push_all(buffer, &self.cache[i].2);
            } else {
                push_all(buffer, &self.cache[i].3);
            }
            push_all(buffer, &speeds[i].1);
            push_all(buffer, &vec![27u8, 91u8, 51u8, 55u8, 109u8, 32u8, 84u8, 120u8, 27u8, 91u8, 48u8, 109u8]);
            proof {
                assert(buffer@ == before
                    + (if bw.recv != 0 { cv[i as int].0 } else { cv[i as int].1 }) + sv[i as int].0 + rx_tail()
                    + (if bw.sent != 0 { cv[i as int].2 } else { cv[i as int].3 }) + sv[i as int].1 + tx_tail());
            }
            i = i + 1;
        }
        false
    }
}

} // verus!
