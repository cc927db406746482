use vstd::prelude::*;
use crate::fmt::{dec, push_dec};
use crate::ui::{XY, push_all, move_to, move_to_text};
use crate::sensors::Sensors as SensorInfo;

verus! {

/// The fixed start of the row of the `idx`-th sensor, named `key`: the row
/// cleared up to the value's end, the name, and the opening bracket.
pub open spec fn sensor_row(pos: XY, idx: int, key: Seq<u8>) -> Seq<u8> {
    move_to_text((pos.x + 23) as u16, (pos.y + 1 + idx) as u16)
        + seq![27u8, 91u8, 49u8, 75u8]
        + move_to_text((pos.x) as u16, (pos.y + 1 + idx) as u16)
        + seq![27u8, 91u8, 51u8, 55u8, 109u8]
        + key
        + move_to_text((pos.x + 15) as u16, (pos.y + 1 + idx) as u16)
        + seq![27u8, 91u8, 57u8, 49u8, 109u8, 91u8, 32u8, 27u8, 91u8, 57u8, 50u8, 109u8]
}

/// The widget's title.
pub open spec fn sensors_title(pos: XY) -> Seq<u8> {
    move_to_text(pos.x, pos.y)
        + seq![27u8, 91u8, 57u8, 53u8, 109u8, 83u8, 101u8, 110u8, 115u8, 111u8, 114u8, 115u8, 27u8, 91u8, 48u8, 109u8]
}

/// What follows a temperature.
pub open spec fn celsius_tail() -> Seq<u8> {
    seq![32u8, 67u8, 27u8, 91u8, 57u8, 49u8, 109u8, 32u8, 93u8, 27u8, 91u8, 48u8, 109u8]
}

/// What a draw writes for the first `n` sensors: the row of each whose
/// temperature differs from the one shown, with the new temperature.
pub open spec fn sensor_updates(rows: Seq<Seq<u8>>, shown: Seq<u8>, temps: Seq<u8>, n: int) -> Seq<u8>
    decreases n,
{
    if n <= 0 {
        Seq::empty()
    } else if shown[n - 1] != temps[n - 1] {
        sensor_updates(rows, shown, temps, n - 1) + rows[n - 1] + dec(temps[n - 1] as nat) + celsius_tail()
    } else {
        sensor_updates(rows, shown, temps, n - 1)
    }
}

/// The sensors widget: the fixed start of each sensor's row, and the
/// temperature each row shows.
pub struct Sensors {
    pub pos: XY,
    pub size: XY,
    pub cache: Vec<Vec<u8>>,
    pub shown: Vec<u8>,
}

impl Sensors {
    /// The widget at `pos`, 22 columns wide and two rows taller than there
    /// are sensors in `info`, with nothing cached.
    pub fn new(pos: XY, info: &SensorInfo) -> (r: Self)
        requires
            info.table().len() + 2 <= u16::MAX,
        ensures
            r.pos == pos,
            r.size == (XY { x: 22, y: (info.table().len() + 2) as u16 }),
            r.cache@.len() == 0,
            r.shown@.len() == 0,
    {
        let y = info.len() as u16 + 2;
        Sensors { pos, size: XY { x: 22, y }, cache: Vec::new(), shown: Vec::new() }
    }

    /// Sizes the widget for the sensors of `info` and builds the start of
    /// each one's row; every row shows 0 until drawn.
    pub fn rebuild_cache(&mut self, info: &SensorInfo)
        requires
            info.table().len() + 2 <= u16::MAX,
            old(self).pos.x + 23 < u16::MAX,
            old(self).pos.y + 1 + info.table().len() < u16::MAX,
        ensures
            final(self).size == (XY { x: old(self).size.x, y: (info.table().len() + 2) as u16 }),
            final(self).pos == old(self).pos,
            final(self).cache@.len() == info.table().len(),
            final(self).shown@ == Seq::new(info.table().len(), |i: int| 0u8),
            forall|i: int| 0 <= i < info.table().len() ==>
                (#[trigger] final(self).cache@[i])@ == sensor_row(old(self).pos, i, info.table()[i].0),
    {
        let n = info.chips.len();
        self.size.y = n as u16 + 2;
        let pos = self.pos;
        let mut rows: Vec<Vec<u8>> = Vec::new();
        let mut shown: Vec<u8> = Vec::new();
        let mut idx: usize = 0;
        while idx < n
            invariant
                n == info.chips@.len(),
                n == info.table().len(),
                idx <= n,
                pos.x + 23 < u16::MAX,
                pos.y + 1 + n < u16::MAX,
                rows@.len() == idx,
                shown@ == Seq::new(idx as nat, |i: int| 0u8),
                forall|i: int| 0 <= i < idx ==> (#[trigger] rows@[i])@ == sensor_row(pos, i, info.table()[i].0),
            decreases n - idx,
        {
            let y: u16 = pos.y + 1 + idx as u16;
            let mut r: Vec<u8> = Vec::new();
            push_all(&mut r, &move_to(pos.x + 23, y));
            push_all(&mut r, &vec![27u8, 91u8, 49u8, 75u8]);
            push_all(&mut r, &move_to(pos.x, y));
            push_all(&mut r, &vec![27u8, 91u8, 51u8, 55u8, 109u8]);
            push_all(&mut r, &info.chips[idx].0);
            push_all(&mut r, &move_to(pos.x + 15, y));
            push_all(&mut r, &vec![27u8, 91u8, 57u8, 49u8, 109u8, 91u8, 32u8, 27u8, 91u8, 57u8, 50u8, 109u8]);
            proof {
                assert(info.table()[idx as int].0 == info.chips@[idx as int].0@);
            }
            rows.push(r);
            shown.push(0);
            proof {
                assert(shown@ == Seq::new((idx + 1) as nat, |i: int| 0u8));
            }
            idx = idx + 1;
        }
        self.cache = rows;
        self.shown = shown;
    }

    /// Writes the widget's title.
    pub fn draw_static(&self, buffer: &mut Vec<u8>)
        requires
            self.pos.x < u16::MAX,
            self.pos.y < u16::MAX,
        ensures
            final(buffer)@ == old(buffer)@ + sensors_title(self.pos),
    {
        push_all(buffer, &move_to(self.pos.x, self.pos.y));
        push_all(buffer, &vec![27u8, 91u8, 57u8, 53u8, 109u8, 83u8, 101u8, 110u8, 115u8, 111u8, 114u8, 115u8, 27u8, 91u8, 48u8, 109u8]);
    }

    /// Writes the temperatures of `info` that differ from the ones shown,
    /// and returns false; when the number of sensors changed it writes
    /// nothing and returns true, asking for the cache to be rebuilt.
    pub fn draw(&mut self, buffer: &mut Vec<u8>, info: &SensorInfo) -> (r: bool)
        requires
            old(self).shown@.len() == old(self).cache@.len(),
        ensures
            r == (old(self).cache@.len() != info.table().len()),
            r ==> final(buffer)@ == old(buffer)@ && *final(self) == *old(self),
            !r ==> {
                let temps = info.table().map_values(|e: (Seq<u8>, u8)| e.1);
                &&& final(buffer)@ == old(buffer)@ + sensor_updates(
                    old(self).cache@.map_values(|v: Vec<u8>| v@),
                    old(self).shown@,
                    temps,
                    temps.len() as int,
                )
                &&& final(self).shown@ == temps
                &&& final(self).cache == old(self).cache
                &&& final(self).pos == old(self).pos
                &&& final(self).size == old(self).size
            },
    {
        let n = self.cache.len();
        if n != info.chips.len() {
            return true;
        }
        let ghost rows = self.cache@.map_values(|v: Vec<u8>| v@);
        let ghost shown0 = self.shown@;
        let ghost temps = info.table().map_values(|e: (Seq<u8>, u8)| e.1);
        let ghost fields = (self.pos, self.size, self.cache);
        let mut idx: usize = 0;
        while idx < n
            invariant
                n == info.chips@.len(),
                n == old(self).cache@.len(),
                idx <= n,
                (self.pos, self.size, self.cache) == fields,
                fields == (old(self).pos, old(self).size, old(self).cache),
                rows == self.cache@.map_values(|v: Vec<u8>| v@),
                shown0 == old(self).shown@,
                shown0.len() == n,
                temps == info.table().map_values(|e: (Seq<u8>, u8)| e.1),
                self.shown@.len() == n,
                forall|i: int| 0 <= i < idx ==> self.shown@[i] == temps[i],
                forall|i: int| idx <= i < n ==> self.shown@[i] == shown0[i],
                buffer@ == old(buffer)@ + sensor_updates(rows, shown0, temps, idx as int),
            decreases n - idx,
        {
            let t = info.chips[idx].1;
            proof {
                assert(temps[idx as int] == t);
                assert(rows[idx as int] == self.cache@[idx as int]@);
            }
            if self.shown[idx] != t {
                push_all(buffer, &self.cache[idx]);
                push_dec(buffer, t as u128);
                push_all(buffer, &vec![32u8, 67u8, 27u8, 91u8, 57u8, 49u8, 109u8, 32u8, 93u8, 27u8, 91u8, 48u8, 109u8]);
                self.shown.set(idx, t);
            }
            idx = idx + 1;
        }
        proof {
            assert(self.shown@ == temps);
        }
        false
    }
}

/// A temperature that has not changed is not written again: drawing the
/// temperatures that are already shown writes nothing.
pub proof fn law_unchanged_draws_nothing(rows: Seq<Seq<u8>>, temps: Seq<u8>, n: int)
    ensures
        sensor_updates(rows, temps, temps, n) == Seq::<u8>::empty(),
    decreases n,
{
    if n > 0 {
        law_unchanged_draws_nothing(rows, temps, n - 1);
    }
}

} // verus!
