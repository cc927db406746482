use vstd::prelude::*;
use crate::ui::{XY, push_all, move_to, move_to_text, convert_with_padding, spec_convert_with_padding};
use crate::ui::memory::gauge_tail;
use crate::memory::Memory as MemoryInfo;

verus! {

/// The first cache piece of the swap widget: its title and the label of the total.
pub open spec fn swap_cache0(pos: XY) -> Seq<u8> {
    move_to_text((pos.x) as u16, (pos.y) as u16)
        + seq![27u8, 91u8, 57u8, 53u8, 109u8, 83u8, 119u8, 97u8, 112u8, 27u8, 91u8, 48u8, 109u8]
        + move_to_text((pos.x) as u16, (pos.y + 1) as u16)
        + seq![32u8, 32u8, 32u8, 32u8, 32u8, 32u8, 32u8, 32u8, 32u8, 32u8, 32u8, 32u8, 32u8, 32u8, 32u8, 32u8, 32u8, 32u8]
        + move_to_text((pos.x) as u16, (pos.y + 1) as u16)
        + seq![27u8, 91u8, 51u8, 55u8, 109u8, 84u8, 111u8, 116u8, 97u8, 108u8, 58u8, 32u8, 27u8, 91u8, 51u8, 56u8, 59u8, 53u8, 59u8, 50u8, 52u8, 52u8, 109u8, 91u8, 32u8, 27u8, 91u8, 51u8, 55u8, 109u8]
}

/// The second cache piece: closes the total, the label of what is used.
pub open spec fn swap_cache1(pos: XY) -> Seq<u8> {
    seq![27u8, 91u8, 51u8, 56u8, 59u8, 53u8, 59u8, 50u8, 52u8, 52u8, 109u8, 32u8, 93u8, 27u8, 91u8, 48u8, 109u8]
        + move_to_text((pos.x) as u16, (pos.y + 2) as u16)
        + seq![32u8, 32u8, 32u8, 32u8, 32u8, 32u8, 32u8, 32u8, 32u8, 32u8, 32u8, 32u8, 32u8, 32u8, 32u8, 32u8, 32u8, 32u8]
        + move_to_text((pos.x) as u16, (pos.y + 2) as u16)
        + seq![27u8, 91u8, 51u8, 55u8, 109u8, 85u8, 115u8, 101u8, 100u8, 58u8, 32u8, 32u8, 27u8, 91u8, 57u8, 49u8, 109u8, 91u8, 32u8, 27u8, 91u8, 57u8, 50u8, 109u8]
}

/// The third cache piece: closes what is used, the label of what is free.
pub open spec fn swap_cache2(pos: XY) -> Seq<u8> {
    seq![27u8, 91u8, 57u8, 49u8, 109u8, 32u8, 93u8, 27u8, 91u8, 48u8, 109u8]
        + move_to_text((pos.x) as u16, (pos.y + 3) as u16)
        + seq![32u8, 32u8, 32u8, 32u8, 32u8, 32u8, 32u8, 32u8, 32u8, 32u8, 32u8, 32u8, 32u8, 32u8, 32u8, 32u8, 32u8, 32u8]
        + move_to_text((pos.x) as u16, (pos.y + 3) as u16)
        + seq![27u8, 91u8, 51u8, 55u8, 109u8, 70u8, 114u8, 101u8, 101u8, 58u8, 32u8, 32u8, 27u8, 91u8, 51u8, 56u8, 59u8, 53u8, 59u8, 50u8, 52u8, 52u8, 109u8, 91u8, 32u8, 27u8, 91u8, 51u8, 55u8, 109u8]
}

/// The swap widget. It keeps the texts of the values it last drew, and the
/// total and free swap they were made for.
pub struct Swap {
    pub pos: XY,
    pub size: XY,
    pub cache: (Vec<u8>, Vec<u8>, Vec<u8>),
    pub buffer: (Vec<u8>, Vec<u8>, Vec<u8>),
    pub total: u64,
    pub free: u64,
}

impl Swap {
    /// The widget at `pos`, 18 columns by 4 rows, with nothing cached and
    /// no value seen.
    pub fn new(pos: XY) -> (r: Self)
        ensures
            r.pos == pos,
            r.size == (XY { x: 18, y: 4 }),
            r.cache.0@.len() == 0 && r.cache.1@.len() == 0 && r.cache.2@.len() == 0,
            r.buffer.0@.len() == 0 && r.buffer.1@.len() == 0 && r.buffer.2@.len() == 0,
            r.total == 0,
            r.free == 0,
    {
        Swap {
            pos,
            size: XY { x: 18, y: 4 },
            cache: (Vec::new(), Vec::new(), Vec::new()),
            buffer: (Vec::new(), Vec::new(), Vec::new()),
            total: 0,
            free: 0,
        }
    }

    /// Builds the fixed text around the three values for the widget's
    /// position.
    pub fn rebuild_cache(&mut self)
        requires
            old(self).pos.x < u16::MAX,
            old(self).pos.y + 3 < u16::MAX,
        ensures
            final(self).cache.0@ == swap_cache0(old(self).pos),
            final(self).cache.1@ == swap_cache1(old(self).pos),
            final(self).cache.2@ == swap_cache2(old(self).pos),
            final(self).pos == old(self).pos,
            final(self).size == old(self).size,
            final(self).buffer == old(self).buffer,
            final(self).total == old(self).total,
            final(self).free == old(self).free,
    {
        let pos = self.pos;
        let mut c0: Vec<u8> = Vec::new();
        push_all(&mut c0, &move_to(pos.x, pos.y));
        push_all(&mut c0, &vec![27u8, 91u8, 57u8, 53u8, 109u8, 83u8, 119u8, 97u8, 112u8, 27u8, 91u8, 48u8, 109u8]);
        push_all(&mut c0, &move_to(pos.x, pos.y + 1));
        push_all(&mut c0, &vec![32u8, 32u8, 32u8, 32u8, 32u8, 32u8, 32u8, 32u8, 32u8, 32u8, 32u8, 32u8, 32u8, 32u8, 32u8, 32u8, 32u8, 32u8]);
        push_all(&mut c0, &move_to(pos.x, pos.y + 1));
        push_all(&mut c0, &vec![27u8, 91u8, 51u8, 55u8, 109u8, 84u8, 111u8, 116u8, 97u8, 108u8, 58u8, 32u8, 27u8, 91u8, 51u8, 56u8, 59u8, 53u8, 59u8, 50u8, 52u8, 52u8, 109u8, 91u8, 32u8, 27u8, 91u8, 51u8, 55u8, 109u8]);
        let mut c1: Vec<u8> = Vec::new();
        push_all(&mut c1, &vec![27u8, 91u8, 51u8, 56u8, 59u8, 53u8, 59u8, 50u8, 52u8, 52u8, 109u8, 32u8, 93u8, 27u8, 91u8, 48u8, 109u8]);
        push_all(&mut c1, &move_to(pos.x, pos.y + 2));
        push_all(&mut c1, &vec![32u8, 32u8, 32u8, 32u8, 32u8, 32u8, 32u8, 32u8, 32u8, 32u8, 32u8, 32u8, 32u8, 32u8, 32u8, 32u8, 32u8, 32u8]);
        push_all(&mut c1, &move_to(pos.x, pos.y + 2));
        push_all(&mut c1, &vec![27u8, 91u8, 51u8, 55u8, 109u8, 85u8, 115u8, 101u8, 100u8, 58u8, 32u8, 32u8, 27u8, 91u8, 57u8, 49u8, 109u8, 91u8, 32u8, 27u8, 91u8, 57u8, 50u8, 109u8]);
        let mut c2: Vec<u8> = Vec::new();
        push_all(&mut c2, &vec![27u8, 91u8, 57u8, 49u8, 109u8, 32u8, 93u8, 27u8, 91u8, 48u8, 109u8]);
        push_all(&mut c2, &move_to(pos.x, pos.y + 3));
        push_all(&mut c2, &vec![32u8, 32u8, 32u8, 32u8, 32u8, 32u8, 32u8, 32u8, 32u8, 32u8, 32u8, 32u8, 32u8, 32u8, 32u8, 32u8, 32u8, 32u8]);
        push_all(&mut c2, &move_to(pos.x, pos.y + 3));
        push_all(&mut c2, &vec![27u8, 91u8, 51u8, 55u8, 109u8, 70u8, 114u8, 101u8, 101u8, 58u8, 32u8, 32u8, 27u8, 91u8, 51u8, 56u8, 59u8, 53u8, 59u8, 50u8, 52u8, 52u8, 109u8, 91u8, 32u8, 27u8, 91u8, 51u8, 55u8, 109u8]);
        self.cache = (c0, c1, c2);
    }

    /// Writes the swap of `info`. The text of the total is made anew only
    /// when the total changed since the last draw, and those of the used
    /// and free swap only when the free swap changed.
    pub fn draw(&mut self, buffer: &mut Vec<u8>, info: &MemoryInfo)
        ensures
            final(self).total == info.swap_total,
            final(self).free == info.swap_free,
            final(self).buffer.0@ == if old(self).total != info.swap_total {
                spec_convert_with_padding(info.swap_total)
            } else {
                old(self).buffer.0@
            },
            final(self).buffer.1@ == if old(self).free != info.swap_free {
                spec_convert_with_padding(info.swap_used)
            } else {
                old(self).buffer.1@
            },
            final(self).buffer.2@ == if old(self).free != info.swap_free {
                spec_convert_with_padding(info.swap_free)
            } else {
                old(self).buffer.2@
            },
            final(self).pos == old(self).pos,
            final(self).size == old(self).size,
            final(self).cache == old(self).cache,
            final(buffer)@ == old(buffer)@ + old(self).cache.0@ + final(self).buffer.0@
                + old(self).cache.1@ + final(self).buffer.1@
                + old(self).cache.2@ + final(self).buffer.2@ + gauge_tail(),
    {
        if self.total != info.swap_total {
            self.total = info.swap_total;
            convert_with_padding(&mut self.buffer.0, info.swap_total);
        }
        if self.free != info.swap_free {
            self.free = info.swap_free;
            convert_with_padding(&mut self.buffer.1, info.swap_used);
            convert_with_padding(&mut self.buffer.2, info.swap_free);
        }
        push_all(buffer, &self.cache.0);
        push_all(buffer, &self.buffer.0);
        push_all(buffer, &self.cache.1);
        push_all(buffer, &self.buffer.1);
        push_all(buffer, &self.cache.2);
        push_all(buffer, &self.buffer.2);
        push_all(buffer, &vec![27u8, 91u8, 51u8, 56u8, 59u8, 53u8, 59u8, 50u8, 52u8, 52u8, 109u8, 32u8, 93u8, 27u8, 91u8, 48u8, 109u8]);
    }
}

} // verus!
