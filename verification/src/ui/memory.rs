use vstd::prelude::*;
use crate::ui::{XY, push_all, move_to, move_to_text, convert_with_padding, spec_convert_with_padding};
use crate::memory::Memory as MemoryInfo;

verus! {

/// The first cache piece of the memory widget: its title and the label of the total.
pub open spec fn memory_cache0(pos: XY) -> Seq<u8> {
    move_to_text((pos.x) as u16, (pos.y) as u16)
        + seq![27u8, 91u8, 57u8, 53u8, 109u8, 77u8, 101u8, 109u8, 111u8, 114u8, 121u8, 27u8, 91u8, 48u8, 109u8]
        + move_to_text((pos.x) as u16, (pos.y + 1) as u16)
        + seq![32u8, 32u8, 32u8, 32u8, 32u8, 32u8, 32u8, 32u8, 32u8, 32u8, 32u8, 32u8, 32u8, 32u8, 32u8, 32u8, 32u8, 32u8, 32u8, 32u8]
        + move_to_text((pos.x) as u16, (pos.y + 1) as u16)
        + seq![27u8, 91u8, 51u8, 55u8, 109u8, 84u8, 111u8, 116u8, 97u8, 108u8, 58u8, 32u8, 27u8, 91u8, 51u8, 56u8, 59u8, 53u8, 59u8, 50u8, 52u8, 52u8, 109u8, 91u8, 32u8, 27u8, 91u8, 51u8, 55u8, 109u8]
}

/// The second cache piece: closes the total, the label of what is used.
pub open spec fn memory_cache1(pos: XY) -> Seq<u8> {
    seq![27u8, 91u8, 51u8, 56u8, 59u8, 53u8, 59u8, 50u8, 52u8, 52u8, 109u8, 32u8, 93u8, 27u8, 91u8, 48u8, 109u8]
        + move_to_text((pos.x) as u16, (pos.y + 2) as u16)
        + seq![32u8, 32u8, 32u8, 32u8, 32u8, 32u8, 32u8, 32u8, 32u8, 32u8, 32u8, 32u8, 32u8, 32u8, 32u8, 32u8, 32u8, 32u8, 32u8, 32u8]
        + move_to_text((pos.x) as u16, (pos.y + 2) as u16)
        + seq![27u8, 91u8, 51u8, 55u8, 109u8, 85u8, 115u8, 101u8, 100u8, 58u8, 32u8, 32u8, 27u8, 91u8, 57u8, 49u8, 109u8, 91u8, 32u8, 27u8, 91u8, 57u8, 50u8, 109u8]
}

/// The third cache piece: closes what is used, the label of what is free.
pub open spec fn memory_cache2(pos: XY) -> Seq<u8> {
    seq![27u8, 91u8, 57u8, 49u8, 109u8, 32u8, 93u8, 27u8, 91u8, 48u8, 109u8]
        + move_to_text((pos.x) as u16, (pos.y + 3) as u16)
        + seq![32u8, 32u8, 32u8, 32u8, 32u8, 32u8, 32u8, 32u8, 32u8, 32u8, 32u8, 32u8, 32u8, 32u8, 32u8, 32u8, 32u8, 32u8, 32u8, 32u8]
        + move_to_text((pos.x) as u16, (pos.y + 3) as u16)
        + seq![27u8, 91u8, 51u8, 55u8, 109u8, 70u8, 114u8, 101u8, 101u8, 58u8, 32u8, 32u8, 27u8, 91u8, 51u8, 56u8, 59u8, 53u8, 59u8, 50u8, 52u8, 52u8, 109u8, 91u8, 32u8, 27u8, 91u8, 51u8, 55u8, 109u8]
}

/// What closes the last value of a memory or swap widget.
pub open spec fn gauge_tail() -> Seq<u8> {
    seq![27u8, 91u8, 51u8, 56u8, 59u8, 53u8, 59u8, 50u8, 52u8, 52u8, 109u8, 32u8, 93u8, 27u8, 91u8, 48u8, 109u8]
}

/// The memory widget.
pub struct Memory {
    pub pos: XY,
    pub size: XY,
    pub cache: (Vec<u8>, Vec<u8>, Vec<u8>),
}

impl Memory {
    /// The widget at `pos`, 18 columns by 4 rows, with nothing cached.
    pub fn new(pos: XY) -> (r: Self)
        ensures
            r.pos == pos,
            r.size == (XY { x: 18, y: 4 }),
            r.cache.0@.len() == 0 && r.cache.1@.len() == 0 && r.cache.2@.len() == 0,
    {
        Memory { pos, size: XY { x: 18, y: 4 }, cache: (Vec::new(), Vec::new(), Vec::new()) }
    }

    /// Builds the fixed text around the three values for the widget's
    /// position.
    pub fn rebuild_cache(&mut self)
        requires
            old(self).pos.x < u16::MAX,
            old(self).pos.y + 3 < u16::MAX,
        ensures
            final(self).cache.0@ == memory_cache0(old(self).pos),
            final(self).cache.1@ == memory_cache1(old(self).pos),
            final(self).cache.2@ == memory_cache2(old(self).pos),
            final(self).pos == old(self).pos,
            final(self).size == old(self).size,
    {
        let pos = self.pos;
        let mut c0: Vec<u8> = Vec::new();
        push_all(&mut c0, &move_to(pos.x, pos.y));
        push_all(&mut c0, &vec![27u8, 91u8, 57u8, 53u8, 109u8, 77u8, 101u8, 109u8, 111u8, 114u8, 121u8, 27u8, 91u8, 48u8, 109u8]);
        push_all(&mut c0, &move_to(pos.x, pos.y + 1));
        push_all(&mut c0, &vec![32u8, 32u8, 32u8, 32u8, 32u8, 32u8, 32u8, 32u8, 32u8, 32u8, 32u8, 32u8, 32u8, 32u8, 32u8, 32u8, 32u8, 32u8, 32u8, 32u8]);
        push_all(&mut c0, &move_to(pos.x, pos.y + 1));
        push_all(&mut c0, &vec![27u8, 91u8, 51u8, 55u8, 109u8, 84u8, 111u8, 116u8, 97u8, 108u8, 58u8, 32u8, 27u8, 91u8, 51u8, 56u8, 59u8, 53u8, 59u8, 50u8, 52u8, 52u8, 109u8, 91u8, 32u8, 27u8, 91u8, 51u8, 55u8, 109u8]);
        let mut c1: Vec<u8> = Vec::new();
        push_all(&mut c1, &vec![27u8, 91u8, 51u8, 56u8, 59u8, 53u8, 59u8, 50u8, 52u8, 52u8, 109u8, 32u8, 93u8, 27u8, 91u8, 48u8, 109u8]);
        push_all(&mut c1, &move_to(pos.x, pos.y + 2));
        push_all(&mut c1, &vec![32u8, 32u8, 32u8, 32u8, 32u8, 32u8, 32u8, 32u8, 32u8, 32u8, 32u8, 32u8, 32u8, 32u8, 32u8, 32u8, 32u8, 32u8, 32u8, 32u8]);
        push_all(&mut c1, &move_to(pos.x, pos.y + 2));
        push_all(&mut c1, &vec![27u8, 91u8, 51u8, 55u8, 109u8, 85u8, 115u8, 101u8, 100u8, 58u8, 32u8, 32u8, 27u8, 91u8, 57u8, 49u8, 109u8, 91u8, 32u8, 27u8, 91u8, 57u8, 50u8, 109u8]);
        let mut c2: Vec<u8> = Vec::new();
        push_all(&mut c2, &vec![27u8, 91u8, 57u8, 49u8, 109u8, 32u8, 93u8, 27u8, 91u8, 48u8, 109u8]);
        push_all(&mut c2, &move_to(pos.x, pos.y + 3));
        push_all(&mut c2, &vec![32u8, 32u8, 32u8, 32u8, 32u8, 32u8, 32u8, 32u8, 32u8, 32u8, 32u8, 32u8, 32u8, 32u8, 32u8, 32u8, 32u8, 32u8, 32u8, 32u8]);
        push_all(&mut c2, &move_to(pos.x, pos.y + 3));
        push_all(&mut c2, &vec![27u8, 91u8, 51u8, 55u8, 109u8, 70u8, 114u8, 101u8, 101u8, 58u8, 32u8, 32u8, 27u8, 91u8, 51u8, 56u8, 59u8, 53u8, 59u8, 50u8, 52u8, 52u8, 109u8, 91u8, 32u8, 27u8, 91u8, 51u8, 55u8, 109u8]);
        self.cache = (c0, c1, c2);
    }

    /// Writes the total, used and free memory of `info` between the cached
    /// pieces.
    pub fn draw(&self, buffer: &mut Vec<u8>, info: &MemoryInfo)
        ensures
            final(buffer)@ == old(buffer)@ + self.cache.0@ + spec_convert_with_padding(info.mem_total)
                + self.cache.1@ + spec_convert_with_padding(info.mem_used)
                + self.cache.2@ + spec_convert_with_padding(info.mem_free) + gauge_tail(),
    {
        let mut v: Vec<u8> = Vec::new();
        push_all(buffer, &self.cache.0);
        convert_with_padding(&mut v, info.mem_total);
        push_all(buffer, &v);
        push_all(buffer, &self.cache.1);
        convert_with_padding(&mut v, info.mem_used);
        push_all(buffer, &v);
        push_all(buffer, &self.cache.2);
        convert_with_padding(&mut v, info.mem_free);
        push_all(buffer, &v);
        push_all(buffer, &vec![27u8, 91u8, 51u8, 56u8, 59u8, 53u8, 59u8, 50u8, 52u8, 52u8, 109u8, 32u8, 93u8, 27u8, 91u8, 48u8, 109u8]);
    }
}

} // verus!
