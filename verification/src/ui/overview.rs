use vstd::prelude::*;
use crate::fmt::{dec, push_dec};
use crate::ui::{XY, push_all};

verus! {

/// The first cache piece of the overview widget: its title and the CPU label.
pub open spec fn overview_cache0(pos: XY) -> Seq<u8> {
    seq![27u8, 91u8]
        + dec((pos.y) as nat)
        + seq![59u8]
        + dec((pos.x) as nat)
        + seq![72u8]
        + seq![27u8, 91u8, 57u8, 53u8, 109u8, 79u8, 118u8, 101u8, 114u8, 118u8, 105u8, 101u8, 119u8, 27u8, 91u8, 48u8, 109u8]
        + seq![27u8, 91u8]
        + dec((pos.y + 1) as nat)
        + seq![59u8]
        + dec((pos.x + 16) as nat)
        + seq![72u8]
        + seq![27u8, 91u8, 49u8, 75u8]
        + seq![27u8, 91u8]
        + dec((pos.y + 1) as nat)
        + seq![59u8]
        + dec((pos.x) as nat)
        + seq![72u8]
        + seq![27u8, 91u8, 51u8, 55u8, 109u8, 67u8, 80u8, 85u8, 58u8, 32u8, 32u8, 27u8, 91u8, 57u8, 49u8, 109u8, 91u8, 32u8, 27u8, 91u8, 57u8, 50u8, 109u8]
}

/// The second cache piece: the memory label.
pub open spec fn overview_cache1(pos: XY) -> Seq<u8> {
    seq![27u8, 91u8]
        + dec((pos.y + 2) as nat)
        + seq![59u8]
        + dec((pos.x + 16) as nat)
        + seq![72u8]
        + seq![27u8, 91u8, 49u8, 75u8]
        + seq![27u8, 91u8]
        + dec((pos.y + 2) as nat)
        + seq![59u8]
        + dec((pos.x) as nat)
        + seq![72u8]
        + seq![27u8, 91u8, 51u8, 55u8, 109u8, 77u8, 101u8, 109u8, 58u8, 32u8, 32u8, 27u8, 91u8, 57u8, 49u8, 109u8, 91u8, 32u8, 27u8, 91u8, 57u8, 50u8, 109u8]
}

/// The third cache piece: the swap label.
pub open spec fn overview_cache2(pos: XY) -> Seq<u8> {
    seq![27u8, 91u8]
        + dec((pos.y + 3) as nat)
        + seq![59u8]
        + dec((pos.x + 16) as nat)
        + seq![72u8]
        + seq![27u8, 91u8, 49u8, 75u8]
        + seq![27u8, 91u8]
        + dec((pos.y + 3) as nat)
        + seq![59u8]
        + dec((pos.x) as nat)
        + seq![72u8]
        + seq![27u8, 91u8, 51u8, 55u8, 109u8, 83u8, 119u8, 97u8, 112u8, 58u8, 32u8, 27u8, 91u8, 57u8, 49u8, 109u8, 91u8, 32u8, 27u8, 91u8, 57u8, 50u8, 109u8]
}

/// The overview widget: the fixed text in front of the CPU, memory and
/// swap percentages, which are drawn around it.
pub struct Overview {
    pub pos: XY,
    pub size: XY,
    pub cache: (Vec<u8>, Vec<u8>, Vec<u8>),
}

impl Overview {
    /// The widget at `pos`, 15 columns by 4 rows, with nothing cached.
    pub fn new(pos: XY) -> (r: Self)
        ensures
            r.pos == pos,
            r.size == (XY { x: 15, y: 4 }),
            r.cache.0@.len() == 0 && r.cache.1@.len() == 0 && r.cache.2@.len() == 0,
    {
        Overview { pos, size: XY { x: 15, y: 4 }, cache: (Vec::new(), Vec::new(), Vec::new()) }
    }

    /// Builds the fixed text for the widget's position.
    pub fn rebuild_cache(&mut self)
        requires
            old(self).pos.x + 16 <= u16::MAX,
            old(self).pos.y + 3 <= u16::MAX,
        ensures
            final(self).cache.0@ == overview_cache0(old(self).pos),
            final(self).cache.1@ == overview_cache1(old(self).pos),
            final(self).cache.2@ == overview_cache2(old(self).pos),
            final(self).pos == old(self).pos,
            final(self).size == old(self).size,
    {
        let pos = self.pos;
        let mut c0: Vec<u8> = Vec::new();
        push_all(&mut c0, &vec![27u8, 91u8]);
        push_dec(&mut c0, (pos.y) as u128);
        push_all(&mut c0, &vec![59u8]);
        push_dec(&mut c0, (pos.x) as u128);
        push_all(&mut c0, &vec![72u8]);
        push_all(&mut c0, &vec![27u8, 91u8, 57u8, 53u8, 109u8, 79u8, 118u8, 101u8, 114u8, 118u8, 105u8, 101u8, 119u8, 27u8, 91u8, 48u8, 109u8]);
        push_all(&mut c0, &vec![27u8, 91u8]);
        push_dec(&mut c0, (pos.y + 1) as u128);
        push_all(&mut c0, &vec![59u8]);
        push_dec(&mut c0, (pos.x + 16) as u128);
        push_all(&mut c0, &vec![72u8]);
        push_all(&mut c0, &vec![27u8, 91u8, 49u8, 75u8]);
        push_all(&mut c0, &vec![27u8, 91u8]);
        push_dec(&mut c0, (pos.y + 1) as u128);
        push_all(&mut c0, &vec![59u8]);
        push_dec(&mut c0, (pos.x) as u128);
        push_all(&mut c0, &vec![72u8]);
        push_all(&mut c0, &vec![27u8, 91u8, 51u8, 55u8, 109u8, 67u8, 80u8, 85u8, 58u8, 32u8, 32u8, 27u8, 91u8, 57u8, 49u8, 109u8, 91u8, 32u8, 27u8, 91u8, 57u8, 50u8, 109u8]);
        let mut c1: Vec<u8> = Vec::new();
        push_all(&mut c1, &vec![27u8, 91u8]);
        push_dec(&mut c1, (pos.y + 2) as u128);
        push_all(&mut c1, &vec![59u8]);
        push_dec(&mut c1, (pos.x + 16) as u128);
        push_all(&mut c1, &vec![72u8]);
        push_all(&mut c1, &vec![27u8, 91u8, 49u8, 75u8]);
        push_all(&mut c1, &vec![27u8, 91u8]);
        push_dec(&mut c1, (pos.y + 2) as u128);
        push_all(&mut c1, &vec![59u8]);
        push_dec(&mut c1, (pos.x) as u128);
        push_all(&mut c1, &vec![72u8]);
        push_all(&mut c1, &vec![27u8, 91u8, 51u8, 55u8, 109u8, 77u8, 101u8, 109u8, 58u8, 32u8, 32u8, 27u8, 91u8, 57u8, 49u8, 109u8, 91u8, 32u8, 27u8, 91u8, 57u8, 50u8, 109u8]);
        let mut c2: Vec<u8> = Vec::new();
        push_all(&mut c2, &vec![27u8, 91u8]);
        push_dec(&mut c2, (pos.y + 3) as u128);
        push_all(&mut c2, &vec![59u8]);
        push_dec(&mut c2, (pos.x + 16) as u128);
        push_all(&mut c2, &vec![72u8]);
        push_all(&mut c2, &vec![27u8, 91u8, 49u8, 75u8]);
        push_all(&mut c2, &vec![27u8, 91u8]);
        push_dec(&mut c2, (pos.y + 3) as u128);
        push_all(&mut c2, &vec![59u8]);
        push_dec(&mut c2, (pos.x) as u128);
        push_all(&mut c2, &vec![72u8]);
        push_all(&mut c2, &vec![27u8, 91u8, 51u8, 55u8, 109u8, 83u8, 119u8, 97u8, 112u8, 58u8, 32u8, 27u8, 91u8, 57u8, 49u8, 109u8, 91u8, 32u8, 27u8, 91u8, 57u8, 50u8, 109u8]);
        self.cache = (c0, c1, c2);
    }
}

} // verus!
