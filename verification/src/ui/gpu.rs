use vstd::prelude::*;
use crate::fmt::{dec, push_dec};
use crate::ui::{XY, push_all};

verus! {

/// The first cache piece of the GPU widget: its title, the rows cleared, and the temperature label.
pub open spec fn gpu_cache0(pos: XY) -> Seq<u8> {
    seq![27u8, 91u8]
        + dec((pos.y) as nat)
        + seq![59u8]
        + dec((pos.x) as nat)
        + seq![72u8]
        + seq![27u8, 91u8, 57u8, 53u8, 109u8, 71u8, 112u8, 117u8, 27u8, 91u8, 48u8, 109u8]
        + seq![27u8, 91u8]
        + dec((pos.y + 1) as nat)
        + seq![59u8]
        + dec((pos.x + 24) as nat)
        + seq![72u8]
        + seq![27u8, 91u8, 49u8, 75u8]
        + seq![27u8, 91u8]
        + dec((pos.y + 2) as nat)
        + seq![59u8]
        + dec((pos.x + 24) as nat)
        + seq![72u8]
        + seq![27u8, 91u8, 49u8, 75u8]
        + seq![27u8, 91u8]
        + dec((pos.y + 3) as nat)
        + seq![59u8]
        + dec((pos.x + 24) as nat)
        + seq![72u8]
        + seq![27u8, 91u8, 49u8, 75u8]
        + seq![27u8, 91u8]
        + dec((pos.y + 4) as nat)
        + seq![59u8]
        + dec((pos.x + 24) as nat)
        + seq![72u8]
        + seq![27u8, 91u8, 49u8, 75u8]
        + seq![27u8, 91u8]
        + dec((pos.y + 1) as nat)
        + seq![59u8]
        + dec((pos.x) as nat)
        + seq![72u8]
        + seq![27u8, 91u8, 51u8, 55u8, 109u8, 84u8, 101u8, 109u8, 112u8, 58u8, 32u8, 32u8, 32u8, 32u8, 32u8, 32u8, 32u8, 32u8, 32u8, 27u8, 91u8, 57u8, 49u8, 109u8, 91u8, 32u8, 27u8, 91u8, 57u8, 50u8, 109u8]
}

/// The second cache piece: closes the temperature, the label of the GPU's load.
pub open spec fn gpu_cache1(pos: XY) -> Seq<u8> {
    seq![32u8, 67u8, 27u8, 91u8, 57u8, 49u8, 109u8, 32u8, 93u8, 27u8, 91u8, 48u8, 109u8]
        + seq![27u8, 91u8]
        + dec((pos.y + 2) as nat)
        + seq![59u8]
        + dec((pos.x) as nat)
        + seq![72u8]
        + seq![27u8, 91u8, 51u8, 55u8, 109u8, 71u8, 112u8, 117u8, 32u8, 108u8, 111u8, 97u8, 100u8, 58u8, 32u8, 32u8, 32u8, 32u8, 32u8, 27u8, 91u8, 57u8, 49u8, 109u8, 91u8, 32u8, 27u8, 91u8, 57u8, 50u8, 109u8]
}

/// The third cache piece: closes the load, the label of the memory's load.
pub open spec fn gpu_cache2(pos: XY) -> Seq<u8> {
    seq![37u8, 27u8, 91u8, 57u8, 49u8, 109u8, 32u8, 93u8, 27u8, 91u8, 48u8, 109u8]
        + seq![27u8, 91u8]
        + dec((pos.y + 3) as nat)
        + seq![59u8]
        + dec((pos.x) as nat)
        + seq![72u8]
        + seq![27u8, 91u8, 51u8, 55u8, 109u8, 77u8, 101u8, 109u8, 32u8, 108u8, 111u8, 97u8, 100u8, 58u8, 32u8, 32u8, 32u8, 32u8, 32u8, 27u8, 91u8, 57u8, 49u8, 109u8, 91u8, 32u8, 27u8, 91u8, 57u8, 50u8, 109u8]
}

/// The fourth cache piece: closes the memory's load, the label of the memory in use.
pub open spec fn gpu_cache3(pos: XY) -> Seq<u8> {
    seq![37u8, 27u8, 91u8, 57u8, 49u8, 109u8, 32u8, 93u8, 27u8, 91u8, 48u8, 109u8]
        + seq![27u8, 91u8]
        + dec((pos.y + 4) as nat)
        + seq![59u8]
        + dec((pos.x) as nat)
        + seq![72u8]
        + seq![27u8, 91u8, 51u8, 55u8, 109u8, 77u8, 101u8, 109u8, 32u8, 117u8, 115u8, 101u8, 58u8, 32u8, 32u8, 32u8, 32u8, 32u8, 32u8, 27u8, 91u8, 57u8, 49u8, 109u8, 91u8, 32u8, 27u8, 91u8, 57u8, 50u8, 109u8]
}

/// The GPU widget: the fixed text around its four values, which are drawn
/// around it.
pub struct Gpu {
    pub pos: XY,
    pub size: XY,
    pub cache1: Vec<u8>,
    pub cache2: Vec<u8>,
    pub cache3: Vec<u8>,
    pub cache4: Vec<u8>,
}

impl Gpu {
    /// The widget at `pos`, 23 columns by 5 rows, with nothing cached.
    pub fn new(pos: XY) -> (r: Self)
        ensures
            r.pos == pos,
            r.size == (XY { x: 23, y: 5 }),
            r.cache1@.len() == 0 && r.cache2@.len() == 0 && r.cache3@.len() == 0 && r.cache4@.len() == 0,
    {
        Gpu {
            pos,
            size: XY { x: 23, y: 5 },
            cache1: Vec::new(),
            cache2: Vec::new(),
            cache3: Vec::new(),
            cache4: Vec::new(),
        }
    }

    /// Builds the fixed text for the widget's position.
    pub fn rebuild_cache(&mut self)
        requires
            old(self).pos.x + 24 <= u16::MAX,
            old(self).pos.y + 4 <= u16::MAX,
        ensures
            final(self).cache1@ == gpu_cache0(old(self).pos),
            final(self).cache2@ == gpu_cache1(old(self).pos),
            final(self).cache3@ == gpu_cache2(old(self).pos),
            final(self).cache4@ == gpu_cache3(old(self).pos),
            final(self).pos == old(self).pos,
            final(self).size == old(self).size,
    {
        let pos = self.pos;
        let mut c0: Vec<u8> = Vec::new();
        push_all(&mut c0, &vec![27u8, 91u8]);
        push_dec(&mut c0, (pos.y) as u128);
        push_all(&mut c0, &vec![59u8]);
        push_dec(&mut c0, (pos.x) as u128);
        push_all(&mut c0, &vec![72u8]);
        push_all(&mut c0, &vec![27u8, 91u8, 57u8, 53u8, 109u8, 71u8, 112u8, 117u8, 27u8, 91u8, 48u8, 109u8]);
        push_all(&mut c0, &vec![27u8, 91u8]);
        push_dec(&mut c0, (pos.y + 1) as u128);
        push_all(&mut c0, &vec![59u8]);
        push_dec(&mut c0, (pos.x + 24) as u128);
        push_all(&mut c0, &vec![72u8]);
        push_all(&mut c0, &vec![27u8, 91u8, 49u8, 75u8]);
        push_all(&mut c0, &vec![27u8, 91u8]);
        push_dec(&mut c0, (pos.y + 2) as u128);
        push_all(&mut c0, &vec![59u8]);
        push_dec(&mut c0, (pos.x + 24) as u128);
        push_all(&mut c0, &vec![72u8]);
        push_all(&mut c0, &vec![27u8, 91u8, 49u8, 75u8]);
        push_all(&mut c0, &vec![27u8, 91u8]);
        push_dec(&mut c0, (pos.y + 3) as u128);
        push_all(&mut c0, &vec![59u8]);
        push_dec(&mut c0, (pos.x + 24) as u128);
        push_all(&mut c0, &vec![72u8]);
        push_all(&mut c0, &vec![27u8, 91u8, 49u8, 75u8]);
        push_all(&mut c0, &vec![27u8, 91u8]);
        push_dec(&mut c0, (pos.y + 4) as u128);
        push_all(&mut c0, &vec![59u8]);
        push_dec(&mut c0, (pos.x + 24) as u128);
        push_all(&mut c0, &vec![72u8]);
        push_all(&mut c0, &vec![27u8, 91u8, 49u8, 75u8]);
        push_all(&mut c0, &vec![27u8, 91u8]);
        push_dec(&mut c0, (pos.y + 1) as u128);
        push_all(&mut c0, &vec![59u8]);
        push_dec(&mut c0, (pos.x) as u128);
        push_all(&mut c0, &vec![72u8]);
        push_all(&mut c0, &vec![27u8, 91u8, 51u8, 55u8, 109u8, 84u8, 101u8, 109u8, 112u8, 58u8, 32u8, 32u8, 32u8, 32u8, 32u8, 32u8, 32u8, 32u8, 32u8, 27u8, 91u8, 57u8, 49u8, 109u8, 91u8, 32u8, 27u8, 91u8, 57u8, 50u8, 109u8]);
        let mut c1: Vec<u8> = Vec::new();
        push_all(&mut c1, &vec![32u8, 67u8, 27u8, 91u8, 57u8, 49u8, 109u8, 32u8, 93u8, 27u8, 91u8, 48u8, 109u8]);
        push_all(&mut c1, &vec![27u8, 91u8]);
        push_dec(&mut c1, (pos.y + 2) as u128);
        push_all(&mut c1, &vec![59u8]);
        push_dec(&mut c1, (pos.x) as u128);
        push_all(&mut c1, &vec![72u8]);
        push_all(&mut c1, &vec![27u8, 91u8, 51u8, 55u8, 109u8, 71u8, 112u8, 117u8, 32u8, 108u8, 111u8, 97u8, 100u8, 58u8, 32u8, 32u8, 32u8, 32u8, 32u8, 27u8, 91u8, 57u8, 49u8, 109u8, 91u8, 32u8, 27u8, 91u8, 57u8, 50u8, 109u8]);
        let mut c2: Vec<u8> = Vec::new();
        push_all(&mut c2, &vec![37u8, 27u8, 91u8, 57u8, 49u8, 109u8, 32u8, 93u8, 27u8, 91u8, 48u8, 109u8]);
        push_all(&mut c2, &vec![27u8, 91u8]);
        push_dec(&mut c2, (pos.y + 3) as u128);
        push_all(&mut c2, &vec![59u8]);
        push_dec(&mut c2, (pos.x) as u128);
        push_all(&mut c2, &vec![72u8]);
        push_all(&mut c2, &vec![27u8, 91u8, 51u8, 55u8, 109u8, 77u8, 101u8, 109u8, 32u8, 108u8, 111u8, 97u8, 100u8, 58u8, 32u8, 32u8, 32u8, 32u8, 32u8, 27u8, 91u8, 57u8, 49u8, 109u8, 91u8, 32u8, 27u8, 91u8, 57u8, 50u8, 109u8]);
        let mut c3: Vec<u8> = Vec::new();
        push_all(&mut c3, &vec![37u8, 27u8, 91u8, 57u8, 49u8, 109u8, 32u8, 93u8, 27u8, 91u8, 48u8, 109u8]);
        push_all(&mut c3, &vec![27u8, 91u8]);
        push_dec(&mut c3, (pos.y + 4) as u128);
        push_all(&mut c3, &vec![59u8]);
        push_dec(&mut c3, (pos.x) as u128);
        push_all(&mut c3, &vec![72u8]);
        push_all(&mut c3, &vec![27u8, 91u8, 51u8, 55u8, 109u8, 77u8, 101u8, 109u8, 32u8, 117u8, 115u8, 101u8, 58u8, 32u8, 32u8, 32u8, 32u8, 32u8, 32u8, 27u8, 91u8, 57u8, 49u8, 109u8, 91u8, 32u8, 27u8, 91u8, 57u8, 50u8, 109u8]);
        self.cache1 = c0;
        self.cache2 = c1;
        self.cache3 = c2;
        self.cache4 = c3;
    }
}

} // verus!
