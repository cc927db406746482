use vstd::prelude::*;
use crate::fmt::{dec, push_dec};
use crate::ui::{XY, push_all, pad_left_chars, push_left_padded_chars};
use crate::loadavg::Loadavg as LoadavgInfo;

verus! {

/// The first cache piece of the load widget: its title and the 1-minute
/// label.
pub open spec fn load_cache0(pos: XY) -> Seq<u8> {
    seq![27u8, 91u8]
        + dec((pos.y) as nat)
        + seq![59u8]
        + dec((pos.x) as nat)
        + seq![72u8, 27u8, 91u8, 57u8, 53u8, 109u8, 76u8, 111u8, 97u8, 100u8, 27u8, 91u8, 48u8, 109u8, 27u8, 91u8]
        + dec((pos.y + 1) as nat)
        + seq![59u8]
        + dec((pos.x) as nat)
        + seq![72u8, 27u8, 91u8, 48u8, 75u8, 27u8, 91u8, 51u8, 55u8, 109u8, 49u8, 32u8, 109u8, 105u8, 110u8, 58u8, 32u8, 32u8, 27u8, 91u8, 57u8, 49u8, 109u8, 91u8, 32u8, 27u8, 91u8, 57u8, 50u8, 109u8]
}

/// The second cache piece: closes the 1-minute value, the 5-minute label.
pub open spec fn load_cache1(pos: XY) -> Seq<u8> {
    seq![27u8, 91u8, 57u8, 49u8, 109u8, 32u8, 93u8, 27u8, 91u8, 48u8, 109u8, 27u8, 91u8]
        + dec((pos.y + 2) as nat)
        + seq![59u8]
        + dec((pos.x) as nat)
        + seq![72u8, 27u8, 91u8, 48u8, 75u8, 27u8, 91u8, 51u8, 55u8, 109u8, 53u8, 32u8, 109u8, 105u8, 110u8, 58u8, 32u8, 32u8, 27u8, 91u8, 57u8, 49u8, 109u8, 91u8, 32u8, 27u8, 91u8, 57u8, 50u8, 109u8]
}

/// The third cache piece: closes the 5-minute value, the 15-minute label.
pub open spec fn load_cache2(pos: XY) -> Seq<u8> {
    seq![27u8, 91u8, 57u8, 49u8, 109u8, 32u8, 93u8, 27u8, 91u8, 48u8, 109u8, 27u8, 91u8]
        + dec((pos.y + 3) as nat)
        + seq![59u8]
        + dec((pos.x) as nat)
        + seq![72u8, 27u8, 91u8, 48u8, 75u8, 27u8, 91u8, 51u8, 55u8, 109u8, 49u8, 53u8, 32u8, 109u8, 105u8, 110u8, 58u8, 32u8, 27u8, 91u8, 57u8, 49u8, 109u8, 91u8, 32u8, 27u8, 91u8, 57u8, 50u8, 109u8]
}

/// What closes the 15-minute value.
pub open spec fn load_tail() -> Seq<u8> {
    seq![27u8, 91u8, 57u8, 49u8, 109u8, 32u8, 93u8, 27u8, 91u8, 48u8, 109u8]
}

/// The load averages widget.
pub struct Loadavg {
    pub pos: XY,
    pub size: XY,
    pub cache: (Vec<u8>, Vec<u8>, Vec<u8>),
}

impl Loadavg {
    /// The widget at `pos`, 16 columns by 4 rows, with nothing cached.
    pub fn new(pos: XY) -> (r: Self)
        ensures
            r.pos == pos,
            r.size == (XY { x: 16, y: 4 }),
            r.cache.0@.len() == 0 && r.cache.1@.len() == 0 && r.cache.2@.len() == 0,
    {
        Loadavg { pos, size: XY { x: 16, y: 4 }, cache: (Vec::new(), Vec::new(), Vec::new()) }
    }

    /// Builds the fixed text around the three values for the widget's
    /// position.
    pub fn rebuild_cache(&mut self)
        requires
            old(self).pos.y + 3 <= u16::MAX,
        ensures
            final(self).cache.0@ == load_cache0(old(self).pos),
            final(self).cache.1@ == load_cache1(old(self).pos),
            final(self).cache.2@ == load_cache2(old(self).pos),
            final(self).pos == old(self).pos,
            final(self).size == old(self).size,
    {
        let pos = self.pos;
        let mut c0: Vec<u8> = Vec::new();
    push_all(&mut c0, &vec![27u8, 91u8]);
    push_dec(&mut c0, (pos.y) as u128);
    push_all(&mut c0, &vec![59u8]);
    push_dec(&mut c0, (pos.x) as u128);
    push_all(&mut c0, &vec![72u8, 27u8, 91u8, 57u8, 53u8, 109u8, 76u8, 111u8, 97u8, 100u8, 27u8, 91u8, 48u8, 109u8, 27u8, 91u8]);
    push_dec(&mut c0, (pos.y + 1) as u128);
    push_all(&mut c0, &vec![59u8]);
    push_dec(&mut c0, (pos.x) as u128);
    push_all(&mut c0, &vec![72u8, 27u8, 91u8, 48u8, 75u8, 27u8, 91u8, 51u8, 55u8, 109u8, 49u8, 32u8, 109u8, 105u8, 110u8, 58u8, 32u8, 32u8, 27u8, 91u8, 57u8, 49u8, 109u8, 91u8, 32u8, 27u8, 91u8, 57u8, 50u8, 109u8]);
        let mut c1: Vec<u8> = Vec::new();
    push_all(&mut c1, &vec![27u8, 91u8, 57u8, 49u8, 109u8, 32u8, 93u8, 27u8, 91u8, 48u8, 109u8, 27u8, 91u8]);
    push_dec(&mut c1, (pos.y + 2) as u128);
    push_all(&mut c1, &vec![59u8]);
    push_dec(&mut c1, (pos.x) as u128);
    push_all(&mut c1, &vec![72u8, 27u8, 91u8, 48u8, 75u8, 27u8, 91u8, 51u8, 55u8, 109u8, 53u8, 32u8, 109u8, 105u8, 110u8, 58u8, 32u8, 32u8, 27u8, 91u8, 57u8, 49u8, 109u8, 91u8, 32u8, 27u8, 91u8, 57u8, 50u8, 109u8]);
        let mut c2: Vec<u8> = Vec::new();
    push_all(&mut c2, &vec![27u8, 91u8, 57u8, 49u8, 109u8, 32u8, 93u8, 27u8, 91u8, 48u8, 109u8, 27u8, 91u8]);
    push_dec(&mut c2, (pos.y + 3) as u128);
    push_all(&mut c2, &vec![59u8]);
    push_dec(&mut c2, (pos.x) as u128);
    push_all(&mut c2, &vec![72u8, 27u8, 91u8, 48u8, 75u8, 27u8, 91u8, 51u8, 55u8, 109u8, 49u8, 53u8, 32u8, 109u8, 105u8, 110u8, 58u8, 32u8, 27u8, 91u8, 57u8, 49u8, 109u8, 91u8, 32u8, 27u8, 91u8, 57u8, 50u8, 109u8]);
        self.cache = (c0, c1, c2);
    }

    /// Draws the three load averages between the cached pieces, each
    /// right-aligned to the longest when their lengths differ; the widget
    /// becomes that longest length and 12 columns wide.
    #[verifier::rlimit(30)]
    pub fn draw(&mut self, buffer: &mut Vec<u8>, load: &LoadavgInfo)
        requires
            ({
                let m1 = load.min1@.len();
                let m5 = load.min5@.len();
                let m15 = load.min15@.len();
                let len = if m1 >= m5 && m1 >= m15 { m1 } else if m5 >= m15 { m5 } else { m15 };
                (len as u16) + 12 <= u16::MAX
            }),
        ensures
            ({
                let m1 = load.min1@.len();
                let m5 = load.min5@.len();
                let m15 = load.min15@.len();
                let len = if m1 >= m5 && m1 >= m15 { m1 } else if m5 >= m15 { m5 } else { m15 };
                &&& final(self).size == (XY { x: ((len as u16) + 12) as u16, y: old(self).size.y })
                &&& final(self).pos == old(self).pos
                &&& final(self).cache == old(self).cache
                &&& final(buffer)@ == old(buffer)@ + if m1 == m5 && m1 == m15 {
                    old(self).cache.0@ + load.min1@ + old(self).cache.1@ + load.min5@ + old(self).cache.2@ + load.min15@ + load_tail()
                } else {
                    old(self).cache.0@ + pad_left_chars(load.min1@, len as nat) + old(self).cache.1@
                        + pad_left_chars(load.min5@, len as nat) + old(self).cache.2@
                        + pad_left_chars(load.min15@, len as nat) + load_tail()
                }
            }),
    {
        let m1 = load.min1.len();
        let m5 = load.min5.len();
        let m15 = load.min15.len();
        let len = if m1 >= m5 && m1 >= m15 { m1 } else if m5 >= m15 { m5 } else { m15 };
        self.size.x = (len as u16) + 12;
        let ghost c0 = self.cache.0@;
        let ghost c1 = self.cache.1@;
        let ghost c2 = self.cache.2@;
        let mut out: Vec<u8> = Vec::new();
        push_all(&mut out, &self.cache.0);
        if m1 == m5 && m1 == m15 {
            push_all(&mut out, &load.min1);
            push_all(&mut out, &self.cache.1);
            push_all(&mut out, &load.min5);
            push_all(&mut out, &self.cache.2);
            push_all(&mut out, &load.min15);
            assert(out@ == c0 + load.min1@ + c1 + load.min5@ + c2 + load.min15@);
        } else {
            push_left_padded_chars(&mut out, &load.min1, len);
            push_all(&mut out, &self.cache.1);
            push_left_padded_chars(&mut out, &load.min5, len);
            push_all(&mut out, &self.cache.2);
            push_left_padded_chars(&mut out, &load.min15, len);
            assert(out@ == c0 + pad_left_chars(load.min1@, len as nat) + c1 + pad_left_chars(load.min5@, len as nat)
                + c2 + pad_left_chars(load.min15@, len as nat));
        }
        let ghost body = out@;
        push_all(&mut out, &vec![27u8, 91u8, 57u8, 49u8, 109u8, 32u8, 93u8, 27u8, 91u8, 48u8, 109u8]);
        assert(out@ == body + load_tail());
        push_all(buffer, &out);
    }
}

} // verus!
