use vstd::prelude::*;
use crate::fmt::{dec, push_dec};
use crate::ui::{XY, push_all};

verus! {

/// Calls `libc_strftime::tz_set`, which sets the local time zone from the
/// environment. Nothing is claimed of it.
#[verifier::external_body]
fn tz_set() {
    libc_strftime::tz_set();
}

/// Calls `libc_strftime::set_locale`, which sets the locale from the
/// environment. Nothing is claimed of it.
#[verifier::external_body]
fn set_locale() {
    libc_strftime::set_locale();
}

/// Calls `libc_strftime::strftime_local`: the time `epoch` (seconds since
/// 1970) written by `format` in the local time zone and locale, as bytes.
/// The text depends on the time zone and the locale, so only its size is
/// claimed: the crate formats into 100 bytes and turns them into a string
/// lossily, which at most triples them. A format holding a NUL character
/// makes it panic.
#[verifier::external_body]
fn strftime_local(format: &str, epoch: i64) -> (r: Vec<u8>)
    requires
        forall|i: int| 0 <= i < format@.len() ==> format@[i] != '\0',
    ensures
        r@.len() <= 300,
{
    libc_strftime::strftime_local(format, epoch).into_bytes()
}

/// The fixed text of the time widget: the row cleared up to column
/// `width`, and the cursor at the widget's start.
pub open spec fn time_cache(pos: XY, width: u16) -> Seq<u8> {
    seq![27u8, 91u8]
        + dec((pos.y) as nat)
        + seq![59u8]
        + dec((width) as nat)
        + seq![72u8, 27u8, 91u8, 49u8, 75u8, 27u8, 91u8]
        + dec((pos.y) as nat)
        + seq![59u8]
        + dec((pos.x) as nat)
        + seq![72u8, 27u8, 91u8, 48u8, 109u8]
}

/// The cache after the widget was fitted to a text of `len` bytes: made
/// anew for the new width when the width changed.
pub open spec fn fitted_cache(pos: XY, size: XY, cache: Seq<u8>, len: nat) -> Seq<u8> {
    if size.x != (len as u16) {
        time_cache(pos, len as u16)
    } else {
        cache
    }
}

/// The clock widget: as wide as the last time it drew.
pub struct Time {
    pub pos: XY,
    pub size: XY,
    pub cache: Vec<u8>,
}

impl Time {
    /// The widget at `pos`, one row tall, with nothing cached; the local
    /// time zone and the locale are taken from the environment.
    pub fn new(pos: XY) -> (r: Self)
        ensures
            r.pos == pos,
            r.size == (XY { x: 0, y: 1 }),
            r.cache@.len() == 0,
    {
        tz_set();
        set_locale();
        Time { pos, size: XY { x: 0, y: 1 }, cache: Vec::new() }
    }

    /// Builds the fixed text for the widget's position and width.
    pub fn rebuild_cache(&mut self)
        ensures
            final(self).cache@ == time_cache(old(self).pos, old(self).size.x),
            final(self).pos == old(self).pos,
            final(self).size == old(self).size,
    {
        let pos = self.pos;
        let width = self.size.x;
        let mut c: Vec<u8> = Vec::new();
        push_all(&mut c, &vec![27u8, 91u8]);
        push_dec(&mut c, (pos.y) as u128);
        push_all(&mut c, &vec![59u8]);
        push_dec(&mut c, (width) as u128);
        push_all(&mut c, &vec![72u8, 27u8, 91u8, 49u8, 75u8, 27u8, 91u8]);
        push_dec(&mut c, (pos.y) as u128);
        push_all(&mut c, &vec![59u8]);
        push_dec(&mut c, (pos.x) as u128);
        push_all(&mut c, &vec![72u8, 27u8, 91u8, 48u8, 109u8]);
        self.cache = c;
    }

    /// Makes the widget as wide as `text` (its length taken modulo 2^16)
    /// and rebuilds the cache when the width changed.
    pub fn fit(&mut self, text: &Vec<u8>)
        ensures
            final(self).size == (XY { x: text@.len() as u16, y: old(self).size.y }),
            final(self).pos == old(self).pos,
            final(self).cache@ == fitted_cache(old(self).pos, old(self).size, old(self).cache@, text@.len()),
    {
        let length = text.len() as u16;
        if self.size.x != length {
            self.size.x = length;
            self.rebuild_cache();
        }
    }

    /// Draws `text`, the time as written: the widget is fitted to it, then
    /// the cache and the text are written.
    pub fn draw_text(&mut self, buffer: &mut Vec<u8>, text: &Vec<u8>)
        ensures
            final(self).size == (XY { x: text@.len() as u16, y: old(self).size.y }),
            final(self).pos == old(self).pos,
            final(self).cache@ == fitted_cache(old(self).pos, old(self).size, old(self).cache@, text@.len()),
            final(buffer)@ == old(buffer)@ + final(self).cache@ + text@,
    {
        self.fit(text);
        push_all(buffer, &self.cache);
        push_all(buffer, text);
    }

    /// The time `epoch` written by `format` in the local time zone, with
    /// the widget fitted to it. What the text holds depends on the time
    /// zone and the locale; the widget is fitted to whatever it is.
    pub fn gettime(&mut self, format: &str, epoch: u64) -> (r: Vec<u8>)
        requires
            forall|i: int| 0 <= i < format@.len() ==> format@[i] != '\0',
        ensures
            r@.len() <= 300,
            final(self).size == (XY { x: r@.len() as u16, y: old(self).size.y }),
            final(self).pos == old(self).pos,
            final(self).cache@ == fitted_cache(old(self).pos, old(self).size, old(self).cache@, r@.len()),
    {
        let text = strftime_local(format, epoch as i64);
        self.fit(&text);
        text
    }

    /// Draws the time `epoch` written by `format` (see `gettime` and
    /// `draw_text`).
    pub fn draw(&mut self, buffer: &mut Vec<u8>, format: &str, epoch: u64)
        requires
            forall|i: int| 0 <= i < format@.len() ==> format@[i] != '\0',
        ensures
            exists|t: Seq<u8>| {
                &&& t.len() <= 300
                &&& final(self).size == (XY { x: t.len() as u16, y: old(self).size.y })
                &&& final(self).cache@ == fitted_cache(old(self).pos, old(self).size, old(self).cache@, t.len())
                &&& final(buffer)@ == old(buffer)@ + final(self).cache@ + t
            },
            final(self).pos == old(self).pos,
    {
        let text = self.gettime(format, epoch);
        push_all(buffer, &self.cache);
        push_all(buffer, &text);
        proof {
            assert(buffer@ == old(buffer)@ + self.cache@ + text@);
        }
    }
}

} // verus!
