use vstd::prelude::*;
use crate::ui::{XY, push_all, move_to, move_to_text};
use crate::hostinfo::Hostinfo as HostinfoInfo;

verus! {

/// The widget's width for a host: the name, the kernel's release and the
/// nine bytes of brackets and spaces around them.
pub open spec fn host_width(info: HostinfoInfo) -> u16 {
    ((info.distname@.len() as u16) + (info.kernel@.len() as u16) + 9) as u16
}

/// The host line at column `x` of row `y`: the rest of the row cleared,
/// the name in the distribution's color, and the kernel's release.
pub open spec fn host_line(info: HostinfoInfo, x: u16, y: u16) -> Seq<u8> {
    move_to_text(x, y)
        + seq![27u8, 91u8, 48u8, 75u8]
        + move_to_text(x, y)
        + seq![27u8, 91u8, 57u8, 49u8, 109u8, 91u8, 32u8]
        + info.ansi_color@
        + info.distname@
        + seq![27u8, 91u8, 57u8, 49u8, 109u8, 32u8, 93u8, 32u8, 91u8, 32u8, 27u8, 91u8, 48u8, 109u8]
        + info.kernel@
        + seq![27u8, 91u8, 57u8, 49u8, 109u8, 32u8, 93u8, 27u8, 91u8, 48u8, 109u8]
}

/// The host widget, drawn at the bottom right of the terminal.
pub struct Hostinfo {
    pub pos: XY,
    pub size: XY,
    pub cache: Vec<u8>,
}

impl Hostinfo {
    /// The widget at `pos`, one row tall, with nothing cached.
    pub fn new(pos: XY) -> (r: Self)
        ensures
            r.pos == pos,
            r.size == (XY { x: 0, y: 1 }),
            r.cache@.len() == 0,
    {
        Hostinfo { pos, size: XY { x: 0, y: 1 }, cache: Vec::new() }
    }

    /// Sizes the widget for `info` and builds its line, right-aligned on the
    /// terminal's last row (from the first column when it is too wide).
    pub fn rebuild_cache(&mut self, info: &HostinfoInfo, terminal_size: XY)
        requires
            (info.distname@.len() as u16) + (info.kernel@.len() as u16) + 9 <= u16::MAX,
            terminal_size.y < u16::MAX,
        ensures
            final(self).size == (XY { x: host_width(*info), y: old(self).size.y }),
            final(self).pos == old(self).pos,
            final(self).cache@ == host_line(
                *info,
                (if terminal_size.x >= host_width(*info) { terminal_size.x - host_width(*info) } else { 0 }) as u16,
                terminal_size.y,
            ),
    {
        self.size.x = info.distname.len() as u16 + info.kernel.len() as u16 + 9;
        let x = terminal_size.x.saturating_sub(self.size.x);
        let y = terminal_size.y;
        let mut c: Vec<u8> = Vec::new();
        push_all(&mut c, &move_to(x, y));
        push_all(&mut c, &vec![27u8, 91u8, 48u8, 75u8]);
        push_all(&mut c, &move_to(x, y));
        push_all(&mut c, &vec![27u8, 91u8, 57u8, 49u8, 109u8, 91u8, 32u8]);
        push_all(&mut c, &info.ansi_color);
        push_all(&mut c, &info.distname);
        push_all(&mut c, &vec![27u8, 91u8, 57u8, 49u8, 109u8, 32u8, 93u8, 32u8, 91u8, 32u8, 27u8, 91u8, 48u8, 109u8]);
        push_all(&mut c, &info.kernel);
        push_all(&mut c, &vec![27u8, 91u8, 57u8, 49u8, 109u8, 32u8, 93u8, 27u8, 91u8, 48u8, 109u8]);
        self.cache = c;
    }

    /// Writes the host line.
    pub fn draw(&self, buffer: &mut Vec<u8>)
        ensures
            final(buffer)@ == old(buffer)@ + self.cache@,
    {
        push_all(buffer, &self.cache);
    }
}

} // verus!
