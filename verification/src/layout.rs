use vstd::prelude::*;
use crate::ui::XY;

verus! {

/// Where a widget stands and how much room it takes.
#[derive(PartialEq, Eq, Structural, Debug, Clone, Copy)]
pub struct Widget {
    pub pos: XY,
    pub size: XY,
}

/// The screen: the terminal's size, whether drawing is paused, and the
/// place of every widget.
#[derive(PartialEq, Eq, Structural, Debug, Clone, Copy)]
pub struct Layout {
    pub terminal_size: XY,
    pub paused: bool,
    pub time: Widget,
    pub overview: Widget,
    pub memory: Widget,
    pub swap: Widget,
    pub loadavg: Widget,
    pub hostinfo: Widget,
    pub processes: Widget,
    pub network: Widget,
    pub sensors: Widget,
    pub gpu: Widget,
}

/// Which parts of the screen a message redraws: the widget it names and,
/// for the CPU (3) and memory (4) messages, a second one (the governor, the
/// swap widget); for the toggles (10, 11, 12), `first` is the flag marker.
#[derive(PartialEq, Eq, Structural, Debug, Clone, Copy)]
pub struct Plan {
    pub first: bool,
    pub second: bool,
}

fn widget(px: u16, py: u16, sx: u16, sy: u16) -> (r: Widget)
    ensures
        r == (Widget { pos: XY { x: px, y: py }, size: XY { x: sx, y: sy } }),
{
    Widget { pos: XY { x: px, y: py }, size: XY { x: sx, y: sy } }
}

/// The height of the network widget for `n` interfaces: two rows each and
/// two more (computed in 16 bits).
pub open spec fn network_height(n: usize) -> int {
    (n as u16) * 2 + 2
}

/// The height of the sensors widget for `n` sensors: one row each and two
/// more (computed in 16 bits).
pub open spec fn sensors_height(n: usize) -> int {
    (n as u16) + 2
}

/// There is room on the terminal to draw the process list.
pub open spec fn processes_fit(l: Layout) -> bool {
    l.terminal_size.x > l.processes.pos.x + 22 && l.terminal_size.y > l.processes.pos.y + 3
}

/// What message `item` redraws on layout `l` (see `Plan`).
pub open spec fn spec_plan(l: Layout, item: u8) -> Plan {
    let t = l.terminal_size;
    if item == 1 {
        Plan { first: t.x > l.time.size.x, second: false }
    } else if item == 2 {
        Plan { first: t.x > l.loadavg.size.x + l.loadavg.pos.x && t.y > l.loadavg.size.y, second: false }
    } else if item == 3 {
        Plan {
            first: t.x > l.overview.size.x + l.overview.pos.x && t.y > l.overview.size.y + l.overview.pos.y,
            second: processes_fit(l),
        }
    } else if item == 4 {
        Plan {
            first: t.x > l.memory.pos.x + l.memory.size.x && t.y > l.memory.pos.y + l.memory.size.y,
            second: t.x > l.swap.pos.x + l.swap.size.x && t.y > l.swap.pos.y + l.swap.size.y,
        }
    } else if item == 6 {
        Plan { first: t.x > l.sensors.size.x && t.y > l.network.size.y + l.sensors.size.y + l.overview.size.y, second: false }
    } else if item == 7 {
        Plan { first: t.x > l.network.size.x && t.y > l.network.size.y + l.overview.size.y, second: false }
    } else if item == 8 || item == 10 || item == 11 || item == 12 {
        Plan { first: processes_fit(l), second: false }
    } else if item == 9 {
        Plan { first: t.x > l.gpu.pos.x + l.gpu.size.x && t.y > l.gpu.pos.y + l.gpu.size.y, second: false }
    } else {
        Plan { first: false, second: false }
    }
}

/// What each message redraws, widget by widget: the time (1) when the
/// terminal is wider than it; the load (2) when wider than its right edge
/// and taller than it; the overview (3) when wider and taller than its right
/// and bottom edges, and with it the governor line when the process list
/// fits; memory and swap (4) each when wider and taller than its own edges;
/// sensors (6) when wider than them and taller than network, sensors and
/// overview together; network (7) when wider than it and taller than it and
/// the overview together; the process list (8, and the top-mode, smaps and
/// all-processes toggles 10, 11, 12) when it fits; the GPU (9) when wider
/// and taller than its edges; any other message nothing.
pub open spec fn plan_by_message(l: Layout, item: u8, r: Plan) -> bool {
    let t = l.terminal_size;
    let list_fits = t.x > l.processes.pos.x + 22 && t.y > l.processes.pos.y + 3;
    &&& item == 1 ==> r.first == (t.x > l.time.size.x) && !r.second
    &&& item == 2 ==> r.first == (t.x > l.loadavg.size.x + l.loadavg.pos.x && t.y > l.loadavg.size.y) && !r.second
    &&& item == 3 ==> r.first == (t.x > l.overview.size.x + l.overview.pos.x && t.y > l.overview.size.y + l.overview.pos.y)
        && r.second == list_fits
    &&& item == 4 ==> r.first == (t.x > l.memory.pos.x + l.memory.size.x && t.y > l.memory.pos.y + l.memory.size.y)
        && r.second == (t.x > l.swap.pos.x + l.swap.size.x && t.y > l.swap.pos.y + l.swap.size.y)
    &&& item == 6 ==> r.first == (t.x > l.sensors.size.x && t.y > l.network.size.y + l.sensors.size.y + l.overview.size.y)
        && !r.second
    &&& item == 7 ==> r.first == (t.x > l.network.size.x && t.y > l.network.size.y + l.overview.size.y) && !r.second
    &&& (item == 8 || item == 10 || item == 11 || item == 12) ==> r.first == list_fits && !r.second
    &&& item == 9 ==> r.first == (t.x > l.gpu.pos.x + l.gpu.size.x && t.y > l.gpu.pos.y + l.gpu.size.y) && !r.second
    &&& !(1 <= item <= 4 || 6 <= item <= 12) ==> !r.first && !r.second
}

/// The redraw decisions are the ones each message asks for, widget by
/// widget (see `plan_by_message`).
pub proof fn law_plan_by_message(l: Layout, item: u8)
    ensures
        plan_by_message(l, item, spec_plan(l, item)),
{
}

/// A terminal that grows never draws less: what a message redraws on a
/// terminal it still redraws on one at least as wide and as tall.
pub proof fn law_larger_terminal_draws_more(l: Layout, t: XY, item: u8)
    requires
        t.x >= l.terminal_size.x,
        t.y >= l.terminal_size.y,
    ensures
        spec_plan(l, item).first ==> spec_plan(Layout { terminal_size: t, ..l }, item).first,
        spec_plan(l, item).second ==> spec_plan(Layout { terminal_size: t, ..l }, item).second,
{
}

/// The sums that the redraw tests compute fit in 16 bits.
pub open spec fn sums_fit(l: Layout) -> bool {
    &&& l.loadavg.size.x + l.loadavg.pos.x <= u16::MAX
    &&& l.overview.size.x + l.overview.pos.x <= u16::MAX
    &&& l.overview.size.y + l.overview.pos.y <= u16::MAX
    &&& l.processes.pos.x + 22 <= u16::MAX
    &&& l.processes.pos.y + 3 <= u16::MAX
    &&& l.memory.pos.x + l.memory.size.x <= u16::MAX
    &&& l.memory.pos.y + l.memory.size.y <= u16::MAX
    &&& l.swap.pos.x + l.swap.size.x <= u16::MAX
    &&& l.swap.pos.y + l.swap.size.y <= u16::MAX
    &&& l.network.size.y + l.sensors.size.y + l.overview.size.y <= u16::MAX
    &&& l.network.size.y + l.overview.size.y <= u16::MAX
    &&& l.gpu.pos.x + l.gpu.size.x <= u16::MAX
    &&& l.gpu.pos.y + l.gpu.size.y <= u16::MAX
    &&& l.hostinfo.size.x + l.time.size.x <= u16::MAX
}

impl Layout {
    /// The screen of a terminal of `terminal_size`, with `interfaces`
    /// network interfaces and `sensors` sensors known: the time on the last
    /// row, the overview, memory, swap and load widgets along the top, the
    /// process list from row 6 at column 27, network from row 6, sensors
    /// from row 12 and the GPU from row 22 at column 1.
    pub fn new(terminal_size: XY, interfaces: usize, sensors: usize) -> (r: Self)
        requires
            network_height(interfaces) <= u16::MAX,
            sensors_height(sensors) <= u16::MAX,
        ensures
            r.terminal_size == terminal_size,
            !r.paused,
            r.time == (Widget { pos: XY { x: 1, y: terminal_size.y }, size: XY { x: 0, y: 1 } }),
            r.overview == (Widget { pos: XY { x: 1, y: 1 }, size: XY { x: 15, y: 4 } }),
            r.memory == (Widget { pos: XY { x: 18, y: 1 }, size: XY { x: 18, y: 4 } }),
            r.swap == (Widget { pos: XY { x: 38, y: 1 }, size: XY { x: 18, y: 4 } }),
            r.loadavg == (Widget { pos: XY { x: 58, y: 1 }, size: XY { x: 16, y: 4 } }),
            r.hostinfo == (Widget { pos: XY { x: 0, y: 0 }, size: XY { x: 0, y: 1 } }),
            r.processes == (Widget { pos: XY { x: 27, y: 6 }, size: XY { x: 0, y: 4 } }),
            r.network == (Widget { pos: XY { x: 1, y: 6 }, size: XY { x: 23, y: network_height(interfaces) as u16 } }),
            r.sensors == (Widget { pos: XY { x: 1, y: 12 }, size: XY { x: 22, y: sensors_height(sensors) as u16 } }),
            r.gpu == (Widget { pos: XY { x: 1, y: 22 }, size: XY { x: 23, y: 5 } }),
    {
        let ny = (interfaces as u16) * 2 + 2;
        let sy = (sensors as u16) + 2;
        Layout {
            terminal_size,
            paused: false,
            time: widget(1, terminal_size.y, 0, 1),
            overview: widget(1, 1, 15, 4),
            memory: widget(18, 1, 18, 4),
            swap: widget(38, 1, 18, 4),
            loadavg: widget(58, 1, 16, 4),
            hostinfo: widget(0, 0, 0, 1),
            processes: widget(27, 6, 0, 4),
            network: widget(1, 6, 23, ny),
            sensors: widget(1, 12, 22, sy),
            gpu: widget(1, 22, 23, 5),
        }
    }

    /// Pauses drawing, or resumes it.
    pub fn toggle_pause(&mut self)
        ensures
            *final(self) == (Layout { paused: !old(self).paused, ..*old(self) }),
    {
        self.paused = !self.paused;
    }

    /// Sets the terminal's size after a resize.
    pub fn set_terminal_size(&mut self, x: u16, y: u16)
        ensures
            *final(self) == (Layout { terminal_size: XY { x, y }, ..*old(self) }),
    {
        self.terminal_size = XY { x, y };
    }

    /// Lays the widgets out again: the time on the last row; the host line
    /// as wide as the distribution's and kernel's names and 9 more columns;
    /// the process list down to three rows above the bottom; the network
    /// widget sized for `interfaces`, the sensors below it sized for
    /// `sensors`, and the GPU below them.
    pub fn rebuild(&mut self, interfaces: usize, sensors: usize, dist_len: usize, kern_len: usize)
        requires
            (dist_len as u16) + (kern_len as u16) + 9 <= u16::MAX,
            network_height(interfaces) <= u16::MAX,
            sensors_height(sensors) <= u16::MAX,
            network_height(interfaces) + old(self).network.pos.y <= u16::MAX,
            network_height(interfaces) + old(self).network.pos.y + sensors_height(sensors) <= u16::MAX,
        ensures
            final(self).time == (Widget { pos: XY { x: old(self).time.pos.x, y: old(self).terminal_size.y }, ..old(self).time }),
            final(self).hostinfo == (Widget { size: XY { x: ((dist_len as u16) + (kern_len as u16) + 9) as u16, y: old(self).hostinfo.size.y }, ..old(self).hostinfo }),
            final(self).processes == (Widget {
                size: XY {
                    x: old(self).processes.size.x,
                    y: (if old(self).terminal_size.y >= old(self).processes.pos.y + 3 {
                        old(self).terminal_size.y - old(self).processes.pos.y - 3
                    } else {
                        0
                    }) as u16,
                },
                ..old(self).processes
            }),
            final(self).network == (Widget { size: XY { x: old(self).network.size.x, y: network_height(interfaces) as u16 }, ..old(self).network }),
            final(self).sensors == (Widget {
                pos: XY { x: old(self).sensors.pos.x, y: (network_height(interfaces) + old(self).network.pos.y) as u16 },
                size: XY { x: old(self).sensors.size.x, y: sensors_height(sensors) as u16 },
            }),
            final(self).gpu == (Widget {
                pos: XY { x: old(self).gpu.pos.x, y: (network_height(interfaces) + old(self).network.pos.y + sensors_height(sensors)) as u16 },
                ..old(self).gpu
            }),
            final(self).terminal_size == old(self).terminal_size,
            final(self).paused == old(self).paused,
            final(self).overview == old(self).overview,
            final(self).memory == old(self).memory,
            final(self).swap == old(self).swap,
            final(self).loadavg == old(self).loadavg,
    {
        self.time.pos.y = self.terminal_size.y;
        self.hostinfo.size.x = (dist_len as u16) + (kern_len as u16) + 9;
        let t = self.terminal_size.y;
        let a = if t >= self.processes.pos.y { t - self.processes.pos.y } else { 0 };
        self.processes.size.y = if a >= 3 { a - 3 } else { 0 };
        self.network.size.y = (interfaces as u16) * 2 + 2;
        self.sensors.pos.y = self.network.size.y + self.network.pos.y;
        self.sensors.size.y = (sensors as u16) + 2;
        self.gpu.pos.y = self.sensors.pos.y + self.sensors.size.y;
    }

    /// Whether the sums the redraw tests compute fit in 16 bits (see
    /// `sums_fit`).
    pub fn fits(&self) -> (r: bool)
        ensures
            r == sums_fit(*self),
    {
        let m: u32 = 0xffff;
        self.loadavg.size.x as u32 + self.loadavg.pos.x as u32 <= m
            && self.overview.size.x as u32 + self.overview.pos.x as u32 <= m
            && self.overview.size.y as u32 + self.overview.pos.y as u32 <= m
            && self.processes.pos.x as u32 + 22 <= m
            && self.processes.pos.y as u32 + 3 <= m
            && self.memory.pos.x as u32 + self.memory.size.x as u32 <= m
            && self.memory.pos.y as u32 + self.memory.size.y as u32 <= m
            && self.swap.pos.x as u32 + self.swap.size.x as u32 <= m
            && self.swap.pos.y as u32 + self.swap.size.y as u32 <= m
            && self.network.size.y as u32 + self.sensors.size.y as u32 + self.overview.size.y as u32 <= m
            && self.network.size.y as u32 + self.overview.size.y as u32 <= m
            && self.gpu.pos.x as u32 + self.gpu.size.x as u32 <= m
            && self.gpu.pos.y as u32 + self.gpu.size.y as u32 <= m
            && self.hostinfo.size.x as u32 + self.time.size.x as u32 <= m
    }

    /// Which parts message `item` redraws (see `spec_plan`); nothing while
    /// drawing is paused.
    pub fn plan(&self, item: u8) -> (r: Plan)
        requires
            sums_fit(*self),
        ensures
            self.paused ==> r == (Plan { first: false, second: false }),
            !self.paused ==> r == spec_plan(*self, item),
            !self.paused ==> plan_by_message(*self, item, r),
    {
        if self.paused {
            return Plan { first: false, second: false };
        }
        let t = self.terminal_size;
        let pfit = t.x > self.processes.pos.x + 22 && t.y > self.processes.pos.y + 3;
        if item == 1 {
            Plan { first: t.x > self.time.size.x, second: false }
        } else if item == 2 {
            Plan { first: t.x > self.loadavg.size.x + self.loadavg.pos.x && t.y > self.loadavg.size.y, second: false }
        } else if item == 3 {
            Plan {
                first: t.x > self.overview.size.x + self.overview.pos.x && t.y > self.overview.size.y + self.overview.pos.y,
                second: pfit,
            }
        } else if item == 4 {
            Plan {
                first: t.x > self.memory.pos.x + self.memory.size.x && t.y > self.memory.pos.y + self.memory.size.y,
                second: t.x > self.swap.pos.x + self.swap.size.x && t.y > self.swap.pos.y + self.swap.size.y,
            }
        } else if item == 6 {
            Plan { first: t.x > self.sensors.size.x && t.y > self.network.size.y + self.sensors.size.y + self.overview.size.y, second: false }
        } else if item == 7 {
            Plan { first: t.x > self.network.size.x && t.y > self.network.size.y + self.overview.size.y, second: false }
        } else if item == 8 || item == 10 || item == 11 || item == 12 {
            Plan { first: pfit, second: false }
        } else if item == 9 {
            Plan { first: t.x > self.gpu.pos.x + self.gpu.size.x && t.y > self.gpu.pos.y + self.gpu.size.y, second: false }
        } else {
            Plan { first: false, second: false }
        }
    }

    /// The host line is drawn on a rebuild when the terminal is wider than
    /// it and the clock together.
    pub fn hostinfo_fits(&self) -> (r: bool)
        requires
            self.hostinfo.size.x + self.time.size.x <= u16::MAX,
        ensures
            r == (self.terminal_size.x > self.hostinfo.size.x + self.time.size.x),
    {
        self.terminal_size.x > self.hostinfo.size.x + self.time.size.x
    }
}

/// Marks a flag of the process list: its letter in grey at its column of
/// row 6 when it is on, a blank when it is off.
pub open spec fn spec_flag_marker(col: u8, letter: u8, on: bool) -> Seq<u8> {
    if on {
        seq![27u8, 91u8, 54u8, 59u8, 51u8, col, 72u8, 27u8, 91u8, 51u8, 56u8, 59u8, 53u8, 59u8, 50u8, 52u8, 52u8, 109u8,
            letter, 27u8, 91u8, 48u8, 109u8]
    } else {
        seq![27u8, 91u8, 54u8, 59u8, 51u8, col, 72u8, 32u8]
    }
}

/// Writes the marker of a flag (see `spec_flag_marker`): top mode is `t`
/// at column 37, PSS `s` at 38, all processes `a` at 39.
pub fn flag_marker(buffer: &mut Vec<u8>, col: u8, letter: u8, on: bool)
    ensures
        final(buffer)@ == old(buffer)@ + spec_flag_marker(col, letter, on),
{
    let ghost start = buffer@;
    buffer.push(27u8);
    buffer.push(91u8);
    buffer.push(54u8);
    buffer.push(59u8);
    buffer.push(51u8);
    buffer.push(col);
    buffer.push(72u8);
    if on {
        buffer.push(27u8);
        buffer.push(91u8);
        buffer.push(51u8);
        buffer.push(56u8);
        buffer.push(59u8);
        buffer.push(53u8);
        buffer.push(59u8);
        buffer.push(50u8);
        buffer.push(52u8);
        buffer.push(52u8);
        buffer.push(109u8);
        buffer.push(letter);
        buffer.push(27u8);
        buffer.push(91u8);
        buffer.push(48u8);
        buffer.push(109u8);
    } else {
        buffer.push(32u8);
    }
    assert(buffer@ == start + spec_flag_marker(col, letter, on));
}

} // verus!
