use vstd::prelude::*;

verus! {

/// Input flag: ignore a break condition.
pub const IGNBRK: u32 = 0o1;
/// Input flag: a break flushes the queues and sends an interrupt.
pub const BRKINT: u32 = 0o2;
/// Input flag: mark parity errors.
pub const PARMRK: u32 = 0o10;
/// Input flag: strip the eighth bit.
pub const ISTRIP: u32 = 0o40;
/// Input flag: translate a line feed to a carriage return.
pub const INLCR: u32 = 0o100;
/// Input flag: ignore carriage returns.
pub const IGNCR: u32 = 0o200;
/// Input flag: translate a carriage return to a line feed.
pub const ICRNL: u32 = 0o400;
/// Input flag: start and stop output with control characters.
pub const IXON: u32 = 0o2000;

/// Local flag: canonical, line by line, input.
pub const ICANON: u32 = 0o2;
/// Local flag: echo what is typed.
pub const ECHO: u32 = 0o10;
/// Local flag: echo line feeds.
pub const ECHONL: u32 = 0o100;
/// Local flag: extended input processing.
pub const IEXTEN: u32 = 0o100000;

/// Output flag: post-process output.
pub const OPOST: u32 = 0o1;

/// Control flag mask: the character size.
pub const CSIZE: u32 = 0o60;
/// Control flag: eight-bit characters.
pub const CS8: u32 = 0o60;
/// Control flag: parity generation and checking.
pub const PARENB: u32 = 0o400;

/// The mode flags of a terminal's settings.
#[derive(PartialEq, Eq, Structural, Debug, Clone, Copy)]
pub struct Modes {
    pub c_iflag: u32,
    pub c_oflag: u32,
    pub c_cflag: u32,
    pub c_lflag: u32,
}

/// The flags of the raw mode made from the saved settings `m`: input
/// translation, output processing, echo and canonical input switched off,
/// eight-bit characters without parity; signals still sent.
pub fn raw_modes(m: Modes) -> (r: Modes)
    ensures
        r.c_iflag == m.c_iflag & !(IGNBRK | BRKINT | PARMRK | ISTRIP | INLCR | IGNCR | ICRNL | IXON),
        r.c_oflag == m.c_oflag & !OPOST,
        r.c_cflag == (m.c_cflag & !(CSIZE | PARENB)) | CS8,
        r.c_lflag == m.c_lflag & !(ECHO | ECHONL | ICANON | IEXTEN),
{
    Modes {
        c_iflag: m.c_iflag & !(IGNBRK | BRKINT | PARMRK | ISTRIP | INLCR | IGNCR | ICRNL | IXON),
        c_oflag: m.c_oflag & !OPOST,
        c_cflag: (m.c_cflag & !(CSIZE | PARENB)) | CS8,
        c_lflag: m.c_lflag & !(ECHO | ECHONL | ICANON | IEXTEN),
    }
}

} // verus!
