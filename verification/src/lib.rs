//! Verified core of a terminal system monitor for 64-bit Linux: the parsers of
//! the kernel's text and binary interfaces, the bookkeeping of the io_uring
//! completion loop, the process table, the keyboard state machine and the
//! pure parts of the renderer.

pub mod text;
pub mod fmt;
pub mod process;
pub mod processes;
pub mod uring;
pub mod cpu;
pub mod loadavg;
pub mod memory;
pub mod keyed;
pub mod network;
pub mod sensors;
pub mod hostinfo;
pub mod swap;
pub mod time;
pub mod terminal;
pub mod ui;
pub mod layout;
pub mod events;
