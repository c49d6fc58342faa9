//! Console layer of a text-mode kernel: a memory-mapped text frame with
//! per-tab scrollback, a scan-code keyboard decoder with modifier state,
//! and a line-oriented command shell on top of them.

pub mod color;
pub mod frame;
pub mod gdt;
pub mod interrupts;
pub mod keyboard;
pub mod ring;
pub mod rng;
pub mod shell;
pub mod util;
pub mod writer;

use vstd::prelude::*;

verus! {

/// Number of rows of the text frame.
pub const BUFFER_HEIGHT: usize = 25;

/// Number of columns of the text frame; every line has exactly this length.
pub const BUFFER_WIDTH: usize = 80;

/// Capacity of each scrollback ring, in lines.
pub const LINE_NB: usize = 200;

} // verus!
