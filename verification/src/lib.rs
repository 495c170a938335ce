//! Driver for the SSD1681 e-paper display controller.
//!
//! The crate has three layers:
//!
//! - [`graphics`]: bit-packed one-bit-per-pixel frame buffers with rotation
//!   and per-plane polarity, and the pure addressing math that maps a logical
//!   pixel to a byte index and bit mask;
//! - [`driver`]: the command protocol, sequencing register writes for
//!   initialization, RAM-window selection, frame upload and refresh;
//! - [`interface`]: ordered command/data transactions over a serial bus with
//!   auxiliary control lines, abstracted as small hardware capability traits.
//!
//! Recording implementations of the hardware traits live in [`mock`], so the
//! protocol can be exercised without physical hardware.

use vstd::prelude::*;

pub mod cmd;
pub mod color;
pub mod driver;
pub mod graphics;
pub mod interface;
pub mod mock;

verus! {

/// Panel height in pixels supported by this driver.
pub const HEIGHT: u8 = 200;

/// Panel width in pixels supported by this driver.
pub const WIDTH: u8 = 200;

} // verus!
