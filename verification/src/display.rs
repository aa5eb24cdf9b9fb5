//! The display capability consumed by the application loop.
//!
//! A display can say how many cells fit on it, hand over at most one pending
//! input event without blocking, and draw a generation. The terminal-backed
//! implementation lives outside the library, next to the process entry
//! point; a test double that records its draw calls satisfies the same
//! interface.

use crate::game::Generation;
use vstd::prelude::*;

verus! {

/// The three operations the application loop needs from a display: a size
/// query, a non-blocking poll for one pending event, and a draw of one
/// generation.
pub trait Display<Ev, Er> {
    /// How many cells fit on the display, if that can be told.
    fn available_cells(&self) -> Option<(usize, usize)>;

    /// At most one pending input event, without blocking.
    fn take_pending_event(&self) -> Result<Option<Ev>, Er>;

    /// Brings the visible surface to `gen`, by whatever full or incremental
    /// redraw the display's renderer decides on.
    fn draw(&mut self, gen: &Generation) -> Result<(), Er>;
}

} // verus!
