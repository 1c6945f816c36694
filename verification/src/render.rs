//! The state a status screen displays.
//!
//! The simulation publishes one of these snapshots through a [`crate::latch::Latch`];
//! the drawing layer, which lives outside the library, reads the latest one
//! and paints it.

use vstd::prelude::*;

verus! {

/// What the display should show right now.
#[derive(Clone, Debug)]
pub enum State {
    Loading { message: String },
}

} // verus!
