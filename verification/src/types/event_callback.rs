//! What the frame driver is told to do after input is consumed.

use vstd::prelude::*;

verus! {

/// Outcome of decoding one iteration's input: proceed to render, resize the
/// canvas and skip this frame, or leave the loop.
#[derive(Clone, Copy, Debug, PartialEq, Eq, Structural)]
pub enum EventCallback {
    Next,
    Resized(u32, u32),
    Quit,
}

} // verus!
