//! The button state handed to the simulation each frame.

use vstd::prelude::*;

verus! {

/// Which buttons are held at the moment a frame begins.
#[derive(Clone, Copy, Debug, PartialEq, Eq, Structural)]
pub struct InputSnapshot {
    pub forward: bool,
    pub reverse: bool,
    pub turn_left: bool,
    pub turn_right: bool,
    pub fire: bool,
    pub reset: bool,
}

impl InputSnapshot {
    /// No button held.
    pub fn idle() -> (snapshot: InputSnapshot)
        ensures
            snapshot == (InputSnapshot {
                forward: false,
                reverse: false,
                turn_left: false,
                turn_right: false,
                fire: false,
                reset: false,
            }),
    {
        InputSnapshot {
            forward: false,
            reverse: false,
            turn_left: false,
            turn_right: false,
            fire: false,
            reset: false,
        }
    }
}

} // verus!
