//! Terminal input events, as the navigation engine consumes them.

use vstd::prelude::*;

verus! {

/// One key press. Keys the engine does not interpret arrive as `Other`.
#[derive(Clone, Copy, PartialEq, Eq, Structural, Debug)]
pub enum Key {
    Char(char),
    Enter,
    Tab,
    Backspace,
    Esc,
    Up,
    Down,
    Left,
    Right,
    Other,
}

} // verus!
