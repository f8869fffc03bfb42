//! The colours of the terminal interface.

use vstd::prelude::*;

verus! {

/// A colour of text, on a black ground.
#[derive(Clone, Copy, Debug, PartialEq, Eq, Hash, Structural)]
pub enum Color {
    Green,
    LightGreen,
    Blue,
    LightBlue,
    Red,
    White,
    Yellow,
    Magenta,
}

} // verus!
