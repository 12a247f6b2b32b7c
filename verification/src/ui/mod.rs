//! Parts of the screen that every view shares.

use vstd::prelude::*;

pub mod command_bar;
pub mod detail;
pub mod form;
pub mod header;
pub mod input;
pub mod picker;

verus! {

/// Colours that carry a meaning.
#[derive(Clone, Copy, Debug, PartialEq, Eq, Structural)]
pub enum Color {
    Green,
    Red,
    Yellow,
    Cyan,
    DarkGray,
}

} // verus!
