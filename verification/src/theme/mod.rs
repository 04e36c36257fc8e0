//! Theme parsing and color schemes.

pub mod color;
pub mod theme;

pub use color::{Color, ColorParseError};
pub use theme::{EditorColors, SyntaxColors, Theme, UiColors};

use vstd::prelude::*;

verus! {

/// The version of the theme component.
pub fn version() -> (v: &'static str)
    ensures
        v@ == "0.1.0"@,
{
    "0.1.0"
}

} // verus!
