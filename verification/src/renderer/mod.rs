//! The colors the renderer paints with.

pub mod palette;
pub mod title_bar;

use vstd::prelude::*;

verus! {

/// The version of the renderer component.
pub fn version() -> (v: &'static str)
    ensures
        v@ == "0.1.0"@,
{
    "0.1.0"
}

} // verus!
