//! User interface pieces: the line number gutter.

pub mod gutter;

use vstd::prelude::*;

verus! {

/// The version of the user interface component.
pub fn version() -> (v: &'static str)
    ensures
        v@ == "0.1.0"@,
{
    "0.1.0"
}

} // verus!
