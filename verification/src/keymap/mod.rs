//! Key binding parsing, mapping, and conflict detection.

pub mod action;
pub mod keymap;
pub mod types;

pub use action::{Action, ParseActionError};
pub use keymap::{Conflict, Keymap};
pub use types::{Key, KeyBinding, Modifiers, Platform};

use vstd::prelude::*;

verus! {

/// The version of the keymap component.
pub fn version() -> (v: &'static str)
    ensures
        v@ == "0.1.0"@,
{
    "0.1.0"
}

} // verus!
