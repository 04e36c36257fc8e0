//! rira: the verified core of a native code editor.

pub mod text;
pub mod editor;
pub mod keymap;
pub mod theme;
pub mod ui;
pub mod renderer;
pub mod cli;
