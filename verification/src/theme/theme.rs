//! Theme structure and its defaults.

use vstd::prelude::*;
use crate::theme::color::Color;

verus! {

/// Syntax highlighting colors.
#[derive(Debug, Clone, PartialEq, Eq, Structural)]
pub struct SyntaxColors {
    pub keyword: Color,
    pub string: Color,
    pub comment: Color,
    pub function: Color,
    pub variable: Color,
    pub number: Color,
    pub typename: Color,
    pub operator: Color,
}

/// The default syntax colors, Dracula-inspired.
pub open spec fn default_syntax_colors() -> SyntaxColors {
    SyntaxColors {
        keyword: Color { r: 0xFF, g: 0x79, b: 0xC6, a: 255 },
        string: Color { r: 0xF1, g: 0xFA, b: 0x8C, a: 255 },
        comment: Color { r: 0x62, g: 0x72, b: 0xA4, a: 255 },
        function: Color { r: 0x50, g: 0xFA, b: 0x7B, a: 255 },
        variable: Color { r: 0xF8, g: 0xF8, b: 0xF2, a: 255 },
        number: Color { r: 0xBD, g: 0x93, b: 0xF9, a: 255 },
        typename: Color { r: 0x8B, g: 0xE9, b: 0xFD, a: 255 },
        operator: Color { r: 0xFF, g: 0x79, b: 0xC6, a: 255 },
    }
}

impl Default for SyntaxColors {
    fn default() -> (c: Self)
        ensures
            c == default_syntax_colors(),
    {
        SyntaxColors {
            keyword: Color::rgb(0xFF, 0x79, 0xC6),
            string: Color::rgb(0xF1, 0xFA, 0x8C),
            comment: Color::rgb(0x62, 0x72, 0xA4),
            function: Color::rgb(0x50, 0xFA, 0x7B),
            variable: Color::rgb(0xF8, 0xF8, 0xF2),
            number: Color::rgb(0xBD, 0x93, 0xF9),
            typename: Color::rgb(0x8B, 0xE9, 0xFD),
            operator: Color::rgb(0xFF, 0x79, 0xC6),
        }
    }
}

/// UI element colors.
#[derive(Debug, Clone, PartialEq, Eq, Structural)]
pub struct UiColors {
    pub sidebar_bg: Color,
    pub tab_active_bg: Color,
    pub tab_inactive_bg: Color,
    pub terminal_bg: Color,
    pub gutter: Color,
    pub diff_added: Color,
    pub diff_removed: Color,
}

/// The default UI colors.
pub open spec fn default_ui_colors() -> UiColors {
    UiColors {
        sidebar_bg: Color { r: 0x21, g: 0x22, b: 0x2C, a: 255 },
        tab_active_bg: Color { r: 0x28, g: 0x2A, b: 0x36, a: 255 },
        tab_inactive_bg: Color { r: 0x21, g: 0x22, b: 0x2C, a: 255 },
        terminal_bg: Color { r: 0x1E, g: 0x1F, b: 0x29, a: 255 },
        gutter: Color { r: 0x62, g: 0x72, b: 0xA4, a: 255 },
        diff_added: Color { r: 0x50, g: 0xFA, b: 0x7B, a: 0x33 },
        diff_removed: Color { r: 0xFF, g: 0x55, b: 0x55, a: 0x33 },
    }
}

impl Default for UiColors {
    fn default() -> (c: Self)
        ensures
            c == default_ui_colors(),
    {
        UiColors {
            sidebar_bg: Color::rgb(0x21, 0x22, 0x2C),
            tab_active_bg: Color::rgb(0x28, 0x2A, 0x36),
            tab_inactive_bg: Color::rgb(0x21, 0x22, 0x2C),
            terminal_bg: Color::rgb(0x1E, 0x1F, 0x29),
            gutter: Color::rgb(0x62, 0x72, 0xA4),
            diff_added: Color::rgba(0x50, 0xFA, 0x7B, 0x33),
            diff_removed: Color::rgba(0xFF, 0x55, 0x55, 0x33),
        }
    }
}

/// Editor area colors.
#[derive(Debug, Clone, PartialEq, Eq, Structural)]
pub struct EditorColors {
    pub background: Color,
    pub foreground: Color,
    pub cursor: Color,
    pub selection: Color,
    pub line_highlight: Color,
}

/// The default editor area colors.
pub open spec fn default_editor_colors() -> EditorColors {
    EditorColors {
        background: Color { r: 0x28, g: 0x2A, b: 0x36, a: 255 },
        foreground: Color { r: 0xF8, g: 0xF8, b: 0xF2, a: 255 },
        cursor: Color { r: 0xF8, g: 0xF8, b: 0xF2, a: 255 },
        selection: Color { r: 0x44, g: 0x47, b: 0x5A, a: 0xCC },
        line_highlight: Color { r: 0x44, g: 0x47, b: 0x5A, a: 0x66 },
    }
}

impl Default for EditorColors {
    fn default() -> (c: Self)
        ensures
            c == default_editor_colors(),
    {
        EditorColors {
            background: Color::rgb(0x28, 0x2A, 0x36),
            foreground: Color::rgb(0xF8, 0xF8, 0xF2),
            cursor: Color::rgb(0xF8, 0xF8, 0xF2),
            selection: Color::rgba(0x44, 0x47, 0x5A, 0xCC),
            line_highlight: Color::rgba(0x44, 0x47, 0x5A, 0x66),
        }
    }
}

/// A complete theme combining syntax, UI, and editor colors.
#[derive(Debug, Clone, PartialEq, Eq)]
pub struct Theme {
    pub name: String,
    pub syntax: SyntaxColors,
    pub ui: UiColors,
    pub editor: EditorColors,
}

impl Default for Theme {
    fn default() -> (t: Self)
        ensures
            t.name@ == "Rira Dark"@,
            t.syntax == default_syntax_colors(),
            t.ui == default_ui_colors(),
            t.editor == default_editor_colors(),
    {
        Theme {
            name: "Rira Dark".to_owned(),
            syntax: SyntaxColors::default(),
            ui: UiColors::default(),
            editor: EditorColors::default(),
        }
    }
}

} // verus!
