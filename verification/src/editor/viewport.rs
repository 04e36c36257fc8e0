//! Viewport manages the visible area of the editor.
//!
//! Tracks which lines are currently visible and provides methods to scroll
//! and ensure the cursor stays within the visible region.

use vstd::prelude::*;

verus! {

/// Viewport manages the visible area of the editor.
#[derive(Debug, Clone)]
pub struct Viewport {
    /// First visible line (0-indexed).
    pub scroll_offset: usize,
    /// Number of visible lines.
    pub visible_lines: usize,
}

impl Viewport {
    /// The viewport a new editor starts with: at the top, 24 lines tall.
    pub open spec fn initial() -> Viewport {
        Viewport { scroll_offset: 0, visible_lines: 24 }
    }

    /// Whether line `line` is within the visible window.
    pub open spec fn shows(self, line: int) -> bool {
        self.scroll_offset <= line < self.scroll_offset + self.visible_lines
    }

    /// The scroll offset that `ensure_cursor_visible` chooses for `cursor_line`.
    pub open spec fn scrolled_to(self, cursor_line: int) -> int {
        if cursor_line < self.scroll_offset {
            cursor_line
        } else if cursor_line >= self.scroll_offset + self.visible_lines {
            if self.visible_lines == 0 {
                cursor_line
            } else {
                cursor_line - (self.visible_lines - 1)
            }
        } else {
            self.scroll_offset as int
        }
    }

    /// Create a new viewport with default settings: at the top, 24 lines tall.
    pub fn new() -> (v: Self)
        ensures
            v.scroll_offset == 0,
            v.visible_lines == 24,
    {
        Viewport { scroll_offset: 0, visible_lines: 24 }
    }

    /// Scroll up by a given number of lines, stopping at the top.
    pub fn scroll_up(&mut self, lines: usize)
        ensures
            final(self).visible_lines == old(self).visible_lines,
            final(self).scroll_offset == if old(self).scroll_offset >= lines {
                old(self).scroll_offset - lines
            } else {
                0
            },
    {
        self.scroll_offset = self.scroll_offset.saturating_sub(lines);
    }

    /// Scroll down by a given number of lines, stopping where the last of
    /// `max_lines` lines fills the bottom row (or at the top if they all fit).
    pub fn scroll_down(&mut self, lines: usize, max_lines: usize)
        requires
            old(self).scroll_offset + lines <= usize::MAX,
        ensures
            final(self).visible_lines == old(self).visible_lines,
            ({
                let max_offset = if max_lines >= old(self).visible_lines {
                    max_lines - old(self).visible_lines
                } else {
                    0
                };
                let wanted = old(self).scroll_offset + lines;
                final(self).scroll_offset == if wanted <= max_offset {
                    wanted
                } else {
                    max_offset
                }
            }),
    {
        let max_offset = max_lines.saturating_sub(self.visible_lines);
        let wanted = self.scroll_offset + lines;
        self.scroll_offset = if wanted <= max_offset {
            wanted
        } else {
            max_offset
        };
    }

    /// Adjust scroll offset so the cursor line is always visible.
    pub fn ensure_cursor_visible(&mut self, cursor_line: usize)
        requires
            old(self).scroll_offset + old(self).visible_lines <= usize::MAX,
        ensures
            final(self).visible_lines == old(self).visible_lines,
            final(self).scroll_offset == old(self).scrolled_to(cursor_line as int),
            old(self).visible_lines > 0 ==> final(self).shows(cursor_line as int),
            old(self).shows(cursor_line as int) ==> *final(self) == *old(self),
            cursor_line < usize::MAX ==> final(self).scroll_offset + final(self).visible_lines
                <= usize::MAX,
    {
        if cursor_line < self.scroll_offset {
            self.scroll_offset = cursor_line;
        } else if cursor_line >= self.scroll_offset + self.visible_lines {
            self.scroll_offset = cursor_line.saturating_sub(self.visible_lines.saturating_sub(1));
        }
    }

    /// Check if a given line is currently visible.
    pub fn is_line_visible(&self, line: usize) -> (r: bool)
        requires
            self.scroll_offset + self.visible_lines <= usize::MAX,
        ensures
            r == self.shows(line as int),
    {
        line >= self.scroll_offset && line < self.scroll_offset + self.visible_lines
    }

    /// Return the first visible line index.
    pub fn first_visible_line(&self) -> (r: usize)
        ensures
            r == self.scroll_offset,
    {
        self.scroll_offset
    }

    /// Return the last visible line index (inclusive); the first one when no line is visible.
    pub fn last_visible_line(&self) -> (r: usize)
        requires
            self.scroll_offset + self.visible_lines <= usize::MAX,
        ensures
            r == self.scroll_offset + if self.visible_lines > 0 {
                self.visible_lines - 1
            } else {
                0
            },
    {
        self.scroll_offset + self.visible_lines.saturating_sub(1)
    }
}

impl Default for Viewport {
    fn default() -> (v: Self)
        ensures
            v.scroll_offset == 0,
            v.visible_lines == 24,
    {
        Self::new()
    }
}

} // verus!
