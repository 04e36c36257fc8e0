//! Editor actions that can be triggered by key bindings.

use vstd::prelude::*;
use crate::text::{push_str, str_eq};

verus! {

/// An editor action that can be triggered by a key binding.
#[derive(Debug, Clone, Copy, PartialEq, Eq, Structural, Hash)]
pub enum Action {
    FileSave,
    FileOpen,
    FileNew,
    FileClose,
    Undo,
    Redo,
    Copy,
    Paste,
    Cut,
    SelectAll,
    Find,
    FindReplace,
    AddCursorToNextMatch,
    ToggleSidebar,
    ToggleTerminal,
    OpenCommandPalette,
    OpenFileFinder,
    GoToLine,
    GoToDefinition,
    GoToReferences,
    ZoomIn,
    ZoomOut,
    ZoomReset,
    SplitRight,
    SplitDown,
    NextTab,
    PreviousTab,
    ToggleComment,
    IndentLine,
    OutdentLine,
}

/// The dotted name of an action.
pub open spec fn action_name(a: Action) -> Seq<char> {
    match a {
        Action::FileSave => "file.save"@,
        Action::FileOpen => "file.open"@,
        Action::FileNew => "file.new"@,
        Action::FileClose => "file.close"@,
        Action::Undo => "edit.undo"@,
        Action::Redo => "edit.redo"@,
        Action::Copy => "edit.copy"@,
        Action::Paste => "edit.paste"@,
        Action::Cut => "edit.cut"@,
        Action::SelectAll => "edit.select_all"@,
        Action::Find => "edit.find"@,
        Action::FindReplace => "edit.find_replace"@,
        Action::AddCursorToNextMatch => "edit.add_cursor_to_next_match"@,
        Action::ToggleSidebar => "view.toggle_sidebar"@,
        Action::ToggleTerminal => "view.toggle_terminal"@,
        Action::OpenCommandPalette => "view.open_command_palette"@,
        Action::OpenFileFinder => "view.open_file_finder"@,
        Action::GoToLine => "navigate.go_to_line"@,
        Action::GoToDefinition => "navigate.go_to_definition"@,
        Action::GoToReferences => "navigate.go_to_references"@,
        Action::ZoomIn => "view.zoom_in"@,
        Action::ZoomOut => "view.zoom_out"@,
        Action::ZoomReset => "view.zoom_reset"@,
        Action::SplitRight => "view.split_right"@,
        Action::SplitDown => "view.split_down"@,
        Action::NextTab => "view.next_tab"@,
        Action::PreviousTab => "view.previous_tab"@,
        Action::ToggleComment => "edit.toggle_comment"@,
        Action::IndentLine => "edit.indent_line"@,
        Action::OutdentLine => "edit.outdent_line"@,
    }
}

/// Every action, in declaration order.
pub open spec fn all_actions() -> Seq<Action> {
    seq![
        Action::FileSave,
        Action::FileOpen,
        Action::FileNew,
        Action::FileClose,
        Action::Undo,
        Action::Redo,
        Action::Copy,
        Action::Paste,
        Action::Cut,
        Action::SelectAll,
        Action::Find,
        Action::FindReplace,
        Action::AddCursorToNextMatch,
        Action::ToggleSidebar,
        Action::ToggleTerminal,
        Action::OpenCommandPalette,
        Action::OpenFileFinder,
        Action::GoToLine,
        Action::GoToDefinition,
        Action::GoToReferences,
        Action::ZoomIn,
        Action::ZoomOut,
        Action::ZoomReset,
        Action::SplitRight,
        Action::SplitDown,
        Action::NextTab,
        Action::PreviousTab,
        Action::ToggleComment,
        Action::IndentLine,
        Action::OutdentLine,
    ]
}

/// The action named `name`, if any.
pub open spec fn action_from_name(name: Seq<char>) -> Option<Action> {
    if name == "file.save"@ {
        Some(Action::FileSave)
    } else if name == "file.open"@ {
        Some(Action::FileOpen)
    } else if name == "file.new"@ {
        Some(Action::FileNew)
    } else if name == "file.close"@ {
        Some(Action::FileClose)
    } else if name == "edit.undo"@ {
        Some(Action::Undo)
    } else if name == "edit.redo"@ {
        Some(Action::Redo)
    } else if name == "edit.copy"@ {
        Some(Action::Copy)
    } else if name == "edit.paste"@ {
        Some(Action::Paste)
    } else if name == "edit.cut"@ {
        Some(Action::Cut)
    } else if name == "edit.select_all"@ {
        Some(Action::SelectAll)
    } else if name == "edit.find"@ {
        Some(Action::Find)
    } else if name == "edit.find_replace"@ {
        Some(Action::FindReplace)
    } else if name == "edit.add_cursor_to_next_match"@ {
        Some(Action::AddCursorToNextMatch)
    } else if name == "view.toggle_sidebar"@ {
        Some(Action::ToggleSidebar)
    } else if name == "view.toggle_terminal"@ {
        Some(Action::ToggleTerminal)
    } else if name == "view.open_command_palette"@ {
        Some(Action::OpenCommandPalette)
    } else if name == "view.open_file_finder"@ {
        Some(Action::OpenFileFinder)
    } else if name == "navigate.go_to_line"@ {
        Some(Action::GoToLine)
    } else if name == "navigate.go_to_definition"@ {
        Some(Action::GoToDefinition)
    } else if name == "navigate.go_to_references"@ {
        Some(Action::GoToReferences)
    } else if name == "view.zoom_in"@ {
        Some(Action::ZoomIn)
    } else if name == "view.zoom_out"@ {
        Some(Action::ZoomOut)
    } else if name == "view.zoom_reset"@ {
        Some(Action::ZoomReset)
    } else if name == "view.split_right"@ {
        Some(Action::SplitRight)
    } else if name == "view.split_down"@ {
        Some(Action::SplitDown)
    } else if name == "view.next_tab"@ {
        Some(Action::NextTab)
    } else if name == "view.previous_tab"@ {
        Some(Action::PreviousTab)
    } else if name == "edit.toggle_comment"@ {
        Some(Action::ToggleComment)
    } else if name == "edit.indent_line"@ {
        Some(Action::IndentLine)
    } else if name == "edit.outdent_line"@ {
        Some(Action::OutdentLine)
    } else {
        None
    }
}

impl Action {
    /// Get the string representation of this action (dotted notation).
    pub fn as_str(self) -> (r: &'static str)
        ensures
            r@ == action_name(self),
    {
        match self {
            Action::FileSave => "file.save",
            Action::FileOpen => "file.open",
            Action::FileNew => "file.new",
            Action::FileClose => "file.close",
            Action::Undo => "edit.undo",
            Action::Redo => "edit.redo",
            Action::Copy => "edit.copy",
            Action::Paste => "edit.paste",
            Action::Cut => "edit.cut",
            Action::SelectAll => "edit.select_all",
            Action::Find => "edit.find",
            Action::FindReplace => "edit.find_replace",
            Action::AddCursorToNextMatch => "edit.add_cursor_to_next_match",
            Action::ToggleSidebar => "view.toggle_sidebar",
            Action::ToggleTerminal => "view.toggle_terminal",
            Action::OpenCommandPalette => "view.open_command_palette",
            Action::OpenFileFinder => "view.open_file_finder",
            Action::GoToLine => "navigate.go_to_line",
            Action::GoToDefinition => "navigate.go_to_definition",
            Action::GoToReferences => "navigate.go_to_references",
            Action::ZoomIn => "view.zoom_in",
            Action::ZoomOut => "view.zoom_out",
            Action::ZoomReset => "view.zoom_reset",
            Action::SplitRight => "view.split_right",
            Action::SplitDown => "view.split_down",
            Action::NextTab => "view.next_tab",
            Action::PreviousTab => "view.previous_tab",
            Action::ToggleComment => "edit.toggle_comment",
            Action::IndentLine => "edit.indent_line",
            Action::OutdentLine => "edit.outdent_line",
        }
    }

    /// All known actions.
    pub fn all() -> (r: &'static [Action])
        ensures
            r@ == all_actions(),
    {
        &[
            Action::FileSave,
            Action::FileOpen,
            Action::FileNew,
            Action::FileClose,
            Action::Undo,
            Action::Redo,
            Action::Copy,
            Action::Paste,
            Action::Cut,
            Action::SelectAll,
            Action::Find,
            Action::FindReplace,
            Action::AddCursorToNextMatch,
            Action::ToggleSidebar,
            Action::ToggleTerminal,
            Action::OpenCommandPalette,
            Action::OpenFileFinder,
            Action::GoToLine,
            Action::GoToDefinition,
            Action::GoToReferences,
            Action::ZoomIn,
            Action::ZoomOut,
            Action::ZoomReset,
            Action::SplitRight,
            Action::SplitDown,
            Action::NextTab,
            Action::PreviousTab,
            Action::ToggleComment,
            Action::IndentLine,
            Action::OutdentLine,
        ]
    }

    /// The action whose dotted name is `s`; an error holding `s` if there is none.
    pub fn from_name(s: &str) -> (r: Result<Action, ParseActionError>)
        ensures
            match r {
                Ok(a) => action_from_name(s@) == Some(a),
                Err(e) => action_from_name(s@) is None && e.input@ == s@,
            },
    {
        if str_eq(s, "file.save") {
            Ok(Action::FileSave)
        } else if str_eq(s, "file.open") {
            Ok(Action::FileOpen)
        } else if str_eq(s, "file.new") {
            Ok(Action::FileNew)
        } else if str_eq(s, "file.close") {
            Ok(Action::FileClose)
        } else if str_eq(s, "edit.undo") {
            Ok(Action::Undo)
        } else if str_eq(s, "edit.redo") {
            Ok(Action::Redo)
        } else if str_eq(s, "edit.copy") {
            Ok(Action::Copy)
        } else if str_eq(s, "edit.paste") {
            Ok(Action::Paste)
        } else if str_eq(s, "edit.cut") {
            Ok(Action::Cut)
        } else if str_eq(s, "edit.select_all") {
            Ok(Action::SelectAll)
        } else if str_eq(s, "edit.find") {
            Ok(Action::Find)
        } else if str_eq(s, "edit.find_replace") {
            Ok(Action::FindReplace)
        } else if str_eq(s, "edit.add_cursor_to_next_match") {
            Ok(Action::AddCursorToNextMatch)
        } else if str_eq(s, "view.toggle_sidebar") {
            Ok(Action::ToggleSidebar)
        } else if str_eq(s, "view.toggle_terminal") {
            Ok(Action::ToggleTerminal)
        } else if str_eq(s, "view.open_command_palette") {
            Ok(Action::OpenCommandPalette)
        } else if str_eq(s, "view.open_file_finder") {
            Ok(Action::OpenFileFinder)
        } else if str_eq(s, "navigate.go_to_line") {
            Ok(Action::GoToLine)
        } else if str_eq(s, "navigate.go_to_definition") {
            Ok(Action::GoToDefinition)
        } else if str_eq(s, "navigate.go_to_references") {
            Ok(Action::GoToReferences)
        } else if str_eq(s, "view.zoom_in") {
            Ok(Action::ZoomIn)
        } else if str_eq(s, "view.zoom_out") {
            Ok(Action::ZoomOut)
        } else if str_eq(s, "view.zoom_reset") {
            Ok(Action::ZoomReset)
        } else if str_eq(s, "view.split_right") {
            Ok(Action::SplitRight)
        } else if str_eq(s, "view.split_down") {
            Ok(Action::SplitDown)
        } else if str_eq(s, "view.next_tab") {
            Ok(Action::NextTab)
        } else if str_eq(s, "view.previous_tab") {
            Ok(Action::PreviousTab)
        } else if str_eq(s, "edit.toggle_comment") {
            Ok(Action::ToggleComment)
        } else if str_eq(s, "edit.indent_line") {
            Ok(Action::IndentLine)
        } else if str_eq(s, "edit.outdent_line") {
            Ok(Action::OutdentLine)
        } else {
            Err(ParseActionError { input: s.to_owned() })
        }
    }

    /// The action's dotted name (`to_string` of the action).
    pub fn to_string(&self) -> (r: String)
        ensures
            r@ == action_name(*self),
    {
        self.as_str().to_owned()
    }
}

/// Error type for parsing an action from a string.
#[derive(Debug, Clone, PartialEq, Eq)]
pub struct ParseActionError {
    pub input: String,
}

impl ParseActionError {
    /// The error's message (`to_string` of the error).
    pub fn to_string(&self) -> (r: String)
        ensures
            r@ == "unknown action: '"@ + self.input@ + "'"@,
    {
        let mut s = String::new();
        push_str(&mut s, "unknown action: '");
        push_str(&mut s, self.input.as_str());
        push_str(&mut s, "'");
        assert(Seq::<char>::empty() + "unknown action: '"@ == "unknown action: '"@);
        s
    }
}

impl std::str::FromStr for Action {
    type Err = ParseActionError;

    fn from_str(s: &str) -> (r: Result<Self, Self::Err>)
        ensures
            match r {
                Ok(a) => action_from_name(s@) == Some(a),
                Err(e) => action_from_name(s@) is None && e.input@ == s@,
            },
    {
        Action::from_name(s)
    }
}

/// A few features of a name that already tell the actions' names apart: its
/// length and its chars at two positions.
spec fn name_fingerprint(s: Seq<char>) -> (nat, char, char) {
    (
        s.len(),
        if 6 < s.len() {
            s[6]
        } else {
            ' '
        },
        if 15 < s.len() {
            s[15]
        } else {
            ' '
        },
    )
}

/// Every action is found again by its name: `from_name` of `as_str` gives the action back.
pub proof fn law_action_name_roundtrip(a: Action)
    ensures
        action_from_name(action_name(a)) == Some(a),
{
    reveal_strlit("file.save");
    reveal_strlit("file.open");
    reveal_strlit("file.new");
    reveal_strlit("file.close");
    reveal_strlit("edit.undo");
    reveal_strlit("edit.redo");
    reveal_strlit("edit.copy");
    reveal_strlit("edit.paste");
    reveal_strlit("edit.cut");
    reveal_strlit("edit.select_all");
    reveal_strlit("edit.find");
    reveal_strlit("edit.find_replace");
    reveal_strlit("edit.add_cursor_to_next_match");
    reveal_strlit("view.toggle_sidebar");
    reveal_strlit("view.toggle_terminal");
    reveal_strlit("view.open_command_palette");
    reveal_strlit("view.open_file_finder");
    reveal_strlit("navigate.go_to_line");
    reveal_strlit("navigate.go_to_definition");
    reveal_strlit("navigate.go_to_references");
    reveal_strlit("view.zoom_in");
    reveal_strlit("view.zoom_out");
    reveal_strlit("view.zoom_reset");
    reveal_strlit("view.split_right");
    reveal_strlit("view.split_down");
    reveal_strlit("view.next_tab");
    reveal_strlit("view.previous_tab");
    reveal_strlit("edit.toggle_comment");
    reveal_strlit("edit.indent_line");
    reveal_strlit("edit.outdent_line");
    assert(name_fingerprint("file.save"@) == (9nat, 'a', ' '));
    assert(name_fingerprint("file.open"@) == (9nat, 'p', ' '));
    assert(name_fingerprint("file.new"@) == (8nat, 'e', ' '));
    assert(name_fingerprint("file.close"@) == (10nat, 'l', ' '));
    assert(name_fingerprint("edit.undo"@) == (9nat, 'n', ' '));
    assert(name_fingerprint("edit.redo"@) == (9nat, 'e', ' '));
    assert(name_fingerprint("edit.copy"@) == (9nat, 'o', ' '));
    assert(name_fingerprint("edit.paste"@) == (10nat, 'a', ' '));
    assert(name_fingerprint("edit.cut"@) == (8nat, 'u', ' '));
    assert(name_fingerprint("edit.select_all"@) == (15nat, 'e', ' '));
    assert(name_fingerprint("edit.find"@) == (9nat, 'i', ' '));
    assert(name_fingerprint("edit.find_replace"@) == (17nat, 'i', 'c'));
    assert(name_fingerprint("edit.add_cursor_to_next_match"@) == (29nat, 'd', '_'));
    assert(name_fingerprint("view.toggle_sidebar"@) == (19nat, 'o', 'e'));
    assert(name_fingerprint("view.toggle_terminal"@) == (20nat, 'o', 'm'));
    assert(name_fingerprint("view.open_command_palette"@) == (25nat, 'p', 'n'));
    assert(name_fingerprint("view.open_file_finder"@) == (21nat, 'p', 'f'));
    assert(name_fingerprint("navigate.go_to_line"@) == (19nat, 't', 'l'));
    assert(name_fingerprint("navigate.go_to_definition"@) == (25nat, 't', 'd'));
    assert(name_fingerprint("navigate.go_to_references"@) == (25nat, 't', 'r'));
    assert(name_fingerprint("view.zoom_in"@) == (12nat, 'o', ' '));
    assert(name_fingerprint("view.zoom_out"@) == (13nat, 'o', ' '));
    assert(name_fingerprint("view.zoom_reset"@) == (15nat, 'o', ' '));
    assert(name_fingerprint("view.split_right"@) == (16nat, 'p', 't'));
    assert(name_fingerprint("view.split_down"@) == (15nat, 'p', ' '));
    assert(name_fingerprint("view.next_tab"@) == (13nat, 'e', ' '));
    assert(name_fingerprint("view.previous_tab"@) == (17nat, 'r', 'a'));
    assert(name_fingerprint("edit.toggle_comment"@) == (19nat, 'o', 'm'));
    assert(name_fingerprint("edit.indent_line"@) == (16nat, 'n', 'e'));
    assert(name_fingerprint("edit.outdent_line"@) == (17nat, 'u', 'n'));
    match a {
        Action::FileSave => {},
        Action::FileOpen => {},
        Action::FileNew => {},
        Action::FileClose => {},
        Action::Undo => {},
        Action::Redo => {},
        Action::Copy => {},
        Action::Paste => {},
        Action::Cut => {},
        Action::SelectAll => {},
        Action::Find => {},
        Action::FindReplace => {},
        Action::AddCursorToNextMatch => {},
        Action::ToggleSidebar => {},
        Action::ToggleTerminal => {},
        Action::OpenCommandPalette => {},
        Action::OpenFileFinder => {},
        Action::GoToLine => {},
        Action::GoToDefinition => {},
        Action::GoToReferences => {},
        Action::ZoomIn => {},
        Action::ZoomOut => {},
        Action::ZoomReset => {},
        Action::SplitRight => {},
        Action::SplitDown => {},
        Action::NextTab => {},
        Action::PreviousTab => {},
        Action::ToggleComment => {},
        Action::IndentLine => {},
        Action::OutdentLine => {},
    }
}

/// Whether `s` is a lowercase snake_case word: not empty, and only `a` to `z` and `_`.
pub open spec fn is_snake_word(s: Seq<char>) -> bool {
    &&& s.len() > 0
    &&& forall|i: int| 0 <= i < s.len() ==> (97 <= (#[trigger] s[i] as u32) <= 122 || s[i] == '_')
}

/// Whether `c` is one of the categories of action names.
pub open spec fn is_action_category(c: Seq<char>) -> bool {
    c == "file"@ || c == "edit"@ || c == "view"@ || c == "navigate"@
}

/// Law: every action name is a category (file, edit, view or navigate), a
/// dot, then a lowercase snake_case word; and two actions with the same name
/// are the same action.
pub proof fn law_action_name_format(a: Action, b: Action)
    ensures
        exists|cat: Seq<char>, word: Seq<char>|
            #![trigger is_action_category(cat), is_snake_word(word)]
            is_action_category(cat) && is_snake_word(word) && action_name(a) == cat + seq!['.']
                + word,
        action_name(a) == action_name(b) ==> a == b,
{
    law_action_name_roundtrip(a);
    law_action_name_roundtrip(b);
    match a {
        Action::FileSave => {
            assert(is_action_category("file"@) && is_snake_word(seq!['s', 'a', 'v', 'e']) && action_name(a) == "file"@
                + seq!['.'] + seq!['s', 'a', 'v', 'e']) by {
                reveal_strlit("file.save");
                reveal_strlit("file");
                assert("file"@ + seq!['.'] + seq!['s', 'a', 'v', 'e'] =~= "file.save"@);
            }
        },
        Action::FileOpen => {
            assert(is_action_category("file"@) && is_snake_word(seq!['o', 'p', 'e', 'n']) && action_name(a) == "file"@
                + seq!['.'] + seq!['o', 'p', 'e', 'n']) by {
                reveal_strlit("file.open");
                reveal_strlit("file");
                assert("file"@ + seq!['.'] + seq!['o', 'p', 'e', 'n'] =~= "file.open"@);
            }
        },
        Action::FileNew => {
            assert(is_action_category("file"@) && is_snake_word(seq!['n', 'e', 'w']) && action_name(a) == "file"@
                + seq!['.'] + seq!['n', 'e', 'w']) by {
                reveal_strlit("file.new");
                reveal_strlit("file");
                assert("file"@ + seq!['.'] + seq!['n', 'e', 'w'] =~= "file.new"@);
            }
        },
        Action::FileClose => {
            assert(is_action_category("file"@) && is_snake_word(seq!['c', 'l', 'o', 's', 'e']) && action_name(a) == "file"@
                + seq!['.'] + seq!['c', 'l', 'o', 's', 'e']) by {
                reveal_strlit("file.close");
                reveal_strlit("file");
                assert("file"@ + seq!['.'] + seq!['c', 'l', 'o', 's', 'e'] =~= "file.close"@);
            }
        },
        Action::Undo => {
            assert(is_action_category("edit"@) && is_snake_word(seq!['u', 'n', 'd', 'o']) && action_name(a) == "edit"@
                + seq!['.'] + seq!['u', 'n', 'd', 'o']) by {
                reveal_strlit("edit.undo");
                reveal_strlit("edit");
                assert("edit"@ + seq!['.'] + seq!['u', 'n', 'd', 'o'] =~= "edit.undo"@);
            }
        },
        Action::Redo => {
            assert(is_action_category("edit"@) && is_snake_word(seq!['r', 'e', 'd', 'o']) && action_name(a) == "edit"@
                + seq!['.'] + seq!['r', 'e', 'd', 'o']) by {
                reveal_strlit("edit.redo");
                reveal_strlit("edit");
                assert("edit"@ + seq!['.'] + seq!['r', 'e', 'd', 'o'] =~= "edit.redo"@);
            }
        },
        Action::Copy => {
            assert(is_action_category("edit"@) && is_snake_word(seq!['c', 'o', 'p', 'y']) && action_name(a) == "edit"@
                + seq!['.'] + seq!['c', 'o', 'p', 'y']) by {
                reveal_strlit("edit.copy");
                reveal_strlit("edit");
                assert("edit"@ + seq!['.'] + seq!['c', 'o', 'p', 'y'] =~= "edit.copy"@);
            }
        },
        Action::Paste => {
            assert(is_action_category("edit"@) && is_snake_word(seq!['p', 'a', 's', 't', 'e']) && action_name(a) == "edit"@
                + seq!['.'] + seq!['p', 'a', 's', 't', 'e']) by {
                reveal_strlit("edit.paste");
                reveal_strlit("edit");
                assert("edit"@ + seq!['.'] + seq!['p', 'a', 's', 't', 'e'] =~= "edit.paste"@);
            }
        },
        Action::Cut => {
            assert(is_action_category("edit"@) && is_snake_word(seq!['c', 'u', 't']) && action_name(a) == "edit"@
                + seq!['.'] + seq!['c', 'u', 't']) by {
                reveal_strlit("edit.cut");
                reveal_strlit("edit");
                assert("edit"@ + seq!['.'] + seq!['c', 'u', 't'] =~= "edit.cut"@);
            }
        },
        Action::SelectAll => {
            assert(is_action_category("edit"@) && is_snake_word(seq!['s', 'e', 'l', 'e', 'c', 't', '_', 'a', 'l', 'l']) && action_name(a) == "edit"@
                + seq!['.'] + seq!['s', 'e', 'l', 'e', 'c', 't', '_', 'a', 'l', 'l']) by {
                reveal_strlit("edit.select_all");
                reveal_strlit("edit");
                assert("edit"@ + seq!['.'] + seq!['s', 'e', 'l', 'e', 'c', 't', '_', 'a', 'l', 'l'] =~= "edit.select_all"@);
            }
        },
        Action::Find => {
            assert(is_action_category("edit"@) && is_snake_word(seq!['f', 'i', 'n', 'd']) && action_name(a) == "edit"@
                + seq!['.'] + seq!['f', 'i', 'n', 'd']) by {
                reveal_strlit("edit.find");
                reveal_strlit("edit");
                assert("edit"@ + seq!['.'] + seq!['f', 'i', 'n', 'd'] =~= "edit.find"@);
            }
        },
        Action::FindReplace => {
            assert(is_action_category("edit"@) && is_snake_word(seq!['f', 'i', 'n', 'd', '_', 'r', 'e', 'p', 'l', 'a', 'c', 'e']) && action_name(a) == "edit"@
                + seq!['.'] + seq!['f', 'i', 'n', 'd', '_', 'r', 'e', 'p', 'l', 'a', 'c', 'e']) by {
                reveal_strlit("edit.find_replace");
                reveal_strlit("edit");
                assert("edit"@ + seq!['.'] + seq!['f', 'i', 'n', 'd', '_', 'r', 'e', 'p', 'l', 'a', 'c', 'e'] =~= "edit.find_replace"@);
            }
        },
        Action::AddCursorToNextMatch => {
            assert(is_action_category("edit"@) && is_snake_word(seq!['a', 'd', 'd', '_', 'c', 'u', 'r', 's', 'o', 'r', '_', 't', 'o', '_', 'n', 'e', 'x', 't', '_', 'm', 'a', 't', 'c', 'h']) && action_name(a) == "edit"@
                + seq!['.'] + seq!['a', 'd', 'd', '_', 'c', 'u', 'r', 's', 'o', 'r', '_', 't', 'o', '_', 'n', 'e', 'x', 't', '_', 'm', 'a', 't', 'c', 'h']) by {
                reveal_strlit("edit.add_cursor_to_next_match");
                reveal_strlit("edit");
                assert("edit"@ + seq!['.'] + seq!['a', 'd', 'd', '_', 'c', 'u', 'r', 's', 'o', 'r', '_', 't', 'o', '_', 'n', 'e', 'x', 't', '_', 'm', 'a', 't', 'c', 'h'] =~= "edit.add_cursor_to_next_match"@);
            }
        },
        Action::ToggleSidebar => {
            assert(is_action_category("view"@) && is_snake_word(seq!['t', 'o', 'g', 'g', 'l', 'e', '_', 's', 'i', 'd', 'e', 'b', 'a', 'r']) && action_name(a) == "view"@
                + seq!['.'] + seq!['t', 'o', 'g', 'g', 'l', 'e', '_', 's', 'i', 'd', 'e', 'b', 'a', 'r']) by {
                reveal_strlit("view.toggle_sidebar");
                reveal_strlit("view");
                assert("view"@ + seq!['.'] + seq!['t', 'o', 'g', 'g', 'l', 'e', '_', 's', 'i', 'd', 'e', 'b', 'a', 'r'] =~= "view.toggle_sidebar"@);
            }
        },
        Action::ToggleTerminal => {
            assert(is_action_category("view"@) && is_snake_word(seq!['t', 'o', 'g', 'g', 'l', 'e', '_', 't', 'e', 'r', 'm', 'i', 'n', 'a', 'l']) && action_name(a) == "view"@
                + seq!['.'] + seq!['t', 'o', 'g', 'g', 'l', 'e', '_', 't', 'e', 'r', 'm', 'i', 'n', 'a', 'l']) by {
                reveal_strlit("view.toggle_terminal");
                reveal_strlit("view");
                assert("view"@ + seq!['.'] + seq!['t', 'o', 'g', 'g', 'l', 'e', '_', 't', 'e', 'r', 'm', 'i', 'n', 'a', 'l'] =~= "view.toggle_terminal"@);
            }
        },
        Action::OpenCommandPalette => {
            assert(is_action_category("view"@) && is_snake_word(seq!['o', 'p', 'e', 'n', '_', 'c', 'o', 'm', 'm', 'a', 'n', 'd', '_', 'p', 'a', 'l', 'e', 't', 't', 'e']) && action_name(a) == "view"@
                + seq!['.'] + seq!['o', 'p', 'e', 'n', '_', 'c', 'o', 'm', 'm', 'a', 'n', 'd', '_', 'p', 'a', 'l', 'e', 't', 't', 'e']) by {
                reveal_strlit("view.open_command_palette");
                reveal_strlit("view");
                assert("view"@ + seq!['.'] + seq!['o', 'p', 'e', 'n', '_', 'c', 'o', 'm', 'm', 'a', 'n', 'd', '_', 'p', 'a', 'l', 'e', 't', 't', 'e'] =~= "view.open_command_palette"@);
            }
        },
        Action::OpenFileFinder => {
            assert(is_action_category("view"@) && is_snake_word(seq!['o', 'p', 'e', 'n', '_', 'f', 'i', 'l', 'e', '_', 'f', 'i', 'n', 'd', 'e', 'r']) && action_name(a) == "view"@
                + seq!['.'] + seq!['o', 'p', 'e', 'n', '_', 'f', 'i', 'l', 'e', '_', 'f', 'i', 'n', 'd', 'e', 'r']) by {
                reveal_strlit("view.open_file_finder");
                reveal_strlit("view");
                assert("view"@ + seq!['.'] + seq!['o', 'p', 'e', 'n', '_', 'f', 'i', 'l', 'e', '_', 'f', 'i', 'n', 'd', 'e', 'r'] =~= "view.open_file_finder"@);
            }
        },
        Action::GoToLine => {
            assert(is_action_category("navigate"@) && is_snake_word(seq!['g', 'o', '_', 't', 'o', '_', 'l', 'i', 'n', 'e']) && action_name(a) == "navigate"@
                + seq!['.'] + seq!['g', 'o', '_', 't', 'o', '_', 'l', 'i', 'n', 'e']) by {
                reveal_strlit("navigate.go_to_line");
                reveal_strlit("navigate");
                assert("navigate"@ + seq!['.'] + seq!['g', 'o', '_', 't', 'o', '_', 'l', 'i', 'n', 'e'] =~= "navigate.go_to_line"@);
            }
        },
        Action::GoToDefinition => {
            assert(is_action_category("navigate"@) && is_snake_word(seq!['g', 'o', '_', 't', 'o', '_', 'd', 'e', 'f', 'i', 'n', 'i', 't', 'i', 'o', 'n']) && action_name(a) == "navigate"@
                + seq!['.'] + seq!['g', 'o', '_', 't', 'o', '_', 'd', 'e', 'f', 'i', 'n', 'i', 't', 'i', 'o', 'n']) by {
                reveal_strlit("navigate.go_to_definition");
                reveal_strlit("navigate");
                assert("navigate"@ + seq!['.'] + seq!['g', 'o', '_', 't', 'o', '_', 'd', 'e', 'f', 'i', 'n', 'i', 't', 'i', 'o', 'n'] =~= "navigate.go_to_definition"@);
            }
        },
        Action::GoToReferences => {
            assert(is_action_category("navigate"@) && is_snake_word(seq!['g', 'o', '_', 't', 'o', '_', 'r', 'e', 'f', 'e', 'r', 'e', 'n', 'c', 'e', 's']) && action_name(a) == "navigate"@
                + seq!['.'] + seq!['g', 'o', '_', 't', 'o', '_', 'r', 'e', 'f', 'e', 'r', 'e', 'n', 'c', 'e', 's']) by {
                reveal_strlit("navigate.go_to_references");
                reveal_strlit("navigate");
                assert("navigate"@ + seq!['.'] + seq!['g', 'o', '_', 't', 'o', '_', 'r', 'e', 'f', 'e', 'r', 'e', 'n', 'c', 'e', 's'] =~= "navigate.go_to_references"@);
            }
        },
        Action::ZoomIn => {
            assert(is_action_category("view"@) && is_snake_word(seq!['z', 'o', 'o', 'm', '_', 'i', 'n']) && action_name(a) == "view"@
                + seq!['.'] + seq!['z', 'o', 'o', 'm', '_', 'i', 'n']) by {
                reveal_strlit("view.zoom_in");
                reveal_strlit("view");
                assert("view"@ + seq!['.'] + seq!['z', 'o', 'o', 'm', '_', 'i', 'n'] =~= "view.zoom_in"@);
            }
        },
        Action::ZoomOut => {
            assert(is_action_category("view"@) && is_snake_word(seq!['z', 'o', 'o', 'm', '_', 'o', 'u', 't']) && action_name(a) == "view"@
                + seq!['.'] + seq!['z', 'o', 'o', 'm', '_', 'o', 'u', 't']) by {
                reveal_strlit("view.zoom_out");
                reveal_strlit("view");
                assert("view"@ + seq!['.'] + seq!['z', 'o', 'o', 'm', '_', 'o', 'u', 't'] =~= "view.zoom_out"@);
            }
        },
        Action::ZoomReset => {
            assert(is_action_category("view"@) && is_snake_word(seq!['z', 'o', 'o', 'm', '_', 'r', 'e', 's', 'e', 't']) && action_name(a) == "view"@
                + seq!['.'] + seq!['z', 'o', 'o', 'm', '_', 'r', 'e', 's', 'e', 't']) by {
                reveal_strlit("view.zoom_reset");
                reveal_strlit("view");
                assert("view"@ + seq!['.'] + seq!['z', 'o', 'o', 'm', '_', 'r', 'e', 's', 'e', 't'] =~= "view.zoom_reset"@);
            }
        },
        Action::SplitRight => {
            assert(is_action_category("view"@) && is_snake_word(seq!['s', 'p', 'l', 'i', 't', '_', 'r', 'i', 'g', 'h', 't']) && action_name(a) == "view"@
                + seq!['.'] + seq!['s', 'p', 'l', 'i', 't', '_', 'r', 'i', 'g', 'h', 't']) by {
                reveal_strlit("view.split_right");
                reveal_strlit("view");
                assert("view"@ + seq!['.'] + seq!['s', 'p', 'l', 'i', 't', '_', 'r', 'i', 'g', 'h', 't'] =~= "view.split_right"@);
            }
        },
        Action::SplitDown => {
            assert(is_action_category("view"@) && is_snake_word(seq!['s', 'p', 'l', 'i', 't', '_', 'd', 'o', 'w', 'n']) && action_name(a) == "view"@
                + seq!['.'] + seq!['s', 'p', 'l', 'i', 't', '_', 'd', 'o', 'w', 'n']) by {
                reveal_strlit("view.split_down");
                reveal_strlit("view");
                assert("view"@ + seq!['.'] + seq!['s', 'p', 'l', 'i', 't', '_', 'd', 'o', 'w', 'n'] =~= "view.split_down"@);
            }
        },
        Action::NextTab => {
            assert(is_action_category("view"@) && is_snake_word(seq!['n', 'e', 'x', 't', '_', 't', 'a', 'b']) && action_name(a) == "view"@
                + seq!['.'] + seq!['n', 'e', 'x', 't', '_', 't', 'a', 'b']) by {
                reveal_strlit("view.next_tab");
                reveal_strlit("view");
                assert("view"@ + seq!['.'] + seq!['n', 'e', 'x', 't', '_', 't', 'a', 'b'] =~= "view.next_tab"@);
            }
        },
        Action::PreviousTab => {
            assert(is_action_category("view"@) && is_snake_word(seq!['p', 'r', 'e', 'v', 'i', 'o', 'u', 's', '_', 't', 'a', 'b']) && action_name(a) == "view"@
                + seq!['.'] + seq!['p', 'r', 'e', 'v', 'i', 'o', 'u', 's', '_', 't', 'a', 'b']) by {
                reveal_strlit("view.previous_tab");
                reveal_strlit("view");
                assert("view"@ + seq!['.'] + seq!['p', 'r', 'e', 'v', 'i', 'o', 'u', 's', '_', 't', 'a', 'b'] =~= "view.previous_tab"@);
            }
        },
        Action::ToggleComment => {
            assert(is_action_category("edit"@) && is_snake_word(seq!['t', 'o', 'g', 'g', 'l', 'e', '_', 'c', 'o', 'm', 'm', 'e', 'n', 't']) && action_name(a) == "edit"@
                + seq!['.'] + seq!['t', 'o', 'g', 'g', 'l', 'e', '_', 'c', 'o', 'm', 'm', 'e', 'n', 't']) by {
                reveal_strlit("edit.toggle_comment");
                reveal_strlit("edit");
                assert("edit"@ + seq!['.'] + seq!['t', 'o', 'g', 'g', 'l', 'e', '_', 'c', 'o', 'm', 'm', 'e', 'n', 't'] =~= "edit.toggle_comment"@);
            }
        },
        Action::IndentLine => {
            assert(is_action_category("edit"@) && is_snake_word(seq!['i', 'n', 'd', 'e', 'n', 't', '_', 'l', 'i', 'n', 'e']) && action_name(a) == "edit"@
                + seq!['.'] + seq!['i', 'n', 'd', 'e', 'n', 't', '_', 'l', 'i', 'n', 'e']) by {
                reveal_strlit("edit.indent_line");
                reveal_strlit("edit");
                assert("edit"@ + seq!['.'] + seq!['i', 'n', 'd', 'e', 'n', 't', '_', 'l', 'i', 'n', 'e'] =~= "edit.indent_line"@);
            }
        },
        Action::OutdentLine => {
            assert(is_action_category("edit"@) && is_snake_word(seq!['o', 'u', 't', 'd', 'e', 'n', 't', '_', 'l', 'i', 'n', 'e']) && action_name(a) == "edit"@
                + seq!['.'] + seq!['o', 'u', 't', 'd', 'e', 'n', 't', '_', 'l', 'i', 'n', 'e']) by {
                reveal_strlit("edit.outdent_line");
                reveal_strlit("edit");
                assert("edit"@ + seq!['.'] + seq!['o', 'u', 't', 'd', 'e', 'n', 't', '_', 'l', 'i', 'n', 'e'] =~= "edit.outdent_line"@);
            }
        },
    }
}

/// Law: each action has its own dotted name, and that name reads back as the
/// action: `ZoomIn` is "view.zoom_in", `ZoomOut` "view.zoom_out", and so on
/// for every action.
pub proof fn law_action_name_table()
    ensures
        action_name(Action::FileSave) == "file.save"@,
        action_name(Action::FileOpen) == "file.open"@,
        action_name(Action::FileNew) == "file.new"@,
        action_name(Action::FileClose) == "file.close"@,
        action_name(Action::Undo) == "edit.undo"@,
        action_name(Action::Redo) == "edit.redo"@,
        action_name(Action::Copy) == "edit.copy"@,
        action_name(Action::Paste) == "edit.paste"@,
        action_name(Action::Cut) == "edit.cut"@,
        action_name(Action::SelectAll) == "edit.select_all"@,
        action_name(Action::Find) == "edit.find"@,
        action_name(Action::FindReplace) == "edit.find_replace"@,
        action_name(Action::AddCursorToNextMatch) == "edit.add_cursor_to_next_match"@,
        action_name(Action::ToggleSidebar) == "view.toggle_sidebar"@,
        action_name(Action::ToggleTerminal) == "view.toggle_terminal"@,
        action_name(Action::OpenCommandPalette) == "view.open_command_palette"@,
        action_name(Action::OpenFileFinder) == "view.open_file_finder"@,
        action_name(Action::GoToLine) == "navigate.go_to_line"@,
        action_name(Action::GoToDefinition) == "navigate.go_to_definition"@,
        action_name(Action::GoToReferences) == "navigate.go_to_references"@,
        action_name(Action::ZoomIn) == "view.zoom_in"@,
        action_name(Action::ZoomOut) == "view.zoom_out"@,
        action_name(Action::ZoomReset) == "view.zoom_reset"@,
        action_name(Action::SplitRight) == "view.split_right"@,
        action_name(Action::SplitDown) == "view.split_down"@,
        action_name(Action::NextTab) == "view.next_tab"@,
        action_name(Action::PreviousTab) == "view.previous_tab"@,
        action_name(Action::ToggleComment) == "edit.toggle_comment"@,
        action_name(Action::IndentLine) == "edit.indent_line"@,
        action_name(Action::OutdentLine) == "edit.outdent_line"@,
        action_from_name("file.save"@) == Some(Action::FileSave),
        action_from_name("file.open"@) == Some(Action::FileOpen),
        action_from_name("file.new"@) == Some(Action::FileNew),
        action_from_name("file.close"@) == Some(Action::FileClose),
        action_from_name("edit.undo"@) == Some(Action::Undo),
        action_from_name("edit.redo"@) == Some(Action::Redo),
        action_from_name("edit.copy"@) == Some(Action::Copy),
        action_from_name("edit.paste"@) == Some(Action::Paste),
        action_from_name("edit.cut"@) == Some(Action::Cut),
        action_from_name("edit.select_all"@) == Some(Action::SelectAll),
        action_from_name("edit.find"@) == Some(Action::Find),
        action_from_name("edit.find_replace"@) == Some(Action::FindReplace),
        action_from_name("edit.add_cursor_to_next_match"@) == Some(Action::AddCursorToNextMatch),
        action_from_name("view.toggle_sidebar"@) == Some(Action::ToggleSidebar),
        action_from_name("view.toggle_terminal"@) == Some(Action::ToggleTerminal),
        action_from_name("view.open_command_palette"@) == Some(Action::OpenCommandPalette),
        action_from_name("view.open_file_finder"@) == Some(Action::OpenFileFinder),
        action_from_name("navigate.go_to_line"@) == Some(Action::GoToLine),
        action_from_name("navigate.go_to_definition"@) == Some(Action::GoToDefinition),
        action_from_name("navigate.go_to_references"@) == Some(Action::GoToReferences),
        action_from_name("view.zoom_in"@) == Some(Action::ZoomIn),
        action_from_name("view.zoom_out"@) == Some(Action::ZoomOut),
        action_from_name("view.zoom_reset"@) == Some(Action::ZoomReset),
        action_from_name("view.split_right"@) == Some(Action::SplitRight),
        action_from_name("view.split_down"@) == Some(Action::SplitDown),
        action_from_name("view.next_tab"@) == Some(Action::NextTab),
        action_from_name("view.previous_tab"@) == Some(Action::PreviousTab),
        action_from_name("edit.toggle_comment"@) == Some(Action::ToggleComment),
        action_from_name("edit.indent_line"@) == Some(Action::IndentLine),
        action_from_name("edit.outdent_line"@) == Some(Action::OutdentLine),
{
    law_action_name_roundtrip(Action::FileSave);
    law_action_name_roundtrip(Action::FileOpen);
    law_action_name_roundtrip(Action::FileNew);
    law_action_name_roundtrip(Action::FileClose);
    law_action_name_roundtrip(Action::Undo);
    law_action_name_roundtrip(Action::Redo);
    law_action_name_roundtrip(Action::Copy);
    law_action_name_roundtrip(Action::Paste);
    law_action_name_roundtrip(Action::Cut);
    law_action_name_roundtrip(Action::SelectAll);
    law_action_name_roundtrip(Action::Find);
    law_action_name_roundtrip(Action::FindReplace);
    law_action_name_roundtrip(Action::AddCursorToNextMatch);
    law_action_name_roundtrip(Action::ToggleSidebar);
    law_action_name_roundtrip(Action::ToggleTerminal);
    law_action_name_roundtrip(Action::OpenCommandPalette);
    law_action_name_roundtrip(Action::OpenFileFinder);
    law_action_name_roundtrip(Action::GoToLine);
    law_action_name_roundtrip(Action::GoToDefinition);
    law_action_name_roundtrip(Action::GoToReferences);
    law_action_name_roundtrip(Action::ZoomIn);
    law_action_name_roundtrip(Action::ZoomOut);
    law_action_name_roundtrip(Action::ZoomReset);
    law_action_name_roundtrip(Action::SplitRight);
    law_action_name_roundtrip(Action::SplitDown);
    law_action_name_roundtrip(Action::NextTab);
    law_action_name_roundtrip(Action::PreviousTab);
    law_action_name_roundtrip(Action::ToggleComment);
    law_action_name_roundtrip(Action::IndentLine);
    law_action_name_roundtrip(Action::OutdentLine);
}

} // verus!
