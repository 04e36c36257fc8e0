//! Key types, modifiers, and key binding parsing.

use vstd::prelude::*;
use crate::text::{
    decimal, push_char, push_decimal, push_str, str_chars, str_eq, to_lowercase, lowercase_of, is_ascii_text, ascii_lowercase,
    trim, trimmed, parse_unsigned, unsigned_value, string_from_chars,
};

verus! {

/// The platform whose modifier names are read: on macOS "cmd" names the
/// Command key, elsewhere it names Control.
#[derive(Debug, Clone, Copy, PartialEq, Eq, Structural)]
pub enum Platform {
    /// macOS.
    MacOs,
    /// Any other platform.
    Other,
}

/// A keyboard key.
#[derive(Debug, Clone, Copy, PartialEq, Eq, Structural, Hash)]
pub enum Key {
    Char(char),
    Backspace,
    Delete,
    Enter,
    Tab,
    Escape,
    Up,
    Down,
    Left,
    Right,
    Home,
    End,
    PageUp,
    PageDown,
    F(u8),
}

/// The name of a key as it is displayed.
pub open spec fn key_text(k: Key) -> Seq<char> {
    match k {
        Key::Char(c) => seq![c],
        Key::Backspace => "backspace"@,
        Key::Delete => "delete"@,
        Key::Enter => "enter"@,
        Key::Tab => "tab"@,
        Key::Escape => "escape"@,
        Key::Up => "up"@,
        Key::Down => "down"@,
        Key::Left => "left"@,
        Key::Right => "right"@,
        Key::Home => "home"@,
        Key::End => "end"@,
        Key::PageUp => "pageup"@,
        Key::PageDown => "pagedown"@,
        Key::F(n) => seq!['f'] + decimal(n as nat),
    }
}

/// The key a lowercase key name stands for: a named key, `f1` to `f24`
/// (the number as an unsigned numeral), or any single char (`f` alone is the
/// char key, as the default binding `cmd+f` needs).
pub open spec fn key_from_lower(l: Seq<char>) -> Option<Key> {
    if l == "backspace"@ {
        Some(Key::Backspace)
    } else if l == "delete"@ || l == "del"@ {
        Some(Key::Delete)
    } else if l == "enter"@ || l == "return"@ {
        Some(Key::Enter)
    } else if l == "tab"@ {
        Some(Key::Tab)
    } else if l == "escape"@ || l == "esc"@ {
        Some(Key::Escape)
    } else if l == "up"@ {
        Some(Key::Up)
    } else if l == "down"@ {
        Some(Key::Down)
    } else if l == "left"@ {
        Some(Key::Left)
    } else if l == "right"@ {
        Some(Key::Right)
    } else if l == "home"@ {
        Some(Key::Home)
    } else if l == "end"@ {
        Some(Key::End)
    } else if l == "pageup"@ {
        Some(Key::PageUp)
    } else if l == "pagedown"@ {
        Some(Key::PageDown)
    } else if l.len() > 1 && l[0] == 'f' {
        match unsigned_value(l.drop_first()) {
            Some(n) => if 1 <= n <= 24 {
                Some(Key::F(n as u8))
            } else {
                None
            },
            None => None,
        }
    } else if l.len() == 1 {
        Some(Key::Char(l[0]))
    } else {
        None
    }
}

/// The key a key name stands for, case aside.
pub open spec fn key_from_text(s: Seq<char>) -> Option<Key> {
    key_from_lower(lowercase_of(s))
}

impl Key {
    /// Parse a key name string into a `Key`, ignoring case.
    pub fn parse(s: &str) -> (r: Option<Key>)
        ensures
            r == key_from_text(s@),
            is_ascii_text(s@) ==> r == key_from_lower(ascii_lowercase(s@)),
    {
        let lower = to_lowercase(s);
        Key::parse_lowercase(lower.as_str())
    }

    /// Parse a key name that is already in lowercase.
    pub fn parse_lowercase(l: &str) -> (r: Option<Key>)
        ensures
            r == key_from_lower(l@),
    {
        if str_eq(l, "backspace") {
            Some(Key::Backspace)
        } else if str_eq(l, "delete") || str_eq(l, "del") {
            Some(Key::Delete)
        } else if str_eq(l, "enter") || str_eq(l, "return") {
            Some(Key::Enter)
        } else if str_eq(l, "tab") {
            Some(Key::Tab)
        } else if str_eq(l, "escape") || str_eq(l, "esc") {
            Some(Key::Escape)
        } else if str_eq(l, "up") {
            Some(Key::Up)
        } else if str_eq(l, "down") {
            Some(Key::Down)
        } else if str_eq(l, "left") {
            Some(Key::Left)
        } else if str_eq(l, "right") {
            Some(Key::Right)
        } else if str_eq(l, "home") {
            Some(Key::Home)
        } else if str_eq(l, "end") {
            Some(Key::End)
        } else if str_eq(l, "pageup") {
            Some(Key::PageUp)
        } else if str_eq(l, "pagedown") {
            Some(Key::PageDown)
        } else {
            let n = l.unicode_len();
            if n > 1 && l.get_char(0) == 'f' {
                let rest = l.substring_char(1, n);
                assert(rest@ == l@.drop_first());
                match parse_unsigned(rest, 255) {
                    Some(v) => if 1 <= v && v <= 24 {
                        Some(Key::F(v as u8))
                    } else {
                        None
                    },
                    None => None,
                }
            } else if n == 1 {
                Some(Key::Char(l.get_char(0)))
            } else {
                None
            }
        }
    }

    /// The key's display name (`to_string` of the key).
    pub fn to_string(&self) -> (r: String)
        ensures
            r@ == key_text(*self),
    {
        let mut s = String::new();
        match *self {
            Key::Char(c) => push_char(&mut s, c),
            Key::Backspace => push_str(&mut s, "backspace"),
            Key::Delete => push_str(&mut s, "delete"),
            Key::Enter => push_str(&mut s, "enter"),
            Key::Tab => push_str(&mut s, "tab"),
            Key::Escape => push_str(&mut s, "escape"),
            Key::Up => push_str(&mut s, "up"),
            Key::Down => push_str(&mut s, "down"),
            Key::Left => push_str(&mut s, "left"),
            Key::Right => push_str(&mut s, "right"),
            Key::Home => push_str(&mut s, "home"),
            Key::End => push_str(&mut s, "end"),
            Key::PageUp => push_str(&mut s, "pageup"),
            Key::PageDown => push_str(&mut s, "pagedown"),
            Key::F(n) => {
                push_char(&mut s, 'f');
                push_decimal(&mut s, n as usize);
            },
        }
        assert(Seq::<char>::empty() + key_text(*self) == key_text(*self));
        s
    }
}

/// Modifier flags for key bindings, one bit each: Cmd, Ctrl, Shift, Alt.
#[derive(Debug, Clone, Copy, PartialEq, Eq, Structural, Hash)]
pub struct Modifiers {
    /// The flag bits.
    pub bits: u8,
}

/// Whether the flags `m` include all the flags `f`.
pub open spec fn has_flags(m: u8, f: u8) -> bool {
    m & f == f
}

/// The names of the flags set in `m`, in the order Cmd, Ctrl, Shift, Alt.
pub open spec fn flag_names(m: u8) -> Seq<Seq<char>> {
    (if has_flags(m, 1) {
        seq!["cmd"@]
    } else {
        Seq::empty()
    }) + (if has_flags(m, 2) {
        seq!["ctrl"@]
    } else {
        Seq::empty()
    }) + (if has_flags(m, 4) {
        seq!["shift"@]
    } else {
        Seq::empty()
    }) + (if has_flags(m, 8) {
        seq!["alt"@]
    } else {
        Seq::empty()
    })
}

/// The texts of `parts` joined by `+`.
pub open spec fn join_plus(parts: Seq<Seq<char>>) -> Seq<char>
    decreases parts.len(),
{
    if parts.len() == 0 {
        Seq::empty()
    } else if parts.len() == 1 {
        parts[0]
    } else {
        join_plus(parts.drop_last()) + seq!['+'] + parts.last()
    }
}

/// The flags a lowercase modifier name stands for on platform `p`.
pub open spec fn modifier_bits_from_lower(l: Seq<char>, p: Platform) -> Option<u8> {
    if l == "cmd"@ || l == "command"@ || l == "meta"@ || l == "super"@ {
        Some(
            if p == Platform::MacOs {
                1u8
            } else {
                2u8
            },
        )
    } else if l == "ctrl"@ || l == "control"@ {
        Some(2u8)
    } else if l == "shift"@ {
        Some(4u8)
    } else if l == "alt"@ || l == "option"@ || l == "opt"@ {
        Some(8u8)
    } else {
        None
    }
}

/// The flags a modifier name stands for on platform `p`, case aside.
pub open spec fn modifier_bits_from_text(s: Seq<char>, p: Platform) -> Option<u8> {
    modifier_bits_from_lower(lowercase_of(s), p)
}

impl Modifiers {
    /// No modifier.
    #[allow(non_snake_case)]
    pub fn NONE() -> (r: Modifiers)
        ensures
            r.bits == 0,
    {
        Modifiers { bits: 0 }
    }

    /// The Command key.
    #[allow(non_snake_case)]
    pub fn CMD() -> (r: Modifiers)
        ensures
            r.bits == 1,
    {
        Modifiers { bits: 1 }
    }

    /// The Control key.
    #[allow(non_snake_case)]
    pub fn CTRL() -> (r: Modifiers)
        ensures
            r.bits == 2,
    {
        Modifiers { bits: 2 }
    }

    /// The Shift key.
    #[allow(non_snake_case)]
    pub fn SHIFT() -> (r: Modifiers)
        ensures
            r.bits == 4,
    {
        Modifiers { bits: 4 }
    }

    /// The Alt (Option) key.
    #[allow(non_snake_case)]
    pub fn ALT() -> (r: Modifiers)
        ensures
            r.bits == 8,
    {
        Modifiers { bits: 8 }
    }

    /// Create empty modifiers.
    pub fn empty() -> (r: Self)
        ensures
            r.bits == 0,
    {
        Modifiers { bits: 0 }
    }

    /// Check if no modifiers are set.
    pub fn is_empty(self) -> (r: bool)
        ensures
            r == (self.bits == 0),
    {
        self.bits == 0
    }

    /// Check if all the flags of `other` are set.
    pub fn contains(self, other: Modifiers) -> (r: bool)
        ensures
            r == has_flags(self.bits, other.bits),
    {
        (self.bits & other.bits) == other.bits
    }

    /// Combine two modifier sets.
    pub fn union(self, other: Modifiers) -> (r: Modifiers)
        ensures
            r.bits == self.bits | other.bits,
    {
        Modifiers { bits: self.bits | other.bits }
    }

    /// Parse a modifier name, ignoring case; "cmd" (and its aliases) is the
    /// Command key on macOS and Control elsewhere.
    pub fn parse(s: &str, platform: Platform) -> (r: Option<Modifiers>)
        ensures
            r == match modifier_bits_from_text(s@, platform) {
                Some(b) => Some(Modifiers { bits: b }),
                None => None::<Modifiers>,
            },
            is_ascii_text(s@) ==> r == match modifier_bits_from_lower(ascii_lowercase(s@), platform) {
                Some(b) => Some(Modifiers { bits: b }),
                None => None::<Modifiers>,
            },
    {
        let lower = to_lowercase(s);
        Modifiers::parse_lowercase(lower.as_str(), platform)
    }

    /// Parse a modifier name that is already in lowercase.
    pub fn parse_lowercase(l: &str, platform: Platform) -> (r: Option<Modifiers>)
        ensures
            r == match modifier_bits_from_lower(l@, platform) {
                Some(b) => Some(Modifiers { bits: b }),
                None => None::<Modifiers>,
            },
    {
        if str_eq(l, "cmd") || str_eq(l, "command") || str_eq(l, "meta") || str_eq(l, "super") {
            match platform {
                Platform::MacOs => Some(Modifiers::CMD()),
                Platform::Other => Some(Modifiers::CTRL()),
            }
        } else if str_eq(l, "ctrl") || str_eq(l, "control") {
            Some(Modifiers::CTRL())
        } else if str_eq(l, "shift") {
            Some(Modifiers::SHIFT())
        } else if str_eq(l, "alt") || str_eq(l, "option") || str_eq(l, "opt") {
            Some(Modifiers::ALT())
        } else {
            None
        }
    }

    /// The names of the set flags joined by `+` (`to_string` of the modifiers).
    pub fn to_string(&self) -> (r: String)
        ensures
            r@ == join_plus(flag_names(self.bits)),
    {
        let mut s = String::new();
        let ghost mut names: Seq<Seq<char>> = Seq::empty();
        let mut first = true;
        if self.contains(Modifiers::CMD()) {
            push_str(&mut s, "cmd");
            first = false;
            proof {
                names = names.push("cmd"@);
            }
        }
        assert(names == (if has_flags(self.bits, 1) { seq!["cmd"@] } else { Seq::<Seq<char>>::empty() }));
        assert(s@ == join_plus(names)) by {
            if names.len() == 1 {
                assert(Seq::<char>::empty() + "cmd"@ == "cmd"@);
            }
        }
        let ghost before = names;
        if self.contains(Modifiers::CTRL()) {
            if !first {
                push_char(&mut s, '+');
            }
            push_str(&mut s, "ctrl");
            first = false;
            proof {
                names = names.push("ctrl"@);
                lemma_join_push(before, "ctrl"@);
            }
        }
        assert(names == (if has_flags(self.bits, 1) { seq!["cmd"@] } else { Seq::<Seq<char>>::empty() }) + (if has_flags(self.bits, 2) { seq!["ctrl"@] } else { Seq::<Seq<char>>::empty() }));
        let ghost before = names;
        if self.contains(Modifiers::SHIFT()) {
            if !first {
                push_char(&mut s, '+');
            }
            push_str(&mut s, "shift");
            first = false;
            proof {
                names = names.push("shift"@);
                lemma_join_push(before, "shift"@);
            }
        }
        let ghost before = names;
        if self.contains(Modifiers::ALT()) {
            if !first {
                push_char(&mut s, '+');
            }
            push_str(&mut s, "alt");
            proof {
                names = names.push("alt"@);
                lemma_join_push(before, "alt"@);
            }
        }
        assert(names == flag_names(self.bits));
        s
    }
}

/// Joining one more part adds a `+` and the part, or is the part alone.
proof fn lemma_join_push(parts: Seq<Seq<char>>, x: Seq<char>)
    ensures
        join_plus(parts.push(x)) == if parts.len() == 0 {
            x
        } else {
            join_plus(parts) + seq!['+'] + x
        },
{
    assert(parts.push(x).drop_last() == parts);
}

/// A key binding: modifiers + key.
#[derive(Debug, Clone, Copy, PartialEq, Eq, Structural, Hash)]
pub struct KeyBinding {
    pub modifiers: Modifiers,
    pub key: Key,
}

/// The parts of `s` between the chars `sep`, as `str::split` gives them.
pub open spec fn split_on(s: Seq<char>, sep: char) -> Seq<Seq<char>>
    decreases s.len(),
{
    if s.len() == 0 {
        seq![Seq::empty()]
    } else {
        let parts = split_on(s.drop_last(), sep);
        if s.last() == sep {
            parts.push(Seq::empty())
        } else {
            parts.update(parts.len() - 1, parts.last().push(s.last()))
        }
    }
}

/// The flags named by all of `parts` (each trimmed), or `None` if one is no modifier name.
pub open spec fn modifiers_of_parts(parts: Seq<Seq<char>>, p: Platform) -> Option<u8>
    decreases parts.len(),
{
    if parts.len() == 0 {
        Some(0u8)
    } else {
        match modifiers_of_parts(parts.drop_last(), p) {
            Some(m) => match modifier_bits_from_text(trimmed(parts.last()), p) {
                Some(f) => Some(m | f),
                None => None,
            },
            None => None,
        }
    }
}

/// The binding a text like "cmd+s" stands for: trimmed, split at `+`, every
/// part but the last a modifier name and the last a key name, each trimmed.
pub open spec fn binding_from_text(s: Seq<char>, p: Platform) -> Option<KeyBinding> {
    let t = trimmed(s);
    if t.len() == 0 {
        None
    } else {
        let parts = split_on(t, '+');
        match modifiers_of_parts(parts.drop_last(), p) {
            Some(m) => match key_from_text(trimmed(parts.last())) {
                Some(k) => Some(KeyBinding { modifiers: Modifiers { bits: m }, key: k }),
                None => None,
            },
            None => None,
        }
    }
}

/// The flags named by all of `parts` (each trimmed), with names read in ASCII
/// case folding, or `None` if one is no modifier name.
pub open spec fn modifiers_of_ascii_parts(parts: Seq<Seq<char>>, p: Platform) -> Option<u8>
    decreases parts.len(),
{
    if parts.len() == 0 {
        Some(0u8)
    } else {
        match modifiers_of_ascii_parts(parts.drop_last(), p) {
            Some(m) => match modifier_bits_from_lower(ascii_lowercase(trimmed(parts.last())), p) {
                Some(f) => Some(m | f),
                None => None,
            },
            None => None,
        }
    }
}

/// The binding an ASCII text like "Cmd+S" stands for: read as
/// `binding_from_text` reads it, each name folded to ASCII lowercase.
pub open spec fn binding_from_ascii(s: Seq<char>, p: Platform) -> Option<KeyBinding> {
    let t = trimmed(s);
    if t.len() == 0 {
        None
    } else {
        let parts = split_on(t, '+');
        match modifiers_of_ascii_parts(parts.drop_last(), p) {
            Some(m) => match key_from_lower(ascii_lowercase(trimmed(parts.last()))) {
                Some(k) => Some(KeyBinding { modifiers: Modifiers { bits: m }, key: k }),
                None => None,
            },
            None => None,
        }
    }
}

/// The display text of a binding: the modifiers and the key joined by `+`,
/// or the key alone.
pub open spec fn binding_text(b: KeyBinding) -> Seq<char> {
    if b.modifiers.bits == 0 {
        key_text(b.key)
    } else {
        join_plus(flag_names(b.modifiers.bits)) + seq!['+'] + key_text(b.key)
    }
}

/// The parts of `chars` between the chars `sep`.
fn split_chars(chars: &Vec<char>, sep: char) -> (r: Vec<Vec<char>>)
    ensures
        r@.len() == split_on(chars@, sep).len(),
        forall|i: int| 0 <= i < r@.len() ==> #[trigger] r@[i]@ == split_on(chars@, sep)[i],
{
    let mut parts: Vec<Vec<char>> = Vec::new();
    let mut cur: Vec<char> = Vec::new();
    let n = chars.len();
    let mut i: usize = 0;
    while i < n
        invariant
            n == chars@.len(),
            i <= n,
            parts@.len() + 1 == split_on(chars@.take(i as int), sep).len(),
            forall|j: int| 0 <= j < parts@.len() ==> #[trigger] parts@[j]@ == split_on(
                chars@.take(i as int),
                sep,
            )[j],
            cur@ == split_on(chars@.take(i as int), sep).last(),
        decreases n - i,
    {
        proof {
            lemma_split_len(chars@.take(i as int), sep);
            assert(chars@.take(i + 1).drop_last() == chars@.take(i as int));
        }
        let c = chars[i];
        if c == sep {
            parts.push(cur);
            cur = Vec::new();
        } else {
            cur.push(c);
        }
        i += 1;
    }
    proof {
        lemma_split_len(chars@, sep);
        assert(chars@.take(n as int) == chars@);
    }
    parts.push(cur);
    parts
}

/// Splitting gives at least one part.
proof fn lemma_split_len(s: Seq<char>, sep: char)
    ensures
        split_on(s, sep).len() >= 1,
    decreases s.len(),
{
    if s.len() > 0 {
        lemma_split_len(s.drop_last(), sep);
    }
}

impl KeyBinding {
    /// Create a new key binding.
    pub fn new(modifiers: Modifiers, key: Key) -> (r: Self)
        ensures
            r.modifiers == modifiers,
            r.key == key,
    {
        KeyBinding { modifiers, key }
    }

    /// Parse a string like "cmd+s", "ctrl+shift+p", "escape"; `None` if it is
    /// no binding.
    pub fn parse(s: &str, platform: Platform) -> (r: Option<KeyBinding>)
        ensures
            r == binding_from_text(s@, platform),
            is_ascii_text(s@) ==> r == binding_from_ascii(s@, platform),
    {
        let t = trim(s);
        if t.unicode_len() == 0 {
            return None;
        }
        let chars = str_chars(t);
        let parts = split_chars(&chars, '+');
        proof {
            lemma_split_len(t@, '+');
        }
        let last = parts.len() - 1;
        let ghost all = split_on(t@, '+');
        proof {
            if is_ascii_text(s@) {
                lemma_ascii_trimmed(s@);
                lemma_ascii_split(t@, '+');
            }
        }
        let mut modifiers = Modifiers::empty();
        let mut i: usize = 0;
        while i < last
            invariant
                all == split_on(trimmed(s@), '+'),
                trimmed(s@).len() > 0,
                last + 1 == parts@.len(),
                parts@.len() == all.len(),
                forall|j: int| 0 <= j < parts@.len() ==> #[trigger] parts@[j]@ == all[j],
                i <= last,
                modifiers_of_parts(all.drop_last().take(i as int), platform) == Some(
                    modifiers.bits,
                ),
                is_ascii_text(s@) ==> forall|j: int| 0 <= j < all.len() ==> is_ascii_text(#[trigger] all[j]),
                is_ascii_text(s@) ==> modifiers_of_ascii_parts(all.drop_last().take(i as int), platform)
                    == Some(modifiers.bits),
            decreases last - i,
        {
            let text = string_from_chars(parts[i].as_slice());
            let part = trim(text.as_str());
            proof {
                if is_ascii_text(s@) {
                    lemma_ascii_trimmed(all[i as int]);
                }
                assert(all.drop_last().take(i + 1).drop_last() == all.drop_last().take(i as int));
                assert(all.drop_last().take(i + 1).last() == all[i as int]);
            }
            match Modifiers::parse(part, platform) {
                Some(m) => modifiers = modifiers.union(m),
                None => {
                    proof {
                        lemma_modifiers_none_stays(all.drop_last(), i as int + 1, platform);
                        if is_ascii_text(s@) {
                            lemma_ascii_modifiers_none_stays(all.drop_last(), i as int + 1, platform);
                        }
                    }
                    return None;
                },
            }
            i += 1;
        }
        assert(all.drop_last().take(last as int) == all.drop_last());
        let key_text = string_from_chars(parts[last].as_slice());
        proof {
            if is_ascii_text(s@) {
                lemma_ascii_trimmed(all[last as int]);
            }
        }
        let key = Key::parse(trim(key_text.as_str()));
        match key {
            Some(k) => Some(KeyBinding::new(modifiers, k)),
            None => None,
        }
    }

    /// The binding's display text (`to_string` of the binding).
    pub fn to_string(&self) -> (r: String)
        ensures
            r@ == binding_text(*self),
    {
        if !self.modifiers.is_empty() {
            let mut s = self.modifiers.to_string();
            push_char(&mut s, '+');
            let k = self.key.to_string();
            push_str(&mut s, k.as_str());
            s
        } else {
            self.key.to_string()
        }
    }
}

/// Once a prefix of the parts names no modifiers, no longer prefix does.
proof fn lemma_modifiers_none_stays(parts: Seq<Seq<char>>, k: int, p: Platform)
    requires
        0 <= k <= parts.len(),
        modifiers_of_parts(parts.take(k), p) is None,
    ensures
        modifiers_of_parts(parts, p) is None,
    decreases parts.len() - k,
{
    if k < parts.len() {
        assert(parts.take(k + 1).drop_last() == parts.take(k));
        lemma_modifiers_none_stays(parts, k + 1, p);
    } else {
        assert(parts.take(k) == parts);
    }
}

/// Once a prefix of the parts names no modifiers in ASCII reading, no longer prefix does.
proof fn lemma_ascii_modifiers_none_stays(parts: Seq<Seq<char>>, k: int, p: Platform)
    requires
        0 <= k <= parts.len(),
        modifiers_of_ascii_parts(parts.take(k), p) is None,
    ensures
        modifiers_of_ascii_parts(parts, p) is None,
    decreases parts.len() - k,
{
    if k < parts.len() {
        assert(parts.take(k + 1).drop_last() == parts.take(k));
        lemma_ascii_modifiers_none_stays(parts, k + 1, p);
    } else {
        assert(parts.take(k) == parts);
    }
}

/// Trimming ASCII text leaves ASCII text.
proof fn lemma_ascii_trimmed(s: Seq<char>)
    requires
        is_ascii_text(s),
    ensures
        is_ascii_text(trimmed(s)),
{
    lemma_ascii_trim_start(s);
    lemma_ascii_trim_end(crate::text::trim_start(s));
}

/// Dropping leading whitespace from ASCII text leaves ASCII text.
proof fn lemma_ascii_trim_start(s: Seq<char>)
    requires
        is_ascii_text(s),
    ensures
        is_ascii_text(crate::text::trim_start(s)),
    decreases s.len(),
{
    if s.len() > 0 && crate::text::is_white_space(s[0]) {
        assert forall|i: int| 0 <= i < s.drop_first().len() implies (#[trigger] s.drop_first()[i]
            as u32) < 128 by {
            assert(s.drop_first()[i] == s[i + 1]);
        }
        lemma_ascii_trim_start(s.drop_first());
    }
}

/// Dropping trailing whitespace from ASCII text leaves ASCII text.
proof fn lemma_ascii_trim_end(s: Seq<char>)
    requires
        is_ascii_text(s),
    ensures
        is_ascii_text(crate::text::trim_end(s)),
    decreases s.len(),
{
    if s.len() > 0 && crate::text::is_white_space(s.last()) {
        assert forall|i: int| 0 <= i < s.drop_last().len() implies (#[trigger] s.drop_last()[i]
            as u32) < 128 by {
            assert(s.drop_last()[i] == s[i]);
        }
        lemma_ascii_trim_end(s.drop_last());
    }
}

/// Every part of ASCII text split at `sep` is ASCII text.
proof fn lemma_ascii_split(s: Seq<char>, sep: char)
    requires
        is_ascii_text(s),
    ensures
        forall|j: int| 0 <= j < split_on(s, sep).len() ==> is_ascii_text(#[trigger] split_on(s, sep)[j]),
    decreases s.len(),
{
    if s.len() > 0 {
        let d = s.drop_last();
        assert forall|i: int| 0 <= i < d.len() implies (#[trigger] d[i] as u32) < 128 by {
            assert(d[i] == s[i]);
        }
        lemma_ascii_split(d, sep);
        lemma_split_len(d, sep);
        let parts = split_on(d, sep);
        if s.last() != sep {
            let q = parts.last().push(s.last());
            assert(is_ascii_text(parts.last()));
            assert forall|i: int| 0 <= i < q.len() implies (#[trigger] q[i] as u32) < 128 by {
                if i < q.len() - 1 {
                    assert(q[i] == parts.last()[i]);
                } else {
                    assert(q[i] == s[s.len() - 1]);
                }
            }
            assert forall|j: int| 0 <= j < split_on(s, sep).len() implies is_ascii_text(
                #[trigger] split_on(s, sep)[j],
            ) by {
                if j < parts.len() - 1 {
                    assert(split_on(s, sep)[j] == parts[j]);
                }
            }
        } else {
            assert forall|j: int| 0 <= j < split_on(s, sep).len() implies is_ascii_text(
                #[trigger] split_on(s, sep)[j],
            ) by {
                if j < parts.len() {
                    assert(split_on(s, sep)[j] == parts[j]);
                } else {
                    assert(split_on(s, sep)[j].len() == 0);
                }
            }
        }
    } else {
        assert(split_on(s, sep) == seq![Seq::<char>::empty()]);
        assert(split_on(s, sep)[0].len() == 0);
    }
}

/// Whether `x` reads as itself as part of a binding text: not empty, no `+`,
/// no ASCII capital, and no whitespace at either end.
pub open spec fn plain_name(x: Seq<char>) -> bool {
    &&& x.len() > 0
    &&& forall|i: int| 0 <= i < x.len() ==> #[trigger] x[i] != '+' && !(65 <= (x[i] as u32) <= 90)
    &&& !crate::text::is_white_space(x[0])
    &&& !crate::text::is_white_space(x.last())
}

/// Text with no whitespace at either end is its own trimmed form.
proof fn lemma_trimmed_id(x: Seq<char>)
    requires
        x.len() > 0,
        !crate::text::is_white_space(x[0]),
        !crate::text::is_white_space(x.last()),
    ensures
        trimmed(x) == x,
{
    assert(crate::text::trim_start(x) == x);
}

/// Text without the separator is a single part.
proof fn lemma_split_single(x: Seq<char>, sep: char)
    requires
        forall|i: int| 0 <= i < x.len() ==> #[trigger] x[i] != sep,
    ensures
        split_on(x, sep) == seq![x],
    decreases x.len(),
{
    if x.len() > 0 {
        let d = x.drop_last();
        assert forall|i: int| 0 <= i < d.len() implies #[trigger] d[i] != sep by {
            assert(d[i] == x[i]);
        }
        lemma_split_single(d, sep);
        assert(d.push(x.last()) =~= x);
        assert(seq![d].update(0, d.push(x.last())) =~= seq![x]);
    } else {
        assert(x =~= Seq::<char>::empty());
    }
}

/// Splitting `x`, a separator, then `y` gives the parts of `x` followed by those of `y`.
proof fn lemma_split_concat(x: Seq<char>, sep: char, y: Seq<char>)
    ensures
        split_on(x + seq![sep] + y, sep) == split_on(x, sep) + split_on(y, sep),
    decreases y.len(),
{
    lemma_split_len(x, sep);
    let t = x + seq![sep] + y;
    if y.len() == 0 {
        assert(t.drop_last() =~= x);
        assert(t.last() == sep);
        assert(split_on(y, sep) == seq![Seq::<char>::empty()]);
        assert(split_on(x, sep).push(Seq::<char>::empty()) =~= split_on(x, sep) + seq![
            Seq::<char>::empty(),
        ]);
    } else {
        let y2 = y.drop_last();
        lemma_split_concat(x, sep, y2);
        lemma_split_len(y2, sep);
        assert(t.drop_last() =~= x + seq![sep] + y2);
        assert(t.last() == y.last());
        let a = split_on(x, sep);
        let b2 = split_on(y2, sep);
        if y.last() == sep {
            assert((a + b2).push(Seq::<char>::empty()) =~= a + b2.push(Seq::<char>::empty()));
        } else {
            let ab = a + b2;
            assert(ab.last() == b2.last());
            assert(ab.update(ab.len() - 1, ab.last().push(y.last())) =~= a + b2.update(
                b2.len() - 1,
                b2.last().push(y.last()),
            ));
        }
    }
}

/// A plain name is its own trimmed, ASCII-lowercased form, and a single part.
proof fn lemma_plain_name(x: Seq<char>)
    requires
        plain_name(x),
    ensures
        trimmed(x) == x,
        ascii_lowercase(trimmed(x)) == x,
        split_on(x, '+') == seq![x],
{
    lemma_trimmed_id(x);
    lemma_split_single(x, '+');
    assert(ascii_lowercase(x) =~= x);
}

/// A modifier name, `+`, and a key name read as that binding.
pub proof fn lemma_binding_one_modifier(m: Seq<char>, k: Seq<char>, p: Platform)
    requires
        plain_name(m),
        plain_name(k),
    ensures
        binding_from_ascii(m + seq!['+'] + k, p) == match modifier_bits_from_lower(m, p) {
            Some(b) => match key_from_lower(k) {
                Some(key) => Some(KeyBinding { modifiers: Modifiers { bits: b }, key }),
                None => None,
            },
            None => None::<KeyBinding>,
        },
{
    let t = m + seq!['+'] + k;
    lemma_plain_name(m);
    lemma_plain_name(k);
    assert(t[0] == m[0]);
    assert(t.last() == k.last());
    lemma_trimmed_id(t);
    lemma_split_concat(m, '+', k);
    let parts = split_on(t, '+');
    assert(parts =~= seq![m, k]);
    assert(parts.drop_last() =~= seq![m]);
    assert(seq![m].drop_last() =~= Seq::<Seq<char>>::empty());
    assert(parts.last() == k);
    assert(seq![m].last() == m);
    assert(modifiers_of_ascii_parts(Seq::<Seq<char>>::empty(), p) == Some(0u8));
    match modifier_bits_from_lower(m, p) {
        Some(b) => {
            assert((0u8 | b) == b) by (bit_vector);
            assert(modifiers_of_ascii_parts(seq![m], p) == Some(b));
        },
        None => {
            assert(modifiers_of_ascii_parts(seq![m], p) is None);
        },
    }
}

/// Two modifier names and a key name, joined by `+`, read as that binding.
pub proof fn lemma_binding_two_modifiers(m1: Seq<char>, m2: Seq<char>, k: Seq<char>, p: Platform)
    requires
        plain_name(m1),
        plain_name(m2),
        plain_name(k),
        modifier_bits_from_lower(m1, p) is Some,
        modifier_bits_from_lower(m2, p) is Some,
        key_from_lower(k) is Some,
    ensures
        binding_from_ascii(m1 + seq!['+'] + (m2 + seq!['+'] + k), p) == Some(
            KeyBinding {
                modifiers: Modifiers {
                    bits: modifier_bits_from_lower(m1, p)->0 | modifier_bits_from_lower(m2, p)->0,
                },
                key: key_from_lower(k)->0,
            },
        ),
{
    let r = m2 + seq!['+'] + k;
    let t = m1 + seq!['+'] + r;
    lemma_plain_name(m1);
    lemma_plain_name(m2);
    lemma_plain_name(k);
    assert(t[0] == m1[0]);
    assert(t.last() == k.last());
    lemma_trimmed_id(t);
    lemma_split_concat(m2, '+', k);
    lemma_split_concat(m1, '+', r);
    let parts = split_on(t, '+');
    assert(parts =~= seq![m1, m2, k]);
    assert(parts.drop_last() =~= seq![m1, m2]);
    assert(seq![m1, m2].drop_last() =~= seq![m1]);
    assert(seq![m1].drop_last() =~= Seq::<Seq<char>>::empty());
    let b1 = modifier_bits_from_lower(m1, p)->0;
    let b2 = modifier_bits_from_lower(m2, p)->0;
    assert((0u8 | b1) == b1) by (bit_vector);
    assert(parts.last() == k);
    assert(seq![m1].last() == m1);
    assert(seq![m1, m2].last() == m2);
    assert(modifiers_of_ascii_parts(Seq::<Seq<char>>::empty(), p) == Some(0u8));
    assert(modifiers_of_ascii_parts(seq![m1], p) == Some(b1));
    assert(modifiers_of_ascii_parts(seq![m1, m2], p) == Some(b1 | b2));
}

/// A single char names the key of that char.
pub proof fn lemma_single_char_key(c: char)
    ensures
        key_from_lower(seq![c]) == Some(Key::Char(c)),
{
    reveal_strlit("backspace");
    reveal_strlit("delete");
    reveal_strlit("del");
    reveal_strlit("enter");
    reveal_strlit("return");
    reveal_strlit("tab");
    reveal_strlit("escape");
    reveal_strlit("esc");
    reveal_strlit("up");
    reveal_strlit("down");
    reveal_strlit("left");
    reveal_strlit("right");
    reveal_strlit("home");
    reveal_strlit("end");
    reveal_strlit("pageup");
    reveal_strlit("pagedown");
}

/// What "cmd", "ctrl" and "shift" name on platform `p`.
pub proof fn lemma_modifier_names(p: Platform)
    ensures
        modifier_bits_from_lower("cmd"@, p) == Some(
            if p == Platform::MacOs {
                1u8
            } else {
                2u8
            },
        ),
        modifier_bits_from_lower("ctrl"@, p) == Some(2u8),
        modifier_bits_from_lower("shift"@, p) == Some(4u8),
{
    reveal_strlit("cmd");
    reveal_strlit("command");
    reveal_strlit("meta");
    reveal_strlit("super");
    reveal_strlit("ctrl");
    reveal_strlit("control");
    reveal_strlit("shift");
    assert("shift"@[1] != "super"@[1]);
    assert("ctrl"@[0] != "meta"@[0]);
    assert("ctrl"@ != "meta"@);
    assert("ctrl"@.len() != "cmd"@.len());
    assert("ctrl"@.len() != "command"@.len());
    assert("ctrl"@ != "super"@);
}

/// Whether a key has a name that parses back: every key but an F key outside 1 to 24.
pub open spec fn nameable_key(k: Key) -> bool {
    match k {
        Key::F(n) => 1 <= n <= 24,
        _ => true,
    }
}

/// Law: every key's display name (`Key::to_string`) parses back to that key.
pub proof fn law_key_name_roundtrip(k: Key)
    requires
        nameable_key(k),
    ensures
        key_from_lower(key_text(k)) == Some(k),
{
    match k {
        Key::Char(c) => {
            lemma_single_char_key(c);
        },
        Key::F(n) => {
            let l = seq!['f'] + decimal(n as nat);
            crate::text::lemma_decimal_value(n as nat);
            assert(l.drop_first() =~= decimal(n as nat));
            assert(l[0] == 'f');
            reveal_strlit("backspace");
            reveal_strlit("delete");
            reveal_strlit("del");
            reveal_strlit("enter");
            reveal_strlit("return");
            reveal_strlit("tab");
            reveal_strlit("escape");
            reveal_strlit("esc");
            reveal_strlit("up");
            reveal_strlit("down");
            reveal_strlit("left");
            reveal_strlit("right");
            reveal_strlit("home");
            reveal_strlit("end");
            reveal_strlit("pageup");
            reveal_strlit("pagedown");
            assert(l[0] != "backspace"@[0]);
            assert(l[0] != "delete"@[0]);
            assert(l[0] != "del"@[0]);
            assert(l[0] != "enter"@[0]);
            assert(l[0] != "return"@[0]);
            assert(l[0] != "tab"@[0]);
            assert(l[0] != "escape"@[0]);
            assert(l[0] != "esc"@[0]);
            assert(l[0] != "up"@[0]);
            assert(l[0] != "down"@[0]);
            assert(l[0] != "left"@[0]);
            assert(l[0] != "right"@[0]);
            assert(l[0] != "home"@[0]);
            assert(l[0] != "end"@[0]);
            assert(l[0] != "pageup"@[0]);
            assert(l[0] != "pagedown"@[0]);
        },
        Key::Backspace => {
            assert(key_from_lower("backspace"@) == Some(Key::Backspace)) by {
                reveal_strlit("backspace");
            }
        },
        Key::Delete => {
            assert(key_from_lower("delete"@) == Some(Key::Delete)) by {
                reveal_strlit("backspace");
                reveal_strlit("delete");
                assert("delete"@.len() != "backspace"@.len());
            }
        },
        Key::Enter => {
            assert(key_from_lower("enter"@) == Some(Key::Enter)) by {
                reveal_strlit("backspace");
                reveal_strlit("delete");
                reveal_strlit("del");
                reveal_strlit("enter");
                assert("enter"@.len() != "backspace"@.len());
                assert("enter"@.len() != "delete"@.len());
                assert("enter"@.len() != "del"@.len());
            }
        },
        Key::Tab => {
            assert(key_from_lower("tab"@) == Some(Key::Tab)) by {
                reveal_strlit("backspace");
                reveal_strlit("delete");
                reveal_strlit("del");
                reveal_strlit("enter");
                reveal_strlit("return");
                reveal_strlit("tab");
                assert("tab"@.len() != "backspace"@.len());
                assert("tab"@.len() != "delete"@.len());
                assert("tab"@[0] != "del"@[0]);
                assert("tab"@.len() != "enter"@.len());
                assert("tab"@.len() != "return"@.len());
            }
        },
        Key::Escape => {
            assert(key_from_lower("escape"@) == Some(Key::Escape)) by {
                reveal_strlit("backspace");
                reveal_strlit("delete");
                reveal_strlit("del");
                reveal_strlit("enter");
                reveal_strlit("return");
                reveal_strlit("tab");
                reveal_strlit("escape");
                assert("escape"@.len() != "backspace"@.len());
                assert("escape"@[0] != "delete"@[0]);
                assert("escape"@.len() != "del"@.len());
                assert("escape"@.len() != "enter"@.len());
                assert("escape"@[0] != "return"@[0]);
                assert("escape"@.len() != "tab"@.len());
            }
        },
        Key::Up => {
            assert(key_from_lower("up"@) == Some(Key::Up)) by {
                reveal_strlit("backspace");
                reveal_strlit("delete");
                reveal_strlit("del");
                reveal_strlit("enter");
                reveal_strlit("return");
                reveal_strlit("tab");
                reveal_strlit("escape");
                reveal_strlit("esc");
                reveal_strlit("up");
                assert("up"@.len() != "backspace"@.len());
                assert("up"@.len() != "delete"@.len());
                assert("up"@.len() != "del"@.len());
                assert("up"@.len() != "enter"@.len());
                assert("up"@.len() != "return"@.len());
                assert("up"@.len() != "tab"@.len());
                assert("up"@.len() != "escape"@.len());
                assert("up"@.len() != "esc"@.len());
            }
        },
        Key::Down => {
            assert(key_from_lower("down"@) == Some(Key::Down)) by {
                reveal_strlit("backspace");
                reveal_strlit("delete");
                reveal_strlit("del");
                reveal_strlit("enter");
                reveal_strlit("return");
                reveal_strlit("tab");
                reveal_strlit("escape");
                reveal_strlit("esc");
                reveal_strlit("up");
                reveal_strlit("down");
                assert("down"@.len() != "backspace"@.len());
                assert("down"@.len() != "delete"@.len());
                assert("down"@.len() != "del"@.len());
                assert("down"@.len() != "enter"@.len());
                assert("down"@.len() != "return"@.len());
                assert("down"@.len() != "tab"@.len());
                assert("down"@.len() != "escape"@.len());
                assert("down"@.len() != "esc"@.len());
                assert("down"@.len() != "up"@.len());
            }
        },
        Key::Left => {
            assert(key_from_lower("left"@) == Some(Key::Left)) by {
                reveal_strlit("backspace");
                reveal_strlit("delete");
                reveal_strlit("del");
                reveal_strlit("enter");
                reveal_strlit("return");
                reveal_strlit("tab");
                reveal_strlit("escape");
                reveal_strlit("esc");
                reveal_strlit("up");
                reveal_strlit("down");
                reveal_strlit("left");
                assert("left"@.len() != "backspace"@.len());
                assert("left"@.len() != "delete"@.len());
                assert("left"@.len() != "del"@.len());
                assert("left"@.len() != "enter"@.len());
                assert("left"@.len() != "return"@.len());
                assert("left"@.len() != "tab"@.len());
                assert("left"@.len() != "escape"@.len());
                assert("left"@.len() != "esc"@.len());
                assert("left"@.len() != "up"@.len());
                assert("left"@[0] != "down"@[0]);
            }
        },
        Key::Right => {
            assert(key_from_lower("right"@) == Some(Key::Right)) by {
                reveal_strlit("backspace");
                reveal_strlit("delete");
                reveal_strlit("del");
                reveal_strlit("enter");
                reveal_strlit("return");
                reveal_strlit("tab");
                reveal_strlit("escape");
                reveal_strlit("esc");
                reveal_strlit("up");
                reveal_strlit("down");
                reveal_strlit("left");
                reveal_strlit("right");
                assert("right"@.len() != "backspace"@.len());
                assert("right"@.len() != "delete"@.len());
                assert("right"@.len() != "del"@.len());
                assert("right"@[0] != "enter"@[0]);
                assert("right"@.len() != "return"@.len());
                assert("right"@.len() != "tab"@.len());
                assert("right"@.len() != "escape"@.len());
                assert("right"@.len() != "esc"@.len());
                assert("right"@.len() != "up"@.len());
                assert("right"@.len() != "down"@.len());
                assert("right"@.len() != "left"@.len());
            }
        },
        Key::Home => {
            assert(key_from_lower("home"@) == Some(Key::Home)) by {
                reveal_strlit("backspace");
                reveal_strlit("delete");
                reveal_strlit("del");
                reveal_strlit("enter");
                reveal_strlit("return");
                reveal_strlit("tab");
                reveal_strlit("escape");
                reveal_strlit("esc");
                reveal_strlit("up");
                reveal_strlit("down");
                reveal_strlit("left");
                reveal_strlit("right");
                reveal_strlit("home");
                assert("home"@.len() != "backspace"@.len());
                assert("home"@.len() != "delete"@.len());
                assert("home"@.len() != "del"@.len());
                assert("home"@.len() != "enter"@.len());
                assert("home"@.len() != "return"@.len());
                assert("home"@.len() != "tab"@.len());
                assert("home"@.len() != "escape"@.len());
                assert("home"@.len() != "esc"@.len());
                assert("home"@.len() != "up"@.len());
                assert("home"@[0] != "down"@[0]);
                assert("home"@[0] != "left"@[0]);
                assert("home"@.len() != "right"@.len());
            }
        },
        Key::End => {
            assert(key_from_lower("end"@) == Some(Key::End)) by {
                reveal_strlit("backspace");
                reveal_strlit("delete");
                reveal_strlit("del");
                reveal_strlit("enter");
                reveal_strlit("return");
                reveal_strlit("tab");
                reveal_strlit("escape");
                reveal_strlit("esc");
                reveal_strlit("up");
                reveal_strlit("down");
                reveal_strlit("left");
                reveal_strlit("right");
                reveal_strlit("home");
                reveal_strlit("end");
                assert("end"@.len() != "backspace"@.len());
                assert("end"@.len() != "delete"@.len());
                assert("end"@[0] != "del"@[0]);
                assert("end"@.len() != "enter"@.len());
                assert("end"@.len() != "return"@.len());
                assert("end"@[0] != "tab"@[0]);
                assert("end"@.len() != "escape"@.len());
                assert("end"@[1] != "esc"@[1]);
                assert("end"@.len() != "up"@.len());
                assert("end"@.len() != "down"@.len());
                assert("end"@.len() != "left"@.len());
                assert("end"@.len() != "right"@.len());
                assert("end"@.len() != "home"@.len());
            }
        },
        Key::PageUp => {
            assert(key_from_lower("pageup"@) == Some(Key::PageUp)) by {
                reveal_strlit("backspace");
                reveal_strlit("delete");
                reveal_strlit("del");
                reveal_strlit("enter");
                reveal_strlit("return");
                reveal_strlit("tab");
                reveal_strlit("escape");
                reveal_strlit("esc");
                reveal_strlit("up");
                reveal_strlit("down");
                reveal_strlit("left");
                reveal_strlit("right");
                reveal_strlit("home");
                reveal_strlit("end");
                reveal_strlit("pageup");
                assert("pageup"@.len() != "backspace"@.len());
                assert("pageup"@[0] != "delete"@[0]);
                assert("pageup"@.len() != "del"@.len());
                assert("pageup"@.len() != "enter"@.len());
                assert("pageup"@[0] != "return"@[0]);
                assert("pageup"@.len() != "tab"@.len());
                assert("pageup"@[0] != "escape"@[0]);
                assert("pageup"@.len() != "esc"@.len());
                assert("pageup"@.len() != "up"@.len());
                assert("pageup"@.len() != "down"@.len());
                assert("pageup"@.len() != "left"@.len());
                assert("pageup"@.len() != "right"@.len());
                assert("pageup"@.len() != "home"@.len());
                assert("pageup"@.len() != "end"@.len());
            }
        },
        Key::PageDown => {
            assert(key_from_lower("pagedown"@) == Some(Key::PageDown)) by {
                reveal_strlit("backspace");
                reveal_strlit("delete");
                reveal_strlit("del");
                reveal_strlit("enter");
                reveal_strlit("return");
                reveal_strlit("tab");
                reveal_strlit("escape");
                reveal_strlit("esc");
                reveal_strlit("up");
                reveal_strlit("down");
                reveal_strlit("left");
                reveal_strlit("right");
                reveal_strlit("home");
                reveal_strlit("end");
                reveal_strlit("pageup");
                reveal_strlit("pagedown");
                assert("pagedown"@.len() != "backspace"@.len());
                assert("pagedown"@.len() != "delete"@.len());
                assert("pagedown"@.len() != "del"@.len());
                assert("pagedown"@.len() != "enter"@.len());
                assert("pagedown"@.len() != "return"@.len());
                assert("pagedown"@.len() != "tab"@.len());
                assert("pagedown"@.len() != "escape"@.len());
                assert("pagedown"@.len() != "esc"@.len());
                assert("pagedown"@.len() != "up"@.len());
                assert("pagedown"@.len() != "down"@.len());
                assert("pagedown"@.len() != "left"@.len());
                assert("pagedown"@.len() != "right"@.len());
                assert("pagedown"@.len() != "home"@.len());
                assert("pagedown"@.len() != "end"@.len());
                assert("pagedown"@.len() != "pageup"@.len());
            }
        },
    }
}

/// Law: the key names and their aliases: "backspace"; "delete" and "del";
/// "enter" and "return"; "tab"; "escape" and "esc"; the arrows "up", "down",
/// "left", "right"; "home", "end", "pageup", "pagedown"; "f1" to "f24" for
/// the function keys; and any single char for its own key.
pub proof fn law_key_name_table(c: char, n: u8)
    ensures
        key_from_lower("backspace"@) == Some(Key::Backspace),
        key_from_lower("delete"@) == Some(Key::Delete),
        key_from_lower("del"@) == Some(Key::Delete),
        key_from_lower("enter"@) == Some(Key::Enter),
        key_from_lower("return"@) == Some(Key::Enter),
        key_from_lower("tab"@) == Some(Key::Tab),
        key_from_lower("escape"@) == Some(Key::Escape),
        key_from_lower("esc"@) == Some(Key::Escape),
        key_from_lower("up"@) == Some(Key::Up),
        key_from_lower("down"@) == Some(Key::Down),
        key_from_lower("left"@) == Some(Key::Left),
        key_from_lower("right"@) == Some(Key::Right),
        key_from_lower("home"@) == Some(Key::Home),
        key_from_lower("end"@) == Some(Key::End),
        key_from_lower("pageup"@) == Some(Key::PageUp),
        key_from_lower("pagedown"@) == Some(Key::PageDown),
        1 <= n <= 24 ==> key_from_lower(seq!['f'] + decimal(n as nat)) == Some(Key::F(n)),
        key_from_lower(seq![c]) == Some(Key::Char(c)),
{
    law_key_name_roundtrip(Key::Backspace);
    law_key_name_roundtrip(Key::Delete);
    law_key_name_roundtrip(Key::Enter);
    law_key_name_roundtrip(Key::Tab);
    law_key_name_roundtrip(Key::Escape);
    law_key_name_roundtrip(Key::Up);
    law_key_name_roundtrip(Key::Down);
    law_key_name_roundtrip(Key::Left);
    law_key_name_roundtrip(Key::Right);
    law_key_name_roundtrip(Key::Home);
    law_key_name_roundtrip(Key::End);
    law_key_name_roundtrip(Key::PageUp);
    law_key_name_roundtrip(Key::PageDown);
    if 1 <= n <= 24 {
        law_key_name_roundtrip(Key::F(n));
    }
    lemma_single_char_key(c);
    assert(key_from_lower("del"@) == Some(Key::Delete)) by {
        reveal_strlit("backspace");
        reveal_strlit("delete");
        reveal_strlit("del");
        assert("del"@.len() != "backspace"@.len());
        assert("del"@.len() != "delete"@.len());
    }
    assert(key_from_lower("return"@) == Some(Key::Enter)) by {
        reveal_strlit("backspace");
        reveal_strlit("delete");
        reveal_strlit("del");
        reveal_strlit("enter");
        reveal_strlit("return");
        assert("return"@.len() != "backspace"@.len());
        assert("return"@[0] != "delete"@[0]);
        assert("return"@.len() != "del"@.len());
        assert("return"@.len() != "enter"@.len());
    }
    assert(key_from_lower("esc"@) == Some(Key::Escape)) by {
        reveal_strlit("backspace");
        reveal_strlit("delete");
        reveal_strlit("del");
        reveal_strlit("enter");
        reveal_strlit("return");
        reveal_strlit("tab");
        reveal_strlit("escape");
        reveal_strlit("esc");
        assert("esc"@.len() != "backspace"@.len());
        assert("esc"@.len() != "delete"@.len());
        assert("esc"@[0] != "del"@[0]);
        assert("esc"@.len() != "enter"@.len());
        assert("esc"@.len() != "return"@.len());
        assert("esc"@[0] != "tab"@[0]);
        assert("esc"@.len() != "escape"@.len());
    }
}

/// Law: the modifier names: "cmd", "command", "meta" and "super" name the
/// Command key on macOS and Control elsewhere; "ctrl" and "control" name
/// Control, "shift" Shift, and "alt", "option" and "opt" Alt; the four keys
/// have the flags 1, 2, 4 and 8.
pub proof fn law_modifier_name_table(p: Platform)
    ensures
        modifier_bits_from_lower("cmd"@, p) == Some((if p == Platform::MacOs { 1u8 } else { 2u8 })),
        modifier_bits_from_lower("command"@, p) == Some((if p == Platform::MacOs { 1u8 } else { 2u8 })),
        modifier_bits_from_lower("meta"@, p) == Some((if p == Platform::MacOs { 1u8 } else { 2u8 })),
        modifier_bits_from_lower("super"@, p) == Some((if p == Platform::MacOs { 1u8 } else { 2u8 })),
        modifier_bits_from_lower("ctrl"@, p) == Some(2u8),
        modifier_bits_from_lower("control"@, p) == Some(2u8),
        modifier_bits_from_lower("shift"@, p) == Some(4u8),
        modifier_bits_from_lower("alt"@, p) == Some(8u8),
        modifier_bits_from_lower("option"@, p) == Some(8u8),
        modifier_bits_from_lower("opt"@, p) == Some(8u8),
{
    assert(modifier_bits_from_lower("cmd"@, p) == Some((if p == Platform::MacOs { 1u8 } else { 2u8 }))) by {
        reveal_strlit("cmd");
    }
    assert(modifier_bits_from_lower("command"@, p) == Some((if p == Platform::MacOs { 1u8 } else { 2u8 }))) by {
        reveal_strlit("cmd");
        reveal_strlit("command");
        assert("command"@.len() != "cmd"@.len());
    }
    assert(modifier_bits_from_lower("meta"@, p) == Some((if p == Platform::MacOs { 1u8 } else { 2u8 }))) by {
        reveal_strlit("cmd");
        reveal_strlit("command");
        reveal_strlit("meta");
        assert("meta"@.len() != "cmd"@.len());
        assert("meta"@.len() != "command"@.len());
    }
    assert(modifier_bits_from_lower("super"@, p) == Some((if p == Platform::MacOs { 1u8 } else { 2u8 }))) by {
        reveal_strlit("cmd");
        reveal_strlit("command");
        reveal_strlit("meta");
        reveal_strlit("super");
        assert("super"@.len() != "cmd"@.len());
        assert("super"@.len() != "command"@.len());
        assert("super"@.len() != "meta"@.len());
    }
    assert(modifier_bits_from_lower("ctrl"@, p) == Some(2u8)) by {
        reveal_strlit("cmd");
        reveal_strlit("command");
        reveal_strlit("meta");
        reveal_strlit("super");
        reveal_strlit("ctrl");
        assert("ctrl"@.len() != "cmd"@.len());
        assert("ctrl"@.len() != "command"@.len());
        assert("ctrl"@[0] != "meta"@[0]);
        assert("ctrl"@.len() != "super"@.len());
    }
    assert(modifier_bits_from_lower("control"@, p) == Some(2u8)) by {
        reveal_strlit("cmd");
        reveal_strlit("command");
        reveal_strlit("meta");
        reveal_strlit("super");
        reveal_strlit("ctrl");
        reveal_strlit("control");
        assert("control"@.len() != "cmd"@.len());
        assert("control"@[2] != "command"@[2]);
        assert("control"@.len() != "meta"@.len());
        assert("control"@.len() != "super"@.len());
        assert("control"@.len() != "ctrl"@.len());
    }
    assert(modifier_bits_from_lower("shift"@, p) == Some(4u8)) by {
        reveal_strlit("cmd");
        reveal_strlit("command");
        reveal_strlit("meta");
        reveal_strlit("super");
        reveal_strlit("ctrl");
        reveal_strlit("control");
        reveal_strlit("shift");
        assert("shift"@.len() != "cmd"@.len());
        assert("shift"@.len() != "command"@.len());
        assert("shift"@.len() != "meta"@.len());
        assert("shift"@[1] != "super"@[1]);
        assert("shift"@.len() != "ctrl"@.len());
        assert("shift"@.len() != "control"@.len());
    }
    assert(modifier_bits_from_lower("alt"@, p) == Some(8u8)) by {
        reveal_strlit("cmd");
        reveal_strlit("command");
        reveal_strlit("meta");
        reveal_strlit("super");
        reveal_strlit("ctrl");
        reveal_strlit("control");
        reveal_strlit("shift");
        reveal_strlit("alt");
        assert("alt"@[0] != "cmd"@[0]);
        assert("alt"@.len() != "command"@.len());
        assert("alt"@.len() != "meta"@.len());
        assert("alt"@.len() != "super"@.len());
        assert("alt"@.len() != "ctrl"@.len());
        assert("alt"@.len() != "control"@.len());
        assert("alt"@.len() != "shift"@.len());
    }
    assert(modifier_bits_from_lower("option"@, p) == Some(8u8)) by {
        reveal_strlit("cmd");
        reveal_strlit("command");
        reveal_strlit("meta");
        reveal_strlit("super");
        reveal_strlit("ctrl");
        reveal_strlit("control");
        reveal_strlit("shift");
        reveal_strlit("alt");
        reveal_strlit("option");
        assert("option"@.len() != "cmd"@.len());
        assert("option"@.len() != "command"@.len());
        assert("option"@.len() != "meta"@.len());
        assert("option"@.len() != "super"@.len());
        assert("option"@.len() != "ctrl"@.len());
        assert("option"@.len() != "control"@.len());
        assert("option"@.len() != "shift"@.len());
        assert("option"@.len() != "alt"@.len());
    }
    assert(modifier_bits_from_lower("opt"@, p) == Some(8u8)) by {
        reveal_strlit("cmd");
        reveal_strlit("command");
        reveal_strlit("meta");
        reveal_strlit("super");
        reveal_strlit("ctrl");
        reveal_strlit("control");
        reveal_strlit("shift");
        reveal_strlit("alt");
        reveal_strlit("option");
        reveal_strlit("opt");
        assert("opt"@[0] != "cmd"@[0]);
        assert("opt"@.len() != "command"@.len());
        assert("opt"@.len() != "meta"@.len());
        assert("opt"@.len() != "super"@.len());
        assert("opt"@.len() != "ctrl"@.len());
        assert("opt"@.len() != "control"@.len());
        assert("opt"@.len() != "shift"@.len());
        assert("opt"@[0] != "alt"@[0]);
        assert("opt"@.len() != "option"@.len());
    }
}

} // verus!
