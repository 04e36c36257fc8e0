//! Keymap loading, merging, and lookup.

use vstd::prelude::*;
use crate::keymap::action::{Action, action_name, action_from_name};
use crate::keymap::types::{
    Key, KeyBinding, Modifiers, Platform, binding_from_text, binding_from_ascii, lemma_binding_one_modifier,
    lemma_binding_two_modifiers, lemma_single_char_key, lemma_modifier_names,
};
use crate::text::is_ascii_text;
use crate::text::push_str;

verus! {

/// The map a list of entries describes; a later entry for a key replaces an earlier one.
pub open spec fn entries_map(s: Seq<(KeyBinding, Action)>) -> Map<KeyBinding, Action>
    decreases s.len(),
{
    if s.len() == 0 {
        Map::empty()
    } else {
        entries_map(s.drop_last()).insert(s.last().0, s.last().1)
    }
}

/// Whether no key occurs twice among the entries.
pub open spec fn keys_distinct(s: Seq<(KeyBinding, Action)>) -> bool {
    forall|i: int, j: int| 0 <= i < j < s.len() ==> s[i].0 != s[j].0
}

/// A mapping from key bindings to editor actions.
#[derive(Debug)]
pub struct Keymap {
    bindings: Vec<(KeyBinding, Action)>,
}

/// A conflict detected when merging keymaps: a binding that both maps bind,
/// to different actions.
#[derive(Debug, Clone, PartialEq, Eq)]
pub struct Conflict {
    pub binding: KeyBinding,
    pub old_action: Action,
    pub new_action: Action,
}

impl View for Keymap {
    type V = Map<KeyBinding, Action>;

    closed spec fn view(&self) -> Map<KeyBinding, Action> {
        entries_map(self.bindings@)
    }
}

/// The key map and the warnings that loading `entries` (key text, action
/// name) on platform `p` gives: an entry whose key is no binding, or whose
/// action is unknown, is skipped with a warning; a binding bound again to
/// another action is rebound with a warning.
pub open spec fn loaded(entries: Seq<(Seq<char>, Seq<char>)>, p: Platform) -> (
    Map<KeyBinding, Action>,
    Seq<Seq<char>>,
)
    decreases entries.len(),
{
    if entries.len() == 0 {
        (Map::empty(), Seq::empty())
    } else {
        let (m, w) = loaded(entries.drop_last(), p);
        let (key, act) = entries.last();
        match binding_from_text(key, p) {
            None => (m, w.push("invalid key binding: '"@ + key + "'"@)),
            Some(b) => match action_from_name(act) {
                None => (m, w.push("unknown action: '"@ + act + "'"@)),
                Some(a) => if m.contains_key(b) && m[b] != a {
                    (
                        m.insert(b, a),
                        w.push(
                            "duplicate binding '"@ + key + "': '"@ + action_name(m[b])
                                + "' replaced by '"@ + action_name(a) + "'"@,
                        ),
                    )
                } else {
                    (m.insert(b, a), w)
                },
            },
        }
    }
}

/// What `loaded` gives when every key is read with ASCII case folding
/// (`binding_from_ascii`).
pub open spec fn loaded_ascii(entries: Seq<(Seq<char>, Seq<char>)>, p: Platform) -> (
    Map<KeyBinding, Action>,
    Seq<Seq<char>>,
)
    decreases entries.len(),
{
    if entries.len() == 0 {
        (Map::empty(), Seq::empty())
    } else {
        let (m, w) = loaded_ascii(entries.drop_last(), p);
        let (key, act) = entries.last();
        match binding_from_ascii(key, p) {
            None => (m, w.push("invalid key binding: '"@ + key + "'"@)),
            Some(b) => match action_from_name(act) {
                None => (m, w.push("unknown action: '"@ + act + "'"@)),
                Some(a) => if m.contains_key(b) && m[b] != a {
                    (
                        m.insert(b, a),
                        w.push(
                            "duplicate binding '"@ + key + "': '"@ + action_name(m[b])
                                + "' replaced by '"@ + action_name(a) + "'"@,
                        ),
                    )
                } else {
                    (m.insert(b, a), w)
                },
            },
        }
    }
}

/// The pairs of the default bindings, as texts to parse.
pub open spec fn default_binding_texts() -> Seq<(Seq<char>, Action)> {
    seq![
        ("cmd+s"@, Action::FileSave),
        ("cmd+o"@, Action::FileOpen),
        ("cmd+n"@, Action::FileNew),
        ("cmd+w"@, Action::FileClose),
        ("cmd+z"@, Action::Undo),
        ("cmd+shift+z"@, Action::Redo),
        ("cmd+c"@, Action::Copy),
        ("cmd+v"@, Action::Paste),
        ("cmd+x"@, Action::Cut),
        ("cmd+a"@, Action::SelectAll),
        ("cmd+f"@, Action::Find),
        ("cmd+h"@, Action::FindReplace),
        ("cmd+d"@, Action::AddCursorToNextMatch),
        ("cmd+b"@, Action::ToggleSidebar),
        ("cmd+`"@, Action::ToggleTerminal),
        ("cmd+shift+p"@, Action::OpenCommandPalette),
        ("cmd+p"@, Action::OpenFileFinder),
        ("ctrl+g"@, Action::GoToLine),
        ("cmd+shift+="@, Action::ZoomIn),
        ("cmd+-"@, Action::ZoomOut),
        ("cmd+shift+/"@, Action::ToggleComment),
    ]
}

/// The map the texts `d` give on platform `p`: each pair whose text is a
/// binding binds it, a later pair replacing an earlier one; the others are skipped.
pub open spec fn defaults_map(d: Seq<(Seq<char>, Action)>, p: Platform) -> Map<KeyBinding, Action>
    decreases d.len(),
{
    if d.len() == 0 {
        Map::empty()
    } else {
        let m = defaults_map(d.drop_last(), p);
        match binding_from_text(d.last().0, p) {
            Some(b) => m.insert(b, d.last().1),
            None => m,
        }
    }
}

/// The map the ASCII texts `d` give on platform `p`, each read by
/// `binding_from_ascii`: each pair whose text is a binding binds it, a later
/// pair replacing an earlier one; the others are skipped.
pub open spec fn ascii_defaults_map(d: Seq<(Seq<char>, Action)>, p: Platform) -> Map<
    KeyBinding,
    Action,
>
    decreases d.len(),
{
    if d.len() == 0 {
        Map::empty()
    } else {
        let m = ascii_defaults_map(d.drop_last(), p);
        match binding_from_ascii(d.last().0, p) {
            Some(b) => m.insert(b, d.last().1),
            None => m,
        }
    }
}

/// Every default binding text is ASCII.
proof fn lemma_default_texts_ascii()
    ensures
        forall|i: int|
            0 <= i < default_binding_texts().len() ==> is_ascii_text(
                #[trigger] default_binding_texts()[i].0,
            ),
{
    reveal_strlit("cmd+s");
    assert(is_ascii_text("cmd+s"@));
    reveal_strlit("cmd+o");
    assert(is_ascii_text("cmd+o"@));
    reveal_strlit("cmd+n");
    assert(is_ascii_text("cmd+n"@));
    reveal_strlit("cmd+w");
    assert(is_ascii_text("cmd+w"@));
    reveal_strlit("cmd+z");
    assert(is_ascii_text("cmd+z"@));
    reveal_strlit("cmd+shift+z");
    assert(is_ascii_text("cmd+shift+z"@));
    reveal_strlit("cmd+c");
    assert(is_ascii_text("cmd+c"@));
    reveal_strlit("cmd+v");
    assert(is_ascii_text("cmd+v"@));
    reveal_strlit("cmd+x");
    assert(is_ascii_text("cmd+x"@));
    reveal_strlit("cmd+a");
    assert(is_ascii_text("cmd+a"@));
    reveal_strlit("cmd+f");
    assert(is_ascii_text("cmd+f"@));
    reveal_strlit("cmd+h");
    assert(is_ascii_text("cmd+h"@));
    reveal_strlit("cmd+d");
    assert(is_ascii_text("cmd+d"@));
    reveal_strlit("cmd+b");
    assert(is_ascii_text("cmd+b"@));
    reveal_strlit("cmd+`");
    assert(is_ascii_text("cmd+`"@));
    reveal_strlit("cmd+shift+p");
    assert(is_ascii_text("cmd+shift+p"@));
    reveal_strlit("cmd+p");
    assert(is_ascii_text("cmd+p"@));
    reveal_strlit("ctrl+g");
    assert(is_ascii_text("ctrl+g"@));
    reveal_strlit("cmd+shift+=");
    assert(is_ascii_text("cmd+shift+="@));
    reveal_strlit("cmd+-");
    assert(is_ascii_text("cmd+-"@));
    reveal_strlit("cmd+shift+/");
    assert(is_ascii_text("cmd+shift+/"@));
}

/// Whether `base` and `over` both bind `b`, to different actions.
pub open spec fn binds_differently(
    base: Map<KeyBinding, Action>,
    over: Map<KeyBinding, Action>,
    b: KeyBinding,
) -> bool {
    base.contains_key(b) && over.contains_key(b) && base[b] != over[b]
}

/// Whether `conflicts` are exactly the bindings that both `base` and `over`
/// bind, to different actions, each once, with the action of each side.
#[verifier::opaque]
pub open spec fn conflicts_between(
    conflicts: Seq<Conflict>,
    base: Map<KeyBinding, Action>,
    over: Map<KeyBinding, Action>,
) -> bool {
    &&& forall|i: int|
        0 <= i < conflicts.len() ==> {
            let c = #[trigger] conflicts[i];
            &&& base.contains_key(c.binding)
            &&& over.contains_key(c.binding)
            &&& c.old_action == base[c.binding]
            &&& c.new_action == over[c.binding]
            &&& c.old_action != c.new_action
        }
    &&& forall|b: KeyBinding|
        #[trigger] binds_differently(base, over, b) ==> exists|i: int|
            0 <= i < conflicts.len() && #[trigger] conflicts[i].binding == b
    &&& forall|i: int, j: int|
        0 <= i < j < conflicts.len() ==> conflicts[i].binding != conflicts[j].binding
}

/// Adding a binding `b` that `over` does not bind yet to the overrides keeps
/// the conflicts exact once the conflict for `b`, if any, is added.
proof fn lemma_conflicts_step(
    conf: Seq<Conflict>,
    next: Seq<Conflict>,
    base: Map<KeyBinding, Action>,
    over: Map<KeyBinding, Action>,
    b: KeyBinding,
    a: Action,
)
    requires
        conflicts_between(conf, base, over),
        !over.contains_key(b),
        next == if base.contains_key(b) && base[b] != a {
            conf.push(Conflict { binding: b, old_action: base[b], new_action: a })
        } else {
            conf
        },
    ensures
        conflicts_between(next, base, over.insert(b, a)),
{
    reveal(conflicts_between);
    let o2 = over.insert(b, a);
    assert forall|i: int| 0 <= i < next.len() implies {
        let c = #[trigger] next[i];
        &&& base.contains_key(c.binding)
        &&& o2.contains_key(c.binding)
        &&& c.old_action == base[c.binding]
        &&& c.new_action == o2[c.binding]
        &&& c.old_action != c.new_action
    } by {
        if i < conf.len() {
            assert(next[i] == conf[i]);
            assert(conf[i].binding != b);
        }
    }
    assert forall|k: KeyBinding| #[trigger] binds_differently(base, o2, k) implies exists|i: int|
        0 <= i < next.len() && #[trigger] next[i].binding == k by {
        if k == b {
            assert(next[next.len() - 1].binding == k);
        } else {
            assert(binds_differently(base, over, k));
            let i = choose|i: int| 0 <= i < conf.len() && #[trigger] conf[i].binding == k;
            assert(next[i] == conf[i]);
        }
    }
    assert forall|i: int, j: int| 0 <= i < j < next.len() implies next[i].binding
        != next[j].binding by {
        if j < conf.len() {
            assert(next[i] == conf[i] && next[j] == conf[j]);
        } else {
            assert(next[i] == conf[i]);
            assert(conf[i].binding != b);
        }
    }
}

impl Keymap {
    #[verifier::type_invariant]
    spec fn inv(self) -> bool {
        keys_distinct(self.bindings@)
    }

    /// Create an empty keymap.
    pub fn empty() -> (k: Self)
        ensures
            k@ == Map::<KeyBinding, Action>::empty(),
    {
        Keymap { bindings: Vec::new() }
    }

    /// Create a keymap with VSCode-like default bindings, "cmd" read for `platform`.
    pub fn default_bindings(platform: Platform) -> (k: Self)
        ensures
            k@ == defaults_map(default_binding_texts(), platform),
            k@ == ascii_defaults_map(default_binding_texts(), platform),
    {
        let mut keymap = Keymap::empty();
        let defaults: [(&str, Action); 21] = [
            ("cmd+s", Action::FileSave),
            ("cmd+o", Action::FileOpen),
            ("cmd+n", Action::FileNew),
            ("cmd+w", Action::FileClose),
            ("cmd+z", Action::Undo),
            ("cmd+shift+z", Action::Redo),
            ("cmd+c", Action::Copy),
            ("cmd+v", Action::Paste),
            ("cmd+x", Action::Cut),
            ("cmd+a", Action::SelectAll),
            ("cmd+f", Action::Find),
            ("cmd+h", Action::FindReplace),
            ("cmd+d", Action::AddCursorToNextMatch),
            ("cmd+b", Action::ToggleSidebar),
            ("cmd+`", Action::ToggleTerminal),
            ("cmd+shift+p", Action::OpenCommandPalette),
            ("cmd+p", Action::OpenFileFinder),
            ("ctrl+g", Action::GoToLine),
            ("cmd+shift+=", Action::ZoomIn),
            ("cmd+-", Action::ZoomOut),
            ("cmd+shift+/", Action::ToggleComment),
        ];
        let ghost texts = default_binding_texts();
        assert(defaults@.len() == texts.len());
        assert forall|i: int| 0 <= i < texts.len() implies #[trigger] defaults@[i].0@ == texts[i].0
            && defaults@[i].1 == texts[i].1 by {}
        proof {
            lemma_default_texts_ascii();
        }
        let mut i: usize = 0;
        while i < 21
            invariant
                defaults@.len() == 21,
                texts.len() == 21,
                forall|j: int| 0 <= j < 21 ==> #[trigger] defaults@[j].0@ == texts[j].0
                    && defaults@[j].1 == texts[j].1,
                i <= 21,
                keymap@ == defaults_map(texts.take(i as int), platform),
                keymap@ == ascii_defaults_map(texts.take(i as int), platform),
                forall|j: int| 0 <= j < 21 ==> is_ascii_text(#[trigger] texts[j].0),
            decreases 21 - i,
        {
            let (key_str, action) = defaults[i];
            proof {
                assert(texts.take(i + 1).drop_last() == texts.take(i as int));
                assert(texts.take(i + 1).last() == texts[i as int]);
                assert(key_str@ == texts[i as int].0 && action == texts[i as int].1);
                assert(is_ascii_text(key_str@));
            }
            if let Some(binding) = KeyBinding::parse(key_str, platform) {
                keymap.insert(binding, action);
            }
            i += 1;
        }
        assert(texts.take(21) == texts);
        keymap
    }

    /// Load a keymap from its entries (key text, action name), as a keymap
    /// file lists them, with `platform`'s reading of "cmd".  Returns the
    /// keymap and the warnings for the entries that were skipped or rebound.
    pub fn from_entries(entries: &[(String, String)], platform: Platform) -> (r: (
        Self,
        Vec<String>,
    ))
        ensures
            ({
                let views = entries@.map_values(|e: (String, String)| (e.0@, e.1@));
                let (m, w) = loaded(views, platform);
                &&& r.0@ == m
                &&& r.1@.len() == w.len()
                &&& forall|i: int| 0 <= i < w.len() ==> #[trigger] r.1@[i]@ == w[i]
                &&& (forall|i: int| 0 <= i < views.len() ==> is_ascii_text(#[trigger] views[i].0))
                    ==> loaded_ascii(views, platform) == loaded(views, platform)
            }),
    {
        let ghost views = entries@.map_values(|e: (String, String)| (e.0@, e.1@));
        let mut keymap = Keymap::empty();
        let mut warnings: Vec<String> = Vec::new();
        let n = entries.len();
        let mut i: usize = 0;
        while i < n
            invariant
                n == entries@.len(),
                views == entries@.map_values(|e: (String, String)| (e.0@, e.1@)),
                i <= n,
                keymap@ == loaded(views.take(i as int), platform).0,
                warnings@.len() == loaded(views.take(i as int), platform).1.len(),
                forall|j: int|
                    0 <= j < warnings@.len() ==> #[trigger] warnings@[j]@ == loaded(
                        views.take(i as int),
                        platform,
                    ).1[j],
                (forall|j: int| 0 <= j < views.len() ==> is_ascii_text(#[trigger] views[j].0))
                    ==> loaded_ascii(views.take(i as int), platform) == loaded(
                    views.take(i as int),
                    platform,
                ),
            decreases n - i,
        {
            let key = &entries[i].0;
            let act = &entries[i].1;
            let ghost prev = loaded(views.take(i as int), platform);
            proof {
                assert(views.take(i + 1).drop_last() == views.take(i as int));
                assert(views.take(i + 1).last() == (key@, act@));
                assert(views[i as int] == (key@, act@));
            }
            match KeyBinding::parse(key.as_str(), platform) {
                None => {
                    let mut w = String::new();
                    push_str(&mut w, "invalid key binding: '");
                    push_str(&mut w, key.as_str());
                    push_str(&mut w, "'");
                    assert(Seq::<char>::empty() + "invalid key binding: '"@ == "invalid key binding: '"@);
                    warnings.push(w);
                },
                Some(binding) => match Action::from_name(act.as_str()) {
                    Err(_) => {
                        let mut w = String::new();
                        push_str(&mut w, "unknown action: '");
                        push_str(&mut w, act.as_str());
                        push_str(&mut w, "'");
                        assert(Seq::<char>::empty() + "unknown action: '"@ == "unknown action: '"@);
                        warnings.push(w);
                    },
                    Ok(action) => {
                        if let Some(old) = keymap.insert(binding, action) {
                            if old != action {
                                let mut w = String::new();
                                push_str(&mut w, "duplicate binding '");
                                push_str(&mut w, key.as_str());
                                push_str(&mut w, "': '");
                                push_str(&mut w, old.as_str());
                                push_str(&mut w, "' replaced by '");
                                push_str(&mut w, action.as_str());
                                push_str(&mut w, "'");
                                assert(Seq::<char>::empty() + "duplicate binding '"@
                                    == "duplicate binding '"@);
                                warnings.push(w);
                            }
                        }
                    },
                },
            }
            i += 1;
        }
        assert(views.take(n as int) == views);
        (keymap, warnings)
    }

    /// Merge overrides on top of this keymap: every binding of `overrides`
    /// takes its action from there.  Returns the conflicts: exactly the
    /// bindings that both maps bind to different actions, once each.
    pub fn merge(&mut self, overrides: &Keymap) -> (conflicts: Vec<Conflict>)
        ensures
            final(self)@ == old(self)@.union_prefer_right(overrides@),
            conflicts_between(conflicts@, old(self)@, overrides@),
    {
        proof {
            use_type_invariant(&*overrides);
        }
        let ghost start = self@;
        let ghost ov = overrides.bindings@;
        let mut conflicts: Vec<Conflict> = Vec::new();
        let n = overrides.bindings.len();
        let mut i: usize = 0;
        proof {
            reveal(conflicts_between);
        }
        while i < n
            invariant
                n == ov.len(),
                ov == overrides.bindings@,
                keys_distinct(ov),
                overrides@ == entries_map(ov),
                i <= n,
                self@ == start.union_prefer_right(entries_map(ov.take(i as int))),
                conflicts_between(conflicts@, start, entries_map(ov.take(i as int))),
            decreases n - i,
        {
            let (binding, new_action) = overrides.bindings[i];
            let ghost prev = ov.take(i as int);
            proof {
                assert(ov.take(i + 1).drop_last() == prev);
                assert(ov.take(i + 1).last() == (binding, new_action));
                assert forall|j: int| 0 <= j < prev.len() implies prev[j].0 != binding by {
                    assert(prev[j] == ov[j]);
                }
                lemma_entries_not_key(prev, binding);
            }
            let ghost old_conf = conflicts@;
            let found = self.lookup(&binding);
            match found {
                Some(old_action) => {
                    if old_action != new_action {
                        conflicts.push(Conflict { binding, old_action, new_action });
                    }
                },
                None => {},
            }
            proof {
                lemma_conflicts_step(old_conf, conflicts@, start, entries_map(prev), binding, new_action);
            }
            self.insert(binding, new_action);
            proof {
                assert(self@ =~= start.union_prefer_right(entries_map(ov.take(i + 1))));
            }
            i += 1;
        }
        assert(ov.take(n as int) == ov);
        conflicts
    }

    /// Look up the action for a key binding.
    pub fn lookup(&self, binding: &KeyBinding) -> (r: Option<Action>)
        ensures
            r == if self@.contains_key(*binding) {
                Some(self@[*binding])
            } else {
                None::<Action>
            },
    {
        proof {
            use_type_invariant(self);
            lemma_entries_map_facts(self.bindings@);
        }
        let n = self.bindings.len();
        let mut i: usize = 0;
        while i < n
            invariant
                n == self.bindings@.len(),
                i <= n,
                forall|j: int| 0 <= j < i ==> self.bindings@[j].0 != *binding,
            decreases n - i,
        {
            if self.bindings[i].0 == *binding {
                proof {
                    use_type_invariant(self);
                    lemma_entries_map_facts(self.bindings@);
                }
                return Some(self.bindings[i].1);
            }
            i += 1;
        }
        proof {
            lemma_entries_map_facts(self.bindings@);
        }
        None
    }

    /// Insert a single binding; returns the action it was bound to before, if any.
    pub fn insert(&mut self, binding: KeyBinding, action: Action) -> (r: Option<Action>)
        ensures
            final(self)@ == old(self)@.insert(binding, action),
            final(self)@.dom().finite(),
            final(self)@.len() == old(self)@.len() + if old(self)@.contains_key(binding) {
                0int
            } else {
                1int
            },
            r == if old(self)@.contains_key(binding) {
                Some(old(self)@[binding])
            } else {
                None::<Action>
            },
    {
        proof {
            use_type_invariant(&*self);
            lemma_entries_map_facts(self.bindings@);
            let m = old(self)@;
            if m.contains_key(binding) {
                assert(m.insert(binding, action).dom() =~= m.dom());
            } else {
                assert(m.insert(binding, action).dom() =~= m.dom().insert(binding));
            }
        }
        let ghost before = self.bindings@;
        let n = self.bindings.len();
        let mut i: usize = 0;
        while i < n
            invariant
                n == before.len(),
                before == self.bindings@,
                before == old(self).bindings@,
                keys_distinct(before),
                i <= n,
                forall|j: int| 0 <= j < i ==> before[j].0 != binding,
            decreases n - i,
        {
            if self.bindings[i].0 == binding {
                let old_action = self.bindings[i].1;
                let mut v: Vec<(KeyBinding, Action)> = Vec::new();
                std::mem::swap(&mut v, &mut self.bindings);
                v.set(i, (binding, action));
                proof {
                    lemma_entries_update(before, i as int, action);
                    lemma_entries_map_facts(before);
                }
                self.bindings = v;
                return Some(old_action);
            }
            i += 1;
        }
        let mut v: Vec<(KeyBinding, Action)> = Vec::new();
        std::mem::swap(&mut v, &mut self.bindings);
        v.push((binding, action));
        proof {
            assert(v@.drop_last() == before);
            lemma_entries_map_facts(before);
            assert forall|j: int, l: int| 0 <= j < l < v@.len() implies v@[j].0 != v@[l].0 by {
                if l < before.len() {
                    assert(v@[j] == before[j] && v@[l] == before[l]);
                }
            }
        }
        self.bindings = v;
        None
    }

    /// Number of bindings.
    pub fn len(&self) -> (n: usize)
        ensures
            n == self@.len(),
    {
        proof {
            use_type_invariant(self);
            law_entries_len(self.bindings@);
        }
        self.bindings.len()
    }

    /// Whether the keymap is empty.
    pub fn is_empty(&self) -> (r: bool)
        ensures
            r == (self@ == Map::<KeyBinding, Action>::empty()),
    {
        proof {
            use_type_invariant(self);
            lemma_entries_map_facts(self.bindings@);
            if self.bindings@.len() > 0 {
                assert(self@.contains_key(self.bindings@[0].0));
            } else {
                assert(self@ == Map::<KeyBinding, Action>::empty());
            }
        }
        self.bindings.len() == 0
    }

    /// The bindings and their actions, each binding once.
    pub fn entries(&self) -> (r: Vec<(KeyBinding, Action)>)
        ensures
            entries_map(r@) == self@,
            keys_distinct(r@),
            ({
                let e = r@;
                &&& e.len() == self@.len()
                &&& forall|i: int|
                    0 <= i < e.len() ==> self@.contains_key(#[trigger] e[i].0) && self@[e[i].0]
                        == e[i].1
                &&& forall|b: KeyBinding|
                    #[trigger] self@.contains_key(b) ==> exists|i: int| 0 <= i < e.len() && e[i].0 == b
            }),
    {
        proof {
            use_type_invariant(self);
            law_entries_len(self.bindings@);
            lemma_entries_map_facts(self.bindings@);
        }
        let mut r: Vec<(KeyBinding, Action)> = Vec::new();
        let n = self.bindings.len();
        for i in 0..n
            invariant
                n == self.bindings@.len(),
                r@ == self.bindings@.take(i as int),
        {
            r.push(self.bindings[i]);
            assert(r@ == self.bindings@.take(i + 1));
        }
        assert(self.bindings@.take(n as int) == self.bindings@);
        r
    }

    /// Iterate over all bindings, each once.
    pub fn iter(&self) -> (r: std::slice::Iter<'_, (KeyBinding, Action)>)
        ensures
            entries_map(vstd::std_specs::slice::into_iter_elts(r)) == self@,
            keys_distinct(vstd::std_specs::slice::into_iter_elts(r)),
            ({
                let e = vstd::std_specs::slice::into_iter_elts(r);
                &&& e.len() == self@.len()
                &&& forall|i: int|
                    0 <= i < e.len() ==> self@.contains_key(#[trigger] e[i].0) && self@[e[i].0]
                        == e[i].1
                &&& forall|b: KeyBinding|
                    #[trigger] self@.contains_key(b) ==> exists|i: int| 0 <= i < e.len() && e[i].0 == b
            }),
    {
        proof {
            use_type_invariant(self);
            law_entries_len(self.bindings@);
            lemma_entries_map_facts(self.bindings@);
        }
        let r = self.bindings.iter();
        proof {
            broadcast use vstd::std_specs::slice::axiom_spec_slice_iter;
            assert(vstd::std_specs::slice::into_iter_elts(r) =~= self.bindings@);
        }
        r
    }
}

impl Clone for Keymap {
    fn clone(&self) -> (r: Self)
        ensures
            r@ == self@,
    {
        Keymap { bindings: self.entries() }
    }
}

/// What the entries map holds: exactly their keys, each to the action of
/// its last entry; with distinct keys, each to the action of its entry.
proof fn lemma_entries_map_facts(s: Seq<(KeyBinding, Action)>)
    ensures
        forall|k: KeyBinding|
            #[trigger] entries_map(s).contains_key(k) <==> exists|i: int|
                0 <= i < s.len() && s[i].0 == k,
        keys_distinct(s) ==> forall|i: int|
            0 <= i < s.len() ==> #[trigger] entries_map(s)[s[i].0] == s[i].1,
        entries_map(s).dom().finite(),
    decreases s.len(),
{
    if s.len() > 0 {
        let p = s.drop_last();
        lemma_entries_map_facts(p);
        assert forall|k: KeyBinding| #[trigger] entries_map(s).contains_key(k) <==> exists|i: int|
            0 <= i < s.len() && s[i].0 == k by {
            if entries_map(s).contains_key(k) && k != s.last().0 {
                let i = choose|i: int| 0 <= i < p.len() && p[i].0 == k;
                assert(s[i].0 == k);
            }
            if exists|i: int| 0 <= i < s.len() && s[i].0 == k {
                let i = choose|i: int| 0 <= i < s.len() && s[i].0 == k;
                if i < p.len() {
                    assert(p[i].0 == k);
                }
            }
        }
        if keys_distinct(s) {
            assert forall|i: int| 0 <= i < s.len() implies #[trigger] entries_map(s)[s[i].0]
                == s[i].1 by {
                if i < p.len() {
                    assert(p[i] == s[i]);
                    assert(keys_distinct(p));
                }
            }
        }
    }
}

/// A key no entry has is not in the entries map.
proof fn lemma_entries_not_key(s: Seq<(KeyBinding, Action)>, k: KeyBinding)
    requires
        forall|i: int| 0 <= i < s.len() ==> s[i].0 != k,
    ensures
        !entries_map(s).contains_key(k),
    decreases s.len(),
{
    if s.len() > 0 {
        lemma_entries_not_key(s.drop_last(), k);
    }
}

/// Law: a list of entries with distinct keys describes a map with exactly
/// one binding per entry, so iterating a keymap yields as many items as it
/// has bindings.
pub proof fn law_entries_len(s: Seq<(KeyBinding, Action)>)
    requires
        keys_distinct(s),
    ensures
        entries_map(s).len() == s.len(),
    decreases s.len(),
{
    if s.len() > 0 {
        let p = s.drop_last();
        assert(keys_distinct(p));
        law_entries_len(p);
        lemma_entries_map_facts(p);
        assert(!entries_map(p).contains_key(s.last().0));
    }
}

/// Giving an entry a new action updates that key in the map.
proof fn lemma_entries_update(s: Seq<(KeyBinding, Action)>, i: int, a: Action)
    requires
        keys_distinct(s),
        0 <= i < s.len(),
    ensures
        entries_map(s.update(i, (s[i].0, a))) == entries_map(s).insert(s[i].0, a),
        keys_distinct(s.update(i, (s[i].0, a))),
{
    let t = s.update(i, (s[i].0, a));
    lemma_entries_map_facts(s);
    lemma_entries_map_facts(t);
    assert forall|j: int, l: int| 0 <= j < l < t.len() implies t[j].0 != t[l].0 by {}
    assert(entries_map(t) =~= entries_map(s).insert(s[i].0, a)) by {
        assert forall|k: KeyBinding| #[trigger] entries_map(t).contains_key(k) implies entries_map(
            s,
        ).insert(s[i].0, a)[k] == entries_map(t)[k] by {
            let j = choose|j: int| 0 <= j < t.len() && t[j].0 == k;
            assert(entries_map(t)[t[j].0] == t[j].1);
        }
        assert forall|k: KeyBinding| #[trigger] entries_map(s).insert(s[i].0, a).contains_key(
            k,
        ) implies entries_map(t).contains_key(k) by {
            if k != s[i].0 {
                let j = choose|j: int| 0 <= j < s.len() && s[j].0 == k;
                assert(t[j].0 == k);
            } else {
                assert(t[i].0 == k);
            }
        }
    }
}

/// After a merge, looking a binding up finds the action that the overrides
/// give it, or, for a binding they leave alone, the action it had before.
pub proof fn law_merge_lookup(
    base: Map<KeyBinding, Action>,
    over: Map<KeyBinding, Action>,
    b: KeyBinding,
)
    ensures
        over.contains_key(b) ==> base.union_prefer_right(over).contains_key(b)
            && base.union_prefer_right(over)[b] == over[b],
        !over.contains_key(b) ==> (base.union_prefer_right(over).contains_key(b)
            == base.contains_key(b)),
        !over.contains_key(b) && base.contains_key(b) ==> base.union_prefer_right(over)[b]
            == base[b],
{
}

/// Looking a binding up right after inserting it finds the inserted action,
/// and every other binding keeps its action.
pub proof fn law_lookup_after_insert(
    m: Map<KeyBinding, Action>,
    b: KeyBinding,
    a: Action,
    other: KeyBinding,
)
    requires
        other != b,
    ensures
        m.insert(b, a).contains_key(b) && m.insert(b, a)[b] == a,
        m.insert(b, a).contains_key(other) == m.contains_key(other),
        m.contains_key(other) ==> m.insert(b, a)[other] == m[other],
{
}

/// The bits "cmd" stands for on platform `p`: Command on macOS, Control elsewhere.
pub open spec fn cmd_bits(p: Platform) -> u8 {
    if p == Platform::MacOs {
        1u8
    } else {
        2u8
    }
}

/// The bits "cmd+shift" stands for on platform `p`.
pub open spec fn cmd_shift_bits(p: Platform) -> u8 {
    if p == Platform::MacOs {
        5u8
    } else {
        6u8
    }
}

/// The binding of a char key under the modifier bits `bits`.
pub open spec fn char_binding(bits: u8, c: char) -> KeyBinding {
    KeyBinding { modifiers: Modifiers { bits }, key: Key::Char(c) }
}

/// The default bindings as they read on platform `p`, in order.
pub open spec fn default_pairs(p: Platform) -> Seq<(KeyBinding, Action)> {
    seq![
        (char_binding(cmd_bits(p), 's'), Action::FileSave),
        (char_binding(cmd_bits(p), 'o'), Action::FileOpen),
        (char_binding(cmd_bits(p), 'n'), Action::FileNew),
        (char_binding(cmd_bits(p), 'w'), Action::FileClose),
        (char_binding(cmd_bits(p), 'z'), Action::Undo),
        (char_binding(cmd_shift_bits(p), 'z'), Action::Redo),
        (char_binding(cmd_bits(p), 'c'), Action::Copy),
        (char_binding(cmd_bits(p), 'v'), Action::Paste),
        (char_binding(cmd_bits(p), 'x'), Action::Cut),
        (char_binding(cmd_bits(p), 'a'), Action::SelectAll),
        (char_binding(cmd_bits(p), 'f'), Action::Find),
        (char_binding(cmd_bits(p), 'h'), Action::FindReplace),
        (char_binding(cmd_bits(p), 'd'), Action::AddCursorToNextMatch),
        (char_binding(cmd_bits(p), 'b'), Action::ToggleSidebar),
        (char_binding(cmd_bits(p), '`'), Action::ToggleTerminal),
        (char_binding(cmd_shift_bits(p), 'p'), Action::OpenCommandPalette),
        (char_binding(cmd_bits(p), 'p'), Action::OpenFileFinder),
        (char_binding(2u8, 'g'), Action::GoToLine),
        (char_binding(cmd_shift_bits(p), '='), Action::ZoomIn),
        (char_binding(cmd_bits(p), '-'), Action::ZoomOut),
        (char_binding(cmd_shift_bits(p), '/'), Action::ToggleComment),
    ]
}

/// Texts that each read as the binding of a pair give the map of those pairs.
proof fn lemma_ascii_defaults_entries(
    d: Seq<(Seq<char>, Action)>,
    e: Seq<(KeyBinding, Action)>,
    p: Platform,
)
    requires
        d.len() == e.len(),
        forall|i: int|
            0 <= i < d.len() ==> binding_from_ascii(#[trigger] d[i].0, p) == Some(e[i].0) && d[i].1
                == e[i].1,
    ensures
        ascii_defaults_map(d, p) == entries_map(e),
    decreases d.len(),
{
    if d.len() > 0 {
        let n = d.len() - 1;
        assert forall|i: int| 0 <= i < d.drop_last().len() implies binding_from_ascii(
            #[trigger] d.drop_last()[i].0,
            p,
        ) == Some(e.drop_last()[i].0) && d.drop_last()[i].1 == e.drop_last()[i].1 by {
            assert(d.drop_last()[i] == d[i]);
            assert(e.drop_last()[i] == e[i]);
        }
        lemma_ascii_defaults_entries(d.drop_last(), e.drop_last(), p);
        assert(binding_from_ascii(d[n].0, p) == Some(e[n].0));
    }
}

/// Whether `c` may stand alone as a key name in a binding text.
spec fn plain_key_char(c: char) -> bool {
    c != '+' && !(65 <= (c as u32) <= 90) && !crate::text::is_white_space(c)
}

/// "cmd+c" for a plain char `c` reads as `c` under the "cmd" bits.
proof fn lemma_cmd_key(t: Seq<char>, c: char, p: Platform)
    requires
        t == seq!['c', 'm', 'd', '+', c],
        plain_key_char(c),
    ensures
        binding_from_ascii(t, p) == Some(char_binding(cmd_bits(p), c)),
{
    reveal_strlit("cmd");
    assert("cmd"@ + seq!['+'] + seq![c] =~= t);
    lemma_modifier_names(p);
    lemma_single_char_key(c);
    lemma_binding_one_modifier("cmd"@, seq![c], p);
}

/// "cmd+shift+c" for a plain char `c` reads as `c` under the "cmd" and shift bits.
proof fn lemma_cmd_shift_key(t: Seq<char>, c: char, p: Platform)
    requires
        t == seq!['c', 'm', 'd', '+', 's', 'h', 'i', 'f', 't', '+', c],
        plain_key_char(c),
    ensures
        binding_from_ascii(t, p) == Some(char_binding(cmd_shift_bits(p), c)),
{
    reveal_strlit("cmd");
    reveal_strlit("shift");
    assert("cmd"@ + seq!['+'] + ("shift"@ + seq!['+'] + seq![c]) =~= t);
    lemma_modifier_names(p);
    lemma_single_char_key(c);
    lemma_binding_two_modifiers("cmd"@, "shift"@, seq![c], p);
    if p == Platform::MacOs {
        assert((1u8 | 4u8) == 5u8) by (bit_vector);
    } else {
        assert((2u8 | 4u8) == 6u8) by (bit_vector);
    }
}

/// "ctrl+c" for a plain char `c` reads as `c` under the Control bit.
proof fn lemma_ctrl_key(t: Seq<char>, c: char, p: Platform)
    requires
        t == seq!['c', 't', 'r', 'l', '+', c],
        plain_key_char(c),
    ensures
        binding_from_ascii(t, p) == Some(char_binding(2u8, c)),
{
    reveal_strlit("ctrl");
    assert("ctrl"@ + seq!['+'] + seq![c] =~= t);
    lemma_modifier_names(p);
    lemma_single_char_key(c);
    lemma_binding_one_modifier("ctrl"@, seq![c], p);
}

/// Default text `i` reads as default pair `i`.
proof fn lemma_default_entry(p: Platform, i: int)
    requires
        0 <= i < 21,
    ensures
        binding_from_ascii(default_binding_texts()[i].0, p) == Some(default_pairs(p)[i].0),
        default_binding_texts()[i].1 == default_pairs(p)[i].1,
{
    let d = default_binding_texts();
    let e = default_pairs(p);
    if i == 0 {
        assert(binding_from_ascii(d[i].0, p) == Some(e[i].0)) by {
            reveal_strlit("cmd+s");
            assert(d[i].0 =~= seq!['c', 'm', 'd', '+', 's']);
            lemma_cmd_key(d[i].0, 's', p);
        }
    } else if i == 1 {
        assert(binding_from_ascii(d[i].0, p) == Some(e[i].0)) by {
            reveal_strlit("cmd+o");
            assert(d[i].0 =~= seq!['c', 'm', 'd', '+', 'o']);
            lemma_cmd_key(d[i].0, 'o', p);
        }
    } else if i == 2 {
        assert(binding_from_ascii(d[i].0, p) == Some(e[i].0)) by {
            reveal_strlit("cmd+n");
            assert(d[i].0 =~= seq!['c', 'm', 'd', '+', 'n']);
            lemma_cmd_key(d[i].0, 'n', p);
        }
    } else if i == 3 {
        assert(binding_from_ascii(d[i].0, p) == Some(e[i].0)) by {
            reveal_strlit("cmd+w");
            assert(d[i].0 =~= seq!['c', 'm', 'd', '+', 'w']);
            lemma_cmd_key(d[i].0, 'w', p);
        }
    } else if i == 4 {
        assert(binding_from_ascii(d[i].0, p) == Some(e[i].0)) by {
            reveal_strlit("cmd+z");
            assert(d[i].0 =~= seq!['c', 'm', 'd', '+', 'z']);
            lemma_cmd_key(d[i].0, 'z', p);
        }
    } else if i == 5 {
        assert(binding_from_ascii(d[i].0, p) == Some(e[i].0)) by {
            reveal_strlit("cmd+shift+z");
            assert(d[i].0 =~= seq!['c', 'm', 'd', '+', 's', 'h', 'i', 'f', 't', '+', 'z']);
            lemma_cmd_shift_key(d[i].0, 'z', p);
        }
    } else if i == 6 {
        assert(binding_from_ascii(d[i].0, p) == Some(e[i].0)) by {
            reveal_strlit("cmd+c");
            assert(d[i].0 =~= seq!['c', 'm', 'd', '+', 'c']);
            lemma_cmd_key(d[i].0, 'c', p);
        }
    } else if i == 7 {
        assert(binding_from_ascii(d[i].0, p) == Some(e[i].0)) by {
            reveal_strlit("cmd+v");
            assert(d[i].0 =~= seq!['c', 'm', 'd', '+', 'v']);
            lemma_cmd_key(d[i].0, 'v', p);
        }
    } else if i == 8 {
        assert(binding_from_ascii(d[i].0, p) == Some(e[i].0)) by {
            reveal_strlit("cmd+x");
            assert(d[i].0 =~= seq!['c', 'm', 'd', '+', 'x']);
            lemma_cmd_key(d[i].0, 'x', p);
        }
    } else if i == 9 {
        assert(binding_from_ascii(d[i].0, p) == Some(e[i].0)) by {
            reveal_strlit("cmd+a");
            assert(d[i].0 =~= seq!['c', 'm', 'd', '+', 'a']);
            lemma_cmd_key(d[i].0, 'a', p);
        }
    } else if i == 10 {
        assert(binding_from_ascii(d[i].0, p) == Some(e[i].0)) by {
            reveal_strlit("cmd+f");
            assert(d[i].0 =~= seq!['c', 'm', 'd', '+', 'f']);
            lemma_cmd_key(d[i].0, 'f', p);
        }
    } else if i == 11 {
        assert(binding_from_ascii(d[i].0, p) == Some(e[i].0)) by {
            reveal_strlit("cmd+h");
            assert(d[i].0 =~= seq!['c', 'm', 'd', '+', 'h']);
            lemma_cmd_key(d[i].0, 'h', p);
        }
    } else if i == 12 {
        assert(binding_from_ascii(d[i].0, p) == Some(e[i].0)) by {
            reveal_strlit("cmd+d");
            assert(d[i].0 =~= seq!['c', 'm', 'd', '+', 'd']);
            lemma_cmd_key(d[i].0, 'd', p);
        }
    } else if i == 13 {
        assert(binding_from_ascii(d[i].0, p) == Some(e[i].0)) by {
            reveal_strlit("cmd+b");
            assert(d[i].0 =~= seq!['c', 'm', 'd', '+', 'b']);
            lemma_cmd_key(d[i].0, 'b', p);
        }
    } else if i == 14 {
        assert(binding_from_ascii(d[i].0, p) == Some(e[i].0)) by {
            reveal_strlit("cmd+`");
            assert(d[i].0 =~= seq!['c', 'm', 'd', '+', '`']);
            lemma_cmd_key(d[i].0, '`', p);
        }
    } else if i == 15 {
        assert(binding_from_ascii(d[i].0, p) == Some(e[i].0)) by {
            reveal_strlit("cmd+shift+p");
            assert(d[i].0 =~= seq!['c', 'm', 'd', '+', 's', 'h', 'i', 'f', 't', '+', 'p']);
            lemma_cmd_shift_key(d[i].0, 'p', p);
        }
    } else if i == 16 {
        assert(binding_from_ascii(d[i].0, p) == Some(e[i].0)) by {
            reveal_strlit("cmd+p");
            assert(d[i].0 =~= seq!['c', 'm', 'd', '+', 'p']);
            lemma_cmd_key(d[i].0, 'p', p);
        }
    } else if i == 17 {
        assert(binding_from_ascii(d[i].0, p) == Some(e[i].0)) by {
            reveal_strlit("ctrl+g");
            assert(d[i].0 =~= seq!['c', 't', 'r', 'l', '+', 'g']);
            lemma_ctrl_key(d[i].0, 'g', p);
        }
    } else if i == 18 {
        assert(binding_from_ascii(d[i].0, p) == Some(e[i].0)) by {
            reveal_strlit("cmd+shift+=");
            assert(d[i].0 =~= seq!['c', 'm', 'd', '+', 's', 'h', 'i', 'f', 't', '+', '=']);
            lemma_cmd_shift_key(d[i].0, '=', p);
        }
    } else if i == 19 {
        assert(binding_from_ascii(d[i].0, p) == Some(e[i].0)) by {
            reveal_strlit("cmd+-");
            assert(d[i].0 =~= seq!['c', 'm', 'd', '+', '-']);
            lemma_cmd_key(d[i].0, '-', p);
        }
    } else if i == 20 {
        assert(binding_from_ascii(d[i].0, p) == Some(e[i].0)) by {
            reveal_strlit("cmd+shift+/");
            assert(d[i].0 =~= seq!['c', 'm', 'd', '+', 's', 'h', 'i', 'f', 't', '+', '/']);
            lemma_cmd_shift_key(d[i].0, '/', p);
        }
    }
}

/// Law: the default bindings, read on any platform, bind cmd+s to saving,
/// cmd+shift+p to the command palette and cmd+f to find ("cmd" being the
/// Command key on macOS and Control elsewhere), and hold 21 distinct bindings.
pub proof fn law_default_bindings(p: Platform)
    ensures
        ascii_defaults_map(default_binding_texts(), p) == entries_map(default_pairs(p)),
        keys_distinct(default_pairs(p)),
        ascii_defaults_map(default_binding_texts(), p).len() == 21,
        ascii_defaults_map(default_binding_texts(), p).dom().finite(),
        ascii_defaults_map(default_binding_texts(), p)[char_binding(cmd_bits(p), 's')]
            == Action::FileSave,
        ascii_defaults_map(default_binding_texts(), p)[char_binding(cmd_shift_bits(p), 'p')]
            == Action::OpenCommandPalette,
        ascii_defaults_map(default_binding_texts(), p)[char_binding(cmd_bits(p), 'f')]
            == Action::Find,
{
    let d = default_binding_texts();
    let e = default_pairs(p);
    assert forall|i: int| 0 <= i < d.len() implies binding_from_ascii(#[trigger] d[i].0, p) == Some(
        e[i].0,
    ) && d[i].1 == e[i].1 by {
        lemma_default_entry(p, i);
    }
    lemma_ascii_defaults_entries(d, e, p);
    assert(keys_distinct(e));
    law_entries_len(e);
    lemma_entries_map_facts(e);
    assert(e[0].0 == char_binding(cmd_bits(p), 's'));
    assert(e[15].0 == char_binding(cmd_shift_bits(p), 'p'));
    assert(e[10].0 == char_binding(cmd_bits(p), 'f'));
}

} // verus!
