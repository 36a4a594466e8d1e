//! What a key press does: refresh, type-to-search, editing the search,
//! moving the cursor, and the clipboard shortcuts.
use vstd::prelude::*;

use crate::text::{chars_of, string_from_chars};

verus! {

/// A key as the window reports it.
#[derive(Clone, Debug)]
pub enum KeyInput {
    F5,
    Backspace,
    Escape,
    Delete,
    ArrowUp,
    ArrowDown,
    ArrowLeft,
    Enter,
    /// A key that types text.
    Character(String),
    /// Any other key.
    Other,
}

/// The part of the window state that key presses read and change.
#[derive(Clone, Debug)]
pub struct KeyState {
    /// The search bar is open.
    pub search_visible: bool,
    /// A dialog is open (or the window is a save dialog).
    pub modal_active: bool,
    /// What has been typed to search.
    pub type_buffer: String,
    /// The text in the search bar.
    pub search_query: String,
}

/// What the window does in answer to a key.
#[derive(Clone, Debug, PartialEq)]
pub enum KeyAction {
    Nothing,
    /// Reload the directory (and forget the thumbnails).
    Refresh,
    /// Search for this text.
    Search(String),
    CloseSearch,
    Trash,
    MoveCursor(isize),
    ActivateCursor,
    NavigateUp,
    Copy,
    Cut,
    Paste,
    SelectAll,
}

/// The spec form of a key.
pub enum SpecKey {
    F5,
    Backspace,
    Escape,
    Delete,
    ArrowUp,
    ArrowDown,
    ArrowLeft,
    Enter,
    Character(Seq<char>),
    Other,
}

/// The spec form of an action.
pub enum SpecAction {
    Nothing,
    Refresh,
    Search(Seq<char>),
    CloseSearch,
    Trash,
    MoveCursor(int),
    ActivateCursor,
    NavigateUp,
    Copy,
    Cut,
    Paste,
    SelectAll,
}

impl KeyInput {
    pub open spec fn spec_key(&self) -> SpecKey {
        match self {
            KeyInput::F5 => SpecKey::F5,
            KeyInput::Backspace => SpecKey::Backspace,
            KeyInput::Escape => SpecKey::Escape,
            KeyInput::Delete => SpecKey::Delete,
            KeyInput::ArrowUp => SpecKey::ArrowUp,
            KeyInput::ArrowDown => SpecKey::ArrowDown,
            KeyInput::ArrowLeft => SpecKey::ArrowLeft,
            KeyInput::Enter => SpecKey::Enter,
            KeyInput::Character(s) => SpecKey::Character(s@),
            KeyInput::Other => SpecKey::Other,
        }
    }
}

impl KeyAction {
    pub open spec fn spec_action(&self) -> SpecAction {
        match self {
            KeyAction::Nothing => SpecAction::Nothing,
            KeyAction::Refresh => SpecAction::Refresh,
            KeyAction::Search(s) => SpecAction::Search(s@),
            KeyAction::CloseSearch => SpecAction::CloseSearch,
            KeyAction::Trash => SpecAction::Trash,
            KeyAction::MoveCursor(d) => SpecAction::MoveCursor(*d as int),
            KeyAction::ActivateCursor => SpecAction::ActivateCursor,
            KeyAction::NavigateUp => SpecAction::NavigateUp,
            KeyAction::Copy => SpecAction::Copy,
            KeyAction::Cut => SpecAction::Cut,
            KeyAction::Paste => SpecAction::Paste,
            KeyAction::SelectAll => SpecAction::SelectAll,
        }
    }
}

/// The key state as text: (search bar open, dialog open, typed text,
/// search text).
pub type KeyView = (bool, bool, Seq<char>, Seq<char>);

impl KeyState {
    pub open spec fn view(&self) -> KeyView {
        (self.search_visible, self.modal_active, self.type_buffer@, self.search_query@)
    }
}

/// `s` is one of the two spellings `a` and `b`.
pub open spec fn is_either(s: Seq<char>, a: Seq<char>, b: Seq<char>) -> bool {
    s == a || s == b
}

/// The clipboard shortcut that Ctrl with the typed text `c` means.
pub open spec fn shortcut(c: Seq<char>) -> SpecAction {
    if is_either(c, "c"@, "C"@) {
        SpecAction::Copy
    } else if is_either(c, "x"@, "X"@) {
        SpecAction::Cut
    } else if is_either(c, "v"@, "V"@) {
        SpecAction::Paste
    } else if is_either(c, "a"@, "A"@) {
        SpecAction::SelectAll
    } else {
        SpecAction::Nothing
    }
}

/// What a key does, and the key state after it, in this order:
/// F5 refreshes. In an open search bar (no dialog open), Backspace deletes
/// the last searched character and Escape closes the search. Typed text
/// without Ctrl or Alt (no dialog open) extends the typed text (started
/// afresh when the last key was typed too long ago: `expired`) and searches
/// for it. With no dialog and no search bar open: Delete trashes, the
/// arrows move the cursor, Enter opens, Backspace goes up, and Ctrl with
/// c, x, v or a copies, cuts, pastes or selects all. Alt with Up or Left
/// goes up. Any other key does nothing.
pub open spec fn key_step(s: KeyView, key: SpecKey, ctrl: bool, alt: bool, expired: bool) -> (KeyView, SpecAction) {
    let (search, modal, typed, query) = s;
    if key is F5 {
        (s, SpecAction::Refresh)
    } else if search && !modal && key is Backspace {
        let q = if query.len() > 0 { query.drop_last() } else { query };
        ((search, modal, q, q), SpecAction::Search(q))
    } else if search && !modal && key is Escape {
        (s, SpecAction::CloseSearch)
    } else if key is Character && !ctrl && !alt && !modal {
        let t = (if expired { Seq::empty() } else { typed }) + key->Character_0;
        ((true, modal, t, query), SpecAction::Search(t))
    } else if !modal && !search && key is Delete {
        (s, SpecAction::Trash)
    } else if !modal && !search && key is ArrowUp {
        (s, SpecAction::MoveCursor(-1))
    } else if !modal && !search && key is ArrowDown {
        (s, SpecAction::MoveCursor(1))
    } else if !modal && !search && key is Enter {
        (s, SpecAction::ActivateCursor)
    } else if !modal && !search && key is Backspace {
        (s, SpecAction::NavigateUp)
    } else if !modal && !search && ctrl && key is Character && !(shortcut(key->Character_0) is Nothing) {
        (s, shortcut(key->Character_0))
    } else if alt && (key is ArrowUp || key is ArrowLeft) {
        (s, SpecAction::NavigateUp)
    } else {
        (s, SpecAction::Nothing)
    }
}

fn text_is(s: &str, t: &str) -> (b: bool)
    ensures
        b == (s@ == t@),
{
    crate::text::str_equals(s, t)
}

fn shortcut_of(c: &str) -> (a: KeyAction)
    ensures
        a.spec_action() == shortcut(c@),
{
    if text_is(c, "c") || text_is(c, "C") {
        KeyAction::Copy
    } else if text_is(c, "x") || text_is(c, "X") {
        KeyAction::Cut
    } else if text_is(c, "v") || text_is(c, "V") {
        KeyAction::Paste
    } else if text_is(c, "a") || text_is(c, "A") {
        KeyAction::SelectAll
    } else {
        KeyAction::Nothing
    }
}

/// `s` without its last character, if it has one (`String::pop`).
fn without_last(s: &String) -> (r: String)
    ensures
        r@ == (if s@.len() > 0 {
            s@.drop_last()
        } else {
            s@
        }),
{
    let v = chars_of(s.as_str());
    if v.len() == 0 {
        return s.clone();
    }
    let mut w: Vec<char> = Vec::new();
    let n = v.len() - 1;
    for i in 0..n
        invariant
            n + 1 == v@.len(),
            w@ == v@.take(i as int),
    {
        w.push(v[i]);
        assert(v@.take(i + 1) =~= v@.take(i as int).push(v@[i as int]));
    }
    assert(v@.take(n as int) =~= v@.drop_last());
    string_from_chars(&w)
}

impl KeyState {
    /// Answers a key press with Ctrl and Alt as given; `expired` says that
    /// the previous typed key came too long ago to continue the typed text.
    /// Changes the state and returns the action, as [`key_step`] states.
    pub fn press_key(&mut self, key: &KeyInput, ctrl: bool, alt: bool, expired: bool) -> (a: KeyAction)
        ensures
            (final(self).view(), a.spec_action()) == key_step(old(self).view(), key.spec_key(), ctrl, alt, expired),
    {
        let search = self.search_visible;
        let modal = self.modal_active;
        match key {
            KeyInput::F5 => {
                return KeyAction::Refresh;
            },
            _ => {},
        }
        if search && !modal {
            match key {
                KeyInput::Backspace => {
                    let q = without_last(&self.search_query);
                    self.search_query = q.clone();
                    self.type_buffer = q.clone();
                    return KeyAction::Search(q);
                },
                KeyInput::Escape => {
                    return KeyAction::CloseSearch;
                },
                _ => {},
            }
        }
        match key {
            KeyInput::Character(c) => {
                if !ctrl && !alt && !modal {
                    if expired {
                        self.type_buffer = String::new();
                    }
                    let t = self.type_buffer.clone().concat(c.as_str());
                    self.type_buffer = t.clone();
                    self.search_visible = true;
                    return KeyAction::Search(t);
                }
            },
            _ => {},
        }
        if !modal && !search {
            match key {
                KeyInput::Delete => {
                    return KeyAction::Trash;
                },
                KeyInput::ArrowUp => {
                    return KeyAction::MoveCursor(-1);
                },
                KeyInput::ArrowDown => {
                    return KeyAction::MoveCursor(1);
                },
                KeyInput::Enter => {
                    return KeyAction::ActivateCursor;
                },
                KeyInput::Backspace => {
                    return KeyAction::NavigateUp;
                },
                KeyInput::Character(c) => {
                    if ctrl {
                        let a = shortcut_of(c.as_str());
                        match a {
                            KeyAction::Nothing => {},
                            _ => {
                                return a;
                            },
                        }
                    }
                },
                _ => {},
            }
        }
        if alt {
            match key {
                KeyInput::ArrowUp | KeyInput::ArrowLeft => {
                    return KeyAction::NavigateUp;
                },
                _ => {},
            }
        }
        KeyAction::Nothing
    }
}

/// Numbers the edits of a field that is acted on only once it stays still
/// (the search text, the path bar, file system events): only the answer to
/// the latest edit counts.
pub struct Debouncer {
    pub version: u64,
}

impl Debouncer {
    pub fn new() -> (d: Self)
        ensures
            d.version == 0,
    {
        Debouncer { version: 0 }
    }

    /// Records an edit; returns the number to come back with.
    pub fn bump(&mut self) -> (v: u64)
        requires
            old(self).version < u64::MAX,
        ensures
            final(self).version == old(self).version + 1,
            v == final(self).version,
    {
        self.version = self.version + 1;
        self.version
    }

    /// Whether the edit numbered `v` is still the latest.
    pub fn is_current(&self, v: u64) -> (b: bool)
        ensures
            b == (v == self.version),
    {
        v == self.version
    }
}


/// With no dialog and no search bar open, Ctrl with c, x, v or a, in
/// either case, copies, cuts, pastes or selects all, and leaves the key
/// state as it was.
pub proof fn lemma_clipboard_shortcuts(typed: Seq<char>, query: Seq<char>, c: Seq<char>, expired: bool)
    ensures
        ({
            let s: KeyView = (false, false, typed, query);
            let r = key_step(s, SpecKey::Character(c), true, false, expired);
            &&& (c == "c"@ || c == "C"@) ==> r == (s, SpecAction::Copy)
            &&& (c == "x"@ || c == "X"@) ==> r == (s, SpecAction::Cut)
            &&& (c == "v"@ || c == "V"@) ==> r == (s, SpecAction::Paste)
            &&& (c == "a"@ || c == "A"@) ==> r == (s, SpecAction::SelectAll)
        }),
{
    reveal_strlit("c");
    reveal_strlit("C");
    reveal_strlit("x");
    reveal_strlit("X");
    reveal_strlit("v");
    reveal_strlit("V");
    reveal_strlit("a");
    reveal_strlit("A");
    let s: KeyView = (false, false, typed, query);
    if c == "x"@ || c == "X"@ {
        assert(!is_either(c, "c"@, "C"@)) by {
            assert(c[0] != 'c' && c[0] != 'C');
        }
        assert(shortcut(c) == SpecAction::Cut);
    }
    if c == "v"@ || c == "V"@ {
        assert(!is_either(c, "c"@, "C"@)) by {
            assert(c[0] != 'c' && c[0] != 'C');
        }
        assert(!is_either(c, "x"@, "X"@)) by {
            assert(c[0] != 'x' && c[0] != 'X');
        }
        assert(shortcut(c) == SpecAction::Paste);
    }
    if c == "a"@ || c == "A"@ {
        assert(!is_either(c, "c"@, "C"@)) by {
            assert(c[0] != 'c' && c[0] != 'C');
        }
        assert(!is_either(c, "x"@, "X"@)) by {
            assert(c[0] != 'x' && c[0] != 'X');
        }
        assert(!is_either(c, "v"@, "V"@)) by {
            assert(c[0] != 'v' && c[0] != 'V');
        }
        assert(shortcut(c) == SpecAction::SelectAll);
    }
}

} // verus!
