//! Directory navigation: the current directory and the back and forward
//! histories.
use vstd::prelude::*;

use crate::paths::{components, parent_of, parent_is, paths_equal, render, same_path, SpecComp};

verus! {

/// The text of each string in `v`.
pub open spec fn texts(v: Seq<String>) -> Seq<Seq<char>> {
    v.map_values(|s: String| s@)
}

/// The navigation state as text: (current directory, back stack, forward
/// stack); the top of each stack is its last element.
pub type HistoryView = (Seq<char>, Seq<Seq<char>>, Seq<Seq<char>>);

/// Going to `path` on the user's request: a different directory (as a path,
/// not as text) pushes the current one on the back stack and forgets the
/// forward stack; the current directory becomes `path` either way.
pub open spec fn visit(h: HistoryView, path: Seq<char>) -> HistoryView {
    if !same_path(h.0, path) {
        (path, h.1.push(h.0), Seq::empty())
    } else {
        (path, h.1, h.2)
    }
}

/// Going back: the top of the back stack becomes current, and the current
/// directory goes on the forward stack. Nothing happens with an empty back
/// stack.
pub open spec fn step_back(h: HistoryView) -> HistoryView {
    if h.1.len() == 0 {
        h
    } else {
        (h.1.last(), h.1.drop_last(), h.2.push(h.0))
    }
}

/// Going forward, the mirror image of [`step_back`].
pub open spec fn step_forward(h: HistoryView) -> HistoryView {
    if h.2.len() == 0 {
        h
    } else {
        (h.2.last(), h.1.push(h.0), h.2.drop_last())
    }
}

/// Where the file manager is and where it has been.
pub struct History {
    pub current_dir: String,
    pub history_back: Vec<String>,
    pub history_forward: Vec<String>,
}

impl History {
    pub open spec fn view(&self) -> HistoryView {
        (self.current_dir@, texts(self.history_back@), texts(self.history_forward@))
    }

    /// A history that starts at `start` with nothing behind or ahead.
    pub fn new(start: String) -> (h: Self)
        ensures
            h.view() == (start@, Seq::<Seq<char>>::empty(), Seq::<Seq<char>>::empty()),
    {
        let h = History { current_dir: start, history_back: Vec::new(), history_forward: Vec::new() };
        assert(texts(h.history_back@) =~= Seq::<Seq<char>>::empty());
        assert(texts(h.history_forward@) =~= Seq::<Seq<char>>::empty());
        h
    }

    /// Goes to `path` at the user's request, as [`visit`] states.
    pub fn go_to(&mut self, path: String)
        ensures
            final(self).view() == visit(old(self).view(), path@),
    {
        if !paths_equal(self.current_dir.as_str(), path.as_str()) {
            let cur = self.current_dir.clone();
            let ghost b = self.history_back@;
            self.history_back.push(cur);
            assert(texts(self.history_back@) =~= texts(b).push(old(self).current_dir@));
            self.history_forward = Vec::new();
            assert(texts(self.history_forward@) =~= Seq::<Seq<char>>::empty());
        }
        self.current_dir = path;
    }

    /// Goes back one step, as [`step_back`] states; returns whether it moved.
    pub fn go_back(&mut self) -> (moved: bool)
        ensures
            final(self).view() == step_back(old(self).view()),
            moved == (old(self).history_back@.len() > 0),
    {
        let ghost b = self.history_back@;
        let ghost f = self.history_forward@;
        match self.history_back.pop() {
            None => false,
            Some(prev) => {
                assert(texts(self.history_back@) =~= texts(b).drop_last());
                let cur = self.current_dir.clone();
                self.history_forward.push(cur);
                assert(texts(self.history_forward@) =~= texts(f).push(old(self).current_dir@));
                self.current_dir = prev;
                true
            },
        }
    }

    /// Goes forward one step, as [`step_forward`] states; returns whether it
    /// moved.
    pub fn go_forward(&mut self) -> (moved: bool)
        ensures
            final(self).view() == step_forward(old(self).view()),
            moved == (old(self).history_forward@.len() > 0),
    {
        let ghost b = self.history_back@;
        let ghost f = self.history_forward@;
        match self.history_forward.pop() {
            None => false,
            Some(next) => {
                assert(texts(self.history_forward@) =~= texts(f).drop_last());
                let cur = self.current_dir.clone();
                self.history_back.push(cur);
                assert(texts(self.history_back@) =~= texts(b).push(old(self).current_dir@));
                self.current_dir = next;
                true
            },
        }
    }
}

/// Going back and then forward again returns to exactly where one was.
pub proof fn lemma_back_then_forward(h: HistoryView)
    requires
        h.1.len() > 0,
    ensures
        step_forward(step_back(h)) == h,
{
    assert(h.1.drop_last().push(h.1.last()) =~= h.1);
    assert(h.2.push(h.0).drop_last() =~= h.2);
}

/// Going forward and then back again returns to exactly where one was.
pub proof fn lemma_forward_then_back(h: HistoryView)
    requires
        h.2.len() > 0,
    ensures
        step_back(step_forward(h)) == h,
{
    assert(h.2.drop_last().push(h.2.last()) =~= h.2);
    assert(h.1.push(h.0).drop_last() =~= h.1);
}

/// After going to a different directory, going back returns to the
/// directory one came from, with the new one as the only step forward.
pub proof fn lemma_visit_then_back(h: HistoryView, path: Seq<char>)
    requires
        !same_path(h.0, path),
    ensures
        step_back(visit(h, path)) == (h.0, h.1, seq![path]),
{
    assert(h.1.push(h.0).drop_last() =~= h.1);
    assert(Seq::<Seq<char>>::empty().push(path) =~= seq![path]);
}

/// Going to the directory one is in leaves both histories as they are.
pub proof fn lemma_visit_same(h: HistoryView, path: Seq<char>)
    requires
        same_path(h.0, path),
    ensures
        visit(h, path).1 == h.1,
        visit(h, path).2 == h.2,
{
}

/// The directory that going up leads to from `dir`: its parent, written
/// with single separators; `dir` itself when it has none (the root, or an
/// empty path).
pub open spec fn up_from(dir: Seq<char>) -> Seq<char> {
    let cs = components(dir);
    if cs.len() > 0 && !(cs.last() is Root) {
        render(cs.drop_last())
    } else {
        dir
    }
}

/// Executable [`up_from`]; the result is `dir`'s parent whenever `dir`
/// has one.
pub fn up_dir(dir: &str) -> (r: String)
    ensures
        r@ == up_from(dir@),
        (components(dir@).len() > 0 && !(components(dir@).last() is Root)) ==> parent_is(dir@, r@),
{
    match parent_of(dir) {
        Some(d) => d,
        None => String::from_str(dir),
    }
}

impl History {
    /// Goes up to the parent of the current directory, as a visit at the
    /// user's request (nothing changes at the root).
    pub fn go_up(&mut self)
        ensures
            final(self).view() == visit(old(self).view(), up_from(old(self).current_dir@)),
    {
        let up = up_dir(self.current_dir.as_str());
        self.go_to(up);
    }
}

/// Going up from the root stays at the root and leaves both histories as
/// they are.
pub proof fn lemma_up_at_root(h: HistoryView)
    requires
        components(h.0) == seq![SpecComp::Root],
    ensures
        visit(h, up_from(h.0)) == h,
{
}

} // verus!
