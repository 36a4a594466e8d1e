//! Keeping a listing up to date from file system events without reading the
//! whole directory again.
use vstd::prelude::*;

use crate::paths::{is_parent_of, parent_is, paths_equal, same_path};
use crate::types::FileEntry;

verus! {

/// What happened to the paths of an event.
#[derive(Clone, Copy, Debug, PartialEq, Eq, Structural)]
pub enum FsEventKind {
    Create,
    Remove,
    Modify,
    /// Anything else (access, or an unknown kind).
    Other,
}

/// A path of an event, with the listing row built from its metadata when
/// the metadata could be read.
pub type DeltaItem = (String, Option<FileEntry>);

pub open spec fn item_view(it: DeltaItem) -> (Seq<char>, Option<FileEntry>) {
    (it.0@, it.1)
}

pub open spec fn items_view(v: Seq<DeltaItem>) -> Seq<(Seq<char>, Option<FileEntry>)> {
    v.map_values(|it: DeltaItem| item_view(it))
}

/// The rows that created paths add: those directly inside `dir` whose
/// metadata could be read, in order.
pub open spec fn created_rows(items: Seq<(Seq<char>, Option<FileEntry>)>, dir: Seq<char>) -> Seq<FileEntry>
    decreases items.len(),
{
    if items.len() == 0 {
        Seq::empty()
    } else {
        let prev = created_rows(items.drop_last(), dir);
        let (p, m) = items.last();
        if parent_is(p, dir) && m is Some {
            prev.push(m->Some_0)
        } else {
            prev
        }
    }
}

/// `e` is one of the removed paths.
pub open spec fn is_removed(e: FileEntry, items: Seq<(Seq<char>, Option<FileEntry>)>) -> bool {
    exists|k: int| 0 <= k < items.len() && same_path(e.path@, #[trigger] items[k].0)
}

/// The rows that stay after the removal of the paths of `items`, in order.
pub open spec fn kept_rows(es: Seq<FileEntry>, items: Seq<(Seq<char>, Option<FileEntry>)>) -> Seq<FileEntry>
    decreases es.len(),
{
    if es.len() == 0 {
        Seq::empty()
    } else {
        let prev = kept_rows(es.drop_last(), items);
        if is_removed(es.last(), items) {
            prev
        } else {
            prev.push(es.last())
        }
    }
}

/// The position of the first row with path `p`.
pub open spec fn first_row(es: Seq<FileEntry>, p: Seq<char>) -> Option<int>
    decreases es.len(),
{
    if es.len() == 0 {
        None
    } else {
        match first_row(es.drop_last(), p) {
            Some(i) => Some(i),
            None => if same_path(es.last().path@, p) {
                Some(es.len() - 1)
            } else {
                None
            },
        }
    }
}

/// The rows after the modified paths of `items`, one after the other,
/// replaced their first row by the row built anew (when the metadata could
/// be read).
pub open spec fn modified_rows(es: Seq<FileEntry>, items: Seq<(Seq<char>, Option<FileEntry>)>) -> Seq<FileEntry>
    decreases items.len(),
{
    if items.len() == 0 {
        es
    } else {
        let prev = modified_rows(es, items.drop_last());
        let (p, m) = items.last();
        match first_row(prev, p) {
            Some(i) => if m is Some {
                prev.update(i, m->Some_0)
            } else {
                prev
            },
            None => prev,
        }
    }
}

/// Some modified path has a row, and a new row for it.
pub open spec fn modifies_some(es: Seq<FileEntry>, items: Seq<(Seq<char>, Option<FileEntry>)>) -> bool
    decreases items.len(),
{
    if items.len() == 0 {
        false
    } else {
        modifies_some(es, items.drop_last()) || (first_row(modified_rows(es, items.drop_last()), items.last().0) is Some
            && items.last().1 is Some)
    }
}

/// The listing after an event, and whether it changed.
pub open spec fn delta_result(
    es: Seq<FileEntry>,
    kind: FsEventKind,
    items: Seq<(Seq<char>, Option<FileEntry>)>,
    dir: Seq<char>,
) -> (Seq<FileEntry>, bool) {
    match kind {
        FsEventKind::Create => (es + created_rows(items, dir), created_rows(items, dir).len() > 0),
        FsEventKind::Remove => (kept_rows(es, items), kept_rows(es, items).len() < es.len()),
        FsEventKind::Modify => (modified_rows(es, items), modifies_some(es, items)),
        FsEventKind::Other => (es, false),
    }
}

proof fn lemma_first_row(es: Seq<FileEntry>, p: Seq<char>, i: int)
    requires
        0 <= i < es.len(),
        same_path(es[i].path@, p),
        forall|j: int| 0 <= j < i ==> !same_path(#[trigger] es[j].path@, p),
    ensures
        first_row(es, p) == Some(i),
    decreases es.len(),
{
    if i < es.len() - 1 {
        lemma_first_row(es.drop_last(), p, i);
    } else {
        lemma_no_row(es.drop_last(), p);
    }
}

proof fn lemma_no_row(es: Seq<FileEntry>, p: Seq<char>)
    requires
        forall|j: int| 0 <= j < es.len() ==> !same_path(#[trigger] es[j].path@, p),
    ensures
        first_row(es, p) is None,
    decreases es.len(),
{
    if es.len() > 0 {
        lemma_no_row(es.drop_last(), p);
    }
}

fn find_row(entries: &Vec<FileEntry>, p: &str) -> (r: Option<usize>)
    ensures
        match r {
            Some(i) => first_row(entries@, p@) == Some(i as int) && i < entries@.len(),
            None => first_row(entries@, p@) is None,
        },
{
    let n = entries.len();
    for i in 0..n
        invariant
            n == entries@.len(),
            forall|j: int| 0 <= j < i ==> !same_path(#[trigger] entries@[j].path@, p@),
    {
        if paths_equal(entries[i].path.as_str(), p) {
            proof {
                lemma_first_row(entries@, p@, i as int);
            }
            return Some(i);
        }
    }
    proof {
        lemma_no_row(entries@, p@);
    }
    None
}

fn removes(e: &FileEntry, items: &Vec<DeltaItem>) -> (b: bool)
    ensures
        b == is_removed(*e, items_view(items@)),
{
    let n = items.len();
    for k in 0..n
        invariant
            n == items@.len(),
            forall|j: int| 0 <= j < k ==> !same_path(e.path@, #[trigger] items_view(items@)[j].0),
    {
        if paths_equal(e.path.as_str(), items[k].0.as_str()) {
            assert(same_path(e.path@, items_view(items@)[k as int].0));
            return true;
        }
    }
    false
}

/// Applies a file system event to the listing of `current_dir`: created
/// paths directly inside it are appended (when their metadata could be
/// read), removed paths lose their rows, and a modified path's first row is
/// built anew. Returns whether the listing changed; as [`delta_result`]
/// states.
pub fn apply_delta(
    entries: &mut Vec<FileEntry>,
    kind: FsEventKind,
    items: Vec<DeltaItem>,
    current_dir: &str,
) -> (changed: bool)
    ensures
        (final(entries)@, changed) == delta_result(old(entries)@, kind, items_view(items@), current_dir@),
{
    let ghost iv = items_view(items@);
    match kind {
        FsEventKind::Create => {
            let mut rest = items;
            let mut taken: usize = 0;
            let ghost start = entries@;
            let mut changed = false;
            let ghost all = rest@;
            let n = rest.len();
            // Take the items from the back, then add them front to back.
            let mut rev: Vec<DeltaItem> = Vec::new();
            while rest.len() > 0
                invariant
                    rev@.len() + rest@.len() == n,
                    rest@ == all.take(rest@.len() as int),
                    forall|k: int| 0 <= k < rev@.len() ==> #[trigger] rev@[k] == all[n - 1 - k],
                    n == all.len(),
                decreases rest@.len(),
            {
                let it = rest.pop().unwrap();
                rev.push(it);
            }
            while rev.len() > 0
                invariant
                    n == all.len(),
                    rev@.len() + taken == n,
                    forall|k: int| 0 <= k < rev@.len() ==> #[trigger] rev@[k] == all[n - 1 - k],
                    entries@ == start + created_rows(items_view(all).take(taken as int), current_dir@),
                    changed == (created_rows(items_view(all).take(taken as int), current_dir@).len() > 0),
                    iv == items_view(all),
                decreases rev@.len(),
            {
                let ghost k = taken;
                let (p, m) = rev.pop().unwrap();
                assert(all[k as int] == (p, m));
                assert(items_view(all).take(k + 1).drop_last() =~= items_view(all).take(k as int));
                assert(items_view(all).take(k + 1).last() == (p@, m));
                if is_parent_of(current_dir, p.as_str()) {
                    match m {
                        Some(e) => {
                            entries.push(e);
                            changed = true;
                        },
                        None => {},
                    }
                }
                taken = taken + 1;
                assert(entries@ =~= start + created_rows(items_view(all).take(taken as int), current_dir@));
            }
            assert(items_view(all).take(n as int) =~= items_view(all));
            changed
        },
        FsEventKind::Remove => {
            let ghost start = entries@;
            let mut src: Vec<FileEntry> = Vec::new();
            std::mem::swap(entries, &mut src);
            let n = src.len();
            let mut rev: Vec<FileEntry> = Vec::new();
            while src.len() > 0
                invariant
                    rev@.len() + src@.len() == n,
                    src@ == start.take(src@.len() as int),
                    forall|k: int| 0 <= k < rev@.len() ==> #[trigger] rev@[k] == start[n - 1 - k],
                    n == start.len(),
                decreases src@.len(),
            {
                let e = src.pop().unwrap();
                rev.push(e);
            }
            let mut done: usize = 0;
            while rev.len() > 0
                invariant
                    n == start.len(),
                    rev@.len() + done == n,
                    forall|k: int| 0 <= k < rev@.len() ==> #[trigger] rev@[k] == start[n - 1 - k],
                    entries@ == kept_rows(start.take(done as int), iv),
                    iv == items_view(items@),
                decreases rev@.len(),
            {
                let ghost k = done;
                let e = rev.pop().unwrap();
                assert(start.take(k + 1).drop_last() =~= start.take(k as int));
                assert(start.take(k + 1).last() == e);
                if !removes(&e, &items) {
                    entries.push(e);
                }
                done = done + 1;
            }
            assert(start.take(n as int) =~= start);
            entries.len() < n
        },
        FsEventKind::Modify => {
            let mut rest = items;
            let ghost all = rest@;
            let n = rest.len();
            let ghost start = entries@;
            let mut rev: Vec<DeltaItem> = Vec::new();
            while rest.len() > 0
                invariant
                    rev@.len() + rest@.len() == n,
                    rest@ == all.take(rest@.len() as int),
                    forall|k: int| 0 <= k < rev@.len() ==> #[trigger] rev@[k] == all[n - 1 - k],
                    n == all.len(),
                decreases rest@.len(),
            {
                let it = rest.pop().unwrap();
                rev.push(it);
            }
            let mut taken: usize = 0;
            let mut changed = false;
            while rev.len() > 0
                invariant
                    n == all.len(),
                    rev@.len() + taken == n,
                    forall|k: int| 0 <= k < rev@.len() ==> #[trigger] rev@[k] == all[n - 1 - k],
                    entries@ == modified_rows(start, items_view(all).take(taken as int)),
                    changed == modifies_some(start, items_view(all).take(taken as int)),
                    iv == items_view(all),
                decreases rev@.len(),
            {
                let ghost k = taken;
                let (p, m) = rev.pop().unwrap();
                assert(all[k as int] == (p, m));
                assert(items_view(all).take(k + 1).drop_last() =~= items_view(all).take(k as int));
                assert(items_view(all).take(k + 1).last() == (p@, m));
                match find_row(entries, p.as_str()) {
                    Some(i) => match m {
                        Some(e) => {
                            entries.set(i, e);
                            changed = true;
                        },
                        None => {},
                    },
                    None => {},
                }
                taken = taken + 1;
            }
            assert(items_view(all).take(n as int) =~= items_view(all));
            changed
        },
        FsEventKind::Other => false,
    }
}

} // verus!
