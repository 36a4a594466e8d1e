//! The context menu: which entries it offers for a file or for the empty
//! space of the listing, inside the trash and elsewhere.
use vstd::prelude::*;

use crate::actions::last_pos;
use crate::actions::format_ext;
use crate::paths::{file_name, file_name_of, joined, lemma_join_parent, normal_seg};
use crate::text::{chars_of, eq_ascii_ci, equals_ci};
use crate::types::ContextTarget;

verus! {

/// The extension of the file `p` names (`Path::extension`): what follows
/// the last dot of its file name, when that dot does not lead the name.
pub open spec fn extension(p: Seq<char>) -> Option<Seq<char>> {
    match file_name(p) {
        None => None,
        Some(n) => match last_pos(n, '.') {
            None => None,
            Some(k) => if k == 0 {
                None
            } else {
                Some(n.skip(k + 1))
            },
        },
    }
}

/// An extension of an archive that can be extracted, ignoring case (the
/// listed extensions are ASCII, and no other character lower-cases to one
/// of their letters).
pub open spec fn archive_ext(e: Seq<char>) -> bool {
    ||| eq_ascii_ci(e, "zip"@)
    ||| eq_ascii_ci(e, "tar"@)
    ||| eq_ascii_ci(e, "gz"@)
    ||| eq_ascii_ci(e, "tgz"@)
    ||| eq_ascii_ci(e, "7z"@)
    ||| eq_ascii_ci(e, "zst"@)
    ||| eq_ascii_ci(e, "bz3"@)
}

/// The file `p` is offered for extraction.
pub open spec fn is_archive(p: Seq<char>) -> bool {
    extension(p) matches Some(e) && archive_ext(e)
}

/// The last dot of `v`, as [`last_pos`] finds it.
fn last_dot(v: &[char]) -> (r: Option<usize>)
    ensures
        r is None <==> last_pos(v@, '.') is None,
        r matches Some(k) ==> last_pos(v@, '.') == Some(k as int) && k < v@.len(),
{
    let mut j = v.len();
    assert(v@.take(j as int) =~= v@);
    while j > 0
        invariant
            j <= v@.len(),
            last_pos(v@, '.') == last_pos(v@.take(j as int), '.'),
        decreases j,
    {
        let ghost t = v@.take(j as int);
        assert(t.last() == v@[j - 1]);
        assert(t.drop_last() =~= v@.take(j - 1));
        if v[j - 1] == '.' {
            return Some(j - 1);
        }
        j = j - 1;
    }
    None
}

/// Whether the file `p` is offered for extraction, as [`is_archive`]
/// states.
pub fn is_archive_path(p: &str) -> (b: bool)
    ensures
        b == is_archive(p@),
{
    let name = match file_name_of(p) {
        Some(n) => n,
        None => return false,
    };
    let v = chars_of(name.as_str());
    let k = match last_dot(&v) {
        Some(k) => k,
        None => return false,
    };
    if k == 0 {
        return false;
    }
    let mut e: Vec<char> = Vec::new();
    let n = v.len();
    for i in k + 1..n
        invariant
            k + 1 <= n,
            n == v@.len(),
            e@ == v@.subrange(k + 1, i as int),
    {
        e.push(v[i]);
        assert(v@.subrange(k + 1, i + 1) =~= v@.subrange(k + 1, i as int).push(v@[i as int]));
    }
    assert(e@ =~= v@.skip(k + 1));
    let zip = chars_of("zip");
    let tar = chars_of("tar");
    let gz = chars_of("gz");
    let tgz = chars_of("tgz");
    let z7 = chars_of("7z");
    let zst = chars_of("zst");
    let bz3 = chars_of("bz3");
    equals_ci(&e, &zip) || equals_ci(&e, &tar) || equals_ci(&e, &gz) || equals_ci(&e, &tgz)
        || equals_ci(&e, &z7) || equals_ci(&e, &zst) || equals_ci(&e, &bz3)
}

/// An entry of the context menu.
#[derive(Clone, Copy, Debug, PartialEq, Eq, Structural)]
pub enum MenuItem {
    Restore,
    PermanentlyDelete,
    Properties,
    Open,
    OpenWith,
    Rename,
    Copy,
    Cut,
    ExtractHere,
    Compress,
    MoveToTrash,
    Shred,
    NewFolder,
    NewDocument,
    BatchRename,
    Paste,
    SelectAll,
    OpenInTerminal,
    OpenNewWindow,
    Separator,
}

/// The context menu of `target`, top to bottom. Inside the trash a file
/// can only be restored, deleted for good, or inspected, and the empty
/// space offers nothing that would create files there.
pub open spec fn menu_for(target: ContextTarget, in_trash: bool) -> Seq<MenuItem> {
    match target {
        ContextTarget::File(p, _) => if in_trash {
            seq![
                MenuItem::Restore,
                MenuItem::Separator,
                MenuItem::PermanentlyDelete,
                MenuItem::Separator,
                MenuItem::Properties,
            ]
        } else {
            seq![
                MenuItem::Open,
                MenuItem::OpenWith,
                MenuItem::Separator,
                MenuItem::Rename,
                MenuItem::Copy,
                MenuItem::Cut,
            ] + (if is_archive(p@) {
                seq![MenuItem::ExtractHere]
            } else {
                Seq::empty()
            }) + seq![
                MenuItem::Compress,
                MenuItem::Separator,
                MenuItem::MoveToTrash,
                MenuItem::Shred,
                MenuItem::Separator,
                MenuItem::Properties,
            ]
        },
        ContextTarget::EmptySpace => (if in_trash {
            Seq::empty()
        } else {
            seq![
                MenuItem::NewFolder,
                MenuItem::NewDocument,
                MenuItem::Separator,
                MenuItem::BatchRename,
                MenuItem::Paste,
            ]
        }) + seq![
            MenuItem::SelectAll,
            MenuItem::Separator,
            MenuItem::OpenInTerminal,
            MenuItem::OpenNewWindow,
        ],
    }
}

/// The context menu of `target`, as [`menu_for`] states.
pub fn context_menu(target: &ContextTarget, in_trash: bool) -> (items: Vec<MenuItem>)
    ensures
        items@ == menu_for(*target, in_trash),
{
    match target {
        ContextTarget::File(p, _) => {
            if in_trash {
                let items = vec![
                    MenuItem::Restore,
                    MenuItem::Separator,
                    MenuItem::PermanentlyDelete,
                    MenuItem::Separator,
                    MenuItem::Properties,
                ];
                assert(items@ =~= menu_for(*target, in_trash));
                items
            } else {
                let mut items = vec![
                    MenuItem::Open,
                    MenuItem::OpenWith,
                    MenuItem::Separator,
                    MenuItem::Rename,
                    MenuItem::Copy,
                    MenuItem::Cut,
                ];
                if is_archive_path(p.as_str()) {
                    items.push(MenuItem::ExtractHere);
                }
                items.push(MenuItem::Compress);
                items.push(MenuItem::Separator);
                items.push(MenuItem::MoveToTrash);
                items.push(MenuItem::Shred);
                items.push(MenuItem::Separator);
                items.push(MenuItem::Properties);
                assert(items@ =~= menu_for(*target, in_trash));
                items
            }
        },
        ContextTarget::EmptySpace => {
            let mut items: Vec<MenuItem> = Vec::new();
            if !in_trash {
                items.push(MenuItem::NewFolder);
                items.push(MenuItem::NewDocument);
                items.push(MenuItem::Separator);
                items.push(MenuItem::BatchRename);
                items.push(MenuItem::Paste);
            }
            items.push(MenuItem::SelectAll);
            items.push(MenuItem::Separator);
            items.push(MenuItem::OpenInTerminal);
            items.push(MenuItem::OpenNewWindow);
            assert(items@ =~= menu_for(*target, in_trash));
            items
        },
    }
}


/// The last dot of `pre + "." + t`, when `t` has no dot, is the one
/// before `t`.
proof fn lemma_last_dot(pre: Seq<char>, t: Seq<char>)
    requires
        !t.contains('.'),
    ensures
        last_pos(pre + seq!['.'] + t, '.') == Some(pre.len() as int),
    decreases t.len(),
{
    let n = pre + seq!['.'] + t;
    if t.len() == 0 {
        assert(n =~= pre.push('.'));
        assert(n.last() == '.');
    } else {
        assert(t[t.len() - 1] != '.') by {
            if t[t.len() - 1] == '.' {
                assert(t.contains('.'));
            }
        }
        assert(!t.drop_last().contains('.')) by {
            if t.drop_last().contains('.') {
                let k = choose|k: int| 0 <= k < t.drop_last().len() && t.drop_last()[k] == '.';
                assert(t[k] == '.');
            }
        }
        lemma_last_dot(pre, t.drop_last());
        assert(n.drop_last() =~= pre + seq!['.'] + t.drop_last());
        assert(n.last() == t[t.len() - 1]);
    }
}

/// Every archive the compression wizard writes is offered for
/// extraction: a file named by any non-empty stem followed by the
/// extension of one of the wizard's formats, in any directory, is an
/// archive; and each extension of a format the file manager reads
/// (zip, tar, gz, tgz, 7z, zst, bz3, in any case) makes one.
pub proof fn lemma_written_archives_extract(dir: Seq<char>, name_stem: Seq<char>, f: Seq<char>, e: Seq<char>)
    requires
        f == "7z"@ || f == "zip"@ || f == "tar.bz3"@ || f == "tar.zst"@ || f == "tar.gz"@,
        name_stem.len() > 0,
        normal_seg(name_stem + format_ext(f)),
    ensures
        is_archive(joined(dir, name_stem + format_ext(f))),
        eq_ascii_ci(e, "zip"@) || eq_ascii_ci(e, "tar"@) || eq_ascii_ci(e, "gz"@) || eq_ascii_ci(
            e,
            "tgz"@,
        ) || eq_ascii_ci(e, "7z"@) || eq_ascii_ci(e, "zst"@) || eq_ascii_ci(e, "bz3"@)
            ==> archive_ext(e),
{
    reveal_strlit("7z");
    reveal_strlit("zip");
    reveal_strlit("tar.bz3");
    reveal_strlit("tar.zst");
    reveal_strlit("tar.gz");
    reveal_strlit(".7z");
    reveal_strlit(".zip");
    reveal_strlit(".tar.bz3");
    reveal_strlit(".tar.zst");
    reveal_strlit(".tar.gz");
    reveal_strlit("bz3");
    reveal_strlit("zst");
    reveal_strlit("gz");
    reveal_strlit("tar");
    let n = name_stem + format_ext(f);
    lemma_join_parent(dir, n);
    let (pre, t) = if f == "7z"@ {
        assert(f.len() != "tar.gz"@.len() && f.len() != "tar.zst"@.len() && f.len()
            != "tar.bz3"@.len());
        (name_stem, "7z"@)
    } else if f == "zip"@ {
        assert(f.len() != "tar.gz"@.len() && f.len() != "tar.zst"@.len() && f.len()
            != "tar.bz3"@.len() && f.len() != "7z"@.len());
        (name_stem, "zip"@)
    } else if f == "tar.bz3"@ {
        assert(f.len() != "tar.gz"@.len());
        assert(f[4] != "tar.zst"@[4]);
        (name_stem + seq!['.', 't', 'a', 'r'], "bz3"@)
    } else if f == "tar.zst"@ {
        assert(f.len() != "tar.gz"@.len());
        (name_stem + seq!['.', 't', 'a', 'r'], "zst"@)
    } else {
        (name_stem + seq!['.', 't', 'a', 'r'], "gz"@)
    };
    assert(n =~= pre + seq!['.'] + t);
    assert(!t.contains('.')) by {
        if t.contains('.') {
            let k = choose|k: int| 0 <= k < t.len() && t[k] == '.';
        }
    }
    lemma_last_dot(pre, t);
    assert(n.skip(pre.len() as int + 1) =~= t);
    assert(eq_ascii_ci(t, t));
}

} // verus!
