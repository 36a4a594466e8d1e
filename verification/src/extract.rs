//! What extraction does with each archive entry, where it writes it, and
//! how a failed extraction is undone. Nothing leaves the destination: an
//! entry or a link target that has a root or a `..` is skipped.
use vstd::prelude::*;
use vstd::utf8::encode_utf8;

use crate::archive::{is_symlink_mode, mode_is_symlink, stored_name, walked_entry_name};
use crate::nav::up_from;
use crate::paths::{
    body_comp, components, file_name, has_cur_dir, is_safe_path, join, joined, lemma_components_valid,
    lemma_join_parent, lemma_render_components, lemma_safe_join_stays_inside, parent_is, parent_of,
    path_starts_with, render, safe_relative, strip_base, valid_comps, SpecComp,
};
use crate::selection::PathSet;
use crate::text::{chars_of, string_from_chars};

verus! {

/// The type of a tar entry, as far as extraction tells them apart (every
/// other type is written as a file).
#[derive(Clone, Copy, Debug, PartialEq, Eq, Structural)]
pub enum EntryKind {
    File,
    Dir,
    Symlink,
    HardLink,
}

/// What to do with an archive entry.
#[derive(Clone, Debug)]
pub enum EntryStep {
    Skip,
    /// Create this directory (and its parents).
    MakeDir(String),
    /// Write the entry's contents to this file.
    WriteFile(String),
    /// Make a symbolic link at `out` that points to `target`.
    Symlink { out: String, target: String },
    /// Make a hard link at `out` to the already extracted `source`.
    HardLink { out: String, source: String },
}

/// The spec form of a step.
pub enum SpecStep {
    Skip,
    MakeDir(Seq<char>),
    WriteFile(Seq<char>),
    Symlink(Seq<char>, Seq<char>),
    HardLink(Seq<char>, Seq<char>),
}

impl EntryStep {
    pub open spec fn spec_step(&self) -> SpecStep {
        match self {
            EntryStep::Skip => SpecStep::Skip,
            EntryStep::MakeDir(p) => SpecStep::MakeDir(p@),
            EntryStep::WriteFile(p) => SpecStep::WriteFile(p@),
            EntryStep::Symlink { out, target } => SpecStep::Symlink(out@, target@),
            EntryStep::HardLink { out, source } => SpecStep::HardLink(out@, source@),
        }
    }
}

/// The step for a tar entry at `path` of type `kind` (with its link's
/// target, when the entry names one), extracted into `dest`. Links whose
/// target is missing or could leave the destination are skipped.
pub open spec fn tar_step(dest: Seq<char>, path: Seq<char>, kind: EntryKind, link: Option<Seq<char>>) -> SpecStep {
    let out = joined(dest, path);
    if !safe_relative(path) {
        SpecStep::Skip
    } else if kind == EntryKind::Symlink || kind == EntryKind::HardLink {
        match link {
            Some(t) => if !safe_relative(t) {
                SpecStep::Skip
            } else if kind == EntryKind::Symlink {
                SpecStep::Symlink(out, t)
            } else {
                SpecStep::HardLink(out, joined(dest, t))
            },
            None => SpecStep::Skip,
        }
    } else if kind == EntryKind::Dir {
        SpecStep::MakeDir(out)
    } else {
        SpecStep::WriteFile(out)
    }
}

/// Decides what to do with a tar entry, as [`tar_step`] states.
pub fn tar_entry_step(dest: &str, path: &str, kind: EntryKind, link: Option<String>) -> (s: EntryStep)
    ensures
        s.spec_step() == tar_step(dest@, path@, kind, match link {
            Some(t) => Some(t@),
            None => None,
        }),
{
    if !is_safe_path(path) {
        return EntryStep::Skip;
    }
    let out = join(dest, path);
    match kind {
        EntryKind::Symlink | EntryKind::HardLink => match link {
            Some(t) => {
                if !is_safe_path(t.as_str()) {
                    EntryStep::Skip
                } else if kind == EntryKind::Symlink {
                    EntryStep::Symlink { out, target: t }
                } else {
                    let source = join(dest, t.as_str());
                    EntryStep::HardLink { out, source }
                }
            },
            None => EntryStep::Skip,
        },
        EntryKind::Dir => EntryStep::MakeDir(out),
        EntryKind::File => EntryStep::WriteFile(out),
    }
}

/// What to do with a zip entry before its contents are read.
#[derive(Clone, Debug)]
pub enum ZipStep {
    Skip,
    /// The entry is a symbolic link to be made at this path; its contents
    /// are the target.
    Link(String),
    /// Write the entry's contents to this file.
    Write(String),
}

/// The spec form of a zip step.
pub enum SpecZipStep {
    Skip,
    Link(Seq<char>),
    Write(Seq<char>),
}

impl ZipStep {
    pub open spec fn spec_step(&self) -> SpecZipStep {
        match self {
            ZipStep::Skip => SpecZipStep::Skip,
            ZipStep::Link(p) => SpecZipStep::Link(p@),
            ZipStep::Write(p) => SpecZipStep::Write(p@),
        }
    }
}

/// The step for a (non-directory) zip entry whose name, once made safe by
/// the archive reader, is `enclosed` (none when it could not be), and whose
/// Unix mode is `mode`, extracted into `dest`.
pub open spec fn zip_step(dest: Seq<char>, enclosed: Option<Seq<char>>, mode: Option<u32>) -> SpecZipStep {
    match enclosed {
        None => SpecZipStep::Skip,
        Some(rel) => if !safe_relative(rel) {
            SpecZipStep::Skip
        } else if mode matches Some(m) && is_symlink_mode(m) {
            SpecZipStep::Link(joined(dest, rel))
        } else {
            SpecZipStep::Write(joined(dest, rel))
        },
    }
}

/// Decides what to do with a zip entry, as [`zip_step`] states.
pub fn zip_entry_step(dest: &str, enclosed: Option<String>, mode: Option<u32>) -> (s: ZipStep)
    ensures
        s.spec_step() == zip_step(dest@, match enclosed {
            Some(t) => Some(t@),
            None => None,
        }, mode),
{
    match enclosed {
        None => ZipStep::Skip,
        Some(rel) => {
            if !is_safe_path(rel.as_str()) {
                return ZipStep::Skip;
            }
            let out = join(dest, rel.as_str());
            let link = match mode {
                Some(m) => mode_is_symlink(m),
                None => false,
            };
            if link {
                ZipStep::Link(out)
            } else {
                ZipStep::Write(out)
            }
        },
    }
}

/// `s` without its trailing NUL characters.
pub open spec fn trim_nuls(s: Seq<char>) -> Seq<char>
    decreases s.len(),
{
    if s.len() > 0 && s.last() == '\0' {
        trim_nuls(s.drop_last())
    } else {
        s
    }
}

/// The target of a zip symlink, from the text stored as the entry's
/// contents: without trailing NULs; none when it could leave the
/// destination.
pub open spec fn zip_link_target(text: Seq<char>) -> Option<Seq<char>> {
    if safe_relative(trim_nuls(text)) {
        Some(trim_nuls(text))
    } else {
        None
    }
}

/// Executable [`zip_link_target`].
pub fn link_target_of(text: &str) -> (r: Option<String>)
    ensures
        r is Some <==> zip_link_target(text@) is Some,
        r matches Some(t) ==> t@ == zip_link_target(text@)->Some_0,
{
    let v = chars_of(text);
    let mut k = v.len();
    assert(v@.take(k as int) =~= v@);
    while k > 0 && v[k - 1] == '\0'
        invariant
            k <= v@.len(),
            trim_nuls(v@.take(k as int)) == trim_nuls(v@),
        decreases k,
    {
        assert(v@.take(k as int).drop_last() =~= v@.take(k - 1));
        k = k - 1;
    }
    let mut w: Vec<char> = Vec::new();
    for i in 0..k
        invariant
            k <= v@.len(),
            w@ == v@.take(i as int),
    {
        w.push(v[i]);
        assert(v@.take(i + 1) =~= v@.take(i as int).push(v@[i as int]));
    }
    assert(trim_nuls(w@) == w@);
    let t = string_from_chars(&w);
    if is_safe_path(t.as_str()) {
        Some(t)
    } else {
        None
    }
}

/// The directory to create before writing `out`: its parent, unless it has
/// none, is empty, or was already created (is in `created`).
pub open spec fn parent_needed(out: Seq<char>, created: Set<Seq<SpecComp>>) -> Option<Seq<char>> {
    let cs = components(out);
    if cs.len() > 0 && !(cs.last() is Root) && cs.drop_last().len() > 0 && !created.contains(
        cs.drop_last(),
    ) {
        Some(render(cs.drop_last()))
    } else {
        None
    }
}

/// Decides which directory to create before writing `out`, as
/// [`parent_needed`] states, and records it in `created`.
pub fn parent_to_create(out: &str, created: &mut PathSet) -> (r: Option<String>)
    requires
        old(created).wf(),
    ensures
        final(created).wf(),
        r is Some <==> parent_needed(out@, old(created).view()) is Some,
        r matches Some(d) ==> d@ == parent_needed(out@, old(created).view())->Some_0 && components(d@)
            == components(out@).drop_last() && final(created).view() == old(created).view().insert(
            components(d@),
        ),
        r is None ==> final(created).view() == old(created).view(),
{
    match parent_of(out) {
        None => None,
        Some(d) => {
            if d.as_str().is_empty() || created.contains(d.as_str()) {
                proof {
                    if d@.len() == 0 {
                        assert(components(d@) =~= Seq::<SpecComp>::empty()) by {
                            assert(d@ =~= Seq::<char>::empty());
                        }
                    }
                }
                None
            } else {
                proof {
                    if components(d@).len() == 0 {
                        assert(d@ == render(Seq::<SpecComp>::empty()));
                    }
                }
                created.insert(d.clone());
                Some(d)
            }
        },
    }
}

/// The UTF-8 length of a path, in bytes.
pub open spec fn path_bytes(p: Seq<char>) -> nat {
    encode_utf8(p).len()
}

/// The order in which the directories an extraction created are removed
/// when it fails: longest path first (a directory before its parent), and
/// in the order they are given among paths of the same length.
pub fn removal_order(dirs: &[String]) -> (order: Vec<usize>)
    ensures
        order@.len() == dirs@.len(),
        forall|k: usize| order@.contains(k) <==> k < dirs@.len(),
        forall|i: int, j: int|
            0 <= i < j < order@.len() ==> path_bytes(dirs@[#[trigger] order@[i] as int]@) > path_bytes(
                dirs@[#[trigger] order@[j] as int]@,
            ) || (path_bytes(dirs@[order@[i] as int]@) == path_bytes(dirs@[order@[j] as int]@)
                && order@[i] < order@[j]),
{
    let n = dirs.len();
    let mut keys: Vec<usize> = Vec::new();
    for i in 0..n
        invariant
            n == dirs@.len(),
            keys@.len() == i,
            forall|t: int| 0 <= t < i ==> #[trigger] keys@[t] == path_bytes(dirs@[t]@),
    {
        keys.push(dirs[i].as_str().as_bytes().len());
    }
    let mut order: Vec<usize> = Vec::new();
    for i in 0..n
        invariant
            n == dirs@.len(),
            n == keys@.len(),
            forall|t: int| 0 <= t < n ==> #[trigger] keys@[t] == path_bytes(dirs@[t]@),
            order@.len() == i,
            forall|k: usize| order@.contains(k) <==> k < i,
            forall|t: int| 0 <= t < order@.len() ==> #[trigger] order@[t] < i,
            forall|a: int, b: int|
                0 <= a < b < order@.len() ==> keys@[#[trigger] order@[a] as int] > keys@[
                    #[trigger] order@[b] as int] || (keys@[order@[a] as int] == keys@[order@[b] as int]
                    && order@[a] < order@[b]),
    {
        let m = order.len();
        let mut pos: usize = 0;
        while pos < m && keys[order[pos]] >= keys[i]
            invariant
                m == order@.len(),
                pos <= m,
                n == keys@.len(),
                i < n,
                forall|k: usize| order@.contains(k) <==> k < i,
                forall|t: int| 0 <= t < order@.len() ==> #[trigger] order@[t] < i,
                forall|a: int| 0 <= a < pos ==> keys@[#[trigger] order@[a] as int] >= keys@[i as int],
            decreases m - pos,
        {
            assert(order@.contains(order@[pos as int]));
            pos = pos + 1;
        }
        proof {
            assert forall|a: int| pos <= a < m implies keys@[#[trigger] order@[a] as int] < keys@[i as int] by {
                if pos < m {
                    assert(order@.contains(order@[pos as int]));
                    if a > pos {
                        assert(keys@[order@[pos as int] as int] > keys@[order@[a] as int] || keys@[
                            order@[pos as int] as int] == keys@[order@[a] as int]);
                    }
                }
            }
        }
        let ghost before = order@;
        order.insert(pos, i);
        proof {
            assert forall|k: usize| order@.contains(k) <==> k < i + 1 by {
                if order@.contains(k) {
                    let t = choose|t: int| 0 <= t < order@.len() && order@[t] == k;
                    if t < pos {
                        assert(before[t] == k);
                        assert(before.contains(k));
                    } else if t > pos {
                        assert(before[t - 1] == k);
                        assert(before.contains(k));
                    }
                }
                if k < i + 1 {
                    if k == i {
                        assert(order@[pos as int] == i);
                    } else {
                        assert(before.contains(k));
                        let t = choose|t: int| 0 <= t < before.len() && before[t] == k;
                        if t < pos {
                            assert(order@[t] == k);
                        } else {
                            assert(order@[t + 1] == k);
                        }
                    }
                }
            }
            assert forall|a: int, b: int|
                0 <= a < b < order@.len() implies keys@[#[trigger] order@[a] as int] > keys@[
                #[trigger] order@[b] as int] || (keys@[order@[a] as int] == keys@[order@[b] as int]
                && order@[a] < order@[b]) by {
                let a2 = if a < pos { a } else { a - 1 };
                let b2 = if b < pos { b } else { b - 1 };
                if a == pos {
                    assert(order@[b] == before[b2]);
                } else if b == pos {
                    assert(order@[a] == before[a2]);
                    assert(before.contains(before[a2]));
                } else {
                    assert(order@[a] == before[a2]);
                    assert(order@[b] == before[b2]);
                }
            }
            assert forall|t: int| 0 <= t < order@.len() implies #[trigger] order@[t] < i + 1 by {
                if t < pos {
                    assert(order@[t] == before[t]);
                } else if t > pos {
                    assert(order@[t] == before[t - 1]);
                }
            }
        }
    }
    assert forall|i: int, j: int|
        0 <= i < j < order@.len() implies path_bytes(dirs@[#[trigger] order@[i] as int]@) > path_bytes(
        dirs@[#[trigger] order@[j] as int]@,
    ) || (path_bytes(dirs@[order@[i] as int]@) == path_bytes(dirs@[order@[j] as int]@) && order@[i]
        < order@[j]) by {
        assert(keys@[order@[i] as int] == path_bytes(dirs@[order@[i] as int]@));
        assert(keys@[order@[j] as int] == path_bytes(dirs@[order@[j] as int]@));
    }
    order
}

/// Every path that a tar or zip step writes (and every file a hard link
/// points to) lies under the destination: extraction never escapes it.
pub proof fn lemma_steps_stay_inside(
    dest: Seq<char>,
    path: Seq<char>,
    kind: EntryKind,
    link: Option<Seq<char>>,
    enclosed: Option<Seq<char>>,
    mode: Option<u32>,
)
    ensures
        match tar_step(dest, path, kind, link) {
            SpecStep::Skip => true,
            SpecStep::MakeDir(out) => path_starts_with(out, dest),
            SpecStep::WriteFile(out) => path_starts_with(out, dest),
            SpecStep::Symlink(out, _) => path_starts_with(out, dest),
            SpecStep::HardLink(out, src) => path_starts_with(out, dest) && path_starts_with(src, dest),
        },
        match zip_step(dest, enclosed, mode) {
            SpecZipStep::Skip => true,
            SpecZipStep::Link(out) => path_starts_with(out, dest),
            SpecZipStep::Write(out) => path_starts_with(out, dest),
        },
{
    if safe_relative(path) {
        lemma_safe_join_stays_inside(dest, path);
    }
    if let Some(t) = link {
        if safe_relative(t) {
            lemma_safe_join_stays_inside(dest, t);
        }
    }
    if let Some(rel) = enclosed {
        if safe_relative(rel) {
            lemma_safe_join_stays_inside(dest, rel);
        }
    }
}

/// An archive made of a directory gives its files back in place: a file
/// or directory met while walking the selected `root`, stored under the
/// name [`walked_entry_name`] gives, and extracted into `dest`, is
/// written at `dest` followed by the file's path below `root`'s parent
/// (component by component). A selected file stored under its own name
/// ([`stored_name`]) lands directly in `dest` under that name.
pub proof fn lemma_stored_entries_extract_in_place(
    root: Seq<char>,
    p: Seq<char>,
    f: Seq<char>,
    dest: Seq<char>,
    kind: EntryKind,
    mode: u32,
)
    requires
        kind == EntryKind::File || kind == EntryKind::Dir,
        !is_symlink_mode(mode),
    ensures
        match (walked_entry_name(root, p), strip_base(p, up_from(root))) {
            (Some(rel), Some(below)) => !(below[0] is Cur) ==> {
                let out = joined(dest, rel);
                &&& tar_step(dest, rel, kind, None) == if kind == EntryKind::Dir {
                    SpecStep::MakeDir(out)
                } else {
                    SpecStep::WriteFile(out)
                }
                &&& zip_step(dest, Some(rel), Some(mode)) == SpecZipStep::Write(out)
                &&& components(out) == components(dest) + below
            },
            _ => true,
        },
        match stored_name(f) {
            Some(n) => file_name(f) is Some ==> {
                let out = joined(dest, n);
                &&& tar_step(dest, n, EntryKind::File, None) == SpecStep::WriteFile(out)
                &&& parent_is(out, dest)
                &&& file_name(out) == file_name(f)
            },
            None => true,
        },
{
    if let Some(rel) = walked_entry_name(root, p) {
        if let Some(below) = strip_base(p, up_from(root)) {
            if !(below[0] is Cur) {
                let base = up_from(root);
                let all = components(p);
                let k = components(base).len() as int;
                lemma_components_valid(p);
                assert(valid_comps(below)) by {
                    assert forall|i: int| 0 <= i < below.len() implies (i == 0 && (below[i] is Root
                        || below[i] is Cur)) || body_comp(#[trigger] below[i]) by {
                        assert(below[i] == all[i + k]);
                    }
                }
                lemma_render_components(below);
                assert(rel == render(below));
                assert(!has_cur_dir(rel));
                lemma_safe_join_stays_inside(dest, rel);
            }
        }
    }
    if let Some(n) = stored_name(f) {
        if file_name(f) is Some {
            let cf = components(f);
            lemma_components_valid(f);
            assert(body_comp(cf[cf.len() - 1]));
            lemma_join_parent(dest, n);
        }
    }
}

} // verus!
