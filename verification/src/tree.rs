//! The sidebar: its places, the folders unfolded under them, and the
//! devices. Which folders are unfolded and the listings read for them are
//! kept in a [`FolderTree`]; [`sidebar_rows`] lays the sidebar out as the
//! rows it shows, top to bottom.
use vstd::prelude::*;

use crate::paths::{components, parent_is, path_components, paths_equal, SpecComp};
use crate::selection::{lemma_toggle_twice, toggled, PathSet};
use crate::text::{chars_of, truncate_text, truncated};
use crate::types::{DiskInfo, FileEntry, SidebarItem};

verus! {

/// The paths of the listings held, as component sequences.
pub open spec fn keys_of(v: Seq<(String, Vec<FileEntry>)>) -> Seq<Seq<SpecComp>> {
    v.map_values(|e: (String, Vec<FileEntry>)| components(e.0@))
}

/// The listing held for the folder `q`, if one is (a map lookup: no path
/// is held twice).
pub open spec fn listing_in(v: Seq<(String, Vec<FileEntry>)>, q: Seq<SpecComp>) -> Option<
    Seq<FileEntry>,
> {
    if exists|i: int| 0 <= i < v.len() && keys_of(v)[i] == q {
        let i = choose|i: int| 0 <= i < v.len() && keys_of(v)[i] == q;
        Some(v[i].1@)
    } else {
        None
    }
}

/// Which folders of the sidebar are unfolded, and the listings read for
/// them (a `HashMap` from path to entries, keys compared as paths).
pub struct FolderTree {
    pub expanded: PathSet,
    pub loaded: Vec<(String, Vec<FileEntry>)>,
}

impl FolderTree {
    /// No path is unfolded or listed twice, and every listed entry lies
    /// directly in the folder it is listed for.
    pub open spec fn wf(&self) -> bool {
        &&& self.expanded.wf()
        &&& keys_of(self.loaded@).no_duplicates()
        &&& forall|i: int, j: int|
            0 <= i < self.loaded@.len() && 0 <= j < self.loaded@[i].1@.len() ==> parent_is(
                #[trigger] self.loaded@[i].1@[j].path@,
                self.loaded@[i].0@,
            )
    }

    /// The listing held for the folder `q`.
    pub open spec fn listing(&self, q: Seq<SpecComp>) -> Option<Seq<FileEntry>> {
        listing_in(self.loaded@, q)
    }

    /// Nothing unfolded, nothing read.
    pub fn new() -> (t: Self)
        ensures
            t.wf(),
            t.expanded.view() == Set::<Seq<SpecComp>>::empty(),
            forall|q: Seq<SpecComp>| t.listing(q) is None,
    {
        let t = FolderTree { expanded: PathSet::new(), loaded: Vec::new() };
        assert(keys_of(t.loaded@) =~= Seq::<Seq<SpecComp>>::empty());
        t
    }

    /// Unfolds `path` when it is folded and folds it otherwise; returns
    /// whether it is now unfolded (then its listing is to be read).
    pub fn toggle(&mut self, path: String) -> (now_open: bool)
        requires
            old(self).wf(),
        ensures
            final(self).wf(),
            final(self).expanded.view() == toggled(old(self).expanded.view(), components(path@)),
            final(self).loaded@ == old(self).loaded@,
            now_open == !old(self).expanded.view().contains(components(path@)),
    {
        if self.expanded.contains(path.as_str()) {
            self.expanded.remove(path.as_str());
            false
        } else {
            self.expanded.insert(path);
            true
        }
    }

    /// Where the listing of `p` stands, if one is held.
    fn find(&self, p: &str) -> (r: Option<usize>)
        ensures
            r is None <==> !(exists|i: int|
                0 <= i < self.loaded@.len() && keys_of(self.loaded@)[i] == components(p@)),
            r matches Some(i) ==> i < self.loaded@.len() && keys_of(self.loaded@)[i as int]
                == components(p@),
    {
        let n = self.loaded.len();
        for i in 0..n
            invariant
                n == self.loaded@.len(),
                forall|k: int| 0 <= k < i ==> keys_of(self.loaded@)[k] != components(p@),
        {
            if paths_equal(self.loaded[i].0.as_str(), p) {
                assert(keys_of(self.loaded@)[i as int] == components(p@));
                return Some(i);
            }
        }
        proof {
            if exists|i: int|
                0 <= i < self.loaded@.len() && keys_of(self.loaded@)[i] == components(p@) {
                let k = choose|k: int|
                    0 <= k < self.loaded@.len() && keys_of(self.loaded@)[k] == components(p@);
                assert(false);
            }
        }
        None
    }

    /// Keeps `entries` as the listing of `path`, in place of any listing
    /// held for it (`HashMap::insert`). Each entry must lie directly in
    /// `path`, as those that reading the folder gives do: the sidebar
    /// unfolds listings into their entries' own listings, and an entry
    /// listed under itself would unfold without end.
    pub fn store_listing(&mut self, path: String, entries: Vec<FileEntry>)
        requires
            old(self).wf(),
            forall|j: int| 0 <= j < entries@.len() ==> parent_is(#[trigger] entries@[j].path@, path@),
        ensures
            final(self).wf(),
            final(self).expanded == old(self).expanded,
            forall|q: Seq<SpecComp>|
                #[trigger] final(self).listing(q) == if q == components(path@) {
                    Some(entries@)
                } else {
                    old(self).listing(q)
                },
    {
        let ghost old_loaded = self.loaded@;
        let ghost key = components(path@);
        let ghost ents = entries@;
        let pos = self.find(path.as_str());
        let ghost idx: int;
        match pos {
            Some(i) => {
                self.loaded.set(i, (path, entries));
                proof {
                    idx = i as int;
                    assert(keys_of(self.loaded@) =~= keys_of(old_loaded));
                }
            },
            None => {
                self.loaded.push((path, entries));
                proof {
                    idx = old_loaded.len() as int;
                    assert(keys_of(self.loaded@) =~= keys_of(old_loaded).push(key));
                    assert forall|a: int, b: int|
                        0 <= a < keys_of(self.loaded@).len() && 0 <= b < keys_of(
                            self.loaded@,
                        ).len() && a != b implies keys_of(self.loaded@)[a] != keys_of(
                        self.loaded@,
                    )[b] by {
                        if a < old_loaded.len() && b < old_loaded.len() {
                            assert(keys_of(old_loaded)[a] != keys_of(old_loaded)[b]);
                        }
                    }
                }
            },
        }
        proof {
            let nl = self.loaded@;
            assert(keys_of(nl)[idx] == key);
            assert(nl[idx].1@ == ents);
            assert forall|i: int, j: int|
                0 <= i < nl.len() && 0 <= j < nl[i].1@.len() implies parent_is(
                #[trigger] nl[i].1@[j].path@,
                nl[i].0@,
            ) by {
                if i == idx {
                    assert(nl[i].1@[j] == ents[j]);
                } else {
                    assert(nl[i] == old_loaded[i]);
                }
            }
            assert forall|q: Seq<SpecComp>|
                #[trigger] listing_in(nl, q) == if q == key {
                    Some(ents)
                } else {
                    listing_in(old_loaded, q)
                } by {
                if q == key {
                    lemma_listing_at(nl, idx);
                } else if exists|i: int|
                    0 <= i < old_loaded.len() && keys_of(old_loaded)[i] == q {
                    let i = choose|i: int|
                        0 <= i < old_loaded.len() && keys_of(old_loaded)[i] == q;
                    lemma_listing_at(old_loaded, i);
                    assert(i != idx);
                    assert(nl[i] == old_loaded[i]);
                    assert(keys_of(nl)[i] == q);
                    lemma_listing_at(nl, i);
                } else {
                    assert forall|i: int| 0 <= i < nl.len() implies keys_of(nl)[i] != q by {
                        if i != idx {
                            assert(nl[i] == old_loaded[i]);
                            assert(keys_of(old_loaded)[i] != q);
                        }
                    }
                }
            }
        }
    }
}

/// With no path held twice, the listing found for the path at `i` is the
/// one held there.
proof fn lemma_listing_at(v: Seq<(String, Vec<FileEntry>)>, i: int)
    requires
        keys_of(v).no_duplicates(),
        0 <= i < v.len(),
    ensures
        listing_in(v, keys_of(v)[i]) == Some(v[i].1@),
{
    let q = keys_of(v)[i];
    assert(keys_of(v)[i] == q);
    let k = choose|k: int| 0 <= k < v.len() && keys_of(v)[k] == q;
    assert(k == i);
}

/// The longest path (in components) among the entries of `kids`.
pub open spec fn kids_bound(kids: Seq<FileEntry>) -> nat
    decreases kids.len(),
{
    if kids.len() == 0 {
        0
    } else {
        let r = kids_bound(kids.drop_last());
        let l = components(kids.last().path@).len();
        if l > r {
            l
        } else {
            r
        }
    }
}

/// The longest path (in components) among all the entries listed.
pub open spec fn tree_bound(v: Seq<(String, Vec<FileEntry>)>) -> nat
    decreases v.len(),
{
    if v.len() == 0 {
        0
    } else {
        let r = tree_bound(v.drop_last());
        let l = kids_bound(v.last().1@);
        if l > r {
            l
        } else {
            r
        }
    }
}

proof fn lemma_kids_bound(kids: Seq<FileEntry>, j: int)
    requires
        0 <= j < kids.len(),
    ensures
        components(kids[j].path@).len() <= kids_bound(kids),
    decreases kids.len(),
{
    if j < kids.len() - 1 {
        lemma_kids_bound(kids.drop_last(), j);
    }
}

proof fn lemma_tree_bound(v: Seq<(String, Vec<FileEntry>)>, i: int, j: int)
    requires
        0 <= i < v.len(),
        0 <= j < v[i].1@.len(),
    ensures
        components(v[i].1@[j].path@).len() <= tree_bound(v),
    decreases v.len(),
{
    if i < v.len() - 1 {
        lemma_tree_bound(v.drop_last(), i, j);
    } else {
        lemma_kids_bound(v[i].1@, j);
    }
}

/// One row of the sidebar, as a value.
pub enum RowView {
    Folder {
        depth: nat,
        label: Seq<char>,
        path: Seq<char>,
        icon: Seq<char>,
        expanded: bool,
        active: bool,
    },
    Loading { depth: nat },
    Device { label: Seq<char>, mount_point: Seq<char>, active: bool },
}

/// One row of the sidebar.
#[derive(Debug, Clone, PartialEq)]
pub enum SidebarRow {
    /// A place (`depth` 0) or a folder unfolded under one, `depth` levels
    /// down: its name shortened for display, whether it is unfolded, and
    /// whether it is the place the current directory is in.
    Folder {
        depth: usize,
        label: String,
        path: String,
        icon: &'static str,
        expanded: bool,
        active: bool,
    },
    /// The listing of the folder at `depth` is still being read.
    Loading { depth: usize },
    /// A mounted device.
    Device { label: String, mount_point: String, active: bool },
}

impl SidebarRow {
    pub open spec fn view(&self) -> RowView {
        match self {
            SidebarRow::Folder { depth, label, path, icon, expanded, active } => RowView::Folder {
                depth: *depth as nat,
                label: label@,
                path: path@,
                icon: icon@,
                expanded: *expanded,
                active: *active,
            },
            SidebarRow::Loading { depth } => RowView::Loading { depth: *depth as nat },
            SidebarRow::Device { label, mount_point, active } => RowView::Device {
                label: label@,
                mount_point: mount_point@,
                active: *active,
            },
        }
    }
}

pub open spec fn rows_view(v: Seq<SidebarRow>) -> Seq<RowView> {
    v.map_values(|r: SidebarRow| r.view())
}

/// The path the sidebar marks as the current place, as text.
pub open spec fn best_view(best: Option<&str>) -> Option<Seq<char>> {
    match best {
        Some(b) => Some(b@),
        None => None,
    }
}

/// Whether `p` is the marked place (compared as paths).
pub open spec fn is_active(best: Option<Seq<char>>, p: Seq<char>) -> bool {
    match best {
        Some(b) => components(b) == components(p),
        None => false,
    }
}

/// Sidebar names are shortened to this many characters.
pub const LABEL_MAX: usize = 25;

/// The row of the folder entry `c`, under a place whose path has
/// `root_len` components.
pub open spec fn folder_row(t: FolderTree, c: FileEntry, root_len: nat, best: Option<Seq<char>>) -> RowView {
    RowView::Folder {
        depth: (components(c.path@).len() - root_len) as nat,
        label: truncated(c.name@, LABEL_MAX as nat),
        path: c.path@,
        icon: c.icon_name@,
        expanded: t.expanded.view().contains(components(c.path@)),
        active: is_active(best, c.path@),
    }
}

/// The rows shown under the folder `p` (of a place whose path has
/// `root_len` components): nothing while it is folded, a loading row
/// until its listing is read, and otherwise each folder of the listing in
/// order, each followed by the rows under it. `bound` only measures the
/// descent: listed entries lie directly in their folder, so a path
/// grows by one component at each level and never beyond `bound`.
pub open spec fn subtree(t: FolderTree, p: Seq<SpecComp>, root_len: nat, best: Option<Seq<char>>, bound: nat) -> Seq<RowView>
    decreases bound - p.len(), 1nat, 0nat,
{
    if !t.expanded.view().contains(p) {
        Seq::empty()
    } else {
        match t.listing(p) {
            None => seq![RowView::Loading { depth: (p.len() - root_len) as nat }],
            Some(kids) => kid_rows(t, p, kids, root_len, best, bound),
        }
    }
}

/// The rows of the folders among `kids`, listed in `p`, each followed by
/// the rows under it.
pub open spec fn kid_rows(t: FolderTree, p: Seq<SpecComp>, kids: Seq<FileEntry>, root_len: nat, best: Option<Seq<char>>, bound: nat) -> Seq<RowView>
    decreases bound - p.len(), 0nat, kids.len(),
{
    if kids.len() == 0 {
        Seq::empty()
    } else {
        let c = kids.last();
        let cp = components(c.path@);
        let before = kid_rows(t, p, kids.drop_last(), root_len, best, bound);
        if !c.is_dir {
            before
        } else if p.len() < cp.len() <= bound {
            before + seq![folder_row(t, c, root_len, best)] + subtree(t, cp, root_len, best, bound)
        } else {
            before + seq![folder_row(t, c, root_len, best)]
        }
    }
}

/// The rows of the places `items`: each place, then what is unfolded
/// under it.
pub open spec fn place_rows(t: FolderTree, items: Seq<SidebarItem>, best: Option<Seq<char>>) -> Seq<RowView>
    decreases items.len(),
{
    if items.len() == 0 {
        Seq::empty()
    } else {
        let it = items.last();
        let ip = components(it.path@);
        place_rows(t, items.drop_last(), best) + seq![
            RowView::Folder {
                depth: 0,
                label: truncated(it.name@, LABEL_MAX as nat),
                path: it.path@,
                icon: it.icon@,
                expanded: t.expanded.view().contains(ip),
                active: is_active(best, it.path@),
            },
        ] + subtree(t, ip, ip.len(), best, tree_bound(t.loaded@))
    }
}

/// The rows of the devices.
pub open spec fn device_rows(disks: Seq<DiskInfo>, best: Option<Seq<char>>) -> Seq<RowView> {
    disks.map_values(
        |d: DiskInfo|
            RowView::Device {
                label: truncated(d.name@, LABEL_MAX as nat),
                mount_point: d.mount_point@,
                active: is_active(best, d.mount_point@),
            },
    )
}

/// The whole sidebar: nothing when it is hidden, else the places with
/// what is unfolded under them, then the devices.
pub open spec fn sidebar_view(visible: bool, items: Seq<SidebarItem>, disks: Seq<DiskInfo>, best: Option<Seq<char>>, t: FolderTree) -> Seq<RowView> {
    if !visible {
        Seq::empty()
    } else {
        place_rows(t, items, best) + device_rows(disks, best)
    }
}

fn marks(best: Option<&str>, p: &str) -> (b: bool)
    ensures
        b == is_active(best_view(best), p@),
{
    match best {
        Some(b) => paths_equal(b, p),
        None => false,
    }
}

fn comp_count(p: &str) -> (n: usize)
    ensures
        n == components(p@).len(),
{
    let cs = path_components(&chars_of(p));
    cs.len()
}

/// Appends the rows under the folder `path`.
fn push_subtree(
    tree: &FolderTree,
    path: &str,
    root_len: usize,
    best: Option<&str>,
    out: &mut Vec<SidebarRow>,
    Ghost(bound): Ghost<nat>,
)
    requires
        tree.wf(),
        bound == tree_bound(tree.loaded@),
        root_len <= components(path@).len(),
    ensures
        rows_view(final(out)@) == rows_view(old(out)@) + subtree(
            *tree,
            components(path@),
            root_len as nat,
            best_view(best),
            bound,
        ),
    decreases bound - components(path@).len(),
{
    let ghost p = components(path@);
    let ghost start = rows_view(out@);
    let ghost bv = best_view(best);
    if !tree.expanded.contains(path) {
        assert(rows_view(out@) =~= start + Seq::<RowView>::empty());
        return ;
    }
    match tree.find(path) {
        None => {
            let n = comp_count(path);
            out.push(SidebarRow::Loading { depth: n - root_len });
            assert(rows_view(out@) =~= start + seq![RowView::Loading { depth: (p.len() - root_len) as nat }]);
        },
        Some(i) => {
            proof {
                lemma_listing_at(tree.loaded@, i as int);
            }
            let kids = &tree.loaded[i].1;
            let ghost ks = kids@;
            let nk = kids.len();
            assert(rows_view(out@) =~= start + kid_rows(*tree, p, ks.take(0), root_len as nat, bv, bound));
            for j in 0..nk
                invariant
                    tree.wf(),
                    bound == tree_bound(tree.loaded@),
                    i < tree.loaded@.len(),
                    keys_of(tree.loaded@)[i as int] == p,
                    p == components(path@),
                    ks == tree.loaded@[i as int].1@,
                    kids@ == ks,
                    nk == ks.len(),
                    root_len <= p.len(),
                    bv == best_view(best),
                    rows_view(out@) == start + kid_rows(*tree, p, ks.take(j as int), root_len as nat, bv, bound),
            {
                let c = &kids[j];
                proof {
                    assert(ks.take(j + 1).drop_last() =~= ks.take(j as int));
                    assert(ks.take(j + 1).last() == ks[j as int]);
                }
                if c.is_dir {
                    proof {
                        assert(parent_is(tree.loaded@[i as int].1@[j as int].path@, tree.loaded@[i as int].0@));
                        lemma_tree_bound(tree.loaded@, i as int, j as int);
                    }
                    let ghost cp = components(c.path@);
                    let ghost before = rows_view(out@);
                    let n = comp_count(c.path.as_str());
                    let row = SidebarRow::Folder {
                        depth: n - root_len,
                        label: truncate_text(c.name.as_str(), LABEL_MAX),
                        path: c.path.clone(),
                        icon: c.icon_name,
                        expanded: tree.expanded.contains(c.path.as_str()),
                        active: marks(best, c.path.as_str()),
                    };
                    out.push(row);
                    assert(rows_view(out@) =~= before + seq![folder_row(*tree, *c, root_len as nat, bv)]);
                    push_subtree(tree, c.path.as_str(), root_len, best, out, Ghost(bound));
                    assert(rows_view(out@) =~= start + kid_rows(*tree, p, ks.take(j + 1), root_len as nat, bv, bound));
                } else {
                    assert(rows_view(out@) =~= start + kid_rows(*tree, p, ks.take(j + 1), root_len as nat, bv, bound));
                }
            }
            assert(ks.take(nk as int) =~= ks);
        },
    }
}

/// The rows the sidebar shows, top to bottom: nothing when it is hidden;
/// otherwise each place, followed by the folders unfolded under it (each
/// folder of a read listing in order, followed in turn by what is
/// unfolded under it, or a loading row while the listing is read), and
/// then the devices. Names are shortened to [`LABEL_MAX`] characters; the
/// row whose path is `best` (compared as paths) is marked active.
pub fn sidebar_rows(
    visible: bool,
    items: &[SidebarItem],
    disks: &[DiskInfo],
    best: Option<&str>,
    tree: &FolderTree,
) -> (rows: Vec<SidebarRow>)
    requires
        tree.wf(),
    ensures
        rows_view(rows@) == sidebar_view(visible, items@, disks@, best_view(best), *tree),
{
    let mut out: Vec<SidebarRow> = Vec::new();
    let ghost bv = best_view(best);
    let ghost bound = tree_bound(tree.loaded@);
    if !visible {
        assert(rows_view(out@) =~= Seq::<RowView>::empty());
        return out;
    }
    let n = items.len();
    assert(rows_view(out@) =~= place_rows(*tree, items@.take(0), bv));
    for k in 0..n
        invariant
            tree.wf(),
            bound == tree_bound(tree.loaded@),
            n == items@.len(),
            bv == best_view(best),
            rows_view(out@) == place_rows(*tree, items@.take(k as int), bv),
    {
        let it = &items[k];
        proof {
            assert(items@.take(k + 1).drop_last() =~= items@.take(k as int));
            assert(items@.take(k + 1).last() == items@[k as int]);
        }
        let ghost before = rows_view(out@);
        let rl = comp_count(it.path.as_str());
        let row = SidebarRow::Folder {
            depth: 0,
            label: truncate_text(it.name.as_str(), LABEL_MAX),
            path: it.path.clone(),
            icon: it.icon,
            expanded: tree.expanded.contains(it.path.as_str()),
            active: marks(best, it.path.as_str()),
        };
        out.push(row);
        push_subtree(tree, it.path.as_str(), rl, best, &mut out, Ghost(bound));
        assert(rows_view(out@) =~= place_rows(*tree, items@.take(k + 1), bv));
    }
    assert(items@.take(n as int) =~= items@);
    let ghost places = rows_view(out@);
    let m = disks.len();
    for k in 0..m
        invariant
            m == disks@.len(),
            bv == best_view(best),
            rows_view(out@) == places + device_rows(disks@.take(k as int), bv),
    {
        let d = &disks[k];
        let row = SidebarRow::Device {
            label: truncate_text(d.name.as_str(), LABEL_MAX),
            mount_point: d.mount_point.clone(),
            active: marks(best, d.mount_point.as_str()),
        };
        let ghost before = rows_view(out@);
        let ghost rv = row.view();
        out.push(row);
        assert(rows_view(out@) =~= before.push(rv));
        assert(device_rows(disks@.take(k + 1), bv) =~= device_rows(disks@.take(k as int), bv).push(
            rv,
        ));
        assert(rows_view(out@) =~= places + device_rows(disks@.take(k + 1), bv));
    }
    assert(disks@.take(m as int) =~= disks@);
    out
}

proof fn lemma_subtree_same(
    t1: FolderTree,
    t2: FolderTree,
    p: Seq<SpecComp>,
    root_len: nat,
    best: Option<Seq<char>>,
    bound: nat,
)
    requires
        t1.expanded.view() == t2.expanded.view(),
        t1.loaded@ == t2.loaded@,
    ensures
        subtree(t1, p, root_len, best, bound) == subtree(t2, p, root_len, best, bound),
    decreases bound - p.len(), 1nat, 0nat,
{
    if t1.expanded.view().contains(p) {
        if let Some(kids) = t1.listing(p) {
            lemma_kids_same(t1, t2, p, kids, root_len, best, bound);
        }
    }
}

proof fn lemma_kids_same(
    t1: FolderTree,
    t2: FolderTree,
    p: Seq<SpecComp>,
    kids: Seq<FileEntry>,
    root_len: nat,
    best: Option<Seq<char>>,
    bound: nat,
)
    requires
        t1.expanded.view() == t2.expanded.view(),
        t1.loaded@ == t2.loaded@,
    ensures
        kid_rows(t1, p, kids, root_len, best, bound) == kid_rows(t2, p, kids, root_len, best, bound),
    decreases bound - p.len(), 0nat, kids.len(),
{
    if kids.len() > 0 {
        lemma_kids_same(t1, t2, p, kids.drop_last(), root_len, best, bound);
        let cp = components(kids.last().path@);
        if kids.last().is_dir && p.len() < cp.len() <= bound {
            lemma_subtree_same(t1, t2, cp, root_len, best, bound);
        }
    }
}

proof fn lemma_places_same(t1: FolderTree, t2: FolderTree, items: Seq<SidebarItem>, best: Option<Seq<char>>)
    requires
        t1.expanded.view() == t2.expanded.view(),
        t1.loaded@ == t2.loaded@,
    ensures
        place_rows(t1, items, best) == place_rows(t2, items, best),
    decreases items.len(),
{
    if items.len() > 0 {
        lemma_places_same(t1, t2, items.drop_last(), best);
        let ip = components(items.last().path@);
        lemma_subtree_same(t1, t2, ip, ip.len(), best, tree_bound(t1.loaded@));
    }
}

/// Folding a folder and unfolding it again (or the reverse) leaves the
/// sidebar as it was: its rows depend only on which paths are unfolded
/// and on the listings read, and toggling a path twice leaves the
/// unfolded paths as they were.
pub proof fn lemma_refold_restores_sidebar(
    before: FolderTree,
    after: FolderTree,
    path: Seq<char>,
    visible: bool,
    items: Seq<SidebarItem>,
    disks: Seq<DiskInfo>,
    best: Option<Seq<char>>,
)
    requires
        after.expanded.view() == toggled(
            toggled(before.expanded.view(), components(path)),
            components(path),
        ),
        after.loaded@ == before.loaded@,
    ensures
        sidebar_view(visible, items, disks, best, after) == sidebar_view(
            visible,
            items,
            disks,
            best,
            before,
        ),
{
    lemma_toggle_twice(before.expanded.view(), components(path));
    lemma_places_same(after, before, items, best);
}

} // verus!
