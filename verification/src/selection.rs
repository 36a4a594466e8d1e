//! Sets of paths, and how clicks, keys and the rubber band change the set
//! of selected files. Paths are compared as `Path` values (by their
//! components), so a set of paths means a set of component sequences.
use vstd::prelude::*;

use crate::paths::{components, paths_equal, same_path, SpecComp};
use crate::types::FileEntry;

verus! {

/// The components of each path in `v`.
pub open spec fn comps_of(v: Seq<String>) -> Seq<Seq<SpecComp>> {
    v.map_values(|s: String| components(s@))
}

/// The components of each entry's path.
pub open spec fn entry_comps(es: Seq<FileEntry>) -> Seq<Seq<SpecComp>> {
    es.map_values(|e: FileEntry| components(e.path@))
}

/// The path of the entry shown at position `i` of the filtered list, when
/// there is one.
pub open spec fn shown_at(filtered: Seq<usize>, es: Seq<FileEntry>, i: int) -> Option<Seq<SpecComp>> {
    if 0 <= i < filtered.len() && filtered[i] < es.len() {
        Some(components(es[filtered[i] as int].path@))
    } else {
        None
    }
}

/// The paths shown at positions `lo..=hi` of the filtered list.
pub open spec fn shown_between(filtered: Seq<usize>, es: Seq<FileEntry>, lo: int, hi: int) -> Set<
    Seq<SpecComp>,
> {
    Set::new(
        |c: Seq<SpecComp>|
            exists|i: int| lo <= i <= hi && #[trigger] shown_at(filtered, es, i) == Some(c),
    )
}

/// The paths shown in the cells that the rubber band covers: rows
/// `r0..=r1` and columns `c0..=c1` of a grid `columns` wide.
pub open spec fn shown_in_band(
    filtered: Seq<usize>,
    es: Seq<FileEntry>,
    r0: int,
    r1: int,
    c0: int,
    c1: int,
    columns: int,
) -> Set<Seq<SpecComp>> {
    Set::new(
        |c: Seq<SpecComp>|
            exists|r: int, k: int|
                r0 <= r <= r1 && c0 <= k <= c1 && #[trigger] shown_at(filtered, es, r * columns + k)
                    == Some(c),
    )
}

proof fn lemma_push_to_set<A>(s: Seq<A>, x: A)
    ensures
        s.push(x).to_set() == s.to_set().insert(x),
{
    assert forall|y: A| s.push(x).to_set().contains(y) <==> s.to_set().insert(x).contains(y) by {
        if s.push(x).contains(y) && y != x {
            let k = choose|k: int| 0 <= k < s.push(x).len() && s.push(x)[k] == y;
            assert(k < s.len());
            assert(s[k] == y);
        }
        if s.contains(y) {
            let k = choose|k: int| 0 <= k < s.len() && s[k] == y;
            assert(s.push(x)[k] == y);
        }
        if y == x {
            assert(s.push(x)[s.len() as int] == x);
        }
    }
    assert(s.push(x).to_set() =~= s.to_set().insert(x));
}

/// A set of paths compared as paths (as a `HashSet<PathBuf>` compares
/// them): the selected files, or the directories an extraction created.
/// No path is held twice. The text of each path is kept as it was first
/// inserted, in the order of insertion (`paths`).
pub struct PathSet {
    pub paths: Vec<String>,
}

impl PathSet {
    /// No path occurs twice.
    pub open spec fn wf(&self) -> bool {
        comps_of(self.paths@).no_duplicates()
    }

    /// The paths held, as component sequences.
    pub open spec fn view(&self) -> Set<Seq<SpecComp>> {
        comps_of(self.paths@).to_set()
    }

    /// The empty set.
    pub fn new() -> (s: Self)
        ensures
            s.wf(),
            s.view() == Set::<Seq<SpecComp>>::empty(),
    {
        let s = PathSet { paths: Vec::new() };
        assert(s.view() =~= Set::<Seq<SpecComp>>::empty());
        s
    }

    /// How many paths the set holds.
    pub fn len(&self) -> (n: usize)
        requires
            self.wf(),
        ensures
            n == self.view().len(),
    {
        proof {
            comps_of(self.paths@).unique_seq_to_set();
        }
        self.paths.len()
    }

    /// Whether the set is empty.
    pub fn is_empty(&self) -> (b: bool)
        ensures
            b == (self.view() == Set::<Seq<SpecComp>>::empty()),
    {
        if self.paths.len() == 0 {
            assert(self.view() =~= Set::<Seq<SpecComp>>::empty());
            true
        } else {
            assert(self.view().contains(comps_of(self.paths@)[0]));
            false
        }
    }

    /// Where `p` stands in the list, if the set holds it.
    fn position(&self, p: &str) -> (r: Option<usize>)
        ensures
            r is None <==> !self.view().contains(components(p@)),
            r matches Some(i) ==> i < self.paths@.len() && components(self.paths@[i as int]@)
                == components(p@),
    {
        let n = self.paths.len();
        for i in 0..n
            invariant
                n == self.paths@.len(),
                forall|k: int| 0 <= k < i ==> comps_of(self.paths@)[k] != components(p@),
        {
            if paths_equal(self.paths[i].as_str(), p) {
                assert(comps_of(self.paths@)[i as int] == components(p@));
                return Some(i);
            }
        }
        proof {
            if self.view().contains(components(p@)) {
                let k = choose|k: int|
                    0 <= k < comps_of(self.paths@).len() && comps_of(self.paths@)[k]
                        == components(p@);
                assert(false);
            }
        }
        None
    }

    /// Whether the set holds `p`.
    pub fn contains(&self, p: &str) -> (b: bool)
        ensures
            b == self.view().contains(components(p@)),
    {
        self.position(p).is_some()
    }

    /// Adds `p`; returns whether it was not there before
    /// (`HashSet::insert`).
    pub fn insert(&mut self, p: String) -> (added: bool)
        requires
            old(self).wf(),
        ensures
            final(self).wf(),
            final(self).view() == old(self).view().insert(components(p@)),
            added == !old(self).view().contains(components(p@)),
            added ==> final(self).paths@ == old(self).paths@.push(p),
            !added ==> final(self).paths@ == old(self).paths@,
    {
        if self.contains(p.as_str()) {
            assert(self.view().insert(components(p@)) =~= self.view());
            return false;
        }
        let ghost before = comps_of(self.paths@);
        self.paths.push(p);
        proof {
            assert(comps_of(self.paths@) =~= before.push(components(p@)));
            lemma_push_to_set(before, components(p@));
            assert forall|i: int, j: int|
                0 <= i < comps_of(self.paths@).len() && 0 <= j < comps_of(self.paths@).len() && i
                    != j implies comps_of(self.paths@)[i] != comps_of(self.paths@)[j] by {
                if i < before.len() && j < before.len() {
                } else if i < before.len() {
                    assert(before.to_set().contains(before[i]));
                } else if j < before.len() {
                    assert(before.to_set().contains(before[j]));
                }
            }
        }
        true
    }

    /// Takes `p` out; returns whether it was there (`HashSet::remove`).
    pub fn remove(&mut self, p: &str) -> (removed: bool)
        requires
            old(self).wf(),
        ensures
            final(self).wf(),
            final(self).view() == old(self).view().remove(components(p@)),
            removed == old(self).view().contains(components(p@)),
            removed ==> exists|i: int|
                0 <= i < old(self).paths@.len() && components(old(self).paths@[i]@) == components(
                    p@,
                ) && final(self).paths@ == old(self).paths@.remove(i),
            !removed ==> final(self).paths@ == old(self).paths@,
    {
        match self.position(p) {
            None => {
                assert(self.view().remove(components(p@)) =~= self.view());
                false
            },
            Some(i) => {
                let ghost before = comps_of(self.paths@);
                let ghost old_paths = self.paths@;
                self.paths.remove(i);
                proof {
                    assert(self.paths@ == old_paths.remove(i as int));
                    let after = comps_of(self.paths@);
                    assert(after =~= before.remove(i as int));
                    assert(before[i as int] == components(p@));
                    assert forall|x: Seq<SpecComp>|
                        after.to_set().contains(x) <==> before.to_set().remove(
                            components(p@),
                        ).contains(x) by {
                        if after.contains(x) {
                            let k = choose|k: int| 0 <= k < after.len() && after[k] == x;
                            if k < i {
                                assert(before[k] == x);
                                assert(before[k] != before[i as int]);
                            } else {
                                assert(before[k + 1] == x);
                                assert(before[k + 1] != before[i as int]);
                            }
                        }
                        if before.contains(x) && x != components(p@) {
                            let k = choose|k: int| 0 <= k < before.len() && before[k] == x;
                            assert(k != i);
                            if k < i {
                                assert(after[k] == x);
                            } else {
                                assert(after[k - 1] == x);
                            }
                        }
                    }
                    assert(after.to_set() =~= before.to_set().remove(components(p@)));
                    assert forall|a: int, b: int|
                        0 <= a < after.len() && 0 <= b < after.len() && a != b implies after[a]
                            != after[b] by {
                        let a2 = if a < i { a } else { a + 1 };
                        let b2 = if b < i { b } else { b + 1 };
                        assert(after[a] == before[a2]);
                        assert(after[b] == before[b2]);
                    }
                }
                true
            },
        }
    }

    /// Empties the set.
    pub fn clear(&mut self)
        ensures
            final(self).wf(),
            final(self).view() == Set::<Seq<SpecComp>>::empty(),
            final(self).paths@.len() == 0,
    {
        self.paths = Vec::new();
        assert(self.view() =~= Set::<Seq<SpecComp>>::empty());
    }
}

/// Whether some entry has the path `p`.
fn entries_contain(entries: &[FileEntry], p: &str) -> (b: bool)
    ensures
        b == entry_comps(entries@).contains(components(p@)),
{
    let n = entries.len();
    for i in 0..n
        invariant
            n == entries@.len(),
            forall|k: int| 0 <= k < i ==> entry_comps(entries@)[k] != components(p@),
    {
        if paths_equal(entries[i].path.as_str(), p) {
            assert(entry_comps(entries@)[i as int] == components(p@));
            return true;
        }
    }
    proof {
        if entry_comps(entries@).contains(components(p@)) {
            let k = choose|k: int|
                0 <= k < entry_comps(entries@).len() && entry_comps(entries@)[k] == components(p@);
            assert(false);
        }
    }
    false
}

impl PathSet {
    /// The paths held, for the clipboard or a job.
    pub fn to_vec(&self) -> (v: Vec<String>)
        ensures
            comps_of(v@) == comps_of(self.paths@),
            v@.len() == self.paths@.len(),
            forall|k: int| 0 <= k < v@.len() ==> #[trigger] v@[k]@ == self.paths@[k]@,
    {
        let mut v: Vec<String> = Vec::new();
        let n = self.paths.len();
        for i in 0..n
            invariant
                n == self.paths@.len(),
                v@.len() == i,
                forall|k: int| 0 <= k < i ==> v@[k]@ == self.paths@[k]@,
        {
            v.push(self.paths[i].clone());
        }
        assert(comps_of(v@) =~= comps_of(self.paths@));
        v
    }

    /// Keeps only the paths that some entry still has (after a new
    /// listing arrives).
    pub fn retain_present(&mut self, entries: &[FileEntry])
        requires
            old(self).wf(),
        ensures
            final(self).wf(),
            final(self).view() == old(self).view().filter(
                |c: Seq<SpecComp>| entry_comps(entries@).contains(c),
            ),
    {
        let ghost old_comps = comps_of(self.paths@);
        let mut kept = PathSet::new();
        let n = self.paths.len();
        for i in 0..n
            invariant
                n == self.paths@.len(),
                old_comps == comps_of(self.paths@),
                kept.wf(),
                kept.view() == Set::new(
                    |c: Seq<SpecComp>|
                        exists|k: int|
                            0 <= k < i && #[trigger] old_comps[k] == c && entry_comps(
                                entries@,
                            ).contains(c),
                ),
        {
            if entries_contain(entries, self.paths[i].as_str()) {
                kept.insert(self.paths[i].clone());
                assert(old_comps[i as int] == components(self.paths@[i as int]@));
            }
            assert(kept.view() =~= Set::new(
                |c: Seq<SpecComp>|
                    exists|k: int|
                        0 <= k < i + 1 && #[trigger] old_comps[k] == c && entry_comps(
                            entries@,
                        ).contains(c),
            )) by {
                assert(old_comps[i as int] == components(self.paths@[i as int]@));
            }
        }
        assert(kept.view() =~= old_comps.to_set().filter(
            |c: Seq<SpecComp>| entry_comps(entries@).contains(c),
        ));
        *self = kept;
    }

    /// Holds the path of every entry, and nothing else (select all).
    pub fn select_all(&mut self, entries: &[FileEntry])
        ensures
            final(self).wf(),
            final(self).view() == entry_comps(entries@).to_set(),
    {
        self.clear();
        let n = entries.len();
        for i in 0..n
            invariant
                n == entries@.len(),
                self.wf(),
                self.view() == entry_comps(entries@).take(i as int).to_set(),
        {
            let ghost before = entry_comps(entries@).take(i as int);
            self.insert(entries[i].path.clone());
            proof {
                assert(entry_comps(entries@).take(i + 1) =~= before.push(
                    components(entries@[i as int].path@),
                ));
                lemma_push_to_set(before, components(entries@[i as int].path@));
            }
        }
        assert(entry_comps(entries@).take(n as int) =~= entry_comps(entries@));
    }

    /// A right click on `p`: a path outside the selection becomes the whole
    /// selection; one inside leaves it as it is.
    pub fn right_click(&mut self, p: String)
        requires
            old(self).wf(),
        ensures
            final(self).wf(),
            old(self).view().contains(components(p@)) ==> final(self).view() == old(self).view(),
            !old(self).view().contains(components(p@)) ==> final(self).view() == set![components(p@)],
    {
        if !self.contains(p.as_str()) {
            self.clear();
            self.insert(p);
            assert(Set::<Seq<SpecComp>>::empty().insert(components(p@)) =~= set![components(p@)]);
        }
    }
}

/// `v` with `c` taken out when it holds it, and added otherwise.
pub open spec fn toggled(v: Set<Seq<SpecComp>>, c: Seq<SpecComp>) -> Set<Seq<SpecComp>> {
    if v.contains(c) {
        v.remove(c)
    } else {
        v.insert(c)
    }
}

/// Ctrl-clicking the same path twice leaves the selection as it was.
pub proof fn lemma_toggle_twice(v: Set<Seq<SpecComp>>, c: Seq<SpecComp>)
    ensures
        toggled(toggled(v, c), c) == v,
{
    if v.contains(c) {
        assert(v.remove(c).insert(c) =~= v);
    } else {
        assert(v.insert(c).remove(c) =~= v);
    }
}

/// The paths shown in row `r`, columns `c0..=c1`, of a grid `columns` wide.
pub open spec fn shown_in_row(
    filtered: Seq<usize>,
    es: Seq<FileEntry>,
    r: int,
    c0: int,
    c1: int,
    columns: int,
) -> Set<Seq<SpecComp>> {
    Set::new(
        |c: Seq<SpecComp>|
            exists|k: int| c0 <= k <= c1 && #[trigger] shown_at(filtered, es, r * columns + k) == Some(c),
    )
}

/// Rows past the list, and columns past its length, show nothing: the band
/// can be cut down to them.
proof fn lemma_band_cap(
    filtered: Seq<usize>,
    es: Seq<FileEntry>,
    r0: int,
    r1: int,
    c0: int,
    c1: int,
    columns: int,
    r_last: int,
    c_last: int,
)
    requires
        0 <= r0,
        0 <= c0,
        0 <= columns,
        c_last == (if c1 < filtered.len() { c1 } else { filtered.len() as int }),
        r_last == (if columns == 0 {
            if r1 < r0 { r1 } else { r0 }
        } else if r1 < filtered.len() {
            r1
        } else {
            filtered.len() as int
        }),
    ensures
        shown_in_band(filtered, es, r0, r1, c0, c1, columns) == shown_in_band(
            filtered,
            es,
            r0,
            r_last,
            c0,
            c_last,
            columns,
        ),
{
    let full = shown_in_band(filtered, es, r0, r1, c0, c1, columns);
    let cut = shown_in_band(filtered, es, r0, r_last, c0, c_last, columns);
    assert forall|c: Seq<SpecComp>| full.contains(c) implies cut.contains(c) by {
        let (r, k) = choose|r: int, k: int|
            r0 <= r <= r1 && c0 <= k <= c1 && #[trigger] shown_at(filtered, es, r * columns + k)
                == Some(c);
        assert(r * columns >= 0) by (nonlinear_arith)
            requires
                r >= 0,
                columns >= 0,
        ;
        assert(r * columns + k < filtered.len());
        if columns == 0 {
            assert(r * columns == 0) by (nonlinear_arith)
                requires
                    columns == 0,
            ;
            assert(r0 * columns == 0) by (nonlinear_arith)
                requires
                    columns == 0,
            ;
            assert(shown_at(filtered, es, r0 * columns + k) == Some(c));
        } else {
            assert(r * columns >= r) by (nonlinear_arith)
                requires
                    r >= 0,
                    columns >= 1,
            ;
            assert(shown_at(filtered, es, r * columns + k) == Some(c));
        }
    }
    assert(full =~= cut);
}

/// A band of the rows before `r`, plus row `r`, is the band up to `r`.
proof fn lemma_band_extend(
    filtered: Seq<usize>,
    es: Seq<FileEntry>,
    r0: int,
    r: int,
    c0: int,
    c1: int,
    columns: int,
)
    requires
        r0 <= r,
    ensures
        shown_in_band(filtered, es, r0, r, c0, c1, columns) == shown_in_band(
            filtered,
            es,
            r0,
            r - 1,
            c0,
            c1,
            columns,
        ).union(shown_in_row(filtered, es, r, c0, c1, columns)),
{
    let a = shown_in_band(filtered, es, r0, r, c0, c1, columns);
    let b = shown_in_band(filtered, es, r0, r - 1, c0, c1, columns).union(
        shown_in_row(filtered, es, r, c0, c1, columns),
    );
    assert forall|c: Seq<SpecComp>| a.contains(c) implies b.contains(c) by {
        let (r2, k) = choose|r2: int, k: int|
            r0 <= r2 <= r && c0 <= k <= c1 && #[trigger] shown_at(filtered, es, r2 * columns + k)
                == Some(c);
        if r2 == r {
            assert(shown_in_row(filtered, es, r, c0, c1, columns).contains(c));
        } else {
            assert(shown_in_band(filtered, es, r0, r - 1, c0, c1, columns).contains(c));
        }
    }
    assert forall|c: Seq<SpecComp>| b.contains(c) implies a.contains(c) by {
        if shown_in_row(filtered, es, r, c0, c1, columns).contains(c) {
            let k = choose|k: int|
                c0 <= k <= c1 && #[trigger] shown_at(filtered, es, r * columns + k) == Some(c);
            assert(shown_at(filtered, es, r * columns + k) == Some(c));
        } else {
            let (r2, k) = choose|r2: int, k: int|
                r0 <= r2 <= r - 1 && c0 <= k <= c1 && #[trigger] shown_at(
                    filtered,
                    es,
                    r2 * columns + k,
                ) == Some(c);
            assert(shown_at(filtered, es, r2 * columns + k) == Some(c));
        }
    }
    assert(a =~= b);
}

impl PathSet {
    /// Adds the path shown at position `idx` of the filtered list, if any.
    fn add_shown(&mut self, idx: usize, filtered: &[usize], entries: &[FileEntry])
        requires
            old(self).wf(),
        ensures
            final(self).wf(),
            final(self).view() == match shown_at(filtered@, entries@, idx as int) {
                Some(c) => old(self).view().insert(c),
                None => old(self).view(),
            },
    {
        if idx < filtered.len() {
            let e = filtered[idx];
            if e < entries.len() {
                self.insert(entries[e].path.clone());
            }
        }
    }

    /// What the rubber band selects: exactly the paths shown in rows
    /// `r0..=r1` and columns `c0..=c1` of a grid `columns` wide (a list is
    /// one column wide). The row, column and grid sizes come from the
    /// band's geometry.
    pub fn select_band(
        &mut self,
        r0: usize,
        r1: usize,
        c0: usize,
        c1: usize,
        columns: usize,
        filtered: &[usize],
        entries: &[FileEntry],
    )
        ensures
            final(self).wf(),
            final(self).view() == shown_in_band(
                filtered@,
                entries@,
                r0 as int,
                r1 as int,
                c0 as int,
                c1 as int,
                columns as int,
            ),
    {
        self.clear();
        let len = filtered.len();
        let r_last = if columns == 0 {
            if r1 < r0 {
                r1
            } else {
                r0
            }
        } else if r1 < len {
            r1
        } else {
            len
        };
        let c_last = if c1 < len {
            c1
        } else {
            len
        };
        let ghost fs = filtered@;
        let ghost es = entries@;
        proof {
            lemma_band_cap(fs, es, r0 as int, r1 as int, c0 as int, c1 as int, columns as int, r_last as int, c_last as int);
        }
        if r0 > r_last || c0 > c_last {
            assert(shown_in_band(fs, es, r0 as int, r_last as int, c0 as int, c_last as int, columns as int) =~= Set::<Seq<SpecComp>>::empty());
            return;
        }
        let mut r = r0;
        let mut rows_done = false;
        assert(shown_in_band(fs, es, r0 as int, r0 - 1, c0 as int, c_last as int, columns as int) =~= Set::<Seq<SpecComp>>::empty());
        while !rows_done
            invariant
                fs == filtered@,
                es == entries@,
                len == filtered@.len(),
                r0 <= r <= r_last,
                c0 <= c_last,
                self.wf(),
                rows_done ==> self.view() == shown_in_band(fs, es, r0 as int, r_last as int, c0 as int, c_last as int, columns as int),
                !rows_done ==> self.view() == shown_in_band(fs, es, r0 as int, r - 1, c0 as int, c_last as int, columns as int),
            decreases r_last - r + (if rows_done { 0int } else { 1int }),
        {
            let ghost base = self.view();
            let mut k = c0;
            let mut cols_done = false;
            assert(shown_in_row(fs, es, r as int, c0 as int, c0 - 1, columns as int) =~= Set::<Seq<SpecComp>>::empty());
            assert(base.union(Set::<Seq<SpecComp>>::empty()) =~= base);
            while !cols_done
                invariant
                    fs == filtered@,
                    es == entries@,
                    len == filtered@.len(),
                    c0 <= k <= c_last,
                    self.wf(),
                    cols_done ==> self.view() == base.union(shown_in_row(fs, es, r as int, c0 as int, c_last as int, columns as int)),
                    !cols_done ==> self.view() == base.union(shown_in_row(fs, es, r as int, c0 as int, k - 1, columns as int)),
                decreases c_last - k + (if cols_done { 0int } else { 1int }),
            {
                let ghost before = self.view();
                let ghost idx_int = r * columns + k;
                match r.checked_mul(columns) {
                    Some(b) => match b.checked_add(k) {
                        Some(idx) => {
                            self.add_shown(idx, filtered, entries);
                        },
                        None => {
                            assert(shown_at(fs, es, idx_int) is None);
                        },
                    },
                    None => {
                        assert(r * columns + k >= r * columns);
                        assert(shown_at(fs, es, idx_int) is None);
                    },
                }
                assert(self.view() == match shown_at(fs, es, idx_int) {
                    Some(c) => before.insert(c),
                    None => before,
                });
                assert(shown_in_row(fs, es, r as int, c0 as int, k as int, columns as int) =~= match shown_at(fs, es, idx_int) {
                    Some(c) => shown_in_row(fs, es, r as int, c0 as int, k - 1, columns as int).insert(c),
                    None => shown_in_row(fs, es, r as int, c0 as int, k - 1, columns as int),
                });
                assert(self.view() =~= base.union(shown_in_row(fs, es, r as int, c0 as int, k as int, columns as int)));
                if k == c_last {
                    cols_done = true;
                } else {
                    k = k + 1;
                }
            }
            proof {
                lemma_band_extend(fs, es, r0 as int, r as int, c0 as int, c_last as int, columns as int);
            }
            if r == r_last {
                rows_done = true;
            } else {
                r = r + 1;
            }
        }
    }

    /// A click on the row at position `idx` of the filtered list, which
    /// shows `path`. With Shift, after an earlier click, everything shown
    /// between the two rows joins the selection. Otherwise, with Ctrl, the
    /// path is toggled. Otherwise a path outside the selection becomes the
    /// whole selection, and one inside leaves it as it is. Returns the row
    /// that counts as clicked last.
    pub fn press(
        &mut self,
        idx: usize,
        path: String,
        shift: bool,
        ctrl: bool,
        last_clicked: Option<usize>,
        filtered: &[usize],
        entries: &[FileEntry],
    ) -> (last: Option<usize>)
        requires
            old(self).wf(),
        ensures
            final(self).wf(),
            shift && last_clicked is Some ==> {
                let l = last_clicked->Some_0;
                let lo = if l < idx { l } else { idx };
                let hi = if l < idx { idx } else { l };
                &&& final(self).view() == old(self).view().union(shown_between(filtered@, entries@, lo as int, hi as int))
                &&& last == last_clicked
            },
            !(shift && last_clicked is Some) && ctrl ==> {
                &&& final(self).view() == toggled(old(self).view(), components(path@))
                &&& last == Some(idx)
            },
            !(shift && last_clicked is Some) && !ctrl ==> if old(self).view().contains(components(path@)) {
                final(self).view() == old(self).view() && last == last_clicked
            } else {
                final(self).view() == set![components(path@)] && last == Some(idx)
            },
    {
        if shift && last_clicked.is_some() {
            let l = last_clicked.unwrap();
            let lo = if l < idx { l } else { idx };
            let hi = if l < idx { idx } else { l };
            let len = filtered.len();
            let end = if hi < len { hi + 1 } else { len };
            let ghost start = self.view();
            let ghost fs = filtered@;
            let ghost es = entries@;
            assert(shown_between(fs, es, lo as int, lo - 1) =~= Set::<Seq<SpecComp>>::empty());
            assert(start.union(Set::<Seq<SpecComp>>::empty()) =~= start);
            let mut i = lo;
            while i < end
                invariant
                    fs == filtered@,
                    es == entries@,
                    lo <= hi,
                    lo <= i,
                    i <= end || end < lo,
                    end <= hi + 1,
                    self.wf(),
                    self.view() == start.union(shown_between(fs, es, lo as int, i - 1)),
                decreases end - i,
            {
                let ghost before = self.view();
                self.add_shown(i, filtered, entries);
                assert(shown_between(fs, es, lo as int, i as int) =~= match shown_at(fs, es, i as int) {
                    Some(c) => shown_between(fs, es, lo as int, i - 1).insert(c),
                    None => shown_between(fs, es, lo as int, i - 1),
                });
                assert(self.view() =~= start.union(shown_between(fs, es, lo as int, i as int)));
                i = i + 1;
            }
            proof {
                assert forall|c: Seq<SpecComp>| shown_between(fs, es, lo as int, hi as int).contains(c)
                    implies shown_between(fs, es, lo as int, i - 1).contains(c) by {
                    let j = choose|j: int| lo <= j <= hi && #[trigger] shown_at(fs, es, j) == Some(c);
                    assert(j < len);
                    assert(shown_at(fs, es, j) == Some(c));
                }
                assert forall|c: Seq<SpecComp>| shown_between(fs, es, lo as int, i - 1).contains(c)
                    implies shown_between(fs, es, lo as int, hi as int).contains(c) by {
                    let j = choose|j: int| lo <= j <= i - 1 && #[trigger] shown_at(fs, es, j) == Some(c);
                    assert(shown_at(fs, es, j) == Some(c));
                }
                assert(shown_between(fs, es, lo as int, hi as int) =~= shown_between(fs, es, lo as int, i - 1));
            }
            last_clicked
        } else if ctrl {
            if !self.insert(path.clone()) {
                self.remove(path.as_str());
                assert(old(self).view().insert(components(path@)).remove(components(path@)) =~= old(self).view().remove(components(path@)));
            }
            Some(idx)
        } else if !self.contains(path.as_str()) {
            self.clear();
            self.insert(path);
            assert(Set::<Seq<SpecComp>>::empty().insert(components(path@)) =~= set![components(path@)]);
            Some(idx)
        } else {
            last_clicked
        }
    }
}

/// The entry shown at position `idx` of the filtered list, if there is one.
pub fn entry_shown_at<'a>(idx: usize, filtered: &[usize], entries: &'a [FileEntry]) -> (r: Option<&'a FileEntry>)
    ensures
        r is Some <==> (idx < filtered@.len() && filtered@[idx as int] < entries@.len()),
        r matches Some(e) ==> *e == entries@[filtered@[idx as int] as int],
{
    if idx < filtered.len() {
        let e = filtered[idx];
        if e < entries.len() {
            return Some(&entries[e]);
        }
    }
    None
}

/// Where dragged files land when released over the entry at position
/// `idx`: that entry's path when it is a directory.
pub fn drop_dir_at(idx: usize, filtered: &[usize], entries: &[FileEntry]) -> (r: Option<String>)
    ensures
        r is Some <==> (idx < filtered@.len() && filtered@[idx as int] < entries@.len()
            && entries@[filtered@[idx as int] as int].is_dir),
        r matches Some(p) ==> p@ == entries@[filtered@[idx as int] as int].path@,
{
    match entry_shown_at(idx, filtered, entries) {
        Some(e) => if e.is_dir {
            Some(e.path.clone())
        } else {
            None
        },
        None => None,
    }
}

/// Whether dragged items may be moved into `dest`: it is a directory, not
/// the one shown, and not itself among the dragged (selected) items.
pub fn accepts_drop(dest: &str, dest_is_dir: bool, current_dir: &str, selection: &PathSet) -> (b: bool)
    ensures
        b == (dest_is_dir && !same_path(dest@, current_dir@) && !selection.view().contains(
            components(dest@),
        )),
{
    dest_is_dir && !paths_equal(dest, current_dir) && !selection.contains(dest)
}

impl PathSet {
    /// After the keyboard cursor moved to position `idx`: without Ctrl or
    /// Shift, the entry shown there becomes the whole selection.
    pub fn focus(&mut self, idx: usize, ctrl: bool, shift: bool, filtered: &[usize], entries: &[FileEntry])
        requires
            old(self).wf(),
        ensures
            final(self).wf(),
            !ctrl && !shift && shown_at(filtered@, entries@, idx as int) is Some ==> final(self).view()
                == set![shown_at(filtered@, entries@, idx as int)->Some_0],
            !(!ctrl && !shift && shown_at(filtered@, entries@, idx as int) is Some) ==> final(self).view()
                == old(self).view(),
    {
        if !ctrl && !shift {
            match entry_shown_at(idx, filtered, entries) {
                Some(e) => {
                    self.clear();
                    self.insert(e.path.clone());
                    assert(Set::<Seq<SpecComp>>::empty().insert(components(e.path@)) =~= set![components(e.path@)]);
                },
                None => {},
            }
        }
    }
}

} // verus!
