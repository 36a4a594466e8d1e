//! What the file list shows and in which order: hidden files, search
//! (fuzzy or by regular expression, scored), and sorting by a column with
//! directories first.
use std::cmp::Ordering;

use rayon::slice::ParallelSliceMut;
use vstd::prelude::*;

use crate::matching::{regex_matches, regex_new, skim_score, NameMatcher, SearchRegex};
use crate::math::{bytes_label, format_bytes};
use crate::mime::{mime_icon, mime_of_path, resolve_icon};
use crate::paths::{file_name, file_name_of, is_parent_of, parent_is};
use crate::text::{all_ws, chars_of, is_blank, truncate_text, truncated};
use crate::types::{FileEntry, SortDirection, SortKey};

verus! {

broadcast use vstd::seq_lib::group_to_multiset_ensures;

/// Three-way comparison of integers: -1, 0 or 1.
pub open spec fn int_order(x: int, y: int) -> int {
    if x < y {
        -1
    } else if x > y {
        1
    } else {
        0
    }
}

/// Lexicographic order of names by code point, -1, 0 or 1. (Names are
/// compared as `str` values, byte by byte in UTF-8, which orders them as
/// their code points do.)
pub open spec fn name_order(a: Seq<char>, b: Seq<char>) -> int
    decreases a.len(),
{
    if a.len() == 0 {
        if b.len() == 0 {
            0
        } else {
            -1
        }
    } else if b.len() == 0 {
        1
    } else if a[0] < b[0] {
        -1
    } else if a[0] > b[0] {
        1
    } else {
        name_order(a.drop_first(), b.drop_first())
    }
}

pub proof fn lemma_name_order_antisym(a: Seq<char>, b: Seq<char>)
    ensures
        name_order(a, b) == -name_order(b, a),
        -1 <= name_order(a, b) <= 1,
    decreases a.len(),
{
    if a.len() > 0 && b.len() > 0 && a[0] == b[0] {
        lemma_name_order_antisym(a.drop_first(), b.drop_first());
    }
}

pub proof fn lemma_name_order_refl(a: Seq<char>)
    ensures
        name_order(a, a) == 0,
    decreases a.len(),
{
    if a.len() > 0 {
        lemma_name_order_refl(a.drop_first());
    }
}

pub proof fn lemma_name_order_trans(a: Seq<char>, b: Seq<char>, c: Seq<char>)
    requires
        name_order(a, b) <= 0,
        name_order(b, c) <= 0,
    ensures
        name_order(a, c) <= 0,
    decreases a.len(),
{
    if a.len() > 0 && b.len() > 0 && c.len() > 0 && a[0] == b[0] && b[0] == c[0] {
        lemma_name_order_trans(a.drop_first(), b.drop_first(), c.drop_first());
    }
}

/// Whether directories come first: directories before files.
pub open spec fn dir_order(a: FileEntry, b: FileEntry) -> int {
    int_order(if b.is_dir { 1 } else { 0 }, if a.is_dir { 1 } else { 0 })
}

/// The order of two entries by the sort column, in the sort direction.
pub open spec fn column_order(a: FileEntry, b: FileEntry, key: SortKey, dir: SortDirection) -> int {
    let primary = match key {
        SortKey::Name => name_order(a.name@, b.name@),
        SortKey::Size => int_order(a.size_bytes as int, b.size_bytes as int),
        SortKey::Modified => int_order(a.modified as int, b.modified as int),
    };
    if dir == SortDirection::Asc {
        primary
    } else {
        -primary
    }
}

/// The order of two (score, index) pairs in the listing: directories first;
/// then, while searching, the higher score; then the sort column.
pub open spec fn rank_order(
    es: Seq<FileEntry>,
    key: SortKey,
    dir: SortDirection,
    searching: bool,
    a: (i64, usize),
    b: (i64, usize),
) -> int {
    let ea = es[a.1 as int];
    let eb = es[b.1 as int];
    let dc = dir_order(ea, eb);
    if dc != 0 {
        dc
    } else if searching && int_order(b.0 as int, a.0 as int) != 0 {
        int_order(b.0 as int, a.0 as int)
    } else {
        column_order(ea, eb, key, dir)
    }
}

/// `rank_order` is a total preorder on pairs that index `es`.
pub open spec fn rank_is_total(
    es: Seq<FileEntry>,
    key: SortKey,
    dir: SortDirection,
    searching: bool,
) -> bool {
    &&& forall|a: (i64, usize), b: (i64, usize)|
        a.1 < es.len() && b.1 < es.len() ==> #[trigger] rank_order(es, key, dir, searching, a, b)
            == -rank_order(es, key, dir, searching, b, a)
    &&& forall|a: (i64, usize), b: (i64, usize), c: (i64, usize)|
        a.1 < es.len() && b.1 < es.len() && c.1 < es.len() && #[trigger] rank_order(
            es,
            key,
            dir,
            searching,
            a,
            b,
        ) <= 0 && #[trigger] rank_order(es, key, dir, searching, b, c) <= 0 ==> rank_order(
            es,
            key,
            dir,
            searching,
            a,
            c,
        ) <= 0
}

proof fn lemma_column_order(a: FileEntry, b: FileEntry, c: FileEntry, key: SortKey, dir: SortDirection)
    ensures
        column_order(a, b, key, dir) == -column_order(b, a, key, dir),
        column_order(a, a, key, dir) == 0,
        column_order(a, b, key, dir) <= 0 && column_order(b, c, key, dir) <= 0 ==> column_order(
            a,
            c,
            key,
            dir,
        ) <= 0,
{
    lemma_name_order_antisym(a.name@, b.name@);
    lemma_name_order_refl(a.name@);
    if key == SortKey::Name {
        if dir == SortDirection::Asc {
            if name_order(a.name@, b.name@) <= 0 && name_order(b.name@, c.name@) <= 0 {
                lemma_name_order_trans(a.name@, b.name@, c.name@);
            }
        } else {
            lemma_name_order_antisym(b.name@, c.name@);
            lemma_name_order_antisym(a.name@, c.name@);
            if name_order(c.name@, b.name@) <= 0 && name_order(b.name@, a.name@) <= 0 {
                lemma_name_order_trans(c.name@, b.name@, a.name@);
            }
        }
    }
}

/// The listing order is a total preorder.
pub proof fn lemma_rank_is_total(
    es: Seq<FileEntry>,
    key: SortKey,
    dir: SortDirection,
    searching: bool,
)
    ensures
        rank_is_total(es, key, dir, searching),
{
    assert forall|a: (i64, usize), b: (i64, usize)|
        a.1 < es.len() && b.1 < es.len() implies #[trigger] rank_order(
        es,
        key,
        dir,
        searching,
        a,
        b,
    ) == -rank_order(es, key, dir, searching, b, a) by {
        lemma_column_order(es[a.1 as int], es[b.1 as int], es[b.1 as int], key, dir);
    }
    assert forall|a: (i64, usize), b: (i64, usize), c: (i64, usize)|
        a.1 < es.len() && b.1 < es.len() && c.1 < es.len() && #[trigger] rank_order(
            es,
            key,
            dir,
            searching,
            a,
            b,
        ) <= 0 && #[trigger] rank_order(es, key, dir, searching, b, c) <= 0 implies rank_order(
        es,
        key,
        dir,
        searching,
        a,
        c,
    ) <= 0 by {
        lemma_column_order(es[a.1 as int], es[b.1 as int], es[c.1 as int], key, dir);
    }
}

fn int_order_u64(x: u64, y: u64) -> (r: i8)
    ensures
        r == int_order(x as int, y as int),
{
    if x < y {
        -1
    } else if x > y {
        1
    } else {
        0
    }
}

fn int_order_i128(x: i128, y: i128) -> (r: i8)
    ensures
        r == int_order(x as int, y as int),
{
    if x < y {
        -1
    } else if x > y {
        1
    } else {
        0
    }
}

fn int_order_i64(x: i64, y: i64) -> (r: i8)
    ensures
        r == int_order(x as int, y as int),
{
    if x < y {
        -1
    } else if x > y {
        1
    } else {
        0
    }
}

/// Compares two names as [`name_order`] does.
pub fn compare_names(a: &str, b: &str) -> (r: i8)
    ensures
        r == name_order(a@, b@),
{
    let x = chars_of(a);
    let y = chars_of(b);
    let n = x.len();
    let m = y.len();
    let mut i: usize = 0;
    assert(x@.skip(0) =~= x@);
    assert(y@.skip(0) =~= y@);
    while i < n && i < m && x[i] == y[i]
        invariant
            n == x@.len(),
            m == y@.len(),
            i <= n,
            i <= m,
            name_order(a@, b@) == name_order(x@.skip(i as int), y@.skip(i as int)),
        decreases n - i,
    {
        proof {
            assert(x@.skip(i as int).drop_first() =~= x@.skip(i + 1));
            assert(y@.skip(i as int).drop_first() =~= y@.skip(i + 1));
            assert(x@.skip(i as int)[0] == y@.skip(i as int)[0]);
        }
        i = i + 1;
    }
    proof {
        if i < n && i < m {
            assert(x@.skip(i as int)[0] == x@[i as int]);
            assert(y@.skip(i as int)[0] == y@[i as int]);
        }
    }
    if i == n {
        if i == m {
            0
        } else {
            -1
        }
    } else if i == m {
        1
    } else if x[i] < y[i] {
        -1
    } else {
        1
    }
}

fn column_order_exec(a: &FileEntry, b: &FileEntry, key: SortKey, dir: SortDirection) -> (r: i8)
    ensures
        r == column_order(*a, *b, key, dir),
{
    proof {
        lemma_name_order_antisym(a.name@, b.name@);
    }
    let primary = match key {
        SortKey::Name => compare_names(a.name.as_str(), b.name.as_str()),
        SortKey::Size => int_order_u64(a.size_bytes, b.size_bytes),
        SortKey::Modified => int_order_i128(a.modified, b.modified),
    };
    match dir {
        SortDirection::Asc => primary,
        SortDirection::Desc => -primary,
    }
}

fn rank_order_exec(
    entries: &[FileEntry],
    key: SortKey,
    direction: SortDirection,
    searching: bool,
    a: &(i64, usize),
    b: &(i64, usize),
) -> (r: i8)
    requires
        a.1 < entries@.len(),
        b.1 < entries@.len(),
    ensures
        r == rank_order(entries@, key, direction, searching, *a, *b),
{
    let ea = &entries[a.1];
    let eb = &entries[b.1];
    let dc: i8 = if eb.is_dir == ea.is_dir {
        0
    } else if eb.is_dir {
        1
    } else {
        -1
    };
    if dc != 0 {
        return dc;
    }
    if searching {
        let s = int_order_i64(b.0, a.0);
        if s != 0 {
            return s;
        }
    }
    column_order_exec(ea, eb, key, direction)
}

/// The listing order of two (score, index) pairs as an `Ordering`.
pub fn compare_ranked(
    entries: &[FileEntry],
    key: SortKey,
    direction: SortDirection,
    searching: bool,
    a: &(i64, usize),
    b: &(i64, usize),
) -> (r: Ordering)
    requires
        a.1 < entries@.len(),
        b.1 < entries@.len(),
    ensures
        (r == Ordering::Less) == (rank_order(entries@, key, direction, searching, *a, *b) < 0),
        (r == Ordering::Equal) == (rank_order(entries@, key, direction, searching, *a, *b) == 0),
        (r == Ordering::Greater) == (rank_order(entries@, key, direction, searching, *a, *b) > 0),
{
    let v = rank_order_exec(entries, key, direction, searching, a, b);
    if v < 0 {
        Ordering::Less
    } else if v == 0 {
        Ordering::Equal
    } else {
        Ordering::Greater
    }
}

/// Sorts (score, index) pairs with rayon's stable parallel merge sort
/// (`ParallelSliceMut::par_sort_by`), comparing with [`compare_ranked`]. The
/// contract claims what rayon's documentation promises for a comparator that
/// is a total order: the result is a permutation, in non-descending order, and
/// equal pairs keep their relative order (here: ascending index).
#[verifier::external_body]
fn sort_ranked(
    pairs: &mut Vec<(i64, usize)>,
    entries: &[FileEntry],
    key: SortKey,
    direction: SortDirection,
    searching: bool,
)
    requires
        forall|i: int| 0 <= i < old(pairs)@.len() ==> (#[trigger] old(pairs)@[i]).1 < entries@.len(),
        forall|i: int, j: int|
            0 <= i < j < old(pairs)@.len() ==> (#[trigger] old(pairs)@[i]).1 < (
            #[trigger] old(pairs)@[j]).1,
        rank_is_total(entries@, key, direction, searching),
    ensures
        final(pairs)@.to_multiset() == old(pairs)@.to_multiset(),
        forall|i: int, j: int|
            0 <= i < j < final(pairs)@.len() ==> rank_order(
                entries@,
                key,
                direction,
                searching,
                #[trigger] final(pairs)@[i],
                #[trigger] final(pairs)@[j],
            ) <= 0,
        forall|i: int, j: int|
            0 <= i < j < final(pairs)@.len() && rank_order(
                entries@,
                key,
                direction,
                searching,
                #[trigger] final(pairs)@[i],
                #[trigger] final(pairs)@[j],
            ) == 0 ==> final(pairs)@[i].1 < final(pairs)@[j].1,
{
    pairs.par_sort_by(|a, b| compare_ranked(entries, key, direction, searching, a, b));
}

/// The query holds something other than white space.
pub open spec fn is_searching(query: Seq<char>) -> bool {
    !all_ws(query)
}

/// The name is hidden (starts with a dot) and hidden files are not shown.
pub open spec fn hidden(name: Seq<char>, show_hidden: bool) -> bool {
    !show_hidden && name.len() > 0 && name[0] == '.'
}

/// The listing's search settings.
pub struct SearchSettings {
    pub query: String,
    pub is_regex: bool,
    pub search_deep: bool,
    pub show_hidden: bool,
    pub sort_key: SortKey,
    pub sort_direction: SortDirection,
}

/// The regular expression is in use: regex search is on, the query is not
/// blank, and it compiles.
pub open spec fn regex_active(s: SearchSettings) -> bool {
    s.is_regex && is_searching(s.query@) && regex_new(s.query@) is Ok
}

/// The score of an entry in the listing, or `None` when it is left out.
/// Hidden entries are left out. Without a search every entry scores 0.
/// A deep search keeps every entry it was given (it already filtered them):
/// 100 each with a regular expression, else the fuzzy score (0 when the
/// fuzzy matcher rejects it). A shallow search keeps the entries that the
/// regular expression matches (score 100), or, without one, those that the
/// fuzzy matcher accepts, with its score.
pub open spec fn entry_score(name: Seq<char>, s: SearchSettings) -> Option<i64> {
    if hidden(name, s.show_hidden) {
        None
    } else if !is_searching(s.query@) {
        Some(0)
    } else if s.search_deep {
        if regex_active(s) {
            Some(100)
        } else {
            match skim_score(name, s.query@) {
                Some(v) => Some(v),
                None => Some(0),
            }
        }
    } else if regex_active(s) {
        if regex_matches(s.query@, name) {
            Some(100)
        } else {
            None
        }
    } else {
        skim_score(name, s.query@)
    }
}

/// The (score, index) pairs of the kept entries among the first `n`, in
/// index order.
pub open spec fn scored_upto(es: Seq<FileEntry>, s: SearchSettings, n: nat) -> Seq<(i64, usize)>
    decreases n,
{
    if n == 0 {
        Seq::empty()
    } else {
        let prev = scored_upto(es, s, (n - 1) as nat);
        match entry_score(es[n - 1].name@, s) {
            Some(v) => prev.push((v, (n - 1) as usize)),
            None => prev,
        }
    }
}

proof fn lemma_scored_upto(es: Seq<FileEntry>, s: SearchSettings, n: nat)
    requires
        n <= es.len(),
        es.len() <= usize::MAX,
    ensures
        forall|i: int|
            0 <= i < scored_upto(es, s, n).len() ==> (#[trigger] scored_upto(es, s, n)[i]).1 < n,
        forall|i: int, j: int|
            0 <= i < j < scored_upto(es, s, n).len() ==> (#[trigger] scored_upto(es, s, n)[i]).1 < (
            #[trigger] scored_upto(es, s, n)[j]).1,
        forall|p: (i64, usize)|
            scored_upto(es, s, n).contains(p) <==> (p.1 < n && entry_score(es[p.1 as int].name@, s)
                == Some(p.0)),
    decreases n,
{
    if n > 0 {
        lemma_scored_upto(es, s, (n - 1) as nat);
        let prev = scored_upto(es, s, (n - 1) as nat);
        let cur = scored_upto(es, s, n);
        assert forall|p: (i64, usize)| cur.contains(p) <==> (p.1 < n && entry_score(
            es[p.1 as int].name@,
            s,
        ) == Some(p.0)) by {
            match entry_score(es[n - 1].name@, s) {
                Some(v) => {
                    if cur.contains(p) {
                        let k = choose|k: int| 0 <= k < cur.len() && cur[k] == p;
                        if k < prev.len() {
                            assert(prev.contains(p));
                        }
                    }
                    if p.1 < n && entry_score(es[p.1 as int].name@, s) == Some(p.0) {
                        if p.1 == n - 1 {
                            assert(cur[cur.len() - 1] == p);
                        } else {
                            assert(prev.contains(p));
                            let k = choose|k: int| 0 <= k < prev.len() && prev[k] == p;
                            assert(cur[k] == p);
                        }
                    }
                },
                None => {},
            }
        }
    }
}

/// The index of each kept entry, in listing order.
pub open spec fn pair_of(es: Seq<FileEntry>, s: SearchSettings, k: usize) -> (i64, usize) {
    (entry_score(es[k as int].name@, s)->Some_0, k)
}

/// Ranks entries for display: the indices of the entries that the listing
/// shows, each once, ordered by [`rank_order`] and then by index (the sort is
/// stable).
pub fn rank_entries(entries: &[FileEntry], settings: &SearchSettings, matcher: &NameMatcher) -> (r:
    Vec<usize>)
    ensures
        forall|k: usize|
            r@.contains(k) <==> (k < entries@.len() && entry_score(entries@[k as int].name@, *settings)
                is Some),
        forall|i: int, j: int|
            0 <= i < j < r@.len() ==> {
                let o = rank_order(
                    entries@,
                    settings.sort_key,
                    settings.sort_direction,
                    is_searching(settings.query@),
                    pair_of(entries@, *settings, #[trigger] r@[i]),
                    pair_of(entries@, *settings, #[trigger] r@[j]),
                );
                o < 0 || (o == 0 && r@[i] < r@[j])
            },
{
    let q = settings.query.as_str();
    let qv = chars_of(q);
    let searching = !is_blank(&qv);
    let rx: Option<SearchRegex> = if settings.is_regex && searching {
        match SearchRegex::compile(q) {
            Ok(r) => Some(r),
            Err(_) => None,
        }
    } else {
        None
    };
    let ghost s = *settings;
    let n = entries.len();
    let mut pairs: Vec<(i64, usize)> = Vec::new();
    for i in 0..n
        invariant
            n == entries@.len(),
            s == *settings,
            searching == is_searching(s.query@),
            q@ == s.query@,
            rx is Some <==> regex_active(s),
            rx matches Some(re) ==> re.pattern() == s.query@,
            pairs@ == scored_upto(entries@, s, i as nat),
    {
        let name = entries[i].name.as_str();
        let nv = chars_of(name);
        let is_hidden = !settings.show_hidden && nv.len() > 0 && nv[0] == '.';
        let score: Option<i64> = if is_hidden {
            None
        } else if !searching {
            Some(0)
        } else if settings.search_deep {
            match &rx {
                Some(_) => Some(100),
                None => match matcher.score(name, q) {
                    Some(v) => Some(v),
                    None => Some(0),
                },
            }
        } else {
            match &rx {
                Some(re) => {
                    if re.is_match(name) {
                        Some(100)
                    } else {
                        None
                    }
                },
                None => matcher.score(name, q),
            }
        };
        proof {
            let e = entries@[i as int];
            assert(nv@ == e.name@);
            assert(is_hidden == hidden(e.name@, s.show_hidden));
        }
        assert(score == entry_score(entries@[i as int].name@, s));
        match score {
            Some(v) => pairs.push((v, i)),
            None => {},
        }
    }
    proof {
        lemma_scored_upto(entries@, s, n as nat);
        lemma_rank_is_total(entries@, settings.sort_key, settings.sort_direction, searching);
    }
    let ghost before = pairs@;
    sort_ranked(&mut pairs, entries, settings.sort_key, settings.sort_direction, searching);
    let ghost after = pairs@;
    let m = pairs.len();
    let mut out: Vec<usize> = Vec::new();
    for j in 0..m
        invariant
            m == pairs@.len(),
            pairs@ == after,
            out@.len() == j,
            forall|t: int| 0 <= t < j ==> out@[t] == after[t].1,
    {
        out.push(pairs[j].1);
    }
    proof {
        assert forall|t: int| 0 <= t < after.len() implies #[trigger] pair_of(entries@, s, after[t].1)
            == after[t] by {
            assert(after.to_multiset().count(after[t]) > 0);
            assert(before.contains(after[t]));
        }
        assert forall|k: usize| out@.contains(k) <==> (k < entries@.len() && entry_score(
            entries@[k as int].name@,
            s,
        ) is Some) by {
            if out@.contains(k) {
                let t = choose|t: int| 0 <= t < out@.len() && out@[t] == k;
                assert(after.to_multiset().count(after[t]) > 0);
                assert(before.contains(after[t]));
            }
            if k < entries@.len() && entry_score(entries@[k as int].name@, s) is Some {
                let p = (entry_score(entries@[k as int].name@, s)->Some_0, k);
                assert(before.contains(p));
                assert(after.to_multiset().count(p) > 0);
                let t = choose|t: int| 0 <= t < after.len() && after[t] == p;
                assert(out@[t] == k);
            }
        }
        assert forall|i: int, j: int| 0 <= i < j < out@.len() implies {
            let o = rank_order(
                entries@,
                s.sort_key,
                s.sort_direction,
                searching,
                pair_of(entries@, s, #[trigger] out@[i]),
                pair_of(entries@, s, #[trigger] out@[j]),
            );
            o < 0 || (o == 0 && out@[i] < out@[j])
        } by {
            assert(pair_of(entries@, s, after[i].1) == after[i]);
            assert(pair_of(entries@, s, after[j].1) == after[j]);
        }
    }
    out
}

/// The regular expression that a search uses: compiled from the query when
/// regex search is on and the query is not blank; `None` otherwise and when
/// the query does not compile (search then falls back to fuzzy matching).
pub fn search_regex(settings: &SearchSettings) -> (r: Option<SearchRegex>)
    ensures
        r is Some <==> regex_active(*settings),
        r matches Some(re) ==> re.pattern() == settings.query@,
{
    let q = settings.query.as_str();
    let qv = chars_of(q);
    if settings.is_regex && !is_blank(&qv) {
        match SearchRegex::compile(q) {
            Ok(r) => Some(r),
            Err(_) => None,
        }
    } else {
        None
    }
}

/// Whether a deep search keeps an entry that it walked past: it is not
/// hidden, and the regular expression (when there is one) or else the fuzzy
/// matcher accepts its name.
pub open spec fn deep_keeps(
    name: Seq<char>,
    show_hidden: bool,
    query: Seq<char>,
    rx: Option<Seq<char>>,
) -> bool {
    !hidden(name, show_hidden) && match rx {
        Some(p) => regex_matches(p, name),
        None => skim_score(name, query) is Some,
    }
}

/// Decides whether a deep search keeps the entry called `name`, as
/// [`deep_keeps`] states.
pub fn deep_search_keeps(
    name: &str,
    settings: &SearchSettings,
    rx: &Option<SearchRegex>,
    matcher: &NameMatcher,
) -> (b: bool)
    ensures
        b == deep_keeps(
            name@,
            settings.show_hidden,
            settings.query@,
            match rx {
                Some(re) => Some(re.pattern()),
                None => None,
            },
        ),
{
    let nv = chars_of(name);
    if !settings.show_hidden && nv.len() > 0 && nv[0] == '.' {
        return false;
    }
    match rx {
        Some(re) => re.is_match(name),
        None => matcher.score(name, settings.query.as_str()).is_some(),
    }
}

/// Whether the listing must be reloaded before it is shown without a search:
/// some entry is not directly inside `root_dir` (left over from a deep search).
pub fn needs_refresh(entries: &[FileEntry], root_dir: &str) -> (b: bool)
    ensures
        b == exists|i: int| 0 <= i < entries@.len() && !parent_is(#[trigger] entries@[i].path@, root_dir@),
{
    let n = entries.len();
    for i in 0..n
        invariant
            n == entries@.len(),
            forall|j: int| 0 <= j < i ==> parent_is(#[trigger] entries@[j].path@, root_dir@),
    {
        if !is_parent_of(root_dir, entries[i].path.as_str()) {
            return true;
        }
    }
    false
}

/// The sort that clicking the header of column `clicked` selects: the same
/// column again flips the direction; another column sorts by it, ascending.
pub open spec fn next_sort(key: SortKey, dir: SortDirection, clicked: SortKey) -> (SortKey, SortDirection) {
    if key == clicked {
        (key, if dir == SortDirection::Asc { SortDirection::Desc } else { SortDirection::Asc })
    } else {
        (clicked, SortDirection::Asc)
    }
}

/// Applies a click on a column header, as [`next_sort`] states.
pub fn sort_by(key: SortKey, dir: SortDirection, clicked: SortKey) -> (r: (SortKey, SortDirection))
    ensures
        r == next_sort(key, dir, clicked),
{
    if key == clicked {
        (key, if dir == SortDirection::Asc { SortDirection::Desc } else { SortDirection::Asc })
    } else {
        (clicked, SortDirection::Asc)
    }
}

/// The name under which an entry is listed: the final component of its path,
/// or empty.
pub open spec fn entry_name(path: Seq<char>) -> Seq<char> {
    match file_name(path) {
        Some(n) => n,
        None => Seq::empty(),
    }
}

/// Builds the listing row of a file from what its metadata says. The
/// formatted date and the (translated) type label come from the caller.
pub fn create_entry(
    path: &str,
    is_dir: bool,
    size_bytes: u64,
    modified: i128,
    modified_str: String,
    file_type_str: String,
) -> (e: FileEntry)
    ensures
        e.path@ == path@,
        e.name@ == entry_name(path@),
        e.grid_name@ == truncated(entry_name(path@), 10),
        e.is_dir == is_dir,
        e.size_bytes == size_bytes,
        e.modified == modified,
        e.size_str@ == (if is_dir { "--"@ } else { bytes_label(size_bytes as nat) }),
        e.modified_str == modified_str,
        e.file_type_str == file_type_str,
        e.icon_name@ == mime_icon(is_dir, mime_of_path(path@)),
{
    let name = match file_name_of(path) {
        Some(n) => n,
        None => String::new(),
    };
    let grid_name = truncate_text(name.as_str(), 10);
    let size_str = if is_dir {
        String::from_str("--")
    } else {
        format_bytes(size_bytes)
    };
    FileEntry {
        path: String::from_str(path),
        name,
        grid_name,
        is_dir,
        size_bytes,
        modified,
        size_str,
        modified_str,
        file_type_str,
        icon_name: resolve_icon(path, is_dir),
    }
}

/// The order of a freshly read directory: directories first, then by name.
pub open spec fn dir_then_name(a: FileEntry, b: FileEntry) -> int {
    let d = dir_order(a, b);
    if d != 0 {
        d
    } else {
        name_order(a.name@, b.name@)
    }
}

/// The order in which a directory's entries are kept once read: the index
/// of every entry once, directories first, then by name; entries that
/// compare equal keep their order (the sort is stable).
pub fn directory_order(entries: &[FileEntry]) -> (order: Vec<usize>)
    ensures
        order@.len() == entries@.len(),
        forall|k: usize| order@.contains(k) <==> k < entries@.len(),
        forall|i: int, j: int|
            0 <= i < j < order@.len() ==> {
                let o = dir_then_name(
                    entries@[#[trigger] order@[i] as int],
                    entries@[#[trigger] order@[j] as int],
                );
                o < 0 || (o == 0 && order@[i] < order@[j])
            },
{
    let n = entries.len();
    let mut pairs: Vec<(i64, usize)> = Vec::new();
    for i in 0..n
        invariant
            n == entries@.len(),
            pairs@.len() == i,
            forall|t: int| 0 <= t < i ==> #[trigger] pairs@[t] == (0i64, t as usize),
    {
        pairs.push((0, i));
    }
    proof {
        lemma_rank_is_total(entries@, SortKey::Name, SortDirection::Asc, false);
    }
    let ghost before = pairs@;
    sort_ranked(&mut pairs, entries, SortKey::Name, SortDirection::Asc, false);
    let ghost after = pairs@;
    proof {
        assert(after.to_multiset().len() == before.to_multiset().len());
        after.to_multiset_ensures();
        before.to_multiset_ensures();
    }
    let m = pairs.len();
    let mut out: Vec<usize> = Vec::new();
    for j in 0..m
        invariant
            m == pairs@.len(),
            pairs@ == after,
            out@.len() == j,
            forall|t: int| 0 <= t < j ==> out@[t] == after[t].1,
    {
        out.push(pairs[j].1);
    }
    proof {
        assert forall|t: int| 0 <= t < after.len() implies #[trigger] after[t] == (0i64, after[t].1)
            && after[t].1 < n by {
            assert(after.to_multiset().count(after[t]) > 0);
            assert(before.contains(after[t]));
        }
        assert forall|k: usize| out@.contains(k) <==> k < entries@.len() by {
            if out@.contains(k) {
                let t = choose|t: int| 0 <= t < out@.len() && out@[t] == k;
                assert(after[t] == (0i64, after[t].1));
            }
            if k < entries@.len() {
                assert(before[k as int] == (0i64, k));
                assert(after.to_multiset().count((0i64, k)) > 0);
                let t = choose|t: int| 0 <= t < after.len() && after[t] == (0i64, k);
                assert(out@[t] == k);
            }
        }
        assert forall|i: int, j: int| 0 <= i < j < out@.len() implies {
            let o = dir_then_name(
                entries@[#[trigger] out@[i] as int],
                entries@[#[trigger] out@[j] as int],
            );
            o < 0 || (o == 0 && out@[i] < out@[j])
        } by {
            assert(after[i] == (0i64, after[i].1));
            assert(after[j] == (0i64, after[j].1));
            assert(rank_order(entries@, SortKey::Name, SortDirection::Asc, false, after[i], after[j])
                == dir_then_name(entries@[out@[i] as int], entries@[out@[j] as int]));
        }
    }
    out
}


/// The listing puts directories before files; and while searching, of two
/// entries of the same kind the one whose match scores strictly higher
/// comes first, whatever the sort column and direction.
pub proof fn lemma_better_match_first(
    es: Seq<FileEntry>,
    key: SortKey,
    dir: SortDirection,
    searching: bool,
    a: (i64, usize),
    b: (i64, usize),
)
    requires
        a.1 < es.len(),
        b.1 < es.len(),
    ensures
        es[a.1 as int].is_dir && !es[b.1 as int].is_dir ==> rank_order(es, key, dir, searching, a, b)
            < 0,
        searching && es[a.1 as int].is_dir == es[b.1 as int].is_dir && a.0 > b.0 ==> rank_order(
            es,
            key,
            dir,
            searching,
            a,
            b,
        ) < 0,
{
}

} // verus!
