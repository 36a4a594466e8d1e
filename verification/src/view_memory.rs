//! What the window remembers of the directories it left: where the list
//! was scrolled to and where the keyboard cursor stood, for the most
//! recently left directories, in an `lru::LruCache`.
use lru::LruCache;
use vstd::prelude::*;

use crate::paths::{components, lemma_components_valid, lemma_render_components, normalized_text, render};

verus! {

#[verifier::external_type_specification]
#[verifier::external_body]
#[verifier::reject_recursive_types(K)]
#[verifier::reject_recursive_types(V)]
#[verifier::reject_recursive_types(S)]
pub struct ExLruCache<K, V, S>(LruCache<K, V, S>);

#[verifier::external_type_specification]
#[verifier::external_body]
pub struct ExDefaultHasher(lru::DefaultHasher);

/// The entries of a cache, the most recently used first: each key with
/// its value (a scroll offset, as the bits of an `f32`, and a cursor).
pub uninterp spec fn lru_entries(c: LruCache<String, (u32, Option<usize>)>) -> Seq<
    (Seq<char>, (u32, Option<usize>)),
>;

/// The number of entries a cache was made to hold.
pub uninterp spec fn lru_cap(c: LruCache<String, (u32, Option<usize>)>) -> nat;

/// No key occurs twice.
pub open spec fn keys_distinct(es: Seq<(Seq<char>, (u32, Option<usize>))>) -> bool {
    forall|i: int, j: int| 0 <= i < es.len() && 0 <= j < es.len() && i != j ==> es[i].0 != es[j].0
}

/// What holds of every cache: it holds some entries, no more than it was
/// made for, and no key twice.
pub open spec fn lru_ok(c: LruCache<String, (u32, Option<usize>)>) -> bool {
    &&& lru_cap(c) > 0
    &&& lru_entries(c).len() <= lru_cap(c)
    &&& keys_distinct(lru_entries(c))
}

/// Where the key `k` stands among the entries, if it does.
pub open spec fn key_pos(es: Seq<(Seq<char>, (u32, Option<usize>))>, k: Seq<char>) -> Option<int> {
    if exists|i: int| 0 <= i < es.len() && es[i].0 == k {
        Some(choose|i: int| 0 <= i < es.len() && es[i].0 == k)
    } else {
        None
    }
}

/// The value held for `k`.
pub open spec fn lookup(es: Seq<(Seq<char>, (u32, Option<usize>))>, k: Seq<char>) -> Option<
    (u32, Option<usize>),
> {
    match key_pos(es, k) {
        Some(i) => Some(es[i].1),
        None => None,
    }
}

/// The entries after `put(k, v)` on a cache made for `cap` entries: the
/// pair goes first; an entry with the same key goes; otherwise, on a
/// full cache, the least recently used entry goes.
pub open spec fn after_put(
    es: Seq<(Seq<char>, (u32, Option<usize>))>,
    cap: nat,
    k: Seq<char>,
    v: (u32, Option<usize>),
) -> Seq<(Seq<char>, (u32, Option<usize>))> {
    match key_pos(es, k) {
        Some(i) => seq![(k, v)] + es.remove(i),
        None => if es.len() < cap {
            seq![(k, v)] + es
        } else {
            seq![(k, v)] + es.drop_last()
        },
    }
}

/// The entries after `get(k)`: an entry with that key moves first.
pub open spec fn after_get(es: Seq<(Seq<char>, (u32, Option<usize>))>, k: Seq<char>) -> Seq<
    (Seq<char>, (u32, Option<usize>)),
> {
    match key_pos(es, k) {
        Some(i) => seq![es[i]] + es.remove(i),
        None => es,
    }
}

/// Calls `LruCache::new` for `cap` entries (a `NonZeroUsize`, made from
/// `cap`, which is not 0). The contract claims an empty cache made for
/// `cap` entries.
#[verifier::external_body]
fn lru_new(cap: usize) -> (c: LruCache<String, (u32, Option<usize>)>)
    requires
        cap > 0,
    ensures
        lru_entries(c) == Seq::<(Seq<char>, (u32, Option<usize>))>::empty(),
        lru_cap(c) == cap,
{
    LruCache::new(std::num::NonZeroUsize::new(cap).unwrap())
}

/// Calls `LruCache::put`. The contract claims what the crate's source
/// shows (`capturing_put`, `replace_or_create_node`): the entries become
/// [`after_put`] of the old ones, and the capacity stays.
#[verifier::external_body]
fn lru_put(c: &mut LruCache<String, (u32, Option<usize>)>, k: String, v: (u32, Option<usize>))
    requires
        lru_ok(*old(c)),
    ensures
        lru_cap(*final(c)) == lru_cap(*old(c)),
        lru_entries(*final(c)) == after_put(lru_entries(*old(c)), lru_cap(*old(c)), k@, v),
{
    c.put(k, v);
}

/// Calls `LruCache::get` and copies the value out. The contract claims
/// what the crate's source shows: the value held for `k`, if any, and
/// that entry becomes the most recently used; the capacity stays.
#[verifier::external_body]
fn lru_get(c: &mut LruCache<String, (u32, Option<usize>)>, k: &str) -> (r: Option<
    (u32, Option<usize>),
>)
    requires
        lru_ok(*old(c)),
    ensures
        r == lookup(lru_entries(*old(c)), k@),
        lru_cap(*final(c)) == lru_cap(*old(c)),
        lru_entries(*final(c)) == after_get(lru_entries(*old(c)), k@),
{
    c.get(k).copied()
}

/// Calls `LruCache::contains`: whether a value is held for `k` (the order
/// of use does not change).
#[verifier::external_body]
fn lru_contains(c: &LruCache<String, (u32, Option<usize>)>, k: &str) -> (b: bool)
    ensures
        b == lookup(lru_entries(*c), k@) is Some,
{
    c.contains(k)
}

/// The number of directories remembered.
pub const MEMORY_CAP: usize = 50;

/// The key under which `dir` is remembered: its path written with single
/// separators, so that directories equal as paths share it.
pub open spec fn dir_key(dir: Seq<char>) -> Seq<char> {
    render(components(dir))
}

proof fn lemma_pos_unique(es: Seq<(Seq<char>, (u32, Option<usize>))>, k: Seq<char>, i: int)
    requires
        keys_distinct(es),
        0 <= i < es.len(),
        es[i].0 == k,
    ensures
        key_pos(es, k) == Some(i),
{
    let j = choose|j: int| 0 <= j < es.len() && es[j].0 == k;
    assert(j == i);
}

proof fn lemma_after_put(es: Seq<(Seq<char>, (u32, Option<usize>))>, cap: nat, k: Seq<char>, v: (u32, Option<usize>))
    requires
        cap > 0,
        es.len() <= cap,
        keys_distinct(es),
    ensures
        after_put(es, cap, k, v).len() <= cap,
        keys_distinct(after_put(es, cap, k, v)),
        lookup(after_put(es, cap, k, v), k) == Some(v),
{
    let r = after_put(es, cap, k, v);
    let rest = r.drop_first();
    assert(r[0] == (k, v));
    match key_pos(es, k) {
        Some(i) => {
            assert(rest =~= es.remove(i));
            assert forall|a: int| 0 <= a < rest.len() implies rest[a].0 != k by {
                let a2 = if a < i { a } else { a + 1 };
                assert(rest[a] == es[a2]);
                assert(a2 != i);
            }
            assert forall|a: int, b: int|
                0 <= a < rest.len() && 0 <= b < rest.len() && a != b implies rest[a].0 != rest[b].0 by {
                let a2 = if a < i { a } else { a + 1 };
                let b2 = if b < i { b } else { b + 1 };
                assert(rest[a] == es[a2]);
                assert(rest[b] == es[b2]);
            }
        },
        None => {
            if es.len() < cap {
                assert(rest =~= es);
            } else {
                assert(rest =~= es.drop_last());
            }
            assert forall|a: int| 0 <= a < rest.len() implies rest[a].0 != k by {
                assert(rest[a] == es[a]);
            }
            assert forall|a: int, b: int|
                0 <= a < rest.len() && 0 <= b < rest.len() && a != b implies rest[a].0 != rest[b].0 by {
                assert(rest[a] == es[a]);
                assert(rest[b] == es[b]);
            }
        },
    }
    assert forall|a: int, b: int|
        0 <= a < r.len() && 0 <= b < r.len() && a != b implies r[a].0 != r[b].0 by {
        if a > 0 {
            assert(r[a] == rest[a - 1]);
        }
        if b > 0 {
            assert(r[b] == rest[b - 1]);
        }
    }
    lemma_pos_unique(r, k, 0);
}

proof fn lemma_after_get(es: Seq<(Seq<char>, (u32, Option<usize>))>, k: Seq<char>)
    requires
        keys_distinct(es),
    ensures
        after_get(es, k).len() == es.len(),
        keys_distinct(after_get(es, k)),
{
    if let Some(i) = key_pos(es, k) {
        let r = after_get(es, k);
        assert forall|a: int, b: int|
            0 <= a < r.len() && 0 <= b < r.len() && a != b implies r[a].0 != r[b].0 by {
            let a2 = if a == 0 { i } else if a - 1 < i { a - 1 } else { a };
            let b2 = if b == 0 { i } else if b - 1 < i { b - 1 } else { b };
            assert(r[a] == es[a2]);
            assert(r[b] == es[b2]);
        }
    }
}

/// Where the list stood in each directory recently left: a scroll offset
/// (the bits of an `f32`, which the window keeps) and the keyboard cursor,
/// for the [`MEMORY_CAP`] directories most recently left or revisited.
pub struct ViewMemory {
    cache: LruCache<String, (u32, Option<usize>)>,
}

impl ViewMemory {
    /// The cache is coherent (as every cache of the crate is).
    pub closed spec fn wf(&self) -> bool {
        lru_ok(self.cache)
    }

    /// The remembered directories (by [`dir_key`]) and what is remembered
    /// of each, the most recently used first.
    pub closed spec fn entries(&self) -> Seq<(Seq<char>, (u32, Option<usize>))> {
        lru_entries(self.cache)
    }

    /// How many directories are remembered at most.
    pub closed spec fn capacity(&self) -> nat {
        lru_cap(self.cache)
    }

    /// Remembers nothing yet, and at most [`MEMORY_CAP`] directories.
    pub fn new() -> (m: Self)
        ensures
            m.wf(),
            m.entries() == Seq::<(Seq<char>, (u32, Option<usize>))>::empty(),
            m.capacity() == MEMORY_CAP,
    {
        ViewMemory { cache: lru_new(MEMORY_CAP) }
    }

    /// Remembers the scroll offset and cursor of `dir`: its entry becomes
    /// the most recently used (replacing what was remembered of it; when
    /// full, the directory least recently used is forgotten).
    pub fn remember(&mut self, dir: &str, scroll_bits: u32, cursor: Option<usize>)
        requires
            old(self).wf(),
        ensures
            final(self).wf(),
            final(self).capacity() == old(self).capacity(),
            final(self).entries() == after_put(
                old(self).entries(),
                old(self).capacity(),
                dir_key(dir@),
                (scroll_bits, cursor),
            ),
            lookup(final(self).entries(), dir_key(dir@)) == Some((scroll_bits, cursor)),
    {
        let key = normalized_text(dir);
        proof {
            lemma_after_put(lru_entries(self.cache), lru_cap(self.cache), key@, (scroll_bits, cursor));
        }
        lru_put(&mut self.cache, key, (scroll_bits, cursor));
    }

    /// What is remembered of `dir`, if anything; its entry becomes the
    /// most recently used.
    pub fn recall(&mut self, dir: &str) -> (r: Option<(u32, Option<usize>)>)
        requires
            old(self).wf(),
        ensures
            final(self).wf(),
            final(self).capacity() == old(self).capacity(),
            r == lookup(old(self).entries(), dir_key(dir@)),
            final(self).entries() == after_get(old(self).entries(), dir_key(dir@)),
    {
        let key = normalized_text(dir);
        proof {
            lemma_after_get(lru_entries(self.cache), key@);
        }
        lru_get(&mut self.cache, key.as_str())
    }

    /// Whether anything is remembered of `dir` (the order of use stays).
    pub fn knows(&self, dir: &str) -> (b: bool)
        ensures
            b == lookup(self.entries(), dir_key(dir@)) is Some,
    {
        let key = normalized_text(dir);
        lru_contains(&self.cache, key.as_str())
    }
}

/// Directories equal as paths are remembered under the same key, and
/// different ones under different keys.
pub proof fn lemma_dir_key_is_the_path(a: Seq<char>, b: Seq<char>)
    ensures
        (dir_key(a) == dir_key(b)) == (components(a) == components(b)),
{
    lemma_components_valid(a);
    lemma_components_valid(b);
    lemma_render_components(components(a));
    lemma_render_components(components(b));
}

/// Recalling a directory right after remembering it, under any spelling
/// of its path, gives back what was remembered.
pub proof fn lemma_recall_after_remember(
    es: Seq<(Seq<char>, (u32, Option<usize>))>,
    cap: nat,
    dir: Seq<char>,
    same: Seq<char>,
    v: (u32, Option<usize>),
)
    requires
        cap > 0,
        es.len() <= cap,
        keys_distinct(es),
        components(dir) == components(same),
    ensures
        lookup(after_put(es, cap, dir_key(dir), v), dir_key(same)) == Some(v),
{
    lemma_dir_key_is_the_path(dir, same);
    lemma_after_put(es, cap, dir_key(dir), v);
}

} // verus!
