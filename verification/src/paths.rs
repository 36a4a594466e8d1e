//! Unix path syntax: the component model that `std::path::Path` uses on Unix,
//! stated over the characters of a path, and the operations that the file
//! manager needs from it (comparison, prefixes, parents, names, joining).
use vstd::prelude::*;

use crate::text::{chars_eq, chars_of, push_all, string_from_chars};

verus! {

/// One component of a path.
pub enum SpecComp {
    /// The leading `/`.
    Root,
    /// A leading `.` of a relative path.
    Cur,
    /// A `..`.
    Parent,
    /// Any other non-empty segment.
    Normal(Seq<char>),
}

/// Executable form of [`SpecComp`].
#[derive(Debug, Clone)]
pub enum Comp {
    Root,
    Cur,
    Parent,
    Normal(Vec<char>),
}

impl Comp {
    pub open spec fn spec_comp(&self) -> SpecComp {
        match self {
            Comp::Root => SpecComp::Root,
            Comp::Cur => SpecComp::Cur,
            Comp::Parent => SpecComp::Parent,
            Comp::Normal(v) => SpecComp::Normal(v@),
        }
    }
}

/// The components that a finished segment adds: nothing for an empty segment
/// or `.`, `Parent` for `..`, and `Normal` otherwise.
pub open spec fn emit(cs: Seq<SpecComp>, seg: Seq<char>) -> Seq<SpecComp> {
    if seg.len() == 0 || seg == seq!['.'] {
        cs
    } else if seg == seq!['.', '.'] {
        cs.push(SpecComp::Parent)
    } else {
        cs.push(SpecComp::Normal(seg))
    }
}

/// Scans `s` from the left: the components of the segments closed by a `/`,
/// and the segment still open at the end.
pub open spec fn scan(s: Seq<char>) -> (Seq<SpecComp>, Seq<char>)
    decreases s.len(),
{
    if s.len() == 0 {
        (Seq::empty(), Seq::empty())
    } else {
        let (cs, cur) = scan(s.drop_last());
        if s.last() == '/' {
            (emit(cs, cur), Seq::empty())
        } else {
            (cs, cur.push(s.last()))
        }
    }
}

/// The path starts with the root separator.
pub open spec fn has_root(s: Seq<char>) -> bool {
    s.len() > 0 && s[0] == '/'
}

/// A relative path whose first segment is `.` keeps it as a component.
pub open spec fn has_cur_dir(s: Seq<char>) -> bool {
    !has_root(s) && s.len() >= 1 && s[0] == '.' && (s.len() == 1 || s[1] == '/')
}

/// The components of a path, as `Path::components` yields them on Unix.
pub open spec fn components(s: Seq<char>) -> Seq<SpecComp> {
    let (cs, cur) = scan(s);
    let head: Seq<SpecComp> = if has_root(s) {
        seq![SpecComp::Root]
    } else if has_cur_dir(s) {
        seq![SpecComp::Cur]
    } else {
        Seq::empty()
    };
    head + emit(cs, cur)
}

/// Two paths are equal as `Path` values: same components.
pub open spec fn same_path(a: Seq<char>, b: Seq<char>) -> bool {
    components(a) == components(b)
}

/// `base` is a leading run of components of `p` (`Path::starts_with`).
pub open spec fn path_starts_with(p: Seq<char>, base: Seq<char>) -> bool {
    let cp = components(p);
    let cb = components(base);
    cb.len() <= cp.len() && cp.take(cb.len() as int) == cb
}

/// `p` has a parent, and it is `dir` (`p.parent() == Some(dir)`).
pub open spec fn parent_is(p: Seq<char>, dir: Seq<char>) -> bool {
    let cp = components(p);
    cp.len() > 0 && !(cp.last() is Root) && cp.drop_last() == components(dir)
}

/// The final component of `p` when it is a normal one (`Path::file_name`).
pub open spec fn file_name(p: Seq<char>) -> Option<Seq<char>> {
    let cp = components(p);
    if cp.len() > 0 && cp.last() is Normal {
        Some(cp.last()->Normal_0)
    } else {
        None
    }
}

/// `dir` with `name` pushed on it (`PathBuf::push` / `Path::join`): an
/// absolute `name` replaces `dir`; otherwise a separator is put between them
/// when `dir` is not empty and does not end with one.
pub open spec fn joined(dir: Seq<char>, name: Seq<char>) -> Seq<char> {
    if has_root(name) {
        name
    } else if dir.len() > 0 && dir.last() != '/' {
        dir + seq!['/'] + name
    } else {
        dir + name
    }
}

/// A path that stays inside the directory it is resolved against: it has no
/// root and no `..` component.
pub open spec fn safe_relative(p: Seq<char>) -> bool {
    forall|i: int| 0 <= i < components(p).len() ==> !(#[trigger] components(p)[i] is Root)
        && !(components(p)[i] is Parent)
}

pub open spec fn view_comps(v: Seq<Comp>) -> Seq<SpecComp> {
    v.map_values(|c: Comp| c.spec_comp())
}

fn emit_exec(cs: &mut Vec<Comp>, seg: Vec<char>)
    ensures
        view_comps(final(cs)@) == emit(view_comps(old(cs)@), seg@),
{
    let ghost old_cs = cs@;
    let n = seg.len();
    if n == 0 || (n == 1 && seg[0] == '.') {
        proof {
            if n == 1 {
                assert(seg@ =~= seq!['.']);
            }
        }
        return;
    }
    if n == 2 && seg[0] == '.' && seg[1] == '.' {
        assert(seg@ =~= seq!['.', '.']);
        cs.push(Comp::Parent);
        assert(view_comps(cs@) =~= view_comps(old_cs).push(SpecComp::Parent));
        return;
    }
    proof {
        if seg@ == seq!['.'] {
            assert(seg@[0] == '.');
        }
        if seg@ == seq!['.', '.'] {
            assert(seg@[0] == '.' && seg@[1] == '.');
        }
    }
    let ghost sv = seg@;
    cs.push(Comp::Normal(seg));
    assert(view_comps(cs@) =~= view_comps(old_cs).push(SpecComp::Normal(sv)));
}

proof fn lemma_emit_append(head: Seq<SpecComp>, cs: Seq<SpecComp>, seg: Seq<char>)
    ensures
        emit(head + cs, seg) == head + emit(cs, seg),
{
    if seg.len() == 0 || seg == seq!['.'] {
    } else if seg == seq!['.', '.'] {
        assert((head + cs).push(SpecComp::Parent) =~= head + cs.push(SpecComp::Parent));
    } else {
        assert((head + cs).push(SpecComp::Normal(seg)) =~= head + cs.push(SpecComp::Normal(seg)));
    }
}

/// The components of a path.
pub fn path_components(s: &[char]) -> (cs: Vec<Comp>)
    ensures
        view_comps(cs@) == components(s@),
{
    let n = s.len();
    let mut cs: Vec<Comp> = Vec::new();
    if n > 0 && s[0] == '/' {
        cs.push(Comp::Root);
    } else if n >= 1 && s[0] == '.' && (n == 1 || s[1] == '/') {
        cs.push(Comp::Cur);
    }
    let ghost head = view_comps(cs@);
    let mut cur: Vec<char> = Vec::new();
    let mut i: usize = 0;
    assert(view_comps(cs@) =~= head + scan(s@.take(0)).0);
    while i < n
        invariant
            n == s@.len(),
            i <= n,
            view_comps(cs@) == head + scan(s@.take(i as int)).0,
            cur@ == scan(s@.take(i as int)).1,
        decreases n - i,
    {
        let c = s[i];
        let ghost prev = scan(s@.take(i as int));
        proof {
            assert(s@.take(i + 1).drop_last() =~= s@.take(i as int));
            assert(s@.take(i + 1).last() == c);
        }
        if c == '/' {
            let seg = cur;
            cur = Vec::new();
            emit_exec(&mut cs, seg);
            proof {
                lemma_emit_append(head, prev.0, prev.1);
            }
            assert(cur@ =~= Seq::<char>::empty());
        } else {
            cur.push(c);
        }
        i = i + 1;
    }
    assert(s@.take(n as int) =~= s@);
    let ghost last = scan(s@);
    emit_exec(&mut cs, cur);
    proof {
        lemma_emit_append(head, last.0, last.1);
    }
    cs
}

fn comp_eq(a: &Comp, b: &Comp) -> (r: bool)
    ensures
        r == (a.spec_comp() == b.spec_comp()),
{
    match (a, b) {
        (Comp::Root, Comp::Root) => true,
        (Comp::Cur, Comp::Cur) => true,
        (Comp::Parent, Comp::Parent) => true,
        (Comp::Normal(x), Comp::Normal(y)) => chars_eq(x, y),
        _ => false,
    }
}

/// `b` is a prefix of `a` of length `len`, component by component.
fn comps_prefix(a: &Vec<Comp>, b: &Vec<Comp>, len: usize) -> (r: bool)
    requires
        len <= a@.len(),
        len <= b@.len(),
    ensures
        r == (view_comps(a@).take(len as int) == view_comps(b@).take(len as int)),
{
    let mut i: usize = 0;
    while i < len
        invariant
            len <= a@.len(),
            len <= b@.len(),
            i <= len,
            forall|j: int| 0 <= j < i ==> a@[j].spec_comp() == b@[j].spec_comp(),
        decreases len - i,
    {
        if !comp_eq(&a[i], &b[i]) {
            assert(view_comps(a@).take(len as int)[i as int] == a@[i as int].spec_comp());
            assert(view_comps(b@).take(len as int)[i as int] == b@[i as int].spec_comp());
            return false;
        }
        i = i + 1;
    }
    assert(view_comps(a@).take(len as int) =~= view_comps(b@).take(len as int));
    true
}

/// Whether two paths are the same `Path` value.
pub fn paths_equal(a: &str, b: &str) -> (r: bool)
    ensures
        r == same_path(a@, b@),
{
    let ca = path_components(&chars_of(a));
    let cb = path_components(&chars_of(b));
    if ca.len() != cb.len() {
        return false;
    }
    let r = comps_prefix(&ca, &cb, ca.len());
    assert(view_comps(ca@).take(ca@.len() as int) =~= view_comps(ca@));
    assert(view_comps(cb@).take(cb@.len() as int) =~= view_comps(cb@));
    r
}

/// `Path::starts_with`.
pub fn starts_with(p: &str, base: &str) -> (r: bool)
    ensures
        r == path_starts_with(p@, base@),
{
    let cp = path_components(&chars_of(p));
    let cb = path_components(&chars_of(base));
    if cb.len() > cp.len() {
        return false;
    }
    let r = comps_prefix(&cp, &cb, cb.len());
    assert(view_comps(cb@).take(cb@.len() as int) =~= view_comps(cb@));
    r
}

/// Whether `dir` is the parent of `p` (`p.parent() == Some(dir)`).
pub fn is_parent_of(dir: &str, p: &str) -> (r: bool)
    ensures
        r == parent_is(p@, dir@),
{
    let cp = path_components(&chars_of(p));
    let cd = path_components(&chars_of(dir));
    let n = cp.len();
    if n == 0 {
        return false;
    }
    assert(view_comps(cp@).last() == cp@[n - 1].spec_comp());
    if let Comp::Root = cp[n - 1] {
        return false;
    }
    if cd.len() != n - 1 {
        assert(view_comps(cp@).drop_last().len() != view_comps(cd@).len());
        return false;
    }
    let r = comps_prefix(&cp, &cd, n - 1);
    assert(view_comps(cp@).drop_last() =~= view_comps(cp@).take(n - 1));
    assert(view_comps(cd@).take(n - 1) =~= view_comps(cd@));
    r
}

/// The final component of `p` when it is a normal one.
pub fn file_name_of(p: &str) -> (r: Option<String>)
    ensures
        r is Some <==> file_name(p@) is Some,
        r matches Some(n) ==> n@ == file_name(p@)->Some_0,
{
    let cp = path_components(&chars_of(p));
    let n = cp.len();
    if n == 0 {
        return None;
    }
    match &cp[n - 1] {
        Comp::Normal(v) => Some(string_from_chars(v)),
        _ => None,
    }
}

/// `Path::join` on Unix.
pub fn join(dir: &str, name: &str) -> (r: String)
    ensures
        r@ == joined(dir@, name@),
{
    let d = chars_of(dir);
    let n = chars_of(name);
    if n.len() > 0 && n[0] == '/' {
        return string_from_chars(&n);
    }
    let mut out: Vec<char> = Vec::new();
    push_all(&mut out, &d);
    if d.len() > 0 && d[d.len() - 1] != '/' {
        out.push('/');
    }
    push_all(&mut out, &n);
    proof {
        if d@.len() > 0 && d@.last() != '/' {
            assert(out@ =~= d@ + seq!['/'] + n@);
        } else {
            assert(out@ =~= d@ + n@);
        }
    }
    string_from_chars(&out)
}

/// Whether `p` is safe to resolve against an extraction directory: it has
/// no root and no `..` component.
pub fn is_safe_path(p: &str) -> (r: bool)
    ensures
        r == safe_relative(p@),
{
    let cs = path_components(&chars_of(p));
    let n = cs.len();
    for i in 0..n
        invariant
            n == cs@.len(),
            view_comps(cs@) == components(p@),
            forall|j: int| 0 <= j < i ==> !(#[trigger] components(p@)[j] is Root) && !(components(
                p@,
            )[j] is Parent),
    {
        assert(components(p@)[i as int] == cs@[i as int].spec_comp());
        match cs[i] {
            Comp::Root | Comp::Parent => {
                return false;
            },
            _ => {},
        }
    }
    true
}

/// The text of one component.
pub open spec fn comp_text(c: SpecComp) -> Seq<char> {
    match c {
        SpecComp::Root => seq!['/'],
        SpecComp::Cur => seq!['.'],
        SpecComp::Parent => seq!['.', '.'],
        SpecComp::Normal(s) => s,
    }
}

/// A path written from its components: each one pushed on the path so far.
pub open spec fn render(cs: Seq<SpecComp>) -> Seq<char>
    decreases cs.len(),
{
    if cs.len() == 0 {
        Seq::empty()
    } else {
        joined(render(cs.drop_last()), comp_text(cs.last()))
    }
}

/// A segment that stands for a normal component.
pub open spec fn normal_seg(s: Seq<char>) -> bool {
    s.len() > 0 && s != seq!['.'] && s != seq!['.', '.'] && !s.contains('/')
}

/// A component that may follow the first: `..` or a normal name.
pub open spec fn body_comp(c: SpecComp) -> bool {
    c is Parent || (c matches SpecComp::Normal(s) && normal_seg(s))
}

/// The shape that the components of every path have: a root or a `.`
/// only first, and otherwise `..` and normal names.
pub open spec fn valid_comps(cs: Seq<SpecComp>) -> bool {
    forall|i: int|
        0 <= i < cs.len() ==> (i == 0 && (cs[i] is Root || cs[i] is Cur)) || body_comp(#[trigger] cs[i])
}

proof fn lemma_scan_plain(u: Seq<char>, t: Seq<char>)
    requires
        !t.contains('/'),
    ensures
        scan(u + t) == (scan(u).0, scan(u).1 + t),
    decreases t.len(),
{
    if t.len() == 0 {
        assert(u + t =~= u);
        assert(scan(u).1 + t =~= scan(u).1);
    } else {
        assert((u + t).drop_last() =~= u + t.drop_last());
        assert(!t.drop_last().contains('/')) by {
            if t.drop_last().contains('/') {
                let k = choose|k: int| 0 <= k < t.drop_last().len() && t.drop_last()[k] == '/';
                assert(t[k] == '/');
            }
        }
        lemma_scan_plain(u, t.drop_last());
        assert(t.last() != '/') by {
            assert(t[t.len() - 1] == t.last());
        }
        assert((u + t).last() == t.last());
        assert((scan(u).1 + t.drop_last()).push(t.last()) =~= scan(u).1 + t);
    }
}

proof fn lemma_scan_valid(s: Seq<char>)
    ensures
        !scan(s).1.contains('/'),
        forall|i: int| 0 <= i < scan(s).0.len() ==> body_comp(#[trigger] scan(s).0[i]),
    decreases s.len(),
{
    if s.len() > 0 {
        lemma_scan_valid(s.drop_last());
        let (cs, cur) = scan(s.drop_last());
        if s.last() == '/' {
            assert(!Seq::<char>::empty().contains('/'));
            if cur.len() == 0 || cur == seq!['.'] {
            } else if cur == seq!['.', '.'] {
                assert forall|i: int| 0 <= i < emit(cs, cur).len() implies body_comp(#[trigger] emit(cs, cur)[i]) by {
                    if i < cs.len() {
                        assert(emit(cs, cur)[i] == cs[i]);
                    }
                }
            } else {
                assert forall|i: int| 0 <= i < emit(cs, cur).len() implies body_comp(#[trigger] emit(cs, cur)[i]) by {
                    if i < cs.len() {
                        assert(emit(cs, cur)[i] == cs[i]);
                    }
                }
            }
        } else {
            assert(!cur.push(s.last()).contains('/')) by {
                if cur.push(s.last()).contains('/') {
                    let k = choose|k: int| 0 <= k < cur.push(s.last()).len() && cur.push(s.last())[k] == '/';
                    if k < cur.len() {
                        assert(cur[k] == '/');
                    }
                }
            }
        }
    }
}

/// The components of every path have the shape [`valid_comps`] states.
pub proof fn lemma_components_valid(s: Seq<char>)
    ensures
        valid_comps(components(s)),
{
    lemma_scan_valid(s);
    let (cs, cur) = scan(s);
    let e = emit(cs, cur);
    assert forall|i: int| 0 <= i < e.len() implies body_comp(#[trigger] e[i]) by {
        if i < cs.len() {
            assert(e[i] == cs[i]);
        }
    }
    let head: Seq<SpecComp> = if has_root(s) {
        seq![SpecComp::Root]
    } else if has_cur_dir(s) {
        seq![SpecComp::Cur]
    } else {
        Seq::empty()
    };
    assert forall|i: int| 0 <= i < components(s).len() implies (i == 0 && (components(s)[i] is Root
        || components(s)[i] is Cur)) || body_comp(#[trigger] components(s)[i]) by {
        if i >= head.len() {
            assert(components(s)[i] == e[i - head.len()]);
        }
    }
}

/// Written out and read back, valid components are the same.
pub proof fn lemma_render_components(cs: Seq<SpecComp>)
    requires
        valid_comps(cs),
    ensures
        components(render(cs)) == cs,
        cs.len() > 0 ==> render(cs).len() > 0 && (render(cs).last() == '/' <==> (cs.len() == 1
            && cs[0] is Root)),
        has_root(render(cs)) == (cs.len() > 0 && cs[0] is Root),
        has_cur_dir(render(cs)) == (cs.len() > 0 && cs[0] is Cur),
    decreases cs.len(),
{
    let empty: Seq<char> = Seq::empty();
    if cs.len() == 0 {
        assert(components(empty) =~= Seq::<SpecComp>::empty());
    } else if cs.len() == 1 {
        let c = cs[0];
        assert(cs.drop_last() =~= Seq::<SpecComp>::empty());
        assert(cs.last() == c);
        let x = comp_text(c);
        assert(render(cs.drop_last()) == empty);
        assert(render(cs) == joined(empty, x));
        assert(scan(empty) == (Seq::<SpecComp>::empty(), empty));
        match c {
            SpecComp::Root => {
                assert(render(cs) == seq!['/']);
                assert(seq!['/'].drop_last() =~= empty);
                assert(scan(seq!['/']) == (Seq::<SpecComp>::empty(), empty));
                assert(components(seq!['/']) =~= seq![SpecComp::Root]);
            },
            SpecComp::Cur => {
                assert(render(cs) =~= seq!['.']);
                assert(!seq!['.'].contains('/')) by {
                    assert(seq!['.'][0] == '.');
                }
                lemma_scan_plain(empty, seq!['.']);
                assert(empty + seq!['.'] =~= seq!['.']);
                assert(components(seq!['.']) =~= seq![SpecComp::Cur]);
            },
            SpecComp::Parent => {
                assert(render(cs) =~= seq!['.', '.']);
                assert(!seq!['.', '.'].contains('/')) by {
                    assert(seq!['.', '.'][0] == '.');
                    assert(seq!['.', '.'][1] == '.');
                }
                lemma_scan_plain(empty, seq!['.', '.']);
                assert(empty + seq!['.', '.'] =~= seq!['.', '.']);
                assert(components(seq!['.', '.']) =~= seq![SpecComp::Parent]);
            },
            SpecComp::Normal(s) => {
                assert(body_comp(cs[0]));
                assert(s[0] != '/');
                assert(render(cs) =~= s);
                lemma_scan_plain(empty, s);
                assert(empty + s =~= s);
                if s[0] == '.' && s.len() >= 2 {
                    assert(s[1] != '/');
                }
                assert(!has_cur_dir(s)) by {
                    if s.len() == 1 && s[0] == '.' {
                        assert(s =~= seq!['.']);
                    }
                }
                assert(components(s) =~= seq![SpecComp::Normal(s)]);
            },
        }
    } else {
        let pre = cs.drop_last();
        let c = cs.last();
        assert(valid_comps(pre)) by {
            assert forall|i: int| 0 <= i < pre.len() implies (i == 0 && (pre[i] is Root || pre[i] is Cur))
                || body_comp(#[trigger] pre[i]) by {
                assert(pre[i] == cs[i]);
            }
        }
        assert(body_comp(c)) by {
            assert(cs[cs.len() - 1] == c);
        }
        lemma_render_components(pre);
        let t = render(pre);
        let x = comp_text(c);
        assert(normal_seg(x) || x == seq!['.', '.']);
        assert(!x.contains('/')) by {
            if x == seq!['.', '.'] && x.contains('/') {
                let k = choose|k: int| 0 <= k < x.len() && x[k] == '/';
                assert(x[k] == '.');
            }
        }
        assert(x[0] != '/') by {
            assert(x.len() > 0);
            if x[0] == '/' {
                assert(x.contains('/'));
            }
        }
        assert(!has_root(x));
        let r = render(cs);
        assert(r == joined(t, x));
        lemma_scan_plain(t.push('/'), x);
        lemma_scan_plain(t, x);
        assert(t.push('/').drop_last() =~= t);
        let (pcs, pcur) = scan(t);
        let e = emit(pcs, pcur);
        assert(emit(e, x) == e.push(c)) by {
            if c is Parent {
                assert(x =~= seq!['.', '.']);
            }
        }
        if t.last() == '/' {
            assert(pre.len() == 1 && pre[0] is Root);
            assert(t =~= seq!['/']) by {
                assert(pre.drop_last() =~= Seq::<SpecComp>::empty());
            }
            assert(r =~= t + x);
            assert(scan(t) == (Seq::<SpecComp>::empty(), empty)) by {
                assert(t.drop_last() =~= empty);
            }
            assert(r[0] == '/');
            assert(components(r) =~= cs) by {
                assert(cs =~= seq![SpecComp::Root, c]);
            }
        } else {
            assert(r =~= t.push('/') + x);
            assert(scan(r) == (e, x));
            assert(r[0] == t[0]);
            assert(has_root(r) == has_root(t));
            assert(has_cur_dir(r) == has_cur_dir(t)) by {
                if t.len() >= 2 {
                    assert(r[1] == t[1]);
                } else {
                    assert(r[1] == '/');
                }
            }
            assert(components(t) == pre);
            let head: Seq<SpecComp> = if has_root(t) {
                seq![SpecComp::Root]
            } else if has_cur_dir(t) {
                seq![SpecComp::Cur]
            } else {
                Seq::empty()
            };
            assert(components(r) == head + e.push(c));
            assert(components(t) == head + e);
            assert(head + e.push(c) =~= (head + e).push(c));
            assert(pre.push(c) =~= cs);
        }
        assert(r.last() == x.last());
        assert(x.last() != '/') by {
            assert(x[x.len() - 1] == x.last());
            if x.last() == '/' {
                assert(x.contains('/'));
            }
        }
    }
}

fn comp_text_exec(c: &Comp) -> (s: String)
    ensures
        s@ == comp_text(c.spec_comp()),
{
    proof {
        reveal_strlit("/");
        reveal_strlit(".");
        reveal_strlit("..");
    }
    match c {
        Comp::Root => String::from_str("/"),
        Comp::Cur => String::from_str("."),
        Comp::Parent => String::from_str(".."),
        Comp::Normal(v) => string_from_chars(v),
    }
}

/// The first `n` components written out as a path.
fn render_prefix(cs: &Vec<Comp>, n: usize) -> (s: String)
    requires
        n <= cs@.len(),
    ensures
        s@ == render(view_comps(cs@).take(n as int)),
{
    proof {
        reveal_strlit("/");
        reveal_strlit(".");
        reveal_strlit("..");
    }
    let mut out = String::new();
    assert(view_comps(cs@).take(0) =~= Seq::<SpecComp>::empty());
    for i in 0..n
        invariant
            n <= cs@.len(),
            out@ == render(view_comps(cs@).take(i as int)),
    {
        let t = comp_text_exec(&cs[i]);
        out = join(out.as_str(), t.as_str());
        proof {
            let pre = view_comps(cs@).take(i + 1);
            assert(pre.drop_last() =~= view_comps(cs@).take(i as int));
            assert(pre.last() == cs@[i as int].spec_comp());
        }
    }
    out
}

/// The parent directory of `p` (`Path::parent`): none for an empty path or
/// one that ends in the root; otherwise a path with all of `p`'s components
/// but the last, written with single separators.
pub fn parent_of(p: &str) -> (r: Option<String>)
    ensures
        r is Some <==> (components(p@).len() > 0 && !(components(p@).last() is Root)),
        r matches Some(d) ==> parent_is(p@, d@) && d@ == render(components(p@).drop_last()),
{
    let cs = path_components(&chars_of(p));
    let n = cs.len();
    if n == 0 {
        return None;
    }
    assert(view_comps(cs@).last() == cs@[n - 1].spec_comp());
    if let Comp::Root = cs[n - 1] {
        return None;
    }
    let d = render_prefix(&cs, n - 1);
    proof {
        let all = components(p@);
        assert(view_comps(cs@).take(n - 1) =~= all.drop_last());
        lemma_components_valid(p@);
        assert(valid_comps(all.drop_last())) by {
            assert forall|i: int| 0 <= i < all.drop_last().len() implies (i == 0 && (
            all.drop_last()[i] is Root || all.drop_last()[i] is Cur)) || body_comp(
                #[trigger] all.drop_last()[i],
            ) by {
                assert(all.drop_last()[i] == all[i]);
            }
        }
        lemma_render_components(all.drop_last());
    }
    Some(d)
}

/// `p` with its file name replaced by `name` (`Path::with_file_name`): the
/// name is pushed on `p`'s parent when `p` has a file name, and on `p`
/// itself otherwise.
pub open spec fn with_name(p: Seq<char>, name: Seq<char>) -> Seq<char> {
    if file_name(p) is Some {
        joined(render(components(p).drop_last()), name)
    } else {
        joined(p, name)
    }
}

/// Executable [`with_name`].
pub fn with_file_name(p: &str, name: &str) -> (r: String)
    ensures
        r@ == with_name(p@, name@),
{
    if file_name_of(p).is_some() {
        match parent_of(p) {
            Some(d) => join(d.as_str(), name),
            None => {
                assert(false);
                join(p, name)
            },
        }
    } else {
        join(p, name)
    }
}

/// The components of `p` after those of `base`, when `p` lies under `base`
/// (`Path::strip_prefix`).
pub open spec fn strip_base(p: Seq<char>, base: Seq<char>) -> Option<Seq<SpecComp>> {
    if path_starts_with(p, base) {
        Some(components(p).skip(components(base).len() as int))
    } else {
        None
    }
}

/// The components from position `k` on, written out as a path.
fn render_from(cs: &Vec<Comp>, k: usize) -> (s: String)
    requires
        k <= cs@.len(),
    ensures
        s@ == render(view_comps(cs@).skip(k as int)),
{
    let n = cs.len();
    let mut out = String::new();
    assert(view_comps(cs@).skip(k as int).take(0) =~= Seq::<SpecComp>::empty());
    for i in k..n
        invariant
            k <= n,
            n == cs@.len(),
            out@ == render(view_comps(cs@).skip(k as int).take(i - k)),
    {
        let t = comp_text_exec(&cs[i]);
        out = join(out.as_str(), t.as_str());
        proof {
            let pre = view_comps(cs@).skip(k as int).take(i - k + 1);
            assert(pre.drop_last() =~= view_comps(cs@).skip(k as int).take(i - k));
            assert(pre.last() == cs@[i as int].spec_comp());
        }
    }
    assert(view_comps(cs@).skip(k as int).take(n - k) =~= view_comps(cs@).skip(k as int));
    out
}

/// `p` written from its components, with single separators: two paths
/// are equal as paths exactly when these texts are equal.
pub fn normalized_text(p: &str) -> (r: String)
    ensures
        r@ == render(components(p@)),
        components(r@) == components(p@),
{
    let cp = path_components(&chars_of(p));
    assert(view_comps(cp@).skip(0) =~= view_comps(cp@));
    let r = render_from(&cp, 0);
    proof {
        lemma_components_valid(p@);
        lemma_render_components(components(p@));
    }
    r
}

/// `p` relative to `base` (`Path::strip_prefix`), written with single
/// separators; none when `p` does not lie under `base`.
pub fn strip_prefix_text(p: &str, base: &str) -> (r: Option<String>)
    ensures
        r is Some <==> strip_base(p@, base@) is Some,
        r matches Some(t) ==> t@ == render(strip_base(p@, base@)->Some_0) && components(t@)
            == strip_base(p@, base@)->Some_0,
{
    let cp = path_components(&chars_of(p));
    let cb = path_components(&chars_of(base));
    if cb.len() > cp.len() {
        return None;
    }
    if !comps_prefix(&cp, &cb, cb.len()) {
        assert(view_comps(cb@).take(cb@.len() as int) =~= view_comps(cb@));
        return None;
    }
    assert(view_comps(cb@).take(cb@.len() as int) =~= view_comps(cb@));
    let t = render_from(&cp, cb.len());
    proof {
        let all = components(p@);
        let rest = all.skip(cb@.len() as int);
        lemma_components_valid(p@);
        assert(valid_comps(rest)) by {
            assert forall|i: int| 0 <= i < rest.len() implies (i == 0 && (rest[i] is Root
                || rest[i] is Cur)) || body_comp(#[trigger] rest[i]) by {
                assert(rest[i] == all[i + cb@.len()]);
            }
        }
        lemma_render_components(rest);
    }
    Some(t)
}

/// Joining a plain name (not empty, `.` or `..`, and without a separator)
/// onto a directory gives a path whose parent is that directory and whose
/// file name is that name.
pub proof fn lemma_join_parent(dir: Seq<char>, name: Seq<char>)
    requires
        normal_seg(name),
    ensures
        parent_is(joined(dir, name), dir),
        file_name(joined(dir, name)) == Some(name),
        components(joined(dir, name)) == components(dir).push(SpecComp::Normal(name)),
{
    let empty: Seq<char> = Seq::empty();
    let r = joined(dir, name);
    assert(name[0] != '/') by {
        if name[0] == '/' {
            assert(name.contains('/'));
        }
    }
    assert(!has_root(name));
    lemma_scan_plain(dir, name);
    let (cs, cur) = scan(dir);
    let head: Seq<SpecComp> = if has_root(dir) {
        seq![SpecComp::Root]
    } else if has_cur_dir(dir) {
        seq![SpecComp::Cur]
    } else {
        Seq::empty()
    };
    if dir.len() == 0 {
        assert(r =~= name);
        assert(dir + name =~= name);
        assert(scan(dir) == (Seq::<SpecComp>::empty(), empty));
        assert(!has_cur_dir(name)) by {
            if name.len() == 1 && name[0] == '.' {
                assert(name =~= seq!['.']);
            }
            if name.len() >= 2 && name[0] == '.' {
                assert(name[1] != '/') by {
                    if name[1] == '/' {
                        assert(name.contains('/'));
                    }
                }
            }
        }
        assert(components(r) =~= seq![SpecComp::Normal(name)]);
        assert(components(dir) =~= Seq::<SpecComp>::empty());
        assert(components(dir).push(SpecComp::Normal(name)) =~= seq![SpecComp::Normal(name)]);
    } else if dir.last() == '/' {
        assert(r == dir + name);
        assert(cur =~= empty) by {
            assert(scan(dir) == (emit(scan(dir.drop_last()).0, scan(dir.drop_last()).1), empty));
        }
        assert(scan(r) == (cs, name)) by {
            assert(cur + name =~= name);
        }
        assert(r[0] == dir[0]);
        assert(has_root(r) == has_root(dir));
        assert(has_cur_dir(r) == has_cur_dir(dir)) by {
            if dir.len() >= 2 {
                assert(r[1] == dir[1]);
            } else {
                assert(dir[0] == '/');
            }
        }
        assert(emit(cs, name) == cs.push(SpecComp::Normal(name)));
        assert(emit(cs, empty) == cs);
        assert(components(r) == head + cs.push(SpecComp::Normal(name)));
        assert(components(dir) == head + cs);
        assert(head + cs.push(SpecComp::Normal(name)) =~= (head + cs).push(SpecComp::Normal(name)));
    } else {
        let d2 = dir.push('/');
        assert(r =~= d2 + name);
        lemma_scan_plain(d2, name);
        assert(d2.drop_last() =~= dir);
        assert(scan(d2) == (emit(cs, cur), empty));
        assert(empty + name =~= name);
        assert(scan(r) == (emit(cs, cur), name));
        assert(r[0] == dir[0]);
        assert(has_root(r) == has_root(dir));
        assert(has_cur_dir(r) == has_cur_dir(dir)) by {
            if dir.len() >= 2 {
                assert(r[1] == dir[1]);
            } else {
                assert(r[1] == '/');
            }
        }
        let e = emit(cs, cur);
        assert(emit(e, name) == e.push(SpecComp::Normal(name)));
        assert(components(r) == head + e.push(SpecComp::Normal(name)));
        assert(components(dir) == head + e);
        assert(head + e.push(SpecComp::Normal(name)) =~= (head + e).push(SpecComp::Normal(name)));
    }
    assert(components(r).drop_last() =~= components(dir));
}

proof fn lemma_scan_after_slash(u: Seq<char>, t: Seq<char>)
    ensures
        scan(u.push('/') + t) == (emit(scan(u).0, scan(u).1) + scan(t).0, scan(t).1),
    decreases t.len(),
{
    let e = emit(scan(u).0, scan(u).1);
    if t.len() == 0 {
        assert(u.push('/') + t =~= u.push('/'));
        assert(u.push('/').drop_last() =~= u);
        assert(e + Seq::<SpecComp>::empty() =~= e);
    } else {
        lemma_scan_after_slash(u, t.drop_last());
        let w = u.push('/') + t;
        assert(w.drop_last() =~= u.push('/') + t.drop_last());
        assert(w.last() == t.last());
        let (cs, cur) = scan(t.drop_last());
        if t.last() == '/' {
            lemma_emit_append(e, cs, cur);
        } else {
            assert((e + cs) == (e + cs));
        }
    }
}

/// A path that passes the safety check ([`safe_relative`]), joined onto a
/// directory, lies under that directory, and every component it adds is a
/// plain name (or the leading `.` of a relative path joined onto nothing):
/// extraction writes nothing outside its destination.
pub proof fn lemma_safe_join_stays_inside(dest: Seq<char>, p: Seq<char>)
    requires
        safe_relative(p),
    ensures
        path_starts_with(joined(dest, p), dest),
        forall|i: int|
            components(dest).len() <= i < components(joined(dest, p)).len() ==> (#[trigger] components(
                joined(dest, p),
            )[i] is Normal || components(joined(dest, p))[i] is Cur),
        !has_cur_dir(p) ==> components(joined(dest, p)) == components(dest) + components(p),
{
    let r = joined(dest, p);
    lemma_components_valid(p);
    let cp = components(p);
    assert(!has_root(p)) by {
        if has_root(p) {
            assert(cp[0] is Root);
        }
    }
    let (cs_p, cur_p) = scan(p);
    let body = emit(cs_p, cur_p);
    let head_p: Seq<SpecComp> = if has_cur_dir(p) {
        seq![SpecComp::Cur]
    } else {
        Seq::empty()
    };
    assert(cp == head_p + body);
    lemma_scan_valid(p);
    assert forall|i: int| 0 <= i < body.len() implies #[trigger] body[i] is Normal by {
        assert(cp[i + head_p.len()] == body[i]);
        assert(!(cp[i + head_p.len()] is Parent));
        if i < cs_p.len() {
            assert(body[i] == cs_p[i]);
        }
    }
    if dest.len() == 0 {
        assert(r == p);
        assert(components(dest) =~= Seq::<SpecComp>::empty()) by {
            assert(scan(dest) == (Seq::<SpecComp>::empty(), Seq::<char>::empty()));
        }
        assert forall|i: int| 0 <= i < components(r).len() implies (#[trigger] components(r)[i] is Normal
            || components(r)[i] is Cur) by {
            if i >= head_p.len() {
                assert(components(r)[i] == body[i - head_p.len()]);
            }
        }
        assert(components(r).take(0) =~= components(dest));
    } else {
        let d = if dest.last() == '/' { dest.drop_last() } else { dest };
        assert(d.push('/') + p =~= r) by {
            if dest.last() == '/' {
                assert(dest.drop_last().push('/') =~= dest);
            }
        }
        lemma_scan_after_slash(d, p);
        let e = emit(scan(d).0, scan(d).1);
        assert(scan(r) == (e + cs_p, cur_p));
        lemma_emit_append(e, cs_p, cur_p);
        let head: Seq<SpecComp> = if has_root(dest) {
            seq![SpecComp::Root]
        } else if has_cur_dir(dest) {
            seq![SpecComp::Cur]
        } else {
            Seq::empty()
        };
        assert(r[0] == dest[0]);
        assert(has_root(r) == has_root(dest));
        assert(has_cur_dir(r) == has_cur_dir(dest)) by {
            if dest.len() >= 2 {
                assert(r[1] == dest[1]);
            } else if dest.last() == '/' {
                assert(dest[0] == '/');
            } else {
                assert(r[1] == '/');
            }
        }
        assert(components(r) == head + (e + body));
        assert(components(dest) == head + e) by {
            if dest.last() == '/' {
                assert(dest == d.push('/'));
                assert(d.push('/').drop_last() =~= d);
                assert(scan(dest) == (e, Seq::<char>::empty()));
                assert(emit(e, Seq::<char>::empty()) == e);
            }
        }
        assert(components(r) =~= components(dest) + body);
        assert forall|i: int|
            components(dest).len() <= i < components(r).len() implies (#[trigger] components(r)[i] is Normal
            || components(r)[i] is Cur) by {
            assert(components(r)[i] == body[i - components(dest).len()]);
        }
        assert(components(r).take(components(dest).len() as int) =~= components(dest));
    }
}

} // verus!
