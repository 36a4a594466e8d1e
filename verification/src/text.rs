//! Character-level helpers shared by the rest of the library: Unicode white
//! space, trimming, ASCII case folding, and the two text shortening rules that
//! the file views use.
use vstd::prelude::*;

verus! {

/// The Unicode `White_Space` property, as `char::is_whitespace` defines it.
pub open spec fn is_ws(c: char) -> bool {
    let u = c as u32;
    ||| 0x09 <= u <= 0x0D
    ||| u == 0x20
    ||| u == 0x85
    ||| u == 0xA0
    ||| u == 0x1680
    ||| 0x2000 <= u <= 0x200A
    ||| u == 0x2028
    ||| u == 0x2029
    ||| u == 0x202F
    ||| u == 0x205F
    ||| u == 0x3000
}

/// Executable test for [`is_ws`].
pub fn char_is_ws(c: char) -> (b: bool)
    ensures
        b == is_ws(c),
{
    let u = c as u32;
    (0x09 <= u && u <= 0x0D) || u == 0x20 || u == 0x85 || u == 0xA0 || u == 0x1680 || (0x2000
        <= u && u <= 0x200A) || u == 0x2028 || u == 0x2029 || u == 0x202F || u == 0x205F || u
        == 0x3000
}

/// Number of white-space characters at the start of `s`.
pub open spec fn lead_ws(s: Seq<char>) -> nat
    decreases s.len(),
{
    if s.len() > 0 && is_ws(s[0]) {
        1 + lead_ws(s.drop_first())
    } else {
        0
    }
}

/// Number of white-space characters at the end of `s`.
pub open spec fn trail_ws(s: Seq<char>) -> nat
    decreases s.len(),
{
    if s.len() > 0 && is_ws(s.last()) {
        1 + trail_ws(s.drop_last())
    } else {
        0
    }
}

/// `s` without its leading and trailing white space (what `str::trim` gives).
pub open spec fn trimmed(s: Seq<char>) -> Seq<char> {
    if lead_ws(s) >= s.len() {
        Seq::empty()
    } else {
        s.subrange(lead_ws(s) as int, s.len() - trail_ws(s))
    }
}

/// `s` has no character but white space.
pub open spec fn all_ws(s: Seq<char>) -> bool {
    forall|i: int| 0 <= i < s.len() ==> #[trigger] is_ws(s[i])
}

pub proof fn lemma_lead_ws_bound(s: Seq<char>)
    ensures
        lead_ws(s) <= s.len(),
        forall|j: int| 0 <= j < lead_ws(s) ==> #[trigger] is_ws(s[j]),
        lead_ws(s) < s.len() ==> !is_ws(s[lead_ws(s) as int]),
    decreases s.len(),
{
    if s.len() > 0 && is_ws(s[0]) {
        lemma_lead_ws_bound(s.drop_first());
        assert forall|j: int| 0 <= j < lead_ws(s) implies #[trigger] is_ws(s[j]) by {
            if j > 0 {
                assert(s[j] == s.drop_first()[j - 1]);
            }
        }
        if lead_ws(s) < s.len() {
            assert(s[lead_ws(s) as int] == s.drop_first()[lead_ws(s.drop_first()) as int]);
        }
    }
}

pub proof fn lemma_trail_ws_bound(s: Seq<char>)
    ensures
        trail_ws(s) <= s.len(),
        forall|j: int| s.len() - trail_ws(s) <= j < s.len() ==> #[trigger] is_ws(s[j]),
        trail_ws(s) < s.len() ==> !is_ws(s[s.len() - trail_ws(s) - 1]),
    decreases s.len(),
{
    if s.len() > 0 && is_ws(s.last()) {
        lemma_trail_ws_bound(s.drop_last());
        assert forall|j: int| s.len() - trail_ws(s) <= j < s.len() implies #[trigger] is_ws(
            s[j],
        ) by {
            if j < s.len() - 1 {
                assert(s[j] == s.drop_last()[j]);
            }
        }
        if trail_ws(s) < s.len() {
            assert(s[s.len() - trail_ws(s) - 1] == s.drop_last()[s.len() - trail_ws(s) - 1]);
        }
    }
}

/// A count `k` of leading characters that are all white space and followed by
/// a non-white one (or the end) is the leading white-space count.
pub proof fn lemma_lead_ws_unique(s: Seq<char>, k: int)
    requires
        0 <= k <= s.len(),
        forall|j: int| 0 <= j < k ==> #[trigger] is_ws(s[j]),
        k < s.len() ==> !is_ws(s[k]),
    ensures
        lead_ws(s) == k,
    decreases s.len(),
{
    if k > 0 {
        assert(is_ws(s[0]));
        assert forall|j: int| 0 <= j < k - 1 implies #[trigger] is_ws(s.drop_first()[j]) by {
            assert(is_ws(s[j + 1]));
        }
        if k - 1 < s.len() - 1 {
            assert(s.drop_first()[k - 1] == s[k]);
        }
        lemma_lead_ws_unique(s.drop_first(), k - 1);
    }
}

pub proof fn lemma_trail_ws_unique(s: Seq<char>, k: int)
    requires
        0 <= k <= s.len(),
        forall|j: int| s.len() - k <= j < s.len() ==> #[trigger] is_ws(s[j]),
        k < s.len() ==> !is_ws(s[s.len() - k - 1]),
    ensures
        trail_ws(s) == k,
    decreases s.len(),
{
    if k > 0 {
        assert(is_ws(s[s.len() - 1]));
        assert forall|j: int| s.len() - 1 - (k - 1) <= j < s.len() - 1 implies #[trigger] is_ws(
            s.drop_last()[j],
        ) by {
            assert(is_ws(s[j]));
        }
        if k - 1 < s.len() - 1 {
            assert(s.drop_last()[s.len() - 1 - (k - 1) - 1] == s[s.len() - k - 1]);
        }
        lemma_trail_ws_unique(s.drop_last(), k - 1);
    }
}

/// The bounds `(start, end)` of `v` without its leading and trailing white space.
pub fn trim_bounds(v: &[char]) -> (r: (usize, usize))
    ensures
        r.0 <= r.1 <= v@.len(),
        v@.subrange(r.0 as int, r.1 as int) == trimmed(v@),
        r.0 == r.1 <==> all_ws(v@),
{
    let n = v.len();
    let mut a: usize = 0;
    while a < n && char_is_ws(v[a])
        invariant
            a <= n == v@.len(),
            forall|j: int| 0 <= j < a ==> #[trigger] is_ws(v@[j]),
        decreases n - a,
    {
        a = a + 1;
    }
    proof {
        lemma_lead_ws_unique(v@, a as int);
    }
    if a == n {
        assert(v@.subrange(a as int, a as int) =~= Seq::<char>::empty());
        return (a, a);
    }
    let mut b: usize = n;
    while b > a && char_is_ws(v[b - 1])
        invariant
            a < n == v@.len(),
            a <= b <= n,
            !is_ws(v@[a as int]),
            forall|j: int| b <= j < n ==> #[trigger] is_ws(v@[j]),
        decreases b,
    {
        b = b - 1;
    }
    proof {
        lemma_trail_ws_unique(v@, n - b);
        assert(!all_ws(v@)) by {
            assert(!is_ws(v@[a as int]));
        }
    }
    (a, b)
}

/// Whether `v` holds only white space (`str::trim(..).is_empty()`).
pub fn is_blank(v: &[char]) -> (b: bool)
    ensures
        b == all_ws(v@),
        b == (trimmed(v@).len() == 0),
{
    let (a, b) = trim_bounds(v);
    a == b
}

/// Equality of two character slices.
pub fn chars_eq(a: &[char], b: &[char]) -> (r: bool)
    ensures
        r == (a@ == b@),
{
    if a.len() != b.len() {
        return false;
    }
    let n = a.len();
    for i in 0..n
        invariant
            n == a@.len() == b@.len(),
            forall|j: int| 0 <= j < i ==> a@[j] == b@[j],
    {
        if a[i] != b[i] {
            assert(a@[i as int] != b@[i as int]);
            return false;
        }
    }
    assert(a@ =~= b@);
    true
}

/// Copies the characters of `s` into a vector.
pub fn chars_of(s: &str) -> (v: Vec<char>)
    ensures
        v@ == s@,
{
    let mut v: Vec<char> = Vec::new();
    for c in it: s.chars()
        invariant
            v@ == it.seq().take(it.index()),
            it.seq() == s@,
    {
        v.push(c);
    }
    v
}

/// Builds a `String` from characters. Calls `String::from_iter`; the
/// contract claims that the string holds exactly those characters, in order.
#[verifier::external_body]
pub(crate) fn string_from_chars(v: &[char]) -> (s: String)
    ensures
        s@ == v@,
{
    String::from_iter(v)
}

/// Appends all of `src` to `dst`.
pub fn push_all(dst: &mut Vec<char>, src: &[char])
    ensures
        final(dst)@ == old(dst)@ + src@,
{
    let n = src.len();
    for i in 0..n
        invariant
            n == src@.len(),
            dst@ == old(dst)@ + src@.take(i as int),
    {
        dst.push(src[i]);
        assert(src@.take(i + 1) =~= src@.take(i as int).push(src@[i as int]));
    }
    assert(src@.take(n as int) =~= src@);
}

/// ASCII-only lower casing of one character.
pub open spec fn ascii_lower(c: char) -> char {
    if 'A' <= c && c <= 'Z' {
        ((c as u32) + 32) as char
    } else {
        c
    }
}

/// `a` and `b` agree once ASCII upper case letters are folded.
pub open spec fn eq_ascii_ci(a: Seq<char>, b: Seq<char>) -> bool {
    a.len() == b.len() && forall|i: int| 0 <= i < a.len() ==> ascii_lower(#[trigger] a[i])
        == ascii_lower(b[i])
}

/// `s` ends with `suffix`, comparing without ASCII case.
pub open spec fn ends_with_ascii_ci(s: Seq<char>, suffix: Seq<char>) -> bool {
    suffix.len() <= s.len() && eq_ascii_ci(s.subrange(s.len() - suffix.len(), s.len() as int), suffix)
}

/// Executable ASCII lower casing.
pub fn char_ascii_lower(c: char) -> (r: char)
    ensures
        r == ascii_lower(c),
{
    if 'A' <= c && c <= 'Z' {
        let u: u32 = c as u32 + 32;
        proof {
            assert(u < 0xD800);
        }
        char_from_ascii_code(u)
    } else {
        c
    }
}

/// The character with code `u`, for `u` below the surrogate range.
fn char_from_ascii_code(u: u32) -> (c: char)
    requires
        u < 0x80,
    ensures
        c == u as char,
        c as u32 == u,
{
    let b: u8 = u as u8;
    b as char
}

/// Executable [`eq_ascii_ci`] on a range of `s` against `t`.
pub fn range_eq_ascii_ci(s: &[char], start: usize, t: &[char]) -> (b: bool)
    requires
        start + t@.len() <= s@.len(),
    ensures
        b == eq_ascii_ci(s@.subrange(start as int, start + t@.len()), t@),
{
    let n = t.len();
    let mut i: usize = 0;
    while i < n
        invariant
            n == t@.len(),
            start + n <= s@.len(),
            s@.len() == s.len(),
            i <= n,
            forall|j: int| 0 <= j < i ==> ascii_lower(#[trigger] s@[start + j]) == ascii_lower(t@[j]),
        decreases n - i,
    {
        if char_ascii_lower(s[start + i]) != char_ascii_lower(t[i]) {
            proof {
                let sub = s@.subrange(start as int, start + n);
                assert(ascii_lower(sub[i as int]) != ascii_lower(t@[i as int]));
            }
            return false;
        }
        i = i + 1;
    }
    proof {
        let sub = s@.subrange(start as int, start + n);
        assert forall|j: int| 0 <= j < sub.len() implies ascii_lower(#[trigger] sub[j])
            == ascii_lower(t@[j]) by {
            assert(sub[j] == s@[start + j]);
        }
    }
    true
}

/// Executable [`ends_with_ascii_ci`].
pub fn ends_with_ci(s: &[char], suffix: &[char]) -> (b: bool)
    ensures
        b == ends_with_ascii_ci(s@, suffix@),
{
    if suffix.len() > s.len() {
        return false;
    }
    range_eq_ascii_ci(s, s.len() - suffix.len(), suffix)
}

/// Executable [`eq_ascii_ci`].
pub fn equals_ci(s: &[char], t: &[char]) -> (b: bool)
    ensures
        b == eq_ascii_ci(s@, t@),
{
    if s.len() != t.len() {
        return false;
    }
    let r = range_eq_ascii_ci(s, 0, t);
    assert(s@.subrange(0, t@.len() as int) =~= s@);
    r
}

/// The three dots that stand for left-out text.
pub open spec fn ellipsis() -> Seq<char> {
    seq!['.', '.', '.']
}

/// What the file views show of a name that may be too long: names of at
/// most `max` characters stay whole; longer ones keep `ceil(k/2)` leading and
/// `floor(k/2)` trailing characters around "...", with `k = max - 3`, and
/// collapse to "..." when `k` is zero.
pub open spec fn truncated(s: Seq<char>, max: nat) -> Seq<char> {
    if s.len() > max {
        let available: nat = if max >= 3 { (max - 3) as nat } else { 0 };
        if available == 0 {
            ellipsis()
        } else {
            let front = available / 2 + available % 2;
            let back = available / 2;
            s.take(front as int) + ellipsis() + s.skip(s.len() - back)
        }
    } else {
        s
    }
}

/// A shortened name takes exactly the room it is given (when that is at
/// least the three dots), keeps its first and last characters, and a name
/// that fits is shown whole.
pub proof fn lemma_truncated_fits(s: Seq<char>, max: nat)
    ensures
        s.len() <= max ==> truncated(s, max) == s,
        s.len() > max && max >= 3 ==> truncated(s, max).len() == max,
        s.len() > max && max >= 5 ==> truncated(s, max)[0] == s[0] && truncated(s, max).last()
            == s.last(),
        s.len() > max && max < 4 ==> truncated(s, max) == ellipsis(),
{
    if s.len() > max && max >= 4 {
        let available = (max - 3) as nat;
        let front = available / 2 + available % 2;
        let back = available / 2;
        let t = truncated(s, max);
        assert(t == s.take(front as int) + ellipsis() + s.skip(s.len() - back));
        if max >= 5 {
            assert(t[0] == s[0]);
            assert(t.last() == s.skip(s.len() - back).last());
        }
    }
}

fn push_ellipsis(out: &mut Vec<char>)
    ensures
        final(out)@ == old(out)@ + ellipsis(),
{
    out.push('.');
    out.push('.');
    out.push('.');
}

fn truncated_chars(v: &[char], max: usize) -> (out: Vec<char>)
    ensures
        out@ == truncated(v@, max as nat),
{
    let count = v.len();
    if count > max {
        let available: usize = if max >= 3 { max - 3 } else { 0 };
        let mut out: Vec<char> = Vec::new();
        if available == 0 {
            push_ellipsis(&mut out);
            return out;
        }
        let front = available / 2 + available % 2;
        let back = available / 2;
        let mut i: usize = 0;
        while i < front
            invariant
                front < count == v@.len(),
                i <= front,
                out@ == v@.take(i as int),
            decreases front - i,
        {
            out.push(v[i]);
            i = i + 1;
            assert(v@.take(i as int) =~= v@.take(i - 1).push(v@[i - 1]));
        }
        push_ellipsis(&mut out);
        let start = count - back;
        let mut j: usize = start;
        while j < count
            invariant
                count == v@.len(),
                start <= j <= count,
                out@ == v@.take(front as int) + ellipsis() + v@.subrange(start as int, j as int),
            decreases count - j,
        {
            out.push(v[j]);
            j = j + 1;
            assert(v@.subrange(start as int, j as int) =~= v@.subrange(start as int, j - 1).push(
                v@[j - 1],
            ));
        }
        assert(v@.subrange(start as int, count as int) =~= v@.skip(start as int));
        out
    } else {
        let mut out: Vec<char> = Vec::new();
        push_all(&mut out, v);
        out
    }
}

/// Shortens a name for display, as [`truncated`] states.
pub fn truncate_text(s: &str, max: usize) -> (r: String)
    ensures
        r@ == truncated(s@, max as nat),
{
    let v = chars_of(s);
    let out = truncated_chars(&v, max);
    string_from_chars(&out)
}

/// The character that the file list shows in place of `c`: spaces become
/// no-break spaces and hyphens non-breaking hyphens, so that a name is not
/// wrapped.
pub open spec fn unbreakable(c: char) -> char {
    if c == ' ' {
        '\u{00A0}'
    } else if c == '-' {
        '\u{2011}'
    } else {
        c
    }
}

/// `s` with each character replaced by [`unbreakable`].
pub open spec fn unbreakable_text(s: Seq<char>) -> Seq<char> {
    s.map_values(|c: char| unbreakable(c))
}

fn char_unbreakable(c: char) -> (r: char)
    ensures
        r == unbreakable(c),
{
    if c == ' ' {
        '\u{00A0}'
    } else if c == '-' {
        '\u{2011}'
    } else {
        c
    }
}

/// The label that the file list shows for a name: shortened as
/// [`truncate_text`] does, with spaces and hyphens made unbreakable (the
/// inserted "..." is kept as it is).
pub open spec fn safe_name(s: Seq<char>, max: nat) -> Seq<char> {
    if s.len() <= max {
        unbreakable_text(s)
    } else {
        let available: nat = if max >= 3 { (max - 3) as nat } else { 0 };
        if available == 0 {
            ellipsis()
        } else {
            let front = available / 2 + available % 2;
            let back = available / 2;
            unbreakable_text(s.take(front as int)) + ellipsis() + unbreakable_text(
                s.skip(s.len() - back),
            )
        }
    }
}

fn push_unbreakable(out: &mut Vec<char>, v: &[char], from: usize, to: usize)
    requires
        from <= to <= v@.len(),
    ensures
        final(out)@ == old(out)@ + unbreakable_text(v@.subrange(from as int, to as int)),
{
    let mut j: usize = from;
    while j < to
        invariant
            from <= j <= to <= v@.len(),
            out@ == old(out)@ + unbreakable_text(v@.subrange(from as int, j as int)),
        decreases to - j,
    {
        out.push(char_unbreakable(v[j]));
        j = j + 1;
        assert(unbreakable_text(v@.subrange(from as int, j as int)) =~= unbreakable_text(
            v@.subrange(from as int, j - 1),
        ).push(unbreakable(v@[j - 1])));
    }
}

/// Builds the file-list label of a name, as [`safe_name`] states.
pub fn format_safe_name(s: &str, max_chars: usize) -> (r: String)
    ensures
        r@ == safe_name(s@, max_chars as nat),
{
    let v = chars_of(s);
    let count = v.len();
    let mut out: Vec<char> = Vec::new();
    if count <= max_chars {
        push_unbreakable(&mut out, &v, 0, count);
        assert(v@.subrange(0, count as int) =~= v@);
    } else {
        let available: usize = if max_chars >= 3 { max_chars - 3 } else { 0 };
        if available == 0 {
            push_ellipsis(&mut out);
        } else {
            let front = available / 2 + available % 2;
            let back = available / 2;
            push_unbreakable(&mut out, &v, 0, front);
            push_ellipsis(&mut out);
            push_unbreakable(&mut out, &v, count - back, count);
            assert(v@.subrange(0, front as int) =~= v@.take(front as int));
            assert(v@.subrange(count - back, count as int) =~= v@.skip(count - back));
        }
    }
    string_from_chars(&out)
}

} // verus!

verus! {

/// The ASCII digit for `d`, for `d < 10`.
pub open spec fn digit_char(d: nat) -> char {
    (('0' as u32) + d) as char
}

/// The decimal notation of `n`, without leading zeros (as `{}` prints it).
pub open spec fn decimal(n: nat) -> Seq<char>
    decreases n,
{
    if n < 10 {
        seq![digit_char(n)]
    } else {
        decimal(n / 10).push(digit_char(n % 10))
    }
}

/// Executable [`digit_char`].
pub fn digit_to_char(d: u128) -> (c: char)
    requires
        d < 10,
    ensures
        c == digit_char(d as nat),
{
    let u: u32 = 48 + d as u32;
    char_from_ascii_code(u)
}

/// The decimal notation of `n` as characters.
pub fn decimal_chars(n: u128) -> (v: Vec<char>)
    ensures
        v@ == decimal(n as nat),
    decreases n,
{
    if n < 10 {
        let mut v: Vec<char> = Vec::new();
        v.push(digit_to_char(n));
        v
    } else {
        let mut v = decimal_chars(n / 10);
        v.push(digit_to_char(n % 10));
        v
    }
}

/// The decimal notation of `n` as a `String`.
pub fn decimal_string(n: u128) -> (s: String)
    ensures
        s@ == decimal(n as nat),
{
    let v = decimal_chars(n);
    string_from_chars(&v)
}

} // verus!

verus! {

/// Exact equality of two strings.
pub fn str_equals(a: &str, b: &str) -> (r: bool)
    ensures
        r == (a@ == b@),
{
    chars_eq(&chars_of(a), &chars_of(b))
}

} // verus!

verus! {

/// `s` holds `pat` as a contiguous part.
pub open spec fn contains_text(s: Seq<char>, pat: Seq<char>) -> bool {
    exists|i: int| 0 <= i <= s.len() - pat.len() && #[trigger] s.subrange(i, i + pat.len()) == pat
}

/// Whether `s` holds `pat` (`str::contains`).
pub fn str_contains(s: &str, pat: &str) -> (b: bool)
    ensures
        b == contains_text(s@, pat@),
{
    let v = chars_of(s);
    let p = chars_of(pat);
    let n = v.len();
    let m = p.len();
    if m > n {
        proof {
            if contains_text(s@, pat@) {
                let i = choose|i: int|
                    0 <= i <= s@.len() - pat@.len() && #[trigger] s@.subrange(i, i + pat@.len())
                        == pat@;
            }
        }
        return false;
    }
    let mut i: usize = 0;
    while i <= n - m
        invariant
            m <= n,
            n == v@.len(),
            m == p@.len(),
            v@ == s@,
            p@ == pat@,
            i <= n - m + 1,
            forall|k: int| 0 <= k < i ==> #[trigger] v@.subrange(k, k + m) != p@,
        decreases n - m + 1 - i,
    {
        let mut j: usize = 0;
        while j < m && v[i + j] == p[j]
            invariant
                m <= n,
                i <= n - m,
                n == v@.len(),
                m == p@.len(),
                j <= m,
                forall|k: int| 0 <= k < j ==> v@[i + k] == p@[k],
            decreases m - j,
        {
            j = j + 1;
        }
        if j == m {
            assert(v@.subrange(i as int, i + m) =~= p@);
            return true;
        }
        assert(v@.subrange(i as int, i + m)[j as int] != p@[j as int]);
        i = i + 1;
    }
    false
}

/// `a` followed by `b` and `c`.
pub fn concat3(a: &str, b: &str, c: &str) -> (s: String)
    ensures
        s@ == a@ + b@ + c@,
{
    let mut s = String::from_str(a);
    s.append(b);
    s.append(c);
    s
}

} // verus!

verus! {

/// Scans `s` for white-space separated words: the words already closed,
/// and the word still open at the end.
pub open spec fn word_scan(s: Seq<char>) -> (Seq<Seq<char>>, Seq<char>)
    decreases s.len(),
{
    if s.len() == 0 {
        (Seq::empty(), Seq::empty())
    } else {
        let (done, cur) = word_scan(s.drop_last());
        if is_ws(s.last()) {
            (if cur.len() > 0 {
                done.push(cur)
            } else {
                done
            }, Seq::empty())
        } else {
            (done, cur.push(s.last()))
        }
    }
}

/// The words of `s`: its maximal runs of characters that are not white
/// space (`str::split_whitespace`).
pub open spec fn words(s: Seq<char>) -> Seq<Seq<char>> {
    let (done, cur) = word_scan(s);
    if cur.len() > 0 {
        done.push(cur)
    } else {
        done
    }
}

/// Splits `s` into its words, as [`words`] states.
pub fn split_words(s: &str) -> (r: Vec<String>)
    ensures
        r@.len() == words(s@).len(),
        forall|i: int| 0 <= i < r@.len() ==> #[trigger] r@[i]@ == words(s@)[i],
{
    let v = chars_of(s);
    let n = v.len();
    let mut done: Vec<String> = Vec::new();
    let mut cur: Vec<char> = Vec::new();
    let mut i: usize = 0;
    while i < n
        invariant
            n == v@.len(),
            v@ == s@,
            i <= n,
            done@.len() == word_scan(v@.take(i as int)).0.len(),
            forall|k: int| 0 <= k < done@.len() ==> #[trigger] done@[k]@ == word_scan(v@.take(i as int)).0[k],
            cur@ == word_scan(v@.take(i as int)).1,
        decreases n - i,
    {
        let c = v[i];
        assert(v@.take(i + 1).drop_last() =~= v@.take(i as int));
        assert(v@.take(i + 1).last() == c);
        if char_is_ws(c) {
            if cur.len() > 0 {
                let w = string_from_chars(&cur);
                done.push(w);
            }
            cur = Vec::new();
            assert(cur@ =~= Seq::<char>::empty());
        } else {
            cur.push(c);
        }
        i = i + 1;
    }
    assert(v@.take(n as int) =~= v@);
    if cur.len() > 0 {
        let w = string_from_chars(&cur);
        done.push(w);
    }
    done
}

/// `s` with every occurrence of `pat` (taken from left to right, without
/// overlaps) replaced by `rep` (`str::replace` for a non-empty pattern).
pub open spec fn replaced(s: Seq<char>, pat: Seq<char>, rep: Seq<char>) -> Seq<char>
    decreases s.len(),
{
    if pat.len() == 0 || s.len() < pat.len() {
        s
    } else if s.take(pat.len() as int) == pat {
        rep + replaced(s.skip(pat.len() as int), pat, rep)
    } else {
        seq![s[0]] + replaced(s.drop_first(), pat, rep)
    }
}

/// Replaces every occurrence of `pat` in `s` by `rep`, as [`replaced`]
/// states.
pub fn replace_text(s: &str, pat: &str, rep: &str) -> (r: String)
    requires
        pat@.len() > 0,
    ensures
        r@ == replaced(s@, pat@, rep@),
{
    let v = chars_of(s);
    let p = chars_of(pat);
    let w = chars_of(rep);
    let n = v.len();
    let m = p.len();
    let mut out: Vec<char> = Vec::new();
    let mut i: usize = 0;
    assert(v@.skip(0) =~= v@);
    while i < n
        invariant
            n == v@.len(),
            m == p@.len(),
            m > 0,
            v@ == s@,
            p@ == pat@,
            w@ == rep@,
            i <= n,
            out@ + replaced(v@.skip(i as int), p@, w@) == replaced(v@, p@, w@),
        decreases n - i,
    {
        let ghost rest = v@.skip(i as int);
        if n - i >= m && range_eq(&v, i, &p) {
            assert(rest.take(m as int) =~= v@.subrange(i as int, i + m));
            assert(rest.skip(m as int) =~= v@.skip(i + m));
            let ghost before = out@;
            push_all(&mut out, &w);
            assert(out@ + replaced(v@.skip(i + m), p@, w@) =~= before + (w@ + replaced(
                rest.skip(m as int),
                p@,
                w@,
            )));
            i = i + m;
        } else {
            proof {
                if n - i >= m {
                    assert(rest.take(m as int) =~= v@.subrange(i as int, i + m));
                }
                assert(rest.drop_first() =~= v@.skip(i + 1));
            }
            let ghost before = out@;
            out.push(v[i]);
            proof {
                if rest.len() < m {
                    assert(replaced(rest, p@, w@) == rest);
                    assert(replaced(rest.drop_first(), p@, w@) == rest.drop_first());
                    assert(rest =~= seq![rest[0]] + rest.drop_first());
                }
                assert(out@ + replaced(v@.skip(i + 1), p@, w@) =~= before + (seq![v@[i as int]]
                    + replaced(rest.drop_first(), p@, w@)));
            }
            i = i + 1;
        }
    }
    assert(v@.skip(n as int) =~= Seq::<char>::empty());
    assert(out@ + Seq::<char>::empty() =~= out@);
    string_from_chars(&out)
}

/// Whether `v[start..start + t.len()]` equals `t`.
pub fn range_eq(v: &[char], start: usize, t: &[char]) -> (b: bool)
    requires
        start + t@.len() <= v@.len(),
    ensures
        b == (v@.subrange(start as int, start + t@.len()) == t@),
{
    let m = t.len();
    let mut j: usize = 0;
    while j < m
        invariant
            m == t@.len(),
            start + m <= v@.len(),
            v@.len() == v.len(),
            j <= m,
            forall|k: int| 0 <= k < j ==> v@[start + k] == t@[k],
        decreases m - j,
    {
        if v[start + j] != t[j] {
            assert(v@.subrange(start as int, start + m)[j as int] != t@[j as int]);
            return false;
        }
        j = j + 1;
    }
    assert(v@.subrange(start as int, start + m) =~= t@);
    true
}

/// Scans `s` for lines: the lines already ended by a line feed (without it,
/// and without a carriage return right before it), and the text after the
/// last line feed.
pub open spec fn line_scan(s: Seq<char>) -> (Seq<Seq<char>>, Seq<char>)
    decreases s.len(),
{
    if s.len() == 0 {
        (Seq::empty(), Seq::empty())
    } else {
        let (done, cur) = line_scan(s.drop_last());
        if s.last() == '\n' {
            (done.push(if cur.len() > 0 && cur.last() == '\r' {
                cur.drop_last()
            } else {
                cur
            }), Seq::empty())
        } else {
            (done, cur.push(s.last()))
        }
    }
}

/// The lines of `s` (`str::lines`): a final line without a line feed counts
/// when it is not empty.
pub open spec fn lines(s: Seq<char>) -> Seq<Seq<char>> {
    let (done, cur) = line_scan(s);
    if cur.len() > 0 {
        done.push(cur)
    } else {
        done
    }
}

/// The rest of the first line in `ls` that starts with `prefix`.
pub open spec fn first_with_prefix(ls: Seq<Seq<char>>, prefix: Seq<char>) -> Option<Seq<char>>
    decreases ls.len(),
{
    if ls.len() == 0 {
        None
    } else if ls[0].len() >= prefix.len() && ls[0].take(prefix.len() as int) == prefix {
        Some(ls[0].skip(prefix.len() as int))
    } else {
        first_with_prefix(ls.drop_first(), prefix)
    }
}

proof fn lemma_first_with_prefix_push(ls: Seq<Seq<char>>, l: Seq<char>, prefix: Seq<char>)
    requires
        first_with_prefix(ls, prefix) is None,
    ensures
        first_with_prefix(ls.push(l), prefix) == first_with_prefix(seq![l], prefix),
    decreases ls.len(),
{
    if ls.len() > 0 {
        assert(ls.push(l).drop_first() =~= ls.drop_first().push(l));
        lemma_first_with_prefix_push(ls.drop_first(), l, prefix);
    } else {
        assert(ls.push(l) =~= seq![l]);
    }
}

fn line_has_prefix(line: &Vec<char>, p: &Vec<char>) -> (r: Option<Vec<char>>)
    ensures
        r is Some <==> (line@.len() >= p@.len() && line@.take(p@.len() as int) == p@),
        r matches Some(rest) ==> rest@ == line@.skip(p@.len() as int),
{
    if line.len() < p.len() {
        return None;
    }
    if !range_eq(line, 0, p) {
        assert(line@.subrange(0, p@.len() as int) =~= line@.take(p@.len() as int));
        return None;
    }
    assert(line@.subrange(0, p@.len() as int) =~= line@.take(p@.len() as int));
    let mut rest: Vec<char> = Vec::new();
    let n = line.len();
    let mut k = p.len();
    while k < n
        invariant
            p@.len() <= k <= n == line@.len(),
            rest@ == line@.subrange(p@.len() as int, k as int),
        decreases n - k,
    {
        rest.push(line[k]);
        k = k + 1;
        assert(rest@ =~= line@.subrange(p@.len() as int, k as int));
    }
    assert(rest@ =~= line@.skip(p@.len() as int));
    Some(rest)
}

/// The rest of the first line of `s` that starts with `prefix`, as
/// [`first_with_prefix`] of [`lines`] states.
pub fn find_prefixed_line(s: &str, prefix: &str) -> (r: Option<String>)
    ensures
        r is Some <==> first_with_prefix(lines(s@), prefix@) is Some,
        r matches Some(t) ==> t@ == first_with_prefix(lines(s@), prefix@)->Some_0,
{
    let v = chars_of(s);
    let p = chars_of(prefix);
    let n = v.len();
    let mut cur: Vec<char> = Vec::new();
    let mut i: usize = 0;
    while i < n
        invariant
            n == v@.len(),
            v@ == s@,
            p@ == prefix@,
            i <= n,
            cur@ == line_scan(v@.take(i as int)).1,
            first_with_prefix(line_scan(v@.take(i as int)).0, p@) is None,
        decreases n - i,
    {
        let c = v[i];
        let ghost prev = line_scan(v@.take(i as int));
        assert(v@.take(i + 1).drop_last() =~= v@.take(i as int));
        assert(v@.take(i + 1).last() == c);
        if c == '\n' {
            let k = cur.len();
            if k > 0 && cur[k - 1] == '\r' {
                let _ = cur.pop();
            }
            let line = cur;
            cur = Vec::new();
            assert(line_scan(v@.take(i + 1)).0 == prev.0.push(line@));
            proof {
                lemma_first_with_prefix_push(prev.0, line@, p@);
                assert(seq![line@].drop_first() =~= Seq::<Seq<char>>::empty());
            }
            match line_has_prefix(&line, &p) {
                Some(rest) => {
                    proof {
                        lemma_lines_extend(v@, i as int);
                    }
                    return Some(string_from_chars(&rest));
                },
                None => {
                    assert(first_with_prefix(Seq::<Seq<char>>::empty(), p@) is None);
                    assert(first_with_prefix(seq![line@], p@) is None);
                },
            }
            assert(cur@ =~= Seq::<char>::empty());
        } else {
            cur.push(c);
        }
        i = i + 1;
    }
    assert(v@.take(n as int) =~= v@);
    let ghost fin = line_scan(v@);
    if cur.len() > 0 {
        proof {
            lemma_first_with_prefix_push(fin.0, cur@, p@);
            assert(seq![cur@].drop_first() =~= Seq::<Seq<char>>::empty());
        }
        match line_has_prefix(&cur, &p) {
            Some(rest) => {
                return Some(string_from_chars(&rest));
            },
            None => {},
        }
    }
    None
}

/// The lines closed within the first `i + 1` characters are a prefix of
/// the lines of the whole text.
proof fn lemma_lines_extend(s: Seq<char>, i: int)
    requires
        0 <= i < s.len(),
        s[i] == '\n',
    ensures
        forall|p: Seq<char>|
            first_with_prefix(line_scan(s.take(i + 1)).0, p) is Some ==> first_with_prefix(
                lines(s),
                p,
            ) == first_with_prefix(line_scan(s.take(i + 1)).0, p),
{
    assert forall|p: Seq<char>| first_with_prefix(line_scan(s.take(i + 1)).0, p) is Some implies first_with_prefix(
        lines(s),
        p,
    ) == first_with_prefix(line_scan(s.take(i + 1)).0, p) by {
        lemma_line_scan_prefix(s, i + 1, s.len() as int);
        assert(s.take(s.len() as int) =~= s);
        let a = line_scan(s.take(i + 1)).0;
        let b = line_scan(s).0;
        lemma_first_with_prefix_prefix(a, b, p);
        if line_scan(s).1.len() > 0 {
            assert(b.push(line_scan(s).1).take(a.len() as int) =~= b.take(a.len() as int));
            lemma_first_with_prefix_prefix(a, b.push(line_scan(s).1), p);
        }
    }
}

/// Closed lines only grow as the text grows.
proof fn lemma_line_scan_prefix(s: Seq<char>, j: int, k: int)
    requires
        0 <= j <= k <= s.len(),
    ensures
        line_scan(s.take(j)).0.len() <= line_scan(s.take(k)).0.len(),
        line_scan(s.take(k)).0.take(line_scan(s.take(j)).0.len() as int) == line_scan(s.take(j)).0,
    decreases k - j,
{
    if j < k {
        lemma_line_scan_prefix(s, j, k - 1);
        assert(s.take(k).drop_last() =~= s.take(k - 1));
        let a = line_scan(s.take(j)).0;
        let b = line_scan(s.take(k - 1)).0;
        let c = line_scan(s.take(k)).0;
        if s.take(k).last() == '\n' {
            assert(c.take(b.len() as int) =~= b);
            assert(c.take(a.len() as int) =~= b.take(a.len() as int));
        }
    } else {
        assert(line_scan(s.take(j)).0.take(line_scan(s.take(j)).0.len() as int) =~= line_scan(
            s.take(j),
        ).0);
    }
}

proof fn lemma_first_with_prefix_prefix(a: Seq<Seq<char>>, b: Seq<Seq<char>>, p: Seq<char>)
    requires
        a.len() <= b.len(),
        b.take(a.len() as int) == a,
        first_with_prefix(a, p) is Some,
    ensures
        first_with_prefix(b, p) == first_with_prefix(a, p),
    decreases a.len(),
{
    assert(a.len() > 0);
    assert(b[0] == a[0]);
    if !(a[0].len() >= p.len() && a[0].take(p.len() as int) == p) {
        assert(b.drop_first().take(a.drop_first().len() as int) =~= a.drop_first());
        lemma_first_with_prefix_prefix(a.drop_first(), b.drop_first(), p);
    }
}

} // verus!
