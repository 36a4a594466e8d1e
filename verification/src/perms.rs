//! Unix permission bits as the properties dialog shows and edits them: four
//! or more octal digits.
use vstd::prelude::*;

use crate::text::{chars_of, string_from_chars};

verus! {

/// The octal digit character for `d < 8`.
pub open spec fn octal_char(d: nat) -> char {
    (('0' as u32) + d) as char
}

/// The octal notation of `n`, without leading zeros.
pub open spec fn octal(n: nat) -> Seq<char>
    decreases n,
{
    if n < 8 {
        seq![octal_char(n)]
    } else {
        octal(n / 8).push(octal_char(n % 8))
    }
}

/// `k` zero characters.
pub open spec fn zeros(k: nat) -> Seq<char>
    decreases k,
{
    if k == 0 {
        Seq::empty()
    } else {
        zeros((k - 1) as nat).push('0')
    }
}

/// `format!("{:04o}", n)`: the octal notation of `n`, padded on the left
/// with zeros to four characters.
pub open spec fn mode_text(n: nat) -> Seq<char> {
    let o = octal(n);
    if o.len() < 4 {
        zeros((4 - o.len()) as nat) + o
    } else {
        o
    }
}

/// The value of a string of octal digit characters.
pub open spec fn octal_value(s: Seq<char>) -> nat
    decreases s.len(),
{
    if s.len() == 0 {
        0
    } else {
        octal_value(s.drop_last()) * 8 + ((s.last() as u32) - ('0' as u32)) as nat
    }
}

pub open spec fn is_octal_digit(c: char) -> bool {
    '0' <= c && c <= '7'
}

/// Every character of `s` is an octal digit.
pub open spec fn all_octal(s: Seq<char>) -> bool {
    forall|i: int| 0 <= i < s.len() ==> is_octal_digit(#[trigger] s[i])
}

/// What `u32::from_str_radix(s, 8)` gives: an optional `+`, then at least
/// one octal digit and nothing else, with a value that fits in 32 bits.
pub open spec fn parse_octal(s: Seq<char>) -> Option<u32> {
    let body = if s.len() > 0 && s[0] == '+' {
        s.drop_first()
    } else {
        s
    };
    if body.len() == 0 || !all_octal(body) || octal_value(body) > u32::MAX {
        None
    } else {
        Some(octal_value(body) as u32)
    }
}

fn octal_chars(n: u32) -> (v: Vec<char>)
    ensures
        v@ == octal(n as nat),
    decreases n,
{
    if n < 8 {
        let mut v: Vec<char> = Vec::new();
        v.push(digit8(n));
        v
    } else {
        let mut v = octal_chars(n / 8);
        v.push(digit8(n % 8));
        v
    }
}

fn digit8(d: u32) -> (c: char)
    requires
        d < 8,
    ensures
        c == octal_char(d as nat),
{
    let b: u8 = (48 + d) as u8;
    b as char
}

/// Formats permission bits as the properties dialog shows them
/// (`{:04o}`).
pub fn format_mode(mode: u32) -> (s: String)
    ensures
        s@ == mode_text(mode as nat),
{
    let o = octal_chars(mode);
    let mut out: Vec<char> = Vec::new();
    if o.len() < 4 {
        let k = 4 - o.len();
        let mut i: usize = 0;
        while i < k
            invariant
                i <= k,
                out@ == zeros(i as nat),
            decreases k - i,
        {
            out.push('0');
            i = i + 1;
        }
    }
    let ghost pad = out@;
    let n = o.len();
    for j in 0..n
        invariant
            n == o@.len(),
            out@ == pad + o@.take(j as int),
    {
        out.push(o[j]);
        assert(o@.take(j + 1) =~= o@.take(j as int).push(o@[j as int]));
    }
    assert(o@.take(n as int) =~= o@);
    proof {
        if o@.len() >= 4 {
            assert(pad =~= Seq::<char>::empty());
        }
    }
    string_from_chars(&out)
}

/// Parses permission bits typed in the properties dialog
/// (`u32::from_str_radix(s, 8)`).
pub fn parse_mode(s: &str) -> (r: Option<u32>)
    ensures
        r == parse_octal(s@),
{
    let v = chars_of(s);
    let n = v.len();
    let mut start: usize = 0;
    if n > 0 && v[0] == '+' {
        start = 1;
    }
    let ghost body = v@.subrange(start as int, n as int);
    proof {
        if n > 0 && v@[0] == '+' {
            assert(body =~= v@.drop_first());
        } else {
            assert(body =~= v@);
        }
    }
    if start == n {
        return None;
    }
    let mut acc: u64 = 0;
    let mut i = start;
    assert(body.take(0) =~= Seq::<char>::empty());
    while i < n
        invariant
            start < n == v@.len(),
            start <= i <= n,
            v@ == s@,
            body == v@.subrange(start as int, n as int),
            body == (if s@.len() > 0 && s@[0] == '+' {
                s@.drop_first()
            } else {
                s@
            }),
            forall|k: int| 0 <= k < i - start ==> is_octal_digit(#[trigger] body[k]),
            acc == octal_value(body.take(i - start)),
            acc <= u32::MAX,
        decreases n - i,
    {
        let c = v[i];
        assert(body[i - start] == c);
        if !('0' <= c && c <= '7') {
            assert(!is_octal_digit(body[i - start]));
            return None;
        }
        let ghost prefix = body.take(i + 1 - start);
        assert(prefix.drop_last() =~= body.take(i - start));
        assert(prefix.last() == c);
        acc = acc * 8 + (c as u64 - 48);
        assert(acc == octal_value(prefix));
        i = i + 1;
        if acc > u32::MAX as u64 {
            proof {
                if all_octal(body) {
                    lemma_octal_value_mono(body, i - start);
                }
            }
            return None;
        }
    }
    assert(body.take(n - start) =~= body);
    Some(acc as u32)
}

proof fn lemma_octal_value_mono(s: Seq<char>, k: int)
    requires
        0 <= k <= s.len(),
        forall|i: int| 0 <= i < s.len() ==> is_octal_digit(#[trigger] s[i]),
    ensures
        octal_value(s.take(k)) <= octal_value(s),
    decreases s.len() - k,
{
    if k < s.len() {
        lemma_octal_value_mono(s, k + 1);
        assert(s.take(k + 1).drop_last() =~= s.take(k));
        assert(is_octal_digit(s[k]));
    }
    assert(s.take(s.len() as int) =~= s);
}

proof fn lemma_octal_roundtrip(n: nat)
    ensures
        octal(n).len() >= 1,
        forall|i: int| 0 <= i < octal(n).len() ==> is_octal_digit(#[trigger] octal(n)[i]),
        octal_value(octal(n)) == n,
    decreases n,
{
    if n < 8 {
        let c = octal_char(n);
        assert(c as u32 == 48 + n);
        assert(octal(n).drop_last() =~= Seq::<char>::empty());
        assert(octal(n).last() == c);
        assert(octal_value(octal(n)) == octal_value(octal(n).drop_last()) * 8 + ((c as u32) - ('0' as u32)) as nat);
        assert(octal_value(octal(n)) == n);
    }
    if n >= 8 {
        lemma_octal_roundtrip(n / 8);
        let o = octal(n);
        assert(o.drop_last() =~= octal(n / 8));
        let c = octal_char(n % 8);
        assert(c as u32 == 48 + n % 8);
        assert(o.last() == c);
        assert(octal_value(o) == octal_value(o.drop_last()) * 8 + ((c as u32) - ('0' as u32)) as nat);
        assert(n == (n / 8) * 8 + n % 8) by (nonlinear_arith);
        assert(octal_value(o.drop_last()) == n / 8);
        assert(octal_value(o) == n);
        assert forall|i: int| 0 <= i < o.len() implies is_octal_digit(#[trigger] o[i]) by {
            if i < o.len() - 1 {
                assert(o[i] == octal(n / 8)[i]);
            }
        }
    }
}

proof fn lemma_zeros_prefix(k: nat, o: Seq<char>)
    ensures
        octal_value(zeros(k) + o) == octal_value(o) + octal_value(zeros(k)) * pow8(o.len()),
        octal_value(zeros(k)) == 0,
        zeros(k).len() == k,
        forall|i: int| 0 <= i < k ==> #[trigger] zeros(k)[i] == '0',
    decreases o.len(), k,
{
    if o.len() > 0 {
        lemma_zeros_prefix(k, o.drop_last());
        assert((zeros(k) + o).drop_last() =~= zeros(k) + o.drop_last());
    } else {
        assert(zeros(k) + o =~= zeros(k));
        if k > 0 {
            lemma_zeros_prefix((k - 1) as nat, o);
            assert(zeros(k).drop_last() =~= zeros((k - 1) as nat));
        }
    }
    if k > 0 {
        lemma_zeros_prefix((k - 1) as nat, Seq::empty());
        assert forall|i: int| 0 <= i < k implies #[trigger] zeros(k)[i] == '0' by {
            if i < k - 1 {
                assert(zeros(k)[i] == zeros((k - 1) as nat)[i]);
            }
        }
    }
}

pub open spec fn pow8(n: nat) -> nat
    decreases n,
{
    if n == 0 {
        1
    } else {
        8 * pow8((n - 1) as nat)
    }
}

/// What the properties dialog shows for a mode reads back as that mode.
pub proof fn lemma_mode_text_roundtrip(mode: u32)
    ensures
        parse_octal(mode_text(mode as nat)) == Some(mode),
{
    let n = mode as nat;
    lemma_octal_roundtrip(n);
    let o = octal(n);
    let t = mode_text(n);
    if o.len() < 4 {
        let k = (4 - o.len()) as nat;
        lemma_zeros_prefix(k, o);
        assert forall|i: int| 0 <= i < t.len() implies is_octal_digit(#[trigger] t[i]) by {
            if i < k {
                assert(t[i] == zeros(k)[i]);
            } else {
                assert(t[i] == o[i - k]);
            }
        }
        assert(t[0] != '+');
    } else {
        assert(t[0] != '+') by {
            assert(is_octal_digit(o[0]));
        }
    }
}

} // verus!
