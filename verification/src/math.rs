//! Byte counts for people, the file-name rule, and the device check that
//! guards every destructive operation.
use vstd::prelude::*;

use crate::errors::AppError;
use crate::text::{
    chars_of, decimal, decimal_chars, digit_char, digit_to_char, push_all, string_from_chars,
    trim_bounds, trimmed,
};

verus! {

pub const KB: u64 = 1_000;

pub const MB: u64 = 1_000_000;

pub const GB: u64 = 1_000_000_000;

/// `num / den` rounded to the nearest integer, a tie going to the even one.
pub open spec fn rne(num: nat, den: nat) -> nat
    recommends
        den > 0,
{
    let q = num / den;
    let r = num % den;
    if 2 * r > den {
        q + 1
    } else if 2 * r == den && q % 2 == 1 {
        q + 1
    } else {
        q
    }
}

/// Two to the power `e`.
pub open spec fn pow2n(e: nat) -> nat
    decreases e,
{
    if e == 0 {
        1
    } else {
        2 * pow2n((e - 1) as nat)
    }
}

/// How many low bits `n` has beyond the 53 that a double holds.
pub open spec fn excess_bits(n: nat) -> nat
    decreases n,
{
    if n < 0x20_0000_0000_0000 {
        0
    } else {
        1 + excess_bits(n / 2)
    }
}

/// `n` as the nearest double (ties to even), as `n as f64` gives it.
pub open spec fn to_double(n: nat) -> nat {
    let s = excess_bits(n);
    rne(n, pow2n(s)) * pow2n(s)
}

/// The exponent, from `k` down, at which `a / b` times two to it first falls
/// below two to the 53rd: the scale at which the double nearest to `a / b`
/// has its 53 significant bits.
pub open spec fn scale_exp(a: nat, b: nat, k: nat) -> nat
    decreases k,
{
    if k == 0 || (a * pow2n(k)) / b < pow2n(53) {
        k
    } else {
        scale_exp(a, b, (k - 1) as nat)
    }
}

/// The tenths that `format!("{:.1}", size as f64 / unit as f64)` prints,
/// for `size >= unit`: the quotient is the double nearest to the quotient of
/// the doubles (ties to even), and the printed value is that double's exact
/// value rounded to the nearest tenth, a tie going to the even tenth.
pub open spec fn double_tenths(size: nat, unit: nat) -> nat {
    let a = to_double(size);
    let k = scale_exp(a, unit, 52);
    let m = rne(a * pow2n(k), unit);
    rne(m * 10, pow2n(k))
}

/// A count of tenths written with one decimal, such as "1.6".
pub open spec fn one_decimal(t: nat) -> Seq<char> {
    decimal(t / 10).push('.').push(digit_char(t % 10))
}

/// How a byte count is shown: decimal units (1 KB = 1000 bytes); gigabytes
/// and megabytes with one decimal (as `{:.1}` prints the `f64` quotient),
/// kilobytes as a whole (rounded down) number, bytes as they are.
pub open spec fn bytes_label(size: nat) -> Seq<char> {
    if size >= GB {
        one_decimal(double_tenths(size, GB as nat)) + " GB"@
    } else if size >= MB {
        one_decimal(double_tenths(size, MB as nat)) + " MB"@
    } else if size >= KB {
        decimal(size / (KB as nat)) + " KB"@
    } else {
        decimal(size) + " B"@
    }
}

fn rne_exec(num: u128, den: u128) -> (r: u128)
    requires
        den > 0,
        den <= u128::MAX / 2,
        num < u128::MAX / 2,
    ensures
        r == rne(num as nat, den as nat),
{
    let q = num / den;
    let r = num % den;
    if 2 * r > den {
        q + 1
    } else if 2 * r == den && q % 2 == 1 {
        q + 1
    } else {
        q
    }
}

proof fn lemma_pow2n_pos(e: nat)
    ensures
        pow2n(e) >= 1,
    decreases e,
{
    if e > 0 {
        lemma_pow2n_pos((e - 1) as nat);
    }
}

proof fn lemma_pow2n_ge(e: nat)
    ensures
        pow2n(e) >= e + 1,
    decreases e,
{
    if e > 0 {
        lemma_pow2n_ge((e - 1) as nat);
    }
}

proof fn lemma_pow2n_values()
    ensures
        pow2n(11) == 2048,
        pow2n(52) == 0x10_0000_0000_0000,
        pow2n(53) == 0x20_0000_0000_0000,
{
    reveal_with_fuel(pow2n, 54);
}

/// `size as f64` as an integer: the nearest double to `size`.
fn to_double_exec(size: u64) -> (a: u128)
    ensures
        a == to_double(size as nat),
        a <= 0x2_0000_0000_0000_0000,
{
    let n: u128 = size as u128;
    let mut t: u128 = n;
    let mut p: u128 = 1;
    let mut s: u64 = 0;
    assert(pow2n(0) == 1);
    assert(n / 1 == n);
    while t >= 0x20_0000_0000_0000
        invariant
            n == size,
            p == pow2n(s as nat),
            p >= 1,
            t * p <= n,
            t == n / p,
            s <= 4096,
            p > 1 ==> t >= 0x10_0000_0000_0000,
            excess_bits(n as nat) == s + excess_bits(t as nat),
        decreases t,
    {
        assert(p <= 2048) by (nonlinear_arith)
            requires
                t * p <= n,
                t >= 0x20_0000_0000_0000,
                n <= 0xffff_ffff_ffff_ffff,
        ;
        assert(t / 2 == (n as int) / (p as int * 2)) by {
            vstd::arithmetic::div_mod::lemma_div_denominator(n as int, p as int, 2);
        }
        assert((t / 2) * (p * 2) <= t * p) by (nonlinear_arith);
        t = t / 2;
        p = p * 2;
        proof {
            lemma_pow2n_ge((s + 1) as nat);
        }
        s = s + 1;
    }
    proof {
        lemma_pow2n_pos(s as nat);
    }
    assert(p <= 4096) by (nonlinear_arith)
        requires
            t * p <= n,
            p > 1 ==> t >= 0x10_0000_0000_0000,
            n <= 0xffff_ffff_ffff_ffff,
            p >= 1,
    ;
    let m = rne_exec(n, p);
    assert(m <= 0x20_0000_0000_0000);
    assert(m * p <= 0x20_0000_0000_0000 * 4096) by (nonlinear_arith)
        requires
            m <= 0x20_0000_0000_0000,
            p <= 4096,
    ;
    m * p
}

/// The tenths that `{:.1}` prints for `size as f64 / unit as f64`, as
/// [`double_tenths`] states.
fn double_tenths_exec(size: u64, unit: u64) -> (t: u128)
    requires
        unit > 0,
        size >= unit,
    ensures
        t == double_tenths(size as nat, unit as nat),
{
    proof {
        lemma_pow2n_values();
    }
    let a = to_double_exec(size);
    let b: u128 = unit as u128;
    let mut k: u64 = 52;
    let mut p: u128 = 0x10_0000_0000_0000;
    assert(a * p <= 0x2_0000_0000_0000_0000 * 0x10_0000_0000_0000) by (nonlinear_arith)
        requires
            a <= 0x2_0000_0000_0000_0000,
            p == 0x10_0000_0000_0000,
    ;
    while k > 0 && (a * p) / b >= 0x20_0000_0000_0000
        invariant
            k <= 52,
            p == pow2n(k as nat),
            p <= 0x10_0000_0000_0000,
            p >= 1,
            a <= 0x2_0000_0000_0000_0000,
            a * p <= 0x2_0000_0000_0000_0000 * 0x10_0000_0000_0000,
            b == unit,
            b > 0,
            scale_exp(a as nat, b as nat, 52) == scale_exp(a as nat, b as nat, k as nat),
            pow2n(53) == 0x20_0000_0000_0000,
        decreases k,
    {
        assert(pow2n(k as nat) == 2 * pow2n((k - 1) as nat));
        k = k - 1;
        p = p / 2;
        assert(a * p <= 0x2_0000_0000_0000_0000 * 0x10_0000_0000_0000) by (nonlinear_arith)
            requires
                a * (2 * p) <= 0x2_0000_0000_0000_0000 * 0x10_0000_0000_0000,
        ;
        proof {
            lemma_pow2n_pos(k as nat);
        }
    }
    let m = rne_exec(a * p, b);
    assert(m <= 0x2_0000_0000_0000_0000 * 0x10_0000_0000_0000 + 1) by (nonlinear_arith)
        requires
            m <= (a as int * p as int) / (b as int) + 1,
            a * p <= 0x2_0000_0000_0000_0000 * 0x10_0000_0000_0000,
            b >= 1,
    ;
    rne_exec(m * 10, p)
}

fn one_decimal_chars(t: u128) -> (v: Vec<char>)
    ensures
        v@ == one_decimal(t as nat),
{
    let mut v = decimal_chars(t / 10);
    v.push('.');
    v.push(digit_to_char(t % 10));
    v
}

/// Renders a byte count, as [`bytes_label`] states. The rounding of
/// megabytes and gigabytes is worked out in exact integer arithmetic.
pub fn format_bytes(size: u64) -> (s: String)
    ensures
        s@ == bytes_label(size as nat),
{
    let mut v: Vec<char>;
    let unit: &str;
    if size >= GB {
        v = one_decimal_chars(double_tenths_exec(size, GB));
        unit = " GB";
    } else if size >= MB {
        v = one_decimal_chars(double_tenths_exec(size, MB));
        unit = " MB";
    } else if size >= KB {
        v = decimal_chars((size / KB) as u128);
        unit = " KB";
    } else {
        v = decimal_chars(size as u128);
        unit = " B";
    }
    let u = chars_of(unit);
    push_all(&mut v, &u);
    string_from_chars(&v)
}

/// A name that the file manager refuses for a new or renamed entry: once
/// trimmed it is empty, ".", "..", or holds a slash or a NUL character.
pub open spec fn invalid_file_name(name: Seq<char>) -> bool {
    let t = trimmed(name);
    ||| t.len() == 0
    ||| t == seq!['.']
    ||| t == seq!['.', '.']
    ||| t.contains('/')
    ||| t.contains('\0')
}

/// Checks a user-typed file name and hands it back unchanged (white space
/// included) when it is acceptable.
pub fn sanitize_filename(name: &str) -> (r: Result<&str, AppError>)
    ensures
        invalid_file_name(name@) ==> (r matches Err(AppError::Security(m)) && m@
            == "Invalid filename."@),
        !invalid_file_name(name@) ==> r == Ok::<&str, AppError>(name),
{
    let v = chars_of(name);
    let (a, b) = trim_bounds(&v);
    let ghost t = v@.subrange(a as int, b as int);
    let mut bad = a == b;
    if !bad && b - a == 1 && v[a] == '.' {
        assert(t =~= seq!['.']);
        bad = true;
    }
    if !bad && b - a == 2 && v[a] == '.' && v[a + 1] == '.' {
        assert(t =~= seq!['.', '.']);
        bad = true;
    }
    if !bad {
        let mut i = a;
        while i < b && !bad
            invariant
                a <= i <= b <= v@.len(),
                t == v@.subrange(a as int, b as int),
                !bad ==> forall|j: int| a <= j < i ==> v@[j] != '/' && v@[j] != '\0',
                bad ==> (t.contains('/') || t.contains('\0')),
            decreases b - i + (if bad { 0int } else { 1int }),
        {
            if v[i] == '/' || v[i] == '\0' {
                assert(t[i - a] == v@[i as int]);
                bad = true;
            } else {
                i = i + 1;
            }
        }
        proof {
            if !bad {
                assert(!t.contains('/')) by {
                    assert forall|j: int| 0 <= j < t.len() implies t[j] != '/' by {
                        assert(t[j] == v@[a + j]);
                    }
                }
                assert(!t.contains('\0')) by {
                    assert forall|j: int| 0 <= j < t.len() implies t[j] != '\0' by {
                        assert(t[j] == v@[a + j]);
                    }
                }
                if t.len() == 1 {
                    assert(t[0] != '.' || b - a != 1);
                    assert(t != seq!['.']) by {
                        if t == seq!['.'] {
                            assert(t[0] == '.');
                        }
                    }
                }
                if t.len() == 2 {
                    assert(t != seq!['.', '.']) by {
                        if t == seq!['.', '.'] {
                            assert(t[0] == '.' && t[1] == '.');
                        }
                    }
                }
            }
        }
    }
    if bad {
        Err(AppError::security("Invalid filename."))
    } else {
        Ok(name)
    }
}

/// The kinds of file system objects that the file manager distinguishes.
#[derive(Debug, Clone, Copy, PartialEq, Eq)]
pub enum FileKind {
    Regular,
    Directory,
    Symlink,
    BlockDevice,
    CharDevice,
    Fifo,
    Socket,
}

/// What the device check reads of a file's metadata.
#[derive(Debug, Clone, Copy, PartialEq, Eq)]
pub struct MetaInfo {
    pub kind: FileKind,
    /// Number of hard links.
    pub nlink: u64,
}

/// A device node, FIFO or socket: objects that copying, shredding and
/// deleting must not touch.
pub open spec fn is_system_object(k: FileKind) -> bool {
    k == FileKind::BlockDevice || k == FileKind::CharDevice || k == FileKind::Fifo || k
        == FileKind::Socket
}

/// Refuses device nodes, FIFOs and sockets.
pub fn check_security(meta: &MetaInfo) -> (r: Result<(), AppError>)
    ensures
        is_system_object(meta.kind) ==> (r matches Err(AppError::Security(m)) && m@
            == "Target is a system device. Cannot operate safely."@),
        !is_system_object(meta.kind) ==> r == Ok::<(), AppError>(()),
{
    match meta.kind {
        FileKind::BlockDevice | FileKind::CharDevice | FileKind::Fifo | FileKind::Socket => {
            Err(AppError::security("Target is a system device. Cannot operate safely."))
        },
        _ => Ok(()),
    }
}

/// Whether an operation on this file deserves the hard-link warning: the file
/// has more than one link, so changing its contents shows through others.
pub fn warns_about_links(meta: &MetaInfo) -> (b: bool)
    ensures
        b == (meta.nlink > 1),
{
    meta.nlink > 1
}

} // verus!
