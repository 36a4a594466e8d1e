//! Archive formats and compression settings: which format a file name or a
//! format id stands for, what each compression level means to each codec,
//! and the names under which files are stored.
use vstd::prelude::*;

use crate::nav::{up_dir, up_from};
use crate::paths::{file_name, file_name_of, is_safe_path, render, safe_relative, strip_base, strip_prefix_text};
use crate::text::{ascii_lower, chars_eq, chars_of, ends_with_ascii_ci, ends_with_ci, eq_ascii_ci, equals_ci};

verus! {

/// How hard the compressor works.
#[derive(Clone, Copy, Debug, PartialEq, Eq, Structural)]
pub enum CompressionLevel {
    Fast,
    Normal,
    Maximum,
}

/// The archive formats that the file manager reads and writes.
#[derive(Clone, Copy, PartialEq, Eq, Debug, Structural)]
pub enum ArchiveFormat {
    Zip,
    TarBz3,
    TarZst,
    TarGz,
    Tar,
    SevenZ,
    Unsupported,
}

/// Exact equality of a string with a literal.
fn str_is(s: &str, lit: &str) -> (b: bool)
    ensures
        b == (s@ == lit@),
{
    chars_eq(&chars_of(s), &chars_of(lit))
}

/// The level that a settings string names: "Fast" and "Maximum" are
/// recognised exactly; anything else means `Normal`.
pub open spec fn level_of(s: Seq<char>) -> CompressionLevel {
    if s == "Fast"@ {
        CompressionLevel::Fast
    } else if s == "Maximum"@ {
        CompressionLevel::Maximum
    } else {
        CompressionLevel::Normal
    }
}

impl CompressionLevel {
    /// Reads a level from its settings string, as [`level_of`] states.
    pub fn from_str(s: &str) -> (l: Self)
        ensures
            l == level_of(s@),
    {
        if str_is(s, "Fast") {
            CompressionLevel::Fast
        } else if str_is(s, "Maximum") {
            CompressionLevel::Maximum
        } else {
            CompressionLevel::Normal
        }
    }
}

/// The format of a file, from its name's extension, ignoring case. The
/// first match wins, in this order: `.7z`, `.zip`, `.tar.bz3`, `.tar.zst` or
/// `.tzst`, `.tar.gz` or `.tgz`, `.tar`.
///
/// Comparing with ASCII case folding decides as lower casing the whole name
/// with full Unicode rules would: the only characters outside ASCII whose
/// lower case holds an ASCII letter are the Kelvin sign (to `k`) and the
/// dotted capital I (to `i` followed by a combining dot), and neither can
/// complete one of these suffixes.
pub open spec fn format_of_name(name: Seq<char>) -> ArchiveFormat {
    if ends_with_ascii_ci(name, ".7z"@) {
        ArchiveFormat::SevenZ
    } else if ends_with_ascii_ci(name, ".zip"@) {
        ArchiveFormat::Zip
    } else if ends_with_ascii_ci(name, ".tar.bz3"@) {
        ArchiveFormat::TarBz3
    } else if ends_with_ascii_ci(name, ".tar.zst"@) || ends_with_ascii_ci(name, ".tzst"@) {
        ArchiveFormat::TarZst
    } else if ends_with_ascii_ci(name, ".tar.gz"@) || ends_with_ascii_ci(name, ".tgz"@) {
        ArchiveFormat::TarGz
    } else if ends_with_ascii_ci(name, ".tar"@) {
        ArchiveFormat::Tar
    } else {
        ArchiveFormat::Unsupported
    }
}

/// The format that a format id of the compression wizard names ("7z",
/// "zip", "tar.bz3", "tar.zst", "tar.gz", "tar"), ignoring case. (As with
/// [`format_of_name`], ASCII case folding agrees with the full Unicode lower
/// casing for these ids.)
pub open spec fn format_of_id(id: Seq<char>) -> ArchiveFormat {
    if eq_ascii_ci(id, "7z"@) {
        ArchiveFormat::SevenZ
    } else if eq_ascii_ci(id, "zip"@) {
        ArchiveFormat::Zip
    } else if eq_ascii_ci(id, "tar.bz3"@) {
        ArchiveFormat::TarBz3
    } else if eq_ascii_ci(id, "tar.zst"@) {
        ArchiveFormat::TarZst
    } else if eq_ascii_ci(id, "tar.gz"@) {
        ArchiveFormat::TarGz
    } else if eq_ascii_ci(id, "tar"@) {
        ArchiveFormat::Tar
    } else {
        ArchiveFormat::Unsupported
    }
}

fn ends_with_lit(v: &[char], lit: &str) -> (b: bool)
    ensures
        b == ends_with_ascii_ci(v@, lit@),
{
    let t = chars_of(lit);
    ends_with_ci(v, &t)
}

fn equals_lit(v: &[char], lit: &str) -> (b: bool)
    ensures
        b == eq_ascii_ci(v@, lit@),
{
    let t = chars_of(lit);
    equals_ci(v, &t)
}

impl ArchiveFormat {
    /// The format of an archive file, as [`format_of_name`] states.
    pub fn from_filename(name: &str) -> (f: Self)
        ensures
            f == format_of_name(name@),
    {
        let v = chars_of(name);
        if ends_with_lit(&v, ".7z") {
            ArchiveFormat::SevenZ
        } else if ends_with_lit(&v, ".zip") {
            ArchiveFormat::Zip
        } else if ends_with_lit(&v, ".tar.bz3") {
            ArchiveFormat::TarBz3
        } else if ends_with_lit(&v, ".tar.zst") || ends_with_lit(&v, ".tzst") {
            ArchiveFormat::TarZst
        } else if ends_with_lit(&v, ".tar.gz") || ends_with_lit(&v, ".tgz") {
            ArchiveFormat::TarGz
        } else if ends_with_lit(&v, ".tar") {
            ArchiveFormat::Tar
        } else {
            ArchiveFormat::Unsupported
        }
    }

    /// The format that a wizard format id names, as [`format_of_id`] states.
    pub fn from_str_id(id: &str) -> (f: Self)
        ensures
            f == format_of_id(id@),
    {
        let v = chars_of(id);
        if equals_lit(&v, "7z") {
            ArchiveFormat::SevenZ
        } else if equals_lit(&v, "zip") {
            ArchiveFormat::Zip
        } else if equals_lit(&v, "tar.bz3") {
            ArchiveFormat::TarBz3
        } else if equals_lit(&v, "tar.zst") {
            ArchiveFormat::TarZst
        } else if equals_lit(&v, "tar.gz") {
            ArchiveFormat::TarGz
        } else if equals_lit(&v, "tar") {
            ArchiveFormat::Tar
        } else {
            ArchiveFormat::Unsupported
        }
    }
}

/// The deflate level used for zip archives.
pub fn zip_level(l: CompressionLevel) -> (n: i64)
    ensures
        n == match l {
            CompressionLevel::Fast => 1i64,
            CompressionLevel::Maximum => 9i64,
            CompressionLevel::Normal => 5i64,
        },
{
    match l {
        CompressionLevel::Fast => 1,
        CompressionLevel::Maximum => 9,
        CompressionLevel::Normal => 5,
    }
}

/// The zstd level used for `.tar.zst` archives.
pub fn zstd_level(l: CompressionLevel) -> (n: i32)
    ensures
        n == match l {
            CompressionLevel::Fast => 1i32,
            CompressionLevel::Maximum => 19i32,
            CompressionLevel::Normal => 3i32,
        },
{
    match l {
        CompressionLevel::Fast => 1,
        CompressionLevel::Maximum => 19,
        CompressionLevel::Normal => 3,
    }
}

/// The gzip level used for `.tar.gz` archives: the levels of flate2's
/// `Compression::fast()` (1), `Compression::default()` (6) and
/// `Compression::best()` (9).
pub fn gz_level(l: CompressionLevel) -> (n: u32)
    ensures
        n == match l {
            CompressionLevel::Fast => 1u32,
            CompressionLevel::Maximum => 9u32,
            CompressionLevel::Normal => 6u32,
        },
{
    match l {
        CompressionLevel::Fast => 1,
        CompressionLevel::Maximum => 9,
        CompressionLevel::Normal => 6,
    }
}

/// The bzip3 block size in bytes used for `.tar.bz3` archives.
pub fn bz3_block(l: CompressionLevel) -> (n: usize)
    ensures
        n == match l {
            CompressionLevel::Fast => 102400usize,
            CompressionLevel::Normal => 512000usize,
            CompressionLevel::Maximum => 1048576usize,
        },
{
    match l {
        CompressionLevel::Fast => 100 * 1024,
        CompressionLevel::Normal => 500 * 1024,
        CompressionLevel::Maximum => 1024 * 1024,
    }
}

/// The `7z` options for a level: the compression level and the solid block
/// size.
pub open spec fn p7z_options(l: CompressionLevel) -> (Seq<char>, Seq<char>) {
    match l {
        CompressionLevel::Fast => ("-mx=1"@, "-ms=16m"@),
        CompressionLevel::Maximum => ("-mx=9"@, "-ms=128m"@),
        CompressionLevel::Normal => ("-mx=5"@, "-ms=64m"@),
    }
}

/// The `7z` command-line options for a level, as [`p7z_options`] states.
pub fn p7z_args(l: CompressionLevel) -> (v: Vec<&'static str>)
    ensures
        v@.len() == 2,
        v@[0]@ == p7z_options(l).0,
        v@[1]@ == p7z_options(l).1,
{
    let mut v: Vec<&'static str> = Vec::new();
    match l {
        CompressionLevel::Fast => {
            v.push("-mx=1");
            v.push("-ms=16m");
        },
        CompressionLevel::Maximum => {
            v.push("-mx=9");
            v.push("-ms=128m");
        },
        CompressionLevel::Normal => {
            v.push("-mx=5");
            v.push("-ms=64m");
        },
    }
    v
}

/// The file-type bits of a Unix mode say "symbolic link".
pub open spec fn is_symlink_mode(mode: u32) -> bool {
    mode & 0o170000 == 0o120000
}

/// Whether a Unix mode stored in a zip entry marks a symbolic link.
pub fn mode_is_symlink(mode: u32) -> (b: bool)
    ensures
        b == is_symlink_mode(mode),
{
    mode & 0o170000 == 0o120000
}

/// The Unix mode with which a symbolic link is stored in a zip archive: the
/// link type bits and the link's permission bits.
pub fn zip_symlink_mode(mode: u32) -> (m: u32)
    ensures
        m == 0o120000 | (mode & 0o777),
        is_symlink_mode(m),
{
    let m = 0o120000 | (mode & 0o777);
    assert((0o120000u32 | (mode & 0o777u32)) & 0o170000u32 == 0o120000u32) by (bit_vector);
    m
}

/// The name under which `p`, met while walking the selected directory
/// `root`, is stored in an archive: its path relative to `root`'s parent
/// (to `root` itself when it has none; `p` as it is when it lies elsewhere);
/// none when that is empty or could leave the directory the archive is
/// extracted into.
pub open spec fn walked_entry_name(root: Seq<char>, p: Seq<char>) -> Option<Seq<char>> {
    let rel = match strip_base(p, up_from(root)) {
        Some(rest) => render(rest),
        None => p,
    };
    if rel.len() == 0 || !safe_relative(rel) {
        None
    } else {
        Some(rel)
    }
}

/// Executable [`walked_entry_name`].
pub fn walked_entry_name_of(root: &str, p: &str) -> (r: Option<String>)
    ensures
        r is Some <==> walked_entry_name(root@, p@) is Some,
        r matches Some(n) ==> n@ == walked_entry_name(root@, p@)->Some_0,
{
    let base = up_dir(root);
    let rel = match strip_prefix_text(p, base.as_str()) {
        Some(t) => t,
        None => String::from_str(p),
    };
    if rel.as_str().is_empty() || !is_safe_path(rel.as_str()) {
        None
    } else {
        Some(rel)
    }
}

/// The name under which a selected file (not a directory) is stored: its
/// file name (empty when it has none), unless that could leave the
/// extraction directory.
pub open spec fn stored_name(p: Seq<char>) -> Option<Seq<char>> {
    let n = match file_name(p) {
        Some(f) => f,
        None => Seq::empty(),
    };
    if safe_relative(n) {
        Some(n)
    } else {
        None
    }
}

/// Executable [`stored_name`].
pub fn stored_name_of(p: &str) -> (r: Option<String>)
    ensures
        r is Some <==> stored_name(p@) is Some,
        r matches Some(n) ==> n@ == stored_name(p@)->Some_0,
{
    let n = match file_name_of(p) {
        Some(f) => f,
        None => String::new(),
    };
    if is_safe_path(n.as_str()) {
        Some(n)
    } else {
        None
    }
}

/// `s` does not end with `suf` (without ASCII case) when their `k`-th
/// characters from the end differ.
proof fn lemma_not_ends_at(s: Seq<char>, suf: Seq<char>, k: int)
    requires
        1 <= k <= suf.len(),
        k <= s.len(),
        ascii_lower(s[s.len() - k]) != ascii_lower(suf[suf.len() - k]),
    ensures
        !ends_with_ascii_ci(s, suf),
{
    if ends_with_ascii_ci(s, suf) {
        let t = s.subrange(s.len() - suf.len(), s.len() as int);
        assert(t[suf.len() - k] == s[s.len() - k]);
    }
}

/// `pre + suf` ends with `suf`.
proof fn lemma_ends_with_own(pre: Seq<char>, suf: Seq<char>)
    ensures
        ends_with_ascii_ci(pre + suf, suf),
{
    let s = pre + suf;
    assert(s.subrange(s.len() - suf.len(), s.len() as int) =~= suf);
}

/// A name made of any stem, a dot and a format id of the compression
/// wizard is recognised as the format that the id names, and that format
/// is a supported one: the archive the wizard writes is read back as the
/// format it was written in.
pub proof fn lemma_name_with_format_id(stem: Seq<char>, id: Seq<char>)
    requires
        id == "7z"@ || id == "zip"@ || id == "tar.bz3"@ || id == "tar.zst"@ || id == "tar.gz"@
            || id == "tar"@,
    ensures
        format_of_name(stem + "."@ + id) == format_of_id(id),
        format_of_id(id) != ArchiveFormat::Unsupported,
{
    reveal_strlit(".");
    reveal_strlit("7z");
    reveal_strlit("zip");
    reveal_strlit("tar.bz3");
    reveal_strlit("tar.zst");
    reveal_strlit("tar.gz");
    reveal_strlit("tar");
    reveal_strlit(".7z");
    reveal_strlit(".zip");
    reveal_strlit(".tar.bz3");
    reveal_strlit(".tar.zst");
    reveal_strlit(".tzst");
    reveal_strlit(".tar.gz");
    reveal_strlit(".tgz");
    reveal_strlit(".tar");
    let name = stem + "."@ + id;
    let d = "."@ + id;
    assert(name =~= stem + d);
    lemma_ends_with_own(stem, d);
    let n = name.len();
    assert(name[n - 1] == id[id.len() - 1]);
    if id == "7z"@ {
        assert(d =~= ".7z"@);
    } else if id == "zip"@ {
        assert(d =~= ".zip"@);
        lemma_not_ends_at(name, ".7z"@, 1);
    } else if id == "tar.bz3"@ {
        assert(d =~= ".tar.bz3"@);
        lemma_not_ends_at(name, ".7z"@, 1);
        lemma_not_ends_at(name, ".zip"@, 1);
    } else if id == "tar.zst"@ {
        assert(d =~= ".tar.zst"@);
        lemma_not_ends_at(name, ".7z"@, 1);
        lemma_not_ends_at(name, ".zip"@, 1);
        lemma_not_ends_at(name, ".tar.bz3"@, 1);
    } else if id == "tar.gz"@ {
        assert(d =~= ".tar.gz"@);
        assert(name[n - 2] == id[id.len() - 2]);
        lemma_not_ends_at(name, ".7z"@, 2);
        lemma_not_ends_at(name, ".zip"@, 1);
        lemma_not_ends_at(name, ".tar.bz3"@, 1);
        lemma_not_ends_at(name, ".tar.zst"@, 1);
        lemma_not_ends_at(name, ".tzst"@, 1);
    } else {
        assert(d =~= ".tar"@);
        lemma_not_ends_at(name, ".7z"@, 1);
        lemma_not_ends_at(name, ".zip"@, 1);
        lemma_not_ends_at(name, ".tar.bz3"@, 1);
        lemma_not_ends_at(name, ".tar.zst"@, 1);
        lemma_not_ends_at(name, ".tzst"@, 1);
        lemma_not_ends_at(name, ".tar.gz"@, 1);
        lemma_not_ends_at(name, ".tgz"@, 1);
    }
}

} // verus!
