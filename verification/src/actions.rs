//! The decisions behind single user actions: trash locations, window
//! titles, archive names, shredding, opening with a command, and the answers
//! of the file-chooser portal.
use vstd::prelude::*;

use crate::archive::{format_of_id, format_of_name, lemma_name_with_format_id, ArchiveFormat};
use crate::math::{bytes_label, check_security, format_bytes, is_system_object, FileKind, MetaInfo};
use crate::paths::{file_name, file_name_of, join, joined, path_starts_with, starts_with};
use crate::text::{
    chars_eq, chars_of, concat3, contains_text, find_prefixed_line, first_with_prefix, lines,
    push_all, split_words, str_contains, string_from_chars, words,
};
use crate::types::{Mode, PropertiesDetails};

verus! {

/// The directory where the trash keeps deleted files.
pub open spec fn trash_files(data_dir: Seq<char>) -> Seq<char> {
    joined(data_dir, "Trash/files"@)
}

/// Whether `path` lies in the trash (under `<data dir>/Trash/files`); never,
/// when there is no data directory.
pub fn is_trash_dir(path: &str, data_dir: &Option<String>) -> (b: bool)
    ensures
        b == match data_dir {
            Some(d) => path_starts_with(path@, trash_files(d@)),
            None => false,
        },
{
    match data_dir {
        Some(d) => {
            let t = join(d.as_str(), "Trash/files");
            starts_with(path, t.as_str())
        },
        None => false,
    }
}

/// Where the trash describes the deleted file called `name`:
/// `<data dir>/Trash/info/<name>.trashinfo`.
pub fn trash_info_path(data_dir: &str, name: &str) -> (p: String)
    ensures
        p@ == joined(joined(data_dir@, "Trash/info"@), name@ + ".trashinfo"@),
{
    let info = join(data_dir, "Trash/info");
    let file = String::from_str(name).concat(".trashinfo");
    join(info.as_str(), file.as_str())
}

/// The original location of a trashed file: the rest of the first line of
/// its `.trashinfo` contents that starts with `Path=`.
pub fn trash_original_path(content: &str) -> (r: Option<String>)
    ensures
        r is Some <==> first_with_prefix(lines(content@), "Path="@) is Some,
        r matches Some(t) ==> t@ == first_with_prefix(lines(content@), "Path="@)->Some_0,
{
    find_prefixed_line(content, "Path=")
}

/// The name of a directory as the title shows it: its final component, or
/// "Root".
pub open spec fn folder_title(dir: Seq<char>) -> Seq<char> {
    match file_name(dir) {
        Some(n) => n,
        None => "Root"@,
    }
}

/// The window title while `dir` is shown: "<folder> — Stellarfiles".
pub fn window_title(dir: &str) -> (t: String)
    ensures
        t@ == folder_title(dir@) + " — Stellarfiles"@,
{
    let folder = match file_name_of(dir) {
        Some(n) => n,
        None => String::from_str("Root"),
    };
    folder.concat(" — Stellarfiles")
}

/// Whether an entry with this icon gets a thumbnail: images, videos and PDF
/// documents.
pub fn wants_thumbnail(icon: &str) -> (b: bool)
    ensures
        b == (contains_text(icon@, "image"@) || contains_text(icon@, "video"@) || contains_text(
            icon@,
            "pdf"@,
        )),
{
    str_contains(icon, "image") || str_contains(icon, "video") || str_contains(icon, "pdf")
}

/// The progress of a job as the status bar writes it: the bytes done, and
/// "done / total" once the total is known.
pub fn task_progress_text(current: u64, total: u64) -> (s: String)
    ensures
        total == 0 ==> s@ == bytes_label(current as nat),
        total != 0 ==> s@ == bytes_label(current as nat) + " / "@ + bytes_label(total as nat),
{
    if total == 0 {
        format_bytes(current)
    } else {
        let a = format_bytes(current);
        let b = format_bytes(total);
        concat3(a.as_str(), " / ", b.as_str())
    }
}

/// The program and arguments of an "open with" command line: its words; the
/// first is the program. A blank command runs nothing.
pub fn open_with_command(cmd: &str) -> (r: Option<(String, Vec<String>)>)
    ensures
        r is Some <==> words(cmd@).len() > 0,
        r matches Some((prog, args)) ==> (prog@ == words(cmd@)[0] && args@.len() == words(cmd@).len()
            - 1 && forall|i: int| 0 <= i < args@.len() ==> #[trigger] args@[i]@ == words(cmd@)[i + 1]),
{
    let mut parts = split_words(cmd);
    if parts.len() == 0 {
        return None;
    }
    let ghost all = parts@;
    let prog = parts.remove(0);
    assert(forall|i: int| 0 <= i < parts@.len() ==> parts@[i] == all[i + 1]);
    Some((prog, parts))
}

/// The portal's answer to a file-chooser request, given the path the user
/// chose (empty when cancelled): response code 1 for a cancel, otherwise 0
/// and the file's URI.
pub fn portal_reply(path: &str) -> (r: (u32, Option<String>))
    ensures
        path@.len() == 0 ==> r.0 == 1 && r.1 is None,
        path@.len() > 0 ==> (r.0 == 0 && (r.1 matches Some(u) && u@ == "file://"@ + path@)),
{
    if path.is_empty() {
        (1, None)
    } else {
        (0, Some(String::from_str("file://").concat(path)))
    }
}

/// What the window is for, from the command line: choosing a file to open,
/// choosing where to save (with a suggested name), or managing files.
pub fn startup_mode(pick_file: bool, save_file: Option<String>) -> (m: Mode)
    ensures
        pick_file ==> m == Mode::Open,
        !pick_file && save_file is Some ==> m == Mode::Save(save_file->Some_0),
        !pick_file && save_file is None ==> m == Mode::Manager,
{
    if pick_file {
        Mode::Open
    } else {
        match save_file {
            Some(name) => Mode::Save(name),
            None => Mode::Manager,
        }
    }
}

/// The size of the blocks a file is overwritten with, and how many of them
/// cover it: blocks of at most 4096 bytes, one more than fit in the file.
pub fn shred_plan(len: u64) -> (r: (usize, u64))
    requires
        len > 0,
    ensures
        r.0 == (if len < 4096 { len } else { 4096 }),
        r.1 == len / (r.0 as u64) + 1,
{
    let chunk: u64 = if len < 4096 {
        len
    } else {
        4096
    };
    (chunk as usize, len / chunk + 1)
}

/// What shredding does with one object it walks past, from its metadata
/// and size: device nodes, FIFOs and sockets are left alone (`None`); a
/// regular file that is not empty is first overwritten, with the block size
/// and count of [`shred_plan`]; everything is then renamed and removed.
pub fn shred_action(meta: &MetaInfo, len: u64) -> (r: Option<Option<(usize, u64)>>)
    ensures
        is_system_object(meta.kind) ==> r is None,
        !is_system_object(meta.kind) ==> (r matches Some(o) && (o is Some <==> (meta.kind
            == FileKind::Regular && len > 0))),
        r matches Some(Some(p)) ==> p.0 == (if len < 4096 { len } else { 4096 }) && p.1 == len / (
        p.0 as u64) + 1,
{
    if check_security(meta).is_err() {
        return None;
    }
    match meta.kind {
        FileKind::Regular => if len > 0 {
            Some(Some(shred_plan(len)))
        } else {
            Some(None)
        },
        _ => Some(None),
    }
}

/// The characters shredded files are renamed with.
pub open spec fn name_alphabet() -> Seq<char> {
    "abcdefghijklmnopqrstuvwxyz0123456789"@
}

/// The name a shredded file is given before it is deleted: each random
/// number picks a character of [`name_alphabet`].
pub fn obfuscated_name(randoms: &[u32]) -> (s: String)
    ensures
        s@.len() == randoms@.len(),
        forall|i: int| 0 <= i < randoms@.len() ==> #[trigger] s@[i] == name_alphabet()[(randoms@[i]
            % 36) as int],
{
    let alphabet = chars_of("abcdefghijklmnopqrstuvwxyz0123456789");
    proof {
        reveal_strlit("abcdefghijklmnopqrstuvwxyz0123456789");
    }
    assert(alphabet@.len() == 36);
    let mut out: Vec<char> = Vec::new();
    let n = randoms.len();
    for i in 0..n
        invariant
            n == randoms@.len(),
            alphabet@ == name_alphabet(),
            alphabet@.len() == 36,
            out@.len() == i,
            forall|k: int| 0 <= k < i ==> #[trigger] out@[k] == name_alphabet()[(randoms@[k] % 36) as int],
    {
        let k = (randoms[i] % 36) as usize;
        out.push(alphabet[k]);
    }
    string_from_chars(&out)
}

/// The message after shredding `n` items.
pub fn shred_summary(n: usize) -> (s: String)
    ensures
        s@ == "Securely shredded "@ + crate::text::decimal(n as nat) + " item(s)."@,
{
    let d = crate::text::decimal_string(n as u128);
    concat3("Securely shredded ", d.as_str(), " item(s).")
}

/// The file extension of an archive format of the compression wizard;
/// unknown formats mean zip.
pub open spec fn format_ext(format: Seq<char>) -> Seq<char> {
    if format == "tar.gz"@ {
        ".tar.gz"@
    } else if format == "tar.zst"@ {
        ".tar.zst"@
    } else if format == "tar.bz3"@ {
        ".tar.bz3"@
    } else if format == "7z"@ {
        ".7z"@
    } else {
        ".zip"@
    }
}

/// Executable [`format_ext`].
pub fn format_extension(format: &str) -> (e: &'static str)
    ensures
        e@ == format_ext(format@),
{
    let f = chars_of(format);
    if chars_eq(&f, &chars_of("tar.gz")) {
        ".tar.gz"
    } else if chars_eq(&f, &chars_of("tar.zst")) {
        ".tar.zst"
    } else if chars_eq(&f, &chars_of("tar.bz3")) {
        ".tar.bz3"
    } else if chars_eq(&f, &chars_of("7z")) {
        ".7z"
    } else {
        ".zip"
    }
}

/// The position of the last `c` in `s`.
pub open spec fn last_pos(s: Seq<char>, c: char) -> Option<int>
    decreases s.len(),
{
    if s.len() == 0 {
        None
    } else if s.last() == c {
        Some(s.len() - 1)
    } else {
        last_pos(s.drop_last(), c)
    }
}

/// A file name without its last extension (`Path::file_stem` of a name): a
/// name without a dot, or whose only dot leads, stays whole.
pub open spec fn stem(name: Seq<char>) -> Seq<char> {
    match last_pos(name, '.') {
        None => name,
        Some(k) => if k == 0 {
            name
        } else {
            name.take(k)
        },
    }
}

/// `s` ends with `suffix`.
pub open spec fn ends_with(s: Seq<char>, suffix: Seq<char>) -> bool {
    suffix.len() <= s.len() && s.skip(s.len() - suffix.len()) == suffix
}

/// `s` without one trailing `suffix`, when it ends with it.
pub open spec fn strip_once(s: Seq<char>, suffix: Seq<char>) -> Seq<char> {
    if ends_with(s, suffix) {
        s.take(s.len() - suffix.len())
    } else {
        s
    }
}

/// The extensions that the wizard strips, in order, from a file's stem.
pub open spec fn archive_exts() -> Seq<Seq<char>> {
    seq![".tar"@, ".gz"@, ".zst"@, ".bz3"@, ".zip"@, ".7z"@, ".iso"@]
}

/// `s` after trying to strip each of `exts` once, in order.
pub open spec fn strip_each(s: Seq<char>, exts: Seq<Seq<char>>) -> Seq<char>
    decreases exts.len(),
{
    if exts.len() == 0 {
        s
    } else {
        strip_each(strip_once(s, exts[0]), exts.drop_first())
    }
}

/// The name the compression wizard suggests: "Archive" for several files,
/// otherwise the target's stem without archive extensions; then the
/// format's extension.
pub open spec fn suggested_archive_name(count: nat, target: Seq<char>, format: Seq<char>) -> Seq<char> {
    let base = if count > 1 {
        "Archive"@
    } else {
        strip_each(
            match file_name(target) {
                Some(n) => stem(n),
                None => Seq::empty(),
            },
            archive_exts(),
        )
    };
    base + format_ext(format)
}

fn ends_with_exec(v: &[char], suffix: &[char]) -> (b: bool)
    ensures
        b == ends_with(v@, suffix@),
{
    if suffix.len() > v.len() {
        return false;
    }
    let r = crate::text::range_eq(v, v.len() - suffix.len(), suffix);
    assert(v@.subrange(v@.len() - suffix@.len(), v@.len() as int) =~= v@.skip(
        v@.len() - suffix@.len(),
    ));
    r
}

fn take_chars(v: &[char], k: usize) -> (r: Vec<char>)
    requires
        k <= v@.len(),
    ensures
        r@ == v@.take(k as int),
{
    let mut r: Vec<char> = Vec::new();
    for i in 0..k
        invariant
            k <= v@.len(),
            r@ == v@.take(i as int),
    {
        r.push(v[i]);
        assert(v@.take(i + 1) =~= v@.take(i as int).push(v@[i as int]));
    }
    r
}

fn stem_chars(name: &[char]) -> (r: Vec<char>)
    ensures
        r@ == stem(name@),
{
    let n = name.len();
    let mut j = n;
    assert(name@.take(n as int) =~= name@);
    while j > 0 && name[j - 1] != '.'
        invariant
            j <= n == name@.len(),
            last_pos(name@, '.') == last_pos(name@.take(j as int), '.'),
        decreases j,
    {
        assert(name@.take(j as int).drop_last() =~= name@.take(j - 1));
        j = j - 1;
    }
    assert(name@.take(n as int) =~= name@);
    if j == 0 {
        assert(name@.take(0) =~= Seq::<char>::empty());
        let mut r: Vec<char> = Vec::new();
        push_all(&mut r, name);
        assert(r@ =~= name@);
        return r;
    }
    assert(name@.take(j as int).last() == '.');
    if j == 1 {
        let mut r: Vec<char> = Vec::new();
        push_all(&mut r, name);
        assert(r@ =~= name@);
        return r;
    }
    take_chars(name, j - 1)
}

fn strip_once_exec(v: Vec<char>, ext: &str) -> (r: Vec<char>)
    ensures
        r@ == strip_once(v@, ext@),
{
    let e = chars_of(ext);
    if ends_with_exec(&v, &e) {
        take_chars(&v, v.len() - e.len())
    } else {
        v
    }
}

/// The name the compression wizard suggests, as [`suggested_archive_name`]
/// states.
pub fn compress_default_name(selected_count: usize, target: &str, format: &str) -> (s: String)
    ensures
        s@ == suggested_archive_name(selected_count as nat, target@, format@),
{
    let mut base: Vec<char>;
    if selected_count > 1 {
        base = chars_of("Archive");
    } else {
        let st = match file_name_of(target) {
            Some(n) => stem_chars(&chars_of(n.as_str())),
            None => Vec::new(),
        };
        let ghost s0 = st@;
        assert(st@ == match file_name(target@) {
            Some(n) => stem(n),
            None => Seq::<char>::empty(),
        });
        let b1 = strip_once_exec(st, ".tar");
        let b2 = strip_once_exec(b1, ".gz");
        let b3 = strip_once_exec(b2, ".zst");
        let b4 = strip_once_exec(b3, ".bz3");
        let b5 = strip_once_exec(b4, ".zip");
        let b6 = strip_once_exec(b5, ".7z");
        let b7 = strip_once_exec(b6, ".iso");
        proof {
            let ex = archive_exts();
            assert(ex.drop_first() =~= seq![".gz"@, ".zst"@, ".bz3"@, ".zip"@, ".7z"@, ".iso"@]);
            assert(ex.drop_first().drop_first() =~= seq![".zst"@, ".bz3"@, ".zip"@, ".7z"@, ".iso"@]);
            assert(ex.drop_first().drop_first().drop_first() =~= seq![".bz3"@, ".zip"@, ".7z"@, ".iso"@]);
            assert(ex.drop_first().drop_first().drop_first().drop_first() =~= seq![".zip"@, ".7z"@, ".iso"@]);
            assert(ex.drop_first().drop_first().drop_first().drop_first().drop_first() =~= seq![".7z"@, ".iso"@]);
            assert(ex.drop_first().drop_first().drop_first().drop_first().drop_first().drop_first() =~= seq![".iso"@]);
            assert(seq![".iso"@].drop_first() =~= Seq::<Seq<char>>::empty());
            reveal_with_fuel(strip_each, 8);
        }
        base = b7;
    }
    let e = chars_of(format_extension(format));
    push_all(&mut base, &e);
    string_from_chars(&base)
}

/// `s` without all trailing repetitions of `suffix` (`str::trim_end_matches`
/// with a non-empty string).
pub open spec fn trim_end_all(s: Seq<char>, suffix: Seq<char>) -> Seq<char>
    decreases s.len(),
{
    if suffix.len() > 0 && ends_with(s, suffix) {
        trim_end_all(s.take(s.len() - suffix.len()), suffix)
    } else {
        s
    }
}

/// The archive name after the wizard's format changes from `old_format` to
/// `new_format`: a name that carries the old format's extension gets the new
/// one instead (all trailing copies of the old extension go); another name
/// stays.
pub open spec fn renamed_for_format(name: Seq<char>, old_format: Seq<char>, new_format: Seq<char>) -> Seq<char> {
    let old_ext = format_ext(old_format);
    if ends_with(name, old_ext) {
        trim_end_all(name, old_ext) + format_ext(new_format)
    } else {
        name
    }
}

/// Adjusts the archive name to a new format, as [`renamed_for_format`]
/// states.
pub fn rename_for_format(name: &str, old_format: &str, new_format: &str) -> (s: String)
    ensures
        s@ == renamed_for_format(name@, old_format@, new_format@),
{
    let old_ext = chars_of(format_extension(old_format));
    let new_ext = chars_of(format_extension(new_format));
    let v = chars_of(name);
    if !ends_with_exec(&v, &old_ext) {
        return string_from_chars(&v);
    }
    let mut cur = v;
    proof {
        reveal_strlit(".tar.gz");
        reveal_strlit(".tar.zst");
        reveal_strlit(".tar.bz3");
        reveal_strlit(".7z");
        reveal_strlit(".zip");
    }
    assert(old_ext@.len() > 0);
    while ends_with_exec(&cur, &old_ext)
        invariant
            old_ext@.len() > 0,
            trim_end_all(cur@, old_ext@) == trim_end_all(name@, old_ext@),
        decreases cur@.len(),
    {
        cur = take_chars(&cur, cur.len() - old_ext.len());
    }
    push_all(&mut cur, &new_ext);
    string_from_chars(&cur)
}

/// The contents of the properties dialog for a file that could be read.
pub fn properties_details(
    path: String,
    file_type: String,
    size: u64,
    created: String,
    modified: String,
    accessed: String,
    owner: u32,
    group: u32,
    mode: u32,
    items_count: Option<usize>,
    icon: &'static str,
) -> (p: PropertiesDetails)
    ensures
        p.path == path,
        p.file_type == file_type,
        p.size_str@ == bytes_label(size as nat),
        p.created == created,
        p.modified == modified,
        p.accessed == accessed,
        p.owner == owner,
        p.group == group,
        p.mode_octal == mode & 0o777,
        p.items_count == items_count,
        p.icon == icon,
{
    PropertiesDetails {
        path,
        file_type,
        size_str: format_bytes(size),
        created,
        modified,
        accessed,
        owner,
        group,
        mode_octal: mode & 0o777,
        items_count,
        icon,
    }
}

/// The properties dialog for a path whose metadata cannot be read: a broken
/// link.
pub fn broken_link_details(path: String) -> (p: PropertiesDetails)
    ensures
        p.path == path,
        p.file_type@ == "Broken Link"@,
        p.size_str@ == "0 B"@,
        p.created@ == "N/A"@,
        p.modified@ == "N/A"@,
        p.accessed@ == "N/A"@,
        p.owner == 0,
        p.group == 0,
        p.mode_octal == 0,
        p.items_count is None,
        p.icon@ == "dialog-warning"@,
{
    PropertiesDetails {
        path,
        file_type: String::from_str("Broken Link"),
        size_str: String::from_str("0 B"),
        created: String::from_str("N/A"),
        modified: String::from_str("N/A"),
        accessed: String::from_str("N/A"),
        owner: 0,
        group: 0,
        mode_octal: 0,
        items_count: None,
        icon: "dialog-warning",
    }
}

/// Where the keyboard cursor goes in a list of `len` rows when moved by
/// `delta` rows: from the current row, kept within the list; the first row
/// when there is no cursor.
pub open spec fn cursor_target(cursor: Option<usize>, delta: isize, len: nat) -> int {
    match cursor {
        None => 0,
        Some(i) => if i + delta < 0 {
            0
        } else if i + delta > len - 1 {
            len - 1
        } else {
            i + delta
        },
    }
}

/// Where the keyboard cursor goes, as [`cursor_target`] states (in a list
/// that is not empty).
pub fn cursor_after_move(cursor: Option<usize>, delta: isize, len: usize) -> (r: usize)
    requires
        len > 0,
    ensures
        r < len,
        r == cursor_target(cursor, delta, len as nat),
{
    match cursor {
        None => 0,
        Some(i) => {
            let t: i128 = i as i128 + delta as i128;
            if t < 0 {
                0
            } else if t > (len - 1) as i128 {
                len - 1
            } else {
                t as usize
            }
        },
    }
}


/// The extension the wizard gives each of its formats makes a name read
/// back as that format, whatever precedes it; so the name it suggests for
/// an archive names the format the archive is written in.
pub proof fn lemma_suggested_name_reads_back(prefix: Seq<char>, f: Seq<char>, count: nat, target: Seq<char>)
    requires
        f == "7z"@ || f == "zip"@ || f == "tar.bz3"@ || f == "tar.zst"@ || f == "tar.gz"@,
    ensures
        format_of_name(prefix + format_ext(f)) == format_of_id(f),
        format_of_id(f) != ArchiveFormat::Unsupported,
        format_of_name(suggested_archive_name(count, target, f)) == format_of_id(f),
{
    reveal_strlit(".");
    reveal_strlit("7z");
    reveal_strlit("zip");
    reveal_strlit("tar.bz3");
    reveal_strlit("tar.zst");
    reveal_strlit("tar.gz");
    reveal_strlit(".7z");
    reveal_strlit(".zip");
    reveal_strlit(".tar.bz3");
    reveal_strlit(".tar.zst");
    reveal_strlit(".tar.gz");
    assert(format_ext(f) =~= "."@ + f) by {
        if f == "7z"@ {
            assert(f.len() != "tar.gz"@.len() && f.len() != "tar.zst"@.len() && f.len()
                != "tar.bz3"@.len());
        } else if f == "zip"@ {
            assert(f.len() != "tar.gz"@.len() && f.len() != "tar.zst"@.len() && f.len()
                != "tar.bz3"@.len() && f.len() != "7z"@.len());
        } else if f == "tar.bz3"@ {
            assert(f.len() != "tar.gz"@.len());
            assert(f[4] != "tar.zst"@[4]);
        } else if f == "tar.zst"@ {
            assert(f.len() != "tar.gz"@.len());
        }
    }
    lemma_name_with_format_id(prefix, f);
    assert(prefix + format_ext(f) =~= prefix + "."@ + f);
    let b = if count > 1 {
        "Archive"@
    } else {
        strip_each(
            match file_name(target) {
                Some(n) => stem(n),
                None => Seq::empty(),
            },
            archive_exts(),
        )
    };
    lemma_name_with_format_id(b, f);
    assert(b + format_ext(f) =~= b + "."@ + f);
}

} // verus!
