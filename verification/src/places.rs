//! The sidebar's places: the standard folders, the mounted disks worth
//! showing, and which place the current directory belongs to.
use vstd::prelude::*;
use vstd::utf8::encode_utf8;

use crate::paths::{file_name, file_name_of, join, joined, path_starts_with, paths_equal, same_path, starts_with};
use crate::text::{all_ws, chars_of, eq_ascii_ci, is_blank, range_eq_ascii_ci};
use crate::types::{DiskInfo, SidebarItem};

verus! {

/// `s` holds `pat` as a contiguous part once ASCII letters are folded to
/// lower case.
pub open spec fn contains_ascii_ci(s: Seq<char>, pat: Seq<char>) -> bool {
    exists|i: int|
        0 <= i <= s.len() - pat.len() && #[trigger] eq_ascii_ci(s.subrange(i, i + pat.len()), pat)
}

fn contains_ci(s: &[char], pat: &[char]) -> (b: bool)
    ensures
        b == contains_ascii_ci(s@, pat@),
{
    let n = s.len();
    let m = pat.len();
    if m > n {
        return false;
    }
    let mut i: usize = 0;
    while i <= n - m
        invariant
            m <= n,
            n == s@.len(),
            m == pat@.len(),
            i <= n - m + 1,
            forall|k: int| 0 <= k < i ==> !#[trigger] eq_ascii_ci(s@.subrange(k, k + m), pat@),
        decreases n - m + 1 - i,
    {
        if range_eq_ascii_ci(s, i, pat) {
            return true;
        }
        i = i + 1;
    }
    false
}

/// File systems that are not disks a user browses: memory, image, overlay
/// and device file systems, and loop devices. The file system's name is
/// compared after lower casing; as every letter of these five words is
/// ASCII, folding ASCII letters decides it as full lower casing does.
pub open spec fn hidden_fs(fs: Seq<char>) -> bool {
    contains_ascii_ci(fs, "tmpfs"@) || contains_ascii_ci(fs, "squashfs"@) || contains_ascii_ci(
        fs,
        "overlay"@,
    ) || contains_ascii_ci(fs, "dev"@) || contains_ascii_ci(fs, "loop"@)
}

/// The name a disk is shown under: its own name, else its mount point's
/// final component, else "Disk" (a name of white space counts as none).
pub open spec fn disk_label(name: Seq<char>, mount_point: Seq<char>) -> Seq<char> {
    if !all_ws(name) {
        name
    } else {
        let n = match file_name(mount_point) {
            Some(f) => f,
            None => Seq::empty(),
        };
        if !all_ws(n) {
            n
        } else {
            "Disk"@
        }
    }
}

/// A disk as the system lists it: (name, mount point, file system).
pub type RawDisk = (String, String, String);

/// The disks to show, from the system's list: those on a browsable file
/// system, the first of each mount point (as a path), in order, as
/// (label, mount point).
pub open spec fn shown_disks(raw: Seq<(Seq<char>, Seq<char>, Seq<char>)>) -> Seq<(Seq<char>, Seq<char>)>
    decreases raw.len(),
{
    if raw.len() == 0 {
        Seq::empty()
    } else {
        let prev = shown_disks(raw.drop_last());
        let (name, mp, fs) = raw.last();
        if hidden_fs(fs) || exists|i: int| 0 <= i < prev.len() && same_path(#[trigger] prev[i].1, mp) {
            prev
        } else {
            prev.push((disk_label(name, mp), mp))
        }
    }
}

pub open spec fn raw_view(raw: Seq<RawDisk>) -> Seq<(Seq<char>, Seq<char>, Seq<char>)> {
    raw.map_values(|d: RawDisk| (d.0@, d.1@, d.2@))
}

pub open spec fn disks_view(ds: Seq<DiskInfo>) -> Seq<(Seq<char>, Seq<char>)> {
    ds.map_values(|d: DiskInfo| (d.name@, d.mount_point@))
}

fn label_of(name: &str, mount_point: &str) -> (r: String)
    ensures
        r@ == disk_label(name@, mount_point@),
{
    if !is_blank(&chars_of(name)) {
        return String::from_str(name);
    }
    let n = match file_name_of(mount_point) {
        Some(f) => f,
        None => String::new(),
    };
    if !is_blank(&chars_of(n.as_str())) {
        n
    } else {
        String::from_str("Disk")
    }
}

fn hidden_fs_exec(fs: &str) -> (b: bool)
    ensures
        b == hidden_fs(fs@),
{
    let v = chars_of(fs);
    contains_ci(&v, &chars_of("tmpfs")) || contains_ci(&v, &chars_of("squashfs")) || contains_ci(
        &v,
        &chars_of("overlay"),
    ) || contains_ci(&v, &chars_of("dev")) || contains_ci(&v, &chars_of("loop"))
}

/// The disks the sidebar shows, as [`shown_disks`] states.
pub fn visible_disks(raw: &[RawDisk]) -> (ds: Vec<DiskInfo>)
    ensures
        disks_view(ds@) == shown_disks(raw_view(raw@)),
{
    let mut ds: Vec<DiskInfo> = Vec::new();
    let n = raw.len();
    for i in 0..n
        invariant
            n == raw@.len(),
            disks_view(ds@) == shown_disks(raw_view(raw@).take(i as int)),
    {
        let ghost prev = disks_view(ds@);
        let ghost rv = raw_view(raw@);
        assert(rv.take(i + 1).drop_last() =~= rv.take(i as int));
        assert(rv.take(i + 1).last() == rv[i as int]);
        let (name, mp, fs) = (&raw[i].0, &raw[i].1, &raw[i].2);
        if !hidden_fs_exec(fs.as_str()) {
            let mut seen = false;
            let m = ds.len();
            let mut j: usize = 0;
            while j < m && !seen
                invariant
                    m == ds@.len(),
                    prev == disks_view(ds@),
                    j <= m,
                    seen ==> exists|k: int| 0 <= k < prev.len() && same_path(#[trigger] prev[k].1, mp@),
                    !seen ==> forall|k: int| 0 <= k < j ==> !same_path(#[trigger] prev[k].1, mp@),
                decreases m - j + (if seen { 0int } else { 1int }),
            {
                if paths_equal(ds[j].mount_point.as_str(), mp.as_str()) {
                    seen = true;
                    assert(prev[j as int].1 == ds@[j as int].mount_point@);
                } else {
                    assert(prev[j as int].1 == ds@[j as int].mount_point@);
                    j = j + 1;
                }
            }
            if !seen {
                let label = label_of(name.as_str(), mp.as_str());
                ds.push(DiskInfo { name: label, mount_point: mp.clone() });
                assert(disks_view(ds@) =~= prev.push((disk_label(name@, mp@), mp@)));
            }
        }
    }
    assert(raw_view(raw@).take(n as int) =~= raw_view(raw@));
    ds
}

/// The UTF-8 length of a path, in bytes.
pub open spec fn byte_len(p: Seq<char>) -> nat {
    encode_utf8(p).len()
}

/// The place that the current directory `dir` belongs to, among
/// `candidates` (the sidebar's folders, then the disks' mount points): of
/// those that `dir` lies under (by components) and that are not empty, the
/// first one with the longest text (in UTF-8 bytes).
pub open spec fn is_best_place(dir: Seq<char>, candidates: Seq<Seq<char>>, i: int) -> bool {
    &&& 0 <= i < candidates.len()
    &&& path_starts_with(dir, candidates[i])
    &&& byte_len(candidates[i]) > 0
    &&& forall|j: int|
        0 <= j < candidates.len() && path_starts_with(dir, #[trigger] candidates[j]) ==> byte_len(
            candidates[j],
        ) <= byte_len(candidates[i])
    &&& forall|j: int|
        0 <= j < i && path_starts_with(dir, #[trigger] candidates[j]) ==> byte_len(candidates[j])
            < byte_len(candidates[i])
}

/// The sidebar's folders, then the disks' mount points.
pub open spec fn place_paths(items: Seq<SidebarItem>, disks: Seq<DiskInfo>) -> Seq<Seq<char>> {
    items.map_values(|s: SidebarItem| s.path@) + disks.map_values(|d: DiskInfo| d.mount_point@)
}

/// The place to highlight in the sidebar while `dir` is shown, as
/// [`is_best_place`] states; none when `dir` lies under no place.
pub fn best_place(dir: &str, items: &[SidebarItem], disks: &[DiskInfo]) -> (r: Option<String>)
    ensures
        r is None <==> forall|j: int|
            0 <= j < place_paths(items@, disks@).len() ==> !(path_starts_with(
                dir@,
                #[trigger] place_paths(items@, disks@)[j],
            ) && byte_len(place_paths(items@, disks@)[j]) > 0),
        r matches Some(p) ==> exists|i: int| is_best_place(dir@, place_paths(items@, disks@), i)
            && p@ == place_paths(items@, disks@)[i],
{
    let mut cands: Vec<String> = Vec::new();
    for i in 0..items.len()
        invariant
            cands@.len() == i,
            forall|k: int| 0 <= k < i ==> #[trigger] cands@[k]@ == items@[k].path@,
    {
        cands.push(items[i].path.clone());
    }
    for i in 0..disks.len()
        invariant
            cands@.len() == items@.len() + i,
            forall|k: int| 0 <= k < items@.len() ==> #[trigger] cands@[k]@ == items@[k].path@,
            forall|k: int| 0 <= k < i ==> #[trigger] cands@[items@.len() + k]@ == disks@[k].mount_point@,
    {
        cands.push(disks[i].mount_point.clone());
    }
    let ghost cs = place_paths(items@, disks@);
    assert forall|k: int| 0 <= k < cs.len() implies #[trigger] cands@[k]@ == cs[k] by {
        if k >= items@.len() {
            assert(cands@[items@.len() + (k - items@.len())]@ == disks@[k - items@.len()].mount_point@);
        }
    }
    let n = cands.len();
    let mut max_len: usize = 0;
    let mut best: Option<usize> = None;
    for i in 0..n
        invariant
            n == cands@.len(),
            n == cs.len(),
            forall|k: int| 0 <= k < cs.len() ==> #[trigger] cands@[k]@ == cs[k],
            best is None ==> max_len == 0,
            best is None ==> forall|j: int|
                0 <= j < i ==> !(path_starts_with(dir@, #[trigger] cs[j]) && byte_len(cs[j]) > 0),
            best matches Some(b) ==> {
                &&& b < i
                &&& max_len == byte_len(cs[b as int])
                &&& path_starts_with(dir@, cs[b as int])
                &&& byte_len(cs[b as int]) > 0
                &&& forall|j: int|
                    0 <= j < i && path_starts_with(dir@, #[trigger] cs[j]) ==> byte_len(cs[j])
                        <= max_len
                &&& forall|j: int|
                    0 <= j < b && path_starts_with(dir@, #[trigger] cs[j]) ==> byte_len(cs[j])
                        < max_len
            },
    {
        let c = cands[i].as_str();
        if starts_with(dir, c) {
            let len = c.as_bytes().len();
            assert(len == byte_len(cs[i as int]));
            if len > max_len {
                max_len = len;
                best = Some(i);
            }
        }
    }
    match best {
        Some(b) => {
            assert(is_best_place(dir@, cs, b as int));
            Some(cands[b].clone())
        },
        None => None,
    }
}

/// The sidebar's folders: Home (the home directory, else `/`), Documents
/// and Downloads (the system's, else under home), and the trash's files
/// (under the data directory, else under `~/.local/share`, with an unknown
/// home taken as empty).
pub open spec fn standard_places(
    home: Option<Seq<char>>,
    documents: Option<Seq<char>>,
    downloads: Option<Seq<char>>,
    data_dir: Option<Seq<char>>,
) -> Seq<(Seq<char>, Seq<char>, Seq<char>)> {
    let h = match home {
        Some(p) => p,
        None => "/"@,
    };
    let data = match data_dir {
        Some(d) => d,
        None => joined(
            match home {
                Some(p) => p,
                None => Seq::empty(),
            },
            ".local/share"@,
        ),
    };
    seq![
        ("Home"@, "user-home-symbolic"@, h),
        ("Documents"@, "folder-documents-symbolic"@, match documents {
            Some(d) => d,
            None => joined(h, "Documents"@),
        }),
        ("Downloads"@, "folder-download-symbolic"@, match downloads {
            Some(d) => d,
            None => joined(h, "Downloads"@),
        }),
        ("Trash"@, "user-trash-symbolic"@, joined(data, "Trash/files"@)),
    ]
}

pub open spec fn items_view(v: Seq<SidebarItem>) -> Seq<(Seq<char>, Seq<char>, Seq<char>)> {
    v.map_values(|s: SidebarItem| (s.name@, s.icon@, s.path@))
}

fn or_text(o: Option<String>, fallback: String) -> (r: String)
    ensures
        r@ == match o {
            Some(s) => s@,
            None => fallback@,
        },
{
    match o {
        Some(s) => s,
        None => fallback,
    }
}

/// Builds the sidebar's folders, as [`standard_places`] states, from the
/// directories the system reports.
pub fn sidebar_places(
    home: Option<String>,
    documents: Option<String>,
    downloads: Option<String>,
    data_dir: Option<String>,
) -> (v: Vec<SidebarItem>)
    ensures
        items_view(v@) == standard_places(
            match home { Some(s) => Some(s@), None => None },
            match documents { Some(s) => Some(s@), None => None },
            match downloads { Some(s) => Some(s@), None => None },
            match data_dir { Some(s) => Some(s@), None => None },
        ),
{
    let home_or_empty = match &home {
        Some(h) => h.clone(),
        None => String::new(),
    };
    let h = or_text(home, String::from_str("/"));
    let data = match data_dir {
        Some(d) => d,
        None => join(home_or_empty.as_str(), ".local/share"),
    };
    let docs = match documents {
        Some(d) => d,
        None => join(h.as_str(), "Documents"),
    };
    let dls = match downloads {
        Some(d) => d,
        None => join(h.as_str(), "Downloads"),
    };
    let trash = join(data.as_str(), "Trash/files");
    let v = vec![
        SidebarItem { name: String::from_str("Home"), icon: "user-home-symbolic", path: h },
        SidebarItem { name: String::from_str("Documents"), icon: "folder-documents-symbolic", path: docs },
        SidebarItem { name: String::from_str("Downloads"), icon: "folder-download-symbolic", path: dls },
        SidebarItem { name: String::from_str("Trash"), icon: "user-trash-symbolic", path: trash },
    ];
    assert(items_view(v@) =~= standard_places(
        match home { Some(s) => Some(s@), None => None },
        match documents { Some(s) => Some(s@), None => None },
        match downloads { Some(s) => Some(s@), None => None },
        match data_dir { Some(s) => Some(s@), None => None },
    ));
    v
}

} // verus!
