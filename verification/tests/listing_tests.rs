use stellarfiles::listing::{
    compare_names, create_entry, deep_search_keeps, directory_order, needs_refresh, rank_entries,
    search_regex, sort_by, SearchSettings,
};
use stellarfiles::matching::{NameMatcher, SearchRegex};
use stellarfiles::types::{FileEntry, SortDirection, SortKey};

fn entry(path: &str, is_dir: bool, size: u64, modified: i128) -> FileEntry {
    create_entry(path, is_dir, size, modified, String::new(), String::new())
}

fn settings(query: &str) -> SearchSettings {
    SearchSettings {
        query: query.to_string(),
        is_regex: false,
        search_deep: false,
        show_hidden: false,
        sort_key: SortKey::Name,
        sort_direction: SortDirection::Asc,
    }
}

fn names(es: &[FileEntry], idx: &[usize]) -> Vec<String> {
    idx.iter().map(|&i| es[i].name.clone()).collect()
}

fn sample() -> Vec<FileEntry> {
    vec![
        entry("/d/zeta.txt", false, 30, 3),
        entry("/d/Beta", true, 0, 1),
        entry("/d/.hidden", false, 10, 5),
        entry("/d/alpha.txt", false, 20, 2),
        entry("/d/gamma", true, 0, 4),
    ]
}

#[test]
fn entries_are_built_from_metadata() {
    let e = entry("/d/a very long file name.txt", false, 1_500_000, 7);
    assert_eq!(e.name, "a very long file name.txt");
    assert_eq!(e.grid_name, "a ve...txt");
    assert_eq!(e.size_str, "1.5 MB");
    assert_eq!(e.icon_name, "text-x-generic-symbolic");
    let d = entry("/d/sub", true, 4096, 0);
    assert_eq!((d.size_str.as_str(), d.icon_name), ("--", "folder-symbolic"));
}

#[test]
fn listing_puts_directories_first_then_names() {
    let es = sample();
    let m = NameMatcher::new();
    assert_eq!(names(&es, &rank_entries(&es, &settings(""), &m)), vec!["Beta", "gamma", "alpha.txt", "zeta.txt"]);
    let mut s = settings("  ");
    s.show_hidden = true;
    assert_eq!(
        names(&es, &rank_entries(&es, &s, &m)),
        vec!["Beta", "gamma", ".hidden", "alpha.txt", "zeta.txt"]
    );
}

#[test]
fn listing_sorts_by_columns() {
    let es = sample();
    let m = NameMatcher::new();
    let mut s = settings("");
    s.sort_key = SortKey::Size;
    s.sort_direction = SortDirection::Desc;
    assert_eq!(names(&es, &rank_entries(&es, &s, &m)), vec!["Beta", "gamma", "zeta.txt", "alpha.txt"]);
    s.sort_key = SortKey::Modified;
    s.sort_direction = SortDirection::Asc;
    assert_eq!(names(&es, &rank_entries(&es, &s, &m)), vec!["Beta", "gamma", "alpha.txt", "zeta.txt"]);
}

#[test]
fn fuzzy_search_keeps_matches_best_first() {
    let es = sample();
    let m = NameMatcher::new();
    let r = rank_entries(&es, &settings("zt"), &m);
    assert_eq!(names(&es, &r), vec!["zeta.txt"]);
    let r = rank_entries(&es, &settings("a"), &m);
    for i in &r {
        assert!(m.score(&es[*i].name, "a").is_some());
    }
    assert!(r.len() >= 3);
}

#[test]
fn regex_search() {
    let es = sample();
    let m = NameMatcher::new();
    let mut s = settings(r"\.txt$");
    s.is_regex = true;
    assert_eq!(names(&es, &rank_entries(&es, &s, &m)), vec!["alpha.txt", "zeta.txt"]);
    assert!(search_regex(&s).is_some());
    s.query = "(".to_string();
    assert!(search_regex(&s).is_none());
    s.search_deep = true;
    s.query = "ta".to_string();
    let re = search_regex(&s);
    assert!(re.is_some());
    assert!(deep_search_keeps("beta", &s, &re, &m));
    assert!(!deep_search_keeps("omega", &s, &re, &m));
    assert!(!deep_search_keeps(".beta", &s, &re, &m));
    assert!(SearchRegex::compile("a+").unwrap().is_match("caat"));
}

#[test]
fn names_compare_by_code_point() {
    assert_eq!(compare_names("a", "b"), -1);
    assert_eq!(compare_names("B", "a"), -1);
    assert_eq!(compare_names("ab", "a"), 1);
    assert_eq!(compare_names("é", "é"), 0);
    assert_eq!(compare_names("z", "é"), -1);
}

#[test]
fn header_clicks() {
    assert_eq!(sort_by(SortKey::Name, SortDirection::Asc, SortKey::Name), (SortKey::Name, SortDirection::Desc));
    assert_eq!(sort_by(SortKey::Name, SortDirection::Desc, SortKey::Name), (SortKey::Name, SortDirection::Asc));
    assert_eq!(sort_by(SortKey::Name, SortDirection::Desc, SortKey::Size), (SortKey::Size, SortDirection::Asc));
}

#[test]
fn leftovers_of_a_deep_search_need_a_reload() {
    let es = sample();
    assert!(!needs_refresh(&es, "/d"));
    assert!(!needs_refresh(&es, "/d/"));
    let mut deep = sample();
    deep.push(entry("/d/sub/x", false, 1, 1));
    assert!(needs_refresh(&deep, "/d"));
}

#[test]
fn freshly_read_directories_are_ordered() {
    let es = sample();
    let order = directory_order(&es);
    assert_eq!(names(&es, &order), vec!["Beta", "gamma", ".hidden", "alpha.txt", "zeta.txt"]);
    let twins = vec![entry("/x/a", false, 1, 0), entry("/y/a", false, 2, 0)];
    assert_eq!(directory_order(&twins), vec![0, 1]);
}
