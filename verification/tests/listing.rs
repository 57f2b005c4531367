use gens_relay::listing::{
    is_current_dir, list_dir_below, list_for_peer, list_local, list_local_dir, lists_current, local_dir,
    local_dir_below, sort_entries, DirEntry, FileStat, Found,
};

fn entry(name: &str, is_dir: bool, size: u64) -> DirEntry {
    DirEntry { name: name.to_string(), is_dir, size }
}

fn found(name: &str, stat: Option<(bool, u64, Option<u64>)>) -> Found {
    Found {
        name: name.to_string(),
        stat: stat.map(|(is_dir, size, modified)| FileStat { is_dir, size, modified }),
    }
}

fn listed(entries: &[DirEntry]) -> Vec<(&str, bool, u64)> {
    entries.iter().map(|e| (e.name.as_str(), e.is_dir, e.size)).collect()
}

#[test]
fn directories_come_first_and_names_ascend() {
    let sorted = sort_entries(vec![
        entry("b.txt", false, 1),
        entry("src", true, 0),
        entry("B.txt", false, 2),
        entry("a.txt", false, 3),
        entry("docs", true, 0),
    ]);
    assert_eq!(
        listed(&sorted),
        vec![
            ("docs", true, 0),
            ("src", true, 0),
            ("B.txt", false, 2),
            ("a.txt", false, 3),
            ("b.txt", false, 1),
        ]
    );
}

#[test]
fn entries_of_one_name_keep_their_order() {
    let sorted = sort_entries(vec![
        entry("x", false, 1),
        entry("a", false, 9),
        entry("x", false, 2),
        entry("x", true, 3),
    ]);
    assert_eq!(
        listed(&sorted),
        vec![("x", true, 3), ("a", false, 9), ("x", false, 1), ("x", false, 2)]
    );
    assert!(sort_entries(vec![]).is_empty());
}

#[test]
fn sorting_agrees_with_the_standard_library() {
    let names = ["ö", "a", "Z", "", "aa", "a"];
    let make = || {
        names
            .iter()
            .enumerate()
            .map(|(i, n)| entry(n, i % 2 == 1, i as u64))
            .collect::<Vec<DirEntry>>()
    };
    let mut want = make();
    want.sort_by(|a, b| b.is_dir.cmp(&a.is_dir).then(a.name.cmp(&b.name)));
    assert_eq!(listed(&sort_entries(make())), listed(&want));
}

#[test]
fn the_current_directory_has_two_names() {
    assert!(is_current_dir(""));
    assert!(is_current_dir("."));
    assert!(!is_current_dir(".."));
    assert!(!is_current_dir("/"));
}

#[test]
fn local_entries_need_a_time() {
    let entries = list_local(vec![
        found("a", Some((false, 5, Some(1700000000)))),
        found("b", None),
        found("c", Some((true, 0, None))),
        found("d", Some((true, 4096, Some(0)))),
    ]);
    let got: Vec<(&str, bool, u64, u64)> =
        entries.iter().map(|e| (e.name.as_str(), e.is_dir, e.size, e.time)).collect();
    assert_eq!(got, vec![("a", false, 5, 1700000000), ("d", true, 4096, 0)]);
}

#[test]
fn entries_for_a_peer_need_no_time() {
    let entries = list_for_peer(vec![
        found("a", Some((false, 5, Some(1700000000)))),
        found("b", None),
        found("c", Some((true, 0, None))),
    ]);
    assert_eq!(listed(&entries), vec![("a", false, 5), ("c", true, 0)]);
}

#[test]
fn a_local_directory_lies_below_its_parent() {
    let d = local_dir("/home/ada/docs".to_string(), vec![found("a", Some((false, 1, Some(2))))]);
    assert_eq!(d.path, "/home/ada/docs");
    assert_eq!(d.parent, "/home/ada");
    assert_eq!(d.entries.len(), 1);
    assert_eq!(d.entries[0].name, "a");
    assert_eq!(local_dir("/home".to_string(), vec![]).parent, "/");
    assert_eq!(local_dir("docs".to_string(), vec![]).parent, "");
    assert_eq!(local_dir("/".to_string(), vec![]).parent, "");
    assert_eq!(local_dir("".to_string(), vec![]).parent, "");
}

#[test]
fn a_directory_without_a_parent_has_an_empty_one() {
    assert_eq!(local_dir_below("x".to_string(), None, vec![]).parent, "");
    assert_eq!(local_dir_below("x/y".to_string(), Some("x".to_string()), vec![]).parent, "x");
}

#[test]
fn what_adds_no_part_to_a_path_does_not_move_its_parent() {
    for (path, parent) in [
        ("/a/b/", "/a"),
        ("/a/b//", "/a"),
        ("/a/b/.", "/a"),
        ("/a/b/./", "/a"),
        ("a/", ""),
        ("./", ""),
        (".", ""),
        ("./a", "."),
        ("..", ""),
        ("a/..", "a"),
        ("/.", ""),
        ("/a/", "/"),
        ("/home/ada/12:30", "/home/ada"),
        ("/a:b/c", "/a:b"),
    ] {
        assert_eq!(local_dir(path.to_string(), vec![]).parent, parent, "{:?}", path);
    }
}

#[test]
fn slashes_and_dots_before_the_last_part_add_no_part() {
    for (path, parent) in [("/a//b", "/a"), ("/a/./b", "/a"), ("/./b", "/"), (".//b", ".")] {
        let got = local_dir(path.to_string(), vec![]).parent;
        assert_eq!(
            std::path::Path::new(&got).components().collect::<Vec<_>>(),
            std::path::Path::new(parent).components().collect::<Vec<_>>(),
        );
    }
}

#[test]
fn the_current_directory_is_one_by_any_path() {
    let list = |path: &str| {
        let d = list_local_dir(
            path.to_string(),
            "/home/ada".to_string(),
            vec![found("a", Some((false, 1, Some(2))))],
        );
        let entries: Vec<String> = d.entries.into_iter().map(|e| e.name).collect();
        (d.path, d.parent, entries)
    };
    let want = ("/home/ada".to_string(), "/home".to_string(), vec!["a".to_string()]);
    assert_eq!(list(""), want);
    assert_eq!(list("."), want);
    assert_eq!(list("/home/ada"), want);
    assert_eq!(list("/tmp").0, "/tmp");
}

#[test]
fn a_peer_asks_for_the_current_directory_by_the_empty_path() {
    assert!(lists_current(""));
    assert!(!lists_current("."));
    assert!(!lists_current("/"));
}

#[test]
fn the_current_directory_keeps_its_parent_by_any_path() {
    for path in ["", ".", "C:\\work"] {
        let d = list_dir_below(
            path.to_string(),
            "C:\\work".to_string(),
            Some("C:\\".to_string()),
            vec![],
        );
        assert_eq!((d.path.as_str(), d.parent.as_str()), ("C:\\work", "C:\\"));
    }
    let d = list_dir_below("/tmp/x".to_string(), "/w".to_string(), None, vec![]);
    assert_eq!((d.path.as_str(), d.parent.as_str()), ("/tmp/x", "/tmp"));
}
