use frontend::ArgType;
use frontend::FsEntry;
use frontend::is_crs_name;
use frontend::join_path;
use frontend::scan_dir;
use frontend::scan_entry;

fn file(name: &str) -> FsEntry {
    FsEntry::File { name: name.to_string() }
}

fn dir(name: &str, entries: Vec<FsEntry>) -> FsEntry {
    FsEntry::Dir { name: name.to_string(), entries }
}

#[test]
fn suffix_accepts_crs_names() {
    assert!(is_crs_name("x.crs"));
    assert!(is_crs_name(".crs"));
    assert!(is_crs_name("deeply.nested.name.crs"));
}

#[test]
fn suffix_rejects_other_names() {
    assert!(!is_crs_name(""));
    assert!(!is_crs_name("crs"));
    assert!(!is_crs_name("xcrs"));
    assert!(!is_crs_name("x.rs"));
    assert!(!is_crs_name("a.crs.txt"));
}

#[test]
fn join_path_inserts_separator() {
    assert_eq!(join_path("a", "b.crs"), "a/b.crs");
    assert_eq!(join_path("", "x"), "/x");
    assert_eq!(join_path("a/b", "c"), "a/b/c");
}

#[test]
fn empty_dir_yields_nothing() {
    let entries: Vec<FsEntry> = vec![];
    let found = scan_dir("root", &entries);
    assert!(found.is_empty());
}

#[test]
fn non_matching_files_yield_nothing() {
    let entries = vec![
        file("a.txt"),
        dir("b", vec![file("c.rs"), file("crs"), dir("d", vec![file("e.md")])]),
    ];
    let found = scan_dir("root", &entries);
    assert!(found.is_empty());
}

#[test]
fn nested_matches_found() {
    let entries = vec![file("b.crs"), dir("c", vec![file("d.crs")])];
    let found = scan_dir("a", &entries);
    assert_eq!(found.len(), 2);
    assert!(found.iter().any(|p| p == "a/b.crs"));
    assert!(found.iter().any(|p| p == "a/c/d.crs"));
}

#[test]
fn mixed_tree_in_depth_first_order() {
    let entries = vec![
        file("one.crs"),
        file("skip.txt"),
        dir("sub", vec![file("two.crs"), file("three.crs")]),
        file("four.crs"),
    ];
    let found = scan_dir("r", &entries);
    assert_eq!(
        found,
        vec![
            "r/one.crs".to_string(),
            "r/sub/two.crs".to_string(),
            "r/sub/three.crs".to_string(),
            "r/four.crs".to_string(),
        ]
    );
}

#[test]
fn deeply_nested_match_found() {
    let entries = vec![dir("a", vec![dir("b", vec![dir("c", vec![file("d.crs")])])])];
    let found = scan_dir("top", &entries);
    assert_eq!(found, vec!["top/a/b/c/d.crs".to_string()]);
}

#[test]
fn directory_names_never_returned() {
    let entries = vec![dir("looks-like.crs", vec![file("inner.txt")])];
    let found = scan_dir("root", &entries);
    assert!(found.is_empty());
}

#[test]
fn scan_entry_single_file() {
    let found = scan_entry("root", &file("m.crs"));
    assert_eq!(found, vec!["root/m.crs".to_string()]);
    let none = scan_entry("root", &file("m.txt"));
    assert!(none.is_empty());
}

#[test]
fn arg_type_carries_directory_path() {
    let arg = ArgType::DirPath("src".to_string());
    let ArgType::DirPath(path) = arg;
    assert_eq!(path, "src");
}
