use luminliquid::files::File;
use luminliquid::files::FileInfo;
use luminliquid::files::FileType;
use luminliquid::files::ScanError;
use luminliquid::ignore::IgnoreSet;
use luminliquid::scan::scan_dir;
use luminliquid::snapshot::check_depth;
use luminliquid::snapshot::DirEntry;
use luminliquid::snapshot::DirListing;
use luminliquid::snapshot::EntryStatus;
use luminliquid::snapshot::ModifiedTime;
use luminliquid::snapshot::PathState;

fn file(name: &str, size: u64) -> DirEntry {
    let extension = match name.rfind('.') {
        Some(at) if at > 0 => Some(name[at + 1..].to_string()),
        _ => None,
    };
    DirEntry {
        name: name.to_string(),
        path: format!("/notes/{}", name),
        extension,
        status: EntryStatus::File { size, modified: ModifiedTime::SinceEpoch(1_700_000_000) },
    }
}

fn dir(name: &str, entries: Vec<DirEntry>) -> DirEntry {
    DirEntry {
        name: name.to_string(),
        path: format!("/notes/{}", name),
        extension: None,
        status: EntryStatus::Directory {
            size: 4096,
            modified: ModifiedTime::SinceEpoch(1_700_000_001),
            listing: DirListing { entries, failure: None },
        },
    }
}

fn root(entries: Vec<DirEntry>) -> PathState {
    PathState::Directory(DirListing { entries, failure: None })
}

fn names(items: &[FileInfo]) -> Vec<String> {
    items.iter().map(|item| item.name.clone()).collect()
}

#[test]
fn scenario_with_subdirectory_and_git() {
    let found = root(vec![
        file("b.txt", 10),
        dir("A", vec![file("c.txt", 3)]),
        dir(".git", vec![file("HEAD", 20)]),
    ]);
    let tree = File::list_dir_recursive_with_default_ignores("/notes", &found).unwrap();
    assert_eq!(names(&tree), vec!["A", "b.txt"]);
    assert_eq!(tree[0].file_type, FileType::Directory);
    assert_eq!(tree[0].depth, 0);
    assert_eq!(names(&tree[0].children), vec!["c.txt"]);
    assert_eq!(tree[0].children[0].depth, 1);
    assert_eq!(tree[0].children[0].file_type, FileType::File);
    assert!(tree[0].children[0].children.is_empty());
    assert_eq!(tree[1].file_type, FileType::File);
    assert_eq!(tree[1].size, 10);
    assert_eq!(tree[1].depth, 0);
    assert!(tree[1].children.is_empty());
}

#[test]
fn node_carries_what_the_entry_holds() {
    let found = root(vec![file("report.final.PDF", 77)]);
    let tree = File::list_dir_recursive_simple("/notes", &found).unwrap();
    assert_eq!(tree.len(), 1);
    assert_eq!(tree[0].name, "report.final.PDF");
    assert_eq!(tree[0].path, "/notes/report.final.PDF");
    assert_eq!(tree[0].extension, Some("PDF".to_string()));
    assert_eq!(tree[0].size, 77);
    assert_eq!(tree[0].modified, 1_700_000_000);
    assert_eq!(tree[0].file_type, FileType::File);
}

#[test]
fn missing_path_is_not_found() {
    let result = File::list_dir_recursive("/nowhere", &PathState::Missing, None);
    match result {
        Err(ScanError::NotFound(path)) => assert_eq!(path, "/nowhere"),
        other => panic!("unexpected: {:?}", other),
    }
}

#[test]
fn file_path_is_not_a_directory() {
    let result = File::list_dir_recursive("/notes/a.txt", &PathState::NotADirectory, None);
    match result {
        Err(ScanError::NotADirectory(path)) => assert_eq!(path, "/notes/a.txt"),
        other => panic!("unexpected: {:?}", other),
    }
}

#[test]
fn scan_errors_in_words() {
    assert_eq!(ScanError::NotFound("/x".to_string()).message(), "Path does not exist: /x");
    assert_eq!(
        ScanError::NotADirectory("/x/y".to_string()).message(),
        "Path is not a directory: /x/y"
    );
    assert_eq!(
        ScanError::Io("permission denied".to_string()).message(),
        "Failed to list directory: permission denied"
    );
}

#[test]
fn empty_directory_gives_empty_tree() {
    let tree = File::list_dir_recursive("/notes", &root(vec![]), None).unwrap();
    assert!(tree.is_empty());
}

#[test]
fn siblings_sorted_without_regard_to_case() {
    let found = root(vec![file("delta", 1), file("Bravo", 1), file("alpha", 1), file("Charlie", 1)]);
    let tree = File::list_dir_recursive_simple("/notes", &found).unwrap();
    assert_eq!(names(&tree), vec!["alpha", "Bravo", "Charlie", "delta"]);
}

#[test]
fn names_differing_by_case_keep_their_order() {
    let upper_first = root(vec![file("b", 1), file("A", 1), file("a", 1)]);
    let tree = File::list_dir_recursive_simple("/notes", &upper_first).unwrap();
    assert_eq!(names(&tree), vec!["A", "a", "b"]);
    let lower_first = root(vec![file("a", 1), file("b", 1), file("A", 1)]);
    let tree = File::list_dir_recursive_simple("/notes", &lower_first).unwrap();
    assert_eq!(names(&tree), vec!["a", "A", "b"]);
}

#[test]
fn order_is_by_code_point_after_lower_casing() {
    let found = root(vec![file("b", 1), file("_x", 1), file("Z", 1), file("10", 1), file("9", 1), file("ab", 1), file("a", 1)]);
    let tree = File::list_dir_recursive_simple("/notes", &found).unwrap();
    assert_eq!(names(&tree), vec!["10", "9", "_x", "a", "ab", "b", "Z"]);
}

#[test]
fn children_are_sorted_too() {
    let found = root(vec![dir("docs", vec![file("z.md", 1), file("B.md", 1), file("a.md", 1)])]);
    let tree = File::list_dir_recursive_simple("/notes", &found).unwrap();
    assert_eq!(names(&tree[0].children), vec!["a.md", "B.md", "z.md"]);
}

#[test]
fn depth_grows_by_one_per_directory() {
    let found = root(vec![dir("a", vec![dir("b", vec![dir("c", vec![file("d", 1)])])])]);
    let tree = File::list_dir_recursive_simple("/notes", &found).unwrap();
    let a = &tree[0];
    let b = &a.children[0];
    let c = &b.children[0];
    let d = &c.children[0];
    assert_eq!((a.depth, b.depth, c.depth, d.depth), (0, 1, 2, 3));
}

#[test]
fn ignore_list_is_matched_without_regard_to_case() {
    let found = root(vec![file("Keep.txt", 1), file("SKIP.me", 1), file("skip.ME", 1), dir("Drafts", vec![])]);
    let tree =
        File::list_dir_recursive("/notes", &found, Some(vec!["Skip.Me", "DRAFTS"])).unwrap();
    assert_eq!(names(&tree), vec!["Keep.txt"]);
}

#[test]
fn ignore_list_reaches_every_depth() {
    let found = root(vec![dir("src", vec![dir("Target", vec![file("x", 1)]), file("main.rs", 1)])]);
    let tree = File::list_dir_recursive("/notes", &found, Some(vec!["target"])).unwrap();
    assert_eq!(names(&tree), vec!["src"]);
    assert_eq!(names(&tree[0].children), vec!["main.rs"]);
}

#[test]
fn ignore_list_lower_cases_beyond_ascii() {
    let found = root(vec![file("ÄRGER", 1), file("ärger", 1), file("arger", 1)]);
    let tree = File::list_dir_recursive("/notes", &found, Some(vec!["Ärger"])).unwrap();
    assert_eq!(names(&tree), vec!["arger"]);
}

#[test]
fn ignored_directory_is_never_looked_into() {
    let broken = DirEntry {
        name: "node_modules".to_string(),
        path: "/notes/node_modules".to_string(),
        extension: None,
        status: EntryStatus::Directory {
            size: 0,
            modified: ModifiedTime::Unavailable,
            listing: DirListing { entries: vec![], failure: Some("permission denied".to_string()) },
        },
    };
    let unreadable = DirEntry {
        name: ".DS_Store".to_string(),
        path: "/notes/.DS_Store".to_string(),
        extension: None,
        status: EntryStatus::Unreadable("gone".to_string()),
    };
    let found = root(vec![broken, unreadable, file("a.md", 1)]);
    let tree = File::list_dir_recursive_with_default_ignores("/notes", &found).unwrap();
    assert_eq!(names(&tree), vec!["a.md"]);
}

#[test]
fn default_ignores_are_the_sixteen_names() {
    assert_eq!(
        File::default_ignores(),
        vec![
            ".git",
            "node_modules",
            ".DS_Store",
            "Thumbs.db",
            ".idea",
            ".vscode",
            "target",
            "__pycache__",
            ".pytest_cache",
            "venv",
            "env",
            ".env",
            ".env.local",
            ".env.development.local",
            ".env.test.local",
            ".env.production.local",
        ]
    );
}

#[test]
fn default_ignores_leave_out_each_name_in_any_case() {
    let mut entries: Vec<DirEntry> = Vec::new();
    for name in File::default_ignores() {
        entries.push(file(name, 1));
        entries.push(file(&name.to_uppercase(), 1));
    }
    entries.push(file("environment", 1));
    entries.push(file(".gitignore", 1));
    let tree = File::list_dir_recursive_with_default_ignores("/notes", &root(entries)).unwrap();
    assert_eq!(names(&tree), vec![".gitignore", "environment"]);
}

#[test]
fn simple_scan_leaves_nothing_out() {
    let found = root(vec![dir(".git", vec![file("HEAD", 1)]), file("target", 1)]);
    let tree = File::list_dir_recursive_simple("/notes", &found).unwrap();
    assert_eq!(names(&tree), vec![".git", "target"]);
    assert_eq!(names(&tree[0].children), vec!["HEAD"]);
}

#[test]
fn modified_time_is_clamped_to_the_epoch() {
    assert_eq!(ModifiedTime::Unavailable.as_secs(), 0);
    assert_eq!(ModifiedTime::BeforeEpoch.as_secs(), 0);
    assert_eq!(ModifiedTime::SinceEpoch(0).as_secs(), 0);
    assert_eq!(ModifiedTime::SinceEpoch(1_234).as_secs(), 1_234);
    assert_eq!(ModifiedTime::SinceEpoch(u64::MAX).as_secs(), u64::MAX);
    let mut entry = file("old", 1);
    entry.status = EntryStatus::File { size: 1, modified: ModifiedTime::BeforeEpoch };
    let tree = File::list_dir_recursive_simple("/notes", &root(vec![entry])).unwrap();
    assert_eq!(tree[0].modified, 0);
}

#[test]
fn unreadable_entry_fails_the_scan() {
    let mut entry = file("locked", 1);
    entry.status = EntryStatus::Unreadable("permission denied".to_string());
    let result = File::list_dir_recursive("/notes", &root(vec![file("a", 1), entry]), None);
    match result {
        Err(ScanError::Io(message)) => assert_eq!(message, "permission denied"),
        other => panic!("unexpected: {:?}", other),
    }
}

#[test]
fn failed_listing_fails_the_scan() {
    let found = PathState::Directory(DirListing {
        entries: vec![file("a", 1)],
        failure: Some("input/output error".to_string()),
    });
    match File::list_dir_recursive("/notes", &found, None) {
        Err(ScanError::Io(message)) => assert_eq!(message, "input/output error"),
        other => panic!("unexpected: {:?}", other),
    }
}

#[test]
fn failure_below_fails_the_whole_scan() {
    let mut inner = dir("inner", vec![]);
    inner.status = EntryStatus::Directory {
        size: 0,
        modified: ModifiedTime::Unavailable,
        listing: DirListing { entries: vec![], failure: Some("cannot open".to_string()) },
    };
    let found = root(vec![file("a", 1), dir("outer", vec![file("b", 1), inner]), file("z", 1)]);
    match File::list_dir_recursive("/notes", &found, None) {
        Err(ScanError::Io(message)) => assert_eq!(message, "cannot open"),
        other => panic!("unexpected: {:?}", other),
    }
}

#[test]
fn first_failure_in_listing_order_is_reported() {
    let mut first = file("zz", 1);
    first.status = EntryStatus::Unreadable("first".to_string());
    let mut second = file("aa", 1);
    second.status = EntryStatus::Unreadable("second".to_string());
    let found = PathState::Directory(DirListing {
        entries: vec![first, second],
        failure: Some("third".to_string()),
    });
    match File::list_dir_recursive("/notes", &found, None) {
        Err(ScanError::Io(message)) => assert_eq!(message, "first"),
        other => panic!("unexpected: {:?}", other),
    }
}

#[test]
fn scanning_twice_gives_the_same_tree() {
    let found = root(vec![
        file("b.txt", 10),
        dir("A", vec![file("c.txt", 3), file("C.txt", 4)]),
        dir(".git", vec![]),
        file("a", 1),
    ]);
    let first = File::list_dir_recursive_with_default_ignores("/notes", &found).unwrap();
    let second = File::list_dir_recursive_with_default_ignores("/notes", &found).unwrap();
    assert_eq!(format!("{:?}", first), format!("{:?}", second));
}

#[test]
fn scan_dir_starts_at_the_given_depth() {
    let listing = DirListing { entries: vec![dir("a", vec![file("b", 1)])], failure: None };
    let ignore = IgnoreSet::from_keys(vec![]);
    let tree = scan_dir(&listing, 5, &ignore).unwrap();
    assert_eq!(tree[0].depth, 5);
    assert_eq!(tree[0].children[0].depth, 6);
}

#[test]
fn depth_check_accepts_what_fits() {
    let found = root(vec![dir("a", vec![dir("b", vec![])])]);
    assert!(found.check_depth());
    assert!(PathState::Missing.check_depth());
    assert!(PathState::NotADirectory.check_depth());
}

#[test]
fn depth_check_refuses_what_would_overflow() {
    let deep = DirListing { entries: vec![dir("a", vec![dir("b", vec![])])], failure: None };
    assert!(check_depth(&deep, usize::MAX - 2));
    assert!(!check_depth(&deep, usize::MAX - 1));
    let flat = DirListing { entries: vec![file("a", 1)], failure: None };
    assert!(check_depth(&flat, usize::MAX));
    let one = DirListing { entries: vec![dir("a", vec![])], failure: None };
    assert!(!check_depth(&one, usize::MAX));
}

#[test]
fn ignore_set_holds_keys_as_given() {
    let set = IgnoreSet::from_keys(vec!["abc".to_string(), "Def".to_string()]);
    assert!(set.contains_key("abc"));
    assert!(set.contains_key("Def"));
    assert!(!set.contains_key("def"));
    assert!(!set.contains_key("ab"));
    assert!(set.contains_name("ABC"));
    assert!(!set.contains_name("Def"));
}

#[test]
fn ignore_set_lower_cases_names() {
    let set = IgnoreSet::from_names(Some(vec!["ABC", "Thumbs.db"]));
    assert!(set.contains_key("abc"));
    assert!(!set.contains_key("ABC"));
    assert!(set.contains_key("thumbs.db"));
    assert!(set.contains_name("THUMBS.DB"));
    assert!(!set.contains_name("thumbs"));
    let none = IgnoreSet::from_names(None);
    assert!(!none.contains_name(""));
    assert!(!none.contains_key("abc"));
}

#[test]
fn order_of_the_listing_does_not_matter_without_case_twins() {
    let one = root(vec![file("b", 1), dir("D", vec![file("y", 1), file("X", 1)]), file("a", 1), file("C", 1)]);
    let other = root(vec![file("C", 1), file("a", 1), file("b", 1), dir("D", vec![file("X", 1), file("y", 1)])]);
    let first = File::list_dir_recursive_simple("/notes", &one).unwrap();
    let second = File::list_dir_recursive_simple("/notes", &other).unwrap();
    assert_eq!(names(&first), vec!["a", "b", "C", "D"]);
    assert_eq!(format!("{:?}", first), format!("{:?}", second));
}

#[test]
fn every_entry_kept_has_its_node() {
    let found = root(vec![file("one", 1), file(".git", 1), file("two", 2), file("ENV", 3), file("three", 3)]);
    let tree = File::list_dir_recursive_with_default_ignores("/notes", &found).unwrap();
    assert_eq!(names(&tree), vec!["one", "three", "two"]);
    assert_eq!(tree.iter().map(|item| item.size).collect::<Vec<u64>>(), vec![1, 3, 2]);
}
