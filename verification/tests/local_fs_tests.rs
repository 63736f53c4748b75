use rclone_ui::operations::local_fs::{listing_root, order_listing};
use rclone_ui::operations::FileInfo;

fn entry(name: &str, is_dir: bool, size: u64) -> FileInfo {
    FileInfo {
        name: name.to_string(),
        path: format!("/data/{}", name),
        size,
        is_dir,
        modified: None,
    }
}

fn shape(v: &[FileInfo]) -> Vec<(String, bool, u64)> {
    v.iter().map(|f| (f.name.clone(), f.is_dir, f.size)).collect()
}

#[test]
fn listing_root_keeps_a_given_path() {
    assert_eq!(listing_root("/home/user", false), "/home/user");
    assert_eq!(listing_root("D:\\work", true), "D:\\work");
}

#[test]
fn listing_root_of_empty_path_is_the_file_system_root() {
    assert_eq!(listing_root("", false), "/");
    assert_eq!(listing_root("", true), "C:\\");
}

#[test]
fn folders_come_first_then_files_by_name() {
    let entries = vec![
        entry("b.txt", false, 1),
        entry("zeta", true, 0),
        entry("a.txt", false, 2),
        entry("alpha", true, 0),
        entry("B.txt", false, 3),
    ];
    let sorted = order_listing(entries);
    assert_eq!(
        shape(&sorted),
        vec![
            ("alpha".to_string(), true, 0),
            ("zeta".to_string(), true, 0),
            ("B.txt".to_string(), false, 3),
            ("a.txt".to_string(), false, 2),
            ("b.txt".to_string(), false, 1),
        ]
    );
}

#[test]
fn order_matches_string_comparison() {
    let names = ["ä", "a", "ab", "", "Z", "a b", "é", "e", "10", "9"];
    let entries: Vec<FileInfo> = names.iter().map(|n| entry(n, false, 0)).collect();
    let sorted = order_listing(entries);
    let mut expected: Vec<String> = names.iter().map(|n| n.to_string()).collect();
    expected.sort();
    let got: Vec<String> = sorted.iter().map(|f| f.name.clone()).collect();
    assert_eq!(got, expected);
}

#[test]
fn equal_entries_keep_their_order() {
    let entries = vec![
        entry("same", false, 1),
        entry("dir", true, 0),
        entry("same", false, 2),
        entry("same", false, 3),
    ];
    let sorted = order_listing(entries);
    assert_eq!(
        shape(&sorted),
        vec![
            ("dir".to_string(), true, 0),
            ("same".to_string(), false, 1),
            ("same".to_string(), false, 2),
            ("same".to_string(), false, 3),
        ]
    );
}

#[test]
fn empty_listing_stays_empty() {
    assert!(order_listing(Vec::new()).is_empty());
}

#[test]
fn ordering_an_ordered_listing_changes_nothing() {
    let entries = vec![
        entry("docs", true, 0),
        entry("src", true, 0),
        entry("Cargo.toml", false, 10),
        entry("README.md", false, 20),
    ];
    let once = order_listing(entries.clone());
    assert_eq!(shape(&once), shape(&entries));
    let twice = order_listing(once.clone());
    assert_eq!(shape(&twice), shape(&once));
}
