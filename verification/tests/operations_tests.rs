use rclone_ui::operations::check::{diff, diff_args};
use rclone_ui::operations::files::{about_figures, list, size};
use rclone_ui::operations::info::{backends, version};
use rclone_ui::operations::json::Json;
use rclone_ui::operations::remotes::{remote_type_of, remotes_from};
use rclone_ui::operations::remotes::{
    check, create_args, get_config, remote_names, remote_or_unknown, update_args,
};
use rclone_ui::operations::search::{by_name, collect_hits};
use rclone_ui::operations::sync::{
    copy_args, delete_args, move_args, preview, sync_args, transfer_speed_text,
};
use rclone_ui::operations::{
    CopyOptions, DeleteOptions, FileInfo, FindOptions, MoveOptions, Remote, SyncOptions,
};

fn file(size: u64, is_dir: bool) -> FileInfo {
    FileInfo {
        name: "test.txt".to_string(),
        path: "/path/test.txt".to_string(),
        size,
        is_dir,
        modified: None,
    }
}

fn strings(v: &[&str]) -> Vec<String> {
    v.iter().map(|s| s.to_string()).collect()
}

#[test]
fn test_file_info_formatting() {
    let file = FileInfo {
        name: "test.txt".to_string(),
        path: "/path/test.txt".to_string(),
        size: 1500,
        is_dir: false,
        modified: None,
    };

    assert_eq!(file.format_size(), "1.5 KB");
    assert_eq!(file.icon(), "📄");
}

/// The size text as float formatting of the scaled size produces it.
fn float_size_text(bytes: u64) -> String {
    if bytes < 1024 {
        format!("{} B", bytes)
    } else if bytes < 1024 * 1024 {
        format!("{:.1} KB", bytes as f64 / 1024.0)
    } else if bytes < 1024 * 1024 * 1024 {
        format!("{:.1} MB", bytes as f64 / (1024.0 * 1024.0))
    } else {
        format!("{:.2} GB", bytes as f64 / (1024.0 * 1024.0 * 1024.0))
    }
}

#[test]
fn format_size_units_and_ties() {
    assert_eq!(file(0, false).format_size(), "0 B");
    assert_eq!(file(1023, false).format_size(), "1023 B");
    assert_eq!(file(1024, false).format_size(), "1.0 KB");
    assert_eq!(file(1280, false).format_size(), "1.2 KB");
    assert_eq!(file(1536, false).format_size(), "1.5 KB");
    assert_eq!(file(1048575, false).format_size(), "1024.0 KB");
    assert_eq!(file(1048576, false).format_size(), "1.0 MB");
    assert_eq!(file(1073741823, false).format_size(), "1024.0 MB");
    assert_eq!(file(1073741824, false).format_size(), "1.00 GB");
    assert_eq!(file(5905580032, false).format_size(), "5.50 GB");
    assert_eq!(file(123456789012, false).format_size(), "114.98 GB");
    assert_eq!(file(9007199254740993, false).format_size(), "8388608.00 GB");
    assert_eq!(file(u64::MAX, false).format_size(), "17179869184.00 GB");
}

#[test]
fn format_size_agrees_with_float_formatting() {
    let mut samples: Vec<u64> = Vec::new();
    for b in 0..5000u64 {
        samples.push(b);
    }
    for k in 0..64u32 {
        let p = 1u64 << k;
        for d in [0u64, 1, 2, 3, 255, 256, 257, 511, 512, 513, 1023, 1024, 1025] {
            samples.push(p.wrapping_add(d));
            samples.push(p.wrapping_sub(d));
            samples.push(p.wrapping_mul(3).wrapping_add(d));
        }
    }
    let mut x: u64 = 0x9E37_79B9_7F4A_7C15;
    for _ in 0..20000 {
        x ^= x << 13;
        x ^= x >> 7;
        x ^= x << 17;
        samples.push(x >> (x % 64));
    }
    for b in samples {
        assert_eq!(file(b, false).format_size(), float_size_text(b), "size {}", b);
    }
}

#[test]
fn icon_for_directories() {
    assert_eq!(file(0, true).icon(), "📁");
    assert_eq!(file(0, false).icon(), "📄");
}

#[test]
fn diff_keeps_non_empty_lines() {
    assert_eq!(diff_args("a:x", "b:y"), strings(&["check", "a:x", "b:y", "--combined", "-"]));
    let out = "= same.txt\n\n+ new.txt\r\n- gone.txt\n".to_string();
    assert_eq!(diff(Ok(out)).unwrap(), strings(&["= same.txt", "+ new.txt", "- gone.txt"]));
    assert_eq!(diff(Ok(String::new())).unwrap(), Vec::<String>::new());
    assert_eq!(diff(Err("boom".to_string())), Err("boom".to_string()));
}

#[test]
fn version_pairs_are_trimmed() {
    let out = "rclone v1.65.0\n- os/version: ubuntu 22.04 (64 bit)\n- go/version: go1.21.4\nno colon here\n"
        .to_string();
    let pairs = version(Ok(out)).unwrap();
    assert_eq!(
        pairs,
        vec![
            ("- os/version".to_string(), "ubuntu 22.04 (64 bit)".to_string()),
            ("- go/version".to_string(), "go1.21.4".to_string()),
        ]
    );
    assert_eq!(version(Err("e".to_string())), Err("e".to_string()));
}

#[test]
fn backends_take_first_words() {
    let out = "All rclone backends:\n\n  drive        Google Drive\n  s3  Amazon S3\n   \n".to_string();
    assert_eq!(backends(Ok(out)).unwrap(), strings(&["All", "drive", "s3"]));
}

#[test]
fn remote_names_drop_colons_and_blank_lines() {
    let out = "gdrive:\nbackup::\n:\n\nlocal:\n".to_string();
    assert_eq!(remote_names(Ok(out)).unwrap(), strings(&["gdrive", "backup", "local"]));
}

#[test]
fn remote_fallback_is_unknown() {
    let r = remote_or_unknown("x", Err("no".to_string()));
    assert_eq!(r.name, "x");
    assert_eq!(r.remote_type, "unknown");
    assert!(r.config.is_empty());
    let found = Remote { name: "y".to_string(), remote_type: "s3".to_string(), config: vec![] };
    assert_eq!(remote_or_unknown("y", Ok(found)).remote_type, "s3");
}

#[test]
fn check_treats_missing_directory_as_reachable() {
    assert_eq!(check(Ok(String::new())), Ok(true));
    assert_eq!(check(Err("ERROR: directory not found".to_string())), Ok(true));
    assert_eq!(check(Err("ERROR: permission denied".to_string())), Err("ERROR: permission denied".to_string()));
}

#[test]
fn config_arguments_list_settings_in_order() {
    let cfg = vec![("scope".to_string(), "drive".to_string()), ("team".to_string(), "".to_string())];
    assert_eq!(
        create_args("mydrive", "drive", &cfg),
        strings(&["config", "create", "mydrive", "drive", "scope", "drive", "team", ""])
    );
    assert_eq!(update_args("mydrive", &cfg), strings(&["config", "update", "mydrive", "scope", "drive", "team", ""]));
}

#[test]
fn transfer_arguments_follow_options() {
    let copy = CopyOptions { verbose: true, dry_run: false, bandwidth_limit: Some("1M".to_string()), no_traverse: true };
    assert_eq!(
        copy_args("a:", "b:", &copy),
        strings(&["copy", "a:", "b:", "--progress", "--stats-one-line", "-v", "--bwlimit", "1M", "--no-traverse"])
    );
    let sync = SyncOptions { verbose: false, dry_run: true, delete_excluded: true, bandwidth_limit: None, existing_only: true };
    assert_eq!(
        sync_args("a", "b", &sync),
        strings(&["sync", "a", "b", "--progress", "--stats-one-line", "--dry-run", "--delete-excluded", "--existing-only"])
    );
    let mv = MoveOptions { verbose: false, dry_run: false, delete_empty_src_dirs: true };
    assert_eq!(move_args("a", "b", &mv), strings(&["move", "a", "b", "--progress", "--stats-one-line", "--delete-empty-src-dirs"]));
    let del = DeleteOptions { verbose: true, dry_run: true, recursive: true };
    assert_eq!(delete_args("r:dir", &del), strings(&["purge", "r:dir", "--progress", "-v", "--dry-run"]));
    let del_files = DeleteOptions { verbose: false, dry_run: false, recursive: false };
    assert_eq!(delete_args("r:f", &del_files), strings(&["delete", "r:f", "--progress"]));
}

#[test]
fn preview_lists_affected_files() {
    let out = "NOTICE: a.txt: Skipped copy as --dry-run is set\nTransferred: 0 / 1, 0%\nErrors: 0\nplain line\n".to_string();
    assert_eq!(preview(Ok(out)).unwrap(), strings(&["NOTICE: a.txt: Skipped copy as --dry-run is set"]));
}

#[test]
fn speed_is_read_from_last_transfer_line() {
    let out = "Transferred: 1 / 5, 20%, 9.0 MB/s, ETA 1s\nTransferred:   \t        5 / 5, 100%, 1.234 MB/s, ETA 0s\nChecks: 3\n";
    assert_eq!(transfer_speed_text(out), Some("1.234".to_string()));
    assert_eq!(transfer_speed_text("Transferred: 5 / 5, 100%, 12 KB/s, ETA 0s\n"), None);
    assert_eq!(transfer_speed_text("Transferred: 5 / 5\n"), None);
    assert_eq!(transfer_speed_text("nothing\n"), None);
}

fn obj(entries: Vec<(&str, Json)>) -> Json {
    Json::Object {
        entries: entries.into_iter().map(|(k, v)| (k.to_string(), v)).collect(),
        text: String::new(),
    }
}

fn s(v: &str) -> Json {
    Json::Str(v.to_string())
}

fn n(v: u64) -> Json {
    Json::Number { text: v.to_string(), unsigned: Some(v) }
}

#[test]
fn listing_items_become_entries_with_defaults() {
    let items = vec![
        obj(vec![("Name", s("a.txt")), ("Path", s("dir/a.txt")), ("Size", n(12)), ("IsDir", Json::Bool(false)), ("ModTime", s("2024-01-01"))]),
        obj(vec![("Name", s("sub")), ("IsDir", Json::Bool(true)), ("Size", Json::Number { text: "-1".to_string(), unsigned: None })]),
        Json::Null,
    ];
    let files = list(&items);
    assert_eq!(files.len(), 3);
    assert_eq!(files[0].name, "a.txt");
    assert_eq!(files[0].path, "dir/a.txt");
    assert_eq!(files[0].size, 12);
    assert_eq!(files[0].modified, Some("2024-01-01".to_string()));
    assert!(files[1].is_dir);
    assert_eq!(files[1].size, 0);
    assert_eq!(files[1].path, "");
    assert_eq!(files[2].name, "");
    assert!(!files[2].is_dir);
}

#[test]
fn size_reads_bytes_and_count() {
    assert_eq!(size(&obj(vec![("count", n(3)), ("bytes", n(4096))])), (4096, 3));
    assert_eq!(size(&Json::Null), (0, 0));
}

#[test]
fn search_ignores_case_and_stops_at_limit() {
    let items = vec![
        obj(vec![("Name", s("Report.PDF")), ("Path", s("docs/Report.PDF"))]),
        obj(vec![("Name", s("notes.txt")), ("Path", s("reports/notes.txt"))]),
        obj(vec![("Name", s("photo.jpg")), ("Path", s("photo.jpg"))]),
        obj(vec![("Name", s("report2.pdf")), ("Path", s("report2.pdf"))]),
    ];
    let all = by_name(&items, "REPORT", &FindOptions { recursive: false, max_results: 10 });
    assert_eq!(all.iter().map(|f| f.name.clone()).collect::<Vec<_>>(), strings(&["Report.PDF", "notes.txt", "report2.pdf"]));
    let two = by_name(&items, "report", &FindOptions { recursive: false, max_results: 2 });
    assert_eq!(two.len(), 2);
    let none_limit = by_name(&items, "photo", &FindOptions { recursive: false, max_results: 0 });
    assert_eq!(none_limit.len(), 0);
    let first_hit = by_name(&items, "report", &FindOptions { recursive: false, max_results: 0 });
    assert_eq!(first_hit.len(), 1);
}

#[test]
fn config_lookup_reads_type_and_settings() {
    let dump = obj(vec![
        (
            "gdrive",
            obj(vec![
                ("client_id", s("abc")),
                ("token", Json::Object { entries: vec![], text: "{}".to_string() }),
                ("type", s("drive")),
                ("chunk", n(8)),
            ]),
        ),
        ("odd", obj(vec![("type", n(1))])),
    ]);
    let r = get_config(&dump, "gdrive").unwrap();
    assert_eq!(r.name, "gdrive");
    assert_eq!(r.remote_type, "drive");
    assert_eq!(
        r.config,
        vec![
            ("client_id".to_string(), "abc".to_string()),
            ("token".to_string(), "{}".to_string()),
            ("chunk".to_string(), "8".to_string()),
        ]
    );
    assert_eq!(get_config(&dump, "odd").unwrap().remote_type, "unknown");
    assert_eq!(get_config(&dump, "missing").unwrap_err(), "Remote 'missing' не найден");
}

#[test]
fn about_keeps_numeric_figures() {
    let info = obj(vec![
        ("total", n(1000)),
        ("used", Json::Number { text: "12.5".to_string(), unsigned: None }),
        ("name", s("x")),
        ("free", n(7)),
    ]);
    assert_eq!(
        about_figures(&info),
        vec![
            ("total".to_string(), Ok(1000)),
            ("used".to_string(), Err("12.5".to_string())),
            ("free".to_string(), Ok(7)),
        ]
    );
    assert!(about_figures(&s("x")).is_empty());
}

#[test]
fn hits_follow_the_lowered_names_given() {
    let items = vec![
        obj(vec![("Name", s("A")), ("Path", s("x/A"))]),
        obj(vec![("Name", s("B")), ("Path", s("x/B"))]),
        obj(vec![("Name", s("C")), ("Path", s("y/C"))]),
    ];
    let lowered = vec![
        ("zzz".to_string(), "zzz".to_string()),
        ("b".to_string(), "x/b".to_string()),
        ("c".to_string(), "y/c".to_string()),
    ];
    let found = collect_hits(&items, &lowered, "x/", 10);
    assert_eq!(found.iter().map(|f| f.name.clone()).collect::<Vec<_>>(), vec!["B"]);
    let found = collect_hits(&items, &lowered, "", 2);
    assert_eq!(found.iter().map(|f| f.name.clone()).collect::<Vec<_>>(), vec!["A", "B"]);
}

#[test]
fn remotes_pair_names_with_their_configuration() {
    let names = strings(&["a", "b"]);
    let found = Remote { name: "a".to_string(), remote_type: "drive".to_string(), config: vec![] };
    let remotes = remotes_from(&names, vec![Ok(found), Err("no".to_string())]);
    assert_eq!(remotes.len(), 2);
    assert_eq!(remotes[0].remote_type, "drive");
    assert_eq!(remotes[1].name, "b");
    assert_eq!(remotes[1].remote_type, "unknown");
    assert!(remotes[1].config.is_empty());
    assert_eq!(remote_type_of(&remotes, "a"), "drive");
    assert_eq!(remote_type_of(&remotes, "b"), "unknown");
    assert_eq!(remote_type_of(&remotes, "c"), "");
}
