use rclone_ui::rclone_install::{
    binary_file_name, command_result, download_url, is_rclone_binary,
    is_version_recent, locate_rclone, rclone_status, release_arch, release_os, release_version,
    rclone_binary_from_archive, release_tag, streamed_command_result, take_error_line,
    RcloneApp,
};
use rclone_ui::operations::json::Json;
use std::io::Write;
use std::path::PathBuf;
use tempfile::tempdir;

fn setup_test_dir() -> tempfile::TempDir {
    tempdir().expect("Failed to create temp dir")
}

#[test]
fn test_new_with_path_constructor() {
    let temp_dir = setup_test_dir();
    let rclone_path = temp_dir.path().join("rclone");

    let app = RcloneApp::new_with_path(rclone_path.clone(), true);

    assert_eq!(app.get_rclone_path(), &rclone_path);
    assert!(app.is_using_system_rclone());
}

#[test]
fn test_getters() {
    let temp_dir = setup_test_dir();
    let rclone_path = temp_dir.path().join("rclone");

    let app = RcloneApp::new_with_path(rclone_path.clone(), true);

    assert_eq!(app.get_rclone_path(), &rclone_path);
    assert!(app.is_using_system_rclone());
}

#[test]
fn test_setters() {
    let temp_dir = setup_test_dir();
    let rclone_path1 = temp_dir.path().join("rclone1");
    let rclone_path2 = temp_dir.path().join("rclone2");

    let mut app = RcloneApp::new_with_path(rclone_path1, false);

    assert!(!app.is_using_system_rclone());

    app.set_using_system_rclone(true);
    assert!(app.is_using_system_rclone());

    app.set_rclone_path(rclone_path2.clone());
    assert_eq!(app.get_rclone_path(), &rclone_path2);
}

#[test]
fn test_using_system_rclone_flag() {
    let temp_dir = setup_test_dir();
    let rclone_path = temp_dir.path().join("rclone");

    let app = RcloneApp::new_with_path(rclone_path.clone(), true);
    assert!(app.is_using_system_rclone());

    let app2 = RcloneApp::new_with_path(rclone_path, false);
    assert!(!app2.is_using_system_rclone());
}

#[test]
fn test_multiple_instances() {
    let temp_dir = setup_test_dir();

    let app1 = RcloneApp::new_with_path(temp_dir.path().join("rclone1"), true);
    let app2 = RcloneApp::new_with_path(temp_dir.path().join("rclone2"), false);
    let app3 = RcloneApp::new_with_path(temp_dir.path().join("rclone3"), true);

    assert!(app1.is_using_system_rclone());
    assert!(!app2.is_using_system_rclone());
    assert!(app3.is_using_system_rclone());

    assert_ne!(app1.get_rclone_path(), app2.get_rclone_path());
}

#[test]
fn test_path_manipulation() {
    let temp_dir = setup_test_dir();
    let original_path = temp_dir.path().join("original_rclone");
    let new_path = temp_dir.path().join("new_rclone");

    let mut app = RcloneApp::new_with_path(original_path.clone(), false);
    assert_eq!(app.get_rclone_path(), &original_path);

    app.set_rclone_path(new_path.clone());
    assert_eq!(app.get_rclone_path(), &new_path);
}

#[test]
fn test_os_arch_detection() {
    let os = release_os("linux").unwrap_or("unknown");
    let arch = release_arch("x86_64").unwrap_or("unknown");

    assert_ne!(os, "unknown", "ОС должна быть определена");
    assert_ne!(arch, "unknown", "Архитектура должна быть определена");
    assert_eq!(os, "linux");
    assert_eq!(arch, "amd64");
    assert_eq!(release_os("macos"), Some("osx"));
    assert_eq!(release_os("windows"), Some("windows"));
    assert_eq!(release_os("freebsd").unwrap_or("unknown"), "unknown");
    assert_eq!(release_arch("aarch64"), Some("arm64"));
    assert_eq!(release_arch("arm"), Some("arm"));
    assert_eq!(release_arch("riscv64").unwrap_or("unknown"), "unknown");

    println!("OS: {}, ARCH: {}", os, arch);
}

#[test]
fn release_names_map_targets() {
    assert_eq!(release_os("linux"), Some("linux"));
    assert_eq!(release_os("macos"), Some("osx"));
    assert_eq!(release_os("windows"), Some("windows"));
    assert_eq!(release_os("freebsd"), None);
    assert_eq!(release_arch("x86_64"), Some("amd64"));
    assert_eq!(release_arch("aarch64"), Some("arm64"));
    assert_eq!(release_arch("arm"), Some("arm"));
    assert_eq!(release_arch("riscv64"), None);
}

#[test]
fn download_url_names_the_zip() {
    assert_eq!(release_version("v1.66.0"), "1.66.0");
    assert_eq!(release_version("vv2"), "2");
    assert_eq!(release_version("1.0"), "1.0");
    assert_eq!(
        download_url("1.66.0", "linux", "amd64"),
        "https://github.com/rclone/rclone/releases/download/v1.66.0/rclone-v1.66.0-linux-amd64.zip"
    );
}

#[test]
fn archive_entry_selection() {
    assert!(is_rclone_binary("rclone-v1.66.0-linux-amd64/rclone"));
    assert!(is_rclone_binary("rclone.exe"));
    assert!(!is_rclone_binary("rclone-v1.66.0-linux-amd64/rclone.1"));
    assert_eq!(binary_file_name(true), "rclone.exe");
    assert_eq!(binary_file_name(false), "rclone");
}

#[test]
fn version_recency_and_status() {
    assert!(!is_version_recent("rclone v1.55.1\n- os/version"));
    assert!(is_version_recent("rclone v1.66.0\n"));
    assert_eq!(rclone_status(Some("rclone v1.66.0"), None), 0);
    assert_eq!(rclone_status(Some("rclone v1.55.0"), Some("rclone v1.66.0")), 1);
    assert_eq!(rclone_status(None, Some("rclone v1.66.0")), 0);
    assert_eq!(rclone_status(None, Some("rclone v1.55.0")), 1);
    assert_eq!(rclone_status(None, None), 1);
}

#[test]
fn command_result_takes_stdout_on_success_and_stderr_on_failure() {
    assert_eq!(command_result(true, "out".to_string(), "err".to_string()), Ok("out".to_string()));
    assert_eq!(command_result(false, "out".to_string(), "err".to_string()), Err("err".to_string()));
}

#[test]
fn error_lines_are_collected_and_shown_trimmed() {
    let mut collected = String::new();
    let shown = take_error_line(&mut collected, "  Please go to http://x  ");
    assert_eq!(shown, "Please go to http://x");
    let shown = take_error_line(&mut collected, "done");
    assert_eq!(shown, "done");
    assert_eq!(collected, "  Please go to http://x  \ndone\n");
}

#[test]
fn streamed_failure_falls_back_to_stdout_when_stderr_is_blank() {
    assert_eq!(
        streamed_command_result(true, "ok".to_string(), "noise\n".to_string()),
        Ok("ok".to_string())
    );
    assert_eq!(
        streamed_command_result(false, "{\"error\":\"x\"}".to_string(), " \n\n".to_string()),
        Err("{\"error\":\"x\"}".to_string())
    );
    assert_eq!(
        streamed_command_result(false, "out".to_string(), "bad type\n".to_string()),
        Err("bad type\n".to_string())
    );
}

#[test]
fn locate_prefers_the_system_rclone_then_the_local_copy() {
    let local = PathBuf::from("/data/rclone-ui/rclone");
    let found = locate_rclone(Some(PathBuf::from("/usr/bin/rclone")), local.clone(), true).unwrap();
    assert_eq!(found.get_rclone_path(), &PathBuf::from("/usr/bin/rclone"));
    assert!(found.is_using_system_rclone());

    let found = locate_rclone(None, local.clone(), true).unwrap();
    assert_eq!(found.get_rclone_path(), &local);
    assert!(!found.is_using_system_rclone());

    assert!(locate_rclone(None, local, false).is_none());
}

fn archive(entries: &[(&str, &[u8])]) -> Vec<u8> {
    let mut w = zip::ZipWriter::new(std::io::Cursor::new(Vec::new()));
    for (name, data) in entries {
        w.start_file(*name, zip::write::FileOptions::default()).unwrap();
        w.write_all(data).unwrap();
    }
    w.finish().unwrap().into_inner()
}

#[test]
fn the_executable_is_taken_from_the_archive() {
    let bytes = archive(&[
        ("rclone-v1.66.0-linux-amd64/README.txt", b"read me"),
        ("rclone-v1.66.0-linux-amd64/rclone", b"\x7fELF binary"),
        ("rclone-v1.66.0-linux-amd64/rclone.1", b"manual"),
    ]);
    assert_eq!(rclone_binary_from_archive(&bytes).unwrap(), b"\x7fELF binary".to_vec());

    let windows = archive(&[("x/git-log.txt", b"a"), ("x/rclone.exe", b"MZ"), ("y/rclone", b"second")]);
    assert_eq!(rclone_binary_from_archive(&windows).unwrap(), b"MZ".to_vec());
}

#[test]
fn an_archive_without_the_executable_or_unreadable_fails() {
    let bytes = archive(&[("docs/readme.md", b"hello")]);
    assert_eq!(
        rclone_binary_from_archive(&bytes).unwrap_err(),
        "Не удалось найти исполняемый файл rclone в архиве"
    );
    assert!(rclone_binary_from_archive(b"not a zip file").is_err());
    assert!(rclone_binary_from_archive(&[]).is_err());
}

#[test]
fn release_tag_strips_the_v() {
    let release = Json::Object {
        entries: vec![
            ("name".to_string(), Json::Str("Rclone v1.66.0".to_string())),
            ("tag_name".to_string(), Json::Str("v1.66.0".to_string())),
        ],
        text: String::new(),
    };
    assert_eq!(release_tag(&release).unwrap(), "1.66.0");
    let no_tag = Json::Object {
        entries: vec![("tag_name".to_string(), Json::Null)],
        text: String::new(),
    };
    assert_eq!(release_tag(&no_tag).unwrap_err(), "Не удалось получить версию");
    assert_eq!(release_tag(&Json::Null).unwrap_err(), "Не удалось получить версию");
}

#[test]
fn setters_in_any_order_read_back_the_last_value() {
    let mut app = RcloneApp::new_with_path(PathBuf::from("/a"), true);
    app.set_using_system_rclone(false);
    app.set_rclone_path(PathBuf::from("/b"));
    app.set_using_system_rclone(true);
    app.set_rclone_path(PathBuf::from("/c"));
    assert_eq!(app.get_rclone_path(), &PathBuf::from("/c"));
    assert!(app.is_using_system_rclone());
}
