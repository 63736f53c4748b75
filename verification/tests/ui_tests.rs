use rclone_ui::operations::{FileInfo, Remote};
use rclone_ui::rclone_install::RcloneApp;
use rclone_ui::ui::{
    delete_step_report, job_done_report, parent_path, remote_root, transfer_destination,
    transfer_failure_text, transfer_step_report, AppState, OperationResult, Progress, RcloneUI,
    TransferTab,
};
use std::path::PathBuf;
use std::sync::Arc;

fn ui() -> RcloneUI {
    RcloneUI::new("/home/user".to_string())
}

fn entry(name: &str, is_dir: bool) -> FileInfo {
    FileInfo { name: name.to_string(), path: name.to_string(), size: 0, is_dir, modified: None }
}

fn ready(u: &mut RcloneUI) {
    let app = Arc::new(RcloneApp::new_with_path(PathBuf::from("rclone"), false));
    let started = u.on_rclone_ready(Ok(app));
    assert!(started.is_some());
    u.handle_operation_result(OperationResult::RemoteList(vec![]));
}

#[test]
fn initial_state() {
    let u = ui();
    assert!(u.state == AppState::Initializing);
    assert_eq!(u.current_path, "");
    assert_eq!(u.local_browser_path, "/home/user");
    assert_eq!(u.next_op_id, 1);
    assert_eq!(u.active_transfer_tab, TransferTab::Remote);
}

#[test]
fn navigation_back_and_forward_restore_paths() {
    let mut u = ui();
    u.navigate_to("gdrive:".to_string());
    assert!(u.history_back.is_empty());
    assert!(u.apply_pending_load().is_none());
    assert_eq!(u.current_path, "gdrive:");
    u.navigate_to("gdrive:docs".to_string());
    u.apply_pending_load();
    assert_eq!(u.history_back, vec!["gdrive:".to_string()]);
    u.go_back();
    u.apply_pending_load();
    assert_eq!(u.current_path, "gdrive:");
    assert_eq!(u.history_forward, vec!["gdrive:docs".to_string()]);
    u.go_forward();
    u.apply_pending_load();
    assert_eq!(u.current_path, "gdrive:docs");
    assert_eq!(u.history_back, vec!["gdrive:".to_string()]);
    assert!(u.history_forward.is_empty());
    u.navigate_to("gdrive:docs".to_string());
    assert!(u.pending_load_path.is_none());
}

#[test]
fn opening_a_path_with_rclone_starts_a_listing() {
    let mut u = ui();
    ready(&mut u);
    assert!(u.state == AppState::Ready);
    u.navigate_to("r:".to_string());
    let job = u.apply_pending_load();
    assert_eq!(job.map(|(_, p)| p), Some("r:".to_string()));
    assert_eq!(u.active_task_count, 1);
    u.handle_operation_result(OperationResult::FileList(vec![entry("a", false)]));
    assert_eq!(u.active_task_count, 0);
    assert_eq!(u.current_files.len(), 1);
}

#[test]
fn failed_start_reports_error() {
    let mut u = ui();
    assert!(u.on_rclone_ready(Err("no rclone".to_string())).is_none());
    assert!(u.state == AppState::Error("no rclone".to_string()));
    assert_eq!(u.error_message, Some("no rclone".to_string()));
}

#[test]
fn going_up_uses_parent_path() {
    assert_eq!(parent_path("r:a/b"), Some("r:a".to_string()));
    assert_eq!(parent_path("r:a"), Some("r:".to_string()));
    assert_eq!(parent_path("plain"), None);
    let mut u = ui();
    u.navigate_to("r:a/b".to_string());
    u.apply_pending_load();
    u.go_up();
    assert_eq!(u.pending_load_path, Some("r:a".to_string()));
}

#[test]
fn selection_and_its_directories() {
    let mut u = ui();
    u.navigate_to("r:".to_string());
    u.apply_pending_load();
    u.current_files = vec![entry("dir", true), entry("f.txt", false)];
    assert_eq!(u.entry_path("dir"), "r:dir");
    u.toggle_selection(u.entry_path("dir"));
    u.toggle_selection(u.entry_path("f.txt"));
    u.toggle_selection("r:other".to_string());
    assert_eq!(
        u.get_selected_info(),
        vec![("r:dir".to_string(), true), ("r:f.txt".to_string(), false), ("r:other".to_string(), false)]
    );
    u.toggle_selection("r:dir".to_string());
    assert_eq!(u.selected_paths, vec!["r:f.txt".to_string(), "r:other".to_string()]);
    u.current_path = "r:sub".to_string();
    assert_eq!(u.entry_path("x"), "r:sub/x");
}

#[test]
fn destination_rules() {
    assert!(!ui().is_path_valid_with(true));
    let mut u = ui();
    u.transfer_dest = "backup:".to_string();
    assert!(u.is_path_valid());
    u.active_transfer_tab = TransferTab::Local;
    assert!(!u.is_path_valid_with(false));
    assert!(u.is_path_valid_with(true));
    u.transfer_dest = "/tmp/out".to_string();
    assert!(u.is_path_valid());
    assert_eq!(transfer_destination("r:photos/2024", true, "b:archive"), "b:archive/2024");
    assert_eq!(transfer_destination("r:photos/2024", true, "b:archive/"), "b:archive2024");
    assert_eq!(transfer_destination("r:photos", true, "b:"), "b:photos");
    assert_eq!(transfer_destination("r:a\\b", true, "/local//"), "/localb");
    assert_eq!(transfer_destination("r:photos/x.jpg", false, "b:archive"), "b:archive");
    assert_eq!(transfer_failure_text("x.jpg", "denied"), "Ошибка на x.jpg: denied");
}

#[test]
fn transfer_job_and_operation_lifecycle() {
    let mut u = ui();
    assert!(u.perform_transfer(false).is_none());
    ready(&mut u);
    u.transfer_source_info = vec![("r:photos".to_string(), true), ("r:a.txt".to_string(), false)];
    u.transfer_dest = "b:".to_string();
    let job = u.perform_transfer(true).expect("job");
    assert_eq!(job.op_id, 1);
    assert!(job.is_move);
    assert_eq!(job.items[0].dest, "b:photos");
    assert_eq!(job.items[0].name, "photos");
    assert_eq!(job.items[1].dest, "b:");
    assert_eq!(u.active_operations[0].description, "Перенос 2 эл.");
    assert_eq!(u.active_operations[0].status, "В очереди");
    assert_eq!(u.active_task_count, 1);
    assert!(u.perform_transfer(false).is_none());
    u.handle_operation_result(OperationResult::ProgressUpdate(1, Progress { done: 1, total: 2 }, "1/2".to_string()));
    assert_eq!(u.active_operations[0].status, "1/2");
    assert_eq!(u.active_operations[0].progress.done, 1);
    u.handle_operation_result(OperationResult::Success(1, "Ок".to_string()));
    assert!(u.active_operations.is_empty());
    assert_eq!(u.active_task_count, 0);
    assert_eq!(u.pending_load_path, Some(u.current_path.clone()));
}

#[test]
fn delete_job_and_failure() {
    let mut u = ui();
    ready(&mut u);
    u.navigate_to("r:".to_string());
    u.apply_pending_load();
    u.handle_operation_result(OperationResult::FileList(vec![entry("old", true)]));
    u.toggle_selection("r:old".to_string());
    let job = u.delete_selected().expect("job");
    assert_eq!(job.items, vec![("r:old".to_string(), true)]);
    assert_eq!(u.active_operations[0].description, "Удаление 1 эл.");
    u.handle_operation_result(OperationResult::Failure(job.op_id, "denied".to_string()));
    assert_eq!(u.error_message, Some("denied".to_string()));
    assert!(u.active_operations.is_empty());
    let before = u.next_op_id;
    assert_eq!(u.add_operation("x".to_string()), before);
    assert_eq!(u.next_op_id, before + 1);
}

#[test]
fn remote_list_and_refresh() {
    let mut u = ui();
    u.handle_operation_result(OperationResult::RemoteList(vec![Remote {
        name: "g".to_string(),
        remote_type: "drive".to_string(),
        config: vec![],
    }]));
    assert_eq!(u.remote_list.len(), 1);
    assert_eq!(u.active_task_count, 0);
    u.current_path = "g:".to_string();
    u.request_refresh();
    assert_eq!(u.pending_load_path, Some("g:".to_string()));
    u.begin_transfer(true);
    assert!(u.is_move_mode && u.show_transfer_dialog);
}

#[test]
fn transfer_step_reports_progress_or_failure() {
    match transfer_step_report(7, 2, 3, "photos", Ok(String::new())) {
        OperationResult::ProgressUpdate(id, p, s) => {
            assert_eq!(id, 7);
            assert_eq!((p.done, p.total), (2, 3));
            assert_eq!(s, "2/3");
        }
        _ => panic!("expected progress"),
    }
    match transfer_step_report(7, 1, 3, "photos", Err("denied".to_string())) {
        OperationResult::Failure(id, m) => {
            assert_eq!(id, 7);
            assert_eq!(m, "Ошибка на photos: denied");
        }
        _ => panic!("expected failure"),
    }
}

#[test]
fn delete_step_reports_only_failures() {
    assert!(delete_step_report(4, Ok(String::new())).is_none());
    match delete_step_report(4, Err("gone".to_string())) {
        Some(OperationResult::Failure(id, m)) => {
            assert_eq!(id, 4);
            assert_eq!(m, "gone");
        }
        _ => panic!("expected failure"),
    }
    match job_done_report(4) {
        OperationResult::Success(id, m) => {
            assert_eq!(id, 4);
            assert_eq!(m, "Ок");
        }
        _ => panic!("expected success"),
    }
}

#[test]
fn toggling_twice_restores_the_selection() {
    let mut u = ui();
    u.toggle_selection("r:a".to_string());
    u.toggle_selection("r:b".to_string());
    let before = u.selected_paths.clone();
    u.toggle_selection("r:c".to_string());
    assert_eq!(u.selected_paths, vec!["r:a", "r:b", "r:c"]);
    u.toggle_selection("r:c".to_string());
    assert_eq!(u.selected_paths, before);
}

#[test]
fn opening_a_remote_goes_to_its_top() {
    let mut u = ui();
    u.open_remote("gdrive");
    assert_eq!(u.pending_load_path.as_deref(), Some("gdrive:"));
}

#[test]
fn a_batch_of_results_lowers_the_task_count_down_to_zero() {
    let mut u = ui();
    u.active_task_count = 2;
    let results = vec![
        OperationResult::FileList(vec![]),
        OperationResult::ProgressUpdate(9, Progress { done: 1, total: 2 }, "1/2".to_string()),
        OperationResult::Failure(9, "x".to_string()),
        OperationResult::RemoteList(vec![]),
    ];
    u.handle_operation_results(results);
    assert_eq!(u.active_task_count, 0);
    assert_eq!(u.error_message.as_deref(), Some("x"));

    let mut v = ui();
    v.active_task_count = 5;
    v.handle_operation_results(vec![
        OperationResult::FileList(vec![]),
        OperationResult::ProgressUpdate(1, Progress { done: 0, total: 1 }, String::new()),
        OperationResult::RemoteList(vec![]),
    ]);
    assert_eq!(v.active_task_count, 3);
    v.handle_operation_results(vec![]);
    assert_eq!(v.active_task_count, 3);
}

#[test]
fn remote_root_adds_the_colon() {
    assert_eq!(remote_root("gdrive"), "gdrive:");
    assert_eq!(remote_root(""), ":");
}
