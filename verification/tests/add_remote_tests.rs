use rclone_ui::operations::json::Json;
use rclone_ui::operations::remotes::{config_create_args, config_step, ConfigQuestion, ConfigStep};
use rclone_ui::operations::Remote;
use rclone_ui::rclone_install::{streamed_command_result, take_error_line, RcloneApp};
use rclone_ui::ui::{
    add_remote_next, feed_report, remote_added_report, AddRemoteAction, AddRemoteStep,
    OperationResult, RcloneUI,
};
use serde_json::Value;
use std::path::PathBuf;
use std::sync::Arc;

fn to_json(v: &Value) -> Json {
    match v {
        Value::Null => Json::Null,
        Value::Bool(b) => Json::Bool(*b),
        Value::Number(n) => Json::Number { text: n.to_string(), unsigned: n.as_u64() },
        Value::String(s) => Json::Str(s.clone()),
        Value::Array(items) => Json::Array {
            items: items.iter().map(to_json).collect(),
            text: v.to_string(),
        },
        Value::Object(map) => Json::Object {
            entries: map.iter().map(|(k, x)| (k.clone(), to_json(x))).collect(),
            text: v.to_string(),
        },
    }
}

fn reply(text: &str) -> Json {
    let v: Value = serde_json::from_str(text).unwrap();
    to_json(&v)
}

fn question(name: &str) -> ConfigQuestion {
    ConfigQuestion {
        name: name.to_string(),
        help: "help".to_string(),
        default: "d".to_string(),
        is_password: false,
        examples: vec![],
    }
}

fn ready_ui() -> RcloneUI {
    let mut u = RcloneUI::new("/home".to_string());
    let app = Arc::new(RcloneApp::new_with_path(PathBuf::from("rclone"), false));
    assert!(u.on_rclone_ready(Ok(app)).is_some());
    u.handle_operation_result(OperationResult::RemoteList(vec![]));
    u
}

#[test]
fn test_config_create_step_returns_question() {
    let text = r#"{
    "State": "some-state",
    "Option": {
        "Name": "config_is_local",
        "Help": "Use web browser to automatically authenticate rclone with remote?",
        "Default": true,
        "DefaultStr": "true",
        "IsPassword": false,
        "Examples": [
            {"Value": "true", "Help": "Yes"},
            {"Value": "false", "Help": "No"}
        ]
    },
    "Error": "",
    "Result": ""
}"#;
    let args = config_create_args("mydrive", "drive", None, None);
    assert_eq!(args, vec!["config", "create", "mydrive", "drive", "--non-interactive"]);
    match config_step(&reply(text)).unwrap() {
        ConfigStep::Question { state, question } => {
            assert_eq!(state, "some-state");
            assert_eq!(question.name, "config_is_local");
            assert!(question.help.contains("web browser"));
            assert_eq!(question.default, "true");
            assert!(!question.is_password);
            assert_eq!(question.examples.len(), 2);
            assert_eq!(question.examples[0], ("true".to_string(), "Yes".to_string()));
        }
        _ => panic!("Ожидался вопрос, получено другое"),
    }
}

#[test]
fn test_config_create_step_done() {
    let text = r#"{
    "State": "",
    "Option": null,
    "Error": "",
    "Result": ""
}"#;
    assert!(matches!(config_step(&reply(text)).unwrap(), ConfigStep::Done));
}

#[test]
fn test_config_create_step_passes_continue_args() {
    let args = config_create_args("mydrive", "drive", Some("st"), Some("answer"));
    assert_eq!(args[0], "config");
    assert!(args.iter().any(|a| a == "--continue"));
    assert!(args.iter().any(|a| a == "--state"));
    assert!(args.iter().any(|a| a == "--result"));
    assert_eq!(
        args,
        vec![
            "config",
            "create",
            "mydrive",
            "drive",
            "--non-interactive",
            "--continue",
            "--state",
            "st",
            "--result",
            "answer"
        ]
    );
    let text = r#"{"State": "next", "Option": null, "Error": "", "Result": ""}"#;
    assert!(matches!(config_step(&reply(text)).unwrap(), ConfigStep::Done));
}

#[test]
fn test_config_create_step_error_from_stderr() {
    let mut collected = String::new();
    let shown = take_error_line(&mut collected, "Error: couldn't find backend for type \"bogus\"");
    assert!(shown.contains("couldn't find backend"));
    let result = streamed_command_result(false, String::new(), collected);
    assert!(result.is_err());
    assert!(result.unwrap_err().contains("couldn't find backend"));
}

#[test]
fn test_config_create_step_error_from_json() {
    let text = r#"{"State": "", "Option": null, "Error": "config already exists", "Result": ""}"#;
    let result = config_step(&reply(text));
    assert!(result.is_err());
    assert!(result.unwrap_err().contains("already exists"));
}

#[test]
fn question_fields_default_when_missing() {
    match config_step(&reply(r#"{"State": "s", "Option": {"Name": "token"}}"#)).unwrap() {
        ConfigStep::Question { state, question } => {
            assert_eq!(state, "s");
            assert_eq!(question.name, "token");
            assert_eq!(question.help, "");
            assert_eq!(question.default, "");
            assert!(!question.is_password);
            assert!(question.examples.is_empty());
        }
        _ => panic!("expected a question"),
    }
    assert!(matches!(config_step(&reply(r#"{"State": "s"}"#)).unwrap(), ConfigStep::Done));
}

#[test]
fn local_authorisation_is_answered_at_once() {
    let step = Ok(ConfigStep::Question { state: "st".to_string(), question: question("config_is_local") });
    match add_remote_next(3, step) {
        AddRemoteAction::Continue { state, answer, notice } => {
            assert_eq!(state, "st");
            assert_eq!(answer, "true");
            match notice {
                OperationResult::ProgressUpdate(id, p, m) => {
                    assert_eq!(id, 3);
                    assert_eq!((p.done, p.total), (0, 1));
                    assert_eq!(m, "Открыт браузер для авторизации. Ожидание входа...");
                }
                _ => panic!("expected a notice"),
            }
        }
        _ => panic!("expected to continue"),
    }
}

#[test]
fn other_questions_and_failures_are_reported() {
    let step = Ok(ConfigStep::Question { state: "st".to_string(), question: question("client_id") });
    match add_remote_next(3, step) {
        AddRemoteAction::Report(OperationResult::ConfigQuestion(id, s, q)) => {
            assert_eq!(id, 3);
            assert_eq!(s, "st");
            assert_eq!(q.name, "client_id");
        }
        _ => panic!("expected a question report"),
    }
    assert!(matches!(add_remote_next(3, Ok(ConfigStep::Done)), AddRemoteAction::ListRemotes));
    match add_remote_next(3, Err("boom".to_string())) {
        AddRemoteAction::Report(OperationResult::Failure(id, m)) => {
            assert_eq!(id, 3);
            assert_eq!(m, "boom");
        }
        _ => panic!("expected a failure"),
    }
}

#[test]
fn created_remote_reports() {
    let list = vec![Remote { name: "a".to_string(), remote_type: "drive".to_string(), config: vec![] }];
    match remote_added_report(5, Ok(list)) {
        OperationResult::RemoteAdded(id, l) => {
            assert_eq!(id, 5);
            assert_eq!(l.len(), 1);
        }
        _ => panic!("expected the new list"),
    }
    match remote_added_report(5, Err("x".to_string())) {
        OperationResult::Failure(id, m) => {
            assert_eq!(id, 5);
            assert_eq!(m, "Облако создано, но список обновить не удалось: x");
        }
        _ => panic!("expected a failure"),
    }
    assert!(feed_report(5, "").is_none());
    assert!(matches!(feed_report(5, "go to http://x"), Some(OperationResult::ProgressUpdate(5, _, _))));
}

#[test]
fn add_remote_dialog_flow() {
    let mut u = ready_ui();
    u.new_remote_name = "  ".to_string();
    assert!(u.start_add_remote().is_none());
    assert_eq!(u.active_task_count, 0);

    u.new_remote_name = " mydrive ".to_string();
    let job = u.start_add_remote().unwrap();
    assert_eq!(job.name, "mydrive");
    assert_eq!(job.remote_type, "drive");
    assert!(job.state.is_none() && job.answer.is_none());
    assert_eq!(u.active_task_count, 1);
    assert!(matches!(u.add_remote_step, AddRemoteStep::Busy));
    assert_eq!(u.add_remote_status, "Создание облака...");
    assert_eq!(u.active_operations.last().unwrap().description, "Создание облака mydrive");

    u.handle_operation_result(OperationResult::ProgressUpdate(
        job.op_id,
        rclone_ui::ui::Progress { done: 0, total: 1 },
        "link".to_string(),
    ));
    assert_eq!(u.add_remote_status, "link");

    u.handle_operation_result(OperationResult::ConfigQuestion(job.op_id, "st".to_string(), question("client_id")));
    assert_eq!(u.active_task_count, 0);
    assert!(u.active_operations.is_empty());
    assert_eq!(u.add_remote_state.as_deref(), Some("st"));
    assert_eq!(u.add_remote_answer, "d");
    assert!(matches!(u.add_remote_step, AddRemoteStep::Question(_)));

    u.add_remote_answer = "my-id".to_string();
    let job = u.answer_add_remote().unwrap();
    assert_eq!(job.state.as_deref(), Some("st"));
    assert_eq!(job.answer.as_deref(), Some("my-id"));
    assert_eq!(job.name, " mydrive ");
    assert_eq!(u.add_remote_status, "Отправка ответа...");

    u.show_add_remote_dialog = true;
    u.handle_operation_result(OperationResult::RemoteAdded(job.op_id, vec![]));
    assert!(!u.show_add_remote_dialog);
    assert!(matches!(u.add_remote_step, AddRemoteStep::Form));
    assert!(u.add_remote_state.is_none());
    assert_eq!(u.new_remote_name, "");
    assert_eq!(u.add_remote_answer, "");
    assert!(u.active_operations.is_empty());
}

#[test]
fn failure_while_waiting_returns_to_the_form() {
    let mut u = ready_ui();
    u.new_remote_name = "x".to_string();
    let job = u.start_add_remote().unwrap();
    u.handle_operation_result(OperationResult::Failure(job.op_id, "bad".to_string()));
    assert!(matches!(u.add_remote_step, AddRemoteStep::Form));
    assert_eq!(u.error_message.as_deref(), Some("bad"));
}
