use tasks_api::errors::AppError;
use tasks_api::models::task::{
    apply_patch, char_is_white_space, new_task, title_is_blank, CreateTask, Pagination, PatchTask,
    Task, TaskFilter,
};
use tasks_api::query::{decimal, list_query};
use tasks_api::state::{backend_kind, BackendKind};
use tasks_api::store::TaskStore;

fn sample() -> Task {
    Task { id: 42, title: "Buy milk".to_string(), completed: false, created_at: 1_000 }
}

#[test]
fn white_space_is_that_of_unicode() {
    for n in 0u32..=0x10FFFF {
        if let Some(c) = char::from_u32(n) {
            assert_eq!(char_is_white_space(c), c.is_whitespace(), "U+{:04X}", n);
        }
    }
}

#[test]
fn blank_titles() {
    assert!(title_is_blank(""));
    assert!(title_is_blank("   "));
    assert!(title_is_blank(" \t\r\n\u{85}\u{2003}"));
    assert!(!title_is_blank("a"));
    assert!(!title_is_blank("  a  "));
    assert!(!title_is_blank("\u{200b}"));
    for title in ["", " ", "x", " x", "\u{a0}\u{1680}", "\u{feff}", "é ", "  \u{3000}.", "\0"] {
        assert_eq!(title_is_blank(title), title.trim().is_empty());
    }
}

#[test]
fn status_codes_and_messages() {
    let not_found = AppError::NotFound("a".to_string());
    let bad_request = AppError::BadRequest("b".to_string());
    let internal = AppError::Internal("c".to_string());
    assert_eq!(not_found.status_code(), 404);
    assert_eq!(bad_request.status_code(), 400);
    assert_eq!(internal.status_code(), 500);
    assert_eq!(not_found.message(), "a");
    assert_eq!(bad_request.message(), "b");
    assert_eq!(internal.message(), "c");
    assert!(matches!(AppError::task_not_found(), AppError::NotFound(m) if m == "Task not found"));
    assert!(matches!(AppError::empty_title(), AppError::BadRequest(m) if m == "Title cannot be empty"));
    assert!(matches!(AppError::duplicate_id(), AppError::Internal(m) if m == "Task id already in use"));
    assert!(matches!(AppError::internal("pool closed".to_string()), AppError::Internal(m) if m == "pool closed"));
}

#[test]
fn error_responses() {
    let r = AppError::NotFound("Task not found".to_string()).into_response_at(17);
    assert_eq!(r.status, 404);
    assert_eq!(r.error, "Task not found");
    assert_eq!(r.timestamp, 17);
    let r = AppError::BadRequest("Title cannot be empty".to_string()).into_response_at(-1);
    assert_eq!((r.status, r.error.as_str(), r.timestamp), (400, "Title cannot be empty", -1));
    let r = AppError::Internal("disk I/O error".to_string()).into_response_at(0);
    assert_eq!((r.status, r.error.as_str(), r.timestamp), (500, "disk I/O error", 0));
}

#[test]
fn error_response_is_stamped_with_the_current_time() {
    let before = chrono::Utc::now().timestamp_micros();
    let r = AppError::Internal("boom".to_string()).into_response();
    let after = chrono::Utc::now().timestamp_micros();
    assert_eq!(r.status, 500);
    assert_eq!(r.error, "boom");
    assert!(before <= r.timestamp && r.timestamp <= after);
    assert!(r.timestamp > 1_600_000_000_000_000);
}

#[test]
fn new_task_is_open_and_keeps_the_title() {
    let t = new_task(CreateTask { title: " Buy milk ".to_string() }, 7, 99).unwrap();
    assert_eq!(t.id, 7);
    assert_eq!(t.title, " Buy milk ");
    assert!(!t.completed);
    assert_eq!(t.created_at, 99);
    let e = new_task(CreateTask { title: "\n".to_string() }, 7, 99).unwrap_err();
    assert!(matches!(e, AppError::BadRequest(m) if m == "Title cannot be empty"));
}

#[test]
fn apply_patch_field_by_field() {
    let t = apply_patch(sample(), PatchTask { title: None, completed: None }).unwrap();
    assert_eq!((t.id, t.title.as_str(), t.completed, t.created_at), (42, "Buy milk", false, 1_000));
    let t = apply_patch(sample(), PatchTask { title: None, completed: Some(true) }).unwrap();
    assert_eq!((t.id, t.title.as_str(), t.completed, t.created_at), (42, "Buy milk", true, 1_000));
    let t = apply_patch(sample(), PatchTask { title: Some("Tea".to_string()), completed: None })
        .unwrap();
    assert_eq!((t.id, t.title.as_str(), t.completed, t.created_at), (42, "Tea", false, 1_000));
    let t = apply_patch(
        sample(),
        PatchTask { title: Some("Tea".to_string()), completed: Some(true) },
    )
    .unwrap();
    assert_eq!((t.id, t.title.as_str(), t.completed, t.created_at), (42, "Tea", true, 1_000));
    let e = apply_patch(sample(), PatchTask { title: Some("".to_string()), completed: Some(true) })
        .unwrap_err();
    assert!(matches!(e, AppError::BadRequest(m) if m == "Title cannot be empty"));
}

#[test]
fn task_clone_keeps_the_fields() {
    let t = sample().clone();
    assert_eq!((t.id, t.title.as_str(), t.completed, t.created_at), (42, "Buy milk", false, 1_000));
}

#[test]
fn store_operations() {
    let mut store = TaskStore::new();
    assert_eq!(store.len(), 0);
    assert!(!store.contains(42));
    assert!(store.get(42).is_none());
    assert!(store.insert(sample()).is_ok());
    assert_eq!(store.len(), 1);
    assert!(store.contains(42));
    assert_eq!(store.get(42).unwrap().title, "Buy milk");
    let t = store.update(42, PatchTask { title: Some("Tea".to_string()), completed: None }).unwrap();
    assert_eq!(t.title, "Tea");
    assert_eq!(store.get(42).unwrap().title, "Tea");
    assert!(matches!(
        store.update(1, PatchTask { title: None, completed: None }),
        Err(AppError::NotFound(_))
    ));
    let all = store.list(&TaskFilter { completed: None }, &Pagination { limit: None, offset: None });
    assert_eq!(all.len(), 1);
    assert!(store.delete(42).is_ok());
    assert!(matches!(store.delete(42), Err(AppError::NotFound(_))));
    assert_eq!(store.len(), 0);
}

#[test]
fn decimal_numerals() {
    assert_eq!(decimal(0), "0");
    assert_eq!(decimal(7), "7");
    assert_eq!(decimal(10), "10");
    assert_eq!(decimal(1234567890), "1234567890");
    assert_eq!(decimal(u64::MAX), "18446744073709551615");
    for n in [1u64, 9, 99, 100, 101, 4096, 999_999, 1 << 40] {
        assert_eq!(decimal(n), n.to_string());
    }
}

#[test]
fn list_statements() {
    let q = |completed: Option<bool>, limit: Option<u64>, offset: Option<u64>| {
        list_query(&TaskFilter { completed }, &Pagination { limit, offset })
    };
    assert_eq!(
        q(None, None, None),
        "SELECT id, title, completed, created_at FROM tasks ORDER BY created_at DESC"
    );
    assert_eq!(
        q(Some(true), None, None),
        "SELECT id, title, completed, created_at FROM tasks WHERE completed = 1 ORDER BY created_at DESC"
    );
    assert_eq!(
        q(Some(false), Some(2), Some(1)),
        "SELECT id, title, completed, created_at FROM tasks WHERE completed = 0 ORDER BY created_at DESC LIMIT 2 OFFSET 1"
    );
    assert_eq!(
        q(Some(true), Some(0), Some(0)),
        "SELECT id, title, completed, created_at FROM tasks WHERE completed = 1 ORDER BY created_at DESC LIMIT 0 OFFSET 0"
    );
    assert_eq!(
        q(None, Some(25), None),
        "SELECT id, title, completed, created_at FROM tasks ORDER BY created_at DESC LIMIT 25"
    );
    assert_eq!(
        q(None, None, Some(300)),
        "SELECT id, title, completed, created_at FROM tasks ORDER BY created_at DESC LIMIT -1 OFFSET 300"
    );
}

#[test]
fn connection_string_selects_the_backend() {
    assert_eq!(backend_kind("memory:"), BackendKind::Memory);
    assert_eq!(backend_kind("sqlite://tasks.db"), BackendKind::Relational);
    assert_eq!(backend_kind(""), BackendKind::Relational);
    assert_eq!(backend_kind("memory"), BackendKind::Relational);
    assert_eq!(backend_kind("Memory:"), BackendKind::Relational);
}
