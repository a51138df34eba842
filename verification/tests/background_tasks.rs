use astrcode::background::{BackgroundTaskManager, BackgroundTasks};

fn runtime() -> tokio::runtime::Runtime {
    tokio::runtime::Builder::new_current_thread().build().unwrap()
}

fn fake_handle(rt: &tokio::runtime::Runtime) -> tokio::task::JoinHandle<()> {
    rt.spawn(async {})
}

#[test]
fn cancel_removes_task_and_returns_true() {
    let rt = runtime();
    let mut mgr = BackgroundTasks::new();
    mgr.register("task-1".into(), "session-1".into(), fake_handle(&rt));
    assert!(mgr.cancel("task-1"));
    assert!(mgr.list_active("session-1").is_empty());
}

#[test]
fn cancel_returns_false_for_unknown_task() {
    let mut mgr = BackgroundTasks::new();
    assert!(!mgr.cancel("nonexistent"));
}

#[test]
fn cleanup_session_removes_all_tasks_for_session() {
    let rt = runtime();
    let mut mgr = BackgroundTasks::new();
    for i in 0..3 {
        mgr.register(format!("task-a-{i}"), "session-a".into(), fake_handle(&rt));
    }
    mgr.register("task-b-0".into(), "session-b".into(), fake_handle(&rt));
    mgr.cleanup_session("session-a");
    assert!(mgr.list_active("session-a").is_empty());
    assert_eq!(mgr.list_active("session-b").len(), 1);
}

#[test]
fn list_active_returns_only_matching_session() {
    let rt = runtime();
    let mut mgr = BackgroundTasks::new();
    mgr.register("task-1".into(), "session-a".into(), fake_handle(&rt));
    mgr.register("task-2".into(), "session-b".into(), fake_handle(&rt));
    let active_a = mgr.list_active("session-a");
    assert_eq!(active_a.len(), 1);
    assert_eq!(active_a[0], "task-1");
}

#[test]
fn reader_cancel_rejects_wrong_session() {
    let rt = runtime();
    let mut mgr = BackgroundTasks::new();
    mgr.register("task-1".into(), "session-a".into(), fake_handle(&rt));
    assert!(!mgr.cancel_in_session("session-b", "task-1"));
    assert_eq!(mgr.list_active("session-a").len(), 1);
    assert!(mgr.cancel_in_session("session-a", "task-1"));
    assert!(mgr.list_active("session-a").is_empty());
}

#[test]
fn manager_lists_summaries_and_replaces_same_id() {
    let rt = runtime();
    let mut mgr = BackgroundTaskManager::new();
    let id = mgr.register("t1".into(), "s".into(), "c1".into(), "shell".into(), fake_handle(&rt));
    assert_eq!(id, "t1");
    mgr.register("t1".into(), "s".into(), "c2".into(), "grep".into(), fake_handle(&rt));
    let list = mgr.list_for_session("s");
    assert_eq!(list.len(), 1);
    assert_eq!(list[0].call_id, "c2");
    assert_eq!(list[0].tool_name, "grep");
    assert!(mgr.contains("t1"));
    assert!(mgr.remove("t1"));
    assert!(!mgr.remove("t1"));
    assert!(!mgr.contains("t1"));
}
