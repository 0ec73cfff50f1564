use agent_sdk_rs::sandbox::{normalize_absolute_path, SandboxContext};
use agent_sdk_rs::todos::{normalize_statuses, render_todos, todo_summary, TodoItem};

fn item(content: &str, status: &str) -> TodoItem {
    TodoItem { content: content.to_string(), status: status.to_string(), active_form: None }
}

#[test]
fn path_resolution_blocks_escape() {
    let ctx = SandboxContext::new("/tmp/agent_sdk_rs_tools_1".to_string(), "1".to_string());
    let result = ctx.resolve_path("../../etc/passwd");
    assert!(result.is_err());
    assert_eq!(result.unwrap_err(), "Path escapes sandbox: ../../etc/passwd -> /etc/passwd");
}

#[test]
fn relative_and_absolute_paths_resolve_inside_root() {
    let ctx = SandboxContext::new("/srv/box".to_string(), "abc".to_string());
    assert_eq!(ctx.resolve_path("src/./main.rs").unwrap(), "/srv/box/src/main.rs");
    assert_eq!(ctx.resolve_path("a/../b.txt").unwrap(), "/srv/box/b.txt");
    assert_eq!(ctx.resolve_path("/srv/box/x").unwrap(), "/srv/box/x");
    assert_eq!(ctx.resolve_path("").unwrap(), "/srv/box");
    assert!(ctx.resolve_path("/srv/boxer/x").is_err());
    assert!(ctx.resolve_path("/etc").is_err());
    assert_eq!(ctx.root_dir(), "/srv/box");
    assert_eq!(ctx.working_dir(), "/srv/box");
    assert_eq!(ctx.session_id(), "abc");
}

#[test]
fn normalization_is_lexical() {
    assert_eq!(normalize_absolute_path("/a//b/./c/../d"), "/a/b/d");
    assert_eq!(normalize_absolute_path("/../.."), "/");
    assert_eq!(normalize_absolute_path("/"), "/");
}

#[test]
fn todo_statuses_counts_and_rendering() {
    let mut todos = vec![item("Ship SDK", "in_progress"), item("Add docs", "pending"), item("Odd", "later")];
    normalize_statuses(&mut todos);
    assert_eq!(todos[2].status, "pending");
    assert_eq!(todos[0].status, "in_progress");
    assert_eq!(todo_summary(&todos), "Updated todos: 2 pending, 1 in progress, 0 completed");
    assert_eq!(render_todos(&todos), "1. [>] Ship SDK\n2. [ ] Add docs\n3. [ ] Odd");
    let done = vec![item("x", "completed")];
    assert_eq!(render_todos(&done), "1. [x] x");
    assert_eq!(render_todos(&vec![]), "Todo list is empty");
}
