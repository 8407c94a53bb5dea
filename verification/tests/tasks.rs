use weipython::domain::OperationResult;
use weipython::json::{parse_document, strings_to_json};
use weipython::process::{active_processes, command_line, failure, quote_arg, ProcessOutput, ProcessRegistry};
use weipython::task::TaskStore;

#[test]
fn a_started_task_is_found_running() {
    let mut store = TaskStore::new();
    let task = store.start("regression", "starting", 10);
    assert_eq!(task.task_id, "10-1");
    assert_eq!(task.status, "running");
    assert_eq!(task.progress, 5);
    let current = store.snapshot(&task.task_id).unwrap();
    assert_eq!(current.status, "running");
    assert_eq!(current.message, "starting");
    assert!(store.snapshot("10-2").is_none());
}

#[test]
fn a_failed_task_reports_its_error() {
    let mut store = TaskStore::new();
    let task = store.start("regression", "starting", 10);
    store.finish(&task.task_id, Err("expected failure".to_string()), 12);
    let current = store.snapshot(&task.task_id).unwrap();
    assert_eq!(current.status, "failed");
    assert_eq!(current.message, "expected failure");
    assert_eq!(current.output, "expected failure");
    assert_eq!(current.progress, 100);
    assert_eq!(current.finished_at, Some(12));
}

#[test]
fn a_completed_task_keeps_its_output() {
    let mut store = TaskStore::new();
    let task = store.start("package", "working", 1);
    store.append_output(&task.task_id, "line 1\n");
    let ok = OperationResult { ok: true, message: "done".into(), command: "pip".into(), output: "result".into() };
    store.finish(&task.task_id, Ok(ok), 2);
    let current = store.snapshot(&task.task_id).unwrap();
    assert_eq!(current.status, "completed");
    assert_eq!(current.message, "done");
    assert_eq!(current.command, "pip");
    assert_eq!(current.output, "line 1\n");
}

#[test]
fn finishing_one_task_leaves_the_others() {
    let mut store = TaskStore::new();
    let first = store.start("a", "one", 5);
    let second = store.start("b", "two", 5);
    store.append_output(&second.task_id, "partial");
    store.finish(&first.task_id, Err("broken".into()), 9);
    let other = store.snapshot(&second.task_id).unwrap();
    assert_eq!(other.status, "running");
    assert_eq!(other.message, "two");
    assert_eq!(other.output, "partial");
    assert_eq!(other.finished_at, None);
    let done = store.snapshot(&first.task_id).unwrap();
    assert_eq!(done.status, "failed");
    assert_eq!(done.output, "broken");
}

#[test]
fn task_output_is_cut_to_its_newest_part() {
    let mut store = TaskStore::new();
    let task = store.start("t", "m", 1);
    let big = "a".repeat(300_000);
    store.append_output(&task.task_id, &big);
    store.append_output(&task.task_id, &big);
    let current = store.snapshot(&task.task_id).unwrap();
    assert_eq!(current.output.len(), 400_000);
    store.append_output(&task.task_id, "tail");
    let current = store.snapshot(&task.task_id).unwrap();
    assert_eq!(current.output.len(), 400_004);
    assert!(current.output.ends_with("tail"));
}

#[test]
fn cleanup_drops_only_tasks_over_an_hour_old() {
    let mut store = TaskStore::new();
    let old = store.start("t", "m", 1);
    let recent = store.start("t", "m", 1);
    let running = store.start("t", "m", 1);
    store.finish(&old.task_id, Err("x".into()), 100);
    store.finish(&recent.task_id, Err("x".into()), 4000);
    store.cleanup(4000);
    assert!(store.snapshot(&old.task_id).is_none());
    assert!(store.snapshot(&recent.task_id).is_some());
    assert!(store.snapshot(&running.task_id).is_some());
    assert!(store.can_start());
}

#[test]
fn the_process_registry_lists_running_programs() {
    let mut registry = ProcessRegistry::new();
    registry.insert(7, "conda list".into(), 100);
    registry.insert(8, "pip install".into(), 101);
    registry.insert(7, "conda env list".into(), 102);
    let listed = active_processes(&registry);
    assert_eq!(listed.len(), 2);
    assert_eq!(listed[0].pid, 8);
    assert_eq!(listed[1].pid, 7);
    assert_eq!(listed[1].command, "conda env list");
    registry.remove(8);
    let listed = active_processes(&registry);
    assert_eq!(listed.len(), 1);
    assert_eq!(listed[0].pid, 7);
    registry.insert(9, "uv pip list".into(), 103);
    registry.insert(9, "uv pip list".into(), 104);
    let listed = active_processes(&registry);
    assert_eq!(listed.len(), 2);
    assert_ne!(listed[0].pid, listed[1].pid);
}

#[test]
fn the_registry_holds_the_programs_still_running() {
    let mut registry = ProcessRegistry::new();
    let args = vec!["env".to_string(), "my env".to_string()];
    registry.start(11, "conda", &args, 5);
    registry.start(12, "pip", &vec!["list".to_string()], 6);
    let listed = active_processes(&registry);
    assert_eq!(listed.len(), 2);
    assert_eq!(listed[0].command, command_line("conda", &args));
    assert_eq!(listed[0].command, "conda env \"my env\"");
    assert_eq!(listed[0].started_at, 5);
    registry.remove(11);
    registry.remove(12);
    assert!(active_processes(&registry).is_empty());
}

#[test]
fn command_lines_quote_what_needs_it() {
    assert_eq!(quote_arg("plain"), "plain");
    assert_eq!(quote_arg(""), "\"\"");
    assert_eq!(quote_arg("a b"), "\"a b\"");
    assert_eq!(quote_arg("say \"hi\" & go"), "\"say \\\"hi\\\" & go\"");
    assert_eq!(command_line("conda", &vec!["env".to_string(), "my env".to_string()]), "conda env \"my env\"");
    let out = ProcessOutput { ok: false, stdout: "o".into(), stderr: " ".into(), command: "c".into() };
    assert_eq!(failure(&out, "fallback"), "o");
}

#[test]
fn json_texts_are_read_and_written() {
    assert!(parse_document("{\"a\":[1,2]} ").is_ok());
    assert!(parse_document("{\"a\":1} trailing").is_err());
    assert_eq!(strings_to_json(&vec!["a\"b".to_string(), "c\\d".to_string()]), Ok("[\"a\\\"b\",\"c\\\\d\"]".to_string()));
    assert_eq!(strings_to_json(&vec![]), Ok("[]".to_string()));
    assert_eq!(
        strings_to_json(&vec!["\u{1}\n\u{1f}\t\u{8}\u{c}\r".to_string(), "é/\u{7f}".to_string()]),
        Ok("[\"\\u0001\\n\\u001f\\t\\b\\f\\r\",\"é/\u{7f}\"]".to_string())
    );
}
