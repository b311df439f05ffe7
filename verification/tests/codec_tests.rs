use mkt::codec::{deserialize_tasks, serialize_tasks};
use mkt::config::{Status, Task};

fn task(name: &str, status: Status) -> Task {
    Task {
        name: name.to_string(),
        status,
    }
}

#[test]
fn test_parse_task() {}

#[test]
fn test_serialize_exact_text() {
    let tasks = vec![task("A", Status::Todo)];
    let text = serialize_tasks(&tasks);
    assert_eq!(text, "[{\"name\":\"A\",\"status\":\"Todo\"}]");
}

#[test]
fn test_serialize_empty_store() {
    let tasks: Vec<Task> = Vec::new();
    assert_eq!(serialize_tasks(&tasks), "[]");
}

#[test]
fn test_round_trip_preserves_order_and_content() {
    let tasks = vec![
        task("Do dishes", Status::Todo),
        task("Buy milk", Status::InProgress),
        task("Call home", Status::Done),
    ];
    let text = serialize_tasks(&tasks);
    let loaded = deserialize_tasks(&text).unwrap();
    assert_eq!(loaded.len(), 3);
    for (a, b) in tasks.iter().zip(loaded.iter()) {
        assert_eq!(a.name, b.name);
        assert_eq!(a.status, b.status);
    }
}

#[test]
fn test_round_trip_escaped_name() {
    let tasks = vec![task("say \"hi\" \\ wave", Status::Todo)];
    let text = serialize_tasks(&tasks);
    let loaded = deserialize_tasks(&text).unwrap();
    assert_eq!(loaded.len(), 1);
    assert_eq!(loaded[0].name, "say \"hi\" \\ wave");
}

#[test]
fn test_load_empty_text_is_empty_store() {
    assert!(deserialize_tasks("").unwrap().is_empty());
}

#[test]
fn test_load_unparseable_text_is_empty_store() {
    assert!(deserialize_tasks("not a task list").unwrap().is_empty());
    assert!(deserialize_tasks("[{\"name\":\"A\"").unwrap().is_empty());
}

#[test]
fn test_load_accepts_whitespace_between_tokens() {
    let text = "[\n    {\n        \"name\": \"A\",\n        \"status\": \"Done\"\n    }\n]\n";
    let loaded = deserialize_tasks(text).unwrap();
    assert_eq!(loaded.len(), 1);
    assert_eq!(loaded[0].name, "A");
    assert_eq!(loaded[0].status, Status::Done);
}

#[test]
fn test_load_rejects_unknown_status_label() {
    let text = "[{\"name\":\"A\",\"status\":\"Paused\"}]";
    let err = deserialize_tasks(text).unwrap_err();
    assert_eq!(err.status_text, "Paused");
}

#[test]
fn test_load_reports_first_bad_status() {
    let text = "[{\"name\":\"A\",\"status\":\"Nope\"},{\"name\":\"B\",\"status\":\"Wrong\"}]";
    let err = deserialize_tasks(text).unwrap_err();
    assert_eq!(err.status_text, "Nope");
}

#[test]
fn test_status_label_strings() {
    assert_eq!(Status::Todo.label_string(), "Todo");
    assert_eq!(Status::InProgress.label_string(), "InProgress");
    assert_eq!(Status::Done.label_string(), "Done");
}
