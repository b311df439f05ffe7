use mkt::codec::{deserialize_tasks, serialize_tasks};
use mkt::config::{Mode, Status, Task};
use mkt::store::{
    apply_command, create_task, delete_task, list_tasks, read_task, CreateOutcome, DeleteOutcome,
    Outcome, ReadOutcome,
};

fn task(name: &str, status: Status) -> Task {
    Task {
        name: name.to_string(),
        status,
    }
}

#[test]
fn test_create_appends_with_todo_status() {
    let store = vec![task("A", Status::Done)];
    let (store, outcome) = create_task(store, task("B", Status::Done));
    assert_eq!(outcome, CreateOutcome::Created);
    assert_eq!(store.len(), 2);
    assert_eq!(store[1].name, "B");
    assert_eq!(store[1].status, Status::Todo);
}

#[test]
fn test_create_duplicate_leaves_store_unchanged() {
    let store = vec![task("A", Status::Todo)];
    let before = serialize_tasks(&store);
    let (store, outcome) = create_task(store, task("A", Status::Todo));
    assert_eq!(outcome, CreateOutcome::AlreadyExists);
    assert_eq!(serialize_tasks(&store), before);
}

#[test]
fn test_read_finds_exact_task() {
    let store = vec![task("A", Status::Done), task("B", Status::Todo)];
    match read_task(&store, &task("A", Status::Todo)) {
        ReadOutcome::Found(t) => {
            assert_eq!(t.name, "A");
            assert_eq!(t.status, Status::Done);
        }
        other => panic!("expected the stored task, got {:?}", other),
    }
}

#[test]
fn test_read_offers_suggestion() {
    let store = vec![task("Do dishes", Status::Todo)];
    match read_task(&store, &task("Do dishs", Status::Todo)) {
        ReadOutcome::NotFound(Some(s)) => assert_eq!(s, "Do dishes"),
        other => panic!("expected a suggestion, got {:?}", other),
    }
}

#[test]
fn test_read_far_query_has_no_suggestion() {
    let store = vec![task("Do dishes", Status::Todo)];
    match read_task(&store, &task("Zzzzzzz", Status::Todo)) {
        ReadOutcome::NotFound(None) => {}
        other => panic!("expected no suggestion, got {:?}", other),
    }
}

#[test]
fn test_delete_sole_task_empties_store_on_reload() {
    let store = vec![task("A", Status::Todo)];
    let (store, outcome) = delete_task(store, &task("A", Status::Todo));
    assert!(matches!(outcome, DeleteOutcome::Deleted));
    assert!(store.is_empty());
    let reloaded = deserialize_tasks(&serialize_tasks(&store)).unwrap();
    assert!(reloaded.is_empty());
}

#[test]
fn test_delete_keeps_remaining_order() {
    let store = vec![
        task("A", Status::Todo),
        task("B", Status::Done),
        task("C", Status::Todo),
    ];
    let (store, outcome) = delete_task(store, &task("B", Status::Todo));
    assert!(matches!(outcome, DeleteOutcome::Deleted));
    assert_eq!(store.len(), 2);
    assert_eq!(store[0].name, "A");
    assert_eq!(store[1].name, "C");
}

#[test]
fn test_delete_near_miss_changes_nothing() {
    let store = vec![task("Do dishes", Status::Todo)];
    let before = serialize_tasks(&store);
    let (store, outcome) = delete_task(store, &task("Do dishs", Status::Todo));
    match outcome {
        DeleteOutcome::NotFound(Some(s)) => assert_eq!(s, "Do dishes"),
        other => panic!("expected a suggestion, got {:?}", other),
    }
    assert_eq!(serialize_tasks(&store), before);
}

#[test]
fn test_list_groups_by_status_in_order() {
    let store = vec![
        task("A", Status::Done),
        task("B", Status::Todo),
        task("C", Status::InProgress),
        task("D", Status::Todo),
    ];
    let (todo, in_progress, done) = list_tasks(&store);
    assert_eq!(todo.len() + in_progress.len() + done.len(), store.len());
    assert_eq!(todo[0].name, "B");
    assert_eq!(todo[1].name, "D");
    assert_eq!(in_progress[0].name, "C");
    assert_eq!(done[0].name, "A");
}

#[test]
fn test_update_is_unimplemented() {
    let store = vec![task("A", Status::Todo)];
    let (store, outcome) = apply_command(store, &Mode::Update, None);
    assert!(matches!(outcome, Outcome::Unimplemented));
    assert_eq!(store.len(), 1);
}

#[test]
fn test_apply_command_create_and_delete() {
    let store: Vec<Task> = Vec::new();
    let (store, outcome) = apply_command(store, &Mode::Create, Some(task("A", Status::Todo)));
    assert!(matches!(outcome, Outcome::Created));
    let (store, outcome) = apply_command(store, &Mode::Delete, Some(task("A", Status::Todo)));
    assert!(matches!(outcome, Outcome::Deleted));
    assert!(store.is_empty());
}
