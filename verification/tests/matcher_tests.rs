use mkt::config::{Status, Task};
use mkt::distance::levenshtein_distance;
use mkt::resolver::{match_or_suggest_task, Resolution};

fn task(name: &str) -> Task {
    Task {
        name: name.to_string(),
        status: Status::Todo,
    }
}

#[test]
fn test_distance_empty_to_abc() {
    assert_eq!(levenshtein_distance("".to_string(), "abc".to_string()), 3);
}

#[test]
fn test_distance_kitten_sitting() {
    assert_eq!(
        levenshtein_distance("kitten".to_string(), "sitting".to_string()),
        3
    );
}

#[test]
fn test_distance_same_string_is_zero() {
    assert_eq!(levenshtein_distance("".to_string(), "".to_string()), 0);
    assert_eq!(
        levenshtein_distance("Do dishes".to_string(), "Do dishes".to_string()),
        0
    );
}

#[test]
fn test_distance_symmetric_pairs() {
    let a = "Do dishes".to_string();
    let b = "Do dishs".to_string();
    assert_eq!(
        levenshtein_distance(a.clone(), b.clone()),
        levenshtein_distance(b, a)
    );
    assert_eq!(
        levenshtein_distance("abc".to_string(), "".to_string()),
        levenshtein_distance("".to_string(), "abc".to_string())
    );
}

#[test]
fn test_distance_one_edit() {
    assert_eq!(
        levenshtein_distance("Do dishes".to_string(), "Do dishs".to_string()),
        1
    );
}

#[test]
fn test_resolver_exact_match() {
    let tasks = vec![task("Do dishes"), task("Buy milk")];
    let r = match_or_suggest_task(&tasks, &task("Do dishes"), 3);
    assert_eq!(r, Resolution::Found(0));
}

#[test]
fn test_resolver_suggests_near_miss() {
    let tasks = vec![task("Do dishes"), task("Buy milk")];
    let r = match_or_suggest_task(&tasks, &task("Do dishs"), 3);
    assert_eq!(r, Resolution::Suggested(0));
}

#[test]
fn test_resolver_nothing_close() {
    let tasks = vec![task("Do dishes"), task("Buy milk")];
    let r = match_or_suggest_task(&tasks, &task("Zzzzzzz"), 3);
    assert_eq!(r, Resolution::NotFound);
}

#[test]
fn test_resolver_empty_store() {
    let tasks: Vec<Task> = Vec::new();
    let r = match_or_suggest_task(&tasks, &task("anything"), 3);
    assert_eq!(r, Resolution::NotFound);
}

#[test]
fn test_resolver_tie_keeps_first() {
    let tasks = vec![task("aaab"), task("aaac")];
    let r = match_or_suggest_task(&tasks, &task("aaad"), 3);
    assert_eq!(r, Resolution::Suggested(0));
}
