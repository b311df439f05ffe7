//! Typo-tolerant task lookup: maps a queried name to an exact match,
//! or to the closest stored name within a threshold.

use vstd::prelude::*;
use crate::config::Task;
use crate::distance::{edit_distance, lemma_distance_zero, levenshtein_distance};

verus! {

/// What a lookup found: the index of an exact match, the index of the
/// closest near-miss within the threshold, or nothing close enough.
#[derive(Clone, Copy, PartialEq, Eq, Structural, Debug)]
pub enum Resolution {
    Found(usize),
    Suggested(usize),
    NotFound,
}

/// Edit distance between the name of the task at `j` and the query.
pub open spec fn name_dist(tasks: Seq<Task>, query: Seq<char>, j: int) -> nat {
    edit_distance(tasks[j].name@, query)
}

/// Some stored task bears exactly the queried name.
pub open spec fn has_exact(tasks: Seq<Task>, query: Seq<char>) -> bool {
    exists|j: int| 0 <= j < tasks.len() && tasks[j].name@ == query
}

/// `i` is the first index whose name equals the query.
pub open spec fn is_first_exact(tasks: Seq<Task>, query: Seq<char>, i: int) -> bool {
    &&& 0 <= i < tasks.len()
    &&& tasks[i].name@ == query
    &&& forall|j: int| 0 <= j < i ==> tasks[j].name@ != query
}

/// `i` is the first index at minimum distance from the query, and that
/// distance is within the threshold.
pub open spec fn is_best_suggestion(
    tasks: Seq<Task>,
    query: Seq<char>,
    threshold: nat,
    i: int,
) -> bool {
    &&& 0 <= i < tasks.len()
    &&& name_dist(tasks, query, i) <= threshold
    &&& forall|j: int| 0 <= j < tasks.len() ==> #[trigger] name_dist(tasks, query, j) >= name_dist(
        tasks, query, i)
    &&& forall|j: int| 0 <= j < i ==> #[trigger] name_dist(tasks, query, j) > name_dist(
        tasks, query, i)
}

/// Every stored name is farther from the query than the threshold.
pub open spec fn none_close(tasks: Seq<Task>, query: Seq<char>, threshold: nat) -> bool {
    forall|j: int| 0 <= j < tasks.len() ==> #[trigger] name_dist(tasks, query, j) > threshold
}

/// Scans the store for the task named like `task`. An exact name match
/// wins immediately; otherwise the closest name within `threshold`
/// edits is offered as a suggestion; ties keep the first occurrence.
pub fn match_or_suggest_task(all_tasks: &Vec<Task>, task: &Task, threshold: usize) -> (r:
    Resolution)
    ensures
        (match r {
            Resolution::Found(i) => is_first_exact(all_tasks@, task.name@, i as int),
            Resolution::Suggested(i) => !has_exact(all_tasks@, task.name@)
                && is_best_suggestion(all_tasks@, task.name@, threshold as nat, i as int),
            Resolution::NotFound => none_close(all_tasks@, task.name@, threshold as nat),
        }),
{
    let n = all_tasks.len();
    let mut i: usize = 0;
    let mut best: usize = 0;
    let mut best_dist: usize = 0;
    while i < n
        invariant
            i <= n,
            n == all_tasks@.len(),
            forall|j: int| 0 <= j < i ==> all_tasks@[j].name@ != task.name@,
            i > 0 ==> best < i && best_dist == name_dist(all_tasks@, task.name@, best as int),
            i > 0 ==> forall|j: int| 0 <= j < i ==> #[trigger] name_dist(
                all_tasks@, task.name@, j) >= best_dist,
            i > 0 ==> forall|j: int| 0 <= j < best ==> #[trigger] name_dist(
                all_tasks@, task.name@, j) > best_dist,
        decreases n - i,
    {
        let ld = levenshtein_distance(all_tasks[i].name.clone(), task.name.clone());
        proof {
            lemma_distance_zero(all_tasks@[i as int].name@, task.name@);
        }
        if ld == 0 {
            return Resolution::Found(i);
        }
        if i == 0 || ld < best_dist {
            best = i;
            best_dist = ld;
        }
        i = i + 1;
    }
    if n == 0 {
        return Resolution::NotFound;
    }
    if best_dist > threshold {
        return Resolution::NotFound;
    }
    Resolution::Suggested(best)
}

} // verus!
