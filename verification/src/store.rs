//! Store operations: create, read, delete and list, composed from the
//! resolver. Each works on the in-memory task sequence; the caller
//! loads it before and persists it after a mutating operation.

use vstd::prelude::*;
use crate::config::{Mode, Status, Task};
use crate::distance::lemma_distance_zero;
use crate::resolver::{
    has_exact, is_best_suggestion, is_first_exact, match_or_suggest_task, name_dist, none_close,
    Resolution,
};

verus! {

/// Edit-distance threshold beyond which a near-miss is no longer
/// offered as a suggestion.
pub const SUGGESTION_THRESHOLD: usize = 3;

/// Result of a create: either the task was appended, or a task of the
/// same name was already stored and nothing changed.
#[derive(Clone, Copy, PartialEq, Eq, Structural, Debug)]
pub enum CreateOutcome {
    Created,
    AlreadyExists,
}

/// Result of a read: the stored task, or nothing plus an optional
/// near-miss suggestion.
#[derive(Debug)]
pub enum ReadOutcome {
    Found(Task),
    NotFound(Option<String>),
}

/// Result of a delete: removed, or nothing matched plus an optional
/// near-miss suggestion; in the latter case the store is unchanged.
#[derive(Debug)]
pub enum DeleteOutcome {
    Deleted,
    NotFound(Option<String>),
}

/// Nothing within the threshold means in particular no exact match:
/// an equal name would be at distance zero.
pub proof fn lemma_none_close_no_exact(tasks: Seq<Task>, query: Seq<char>, threshold: nat)
    requires
        none_close(tasks, query, threshold),
    ensures
        !has_exact(tasks, query),
{
    if has_exact(tasks, query) {
        let j = choose|j: int| 0 <= j < tasks.len() && tasks[j].name@ == query;
        lemma_distance_zero(tasks[j].name@, query);
        assert(name_dist(tasks, query, j) == 0);
    }
}

/// Appends `task` with status forced to `Todo`, unless a task of the
/// same name is already stored, in which case nothing changes.
pub fn create_task(tasks: Vec<Task>, task: Task) -> (r: (Vec<Task>, CreateOutcome))
    ensures
        has_exact(tasks@, task.name@) ==> r.0 == tasks && r.1 == CreateOutcome::AlreadyExists,
        !has_exact(tasks@, task.name@) ==> r.0@ == tasks@.push(
            (Task { name: task.name, status: Status::Todo }),
        ) && r.1 == CreateOutcome::Created,
{
    let n = tasks.len();
    let mut i: usize = 0;
    while i < n
        invariant
            i <= n,
            n == tasks@.len(),
            forall|j: int| 0 <= j < i ==> tasks@[j].name@ != task.name@,
        decreases n - i,
    {
        if tasks[i].name == task.name {
            return (tasks, CreateOutcome::AlreadyExists);
        }
        i = i + 1;
    }
    let mut out = tasks;
    out.push(Task { name: task.name, status: Status::Todo });
    (out, CreateOutcome::Created)
}

/// Looks the task up by name: an exact match returns the stored
/// record; otherwise the closest name within the threshold is offered
/// as a suggestion.
pub fn read_task(tasks: &Vec<Task>, task: &Task) -> (r: ReadOutcome)
    ensures
        (match r {
            ReadOutcome::Found(t) => exists|i: int|
                #[trigger] is_first_exact(tasks@, task.name@, i) && t.name@ == tasks@[i].name@
                    && t.status == tasks@[i].status,
            ReadOutcome::NotFound(sug) => !has_exact(tasks@, task.name@) && (match sug {
                Some(s) => exists|i: int|
                    #[trigger] is_best_suggestion(
                        tasks@, task.name@, SUGGESTION_THRESHOLD as nat, i)
                        && s@ == tasks@[i].name@,
                None => none_close(tasks@, task.name@, SUGGESTION_THRESHOLD as nat),
            }),
        }),
{
    match match_or_suggest_task(tasks, task, SUGGESTION_THRESHOLD) {
        Resolution::Found(i) => {
            proof {
                assert(is_first_exact(tasks@, task.name@, i as int));
            }
            ReadOutcome::Found(tasks[i].clone())
        },
        Resolution::Suggested(i) => {
            proof {
                assert(is_best_suggestion(tasks@, task.name@, SUGGESTION_THRESHOLD as nat,
                    i as int));
            }
            ReadOutcome::NotFound(Some(tasks[i].name.clone()))
        },
        Resolution::NotFound => {
            proof {
                lemma_none_close_no_exact(tasks@, task.name@, SUGGESTION_THRESHOLD as nat);
            }
            ReadOutcome::NotFound(None)
        },
    }
}

/// Removes the task whose name matches exactly, keeping the relative
/// order of the remaining tasks; a near miss only earns a suggestion
/// and changes nothing.
pub fn delete_task(tasks: Vec<Task>, task: &Task) -> (r: (Vec<Task>, DeleteOutcome))
    ensures
        (match r.1 {
            DeleteOutcome::Deleted => exists|i: int|
                #[trigger] is_first_exact(tasks@, task.name@, i) && r.0@ == tasks@.remove(i),
            DeleteOutcome::NotFound(sug) => r.0 == tasks && !has_exact(tasks@, task.name@) && (
            match sug {
                Some(s) => exists|i: int|
                    #[trigger] is_best_suggestion(
                        tasks@, task.name@, SUGGESTION_THRESHOLD as nat, i)
                        && s@ == tasks@[i].name@,
                None => none_close(tasks@, task.name@, SUGGESTION_THRESHOLD as nat),
            }),
        }),
{
    match match_or_suggest_task(&tasks, task, SUGGESTION_THRESHOLD) {
        Resolution::Found(i) => {
            proof {
                assert(is_first_exact(tasks@, task.name@, i as int));
            }
            let mut out = tasks;
            out.remove(i);
            (out, DeleteOutcome::Deleted)
        },
        Resolution::Suggested(i) => {
            proof {
                assert(is_best_suggestion(tasks@, task.name@, SUGGESTION_THRESHOLD as nat,
                    i as int));
            }
            let suggestion = tasks[i].name.clone();
            (tasks, DeleteOutcome::NotFound(Some(suggestion)))
        },
        Resolution::NotFound => {
            proof {
                lemma_none_close_no_exact(tasks@, task.name@, SUGGESTION_THRESHOLD as nat);
            }
            (tasks, DeleteOutcome::NotFound(None))
        },
    }
}

/// The tasks of `s` that carry status `st`, in their original order.
pub open spec fn filter_status(s: Seq<Task>, st: Status) -> Seq<Task>
    decreases s.len(),
{
    if s.len() == 0 {
        Seq::empty()
    } else if s.last().status == st {
        filter_status(s.drop_last(), st).push(s.last())
    } else {
        filter_status(s.drop_last(), st)
    }
}

/// Groups the store into the three status buckets, keeping the
/// original relative order inside each bucket.
pub fn list_tasks(tasks: &Vec<Task>) -> (r: (Vec<Task>, Vec<Task>, Vec<Task>))
    ensures
        r.0@ == filter_status(tasks@, Status::Todo),
        r.1@ == filter_status(tasks@, Status::InProgress),
        r.2@ == filter_status(tasks@, Status::Done),
{
    let mut todo: Vec<Task> = Vec::new();
    let mut in_progress: Vec<Task> = Vec::new();
    let mut done: Vec<Task> = Vec::new();
    let n = tasks.len();
    let mut i: usize = 0;
    while i < n
        invariant
            i <= n,
            n == tasks@.len(),
            todo@ == filter_status(tasks@.take(i as int), Status::Todo),
            in_progress@ == filter_status(tasks@.take(i as int), Status::InProgress),
            done@ == filter_status(tasks@.take(i as int), Status::Done),
        decreases n - i,
    {
        proof {
            assert(tasks@.take(i + 1).drop_last() =~= tasks@.take(i as int));
            assert(tasks@.take(i + 1).last() == tasks@[i as int]);
        }
        let t = tasks[i].clone();
        match t.status {
            Status::Todo => todo.push(t),
            Status::InProgress => in_progress.push(t),
            Status::Done => done.push(t),
        }
        i = i + 1;
    }
    proof {
        assert(tasks@.take(n as int) =~= tasks@);
    }
    (todo, in_progress, done)
}

/// Listing partitions the store: the three buckets together hold
/// exactly the stored tasks, each task landing in the bucket of its
/// own status.
pub proof fn lemma_list_partition(s: Seq<Task>)
    ensures
        filter_status(s, Status::Todo).len() + filter_status(s, Status::InProgress).len()
            + filter_status(s, Status::Done).len() == s.len(),
        filter_status(s, Status::Todo).to_multiset().add(
            filter_status(s, Status::InProgress).to_multiset(),
        ).add(filter_status(s, Status::Done).to_multiset()) =~= s.to_multiset(),
        forall|j: int|
            0 <= j < s.len() ==> #[trigger] filter_status(s, s[j].status).contains(s[j]),
    decreases s.len(),
{
    broadcast use vstd::seq_lib::group_to_multiset_ensures;

    if s.len() == 0 {
        assert forall|a: Task| s.to_multiset().count(a) == 0 by {
            assert(!s.contains(a));
        }
        assert forall|a: Task| filter_status(s, Status::Todo).to_multiset().count(a) == 0 by {
            assert(!filter_status(s, Status::Todo).contains(a));
        }
        assert forall|a: Task| filter_status(s, Status::InProgress).to_multiset().count(a)
            == 0 by {
            assert(!filter_status(s, Status::InProgress).contains(a));
        }
        assert forall|a: Task| filter_status(s, Status::Done).to_multiset().count(a) == 0 by {
            assert(!filter_status(s, Status::Done).contains(a));
        }
    } else {
        let rest = s.drop_last();
        let last = s.last();
        lemma_list_partition(rest);
        assert(s =~= rest.push(last));
        assert(s.to_multiset() =~= rest.to_multiset().insert(last));
        assert forall|j: int|
            0 <= j < s.len() implies #[trigger] filter_status(s, s[j].status).contains(s[j]) by {
            if j < s.len() - 1 {
                assert(rest[j] == s[j]);
                assert(filter_status(rest, s[j].status).contains(s[j]));
                let k = choose|k: int|
                    0 <= k < filter_status(rest, s[j].status).len() && filter_status(
                        rest, s[j].status)[k] == s[j];
                assert(filter_status(s, s[j].status)[k] == s[j]);
            } else {
                let b = filter_status(s, last.status);
                assert(b.last() == last);
            }
        }
    }
}

/// Structured result of one command, rendered to console text by the
/// caller.
#[derive(Debug)]
pub enum Outcome {
    Created,
    AlreadyExists,
    Found(Task),
    Missing(Option<String>),
    Deleted,
    Listed(Vec<Task>, Vec<Task>, Vec<Task>),
    Unimplemented,
}

/// Runs one resolved command against the given store and returns the
/// new store plus the structured outcome. Pre-dispatch messages are
/// handled before this point; `Update` is accepted but not yet
/// implemented and changes nothing.
pub fn apply_command(tasks: Vec<Task>, mode: &Mode, task: Option<Task>) -> (r: (
    Vec<Task>,
    Outcome,
))
    requires
        !(mode is Message),
        mode is Create || mode is Read || mode is Delete ==> task is Some,
    ensures
        mode is Create ==> (task matches Some(t) && {
            &&& has_exact(tasks@, t.name@) ==> r.0 == tasks && r.1 == Outcome::AlreadyExists
            &&& !has_exact(tasks@, t.name@) ==> r.0@ == tasks@.push(
                (Task { name: t.name, status: Status::Todo }),
            ) && r.1 == Outcome::Created
        }),
        mode is Read ==> r.0 == tasks && (task matches Some(t) && (match r.1 {
            Outcome::Found(f) => exists|i: int|
                #[trigger] is_first_exact(tasks@, t.name@, i) && f.name@ == tasks@[i].name@
                    && f.status == tasks@[i].status,
            Outcome::Missing(sug) => !has_exact(tasks@, t.name@) && (match sug {
                Some(s) => exists|i: int|
                    #[trigger] is_best_suggestion(
                        tasks@, t.name@, SUGGESTION_THRESHOLD as nat, i)
                        && s@ == tasks@[i].name@,
                None => none_close(tasks@, t.name@, SUGGESTION_THRESHOLD as nat),
            }),
            _ => false,
        })),
        mode is Delete ==> (task matches Some(t) && (match r.1 {
            Outcome::Deleted => exists|i: int|
                #[trigger] is_first_exact(tasks@, t.name@, i) && r.0@ == tasks@.remove(i),
            Outcome::Missing(sug) => r.0 == tasks && !has_exact(tasks@, t.name@) && (match sug {
                Some(s) => exists|i: int|
                    #[trigger] is_best_suggestion(
                        tasks@, t.name@, SUGGESTION_THRESHOLD as nat, i)
                        && s@ == tasks@[i].name@,
                None => none_close(tasks@, t.name@, SUGGESTION_THRESHOLD as nat),
            }),
            _ => false,
        })),
        mode is List ==> r.0 == tasks && (r.1 matches Outcome::Listed(a, b, c)
            && a@ == filter_status(tasks@, Status::Todo) && b@ == filter_status(
            tasks@, Status::InProgress) && c@ == filter_status(tasks@, Status::Done)),
        mode is Update ==> r.0 == tasks && r.1 == Outcome::Unimplemented,
{
    match mode {
        Mode::Create => {
            let t = option_unwrap(task);
            let (out, oc) = create_task(tasks, t);
            match oc {
                CreateOutcome::Created => (out, Outcome::Created),
                CreateOutcome::AlreadyExists => (out, Outcome::AlreadyExists),
            }
        },
        Mode::Read => {
            let t = option_unwrap(task);
            let oc = read_task(&tasks, &t);
            match oc {
                ReadOutcome::Found(f) => (tasks, Outcome::Found(f)),
                ReadOutcome::NotFound(sug) => (tasks, Outcome::Missing(sug)),
            }
        },
        Mode::Delete => {
            let t = option_unwrap(task);
            let (out, oc) = delete_task(tasks, &t);
            match oc {
                DeleteOutcome::Deleted => (out, Outcome::Deleted),
                DeleteOutcome::NotFound(sug) => (out, Outcome::Missing(sug)),
            }
        },
        Mode::List => {
            let (a, b, c) = list_tasks(&tasks);
            (tasks, Outcome::Listed(a, b, c))
        },
        Mode::Update => (tasks, Outcome::Unimplemented),
        Mode::Message(_) => vstd::pervasive::unreached(),
    }
}

fn option_unwrap(o: Option<Task>) -> (t: Task)
    requires
        o is Some,
    ensures
        o matches Some(x) && x == t,
{
    match o {
        Some(t) => t,
        None => vstd::pervasive::unreached(),
    }
}

} // verus!
