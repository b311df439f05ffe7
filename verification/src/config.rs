//! Core data model: tasks, their lifecycle status, and the resolved
//! command that the store operations consume.

use vstd::prelude::*;
use vstd::string::StringExecFns;
use crate::text::str_eq;

verus! {

pub const USAGE_MESSAGE: &'static str = "Usage: mkt [MODE] [TASK NAME] [[TASK KEY] [TASK VALUE]]...\nTry 'mkt --help' for more information.";

pub const HELP_MESSAGE: &'static str = "Usage: mkt [MODE] [TASK NAME] [[KEY] [VALUE]]...\nStores, edits, and lists tasks.\n\nMODE OPTIONS\n-c, --create    add task\n-r, --read      read task\n-u, --update    update task\n-d, --delete    remove task\n-l, --list      list all of the tasks\n\nOTHER OPTIONS\n    --help      prints this message\n    --version   prints mkt's version\n    \nTASK KEYS\n-n, --name      for editing task name\n-s, --status    Todo, InProgress, Done\n\nExamples:\n'mkt --read \"Do the dishes\"'\n'mkt --create \"Make dinner\" -s Todo -c 10:00pm'";

pub const VERSION_MESSAGE: &'static str = "mkt (Manage Kai's Tasks) 0.0.1\nMade by Kai Iverson from Alaska.\nThis is free software; see the source for copying conditions.  There is NO\nwarranty; not even for MERCHANTABILITY of FITNESS FOR A PARTICULAR PURPOSE.";

pub const DEFAULT_DATABASE_PATH: &'static str = "data/tasks.txt";

/// Lifecycle status of a task.
#[derive(Clone, Copy, PartialEq, Eq, Structural, Debug)]
pub enum Status {
    Todo,
    InProgress,
    Done,
}

/// A named unit of work with a lifecycle status. Identity is the name:
/// within a store no two tasks share one.
#[derive(Debug)]
pub struct Task {
    pub name: String,
    pub status: Status,
}

/// The operation a command asks for. `Message` carries pre-dispatch
/// console output (help, usage, version) and is handled before the
/// store is ever touched.
#[derive(Debug)]
pub enum Mode {
    Message(String),
    Create,
    Read,
    Update,
    Delete,
    List,
}

/// A resolved command: the operation, its task payload (absent for
/// `List` and for pre-dispatch messages), and the database file path.
#[derive(Debug)]
pub struct Config {
    pub mode: Mode,
    pub task: Option<Task>,
    pub database_path: String,
}

impl Clone for Task {
    fn clone(&self) -> (r: Task)
        ensures
            r == *self,
    {
        Task { name: self.name.clone(), status: self.status }
    }
}

impl PartialEq for Task {
    fn eq(&self, other: &Task) -> (r: bool) {
        self.name == other.name && self.status == other.status
    }
}

impl vstd::std_specs::cmp::PartialEqSpecImpl for Task {
    open spec fn obeys_eq_spec() -> bool {
        true
    }

    open spec fn eq_spec(&self, other: &Task) -> bool {
        self.name@ == other.name@ && self.status == other.status
    }
}

impl PartialEq for Mode {
    fn eq(&self, other: &Mode) -> (r: bool) {
        match (self, other) {
            (Mode::Message(a), Mode::Message(b)) => *a == *b,
            (Mode::Create, Mode::Create) => true,
            (Mode::Read, Mode::Read) => true,
            (Mode::Update, Mode::Update) => true,
            (Mode::Delete, Mode::Delete) => true,
            (Mode::List, Mode::List) => true,
            _ => false,
        }
    }
}

impl vstd::std_specs::cmp::PartialEqSpecImpl for Mode {
    open spec fn obeys_eq_spec() -> bool {
        true
    }

    open spec fn eq_spec(&self, other: &Mode) -> bool {
        match (self, other) {
            (Mode::Message(a), Mode::Message(b)) => a@ == b@,
            (Mode::Create, Mode::Create) => true,
            (Mode::Read, Mode::Read) => true,
            (Mode::Update, Mode::Update) => true,
            (Mode::Delete, Mode::Delete) => true,
            (Mode::List, Mode::List) => true,
            _ => false,
        }
    }
}

impl PartialEq for Config {
    fn eq(&self, other: &Config) -> (r: bool) {
        let tasks_agree = match (&self.task, &other.task) {
            (Some(a), Some(b)) => *a == *b,
            (None, None) => true,
            _ => false,
        };
        self.mode == other.mode && tasks_agree && self.database_path == other.database_path
    }
}

impl vstd::std_specs::cmp::PartialEqSpecImpl for Config {
    open spec fn obeys_eq_spec() -> bool {
        true
    }

    open spec fn eq_spec(&self, other: &Config) -> bool {
        &&& vstd::std_specs::cmp::PartialEqSpec::eq_spec(&self.mode, &other.mode)
        &&& match (self.task, other.task) {
            (Some(a), Some(b)) => vstd::std_specs::cmp::PartialEqSpec::eq_spec(&a, &b),
            (None, None) => true,
            _ => false,
        }
        &&& self.database_path@ == other.database_path@
    }
}

/// Spec-level picture of a task: its name characters and its status.
pub ghost struct TaskView {
    pub name: Seq<char>,
    pub status: Status,
}

impl View for Task {
    type V = TaskView;

    open spec fn view(&self) -> TaskView {
        TaskView { name: self.name@, status: self.status }
    }
}

impl DeepView for Task {
    type V = TaskView;

    open spec fn deep_view(&self) -> TaskView {
        self@
    }
}

/// A configuration that only carries a console message: no task, no
/// database path.
pub open spec fn is_message_config(c: Config, m: Seq<char>) -> bool {
    &&& c.mode matches Mode::Message(s) && s@ == m
    &&& c.task is None
    &&& c.database_path@ == Seq::<char>::empty()
}

/// A configuration for a task-taking operation built from the argument
/// list: the third argument names the task, which starts as `Todo`.
pub open spec fn is_task_config(c: Config, av: Seq<Seq<char>>, m: Mode) -> bool {
    if av.len() >= 3 {
        &&& c.mode == m
        &&& c.task matches Some(t) && t.name@ == av[2] && t.status == Status::Todo
        &&& c.database_path@ == DEFAULT_DATABASE_PATH@
    } else {
        is_message_config(c, no_task_name_text())
    }
}

/// The message shown when a task-taking operation is missing its task
/// name argument.
pub open spec fn no_task_name_text() -> Seq<char> {
    "No task name was given!\n"@ + USAGE_MESSAGE@
}

/// The message shown for an unrecognized mode option.
pub open spec fn invalid_option_text(opt: Seq<char>) -> Seq<char> {
    "Invalid Option: "@ + opt + "\n"@ + USAGE_MESSAGE@
}

/// What `Config::build` yields for the given argument views, matching
/// the options in the order they are tried.
pub open spec fn build_spec(c: Config, av: Seq<Seq<char>>) -> bool {
    if av.len() <= 1 {
        is_message_config(c, USAGE_MESSAGE@)
    } else if av[1] == "--help"@ {
        is_message_config(c, HELP_MESSAGE@)
    } else if av[1] == "--version"@ {
        is_message_config(c, VERSION_MESSAGE@)
    } else if av[1] == "-c"@ || av[1] == "--create"@ {
        is_task_config(c, av, Mode::Create)
    } else if av[1] == "-r"@ || av[1] == "--read"@ {
        is_task_config(c, av, Mode::Read)
    } else if av[1] == "-u"@ || av[1] == "--update"@ {
        is_task_config(c, av, Mode::Update)
    } else if av[1] == "-d"@ || av[1] == "--delete"@ {
        is_task_config(c, av, Mode::Delete)
    } else if av[1] == "-l"@ || av[1] == "--list"@ {
        &&& c.mode == Mode::List
        &&& c.task is None
        &&& c.database_path@ == DEFAULT_DATABASE_PATH@
    } else {
        is_message_config(c, invalid_option_text(av[1]))
    }
}

/// Wraps a console message as a configuration with no task and no
/// database path.
pub fn make_message_config(message: String) -> (c: Config)
    ensures
        is_message_config(c, message@),
{
    Config { mode: Mode::Message(message), task: None, database_path: String::new() }
}

impl Config {
    /// Resolves a raw argument list into a command. The first argument
    /// is the program name; the second picks the mode; the third, when
    /// the mode needs one, names the task.
    pub fn build(args: Vec<String>) -> (c: Config)
        ensures
            build_spec(c, args.deep_view()),
    {
        if args.len() <= 1 {
            return make_message_config(String::from_str(USAGE_MESSAGE));
        }
        let opt = args[1].as_str();
        if str_eq(opt, "--help") {
            return make_message_config(String::from_str(HELP_MESSAGE));
        }
        if str_eq(opt, "--version") {
            return make_message_config(String::from_str(VERSION_MESSAGE));
        }

        let mode: Mode;
        let mut build_task: bool = true;
        if str_eq(opt, "-c") || str_eq(opt, "--create") {
            mode = Mode::Create;
        } else if str_eq(opt, "-r") || str_eq(opt, "--read") {
            mode = Mode::Read;
        } else if str_eq(opt, "-u") || str_eq(opt, "--update") {
            mode = Mode::Update;
        } else if str_eq(opt, "-d") || str_eq(opt, "--delete") {
            mode = Mode::Delete;
        } else if str_eq(opt, "-l") || str_eq(opt, "--list") {
            mode = Mode::List;
            build_task = false;
        } else {
            let message = String::from_str("Invalid Option: ").concat(args[1].as_str()).concat(
                "\n",
            ).concat(USAGE_MESSAGE);
            proof {
                assert(message@ =~= invalid_option_text(args.deep_view()[1]));
            }
            return make_message_config(message);
        }

        let task: Option<Task>;
        if build_task {
            if args.len() <= 2 {
                let message = String::from_str("No task name was given!\n").concat(USAGE_MESSAGE);
                proof {
                    assert(message@ =~= no_task_name_text());
                }
                return make_message_config(message);
            }
            task = Some(Task { name: args[2].clone(), status: Status::Todo });
        } else {
            task = None;
        }

        Config { mode, task, database_path: String::from_str(DEFAULT_DATABASE_PATH) }
    }
}

} // verus!
