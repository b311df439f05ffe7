use mkt::config::{Config, Mode, Status, Task, HELP_MESSAGE, USAGE_MESSAGE};

fn build_test_args(mode: &str) -> Vec<String> {
    let args: Vec<String> = vec![
        String::from("mkt"),
        String::from(mode),
        String::from("Example Task"),
    ];
    args
}

fn build_test_config(mode: Mode, has_task: bool) -> Config {
    let config: Config = Config {
        mode,
        task: match has_task {
            true => Some(Task {
                name: "Example Task".to_string(),
                status: Status::Todo,
            }),
            false => None,
        },
        database_path: "data/tasks.txt".to_string(),
    };
    config
}

#[test]
fn test_not_enough_args() {
    let args: Vec<String> = vec![String::from("mkt")];
    let config_mode: Mode = Mode::Message(USAGE_MESSAGE.to_string());
    assert_eq!(Config::build(args).mode, config_mode);
}

#[test]
fn test_help_message() {
    let args: Vec<String> = vec![String::from("mkt"), String::from("--help")];
    let config_mode: Mode = Mode::Message(HELP_MESSAGE.to_string());
    assert_eq!(Config::build(args).mode, config_mode);
}

#[test]
fn test_create_task() {
    let args: Vec<String> = build_test_args("--create");
    let config: Config = build_test_config(Mode::Create, true);
    assert_eq!(Config::build(args), config);
}

#[test]
fn test_read_task() {
    let args: Vec<String> = build_test_args("--read");
    let config: Config = build_test_config(Mode::Read, true);
    assert_eq!(Config::build(args), config);
}

#[test]
fn test_update_task() {
    let args: Vec<String> = build_test_args("--update");
    let config: Config = build_test_config(Mode::Update, true);
    assert_eq!(Config::build(args), config);
}

#[test]
fn test_delete_task() {
    let args: Vec<String> = build_test_args("--delete");
    let config: Config = build_test_config(Mode::Delete, true);
    assert_eq!(Config::build(args), config);
}

#[test]
fn test_list_tasks() {
    let args: Vec<String> = build_test_args("--list");
    let config: Config = build_test_config(Mode::List, false);
    assert_eq!(Config::build(args), config);
}

#[test]
fn test_short_mode_options() {
    let args: Vec<String> = build_test_args("-c");
    let config: Config = build_test_config(Mode::Create, true);
    assert_eq!(Config::build(args), config);
}

#[test]
fn test_invalid_option_message() {
    let args: Vec<String> = vec![String::from("mkt"), String::from("--bogus")];
    let expected = format!("Invalid Option: --bogus\n{USAGE_MESSAGE}");
    assert_eq!(Config::build(args).mode, Mode::Message(expected));
}

#[test]
fn test_missing_task_name_message() {
    let args: Vec<String> = vec![String::from("mkt"), String::from("--read")];
    let expected = format!("No task name was given!\n{USAGE_MESSAGE}");
    assert_eq!(Config::build(args).mode, Mode::Message(expected));
}
