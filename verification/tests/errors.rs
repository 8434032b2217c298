use worktree_manager::cli::{AgentCommand, Cli, Command, ConfigCommand, Shell};
use worktree_manager::error::{ErrorCode, WtError};

#[test]
fn exit_codes_are_one_to_five() {
    assert_eq!(ErrorCode::UserError.exit_code(), 1);
    assert_eq!(ErrorCode::NotFound.exit_code(), 2);
    assert_eq!(ErrorCode::GitError.exit_code(), 3);
    assert_eq!(ErrorCode::ConfigError.exit_code(), 4);
    assert_eq!(ErrorCode::IoError.exit_code(), 5);
}

#[test]
fn tags_are_snake_case() {
    assert_eq!(ErrorCode::UserError.tag(), "user_error");
    assert_eq!(ErrorCode::NotFound.tag(), "not_found");
    assert_eq!(ErrorCode::GitError.tag(), "git_error");
    assert_eq!(ErrorCode::ConfigError.tag(), "config_error");
    assert_eq!(ErrorCode::IoError.tag(), "io_error");
}

#[test]
fn constructors_set_category_message_and_cause() {
    assert_eq!(WtError::user_error("a"), WtError::UserError { message: "a".to_string() });
    assert_eq!(
        WtError::user_error_with_source("failed to spawn fzf (is it installed?)", "not found"),
        WtError::UserError {
            message: "failed to spawn fzf (is it installed?): not found".to_string()
        }
    );
    assert_eq!(
        WtError::not_found("b"),
        WtError::NotFound { message: "b".to_string(), source: None }
    );
    assert_eq!(
        WtError::not_found_with_source("b", "c"),
        WtError::NotFound { message: "b".to_string(), source: Some("c".to_string()) }
    );
    assert_eq!(
        WtError::git_error("d"),
        WtError::GitError { message: "d".to_string(), source: None }
    );
    assert_eq!(
        WtError::git_error_with_source("d", "e"),
        WtError::GitError { message: "d".to_string(), source: Some("e".to_string()) }
    );
    assert_eq!(
        WtError::config_error("f"),
        WtError::ConfigError { message: "f".to_string(), source: None }
    );
    assert_eq!(
        WtError::config_error_with_source("f", "g"),
        WtError::ConfigError { message: "f".to_string(), source: Some("g".to_string()) }
    );
    assert_eq!(WtError::io_error("h"), WtError::IoError { message: "h".to_string(), source: None });
    assert_eq!(
        WtError::io_error_with_source("h", "i"),
        WtError::IoError { message: "h".to_string(), source: Some("i".to_string()) }
    );
}

#[test]
fn each_error_knows_its_code() {
    let all = [
        (WtError::user_error("m"), ErrorCode::UserError, 1),
        (WtError::not_found("m"), ErrorCode::NotFound, 2),
        (WtError::git_error("m"), ErrorCode::GitError, 3),
        (WtError::config_error("m"), ErrorCode::ConfigError, 4),
        (WtError::io_error("m"), ErrorCode::IoError, 5),
    ];
    for (e, code, exit) in all {
        assert_eq!(e.code(), code);
        assert_eq!(e.exit_code(), exit);
        assert_eq!(e.message(), "m");
        assert_eq!(e.source(), None);
        assert_eq!(e.detail(), "m");
    }
}

#[test]
fn human_line_names_the_category() {
    assert_eq!(WtError::user_error("bad target").human_line(), "error[usererror]: bad target");
    assert_eq!(WtError::not_found("x").human_line(), "error[notfound]: x");
    assert_eq!(WtError::git_error("x").human_line(), "error[giterror]: x");
    assert_eq!(WtError::config_error("x").human_line(), "error[configerror]: x");
    assert_eq!(WtError::io_error_with_source("x", "y").human_line(), "error[ioerror]: x");
    assert_eq!(ErrorCode::IoError.label(), "ioerror");
}

#[test]
fn detail_appends_the_cause() {
    let e = WtError::config_error_with_source("failed to load config", "bad yaml");
    assert_eq!(e.detail(), "failed to load config: bad yaml");
    assert_eq!(e.source(), Some("bad yaml".to_string()));
}

#[test]
fn json_flag_is_read_from_the_command() {
    let with = |command| Cli { command: Some(command) };
    assert!(with(Command::List { json: true, all: false }).has_json_flag());
    assert!(!with(Command::List { json: false, all: true }).has_json_flag());
    assert!(with(Command::Add {
        branch: None,
        path: None,
        track: None,
        json: true,
        quiet: false
    })
    .has_json_flag());
    assert!(with(Command::Remove { target: None, force: false, json: true, quiet: false })
        .has_json_flag());
    assert!(with(Command::Prune { json: true, quiet: true }).has_json_flag());
    assert!(with(Command::Preview { path: "/x".to_string(), json: true }).has_json_flag());
    assert!(with(Command::Config { command: ConfigCommand::Show { json: true } }).has_json_flag());
    assert!(!with(Command::Config { command: ConfigCommand::Init }).has_json_flag());
    assert!(with(Command::Agent { command: AgentCommand::Context { json: true } }).has_json_flag());
    assert!(with(Command::Agent { command: AgentCommand::Status { json: true } }).has_json_flag());
    assert!(!with(Command::Agent { command: AgentCommand::Onboard }).has_json_flag());
    assert!(!with(Command::Init { shell: Some(Shell::Zsh) }).has_json_flag());
    assert!(!with(Command::Interactive { all: true }).has_json_flag());
    assert!(!Cli { command: None }.has_json_flag());
}

#[test]
fn no_command_means_the_picker() {
    assert_eq!(Cli { command: None }.effective_command(), Command::Interactive { all: false });
    assert_eq!(
        Cli { command: Some(Command::Prune { json: false, quiet: true }) }.effective_command(),
        Command::Prune { json: false, quiet: true }
    );
}
