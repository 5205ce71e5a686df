use picocode::cli::{cli_command, CliArgs, CliCommand};

#[test]
fn cli_args_default_to_current_directory() {
    let args = CliArgs::parse(vec!["--tool".to_owned(), "list".to_owned()]);

    assert_eq!(args.project_root, ".");
    assert_eq!(args.args, vec!["--tool", "list"]);
}

#[test]
fn cli_args_extract_project_directory() {
    let args = CliArgs::parse(vec![
        "--project".to_owned(),
        "/tmp/demo".to_owned(),
        "--tool".to_owned(),
        "ls".to_owned(),
    ]);

    assert_eq!(args.project_root, "/tmp/demo");
    assert_eq!(args.args, vec!["--tool", "ls"]);
}

#[test]
fn cli_args_keep_continue_and_session_flags() {
    let args = CliArgs::parse(vec![
        "--continue".to_owned(),
        "--session".to_owned(),
        "session-1".to_owned(),
    ]);

    assert_eq!(args.args, vec!["--continue", "--session", "session-1"]);
}

#[test]
fn cli_args_keep_new_flag() {
    let args = CliArgs::parse(vec!["--new".to_owned()]);

    assert_eq!(args.args, vec!["--new"]);
}

#[test]
fn cli_args_keep_a_trailing_project_flag() {
    let args = CliArgs::parse(vec!["--project".to_owned(), "a".to_owned(), "--project".to_owned()]);
    assert_eq!(args.project_root, "a");
    assert_eq!(args.args, vec!["--project"]);
}

fn command(args: &[&str]) -> CliCommand {
    cli_command(&args.iter().map(|a| a.to_string()).collect())
}

#[test]
fn cli_commands_follow_the_arguments() {
    assert_eq!(command(&[]), CliCommand::Default);
    assert_eq!(command(&["-c"]), CliCommand::Default);
    assert_eq!(command(&["--resume"]), CliCommand::ResumePicker);
    assert_eq!(command(&["--session", "s1"]), CliCommand::Resume("s1".to_owned()));
    assert_eq!(command(&["--tool", "ls"]), CliCommand::ToolLs(".".to_owned()));
    assert_eq!(
        command(&["--tool", "read", "a.rs", "x", "7"]),
        CliCommand::ToolRead("a.rs".to_owned(), 0, 7)
    );
    assert_eq!(
        command(&["--tool", "grep", "q", "src", "5", "true"]),
        CliCommand::ToolSearchText("q".to_owned(), "src".to_owned(), 5, true)
    );
    assert_eq!(
        command(&["--tool", "find", "q"]),
        CliCommand::ToolFindFiles("q".to_owned(), ".".to_owned(), 100)
    );
    assert_eq!(
        command(&["--tool", "rollback_edit", "a.rs"]),
        CliCommand::ToolRewindEdit("a.rs".to_owned())
    );
    assert_eq!(command(&["--bogus"]), CliCommand::Usage);
    assert_eq!(command(&["--tool", "read", "a", "b"]), CliCommand::Usage);
}
