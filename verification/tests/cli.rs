use qwest::cli::{parse_key_val, shape, Cli, CliError, Command, Word};

#[test]
fn parse_run_with_env_and_format() {
    let cli = Cli::try_parse_from(&[
        "qwest",
        "run",
        "--env-file",
        ".env",
        "-e",
        "token=1234",
        "my_project",
        "my_route",
        "--format",
        "json",
    ])
    .unwrap();

    match cli.command {
        Command::Run {
            env_file,
            env,
            project,
            route,
            format,
        } => {
            assert_eq!(env_file.as_deref(), Some(".env"));
            assert_eq!(project, "my_project");
            assert_eq!(route, "my_route");
            assert_eq!(format, "json");
            assert_eq!(env.len(), 1);
            assert_eq!(env[0].0, "token");
            assert_eq!(env[0].1, "1234");
        }
        _ => panic!("expected Run command"),
    }
}

#[test]
fn parse_set_command() {
    // this matches: qwest set <LABEL> <VALUE> --project <PROJECT>
    let cli = Cli::try_parse_from(&["qwest", "set", "token", "xx", "--project", "proj"]).unwrap();

    match cli.command {
        Command::SetVariable {
            label,
            value,
            project,
        } => {
            assert_eq!(label, "token");
            assert_eq!(value, "xx");
            assert_eq!(project.as_deref(), Some("proj"));
        }
        _ => panic!("expected Set command"),
    }
}

#[test]
fn parse_key_val_splits_at_the_first_equals_sign() {
    assert_eq!(parse_key_val("token=1234"), Ok(("token".to_string(), "1234".to_string())));
    assert_eq!(parse_key_val("a=b=c"), Ok(("a".to_string(), "b=c".to_string())));
    assert_eq!(parse_key_val("=x"), Ok(("".to_string(), "x".to_string())));
    assert_eq!(parse_key_val("x="), Ok(("x".to_string(), "".to_string())));
    assert_eq!(
        parse_key_val("token"),
        Err("invalid KEY=VALUE: no `=` found in `token`".to_string())
    );
    assert_eq!(parse_key_val(""), Err("invalid KEY=VALUE: no `=` found in ``".to_string()));
}

#[test]
fn words_are_told_apart_by_their_shape() {
    assert!(matches!(shape("plain"), Word::Plain(t) if t == "plain"));
    assert!(matches!(shape("-"), Word::Plain(t) if t == "-"));
    assert!(matches!(shape(""), Word::Plain(t) if t.is_empty()));
    assert!(matches!(shape("--"), Word::Separator));
    assert!(matches!(shape("--format"), Word::Long { name, value: None } if name == "format"));
    assert!(matches!(
        shape("--format=raw"),
        Word::Long { name, value: Some(v) } if name == "format" && v == "raw"
    ));
    assert!(matches!(
        shape("--env=a=b"),
        Word::Long { name, value: Some(v) } if name == "env" && v == "a=b"
    ));
    assert!(matches!(shape("-e"), Word::Short { flag: 'e', value: None }));
    assert!(matches!(shape("-ea=b"), Word::Short { flag: 'e', value: Some(v) } if v == "a=b"));
    assert!(matches!(shape("-e=a=b"), Word::Short { flag: 'e', value: Some(v) } if v == "a=b"));
}

#[test]
fn run_defaults_and_repeated_variables() {
    let cli = Cli::try_parse_from(&[
        "qwest", "run", "p", "-e", "a=1", "--env", "b=2", "-ec=3", "--env=d=4", "r",
    ])
    .unwrap();
    match cli.command {
        Command::Run { env_file, env, project, route, format } => {
            assert_eq!(env_file, None);
            assert_eq!(project, "p");
            assert_eq!(route, "r");
            assert_eq!(format, "json");
            let expected: Vec<(String, String)> = [("a", "1"), ("b", "2"), ("c", "3"), ("d", "4")]
                .iter()
                .map(|(k, v)| (k.to_string(), v.to_string()))
                .collect();
            assert_eq!(env, expected);
        }
        _ => panic!("expected Run command"),
    }
}

#[test]
fn the_other_commands_take_one_project() {
    match Cli::try_parse_from(&["qwest", "new", "p"]).unwrap().command {
        Command::New { project } => assert_eq!(project, "p"),
        _ => panic!("expected New command"),
    }
    match Cli::try_parse_from(&["qwest", "edit", "p"]).unwrap().command {
        Command::Edit { project } => assert_eq!(project, "p"),
        _ => panic!("expected Edit command"),
    }
    match Cli::try_parse_from(&["qwest", "delete", "p"]).unwrap().command {
        Command::Delete { project } => assert_eq!(project, "p"),
        _ => panic!("expected Delete command"),
    }
    match Cli::try_parse_from(&["qwest", "set", "l", "v"]).unwrap().command {
        Command::SetVariable { label, value, project } => {
            assert_eq!(label, "l");
            assert_eq!(value, "v");
            assert_eq!(project, None);
        }
        _ => panic!("expected Set command"),
    }
}

#[test]
fn words_after_the_separator_are_arguments() {
    match Cli::try_parse_from(&["qwest", "set", "--", "--label", "-v"]).unwrap().command {
        Command::SetVariable { label, value, project } => {
            assert_eq!(label, "--label");
            assert_eq!(value, "-v");
            assert_eq!(project, None);
        }
        _ => panic!("expected Set command"),
    }
}

fn error_of(args: &[&str]) -> CliError {
    Cli::try_parse_from(args).unwrap_err()
}

#[test]
fn each_error_has_its_input() {
    assert!(matches!(error_of(&[]), CliError::MissingCommand));
    assert!(matches!(error_of(&["qwest"]), CliError::MissingCommand));
    assert!(matches!(error_of(&["qwest", "help"]), CliError::Help));
    assert!(matches!(error_of(&["qwest", "-h"]), CliError::Help));
    assert!(matches!(error_of(&["qwest", "run", "--help"]), CliError::Help));
    assert!(matches!(error_of(&["qwest", "run", "-h"]), CliError::Help));
    assert!(matches!(error_of(&["qwest", "--version"]), CliError::Version));
    assert!(matches!(error_of(&["qwest", "-V"]), CliError::Version));
    assert!(matches!(error_of(&["qwest", "fly"]), CliError::UnknownCommand(w) if w == "fly"));
    assert!(matches!(error_of(&["qwest", "--fly"]), CliError::UnknownOption(w) if w == "--fly"));
    assert!(matches!(
        error_of(&["qwest", "new", "p", "--format", "raw"]),
        CliError::UnknownOption(w) if w == "--format"
    ));
    assert!(matches!(
        error_of(&["qwest", "run", "-x", "p", "r"]),
        CliError::UnknownOption(w) if w == "-x"
    ));
    assert!(matches!(
        error_of(&["qwest", "run", "p", "r", "--format"]),
        CliError::MissingValue(w) if w == "--format"
    ));
    assert!(matches!(
        error_of(&["qwest", "run", "-e", "--format", "raw", "p", "r"]),
        CliError::MissingValue(w) if w == "-e"
    ));
    assert!(matches!(
        error_of(&["qwest", "run", "--format", "a", "--format=b", "p", "r"]),
        CliError::DuplicateOption(w) if w == "--format"
    ));
    assert!(matches!(
        error_of(&["qwest", "run", "--env-file", "a", "--env-file", "b", "p", "r"]),
        CliError::DuplicateOption(w) if w == "--env-file"
    ));
    assert!(matches!(
        error_of(&["qwest", "set", "--project", "a", "--project", "b", "l", "v"]),
        CliError::DuplicateOption(w) if w == "--project"
    ));
    assert!(matches!(
        error_of(&["qwest", "run", "-e", "token", "p", "r"]),
        CliError::InvalidPair { text, reason }
            if text == "token" && reason == "invalid KEY=VALUE: no `=` found in `token`"
    ));
    assert!(matches!(error_of(&["qwest", "run"]), CliError::MissingArgument(n) if n == "project"));
    assert!(matches!(error_of(&["qwest", "run", "p"]), CliError::MissingArgument(n) if n == "route"));
    assert!(matches!(error_of(&["qwest", "set"]), CliError::MissingArgument(n) if n == "label"));
    assert!(matches!(error_of(&["qwest", "set", "l"]), CliError::MissingArgument(n) if n == "value"));
    assert!(matches!(error_of(&["qwest", "new"]), CliError::MissingArgument(n) if n == "project"));
    assert!(matches!(
        error_of(&["qwest", "new", "p", "q"]),
        CliError::UnexpectedArgument(w) if w == "q"
    ));
    assert!(matches!(
        error_of(&["qwest", "run", "p", "r", "s"]),
        CliError::UnexpectedArgument(w) if w == "s"
    ));
}
