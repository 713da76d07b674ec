use qwest::cli::{usage, CliError};
use qwest::config::{new_project_text, project_file_name};
use qwest::protocol::RunError;
use qwest::request::present;
use qwest::text::{chars_of, decimal_text, framed, joined, same_text, text_between, text_of};

#[test]
fn texts_are_taken_apart_and_put_together() {
    assert_eq!(chars_of("aé日"), vec!['a', 'é', '日']);
    assert!(chars_of("").is_empty());
    let chars = vec!['a', 'é', '日', 'b'];
    assert_eq!(text_of(&chars), "aé日b");
    assert_eq!(text_between(&chars, 1, 3), "é日");
    assert_eq!(text_between(&chars, 2, 2), "");
    assert_eq!(text_between(&chars, 0, 4), "aé日b");
    assert_eq!(joined("ab", "cd"), "abcd");
    assert_eq!(joined("", ""), "");
    assert_eq!(framed("<", "é", ">"), "<é>");
    assert!(same_text("é", "é"));
    assert!(!same_text("e", "é"));
    assert!(!same_text("a", "ab"));
    assert!(same_text("", ""));
}

#[test]
fn numbers_are_written_in_decimal() {
    for (n, text) in [(0u16, "0"), (9, "9"), (10, "10"), (99, "99"), (100, "100"), (65535, "65535")]
    {
        assert_eq!(decimal_text(n), text);
    }
    for n in 0..=u16::MAX {
        assert_eq!(decimal_text(n), n.to_string());
    }
}

#[test]
fn a_new_project_file_names_its_project() {
    let text = new_project_text("test_project_cmd_new");
    assert!(text.contains("[api]"));
    assert!(text.contains("name = \"test_project_cmd_new\""));
    assert_eq!(
        text,
        "[api]\nname = \"test_project_cmd_new\"\nbase_url = \"\"\n\n[api.scenarios]\n\n\
         [[requests]]\nname   = \"docs\"\nmethod = \"GET\"\npath   = \"/docs\"\n\n"
    );
    assert_eq!(project_file_name("my_project"), "my_project.toml");
    assert_eq!(project_file_name(""), ".toml");
}

#[test]
fn json_bodies_are_shown_with_indentation() {
    assert_eq!(present("json", r#"{"message":"ok"}"#), "{\n  \"message\": \"ok\"\n}");
    assert_eq!(present("json", "[1,2]"), "[\n  1,\n  2\n]");
    assert_eq!(present("json", " 7 "), "7");
    assert_eq!(present("json", "not json"), "not json");
    assert_eq!(present("json", ""), "");
    assert_eq!(present("raw", r#"{"message":"ok"}"#), r#"{"message":"ok"}"#);
    assert_eq!(present("html", "<p>[1,2]</p>"), "<p>[1,2]</p>");
    assert_eq!(present("JSON", "[1,2]"), "[1,2]");
    assert_eq!(present("", "[1,2]"), "[1,2]");
}

#[test]
fn every_run_error_has_its_message() {
    let text = |s: &str| s.to_string();
    assert_eq!(
        RunError::UnknownRoute { route: text("r") }.message(),
        "unknown route or scenario `r`"
    );
    assert_eq!(RunError::MissingRequest { name: text("n") }.message(), "request `n` not found");
    assert_eq!(
        RunError::Method { request: text("n"), method: text("G T") }.message(),
        "request `n`: invalid HTTP method `G T`"
    );
    assert_eq!(
        RunError::HeaderFormat { request: text("n") }.message(),
        "request `n`: invalid JSON in headers"
    );
    assert_eq!(
        RunError::Transport { request: text("n"), message: text("refused") }.message(),
        "request `n`: refused"
    );
    assert_eq!(RunError::Script { description: None, message: text("boom") }.message(), "boom");
    assert_eq!(
        RunError::Script { description: Some(text("Log in")), message: text("boom") }.message(),
        "script `Log in`: boom"
    );
    assert_eq!(
        RunError::Persistence { label: text("k"), message: text("locked") }.message(),
        "failed to persist script variable `k`: locked"
    );
    assert_eq!(
        RunError::OutOfTurn.message(),
        "an event was reported that had not been asked for"
    );
}

#[test]
fn every_command_line_error_has_its_message() {
    let text = |s: &str| s.to_string();
    assert_eq!(CliError::Help.message(), usage());
    assert!(usage().starts_with("Usage: qwest <COMMAND>\n"));
    for word in ["new", "run", "set", "edit", "delete", "--env-file", "-e, --env", "--format", "--project"] {
        assert!(usage().contains(word), "usage lacks {}", word);
    }
    assert_eq!(CliError::Version.message(), "qwest");
    assert_eq!(CliError::MissingCommand.message(), "a command is required");
    assert_eq!(CliError::UnknownCommand(text("fly")).message(), "unrecognized command `fly`");
    assert_eq!(CliError::UnknownOption(text("--x")).message(), "unexpected option `--x`");
    assert_eq!(CliError::MissingValue(text("-e")).message(), "a value is required for `-e`");
    assert_eq!(
        CliError::DuplicateOption(text("--format")).message(),
        "the option `--format` cannot be used more than once"
    );
    assert_eq!(
        CliError::InvalidPair { text: text("t"), reason: text("no `=`") }.message(),
        "no `=`"
    );
    assert_eq!(
        CliError::MissingArgument(text("route")).message(),
        "the argument <route> is required"
    );
    assert_eq!(CliError::UnexpectedArgument(text("z")).message(), "unexpected argument `z`");
    assert!(CliError::Help.is_request());
    assert!(CliError::Version.is_request());
    assert!(!CliError::MissingCommand.is_request());
    assert!(!CliError::UnknownOption(text("--x")).is_request());
}
