//! The command line as the library reads it, held against the same
//! definition given to clap.

use clap::error::ErrorKind;
use clap::{Arg, ArgAction, ArgMatches};
use qwest::cli::{parse_key_val, Cli, CliError, Command};

#[derive(Debug, PartialEq)]
enum Parsed {
    New(String),
    Run(Option<String>, Vec<(String, String)>, String, String, String),
    SetVariable(String, String, Option<String>),
    Edit(String),
    Delete(String),
}

#[derive(Debug, PartialEq)]
enum Refused {
    Help,
    Version,
    Mistake,
}

fn pair(text: &str) -> Result<(String, String), String> {
    parse_key_val(text)
}

fn definition() -> clap::Command {
    clap::Command::new("qwest")
        .version("0.1.0")
        .subcommand_required(true)
        .arg_required_else_help(true)
        .subcommand(clap::Command::new("new").arg(Arg::new("project").required(true)))
        .subcommand(
            clap::Command::new("run")
                .arg(Arg::new("env_file").long("env-file"))
                .arg(
                    Arg::new("env")
                        .short('e')
                        .long("env")
                        .action(ArgAction::Append)
                        .value_parser(pair),
                )
                .arg(Arg::new("project").required(true))
                .arg(Arg::new("route").required(true))
                .arg(Arg::new("format").long("format").default_value("json")),
        )
        .subcommand(
            clap::Command::new("set")
                .arg(Arg::new("label").required(true))
                .arg(Arg::new("value").required(true))
                .arg(Arg::new("project").long("project")),
        )
        .subcommand(clap::Command::new("edit").arg(Arg::new("project").required(true)))
        .subcommand(clap::Command::new("delete").arg(Arg::new("project").required(true)))
}

fn text(matches: &ArgMatches, id: &str) -> String {
    matches.get_one::<String>(id).unwrap().clone()
}

fn by_clap(args: &[&str]) -> Result<Parsed, Refused> {
    let matches = match definition().try_get_matches_from(args) {
        Ok(matches) => matches,
        Err(error) => {
            return Err(match error.kind() {
                ErrorKind::DisplayHelp => Refused::Help,
                ErrorKind::DisplayVersion => Refused::Version,
                _ => Refused::Mistake,
            })
        }
    };
    let (name, sub) = matches.subcommand().unwrap();
    Ok(match name {
        "new" => Parsed::New(text(sub, "project")),
        "edit" => Parsed::Edit(text(sub, "project")),
        "delete" => Parsed::Delete(text(sub, "project")),
        "set" => Parsed::SetVariable(
            text(sub, "label"),
            text(sub, "value"),
            sub.get_one::<String>("project").cloned(),
        ),
        "run" => Parsed::Run(
            sub.get_one::<String>("env_file").cloned(),
            sub.get_many::<(String, String)>("env")
                .map(|pairs| pairs.cloned().collect())
                .unwrap_or_default(),
            text(sub, "project"),
            text(sub, "route"),
            text(sub, "format"),
        ),
        other => panic!("clap gave a command that was not defined: {}", other),
    })
}

fn by_library(args: &[&str]) -> Result<Parsed, Refused> {
    match Cli::try_parse_from(args) {
        Ok(cli) => Ok(match cli.command {
            Command::New { project } => Parsed::New(project),
            Command::Edit { project } => Parsed::Edit(project),
            Command::Delete { project } => Parsed::Delete(project),
            Command::SetVariable { label, value, project } => {
                Parsed::SetVariable(label, value, project)
            }
            Command::Run { env_file, env, project, route, format } => {
                Parsed::Run(env_file, env, project, route, format)
            }
        }),
        Err(CliError::Help) => Err(Refused::Help),
        Err(CliError::Version) => Err(Refused::Version),
        Err(_) => Err(Refused::Mistake),
    }
}

fn agree(args: &[&str]) {
    assert_eq!(by_library(args), by_clap(args), "on {:?}", args);
}

#[test]
fn accepted_lines_are_read_alike() {
    agree(&["qwest", "new", "p"]);
    agree(&["qwest", "edit", "p"]);
    agree(&["qwest", "delete", "p"]);
    agree(&["qwest", "set", "l", "v"]);
    agree(&["qwest", "set", "l", "v", "--project", "p"]);
    agree(&["qwest", "set", "--project", "p", "l", "v"]);
    agree(&["qwest", "set", "l", "--project=p", "v"]);
    agree(&["qwest", "set", "l", "--project=", "v"]);
    agree(&["qwest", "set", "", ""]);
    agree(&["qwest", "set", "-", "-"]);
    agree(&["qwest", "set", "--", "--l", "-v"]);
    agree(&["qwest", "set", "--project", "p", "--", "--project", "q"]);
    agree(&["qwest", "run", "p", "r"]);
    agree(&["qwest", "run", "p", "r", "--format", "raw"]);
    agree(&["qwest", "run", "--format=html", "p", "r"]);
    agree(&["qwest", "run", "p", "--format", "new", "r"]);
    agree(&["qwest", "run", "--env-file", ".env", "-e", "token=1234", "p", "r", "--format", "json"]);
    agree(&["qwest", "run", "-e", "a=1", "-e", "a=2", "--env", "b=", "--env==c", "p", "r"]);
    agree(&["qwest", "run", "-ea=1", "-e=b=2", "--env=c=3=4", "p", "r"]);
    agree(&["qwest", "run", "p", "r", "-e", "=", "--env-file="]);
    agree(&["qwest", "run", "--env-file", "run", "new", "set"]);
    agree(&["qwest", "run", "é", "日本", "-e", "ключ=значение"]);
}

#[test]
fn refused_lines_are_refused_alike() {
    agree(&[]);
    agree(&["qwest"]);
    agree(&["qwest", ""]);
    agree(&["qwest", "fly"]);
    agree(&["qwest", "RUN", "p", "r"]);
    agree(&["qwest", "--fly"]);
    agree(&["qwest", "-x"]);
    agree(&["qwest", "--", "run", "p", "r"]);
    agree(&["qwest", "new"]);
    agree(&["qwest", "new", "p", "q"]);
    agree(&["qwest", "new", "--project", "p"]);
    agree(&["qwest", "new", "p", "--format", "raw"]);
    agree(&["qwest", "edit"]);
    agree(&["qwest", "delete", "a", "b"]);
    agree(&["qwest", "set"]);
    agree(&["qwest", "set", "l"]);
    agree(&["qwest", "set", "l", "v", "w"]);
    agree(&["qwest", "set", "l", "v", "--project"]);
    agree(&["qwest", "set", "l", "v", "--project", "-p"]);
    agree(&["qwest", "set", "l", "v", "--project", "a", "--project", "b"]);
    agree(&["qwest", "set", "l", "v", "-e", "a=b"]);
    agree(&["qwest", "run"]);
    agree(&["qwest", "run", "p"]);
    agree(&["qwest", "run", "p", "r", "s"]);
    agree(&["qwest", "run", "p", "r", "--format"]);
    agree(&["qwest", "run", "p", "r", "--format", "a", "--format", "b"]);
    agree(&["qwest", "run", "p", "r", "--env-file", "a", "--env-file=b"]);
    agree(&["qwest", "run", "p", "r", "-e"]);
    agree(&["qwest", "run", "p", "r", "-e", "token"]);
    agree(&["qwest", "run", "p", "r", "-e", "--format", "raw"]);
    agree(&["qwest", "run", "p", "r", "--unknown"]);
    agree(&["qwest", "run", "p", "r", "-x"]);
    agree(&["qwest", "run", "p", "r", "--project", "q"]);
}

#[test]
fn help_and_version_are_told_alike() {
    agree(&["qwest", "-hV"]);
    agree(&["qwest", "-Vh"]);
    agree(&["qwest", "-h=1"]);
    agree(&["qwest", "--help=1"]);
    agree(&["qwest", "--version=1"]);
    agree(&["qwest", "help", "run"]);
    agree(&["qwest", "help", "help"]);
    agree(&["qwest", "help", "bogus"]);
    agree(&["qwest", "help", "run", "extra"]);
    agree(&["qwest", "help", "-h"]);
    agree(&["qwest", "help", "--"]);
    agree(&["qwest", "run", "--help=1", "p", "r"]);
    agree(&["qwest", "run", "-h=1", "p", "r"]);
    agree(&["qwest", "run", "p", "r", "-V"]);
    agree(&["qwest", "run", "--", "--help"]);
    agree(&["qwest", "run", "-x", "--help"]);
    agree(&["qwest", "run", "--help", "-x"]);
    agree(&["qwest", "--help"]);
    agree(&["qwest", "-h"]);
    agree(&["qwest", "help"]);
    agree(&["qwest", "--version"]);
    agree(&["qwest", "-V"]);
    agree(&["qwest", "run", "--help"]);
    agree(&["qwest", "run", "-h"]);
    agree(&["qwest", "run", "p", "r", "--help"]);
    agree(&["qwest", "set", "-h", "l", "v"]);
    agree(&["qwest", "new", "--help"]);
}

/// A small generator of numbers, the same on every run.
struct Numbers(u64);

impl Numbers {
    fn next(&mut self, below: usize) -> usize {
        self.0 = self.0.wrapping_mul(6364136223846793005).wrapping_add(1442695040888963407);
        ((self.0 >> 33) as usize) % below
    }
}

const WORDS: [&str; 44] = [
    "new", "run", "set", "edit", "delete", "help", "p", "r", "a=b", "=", "x", "", "-", "--",
    "-e", "-ea=b", "-e=a=b", "-ex", "--env", "--env=a=b", "--env=x", "--env-file", "--env-file=f",
    "--format", "--format=raw", "--format=", "--project", "--project=q", "-h", "--help", "-V",
    "--version", "-x", "--bogus", "--bogus=1", "-he", "-eh", "--help=1", "-h=1", "--e", "-p",
    "json", "é", "--é",
];

#[test]
fn lines_made_at_random_are_read_alike() {
    let mut numbers = Numbers(7);
    for _ in 0..30000 {
        let length = numbers.next(7);
        let mut line = vec!["qwest"];
        for place in 0..length {
            // a command comes first more often than not
            let word = if place == 0 && numbers.next(4) != 0 {
                WORDS[numbers.next(6)]
            } else {
                WORDS[numbers.next(WORDS.len())]
            };
            line.push(word);
        }
        agree(&line);
    }
}
