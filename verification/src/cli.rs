//! The command line: `new`, `run`, `set`, `edit` and `delete`, each with its
//! arguments, read from the words that the program was started with.

use vstd::prelude::*;
use crate::text::{chars_of, framed, joined, opt_text, same_text, text_between, texts};
use crate::vars::pairs_view;

verus! {

/// The parsed command line.
#[derive(Debug)]
pub struct Cli {
    pub command: Command,
}

/// What the user asked for.
#[derive(Debug)]
#[allow(inconsistent_fields)]
pub enum Command {
    /// Create a new project and open it in the editor.
    New { project: String },
    /// Run a request or a scenario of a project.
    Run {
        /// A file to load variables from (`--env-file`).
        env_file: Option<String>,
        /// Extra variables (`-e KEY=VALUE`, `--env KEY=VALUE`), in the order given.
        env: Vec<(String, String)>,
        project: String,
        /// The name of a request or of a scenario.
        route: String,
        /// The output format (`--format`); `json` where none is given.
        format: String,
    },
    /// Persist a variable, globally or for one project (`--project`).
    SetVariable { label: String, value: String, project: Option<String> },
    /// Edit an existing project.
    Edit { project: String },
    /// Delete a project.
    Delete { project: String },
}

/// Why a command line was not accepted.
#[derive(Debug)]
pub enum CliError {
    /// Help was asked for.
    Help,
    /// The version was asked for.
    Version,
    /// No command was given.
    MissingCommand,
    /// The first word is none of the commands.
    UnknownCommand(String),
    /// The word looks like an option and the command has none of that name.
    UnknownOption(String),
    /// The option, written as this word, needs a value and none follows.
    MissingValue(String),
    /// The option was given twice and takes one value.
    DuplicateOption(String),
    /// The value of `-e` is no `KEY=VALUE`.
    InvalidPair { text: String, reason: String },
    /// The argument of this name is missing.
    MissingArgument(String),
    /// The word is one argument too many.
    UnexpectedArgument(String),
}

/// What a command holds.
#[allow(inconsistent_fields)]
pub enum CommandView {
    New { project: Seq<char> },
    Run {
        env_file: Option<Seq<char>>,
        env: Seq<(Seq<char>, Seq<char>)>,
        project: Seq<char>,
        route: Seq<char>,
        format: Seq<char>,
    },
    SetVariable { label: Seq<char>, value: Seq<char>, project: Option<Seq<char>> },
    Edit { project: Seq<char> },
    Delete { project: Seq<char> },
}

/// What an error of the command line holds.
pub enum CliErrorView {
    Help,
    Version,
    MissingCommand,
    UnknownCommand(Seq<char>),
    UnknownOption(Seq<char>),
    MissingValue(Seq<char>),
    DuplicateOption(Seq<char>),
    InvalidPair { text: Seq<char>, reason: Seq<char> },
    MissingArgument(Seq<char>),
    UnexpectedArgument(Seq<char>),
}

impl View for Command {
    type V = CommandView;

    open spec fn view(&self) -> CommandView {
        match self {
            Command::New { project } => CommandView::New { project: project@ },
            Command::Run { env_file, env, project, route, format } => CommandView::Run {
                env_file: opt_text(*env_file),
                env: pairs_view(env@),
                project: project@,
                route: route@,
                format: format@,
            },
            Command::SetVariable { label, value, project } => CommandView::SetVariable {
                label: label@,
                value: value@,
                project: opt_text(*project),
            },
            Command::Edit { project } => CommandView::Edit { project: project@ },
            Command::Delete { project } => CommandView::Delete { project: project@ },
        }
    }
}

impl View for Cli {
    type V = CommandView;

    open spec fn view(&self) -> CommandView {
        self.command@
    }
}

impl View for CliError {
    type V = CliErrorView;

    open spec fn view(&self) -> CliErrorView {
        match self {
            CliError::Help => CliErrorView::Help,
            CliError::Version => CliErrorView::Version,
            CliError::MissingCommand => CliErrorView::MissingCommand,
            CliError::UnknownCommand(word) => CliErrorView::UnknownCommand(word@),
            CliError::UnknownOption(word) => CliErrorView::UnknownOption(word@),
            CliError::MissingValue(word) => CliErrorView::MissingValue(word@),
            CliError::DuplicateOption(word) => CliErrorView::DuplicateOption(word@),
            CliError::InvalidPair { text, reason } => CliErrorView::InvalidPair {
                text: text@,
                reason: reason@,
            },
            CliError::MissingArgument(name) => CliErrorView::MissingArgument(name@),
            CliError::UnexpectedArgument(word) => CliErrorView::UnexpectedArgument(word@),
        }
    }
}

/// How the program is used.
pub const USAGE: &'static str = "Usage: qwest <COMMAND>\n\
\n\
Commands:\n\
\x20 new <PROJECT>                      Create a new project and open it in the editor\n\
\x20 run [OPTIONS] <PROJECT> <ROUTE>    Run a request or a scenario of a project\n\
\x20 set [OPTIONS] <LABEL> <VALUE>      Persist a variable\n\
\x20 edit <PROJECT>                     Edit an existing project\n\
\x20 delete <PROJECT>                   Delete a project\n\
\n\
Options of run:\n\
\x20     --env-file <ENV_FILE>    A file to load variables from\n\
\x20 -e, --env <KEY=VALUE>        An extra variable; may be given more than once\n\
\x20     --format <FORMAT>        The output format: json, html, raw [default: json]\n\
\n\
Options of set:\n\
\x20     --project <PROJECT>      The project of the variable; global without it\n";

/// How the program is used.
pub open spec fn usage_text() -> Seq<char> {
    USAGE@
}

/// How the program is used.
pub fn usage() -> (s: String)
    ensures
        s@ == usage_text(),
{
    USAGE.to_owned()
}

/// The message for an error of the command line.
pub open spec fn cli_error_text(error: CliErrorView) -> Seq<char> {
    match error {
        CliErrorView::Help => usage_text(),
        CliErrorView::Version => "qwest"@,
        CliErrorView::MissingCommand => "a command is required"@,
        CliErrorView::UnknownCommand(word) => "unrecognized command `"@ + word + "`"@,
        CliErrorView::UnknownOption(word) => "unexpected option `"@ + word + "`"@,
        CliErrorView::MissingValue(word) => "a value is required for `"@ + word + "`"@,
        CliErrorView::DuplicateOption(word) => "the option `"@ + word
            + "` cannot be used more than once"@,
        CliErrorView::InvalidPair { text, reason } => reason,
        CliErrorView::MissingArgument(name) => "the argument <"@ + name + "> is required"@,
        CliErrorView::UnexpectedArgument(word) => "unexpected argument `"@ + word + "`"@,
    }
}

impl CliError {
    /// The message for this error.
    pub fn message(&self) -> (s: String)
        ensures
            s@ == cli_error_text(self@),
    {
        match self {
            CliError::Help => usage(),
            CliError::Version => "qwest".to_owned(),
            CliError::MissingCommand => "a command is required".to_owned(),
            CliError::UnknownCommand(word) => framed("unrecognized command `", word.as_str(), "`"),
            CliError::UnknownOption(word) => framed("unexpected option `", word.as_str(), "`"),
            CliError::MissingValue(word) => framed("a value is required for `", word.as_str(), "`"),
            CliError::DuplicateOption(word) => framed(
                "the option `",
                word.as_str(),
                "` cannot be used more than once",
            ),
            CliError::InvalidPair { text, reason } => reason.clone(),
            CliError::MissingArgument(name) => framed(
                "the argument <",
                name.as_str(),
                "> is required",
            ),
            CliError::UnexpectedArgument(word) => framed(
                "unexpected argument `",
                word.as_str(),
                "`",
            ),
        }
    }

    /// Whether this is no mistake of the user: help or the version was asked
    /// for.
    pub fn is_request(&self) -> (b: bool)
        ensures
            b == (self@ is Help || self@ is Version),
    {
        match self {
            CliError::Help => true,
            CliError::Version => true,
            _ => false,
        }
    }
}

/// The position of the first `c` in `s`, or the length of `s` if there is
/// none.
pub open spec fn position_of(s: Seq<char>, c: char) -> int
    decreases s.len(),
{
    if s.len() == 0 || s[0] == c {
        0
    } else {
        1 + position_of(s.skip(1), c)
    }
}

/// The key and the value of a `KEY=VALUE` text: what stands before the first
/// `=` and what stands after it. `None` for a text without `=`.
pub open spec fn key_value(s: Seq<char>) -> Option<(Seq<char>, Seq<char>)> {
    let at = position_of(s, '=');
    if at < s.len() {
        Some((s.take(at), s.skip(at + 1)))
    } else {
        None
    }
}

/// The message for a text that is no `KEY=VALUE`.
pub open spec fn no_pair_message(s: Seq<char>) -> Seq<char> {
    "invalid KEY=VALUE: no `=` found in `"@ + s + "`"@
}

/// The position of the first `c` in `chars` at or after `from`.
fn find_char(chars: &Vec<char>, from: usize, c: char) -> (at: usize)
    requires
        from <= chars.len(),
    ensures
        from <= at <= chars.len(),
        at == from + position_of(chars@.skip(from as int), c),
{
    let mut at: usize = from;
    while at < chars.len() && chars[at] != c
        invariant
            from <= at <= chars.len(),
            position_of(chars@.skip(from as int), c) == (at - from) + position_of(
                chars@.skip(at as int),
                c,
            ),
        decreases chars.len() - at,
    {
        assert(chars@.skip(at as int).skip(1) =~= chars@.skip(at + 1));
        at += 1;
    }
    at
}

/// Splits `KEY=VALUE` at its first `=`.
pub fn parse_key_val(s: &str) -> (r: Result<(String, String), String>)
    ensures
        match r {
            Ok(pair) => key_value(s@) == Some((pair.0@, pair.1@)),
            Err(message) => key_value(s@) is None && message@ == no_pair_message(s@),
        },
{
    let chars = chars_of(s);
    assert(chars@.skip(0) =~= chars@);
    let at = find_char(&chars, 0, '=');
    if at < chars.len() {
        let key = text_between(&chars, 0, at);
        let value = text_between(&chars, at + 1, chars.len());
        Ok((key, value))
    } else {
        let head = joined("invalid KEY=VALUE: no `=` found in `", s);
        Err(joined(head.as_str(), "`"))
    }
}

/// A word of the command line, told apart by its shape.
#[derive(Debug)]
pub enum Word {
    /// An argument.
    Plain(String),
    /// `--`: every word after it is an argument.
    Separator,
    /// `--name` or `--name=value`.
    Long { name: String, value: Option<String> },
    /// `-f`, `-fvalue` or `-f=value`.
    Short { flag: char, value: Option<String> },
}

/// What a word holds.
pub enum WordView {
    Plain(Seq<char>),
    Separator,
    Long { name: Seq<char>, value: Option<Seq<char>> },
    Short { flag: char, value: Option<Seq<char>> },
}

impl View for Word {
    type V = WordView;

    open spec fn view(&self) -> WordView {
        match self {
            Word::Plain(text) => WordView::Plain(text@),
            Word::Separator => WordView::Separator,
            Word::Long { name, value } => WordView::Long { name: name@, value: opt_text(*value) },
            Word::Short { flag, value } => WordView::Short { flag: *flag, value: opt_text(*value) },
        }
    }
}

/// Whether a word is written like an option: a `-` and at least one more
/// character.
pub open spec fn looks_like_option(w: Seq<char>) -> bool {
    w.len() >= 2 && w[0] == '-'
}

/// The shape of a word.
pub open spec fn shaped(w: Seq<char>) -> WordView {
    if !looks_like_option(w) {
        WordView::Plain(w)
    } else if w[1] == '-' {
        if w.len() == 2 {
            WordView::Separator
        } else if position_of(w.skip(2), '=') < w.len() - 2 {
            WordView::Long {
                name: w.subrange(2, 2 + position_of(w.skip(2), '=')),
                value: Some(w.skip(3 + position_of(w.skip(2), '='))),
            }
        } else {
            WordView::Long { name: w.skip(2), value: None }
        }
    } else if w.len() == 2 {
        WordView::Short { flag: w[1], value: None }
    } else if w[2] == '=' {
        WordView::Short { flag: w[1], value: Some(w.skip(3)) }
    } else {
        WordView::Short { flag: w[1], value: Some(w.skip(2)) }
    }
}

/// Tells the shape of a word.
pub fn shape(word: &str) -> (w: Word)
    ensures
        w@ == shaped(word@),
{
    let chars = chars_of(word);
    let n = chars.len();
    if n < 2 || chars[0] != '-' {
        return Word::Plain(word.to_owned());
    }
    if chars[1] == '-' {
        if n == 2 {
            return Word::Separator;
        }
        let at = find_char(&chars, 2, '=');
        if at < n {
            let name = text_between(&chars, 2, at);
            let value = text_between(&chars, at + 1, n);
            assert(chars@.subrange(at + 1, n as int) =~= chars@.skip(at + 1));
            Word::Long { name, value: Some(value) }
        } else {
            let name = text_between(&chars, 2, n);
            assert(chars@.subrange(2, n as int) =~= chars@.skip(2));
            Word::Long { name, value: None }
        }
    } else if n == 2 {
        Word::Short { flag: chars[1], value: None }
    } else {
        let from: usize = if chars[2] == '=' {
            3
        } else {
            2
        };
        let value = text_between(&chars, from, n);
        assert(chars@.subrange(from as int, n as int) =~= chars@.skip(from as int));
        Word::Short { flag: chars[1], value: Some(value) }
    }
}

/// The commands.
#[derive(Debug, Clone, Copy, PartialEq, Eq, Structural)]
pub enum Verb {
    New,
    Run,
    SetVariable,
    Edit,
    Delete,
}

/// The options that take a value.
#[derive(Debug, Clone, Copy, PartialEq, Eq, Structural)]
pub enum Switch {
    EnvFile,
    Env,
    Format,
    Project,
}

/// The command that a word names.
pub open spec fn verb_of(w: Seq<char>) -> Option<Verb> {
    if w == "new"@ {
        Some(Verb::New)
    } else if w == "run"@ {
        Some(Verb::Run)
    } else if w == "set"@ {
        Some(Verb::SetVariable)
    } else if w == "edit"@ {
        Some(Verb::Edit)
    } else if w == "delete"@ {
        Some(Verb::Delete)
    } else {
        None
    }
}

/// The option that a long name stands for.
pub open spec fn long_switch(name: Seq<char>) -> Option<Switch> {
    if name == "env-file"@ {
        Some(Switch::EnvFile)
    } else if name == "env"@ {
        Some(Switch::Env)
    } else if name == "format"@ {
        Some(Switch::Format)
    } else if name == "project"@ {
        Some(Switch::Project)
    } else {
        None
    }
}

/// The option that a short flag stands for.
pub open spec fn short_switch(flag: char) -> Option<Switch> {
    if flag == 'e' {
        Some(Switch::Env)
    } else {
        None
    }
}

/// Whether the command has the option.
pub open spec fn takes(verb: Verb, switch: Switch) -> bool {
    match (verb, switch) {
        (Verb::Run, Switch::EnvFile) => true,
        (Verb::Run, Switch::Env) => true,
        (Verb::Run, Switch::Format) => true,
        (Verb::SetVariable, Switch::Project) => true,
        _ => false,
    }
}

/// How many arguments the command has.
pub open spec fn arity(verb: Verb) -> int {
    match verb {
        Verb::Run => 2,
        Verb::SetVariable => 2,
        _ => 1,
    }
}

/// What has been read of a command's words.
#[derive(Debug)]
pub struct Gathered {
    pub env_file: Option<String>,
    pub env: Vec<(String, String)>,
    pub format: Option<String>,
    pub project: Option<String>,
    pub plain: Vec<String>,
}

/// What has been read, as texts.
pub struct GatheredView {
    pub env_file: Option<Seq<char>>,
    pub env: Seq<(Seq<char>, Seq<char>)>,
    pub format: Option<Seq<char>>,
    pub project: Option<Seq<char>>,
    pub plain: Seq<Seq<char>>,
}

/// The texts of a list of words.
pub open spec fn words_of(args: Seq<&str>) -> Seq<Seq<char>> {
    args.map_values(|w: &str| w@)
}

impl View for Gathered {
    type V = GatheredView;

    open spec fn view(&self) -> GatheredView {
        GatheredView {
            env_file: opt_text(self.env_file),
            env: pairs_view(self.env@),
            format: opt_text(self.format),
            project: opt_text(self.project),
            plain: texts(self.plain@),
        }
    }
}

/// Nothing read yet.
pub open spec fn nothing() -> GatheredView {
    GatheredView {
        env_file: None,
        env: Seq::empty(),
        format: None,
        project: None,
        plain: Seq::empty(),
    }
}

/// `g` with `value` noted for `switch`. An option that takes one value is
/// refused the second time; the value of `-e` must be a `KEY=VALUE`.
pub open spec fn noted(g: GatheredView, switch: Switch, value: Seq<char>) -> Result<
    GatheredView,
    CliErrorView,
> {
    match switch {
        Switch::EnvFile => if g.env_file is Some {
            Err(CliErrorView::DuplicateOption("--env-file"@))
        } else {
            Ok(GatheredView { env_file: Some(value), ..g })
        },
        Switch::Format => if g.format is Some {
            Err(CliErrorView::DuplicateOption("--format"@))
        } else {
            Ok(GatheredView { format: Some(value), ..g })
        },
        Switch::Project => if g.project is Some {
            Err(CliErrorView::DuplicateOption("--project"@))
        } else {
            Ok(GatheredView { project: Some(value), ..g })
        },
        Switch::Env => match key_value(value) {
            Some(pair) => Ok(GatheredView { env: g.env.push(pair), ..g }),
            None => Err(CliErrorView::InvalidPair { text: value, reason: no_pair_message(value) }),
        },
    }
}

/// The word at `at` read as an argument.
pub open spec fn argument_read(verb: Verb, w: Seq<char>, at: int, literal: bool, g: GatheredView) -> Result<
    (int, bool, GatheredView),
    CliErrorView,
> {
    if g.plain.len() >= arity(verb) {
        Err(CliErrorView::UnexpectedArgument(w))
    } else {
        Ok((at + 1, literal, GatheredView { plain: g.plain.push(w), ..g }))
    }
}

/// The option at `at` read with its value: the one written in the same word,
/// else the next word, unless that one looks like an option.
pub open spec fn option_read(
    verb: Verb,
    words: Seq<Seq<char>>,
    at: int,
    found: Option<Switch>,
    inline: Option<Seq<char>>,
    g: GatheredView,
) -> Result<(int, bool, GatheredView), CliErrorView> {
    match found {
        Some(switch) => if !takes(verb, switch) {
            Err(CliErrorView::UnknownOption(words[at]))
        } else {
            match inline {
                Some(value) => match noted(g, switch, value) {
                    Ok(more) => Ok((at + 1, false, more)),
                    Err(e) => Err(e),
                },
                None => if at + 1 < words.len() && !looks_like_option(words[at + 1]) {
                    match noted(g, switch, words[at + 1]) {
                        Ok(more) => Ok((at + 2, false, more)),
                        Err(e) => Err(e),
                    }
                } else {
                    Err(CliErrorView::MissingValue(words[at]))
                },
            }
        },
        None => Err(CliErrorView::UnknownOption(words[at])),
    }
}

/// The word at `at` read: where reading goes on, whether only arguments
/// follow, and what has been read by then.
pub open spec fn word_read(verb: Verb, words: Seq<Seq<char>>, at: int, literal: bool, g: GatheredView) -> Result<
    (int, bool, GatheredView),
    CliErrorView,
> {
    if literal {
        argument_read(verb, words[at], at, true, g)
    } else {
        match shaped(words[at]) {
            WordView::Plain(_) => argument_read(verb, words[at], at, false, g),
            WordView::Separator => Ok((at + 1, true, g)),
            WordView::Long { name, value } => if name == "help"@ && value is None {
                Err(CliErrorView::Help)
            } else {
                option_read(verb, words, at, long_switch(name), value, g)
            },
            WordView::Short { flag, value } => if flag == 'h' {
                Err(CliErrorView::Help)
            } else {
                option_read(verb, words, at, short_switch(flag), value, g)
            },
        }
    }
}

/// The words from `at` on read, one after another.
pub open spec fn words_read(verb: Verb, words: Seq<Seq<char>>, at: int, literal: bool, g: GatheredView) -> Result<
    GatheredView,
    CliErrorView,
>
    decreases words.len() - at,
{
    if at < 0 || at >= words.len() {
        Ok(g)
    } else {
        match word_read(verb, words, at, literal, g) {
            Ok((next, only, more)) => if next > at {
                words_read(verb, words, next, only, more)
            } else {
                Ok(more)
            },
            Err(e) => Err(e),
        }
    }
}

/// The command made of what was read, if every argument is there.
pub open spec fn assembled(verb: Verb, g: GatheredView) -> Result<CommandView, CliErrorView> {
    match verb {
        Verb::Run => if g.plain.len() < 1 {
            Err(CliErrorView::MissingArgument("project"@))
        } else if g.plain.len() < 2 {
            Err(CliErrorView::MissingArgument("route"@))
        } else {
            Ok(
                CommandView::Run {
                    env_file: g.env_file,
                    env: g.env,
                    project: g.plain[0],
                    route: g.plain[1],
                    format: match g.format {
                        Some(f) => f,
                        None => "json"@,
                    },
                },
            )
        },
        Verb::SetVariable => if g.plain.len() < 1 {
            Err(CliErrorView::MissingArgument("label"@))
        } else if g.plain.len() < 2 {
            Err(CliErrorView::MissingArgument("value"@))
        } else {
            Ok(
                CommandView::SetVariable {
                    label: g.plain[0],
                    value: g.plain[1],
                    project: g.project,
                },
            )
        },
        Verb::New => if g.plain.len() < 1 {
            Err(CliErrorView::MissingArgument("project"@))
        } else {
            Ok(CommandView::New { project: g.plain[0] })
        },
        Verb::Edit => if g.plain.len() < 1 {
            Err(CliErrorView::MissingArgument("project"@))
        } else {
            Ok(CommandView::Edit { project: g.plain[0] })
        },
        Verb::Delete => if g.plain.len() < 1 {
            Err(CliErrorView::MissingArgument("project"@))
        } else {
            Ok(CommandView::Delete { project: g.plain[0] })
        },
    }
}

/// What `help` as the first word means: help, if nothing follows it or one
/// command does.
pub open spec fn help_asked(words: Seq<Seq<char>>) -> CliErrorView {
    if words.len() == 2 {
        CliErrorView::Help
    } else if verb_of(words[2]) is None && words[2] != "help"@ {
        CliErrorView::UnknownCommand(words[2])
    } else if words.len() == 3 {
        CliErrorView::Help
    } else {
        CliErrorView::UnexpectedArgument(words[3])
    }
}

/// What a first word means that names no command.
pub open spec fn no_command(words: Seq<Seq<char>>) -> CliErrorView {
    match shaped(words[1]) {
        WordView::Plain(word) => if word == "help"@ {
            help_asked(words)
        } else {
            CliErrorView::UnknownCommand(word)
        },
        WordView::Separator => CliErrorView::UnknownOption(words[1]),
        WordView::Long { name, value } => if name == "help"@ && value is None {
            CliErrorView::Help
        } else if name == "version"@ && value is None {
            CliErrorView::Version
        } else {
            CliErrorView::UnknownOption(words[1])
        },
        WordView::Short { flag, value } => if flag == 'h' {
            CliErrorView::Help
        } else if flag == 'V' {
            CliErrorView::Version
        } else {
            CliErrorView::UnknownOption(words[1])
        },
    }
}

/// What a command line means. The first word is the program's name; the
/// second names the command; the rest are its options and arguments.
pub open spec fn parsed(words: Seq<Seq<char>>) -> Result<CommandView, CliErrorView> {
    if words.len() < 2 {
        Err(CliErrorView::MissingCommand)
    } else {
        match verb_of(words[1]) {
            Some(verb) => match words_read(verb, words, 2, false, nothing()) {
                Ok(g) => assembled(verb, g),
                Err(e) => Err(e),
            },
            None => Err(no_command(words)),
        }
    }
}

fn verb(word: &str) -> (v: Option<Verb>)
    ensures
        v == verb_of(word@),
{
    if same_text(word, "new") {
        Some(Verb::New)
    } else if same_text(word, "run") {
        Some(Verb::Run)
    } else if same_text(word, "set") {
        Some(Verb::SetVariable)
    } else if same_text(word, "edit") {
        Some(Verb::Edit)
    } else if same_text(word, "delete") {
        Some(Verb::Delete)
    } else {
        None
    }
}

fn long_named(name: &str) -> (s: Option<Switch>)
    ensures
        s == long_switch(name@),
{
    if same_text(name, "env-file") {
        Some(Switch::EnvFile)
    } else if same_text(name, "env") {
        Some(Switch::Env)
    } else if same_text(name, "format") {
        Some(Switch::Format)
    } else if same_text(name, "project") {
        Some(Switch::Project)
    } else {
        None
    }
}

fn has_option(verb: Verb, switch: Switch) -> (b: bool)
    ensures
        b == takes(verb, switch),
{
    match verb {
        Verb::Run => match switch {
            Switch::Project => false,
            _ => true,
        },
        Verb::SetVariable => match switch {
            Switch::Project => true,
            _ => false,
        },
        _ => false,
    }
}

fn argument_count(verb: Verb) -> (n: usize)
    ensures
        n == arity(verb),
{
    match verb {
        Verb::Run => 2,
        Verb::SetVariable => 2,
        _ => 1,
    }
}

fn is_option_like(word: &str) -> (b: bool)
    ensures
        b == looks_like_option(word@),
{
    let chars = chars_of(word);
    chars.len() >= 2 && chars[0] == '-'
}

impl Gathered {
    /// Nothing read yet.
    pub fn new() -> (g: Gathered)
        ensures
            g@ == nothing(),
    {
        let g = Gathered {
            env_file: None,
            env: Vec::new(),
            format: None,
            project: None,
            plain: Vec::new(),
        };
        assert(pairs_view(g.env@) =~= Seq::empty());
        assert(texts(g.plain@) =~= Seq::empty());
        g
    }

    /// Notes `value` for `switch`.
    pub fn note(&mut self, switch: Switch, value: String) -> (r: Result<(), CliError>)
        ensures
            match r {
                Ok(()) => noted(old(self)@, switch, value@) == Ok::<GatheredView, CliErrorView>(
                    final(self)@,
                ),
                Err(e) => noted(old(self)@, switch, value@) == Err::<GatheredView, CliErrorView>(
                    e@,
                ) && final(self)@ == old(self)@,
            },
    {
        match switch {
            Switch::EnvFile => {
                if self.env_file.is_some() {
                    return Err(CliError::DuplicateOption("--env-file".to_owned()));
                }
                self.env_file = Some(value);
            },
            Switch::Format => {
                if self.format.is_some() {
                    return Err(CliError::DuplicateOption("--format".to_owned()));
                }
                self.format = Some(value);
            },
            Switch::Project => {
                if self.project.is_some() {
                    return Err(CliError::DuplicateOption("--project".to_owned()));
                }
                self.project = Some(value);
            },
            Switch::Env => match parse_key_val(value.as_str()) {
                Ok(pair) => {
                    let ghost prior = self.env@;
                    self.env.push(pair);
                    assert(pairs_view(self.env@) =~= pairs_view(prior).push((pair.0@, pair.1@)));
                },
                Err(reason) => {
                    return Err(CliError::InvalidPair { text: value, reason });
                },
            },
        }
        Ok(())
    }

    fn argument(&mut self, verb: Verb, word: &str, at: usize, literal: bool) -> (r: Result<
        (usize, bool),
        CliError,
    >)
        requires
            at < usize::MAX,
        ensures
            match r {
                Ok((next, only)) => argument_read(verb, word@, at as int, literal, old(self)@)
                    == Ok::<(int, bool, GatheredView), CliErrorView>(
                    (next as int, only, final(self)@),
                ),
                Err(e) => argument_read(verb, word@, at as int, literal, old(self)@) == Err::<
                    (int, bool, GatheredView),
                    CliErrorView,
                >(e@),
            },
    {
        if self.plain.len() >= argument_count(verb) {
            return Err(CliError::UnexpectedArgument(word.to_owned()));
        }
        let ghost prior = self.plain@;
        self.plain.push(word.to_owned());
        assert(texts(self.plain@) =~= texts(prior).push(word@));
        Ok((at + 1, literal))
    }

    fn option(
        &mut self,
        verb: Verb,
        args: &[&str],
        at: usize,
        found: Option<Switch>,
        inline: Option<String>,
    ) -> (r: Result<(usize, bool), CliError>)
        requires
            at < args.len(),
        ensures
            match r {
                Ok((next, only)) => option_read(
                    verb,
                    words_of(args@),
                    at as int,
                    found,
                    opt_text(inline),
                    old(self)@,
                ) == Ok::<(int, bool, GatheredView), CliErrorView>(
                    (next as int, only, final(self)@),
                ),
                Err(e) => option_read(
                    verb,
                    words_of(args@),
                    at as int,
                    found,
                    opt_text(inline),
                    old(self)@,
                ) == Err::<(int, bool, GatheredView), CliErrorView>(e@),
            },
    {
        let count = args.len();
        let switch = match found {
            Some(switch) => switch,
            None => {
                return Err(CliError::UnknownOption(args[at].to_owned()));
            },
        };
        if !has_option(verb, switch) {
            return Err(CliError::UnknownOption(args[at].to_owned()));
        }
        match inline {
            Some(value) => match self.note(switch, value) {
                Ok(()) => Ok((at + 1, false)),
                Err(e) => Err(e),
            },
            None => {
                if at + 1 < count && !is_option_like(args[at + 1]) {
                    match self.note(switch, args[at + 1].to_owned()) {
                        Ok(()) => Ok((at + 2, false)),
                        Err(e) => Err(e),
                    }
                } else {
                    Err(CliError::MissingValue(args[at].to_owned()))
                }
            },
        }
    }

    /// Reads the word at `at`.
    fn read(&mut self, verb: Verb, args: &[&str], at: usize, literal: bool) -> (r: Result<
        (usize, bool),
        CliError,
    >)
        requires
            at < args.len(),
        ensures
            match r {
                Ok((next, only)) => word_read(
                    verb,
                    words_of(args@),
                    at as int,
                    literal,
                    old(self)@,
                ) == Ok::<(int, bool, GatheredView), CliErrorView>(
                    (next as int, only, final(self)@),
                ) && at < next <= args.len(),
                Err(e) => word_read(verb, words_of(args@), at as int, literal, old(self)@)
                    == Err::<(int, bool, GatheredView), CliErrorView>(e@),
            },
    {
        let count = args.len();
        if literal {
            return self.argument(verb, args[at], at, true);
        }
        match shape(args[at]) {
            Word::Plain(_) => self.argument(verb, args[at], at, false),
            Word::Separator => Ok((at + 1, true)),
            Word::Long { name, value } => {
                if same_text(name.as_str(), "help") && value.is_none() {
                    Err(CliError::Help)
                } else {
                    let found = long_named(name.as_str());
                    self.option(verb, args, at, found, value)
                }
            },
            Word::Short { flag, value } => {
                if flag == 'h' {
                    Err(CliError::Help)
                } else {
                    let found = if flag == 'e' {
                        Some(Switch::Env)
                    } else {
                        None
                    };
                    self.option(verb, args, at, found, value)
                }
            },
        }
    }

    /// Makes the command of what was read.
    pub fn assemble(self, verb: Verb) -> (r: Result<Command, CliError>)
        ensures
            match r {
                Ok(command) => assembled(verb, self@) == Ok::<CommandView, CliErrorView>(command@),
                Err(e) => assembled(verb, self@) == Err::<CommandView, CliErrorView>(e@),
            },
    {
        let count = self.plain.len();
        assert(count == self@.plain.len());
        let first: &str = match verb {
            Verb::SetVariable => "label",
            _ => "project",
        };
        if count < 1 {
            return Err(CliError::MissingArgument(first.to_owned()));
        }
        let one = self.plain[0].clone();
        match verb {
            Verb::New => Ok(Command::New { project: one }),
            Verb::Edit => Ok(Command::Edit { project: one }),
            Verb::Delete => Ok(Command::Delete { project: one }),
            Verb::Run => {
                if count < 2 {
                    return Err(CliError::MissingArgument("route".to_owned()));
                }
                let two = self.plain[1].clone();
                let format = match self.format {
                    Some(f) => f,
                    None => "json".to_owned(),
                };
                Ok(
                    Command::Run {
                        env_file: self.env_file,
                        env: self.env,
                        project: one,
                        route: two,
                        format,
                    },
                )
            },
            Verb::SetVariable => {
                if count < 2 {
                    return Err(CliError::MissingArgument("value".to_owned()));
                }
                let two = self.plain[1].clone();
                Ok(Command::SetVariable { label: one, value: two, project: self.project })
            },
        }
    }
}

/// Says why a first word that names no command is refused.
fn refuse(args: &[&str]) -> (e: CliError)
    requires
        args.len() >= 2,
    ensures
        e@ == no_command(words_of(args@)),
{
    let count = args.len();
    match shape(args[1]) {
        Word::Plain(word) => {
            if !same_text(word.as_str(), "help") {
                CliError::UnknownCommand(word)
            } else if count == 2 {
                CliError::Help
            } else if verb(args[2]).is_none() && !same_text(args[2], "help") {
                CliError::UnknownCommand(args[2].to_owned())
            } else if count == 3 {
                CliError::Help
            } else {
                CliError::UnexpectedArgument(args[3].to_owned())
            }
        },
        Word::Separator => CliError::UnknownOption(args[1].to_owned()),
        Word::Long { name, value } => {
            if same_text(name.as_str(), "help") && value.is_none() {
                CliError::Help
            } else if same_text(name.as_str(), "version") && value.is_none() {
                CliError::Version
            } else {
                CliError::UnknownOption(args[1].to_owned())
            }
        },
        Word::Short { flag, value } => {
            if flag == 'h' {
                CliError::Help
            } else if flag == 'V' {
                CliError::Version
            } else {
                CliError::UnknownOption(args[1].to_owned())
            }
        },
    }
}

impl Cli {
    /// Reads a command line. `args[0]` is the program's name.
    pub fn try_parse_from(args: &[&str]) -> (r: Result<Cli, CliError>)
        ensures
            match r {
                Ok(cli) => parsed(words_of(args@)) == Ok::<CommandView, CliErrorView>(cli@),
                Err(e) => parsed(words_of(args@)) == Err::<CommandView, CliErrorView>(e@),
            },
    {
        let count = args.len();
        if count < 2 {
            return Err(CliError::MissingCommand);
        }
        let ghost words = words_of(args@);
        let verb = match verb(args[1]) {
            Some(verb) => verb,
            None => {
                return Err(refuse(args));
            },
        };
        let mut gathered = Gathered::new();
        let mut at: usize = 2;
        let mut literal = false;
        while at < count
            invariant
                2 <= at <= count,
                count == args.len(),
                words == words_of(args@),
                verb_of(words[1]) == Some(verb),
                words_read(verb, words, 2, false, nothing()) == words_read(
                    verb,
                    words,
                    at as int,
                    literal,
                    gathered@,
                ),
            decreases count - at,
        {
            let ghost prior = gathered@;
            match gathered.read(verb, args, at, literal) {
                Ok((next, only)) => {
                    assert(words_read(verb, words, at as int, literal, prior) == words_read(
                        verb,
                        words,
                        next as int,
                        only,
                        gathered@,
                    ));
                    at = next;
                    literal = only;
                },
                Err(e) => {
                    assert(words_read(verb, words, at as int, literal, prior) == Err::<
                        GatheredView,
                        CliErrorView,
                    >(e@));
                    return Err(e);
                },
            }
        }
        match gathered.assemble(verb) {
            Ok(command) => Ok(Cli { command }),
            Err(e) => Err(e),
        }
    }
}

} // verus!
