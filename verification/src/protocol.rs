//! What the engine and its driver say to each other. The engine decides; the
//! driver carries out one `Action` at a time and reports back with an `Event`.

use vstd::prelude::*;
use crate::storage::{Variable, VariableView};
use crate::text::{framed, joined, opt_text};
use crate::vars::{pairs_view, Vars};

verus! {

/// The result of a script: either a mapping, whose pairs become variables, or
/// anything else, which is not looked at.
#[derive(Debug)]
pub enum ScriptValue {
    Scalar,
    Mapping(Vec<(String, String)>),
}

/// What the result of a script holds.
pub enum ScriptValueView {
    Scalar,
    Mapping(Seq<(Seq<char>, Seq<char>)>),
}

impl View for ScriptValue {
    type V = ScriptValueView;

    open spec fn view(&self) -> ScriptValueView {
        match self {
            ScriptValue::Scalar => ScriptValueView::Scalar,
            ScriptValue::Mapping(pairs) => ScriptValueView::Mapping(pairs_view(pairs@)),
        }
    }
}

/// A progress message for the user.
#[derive(Debug)]
pub enum Notice {
    /// The request of this name is taken up.
    Request(String),
    /// The script with this description is about to run.
    Script(String),
}

/// What a notice holds.
pub enum NoticeView {
    Request(Seq<char>),
    Script(Seq<char>),
}

impl View for Notice {
    type V = NoticeView;

    open spec fn view(&self) -> NoticeView {
        match self {
            Notice::Request(name) => NoticeView::Request(name@),
            Notice::Script(text) => NoticeView::Script(text@),
        }
    }
}

/// An HTTP call, fully rendered.
#[derive(Debug)]
pub struct HttpCall {
    pub method: String,
    pub url: String,
    pub headers: Vec<(String, String)>,
    pub body: Option<String>,
}

/// What a call holds.
pub struct HttpCallView {
    pub method: Seq<char>,
    pub url: Seq<char>,
    pub headers: Seq<(Seq<char>, Seq<char>)>,
    pub body: Option<Seq<char>>,
}

impl View for HttpCall {
    type V = HttpCallView;

    open spec fn view(&self) -> HttpCallView {
        HttpCallView {
            method: self.method@,
            url: self.url@,
            headers: pairs_view(self.headers@),
            body: opt_text(self.body),
        }
    }
}

/// Why a run ended early.
#[derive(Debug)]
pub enum RunError {
    /// The route names neither a request nor a scenario.
    UnknownRoute { route: String },
    /// A scenario names a request that the project does not have.
    MissingRequest { name: String },
    /// The method of the request is no HTTP method.
    Method { request: String, method: String },
    /// The rendered headers of the request are no JSON object.
    HeaderFormat { request: String },
    /// The call could not be made or its response not be read.
    Transport { request: String, message: String },
    /// A script failed; `description` is that of the script, if it has one.
    Script { description: Option<String>, message: String },
    /// A variable that a script returned could not be persisted.
    Persistence { label: String, message: String },
    /// The driver reported something that the engine had not asked for.
    OutOfTurn,
}

/// What an error of a run holds.
pub enum RunErrorView {
    UnknownRoute { route: Seq<char> },
    MissingRequest { name: Seq<char> },
    Method { request: Seq<char>, method: Seq<char> },
    HeaderFormat { request: Seq<char> },
    Transport { request: Seq<char>, message: Seq<char> },
    Script { description: Option<Seq<char>>, message: Seq<char> },
    Persistence { label: Seq<char>, message: Seq<char> },
    OutOfTurn,
}

impl View for RunError {
    type V = RunErrorView;

    open spec fn view(&self) -> RunErrorView {
        match self {
            RunError::UnknownRoute { route } => RunErrorView::UnknownRoute { route: route@ },
            RunError::MissingRequest { name } => RunErrorView::MissingRequest { name: name@ },
            RunError::Method { request, method } => RunErrorView::Method {
                request: request@,
                method: method@,
            },
            RunError::HeaderFormat { request } => RunErrorView::HeaderFormat { request: request@ },
            RunError::Transport { request, message } => RunErrorView::Transport {
                request: request@,
                message: message@,
            },
            RunError::Script { description, message } => RunErrorView::Script {
                description: opt_text(*description),
                message: message@,
            },
            RunError::Persistence { label, message } => RunErrorView::Persistence {
                label: label@,
                message: message@,
            },
            RunError::OutOfTurn => RunErrorView::OutOfTurn,
        }
    }
}

/// The message for an error, as it is shown to the user.
pub open spec fn error_text(error: RunErrorView) -> Seq<char> {
    match error {
        RunErrorView::UnknownRoute { route } => "unknown route or scenario `"@ + route + "`"@,
        RunErrorView::MissingRequest { name } => "request `"@ + name + "` not found"@,
        RunErrorView::Method { request, method } => "request `"@ + request
            + "`: invalid HTTP method `"@ + method + "`"@,
        RunErrorView::HeaderFormat { request } => "request `"@ + request
            + "`: invalid JSON in headers"@,
        RunErrorView::Transport { request, message } => "request `"@ + request + "`: "@ + message,
        RunErrorView::Script { description, message } => match description {
            Some(text) => "script `"@ + text + "`: "@ + message,
            None => message,
        },
        RunErrorView::Persistence { label, message } => "failed to persist script variable `"@
            + label + "`: "@ + message,
        RunErrorView::OutOfTurn => "an event was reported that had not been asked for"@,
    }
}

impl RunError {
    /// The message for this error.
    pub fn message(&self) -> (s: String)
        ensures
            s@ == error_text(self@),
    {
        match self {
            RunError::UnknownRoute { route } => framed(
                "unknown route or scenario `",
                route.as_str(),
                "`",
            ),
            RunError::MissingRequest { name } => framed("request `", name.as_str(), "` not found"),
            RunError::Method { request, method } => {
                let head = framed("request `", request.as_str(), "`: invalid HTTP method `");
                framed(head.as_str(), method.as_str(), "`")
            },
            RunError::HeaderFormat { request } => framed(
                "request `",
                request.as_str(),
                "`: invalid JSON in headers",
            ),
            RunError::Transport { request, message } => {
                let head = framed("request `", request.as_str(), "`: ");
                joined(head.as_str(), message.as_str())
            },
            RunError::Script { description, message } => match description {
                Some(text) => {
                    let head = framed("script `", text.as_str(), "`: ");
                    joined(head.as_str(), message.as_str())
                },
                None => message.clone(),
            },
            RunError::Persistence { label, message } => {
                let head = framed("failed to persist script variable `", label.as_str(), "`: ");
                joined(head.as_str(), message.as_str())
            },
            RunError::OutOfTurn => "an event was reported that had not been asked for".to_owned(),
        }
    }
}

/// What the driver is to do next.
#[derive(Debug)]
pub enum Action {
    /// Show the notice to the user, then report `Event::Resume`.
    Announce(Notice),
    /// Evaluate `source` with every pair of `bindings` readable by name, then
    /// report `Event::Evaluated` or `Event::Failed`.
    Evaluate { source: String, bindings: Vars },
    /// Persist the variable, then report `Event::Resume` or `Event::Failed`.
    Persist(Variable),
    /// Make the call, then report `Event::Response` or `Event::Failed`.
    Send(HttpCall),
    /// Nothing is left to do.
    Finish,
    /// The run is over: it failed.
    Fail(RunError),
}

/// What an action holds.
pub enum ActionView {
    Announce(NoticeView),
    Evaluate { source: Seq<char>, bindings: Map<Seq<char>, Seq<char>> },
    Persist(VariableView),
    Send(HttpCallView),
    Finish,
    Fail(RunErrorView),
}

impl View for Action {
    type V = ActionView;

    open spec fn view(&self) -> ActionView {
        match self {
            Action::Announce(notice) => ActionView::Announce(notice@),
            Action::Evaluate { source, bindings } => ActionView::Evaluate {
                source: source@,
                bindings: bindings@,
            },
            Action::Persist(variable) => ActionView::Persist(variable@),
            Action::Send(call) => ActionView::Send(call@),
            Action::Finish => ActionView::Finish,
            Action::Fail(error) => ActionView::Fail(error@),
        }
    }
}

/// What the driver reports after an action.
#[derive(Debug)]
pub enum Event {
    /// The action was carried out and there is nothing to tell.
    Resume,
    /// The script was evaluated and gave this value.
    Evaluated(ScriptValue),
    /// The call was made and this response came.
    Response { status: u16, body: String },
    /// The action could not be carried out.
    Failed(String),
}

/// What an event holds.
pub enum EventView {
    Resume,
    Evaluated(ScriptValueView),
    Response { status: u16, body: Seq<char> },
    Failed(Seq<char>),
}

impl View for Event {
    type V = EventView;

    open spec fn view(&self) -> EventView {
        match self {
            Event::Resume => EventView::Resume,
            Event::Evaluated(value) => EventView::Evaluated(value@),
            Event::Response { status, body } => EventView::Response { status: *status, body: body@ },
            Event::Failed(message) => EventView::Failed(message@),
        }
    }
}

} // verus!
