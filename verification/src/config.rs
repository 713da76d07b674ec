//! The project definition: an API block and the requests that can be run
//! against it. It is read, never changed, by the engine.

use vstd::prelude::*;
use crate::text::{framed, joined, opt_text, same_text, texts};

verus! {

/// A script attached to a request.
#[derive(Debug)]
pub struct Script {
    /// `true`: it runs before the request is sent; `false`: after the
    /// response has come.
    pub before: bool,
    /// The source text of the script.
    pub script: String,
    /// Shown to the user before the script runs, if present.
    pub description: Option<String>,
}

/// One request of a project.
#[derive(Debug)]
pub struct Request {
    pub name: String,
    pub method: String,
    pub path: String,
    /// A JSON object as text, with placeholders.
    pub headers: Option<String>,
    /// The body as text, with placeholders.
    pub body: Option<String>,
    /// The scripts of this request, in the order in which they run.
    pub scripts: Vec<Script>,
}

/// A named, ordered list of request names.
#[derive(Debug)]
pub struct Scenario {
    pub name: String,
    pub requests: Vec<String>,
}

/// The API block of a project.
#[derive(Debug)]
pub struct Api {
    pub name: String,
    pub base_url: String,
    pub scenarios: Vec<Scenario>,
}

/// A whole project definition.
#[derive(Debug)]
pub struct ProjectConfig {
    pub api: Api,
    pub requests: Vec<Request>,
}

/// What a script holds.
pub struct ScriptView {
    pub before: bool,
    pub script: Seq<char>,
    pub description: Option<Seq<char>>,
}

/// What a request holds.
pub struct RequestView {
    pub name: Seq<char>,
    pub method: Seq<char>,
    pub path: Seq<char>,
    pub headers: Option<Seq<char>>,
    pub body: Option<Seq<char>>,
    pub scripts: Seq<ScriptView>,
}

/// What a scenario holds.
pub struct ScenarioView {
    pub name: Seq<char>,
    pub requests: Seq<Seq<char>>,
}

/// What an API block holds.
pub struct ApiView {
    pub name: Seq<char>,
    pub base_url: Seq<char>,
    pub scenarios: Seq<ScenarioView>,
}

/// What a project definition holds.
pub struct ProjectView {
    pub api: ApiView,
    pub requests: Seq<RequestView>,
}

impl View for Script {
    type V = ScriptView;

    open spec fn view(&self) -> ScriptView {
        ScriptView {
            before: self.before,
            script: self.script@,
            description: opt_text(self.description),
        }
    }
}

/// The views of a list of scripts.
pub open spec fn script_views(list: Seq<Script>) -> Seq<ScriptView> {
    list.map_values(|s: Script| s@)
}

impl View for Request {
    type V = RequestView;

    open spec fn view(&self) -> RequestView {
        RequestView {
            name: self.name@,
            method: self.method@,
            path: self.path@,
            headers: opt_text(self.headers),
            body: opt_text(self.body),
            scripts: script_views(self.scripts@),
        }
    }
}

impl View for Scenario {
    type V = ScenarioView;

    open spec fn view(&self) -> ScenarioView {
        ScenarioView { name: self.name@, requests: texts(self.requests@) }
    }
}

impl View for Api {
    type V = ApiView;

    open spec fn view(&self) -> ApiView {
        ApiView {
            name: self.name@,
            base_url: self.base_url@,
            scenarios: self.scenarios@.map_values(|s: Scenario| s@),
        }
    }
}

impl View for ProjectConfig {
    type V = ProjectView;

    open spec fn view(&self) -> ProjectView {
        ProjectView { api: self.api@, requests: self.requests@.map_values(|r: Request| r@) }
    }
}

/// The position of the first request called `name`, or the number of requests
/// if there is none.
pub open spec fn request_position(requests: Seq<RequestView>, name: Seq<char>) -> int
    decreases requests.len(),
{
    if requests.len() == 0 || requests[0].name == name {
        0
    } else {
        1 + request_position(requests.skip(1), name)
    }
}

/// The position of the first scenario called `name`, or the number of
/// scenarios if there is none.
pub open spec fn scenario_position(scenarios: Seq<ScenarioView>, name: Seq<char>) -> int
    decreases scenarios.len(),
{
    if scenarios.len() == 0 || scenarios[0].name == name {
        0
    } else {
        1 + scenario_position(scenarios.skip(1), name)
    }
}

/// `request_position` points at the first request of that name and nowhere
/// else.
pub proof fn lemma_request_position(requests: Seq<RequestView>, name: Seq<char>)
    ensures
        0 <= request_position(requests, name) <= requests.len(),
        request_position(requests, name) < requests.len() ==> requests[request_position(
            requests,
            name,
        )].name == name,
        forall|i: int|
            0 <= i < request_position(requests, name) ==> (#[trigger] requests[i]).name != name,
    decreases requests.len(),
{
    if !(requests.len() == 0 || requests[0].name == name) {
        let rest = requests.skip(1);
        lemma_request_position(rest, name);
        assert forall|i: int| 0 <= i < request_position(requests, name) implies (
        #[trigger] requests[i]).name != name by {
            if i > 0 {
                assert(rest[i - 1] == requests[i]);
            }
        }
    }
}

/// The name of the file that holds the project `project`.
pub open spec fn file_name_of(project: Seq<char>) -> Seq<char> {
    project + ".toml"@
}

/// The name of the file that holds the project `project`.
pub fn project_file_name(project: &str) -> (name: String)
    ensures
        name@ == file_name_of(project@),
{
    joined(project, ".toml")
}

/// What stands before the project's name in the file of a new project.
pub const NEW_PROJECT_HEAD: &'static str = "[api]\nname = \"";

/// What stands after the project's name in the file of a new project: no
/// scenario, and one request as an example.
pub const NEW_PROJECT_TAIL: &'static str = "\"\n\
base_url = \"\"\n\
\n\
[api.scenarios]\n\
\n\
[[requests]]\n\
name   = \"docs\"\n\
method = \"GET\"\n\
path   = \"/docs\"\n\
\n";

/// The text with which the file of a new project starts: an API block that
/// carries the project's name, no scenario, and one request as an example.
pub open spec fn new_project(project: Seq<char>) -> Seq<char> {
    NEW_PROJECT_HEAD@ + project + NEW_PROJECT_TAIL@
}

/// The text with which the file of the new project `project` starts.
pub fn new_project_text(project: &str) -> (text: String)
    ensures
        text@ == new_project(project@),
{
    framed(NEW_PROJECT_HEAD, project, NEW_PROJECT_TAIL)
}

impl ProjectConfig {
    /// The position of the first request called `name`.
    pub fn find_request(&self, name: &str) -> (r: Option<usize>)
        ensures
            match r {
                Some(i) => i < self.requests.len() && i == request_position(self@.requests, name@),
                None => request_position(self@.requests, name@) == self.requests.len(),
            },
    {
        let ghost all = self@.requests;
        let mut i: usize = 0;
        assert(all.skip(0) =~= all);
        while i < self.requests.len()
            invariant
                i <= self.requests.len(),
                all == self@.requests,
                request_position(all, name@) == i + request_position(all.skip(i as int), name@),
            decreases self.requests.len() - i,
        {
            if same_text(self.requests[i].name.as_str(), name) {
                return Some(i);
            }
            assert(all.skip(i as int).skip(1) =~= all.skip(i + 1));
            i += 1;
        }
        None
    }
}

impl Api {
    /// The position of the first scenario called `name`.
    pub fn find_scenario(&self, name: &str) -> (r: Option<usize>)
        ensures
            match r {
                Some(i) => i < self.scenarios.len() && i == scenario_position(
                    self@.scenarios,
                    name@,
                ),
                None => scenario_position(self@.scenarios, name@) == self.scenarios.len(),
            },
    {
        let ghost all = self@.scenarios;
        let mut i: usize = 0;
        assert(all.skip(0) =~= all);
        while i < self.scenarios.len()
            invariant
                i <= self.scenarios.len(),
                all == self@.scenarios,
                scenario_position(all, name@) == i + scenario_position(all.skip(i as int), name@),
            decreases self.scenarios.len() - i,
        {
            if same_text(self.scenarios[i].name.as_str(), name) {
                return Some(i);
            }
            assert(all.skip(i as int).skip(1) =~= all.skip(i + 1));
            i += 1;
        }
        None
    }
}

} // verus!
