//! The scenario runner: it resolves a route to a list of request names and
//! takes the requests one after another, each with its scripts before, its
//! call and its scripts after, all on one dictionary.

use vstd::prelude::*;
use crate::config::{request_position, scenario_position, ProjectConfig, ProjectView, Script};
use crate::protocol::{
    Action, ActionView, Event, EventView, Notice, NoticeView, RunError, RunErrorView,
};
use crate::request::{prepare_call, prepared, record_response, recorded};
use crate::scripting::{
    answers_evaluation, evaluate, fresh_run, lemma_script_step_forward, script_step,
    ScriptRunView, ScriptStage, ScriptState,
};
use crate::text::texts;
use crate::vars::Vars;

verus! {

/// Where a run stands.
#[derive(Debug, Clone, Copy, PartialEq, Eq, Structural)]
pub enum RunStage {
    /// The route has not been looked up yet.
    Resolving,
    /// The request in hand is being announced.
    Announced,
    /// The scripts before the call are running.
    Before,
    /// The call is under way.
    Awaiting,
    /// The scripts after the call are running.
    After,
    /// Every request has been taken.
    Done,
    /// The run has failed.
    Failed,
}

/// What a run holds.
pub struct RunnerView {
    pub project: ProjectView,
    pub route: Seq<char>,
    /// The names of the requests to take, in order.
    pub names: Seq<Seq<char>>,
    /// The position in `names` of the request in hand.
    pub index: int,
    /// The position of the request in hand among the project's requests.
    pub request: int,
    pub stage: RunStage,
    /// The script run of the phase in hand.
    pub scripts: ScriptRunView,
    pub vars: Map<Seq<char>, Seq<char>>,
}

impl RunnerView {
    /// The same run at another stage.
    pub open spec fn at(self, stage: RunStage) -> RunnerView {
        RunnerView { stage, ..self }
    }

    /// Whether a request is in hand.
    pub open spec fn in_request(self) -> bool {
        self.stage == RunStage::Announced || self.stage == RunStage::Before || self.stage
            == RunStage::Awaiting || self.stage == RunStage::After
    }

    /// Whether scripts are running.
    pub open spec fn in_scripts(self) -> bool {
        self.stage == RunStage::Before || self.stage == RunStage::After
    }

    /// The positions are within their lists, and the script run is that of
    /// the request and the phase in hand.
    pub open spec fn coherent(self) -> bool {
        &&& 0 <= self.index <= self.names.len()
        &&& self.in_request() ==> self.index < self.names.len() && 0 <= self.request
            < self.project.requests.len()
        &&& self.scripts.coherent()
        &&& self.in_scripts() ==> {
            &&& self.scripts.project == self.project.api.name
            &&& self.scripts.scripts == self.project.requests[self.request].scripts
            &&& self.scripts.before == (self.stage == RunStage::Before)
        }
    }
}

/// The state in which a run of `route` starts.
pub open spec fn starting(project: ProjectView, route: Seq<char>, vars: Map<Seq<char>, Seq<char>>) -> RunnerView {
    RunnerView {
        project,
        route,
        names: Seq::empty(),
        index: 0,
        request: 0,
        stage: RunStage::Resolving,
        scripts: fresh_run(project.api.name, Seq::empty(), true),
        vars,
    }
}

/// The requests that a route stands for: the request of that name alone, if
/// the project has one; else the requests of the scenario of that name, if it
/// has one.
pub open spec fn resolved(project: ProjectView, route: Seq<char>) -> Option<Seq<Seq<char>>> {
    if request_position(project.requests, route) < project.requests.len() {
        Some(seq![route])
    } else if scenario_position(project.api.scenarios, route) < project.api.scenarios.len() {
        Some(project.api.scenarios[scenario_position(project.api.scenarios, route)].requests)
    } else {
        None
    }
}

/// Takes up the request at `index`: it is looked up by its name and
/// announced. Where no request is left, the run is done.
pub open spec fn entered(run: RunnerView, index: int) -> (RunnerView, ActionView) {
    if index < 0 || index >= run.names.len() {
        (RunnerView { index, stage: RunStage::Done, ..run }, ActionView::Finish)
    } else if request_position(run.project.requests, run.names[index])
        >= run.project.requests.len() {
        (
            RunnerView { index, stage: RunStage::Failed, ..run },
            ActionView::Fail(RunErrorView::MissingRequest { name: run.names[index] }),
        )
    } else {
        (
            RunnerView {
                index,
                request: request_position(run.project.requests, run.names[index]),
                stage: RunStage::Announced,
                ..run
            },
            ActionView::Announce(
                NoticeView::Request(
                    run.project.requests[request_position(
                        run.project.requests,
                        run.names[index],
                    )].name,
                ),
            ),
        )
    }
}

/// Renders the request in hand and hands the call out.
pub open spec fn dispatched(run: RunnerView) -> (RunnerView, ActionView) {
    match prepared(run.project.api, run.project.requests[run.request], run.vars) {
        Ok(call) => (run.at(RunStage::Awaiting), ActionView::Send(call)),
        Err(e) => (run.at(RunStage::Failed), ActionView::Fail(e)),
    }
}

/// One step of the script run in hand. When it has finished, the call is
/// made, if these were the scripts before it, else the next request is taken
/// up.
pub open spec fn scripted(run: RunnerView, event: EventView) -> (RunnerView, ActionView) {
    let inner = script_step(run.scripts, run.vars, event);
    let now = RunnerView { scripts: inner.0, vars: inner.1, ..run };
    match inner.2 {
        ActionView::Finish => if run.stage == RunStage::Before {
            dispatched(now)
        } else {
            entered(now, run.index + 1)
        },
        ActionView::Fail(_) => (now.at(RunStage::Failed), inner.2),
        _ => (now, inner.2),
    }
}

/// The run has failed: the driver reported what was not asked for.
pub open spec fn out_of_turn(run: RunnerView) -> (RunnerView, ActionView) {
    (run.at(RunStage::Failed), ActionView::Fail(RunErrorView::OutOfTurn))
}

/// One step of the runner: the state and the event give the next state and
/// what is to be done.
pub open spec fn run_step(run: RunnerView, event: EventView) -> (RunnerView, ActionView) {
    match run.stage {
        RunStage::Resolving => match event {
            EventView::Resume => match resolved(run.project, run.route) {
                Some(names) => entered(RunnerView { names, ..run }, 0),
                None => (
                    run.at(RunStage::Failed),
                    ActionView::Fail(RunErrorView::UnknownRoute { route: run.route }),
                ),
            },
            _ => out_of_turn(run),
        },
        RunStage::Announced => match event {
            EventView::Resume => scripted(
                RunnerView {
                    scripts: fresh_run(
                        run.project.api.name,
                        run.project.requests[run.request].scripts,
                        true,
                    ),
                    stage: RunStage::Before,
                    ..run
                },
                EventView::Resume,
            ),
            _ => out_of_turn(run),
        },
        RunStage::Before => scripted(run, event),
        RunStage::Awaiting => match event {
            EventView::Response { status, body } => scripted(
                RunnerView {
                    scripts: fresh_run(
                        run.project.api.name,
                        run.project.requests[run.request].scripts,
                        false,
                    ),
                    vars: recorded(run.vars, status, body),
                    stage: RunStage::After,
                    ..run
                },
                EventView::Resume,
            ),
            EventView::Failed(message) => (
                run.at(RunStage::Failed),
                ActionView::Fail(
                    RunErrorView::Transport {
                        request: run.project.requests[run.request].name,
                        message,
                    },
                ),
            ),
            _ => out_of_turn(run),
        },
        RunStage::After => scripted(run, event),
        RunStage::Done => (run, ActionView::Finish),
        RunStage::Failed => out_of_turn(run),
    }
}

/// The outcome of the step on `event` and then of one more step on each of
/// `answers` in turn.
pub open spec fn run_steps(run: RunnerView, event: EventView, answers: Seq<EventView>) -> (
    RunnerView,
    ActionView,
)
    decreases answers.len(),
{
    let now = run_step(run, event);
    if answers.len() == 0 {
        now
    } else {
        run_steps(now.0, answers[0], answers.skip(1))
    }
}

/// Whether, on `event` and then on `answers`, every step but the last asks
/// for an evaluation, and each of `answers` reports on one.
pub open spec fn run_evaluations_between(run: RunnerView, event: EventView, answers: Seq<EventView>) -> bool
    decreases answers.len(),
{
    let now = run_step(run, event);
    answers.len() == 0 || (now.1 is Evaluate && answers_evaluation(answers[0])
        && run_evaluations_between(now.0, answers[0], answers.skip(1)))
}

/// One more answer at the end is one more step at the end.
proof fn lemma_run_steps_push(
    run: RunnerView,
    event: EventView,
    answers: Seq<EventView>,
    last: EventView,
)
    ensures
        run_steps(run, event, answers.push(last)) == run_step(
            run_steps(run, event, answers).0,
            last,
        ),
        run_evaluations_between(run, event, answers.push(last)) == (run_evaluations_between(
            run,
            event,
            answers,
        ) && run_steps(run, event, answers).1 is Evaluate && answers_evaluation(last)),
    decreases answers.len(),
{
    reveal_with_fuel(run_steps, 2);
    reveal_with_fuel(run_evaluations_between, 2);
    let now = run_step(run, event);
    let more = answers.push(last);
    if answers.len() == 0 {
        assert(more.skip(1) =~= Seq::empty());
        assert(more[0] == last);
    } else {
        assert(more.skip(1) =~= answers.skip(1).push(last));
        assert(more[0] == answers[0]);
        lemma_run_steps_push(now.0, answers[0], answers.skip(1), last);
    }
}

/// While scripts are running, a step keeps the scripts of the phase and
/// never goes back to an earlier one; a step that asks for an evaluation
/// after an evaluation comes from a later script.
proof fn lemma_run_step_forward(run: RunnerView, event: EventView)
    requires
        run.coherent(),
        run.in_scripts(),
    ensures
        run_step(run, event).0.scripts.scripts == run.scripts.scripts,
        run_step(run, event).0.scripts.cursor >= run.scripts.cursor,
        run_step(run, event).1 is Evaluate && run.scripts.stage == ScriptStage::Evaluating
            ==> run_step(run, event).0.scripts.cursor > run.scripts.cursor,
{
    lemma_script_step_forward(run.scripts, run.vars, event);
}

/// The state of a run. Its functions ask for a coherent state; `Runner`
/// keeps it so.
#[derive(Debug)]
struct RunnerState<'a> {
    config: &'a ProjectConfig,
    route: String,
    names: Vec<String>,
    index: usize,
    request: usize,
    stage: RunStage,
    scripts: ScriptState<'a>,
    vars: Vars,
}

impl<'a> View for RunnerState<'a> {
    type V = RunnerView;

    closed spec fn view(&self) -> RunnerView {
        RunnerView {
            project: self.config@,
            route: self.route@,
            names: texts(self.names@),
            index: self.index as int,
            request: self.request as int,
            stage: self.stage,
            scripts: self.scripts@,
            vars: self.vars@,
        }
    }
}

/// Starts a run of `route`, the name of a request or of a scenario of `cfg`,
/// on the dictionary `vars`. Nothing is done before the first step.
pub fn run_route<'a>(cfg: &'a ProjectConfig, route: &str, vars: Vars) -> (runner: Runner<'a>)
    ensures
        runner@ == starting(cfg@, route@, vars@),
        runner@.coherent(),
{
    Runner { state: RunnerState::start(cfg, route, vars) }
}

/// A copy of a list of strings.
fn copy_texts(list: &Vec<String>) -> (copy: Vec<String>)
    ensures
        texts(copy@) == texts(list@),
{
    let mut copy: Vec<String> = Vec::new();
    let mut i: usize = 0;
    while i < list.len()
        invariant
            i <= list.len(),
            texts(copy@) == texts(list@).take(i as int),
        decreases list.len() - i,
    {
        let ghost prior = copy@;
        let item = list[i].clone();
        copy.push(item);
        assert(texts(copy@) =~= texts(prior).push(item@));
        assert(texts(list@).take(i + 1) =~= texts(list@).take(i as int).push(list@[i as int]@));
        i += 1;
    }
    assert(texts(list@).take(i as int) =~= texts(list@));
    copy
}

impl<'a> RunnerState<'a> {
    /// The state in which a run starts.
    fn start(cfg: &'a ProjectConfig, route: &str, vars: Vars) -> (runner: RunnerState<'a>)
        ensures
            runner@ == starting(cfg@, route@, vars@),
            runner@.coherent(),
    {
        let none: &'a [Script] = &[];
        let scripts = ScriptState::start(cfg.api.name.as_str(), none, true);
        assert(scripts@.scripts =~= Seq::empty());
        let runner = RunnerState {
            config: cfg,
            route: route.to_owned(),
            names: Vec::new(),
            index: 0,
            request: 0,
            stage: RunStage::Resolving,
            scripts,
            vars,
        };
        assert(texts(runner.names@) =~= Seq::empty());
        runner
    }

    /// The dictionary as it stands.
    fn vars(&self) -> (vars: &Vars)
        ensures
            vars@ == self@.vars,
    {
        &self.vars
    }

    /// Whether every request has been taken.
    fn is_done(&self) -> (b: bool)
        ensures
            b == (self@.stage == RunStage::Done),
    {
        match self.stage {
            RunStage::Done => true,
            _ => false,
        }
    }

    /// Ends the run with `error`.
    fn fail(&mut self, error: RunError) -> (action: Action)
        ensures
            final(self)@ == old(self)@.at(RunStage::Failed),
            action@ == ActionView::Fail(error@),
            old(self)@.index <= old(self)@.names.len() && old(self)@.scripts.coherent()
                ==> final(self)@.coherent(),
    {
        self.stage = RunStage::Failed;
        Action::Fail(error)
    }

    /// The names of the requests that the route stands for.
    fn resolve(&self) -> (names: Option<Vec<String>>)
        ensures
            match names {
                Some(list) => resolved(self@.project, self@.route) == Some(texts(list@)),
                None => resolved(self@.project, self@.route) is None,
            },
    {
        match self.config.find_request(self.route.as_str()) {
            Some(_) => {
                let mut list: Vec<String> = Vec::new();
                list.push(self.route.clone());
                assert(texts(list@) =~= seq![self.route@]);
                Some(list)
            },
            None => match self.config.api.find_scenario(self.route.as_str()) {
                Some(at) => Some(copy_texts(&self.config.api.scenarios[at].requests)),
                None => None,
            },
        }
    }

    /// Takes up the request at `index`.
    fn enter(&mut self, index: usize) -> (action: Action)
        requires
            index <= old(self)@.names.len(),
            old(self)@.scripts.coherent(),
        ensures
            final(self)@.coherent(),
            (final(self)@, action@) == entered(old(self)@, index as int),
    {
        self.index = index;
        if index >= self.names.len() {
            self.stage = RunStage::Done;
            return Action::Finish;
        }
        match self.config.find_request(self.names[index].as_str()) {
            Some(at) => {
                self.request = at;
                self.stage = RunStage::Announced;
                Action::Announce(Notice::Request(self.config.requests[at].name.clone()))
            },
            None => {
                let name = self.names[index].clone();
                self.fail(RunError::MissingRequest { name })
            },
        }
    }

    /// Renders the request in hand and hands the call out.
    fn dispatch(&mut self) -> (action: Action)
        requires
            old(self)@.index < old(self)@.names.len(),
            old(self)@.request < old(self)@.project.requests.len(),
            old(self)@.scripts.coherent(),
        ensures
            final(self)@.coherent(),
            (final(self)@, action@) == dispatched(old(self)@),
    {
        match prepare_call(&self.config.api, &self.config.requests[self.request], &self.vars) {
            Ok(call) => {
                self.stage = RunStage::Awaiting;
                Action::Send(call)
            },
            Err(e) => self.fail(e),
        }
    }

    /// One step of the script run in hand, and what follows when it ends.
    fn script(&mut self, event: Event) -> (action: Action)
        requires
            old(self)@.coherent(),
            old(self)@.in_scripts(),
        ensures
            final(self)@.coherent(),
            (final(self)@, action@) == scripted(old(self)@, event@),
            action@ is Evaluate ==> final(self)@.in_scripts() && final(self)@.scripts.stage
                == ScriptStage::Evaluating && final(self)@.scripts.scripts
                == old(self)@.scripts.scripts && final(self)@.scripts.cursor
                >= old(self)@.scripts.cursor,
    {
        let count = self.names.len();
        proof {
            lemma_script_step_forward(self@.scripts, self@.vars, event@);
        }
        let action = self.scripts.step(&mut self.vars, event);
        match action {
            Action::Finish => match self.stage {
                RunStage::Before => self.dispatch(),
                _ => self.enter(self.index + 1),
            },
            Action::Fail(e) => self.fail(e),
            other => other,
        }
    }

    /// One step, of a coherent state.
    fn step(&mut self, event: Event) -> (action: Action)
        requires
            old(self)@.coherent(),
        ensures
            final(self)@.coherent(),
            (final(self)@, action@) == run_step(old(self)@, event@),
            action@ is Evaluate ==> final(self)@.in_scripts() && final(self)@.scripts.stage
                == ScriptStage::Evaluating,
    {
        match self.stage {
            RunStage::Resolving => match event {
                Event::Resume => match self.resolve() {
                    Some(names) => {
                        self.names = names;
                        self.enter(0)
                    },
                    None => {
                        let route = self.route.clone();
                        self.fail(RunError::UnknownRoute { route })
                    },
                },
                _ => self.fail(RunError::OutOfTurn),
            },
            RunStage::Announced => match event {
                Event::Resume => {
                    self.scripts = ScriptState::start(
                        self.config.api.name.as_str(),
                        self.config.requests[self.request].scripts.as_slice(),
                        true,
                    );
                    self.stage = RunStage::Before;
                    self.script(Event::Resume)
                },
                _ => self.fail(RunError::OutOfTurn),
            },
            RunStage::Before => self.script(event),
            RunStage::Awaiting => match event {
                Event::Response { status, body } => {
                    record_response(&mut self.vars, status, body);
                    self.scripts = ScriptState::start(
                        self.config.api.name.as_str(),
                        self.config.requests[self.request].scripts.as_slice(),
                        false,
                    );
                    self.stage = RunStage::After;
                    self.script(Event::Resume)
                },
                Event::Failed(message) => {
                    let request = self.config.requests[self.request].name.clone();
                    self.fail(RunError::Transport { request, message })
                },
                _ => self.fail(RunError::OutOfTurn),
            },
            RunStage::After => self.script(event),
            RunStage::Done => Action::Finish,
            RunStage::Failed => self.fail(RunError::OutOfTurn),
        }
    }

    /// Steps until something other than an evaluation is to be done; the
    /// evaluations are made here.
    fn advance(&mut self, event: Event) -> (action: Action)
        requires
            old(self)@.coherent(),
        ensures
            final(self)@.coherent(),
            !(action@ is Evaluate),
            exists|answers: Seq<EventView>|
                run_evaluations_between(old(self)@, event@, answers) && (final(self)@, action@)
                    == #[trigger] run_steps(old(self)@, event@, answers),
    {
        let ghost first = event@;
        let ghost mut answers: Seq<EventView> = Seq::empty();
        let mut action = self.step(event);
        loop
            invariant
                self@.coherent(),
                run_evaluations_between(old(self)@, first, answers),
                (self@, action@) == run_steps(old(self)@, first, answers),
                action@ is Evaluate ==> self@.in_scripts() && self@.scripts.stage
                    == ScriptStage::Evaluating,
            ensures
                self@.coherent(),
                !(action@ is Evaluate),
                run_evaluations_between(old(self)@, first, answers),
                (self@, action@) == run_steps(old(self)@, first, answers),
            decreases
                    self@.scripts.scripts.len() - self@.scripts.cursor,
                    (if action@ is Evaluate {
                        1int
                    } else {
                        0int
                    }),
        {
            let outcome = match &action {
                Action::Evaluate { source, bindings } => match evaluate(source.as_str(), bindings) {
                    Ok(value) => Event::Evaluated(value),
                    Err(message) => Event::Failed(message),
                },
                _ => {
                    break ;
                },
            };
            proof {
                lemma_run_steps_push(old(self)@, first, answers, outcome@);
                lemma_run_step_forward(self@, outcome@);
                answers = answers.push(outcome@);
            }
            action = self.step(outcome);
        }
        action
    }
}

/// A run of one route of one project.
#[derive(Debug)]
pub struct Runner<'a> {
    state: RunnerState<'a>,
}

impl<'a> View for Runner<'a> {
    type V = RunnerView;

    closed spec fn view(&self) -> RunnerView {
        self.state@
    }
}

impl<'a> Runner<'a> {
    #[verifier::type_invariant]
    spec fn well_formed(self) -> bool {
        self.state@.coherent()
    }

    /// The dictionary as it stands.
    pub fn vars(&self) -> (vars: &Vars)
        ensures
            vars@ == self@.vars,
    {
        self.state.vars()
    }

    /// Whether every request has been taken.
    pub fn is_done(&self) -> (b: bool)
        ensures
            b == (self@.stage == RunStage::Done),
    {
        self.state.is_done()
    }

    /// One step: takes what the driver reports and says what is to be done
    /// next.
    pub fn step(&mut self, event: Event) -> (action: Action)
        ensures
            old(self)@.coherent(),
            final(self)@.coherent(),
            (final(self)@, action@) == run_step(old(self)@, event@),
    {
        proof {
            use_type_invariant(&*self);
        }
        let mut state = RunnerState::start(self.state.config, "", Vars::new());
        std::mem::swap(&mut state, &mut self.state);
        let action = state.step(event);
        self.state = state;
        action
    }

    /// Like `step`, but evaluates by itself: where a step asks for an
    /// evaluation, the script is run here and the step on its outcome is
    /// taken at once, until something else is to be done. Whatever the
    /// scripts return, the state reached is the one that `step` reaches on
    /// `event` and then on the outcomes of those evaluations.
    pub fn advance(&mut self, event: Event) -> (action: Action)
        ensures
            old(self)@.coherent(),
            final(self)@.coherent(),
            !(action@ is Evaluate),
            exists|answers: Seq<EventView>|
                run_evaluations_between(old(self)@, event@, answers) && (final(self)@, action@)
                    == #[trigger] run_steps(old(self)@, event@, answers),
    {
        proof {
            use_type_invariant(&*self);
        }
        let ghost first = event@;
        let mut state = RunnerState::start(self.state.config, "", Vars::new());
        std::mem::swap(&mut state, &mut self.state);
        let action = state.advance(event);
        proof {
            let answers = choose|answers: Seq<EventView>|
                run_evaluations_between(old(self)@, first, answers) && (state@, action@)
                    == #[trigger] run_steps(old(self)@, first, answers);
            assert((state@, action@) == run_steps(old(self)@, first, answers));
        }
        self.state = state;
        action
    }
}

} // verus!
