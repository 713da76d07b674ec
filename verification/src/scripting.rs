//! The script host: it runs the scripts of one request that belong to one
//! phase, in their order, against the shared dictionary. A script that
//! returns a mapping has every pair written into the dictionary and handed
//! out to be persisted for the project.

use vstd::prelude::*;
use crate::config::{script_views, Script, ScriptView};
use crate::protocol::{
    Action, ActionView, Event, EventView, Notice, NoticeView, RunError, RunErrorView, ScriptValue,
    ScriptValueView,
};
use crate::storage::{Variable, VariableView};
use crate::vars::{pairs_view, Vars};

verus! {

/// Where a script run stands.
#[derive(Debug, Clone, Copy, PartialEq, Eq, Structural)]
pub enum ScriptStage {
    /// Nothing has happened yet.
    Idle,
    /// The description of the script in hand is being shown.
    Described,
    /// The script in hand is being evaluated.
    Evaluating,
    /// A pair of the script in hand is being persisted.
    Storing,
    /// Every script of the phase has run.
    Finished,
    /// The run has failed.
    Aborted,
}

/// What a script run holds.
pub struct ScriptRunView {
    /// The project for which variables are persisted.
    pub project: Seq<char>,
    /// All scripts of the request.
    pub scripts: Seq<ScriptView>,
    /// The phase: only scripts with this mark run.
    pub before: bool,
    /// The position of the script in hand.
    pub cursor: int,
    pub stage: ScriptStage,
    /// The pairs that the script in hand returned.
    pub pending: Seq<(Seq<char>, Seq<char>)>,
    /// How many of them have been persisted.
    pub stored: int,
}

impl ScriptRunView {
    /// The positions are within their lists, and a script is in hand wherever
    /// the stage speaks of one.
    pub open spec fn coherent(self) -> bool {
        &&& 0 <= self.cursor <= self.scripts.len()
        &&& 0 <= self.stored <= self.pending.len()
        &&& (self.stage == ScriptStage::Described || self.stage == ScriptStage::Evaluating
            || self.stage == ScriptStage::Storing) ==> self.cursor < self.scripts.len()
        &&& self.stage == ScriptStage::Storing ==> self.stored < self.pending.len()
        &&& self.stage == ScriptStage::Idle ==> self.cursor == 0
    }

    /// The same run at another stage.
    pub open spec fn at(self, stage: ScriptStage) -> ScriptRunView {
        ScriptRunView { stage, ..self }
    }
}

/// The state in which a run starts.
pub open spec fn fresh_run(project: Seq<char>, scripts: Seq<ScriptView>, before: bool) -> ScriptRunView {
    ScriptRunView {
        project,
        scripts,
        before,
        cursor: 0,
        stage: ScriptStage::Idle,
        pending: Seq::empty(),
        stored: 0,
    }
}

/// The position of the first script of the phase at or after `from`, or the
/// number of scripts if there is none.
pub open spec fn next_script(scripts: Seq<ScriptView>, before: bool, from: int) -> int
    decreases scripts.len() - from,
{
    if from < 0 || from >= scripts.len() {
        scripts.len() as int
    } else if scripts[from].before == before {
        from
    } else {
        next_script(scripts, before, from + 1)
    }
}

/// Takes up the first script of the phase at or after `from`: its description
/// is shown if it has one, else it is evaluated at once. Where no script is
/// left, the run is finished.
pub open spec fn taken_up(run: ScriptRunView, vars: Map<Seq<char>, Seq<char>>, from: int) -> (
    ScriptRunView,
    Map<Seq<char>, Seq<char>>,
    ActionView,
) {
    let next = next_script(run.scripts, run.before, from);
    if next >= run.scripts.len() {
        (
            ScriptRunView { cursor: next, stage: ScriptStage::Finished, ..run },
            vars,
            ActionView::Finish,
        )
    } else {
        match run.scripts[next].description {
            Some(text) => (
                ScriptRunView { cursor: next, stage: ScriptStage::Described, ..run },
                vars,
                ActionView::Announce(NoticeView::Script(text)),
            ),
            None => (
                ScriptRunView { cursor: next, stage: ScriptStage::Evaluating, ..run },
                vars,
                ActionView::Evaluate { source: run.scripts[next].script, bindings: vars },
            ),
        }
    }
}

/// Goes on with the pairs of the script in hand: the next pair is written
/// into the dictionary and handed out to be persisted for the project. Where
/// no pair is left, the next script is taken up.
pub open spec fn stored_on(run: ScriptRunView, vars: Map<Seq<char>, Seq<char>>) -> (
    ScriptRunView,
    Map<Seq<char>, Seq<char>>,
    ActionView,
) {
    if 0 <= run.stored < run.pending.len() {
        let pair = run.pending[run.stored];
        (
            run.at(ScriptStage::Storing),
            vars.insert(pair.0, pair.1),
            ActionView::Persist(
                VariableView { label: pair.0, value: pair.1, project: Some(run.project) },
            ),
        )
    } else {
        taken_up(run, vars, run.cursor + 1)
    }
}

/// One step of the script host: the state, the dictionary and the event give
/// the next state, the next dictionary and what is to be done.
pub open spec fn script_step(run: ScriptRunView, vars: Map<Seq<char>, Seq<char>>, event: EventView) -> (
    ScriptRunView,
    Map<Seq<char>, Seq<char>>,
    ActionView,
) {
    match (run.stage, event) {
        (ScriptStage::Idle, EventView::Resume) => taken_up(run, vars, 0),
        (ScriptStage::Described, EventView::Resume) => (
            run.at(ScriptStage::Evaluating),
            vars,
            ActionView::Evaluate { source: run.scripts[run.cursor].script, bindings: vars },
        ),
        (ScriptStage::Evaluating, EventView::Evaluated(ScriptValueView::Scalar)) => taken_up(
            run,
            vars,
            run.cursor + 1,
        ),
        (ScriptStage::Evaluating, EventView::Evaluated(ScriptValueView::Mapping(pairs))) => stored_on(
            ScriptRunView { pending: pairs, stored: 0, ..run },
            vars,
        ),
        (ScriptStage::Evaluating, EventView::Failed(message)) => (
            run.at(ScriptStage::Aborted),
            vars,
            ActionView::Fail(
                RunErrorView::Script {
                    description: run.scripts[run.cursor].description,
                    message,
                },
            ),
        ),
        (ScriptStage::Storing, EventView::Resume) => stored_on(
            ScriptRunView { stored: run.stored + 1, ..run },
            vars,
        ),
        (ScriptStage::Storing, EventView::Failed(message)) => (
            run.at(ScriptStage::Aborted),
            vars,
            ActionView::Fail(
                RunErrorView::Persistence { label: run.pending[run.stored].0, message },
            ),
        ),
        (ScriptStage::Finished, _) => (run, vars, ActionView::Finish),
        _ => (run.at(ScriptStage::Aborted), vars, ActionView::Fail(RunErrorView::OutOfTurn)),
    }
}

/// `next_script` points at a script of the phase, at or after `from`, and
/// passes over none.
pub proof fn lemma_next_script(scripts: Seq<ScriptView>, before: bool, from: int)
    requires
        0 <= from <= scripts.len(),
    ensures
        from <= next_script(scripts, before, from) <= scripts.len(),
        next_script(scripts, before, from) < scripts.len() ==> scripts[next_script(
            scripts,
            before,
            from,
        )].before == before,
        forall|i: int|
            from <= i < next_script(scripts, before, from) ==> (#[trigger] scripts[i]).before
                != before,
    decreases scripts.len() - from,
{
    if from < scripts.len() && scripts[from].before != before {
        lemma_next_script(scripts, before, from + 1);
    }
}

/// A step never changes the project, the scripts or the phase of a run, and
/// never goes back to an earlier script. A step that asks for an evaluation
/// leaves the run evaluating, and comes from a later script than the one
/// that was being evaluated before.
pub proof fn lemma_script_step_forward(
    run: ScriptRunView,
    vars: Map<Seq<char>, Seq<char>>,
    event: EventView,
)
    requires
        run.coherent(),
    ensures
        script_step(run, vars, event).0.project == run.project,
        script_step(run, vars, event).0.scripts == run.scripts,
        script_step(run, vars, event).0.before == run.before,
        script_step(run, vars, event).0.cursor >= run.cursor,
        script_step(run, vars, event).2 is Evaluate ==> script_step(run, vars, event).0.stage
            == ScriptStage::Evaluating,
        script_step(run, vars, event).2 is Evaluate && run.stage == ScriptStage::Evaluating
            ==> script_step(run, vars, event).0.cursor > run.cursor,
{
    lemma_next_script(run.scripts, run.before, 0);
    if run.cursor < run.scripts.len() {
        lemma_next_script(run.scripts, run.before, run.cursor + 1);
    }
}

/// Whether `event` is what a driver reports after an evaluation.
pub open spec fn answers_evaluation(event: EventView) -> bool {
    event is Evaluated || event is Failed
}

/// The outcome of the step on `event` and then of one more step on each of
/// `answers` in turn.
pub open spec fn script_steps(
    run: ScriptRunView,
    vars: Map<Seq<char>, Seq<char>>,
    event: EventView,
    answers: Seq<EventView>,
) -> (ScriptRunView, Map<Seq<char>, Seq<char>>, ActionView)
    decreases answers.len(),
{
    let now = script_step(run, vars, event);
    if answers.len() == 0 {
        now
    } else {
        script_steps(now.0, now.1, answers[0], answers.skip(1))
    }
}

/// Whether, on `event` and then on `answers`, every step but the last asks
/// for an evaluation, and each of `answers` reports on one.
pub open spec fn evaluations_between(
    run: ScriptRunView,
    vars: Map<Seq<char>, Seq<char>>,
    event: EventView,
    answers: Seq<EventView>,
) -> bool
    decreases answers.len(),
{
    let now = script_step(run, vars, event);
    answers.len() == 0 || (now.2 is Evaluate && answers_evaluation(answers[0])
        && evaluations_between(now.0, now.1, answers[0], answers.skip(1)))
}

/// One more event at the end is one more step at the end.
pub proof fn lemma_script_steps_last(
    run: ScriptRunView,
    vars: Map<Seq<char>, Seq<char>>,
    event: EventView,
    answers: Seq<EventView>,
    last: EventView,
)
    ensures
        script_steps(run, vars, event, answers.push(last)) == script_step(
            script_steps(run, vars, event, answers).0,
            script_steps(run, vars, event, answers).1,
            last,
        ),
{
    lemma_script_steps_push(run, vars, event, answers, last);
}

/// One more answer at the end is one more step at the end.
proof fn lemma_script_steps_push(
    run: ScriptRunView,
    vars: Map<Seq<char>, Seq<char>>,
    event: EventView,
    answers: Seq<EventView>,
    last: EventView,
)
    ensures
        script_steps(run, vars, event, answers.push(last)) == script_step(
            script_steps(run, vars, event, answers).0,
            script_steps(run, vars, event, answers).1,
            last,
        ),
        evaluations_between(run, vars, event, answers.push(last)) == (evaluations_between(
            run,
            vars,
            event,
            answers,
        ) && script_steps(run, vars, event, answers).2 is Evaluate && answers_evaluation(last)),
    decreases answers.len(),
{
    reveal_with_fuel(script_steps, 2);
    reveal_with_fuel(evaluations_between, 2);
    let now = script_step(run, vars, event);
    let more = answers.push(last);
    if answers.len() == 0 {
        assert(more.skip(1) =~= Seq::empty());
        assert(more[0] == last);
    } else {
        assert(more.skip(1) =~= answers.skip(1).push(last));
        assert(more[0] == answers[0]);
        lemma_script_steps_push(now.0, now.1, answers[0], answers.skip(1), last);
    }
}

/// The state of a script run. Its functions ask for a coherent state; the
/// types that hold one keep it so.
#[derive(Debug)]
pub(crate) struct ScriptState<'a> {
    project: &'a str,
    scripts: &'a [Script],
    before: bool,
    cursor: usize,
    stage: ScriptStage,
    pending: Vec<(String, String)>,
    stored: usize,
}

impl<'a> View for ScriptState<'a> {
    type V = ScriptRunView;

    closed spec fn view(&self) -> ScriptRunView {
        ScriptRunView {
            project: self.project@,
            scripts: script_views(self.scripts@),
            before: self.before,
            cursor: self.cursor as int,
            stage: self.stage,
            pending: pairs_view(self.pending@),
            stored: self.stored as int,
        }
    }
}

/// Starts a run of the scripts of `scripts` that are marked to run before
/// the request.
pub fn run_scripts_before<'a>(project: &'a str, scripts: &'a [Script]) -> (run: ScriptRun<'a>)
    ensures
        run@ == fresh_run(project@, script_views(scripts@), true),
{
    ScriptRun { state: ScriptState::start(project, scripts, true) }
}

/// Starts a run of the scripts of `scripts` that are marked to run after the
/// request.
pub fn run_scripts_after<'a>(project: &'a str, scripts: &'a [Script]) -> (run: ScriptRun<'a>)
    ensures
        run@ == fresh_run(project@, script_views(scripts@), false),
{
    ScriptRun { state: ScriptState::start(project, scripts, false) }
}

impl<'a> ScriptState<'a> {
    /// The state in which a run of one phase starts.
    pub(crate) fn start(project: &'a str, scripts: &'a [Script], before: bool) -> (run: ScriptState<
        'a,
    >)
        ensures
            run@ == fresh_run(project@, script_views(scripts@), before),
    {
        let run = ScriptState {
            project,
            scripts,
            before,
            cursor: 0,
            stage: ScriptStage::Idle,
            pending: Vec::new(),
            stored: 0,
        };
        assert(pairs_view(run.pending@) =~= Seq::empty());
        run
    }

    /// Whether every script of the phase has run.
    pub(crate) fn is_finished(&self) -> (b: bool)
        ensures
            b == (self@.stage == ScriptStage::Finished),
    {
        match self.stage {
            ScriptStage::Finished => true,
            _ => false,
        }
    }

    /// The position of the first script of the phase at or after `from`.
    fn seek(&self, from: usize) -> (next: usize)
        requires
            from <= self.scripts.len(),
        ensures
            next == next_script(self@.scripts, self.before, from as int),
            from <= next <= self.scripts.len(),
    {
        let mut next: usize = from;
        while next < self.scripts.len() && self.scripts[next].before != self.before
            invariant
                from <= next <= self.scripts.len(),
                next_script(self@.scripts, self.before, from as int) == next_script(
                    self@.scripts,
                    self.before,
                    next as int,
                ),
            decreases self.scripts.len() - next,
        {
            next += 1;
        }
        next
    }

    /// Takes up the first script of the phase at or after `from`.
    fn take_up(&mut self, vars: &Vars, from: usize) -> (action: Action)
        requires
            from <= old(self).scripts.len(),
            old(self)@.stored <= old(self)@.pending.len(),
        ensures
            final(self)@.coherent(),
            (final(self)@, vars@, action@) == taken_up(old(self)@, vars@, from as int),
    {
        let next = self.seek(from);
        self.cursor = next;
        if next >= self.scripts.len() {
            self.stage = ScriptStage::Finished;
            Action::Finish
        } else {
            match &self.scripts[next].description {
                Some(text) => {
                    self.stage = ScriptStage::Described;
                    Action::Announce(Notice::Script(text.clone()))
                },
                None => {
                    self.stage = ScriptStage::Evaluating;
                    Action::Evaluate {
                        source: self.scripts[next].script.clone(),
                        bindings: vars.clone(),
                    }
                },
            }
        }
    }

    /// Goes on with the pairs of the script in hand.
    fn store_on(&mut self, vars: &mut Vars) -> (action: Action)
        requires
            old(self)@.cursor < old(self)@.scripts.len(),
            old(self)@.stored <= old(self)@.pending.len(),
        ensures
            final(self)@.coherent(),
            (final(self)@, final(vars)@, action@) == stored_on(old(self)@, old(vars)@),
    {
        if self.stored < self.pending.len() {
            let label = self.pending[self.stored].0.clone();
            let value = self.pending[self.stored].1.clone();
            vars.insert(label.clone(), value.clone());
            self.stage = ScriptStage::Storing;
            Action::Persist(Variable { label, value, project: Some(self.project.to_owned()) })
        } else {
            let count = self.scripts.len();
            assert(self@.scripts.len() == count);
            self.take_up(vars, self.cursor + 1)
        }
    }

    /// One step, of a coherent state.
    pub(crate) fn step(&mut self, vars: &mut Vars, event: Event) -> (action: Action)
        requires
            old(self)@.coherent(),
        ensures
            final(self)@.coherent(),
            (final(self)@, final(vars)@, action@) == script_step(
                old(self)@,
                old(vars)@,
                event@,
            ),
    {
        let count = self.scripts.len();
        let held = self.pending.len();
        assert(self@.scripts.len() == count);
        assert(self@.pending.len() == held);
        match self.stage {
            ScriptStage::Idle => match event {
                Event::Resume => self.take_up(vars, 0),
                _ => self.abort(RunError::OutOfTurn),
            },
            ScriptStage::Described => match event {
                Event::Resume => {
                    self.stage = ScriptStage::Evaluating;
                    Action::Evaluate {
                        source: self.scripts[self.cursor].script.clone(),
                        bindings: vars.clone(),
                    }
                },
                _ => self.abort(RunError::OutOfTurn),
            },
            ScriptStage::Evaluating => match event {
                Event::Evaluated(ScriptValue::Scalar) => self.take_up(vars, self.cursor + 1),
                Event::Evaluated(ScriptValue::Mapping(pairs)) => {
                    self.pending = pairs;
                    self.stored = 0;
                    self.store_on(vars)
                },
                Event::Failed(message) => {
                    let description = match &self.scripts[self.cursor].description {
                        Some(text) => Some(text.clone()),
                        None => None,
                    };
                    self.abort(RunError::Script { description, message })
                },
                _ => self.abort(RunError::OutOfTurn),
            },
            ScriptStage::Storing => match event {
                Event::Resume => {
                    self.stored = self.stored + 1;
                    self.store_on(vars)
                },
                Event::Failed(message) => {
                    let label = self.pending[self.stored].0.clone();
                    self.abort(RunError::Persistence { label, message })
                },
                _ => self.abort(RunError::OutOfTurn),
            },
            ScriptStage::Finished => Action::Finish,
            ScriptStage::Aborted => self.abort(RunError::OutOfTurn),
        }
    }

    /// Steps until something other than an evaluation is to be done; the
    /// evaluations are made here.
    pub(crate) fn advance(&mut self, vars: &mut Vars, event: Event) -> (action: Action)
        requires
            old(self)@.coherent(),
        ensures
            final(self)@.coherent(),
            !(action@ is Evaluate),
            exists|answers: Seq<EventView>|
                evaluations_between(old(self)@, old(vars)@, event@, answers) && (
                    final(self)@,
                    final(vars)@,
                    action@,
                ) == #[trigger] script_steps(old(self)@, old(vars)@, event@, answers),
    {
        let ghost first = event@;
        let ghost mut answers: Seq<EventView> = Seq::empty();
        proof {
            lemma_script_step_forward(self@, vars@, first);
        }
        let mut action = self.step(vars, event);
        loop
            invariant
                self@.coherent(),
                evaluations_between(old(self)@, old(vars)@, first, answers),
                (self@, vars@, action@) == script_steps(old(self)@, old(vars)@, first, answers),
                action@ is Evaluate ==> self@.stage == ScriptStage::Evaluating,
            ensures
                self@.coherent(),
                !(action@ is Evaluate),
                evaluations_between(old(self)@, old(vars)@, first, answers),
                (self@, vars@, action@) == script_steps(old(self)@, old(vars)@, first, answers),
            decreases
                    self@.scripts.len() - self@.cursor,
                    (if action@ is Evaluate {
                        1int
                    } else {
                        0int
                    }),
        {
            let outcome = match &action {
                Action::Evaluate { source, bindings } => match evaluate(source.as_str(), bindings) {
                    Ok(value) => Event::Evaluated(value),
                    Err(message) => Event::Failed(message),
                },
                _ => {
                    break ;
                },
            };
            proof {
                lemma_script_steps_push(old(self)@, old(vars)@, first, answers, outcome@);
                lemma_script_step_forward(self@, vars@, outcome@);
                answers = answers.push(outcome@);
            }
            action = self.step(vars, outcome);
        }
        action
    }

    /// Ends the run with `error`.
    fn abort(&mut self, error: RunError) -> (action: Action)
        requires
            old(self)@.cursor <= old(self)@.scripts.len(),
            old(self)@.stored <= old(self)@.pending.len(),
        ensures
            final(self)@ == old(self)@.at(ScriptStage::Aborted),
            final(self)@.coherent(),
            action@ == ActionView::Fail(error@),
    {
        self.stage = ScriptStage::Aborted;
        Action::Fail(error)
    }
}

/// The scripts of one phase of one request, being run.
#[derive(Debug)]
pub struct ScriptRun<'a> {
    state: ScriptState<'a>,
}

impl<'a> View for ScriptRun<'a> {
    type V = ScriptRunView;

    closed spec fn view(&self) -> ScriptRunView {
        self.state@
    }
}

impl<'a> ScriptRun<'a> {
    #[verifier::type_invariant]
    spec fn well_formed(self) -> bool {
        self.state@.coherent()
    }

    /// Whether every script of the phase has run.
    pub fn is_finished(&self) -> (b: bool)
        ensures
            b == (self@.stage == ScriptStage::Finished),
    {
        self.state.is_finished()
    }

    /// One step: takes what the driver reports and says what is to be done
    /// next.
    pub fn step(&mut self, vars: &mut Vars, event: Event) -> (action: Action)
        ensures
            old(self)@.coherent(),
            final(self)@.coherent(),
            (final(self)@, final(vars)@, action@) == script_step(
                old(self)@,
                old(vars)@,
                event@,
            ),
    {
        proof {
            use_type_invariant(&*self);
        }
        let mut state = ScriptState::start(self.state.project, self.state.scripts, true);
        std::mem::swap(&mut state, &mut self.state);
        let action = state.step(vars, event);
        self.state = state;
        action
    }

    /// Like `step`, but evaluates by itself: where a step asks for an
    /// evaluation, the script is run here and the step on its outcome is
    /// taken at once, until something else is to be done. Whatever the
    /// scripts return, the state reached is the one that `step` reaches on
    /// `event` and then on the outcomes of those evaluations.
    pub fn advance(&mut self, vars: &mut Vars, event: Event) -> (action: Action)
        ensures
            old(self)@.coherent(),
            final(self)@.coherent(),
            !(action@ is Evaluate),
            exists|answers: Seq<EventView>|
                evaluations_between(old(self)@, old(vars)@, event@, answers) && (
                    final(self)@,
                    final(vars)@,
                    action@,
                ) == #[trigger] script_steps(old(self)@, old(vars)@, event@, answers),
    {
        proof {
            use_type_invariant(&*self);
        }
        let ghost first = event@;
        let mut state = ScriptState::start(self.state.project, self.state.scripts, true);
        std::mem::swap(&mut state, &mut self.state);
        let action = state.advance(vars, event);
        proof {
            let answers = choose|answers: Seq<EventView>|
                evaluations_between(old(self)@, old(vars)@, first, answers) && (
                    state@,
                    vars@,
                    action@,
                ) == #[trigger] script_steps(old(self)@, old(vars)@, first, answers);
            assert((state@, vars@, action@) == script_steps(
                old(self)@,
                old(vars)@,
                first,
                answers,
            ));
        }
        self.state = state;
        action
    }
}

/// The script engine of rhai, carried through as it is.
#[verifier::external_type_specification]
#[verifier::external_body]
pub struct ExEngine(rhai::Engine);

/// The variables that a script of rhai sees, carried through as they are.
#[verifier::external_type_specification]
#[verifier::external_body]
pub struct ExScope<'a>(rhai::Scope<'a>);

/// A value of a script of rhai, carried through as it is.
#[verifier::external_type_specification]
#[verifier::external_body]
pub struct ExDynamic(rhai::Dynamic);

/// The error of a script of rhai, carried through as it is.
#[verifier::external_type_specification]
#[verifier::external_body]
pub struct ExEvalAltResult(rhai::EvalAltResult);

/// `rhai::Engine::new`: an engine with the standard functions. Nothing is
/// claimed of it.
#[verifier::external_body]
fn new_engine() -> rhai::Engine {
    rhai::Engine::new()
}

/// The entries of a scope as pairs of a name and a text, in the order in
/// which they were added.
pub uninterp spec fn scope_entries(scope: rhai::Scope<'static>) -> Seq<(Seq<char>, Seq<char>)>;

/// `rhai::Scope::new`: a scope without entries.
#[verifier::external_body]
fn new_scope() -> (scope: rhai::Scope<'static>)
    ensures
        scope_entries(scope) == Seq::<(Seq<char>, Seq<char>)>::empty(),
{
    rhai::Scope::new()
}

/// `rhai::Scope::push`: adds one entry at the end of the scope, the string
/// `value` under `name`, and leaves the entries that were there.
#[verifier::external_body]
fn bind(scope: &mut rhai::Scope<'static>, name: &str, value: String)
    ensures
        scope_entries(*final(scope)) == scope_entries(*old(scope)).push((name@, value@)),
{
    scope.push(name, value);
}

/// The scope in which every pair of `vars` is readable by name, and nothing
/// else.
fn scope_of(vars: &Vars) -> (scope: rhai::Scope<'static>)
    ensures
        scope_entries(scope) == vars.listing(),
{
    let mut scope = new_scope();
    let pairs = vars.pairs();
    let mut i: usize = 0;
    assert(vars.listing().take(0) =~= Seq::empty());
    while i < pairs.len()
        invariant
            i <= pairs.len(),
            pairs_view(pairs@) == vars.listing(),
            scope_entries(scope) == vars.listing().take(i as int),
        decreases pairs.len() - i,
    {
        assert(vars.listing().take(i + 1) =~= vars.listing().take(i as int).push(
            vars.listing()[i as int],
        ));
        bind(&mut scope, pairs[i].0.as_str(), pairs[i].1.clone());
        i += 1;
    }
    assert(vars.listing().take(i as int) =~= vars.listing());
    scope
}

/// `rhai::Engine::eval_with_scope`: compiles and runs `source` with the
/// entries of `scope` as its variables. What a script returns may depend on
/// more than its text and the scope, so nothing is claimed of the result.
#[verifier::external_body]
fn eval(engine: &rhai::Engine, scope: &mut rhai::Scope<'static>, source: &str) -> Result<
    rhai::Dynamic,
    Box<rhai::EvalAltResult>,
> {
    engine.eval_with_scope::<rhai::Dynamic>(scope, source)
}

/// The text of an evaluation error, as its `Display` gives it. Nothing is
/// claimed of it.
#[verifier::external_body]
fn failure_text(error: &rhai::EvalAltResult) -> String {
    error.to_string()
}

/// `rhai::Dynamic::try_cast` to an object map: the pairs of the map, each key
/// and each value as text, in the order of the map; `None` for a value that
/// is no object map. Nothing is claimed of the pairs.
#[verifier::external_body]
fn mapping_of(value: rhai::Dynamic) -> Option<Vec<(String, String)>> {
    let map = value.try_cast::<rhai::Map>()?;
    Some(map.into_iter().map(|(k, v)| (k.to_string(), v.to_string())).collect())
}

/// Evaluates `source` with every pair of `vars` readable by name. The result
/// is a mapping if the script returned an object map, `Scalar` for any other
/// value, and the error's text if the script could not be compiled or failed.
/// What a script returns is the interpreter's to say.
pub fn evaluate(source: &str, vars: &Vars) -> Result<ScriptValue, String> {
    let engine = new_engine();
    let mut scope = scope_of(vars);
    match eval(&engine, &mut scope, source) {
        Ok(value) => match mapping_of(value) {
            Some(pairs) => Ok(ScriptValue::Mapping(pairs)),
            None => Ok(ScriptValue::Scalar),
        },
        Err(error) => Err(failure_text(&error)),
    }
}

} // verus!
