//! What holds of whole runs: the runner taken through any sequence of
//! events, whatever the driver reports.

use vstd::prelude::*;
use crate::config::{lemma_request_position, request_position, ProjectView};
use crate::protocol::{
    ActionView, EventView, HttpCallView, NoticeView, RunErrorView, ScriptValueView,
};
use crate::request::{prepared, recorded};
use crate::runner::{entered, resolved, run_step, starting, RunStage, RunnerView};
use crate::scripting::{
    fresh_run, lemma_next_script, lemma_script_step_forward, lemma_script_steps_last,
    script_step, script_steps, ScriptRunView, ScriptStage,
};
use crate::storage::{
    in_scope, lemma_in_scope, lemma_upserted, occurrences, upserted, VariableView,
};
use crate::vars::written;

verus! {

/// The state after the events of `events`, one step each, and the actions
/// that those steps gave.
pub open spec fn run_trace(run: RunnerView, events: Seq<EventView>) -> (RunnerView, Seq<ActionView>)
    decreases events.len(),
{
    if events.len() == 0 {
        (run, Seq::empty())
    } else {
        let before = run_trace(run, events.drop_last());
        let now = run_step(before.0, events.last());
        (now.0, before.1.push(now.1))
    }
}

/// How many of the actions are calls.
pub open spec fn calls_in(actions: Seq<ActionView>) -> nat
    decreases actions.len(),
{
    if actions.len() == 0 {
        0
    } else if actions.last() is Send {
        calls_in(actions.drop_last()) + 1
    } else {
        calls_in(actions.drop_last())
    }
}

/// Whether the project has a request called `name`.
pub open spec fn has_request(project: ProjectView, name: Seq<char>) -> bool {
    exists|i: int| 0 <= i < project.requests.len() && (#[trigger] project.requests[i]).name == name
}

/// A step leaves a coherent state coherent, and changes neither the project
/// nor the route; once the route is resolved, the list of names stays.
pub proof fn lemma_step_coherent(run: RunnerView, event: EventView)
    requires
        run.coherent(),
    ensures
        run_step(run, event).0.coherent(),
        run_step(run, event).0.project == run.project,
        run_step(run, event).0.route == run.route,
        run.stage != RunStage::Resolving ==> run_step(run, event).0.names == run.names,
        run_step(run, event).0.stage != RunStage::Resolving,
{
    lemma_request_position(run.project.requests, run.route);
    if run.stage == RunStage::Resolving {
        if resolved(run.project, run.route) is Some {
            let names = resolved(run.project, run.route)->0;
            if names.len() > 0 {
                lemma_request_position(run.project.requests, names[0]);
            }
        }
    } else if run.in_request() {
        let fresh = fresh_run(
            run.project.api.name,
            run.project.requests[run.request].scripts,
            run.stage == RunStage::Announced,
        );
        let inner = if run.in_scripts() {
            run.scripts
        } else {
            fresh
        };
        let vars = match event {
            EventView::Response { status, body } => if run.stage == RunStage::Awaiting {
                recorded(run.vars, status, body)
            } else {
                run.vars
            },
            _ => run.vars,
        };
        lemma_script_step_forward(inner, vars, event);
        lemma_script_step_forward(inner, vars, EventView::Resume);
        lemma_script_step_coherent(inner, vars, event);
        lemma_script_step_coherent(inner, vars, EventView::Resume);
        if run.index + 1 < run.names.len() {
            lemma_request_position(run.project.requests, run.names[run.index + 1]);
        }
    }
}

/// A step of the script host leaves a coherent state coherent.
pub proof fn lemma_script_step_coherent(
    run: ScriptRunView,
    vars: Map<Seq<char>, Seq<char>>,
    event: EventView,
)
    requires
        run.coherent(),
    ensures
        script_step(run, vars, event).0.coherent(),
{
    lemma_next_script(run.scripts, run.before, 0);
    if run.cursor < run.scripts.len() {
        lemma_next_script(run.scripts, run.before, run.cursor + 1);
    }
}

/// The place of a stage in the course of one request; a run that is over
/// stands after every stage.
pub open spec fn stage_rank(stage: RunStage) -> int {
    match stage {
        RunStage::Resolving => 0,
        RunStage::Announced => 1,
        RunStage::Before => 2,
        RunStage::Awaiting => 3,
        RunStage::After => 4,
        RunStage::Done => 5,
        RunStage::Failed => 5,
    }
}

/// A run goes forward only. The requests are taken in the order of the list,
/// the next one only when the response to the call has come and the scripts
/// after it have run; within one request the scripts before the call come
/// first, then the call, then the scripts after it; and a call is handed out
/// only at the end of the scripts before it.
pub proof fn lemma_step_in_order(run: RunnerView, event: EventView)
    requires
        run.coherent(),
        run.stage != RunStage::Resolving,
    ensures
        run_step(run, event).0.index >= run.index,
        run_step(run, event).0.index == run.index ==> stage_rank(run_step(run, event).0.stage)
            >= stage_rank(run.stage),
        run_step(run, event).0.index > run.index ==> (run.stage == RunStage::Awaiting
            || run.stage == RunStage::After) && run_step(run, event).0.index == run.index + 1,
        run_step(run, event).1 is Send ==> (run.stage == RunStage::Announced || run.stage
            == RunStage::Before) && run_step(run, event).0.stage == RunStage::Awaiting
            && run_step(run, event).0.request == run.request,
{
    lemma_step_coherent(run, event);
    if run.index + 1 < run.names.len() {
        lemma_request_position(run.project.requests, run.names[run.index + 1]);
    }
}

/// A route that is the name of a request stands for that request alone,
/// whatever scenarios the project has: the run takes up that request and no
/// other.
pub proof fn lemma_request_before_scenario(
    project: ProjectView,
    route: Seq<char>,
    vars: Map<Seq<char>, Seq<char>>,
)
    requires
        has_request(project, route),
    ensures
        resolved(project, route) == Some(seq![route]),
        run_step(starting(project, route, vars), EventView::Resume).0.names == seq![route],
        run_step(starting(project, route, vars), EventView::Resume).1 == ActionView::Announce(
            NoticeView::Request(route),
        ),
{
    lemma_request_position(project.requests, route);
    let i = choose|i: int|
        0 <= i < project.requests.len() && (#[trigger] project.requests[i]).name == route;
    assert(request_position(project.requests, route) <= i);
}

/// The request at `index` is looked up when its turn comes: if the project
/// has none of that name, the run fails there, with that name.
pub proof fn lemma_missing_request_fails(run: RunnerView, index: int)
    requires
        0 <= index < run.names.len(),
        !has_request(run.project, run.names[index]),
    ensures
        entered(run, index).0.stage == RunStage::Failed,
        entered(run, index).1 == ActionView::Fail(
            RunErrorView::MissingRequest { name: run.names[index] },
        ),
{
    lemma_request_position(run.project.requests, run.names[index]);
    let at = request_position(run.project.requests, run.names[index]);
    if at < run.project.requests.len() {
        assert(run.project.requests[at].name == run.names[index]);
    }
}

/// A run that has failed does nothing more: whatever is reported to it, it
/// stays failed and asks for nothing.
pub proof fn lemma_failed_stays_failed(run: RunnerView, event: EventView)
    requires
        run.stage == RunStage::Failed,
    ensures
        run_step(run, event).0.stage == RunStage::Failed,
        run_step(run, event).1 == ActionView::Fail(RunErrorView::OutOfTurn),
{
}

/// What bounds the number of calls of a run whose list of names has a name at
/// `bound` that the project lacks: the run never gets past that name, and it
/// has made at most one call for each request that it has taken up.
spec fn held_back(run: RunnerView, calls: nat, bound: int) -> bool {
    &&& run.coherent()
    &&& run.stage != RunStage::Done
    &&& run.in_request() ==> {
        &&& 0 <= bound < run.names.len()
        &&& !has_request(run.project, run.names[bound])
        &&& run.index < bound
    }
    &&& run.stage == RunStage::Resolving ==> calls == 0
    &&& (run.stage == RunStage::Announced || run.stage == RunStage::Before) ==> calls
        <= run.index
    &&& (run.stage == RunStage::Awaiting || run.stage == RunStage::After) ==> calls <= run.index
        + 1
    &&& run.stage == RunStage::Failed ==> calls <= bound
}

/// Taking up a name that the project lacks fails, whatever else the state
/// holds.
proof fn lemma_entering_missing(project: ProjectView, names: Seq<Seq<char>>, index: int)
    requires
        0 <= index < names.len(),
        !has_request(project, names[index]),
    ensures
        forall|run: RunnerView|
            run.project == project && run.names == names ==> (#[trigger] entered(
                run,
                index,
            )).0.stage == RunStage::Failed,
{
    assert forall|run: RunnerView| run.project == project && run.names == names implies (
    #[trigger] entered(run, index)).0.stage == RunStage::Failed by {
        lemma_missing_request_fails(run, index);
    }
}

/// Taking up a name that is not the last leaves the run within its list.
proof fn lemma_entering_present(project: ProjectView, names: Seq<Seq<char>>, index: int)
    requires
        0 <= index < names.len(),
    ensures
        forall|run: RunnerView|
            run.project == project && run.names == names ==> {
                let next = #[trigger] entered(run, index);
                &&& (next.0.stage == RunStage::Failed || next.0.stage == RunStage::Announced)
                &&& next.0.index == index
                &&& next.0.names == names
                &&& !(next.1 is Send)
            },
{
    lemma_request_position(project.requests, names[index]);
}

proof fn lemma_held_back_step(run: RunnerView, calls: nat, bound: int, event: EventView)
    requires
        held_back(run, calls, bound),
        run.stage == RunStage::Resolving ==> resolved(run.project, run.route) is Some && 0
            <= bound < resolved(run.project, run.route)->0.len() && !has_request(
            run.project,
            resolved(run.project, run.route)->0[bound],
        ),
    ensures
        held_back(
            run_step(run, event).0,
            if run_step(run, event).1 is Send {
                calls + 1
            } else {
                calls
            },
            bound,
        ),
{
    lemma_step_coherent(run, event);
    if run.stage == RunStage::Resolving {
        let names = resolved(run.project, run.route)->0;
        lemma_entering_present(run.project, names, 0);
        if bound == 0 {
            lemma_entering_missing(run.project, names, 0);
        }
    } else if run.in_request() {
        lemma_entering_present(run.project, run.names, run.index + 1);
        if run.index + 1 == bound {
            lemma_entering_missing(run.project, run.names, bound);
        }
    }
}

/// A run whose list of names holds, at position `bound`, a name that the
/// project lacks makes at most `bound` calls, whatever the driver reports;
/// none at all where that name comes first.
pub proof fn lemma_calls_before_missing_request(
    project: ProjectView,
    route: Seq<char>,
    vars: Map<Seq<char>, Seq<char>>,
    bound: int,
    events: Seq<EventView>,
)
    requires
        resolved(project, route) is Some,
        0 <= bound < resolved(project, route)->0.len(),
        !has_request(project, resolved(project, route)->0[bound]),
    ensures
        calls_in(run_trace(starting(project, route, vars), events).1) <= bound,
        run_trace(starting(project, route, vars), events).0.stage != RunStage::Done,
{
    lemma_held_back_trace(project, route, vars, bound, events);
}

proof fn lemma_held_back_trace(
    project: ProjectView,
    route: Seq<char>,
    vars: Map<Seq<char>, Seq<char>>,
    bound: int,
    events: Seq<EventView>,
)
    requires
        resolved(project, route) is Some,
        0 <= bound < resolved(project, route)->0.len(),
        !has_request(project, resolved(project, route)->0[bound]),
    ensures
        held_back(
            run_trace(starting(project, route, vars), events).0,
            calls_in(run_trace(starting(project, route, vars), events).1),
            bound,
        ),
        run_trace(starting(project, route, vars), events).0.project == project,
        run_trace(starting(project, route, vars), events).0.route == route,
    decreases events.len(),
{
    let start = starting(project, route, vars);
    if events.len() > 0 {
        lemma_held_back_trace(project, route, vars, bound, events.drop_last());
        let before = run_trace(start, events.drop_last());
        lemma_step_coherent(before.0, events.last());
        lemma_held_back_step(before.0, calls_in(before.1), bound, events.last());
        let now = run_step(before.0, events.last());
        assert(run_trace(start, events).1.drop_last() =~= before.1);
    }
}

/// A step takes no name out of the dictionary. It changes the value of a name
/// only where it writes the response, or where it writes the pair that it
/// hands out to be persisted.
pub proof fn lemma_step_keeps_variables(run: RunnerView, event: EventView, name: Seq<char>)
    requires
        run.coherent(),
        run.vars.contains_key(name),
    ensures
        run_step(run, event).0.vars.contains_key(name),
        run_step(run, event).0.vars[name] == run.vars[name] || (run.stage == RunStage::Awaiting
            && event is Response && (name == "response_body"@ || name == "response_status"@))
            || (run_step(run, event).1 matches ActionView::Persist(variable) && variable.label
            == name && variable.value == run_step(run, event).0.vars[name]),
{
}

/// What a step hands out is made of the dictionary as that step leaves it: a
/// script sees every variable, and a call is the request in hand rendered
/// against it.
pub proof fn lemma_step_uses_variables(run: RunnerView, event: EventView)
    requires
        run.coherent(),
    ensures
        run_step(run, event).1 matches ActionView::Evaluate { source, bindings } ==> bindings
            == run_step(run, event).0.vars,
        run_step(run, event).1 matches ActionView::Send(call) ==> prepared(
            run.project.api,
            run.project.requests[run_step(run, event).0.request],
            run_step(run, event).0.vars,
        ) == Ok::<HttpCallView, RunErrorView>(call),
{
}

/// Through a whole run no name leaves the dictionary: what an earlier request
/// or its scripts have set is there for every later one.
pub proof fn lemma_trace_keeps_names(run: RunnerView, events: Seq<EventView>, name: Seq<char>)
    requires
        run.coherent(),
        run.vars.contains_key(name),
    ensures
        run_trace(run, events).0.coherent(),
        run_trace(run, events).0.vars.contains_key(name),
    decreases events.len(),
{
    if events.len() > 0 {
        lemma_trace_keeps_names(run, events.drop_last(), name);
        let before = run_trace(run, events.drop_last());
        lemma_step_coherent(before.0, events.last());
        lemma_step_keeps_variables(before.0, events.last(), name);
    }
}

/// What the dictionary holds at some point of a run is there for every
/// script and every call that comes later: a later script is given a
/// dictionary that has the name, and a later call is the request in hand
/// rendered against a dictionary that has it.
pub proof fn lemma_later_steps_see(run: RunnerView, events: Seq<EventView>, name: Seq<char>)
    requires
        run.coherent(),
        run.vars.contains_key(name),
        events.len() > 0,
    ensures
        ({
            let end = run_trace(run, events);
            &&& end.0.vars.contains_key(name)
            &&& end.1.last() matches ActionView::Evaluate { source, bindings } ==> bindings
                == end.0.vars
            &&& end.1.last() matches ActionView::Send(call) ==> prepared(
                end.0.project.api,
                end.0.project.requests[end.0.request],
                end.0.vars,
            ) == Ok::<HttpCallView, RunErrorView>(call)
        }),
{
    lemma_trace_keeps_names(run, events, name);
    lemma_trace_keeps_names(run, events.drop_last(), name);
    let before = run_trace(run, events.drop_last());
    lemma_step_coherent(before.0, events.last());
    lemma_step_uses_variables(before.0, events.last());
}

/// The variable that is persisted for a pair of a script of `project`.
pub open spec fn persisted_for(project: Seq<char>, pair: (Seq<char>, Seq<char>)) -> VariableView {
    VariableView { label: pair.0, value: pair.1, project: Some(project) }
}

/// `count` times the report that the last action was carried out.
pub open spec fn resumed(count: nat) -> Seq<EventView> {
    Seq::new(count, |i: int| EventView::Resume)
}

/// A script that returns a mapping has its pairs taken one after another, in
/// the order of the mapping: when the driver has persisted `done` of them,
/// these and the next one are written in the dictionary, a later one over an
/// earlier one of the same name, and the next one is handed out to be
/// persisted for the project of the run.
pub proof fn lemma_mapping_taken_in_order(
    run: ScriptRunView,
    vars: Map<Seq<char>, Seq<char>>,
    pairs: Seq<(Seq<char>, Seq<char>)>,
    done: nat,
)
    requires
        run.coherent(),
        run.stage == ScriptStage::Evaluating,
        done < pairs.len(),
    ensures
        script_steps(
            run,
            vars,
            EventView::Evaluated(ScriptValueView::Mapping(pairs)),
            resumed(done),
        ) == (
            ScriptRunView { pending: pairs, stored: done as int, stage: ScriptStage::Storing, ..run },
            vars.union_prefer_right(written(pairs.take(done as int + 1))),
            ActionView::Persist(persisted_for(run.project, pairs[done as int])),
        ),
    decreases done,
{
    let first = EventView::Evaluated(ScriptValueView::Mapping(pairs));
    assert(pairs.take(done as int + 1).drop_last() =~= pairs.take(done as int));
    let upto = written(pairs.take(done as int));
    let pair = pairs[done as int];
    assert(vars.union_prefer_right(upto.insert(pair.0, pair.1)) =~= vars.union_prefer_right(
        upto,
    ).insert(pair.0, pair.1));
    if done == 0 {
        assert(resumed(0) =~= Seq::empty());
        assert(vars.union_prefer_right(Map::empty()) =~= vars);
    } else {
        let fewer = (done - 1) as nat;
        lemma_mapping_taken_in_order(run, vars, pairs, fewer);
        assert(resumed(done) =~= resumed(fewer).push(EventView::Resume));
        lemma_script_steps_last(run, vars, first, resumed(fewer), EventView::Resume);
    }
}

/// A script that returns the mapping `{label: value}` has `value` written
/// under `label` in the dictionary and handed out to be persisted for the
/// project of the run. Once that variable is written into a store, the store
/// has exactly one row of that label for the project, and it is among the
/// rows that the store gives for the project.
pub proof fn lemma_mapping_persisted(
    run: ScriptRunView,
    vars: Map<Seq<char>, Seq<char>>,
    label: Seq<char>,
    value: Seq<char>,
    rows: Seq<VariableView>,
)
    requires
        run.coherent(),
        run.stage == ScriptStage::Evaluating,
    ensures
        script_step(
            run,
            vars,
            EventView::Evaluated(ScriptValueView::Mapping(seq![(label, value)])),
        ).1 == vars.insert(label, value),
        script_step(
            run,
            vars,
            EventView::Evaluated(ScriptValueView::Mapping(seq![(label, value)])),
        ).2 == ActionView::Persist(persisted_for(run.project, (label, value))),
        occurrences(upserted(rows, label, value, Some(run.project)), label, Some(run.project))
            == 1,
        in_scope(upserted(rows, label, value, Some(run.project)), Some(run.project)).contains(
            persisted_for(run.project, (label, value)),
        ),
{
    let after = upserted(rows, label, value, Some(run.project));
    let row = persisted_for(run.project, (label, value));
    lemma_upserted(rows, label, value, Some(run.project));
    assert(after[after.len() - 1] == row);
    lemma_in_scope(after, Some(run.project), row);
}

} // verus!
