//! Persisted variables: rows of (label, value, scope), where the scope is
//! either global or one project. A label has at most one row per scope.

use vstd::prelude::*;
use crate::text::{opt_text, same_text};

verus! {

/// A persisted variable. `project` is `None` for a global one.
#[derive(Debug)]
pub struct Variable {
    pub label: String,
    pub value: String,
    pub project: Option<String>,
}

/// What a persisted variable holds.
pub struct VariableView {
    pub label: Seq<char>,
    pub value: Seq<char>,
    pub project: Option<Seq<char>>,
}

impl View for Variable {
    type V = VariableView;

    open spec fn view(&self) -> VariableView {
        VariableView {
            label: self.label@,
            value: self.value@,
            project: opt_text(self.project),
        }
    }
}

impl Clone for Variable {
    fn clone(&self) -> (copy: Variable)
        ensures
            copy@ == self@,
    {
        Variable {
            label: self.label.clone(),
            value: self.value.clone(),
            project: match &self.project {
                Some(p) => Some(p.clone()),
                None => None,
            },
        }
    }
}

/// The views of a list of variables.
pub open spec fn variable_views(list: Seq<Variable>) -> Seq<VariableView> {
    list.map_values(|v: Variable| v@)
}

/// The rows of `rows` that are not those of `label` in `scope`, in order.
pub open spec fn without(rows: Seq<VariableView>, label: Seq<char>, scope: Option<Seq<char>>) -> Seq<
    VariableView,
>
    decreases rows.len(),
{
    if rows.len() == 0 {
        rows
    } else if rows.last().label == label && rows.last().project == scope {
        without(rows.drop_last(), label, scope)
    } else {
        without(rows.drop_last(), label, scope).push(rows.last())
    }
}

/// The rows after `value` was written under `label` in `scope`: every earlier
/// row of that label and scope is gone, and the new row stands last.
pub open spec fn upserted(
    rows: Seq<VariableView>,
    label: Seq<char>,
    value: Seq<char>,
    scope: Option<Seq<char>>,
) -> Seq<VariableView> {
    without(rows, label, scope).push(VariableView { label, value, project: scope })
}

/// The rows of `rows` that belong to `scope`, in order.
pub open spec fn in_scope(rows: Seq<VariableView>, scope: Option<Seq<char>>) -> Seq<VariableView>
    decreases rows.len(),
{
    if rows.len() == 0 {
        rows
    } else if rows.last().project == scope {
        in_scope(rows.drop_last(), scope).push(rows.last())
    } else {
        in_scope(rows.drop_last(), scope)
    }
}

/// How many rows `label` has in `scope`.
pub open spec fn occurrences(rows: Seq<VariableView>, label: Seq<char>, scope: Option<Seq<char>>) -> nat
    decreases rows.len(),
{
    if rows.len() == 0 {
        0
    } else if rows.last().label == label && rows.last().project == scope {
        occurrences(rows.drop_last(), label, scope) + 1
    } else {
        occurrences(rows.drop_last(), label, scope)
    }
}

/// No label has two rows in one scope.
pub open spec fn one_row_each(rows: Seq<VariableView>) -> bool {
    forall|i: int, j: int|
        0 <= i < j < rows.len() ==> !(rows[i].label == rows[j].label && rows[i].project
            == rows[j].project)
}

/// The rows that result from writing each variable of `list` in order.
pub open spec fn replayed(list: Seq<VariableView>) -> Seq<VariableView>
    decreases list.len(),
{
    if list.len() == 0 {
        list
    } else {
        upserted(
            replayed(list.drop_last()),
            list.last().label,
            list.last().value,
            list.last().project,
        )
    }
}

/// `without` keeps rows of `rows`, in order, and none of the given label and
/// scope.
pub proof fn lemma_without(rows: Seq<VariableView>, label: Seq<char>, scope: Option<Seq<char>>)
    ensures
        without(rows, label, scope).len() <= rows.len(),
        occurrences(without(rows, label, scope), label, scope) == 0,
        forall|i: int|
            0 <= i < without(rows, label, scope).len() ==> !((#[trigger] without(
                rows,
                label,
                scope,
            )[i]).label == label && without(rows, label, scope)[i].project == scope),
        one_row_each(rows) ==> one_row_each(without(rows, label, scope)),
        forall|i: int|
            0 <= i < without(rows, label, scope).len() ==> rows.contains(
                #[trigger] without(rows, label, scope)[i],
            ),
    decreases rows.len(),
{
    if rows.len() > 0 {
        let head = rows.drop_last();
        lemma_without(head, label, scope);
        let w = without(rows, label, scope);
        let wh = without(head, label, scope);
        assert forall|i: int| 0 <= i < w.len() implies rows.contains(#[trigger] w[i]) by {
            if i < wh.len() {
                assert(head.contains(wh[i]));
                let k = choose|k: int| 0 <= k < head.len() && head[k] == wh[i];
                assert(rows[k] == wh[i]);
            } else {
                assert(rows[rows.len() - 1] == w[i]);
            }
        }
        if !(rows.last().label == label && rows.last().project == scope) {
            assert(w.drop_last() =~= wh);
            if one_row_each(rows) {
                assert(one_row_each(head));
                assert forall|i: int, j: int| 0 <= i < j < w.len() implies !(w[i].label
                    == w[j].label && w[i].project == w[j].project) by {
                    if j == w.len() - 1 {
                        assert(head.contains(wh[i]));
                        let k = choose|k: int| 0 <= k < head.len() && head[k] == wh[i];
                        assert(rows[k] == w[i]);
                    }
                }
            }
        } else {
            if one_row_each(rows) {
                assert(one_row_each(head));
            }
        }
    }
}

/// After a write the label has exactly one row in its scope, the last one,
/// and it holds the value written; no label has two rows in one scope if
/// none had before.
pub proof fn lemma_upserted(
    rows: Seq<VariableView>,
    label: Seq<char>,
    value: Seq<char>,
    scope: Option<Seq<char>>,
)
    ensures
        occurrences(upserted(rows, label, value, scope), label, scope) == 1,
        upserted(rows, label, value, scope).last() == (VariableView {
            label,
            value,
            project: scope,
        }),
        one_row_each(rows) ==> one_row_each(upserted(rows, label, value, scope)),
{
    lemma_without(rows, label, scope);
    let w = without(rows, label, scope);
    let u = upserted(rows, label, value, scope);
    assert(u.drop_last() =~= w);
    if one_row_each(rows) {
        assert forall|i: int, j: int| 0 <= i < j < u.len() implies !(u[i].label == u[j].label
            && u[i].project == u[j].project) by {
            if j < w.len() {
                assert(u[i] == w[i] && u[j] == w[j]);
            } else {
                assert(u[i] == w[i]);
            }
        }
    }
}

/// Writing a label twice in one scope leaves exactly one row of it there,
/// which holds the second value.
pub proof fn lemma_upsert_twice(
    rows: Seq<VariableView>,
    label: Seq<char>,
    first: Seq<char>,
    second: Seq<char>,
    scope: Option<Seq<char>>,
)
    ensures
        ({
            let after = upserted(upserted(rows, label, first, scope), label, second, scope);
            &&& occurrences(after, label, scope) == 1
            &&& forall|i: int|
                0 <= i < after.len() && (#[trigger] after[i]).label == label && after[i].project
                    == scope ==> after[i].value == second
        }),
{
    let once = upserted(rows, label, first, scope);
    lemma_upserted(once, label, second, scope);
    lemma_without(once, label, scope);
}

/// A row is among those of its scope exactly if it is among all rows.
pub proof fn lemma_in_scope(rows: Seq<VariableView>, scope: Option<Seq<char>>, row: VariableView)
    ensures
        in_scope(rows, scope).contains(row) <==> rows.contains(row) && row.project == scope,
        in_scope(rows, scope).len() <= rows.len(),
    decreases rows.len(),
{
    if rows.len() > 0 {
        let head = rows.drop_last();
        lemma_in_scope(head, scope, row);
        let s = in_scope(rows, scope);
        let sh = in_scope(head, scope);
        if rows.contains(row) && row.project == scope {
            let k = choose|k: int| 0 <= k < rows.len() && rows[k] == row;
            if k < head.len() {
                assert(head[k] == row);
                assert(head.contains(row));
                let m = choose|m: int| 0 <= m < sh.len() && sh[m] == row;
                assert(s[m] == row);
            } else {
                assert(s[s.len() - 1] == row);
            }
        }
        if s.contains(row) {
            let m = choose|m: int| 0 <= m < s.len() && s[m] == row;
            if m < sh.len() {
                assert(sh[m] == row);
                assert(sh.contains(row));
                let k = choose|k: int| 0 <= k < head.len() && head[k] == row;
                assert(rows[k] == row);
            } else {
                assert(rows[rows.len() - 1] == row);
            }
        }
    }
}

/// A write in one scope leaves the rows of every other scope as they were.
pub proof fn lemma_write_leaves_other_scopes(
    rows: Seq<VariableView>,
    label: Seq<char>,
    value: Seq<char>,
    scope: Option<Seq<char>>,
    other: Option<Seq<char>>,
)
    requires
        other != scope,
    ensures
        in_scope(upserted(rows, label, value, scope), other) == in_scope(rows, other),
{
    lemma_without_other_scope(rows, label, scope, other);
    let kept = without(rows, label, scope);
    let row = VariableView { label, value, project: scope };
    assert(kept.push(row).drop_last() =~= kept);
}

/// Taking the rows of a label out of one scope leaves the rows of every
/// other scope as they were.
proof fn lemma_without_other_scope(
    rows: Seq<VariableView>,
    label: Seq<char>,
    scope: Option<Seq<char>>,
    other: Option<Seq<char>>,
)
    requires
        other != scope,
    ensures
        in_scope(without(rows, label, scope), other) == in_scope(rows, other),
    decreases rows.len(),
{
    if rows.len() > 0 {
        let head = rows.drop_last();
        lemma_without_other_scope(head, label, scope, other);
        if !(rows.last().label == label && rows.last().project == scope) {
            assert(without(rows, label, scope).drop_last() =~= without(head, label, scope));
        }
    }
}

/// The store of persisted variables, as the engine sees it.
#[derive(Debug)]
pub struct VariableStore {
    rows: Vec<Variable>,
}

impl View for VariableStore {
    type V = Seq<VariableView>;

    closed spec fn view(&self) -> Seq<VariableView> {
        variable_views(self.rows@)
    }
}

fn same_scope(a: &Option<String>, b: Option<&str>) -> (r: bool)
    ensures
        r == (match (*a, b) {
            (Some(x), Some(y)) => x@ == y@,
            (None, None) => true,
            _ => false,
        }),
{
    match a {
        Some(x) => match b {
            Some(y) => same_text(x.as_str(), y),
            None => false,
        },
        None => b.is_none(),
    }
}

/// What an optional borrowed text holds.
pub open spec fn scope_text(scope: Option<&str>) -> Option<Seq<char>> {
    match scope {
        Some(p) => Some(p@),
        None => None,
    }
}

impl VariableStore {
    #[verifier::type_invariant]
    spec fn well_formed(self) -> bool {
        one_row_each(variable_views(self.rows@))
    }

    /// A store without rows.
    pub fn new() -> (store: VariableStore)
        ensures
            store@ == Seq::<VariableView>::empty(),
    {
        let store = VariableStore { rows: Vec::new() };
        assert(variable_views(store.rows@) =~= Seq::empty());
        store
    }

    /// The store that results from writing each variable of `list` in order.
    pub fn from_rows(list: Vec<Variable>) -> (store: VariableStore)
        ensures
            store@ == replayed(variable_views(list@)),
    {
        let mut store = VariableStore::new();
        let ghost all = variable_views(list@);
        let mut i: usize = 0;
        assert(all.take(0) =~= Seq::empty());
        while i < list.len()
            invariant
                i <= list.len(),
                all == variable_views(list@),
                store@ == replayed(all.take(i as int)),
            decreases list.len() - i,
        {
            assert(all.take(i + 1).drop_last() =~= all.take(i as int));
            let scope: Option<&str> = match &list[i].project {
                Some(p) => Some(p.as_str()),
                None => None,
            };
            set_variable(&mut store, list[i].label.as_str(), list[i].value.as_str(), scope);
            i += 1;
        }
        assert(all.take(i as int) =~= all);
        store
    }

    /// The number of rows.
    pub fn len(&self) -> (n: usize)
        ensures
            n == self@.len(),
    {
        self.rows.len()
    }

    /// All rows, in order.
    pub fn rows(&self) -> (list: Vec<Variable>)
        ensures
            variable_views(list@) == self@,
            one_row_each(self@),
    {
        proof {
            use_type_invariant(self);
        }
        select(&self.rows, None, false)
    }
}

/// Copies the rows of `rows` that belong to `scope`, or all of them where
/// `scoped` is false.
fn select(rows: &Vec<Variable>, scope: Option<&str>, scoped: bool) -> (list: Vec<Variable>)
    ensures
        scoped ==> variable_views(list@) == in_scope(variable_views(rows@), scope_text(scope)),
        !scoped ==> variable_views(list@) == variable_views(rows@),
{
    let ghost all = variable_views(rows@);
    let mut list: Vec<Variable> = Vec::new();
    let mut i: usize = 0;
    assert(all.take(0) =~= Seq::empty());
    assert(variable_views(list@) =~= Seq::empty());
    while i < rows.len()
        invariant
            i <= rows.len(),
            all == variable_views(rows@),
            scoped ==> variable_views(list@) == in_scope(all.take(i as int), scope_text(scope)),
            !scoped ==> variable_views(list@) == all.take(i as int),
        decreases rows.len() - i,
    {
        assert(all.take(i + 1).drop_last() =~= all.take(i as int));
        assert(all.take(i + 1).last() == rows@[i as int]@);
        if !scoped || same_scope(&rows[i].project, scope) {
            let ghost prior = list@;
            let row = rows[i].clone();
            list.push(row);
            assert(variable_views(list@) =~= variable_views(prior).push(row@));
            assert(!scoped ==> all.take(i + 1) =~= all.take(i as int).push(row@));
        }
        i += 1;
    }
    assert(all.take(i as int) =~= all);
    list
}

/// Writes `value` under `label`, globally where `project` is `None`, else for
/// that project. A row that the label had in that scope is replaced.
pub fn set_variable(store: &mut VariableStore, label: &str, value: &str, project: Option<&str>)
    ensures
        final(store)@ == upserted(old(store)@, label@, value@, scope_text(project)),
{
    proof {
        use_type_invariant(&*store);
    }
    let ghost all = store@;
    let mut kept: Vec<Variable> = Vec::new();
    let mut i: usize = 0;
    assert(all.take(0) =~= Seq::empty());
    assert(variable_views(kept@) =~= Seq::empty());
    while i < store.rows.len()
        invariant
            i <= store.rows.len(),
            all == variable_views(store.rows@),
            variable_views(kept@) == without(all.take(i as int), label@, scope_text(project)),
        decreases store.rows.len() - i,
    {
        assert(all.take(i + 1).drop_last() =~= all.take(i as int));
        assert(all.take(i + 1).last() == store.rows@[i as int]@);
        if !(same_text(store.rows[i].label.as_str(), label) && same_scope(
            &store.rows[i].project,
            project,
        )) {
            let ghost prior = kept@;
            let row = store.rows[i].clone();
            kept.push(row);
            assert(variable_views(kept@) =~= variable_views(prior).push(row@));
        }
        i += 1;
    }
    assert(all.take(i as int) =~= all);
    let row = Variable {
        label: label.to_owned(),
        value: value.to_owned(),
        project: match project {
            Some(p) => Some(p.to_owned()),
            None => None,
        },
    };
    let ghost prior = kept@;
    kept.push(row);
    assert(variable_views(kept@) =~= variable_views(prior).push(row@));
    proof {
        lemma_upserted(all, label@, value@, scope_text(project));
    }
    store.rows = kept;
}

/// The global variables and those of `project`, each list in the order of the
/// rows.
pub fn load_variables(store: &VariableStore, project: &str) -> (lists: (Vec<Variable>, Vec<Variable>))
    ensures
        variable_views(lists.0@) == in_scope(store@, None),
        variable_views(lists.1@) == in_scope(store@, Some(project@)),
{
    let global = select(&store.rows, None, true);
    let own = select(&store.rows, Some(project), true);
    (global, own)
}

} // verus!
