//! The layered merge of variables and the rendering of `${name}`
//! placeholders.

use vstd::prelude::*;
use crate::storage::{
    in_scope, load_variables, variable_views, Variable, VariableStore, VariableView,
};
use crate::text::{chars_of, text_between, text_of};
use crate::vars::{lemma_written_push, pairs_view, written};
pub use crate::vars::Vars;

verus! {

/// The four layers merged, a later layer winning over an earlier one: values
/// from a file, persisted global values, persisted project values, values
/// given by the caller.
pub open spec fn merged(
    file: Map<Seq<char>, Seq<char>>,
    global: Map<Seq<char>, Seq<char>>,
    project: Map<Seq<char>, Seq<char>>,
    caller: Map<Seq<char>, Seq<char>>,
) -> Map<Seq<char>, Seq<char>> {
    file.union_prefer_right(global).union_prefer_right(project).union_prefer_right(caller)
}

/// Merges the four layers into one dictionary. Precedence, lowest first:
/// `env_file_vars`, `global_vars`, `project_vars`, `cli_vars`.
pub fn merge_vars(env_file_vars: Vars, global_vars: Vars, project_vars: Vars, cli_vars: Vars) -> (all: Vars)
    ensures
        all@ == merged(env_file_vars@, global_vars@, project_vars@, cli_vars@),
{
    let mut all = Vars::new();
    all.extend(env_file_vars);
    all.extend(global_vars);
    all.extend(project_vars);
    all.extend(cli_vars);
    assert(Map::<Seq<char>, Seq<char>>::empty().union_prefer_right(env_file_vars@)
        =~= env_file_vars@);
    all
}

/// The label and the value of each row, in order.
pub open spec fn labelled(rows: Seq<VariableView>) -> Seq<(Seq<char>, Seq<char>)> {
    rows.map_values(|row: VariableView| (row.label, row.value))
}

/// The dictionary that a list of persisted variables gives: each value under
/// its label.
pub fn vars_of(list: &Vec<Variable>) -> (vars: Vars)
    ensures
        vars@ == written(labelled(variable_views(list@))),
{
    let mut vars = Vars::new();
    let ghost all = labelled(variable_views(list@));
    let mut i: usize = 0;
    assert(all.take(0) =~= Seq::empty());
    while i < list.len()
        invariant
            i <= list.len(),
            all == labelled(variable_views(list@)),
            vars@ == written(all.take(i as int)),
        decreases list.len() - i,
    {
        let k = list[i].label.clone();
        let v = list[i].value.clone();
        proof {
            assert(all.take(i + 1) =~= all.take(i as int).push(all[i as int]));
            lemma_written_push(all.take(i as int), all[i as int]);
        }
        vars.insert(k, v);
        i += 1;
    }
    assert(all.take(i as int) =~= all);
    vars
}

/// The dictionary with which a run of `project` starts: the pairs read from
/// a file; over them the global variables of the store; over these the
/// variables of the project; and over all of them the pairs that the caller
/// gave.
pub open spec fn gathered(
    file: Seq<(Seq<char>, Seq<char>)>,
    rows: Seq<VariableView>,
    project: Seq<char>,
    given: Seq<(Seq<char>, Seq<char>)>,
) -> Map<Seq<char>, Seq<char>> {
    merged(
        written(file),
        written(labelled(in_scope(rows, None))),
        written(labelled(in_scope(rows, Some(project)))),
        written(given),
    )
}

/// Gathers the dictionary with which a run of `project` starts.
pub fn gather_vars(
    file: Vec<(String, String)>,
    store: &VariableStore,
    project: &str,
    given: Vec<(String, String)>,
) -> (vars: Vars)
    ensures
        vars@ == gathered(pairs_view(file@), store@, project@, pairs_view(given@)),
{
    let (global, own) = load_variables(store, project);
    merge_vars(Vars::from_pairs(file), vars_of(&global), vars_of(&own), Vars::from_pairs(given))
}

/// In the merge a name is present exactly if some layer has it, and its value
/// is that of the highest layer that has it: caller, then project, then
/// global, then file.
pub proof fn lemma_merge_precedence(
    file: Map<Seq<char>, Seq<char>>,
    global: Map<Seq<char>, Seq<char>>,
    project: Map<Seq<char>, Seq<char>>,
    caller: Map<Seq<char>, Seq<char>>,
    name: Seq<char>,
)
    ensures
        merged(file, global, project, caller).contains_key(name) <==> (file.contains_key(name)
            || global.contains_key(name) || project.contains_key(name) || caller.contains_key(
            name,
        )),
        caller.contains_key(name) ==> merged(file, global, project, caller)[name] == caller[name],
        !caller.contains_key(name) && project.contains_key(name) ==> merged(
            file,
            global,
            project,
            caller,
        )[name] == project[name],
        !caller.contains_key(name) && !project.contains_key(name) && global.contains_key(name)
            ==> merged(file, global, project, caller)[name] == global[name],
        !caller.contains_key(name) && !project.contains_key(name) && !global.contains_key(name)
            && file.contains_key(name) ==> merged(file, global, project, caller)[name]
            == file[name],
{
}

/// The characters a placeholder's name is made of: ASCII letters, digits and
/// the underscore.
pub open spec fn is_name_char(c: char) -> bool {
    ('a' <= c && c <= 'z') || ('A' <= c && c <= 'Z') || ('0' <= c && c <= '9') || c == '_'
}

/// The length of the longest run of name characters at the start of `t`.
pub open spec fn name_len(t: Seq<char>) -> int
    decreases t.len(),
{
    if t.len() > 0 && is_name_char(t[0]) {
        1 + name_len(t.skip(1))
    } else {
        0
    }
}

/// Whether `t` starts with a placeholder: `${`, a name of at least one
/// character, `}`.
pub open spec fn opens_placeholder(t: Seq<char>) -> bool {
    &&& t.len() >= 2
    &&& t[0] == '$'
    &&& t[1] == '{'
    &&& name_len(t.skip(2)) > 0
    &&& 2 + name_len(t.skip(2)) < t.len()
    &&& t[2 + name_len(t.skip(2))] == '}'
}

/// The name of the placeholder that `t` starts with.
pub open spec fn placeholder_name(t: Seq<char>) -> Seq<char> {
    t.subrange(2, 2 + name_len(t.skip(2)))
}

/// The length of the placeholder that `t` starts with, braces included.
pub open spec fn placeholder_len(t: Seq<char>) -> int {
    name_len(t.skip(2)) + 3
}

/// What stands in the output for the placeholder that `t` starts with: the
/// value of its name, or the placeholder itself where the name is unknown.
pub open spec fn replacement(t: Seq<char>, vars: Map<Seq<char>, Seq<char>>) -> Seq<char> {
    if vars.contains_key(placeholder_name(t)) {
        vars[placeholder_name(t)]
    } else {
        t.take(placeholder_len(t))
    }
}

/// The template `t` with every placeholder of a known name replaced by the
/// name's value. The scan goes from left to right and never looks into a
/// value that it has put in.
pub open spec fn rendered(t: Seq<char>, vars: Map<Seq<char>, Seq<char>>) -> Seq<char>
    decreases t.len(),
{
    if t.len() == 0 {
        t
    } else if opens_placeholder(t) {
        replacement(t, vars) + rendered(t.skip(placeholder_len(t)), vars)
    } else {
        seq![t[0]] + rendered(t.skip(1), vars)
    }
}

/// The text of the placeholder for `name`: `${`, the name, `}`.
pub open spec fn placeholder(name: Seq<char>) -> Seq<char> {
    seq!['$', '{'] + name + seq!['}']
}

/// Whether `name` can stand in a placeholder: it is not empty and made of
/// name characters only.
pub open spec fn is_name(name: Seq<char>) -> bool {
    &&& name.len() > 0
    &&& forall|i: int| 0 <= i < name.len() ==> is_name_char(#[trigger] name[i])
}

/// A run of name characters is no longer than the text.
pub proof fn lemma_name_len_bounds(t: Seq<char>)
    ensures
        0 <= name_len(t) <= t.len(),
    decreases t.len(),
{
    if t.len() > 0 && is_name_char(t[0]) {
        lemma_name_len_bounds(t.skip(1));
    }
}

/// What follows a text does not change its run of name characters, if it
/// starts with a character that is none.
proof fn lemma_name_len_prefix(t: Seq<char>, r: Seq<char>)
    requires
        r.len() > 0,
        !is_name_char(r[0]),
    ensures
        name_len(t + r) == name_len(t),
    decreases t.len(),
{
    if t.len() == 0 {
        assert(t + r =~= r);
    } else if is_name_char(t[0]) {
        assert((t + r).skip(1) =~= t.skip(1) + r);
        lemma_name_len_prefix(t.skip(1), r);
    }
}

/// The run of name characters of a name, followed by a character that is
/// none, is the name.
proof fn lemma_name_len_of_name(name: Seq<char>, r: Seq<char>)
    requires
        forall|i: int| 0 <= i < name.len() ==> is_name_char(#[trigger] name[i]),
        r.len() > 0,
        !is_name_char(r[0]),
    ensures
        name_len(name + r) == name.len(),
    decreases name.len(),
{
    if name.len() == 0 {
        assert(name + r =~= r);
    } else {
        assert((name + r).skip(1) =~= name.skip(1) + r);
        assert forall|i: int| 0 <= i < name.skip(1).len() implies is_name_char(
            #[trigger] name.skip(1)[i],
        ) by {
            assert(name.skip(1)[i] == name[i + 1]);
        }
        lemma_name_len_of_name(name.skip(1), r);
    }
}

/// Rendering goes through a template piece by piece wherever the next piece
/// starts with `$`: no placeholder reaches across such a place.
pub proof fn lemma_render_split(a: Seq<char>, r: Seq<char>, vars: Map<Seq<char>, Seq<char>>)
    requires
        r.len() > 0,
        r[0] == '$',
    ensures
        rendered(a + r, vars) == rendered(a, vars) + rendered(r, vars),
    decreases a.len(),
{
    let t = a + r;
    if a.len() == 0 {
        assert(t =~= r);
        assert(rendered(a, vars) + rendered(r, vars) =~= rendered(r, vars));
    } else {
        if a.len() >= 2 {
            assert(t.skip(2) =~= a.skip(2) + r);
            lemma_name_len_prefix(a.skip(2), r);
            lemma_name_len_bounds(a.skip(2));
        }
        if opens_placeholder(t) {
            assert(opens_placeholder(a));
            let n = placeholder_len(a);
            assert(placeholder_len(t) == n);
            assert(t.skip(n) =~= a.skip(n) + r);
            assert(t.take(n) =~= a.take(n));
            assert(placeholder_name(t) =~= placeholder_name(a));
            lemma_render_split(a.skip(n), r, vars);
            assert(rendered(t, vars) =~= rendered(a, vars) + rendered(r, vars));
        } else {
            assert(!opens_placeholder(a));
            assert(t.skip(1) =~= a.skip(1) + r);
            lemma_render_split(a.skip(1), r, vars);
            assert(rendered(t, vars) =~= rendered(a, vars) + rendered(r, vars));
        }
    }
}

/// A placeholder in a template is rendered where it stands: what comes before
/// it and what comes after it are rendered on their own, and between them
/// stands the value of the name, taken literally, or, where the name is
/// unknown, the placeholder as it was written.
pub proof fn lemma_render_placeholder(
    before: Seq<char>,
    name: Seq<char>,
    after: Seq<char>,
    vars: Map<Seq<char>, Seq<char>>,
)
    requires
        is_name(name),
    ensures
        rendered(before + placeholder(name) + after, vars) == rendered(before, vars) + (if vars.contains_key(
            name,
        ) {
            vars[name]
        } else {
            placeholder(name)
        }) + rendered(after, vars),
{
    let p = placeholder(name);
    let t = p + after;
    let tail = seq!['}'] + after;
    assert(t.skip(2) =~= name + tail);
    lemma_name_len_of_name(name, tail);
    assert(opens_placeholder(t));
    assert(placeholder_name(t) =~= name);
    assert(t.take(placeholder_len(t)) =~= p);
    assert(t.skip(placeholder_len(t)) =~= after);
    assert(before + p + after =~= before + t);
    lemma_render_split(before, t, vars);
}

/// Rendering changes nothing in a template none of whose placeholders has a
/// known name; in particular in one without placeholders.
pub proof fn lemma_render_unresolved(t: Seq<char>, vars: Map<Seq<char>, Seq<char>>)
    requires
        forall|i: int|
            0 <= i < t.len() && opens_placeholder(#[trigger] t.skip(i)) ==> !vars.contains_key(
                placeholder_name(t.skip(i)),
            ),
    ensures
        rendered(t, vars) == t,
    decreases t.len(),
{
    if t.len() > 0 {
        assert(t.skip(0) =~= t);
        let n = if opens_placeholder(t) { placeholder_len(t) } else { 1 };
        lemma_name_len_bounds(t.skip(2));
        let rest = t.skip(n);
        assert forall|i: int|
            0 <= i < rest.len() && opens_placeholder(#[trigger] rest.skip(i)) implies !vars.contains_key(
            placeholder_name(rest.skip(i)),
        ) by {
            assert(rest.skip(i) =~= t.skip(n + i));
        }
        lemma_render_unresolved(rest, vars);
        assert(t.take(n) + t.skip(n) =~= t);
        assert(seq![t[0]] =~= t.take(1));
    }
}

/// Rendering changes nothing in a template in which `${` does not occur.
pub proof fn lemma_render_plain(t: Seq<char>, vars: Map<Seq<char>, Seq<char>>)
    requires
        forall|i: int| 0 <= i < t.len() - 1 ==> !(t[i] == '$' && #[trigger] t[i + 1] == '{'),
    ensures
        rendered(t, vars) == t,
{
    assert forall|i: int| 0 <= i < t.len() implies !opens_placeholder(#[trigger] t.skip(i)) by {
        if t.skip(i).len() >= 2 {
            assert(t.skip(i)[0] == t[i]);
            assert(t.skip(i)[1] == t[i + 1]);
        }
    }
    lemma_render_unresolved(t, vars);
}

/// The reason for which rendering can fail. The placeholder grammar is fixed,
/// so no template and no dictionary gives it.
#[derive(Debug)]
pub struct RenderError {}

fn name_char(c: char) -> (b: bool)
    ensures
        b == is_name_char(c),
{
    ('a' <= c && c <= 'z') || ('A' <= c && c <= 'Z') || ('0' <= c && c <= '9') || c == '_'
}

/// The end of the run of name characters that starts at `from`.
fn name_run_end(t: &Vec<char>, from: usize) -> (end: usize)
    requires
        from <= t.len(),
    ensures
        from <= end <= t.len(),
        end == from + name_len(t@.skip(from as int)),
{
    let mut end: usize = from;
    while end < t.len() && name_char(t[end])
        invariant
            from <= end <= t.len(),
            name_len(t@.skip(from as int)) == (end - from) + name_len(t@.skip(end as int)),
        decreases t.len() - end,
    {
        assert(t@.skip(end as int).skip(1) =~= t@.skip(end + 1));
        end += 1;
    }
    end
}

/// The end of the placeholder that starts at `from`, if one starts there.
fn placeholder_end(t: &Vec<char>, from: usize) -> (r: Option<usize>)
    requires
        from < t.len(),
    ensures
        match r {
            Some(end) => opens_placeholder(t@.skip(from as int)) && end == from + placeholder_len(
                t@.skip(from as int),
            ) && end <= t.len(),
            None => !opens_placeholder(t@.skip(from as int)),
        },
{
    if t[from] != '$' || t.len() - from < 2 || t[from + 1] != '{' {
        return None;
    }
    assert(t@.skip(from as int).skip(2) =~= t@.skip(from + 2));
    let end = name_run_end(t, from + 2);
    if end > from + 2 && end < t.len() && t[end] == '}' {
        Some(end + 1)
    } else {
        None
    }
}

/// Appends `src[from..to]` to `out`.
fn append_chars(out: &mut Vec<char>, src: &Vec<char>, from: usize, to: usize)
    requires
        from <= to <= src.len(),
    ensures
        final(out)@ == old(out)@ + src@.subrange(from as int, to as int),
{
    let mut i: usize = from;
    while i < to
        invariant
            from <= i <= to <= src.len(),
            out@ == old(out)@ + src@.subrange(from as int, i as int),
        decreases to - i,
    {
        out.push(src[i]);
        i += 1;
    }
}

/// Replaces each `${name}` whose name is in `vars` by the name's value and
/// leaves every other character as it is. It always succeeds.
pub fn render_placeholders(input: &str, vars: &Vars) -> (r: Result<String, RenderError>)
    ensures
        r matches Ok(s) && s@ == rendered(input@, vars@),
{
    Ok(render_text(input, vars))
}

/// `input` with each `${name}` whose name is in `vars` replaced by the name's
/// value.
pub fn render_text(input: &str, vars: &Vars) -> (s: String)
    ensures
        s@ == rendered(input@, vars@),
{
    let t = chars_of(input);
    let mut out: Vec<char> = Vec::new();
    let mut i: usize = 0;
    assert(t@.skip(0) =~= t@);
    while i < t.len()
        invariant
            i <= t.len(),
            out@ + rendered(t@.skip(i as int), vars@) == rendered(t@, vars@),
        decreases t.len() - i,
    {
        let ghost rest = t@.skip(i as int);
        match placeholder_end(&t, i) {
            Some(end) => {
                let name = text_between(&t, i + 2, end - 1);
                assert(name@ == placeholder_name(rest)) by {
                    assert(t@.subrange(i + 2, end - 1) =~= rest.subrange(2, end - 1 - i));
                }
                assert(rest.skip(placeholder_len(rest)) =~= t@.skip(end as int));
                match vars.get(name.as_str()) {
                    Some(value) => {
                        let v = chars_of(value.as_str());
                        assert(v@.subrange(0, v@.len() as int) =~= v@);
                        append_chars(&mut out, &v, 0, v.len());
                    },
                    None => {
                        assert(t@.subrange(i as int, end as int) =~= rest.take(
                            placeholder_len(rest),
                        ));
                        append_chars(&mut out, &t, i, end);
                    },
                }
                i = end;
            },
            None => {
                assert(rest.skip(1) =~= t@.skip(i + 1));
                out.push(t[i]);
                i += 1;
            },
        }
    }
    text_of(&out)
}

} // verus!
