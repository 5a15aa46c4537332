//! What reports on a plan do to it, what a plan is after it was tidied up, and
//! which paths and calls of a contract are the same.

use crate::json::{JsonView, json_equal};
use crate::plan::completion::asking_ids;
use crate::plan::model::{
    AppendedView, ArtifactView, CheckView, PlanView, ProgressUpdateView, ProgressView,
    StepUpdateView,
};
use crate::plan::normalize::{kept_texts, normal_artifact, normal_question};
use crate::plan::progress::{
    added_record, appended_problems, changed, extended, ids_unique, lemma_extended_keeps,
    lemma_position_in_range, position_from, progress_after, report_problem, update_problems,
};
use crate::plan::rules::{contract_path, identifier_problem, text_problem};
use crate::plan::stored::has_progress;
use crate::text::{
    ascii_lower, first_problem, is_space, lemma_trimmed_already, replaced_char, trimmed,
};
use vstd::prelude::*;
use vstd::string::*;

verus! {

// ---------------------------------------------------------------------------
// Progress
// ---------------------------------------------------------------------------

/// The report speaks of the step `id`.
pub open spec fn speaks_of(updates: Seq<StepUpdateView>, n: int, id: Seq<char>) -> bool {
    exists|j: int| 0 <= j < n && (#[trigger] updates[j]).id == id
}

/// The changes among the first `n` can be made: no step is named twice, and
/// each is a step of the plan.
pub open spec fn can_be_changed(
    progress: Seq<ProgressView>,
    updates: Seq<StepUpdateView>,
    n: int,
) -> bool {
    &&& forall|i: int, j: int|
        0 <= i < j < n ==> (#[trigger] updates[i]).id != (#[trigger] updates[j]).id
    &&& forall|j: int|
        0 <= j < n ==> exists|k: int|
            0 <= k < progress.len() && (#[trigger] progress[k]).id == (#[trigger] updates[j]).id
}

/// The steps among the first `n` can be added: there is room, and each has an
/// identifier of its own.
pub open spec fn can_be_added(
    progress: Seq<ProgressView>,
    added: Seq<AppendedView>,
    n: int,
) -> bool {
    &&& n > 0 ==> progress.len() + n <= 12
    &&& forall|i: int, j: int|
        0 <= i < j < n ==> (#[trigger] added[i]).id != (#[trigger] added[j]).id
    &&& forall|j: int, k: int|
        0 <= j < n && 0 <= k < progress.len() ==> (#[trigger] progress[k]).id != (
        #[trigger] added[j]).id
}

proof fn lemma_changed(progress: Seq<ProgressView>, updates: Seq<StepUpdateView>, n: int)
    requires
        0 <= n <= updates.len(),
        ids_unique(progress),
    ensures
        changed(progress, updates, n) is Ok <==> can_be_changed(progress, updates, n),
        changed(progress, updates, n) matches Ok(p) ==> {
            &&& p.len() == progress.len()
            &&& forall|k: int|
                0 <= k < p.len() ==> (#[trigger] p[k]).id == progress[k].id && p[k].title
                    == progress[k].title && p[k].deviation_reason == progress[k].deviation_reason
            &&& forall|k: int, j: int|
                0 <= k < p.len() && 0 <= j < n && (#[trigger] p[k]).id == (#[trigger] updates[j]).id
                    ==> p[k].status == updates[j].status && p[k].note == updates[j].note
            &&& forall|k: int|
                0 <= k < p.len() && !speaks_of(updates, n, progress[k].id) ==> #[trigger] p[k]
                    == progress[k]
        },
    decreases n,
{
    if n > 0 {
        lemma_changed(progress, updates, n - 1);
        let u = updates[n - 1];
        match changed(progress, updates, n - 1) {
            Err(e) => {
                if can_be_changed(progress, updates, n) {
                    assert(can_be_changed(progress, updates, n - 1));
                }
            },
            Ok(p) => {
                lemma_position_in_range(p, u.id, 0);
                let twice = exists|j: int| 0 <= j < n - 1 && (#[trigger] updates[j]).id == u.id;
                if can_be_changed(progress, updates, n) {
                    assert forall|j: int| 0 <= j < n - 1 implies (#[trigger] updates[j]).id
                        != u.id by {
                        assert(updates[j].id != updates[n - 1].id);
                    }
                    let k = choose|k: int|
                        0 <= k < progress.len() && (#[trigger] progress[k]).id
                            == updates[n - 1].id;
                    assert(p[k].id == u.id);
                }
                if !twice && position_from(p, u.id, 0) is Some {
                    let i = position_from(p, u.id, 0)->0;
                    let q = changed(progress, updates, n)->Ok_0;
                    assert(progress[i].id == u.id);
                    assert forall|a: int, b: int| 0 <= a < b < n implies (#[trigger] updates[a]).id
                        != (#[trigger] updates[b]).id by {
                        if b == n - 1 {
                            assert(updates[a].id != u.id);
                        }
                    }
                    assert forall|j: int| 0 <= j < n implies exists|k: int|
                        0 <= k < progress.len() && (#[trigger] progress[k]).id == (
                        #[trigger] updates[j]).id by {
                        if j == n - 1 {
                            assert(progress[i].id == updates[j].id);
                        }
                    }
                    assert forall|k: int, j: int|
                        0 <= k < q.len() && 0 <= j < n && (#[trigger] q[k]).id == (
                        #[trigger] updates[j]).id implies q[k].status == updates[j].status
                        && q[k].note == updates[j].note by {
                        if k == i {
                            if j < n - 1 {
                                assert(updates[j].id == u.id);
                            }
                        } else {
                            assert(q[k] == p[k]);
                            if j == n - 1 {
                                if k < i {
                                    assert(progress[k].id != progress[i].id);
                                } else {
                                    assert(progress[i].id != progress[k].id);
                                }
                            }
                        }
                    }
                    assert forall|k: int|
                        0 <= k < q.len() && !speaks_of(
                            updates,
                            n,
                            progress[k].id,
                        ) implies #[trigger] q[k] == progress[k] by {
                        if k == i {
                            assert(updates[n - 1].id == progress[k].id);
                        }
                        assert(!speaks_of(updates, n - 1, progress[k].id)) by {
                            if speaks_of(updates, n - 1, progress[k].id) {
                                let j = choose|j: int|
                                    0 <= j < n - 1 && (#[trigger] updates[j]).id
                                        == progress[k].id;
                                assert(updates[j].id == progress[k].id);
                            }
                        }
                        assert(p[k] == progress[k]);
                    }
                }
            },
        }
    }
}

proof fn lemma_extended(progress: Seq<ProgressView>, added: Seq<AppendedView>, n: int)
    requires
        0 <= n <= added.len(),
    ensures
        extended(progress, added, n) is Ok <==> can_be_added(progress, added, n),
    decreases n,
{
    if n > 0 {
        lemma_extended(progress, added, n - 1);
        match extended(progress, added, n - 1) {
            Err(e) => {
                if can_be_added(progress, added, n) {
                    assert(can_be_added(progress, added, n - 1));
                }
            },
            Ok(p) => {
                lemma_extended_keeps(progress, added, n - 1);
                let s = added[n - 1];
                if can_be_added(progress, added, n) {
                    assert(!has_progress(p, s.id)) by {
                        if has_progress(p, s.id) {
                            let k = choose|k: int| 0 <= k < p.len() && (#[trigger] p[k]).id == s.id;
                            if k < progress.len() {
                                assert(p[k] == progress[k]);
                                assert(progress[k].id != added[n - 1].id);
                            } else {
                                let a = k - progress.len();
                                assert(p[progress.len() + a] == added_record(added[a]));
                                assert(added[a].id != added[n - 1].id);
                            }
                        }
                    }
                }
                if extended(progress, added, n) is Ok {
                    assert forall|a: int, b: int| 0 <= a < b < n implies (#[trigger] added[a]).id
                        != (#[trigger] added[b]).id by {
                        if b == n - 1 {
                            assert(p[progress.len() + a] == added_record(added[a]));
                            assert(p[progress.len() + a].id != s.id);
                        }
                    }
                    assert forall|j: int, k: int|
                        0 <= j < n && 0 <= k < progress.len() implies (#[trigger] progress[k]).id
                        != (#[trigger] added[j]).id by {
                        if j == n - 1 {
                            assert(p[k] == progress[k]);
                            assert(p[k].id != s.id);
                        }
                    }
                }
            },
        }
    }
}

/// A report is applied exactly where the plan is running, the report speaks of
/// its present revision, every change is of another step of the plan, and every
/// added step is new and finds room. Then each step that the report speaks of
/// has the state and the note that the report says, the others are as they
/// were, and the added steps follow with their texts, still to be done.
pub proof fn law_report_is_applied(p: PlanView, u: ProgressUpdateView)
    requires
        ids_unique(p.progress),
    ensures
        progress_after(p, u) is Ok <==> p.status is Executing && u.base_revision == p.revision
            && can_be_changed(p.progress, u.updates, u.updates.len() as int) && can_be_added(
            p.progress,
            u.append_steps,
            u.append_steps.len() as int,
        ),
        progress_after(p, u) matches Ok(q) ==> {
            let n = p.progress.len();
            &&& q.len() == n + u.append_steps.len()
            &&& forall|k: int|
                0 <= k < n ==> (#[trigger] q[k]).id == p.progress[k].id && q[k].title
                    == p.progress[k].title && q[k].deviation_reason
                    == p.progress[k].deviation_reason
            &&& forall|k: int, j: int|
                0 <= k < n && 0 <= j < u.updates.len() && (#[trigger] q[k]).id == (
                #[trigger] u.updates[j]).id ==> q[k].status == u.updates[j].status && q[k].note
                    == u.updates[j].note
            &&& forall|k: int|
                0 <= k < n && !speaks_of(u.updates, u.updates.len() as int, p.progress[k].id)
                    ==> #[trigger] q[k] == p.progress[k]
            &&& forall|i: int|
                0 <= i < u.append_steps.len() ==> {
                    let r = #[trigger] q[n + i];
                    let s = u.append_steps[i];
                    &&& r.id == s.id
                    &&& r.title == s.title
                    &&& r.note == s.note
                    &&& r.deviation_reason == Some(s.deviation_reason)
                    &&& r.status is Pending
                }
        },
{
    let m = u.updates.len() as int;
    let a = u.append_steps.len() as int;
    lemma_changed(p.progress, u.updates, m);
    if let Ok(c) = changed(p.progress, u.updates, m) {
        lemma_extended(c, u.append_steps, a);
        assert(can_be_added(c, u.append_steps, a) <==> can_be_added(p.progress, u.append_steps, a)) by {
            if can_be_added(c, u.append_steps, a) {
                assert forall|j: int, k: int|
                    0 <= j < a && 0 <= k < p.progress.len() implies (#[trigger] p.progress[k]).id
                    != (#[trigger] u.append_steps[j]).id by {
                    assert(c[k].id == p.progress[k].id);
                }
            }
            if can_be_added(p.progress, u.append_steps, a) {
                assert forall|j: int, k: int| 0 <= j < a && 0 <= k < c.len() implies (
                #[trigger] c[k]).id != (#[trigger] u.append_steps[j]).id by {
                    assert(c[k].id == p.progress[k].id);
                }
            }
        }
        if extended(c, u.append_steps, a) is Ok {
            lemma_extended_keeps(c, u.append_steps, a);
        }
    }
}

/// An identifier: one to eighty letters and digits of ASCII, hyphens and
/// underscores.
pub open spec fn is_identifier(t: Seq<char>) -> bool {
    &&& 1 <= t.len() <= 80
    &&& forall|i: int|
        0 <= i < t.len() ==> {
            ||| 'a' <= #[trigger] t[i] <= 'z'
            ||| 'A' <= t[i] <= 'Z'
            ||| '0' <= t[i] <= '9'
            ||| t[i] == '-'
            ||| t[i] == '_'
        }
}

/// A text is accepted exactly where its length is within its limits, and an
/// identifier exactly where it is one.
pub proof fn law_accepted_texts(field: Seq<char>, t: Seq<char>, min: nat, max: nat)
    ensures
        text_problem(field, t, min, max) is None <==> min <= t.len() <= max,
        identifier_problem(field, t) is None <==> is_identifier(t),
{
}

/// A report is accepted exactly where it changes or adds something, not more
/// than twelve steps, and every text of it is within its limits.
pub proof fn law_accepted_report(u: ProgressUpdateView)
    ensures
        report_problem(u) is None <==> {
            &&& 1 <= u.updates.len() + u.append_steps.len() <= 12
            &&& forall|i: int|
                0 <= i < u.updates.len() ==> is_identifier(trimmed((#[trigger] u.updates[i]).id))
                    && trimmed(u.updates[i].note).len() <= 2000
            &&& forall|i: int|
                0 <= i < u.append_steps.len() ==> {
                    let s = #[trigger] u.append_steps[i];
                    &&& is_identifier(trimmed(s.id))
                    &&& 1 <= trimmed(s.title).len() <= 240
                    &&& trimmed(s.note).len() <= 2000
                    &&& 1 <= trimmed(s.deviation_reason).len() <= 2000
                }
        },
{
    let f = update_problems(u.updates);
    let g = appended_problems(u.append_steps);
    lemma_first(f, 0, u.updates.len() as int);
    lemma_first(g, 0, u.append_steps.len() as int);
    assert forall|i: int| 0 <= i < u.updates.len() implies (#[trigger] f(i)) is None == (
    is_identifier(trimmed(u.updates[i].id)) && trimmed(u.updates[i].note).len() <= 2000) by {
        law_accepted_texts("step id"@, trimmed(u.updates[i].id), 0, 0);
    }
    assert forall|i: int| 0 <= i < u.append_steps.len() implies (#[trigger] g(i)) is None == ({
        let s = u.append_steps[i];
        &&& is_identifier(trimmed(s.id))
        &&& 1 <= trimmed(s.title).len() <= 240
        &&& trimmed(s.note).len() <= 2000
        &&& 1 <= trimmed(s.deviation_reason).len() <= 2000
    }) by {
        law_accepted_texts("appended step id"@, trimmed(u.append_steps[i].id), 0, 0);
    }
    if report_problem(u) is None {
        assert forall|i: int| 0 <= i < u.updates.len() implies is_identifier(
            trimmed((#[trigger] u.updates[i]).id),
        ) && trimmed(u.updates[i].note).len() <= 2000 by {
            assert(f(i) is None);
        }
        assert forall|i: int| 0 <= i < u.append_steps.len() implies {
            let s = #[trigger] u.append_steps[i];
            &&& is_identifier(trimmed(s.id))
            &&& 1 <= trimmed(s.title).len() <= 240
            &&& trimmed(s.note).len() <= 2000
            &&& 1 <= trimmed(s.deviation_reason).len() <= 2000
        } by {
            assert(g(i) is None);
        }
    }
}

proof fn lemma_first(f: spec_fn(int) -> Option<Seq<char>>, i: int, n: int)
    ensures
        first_problem(f, i, n) is None <==> (forall|k: int| i <= k < n ==> (#[trigger] f(k)) is None),
    decreases n - i,
{
    if i < n {
        lemma_first(f, i + 1, n);
        if first_problem(f, i, n) is None {
            assert forall|k: int| i <= k < n implies (#[trigger] f(k)) is None by {}
        }
    }
}

// ---------------------------------------------------------------------------
// Tidy plans
// ---------------------------------------------------------------------------

/// No white space stands around the text.
pub open spec fn is_trim(t: Seq<char>) -> bool {
    t.len() > 0 ==> !is_space(t[0]) && !is_space(t.last())
}

/// Every text says something and has no white space around it.
pub open spec fn are_trim(v: Seq<Seq<char>>) -> bool {
    forall|i: int| 0 <= i < v.len() ==> is_trim(#[trigger] v[i]) && v[i].len() > 0
}

/// No text of the plan has white space around it, and no list of texts an empty
/// one.
pub open spec fn is_tidy(a: ArtifactView) -> bool {
    &&& is_trim(a.title) && is_trim(a.goal) && is_trim(a.summary)
    &&& are_trim(a.assumptions) && are_trim(a.risks) && are_trim(a.verification) && are_trim(
        a.acceptance_criteria,
    )
    &&& forall|i: int|
        0 <= i < a.steps.len() ==> {
            let s = #[trigger] a.steps[i];
            is_trim(s.id) && is_trim(s.title) && is_trim(s.description) && are_trim(
                s.affected_areas,
            )
        }
    &&& forall|i: int|
        0 <= i < a.completion_checks.len() ==> {
            let c = #[trigger] a.completion_checks[i];
            &&& is_trim(c.id) && is_trim(c.step_id) && are_trim(c.required_step_ids)
            &&& c.path is Some ==> is_trim(c.path->0)
            &&& c.tool_name is Some ==> is_trim(c.tool_name->0)
            &&& c.sha256 is Some ==> is_trim(c.sha256->0) && ascii_lower(c.sha256->0)
                == c.sha256->0
        }
    &&& forall|i: int|
        0 <= i < a.questions.len() ==> {
            let q = #[trigger] a.questions[i];
            &&& is_trim(q.id) && is_trim(q.prompt)
            &&& forall|j: int|
                0 <= j < q.options.len() ==> {
                    let o = #[trigger] q.options[j];
                    is_trim(o.id) && is_trim(o.label) && is_trim(o.description)
                }
        }
}

proof fn lemma_trim(t: Seq<char>)
    requires
        is_trim(t),
    ensures
        trimmed(t) == t,
{
    lemma_trimmed_already(t);
}

proof fn lemma_trim_all(v: Seq<Seq<char>>)
    requires
        are_trim(v),
    ensures
        kept_texts(v) == v,
    decreases v.len(),
{
    if v.len() > 0 {
        let w = v.drop_last();
        assert forall|i: int| 0 <= i < w.len() implies is_trim(#[trigger] w[i]) && w[i].len() > 0 by {
            assert(w[i] == v[i]);
        }
        lemma_trim_all(w);
        assert(is_trim(v[v.len() - 1]));
        lemma_trim(v.last());
        assert(w.push(v.last()) =~= v);
    }
}

/// Tidying up leaves a plan that is tidy exactly as it is: nothing of it is lost
/// and nothing is moved.
pub proof fn law_tidy_plan_stays(a: ArtifactView)
    requires
        is_tidy(a),
    ensures
        normal_artifact(a) == a,
{
    let n = normal_artifact(a);
    lemma_trim(a.title);
    lemma_trim(a.goal);
    lemma_trim(a.summary);
    lemma_trim_all(a.assumptions);
    lemma_trim_all(a.risks);
    lemma_trim_all(a.verification);
    lemma_trim_all(a.acceptance_criteria);
    assert forall|i: int| 0 <= i < a.steps.len() implies n.steps[i] == #[trigger] a.steps[i] by {
        let s = a.steps[i];
        lemma_trim(s.id);
        lemma_trim(s.title);
        lemma_trim(s.description);
        lemma_trim_all(s.affected_areas);
    }
    assert(n.steps =~= a.steps);
    assert forall|i: int| 0 <= i < a.completion_checks.len() implies n.completion_checks[i]
        == #[trigger] a.completion_checks[i] by {
        let c = a.completion_checks[i];
        lemma_trim(c.id);
        lemma_trim(c.step_id);
        lemma_trim_all(c.required_step_ids);
        if c.path is Some {
            lemma_trim(c.path->0);
        }
        if c.tool_name is Some {
            lemma_trim(c.tool_name->0);
        }
        if c.sha256 is Some {
            lemma_trim(c.sha256->0);
        }
    }
    assert(n.completion_checks =~= a.completion_checks);
    assert forall|i: int| 0 <= i < a.questions.len() implies n.questions[i]
        == #[trigger] a.questions[i] by {
        let q = a.questions[i];
        lemma_trim(q.id);
        lemma_trim(q.prompt);
        assert forall|j: int| 0 <= j < q.options.len() implies normal_question(q).options[j]
            == #[trigger] q.options[j] by {
            let o = q.options[j];
            lemma_trim(o.id);
            lemma_trim(o.label);
            lemma_trim(o.description);
        }
        assert(normal_question(q).options =~= q.options);
    }
    assert(n.questions =~= a.questions);
}

// ---------------------------------------------------------------------------
// Paths
// ---------------------------------------------------------------------------

/// The path with slashes for backslashes.
pub open spec fn with_slashes(path: Seq<char>) -> Seq<char> {
    path.map_values(
        |c: char|
            if c == '\\' {
                '/'
            } else {
                c
            },
    )
}

proof fn lemma_with_slashes(path: Seq<char>)
    ensures
        replaced_char(path, '\\', "/"@) == with_slashes(path),
    decreases path.len(),
{
    reveal_strlit("/");
    if path.len() > 0 {
        lemma_with_slashes(path.drop_last());
        assert("/"@ =~= seq!['/']);
        let front = with_slashes(path.drop_last());
        assert(with_slashes(path) =~= front.push(with_slashes(path).last()));
        assert(front + "/"@ =~= front.push('/'));
    } else {
        assert(with_slashes(path) =~= Seq::empty());
    }
}

/// A path that is spelled as contracts do stays as it is; a `./` in front does
/// not count, a backslash is a slash, and the case of letters of ASCII counts
/// only where the file system tells cases apart.
pub proof fn law_same_path(path: Seq<char>, fold_case: bool)
    requires
        path.len() > 0,
        !is_space(path[0]),
        !is_space(path.last()),
    ensures
        !(path.len() >= 2 && path[0] == '.' && path[1] == '/') && (forall|i: int|
            0 <= i < path.len() ==> (#[trigger] path[i]) != '\\') ==> contract_path(path, false)
            == path,
        contract_path("./"@ + path, fold_case) == contract_path(path, fold_case),
        contract_path(with_slashes(path), fold_case) == contract_path(path, fold_case),
        contract_path(path, true) == ascii_lower(contract_path(path, false)),
{
    reveal_strlit("./");
    lemma_trimmed_already(path);
    lemma_with_slashes(path);
    let dotted = "./"@ + path;
    assert(dotted[0] == '.' && dotted.last() == path.last());
    lemma_trimmed_already(dotted);
    lemma_with_slashes(dotted);
    let slashed = with_slashes(path);
    assert(slashed[0] == '/' || slashed[0] == path[0]);
    assert(slashed.last() == '/' || slashed.last() == path.last());
    lemma_trimmed_already(slashed);
    lemma_with_slashes(slashed);
    assert(with_slashes(slashed) =~= slashed);
    assert(with_slashes(dotted) =~= "./"@ + slashed);
    assert(("./"@ + slashed).skip(2) =~= slashed);
    if forall|i: int| 0 <= i < path.len() ==> (#[trigger] path[i]) != '\\' {
        assert(slashed =~= path);
    }
}

// ---------------------------------------------------------------------------
// Calls
// ---------------------------------------------------------------------------

/// A value says the same as itself.
pub proof fn law_value_equals_itself(a: JsonView)
    ensures
        json_equal(a, a),
    decreases a,
{
    match a {
        JsonView::Array(x) => {
            assert forall|i: int| 0 <= i < x.len() implies json_equal(#[trigger] x[i], x[i]) by {
                law_value_equals_itself(x[i]);
            }
        },
        JsonView::Object(x) => {
            assert forall|i: int| 0 <= i < x.len() implies (#[trigger] x[i]).0 == x[i].0
                && json_equal(x[i].1, x[i].1) by {
                law_value_equals_itself(x[i].1);
            }
        },
        _ => {},
    }
}

proof fn lemma_asking(checks: Seq<CheckView>, tool: Seq<char>, arguments: JsonView, n: int)
    requires
        0 <= n <= checks.len(),
    ensures
        asking_ids(checks, tool, arguments, n) == checks.take(n).filter(
            |c: CheckView|
                c.kind is ToolCallSuccess && c.tool_name == Some(tool) && c.arguments is Some
                    && json_equal(c.arguments->0, arguments),
        ).map_values(|c: CheckView| c.id),
    decreases n,
{
    reveal(Seq::filter);
    let p = |c: CheckView|
        c.kind is ToolCallSuccess && c.tool_name == Some(tool) && c.arguments is Some
            && json_equal(c.arguments->0, arguments);
    if n > 0 {
        lemma_asking(checks, tool, arguments, n - 1);
        assert(checks.take(n).drop_last() =~= checks.take(n - 1));
        assert(checks.take(n).last() == checks[n - 1]);
        let before = checks.take(n - 1).filter(p);
        assert(before.push(checks[n - 1]).map_values(|c: CheckView| c.id) =~= before.map_values(
            |c: CheckView| c.id,
        ).push(checks[n - 1].id));
    } else {
        assert(checks.take(n) =~= Seq::empty());
        assert(checks.take(n).filter(p).map_values(|c: CheckView| c.id) =~= Seq::empty());
    }
}

/// A call satisfies exactly the checks that ask for a call of that tool with
/// those arguments, in their order.
pub proof fn law_call_satisfies(checks: Seq<CheckView>, tool: Seq<char>, arguments: JsonView)
    ensures
        asking_ids(checks, tool, arguments, checks.len() as int) == checks.filter(
            |c: CheckView|
                c.kind is ToolCallSuccess && c.tool_name == Some(tool) && c.arguments is Some
                    && json_equal(c.arguments->0, arguments),
        ).map_values(|c: CheckView| c.id),
{
    lemma_asking(checks, tool, arguments, checks.len() as int);
    assert(checks.take(checks.len() as int) =~= checks);
}

} // verus!
