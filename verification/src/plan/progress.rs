//! Reports on a running plan.

use crate::plan::accept::{limit_message, limit_text};
use crate::plan::model::{
    AppendedView, MAX_PLAN_STEPS, PendingPlan, PlanAppendedStep, PlanProgressStep,
    PlanProgressUpdate, PlanStatus, PlanStepStatus, PlanStepUpdate, PlanView, ProgressUpdateView,
    ProgressView, StepUpdateView, appended_view, progress_view, updates_view,
};
use crate::plan::rules::{
    about, identifier_problem, text_problem, validate_identifier, validate_text,
};
use crate::plan::stored::{has_progress, records_step};
use crate::text::{
    clone_opt, concat3, decimal, decimal_spec, first_problem, or_else, owned, problem_if, same,
    trim, trimmed,
};
use vstd::prelude::*;
use vstd::string::*;

verus! {

// ---------------------------------------------------------------------------
// Reading a report
// ---------------------------------------------------------------------------

/// A change of a step without white space around its texts.
pub open spec fn normal_update(u: StepUpdateView) -> StepUpdateView {
    StepUpdateView { id: trimmed(u.id), status: u.status, note: trimmed(u.note) }
}

/// An added step without white space around its texts.
pub open spec fn normal_appended(s: AppendedView) -> AppendedView {
    AppendedView {
        id: trimmed(s.id),
        title: trimmed(s.title),
        note: trimmed(s.note),
        deviation_reason: trimmed(s.deviation_reason),
    }
}

/// A report without white space around its texts.
pub open spec fn normal_report(u: ProgressUpdateView) -> ProgressUpdateView {
    ProgressUpdateView {
        base_revision: u.base_revision,
        updates: u.updates.map_values(|s: StepUpdateView| normal_update(s)),
        append_steps: u.append_steps.map_values(|s: AppendedView| normal_appended(s)),
    }
}

/// What is wrong with the change of one step.
pub open spec fn update_problem(u: StepUpdateView) -> Option<Seq<char>> {
    or_else(
        identifier_problem("step id"@, u.id),
        text_problem("step note"@, u.note, 0, 2000),
    )
}

/// What is wrong with an added step.
pub open spec fn appended_problem(s: AppendedView) -> Option<Seq<char>> {
    or_else(
        identifier_problem("appended step id"@, s.id),
        or_else(
            text_problem("appended step title"@, s.title, 1, 240),
            or_else(
                text_problem("appended step note"@, s.note, 0, 2000),
                text_problem("appended step deviation_reason"@, s.deviation_reason, 1, 2000),
            ),
        ),
    )
}

/// The problem of the change at each position.
pub open spec fn update_problems(v: Seq<StepUpdateView>) -> spec_fn(int) -> Option<Seq<char>> {
    |i: int| update_problem(normal_update(v[i]))
}

/// The problem of the added step at each position.
pub open spec fn appended_problems(v: Seq<AppendedView>) -> spec_fn(int) -> Option<Seq<char>> {
    |i: int| appended_problem(normal_appended(v[i]))
}

/// What is wrong with a report.
pub open spec fn report_problem(u: ProgressUpdateView) -> Option<Seq<char>> {
    or_else(
        problem_if(
            u.updates.len() == 0 && u.append_steps.len() == 0,
            "a plan update must change or append at least one step"@,
        ),
        or_else(
            problem_if(
                u.updates.len() + u.append_steps.len() > MAX_PLAN_STEPS,
                limit_text(
                    "a plan update may contain at most "@,
                    MAX_PLAN_STEPS as nat,
                    " step changes"@,
                ),
            ),
            or_else(
                first_problem(update_problems(u.updates), 0, u.updates.len() as int),
                first_problem(appended_problems(u.append_steps), 0, u.append_steps.len() as int),
            ),
        ),
    )
}

fn check_updates(updates: Vec<PlanStepUpdate>) -> (r: Result<Vec<PlanStepUpdate>, String>)
    ensures
        ({
            let v = updates_view(updates@);
            let p = first_problem(update_problems(v), 0, v.len() as int);
            match r {
                Ok(u) => p is None && updates_view(u@) == v.map_values(
                    |s: StepUpdateView| normal_update(s),
                ),
                Err(e) => p == Some(e@),
            }
        }),
{
    let ghost v = updates_view(updates@);
    let ghost f = update_problems(v);
    let count: usize = updates.len();
    let mut out: Vec<PlanStepUpdate> = Vec::new();
    let mut i: usize = 0;
    while i < count
        invariant
            i <= count == updates@.len(),
            v == updates_view(updates@),
            f == update_problems(v),
            out@.len() == i,
            forall|j: int| 0 <= j < i ==> (#[trigger] out@[j])@ == normal_update(v[j]),
            first_problem(f, i as int, count as int) == first_problem(f, 0, count as int),
        decreases count - i,
    {
        assert(v[i as int] == updates@[i as int]@);
        let ghost now = f(i as int);
        let step = PlanStepUpdate {
            id: trim(updates[i].id.as_str()),
            status: updates[i].status,
            note: trim(updates[i].note.as_str()),
        };
        if let Err(e) = validate_identifier("step id", step.id.as_str()) {
            return Err(e);
        }
        if let Err(e) = validate_text("step note", step.note.as_str(), 0, 2000) {
            return Err(e);
        }
        assert(now is None);
        out.push(step);
        i = i + 1;
    }
    assert(updates_view(out@) =~= v.map_values(|s: StepUpdateView| normal_update(s)));
    Ok(out)
}

fn check_appended(steps: Vec<PlanAppendedStep>) -> (r: Result<Vec<PlanAppendedStep>, String>)
    ensures
        ({
            let v = appended_view(steps@);
            let p = first_problem(appended_problems(v), 0, v.len() as int);
            match r {
                Ok(u) => p is None && appended_view(u@) == v.map_values(
                    |s: AppendedView| normal_appended(s),
                ),
                Err(e) => p == Some(e@),
            }
        }),
{
    let ghost v = appended_view(steps@);
    let ghost f = appended_problems(v);
    let count: usize = steps.len();
    let mut out: Vec<PlanAppendedStep> = Vec::new();
    let mut i: usize = 0;
    while i < count
        invariant
            i <= count == steps@.len(),
            v == appended_view(steps@),
            f == appended_problems(v),
            out@.len() == i,
            forall|j: int| 0 <= j < i ==> (#[trigger] out@[j])@ == normal_appended(v[j]),
            first_problem(f, i as int, count as int) == first_problem(f, 0, count as int),
        decreases count - i,
    {
        assert(v[i as int] == steps@[i as int]@);
        let ghost now = f(i as int);
        let step = PlanAppendedStep {
            id: trim(steps[i].id.as_str()),
            title: trim(steps[i].title.as_str()),
            note: trim(steps[i].note.as_str()),
            deviation_reason: trim(steps[i].deviation_reason.as_str()),
        };
        if let Err(e) = validate_identifier("appended step id", step.id.as_str()) {
            return Err(e);
        }
        if let Err(e) = validate_text("appended step title", step.title.as_str(), 1, 240) {
            return Err(e);
        }
        if let Err(e) = validate_text("appended step note", step.note.as_str(), 0, 2000) {
            return Err(e);
        }
        if let Err(e) = validate_text(
            "appended step deviation_reason",
            step.deviation_reason.as_str(),
            1,
            2000,
        ) {
            return Err(e);
        }
        assert(now is None);
        out.push(step);
        i = i + 1;
    }
    assert(appended_view(out@) =~= v.map_values(|s: AppendedView| normal_appended(s)));
    Ok(out)
}

/// Trims and checks a report.
pub fn validate_progress_update(update: PlanProgressUpdate) -> (r: Result<
    PlanProgressUpdate,
    String,
>)
    ensures
        match r {
            Ok(u) => report_problem(update@) is None && u@ == normal_report(update@),
            Err(e) => report_problem(update@) == Some(e@),
        },
{
    if update.updates.len() == 0 && update.append_steps.len() == 0 {
        return Err(owned("a plan update must change or append at least one step"));
    }
    if update.updates.len() > MAX_PLAN_STEPS || update.append_steps.len() > MAX_PLAN_STEPS
        - update.updates.len() {
        return Err(
            limit_message("a plan update may contain at most ", MAX_PLAN_STEPS, " step changes"),
        );
    }
    let updates = match check_updates(update.updates) {
        Ok(u) => u,
        Err(e) => {
            return Err(e);
        },
    };
    let append_steps = match check_appended(update.append_steps) {
        Ok(s) => s,
        Err(e) => {
            return Err(e);
        },
    };
    Ok(PlanProgressUpdate { base_revision: update.base_revision, updates, append_steps })
}

// ---------------------------------------------------------------------------
// Applying a report
// ---------------------------------------------------------------------------

/// The position of the first record of the step `id`, from `i` on.
pub open spec fn position_from(progress: Seq<ProgressView>, id: Seq<char>, i: int) -> Option<int>
    decreases progress.len() - i,
{
    if i < 0 || i >= progress.len() {
        None
    } else if progress[i].id == id {
        Some(i)
    } else {
        position_from(progress, id, i + 1)
    }
}

/// The position of the first record of the step `id`.
pub fn find_step(progress: &Vec<PlanProgressStep>, id: &str) -> (r: Option<usize>)
    ensures
        match r {
            Some(i) => position_from(progress_view(progress@), id@, 0) == Some(i as int) && i
                < progress@.len() && progress@[i as int].id@ == id@,
            None => position_from(progress_view(progress@), id@, 0) is None,
        },
{
    let mut i: usize = 0;
    while i < progress.len()
        invariant
            i <= progress@.len(),
            position_from(progress_view(progress@), id@, i as int) == position_from(
                progress_view(progress@),
                id@,
                0,
            ),
        decreases progress@.len() - i,
    {
        assert(progress_view(progress@)[i as int] == progress@[i as int]@);
        if same(progress[i].id.as_str(), id) {
            return Some(i);
        }
        i = i + 1;
    }
    None
}

/// The records after the first `n` changes, or what is wrong with one of them.
pub open spec fn changed(
    progress: Seq<ProgressView>,
    updates: Seq<StepUpdateView>,
    n: int,
) -> Result<Seq<ProgressView>, Seq<char>>
    decreases n,
{
    if n <= 0 {
        Ok(progress)
    } else {
        match changed(progress, updates, n - 1) {
            Err(e) => Err(e),
            Ok(p) => {
                let u = updates[n - 1];
                if exists|j: int| 0 <= j < n - 1 && (#[trigger] updates[j]).id == u.id {
                    Err(about("duplicate update for step '"@, u.id, "'"@))
                } else {
                    match position_from(p, u.id, 0) {
                        None => Err(about("unknown plan step '"@, u.id, "'"@)),
                        Some(i) => Ok(
                            p.update(i, ProgressView { status: u.status, note: u.note, ..p[i] }),
                        ),
                    }
                }
            },
        }
    }
}

/// The record of an added step.
pub open spec fn added_record(s: AppendedView) -> ProgressView {
    ProgressView {
        id: s.id,
        title: s.title,
        status: PlanStepStatus::Pending,
        note: s.note,
        deviation_reason: Some(s.deviation_reason),
    }
}

/// The records after the first `n` added steps, or what is wrong with one.
pub open spec fn extended(progress: Seq<ProgressView>, added: Seq<AppendedView>, n: int) -> Result<
    Seq<ProgressView>,
    Seq<char>,
>
    decreases n,
{
    if n <= 0 {
        Ok(progress)
    } else {
        match extended(progress, added, n - 1) {
            Err(e) => Err(e),
            Ok(p) => {
                let s = added[n - 1];
                if p.len() >= MAX_PLAN_STEPS {
                    Err(
                        limit_text(
                            "a plan may contain at most "@,
                            MAX_PLAN_STEPS as nat,
                            " steps"@,
                        ),
                    )
                } else if has_progress(p, s.id) {
                    Err(about("duplicate plan step '"@, s.id, "'"@))
                } else {
                    Ok(p.push(added_record(s)))
                }
            },
        }
    }
}

/// The records after a report, or why the report is refused.
pub open spec fn progress_after(p: PlanView, u: ProgressUpdateView) -> Result<
    Seq<ProgressView>,
    Seq<char>,
> {
    if !(p.status is Executing) {
        Err("the plan is not currently executing"@)
    } else if u.base_revision != p.revision {
        Err(
            "stale_plan_revision: expected revision "@ + decimal_spec(p.revision as nat)
                + ", received "@ + decimal_spec(u.base_revision as nat),
        )
    } else {
        match changed(p.progress, u.updates, u.updates.len() as int) {
            Err(e) => Err(e),
            Ok(q) => extended(q, u.append_steps, u.append_steps.len() as int),
        }
    }
}

fn copy_progress(v: &Vec<PlanProgressStep>) -> (r: Vec<PlanProgressStep>)
    ensures
        progress_view(r@) == progress_view(v@),
{
    let mut r: Vec<PlanProgressStep> = Vec::new();
    let mut i: usize = 0;
    while i < v.len()
        invariant
            i <= v@.len(),
            r@.len() == i,
            forall|j: int| 0 <= j < i ==> (#[trigger] r@[j])@ == v@[j]@,
        decreases v@.len() - i,
    {
        r.push(v[i].copy());
        i = i + 1;
    }
    assert(progress_view(r@) =~= progress_view(v@));
    r
}

proof fn lemma_changed_error_stays(
    progress: Seq<ProgressView>,
    updates: Seq<StepUpdateView>,
    n: int,
    m: int,
)
    requires
        0 <= n <= m,
        changed(progress, updates, n) is Err,
    ensures
        changed(progress, updates, m) == changed(progress, updates, n),
    decreases m - n,
{
    if n < m {
        lemma_changed_error_stays(progress, updates, n, m - 1);
    }
}

proof fn lemma_extended_error_stays(
    progress: Seq<ProgressView>,
    added: Seq<AppendedView>,
    n: int,
    m: int,
)
    requires
        0 <= n <= m,
        extended(progress, added, n) is Err,
    ensures
        extended(progress, added, m) == extended(progress, added, n),
    decreases m - n,
{
    if n < m {
        lemma_extended_error_stays(progress, added, n, m - 1);
    }
}

fn apply_changes(progress: Vec<PlanProgressStep>, updates: &Vec<PlanStepUpdate>) -> (r: Result<
    Vec<PlanProgressStep>,
    String,
>)
    ensures
        match r {
            Ok(p) => changed(
                progress_view(progress@),
                updates_view(updates@),
                updates@.len() as int,
            ) == Ok::<Seq<ProgressView>, Seq<char>>(progress_view(p@)),
            Err(e) => changed(
                progress_view(progress@),
                updates_view(updates@),
                updates@.len() as int,
            ) == Err::<Seq<ProgressView>, Seq<char>>(e@),
        },
{
    let ghost start = progress_view(progress@);
    let ghost us = updates_view(updates@);
    let count: usize = updates.len();
    let mut next = progress;
    let mut n: usize = 0;
    while n < count
        invariant
            n <= count == updates@.len(),
            us == updates_view(updates@),
            start == progress_view(progress@),
            changed(start, us, n as int) == Ok::<Seq<ProgressView>, Seq<char>>(
                progress_view(next@),
            ),
        decreases count - n,
    {
        let u = &updates[n];
        assert(us[n as int] == u@);
        let mut j: usize = 0;
        while j < n
            invariant
                j <= n < count == updates@.len(),
                us == updates_view(updates@),
                start == progress_view(progress@),
                us[n as int] == u@,
                changed(start, us, n as int) == Ok::<Seq<ProgressView>, Seq<char>>(
                    progress_view(next@),
                ),
                forall|k: int| 0 <= k < j ==> (#[trigger] us[k]).id != u@.id,
            decreases n - j,
        {
            assert(us[j as int].id == updates@[j as int].id@);
            if same(updates[j].id.as_str(), u.id.as_str()) {
                let e = concat3("duplicate update for step '", u.id.as_str(), "'");
                assert(changed(start, us, n + 1) == Err::<Seq<ProgressView>, Seq<char>>(e@));
                proof {
                    lemma_changed_error_stays(start, us, n + 1, count as int);
                }
                return Err(e);
            }
            j = j + 1;
        }
        match find_step(&next, u.id.as_str()) {
            None => {
                let e = concat3("unknown plan step '", u.id.as_str(), "'");
                assert(changed(start, us, n + 1) == Err::<Seq<ProgressView>, Seq<char>>(e@));
                proof {
                    lemma_changed_error_stays(start, us, n + 1, count as int);
                }
                return Err(e);
            },
            Some(i) => {
                let ghost before = progress_view(next@);
                let record = PlanProgressStep {
                    id: next[i].id.clone(),
                    title: next[i].title.clone(),
                    status: u.status,
                    note: u.note.clone(),
                    deviation_reason: clone_opt(&next[i].deviation_reason),
                };
                assert(record@ =~= ProgressView {
                    status: u@.status,
                    note: u@.note,
                    ..before[i as int]
                });
                next.set(i, record);
                assert(progress_view(next@) =~= before.update(i as int, record@));
            },
        }
        n = n + 1;
    }
    Ok(next)
}

fn apply_added(progress: Vec<PlanProgressStep>, added: &Vec<PlanAppendedStep>) -> (r: Result<
    Vec<PlanProgressStep>,
    String,
>)
    ensures
        match r {
            Ok(p) => extended(
                progress_view(progress@),
                appended_view(added@),
                added@.len() as int,
            ) == Ok::<Seq<ProgressView>, Seq<char>>(progress_view(p@)),
            Err(e) => extended(
                progress_view(progress@),
                appended_view(added@),
                added@.len() as int,
            ) == Err::<Seq<ProgressView>, Seq<char>>(e@),
        },
{
    let ghost start = progress_view(progress@);
    let ghost us = appended_view(added@);
    let count: usize = added.len();
    let mut next = progress;
    let mut n: usize = 0;
    while n < count
        invariant
            n <= count == added@.len(),
            us == appended_view(added@),
            start == progress_view(progress@),
            extended(start, us, n as int) == Ok::<Seq<ProgressView>, Seq<char>>(
                progress_view(next@),
            ),
        decreases count - n,
    {
        let s = &added[n];
        assert(us[n as int] == s@);
        if next.len() >= MAX_PLAN_STEPS {
            let e = limit_message("a plan may contain at most ", MAX_PLAN_STEPS, " steps");
            assert(extended(start, us, n + 1) == Err::<Seq<ProgressView>, Seq<char>>(e@));
            proof {
                lemma_extended_error_stays(start, us, n + 1, count as int);
            }
            return Err(e);
        }
        if records_step(&next, s.id.as_str()) {
            let e = concat3("duplicate plan step '", s.id.as_str(), "'");
            assert(extended(start, us, n + 1) == Err::<Seq<ProgressView>, Seq<char>>(e@));
            proof {
                lemma_extended_error_stays(start, us, n + 1, count as int);
            }
            return Err(e);
        }
        let ghost before = progress_view(next@);
        next.push(
            PlanProgressStep {
                id: s.id.clone(),
                title: s.title.clone(),
                status: PlanStepStatus::Pending,
                note: s.note.clone(),
                deviation_reason: Some(s.deviation_reason.clone()),
            },
        );
        assert(progress_view(next@) =~= before.push(added_record(s@)));
        n = n + 1;
    }
    Ok(next)
}

/// Applies a report to a running plan, all of it or nothing.
pub fn apply_progress_update(plan: &mut PendingPlan, update: PlanProgressUpdate) -> (r: Result<
    (),
    String,
>)
    ensures
        match r {
            Ok(_) => progress_after(old(plan)@, update@) == Ok::<Seq<ProgressView>, Seq<char>>(
                final(plan)@.progress,
            ) && final(plan)@ == (PlanView { progress: final(plan)@.progress, ..old(plan)@ }),
            Err(e) => progress_after(old(plan)@, update@) == Err::<Seq<ProgressView>, Seq<char>>(
                e@,
            ) && *final(plan) == *old(plan),
        },
{
    if plan.status != PlanStatus::Executing {
        return Err(owned("the plan is not currently executing"));
    }
    if update.base_revision != plan.revision {
        let mut m = owned("stale_plan_revision: expected revision ");
        m.append(decimal(plan.revision as u64).as_str());
        m.append(", received ");
        m.append(decimal(update.base_revision as u64).as_str());
        return Err(m);
    }
    let next = copy_progress(&plan.progress);
    let next = match apply_changes(next, &update.updates) {
        Ok(p) => p,
        Err(e) => {
            return Err(e);
        },
    };
    let next = match apply_added(next, &update.append_steps) {
        Ok(p) => p,
        Err(e) => {
            return Err(e);
        },
    };
    plan.progress = next;
    Ok(())
}

/// The position found is that of the first record of the step.
pub proof fn lemma_position_in_range(progress: Seq<ProgressView>, id: Seq<char>, i: int)
    requires
        0 <= i,
    ensures
        match position_from(progress, id, i) {
            Some(k) => i <= k < progress.len() && progress[k].id == id && forall|j: int|
                i <= j < k ==> (#[trigger] progress[j]).id != id,
            None => forall|j: int| i <= j < progress.len() ==> (#[trigger] progress[j]).id != id,
        },
    decreases progress.len() - i,
{
    if i < progress.len() && progress[i].id != id {
        lemma_position_in_range(progress, id, i + 1);
    }
}

proof fn lemma_changed_keeps(progress: Seq<ProgressView>, updates: Seq<StepUpdateView>, n: int)
    requires
        changed(progress, updates, n) is Ok,
    ensures
        ({
            let p = changed(progress, updates, n)->Ok_0;
            &&& p.len() == progress.len()
            &&& forall|i: int|
                0 <= i < p.len() ==> (#[trigger] p[i]).id == progress[i].id && p[i].title
                    == progress[i].title && p[i].deviation_reason == progress[i].deviation_reason
        }),
    decreases n,
{
    if n > 0 {
        lemma_changed_keeps(progress, updates, n - 1);
        let p = changed(progress, updates, n - 1)->Ok_0;
        lemma_position_in_range(p, updates[n - 1].id, 0);
    }
}

/// Adding steps leaves the records before them as they are.
pub proof fn lemma_extended_keeps(progress: Seq<ProgressView>, added: Seq<AppendedView>, n: int)
    requires
        0 <= n,
        extended(progress, added, n) is Ok,
    ensures
        ({
            let p = extended(progress, added, n)->Ok_0;
            &&& p.len() == progress.len() + n
            &&& (n > 0 ==> p.len() <= MAX_PLAN_STEPS)
            &&& forall|i: int| 0 <= i < progress.len() ==> #[trigger] p[i] == progress[i]
            &&& forall|i: int|
                0 <= i < n ==> #[trigger] p[progress.len() + i] == added_record(added[i])
        }),
    decreases n,
{
    if n > 0 {
        lemma_extended_keeps(progress, added, n - 1);
    }
}

/// A report that is applied keeps every step in its place with its id, its
/// title and its reason, adds the new steps behind them in order, each pending,
/// and never takes a plan over the limit on steps.
pub proof fn law_progress_keeps_steps(p: PlanView, u: ProgressUpdateView)
    requires
        progress_after(p, u) is Ok,
    ensures
        ({
            let q = progress_after(p, u)->Ok_0;
            let n = p.progress.len();
            &&& q.len() == n + u.append_steps.len()
            &&& (u.append_steps.len() > 0 ==> q.len() <= MAX_PLAN_STEPS)
            &&& forall|i: int|
                0 <= i < n ==> (#[trigger] q[i]).id == p.progress[i].id && q[i].title
                    == p.progress[i].title && q[i].deviation_reason
                    == p.progress[i].deviation_reason
            &&& forall|i: int|
                0 <= i < u.append_steps.len() ==> #[trigger] q[n + i] == added_record(
                    u.append_steps[i],
                )
        }),
{
    lemma_changed_keeps(p.progress, u.updates, u.updates.len() as int);
    let c = changed(p.progress, u.updates, u.updates.len() as int)->Ok_0;
    lemma_extended_keeps(c, u.append_steps, u.append_steps.len() as int);
}

proof fn lemma_extended_unique(progress: Seq<ProgressView>, added: Seq<AppendedView>, n: int)
    requires
        0 <= n,
        extended(progress, added, n) is Ok,
        ids_unique(progress),
    ensures
        ids_unique(extended(progress, added, n)->Ok_0),
    decreases n,
{
    if n > 0 {
        lemma_extended_unique(progress, added, n - 1);
    }
}

/// No two records are of the same step.
pub open spec fn ids_unique(progress: Seq<ProgressView>) -> bool {
    forall|i: int, j: int|
        0 <= i < j < progress.len() ==> (#[trigger] progress[i]).id != (#[trigger] progress[j]).id
}

/// A report that is applied leaves the ids of the steps unique where they were.
pub proof fn law_progress_keeps_ids_unique(p: PlanView, u: ProgressUpdateView)
    requires
        progress_after(p, u) is Ok,
        ids_unique(p.progress),
    ensures
        ids_unique(progress_after(p, u)->Ok_0),
{
    lemma_changed_keeps(p.progress, u.updates, u.updates.len() as int);
    let c = changed(p.progress, u.updates, u.updates.len() as int)->Ok_0;
    assert(ids_unique(c));
    lemma_extended_unique(c, u.append_steps, u.append_steps.len() as int);
}

} // verus!
