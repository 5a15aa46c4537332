//! Plans as Markdown.

use crate::plan::model::{
    ArtifactView, CheckView, OptionView, PlanArtifact, PlanCompletionCheck,
    PlanCompletionCheckKind, PlanEvidenceKind, PlanExpectedPathType, PlanQuestion,
    PlanQuestionOption, PlanStep, QuestionView, StepView, checks_view, options_view,
    questions_view, steps_view,
};
use crate::text::{
    concat3, concat5, decimal, decimal_spec, join, joined, opt_text, owned, replace_char,
    replaced_char, texts, trim, trimmed,
};
use vstd::prelude::*;
use vstd::string::*;

verus! {

/// The bullets of the first `n` texts.
pub open spec fn bullets(values: Seq<Seq<char>>, n: int) -> Seq<char>
    decreases n,
{
    if n <= 0 {
        Seq::empty()
    } else {
        bullets(values, n - 1) + "\n\n- "@ + values[n - 1]
    }
}

/// A headed list of texts; nothing where there are none.
pub open spec fn list_markdown(title: Seq<char>, values: Seq<Seq<char>>) -> Seq<char> {
    if values.len() == 0 {
        Seq::empty()
    } else {
        "\n\n## "@ + title + bullets(values, values.len() as int)
    }
}

/// Appends a headed list of texts.
pub fn append_markdown_list(output: &mut String, title: &str, values: &Vec<String>)
    ensures
        final(output)@ == old(output)@ + list_markdown(title@, texts(values@)),
{
    if values.len() == 0 {
        assert(output@ =~= old(output)@ + list_markdown(title@, texts(values@)));
        return;
    }
    let ghost start = output@;
    output.append("\n\n## ");
    output.append(title);
    let ghost head = "\n\n## "@ + title@;
    assert(output@ =~= start + (head + bullets(texts(values@), 0)));
    let mut i: usize = 0;
    while i < values.len()
        invariant
            i <= values@.len(),
            output@ == start + (head + bullets(texts(values@), i as int)),
        decreases values@.len() - i,
    {
        let ghost so_far = bullets(texts(values@), i as int);
        output.append("\n\n- ");
        output.append(values[i].as_str());
        assert(texts(values@)[i as int] == values@[i as int]@);
        assert(output@ =~= start + (head + (so_far + "\n\n- "@ + values@[i as int]@)));
        i = i + 1;
    }
}

/// One numbered step.
pub open spec fn step_markdown(s: StepView, number: nat) -> Seq<char> {
    let head = "\n\n"@ + decimal_spec(number) + ". **"@ + s.title + "**"@;
    let described = if s.description.len() == 0 {
        head
    } else {
        head + " — "@ + s.description
    };
    if s.affected_areas.len() == 0 {
        described
    } else {
        described + "\n   - Areas: "@ + joined(s.affected_areas, ", "@)
    }
}

/// The first `n` steps, numbered from one.
pub open spec fn steps_markdown(steps: Seq<StepView>, n: int) -> Seq<char>
    decreases n,
{
    if n <= 0 {
        Seq::empty()
    } else {
        steps_markdown(steps, n - 1) + step_markdown(steps[n - 1], n as nat)
    }
}

fn step_text(s: &PlanStep, number: u64) -> (r: String)
    ensures
        r@ == step_markdown(s@, number as nat),
{
    let mut out = owned("\n\n");
    out.append(decimal(number).as_str());
    out.append(". **");
    out.append(s.title.as_str());
    out.append("**");
    if !s.description.as_str().is_empty() {
        out.append(" — ");
        out.append(s.description.as_str());
    }
    if s.affected_areas.len() > 0 {
        out.append("\n   - Areas: ");
        out.append(join(&s.affected_areas, ", ").as_str());
    }
    out
}

fn steps_text(steps: &Vec<PlanStep>) -> (r: String)
    ensures
        r@ == steps_markdown(steps_view(steps@), steps@.len() as int),
{
    let mut out = String::new();
    let count: usize = steps.len();
    let mut i: usize = 0;
    while i < count
        invariant
            i <= count == steps@.len(),
            out@ == steps_markdown(steps_view(steps@), i as int),
        decreases count - i,
    {
        assert(steps_view(steps@)[i as int] == steps@[i as int]@);
        out.append(step_text(&steps[i], i as u64 + 1).as_str());
        i = i + 1;
    }
    out
}

/// The name of a kind of evidence in a summary.
pub open spec fn evidence_kind_name(k: Option<PlanEvidenceKind>) -> Seq<char> {
    match k {
        Some(PlanEvidenceKind::File) => "Some(File)"@,
        Some(PlanEvidenceKind::Directory) => "Some(Directory)"@,
        Some(PlanEvidenceKind::DirectoryTree) => "Some(DirectoryTree)"@,
        Some(PlanEvidenceKind::Git) => "Some(Git)"@,
        None => "None"@,
    }
}

/// A text, or what stands for it where there is none.
pub open spec fn text_or(t: Option<Seq<char>>, missing: Seq<char>) -> Seq<char> {
    match t {
        Some(s) => s,
        None => missing,
    }
}

/// What a check demands of a file.
pub open spec fn file_constraints(c: CheckView, path: Seq<char>) -> Seq<Seq<char>> {
    let base = seq!["`"@ + path + "` must be a file"@];
    let sized = match c.size_bytes {
        Some(n) => base.push("size "@ + decimal_spec(n as nat) + " bytes"@),
        None => base,
    };
    let with_content = match c.exact_content {
        Some(t) => sized.push(
            "exact UTF-8 content `"@ + replaced_char(
                replaced_char(t, '`', "\\`"@),
                '\n',
                "\\n"@,
            ) + "`"@,
        ),
        None => sized,
    };
    match c.sha256 {
        Some(h) => with_content.push("SHA-256 `"@ + h + "`"@),
        None => with_content,
    }
}

/// One line on what a check demands.
pub open spec fn check_summary(c: CheckView) -> Seq<char> {
    match c.kind {
        PlanCompletionCheckKind::WorkspacePath => {
            let path = text_or(c.path, "<missing path>"@);
            match c.expected_path_type {
                Some(PlanExpectedPathType::Absent) => "`"@ + path + "` must be absent"@,
                Some(PlanExpectedPathType::Directory) => "`"@ + path + "` must be a directory"@,
                Some(PlanExpectedPathType::File) => joined(file_constraints(c, path), ", "@),
                None => "`"@ + path + "` has an invalid path expectation"@,
            }
        },
        PlanCompletionCheckKind::ApprovedEvidenceUnchanged => "approved "@ + evidence_kind_name(
            c.evidence_kind,
        ) + " evidence for `"@ + text_or(c.path, "<missing path>"@) + "` must remain unchanged"@,
        PlanCompletionCheckKind::PlanProgress =>
            "approved steps must be completed or skipped: "@ + joined(c.required_step_ids, ", "@),
        PlanCompletionCheckKind::ToolCallSuccess => "`"@ + text_or(
            c.tool_name,
            "<missing tool>"@,
        ) + "` must succeed with the approved exact arguments"@,
    }
}

fn opt_or(t: &Option<String>, missing: &str) -> (r: String)
    ensures
        r@ == text_or(opt_text(*t), missing@),
{
    match t {
        Some(s) => s.clone(),
        None => owned(missing),
    }
}

fn file_constraint_texts(c: &PlanCompletionCheck, path: &str) -> (r: Vec<String>)
    ensures
        texts(r@) == file_constraints(c@, path@),
{
    let mut out: Vec<String> = Vec::new();
    out.push(concat3("`", path, "` must be a file"));
    let ghost base = seq!["`"@ + path@ + "` must be a file"@];
    assert(texts(out@) =~= base);
    if let Some(n) = c.size_bytes {
        let ghost before = texts(out@);
        out.push(concat3("size ", decimal(n).as_str(), " bytes"));
        assert(texts(out@) =~= before.push("size "@ + decimal_spec(n as nat) + " bytes"@));
    }
    if let Some(t) = &c.exact_content {
        let ghost before = texts(out@);
        let shown = replace_char(replace_char(t.as_str(), '`', "\\`").as_str(), '\n', "\\n");
        out.push(concat3("exact UTF-8 content `", shown.as_str(), "`"));
        assert(texts(out@) =~= before.push("exact UTF-8 content `"@ + shown@ + "`"@));
    }
    if let Some(h) = &c.sha256 {
        let ghost before = texts(out@);
        out.push(concat3("SHA-256 `", h.as_str(), "`"));
        assert(texts(out@) =~= before.push("SHA-256 `"@ + h@ + "`"@));
    }
    out
}

/// One line on what the check demands.
pub fn completion_check_summary(check: &PlanCompletionCheck) -> (r: String)
    ensures
        r@ == check_summary(check@),
{
    match check.kind {
        PlanCompletionCheckKind::WorkspacePath => {
            let path = opt_or(&check.path, "<missing path>");
            match check.expected_path_type {
                Some(PlanExpectedPathType::Absent) => concat3(
                    "`",
                    path.as_str(),
                    "` must be absent",
                ),
                Some(PlanExpectedPathType::Directory) => concat3(
                    "`",
                    path.as_str(),
                    "` must be a directory",
                ),
                Some(PlanExpectedPathType::File) => join(
                    &file_constraint_texts(check, path.as_str()),
                    ", ",
                ),
                None => concat3("`", path.as_str(), "` has an invalid path expectation"),
            }
        },
        PlanCompletionCheckKind::ApprovedEvidenceUnchanged => concat5(
            "approved ",
            match check.evidence_kind {
                Some(PlanEvidenceKind::File) => "Some(File)",
                Some(PlanEvidenceKind::Directory) => "Some(Directory)",
                Some(PlanEvidenceKind::DirectoryTree) => "Some(DirectoryTree)",
                Some(PlanEvidenceKind::Git) => "Some(Git)",
                None => "None",
            },
            " evidence for `",
            opt_or(&check.path, "<missing path>").as_str(),
            "` must remain unchanged",
        ),
        PlanCompletionCheckKind::PlanProgress => {
            let mut out = owned("approved steps must be completed or skipped: ");
            out.append(join(&check.required_step_ids, ", ").as_str());
            out
        },
        PlanCompletionCheckKind::ToolCallSuccess => concat3(
            "`",
            opt_or(&check.tool_name, "<missing tool>").as_str(),
            "` must succeed with the approved exact arguments",
        ),
    }
}

/// The first `n` completion checks.
pub open spec fn checks_markdown(checks: Seq<CheckView>, n: int) -> Seq<char>
    decreases n,
{
    if n <= 0 {
        Seq::empty()
    } else {
        let c = checks[n - 1];
        checks_markdown(checks, n - 1) + ("\n\n- `"@ + c.id + "` → `"@ + c.step_id + "`: "@
            + check_summary(c))
    }
}

fn checks_text(checks: &Vec<PlanCompletionCheck>) -> (r: String)
    ensures
        r@ == checks_markdown(checks_view(checks@), checks@.len() as int),
{
    let mut out = String::new();
    let mut i: usize = 0;
    while i < checks.len()
        invariant
            i <= checks@.len(),
            out@ == checks_markdown(checks_view(checks@), i as int),
        decreases checks@.len() - i,
    {
        let c = &checks[i];
        assert(checks_view(checks@)[i as int] == c@);
        let mut line = owned("\n\n- `");
        line.append(c.id.as_str());
        line.append("` → `");
        line.append(c.step_id.as_str());
        line.append("`: ");
        line.append(completion_check_summary(c).as_str());
        out.append(line.as_str());
        i = i + 1;
    }
    out
}

/// The first `n` answers that a question offers.
pub open spec fn options_markdown(options: Seq<OptionView>, n: int) -> Seq<char>
    decreases n,
{
    if n <= 0 {
        Seq::empty()
    } else {
        let o = options[n - 1];
        let line = "\n  - **"@ + o.label + "**"@;
        options_markdown(options, n - 1) + (if o.description.len() == 0 {
            line
        } else {
            line + ": "@ + o.description
        })
    }
}

fn options_text(options: &Vec<PlanQuestionOption>) -> (r: String)
    ensures
        r@ == options_markdown(options_view(options@), options@.len() as int),
{
    let mut out = String::new();
    let mut i: usize = 0;
    while i < options.len()
        invariant
            i <= options@.len(),
            out@ == options_markdown(options_view(options@), i as int),
        decreases options@.len() - i,
    {
        let o = &options[i];
        assert(options_view(options@)[i as int] == o@);
        let mut line = concat3("\n  - **", o.label.as_str(), "**");
        if !o.description.as_str().is_empty() {
            line.append(": ");
            line.append(o.description.as_str());
        }
        out.append(line.as_str());
        i = i + 1;
    }
    out
}

/// The first `n` questions with the answers they offer.
pub open spec fn questions_markdown(questions: Seq<QuestionView>, n: int) -> Seq<char>
    decreases n,
{
    if n <= 0 {
        Seq::empty()
    } else {
        let q = questions[n - 1];
        questions_markdown(questions, n - 1) + ("\n\n- "@ + q.prompt + options_markdown(
            q.options,
            q.options.len() as int,
        ))
    }
}

fn questions_text(questions: &Vec<PlanQuestion>) -> (r: String)
    ensures
        r@ == questions_markdown(questions_view(questions@), questions@.len() as int),
{
    let mut out = String::new();
    let mut i: usize = 0;
    while i < questions.len()
        invariant
            i <= questions@.len(),
            out@ == questions_markdown(questions_view(questions@), i as int),
        decreases questions@.len() - i,
    {
        let q = &questions[i];
        assert(questions_view(questions@)[i as int] == q@);
        let options = options_text(&q.options);
        out.append(concat3("\n\n- ", q.prompt.as_str(), options.as_str()).as_str());
        i = i + 1;
    }
    out
}

/// The artifact as Markdown.
pub open spec fn artifact_markdown(a: ArtifactView) -> Seq<char> {
    match a.legacy_markdown {
        Some(markdown) => trimmed(markdown),
        None => {
            let head = "# "@ + a.title + "\n\n"@ + a.goal;
            let summary = if a.summary.len() == 0 {
                Seq::empty()
            } else {
                "\n\n"@ + a.summary
            };
            let steps = if a.steps.len() == 0 {
                Seq::empty()
            } else {
                "\n\n## Steps"@ + steps_markdown(a.steps, a.steps.len() as int)
            };
            let checks = if a.completion_checks.len() == 0 {
                Seq::empty()
            } else {
                "\n\n## Server completion checks"@ + checks_markdown(
                    a.completion_checks,
                    a.completion_checks.len() as int,
                )
            };
            let questions = if a.questions.len() == 0 {
                Seq::empty()
            } else {
                "\n\n## Questions"@ + questions_markdown(a.questions, a.questions.len() as int)
            };
            head + summary + steps + list_markdown("Assumptions"@, a.assumptions) + list_markdown(
                "Risks"@,
                a.risks,
            ) + list_markdown("Verification"@, a.verification) + list_markdown(
                "Acceptance criteria"@,
                a.acceptance_criteria,
            ) + checks + questions
        },
    }
}

/// The artifact as Markdown.
pub fn canonical_markdown(artifact: &PlanArtifact) -> (r: String)
    ensures
        r@ == artifact_markdown(artifact@),
{
    if let Some(markdown) = &artifact.legacy_markdown {
        return trim(markdown.as_str());
    }
    let ghost a = artifact@;
    let ghost none = Seq::<char>::empty();
    let mut output = owned("# ");
    output.append(artifact.title.as_str());
    output.append("\n\n");
    output.append(artifact.goal.as_str());
    let ghost o1 = output@;
    if !artifact.summary.as_str().is_empty() {
        output.append("\n\n");
        output.append(artifact.summary.as_str());
        assert(output@ =~= o1 + ("\n\n"@ + a.summary));
    } else {
        assert(output@ =~= o1 + none);
    }
    let ghost o2 = output@;
    if artifact.steps.len() > 0 {
        let steps = steps_text(&artifact.steps);
        output.append("\n\n## Steps");
        output.append(steps.as_str());
        assert(output@ =~= o2 + ("\n\n## Steps"@ + steps@));
    } else {
        assert(output@ =~= o2 + none);
    }
    append_markdown_list(&mut output, "Assumptions", &artifact.assumptions);
    append_markdown_list(&mut output, "Risks", &artifact.risks);
    append_markdown_list(&mut output, "Verification", &artifact.verification);
    append_markdown_list(&mut output, "Acceptance criteria", &artifact.acceptance_criteria);
    let ghost o3 = output@;
    if artifact.completion_checks.len() > 0 {
        let checks = checks_text(&artifact.completion_checks);
        output.append("\n\n## Server completion checks");
        output.append(checks.as_str());
        assert(output@ =~= o3 + ("\n\n## Server completion checks"@ + checks@));
    } else {
        assert(output@ =~= o3 + none);
    }
    let ghost o4 = output@;
    if artifact.questions.len() > 0 {
        let questions = questions_text(&artifact.questions);
        output.append("\n\n## Questions");
        output.append(questions.as_str());
        assert(output@ =~= o4 + ("\n\n## Questions"@ + questions@));
    } else {
        assert(output@ =~= o4 + none);
    }
    output
}

} // verus!
