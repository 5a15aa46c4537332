//! What a plan must satisfy before it is accepted.

use crate::digest::{sha256, sha256_hex};
use crate::plan::model::{
    ArtifactView, CheckView, MAX_PLAN_COMPLETION_CHECKS, MAX_PLAN_COMPLETION_EXACT_CONTENT_BYTES,
    PlanArtifact, PlanCompletionCheck, PlanCompletionCheckKind, PlanContractSection,
    PlanEvidenceKind, PlanExpectedPathType,
};
use crate::text::{
    ascii_alnum, ascii_lower, byte_count, byte_len, char_count, chars_of, clone_opt, concat3,
    concat5, decimal, decimal_spec, first_problem, hex_digit, is_ascii_alnum, is_hex, opt_text,
    or_else, owned, problem, problem_if, replace_char, replaced_char, same, text_between, texts,
    to_ascii_lower, trim, trimmed,
};
use vstd::prelude::*;
use vstd::string::*;
use vstd::utf8::encode_utf8;

verus! {

// ---------------------------------------------------------------------------
// Single values
// ---------------------------------------------------------------------------

/// A text is too short or too long.
pub open spec fn text_problem(field: Seq<char>, value: Seq<char>, min: nat, max: nat) -> Option<
    Seq<char>,
> {
    problem_if(
        value.len() < min || value.len() > max,
        field + " must contain "@ + decimal_spec(min) + " to "@ + decimal_spec(max)
            + " characters"@,
    )
}

/// Checks that `value` has at least `min` and at most `max` characters.
pub fn validate_text(field: &str, value: &str, min: usize, max: usize) -> (r: Result<(), String>)
    ensures
        problem(r) == text_problem(field@, value@, min as nat, max as nat),
{
    let length: usize = char_count(value);
    if length < min || length > max {
        let mut m = owned(field);
        m.append(" must contain ");
        m.append(decimal(min as u64).as_str());
        m.append(" to ");
        m.append(decimal(max as u64).as_str());
        m.append(" characters");
        return Err(m);
    }
    Ok(())
}

/// The characters that identifiers are made of.
pub open spec fn identifier_char(c: char) -> bool {
    is_ascii_alnum(c) || c == '-' || c == '_'
}

/// A text is no identifier.
pub open spec fn identifier_problem(field: Seq<char>, value: Seq<char>) -> Option<Seq<char>> {
    or_else(
        text_problem(field, value, 1, 80),
        problem_if(
            !(forall|i: int| 0 <= i < value.len() ==> identifier_char(#[trigger] value[i])),
            field + " may contain only ASCII letters, digits, '-' and '_'"@,
        ),
    )
}

/// Checks that `value` is an identifier.
pub fn validate_identifier(field: &str, value: &str) -> (r: Result<(), String>)
    ensures
        problem(r) == identifier_problem(field@, value@),
{
    if let Err(e) = validate_text(field, value, 1, 80) {
        return Err(e);
    }
    let v = chars_of(value);
    let mut i: usize = 0;
    while i < v.len()
        invariant
            i <= v@.len(),
            v@ == value@,
            text_problem(field@, value@, 1, 80) is None,
            forall|j: int| 0 <= j < i ==> identifier_char(#[trigger] v@[j]),
        decreases v@.len() - i,
    {
        let c: char = v[i];
        if !(ascii_alnum(c) || c == '-' || c == '_') {
            let mut m = owned(field);
            m.append(" may contain only ASCII letters, digits, '-' and '_'");
            assert(!identifier_char(value@[i as int]));
            return Err(m);
        }
        i = i + 1;
    }
    Ok(())
}

/// The problem of the item at each position of a list of texts.
pub open spec fn item_problems(field: Seq<char>, values: Seq<Seq<char>>, max_chars: nat) -> spec_fn(
    int,
) -> Option<Seq<char>> {
    |i: int| text_problem(field, values[i], 1, max_chars)
}

/// A list of texts is too long, or one of its items is empty or too long.
pub open spec fn string_list_problem(
    field: Seq<char>,
    values: Seq<Seq<char>>,
    max_items: nat,
    max_chars: nat,
) -> Option<Seq<char>> {
    or_else(
        problem_if(
            values.len() > max_items,
            field + " must contain at most "@ + decimal_spec(max_items) + " items"@,
        ),
        first_problem(item_problems(field, values, max_chars), 0, values.len() as int),
    )
}

/// Checks the number of `values` and the length of each.
pub fn validate_string_list(
    field: &str,
    values: &Vec<String>,
    max_items: usize,
    max_chars: usize,
) -> (r: Result<(), String>)
    ensures
        problem(r) == string_list_problem(
            field@,
            texts(values@),
            max_items as nat,
            max_chars as nat,
        ),
{
    if values.len() > max_items {
        let mut m = owned(field);
        m.append(" must contain at most ");
        m.append(decimal(max_items as u64).as_str());
        m.append(" items");
        return Err(m);
    }
    let ghost f = item_problems(field@, texts(values@), max_chars as nat);
    let mut i: usize = 0;
    while i < values.len()
        invariant
            i <= values@.len() <= max_items,
            f == item_problems(field@, texts(values@), max_chars as nat),
            first_problem(f, i as int, values@.len() as int) == first_problem(
                f,
                0,
                values@.len() as int,
            ),
        decreases values@.len() - i,
    {
        assert(f(i as int) == text_problem(field@, values@[i as int]@, 1, max_chars as nat));
        if let Err(e) = validate_text(field, values[i].as_str(), 1, max_chars) {
            return Err(e);
        }
        i = i + 1;
    }
    Ok(())
}

// ---------------------------------------------------------------------------
// Paths in contracts
// ---------------------------------------------------------------------------

/// `s` without any `./` in front.
pub open spec fn without_dot_slashes(s: Seq<char>) -> Seq<char>
    decreases s.len(),
{
    if s.len() >= 2 && s[0] == '.' && s[1] == '/' {
        without_dot_slashes(s.skip(2))
    } else {
        s
    }
}

/// The one spelling under which a path of a contract is compared, in ASCII lower
/// case where the file system does not tell cases apart.
pub open spec fn contract_path(path: Seq<char>, fold_case: bool) -> Seq<char> {
    let spelled = without_dot_slashes(replaced_char(trimmed(path), '\\', "/"@));
    if fold_case {
        ascii_lower(spelled)
    } else {
        spelled
    }
}

/// The spelling under which `path` is compared with other paths of a contract.
/// `fold_case` says that the file system does not tell cases apart.
pub fn normalize_contract_path(path: &str, fold_case: bool) -> (r: String)
    ensures
        r@ == contract_path(path@, fold_case),
{
    let slashed = replace_char(trim(path).as_str(), '\\', "/");
    let v = chars_of(slashed.as_str());
    let n: usize = v.len();
    let mut i: usize = 0;
    assert(v@.skip(0) =~= v@);
    while n - i >= 2 && v[i] == '.' && v[i + 1] == '/'
        invariant
            i <= n == v@.len(),
            without_dot_slashes(v@.skip(i as int)) == without_dot_slashes(v@),
        decreases n - i,
    {
        assert(v@.skip(i as int).skip(2) =~= v@.skip(i + 2));
        i = i + 2;
    }
    assert(v@.skip(i as int) =~= v@.subrange(i as int, n as int));
    let spelled = text_between(&v, i, n);
    if fold_case {
        to_ascii_lower(spelled.as_str())
    } else {
        spelled
    }
}

/// The spelling of a path holds no backslash and does not start with `./`, and
/// where cases are not told apart it holds no upper-case letter of ASCII.
pub proof fn law_contract_path_shape(path: Seq<char>, fold_case: bool)
    ensures
        ({
            let p = contract_path(path, fold_case);
            &&& forall|i: int| 0 <= i < p.len() ==> (#[trigger] p[i]) != '\\'
            &&& !(p.len() >= 2 && p[0] == '.' && p[1] == '/')
            &&& fold_case ==> forall|i: int|
                0 <= i < p.len() ==> !('A' <= #[trigger] p[i] && p[i] <= 'Z')
        }),
{
    let slashed = replaced_char(trimmed(path), '\\', "/"@);
    lemma_no_backslash(trimmed(path));
    lemma_without_dot_slashes(slashed);
    let s = without_dot_slashes(slashed);
    let p = contract_path(path, fold_case);
    assert forall|i: int| 0 <= i < p.len() implies (#[trigger] p[i]) != '\\' by {
        assert(s[i] == slashed[i + slashed.len() - s.len()]);
    }
}

proof fn lemma_no_backslash(s: Seq<char>)
    ensures
        forall|i: int|
            0 <= i < replaced_char(s, '\\', "/"@).len() ==> (#[trigger] replaced_char(
                s,
                '\\',
                "/"@,
            )[i]) != '\\',
    decreases s.len(),
{
    reveal_strlit("/");
    if s.len() > 0 {
        lemma_no_backslash(s.drop_last());
        let p = replaced_char(s.drop_last(), '\\', "/"@);
        let q = replaced_char(s, '\\', "/"@);
        assert forall|i: int| 0 <= i < q.len() implies (#[trigger] q[i]) != '\\' by {
            if i < p.len() {
                assert(q[i] == p[i]);
            }
        }
    }
}

proof fn lemma_without_dot_slashes(s: Seq<char>)
    ensures
        ({
            let t = without_dot_slashes(s);
            &&& t.len() <= s.len()
            &&& t == s.skip(s.len() - t.len())
            &&& !(t.len() >= 2 && t[0] == '.' && t[1] == '/')
        }),
    decreases s.len(),
{
    if s.len() >= 2 && s[0] == '.' && s[1] == '/' {
        lemma_without_dot_slashes(s.skip(2));
        let t = without_dot_slashes(s);
        assert(s.skip(2).skip(s.skip(2).len() - t.len()) =~= s.skip(s.len() - t.len()));
    } else {
        assert(s.skip(0) =~= s);
    }
}

// ---------------------------------------------------------------------------
// Completion checks
// ---------------------------------------------------------------------------

/// `id` names an original step of the artifact.
pub open spec fn has_step(a: ArtifactView, id: Seq<char>) -> bool {
    exists|i: int| 0 <= i < a.steps.len() && (#[trigger] a.steps[i]).id == id
}

/// How many items a section of the contract has.
pub open spec fn section_len(a: ArtifactView, s: PlanContractSection) -> nat {
    match s {
        PlanContractSection::Verification => a.verification.len(),
        PlanContractSection::AcceptanceCriteria => a.acceptance_criteria.len(),
    }
}

/// The name of a section as it stands in messages.
pub open spec fn section_name(s: PlanContractSection) -> Seq<char> {
    match s {
        PlanContractSection::Verification => "Verification"@,
        PlanContractSection::AcceptanceCriteria => "AcceptanceCriteria"@,
    }
}

/// `before + id + after`: a message about the check with this id.
pub open spec fn about(before: Seq<char>, id: Seq<char>, after: Seq<char>) -> Seq<char> {
    before + id + after
}

/// The problem of the clause at each position of what a check covers.
pub open spec fn cover_problems(a: ArtifactView, c: CheckView) -> spec_fn(int) -> Option<
    Seq<char>,
> {
    |m: int|
        or_else(
            problem_if(
                c.covers[m].index >= section_len(a, c.covers[m].section),
                "completion check '"@ + c.id + "' references missing "@ + section_name(
                    c.covers[m].section,
                ) + " item "@ + decimal_spec(c.covers[m].index as nat),
            ),
            problem_if(
                exists|j: int| 0 <= j < m && #[trigger] c.covers[j] == c.covers[m],
                about("completion check '"@, c.id, "' repeats a covered contract clause"@),
            ),
        )
}

/// What the contract says so far of one path: the type, and the first content,
/// size and hash that a check gave for it.
#[verifier::ext_equal]
pub struct ExpectationView {
    pub path_type: PlanExpectedPathType,
    pub content: Option<Seq<char>>,
    pub size: Option<u64>,
    pub hash: Option<Seq<char>>,
}

/// `a` where it is something, else `b`.
pub open spec fn either<T>(a: Option<T>, b: Option<T>) -> Option<T> {
    if a is Some {
        a
    } else {
        b
    }
}

/// Two optional values that are both there and differ.
pub open spec fn differ<T>(a: Option<T>, b: Option<T>) -> bool {
    a is Some && b is Some && a != b
}

/// The hash of a check in the spelling in which hashes are compared.
pub open spec fn lowered(hash: Option<Seq<char>>) -> Option<Seq<char>> {
    match hash {
        Some(h) => Some(ascii_lower(h)),
        None => None,
    }
}

/// An expectation with what a check adds to it.
pub open spec fn absorb(e: ExpectationView, c: CheckView) -> ExpectationView {
    ExpectationView {
        path_type: e.path_type,
        content: either(e.content, c.exact_content),
        size: either(e.size, c.size_bytes),
        hash: either(e.hash, lowered(c.sha256)),
    }
}

/// An expectation that says no more than the type of a path.
pub open spec fn bare_expectation(t: PlanExpectedPathType) -> ExpectationView {
    ExpectationView { path_type: t, content: None, size: None, hash: None }
}

/// The check says something of the path spelled `key`.
pub open spec fn speaks_of(c: CheckView, key: Seq<char>, fold_case: bool) -> bool {
    c.kind is WorkspacePath && c.path is Some && c.expected_path_type is Some && contract_path(
        c.path->0,
        fold_case,
    ) == key
}

/// What the first `k` checks together say of the path spelled `key`.
pub open spec fn expectation(
    checks: Seq<CheckView>,
    key: Seq<char>,
    k: int,
    fold_case: bool,
) -> Option<ExpectationView>
    decreases k,
{
    if k <= 0 {
        None
    } else {
        let earlier = expectation(checks, key, k - 1, fold_case);
        let c = checks[k - 1];
        if speaks_of(c, key, fold_case) {
            Some(
                absorb(
                    match earlier {
                        Some(e) => e,
                        None => bare_expectation(c.expected_path_type->0),
                    },
                    c,
                ),
            )
        } else {
            earlier
        }
    }
}

/// What was said of a path contradicts the check.
pub open spec fn contradicts(e: ExpectationView, c: CheckView) -> bool {
    ||| Some(e.path_type) != c.expected_path_type
    ||| differ(e.content, c.exact_content)
    ||| differ(e.size, c.size_bytes)
    ||| differ(e.hash, lowered(c.sha256))
}

/// The size or the hash that is expected is not that of the expected content.
pub open spec fn inconsistent(e: ExpectationView) -> bool {
    e.content is Some && ({
        let content = e.content->0;
        ||| (e.size is Some && e.size->0 != byte_len(content))
        ||| (e.hash is Some && ascii_lower(e.hash->0) != ascii_lower(
            sha256_hex(encode_utf8(content)),
        ))
    })
}

/// The check at `k` and those before it cannot all hold of its path.
pub open spec fn expectation_problem(
    a: ArtifactView,
    k: int,
    fold_case: bool,
) -> Option<Seq<char>> {
    let c = a.completion_checks[k];
    let path = c.path->0;
    let e = match expectation(a.completion_checks, contract_path(path, fold_case), k, fold_case) {
        Some(e) => e,
        None => bare_expectation(c.expected_path_type->0),
    };
    problem_if(
        contradicts(e, c) || inconsistent(absorb(e, c)),
        about("completion checks contain contradictory expectations for path '"@, path, "'"@),
    )
}

/// The content, size and hash of one check do not fit together.
pub open spec fn content_problem(c: CheckView) -> Option<Seq<char>> {
    match c.exact_content {
        None => None,
        Some(content) => or_else(
            problem_if(
                byte_len(content) > MAX_PLAN_COMPLETION_EXACT_CONTENT_BYTES,
                about(
                    "completion check exact_content exceeds the "@,
                    decimal_spec(MAX_PLAN_COMPLETION_EXACT_CONTENT_BYTES as nat),
                    "-byte limit"@,
                ),
            ),
            or_else(
                problem_if(
                    c.size_bytes is Some && c.size_bytes->0 != byte_len(content),
                    about(
                        "workspace_path check '"@,
                        c.id,
                        "' has a size_bytes value that contradicts exact_content"@,
                    ),
                ),
                problem_if(
                    c.sha256 is Some && ascii_lower(sha256_hex(encode_utf8(content)))
                        != ascii_lower(c.sha256->0),
                    about(
                        "workspace_path check '"@,
                        c.id,
                        "' has a sha256 value that contradicts exact_content"@,
                    ),
                ),
            ),
        ),
    }
}

/// 64 hexadecimal digits.
pub open spec fn is_sha256_text(h: Seq<char>) -> bool {
    h.len() == 64 && forall|i: int| 0 <= i < h.len() ==> is_hex(#[trigger] h[i])
}

/// What is wrong with a check on a workspace path.
pub open spec fn workspace_path_problem(
    a: ArtifactView,
    k: int,
    fold_case: bool,
) -> Option<Seq<char>> {
    let c = a.completion_checks[k];
    match (c.path, c.expected_path_type) {
        (None, _) => Some(about("workspace_path check '"@, c.id, "' requires path"@)),
        (Some(path), expected_type) => or_else(
            text_problem("completion check path"@, path, 1, 4096),
            match expected_type {
                None => Some(
                    about("workspace_path check '"@, c.id, "' requires expected_path_type"@),
                ),
                Some(t) => or_else(
                    problem_if(
                        c.evidence_kind is Some || c.required_step_ids.len() > 0 || c.tool_name
                            is Some || c.arguments is Some,
                        about(
                            "workspace_path check '"@,
                            c.id,
                            "' contains fields for another check kind"@,
                        ),
                    ),
                    or_else(
                        problem_if(
                            !(t is File) && (c.exact_content is Some || c.size_bytes is Some
                                || c.sha256 is Some),
                            about(
                                "workspace_path check '"@,
                                c.id,
                                "' may use content, size, or sha256 only for a file"@,
                            ),
                        ),
                        or_else(
                            content_problem(c),
                            or_else(
                                problem_if(
                                    c.sha256 is Some && !is_sha256_text(c.sha256->0),
                                    about(
                                        "workspace_path check '"@,
                                        c.id,
                                        "' sha256 must contain 64 hexadecimal characters"@,
                                    ),
                                ),
                                expectation_problem(a, k, fold_case),
                            ),
                        ),
                    ),
                ),
            },
        ),
    }
}

/// What is wrong with a check on approved evidence.
pub open spec fn evidence_check_problem(c: CheckView) -> Option<Seq<char>> {
    let start = "approved_evidence_unchanged check '"@;
    match c.path {
        None => Some(about(start, c.id, "' requires path"@)),
        Some(path) => or_else(
            text_problem("completion check path"@, path, 1, 4096),
            match c.evidence_kind {
                None => Some(about(start, c.id, "' requires evidence_kind"@)),
                Some(kind) => or_else(
                    problem_if(
                        kind is Git,
                        about(start, c.id, "' does not support Git evidence"@),
                    ),
                    problem_if(
                        c.expected_path_type is Some || c.exact_content is Some || c.size_bytes
                            is Some || c.sha256 is Some || c.required_step_ids.len() > 0
                            || c.tool_name is Some || c.arguments is Some,
                        about(start, c.id, "' contains fields for another check kind"@),
                    ),
                ),
            },
        ),
    }
}

/// The problem of each step id that a progress check requires.
pub open spec fn required_step_problems(a: ArtifactView, c: CheckView) -> spec_fn(int) -> Option<
    Seq<char>,
> {
    |m: int|
        or_else(
            identifier_problem("required progress step id"@, c.required_step_ids[m]),
            or_else(
                problem_if(
                    !has_step(a, c.required_step_ids[m]),
                    "plan_progress check '"@ + c.id + "' references unknown approved step '"@
                        + c.required_step_ids[m] + "'"@,
                ),
                problem_if(
                    exists|j: int|
                        0 <= j < m && #[trigger] c.required_step_ids[j] == c.required_step_ids[m],
                    "plan_progress check '"@ + c.id + "' repeats step '"@ + c.required_step_ids[m]
                        + "'"@,
                ),
            ),
        )
}

/// What is wrong with a check on the progress of steps.
pub open spec fn progress_check_problem(a: ArtifactView, c: CheckView) -> Option<Seq<char>> {
    or_else(
        problem_if(
            c.required_step_ids.len() == 0,
            about("plan_progress check '"@, c.id, "' requires required_step_ids"@),
        ),
        or_else(
            first_problem(required_step_problems(a, c), 0, c.required_step_ids.len() as int),
            problem_if(
                c.path is Some || c.expected_path_type is Some || c.exact_content is Some
                    || c.size_bytes is Some || c.sha256 is Some || c.evidence_kind is Some
                    || c.tool_name is Some || c.arguments is Some,
                about(
                    "plan_progress check '"@,
                    c.id,
                    "' contains fields for another check kind"@,
                ),
            ),
        ),
    )
}

/// What is wrong with a check on a tool call.
pub open spec fn tool_check_problem(c: CheckView) -> Option<Seq<char>> {
    let start = "tool_call_success check '"@;
    match c.tool_name {
        None => Some(about(start, c.id, "' requires tool_name"@)),
        Some(tool_name) => or_else(
            text_problem("completion check tool_name"@, tool_name, 1, 256),
            or_else(
                problem_if(
                    tool_name == "submit_plan"@ || tool_name == "update_plan"@,
                    about(start, c.id, "' cannot target an internal Plan tool"@),
                ),
                or_else(
                    problem_if(
                        !(c.arguments is Some && c.arguments->0 is Object),
                        about(start, c.id, "' requires object arguments"@),
                    ),
                    problem_if(
                        c.path is Some || c.expected_path_type is Some || c.exact_content is Some
                            || c.size_bytes is Some || c.sha256 is Some || c.evidence_kind is Some
                            || c.required_step_ids.len() > 0,
                        about(start, c.id, "' contains fields for another check kind"@),
                    ),
                ),
            ),
        ),
    }
}

/// What is wrong with the check at `k`, given the checks before it.
pub open spec fn check_problem(a: ArtifactView, k: int, fold_case: bool) -> Option<Seq<char>> {
    let c = a.completion_checks[k];
    or_else(
        identifier_problem("completion check id"@, c.id),
        or_else(
            problem_if(
                exists|j: int| 0 <= j < k && (#[trigger] a.completion_checks[j]).id == c.id,
                about("duplicate completion check id '"@, c.id, "'"@),
            ),
            or_else(
                identifier_problem("completion check step_id"@, c.step_id),
                or_else(
                    problem_if(
                        !has_step(a, c.step_id),
                        about(
                            "completion check '"@,
                            c.id,
                            "' must bind to an original approved step"@,
                        ),
                    ),
                    or_else(
                        problem_if(
                            c.covers.len() == 0,
                            about(
                                "completion check '"@,
                                c.id,
                                "' must cover at least one verification or acceptance criterion"@,
                            ),
                        ),
                        or_else(
                            problem_if(
                                c.covers.len() > 24,
                                about(
                                    "completion check '"@,
                                    c.id,
                                    "' covers too many contract clauses"@,
                                ),
                            ),
                            or_else(
                                first_problem(cover_problems(a, c), 0, c.covers.len() as int),
                                match c.kind {
                                    PlanCompletionCheckKind::WorkspacePath =>
                                        workspace_path_problem(a, k, fold_case),
                                    PlanCompletionCheckKind::ApprovedEvidenceUnchanged =>
                                        evidence_check_problem(c),
                                    PlanCompletionCheckKind::PlanProgress =>
                                        progress_check_problem(a, c),
                                    PlanCompletionCheckKind::ToolCallSuccess => tool_check_problem(
                                        c,
                                    ),
                                },
                            ),
                        ),
                    ),
                ),
            ),
        ),
    )
}

/// The problem of the check at each position.
pub open spec fn check_problems(
    a: ArtifactView,
    fold_case: bool,
) -> spec_fn(int) -> Option<Seq<char>> {
    |k: int| check_problem(a, k, fold_case)
}

/// Some check other than one on the agent's own progress report covers the
/// clause.
pub open spec fn is_covered(a: ArtifactView, section: PlanContractSection, index: int) -> bool {
    exists|k: int, m: int|
        0 <= k < a.completion_checks.len() && 0 <= m < a.completion_checks[k].covers.len() && !(
        a.completion_checks[k].kind is PlanProgress) && (
        #[trigger] a.completion_checks[k].covers[m]).section == section
            && a.completion_checks[k].covers[m].index == index
}

/// The problem of each item of a section that no check covers.
pub open spec fn uncovered_problems(a: ArtifactView, section: PlanContractSection) -> spec_fn(
    int,
) -> Option<Seq<char>> {
    |i: int|
        problem_if(
            !is_covered(a, section, i),
            (match section {
                PlanContractSection::Verification => "verification item "@,
                PlanContractSection::AcceptanceCriteria => "acceptance_criteria item "@,
            }) + decimal_spec(i as nat)
                + " is missing a server-verifiable completion check"@,
        )
}

/// What is wrong with the completion checks of an artifact.
pub open spec fn completion_checks_problem(
    a: ArtifactView,
    require_complete_coverage: bool,
    fold_case: bool,
) -> Option<Seq<char>> {
    or_else(
        problem_if(
            a.completion_checks.len() > MAX_PLAN_COMPLETION_CHECKS,
            about(
                "completion_checks must contain at most "@,
                decimal_spec(MAX_PLAN_COMPLETION_CHECKS as nat),
                " items"@,
            ),
        ),
        or_else(
            first_problem(check_problems(a, fold_case), 0, a.completion_checks.len() as int),
            if require_complete_coverage {
                or_else(
                    first_problem(
                        uncovered_problems(a, PlanContractSection::Verification),
                        0,
                        a.verification.len() as int,
                    ),
                    first_problem(
                        uncovered_problems(a, PlanContractSection::AcceptanceCriteria),
                        0,
                        a.acceptance_criteria.len() as int,
                    ),
                )
            } else {
                None
            },
        ),
    )
}

/// Whether `id` names an original step.
fn names_step(artifact: &PlanArtifact, id: &str) -> (r: bool)
    ensures
        r == has_step(artifact@, id@),
{
    let mut i: usize = 0;
    while i < artifact.steps.len()
        invariant
            i <= artifact.steps@.len(),
            forall|j: int| 0 <= j < i ==> (#[trigger] artifact@.steps[j]).id != id@,
        decreases artifact.steps@.len() - i,
    {
        assert(artifact@.steps[i as int].id == artifact.steps@[i as int].id@);
        if same(artifact.steps[i].id.as_str(), id) {
            return true;
        }
        i = i + 1;
    }
    false
}

fn check_message(before: &str, check: &PlanCompletionCheck, after: &str) -> (r: String)
    ensures
        r@ == about(before@, check@.id, after@),
{
    concat3(before, check.id.as_str(), after)
}

fn validate_covers(artifact: &PlanArtifact, check: &PlanCompletionCheck) -> (r: Result<(), String>)
    ensures
        problem(r) == first_problem(
            cover_problems(artifact@, check@),
            0,
            check@.covers.len() as int,
        ),
{
    let ghost f = cover_problems(artifact@, check@);
    let mut m: usize = 0;
    while m < check.covers.len()
        invariant
            m <= check.covers@.len(),
            f == cover_problems(artifact@, check@),
            first_problem(f, m as int, check.covers@.len() as int) == first_problem(
                f,
                0,
                check.covers@.len() as int,
            ),
        decreases check.covers@.len() - m,
    {
        let clause = check.covers[m];
        let ghost now = f(m as int);
        let count: usize = match clause.section {
            PlanContractSection::Verification => artifact.verification.len(),
            PlanContractSection::AcceptanceCriteria => artifact.acceptance_criteria.len(),
        };
        assert(count == section_len(artifact@, clause.section));
        if clause.index >= count {
            let mut e = owned("completion check '");
            e.append(check.id.as_str());
            e.append("' references missing ");
            match clause.section {
                PlanContractSection::Verification => {
                    e.append("Verification");
                },
                PlanContractSection::AcceptanceCriteria => {
                    e.append("AcceptanceCriteria");
                },
            }
            e.append(" item ");
            e.append(decimal(clause.index as u64).as_str());
            assert(now == Some(e@));
            return Err(e);
        }
        let mut j: usize = 0;
        while j < m
            invariant
                j <= m < check.covers@.len(),
                clause == check.covers@[m as int],
                clause.index < section_len(artifact@, clause.section),
                f == cover_problems(artifact@, check@),
                now == f(m as int),
                first_problem(f, m as int, check.covers@.len() as int) == first_problem(
                    f,
                    0,
                    check.covers@.len() as int,
                ),
                forall|i: int| 0 <= i < j ==> #[trigger] check@.covers[i] != clause,
            decreases m - j,
        {
            if check.covers[j] == clause {
                assert(check@.covers[j as int] == check@.covers[m as int]);
                return Err(
                    check_message(
                        "completion check '",
                        check,
                        "' repeats a covered contract clause",
                    ),
                );
            }
            j = j + 1;
        }
        assert(now is None);
        m = m + 1;
    }
    Ok(())
}

/// What has been said of one path.
struct PathExpectation {
    path_type: PlanExpectedPathType,
    content: Option<String>,
    size: Option<u64>,
    hash: Option<String>,
}

impl PathExpectation {
    spec fn view(self) -> ExpectationView {
        ExpectationView {
            path_type: self.path_type,
            content: opt_text(self.content),
            size: self.size,
            hash: opt_text(self.hash),
        }
    }
}

fn lowered_hash(check: &PlanCompletionCheck) -> (r: Option<String>)
    ensures
        opt_text(r) == lowered(check@.sha256),
{
    match &check.sha256 {
        Some(h) => Some(to_ascii_lower(h.as_str())),
        None => None,
    }
}

fn texts_differ(a: &Option<String>, b: &Option<String>) -> (r: bool)
    ensures
        r == differ(opt_text(*a), opt_text(*b)),
{
    match (a, b) {
        (Some(x), Some(y)) => !same(x.as_str(), y.as_str()),
        _ => false,
    }
}

fn sizes_differ(a: Option<u64>, b: Option<u64>) -> (r: bool)
    ensures
        r == differ(a, b),
{
    match (a, b) {
        (Some(x), Some(y)) => x != y,
        _ => false,
    }
}

fn absorb_check(e: PathExpectation, check: &PlanCompletionCheck) -> (r: PathExpectation)
    ensures
        r@ == absorb(e@, check@),
{
    let content = match e.content {
        Some(c) => Some(c),
        None => clone_opt(&check.exact_content),
    };
    let hash = match e.hash {
        Some(h) => Some(h),
        None => lowered_hash(check),
    };
    let size = match e.size {
        Some(n) => Some(n),
        None => check.size_bytes,
    };
    PathExpectation { path_type: e.path_type, content, size, hash }
}

/// What the first `k` checks say of the path spelled `key`.
fn expectation_before(
    artifact: &PlanArtifact,
    key: &str,
    k: usize,
    fold_case: bool,
) -> (r: Option<PathExpectation>)
    requires
        k <= artifact.completion_checks@.len(),
    ensures
        match r {
            Some(e) => expectation(
                artifact@.completion_checks,
                key@,
                k as int,
                fold_case,
            ) == Some(e@),
            None => expectation(artifact@.completion_checks, key@, k as int, fold_case) is None,
        },
{
    let mut found: Option<PathExpectation> = None;
    let mut i: usize = 0;
    while i < k
        invariant
            i <= k <= artifact.completion_checks@.len(),
            match found {
                Some(e) => expectation(
                    artifact@.completion_checks,
                    key@,
                    i as int,
                    fold_case,
                ) == Some(e@),
                None => expectation(artifact@.completion_checks, key@, i as int, fold_case) is None,
            },
        decreases k - i,
    {
        let check = &artifact.completion_checks[i];
        assert(artifact@.completion_checks[i as int] == check@);
        if let PlanCompletionCheckKind::WorkspacePath = check.kind {
            if let (Some(path), Some(t)) = (&check.path, check.expected_path_type) {
                if same(normalize_contract_path(path.as_str(), fold_case).as_str(), key) {
                    let start = match found {
                        Some(e) => e,
                        None => PathExpectation {
                            path_type: t,
                            content: None,
                            size: None,
                            hash: None,
                        },
                    };
                    found = Some(absorb_check(start, check));
                }
            }
        }
        i = i + 1;
    }
    found
}

/// The SHA-256 digest of a text's bytes, in ASCII lower case.
fn lowered_digest(content: &str) -> (r: String)
    ensures
        r@ == ascii_lower(sha256_hex(encode_utf8(content@))),
{
    to_ascii_lower(sha256(content.as_bytes()).as_str())
}

fn validate_expectation(
    artifact: &PlanArtifact,
    k: usize,
    fold_case: bool,
) -> (r: Result<(), String>)
    requires
        k < artifact.completion_checks@.len(),
        artifact@.completion_checks[k as int].path is Some,
        artifact@.completion_checks[k as int].expected_path_type is Some,
    ensures
        problem(r) == expectation_problem(artifact@, k as int, fold_case),
{
    let check = &artifact.completion_checks[k];
    assert(artifact@.completion_checks[k as int] == check@);
    if let (Some(path), Some(t)) = (&check.path, check.expected_path_type) {
        let key = normalize_contract_path(path.as_str(), fold_case);
        let e = match expectation_before(artifact, key.as_str(), k, fold_case) {
            Some(e) => e,
            None => PathExpectation { path_type: t, content: None, size: None, hash: None },
        };
        let hash = lowered_hash(check);
        let contradiction = e.path_type != t || texts_differ(&e.content, &check.exact_content)
            || sizes_differ(e.size, check.size_bytes) || texts_differ(&e.hash, &hash);
        if contradiction {
            return Err(
                concat3(
                    "completion checks contain contradictory expectations for path '",
                    path.as_str(),
                    "'",
                ),
            );
        }
        let merged = absorb_check(e, check);
        if let Some(content) = &merged.content {
            let wrong_size = match merged.size {
                Some(n) => n != byte_count(content.as_str()) as u64,
                None => false,
            };
            let wrong_hash = match &merged.hash {
                Some(h) => !same(
                    to_ascii_lower(h.as_str()).as_str(),
                    lowered_digest(content.as_str()).as_str(),
                ),
                None => false,
            };
            if wrong_size || wrong_hash {
                return Err(
                    concat3(
                        "completion checks contain contradictory expectations for path '",
                        path.as_str(),
                        "'",
                    ),
                );
            }
        }
    }
    Ok(())
}

fn validate_content(check: &PlanCompletionCheck) -> (r: Result<(), String>)
    ensures
        problem(r) == content_problem(check@),
{
    if let Some(content) = &check.exact_content {
        let size: usize = byte_count(content.as_str());
        if size > MAX_PLAN_COMPLETION_EXACT_CONTENT_BYTES {
            return Err(
                concat3(
                    "completion check exact_content exceeds the ",
                    decimal(MAX_PLAN_COMPLETION_EXACT_CONTENT_BYTES as u64).as_str(),
                    "-byte limit",
                ),
            );
        }
        if let Some(n) = check.size_bytes {
            if n != size as u64 {
                return Err(
                    check_message(
                        "workspace_path check '",
                        check,
                        "' has a size_bytes value that contradicts exact_content",
                    ),
                );
            }
        }
        if let Some(h) = &check.sha256 {
            if !same(
                lowered_digest(content.as_str()).as_str(),
                to_ascii_lower(h.as_str()).as_str(),
            ) {
                return Err(
                    check_message(
                        "workspace_path check '",
                        check,
                        "' has a sha256 value that contradicts exact_content",
                    ),
                );
            }
        }
    }
    Ok(())
}

/// Whether `h` is made of 64 hexadecimal digits.
fn sha256_shaped(h: &str) -> (r: bool)
    ensures
        r == is_sha256_text(h@),
{
    let v = chars_of(h);
    if v.len() != 64 {
        return false;
    }
    let mut i: usize = 0;
    while i < v.len()
        invariant
            i <= v@.len() == 64,
            v@ == h@,
            forall|j: int| 0 <= j < i ==> is_hex(#[trigger] v@[j]),
        decreases v@.len() - i,
    {
        if !hex_digit(v[i]) {
            assert(!is_hex(h@[i as int]));
            return false;
        }
        i = i + 1;
    }
    true
}

fn validate_workspace_path_check(
    artifact: &PlanArtifact,
    k: usize,
    fold_case: bool,
) -> (r: Result<(), String>)
    requires
        k < artifact.completion_checks@.len(),
    ensures
        problem(r) == workspace_path_problem(artifact@, k as int, fold_case),
{
    let check = &artifact.completion_checks[k];
    assert(artifact@.completion_checks[k as int] == check@);
    let path = match &check.path {
        Some(p) => p,
        None => {
            return Err(check_message("workspace_path check '", check, "' requires path"));
        },
    };
    if let Err(e) = validate_text("completion check path", path.as_str(), 1, 4096) {
        return Err(e);
    }
    let expected_type = match check.expected_path_type {
        Some(t) => t,
        None => {
            return Err(
                check_message("workspace_path check '", check, "' requires expected_path_type"),
            );
        },
    };
    if check.evidence_kind.is_some() || check.required_step_ids.len() > 0
        || check.tool_name.is_some() || check.arguments.is_some() {
        return Err(
            check_message(
                "workspace_path check '",
                check,
                "' contains fields for another check kind",
            ),
        );
    }
    if expected_type != PlanExpectedPathType::File && (check.exact_content.is_some()
        || check.size_bytes.is_some() || check.sha256.is_some()) {
        return Err(
            check_message(
                "workspace_path check '",
                check,
                "' may use content, size, or sha256 only for a file",
            ),
        );
    }
    if let Err(e) = validate_content(check) {
        return Err(e);
    }
    if let Some(h) = &check.sha256 {
        if !sha256_shaped(h.as_str()) {
            return Err(
                check_message(
                    "workspace_path check '",
                    check,
                    "' sha256 must contain 64 hexadecimal characters",
                ),
            );
        }
    }
    validate_expectation(artifact, k, fold_case)
}

fn validate_evidence_check(check: &PlanCompletionCheck) -> (r: Result<(), String>)
    ensures
        problem(r) == evidence_check_problem(check@),
{
    let path = match &check.path {
        Some(p) => p,
        None => {
            return Err(
                check_message("approved_evidence_unchanged check '", check, "' requires path"),
            );
        },
    };
    if let Err(e) = validate_text("completion check path", path.as_str(), 1, 4096) {
        return Err(e);
    }
    let kind = match check.evidence_kind {
        Some(k) => k,
        None => {
            return Err(
                check_message(
                    "approved_evidence_unchanged check '",
                    check,
                    "' requires evidence_kind",
                ),
            );
        },
    };
    if kind == PlanEvidenceKind::Git {
        return Err(
            check_message(
                "approved_evidence_unchanged check '",
                check,
                "' does not support Git evidence",
            ),
        );
    }
    if check.expected_path_type.is_some() || check.exact_content.is_some()
        || check.size_bytes.is_some() || check.sha256.is_some() || check.required_step_ids.len()
        > 0 || check.tool_name.is_some() || check.arguments.is_some() {
        return Err(
            check_message(
                "approved_evidence_unchanged check '",
                check,
                "' contains fields for another check kind",
            ),
        );
    }
    Ok(())
}

fn validate_progress_check(artifact: &PlanArtifact, check: &PlanCompletionCheck) -> (r: Result<
    (),
    String,
>)
    ensures
        problem(r) == progress_check_problem(artifact@, check@),
{
    if check.required_step_ids.len() == 0 {
        return Err(
            check_message("plan_progress check '", check, "' requires required_step_ids"),
        );
    }
    let ghost f = required_step_problems(artifact@, check@);
    let ghost n = check.required_step_ids@.len() as int;
    let mut m: usize = 0;
    while m < check.required_step_ids.len()
        invariant
            m <= check.required_step_ids@.len(),
            0 < n == check.required_step_ids@.len(),
            f == required_step_problems(artifact@, check@),
            first_problem(f, m as int, n) == first_problem(f, 0, n),
        decreases check.required_step_ids@.len() - m,
    {
        let id = &check.required_step_ids[m];
        let ghost now = f(m as int);
        assert(check@.required_step_ids[m as int] == id@);
        if let Err(e) = validate_identifier("required progress step id", id.as_str()) {
            return Err(e);
        }
        if !names_step(artifact, id.as_str()) {
            return Err(
                concat5(
                    "plan_progress check '",
                    check.id.as_str(),
                    "' references unknown approved step '",
                    id.as_str(),
                    "'",
                ),
            );
        }
        let mut j: usize = 0;
        while j < m
            invariant
                j <= m < check.required_step_ids@.len(),
                0 < n == check.required_step_ids@.len(),
                *id == check.required_step_ids@[m as int],
                check@.required_step_ids[m as int] == id@,
                identifier_problem("required progress step id"@, id@) is None,
                has_step(artifact@, id@),
                f == required_step_problems(artifact@, check@),
                now == f(m as int),
                first_problem(f, m as int, n) == first_problem(f, 0, n),
                forall|i: int| 0 <= i < j ==> #[trigger] check@.required_step_ids[i] != id@,
            decreases m - j,
        {
            assert(check@.required_step_ids[j as int] == check.required_step_ids@[j as int]@);
            if same(check.required_step_ids[j].as_str(), id.as_str()) {
                return Err(
                    concat5(
                        "plan_progress check '",
                        check.id.as_str(),
                        "' repeats step '",
                        id.as_str(),
                        "'",
                    ),
                );
            }
            j = j + 1;
        }
        assert(now is None);
        m = m + 1;
    }
    if check.path.is_some() || check.expected_path_type.is_some() || check.exact_content.is_some()
        || check.size_bytes.is_some() || check.sha256.is_some() || check.evidence_kind.is_some()
        || check.tool_name.is_some() || check.arguments.is_some() {
        return Err(
            check_message(
                "plan_progress check '",
                check,
                "' contains fields for another check kind",
            ),
        );
    }
    Ok(())
}

fn validate_tool_check(check: &PlanCompletionCheck) -> (r: Result<(), String>)
    ensures
        problem(r) == tool_check_problem(check@),
{
    let tool_name = match &check.tool_name {
        Some(t) => t,
        None => {
            return Err(check_message("tool_call_success check '", check, "' requires tool_name"));
        },
    };
    if let Err(e) = validate_text("completion check tool_name", tool_name.as_str(), 1, 256) {
        return Err(e);
    }
    if same(tool_name.as_str(), "submit_plan") || same(tool_name.as_str(), "update_plan") {
        return Err(
            check_message(
                "tool_call_success check '",
                check,
                "' cannot target an internal Plan tool",
            ),
        );
    }
    let has_object = match &check.arguments {
        Some(j) => j.is_object(),
        None => false,
    };
    if !has_object {
        return Err(
            check_message("tool_call_success check '", check, "' requires object arguments"),
        );
    }
    if check.path.is_some() || check.expected_path_type.is_some() || check.exact_content.is_some()
        || check.size_bytes.is_some() || check.sha256.is_some() || check.evidence_kind.is_some()
        || check.required_step_ids.len() > 0 {
        return Err(
            check_message(
                "tool_call_success check '",
                check,
                "' contains fields for another check kind",
            ),
        );
    }
    Ok(())
}

fn validate_check(artifact: &PlanArtifact, k: usize, fold_case: bool) -> (r: Result<(), String>)
    requires
        k < artifact.completion_checks@.len(),
    ensures
        problem(r) == check_problem(artifact@, k as int, fold_case),
{
    let check = &artifact.completion_checks[k];
    assert(artifact@.completion_checks[k as int] == check@);
    if let Err(e) = validate_identifier("completion check id", check.id.as_str()) {
        return Err(e);
    }
    let mut j: usize = 0;
    while j < k
        invariant
            j <= k < artifact.completion_checks@.len(),
            *check == artifact.completion_checks@[k as int],
            artifact@.completion_checks[k as int] == check@,
            identifier_problem("completion check id"@, check@.id) is None,
            forall|i: int|
                0 <= i < j ==> (#[trigger] artifact@.completion_checks[i]).id != check@.id,
        decreases k - j,
    {
        assert(artifact@.completion_checks[j as int].id
            == artifact.completion_checks@[j as int].id@);
        if same(artifact.completion_checks[j].id.as_str(), check.id.as_str()) {
            return Err(check_message("duplicate completion check id '", check, "'"));
        }
        j = j + 1;
    }
    if let Err(e) = validate_identifier("completion check step_id", check.step_id.as_str()) {
        return Err(e);
    }
    if !names_step(artifact, check.step_id.as_str()) {
        return Err(
            check_message("completion check '", check, "' must bind to an original approved step"),
        );
    }
    if check.covers.len() == 0 {
        return Err(
            check_message(
                "completion check '",
                check,
                "' must cover at least one verification or acceptance criterion",
            ),
        );
    }
    if check.covers.len() > 24 {
        return Err(
            check_message("completion check '", check, "' covers too many contract clauses"),
        );
    }
    if let Err(e) = validate_covers(artifact, check) {
        return Err(e);
    }
    match check.kind {
        PlanCompletionCheckKind::WorkspacePath => validate_workspace_path_check(
            artifact,
            k,
            fold_case,
        ),
        PlanCompletionCheckKind::ApprovedEvidenceUnchanged => validate_evidence_check(check),
        PlanCompletionCheckKind::PlanProgress => validate_progress_check(artifact, check),
        PlanCompletionCheckKind::ToolCallSuccess => validate_tool_check(check),
    }
}

fn covers_clause(artifact: &PlanArtifact, section: PlanContractSection, index: usize) -> (r: bool)
    ensures
        r == is_covered(artifact@, section, index as int),
{
    let mut k: usize = 0;
    while k < artifact.completion_checks.len()
        invariant
            k <= artifact.completion_checks@.len(),
            forall|i: int, m: int|
                0 <= i < k && 0 <= m < artifact@.completion_checks[i].covers.len() && !(
                artifact@.completion_checks[i].kind is PlanProgress) ==> !((
                #[trigger] artifact@.completion_checks[i].covers[m]).section == section
                    && artifact@.completion_checks[i].covers[m].index == index),
        decreases artifact.completion_checks@.len() - k,
    {
        let check = &artifact.completion_checks[k];
        assert(artifact@.completion_checks[k as int] == check@);
        if check.kind != PlanCompletionCheckKind::PlanProgress {
            let mut m: usize = 0;
            while m < check.covers.len()
                invariant
                    m <= check.covers@.len(),
                    k < artifact.completion_checks@.len(),
                    artifact@.completion_checks[k as int] == check@,
                    !(check.kind is PlanProgress),
                    forall|i: int|
                        0 <= i < m ==> !((#[trigger] check@.covers[i]).section == section
                            && check@.covers[i].index == index),
                decreases check.covers@.len() - m,
            {
                let clause = check.covers[m];
                if clause.section == section && clause.index == index {
                    assert(artifact@.completion_checks[k as int].covers[m as int] == clause);
                    return true;
                }
                m = m + 1;
            }
        }
        k = k + 1;
    }
    false
}

fn validate_section_covered(
    artifact: &PlanArtifact,
    section: PlanContractSection,
    count: usize,
) -> (r: Result<(), String>)
    ensures
        problem(r) == first_problem(uncovered_problems(artifact@, section), 0, count as int),
{
    let ghost f = uncovered_problems(artifact@, section);
    let mut i: usize = 0;
    while i < count
        invariant
            i <= count,
            f == uncovered_problems(artifact@, section),
            first_problem(f, i as int, count as int) == first_problem(f, 0, count as int),
        decreases count - i,
    {
        let ghost now = f(i as int);
        if !covers_clause(artifact, section, i) {
            let mut e = owned(
                match section {
                    PlanContractSection::Verification => "verification item ",
                    PlanContractSection::AcceptanceCriteria => "acceptance_criteria item ",
                },
            );
            e.append(decimal(i as u64).as_str());
            e.append(" is missing a server-verifiable completion check");
            return Err(e);
        }
        assert(now is None);
        i = i + 1;
    }
    Ok(())
}

/// Checks the completion checks of an artifact, each against the artifact and
/// the checks before it, and where `require_complete_coverage` is set, that
/// every item of the contract is covered by one that the server can verify.
pub fn validate_completion_checks(
    artifact: &PlanArtifact,
    require_complete_coverage: bool,
    fold_case: bool,
) -> (r: Result<(), String>)
    ensures
        problem(r) == completion_checks_problem(artifact@, require_complete_coverage, fold_case),
{
    if artifact.completion_checks.len() > MAX_PLAN_COMPLETION_CHECKS {
        return Err(
            concat3(
                "completion_checks must contain at most ",
                decimal(MAX_PLAN_COMPLETION_CHECKS as u64).as_str(),
                " items",
            ),
        );
    }
    let ghost f = check_problems(artifact@, fold_case);
    let ghost n = artifact.completion_checks@.len() as int;
    let mut k: usize = 0;
    while k < artifact.completion_checks.len()
        invariant
            k <= artifact.completion_checks@.len() == n <= MAX_PLAN_COMPLETION_CHECKS,
            f == check_problems(artifact@, fold_case),
            first_problem(f, k as int, n) == first_problem(f, 0, n),
        decreases artifact.completion_checks@.len() - k,
    {
        assert(f(k as int) == check_problem(artifact@, k as int, fold_case));
        if let Err(e) = validate_check(artifact, k, fold_case) {
            return Err(e);
        }
        k = k + 1;
    }
    if require_complete_coverage {
        if let Err(e) = validate_section_covered(
            artifact,
            PlanContractSection::Verification,
            artifact.verification.len(),
        ) {
            return Err(e);
        }
        if let Err(e) = validate_section_covered(
            artifact,
            PlanContractSection::AcceptanceCriteria,
            artifact.acceptance_criteria.len(),
        ) {
            return Err(e);
        }
    }
    Ok(())
}

} // verus!
