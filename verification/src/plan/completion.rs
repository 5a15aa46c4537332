//! Deciding whether an approved revision was carried out, from what the server
//! observed of the workspace.

use crate::digest::{push_bytes, sha256, sha256_hex};
use crate::json::{Json, JsonView, json_equal};
use crate::plan::accept::{limit_message, limit_text};
use crate::plan::fingerprint::{
    DirectoryEntry, EntryView, FileFacts, SamplePlan, content_bytes, directory_view, facts_bytes,
    file_fingerprint, plan_sample, sample_plan_of, sorted_directory_fingerprint,
    sorted_listing_digest,
};
use crate::plan::model::{
    ArtifactView, CheckView, EvidenceView, MAX_EVIDENCE_HASH_FILE_BYTES,
    MAX_PLAN_COMPLETION_DIRECTORY_ENTRIES, MAX_PLAN_COMPLETION_FILE_BYTES, PendingPlan,
    PlanCompletionCheck, PlanCompletionCheckKind, PlanContractSection, PlanEvidence,
    PlanEvidenceKind, PlanExpectedPathType, PlanProgressStep, PlanStepStatus, PlanView,
    ProgressView, checks_view, evidence_view, step_status_label,
};
use crate::plan::pending::{finished, is_finished};
use crate::plan::progress::{find_step, ids_unique, lemma_position_in_range, position_from};
use crate::plan::rules::{
    about, completion_checks_problem, contract_path, either, is_covered, normalize_contract_path,
    section_len, uncovered_problems, validate_completion_checks,
};
use crate::text::{
    ascii_lower, byte_count, byte_len, clone_opt, concat3, concat5, contains, decimal,
    decimal_spec, first_problem, holds_text, owned, problem, same, stands_at, take_at_most,
    take_chars, texts, to_ascii_lower,
};
use vstd::prelude::*;
use vstd::string::*;
use vstd::utf8::encode_utf8;

verus! {

// ---------------------------------------------------------------------------
// Errors and interruptions
// ---------------------------------------------------------------------------

/// Why a verification stopped early.
#[derive(Clone, Copy, Debug, PartialEq, Eq, Structural)]
pub enum PlanCompletionVerificationError {
    Cancelled,
    TimedOut,
}

/// Why a check did not pass: it failed, or the verification stopped.
#[derive(Debug, PartialEq, Eq)]
pub enum CompletionCheckError {
    Failed(String),
    Interrupted(PlanCompletionVerificationError),
}

pub enum CheckErrorView {
    Failed(Seq<char>),
    Interrupted(PlanCompletionVerificationError),
}

impl CompletionCheckError {
    pub open spec fn view(self) -> CheckErrorView {
        match self {
            CompletionCheckError::Failed(s) => CheckErrorView::Failed(s@),
            CompletionCheckError::Interrupted(e) => CheckErrorView::Interrupted(e),
        }
    }
}

/// Why a check did not pass, if it did not.
pub open spec fn check_error(r: Result<(), CompletionCheckError>) -> Option<CheckErrorView> {
    match r {
        Ok(_) => None,
        Err(e) => Some(e@),
    }
}

/// A failure with the given reason where `bad` holds.
pub open spec fn fail_if(bad: bool, reason: Seq<char>) -> Option<CheckErrorView> {
    if bad {
        Some(CheckErrorView::Failed(reason))
    } else {
        None
    }
}

/// A failure with the reason that an operation gave.
pub open spec fn fail_of(r: Result<(), String>) -> Option<CheckErrorView> {
    match r {
        Ok(_) => None,
        Err(e) => Some(CheckErrorView::Failed(e@)),
    }
}

/// What was read of the means to stop a verification: whether it was cancelled
/// and whether its time was over.
#[derive(Clone, Copy, Debug, PartialEq, Eq, Structural)]
pub struct CompletionVerificationControl {
    pub cancelled: bool,
    pub expired: bool,
}

/// The interruption that a reading calls for. Cancelling goes first.
pub open spec fn stop_of(c: CompletionVerificationControl) -> Option<
    PlanCompletionVerificationError,
> {
    if c.cancelled {
        Some(PlanCompletionVerificationError::Cancelled)
    } else if c.expired {
        Some(PlanCompletionVerificationError::TimedOut)
    } else {
        None
    }
}

/// The interruption that a reading calls for, as the error of a check.
pub open spec fn stopped(c: CompletionVerificationControl) -> Option<CheckErrorView> {
    match stop_of(c) {
        Some(e) => Some(CheckErrorView::Interrupted(e)),
        None => None,
    }
}

impl CompletionVerificationControl {
    /// Whether the verification may go on.
    pub fn checkpoint(&self) -> (r: Result<(), PlanCompletionVerificationError>)
        ensures
            match r {
                Ok(_) => stop_of(*self) is None,
                Err(e) => stop_of(*self) == Some(e),
            },
    {
        if self.cancelled {
            return Err(PlanCompletionVerificationError::Cancelled);
        }
        if self.expired {
            return Err(PlanCompletionVerificationError::TimedOut);
        }
        Ok(())
    }
}

fn go_on(c: CompletionVerificationControl) -> (r: Result<(), CompletionCheckError>)
    ensures
        check_error(r) == stopped(c),
{
    match c.checkpoint() {
        Ok(_) => Ok(()),
        Err(e) => Err(CompletionCheckError::Interrupted(e)),
    }
}

fn failed(reason: &str) -> (r: Result<(), CompletionCheckError>)
    ensures
        check_error(r) == Some(CheckErrorView::Failed(reason@)),
{
    Err(CompletionCheckError::Failed(owned(reason)))
}

fn passed_on(r: &Result<(), String>) -> (e: Result<(), CompletionCheckError>)
    ensures
        check_error(e) == fail_of(*r),
{
    match r {
        Ok(_) => Ok(()),
        Err(reason) => Err(CompletionCheckError::Failed(reason.clone())),
    }
}

// ---------------------------------------------------------------------------
// Files
// ---------------------------------------------------------------------------

/// What an open file or directory says of itself.
#[derive(Clone, Copy, Debug, PartialEq, Eq, Structural)]
pub struct OpenedFacts {
    pub len: u64,
    pub is_file: bool,
    pub is_dir: bool,
    pub modified: Option<u128>,
}

/// One attempt to read from an open file, with the readings around it. An
/// empty piece is the end of the file.
#[derive(Debug, PartialEq, Eq)]
pub struct ReadObservation {
    pub before: CompletionVerificationControl,
    pub bytes: Result<Vec<u8>, String>,
    pub after: CompletionVerificationControl,
}

/// What was observed of an open file: its facts, what was read of it up to its
/// end, its facts and its identity afterwards.
#[derive(Debug, PartialEq, Eq)]
pub struct FileObservation {
    pub facts: OpenedFacts,
    pub reads: Vec<ReadObservation>,
    pub before_recheck: CompletionVerificationControl,
    pub recheck: Result<OpenedFacts, String>,
    pub reverified: Result<(), String>,
    pub at_end: CompletionVerificationControl,
}

/// A reading of a file under way.
#[verifier::ext_equal]
pub struct ReadView {
    pub bytes: Seq<u8>,
    pub at_end: bool,
    pub error: Option<CheckErrorView>,
}

/// The reading after one more attempt.
pub open spec fn read_on(st: ReadView, r: ReadObservation, hard_limit: nat) -> ReadView {
    if st.at_end || st.error is Some {
        st
    } else if stopped(r.before) is Some {
        ReadView { error: stopped(r.before), ..st }
    } else {
        match r.bytes {
            Err(e) => ReadView {
                error: Some(
                    CheckErrorView::Failed("file content could not be read safely: "@ + e@),
                ),
                ..st
            },
            Ok(b) => if stopped(r.after) is Some {
                ReadView { error: stopped(r.after), ..st }
            } else if b@.len() == 0 {
                ReadView { at_end: true, ..st }
            } else if st.bytes.len() + b@.len() > hard_limit {
                ReadView {
                    error: Some(
                        CheckErrorView::Failed(
                            limit_text(
                                "file exceeded the "@,
                                hard_limit,
                                "-byte completion read limit while it was being read"@,
                            ),
                        ),
                    ),
                    ..st
                }
            } else {
                ReadView { bytes: st.bytes + b@, ..st }
            },
        }
    }
}

/// The reading after the first `n` attempts.
pub open spec fn read_all(reads: Seq<ReadObservation>, n: int, hard_limit: nat) -> ReadView
    decreases n,
{
    if n <= 0 {
        ReadView { bytes: Seq::empty(), at_end: false, error: None }
    } else {
        read_on(read_all(reads, n - 1, hard_limit), reads[n - 1], hard_limit)
    }
}

proof fn lemma_reading_ends(reads: Seq<ReadObservation>, n: int, m: int, hard_limit: nat)
    requires
        0 <= n <= m,
        read_all(reads, n, hard_limit).at_end || read_all(reads, n, hard_limit).error is Some,
    ensures
        read_all(reads, m, hard_limit) == read_all(reads, n, hard_limit),
    decreases m - n,
{
    if n < m {
        lemma_reading_ends(reads, n, m - 1, hard_limit);
    }
}

fn read_file(reads: &Vec<ReadObservation>, hard_limit: u64) -> (r: Result<
    Vec<u8>,
    CompletionCheckError,
>)
    ensures
        ({
            let end = read_all(reads@, reads@.len() as int, hard_limit as nat);
            match r {
                Ok(b) => end.error is None && b@ == end.bytes && b@.len() <= hard_limit,
                Err(e) => end.error == Some(e@),
            }
        }),
{
    let mut out: Vec<u8> = Vec::new();
    let count: usize = reads.len();
    let mut n: usize = 0;
    assert(out@ =~= read_all(reads@, 0, hard_limit as nat).bytes);
    while n < count
        invariant
            n <= count == reads@.len(),
            out@.len() <= hard_limit,
            read_all(reads@, n as int, hard_limit as nat) == (ReadView {
                bytes: out@,
                at_end: false,
                error: None,
            }),
        decreases count - n,
    {
        let ghost next = read_all(reads@, n + 1, hard_limit as nat);
        let piece = &reads[n];
        if let Err(e) = go_on(piece.before) {
            proof {
                lemma_reading_ends(reads@, n + 1, count as int, hard_limit as nat);
            }
            return Err(e);
        }
        match &piece.bytes {
            Err(reason) => {
                let mut m = owned("file content could not be read safely: ");
                m.append(reason.as_str());
                proof {
                    lemma_reading_ends(reads@, n + 1, count as int, hard_limit as nat);
                }
                return Err(CompletionCheckError::Failed(m));
            },
            Ok(b) => {
                if let Err(e) = go_on(piece.after) {
                    proof {
                        lemma_reading_ends(reads@, n + 1, count as int, hard_limit as nat);
                    }
                    return Err(e);
                }
                if b.len() == 0 {
                    proof {
                        lemma_reading_ends(reads@, n + 1, count as int, hard_limit as nat);
                    }
                    return Ok(out);
                }
                if b.len() as u64 > hard_limit - out.len() as u64 {
                    let m = concat3(
                        "file exceeded the ",
                        decimal(hard_limit).as_str(),
                        "-byte completion read limit while it was being read",
                    );
                    proof {
                        lemma_reading_ends(reads@, n + 1, count as int, hard_limit as nat);
                    }
                    return Err(CompletionCheckError::Failed(m));
                }
                push_bytes(&mut out, b.as_slice());
            },
        }
        n = n + 1;
    }
    Ok(out)
}

/// The length, the type or the time of change is another one than before.
pub open spec fn facts_changed(before: OpenedFacts, after: OpenedFacts) -> bool {
    before.len != after.len || before.is_file != after.is_file || before.is_dir != after.is_dir
        || before.modified != after.modified
}

/// The reason for refusing an object that changed under the verifier.
pub open spec fn unstable_reason() -> Seq<char> {
    "the checked object changed while completion evidence was being read"@
}

fn same_time(a: Option<u128>, b: Option<u128>) -> (r: bool)
    ensures
        r == (a == b),
{
    match (a, b) {
        (Some(x), Some(y)) => x == y,
        (None, None) => true,
        _ => false,
    }
}

/// Refuses an object that changed between two looks at it.
pub fn ensure_opened_metadata_stable(before: OpenedFacts, after: OpenedFacts) -> (r: Result<
    (),
    CompletionCheckError,
>)
    ensures
        check_error(r) == fail_if(facts_changed(before, after), unstable_reason()),
{
    if before.len != after.len || before.is_file != after.is_file || before.is_dir != after.is_dir
        || !same_time(before.modified, after.modified) {
        return failed("the checked object changed while completion evidence was being read");
    }
    Ok(())
}

/// The size of an opened file is not what the check demands.
pub open spec fn size_error(c: CheckView, len: u64) -> Option<CheckErrorView> {
    either(
        fail_if(
            c.size_bytes is Some && c.size_bytes->0 != len,
            "file size is "@ + decimal_spec(len as nat)
                + " bytes; the approved contract requires "@ + decimal_spec(
                c.size_bytes->0 as nat,
            ) + " bytes"@,
        ),
        either(
            fail_if(
                c.exact_content is Some && byte_len(c.exact_content->0) != len,
                "file size is "@ + decimal_spec(len as nat)
                    + " bytes; the approved exact content is "@ + decimal_spec(
                    byte_len(c.exact_content->0),
                ) + " bytes"@,
            ),
            fail_if(
                c.sha256 is Some && len > MAX_PLAN_COMPLETION_FILE_BYTES,
                limit_text(
                    "file exceeds the "@,
                    MAX_PLAN_COMPLETION_FILE_BYTES as nat,
                    "-byte completion-hash limit"@,
                ),
            ),
        ),
    )
}

fn check_size(check: &PlanCompletionCheck, len: u64) -> (r: Result<(), CompletionCheckError>)
    ensures
        check_error(r) == size_error(check@, len),
{
    if let Some(expected) = check.size_bytes {
        if len != expected {
            return failed(
                concat5(
                    "file size is ",
                    decimal(len).as_str(),
                    " bytes; the approved contract requires ",
                    decimal(expected).as_str(),
                    " bytes",
                ).as_str(),
            );
        }
    }
    if let Some(content) = &check.exact_content {
        let expected: u64 = byte_count(content.as_str()) as u64;
        if len != expected {
            return failed(
                concat5(
                    "file size is ",
                    decimal(len).as_str(),
                    " bytes; the approved exact content is ",
                    decimal(expected).as_str(),
                    " bytes",
                ).as_str(),
            );
        }
    }
    if check.sha256.is_some() && len > MAX_PLAN_COMPLETION_FILE_BYTES {
        return failed(
            concat3(
                "file exceeds the ",
                decimal(MAX_PLAN_COMPLETION_FILE_BYTES).as_str(),
                "-byte completion-hash limit",
            ).as_str(),
        );
    }
    Ok(())
}

/// The check looks at the content of the file.
pub open spec fn must_read(c: CheckView) -> bool {
    c.exact_content is Some || c.sha256 is Some
}

/// The most that is read of a file for a check.
pub open spec fn read_limit(c: CheckView) -> nat {
    match c.exact_content {
        Some(content) => byte_len(content),
        None => MAX_PLAN_COMPLETION_FILE_BYTES as nat,
    }
}

/// What was read, where the check looks at the content.
pub open spec fn file_reading(c: CheckView, o: FileObservation) -> ReadView {
    if must_read(c) {
        read_all(o.reads@, o.reads@.len() as int, read_limit(c))
    } else {
        ReadView { bytes: Seq::empty(), at_end: true, error: None }
    }
}

/// What the content that was read is held against.
pub open spec fn content_error(c: CheckView, bytes: Seq<u8>) -> Option<CheckErrorView> {
    either(
        fail_if(
            c.exact_content is Some && encode_utf8(c.exact_content->0) != bytes,
            "file bytes differ from the approved exact content"@,
        ),
        fail_if(
            c.sha256 is Some && ascii_lower(sha256_hex(bytes)) != ascii_lower(c.sha256->0),
            "file SHA-256 differs from the approved value"@,
        ),
    )
}

fn same_bytes(a: &[u8], b: &[u8]) -> (r: bool)
    ensures
        r == (a@ == b@),
{
    if a.len() != b.len() {
        return false;
    }
    let mut i: usize = 0;
    while i < a.len()
        invariant
            i <= a@.len() == b@.len(),
            forall|j: int| 0 <= j < i ==> a@[j] == b@[j],
        decreases a@.len() - i,
    {
        if a[i] != b[i] {
            return false;
        }
        i = i + 1;
    }
    assert(a@ =~= b@);
    true
}

fn check_content(check: &PlanCompletionCheck, bytes: &Vec<u8>) -> (r: Result<
    (),
    CompletionCheckError,
>)
    ensures
        check_error(r) == content_error(check@, bytes@),
{
    if let Some(content) = &check.exact_content {
        if !same_bytes(content.as_str().as_bytes(), bytes.as_slice()) {
            return failed("file bytes differ from the approved exact content");
        }
    }
    if let Some(expected) = &check.sha256 {
        let actual = to_ascii_lower(sha256(bytes.as_slice()).as_str());
        if !same(actual.as_str(), to_ascii_lower(expected.as_str()).as_str()) {
            return failed("file SHA-256 differs from the approved value");
        }
    }
    Ok(())
}

/// Why a file does not pass a check.
pub open spec fn file_error(c: CheckView, o: FileObservation) -> Option<CheckErrorView> {
    let reading = file_reading(c, o);
    either(
        size_error(c, o.facts.len),
        either(
            reading.error,
            either(
                stopped(o.before_recheck),
                match o.recheck {
                    Err(e) => Some(
                        CheckErrorView::Failed(
                            "file metadata could not be rechecked safely: "@ + e@,
                        ),
                    ),
                    Ok(after) => either(
                        fail_if(facts_changed(o.facts, after), unstable_reason()),
                        either(
                            fail_of(o.reverified),
                            either(
                                fail_if(
                                    must_read(c) && reading.bytes.len() != after.len,
                                    "file length changed or the checked handle ended before all bytes were read"@,
                                ),
                                either(
                                    if must_read(c) {
                                        content_error(c, reading.bytes)
                                    } else {
                                        None
                                    },
                                    stopped(o.at_end),
                                ),
                            ),
                        ),
                    ),
                },
            ),
        ),
    )
}

/// Holds an opened file against a check.
pub fn evaluate_checked_completion_file(check: &PlanCompletionCheck, o: &FileObservation) -> (r:
    Result<(), CompletionCheckError>)
    ensures
        check_error(r) == file_error(check@, *o),
{
    if let Err(e) = check_size(check, o.facts.len) {
        return Err(e);
    }
    let reads: bool = check.exact_content.is_some() || check.sha256.is_some();
    let mut bytes: Vec<u8> = Vec::new();
    if reads {
        let limit: u64 = match &check.exact_content {
            Some(content) => byte_count(content.as_str()) as u64,
            None => MAX_PLAN_COMPLETION_FILE_BYTES,
        };
        match read_file(&o.reads, limit) {
            Ok(b) => {
                bytes = b;
            },
            Err(e) => {
                return Err(e);
            },
        }
    }
    assert(bytes@ =~= file_reading(check@, *o).bytes);
    if let Err(e) = go_on(o.before_recheck) {
        return Err(e);
    }
    let after = match &o.recheck {
        Ok(f) => *f,
        Err(reason) => {
            let mut m = owned("file metadata could not be rechecked safely: ");
            m.append(reason.as_str());
            return Err(CompletionCheckError::Failed(m));
        },
    };
    if let Err(e) = ensure_opened_metadata_stable(o.facts, after) {
        return Err(e);
    }
    if let Err(e) = passed_on(&o.reverified) {
        return Err(e);
    }
    if reads && bytes.len() as u64 != after.len {
        return failed(
            "file length changed or the checked handle ended before all bytes were read",
        );
    }
    if reads {
        if let Err(e) = check_content(check, &bytes) {
            return Err(e);
        }
    }
    go_on(o.at_end)
}

// ---------------------------------------------------------------------------
// Paths
// ---------------------------------------------------------------------------

/// What was observed of a path of the workspace.
#[derive(Debug, PartialEq, Eq)]
pub struct PathObservation {
    pub start: CompletionVerificationControl,
    pub resolved: Result<(), String>,
    pub after_resolve: CompletionVerificationControl,
    /// The object at the path, none where there is nothing.
    pub opened: Result<Option<OpenedFacts>, String>,
    pub after_open: CompletionVerificationControl,
    /// For a path that must be absent: a second look.
    pub before_probe: CompletionVerificationControl,
    pub probe: Result<bool, String>,
    /// For a directory: its identity afterwards.
    pub reverified: Result<(), String>,
    pub at_end: CompletionVerificationControl,
    /// For a file: what was observed of it.
    pub file: FileObservation,
}

/// Why what was found at a path is not what a check expects there.
pub open spec fn found_error(
    c: CheckView,
    t: PlanExpectedPathType,
    entry: Option<OpenedFacts>,
    o: PathObservation,
) -> Option<CheckErrorView> {
    match t {
        PlanExpectedPathType::Absent => either(
            fail_if(
                entry is Some,
                "the path exists but the approved contract requires it to be absent"@,
            ),
            either(
                stopped(o.before_probe),
                match o.probe {
                    Err(e) => Some(CheckErrorView::Failed(e@)),
                    Ok(there) => fail_if(
                        there,
                        "the path appeared while its approved absence was being checked"@,
                    ),
                },
            ),
        ),
        PlanExpectedPathType::Directory => either(
            fail_if(
                !(entry is Some && entry->0.is_dir),
                "the path is missing or is not a checked directory"@,
            ),
            either(fail_of(o.reverified), stopped(o.at_end)),
        ),
        PlanExpectedPathType::File => either(
            fail_if(entry is None, "the path is missing or is not a checked regular file"@),
            file_error(c, o.file),
        ),
    }
}

/// Why a path does not pass a check.
pub open spec fn path_error(c: CheckView, o: PathObservation) -> Option<CheckErrorView> {
    either(
        stopped(o.start),
        either(
            fail_if(c.path is None, "missing path"@),
            either(
                fail_of(o.resolved),
                either(
                    stopped(o.after_resolve),
                    match c.expected_path_type {
                        None => Some(CheckErrorView::Failed("missing expected path type"@)),
                        Some(t) => match o.opened {
                            Err(e) => Some(CheckErrorView::Failed(e@)),
                            Ok(entry) => either(
                                stopped(o.after_open),
                                found_error(c, t, entry, o),
                            ),
                        },
                    },
                ),
            ),
        ),
    )
}

fn check_found(
    check: &PlanCompletionCheck,
    t: PlanExpectedPathType,
    entry: Option<OpenedFacts>,
    o: &PathObservation,
) -> (r: Result<(), CompletionCheckError>)
    ensures
        check_error(r) == found_error(check@, t, entry, *o),
{
    match t {
        PlanExpectedPathType::Absent => {
            if entry.is_some() {
                return failed("the path exists but the approved contract requires it to be absent");
            }
            if let Err(e) = go_on(o.before_probe) {
                return Err(e);
            }
            match &o.probe {
                Err(reason) => failed(reason.as_str()),
                Ok(there) => {
                    if *there {
                        return failed(
                            "the path appeared while its approved absence was being checked",
                        );
                    }
                    Ok(())
                },
            }
        },
        PlanExpectedPathType::Directory => {
            let is_dir = match entry {
                Some(f) => f.is_dir,
                None => false,
            };
            if !is_dir {
                return failed("the path is missing or is not a checked directory");
            }
            if let Err(e) = passed_on(&o.reverified) {
                return Err(e);
            }
            go_on(o.at_end)
        },
        PlanExpectedPathType::File => {
            if entry.is_none() {
                return failed("the path is missing or is not a checked regular file");
            }
            evaluate_checked_completion_file(check, &o.file)
        },
    }
}

/// Holds a path of the workspace against a check.
pub fn evaluate_workspace_path_check(check: &PlanCompletionCheck, o: &PathObservation) -> (r:
    Result<(), CompletionCheckError>)
    ensures
        check_error(r) == path_error(check@, *o),
{
    if let Err(e) = go_on(o.start) {
        return Err(e);
    }
    if check.path.is_none() {
        return failed("missing path");
    }
    if let Err(e) = passed_on(&o.resolved) {
        return Err(e);
    }
    if let Err(e) = go_on(o.after_resolve) {
        return Err(e);
    }
    let t = match check.expected_path_type {
        Some(t) => t,
        None => {
            return failed("missing expected path type");
        },
    };
    let entry = match &o.opened {
        Ok(e) => *e,
        Err(reason) => {
            return failed(reason.as_str());
        },
    };
    if let Err(e) = go_on(o.after_open) {
        return Err(e);
    }
    check_found(check, t, entry, o)
}

// ---------------------------------------------------------------------------
// Evidence
// ---------------------------------------------------------------------------

/// A reading of exactly so many bytes under way.
pub open spec fn exact_on(st: ReadView, r: ReadObservation, target: nat) -> ReadView {
    if st.bytes.len() >= target || st.error is Some {
        st
    } else if stopped(r.before) is Some {
        ReadView { error: stopped(r.before), ..st }
    } else {
        match r.bytes {
            Err(e) => ReadView {
                error: Some(CheckErrorView::Failed("evidence bytes could not be read: "@ + e@)),
                ..st
            },
            Ok(b) => if stopped(r.after) is Some {
                ReadView { error: stopped(r.after), ..st }
            } else if b@.len() == 0 {
                ReadView { error: Some(ended_early()), ..st }
            } else {
                ReadView { bytes: st.bytes + b@, ..st }
            },
        }
    }
}

/// The file ended before its length.
pub open spec fn ended_early() -> CheckErrorView {
    CheckErrorView::Failed("the checked file ended before its opened metadata length"@)
}

/// The reading of exactly `target` bytes after the first `n` attempts.
pub open spec fn exact_all(reads: Seq<ReadObservation>, n: int, target: nat) -> ReadView
    decreases n,
{
    if n <= 0 {
        ReadView { bytes: Seq::empty(), at_end: false, error: None }
    } else {
        exact_on(exact_all(reads, n - 1, target), reads[n - 1], target)
    }
}

/// Why `target` bytes could not be read: an interruption, a failed attempt, or
/// too few attempts, which is the end of the file.
pub open spec fn exact_error(reads: Seq<ReadObservation>, target: nat) -> Option<CheckErrorView> {
    let end = exact_all(reads, reads.len() as int, target);
    if end.error is None && end.bytes.len() < target {
        Some(ended_early())
    } else {
        end.error
    }
}

proof fn lemma_exact_ends(reads: Seq<ReadObservation>, n: int, m: int, target: nat)
    requires
        0 <= n <= m,
        exact_all(reads, n, target).bytes.len() >= target || exact_all(reads, n, target).error
            is Some,
    ensures
        exact_all(reads, m, target) == exact_all(reads, n, target),
    decreases m - n,
{
    if n < m {
        lemma_exact_ends(reads, n, m - 1, target);
    }
}

/// Reads exactly `target` bytes, or at least as many.
fn read_exactly(reads: &Vec<ReadObservation>, target: u64) -> (r: Result<
    Vec<u8>,
    CompletionCheckError,
>)
    ensures
        match r {
            Ok(b) => exact_error(reads@, target as nat) is None && b@ == exact_all(
                reads@,
                reads@.len() as int,
                target as nat,
            ).bytes,
            Err(e) => exact_error(reads@, target as nat) == Some(e@),
        },
{
    let mut out: Vec<u8> = Vec::new();
    let count: usize = reads.len();
    let mut n: usize = 0;
    assert(out@ =~= exact_all(reads@, 0, target as nat).bytes);
    while n < count
        invariant
            n <= count == reads@.len(),
            exact_all(reads@, n as int, target as nat) == (ReadView {
                bytes: out@,
                at_end: false,
                error: None,
            }),
        decreases count - n,
    {
        if out.len() as u64 >= target {
            proof {
                lemma_exact_ends(reads@, n as int, count as int, target as nat);
            }
            return Ok(out);
        }
        let ghost next = exact_all(reads@, n + 1, target as nat);
        let piece = &reads[n];
        if let Err(e) = go_on(piece.before) {
            proof {
                lemma_exact_ends(reads@, n + 1, count as int, target as nat);
            }
            return Err(e);
        }
        match &piece.bytes {
            Err(reason) => {
                let mut m = owned("evidence bytes could not be read: ");
                m.append(reason.as_str());
                proof {
                    lemma_exact_ends(reads@, n + 1, count as int, target as nat);
                }
                return Err(CompletionCheckError::Failed(m));
            },
            Ok(b) => {
                if let Err(e) = go_on(piece.after) {
                    proof {
                        lemma_exact_ends(reads@, n + 1, count as int, target as nat);
                    }
                    return Err(e);
                }
                if b.len() == 0 {
                    proof {
                        lemma_exact_ends(reads@, n + 1, count as int, target as nat);
                    }
                    return Err(
                        CompletionCheckError::Failed(
                            owned("the checked file ended before its opened metadata length"),
                        ),
                    );
                }
                push_bytes(&mut out, b.as_slice());
            },
        }
        n = n + 1;
    }
    if (out.len() as u64) < target {
        return Err(
            CompletionCheckError::Failed(
                owned("the checked file ended before its opened metadata length"),
            ),
        );
    }
    Ok(out)
}

/// What was observed of a file that is evidence: its facts, its beginning and,
/// where a sample was taken, its end, its facts and its identity afterwards.
#[derive(Debug, PartialEq, Eq)]
pub struct EvidenceFileObservation {
    pub facts: OpenedFacts,
    pub head: Vec<ReadObservation>,
    pub before_seek: CompletionVerificationControl,
    pub seek: Result<(), String>,
    pub tail: Vec<ReadObservation>,
    pub before_recheck: CompletionVerificationControl,
    pub recheck: Result<OpenedFacts, String>,
    pub reverified: Result<(), String>,
    pub at_end: CompletionVerificationControl,
}

/// How much of an evidence file is read.
pub open spec fn evidence_sample(len: u64) -> SamplePlan {
    sample_plan_of(len, MAX_EVIDENCE_HASH_FILE_BYTES, MAX_EVIDENCE_HASH_FILE_BYTES)
}

/// Why the sample of an evidence file could not be read.
pub open spec fn sample_error(o: EvidenceFileObservation) -> Option<CheckErrorView> {
    match evidence_sample(o.facts.len) {
        SamplePlan::Nothing => None,
        SamplePlan::Whole { bytes } => exact_error(o.head@, bytes as nat),
        SamplePlan::Sampled { prefix, suffix } => either(
            exact_error(o.head@, prefix as nat),
            if suffix > 0 {
                either(
                    stopped(o.before_seek),
                    either(fail_of(o.seek), exact_error(o.tail@, suffix as nat)),
                )
            } else {
                None
            },
        ),
    }
}

/// What was read of an evidence file: its beginning.
pub open spec fn sample_head(o: EvidenceFileObservation) -> Seq<u8> {
    let target = match evidence_sample(o.facts.len) {
        SamplePlan::Nothing => 0,
        SamplePlan::Whole { bytes } => bytes as nat,
        SamplePlan::Sampled { prefix, suffix } => prefix as nat,
    };
    exact_all(o.head@, o.head@.len() as int, target).bytes
}

/// What was read of an evidence file: its end.
pub open spec fn sample_tail(o: EvidenceFileObservation) -> Seq<u8> {
    let target = match evidence_sample(o.facts.len) {
        SamplePlan::Sampled { prefix, suffix } => suffix as nat,
        _ => 0,
    };
    exact_all(o.tail@, o.tail@.len() as int, target).bytes
}

/// Why the fingerprint of an evidence file could not be taken.
pub open spec fn evidence_file_error(o: EvidenceFileObservation) -> Option<CheckErrorView> {
    either(
        sample_error(o),
        either(
            stopped(o.before_recheck),
            match o.recheck {
                Err(e) => Some(
                    CheckErrorView::Failed("evidence metadata could not be rechecked: "@ + e@),
                ),
                Ok(after) => either(
                    fail_if(facts_changed(o.facts, after), unstable_reason()),
                    either(fail_of(o.reverified), stopped(o.at_end)),
                ),
            },
        ),
    )
}

/// The facts that go into the fingerprint of an open file.
pub open spec fn file_facts(f: OpenedFacts) -> FileFacts {
    FileFacts { len: f.len, modified: f.modified }
}

/// The fingerprint of an evidence file.
pub open spec fn evidence_file_digest(o: EvidenceFileObservation) -> Seq<char> {
    sha256_hex(
        facts_bytes(file_facts(o.facts)) + content_bytes(
            evidence_sample(o.facts.len),
            sample_head(o),
            sample_tail(o),
        ),
    )
}

fn read_sample(o: &EvidenceFileObservation) -> (r: Result<
    (Vec<u8>, Vec<u8>),
    CompletionCheckError,
>)
    ensures
        match r {
            Ok(p) => sample_error(*o) is None && (evidence_sample(o.facts.len) is Nothing || p.0@
                == sample_head(*o)) && (evidence_sample(o.facts.len) is Sampled
                && evidence_sample(o.facts.len)->suffix > 0 ==> p.1@ == sample_tail(*o)),
            Err(e) => sample_error(*o) == Some(e@),
        },
{
    let (plan, _, _) = plan_sample(
        o.facts.len,
        MAX_EVIDENCE_HASH_FILE_BYTES,
        MAX_EVIDENCE_HASH_FILE_BYTES,
    );
    match plan {
        SamplePlan::Nothing => Ok((Vec::new(), Vec::new())),
        SamplePlan::Whole { bytes } => match read_exactly(&o.head, bytes) {
            Ok(b) => Ok((b, Vec::new())),
            Err(e) => Err(e),
        },
        SamplePlan::Sampled { prefix, suffix } => {
            let head = match read_exactly(&o.head, prefix) {
                Ok(b) => b,
                Err(e) => {
                    return Err(e);
                },
            };
            if suffix == 0 {
                return Ok((head, Vec::new()));
            }
            if let Err(e) = go_on(o.before_seek) {
                return Err(e);
            }
            if let Err(e) = passed_on(&o.seek) {
                return Err(e);
            }
            match read_exactly(&o.tail, suffix) {
                Ok(b) => Ok((head, b)),
                Err(e) => Err(e),
            }
        },
    }
}

/// The fingerprint of an open file that is evidence.
pub fn hash_checked_evidence_file(o: &EvidenceFileObservation) -> (r: Result<
    String,
    CompletionCheckError,
>)
    ensures
        match r {
            Ok(s) => evidence_file_error(*o) is None && s@ == evidence_file_digest(*o),
            Err(e) => evidence_file_error(*o) == Some(e@),
        },
{
    let (head, tail) = match read_sample(o) {
        Ok(p) => p,
        Err(e) => {
            return Err(e);
        },
    };
    if let Err(e) = go_on(o.before_recheck) {
        return Err(e);
    }
    let after = match &o.recheck {
        Ok(f) => *f,
        Err(reason) => {
            let mut m = owned("evidence metadata could not be rechecked: ");
            m.append(reason.as_str());
            return Err(CompletionCheckError::Failed(m));
        },
    };
    if let Err(e) = ensure_opened_metadata_stable(o.facts, after) {
        return Err(e);
    }
    if let Err(e) = passed_on(&o.reverified) {
        return Err(e);
    }
    if let Err(e) = go_on(o.at_end) {
        return Err(e);
    }
    let facts = FileFacts { len: o.facts.len, modified: o.facts.modified };
    let (s, _) = file_fingerprint(facts, &head, &tail);
    Ok(s)
}

/// An entry of a directory that is evidence, with the reading before it was
/// taken.
#[derive(Debug, PartialEq, Eq)]
pub struct ListedEntry {
    pub before: CompletionVerificationControl,
    pub entry: DirectoryEntry,
}

/// What was observed of a directory that is evidence: its facts, its entries,
/// the readings while they were hashed, its identity and its facts afterwards.
#[derive(Debug, PartialEq, Eq)]
pub struct EvidenceDirectoryObservation {
    pub facts: OpenedFacts,
    pub start: CompletionVerificationControl,
    pub listing: Result<Vec<ListedEntry>, String>,
    pub after_listing: CompletionVerificationControl,
    pub after_taking: CompletionVerificationControl,
    pub hashing: Vec<CompletionVerificationControl>,
    pub reverified: Result<(), String>,
    pub recheck: Result<OpenedFacts, String>,
    pub at_end: CompletionVerificationControl,
}

/// The entries of a listing.
pub open spec fn listed(v: Seq<ListedEntry>) -> Seq<EntryView> {
    v.map_values(|e: ListedEntry| e.entry@)
}

/// Why the entries of a listing could not all be taken, from `i` on.
pub open spec fn taking_error(v: Seq<ListedEntry>, i: int) -> Option<CheckErrorView>
    decreases v.len() - i,
{
    if i < 0 || i >= v.len() {
        None
    } else {
        either(
            stopped(v[i].before),
            either(
                fail_if(
                    i >= MAX_PLAN_COMPLETION_DIRECTORY_ENTRIES,
                    limit_text(
                        "checked directory exceeds the "@,
                        MAX_PLAN_COMPLETION_DIRECTORY_ENTRIES as nat,
                        "-entry completion limit"@,
                    ),
                ),
                taking_error(v, i + 1),
            ),
        )
    }
}

/// The first interruption that the readings call for, from `i` on.
pub open spec fn readings_error(v: Seq<CompletionVerificationControl>, i: int) -> Option<
    CheckErrorView,
>
    decreases v.len() - i,
{
    if i < 0 || i >= v.len() {
        None
    } else {
        either(stopped(v[i]), readings_error(v, i + 1))
    }
}

/// Why the fingerprint of an evidence directory could not be taken.
pub open spec fn evidence_directory_error(o: EvidenceDirectoryObservation) -> Option<
    CheckErrorView,
> {
    either(
        stopped(o.start),
        match o.listing {
            Err(e) => Some(CheckErrorView::Failed(e@)),
            Ok(v) => either(
                stopped(o.after_listing),
                either(
                    taking_error(v@, 0),
                    either(
                        stopped(o.after_taking),
                        either(
                            readings_error(o.hashing@, 0),
                            either(
                                fail_of(o.reverified),
                                match o.recheck {
                                    Err(e) => Some(
                                        CheckErrorView::Failed(
                                            "directory metadata could not be rechecked: "@ + e@,
                                        ),
                                    ),
                                    Ok(after) => either(
                                        fail_if(facts_changed(o.facts, after), unstable_reason()),
                                        stopped(o.at_end),
                                    ),
                                },
                            ),
                        ),
                    ),
                ),
            ),
        },
    )
}

fn take_listing(v: &Vec<ListedEntry>) -> (r: Result<Vec<DirectoryEntry>, CompletionCheckError>)
    ensures
        match r {
            Ok(entries) => taking_error(v@, 0) is None && directory_view(entries@) == listed(v@),
            Err(e) => taking_error(v@, 0) == Some(e@),
        },
{
    let mut out: Vec<DirectoryEntry> = Vec::new();
    let mut i: usize = 0;
    assert(directory_view(out@) =~= listed(v@).take(0));
    while i < v.len()
        invariant
            i <= v@.len(),
            taking_error(v@, i as int) == taking_error(v@, 0),
            directory_view(out@) == listed(v@).take(i as int),
        decreases v@.len() - i,
    {
        if let Err(e) = go_on(v[i].before) {
            return Err(e);
        }
        if i >= MAX_PLAN_COMPLETION_DIRECTORY_ENTRIES {
            return Err(
                CompletionCheckError::Failed(
                    limit_message(
                        "checked directory exceeds the ",
                        MAX_PLAN_COMPLETION_DIRECTORY_ENTRIES,
                        "-entry completion limit",
                    ),
                ),
            );
        }
        let e = &v[i].entry;
        let copy = DirectoryEntry { name: e.name.clone(), kind: e.kind, facts: e.facts };
        assert(copy@ =~= listed(v@)[i as int]);
        let ghost before = out@;
        out.push(copy);
        assert(directory_view(out@) =~= directory_view(before).push(copy@));
        assert(listed(v@).take(i + 1) =~= listed(v@).take(i as int).push(listed(v@)[i as int]));
        i = i + 1;
    }
    assert(listed(v@).take(i as int) =~= listed(v@));
    Ok(out)
}

fn go_on_through(v: &Vec<CompletionVerificationControl>) -> (r: Result<(), CompletionCheckError>)
    ensures
        check_error(r) == readings_error(v@, 0),
{
    let mut i: usize = 0;
    while i < v.len()
        invariant
            i <= v@.len(),
            readings_error(v@, i as int) == readings_error(v@, 0),
        decreases v@.len() - i,
    {
        if let Err(e) = go_on(v[i]) {
            return Err(e);
        }
        i = i + 1;
    }
    Ok(())
}

/// The fingerprint of an open directory that is evidence.
pub fn hash_checked_evidence_directory(o: &EvidenceDirectoryObservation) -> (r: Result<
    String,
    CompletionCheckError,
>)
    ensures
        match r {
            Ok(s) => evidence_directory_error(*o) is None && o.listing is Ok && s@
                == sorted_listing_digest(listed(o.listing->Ok_0@)),
            Err(e) => evidence_directory_error(*o) == Some(e@),
        },
{
    if let Err(e) = go_on(o.start) {
        return Err(e);
    }
    let listing = match &o.listing {
        Ok(v) => v,
        Err(reason) => {
            return Err(CompletionCheckError::Failed(reason.clone()));
        },
    };
    if let Err(e) = go_on(o.after_listing) {
        return Err(e);
    }
    let entries = match take_listing(listing) {
        Ok(v) => v,
        Err(e) => {
            return Err(e);
        },
    };
    if let Err(e) = go_on(o.after_taking) {
        return Err(e);
    }
    if let Err(e) = go_on_through(&o.hashing) {
        return Err(e);
    }
    if let Err(e) = passed_on(&o.reverified) {
        return Err(e);
    }
    let after = match &o.recheck {
        Ok(f) => *f,
        Err(reason) => {
            let mut m = owned("directory metadata could not be rechecked: ");
            m.append(reason.as_str());
            return Err(CompletionCheckError::Failed(m));
        },
    };
    if let Err(e) = ensure_opened_metadata_stable(o.facts, after) {
        return Err(e);
    }
    if let Err(e) = go_on(o.at_end) {
        return Err(e);
    }
    Ok(sorted_directory_fingerprint(&entries))
}

/// The object of an approved piece of evidence.
#[derive(Debug, PartialEq, Eq)]
pub enum EvidenceObject {
    File(EvidenceFileObservation),
    Directory(EvidenceDirectoryObservation),
}

/// What was observed of an approved piece of evidence.
#[derive(Debug, PartialEq, Eq)]
pub struct EvidenceCheckObservation {
    pub start: CompletionVerificationControl,
    pub resolved: Result<(), String>,
    /// What was found at its path, none where there is nothing.
    pub opened: Result<Option<EvidenceObject>, String>,
}

/// Evidence that is a file was opened as one, or could not be opened.
pub open spec fn opened_as_file(kind: Option<PlanEvidenceKind>, o: EvidenceCheckObservation) -> bool {
    kind == Some(PlanEvidenceKind::File) && o.opened is Ok ==> o.opened->Ok_0 is Some
        && o.opened->Ok_0->0 is File
}

/// The object is a directory.
pub open spec fn is_directory(o: Option<EvidenceObject>) -> bool {
    match o {
        Some(EvidenceObject::Directory(d)) => d.facts.is_dir,
        _ => false,
    }
}

/// Why the fingerprint of an object could not be taken.
pub open spec fn object_error(o: EvidenceObject) -> Option<CheckErrorView> {
    match o {
        EvidenceObject::File(f) => evidence_file_error(f),
        EvidenceObject::Directory(d) => evidence_directory_error(d),
    }
}

/// The fingerprint of an object.
pub open spec fn object_digest(o: EvidenceObject) -> Seq<char> {
    match o {
        EvidenceObject::File(f) => evidence_file_digest(f),
        EvidenceObject::Directory(d) => sorted_listing_digest(listed(d.listing->Ok_0@)),
    }
}

fn hash_object(o: &EvidenceObject) -> (r: Result<String, CompletionCheckError>)
    ensures
        match r {
            Ok(s) => object_error(*o) is None && s@ == object_digest(*o),
            Err(e) => object_error(*o) == Some(e@),
        },
{
    match o {
        EvidenceObject::File(f) => hash_checked_evidence_file(f),
        EvidenceObject::Directory(d) => hash_checked_evidence_directory(d),
    }
}

/// The first approved piece of evidence on a path and of a kind, from `i` on.
pub open spec fn approved_evidence(
    v: Seq<EvidenceView>,
    path: Seq<char>,
    kind: PlanEvidenceKind,
    i: int,
    fold_case: bool,
) -> Option<EvidenceView>
    decreases v.len() - i,
{
    if i < 0 || i >= v.len() {
        None
    } else if contract_path(v[i].path, fold_case) == contract_path(
        path,
        fold_case,
    ) && v[i].kind == kind {
        Some(v[i])
    } else {
        approved_evidence(v, path, kind, i + 1, fold_case)
    }
}

/// Why the object of an approved piece of evidence is not what it was.
pub open spec fn evidence_now_error(
    kind: PlanEvidenceKind,
    expected: Seq<char>,
    opened: Result<Option<EvidenceObject>, String>,
) -> Option<CheckErrorView> {
    if !(kind is File || kind is Directory) {
        Some(
            CheckErrorView::Failed(
                "this evidence kind is not supported by completion verification"@,
            ),
        )
    } else {
        match opened {
            Err(e) => Some(CheckErrorView::Failed(e@)),
            Ok(object) => either(
                fail_if(
                    kind is Directory && !is_directory(object),
                    "approved directory evidence is no longer a checked directory"@,
                ),
                either(
                    object_error(object->0),
                    fail_if(
                        object_digest(object->0) != expected,
                        "workspace evidence changed after the approved revision was captured"@,
                    ),
                ),
            ),
        }
    }
}

/// Why approved evidence does not pass a check.
pub open spec fn evidence_error(
    p: PlanView,
    c: CheckView,
    o: EvidenceCheckObservation,
    fold_case: bool,
) -> Option<CheckErrorView> {
    either(
        stopped(o.start),
        match (c.path, c.evidence_kind) {
            (None, _) => Some(CheckErrorView::Failed("missing evidence path"@)),
            (Some(_), None) => Some(CheckErrorView::Failed("missing evidence kind"@)),
            (Some(path), Some(kind)) => match approved_evidence(
                p.evidence,
                path,
                kind,
                0,
                fold_case,
            ) {
                None => Some(
                    CheckErrorView::Failed(
                        "the approved revision did not capture the required evidence"@,
                    ),
                ),
                Some(e) => either(
                    fail_of(o.resolved),
                    evidence_now_error(kind, e.fingerprint, o.opened),
                ),
            },
        },
    )
}

fn find_approved_evidence(
    v: &Vec<PlanEvidence>,
    path: &str,
    kind: PlanEvidenceKind,
    fold_case: bool,
) -> (r: Option<String>)
    ensures
        match r {
            Some(s) => approved_evidence(evidence_view(v@), path@, kind, 0, fold_case) is Some
                && approved_evidence(
                    evidence_view(v@),
                    path@,
                    kind,
                    0,
                    fold_case,
                )->0.fingerprint == s@,
            None => approved_evidence(evidence_view(v@), path@, kind, 0, fold_case) is None,
        },
{
    let key = normalize_contract_path(path, fold_case);
    let mut i: usize = 0;
    while i < v.len()
        invariant
            i <= v@.len(),
            key@ == contract_path(path@, fold_case),
            approved_evidence(
                evidence_view(v@),
                path@,
                kind,
                i as int,
                fold_case,
            ) == approved_evidence(
                evidence_view(v@),
                path@,
                kind,
                0,
                fold_case,
            ),
        decreases v@.len() - i,
    {
        assert(evidence_view(v@)[i as int] == v@[i as int]@);
        if same(normalize_contract_path(
            v[i].path.as_str(),
            fold_case,
        ).as_str(), key.as_str()) && v[i].kind
            == kind {
            return Some(v[i].fingerprint.clone());
        }
        i = i + 1;
    }
    None
}

/// Holds approved evidence against what its object is now.
pub fn evaluate_approved_evidence_check(
    plan: &PendingPlan,
    check: &PlanCompletionCheck,
    o: &EvidenceCheckObservation,
    fold_case: bool,
) -> (r: Result<(), CompletionCheckError>)
    requires
        opened_as_file(check.evidence_kind, *o),
    ensures
        check_error(r) == evidence_error(plan@, check@, *o, fold_case),
{
    if let Err(e) = go_on(o.start) {
        return Err(e);
    }
    let path = match &check.path {
        Some(p) => p,
        None => {
            return failed("missing evidence path");
        },
    };
    let kind = match check.evidence_kind {
        Some(k) => k,
        None => {
            return failed("missing evidence kind");
        },
    };
    let expected = match find_approved_evidence(&plan.evidence, path.as_str(), kind, fold_case) {
        Some(s) => s,
        None => {
            return failed("the approved revision did not capture the required evidence");
        },
    };
    if let Err(e) = passed_on(&o.resolved) {
        return Err(e);
    }
    match kind {
        PlanEvidenceKind::File | PlanEvidenceKind::Directory => {},
        _ => {
            return failed("this evidence kind is not supported by completion verification");
        },
    }
    let found = match &o.opened {
        Ok(x) => x,
        Err(reason) => {
            return failed(reason.as_str());
        },
    };
    if kind == PlanEvidenceKind::Directory {
        let still = match found {
            Some(EvidenceObject::Directory(d)) => d.facts.is_dir,
            _ => false,
        };
        if !still {
            return failed("approved directory evidence is no longer a checked directory");
        }
    }
    let object = match found {
        Some(x) => x,
        None => {
            return Ok(());
        },
    };
    match hash_object(object) {
        Err(e) => Err(e),
        Ok(actual) => {
            if !same(actual.as_str(), expected.as_str()) {
                return failed(
                    "workspace evidence changed after the approved revision was captured",
                );
            }
            Ok(())
        },
    }
}

// ---------------------------------------------------------------------------
// Progress and tool calls
// ---------------------------------------------------------------------------

/// Why a required step does not count as done.
pub open spec fn required_step_error(p: PlanView, id: Seq<char>) -> Option<CheckErrorView> {
    match position_from(p.progress, id, 0) {
        None => Some(
            CheckErrorView::Failed("approved step '"@ + id + "' has no progress record"@),
        ),
        Some(i) => fail_if(
            !is_finished(p.progress[i].status),
            "approved step '"@ + id + "' is "@ + step_status_label(p.progress[i].status),
        ),
    }
}

/// The first error among the required steps from `i` on.
pub open spec fn progress_error(p: PlanView, ids: Seq<Seq<char>>, i: int) -> Option<CheckErrorView>
    decreases ids.len() - i,
{
    if i < 0 || i >= ids.len() {
        None
    } else {
        either(required_step_error(p, ids[i]), progress_error(p, ids, i + 1))
    }
}

/// Holds the reported progress against a check.
pub fn evaluate_progress_check(plan: &PendingPlan, check: &PlanCompletionCheck) -> (r: Result<
    (),
    CompletionCheckError,
>)
    ensures
        check_error(r) == progress_error(plan@, check@.required_step_ids, 0),
{
    let mut i: usize = 0;
    while i < check.required_step_ids.len()
        invariant
            i <= check.required_step_ids@.len(),
            progress_error(plan@, check@.required_step_ids, i as int) == progress_error(
                plan@,
                check@.required_step_ids,
                0,
            ),
        decreases check.required_step_ids@.len() - i,
    {
        let id = &check.required_step_ids[i];
        assert(check@.required_step_ids[i as int] == id@);
        match find_step(&plan.progress, id.as_str()) {
            None => {
                return failed(
                    concat3("approved step '", id.as_str(), "' has no progress record").as_str(),
                );
            },
            Some(k) => {
                let status = plan.progress[k].status;
                assert(plan@.progress[k as int] == plan.progress@[k as int]@);
                if !finished(status) {
                    let mut m = concat3("approved step '", id.as_str(), "' is ");
                    m.append(status.label());
                    return failed(m.as_str());
                }
            },
        }
        i = i + 1;
    }
    Ok(())
}

/// The calls of a tool that a check asks for.
pub open spec fn asks_for_call(c: CheckView, tool_name: Seq<char>, arguments: JsonView) -> bool {
    c.kind is ToolCallSuccess && c.tool_name == Some(tool_name) && c.arguments is Some
        && json_equal(c.arguments->0, arguments)
}

/// The ids of those of the first `n` checks that ask for a call.
pub open spec fn asking_ids(
    checks: Seq<CheckView>,
    tool_name: Seq<char>,
    arguments: JsonView,
    n: int,
) -> Seq<Seq<char>>
    decreases n,
{
    if n <= 0 {
        Seq::empty()
    } else if asks_for_call(checks[n - 1], tool_name, arguments) {
        asking_ids(checks, tool_name, arguments, n - 1).push(checks[n - 1].id)
    } else {
        asking_ids(checks, tool_name, arguments, n - 1)
    }
}

/// The ids of the checks that a tool call with these arguments satisfies.
pub fn matching_tool_completion_check_ids(
    plan: &PendingPlan,
    tool_name: &str,
    arguments: &Json,
) -> (r: Vec<String>)
    ensures
        texts(r@) == asking_ids(
            plan@.artifact.completion_checks,
            tool_name@,
            arguments@,
            plan@.artifact.completion_checks.len() as int,
        ),
{
    let checks = &plan.artifact.completion_checks;
    let ghost views = plan@.artifact.completion_checks;
    let mut out: Vec<String> = Vec::new();
    let mut n: usize = 0;
    assert(texts(out@) =~= asking_ids(views, tool_name@, arguments@, 0));
    while n < checks.len()
        invariant
            n <= checks@.len(),
            views == checks_view(checks@),
            texts(out@) == asking_ids(views, tool_name@, arguments@, n as int),
        decreases checks@.len() - n,
    {
        let c = &checks[n];
        assert(views[n as int] == c@);
        let mut asks: bool = false;
        if let PlanCompletionCheckKind::ToolCallSuccess = c.kind {
            if let (Some(t), Some(a)) = (&c.tool_name, &c.arguments) {
                asks = same(t.as_str(), tool_name) && a.says_same(arguments);
            }
        }
        if asks {
            let ghost before = texts(out@);
            out.push(c.id.clone());
            assert(texts(out@) =~= before.push(c@.id));
        }
        n = n + 1;
    }
    out
}

/// The epoch in which the tool call of a check last succeeded.
pub open spec fn epoch_of(epochs: Seq<(String, u64)>, id: Seq<char>, i: int) -> Option<u64>
    decreases epochs.len() - i,
{
    if i < 0 || i >= epochs.len() {
        None
    } else if epochs[i].0@ == id {
        Some(epochs[i].1)
    } else {
        epoch_of(epochs, id, i + 1)
    }
}

fn find_epoch(epochs: &Vec<(String, u64)>, id: &str) -> (r: Option<u64>)
    ensures
        r == epoch_of(epochs@, id@, 0),
{
    let mut i: usize = 0;
    while i < epochs.len()
        invariant
            i <= epochs@.len(),
            epoch_of(epochs@, id@, i as int) == epoch_of(epochs@, id@, 0),
        decreases epochs@.len() - i,
    {
        if same(epochs[i].0.as_str(), id) {
            return Some(epochs[i].1);
        }
        i = i + 1;
    }
    None
}

// ---------------------------------------------------------------------------
// The whole contract
// ---------------------------------------------------------------------------

/// A check that did not pass.
#[derive(Debug, PartialEq, Eq)]
pub struct PlanCompletionFailure {
    pub check_id: String,
    pub step_id: String,
    pub reason: String,
}

#[verifier::ext_equal]
pub struct FailureView {
    pub check_id: Seq<char>,
    pub step_id: Seq<char>,
    pub reason: Seq<char>,
}

impl PlanCompletionFailure {
    pub open spec fn view(self) -> FailureView {
        FailureView { check_id: self.check_id@, step_id: self.step_id@, reason: self.reason@ }
    }
}

pub open spec fn failures_view(v: Seq<PlanCompletionFailure>) -> Seq<FailureView> {
    v.map_values(|f: PlanCompletionFailure| f@)
}

/// What came of holding a plan against its contract.
#[derive(Debug, PartialEq, Eq)]
pub struct PlanCompletionReport {
    pub plan_id: String,
    pub revision: u32,
    pub failures: Vec<PlanCompletionFailure>,
}

impl PlanCompletionReport {
    /// Whether every check passed.
    pub fn passed(&self) -> (r: bool)
        ensures
            r == (self.failures@.len() == 0),
    {
        self.failures.len() == 0
    }
}

/// What was observed for one check.
#[derive(Debug, PartialEq, Eq)]
pub enum CheckObservation {
    Path(PathObservation),
    Evidence(EvidenceCheckObservation),
    /// Nothing outside the plan is looked at.
    Nothing,
}

/// The observation is of what the check looks at.
pub open spec fn fits(c: PlanCompletionCheck, o: CheckObservation) -> bool {
    match c.kind {
        PlanCompletionCheckKind::WorkspacePath => o is Path,
        PlanCompletionCheckKind::ApprovedEvidenceUnchanged => o is Evidence && opened_as_file(
            c.evidence_kind,
            o->Evidence_0,
        ),
        _ => true,
    }
}

/// Whether the observation is of what the check looks at.
pub fn observation_fits(c: &PlanCompletionCheck, o: &CheckObservation) -> (r: bool)
    ensures
        r == fits(*c, *o),
{
    match (c.kind, o) {
        (PlanCompletionCheckKind::WorkspacePath, CheckObservation::Path(_)) => true,
        (PlanCompletionCheckKind::WorkspacePath, _) => false,
        (PlanCompletionCheckKind::ApprovedEvidenceUnchanged, CheckObservation::Evidence(e)) => {
            match (c.evidence_kind, &e.opened) {
                (Some(PlanEvidenceKind::File), Ok(Some(EvidenceObject::File(_)))) => true,
                (Some(PlanEvidenceKind::File), Ok(_)) => false,
                _ => true,
            }
        },
        (PlanCompletionCheckKind::ApprovedEvidenceUnchanged, _) => false,
        _ => true,
    }
}

/// Why one check did not pass.
pub open spec fn one_check_error(
    p: PlanView,
    c: CheckView,
    o: CheckObservation,
    epochs: Seq<(String, u64)>,
    epoch: u64,
    fold_case: bool,
) -> Option<CheckErrorView> {
    match c.kind {
        PlanCompletionCheckKind::WorkspacePath => path_error(c, o->Path_0),
        PlanCompletionCheckKind::ApprovedEvidenceUnchanged => evidence_error(
            p,
            c,
            o->Evidence_0,
            fold_case,
        ),
        PlanCompletionCheckKind::PlanProgress => progress_error(p, c.required_step_ids, 0),
        PlanCompletionCheckKind::ToolCallSuccess => fail_if(
            epoch_of(epochs, c.id, 0) != Some(epoch),
            "the approved exact tool call did not succeed after the final unverified mutation"@,
        ),
    }
}

fn evaluate_check(
    plan: &PendingPlan,
    check: &PlanCompletionCheck,
    o: &CheckObservation,
    epochs: &Vec<(String, u64)>,
    epoch: u64,
    fold_case: bool,
) -> (r: Result<(), CompletionCheckError>)
    requires
        fits(*check, *o),
    ensures
        check_error(r) == one_check_error(plan@, check@, *o, epochs@, epoch, fold_case),
{
    match check.kind {
        PlanCompletionCheckKind::WorkspacePath => match o {
            CheckObservation::Path(p) => evaluate_workspace_path_check(check, p),
            _ => Ok(()),
        },
        PlanCompletionCheckKind::ApprovedEvidenceUnchanged => match o {
            CheckObservation::Evidence(e) => evaluate_approved_evidence_check(
                plan,
                check,
                e,
                fold_case,
            ),
            _ => Ok(()),
        },
        PlanCompletionCheckKind::PlanProgress => evaluate_progress_check(plan, check),
        PlanCompletionCheckKind::ToolCallSuccess => {
            let current = match find_epoch(epochs, check.id.as_str()) {
                Some(e) => e == epoch,
                None => false,
            };
            if current {
                return Ok(());
            }
            failed(
                "the approved exact tool call did not succeed after the final unverified mutation",
            )
        },
    }
}

/// What the first `n` checks come to: the failures so far, or an interruption.
pub open spec fn checks_outcome(
    p: PlanView,
    seen: Seq<(CompletionVerificationControl, CheckObservation)>,
    epochs: Seq<(String, u64)>,
    epoch: u64,
    n: int,
    fold_case: bool,
) -> Result<Seq<FailureView>, PlanCompletionVerificationError>
    decreases n,
{
    if n <= 0 {
        Ok(Seq::empty())
    } else {
        match checks_outcome(p, seen, epochs, epoch, n - 1, fold_case) {
            Err(e) => Err(e),
            Ok(failures) => {
                let c = p.artifact.completion_checks[n - 1];
                match stop_of(seen[n - 1].0) {
                    Some(e) => Err(e),
                    None => match one_check_error(p, c, seen[n - 1].1, epochs, epoch, fold_case) {
                        None => Ok(failures),
                        Some(CheckErrorView::Interrupted(e)) => Err(e),
                        Some(CheckErrorView::Failed(reason)) => Ok(
                            failures.push(
                                FailureView { check_id: c.id, step_id: c.step_id, reason },
                            ),
                        ),
                    },
                }
            },
        }
    }
}

/// The step that a failure of the contract itself is charged to.
pub open spec fn first_step_id(p: PlanView) -> Seq<char> {
    if p.artifact.steps.len() > 0 {
        p.artifact.steps[0].id
    } else {
        "approved-plan"@
    }
}

/// What holding a plan against its contract comes to.
pub open spec fn contract_outcome(
    p: PlanView,
    start: CompletionVerificationControl,
    seen: Seq<(CompletionVerificationControl, CheckObservation)>,
    at_end: CompletionVerificationControl,
    epochs: Seq<(String, u64)>,
    epoch: u64,
    fold_case: bool,
) -> Result<Seq<FailureView>, PlanCompletionVerificationError> {
    let a = p.artifact;
    if stop_of(start) is Some {
        Err(stop_of(start)->0)
    } else if a.completion_checks.len() == 0 {
        if a.verification.len() > 0 || a.acceptance_criteria.len() > 0 {
            Ok(
                seq![
                    FailureView {
                        check_id: "completion-contract-missing"@,
                        step_id: first_step_id(p),
                        reason:
                            "the approved revision has verification or acceptance criteria but no server-verifiable completion checks"@,
                    },
                ],
            )
        } else {
            Ok(Seq::empty())
        }
    } else if completion_checks_problem(a, true, fold_case) is Some {
        Ok(
            seq![
                FailureView {
                    check_id: "completion-contract-invalid"@,
                    step_id: first_step_id(p),
                    reason: completion_checks_problem(a, true, fold_case)->0,
                },
            ],
        )
    } else {
        match checks_outcome(p, seen, epochs, epoch, a.completion_checks.len() as int, fold_case) {
            Err(e) => Err(e),
            Ok(failures) => if stop_of(at_end) is Some {
                Err(stop_of(at_end)->0)
            } else {
                Ok(failures)
            },
        }
    }
}

fn contract_failure(plan: &PendingPlan, check_id: &str, reason: String) -> (r: PlanCompletionFailure)
    ensures
        r@ == (FailureView { check_id: check_id@, step_id: first_step_id(plan@), reason: reason@ }),
{
    let step_id = if plan.artifact.steps.len() > 0 {
        assert(plan@.artifact.steps[0] == plan.artifact.steps@[0]@);
        plan.artifact.steps[0].id.clone()
    } else {
        owned("approved-plan")
    };
    PlanCompletionFailure { check_id: owned(check_id), step_id, reason }
}

proof fn lemma_outcome_error_stays(
    p: PlanView,
    seen: Seq<(CompletionVerificationControl, CheckObservation)>,
    epochs: Seq<(String, u64)>,
    epoch: u64,
    n: int,
    m: int,
    fold_case: bool,
)
    requires
        0 <= n <= m,
        checks_outcome(p, seen, epochs, epoch, n, fold_case) is Err,
    ensures
        checks_outcome(p, seen, epochs, epoch, m, fold_case) == checks_outcome(
            p,
            seen,
            epochs,
            epoch,
            n,
            fold_case,
        ),
    decreases m - n,
{
    if n < m {
        lemma_outcome_error_stays(p, seen, epochs, epoch, n, m - 1, fold_case);
    }
}

fn evaluate_checks(
    plan: &PendingPlan,
    seen: &Vec<(CompletionVerificationControl, CheckObservation)>,
    epochs: &Vec<(String, u64)>,
    epoch: u64,
    fold_case: bool,
) -> (r: Result<Vec<PlanCompletionFailure>, PlanCompletionVerificationError>)
    requires
        seen@.len() == plan.artifact.completion_checks@.len(),
        forall|i: int|
            0 <= i < seen@.len() ==> fits(
                plan.artifact.completion_checks@[i],
                (#[trigger] seen@[i]).1,
            ),
    ensures
        ({
            let out = checks_outcome(
                plan@,
                seen@,
                epochs@,
                epoch,
                plan@.artifact.completion_checks.len() as int,
                fold_case,
            );
            match r {
                Ok(v) => out == Ok::<Seq<FailureView>, PlanCompletionVerificationError>(
                    failures_view(v@),
                ),
                Err(e) => out == Err::<Seq<FailureView>, PlanCompletionVerificationError>(e),
            }
        }),
{
    let count: usize = plan.artifact.completion_checks.len();
    let mut failures: Vec<PlanCompletionFailure> = Vec::new();
    let mut n: usize = 0;
    assert(failures_view(failures@) =~= Seq::<FailureView>::empty());
    while n < count
        invariant
            n <= count == plan.artifact.completion_checks@.len() == seen@.len(),
            forall|i: int|
                0 <= i < seen@.len() ==> fits(
                    plan.artifact.completion_checks@[i],
                    (#[trigger] seen@[i]).1,
                ),
            checks_outcome(plan@, seen@, epochs@, epoch, n as int, fold_case) == Ok::<
                Seq<FailureView>,
                PlanCompletionVerificationError,
            >(failures_view(failures@)),
        decreases count - n,
    {
        let check = &plan.artifact.completion_checks[n];
        let ghost next = checks_outcome(plan@, seen@, epochs@, epoch, n + 1, fold_case);
        assert(plan@.artifact.completion_checks[n as int] == check@);
        if let Err(e) = seen[n].0.checkpoint() {
            proof {
                lemma_outcome_error_stays(
                    plan@,
                    seen@,
                    epochs@,
                    epoch,
                    n + 1,
                    count as int,
                    fold_case,
                );
            }
            return Err(e);
        }
        match evaluate_check(plan, check, &seen[n].1, epochs, epoch, fold_case) {
            Ok(_) => {},
            Err(CompletionCheckError::Interrupted(e)) => {
                proof {
                    lemma_outcome_error_stays(
                        plan@,
                        seen@,
                        epochs@,
                        epoch,
                        n + 1,
                        count as int,
                        fold_case,
                    );
                }
                return Err(e);
            },
            Err(CompletionCheckError::Failed(reason)) => {
                let ghost before = failures_view(failures@);
                let f = PlanCompletionFailure {
                    check_id: check.id.clone(),
                    step_id: check.step_id.clone(),
                    reason,
                };
                let ghost view = f@;
                failures.push(f);
                assert(failures_view(failures@) =~= before.push(view));
            },
        }
        n = n + 1;
    }
    Ok(failures)
}

/// Holds a plan against its contract. `start` and `at_end` are readings of the
/// means to stop before and after the checks, and `seen` holds, for each check
/// in order, a reading and what was observed.
pub fn evaluate_completion_contract_until(
    plan: &PendingPlan,
    start: CompletionVerificationControl,
    seen: &Vec<(CompletionVerificationControl, CheckObservation)>,
    at_end: CompletionVerificationControl,
    tool_evidence_epochs: &Vec<(String, u64)>,
    current_mutation_epoch: u64,
    fold_case: bool,
) -> (r: Result<PlanCompletionReport, PlanCompletionVerificationError>)
    requires
        seen@.len() == plan.artifact.completion_checks@.len(),
        forall|i: int|
            0 <= i < seen@.len() ==> fits(
                plan.artifact.completion_checks@[i],
                (#[trigger] seen@[i]).1,
            ),
    ensures
        ({
            let out = contract_outcome(
                plan@,
                start,
                seen@,
                at_end,
                tool_evidence_epochs@,
                current_mutation_epoch,
                fold_case,
            );
            match r {
                Ok(report) => report.plan_id@ == plan@.id && report.revision == plan@.revision
                    && out == Ok::<Seq<FailureView>, PlanCompletionVerificationError>(
                    failures_view(report.failures@),
                ),
                Err(e) => out == Err::<Seq<FailureView>, PlanCompletionVerificationError>(e),
            }
        }),
{
    if let Err(e) = start.checkpoint() {
        return Err(e);
    }
    let mut failures: Vec<PlanCompletionFailure> = Vec::new();
    if plan.artifact.completion_checks.len() == 0 {
        if plan.artifact.verification.len() > 0 || plan.artifact.acceptance_criteria.len() > 0 {
            let f = contract_failure(
                plan,
                "completion-contract-missing",
                owned(
                    "the approved revision has verification or acceptance criteria but no server-verifiable completion checks",
                ),
            );
            let ghost view = f@;
            failures.push(f);
            assert(failures_view(failures@) =~= seq![view]);
        } else {
            assert(failures_view(failures@) =~= Seq::<FailureView>::empty());
        }
        return Ok(
            PlanCompletionReport { plan_id: plan.id.clone(), revision: plan.revision, failures },
        );
    }
    if let Err(error) = validate_completion_checks(&plan.artifact, true, fold_case) {
        let f = contract_failure(plan, "completion-contract-invalid", error);
        let ghost view = f@;
        failures.push(f);
        assert(failures_view(failures@) =~= seq![view]);
        return Ok(
            PlanCompletionReport { plan_id: plan.id.clone(), revision: plan.revision, failures },
        );
    }
    match evaluate_checks(plan, seen, tool_evidence_epochs, current_mutation_epoch, fold_case) {
        Err(e) => Err(e),
        Ok(found) => {
            if let Err(e) = at_end.checkpoint() {
                return Err(e);
            }
            Ok(
                PlanCompletionReport {
                    plan_id: plan.id.clone(),
                    revision: plan.revision,
                    failures: found,
                },
            )
        },
    }
}

// ---------------------------------------------------------------------------
// Charging failures to steps
// ---------------------------------------------------------------------------

/// The note that the server leaves on a step.
pub open spec fn server_note(f: FailureView, revision: u32) -> Seq<char> {
    "Server completion check '"@ + f.check_id + "' failed for revision "@ + decimal_spec(
        revision as nat,
    ) + ": "@ + f.reason
}

/// The note of a step after a failure, within the limit on notes.
pub open spec fn noted(note: Seq<char>, added: Seq<char>) -> Seq<char> {
    take_at_most(
        if note.len() == 0 {
            added
        } else if holds_text(note, added) {
            note
        } else {
            note + " | "@ + added
        },
        2000,
    )
}

/// The records after the first `n` failures, and the failure that no record
/// could be charged with.
pub open spec fn charged(progress: Seq<ProgressView>, failures: Seq<FailureView>, revision: u32, n: int) -> (
    Seq<ProgressView>,
    Option<Seq<char>>,
)
    decreases n,
{
    if n <= 0 {
        (progress, None)
    } else {
        let (p, error) = charged(progress, failures, revision, n - 1);
        let f = failures[n - 1];
        if error is Some {
            (p, error)
        } else {
            match position_from(p, f.step_id, 0) {
                None => (
                    p,
                    Some(
                        about(
                            "completion failure '"@,
                            f.check_id,
                            "' is not bound to an active approved step"@,
                        ),
                    ),
                ),
                Some(i) => (
                    p.update(
                        i,
                        ProgressView {
                            status: PlanStepStatus::Blocked,
                            note: noted(p[i].note, server_note(f, revision)),
                            ..p[i]
                        },
                    ),
                    None,
                ),
            }
        }
    }
}

proof fn lemma_charge_error_stays(
    progress: Seq<ProgressView>,
    failures: Seq<FailureView>,
    revision: u32,
    n: int,
    m: int,
)
    requires
        0 <= n <= m,
        charged(progress, failures, revision, n).1 is Some,
    ensures
        charged(progress, failures, revision, m) == charged(progress, failures, revision, n),
    decreases m - n,
{
    if n < m {
        lemma_charge_error_stays(progress, failures, revision, n, m - 1);
    }
}

fn server_note_text(f: &PlanCompletionFailure, revision: u32) -> (r: String)
    ensures
        r@ == server_note(f@, revision),
{
    let mut m = owned("Server completion check '");
    m.append(f.check_id.as_str());
    m.append("' failed for revision ");
    m.append(decimal(revision as u64).as_str());
    m.append(": ");
    m.append(f.reason.as_str());
    m
}

fn note_with(note: &str, added: &str) -> (r: String)
    ensures
        r@ == noted(note@, added@),
{
    let whole = if note.is_empty() {
        owned(added)
    } else if contains(note, added) {
        owned(note)
    } else {
        concat3(note, " | ", added)
    };
    take_chars(whole.as_str(), 2000)
}

/// Blocks the steps that failed checks are bound to and notes why. A failure
/// that is bound to no step ends the work; what came before it stays.
pub fn apply_completion_failures(plan: &mut PendingPlan, report: &PlanCompletionReport) -> (r:
    Result<(), String>)
    ensures
        if old(plan)@.id != report.plan_id@ || old(plan)@.revision != report.revision {
            problem(r) == Some("completion report does not match the active plan revision"@)
                && *final(plan) == *old(plan)
        } else {
            (final(plan)@.progress, problem(r)) == charged(
                old(plan)@.progress,
                failures_view(report.failures@),
                report.revision,
                report.failures@.len() as int,
            ) && final(plan)@ == (PlanView { progress: final(plan)@.progress, ..old(plan)@ })
        },
{
    if !same(plan.id.as_str(), report.plan_id.as_str()) || plan.revision != report.revision {
        return Err(owned("completion report does not match the active plan revision"));
    }
    let ghost start = plan@.progress;
    let ghost fs = failures_view(report.failures@);
    let count: usize = report.failures.len();
    let mut n: usize = 0;
    while n < count
        invariant
            n <= count == report.failures@.len(),
            fs == failures_view(report.failures@),
            start == old(plan)@.progress,
            old(plan)@.id == report.plan_id@,
            old(plan)@.revision == report.revision,
            charged(start, fs, report.revision, n as int) == (
                plan@.progress,
                None::<Seq<char>>,
            ),
            plan@ == (PlanView { progress: plan@.progress, ..old(plan)@ }),
        decreases count - n,
    {
        let f = &report.failures[n];
        assert(fs[n as int] == f@);
        match find_step(&plan.progress, f.step_id.as_str()) {
            None => {
                let e = concat3(
                    "completion failure '",
                    f.check_id.as_str(),
                    "' is not bound to an active approved step",
                );
                assert(charged(start, fs, report.revision, n + 1) == (plan@.progress, Some(e@)));
                proof {
                    lemma_charge_error_stays(start, fs, report.revision, n + 1, count as int);
                }
                return Err(e);
            },
            Some(i) => {
                let ghost before = plan@.progress;
                let note = note_with(
                    plan.progress[i].note.as_str(),
                    server_note_text(f, report.revision).as_str(),
                );
                let record = PlanProgressStep {
                    id: plan.progress[i].id.clone(),
                    title: plan.progress[i].title.clone(),
                    status: PlanStepStatus::Blocked,
                    note,
                    deviation_reason: clone_opt(&plan.progress[i].deviation_reason),
                };
                let ghost view = record@;
                assert(before[i as int] == plan.progress@[i as int]@);
                plan.progress.set(i, record);
                assert(plan@.progress =~= before.update(i as int, view));
            },
        }
        n = n + 1;
    }
    Ok(())
}

// ---------------------------------------------------------------------------
// Laws
// ---------------------------------------------------------------------------

/// A failed check never completes a step: charging failures blocks steps, keeps
/// the number of the steps, their ids, titles and reasons, and leaves no new
/// note over the limit.
pub proof fn law_charging_only_blocks(
    progress: Seq<ProgressView>,
    failures: Seq<FailureView>,
    revision: u32,
    n: int,
)
    ensures
        ({
            let q = charged(progress, failures, revision, n).0;
            &&& q.len() == progress.len()
            &&& forall|i: int|
                0 <= i < q.len() ==> (#[trigger] q[i]).id == progress[i].id && q[i].title
                    == progress[i].title && q[i].deviation_reason == progress[i].deviation_reason
                    && (q[i] == progress[i] || (q[i].status is Blocked && q[i].note.len()
                    <= 2000))
        }),
    decreases n,
{
    if n > 0 {
        law_charging_only_blocks(progress, failures, revision, n - 1);
        let p = charged(progress, failures, revision, n - 1).0;
        lemma_position_in_range(p, failures[n - 1].step_id, 0);
    }
}

/// Noting the text once more changes nothing: the note holds it, or is full.
spec fn is_noted(note: Seq<char>, added: Seq<char>) -> bool {
    0 < note.len() <= 2000 && (holds_text(note, added) || note.len() == 2000)
}

proof fn lemma_begins_holds(whole: Seq<char>, front: Seq<char>, t: Seq<char>)
    requires
        front.len() <= whole.len(),
        whole.take(front.len() as int) == front,
        holds_text(front, t),
    ensures
        holds_text(whole, t),
{
    let i = choose|i: int| stands_at(front, t, i);
    assert(stands_at(front, t, i));
    assert(whole.subrange(i, i + t.len()) =~= front.subrange(i, i + t.len()));
    assert(stands_at(whole, t, i));
}

proof fn lemma_noted(note: Seq<char>, added: Seq<char>, earlier: Seq<char>)
    requires
        added.len() > 0,
    ensures
        is_noted(noted(note, added), added),
        is_noted(note, earlier) ==> is_noted(noted(note, added), earlier),
        is_noted(note, added) ==> noted(note, added) == note,
{
    reveal_strlit(" | ");
    let whole = if note.len() == 0 {
        added
    } else if holds_text(note, added) {
        note
    } else {
        note + " | "@ + added
    };
    let r = noted(note, added);
    if whole.len() <= 2000 {
        if note.len() == 0 {
            assert(added.subrange(0, 0 + added.len() as int) =~= added);
            assert(stands_at(added, added, 0));
        } else if !holds_text(note, added) {
            let at: int = note.len() as int + 3;
            assert(whole.subrange(at, at + added.len()) =~= added);
            assert(stands_at(whole, added, at));
        }
    }
    if is_noted(note, earlier) {
        assert(r.take(note.len() as int) =~= note);
        if holds_text(note, earlier) {
            lemma_begins_holds(r, note, earlier);
        }
    }
    if is_noted(note, added) {
        assert(r =~= note);
    }
}

proof fn lemma_server_note(f: FailureView, revision: u32)
    ensures
        server_note(f, revision).len() > 0,
{
    reveal_strlit("Server completion check '");
}

proof fn lemma_same_positions(a: Seq<ProgressView>, b: Seq<ProgressView>, id: Seq<char>, i: int)
    requires
        a.len() == b.len(),
        forall|k: int| 0 <= k < a.len() ==> (#[trigger] a[k]).id == b[k].id,
    ensures
        position_from(a, id, i) == position_from(b, id, i),
    decreases a.len() - i,
{
    if 0 <= i < a.len() {
        assert(a[i].id == b[i].id);
        lemma_same_positions(a, b, id, i + 1);
    }
}

/// The step that the failure is bound to is blocked, and its note tells why.
spec fn is_charged(q: Seq<ProgressView>, f: FailureView, revision: u32) -> bool {
    match position_from(q, f.step_id, 0) {
        Some(i) => 0 <= i < q.len() && q[i].status is Blocked && is_noted(
            q[i].note,
            server_note(f, revision),
        ),
        None => false,
    }
}

proof fn lemma_charged_stays(
    progress: Seq<ProgressView>,
    failures: Seq<FailureView>,
    revision: u32,
    m: int,
    n: int,
)
    requires
        0 <= m < n,
        charged(progress, failures, revision, m + 1).1 is None,
    ensures
        is_charged(charged(progress, failures, revision, n).0, failures[m], revision),
    decreases n,
{
    let p = charged(progress, failures, revision, n - 1).0;
    let q = charged(progress, failures, revision, n).0;
    let f = failures[n - 1];
    lemma_server_note(f, revision);
    lemma_position_in_range(p, f.step_id, 0);
    let at = position_from(p, f.step_id, 0);
    law_charging_only_blocks(progress, failures, revision, n - 1);
    law_charging_only_blocks(progress, failures, revision, n);
    assert forall|k: int| 0 <= k < q.len() implies (#[trigger] q[k]).id == p[k].id by {
        assert(p[k].id == progress[k].id);
    }
    lemma_same_positions(q, p, failures[m].step_id, 0);
    lemma_position_in_range(p, failures[m].step_id, 0);
    if m < n - 1 {
        lemma_charged_stays(progress, failures, revision, m, n - 1);
        if charged(progress, failures, revision, n - 1).1 is None && at is Some {
            lemma_noted(
                p[at->0].note,
                server_note(f, revision),
                server_note(failures[m], revision),
            );
        }
    } else {
        lemma_noted(p[at->0].note, server_note(f, revision), Seq::empty());
    }
}

proof fn lemma_charged_again(
    progress: Seq<ProgressView>,
    failures: Seq<FailureView>,
    revision: u32,
    k: int,
    n: int,
)
    requires
        0 <= k <= n,
    ensures
        ({
            let q = charged(progress, failures, revision, n).0;
            charged(q, failures, revision, k) == (
                q,
                charged(progress, failures, revision, k).1,
            )
        }),
    decreases k,
{
    let q = charged(progress, failures, revision, n).0;
    if k > 0 {
        lemma_charged_again(progress, failures, revision, k - 1, n);
        let p = charged(progress, failures, revision, k - 1).0;
        let f = failures[k - 1];
        if charged(progress, failures, revision, k - 1).1 is None {
            law_charging_only_blocks(progress, failures, revision, k - 1);
            law_charging_only_blocks(progress, failures, revision, n);
            assert forall|j: int| 0 <= j < q.len() implies (#[trigger] q[j]).id == p[j].id by {
                assert(p[j].id == progress[j].id);
            }
            lemma_same_positions(q, p, f.step_id, 0);
            if position_from(p, f.step_id, 0) is Some {
                lemma_charged_stays(progress, failures, revision, k - 1, n);
                lemma_server_note(f, revision);
                let i = position_from(q, f.step_id, 0)->0;
                lemma_noted(q[i].note, server_note(f, revision), Seq::empty());
                let same = ProgressView {
                    status: PlanStepStatus::Blocked,
                    note: noted(q[i].note, server_note(f, revision)),
                    ..q[i]
                };
                assert(same == q[i]);
                assert(q.update(i, same) =~= q);
            }
        }
    }
}

/// Charging the same failures a second time ends as the first time did and
/// changes nothing more.
pub proof fn law_charging_twice(
    progress: Seq<ProgressView>,
    failures: Seq<FailureView>,
    revision: u32,
)
    ensures
        ({
            let n = failures.len() as int;
            let once = charged(progress, failures, revision, n);
            charged(once.0, failures, revision, n) == once
        }),
{
    lemma_charged_again(
        progress,
        failures,
        revision,
        failures.len() as int,
        failures.len() as int,
    );
}

/// One of the first `n` failures is bound to the step.
pub open spec fn is_blamed(failures: Seq<FailureView>, id: Seq<char>, n: int) -> bool {
    exists|m: int| 0 <= m < n && (#[trigger] failures[m]).step_id == id
}

proof fn lemma_unblamed_kept(
    progress: Seq<ProgressView>,
    failures: Seq<FailureView>,
    revision: u32,
    i: int,
    n: int,
)
    requires
        0 <= i < progress.len(),
        !is_blamed(failures, progress[i].id, n),
    ensures
        charged(progress, failures, revision, n).0[i] == progress[i],
    decreases n,
{
    if n > 0 {
        assert forall|m: int| 0 <= m < n - 1 implies (#[trigger] failures[m]).step_id
            != progress[i].id by {}
        assert(failures[n - 1].step_id != progress[i].id);
        lemma_unblamed_kept(progress, failures, revision, i, n - 1);
        let p = charged(progress, failures, revision, n - 1).0;
        law_charging_only_blocks(progress, failures, revision, n - 1);
        lemma_position_in_range(p, failures[n - 1].step_id, 0);
    }
}

/// Where every failure is bound to a step and no two steps share an id, exactly
/// the steps that failures are bound to are blocked, each with a note within
/// the limit; every other step stays as it is.
pub proof fn law_charging_blocks_the_blamed(
    progress: Seq<ProgressView>,
    failures: Seq<FailureView>,
    revision: u32,
)
    requires
        ids_unique(progress),
        charged(progress, failures, revision, failures.len() as int).1 is None,
    ensures
        ({
            let n = failures.len() as int;
            let q = charged(progress, failures, revision, n).0;
            &&& q.len() == progress.len()
            &&& forall|i: int|
                0 <= i < q.len() ==> if is_blamed(failures, progress[i].id, n) {
                    (#[trigger] q[i]).status is Blocked && 0 < q[i].note.len() <= 2000
                } else {
                    q[i] == progress[i]
                }
        }),
{
    let n = failures.len() as int;
    let q = charged(progress, failures, revision, n).0;
    law_charging_only_blocks(progress, failures, revision, n);
    assert forall|i: int| 0 <= i < q.len() implies if is_blamed(failures, progress[i].id, n) {
        (#[trigger] q[i]).status is Blocked && 0 < q[i].note.len() <= 2000
    } else {
        q[i] == progress[i]
    } by {
        if is_blamed(failures, progress[i].id, n) {
            let m = choose|m: int|
                0 <= m < n && (#[trigger] failures[m]).step_id == progress[i].id;
            if charged(progress, failures, revision, m + 1).1 is Some {
                lemma_charge_error_stays(progress, failures, revision, m + 1, n);
            }
            lemma_charged_stays(progress, failures, revision, m, n);
            lemma_position_in_range(q, failures[m].step_id, 0);
            let k = position_from(q, failures[m].step_id, 0)->0;
            assert(q[k].id == progress[k].id && q[i].id == progress[i].id);
            if k != i {
                assert(progress[k].id != progress[i].id);
            }
        } else {
            lemma_unblamed_kept(progress, failures, revision, i, n);
        }
    }
}

/// A plan whose contract names criteria but holds no checks never passes.
pub proof fn law_no_checks_no_completion(
    p: PlanView,
    start: CompletionVerificationControl,
    seen: Seq<(CompletionVerificationControl, CheckObservation)>,
    at_end: CompletionVerificationControl,
    epochs: Seq<(String, u64)>,
    epoch: u64,
    fold_case: bool,
)
    requires
        p.artifact.completion_checks.len() == 0,
        p.artifact.verification.len() > 0 || p.artifact.acceptance_criteria.len() > 0,
    ensures
        contract_outcome(p, start, seen, at_end, epochs, epoch, fold_case) matches Ok(failures)
            ==> failures.len() > 0,
{
}

proof fn lemma_failures_grow(
    p: PlanView,
    seen: Seq<(CompletionVerificationControl, CheckObservation)>,
    epochs: Seq<(String, u64)>,
    epoch: u64,
    k: int,
    n: int,
    fold_case: bool,
)
    requires
        0 <= k < n,
        checks_outcome(p, seen, epochs, epoch, n, fold_case) is Ok,
        one_check_error(
            p,
            p.artifact.completion_checks[k],
            seen[k].1,
            epochs,
            epoch,
            fold_case,
        ) is Some,
    ensures
        checks_outcome(p, seen, epochs, epoch, n, fold_case)->Ok_0.len() > 0,
    decreases n,
{
    if k < n - 1 {
        lemma_failures_grow(p, seen, epochs, epoch, k, n - 1, fold_case);
    }
}

/// A plan with checks passes only where every single check passes.
pub proof fn law_passing_needs_every_check(
    p: PlanView,
    start: CompletionVerificationControl,
    seen: Seq<(CompletionVerificationControl, CheckObservation)>,
    at_end: CompletionVerificationControl,
    epochs: Seq<(String, u64)>,
    epoch: u64,
    k: int,
    fold_case: bool,
)
    requires
        0 <= k < p.artifact.completion_checks.len(),
        contract_outcome(p, start, seen, at_end, epochs, epoch, fold_case) == Ok::<
            Seq<FailureView>,
            PlanCompletionVerificationError,
        >(Seq::empty()),
    ensures
        completion_checks_problem(p.artifact, true, fold_case) is None,
        one_check_error(
            p,
            p.artifact.completion_checks[k],
            seen[k].1,
            epochs,
            epoch,
            fold_case,
        ) is None,
{
    let out = contract_outcome(p, start, seen, at_end, epochs, epoch, fold_case);
    assert(out->Ok_0.len() == 0);
    if one_check_error(
        p,
        p.artifact.completion_checks[k],
        seen[k].1,
        epochs,
        epoch,
        fold_case,
    ) is Some
        && completion_checks_problem(p.artifact, true, fold_case) is None {
        lemma_failures_grow(
            p,
            seen,
            epochs,
            epoch,
            k,
            p.artifact.completion_checks.len() as int,
            fold_case,
        );
    }
}

proof fn lemma_all_covered(a: ArtifactView, section: PlanContractSection, i: int, n: int, k: int)
    requires
        0 <= i <= k < n,
        first_problem(uncovered_problems(a, section), i, n) is None,
    ensures
        is_covered(a, section, k),
    decreases n - i,
{
    let f = uncovered_problems(a, section);
    assert(f(i) is None);
    if i < k {
        lemma_all_covered(a, section, i + 1, n, k);
    }
}

/// An artifact whose checks are accepted with complete coverage has, for every
/// item of its contract, a check that the server can verify; a report of the
/// agent's own progress does not count.
pub proof fn law_accepted_contract_is_covered(
    a: ArtifactView,
    section: PlanContractSection,
    k: int,
    fold_case: bool,
)
    requires
        completion_checks_problem(a, true, fold_case) is None,
        0 <= k < section_len(a, section),
    ensures
        is_covered(a, section, k),
{
    lemma_all_covered(a, section, 0, section_len(a, section) as int, k);
}

} // verus!
