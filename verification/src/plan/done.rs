//! What it means that a plan is done: what a check that passes says of the
//! workspace, of the evidence, of the progress and of the calls of tools.

use crate::digest::{le_bytes, sha256_hex};
use crate::plan::completion::{
    CheckErrorView, CheckObservation, CompletionVerificationControl, EvidenceCheckObservation,
    EvidenceFileObservation, EvidenceObject, FailureView, FileObservation, PathObservation,
    ReadObservation, approved_evidence, checks_outcome, contract_outcome, epoch_of,
    evidence_directory_error, evidence_error, evidence_file_digest, evidence_file_error,
    evidence_sample, exact_all, file_error, object_digest, one_check_error, opened_as_file,
    path_error, progress_error, read_all, read_limit, required_step_error,
};
use crate::plan::fingerprint::SamplePlan;
use crate::plan::model::{
    CheckView, EvidenceView, MAX_EVIDENCE_HASH_FILE_BYTES, MAX_PLAN_COMPLETION_FILE_BYTES,
    PlanCompletionCheckKind, PlanEvidenceKind, PlanExpectedPathType, PlanView, ProgressView,
};
use crate::plan::progress::{lemma_position_in_range, position_from};
use crate::plan::rules::{completion_checks_problem, contract_path};
use crate::text::{ascii_lower, ascii_lower_char};
use vstd::prelude::*;
use vstd::string::*;
use vstd::utf8::*;

verus! {

/// Nobody cancelled, and the time is not over.
pub open spec fn is_calm(c: CompletionVerificationControl) -> bool {
    !c.cancelled && !c.expired
}

/// Two texts are the same but for the case of ASCII letters.
pub open spec fn same_but_case(a: Seq<char>, b: Seq<char>) -> bool {
    a.len() == b.len() && forall|i: int|
        0 <= i < a.len() ==> #[trigger] a[i] == b[i] || ('A' <= a[i] && a[i] <= 'Z' && b[i] as int
            == a[i] as int + 32) || ('A' <= b[i] && b[i] <= 'Z' && a[i] as int == b[i] as int + 32)
}

proof fn lemma_same_but_case(a: Seq<char>, b: Seq<char>)
    ensures
        ascii_lower(a) == ascii_lower(b) <==> same_but_case(a, b),
{
    if ascii_lower(a) == ascii_lower(b) {
        assert(a.len() == ascii_lower(a).len() && b.len() == ascii_lower(b).len());
        assert forall|i: int| 0 <= i < a.len() implies #[trigger] a[i] == b[i] || ('A' <= a[i]
            && a[i] <= 'Z' && b[i] as int == a[i] as int + 32) || ('A' <= b[i] && b[i] <= 'Z'
            && a[i] as int == b[i] as int + 32) by {
            assert(ascii_lower(a)[i] == ascii_lower_char(a[i]));
            assert(ascii_lower(b)[i] == ascii_lower_char(b[i]));
        }
    } else if same_but_case(a, b) {
        assert forall|i: int| 0 <= i < a.len() implies ascii_lower(a)[i] == ascii_lower(b)[i] by {
            assert(a[i] == a[i]);
        }
        assert(ascii_lower(a) =~= ascii_lower(b));
    }
}

// ---------------------------------------------------------------------------
// Files
// ---------------------------------------------------------------------------

/// The first `n` pieces that were read, one behind the other.
pub open spec fn pieces(reads: Seq<ReadObservation>, n: int) -> Seq<u8>
    decreases n,
{
    if n <= 0 {
        Seq::empty()
    } else {
        pieces(reads, n - 1) + reads[n - 1].bytes->Ok_0@
    }
}

/// An attempt that gave a piece without an interruption.
pub open spec fn gave_piece(r: ReadObservation) -> bool {
    is_calm(r.before) && r.bytes is Ok && is_calm(r.after) && r.bytes->Ok_0@.len() > 0
}

/// An attempt that found the end of the file without an interruption.
pub open spec fn found_end(r: ReadObservation) -> bool {
    is_calm(r.before) && r.bytes is Ok && is_calm(r.after) && r.bytes->Ok_0@.len() == 0
}

/// Exactly the first `k` attempts gave pieces; the file ended then, or nothing
/// more was tried.
pub open spec fn read_in_full(reads: Seq<ReadObservation>, k: int) -> bool {
    &&& 0 <= k <= reads.len()
    &&& forall|j: int| 0 <= j < k ==> gave_piece(#[trigger] reads[j])
    &&& k < reads.len() ==> found_end(reads[k])
}

proof fn lemma_pieces_grow(reads: Seq<ReadObservation>, k: int, n: int)
    requires
        0 <= k <= n,
    ensures
        pieces(reads, k).len() <= pieces(reads, n).len(),
    decreases n,
{
    if k < n {
        lemma_pieces_grow(reads, k, n - 1);
    }
}

proof fn lemma_reading(reads: Seq<ReadObservation>, n: int, limit: nat) -> (k: int)
    requires
        0 <= n <= reads.len(),
        read_all(reads, n, limit).error is None,
    ensures
        0 <= k <= n,
        forall|j: int| 0 <= j < k ==> gave_piece(#[trigger] reads[j]),
        k < n ==> found_end(reads[k]),
        read_all(reads, n, limit).at_end == (k < n),
        read_all(reads, n, limit).bytes == pieces(reads, k),
    decreases n,
{
    if n == 0 {
        assert(read_all(reads, 0, limit).bytes =~= pieces(reads, 0));
        0
    } else {
        let k = lemma_reading(reads, n - 1, limit);
        let st = read_all(reads, n - 1, limit);
        if st.at_end {
            k
        } else if read_all(reads, n, limit).at_end {
            n - 1
        } else {
            n
        }
    }
}

proof fn lemma_reading_works(reads: Seq<ReadObservation>, k: int, n: int, limit: nat)
    requires
        read_in_full(reads, k),
        pieces(reads, k).len() <= limit,
        0 <= n <= reads.len(),
    ensures
        read_all(reads, n, limit).error is None,
        n <= k ==> !read_all(reads, n, limit).at_end && read_all(reads, n, limit).bytes == pieces(
            reads,
            n,
        ),
        n > k ==> read_all(reads, n, limit).at_end && read_all(reads, n, limit).bytes == pieces(
            reads,
            k,
        ),
    decreases n,
{
    if n == 0 {
        assert(read_all(reads, 0, limit).bytes =~= pieces(reads, 0));
    } else {
        lemma_reading_works(reads, k, n - 1, limit);
        if n <= k {
            assert(gave_piece(reads[n - 1]));
            lemma_pieces_grow(reads, n, k);
        }
    }
}

/// A file is what a check on it approved: of the approved size, with the
/// approved bytes and the approved hash, and the same file before and after it
/// was read.
pub open spec fn file_is_as_approved(c: CheckView, o: FileObservation) -> bool {
    &&& c.size_bytes is Some ==> o.facts.len == c.size_bytes->0
    &&& c.exact_content is Some ==> o.facts.len == encode_utf8(c.exact_content->0).len()
    &&& c.sha256 is Some ==> o.facts.len <= MAX_PLAN_COMPLETION_FILE_BYTES
    &&& o.recheck is Ok && o.recheck->Ok_0 == o.facts
    &&& o.reverified is Ok
    &&& is_calm(o.before_recheck) && is_calm(o.at_end)
    &&& c.exact_content is Some || c.sha256 is Some ==> exists|k: int| #[trigger]
        read_in_full(o.reads@, k) && pieces(o.reads@, k).len() == o.facts.len
            && (c.exact_content is Some ==> pieces(o.reads@, k) == encode_utf8(c.exact_content->0))
            && (c.sha256 is Some ==> same_but_case(
            sha256_hex(pieces(o.reads@, k)),
            c.sha256->0,
        ))
}

/// A check on a file passes exactly where the file is what was approved: its
/// bytes are the approved content, its size and its hash the approved ones, and
/// it did not change while it was read.
pub proof fn law_file_check(c: CheckView, o: FileObservation)
    ensures
        file_error(c, o) is None <==> file_is_as_approved(c, o),
{
    let n = o.reads@.len() as int;
    if file_error(c, o) is None {
        if c.exact_content is Some || c.sha256 is Some {
            let limit = read_limit(c);
            let k = lemma_reading(o.reads@, n, limit);
            assert(read_in_full(o.reads@, k));
            if c.sha256 is Some {
                lemma_same_but_case(sha256_hex(pieces(o.reads@, k)), c.sha256->0);
            }
        }
        assert(o.recheck->Ok_0 == o.facts);
    } else if file_is_as_approved(c, o) {
        if c.exact_content is Some || c.sha256 is Some {
            let k = choose|k: int| #[trigger]
                read_in_full(o.reads@, k) && pieces(o.reads@, k).len() == o.facts.len
                    && (c.exact_content is Some ==> pieces(o.reads@, k) == encode_utf8(
                    c.exact_content->0,
                )) && (c.sha256 is Some ==> same_but_case(
                    sha256_hex(pieces(o.reads@, k)),
                    c.sha256->0,
                ));
            lemma_reading_works(o.reads@, k, n, read_limit(c));
            if c.sha256 is Some {
                lemma_same_but_case(sha256_hex(pieces(o.reads@, k)), c.sha256->0);
            }
        }
    }
}

/// What stands at a path is what a check approved: nothing, a directory, or a
/// file that is what was approved.
pub open spec fn path_is_as_approved(c: CheckView, o: PathObservation) -> bool {
    &&& c.path is Some && c.expected_path_type is Some
    &&& o.resolved is Ok && o.opened is Ok
    &&& is_calm(o.start) && is_calm(o.after_resolve) && is_calm(o.after_open)
    &&& match c.expected_path_type->0 {
        PlanExpectedPathType::Absent => o.opened->Ok_0 is None && is_calm(o.before_probe)
            && o.probe is Ok && !o.probe->Ok_0,
        PlanExpectedPathType::Directory => o.opened->Ok_0 is Some && o.opened->Ok_0->0.is_dir
            && o.reverified is Ok && is_calm(o.at_end),
        PlanExpectedPathType::File => o.opened->Ok_0 is Some && file_is_as_approved(c, o.file),
    }
}

/// A check on a path passes exactly where what stands there is what was
/// approved.
pub proof fn law_path_check(c: CheckView, o: PathObservation)
    ensures
        path_error(c, o) is None <==> path_is_as_approved(c, o),
{
    law_file_check(c, o.file);
}

/// A file that was read in full and did not change, of the approved size but
/// with other bytes, is refused for its bytes.
pub proof fn law_other_bytes_are_refused(c: CheckView, o: FileObservation, k: int)
    requires
        c.exact_content is Some,
        read_in_full(o.reads@, k),
        pieces(o.reads@, k) != encode_utf8(c.exact_content->0),
        pieces(o.reads@, k).len() == o.facts.len,
        o.facts.len == encode_utf8(c.exact_content->0).len(),
        c.size_bytes is Some ==> o.facts.len == c.size_bytes->0,
        c.sha256 is Some ==> o.facts.len <= MAX_PLAN_COMPLETION_FILE_BYTES,
        o.recheck is Ok && o.recheck->Ok_0 == o.facts,
        o.reverified is Ok,
        is_calm(o.before_recheck),
    ensures
        file_error(c, o) == Some(
            CheckErrorView::Failed("file bytes differ from the approved exact content"@),
        ),
{
    lemma_reading_works(o.reads@, k, o.reads@.len() as int, read_limit(c));
}

// ---------------------------------------------------------------------------
// Evidence
// ---------------------------------------------------------------------------

/// The first `n` attempts of a sample gave pieces.
pub open spec fn all_gave(reads: Seq<ReadObservation>, n: int) -> bool {
    forall|j: int| 0 <= j < n ==> gave_piece(#[trigger] reads[j])
}

proof fn lemma_exact(reads: Seq<ReadObservation>, n: int, target: nat) -> (k: int)
    requires
        0 <= n <= reads.len(),
        exact_all(reads, n, target).error is None,
    ensures
        0 <= k <= n,
        all_gave(reads, k),
        exact_all(reads, n, target).bytes == pieces(reads, k),
        k < n ==> pieces(reads, k).len() >= target,
    decreases n,
{
    if n == 0 {
        assert(exact_all(reads, 0, target).bytes =~= pieces(reads, 0));
        0
    } else {
        let k = lemma_exact(reads, n - 1, target);
        if exact_all(reads, n - 1, target).bytes.len() >= target {
            k
        } else {
            assert(k == n - 1);
            n
        }
    }
}

/// The fingerprint of a file that is read whole is the digest of its length, its
/// time of change and the bytes that were read of it, in this order.
pub proof fn law_whole_file_fingerprint(o: EvidenceFileObservation)
    requires
        evidence_file_error(o) is None,
        0 < o.facts.len <= MAX_EVIDENCE_HASH_FILE_BYTES,
    ensures
        exists|k: int| #[trigger]
            all_gave(o.head@, k) && 0 <= k <= o.head@.len() && pieces(o.head@, k).len()
                >= o.facts.len && evidence_file_digest(o) == sha256_hex(
                le_bytes(o.facts.len as nat, 8) + (match o.facts.modified {
                    Some(t) => le_bytes(t as nat, 16),
                    None => Seq::empty(),
                }) + pieces(o.head@, k),
            ),
        o.recheck is Ok && o.recheck->Ok_0 == o.facts,
        o.reverified is Ok,
        is_calm(o.before_recheck) && is_calm(o.at_end),
{
    let k = lemma_exact(o.head@, o.head@.len() as int, o.facts.len as nat);
    assert(evidence_sample(o.facts.len) == SamplePlan::Whole { bytes: o.facts.len });
    assert(all_gave(o.head@, k));
    assert(o.recheck->Ok_0 == o.facts);
}

/// The piece of evidence is the one that a check asks for.
pub open spec fn is_asked_for(
    e: EvidenceView,
    path: Seq<char>,
    kind: PlanEvidenceKind,
    fold_case: bool,
) -> bool {
    e.kind == kind && contract_path(e.path, fold_case) == contract_path(path, fold_case)
}

proof fn lemma_first_evidence(
    v: Seq<EvidenceView>,
    path: Seq<char>,
    kind: PlanEvidenceKind,
    i: int,
    fold_case: bool,
)
    requires
        0 <= i,
    ensures
        match approved_evidence(v, path, kind, i, fold_case) {
            Some(e) => exists|m: int|
                i <= m < v.len() && #[trigger] v[m] == e && is_asked_for(e, path, kind, fold_case)
                    && forall|j: int|
                    i <= j < m ==> !is_asked_for(#[trigger] v[j], path, kind, fold_case),
            None => forall|j: int|
                i <= j < v.len() ==> !is_asked_for(#[trigger] v[j], path, kind, fold_case),
        },
    decreases v.len() - i,
{
    if i < v.len() {
        if is_asked_for(v[i], path, kind, fold_case) {
            assert(v[i] == approved_evidence(v, path, kind, i, fold_case)->0);
        } else {
            lemma_first_evidence(v, path, kind, i + 1, fold_case);
            if let Some(e) = approved_evidence(v, path, kind, i + 1, fold_case) {
                let m = choose|m: int|
                    i + 1 <= m < v.len() && #[trigger] v[m] == e && is_asked_for(
                        e,
                        path,
                        kind,
                        fold_case,
                    ) && forall|j: int|
                        i + 1 <= j < m ==> !is_asked_for(#[trigger] v[j], path, kind, fold_case);
                assert(v[m] == e);
            }
        }
    }
}

/// A check on evidence passes only where the plan holds a piece of evidence on
/// that path and of that kind, and the object that was found now has, of the
/// first such piece, the fingerprint.
pub proof fn law_evidence_check(
    p: PlanView,
    c: CheckView,
    o: EvidenceCheckObservation,
    fold_case: bool,
)
    requires
        opened_as_file(c.evidence_kind, o),
        evidence_error(p, c, o, fold_case) is None,
    ensures
        c.path is Some,
        c.evidence_kind == Some(PlanEvidenceKind::File) || c.evidence_kind == Some(
            PlanEvidenceKind::Directory,
        ),
        is_calm(o.start) && o.resolved is Ok && o.opened is Ok && o.opened->Ok_0 is Some,
        exists|m: int|
            0 <= m < p.evidence.len() && is_asked_for(
                #[trigger] p.evidence[m],
                c.path->0,
                c.evidence_kind->0,
                fold_case,
            ) && p.evidence[m].fingerprint == object_digest(o.opened->Ok_0->0) && forall|j: int|
                0 <= j < m ==> !is_asked_for(
                    #[trigger] p.evidence[j],
                    c.path->0,
                    c.evidence_kind->0,
                    fold_case,
                ),
        match o.opened->Ok_0->0 {
            EvidenceObject::File(f) => c.evidence_kind == Some(PlanEvidenceKind::File)
                && evidence_file_error(f) is None && object_digest(o.opened->Ok_0->0)
                == evidence_file_digest(f),
            EvidenceObject::Directory(d) => c.evidence_kind == Some(PlanEvidenceKind::Directory)
                && d.facts.is_dir && evidence_directory_error(d) is None,
        },
{
    lemma_first_evidence(p.evidence, c.path->0, c.evidence_kind->0, 0, fold_case);
    let e = approved_evidence(p.evidence, c.path->0, c.evidence_kind->0, 0, fold_case)->0;
    let m = choose|m: int|
        0 <= m < p.evidence.len() && #[trigger] p.evidence[m] == e && is_asked_for(
            e,
            c.path->0,
            c.evidence_kind->0,
            fold_case,
        ) && forall|j: int|
            0 <= j < m ==> !is_asked_for(
                #[trigger] p.evidence[j],
                c.path->0,
                c.evidence_kind->0,
                fold_case,
            );
    assert(p.evidence[m] == e);
}

/// Evidence whose object has another fingerprint now is refused.
pub proof fn law_changed_evidence_is_refused(
    p: PlanView,
    c: CheckView,
    o: EvidenceCheckObservation,
    fold_case: bool,
    m: int,
)
    requires
        is_calm(o.start),
        c.path is Some,
        c.evidence_kind == Some(PlanEvidenceKind::File),
        0 <= m < p.evidence.len(),
        is_asked_for(p.evidence[m], c.path->0, PlanEvidenceKind::File, fold_case),
        forall|j: int|
            0 <= j < m ==> !is_asked_for(
                #[trigger] p.evidence[j],
                c.path->0,
                PlanEvidenceKind::File,
                fold_case,
            ),
        o.resolved is Ok,
        o.opened is Ok && o.opened->Ok_0 is Some && o.opened->Ok_0->0 is File,
        evidence_file_error(o.opened->Ok_0->0->File_0) is None,
        evidence_file_digest(o.opened->Ok_0->0->File_0) != p.evidence[m].fingerprint,
    ensures
        evidence_error(p, c, o, fold_case) == Some(
            CheckErrorView::Failed(
                "workspace evidence changed after the approved revision was captured"@,
            ),
        ),
{
    lemma_first_evidence(p.evidence, c.path->0, PlanEvidenceKind::File, 0, fold_case);
    let found = approved_evidence(p.evidence, c.path->0, PlanEvidenceKind::File, 0, fold_case);
    assert(is_asked_for(p.evidence[m], c.path->0, PlanEvidenceKind::File, fold_case));
    let e = found->0;
    let k = choose|k: int|
        0 <= k < p.evidence.len() && #[trigger] p.evidence[k] == e && is_asked_for(
            e,
            c.path->0,
            PlanEvidenceKind::File,
            fold_case,
        ) && forall|j: int|
            0 <= j < k ==> !is_asked_for(
                #[trigger] p.evidence[j],
                c.path->0,
                PlanEvidenceKind::File,
                fold_case,
            );
    assert(p.evidence[k] == e);
    assert(k == m);
}

// ---------------------------------------------------------------------------
// Progress and calls of tools
// ---------------------------------------------------------------------------

/// The first record of the step says that it is completed or skipped.
#[verifier::opaque]
pub open spec fn is_reported_done(progress: Seq<ProgressView>, id: Seq<char>) -> bool {
    exists|j: int|
        0 <= j < progress.len() && (#[trigger] progress[j]).id == id && (progress[j].status
            is Completed || progress[j].status is Skipped) && forall|k: int|
            0 <= k < j ==> (#[trigger] progress[k]).id != id
}

proof fn lemma_required_step(p: PlanView, id: Seq<char>)
    ensures
        required_step_error(p, id) is None <==> is_reported_done(p.progress, id),
{
    reveal(is_reported_done);
    lemma_position_in_range(p.progress, id, 0);
    if is_reported_done(p.progress, id) {
        let j = choose|j: int|
            0 <= j < p.progress.len() && (#[trigger] p.progress[j]).id == id && (
            p.progress[j].status is Completed || p.progress[j].status is Skipped) && forall|k: int|
                0 <= k < j ==> (#[trigger] p.progress[k]).id != id;
        let i = position_from(p.progress, id, 0);
        assert(p.progress[j].id == id);
        assert(i is Some);
        assert(p.progress[i->0].id == id);
        assert(i->0 == j);
    } else if required_step_error(p, id) is None {
        let i = position_from(p.progress, id, 0)->0;
        assert(p.progress[i].id == id);
    }
}

proof fn lemma_progress_check(p: PlanView, ids: Seq<Seq<char>>, i: int)
    requires
        0 <= i,
    ensures
        progress_error(p, ids, i) is None <==> forall|k: int|
            i <= k < ids.len() ==> is_reported_done(p.progress, #[trigger] ids[k]),
    decreases ids.len() - i,
{
    if i < ids.len() {
        lemma_required_step(p, ids[i]);
        lemma_progress_check(p, ids, i + 1);
        if progress_error(p, ids, i) is None {
            assert forall|k: int| i <= k < ids.len() implies is_reported_done(
                p.progress,
                #[trigger] ids[k],
            ) by {
                if k > i {
                    assert(i + 1 <= k);
                }
            }
        } else if is_reported_done(p.progress, ids[i]) {
            let k = choose|k: int|
                i + 1 <= k < ids.len() && !is_reported_done(p.progress, #[trigger] ids[k]);
            assert(!is_reported_done(p.progress, ids[k]));
        }
    }
}

/// A check on the progress passes exactly where every step that it names is
/// reported as completed or skipped.
pub proof fn law_progress_check(p: PlanView, ids: Seq<Seq<char>>)
    ensures
        progress_error(p, ids, 0) is None <==> forall|k: int|
            0 <= k < ids.len() ==> is_reported_done(p.progress, #[trigger] ids[k]),
{
    lemma_progress_check(p, ids, 0);
}

/// The first entry under the id holds this number.
pub open spec fn is_noted_at(epochs: Seq<(String, u64)>, id: Seq<char>, epoch: u64) -> bool {
    exists|j: int|
        0 <= j < epochs.len() && (#[trigger] epochs[j]).0@ == id && epochs[j].1 == epoch
            && forall|k: int| 0 <= k < j ==> (#[trigger] epochs[k]).0@ != id
}

proof fn lemma_epoch(epochs: Seq<(String, u64)>, id: Seq<char>, i: int)
    requires
        0 <= i,
    ensures
        match epoch_of(epochs, id, i) {
            Some(e) => exists|j: int|
                i <= j < epochs.len() && (#[trigger] epochs[j]).0@ == id && epochs[j].1 == e
                    && forall|k: int| i <= k < j ==> (#[trigger] epochs[k]).0@ != id,
            None => forall|k: int| i <= k < epochs.len() ==> (#[trigger] epochs[k]).0@ != id,
        },
    decreases epochs.len() - i,
{
    if i < epochs.len() {
        if epochs[i].0@ == id {
            assert(epochs[i].1 == epoch_of(epochs, id, i)->0);
        } else {
            lemma_epoch(epochs, id, i + 1);
            if let Some(e) = epoch_of(epochs, id, i + 1) {
                let j = choose|j: int|
                    i + 1 <= j < epochs.len() && (#[trigger] epochs[j]).0@ == id && epochs[j].1 == e
                        && forall|k: int| i + 1 <= k < j ==> (#[trigger] epochs[k]).0@ != id;
                assert(epochs[j].0@ == id);
            }
        }
    }
}

/// What makes a check pass, by what it looks at.
pub open spec fn is_passed(
    p: PlanView,
    c: CheckView,
    o: CheckObservation,
    epochs: Seq<(String, u64)>,
    epoch: u64,
    fold_case: bool,
) -> bool {
    match c.kind {
        PlanCompletionCheckKind::WorkspacePath => path_is_as_approved(c, o->Path_0),
        PlanCompletionCheckKind::ApprovedEvidenceUnchanged => evidence_error(
            p,
            c,
            o->Evidence_0,
            fold_case,
        ) is None,
        PlanCompletionCheckKind::PlanProgress => forall|k: int|
            0 <= k < c.required_step_ids.len() ==> is_reported_done(
                p.progress,
                #[trigger] c.required_step_ids[k],
            ),
        PlanCompletionCheckKind::ToolCallSuccess => is_noted_at(epochs, c.id, epoch),
    }
}

/// A single check passes exactly where what it looks at is as approved; a check
/// on a call of a tool where that call succeeded at the present state of the
/// workspace.
pub proof fn law_one_check(
    p: PlanView,
    c: CheckView,
    o: CheckObservation,
    epochs: Seq<(String, u64)>,
    epoch: u64,
    fold_case: bool,
)
    ensures
        one_check_error(p, c, o, epochs, epoch, fold_case) is None <==> is_passed(
            p,
            c,
            o,
            epochs,
            epoch,
            fold_case,
        ),
{
    law_path_check(c, o->Path_0);
    law_progress_check(p, c.required_step_ids);
    lemma_epoch(epochs, c.id, 0);
    if is_noted_at(epochs, c.id, epoch) {
        let j = choose|j: int|
            0 <= j < epochs.len() && (#[trigger] epochs[j]).0@ == c.id && epochs[j].1 == epoch
                && forall|k: int| 0 <= k < j ==> (#[trigger] epochs[k]).0@ != c.id;
        assert(epochs[j].0@ == c.id);
        let e = epoch_of(epochs, c.id, 0)->0;
        let i = choose|i: int|
            0 <= i < epochs.len() && (#[trigger] epochs[i]).0@ == c.id && epochs[i].1 == e
                && forall|k: int| 0 <= k < i ==> (#[trigger] epochs[k]).0@ != c.id;
        assert(epochs[i].0@ == c.id);
        assert(i == j);
    }
}

// ---------------------------------------------------------------------------
// The whole contract
// ---------------------------------------------------------------------------

/// A failure reports a check.
pub open spec fn reports(f: FailureView, c: CheckView) -> bool {
    f.check_id == c.id && f.step_id == c.step_id
}

proof fn lemma_outcome(
    p: PlanView,
    seen: Seq<(CompletionVerificationControl, CheckObservation)>,
    epochs: Seq<(String, u64)>,
    epoch: u64,
    n: int,
    fold_case: bool,
)
    requires
        0 <= n <= p.artifact.completion_checks.len(),
        checks_outcome(p, seen, epochs, epoch, n, fold_case) is Ok,
    ensures
        ({
            let failures = checks_outcome(p, seen, epochs, epoch, n, fold_case)->Ok_0;
            let checks = p.artifact.completion_checks;
            &&& forall|k: int|
                0 <= k < n ==> is_calm(#[trigger] seen[k].0) && (is_passed(
                    p,
                    checks[k],
                    seen[k].1,
                    epochs,
                    epoch,
                    fold_case,
                ) || exists|m: int|
                    0 <= m < failures.len() && reports(#[trigger] failures[m], checks[k]))
            &&& forall|m: int|
                0 <= m < failures.len() ==> exists|k: int|
                    0 <= k < n && reports(#[trigger] failures[m], #[trigger] checks[k])
                        && !is_passed(p, checks[k], seen[k].1, epochs, epoch, fold_case)
        }),
    decreases n,
{
    if n > 0 {
        lemma_outcome(p, seen, epochs, epoch, n - 1, fold_case);
        let checks = p.artifact.completion_checks;
        let before = checks_outcome(p, seen, epochs, epoch, n - 1, fold_case)->Ok_0;
        let failures = checks_outcome(p, seen, epochs, epoch, n, fold_case)->Ok_0;
        law_one_check(p, checks[n - 1], seen[n - 1].1, epochs, epoch, fold_case);
        assert forall|m: int| 0 <= m < before.len() implies failures[m] == before[m] by {}
        assert forall|k: int| 0 <= k < n implies is_calm(#[trigger] seen[k].0) && (is_passed(
            p,
            checks[k],
            seen[k].1,
            epochs,
            epoch,
            fold_case,
        ) || exists|m: int|
            0 <= m < failures.len() && reports(#[trigger] failures[m], checks[k])) by {
            if k < n - 1 {
                assert(is_calm(seen[k].0));
                if !is_passed(p, checks[k], seen[k].1, epochs, epoch, fold_case) {
                    let m = choose|m: int|
                        0 <= m < before.len() && reports(#[trigger] before[m], checks[k]);
                    assert(reports(failures[m], checks[k]));
                }
            } else if !is_passed(p, checks[k], seen[k].1, epochs, epoch, fold_case) {
                assert(reports(failures[before.len() as int], checks[k]));
            }
        }
        assert forall|m: int| 0 <= m < failures.len() implies exists|k: int|
            0 <= k < n && reports(#[trigger] failures[m], #[trigger] checks[k]) && !is_passed(
                p,
                checks[k],
                seen[k].1,
                epochs,
                epoch,
                fold_case,
            ) by {
            if m < before.len() {
                let k = choose|k: int|
                    0 <= k < n - 1 && reports(before[m], #[trigger] checks[k]) && !is_passed(
                        p,
                        checks[k],
                        seen[k].1,
                        epochs,
                        epoch,
                        fold_case,
                    );
                assert(reports(failures[m], checks[k]));
            } else {
                assert(reports(failures[m], checks[n - 1]));
            }
        }
    }
}

/// A plan with checks that is held against its contract without an interruption
/// has no failure exactly where every one of its checks passes; every check that
/// does not pass is reported with its own id and step, and no other one is.
pub proof fn law_plan_is_done(
    p: PlanView,
    start: CompletionVerificationControl,
    seen: Seq<(CompletionVerificationControl, CheckObservation)>,
    at_end: CompletionVerificationControl,
    epochs: Seq<(String, u64)>,
    epoch: u64,
    fold_case: bool,
)
    requires
        p.artifact.completion_checks.len() > 0,
        completion_checks_problem(p.artifact, true, fold_case) is None,
        contract_outcome(p, start, seen, at_end, epochs, epoch, fold_case) is Ok,
    ensures
        ({
            let failures = contract_outcome(
                p,
                start,
                seen,
                at_end,
                epochs,
                epoch,
                fold_case,
            )->Ok_0;
            let checks = p.artifact.completion_checks;
            &&& is_calm(start) && is_calm(at_end)
            &&& failures.len() == 0 <==> forall|k: int|
                0 <= k < checks.len() ==> is_passed(
                    p,
                    #[trigger] checks[k],
                    seen[k].1,
                    epochs,
                    epoch,
                    fold_case,
                )
            &&& forall|k: int|
                0 <= k < checks.len() && !is_passed(
                    p,
                    #[trigger] checks[k],
                    seen[k].1,
                    epochs,
                    epoch,
                    fold_case,
                ) ==> exists|m: int|
                    0 <= m < failures.len() && reports(#[trigger] failures[m], checks[k])
            &&& forall|m: int|
                0 <= m < failures.len() ==> exists|k: int|
                    0 <= k < checks.len() && reports(#[trigger] failures[m], #[trigger] checks[k])
                        && !is_passed(p, checks[k], seen[k].1, epochs, epoch, fold_case)
        }),
{
    let checks = p.artifact.completion_checks;
    let n = checks.len() as int;
    lemma_outcome(p, seen, epochs, epoch, n, fold_case);
    let failures = contract_outcome(p, start, seen, at_end, epochs, epoch, fold_case)->Ok_0;
    assert forall|k: int| 0 <= k < n && !is_passed(
        p,
        #[trigger] checks[k],
        seen[k].1,
        epochs,
        epoch,
        fold_case,
    ) implies exists|m: int|
        0 <= m < failures.len() && reports(#[trigger] failures[m], checks[k]) by {
        assert(is_calm(seen[k].0));
    }
    if failures.len() > 0 {
        let k = choose|k: int|
            0 <= k < n && reports(failures[0], #[trigger] checks[k]) && !is_passed(
                p,
                checks[k],
                seen[k].1,
                epochs,
                epoch,
                fold_case,
            );
        assert(!is_passed(p, checks[k], seen[k].1, epochs, epoch, fold_case));
    }
}

} // verus!
