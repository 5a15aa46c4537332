//! Verifying captured evidence against the current state of the workspace.

use crate::digest::{le_bytes, push_bytes, push_le, push_text, sha256, sha256_hex};
use crate::plan::encode::{evidence_kind_key, evidence_kind_label};
use crate::plan::model::{EvidenceView, PlanEvidence, evidence_view};
use crate::text::{lemma_text_placed, opt_text, place_text, same, text_placed, texts};
use vstd::prelude::*;
use vstd::string::*;
use vstd::utf8::encode_utf8;

verus! {

/// Why the verification of evidence stopped early.
#[derive(Clone, Copy, Debug, PartialEq, Eq, Structural)]
pub enum EvidenceVerificationError {
    Cancelled,
    TimedOut,
}

/// What became of the evidence: the paths that changed, and a fingerprint of
/// everything that was seen.
#[derive(Debug, PartialEq, Eq)]
pub struct EvidenceVerificationSnapshot {
    pub stale_paths: Vec<String>,
    pub fingerprint: String,
}

/// What was observed around one piece of evidence: whether the verification
/// was cancelled or out of time before and after, and in between the
/// fingerprint that the workspace has now, if it could be taken.
#[derive(Debug, PartialEq, Eq)]
pub struct EvidenceObservation {
    pub cancelled_before: bool,
    pub expired_before: bool,
    pub fingerprint: Option<String>,
    pub cancelled_after: bool,
    pub expired_after: bool,
}

/// What an observation says of an interruption.
pub open spec fn interruption(o: EvidenceObservation) -> Option<EvidenceVerificationError> {
    if o.cancelled_before {
        Some(EvidenceVerificationError::Cancelled)
    } else if o.expired_before {
        Some(EvidenceVerificationError::TimedOut)
    } else if o.cancelled_after {
        Some(EvidenceVerificationError::Cancelled)
    } else if o.expired_after {
        Some(EvidenceVerificationError::TimedOut)
    } else {
        None
    }
}

/// The first interruption among the observations from `i` up to `n`.
pub open spec fn first_interruption(v: Seq<EvidenceObservation>, i: int, n: int) -> Option<
    EvidenceVerificationError,
>
    decreases n - i,
{
    if i >= n {
        None
    } else if interruption(v[i]) is Some {
        interruption(v[i])
    } else {
        first_interruption(v, i + 1, n)
    }
}

/// A field of the snapshot: its length, then its bytes.
pub open spec fn field_bytes(b: Seq<u8>) -> Seq<u8> {
    le_bytes(b.len(), 8) + b
}

/// What one piece of evidence adds to the snapshot.
pub open spec fn piece_bytes(e: EvidenceView, actual: Option<Seq<char>>) -> Seq<u8> {
    field_bytes(encode_utf8(e.path)) + field_bytes(encode_utf8(evidence_kind_key(e.kind)))
        + field_bytes(
        encode_utf8(
            match e.selector {
                Some(s) => s,
                None => Seq::empty(),
            },
        ),
    ) + (match actual {
        Some(t) => seq![1u8] + field_bytes(encode_utf8(t)),
        None => seq![0u8],
    })
}

/// What the first `n` pieces of evidence amount to in the snapshot.
pub open spec fn snapshot_bytes(
    evidence: Seq<EvidenceView>,
    actual: Seq<Option<Seq<char>>>,
    n: int,
) -> Seq<u8>
    decreases n,
{
    if n <= 0 {
        encode_utf8("lingclaw-plan-evidence-snapshot-v1"@)
    } else {
        snapshot_bytes(evidence, actual, n - 1) + piece_bytes(evidence[n - 1], actual[n - 1])
    }
}

/// The paths among the first `n` pieces of evidence whose fingerprint is gone
/// or another one, in ascending order.
pub open spec fn stale_among(
    evidence: Seq<EvidenceView>,
    actual: Seq<Option<Seq<char>>>,
    n: int,
) -> Seq<Seq<char>>
    decreases n,
{
    if n <= 0 {
        Seq::empty()
    } else if actual[n - 1] == Some(evidence[n - 1].fingerprint) {
        stale_among(evidence, actual, n - 1)
    } else {
        text_placed(stale_among(evidence, actual, n - 1), evidence[n - 1].path)
    }
}

/// The fingerprints that were observed.
pub open spec fn observed(v: Seq<EvidenceObservation>) -> Seq<Option<Seq<char>>> {
    v.map_values(|o: EvidenceObservation| opt_text(o.fingerprint))
}

/// A verification under way.
pub struct EvidenceRun {
    pub stale: Vec<String>,
    pub bytes: Vec<u8>,
}

fn push_field(out: &mut Vec<u8>, text: &str)
    ensures
        final(out)@ == old(out)@ + field_bytes(encode_utf8(text@)),
{
    let ghost start = out@;
    let bytes = text.as_bytes();
    push_le(out, bytes.len() as u128, 8);
    push_bytes(out, bytes);
    assert(out@ =~= start + field_bytes(encode_utf8(text@)));
}

fn push_piece(out: &mut Vec<u8>, e: &PlanEvidence, actual: &Option<String>)
    ensures
        final(out)@ == old(out)@ + piece_bytes(e@, opt_text(*actual)),
{
    let ghost start = out@;
    push_field(out, e.path.as_str());
    push_field(out, evidence_kind_label(e.kind));
    match &e.selector {
        Some(s) => push_field(out, s.as_str()),
        None => push_field(out, String::new().as_str()),
    }
    let ghost middle = out@;
    match actual {
        Some(t) => {
            out.push(1);
            push_field(out, t.as_str());
            assert(out@ =~= middle + (seq![1u8] + field_bytes(encode_utf8(t@))));
        },
        None => {
            out.push(0);
            assert(out@ =~= middle + seq![0u8]);
        },
    }
    assert(out@ =~= start + piece_bytes(e@, opt_text(*actual)));
}

impl EvidenceRun {
    /// A verification that has not looked at anything yet.
    pub fn new() -> (r: EvidenceRun)
        ensures
            r.bytes@ == encode_utf8("lingclaw-plan-evidence-snapshot-v1"@),
            texts(r.stale@) == Seq::<Seq<char>>::empty(),
    {
        let mut bytes: Vec<u8> = Vec::new();
        push_text(&mut bytes, "lingclaw-plan-evidence-snapshot-v1");
        assert(bytes@ =~= encode_utf8("lingclaw-plan-evidence-snapshot-v1"@));
        let r = EvidenceRun { stale: Vec::new(), bytes };
        assert(texts(r.stale@) =~= Seq::empty());
        r
    }

    /// Takes in what was observed of one piece of evidence.
    pub fn step(&mut self, expected: &PlanEvidence, o: &EvidenceObservation) -> (r: Result<
        (),
        EvidenceVerificationError,
    >)
        ensures
            match r {
                Err(e) => interruption(*o) == Some(e) && *final(self) == *old(self),
                Ok(_) => interruption(*o) is None && final(self).bytes@ == old(self).bytes@
                    + piece_bytes(expected@, opt_text(o.fingerprint)) && texts(final(self).stale@)
                    == (if opt_text(o.fingerprint) == Some(expected@.fingerprint) {
                    texts(old(self).stale@)
                } else {
                    text_placed(texts(old(self).stale@), expected@.path)
                }),
            },
    {
        if o.cancelled_before {
            return Err(EvidenceVerificationError::Cancelled);
        }
        if o.expired_before {
            return Err(EvidenceVerificationError::TimedOut);
        }
        if o.cancelled_after {
            return Err(EvidenceVerificationError::Cancelled);
        }
        if o.expired_after {
            return Err(EvidenceVerificationError::TimedOut);
        }
        push_piece(&mut self.bytes, expected, &o.fingerprint);
        let fresh = match &o.fingerprint {
            Some(actual) => same(actual.as_str(), expected.fingerprint.as_str()),
            None => false,
        };
        if !fresh {
            place_text(&mut self.stale, expected.path.as_str());
        }
        Ok(())
    }

    /// The outcome of the verification.
    pub fn finish(self) -> (r: EvidenceVerificationSnapshot)
        ensures
            texts(r.stale_paths@) == texts(self.stale@),
            r.fingerprint@ == sha256_hex(self.bytes@),
    {
        let fingerprint = sha256(self.bytes.as_slice());
        EvidenceVerificationSnapshot { stale_paths: self.stale, fingerprint }
    }
}

/// Verifies evidence from what was observed of each piece, in order, up to the
/// first interruption.
pub fn verify_evidence_snapshot_until(
    evidence: &Vec<PlanEvidence>,
    observations: &Vec<EvidenceObservation>,
) -> (r: Result<EvidenceVerificationSnapshot, EvidenceVerificationError>)
    requires
        observations@.len() == evidence@.len(),
    ensures
        match r {
            Err(e) => first_interruption(observations@, 0, evidence@.len() as int) == Some(e),
            Ok(s) => {
                &&& first_interruption(observations@, 0, evidence@.len() as int) is None
                &&& texts(s.stale_paths@) == stale_among(
                    evidence_view(evidence@),
                    observed(observations@),
                    evidence@.len() as int,
                )
                &&& s.fingerprint@ == sha256_hex(
                    snapshot_bytes(
                        evidence_view(evidence@),
                        observed(observations@),
                        evidence@.len() as int,
                    ),
                )
            },
        },
{
    let mut run = EvidenceRun::new();
    let count: usize = evidence.len();
    let mut i: usize = 0;
    while i < count
        invariant
            i <= count == evidence@.len() == observations@.len(),
            run.bytes@ == snapshot_bytes(
                evidence_view(evidence@),
                observed(observations@),
                i as int,
            ),
            texts(run.stale@) == stale_among(
                evidence_view(evidence@),
                observed(observations@),
                i as int,
            ),
            first_interruption(observations@, i as int, count as int) == first_interruption(
                observations@,
                0,
                count as int,
            ),
        decreases count - i,
    {
        assert(evidence_view(evidence@)[i as int] == evidence@[i as int]@);
        assert(observed(observations@)[i as int] == opt_text(observations@[i as int].fingerprint));
        match run.step(&evidence[i], &observations[i]) {
            Ok(_) => {},
            Err(e) => {
                return Err(e);
            },
        }
        i = i + 1;
    }
    Ok(run.finish())
}

/// The paths whose evidence changed, unless the verification was interrupted.
pub fn verify_evidence_until(
    evidence: &Vec<PlanEvidence>,
    observations: &Vec<EvidenceObservation>,
) -> (r: Result<Vec<String>, EvidenceVerificationError>)
    requires
        observations@.len() == evidence@.len(),
    ensures
        match r {
            Err(e) => first_interruption(observations@, 0, evidence@.len() as int) == Some(e),
            Ok(v) => first_interruption(observations@, 0, evidence@.len() as int) is None && texts(
                v@,
            ) == stale_among(
                evidence_view(evidence@),
                observed(observations@),
                evidence@.len() as int,
            ),
        },
{
    match verify_evidence_snapshot_until(evidence, observations) {
        Ok(s) => Ok(s.stale_paths),
        Err(e) => Err(e),
    }
}

/// The paths of all pieces of evidence, in order.
pub open spec fn paths_of(v: Seq<EvidenceView>) -> Seq<Seq<char>> {
    v.map_values(|e: EvidenceView| e.path)
}

/// The paths whose evidence changed; all of them where the verification was
/// interrupted.
pub fn verify_evidence(
    evidence: &Vec<PlanEvidence>,
    observations: &Vec<EvidenceObservation>,
) -> (r: Vec<String>)
    requires
        observations@.len() == evidence@.len(),
    ensures
        texts(r@) == (if first_interruption(observations@, 0, evidence@.len() as int) is None {
            stale_among(
                evidence_view(evidence@),
                observed(observations@),
                evidence@.len() as int,
            )
        } else {
            paths_of(evidence_view(evidence@))
        }),
{
    match verify_evidence_until(evidence, observations) {
        Ok(v) => v,
        Err(_) => {
            let mut out: Vec<String> = Vec::new();
            let mut i: usize = 0;
            while i < evidence.len()
                invariant
                    i <= evidence@.len(),
                    out@.len() == i,
                    forall|j: int| 0 <= j < i ==> (#[trigger] out@[j])@ == evidence@[j].path@,
                decreases evidence@.len() - i,
            {
                out.push(evidence[i].path.clone());
                i = i + 1;
            }
            assert(texts(out@) =~= paths_of(evidence_view(evidence@)));
            out
        },
    }
}

/// A path is reported stale exactly when some piece of evidence on it is gone
/// or has another fingerprint.
pub proof fn law_stale_paths(
    evidence: Seq<EvidenceView>,
    actual: Seq<Option<Seq<char>>>,
    n: int,
    path: Seq<char>,
)
    ensures
        stale_among(evidence, actual, n).contains(path) <==> exists|i: int|
            0 <= i < n && (#[trigger] evidence[i]).path == path && actual[i] != Some(
                evidence[i].fingerprint,
            ),
    decreases n,
{
    if n > 0 {
        law_stale_paths(evidence, actual, n - 1, path);
        lemma_text_placed(stale_among(evidence, actual, n - 1), evidence[n - 1].path);
        if stale_among(evidence, actual, n).contains(path) {
            if !stale_among(evidence, actual, n - 1).contains(path) {
                assert(evidence[n - 1].path == path);
            }
        }
    }
}

} // verus!
