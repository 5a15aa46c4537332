//! Evidence that a plan was based on: merging, reconciling, verifying.

use crate::plan::model::{
    EvidenceView, MAX_PLAN_EVIDENCE, PlanEvidence, PlanEvidenceKind, evidence_view,
};
use crate::text::{
    before, clone_opt, lemma_before_irreflexive, lemma_before_total, lemma_before_transitive,
    owned, same, same_opt, text_before,
};
use vstd::prelude::*;
use vstd::string::*;
use vstd::utf8::encode_utf8;

verus! {

// ---------------------------------------------------------------------------
// Identity
// ---------------------------------------------------------------------------

/// What a piece of evidence is about: its path, and for Git its selector too.
pub open spec fn identity(e: EvidenceView) -> (Seq<char>, Seq<char>) {
    (
        e.path,
        if e.kind is Git && e.selector is Some {
            e.selector->0
        } else {
            Seq::empty()
        },
    )
}

/// The order of identities: by path, then by selector.
pub open spec fn identity_before(a: (Seq<char>, Seq<char>), b: (Seq<char>, Seq<char>)) -> bool {
    text_before(a.0, b.0) || (a.0 == b.0 && text_before(a.1, b.1))
}

/// What the evidence is about.
pub fn evidence_identity(evidence: &PlanEvidence) -> (r: (String, String))
    ensures
        (r.0@, r.1@) == identity(evidence@),
{
    let mut selector = String::new();
    if let PlanEvidenceKind::Git = evidence.kind {
        if let Some(s) = &evidence.selector {
            selector = s.clone();
        }
    }
    (evidence.path.clone(), selector)
}

/// How much of the workspace a kind of evidence takes in.
pub open spec fn scope_of(kind: PlanEvidenceKind) -> u8 {
    match kind {
        PlanEvidenceKind::File | PlanEvidenceKind::Git => 0,
        PlanEvidenceKind::Directory => 1,
        PlanEvidenceKind::DirectoryTree => 2,
    }
}

/// How much of the workspace a kind of evidence takes in.
pub fn evidence_scope(kind: PlanEvidenceKind) -> (r: u8)
    ensures
        r == scope_of(kind),
{
    match kind {
        PlanEvidenceKind::File | PlanEvidenceKind::Git => 0,
        PlanEvidenceKind::Directory => 1,
        PlanEvidenceKind::DirectoryTree => 2,
    }
}

/// Whether evidence is captured for calls of the tool.
pub fn supports_tool_evidence(tool_name: &str) -> (r: bool)
    ensures
        r == (tool_name@ == "read_file"@ || tool_name@ == "view_image"@ || tool_name@
            == "list_dir"@ || tool_name@ == "search_files"@ || tool_name@ == "git_inspect"@),
{
    same(tool_name, "read_file") || same(tool_name, "view_image") || same(tool_name, "list_dir")
        || same(tool_name, "search_files") || same(tool_name, "git_inspect")
}

fn same_identity(a: &PlanEvidence, b: &PlanEvidence) -> (r: bool)
    ensures
        r == (identity(a@) == identity(b@)),
{
    let x = evidence_identity(a);
    let y = evidence_identity(b);
    same(x.0.as_str(), y.0.as_str()) && same(x.1.as_str(), y.1.as_str())
}

fn comes_before(a: &PlanEvidence, b: &PlanEvidence) -> (r: bool)
    ensures
        r == identity_before(identity(a@), identity(b@)),
{
    let x = evidence_identity(a);
    let y = evidence_identity(b);
    before(x.0.as_str(), y.0.as_str()) || (same(x.0.as_str(), y.0.as_str()) && before(
        x.1.as_str(),
        y.1.as_str(),
    ))
}

// ---------------------------------------------------------------------------
// Collections ordered by identity
// ---------------------------------------------------------------------------

/// The identities stand in strictly ascending order, so none occurs twice.
pub open spec fn ascending(v: Seq<EvidenceView>) -> bool {
    forall|i: int, j: int|
        0 <= i < j < v.len() ==> identity_before(
            identity(#[trigger] v[i]),
            identity(#[trigger] v[j]),
        )
}

/// `v` with `e` in the place of its identity.
pub open spec fn placed(v: Seq<EvidenceView>, e: EvidenceView) -> Seq<EvidenceView>
    decreases v.len(),
{
    if v.len() == 0 {
        seq![e]
    } else if identity(v[0]) == identity(e) {
        v.update(0, e)
    } else if identity_before(identity(e), identity(v[0])) {
        seq![e] + v
    } else {
        seq![v[0]] + placed(v.skip(1), e)
    }
}

/// What `v` holds under an identity.
pub open spec fn found(v: Seq<EvidenceView>, id: (Seq<char>, Seq<char>)) -> Option<EvidenceView>
    decreases v.len(),
{
    if v.len() == 0 {
        None
    } else if identity(v[0]) == id {
        Some(v[0])
    } else {
        found(v.skip(1), id)
    }
}

/// The first `n` pieces of `v`, each in the place of its identity, the last
/// one winning.
pub open spec fn collected(v: Seq<EvidenceView>, n: int) -> Seq<EvidenceView>
    decreases n,
{
    if n <= 0 {
        Seq::empty()
    } else {
        placed(collected(v, n - 1), v[n - 1])
    }
}

fn place(v: &mut Vec<PlanEvidence>, e: PlanEvidence)
    ensures
        evidence_view(final(v)@) == placed(evidence_view(old(v)@), e@),
{
    let ghost start = evidence_view(v@);
    let mut i: usize = 0;
    assert(start.skip(0) =~= start);
    assert(start.take(0) + placed(start.skip(0), e@) =~= placed(start, e@));
    while i < v.len()
        invariant
            i <= v@.len(),
            evidence_view(v@) == start,
            v@ == old(v)@,
            start.take(i as int) + placed(start.skip(i as int), e@) == placed(start, e@),
        decreases v@.len() - i,
    {
        let ghost rest = start.skip(i as int);
        let ghost view = e@;
        assert(rest[0] == v@[i as int]@);
        if same_identity(&v[i], &e) {
            v.set(i, e);
            assert(evidence_view(v@) =~= start.update(i as int, view));
            assert(start.take(i as int) + rest.update(0, view) =~= start.update(i as int, view));
            return;
        }
        if comes_before(&e, &v[i]) {
            v.insert(i, e);
            assert(evidence_view(v@) =~= start.insert(i as int, view));
            assert(start.take(i as int) + (seq![view] + rest) =~= start.insert(i as int, view));
            return;
        }
        assert(rest.skip(1) =~= start.skip(i + 1));
        assert(start.take(i as int) + (seq![rest[0]] + placed(rest.skip(1), e@)) =~= start.take(
            i + 1,
        ) + placed(start.skip(i + 1), e@));
        i = i + 1;
    }
    let ghost view = e@;
    v.push(e);
    assert(start.skip(i as int) =~= Seq::<EvidenceView>::empty());
    assert(evidence_view(v@) =~= start.push(view));
    assert(start.take(i as int) + seq![view] =~= start.push(view));
}

fn kind_under_identity(v: &Vec<PlanEvidence>, e: &PlanEvidence) -> (r: Option<PlanEvidenceKind>)
    ensures
        match r {
            Some(k) => found(evidence_view(v@), identity(e@)) is Some && found(
                evidence_view(v@),
                identity(e@),
            )->0.kind == k,
            None => found(evidence_view(v@), identity(e@)) is None,
        },
{
    let mut i: usize = 0;
    assert(evidence_view(v@).skip(0) =~= evidence_view(v@));
    while i < v.len()
        invariant
            i <= v@.len(),
            found(evidence_view(v@).skip(i as int), identity(e@)) == found(
                evidence_view(v@),
                identity(e@),
            ),
        decreases v@.len() - i,
    {
        let ghost rest = evidence_view(v@).skip(i as int);
        assert(rest[0] == v@[i as int]@);
        if same_identity(&v[i], e) {
            return Some(v[i].kind);
        }
        assert(rest.skip(1) =~= evidence_view(v@).skip(i + 1));
        i = i + 1;
    }
    None
}

fn collect(v: &Vec<PlanEvidence>) -> (r: Vec<PlanEvidence>)
    ensures
        evidence_view(r@) == collected(evidence_view(v@), v@.len() as int),
{
    let mut r: Vec<PlanEvidence> = Vec::new();
    let mut i: usize = 0;
    assert(evidence_view(r@) =~= collected(evidence_view(v@), 0));
    while i < v.len()
        invariant
            i <= v@.len(),
            evidence_view(r@) == collected(evidence_view(v@), i as int),
        decreases v@.len() - i,
    {
        assert(evidence_view(v@)[i as int] == v@[i as int]@);
        place(&mut r, v[i].copy());
        i = i + 1;
    }
    r
}

/// What was collected after the first `n` incoming pieces, and whether one of
/// them found no room. A piece does not replace one of the same identity that
/// takes in more of the workspace.
pub open spec fn merged(start: Seq<EvidenceView>, incoming: Seq<EvidenceView>, n: int) -> (
    Seq<EvidenceView>,
    bool,
)
    decreases n,
{
    if n <= 0 {
        (start, false)
    } else {
        let (v, truncated) = merged(start, incoming, n - 1);
        let e = incoming[n - 1];
        let previous = found(v, identity(e));
        if previous is Some && scope_of(previous->0.kind) > scope_of(e.kind) {
            (v, truncated)
        } else if previous is Some || v.len() < MAX_PLAN_EVIDENCE {
            (placed(v, e), truncated)
        } else {
            (v, true)
        }
    }
}

/// Merges new evidence into what a plan has, ordered by identity. Returns
/// whether some of it found no room.
pub fn merge_evidence(existing: &mut Vec<PlanEvidence>, incoming: Vec<PlanEvidence>) -> (r: bool)
    ensures
        (evidence_view(final(existing)@), r) == merged(
            collected(evidence_view(old(existing)@), old(existing)@.len() as int),
            evidence_view(incoming@),
            incoming@.len() as int,
        ),
{
    let mut by_identity = collect(existing);
    let ghost start = evidence_view(by_identity@);
    let mut truncated: bool = false;
    let mut n: usize = 0;
    while n < incoming.len()
        invariant
            n <= incoming@.len(),
            (evidence_view(by_identity@), truncated) == merged(
                start,
                evidence_view(incoming@),
                n as int,
            ),
        decreases incoming@.len() - n,
    {
        let e = &incoming[n];
        assert(evidence_view(incoming@)[n as int] == e@);
        let ghost whole = merged(start, evidence_view(incoming@), n + 1);
        match kind_under_identity(&by_identity, e) {
            Some(kind) => {
                if evidence_scope(kind) <= evidence_scope(e.kind) {
                    place(&mut by_identity, e.copy());
                }
            },
            None => {
                if by_identity.len() < MAX_PLAN_EVIDENCE {
                    place(&mut by_identity, e.copy());
                } else {
                    truncated = true;
                }
            },
        }
        n = n + 1;
    }
    *existing = by_identity;
    truncated
}

/// A piece of evidence whose fingerprint can never be verified.
pub open spec fn unstable(e: EvidenceView) -> EvidenceView {
    EvidenceView { fingerprint: "unstable"@, ..e }
}

/// What `start` holds after the first `n` pieces of `v` were put in place.
pub open spec fn placed_all(start: Seq<EvidenceView>, v: Seq<EvidenceView>, n: int) -> Seq<
    EvidenceView,
>
    decreases n,
{
    if n <= 0 {
        start
    } else {
        placed(placed_all(start, v, n - 1), v[n - 1])
    }
}

/// What two snapshots around a tool call amount to: the second where nothing
/// changed, else everything seen, marked so that it can never be verified.
pub open spec fn reconciled(before: Seq<EvidenceView>, after: Seq<EvidenceView>) -> Seq<
    EvidenceView,
> {
    let b = collected(before, before.len() as int);
    let a = collected(after, after.len() as int);
    if b == a {
        a
    } else {
        placed_all(b, a, a.len() as int).map_values(|e: EvidenceView| unstable(e))
    }
}

fn same_evidence(a: &PlanEvidence, b: &PlanEvidence) -> (r: bool)
    ensures
        r == (a@ == b@),
{
    let r = same(a.path.as_str(), b.path.as_str()) && a.kind == b.kind && same(
        a.fingerprint.as_str(),
        b.fingerprint.as_str(),
    ) && same_opt(&a.selector, &b.selector);
    assert(r ==> a@ =~= b@);
    r
}

fn same_evidence_list(a: &Vec<PlanEvidence>, b: &Vec<PlanEvidence>) -> (r: bool)
    ensures
        r == (evidence_view(a@) == evidence_view(b@)),
{
    if a.len() != b.len() {
        assert(evidence_view(a@).len() != evidence_view(b@).len());
        return false;
    }
    let mut i: usize = 0;
    while i < a.len()
        invariant
            i <= a@.len() == b@.len(),
            forall|j: int| 0 <= j < i ==> (#[trigger] a@[j])@ == b@[j]@,
        decreases a@.len() - i,
    {
        if !same_evidence(&a[i], &b[i]) {
            assert(evidence_view(a@)[i as int] != evidence_view(b@)[i as int]);
            return false;
        }
        i = i + 1;
    }
    assert(evidence_view(a@) =~= evidence_view(b@));
    true
}

/// Reconciles snapshots taken immediately before and after a read-only tool.
/// A changed snapshot is kept with a fingerprint that cannot be verified, so
/// that the plan has to be refreshed instead of pairing the observation with a
/// later state.
pub fn reconcile_tool_evidence(before: Vec<PlanEvidence>, after: Vec<PlanEvidence>) -> (r: Vec<
    PlanEvidence,
>)
    ensures
        evidence_view(r@) == reconciled(evidence_view(before@), evidence_view(after@)),
{
    let b = collect(&before);
    let a = collect(&after);
    if same_evidence_list(&b, &a) {
        return a;
    }
    let ghost start = evidence_view(b@);
    let mut combined = b;
    let mut i: usize = 0;
    while i < a.len()
        invariant
            i <= a@.len(),
            evidence_view(combined@) == placed_all(start, evidence_view(a@), i as int),
        decreases a@.len() - i,
    {
        assert(evidence_view(a@)[i as int] == a@[i as int]@);
        place(&mut combined, a[i].copy());
        i = i + 1;
    }
    let ghost all = evidence_view(combined@);
    let mut out: Vec<PlanEvidence> = Vec::new();
    let mut k: usize = 0;
    while k < combined.len()
        invariant
            k <= combined@.len(),
            all == evidence_view(combined@),
            out@.len() == k,
            forall|j: int| 0 <= j < k ==> (#[trigger] out@[j])@ == unstable(all[j]),
        decreases combined@.len() - k,
    {
        let e = &combined[k];
        assert(all[k as int] == e@);
        out.push(
            PlanEvidence {
                path: e.path.clone(),
                kind: e.kind,
                fingerprint: owned("unstable"),
                selector: clone_opt(&e.selector),
            },
        );
        assert(out@[k as int]@ =~= unstable(all[k as int]));
        k = k + 1;
    }
    assert(evidence_view(out@) =~= all.map_values(|e: EvidenceView| unstable(e)));
    out
}

// ---------------------------------------------------------------------------
// Laws
// ---------------------------------------------------------------------------

proof fn lemma_identity_order(
    a: (Seq<char>, Seq<char>),
    b: (Seq<char>, Seq<char>),
    c: (Seq<char>, Seq<char>),
)
    ensures
        !identity_before(a, a),
        identity_before(a, b) && identity_before(b, c) ==> identity_before(a, c),
        a == b || identity_before(a, b) || identity_before(b, a),
{
    lemma_before_irreflexive(a.0);
    lemma_before_irreflexive(a.1);
    lemma_before_total(a.0, b.0);
    lemma_before_total(a.1, b.1);
    if text_before(a.0, b.0) && text_before(b.0, c.0) {
        lemma_before_transitive(a.0, b.0, c.0);
    }
    if text_before(a.1, b.1) && text_before(b.1, c.1) {
        lemma_before_transitive(a.1, b.1, c.1);
    }
}

proof fn lemma_placed_members(v: Seq<EvidenceView>, e: EvidenceView)
    ensures
        forall|i: int|
            0 <= i < placed(v, e).len() ==> #[trigger] placed(v, e)[i] == e || v.contains(
                placed(v, e)[i],
            ),
        v.len() <= placed(v, e).len() <= v.len() + 1,
        placed(v, e).contains(e),
    decreases v.len(),
{
    let p = placed(v, e);
    if v.len() == 0 {
        assert(p[0] == e);
    } else if identity(v[0]) == identity(e) {
        assert(p[0] == e);
        assert forall|i: int| 0 <= i < p.len() implies #[trigger] p[i] == e || v.contains(p[i]) by {
            if i > 0 {
                assert(v[i] == p[i]);
            }
        }
    } else if identity_before(identity(e), identity(v[0])) {
        assert(p[0] == e);
        assert forall|i: int| 0 <= i < p.len() implies #[trigger] p[i] == e || v.contains(p[i]) by {
            if i > 0 {
                assert(v[i - 1] == p[i]);
            }
        }
    } else {
        lemma_placed_members(v.skip(1), e);
        let q = placed(v.skip(1), e);
        assert forall|i: int| 0 <= i < p.len() implies #[trigger] p[i] == e || v.contains(p[i]) by {
            if i == 0 {
                assert(v[0] == p[0]);
            } else {
                assert(q[i - 1] == p[i]);
                if q[i - 1] != e {
                    let k = choose|k: int| 0 <= k < v.skip(1).len() && v.skip(1)[k] == q[i - 1];
                    assert(v[k + 1] == p[i]);
                }
            }
        }
        let k = choose|k: int| 0 <= k < q.len() && q[k] == e;
        assert(p[k + 1] == e);
    }
}

/// Putting a piece in place keeps the order of identities, so that no identity
/// occurs twice.
pub proof fn law_placed_ascending(v: Seq<EvidenceView>, e: EvidenceView)
    requires
        ascending(v),
    ensures
        ascending(placed(v, e)),
    decreases v.len(),
{
    let p = placed(v, e);
    if v.len() == 0 {
    } else if identity(v[0]) == identity(e) {
        assert forall|i: int, j: int| 0 <= i < j < p.len() implies identity_before(
            identity(#[trigger] p[i]),
            identity(#[trigger] p[j]),
        ) by {
            assert(identity(p[i]) == identity(v[i]));
            assert(identity(p[j]) == identity(v[j]));
        }
    } else if identity_before(identity(e), identity(v[0])) {
        assert forall|i: int, j: int| 0 <= i < j < p.len() implies identity_before(
            identity(#[trigger] p[i]),
            identity(#[trigger] p[j]),
        ) by {
            assert(p[j] == v[j - 1]);
            if i == 0 {
                if j > 1 {
                    assert(identity_before(identity(v[0]), identity(v[j - 1])));
                }
                lemma_identity_order(identity(e), identity(v[0]), identity(v[j - 1]));
            } else {
                assert(p[i] == v[i - 1]);
            }
        }
    } else {
        let rest = v.skip(1);
        assert forall|i: int, j: int| 0 <= i < j < rest.len() implies identity_before(
            identity(#[trigger] rest[i]),
            identity(#[trigger] rest[j]),
        ) by {
            assert(rest[i] == v[i + 1]);
            assert(rest[j] == v[j + 1]);
        }
        law_placed_ascending(rest, e);
        lemma_placed_members(rest, e);
        let q = placed(rest, e);
        lemma_identity_order(identity(v[0]), identity(e), identity(e));
        assert forall|i: int, j: int| 0 <= i < j < p.len() implies identity_before(
            identity(#[trigger] p[i]),
            identity(#[trigger] p[j]),
        ) by {
            assert(p[j] == q[j - 1]);
            if i == 0 {
                if q[j - 1] != e {
                    let k = choose|k: int| 0 <= k < rest.len() && rest[k] == q[j - 1];
                    assert(v[k + 1] == p[j]);
                }
            } else {
                assert(p[i] == q[i - 1]);
            }
        }
    }
}

/// Whatever order pieces come in, what is collected from them is ordered by
/// identity and holds no identity twice.
pub proof fn law_collected_ascending(v: Seq<EvidenceView>, n: int)
    ensures
        ascending(collected(v, n)),
    decreases n,
{
    if n > 0 {
        law_collected_ascending(v, n - 1);
        law_placed_ascending(collected(v, n - 1), v[n - 1]);
    }
}

proof fn lemma_placed_len(v: Seq<EvidenceView>, e: EvidenceView)
    ensures
        found(v, identity(e)) is Some && ascending(v) ==> placed(v, e).len() == v.len(),
        placed(v, e).len() <= v.len() + 1,
    decreases v.len(),
{
    if v.len() == 0 {
    } else if identity(v[0]) == identity(e) {
    } else if identity_before(identity(e), identity(v[0])) {
        if ascending(v) {
            lemma_found_member(v.skip(1), identity(e));
            if found(v, identity(e)) is Some {
                let k = choose|k: int|
                    0 <= k < v.skip(1).len() && identity(#[trigger] v.skip(1)[k]) == identity(e);
                assert(identity(v[k + 1]) == identity(e));
                assert(identity_before(identity(v[0]), identity(v[k + 1])));
                lemma_identity_order(identity(e), identity(v[0]), identity(e));
            }
        }
    } else {
        assert(ascending(v) ==> ascending(v.skip(1))) by {
            if ascending(v) {
                let rest = v.skip(1);
                assert forall|i: int, j: int| 0 <= i < j < rest.len() implies identity_before(
                    identity(#[trigger] rest[i]),
                    identity(#[trigger] rest[j]),
                ) by {
                    assert(rest[i] == v[i + 1]);
                    assert(rest[j] == v[j + 1]);
                }
            }
        }
        lemma_placed_len(v.skip(1), e);
    }
}

proof fn lemma_found_member(v: Seq<EvidenceView>, id: (Seq<char>, Seq<char>))
    ensures
        found(v, id) is Some ==> exists|k: int|
            0 <= k < v.len() && identity(#[trigger] v[k]) == id,
    decreases v.len(),
{
    if v.len() > 0 {
        if identity(v[0]) == id {
        } else {
            lemma_found_member(v.skip(1), id);
            if found(v.skip(1), id) is Some {
                let k = choose|k: int|
                    0 <= k < v.skip(1).len() && identity(#[trigger] v.skip(1)[k]) == id;
                assert(identity(v[k + 1]) == id);
            }
        }
    }
}

/// Merging keeps the order of identities and never takes a collection over the
/// limit.
pub proof fn law_merged_bounded(start: Seq<EvidenceView>, incoming: Seq<EvidenceView>, n: int)
    requires
        ascending(start),
        start.len() <= MAX_PLAN_EVIDENCE,
    ensures
        ascending(merged(start, incoming, n).0),
        merged(start, incoming, n).0.len() <= MAX_PLAN_EVIDENCE,
    decreases n,
{
    if n > 0 {
        law_merged_bounded(start, incoming, n - 1);
        let v = merged(start, incoming, n - 1).0;
        law_placed_ascending(v, incoming[n - 1]);
        lemma_placed_len(v, incoming[n - 1]);
    }
}

proof fn lemma_found_after_placed(
    v: Seq<EvidenceView>,
    e: EvidenceView,
    id: (Seq<char>, Seq<char>),
)
    ensures
        found(placed(v, e), identity(e)) == Some(e),
        id != identity(e) ==> found(placed(v, e), id) == found(v, id),
    decreases v.len(),
{
    reveal_with_fuel(found, 3);
    let p = placed(v, e);
    if v.len() == 0 {
        assert(p.skip(1) =~= Seq::<EvidenceView>::empty());
    } else if identity(v[0]) == identity(e) {
        assert(p.skip(1) =~= v.skip(1));
    } else if identity_before(identity(e), identity(v[0])) {
        assert(p.skip(1) =~= v);
    } else {
        assert(p.skip(1) =~= placed(v.skip(1), e));
        lemma_found_after_placed(v.skip(1), e, id);
    }
}

/// Merging never narrows what is known under an identity: the scope of the
/// evidence there only grows, and nothing is dropped.
pub proof fn law_merge_keeps_wider_scope(
    start: Seq<EvidenceView>,
    incoming: Seq<EvidenceView>,
    n: int,
    id: (Seq<char>, Seq<char>),
)
    requires
        found(start, id) is Some,
    ensures
        found(merged(start, incoming, n).0, id) is Some,
        scope_of(found(merged(start, incoming, n).0, id)->0.kind) >= scope_of(
            found(start, id)->0.kind,
        ),
    decreases n,
{
    if n > 0 {
        law_merge_keeps_wider_scope(start, incoming, n - 1, id);
        let v = merged(start, incoming, n - 1).0;
        lemma_found_after_placed(v, incoming[n - 1], id);
    }
}

/// Two equal snapshots are reconciled to what they hold, unmarked; after two
/// different ones every piece is marked as unstable.
pub proof fn law_reconciled(before: Seq<EvidenceView>, after: Seq<EvidenceView>)
    ensures
        before == after ==> reconciled(before, after) == collected(after, after.len() as int),
        collected(before, before.len() as int) != collected(after, after.len() as int)
            ==> forall|i: int|
            0 <= i < reconciled(before, after).len() ==> (#[trigger] reconciled(
                before,
                after,
            )[i]).fingerprint == "unstable"@,
{
}

} // verus!
