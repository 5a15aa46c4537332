//! Fingerprints of files, directories and directory trees, from what was read
//! of them.

use crate::digest::{le_bytes, push_bytes, push_le, push_text, sha256, sha256_hex};
use crate::plan::model::{MAX_EVIDENCE_HASH_FILE_BYTES, MAX_EVIDENCE_HASH_TOTAL_BYTES};
use crate::text::{
    before, chars_of, lemma_before_total, lemma_before_transitive, same, text_before,
};
use vstd::prelude::*;
use vstd::string::*;
use vstd::utf8::encode_utf8;

verus! {

/// The length of a file and, where it is known, the time of its last change in
/// nanoseconds since 1970.
#[derive(Clone, Copy, Debug, PartialEq, Eq, Structural)]
pub struct FileFacts {
    pub len: u64,
    pub modified: Option<u128>,
}

/// What the facts on a file add to a fingerprint.
pub open spec fn facts_bytes(f: FileFacts) -> Seq<u8> {
    le_bytes(f.len as nat, 8) + (match f.modified {
        Some(n) => le_bytes(n as nat, 16),
        None => Seq::empty(),
    })
}

fn push_facts(out: &mut Vec<u8>, f: FileFacts)
    ensures
        final(out)@ == old(out)@ + facts_bytes(f),
{
    let ghost start = out@;
    push_le(out, f.len as u128, 8);
    if let Some(n) = f.modified {
        push_le(out, n, 16);
    }
    assert(out@ =~= start + facts_bytes(f));
}

// ---------------------------------------------------------------------------
// File contents
// ---------------------------------------------------------------------------

/// How much of a file goes into its fingerprint.
#[derive(Clone, Copy, Debug, PartialEq, Eq, Structural)]
pub enum SamplePlan {
    /// Nothing: the budget is used up, or the file is empty.
    Nothing,
    /// All of it.
    Whole { bytes: u64 },
    /// A beginning and an end.
    Sampled { prefix: u64, suffix: u64 },
}

/// The number of bytes of a file that may be read.
pub open spec fn content_budget(file_len: u64, max_file_bytes: u64, remaining: u64) -> u64 {
    let a = if file_len <= max_file_bytes {
        file_len
    } else {
        max_file_bytes
    };
    if a <= remaining {
        a
    } else {
        remaining
    }
}

/// How much of a file goes into its fingerprint, given the limit per file and
/// what is left of the budget.
pub open spec fn sample_plan_of(file_len: u64, max_file_bytes: u64, remaining: u64) -> SamplePlan {
    let budget = content_budget(file_len, max_file_bytes, remaining);
    if budget == 0 {
        SamplePlan::Nothing
    } else if file_len <= budget {
        SamplePlan::Whole { bytes: budget }
    } else {
        SamplePlan::Sampled { prefix: ((budget + 1) / 2) as u64, suffix: (budget / 2) as u64 }
    }
}

/// How much of a file goes into its fingerprint, what is left of the budget
/// afterwards, and whether something of the file is left out.
pub fn plan_sample(file_len: u64, max_file_bytes: u64, remaining: u64) -> (r: (
    SamplePlan,
    u64,
    bool,
))
    ensures
        r.0 == sample_plan_of(file_len, max_file_bytes, remaining),
        r.1 == remaining - content_budget(file_len, max_file_bytes, remaining),
        r.2 == (content_budget(file_len, max_file_bytes, remaining) < file_len),
{
    let mut budget: u64 = file_len;
    if max_file_bytes < budget {
        budget = max_file_bytes;
    }
    if remaining < budget {
        budget = remaining;
    }
    if budget == 0 {
        return (SamplePlan::Nothing, remaining, file_len > 0);
    }
    let plan = if file_len <= budget {
        SamplePlan::Whole { bytes: budget }
    } else {
        SamplePlan::Sampled { prefix: budget / 2 + budget % 2, suffix: budget / 2 }
    };
    (plan, remaining - budget, budget < file_len)
}

/// What was read of a file under a plan: its beginning and, where a sample was
/// taken, its end.
#[derive(Debug, PartialEq, Eq)]
pub enum FileRead {
    /// The file could not be opened.
    Unopened,
    /// Reading broke off. `head` was read before that and, where the end was
    /// reached for, `end`.
    Failed { head: Vec<u8>, end: Option<Vec<u8>>, error: String },
    /// Everything asked for was read, or the file ended.
    Read { head: Vec<u8>, tail: Vec<u8> },
}

/// What the content of a file adds to a fingerprint.
pub open spec fn content_bytes(plan: SamplePlan, head: Seq<u8>, tail: Seq<u8>) -> Seq<u8> {
    match plan {
        SamplePlan::Nothing => encode_utf8("content-budget-exhausted"@),
        SamplePlan::Whole { bytes } => head,
        SamplePlan::Sampled { prefix, suffix } => encode_utf8("sampled-prefix"@) + head + (
        if suffix > 0 {
            encode_utf8("sampled-suffix"@) + tail
        } else {
            Seq::empty()
        }) + encode_utf8("content-sampled"@),
    }
}

/// What the content of a file adds to a fingerprint where reading broke off.
pub open spec fn broken_bytes(plan: SamplePlan, head: Seq<u8>, tail: Option<Seq<u8>>) -> Seq<u8> {
    (if plan is Sampled {
        encode_utf8("sampled-prefix"@)
    } else {
        Seq::empty()
    }) + head + (match tail {
        Some(t) => encode_utf8("sampled-suffix"@) + t,
        None => Seq::empty(),
    })
}

fn push_broken(out: &mut Vec<u8>, plan: SamplePlan, head: &Vec<u8>, tail: &Option<Vec<u8>>)
    ensures
        final(out)@ == old(out)@ + broken_bytes(
            plan,
            head@,
            match *tail {
                Some(t) => Some(t@),
                None => None,
            },
        ),
{
    let ghost start = out@;
    if let SamplePlan::Sampled { .. } = plan {
        push_text(out, "sampled-prefix");
    }
    push_bytes(out, head.as_slice());
    if let Some(t) = tail {
        push_text(out, "sampled-suffix");
        push_bytes(out, t.as_slice());
    }
    assert(out@ =~= start + broken_bytes(
        plan,
        head@,
        match *tail {
            Some(t) => Some(t@),
            None => None,
        },
    ));
}

fn push_content(out: &mut Vec<u8>, plan: SamplePlan, head: &Vec<u8>, tail: &Vec<u8>)
    ensures
        final(out)@ == old(out)@ + content_bytes(plan, head@, tail@),
{
    let ghost start = out@;
    match plan {
        SamplePlan::Nothing => {
            push_text(out, "content-budget-exhausted");
        },
        SamplePlan::Whole { bytes } => {
            push_bytes(out, head.as_slice());
        },
        SamplePlan::Sampled { prefix, suffix } => {
            push_text(out, "sampled-prefix");
            push_bytes(out, head.as_slice());
            if suffix > 0 {
                push_text(out, "sampled-suffix");
                push_bytes(out, tail.as_slice());
            }
            push_text(out, "content-sampled");
        },
    }
    assert(out@ =~= start + content_bytes(plan, head@, tail@));
}

/// The fingerprint of one file and whether it leaves something out. `head` and
/// `tail` are what was read under the plan for a file of this length.
pub fn file_fingerprint(facts: FileFacts, head: &Vec<u8>, tail: &Vec<u8>) -> (r: (String, bool))
    ensures
        ({
            let m = MAX_EVIDENCE_HASH_FILE_BYTES;
            &&& r.0@ == sha256_hex(
                facts_bytes(facts) + content_bytes(
                    sample_plan_of(facts.len, m, m),
                    head@,
                    tail@,
                ),
            )
            &&& r.1 == (facts.len > m)
        }),
{
    let (plan, _, truncated) = plan_sample(
        facts.len,
        MAX_EVIDENCE_HASH_FILE_BYTES,
        MAX_EVIDENCE_HASH_FILE_BYTES,
    );
    let mut out: Vec<u8> = Vec::new();
    push_facts(&mut out, facts);
    push_content(&mut out, plan, head, tail);
    assert(out@ =~= facts_bytes(facts) + content_bytes(plan, head@, tail@));
    (sha256(out.as_slice()), truncated)
}

// ---------------------------------------------------------------------------
// Directories
// ---------------------------------------------------------------------------

/// What an entry of a directory is.
#[derive(Clone, Copy, Debug, PartialEq, Eq, Structural)]
pub enum EntryKind {
    Directory,
    File,
    LinkOrReparse,
    Other,
    Missing,
}

/// The letter of a kind of entry.
pub open spec fn kind_byte(k: EntryKind) -> u8 {
    match k {
        EntryKind::Directory => 100,
        EntryKind::File => 102,
        EntryKind::LinkOrReparse => 115,
        EntryKind::Other | EntryKind::Missing => 111,
    }
}

/// An entry of a directory.
#[derive(Debug, PartialEq, Eq)]
pub struct DirectoryEntry {
    pub name: String,
    pub kind: EntryKind,
    pub facts: Option<FileFacts>,
}

#[verifier::ext_equal]
pub struct EntryView {
    pub name: Seq<char>,
    pub kind: EntryKind,
    pub facts: Option<FileFacts>,
}

impl DirectoryEntry {
    pub open spec fn view(self) -> EntryView {
        EntryView { name: self.name@, kind: self.kind, facts: self.facts }
    }
}

/// The entries of a directory.
pub open spec fn directory_view(v: Seq<DirectoryEntry>) -> Seq<EntryView> {
    v.map_values(|e: DirectoryEntry| e@)
}

/// What an entry adds to the fingerprint of its directory.
pub open spec fn entry_bytes(e: EntryView) -> Seq<u8> {
    encode_utf8(e.name) + seq![kind_byte(e.kind)] + (match e.facts {
        Some(f) => facts_bytes(f),
        None => le_bytes(0, 8),
    })
}

/// What the first `n` entries add to the fingerprint.
pub open spec fn listing_bytes(v: Seq<EntryView>, n: int) -> Seq<u8>
    decreases n,
{
    if n <= 0 {
        Seq::empty()
    } else {
        listing_bytes(v, n - 1) + entry_bytes(v[n - 1])
    }
}

fn push_entry(out: &mut Vec<u8>, e: &DirectoryEntry)
    ensures
        final(out)@ == old(out)@ + entry_bytes(e@),
{
    let ghost start = out@;
    push_text(out, e.name.as_str());
    out.push(
        match e.kind {
            EntryKind::Directory => 100,
            EntryKind::File => 102,
            EntryKind::LinkOrReparse => 115,
            EntryKind::Other | EntryKind::Missing => 111,
        },
    );
    let ghost middle = out@;
    assert(middle =~= start + (encode_utf8(e.name@) + seq![kind_byte(e.kind)]));
    match e.facts {
        Some(f) => push_facts(out, f),
        None => push_le(out, 0, 8),
    }
    assert(out@ =~= start + entry_bytes(e@));
}

/// The fingerprint of a directory, from its entries in the order given.
pub fn directory_fingerprint(entries: &Vec<DirectoryEntry>) -> (r: String)
    ensures
        r@ == sha256_hex(listing_bytes(directory_view(entries@), entries@.len() as int)),
{
    let mut out: Vec<u8> = Vec::new();
    let mut i: usize = 0;
    assert(out@ =~= listing_bytes(directory_view(entries@), 0));
    while i < entries.len()
        invariant
            i <= entries@.len(),
            out@ == listing_bytes(directory_view(entries@), i as int),
        decreases entries@.len() - i,
    {
        assert(directory_view(entries@)[i as int] == entries@[i as int]@);
        push_entry(&mut out, &entries[i]);
        i = i + 1;
    }
    sha256(out.as_slice())
}

/// `v` with `e` behind every entry whose name does not come after its own.
pub open spec fn entry_placed(v: Seq<EntryView>, e: EntryView) -> Seq<EntryView>
    decreases v.len(),
{
    if v.len() == 0 {
        seq![e]
    } else if text_before(e.name, v[0].name) {
        seq![e] + v
    } else {
        seq![v[0]] + entry_placed(v.skip(1), e)
    }
}

/// The first `n` entries ordered by name.
pub open spec fn by_name(v: Seq<EntryView>, n: int) -> Seq<EntryView>
    decreases n,
{
    if n <= 0 {
        Seq::empty()
    } else {
        entry_placed(by_name(v, n - 1), v[n - 1])
    }
}

/// No entry has a name that comes before that of an earlier one.
pub open spec fn ascending(v: Seq<EntryView>) -> bool {
    forall|i: int, j: int|
        0 <= i < j < v.len() ==> !text_before((#[trigger] v[j]).name, (#[trigger] v[i]).name)
}

/// Where an entry is placed: behind those that it does not come before.
proof fn lemma_entry_placed(v: Seq<EntryView>, e: EntryView, i: int)
    requires
        0 <= i <= v.len(),
        forall|k: int| 0 <= k < i ==> !text_before(e.name, (#[trigger] v[k]).name),
        i < v.len() ==> text_before(e.name, v[i].name),
    ensures
        entry_placed(v, e) == v.insert(i, e),
    decreases v.len(),
{
    if v.len() == 0 {
        assert(v.insert(0, e) =~= seq![e]);
    } else if i == 0 {
        assert(v.insert(0, e) =~= seq![e] + v);
    } else {
        assert(!text_before(e.name, v[0].name));
        let rest = v.skip(1);
        assert forall|k: int| 0 <= k < i - 1 implies !text_before(
            e.name,
            (#[trigger] rest[k]).name,
        ) by {
            assert(rest[k] == v[k + 1]);
        }
        lemma_entry_placed(rest, e, i - 1);
        assert(v.insert(i, e) =~= seq![v[0]] + rest.insert(i - 1, e));
    }
}

/// In an ascending list, what an entry does not come before comes first.
proof fn lemma_place_found(v: Seq<EntryView>, e: EntryView, i: int)
    requires
        ascending(v),
        0 <= i <= v.len(),
        i > 0 ==> !text_before(e.name, v[i - 1].name),
        forall|k: int| i <= k < v.len() ==> text_before(e.name, (#[trigger] v[k]).name),
    ensures
        forall|k: int| 0 <= k < i ==> !text_before(e.name, (#[trigger] v[k]).name),
        ascending(v.insert(i, e)),
{
    assert forall|k: int| 0 <= k < i implies !text_before(e.name, (#[trigger] v[k]).name) by {
        if k < i - 1 && text_before(e.name, v[k].name) {
            assert(!text_before(v[i - 1].name, v[k].name));
            lemma_before_total(v[i - 1].name, v[k].name);
            if text_before(v[k].name, v[i - 1].name) {
                lemma_before_transitive(e.name, v[k].name, v[i - 1].name);
            }
        }
    }
    let r = v.insert(i, e);
    assert forall|x: int, y: int| 0 <= x < y < r.len() implies !text_before(
        (#[trigger] r[y]).name,
        (#[trigger] r[x]).name,
    ) by {
        let at = |n: int|
            if n < i {
                n
            } else {
                n - 1
            };
        if x != i && y != i {
            assert(r[x] == v[at(x)] && r[y] == v[at(y)]);
            assert(!text_before(v[at(y)].name, v[at(x)].name));
        } else if y == i {
            assert(r[x] == v[x]);
        } else {
            assert(r[y] == v[y - 1]);
            lemma_before_total(e.name, v[y - 1].name);
        }
    }
}

/// The entries that are hashed stand in ascending order of their names.
pub proof fn law_listing_ascending(v: Seq<EntryView>, n: int)
    requires
        0 <= n <= v.len(),
    ensures
        ascending(by_name(v, n)),
        by_name(v, n).len() == n,
    decreases n,
{
    if n > 0 {
        law_listing_ascending(v, n - 1);
        lemma_stays_ascending(by_name(v, n - 1), v[n - 1], n - 1);
    }
}

/// Placing an entry keeps a list ascending. Behind the `i`-th place every entry
/// comes after it.
proof fn lemma_stays_ascending(v: Seq<EntryView>, e: EntryView, i: int)
    requires
        ascending(v),
        0 <= i <= v.len(),
        forall|k: int| i <= k < v.len() ==> text_before(e.name, (#[trigger] v[k]).name),
    ensures
        ascending(entry_placed(v, e)),
        entry_placed(v, e).len() == v.len() + 1,
    decreases i,
{
    if i > 0 && text_before(e.name, v[i - 1].name) {
        lemma_stays_ascending(v, e, i - 1);
    } else {
        lemma_place_found(v, e, i);
        lemma_entry_placed(v, e, i);
    }
}

/// Placing an entry adds it to the others.
proof fn lemma_placed_members(v: Seq<EntryView>, e: EntryView)
    ensures
        entry_placed(v, e).to_multiset() == v.to_multiset().insert(e),
    decreases v.len(),
{
    broadcast use vstd::seq_lib::group_to_multiset_ensures;

    let single = Seq::<EntryView>::empty().push(e);
    assert(single =~= seq![e]);
    assert(single.to_multiset() =~= Seq::<EntryView>::empty().to_multiset().insert(e));
    if v.len() == 0 {
        assert(v =~= Seq::<EntryView>::empty());
    } else if text_before(e.name, v[0].name) {
        vstd::seq_lib::lemma_multiset_commutative(seq![e], v);
        assert(entry_placed(v, e).to_multiset() =~= v.to_multiset().insert(e));
    } else {
        lemma_placed_members(v.skip(1), e);
        let first = seq![v[0]];
        vstd::seq_lib::lemma_multiset_commutative(first, entry_placed(v.skip(1), e));
        vstd::seq_lib::lemma_multiset_commutative(first, v.skip(1));
        assert(first + v.skip(1) =~= v);
        assert(entry_placed(v, e).to_multiset() =~= v.to_multiset().insert(e));
    }
}

proof fn lemma_by_name_members(v: Seq<EntryView>, n: int)
    requires
        0 <= n <= v.len(),
    ensures
        by_name(v, n).to_multiset() == v.take(n).to_multiset(),
    decreases n,
{
    broadcast use vstd::seq_lib::group_to_multiset_ensures;

    if n > 0 {
        lemma_by_name_members(v, n - 1);
        lemma_placed_members(by_name(v, n - 1), v[n - 1]);
        assert(v.take(n) =~= v.take(n - 1).push(v[n - 1]));
    } else {
        assert(v.take(0) =~= Seq::<EntryView>::empty());
    }
}

/// No two entries have the same name.
pub open spec fn names_differ(v: Seq<EntryView>) -> bool {
    forall|i: int, j: int|
        0 <= i < j < v.len() ==> (#[trigger] v[i]).name != (#[trigger] v[j]).name
}

proof fn lemma_names_differ(v: Seq<EntryView>, w: Seq<EntryView>)
    requires
        names_differ(v),
        v.to_multiset() == w.to_multiset(),
    ensures
        names_differ(w),
{
    broadcast use vstd::seq_lib::group_to_multiset_ensures;

    assert forall|i: int, j: int| 0 <= i < j < w.len() implies (#[trigger] w[i]).name != (
    #[trigger] w[j]).name by {
        if w[i].name == w[j].name {
            let a = w[i];
            let b = w[j];
            assert(w.contains(a) && w.contains(b));
            assert(w.to_multiset().count(a) > 0 && w.to_multiset().count(b) > 0);
            assert(v.contains(a) && v.contains(b));
            let x = choose|x: int| 0 <= x < v.len() && v[x] == a;
            let y = choose|y: int| 0 <= y < v.len() && v[y] == b;
            if x != y {
                assert(v[x].name != v[y].name);
            }
            assert(a == b);
            assert(w.remove(i).to_multiset() == w.to_multiset().remove(a));
            assert(w.remove(i)[j - 1] == a);
            assert(w.remove(i).contains(a));
            assert(w.to_multiset().remove(a).count(a) > 0);
            assert(v.remove(x).to_multiset() == v.to_multiset().remove(a));
            assert(v.remove(x).contains(a));
            let z = choose|z: int| 0 <= z < v.remove(x).len() && v.remove(x)[z] == a;
            if z < x {
                assert(v[z] == a);
            } else {
                assert(v[z + 1] == a);
            }
        }
    }
}

/// Ascending lists of the same entries, all with names of their own, are equal.
proof fn lemma_ascending_unique(s: Seq<EntryView>, t: Seq<EntryView>)
    requires
        ascending(s),
        ascending(t),
        names_differ(s),
        names_differ(t),
        s.to_multiset() == t.to_multiset(),
    ensures
        s == t,
    decreases s.len(),
{
    broadcast use vstd::seq_lib::group_to_multiset_ensures;

    assert(s.to_multiset().len() == s.len() && t.to_multiset().len() == t.len());
    if s.len() == 0 {
        assert(s =~= t);
    } else {
        let n = s.len() - 1;
        assert(s.contains(s[n]) && t.contains(t[n]));
        assert(s.to_multiset().count(s[n]) > 0 && t.to_multiset().count(t[n]) > 0);
        assert(t.contains(s[n]) && s.contains(t[n]));
        let k = choose|k: int| 0 <= k < t.len() && t[k] == s[n];
        let m = choose|m: int| 0 <= m < s.len() && s[m] == t[n];
        if k != n {
            assert(m != n);
            assert(!text_before(t[n].name, t[k].name));
            assert(!text_before(s[n].name, s[m].name));
            lemma_before_total(s[n].name, t[n].name);
            assert(s[m].name == s[n].name);
        }
        assert(s.remove(n) =~= s.drop_last() && t.remove(n) =~= t.drop_last());
        lemma_ascending_unique(s.drop_last(), t.drop_last());
        assert(s =~= s.drop_last().push(s[n]));
        assert(t =~= t.drop_last().push(t[n]));
    }
}

/// The fingerprint of a directory does not depend on the order in which its
/// entries, which all have names of their own, are listed.
pub proof fn law_listing_order_does_not_matter(v: Seq<EntryView>, w: Seq<EntryView>)
    requires
        names_differ(v),
        v.to_multiset() == w.to_multiset(),
    ensures
        sorted_listing_digest(v) == sorted_listing_digest(w),
{
    let s = by_name(v, v.len() as int);
    let t = by_name(w, w.len() as int);
    law_listing_ascending(v, v.len() as int);
    law_listing_ascending(w, w.len() as int);
    lemma_by_name_members(v, v.len() as int);
    lemma_by_name_members(w, w.len() as int);
    assert(v.take(v.len() as int) =~= v && w.take(w.len() as int) =~= w);
    lemma_names_differ(v, s);
    lemma_names_differ(v, t);
    lemma_ascending_unique(s, t);
}

fn place_entry(v: &mut Vec<DirectoryEntry>, e: DirectoryEntry)
    requires
        ascending(directory_view(old(v)@)),
    ensures
        directory_view(final(v)@) == entry_placed(directory_view(old(v)@), e@),
        ascending(directory_view(final(v)@)),
{
    let ghost start = directory_view(v@);
    let ghost view = e@;
    let mut i: usize = v.len();
    while i > 0 && before(e.name.as_str(), v[i - 1].name.as_str())
        invariant
            i <= v@.len() == start.len(),
            view == e@,
            directory_view(v@) == start,
            v@ == old(v)@,
            forall|k: int|
                i <= k < start.len() ==> text_before(view.name, (#[trigger] start[k]).name),
        decreases i,
    {
        assert(start[i - 1] == v@[i - 1]@);
        i = i - 1;
    }
    proof {
        if i > 0 {
            assert(start[i - 1] == v@[i - 1]@);
        }
        lemma_place_found(start, view, i as int);
        lemma_entry_placed(start, view, i as int);
    }
    v.insert(i, e);
    assert(directory_view(v@) =~= start.insert(i as int, view));
}

/// The fingerprint of a directory, from its entries ordered by name.
pub open spec fn sorted_listing_digest(v: Seq<EntryView>) -> Seq<char> {
    let sorted = by_name(v, v.len() as int);
    sha256_hex(listing_bytes(sorted, sorted.len() as int))
}

/// The fingerprint of a directory, from its entries ordered by name.
pub fn sorted_directory_fingerprint(entries: &Vec<DirectoryEntry>) -> (r: String)
    ensures
        r@ == sorted_listing_digest(directory_view(entries@)),
{
    let mut sorted: Vec<DirectoryEntry> = Vec::new();
    let mut i: usize = 0;
    assert(directory_view(sorted@) =~= by_name(directory_view(entries@), 0));
    while i < entries.len()
        invariant
            i <= entries@.len(),
            directory_view(sorted@) == by_name(directory_view(entries@), i as int),
            ascending(directory_view(sorted@)),
        decreases entries@.len() - i,
    {
        let e = &entries[i];
        assert(directory_view(entries@)[i as int] == e@);
        let copy = DirectoryEntry { name: e.name.clone(), kind: e.kind, facts: e.facts };
        assert(copy@ =~= e@);
        place_entry(&mut sorted, copy);
        i = i + 1;
    }
    directory_fingerprint(&sorted)
}

// ---------------------------------------------------------------------------
// Directory trees
// ---------------------------------------------------------------------------

/// An entry of a directory tree with what was read of it.
#[derive(Debug, PartialEq, Eq)]
pub struct TreeEntry {
    pub name: String,
    /// The path from the root of the tree.
    pub relative: String,
    pub kind: EntryKind,
    pub facts: Option<FileFacts>,
    pub content: FileRead,
    pub children: Vec<TreeEntry>,
}

/// How far a walk goes.
#[derive(Clone, Copy, Debug, PartialEq, Eq, Structural)]
pub struct TreeLimits {
    pub max_depth: usize,
    pub max_files: usize,
    pub max_file_bytes: u64,
    pub max_total_bytes: u64,
}

/// Where a walk stands.
#[verifier::ext_equal]
pub struct WalkView {
    pub files_seen: nat,
    pub remaining: u64,
    pub bytes: Seq<u8>,
    pub stopped: bool,
}

/// A directory that is not looked into: a hidden one, or one of build outputs
/// and foreign code.
pub open spec fn is_skipped_directory(name: Seq<char>) -> bool {
    ||| (name.len() > 0 && name[0] == '.')
    ||| name == "node_modules"@
    ||| name == "target"@
    ||| name == ".git"@
    ||| name == "__pycache__"@
    ||| name == "dist"@
    ||| name == "build"@
    ||| name == ".next"@
    ||| name == "vendor"@
}

/// Whether a directory of this name is not looked into.
pub fn skipped_directory(name: &str) -> (r: bool)
    ensures
        r == is_skipped_directory(name@),
{
    let v = chars_of(name);
    if v.len() > 0 && v[0] == '.' {
        return true;
    }
    same(name, "node_modules") || same(name, "target") || same(name, ".git") || same(
        name,
        "__pycache__",
    ) || same(name, "dist") || same(name, "build") || same(name, ".next") || same(name, "vendor")
}

/// The walk after `bytes` more.
pub open spec fn fed(st: WalkView, bytes: Seq<u8>) -> WalkView {
    WalkView { bytes: st.bytes + bytes, ..st }
}

/// The walk after `bytes` more, where it ends.
pub open spec fn ended(st: WalkView, bytes: Seq<u8>) -> WalkView {
    WalkView { bytes: st.bytes + bytes, stopped: true, ..st }
}

/// The walk after the content of a file of the given length.
pub open spec fn content_visited(
    file_len: u64,
    content: FileRead,
    lim: TreeLimits,
    st: WalkView,
) -> WalkView {
    match content {
        FileRead::Unopened => ended(st, encode_utf8("read-error"@)),
        FileRead::Failed { head, end, error } => ended(
            st,
            broken_bytes(
                sample_plan_of(file_len, lim.max_file_bytes, st.remaining),
                head@,
                match end {
                    Some(t) => Some(t@),
                    None => None,
                },
            ) + encode_utf8("read-error"@) + encode_utf8(error@),
        ),
        FileRead::Read { head, tail } => {
            let budget = content_budget(file_len, lim.max_file_bytes, st.remaining);
            WalkView {
                remaining: (st.remaining - budget) as u64,
                bytes: st.bytes + content_bytes(
                    sample_plan_of(file_len, lim.max_file_bytes, st.remaining),
                    head@,
                    tail@,
                ),
                stopped: budget < file_len,
                ..st
            }
        },
    }
}

/// The walk after a file.
pub open spec fn file_visited(e: TreeEntry, lim: TreeLimits, st: WalkView) -> WalkView {
    let counted = WalkView {
        files_seen: st.files_seen + 1,
        bytes: st.bytes + encode_utf8(e.relative@) + encode_utf8("f"@),
        ..st
    };
    match e.facts {
        None => ended(counted, encode_utf8("metadata-error"@)),
        Some(f) => content_visited(f.len, e.content, lim, fed(counted, facts_bytes(f))),
    }
}

/// The walk after one entry that was reached at the given depth.
pub open spec fn entry_visited(e: TreeEntry, depth: nat, lim: TreeLimits, st: WalkView) -> WalkView
    decreases e,
{
    if st.files_seen >= lim.max_files {
        ended(st, encode_utf8("file-limit-reached"@))
    } else {
        match e.kind {
            EntryKind::LinkOrReparse => fed(st, encode_utf8(e.relative@) + encode_utf8("s"@)),
            EntryKind::Directory => if is_skipped_directory(e.name@) {
                st
            } else {
                let entered = fed(st, encode_utf8(e.relative@) + encode_utf8("d"@));
                if depth < lim.max_depth {
                    walked(e.children@, e.children@.len() as int, depth + 1, lim, entered)
                } else {
                    ended(entered, encode_utf8("depth-limit-reached"@))
                }
            },
            EntryKind::File => file_visited(e, lim, st),
            _ => st,
        }
    }
}

/// The walk after the first `n` entries of a directory at the given depth.
pub open spec fn walked(v: Seq<TreeEntry>, n: int, depth: nat, lim: TreeLimits, st: WalkView) -> WalkView
    decreases v, n,
{
    if n <= 0 || n > v.len() {
        st
    } else {
        let so_far = walked(v, n - 1, depth, lim, st);
        if so_far.stopped {
            so_far
        } else {
            entry_visited(v[n - 1], depth, lim, so_far)
        }
    }
}

/// A walk over a directory tree.
pub struct TreeWalk {
    pub files_seen: usize,
    pub remaining: u64,
    pub bytes: Vec<u8>,
    pub stopped: bool,
}

/// What is to be done with an entry.
#[derive(Clone, Copy, Debug, PartialEq, Eq, Structural)]
pub enum TreeAction {
    /// Go on with the next entry.
    Next,
    /// Look into the directory.
    Descend,
    /// Read this much of the file.
    Read { plan: SamplePlan },
    /// End the walk.
    Stop,
}

impl TreeWalk {
    pub open spec fn view(self) -> WalkView {
        WalkView {
            files_seen: self.files_seen as nat,
            remaining: self.remaining,
            bytes: self.bytes@,
            stopped: self.stopped,
        }
    }

    /// A walk that has not begun.
    pub fn new(lim: TreeLimits) -> (r: TreeWalk)
        ensures
            r@ == (WalkView {
                files_seen: 0,
                remaining: lim.max_total_bytes,
                bytes: Seq::empty(),
                stopped: false,
            }),
    {
        let r = TreeWalk {
            files_seen: 0,
            remaining: lim.max_total_bytes,
            bytes: Vec::new(),
            stopped: false,
        };
        assert(r@.bytes =~= Seq::empty());
        r
    }

    /// Comes to an entry and says what is to be done with it.
    pub fn enter(&mut self, e: &TreeEntry, depth: usize, lim: TreeLimits) -> (r: TreeAction)
        requires
            !old(self).stopped,
        ensures
            match r {
                TreeAction::Next => !final(self)@.stopped && final(self)@ == entry_visited(
                    *e,
                    depth as nat,
                    lim,
                    old(self)@,
                ),
                TreeAction::Stop => final(self)@.stopped && final(self)@ == entry_visited(
                    *e,
                    depth as nat,
                    lim,
                    old(self)@,
                ),
                TreeAction::Descend => !final(self)@.stopped && entry_visited(
                    *e,
                    depth as nat,
                    lim,
                    old(self)@,
                ) == walked(
                    e.children@,
                    e.children@.len() as int,
                    depth as nat + 1,
                    lim,
                    final(self)@,
                ) && depth < lim.max_depth,
                TreeAction::Read { plan } => !final(self)@.stopped && e.facts is Some && plan
                    == sample_plan_of(e.facts->0.len, lim.max_file_bytes, final(self)@.remaining)
                    && entry_visited(*e, depth as nat, lim, old(self)@) == content_visited(
                    e.facts->0.len,
                    e.content,
                    lim,
                    final(self)@,
                ),
            },
    {
        let ghost st = self@;
        if self.files_seen >= lim.max_files {
            push_text(&mut self.bytes, "file-limit-reached");
            self.stopped = true;
            return TreeAction::Stop;
        }
        match e.kind {
            EntryKind::LinkOrReparse => {
                push_text(&mut self.bytes, e.relative.as_str());
                push_text(&mut self.bytes, "s");
                assert(self@ =~= fed(st, encode_utf8(e.relative@) + encode_utf8("s"@)));
                TreeAction::Next
            },
            EntryKind::Directory => {
                if skipped_directory(e.name.as_str()) {
                    return TreeAction::Next;
                }
                push_text(&mut self.bytes, e.relative.as_str());
                push_text(&mut self.bytes, "d");
                assert(self@ =~= fed(st, encode_utf8(e.relative@) + encode_utf8("d"@)));
                if depth < lim.max_depth {
                    return TreeAction::Descend;
                }
                push_text(&mut self.bytes, "depth-limit-reached");
                self.stopped = true;
                TreeAction::Stop
            },
            EntryKind::File => {
                self.files_seen = self.files_seen + 1;
                push_text(&mut self.bytes, e.relative.as_str());
                push_text(&mut self.bytes, "f");
                match e.facts {
                    None => {
                        push_text(&mut self.bytes, "metadata-error");
                        self.stopped = true;
                        TreeAction::Stop
                    },
                    Some(f) => {
                        push_facts(&mut self.bytes, f);
                        let (plan, _, _) = plan_sample(f.len, lim.max_file_bytes, self.remaining);
                        TreeAction::Read { plan }
                    },
                }
            },
            _ => TreeAction::Next,
        }
    }

    /// Takes in what was read of a file.
    pub fn take_content(&mut self, file_len: u64, content: &FileRead, lim: TreeLimits)
        requires
            !old(self).stopped,
        ensures
            final(self)@ == content_visited(file_len, *content, lim, old(self)@),
    {
        let ghost st = self@;
        match content {
            FileRead::Unopened => {
                push_text(&mut self.bytes, "read-error");
                self.stopped = true;
            },
            FileRead::Failed { head, end, error } => {
                let (plan, _, _) = plan_sample(file_len, lim.max_file_bytes, self.remaining);
                push_broken(&mut self.bytes, plan, head, end);
                push_text(&mut self.bytes, "read-error");
                push_text(&mut self.bytes, error.as_str());
                self.stopped = true;
                assert(self@ =~= content_visited(file_len, *content, lim, st));
            },
            FileRead::Read { head, tail } => {
                let (plan, left, truncated) = plan_sample(
                    file_len,
                    lim.max_file_bytes,
                    self.remaining,
                );
                push_content(&mut self.bytes, plan, head, tail);
                self.remaining = left;
                self.stopped = truncated;
            },
        }
    }

    /// The fingerprint of what was seen, and whether the walk left something
    /// out.
    pub fn finish(self) -> (r: (String, bool))
        ensures
            r.0@ == sha256_hex(walk_bytes(self@)),
            r.1 == self@.stopped,
    {
        let mut bytes = self.bytes;
        let ghost start = bytes@;
        push_le(&mut bytes, self.files_seen as u128, 8);
        push_le(&mut bytes, self.remaining as u128, 8);
        assert(bytes@ =~= walk_bytes(self@));
        (sha256(bytes.as_slice()), self.stopped)
    }
}

/// Everything that goes into the fingerprint of a tree.
pub open spec fn walk_bytes(st: WalkView) -> Seq<u8> {
    st.bytes + le_bytes(st.files_seen, 8) + le_bytes(st.remaining as nat, 8)
}

/// The walk before its first entry.
pub open spec fn walk_start(lim: TreeLimits) -> WalkView {
    WalkView { files_seen: 0, remaining: lim.max_total_bytes, bytes: Seq::empty(), stopped: false }
}

fn walk(v: &Vec<TreeEntry>, depth: usize, lim: TreeLimits, st: &mut TreeWalk)
    requires
        !old(st).stopped,
        depth <= lim.max_depth,
    ensures
        final(st)@ == walked(v@, v@.len() as int, depth as nat, lim, old(st)@),
    decreases v,
{
    let ghost start = st@;
    let mut n: usize = 0;
    while n < v.len()
        invariant
            n <= v@.len(),
            depth <= lim.max_depth,
            start == old(st)@,
            !st.stopped,
            st@ == walked(v@, n as int, depth as nat, lim, start),
        decreases v@.len() - n,
    {
        let e = &v[n];
        let ghost here = st@;
        match st.enter(e, depth, lim) {
            TreeAction::Next => {},
            TreeAction::Stop => {},
            TreeAction::Descend => {
                proof {
                    assert(decreases_to!(*v => v@));
                    assert(decreases_to!(v@ => v@[n as int]));
                    assert(decreases_to!(*e => e.children));
                }
                walk(&e.children, depth + 1, lim, st);
            },
            TreeAction::Read { plan } => {
                if let Some(f) = e.facts {
                    st.take_content(f.len, &e.content, lim);
                }
            },
        }
        n = n + 1;
        assert(st@ == walked(v@, n as int, depth as nat, lim, start));
        if st.stopped {
            proof {
                lemma_walk_stays_stopped(
                    v@,
                    n as int,
                    v@.len() as int,
                    depth as nat,
                    lim,
                    start,
                );
            }
            return;
        }
    }
}

proof fn lemma_walk_stays_stopped(
    v: Seq<TreeEntry>,
    n: int,
    m: int,
    depth: nat,
    lim: TreeLimits,
    st: WalkView,
)
    requires
        0 <= n <= m <= v.len(),
        walked(v, n, depth, lim, st).stopped,
    ensures
        walked(v, m, depth, lim, st) == walked(v, n, depth, lim, st),
    decreases m - n,
{
    if n < m {
        lemma_walk_stays_stopped(v, n, m - 1, depth, lim, st);
    }
}

/// The fingerprint of a directory tree within the given limits, and whether it
/// leaves something out.
pub fn hash_checked_directory_tree_with_limits(root: &Vec<TreeEntry>, lim: TreeLimits) -> (r: (
    String,
    bool,
))
    ensures
        ({
            let end = walked(root@, root@.len() as int, 0, lim, walk_start(lim));
            &&& r.0@ == sha256_hex(walk_bytes(end))
            &&& r.1 == end.stopped
        }),
{
    let mut st = TreeWalk::new(lim);
    assert(st@ =~= walk_start(lim));
    walk(root, 0, lim, &mut st);
    st.finish()
}

/// The fingerprint of a directory tree within the given limits.
pub fn hash_directory_tree_with_limits(
    root: &Vec<TreeEntry>,
    max_depth: usize,
    max_files: usize,
    max_file_bytes: u64,
    max_total_bytes: u64,
) -> (r: (String, bool))
    ensures
        ({
            let lim = TreeLimits { max_depth, max_files, max_file_bytes, max_total_bytes };
            let end = walked(root@, root@.len() as int, 0, lim, walk_start(lim));
            &&& r.0@ == sha256_hex(walk_bytes(end))
            &&& r.1 == end.stopped
        }),
{
    let lim = TreeLimits { max_depth, max_files, max_file_bytes, max_total_bytes };
    hash_checked_directory_tree_with_limits(root, lim)
}

/// The limits within which evidence on a tree is taken.
pub open spec fn evidence_limits() -> TreeLimits {
    TreeLimits {
        max_depth: 5,
        max_files: 10000,
        max_file_bytes: MAX_EVIDENCE_HASH_FILE_BYTES,
        max_total_bytes: MAX_EVIDENCE_HASH_TOTAL_BYTES,
    }
}

/// Gives the limits within which evidence on a tree is taken.
pub fn evidence_tree_limits() -> (r: TreeLimits)
    ensures
        r == evidence_limits(),
{
    TreeLimits {
        max_depth: 5,
        max_files: 10000,
        max_file_bytes: MAX_EVIDENCE_HASH_FILE_BYTES,
        max_total_bytes: MAX_EVIDENCE_HASH_TOTAL_BYTES,
    }
}

/// The fingerprint of a directory tree as evidence.
pub fn hash_directory_tree(root: &Vec<TreeEntry>) -> (r: (String, bool))
    ensures
        ({
            let lim = evidence_limits();
            let end = walked(root@, root@.len() as int, 0, lim, walk_start(lim));
            &&& r.0@ == sha256_hex(walk_bytes(end))
            &&& r.1 == end.stopped
        }),
{
    hash_checked_directory_tree_with_limits(root, evidence_tree_limits())
}

/// A sample never takes more than the budget, and the whole file is taken
/// exactly when nothing of it is left out.
pub proof fn law_sample_within_budget(file_len: u64, max_file_bytes: u64, remaining: u64)
    ensures
        match sample_plan_of(file_len, max_file_bytes, remaining) {
            SamplePlan::Nothing => file_len == 0 || max_file_bytes == 0 || remaining == 0,
            SamplePlan::Whole { bytes } => bytes == file_len && bytes <= max_file_bytes && bytes
                <= remaining,
            SamplePlan::Sampled { prefix, suffix } => prefix + suffix < file_len && prefix + suffix
                <= max_file_bytes && prefix + suffix <= remaining && prefix - suffix <= 1
                && suffix <= prefix,
        },
{
}

} // verus!
