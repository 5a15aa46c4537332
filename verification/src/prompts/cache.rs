//! Texts that are kept from turn to turn, and when they still count.

use crate::prompts::assembly::{
    PrefixParts, PrefixView, SystemPromptToolMode, build_system_prompt_static_prefix,
    stable_prefix,
};
use crate::prompts::skills::{names_sorted, sort_names};
use crate::text::{opt_str, opt_text, owned, same, same_opt, texts, trim, trimmed};
use vstd::prelude::*;
use vstd::string::*;

verus! {

// ---------------------------------------------------------------------------
// Texts made from files
// ---------------------------------------------------------------------------

/// What tells a file's present state from another without reading it: when it
/// was written, in nanoseconds since 1970, and how long it is.
#[derive(Clone, Copy, Debug, PartialEq, Eq, Structural)]
pub struct PromptFileFingerprint {
    pub modified: Option<u128>,
    pub len: Option<u64>,
}

/// A text made from files, with what it was made from.
#[derive(Debug, PartialEq, Eq)]
pub struct PromptFileCache {
    pub workspace: String,
    /// The day, where the text depends on it.
    pub today: Option<String>,
    pub fingerprints: Vec<PromptFileFingerprint>,
    pub result: String,
}

/// The text was made in this directory, on this day, from files in this state.
pub open spec fn still_counts(
    c: PromptFileCache,
    workspace: Seq<char>,
    today: Option<Seq<char>>,
    fingerprints: Seq<PromptFileFingerprint>,
) -> bool {
    c.workspace@ == workspace && opt_text(c.today) == today && c.fingerprints@ == fingerprints
}

fn same_fingerprints(a: &Vec<PromptFileFingerprint>, b: &Vec<PromptFileFingerprint>) -> (r: bool)
    ensures
        r == (a@ == b@),
{
    if a.len() != b.len() {
        return false;
    }
    let mut i: usize = 0;
    while i < a.len()
        invariant
            a@.len() == b@.len(),
            i <= a@.len(),
            forall|j: int| 0 <= j < i ==> a@[j] == b@[j],
        decreases a@.len() - i,
    {
        if a[i] != b[i] {
            return false;
        }
        i = i + 1;
    }
    assert(a@ =~= b@);
    true
}

/// The text that is kept, where it still counts.
pub fn cached_text(
    cache: &Option<PromptFileCache>,
    workspace: &str,
    today: &Option<String>,
    fingerprints: &Vec<PromptFileFingerprint>,
) -> (r: Option<String>)
    ensures
        opt_text(r) == (match *cache {
            Some(c) => if still_counts(c, workspace@, opt_text(*today), fingerprints@) {
                Some(c.result@)
            } else {
                None
            },
            None => None,
        }),
{
    match cache {
        Some(c) => if same(c.workspace.as_str(), workspace) && same_opt(&c.today, today)
            && same_fingerprints(&c.fingerprints, fingerprints) {
            Some(c.result.clone())
        } else {
            None
        },
        None => None,
    }
}

// ---------------------------------------------------------------------------
// The lasting part of the instructions
// ---------------------------------------------------------------------------

/// The most texts that are kept.
pub const SYSTEM_PROMPT_CACHE_MAX_ENTRIES: usize = 64;

/// What a lasting part was made for and of.
#[derive(Debug, PartialEq, Eq)]
pub struct PrefixKey {
    pub workspace: String,
    pub query: Option<String>,
    pub enabled_skills: Vec<String>,
    pub parts: PrefixParts,
    pub mode: SystemPromptToolMode,
}

#[verifier::ext_equal]
pub struct KeyView {
    pub workspace: Seq<char>,
    pub query: Option<Seq<char>>,
    pub enabled_skills: Seq<Seq<char>>,
    pub parts: PrefixView,
    pub mode: SystemPromptToolMode,
}

impl PrefixKey {
    pub open spec fn view(self) -> KeyView {
        KeyView {
            workspace: self.workspace@,
            query: opt_text(self.query),
            enabled_skills: texts(self.enabled_skills@),
            parts: self.parts@,
            mode: self.mode,
        }
    }

    fn says_same(&self, other: &PrefixKey) -> (r: bool)
        ensures
            r == (self@ == other@),
    {
        same(self.workspace.as_str(), other.workspace.as_str()) && same_opt(
            &self.query,
            &other.query,
        ) && same_texts(&self.enabled_skills, &other.enabled_skills) && self.parts.says_same(
            &other.parts,
        ) && self.mode == other.mode
    }
}

fn same_texts(a: &Vec<String>, b: &Vec<String>) -> (r: bool)
    ensures
        r == (texts(a@) == texts(b@)),
{
    if a.len() != b.len() {
        assert(texts(a@).len() != texts(b@).len());
        return false;
    }
    let mut i: usize = 0;
    while i < a.len()
        invariant
            a@.len() == b@.len(),
            i <= a@.len(),
            forall|j: int| 0 <= j < i ==> (#[trigger] a@[j])@ == b@[j]@,
        decreases a@.len() - i,
    {
        if !same(a[i].as_str(), b[i].as_str()) {
            assert(texts(a@)[i as int] != texts(b@)[i as int]);
            return false;
        }
        i = i + 1;
    }
    assert(texts(a@) =~= texts(b@));
    true
}

/// The lasting parts that are kept, and how often that helped.
#[derive(Debug)]
pub struct PrefixCache {
    pub entries: Vec<(PrefixKey, String)>,
    pub hits: u64,
    pub misses: u64,
}

/// A count with one more, from the start again behind the last number.
pub open spec fn counted(n: u64) -> u64 {
    if n == u64::MAX {
        0
    } else {
        (n + 1) as u64
    }
}

fn count_up(n: u64) -> (r: u64)
    ensures
        r == counted(n),
{
    if n == u64::MAX {
        0
    } else {
        n + 1
    }
}

/// One of the texts was made for a key.
pub open spec fn keeps(v: Seq<(PrefixKey, String)>, key: KeyView) -> bool {
    exists|i: int| 0 <= i < v.len() && (#[trigger] v[i]).0@ == key
}

/// The key of a lasting part: a blank query is no query, and the order in which
/// skills are switched on does not count.
pub open spec fn key_of(
    workspace: Seq<char>,
    query: Option<Seq<char>>,
    enabled: Seq<Seq<char>>,
    parts: PrefixView,
    mode: SystemPromptToolMode,
) -> KeyView {
    KeyView {
        workspace,
        query: match query {
            Some(q) => if trimmed(q).len() > 0 {
                Some(trimmed(q))
            } else {
                None
            },
            None => None,
        },
        enabled_skills: names_sorted(enabled, enabled.len() as int),
        parts,
        mode,
    }
}

impl PrefixCache {
    /// Every text is the one that its parts make, and there are not too many.
    pub open spec fn wf(self) -> bool {
        &&& self.entries@.len() <= SYSTEM_PROMPT_CACHE_MAX_ENTRIES
        &&& forall|i: int|
            0 <= i < self.entries@.len() ==> (#[trigger] self.entries@[i]).1@ == stable_prefix(
                self.entries@[i].0@.parts,
                self.entries@[i].0@.mode,
            )
    }

    /// Nothing is kept.
    pub fn new() -> (r: PrefixCache)
        ensures
            r.wf(),
            r.entries@.len() == 0,
            r.hits == 0,
            r.misses == 0,
    {
        PrefixCache { entries: Vec::new(), hits: 0, misses: 0 }
    }

    /// How often a text that was kept could be used, and how often not.
    pub fn system_prompt_cache_metrics(&self) -> (r: (u64, u64))
        ensures
            r == (self.hits, self.misses),
    {
        (self.hits, self.misses)
    }

    fn find(&self, key: &PrefixKey) -> (r: Option<usize>)
        ensures
            match r {
                Some(i) => i < self.entries@.len() && self.entries@[i as int].0@ == key@,
                None => !keeps(self.entries@, key@),
            },
    {
        let mut i: usize = 0;
        while i < self.entries.len()
            invariant
                i <= self.entries@.len(),
                forall|j: int| 0 <= j < i ==> (#[trigger] self.entries@[j]).0@ != key@,
            decreases self.entries@.len() - i,
        {
            if self.entries[i].0.says_same(key) {
                return Some(i);
            }
            i = i + 1;
        }
        None
    }
}

fn plain_query(query: Option<&str>) -> (r: Option<String>)
    ensures
        opt_text(r) == (match opt_str(query) {
            Some(q) => if trimmed(q).len() > 0 {
                Some(trimmed(q))
            } else {
                None
            },
            None => None,
        }),
{
    match query {
        Some(q) => {
            let t = trim(q);
            if t.as_str().is_empty() {
                None
            } else {
                Some(t)
            }
        },
        None => None,
    }
}

/// The lasting part of the instructions, from the cache where it is there. What
/// comes out is always the text that the parts make. A full cache is emptied
/// before another text is kept.
pub fn build_system_prompt_static_prefix_cached(
    cache: &mut PrefixCache,
    workspace: &str,
    current_query: Option<&str>,
    enabled_system_skills: &Vec<String>,
    parts: &PrefixParts,
    mode: SystemPromptToolMode,
) -> (r: String)
    requires
        old(cache).wf(),
    ensures
        final(cache).wf(),
        r@ == stable_prefix(parts@, mode),
        ({
            let key = key_of(
                workspace@,
                opt_str(current_query),
                texts(enabled_system_skills@),
                parts@,
                mode,
            );
            if keeps(old(cache).entries@, key) {
                &&& final(cache).entries == old(cache).entries
                &&& final(cache).hits == counted(old(cache).hits)
                &&& final(cache).misses == old(cache).misses
            } else {
                &&& final(cache).entries@.len() > 0
                &&& final(cache).entries@.last().0@ == key
                &&& final(cache).entries@.drop_last() == (if old(cache).entries@.len()
                    >= SYSTEM_PROMPT_CACHE_MAX_ENTRIES {
                    Seq::empty()
                } else {
                    old(cache).entries@
                })
                &&& final(cache).hits == old(cache).hits
                &&& final(cache).misses == counted(old(cache).misses)
            }
        }),
{
    assert(texts(enabled_system_skills@).len() == enabled_system_skills@.len());
    let key = PrefixKey {
        workspace: owned(workspace),
        query: plain_query(current_query),
        enabled_skills: sort_names(enabled_system_skills),
        parts: parts.copy(),
        mode,
    };
    if let Some(i) = cache.find(&key) {
        cache.hits = count_up(cache.hits);
        let text = cache.entries[i].1.clone();
        assert(keeps(cache.entries@, key@));
        return text;
    }
    cache.misses = count_up(cache.misses);
    let text = build_system_prompt_static_prefix(parts, mode);
    if cache.entries.len() >= SYSTEM_PROMPT_CACHE_MAX_ENTRIES {
        cache.entries = Vec::new();
    }
    let ghost before = cache.entries@;
    let ghost k = key@;
    cache.entries.push((key, text.clone()));
    let ghost n = before.len() as int;
    assert(cache.entries@[n].0@ == k);
    assert(cache.entries@.drop_last() =~= before);
    assert forall|i: int| 0 <= i < cache.entries@.len() implies (#[trigger] cache.entries@[i]).1@
        == stable_prefix(cache.entries@[i].0@.parts, cache.entries@[i].0@.mode) by {
        if i < n {
            assert(cache.entries@[i] == before[i]);
        }
    }
    text
}

} // verus!
