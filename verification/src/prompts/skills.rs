//! Skills: where they are found, which ones count, and how they are listed.

use crate::prompts::frontmatter::{block_is_sound, read_skill_settings, skill_settings};
use crate::text::{
    before, begins, char_count, chars_of, concat3, contains, ends, ends_with, holds_text, join,
    joined, lemma_before_irreflexive, lemma_before_total, lemma_before_transitive, lower_text,
    opt_text, owned, same, starts_with, strip_prefix, text_before, text_between, texts,
    to_lowercase,
};
use vstd::prelude::*;
use vstd::string::*;

verus! {

/// How long what was found counts, in seconds.
pub const DISCOVERY_CACHE_TTL_SECS: u64 = 10;

/// Where a skill comes from.
#[derive(Clone, Copy, Debug, PartialEq, Eq, Structural)]
pub enum SkillSource {
    System,
    Global,
    Session,
}

/// The name of a source.
pub open spec fn source_label(s: SkillSource) -> Seq<char> {
    match s {
        SkillSource::System => "system"@,
        SkillSource::Global => "global"@,
        SkillSource::Session => "session"@,
    }
}

impl SkillSource {
    /// The name of this source.
    pub fn label(self) -> (r: &'static str)
        ensures
            r@ == source_label(self),
    {
        match self {
            SkillSource::System => "system",
            SkillSource::Global => "global",
            SkillSource::Session => "session",
        }
    }
}

/// What is known of a skill without reading all of it.
#[derive(Debug, PartialEq, Eq)]
pub struct SkillMeta {
    pub name: String,
    pub description: String,
    pub path: String,
    pub source: SkillSource,
}

#[verifier::ext_equal]
pub struct SkillView {
    pub name: Seq<char>,
    pub description: Seq<char>,
    pub path: Seq<char>,
    pub source: SkillSource,
}

impl SkillMeta {
    pub open spec fn view(self) -> SkillView {
        SkillView {
            name: self.name@,
            description: self.description@,
            path: self.path@,
            source: self.source,
        }
    }

    /// A copy of this skill.
    pub fn copy(&self) -> (r: SkillMeta)
        ensures
            r@ == self@,
    {
        SkillMeta {
            name: self.name.clone(),
            description: self.description.clone(),
            path: self.path.clone(),
            source: self.source,
        }
    }
}

pub open spec fn skills_view(v: Seq<SkillMeta>) -> Seq<SkillView> {
    v.map_values(|s: SkillMeta| s@)
}

/// Appends a skill.
fn push_skill(v: &mut Vec<SkillMeta>, s: SkillMeta)
    ensures
        skills_view(final(v)@) == skills_view(old(v)@).push(s@),
{
    let ghost before = skills_view(v@);
    let ghost view = s@;
    v.push(s);
    assert(skills_view(v@) =~= before.push(view));
}

fn no_skills() -> (r: Vec<SkillMeta>)
    ensures
        skills_view(r@) == Seq::<SkillView>::empty(),
{
    let r: Vec<SkillMeta> = Vec::new();
    assert(skills_view(r@) =~= Seq::<SkillView>::empty());
    r
}

/// The skill that a text describes; its path and source are for the caller to
/// set.
pub fn parse_skill_frontmatter(content: &str) -> (r: Option<SkillMeta>)
    requires
        block_is_sound(content@),
    ensures
        (match r {
            Some(s) => Some(s@),
            None => None,
        }) == (match skill_settings(content@) {
            Some((name, description)) => Some(
                SkillView { name, description, path: ""@, source: SkillSource::Session },
            ),
            None => None,
        }),
{
    match read_skill_settings(content) {
        Some((name, description)) => Some(
            SkillMeta { name, description, path: owned(""), source: SkillSource::Session },
        ),
        None => None,
    }
}

// ---------------------------------------------------------------------------
// Directories
// ---------------------------------------------------------------------------

/// A directory as it was found: its name, what its `SKILL.md` holds where that
/// can be read, and the directories in it.
#[derive(Debug)]
pub struct SkillFolder {
    pub name: String,
    pub skill_file: Option<String>,
    pub children: Vec<SkillFolder>,
}

/// Every file in a directory can be read as a skill without a stumble.
pub open spec fn folder_is_sound(f: SkillFolder) -> bool
    decreases f, f.children@.len() + 1,
{
    (f.skill_file is Some ==> block_is_sound(f.skill_file->0@)) && children_are_sound(
        f,
        f.children@.len() as int,
    )
}

/// The same of the first `n` directories in it.
pub open spec fn children_are_sound(f: SkillFolder, n: int) -> bool
    decreases f, n,
{
    if n <= 0 || n > f.children@.len() {
        true
    } else {
        children_are_sound(f, n - 1) && folder_is_sound(f.children@[n - 1])
    }
}

/// The skills in a directory: the one that it describes, or else those of the
/// directories in it.
pub open spec fn skills_in(f: SkillFolder, source: SkillSource, prefix: Seq<char>) -> Seq<SkillView>
    decreases f, f.children@.len() + 1,
{
    match f.skill_file {
        Some(content) => match skill_settings(content@) {
            Some((name, description)) => seq![
                SkillView {
                    name,
                    description,
                    path: prefix + f.name@ + "/SKILL.md"@,
                    source,
                },
            ],
            None => Seq::empty(),
        },
        None => skills_in_children(f, source, prefix + f.name@ + "/"@, f.children@.len() as int),
    }
}

/// The skills in the first `n` directories of a directory.
pub open spec fn skills_in_children(
    f: SkillFolder,
    source: SkillSource,
    prefix: Seq<char>,
    n: int,
) -> Seq<SkillView>
    decreases f, n,
{
    if n <= 0 || n > f.children@.len() {
        Seq::empty()
    } else {
        skills_in_children(f, source, prefix, n - 1) + skills_in(f.children@[n - 1], source, prefix)
    }
}

fn append_skills(v: &mut Vec<SkillMeta>, more: Vec<SkillMeta>)
    ensures
        skills_view(final(v)@) == skills_view(old(v)@) + skills_view(more@),
{
    let ghost a = skills_view(v@);
    let ghost b = skills_view(more@);
    let mut more = more;
    v.append(&mut more);
    assert(skills_view(v@) =~= a + b);
}

proof fn lemma_child_is_sound(f: SkillFolder, n: int, k: int)
    requires
        children_are_sound(f, n),
        0 <= k < n <= f.children@.len(),
    ensures
        folder_is_sound(f.children@[k]),
    decreases n,
{
    if k < n - 1 {
        lemma_child_is_sound(f, n - 1, k);
    }
}

/// The skills in the directory `f`, which stands under `path_prefix`.
pub fn discover_skills_in_folder(f: &SkillFolder, source: SkillSource, path_prefix: &str) -> (r:
    Vec<SkillMeta>)
    requires
        folder_is_sound(*f),
    ensures
        skills_view(r@) == skills_in(*f, source, path_prefix@),
    decreases f, f.children@.len() + 1,
{
    match &f.skill_file {
        Some(content) => {
            let mut out = no_skills();
            if let Some(mut meta) = parse_skill_frontmatter(content.as_str()) {
                meta.path = concat3(path_prefix, f.name.as_str(), "/SKILL.md");
                meta.source = source;
                push_skill(&mut out, meta);
            }
            assert(skills_view(out@) =~= skills_in(*f, source, path_prefix@));
            out
        },
        None => {
            let prefix = concat3(path_prefix, f.name.as_str(), "/");
            discover_skills_in_dir(f, source, prefix.as_str())
        },
    }
}

/// The skills in the directories of the directory `f`, under `path_prefix`.
pub fn discover_skills_in_dir(f: &SkillFolder, source: SkillSource, path_prefix: &str) -> (r: Vec<
    SkillMeta,
>)
    requires
        folder_is_sound(*f),
    ensures
        skills_view(r@) == skills_in_children(*f, source, path_prefix@, f.children@.len() as int),
    decreases f, f.children@.len(),
{
    let mut out = no_skills();
    let mut n: usize = 0;
    while n < f.children.len()
        invariant
            n <= f.children@.len(),
            folder_is_sound(*f),
            skills_view(out@) == skills_in_children(*f, source, path_prefix@, n as int),
        decreases f.children@.len() - n,
    {
        proof {
            lemma_child_is_sound(*f, f.children@.len() as int, n as int);
        }
        let found = discover_skills_in_folder(&f.children[n], source, path_prefix);
        append_skills(&mut out, found);
        n = n + 1;
    }
    out
}

// ---------------------------------------------------------------------------
// Layers
// ---------------------------------------------------------------------------

/// A skill stands before another: by name, and by path where names are equal
/// and paths count.
pub open spec fn skill_before(a: SkillView, b: SkillView, by_path: bool) -> bool {
    text_before(a.name, b.name) || (by_path && a.name == b.name && text_before(a.path, b.path))
}

/// `v` with `x` put before the first skill that it stands before.
pub open spec fn skill_placed(v: Seq<SkillView>, x: SkillView, by_path: bool) -> Seq<SkillView>
    decreases v.len(),
{
    if v.len() == 0 {
        seq![x]
    } else if skill_before(x, v[0], by_path) {
        seq![x] + v
    } else {
        seq![v[0]] + skill_placed(v.skip(1), x, by_path)
    }
}

/// The first `n` skills in order; skills that no order parts keep theirs.
pub open spec fn skills_sorted(v: Seq<SkillView>, by_path: bool, n: int) -> Seq<SkillView>
    decreases n,
{
    if n <= 0 {
        Seq::empty()
    } else {
        skill_placed(skills_sorted(v, by_path, n - 1), v[n - 1], by_path)
    }
}

fn stands_before(a: &SkillMeta, b: &SkillMeta, by_path: bool) -> (r: bool)
    ensures
        r == skill_before(a@, b@, by_path),
{
    before(a.name.as_str(), b.name.as_str()) || (by_path && same(
        a.name.as_str(),
        b.name.as_str(),
    ) && before(a.path.as_str(), b.path.as_str()))
}

fn place_skill(v: &mut Vec<SkillMeta>, x: SkillMeta, by_path: bool)
    ensures
        skills_view(final(v)@) == skill_placed(skills_view(old(v)@), x@, by_path),
{
    let ghost start = skills_view(v@);
    let ghost e = x@;
    let mut i: usize = 0;
    assert(start.skip(0) =~= start);
    assert(start.take(0) + skill_placed(start.skip(0), e, by_path) =~= skill_placed(
        start,
        e,
        by_path,
    ));
    while i < v.len()
        invariant
            i <= v@.len(),
            v@ == old(v)@,
            start == skills_view(v@),
            e == x@,
            start.take(i as int) + skill_placed(start.skip(i as int), e, by_path) == skill_placed(
                start,
                e,
                by_path,
            ),
        decreases v@.len() - i,
    {
        let ghost rest = start.skip(i as int);
        assert(rest[0] == v@[i as int]@);
        if stands_before(&x, &v[i], by_path) {
            v.insert(i, x);
            assert(skills_view(v@) =~= start.insert(i as int, e));
            assert(start.take(i as int) + (seq![e] + rest) =~= start.insert(i as int, e));
            return;
        }
        assert(rest.skip(1) =~= start.skip(i + 1));
        assert(start.take(i as int) + (seq![rest[0]] + skill_placed(rest.skip(1), e, by_path))
            =~= start.take(i + 1) + skill_placed(start.skip(i + 1), e, by_path));
        i = i + 1;
    }
    v.push(x);
    assert(start.skip(i as int) =~= Seq::<SkillView>::empty());
    assert(skills_view(v@) =~= start.push(e));
    assert(start.take(i as int) + seq![e] =~= start.push(e));
}

/// The skills in order.
pub fn sort_skills(v: &Vec<SkillMeta>, by_path: bool) -> (r: Vec<SkillMeta>)
    ensures
        skills_view(r@) == skills_sorted(skills_view(v@), by_path, v@.len() as int),
{
    let mut out = no_skills();
    let mut n: usize = 0;
    while n < v.len()
        invariant
            n <= v@.len(),
            skills_view(out@) == skills_sorted(skills_view(v@), by_path, n as int),
        decreases v@.len() - n,
    {
        assert(skills_view(v@)[n as int] == v@[n as int]@);
        place_skill(&mut out, v[n].copy(), by_path);
        n = n + 1;
    }
    out
}

/// A skill of the layer has the given name.
pub open spec fn names_skill(layer: Seq<SkillView>, name: Seq<char>) -> bool {
    exists|i: int| 0 <= i < layer.len() && (#[trigger] layer[i]).name == name
}

/// The first `n` skills without those that a layer names.
pub open spec fn unshadowed(v: Seq<SkillView>, layer: Seq<SkillView>, n: int) -> Seq<SkillView>
    decreases n,
{
    if n <= 0 {
        Seq::empty()
    } else if names_skill(layer, v[n - 1].name) {
        unshadowed(v, layer, n - 1)
    } else {
        unshadowed(v, layer, n - 1).push(v[n - 1])
    }
}

/// The skills with a further layer, whose skills take the place of those with
/// the same names.
pub open spec fn layered(v: Seq<SkillView>, layer: Seq<SkillView>) -> Seq<SkillView> {
    unshadowed(v, layer, v.len() as int) + layer
}

/// The skills of the three layers in order.
pub open spec fn merged_skills(
    system: Seq<SkillView>,
    global: Seq<SkillView>,
    session: Seq<SkillView>,
) -> Seq<SkillView> {
    let all = layered(layered(system, global), session);
    skills_sorted(all, true, all.len() as int)
}

fn layer_names(layer: &Vec<SkillMeta>, name: &str) -> (r: bool)
    ensures
        r == names_skill(skills_view(layer@), name@),
{
    let ghost all = skills_view(layer@);
    let mut i: usize = 0;
    while i < layer.len()
        invariant
            i <= layer@.len(),
            all == skills_view(layer@),
            forall|j: int| 0 <= j < i ==> (#[trigger] all[j]).name != name@,
        decreases layer@.len() - i,
    {
        assert(all[i as int] == layer@[i as int]@);
        if same(layer[i].name.as_str(), name) {
            return true;
        }
        i = i + 1;
    }
    false
}

fn copy_skills(v: &Vec<SkillMeta>) -> (r: Vec<SkillMeta>)
    ensures
        skills_view(r@) == skills_view(v@),
{
    let mut r: Vec<SkillMeta> = Vec::new();
    let mut i: usize = 0;
    while i < v.len()
        invariant
            i <= v@.len(),
            r@.len() == i,
            forall|j: int| 0 <= j < i ==> (#[trigger] r@[j])@ == v@[j]@,
        decreases v@.len() - i,
    {
        r.push(v[i].copy());
        i = i + 1;
    }
    assert(skills_view(r@) =~= skills_view(v@));
    r
}

fn append_layer(v: &Vec<SkillMeta>, layer: &Vec<SkillMeta>) -> (r: Vec<SkillMeta>)
    ensures
        skills_view(r@) == layered(skills_view(v@), skills_view(layer@)),
{
    let ghost all = skills_view(v@);
    assert(all.len() == v@.len());
    let mut out = no_skills();
    let mut n: usize = 0;
    while n < v.len()
        invariant
            n <= v@.len(),
            all == skills_view(v@),
            skills_view(out@) == unshadowed(all, skills_view(layer@), n as int),
        decreases v@.len() - n,
    {
        assert(all[n as int] == v@[n as int]@);
        if !layer_names(layer, v[n].name.as_str()) {
            push_skill(&mut out, v[n].copy());
        }
        n = n + 1;
    }
    append_skills(&mut out, copy_skills(layer));
    out
}

/// The skills of the three layers in order. A later layer's skill takes the
/// place of those with its name; skills of one layer stand side by side.
pub fn discover_all_skills_uncached(
    system: &Vec<SkillMeta>,
    global: &Vec<SkillMeta>,
    session: &Vec<SkillMeta>,
) -> (r: Vec<SkillMeta>)
    ensures
        skills_view(r@) == merged_skills(
            skills_view(system@),
            skills_view(global@),
            skills_view(session@),
        ),
{
    let first = append_layer(system, global);
    let all = append_layer(&first, session);
    assert(skills_view(all@).len() == all@.len());
    sort_skills(&all, true)
}

/// The skills of one layer, by name.
pub fn discover_skills_by_source(layer: &Vec<SkillMeta>) -> (r: Vec<SkillMeta>)
    ensures
        skills_view(r@) == skills_sorted(skills_view(layer@), false, layer@.len() as int),
{
    sort_skills(layer, false)
}

/// Whether what was found before still counts.
pub fn skills_cache_is_fresh(same_workspace: bool, same_times: bool, age_secs: u64) -> (r: bool)
    ensures
        r == (same_workspace && same_times && age_secs < DISCOVERY_CACHE_TTL_SECS),
{
    same_workspace && same_times && age_secs < DISCOVERY_CACHE_TTL_SECS
}

/// No skill stands before the one ahead of it.
pub open spec fn in_order(v: Seq<SkillView>, by_path: bool) -> bool {
    forall|i: int, j: int| 0 <= i < j < v.len() ==> !skill_before(#[trigger] v[j], #[trigger] v[i], by_path)
}

proof fn lemma_skill_order(a: SkillView, b: SkillView, c: SkillView, by_path: bool)
    ensures
        !skill_before(a, a, by_path),
        skill_before(a, b, by_path) && skill_before(b, c, by_path) ==> skill_before(a, c, by_path),
        skill_before(a, b, by_path) ==> !skill_before(b, a, by_path),
        skill_before(a, b, by_path) && !skill_before(c, b, by_path) ==> skill_before(a, c, by_path),
{
    lemma_text_order(a.name, b.name, c.name);
    lemma_text_order(a.path, b.path, c.path);
}

proof fn lemma_text_order(a: Seq<char>, b: Seq<char>, c: Seq<char>)
    ensures
        !text_before(a, a),
        text_before(a, b) && text_before(b, c) ==> text_before(a, c),
        text_before(a, b) ==> !text_before(b, a),
        text_before(b, c) || b == c || text_before(c, b),
{
    lemma_before_irreflexive(a);
    lemma_before_total(b, c);
    if text_before(a, b) && text_before(b, c) {
        lemma_before_transitive(a, b, c);
    }
    if text_before(a, b) && text_before(b, a) {
        lemma_before_transitive(a, b, a);
    }
}

proof fn lemma_skill_placed(v: Seq<SkillView>, x: SkillView, by_path: bool)
    requires
        in_order(v, by_path),
    ensures
        in_order(skill_placed(v, x, by_path), by_path),
        skill_placed(v, x, by_path).to_multiset() == v.to_multiset().insert(x),
        skill_placed(v, x, by_path).len() == v.len() + 1,
        forall|i: int|
            0 <= i < skill_placed(v, x, by_path).len() ==> v.contains(
                #[trigger] skill_placed(v, x, by_path)[i],
            ) || skill_placed(v, x, by_path)[i] == x,
    decreases v.len(),
{
    broadcast use vstd::seq_lib::group_to_multiset_ensures;

    let r = skill_placed(v, x, by_path);
    if v.len() == 0 {
        assert(v =~= Seq::<SkillView>::empty());
        assert(r =~= Seq::<SkillView>::empty().push(x));
    } else if skill_before(x, v[0], by_path) {
        assert(r =~= v.insert(0, x));
        assert forall|i: int, j: int| 0 <= i < j < r.len() implies !skill_before(
            #[trigger] r[j],
            #[trigger] r[i],
            by_path,
        ) by {
            assert(r[j] == v[j - 1]);
            if i > 0 {
                assert(r[i] == v[i - 1]);
            } else {
                lemma_skill_order(x, v[0], v[j - 1], by_path);
                lemma_skill_order(x, v[j - 1], x, by_path);
                if j - 1 > 0 {
                    assert(!skill_before(v[j - 1], v[0], by_path));
                } else {
                    lemma_skill_order(v[0], v[0], v[0], by_path);
                }
            }
        }
        assert forall|i: int| 0 <= i < r.len() implies v.contains(#[trigger] r[i]) || r[i] == x by {
            if i > 0 {
                assert(r[i] == v[i - 1]);
            }
        }
    } else {
        let rest = v.skip(1);
        let p = skill_placed(rest, x, by_path);
        assert forall|i: int, j: int| 0 <= i < j < rest.len() implies !skill_before(
            #[trigger] rest[j],
            #[trigger] rest[i],
            by_path,
        ) by {
            assert(rest[i] == v[i + 1] && rest[j] == v[j + 1]);
        }
        lemma_skill_placed(rest, x, by_path);
        assert(r =~= seq![v[0]] + p);
        assert(r =~= p.insert(0, v[0]));
        assert(v =~= rest.insert(0, v[0]));
        assert(r.to_multiset() =~= v.to_multiset().insert(x));
        assert forall|i: int| 0 <= i < r.len() implies v.contains(#[trigger] r[i]) || r[i] == x by {
            if i > 0 {
                assert(r[i] == p[i - 1]);
                if p[i - 1] != x {
                    assert(rest.contains(p[i - 1]));
                    let k = choose|k: int| 0 <= k < rest.len() && rest[k] == p[i - 1];
                    assert(v[k + 1] == r[i]);
                }
            }
        }
        assert forall|i: int, j: int| 0 <= i < j < r.len() implies !skill_before(
            #[trigger] r[j],
            #[trigger] r[i],
            by_path,
        ) by {
            assert(r[j] == p[j - 1]);
            if i > 0 {
                assert(r[i] == p[i - 1]);
            } else {
                if p[j - 1] != x {
                    assert(rest.contains(p[j - 1]));
                    let k = choose|k: int| 0 <= k < rest.len() && rest[k] == p[j - 1];
                    assert(v[k + 1] == p[j - 1]);
                }
            }
        }
    }
}

proof fn lemma_skills_sorted(v: Seq<SkillView>, by_path: bool, n: int)
    requires
        0 <= n <= v.len(),
    ensures
        in_order(skills_sorted(v, by_path, n), by_path),
        skills_sorted(v, by_path, n).to_multiset() == v.take(n).to_multiset(),
    decreases n,
{
    broadcast use vstd::seq_lib::group_to_multiset_ensures;

    if n > 0 {
        lemma_skills_sorted(v, by_path, n - 1);
        lemma_skill_placed(skills_sorted(v, by_path, n - 1), v[n - 1], by_path);
        assert(v.take(n) =~= v.take(n - 1).push(v[n - 1]));
    } else {
        assert(v.take(0) =~= Seq::<SkillView>::empty());
    }
}

/// Sorting skills loses none, adds none, and puts them in order.
pub proof fn law_skills_sorted(v: Seq<SkillView>, by_path: bool)
    ensures
        in_order(skills_sorted(v, by_path, v.len() as int), by_path),
        skills_sorted(v, by_path, v.len() as int).to_multiset() == v.to_multiset(),
{
    lemma_skills_sorted(v, by_path, v.len() as int);
    assert(v.take(v.len() as int) =~= v);
}

proof fn lemma_unshadowed(v: Seq<SkillView>, layer: Seq<SkillView>, n: int)
    requires
        n <= v.len(),
    ensures
        forall|i: int|
            0 <= i < unshadowed(v, layer, n).len() ==> !names_skill(
                layer,
                (#[trigger] unshadowed(v, layer, n)[i]).name,
            ),
    decreases n,
{
    if n > 0 {
        lemma_unshadowed(v, layer, n - 1);
        let a = unshadowed(v, layer, n - 1);
        let b = unshadowed(v, layer, n);
        assert forall|i: int| 0 <= i < b.len() implies !names_skill(layer, (#[trigger] b[i]).name) by {
            if i < a.len() {
                assert(b[i] == a[i]);
            }
        }
    }
}

/// A skill of a later layer hides all skills of its name in earlier layers, and
/// every skill of the later layer is there.
pub proof fn law_later_layer_wins(v: Seq<SkillView>, layer: Seq<SkillView>, i: int)
    requires
        0 <= i < layered(v, layer).len(),
        names_skill(layer, layered(v, layer)[i].name),
    ensures
        i >= layered(v, layer).len() - layer.len(),
        layered(v, layer).skip(layered(v, layer).len() - layer.len()) == layer,
{
    lemma_unshadowed(v, layer, v.len() as int);
    let kept = unshadowed(v, layer, v.len() as int);
    assert(layered(v, layer).skip(kept.len() as int) =~= layer);
    if i < kept.len() {
        assert(layered(v, layer)[i] == kept[i]);
    }
}

// ---------------------------------------------------------------------------
// The catalog
// ---------------------------------------------------------------------------

/// With more skills than this, a query decides which are described.
pub const SKILL_FULL_DISPLAY_THRESHOLD: usize = 5;

/// How many skills are described then.
pub const SKILL_TOP_N: usize = 3;

/// How many of the first `n` words a text holds.
pub open spec fn hits(text: Seq<char>, tokens: Seq<Seq<char>>, n: int) -> nat
    decreases n,
{
    if n <= 0 {
        0
    } else if holds_text(text, tokens[n - 1]) {
        hits(text, tokens, n - 1) + 1
    } else {
        hits(text, tokens, n - 1)
    }
}

/// How many words of a query a skill speaks of.
pub open spec fn relevance(s: SkillView, tokens: Seq<Seq<char>>) -> nat {
    hits(
        lower_text(s.name + " "@ + s.description),
        tokens,
        tokens.len() as int,
    )
}

/// How many words of a query a text in lower case speaks of.
pub fn count_hits(text: &str, tokens: &Vec<String>) -> (r: usize)
    ensures
        r == hits(text@, texts(tokens@), tokens@.len() as int),
{
    let ghost all = texts(tokens@);
    let mut count: usize = 0;
    let mut n: usize = 0;
    while n < tokens.len()
        invariant
            n <= tokens@.len(),
            all == texts(tokens@),
            count <= n,
            count == hits(text@, all, n as int),
        decreases tokens@.len() - n,
    {
        assert(all[n as int] == tokens@[n as int]@);
        if contains(text, tokens[n].as_str()) {
            count = count + 1;
        }
        n = n + 1;
    }
    count
}

/// How many words of a query a skill speaks of.
pub fn skill_relevance(skill: &SkillMeta, query_tokens: &Vec<String>) -> (r: usize)
    ensures
        r == relevance(skill@, texts(query_tokens@)),
{
    assert(texts(query_tokens@).len() == query_tokens@.len());
    let text = to_lowercase(
        concat3(skill.name.as_str(), " ", skill.description.as_str()).as_str(),
    );
    count_hits(text.as_str(), query_tokens)
}

/// A skill by name alone.
pub open spec fn short_line(s: SkillView) -> Seq<char> {
    "- **"@ + s.name + "** [`"@ + source_label(s.source) + "`] (`"@ + s.path + "`)"@
}

/// A skill with what it is for.
pub open spec fn full_line(s: SkillView) -> Seq<char> {
    if s.description.len() == 0 {
        short_line(s)
    } else {
        "- **"@ + s.name + "** [`"@ + source_label(s.source) + "`] — "@ + s.description + " (`"@
            + s.path + "`)"@
    }
}

/// Skills with their relevance, `x` put behind all that matter as much.
pub open spec fn ranked_in(v: Seq<(nat, SkillView)>, x: (nat, SkillView)) -> Seq<(nat, SkillView)>
    decreases v.len(),
{
    if v.len() == 0 {
        seq![x]
    } else if v[0].0 < x.0 {
        seq![x] + v
    } else {
        seq![v[0]] + ranked_in(v.skip(1), x)
    }
}

/// The first `n` skills from the most relevant down; equals keep their order.
pub open spec fn ranked_skills(v: Seq<SkillView>, tokens: Seq<Seq<char>>, n: int) -> Seq<
    (nat, SkillView),
>
    decreases n,
{
    if n <= 0 {
        Seq::empty()
    } else {
        ranked_in(ranked_skills(v, tokens, n - 1), (relevance(v[n - 1], tokens), v[n - 1]))
    }
}

/// What introduces the skills.
pub open spec fn catalog_head() -> Seq<Seq<char>> {
    seq![
        "## Skills"@,
        ""@,
        "The following skills are installed. When a task matches a skill's description, use `read_file` with the SKILL.md path shown in parentheses (e.g. `system://skills/anthropics/pdf/SKILL.md`) to load the full instructions before proceeding."@,
        ""@,
    ]
}

/// The lines on skills by relevance: the first few in full.
pub open spec fn ranked_lines(v: Seq<(nat, SkillView)>) -> Seq<Seq<char>> {
    Seq::new(
        v.len(),
        |i: int|
            if i < SKILL_TOP_N {
                full_line(v[i].1)
            } else {
                short_line(v[i].1)
            },
    )
}

/// The list of skills. Where there are many and one matches the query, the best
/// matches come first and only they are described.
pub open spec fn catalog(v: Seq<SkillView>, tokens: Option<Seq<Seq<char>>>) -> Option<Seq<char>> {
    if v.len() == 0 {
        None
    } else {
        let full = catalog_head() + v.map_values(|s: SkillView| full_line(s));
        Some(
            joined(
                match tokens {
                    Some(t) => {
                        let ranked = ranked_skills(v, t, v.len() as int);
                        if v.len() > SKILL_FULL_DISPLAY_THRESHOLD && ranked[0].0 > 0 {
                            catalog_head() + ranked_lines(ranked)
                        } else {
                            full
                        }
                    },
                    None => full,
                },
                "\n"@,
            ),
        )
    }
}

fn short_text(s: &SkillMeta) -> (r: String)
    ensures
        r@ == short_line(s@),
{
    let mut t = owned("- **");
    t.append(s.name.as_str());
    t.append("** [`");
    t.append(s.source.label());
    t.append("`] (`");
    t.append(s.path.as_str());
    t.append("`)");
    t
}

fn full_text(s: &SkillMeta) -> (r: String)
    ensures
        r@ == full_line(s@),
{
    if s.description.as_str().is_empty() {
        return short_text(s);
    }
    let mut t = owned("- **");
    t.append(s.name.as_str());
    t.append("** [`");
    t.append(s.source.label());
    t.append("`] — ");
    t.append(s.description.as_str());
    t.append(" (`");
    t.append(s.path.as_str());
    t.append("`)");
    t
}

/// Skills with their relevance, seen through their views.
pub open spec fn scored_view(v: Seq<(usize, SkillMeta)>) -> Seq<(nat, SkillView)> {
    v.map_values(|e: (usize, SkillMeta)| (e.0 as nat, e.1@))
}

fn rank_in(v: &mut Vec<(usize, SkillMeta)>, score: usize, s: SkillMeta)
    ensures
        scored_view(final(v)@) == ranked_in(scored_view(old(v)@), (score as nat, s@)),
{
    let ghost start = scored_view(v@);
    let ghost e = (score as nat, s@);
    let mut i: usize = 0;
    assert(start.skip(0) =~= start);
    assert(start.take(0) + ranked_in(start.skip(0), e) =~= ranked_in(start, e));
    while i < v.len()
        invariant
            i <= v@.len(),
            v@ == old(v)@,
            start == scored_view(v@),
            e == (score as nat, s@),
            start.take(i as int) + ranked_in(start.skip(i as int), e) == ranked_in(start, e),
        decreases v@.len() - i,
    {
        let ghost rest = start.skip(i as int);
        assert(rest[0] == (v@[i as int].0 as nat, v@[i as int].1@));
        if v[i].0 < score {
            v.insert(i, (score, s));
            assert(scored_view(v@) =~= start.insert(i as int, e));
            assert(start.take(i as int) + (seq![e] + rest) =~= start.insert(i as int, e));
            return;
        }
        assert(rest.skip(1) =~= start.skip(i + 1));
        assert(start.take(i as int) + (seq![rest[0]] + ranked_in(rest.skip(1), e)) =~= start.take(
            i + 1,
        ) + ranked_in(start.skip(i + 1), e));
        i = i + 1;
    }
    v.push((score, s));
    assert(start.skip(i as int) =~= Seq::<(nat, SkillView)>::empty());
    assert(scored_view(v@) =~= start.push(e));
    assert(start.take(i as int) + seq![e] =~= start.push(e));
}

fn rank_all(skills: &Vec<SkillMeta>, tokens: &Vec<String>) -> (r: Vec<(usize, SkillMeta)>)
    ensures
        scored_view(r@) == ranked_skills(
            skills_view(skills@),
            texts(tokens@),
            skills@.len() as int,
        ),
{
    let mut r: Vec<(usize, SkillMeta)> = Vec::new();
    let mut n: usize = 0;
    assert(scored_view(r@) =~= Seq::empty());
    while n < skills.len()
        invariant
            n <= skills@.len(),
            scored_view(r@) == ranked_skills(skills_view(skills@), texts(tokens@), n as int),
        decreases skills@.len() - n,
    {
        assert(skills_view(skills@)[n as int] == skills@[n as int]@);
        rank_in(&mut r, skill_relevance(&skills[n], tokens), skills[n].copy());
        n = n + 1;
    }
    r
}

fn start_catalog() -> (r: Vec<String>)
    ensures
        texts(r@) == catalog_head(),
        r@.len() == 4,
{
    let mut r: Vec<String> = Vec::new();
    r.push(owned("## Skills"));
    r.push(owned(""));
    r.push(
        owned(
            "The following skills are installed. When a task matches a skill's description, use `read_file` with the SKILL.md path shown in parentheses (e.g. `system://skills/anthropics/pdf/SKILL.md`) to load the full instructions before proceeding.",
        ),
    );
    r.push(owned(""));
    assert(texts(r@) =~= catalog_head());
    r
}

fn ranked_catalog(ranked: &Vec<(usize, SkillMeta)>) -> (r: String)
    ensures
        r@ == joined(catalog_head() + ranked_lines(scored_view(ranked@)), "\n"@),
{
    let ghost all = ranked_lines(scored_view(ranked@));
    let mut out = start_catalog();
    let mut i: usize = 0;
    assert(texts(out@) =~= catalog_head() + all.take(0));
    while i < ranked.len()
        invariant
            i <= ranked@.len(),
            all == ranked_lines(scored_view(ranked@)),
            texts(out@) == catalog_head() + all.take(i as int),
        decreases ranked@.len() - i,
    {
        let line = if i < SKILL_TOP_N {
            full_text(&ranked[i].1)
        } else {
            short_text(&ranked[i].1)
        };
        assert(all[i as int] == line@);
        let ghost before = texts(out@);
        let ghost view = line@;
        out.push(line);
        assert(texts(out@) =~= before.push(view));
        i = i + 1;
        assert(texts(out@) =~= catalog_head() + all.take(i as int));
    }
    assert(all.take(i as int) =~= all);
    join(&out, "\n")
}

fn full_catalog(skills: &Vec<SkillMeta>) -> (r: String)
    ensures
        r@ == joined(
            catalog_head() + skills_view(skills@).map_values(|s: SkillView| full_line(s)),
            "\n"@,
        ),
{
    let ghost all = skills_view(skills@).map_values(|s: SkillView| full_line(s));
    let mut out = start_catalog();
    let mut i: usize = 0;
    assert(texts(out@) =~= catalog_head() + all.take(0));
    while i < skills.len()
        invariant
            i <= skills@.len(),
            all == skills_view(skills@).map_values(|s: SkillView| full_line(s)),
            texts(out@) == catalog_head() + all.take(i as int),
        decreases skills@.len() - i,
    {
        let line = full_text(&skills[i]);
        assert(all[i as int] == line@);
        let ghost before = texts(out@);
        let ghost view = line@;
        out.push(line);
        assert(texts(out@) =~= before.push(view));
        i = i + 1;
        assert(texts(out@) =~= catalog_head() + all.take(i as int));
    }
    assert(all.take(i as int) =~= all);
    join(&out, "\n")
}

/// The words of an optional query.
pub open spec fn opt_tokens(o: Option<&Vec<String>>) -> Option<Seq<Seq<char>>> {
    match o {
        Some(v) => Some(texts(v@)),
        None => None,
    }
}

proof fn lemma_ranked_len(v: Seq<SkillView>, tokens: Seq<Seq<char>>, n: int)
    requires
        0 <= n,
    ensures
        ranked_skills(v, tokens, n).len() == n,
    decreases n,
{
    if n > 0 {
        lemma_ranked_len(v, tokens, n - 1);
        lemma_ranked_in_len(
            ranked_skills(v, tokens, n - 1),
            (relevance(v[n - 1], tokens), v[n - 1]),
        );
    }
}

proof fn lemma_ranked_in_len(v: Seq<(nat, SkillView)>, x: (nat, SkillView))
    ensures
        ranked_in(v, x).len() == v.len() + 1,
    decreases v.len(),
{
    if v.len() > 0 {
        lemma_ranked_in_len(v.skip(1), x);
    }
}

/// The list of skills for the instructions of the system; nothing where there
/// are none. `query_tokens` are the words of the query, where there is one.
pub fn render_skills_catalog(skills: &Vec<SkillMeta>, query_tokens: Option<&Vec<String>>) -> (r:
    Option<String>)
    ensures
        opt_text(r) == catalog(skills_view(skills@), opt_tokens(query_tokens)),
{
    assert(skills_view(skills@).len() == skills@.len());
    if skills.len() == 0 {
        return None;
    }
    if skills.len() > SKILL_FULL_DISPLAY_THRESHOLD {
        if let Some(tokens) = query_tokens {
            let ranked = rank_all(skills, tokens);
            proof {
                lemma_ranked_len(skills_view(skills@), texts(tokens@), skills@.len() as int);
                assert(scored_view(ranked@).len() == ranked@.len());
                assert(scored_view(ranked@)[0].0 == ranked@[0].0);
            }
            if ranked[0].0 > 0 {
                return Some(ranked_catalog(&ranked));
            }
        }
    }
    Some(full_catalog(skills))
}

proof fn lemma_ranked_in(v: Seq<(nat, SkillView)>, x: (nat, SkillView))
    requires
        forall|i: int, j: int| 0 <= i < j < v.len() ==> (#[trigger] v[i]).0 >= (#[trigger] v[j]).0,
    ensures
        forall|i: int, j: int|
            0 <= i < j < ranked_in(v, x).len() ==> (#[trigger] ranked_in(v, x)[i]).0 >= (
            #[trigger] ranked_in(v, x)[j]).0,
        forall|i: int|
            0 <= i < ranked_in(v, x).len() ==> v.contains(#[trigger] ranked_in(v, x)[i])
                || ranked_in(v, x)[i] == x,
    decreases v.len(),
{
    let r = ranked_in(v, x);
    if v.len() > 0 {
        if v[0].0 < x.0 {
            assert forall|i: int| 0 <= i < r.len() implies v.contains(#[trigger] r[i]) || r[i]
                == x by {
                if i > 0 {
                    assert(r[i] == v[i - 1]);
                }
            }
            assert forall|i: int, j: int| 0 <= i < j < r.len() implies (#[trigger] r[i]).0 >= (
            #[trigger] r[j]).0 by {
                assert(r[j] == v[j - 1]);
                if i > 0 {
                    assert(r[i] == v[i - 1]);
                } else if j > 1 {
                    assert(v[0].0 >= v[j - 1].0);
                }
            }
        } else {
            let rest = v.skip(1);
            assert forall|i: int, j: int| 0 <= i < j < rest.len() implies (#[trigger] rest[i]).0
                >= (#[trigger] rest[j]).0 by {
                assert(rest[i] == v[i + 1] && rest[j] == v[j + 1]);
            }
            lemma_ranked_in(rest, x);
            let p = ranked_in(rest, x);
            assert(r =~= seq![v[0]] + p);
            assert forall|i: int| 0 <= i < r.len() implies v.contains(#[trigger] r[i]) || r[i]
                == x by {
                if i > 0 {
                    assert(r[i] == p[i - 1]);
                    if p[i - 1] != x {
                        assert(rest.contains(p[i - 1]));
                        let k = choose|k: int| 0 <= k < rest.len() && rest[k] == p[i - 1];
                        assert(v[k + 1] == r[i]);
                    }
                }
            }
            assert forall|i: int, j: int| 0 <= i < j < r.len() implies (#[trigger] r[i]).0 >= (
            #[trigger] r[j]).0 by {
                assert(r[j] == p[j - 1]);
                if i > 0 {
                    assert(r[i] == p[i - 1]);
                } else if p[j - 1] != x {
                    assert(rest.contains(p[j - 1]));
                    let k = choose|k: int| 0 <= k < rest.len() && rest[k] == p[j - 1];
                    assert(v[k + 1] == p[j - 1]);
                    assert(v[0].0 >= v[k + 1].0);
                }
            }
        }
    }
}

proof fn lemma_ranked_skills(v: Seq<SkillView>, tokens: Seq<Seq<char>>, n: int)
    requires
        0 <= n,
    ensures
        forall|i: int, j: int|
            0 <= i < j < ranked_skills(v, tokens, n).len() ==> (#[trigger] ranked_skills(
                v,
                tokens,
                n,
            )[i]).0 >= (#[trigger] ranked_skills(v, tokens, n)[j]).0,
    decreases n,
{
    if n > 0 {
        lemma_ranked_skills(v, tokens, n - 1);
        lemma_ranked_in(
            ranked_skills(v, tokens, n - 1),
            (relevance(v[n - 1], tokens), v[n - 1]),
        );
    }
}

/// Where a query decides, no skill that is described matters less than one that
/// is only named, and every skill is listed.
pub proof fn law_best_skills_described(v: Seq<SkillView>, tokens: Seq<Seq<char>>, i: int, j: int)
    requires
        0 <= i < SKILL_TOP_N <= j < v.len(),
    ensures
        ({
            let ranked = ranked_skills(v, tokens, v.len() as int);
            ranked.len() == v.len() && ranked[i].0 >= ranked[j].0
        }),
{
    lemma_ranked_len(v, tokens, v.len() as int);
    lemma_ranked_skills(v, tokens, v.len() as int);
}

// ---------------------------------------------------------------------------
// Skills of the system
// ---------------------------------------------------------------------------

/// The pieces of a path are all more than nothing.
pub open spec fn has_no_empty_piece(s: Seq<char>) -> bool {
    s.len() > 0 && !begins(s, "/"@) && !ends(s, "/"@) && !holds_text(s, "//"@)
}

/// A path without what stands before the skills of the system.
pub open spec fn without_scheme(path: Seq<char>) -> Seq<char> {
    if begins(path, "system://skills/"@) {
        path.skip("system://skills/"@.len() as int)
    } else {
        path
    }
}

/// A path without the name of the file that describes a skill.
pub open spec fn without_file(path: Seq<char>) -> Seq<char> {
    if ends(path, "/SKILL.md"@) {
        path.take(path.len() - "/SKILL.md"@.len())
    } else {
        path
    }
}

/// The directory of a skill of the system, where the path is sound.
pub open spec fn relative_dir(path: Seq<char>) -> Option<Seq<char>> {
    let d = without_file(without_scheme(path));
    if d.len() == 0 || holds_text(d, ".."@) || !has_no_empty_piece(d) {
        None
    } else {
        Some(d)
    }
}

fn strip_suffix(s: &str, p: &str) -> (r: Option<String>)
    ensures
        opt_text(r) == (if ends(s@, p@) {
            Some(s@.take(s@.len() - p@.len()))
        } else {
            None
        }),
{
    if ends_with(s, p) {
        let v = chars_of(s);
        let n: usize = v.len() - char_count(p);
        let t = text_between(&v, 0, n);
        assert(t@ =~= s@.take(s@.len() - p@.len()));
        Some(t)
    } else {
        None
    }
}

/// The directory of a skill of the system, from its path.
pub fn system_skill_relative_dir(path: &str) -> (r: Option<String>)
    ensures
        opt_text(r) == relative_dir(path@),
{
    let relative = match strip_prefix(path, "system://skills/") {
        Some(t) => t,
        None => owned(path),
    };
    let dir = match strip_suffix(relative.as_str(), "/SKILL.md") {
        Some(t) => t,
        None => relative,
    };
    let d = dir.as_str();
    if d.is_empty() || contains(d, "..") || starts_with(d, "/") || ends_with(d, "/") || contains(
        d,
        "//",
    ) {
        return None;
    }
    Some(dir)
}

/// A pattern covers a directory: it is the directory or one above it.
pub open spec fn pattern_covers(pattern: Seq<char>, dir: Seq<char>) -> bool {
    dir == pattern || begins(dir, pattern + "/"@)
}

/// The directory that a path is judged by.
pub open spec fn judged_dir(path: Seq<char>) -> Seq<char> {
    match relative_dir(path) {
        Some(d) => d,
        None => path,
    }
}

/// One of the patterns covers the skill at a path.
pub open spec fn some_pattern_covers(path: Seq<char>, patterns: Seq<Seq<char>>) -> bool {
    exists|i: int| 0 <= i < patterns.len() && pattern_covers(#[trigger] patterns[i], judged_dir(path))
}

/// Whether one of the patterns covers the skill at a path.
pub fn system_skill_matches_patterns(path: &str, patterns: &Vec<String>) -> (r: bool)
    ensures
        r == some_pattern_covers(path@, texts(patterns@)),
{
    let dir = match system_skill_relative_dir(path) {
        Some(d) => d,
        None => owned(path),
    };
    let ghost all = texts(patterns@);
    let mut i: usize = 0;
    while i < patterns.len()
        invariant
            i <= patterns@.len(),
            all == texts(patterns@),
            dir@ == judged_dir(path@),
            forall|j: int| 0 <= j < i ==> !pattern_covers(#[trigger] all[j], dir@),
        decreases patterns@.len() - i,
    {
        assert(all[i as int] == patterns@[i as int]@);
        if same(dir.as_str(), patterns[i].as_str()) {
            return true;
        }
        let mut prefix = patterns[i].clone();
        prefix.append("/");
        if starts_with(dir.as_str(), prefix.as_str()) {
            return true;
        }
        i = i + 1;
    }
    false
}

/// Whether the skill at a path is switched off.
pub fn is_system_skill_disabled(path: &str, disabled: &Vec<String>) -> (r: bool)
    ensures
        r == some_pattern_covers(path@, texts(disabled@)),
{
    system_skill_matches_patterns(path, disabled)
}

/// Whether the skill at a path is switched on.
pub fn is_system_skill_enabled(path: &str, enabled: &Vec<String>) -> (r: bool)
    ensures
        r == some_pattern_covers(path@, texts(enabled@)),
{
    system_skill_matches_patterns(path, enabled)
}

/// The skills among the first `n` that are offered: those of the system only
/// where they are switched on.
pub open spec fn offered_skills(v: Seq<SkillView>, enabled: Seq<Seq<char>>, n: int) -> Seq<
    SkillView,
>
    decreases n,
{
    if n <= 0 {
        Seq::empty()
    } else if v[n - 1].source is System && !some_pattern_covers(v[n - 1].path, enabled) {
        offered_skills(v, enabled, n - 1)
    } else {
        offered_skills(v, enabled, n - 1).push(v[n - 1])
    }
}

/// The skills that are offered.
pub fn offer_skills(skills: &Vec<SkillMeta>, enabled_system_skills: &Vec<String>) -> (r: Vec<
    SkillMeta,
>)
    ensures
        skills_view(r@) == offered_skills(
            skills_view(skills@),
            texts(enabled_system_skills@),
            skills@.len() as int,
        ),
{
    let ghost all = skills_view(skills@);
    let mut out = no_skills();
    let mut n: usize = 0;
    while n < skills.len()
        invariant
            n <= skills@.len(),
            all == skills_view(skills@),
            skills_view(out@) == offered_skills(all, texts(enabled_system_skills@), n as int),
        decreases skills@.len() - n,
    {
        assert(all[n as int] == skills@[n as int]@);
        let hidden: bool = matches!(skills[n].source, SkillSource::System)
            && !is_system_skill_enabled(skills[n].path.as_str(), enabled_system_skills);
        if !hidden {
            push_skill(&mut out, skills[n].copy());
        }
        n = n + 1;
    }
    out
}

/// Where a virtual path leads.
#[derive(Debug, PartialEq, Eq)]
pub enum SkillPlace {
    /// Into the directory of the system's skills.
    System(String),
    /// Into the directory of the user's skills.
    Global(String),
    /// Nowhere.
    Nowhere,
}

/// Where a virtual path leads, by its view.
pub enum PlaceView {
    System(Seq<char>),
    Global(Seq<char>),
    Nowhere,
}

impl SkillPlace {
    pub open spec fn view(self) -> PlaceView {
        match self {
            SkillPlace::System(s) => PlaceView::System(s@),
            SkillPlace::Global(s) => PlaceView::Global(s@),
            SkillPlace::Nowhere => PlaceView::Nowhere,
        }
    }
}

/// Where a virtual path leads. A path that climbs up leads nowhere.
pub open spec fn place_of_path(path: Seq<char>) -> PlaceView {
    let system = "system://skills/"@;
    let global = "~/.lingclaw/skills/"@;
    if begins(path, system) {
        if holds_text(path.skip(system.len() as int), ".."@) {
            PlaceView::Nowhere
        } else {
            PlaceView::System(path.skip(system.len() as int))
        }
    } else if path == "system://skills"@ {
        PlaceView::System(""@)
    } else if begins(path, global) {
        if holds_text(path.skip(global.len() as int), ".."@) {
            PlaceView::Nowhere
        } else {
            PlaceView::Global(path.skip(global.len() as int))
        }
    } else if path == "~/.lingclaw/skills"@ {
        PlaceView::Global(""@)
    } else {
        PlaceView::Nowhere
    }
}

/// Where a virtual path of a skill leads, below which directory and how.
pub fn resolve_skill_path(virtual_path: &str) -> (r: SkillPlace)
    ensures
        r@ == place_of_path(virtual_path@),
{
    if let Some(rel) = strip_prefix(virtual_path, "system://skills/") {
        return if contains(rel.as_str(), "..") {
            SkillPlace::Nowhere
        } else {
            SkillPlace::System(rel)
        };
    }
    if same(virtual_path, "system://skills") {
        return SkillPlace::System(owned(""));
    }
    if let Some(rel) = strip_prefix(virtual_path, "~/.lingclaw/skills/") {
        return if contains(rel.as_str(), "..") {
            SkillPlace::Nowhere
        } else {
            SkillPlace::Global(rel)
        };
    }
    if same(virtual_path, "~/.lingclaw/skills") {
        return SkillPlace::Global(owned(""));
    }
    SkillPlace::Nowhere
}

/// `v` with `t` put before the first name that it stands before.
pub open spec fn name_placed(v: Seq<Seq<char>>, t: Seq<char>) -> Seq<Seq<char>>
    decreases v.len(),
{
    if v.len() == 0 {
        seq![t]
    } else if text_before(t, v[0]) {
        seq![t] + v
    } else {
        seq![v[0]] + name_placed(v.skip(1), t)
    }
}

/// The first `n` names in order.
pub open spec fn names_sorted(v: Seq<Seq<char>>, n: int) -> Seq<Seq<char>>
    decreases n,
{
    if n <= 0 {
        Seq::empty()
    } else {
        name_placed(names_sorted(v, n - 1), v[n - 1])
    }
}

fn place_name(v: &mut Vec<String>, t: &str)
    ensures
        texts(final(v)@) == name_placed(texts(old(v)@), t@),
{
    let ghost start = texts(v@);
    let ghost e = t@;
    let mut i: usize = 0;
    assert(start.skip(0) =~= start);
    assert(start.take(0) + name_placed(start.skip(0), e) =~= name_placed(start, e));
    while i < v.len()
        invariant
            i <= v@.len(),
            v@ == old(v)@,
            start == texts(v@),
            e == t@,
            start.take(i as int) + name_placed(start.skip(i as int), e) == name_placed(start, e),
        decreases v@.len() - i,
    {
        let ghost rest = start.skip(i as int);
        assert(rest[0] == v@[i as int]@);
        if before(t, v[i].as_str()) {
            v.insert(i, owned(t));
            assert(texts(v@) =~= start.insert(i as int, e));
            assert(start.take(i as int) + (seq![e] + rest) =~= start.insert(i as int, e));
            return;
        }
        assert(rest.skip(1) =~= start.skip(i + 1));
        assert(start.take(i as int) + (seq![rest[0]] + name_placed(rest.skip(1), e))
            =~= start.take(i + 1) + name_placed(start.skip(i + 1), e));
        i = i + 1;
    }
    v.push(owned(t));
    assert(start.skip(i as int) =~= Seq::<Seq<char>>::empty());
    assert(texts(v@) =~= start.push(e));
    assert(start.take(i as int) + seq![e] =~= start.push(e));
}

/// Names in order.
pub fn sort_names(names: &Vec<String>) -> (r: Vec<String>)
    ensures
        texts(r@) == names_sorted(texts(names@), names@.len() as int),
{
    let mut out: Vec<String> = Vec::new();
    let mut n: usize = 0;
    assert(texts(out@) =~= Seq::empty());
    while n < names.len()
        invariant
            n <= names@.len(),
            texts(out@) == names_sorted(texts(names@), n as int),
        decreases names@.len() - n,
    {
        assert(texts(names@)[n as int] == names@[n as int]@);
        place_name(&mut out, names[n].as_str());
        n = n + 1;
    }
    out
}

/// The groups of the system's skills, given the directories that were found.
pub fn list_system_skill_groups(directories: &Vec<String>) -> (r: Vec<String>)
    ensures
        texts(r@) == names_sorted(texts(directories@), directories@.len() as int),
{
    sort_names(directories)
}

} // verus!
