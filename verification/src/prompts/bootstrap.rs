//! The files of a new session, and when its first-run setup is over.

use crate::text::{chars_of, contains_text, opt_str, owned, same, texts, trim, trimmed};
use vstd::prelude::*;
use vstd::string::*;

verus! {

/// The file that guides the first run.
pub const BOOTSTRAP_FILE: &'static str = "BOOTSTRAP.md";

/// The file on how the assistant works, under its present name and the old one.
pub const PRIMARY_AGENT_FILE: &'static str = "AGENTS.md";

pub const LEGACY_AGENT_FILE: &'static str = "AGENT.md";

/// The directory that keeps the templates as they were first copied.
pub const BOOTSTRAP_BASELINE_DIR: &'static str = ".lingclaw-bootstrap";

/// The text with line feeds alone between its lines.
pub open spec fn with_plain_feeds(s: Seq<char>) -> Seq<char>
    decreases s.len(),
{
    if s.len() == 0 {
        Seq::empty()
    } else if s.len() >= 2 && s[0] == '\r' && s[1] == '\n' {
        seq!['\n'] + with_plain_feeds(s.skip(2))
    } else {
        seq![s[0]] + with_plain_feeds(s.skip(1))
    }
}

/// A text as it is compared.
pub open spec fn normal_template(s: Seq<char>) -> Seq<char> {
    trimmed(with_plain_feeds(s))
}

fn replace_feeds(s: &str) -> (r: String)
    ensures
        r@ == with_plain_feeds(s@),
{
    let v = chars_of(s);
    let ghost all = s@;
    let n: usize = v.len();
    let mut out = String::new();
    let mut i: usize = 0;
    assert(all.skip(0) =~= all);
    assert(out@ + with_plain_feeds(all.skip(0)) =~= with_plain_feeds(all));
    while i < n
        invariant
            v@ == all,
            n == v@.len(),
            i <= n,
            out@ + with_plain_feeds(all.skip(i as int)) == with_plain_feeds(all),
        decreases n - i,
    {
        let ghost rest = all.skip(i as int);
        let ghost before = out@;
        let c: char = v[i];
        assert(rest[0] == c);
        if n - i >= 2 && c == '\r' && v[i + 1] == '\n' {
            assert(rest[1] == v@[i + 1]);
            assert(rest.skip(2) =~= all.skip(i + 2));
            out.push('\n');
            i = i + 2;
            assert(out@ + with_plain_feeds(all.skip(i as int)) =~= before + (seq!['\n']
                + with_plain_feeds(all.skip(i as int))));
        } else {
            if n - i >= 2 {
                assert(rest[1] == v@[i + 1]);
            }
            assert(rest.skip(1) =~= all.skip(i + 1));
            out.push(c);
            i = i + 1;
            assert(out@ + with_plain_feeds(all.skip(i as int)) =~= before + (seq![c]
                + with_plain_feeds(all.skip(i as int))));
        }
    }
    assert(all.skip(i as int) =~= Seq::<char>::empty());
    assert(out@ + with_plain_feeds(all.skip(i as int)) =~= out@);
    out
}

/// A text as it is compared: without the white space around it and whatever the
/// ends of its lines.
pub fn normalize_template_text(content: &str) -> (r: String)
    ensures
        r@ == normal_template(content@),
{
    trim(replace_feeds(content).as_str())
}

/// A file was edited: it differs from the template that it was copied from, or
/// else from the present one.
pub open spec fn is_edited(
    content: Option<Seq<char>>,
    baseline: Option<Seq<char>>,
    template: Option<Seq<char>>,
) -> bool {
    let origin = if baseline is Some {
        baseline
    } else {
        template
    };
    content is Some && origin is Some && normal_template(content->0) != normal_template(origin->0)
}

/// Whether a file of the profile was edited by the user.
pub fn profile_file_has_user_edits(
    content: Option<&str>,
    baseline: Option<&str>,
    template: Option<&str>,
) -> (r: bool)
    ensures
        r == is_edited(opt_str(content), opt_str(baseline), opt_str(template)),
{
    let origin = match baseline {
        Some(b) => Some(b),
        None => template,
    };
    match (content, origin) {
        (Some(c), Some(o)) => !same(
            normalize_template_text(c).as_str(),
            normalize_template_text(o).as_str(),
        ),
        _ => false,
    }
}

/// Whether the first-run setup is over, so that its guide can go.
pub fn maybe_complete_bootstrap(
    bootstrap_exists: bool,
    identity_edited: bool,
    user_edited: bool,
) -> (r: bool)
    ensures
        r == (bootstrap_exists && (identity_edited || user_edited)),
{
    bootstrap_exists && (identity_edited || user_edited)
}

/// Whether the old file on how the assistant works gets its present name.
pub fn migrate_legacy_agent_file(target_exists: bool, legacy_exists: bool) -> (r: bool)
    ensures
        r == (!target_exists && legacy_exists),
{
    !target_exists && legacy_exists
}

/// The files that a session begins with.
pub open spec fn template_names() -> Seq<Seq<char>> {
    seq!["BOOTSTRAP.md"@, "AGENTS.md"@, "IDENTITY.md"@, "SOUL.md"@, "USER.md"@, "MEMORY.md"@]
}

/// The names among the first `n` that are to be written: those that are not
/// there, the guide of the first run only where it is wanted.
pub open spec fn missing_upto(
    names: Seq<Seq<char>>,
    present: Seq<Seq<char>>,
    include_bootstrap: bool,
    n: int,
) -> Seq<Seq<char>>
    decreases n,
{
    if n <= 0 {
        Seq::empty()
    } else {
        let rest = missing_upto(names, present, include_bootstrap, n - 1);
        if present.contains(names[n - 1]) || (!include_bootstrap && names[n - 1]
            == "BOOTSTRAP.md"@) {
            rest
        } else {
            rest.push(names[n - 1])
        }
    }
}

fn template_list() -> (r: Vec<String>)
    ensures
        texts(r@) == template_names(),
        r@.len() == 6,
{
    let mut r: Vec<String> = Vec::new();
    r.push(owned("BOOTSTRAP.md"));
    r.push(owned("AGENTS.md"));
    r.push(owned("IDENTITY.md"));
    r.push(owned("SOUL.md"));
    r.push(owned("USER.md"));
    r.push(owned("MEMORY.md"));
    assert(texts(r@) =~= template_names());
    r
}

/// The files that are to be written into a session's directory, given those
/// that are there. None that is there is ever overwritten.
pub fn write_missing_templates(present: &Vec<String>, include_bootstrap: bool) -> (r: Vec<String>)
    ensures
        texts(r@) == missing_upto(template_names(), texts(present@), include_bootstrap, 6),
{
    let names = template_list();
    let mut out: Vec<String> = Vec::new();
    let mut n: usize = 0;
    assert(texts(out@) =~= Seq::empty());
    while n < names.len()
        invariant
            n <= names@.len() == 6,
            texts(names@) == template_names(),
            texts(out@) == missing_upto(
                template_names(),
                texts(present@),
                include_bootstrap,
                n as int,
            ),
        decreases names@.len() - n,
    {
        assert(template_names()[n as int] == names@[n as int]@);
        let skipped: bool = contains_text(present, names[n].as_str()) || (!include_bootstrap
            && same(names[n].as_str(), "BOOTSTRAP.md"));
        if !skipped {
            let ghost before = texts(out@);
            out.push(names[n].clone());
            assert(texts(out@) =~= before.push(template_names()[n as int]));
        }
        n = n + 1;
    }
    out
}

/// What a template holds: what the file on disk does, or else the copy that the
/// program brings.
pub fn template_file_content(on_disk: Option<&str>, embedded: &str) -> (r: String)
    ensures
        r@ == (match opt_str(on_disk) {
            Some(s) => s,
            None => embedded@,
        }),
{
    match on_disk {
        Some(s) => owned(s),
        None => owned(embedded),
    }
}

/// Whether a template is noted as what a file was copied from: only where the
/// file is still that template.
pub fn ensure_bootstrap_baseline(
    bootstrap_exists: bool,
    baseline_exists: bool,
    template: Option<&str>,
    content: Option<&str>,
) -> (r: bool)
    ensures
        r == (bootstrap_exists && !baseline_exists && template is Some && content is Some
            && normal_template(content->0@) == normal_template(template->0@)),
{
    if !bootstrap_exists || baseline_exists {
        return false;
    }
    match (template, content) {
        (Some(t), Some(c)) => same(
            normalize_template_text(c).as_str(),
            normalize_template_text(t).as_str(),
        ),
        _ => false,
    }
}

proof fn lemma_missing(
    names: Seq<Seq<char>>,
    present: Seq<Seq<char>>,
    include_bootstrap: bool,
    n: int,
)
    ensures
        forall|i: int|
            0 <= i < missing_upto(names, present, include_bootstrap, n).len() ==> !present.contains(
                #[trigger] missing_upto(names, present, include_bootstrap, n)[i],
            ) && (include_bootstrap || missing_upto(names, present, include_bootstrap, n)[i]
                != "BOOTSTRAP.md"@),
    decreases n,
{
    if n > 0 {
        lemma_missing(names, present, include_bootstrap, n - 1);
        let a = missing_upto(names, present, include_bootstrap, n - 1);
        let b = missing_upto(names, present, include_bootstrap, n);
        assert forall|i: int| 0 <= i < b.len() implies !present.contains(#[trigger] b[i]) && (
        include_bootstrap || b[i] != "BOOTSTRAP.md"@) by {
            if i < a.len() {
                assert(b[i] == a[i]);
            }
        }
    }
}

/// No file of the user is overwritten, and once the first-run setup is over its
/// guide does not come back.
pub proof fn law_templates_spare_user_files(present: Seq<Seq<char>>, i: int)
    requires
        0 <= i < missing_upto(template_names(), present, false, 6).len(),
    ensures
        !present.contains(missing_upto(template_names(), present, false, 6)[i]),
        missing_upto(template_names(), present, false, 6)[i] != "BOOTSTRAP.md"@,
{
    lemma_missing(template_names(), present, false, 6);
}

} // verus!
