//! How sessions and services are named.

use crate::chat::Provider;
use crate::text::{
    ascii_lower, begins, chars_of, concat3, contains, contains_text, first_pos, holds_text,
    opt_str, opt_text, owned, same, starts_with, text_between, texts, to_ascii_lower,
};
use vstd::prelude::*;
use vstd::string::*;

verus! {

/// The port that the program listens on where none is set.
pub const DEFAULT_PORT: u16 = 18989;

/// The session that is always there.
pub const MAIN_SESSION_ID: &'static str = "main";

// ---------------------------------------------------------------------------
// Services
// ---------------------------------------------------------------------------

/// The service that a name stands for.
pub open spec fn provider_named(name: Seq<char>) -> Option<Provider> {
    let n = ascii_lower(name);
    if n == "anthropic"@ {
        Some(Provider::Anthropic)
    } else if n == "openai"@ {
        Some(Provider::OpenAI)
    } else if n == "openai-responses"@ {
        Some(Provider::OpenAIResponses)
    } else if n == "ollama"@ {
        Some(Provider::Ollama)
    } else if n == "gemini"@ {
        Some(Provider::Gemini)
    } else {
        None
    }
}

/// What stands before the first slash of a model's name.
pub open spec fn model_prefix(model: Seq<char>) -> Option<Seq<char>> {
    if first_pos(model, '/') < model.len() {
        Some(model.take(first_pos(model, '/') as int))
    } else {
        None
    }
}

/// The service that a model is reached through: the one that is named, the one
/// that the model's name begins with, or else the one at the address.
pub open spec fn detected_provider(
    model: Seq<char>,
    api_base: Seq<char>,
    explicit: Option<Seq<char>>,
) -> Provider {
    let named = match explicit {
        Some(n) => provider_named(n),
        None => None,
    };
    let prefixed = match model_prefix(model) {
        Some(p) => provider_named(p),
        None => None,
    };
    if named is Some {
        named->0
    } else if prefixed is Some {
        prefixed->0
    } else if holds_text(ascii_lower(api_base), "anthropic"@) {
        Provider::Anthropic
    } else {
        Provider::OpenAI
    }
}

fn named_provider(name: &str) -> (r: Option<Provider>)
    ensures
        r == provider_named(name@),
{
    let lower = to_ascii_lower(name);
    let n = lower.as_str();
    if same(n, "anthropic") {
        Some(Provider::Anthropic)
    } else if same(n, "openai") {
        Some(Provider::OpenAI)
    } else if same(n, "openai-responses") {
        Some(Provider::OpenAIResponses)
    } else if same(n, "ollama") {
        Some(Provider::Ollama)
    } else if same(n, "gemini") {
        Some(Provider::Gemini)
    } else {
        None
    }
}

fn prefix_of_model(model: &str) -> (r: Option<String>)
    ensures
        opt_text(r) == model_prefix(model@),
{
    let v = chars_of(model);
    let mut i: usize = 0;
    assert(v@.skip(0) =~= v@);
    while i < v.len()
        invariant
            i <= v@.len(),
            v@ == model@,
            first_pos(v@, '/') == i + first_pos(v@.skip(i as int), '/'),
        decreases v@.len() - i,
    {
        if v[i] == '/' {
            assert(first_pos(v@.skip(i as int), '/') == 0);
            let p = text_between(&v, 0, i);
            assert(p@ =~= model@.take(i as int));
            return Some(p);
        }
        assert(v@.skip(i as int).skip(1) =~= v@.skip(i + 1));
        i = i + 1;
    }
    None
}

impl Provider {
    /// The service that a model is reached through.
    pub fn detect(model: &str, api_base: &str, explicit: Option<&str>) -> (r: Provider)
        ensures
            r == detected_provider(model@, api_base@, opt_str(explicit)),
    {
        if let Some(n) = explicit {
            if let Some(p) = named_provider(n) {
                return p;
            }
        }
        if let Some(prefix) = prefix_of_model(model) {
            if let Some(p) = named_provider(prefix.as_str()) {
                return p;
            }
        }
        if contains(to_ascii_lower(api_base).as_str(), "anthropic") {
            Provider::Anthropic
        } else {
            Provider::OpenAI
        }
    }
}

// ---------------------------------------------------------------------------
// Sessions
// ---------------------------------------------------------------------------

/// The sessions among the first `n` whose names begin with `target`.
pub open spec fn matching(known: Seq<Seq<char>>, target: Seq<char>, n: int) -> Seq<Seq<char>>
    decreases n,
{
    if n <= 0 {
        Seq::empty()
    } else if begins(known[n - 1], target) {
        matching(known, target, n - 1).push(known[n - 1])
    } else {
        matching(known, target, n - 1)
    }
}

/// The session that is meant: the one with that name, or else the only one whose
/// name begins so.
pub open spec fn session_meant(target: Seq<char>, known: Seq<Seq<char>>) -> Result<
    Seq<char>,
    Seq<char>,
> {
    let found = matching(known, target, known.len() as int);
    if known.contains(target) {
        Ok(target)
    } else if found.len() == 1 {
        Ok(found[0])
    } else if found.len() == 0 {
        Err("session '"@ + target + "' not found"@)
    } else {
        Err("session prefix '"@ + target + "' is ambiguous"@)
    }
}

fn find_matching(known: &Vec<String>, target: &str) -> (r: Vec<String>)
    ensures
        texts(r@) == matching(texts(known@), target@, known@.len() as int),
{
    let ghost all = texts(known@);
    let mut out: Vec<String> = Vec::new();
    let mut n: usize = 0;
    assert(texts(out@) =~= Seq::empty());
    while n < known.len()
        invariant
            n <= known@.len(),
            all == texts(known@),
            texts(out@) == matching(all, target@, n as int),
        decreases known@.len() - n,
    {
        assert(all[n as int] == known@[n as int]@);
        if starts_with(known[n].as_str(), target) {
            let ghost before = texts(out@);
            out.push(known[n].clone());
            assert(texts(out@) =~= before.push(all[n as int]));
        }
        n = n + 1;
    }
    out
}

/// The session that is meant by a name or the beginning of one.
pub fn resolve_session_target(target: &str, known_ids: &Vec<String>) -> (r: Result<String, String>)
    ensures
        (match r {
            Ok(s) => Ok(s@),
            Err(e) => Err(e@),
        }) == session_meant(target@, texts(known_ids@)),
{
    assert(texts(known_ids@).len() == known_ids@.len());
    if contains_text(known_ids, target) {
        return Ok(owned(target));
    }
    let found = find_matching(known_ids, target);
    assert(texts(found@).len() == found@.len());
    if found.len() == 1 {
        assert(texts(found@)[0] == found@[0]@);
        return Ok(found[0].clone());
    }
    if found.len() == 0 {
        return Err(concat3("session '", target, "' not found"));
    }
    Err(concat3("session prefix '", target, "' is ambiguous"))
}

proof fn lemma_matching(known: Seq<Seq<char>>, target: Seq<char>, n: int)
    requires
        0 <= n <= known.len(),
    ensures
        forall|i: int|
            0 <= i < matching(known, target, n).len() ==> known.contains(
                #[trigger] matching(known, target, n)[i],
            ) && begins(matching(known, target, n)[i], target),
    decreases n,
{
    if n > 0 {
        lemma_matching(known, target, n - 1);
        let a = matching(known, target, n - 1);
        let b = matching(known, target, n);
        assert forall|i: int| 0 <= i < b.len() implies known.contains(#[trigger] b[i]) && begins(
            b[i],
            target,
        ) by {
            if i < a.len() {
                assert(b[i] == a[i]);
            } else {
                assert(b[i] == known[n - 1]);
            }
        }
    }
}

/// The session that is found is a known one whose name begins with what was
/// given, and the full name of a session always finds it.
pub proof fn law_session_found_is_known(target: Seq<char>, known: Seq<Seq<char>>)
    ensures
        session_meant(target, known) is Ok ==> known.contains(session_meant(target, known)->Ok_0)
            && begins(session_meant(target, known)->Ok_0, target),
        known.contains(target) ==> session_meant(target, known) == Ok::<Seq<char>, Seq<char>>(
            target,
        ),
{
    lemma_matching(known, target, known.len() as int);
    assert(target.take(target.len() as int) =~= target);
}

/// What a list of sessions shows of one.
#[derive(Debug, PartialEq, Eq)]
pub struct SessionSummary {
    pub id: String,
    pub name: String,
    pub model_override: Option<String>,
}

/// The line on a session.
pub open spec fn session_line(s: SessionSummary, default_model: Seq<char>) -> Seq<char> {
    "- "@ + s.id@ + " | "@ + s.name@ + " | model: "@ + (match s.model_override {
        Some(m) => m@,
        None => default_model,
    })
}

/// The lines on the active ones among the first `n` sessions.
pub open spec fn active_lines(
    sessions: Seq<SessionSummary>,
    active: Seq<Seq<char>>,
    default_model: Seq<char>,
    n: int,
) -> Seq<Seq<char>>
    decreases n,
{
    if n <= 0 {
        Seq::empty()
    } else if active.contains(sessions[n - 1].id@) {
        active_lines(sessions, active, default_model, n - 1).push(
            session_line(sessions[n - 1], default_model),
        )
    } else {
        active_lines(sessions, active, default_model, n - 1)
    }
}

/// The lines on the sessions that are active, with their full names.
pub fn build_active_session_lines(
    sessions: &Vec<SessionSummary>,
    active_ids: &Vec<String>,
    default_model: &str,
) -> (r: Vec<String>)
    ensures
        texts(r@) == active_lines(
            sessions@,
            texts(active_ids@),
            default_model@,
            sessions@.len() as int,
        ),
{
    let mut out: Vec<String> = Vec::new();
    let mut n: usize = 0;
    assert(texts(out@) =~= Seq::empty());
    while n < sessions.len()
        invariant
            n <= sessions@.len(),
            texts(out@) == active_lines(
                sessions@,
                texts(active_ids@),
                default_model@,
                n as int,
            ),
        decreases sessions@.len() - n,
    {
        let s = &sessions[n];
        if contains_text(active_ids, s.id.as_str()) {
            let mut line = owned("- ");
            line.append(s.id.as_str());
            line.append(" | ");
            line.append(s.name.as_str());
            line.append(" | model: ");
            match &s.model_override {
                Some(m) => line.append(m.as_str()),
                None => line.append(default_model),
            }
            let ghost before = texts(out@);
            let ghost view = line@;
            out.push(line);
            assert(texts(out@) =~= before.push(view));
        }
        n = n + 1;
    }
    out
}

} // verus!
