//! The instructions of the system as a message.

use crate::chat::{ChatMessage, plain_message, text_message};
use crate::memory::model::{StructuredMemory, memory_empty};
use crate::memory::prompt::{format_memory_for_injection, injection_text};
use crate::memory::select::{MemoryQuery, QueryView, opt_query, scores_fit};
use crate::prompts::assembly::{
    MemoryFiles, PersonaFiles, PrefixParts, PrefixView, SuffixParts, SuffixView,
    SystemPromptToolMode, build_system_prompt_suffix, load_memory_uncached,
    load_persona_uncached, notes_text, persona_text, prompt_text,
};
use crate::prompts::cache::{PrefixCache, build_system_prompt_static_prefix_cached};
use crate::prompts::clock::{LocalTimeSnapshot, date_text, has_date, label_text};
use crate::prompts::skills::{
    SkillMeta, catalog, offer_skills, offered_skills, render_skills_catalog, skills_view,
};
use crate::providers::caching::ENV_BLOCK_DELIMITER;
use crate::text::{clone_opt, opt_text, texts};
use vstd::prelude::*;
use vstd::string::*;

verus! {

/// All that the instructions are made from.
#[derive(Debug)]
pub struct PromptInputs {
    pub workspace: String,
    pub os_name: String,
    pub model: String,
    pub now: LocalTimeSnapshot,
    pub persona_files: PersonaFiles,
    pub memory_files: MemoryFiles,
    /// The lines on tools for the mode that is asked for.
    pub tool_lines: String,
    /// A note on tools of other processes.
    pub mcp_note: Option<String>,
    /// The skills of all layers.
    pub skills: Vec<SkillMeta>,
    pub enabled_system_skills: Vec<String>,
    /// The list of other assistants.
    pub agents_catalog: Option<String>,
    /// The structured memory, where it is in use.
    pub memory: Option<StructuredMemory>,
    pub query: Option<MemoryQuery>,
}

/// The list of the skills that are offered.
pub open spec fn skills_section(i: PromptInputs) -> Option<Seq<char>> {
    catalog(
        offered_skills(
            skills_view(i.skills@),
            texts(i.enabled_system_skills@),
            i.skills@.len() as int,
        ),
        match i.query {
            Some(q) => Some(q@.tokens),
            None => None,
        },
    )
}

/// The query behind the inputs.
pub open spec fn input_query(i: PromptInputs) -> Option<QueryView> {
    match i.query {
        Some(q) => Some(q@),
        None => None,
    }
}

/// What the lasting part is made of. With leave only to plan, neither tools of
/// other processes nor other assistants are offered.
pub open spec fn prefix_of(i: PromptInputs, mode: SystemPromptToolMode) -> PrefixView {
    PrefixView {
        persona: persona_text(i.persona_files),
        tool_lines: i.tool_lines@,
        mcp_note: if mode is PlanOnly {
            None
        } else {
            opt_text(i.mcp_note)
        },
        skills: skills_section(i),
        agents: if mode is PlanOnly {
            None
        } else {
            opt_text(i.agents_catalog)
        },
    }
}

/// What the rest is made of.
pub open spec fn suffix_of(i: PromptInputs) -> SuffixView {
    let secs = i.now.secs as int;
    let offset = i.now.offset as int;
    SuffixView {
        notes: notes_text(
            i.memory_files,
            date_text(secs, offset),
            date_text(secs - 86400, offset),
        ),
        structured_memory: match i.memory {
            Some(m) => if memory_empty(m@) {
                None
            } else {
                Some(injection_text(m@, input_query(i)))
            },
            None => None,
        },
        os_name: i.os_name@,
        local_time: label_text(secs, offset),
        working_directory: i.workspace@,
        model: i.model@,
    }
}

/// The inputs can be used: the moment has a date, and the query is not too long
/// to be scored.
pub open spec fn inputs_ok(i: PromptInputs) -> bool {
    i.now.wf() && has_date(i.now.secs - 86400) && scores_fit(input_query(i))
}

fn collect_prefix(inputs: &PromptInputs, mode: SystemPromptToolMode) -> (r: PrefixParts)
    ensures
        r@ == prefix_of(*inputs, mode),
{
    let offered = offer_skills(&inputs.skills, &inputs.enabled_system_skills);
    let tokens: Option<&Vec<String>> = match &inputs.query {
        Some(q) => Some(&q.tokens),
        None => None,
    };
    let skills = render_skills_catalog(&offered, tokens);
    let plan: bool = mode.is_plan_only();
    let mcp_note: Option<String> = if plan {
        None
    } else {
        clone_opt(&inputs.mcp_note)
    };
    let agents: Option<String> = if plan {
        None
    } else {
        clone_opt(&inputs.agents_catalog)
    };
    PrefixParts {
        persona: load_persona_uncached(&inputs.persona_files),
        tool_lines: inputs.tool_lines.clone(),
        mcp_note,
        skills,
        agents,
    }
}

fn collect_suffix(inputs: &PromptInputs) -> (r: SuffixParts)
    requires
        inputs_ok(*inputs),
    ensures
        r@ == suffix_of(*inputs),
{
    let today = inputs.now.today();
    let yesterday = inputs.now.yesterday();
    let query: Option<&MemoryQuery> = match &inputs.query {
        Some(q) => Some(q),
        None => None,
    };
    assert(opt_query(query) == input_query(*inputs));
    let structured_memory: Option<String> = match &inputs.memory {
        Some(m) => format_memory_for_injection(m, query),
        None => None,
    };
    SuffixParts {
        notes: load_memory_uncached(&inputs.memory_files, today.as_str(), yesterday.as_str()),
        structured_memory,
        os_name: inputs.os_name.clone(),
        local_time: inputs.now.datetime_label(),
        working_directory: inputs.workspace.clone(),
        model: inputs.model.clone(),
    }
}

/// The instructions of the system for a mode. `cache` may hold the lasting part
/// already; what comes out does not depend on it.
pub fn build_system_prompt_with_query_cached_for_tool_mode(
    cache: &mut PrefixCache,
    inputs: &PromptInputs,
    mode: SystemPromptToolMode,
) -> (r: ChatMessage)
    requires
        old(cache).wf(),
        inputs_ok(*inputs),
    ensures
        final(cache).wf(),
        r@ == plain_message("system"@, prompt_text(prefix_of(*inputs, mode), suffix_of(*inputs), mode)),
{
    let parts = collect_prefix(inputs, mode);
    let suffix = collect_suffix(inputs);
    let query: Option<&str> = match &inputs.query {
        Some(q) => Some(q.text.as_str()),
        None => None,
    };
    let mut out = build_system_prompt_static_prefix_cached(
        cache,
        inputs.workspace.as_str(),
        query,
        &inputs.enabled_system_skills,
        &parts,
        mode,
    );
    out.append(ENV_BLOCK_DELIMITER);
    out.append(build_system_prompt_suffix(&suffix).as_str());
    text_message("system", out)
}

/// The instructions of the system for an assistant that may act.
pub fn build_system_prompt_with_query_cached(cache: &mut PrefixCache, inputs: &PromptInputs) -> (r:
    ChatMessage)
    requires
        old(cache).wf(),
        inputs_ok(*inputs),
    ensures
        final(cache).wf(),
        r@ == plain_message(
            "system"@,
            prompt_text(
                prefix_of(*inputs, SystemPromptToolMode::Execute),
                suffix_of(*inputs),
                SystemPromptToolMode::Execute,
            ),
        ),
{
    build_system_prompt_with_query_cached_for_tool_mode(
        cache,
        inputs,
        SystemPromptToolMode::Execute,
    )
}

/// The instructions of the system for an assistant that may act, without a
/// cache.
pub fn build_system_prompt(inputs: &PromptInputs) -> (r: ChatMessage)
    requires
        inputs_ok(*inputs),
    ensures
        r@ == plain_message(
            "system"@,
            prompt_text(
                prefix_of(*inputs, SystemPromptToolMode::Execute),
                suffix_of(*inputs),
                SystemPromptToolMode::Execute,
            ),
        ),
{
    let mut cache = PrefixCache::new();
    build_system_prompt_with_query_cached(&mut cache, inputs)
}

/// With leave only to plan, the instructions do not depend on tools of other
/// processes or other assistants.
pub proof fn law_plan_only_offers_less(a: PromptInputs, b: PromptInputs)
    requires
        a.persona_files == b.persona_files,
        a.tool_lines == b.tool_lines,
        a.skills == b.skills,
        a.enabled_system_skills == b.enabled_system_skills,
        a.query == b.query,
    ensures
        prefix_of(a, SystemPromptToolMode::PlanOnly) == prefix_of(b, SystemPromptToolMode::PlanOnly),
{
}

} // verus!
