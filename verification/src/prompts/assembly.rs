//! The instructions of the system, put together.

use crate::prompts::frontmatter::{
    nonblank_file, nonblank_prompt, read_nonempty, read_prompt_nonempty,
};
use crate::providers::caching::{ENV_BLOCK_DELIMITER, last_place, law_system_payload_whole};
use crate::text::{
    begins, clone_opt, concat3, join, joined, opt_slice_of, opt_text, owned, same, same_opt,
    stands_at, texts, truncate, truncated,
};
use vstd::prelude::*;
use vstd::string::*;

verus! {

// ---------------------------------------------------------------------------
// The persona
// ---------------------------------------------------------------------------

/// The files that say who the assistant is, each as it stands on disk.
#[derive(Debug, PartialEq, Eq)]
pub struct PersonaFiles {
    pub bootstrap: Option<String>,
    pub agents: Option<String>,
    pub agent: Option<String>,
    pub identity: Option<String>,
    pub user: Option<String>,
    pub soul: Option<String>,
}

/// A part with the name of the file that it comes from; none where the file has
/// nothing to say.
pub open spec fn file_part(name: Seq<char>, content: Option<Seq<char>>) -> Seq<Seq<char>> {
    match content {
        Some(c) => seq!["<!-- "@ + name + " -->\n"@ + c],
        None => Seq::empty(),
    }
}

/// The part on how the assistant works: from the file under its present name,
/// or else under its old one.
pub open spec fn agent_part(f: PersonaFiles) -> Seq<Seq<char>> {
    let new = nonblank_prompt(opt_text(f.agents));
    if new is Some {
        file_part("AGENTS.md"@, new)
    } else {
        file_part("AGENT.md"@, nonblank_prompt(opt_text(f.agent)))
    }
}

/// The parts that say who the assistant is. During the first run the guide comes
/// first, and of the rest only how the assistant works.
pub open spec fn persona_parts(f: PersonaFiles) -> Seq<Seq<char>> {
    let bootstrap = nonblank_prompt(opt_text(f.bootstrap));
    if bootstrap is Some {
        file_part("BOOTSTRAP.md"@, bootstrap) + agent_part(f)
    } else {
        agent_part(f) + file_part("IDENTITY.md"@, nonblank_prompt(opt_text(f.identity)))
            + file_part("USER.md"@, nonblank_prompt(opt_text(f.user))) + file_part(
            "SOUL.md"@,
            nonblank_prompt(opt_text(f.soul)),
        )
    }
}

/// Who the assistant is.
pub open spec fn persona_text(f: PersonaFiles) -> Seq<char> {
    joined(persona_parts(f), "\n\n---\n\n"@)
}

fn push_part(out: &mut Vec<String>, name: &str, content: &Option<String>)
    ensures
        texts(final(out)@) == texts(old(out)@) + file_part(name@, opt_text(*content)),
{
    let ghost start = texts(out@);
    match content {
        Some(c) => {
            let mut part = concat3("<!-- ", name, " -->\n");
            part.append(c.as_str());
            let ghost view = part@;
            out.push(part);
            assert(texts(out@) =~= start + seq![view]);
        },
        None => {
            assert(texts(out@) =~= start + file_part(name@, opt_text(*content)));
        },
    }
}

/// The text on how the assistant works, with the name of its file.
pub fn read_agent_prompt(files: &PersonaFiles) -> (r: Option<(&'static str, String)>)
    ensures
        agent_part(*files) == (match r {
            Some((name, content)) => file_part(name@, Some(content@)),
            None => Seq::empty(),
        }),
{
    if let Some(c) = read_prompt_nonempty(opt_slice_of(&files.agents)) {
        return Some(("AGENTS.md", c));
    }
    match read_prompt_nonempty(opt_slice_of(&files.agent)) {
        Some(c) => Some(("AGENT.md", c)),
        None => None,
    }
}

fn push_agent_part(out: &mut Vec<String>, files: &PersonaFiles)
    ensures
        texts(final(out)@) == texts(old(out)@) + agent_part(*files),
{
    let ghost start = texts(out@);
    match read_agent_prompt(files) {
        Some((name, content)) => push_part(out, name, &Some(content)),
        None => {
            assert(texts(out@) =~= start + agent_part(*files));
        },
    }
}

/// Who the assistant is, from the files of the session.
pub fn load_persona_uncached(files: &PersonaFiles) -> (r: String)
    ensures
        r@ == persona_text(*files),
{
    let mut parts: Vec<String> = Vec::new();
    assert(texts(parts@) =~= Seq::<Seq<char>>::empty());
    let bootstrap = read_prompt_nonempty(opt_slice_of(&files.bootstrap));
    if bootstrap.is_some() {
        push_part(&mut parts, "BOOTSTRAP.md", &bootstrap);
        push_agent_part(&mut parts, files);
        assert(texts(parts@) =~= persona_parts(*files));
        return join(&parts, "\n\n---\n\n");
    }
    push_agent_part(&mut parts, files);
    push_part(
        &mut parts,
        "IDENTITY.md",
        &read_prompt_nonempty(opt_slice_of(&files.identity)),
    );
    push_part(&mut parts, "USER.md", &read_prompt_nonempty(opt_slice_of(&files.user)));
    push_part(&mut parts, "SOUL.md", &read_prompt_nonempty(opt_slice_of(&files.soul)));
    assert(texts(parts@) =~= persona_parts(*files));
    join(&parts, "\n\n---\n\n")
}

// ---------------------------------------------------------------------------
// The notes
// ---------------------------------------------------------------------------

/// The most that a day's notes bring in, in bytes.
pub const DAILY_MEMORY_CHAR_BUDGET: usize = 4000;

/// The notes of a session, each file as it stands on disk.
#[derive(Debug, PartialEq, Eq)]
pub struct MemoryFiles {
    pub bootstrap: Option<String>,
    pub memory: Option<String>,
    pub today: Option<String>,
    pub yesterday: Option<String>,
}

/// The part for a day's notes.
pub open spec fn day_part(date: Seq<char>, content: Option<Seq<char>>) -> Seq<Seq<char>> {
    match nonblank_prompt(content) {
        Some(c) => file_part(
            "memory/"@ + date + ".md"@,
            Some(truncated(c, DAILY_MEMORY_CHAR_BUDGET as nat)),
        ),
        None => Seq::empty(),
    }
}

/// The notes of a session; none during the first run.
pub open spec fn notes_text(f: MemoryFiles, today: Seq<char>, yesterday: Seq<char>) -> Seq<char> {
    if nonblank_file(opt_text(f.bootstrap)) is Some {
        ""@
    } else {
        joined(
            file_part("MEMORY.md"@, nonblank_prompt(opt_text(f.memory))) + day_part(
                today,
                opt_text(f.today),
            ) + day_part(yesterday, opt_text(f.yesterday)),
            "\n\n---\n\n"@,
        )
    }
}

fn push_day(out: &mut Vec<String>, date: &str, content: &Option<String>)
    ensures
        texts(final(out)@) == texts(old(out)@) + day_part(date@, opt_text(*content)),
{
    let ghost start = texts(out@);
    match read_prompt_nonempty(opt_slice_of(content)) {
        Some(c) => {
            let name = concat3("memory/", date, ".md");
            push_part(
                out,
                name.as_str(),
                &Some(truncate(c.as_str(), DAILY_MEMORY_CHAR_BUDGET)),
            );
        },
        None => {
            assert(texts(out@) =~= start + day_part(date@, opt_text(*content)));
        },
    }
}

/// The notes of a session, from its files.
pub fn load_memory_uncached(files: &MemoryFiles, today: &str, yesterday: &str) -> (r: String)
    ensures
        r@ == notes_text(*files, today@, yesterday@),
{
    if read_nonempty(opt_slice_of(&files.bootstrap)).is_some() {
        return owned("");
    }
    let mut parts: Vec<String> = Vec::new();
    assert(texts(parts@) =~= Seq::<Seq<char>>::empty());
    push_part(
        &mut parts,
        "MEMORY.md",
        &read_prompt_nonempty(opt_slice_of(&files.memory)),
    );
    assert(texts(parts@) =~= file_part(
        "MEMORY.md"@,
        nonblank_prompt(opt_text(files.memory)),
    ));
    push_day(&mut parts, today, &files.today);
    push_day(&mut parts, yesterday, &files.yesterday);
    join(&parts, "\n\n---\n\n")
}

// ---------------------------------------------------------------------------
// The instructions
// ---------------------------------------------------------------------------

/// What the assistant may do.
#[derive(Clone, Copy, Debug, PartialEq, Eq, Structural)]
pub enum SystemPromptToolMode {
    Execute,
    PlanOnly,
}

/// How the assistant is to work.
pub open spec fn behavior_text(m: SystemPromptToolMode) -> Seq<char> {
    match m {
        SystemPromptToolMode::Execute => "## Agent Behavior\n\nYou operate in a ReAct loop: **Analyze** the situation, **Act** by calling tools, **Observe** the results, then either loop or **Finish**.\n\n- **Tool strategy:** Prefer calling tools to gather information over speculating. Batch independent read-only calls together. Run write operations one at a time.\n- **Error recovery:** When a tool fails, diagnose the cause and try a different approach - different arguments, a different tool, or an alternative path. Do not repeat the same failing call.\n- **Delegation:** For complex, self-contained subtasks, delegate to a sub-agent via the `task` tool. Handle simple, quick work yourself.\n- **Finishing:** When the task is complete, deliver your result. When you are genuinely stuck with no further options, say so honestly. Do not pad with speculative follow-ups."@,
        SystemPromptToolMode::PlanOnly => "## Agent Behavior\n\nYou operate in plan-only mode: **Analyze** the situation, optionally **Act** with read-only exploration tools, **Observe** the results, then **Finish** with a plan.\n\n- **Tool strategy:** Prefer read-only tools to gather information over speculating. Batch independent read-only calls together.\n- **Boundaries:** Do not modify files, run shell commands, update todos, delegate to sub-agents, or claim work has been performed.\n- **Finishing:** Deliver a concrete execution plan with affected areas, validation suggestions, and risks or unknowns. Wait for the user to approve execution before making changes."@,
    }
}

impl SystemPromptToolMode {
    /// How the assistant is to work.
    pub fn agent_behavior_section(self) -> (r: &'static str)
        ensures
            r@ == behavior_text(self),
    {
        match self {
            SystemPromptToolMode::Execute => "## Agent Behavior\n\nYou operate in a ReAct loop: **Analyze** the situation, **Act** by calling tools, **Observe** the results, then either loop or **Finish**.\n\n- **Tool strategy:** Prefer calling tools to gather information over speculating. Batch independent read-only calls together. Run write operations one at a time.\n- **Error recovery:** When a tool fails, diagnose the cause and try a different approach - different arguments, a different tool, or an alternative path. Do not repeat the same failing call.\n- **Delegation:** For complex, self-contained subtasks, delegate to a sub-agent via the `task` tool. Handle simple, quick work yourself.\n- **Finishing:** When the task is complete, deliver your result. When you are genuinely stuck with no further options, say so honestly. Do not pad with speculative follow-ups.",
            SystemPromptToolMode::PlanOnly => "## Agent Behavior\n\nYou operate in plan-only mode: **Analyze** the situation, optionally **Act** with read-only exploration tools, **Observe** the results, then **Finish** with a plan.\n\n- **Tool strategy:** Prefer read-only tools to gather information over speculating. Batch independent read-only calls together.\n- **Boundaries:** Do not modify files, run shell commands, update todos, delegate to sub-agents, or claim work has been performed.\n- **Finishing:** Deliver a concrete execution plan with affected areas, validation suggestions, and risks or unknowns. Wait for the user to approve execution before making changes.",
        }
    }

    /// Whether the assistant may only plan.
    pub fn is_plan_only(self) -> (r: bool)
        ensures
            r == (self is PlanOnly),
    {
        matches!(self, SystemPromptToolMode::PlanOnly)
    }
}

/// What the lasting part of the instructions is made of.
#[derive(Debug, PartialEq, Eq)]
pub struct PrefixParts {
    pub persona: String,
    pub tool_lines: String,
    /// A note on tools of other processes.
    pub mcp_note: Option<String>,
    pub skills: Option<String>,
    pub agents: Option<String>,
}

#[verifier::ext_equal]
pub struct PrefixView {
    pub persona: Seq<char>,
    pub tool_lines: Seq<char>,
    pub mcp_note: Option<Seq<char>>,
    pub skills: Option<Seq<char>>,
    pub agents: Option<Seq<char>>,
}

impl PrefixParts {
    pub open spec fn view(self) -> PrefixView {
        PrefixView {
            persona: self.persona@,
            tool_lines: self.tool_lines@,
            mcp_note: opt_text(self.mcp_note),
            skills: opt_text(self.skills),
            agents: opt_text(self.agents),
        }
    }

    /// A copy of these parts.
    pub fn copy(&self) -> (r: PrefixParts)
        ensures
            r@ == self@,
    {
        PrefixParts {
            persona: self.persona.clone(),
            tool_lines: self.tool_lines.clone(),
            mcp_note: clone_opt(&self.mcp_note),
            skills: clone_opt(&self.skills),
            agents: clone_opt(&self.agents),
        }
    }

    /// Whether two lists of parts say the same.
    pub fn says_same(&self, other: &PrefixParts) -> (r: bool)
        ensures
            r == (self@ == other@),
    {
        same(self.persona.as_str(), other.persona.as_str()) && same(
            self.tool_lines.as_str(),
            other.tool_lines.as_str(),
        ) && same_opt(&self.mcp_note, &other.mcp_note) && same_opt(&self.skills, &other.skills)
            && same_opt(&self.agents, &other.agents)
    }
}

/// What the rest of the instructions is made of.
#[derive(Debug, PartialEq, Eq)]
pub struct SuffixParts {
    pub notes: String,
    pub structured_memory: Option<String>,
    pub os_name: String,
    pub local_time: String,
    pub working_directory: String,
    pub model: String,
}

#[verifier::ext_equal]
pub struct SuffixView {
    pub notes: Seq<char>,
    pub structured_memory: Option<Seq<char>>,
    pub os_name: Seq<char>,
    pub local_time: Seq<char>,
    pub working_directory: Seq<char>,
    pub model: Seq<char>,
}

impl SuffixParts {
    pub open spec fn view(self) -> SuffixView {
        SuffixView {
            notes: self.notes@,
            structured_memory: opt_text(self.structured_memory),
            os_name: self.os_name@,
            local_time: self.local_time@,
            working_directory: self.working_directory@,
            model: self.model@,
        }
    }
}

/// What the assistant is told of files that are there already.
pub open spec fn prompt_file_note() -> Seq<char> {
    "## Preloaded Prompt Files\nThese prompt-file contents were already loaded into this system prompt from the session workspace.\nDo not call file tools just to verify or re-read BOOTSTRAP.md, AGENTS.md, AGENT.md, IDENTITY.md, USER.md, or SOUL.md when their content is already present below.\nOnly read those files if the user explicitly asks to inspect them, if you need to edit them, or if a task depends on checking whether the on-disk file has changed."@
}

/// A section behind two line feeds, nothing where there is none.
pub open spec fn section_text(lead: Seq<char>, o: Option<Seq<char>>) -> Seq<char> {
    match o {
        Some(s) => lead + s,
        None => Seq::empty(),
    }
}

/// The part of the instructions that stays the same from turn to turn.
pub open spec fn stable_prefix(p: PrefixView, mode: SystemPromptToolMode) -> Seq<char> {
    p.persona + "\n\n"@ + prompt_file_note() + "\n\n"@ + behavior_text(mode)
        + "\n\n## Available Tools\n"@ + p.tool_lines + section_text(
        "\n\n## MCP Runtime\n- "@,
        p.mcp_note,
    ) + section_text("\n\n"@, p.skills) + section_text("\n\n"@, p.agents)
}

/// What follows the stable part: notes, memory and environment.
pub open spec fn changing_suffix(s: SuffixView) -> Seq<char> {
    s.notes + section_text("\n\n"@, s.structured_memory) + "\n\n## Environment\n- OS: "@
        + s.os_name + "\n- Current system local time: "@ + s.local_time
        + "\n- Working directory: "@ + s.working_directory + "\n- Model: "@ + s.model
}

/// The instructions.
pub open spec fn prompt_text(p: PrefixView, s: SuffixView, mode: SystemPromptToolMode) -> Seq<
    char,
> {
    stable_prefix(p, mode) + ENV_BLOCK_DELIMITER@ + changing_suffix(s)
}

fn append_section(out: &mut String, lead: &str, o: &Option<String>)
    ensures
        final(out)@ == old(out)@ + section_text(lead@, opt_text(*o)),
{
    let ghost start = out@;
    match o {
        Some(s) => {
            let mut part = owned(lead);
            part.append(s.as_str());
            out.append(part.as_str());
        },
        None => {
            assert(out@ =~= start + section_text(lead@, opt_text(*o)));
        },
    }
}

/// The part of the instructions that stays the same from turn to turn.
pub fn build_system_prompt_static_prefix(parts: &PrefixParts, mode: SystemPromptToolMode) -> (r:
    String)
    ensures
        r@ == stable_prefix(parts@, mode),
{
    let mut out = parts.persona.clone();
    out.append("\n\n");
    out.append(
        "## Preloaded Prompt Files\nThese prompt-file contents were already loaded into this system prompt from the session workspace.\nDo not call file tools just to verify or re-read BOOTSTRAP.md, AGENTS.md, AGENT.md, IDENTITY.md, USER.md, or SOUL.md when their content is already present below.\nOnly read those files if the user explicitly asks to inspect them, if you need to edit them, or if a task depends on checking whether the on-disk file has changed.",
    );
    out.append("\n\n");
    out.append(mode.agent_behavior_section());
    out.append("\n\n## Available Tools\n");
    out.append(parts.tool_lines.as_str());
    append_section(&mut out, "\n\n## MCP Runtime\n- ", &parts.mcp_note);
    append_section(&mut out, "\n\n", &parts.skills);
    append_section(&mut out, "\n\n", &parts.agents);
    out
}

/// What follows the stable part.
pub fn build_system_prompt_suffix(parts: &SuffixParts) -> (r: String)
    ensures
        r@ == changing_suffix(parts@),
{
    let mut tail = parts.notes.clone();
    append_section(&mut tail, "\n\n", &parts.structured_memory);
    tail.append("\n\n## Environment\n- OS: ");
    tail.append(parts.os_name.as_str());
    tail.append("\n- Current system local time: ");
    tail.append(parts.local_time.as_str());
    tail.append("\n- Working directory: ");
    tail.append(parts.working_directory.as_str());
    tail.append("\n- Model: ");
    tail.append(parts.model.as_str());
    tail
}

proof fn lemma_last_place_from(s: Seq<char>, p: Seq<char>, i: int, k: int)
    requires
        0 <= k <= i,
        stands_at(s, p, k),
    ensures
        last_place(s, p, i) is Some,
        last_place(s, p, i)->0 >= k,
    decreases i - k,
{
    if !stands_at(s, p, i) {
        lemma_last_place_from(s, p, i - 1, k);
    }
}

/// The part of the instructions that stays the same is always marked as worth
/// keeping: the instructions are parted behind it, never within it.
pub proof fn law_stable_prefix_is_kept(p: PrefixView, q: SuffixView, mode: SystemPromptToolMode)
    ensures
        ({
            let s = prompt_text(p, q, mode);
            let cut = last_place(s, ENV_BLOCK_DELIMITER@, s.len() as int);
            cut is Some && stable_prefix(p, mode).len() <= cut->0 <= s.len() && begins(
                s.take(cut->0),
                stable_prefix(p, mode),
            )
        }),
{
    let s = prompt_text(p, q, mode);
    let a = stable_prefix(p, mode);
    let d = ENV_BLOCK_DELIMITER@;
    assert(s.subrange(a.len() as int, (a.len() + d.len()) as int) =~= d);
    assert(stands_at(s, d, a.len() as int));
    lemma_last_place_from(s, d, s.len() as int, a.len() as int);
    law_system_payload_whole(s);
    let cut = last_place(s, d, s.len() as int)->0;
    assert(s.take(cut).take(a.len() as int) =~= a);
}

} // verus!
