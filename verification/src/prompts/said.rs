//! What the instructions say.

use crate::prompts::assembly::{
    MemoryFiles, PersonaFiles, PrefixView, SuffixView, SystemPromptToolMode, agent_part,
    behavior_text, changing_suffix, day_part, file_part, notes_text, persona_parts, persona_text,
    prompt_file_note, prompt_text, section_text, stable_prefix,
};
use crate::prompts::frontmatter::{nonblank_file, nonblank_prompt};
use crate::providers::caching::ENV_BLOCK_DELIMITER;
use crate::text::{joined, opt_text, truncated};
use crate::within::{
    lemma_all_of, lemma_carries_over, lemma_in_either, lemma_joined_holds, lemma_within, occurs,
};
use vstd::prelude::*;
use vstd::string::*;

verus! {

proof fn lemma_section(before: Seq<char>, lead: Seq<char>, o: Option<Seq<char>>, x: Seq<char>)
    ensures
        occurs(before, x) ==> occurs(before + section_text(lead, o), x),
        o is Some ==> occurs(before + section_text(lead, o), o->0),
{
    lemma_in_either(before, section_text(lead, o), x);
    if o is Some {
        lemma_all_of(o->0);
        lemma_in_either(lead, o->0, o->0);
        lemma_in_either(before, section_text(lead, o), o->0);
    }
}

proof fn lemma_stable_says(p: PrefixView, mode: SystemPromptToolMode, x: Seq<char>)
    requires
        x == p.persona || x == p.tool_lines || x == behavior_text(mode) || p.mcp_note == Some(x)
            || p.skills == Some(x) || p.agents == Some(x),
    ensures
        occurs(stable_prefix(p, mode), x),
{
    lemma_all_of(x);
    let s1 = p.persona + "\n\n"@;
    let s2 = s1 + prompt_file_note();
    let s3 = s2 + "\n\n"@;
    let s4 = s3 + behavior_text(mode);
    let s5 = s4 + "\n\n## Available Tools\n"@;
    let s6 = s5 + p.tool_lines;
    let s7 = s6 + section_text("\n\n## MCP Runtime\n- "@, p.mcp_note);
    let s8 = s7 + section_text("\n\n"@, p.skills);
    lemma_in_either(p.persona, "\n\n"@, x);
    lemma_in_either(s1, prompt_file_note(), x);
    lemma_in_either(s2, "\n\n"@, x);
    lemma_in_either(s3, behavior_text(mode), x);
    lemma_in_either(s4, "\n\n## Available Tools\n"@, x);
    lemma_in_either(s5, p.tool_lines, x);
    lemma_section(s6, "\n\n## MCP Runtime\n- "@, p.mcp_note, x);
    lemma_section(s7, "\n\n"@, p.skills, x);
    lemma_section(s8, "\n\n"@, p.agents, x);
}

proof fn lemma_suffix_says(s: SuffixView, x: Seq<char>)
    requires
        x == s.notes || s.structured_memory == Some(x) || x == s.os_name || x == s.local_time || x
            == s.working_directory || x == s.model,
    ensures
        occurs(changing_suffix(s), x),
{
    lemma_all_of(x);
    let s1 = s.notes + section_text("\n\n"@, s.structured_memory);
    let s2 = s1 + "\n\n## Environment\n- OS: "@;
    let s3 = s2 + s.os_name;
    let s4 = s3 + "\n- Current system local time: "@;
    let s5 = s4 + s.local_time;
    let s6 = s5 + "\n- Working directory: "@;
    let s7 = s6 + s.working_directory;
    let s8 = s7 + "\n- Model: "@;
    lemma_section(s.notes, "\n\n"@, s.structured_memory, x);
    lemma_in_either(s1, "\n\n## Environment\n- OS: "@, x);
    lemma_in_either(s2, s.os_name, x);
    lemma_in_either(s3, "\n- Current system local time: "@, x);
    lemma_in_either(s4, s.local_time, x);
    lemma_in_either(s5, "\n- Working directory: "@, x);
    lemma_in_either(s6, s.working_directory, x);
    lemma_in_either(s7, "\n- Model: "@, x);
    lemma_in_either(s8, s.model, x);
}

/// The instructions say who the assistant is, how it works, which tools, runtime,
/// skills and agents it has, what it noted and remembers, and where it runs: the
/// system, the time, the directory and the model.
pub proof fn law_instructions_say(
    p: PrefixView,
    s: SuffixView,
    mode: SystemPromptToolMode,
    x: Seq<char>,
)
    requires
        x == p.persona || x == p.tool_lines || x == behavior_text(mode) || p.mcp_note == Some(x)
            || p.skills == Some(x) || p.agents == Some(x) || x == s.notes || s.structured_memory
            == Some(x) || x == s.os_name || x == s.local_time || x == s.working_directory || x
            == s.model,
    ensures
        occurs(prompt_text(p, s, mode), x),
{
    let stable = stable_prefix(p, mode);
    if x == s.notes || s.structured_memory == Some(x) || x == s.os_name || x == s.local_time || x
        == s.working_directory || x == s.model {
        lemma_suffix_says(s, x);
    } else {
        lemma_stable_says(p, mode, x);
    }
    lemma_in_either(stable, ENV_BLOCK_DELIMITER@, x);
    lemma_in_either(stable + ENV_BLOCK_DELIMITER@, changing_suffix(s), x);
}

proof fn lemma_file_part(name: Seq<char>, content: Option<Seq<char>>)
    ensures
        content is Some ==> file_part(name, content).len() == 1 && occurs(
            file_part(name, content)[0],
            content->0,
        ) && occurs(file_part(name, content)[0], name),
{
    if content is Some {
        let c = content->0;
        let none = Seq::<char>::empty();
        lemma_within("<!-- "@ + name + " -->\n"@, c, none);
        assert("<!-- "@ + name + " -->\n"@ + c + none =~= file_part(name, content)[0]);
        lemma_within("<!-- "@, name, " -->\n"@ + c);
        assert("<!-- "@ + name + (" -->\n"@ + c) =~= file_part(name, content)[0]);
    }
}

proof fn lemma_part_said(
    before: Seq<Seq<char>>,
    name: Seq<char>,
    content: Option<Seq<char>>,
    after: Seq<Seq<char>>,
    sep: Seq<char>,
)
    ensures
        content is Some ==> occurs(
            joined(before + file_part(name, content) + after, sep),
            content->0,
        ) && occurs(joined(before + file_part(name, content) + after, sep), name),
{
    if content is Some {
        let all = before + file_part(name, content) + after;
        let i = before.len() as int;
        lemma_file_part(name, content);
        assert(all[i] == file_part(name, content)[0]);
        lemma_joined_holds(all, sep, i);
        lemma_carries_over(joined(all, sep), all[i], content->0);
        lemma_carries_over(joined(all, sep), all[i], name);
    }
}

/// The text on who the assistant is holds, under its file's name, the guide for
/// the first run where there is one, and how the assistant works either way. Where
/// there is no guide it holds who the assistant is, who the user is and what moves
/// the assistant.
pub proof fn law_persona_says(f: PersonaFiles)
    ensures
        ({
            let guide = nonblank_prompt(opt_text(f.bootstrap));
            let new = nonblank_prompt(opt_text(f.agents));
            let old_one = nonblank_prompt(opt_text(f.agent));
            let identity = nonblank_prompt(opt_text(f.identity));
            let user = nonblank_prompt(opt_text(f.user));
            let soul = nonblank_prompt(opt_text(f.soul));
            let text = persona_text(f);
            &&& guide is Some ==> occurs(text, guide->0) && occurs(text, "BOOTSTRAP.md"@)
            &&& new is Some ==> occurs(text, new->0) && occurs(text, "AGENTS.md"@)
            &&& new is None && old_one is Some ==> occurs(text, old_one->0) && occurs(
                text,
                "AGENT.md"@,
            )
            &&& guide is None && identity is Some ==> occurs(text, identity->0) && occurs(
                text,
                "IDENTITY.md"@,
            )
            &&& guide is None && user is Some ==> occurs(text, user->0) && occurs(
                text,
                "USER.md"@,
            )
            &&& guide is None && soul is Some ==> occurs(text, soul->0) && occurs(
                text,
                "SOUL.md"@,
            )
        }),
{
    let none = Seq::<Seq<char>>::empty();
    let sep = "\n\n---\n\n"@;
    let guide = nonblank_prompt(opt_text(f.bootstrap));
    let new = nonblank_prompt(opt_text(f.agents));
    let old_one = nonblank_prompt(opt_text(f.agent));
    let a = agent_part(f);
    let name = if new is Some {
        "AGENTS.md"@
    } else {
        "AGENT.md"@
    };
    let own = if new is Some {
        new
    } else {
        old_one
    };
    assert(a == file_part(name, own));
    let parts = persona_parts(f);
    if guide is Some {
        let g = file_part("BOOTSTRAP.md"@, guide);
        lemma_part_said(none, "BOOTSTRAP.md"@, guide, a, sep);
        assert(none + g + a =~= parts);
        lemma_part_said(g, name, own, none, sep);
        assert(g + a + none =~= parts);
    } else {
        let identity = nonblank_prompt(opt_text(f.identity));
        let user = nonblank_prompt(opt_text(f.user));
        let soul = nonblank_prompt(opt_text(f.soul));
        let i = file_part("IDENTITY.md"@, identity);
        let u = file_part("USER.md"@, user);
        let s = file_part("SOUL.md"@, soul);
        lemma_part_said(none, name, own, i + u + s, sep);
        assert(none + a + (i + u + s) =~= parts);
        lemma_part_said(a, "IDENTITY.md"@, identity, u + s, sep);
        assert(a + i + (u + s) =~= parts);
        lemma_part_said(a + i, "USER.md"@, user, s, sep);
        assert(a + i + u + s =~= parts);
        lemma_part_said(a + i + u, "SOUL.md"@, soul, none, sep);
        assert(a + i + u + s + none =~= parts);
    }
}

/// The notes are empty during the first run. Otherwise they hold the lasting
/// notes, and the names of both days that have any.
pub proof fn law_notes_say(f: MemoryFiles, today: Seq<char>, yesterday: Seq<char>)
    ensures
        ({
            let text = notes_text(f, today, yesterday);
            let lasting = nonblank_prompt(opt_text(f.memory));
            let now = nonblank_prompt(opt_text(f.today));
            let before = nonblank_prompt(opt_text(f.yesterday));
            let first = nonblank_file(opt_text(f.bootstrap)) is Some;
            &&& first ==> text.len() == 0
            &&& !first && lasting is Some ==> occurs(text, lasting->0)
            &&& !first && now is Some ==> occurs(text, "memory/"@ + today + ".md"@) && occurs(
                text,
                truncated(now->0, 4000),
            )
            &&& !first && before is Some ==> occurs(text, "memory/"@ + yesterday + ".md"@)
                && occurs(text, truncated(before->0, 4000))
        }),
{
    reveal_strlit("");
    let none = Seq::<Seq<char>>::empty();
    let sep = "\n\n---\n\n"@;
    let lasting = nonblank_prompt(opt_text(f.memory));
    let now = nonblank_prompt(opt_text(f.today));
    let before = nonblank_prompt(opt_text(f.yesterday));
    let l = file_part("MEMORY.md"@, lasting);
    let t = day_part(today, opt_text(f.today));
    let y = day_part(yesterday, opt_text(f.yesterday));
    lemma_part_said(none, "MEMORY.md"@, lasting, t + y, sep);
    assert(none + l + (t + y) =~= l + t + y);
    if now is Some {
        lemma_part_said(l, "memory/"@ + today + ".md"@, Some(truncated(now->0, 4000)), y, sep);
    }
    if before is Some {
        lemma_part_said(
            l + t,
            "memory/"@ + yesterday + ".md"@,
            Some(truncated(before->0, 4000)),
            none,
            sep,
        );
        assert(l + t + y + none =~= l + t + y);
    }
}

} // verus!
