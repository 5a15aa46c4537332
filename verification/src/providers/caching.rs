//! Requests to Anthropic that mark what is worth keeping in its cache.

use crate::chat::Provider;
use crate::json::{
    Json, JsonView, Obj, find_text, items_view, json_array, json_text, jtext, lemma_object_view,
    make1, make3, member, no_items, object1, object3, push_item, with_entry,
};
use crate::providers::model::{ResolvedModel, ResolvedView};
use crate::providers::openai::{message_content_text_part, text_part};
use crate::text::{begins, chars_of, contains, holds_text, match_at, same, stands_at, text_between};
use vstd::prelude::*;
use vstd::string::*;

verus! {

/// The service keeps parts of requests.
pub open spec fn keeps_prompts(m: ResolvedView) -> bool {
    m.provider is Anthropic && (holds_text(m.api_base, "api.anthropic.com"@)
        || m.anthropic_prompt_caching)
}

/// Whether the service keeps parts of requests.
pub fn anthropic_prompt_caching_enabled(resolved: &ResolvedModel) -> (r: bool)
    ensures
        r == keeps_prompts(resolved@),
{
    matches!(resolved.provider, Provider::Anthropic) && (contains(
        resolved.api_base.as_str(),
        "api.anthropic.com",
    ) || resolved.anthropic_prompt_caching)
}

/// What separates the lasting part of the instructions from the rest.
pub const ENV_BLOCK_DELIMITER: &'static str = "\n\n---\n## Memory\n";

/// The mark of a part that is worth keeping.
pub open spec fn keep_mark() -> JsonView {
    object1("type"@, jtext("ephemeral"@))
}

fn make_keep_mark() -> (r: Json)
    ensures
        r@ == keep_mark(),
{
    make1("type", json_text("ephemeral"))
}

/// The last place at or before `i` where `p` stands in `s`.
pub open spec fn last_place(s: Seq<char>, p: Seq<char>, i: int) -> Option<int>
    decreases i + 1,
{
    if i < 0 {
        None
    } else if stands_at(s, p, i) {
        Some(i)
    } else {
        last_place(s, p, i - 1)
    }
}

/// A text that is worth keeping.
pub open spec fn kept_text(text: Seq<char>) -> JsonView {
    object3("type"@, jtext("text"@), "text"@, jtext(text), "cache_control"@, keep_mark())
}

/// The instructions of the system as they are sent: where the service keeps
/// parts, the lasting part is marked and the rest follows.
pub open spec fn system_payload(prompt: Seq<char>, cache: bool) -> JsonView {
    if !cache {
        jtext(prompt)
    } else {
        match last_place(prompt, ENV_BLOCK_DELIMITER@, prompt.len() as int) {
            Some(i) => JsonView::Array(
                seq![kept_text(prompt.take(i)), text_part("text"@, prompt.skip(i))],
            ),
            None => JsonView::Array(seq![kept_text(prompt)]),
        }
    }
}

fn find_last(v: &Vec<char>, p: &Vec<char>) -> (r: Option<usize>)
    ensures
        match r {
            Some(i) => last_place(v@, p@, v@.len() as int) == Some(i as int) && i <= v@.len(),
            None => last_place(v@, p@, v@.len() as int) is None,
        },
{
    if match_at(v, p, v.len()) {
        return Some(v.len());
    }
    let mut n: usize = v.len();
    while n > 0
        invariant
            n <= v@.len(),
            last_place(v@, p@, v@.len() as int) == last_place(v@, p@, n - 1),
        decreases n,
    {
        if match_at(v, p, n - 1) {
            return Some(n - 1);
        }
        n = n - 1;
    }
    None
}

fn make_kept_text(text: &str) -> (r: Json)
    ensures
        r@ == kept_text(text@),
{
    make3(
        "type",
        json_text("text"),
        "text",
        json_text(text),
        "cache_control",
        make_keep_mark(),
    )
}

/// The instructions of the system as they are sent.
pub fn anthropic_system_payload(system_prompt: &str, cache_enabled: bool) -> (r: Json)
    ensures
        r@ == system_payload(system_prompt@, cache_enabled),
{
    if !cache_enabled {
        return json_text(system_prompt);
    }
    let v = chars_of(system_prompt);
    let p = chars_of(ENV_BLOCK_DELIMITER);
    let mut blocks = no_items();
    match find_last(&v, &p) {
        Some(i) => {
            let stable = text_between(&v, 0, i);
            let rest = text_between(&v, i, v.len());
            assert(stable@ =~= system_prompt@.take(i as int));
            assert(rest@ =~= system_prompt@.skip(i as int));
            push_item(&mut blocks, make_kept_text(stable.as_str()));
            push_item(&mut blocks, message_content_text_part("text", rest.as_str()));
            assert(items_view(blocks@) =~= seq![
                kept_text(system_prompt@.take(i as int)),
                text_part("text"@, system_prompt@.skip(i as int)),
            ]);
        },
        None => {
            push_item(&mut blocks, make_kept_text(system_prompt));
            assert(items_view(blocks@) =~= seq![kept_text(system_prompt@)]);
        },
    }
    json_array(blocks)
}

/// The parts of the instructions make up the whole, and nothing that follows
/// the lasting part is marked.
pub proof fn law_system_payload_whole(prompt: Seq<char>)
    ensures
        match last_place(prompt, ENV_BLOCK_DELIMITER@, prompt.len() as int) {
            Some(i) => 0 <= i <= prompt.len() && prompt.take(i) + prompt.skip(i) == prompt
                && begins(prompt.skip(i), ENV_BLOCK_DELIMITER@),
            None => true,
        },
{
    lemma_last_place(prompt, ENV_BLOCK_DELIMITER@, prompt.len() as int);
    match last_place(prompt, ENV_BLOCK_DELIMITER@, prompt.len() as int) {
        Some(i) => {
            assert(prompt.take(i) + prompt.skip(i) =~= prompt);
            let p = ENV_BLOCK_DELIMITER@;
            assert(prompt.skip(i).take(p.len() as int) =~= prompt.subrange(i, i + p.len()));
        },
        None => {},
    }
}

proof fn lemma_last_place(s: Seq<char>, p: Seq<char>, i: int)
    ensures
        match last_place(s, p, i) {
            Some(k) => 0 <= k <= i && stands_at(s, p, k),
            None => true,
        },
    decreases i + 1,
{
    if i >= 0 && !stands_at(s, p, i) {
        lemma_last_place(s, p, i - 1);
    }
}

/// A value with a mark under `key`.
pub open spec fn with_member(v: JsonView, key: Seq<char>, value: JsonView) -> JsonView {
    match v {
        JsonView::Object(e) => JsonView::Object(with_entry(e, key, value)),
        JsonView::Null => object1(key, value),
        _ => v,
    }
}

fn set_member(v: &Json, key: &str, value: Json) -> (r: Json)
    ensures
        r@ == with_member(v@, key@, value@),
{
    match v.copy() {
        Json::Object(e) => {
            proof {
                lemma_object_view(e);
            }
            let mut o = Obj { entries: e };
            o.set(key, value);
            o.done()
        },
        Json::Null => make1(key, value),
        other => other,
    }
}

/// The definitions of tools with the last one marked.
pub open spec fn marked_tools(v: Seq<JsonView>, cache: bool) -> Seq<JsonView> {
    if !cache || v.len() == 0 {
        v
    } else {
        v.update(v.len() - 1, with_member(v.last(), "cache_control"@, keep_mark()))
    }
}

/// Marks the last definition of a tool, where the service keeps parts.
pub fn maybe_apply_anthropic_tool_cache_control(tools: &mut Vec<Json>, cache_enabled: bool)
    requires
        cache_enabled && old(tools)@.len() > 0 ==> old(tools)@.last()@ is Object || old(
            tools,
        )@.last()@ is Null,
    ensures
        items_view(final(tools)@) == marked_tools(items_view(old(tools)@), cache_enabled),
{
    let ghost start = items_view(tools@);
    assert(start.len() == tools@.len());
    if !cache_enabled || tools.len() == 0 {
        return;
    }
    let last: usize = tools.len() - 1;
    assert(start[last as int] == tools@[last as int]@);
    let marked = set_member(&tools[last], "cache_control", make_keep_mark());
    let ghost view = marked@;
    tools.set(last, marked);
    assert(items_view(tools@) =~= start.update(last as int, view));
}

/// A block that can be marked: no reasoning and no empty text.
pub open spec fn is_cacheable(b: JsonView) -> bool {
    match member(b, "type"@) {
        Some(JsonView::Text(t)) => if t == "thinking"@ || t == "redacted_thinking"@ {
            false
        } else if t == "text"@ {
            match member(b, "text"@) {
                Some(JsonView::Text(s)) => s.len() > 0,
                _ => false,
            }
        } else {
            true
        },
        _ => false,
    }
}

/// Whether a block can be marked.
pub fn anthropic_block_is_cacheable(block: &Json) -> (r: bool)
    ensures
        r == is_cacheable(block@),
{
    match find_text(block, "type") {
        Some(t) => if same(t, "thinking") || same(t, "redacted_thinking") {
            false
        } else if same(t, "text") {
            match find_text(block, "text") {
                Some(s) => !s.is_empty(),
                None => false,
            }
        } else {
            true
        },
        None => false,
    }
}

/// The last of the first `n` blocks that can be marked.
pub open spec fn last_cacheable(v: Seq<JsonView>, n: int) -> Option<int>
    decreases n,
{
    if n <= 0 {
        None
    } else if is_cacheable(v[n - 1]) {
        Some(n - 1)
    } else {
        last_cacheable(v, n - 1)
    }
}

/// A message with its last block marked, where one can be.
pub open spec fn marked_message(m: JsonView) -> Option<JsonView> {
    match member(m, "content"@) {
        Some(JsonView::Text(t)) => if t.len() > 0 {
            Some(with_member(m, "content"@, JsonView::Array(seq![kept_text(t)])))
        } else {
            None
        },
        Some(JsonView::Array(v)) => match last_cacheable(v, v.len() as int) {
            Some(i) => Some(
                with_member(
                    m,
                    "content"@,
                    JsonView::Array(
                        v.update(i, with_member(v[i], "cache_control"@, keep_mark())),
                    ),
                ),
            ),
            None => None,
        },
        _ => None,
    }
}

/// The messages with the last one marked that can be, among the first `n`.
pub open spec fn marked_messages(v: Seq<JsonView>, n: int) -> Seq<JsonView>
    decreases n,
{
    if n <= 0 {
        v
    } else {
        match marked_message(v[n - 1]) {
            Some(m) => v.update(n - 1, m),
            None => marked_messages(v, n - 1),
        }
    }
}

fn find_cacheable(v: &Vec<Json>) -> (r: Option<usize>)
    ensures
        match r {
            Some(i) => last_cacheable(items_view(v@), v@.len() as int) == Some(i as int) && i
                < v@.len(),
            None => last_cacheable(items_view(v@), v@.len() as int) is None,
        },
{
    let ghost all = items_view(v@);
    let mut n: usize = v.len();
    while n > 0
        invariant
            n <= v@.len(),
            all == items_view(v@),
            last_cacheable(all, v@.len() as int) == last_cacheable(all, n as int),
        decreases n,
    {
        assert(all[n - 1] == v@[n - 1]@);
        if anthropic_block_is_cacheable(&v[n - 1]) {
            return Some(n - 1);
        }
        n = n - 1;
    }
    None
}

fn copy_items(v: &Vec<Json>) -> (r: Vec<Json>)
    ensures
        items_view(r@) == items_view(v@),
        r@.len() == v@.len(),
{
    let mut r: Vec<Json> = Vec::new();
    let mut i: usize = 0;
    while i < v.len()
        invariant
            i <= v@.len(),
            r@.len() == i,
            forall|j: int| 0 <= j < i ==> (#[trigger] r@[j])@ == v@[j]@,
        decreases v@.len() - i,
    {
        r.push(v[i].copy());
        i = i + 1;
    }
    assert(items_view(r@) =~= items_view(v@));
    r
}

fn mark_message(m: &Json) -> (r: Option<Json>)
    ensures
        match r {
            Some(j) => marked_message(m@) == Some(j@),
            None => marked_message(m@) is None,
        },
{
    match m.get("content") {
        None => None,
        Some(content) => {
            if let Some(t) = content.as_str() {
                if t.is_empty() {
                    return None;
                }
                let mut blocks = no_items();
                push_item(&mut blocks, make_kept_text(t));
                assert(items_view(blocks@) =~= seq![kept_text(t@)]);
                return Some(set_member(m, "content", json_array(blocks)));
            }
            if let Some(v) = content.as_array() {
                assert(items_view(v@).len() == v@.len());
                if let Some(i) = find_cacheable(v) {
                    let mut blocks = copy_items(v);
                    let ghost before = items_view(blocks@);
                    assert(before[i as int] == blocks@[i as int]@);
                    let marked = set_member(&blocks[i], "cache_control", make_keep_mark());
                    let ghost view = marked@;
                    blocks.set(i, marked);
                    assert(items_view(blocks@) =~= before.update(i as int, view));
                    return Some(set_member(m, "content", json_array(blocks)));
                }
            }
            None
        },
    }
}

/// Marks the last block of a conversation that can be, where the service keeps
/// parts, so that as much as possible before it is kept.
pub fn maybe_apply_anthropic_message_cache_control(msgs: &mut Vec<Json>, cache_enabled: bool)
    ensures
        items_view(final(msgs)@) == (if cache_enabled {
            marked_messages(items_view(old(msgs)@), old(msgs)@.len() as int)
        } else {
            items_view(old(msgs)@)
        }),
{
    if !cache_enabled {
        return;
    }
    let ghost start = items_view(msgs@);
    let mut n: usize = msgs.len();
    while n > 0
        invariant
            n <= msgs@.len(),
            msgs@ == old(msgs)@,
            start == items_view(msgs@),
            cache_enabled,
            marked_messages(start, old(msgs)@.len() as int) == marked_messages(start, n as int),
        decreases n,
    {
        assert(start[n - 1] == msgs@[n - 1]@);
        if let Some(m) = mark_message(&msgs[n - 1]) {
            let ghost view = m@;
            msgs.set(n - 1, m);
            assert(items_view(msgs@) =~= start.update(n - 1, view));
            return;
        }
        n = n - 1;
    }
}

/// At most one message is marked; all others are sent as they are.
pub proof fn law_one_message_marked(v: Seq<JsonView>, n: int)
    requires
        0 <= n <= v.len(),
    ensures
        marked_messages(v, n) == v || exists|i: int|
            0 <= i < n && marked_message(v[i]) is Some && marked_messages(v, n)
                == #[trigger] v.update(i, marked_message(v[i])->0),
    decreases n,
{
    if n > 0 {
        match marked_message(v[n - 1]) {
            Some(m) => {
                assert(marked_messages(v, n) == v.update(n - 1, m));
            },
            None => {
                law_one_message_marked(v, n - 1);
            },
        }
    }
}

} // verus!
