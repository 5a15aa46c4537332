//! Replies of Anthropic that arrive piece by piece.

use crate::chat::{
    AnthropicThinkingBlock, BlockView, FunctionCall, ToolCall, ToolCallView, blocks_view,
    calls_view,
};
use crate::providers::stream::{
    LiveEvent, LiveView, answer_shown, live_view, newer, pick_newer, reasoning_shown, show,
};
use crate::text::{
    begins, clone_opt, opt_text, or_empty, owned, same, starts_with, strip_prefix, text_or_empty,
    trim, trimmed,
};
use std::collections::HashMap;
use vstd::prelude::*;
use vstd::string::*;

verus! {

broadcast use vstd::std_specs::hash::group_hash_axioms;

// ---------------------------------------------------------------------------
// Events
// ---------------------------------------------------------------------------

#[derive(Clone, Copy, Debug, PartialEq, Eq, Structural)]
pub struct AnthropicUsage {
    pub input_tokens: Option<u64>,
    pub output_tokens: Option<u64>,
    pub cache_creation_input_tokens: Option<u64>,
    pub cache_read_input_tokens: Option<u64>,
}

#[derive(Clone, Copy, Debug, PartialEq, Eq, Structural)]
pub struct AnthropicMessage {
    pub usage: Option<AnthropicUsage>,
}

#[derive(Debug, PartialEq, Eq)]
pub struct AnthropicDelta {
    pub delta_type: Option<String>,
    pub text: Option<String>,
    pub thinking: Option<String>,
    pub signature: Option<String>,
    pub partial_json: Option<String>,
}

#[derive(Debug, PartialEq, Eq)]
pub struct AnthropicContentBlock {
    pub block_type: String,
    pub id: Option<String>,
    pub name: Option<String>,
    pub thinking: Option<String>,
    pub signature: Option<String>,
    pub data: Option<String>,
}

/// The data of an event.
#[derive(Debug, PartialEq, Eq)]
pub struct AnthropicEvent {
    pub index: Option<usize>,
    pub delta: Option<AnthropicDelta>,
    pub content_block: Option<AnthropicContentBlock>,
    pub message: Option<AnthropicMessage>,
    pub usage: Option<AnthropicUsage>,
}

/// A count, none where it is not known.
pub open spec fn count_or_zero(o: Option<u64>) -> nat {
    match o {
        Some(n) => n as nat,
        None => 0,
    }
}

/// All that went into a reply, whether or not it came from a cache.
pub open spec fn total_input(u: AnthropicUsage) -> nat {
    count_or_zero(u.input_tokens) + count_or_zero(u.cache_creation_input_tokens) + count_or_zero(
        u.cache_read_input_tokens,
    )
}

/// All that went into a reply, whether or not it came from a cache.
pub fn total_anthropic_input_tokens(usage: &AnthropicUsage) -> (r: u64)
    requires
        total_input(*usage) <= u64::MAX,
    ensures
        r == total_input(*usage),
{
    let a: u64 = match usage.input_tokens {
        Some(n) => n,
        None => 0,
    };
    let b: u64 = match usage.cache_creation_input_tokens {
        Some(n) => n,
        None => 0,
    };
    let c: u64 = match usage.cache_read_input_tokens {
        Some(n) => n,
        None => 0,
    };
    a + b + c
}

/// What went into a reply, where anything is known of it.
pub open spec fn known_input(u: AnthropicUsage) -> Option<u64> {
    if u.input_tokens is Some || u.cache_creation_input_tokens is Some
        || u.cache_read_input_tokens is Some {
        Some(total_input(u) as u64)
    } else {
        None
    }
}

/// What went into a reply, where anything is known of it.
pub fn anthropic_input_tokens(usage: &AnthropicUsage) -> (r: Option<u64>)
    requires
        total_input(*usage) <= u64::MAX,
    ensures
        r == known_input(*usage),
{
    if usage.input_tokens.is_some() || usage.cache_creation_input_tokens.is_some()
        || usage.cache_read_input_tokens.is_some() {
        Some(total_anthropic_input_tokens(usage))
    } else {
        None
    }
}

// ---------------------------------------------------------------------------
// What has been collected
// ---------------------------------------------------------------------------

/// What has been collected of a reply. As for the other streams, whoever
/// delivers the events sets `client_gone` as soon as one cannot be delivered.
#[derive(Debug)]
pub struct AnthropicStreamState {
    pub current_event_type: String,
    pub content_buf: String,
    pub thinking_buf: String,
    pub thinking_blocks: Vec<AnthropicThinkingBlock>,
    pub tool_calls: Vec<ToolCall>,
    pub input_tokens: Option<u64>,
    pub output_tokens: Option<u64>,
    pub block_tool_idx: HashMap<usize, usize>,
    pub block_thinking_idx: HashMap<usize, usize>,
    pub client_gone: bool,
    pub reasoning_started: bool,
    pub thinking_block_idx: Option<usize>,
}

/// What has been collected of a reply, with the events to show.
#[verifier::ext_equal]
pub struct BlockFlow {
    /// The kind of the event whose data comes next.
    pub event: Seq<char>,
    pub content: Seq<char>,
    pub thinking: Seq<char>,
    pub blocks: Seq<BlockView>,
    pub tool_calls: Seq<ToolCallView>,
    pub input_tokens: Option<u64>,
    pub output_tokens: Option<u64>,
    /// The call that each block of the stream belongs to.
    pub call_of: Map<usize, usize>,
    /// The reasoning that each block of the stream belongs to.
    pub reasoning_of: Map<usize, usize>,
    pub client_gone: bool,
    pub reasoning_started: bool,
    /// The block of reasoning that is under way.
    pub open_block: Option<usize>,
    pub live: Seq<LiveView>,
}

/// What has been collected, with the events to show.
pub open spec fn block_flow(s: AnthropicStreamState, live: Seq<LiveEvent>) -> BlockFlow {
    BlockFlow {
        event: s.current_event_type@,
        content: s.content_buf@,
        thinking: s.thinking_buf@,
        blocks: blocks_view(s.thinking_blocks@),
        tool_calls: calls_view(s.tool_calls@),
        input_tokens: s.input_tokens,
        output_tokens: s.output_tokens,
        call_of: s.block_tool_idx@,
        reasoning_of: s.block_thinking_idx@,
        client_gone: s.client_gone,
        reasoning_started: s.reasoning_started,
        open_block: s.thinking_block_idx,
        live: live_view(live),
    }
}

impl AnthropicStreamState {
    /// Nothing has been collected.
    pub fn new() -> (r: AnthropicStreamState)
        ensures
            block_flow(r, Seq::empty()) == empty_block_flow(),
    {
        let r = AnthropicStreamState {
            current_event_type: owned(""),
            content_buf: String::new(),
            thinking_buf: String::new(),
            thinking_blocks: Vec::new(),
            tool_calls: Vec::new(),
            input_tokens: None,
            output_tokens: None,
            block_tool_idx: HashMap::new(),
            block_thinking_idx: HashMap::new(),
            client_gone: false,
            reasoning_started: false,
            thinking_block_idx: None,
        };
        assert(calls_view(r.tool_calls@) =~= Seq::empty());
        assert(blocks_view(r.thinking_blocks@) =~= Seq::empty());
        assert(live_view(Seq::empty()) =~= Seq::empty());
        r
    }
}

/// Nothing has been collected.
pub open spec fn empty_block_flow() -> BlockFlow {
    BlockFlow {
        event: ""@,
        content: Seq::empty(),
        thinking: Seq::empty(),
        blocks: Seq::empty(),
        tool_calls: Seq::empty(),
        input_tokens: None,
        output_tokens: None,
        call_of: Map::empty(),
        reasoning_of: Map::empty(),
        client_gone: false,
        reasoning_started: false,
        open_block: None,
        live: Seq::empty(),
    }
}

/// An event is shown, unless nobody looks any more.
pub open spec fn block_shown(f: BlockFlow, e: LiveView) -> BlockFlow {
    if f.client_gone {
        f
    } else {
        BlockFlow { live: f.live.push(e), ..f }
    }
}

// ---------------------------------------------------------------------------
// What each event adds
// ---------------------------------------------------------------------------

/// The flow after the start of a message.
pub open spec fn after_message_start(f: BlockFlow, e: AnthropicEvent) -> BlockFlow {
    match e.message {
        Some(m) => match m.usage {
            Some(u) => BlockFlow {
                input_tokens: newer(known_input(u), f.input_tokens),
                output_tokens: u.output_tokens,
                ..f
            },
            None => f,
        },
        None => f,
    }
}

/// The flow after news of a message.
pub open spec fn after_message_delta(f: BlockFlow, e: AnthropicEvent) -> BlockFlow {
    match e.usage {
        Some(u) => BlockFlow {
            input_tokens: newer(known_input(u), f.input_tokens),
            output_tokens: newer(u.output_tokens, f.output_tokens),
            ..f
        },
        None => f,
    }
}

/// The flow after the start of a block of reasoning. Where the events cannot be
/// delivered the stream ends in an error, and what was collected is not used.
pub open spec fn after_thinking_start(
    f: BlockFlow,
    b: AnthropicContentBlock,
    index: Option<usize>,
) -> BlockFlow {
    let initial = or_empty(opt_text(b.thinking));
    let g = BlockFlow {
        blocks: f.blocks.push(
            BlockView {
                block_type: "thinking"@,
                thinking: Some(initial),
                signature: opt_text(b.signature),
                data: None,
            },
        ),
        ..f
    };
    let h = match index {
        Some(i) => BlockFlow {
            reasoning_of: g.reasoning_of.insert(i, f.blocks.len() as usize),
            open_block: Some(i),
            ..g
        },
        None => g,
    };
    if h.client_gone {
        h
    } else {
        let k = block_shown(BlockFlow { reasoning_started: true, ..h }, LiveView::ThinkingStart);
        if initial.len() > 0 {
            block_shown(
                BlockFlow { thinking: k.thinking + initial, ..k },
                LiveView::ThinkingDelta(initial),
            )
        } else {
            k
        }
    }
}

/// The flow after the start of a block.
pub open spec fn after_block_start(f: BlockFlow, e: AnthropicEvent) -> BlockFlow {
    match e.content_block {
        Some(b) => if b.block_type@ == "thinking"@ {
            after_thinking_start(f, b, e.index)
        } else if b.block_type@ == "redacted_thinking"@ {
            BlockFlow {
                blocks: f.blocks.push(
                    BlockView {
                        block_type: "redacted_thinking"@,
                        thinking: None,
                        signature: None,
                        data: opt_text(b.data),
                    },
                ),
                ..f
            }
        } else if b.block_type@ == "tool_use"@ {
            let g = BlockFlow {
                tool_calls: f.tool_calls.push(
                    ToolCallView {
                        id: or_empty(opt_text(b.id)),
                        call_type: "function"@,
                        gemini_thought_signature: None,
                        name: or_empty(opt_text(b.name)),
                        arguments: ""@,
                    },
                ),
                ..f
            };
            match e.index {
                Some(i) => BlockFlow {
                    call_of: g.call_of.insert(i, f.tool_calls.len() as usize),
                    ..g
                },
                None => g,
            }
        } else {
            f
        },
        None => f,
    }
}

/// The reasoning that a block of the stream belongs to, where there is some.
pub open spec fn reasoning_at(f: BlockFlow, index: Option<usize>) -> Option<int> {
    match index {
        Some(i) => if f.reasoning_of.contains_key(i) && f.reasoning_of[i] < f.blocks.len() {
            Some(f.reasoning_of[i] as int)
        } else {
            None
        },
        None => None,
    }
}

/// The call that a block of the stream belongs to, where there is one.
pub open spec fn call_at(f: BlockFlow, index: Option<usize>) -> Option<int> {
    match index {
        Some(i) => if f.call_of.contains_key(i) && f.call_of[i] < f.tool_calls.len() {
            Some(f.call_of[i] as int)
        } else {
            None
        },
        None => None,
    }
}

/// The flow after a piece of reasoning.
pub open spec fn after_thinking_delta(
    f: BlockFlow,
    text: Seq<char>,
    index: Option<usize>,
) -> BlockFlow {
    let g = match reasoning_at(f, index) {
        Some(i) => BlockFlow {
            blocks: f.blocks.update(
                i,
                BlockView {
                    thinking: Some(or_empty(f.blocks[i].thinking) + text),
                    ..f.blocks[i]
                },
            ),
            ..f
        },
        None => f,
    };
    if text.len() > 0 {
        block_shown(
            BlockFlow { thinking: g.thinking + text, ..g },
            LiveView::ThinkingDelta(text),
        )
    } else {
        g
    }
}

/// The flow after a piece of a block.
pub open spec fn after_block_delta(f: BlockFlow, e: AnthropicEvent) -> BlockFlow {
    match e.delta {
        None => f,
        Some(d) => {
            let kind = opt_text(d.delta_type);
            if kind == Some("thinking_delta"@) {
                match d.thinking {
                    Some(text) => after_thinking_delta(f, text@, e.index),
                    None => f,
                }
            } else if kind == Some("signature_delta"@) {
                match (d.signature, reasoning_at(f, e.index)) {
                    (Some(s), Some(i)) => BlockFlow {
                        blocks: f.blocks.update(
                            i,
                            BlockView { signature: Some(s@), ..f.blocks[i] },
                        ),
                        ..f
                    },
                    _ => f,
                }
            } else if kind == Some("text_delta"@) {
                match d.text {
                    Some(text) => block_shown(
                        BlockFlow { content: f.content + text@, ..f },
                        LiveView::Delta(text@),
                    ),
                    None => f,
                }
            } else if kind == Some("input_json_delta"@) {
                match (d.partial_json, call_at(f, e.index)) {
                    (Some(s), Some(i)) => BlockFlow {
                        tool_calls: f.tool_calls.update(
                            i,
                            ToolCallView {
                                arguments: f.tool_calls[i].arguments + s@,
                                ..f.tool_calls[i]
                            },
                        ),
                        ..f
                    },
                    _ => f,
                }
            } else {
                f
            }
        },
    }
}

/// The flow after the end of a block: reasoning that was under way there ends.
pub open spec fn after_block_stop(f: BlockFlow, e: AnthropicEvent) -> BlockFlow {
    if f.open_block is Some && e.index == f.open_block {
        block_shown(
            BlockFlow { open_block: None, reasoning_started: false, ..f },
            LiveView::ThinkingDone,
        )
    } else {
        f
    }
}

/// The flow after an event.
pub open spec fn after_event(f: BlockFlow, e: AnthropicEvent) -> BlockFlow {
    if f.event == "message_start"@ {
        after_message_start(f, e)
    } else if f.event == "message_delta"@ {
        after_message_delta(f, e)
    } else if f.event == "content_block_start"@ {
        after_block_start(f, e)
    } else if f.event == "content_block_delta"@ {
        after_block_delta(f, e)
    } else if f.event == "content_block_stop"@ {
        after_block_stop(f, e)
    } else {
        f
    }
}

/// The data of a line, where it holds any.
pub open spec fn line_data(line: Seq<char>) -> Option<Seq<char>> {
    let t = trimmed(line);
    if t.len() > 0 && !begins(t, "event: "@) && begins(t, "data: "@) {
        Some(trimmed(t.skip("data: "@.len() as int)))
    } else {
        None
    }
}

/// The flow after a line, given the event that its data was read as.
pub open spec fn after_line(
    f: BlockFlow,
    line: Seq<char>,
    parsed: Option<AnthropicEvent>,
) -> BlockFlow {
    let t = trimmed(line);
    if t.len() > 0 && begins(t, "event: "@) {
        BlockFlow { event: trimmed(t.skip("event: "@.len() as int)), ..f }
    } else if line_data(line) is Some {
        let g = match parsed {
            Some(e) => after_event(f, e),
            None => f,
        };
        BlockFlow { event: ""@, ..g }
    } else {
        f
    }
}

/// The counts of an event can be added.
pub open spec fn event_fits(e: AnthropicEvent) -> bool {
    &&& e.usage is Some ==> total_input(e.usage->0) <= u64::MAX
    &&& e.message is Some && e.message->0.usage is Some ==> total_input(e.message->0.usage->0)
        <= u64::MAX
}

/// The data of a line, where it holds any.
pub fn anthropic_line_data(line: &str) -> (r: Option<String>)
    ensures
        opt_text(r) == line_data(line@),
{
    let t = trim(line);
    if t.as_str().is_empty() || starts_with(t.as_str(), "event: ") {
        return None;
    }
    match strip_prefix(t.as_str(), "data: ") {
        Some(d) => Some(trim(d.as_str())),
        None => None,
    }
}

fn take_thinking_start(
    state: &mut AnthropicStreamState,
    b: &AnthropicContentBlock,
    index: Option<usize>,
    live: &mut Vec<LiveEvent>,
)
    ensures
        block_flow(*final(state), final(live)@) == after_thinking_start(
            block_flow(*old(state), old(live)@),
            *b,
            index,
        ),
{
    let place: usize = state.thinking_blocks.len();
    assert(blocks_view(state.thinking_blocks@).len() == place);
    let initial = text_or_empty(&b.thinking);
    let ghost before = blocks_view(state.thinking_blocks@);
    let block = AnthropicThinkingBlock {
        block_type: owned("thinking"),
        thinking: Some(initial.clone()),
        signature: clone_opt(&b.signature),
        data: None,
    };
    let ghost view = block@;
    state.thinking_blocks.push(block);
    assert(blocks_view(state.thinking_blocks@) =~= before.push(view));
    if let Some(i) = index {
        state.block_thinking_idx.insert(i, place);
        state.thinking_block_idx = Some(i);
    }
    if !state.client_gone {
        state.reasoning_started = true;
        show(live, false, LiveEvent::ThinkingStart);
        if !initial.as_str().is_empty() {
            state.thinking_buf.append(initial.as_str());
            show(live, false, LiveEvent::ThinkingDelta(initial));
        }
    }
}

fn take_block_start(
    state: &mut AnthropicStreamState,
    e: &AnthropicEvent,
    live: &mut Vec<LiveEvent>,
)
    ensures
        block_flow(*final(state), final(live)@) == after_block_start(
            block_flow(*old(state), old(live)@),
            *e,
        ),
{
    if let Some(b) = &e.content_block {
        let kind = b.block_type.as_str();
        if same(kind, "thinking") {
            take_thinking_start(state, b, e.index, live);
        } else if same(kind, "redacted_thinking") {
            let ghost before = blocks_view(state.thinking_blocks@);
            let block = AnthropicThinkingBlock {
                block_type: owned("redacted_thinking"),
                thinking: None,
                signature: None,
                data: clone_opt(&b.data),
            };
            let ghost view = block@;
            state.thinking_blocks.push(block);
            assert(blocks_view(state.thinking_blocks@) =~= before.push(view));
        } else if same(kind, "tool_use") {
            let place: usize = state.tool_calls.len();
            let ghost before = calls_view(state.tool_calls@);
            assert(before.len() == place);
            let call = ToolCall {
                id: text_or_empty(&b.id),
                call_type: owned("function"),
                gemini_thought_signature: None,
                function: FunctionCall { name: text_or_empty(&b.name), arguments: owned("") },
            };
            let ghost view = call@;
            state.tool_calls.push(call);
            assert(calls_view(state.tool_calls@) =~= before.push(view));
            if let Some(i) = e.index {
                state.block_tool_idx.insert(i, place);
            }
        }
    }
}

fn find_reasoning(state: &AnthropicStreamState, index: Option<usize>) -> (r: Option<usize>)
    ensures
        (match r {
            Some(i) => Some(i as int),
            None => None,
        }) == reasoning_at(block_flow(*state, Seq::empty()), index),
{
    assert(blocks_view(state.thinking_blocks@).len() == state.thinking_blocks@.len());
    if let Some(i) = index {
        if let Some(p) = state.block_thinking_idx.get(&i) {
            if *p < state.thinking_blocks.len() {
                return Some(*p);
            }
        }
    }
    None
}

fn find_call(state: &AnthropicStreamState, index: Option<usize>) -> (r: Option<usize>)
    ensures
        (match r {
            Some(i) => Some(i as int),
            None => None,
        }) == call_at(block_flow(*state, Seq::empty()), index),
{
    assert(calls_view(state.tool_calls@).len() == state.tool_calls@.len());
    if let Some(i) = index {
        if let Some(p) = state.block_tool_idx.get(&i) {
            if *p < state.tool_calls.len() {
                return Some(*p);
            }
        }
    }
    None
}

fn grow_reasoning(b: &mut AnthropicThinkingBlock, text: &str)
    ensures
        final(b)@ == (BlockView {
            thinking: Some(or_empty(old(b)@.thinking) + text@),
            ..old(b)@
        }),
{
    let mut t = text_or_empty(&b.thinking);
    t.append(text);
    b.thinking = Some(t);
}

fn take_thinking_delta(
    state: &mut AnthropicStreamState,
    text: &str,
    index: Option<usize>,
    live: &mut Vec<LiveEvent>,
)
    ensures
        block_flow(*final(state), final(live)@) == after_thinking_delta(
            block_flow(*old(state), old(live)@),
            text@,
            index,
        ),
{
    assert(blocks_view(state.thinking_blocks@).len() == state.thinking_blocks@.len());
    if let Some(i) = find_reasoning(state, index) {
        let ghost before = blocks_view(state.thinking_blocks@);
        assert(before[i as int] == state.thinking_blocks@[i as int]@);
        grow_reasoning(&mut state.thinking_blocks[i], text);
        assert(blocks_view(state.thinking_blocks@) =~= before.update(
            i as int,
            BlockView {
                thinking: Some(or_empty(before[i as int].thinking) + text@),
                ..before[i as int]
            },
        ));
    }
    if !text.is_empty() {
        state.thinking_buf.append(text);
        show(live, state.client_gone, LiveEvent::ThinkingDelta(owned(text)));
    }
}

fn set_signature(b: &mut AnthropicThinkingBlock, signature: &str)
    ensures
        final(b)@ == (BlockView { signature: Some(signature@), ..old(b)@ }),
{
    b.signature = Some(owned(signature));
}

fn grow_arguments(c: &mut ToolCall, text: &str)
    ensures
        final(c)@ == (ToolCallView { arguments: old(c)@.arguments + text@, ..old(c)@ }),
{
    c.function.arguments.append(text);
}

fn take_block_delta(
    state: &mut AnthropicStreamState,
    e: &AnthropicEvent,
    live: &mut Vec<LiveEvent>,
)
    ensures
        block_flow(*final(state), final(live)@) == after_block_delta(
            block_flow(*old(state), old(live)@),
            *e,
        ),
{
    assert(blocks_view(state.thinking_blocks@).len() == state.thinking_blocks@.len());
    assert(calls_view(state.tool_calls@).len() == state.tool_calls@.len());
    if let Some(d) = &e.delta {
        if let Some(kind_text) = &d.delta_type {
            let kind = kind_text.as_str();
            if same(kind, "thinking_delta") {
                if let Some(text) = &d.thinking {
                    take_thinking_delta(state, text.as_str(), e.index, live);
                }
            } else if same(kind, "signature_delta") {
                if let Some(s) = &d.signature {
                    if let Some(i) = find_reasoning(state, e.index) {
                        let ghost before = blocks_view(state.thinking_blocks@);
                        assert(before[i as int] == state.thinking_blocks@[i as int]@);
                        set_signature(&mut state.thinking_blocks[i], s.as_str());
                        assert(blocks_view(state.thinking_blocks@) =~= before.update(
                            i as int,
                            BlockView { signature: Some(s@), ..before[i as int] },
                        ));
                    }
                }
            } else if same(kind, "text_delta") {
                if let Some(text) = &d.text {
                    state.content_buf.append(text.as_str());
                    show(live, state.client_gone, LiveEvent::Delta(text.clone()));
                }
            } else if same(kind, "input_json_delta") {
                if let Some(s) = &d.partial_json {
                    if let Some(i) = find_call(state, e.index) {
                        let ghost before = calls_view(state.tool_calls@);
                        assert(before[i as int] == state.tool_calls@[i as int]@);
                        grow_arguments(&mut state.tool_calls[i], s.as_str());
                        assert(calls_view(state.tool_calls@) =~= before.update(
                            i as int,
                            ToolCallView {
                                arguments: before[i as int].arguments + s@,
                                ..before[i as int]
                            },
                        ));
                    }
                }
            }
        }
    }
}

fn take_block_stop(
    state: &mut AnthropicStreamState,
    e: &AnthropicEvent,
    live: &mut Vec<LiveEvent>,
)
    ensures
        block_flow(*final(state), final(live)@) == after_block_stop(
            block_flow(*old(state), old(live)@),
            *e,
        ),
{
    let ends: bool = match (e.index, state.thinking_block_idx) {
        (Some(a), Some(b)) => a == b,
        _ => false,
    };
    if ends {
        state.thinking_block_idx = None;
        state.reasoning_started = false;
        show(live, state.client_gone, LiveEvent::ThinkingDone);
    }
}

fn take_event(state: &mut AnthropicStreamState, e: &AnthropicEvent, live: &mut Vec<LiveEvent>)
    requires
        event_fits(*e),
    ensures
        block_flow(*final(state), final(live)@) == after_event(
            block_flow(*old(state), old(live)@),
            *e,
        ),
{
    let kind = state.current_event_type.clone();
    let kind = kind.as_str();
    if same(kind, "message_start") {
        if let Some(m) = &e.message {
            if let Some(u) = &m.usage {
                state.input_tokens = pick_newer(anthropic_input_tokens(u), state.input_tokens);
                state.output_tokens = u.output_tokens;
            }
        }
    } else if same(kind, "message_delta") {
        if let Some(u) = &e.usage {
            state.input_tokens = pick_newer(anthropic_input_tokens(u), state.input_tokens);
            state.output_tokens = pick_newer(u.output_tokens, state.output_tokens);
        }
    } else if same(kind, "content_block_start") {
        take_block_start(state, e, live);
    } else if same(kind, "content_block_delta") {
        take_block_delta(state, e, live);
    } else if same(kind, "content_block_stop") {
        take_block_stop(state, e, live);
    }
}

/// Takes a line of Anthropic's stream, with the event that its data was read
/// as.
pub fn process_anthropic_sse_line(
    line: &str,
    parsed: Option<&AnthropicEvent>,
    state: &mut AnthropicStreamState,
    live: &mut Vec<LiveEvent>,
)
    requires
        parsed is Some ==> event_fits(*parsed->0),
    ensures
        block_flow(*final(state), final(live)@) == after_line(
            block_flow(*old(state), old(live)@),
            line@,
            (match parsed {
                Some(e) => Some(*e),
                None => None,
            }),
        ),
{
    let t = trim(line);
    if t.as_str().is_empty() {
        return;
    }
    if let Some(event) = strip_prefix(t.as_str(), "event: ") {
        state.current_event_type = trim(event.as_str());
        return;
    }
    if starts_with(t.as_str(), "data: ") {
        if let Some(e) = parsed {
            take_event(state, e, live);
        }
        state.current_event_type = owned("");
    }
}

/// Ends a stream: reasoning that is still under way is ended for the user.
pub fn finish_anthropic_stream(state: &mut AnthropicStreamState, live: &mut Vec<LiveEvent>)
    ensures
        block_flow(*final(state), final(live)@) == ({
            let f = block_flow(*old(state), old(live)@);
            if f.reasoning_started {
                block_shown(f, LiveView::ThinkingDone)
            } else {
                f
            }
        }),
{
    if state.reasoning_started {
        show(live, state.client_gone, LiveEvent::ThinkingDone);
    }
}

/// The places that blocks of the stream belong to exist.
pub open spec fn places_exist(f: BlockFlow) -> bool {
    &&& forall|i: usize| #[trigger]
        f.reasoning_of.contains_key(i) ==> f.reasoning_of[i] < f.blocks.len()
    &&& forall|i: usize| #[trigger]
        f.call_of.contains_key(i) ==> f.call_of[i] < f.tool_calls.len()
}

/// However a stream goes on, a block that was announced keeps its place among
/// the reasoning or the calls, so that none of its pieces is lost.
pub proof fn law_places_exist(f: BlockFlow, line: Seq<char>, parsed: Option<AnthropicEvent>)
    requires
        places_exist(f),
        f.blocks.len() < usize::MAX,
        f.tool_calls.len() < usize::MAX,
    ensures
        places_exist(after_line(f, line, parsed)),
        after_line(f, line, parsed).blocks.len() >= f.blocks.len(),
        after_line(f, line, parsed).tool_calls.len() >= f.tool_calls.len(),
{
}

/// As long as somebody looks, the events show the answer and the reasoning that
/// have been collected.
pub open spec fn block_in_step(f: BlockFlow) -> bool {
    !f.client_gone ==> answer_shown(f.live) == f.content && reasoning_shown(f.live) == f.thinking
}

/// From line to line of Anthropic's stream, what the user is shown is what the
/// reply holds.
pub proof fn law_anthropic_reply_is_shown(
    f: BlockFlow,
    line: Seq<char>,
    parsed: Option<AnthropicEvent>,
)
    ensures
        block_in_step(empty_block_flow()),
        block_in_step(f) ==> block_in_step(after_line(f, line, parsed)),
{
    let start = f.live.push(LiveView::ThinkingStart);
    assert(start.drop_last() =~= f.live);
    assert(answer_shown(start) == answer_shown(f.live));
    assert(reasoning_shown(start) == reasoning_shown(f.live));
    assert(f.live.push(LiveView::ThinkingDone).drop_last() =~= f.live);
    if let Some(e) = parsed {
        if let Some(b) = e.content_block {
            let initial = LiveView::ThinkingDelta(or_empty(opt_text(b.thinking)));
            assert(start.push(initial).drop_last() =~= start);
        }
        if let Some(d) = e.delta {
            if let Some(text) = d.thinking {
                assert(f.live.push(LiveView::ThinkingDelta(text@)).drop_last() =~= f.live);
            }
            if let Some(text) = d.text {
                assert(f.live.push(LiveView::Delta(text@)).drop_last() =~= f.live);
            }
        }
    }
}

} // verus!
