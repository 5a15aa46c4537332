//! Replies of models as messages.

use crate::chat::{
    AnthropicThinkingBlock, BlockView, ChatMessage, MessageView, ToolCall, ToolCallView,
    blocks_view, calls_view, messages_view, opt_blocks,
};
use crate::text::{
    decimal, decimal_spec, decimal_wide, opt_str, opt_text, owned, same, trim, trimmed,
};
use vstd::prelude::*;
use vstd::string::*;

verus! {

/// A reply of a model.
#[derive(Debug, PartialEq, Eq)]
pub struct LlmResponse {
    pub message: ChatMessage,
    pub input_tokens: Option<u64>,
    pub output_tokens: Option<u64>,
    pub tool_image_compatibility_fallback: bool,
}

#[verifier::ext_equal]
pub struct ResponseView {
    pub message: MessageView,
    pub input_tokens: Option<u64>,
    pub output_tokens: Option<u64>,
    pub fallback: bool,
}

impl LlmResponse {
    pub open spec fn view(self) -> ResponseView {
        ResponseView {
            message: self.message@,
            input_tokens: self.input_tokens,
            output_tokens: self.output_tokens,
            fallback: self.tool_image_compatibility_fallback,
        }
    }
}

/// A moment: seconds and nanoseconds since 1970.
#[derive(Clone, Copy, Debug, PartialEq, Eq, Structural)]
pub struct Moment {
    pub secs: u64,
    pub nanos: u128,
}

// ---------------------------------------------------------------------------
// Identifiers of tool calls
// ---------------------------------------------------------------------------

/// The identifier that the `n`-th call gets where its own does not do.
pub open spec fn fallback_id(seed: nat, n: nat) -> Seq<char> {
    "tool_call_"@ + decimal_spec(seed) + "_"@ + decimal_spec(n)
}

/// One of the first `n` calls has the identifier `id`.
pub open spec fn id_taken(calls: Seq<ToolCallView>, id: Seq<char>, n: int) -> bool {
    exists|i: int| 0 <= i < n && (#[trigger] calls[i]).id == id
}

/// The first `n` calls, each with an identifier: a blank one and one that a
/// call before it has are replaced.
pub open spec fn with_ids(calls: Seq<ToolCallView>, seed: nat, n: int) -> Seq<ToolCallView>
    decreases n,
{
    if n <= 0 {
        Seq::empty()
    } else {
        let done = with_ids(calls, seed, n - 1);
        let c = calls[n - 1];
        if trimmed(c.id).len() == 0 || id_taken(done, c.id, n - 1) {
            done.push(ToolCallView { id: fallback_id(seed, n as nat), ..c })
        } else {
            done.push(c)
        }
    }
}

pub proof fn lemma_with_ids_len(calls: Seq<ToolCallView>, seed: nat, n: int)
    requires
        0 <= n,
    ensures
        with_ids(calls, seed, n).len() == n,
    decreases n,
{
    if n > 0 {
        lemma_with_ids_len(calls, seed, n - 1);
    }
}

fn taken(calls: &Vec<ToolCall>, id: &str) -> (r: bool)
    ensures
        r == id_taken(calls_view(calls@), id@, calls@.len() as int),
{
    let ghost all = calls_view(calls@);
    let mut i: usize = 0;
    while i < calls.len()
        invariant
            i <= calls@.len(),
            all == calls_view(calls@),
            forall|j: int| 0 <= j < i ==> (#[trigger] all[j]).id != id@,
        decreases calls@.len() - i,
    {
        assert(all[i as int] == calls@[i as int]@);
        if same(calls[i].id.as_str(), id) {
            return true;
        }
        i = i + 1;
    }
    false
}

/// The calls, each with an identifier of its own.
pub fn normalize_tool_call_ids(tool_calls: Vec<ToolCall>, seed: u128) -> (r: Vec<ToolCall>)
    ensures
        calls_view(r@) == with_ids(
            calls_view(tool_calls@),
            seed as nat,
            tool_calls@.len() as int,
        ),
        r@.len() == tool_calls@.len(),
{
    let ghost all = calls_view(tool_calls@);
    let mut out: Vec<ToolCall> = Vec::new();
    let mut n: usize = 0;
    assert(calls_view(out@) =~= Seq::empty());
    while n < tool_calls.len()
        invariant
            n <= tool_calls@.len(),
            all == calls_view(tool_calls@),
            out@.len() == n,
            calls_view(out@) == with_ids(all, seed as nat, n as int),
        decreases tool_calls@.len() - n,
    {
        let mut c = tool_calls[n].copy();
        assert(all[n as int] == c@);
        if trim(c.id.as_str()).as_str().is_empty() || taken(&out, c.id.as_str()) {
            let mut id = owned("tool_call_");
            id.append(decimal_wide(seed).as_str());
            id.append("_");
            id.append(decimal(n as u64 + 1).as_str());
            c.id = id;
        }
        let ghost before = calls_view(out@);
        let ghost view = c@;
        out.push(c);
        assert(calls_view(out@) =~= before.push(view));
        n = n + 1;
    }
    out
}

/// No call brings an identifier of the kind that is made up for this seed.
pub open spec fn no_made_up_ids(calls: Seq<ToolCallView>, seed: nat) -> bool {
    forall|i: int, n: nat|
        0 <= i < calls.len() ==> (#[trigger] calls[i]).id != #[trigger] fallback_id(seed, n)
}

proof fn lemma_decimal_differs(a: nat, b: nat)
    requires
        a != b,
    ensures
        decimal_spec(a) != decimal_spec(b),
{
    lemma_decimal_value(a);
    lemma_decimal_value(b);
}

/// The number that a decimal notation stands for.
pub open spec fn decimal_value(s: Seq<char>) -> int
    decreases s.len(),
{
    if s.len() == 0 {
        0
    } else {
        decimal_value(s.drop_last()) * 10 + (s.last() as int - '0' as int)
    }
}

proof fn lemma_decimal_value(n: nat)
    ensures
        decimal_value(decimal_spec(n)) == n,
    decreases n,
{
    reveal_with_fuel(decimal_value, 2);
    let s = decimal_spec(n);
    if n < 10 {
        assert(s.drop_last() =~= Seq::<char>::empty());
    } else {
        lemma_decimal_value(n / 10);
        assert(s.drop_last() =~= decimal_spec(n / 10));
    }
}

proof fn lemma_fallback_differs(seed: nat, a: nat, b: nat)
    requires
        a != b,
    ensures
        fallback_id(seed, a) != fallback_id(seed, b),
{
    lemma_decimal_differs(a, b);
    let head = "tool_call_"@ + decimal_spec(seed) + "_"@;
    if fallback_id(seed, a) == fallback_id(seed, b) {
        assert(fallback_id(seed, a).skip(head.len() as int) =~= decimal_spec(a));
        assert(fallback_id(seed, b).skip(head.len() as int) =~= decimal_spec(b));
    }
}

pub proof fn lemma_with_ids_origin(calls: Seq<ToolCallView>, seed: nat, n: int, k: int)
    requires
        0 <= k < n <= calls.len(),
    ensures
        with_ids(calls, seed, n).len() == n,
        with_ids(calls, seed, n)[k].id == calls[k].id || with_ids(calls, seed, n)[k].id
            == fallback_id(seed, (k + 1) as nat),
        with_ids(calls, seed, n)[k] == (ToolCallView {
            id: with_ids(calls, seed, n)[k].id,
            ..calls[k]
        }),
        with_ids(calls, seed, n)[k].id != calls[k].id || trimmed(calls[k].id).len() > 0
            || fallback_id(seed, (k + 1) as nat) == calls[k].id,
    decreases n,
{
    lemma_with_ids_len(calls, seed, n);
    lemma_with_ids_len(calls, seed, n - 1);
    if k < n - 1 {
        lemma_with_ids_origin(calls, seed, n - 1, k);
        assert(with_ids(calls, seed, n)[k] == with_ids(calls, seed, n - 1)[k]);
    }
}

/// Every call keeps what it asks for, and where no call brings an identifier
/// of the kind that is made up, no two calls share one.
pub proof fn law_tool_call_ids_distinct(calls: Seq<ToolCallView>, seed: nat, a: int, b: int)
    requires
        0 <= a < b < calls.len(),
        no_made_up_ids(calls, seed),
    ensures
        ({
            let r = with_ids(calls, seed, calls.len() as int);
            &&& r.len() == calls.len()
            &&& r[a].id != r[b].id
            &&& r[a].name == calls[a].name
            &&& r[a].arguments == calls[a].arguments
        }),
{
    lemma_distinct(calls, seed, calls.len() as int, a, b);
    lemma_with_ids_origin(calls, seed, calls.len() as int, a);
}

proof fn lemma_distinct(calls: Seq<ToolCallView>, seed: nat, n: int, a: int, b: int)
    requires
        0 <= a < b < n <= calls.len(),
        no_made_up_ids(calls, seed),
    ensures
        with_ids(calls, seed, n).len() == n,
        with_ids(calls, seed, n)[a].id != with_ids(calls, seed, n)[b].id,
    decreases n,
{
    lemma_with_ids_len(calls, seed, n);
    lemma_with_ids_len(calls, seed, n - 1);
    let done = with_ids(calls, seed, n - 1);
    let r = with_ids(calls, seed, n);
    if b < n - 1 {
        lemma_distinct(calls, seed, n - 1, a, b);
        assert(r[a] == done[a] && r[b] == done[b]);
    } else {
        assert(r[a] == done[a]);
        lemma_with_ids_origin(calls, seed, n - 1, a);
        let c = calls[b];
        if trimmed(c.id).len() == 0 || id_taken(done, c.id, n - 1) {
            assert(r[b].id == fallback_id(seed, n as nat));
            lemma_fallback_differs(seed, (a + 1) as nat, n as nat);
            assert(calls[a].id != fallback_id(seed, n as nat));
        } else {
            assert(r[b].id == c.id);
            assert(!id_taken(done, c.id, n - 1));
            assert(done[a].id != c.id);
        }
    }
}

// ---------------------------------------------------------------------------
// Messages
// ---------------------------------------------------------------------------

/// A text, nothing where it is empty.
pub open spec fn unless_blank(s: Seq<char>) -> Option<Seq<char>> {
    if s.len() == 0 {
        None
    } else {
        Some(s)
    }
}

fn keep_unless_empty(s: String) -> (r: Option<String>)
    ensures
        opt_text(r) == unless_blank(s@),
{
    if s.as_str().is_empty() {
        None
    } else {
        Some(s)
    }
}

/// The reply that the collected parts make up.
pub open spec fn collected_response(
    content: Seq<char>,
    thinking: Seq<char>,
    calls: Seq<ToolCallView>,
    input_tokens: Option<u64>,
    output_tokens: Option<u64>,
    now: Moment,
) -> ResponseView {
    ResponseView {
        message: MessageView {
            role: "assistant"@,
            content: unless_blank(content),
            images: None,
            thinking: unless_blank(thinking),
            blocks: None,
            tool_calls: if calls.len() == 0 {
                None
            } else {
                Some(with_ids(calls, now.nanos as nat, calls.len() as int))
            },
            tool_call_id: None,
            timestamp: Some(now.secs),
        },
        input_tokens,
        output_tokens,
        fallback: false,
    }
}

/// The reply that the collected parts make up.
pub fn build_llm_response(
    content_buf: String,
    thinking_buf: String,
    tool_calls: Vec<ToolCall>,
    input_tokens: Option<u64>,
    output_tokens: Option<u64>,
    now: Moment,
) -> (r: LlmResponse)
    ensures
        r@ == collected_response(
            content_buf@,
            thinking_buf@,
            calls_view(tool_calls@),
            input_tokens,
            output_tokens,
            now,
        ),
{
    assert(calls_view(tool_calls@).len() == tool_calls@.len());
    let calls: Option<Vec<ToolCall>> = if tool_calls.len() == 0 {
        None
    } else {
        Some(normalize_tool_call_ids(tool_calls, now.nanos))
    };
    LlmResponse {
        message: ChatMessage {
            role: owned("assistant"),
            content: keep_unless_empty(content_buf),
            images: None,
            thinking: keep_unless_empty(thinking_buf),
            anthropic_thinking_blocks: None,
            tool_calls: calls,
            tool_call_id: None,
            timestamp: Some(now.secs),
        },
        input_tokens,
        output_tokens,
        tool_image_compatibility_fallback: false,
    }
}

/// A block of reasoning that can be sent back: it is signed or holds data.
pub open spec fn can_be_sent_back(b: BlockView) -> bool {
    if b.block_type == "thinking"@ {
        b.signature is Some && b.signature->0.len() > 0
    } else if b.block_type == "redacted_thinking"@ {
        b.data is Some && b.data->0.len() > 0
    } else {
        false
    }
}

/// The blocks among the first `n` that can be sent back.
pub open spec fn sendable(v: Seq<BlockView>, n: int) -> Seq<BlockView>
    decreases n,
{
    if n <= 0 {
        Seq::empty()
    } else if can_be_sent_back(v[n - 1]) {
        sendable(v, n - 1).push(v[n - 1])
    } else {
        sendable(v, n - 1)
    }
}

/// The blocks that can be sent back, nothing where there are none.
pub open spec fn normal_blocks(v: Seq<BlockView>) -> Option<Seq<BlockView>> {
    if sendable(v, v.len() as int).len() == 0 {
        None
    } else {
        Some(sendable(v, v.len() as int))
    }
}

fn is_sendable(b: &AnthropicThinkingBlock) -> (r: bool)
    ensures
        r == can_be_sent_back(b@),
{
    if same(b.block_type.as_str(), "thinking") {
        match &b.signature {
            Some(s) => !s.as_str().is_empty(),
            None => false,
        }
    } else if same(b.block_type.as_str(), "redacted_thinking") {
        match &b.data {
            Some(s) => !s.as_str().is_empty(),
            None => false,
        }
    } else {
        false
    }
}

/// The blocks that can be sent back, nothing where there are none.
pub fn normalized_anthropic_thinking_blocks(blocks: Vec<AnthropicThinkingBlock>) -> (r: Option<
    Vec<AnthropicThinkingBlock>,
>)
    ensures
        opt_blocks(r) == normal_blocks(blocks_view(blocks@)),
{
    let ghost all = blocks_view(blocks@);
    assert(all.len() == blocks@.len());
    let mut out: Vec<AnthropicThinkingBlock> = Vec::new();
    let mut n: usize = 0;
    assert(blocks_view(out@) =~= Seq::empty());
    while n < blocks.len()
        invariant
            n <= blocks@.len(),
            all == blocks_view(blocks@),
            blocks_view(out@) == sendable(all, n as int),
        decreases blocks@.len() - n,
    {
        assert(all[n as int] == blocks@[n as int]@);
        if is_sendable(&blocks[n]) {
            let ghost before = blocks_view(out@);
            let b = blocks[n].copy();
            let ghost view = b@;
            out.push(b);
            assert(blocks_view(out@) =~= before.push(view));
        }
        n = n + 1;
    }
    assert(blocks_view(out@).len() == out@.len());
    if out.len() == 0 {
        None
    } else {
        Some(out)
    }
}

/// A reply with its blocks of reasoning.
pub open spec fn with_blocks(r: ResponseView, blocks: Option<Seq<BlockView>>) -> ResponseView {
    ResponseView { message: MessageView { blocks, ..r.message }, ..r }
}

/// The reply that the collected parts make up, with its blocks of reasoning.
pub fn build_anthropic_llm_response(
    content_buf: String,
    thinking_buf: String,
    thinking_blocks: Vec<AnthropicThinkingBlock>,
    tool_calls: Vec<ToolCall>,
    input_tokens: Option<u64>,
    output_tokens: Option<u64>,
    now: Moment,
) -> (r: LlmResponse)
    ensures
        r@ == with_blocks(
            collected_response(
                content_buf@,
                thinking_buf@,
                calls_view(tool_calls@),
                input_tokens,
                output_tokens,
                now,
            ),
            normal_blocks(blocks_view(thinking_blocks@)),
        ),
{
    let mut r = build_llm_response(
        content_buf,
        thinking_buf,
        tool_calls,
        input_tokens,
        output_tokens,
        now,
    );
    r.message.anthropic_thinking_blocks = normalized_anthropic_thinking_blocks(thinking_blocks);
    r
}

// ---------------------------------------------------------------------------
// The identifier of a response
// ---------------------------------------------------------------------------

/// The kind of block that keeps the identifier of a response.
pub const OPENAI_RESPONSES_RESPONSE_ID_BLOCK_TYPE: &'static str = "openai_responses_response_id";

/// The last block that keeps an identifier among the first `n`.
pub open spec fn last_id_block(v: Seq<BlockView>, n: int) -> Option<BlockView>
    decreases n,
{
    if n <= 0 {
        None
    } else if v[n - 1].block_type == OPENAI_RESPONSES_RESPONSE_ID_BLOCK_TYPE@ {
        Some(v[n - 1])
    } else {
        last_id_block(v, n - 1)
    }
}

/// The identifier of the response that a message came with.
pub open spec fn response_id_of(m: MessageView) -> Option<Seq<char>> {
    if m.role != "assistant"@ || m.blocks is None {
        None
    } else {
        match last_id_block(m.blocks->0, m.blocks->0.len() as int) {
            Some(b) => if b.data is Some && b.data->0.len() > 0 {
                b.data
            } else {
                None
            },
            None => None,
        }
    }
}

/// The identifier of the response that a message came with.
pub fn openai_responses_response_id_from_message(message: &ChatMessage) -> (r: Option<&str>)
    ensures
        opt_str(r) == response_id_of(message@),
{
    if !same(message.role.as_str(), "assistant") {
        return None;
    }
    match &message.anthropic_thinking_blocks {
        None => None,
        Some(blocks) => find_response_id(blocks),
    }
}

fn find_response_id(blocks: &Vec<AnthropicThinkingBlock>) -> (r: Option<&str>)
    ensures
        opt_str(r) == (match last_id_block(blocks_view(blocks@), blocks_view(blocks@).len() as int) {
            Some(b) => if b.data is Some && b.data->0.len() > 0 {
                b.data
            } else {
                None
            },
            None => None,
        }),
{
    let ghost all = blocks_view(blocks@);
    assert(all.len() == blocks@.len());
    let mut n: usize = blocks.len();
    while n > 0
        invariant
            n <= blocks@.len() == all.len(),
            all == blocks_view(blocks@),
            last_id_block(all, n as int) == last_id_block(all, all.len() as int),
        decreases n,
    {
        assert(all[n - 1] == blocks@[n - 1]@);
        if same(blocks[n - 1].block_type.as_str(), OPENAI_RESPONSES_RESPONSE_ID_BLOCK_TYPE) {
            return match &blocks[n - 1].data {
                Some(d) => if d.as_str().is_empty() {
                    None
                } else {
                    Some(d.as_str())
                },
                None => None,
            };
        }
        n = n - 1;
    }
    None
}

/// The blocks among the first `n` that keep no identifier.
pub open spec fn other_blocks(v: Seq<BlockView>, n: int) -> Seq<BlockView>
    decreases n,
{
    if n <= 0 {
        Seq::empty()
    } else if v[n - 1].block_type == OPENAI_RESPONSES_RESPONSE_ID_BLOCK_TYPE@ {
        other_blocks(v, n - 1)
    } else {
        other_blocks(v, n - 1).push(v[n - 1])
    }
}

/// A message with the identifier of its response, unless that is empty.
pub open spec fn with_response_id(m: MessageView, id: Option<Seq<char>>) -> MessageView {
    if id is None || id->0.len() == 0 {
        m
    } else {
        let blocks = match m.blocks {
            Some(b) => b,
            None => Seq::empty(),
        };
        MessageView {
            blocks: Some(
                other_blocks(blocks, blocks.len() as int).push(
                    BlockView {
                        block_type: OPENAI_RESPONSES_RESPONSE_ID_BLOCK_TYPE@,
                        thinking: None,
                        signature: None,
                        data: id,
                    },
                ),
            ),
            ..m
        }
    }
}

fn keep_other_blocks(blocks: &Option<Vec<AnthropicThinkingBlock>>) -> (r: Vec<
    AnthropicThinkingBlock,
>)
    ensures
        ({
            let all = match opt_blocks(*blocks) {
                Some(b) => b,
                None => Seq::empty(),
            };
            blocks_view(r@) == other_blocks(all, all.len() as int)
        }),
{
    let mut out: Vec<AnthropicThinkingBlock> = Vec::new();
    assert(blocks_view(out@) =~= Seq::empty());
    if let Some(v) = blocks {
        let ghost all = blocks_view(v@);
        assert(all.len() == v@.len());
        let mut n: usize = 0;
        while n < v.len()
            invariant
                n <= v@.len(),
                all == blocks_view(v@),
                blocks_view(out@) == other_blocks(all, n as int),
            decreases v@.len() - n,
        {
            assert(all[n as int] == v@[n as int]@);
            if !same(v[n].block_type.as_str(), OPENAI_RESPONSES_RESPONSE_ID_BLOCK_TYPE) {
                let ghost before = blocks_view(out@);
                let b = v[n].copy();
                let ghost view = b@;
                out.push(b);
                assert(blocks_view(out@) =~= before.push(view));
            }
            n = n + 1;
        }
    }
    out
}

/// Notes the identifier of the response that a message came with.
pub fn set_openai_responses_response_id(message: &mut ChatMessage, response_id: Option<&str>)
    ensures
        final(message)@ == with_response_id(old(message)@, opt_str(response_id)),
{
    if let Some(id) = response_id {
        if !id.is_empty() {
            let mut blocks = keep_other_blocks(&message.anthropic_thinking_blocks);
            let ghost before = blocks_view(blocks@);
            let b = AnthropicThinkingBlock {
                block_type: owned(OPENAI_RESPONSES_RESPONSE_ID_BLOCK_TYPE),
                thinking: None,
                signature: None,
                data: Some(owned(id)),
            };
            let ghost view = b@;
            blocks.push(b);
            assert(blocks_view(blocks@) =~= before.push(view));
            message.anthropic_thinking_blocks = Some(blocks);
        }
    }
}

/// What is read back from a reply is the identifier that was noted on it.
pub proof fn law_response_id_round_trip(m: MessageView, id: Seq<char>)
    requires
        m.role == "assistant"@,
        id.len() > 0,
    ensures
        response_id_of(with_response_id(m, Some(id))) == Some(id),
{
}

/// Where the last reply is, among the first `n` messages.
pub open spec fn last_reply(v: Seq<MessageView>, n: int) -> Option<int>
    decreases n,
{
    if n <= 0 {
        None
    } else if v[n - 1].role == "assistant"@ {
        Some(n - 1)
    } else {
        last_reply(v, n - 1)
    }
}

/// The response that the conversation can be continued from, and where its
/// reply stands.
pub open spec fn checkpoint_of(v: Seq<MessageView>) -> Option<(Seq<char>, int)> {
    match last_reply(v, v.len() as int) {
        None => None,
        Some(i) => match response_id_of(v[i]) {
            Some(id) => Some((id, i)),
            None => None,
        },
    }
}

/// The response that the conversation can be continued from, and where its
/// reply stands.
pub fn latest_openai_responses_checkpoint(messages: &Vec<ChatMessage>) -> (r: Option<
    (String, usize),
>)
    ensures
        match r {
            Some((id, i)) => checkpoint_of(messages_view(messages@)) == Some((id@, i as int)) && i
                < messages@.len(),
            None => checkpoint_of(messages_view(messages@)) is None,
        },
{
    let ghost all = messages_view(messages@);
    assert(all.len() == messages@.len());
    let mut n: usize = messages.len();
    while n > 0
        invariant
            n <= messages@.len() == all.len(),
            all == messages_view(messages@),
            last_reply(all, n as int) == last_reply(all, all.len() as int),
        decreases n,
    {
        assert(all[n - 1] == messages@[n - 1]@);
        if same(messages[n - 1].role.as_str(), "assistant") {
            return match openai_responses_response_id_from_message(&messages[n - 1]) {
                Some(id) => Some((owned(id), n - 1)),
                None => None,
            };
        }
        n = n - 1;
    }
    None
}

} // verus!
