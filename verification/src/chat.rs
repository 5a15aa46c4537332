//! Messages of a conversation and the mathematical view of each type.

use crate::text::{clone_opt, opt_text, owned, same};
use vstd::prelude::*;
use vstd::string::*;

verus! {

/// The service that a model is reached through.
#[derive(Clone, Copy, Debug, PartialEq, Eq, Structural)]
pub enum Provider {
    OpenAI,
    OpenAIResponses,
    Anthropic,
    Ollama,
    Gemini,
}

/// A picture that belongs to a message.
#[derive(Debug, PartialEq, Eq)]
pub struct ImageAttachment {
    pub url: String,
    pub s3_object_key: Option<String>,
    pub s3_config_id: Option<String>,
    pub data: Option<String>,
    pub cache_path: Option<String>,
}

#[verifier::ext_equal]
pub struct ImageView {
    pub url: Seq<char>,
    pub s3_object_key: Option<Seq<char>>,
    pub s3_config_id: Option<Seq<char>>,
    pub data: Option<Seq<char>>,
    pub cache_path: Option<Seq<char>>,
}

impl ImageAttachment {
    pub open spec fn view(self) -> ImageView {
        ImageView {
            url: self.url@,
            s3_object_key: opt_text(self.s3_object_key),
            s3_config_id: opt_text(self.s3_config_id),
            data: opt_text(self.data),
            cache_path: opt_text(self.cache_path),
        }
    }

    /// A copy of this attachment.
    pub fn copy(&self) -> (r: ImageAttachment)
        ensures
            r@ == self@,
    {
        ImageAttachment {
            url: self.url.clone(),
            s3_object_key: clone_opt(&self.s3_object_key),
            s3_config_id: clone_opt(&self.s3_config_id),
            data: clone_opt(&self.data),
            cache_path: clone_opt(&self.cache_path),
        }
    }
}

/// A block of a model's reasoning that has to be sent back unchanged.
#[derive(Debug, PartialEq, Eq)]
pub struct AnthropicThinkingBlock {
    pub block_type: String,
    pub thinking: Option<String>,
    pub signature: Option<String>,
    pub data: Option<String>,
}

#[verifier::ext_equal]
pub struct BlockView {
    pub block_type: Seq<char>,
    pub thinking: Option<Seq<char>>,
    pub signature: Option<Seq<char>>,
    pub data: Option<Seq<char>>,
}

impl AnthropicThinkingBlock {
    pub open spec fn view(self) -> BlockView {
        BlockView {
            block_type: self.block_type@,
            thinking: opt_text(self.thinking),
            signature: opt_text(self.signature),
            data: opt_text(self.data),
        }
    }

    /// A copy of this block.
    pub fn copy(&self) -> (r: AnthropicThinkingBlock)
        ensures
            r@ == self@,
    {
        AnthropicThinkingBlock {
            block_type: self.block_type.clone(),
            thinking: clone_opt(&self.thinking),
            signature: clone_opt(&self.signature),
            data: clone_opt(&self.data),
        }
    }
}

/// The function that a tool call names, and its arguments as JSON text.
#[derive(Debug, PartialEq, Eq)]
pub struct FunctionCall {
    pub name: String,
    pub arguments: String,
}

/// A model's request to run a tool.
#[derive(Debug, PartialEq, Eq)]
pub struct ToolCall {
    pub id: String,
    pub call_type: String,
    pub gemini_thought_signature: Option<String>,
    pub function: FunctionCall,
}

#[verifier::ext_equal]
pub struct ToolCallView {
    pub id: Seq<char>,
    pub call_type: Seq<char>,
    pub gemini_thought_signature: Option<Seq<char>>,
    pub name: Seq<char>,
    pub arguments: Seq<char>,
}

impl ToolCall {
    pub open spec fn view(self) -> ToolCallView {
        ToolCallView {
            id: self.id@,
            call_type: self.call_type@,
            gemini_thought_signature: opt_text(self.gemini_thought_signature),
            name: self.function.name@,
            arguments: self.function.arguments@,
        }
    }

    /// A copy of this call.
    pub fn copy(&self) -> (r: ToolCall)
        ensures
            r@ == self@,
    {
        ToolCall {
            id: self.id.clone(),
            call_type: self.call_type.clone(),
            gemini_thought_signature: clone_opt(&self.gemini_thought_signature),
            function: FunctionCall {
                name: self.function.name.clone(),
                arguments: self.function.arguments.clone(),
            },
        }
    }
}

/// One message of a conversation.
#[derive(Debug, PartialEq, Eq)]
pub struct ChatMessage {
    pub role: String,
    pub content: Option<String>,
    pub images: Option<Vec<ImageAttachment>>,
    pub thinking: Option<String>,
    pub anthropic_thinking_blocks: Option<Vec<AnthropicThinkingBlock>>,
    pub tool_calls: Option<Vec<ToolCall>>,
    pub tool_call_id: Option<String>,
    pub timestamp: Option<u64>,
}

#[verifier::ext_equal]
pub struct MessageView {
    pub role: Seq<char>,
    pub content: Option<Seq<char>>,
    pub images: Option<Seq<ImageView>>,
    pub thinking: Option<Seq<char>>,
    pub blocks: Option<Seq<BlockView>>,
    pub tool_calls: Option<Seq<ToolCallView>>,
    pub tool_call_id: Option<Seq<char>>,
    pub timestamp: Option<u64>,
}

pub open spec fn images_view(v: Seq<ImageAttachment>) -> Seq<ImageView> {
    v.map_values(|i: ImageAttachment| i@)
}

pub open spec fn blocks_view(v: Seq<AnthropicThinkingBlock>) -> Seq<BlockView> {
    v.map_values(|b: AnthropicThinkingBlock| b@)
}

pub open spec fn calls_view(v: Seq<ToolCall>) -> Seq<ToolCallView> {
    v.map_values(|c: ToolCall| c@)
}

pub open spec fn opt_images(o: Option<Vec<ImageAttachment>>) -> Option<Seq<ImageView>> {
    match o {
        Some(v) => Some(images_view(v@)),
        None => None,
    }
}

pub open spec fn opt_blocks(o: Option<Vec<AnthropicThinkingBlock>>) -> Option<Seq<BlockView>> {
    match o {
        Some(v) => Some(blocks_view(v@)),
        None => None,
    }
}

pub open spec fn opt_calls(o: Option<Vec<ToolCall>>) -> Option<Seq<ToolCallView>> {
    match o {
        Some(v) => Some(calls_view(v@)),
        None => None,
    }
}

pub open spec fn messages_view(v: Seq<ChatMessage>) -> Seq<MessageView> {
    v.map_values(|m: ChatMessage| m@)
}

/// A copy of a list of attachments.
pub fn copy_images(v: &Vec<ImageAttachment>) -> (r: Vec<ImageAttachment>)
    ensures
        images_view(r@) == images_view(v@),
{
    let mut r: Vec<ImageAttachment> = Vec::new();
    let mut i: usize = 0;
    while i < v.len()
        invariant
            i <= v@.len(),
            r@.len() == i,
            forall|j: int| 0 <= j < i ==> (#[trigger] r@[j])@ == v@[j]@,
        decreases v@.len() - i,
    {
        r.push(v[i].copy());
        i = i + 1;
    }
    assert(images_view(r@) =~= images_view(v@));
    r
}

/// A copy of a list of reasoning blocks.
pub fn copy_blocks(v: &Vec<AnthropicThinkingBlock>) -> (r: Vec<AnthropicThinkingBlock>)
    ensures
        blocks_view(r@) == blocks_view(v@),
{
    let mut r: Vec<AnthropicThinkingBlock> = Vec::new();
    let mut i: usize = 0;
    while i < v.len()
        invariant
            i <= v@.len(),
            r@.len() == i,
            forall|j: int| 0 <= j < i ==> (#[trigger] r@[j])@ == v@[j]@,
        decreases v@.len() - i,
    {
        r.push(v[i].copy());
        i = i + 1;
    }
    assert(blocks_view(r@) =~= blocks_view(v@));
    r
}

/// A copy of an optional list of reasoning blocks.
pub fn copy_opt_blocks(v: &Option<Vec<AnthropicThinkingBlock>>) -> (r: Option<
    Vec<AnthropicThinkingBlock>,
>)
    ensures
        opt_blocks(r) == opt_blocks(*v),
{
    match v {
        Some(b) => Some(copy_blocks(b)),
        None => None,
    }
}

/// A copy of a list of tool calls.
pub fn copy_calls(v: &Vec<ToolCall>) -> (r: Vec<ToolCall>)
    ensures
        calls_view(r@) == calls_view(v@),
        r@.len() == v@.len(),
{
    let mut r: Vec<ToolCall> = Vec::new();
    let mut i: usize = 0;
    while i < v.len()
        invariant
            i <= v@.len(),
            r@.len() == i,
            forall|j: int| 0 <= j < i ==> (#[trigger] r@[j])@ == v@[j]@,
        decreases v@.len() - i,
    {
        r.push(v[i].copy());
        i = i + 1;
    }
    assert(calls_view(r@) =~= calls_view(v@));
    r
}

/// The message has a content that is not empty.
pub open spec fn says_something(m: MessageView) -> bool {
    m.content is Some && m.content->0.len() > 0
}

/// The message asks for at least one tool.
pub open spec fn calls_tools(m: MessageView) -> bool {
    m.tool_calls is Some && m.tool_calls->0.len() > 0
}

impl ChatMessage {
    pub open spec fn view(self) -> MessageView {
        MessageView {
            role: self.role@,
            content: opt_text(self.content),
            images: opt_images(self.images),
            thinking: opt_text(self.thinking),
            blocks: opt_blocks(self.anthropic_thinking_blocks),
            tool_calls: opt_calls(self.tool_calls),
            tool_call_id: opt_text(self.tool_call_id),
            timestamp: self.timestamp,
        }
    }

    /// A copy of this message.
    pub fn copy(&self) -> (r: ChatMessage)
        ensures
            r@ == self@,
    {
        ChatMessage {
            role: self.role.clone(),
            content: clone_opt(&self.content),
            images: match &self.images {
                Some(v) => Some(copy_images(v)),
                None => None,
            },
            thinking: clone_opt(&self.thinking),
            anthropic_thinking_blocks: copy_opt_blocks(&self.anthropic_thinking_blocks),
            tool_calls: match &self.tool_calls {
                Some(v) => Some(copy_calls(v)),
                None => None,
            },
            tool_call_id: clone_opt(&self.tool_call_id),
            timestamp: self.timestamp,
        }
    }

    /// Whether the message has a content that is not empty.
    pub fn has_nonempty_content(&self) -> (r: bool)
        ensures
            r == says_something(self@),
    {
        match &self.content {
            Some(c) => !c.as_str().is_empty(),
            None => false,
        }
    }

    /// Whether the message asks for at least one tool.
    pub fn has_tool_calls(&self) -> (r: bool)
        ensures
            r == calls_tools(self@),
    {
        match &self.tool_calls {
            Some(v) => v.len() > 0,
            None => false,
        }
    }

    /// Whether this is a reply of the assistant with neither content nor tool
    /// calls.
    pub fn is_empty_assistant_message(&self) -> (r: bool)
        ensures
            r == (self@.role == "assistant"@ && !says_something(self@) && !calls_tools(self@)),
    {
        same(self.role.as_str(), "assistant") && !self.has_nonempty_content()
            && !self.has_tool_calls()
    }
}

/// A copy of a list of messages.
pub fn copy_messages(v: &Vec<ChatMessage>) -> (r: Vec<ChatMessage>)
    ensures
        messages_view(r@) == messages_view(v@),
        r@.len() == v@.len(),
{
    let mut r: Vec<ChatMessage> = Vec::new();
    let mut i: usize = 0;
    while i < v.len()
        invariant
            i <= v@.len(),
            r@.len() == i,
            forall|j: int| 0 <= j < i ==> (#[trigger] r@[j])@ == v@[j]@,
        decreases v@.len() - i,
    {
        r.push(v[i].copy());
        i = i + 1;
    }
    assert(messages_view(r@) =~= messages_view(v@));
    r
}

/// A message that holds a text alone.
pub open spec fn plain_message(role: Seq<char>, content: Seq<char>) -> MessageView {
    MessageView {
        role,
        content: Some(content),
        images: None,
        thinking: None,
        blocks: None,
        tool_calls: None,
        tool_call_id: None,
        timestamp: None,
    }
}

/// A message that holds a text alone.
pub fn text_message(role: &str, content: String) -> (r: ChatMessage)
    ensures
        r@ == plain_message(role@, content@),
{
    ChatMessage {
        role: owned(role),
        content: Some(content),
        images: None,
        thinking: None,
        anthropic_thinking_blocks: None,
        tool_calls: None,
        tool_call_id: None,
        timestamp: None,
    }
}

/// The calls of a message.
pub open spec fn calls_of(m: MessageView) -> Seq<ToolCallView> {
    match m.tool_calls {
        Some(c) => c,
        None => Seq::empty(),
    }
}

/// The pictures of a message.
pub open spec fn images_of(m: MessageView) -> Seq<ImageView> {
    match m.images {
        Some(v) => v,
        None => Seq::empty(),
    }
}

} // verus!
