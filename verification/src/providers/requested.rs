//! What every request to a service holds, and what is read of a plain reply.

use crate::chat::MessageView;
use crate::json::{JsonView, entry, law_with_entry, member, no_entries, text_or, with_entry};
use crate::providers::anthropic::{anthropic_upto, system_text};
use crate::providers::bodies::{
    anthropic_simple, anthropic_simple_reply, anthropic_stream_request, first_text_block,
    gemini_request, generation_config, ollama_simple, ollama_simple_reply, ollama_stream_request,
    openai_simple, openai_simple_reply, openai_stream, openai_style,
};
use crate::providers::caching::keeps_prompts;
use crate::providers::model::{ResolvedView, is_deepseek};
use crate::providers::ollama::ollama_upto;
use crate::providers::openai::openai_conversation;
use crate::providers::thinking::with_thinking;
use vstd::prelude::*;
use vstd::string::*;

verus! {

/// Setting an entry changes that entry alone.
proof fn lemma_entries()
    ensures
        forall|e: Seq<(Seq<char>, JsonView)>, key: Seq<char>, x: JsonView, other: Seq<char>|
            #![trigger entry(with_entry(e, key, x), other)]
            entry(with_entry(e, key, x), other) == (if other == key {
                Some(x)
            } else {
                entry(e, other)
            }),
        forall|other: Seq<char>| #[trigger] entry(no_entries(), other) is None,
{
    assert forall|e: Seq<(Seq<char>, JsonView)>, key: Seq<char>, x: JsonView, other: Seq<char>|
        #![trigger entry(with_entry(e, key, x), other)]
        entry(with_entry(e, key, x), other) == (if other == key {
            Some(x)
        } else {
            entry(e, other)
        }) by {
        law_with_entry(e, key, x, other);
    }
}

proof fn lemma_request_keys()
    ensures
        "model"@.len() == 5,
        "tools"@.len() == 5,
        "think"@.len() == 5,
        "stream"@.len() == 6,
        "system"@.len() == 6,
        "options"@.len() == 7,
        "messages"@.len() == 8,
        "thinking"@.len() == 8,
        "contents"@.len() == 8,
        "max_tokens"@.len() == 10,
        "output_config"@.len() == 13,
        "stream_options"@.len() == 14,
        "enable_thinking"@.len() == 15,
        "reasoning_effort"@.len() == 16,
        "generationConfig"@.len() == 16,
        "systemInstruction"@.len() == 17,
        "model"@ != "tools"@,
        "model"@ != "think"@,
        "tools"@ != "think"@,
        "stream"@ != "system"@,
        "messages"@ != "thinking"@,
{
    reveal_strlit("model");
    reveal_strlit("tools");
    reveal_strlit("think");
    reveal_strlit("stream");
    reveal_strlit("system");
    reveal_strlit("options");
    reveal_strlit("messages");
    reveal_strlit("thinking");
    reveal_strlit("contents");
    reveal_strlit("max_tokens");
    reveal_strlit("output_config");
    reveal_strlit("stream_options");
    reveal_strlit("enable_thinking");
    reveal_strlit("reasoning_effort");
    reveal_strlit("generationConfig");
    reveal_strlit("systemInstruction");
    assert("model"@[0] != "tools"@[0]);
    assert("model"@[0] != "think"@[0]);
    assert("tools"@[1] != "think"@[1]);
    assert("stream"@[1] != "system"@[1]);
    assert("messages"@[0] != "thinking"@[0]);
}

/// What a request says on thinking leaves its other entries.
proof fn lemma_thinking_keeps(
    e: Seq<(Seq<char>, JsonView)>,
    format: Option<Seq<char>>,
    level: Seq<char>,
    key: Seq<char>,
)
    requires
        key != "enable_thinking"@,
        key != "reasoning_effort"@,
        key != "thinking"@,
    ensures
        entry(with_thinking(e, format, level), key) == entry(e, key),
{
    lemma_entries();
}

/// A request to OpenAI's chat completions names the model and holds the
/// conversation, in both of its forms. Only a request for a stream asks for one
/// and offers tools.
pub proof fn law_openai_request(
    m: ResolvedView,
    v: Seq<MessageView>,
    level: Seq<char>,
    tools: Seq<JsonView>,
    opt_in: bool,
)
    requires
        !is_deepseek(m.thinking_format),
    ensures
        ({
            let body = openai_simple(m, v, level, opt_in);
            &&& member(body, "model"@) == Some(JsonView::Text(m.model_id))
            &&& member(body, "messages"@) == Some(
                JsonView::Array(openai_conversation(v, openai_style(m, opt_in))),
            )
            &&& member(body, "stream"@) is None
            &&& member(body, "tools"@) is None
            &&& member(body, "max_tokens"@) == (match m.max_tokens {
                Some(n) => Some(JsonView::Unsigned(n)),
                None => None,
            })
        }),
        ({
            let body = openai_stream(m, v, level, tools, opt_in);
            &&& member(body, "model"@) == Some(JsonView::Text(m.model_id))
            &&& member(body, "messages"@) == Some(
                JsonView::Array(openai_conversation(v, openai_style(m, opt_in))),
            )
            &&& member(body, "stream"@) == Some(JsonView::Bool(true))
            &&& member(body, "tools"@) == Some(JsonView::Array(tools))
            &&& member(body, "max_tokens"@) == (match m.max_tokens {
                Some(n) => Some(JsonView::Unsigned(n)),
                None => None,
            })
        }),
        !openai_style(m, opt_in).deepseek,
        opt_in ==> openai_style(m, opt_in).null_content,
{
    lemma_entries();
    lemma_request_keys();
    assert forall|e: Seq<(Seq<char>, JsonView)>, key: Seq<char>|
        key != "enable_thinking"@ && key != "reasoning_effort"@ && key
            != "thinking"@ implies #[trigger] entry(
        with_thinking(e, m.thinking_format, level),
        key,
    ) == entry(e, key) by {
        lemma_thinking_keeps(e, m.thinking_format, level, key);
    }
}

/// A request to Anthropic names the model, holds the conversation and the
/// instructions, and says how much may come back. Only a request for a stream
/// asks for one and offers tools.
pub proof fn law_anthropic_request(
    m: ResolvedView,
    v: Seq<MessageView>,
    level: Seq<char>,
    tools: Seq<JsonView>,
)
    requires
        !keeps_prompts(m),
    ensures
        ({
            let body = anthropic_simple(m, v);
            let system = system_text(v, v.len() as int);
            &&& member(body, "model"@) == Some(JsonView::Text(m.model_id))
            &&& member(body, "messages"@) == Some(
                JsonView::Array(anthropic_upto(v, v.len() as int)),
            )
            &&& member(body, "system"@) == (if system.len() > 0 {
                Some(JsonView::Text(system))
            } else {
                None
            })
            &&& member(body, "max_tokens"@) == Some(
                JsonView::Unsigned(
                    if m.max_tokens is Some {
                        m.max_tokens->0
                    } else {
                        4096
                    },
                ),
            )
            &&& member(body, "stream"@) is None
            &&& member(body, "tools"@) is None
        }),
        ({
            let body = anthropic_stream_request(m, v, level, tools);
            let system = system_text(v, v.len() as int);
            &&& member(body, "model"@) == Some(JsonView::Text(m.model_id))
            &&& member(body, "messages"@) == Some(
                JsonView::Array(anthropic_upto(v, v.len() as int)),
            )
            &&& member(body, "system"@) == (if system.len() > 0 {
                Some(JsonView::Text(system))
            } else {
                None
            })
            &&& member(body, "max_tokens"@) == Some(
                JsonView::Unsigned(
                    if m.max_tokens is Some {
                        m.max_tokens->0
                    } else {
                        16000
                    },
                ),
            )
            &&& member(body, "stream"@) == Some(JsonView::Bool(true))
            &&& member(body, "tools"@) == Some(JsonView::Array(tools))
            &&& level == "off"@ <==> member(body, "thinking"@) is None
        }),
{
    lemma_entries();
    lemma_request_keys();
}

/// A request to Ollama names the model, holds the conversation, and says how
/// much the model may read and write. Only a request for a stream asks for one
/// and offers tools.
pub proof fn law_ollama_request(
    m: ResolvedView,
    v: Seq<MessageView>,
    data: Seq<(Seq<char>, Seq<char>)>,
    level: Seq<char>,
    tools: Seq<JsonView>,
)
    ensures
        ({
            let body = ollama_simple(m, v, data);
            &&& member(body, "model"@) == Some(JsonView::Text(m.model_id))
            &&& member(body, "messages"@) == Some(
                JsonView::Array(ollama_upto(v, data, v.len() as int)),
            )
            &&& member(body, "stream"@) == Some(JsonView::Bool(false))
            &&& member(body, "options"@) is Some
            &&& member(member(body, "options"@)->0, "num_ctx"@) == Some(
                JsonView::Unsigned(m.context_window),
            )
            &&& member(body, "tools"@) is None
        }),
        ({
            let body = ollama_stream_request(m, v, data, level, tools);
            &&& member(body, "model"@) == Some(JsonView::Text(m.model_id))
            &&& member(body, "messages"@) == Some(
                JsonView::Array(ollama_upto(v, data, v.len() as int)),
            )
            &&& member(body, "stream"@) == Some(JsonView::Bool(true))
            &&& member(body, "tools"@) == Some(JsonView::Array(tools))
            &&& member(body, "options"@) is Some
            &&& member(member(body, "options"@)->0, "num_ctx"@) == Some(
                JsonView::Unsigned(m.context_window),
            )
            &&& m.max_tokens is Some ==> member(member(body, "options"@)->0, "num_predict"@)
                == Some(JsonView::Unsigned(m.max_tokens->0))
        }),
{
    lemma_entries();
    lemma_request_keys();
    reveal_strlit("num_ctx");
    reveal_strlit("num_predict");
    assert("num_ctx"@.len() == 7 && "num_predict"@.len() == 11);
}

/// A request to Gemini holds the contents, the instructions where there are any,
/// and the tools where any are offered.
pub proof fn law_gemini_request(
    m: ResolvedView,
    system: Option<JsonView>,
    contents: Seq<JsonView>,
    tools: Seq<JsonView>,
    level: Seq<char>,
)
    ensures
        ({
            let body = gemini_request(m, system, contents, tools, level);
            &&& member(body, "contents"@) == Some(JsonView::Array(contents))
            &&& member(body, "systemInstruction"@) == system
            &&& member(body, "tools"@) == (if tools.len() > 0 {
                Some(
                    JsonView::Array(
                        seq![
                            JsonView::Object(
                                seq![("functionDeclarations"@, JsonView::Array(tools))],
                            ),
                        ],
                    ),
                )
            } else {
                None
            })
            &&& m.max_tokens is Some ==> member(body, "generationConfig"@) is Some && member(
                member(body, "generationConfig"@)->0,
                "maxOutputTokens"@,
            ) == Some(JsonView::Unsigned(m.max_tokens->0))
        }),
{
    lemma_entries();
    lemma_request_keys();
    reveal_strlit("maxOutputTokens");
    reveal_strlit("thinkingConfig");
    assert("maxOutputTokens"@.len() == 15 && "thinkingConfig"@.len() == 14);
    let config = generation_config(m, level);
    if m.max_tokens is Some {
        assert(entry(config, "maxOutputTokens"@) is Some);
        assert(config.len() > 0);
    }
}

// ---------------------------------------------------------------------------
// Plain replies
// ---------------------------------------------------------------------------

/// The reply reports no error.
pub open spec fn is_free_of_errors(data: JsonView) -> bool {
    member(data, "error"@) is None || member(data, "error"@) == Some(JsonView::Null)
}

/// The number that the object holds under `key`.
pub open spec fn number_under(v: JsonView, key: Seq<char>) -> Option<u64> {
    match member(v, key) {
        Some(JsonView::Unsigned(n)) => Some(n),
        _ => None,
    }
}

/// The number that the object holds under `key` within `usage`.
pub open spec fn used_under(v: JsonView, key: Seq<char>) -> Option<u64> {
    match member(v, "usage"@) {
        Some(u) => number_under(u, key),
        None => None,
    }
}

/// The plain reply of OpenAI's chat completions is the text of the message of
/// its first choice, with the counts that it gives; one with an error is an
/// error.
pub proof fn law_openai_plain_reply(
    data: JsonView,
    choices: Seq<JsonView>,
    message: JsonView,
    text: Seq<char>,
    fallback: bool,
)
    requires
        member(data, "choices"@) == Some(JsonView::Array(choices)),
        choices.len() > 0,
        member(choices[0], "message"@) == Some(message),
        member(message, "content"@) == Some(JsonView::Text(text)),
    ensures
        openai_simple_reply(data, fallback) is Ok <==> is_free_of_errors(data),
        openai_simple_reply(data, fallback) matches Ok(r) ==> r.content == text && r.input_tokens
            == used_under(data, "prompt_tokens"@) && r.output_tokens == used_under(
            data,
            "completion_tokens"@,
        ) && r.fallback == fallback,
{
}

/// The plain reply of Anthropic is the text of its first block of text, with the
/// counts that it gives; one with an error is an error.
pub proof fn law_anthropic_plain_reply(
    data: JsonView,
    blocks: Seq<JsonView>,
    i: int,
    text: Seq<char>,
)
    requires
        member(data, "content"@) == Some(JsonView::Array(blocks)),
        0 <= i < blocks.len(),
        member(blocks[i], "type"@) == Some(JsonView::Text("text"@)),
        member(blocks[i], "text"@) == Some(JsonView::Text(text)),
        forall|k: int|
            0 <= k < i ==> member(#[trigger] blocks[k], "type"@) != Some(JsonView::Text("text"@)),
    ensures
        anthropic_simple_reply(data) is Ok <==> is_free_of_errors(data),
        anthropic_simple_reply(data) matches Ok(r) ==> r.content == text && r.output_tokens
            == used_under(data, "output_tokens"@),
        anthropic_simple_reply(data) matches Ok(r) ==> used_under(
            data,
            "cache_creation_input_tokens"@,
        ) is None && used_under(data, "cache_read_input_tokens"@) is None ==> r.input_tokens
            == used_under(data, "input_tokens"@),
{
    lemma_first_text(blocks, 0, i);
}

proof fn lemma_first_text(blocks: Seq<JsonView>, from: int, i: int)
    requires
        0 <= from <= i < blocks.len(),
        member(blocks[i], "type"@) == Some(JsonView::Text("text"@)),
        forall|k: int|
            0 <= k < i ==> member(#[trigger] blocks[k], "type"@) != Some(JsonView::Text("text"@)),
    ensures
        first_text_block(blocks, from) == text_or(blocks[i], "text"@, ""@),
    decreases i - from,
{
    if from < i {
        assert(member(blocks[from], "type"@) != Some(JsonView::Text("text"@)));
        lemma_first_text(blocks, from + 1, i);
    }
}

/// The plain reply of Ollama is the text of its message, with the counts that it
/// gives; one with an error is an error.
pub proof fn law_ollama_plain_reply(data: JsonView, message: JsonView, text: Seq<char>)
    requires
        member(data, "message"@) == Some(message),
        member(message, "content"@) == Some(JsonView::Text(text)),
    ensures
        ollama_simple_reply(data) is Ok <==> is_free_of_errors(data),
        ollama_simple_reply(data) matches Ok(r) ==> r.content == text && r.input_tokens
            == number_under(data, "prompt_eval_count"@) && r.output_tokens == number_under(
            data,
            "eval_count"@,
        ),
{
}

} // verus!
