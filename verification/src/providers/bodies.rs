//! Requests as they are sent, and plain replies.

use crate::chat::{ChatMessage, MessageView, Provider, copy_messages, messages_view};
use crate::json::{
    Json, JsonView, Obj, find_text, get_inner_number, get_number, get_text_or, inner_number,
    items_view, json_array, json_outcome, json_parsed, json_text, jtext, lemma_object_view,
    make1, make2, member, no_entries, no_items, number_at, object1, object2, parse, push_item,
    put, text_or, with_entry,
};
use crate::providers::anthropic::{anthropic_upto, convert_messages_to_anthropic, system_text};
use crate::providers::anthropic_stream::{
    AnthropicUsage, anthropic_input_tokens, known_input, total_input,
};
use crate::providers::caching::{
    anthropic_prompt_caching_enabled, anthropic_system_payload, keeps_prompts, marked_messages,
    marked_tools, maybe_apply_anthropic_message_cache_control,
    maybe_apply_anthropic_tool_cache_control, system_payload,
};
use crate::providers::deepseek::{prepare_openai_messages_for_request, prepared_messages};
use crate::providers::errors::{
    decode_outcome, decoded, is_checkpoint_error, is_image_refusal, is_labelled,
    is_openai_tool_image_compatibility_error, law_service_errors_are_labelled,
    openai_responses_checkpoint_error, provider_json_error, reported_error,
};
use crate::providers::gemini::{convert_messages_to_gemini, gemini_conversation};
use crate::providers::gemini_reply::{
    GeminiGenerateResponse, gemini_error, gemini_generate_url, gemini_reply_text,
    gemini_response_error, gemini_text, gemini_usage_pair, generate_url, usage_fits, usage_pair,
};
use crate::providers::images::{
    ImageSource, all_sources, covers, has_tool_images, materialize_image_urls, materialized,
    messages_have_tool_images, other_tools, remove_view_image_capability_for_compatibility,
    some_tool_images, strip_tool_images_for_compatibility, without_tool_images,
    without_view_image,
};
use crate::providers::model::{
    ResolvedModel, ResolvedView, is_deepseek, is_official_openai_api_base, is_openai_host,
    names_deepseek, openai_prefers_null_tool_call_content_with_opt_in, url_host,
};
use crate::providers::ollama::{
    ImageData, convert_messages_to_ollama, ollama_options, ollama_request_options, ollama_upto,
};
use crate::providers::openai::{
    OpenAiStyle, convert_messages_to_openai_with_options, openai_conversation,
};
use crate::providers::reply::Moment;
use crate::providers::responses::{
    build_openai_responses_llm_response, collect_tools, offered_tools, responses_body,
    responses_reply, responses_request_body,
};
use crate::providers::thinking::{
    anthropic_effort, apply_openai_thinking_controls, gemini_level, gemini_uses_thinking_level,
    ollama_think, ollama_think_value, takes_gemini_level, think_level_to_anthropic_effort,
    think_level_to_gemini_thinking_level, with_thinking,
};
use crate::text::{opt_slice_of, opt_str, or_empty, owned, same, text_or_empty};
use vstd::prelude::*;
use vstd::string::*;

verus! {

/// There is a source for each picture of each message.
pub open spec fn sources_cover(messages: Seq<ChatMessage>, sources: Seq<Vec<ImageSource>>) -> bool {
    &&& messages.len() == sources.len()
    &&& forall|i: int|
        0 <= i < messages.len() ==> covers(#[trigger] messages[i]@, all_sources(sources)[i])
}

/// The conversation with its pictures at their present addresses, or why one
/// has none.
pub open spec fn resolved_conversation(
    messages: Seq<ChatMessage>,
    sources: Seq<Vec<ImageSource>>,
) -> Result<Seq<MessageView>, Seq<char>> {
    materialized(messages_view(messages), all_sources(sources), messages.len() as int)
}

// ---------------------------------------------------------------------------
// OpenAI
// ---------------------------------------------------------------------------

/// How a conversation is written for a model.
pub open spec fn openai_style(m: ResolvedView, opt_in: bool) -> OpenAiStyle {
    OpenAiStyle {
        null_content: is_openai_host(url_host(m.api_base)) || opt_in,
        deepseek: is_deepseek(m.thinking_format),
    }
}

/// The entries of a request with the most that may come back.
pub open spec fn with_max_tokens(
    entries: Seq<(Seq<char>, JsonView)>,
    max_tokens: Option<u64>,
) -> Seq<(Seq<char>, JsonView)> {
    match max_tokens {
        Some(n) => with_entry(entries, "max_tokens"@, JsonView::Unsigned(n)),
        None => entries,
    }
}

/// A request for a plain reply.
pub open spec fn openai_simple(
    m: ResolvedView,
    v: Seq<MessageView>,
    level: Seq<char>,
    opt_in: bool,
) -> JsonView {
    let prepared = prepared_messages(m, v, is_deepseek(m.thinking_format));
    let e1 = with_entry(
        with_entry(no_entries(), "model"@, jtext(m.model_id)),
        "messages"@,
        JsonView::Array(openai_conversation(prepared, openai_style(m, opt_in))),
    );
    let e2 = if level != "off"@ || m.thinking_format == Some("doubao"@) {
        with_thinking(e1, m.thinking_format, level)
    } else {
        e1
    };
    JsonView::Object(with_max_tokens(e2, m.max_tokens))
}

fn openai_messages(
    resolved: &ResolvedModel,
    messages: &Vec<ChatMessage>,
    repair: bool,
    opt_in: bool,
) -> (r: Json)
    ensures
        r@ == JsonView::Array(
            openai_conversation(
                prepared_messages(resolved@, messages_view(messages@), repair),
                openai_style(resolved@, opt_in),
            ),
        ),
{
    let prepared = prepare_openai_messages_for_request(resolved, messages, repair);
    json_array(
        convert_messages_to_openai_with_options(
            &prepared,
            openai_prefers_null_tool_call_content_with_opt_in(resolved.api_base.as_str(), opt_in),
            opt_slice_of(&resolved.thinking_format),
        ),
    )
}

/// A request for a plain reply. `null_content_opt_in` says whether tool calls
/// without text are to have a null content on other services than OpenAI's.
pub fn build_openai_simple_body(
    resolved: &ResolvedModel,
    messages: &Vec<ChatMessage>,
    sources: &Vec<Vec<ImageSource>>,
    think_level: &str,
    null_content_opt_in: bool,
) -> (r: Result<Json, String>)
    requires
        sources_cover(messages@, sources@),
    ensures
        json_outcome(r) == (match resolved_conversation(messages@, sources@) {
            Ok(v) => Ok(openai_simple(resolved@, v, think_level@, null_content_opt_in)),
            Err(e) => Err(e),
        }),
{
    let messages = match materialize_image_urls(messages, sources) {
        Ok(v) => v,
        Err(e) => {
            return Err(e);
        },
    };
    let deepseek: bool = names_deepseek(opt_slice_of(&resolved.thinking_format));
    let mut o = Obj::new();
    o.set_text("model", resolved.model_id.as_str());
    o.set("messages", openai_messages(resolved, &messages, deepseek, null_content_opt_in));
    let doubao: bool = match &resolved.thinking_format {
        Some(f) => same(f.as_str(), "doubao"),
        None => false,
    };
    if !same(think_level, "off") || doubao {
        apply_openai_thinking_controls(&mut o, resolved, think_level);
    }
    if let Some(n) = resolved.max_tokens {
        o.set_number("max_tokens", n);
    }
    Ok(o.done())
}

/// A request for a reply that arrives piece by piece.
pub open spec fn openai_stream(
    m: ResolvedView,
    v: Seq<MessageView>,
    level: Seq<char>,
    tools: Seq<JsonView>,
    opt_in: bool,
) -> JsonView {
    let prepared = prepared_messages(m, v, level != "off"@);
    let e1 = with_entry(
        with_entry(
            with_entry(
                with_entry(no_entries(), "model"@, jtext(m.model_id)),
                "messages"@,
                JsonView::Array(openai_conversation(prepared, openai_style(m, opt_in))),
            ),
            "tools"@,
            JsonView::Array(tools),
        ),
        "stream"@,
        JsonView::Bool(true),
    );
    let e2 = if m.provider is OpenAI && (is_openai_host(url_host(m.api_base))
        || m.stream_include_usage) {
        with_entry(e1, "stream_options"@, object1("include_usage"@, JsonView::Bool(true)))
    } else {
        e1
    };
    JsonView::Object(with_max_tokens(with_thinking(e2, m.thinking_format, level), m.max_tokens))
}

/// A request for a reply that arrives piece by piece.
pub fn build_openai_stream_body(
    resolved: &ResolvedModel,
    messages: &Vec<ChatMessage>,
    sources: &Vec<Vec<ImageSource>>,
    think_level: &str,
    builtin_tools: &Vec<Json>,
    extra_tools: &Vec<Json>,
    include_builtin_tools: bool,
    null_content_opt_in: bool,
) -> (r: Result<Json, String>)
    requires
        sources_cover(messages@, sources@),
    ensures
        json_outcome(r) == (match resolved_conversation(messages@, sources@) {
            Ok(v) => Ok(
                openai_stream(
                    resolved@,
                    v,
                    think_level@,
                    offered_tools(
                        include_builtin_tools,
                        items_view(builtin_tools@),
                        items_view(extra_tools@),
                    ),
                    null_content_opt_in,
                ),
            ),
            Err(e) => Err(e),
        }),
{
    let messages = match materialize_image_urls(messages, sources) {
        Ok(v) => v,
        Err(e) => {
            return Err(e);
        },
    };
    let thinking_on: bool = !same(think_level, "off");
    let tools = collect_tools(include_builtin_tools, builtin_tools, extra_tools);
    let mut o = Obj::new();
    o.set_text("model", resolved.model_id.as_str());
    o.set("messages", openai_messages(resolved, &messages, thinking_on, null_content_opt_in));
    o.set("tools", json_array(tools));
    o.set_bool("stream", true);
    if matches!(resolved.provider, Provider::OpenAI) && (is_official_openai_api_base(
        resolved.api_base.as_str(),
    ) || resolved.stream_include_usage) {
        o.set("stream_options", make1("include_usage", Json::Bool(true)));
    }
    apply_openai_thinking_controls(&mut o, resolved, think_level);
    if let Some(n) = resolved.max_tokens {
        o.set_number("max_tokens", n);
    }
    Ok(o.done())
}

/// A request for a response, continued from the last one where that is asked
/// for and possible.
pub fn build_openai_responses_body_with_checkpoint(
    resolved: &ResolvedModel,
    messages: &Vec<ChatMessage>,
    sources: &Vec<Vec<ImageSource>>,
    think_level: &str,
    builtin_tools: &Vec<Json>,
    extra_tools: &Vec<Json>,
    include_builtin_tools: bool,
    use_previous_response_id: bool,
) -> (r: Result<Json, String>)
    requires
        sources_cover(messages@, sources@),
    ensures
        json_outcome(r) == (match resolved_conversation(messages@, sources@) {
            Ok(v) => Ok(
                responses_body(
                    resolved@,
                    prepared_messages(resolved@, v, is_deepseek(resolved@.thinking_format)),
                    think_level@,
                    offered_tools(
                        include_builtin_tools,
                        items_view(builtin_tools@),
                        items_view(extra_tools@),
                    ),
                    use_previous_response_id,
                ),
            ),
            Err(e) => Err(e),
        }),
{
    let messages = match materialize_image_urls(messages, sources) {
        Ok(v) => v,
        Err(e) => {
            return Err(e);
        },
    };
    let tools = collect_tools(include_builtin_tools, builtin_tools, extra_tools);
    Ok(
        responses_request_body(
            resolved,
            &messages,
            think_level,
            &tools,
            use_previous_response_id,
        ),
    )
}

/// A request for a response, continued from the last one where that is
/// possible.
pub fn build_openai_responses_body(
    resolved: &ResolvedModel,
    messages: &Vec<ChatMessage>,
    sources: &Vec<Vec<ImageSource>>,
    think_level: &str,
    builtin_tools: &Vec<Json>,
    extra_tools: &Vec<Json>,
    include_builtin_tools: bool,
) -> (r: Result<Json, String>)
    requires
        sources_cover(messages@, sources@),
    ensures
        json_outcome(r) == (match resolved_conversation(messages@, sources@) {
            Ok(v) => Ok(
                responses_body(
                    resolved@,
                    prepared_messages(resolved@, v, is_deepseek(resolved@.thinking_format)),
                    think_level@,
                    offered_tools(
                        include_builtin_tools,
                        items_view(builtin_tools@),
                        items_view(extra_tools@),
                    ),
                    true,
                ),
            ),
            Err(e) => Err(e),
        }),
{
    build_openai_responses_body_with_checkpoint(
        resolved,
        messages,
        sources,
        think_level,
        builtin_tools,
        extra_tools,
        include_builtin_tools,
        true,
    )
}

/// The request with its reply asked for piece by piece.
pub open spec fn streamed(body: JsonView) -> JsonView {
    match body {
        JsonView::Object(entries) => JsonView::Object(
            with_entry(entries, "stream"@, JsonView::Bool(true)),
        ),
        other => other,
    }
}

/// Asks for the reply to a request piece by piece.
pub fn ask_for_stream(body: Json) -> (r: Json)
    ensures
        r@ == streamed(body@),
{
    match body {
        Json::Object(mut entries) => {
            proof {
                lemma_object_view(entries);
            }
            put(&mut entries, "stream", Json::Bool(true));
            proof {
                lemma_object_view(entries);
            }
            Json::Object(entries)
        },
        other => other,
    }
}

/// The request is to be sent again in full: it was continued from a response
/// that the service does not know any more.
pub open spec fn must_resend(body: JsonView, error: Seq<char>) -> bool {
    member(body, "previous_response_id"@) is Some && is_checkpoint_error(error)
}

/// Whether a request is to be sent again in full after an error.
pub fn needs_full_conversation(body: &Json, error: &str) -> (r: bool)
    ensures
        r == must_resend(body@, error@),
{
    body.get("previous_response_id").is_some() && openai_responses_checkpoint_error(error)
}

/// The request is to be sent again without tools' pictures.
pub open spec fn must_drop_images(
    retain: bool,
    v: Seq<MessageView>,
    error: Seq<char>,
) -> bool {
    retain && some_tool_images(v) && is_image_refusal(error)
}

/// Whether a request is to be sent again without tools' pictures after an
/// error.
pub fn needs_image_fallback(
    retain_tool_images: bool,
    messages: &Vec<ChatMessage>,
    error: &str,
) -> (r: bool)
    ensures
        r == must_drop_images(retain_tool_images, messages_view(messages@), error@),
{
    retain_tool_images && messages_have_tool_images(messages)
        && is_openai_tool_image_compatibility_error(error)
}

/// What is done after a request was sent.
#[derive(Clone, Copy, Debug, PartialEq, Eq, Structural)]
pub enum ExchangeNext {
    /// The reply is read.
    Read,
    /// The request is sent once more, without tools' pictures.
    ResendWithoutImages,
    /// The request is sent once more, with the whole conversation.
    ResendInFull,
    /// The error is reported.
    Fail,
}

/// What is done after a request was sent. A request is sent again at most once.
pub open spec fn exchange_next(
    provider: Provider,
    retain: bool,
    v: Seq<MessageView>,
    body: JsonView,
    error: Option<Seq<char>>,
    resent: bool,
) -> ExchangeNext {
    match error {
        None => ExchangeNext::Read,
        Some(e) => if resent {
            ExchangeNext::Fail
        } else if provider is OpenAI && must_drop_images(retain, v, e) {
            ExchangeNext::ResendWithoutImages
        } else if provider is OpenAIResponses && must_resend(body, e) {
            ExchangeNext::ResendInFull
        } else {
            ExchangeNext::Fail
        },
    }
}

/// What is done after a request was sent, given the error where there was one
/// and whether the request was sent again already.
pub fn next_exchange(
    provider: Provider,
    retain_tool_images: bool,
    messages: &Vec<ChatMessage>,
    body: &Json,
    error: Option<&str>,
    resent: bool,
) -> (r: ExchangeNext)
    ensures
        r == exchange_next(
            provider,
            retain_tool_images,
            messages_view(messages@),
            body@,
            opt_str(error),
            resent,
        ),
{
    match error {
        None => ExchangeNext::Read,
        Some(e) => {
            if resent {
                return ExchangeNext::Fail;
            }
            match provider {
                Provider::OpenAI => if needs_image_fallback(retain_tool_images, messages, e) {
                    ExchangeNext::ResendWithoutImages
                } else {
                    ExchangeNext::Fail
                },
                Provider::OpenAIResponses => if needs_full_conversation(body, e) {
                    ExchangeNext::ResendInFull
                } else {
                    ExchangeNext::Fail
                },
                _ => ExchangeNext::Fail,
            }
        },
    }
}

/// A conversation for a service that rejects tools' pictures: without them, and
/// without the tool for looking at pictures.
pub open spec fn degraded(v: Seq<MessageView>) -> Seq<MessageView> {
    v.map_values(|m: MessageView| without_tool_images(m)).map_values(
        |m: MessageView| without_view_image(m),
    )
}

/// A conversation and its tools for a service that rejects tools' pictures.
pub fn degrade_for_compatibility(messages: &Vec<ChatMessage>, extra_tools: &Vec<Json>) -> (r: (
    Vec<ChatMessage>,
    Vec<Json>,
))
    ensures
        messages_view(r.0@) == degraded(messages_view(messages@)),
        items_view(r.1@) == other_tools(items_view(extra_tools@), extra_tools@.len() as int),
{
    let mut out = copy_messages(messages);
    strip_tool_images_for_compatibility(&mut out);
    let tools = remove_view_image_capability_for_compatibility(&mut out, extra_tools);
    (out, tools)
}

/// After the fallback no tool's picture is left that could be rejected, so that
/// the request is not degraded a second time.
pub proof fn law_fallback_happens_once(
    v: Seq<MessageView>,
    body: JsonView,
    error: Seq<char>,
    resent: bool,
)
    ensures
        exchange_next(Provider::OpenAI, true, degraded(v), body, Some(error), resent) == ExchangeNext::Fail,
{
    let once = v.map_values(|m: MessageView| without_tool_images(m));
    let d = degraded(v);
    assert forall|i: int| 0 <= i < d.len() implies !has_tool_images(#[trigger] d[i]) by {
        assert(d[i] == without_view_image(once[i]));
        assert(once[i] == without_tool_images(v[i]));
    }
}

/// A message without the pictures of a tool.
pub open spec fn picture_free_result(m: MessageView) -> MessageView {
    if m.role == "tool"@ {
        MessageView { images: None, ..m }
    } else {
        m
    }
}

/// The messages for a plain reply.
pub open spec fn simple_messages(v: Seq<MessageView>, retain: bool) -> Seq<MessageView> {
    if retain || !some_tool_images(v) {
        v
    } else {
        v.map_values(|m: MessageView| picture_free_result(m))
    }
}

/// The messages for a plain reply: tools' pictures are left out unless they are
/// to be kept.
pub fn prepare_simple_llm_messages(messages: &Vec<ChatMessage>, retain_tool_images: bool) -> (r:
    Vec<ChatMessage>)
    ensures
        messages_view(r@) == simple_messages(messages_view(messages@), retain_tool_images),
{
    let mut out = copy_messages(messages);
    if retain_tool_images || !messages_have_tool_images(messages) {
        return out;
    }
    let ghost start = messages_view(messages@);
    assert(messages_view(out@).len() == out@.len());
    assert(start.len() == messages@.len());
    let ghost total = out@.len() as int;
    assert forall|j: int| 0 <= j < total implies (#[trigger] out@[j])@ == start[j] by {
        assert(messages_view(out@)[j] == out@[j]@);
    }
    let mut n: usize = 0;
    while n < out.len()
        invariant
            n <= out@.len() == total == start.len(),
            forall|j: int|
                0 <= j < n ==> (#[trigger] out@[j])@ == picture_free_result(start[j]),
            forall|j: int| n <= j < total ==> (#[trigger] out@[j])@ == start[j],
        decreases out@.len() - n,
    {
        drop_result_images(&mut out[n]);
        n = n + 1;
    }
    assert(messages_view(out@) =~= start.map_values(|m: MessageView| picture_free_result(m)));
    out
}

fn drop_result_images(m: &mut ChatMessage)
    ensures
        final(m)@ == picture_free_result(old(m)@),
{
    if same(m.role.as_str(), "tool") {
        m.images = None;
    }
}

// ---------------------------------------------------------------------------
// Anthropic
// ---------------------------------------------------------------------------

/// The messages as they are sent, with marks where the service keeps parts.
pub open spec fn anthropic_sent(m: ResolvedView, v: Seq<MessageView>) -> Seq<JsonView> {
    let items = anthropic_upto(v, v.len() as int);
    if keeps_prompts(m) {
        marked_messages(items, items.len() as int)
    } else {
        items
    }
}

/// The entries of a request with the instructions of the system.
pub open spec fn with_system(
    entries: Seq<(Seq<char>, JsonView)>,
    m: ResolvedView,
    v: Seq<MessageView>,
) -> Seq<(Seq<char>, JsonView)> {
    let system = system_text(v, v.len() as int);
    if system.len() > 0 {
        with_entry(entries, "system"@, system_payload(system, keeps_prompts(m)))
    } else {
        entries
    }
}

/// The most that may come back: what the model is set to, or else a usual
/// value.
pub open spec fn max_or(m: ResolvedView, usual: u64) -> JsonView {
    JsonView::Unsigned(
        match m.max_tokens {
            Some(n) => n,
            None => usual,
        },
    )
}

/// A request for a plain reply.
pub open spec fn anthropic_simple(m: ResolvedView, v: Seq<MessageView>) -> JsonView {
    JsonView::Object(
        with_system(
            with_entry(
                with_entry(
                    with_entry(no_entries(), "model"@, jtext(m.model_id)),
                    "messages"@,
                    JsonView::Array(anthropic_sent(m, v)),
                ),
                "max_tokens"@,
                max_or(m, 4096),
            ),
            m,
            v,
        ),
    )
}

/// A request for a reply that arrives piece by piece.
pub open spec fn anthropic_stream_request(
    m: ResolvedView,
    v: Seq<MessageView>,
    level: Seq<char>,
    tools: Seq<JsonView>,
) -> JsonView {
    let e1 = with_entry(
        with_entry(
            with_entry(
                with_entry(
                    with_entry(no_entries(), "model"@, jtext(m.model_id)),
                    "messages"@,
                    JsonView::Array(anthropic_sent(m, v)),
                ),
                "tools"@,
                JsonView::Array(marked_tools(tools, keeps_prompts(m))),
            ),
            "max_tokens"@,
            max_or(m, 16000),
        ),
        "stream"@,
        JsonView::Bool(true),
    );
    let e2 = if level != "off"@ {
        with_entry(
            with_entry(
                e1,
                "thinking"@,
                object2("type"@, jtext("adaptive"@), "display"@, jtext("summarized"@)),
            ),
            "output_config"@,
            object1("effort"@, jtext(anthropic_effort(level))),
        )
    } else {
        e1
    };
    JsonView::Object(with_system(e2, m, v))
}

fn set_max(o: &mut Obj, resolved: &ResolvedModel, usual: u64)
    ensures
        final(o)@ == with_entry(old(o)@, "max_tokens"@, max_or(resolved@, usual)),
{
    match resolved.max_tokens {
        Some(n) => o.set_number("max_tokens", n),
        None => o.set_number("max_tokens", usual),
    }
}

/// A request for a plain reply.
pub fn build_anthropic_simple_body(
    resolved: &ResolvedModel,
    messages: &Vec<ChatMessage>,
    sources: &Vec<Vec<ImageSource>>,
) -> (r: Result<Json, String>)
    requires
        sources_cover(messages@, sources@),
    ensures
        json_outcome(r) == (match resolved_conversation(messages@, sources@) {
            Ok(v) => Ok(anthropic_simple(resolved@, v)),
            Err(e) => Err(e),
        }),
{
    let messages = match materialize_image_urls(messages, sources) {
        Ok(v) => v,
        Err(e) => {
            return Err(e);
        },
    };
    assert(messages_view(messages@).len() == messages@.len());
    let cache: bool = anthropic_prompt_caching_enabled(resolved);
    let (system, mut items) = convert_messages_to_anthropic(&messages);
    assert(items_view(items@).len() == items@.len());
    maybe_apply_anthropic_message_cache_control(&mut items, cache);
    let mut o = Obj::new();
    o.set_text("model", resolved.model_id.as_str());
    o.set("messages", json_array(items));
    set_max(&mut o, resolved, 4096);
    if !system.as_str().is_empty() {
        o.set("system", anthropic_system_payload(system.as_str(), cache));
    }
    Ok(o.done())
}

/// A request for a reply that arrives piece by piece.
pub fn build_anthropic_stream_body(
    resolved: &ResolvedModel,
    messages: &Vec<ChatMessage>,
    sources: &Vec<Vec<ImageSource>>,
    think_level: &str,
    builtin_tools: &Vec<Json>,
    extra_tools: &Vec<Json>,
    include_builtin_tools: bool,
) -> (r: Result<Json, String>)
    requires
        sources_cover(messages@, sources@),
        ({
            let tools = offered_tools(
                include_builtin_tools,
                items_view(builtin_tools@),
                items_view(extra_tools@),
            );
            keeps_prompts(resolved@) && tools.len() > 0 ==> tools.last() is Object
                || tools.last() is Null
        }),
    ensures
        json_outcome(r) == (match resolved_conversation(messages@, sources@) {
            Ok(v) => Ok(
                anthropic_stream_request(
                    resolved@,
                    v,
                    think_level@,
                    offered_tools(
                        include_builtin_tools,
                        items_view(builtin_tools@),
                        items_view(extra_tools@),
                    ),
                ),
            ),
            Err(e) => Err(e),
        }),
{
    let messages = match materialize_image_urls(messages, sources) {
        Ok(v) => v,
        Err(e) => {
            return Err(e);
        },
    };
    assert(messages_view(messages@).len() == messages@.len());
    let cache: bool = anthropic_prompt_caching_enabled(resolved);
    let (system, mut items) = convert_messages_to_anthropic(&messages);
    assert(items_view(items@).len() == items@.len());
    maybe_apply_anthropic_message_cache_control(&mut items, cache);
    let mut tools = collect_tools(include_builtin_tools, builtin_tools, extra_tools);
    proof {
        assert(items_view(tools@).len() == tools@.len());
        if tools@.len() > 0 {
            assert(items_view(tools@).last() == tools@.last()@);
        }
    }
    maybe_apply_anthropic_tool_cache_control(&mut tools, cache);
    let mut o = Obj::new();
    o.set_text("model", resolved.model_id.as_str());
    o.set("messages", json_array(items));
    o.set("tools", json_array(tools));
    set_max(&mut o, resolved, 16000);
    o.set_bool("stream", true);
    if !same(think_level, "off") {
        o.set(
            "thinking",
            make2("type", json_text("adaptive"), "display", json_text("summarized")),
        );
        o.set(
            "output_config",
            make1("effort", json_text(think_level_to_anthropic_effort(think_level))),
        );
    }
    if !system.as_str().is_empty() {
        o.set("system", anthropic_system_payload(system.as_str(), cache));
    }
    Ok(o.done())
}

// ---------------------------------------------------------------------------
// Ollama
// ---------------------------------------------------------------------------

/// The entries of a request that Ollama's two kinds share.
pub open spec fn ollama_start(
    m: ResolvedView,
    v: Seq<MessageView>,
    data: Seq<(Seq<char>, Seq<char>)>,
) -> Seq<(Seq<char>, JsonView)> {
    with_entry(
        with_entry(no_entries(), "model"@, jtext(m.model_id)),
        "messages"@,
        JsonView::Array(ollama_upto(v, data, v.len() as int)),
    )
}

/// A request for a plain reply.
pub open spec fn ollama_simple(
    m: ResolvedView,
    v: Seq<MessageView>,
    data: Seq<(Seq<char>, Seq<char>)>,
) -> JsonView {
    JsonView::Object(
        with_entry(
            with_entry(ollama_start(m, v, data), "stream"@, JsonView::Bool(false)),
            "options"@,
            ollama_options(m),
        ),
    )
}

/// A request for a reply that arrives piece by piece.
pub open spec fn ollama_stream_request(
    m: ResolvedView,
    v: Seq<MessageView>,
    data: Seq<(Seq<char>, Seq<char>)>,
    level: Seq<char>,
    tools: Seq<JsonView>,
) -> JsonView {
    let e1 = with_entry(
        with_entry(ollama_start(m, v, data), "tools"@, JsonView::Array(tools)),
        "stream"@,
        JsonView::Bool(true),
    );
    let e2 = match ollama_think(m, level) {
        Some(t) => with_entry(e1, "think"@, t),
        None => e1,
    };
    JsonView::Object(with_entry(e2, "options"@, ollama_options(m)))
}

fn start_ollama(resolved: &ResolvedModel, messages: &Vec<ChatMessage>, images_b64: &ImageData) -> (r:
    Obj)
    ensures
        r@ == ollama_start(resolved@, messages_view(messages@), images_b64@),
{
    assert(messages_view(messages@).len() == messages@.len());
    let mut o = Obj::new();
    o.set_text("model", resolved.model_id.as_str());
    o.set("messages", json_array(convert_messages_to_ollama(messages, images_b64)));
    o
}

/// A request for a plain reply to a conversation whose pictures stand at their
/// present addresses.
pub fn build_ollama_simple_body(
    resolved: &ResolvedModel,
    messages: &Vec<ChatMessage>,
    images_b64: &ImageData,
) -> (r: Json)
    ensures
        r@ == ollama_simple(resolved@, messages_view(messages@), images_b64@),
{
    let mut o = start_ollama(resolved, messages, images_b64);
    o.set_bool("stream", false);
    o.set("options", ollama_request_options(resolved));
    o.done()
}

/// A request for a reply that arrives piece by piece, to a conversation whose
/// pictures stand at their present addresses.
pub fn build_ollama_stream_body(
    resolved: &ResolvedModel,
    messages: &Vec<ChatMessage>,
    images_b64: &ImageData,
    think_level: &str,
    builtin_tools: &Vec<Json>,
    extra_tools: &Vec<Json>,
    include_builtin_tools: bool,
) -> (r: Json)
    ensures
        r@ == ollama_stream_request(
            resolved@,
            messages_view(messages@),
            images_b64@,
            think_level@,
            offered_tools(
                include_builtin_tools,
                items_view(builtin_tools@),
                items_view(extra_tools@),
            ),
        ),
{
    let mut o = start_ollama(resolved, messages, images_b64);
    o.set(
        "tools",
        json_array(collect_tools(include_builtin_tools, builtin_tools, extra_tools)),
    );
    o.set_bool("stream", true);
    if let Some(think) = ollama_think_value(resolved, think_level) {
        o.set("think", think);
    }
    o.set("options", ollama_request_options(resolved));
    o.done()
}

// ---------------------------------------------------------------------------
// Gemini
// ---------------------------------------------------------------------------

/// The settings of a request.
pub open spec fn generation_config(m: ResolvedView, level: Seq<char>) -> Seq<
    (Seq<char>, JsonView),
> {
    let e1 = match m.max_tokens {
        Some(n) => with_entry(no_entries(), "maxOutputTokens"@, JsonView::Unsigned(n)),
        None => no_entries(),
    };
    if takes_gemini_level(m) {
        with_entry(
            e1,
            "thinkingConfig"@,
            object2(
                "includeThoughts"@,
                JsonView::Bool(level != "off"@),
                "thinkingLevel"@,
                jtext(gemini_level(level)),
            ),
        )
    } else {
        e1
    }
}

/// A request.
pub open spec fn gemini_request(
    m: ResolvedView,
    system: Option<JsonView>,
    contents: Seq<JsonView>,
    tools: Seq<JsonView>,
    level: Seq<char>,
) -> JsonView {
    let e1 = with_entry(no_entries(), "contents"@, JsonView::Array(contents));
    let e2 = match system {
        Some(s) => with_entry(e1, "systemInstruction"@, s),
        None => e1,
    };
    let e3 = if tools.len() > 0 {
        with_entry(
            e2,
            "tools"@,
            JsonView::Array(seq![object1("functionDeclarations"@, JsonView::Array(tools))]),
        )
    } else {
        e2
    };
    let config = generation_config(m, level);
    JsonView::Object(
        if config.len() > 0 {
            with_entry(e3, "generationConfig"@, JsonView::Object(config))
        } else {
            e3
        },
    )
}

/// A request to Gemini for a reply to a conversation whose pictures stand at
/// their present addresses.
pub fn build_gemini_body(
    resolved: &ResolvedModel,
    messages: &Vec<ChatMessage>,
    images_b64: &ImageData,
    builtin_tools: &Vec<Json>,
    extra_tools: &Vec<Json>,
    include_builtin_tools: bool,
    think_level: &str,
) -> (r: Result<Json, String>)
    ensures
        json_outcome(r) == (match gemini_conversation(messages_view(messages@), images_b64@) {
            Ok((system, contents)) => Ok(
                gemini_request(
                    resolved@,
                    system,
                    contents,
                    offered_tools(
                        include_builtin_tools,
                        items_view(builtin_tools@),
                        items_view(extra_tools@),
                    ),
                    think_level@,
                ),
            ),
            Err(e) => Err(e),
        }),
{
    let (system, contents) = match convert_messages_to_gemini(messages, images_b64) {
        Ok(v) => v,
        Err(e) => {
            return Err(e);
        },
    };
    let tools = collect_tools(include_builtin_tools, builtin_tools, extra_tools);
    let mut o = Obj::new();
    o.set("contents", json_array(contents));
    if let Some(s) = system {
        o.set("systemInstruction", s);
    }
    assert(items_view(tools@).len() == tools@.len());
    if tools.len() > 0 {
        let mut list = no_items();
        push_item(&mut list, make1("functionDeclarations", json_array(tools)));
        assert(items_view(list@) =~= seq![
            object1("functionDeclarations"@, JsonView::Array(items_view(tools@))),
        ]);
        o.set("tools", json_array(list));
    }
    let mut config = Obj::new();
    if let Some(n) = resolved.max_tokens {
        config.set_number("maxOutputTokens", n);
    }
    if gemini_uses_thinking_level(resolved) {
        config.set(
            "thinkingConfig",
            make2(
                "includeThoughts",
                Json::Bool(!same(think_level, "off")),
                "thinkingLevel",
                json_text(think_level_to_gemini_thinking_level(think_level)),
            ),
        );
    }
    assert(config@.len() == config.entries@.len());
    if config.entries.len() > 0 {
        o.set("generationConfig", config.done());
    }
    Ok(o.done())
}

// ---------------------------------------------------------------------------
// Plain replies
// ---------------------------------------------------------------------------

/// A plain reply.
#[derive(Debug, PartialEq, Eq)]
pub struct SimpleLlmResponse {
    pub content: String,
    pub input_tokens: Option<u64>,
    pub output_tokens: Option<u64>,
    pub tool_image_compatibility_fallback: bool,
}

#[verifier::ext_equal]
pub struct SimpleView {
    pub content: Seq<char>,
    pub input_tokens: Option<u64>,
    pub output_tokens: Option<u64>,
    pub fallback: bool,
}

impl SimpleLlmResponse {
    pub open spec fn view(self) -> SimpleView {
        SimpleView {
            content: self.content@,
            input_tokens: self.input_tokens,
            output_tokens: self.output_tokens,
            fallback: self.tool_image_compatibility_fallback,
        }
    }
}

/// A plain reply seen through its view.
pub open spec fn simple_outcome(r: Result<SimpleLlmResponse, String>) -> Result<
    SimpleView,
    Seq<char>,
> {
    match r {
        Ok(s) => Ok(s@),
        Err(e) => Err(e@),
    }
}

/// The text of the first choice.
pub open spec fn first_choice(data: JsonView) -> Seq<char> {
    match member(data, "choices"@) {
        Some(JsonView::Array(v)) => if v.len() > 0 {
            match member(v[0], "message"@) {
                Some(m) => text_or(m, "content"@, ""@),
                None => ""@,
            }
        } else {
            ""@
        },
        _ => ""@,
    }
}

/// The plain reply of OpenAI's chat completions.
pub open spec fn openai_simple_reply(data: JsonView, fallback: bool) -> Result<
    SimpleView,
    Seq<char>,
> {
    match reported_error("OpenAI"@, data) {
        Some(e) => Err(e),
        None => Ok(
            SimpleView {
                content: first_choice(data),
                input_tokens: inner_number(data, "usage"@, "prompt_tokens"@),
                output_tokens: inner_number(data, "usage"@, "completion_tokens"@),
                fallback,
            },
        ),
    }
}

fn find_first_choice(data: &Json) -> (r: String)
    ensures
        r@ == first_choice(data@),
{
    if let Some(choices) = data.get("choices") {
        if let Some(v) = choices.as_array() {
            assert(items_view(v@).len() == v@.len());
            if v.len() > 0 {
                assert(items_view(v@)[0] == v@[0]@);
                if let Some(m) = v[0].get("message") {
                    return get_text_or(m, "content", "");
                }
            }
        }
    }
    owned("")
}

/// The plain reply of OpenAI's chat completions.
pub fn read_openai_reply(data: &Json, used_image_fallback: bool) -> (r: Result<
    SimpleLlmResponse,
    String,
>)
    ensures
        simple_outcome(r) == openai_simple_reply(data@, used_image_fallback),
{
    if let Some(e) = provider_json_error("OpenAI", data) {
        return Err(e);
    }
    Ok(
        SimpleLlmResponse {
            content: find_first_choice(data),
            input_tokens: get_inner_number(data, "usage", "prompt_tokens"),
            output_tokens: get_inner_number(data, "usage", "completion_tokens"),
            tool_image_compatibility_fallback: used_image_fallback,
        },
    )
}

/// The text of the first block of text from `i` on.
pub open spec fn first_text_block(v: Seq<JsonView>, i: int) -> Seq<char>
    decreases v.len() - i,
{
    if i < 0 || i >= v.len() {
        ""@
    } else if member(v[i], "type"@) == Some(jtext("text"@)) {
        text_or(v[i], "text"@, ""@)
    } else {
        first_text_block(v, i + 1)
    }
}

/// The counts of a reply of Anthropic.
pub open spec fn anthropic_counts(data: JsonView) -> AnthropicUsage {
    AnthropicUsage {
        input_tokens: inner_number(data, "usage"@, "input_tokens"@),
        output_tokens: inner_number(data, "usage"@, "output_tokens"@),
        cache_creation_input_tokens: inner_number(
            data,
            "usage"@,
            "cache_creation_input_tokens"@,
        ),
        cache_read_input_tokens: inner_number(data, "usage"@, "cache_read_input_tokens"@),
    }
}

/// The plain reply of Anthropic.
pub open spec fn anthropic_simple_reply(data: JsonView) -> Result<SimpleView, Seq<char>> {
    match reported_error("Anthropic"@, data) {
        Some(e) => Err(e),
        None => Ok(
            SimpleView {
                content: match member(data, "content"@) {
                    Some(JsonView::Array(v)) => first_text_block(v, 0),
                    _ => ""@,
                },
                input_tokens: known_input(anthropic_counts(data)),
                output_tokens: anthropic_counts(data).output_tokens,
                fallback: false,
            },
        ),
    }
}

fn find_text_block(v: &Vec<Json>) -> (r: String)
    ensures
        r@ == first_text_block(items_view(v@), 0),
{
    let ghost all = items_view(v@);
    let mut i: usize = 0;
    while i < v.len()
        invariant
            i <= v@.len(),
            all == items_view(v@),
            first_text_block(all, 0) == first_text_block(all, i as int),
        decreases v@.len() - i,
    {
        assert(all[i as int] == v@[i as int]@);
        if let Some(t) = find_text(&v[i], "type") {
            if same(t, "text") {
                return get_text_or(&v[i], "text", "");
            }
        }
        i = i + 1;
    }
    owned("")
}

/// The plain reply of Anthropic.
pub fn read_anthropic_reply(data: &Json) -> (r: Result<SimpleLlmResponse, String>)
    requires
        total_input(anthropic_counts(data@)) <= u64::MAX,
    ensures
        simple_outcome(r) == anthropic_simple_reply(data@),
{
    if let Some(e) = provider_json_error("Anthropic", data) {
        return Err(e);
    }
    let mut content = owned("");
    if let Some(c) = data.get("content") {
        if let Some(v) = c.as_array() {
            content = find_text_block(v);
        }
    }
    let usage = AnthropicUsage {
        input_tokens: get_inner_number(data, "usage", "input_tokens"),
        output_tokens: get_inner_number(data, "usage", "output_tokens"),
        cache_creation_input_tokens: get_inner_number(
            data,
            "usage",
            "cache_creation_input_tokens",
        ),
        cache_read_input_tokens: get_inner_number(data, "usage", "cache_read_input_tokens"),
    };
    Ok(
        SimpleLlmResponse {
            content,
            input_tokens: anthropic_input_tokens(&usage),
            output_tokens: usage.output_tokens,
            tool_image_compatibility_fallback: false,
        },
    )
}

/// The plain reply of Ollama.
pub open spec fn ollama_simple_reply(data: JsonView) -> Result<SimpleView, Seq<char>> {
    match reported_error("Ollama"@, data) {
        Some(e) => Err(e),
        None => Ok(
            SimpleView {
                content: match member(data, "message"@) {
                    Some(m) => text_or(m, "content"@, ""@),
                    None => ""@,
                },
                input_tokens: number_at(data, "prompt_eval_count"@),
                output_tokens: number_at(data, "eval_count"@),
                fallback: false,
            },
        ),
    }
}

/// The plain reply of Ollama.
pub fn read_ollama_reply(data: &Json) -> (r: Result<SimpleLlmResponse, String>)
    ensures
        simple_outcome(r) == ollama_simple_reply(data@),
{
    if let Some(e) = provider_json_error("Ollama", data) {
        return Err(e);
    }
    let content = match data.get("message") {
        Some(m) => get_text_or(m, "content", ""),
        None => owned(""),
    };
    Ok(
        SimpleLlmResponse {
            content,
            input_tokens: get_number(data, "prompt_eval_count"),
            output_tokens: get_number(data, "eval_count"),
            tool_image_compatibility_fallback: false,
        },
    )
}

/// The plain reply of OpenAI's responses.
pub fn read_responses_reply(data: &Json, now: Moment) -> (r: SimpleLlmResponse)
    ensures
        r@ == (SimpleView {
            content: or_empty(responses_reply(data@, now).message.content),
            input_tokens: responses_reply(data@, now).input_tokens,
            output_tokens: responses_reply(data@, now).output_tokens,
            fallback: false,
        }),
{
    let parsed = build_openai_responses_llm_response(data, now);
    SimpleLlmResponse {
        content: text_or_empty(&parsed.message.content),
        input_tokens: parsed.input_tokens,
        output_tokens: parsed.output_tokens,
        tool_image_compatibility_fallback: false,
    }
}

/// The plain reply of Gemini.
pub open spec fn gemini_simple_reply(data: GeminiGenerateResponse) -> Result<
    SimpleView,
    Seq<char>,
> {
    match gemini_error(data) {
        Some(e) => Err(e),
        None => Ok(
            SimpleView {
                content: gemini_text(data),
                input_tokens: usage_pair(data.usage_metadata).0,
                output_tokens: usage_pair(data.usage_metadata).1,
                fallback: false,
            },
        ),
    }
}

/// The plain reply of Gemini.
pub fn read_gemini_reply(data: &GeminiGenerateResponse) -> (r: Result<SimpleLlmResponse, String>)
    requires
        usage_fits(data.usage_metadata),
    ensures
        simple_outcome(r) == gemini_simple_reply(*data),
{
    if let Some(e) = gemini_response_error(data) {
        return Err(e);
    }
    let (input_tokens, output_tokens) = gemini_usage_pair(data.usage_metadata);
    Ok(
        SimpleLlmResponse {
            content: gemini_reply_text(data),
            input_tokens,
            output_tokens,
            tool_image_compatibility_fallback: false,
        },
    )
}

/// The plain reply that a service's text was read as. There is none where the
/// counts of a reply of Anthropic are too large to be added.
pub open spec fn simple_reply(
    provider: Provider,
    body: Seq<char>,
    parsed: Result<JsonView, Seq<char>>,
    fallback: bool,
    now: Moment,
) -> Option<Result<SimpleView, Seq<char>>> {
    match provider {
        Provider::OpenAI => Some(
            match decoded("OpenAI"@, body, parsed) {
                Err(e) => Err(e),
                Ok(data) => openai_simple_reply(data, fallback),
            },
        ),
        Provider::OpenAIResponses => Some(
            match decoded("OpenAI Responses"@, body, parsed) {
                Err(e) => Err(e),
                Ok(data) => match reported_error("OpenAI Responses"@, data) {
                    Some(e) => Err(e),
                    None => Ok(
                        SimpleView {
                            content: or_empty(responses_reply(data, now).message.content),
                            input_tokens: responses_reply(data, now).input_tokens,
                            output_tokens: responses_reply(data, now).output_tokens,
                            fallback: false,
                        },
                    ),
                },
            },
        ),
        Provider::Anthropic => match decoded("Anthropic"@, body, parsed) {
            Err(e) => Some(Err(e)),
            Ok(data) => if total_input(anthropic_counts(data)) <= u64::MAX {
                Some(anthropic_simple_reply(data))
            } else {
                None
            },
        },
        Provider::Ollama => Some(
            match decoded("Ollama"@, body, parsed) {
                Err(e) => Err(e),
                Ok(data) => ollama_simple_reply(data),
            },
        ),
        Provider::Gemini => None,
    }
}

/// A plain reply, where there is one, seen through its view.
pub open spec fn opt_simple(r: Option<Result<SimpleLlmResponse, String>>) -> Option<
    Result<SimpleView, Seq<char>>,
> {
    match r {
        Some(x) => Some(simple_outcome(x)),
        None => None,
    }
}

fn counts_fit(data: &Json) -> (r: bool)
    ensures
        r == (total_input(anthropic_counts(data@)) <= u64::MAX),
{
    let a: u128 = match get_inner_number(data, "usage", "input_tokens") {
        Some(n) => n as u128,
        None => 0,
    };
    let b: u128 = match get_inner_number(data, "usage", "cache_creation_input_tokens") {
        Some(n) => n as u128,
        None => 0,
    };
    let c: u128 = match get_inner_number(data, "usage", "cache_read_input_tokens") {
        Some(n) => n as u128,
        None => 0,
    };
    a + b + c <= u64::MAX as u128
}

/// Takes what the text of a reply was read as, for any service but Gemini,
/// whose replies have a type of their own.
pub fn simple_reply_of(
    provider: Provider,
    body: &str,
    parsed: Result<Json, String>,
    used_image_fallback: bool,
    now: Moment,
) -> (r: Option<Result<SimpleLlmResponse, String>>)
    requires
        !(provider is Gemini),
    ensures
        opt_simple(r) == simple_reply(
            provider,
            body@,
            json_outcome(parsed),
            used_image_fallback,
            now,
        ),
{
    let name: &str = match provider {
        Provider::OpenAI => "OpenAI",
        Provider::OpenAIResponses => "OpenAI Responses",
        Provider::Anthropic => "Anthropic",
        Provider::Ollama => "Ollama",
        Provider::Gemini => "Gemini",
    };
    let data = match decode_outcome(name, body, parsed) {
        Ok(v) => v,
        Err(e) => {
            return Some(Err(e));
        },
    };
    match provider {
        Provider::OpenAI => Some(read_openai_reply(&data, used_image_fallback)),
        Provider::OpenAIResponses => match provider_json_error("OpenAI Responses", &data) {
            Some(e) => Some(Err(e)),
            None => Some(Ok(read_responses_reply(&data, now))),
        },
        Provider::Anthropic => if counts_fit(&data) {
            Some(read_anthropic_reply(&data))
        } else {
            None
        },
        Provider::Ollama => Some(read_ollama_reply(&data)),
        Provider::Gemini => None,
    }
}

/// Reads the text of a plain reply of any service but Gemini.
pub fn read_simple_reply(
    provider: Provider,
    body: &str,
    used_image_fallback: bool,
    now: Moment,
) -> (r: Option<Result<SimpleLlmResponse, String>>)
    requires
        !(provider is Gemini),
    ensures
        opt_simple(r) == simple_reply(
            provider,
            body@,
            json_parsed(body@),
            used_image_fallback,
            now,
        ),
{
    simple_reply_of(provider, body, parse(body), used_image_fallback, now)
}

/// The address of a request.
pub open spec fn request_url(m: ResolvedView, stream: bool) -> Seq<char> {
    match m.provider {
        Provider::OpenAI => m.api_base + "/chat/completions"@,
        Provider::OpenAIResponses => m.api_base + "/responses"@,
        Provider::Anthropic => m.api_base + "/v1/messages"@,
        Provider::Ollama => m.api_base + "/api/chat"@,
        Provider::Gemini => generate_url(m.api_base, m.model_id, stream),
    }
}

/// The address of a request to a model.
pub fn endpoint_url(resolved: &ResolvedModel, stream: bool) -> (r: String)
    ensures
        r@ == request_url(resolved@, stream),
{
    let mut url = resolved.api_base.clone();
    match resolved.provider {
        Provider::OpenAI => url.append("/chat/completions"),
        Provider::OpenAIResponses => url.append("/responses"),
        Provider::Anthropic => url.append("/v1/messages"),
        Provider::Ollama => url.append("/api/chat"),
        Provider::Gemini => {
            url =
            gemini_generate_url(resolved.api_base.as_str(), resolved.model_id.as_str(), stream);
        },
    }
    url
}

/// Whatever a service sends as a plain reply, an error that comes of it is
/// labelled.
pub proof fn law_plain_errors_are_labelled(
    provider: Provider,
    body: Seq<char>,
    parsed: Result<JsonView, Seq<char>>,
    fallback: bool,
    now: Moment,
)
    ensures
        simple_reply(provider, body, parsed, fallback, now) matches Some(Err(e)) ==> is_labelled(
            e,
        ),
{
    let data = match parsed {
        Ok(v) => v,
        Err(_) => JsonView::Null,
    };
    law_service_errors_are_labelled("OpenAI"@, data, ""@, ""@, body, parsed);
    law_service_errors_are_labelled("OpenAI Responses"@, data, ""@, ""@, body, parsed);
    law_service_errors_are_labelled("Anthropic"@, data, ""@, ""@, body, parsed);
    law_service_errors_are_labelled("Ollama"@, data, ""@, ""@, body, parsed);
}

} // verus!
