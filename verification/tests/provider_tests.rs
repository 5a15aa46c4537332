//! Requests to services, their replies and their errors.

use lingclaw::chat::{
    AnthropicThinkingBlock, ChatMessage, FunctionCall, ImageAttachment, Provider, ToolCall,
};
use lingclaw::diagnostics::{RunDiagnostic, RunDiagnosticCode};
use lingclaw::json::{Json, JsonNumber};
use lingclaw::providers::anthropic::convert_messages_to_anthropic;
use lingclaw::providers::anthropic_stream::{
    anthropic_input_tokens, anthropic_line_data, finish_anthropic_stream,
    process_anthropic_sse_line, AnthropicContentBlock, AnthropicDelta, AnthropicEvent,
    AnthropicMessage, AnthropicStreamState, AnthropicUsage,
};
use lingclaw::providers::bodies::{
    ask_for_stream, build_anthropic_stream_body, build_gemini_body, build_ollama_stream_body,
    build_openai_responses_body, build_openai_simple_body, build_openai_stream_body,
    degrade_for_compatibility, endpoint_url, next_exchange, prepare_simple_llm_messages,
    read_gemini_reply, read_simple_reply, ExchangeNext,
};
use lingclaw::providers::caching::{
    anthropic_system_payload, maybe_apply_anthropic_message_cache_control,
    maybe_apply_anthropic_tool_cache_control,
};
use lingclaw::providers::deepseek::{
    prepare_openai_messages_for_request, repair_deepseek_thinking_tool_history,
};
use lingclaw::providers::errors::{
    is_openai_tool_image_compatibility_error, is_tool_calling_compatibility_error,
    is_transient_llm_error, openai_responses_checkpoint_error, parse_json_response,
    provider_json_error, send_with_retry_step, status_message, summarize_response_body,
    validate_stream_response, SendAction, SendEvent,
};
use lingclaw::providers::fetch::{
    check_image_response, finish_image, image_cache_name, next_image_need,
    resolve_image_cache_path, settle_image_fetch, take_image_chunk, ImageNeed, ImageResponse,
    MAX_IMAGE_FETCH_BYTES,
};
use lingclaw::providers::gemini::{
    convert_messages_to_gemini, gemini_image_mime_type, parse_function_args_object,
};
use lingclaw::providers::gemini_reply::{
    gemini_generate_url, gemini_response_error, gemini_usage_pair, process_gemini_data_line,
    GeminiApiError, GeminiCandidate, GeminiContent, GeminiFunctionCall, GeminiGenerateResponse,
    GeminiPart, GeminiPromptFeedback, GeminiUsage,
};
use lingclaw::providers::images::{
    materialize_image_urls, strip_images_for_unsupported_model,
    strip_tool_images_for_compatibility, ImageSource,
};
use lingclaw::providers::model::{
    is_official_openai_api_base, openai_prefers_null_tool_call_content, ResolvedModel,
};
use lingclaw::providers::ollama::{convert_messages_to_ollama, ImageData};
use lingclaw::providers::openai::convert_messages_to_openai_with_options;
use lingclaw::providers::reply::{
    build_anthropic_llm_response, build_llm_response, normalize_tool_call_ids,
    openai_responses_response_id_from_message, set_openai_responses_response_id, Moment,
};
use lingclaw::providers::responses::{
    build_openai_responses_llm_response, flatten_openai_responses_tool_definition,
};
use lingclaw::providers::responses_stream::{
    build_openai_responses_stream_llm_response, consume_openai_responses_chunk,
    process_openai_responses_stream_event, OpenAiResponsesStreamState,
};
use lingclaw::providers::stream::{
    drain_sse_lines, finish_stream, process_ollama_json_line, process_openai_data_line, sse_data,
    DeltaFunction, DeltaToolCall, LiveEvent, OllamaFunction, OllamaMessage, OllamaStreamChunk,
    OllamaToolCall, OpenAiStreamState, OpenAiUsage, StreamChoice, StreamChunk, StreamDelta,
};
use lingclaw::providers::thinking::{
    auto_think_supported, effective_think_level, ollama_think_value, openai_responses_gpt5_minor,
    think_level_to_anthropic_effort, think_level_to_deepseek_reasoning_effort,
    think_level_to_doubao_reasoning_effort, think_level_to_gemini_thinking_level,
    think_level_to_openai_responses_reasoning_effort, think_level_to_reasoning_effort,
};

const NOW: Moment = Moment { secs: 7, nanos: 42 };

fn message(role: &str, content: Option<&str>) -> ChatMessage {
    ChatMessage {
        role: role.into(),
        content: content.map(str::to_string),
        images: None,
        thinking: None,
        anthropic_thinking_blocks: None,
        tool_calls: None,
        tool_call_id: None,
        timestamp: None,
    }
}

fn call(id: &str, name: &str, arguments: &str) -> ToolCall {
    ToolCall {
        id: id.into(),
        call_type: "function".into(),
        gemini_thought_signature: None,
        function: FunctionCall { name: name.into(), arguments: arguments.into() },
    }
}

fn calling(calls: Vec<ToolCall>) -> ChatMessage {
    let mut m = message("assistant", None);
    m.tool_calls = Some(calls);
    m
}

fn result(id: &str, content: &str) -> ChatMessage {
    let mut m = message("tool", Some(content));
    m.tool_call_id = Some(id.into());
    m
}

fn image(url: &str) -> ImageAttachment {
    ImageAttachment {
        url: url.into(),
        s3_object_key: None,
        s3_config_id: None,
        data: None,
        cache_path: None,
    }
}

fn with_images(mut m: ChatMessage, urls: &[&str]) -> ChatMessage {
    m.images = Some(urls.iter().map(|u| image(u)).collect());
    m
}

fn model(provider: Provider, api_base: &str, model_id: &str) -> ResolvedModel {
    ResolvedModel {
        provider,
        api_base: api_base.into(),
        api_key: "key".into(),
        model_id: model_id.into(),
        reasoning: true,
        thinking_format: None,
        openai_responses_reasoning_summary: None,
        max_tokens: None,
        context_window: 1000,
        stream_include_usage: false,
        anthropic_prompt_caching: false,
    }
}

fn at<'a>(v: &'a Json, path: &[&str]) -> Option<&'a Json> {
    let mut here = v;
    for step in path {
        here = match step.parse::<usize>() {
            Ok(i) => match here {
                Json::Array(items) => items.get(i)?,
                _ => return None,
            },
            Err(_) => here.get(step)?,
        };
    }
    Some(here)
}

fn text<'a>(v: &'a Json, path: &[&str]) -> &'a str {
    at(v, path).and_then(|j| j.as_str()).unwrap_or("<none>")
}

fn array(v: &[Json]) -> Json {
    Json::Array(v.iter().map(|j| j.copy()).collect())
}

fn no_sources(messages: &[ChatMessage]) -> Vec<Vec<ImageSource>> {
    messages
        .iter()
        .map(|m| {
            m.images
                .iter()
                .flatten()
                .map(|i| ImageSource { config_matches: true, url: Ok(i.url.clone()) })
                .collect()
        })
        .collect()
}

// ── conversations ──────────────────────────────────────────────────────────

#[test]
fn openai_conversation_keeps_roles_and_tool_calls() {
    let messages = vec![
        message("system", Some("be kind")),
        message("user", Some("hi")),
        calling(vec![call("c1", "exec", "{}")]),
        result("c1", "done"),
    ];
    let out = array(&convert_messages_to_openai_with_options(&messages, true, None));
    assert_eq!(text(&out, &["0", "role"]), "system");
    assert_eq!(text(&out, &["1", "content"]), "hi");
    assert!(at(&out, &["2", "content"]).expect("content").is_null());
    assert_eq!(text(&out, &["2", "tool_calls", "0", "function", "name"]), "exec");
    assert_eq!(text(&out, &["3", "tool_call_id"]), "c1");

    let plain = array(&convert_messages_to_openai_with_options(&messages, false, None));
    assert_eq!(text(&plain, &["2", "content"]), "");
}

#[test]
fn openai_conversation_drops_user_images_beside_tool_results() {
    let alone = vec![with_images(message("user", Some("look")), &["http://a/1.png"])];
    let out = array(&convert_messages_to_openai_with_options(&alone, false, None));
    assert_eq!(
        text(&out, &["0", "content", "1", "image_url", "url"]),
        "http://a/1.png"
    );

    let mixed = vec![
        with_images(message("user", Some("look")), &["http://a/1.png"]),
        calling(vec![call("c1", "view", "{}"), call("c2", "view", "{}")]),
        with_images(result("c1", "one"), &["http://t/1.png"]),
        with_images(result("c2", "two"), &["http://t/2.png"]),
    ];
    let out = convert_messages_to_openai_with_options(&mixed, false, None);
    assert_eq!(out.len(), 5);
    let out = array(&out);
    assert_eq!(text(&out, &["0", "content"]), "look");
    assert_eq!(text(&out, &["4", "role"]), "user");
    assert_eq!(
        text(&out, &["4", "content", "1", "image_url", "url"]),
        "http://t/1.png"
    );
    assert_eq!(
        text(&out, &["4", "content", "2", "image_url", "url"]),
        "http://t/2.png"
    );
}

#[test]
fn deepseek_replies_carry_their_reasoning_or_a_placeholder() {
    let mut thoughtful = message("assistant", Some("a"));
    thoughtful.thinking = Some("because".into());
    let messages = vec![thoughtful, message("assistant", Some("b"))];
    let out = array(&convert_messages_to_openai_with_options(
        &messages,
        false,
        Some("deepseek-v4"),
    ));
    assert_eq!(text(&out, &["0", "reasoning_content"]), "because");
    assert_eq!(
        text(&out, &["1", "reasoning_content"]),
        "Historical assistant response replayed without original reasoning_content."
    );
}

#[test]
fn deepseek_tool_turns_without_reasoning_are_summarized() {
    let messages = vec![
        message("user", Some("go")),
        calling(vec![call("c1", "exec", "{\"a\":1}")]),
        result("c1", "ok"),
        result("zz", "stray"),
        message("user", Some("next")),
    ];
    let repaired = repair_deepseek_thinking_tool_history(&messages);
    assert_eq!(repaired.len(), 3);
    assert_eq!(
        repaired[1].content.as_deref(),
        Some(
            "Prior tool turn replayed as plain context because DeepSeek omitted reasoning_content.\n\
             Tool exec args: {\"a\":1}\n\
             Tool result: ok\n\
             Tool result for unmatched id zz: stray"
        )
    );
    assert!(repaired[1].tool_calls.is_none());
    let again = repair_deepseek_thinking_tool_history(&repaired);
    assert_eq!(again, repaired);

    let mut m = model(Provider::OpenAI, "http://x", "m");
    assert_eq!(prepare_openai_messages_for_request(&m, &messages, true).len(), 5);
    m.thinking_format = Some("deepseek-v4".into());
    assert_eq!(prepare_openai_messages_for_request(&m, &messages, true).len(), 3);
}

#[test]
fn anthropic_results_of_one_round_share_a_message() {
    let mut reply = calling(vec![call("c1", "exec", "{\"a\":1}"), call("c2", "exec", "oops")]);
    reply.content = Some("working".into());
    reply.anthropic_thinking_blocks = Some(vec![
        AnthropicThinkingBlock {
            block_type: "thinking".into(),
            thinking: Some("hm".into()),
            signature: Some("sig".into()),
            data: None,
        },
        AnthropicThinkingBlock {
            block_type: "thinking".into(),
            thinking: Some("unsigned".into()),
            signature: None,
            data: None,
        },
    ]);
    let messages = vec![
        message("system", Some("first")),
        message("system", Some("last")),
        reply,
        result("c1", "one"),
        result("c2", "two"),
    ];
    let (system, out) = convert_messages_to_anthropic(&messages);
    assert_eq!(system, "last");
    assert_eq!(out.len(), 2);
    let out = array(&out);
    assert_eq!(text(&out, &["0", "content", "0", "signature"]), "sig");
    assert_eq!(text(&out, &["0", "content", "1", "text"]), "working");
    assert_eq!(
        at(&out, &["0", "content", "2", "input", "a"]).and_then(|v| v.as_u64()),
        Some(1)
    );
    assert!(at(&out, &["0", "content", "3", "input"]).expect("input").is_object());
    assert_eq!(text(&out, &["1", "content", "0", "tool_use_id"]), "c1");
    assert_eq!(text(&out, &["1", "content", "1", "tool_use_id"]), "c2");
}

#[test]
fn ollama_names_tools_and_counts_missing_images() {
    let messages = vec![
        calling(vec![call("c1", "view_image", "{\"p\":\"x\"}"), call("", "anon", "raw")]),
        with_images(result("c1", "seen"), &["u1", "u2"]),
    ];
    let mut data = ImageData::new();
    data.note("u1", "AAAA");
    data.note("u1", "BBBB");
    let out = array(&convert_messages_to_ollama(&messages, &data));
    assert_eq!(
        text(&out, &["0", "tool_calls", "0", "function", "arguments", "p"]),
        "x"
    );
    assert_eq!(text(&out, &["0", "tool_calls", "1", "function", "arguments"]), "raw");
    assert_eq!(
        at(&out, &["0", "tool_calls", "1", "function", "index"]).and_then(|v| v.as_u64()),
        Some(1)
    );
    assert_eq!(text(&out, &["1", "tool_name"]), "view_image");
    assert!(text(&out, &["2", "content"])
        .ends_with(" 1 tool image(s) could not be attached to this model request."));
    assert_eq!(text(&out, &["2", "images", "0"]), "AAAA");
}

fn png_data() -> String {
    finish_image(&vec![0x89, 0x50, 0x4e, 0x47, 0x0d, 0x0a, 0x1a, 0x0a, 1, 2])
}

#[test]
fn image_data_is_base64_and_tells_its_kind() {
    assert_eq!(finish_image(&vec![1, 2, 3]), "AQID");
    assert_eq!(gemini_image_mime_type(&png_data()), Some("image/png"));
    assert_eq!(
        gemini_image_mime_type(&finish_image(&vec![0xff, 0xd8, 0xff, 0])),
        Some("image/jpeg")
    );
    assert_eq!(gemini_image_mime_type("AQID"), None);
    assert_eq!(gemini_image_mime_type("not base64!"), None);
}

#[test]
fn gemini_contents_put_results_before_pictures() {
    let mut data = ImageData::new();
    data.note("good", &png_data());
    data.note("bad", "AQID");
    let messages = vec![
        message("system", Some("rules")),
        with_images(message("user", Some("see")), &["good", "unknown"]),
        calling(vec![call("c1", "view", "{\"k\":1}"), call("", "noid", "[1]")]),
        with_images(result("c1", "r1"), &["good", "bad"]),
        result("c9", "r2"),
    ];
    let (system, contents) = convert_messages_to_gemini(&messages, &data).expect("converts");
    assert_eq!(text(&system.expect("system"), &["parts", "0", "text"]), "rules");
    let out = array(&contents);
    assert_eq!(contents.len(), 3);
    assert_eq!(text(&out, &["0", "parts", "1", "inlineData", "mimeType"]), "image/png");
    assert_eq!(text(&out, &["1", "role"]), "model");
    assert_eq!(text(&out, &["1", "parts", "0", "functionCall", "id"]), "c1");
    assert!(at(&out, &["1", "parts", "1", "functionCall", "id"]).is_none());
    assert_eq!(text(&out, &["2", "parts", "0", "functionResponse", "name"]), "view");
    assert_eq!(
        text(&out, &["2", "parts", "1", "functionResponse", "name"]),
        "tool_result"
    );
    assert_eq!(
        text(&out, &["2", "parts", "4", "text"]),
        "1 tool image(s) could not be attached to this model request."
    );

    let broken = vec![with_images(message("user", None), &["bad"])];
    assert_eq!(
        convert_messages_to_gemini(&broken, &data).err().as_deref(),
        Some("Gemini image data for bad is not a supported PNG/JPEG payload")
    );
    assert!(parse_function_args_object("[1]").get("k").is_none());
    assert_eq!(
        parse_function_args_object("{\"k\":2}").get("k").and_then(|v| v.as_u64()),
        Some(2)
    );
}

// ── pictures ───────────────────────────────────────────────────────────────

#[test]
fn stale_pictures_leave_a_notice() {
    let mut stale = image("old");
    stale.s3_object_key = Some("key".into());
    let mut m = message("user", Some("hello"));
    m.images = Some(vec![stale]);
    let gone = vec![vec![ImageSource { config_matches: false, url: Ok("x".into()) }]];
    let messages = vec![m];
    let out = materialize_image_urls(&messages, &gone).expect("resolves");
    assert!(out[0].images.is_none());
    assert_eq!(
        out[0].content.as_deref(),
        Some("hello\n\n[A previously attached image is unavailable because storage settings changed.]")
    );

    let fresh = vec![vec![ImageSource { config_matches: true, url: Ok("new".into()) }]];
    let out = materialize_image_urls(&messages, &fresh).expect("resolves");
    assert_eq!(out[0].images.as_ref().map(|v| v[0].url.clone()), Some("new".to_string()));

    let failing = vec![vec![ImageSource { config_matches: true, url: Err("no".into()) }]];
    assert_eq!(materialize_image_urls(&messages, &failing).err().as_deref(), Some("no"));
}

#[test]
fn pictures_are_stripped_once_with_a_notice() {
    let mut messages = vec![
        with_images(message("user", None), &["a", "b"]),
        with_images(result("c", "r"), &["c"]),
    ];
    assert_eq!(strip_images_for_unsupported_model(&mut messages), 3);
    assert_eq!(strip_images_for_unsupported_model(&mut messages), 0);
    assert_eq!(
        messages[0].content.as_deref(),
        Some("[An earlier image attachment is unavailable to the current text-only model.]")
    );

    let mut messages = vec![
        with_images(message("user", Some("u")), &["a"]),
        with_images(result("c", "r"), &["c"]),
    ];
    assert!(strip_tool_images_for_compatibility(&mut messages));
    assert!(!strip_tool_images_for_compatibility(&mut messages));
    assert!(messages[0].images.is_some());
    assert!(messages[1].images.is_none());
}

#[test]
fn rejected_pictures_take_the_tool_for_them_along() {
    let tool = |name: &str| {
        Json::Object(vec![(
            "function".into(),
            Json::Object(vec![("name".into(), Json::Text(name.into()))]),
        )])
    };
    let messages = vec![
        message("system", Some("a\n- **view_image** shows\nb")),
        with_images(result("c", "r"), &["c"]),
    ];
    let (out, tools) = degrade_for_compatibility(&messages, &vec![tool("view_image"), tool("exec")]);
    assert_eq!(out[0].content.as_deref(), Some("a\nb"));
    assert!(out[1].images.is_none());
    assert_eq!(tools.len(), 1);

    let refusal = "API 400 Bad Request: image_url is not supported";
    assert!(is_openai_tool_image_compatibility_error(refusal));
    let body = Json::Object(Vec::new());
    assert_eq!(
        next_exchange(Provider::OpenAI, true, &messages, &body, Some(refusal), false),
        ExchangeNext::ResendWithoutImages
    );
    assert_eq!(
        next_exchange(Provider::OpenAI, true, &out, &body, Some(refusal), false),
        ExchangeNext::Fail
    );
    assert_eq!(
        next_exchange(Provider::OpenAI, true, &messages, &body, None, false),
        ExchangeNext::Read
    );
    assert_eq!(prepare_simple_llm_messages(&messages, false)[1].images, None);
    assert!(prepare_simple_llm_messages(&messages, true)[1].images.is_some());
}

#[test]
fn pictures_are_fetched_only_where_nothing_else_has_them() {
    let mut attached = image("u1");
    attached.data = Some("DATA".into());
    let mut cached = image("u2");
    cached.cache_path = Some("p.b64".into());
    let mut m = message("user", None);
    m.images = Some(vec![attached, cached, image("u3")]);
    let mut reply = message("assistant", None);
    reply.images = Some(vec![image("u4")]);
    let messages = vec![reply, m];
    let mut known = ImageData::new();
    assert_eq!(
        next_image_need(&messages, &known, 0, 0),
        Some((1, 0, ImageNeed::Attached("DATA".into())))
    );
    known.note("u1", "DATA");
    assert_eq!(
        next_image_need(&messages, &known, 0, 0),
        Some((1, 1, ImageNeed::Cached("p.b64".into())))
    );
    assert_eq!(next_image_need(&messages, &known, 1, 2), Some((1, 2, ImageNeed::Fetched)));
    assert_eq!(next_image_need(&messages, &known, 1, 3), None);

    assert_eq!(settle_image_fetch("u", "tool", true, Err("x".into())), Ok(None));
    assert_eq!(
        settle_image_fetch("u", "user", true, Err("x".into())),
        Err("Failed to fetch image u for model request: x".into())
    );
    assert_eq!(
        settle_image_fetch("u", "user", true, Ok("d".into())),
        Ok(Some("d".into()))
    );
}

#[test]
fn fetched_pictures_are_judged_before_and_while_they_arrive() {
    let ok = |length| ImageResponse {
        success: true,
        status: "200 OK".into(),
        content_type: "image/png".into(),
        supported: true,
        content_length: length,
    };
    assert_eq!(check_image_response("u", &ok(Some(5))), Ok(()));
    assert!(check_image_response("u", &ok(Some(99_999_999)))
        .expect_err("too large")
        .contains("Image too large (99999999 bytes, max 10485760): u"));
    let mut odd = ok(None);
    odd.supported = false;
    odd.content_type = String::new();
    assert_eq!(
        check_image_response("u", &odd),
        Err("Image fetch returned unsupported content type 'unknown' for u".into())
    );
    odd.success = false;
    odd.status = "404 Not Found".into();
    assert_eq!(
        check_image_response("u", &odd),
        Err("Failed to fetch image u (HTTP 404 Not Found)".into())
    );

    let mut buf = vec![0u8; MAX_IMAGE_FETCH_BYTES - 2];
    assert_eq!(take_image_chunk(&mut buf, &vec![1, 2], "u"), Ok(()));
    assert_eq!(buf.len(), MAX_IMAGE_FETCH_BYTES);
    assert!(take_image_chunk(&mut buf, &vec![3], "u").is_err());
    assert_eq!(buf.len(), MAX_IMAGE_FETCH_BYTES);
}

#[test]
fn cache_files_have_distinct_names_and_stay_inside() {
    assert_eq!(
        image_cache_name(255, 16),
        "000000000000000000000000000000ff-0000000000000010.b64"
    );
    assert_ne!(image_cache_name(1, 5), image_cache_name(2, 5));
    assert_eq!(
        resolve_image_cache_path(Some("txt"), Ok("/x".into()), true, "/c"),
        Err("cache file must use .b64 extension".into())
    );
    assert_eq!(
        resolve_image_cache_path(Some("b64"), Err("gone".into()), true, "/c"),
        Err("cache file is not readable: gone".into())
    );
    assert_eq!(
        resolve_image_cache_path(Some("b64"), Ok("/x".into()), false, "/c"),
        Err("cache file is outside session image cache '/c'".into())
    );
    assert_eq!(
        resolve_image_cache_path(Some("b64"), Ok("/c/x".into()), true, "/c"),
        Ok("/c/x".into())
    );
}

// ── requests ───────────────────────────────────────────────────────────────

#[test]
fn official_addresses_are_told_by_their_host() {
    assert!(is_official_openai_api_base("https://API.openai.com/v1"));
    assert!(!is_official_openai_api_base("https://api.openai.com.evil.example/v1"));
    assert!(!is_official_openai_api_base("not a url"));
    let official = model(Provider::OpenAI, "https://api.openai.com/v1", "gpt-4o");
    let other = model(Provider::OpenAI, "https://example.org/v1", "gpt-4o");
    assert!(openai_prefers_null_tool_call_content(&official, None));
    assert!(!openai_prefers_null_tool_call_content(&other, Some(false)));
    assert!(openai_prefers_null_tool_call_content(&other, Some(true)));
}

#[test]
fn openai_requests_carry_settings_and_tools() {
    let messages = vec![message("user", Some("hi"))];
    let mut m = model(Provider::OpenAI, "https://api.openai.com/v1", "gpt-4o");
    m.max_tokens = Some(9);
    let sources = no_sources(&messages);
    let tool = Json::Object(vec![("name".into(), Json::Text("t".into()))]);
    let body = build_openai_stream_body(
        &m,
        &messages,
        &sources,
        "high",
        &vec![tool.copy()],
        &vec![tool],
        true,
        false,
    )
    .expect("body");
    assert_eq!(text(&body, &["model"]), "gpt-4o");
    assert_eq!(text(&body, &["reasoning_effort"]), "high");
    assert_eq!(
        at(&body, &["stream_options", "include_usage"]).and_then(|v| v.as_bool()),
        Some(true)
    );
    assert_eq!(at(&body, &["max_tokens"]).and_then(|v| v.as_u64()), Some(9));
    assert!(at(&body, &["tools", "1"]).is_some());

    m.thinking_format = Some("doubao".into());
    let body = build_openai_simple_body(&m, &messages, &sources, "off", false).expect("body");
    assert_eq!(text(&body, &["thinking", "type"]), "disabled");
    assert_eq!(endpoint_url(&m, true), "https://api.openai.com/v1/chat/completions");
}

#[test]
fn responses_continue_from_the_last_reply() {
    let mut reply = message("assistant", Some("earlier"));
    set_openai_responses_response_id(&mut reply, Some("resp_1"));
    assert_eq!(openai_responses_response_id_from_message(&reply), Some("resp_1"));
    let messages =
        vec![message("system", Some("rules")), message("user", Some("a")), reply, message("user", Some("b"))];
    let sources = no_sources(&messages);
    let m = model(Provider::OpenAIResponses, "https://api.openai.com/v1", "gpt-5.1");
    let body = build_openai_responses_body(
        &m,
        &messages,
        &sources,
        "off",
        &Vec::new(),
        &Vec::new(),
        false,
    )
    .expect("body");
    assert_eq!(text(&body, &["previous_response_id"]), "resp_1");
    assert_eq!(text(&body, &["instructions"]), "rules");
    assert_eq!(text(&body, &["input", "0", "content", "0", "text"]), "b");
    assert!(at(&body, &["input", "1"]).is_none());
    assert_eq!(text(&body, &["reasoning", "effort"]), "none");
    let gone = "Previous response not found";
    assert!(openai_responses_checkpoint_error(gone));
    assert_eq!(
        next_exchange(Provider::OpenAIResponses, false, &messages, &body, Some(gone), false),
        ExchangeNext::ResendInFull
    );
    assert_eq!(
        next_exchange(Provider::OpenAIResponses, false, &messages, &body, Some(gone), true),
        ExchangeNext::Fail
    );
    let streamed = ask_for_stream(body);
    assert_eq!(at(&streamed, &["stream"]).and_then(|v| v.as_bool()), Some(true));
    assert_eq!(text(&streamed, &["previous_response_id"]), "resp_1");
}

#[test]
fn responses_tools_are_flat() {
    let nested = Json::Object(vec![
        (
            "function".into(),
            Json::Object(vec![("name".into(), Json::Text("t".into()))]),
        ),
        ("type".into(), Json::Text("function".into())),
    ]);
    let flat = flatten_openai_responses_tool_definition(&nested);
    assert_eq!(text(&flat, &["name"]), "t");
    assert_eq!(text(&flat, &["parameters", "type"]), "object");
    let other = Json::Object(vec![("type".into(), Json::Text("web".into()))]);
    assert!(flatten_openai_responses_tool_definition(&other).says_same(&other));
}

#[test]
fn anthropic_requests_mark_what_to_keep() {
    let messages = vec![
        message("system", Some("stable\n\n---\n## Memory\nchanging")),
        message("user", Some("hi")),
    ];
    let sources = no_sources(&messages);
    let m = model(Provider::Anthropic, "https://api.anthropic.com", "sonnet");
    let tool = Json::Object(vec![("name".into(), Json::Text("t".into()))]);
    let body = build_anthropic_stream_body(
        &m,
        &messages,
        &sources,
        "max",
        &Vec::new(),
        &vec![tool],
        false,
    )
    .expect("body");
    assert_eq!(text(&body, &["system", "0", "text"]), "stable");
    assert_eq!(text(&body, &["system", "0", "cache_control", "type"]), "ephemeral");
    assert_eq!(text(&body, &["system", "1", "text"]), "\n\n---\n## Memory\nchanging");
    assert_eq!(text(&body, &["tools", "0", "cache_control", "type"]), "ephemeral");
    assert_eq!(
        text(&body, &["messages", "0", "content", "0", "cache_control", "type"]),
        "ephemeral"
    );
    assert_eq!(text(&body, &["output_config", "effort"]), "max");
    assert_eq!(at(&body, &["max_tokens"]).and_then(|v| v.as_u64()), Some(16000));

    assert_eq!(anthropic_system_payload("x", false).as_str(), Some("x"));
    let mut untouched: Vec<Json> = Vec::new();
    maybe_apply_anthropic_tool_cache_control(&mut untouched, true);
    maybe_apply_anthropic_message_cache_control(&mut untouched, true);
    assert!(untouched.is_empty());
}

#[test]
fn ollama_and_gemini_requests_follow_the_model() {
    let messages = vec![message("user", Some("hi"))];
    let mut m = model(Provider::Ollama, "http://localhost:11434", "gpt-oss:20b");
    m.max_tokens = Some(5);
    let body = build_ollama_stream_body(
        &m,
        &messages,
        &ImageData::new(),
        "low",
        &Vec::new(),
        &Vec::new(),
        false,
    );
    assert_eq!(text(&body, &["think"]), "low");
    assert_eq!(at(&body, &["options", "num_predict"]).and_then(|v| v.as_u64()), Some(5));
    assert!(ollama_think_value(&m, "off").is_none());

    let m = model(Provider::Gemini, "https://g/v1beta/", "/gemini-3-pro");
    let body = build_gemini_body(
        &m,
        &messages,
        &ImageData::new(),
        &Vec::new(),
        &Vec::new(),
        false,
        "off",
    )
    .expect("body");
    assert_eq!(
        text(&body, &["generationConfig", "thinkingConfig", "thinkingLevel"]),
        "MINIMAL"
    );
    assert_eq!(
        gemini_generate_url("https://g/v1beta/", "/gemini-3-pro", true),
        "https://g/v1beta/models/gemini-3-pro:streamGenerateContent?alt=sse"
    );
    assert_eq!(
        gemini_generate_url("https://g", "publishers/x", false),
        "https://g/publishers/x:generateContent"
    );
}

#[test]
fn levels_are_put_into_each_services_words() {
    assert_eq!(think_level_to_reasoning_effort("max"), "xhigh");
    assert_eq!(think_level_to_deepseek_reasoning_effort("low"), "high");
    assert_eq!(think_level_to_doubao_reasoning_effort("max"), "high");
    assert_eq!(think_level_to_anthropic_effort("xhigh"), "xhigh");
    assert_eq!(think_level_to_gemini_thinking_level("off"), "MINIMAL");
    assert_eq!(openai_responses_gpt5_minor("GPT-5.12-mini"), Some(12));
    assert_eq!(openai_responses_gpt5_minor("gpt-5.99999999999"), None);
    assert_eq!(openai_responses_gpt5_minor("gpt-5.x"), None);
    assert_eq!(think_level_to_openai_responses_reasoning_effort("gpt-5-pro", "low"), Some("high"));
    assert_eq!(think_level_to_openai_responses_reasoning_effort("gpt-5.1", "off"), Some("none"));
    assert_eq!(think_level_to_openai_responses_reasoning_effort("gpt-4o", "off"), None);
    let m = model(Provider::Anthropic, "http://x", "sonnet");
    assert!(auto_think_supported(&m));
    assert_eq!(effective_think_level(&m, "auto"), "medium");
    let mut plain = model(Provider::OpenAI, "http://x", "m");
    assert_eq!(effective_think_level(&plain, "auto"), "off");
    plain.thinking_format = Some("qwen".into());
    assert_eq!(effective_think_level(&plain, "auto"), "medium");
    assert_eq!(effective_think_level(&plain, "low"), "low");
}

// ── errors ─────────────────────────────────────────────────────────────────

#[test]
fn errors_are_put_into_words() {
    let data = parse_json_response("P", r#"{"error":{"code":429,"message":" slow down "}}"#)
        .expect("valid JSON");
    assert_eq!(
        provider_json_error("P", &data).as_deref(),
        Some("P API error: 429: slow down")
    );
    let empty = parse_json_response("P", r#"{"error":""}"#).expect("valid JSON");
    assert_eq!(
        provider_json_error("P", &empty).as_deref(),
        Some("P API error: unknown error")
    );
    let odd = parse_json_response("P", r#"{"error":{"x":[1, 2]}}"#).expect("valid JSON");
    assert_eq!(
        provider_json_error("P", &odd).as_deref(),
        Some("P API error: {\"x\":[1,2]}")
    );
    let fine = parse_json_response("P", r#"{"error":null}"#).expect("valid JSON");
    assert_eq!(provider_json_error("P", &fine), None);
    let broken = parse_json_response("P", " nope ").err().expect("invalid JSON");
    assert!(broken.starts_with("P decode error: "));
    assert!(broken.ends_with(" - body: nope"));
    let long = summarize_response_body(&"é".repeat(201));
    assert!(long.ends_with("...\n[truncated at 200 chars, total 201 chars]"));
}

#[test]
fn replies_that_are_no_stream_are_refused() {
    assert_eq!(validate_stream_response("P", "SSE", None, ""), Ok(()));
    assert_eq!(validate_stream_response("P", "SSE", Some("text/event-stream"), ""), Ok(()));
    assert_eq!(
        validate_stream_response("P", "SSE", Some("text/html; charset=utf-8"), "<html>"),
        Err("P stream error: expected SSE, got text/html; charset=utf-8 - body: <html>".into())
    );
    assert_eq!(
        validate_stream_response("P", "SSE", Some("application/json"), r#"{"error":"no"}"#),
        Err("P API error: no".into())
    );
    assert!(validate_stream_response("P", "SSE", Some("application/json"), "{}")
        .expect_err("no stream")
        .contains("got application/json - body: {}"));
}

#[test]
fn errors_are_sorted_by_their_envelope() {
    assert!(is_tool_calling_compatibility_error("API 400: tools are not supported"));
    assert!(!is_tool_calling_compatibility_error("API 500: tools are not supported"));
    assert!(!is_tool_calling_compatibility_error("API 400: bad request"));
    assert!(is_transient_llm_error("API 503 Service Unavailable: x"));
    assert!(is_transient_llm_error("HTTP error: timeout"));
    assert!(!is_transient_llm_error("API 401 Unauthorized"));
    assert!(!is_transient_llm_error("stream error: API 503"));
    assert!(!is_transient_llm_error("Client disconnected"));
    let exhausted = status_message("503 Service Unavailable", Some(3), "busy");
    assert_eq!(exhausted, "API 503 Service Unavailable (after 3 attempts): busy");
    assert!(is_transient_llm_error(&exhausted));
    assert_eq!(status_message("404 Not Found", None, "x"), "API 404 Not Found: x");
}

#[test]
fn requests_are_tried_again_with_growing_pauses() {
    let replied = |status, after| SendEvent::Replied(status, after);
    assert_eq!(send_with_retry_step(0, 2, &replied(200, None)), SendAction::Accept);
    assert_eq!(send_with_retry_step(0, 2, &replied(503, None)), SendAction::Retry(1000));
    assert_eq!(send_with_retry_step(9, 20, &replied(500, None)), SendAction::Retry(64000));
    assert_eq!(send_with_retry_step(0, 2, &replied(503, Some(20))), SendAction::Retry(1000));
    assert_eq!(send_with_retry_step(0, 2, &replied(429, Some(7))), SendAction::Retry(7000));
    assert_eq!(send_with_retry_step(0, 2, &replied(429, Some(900))), SendAction::Retry(30000));
    assert_eq!(send_with_retry_step(2, 2, &replied(429, None)), SendAction::Exhausted(3));
    assert_eq!(send_with_retry_step(0, 2, &replied(404, None)), SendAction::Refused);
    assert_eq!(
        send_with_retry_step(1, 2, &SendEvent::Failed(true, "t".into())),
        SendAction::Retry(2000)
    );
    assert_eq!(
        send_with_retry_step(0, 2, &SendEvent::Failed(false, "t".into())),
        SendAction::Broken("HTTP error: t".into())
    );
}

// ── replies ────────────────────────────────────────────────────────────────

#[test]
fn tool_calls_get_identifiers_of_their_own() {
    let calls = vec![call("a", "x", "1"), call("a", "y", "2"), call(" ", "z", "3")];
    let out = normalize_tool_call_ids(calls, 5);
    let ids: Vec<&str> = out.iter().map(|c| c.id.as_str()).collect();
    assert_eq!(ids, ["a", "tool_call_5_2", "tool_call_5_3"]);
    assert_eq!(out[1].function.name, "y");
}

#[test]
fn replies_leave_out_what_is_empty() {
    let r = build_llm_response(String::new(), "t".into(), Vec::new(), Some(1), None, NOW);
    assert_eq!(r.message.content, None);
    assert_eq!(r.message.thinking.as_deref(), Some("t"));
    assert_eq!(r.message.tool_calls, None);
    assert_eq!(r.message.timestamp, Some(7));
    let block = |signature: Option<&str>| AnthropicThinkingBlock {
        block_type: "thinking".into(),
        thinking: Some("t".into()),
        signature: signature.map(str::to_string),
        data: None,
    };
    let r = build_anthropic_llm_response(
        "c".into(),
        String::new(),
        vec![block(None), block(Some("s"))],
        Vec::new(),
        None,
        None,
        NOW,
    );
    assert_eq!(r.message.anthropic_thinking_blocks.map(|b| b.len()), Some(1));
}

#[test]
fn plain_replies_are_read_for_each_service() {
    let openai = r#"{"choices":[{"message":{"content":"hi"}}],"usage":{"prompt_tokens":3}}"#;
    let r = read_simple_reply(Provider::OpenAI, openai, true, NOW)
        .expect("reply")
        .expect("no error");
    assert_eq!((r.content.as_str(), r.input_tokens), ("hi", Some(3)));
    assert!(r.tool_image_compatibility_fallback);

    let anthropic = r#"{"content":[{"type":"thinking"},{"type":"text","text":"yo"}],
        "usage":{"input_tokens":1,"cache_read_input_tokens":2,"output_tokens":4}}"#;
    let r = read_simple_reply(Provider::Anthropic, anthropic, false, NOW)
        .expect("reply")
        .expect("no error");
    assert_eq!((r.content.as_str(), r.input_tokens, r.output_tokens), ("yo", Some(3), Some(4)));
    let huge = r#"{"usage":{"input_tokens":18446744073709551615,"cache_read_input_tokens":1}}"#;
    assert!(read_simple_reply(Provider::Anthropic, huge, false, NOW).is_none());

    let ollama = r#"{"message":{"content":"o"},"eval_count":2}"#;
    let r = read_simple_reply(Provider::Ollama, ollama, false, NOW)
        .expect("reply")
        .expect("no error");
    assert_eq!((r.content.as_str(), r.output_tokens), ("o", Some(2)));

    let responses = r#"{"output":[{"type":"message","content":[{"text":"a"},{"refusal":"b"}]}]}"#;
    let r = read_simple_reply(Provider::OpenAIResponses, responses, false, NOW)
        .expect("reply")
        .expect("no error");
    assert_eq!(r.content, "ab");

    let error = r#"{"error":{"message":"no"}}"#;
    assert_eq!(
        read_simple_reply(Provider::Ollama, error, false, NOW).expect("reply").err().as_deref(),
        Some("Ollama API error: no")
    );
}

#[test]
fn responses_replies_collect_items() {
    let data = parse_json_response(
        "R",
        r#"{"id":"r1","output":[
            {"type":"reasoning","summary":[{"text":"one"},{"text":"two"}]},
            {"type":"reasoning","summary":[{"text":"three"}]},
            {"type":"function_call","call_id":"c","name":"f","arguments":"{\"a\":1}"},
            {"type":"message","content":[{"text":"done"}]}
        ],"usage":{"input_tokens":5,"output_tokens":6}}"#,
    )
    .expect("valid JSON");
    let r = build_openai_responses_llm_response(&data, NOW);
    assert_eq!(r.message.thinking.as_deref(), Some("one\ntwo\n\nthree"));
    assert_eq!(r.message.content.as_deref(), Some("done"));
    assert_eq!(r.message.tool_calls.as_ref().map(|c| c[0].id.clone()), Some("c".into()));
    assert_eq!(openai_responses_response_id_from_message(&r.message), Some("r1"));
    assert_eq!((r.input_tokens, r.output_tokens), (Some(5), Some(6)));
}

// ── streams ────────────────────────────────────────────────────────────────

#[test]
fn chunks_may_fall_anywhere() {
    let mut whole = String::new();
    let all = drain_sse_lines(&mut whole, "a\nbc\nd");
    assert_eq!(all, ["a", "bc"]);
    assert_eq!(whole, "d");

    let mut partial = String::new();
    let mut lines = drain_sse_lines(&mut partial, "a\nb");
    lines.extend(drain_sse_lines(&mut partial, "c\nd"));
    assert_eq!(lines, all);
    assert_eq!(partial, "d");

    assert_eq!(sse_data(" data: x "), Some("x".into()));
    assert_eq!(sse_data(": ping"), None);
    assert_eq!(sse_data("event: x"), None);
}

fn choice(
    content: Option<&str>,
    reasoning: Option<&str>,
    calls: Option<Vec<DeltaToolCall>>,
    finish: Option<&str>,
) -> StreamChoice {
    StreamChoice {
        delta: StreamDelta {
            content: content.map(str::to_string),
            reasoning_content: reasoning.map(str::to_string),
            tool_calls: calls,
        },
        finish_reason: finish.map(str::to_string),
    }
}

#[test]
fn openai_stream_frames_reasoning_and_joins_calls() {
    let mut state = OpenAiStreamState::new();
    let mut live = Vec::new();
    let piece = |index, id: Option<&str>, name: Option<&str>, args: &str| DeltaToolCall {
        index,
        id: id.map(str::to_string),
        function: Some(DeltaFunction {
            name: name.map(str::to_string),
            arguments: Some(args.to_string()),
        }),
    };
    let chunks = [
        StreamChunk { choices: Some(vec![choice(None, Some("hm"), None, None)]), usage: None },
        StreamChunk { choices: Some(vec![choice(Some("hi"), None, None, None)]), usage: None },
        StreamChunk {
            choices: Some(vec![choice(
                None,
                None,
                Some(vec![piece(Some(1), Some("c2"), Some("g"), "{"), piece(None, Some("c1"), Some("f"), "")]),
                None,
            )]),
            usage: None,
        },
        StreamChunk {
            choices: Some(vec![
                choice(None, None, Some(vec![piece(Some(1), None, None, "}")]), Some("stop")),
                choice(Some("ignored"), None, None, None),
            ]),
            usage: Some(OpenAiUsage { prompt_tokens: Some(3), completion_tokens: None }),
        },
    ];
    for c in &chunks {
        assert!(!process_openai_data_line("{}", Some(c), &mut state, &mut live));
    }
    assert!(!process_openai_data_line("garbage", None, &mut state, &mut live));
    assert!(process_openai_data_line("[DONE]", None, &mut state, &mut live));
    finish_stream(&mut state, &mut live);
    assert_eq!(
        live,
        [
            LiveEvent::ThinkingStart,
            LiveEvent::ThinkingDelta("hm".into()),
            LiveEvent::ThinkingDone,
            LiveEvent::Delta("hi".into()),
        ]
    );
    assert_eq!(state.content_buf, "hi");
    assert_eq!(state.tool_calls.len(), 2);
    assert_eq!(state.tool_calls[0].id, "c1");
    assert_eq!(state.tool_calls[1].function.arguments, "{}");
    assert_eq!((state.input_tokens, state.output_tokens), (Some(3), None));
    assert_eq!(text(&live[1].to_json(), &["content"]), "hm");
}

#[test]
fn nothing_is_shown_once_nobody_looks() {
    let mut state = OpenAiStreamState::new();
    state.client_gone = true;
    let mut live = Vec::new();
    let c = StreamChunk {
        choices: Some(vec![choice(Some("hi"), Some("hm"), None, None)]),
        usage: None,
    };
    process_openai_data_line("{}", Some(&c), &mut state, &mut live);
    assert!(live.is_empty());
    assert_eq!(state.content_buf, "hi");
    assert_eq!(state.thinking_buf, "");
}

#[test]
fn ollama_stream_replaces_calls_and_ends() {
    let mut state = OpenAiStreamState::new();
    let mut live = Vec::new();
    let chunk = OllamaStreamChunk {
        message: Some(OllamaMessage {
            content: Some("x".into()),
            thinking: None,
            tool_calls: Some(vec![OllamaToolCall {
                id: None,
                function: Some(OllamaFunction {
                    name: Some("f".into()),
                    arguments: Some(Json::Object(vec![(
                        "a".into(),
                        Json::Number(JsonNumber::Unsigned(1)),
                    )])),
                }),
            }]),
        }),
        done: Some(true),
        prompt_eval_count: None,
        eval_count: Some(4),
    };
    assert!(process_ollama_json_line(Some(&chunk), &mut state, &mut live));
    assert!(!process_ollama_json_line(None, &mut state, &mut live));
    assert_eq!(state.tool_calls[0].id, "ollama_call_1");
    assert_eq!(state.tool_calls[0].function.arguments, "{\"a\":1}");
    assert_eq!(state.output_tokens, Some(4));
}

fn part(text: Option<&str>, thought: bool, call: Option<GeminiFunctionCall>) -> GeminiPart {
    GeminiPart {
        text: text.map(str::to_string),
        thought: Some(thought),
        thought_signature: Some("sig".into()),
        function_call: call,
    }
}

fn gemini(parts: Vec<GeminiPart>) -> GeminiGenerateResponse {
    GeminiGenerateResponse {
        candidates: Some(vec![GeminiCandidate {
            content: Some(GeminiContent { parts: Some(parts) }),
            finish_reason: None,
        }]),
        usage_metadata: Some(GeminiUsage {
            prompt_token_count: Some(1),
            candidates_token_count: Some(2),
            thoughts_token_count: Some(3),
        }),
        prompt_feedback: None,
        error: None,
    }
}

#[test]
fn gemini_stream_collects_parts_and_reports_blocks() {
    let mut state = OpenAiStreamState::new();
    let mut live = Vec::new();
    let chunk = gemini(vec![
        part(Some("hm"), true, None),
        part(Some("hi"), false, None),
        part(
            None,
            false,
            Some(GeminiFunctionCall { id: Some(" ".into()), name: Some("f".into()), args: None }),
        ),
    ]);
    assert_eq!(process_gemini_data_line(Some(&chunk), &mut state, &mut live), Ok(()));
    assert_eq!(process_gemini_data_line(None, &mut state, &mut live), Ok(()));
    assert_eq!(state.thinking_buf, "hm");
    assert_eq!(state.content_buf, "hi");
    assert_eq!(state.tool_calls[0].id, "gemini_call_1");
    assert_eq!(state.tool_calls[0].function.arguments, "{}");
    assert_eq!(state.tool_calls[0].gemini_thought_signature.as_deref(), Some("sig"));
    assert_eq!(state.output_tokens, Some(5));
    assert_eq!(gemini_usage_pair(None), (None, None));
    assert_eq!(read_gemini_reply(&chunk).expect("reply").content, "hmhi");

    let mut blocked = gemini(Vec::new());
    blocked.prompt_feedback = Some(GeminiPromptFeedback { block_reason: Some("SAFETY".into()) });
    assert_eq!(
        process_gemini_data_line(Some(&blocked), &mut state, &mut live),
        Err("Gemini blocked the prompt: SAFETY".into())
    );
    let mut stopped = gemini(Vec::new());
    stopped.candidates = Some(vec![GeminiCandidate {
        content: None,
        finish_reason: Some(" recitation ".into()),
    }]);
    assert_eq!(
        gemini_response_error(&stopped).as_deref(),
        Some("Gemini stopped generation with finishReason:  recitation ")
    );
    let mut failed = gemini(Vec::new());
    failed.error = Some(GeminiApiError {
        code: Some(429),
        message: Some("slow".into()),
        status: Some(String::new()),
    });
    assert_eq!(
        gemini_response_error(&failed).as_deref(),
        Some("Gemini API error: code 429: slow")
    );
}

fn event(index: Option<usize>) -> AnthropicEvent {
    AnthropicEvent { index, delta: None, content_block: None, message: None, usage: None }
}

fn delta(kind: &str) -> AnthropicDelta {
    AnthropicDelta {
        delta_type: Some(kind.into()),
        text: None,
        thinking: None,
        signature: None,
        partial_json: None,
    }
}

fn block(kind: &str) -> AnthropicContentBlock {
    AnthropicContentBlock {
        block_type: kind.into(),
        id: Some("tu".into()),
        name: Some("f".into()),
        thinking: None,
        signature: None,
        data: None,
    }
}

#[test]
fn anthropic_stream_builds_blocks_in_place() {
    let usage = AnthropicUsage {
        input_tokens: Some(1),
        output_tokens: Some(9),
        cache_creation_input_tokens: Some(2),
        cache_read_input_tokens: None,
    };
    assert_eq!(anthropic_input_tokens(&usage), Some(3));
    let mut state = AnthropicStreamState::new();
    let mut live = Vec::new();
    let mut send = |kind: &str, e: AnthropicEvent, live: &mut Vec<LiveEvent>| {
        process_anthropic_sse_line(&format!("event: {kind}"), None, &mut state, live);
        process_anthropic_sse_line("data: {}", Some(&e), &mut state, live);
    };
    let mut start = event(None);
    start.message = Some(AnthropicMessage { usage: Some(usage) });
    send("message_start", start, &mut live);
    let mut e = event(Some(0));
    e.content_block = Some(block("thinking"));
    send("content_block_start", e, &mut live);
    let mut e = event(Some(0));
    e.delta = Some(AnthropicDelta { thinking: Some("hm".into()), ..delta("thinking_delta") });
    send("content_block_delta", e, &mut live);
    let mut e = event(Some(0));
    e.delta = Some(AnthropicDelta { signature: Some("s".into()), ..delta("signature_delta") });
    send("content_block_delta", e, &mut live);
    send("content_block_stop", event(Some(0)), &mut live);
    let mut e = event(Some(1));
    e.content_block = Some(block("tool_use"));
    send("content_block_start", e, &mut live);
    let mut e = event(Some(1));
    e.delta = Some(AnthropicDelta { partial_json: Some("{}".into()), ..delta("input_json_delta") });
    send("content_block_delta", e, &mut live);
    let mut e = event(Some(2));
    e.delta = Some(AnthropicDelta { text: Some("hi".into()), ..delta("text_delta") });
    send("content_block_delta", e, &mut live);
    finish_anthropic_stream(&mut state, &mut live);
    assert_eq!(
        live,
        [
            LiveEvent::ThinkingStart,
            LiveEvent::ThinkingDelta("hm".into()),
            LiveEvent::ThinkingDone,
            LiveEvent::Delta("hi".into()),
        ]
    );
    assert_eq!(state.thinking_blocks[0].thinking.as_deref(), Some("hm"));
    assert_eq!(state.thinking_blocks[0].signature.as_deref(), Some("s"));
    assert_eq!(state.tool_calls[0].function.arguments, "{}");
    assert_eq!((state.input_tokens, state.output_tokens), (Some(3), Some(9)));
    assert_eq!(anthropic_line_data(" data: {} "), Some("{}".into()));
    assert_eq!(anthropic_line_data("event: x"), None);
}

#[test]
fn responses_stream_joins_pieces_of_one_call() {
    let mut state = OpenAiResponsesStreamState::new();
    let mut live = Vec::new();
    let mut partial = String::new();
    let stream = concat_lines(&[
        r#"data: {"type":"response.created","response":{"id":"r1"}}"#,
        r#"data: {"type":"response.reasoning_summary_text.delta","delta":"hm"}"#,
        r#"data: {"type":"response.output_text.delta","delta":"hi"}"#,
        r#"data: {"type":"response.output_item.added","output_index":0,"item":{"type":"function_call","id":"i1","call_id":"c1","name":"f"}}"#,
        r#"data: {"type":"response.function_call_arguments.delta","item_id":"i1","delta":"{\"a\":"}"#,
        r#"data: {"type":"response.function_call_arguments.delta","output_index":0,"delta":"1}"}"#,
    ]);
    assert_eq!(
        consume_openai_responses_chunk(&mut partial, &stream, &mut state, &mut live),
        Ok(false)
    );
    assert_eq!(state.base.tool_calls.len(), 1);
    assert_eq!(state.base.tool_calls[0].function.arguments, "{\"a\":1}");
    assert_eq!(
        live,
        [
            LiveEvent::ThinkingStart,
            LiveEvent::ThinkingDelta("hm".into()),
            LiveEvent::ThinkingDone,
            LiveEvent::Delta("hi".into()),
        ]
    );
    assert_eq!(
        consume_openai_responses_chunk(
            &mut partial,
            "data: {\"type\":\"response.completed\",\"response\":{\"id\":\"r2\",\"usage\":{\"input_tokens\":4}}}\nleft",
            &mut state,
            &mut live
        ),
        Ok(true)
    );
    assert_eq!(partial, "left");
    let r = build_openai_responses_stream_llm_response(state, NOW);
    assert_eq!(r.message.content.as_deref(), Some("hi"));
    assert_eq!(r.input_tokens, Some(4));
    assert_eq!(openai_responses_response_id_from_message(&r.message), Some("r2"));
}

#[test]
fn responses_stream_reports_failures() {
    let run = |line: &str| {
        let mut state = OpenAiResponsesStreamState::new();
        consume_openai_responses_chunk(
            &mut String::new(),
            &format!("{line}\n"),
            &mut state,
            &mut Vec::new(),
        )
    };
    assert_eq!(
        run(r#"data: {"type":"error","message":"boom"}"#),
        Err("OpenAI Responses API error: boom".into())
    );
    assert_eq!(
        run(r#"data: {"type":"response.incomplete","response":{"incomplete_details":{"reason":"max_output_tokens"}}}"#),
        Err("OpenAI Responses API incomplete: max_output_tokens".into())
    );
    assert!(run("data: nope").err().expect("error").starts_with("OpenAI Responses stream decode error"));
    assert_eq!(run("data: [DONE]"), Ok(true));
    assert_eq!(run(": comment"), Ok(false));
}

fn concat_lines(lines: &[&str]) -> String {
    lines.iter().map(|l| format!("{l}\n")).collect()
}

#[test]
fn failed_responses_are_labelled() {
    let failure = |data: &str, kind: &str| {
        let mut state = OpenAiResponsesStreamState::new();
        process_openai_responses_stream_event(data, kind, &mut state, &mut Vec::new())
            .expect_err("failed")
    };
    let bare = failure(r#"{"type":"error","message":"HTTP error: upstream text"}"#, "");
    assert_eq!(bare, "OpenAI Responses API error: HTTP error: upstream text");
    let silent = failure(r#"{"type":"response.failed"}"#, "");
    assert_eq!(silent, "OpenAI Responses API error: {\"type\":\"response.failed\"}");
    let known = failure(r#"{"error":{"message":"API 401 no"}}"#, "error");
    assert_eq!(known, "OpenAI Responses API error: API 401 no");
    let broken = failure("API 503 x", "");
    for error in [bare, silent, known, broken] {
        assert_eq!(
            RunDiagnostic::from_provider_error(&error).code,
            RunDiagnosticCode::ProviderResponseInvalid
        );
        assert!(!is_transient_llm_error(&error));
    }
}
