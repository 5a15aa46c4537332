//! A model as it is configured, and what its service expects.

use crate::json::parse;
use crate::chat::Provider;
use crate::text::{ascii_lower, opt_str, opt_text, same, to_ascii_lower};
use vstd::prelude::*;
use vstd::string::*;

verus! {

/// A model with the service that it is reached through.
#[derive(Debug, PartialEq, Eq)]
pub struct ResolvedModel {
    pub provider: Provider,
    pub api_base: String,
    pub api_key: String,
    pub model_id: String,
    pub reasoning: bool,
    /// How the service wants reasoning to be asked for.
    pub thinking_format: Option<String>,
    /// The kind of summary that is asked for of the reasoning.
    pub openai_responses_reasoning_summary: Option<String>,
    pub max_tokens: Option<u64>,
    pub context_window: u64,
    pub stream_include_usage: bool,
    pub anthropic_prompt_caching: bool,
}

#[verifier::ext_equal]
pub struct ResolvedView {
    pub provider: Provider,
    pub api_base: Seq<char>,
    pub api_key: Seq<char>,
    pub model_id: Seq<char>,
    pub reasoning: bool,
    pub thinking_format: Option<Seq<char>>,
    pub summary: Option<Seq<char>>,
    pub max_tokens: Option<u64>,
    pub context_window: u64,
    pub stream_include_usage: bool,
    pub anthropic_prompt_caching: bool,
}

impl ResolvedModel {
    pub open spec fn view(self) -> ResolvedView {
        ResolvedView {
            provider: self.provider,
            api_base: self.api_base@,
            api_key: self.api_key@,
            model_id: self.model_id@,
            reasoning: self.reasoning,
            thinking_format: opt_text(self.thinking_format),
            summary: opt_text(self.openai_responses_reasoning_summary),
            max_tokens: self.max_tokens,
            context_window: self.context_window,
            stream_include_usage: self.stream_include_usage,
            anthropic_prompt_caching: self.anthropic_prompt_caching,
        }
    }
}

/// The host that `reqwest::Url` finds in a text, where it reads the text as a
/// URL that has one.
pub uninterp spec fn url_host(text: Seq<char>) -> Option<Seq<char>>;

/// Calls `reqwest::Url::parse` and, on the URL, `host_str`. The host depends on
/// the text alone; how a URL is read stays unsaid.
#[verifier::external_body]
fn host_of(text: &str) -> (r: Option<String>)
    ensures
        opt_text(r) == url_host(text@),
{
    match reqwest::Url::parse(text) {
        Ok(url) => url.host_str().map(String::from),
        Err(_) => None,
    }
}

/// The host is the one of OpenAI itself, whatever its case.
pub open spec fn is_openai_host(host: Option<Seq<char>>) -> bool {
    host is Some && ascii_lower(host->0) == ascii_lower("api.openai.com"@)
}

/// Whether a host is the one of OpenAI itself.
pub fn names_openai(host: &Option<String>) -> (r: bool)
    ensures
        r == is_openai_host(opt_text(*host)),
{
    match host {
        Some(h) => same(
            to_ascii_lower(h.as_str()).as_str(),
            to_ascii_lower("api.openai.com").as_str(),
        ),
        None => false,
    }
}

/// Whether a service is OpenAI's own.
pub fn is_official_openai_api_base(api_base: &str) -> (r: bool)
    ensures
        r == is_openai_host(url_host(api_base@)),
{
    names_openai(&host_of(api_base))
}

/// Whether a tool call without text is sent with a null content.
pub fn openai_prefers_null_tool_call_content_with_opt_in(
    api_base: &str,
    explicit_opt_in: bool,
) -> (r: bool)
    ensures
        r == (is_openai_host(url_host(api_base@)) || explicit_opt_in),
{
    is_official_openai_api_base(api_base) || explicit_opt_in
}

/// Whether a tool call without text is sent to a model with a null content.
/// `env_opt_in` is what the environment says on it, where it says anything.
pub fn openai_prefers_null_tool_call_content(
    resolved: &ResolvedModel,
    env_opt_in: Option<bool>,
) -> (r: bool)
    ensures
        r == (is_openai_host(url_host(resolved@.api_base)) || env_opt_in == Some(true)),
{
    openai_prefers_null_tool_call_content_with_opt_in(
        resolved.api_base.as_str(),
        matches!(env_opt_in, Some(true)),
    )
}

/// The service understands settings for the reasoning.
pub open spec fn has_reasoning_controls(m: ResolvedView) -> bool {
    is_openai_host(url_host(m.api_base)) || m.thinking_format is Some
}

/// Whether the service understands settings for the reasoning.
pub fn openai_supports_reasoning_controls(resolved: &ResolvedModel) -> (r: bool)
    ensures
        r == has_reasoning_controls(resolved@),
{
    is_official_openai_api_base(resolved.api_base.as_str()) || resolved.thinking_format.is_some()
}

/// Whether the service speaks one of OpenAI's two dialects.
pub fn is_openai_family(provider: Provider) -> (r: bool)
    ensures
        r == (provider is OpenAI || provider is OpenAIResponses),
{
    matches!(provider, Provider::OpenAI | Provider::OpenAIResponses)
}

/// The model wants DeepSeek's way of handing reasoning back.
pub open spec fn is_deepseek(format: Option<Seq<char>>) -> bool {
    format == Some("deepseek-v4"@)
}

/// Whether a format is DeepSeek's.
pub fn names_deepseek(format: Option<&str>) -> (r: bool)
    ensures
        r == is_deepseek(opt_str(format)),
{
    match format {
        Some(f) => same(f, "deepseek-v4"),
        None => false,
    }
}

} // verus!
