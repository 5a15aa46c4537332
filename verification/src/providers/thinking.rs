//! How much a model is to think, in the words of each service.

use crate::chat::Provider;
use crate::json::{Json, JsonView, Obj, json_text, make1, object1, with_entry};
use crate::providers::model::{
    ResolvedModel, ResolvedView, has_reasoning_controls, is_deepseek,
    openai_supports_reasoning_controls,
};
use crate::text::{
    ascii_lower, begins, chars_of, contains, holds_text, opt_str, owned, same, starts_with,
    strip_prefix, to_ascii_lower, trim, trimmed,
};
use vstd::prelude::*;
use vstd::string::*;

verus! {

// ---------------------------------------------------------------------------
// Levels
// ---------------------------------------------------------------------------

/// OpenAI's word for a level.
pub open spec fn openai_effort(level: Seq<char>) -> Seq<char> {
    if level == "minimal"@ || level == "low"@ {
        "low"@
    } else if level == "high"@ {
        "high"@
    } else if level == "xhigh"@ || level == "max"@ {
        "xhigh"@
    } else {
        "medium"@
    }
}

/// OpenAI's word for a level.
pub fn think_level_to_reasoning_effort(level: &str) -> (r: &'static str)
    ensures
        r@ == openai_effort(level@),
{
    if same(level, "minimal") || same(level, "low") {
        "low"
    } else if same(level, "high") {
        "high"
    } else if same(level, "xhigh") || same(level, "max") {
        "xhigh"
    } else {
        "medium"
    }
}

/// DeepSeek's word for a level.
pub open spec fn deepseek_effort(level: Seq<char>) -> Seq<char> {
    if level == "xhigh"@ || level == "max"@ {
        "max"@
    } else {
        "high"@
    }
}

/// DeepSeek's word for a level: it knows two.
pub fn think_level_to_deepseek_reasoning_effort(level: &str) -> (r: &'static str)
    ensures
        r@ == deepseek_effort(level@),
{
    if same(level, "xhigh") || same(level, "max") {
        "max"
    } else {
        "high"
    }
}

/// Doubao's word for a level.
pub open spec fn doubao_effort(level: Seq<char>) -> Seq<char> {
    if level == "minimal"@ || level == "low"@ {
        "low"@
    } else if level == "high"@ || level == "xhigh"@ || level == "max"@ {
        "high"@
    } else {
        "medium"@
    }
}

/// Doubao's word for a level: it knows three.
pub fn think_level_to_doubao_reasoning_effort(level: &str) -> (r: &'static str)
    ensures
        r@ == doubao_effort(level@),
{
    if same(level, "minimal") || same(level, "low") {
        "low"
    } else if same(level, "high") || same(level, "xhigh") || same(level, "max") {
        "high"
    } else {
        "medium"
    }
}

/// Anthropic's word for a level.
pub open spec fn anthropic_effort(level: Seq<char>) -> Seq<char> {
    if level == "minimal"@ || level == "low"@ {
        "low"@
    } else if level == "high"@ || level == "xhigh"@ || level == "max"@ {
        level
    } else {
        "medium"@
    }
}

/// Anthropic's word for a level.
pub fn think_level_to_anthropic_effort(level: &str) -> (r: &'static str)
    ensures
        r@ == anthropic_effort(level@),
{
    if same(level, "minimal") || same(level, "low") {
        "low"
    } else if same(level, "high") {
        "high"
    } else if same(level, "xhigh") {
        "xhigh"
    } else if same(level, "max") {
        "max"
    } else {
        "medium"
    }
}

/// Ollama's word for a level.
pub open spec fn ollama_level(level: Seq<char>) -> Seq<char> {
    if level == "minimal"@ || level == "low"@ {
        "low"@
    } else if level == "high"@ || level == "xhigh"@ {
        "high"@
    } else {
        "medium"@
    }
}

/// Ollama's word for a level.
pub fn think_level_to_ollama_level(level: &str) -> (r: &'static str)
    ensures
        r@ == ollama_level(level@),
{
    if same(level, "minimal") || same(level, "low") {
        "low"
    } else if same(level, "high") || same(level, "xhigh") {
        "high"
    } else {
        "medium"
    }
}

/// Gemini's word for a level.
pub open spec fn gemini_level(level: Seq<char>) -> Seq<char> {
    if level == "off"@ || level == "minimal"@ {
        "MINIMAL"@
    } else if level == "low"@ {
        "LOW"@
    } else if level == "medium"@ {
        "MEDIUM"@
    } else {
        "HIGH"@
    }
}

/// Gemini's word for a level.
pub fn think_level_to_gemini_thinking_level(level: &str) -> (r: &'static str)
    ensures
        r@ == gemini_level(level@),
{
    if same(level, "off") || same(level, "minimal") {
        "MINIMAL"
    } else if same(level, "low") {
        "LOW"
    } else if same(level, "medium") {
        "MEDIUM"
    } else {
        "HIGH"
    }
}

// ---------------------------------------------------------------------------
// OpenAI's responses
// ---------------------------------------------------------------------------

/// A decimal digit.
pub open spec fn is_digit(c: char) -> bool {
    '0' <= c <= '9'
}

/// How many digits a text begins with.
pub open spec fn digit_run(s: Seq<char>) -> nat
    decreases s.len(),
{
    if s.len() > 0 && is_digit(s[0]) {
        1 + digit_run(s.skip(1))
    } else {
        0
    }
}

/// The number that digits stand for.
pub open spec fn digits_value(s: Seq<char>) -> nat
    decreases s.len(),
{
    if s.len() == 0 {
        0
    } else {
        (digits_value(s.drop_last()) * 10 + (s.last() as int - '0' as int)) as nat
    }
}

proof fn lemma_digit_run(s: Seq<char>)
    ensures
        digit_run(s) <= s.len(),
        forall|i: int| 0 <= i < digit_run(s) ==> is_digit(#[trigger] s[i]),
    decreases s.len(),
{
    if s.len() > 0 && is_digit(s[0]) {
        lemma_digit_run(s.skip(1));
        assert forall|i: int| 0 <= i < digit_run(s) implies is_digit(#[trigger] s[i]) by {
            if i > 0 {
                assert(s[i] == s.skip(1)[i - 1]);
            }
        }
    }
}

/// The number behind `gpt-5.` in the name of a model, where it fits into 32
/// bits.
pub open spec fn gpt5_minor(model_id: Seq<char>) -> Option<u32> {
    let lower = ascii_lower(model_id);
    if !begins(lower, "gpt-5."@) {
        None
    } else {
        let rest = lower.skip("gpt-5."@.len() as int);
        let n = digit_run(rest);
        let value = digits_value(rest.take(n as int));
        if n == 0 || value > u32::MAX {
            None
        } else {
            Some(value as u32)
        }
    }
}

proof fn lemma_digits_grow(s: Seq<char>, n: int, k: int)
    requires
        0 <= n <= k <= s.len(),
        forall|i: int| 0 <= i < k ==> is_digit(#[trigger] s[i]),
    ensures
        digits_value(s.take(n)) <= digits_value(s.take(k)),
    decreases k,
{
    if n < k {
        lemma_digits_grow(s, n, k - 1);
        assert(s.take(k).drop_last() =~= s.take(k - 1));
        assert(is_digit(s[k - 1]));
        assert(s.take(k).last() == s[k - 1]);
    }
}

/// The number behind `gpt-5.` in the name of a model.
pub fn openai_responses_gpt5_minor(model_id: &str) -> (r: Option<u32>)
    ensures
        r == gpt5_minor(model_id@),
{
    let lower = to_ascii_lower(model_id);
    let rest = match strip_prefix(lower.as_str(), "gpt-5.") {
        Some(t) => t,
        None => {
            return None;
        },
    };
    let v = chars_of(rest.as_str());
    let ghost n = digit_run(rest@);
    proof {
        lemma_digit_run(rest@);
    }
    let mut value: u64 = 0;
    let mut i: usize = 0;
    assert(v@.skip(0) =~= v@);
    assert(v@.take(0) =~= Seq::<char>::empty());
    while i < v.len()
        invariant_except_break
            value <= u32::MAX,
        invariant
            v@ == rest@,
            n == digit_run(rest@),
            n <= rest@.len(),
            forall|j: int| 0 <= j < n ==> is_digit(#[trigger] rest@[j]),
            i <= n,
            n == i + digit_run(v@.skip(i as int)),
            value == digits_value(v@.take(i as int)),
        ensures
            i == n || value > u32::MAX,
            value <= 0xffff_ffff_ff,
        decreases v@.len() - i,
    {
        let c: char = v[i];
        let ghost tail = v@.skip(i as int);
        assert(tail[0] == c);
        assert(tail.skip(1) =~= v@.skip(i + 1));
        if !('0' <= c && c <= '9') {
            break;
        }
        assert(v@.take(i + 1).drop_last() =~= v@.take(i as int));
        assert(v@.take(i + 1).last() == c);
        value = value * 10 + (c as u64 - '0' as u64);
        i = i + 1;
        if value > 0xffff_ffff {
            break;
        }
    }
    proof {
        if i < n {
            lemma_digits_grow(rest@, i as int, n as int);
        }
    }
    if i == 0 || value > 0xffff_ffff {
        None
    } else {
        Some(value as u32)
    }
}

/// The model is a professional one of the fifth generation.
pub open spec fn is_gpt5_pro(model_id: Seq<char>) -> bool {
    let lower = ascii_lower(model_id);
    lower == "gpt-5-pro"@ || begins(lower, "gpt-5-pro-"@) || (begins(lower, "gpt-5."@)
        && holds_text(lower, "-pro"@))
}

/// Whether a model is a professional one of the fifth generation.
pub fn openai_responses_is_gpt5_pro(model_id: &str) -> (r: bool)
    ensures
        r == is_gpt5_pro(model_id@),
{
    let lower = to_ascii_lower(model_id);
    let text = lower.as_str();
    same(text, "gpt-5-pro") || starts_with(text, "gpt-5-pro-") || (starts_with(text, "gpt-5.")
        && contains(text, "-pro"))
}

/// The model can be told not to think.
pub open spec fn supports_none(model_id: Seq<char>) -> bool {
    !is_gpt5_pro(model_id) && gpt5_minor(model_id) is Some && gpt5_minor(model_id)->0 >= 1
}

/// Whether a model can be told not to think.
pub fn openai_responses_supports_none_effort(model_id: &str) -> (r: bool)
    ensures
        r == supports_none(model_id@),
{
    !openai_responses_is_gpt5_pro(model_id) && match openai_responses_gpt5_minor(model_id) {
        Some(minor) => minor >= 1,
        None => false,
    }
}

/// The effort that is asked for of a model.
pub open spec fn responses_effort(model_id: Seq<char>, level: Seq<char>) -> Option<Seq<char>> {
    if is_gpt5_pro(model_id) {
        if level == "off"@ {
            None
        } else {
            Some("high"@)
        }
    } else if level == "off"@ {
        if supports_none(model_id) {
            Some("none"@)
        } else {
            None
        }
    } else if level == "minimal"@ || level == "low"@ {
        Some("low"@)
    } else if level == "high"@ || level == "xhigh"@ || level == "max"@ {
        Some("high"@)
    } else {
        Some("medium"@)
    }
}

/// The effort that is asked for of a model.
pub fn think_level_to_openai_responses_reasoning_effort(model_id: &str, level: &str) -> (r: Option<
    &'static str,
>)
    ensures
        opt_str(r) == responses_effort(model_id@, level@),
{
    if openai_responses_is_gpt5_pro(model_id) {
        return if same(level, "off") {
            None
        } else {
            Some("high")
        };
    }
    if same(level, "off") {
        return if openai_responses_supports_none_effort(model_id) {
            Some("none")
        } else {
            None
        };
    }
    if same(level, "minimal") || same(level, "low") {
        Some("low")
    } else if same(level, "high") || same(level, "xhigh") || same(level, "max") {
        Some("high")
    } else {
        Some("medium")
    }
}

// ---------------------------------------------------------------------------
// Settings of requests
// ---------------------------------------------------------------------------

/// The setting that turns thinking on or off.
pub open spec fn thinking_switch(state: Seq<char>) -> JsonView {
    object1("type"@, JsonView::Text(state))
}

/// The entries of a request with the settings for thinking.
pub open spec fn with_thinking(
    entries: Seq<(Seq<char>, JsonView)>,
    format: Option<Seq<char>>,
    level: Seq<char>,
) -> Seq<(Seq<char>, JsonView)> {
    if level != "off"@ {
        if format == Some("qwen"@) {
            with_entry(entries, "enable_thinking"@, JsonView::Bool(true))
        } else if format == Some("doubao"@) {
            with_entry(
                with_entry(entries, "reasoning_effort"@, JsonView::Text(doubao_effort(level))),
                "thinking"@,
                thinking_switch("enabled"@),
            )
        } else if is_deepseek(format) {
            with_entry(
                with_entry(entries, "reasoning_effort"@, JsonView::Text(deepseek_effort(level))),
                "thinking"@,
                thinking_switch("enabled"@),
            )
        } else {
            with_entry(entries, "reasoning_effort"@, JsonView::Text(openai_effort(level)))
        }
    } else if is_deepseek(format) || format == Some("doubao"@) {
        with_entry(entries, "thinking"@, thinking_switch("disabled"@))
    } else {
        entries
    }
}

/// Sets what a request says on thinking.
pub fn apply_openai_thinking_controls(body: &mut Obj, resolved: &ResolvedModel, think_level: &str)
    ensures
        final(body)@ == with_thinking(old(body)@, resolved@.thinking_format, think_level@),
{
    let format = match &resolved.thinking_format {
        Some(f) => f.as_str(),
        None => "openai",
    };
    proof {
        reveal_strlit("openai");
        reveal_strlit("qwen");
        reveal_strlit("doubao");
        reveal_strlit("deepseek-v4");
        assert("openai"@[0] == 'o');
        assert("qwen"@[0] == 'q');
        assert("doubao"@[0] == 'd');
        assert("deepseek-v4"@[0] == 'd');
    }
    if !same(think_level, "off") {
        if same(format, "qwen") {
            body.set_bool("enable_thinking", true);
        } else if same(format, "doubao") {
            body.set_text("reasoning_effort", think_level_to_doubao_reasoning_effort(think_level));
            body.set("thinking", make1("type", json_text("enabled")));
        } else if same(format, "deepseek-v4") {
            body.set_text(
                "reasoning_effort",
                think_level_to_deepseek_reasoning_effort(think_level),
            );
            body.set("thinking", make1("type", json_text("enabled")));
        } else {
            body.set_text("reasoning_effort", think_level_to_reasoning_effort(think_level));
        }
    } else if same(format, "deepseek-v4") || same(format, "doubao") {
        body.set("thinking", make1("type", json_text("disabled")));
    }
}

/// The model is one of Gemini's third generation, which takes levels.
pub open spec fn takes_gemini_level(m: ResolvedView) -> bool {
    holds_text(ascii_lower(trimmed(m.model_id)), "gemini-3"@)
}

/// Whether a model is one of Gemini's third generation, which takes levels.
pub fn gemini_uses_thinking_level(resolved: &ResolvedModel) -> (r: bool)
    ensures
        r == takes_gemini_level(resolved@),
{
    contains(to_ascii_lower(trim(resolved.model_id.as_str()).as_str()).as_str(), "gemini-3")
}

/// The model thinks when it is left to it.
pub open spec fn can_auto_think(m: ResolvedView) -> bool {
    match m.provider {
        Provider::OpenAI => m.reasoning && has_reasoning_controls(m),
        Provider::OpenAIResponses => m.reasoning && has_reasoning_controls(m),
        Provider::Anthropic => m.reasoning,
        Provider::Ollama => m.reasoning || m.thinking_format is Some,
        Provider::Gemini => m.reasoning || m.thinking_format is Some || takes_gemini_level(m),
    }
}

/// Whether a model thinks when it is left to it.
pub fn auto_think_supported(resolved: &ResolvedModel) -> (r: bool)
    ensures
        r == can_auto_think(resolved@),
{
    match resolved.provider {
        Provider::OpenAI => resolved.reasoning && openai_supports_reasoning_controls(resolved),
        Provider::OpenAIResponses => resolved.reasoning && openai_supports_reasoning_controls(
            resolved,
        ),
        Provider::Anthropic => resolved.reasoning,
        Provider::Ollama => resolved.reasoning || resolved.thinking_format.is_some(),
        Provider::Gemini => resolved.reasoning || resolved.thinking_format.is_some()
            || gemini_uses_thinking_level(resolved),
    }
}

/// The level that a request uses: `auto` is medium where the model thinks when
/// it is left to it, and off elsewhere.
pub open spec fn level_in_force(m: ResolvedView, level: Seq<char>) -> Seq<char> {
    if level == "auto"@ {
        if can_auto_think(m) {
            "medium"@
        } else {
            "off"@
        }
    } else {
        level
    }
}

/// The level that a request uses.
pub fn effective_think_level(resolved: &ResolvedModel, think_level: &str) -> (r: String)
    ensures
        r@ == level_in_force(resolved@, think_level@),
{
    if same(think_level, "auto") {
        if auto_think_supported(resolved) {
            owned("medium")
        } else {
            owned("off")
        }
    } else {
        owned(think_level)
    }
}

/// The model wants a level in place of a switch.
pub open spec fn takes_ollama_level(m: ResolvedView) -> bool {
    m.thinking_format == Some("gpt-oss"@) || m.thinking_format == Some("ollama-gpt-oss"@) || begins(
        ascii_lower(trimmed(m.model_id)),
        "gpt-oss"@,
    )
}

/// Whether a model wants a level in place of a switch.
pub fn ollama_uses_think_levels(resolved: &ResolvedModel) -> (r: bool)
    ensures
        r == takes_ollama_level(resolved@),
{
    let by_format: bool = match &resolved.thinking_format {
        Some(f) => same(f.as_str(), "gpt-oss") || same(f.as_str(), "ollama-gpt-oss"),
        None => false,
    };
    by_format || starts_with(
        to_ascii_lower(trim(resolved.model_id.as_str()).as_str()).as_str(),
        "gpt-oss",
    )
}

/// What a request to Ollama says on thinking.
pub open spec fn ollama_think(m: ResolvedView, level: Seq<char>) -> Option<JsonView> {
    if level == "off"@ {
        if takes_ollama_level(m) {
            None
        } else {
            Some(JsonView::Bool(false))
        }
    } else if takes_ollama_level(m) {
        Some(JsonView::Text(ollama_level(level)))
    } else {
        Some(JsonView::Bool(true))
    }
}

/// What a request to Ollama says on thinking.
pub fn ollama_think_value(resolved: &ResolvedModel, think_level: &str) -> (r: Option<Json>)
    ensures
        match r {
            Some(j) => ollama_think(resolved@, think_level@) == Some(j@),
            None => ollama_think(resolved@, think_level@) is None,
        },
{
    let levels: bool = ollama_uses_think_levels(resolved);
    if same(think_level, "off") {
        if levels {
            None
        } else {
            Some(Json::Bool(false))
        }
    } else if levels {
        Some(json_text(think_level_to_ollama_level(think_level)))
    } else {
        Some(Json::Bool(true))
    }
}

/// The words that each service knows for how much to think: whatever level is
/// asked for, none gets a word that it does not know.
pub proof fn law_efforts_known(level: Seq<char>)
    ensures
        deepseek_effort(level) == "high"@ || deepseek_effort(level) == "max"@,
        doubao_effort(level) == "low"@ || doubao_effort(level) == "medium"@ || doubao_effort(level)
            == "high"@,
        ollama_level(level) == "low"@ || ollama_level(level) == "medium"@ || ollama_level(level)
            == "high"@,
        openai_effort(level) == "low"@ || openai_effort(level) == "medium"@ || openai_effort(level)
            == "high"@ || openai_effort(level) == "xhigh"@,
        gemini_level(level) == "MINIMAL"@ || gemini_level(level) == "LOW"@ || gemini_level(level)
            == "MEDIUM"@ || gemini_level(level) == "HIGH"@,
{
}

} // verus!
