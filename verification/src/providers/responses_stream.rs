//! Replies of OpenAI's responses that arrive piece by piece.

use crate::chat::{MessageView, ToolCall, ToolCallView, calls_tools, calls_view, says_something};
use crate::json::{
    Json, JsonView, compact, find_text, get_number, inner_number, json_compact, json_parsed,
    member, number_at, opt_json, opt_text_at,
};
use crate::providers::errors::{
    decoded, is_labelled, law_service_errors_are_labelled, lemma_labelled, parse_json_response,
    provider_json_error, reported_error,
};
use crate::providers::reply::{
    LlmResponse, Moment, ResponseView, build_llm_response, collected_response,
    set_openai_responses_response_id, with_response_id,
};
use crate::providers::responses::{
    build_openai_responses_llm_response, item_call_id, parse_openai_responses_usage,
    responses_reply,
};
use crate::providers::stream::{
    Flow, LiveEvent, LiveView, OpenAiStreamState, blank_call, drain_sse_lines, empty_flow, flow,
    in_step, lemma_pieces_in_step, make_blank_call, newer, pick_newer, said, show, shown,
    split_lines, thought,
};
use crate::text::{
    begins, contains, ends, ends_with, first_pos, holds_text, lemma_first_pos, opt_slice_of,
    opt_str, opt_text, owned, same, starts_with, strip_prefix, texts, trim, trimmed,
};
use std::collections::HashMap;
use vstd::prelude::*;
use vstd::string::*;

verus! {

broadcast use vstd::std_specs::hash::group_hash_axioms;

/// Places by name. The first entry for a name counts; those behind it are former
/// places.
#[derive(Debug, PartialEq, Eq)]
pub struct NamedPlaces {
    pub entries: Vec<(String, usize)>,
}

/// The place of a name, from the `i`-th entry on.
pub open spec fn place_from(v: Seq<(String, usize)>, name: Seq<char>, i: int) -> Option<usize>
    decreases v.len() - i,
{
    if i < 0 || i >= v.len() {
        None
    } else if v[i].0@ == name {
        Some(v[i].1)
    } else {
        place_from(v, name, i + 1)
    }
}

impl NamedPlaces {
    /// The place of each name that has one.
    pub open spec fn view(self) -> Map<Seq<char>, usize> {
        Map::new(
            |name: Seq<char>| place_from(self.entries@, name, 0) is Some,
            |name: Seq<char>| place_from(self.entries@, name, 0)->0,
        )
    }

    /// No places.
    pub fn new() -> (r: NamedPlaces)
        ensures
            r@ == Map::<Seq<char>, usize>::empty(),
    {
        let r = NamedPlaces { entries: Vec::new() };
        assert(r@ =~= Map::<Seq<char>, usize>::empty());
        r
    }

    /// The place of a name.
    pub fn get(&self, name: &str) -> (r: Option<usize>)
        ensures
            r == (if self@.contains_key(name@) {
                Some(self@[name@])
            } else {
                None
            }),
    {
        let mut i: usize = 0;
        while i < self.entries.len()
            invariant
                i <= self.entries@.len(),
                place_from(self.entries@, name@, 0) == place_from(
                    self.entries@,
                    name@,
                    i as int,
                ),
            decreases self.entries@.len() - i,
        {
            if same(self.entries[i].0.as_str(), name) {
                return Some(self.entries[i].1);
            }
            i = i + 1;
        }
        None
    }

    /// Sets the place of a name.
    pub fn set(&mut self, name: &str, place: usize)
        ensures
            final(self)@ == old(self)@.insert(name@, place),
    {
        let ghost start = self.entries@;
        self.entries.insert(0, (owned(name), place));
        let ghost now = self.entries@;
        proof {
            let e = now[0];
            assert(now =~= seq![e] + start);
            assert forall|n: Seq<char>| #[trigger]
                place_from(now, n, 0) == (if n == name@ {
                    Some(place)
                } else {
                    place_from(start, n, 0)
                }) by {
                lemma_place_shift(start, e, n, 0);
            }
            assert(self@ =~= old(self)@.insert(name@, place));
        }
    }
}

proof fn lemma_place_shift(v: Seq<(String, usize)>, e: (String, usize), name: Seq<char>, i: int)
    requires
        0 <= i <= v.len(),
    ensures
        place_from(seq![e] + v, name, i + 1) == place_from(v, name, i),
    decreases v.len() - i,
{
    if i < v.len() {
        assert((seq![e] + v)[i + 1] == v[i]);
        lemma_place_shift(v, e, name, i + 1);
    }
}

// ---------------------------------------------------------------------------
// What has been collected
// ---------------------------------------------------------------------------

/// What has been collected of a reply. As for the other streams, whoever
/// delivers the events sets `client_gone` as soon as one cannot be delivered.
#[derive(Debug)]
pub struct OpenAiResponsesStreamState {
    pub current_event_type: String,
    pub base: OpenAiStreamState,
    pub tool_call_item_indices: NamedPlaces,
    pub tool_call_output_indices: HashMap<usize, usize>,
    pub response_id: Option<String>,
    pub completed_response: Option<Json>,
}

/// What has been collected of a reply, with the events to show.
#[verifier::ext_equal]
pub struct ItemFlow {
    /// The kind of the event whose data comes next.
    pub event: Seq<char>,
    pub base: Flow,
    /// The call that each item of the reply belongs to.
    pub by_item: Map<Seq<char>, usize>,
    /// The call that each place of the reply belongs to.
    pub by_output: Map<usize, usize>,
    pub response_id: Option<Seq<char>>,
    pub completed: Option<JsonView>,
}

/// What has been collected, with the events to show.
pub open spec fn item_flow(s: OpenAiResponsesStreamState, live: Seq<LiveEvent>) -> ItemFlow {
    ItemFlow {
        event: s.current_event_type@,
        base: flow(s.base, live),
        by_item: s.tool_call_item_indices@,
        by_output: s.tool_call_output_indices@,
        response_id: opt_text(s.response_id),
        completed: opt_json(s.completed_response),
    }
}

/// Every place is below `n`.
pub open spec fn places_below(
    by_item: Map<Seq<char>, usize>,
    by_output: Map<usize, usize>,
    n: nat,
) -> bool {
    &&& forall|k: Seq<char>| #[trigger] by_item.contains_key(k) ==> by_item[k] < n
    &&& forall|k: usize| #[trigger] by_output.contains_key(k) ==> by_output[k] < n
}

/// The calls that items and places belong to exist.
pub open spec fn calls_exist(f: ItemFlow) -> bool {
    places_below(f.by_item, f.by_output, f.base.tool_calls.len())
}

proof fn lemma_still_wf(
    a: OpenAiResponsesStreamState,
    la: Seq<LiveEvent>,
    b: OpenAiResponsesStreamState,
    lb: Seq<LiveEvent>,
)
    requires
        a.wf(),
        item_flow(b, lb).by_item == item_flow(a, la).by_item,
        item_flow(b, lb).by_output == item_flow(a, la).by_output,
        item_flow(b, lb).base.tool_calls == item_flow(a, la).base.tool_calls,
    ensures
        b.wf(),
        b.base.tool_calls@.len() == a.base.tool_calls@.len(),
{
    assert(calls_view(a.base.tool_calls@).len() == a.base.tool_calls@.len());
    assert(calls_view(b.base.tool_calls@).len() == b.base.tool_calls@.len());
}

impl OpenAiResponsesStreamState {
    /// What this state has collected is well formed.
    pub open spec fn wf(self) -> bool {
        places_below(
            self.tool_call_item_indices@,
            self.tool_call_output_indices@,
            self.base.tool_calls@.len(),
        )
    }

    /// Nothing has been collected.
    pub fn new() -> (r: OpenAiResponsesStreamState)
        ensures
            r.wf(),
            item_flow(r, Seq::empty()) == (ItemFlow {
                event: ""@,
                base: empty_flow(),
                by_item: Map::empty(),
                by_output: Map::empty(),
                response_id: None,
                completed: None,
            }),
    {
        OpenAiResponsesStreamState {
            current_event_type: owned(""),
            base: OpenAiStreamState::new(),
            tool_call_item_indices: NamedPlaces::new(),
            tool_call_output_indices: HashMap::new(),
            response_id: None,
            completed_response: None,
        }
    }
}

/// The reasoning ends; unlike elsewhere it also ends where nobody looks.
pub open spec fn reasoning_finished(f: Flow) -> Flow {
    if f.reasoning_started && !f.client_gone {
        shown(Flow { reasoning_started: false, ..f }, LiveView::ThinkingDone)
    } else {
        Flow { reasoning_started: false, ..f }
    }
}

/// A piece of the answer arrives.
pub open spec fn output_said(f: Flow, text: Seq<char>) -> Flow {
    if text.len() == 0 {
        f
    } else {
        said(reasoning_finished(f), text)
    }
}

/// Takes a piece of reasoning.
pub fn emit_openai_responses_reasoning_delta(
    state: &mut OpenAiResponsesStreamState,
    text: &str,
    live: &mut Vec<LiveEvent>,
)
    ensures
        item_flow(*final(state), final(live)@) == (ItemFlow {
            base: thought(item_flow(*old(state), old(live)@).base, text@),
            ..item_flow(*old(state), old(live)@)
        }),
{
    state.base.think(text, live);
}

/// Ends the reasoning.
pub fn finish_openai_responses_reasoning(
    state: &mut OpenAiResponsesStreamState,
    live: &mut Vec<LiveEvent>,
)
    ensures
        item_flow(*final(state), final(live)@) == (ItemFlow {
            base: reasoning_finished(item_flow(*old(state), old(live)@).base),
            ..item_flow(*old(state), old(live)@)
        }),
{
    if state.base.reasoning_started && !state.base.client_gone {
        show(live, false, LiveEvent::ThinkingDone);
    }
    state.base.reasoning_started = false;
}

/// Takes a piece of the answer.
pub fn emit_openai_responses_output_delta(
    state: &mut OpenAiResponsesStreamState,
    text: &str,
    live: &mut Vec<LiveEvent>,
)
    ensures
        item_flow(*final(state), final(live)@) == (ItemFlow {
            base: output_said(item_flow(*old(state), old(live)@).base, text@),
            ..item_flow(*old(state), old(live)@)
        }),
{
    if text.is_empty() {
        return;
    }
    finish_openai_responses_reasoning(state, live);
    state.base.say(text, live);
}

// ---------------------------------------------------------------------------
// Calls
// ---------------------------------------------------------------------------

/// A name, unless it is empty.
pub open spec fn real_name(o: Option<Seq<char>>) -> Option<Seq<char>> {
    if o is Some && o->0.len() > 0 {
        o
    } else {
        None
    }
}

/// The flow in which an item and a place have a call, and which call that is.
pub open spec fn call_ensured(
    f: ItemFlow,
    item: Option<Seq<char>>,
    output: Option<usize>,
) -> (ItemFlow, int) {
    let name = real_name(item);
    if name is Some && f.by_item.contains_key(name->0) {
        (f, f.by_item[name->0] as int)
    } else if output is Some && f.by_output.contains_key(output->0) {
        let i = f.by_output[output->0];
        (
            if name is Some {
                ItemFlow { by_item: f.by_item.insert(name->0, i), ..f }
            } else {
                f
            },
            i as int,
        )
    } else {
        let i = f.base.tool_calls.len();
        (
            ItemFlow {
                base: Flow { tool_calls: f.base.tool_calls.push(blank_call(""@, ""@)), ..f.base },
                by_item: if name is Some {
                    f.by_item.insert(name->0, i as usize)
                } else {
                    f.by_item
                },
                by_output: if output is Some {
                    f.by_output.insert(output->0, i as usize)
                } else {
                    f.by_output
                },
                ..f
            },
            i as int,
        )
    }
}

/// Makes sure that an item and a place have a call, and says which.
pub fn ensure_openai_responses_tool_call(
    state: &mut OpenAiResponsesStreamState,
    item_id: Option<&str>,
    output_index: Option<usize>,
) -> (r: usize)
    requires
        old(state).wf(),
        old(state).base.tool_calls@.len() < usize::MAX,
    ensures
        final(state).wf(),
        r < final(state).base.tool_calls@.len(),
        forall|live: Seq<LiveEvent>|
            (#[trigger] item_flow(*final(state), live), r as int) == call_ensured(
                item_flow(*old(state), live),
                opt_str(item_id),
                output_index,
            ),
{
    let ghost start = *state;
    assert(calls_view(state.base.tool_calls@).len() == state.base.tool_calls@.len());
    let name: Option<&str> = match item_id {
        Some(id) => if id.is_empty() {
            None
        } else {
            Some(id)
        },
        None => None,
    };
    assert(opt_str(name) == real_name(opt_str(item_id)));
    if let Some(id) = name {
        if let Some(i) = state.tool_call_item_indices.get(id) {
            return i;
        }
    }
    if let Some(k) = output_index {
        let found: Option<usize> = match state.tool_call_output_indices.get(&k) {
            Some(p) => Some(*p),
            None => None,
        };
        if let Some(i) = found {
            if let Some(id) = name {
                state.tool_call_item_indices.set(id, i);
            }
            return i;
        }
    }
    let i: usize = state.base.tool_calls.len();
    let call = make_blank_call(owned(""), "");
    let ghost before = calls_view(state.base.tool_calls@);
    let ghost view = call@;
    state.base.tool_calls.push(call);
    assert(calls_view(state.base.tool_calls@) =~= before.push(view));
    if let Some(id) = name {
        state.tool_call_item_indices.set(id, i);
    }
    if let Some(k) = output_index {
        state.tool_call_output_indices.insert(k, i);
    }
    i
}

/// A call with what an item says of it.
pub open spec fn call_from_item(c: ToolCallView, item: JsonView) -> ToolCallView {
    let id = real_name(item_call_id(item));
    let name = real_name(opt_text_at(item, "name"@));
    ToolCallView {
        id: match id {
            Some(t) => t,
            None => c.id,
        },
        name: match name {
            Some(t) => t,
            None => c.name,
        },
        arguments: match opt_text_at(item, "arguments"@) {
            Some(t) => t,
            None => c.arguments,
        },
        ..c
    }
}

/// The flow with the `i`-th call changed.
pub open spec fn with_call(f: ItemFlow, i: int, c: ToolCallView) -> ItemFlow {
    ItemFlow {
        base: Flow { tool_calls: f.base.tool_calls.update(i, c), ..f.base },
        ..f
    }
}

/// The flow after an item.
pub open spec fn after_item(f: ItemFlow, item: JsonView, output: Option<usize>) -> ItemFlow {
    if opt_text_at(item, "type"@) != Some("function_call"@) {
        f
    } else {
        let (g, i) = call_ensured(f, opt_text_at(item, "id"@), output);
        with_call(g, i, call_from_item(g.base.tool_calls[i], item))
    }
}

fn set_call_from_item(c: &mut ToolCall, item: &Json)
    ensures
        final(c)@ == call_from_item(old(c)@, item@),
{
    let id: Option<&str> = match find_text(item, "call_id") {
        Some(t) => Some(t),
        None => find_text(item, "id"),
    };
    if let Some(t) = id {
        if !t.is_empty() {
            c.id = owned(t);
        }
    }
    if let Some(t) = find_text(item, "name") {
        if !t.is_empty() {
            c.function.name = owned(t);
        }
    }
    if let Some(t) = find_text(item, "arguments") {
        c.function.arguments = owned(t);
    }
}

/// Takes what an item says of a call.
pub fn update_openai_responses_tool_call_from_item(
    state: &mut OpenAiResponsesStreamState,
    item: &Json,
    output_index: Option<usize>,
)
    requires
        old(state).wf(),
        old(state).base.tool_calls@.len() < usize::MAX,
    ensures
        final(state).wf(),
        forall|live: Seq<LiveEvent>| #[trigger]
            item_flow(*final(state), live) == after_item(
                item_flow(*old(state), live),
                item@,
                output_index,
            ),
{
    let is_call: bool = match find_text(item, "type") {
        Some(t) => same(t, "function_call"),
        None => false,
    };
    if !is_call {
        return;
    }
    let i: usize = ensure_openai_responses_tool_call(state, find_text(item, "id"), output_index);
    let ghost before = calls_view(state.base.tool_calls@);
    let ghost middle = *state;
    assert(before[i as int] == state.base.tool_calls@[i as int]@);
    set_call_from_item(&mut state.base.tool_calls[i], item);
    assert(calls_view(state.base.tool_calls@) =~= before.update(
        i as int,
        call_from_item(before[i as int], item@),
    ));
    proof {
        assert(calls_view(state.base.tool_calls@).len() == before.len());
        assert forall|live: Seq<LiveEvent>| #[trigger]
            item_flow(*state, live) == after_item(
                item_flow(*old(state), live),
                item@,
                output_index,
            ) by {
            let m = item_flow(middle, live);
            assert(item_flow(*state, live) == with_call(
                m,
                i as int,
                call_from_item(m.base.tool_calls[i as int], item@),
            ));
        }
    }
}

// ---------------------------------------------------------------------------
// Events
// ---------------------------------------------------------------------------

/// Why a reply is not complete, where it says so.
pub open spec fn incomplete_reason(response: JsonView) -> Option<Seq<char>> {
    match member(response, "incomplete_details"@) {
        Some(d) => match opt_text_at(d, "reason"@) {
            Some(reason) => if trimmed(reason).len() > 0 {
                Some("OpenAI Responses API incomplete: "@ + reason)
            } else {
                None
            },
            None => None,
        },
        None => None,
    }
}

/// What an event says is wrong.
pub open spec fn event_detail(data: JsonView) -> Option<Seq<char>> {
    match reported_error("OpenAI Responses"@, data) {
        Some(e) => Some(e),
        None => match member(data, "response"@) {
            None => None,
            Some(response) => match reported_error("OpenAI Responses"@, response) {
                Some(e) => Some(e),
                None => incomplete_reason(response),
            },
        },
    }
}

/// What an event says is wrong.
pub fn openai_responses_event_detail(data: &Json) -> (r: Option<String>)
    ensures
        opt_text(r) == event_detail(data@),
{
    if let Some(e) = provider_json_error("OpenAI Responses", data) {
        return Some(e);
    }
    if let Some(response) = data.get("response") {
        if let Some(e) = provider_json_error("OpenAI Responses", response) {
            return Some(e);
        }
        if let Some(d) = response.get("incomplete_details") {
            if let Some(reason) = find_text(d, "reason") {
                if !trim(reason).as_str().is_empty() {
                    let mut text = owned("OpenAI Responses API incomplete: ");
                    text.append(reason);
                    return Some(text);
                }
            }
        }
    }
    None
}

/// The message on a reply that failed. What the service wrote stands behind a
/// label, so that it is never taken for a message of the transport.
pub open spec fn failure_text(event: JsonView) -> Seq<char> {
    match event_detail(event) {
        Some(e) => e,
        None => "OpenAI Responses API error: "@ + (match opt_text_at(event, "message"@) {
            Some(m) => m,
            None => json_compact(event),
        }),
    }
}

/// The message on a reply that is not complete.
pub open spec fn incomplete_text(event: JsonView) -> Seq<char> {
    match event_detail(event) {
        Some(e) => e,
        None => "OpenAI Responses API incomplete"@,
    }
}

/// What comes of an event: the flow, and whether the stream is done or what is
/// wrong.
#[verifier::ext_equal]
pub struct StepView {
    pub flow: ItemFlow,
    pub result: Result<bool, Seq<char>>,
}

/// The stream goes on.
pub open spec fn going_on(flow: ItemFlow) -> StepView {
    StepView { flow, result: Ok(false) }
}

/// The flow with the identifier of the response, where `v` holds one.
pub open spec fn with_id(f: ItemFlow, v: Option<JsonView>) -> ItemFlow {
    match v {
        Some(r) => match opt_text_at(r, "id"@) {
            Some(t) => ItemFlow { response_id: Some(t), ..f },
            None => f,
        },
        None => f,
    }
}

/// What comes of the end of a reply.
pub open spec fn after_completed(f: ItemFlow, event: JsonView) -> StepView {
    match member(event, "response"@) {
        None => StepView { flow: f, result: Ok(true) },
        Some(r) => match reported_error("OpenAI Responses"@, r) {
            Some(e) => StepView { flow: f, result: Err(e) },
            None => {
                let g = with_id(f, Some(r));
                StepView {
                    flow: ItemFlow {
                        base: Flow {
                            input_tokens: newer(
                                inner_number(r, "usage"@, "input_tokens"@),
                                g.base.input_tokens,
                            ),
                            output_tokens: newer(
                                inner_number(r, "usage"@, "output_tokens"@),
                                g.base.output_tokens,
                            ),
                            ..g.base
                        },
                        completed: Some(r),
                        ..g
                    },
                    result: Ok(true),
                }
            },
        },
    }
}

/// The flow with the reasoning ended.
pub open spec fn finished_flow(f: ItemFlow) -> ItemFlow {
    ItemFlow { base: reasoning_finished(f.base), ..f }
}

/// The place that an event speaks of.
pub open spec fn event_place(event: JsonView) -> Option<usize> {
    match number_at(event, "output_index"@) {
        Some(n) => Some(n as usize),
        None => None,
    }
}

/// The flow after a piece of the arguments of a call.
pub open spec fn after_arguments_delta(f: ItemFlow, event: JsonView) -> ItemFlow {
    let (g, i) = call_ensured(
        finished_flow(f),
        opt_text_at(event, "item_id"@),
        event_place(event),
    );
    match opt_text_at(event, "delta"@) {
        Some(d) => with_call(
            g,
            i,
            ToolCallView {
                arguments: g.base.tool_calls[i].arguments + d,
                ..g.base.tool_calls[i]
            },
        ),
        None => g,
    }
}

/// The flow after the end of the arguments of a call.
pub open spec fn after_arguments_done(f: ItemFlow, event: JsonView) -> ItemFlow {
    let (g, i) = call_ensured(
        finished_flow(f),
        opt_text_at(event, "item_id"@),
        event_place(event),
    );
    let c = g.base.tool_calls[i];
    with_call(
        g,
        i,
        ToolCallView {
            arguments: match opt_text_at(event, "arguments"@) {
                Some(a) => a,
                None => c.arguments,
            },
            name: match real_name(opt_text_at(event, "name"@)) {
                Some(n) => n,
                None => c.name,
            },
            ..c
        },
    )
}

/// The flow after an item was added or finished.
pub open spec fn after_item_event(f: ItemFlow, event: JsonView) -> ItemFlow {
    match member(event, "item"@) {
        None => f,
        Some(item) => after_item(
            if opt_text_at(item, "type"@) == Some("function_call"@) {
                finished_flow(f)
            } else {
                f
            },
            item,
            event_place(event),
        ),
    }
}

/// The kind of an event; `fallback` where it does not say.
pub open spec fn event_kind(event: JsonView, fallback: Seq<char>) -> Seq<char> {
    match real_name(opt_text_at(event, "type"@)) {
        Some(t) => t,
        None => fallback,
    }
}

/// What comes of an event.
pub open spec fn after_responses_event(f: ItemFlow, event: JsonView, fallback: Seq<char>) -> StepView {
    let kind = event_kind(event, fallback);
    if kind == "error"@ || kind == "response.failed"@ {
        StepView { flow: f, result: Err(failure_text(event)) }
    } else if kind == "response.incomplete"@ {
        StepView { flow: f, result: Err(incomplete_text(event)) }
    } else if kind == "response.created"@ || kind == "response.in_progress"@ {
        going_on(with_id(f, member(event, "response"@)))
    } else if kind == "response.completed"@ {
        after_completed(f, event)
    } else if kind == "response.output_text.delta"@ || kind == "response.refusal.delta"@ {
        going_on(
            match opt_text_at(event, "delta"@) {
                Some(t) => ItemFlow { base: output_said(f.base, t), ..f },
                None => f,
            },
        )
    } else if kind == "response.output_item.added"@ || kind == "response.output_item.done"@ {
        going_on(after_item_event(f, event))
    } else if kind == "response.function_call_arguments.delta"@ {
        going_on(after_arguments_delta(f, event))
    } else if kind == "response.function_call_arguments.done"@ {
        going_on(after_arguments_done(f, event))
    } else if holds_text(kind, "reasoning"@) && ends(kind, ".delta"@) && opt_text_at(
        event,
        "delta"@,
    ) is Some {
        going_on(
            ItemFlow { base: thought(f.base, opt_text_at(event, "delta"@)->0), ..f },
        )
    } else {
        going_on(f)
    }
}

fn place_of(event: &Json) -> (r: Option<usize>)
    ensures
        r == event_place(event@),
{
    match get_number(event, "output_index") {
        Some(n) => Some(n as usize),
        None => None,
    }
}

fn take_id(state: &mut OpenAiResponsesStreamState, v: Option<&Json>)
    ensures
        forall|live: Seq<LiveEvent>| #[trigger]
            item_flow(*final(state), live) == with_id(
                item_flow(*old(state), live),
                (match v {
                    Some(j) => Some(j@),
                    None => None,
                }),
            ),
        old(state).wf() ==> final(state).wf(),
{
    if let Some(r) = v {
        if let Some(t) = find_text(r, "id") {
            state.response_id = Some(owned(t));
        }
    }
}

fn take_completed(state: &mut OpenAiResponsesStreamState, event: &Json) -> (r: Result<
    bool,
    String,
>)
    requires
        old(state).wf(),
    ensures
        final(state).wf(),
        forall|live: Seq<LiveEvent>|
            step_view(#[trigger] item_flow(*final(state), live), r) == after_completed(
                item_flow(*old(state), live),
                event@,
            ),
{
    if let Some(response) = event.get("response") {
        if let Some(e) = provider_json_error("OpenAI Responses", response) {
            return Err(e);
        }
        take_id(state, Some(response));
        let ghost middle = *state;
        let (input, output) = parse_openai_responses_usage(response);
        state.base.input_tokens = pick_newer(input, state.base.input_tokens);
        state.base.output_tokens = pick_newer(output, state.base.output_tokens);
        state.completed_response = Some(response.copy());
        proof {
            let r: Result<bool, String> = Ok(true);
            assert forall|live: Seq<LiveEvent>|
                step_view(#[trigger] item_flow(*state, live), r) == after_completed(
                    item_flow(*old(state), live),
                    event@,
                ) by {
                let m = item_flow(middle, live);
                assert(m == with_id(item_flow(*old(state), live), Some(response@)));
            }
        }
    }
    Ok(true)
}

/// A flow with a result seen through its view.
pub open spec fn step_view(flow: ItemFlow, r: Result<bool, String>) -> StepView {
    StepView {
        flow,
        result: match r {
            Ok(b) => Ok(b),
            Err(e) => Err(e@),
        },
    }
}

fn grow_text(c: &mut ToolCall, text: &str)
    ensures
        final(c)@ == (ToolCallView { arguments: old(c)@.arguments + text@, ..old(c)@ }),
{
    c.function.arguments.append(text);
}

fn take_arguments_delta(
    state: &mut OpenAiResponsesStreamState,
    event: &Json,
    live: &mut Vec<LiveEvent>,
)
    requires
        old(state).wf(),
        old(state).base.tool_calls@.len() < usize::MAX,
    ensures
        final(state).wf(),
        item_flow(*final(state), final(live)@) == after_arguments_delta(
            item_flow(*old(state), old(live)@),
            event@,
        ),
{
    assert(calls_view(state.base.tool_calls@).len() == state.base.tool_calls@.len());
    finish_openai_responses_reasoning(state, live);
    proof {
        lemma_still_wf(*old(state), old(live)@, *state, live@);
    }
    let i: usize = ensure_openai_responses_tool_call(
        state,
        find_text(event, "item_id"),
        place_of(event),
    );
    let ghost m = item_flow(*state, live@);
    let ghost before = calls_view(state.base.tool_calls@);
    if let Some(d) = find_text(event, "delta") {
        assert(before[i as int] == state.base.tool_calls@[i as int]@);
        grow_text(&mut state.base.tool_calls[i], d);
        let ghost c = ToolCallView {
            arguments: before[i as int].arguments + d@,
            ..before[i as int]
        };
        assert(calls_view(state.base.tool_calls@) =~= before.update(i as int, c));
        assert(item_flow(*state, live@) == with_call(m, i as int, c));
    }
    assert(calls_view(state.base.tool_calls@).len() == before.len());
}

fn set_arguments(c: &mut ToolCall, event: &Json)
    ensures
        final(c)@ == (ToolCallView {
            arguments: (match opt_text_at(event@, "arguments"@) {
                Some(a) => a,
                None => old(c)@.arguments,
            }),
            name: (match real_name(opt_text_at(event@, "name"@)) {
                Some(n) => n,
                None => old(c)@.name,
            }),
            ..old(c)@
        }),
{
    if let Some(a) = find_text(event, "arguments") {
        c.function.arguments = owned(a);
    }
    if let Some(n) = find_text(event, "name") {
        if !n.is_empty() {
            c.function.name = owned(n);
        }
    }
}

fn take_arguments_done(
    state: &mut OpenAiResponsesStreamState,
    event: &Json,
    live: &mut Vec<LiveEvent>,
)
    requires
        old(state).wf(),
        old(state).base.tool_calls@.len() < usize::MAX,
    ensures
        final(state).wf(),
        item_flow(*final(state), final(live)@) == after_arguments_done(
            item_flow(*old(state), old(live)@),
            event@,
        ),
{
    assert(calls_view(state.base.tool_calls@).len() == state.base.tool_calls@.len());
    finish_openai_responses_reasoning(state, live);
    proof {
        lemma_still_wf(*old(state), old(live)@, *state, live@);
    }
    let i: usize = ensure_openai_responses_tool_call(
        state,
        find_text(event, "item_id"),
        place_of(event),
    );
    let ghost m = item_flow(*state, live@);
    let ghost before = calls_view(state.base.tool_calls@);
    assert(before[i as int] == state.base.tool_calls@[i as int]@);
    set_arguments(&mut state.base.tool_calls[i], event);
    let ghost c = state.base.tool_calls@[i as int]@;
    assert(calls_view(state.base.tool_calls@) =~= before.update(i as int, c));
    assert(item_flow(*state, live@) == with_call(m, i as int, c));
    assert(calls_view(state.base.tool_calls@).len() == before.len());
}

fn take_item_event(
    state: &mut OpenAiResponsesStreamState,
    event: &Json,
    live: &mut Vec<LiveEvent>,
)
    requires
        old(state).wf(),
        old(state).base.tool_calls@.len() < usize::MAX,
    ensures
        final(state).wf(),
        item_flow(*final(state), final(live)@) == after_item_event(
            item_flow(*old(state), old(live)@),
            event@,
        ),
{
    assert(calls_view(state.base.tool_calls@).len() == state.base.tool_calls@.len());
    if let Some(item) = event.get("item") {
        let is_call: bool = match find_text(item, "type") {
            Some(t) => same(t, "function_call"),
            None => false,
        };
        if is_call {
            finish_openai_responses_reasoning(state, live);
        }
        proof {
            lemma_still_wf(*old(state), old(live)@, *state, live@);
        }
        update_openai_responses_tool_call_from_item(state, item, place_of(event));
    }
}

fn failure_message(event: &Json) -> (r: String)
    ensures
        r@ == failure_text(event@),
{
    match openai_responses_event_detail(event) {
        Some(e) => e,
        None => {
            let mut text = owned("OpenAI Responses API error: ");
            match find_text(event, "message") {
                Some(m) => text.append(m),
                None => text.append(compact(event).as_str()),
            }
            text
        },
    }
}

/// Takes an event and says whether the stream is done, or what is wrong.
pub fn take_responses_event(
    event: &Json,
    fallback_event_type: &str,
    state: &mut OpenAiResponsesStreamState,
    live: &mut Vec<LiveEvent>,
) -> (r: Result<bool, String>)
    requires
        old(state).wf(),
        old(state).base.tool_calls@.len() < usize::MAX,
    ensures
        final(state).wf(),
        step_view(item_flow(*final(state), final(live)@), r) == after_responses_event(
            item_flow(*old(state), old(live)@),
            event@,
            fallback_event_type@,
        ),
{
    let named = find_text(event, "type");
    let kind: &str = match named {
        Some(t) => if t.is_empty() {
            fallback_event_type
        } else {
            t
        },
        None => fallback_event_type,
    };
    assert(kind@ == event_kind(event@, fallback_event_type@));
    let ghost f = item_flow(*state, live@);
    if same(kind, "error") || same(kind, "response.failed") {
        return Err(failure_message(event));
    }
    if same(kind, "response.incomplete") {
        return Err(
            match openai_responses_event_detail(event) {
                Some(e) => e,
                None => owned("OpenAI Responses API incomplete"),
            },
        );
    }
    if same(kind, "response.created") || same(kind, "response.in_progress") {
        take_id(state, event.get("response"));
    } else if same(kind, "response.completed") {
        return take_completed(state, event);
    } else if same(kind, "response.output_text.delta") || same(kind, "response.refusal.delta") {
        if let Some(text) = find_text(event, "delta") {
            take_output(state, text, live);
        }
    } else if same(kind, "response.output_item.added") || same(kind, "response.output_item.done") {
        take_item_event(state, event, live);
    } else if same(kind, "response.function_call_arguments.delta") {
        take_arguments_delta(state, event, live);
    } else if same(kind, "response.function_call_arguments.done") {
        take_arguments_done(state, event, live);
    } else if contains(kind, "reasoning") && ends_with(kind, ".delta") {
        if let Some(text) = find_text(event, "delta") {
            take_reasoning(state, text, live);
        }
    }
    Ok(false)
}

fn take_output(state: &mut OpenAiResponsesStreamState, text: &str, live: &mut Vec<LiveEvent>)
    requires
        old(state).wf(),
    ensures
        final(state).wf(),
        item_flow(*final(state), final(live)@) == (ItemFlow {
            base: output_said(item_flow(*old(state), old(live)@).base, text@),
            ..item_flow(*old(state), old(live)@)
        }),
{
    emit_openai_responses_output_delta(state, text, live);
    proof {
        lemma_still_wf(*old(state), old(live)@, *state, live@);
    }
}

fn take_reasoning(state: &mut OpenAiResponsesStreamState, text: &str, live: &mut Vec<LiveEvent>)
    requires
        old(state).wf(),
    ensures
        final(state).wf(),
        item_flow(*final(state), final(live)@) == (ItemFlow {
            base: thought(item_flow(*old(state), old(live)@).base, text@),
            ..item_flow(*old(state), old(live)@)
        }),
{
    emit_openai_responses_reasoning_delta(state, text, live);
    proof {
        lemma_still_wf(*old(state), old(live)@, *state, live@);
    }
}

/// What comes of the data of a line, given what it was read as.
pub open spec fn after_data(
    f: ItemFlow,
    data: Seq<char>,
    parsed: Result<JsonView, Seq<char>>,
    fallback: Seq<char>,
) -> StepView {
    if data == "[DONE]"@ {
        StepView { flow: f, result: Ok(true) }
    } else {
        match decoded("OpenAI Responses stream"@, data, parsed) {
            Err(e) => StepView { flow: f, result: Err(e) },
            Ok(event) => after_responses_event(f, event, fallback),
        }
    }
}

/// Takes the data of a line and says whether the stream is done, or what is
/// wrong.
pub fn process_openai_responses_stream_event(
    data: &str,
    fallback_event_type: &str,
    state: &mut OpenAiResponsesStreamState,
    live: &mut Vec<LiveEvent>,
) -> (r: Result<bool, String>)
    requires
        old(state).wf(),
        old(state).base.tool_calls@.len() < usize::MAX,
    ensures
        final(state).wf(),
        step_view(item_flow(*final(state), final(live)@), r) == after_data(
            item_flow(*old(state), old(live)@),
            data@,
            json_parsed(data@),
            fallback_event_type@,
        ),
{
    if same(data, "[DONE]") {
        return Ok(true);
    }
    match parse_json_response("OpenAI Responses stream", data) {
        Err(e) => Err(e),
        Ok(event) => take_responses_event(&event, fallback_event_type, state, live),
    }
}

/// What comes of a line.
pub open spec fn after_responses_line(f: ItemFlow, line: Seq<char>) -> StepView {
    let t = trimmed(line);
    if t.len() == 0 || begins(t, ":"@) {
        going_on(f)
    } else if begins(t, "event: "@) {
        going_on(ItemFlow { event: trimmed(t.skip("event: "@.len() as int)), ..f })
    } else if begins(t, "data: "@) {
        let data = trimmed(t.skip("data: "@.len() as int));
        let step = after_data(f, data, json_parsed(data), f.event);
        if step.result is Ok {
            StepView { flow: ItemFlow { event: ""@, ..step.flow }, result: step.result }
        } else {
            step
        }
    } else {
        going_on(f)
    }
}

/// Takes a line and says whether the stream is done, or what is wrong.
pub fn process_openai_responses_sse_line(
    line: &str,
    state: &mut OpenAiResponsesStreamState,
    live: &mut Vec<LiveEvent>,
) -> (r: Result<bool, String>)
    requires
        old(state).wf(),
        old(state).base.tool_calls@.len() < usize::MAX,
    ensures
        final(state).wf(),
        step_view(item_flow(*final(state), final(live)@), r) == after_responses_line(
            item_flow(*old(state), old(live)@),
            line@,
        ),
{
    let t = trim(line);
    if t.as_str().is_empty() || starts_with(t.as_str(), ":") {
        return Ok(false);
    }
    if let Some(event) = strip_prefix(t.as_str(), "event: ") {
        state.current_event_type = trim(event.as_str());
        return Ok(false);
    }
    if let Some(rest) = strip_prefix(t.as_str(), "data: ") {
        let data = trim(rest.as_str());
        let kind = state.current_event_type.clone();
        let r = process_openai_responses_stream_event(data.as_str(), kind.as_str(), state, live);
        if r.is_ok() {
            state.current_event_type = owned("");
        }
        return r;
    }
    Ok(false)
}

/// What comes of the lines from `i` on: they are taken until the stream is done
/// or something is wrong.
pub open spec fn after_responses_lines(f: ItemFlow, v: Seq<Seq<char>>, i: int) -> StepView
    decreases v.len() - i,
{
    if i < 0 || i >= v.len() {
        going_on(f)
    } else {
        let step = after_responses_line(f, v[i]);
        if step.result == Ok::<bool, Seq<char>>(false) {
            after_responses_lines(step.flow, v, i + 1)
        } else {
            step
        }
    }
}

proof fn lemma_event_call_count(f: ItemFlow, event: JsonView, fallback: Seq<char>)
    requires
        calls_exist(f),
    ensures
        after_responses_event(f, event, fallback).flow.base.tool_calls.len()
            <= f.base.tool_calls.len() + 1,
{
    let step = after_responses_event(f, event, fallback);
    let kind = event_kind(event, fallback);
    let h = finished_flow(f);
    assert(h.base.tool_calls == f.base.tool_calls);
    if kind == "response.output_item.added"@ || kind == "response.output_item.done"@ {
        match member(event, "item"@) {
            None => {},
            Some(item) => {
                let from = if opt_text_at(item, "type"@) == Some("function_call"@) {
                    h
                } else {
                    f
                };
                let (g, i) = call_ensured(from, opt_text_at(item, "id"@), event_place(event));
                assert(0 <= i < g.base.tool_calls.len());
                assert(g.base.tool_calls.len() <= f.base.tool_calls.len() + 1);
            },
        }
    }
    let (g, i) = call_ensured(h, opt_text_at(event, "item_id"@), event_place(event));
    assert(0 <= i < g.base.tool_calls.len());
    assert(g.base.tool_calls.len() <= f.base.tool_calls.len() + 1);
    assert(after_arguments_delta(f, event).base.tool_calls.len() == g.base.tool_calls.len());
    assert(after_arguments_done(f, event).base.tool_calls.len() == g.base.tool_calls.len());
    assert(after_completed(f, event).flow.base.tool_calls == f.base.tool_calls);
}

proof fn lemma_call_count(f: ItemFlow, line: Seq<char>)
    requires
        calls_exist(f),
    ensures
        after_responses_line(f, line).flow.base.tool_calls.len() <= f.base.tool_calls.len() + 1,
{
    let t = trimmed(line);
    let data = trimmed(t.skip("data: "@.len() as int));
    match decoded("OpenAI Responses stream"@, data, json_parsed(data)) {
        Ok(event) => lemma_event_call_count(f, event, f.event),
        Err(_) => {},
    }
}

/// Takes a chunk of a stream: the lines that are complete with it, until the
/// stream is done or something is wrong. What follows the last line feed waits
/// in `partial_buf`.
pub fn consume_openai_responses_chunk(
    partial_buf: &mut String,
    chunk: &str,
    state: &mut OpenAiResponsesStreamState,
    live: &mut Vec<LiveEvent>,
) -> (r: Result<bool, String>)
    requires
        old(state).wf(),
        old(state).base.tool_calls@.len() + old(partial_buf)@.len() + chunk@.len() + 1
            <= usize::MAX,
    ensures
        final(state).wf(),
        ({
            let lines = split_lines(old(partial_buf)@ + chunk@);
            &&& final(partial_buf)@ == lines.last()
            &&& step_view(item_flow(*final(state), final(live)@), r) == after_responses_lines(
                item_flow(*old(state), old(live)@),
                lines.drop_last(),
                0,
            )
        }),
{
    let ghost text = partial_buf@ + chunk@;
    let v = drain_sse_lines(partial_buf, chunk);
    let ghost all = texts(v@);
    proof {
        assert(all.len() == v@.len());
        assert(split_lines(text).drop_last() =~= all);
        lemma_split_len(text);
    }
    let ghost start = item_flow(*state, live@);
    let ghost base = state.base.tool_calls@.len();
    let mut i: usize = 0;
    while i < v.len()
        invariant
            i <= v@.len() == all.len(),
            all == texts(v@),
            start == item_flow(*old(state), old(live)@),
            state.wf(),
            base + all.len() <= usize::MAX,
            state.base.tool_calls@.len() <= base + i,
            after_responses_lines(start, all, 0) == after_responses_lines(
                item_flow(*state, live@),
                all,
                i as int,
            ),
            partial_buf@ == split_lines(text).last(),
            split_lines(text).drop_last() == all,
            text == old(partial_buf)@ + chunk@,
        decreases v@.len() - i,
    {
        assert(all[i as int] == v@[i as int]@);
        proof {
            assert(calls_view(state.base.tool_calls@).len() == state.base.tool_calls@.len());
            lemma_call_count(item_flow(*state, live@), all[i as int]);
        }
        let step = process_openai_responses_sse_line(v[i].as_str(), state, live);
        assert(calls_view(state.base.tool_calls@).len() == state.base.tool_calls@.len());
        match step {
            Ok(false) => {},
            other => {
                return other;
            },
        }
        i = i + 1;
    }
    Ok(false)
}

proof fn lemma_split_len(s: Seq<char>)
    ensures
        1 <= split_lines(s).len() <= s.len() + 1,
    decreases s.len(),
{
    lemma_first_pos(s, '\n');
    let k = first_pos(s, '\n');
    if k < s.len() {
        lemma_split_len(s.skip(k as int + 1));
    }
}

// ---------------------------------------------------------------------------
// The reply
// ---------------------------------------------------------------------------

/// A message that says, thinks or asks for something.
pub open spec fn has_payload(m: MessageView) -> bool {
    says_something(m) || (m.thinking is Some && m.thinking->0.len() > 0) || calls_tools(m)
}

/// The reply that the collected parts make up: the complete one where the
/// service sent it with something in it, else the pieces.
pub open spec fn streamed_reply(f: ItemFlow, now: Moment) -> ResponseView {
    if f.completed is Some && has_payload(responses_reply(f.completed->0, now).message) {
        responses_reply(f.completed->0, now)
    } else {
        let r = collected_response(
            f.base.content,
            f.base.thinking,
            f.base.tool_calls,
            f.base.input_tokens,
            f.base.output_tokens,
            now,
        );
        ResponseView { message: with_response_id(r.message, f.response_id), ..r }
    }
}

/// The reply that the collected parts make up.
pub fn build_openai_responses_stream_llm_response(
    state: OpenAiResponsesStreamState,
    now: Moment,
) -> (r: LlmResponse)
    ensures
        r@ == streamed_reply(item_flow(state, Seq::empty()), now),
{
    if let Some(response) = &state.completed_response {
        let parsed = build_openai_responses_llm_response(response, now);
        let thinks: bool = match &parsed.message.thinking {
            Some(t) => !t.as_str().is_empty(),
            None => false,
        };
        if parsed.message.has_nonempty_content() || thinks || parsed.message.has_tool_calls() {
            return parsed;
        }
    }
    let base = state.base;
    let mut r = build_llm_response(
        base.content_buf,
        base.thinking_buf,
        base.tool_calls,
        base.input_tokens,
        base.output_tokens,
        now,
    );
    set_openai_responses_response_id(&mut r.message, opt_slice_of(&state.response_id));
    r
}

/// Pieces of one call that name their item or their place reach the same call,
/// in whichever way they name it.
pub proof fn law_one_call_per_item(f: ItemFlow, item: Seq<char>, output: usize)
    requires
        calls_exist(f),
        item.len() > 0,
        f.base.tool_calls.len() < usize::MAX,
        !f.by_item.contains_key(item),
    ensures
        ({
            let (g, i) = call_ensured(f, Some(item), Some(output));
            &&& calls_exist(g)
            &&& call_ensured(g, Some(item), None) == (g, i)
            &&& call_ensured(g, None, Some(output)) == (g, i)
            &&& call_ensured(g, Some(item), Some(output)) == (g, i)
        }),
{
}

proof fn lemma_finished_in_step(f: Flow, text: Seq<char>)
    requires
        in_step(f),
    ensures
        in_step(reasoning_finished(f)),
        in_step(output_said(f, text)),
        in_step(thought(f, text)),
{
    lemma_pieces_in_step(f, text);
    assert(f.live.push(LiveView::ThinkingDone).drop_last() =~= f.live);
    lemma_pieces_in_step(reasoning_finished(f), text);
}

/// From event to event of a stream of responses, what the user is shown is what
/// the reply holds.
pub proof fn law_responses_reply_is_shown(f: ItemFlow, event: JsonView, fallback: Seq<char>)
    requires
        in_step(f.base),
    ensures
        in_step(after_responses_event(f, event, fallback).flow.base),
{
    let text = match opt_text_at(event, "delta"@) {
        Some(t) => t,
        None => Seq::empty(),
    };
    lemma_finished_in_step(f.base, text);
}

/// Whatever an event of a stream of responses holds, an error that comes of it
/// is labelled: no text of the service is taken for one of the transport.
pub proof fn law_responses_errors_are_labelled(
    f: ItemFlow,
    data: Seq<char>,
    parsed: Result<JsonView, Seq<char>>,
    event: JsonView,
    fallback: Seq<char>,
)
    ensures
        after_responses_event(f, event, fallback).result matches Err(e) ==> is_labelled(e),
        after_data(f, data, parsed, fallback).result matches Err(e) ==> is_labelled(e),
{
    let name = "OpenAI Responses"@;
    assert forall|v: JsonView| (#[trigger] after_responses_event(f, v, fallback)).result
        is Err implies is_labelled(after_responses_event(f, v, fallback).result->Err_0) by {
        lemma_event_errors_labelled(v);
        if member(v, "response"@) is Some {
            law_service_errors_are_labelled(
                name,
                member(v, "response"@)->0,
                ""@,
                ""@,
                ""@,
                parsed,
            );
        }
    }
    law_service_errors_are_labelled(
        "OpenAI Responses stream"@,
        event,
        ""@,
        ""@,
        data,
        parsed,
    );
}

proof fn lemma_event_errors_labelled(v: JsonView)
    ensures
        is_labelled(failure_text(v)),
        is_labelled(incomplete_text(v)),
{
    let name = "OpenAI Responses"@;
    reveal_strlit("OpenAI Responses");
    reveal_strlit("OpenAI Responses API error: ");
    reveal_strlit("OpenAI Responses API incomplete: ");
    reveal_strlit("OpenAI Responses API incomplete");
    let refused: Result<JsonView, Seq<char>> = Err(Seq::empty());
    law_service_errors_are_labelled(name, v, ""@, ""@, ""@, refused);
    let failed = "OpenAI Responses API error: "@;
    let said = match opt_text_at(v, "message"@) {
        Some(m) => m,
        None => json_compact(v),
    };
    assert(failed + said =~= name + (failed.skip(16) + said));
    lemma_labelled(name, failed.skip(16) + said);
    let incomplete = "OpenAI Responses API incomplete"@;
    assert(incomplete =~= name + incomplete.skip(16));
    lemma_labelled(name, incomplete.skip(16));
    if member(v, "response"@) is Some {
        let r = member(v, "response"@)->0;
        law_service_errors_are_labelled(name, r, ""@, ""@, ""@, refused);
        if incomplete_reason(r) is Some {
            let reason = opt_text_at(member(r, "incomplete_details"@)->0, "reason"@)->0;
            let because = "OpenAI Responses API incomplete: "@;
            assert(because + reason =~= name + (because.skip(16) + reason));
            lemma_labelled(name, because.skip(16) + reason);
        }
    }
}

} // verus!
