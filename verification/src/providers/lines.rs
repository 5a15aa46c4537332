//! What the lines of a stream are, and what a tool is defined by.

use crate::chat::Provider;
use crate::json::{JsonView, json_parsed, jtext, member, object3};
use crate::plan::schema::tool_definition_json;
use crate::providers::anthropic_stream::{AnthropicEvent, BlockFlow, after_event, after_line};
use crate::providers::responses::flat_definition;
use crate::providers::responses_stream::{
    ItemFlow, StepView, after_responses_event, after_responses_line,
};
use crate::providers::stream::{event_data, split_lines};
use crate::providers::written::{is_object, lemma_object2, lemma_object3, lemma_object4};
use crate::text::{
    begins, first_pos, is_space, joined, lemma_first_pos, lemma_trimmed_already, trimmed,
};
use vstd::prelude::*;
use vstd::string::*;

verus! {

// ---------------------------------------------------------------------------
// Lines
// ---------------------------------------------------------------------------

/// The lines of a stream put together again, with line feeds between them, are
/// the stream, and no line holds a line feed.
pub proof fn law_lines_are_the_stream(s: Seq<char>)
    ensures
        split_lines(s).len() >= 1,
        joined(split_lines(s), "\n"@) == s,
        forall|i: int, j: int|
            #![trigger split_lines(s)[i][j]]
            0 <= i < split_lines(s).len() && 0 <= j < split_lines(s)[i].len()
                ==> split_lines(s)[i][j] != '\n',
    decreases s.len(),
{
    reveal_strlit("\n");
    lemma_first_pos(s, '\n');
    let k = first_pos(s, '\n') as int;
    let all = split_lines(s);
    if k >= s.len() {
        assert(all =~= seq![s]);
        assert(joined(all, "\n"@) == s);
    } else {
        let head = s.take(k);
        let rest = s.skip(k + 1);
        law_lines_are_the_stream(rest);
        let more = split_lines(rest);
        assert(all =~= seq![head] + more);
        lemma_joined_with_first(head, more, "\n"@);
        assert(head + "\n"@ + rest =~= s);
        assert forall|i: int, j: int|
            #![trigger all[i][j]]
            0 <= i < all.len() && 0 <= j < all[i].len() implies all[i][j] != '\n' by {
            if i > 0 {
                assert(all[i] == more[i - 1]);
                assert(more[i - 1][j] != '\n');
            } else {
                assert(all[0] == head);
                assert(head[j] == s[j]);
            }
        }
    }
}

proof fn lemma_joined_with_first(a: Seq<char>, rest: Seq<Seq<char>>, sep: Seq<char>)
    requires
        rest.len() > 0,
    ensures
        joined(seq![a] + rest, sep) == a + sep + joined(rest, sep),
    decreases rest.len(),
{
    let all = seq![a] + rest;
    assert(all.last() == rest.last());
    if rest.len() == 1 {
        assert(all.drop_last() =~= seq![a]);
        assert(joined(seq![a], sep) == a);
    } else {
        assert(all.drop_last() =~= seq![a] + rest.drop_last());
        lemma_joined_with_first(a, rest.drop_last(), sep);
        assert(a + sep + joined(rest.drop_last(), sep) + sep + rest.last() =~= a + sep + (joined(
            rest.drop_last(),
            sep,
        ) + sep + rest.last()));
    }
}

/// A text without white space around it that says something.
pub open spec fn is_bare(t: Seq<char>) -> bool {
    t.len() > 0 && !is_space(t[0]) && !is_space(t.last())
}

proof fn lemma_labelled_line(label: Seq<char>, t: Seq<char>)
    requires
        is_bare(t),
        label.len() > 0,
        !is_space(label[0]),
    ensures
        trimmed(label + t) == label + t,
        begins(label + t, label),
        trimmed((label + t).skip(label.len() as int)) == t,
        (label + t).len() > 0,
{
    let line = label + t;
    assert(line[0] == label[0] && line.last() == t.last());
    lemma_trimmed_already(line);
    lemma_trimmed_already(t);
    assert(line.take(label.len() as int) =~= label);
    assert(line.skip(label.len() as int) =~= t);
}

/// A line of data gives its data; blank lines, comments and the names of events
/// give none.
pub proof fn law_line_data(t: Seq<char>)
    requires
        is_bare(t),
    ensures
        event_data("data: "@ + t) == Some(t),
        event_data(Seq::empty()) is None,
        event_data(":"@ + t) is None,
        event_data("event: "@ + t) is None,
{
    reveal_strlit("data: ");
    reveal_strlit(":");
    reveal_strlit("event: ");
    lemma_labelled_line("data: "@, t);
    lemma_labelled_line(":"@, t);
    lemma_labelled_line("event: "@, t);
    lemma_trimmed_already(Seq::empty());
    let d = "data: "@ + t;
    assert(d[0] == 'd');
    assert(!begins(d, ":"@)) by {
        if begins(d, ":"@) {
            assert(d.take(1)[0] == ':');
        }
    }
    let e = "event: "@ + t;
    assert(e[0] == 'e');
    assert(!begins(e, "data: "@)) by {
        if begins(e, "data: "@) {
            assert(e.take(6)[0] == 'd');
        }
    }
}

/// A name and the data behind it are taken as the event of that name; the name
/// counts once.
pub proof fn law_named_event(f: BlockFlow, name: Seq<char>, data: Seq<char>, e: AnthropicEvent)
    requires
        is_bare(name),
        is_bare(data),
    ensures
        after_line(after_line(f, "event: "@ + name, None), "data: "@ + data, Some(e)) == (
        BlockFlow { event: ""@, ..after_event(BlockFlow { event: name, ..f }, e) }),
        after_line(f, Seq::empty(), Some(e)) == f,
{
    reveal_strlit("data: ");
    reveal_strlit("event: ");
    lemma_labelled_line("data: "@, data);
    lemma_labelled_line("event: "@, name);
    lemma_trimmed_already(Seq::empty());
    let d = "data: "@ + data;
    assert(d[0] == 'd');
    assert(!begins(d, "event: "@)) by {
        if begins(d, "event: "@) {
            assert(d.take(7)[0] == 'e');
        }
    }
}

/// In a stream of responses too a name announces the event behind it, and the
/// last line ends the stream.
pub proof fn law_responses_lines(f: ItemFlow, name: Seq<char>, data: Seq<char>)
    requires
        is_bare(name),
        is_bare(data),
    ensures
        after_responses_line(f, "event: "@ + name) == (StepView {
            flow: ItemFlow { event: name, ..f },
            result: Ok(false),
        }),
        after_responses_line(f, "data: [DONE]"@).result == Ok::<bool, Seq<char>>(true),
        json_parsed(data) matches Ok(v) ==> data != "[DONE]"@ ==> after_responses_line(
            f,
            "data: "@ + data,
        ).result == after_responses_event(f, v, f.event).result,
{
    reveal_strlit("data: ");
    reveal_strlit("event: ");
    reveal_strlit(":");
    reveal_strlit("[DONE]");
    reveal_strlit("data: [DONE]");
    lemma_labelled_line("data: "@, data);
    lemma_labelled_line("event: "@, name);
    let done = "[DONE]"@;
    assert(done[0] == '[' && done.last() == ']');
    lemma_labelled_line("data: "@, done);
    assert("data: "@ + done =~= "data: [DONE]"@);
    let e = "event: "@ + name;
    assert(e[0] == 'e');
    assert(!begins(e, ":"@)) by {
        if begins(e, ":"@) {
            assert(e.take(1)[0] == ':');
        }
    }
    lemma_not_a_name(data);
    lemma_not_a_name(done);
}

proof fn lemma_not_a_name(t: Seq<char>)
    ensures
        !begins("data: "@ + t, ":"@),
        !begins("data: "@ + t, "event: "@),
{
    reveal_strlit("data: ");
    reveal_strlit("event: ");
    reveal_strlit(":");
    let d = "data: "@ + t;
    assert(d[0] == 'd');
    if begins(d, ":"@) {
        assert(d.take(1)[0] == ':');
    }
    if begins(d, "event: "@) {
        assert(d.take(7)[0] == 'e');
    }
}

// ---------------------------------------------------------------------------
// Tools
// ---------------------------------------------------------------------------

/// A tool is defined by its name, its description and its parameters, each under
/// the key that the service has for it; for OpenAI's responses the same without
/// the nesting.
pub proof fn law_tool_is_defined(
    name: Seq<char>,
    description: Seq<char>,
    parameters: JsonView,
)
    ensures
        is_object(
            tool_definition_json(Provider::Anthropic, name, description, parameters),
            map![
                "name"@ => JsonView::Text(name),
                "description"@ => JsonView::Text(description),
                "input_schema"@ => parameters,
            ],
        ),
        ({
            let tool = tool_definition_json(Provider::OpenAI, name, description, parameters);
            &&& member(tool, "type"@) == Some(JsonView::Text("function"@))
            &&& member(tool, "function"@) is Some
            &&& is_object(
                member(tool, "function"@)->0,
                map![
                    "name"@ => JsonView::Text(name),
                    "description"@ => JsonView::Text(description),
                    "parameters"@ => parameters,
                ],
            )
            &&& tool_definition_json(Provider::Ollama, name, description, parameters) == tool
            &&& is_object(
                flat_definition(tool),
                map![
                    "type"@ => JsonView::Text("function"@),
                    "name"@ => JsonView::Text(name),
                    "description"@ => JsonView::Text(description),
                    "parameters"@ => parameters,
                ],
            )
        }),
{
    reveal_strlit("type");
    reveal_strlit("function");
    reveal_strlit("name");
    reveal_strlit("description");
    reveal_strlit("parameters");
    assert("type"@.len() == 4 && "function"@.len() == 8 && "name"@.len() == 4);
    assert("description"@.len() == 11 && "parameters"@.len() == 10);
    let (n, d) = (JsonView::Text(name), JsonView::Text(description));
    lemma_object3("name"@, n, "description"@, d, "input_schema"@, parameters);
    lemma_object3("name"@, n, "description"@, d, "parameters"@, parameters);
    let inner = object3("name"@, n, "description"@, d, "parameters"@, parameters);
    lemma_object2("type"@, jtext("function"@), "function"@, inner);
    let tool = tool_definition_json(Provider::OpenAI, name, description, parameters);
    assert(member(tool, "type"@) == Some(jtext("function"@)));
    assert(member(tool, "function"@) == Some(inner));
    assert(member(inner, "name"@) == Some(n));
    assert(member(inner, "description"@) == Some(d));
    assert(member(inner, "parameters"@) == Some(parameters));
    lemma_object4(
        "type"@,
        jtext("function"@),
        "name"@,
        n,
        "description"@,
        d,
        "parameters"@,
        parameters,
    );
}

} // verus!
