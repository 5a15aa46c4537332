//! Pictures in a conversation: where they can be had, and models and services
//! that take none.

use crate::chat::{
    ChatMessage, ImageAttachment, ImageView, MessageView, images_of, images_view, messages_view,
};
use crate::json::{Json, JsonView, items_view, member, no_items, push_item};
use crate::text::{
    concat3, contains, holds_text, join, joined, lines, lines_of, opt_str, opt_text, owned, same,
    texts, trim, trimmed,
};
use vstd::prelude::*;
use vstd::string::*;

verus! {

// ---------------------------------------------------------------------------
// Where pictures can be had
// ---------------------------------------------------------------------------

/// What the storage says of one picture.
#[derive(Debug, PartialEq, Eq)]
pub struct ImageSource {
    /// The picture was stored under the settings that are in force.
    pub config_matches: bool,
    /// The address at which it can be had now, or why there is none.
    pub url: Result<String, String>,
}

#[verifier::ext_equal]
pub struct SourceView {
    pub config_matches: bool,
    pub url: Result<Seq<char>, Seq<char>>,
}

impl ImageSource {
    pub open spec fn view(self) -> SourceView {
        SourceView {
            config_matches: self.config_matches,
            url: match self.url {
                Ok(u) => Ok(u@),
                Err(e) => Err(e@),
            },
        }
    }
}

pub open spec fn sources_view(v: Seq<ImageSource>) -> Seq<SourceView> {
    v.map_values(|s: ImageSource| s@)
}

/// The picture was uploaded under settings that are no longer in force.
pub open spec fn is_stale(i: ImageView, s: SourceView) -> bool {
    i.s3_object_key is Some && !s.config_matches
}

/// The pictures among the first `n` that can still be had, each at its present
/// address, or why one of them cannot be resolved.
pub open spec fn available(
    images: Seq<ImageView>,
    sources: Seq<SourceView>,
    n: int,
) -> Result<Seq<ImageView>, Seq<char>>
    decreases n,
{
    if n <= 0 {
        Ok(Seq::empty())
    } else {
        match available(images, sources, n - 1) {
            Err(e) => Err(e),
            Ok(v) => if is_stale(images[n - 1], sources[n - 1]) {
                Ok(v)
            } else {
                match sources[n - 1].url {
                    Ok(u) => Ok(v.push(ImageView { url: u, ..images[n - 1] })),
                    Err(e) => Err(e),
                }
            },
        }
    }
}

/// One of the pictures is stale.
pub open spec fn some_stale(images: Seq<ImageView>, sources: Seq<SourceView>) -> bool {
    exists|i: int| 0 <= i < images.len() && is_stale(#[trigger] images[i], sources[i])
}

/// What the model is told of pictures that can no longer be had.
pub open spec fn stale_notice() -> Seq<char> {
    "[A previously attached image is unavailable because storage settings changed.]"@
}

/// A content with the notice on pictures that can no longer be had.
pub open spec fn with_stale_notice(content: Option<Seq<char>>) -> Seq<char> {
    if content is Some && trimmed(content->0).len() > 0 {
        content->0 + "\n\n"@ + stale_notice()
    } else {
        stale_notice()
    }
}

/// A message with its pictures at their present addresses.
pub open spec fn materialized_message(m: MessageView, sources: Seq<SourceView>) -> Result<
    MessageView,
    Seq<char>,
> {
    match m.images {
        None => Ok(m),
        Some(images) => match available(images, sources, images.len() as int) {
            Err(e) => Err(e),
            Ok(v) => if v.len() > 0 {
                Ok(MessageView { images: Some(v), ..m })
            } else if some_stale(images, sources) {
                Ok(
                    MessageView {
                        images: None,
                        content: Some(with_stale_notice(m.content)),
                        ..m
                    },
                )
            } else {
                Ok(MessageView { images: None, ..m })
            },
        },
    }
}

/// The first `n` messages with their pictures at their present addresses.
pub open spec fn materialized(
    v: Seq<MessageView>,
    sources: Seq<Seq<SourceView>>,
    n: int,
) -> Result<Seq<MessageView>, Seq<char>>
    decreases n,
{
    if n <= 0 {
        Ok(Seq::empty())
    } else {
        match materialized(v, sources, n - 1) {
            Err(e) => Err(e),
            Ok(done) => match materialized_message(v[n - 1], sources[n - 1]) {
                Ok(m) => Ok(done.push(m)),
                Err(e) => Err(e),
            },
        }
    }
}

/// There is a source for each picture of a message.
pub open spec fn covers(m: MessageView, sources: Seq<SourceView>) -> bool {
    images_of(m).len() == sources.len()
}

/// The sources of the pictures of each message.
pub open spec fn all_sources(v: Seq<Vec<ImageSource>>) -> Seq<Seq<SourceView>> {
    v.map_values(|s: Vec<ImageSource>| sources_view(s@))
}

fn available_images(images: &Vec<ImageAttachment>, sources: &Vec<ImageSource>) -> (r: Result<
    (Vec<ImageAttachment>, bool),
    String,
>)
    requires
        images@.len() == sources@.len(),
    ensures
        match r {
            Ok((v, stale)) => available(
                images_view(images@),
                sources_view(sources@),
                images@.len() as int,
            ) == Ok::<Seq<ImageView>, Seq<char>>(images_view(v@)) && stale == some_stale(
                images_view(images@),
                sources_view(sources@),
            ),
            Err(e) => available(
                images_view(images@),
                sources_view(sources@),
                images@.len() as int,
            ) == Err::<Seq<ImageView>, Seq<char>>(e@),
        },
{
    let ghost iv = images_view(images@);
    let ghost sv = sources_view(sources@);
    let mut out: Vec<ImageAttachment> = Vec::new();
    let mut stale: bool = false;
    let mut n: usize = 0;
    assert(images_view(out@) =~= Seq::empty());
    while n < images.len()
        invariant
            n <= images@.len() == sources@.len(),
            iv == images_view(images@),
            sv == sources_view(sources@),
            available(iv, sv, n as int) == Ok::<Seq<ImageView>, Seq<char>>(images_view(out@)),
            stale == exists|i: int| 0 <= i < n && is_stale(#[trigger] iv[i], sv[i]),
        decreases images@.len() - n,
    {
        let image = &images[n];
        let source = &sources[n];
        assert(iv[n as int] == image@ && sv[n as int] == source@);
        if image.s3_object_key.is_some() && !source.config_matches {
            assert(is_stale(iv[n as int], sv[n as int]));
            stale = true;
        } else {
            match &source.url {
                Ok(url) => {
                    let mut copy = image.copy();
                    copy.url = url.clone();
                    let ghost before = images_view(out@);
                    let ghost view = copy@;
                    out.push(copy);
                    assert(images_view(out@) =~= before.push(view));
                },
                Err(e) => {
                    let text = e.clone();
                    proof {
                        lemma_available_fails(iv, sv, n + 1, images@.len() as int, text@);
                    }
                    return Err(text);
                },
            }
        }
        n = n + 1;
    }
    assert(iv.len() == images@.len());
    Ok((out, stale))
}

proof fn lemma_available_fails(
    images: Seq<ImageView>,
    sources: Seq<SourceView>,
    n: int,
    k: int,
    e: Seq<char>,
)
    requires
        0 < n <= k,
        available(images, sources, n) == Err::<Seq<ImageView>, Seq<char>>(e),
    ensures
        available(images, sources, k) == Err::<Seq<ImageView>, Seq<char>>(e),
    decreases k,
{
    if n < k {
        lemma_available_fails(images, sources, n, k - 1, e);
    }
}

fn materialize_message(msg: &ChatMessage, sources: &Vec<ImageSource>) -> (r: Result<
    ChatMessage,
    String,
>)
    requires
        covers(msg@, sources_view(sources@)),
    ensures
        match r {
            Ok(m) => materialized_message(msg@, sources_view(sources@)) == Ok::<
                MessageView,
                Seq<char>,
            >(m@),
            Err(e) => materialized_message(msg@, sources_view(sources@)) == Err::<
                MessageView,
                Seq<char>,
            >(e@),
        },
{
    let mut m = msg.copy();
    if let Some(images) = &msg.images {
        assert(images_view(images@).len() == images@.len());
        match available_images(images, sources) {
            Err(e) => {
                return Err(e);
            },
            Ok((v, stale)) => {
                assert(images_view(v@).len() == v@.len());
                if v.len() > 0 {
                    m.images = Some(v);
                } else {
                    m.images = None;
                    if stale {
                        m.content = Some(stale_content(&msg.content));
                    }
                }
            },
        }
    }
    Ok(m)
}

fn stale_content(content: &Option<String>) -> (r: String)
    ensures
        r@ == with_stale_notice(opt_text(*content)),
{
    if let Some(c) = content {
        if !trim(c.as_str()).as_str().is_empty() {
            return concat3(
                c.as_str(),
                "\n\n",
                "[A previously attached image is unavailable because storage settings changed.]",
            );
        }
    }
    owned("[A previously attached image is unavailable because storage settings changed.]")
}

proof fn lemma_materialized_fails(
    v: Seq<MessageView>,
    sources: Seq<Seq<SourceView>>,
    n: int,
    k: int,
    e: Seq<char>,
)
    requires
        0 < n <= k,
        materialized(v, sources, n) == Err::<Seq<MessageView>, Seq<char>>(e),
    ensures
        materialized(v, sources, k) == Err::<Seq<MessageView>, Seq<char>>(e),
    decreases k,
{
    if n < k {
        lemma_materialized_fails(v, sources, n, k - 1, e);
    }
}

/// The conversation with its pictures at their present addresses. Pictures
/// stored under other settings are left out, with a notice where no picture is
/// left; any other picture without an address is an error.
pub fn materialize_image_urls(
    messages: &Vec<ChatMessage>,
    sources: &Vec<Vec<ImageSource>>,
) -> (r: Result<Vec<ChatMessage>, String>)
    requires
        messages@.len() == sources@.len(),
        forall|i: int|
            0 <= i < messages@.len() ==> covers(
                #[trigger] messages@[i]@,
                all_sources(sources@)[i],
            ),
    ensures
        match r {
            Ok(v) => materialized(
                messages_view(messages@),
                all_sources(sources@),
                messages@.len() as int,
            ) == Ok::<Seq<MessageView>, Seq<char>>(messages_view(v@)),
            Err(e) => materialized(
                messages_view(messages@),
                all_sources(sources@),
                messages@.len() as int,
            ) == Err::<Seq<MessageView>, Seq<char>>(e@),
        },
{
    let ghost mv = messages_view(messages@);
    let ghost sv = all_sources(sources@);
    let mut out: Vec<ChatMessage> = Vec::new();
    let mut n: usize = 0;
    assert(messages_view(out@) =~= Seq::empty());
    while n < messages.len()
        invariant
            n <= messages@.len() == sources@.len(),
            mv == messages_view(messages@),
            sv == all_sources(sources@),
            forall|i: int| 0 <= i < messages@.len() ==> covers(#[trigger] messages@[i]@, sv[i]),
            materialized(mv, sv, n as int) == Ok::<Seq<MessageView>, Seq<char>>(
                messages_view(out@),
            ),
        decreases messages@.len() - n,
    {
        assert(mv[n as int] == messages@[n as int]@);
        assert(sv[n as int] == sources_view(sources@[n as int]@));
        assert(covers(messages@[n as int]@, sv[n as int]));
        match materialize_message(&messages[n], &sources[n]) {
            Ok(m) => {
                let ghost before = messages_view(out@);
                let ghost view = m@;
                out.push(m);
                assert(messages_view(out@) =~= before.push(view));
            },
            Err(e) => {
                proof {
                    lemma_materialized_fails(mv, sv, n + 1, messages@.len() as int, e@);
                }
                return Err(e);
            },
        }
        n = n + 1;
    }
    Ok(out)
}

// ---------------------------------------------------------------------------
// Models and services that take no pictures
// ---------------------------------------------------------------------------

/// What a service is told of tools' pictures that it rejected.
pub open spec fn tool_image_compatibility_notice() -> Seq<char> {
    "[Tool images are unavailable because this OpenAI-compatible endpoint rejected multimodal tool context.]"@
}

/// What a model without sight is told of a message's pictures.
pub open spec fn text_model_notice(role: Seq<char>) -> Seq<char> {
    if role == "tool"@ {
        "[Tool images from an earlier run are unavailable to the current text-only model.]"@
    } else {
        "[An earlier image attachment is unavailable to the current text-only model.]"@
    }
}

/// A content with a notice, which is not repeated.
pub open spec fn with_notice(content: Option<Seq<char>>, notice: Seq<char>) -> Option<Seq<char>> {
    match content {
        None => Some(notice),
        Some(c) => if holds_text(c, notice) {
            Some(c)
        } else {
            Some(c + "\n\n"@ + notice)
        },
    }
}

/// Appends a notice to a message, unless the message holds it already.
pub fn append_message_notice(message: &mut ChatMessage, notice: &str)
    ensures
        final(message)@ == (MessageView {
            content: with_notice(old(message)@.content, notice@),
            ..old(message)@
        }),
{
    let content = match &message.content {
        None => Some(owned(notice)),
        Some(c) => if contains(c.as_str(), notice) {
            Some(c.clone())
        } else {
            Some(concat3(c.as_str(), "\n\n", notice))
        },
    };
    message.content = content;
}

/// A message for a model without sight.
pub open spec fn sightless(m: MessageView) -> MessageView {
    if images_of(m).len() == 0 {
        m
    } else {
        MessageView {
            images: None,
            content: with_notice(m.content, text_model_notice(m.role)),
            ..m
        }
    }
}

/// The number of pictures of the first `n` messages.
pub open spec fn picture_count(v: Seq<MessageView>, n: int) -> nat
    decreases n,
{
    if n <= 0 {
        0
    } else {
        picture_count(v, n - 1) + images_of(v[n - 1]).len()
    }
}

proof fn lemma_picture_count(v: Seq<MessageView>, n: int, k: int)
    requires
        0 <= n <= k,
    ensures
        picture_count(v, n) <= picture_count(v, k),
    decreases k,
{
    if n < k {
        lemma_picture_count(v, n, k - 1);
    }
}

fn strip_for_text_model(message: &mut ChatMessage) -> (r: usize)
    ensures
        final(message)@ == sightless(old(message)@),
        r == images_of(old(message)@).len(),
{
    let count: usize = match &message.images {
        Some(v) => {
            assert(images_view(v@).len() == v@.len());
            v.len()
        },
        None => 0,
    };
    if count == 0 {
        return 0;
    }
    message.images = None;
    if same(message.role.as_str(), "tool") {
        append_message_notice(
            message,
            "[Tool images from an earlier run are unavailable to the current text-only model.]",
        );
    } else {
        append_message_notice(
            message,
            "[An earlier image attachment is unavailable to the current text-only model.]",
        );
    }
    count
}

/// Takes the pictures out of a conversation for a model without sight and says
/// how many there were.
pub fn strip_images_for_unsupported_model(messages: &mut Vec<ChatMessage>) -> (removed: usize)
    requires
        picture_count(messages_view(old(messages)@), old(messages)@.len() as int) <= usize::MAX,
    ensures
        messages_view(final(messages)@) == messages_view(old(messages)@).map_values(
            |m: MessageView| sightless(m),
        ),
        removed == picture_count(messages_view(old(messages)@), old(messages)@.len() as int),
{
    let ghost start = messages_view(messages@);
    let ghost total = messages@.len() as int;
    let mut removed: usize = 0;
    let mut n: usize = 0;
    while n < messages.len()
        invariant
            n <= messages@.len() == total == start.len(),
            picture_count(start, total) <= usize::MAX,
            removed == picture_count(start, n as int),
            forall|j: int| 0 <= j < n ==> (#[trigger] messages@[j])@ == sightless(start[j]),
            forall|j: int| n <= j < total ==> (#[trigger] messages@[j])@ == start[j],
        decreases messages@.len() - n,
    {
        proof {
            lemma_picture_count(start, n + 1, total);
        }
        let count: usize = strip_for_text_model(&mut messages[n]);
        removed = removed + count;
        n = n + 1;
    }
    assert(messages_view(messages@) =~= start.map_values(|m: MessageView| sightless(m)));
    removed
}

/// The result of a tool has pictures.
pub open spec fn has_tool_images(m: MessageView) -> bool {
    m.role == "tool"@ && images_of(m).len() > 0
}

/// A message for a service that rejects tools' pictures.
pub open spec fn without_tool_images(m: MessageView) -> MessageView {
    if has_tool_images(m) {
        MessageView {
            images: None,
            content: with_notice(m.content, tool_image_compatibility_notice()),
            ..m
        }
    } else {
        m
    }
}

/// The result of some tool has pictures.
pub open spec fn some_tool_images(v: Seq<MessageView>) -> bool {
    exists|i: int| 0 <= i < v.len() && has_tool_images(#[trigger] v[i])
}

fn shows_tool_images(message: &ChatMessage) -> (r: bool)
    ensures
        r == has_tool_images(message@),
{
    same(message.role.as_str(), "tool") && match &message.images {
        Some(v) => {
            assert(images_view(v@).len() == v@.len());
            v.len() > 0
        },
        None => false,
    }
}

/// Whether the result of some tool has pictures.
pub fn messages_have_tool_images(messages: &Vec<ChatMessage>) -> (r: bool)
    ensures
        r == some_tool_images(messages_view(messages@)),
{
    let ghost all = messages_view(messages@);
    let mut i: usize = 0;
    while i < messages.len()
        invariant
            i <= messages@.len(),
            all == messages_view(messages@),
            forall|j: int| 0 <= j < i ==> !has_tool_images(#[trigger] all[j]),
        decreases messages@.len() - i,
    {
        assert(all[i as int] == messages@[i as int]@);
        if shows_tool_images(&messages[i]) {
            return true;
        }
        i = i + 1;
    }
    false
}

/// Takes tools' pictures out of a conversation and says whether there were any.
pub fn strip_tool_images_for_compatibility(messages: &mut Vec<ChatMessage>) -> (removed: bool)
    ensures
        messages_view(final(messages)@) == messages_view(old(messages)@).map_values(
            |m: MessageView| without_tool_images(m),
        ),
        removed == some_tool_images(messages_view(old(messages)@)),
{
    let ghost start = messages_view(messages@);
    let ghost total = messages@.len() as int;
    let mut removed: bool = false;
    let mut n: usize = 0;
    while n < messages.len()
        invariant
            n <= messages@.len() == total == start.len(),
            removed == exists|i: int| 0 <= i < n && has_tool_images(#[trigger] start[i]),
            forall|j: int|
                0 <= j < n ==> (#[trigger] messages@[j])@ == without_tool_images(start[j]),
            forall|j: int| n <= j < total ==> (#[trigger] messages@[j])@ == start[j],
        decreases messages@.len() - n,
    {
        assert(messages@[n as int]@ == start[n as int]);
        if shows_tool_images(&messages[n]) {
            strip_rejected(&mut messages[n]);
            removed = true;
        }
        n = n + 1;
    }
    assert(messages_view(messages@) =~= start.map_values(|m: MessageView| without_tool_images(m)));
    removed
}

fn strip_rejected(message: &mut ChatMessage)
    requires
        has_tool_images(old(message)@),
    ensures
        final(message)@ == without_tool_images(old(message)@),
{
    message.images = None;
    append_message_notice(
        message,
        "[Tool images are unavailable because this OpenAI-compatible endpoint rejected multimodal tool context.]",
    );
}

/// No result of a tool keeps a picture, and nothing is left to strip after one
/// pass.
pub proof fn law_tool_images_stripped(v: Seq<MessageView>)
    ensures
        !some_tool_images(v.map_values(|m: MessageView| without_tool_images(m))),
        v.map_values(|m: MessageView| without_tool_images(m)).map_values(
            |m: MessageView| without_tool_images(m),
        ) == v.map_values(|m: MessageView| without_tool_images(m)),
{
    let once = v.map_values(|m: MessageView| without_tool_images(m));
    assert forall|i: int| 0 <= i < once.len() implies !has_tool_images(#[trigger] once[i]) by {
        assert(once[i] == without_tool_images(v[i]));
    }
    assert(once.map_values(|m: MessageView| without_tool_images(m)) =~= once);
}

/// A model without sight gets no picture at all, and messages without pictures
/// reach it unchanged.
pub proof fn law_sightless(v: Seq<MessageView>)
    ensures
        picture_count(v.map_values(|m: MessageView| sightless(m)), v.len() as int) == 0,
        forall|i: int|
            0 <= i < v.len() && images_of(#[trigger] v[i]).len() == 0 ==> v.map_values(
                |m: MessageView| sightless(m),
            )[i] == v[i],
{
    lemma_no_pictures(v, v.len() as int);
}

proof fn lemma_no_pictures(v: Seq<MessageView>, n: int)
    requires
        n <= v.len(),
    ensures
        picture_count(v.map_values(|m: MessageView| sightless(m)), n) == 0,
    decreases n,
{
    if n > 0 {
        lemma_no_pictures(v, n - 1);
        let w = v.map_values(|m: MessageView| sightless(m));
        assert(w[n - 1] == sightless(v[n - 1]));
    }
}

// ---------------------------------------------------------------------------
// The tool for looking at pictures
// ---------------------------------------------------------------------------

/// The name of the tool for looking at pictures.
pub const TOOL_NAME_VIEW_IMAGE: &'static str = "view_image";

/// The name in a definition of a tool, in either of its two forms.
pub open spec fn definition_name(d: JsonView) -> Option<Seq<char>> {
    let inner = match member(d, "function"@) {
        Some(f) => match member(f, "name"@) {
            Some(JsonView::Text(t)) => Some(t),
            _ => None,
        },
        None => None,
    };
    if inner is Some {
        inner
    } else {
        match member(d, "name"@) {
            Some(JsonView::Text(t)) => Some(t),
            _ => None,
        }
    }
}

/// The name in a definition of a tool.
pub fn tool_definition_name(definition: &Json) -> (r: Option<&str>)
    ensures
        opt_str(r) == definition_name(definition@),
{
    if let Some(function) = definition.get("function") {
        if let Some(name) = function.get("name") {
            if let Some(t) = name.as_str() {
                return Some(t);
            }
        }
    }
    match definition.get("name") {
        Some(name) => name.as_str(),
        None => None,
    }
}

/// The lines among the first `n` that do not speak of the tool.
pub open spec fn lines_without(v: Seq<Seq<char>>, word: Seq<char>, n: int) -> Seq<Seq<char>>
    decreases n,
{
    if n <= 0 {
        Seq::empty()
    } else if holds_text(v[n - 1], word) {
        lines_without(v, word, n - 1)
    } else {
        lines_without(v, word, n - 1).push(v[n - 1])
    }
}

/// A message without what the system says of the tool.
pub open spec fn without_view_image(m: MessageView) -> MessageView {
    if m.role == "system"@ && m.content is Some && holds_text(m.content->0, "**view_image**"@) {
        let lines = lines_of(m.content->0);
        MessageView {
            content: Some(
                joined(lines_without(lines, "**view_image**"@, lines.len() as int), "\n"@),
            ),
            ..m
        }
    } else {
        m
    }
}

/// The definitions among the first `n` that are not of the tool.
pub open spec fn other_tools(v: Seq<JsonView>, n: int) -> Seq<JsonView>
    decreases n,
{
    if n <= 0 {
        Seq::empty()
    } else if definition_name(v[n - 1]) == Some(TOOL_NAME_VIEW_IMAGE@) {
        other_tools(v, n - 1)
    } else {
        other_tools(v, n - 1).push(v[n - 1])
    }
}

fn drop_lines(text: &str, word: &str) -> (r: String)
    ensures
        r@ == joined(lines_without(lines_of(text@), word@, lines_of(text@).len() as int), "\n"@),
{
    let v = lines(text);
    let ghost all = texts(v@);
    let mut kept: Vec<String> = Vec::new();
    let mut n: usize = 0;
    assert(texts(kept@) =~= Seq::empty());
    while n < v.len()
        invariant
            n <= v@.len(),
            all == texts(v@),
            texts(kept@) == lines_without(all, word@, n as int),
        decreases v@.len() - n,
    {
        assert(all[n as int] == v@[n as int]@);
        if !contains(v[n].as_str(), word) {
            let ghost before = texts(kept@);
            kept.push(v[n].clone());
            assert(texts(kept@) =~= before.push(all[n as int]));
        }
        n = n + 1;
    }
    assert(all.len() == v@.len());
    join(&kept, "\n")
}

fn forget_view_image(message: &mut ChatMessage)
    ensures
        final(message)@ == without_view_image(old(message)@),
{
    if !same(message.role.as_str(), "system") {
        return;
    }
    let content: Option<String> = match &message.content {
        Some(c) => if contains(c.as_str(), "**view_image**") {
            Some(drop_lines(c.as_str(), "**view_image**"))
        } else {
            None
        },
        None => None,
    };
    if content.is_some() {
        message.content = content;
    }
}

/// Takes the tool for looking at pictures out of the system's instructions and
/// returns the definitions of the other tools.
pub fn remove_view_image_capability_for_compatibility(
    messages: &mut Vec<ChatMessage>,
    extra_tools: &Vec<Json>,
) -> (r: Vec<Json>)
    ensures
        messages_view(final(messages)@) == messages_view(old(messages)@).map_values(
            |m: MessageView| without_view_image(m),
        ),
        items_view(r@) == other_tools(items_view(extra_tools@), extra_tools@.len() as int),
{
    let ghost start = messages_view(messages@);
    let ghost total = messages@.len() as int;
    let mut n: usize = 0;
    while n < messages.len()
        invariant
            n <= messages@.len() == total == start.len(),
            forall|j: int|
                0 <= j < n ==> (#[trigger] messages@[j])@ == without_view_image(start[j]),
            forall|j: int| n <= j < total ==> (#[trigger] messages@[j])@ == start[j],
        decreases messages@.len() - n,
    {
        forget_view_image(&mut messages[n]);
        n = n + 1;
    }
    assert(messages_view(messages@) =~= start.map_values(|m: MessageView| without_view_image(m)));
    let ghost all = items_view(extra_tools@);
    let mut out = no_items();
    let mut k: usize = 0;
    while k < extra_tools.len()
        invariant
            k <= extra_tools@.len(),
            all == items_view(extra_tools@),
            items_view(out@) == other_tools(all, k as int),
        decreases extra_tools@.len() - k,
    {
        assert(all[k as int] == extra_tools@[k as int]@);
        let is_view_image: bool = match tool_definition_name(&extra_tools[k]) {
            Some(name) => same(name, TOOL_NAME_VIEW_IMAGE),
            None => false,
        };
        if !is_view_image {
            push_item(&mut out, extra_tools[k].copy());
        }
        k = k + 1;
    }
    out
}

/// A picture that was uploaded under the settings in force and can be fetched
/// without a check of its address.
pub open spec fn is_trusted_upload(i: ImageView, has_storage: bool, config_matches: bool) -> bool {
    has_storage && config_matches && i.s3_object_key is Some && trimmed(i.s3_object_key->0).len()
        > 0
}

/// Whether a picture was uploaded under the settings in force.
pub fn is_trusted_uploaded_image(
    image: &ImageAttachment,
    has_storage: bool,
    config_matches: bool,
) -> (r: bool)
    ensures
        r == is_trusted_upload(image@, has_storage, config_matches),
{
    has_storage && config_matches && match &image.s3_object_key {
        Some(key) => !trim(key.as_str()).as_str().is_empty(),
        None => false,
    }
}

} // verus!
