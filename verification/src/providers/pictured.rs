//! What becomes of the pictures of a conversation before it is sent.

use crate::chat::{ImageView, MessageView, images_of};
use crate::json::JsonView;
use crate::providers::images::{
    SourceView, available, covers, definition_name, is_stale, materialized, materialized_message,
    other_tools, picture_count, sightless, some_stale, stale_notice, text_model_notice,
    tool_image_compatibility_notice, with_notice, without_tool_images, without_view_image,
};
use crate::text::{holds_text, stands_at, trimmed};
use crate::within::{lemma_within, occurs};
use vstd::prelude::*;
use vstd::string::*;

verus! {

/// The positions of the first `n` pictures that the settings in force can serve.
pub open spec fn served(images: Seq<ImageView>, sources: Seq<SourceView>, n: int) -> Seq<int> {
    Seq::new(n as nat, |i: int| i).filter(
        |i: int| images[i].s3_object_key is None || sources[i].config_matches,
    )
}

proof fn lemma_served(images: Seq<ImageView>, sources: Seq<SourceView>, n: int)
    requires
        0 <= n <= images.len(),
        images.len() == sources.len(),
    ensures
        forall|j: int|
            0 <= j < served(images, sources, n).len() ==> 0 <= #[trigger] served(
                images,
                sources,
                n,
            )[j] < n,
        n > 0 && (images[n - 1].s3_object_key is None || sources[n - 1].config_matches)
            ==> served(images, sources, n) == served(images, sources, n - 1).push(n - 1),
        n > 0 && !(images[n - 1].s3_object_key is None || sources[n - 1].config_matches)
            ==> served(images, sources, n) == served(images, sources, n - 1),
    decreases n,
{
    reveal(Seq::filter);
    if n > 0 {
        let all = Seq::new(n as nat, |i: int| i);
        assert(all.drop_last() =~= Seq::new((n - 1) as nat, |i: int| i));
        assert(all.last() == n - 1);
        lemma_served(images, sources, n - 1);
        let a = served(images, sources, n - 1);
        let b = served(images, sources, n);
        assert forall|j: int| 0 <= j < b.len() implies 0 <= #[trigger] b[j] < n by {
            if j < a.len() {
                assert(b[j] == a[j]);
            }
        }
    } else {
        assert(Seq::new(n as nat, |i: int| i) =~= Seq::<int>::empty());
        assert(served(images, sources, n).len() == 0);
    }
}

proof fn lemma_available(images: Seq<ImageView>, sources: Seq<SourceView>, n: int)
    requires
        0 <= n <= images.len(),
        images.len() == sources.len(),
    ensures
        available(images, sources, n) is Ok <==> (forall|i: int|
            0 <= i < n && (images[i].s3_object_key is None || sources[i].config_matches) ==> (
            #[trigger] sources[i]).url is Ok),
        available(images, sources, n) is Ok ==> ({
            let v = available(images, sources, n)->Ok_0;
            let from = served(images, sources, n);
            &&& v.len() == from.len()
            &&& forall|j: int|
                0 <= j < v.len() ==> {
                    &&& Ok::<Seq<char>, Seq<char>>((#[trigger] v[j]).url) == sources[from[j]].url
                    &&& v[j].s3_object_key == images[from[j]].s3_object_key
                    &&& v[j].s3_config_id == images[from[j]].s3_config_id
                    &&& v[j].data == images[from[j]].data
                    &&& v[j].cache_path == images[from[j]].cache_path
                }
        }),
    decreases n,
{
    lemma_served(images, sources, n);
    if n > 0 {
        lemma_available(images, sources, n - 1);
        let k = n - 1;
        assert(sources[k] == sources[k]);
    } else {
        reveal(Seq::filter);
        assert(Seq::new(0, |i: int| i) =~= Seq::<int>::empty());
    }
}

/// The message still says and asks for what it did; only its pictures and its
/// words may differ.
pub open spec fn is_same_turn(a: MessageView, b: MessageView) -> bool {
    &&& a.role == b.role
    &&& a.thinking == b.thinking
    &&& a.blocks == b.blocks
    &&& a.tool_calls == b.tool_calls
    &&& a.tool_call_id == b.tool_call_id
    &&& a.timestamp == b.timestamp
}

/// The pictures that the settings in force can serve stay, in their order, each
/// at its present address and otherwise as it was. Only where none of them is
/// left while there was one does the message say that a picture is missing, behind
/// its own words; that a picture which the settings serve has no address is the
/// one reason to fail.
pub proof fn law_pictures_move(m: MessageView, sources: Seq<SourceView>)
    requires
        covers(m, sources),
    ensures
        ({
            let images = images_of(m);
            let from = served(images, sources, images.len() as int);
            let r = materialized_message(m, sources);
            &&& r is Ok <==> forall|i: int|
                0 <= i < images.len() && (images[i].s3_object_key is None
                    || sources[i].config_matches) ==> (#[trigger] sources[i]).url is Ok
            &&& r is Ok ==> {
                let w = r->Ok_0;
                &&& is_same_turn(w, m)
                &&& m.images is None ==> w == m
                &&& images_of(w).len() == from.len()
                &&& from.len() == 0 ==> w.images is None
                &&& forall|j: int|
                    0 <= j < from.len() ==> {
                        let i = #[trigger] images_of(w)[j];
                        &&& Ok::<Seq<char>, Seq<char>>(i.url) == sources[from[j]].url
                        &&& i.s3_object_key == images[from[j]].s3_object_key
                        &&& i.s3_config_id == images[from[j]].s3_config_id
                        &&& i.data == images[from[j]].data
                        &&& i.cache_path == images[from[j]].cache_path
                    }
                &&& from.len() > 0 || images.len() == 0 ==> w.content == m.content
                &&& from.len() == 0 && images.len() > 0 ==> {
                    &&& w.content is Some
                    &&& occurs(
                        w.content->0,
                        "[A previously attached image is unavailable because storage settings changed.]"@,
                    )
                    &&& m.content is Some && trimmed(m.content->0).len() > 0 ==> occurs(
                        w.content->0,
                        m.content->0,
                    )
                }
            }
        }),
{
    let images = images_of(m);
    let n = images.len() as int;
    lemma_available(images, sources, n);
    lemma_served(images, sources, n);
    let from = served(images, sources, n);
    if m.images is None {
        reveal(Seq::filter);
        assert(Seq::new(0, |i: int| i) =~= Seq::<int>::empty());
    } else {
        let none = Seq::<char>::empty();
        let notice = stale_notice();
        if m.content is Some {
            let c = m.content->0;
            lemma_within(c + "\n\n"@, notice, none);
            assert(c + "\n\n"@ + notice + none =~= c + "\n\n"@ + notice);
            lemma_within(none, c, "\n\n"@ + notice);
            assert(none + c + ("\n\n"@ + notice) =~= c + "\n\n"@ + notice);
        }
        lemma_within(none, notice, none);
        assert(none + notice + none =~= notice);
        if from.len() == 0 && n > 0 {
            assert(is_stale(images[n - 1], sources[n - 1]));
            assert(some_stale(images, sources));
        }
        if n == 0 {
            assert(!some_stale(images, sources));
            reveal(Seq::filter);
            assert(Seq::new(0, |i: int| i) =~= Seq::<int>::empty());
        }
    }
}

/// Every message of a conversation has its pictures moved by itself, and the
/// order of the messages stays.
pub proof fn law_each_message_by_itself(
    v: Seq<MessageView>,
    sources: Seq<Seq<SourceView>>,
    n: int,
)
    requires
        0 <= n <= v.len(),
        v.len() == sources.len(),
    ensures
        materialized(v, sources, n) is Ok <==> forall|i: int|
            0 <= i < n ==> materialized_message(#[trigger] v[i], sources[i]) is Ok,
        materialized(v, sources, n) is Ok ==> materialized(v, sources, n)->Ok_0.len() == n
            && forall|i: int|
            0 <= i < n ==> Ok::<MessageView, Seq<char>>(
                #[trigger] materialized(v, sources, n)->Ok_0[i],
            ) == materialized_message(v[i], sources[i]),
    decreases n,
{
    if n > 0 {
        law_each_message_by_itself(v, sources, n - 1);
        let last = v[n - 1];
    }
}

proof fn lemma_with_notice(content: Option<Seq<char>>, notice: Seq<char>)
    ensures
        with_notice(content, notice) is Some,
        occurs(with_notice(content, notice)->0, notice),
        content is Some ==> occurs(with_notice(content, notice)->0, content->0),
{
    let none = Seq::<char>::empty();
    lemma_within(none, notice, none);
    assert(none + notice + none =~= notice);
    if content is Some {
        let c = content->0;
        lemma_within(none, c, none);
        assert(none + c + none =~= c);
        if holds_text(c, notice) {
            let i = choose|i: int| stands_at(c, notice, i);
            assert(c.subrange(i, i + notice.len()) =~= notice);
        } else {
            lemma_within(c + "\n\n"@, notice, none);
            assert(c + "\n\n"@ + notice + none =~= c + "\n\n"@ + notice);
            lemma_within(none, c, "\n\n"@ + notice);
            assert(none + c + ("\n\n"@ + notice) =~= c + "\n\n"@ + notice);
        }
    }
}

/// What a model without sight is sent has no pictures. A message that had one
/// keeps its words and says, as a tool's or as anyone's, what is missing; one that
/// had none is as it was.
pub proof fn law_no_sight(m: MessageView)
    ensures
        images_of(sightless(m)).len() == 0,
        is_same_turn(sightless(m), m),
        images_of(m).len() == 0 ==> sightless(m) == m,
        sightless(sightless(m)) == sightless(m),
        images_of(m).len() > 0 ==> sightless(m).content is Some && occurs(
            sightless(m).content->0,
            if m.role == "tool"@ {
                "[Tool images from an earlier run are unavailable to the current text-only model.]"@
            } else {
                "[An earlier image attachment is unavailable to the current text-only model.]"@
            },
        ),
        m.content is Some ==> sightless(m).content is Some && occurs(
            sightless(m).content->0,
            m.content->0,
        ),
{
    lemma_with_notice(m.content, text_model_notice(m.role));
    if m.content is Some {
        let none = Seq::<char>::empty();
        lemma_within(none, m.content->0, none);
        assert(none + m.content->0 + none =~= m.content->0);
    }
}

/// Where a service rejects the pictures of tools, only the results of tools lose
/// theirs, keep their words and say so.
pub proof fn law_no_tool_pictures(m: MessageView)
    ensures
        is_same_turn(without_tool_images(m), m),
        m.role == "tool"@ ==> images_of(without_tool_images(m)).len() == 0,
        m.role != "tool"@ || images_of(m).len() == 0 ==> without_tool_images(m) == m,
        m.role == "tool"@ && images_of(m).len() > 0 ==> without_tool_images(m).content is Some
            && occurs(
            without_tool_images(m).content->0,
            "[Tool images are unavailable because this OpenAI-compatible endpoint rejected multimodal tool context.]"@,
        ),
        m.role == "tool"@ && images_of(m).len() > 0 && m.content is Some ==> occurs(
            without_tool_images(m).content->0,
            m.content->0,
        ),
{
    lemma_with_notice(m.content, tool_image_compatibility_notice());
}

proof fn lemma_other_tools(v: Seq<JsonView>, n: int)
    requires
        0 <= n <= v.len(),
    ensures
        other_tools(v, n) == v.take(n).filter(
            |d: JsonView| definition_name(d) != Some("view_image"@),
        ),
    decreases n,
{
    reveal(Seq::filter);
    if n > 0 {
        lemma_other_tools(v, n - 1);
        assert(v.take(n).drop_last() =~= v.take(n - 1));
        assert(v.take(n).last() == v[n - 1]);
    }
}

/// Of the definitions exactly those of the tool for looking at pictures go, and
/// only what the system says may change.
pub proof fn law_tool_is_taken_away(v: Seq<JsonView>, m: MessageView)
    ensures
        other_tools(v, v.len() as int) == v.filter(
            |d: JsonView| definition_name(d) != Some("view_image"@),
        ),
        is_same_turn(without_view_image(m), m),
        without_view_image(m).images == m.images,
        m.role != "system"@ || m.content is None ==> without_view_image(m) == m,
        m.content is Some && !holds_text(m.content->0, "**view_image**"@) ==> without_view_image(m)
            == m,
{
    lemma_other_tools(v, v.len() as int);
    assert(v.take(v.len() as int) =~= v);
}

/// The pictures of two stretches of a conversation add up, and there are none
/// exactly where no message has one.
pub proof fn law_pictures_add_up(v: Seq<MessageView>, n: int)
    requires
        0 <= n <= v.len(),
    ensures
        picture_count(v, n) == 0 <==> forall|i: int|
            0 <= i < n ==> images_of(#[trigger] v[i]).len() == 0,
        forall|i: int| 0 <= i < n ==> images_of(#[trigger] v[i]).len() <= picture_count(v, n),
        n < v.len() ==> picture_count(v, n + 1) == picture_count(v, n) + images_of(v[n]).len(),
    decreases n,
{
    if n > 0 {
        law_pictures_add_up(v, n - 1);
        let last = v[n - 1];
    }
}

} // verus!
