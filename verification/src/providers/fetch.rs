//! The data of pictures: where it comes from, and what is accepted.

use crate::chat::{
    ChatMessage, ImageAttachment, ImageView, MessageView, images_of, images_view, messages_view,
};
use crate::providers::gemini::{base64_bytes, decoded_kind, picture_kind};
use crate::providers::ollama::{ImageData, data_at};
use crate::text::{
    concat3, concat5, decimal, decimal_spec, opt_str, opt_text, owned, problem, same,
};
use vstd::prelude::*;
use vstd::string::*;

verus! {

/// The largest picture that is fetched, in bytes.
pub const MAX_IMAGE_FETCH_BYTES: usize = 10485760;

/// The directory that keeps the data of pictures.
pub const IMAGE_CACHE_DIR_NAME: &'static str = ".image-cache";

// ---------------------------------------------------------------------------
// Where the data comes from
// ---------------------------------------------------------------------------

/// What is done to get the data of a picture.
#[derive(Debug, PartialEq, Eq)]
pub enum ImageNeed {
    /// Nothing: it is known, or nobody needs it.
    Nothing,
    /// The message brings it.
    Attached(String),
    /// A file may hold it.
    Cached(String),
    /// It has to be fetched.
    Fetched,
}

/// What is done to get the data of a picture, by its view.
pub enum NeedView {
    Nothing,
    Attached(Seq<char>),
    Cached(Seq<char>),
    Fetched,
}

impl ImageNeed {
    pub open spec fn view(self) -> NeedView {
        match self {
            ImageNeed::Nothing => NeedView::Nothing,
            ImageNeed::Attached(s) => NeedView::Attached(s@),
            ImageNeed::Cached(s) => NeedView::Cached(s@),
            ImageNeed::Fetched => NeedView::Fetched,
        }
    }
}

/// What is done to get the data of a picture in a message of the given role.
pub open spec fn need_of(
    role: Seq<char>,
    i: ImageView,
    data: Seq<(Seq<char>, Seq<char>)>,
) -> NeedView {
    if (role != "user"@ && role != "tool"@) || data_at(data, i.url, 0) is Some {
        NeedView::Nothing
    } else if i.data is Some {
        NeedView::Attached(i.data->0)
    } else if i.cache_path is Some {
        NeedView::Cached(i.cache_path->0)
    } else {
        NeedView::Fetched
    }
}

/// What is done to get the data of a picture in a message of the given role,
/// when some data is known.
pub fn image_need(role: &str, image: &ImageAttachment, known: &ImageData) -> (r: ImageNeed)
    ensures
        r@ == need_of(role@, image@, known@),
{
    if (!same(role, "user") && !same(role, "tool")) || known.get(image.url.as_str()).is_some() {
        return ImageNeed::Nothing;
    }
    if let Some(d) = &image.data {
        return ImageNeed::Attached(d.clone());
    }
    match &image.cache_path {
        Some(p) => ImageNeed::Cached(p.clone()),
        None => ImageNeed::Fetched,
    }
}

/// The next picture from the `j`-th of the `i`-th message on whose data has to
/// be got.
pub open spec fn next_needed(
    v: Seq<MessageView>,
    data: Seq<(Seq<char>, Seq<char>)>,
    i: int,
    j: int,
) -> Option<(int, int)>
    decreases v.len() - i, images_of(v[i]).len() - j,
{
    if i < 0 || j < 0 || i >= v.len() {
        None
    } else if j >= images_of(v[i]).len() {
        next_needed(v, data, i + 1, 0)
    } else if need_of(v[i].role, images_of(v[i])[j], data) is Nothing {
        next_needed(v, data, i, j + 1)
    } else {
        Some((i, j))
    }
}

/// The next picture of a conversation whose data has to be got, from a place on,
/// with what is to be done. Once that is done or given up, the search goes on at
/// the picture after it.
pub fn next_image_need(
    messages: &Vec<ChatMessage>,
    known: &ImageData,
    message: usize,
    image: usize,
) -> (r: Option<(usize, usize, ImageNeed)>)
    ensures
        match r {
            Some((i, j, need)) => next_needed(
                messages_view(messages@),
                known@,
                message as int,
                image as int,
            ) == Some((i as int, j as int)) && need@ == need_of(
                messages_view(messages@)[i as int].role,
                images_of(messages_view(messages@)[i as int])[j as int],
                known@,
            ),
            None => next_needed(
                messages_view(messages@),
                known@,
                message as int,
                image as int,
            ) is None,
        },
{
    let ghost v = messages_view(messages@);
    assert(v.len() == messages@.len());
    let mut i: usize = message;
    let mut j: usize = image;
    while i < messages.len()
        invariant
            v == messages_view(messages@),
            v.len() == messages@.len(),
            next_needed(v, known@, message as int, image as int) == next_needed(
                v,
                known@,
                i as int,
                j as int,
            ),
        decreases messages@.len() - i, images_of(v[i as int]).len() - j,
    {
        let msg = &messages[i];
        assert(v[i as int] == msg@);
        let count: usize = match &msg.images {
            Some(images) => {
                assert(images_view(images@).len() == images@.len());
                images.len()
            },
            None => 0,
        };
        assert(count == images_of(msg@).len());
        if j >= count {
            i = i + 1;
            j = 0;
        } else {
            if let Some(images) = &msg.images {
                assert(images_view(images@)[j as int] == images@[j as int]@);
                let need = image_need(msg.role.as_str(), &images[j], known);
                if !matches!(need, ImageNeed::Nothing) {
                    return Some((i, j, need));
                }
            }
            j = j + 1;
        }
    }
    None
}

/// What comes of an attempt to fetch a picture. A picture that cannot be had is
/// left out, unless every picture is needed and it is not a tool's.
pub open spec fn fetch_outcome(
    url: Seq<char>,
    role: Seq<char>,
    strict: bool,
    fetched: Result<Seq<char>, Seq<char>>,
) -> Result<Option<Seq<char>>, Seq<char>> {
    match fetched {
        Ok(d) => Ok(Some(d)),
        Err(e) => if strict && role != "tool"@ {
            Err("Failed to fetch image "@ + url + " for model request: "@ + e)
        } else {
            Ok(None)
        },
    }
}

/// What comes of an attempt to fetch a picture.
pub fn settle_image_fetch(
    url: &str,
    role: &str,
    strict_missing: bool,
    fetched: Result<String, String>,
) -> (r: Result<Option<String>, String>)
    ensures
        ({
            let expected = fetch_outcome(
                url@,
                role@,
                strict_missing,
                match fetched {
                    Ok(d) => Ok(d@),
                    Err(e) => Err(e@),
                },
            );
            match r {
                Ok(o) => expected == Ok::<Option<Seq<char>>, Seq<char>>(opt_text(o)),
                Err(e) => expected == Err::<Option<Seq<char>>, Seq<char>>(e@),
            }
        }),
{
    match fetched {
        Ok(d) => Ok(Some(d)),
        Err(e) => if strict_missing && !same(role, "tool") {
            let mut text = concat3("Failed to fetch image ", url, " for model request: ");
            text.append(e.as_str());
            Err(text)
        } else {
            Ok(None)
        },
    }
}

// ---------------------------------------------------------------------------
// Files that keep the data
// ---------------------------------------------------------------------------

/// The character of a hexadecimal digit.
pub open spec fn hex_char(d: nat) -> char {
    if d == 0 {
        '0'
    } else if d == 1 {
        '1'
    } else if d == 2 {
        '2'
    } else if d == 3 {
        '3'
    } else if d == 4 {
        '4'
    } else if d == 5 {
        '5'
    } else if d == 6 {
        '6'
    } else if d == 7 {
        '7'
    } else if d == 8 {
        '8'
    } else if d == 9 {
        '9'
    } else if d == 10 {
        'a'
    } else if d == 11 {
        'b'
    } else if d == 12 {
        'c'
    } else if d == 13 {
        'd'
    } else if d == 14 {
        'e'
    } else {
        'f'
    }
}

/// The last `width` hexadecimal digits of `n`.
pub open spec fn hex_text(n: nat, width: nat) -> Seq<char>
    decreases width,
{
    if width == 0 {
        Seq::empty()
    } else {
        hex_text(n / 16, (width - 1) as nat).push(hex_char(n % 16))
    }
}

fn to_hex_char(d: u128) -> (c: char)
    requires
        d < 16,
    ensures
        c == hex_char(d as nat),
{
    match d {
        0 => '0',
        1 => '1',
        2 => '2',
        3 => '3',
        4 => '4',
        5 => '5',
        6 => '6',
        7 => '7',
        8 => '8',
        9 => '9',
        10 => 'a',
        11 => 'b',
        12 => 'c',
        13 => 'd',
        14 => 'e',
        _ => 'f',
    }
}

fn to_hex(n: u128, width: usize) -> (s: String)
    ensures
        s@ == hex_text(n as nat, width as nat),
    decreases width,
{
    if width == 0 {
        return String::new();
    }
    let mut s = to_hex(n / 16, width - 1);
    s.push(to_hex_char(n % 16));
    s
}

/// The name of the file that keeps the data of a picture: the moment in
/// nanoseconds and a hash of its address.
pub open spec fn cache_name(nanos: nat, hash: nat) -> Seq<char> {
    hex_text(nanos, 32) + "-"@ + hex_text(hash, 16) + ".b64"@
}

/// The name of the file that keeps the data of a picture.
pub fn image_cache_name(nanos: u128, hash: u64) -> (r: String)
    ensures
        r@ == cache_name(nanos as nat, hash as nat),
{
    let mut s = to_hex(nanos, 32);
    s.append("-");
    s.append(to_hex(hash as u128, 16).as_str());
    s.append(".b64");
    s
}

proof fn lemma_hex_differs(a: nat, b: nat, width: nat)
    requires
        hex_text(a, width) == hex_text(b, width),
    ensures
        hex_text(a, width).len() == width,
        a % pow16(width) == b % pow16(width),
    decreases width,
{
    if width > 0 {
        let w = (width - 1) as nat;
        lemma_hex_len(a, width);
        lemma_hex_len(b, width);
        let x = hex_text(a / 16, w);
        let y = hex_text(b / 16, w);
        assert(hex_text(a, width).drop_last() =~= x);
        assert(hex_text(b, width).drop_last() =~= y);
        assert(hex_text(a, width).last() == hex_char(a % 16));
        assert(hex_text(b, width).last() == hex_char(b % 16));
        lemma_hex_differs(a / 16, b / 16, w);
        let p = pow16(w);
        lemma_pow16_positive(w);
        assert(a % 16 == b % 16);
        vstd::arithmetic::div_mod::lemma_breakdown(a as int, 16, p as int);
        vstd::arithmetic::div_mod::lemma_breakdown(b as int, 16, p as int);
    }
}

/// A power of sixteen.
pub open spec fn pow16(n: nat) -> nat
    decreases n,
{
    if n == 0 {
        1
    } else {
        16 * pow16((n - 1) as nat)
    }
}

proof fn lemma_pow16_positive(n: nat)
    ensures
        pow16(n) > 0,
    decreases n,
{
    if n > 0 {
        lemma_pow16_positive((n - 1) as nat);
    }
}

proof fn lemma_hex_len(n: nat, width: nat)
    ensures
        hex_text(n, width).len() == width,
    decreases width,
{
    if width > 0 {
        lemma_hex_len(n / 16, (width - 1) as nat);
    }
}

/// Two pictures that are kept at different moments are kept in different files.
pub proof fn law_cache_names_distinct(nanos_a: u128, hash_a: u64, nanos_b: u128, hash_b: u64)
    requires
        nanos_a != nanos_b,
    ensures
        cache_name(nanos_a as nat, hash_a as nat) != cache_name(nanos_b as nat, hash_b as nat),
{
    let a = cache_name(nanos_a as nat, hash_a as nat);
    let b = cache_name(nanos_b as nat, hash_b as nat);
    lemma_hex_len(nanos_a as nat, 32);
    lemma_hex_len(nanos_b as nat, 32);
    if a == b {
        assert(a.take(32) =~= hex_text(nanos_a as nat, 32));
        assert(b.take(32) =~= hex_text(nanos_b as nat, 32));
        lemma_hex_differs(nanos_a as nat, nanos_b as nat, 32);
        reveal_with_fuel(pow16, 33);
        assert(pow16(32) == 0x1_0000_0000_0000_0000 * 0x1_0000_0000_0000_0000) by {
            assert(pow16(16) == 0x1_0000_0000_0000_0000);
        }
        assert(u128::MAX as nat + 1 == 0x1_0000_0000_0000_0000 * 0x1_0000_0000_0000_0000);
        vstd::arithmetic::div_mod::lemma_small_mod(nanos_a as nat, pow16(32));
        vstd::arithmetic::div_mod::lemma_small_mod(nanos_b as nat, pow16(32));
    }
}

/// What is wrong with the path of a file that is said to keep the data of a
/// picture, given what the file system says of it.
pub open spec fn cache_path_problem(
    extension: Option<Seq<char>>,
    canonical: Result<Seq<char>, Seq<char>>,
    inside_cache: bool,
    cache_root: Seq<char>,
) -> Option<Seq<char>> {
    if extension != Some("b64"@) {
        Some("cache file must use .b64 extension"@)
    } else {
        match canonical {
            Err(e) => Some("cache file is not readable: "@ + e),
            Ok(_) => if inside_cache {
                None
            } else {
                Some("cache file is outside session image cache '"@ + cache_root + "'"@)
            },
        }
    }
}

/// Judges the path of a file that is said to keep the data of a picture. The
/// extension is that of the path as it was given; `canonical` is where it leads
/// to, and `inside_cache` says whether that is in the directory for such files.
pub fn resolve_image_cache_path(
    extension: Option<&str>,
    canonical: Result<String, String>,
    inside_cache: bool,
    cache_root: &str,
) -> (r: Result<String, String>)
    ensures
        ({
            let found = match canonical {
                Ok(p) => Ok(p@),
                Err(e) => Err(e@),
            };
            match r {
                Ok(p) => found == Ok::<Seq<char>, Seq<char>>(p@) && cache_path_problem(
                    opt_str(extension),
                    found,
                    inside_cache,
                    cache_root@,
                ) is None,
                Err(e) => cache_path_problem(
                    opt_str(extension),
                    found,
                    inside_cache,
                    cache_root@,
                ) == Some(e@),
            }
        }),
{
    let is_b64: bool = match extension {
        Some(e) => same(e, "b64"),
        None => false,
    };
    if !is_b64 {
        return Err(owned("cache file must use .b64 extension"));
    }
    match canonical {
        Err(e) => {
            let mut text = owned("cache file is not readable: ");
            text.append(e.as_str());
            Err(text)
        },
        Ok(p) => if inside_cache {
            Ok(p)
        } else {
            Err(concat3("cache file is outside session image cache '", cache_root, "'"))
        },
    }
}

// ---------------------------------------------------------------------------
// What is accepted
// ---------------------------------------------------------------------------

/// What is known of a reply before its body is read.
#[derive(Debug, PartialEq, Eq)]
pub struct ImageResponse {
    pub success: bool,
    pub status: String,
    pub content_type: String,
    /// The kind of content is one of those that are accepted.
    pub supported: bool,
    pub content_length: Option<u64>,
}

/// What is wrong with a reply, before its body is read.
pub open spec fn image_problem(url: Seq<char>, r: ImageResponse) -> Option<Seq<char>> {
    if !r.success {
        Some("Failed to fetch image "@ + url + " (HTTP "@ + r.status@ + ")"@)
    } else if !r.supported {
        Some(
            "Image fetch returned unsupported content type '"@ + (if r.content_type@.len() == 0 {
                "unknown"@
            } else {
                r.content_type@
            }) + "' for "@ + url,
        )
    } else if r.content_length is Some && r.content_length->0 > MAX_IMAGE_FETCH_BYTES {
        Some(
            "Image too large ("@ + decimal_spec(r.content_length->0 as nat)
                + " bytes, max 10485760): "@ + url,
        )
    } else {
        None
    }
}

/// Judges a reply before its body is read.
pub fn check_image_response(url: &str, response: &ImageResponse) -> (r: Result<(), String>)
    ensures
        problem(r) == image_problem(url@, *response),
{
    if !response.success {
        return Err(
            concat5("Failed to fetch image ", url, " (HTTP ", response.status.as_str(), ")"),
        );
    }
    if !response.supported {
        let kind: &str = if response.content_type.as_str().is_empty() {
            "unknown"
        } else {
            response.content_type.as_str()
        };
        let mut text = concat3("Image fetch returned unsupported content type '", kind, "' for ");
        text.append(url);
        return Err(text);
    }
    if let Some(n) = response.content_length {
        if n > MAX_IMAGE_FETCH_BYTES as u64 {
            let mut text = concat3(
                "Image too large (",
                decimal(n).as_str(),
                " bytes, max 10485760): ",
            );
            text.append(url);
            return Err(text);
        }
    }
    Ok(())
}

/// Takes a piece of a picture, unless the picture grows too large with it.
pub fn take_image_chunk(buf: &mut Vec<u8>, chunk: &Vec<u8>, url: &str) -> (r: Result<(), String>)
    requires
        old(buf)@.len() <= MAX_IMAGE_FETCH_BYTES,
    ensures
        problem(r) == (if old(buf)@.len() + chunk@.len() > MAX_IMAGE_FETCH_BYTES {
            Some("Image too large (exceeded 10485760 bytes): "@ + url@)
        } else {
            None
        }),
        final(buf)@ == (if r is Ok {
            old(buf)@ + chunk@
        } else {
            old(buf)@
        }),
        final(buf)@.len() <= MAX_IMAGE_FETCH_BYTES,
{
    if chunk.len() > MAX_IMAGE_FETCH_BYTES - buf.len() {
        let mut text = owned("Image too large (exceeded 10485760 bytes): ");
        text.append(url);
        return Err(text);
    }
    let ghost start = buf@;
    let mut i: usize = 0;
    assert(buf@ =~= start + chunk@.take(0));
    while i < chunk.len()
        invariant
            i <= chunk@.len(),
            buf@ == start + chunk@.take(i as int),
        decreases chunk@.len() - i,
    {
        buf.push(chunk[i]);
        i = i + 1;
        assert(buf@ =~= start + chunk@.take(i as int));
    }
    assert(chunk@.take(i as int) =~= chunk@);
    Ok(())
}

/// The standard Base64 notation of bytes, with padding.
pub uninterp spec fn base64_text(bytes: Seq<u8>) -> Seq<char>;

/// Calls `encode` of `base64`'s `general_purpose::STANDARD` engine. The text
/// depends on the bytes alone, and the same engine decodes it to them; the
/// notation itself stays unsaid.
#[verifier::external_body]
fn encode_base64(bytes: &Vec<u8>) -> (r: String)
    requires
        bytes@.len() <= MAX_IMAGE_FETCH_BYTES,
    ensures
        r@ == base64_text(bytes@),
        base64_bytes(r@) == Some(bytes@),
{
    base64::Engine::encode(&base64::engine::general_purpose::STANDARD, bytes)
}

/// The data of a picture that was fetched. What is found in the data is the
/// kind that the picture has.
pub fn finish_image(bytes: &Vec<u8>) -> (r: String)
    requires
        bytes@.len() <= MAX_IMAGE_FETCH_BYTES,
    ensures
        r@ == base64_text(bytes@),
        base64_bytes(r@) == Some(bytes@),
        decoded_kind(base64_bytes(r@)) == picture_kind(bytes@),
{
    encode_base64(bytes)
}

} // verus!
