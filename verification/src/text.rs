//! Text as sequences of characters: trimming, searching, joining, rendering
//! numbers, and the small vocabulary the validators use to say what is wrong
//! with a value.

use vstd::prelude::*;
use vstd::string::*;
use vstd::utf8::{encode_scalar, encode_utf8};

verus! {

/// `String::push` appends one character at the end.
pub assume_specification[ String::push ](s: &mut String, c: char)
    ensures
        final(s)@ == old(s)@.push(c),
;

/// `==` on `str` compares the two texts character for character.
pub assume_specification[ <str as PartialEq>::eq ](s: &str, other: &str) -> (res: bool)
    ensures
        res == (s@ == other@),
;

// ---------------------------------------------------------------------------
// Basic conversions
// ---------------------------------------------------------------------------

/// The characters of `s`, in order.
pub fn chars_of(s: &str) -> (v: Vec<char>)
    ensures
        v@ == s@,
{
    let mut v: Vec<char> = Vec::new();
    for c in it: s.chars()
        invariant
            v@ == it.seq().take(it.index() as int),
    {
        v.push(c);
    }
    v
}

/// The text made of the characters `v[from..to]`.
pub fn text_between(v: &Vec<char>, from: usize, to: usize) -> (s: String)
    requires
        from <= to <= v@.len(),
    ensures
        s@ == v@.subrange(from as int, to as int),
{
    let mut s = String::new();
    let mut i: usize = from;
    while i < to
        invariant
            from <= i <= to <= v@.len(),
            s@ == v@.subrange(from as int, i as int),
        decreases to - i,
    {
        s.push(v[i]);
        i = i + 1;
    }
    s
}

/// The number of UTF-8 bytes that `s` takes.
pub open spec fn byte_len(s: Seq<char>) -> nat {
    encode_utf8(s).len()
}

/// The number of UTF-8 bytes of `s`.
pub fn byte_count(s: &str) -> (n: usize)
    ensures
        n == byte_len(s@),
{
    s.as_bytes().len()
}

/// The number of characters of `s`.
pub fn char_count(s: &str) -> (n: usize)
    ensures
        n == s@.len(),
{
    s.unicode_len()
}

/// An owned copy of `s`.
pub fn owned(s: &str) -> (r: String)
    ensures
        r@ == s@,
{
    s.to_owned()
}

/// Whether the two texts are the same.
pub fn same(a: &str, b: &str) -> (r: bool)
    ensures
        r == (a@ == b@),
{
    *a == *b
}

/// The texts behind a list of strings.
pub open spec fn texts(v: Seq<String>) -> Seq<Seq<char>> {
    v.map_values(|s: String| s@)
}

/// The text behind an optional string.
pub open spec fn opt_text(o: Option<String>) -> Option<Seq<char>> {
    match o {
        Some(s) => Some(s@),
        None => None,
    }
}

/// The text behind an optional text slice.
pub open spec fn opt_str(o: Option<&str>) -> Option<Seq<char>> {
    match o {
        Some(s) => Some(s@),
        None => None,
    }
}

/// An optional text as a slice.
pub fn opt_slice_of(o: &Option<String>) -> (r: Option<&str>)
    ensures
        opt_str(r) == opt_text(*o),
{
    match o {
        Some(s) => Some(s.as_str()),
        None => None,
    }
}

/// A copy of an optional string.
pub fn clone_opt(o: &Option<String>) -> (r: Option<String>)
    ensures
        opt_text(r) == opt_text(*o),
{
    match o {
        Some(s) => Some(s.clone()),
        None => None,
    }
}

/// Whether two optional strings are equal.
pub fn same_opt(a: &Option<String>, b: &Option<String>) -> (r: bool)
    ensures
        r == (opt_text(*a) == opt_text(*b)),
{
    match (a, b) {
        (Some(x), Some(y)) => same(x.as_str(), y.as_str()),
        (None, None) => true,
        _ => false,
    }
}

/// Whether `s` is one of the strings of `v`.
pub fn contains_text(v: &Vec<String>, s: &str) -> (r: bool)
    ensures
        r == texts(v@).contains(s@),
{
    let mut i: usize = 0;
    while i < v.len()
        invariant
            i <= v@.len(),
            forall|j: int| 0 <= j < i ==> texts(v@)[j] != s@,
        decreases v@.len() - i,
    {
        if same(v[i].as_str(), s) {
            assert(texts(v@)[i as int] == s@);
            return true;
        }
        i = i + 1;
    }
    false
}

// ---------------------------------------------------------------------------
// White space
// ---------------------------------------------------------------------------

/// The characters with Unicode's `White_Space` property.
pub open spec fn is_space(c: char) -> bool {
    let n = c as int;
    ||| 0x09 <= n <= 0x0d
    ||| n == 0x20
    ||| n == 0x85
    ||| n == 0xa0
    ||| n == 0x1680
    ||| 0x2000 <= n <= 0x200a
    ||| n == 0x2028
    ||| n == 0x2029
    ||| n == 0x202f
    ||| n == 0x205f
    ||| n == 0x3000
}

/// Whether `c` is white space.
pub fn space(c: char) -> (r: bool)
    ensures
        r == is_space(c),
{
    let n: u32 = c as u32;
    (0x09 <= n && n <= 0x0d) || n == 0x20 || n == 0x85 || n == 0xa0 || n == 0x1680 || (0x2000 <= n
        && n <= 0x200a) || n == 0x2028 || n == 0x2029 || n == 0x202f || n == 0x205f || n == 0x3000
}

/// `s` without its leading white space.
pub open spec fn trim_start_spec(s: Seq<char>) -> Seq<char>
    decreases s.len(),
{
    if s.len() > 0 && is_space(s[0]) {
        trim_start_spec(s.skip(1))
    } else {
        s
    }
}

/// `s` without its trailing white space.
pub open spec fn trim_end_spec(s: Seq<char>) -> Seq<char>
    decreases s.len(),
{
    if s.len() > 0 && is_space(s.last()) {
        trim_end_spec(s.drop_last())
    } else {
        s
    }
}

/// `s` without white space at either end.
pub open spec fn trimmed(s: Seq<char>) -> Seq<char> {
    trim_end_spec(trim_start_spec(s))
}

/// `s` without white space at either end.
pub fn trim(s: &str) -> (r: String)
    ensures
        r@ == trimmed(s@),
{
    let v = chars_of(s);
    let n: usize = v.len();
    let mut i: usize = 0;
    assert(v@.skip(0) =~= v@);
    while i < n && space(v[i])
        invariant
            i <= n == v@.len(),
            trim_start_spec(v@.skip(i as int)) == trim_start_spec(v@),
        decreases n - i,
    {
        assert(v@.skip(i as int).skip(1) =~= v@.skip(i + 1));
        i = i + 1;
    }
    let mut k: usize = n;
    let ghost head = v@.skip(i as int);
    assert(head == trim_start_spec(v@));
    assert(head.take(n - i) =~= head);
    while k > i && space(v[k - 1])
        invariant
            i <= k <= n == v@.len(),
            head == v@.skip(i as int),
            trim_end_spec(head.take(k - i)) == trim_end_spec(head),
        decreases k,
    {
        assert(head.take(k - i).drop_last() =~= head.take(k - 1 - i));
        k = k - 1;
    }
    assert(head.take(k - i) =~= v@.subrange(i as int, k as int));
    text_between(&v, i, k)
}

/// `s` without its leading white space.
pub fn trim_start(s: &str) -> (r: String)
    ensures
        r@ == trim_start_spec(s@),
{
    let v = chars_of(s);
    let n: usize = v.len();
    let mut i: usize = 0;
    assert(v@.skip(0) =~= v@);
    while i < n && space(v[i])
        invariant
            i <= n == v@.len(),
            trim_start_spec(v@.skip(i as int)) == trim_start_spec(v@),
        decreases n - i,
    {
        assert(v@.skip(i as int).skip(1) =~= v@.skip(i + 1));
        i = i + 1;
    }
    assert(v@.skip(i as int) =~= v@.subrange(i as int, n as int));
    text_between(&v, i, n)
}

/// What trimming leaves starts and ends with something other than white space.
pub proof fn lemma_trimmed_edges(s: Seq<char>)
    ensures
        trimmed(s).len() > 0 ==> !is_space(trimmed(s)[0]) && !is_space(trimmed(s).last()),
        trimmed(s).len() <= s.len(),
{
    lemma_trim_start_edge(s);
    lemma_trim_end_edge(trim_start_spec(s));
}

proof fn lemma_trim_start_edge(s: Seq<char>)
    ensures
        trim_start_spec(s).len() > 0 ==> !is_space(trim_start_spec(s)[0]),
        trim_start_spec(s).len() <= s.len(),
    decreases s.len(),
{
    if s.len() > 0 && is_space(s[0]) {
        lemma_trim_start_edge(s.skip(1));
    }
}

proof fn lemma_trim_end_edge(s: Seq<char>)
    ensures
        trim_end_spec(s).len() > 0 ==> !is_space(trim_end_spec(s).last()),
        trim_end_spec(s).len() > 0 ==> trim_end_spec(s)[0] == s[0],
        trim_end_spec(s).len() <= s.len(),
    decreases s.len(),
{
    if s.len() > 0 && is_space(s.last()) {
        lemma_trim_end_edge(s.drop_last());
    }
}

/// Trimming twice changes nothing more.
pub proof fn lemma_trimmed_idempotent(s: Seq<char>)
    ensures
        trimmed(trimmed(s)) == trimmed(s),
{
    lemma_trimmed_edges(s);
}

/// A text that neither starts nor ends with white space is trimmed already.
pub proof fn lemma_trimmed_already(s: Seq<char>)
    requires
        s.len() > 0 ==> !is_space(s[0]) && !is_space(s.last()),
    ensures
        trimmed(s) == s,
{
}

// ---------------------------------------------------------------------------
// Searching
// ---------------------------------------------------------------------------

/// `needle` stands in `hay` at position `i`.
pub open spec fn stands_at(hay: Seq<char>, needle: Seq<char>, i: int) -> bool {
    0 <= i && i + needle.len() <= hay.len() && hay.subrange(i, i + needle.len()) == needle
}

/// `needle` stands somewhere in `hay`.
pub open spec fn holds_text(hay: Seq<char>, needle: Seq<char>) -> bool {
    exists|i: int| stands_at(hay, needle, i)
}

/// Whether `needle` stands in `hay` at position `i`.
pub fn match_at(hay: &Vec<char>, needle: &Vec<char>, i: usize) -> (r: bool)
    requires
        i <= hay@.len(),
    ensures
        r == stands_at(hay@, needle@, i as int),
{
    let total: usize = hay.len();
    if needle.len() > total - i {
        return false;
    }
    let mut k: usize = 0;
    while k < needle.len()
        invariant
            k <= needle@.len(),
            total == hay@.len(),
            i + needle@.len() <= total,
            forall|j: int| 0 <= j < k ==> hay@[i + j] == needle@[j],
        decreases needle@.len() - k,
    {
        if hay[i + k] != needle[k] {
            assert(hay@.subrange(i as int, i + needle@.len())[k as int] != needle@[k as int]);
            return false;
        }
        k = k + 1;
    }
    assert(hay@.subrange(i as int, i + needle@.len()) =~= needle@);
    true
}

/// The first position at or after `from` where `needle` stands in `hay`.
pub fn find_from(hay: &Vec<char>, needle: &Vec<char>, from: usize) -> (r: Option<usize>)
    requires
        from <= hay@.len(),
    ensures
        match r {
            Some(i) => from <= i <= hay@.len() && stands_at(hay@, needle@, i as int) && forall|j: int|
                from <= j < i ==> !stands_at(hay@, needle@, j),
            None => forall|j: int| from <= j ==> !stands_at(hay@, needle@, j),
        },
{
    let mut i: usize = from;
    loop
        invariant
            from <= i <= hay@.len(),
            forall|j: int| from <= j < i ==> !stands_at(hay@, needle@, j),
        decreases hay@.len() - i,
    {
        if match_at(hay, needle, i) {
            return Some(i);
        }
        if i == hay.len() {
            return None;
        }
        i = i + 1;
    }
}

/// Whether `needle` stands somewhere in `hay`.
pub fn contains(hay: &str, needle: &str) -> (r: bool)
    ensures
        r == holds_text(hay@, needle@),
{
    let h = chars_of(hay);
    let n = chars_of(needle);
    match find_from(&h, &n, 0) {
        Some(i) => {
            assert(stands_at(hay@, needle@, i as int));
            true
        },
        None => {
            assert forall|j: int| !stands_at(hay@, needle@, j) by {}
            false
        },
    }
}

/// `s` begins with `p`.
pub open spec fn begins(s: Seq<char>, p: Seq<char>) -> bool {
    p.len() <= s.len() && s.take(p.len() as int) == p
}

/// `s` ends with `p`.
pub open spec fn ends(s: Seq<char>, p: Seq<char>) -> bool {
    p.len() <= s.len() && s.skip(s.len() - p.len()) == p
}

/// Whether `s` begins with `p`.
pub fn starts_with(s: &str, p: &str) -> (r: bool)
    ensures
        r == begins(s@, p@),
{
    let h = chars_of(s);
    let n = chars_of(p);
    let r = match_at(&h, &n, 0);
    assert(n@.len() <= h@.len() ==> h@.subrange(0, n@.len() as int) =~= h@.take(n@.len() as int));
    r
}

/// Whether `s` ends with `p`.
pub fn ends_with(s: &str, p: &str) -> (r: bool)
    ensures
        r == ends(s@, p@),
{
    let h = chars_of(s);
    let n = chars_of(p);
    if n.len() > h.len() {
        return false;
    }
    let r = match_at(&h, &n, h.len() - n.len());
    assert(h@.subrange(h@.len() - n@.len(), h@.len() as int) =~= h@.skip(h@.len() - n@.len()));
    r
}

/// What follows the prefix `p` in `s`, if `s` begins with it.
pub fn strip_prefix(s: &str, p: &str) -> (r: Option<String>)
    ensures
        match r {
            Some(t) => begins(s@, p@) && t@ == s@.skip(p@.len() as int),
            None => !begins(s@, p@),
        },
{
    if starts_with(s, p) {
        let h = chars_of(s);
        let k: usize = char_count(p);
        assert(s@.skip(k as int) =~= h@.subrange(k as int, h@.len() as int));
        Some(text_between(&h, k, h.len()))
    } else {
        None
    }
}

/// The first `n` characters of `s`, or all of it.
pub open spec fn take_at_most(s: Seq<char>, n: nat) -> Seq<char> {
    if s.len() <= n {
        s
    } else {
        s.take(n as int)
    }
}

/// The first `n` characters of `s`, or all of it.
pub fn take_chars(s: &str, n: usize) -> (r: String)
    ensures
        r@ == take_at_most(s@, n as nat),
{
    let v = chars_of(s);
    if v.len() <= n {
        return owned(s);
    }
    assert(v@.take(n as int) =~= v@.subrange(0, n as int));
    text_between(&v, 0, n)
}

/// The number of UTF-8 bytes of one character.
pub open spec fn char_width(c: char) -> nat {
    encode_scalar(c as u32).len()
}

/// The number of UTF-8 bytes of `c`.
pub fn width(c: char) -> (n: usize)
    ensures
        n == char_width(c),
        1 <= n <= 4,
{
    let v: u32 = c as u32;
    if v <= 0x7f {
        1
    } else if v <= 0x7ff {
        2
    } else if v <= 0xffff {
        3
    } else {
        4
    }
}

/// The longest beginning of `s` that takes at most `max` UTF-8 bytes.
pub open spec fn clipped(s: Seq<char>, max: nat) -> Seq<char>
    decreases s.len(),
{
    if s.len() == 0 || char_width(s[0]) > max {
        Seq::empty()
    } else {
        seq![s[0]] + clipped(s.skip(1), (max - char_width(s[0])) as nat)
    }
}

/// What clipping leaves has no more characters than the limit has bytes, and at
/// least one where there is room for any.
pub proof fn lemma_clipped_len(s: Seq<char>, max: nat)
    ensures
        clipped(s, max).len() <= max,
        s.len() > 0 && max >= 4 ==> clipped(s, max).len() > 0,
    decreases s.len(),
{
    if s.len() > 0 && char_width(s[0]) <= max {
        lemma_clipped_len(s.skip(1), (max - char_width(s[0])) as nat);
    }
}

/// What clipping leaves is a beginning of the text within the limit, the next
/// character does not fit, and a text within the limit is left whole.
pub proof fn law_clipped(s: Seq<char>, max: nat)
    ensures
        ({
            let t = clipped(s, max);
            &&& t.len() <= s.len()
            &&& t == s.take(t.len() as int)
            &&& byte_len(t) <= max
            &&& (t.len() < s.len() ==> byte_len(t) + char_width(s[t.len() as int]) > max)
            &&& (byte_len(s) <= max ==> t == s)
        }),
    decreases s.len(),
{
    let t = clipped(s, max);
    if s.len() == 0 || char_width(s[0]) > max {
        assert(t =~= s.take(0));
        if s.len() > 0 {
            assert(byte_len(s) == char_width(s[0]) + byte_len(s.drop_first()));
        } else {
            assert(t =~= s);
        }
    } else {
        let rest = (max - char_width(s[0])) as nat;
        law_clipped(s.skip(1), rest);
        let u = clipped(s.skip(1), rest);
        assert(t.drop_first() =~= u);
        assert(t =~= s.take(t.len() as int));
        assert(s.skip(1) =~= s.drop_first());
        assert(byte_len(t) == char_width(s[0]) + byte_len(u));
        assert(byte_len(s) == char_width(s[0]) + byte_len(s.drop_first()));
        if t.len() < s.len() {
            assert(s.skip(1)[u.len() as int] == s[t.len() as int]);
        }
        if byte_len(s) <= max {
            assert(t =~= s);
        }
    }
}

/// The longest beginning of `s` that takes at most `max` UTF-8 bytes.
pub fn clip(s: &str, max: usize) -> (r: String)
    ensures
        r@ == clipped(s@, max as nat),
{
    let v = chars_of(s);
    let mut out = String::new();
    let mut left: usize = max;
    let mut i: usize = 0;
    assert(v@.skip(0) =~= v@);
    assert(Seq::<char>::empty() + clipped(v@, max as nat) =~= clipped(v@, max as nat));
    while i < v.len()
        invariant
            i <= v@.len(),
            v@ == s@,
            out@ + clipped(v@.skip(i as int), left as nat) == clipped(s@, max as nat),
        decreases v@.len() - i,
    {
        let c: char = v[i];
        let w: usize = width(c);
        let ghost rest = v@.skip(i as int);
        assert(rest[0] == c);
        if w > left {
            assert(out@ + Seq::<char>::empty() =~= out@);
            return out;
        }
        let ghost tail = clipped(rest.skip(1), (left - w) as nat);
        assert(rest.skip(1) =~= v@.skip(i + 1));
        assert(out@ + (seq![c] + tail) =~= out@.push(c) + tail);
        out.push(c);
        left = left - w;
        i = i + 1;
    }
    assert(out@ + clipped(v@.skip(i as int), left as nat) =~= out@);
    out
}

// ---------------------------------------------------------------------------
// ASCII case
// ---------------------------------------------------------------------------

/// The ASCII lower-case form of one character.
pub open spec fn ascii_lower_char(c: char) -> char {
    if 'A' <= c && c <= 'Z' {
        ((c as u32) + 32) as char
    } else {
        c
    }
}

/// `s` with ASCII upper-case letters replaced by lower-case ones.
pub open spec fn ascii_lower(s: Seq<char>) -> Seq<char> {
    s.map_values(|c: char| ascii_lower_char(c))
}

/// The ASCII lower-case form of `c`.
pub fn lower_char(c: char) -> (r: char)
    ensures
        r == ascii_lower_char(c),
{
    if 'A' <= c && c <= 'Z' {
        ((c as u8) + 32) as char
    } else {
        c
    }
}

/// `s` with ASCII upper-case letters replaced by lower-case ones.
pub fn to_ascii_lower(s: &str) -> (r: String)
    ensures
        r@ == ascii_lower(s@),
{
    let v = chars_of(s);
    let mut out = String::new();
    let mut i: usize = 0;
    while i < v.len()
        invariant
            i <= v@.len(),
            out@ =~= ascii_lower(v@).take(i as int),
        decreases v@.len() - i,
    {
        out.push(lower_char(v[i]));
        i = i + 1;
    }
    assert(ascii_lower(v@).take(v@.len() as int) =~= ascii_lower(v@));
    out
}

/// The ASCII lower-case form holds no ASCII upper-case letter, so lowering
/// again changes nothing.
pub proof fn lemma_ascii_lower_idempotent(s: Seq<char>)
    ensures
        ascii_lower(ascii_lower(s)) == ascii_lower(s),
{
    assert(ascii_lower(ascii_lower(s)) =~= ascii_lower(s));
}

/// A decimal digit, an ASCII letter of either case.
pub open spec fn is_ascii_alnum(c: char) -> bool {
    ('0' <= c && c <= '9') || ('a' <= c && c <= 'z') || ('A' <= c && c <= 'Z')
}

/// Whether `c` is a decimal digit or an ASCII letter.
pub fn ascii_alnum(c: char) -> (r: bool)
    ensures
        r == is_ascii_alnum(c),
{
    ('0' <= c && c <= '9') || ('a' <= c && c <= 'z') || ('A' <= c && c <= 'Z')
}

/// A hexadecimal digit of either case.
pub open spec fn is_hex(c: char) -> bool {
    ('0' <= c && c <= '9') || ('a' <= c && c <= 'f') || ('A' <= c && c <= 'F')
}

/// Whether `c` is a hexadecimal digit.
pub fn hex_digit(c: char) -> (r: bool)
    ensures
        r == is_hex(c),
{
    ('0' <= c && c <= '9') || ('a' <= c && c <= 'f') || ('A' <= c && c <= 'F')
}

// ---------------------------------------------------------------------------
// Joining and replacing
// ---------------------------------------------------------------------------

/// The texts of `parts` with `sep` between neighbours.
pub open spec fn joined(parts: Seq<Seq<char>>, sep: Seq<char>) -> Seq<char>
    decreases parts.len(),
{
    if parts.len() == 0 {
        Seq::empty()
    } else if parts.len() == 1 {
        parts[0]
    } else {
        joined(parts.drop_last(), sep) + sep + parts.last()
    }
}

/// The strings of `parts` with `sep` between neighbours.
pub fn join(parts: &Vec<String>, sep: &str) -> (r: String)
    ensures
        r@ == joined(texts(parts@), sep@),
{
    let mut out = String::new();
    let mut i: usize = 0;
    assert(texts(parts@).take(0) =~= Seq::<Seq<char>>::empty());
    while i < parts.len()
        invariant
            i <= parts@.len(),
            out@ == joined(texts(parts@).take(i as int), sep@),
        decreases parts@.len() - i,
    {
        let ghost before = texts(parts@).take(i as int);
        let ghost after = texts(parts@).take(i + 1);
        assert(after.drop_last() =~= before);
        assert(after.last() == parts@[i as int]@);
        if i > 0 {
            out.append(sep);
        } else {
            assert(out@ =~= Seq::<char>::empty());
        }
        out.append(parts[i].as_str());
        assert(i == 0 ==> out@ =~= parts@[0]@);
        i = i + 1;
    }
    assert(texts(parts@).take(i as int) =~= texts(parts@));
    out
}

/// `s` with each `from` replaced by `to`.
pub open spec fn replaced_char(s: Seq<char>, from: char, to: Seq<char>) -> Seq<char>
    decreases s.len(),
{
    if s.len() == 0 {
        Seq::empty()
    } else if s.last() == from {
        replaced_char(s.drop_last(), from, to) + to
    } else {
        replaced_char(s.drop_last(), from, to).push(s.last())
    }
}

/// `s` with each `from` replaced by `to`.
pub fn replace_char(s: &str, from: char, to: &str) -> (r: String)
    ensures
        r@ == replaced_char(s@, from, to@),
{
    let v = chars_of(s);
    let mut out = String::new();
    let mut i: usize = 0;
    while i < v.len()
        invariant
            i <= v@.len(),
            out@ == replaced_char(v@.take(i as int), from, to@),
        decreases v@.len() - i,
    {
        assert(v@.take(i + 1).drop_last() =~= v@.take(i as int));
        if v[i] == from {
            out.append(to);
        } else {
            out.push(v[i]);
        }
        i = i + 1;
    }
    assert(v@.take(i as int) =~= v@);
    out
}

// ---------------------------------------------------------------------------
// Numbers
// ---------------------------------------------------------------------------

/// The character of a decimal digit.
pub open spec fn digit_spec(d: nat) -> char {
    if d == 0 {
        '0'
    } else if d == 1 {
        '1'
    } else if d == 2 {
        '2'
    } else if d == 3 {
        '3'
    } else if d == 4 {
        '4'
    } else if d == 5 {
        '5'
    } else if d == 6 {
        '6'
    } else if d == 7 {
        '7'
    } else if d == 8 {
        '8'
    } else {
        '9'
    }
}

/// The decimal notation of `n`, without leading zeros.
pub open spec fn decimal_spec(n: nat) -> Seq<char>
    decreases n,
{
    if n < 10 {
        seq![digit_spec(n)]
    } else {
        decimal_spec(n / 10).push(digit_spec(n % 10))
    }
}

/// The character of the decimal digit `d`.
pub fn digit(d: u64) -> (c: char)
    requires
        d < 10,
    ensures
        c == digit_spec(d as nat),
{
    match d {
        0 => '0',
        1 => '1',
        2 => '2',
        3 => '3',
        4 => '4',
        5 => '5',
        6 => '6',
        7 => '7',
        8 => '8',
        _ => '9',
    }
}

/// The decimal notation of `n`.
pub fn decimal(n: u64) -> (s: String)
    ensures
        s@ == decimal_spec(n as nat),
    decreases n,
{
    if n < 10 {
        let mut s = String::new();
        s.push(digit(n));
        assert(s@ =~= seq![digit_spec(n as nat)]);
        s
    } else {
        let mut s = decimal(n / 10);
        s.push(digit(n % 10));
        s
    }
}

/// The decimal notation of a wide number.
pub fn decimal_wide(n: u128) -> (s: String)
    ensures
        s@ == decimal_spec(n as nat),
    decreases n,
{
    if n < 10 {
        let mut s = String::new();
        s.push(digit(n as u64));
        assert(s@ =~= seq![digit_spec(n as nat)]);
        s
    } else {
        let mut s = decimal_wide(n / 10);
        s.push(digit((n % 10) as u64));
        s
    }
}

// ---------------------------------------------------------------------------
// Words and lines
// ---------------------------------------------------------------------------

/// How many characters of `s` come before its first white space.
pub open spec fn word_len(s: Seq<char>) -> nat
    decreases s.len(),
{
    if s.len() == 0 || is_space(s[0]) {
        0
    } else {
        1 + word_len(s.skip(1))
    }
}

/// The pieces of `s` between white space.
pub open spec fn words(s: Seq<char>) -> Seq<Seq<char>>
    decreases s.len(),
{
    let t = trim_start_spec(s);
    if t.len() == 0 || t.len() > s.len() || word_len(t) == 0 || word_len(t) > t.len() {
        Seq::empty()
    } else {
        seq![t.take(word_len(t) as int)] + words(t.skip(word_len(t) as int))
    }
}

/// The pieces of `s` between white space.
pub fn split_words(s: &str) -> (r: Vec<String>)
    ensures
        texts(r@) == words(s@),
{
    let v = chars_of(s);
    let n: usize = v.len();
    let mut out: Vec<String> = Vec::new();
    let mut i: usize = 0;
    assert(v@.skip(0) =~= v@);
    assert(texts(out@) + words(v@) =~= words(s@));
    loop
        invariant
            i <= n == v@.len(),
            texts(out@) + words(v@.skip(i as int)) == words(s@),
        decreases n - i,
    {
        let ghost rest = v@.skip(i as int);
        let mut a: usize = i;
        assert(v@.skip(a as int) =~= rest);
        while a < n && space(v[a])
            invariant
                i <= a <= n == v@.len(),
                trim_start_spec(v@.skip(a as int)) == trim_start_spec(rest),
            decreases n - a,
        {
            assert(v@.skip(a as int).skip(1) =~= v@.skip(a + 1));
            a = a + 1;
        }
        let ghost t = v@.skip(a as int);
        assert(t == trim_start_spec(rest));
        if a == n {
            assert(texts(out@) + words(rest) =~= texts(out@));
            return out;
        }
        let mut b: usize = a;
        assert(v@.skip(b as int) =~= t);
        while b < n && !space(v[b])
            invariant
                a <= b <= n == v@.len(),
                (b - a) + word_len(v@.skip(b as int)) == word_len(t),
            decreases n - b,
        {
            assert(v@.skip(b as int).skip(1) =~= v@.skip(b + 1));
            b = b + 1;
        }
        assert(word_len(v@.skip(b as int)) == 0);
        assert(b > a) by {
            assert(t[0] == v@[a as int]);
            if b == a {
                assert(word_len(t) == 0);
            }
        }
        let word = text_between(&v, a, b);
        assert(word@ =~= t.take(b - a));
        assert(t.skip(b - a) =~= v@.skip(b as int));
        let ghost before = texts(out@);
        let ghost tail = words(v@.skip(b as int));
        assert(words(rest) == seq![word@] + tail);
        out.push(word);
        assert(texts(out@) =~= before.push(word@));
        assert(before + (seq![word@] + tail) =~= before.push(word@) + tail);
        i = b;
    }
}

/// A line without the carriage return at its end.
pub open spec fn without_cr(s: Seq<char>) -> Seq<char> {
    if s.len() > 0 && s.last() == '\r' {
        s.drop_last()
    } else {
        s
    }
}

/// The position of the first `c` in `s`, or the length of `s`.
pub open spec fn first_pos(s: Seq<char>, c: char) -> nat
    decreases s.len(),
{
    if s.len() == 0 || s[0] == c {
        0
    } else {
        1 + first_pos(s.skip(1), c)
    }
}

/// The first `c` in `s` stands at the position found, and not before.
pub proof fn lemma_first_pos(s: Seq<char>, c: char)
    ensures
        first_pos(s, c) <= s.len(),
        first_pos(s, c) < s.len() ==> s[first_pos(s, c) as int] == c,
        forall|i: int| 0 <= i < first_pos(s, c) ==> s[i] != c,
    decreases s.len(),
{
    if s.len() > 0 && s[0] != c {
        lemma_first_pos(s.skip(1), c);
        assert forall|i: int| 0 <= i < first_pos(s, c) implies s[i] != c by {
            if i > 0 {
                assert(s.skip(1)[i - 1] == s[i]);
            }
        }
    }
}

/// The lines of `s`, without their ends.
pub open spec fn lines_of(s: Seq<char>) -> Seq<Seq<char>>
    decreases s.len(),
{
    let k = first_pos(s, '\n');
    if s.len() == 0 {
        Seq::empty()
    } else if k >= s.len() {
        seq![s]
    } else {
        seq![without_cr(s.take(k as int))] + lines_of(s.skip(k as int + 1))
    }
}

/// The lines of `s`, without their ends.
pub fn lines(s: &str) -> (r: Vec<String>)
    ensures
        texts(r@) == lines_of(s@),
{
    let v = chars_of(s);
    let n: usize = v.len();
    let mut out: Vec<String> = Vec::new();
    let mut i: usize = 0;
    assert(v@.skip(0) =~= v@);
    assert(texts(out@) + lines_of(v@) =~= lines_of(s@));
    while i < n
        invariant
            i <= n == v@.len(),
            texts(out@) + lines_of(v@.skip(i as int)) == lines_of(s@),
        decreases n - i,
    {
        let ghost rest = v@.skip(i as int);
        let mut k: usize = i;
        assert(v@.skip(k as int) =~= rest);
        while k < n && v[k] != '\n'
            invariant
                i <= k <= n == v@.len(),
                (k - i) + first_pos(v@.skip(k as int), '\n') == first_pos(rest, '\n'),
            decreases n - k,
        {
            assert(v@.skip(k as int).skip(1) =~= v@.skip(k + 1));
            k = k + 1;
        }
        assert(first_pos(v@.skip(k as int), '\n') == 0);
        let ghost before = texts(out@);
        if k == n {
            let line = text_between(&v, i, n);
            assert(line@ =~= rest);
            out.push(line);
            assert(texts(out@) =~= before.push(line@));
            assert(before + seq![rest] =~= before.push(rest));
            return out;
        }
        let mut end: usize = k;
        if k > i && v[k - 1] == '\r' {
            end = k - 1;
        }
        let line = text_between(&v, i, end);
        assert(rest.take(k - i) =~= v@.subrange(i as int, k as int));
        assert(line@ =~= without_cr(rest.take(k - i)));
        assert(rest.skip(k - i + 1) =~= v@.skip(k + 1));
        let ghost tail = lines_of(v@.skip(k + 1));
        out.push(line);
        assert(texts(out@) =~= before.push(line@));
        assert(before + (seq![line@] + tail) =~= before.push(line@) + tail);
        i = k + 1;
    }
    assert(texts(out@) + lines_of(v@.skip(i as int)) =~= texts(out@));
    out
}

/// `s` without any of the given characters at its front.
pub open spec fn strip_front(s: Seq<char>, set: Seq<char>) -> Seq<char>
    decreases s.len(),
{
    if s.len() > 0 && set.contains(s[0]) {
        strip_front(s.skip(1), set)
    } else {
        s
    }
}

/// `s` without any of the given characters at its end.
pub open spec fn strip_back(s: Seq<char>, set: Seq<char>) -> Seq<char>
    decreases s.len(),
{
    if s.len() > 0 && set.contains(s.last()) {
        strip_back(s.drop_last(), set)
    } else {
        s
    }
}

fn is_one_of(c: char, set: &Vec<char>) -> (r: bool)
    ensures
        r == set@.contains(c),
{
    let mut i: usize = 0;
    while i < set.len()
        invariant
            i <= set@.len(),
            forall|j: int| 0 <= j < i ==> set@[j] != c,
        decreases set@.len() - i,
    {
        if set[i] == c {
            return true;
        }
        i = i + 1;
    }
    false
}

/// `s` without any of the characters of `set` at either end.
pub fn trim_chars(s: &str, set: &str) -> (r: String)
    ensures
        r@ == strip_back(strip_front(s@, set@), set@),
{
    let v = chars_of(s);
    let set = chars_of(set);
    let n: usize = v.len();
    let mut i: usize = 0;
    assert(v@.skip(0) =~= v@);
    while i < n && is_one_of(v[i], &set)
        invariant
            i <= n == v@.len(),
            strip_front(v@.skip(i as int), set@) == strip_front(v@, set@),
        decreases n - i,
    {
        assert(v@.skip(i as int).skip(1) =~= v@.skip(i + 1));
        i = i + 1;
    }
    let mut k: usize = n;
    let ghost head = v@.skip(i as int);
    assert(head == strip_front(v@, set@));
    assert(head.take(n - i) =~= head);
    while k > i && is_one_of(v[k - 1], &set)
        invariant
            i <= k <= n == v@.len(),
            head == v@.skip(i as int),
            strip_back(head.take(k - i), set@) == strip_back(head, set@),
        decreases k,
    {
        assert(head.take(k - i).drop_last() =~= head.take(k - 1 - i));
        k = k - 1;
    }
    assert(head.take(k - i) =~= v@.subrange(i as int, k as int));
    text_between(&v, i, k)
}

/// `s` without the leading characters of `set`.
pub fn trim_start_chars(s: &str, set: &str) -> (r: String)
    ensures
        r@ == strip_front(s@, set@),
{
    let v = chars_of(s);
    let set = chars_of(set);
    let n: usize = v.len();
    let mut i: usize = 0;
    assert(v@.skip(0) =~= v@);
    while i < n && is_one_of(v[i], &set)
        invariant
            n == v@.len(),
            i <= n,
            strip_front(v@.skip(i as int), set@) == strip_front(v@, set@),
        decreases n - i,
    {
        assert(v@.skip(i as int)[0] == v@[i as int]);
        assert(v@.skip(i as int).skip(1) =~= v@.skip(i + 1));
        i = i + 1;
    }
    let r = text_between(&v, i, n);
    assert(r@ =~= v@.skip(i as int));
    r
}

/// `s` without any of the characters of `set` at its end.
pub fn trim_end_chars(s: &str, set: &str) -> (r: String)
    ensures
        r@ == strip_back(s@, set@),
{
    let v = chars_of(s);
    let set = chars_of(set);
    let n: usize = v.len();
    let mut k: usize = n;
    assert(v@.take(n as int) =~= v@);
    while k > 0 && is_one_of(v[k - 1], &set)
        invariant
            k <= n == v@.len(),
            strip_back(v@.take(k as int), set@) == strip_back(v@, set@),
        decreases k,
    {
        assert(v@.take(k as int).drop_last() =~= v@.take(k - 1));
        k = k - 1;
    }
    assert(v@.take(k as int) =~= v@.subrange(0, k as int));
    text_between(&v, 0, k)
}

/// `s` where it takes at most `max` bytes, else its beginning and a note on
/// what is left out.
pub open spec fn truncated(s: Seq<char>, max: nat) -> Seq<char> {
    if byte_len(s) <= max {
        s
    } else {
        clipped(s, max) + "\n... [truncated at "@ + decimal_spec(byte_len(clipped(s, max)))
            + " bytes, total "@ + decimal_spec(byte_len(s)) + " bytes]"@
    }
}

/// `s` where it takes at most `max` bytes, else its beginning up to a whole
/// character and a note on what is left out.
pub fn truncate(s: &str, max: usize) -> (r: String)
    ensures
        r@ == truncated(s@, max as nat),
{
    let total: usize = byte_count(s);
    if total <= max {
        return owned(s);
    }
    let mut out = clip(s, max);
    let kept: usize = byte_count(out.as_str());
    out.append("\n... [truncated at ");
    out.append(decimal(kept as u64).as_str());
    out.append(" bytes, total ");
    out.append(decimal(total as u64).as_str());
    out.append(" bytes]");
    out
}

/// `s` where it takes at most `max` bytes, else its beginning and an ellipsis.
pub open spec fn ellipsized(s: Seq<char>, max: nat) -> Seq<char> {
    if byte_len(s) <= max {
        s
    } else {
        clipped(s, max) + "…"@
    }
}

/// `s` where it takes at most `max` bytes, else its beginning and an ellipsis.
pub fn ellipsize(s: &str, max: usize) -> (r: String)
    ensures
        r@ == ellipsized(s@, max as nat),
{
    if byte_count(s) <= max {
        return owned(s);
    }
    let mut out = clip(s, max);
    out.append("…");
    out
}

// ---------------------------------------------------------------------------
// Unicode
// ---------------------------------------------------------------------------

/// The lower-case form of a text by Unicode's rules.
pub uninterp spec fn text_lowercase(s: Seq<char>) -> Seq<char>;

/// The lower-case form of one character by Unicode's rules.
pub uninterp spec fn char_lowercase(c: char) -> Seq<char>;

/// Whether a character is a letter or a number in Unicode.
pub uninterp spec fn char_alphanumeric(c: char) -> bool;

/// Only characters of ASCII.
pub open spec fn is_ascii(s: Seq<char>) -> bool {
    forall|i: int| 0 <= i < s.len() ==> (#[trigger] s[i] as int) < 128
}

/// The lower-case form of a text: that of ASCII for a text of ASCII, that of
/// Unicode for any other.
pub open spec fn lower_text(s: Seq<char>) -> Seq<char> {
    if is_ascii(s) {
        ascii_lower(s)
    } else {
        text_lowercase(s)
    }
}

/// Calls `str::to_lowercase`. Of a text of ASCII that is its ASCII lower-case
/// form. Of any other the result depends on the text alone; Unicode's tables
/// stay unsaid.
#[verifier::external_body]
pub(crate) fn to_lowercase(s: &str) -> (r: String)
    ensures
        is_ascii(s@) ==> r@ == ascii_lower(s@),
        !is_ascii(s@) ==> r@ == text_lowercase(s@),
{
    s.to_lowercase()
}

/// An ASCII letter or digit.
pub open spec fn is_ascii_alphanumeric(c: char) -> bool {
    ('a' <= c && c <= 'z') || ('A' <= c && c <= 'Z') || ('0' <= c && c <= '9')
}

/// The lower-case form of a character: that of ASCII for an ASCII character,
/// that of Unicode for any other.
pub open spec fn lower_form(c: char) -> Seq<char> {
    if (c as int) < 128 {
        seq![ascii_lower_char(c)]
    } else {
        char_lowercase(c)
    }
}

/// A letter or a digit of ASCII, or beyond ASCII a letter or a number of
/// Unicode.
pub open spec fn is_letter_or_number(c: char) -> bool {
    if (c as int) < 128 {
        is_ascii_alphanumeric(c)
    } else {
        char_alphanumeric(c)
    }
}

/// Calls `char::to_lowercase` and collects what it yields. Of an ASCII
/// character that is its ASCII lower-case form. Of any other the result depends
/// on the character alone; Unicode's tables stay unsaid.
#[verifier::external_body]
pub(crate) fn lowercase_char(c: char) -> (r: String)
    ensures
        (c as int) < 128 ==> r@ == seq![ascii_lower_char(c)],
        (c as int) >= 128 ==> r@ == char_lowercase(c),
{
    c.to_lowercase().to_string()
}

/// Calls `char::is_alphanumeric`. Of an ASCII character it says whether that is
/// a letter or a digit. Of any other the result depends on the character alone;
/// Unicode's tables stay unsaid.
#[verifier::external_body]
pub(crate) fn alphanumeric(c: char) -> (r: bool)
    ensures
        (c as int) < 128 ==> r == is_ascii_alphanumeric(c),
        (c as int) >= 128 ==> r == char_alphanumeric(c),
{
    c.is_alphanumeric()
}

// ---------------------------------------------------------------------------
// Order
// ---------------------------------------------------------------------------

/// `a` comes strictly before `b` when their characters are compared one by one
/// by code point, a proper prefix coming first.
pub open spec fn text_before(a: Seq<char>, b: Seq<char>) -> bool
    decreases a.len(),
{
    if b.len() == 0 {
        false
    } else if a.len() == 0 {
        true
    } else if a[0] != b[0] {
        (a[0] as int) < (b[0] as int)
    } else {
        text_before(a.skip(1), b.skip(1))
    }
}

/// Whether `a` comes strictly before `b` by code points.
pub fn before(a: &str, b: &str) -> (r: bool)
    ensures
        r == text_before(a@, b@),
{
    let x = chars_of(a);
    let y = chars_of(b);
    let mut i: usize = 0;
    assert(x@.skip(0) =~= x@);
    assert(y@.skip(0) =~= y@);
    loop
        invariant
            i <= x@.len(),
            i <= y@.len(),
            a@ == x@,
            b@ == y@,
            text_before(x@.skip(i as int), y@.skip(i as int)) == text_before(x@, y@),
        decreases x@.len() - i,
    {
        if i == y.len() {
            return false;
        }
        if i == x.len() {
            return true;
        }
        if x[i] != y[i] {
            let p: char = x[i];
            let q: char = y[i];
            return p < q;
        }
        assert(x@.skip(i as int).skip(1) =~= x@.skip(i + 1));
        assert(y@.skip(i as int).skip(1) =~= y@.skip(i + 1));
        i = i + 1;
    }
}

/// The order on texts is irreflexive.
pub proof fn lemma_before_irreflexive(a: Seq<char>)
    ensures
        !text_before(a, a),
    decreases a.len(),
{
    if a.len() > 0 {
        lemma_before_irreflexive(a.skip(1));
    }
}

/// The order on texts is transitive.
pub proof fn lemma_before_transitive(a: Seq<char>, b: Seq<char>, c: Seq<char>)
    requires
        text_before(a, b),
        text_before(b, c),
    ensures
        text_before(a, c),
    decreases a.len(),
{
    if a.len() > 0 && a[0] == b[0] && b[0] == c[0] {
        lemma_before_transitive(a.skip(1), b.skip(1), c.skip(1));
    }
}

/// Of two different texts one comes before the other, and not both ways.
pub proof fn lemma_before_total(a: Seq<char>, b: Seq<char>)
    ensures
        a == b || text_before(a, b) || text_before(b, a),
        !(text_before(a, b) && text_before(b, a)),
    decreases a.len(),
{
    if a.len() > 0 && b.len() > 0 && a[0] == b[0] {
        lemma_before_total(a.skip(1), b.skip(1));
        if a.skip(1) == b.skip(1) {
            assert(a =~= seq![a[0]] + a.skip(1));
            assert(b =~= seq![b[0]] + b.skip(1));
            assert(a == b);
        }
    } else if a.len() > 0 && b.len() > 0 {
        assert((a[0] as int) != (b[0] as int));
    } else if a.len() == 0 && b.len() == 0 {
        assert(a =~= b);
    }
}

/// A text that comes before another comes before any third one, or the third
/// one before the other.
pub proof fn lemma_before_splits(a: Seq<char>, b: Seq<char>, c: Seq<char>)
    requires
        text_before(a, c),
    ensures
        text_before(a, b) || text_before(b, c),
{
    lemma_before_total(a, b);
    if text_before(b, a) {
        lemma_before_transitive(b, a, c);
    }
}

/// `v` with `t` in its place among the texts, which stand in ascending order
/// without repetition.
pub open spec fn text_placed(v: Seq<Seq<char>>, t: Seq<char>) -> Seq<Seq<char>>
    decreases v.len(),
{
    if v.len() == 0 {
        seq![t]
    } else if v[0] == t {
        v
    } else if text_before(t, v[0]) {
        seq![t] + v
    } else {
        seq![v[0]] + text_placed(v.skip(1), t)
    }
}

/// Puts `t` in its place among ascending texts.
pub fn place_text(v: &mut Vec<String>, t: &str)
    ensures
        texts(final(v)@) == text_placed(texts(old(v)@), t@),
{
    let ghost start = texts(v@);
    let mut i: usize = 0;
    assert(start.skip(0) =~= start);
    assert(start.take(0) + text_placed(start.skip(0), t@) =~= text_placed(start, t@));
    while i < v.len()
        invariant
            i <= v@.len(),
            texts(v@) == start,
            v@ == old(v)@,
            start.take(i as int) + text_placed(start.skip(i as int), t@) == text_placed(
                start,
                t@,
            ),
        decreases v@.len() - i,
    {
        let ghost rest = start.skip(i as int);
        assert(rest[0] == v@[i as int]@);
        if same(v[i].as_str(), t) {
            assert(start.take(i as int) + rest =~= start);
            return;
        }
        if before(t, v[i].as_str()) {
            v.insert(i, owned(t));
            assert(texts(v@) =~= start.insert(i as int, t@));
            assert(start.take(i as int) + (seq![t@] + rest) =~= start.insert(i as int, t@));
            return;
        }
        assert(rest.skip(1) =~= start.skip(i + 1));
        assert(start.take(i as int) + (seq![rest[0]] + text_placed(rest.skip(1), t@))
            =~= start.take(i + 1) + text_placed(start.skip(i + 1), t@));
        i = i + 1;
    }
    v.push(owned(t));
    assert(start.skip(i as int) =~= Seq::<Seq<char>>::empty());
    assert(texts(v@) =~= start.push(t@));
    assert(start.take(i as int) + seq![t@] =~= start.push(t@));
}

/// A text stands among the others once it is put in place, and the others are
/// still there.
pub proof fn lemma_text_placed(v: Seq<Seq<char>>, t: Seq<char>)
    ensures
        text_placed(v, t).contains(t),
        forall|u: Seq<char>| #[trigger] text_placed(v, t).contains(u) ==> u == t || v.contains(u),
        forall|u: Seq<char>| v.contains(u) ==> #[trigger] text_placed(v, t).contains(u),
    decreases v.len(),
{
    let p = text_placed(v, t);
    if v.len() == 0 {
        assert(p[0] == t);
    } else if v[0] == t {
    } else if text_before(t, v[0]) {
        assert(p[0] == t);
        assert forall|u: Seq<char>| p.contains(u) implies u == t || v.contains(u) by {
            let k = choose|k: int| 0 <= k < p.len() && p[k] == u;
            if k > 0 {
                assert(v[k - 1] == u);
            }
        }
        assert forall|u: Seq<char>| v.contains(u) implies #[trigger] p.contains(u) by {
            let k = choose|k: int| 0 <= k < v.len() && v[k] == u;
            assert(p[k + 1] == u);
        }
    } else {
        let rest = v.skip(1);
        let q = text_placed(rest, t);
        lemma_text_placed(rest, t);
        let n = choose|n: int| 0 <= n < q.len() && q[n] == t;
        assert(p[n + 1] == t);
        assert forall|u: Seq<char>| p.contains(u) implies u == t || v.contains(u) by {
            let k = choose|k: int| 0 <= k < p.len() && p[k] == u;
            if k == 0 {
                assert(v[0] == u);
            } else {
                assert(q[k - 1] == u);
                assert(q.contains(u));
                if u != t {
                    let m = choose|m: int| 0 <= m < rest.len() && rest[m] == u;
                    assert(v[m + 1] == u);
                }
            }
        }
        assert forall|u: Seq<char>| v.contains(u) implies #[trigger] p.contains(u) by {
            let k = choose|k: int| 0 <= k < v.len() && v[k] == u;
            if k == 0 {
                assert(p[0] == u);
            } else {
                assert(rest[k - 1] == u);
                assert(rest.contains(u));
                assert(q.contains(u));
                let m = choose|m: int| 0 <= m < q.len() && q[m] == u;
                assert(p[m + 1] == u);
            }
        }
    }
}

// ---------------------------------------------------------------------------
// Problems: what a validator has to say
// ---------------------------------------------------------------------------

/// What a validator reports: nothing, or the text of its error.
pub open spec fn problem(r: Result<(), String>) -> Option<Seq<char>> {
    match r {
        Ok(_) => None,
        Err(e) => Some(e@),
    }
}

/// The first of two problems.
pub open spec fn or_else(a: Option<Seq<char>>, b: Option<Seq<char>>) -> Option<Seq<char>> {
    if a is Some {
        a
    } else {
        b
    }
}

/// The problem `text` where `bad` holds.
pub open spec fn problem_if(bad: bool, text: Seq<char>) -> Option<Seq<char>> {
    if bad {
        Some(text)
    } else {
        None
    }
}

/// The first problem that `f` reports for the positions from `i` up to `n`.
pub open spec fn first_problem(f: spec_fn(int) -> Option<Seq<char>>, i: int, n: int) -> Option<
    Seq<char>,
>
    decreases n - i,
{
    if i >= n {
        None
    } else if f(i) is Some {
        f(i)
    } else {
        first_problem(f, i + 1, n)
    }
}

/// The text `a`, then `b`, then `c`.
pub fn concat3(a: &str, b: &str, c: &str) -> (r: String)
    ensures
        r@ == a@ + b@ + c@,
{
    let mut out = owned(a);
    out.append(b);
    out.append(c);
    out
}

/// The text `a`, then `b`, then `c`, then `d`, then `e`.
pub fn concat5(a: &str, b: &str, c: &str, d: &str, e: &str) -> (r: String)
    ensures
        r@ == a@ + b@ + c@ + d@ + e@,
{
    let mut out = owned(a);
    out.append(b);
    out.append(c);
    out.append(d);
    out.append(e);
    out
}

/// A text, empty where there is none.
pub open spec fn or_empty(o: Option<Seq<char>>) -> Seq<char> {
    match o {
        Some(s) => s,
        None => Seq::empty(),
    }
}

/// A text, empty where there is none.
pub fn text_or_empty(o: &Option<String>) -> (r: String)
    ensures
        r@ == or_empty(opt_text(*o)),
{
    match o {
        Some(s) => s.clone(),
        None => String::new(),
    }
}

/// The texts behind a list of slices.
pub open spec fn strs(v: Seq<&'static str>) -> Seq<Seq<char>> {
    v.map_values(|s: &'static str| s@)
}

/// The text holds one of the words.
pub open spec fn holds_any(text: Seq<char>, words: Seq<Seq<char>>) -> bool {
    exists|i: int| 0 <= i < words.len() && holds_text(text, #[trigger] words[i])
}

/// The text begins with one of the words.
pub open spec fn begins_any(text: Seq<char>, words: Seq<Seq<char>>) -> bool {
    exists|i: int| 0 <= i < words.len() && begins(text, #[trigger] words[i])
}

/// Whether a text holds one of the words.
pub fn contains_any(text: &str, words: &Vec<&'static str>) -> (r: bool)
    ensures
        r == holds_any(text@, strs(words@)),
{
    let ghost all = strs(words@);
    let mut i: usize = 0;
    while i < words.len()
        invariant
            i <= words@.len(),
            all == strs(words@),
            forall|j: int| 0 <= j < i ==> !holds_text(text@, #[trigger] all[j]),
        decreases words@.len() - i,
    {
        assert(all[i as int] == words@[i as int]@);
        if contains(text, words[i]) {
            return true;
        }
        i = i + 1;
    }
    false
}

/// Whether a text begins with one of the words.
pub fn starts_with_any(text: &str, words: &Vec<&'static str>) -> (r: bool)
    ensures
        r == begins_any(text@, strs(words@)),
{
    let ghost all = strs(words@);
    let mut i: usize = 0;
    while i < words.len()
        invariant
            i <= words@.len(),
            all == strs(words@),
            forall|j: int| 0 <= j < i ==> !begins(text@, #[trigger] all[j]),
        decreases words@.len() - i,
    {
        assert(all[i as int] == words@[i as int]@);
        if starts_with(text, words[i]) {
            return true;
        }
        i = i + 1;
    }
    false
}

} // verus!
