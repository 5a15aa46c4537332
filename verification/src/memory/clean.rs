//! Bringing remembered texts into a bounded, comparable form.

use crate::memory::model::{
    MAX_COMMAND_OUTCOME_CHARS, MAX_COMMAND_PURPOSE_CHARS, MAX_COMMAND_SIGNATURE_CHARS,
    MAX_MEMORY_FACT_VALUE_CHARS, MAX_MEMORY_LESSON_RECOMMENDATION_CHARS,
    MAX_MEMORY_LESSON_TITLE_CHARS, MAX_MEMORY_LESSON_WHEN_CHARS, MAX_MEMORY_SCOPE_CHARS,
    MAX_MEMORY_USER_CONTEXT_CHARS, MAX_OPEN_LOOP_BLOCKER_CHARS, MAX_OPEN_LOOP_GOAL_CHARS,
    MAX_OPEN_LOOP_NEXT_STEP_CHARS, MAX_PROJECT_SIGNAL_VALUE_CHARS,
};
use crate::text::{
    alphanumeric, ascii_lower, ascii_lower_char, chars_of, is_ascii, is_ascii_alphanumeric,
    is_letter_or_number, is_space, join, joined, lemma_trimmed_already, lemma_trimmed_edges,
    lower_form, lowercase_char, opt_text, split_words, strip_back, strip_front, take_at_most,
    take_chars, to_ascii_lower, trim, trim_chars, trim_start_spec, trimmed, word_len, words,
};
use vstd::prelude::*;
use vstd::string::*;

verus! {

/// The words of a text with single spaces between them.
pub open spec fn spaced(s: Seq<char>) -> Seq<char> {
    joined(words(s), " "@)
}

/// The words of a text with single spaces between them.
pub fn normalize_memory_whitespace(text: &str) -> (r: String)
    ensures
        r@ == spaced(text@),
{
    join(&split_words(text), " ")
}

/// The form in which texts are compared: single spaces, ASCII lower case.
pub open spec fn match_text(s: Seq<char>) -> Seq<char> {
    ascii_lower(spaced(s))
}

/// The form in which the text is compared.
pub fn normalize_match_text(text: &str) -> (r: String)
    ensures
        r@ == match_text(text@),
{
    to_ascii_lower(normalize_memory_whitespace(text).as_str())
}

/// The first `max_chars` characters of the text.
pub fn truncate_memory_chars(text: String, max_chars: usize) -> (r: String)
    ensures
        r@ == take_at_most(text@, max_chars as nat),
{
    take_chars(text.as_str(), max_chars)
}

/// A text with single spaces between its words, cut to a number of characters.
pub open spec fn cleaned_text(s: Seq<char>, max: nat) -> Seq<char> {
    take_at_most(spaced(trimmed(s)), max)
}

/// A text, or nothing where it is empty.
pub open spec fn unless_empty(s: Seq<char>) -> Option<Seq<char>> {
    if s.len() == 0 {
        None
    } else {
        Some(s)
    }
}

/// The text in its bounded form, or nothing where that is empty.
pub fn sanitize_memory_text_value(value: &str, max_chars: usize) -> (r: Option<String>)
    ensures
        opt_text(r) == unless_empty(cleaned_text(value@, max_chars as nat)),
{
    let sanitized = truncate_memory_chars(
        normalize_memory_whitespace(trim(value).as_str()),
        max_chars,
    );
    if sanitized.as_str().is_empty() {
        None
    } else {
        Some(sanitized)
    }
}

/// The text in its bounded form.
pub fn clean_text(value: &str, max_chars: usize) -> (r: String)
    ensures
        r@ == cleaned_text(value@, max_chars as nat),
{
    match sanitize_memory_text_value(value, max_chars) {
        Some(s) => s,
        None => {
            let r = String::new();
            assert(r@ =~= cleaned_text(value@, max_chars as nat));
            r
        },
    }
}

/// A character that separates the parts of a key.
pub open spec fn is_separator(c: char) -> bool {
    c == ' ' || c == '_' || c == '-' || c == '/' || c == '.' || c == ':'
}

/// The key made from the first `n` characters of `s`, and whether it ends with
/// a separator.
pub open spec fn key_so_far(s: Seq<char>, n: int) -> (Seq<char>, bool)
    decreases n,
{
    if n <= 0 {
        (Seq::empty(), false)
    } else {
        let (out, separated) = key_so_far(s, n - 1);
        let c = s[n - 1];
        if is_letter_or_number(c) {
            (out + lower_form(c), false)
        } else if is_separator(c) && out.len() > 0 && !separated {
            (out.push('_'), true)
        } else {
            (out, separated)
        }
    }
}

/// The form in which keys are stored: lower case, with underscores for
/// separators.
pub open spec fn fact_key(s: Seq<char>) -> Seq<char> {
    let t = spaced(s);
    let k = key_so_far(t, t.len() as int).0;
    strip_back(strip_front(k, "_"@), "_"@)
}

/// The form in which the key is stored.
pub fn normalize_memory_fact_key(key: &str) -> (r: String)
    ensures
        r@ == fact_key(key@),
{
    let text = normalize_memory_whitespace(key);
    let v = chars_of(text.as_str());
    let mut out = String::new();
    let mut previous_was_separator: bool = false;
    let mut i: usize = 0;
    while i < v.len()
        invariant
            i <= v@.len(),
            (out@, previous_was_separator) == key_so_far(v@, i as int),
        decreases v@.len() - i,
    {
        let c: char = v[i];
        if alphanumeric(c) {
            out.append(lowercase_char(c).as_str());
            previous_was_separator = false;
        } else if (c == ' ' || c == '_' || c == '-' || c == '/' || c == '.' || c == ':')
            && !out.as_str().is_empty() && !previous_was_separator {
            out.push('_');
            previous_was_separator = true;
        }
        i = i + 1;
    }
    trim_chars(out.as_str(), "_")
}

/// The value of a fact in its bounded form.
pub fn sanitize_memory_fact_value(value: &str) -> (r: String)
    ensures
        r@ == cleaned_text(value@, MAX_MEMORY_FACT_VALUE_CHARS as nat),
{
    clean_text(value, MAX_MEMORY_FACT_VALUE_CHARS)
}

/// The user context in its bounded form.
pub fn sanitize_user_context_value(value: &str) -> (r: Option<String>)
    ensures
        opt_text(r) == unless_empty(cleaned_text(value@, MAX_MEMORY_USER_CONTEXT_CHARS as nat)),
{
    sanitize_memory_text_value(value, MAX_MEMORY_USER_CONTEXT_CHARS)
}

/// The title of a lesson in its bounded form.
pub fn sanitize_memory_lesson_title(value: &str) -> (r: Option<String>)
    ensures
        opt_text(r) == unless_empty(cleaned_text(value@, MAX_MEMORY_LESSON_TITLE_CHARS as nat)),
{
    sanitize_memory_text_value(value, MAX_MEMORY_LESSON_TITLE_CHARS)
}

/// The occasion of a lesson in its bounded form.
pub fn sanitize_memory_lesson_when(value: &str) -> (r: Option<String>)
    ensures
        opt_text(r) == unless_empty(cleaned_text(value@, MAX_MEMORY_LESSON_WHEN_CHARS as nat)),
{
    sanitize_memory_text_value(value, MAX_MEMORY_LESSON_WHEN_CHARS)
}

/// The recommendation of a lesson in its bounded form.
pub fn sanitize_memory_lesson_recommendation(value: &str) -> (r: Option<String>)
    ensures
        opt_text(r) == unless_empty(
            cleaned_text(value@, MAX_MEMORY_LESSON_RECOMMENDATION_CHARS as nat),
        ),
{
    sanitize_memory_text_value(value, MAX_MEMORY_LESSON_RECOMMENDATION_CHARS)
}

/// The scope of a lesson in its bounded form.
pub fn sanitize_memory_scope(value: &str) -> (r: String)
    ensures
        r@ == cleaned_text(value@, MAX_MEMORY_SCOPE_CHARS as nat),
{
    clean_text(value, MAX_MEMORY_SCOPE_CHARS)
}

/// The goal of an open loop in its bounded form.
pub fn sanitize_open_loop_goal(value: &str) -> (r: Option<String>)
    ensures
        opt_text(r) == unless_empty(cleaned_text(value@, MAX_OPEN_LOOP_GOAL_CHARS as nat)),
{
    sanitize_memory_text_value(value, MAX_OPEN_LOOP_GOAL_CHARS)
}

/// The blocker of an open loop in its bounded form.
pub fn sanitize_open_loop_blocker(value: &str) -> (r: Option<String>)
    ensures
        opt_text(r) == unless_empty(cleaned_text(value@, MAX_OPEN_LOOP_BLOCKER_CHARS as nat)),
{
    sanitize_memory_text_value(value, MAX_OPEN_LOOP_BLOCKER_CHARS)
}

/// The next step of an open loop in its bounded form.
pub fn sanitize_open_loop_next_step(value: &str) -> (r: Option<String>)
    ensures
        opt_text(r) == unless_empty(cleaned_text(value@, MAX_OPEN_LOOP_NEXT_STEP_CHARS as nat)),
{
    sanitize_memory_text_value(value, MAX_OPEN_LOOP_NEXT_STEP_CHARS)
}

/// The signature of a command in its bounded form.
pub fn sanitize_command_signature(value: &str) -> (r: Option<String>)
    ensures
        opt_text(r) == unless_empty(cleaned_text(value@, MAX_COMMAND_SIGNATURE_CHARS as nat)),
{
    sanitize_memory_text_value(value, MAX_COMMAND_SIGNATURE_CHARS)
}

/// The purpose of a command in its bounded form.
pub fn sanitize_command_purpose(value: &str) -> (r: Option<String>)
    ensures
        opt_text(r) == unless_empty(cleaned_text(value@, MAX_COMMAND_PURPOSE_CHARS as nat)),
{
    sanitize_memory_text_value(value, MAX_COMMAND_PURPOSE_CHARS)
}

/// The outcome of a command in its bounded form.
pub fn sanitize_command_outcome(value: &str) -> (r: Option<String>)
    ensures
        opt_text(r) == unless_empty(cleaned_text(value@, MAX_COMMAND_OUTCOME_CHARS as nat)),
{
    sanitize_memory_text_value(value, MAX_COMMAND_OUTCOME_CHARS)
}

/// The value of a project signal in its bounded form.
pub fn sanitize_project_signal_value(value: &str) -> (r: String)
    ensures
        r@ == cleaned_text(value@, MAX_PROJECT_SIGNAL_VALUE_CHARS as nat),
{
    clean_text(value, MAX_PROJECT_SIGNAL_VALUE_CHARS)
}

/// No cleaned text is longer than its limit.
pub proof fn law_cleaned_text_bounded(s: Seq<char>, max: nat)
    ensures
        cleaned_text(s, max).len() <= max,
{
}

// ---------------------------------------------------------------------------
// Cleaning twice
// ---------------------------------------------------------------------------

/// Words with single spaces between them: the only white space is a space
/// between two other characters.
pub open spec fn is_spaced(t: Seq<char>) -> bool {
    forall|i: int|
        0 <= i < t.len() && is_space(#[trigger] t[i]) ==> t[i] == ' ' && 0 < i < t.len() - 1
            && !is_space(t[i + 1])
}

/// A word: not empty, and without white space.
pub open spec fn is_word(w: Seq<char>) -> bool {
    w.len() > 0 && forall|i: int| 0 <= i < w.len() ==> !is_space(#[trigger] w[i])
}

proof fn lemma_word_len(t: Seq<char>)
    ensures
        word_len(t) <= t.len(),
        forall|i: int| 0 <= i < word_len(t) ==> !is_space(#[trigger] t[i]),
        word_len(t) < t.len() ==> is_space(t[word_len(t) as int]),
    decreases t.len(),
{
    if t.len() > 0 && !is_space(t[0]) {
        let u = t.skip(1);
        lemma_word_len(u);
        assert forall|i: int| 0 <= i < word_len(t) implies !is_space(#[trigger] t[i]) by {
            if i > 0 {
                assert(t[i] == u[i - 1]);
            }
        }
        if word_len(t) < t.len() {
            assert(t[word_len(t) as int] == u[word_len(u) as int]);
        }
    }
}

proof fn lemma_trim_start(s: Seq<char>)
    ensures
        trim_start_spec(s).len() <= s.len(),
        trim_start_spec(s) == s.skip(s.len() - trim_start_spec(s).len()),
        trim_start_spec(s).len() > 0 ==> !is_space(trim_start_spec(s)[0]),
        forall|i: int|
            0 <= i < s.len() - trim_start_spec(s).len() ==> is_space(#[trigger] s[i]),
    decreases s.len(),
{
    let t = trim_start_spec(s);
    if s.len() > 0 && is_space(s[0]) {
        let u = s.skip(1);
        lemma_trim_start(u);
        assert(u.skip(u.len() - t.len()) =~= s.skip(s.len() - t.len()));
        assert forall|i: int| 0 <= i < s.len() - t.len() implies is_space(#[trigger] s[i]) by {
            if i > 0 {
                assert(s[i] == u[i - 1]);
            }
        }
    } else {
        assert(s.skip(0) =~= s);
    }
}

proof fn lemma_words_are_words(s: Seq<char>)
    ensures
        forall|i: int| 0 <= i < words(s).len() ==> is_word(#[trigger] words(s)[i]),
    decreases s.len(),
{
    let t = trim_start_spec(s);
    lemma_trim_start(s);
    lemma_word_len(t);
    let w = word_len(t) as int;
    if t.len() > 0 {
        let rest = t.skip(w);
        lemma_words_are_words(rest);
        assert forall|i: int| 0 <= i < words(s).len() implies is_word(
            #[trigger] words(s)[i],
        ) by {
            if i == 0 {
                let a = t.take(w);
                assert forall|k: int| 0 <= k < a.len() implies !is_space(#[trigger] a[k]) by {
                    assert(a[k] == t[k]);
                }
            } else {
                assert(words(s)[i] == words(rest)[i - 1]);
            }
        }
    }
}

proof fn lemma_joined_words_spaced(parts: Seq<Seq<char>>)
    requires
        forall|i: int| 0 <= i < parts.len() ==> is_word(#[trigger] parts[i]),
    ensures
        is_spaced(joined(parts, " "@)),
        parts.len() > 0 ==> joined(parts, " "@).len() > 0 && !is_space(
            joined(parts, " "@).last(),
        ),
    decreases parts.len(),
{
    reveal_strlit(" ");
    if parts.len() == 1 {
        assert(is_word(parts[0]));
    } else if parts.len() > 1 {
        let front = parts.drop_last();
        assert forall|i: int| 0 <= i < front.len() implies is_word(#[trigger] front[i]) by {
            assert(front[i] == parts[i]);
        }
        lemma_joined_words_spaced(front);
        let a = joined(front, " "@);
        let w = parts.last();
        assert(is_word(w));
        let t = joined(parts, " "@);
        assert(t =~= a + " "@ + w);
        assert forall|i: int| 0 <= i < t.len() && is_space(#[trigger] t[i]) implies t[i] == ' '
            && 0 < i < t.len() - 1 && !is_space(t[i + 1]) by {
            if i < a.len() {
                assert(t[i] == a[i]);
                assert(t[i + 1] == a[i + 1]);
            } else if i == a.len() {
                assert(t[i + 1] == w[0]);
            } else {
                assert(t[i] == w[i - a.len() - 1]);
            }
        }
        assert(t.last() == w.last());
    }
}

proof fn lemma_spaced_is_spaced(s: Seq<char>)
    ensures
        is_spaced(spaced(s)),
{
    lemma_words_are_words(s);
    lemma_joined_words_spaced(words(s));
}

proof fn lemma_joined_front(a: Seq<char>, rest: Seq<Seq<char>>)
    requires
        rest.len() > 0,
    ensures
        joined(seq![a] + rest, " "@) == a + " "@ + joined(rest, " "@),
    decreases rest.len(),
{
    let all = seq![a] + rest;
    assert(all.last() == rest.last());
    if rest.len() == 1 {
        assert(all.drop_last() =~= seq![a]);
        assert(joined(seq![a], " "@) == a);
    } else {
        assert(all.drop_last() =~= seq![a] + rest.drop_last());
        lemma_joined_front(a, rest.drop_last());
        assert(joined(all, " "@) =~= a + " "@ + joined(rest, " "@));
    }
}

pub proof fn lemma_spaced_stays(t: Seq<char>)
    requires
        is_spaced(t),
    ensures
        spaced(t) == t,
    decreases t.len(),
{
    reveal_strlit(" ");
    lemma_trim_start(t);
    if t.len() > 0 {
        assert(!is_space(t[0]));
        assert(trim_start_spec(t) == t);
        lemma_word_len(t);
        let w = word_len(t) as int;
        let a = t.take(w);
        let rest = t.skip(w);
        assert(w > 0);
        assert(words(t) == seq![a] + words(rest));
        if w == t.len() {
            assert(rest =~= Seq::<char>::empty());
            assert(words(rest).len() == 0);
            assert(words(t) =~= seq![a]);
            assert(a =~= t);
        } else {
            assert(is_space(t[w]));
            let tail = t.skip(w + 1);
            assert(rest.skip(1) =~= tail);
            assert(rest[0] == t[w]);
            assert(tail[0] == t[w + 1]);
            assert(trim_start_spec(rest) == tail) by {
                assert(trim_start_spec(rest) == trim_start_spec(tail));
            }
            assert(trim_start_spec(tail) == tail);
            assert(words(rest) == words(tail));
            assert forall|i: int| 0 <= i < tail.len() && is_space(
                #[trigger] tail[i],
            ) implies tail[i] == ' ' && 0 < i < tail.len() - 1 && !is_space(tail[i + 1]) by {
                assert(tail[i] == t[i + w + 1]);
                assert(!is_space(t[w + 1]));
                assert(tail[i + 1] == t[i + w + 2]);
            }
            lemma_spaced_stays(tail);
            assert(words(tail).len() > 0);
            lemma_joined_front(a, words(tail));
            assert(a + " "@ + tail =~= t);
        }
    }
}

/// The text is not cut right behind a space: it is within its limit, or another
/// character stands there.
pub open spec fn cut_is_clean(s: Seq<char>, max: nat) -> bool {
    let t = spaced(trimmed(s));
    0 < max < t.len() ==> t[max - 1] != ' '
}

/// Cleaning a text twice changes nothing more, unless it was cut right behind a
/// space.
pub proof fn law_cleaning_settles(s: Seq<char>, max: nat)
    requires
        cut_is_clean(s, max),
    ensures
        cleaned_text(cleaned_text(s, max), max) == cleaned_text(s, max),
{
    let t = spaced(trimmed(s));
    let c = cleaned_text(s, max);
    lemma_spaced_is_spaced(trimmed(s));
    assert forall|i: int| 0 <= i < c.len() && is_space(#[trigger] c[i]) implies c[i] == ' ' && 0 < i
        < c.len() - 1 && !is_space(c[i + 1]) by {
        assert(c[i] == t[i]);
        if i + 1 < c.len() {
            assert(c[i + 1] == t[i + 1]);
        }
    }
    if c.len() > 0 {
        assert(!is_space(c[0]));
        assert(!is_space(c[c.len() - 1]));
    }
    lemma_trimmed_already(c);
    lemma_spaced_stays(c);
}

/// A text within its limit is never cut.
pub proof fn lemma_within_limit(s: Seq<char>, max: nat)
    requires
        s.len() <= max,
    ensures
        cut_is_clean(s, max),
{
    lemma_trimmed_edges(s);
    lemma_spaced_shorter(trimmed(s));
}

proof fn lemma_spaced_shorter(s: Seq<char>)
    ensures
        spaced(s).len() <= s.len(),
    decreases s.len(),
{
    reveal_strlit(" ");
    let t = trim_start_spec(s);
    lemma_trim_start(s);
    lemma_word_len(t);
    let w = word_len(t) as int;
    if t.len() > 0 {
        let rest = t.skip(w);
        let a = t.take(w);
        if words(rest).len() > 0 {
            assert(rest.len() > 0) by {
                lemma_trim_start(rest);
            }
            assert(is_space(rest[0]));
            let tail = rest.skip(1);
            lemma_trim_start(tail);
            assert(trim_start_spec(rest) == trim_start_spec(tail));
            assert(words(rest) == words(tail));
            lemma_spaced_shorter(tail);
            lemma_joined_front(a, words(tail));
        } else {
            assert(words(s) =~= seq![a]);
        }
    }
}

// ---------------------------------------------------------------------------
// Keys
// ---------------------------------------------------------------------------

/// A lower-case letter or a digit of ASCII.
pub open spec fn is_key_char(c: char) -> bool {
    ('a' <= c && c <= 'z') || ('0' <= c && c <= '9')
}

/// A stored key: runs of lower-case letters and digits, with one underscore
/// between neighbours.
pub open spec fn is_key(k: Seq<char>) -> bool {
    forall|i: int|
        0 <= i < k.len() ==> is_key_char(#[trigger] k[i]) || (k[i] == '_' && 0 < i < k.len() - 1
            && k[i + 1] != '_')
}

/// The letters and digits among the first `n` characters, in lower case.
pub open spec fn lowered_letters(s: Seq<char>, n: int) -> Seq<char>
    decreases n,
{
    if n <= 0 {
        Seq::empty()
    } else if is_ascii_alphanumeric(s[n - 1]) {
        lowered_letters(s, n - 1).push(ascii_lower_char(s[n - 1]))
    } else {
        lowered_letters(s, n - 1)
    }
}

/// The first `n` characters without underscores.
pub open spec fn without_marks(s: Seq<char>, n: int) -> Seq<char>
    decreases n,
{
    if n <= 0 {
        Seq::empty()
    } else if s[n - 1] == '_' {
        without_marks(s, n - 1)
    } else {
        without_marks(s, n - 1).push(s[n - 1])
    }
}

proof fn lemma_same_letters(s: Seq<char>, t: Seq<char>, n: int)
    requires
        n <= s.len(),
        n <= t.len(),
        forall|i: int| 0 <= i < n ==> #[trigger] s[i] == t[i],
    ensures
        lowered_letters(s, n) == lowered_letters(t, n),
    decreases n,
{
    if n > 0 {
        lemma_same_letters(s, t, n - 1);
        assert(s[n - 1] == t[n - 1]);
    }
}

proof fn lemma_letters_of_parts(a: Seq<char>, b: Seq<char>, n: int)
    requires
        0 <= n <= b.len(),
    ensures
        lowered_letters(a + b, a.len() + n) == lowered_letters(a, a.len() as int)
            + lowered_letters(b, n),
    decreases n,
{
    if n == 0 {
        lemma_same_letters(a + b, a, a.len() as int);
        assert(lowered_letters(b, 0) =~= Seq::<char>::empty());
    } else {
        lemma_letters_of_parts(a, b, n - 1);
        assert((a + b)[a.len() + n - 1] == b[n - 1]);
        assert(lowered_letters(a + b, a.len() + n) =~= lowered_letters(a, a.len() as int)
            + lowered_letters(b, n));
    }
}

proof fn lemma_no_letters(s: Seq<char>, n: int)
    requires
        n <= s.len(),
        forall|i: int| 0 <= i < n ==> is_space(#[trigger] s[i]),
    ensures
        lowered_letters(s, n) == Seq::<char>::empty(),
    decreases n,
{
    if n > 0 {
        assert(is_space(s[n - 1]));
        lemma_no_letters(s, n - 1);
    }
}

proof fn lemma_spaced_letters(s: Seq<char>)
    requires
        is_ascii(s),
    ensures
        is_ascii(spaced(s)),
        lowered_letters(spaced(s), spaced(s).len() as int) == lowered_letters(s, s.len() as int),
    decreases s.len(),
{
    reveal_strlit(" ");
    let t = trim_start_spec(s);
    lemma_trim_start(s);
    lemma_word_len(t);
    let p = s.len() - t.len();
    let front = s.take(p);
    assert forall|i: int| 0 <= i < p implies is_space(#[trigger] front[i]) by {
        assert(front[i] == s[i]);
    }
    lemma_no_letters(front, p);
    lemma_letters_of_parts(front, t, t.len() as int);
    assert(front + t =~= s);
    let w = word_len(t) as int;
    if t.len() > 0 {
        let a = t.take(w);
        let rest = t.skip(w);
        assert(a + rest =~= t);
        lemma_letters_of_parts(a, rest, rest.len() as int);
        assert forall|i: int| 0 <= i < a.len() implies (#[trigger] a[i] as int) < 128 by {
            assert(a[i] == s[p + i]);
        }
        lemma_trim_start(rest);
        if words(rest).len() > 0 {
            assert(is_space(rest[0]));
            let gap = rest.take(1);
            let tail = rest.skip(1);
            assert(gap + tail =~= rest);
            assert(is_space(gap[0]));
            lemma_no_letters(gap, 1);
            lemma_letters_of_parts(gap, tail, tail.len() as int);
            assert(trim_start_spec(rest) == trim_start_spec(tail));
            lemma_trim_start(tail);
            assert(words(rest) == words(tail));
            assert forall|i: int| 0 <= i < tail.len() implies (#[trigger] tail[i] as int)
                < 128 by {
                assert(tail[i] == s[p + w + 1 + i]);
            }
            lemma_spaced_letters(tail);
            lemma_joined_front(a, words(tail));
            let u = spaced(tail);
            assert(spaced(s) =~= a + " "@ + u);
            lemma_no_letters(" "@, 1);
            lemma_letters_of_parts(a, " "@, 1);
            lemma_letters_of_parts(a + " "@, u, u.len() as int);
        } else {
            lemma_word_len(trim_start_spec(rest));
            assert(trim_start_spec(rest).len() == 0);
            lemma_no_letters(rest, rest.len() as int);
            assert(words(s) =~= seq![a]);
        }
    }
}

proof fn lemma_same_unmarked(s: Seq<char>, t: Seq<char>, n: int)
    requires
        n <= s.len(),
        n <= t.len(),
        forall|i: int| 0 <= i < n ==> #[trigger] s[i] == t[i],
    ensures
        without_marks(s, n) == without_marks(t, n),
    decreases n,
{
    if n > 0 {
        lemma_same_unmarked(s, t, n - 1);
        assert(s[n - 1] == t[n - 1]);
    }
}

/// A key under construction: as a stored one, but an underscore may stand last.
spec fn is_open_key(k: Seq<char>) -> bool {
    forall|i: int|
        0 <= i < k.len() ==> is_key_char(#[trigger] k[i]) || (k[i] == '_' && 0 < i && (i < k.len()
            - 1 ==> k[i + 1] != '_'))
}

proof fn lemma_key_so_far(t: Seq<char>, n: int)
    requires
        is_ascii(t),
        0 <= n <= t.len(),
    ensures
        ({
            let (k, separated) = key_so_far(t, n);
            &&& is_open_key(k)
            &&& separated == (k.len() > 0 && k.last() == '_')
            &&& without_marks(k, k.len() as int) == lowered_letters(t, n)
        }),
    decreases n,
{
    if n > 0 {
        lemma_key_so_far(t, n - 1);
        let (h, was) = key_so_far(t, n - 1);
        let (k, separated) = key_so_far(t, n);
        let c = t[n - 1];
        assert((c as int) < 128);
        if is_letter_or_number(c) {
            let d = ascii_lower_char(c);
            assert(k =~= h.push(d));
            assert(is_key_char(d));
            lemma_same_unmarked(k, h, h.len() as int);
        } else if k != h {
            assert(k =~= h.push('_'));
            lemma_same_unmarked(k, h, h.len() as int);
        }
        assert forall|i: int| 0 <= i < k.len() implies is_key_char(#[trigger] k[i]) || (k[i] == '_'
            && 0 < i && (i < k.len() - 1 ==> k[i + 1] != '_')) by {
            if i < h.len() {
                assert(k[i] == h[i]);
                if i + 1 < h.len() {
                    assert(k[i + 1] == h[i + 1]);
                }
            }
        }
    }
}

proof fn lemma_key_stays(k: Seq<char>, n: int)
    requires
        is_key(k),
        0 <= n <= k.len(),
    ensures
        key_so_far(k, n) == (k.take(n), n > 0 && k[n - 1] == '_'),
    decreases n,
{
    if n > 0 {
        lemma_key_stays(k, n - 1);
        let c = k[n - 1];
        assert(is_key_char(c) || c == '_');
        assert(k.take(n) =~= k.take(n - 1).push(c));
        if is_key_char(c) {
            assert(ascii_lower_char(c) == c);
            assert(key_so_far(k, n).0 =~= k.take(n));
        } else {
            assert(k[n - 2] != '_') by {
                assert(is_key_char(k[n - 2]) || k[n - 1] != '_');
            }
        }
    } else {
        assert(k.take(0) =~= Seq::<char>::empty());
    }
}

proof fn lemma_key_is_stripped(k: Seq<char>)
    requires
        is_key(k),
    ensures
        strip_back(strip_front(k, "_"@), "_"@) == k,
{
    reveal_strlit("_");
    assert forall|c: char| "_"@.contains(c) implies c == '_' by {
        let j = choose|j: int| 0 <= j < "_"@.len() && "_"@[j] == c;
        assert("_"@[j] == '_');
    }
    if k.len() > 0 {
        assert(is_key_char(k[0]));
        assert(is_key_char(k[k.len() - 1]));
    }
}

/// A key of ASCII is stored as runs of lower-case letters and digits with one
/// underscore between neighbours; but for the underscores these are the letters
/// and digits of the key, in order; and a stored key stays as it is.
pub proof fn law_stored_key(key: Seq<char>)
    requires
        is_ascii(key),
    ensures
        is_key(fact_key(key)),
        without_marks(fact_key(key), fact_key(key).len() as int) == lowered_letters(
            key,
            key.len() as int,
        ),
        fact_key(fact_key(key)) == fact_key(key),
{
    reveal_strlit("_");
    let t = spaced(key);
    lemma_spaced_letters(key);
    lemma_key_so_far(t, t.len() as int);
    let k = key_so_far(t, t.len() as int).0;
    assert forall|c: char| "_"@.contains(c) <==> c == '_' by {
        if c == '_' {
            assert("_"@[0] == c);
        }
    }
    if k.len() > 0 {
        assert(is_key_char(k[0]));
        if k.last() == '_' {
            let j = k.drop_last();
            assert(k[k.len() - 1] == '_');
            assert(k.len() > 1);
            assert(j.last() == k[k.len() - 2]);
            assert(is_key_char(k[k.len() - 2]) || k[k.len() - 1] != '_');
            assert forall|i: int| 0 <= i < j.len() implies is_key_char(#[trigger] j[i]) || (j[i]
                == '_' && 0 < i < j.len() - 1 && j[i + 1] != '_') by {
                assert(j[i] == k[i]);
                assert(is_key_char(k[i]) || (k[i] == '_' && 0 < i && k[i + 1] != '_'));
                if i + 1 < j.len() {
                    assert(j[i + 1] == k[i + 1]);
                }
            }
            lemma_same_unmarked(j, k, j.len() as int);
            assert(strip_back(k, "_"@) == strip_back(j, "_"@));
            assert(strip_back(j, "_"@) == j);
            assert(fact_key(key) == j);
        } else {
            assert(is_key(k));
            assert(fact_key(key) == k);
        }
    }
    let f = fact_key(key);
    assert(is_key(f));
    lemma_key_settles(f);
}

pub proof fn lemma_key_settles(f: Seq<char>)
    requires
        is_key(f),
    ensures
        fact_key(f) == f,
{
    assert(is_spaced(f)) by {
        assert forall|i: int| 0 <= i < f.len() implies !is_space(#[trigger] f[i]) by {
            assert(is_key_char(f[i]) || f[i] == '_');
        }
    }
    lemma_spaced_stays(f);
    lemma_key_stays(f, f.len() as int);
    assert(f.take(f.len() as int) =~= f);
    lemma_key_is_stripped(f);
}

} // verus!
