//! The block of settings that a text may begin with.

use crate::text::{
    ascii_alnum, begins, chars_of, ends, ends_with, find_from, first_pos, is_ascii_alnum,
    lemma_first_pos, lines, lines_of, opt_str, opt_text, owned, same, stands_at, starts_with,
    strip_back, strip_prefix, text_between, texts, trim, trim_end_chars, trim_start,
    trim_start_spec, trimmed,
};
use vstd::prelude::*;
use vstd::string::*;

verus! {

// ---------------------------------------------------------------------------
// Skills
// ---------------------------------------------------------------------------

/// The first place at or after `i` where `p` stands in `s`.
pub open spec fn first_place(s: Seq<char>, p: Seq<char>, i: int) -> Option<int>
    decreases s.len() + 1 - i,
{
    if i < 0 || i > s.len() {
        None
    } else if stands_at(s, p, i) {
        Some(i)
    } else {
        first_place(s, p, i + 1)
    }
}

proof fn lemma_first_place(s: Seq<char>, p: Seq<char>, i: int, k: int)
    requires
        0 <= i <= k <= s.len(),
        stands_at(s, p, k),
        forall|j: int| i <= j < k ==> !stands_at(s, p, j),
    ensures
        first_place(s, p, i) == Some(k),
    decreases k - i,
{
    if i < k {
        lemma_first_place(s, p, i + 1, k);
    }
}

proof fn lemma_no_place(s: Seq<char>, p: Seq<char>, i: int)
    requires
        0 <= i,
        forall|j: int| i <= j ==> !stands_at(s, p, j),
    ensures
        first_place(s, p, i) is None,
    decreases s.len() + 1 - i,
{
    if i <= s.len() {
        lemma_no_place(s, p, i + 1);
    }
}

/// A text that stands in a pair of quotes, of either kind.
pub open spec fn is_quoted(s: Seq<char>) -> bool {
    (begins(s, "\""@) && ends(s, "\""@)) || (begins(s, "'"@) && ends(s, "'"@))
}

/// A value without the quotes around it.
pub open spec fn unquoted(value: Seq<char>) -> Seq<char> {
    let t = trimmed(value);
    if is_quoted(t) {
        t.subrange(1, t.len() - 1)
    } else {
        t
    }
}

/// The value is more than a single quote.
pub open spec fn no_lone_quote(value: Seq<char>) -> bool {
    !(is_quoted(trimmed(value)) && trimmed(value).len() < 2)
}

/// A value without the quotes around it.
pub fn unquote_yaml_value(val: &str) -> (r: String)
    requires
        no_lone_quote(val@),
    ensures
        r@ == unquoted(val@),
{
    let t = trim(val);
    let s = t.as_str();
    if (starts_with(s, "\"") && ends_with(s, "\"")) || (starts_with(s, "'") && ends_with(s, "'")) {
        let v = chars_of(s);
        text_between(&v, 1, v.len() - 1)
    } else {
        t
    }
}

/// What a block of settings says of a skill.
#[verifier::ext_equal]
pub struct SettingsView {
    pub name: Option<Seq<char>>,
    pub description: Option<Seq<char>>,
}

/// The value behind a key, where a line begins with it.
pub open spec fn value_behind(line: Seq<char>, key: Seq<char>) -> Option<Seq<char>> {
    if begins(trimmed(line), key) {
        Some(trimmed(line).skip(key.len() as int))
    } else {
        None
    }
}

/// What the first `n` lines say. A later line overrides an earlier one.
pub open spec fn settings_upto(v: Seq<Seq<char>>, n: int) -> SettingsView
    decreases n,
{
    if n <= 0 {
        SettingsView { name: None, description: None }
    } else {
        let before = settings_upto(v, n - 1);
        match value_behind(v[n - 1], "name:"@) {
            Some(x) => SettingsView { name: Some(unquoted(x)), ..before },
            None => match value_behind(v[n - 1], "description:"@) {
                Some(x) => SettingsView { description: Some(unquoted(x)), ..before },
                None => before,
            },
        }
    }
}

/// A line whose value, where it has one, is more than a single quote.
pub open spec fn line_is_sound(line: Seq<char>) -> bool {
    &&& value_behind(line, "name:"@) is Some ==> no_lone_quote(value_behind(line, "name:"@)->0)
    &&& value_behind(line, "description:"@) is Some ==> no_lone_quote(
        value_behind(line, "description:"@)->0,
    )
}

/// The block of settings that a text begins with, between two lines of dashes.
pub open spec fn settings_block(content: Seq<char>) -> Option<Seq<char>> {
    let t = trim_start_spec(content);
    if !begins(t, "---"@) {
        None
    } else {
        let rest = t.skip("---"@.len() as int);
        match first_place(rest, "\n---"@, 0) {
            Some(i) => Some(rest.take(i)),
            None => None,
        }
    }
}

/// No value in the block is a single quote.
pub open spec fn block_is_sound(content: Seq<char>) -> bool {
    match settings_block(content) {
        Some(b) => forall|i: int|
            0 <= i < lines_of(b).len() ==> line_is_sound(#[trigger] lines_of(b)[i]),
        None => true,
    }
}

/// What a text says of a skill: its name, which has to be there, and what it is
/// for.
pub open spec fn skill_settings(content: Seq<char>) -> Option<(Seq<char>, Seq<char>)> {
    match settings_block(content) {
        None => None,
        Some(b) => {
            let s = settings_upto(lines_of(b), lines_of(b).len() as int);
            if s.name is Some && s.name->0.len() > 0 {
                Some(
                    (
                        s.name->0,
                        match s.description {
                            Some(d) => d,
                            None => Seq::empty(),
                        },
                    ),
                )
            } else {
                None
            }
        },
    }
}

fn find_block(content: &str) -> (r: Option<String>)
    ensures
        opt_text(r) == settings_block(content@),
{
    let t = trim_start(content);
    let rest = match strip_prefix(t.as_str(), "---") {
        Some(s) => s,
        None => {
            return None;
        },
    };
    let v = chars_of(rest.as_str());
    let p = chars_of("\n---");
    match find_from(&v, &p, 0) {
        Some(i) => {
            proof {
                lemma_first_place(v@, p@, 0, i as int);
            }
            let b = text_between(&v, 0, i);
            assert(b@ =~= rest@.take(i as int));
            Some(b)
        },
        None => {
            proof {
                lemma_no_place(v@, p@, 0);
            }
            None
        },
    }
}

fn value_is_sound(line: &str, key: &str) -> (r: bool)
    ensures
        r == (value_behind(line@, key@) is Some ==> no_lone_quote(value_behind(line@, key@)->0)),
{
    let t = trim(line);
    match strip_prefix(t.as_str(), key) {
        None => true,
        Some(x) => {
            let v = trim(x.as_str());
            let s = v.as_str();
            let n = chars_of(s);
            n.len() >= 2 || !((starts_with(s, "\"") && ends_with(s, "\"")) || (starts_with(s, "'")
                && ends_with(s, "'")))
        },
    }
}

/// Whether no value in the block is a single quote.
pub fn settings_are_sound(content: &str) -> (r: bool)
    ensures
        r == block_is_sound(content@),
{
    let block = match find_block(content) {
        Some(b) => b,
        None => {
            return true;
        },
    };
    let v = lines(block.as_str());
    let ghost all = texts(v@);
    assert(all.len() == v@.len());
    let mut n: usize = 0;
    while n < v.len()
        invariant
            n <= v@.len() == all.len(),
            all == texts(v@),
            all == lines_of(block@),
            settings_block(content@) == Some(block@),
            forall|i: int| 0 <= i < n ==> line_is_sound(#[trigger] all[i]),
        decreases v@.len() - n,
    {
        assert(all[n as int] == v@[n as int]@);
        if !value_is_sound(v[n].as_str(), "name:") || !value_is_sound(
            v[n].as_str(),
            "description:",
        ) {
            proof {
                let found = lines_of(settings_block(content@)->0);
                assert(!line_is_sound(found[n as int]));
            }
            return false;
        }
        n = n + 1;
    }
    true
}

/// What a text says of a skill.
pub fn read_skill_settings(content: &str) -> (r: Option<(String, String)>)
    requires
        block_is_sound(content@),
    ensures
        (match r {
            Some((n, d)) => Some((n@, d@)),
            None => None,
        }) == skill_settings(content@),
{
    let block = match find_block(content) {
        Some(b) => b,
        None => {
            return None;
        },
    };
    let v = lines(block.as_str());
    let ghost all = texts(v@);
    assert(all.len() == v@.len());
    let mut name: Option<String> = None;
    let mut description: Option<String> = None;
    let mut n: usize = 0;
    while n < v.len()
        invariant
            n <= v@.len() == all.len(),
            all == texts(v@),
            all == lines_of(block@),
            forall|i: int| 0 <= i < all.len() ==> line_is_sound(#[trigger] all[i]),
            (SettingsView { name: opt_text(name), description: opt_text(description) })
                == settings_upto(all, n as int),
        decreases v@.len() - n,
    {
        assert(all[n as int] == v@[n as int]@);
        let line = trim(v[n].as_str());
        if let Some(x) = strip_prefix(line.as_str(), "name:") {
            name = Some(unquote_yaml_value(x.as_str()));
        } else if let Some(x) = strip_prefix(line.as_str(), "description:") {
            description = Some(unquote_yaml_value(x.as_str()));
        }
        n = n + 1;
    }
    match name {
        Some(s) => {
            if s.as_str().is_empty() {
                return None;
            }
            match description {
                Some(d) => Some((s, d)),
                None => Some((s, String::new())),
            }
        },
        None => None,
    }
}

// ---------------------------------------------------------------------------
// Prompt files
// ---------------------------------------------------------------------------

/// What a line of a block of settings is.
#[derive(Clone, Copy, Debug, PartialEq, Eq, Structural)]
pub enum SettingLine {
    /// Blank, a comment or an item of a list.
    Aside,
    /// A key with a value.
    Setting,
    /// Anything else.
    Other,
}

/// A character that keys are made of.
pub open spec fn is_key_char(c: char) -> bool {
    is_ascii_alnum(c) || c == '_' || c == '-'
}

/// A key.
pub open spec fn is_key(s: Seq<char>) -> bool {
    s.len() > 0 && forall|i: int| 0 <= i < s.len() ==> is_key_char(#[trigger] s[i])
}

/// What a line of a block of settings is.
pub open spec fn line_kind(line: Seq<char>) -> SettingLine {
    let t = trimmed(line);
    if t.len() == 0 || begins(t, "#"@) || begins(t, "- "@) {
        SettingLine::Aside
    } else {
        let k = first_pos(t, ':');
        if k < t.len() && is_key(trimmed(t.take(k as int))) {
            SettingLine::Setting
        } else {
            SettingLine::Other
        }
    }
}

/// The lines are settings: at least one is, and none is anything else.
pub open spec fn are_settings(v: Seq<Seq<char>>) -> bool {
    (forall|i: int| 0 <= i < v.len() ==> !(line_kind(#[trigger] v[i]) is Other)) && (exists|i: int|
        0 <= i < v.len() && line_kind(#[trigger] v[i]) is Setting)
}

fn key_char(c: char) -> (r: bool)
    ensures
        r == is_key_char(c),
{
    ascii_alnum(c) || c == '_' || c == '-'
}

fn is_key_text(s: &str) -> (r: bool)
    ensures
        r == is_key(s@),
{
    let v = chars_of(s);
    if v.len() == 0 {
        return false;
    }
    let mut i: usize = 0;
    while i < v.len()
        invariant
            i <= v@.len(),
            v@ == s@,
            forall|j: int| 0 <= j < i ==> is_key_char(#[trigger] v@[j]),
        decreases v@.len() - i,
    {
        let c: char = v[i];
        if !key_char(c) {
            assert(!is_key_char(s@[i as int]));
            return false;
        }
        i = i + 1;
    }
    true
}

fn find_char(v: &Vec<char>, c: char) -> (r: usize)
    ensures
        r == first_pos(v@, c),
        r <= v@.len(),
{
    let mut i: usize = 0;
    assert(v@.skip(0) =~= v@);
    while i < v.len() && v[i] != c
        invariant
            i <= v@.len(),
            first_pos(v@, c) == i + first_pos(v@.skip(i as int), c),
        decreases v@.len() - i,
    {
        assert(v@.skip(i as int).skip(1) =~= v@.skip(i + 1));
        i = i + 1;
    }
    assert(first_pos(v@.skip(i as int), c) == 0);
    i
}

fn kind_of_line(line: &str) -> (r: SettingLine)
    ensures
        r == line_kind(line@),
{
    let t = trim(line);
    let s = t.as_str();
    if s.is_empty() || starts_with(s, "#") || starts_with(s, "- ") {
        return SettingLine::Aside;
    }
    let v = chars_of(s);
    let k: usize = find_char(&v, ':');
    if k < v.len() {
        let key = text_between(&v, 0, k);
        assert(key@ =~= t@.take(k as int));
        if is_key_text(trim(key.as_str()).as_str()) {
            return SettingLine::Setting;
        }
    }
    SettingLine::Other
}

/// Whether the lines are settings.
pub fn looks_like_yaml_frontmatter(lines: &Vec<String>) -> (r: bool)
    ensures
        r == are_settings(texts(lines@)),
{
    let ghost all = texts(lines@);
    let mut seen: bool = false;
    let mut i: usize = 0;
    while i < lines.len()
        invariant
            i <= lines@.len(),
            all == texts(lines@),
            forall|j: int| 0 <= j < i ==> !(line_kind(#[trigger] all[j]) is Other),
            seen == exists|j: int| 0 <= j < i && line_kind(#[trigger] all[j]) is Setting,
        decreases lines@.len() - i,
    {
        assert(all[i as int] == lines@[i as int]@);
        match kind_of_line(lines[i].as_str()) {
            SettingLine::Aside => {},
            SettingLine::Setting => {
                assert(line_kind(all[i as int]) is Setting);
                seen = true;
            },
            SettingLine::Other => {
                assert(line_kind(all[i as int]) is Other);
                return false;
            },
        }
        i = i + 1;
    }
    seen
}

/// The length of the first line of `s`, with its line feed.
pub open spec fn line_length(s: Seq<char>) -> nat {
    if first_pos(s, '\n') < s.len() {
        first_pos(s, '\n') + 1
    } else {
        s.len()
    }
}

/// What follows a block of settings whose lines so far are `seen`, where it is
/// closed by a line of dashes and its lines are settings.
pub open spec fn behind_settings(s: Seq<char>, seen: Seq<Seq<char>>) -> Option<Seq<char>>
    decreases s.len(),
{
    let n = line_length(s);
    if s.len() == 0 || n == 0 || n > s.len() {
        None
    } else {
        let line = strip_back(s.take(n as int), "\r\n"@);
        if line == "---"@ {
            if are_settings(seen) {
                Some(s.skip(n as int))
            } else {
                None
            }
        } else {
            behind_settings(s.skip(n as int), seen.push(line))
        }
    }
}

/// A text without a mark of its byte order.
pub open spec fn without_bom(s: Seq<char>) -> Seq<char> {
    if begins(s, "\u{feff}"@) {
        s.skip("\u{feff}"@.len() as int)
    } else {
        s
    }
}

/// What follows the line of dashes that opens a block of settings.
pub open spec fn behind_opening(s: Seq<char>) -> Option<Seq<char>> {
    if !begins(s, "---"@) {
        None
    } else {
        let t = s.skip("---"@.len() as int);
        if begins(t, "\r\n"@) {
            Some(t.skip("\r\n"@.len() as int))
        } else if begins(t, "\n"@) {
            Some(t.skip("\n"@.len() as int))
        } else {
            None
        }
    }
}

/// A text without the block of settings that it begins with.
pub open spec fn without_settings(content: Seq<char>) -> Seq<char> {
    let s = without_bom(content);
    match behind_opening(s) {
        None => s,
        Some(t) => match behind_settings(t, Seq::empty()) {
            Some(rest) => rest,
            None => s,
        },
    }
}

fn find_opening(s: &str) -> (r: Option<String>)
    ensures
        opt_text(r) == behind_opening(s@),
{
    match strip_prefix(s, "---") {
        None => None,
        Some(t) => match strip_prefix(t.as_str(), "\r\n") {
            Some(rest) => Some(rest),
            None => strip_prefix(t.as_str(), "\n"),
        },
    }
}

fn find_rest(s: &str) -> (r: Option<String>)
    ensures
        opt_text(r) == behind_settings(s@, Seq::empty()),
{
    let v = chars_of(s);
    let ghost all = s@;
    let mut seen: Vec<String> = Vec::new();
    let mut start: usize = 0;
    assert(all.skip(0) =~= all);
    assert(texts(seen@) =~= Seq::empty());
    while start < v.len()
        invariant
            v@ == all,
            all == s@,
            start <= v@.len(),
            behind_settings(all.skip(start as int), texts(seen@)) == behind_settings(
                all,
                Seq::empty(),
            ),
        decreases v@.len() - start,
    {
        let ghost rest = all.skip(start as int);
        let end: usize = line_end(&v, start);
        proof {
            lemma_first_pos(rest, '\n');
            assert(rest.take(end - start) =~= v@.subrange(start as int, end as int));
            assert(rest.skip(end - start) =~= all.skip(end as int));
        }
        let raw = text_between(&v, start, end);
        let line = trim_end_chars(raw.as_str(), "\r\n");
        if same(line.as_str(), "---") {
            if looks_like_yaml_frontmatter(&seen) {
                let r = text_between(&v, end, v.len());
                assert(r@ =~= all.skip(end as int));
                return Some(r);
            }
            return None;
        }
        let ghost before = texts(seen@);
        let ghost view = line@;
        seen.push(line);
        assert(texts(seen@) =~= before.push(view));
        start = end;
    }
    assert(all.skip(start as int).len() == 0);
    None
}

fn line_end(v: &Vec<char>, start: usize) -> (r: usize)
    requires
        start < v@.len(),
    ensures
        start < r <= v@.len(),
        r - start == line_length(v@.skip(start as int)),
{
    let ghost rest = v@.skip(start as int);
    let mut i: usize = start;
    assert(rest.skip(0) =~= rest);
    while i < v.len() && v[i] != '\n'
        invariant
            start <= i <= v@.len(),
            rest == v@.skip(start as int),
            first_pos(rest, '\n') == (i - start) + first_pos(v@.skip(i as int), '\n'),
        decreases v@.len() - i,
    {
        assert(v@.skip(i as int).skip(1) =~= v@.skip(i + 1));
        i = i + 1;
    }
    assert(first_pos(v@.skip(i as int), '\n') == 0);
    if i < v.len() {
        i + 1
    } else {
        i
    }
}

/// A text without the block of settings that it begins with.
pub fn strip_yaml_frontmatter(content: &str) -> (r: String)
    ensures
        r@ == without_settings(content@),
{
    let s = match strip_prefix(content, "\u{feff}") {
        Some(t) => t,
        None => owned(content),
    };
    match find_opening(s.as_str()) {
        None => s,
        Some(t) => match find_rest(t.as_str()) {
            Some(rest) => rest,
            None => s,
        },
    }
}

/// A text without the white space around it, nothing where that is all.
pub open spec fn nonblank(s: Seq<char>) -> Option<Seq<char>> {
    if trimmed(s).len() == 0 {
        None
    } else {
        Some(trimmed(s))
    }
}

/// What a file holds, nothing where it is blank or cannot be read.
pub open spec fn nonblank_file(o: Option<Seq<char>>) -> Option<Seq<char>> {
    match o {
        Some(s) => nonblank(s),
        None => None,
    }
}

/// What a prompt file holds behind its settings, nothing where that is blank or
/// the file cannot be read.
pub open spec fn nonblank_prompt(o: Option<Seq<char>>) -> Option<Seq<char>> {
    match o {
        Some(s) => nonblank(without_settings(s)),
        None => None,
    }
}

/// What a file holds, nothing where it is blank or cannot be read.
pub fn read_nonempty(content: Option<&str>) -> (r: Option<String>)
    ensures
        opt_text(r) == nonblank_file(opt_str(content)),
{
    match content {
        Some(s) => {
            let t = trim(s);
            if t.as_str().is_empty() {
                None
            } else {
                Some(t)
            }
        },
        None => None,
    }
}

/// What a prompt file holds behind its settings, nothing where that is blank or
/// the file cannot be read.
pub fn read_prompt_nonempty(content: Option<&str>) -> (r: Option<String>)
    ensures
        opt_text(r) == nonblank_prompt(opt_str(content)),
{
    match content {
        Some(s) => {
            let t = trim(strip_yaml_frontmatter(s).as_str());
            if t.as_str().is_empty() {
                None
            } else {
                Some(t)
            }
        },
        None => None,
    }
}

proof fn lemma_behind_is_suffix(s: Seq<char>, seen: Seq<Seq<char>>)
    ensures
        behind_settings(s, seen) is Some ==> ends(s, behind_settings(s, seen)->0),
    decreases s.len(),
{
    let n = line_length(s);
    if s.len() > 0 && n > 0 && n <= s.len() {
        let line = strip_back(s.take(n as int), "\r\n"@);
        let rest = s.skip(n as int);
        if line == "---"@ {
            assert(s.skip(s.len() - rest.len()) =~= rest);
        } else {
            lemma_behind_is_suffix(rest, seen.push(line));
            if behind_settings(s, seen) is Some {
                let r = behind_settings(s, seen)->0;
                assert(rest.skip(rest.len() - r.len()) =~= s.skip(s.len() - r.len()));
            }
        }
    }
}

/// Taking the settings away leaves the end of the text as it is, and a text
/// that does not begin with dashes is left whole.
pub proof fn law_strip_keeps_tail(content: Seq<char>)
    ensures
        ends(content, without_settings(content)),
        behind_opening(without_bom(content)) is None ==> without_settings(content) == without_bom(
            content,
        ),
{
    let s = without_bom(content);
    assert(ends(content, s)) by {
        assert(content.skip(content.len() - s.len()) =~= s);
    }
    let r = without_settings(content);
    assert(ends(s, r)) by {
        assert(s.skip(0) =~= s);
        match behind_opening(s) {
            None => {},
            Some(t) => {
                assert(s.skip(s.len() - t.len()) =~= t);
                lemma_behind_is_suffix(t, Seq::empty());
                if behind_settings(t, Seq::empty()) is Some {
                    assert(t.skip(t.len() - r.len()) =~= s.skip(s.len() - r.len()));
                }
            },
        }
    }
    assert(s.skip(s.len() - r.len()) =~= content.skip(content.len() - r.len()));
}

} // verus!
