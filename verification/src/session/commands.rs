//! What tools may do, and small notations that they share.

use crate::text::{
    ascii_lower, begins, char_count, chars_of, contains, decimal, decimal_spec, decimal_wide,
    ends, ends_with, holds_text, lemma_ascii_lower_idempotent, opt_text, owned, same,
    starts_with, strip_prefix, strs, text_between, to_ascii_lower,
};
use vstd::prelude::*;
use vstd::string::*;

verus! {

/// What no command may hold, whatever its case.
pub open spec fn forbidden_parts() -> Seq<Seq<char>> {
    seq![
        "rm -rf /"@,
        "mkfs"@,
        "dd if="@,
        ":(){"@,
        "> /dev/sd"@,
        "format c:"@,
        "del /f /s /q c:"@,
        "rd /s /q c:"@,
    ]
}

/// The first of the parts from `i` on that a text holds.
pub open spec fn first_held(text: Seq<char>, parts: Seq<Seq<char>>, i: int) -> Option<Seq<char>>
    decreases parts.len() - i,
{
    if i < 0 || i >= parts.len() {
        None
    } else if holds_text(text, parts[i]) {
        Some(parts[i])
    } else {
        first_held(text, parts, i + 1)
    }
}

/// Why a command may not be run.
pub open spec fn danger_of(command: Seq<char>) -> Option<Seq<char>> {
    match first_held(ascii_lower(command), forbidden_parts(), 0) {
        Some(p) => Some("blocked dangerous command pattern: "@ + p),
        None => None,
    }
}

/// Why a command may not be run; nothing where it may.
pub fn check_dangerous_command(command: &str) -> (r: Option<String>)
    ensures
        opt_text(r) == danger_of(command@),
{
    let lower = to_ascii_lower(command);
    let parts: Vec<&'static str> = vec![
        "rm -rf /",
        "mkfs",
        "dd if=",
        ":(){",
        "> /dev/sd",
        "format c:",
        "del /f /s /q c:",
        "rd /s /q c:",
    ];
    let ghost all = strs(parts@);
    assert(all =~= forbidden_parts());
    let mut i: usize = 0;
    while i < parts.len()
        invariant
            i <= parts@.len(),
            all == strs(parts@),
            all == forbidden_parts(),
            lower@ == ascii_lower(command@),
            first_held(lower@, all, 0) == first_held(lower@, all, i as int),
        decreases parts@.len() - i,
    {
        assert(all[i as int] == parts@[i as int]@);
        if contains(lower.as_str(), parts[i]) {
            let mut text = owned("blocked dangerous command pattern: ");
            text.append(parts[i]);
            return Some(text);
        }
        i = i + 1;
    }
    None
}

proof fn lemma_first_held(text: Seq<char>, parts: Seq<Seq<char>>, i: int, k: int)
    requires
        0 <= i <= k < parts.len(),
        holds_text(text, parts[k]),
    ensures
        first_held(text, parts, i) is Some,
    decreases k - i,
{
    if i < k {
        lemma_first_held(text, parts, i + 1, k);
    }
}

/// A command that holds a forbidden part is refused in whatever case it is
/// written.
pub proof fn law_danger_ignores_case(command: Seq<char>, k: int)
    requires
        0 <= k < forbidden_parts().len(),
        holds_text(ascii_lower(command), forbidden_parts()[k]),
    ensures
        danger_of(command) is Some,
        danger_of(ascii_lower(command)) == danger_of(command),
{
    lemma_first_held(ascii_lower(command), forbidden_parts(), 0, k);
    lemma_ascii_lower_idempotent(command);
}

/// Whether a tool is for administration.
pub fn is_admin_tool(name: &str) -> (r: bool)
    ensures
        r == (name@ == "list_sessions"@ || name@ == "delete_session"@),
{
    same(name, "list_sessions") || same(name, "delete_session")
}

/// The name matches the pattern: a star at either end stands for anything.
pub open spec fn glob_matches(name: Seq<char>, pattern: Seq<char>) -> bool {
    if begins(pattern, "*"@) {
        ends(name, pattern.skip("*"@.len() as int))
    } else if ends(pattern, "*"@) {
        begins(name, pattern.take(pattern.len() - "*"@.len()))
    } else {
        name == pattern
    }
}

/// Whether a name matches a pattern with a star at its beginning or its end.
pub fn matches_glob(name: &str, pattern: &str) -> (r: bool)
    ensures
        r == glob_matches(name@, pattern@),
{
    if let Some(rest) = strip_prefix(pattern, "*") {
        return ends_with(name, rest.as_str());
    }
    if ends_with(pattern, "*") {
        let v = chars_of(pattern);
        let n: usize = v.len() - char_count("*");
        let head = text_between(&v, 0, n);
        assert(head@ =~= pattern@.take(pattern@.len() - "*"@.len()));
        return starts_with(name, head.as_str());
    }
    same(name, pattern)
}

/// `bytes` in tenths of `unit`, rounded to the nearest, ties to the even one.
pub open spec fn tenths_of(bytes: nat, unit: nat) -> nat {
    let q = bytes * 10 / unit;
    let rest = bytes * 10 % unit;
    if rest * 2 > unit || (rest * 2 == unit && q % 2 == 1) {
        q + 1
    } else {
        q
    }
}

/// A number of tenths.
pub open spec fn tenths_text(n: nat) -> Seq<char> {
    decimal_spec(n / 10) + "."@ + decimal_spec(n % 10)
}

/// A size in the largest unit that it fills.
pub open spec fn size_text(bytes: nat) -> Seq<char> {
    if bytes < 1024 {
        decimal_spec(bytes) + " B"@
    } else if bytes < 1048576 {
        tenths_text(tenths_of(bytes, 1024)) + " KB"@
    } else {
        tenths_text(tenths_of(bytes, 1048576)) + " MB"@
    }
}

fn tenths(bytes: u64, unit: u64) -> (r: u128)
    requires
        unit > 0,
    ensures
        r == tenths_of(bytes as nat, unit as nat),
{
    let scaled: u128 = bytes as u128 * 10;
    let u: u128 = unit as u128;
    let q: u128 = scaled / u;
    let rest: u128 = scaled % u;
    assert(q <= scaled) by (nonlinear_arith)
        requires
            q == scaled / u,
            u > 0,
    ;
    if rest * 2 > u || (rest * 2 == u && q % 2 == 1) {
        q + 1
    } else {
        q
    }
}

fn in_unit(bytes: u64, unit: u64, name: &str) -> (r: String)
    requires
        unit > 0,
    ensures
        r@ == tenths_text(tenths_of(bytes as nat, unit as nat)) + name@,
{
    let t: u128 = tenths(bytes, unit);
    let mut s = decimal_wide(t / 10);
    s.append(".");
    s.append(decimal_wide(t % 10).as_str());
    s.append(name);
    s
}

/// A size in words.
pub fn format_size(bytes: u64) -> (r: String)
    ensures
        r@ == size_text(bytes as nat),
{
    if bytes < 1024 {
        let mut s = decimal(bytes);
        s.append(" B");
        return s;
    }
    if bytes < 1048576 {
        in_unit(bytes, 1024, " KB")
    } else {
        in_unit(bytes, 1048576, " MB")
    }
}

} // verus!
