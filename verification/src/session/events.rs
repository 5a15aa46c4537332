//! What clients are told when a run is stopped, and the token that stops the
//! program.

use crate::digest::{le_bytes, push_le, sha256, sha256_hex};
use crate::json::{Json, JsonView, Obj, json_text, make2, no_entries, object2, with_entry};
use crate::text::{concat3, decimal, decimal_spec, is_hex};
use vstd::prelude::*;
use vstd::string::*;

verus! {

/// What the user is told when a loop of tools is stopped.
pub open spec fn loop_notice(limit: nat) -> Seq<char> {
    "Detected abnormal tool loop ("@ + decimal_spec(limit) + " consecutive rounds). Stopping."@
}

/// The end of a run that was stopped.
pub open spec fn stopped_event(cycles: u64, tool_calls: u64) -> JsonView {
    JsonView::Object(
        with_entry(
            with_entry(
                with_entry(
                    with_entry(
                        with_entry(no_entries(), "type"@, JsonView::Text("done"@)),
                        "phase"@,
                        JsonView::Text("hard_cap"@),
                    ),
                    "reason"@,
                    JsonView::Text("hard_cap"@),
                ),
                "cycles"@,
                JsonView::Unsigned(cycles),
            ),
            "tool_calls"@,
            JsonView::Unsigned(tool_calls),
        ),
    )
}

/// What clients are told when a loop of tools is stopped: a notice, and the end
/// of the run.
pub fn build_agent_hard_cap_events(limit: u64, cycles: u64, tool_calls: u64) -> (r: (Json, Json))
    ensures
        r.0@ == object2(
            "type"@,
            JsonView::Text("system"@),
            "content"@,
            JsonView::Text(loop_notice(limit as nat)),
        ),
        r.1@ == stopped_event(cycles, tool_calls),
{
    let notice = concat3(
        "Detected abnormal tool loop (",
        decimal(limit).as_str(),
        " consecutive rounds). Stopping.",
    );
    let system = make2("type", json_text("system"), "content", json_text(notice.as_str()));
    let mut o = Obj::new();
    o.set_text("type", "done");
    o.set_text("phase", "hard_cap");
    o.set_text("reason", "hard_cap");
    o.set_number("cycles", cycles);
    o.set_number("tool_calls", tool_calls);
    (system, o.done())
}

/// Calls `BuildHasher::hash_one` of a new `std::hash::RandomState`, whose keys
/// are random. Nothing can be said of the number.
#[verifier::external_body]
fn random_word(salt: u64) -> u64 {
    std::hash::BuildHasher::hash_one(&std::hash::RandomState::new(), salt)
}

/// The token made of random numbers.
pub fn token_from_words(words: &Vec<u64>) -> (r: String)
    requires
        words@.len() == 4,
    ensures
        r@ == sha256_hex(word_bytes(words@, 4)),
        r@.len() == 64,
        forall|i: int| 0 <= i < 64 ==> is_hex(#[trigger] r@[i]),
{
    let mut bytes: Vec<u8> = Vec::new();
    let mut n: usize = 0;
    while n < 4
        invariant
            n <= 4,
            words@.len() == 4,
            bytes@ == word_bytes(words@, n as int),
        decreases 4 - n,
    {
        push_le(&mut bytes, words[n] as u128, 8);
        n = n + 1;
    }
    sha256(bytes.as_slice())
}

/// The bytes of the first `n` numbers, the lowest first.
pub open spec fn word_bytes(words: Seq<u64>, n: int) -> Seq<u8>
    decreases n,
{
    if n <= 0 {
        Seq::empty()
    } else {
        word_bytes(words, n - 1) + le_bytes(words[n - 1] as nat, 8)
    }
}

/// A new token: 64 hexadecimal digits, the digest of four random words.
pub fn generate_shutdown_token() -> (r: String)
    ensures
        exists|w: Seq<u64>| w.len() == 4 && r@ == #[trigger] sha256_hex(word_bytes(w, 4)),
        r@.len() == 64,
        forall|i: int| 0 <= i < 64 ==> is_hex(#[trigger] r@[i]),
{
    let mut words: Vec<u64> = Vec::new();
    words.push(random_word(0));
    words.push(random_word(1));
    words.push(random_word(2));
    words.push(random_word(3));
    let token = token_from_words(&words);
    assert(words@.len() == 4 && token@ == sha256_hex(word_bytes(words@, 4)));
    token
}

} // verus!
