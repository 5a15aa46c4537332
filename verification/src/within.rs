//! Texts within texts.

use crate::text::joined;
use vstd::prelude::*;

verus! {

/// The text `needle` stands somewhere in `hay`.
pub open spec fn occurs(hay: Seq<char>, needle: Seq<char>) -> bool {
    exists|a: int, b: int|
        0 <= a <= b <= hay.len() && #[trigger] hay.subrange(a, b) == needle
}

pub proof fn lemma_within(p: Seq<char>, x: Seq<char>, q: Seq<char>)
    ensures
        occurs(p + x + q, x),
{
    let s = p + x + q;
    assert(s.subrange(p.len() as int, (p.len() + x.len()) as int) =~= x);
}

pub proof fn lemma_carries_over(big: Seq<char>, mid: Seq<char>, small: Seq<char>)
    requires
        occurs(big, mid),
        occurs(mid, small),
    ensures
        occurs(big, small),
{
    let (a, b) = choose|a: int, b: int|
        0 <= a <= b <= big.len() && #[trigger] big.subrange(a, b) == mid;
    let (c, d) = choose|c: int, d: int|
        0 <= c <= d <= mid.len() && #[trigger] mid.subrange(c, d) == small;
    assert(big.subrange(a + c, a + d) =~= small);
}

/// What a part of a text holds, the whole holds.
pub proof fn lemma_in_either(a: Seq<char>, b: Seq<char>, x: Seq<char>)
    ensures
        occurs(a, x) || occurs(b, x) ==> occurs(a + b, x),
{
    let none = Seq::<char>::empty();
    lemma_within(none, a, b);
    assert(none + a + b =~= a + b);
    lemma_within(a, b, none);
    assert(a + b + none =~= a + b);
    if occurs(a, x) {
        lemma_carries_over(a + b, a, x);
    }
    if occurs(b, x) {
        lemma_carries_over(a + b, b, x);
    }
}

pub proof fn lemma_all_of(x: Seq<char>)
    ensures
        occurs(x, x),
{
    let none = Seq::<char>::empty();
    lemma_within(none, x, none);
    assert(none + x + none =~= x);
}

pub proof fn lemma_joined_holds(parts: Seq<Seq<char>>, sep: Seq<char>, i: int)
    requires
        0 <= i < parts.len(),
    ensures
        occurs(joined(parts, sep), parts[i]),
    decreases parts.len(),
{
    lemma_all_of(parts[i]);
    if parts.len() > 1 {
        let before = joined(parts.drop_last(), sep);
        if i < parts.len() - 1 {
            lemma_joined_holds(parts.drop_last(), sep, i);
            assert(parts.drop_last()[i] == parts[i]);
        }
        lemma_in_either(before, sep, parts[i]);
        lemma_in_either(before + sep, parts.last(), parts[i]);
    }
}

} // verus!
