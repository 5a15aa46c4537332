//! JSON values as plain data, read and written by `serde_json`.

use crate::text::{before, byte_len, opt_str, owned, same, text_before, texts};
use vstd::prelude::*;
use vstd::string::*;

verus! {

/// A JSON number: a non-negative integer, a negative integer, or the notation
/// of any other number.
#[derive(Debug, PartialEq, Eq)]
pub enum JsonNumber {
    Unsigned(u64),
    Negative(i64),
    Float(String),
}

/// A JSON value. The entries of an object stand in the order of their keys.
#[derive(Debug, PartialEq, Eq)]
pub enum Json {
    Null,
    Bool(bool),
    Number(JsonNumber),
    Text(String),
    Array(Vec<Json>),
    Object(Vec<(String, Json)>),
}

/// What a JSON value says.
pub enum JsonView {
    Null,
    Bool(bool),
    Unsigned(u64),
    Negative(i64),
    Float(Seq<char>),
    Text(Seq<char>),
    Array(Seq<JsonView>),
    Object(Seq<(Seq<char>, JsonView)>),
}

/// What the JSON value `j` says.
pub open spec fn json_view(j: Json) -> JsonView
    decreases j,
{
    match j {
        Json::Null => JsonView::Null,
        Json::Bool(b) => JsonView::Bool(b),
        Json::Number(JsonNumber::Unsigned(n)) => JsonView::Unsigned(n),
        Json::Number(JsonNumber::Negative(n)) => JsonView::Negative(n),
        Json::Number(JsonNumber::Float(s)) => JsonView::Float(s@),
        Json::Text(s) => JsonView::Text(s@),
        Json::Array(v) => JsonView::Array(
            Seq::new(
                v@.len(),
                |i: int|
                    if 0 <= i < v@.len() {
                        json_view(v@[i])
                    } else {
                        JsonView::Null
                    },
            ),
        ),
        Json::Object(v) => JsonView::Object(
            Seq::new(
                v@.len(),
                |i: int|
                    if 0 <= i < v@.len() {
                        (v@[i].0@, json_view(v@[i].1))
                    } else {
                        (Seq::empty(), JsonView::Null)
                    },
            ),
        ),
    }
}

/// What the items of an array say.
pub open spec fn items_view(v: Seq<Json>) -> Seq<JsonView> {
    v.map_values(|j: Json| json_view(j))
}

/// What the entries of an object say.
pub open spec fn entries_view(v: Seq<(String, Json)>) -> Seq<(Seq<char>, JsonView)> {
    v.map_values(|e: (String, Json)| (e.0@, json_view(e.1)))
}

/// Unfolds what an array says.
pub proof fn lemma_array_view(v: Vec<Json>)
    ensures
        json_view(Json::Array(v)) == JsonView::Array(items_view(v@)),
{
    let a = json_view(Json::Array(v));
    assert(a->Array_0 =~= items_view(v@));
}

/// Unfolds what an object says.
pub proof fn lemma_object_view(v: Vec<(String, Json)>)
    ensures
        json_view(Json::Object(v)) == JsonView::Object(entries_view(v@)),
{
    let a = json_view(Json::Object(v));
    assert(a->Object_0 =~= entries_view(v@));
}

/// A notation of the number zero that is no integer's.
pub open spec fn is_zero_notation(s: Seq<char>) -> bool {
    s == "0.0"@ || s == "-0.0"@
}

/// Two values are equal: the same but for the sign of a zero.
pub open spec fn json_equal(a: JsonView, b: JsonView) -> bool
    decreases a,
{
    match (a, b) {
        (JsonView::Float(x), JsonView::Float(y)) => x == y || (is_zero_notation(x)
            && is_zero_notation(y)),
        (JsonView::Array(x), JsonView::Array(y)) => x.len() == y.len() && forall|i: int|
            0 <= i < x.len() ==> json_equal(#[trigger] x[i], y[i]),
        (JsonView::Object(x), JsonView::Object(y)) => x.len() == y.len() && forall|i: int|
            0 <= i < x.len() ==> (#[trigger] x[i]).0 == y[i].0 && json_equal(x[i].1, y[i].1),
        _ => a == b,
    }
}

impl Json {
    /// What this value says.
    pub open spec fn view(self) -> JsonView {
        json_view(self)
    }

    /// A copy of this value.
    pub fn copy(&self) -> (r: Json)
        ensures
            r@ == self@,
        decreases self,
    {
        match self {
            Json::Null => Json::Null,
            Json::Bool(b) => Json::Bool(*b),
            Json::Number(JsonNumber::Unsigned(n)) => Json::Number(JsonNumber::Unsigned(*n)),
            Json::Number(JsonNumber::Negative(n)) => Json::Number(JsonNumber::Negative(*n)),
            Json::Number(JsonNumber::Float(s)) => Json::Number(JsonNumber::Float(s.clone())),
            Json::Text(s) => Json::Text(s.clone()),
            Json::Array(v) => {
                let mut out: Vec<Json> = Vec::new();
                let mut i: usize = 0;
                while i < v.len()
                    invariant
                        i <= v@.len(),
                        *self is Array,
                        self->Array_0 == *v,
                        out@.len() == i,
                        items_view(out@) == items_view(v@).take(i as int),
                    decreases v@.len() - i,
                {
                    let ghost before = out@;
                    out.push(v[i].copy());
                    assert(json_view(out@[i as int]) == json_view(v@[i as int]));
                    assert(out@ == before.push(out@[i as int]));
                    i = i + 1;
                    assert(items_view(out@) =~= items_view(v@).take(i as int));
                }
                assert(items_view(v@).take(i as int) =~= items_view(v@));
                proof {
                    lemma_array_view(out);
                    lemma_array_view(*v);
                }
                Json::Array(out)
            },
            Json::Object(v) => {
                let mut out: Vec<(String, Json)> = Vec::new();
                let mut i: usize = 0;
                while i < v.len()
                    invariant
                        i <= v@.len(),
                        *self is Object,
                        self->Object_0 == *v,
                        out@.len() == i,
                        entries_view(out@) == entries_view(v@).take(i as int),
                    decreases v@.len() - i,
                {
                    let value = v[i].1.copy();
                    out.push((v[i].0.clone(), value));
                    i = i + 1;
                    assert(entries_view(out@) =~= entries_view(v@).take(i as int));
                }
                assert(entries_view(v@).take(i as int) =~= entries_view(v@));
                proof {
                    lemma_object_view(out);
                    lemma_object_view(*v);
                }
                Json::Object(out)
            },
        }
    }

    /// Whether two values are equal.
    pub fn says_same(&self, other: &Json) -> (r: bool)
        ensures
            r == json_equal(self@, other@),
        decreases self,
    {
        match (self, other) {
            (Json::Null, Json::Null) => true,
            (Json::Bool(a), Json::Bool(b)) => *a == *b,
            (Json::Number(JsonNumber::Unsigned(a)), Json::Number(JsonNumber::Unsigned(b))) => *a
                == *b,
            (Json::Number(JsonNumber::Negative(a)), Json::Number(JsonNumber::Negative(b))) => *a
                == *b,
            (Json::Number(JsonNumber::Float(a)), Json::Number(JsonNumber::Float(b))) => same(
                a.as_str(),
                b.as_str(),
            ) || ((same(a.as_str(), "0.0") || same(a.as_str(), "-0.0")) && (same(
                b.as_str(),
                "0.0",
            ) || same(b.as_str(), "-0.0"))),
            (Json::Text(a), Json::Text(b)) => same(a.as_str(), b.as_str()),
            (Json::Array(a), Json::Array(b)) => {
                proof {
                    lemma_array_view(*a);
                    lemma_array_view(*b);
                }
                if a.len() != b.len() {
                    assert(items_view(a@).len() != items_view(b@).len());
                    return false;
                }
                let mut i: usize = 0;
                while i < a.len()
                    invariant
                        i <= a@.len() == b@.len(),
                        *self == Json::Array(*a),
                        self@ == JsonView::Array(items_view(a@)),
                        other@ == JsonView::Array(items_view(b@)),
                        forall|j: int|
                            0 <= j < i ==> json_equal(
                                #[trigger] items_view(a@)[j],
                                items_view(b@)[j],
                            ),
                    decreases a@.len() - i,
                {
                    assert(items_view(a@)[i as int] == a@[i as int]@);
                    assert(items_view(b@)[i as int] == b@[i as int]@);
                    if !a[i].says_same(&b[i]) {
                        return false;
                    }
                    i = i + 1;
                }
                true
            },
            (Json::Object(a), Json::Object(b)) => {
                proof {
                    lemma_object_view(*a);
                    lemma_object_view(*b);
                }
                if a.len() != b.len() {
                    assert(entries_view(a@).len() != entries_view(b@).len());
                    return false;
                }
                let mut i: usize = 0;
                while i < a.len()
                    invariant
                        i <= a@.len() == b@.len(),
                        *self == Json::Object(*a),
                        self@ == JsonView::Object(entries_view(a@)),
                        other@ == JsonView::Object(entries_view(b@)),
                        forall|j: int|
                            0 <= j < i ==> (#[trigger] entries_view(a@)[j]).0 == entries_view(
                                b@,
                            )[j].0 && json_equal(entries_view(a@)[j].1, entries_view(b@)[j].1),
                    decreases a@.len() - i,
                {
                    assert(entries_view(a@)[i as int] == (a@[i as int].0@, a@[i as int].1@));
                    assert(entries_view(b@)[i as int] == (b@[i as int].0@, b@[i as int].1@));
                    if !same(a[i].0.as_str(), b[i].0.as_str()) || !a[i].1.says_same(&b[i].1) {
                        return false;
                    }
                    i = i + 1;
                }
                true
            },
            _ => false,
        }
    }

    /// The value that an object holds under `key`.
    pub fn get(&self, key: &str) -> (r: Option<&Json>)
        ensures
            match r {
                Some(j) => member(self@, key@) == Some(j@),
                None => member(self@, key@) is None,
            },
    {
        match self {
            Json::Object(v) => {
                proof {
                    lemma_object_view(*v);
                }
                let mut i: usize = 0;
                assert(entries_view(v@).skip(0) =~= entries_view(v@));
                while i < v.len()
                    invariant
                        i <= v@.len(),
                        entry(entries_view(v@).skip(i as int), key@) == entry(
                            entries_view(v@),
                            key@,
                        ),
                        self@ == JsonView::Object(entries_view(v@)),
                    decreases v@.len() - i,
                {
                    let ghost rest = entries_view(v@).skip(i as int);
                    assert(rest[0] == (v@[i as int].0@, json_view(v@[i as int].1)));
                    if same(v[i].0.as_str(), key) {
                        return Some(&v[i].1);
                    }
                    assert(rest.skip(1) =~= entries_view(v@).skip(i + 1));
                    i = i + 1;
                }
                None
            },
            _ => None,
        }
    }

    /// The text of a string value.
    pub fn as_str(&self) -> (r: Option<&str>)
        ensures
            match r {
                Some(s) => self@ == JsonView::Text(s@),
                None => !(self@ is Text),
            },
    {
        match self {
            Json::Text(s) => Some(s.as_str()),
            _ => None,
        }
    }

    /// The items of an array.
    pub fn as_array(&self) -> (r: Option<&Vec<Json>>)
        ensures
            match r {
                Some(v) => self@ == JsonView::Array(items_view(v@)) && *self == Json::Array(*v),
                None => !(self@ is Array),
            },
    {
        match self {
            Json::Array(v) => {
                proof {
                    lemma_array_view(*v);
                }
                Some(v)
            },
            _ => None,
        }
    }

    /// The truth value of a boolean.
    pub fn as_bool(&self) -> (r: Option<bool>)
        ensures
            match r {
                Some(b) => self@ == JsonView::Bool(b),
                None => !(self@ is Bool),
            },
    {
        match self {
            Json::Bool(b) => Some(*b),
            _ => None,
        }
    }

    /// The value of a non-negative integer.
    pub fn as_u64(&self) -> (r: Option<u64>)
        ensures
            match r {
                Some(n) => self@ == JsonView::Unsigned(n),
                None => !(self@ is Unsigned),
            },
    {
        match self {
            Json::Number(JsonNumber::Unsigned(n)) => Some(*n),
            _ => None,
        }
    }

    /// Whether this value is an object.
    pub fn is_object(&self) -> (r: bool)
        ensures
            r == (self@ is Object),
    {
        match self {
            Json::Object(_) => true,
            _ => false,
        }
    }

    /// Whether this value is `null`.
    pub fn is_null(&self) -> (r: bool)
        ensures
            r == (self@ is Null),
    {
        match self {
            Json::Null => true,
            _ => false,
        }
    }
}

/// The value under `key` among `entries`, the first where there are several.
pub open spec fn entry(entries: Seq<(Seq<char>, JsonView)>, key: Seq<char>) -> Option<JsonView>
    decreases entries.len(),
{
    if entries.len() == 0 {
        None
    } else if entries[0].0 == key {
        Some(entries[0].1)
    } else {
        entry(entries.skip(1), key)
    }
}

/// The value that `v` holds under `key`, where `v` is an object that has one.
pub open spec fn member(v: JsonView, key: Seq<char>) -> Option<JsonView> {
    match v {
        JsonView::Object(entries) => entry(entries, key),
        _ => None,
    }
}

/// `entries` with `value` under `key`, at the place of an entry with that key
/// or else before the first entry with a later key.
pub open spec fn with_entry(
    entries: Seq<(Seq<char>, JsonView)>,
    key: Seq<char>,
    value: JsonView,
) -> Seq<(Seq<char>, JsonView)>
    decreases entries.len(),
{
    if entries.len() == 0 {
        seq![(key, value)]
    } else if entries[0].0 == key {
        entries.update(0, (key, value))
    } else if text_before(key, entries[0].0) {
        seq![(key, value)] + entries
    } else {
        seq![entries[0]] + with_entry(entries.skip(1), key, value)
    }
}

/// After an entry is set, its key holds the new value and every other key holds
/// what it held before.
pub proof fn law_with_entry(
    entries: Seq<(Seq<char>, JsonView)>,
    key: Seq<char>,
    value: JsonView,
    other: Seq<char>,
)
    ensures
        entry(with_entry(entries, key, value), key) == Some(value),
        other != key ==> entry(with_entry(entries, key, value), other) == entry(entries, other),
    decreases entries.len(),
{
    reveal_with_fuel(entry, 3);
    let after = with_entry(entries, key, value);
    if entries.len() == 0 {
        assert(after.skip(1) =~= Seq::<(Seq<char>, JsonView)>::empty());
    } else if entries[0].0 == key {
        assert(after.skip(1) =~= entries.skip(1));
    } else if text_before(key, entries[0].0) {
        assert(after.skip(1) =~= entries);
        assert(after[0] == (key, value));
    } else {
        assert(after.skip(1) =~= with_entry(entries.skip(1), key, value));
        law_with_entry(entries.skip(1), key, value, other);
    }
}

/// Sets `value` under `key` in an object's entries.
pub fn put(entries: &mut Vec<(String, Json)>, key: &str, value: Json)
    ensures
        entries_view(final(entries)@) == with_entry(entries_view(old(entries)@), key@, value@),
{
    let ghost start = entries_view(entries@);
    let mut i: usize = 0;
    assert(start.skip(0) =~= start);
    assert(start.take(0) + with_entry(start.skip(0), key@, value@) =~= with_entry(
        start,
        key@,
        value@,
    ));
    while i < entries.len()
        invariant
            i <= entries@.len(),
            entries_view(entries@) == start,
            entries@ == old(entries)@,
            start.take(i as int) + with_entry(start.skip(i as int), key@, value@) == with_entry(
                start,
                key@,
                value@,
            ),
        decreases entries@.len() - i,
    {
        let ghost rest = start.skip(i as int);
        assert(rest[0] == start[i as int]);
        assert(start[i as int] == (entries@[i as int].0@, json_view(entries@[i as int].1)));
        if same(entries[i].0.as_str(), key) {
            let ghost e = (key@, value@);
            entries.set(i, (crate::text::owned(key), value));
            assert(entries_view(entries@) =~= start.update(i as int, e));
            assert(start.take(i as int) + rest.update(0, e) =~= start.update(i as int, e));
            return;
        }
        if before(key, entries[i].0.as_str()) {
            let ghost e = (key@, value@);
            entries.insert(i, (crate::text::owned(key), value));
            assert(entries_view(entries@) =~= start.insert(i as int, e));
            assert(start.take(i as int) + (seq![e] + rest) =~= start.insert(i as int, e));
            return;
        }
        assert(rest.skip(1) =~= start.skip(i + 1));
        assert(start.take(i as int) + (seq![rest[0]] + with_entry(rest.skip(1), key@, value@))
            =~= start.take(i + 1) + with_entry(start.skip(i + 1), key@, value@));
        i = i + 1;
    }
    let ghost e = (key@, value@);
    entries.push((crate::text::owned(key), value));
    assert(start.skip(i as int) =~= Seq::<(Seq<char>, JsonView)>::empty());
    assert(entries_view(entries@) =~= start.push(e));
    assert(start.take(i as int) + seq![e] =~= start.push(e));
}

/// `entries` without the first one under `key`.
pub open spec fn without_entry(entries: Seq<(Seq<char>, JsonView)>, key: Seq<char>) -> Seq<
    (Seq<char>, JsonView),
>
    decreases entries.len(),
{
    if entries.len() == 0 {
        entries
    } else if entries[0].0 == key {
        entries.skip(1)
    } else {
        seq![entries[0]] + without_entry(entries.skip(1), key)
    }
}

/// Takes the first entry under `key` out of an object's entries.
pub fn take_entry(entries: Vec<(String, Json)>, key: &str) -> (r: (
    Option<Json>,
    Vec<(String, Json)>,
))
    ensures
        (match r.0 {
            Some(j) => Some(j@),
            None => None,
        }) == entry(entries_view(entries@), key@),
        entries_view(r.1@) == without_entry(entries_view(entries@), key@),
{
    let ghost start = entries_view(entries@);
    let mut i: usize = 0;
    assert(start.skip(0) =~= start);
    assert(start.take(0) + without_entry(start.skip(0), key@) =~= without_entry(start, key@));
    while i < entries.len()
        invariant
            i <= entries@.len(),
            start == entries_view(entries@),
            entry(start, key@) == entry(start.skip(i as int), key@),
            start.take(i as int) + without_entry(start.skip(i as int), key@) == without_entry(
                start,
                key@,
            ),
        decreases entries@.len() - i,
    {
        let ghost rest = start.skip(i as int);
        assert(rest[0] == (entries@[i as int].0@, json_view(entries@[i as int].1)));
        if same(entries[i].0.as_str(), key) {
            let mut left = entries;
            let (_, value) = left.remove(i);
            assert(entries_view(left@) =~= start.remove(i as int));
            assert(start.take(i as int) + rest.skip(1) =~= start.remove(i as int));
            return (Some(value), left);
        }
        assert(rest.skip(1) =~= start.skip(i + 1));
        assert(start.take(i as int) + (seq![rest[0]] + without_entry(rest.skip(1), key@))
            =~= start.take(i + 1) + without_entry(start.skip(i + 1), key@));
        i = i + 1;
    }
    assert(start.skip(i as int) =~= Seq::<(Seq<char>, JsonView)>::empty());
    assert(start.take(i as int) + without_entry(start.skip(i as int), key@) =~= start);
    (None, entries)
}

// ---------------------------------------------------------------------------
// Building objects
// ---------------------------------------------------------------------------

/// The entries of an object with none.
pub open spec fn no_entries() -> Seq<(Seq<char>, JsonView)> {
    Seq::empty()
}

/// The array of the given texts.
pub open spec fn texts_json(v: Seq<Seq<char>>) -> JsonView {
    JsonView::Array(v.map_values(|t: Seq<char>| JsonView::Text(t)))
}

/// The array of the given texts.
pub fn text_array(v: &Vec<String>) -> (r: Json)
    ensures
        r@ == texts_json(texts(v@)),
{
    let mut out: Vec<Json> = Vec::new();
    let mut i: usize = 0;
    while i < v.len()
        invariant
            i <= v@.len(),
            out@.len() == i,
            forall|j: int| 0 <= j < i ==> json_view(#[trigger] out@[j]) == JsonView::Text(v@[j]@),
        decreases v@.len() - i,
    {
        out.push(Json::Text(v[i].clone()));
        i = i + 1;
    }
    proof {
        lemma_array_view(out);
    }
    assert(items_view(out@) =~= texts(v@).map_values(|t: Seq<char>| JsonView::Text(t)));
    Json::Array(out)
}

/// An object under construction.
pub struct Obj {
    pub entries: Vec<(String, Json)>,
}

impl Obj {
    /// The entries so far.
    pub open spec fn view(self) -> Seq<(Seq<char>, JsonView)> {
        entries_view(self.entries@)
    }

    /// An object without entries.
    pub fn new() -> (r: Obj)
        ensures
            r@ == no_entries(),
    {
        let r = Obj { entries: Vec::new() };
        assert(r@ =~= no_entries());
        r
    }

    /// Sets a value.
    pub fn set(&mut self, key: &str, value: Json)
        ensures
            final(self)@ == with_entry(old(self)@, key@, value@),
    {
        put(&mut self.entries, key, value);
    }

    /// Sets a text.
    pub fn set_text(&mut self, key: &str, value: &str)
        ensures
            final(self)@ == with_entry(old(self)@, key@, JsonView::Text(value@)),
    {
        put(&mut self.entries, key, Json::Text(crate::text::owned(value)));
    }

    /// Sets a non-negative number.
    pub fn set_number(&mut self, key: &str, value: u64)
        ensures
            final(self)@ == with_entry(old(self)@, key@, JsonView::Unsigned(value)),
    {
        put(&mut self.entries, key, Json::Number(JsonNumber::Unsigned(value)));
    }

    /// Sets a truth value.
    pub fn set_bool(&mut self, key: &str, value: bool)
        ensures
            final(self)@ == with_entry(old(self)@, key@, JsonView::Bool(value)),
    {
        put(&mut self.entries, key, Json::Bool(value));
    }

    /// The finished object.
    pub fn done(self) -> (r: Json)
        ensures
            r@ == JsonView::Object(self@),
    {
        proof {
            lemma_object_view(self.entries);
        }
        Json::Object(self.entries)
    }
}

/// A text as a value.
pub fn json_text(s: &str) -> (r: Json)
    ensures
        r@ == JsonView::Text(s@),
{
    Json::Text(crate::text::owned(s))
}

/// The array of the given values.
pub fn json_array(v: Vec<Json>) -> (r: Json)
    ensures
        r@ == JsonView::Array(items_view(v@)),
{
    proof {
        lemma_array_view(v);
    }
    Json::Array(v)
}

/// No values.
pub fn no_items() -> (r: Vec<Json>)
    ensures
        items_view(r@) == Seq::<JsonView>::empty(),
{
    let r: Vec<Json> = Vec::new();
    assert(items_view(r@) =~= Seq::<JsonView>::empty());
    r
}

/// Appends a value.
pub fn push_item(v: &mut Vec<Json>, item: Json)
    ensures
        items_view(final(v)@) == items_view(old(v)@).push(item@),
{
    let ghost before = items_view(v@);
    let ghost view = item@;
    v.push(item);
    assert(items_view(v@) =~= before.push(view));
}

/// The object of one entry.
pub open spec fn object1(
    k1: Seq<char>,
    v1: JsonView,
) -> JsonView {
    JsonView::Object(with_entry(no_entries(), k1, v1))
}

/// The object of one entry.
pub fn make1(
    k1: &str,
    v1: Json,
) -> (r: Json)
    ensures
        r@ == object1(k1@, v1@),
{
    let mut o = Obj::new();
    o.set(k1, v1);
    o.done()
}

/// The object of two entries.
pub open spec fn object2(
    k1: Seq<char>,
    v1: JsonView,
    k2: Seq<char>,
    v2: JsonView,
) -> JsonView {
    JsonView::Object(with_entry(with_entry(no_entries(), k1, v1), k2, v2))
}

/// The object of two entries.
pub fn make2(
    k1: &str,
    v1: Json,
    k2: &str,
    v2: Json,
) -> (r: Json)
    ensures
        r@ == object2(k1@, v1@, k2@, v2@),
{
    let mut o = Obj::new();
    o.set(k1, v1);
    o.set(k2, v2);
    o.done()
}

/// The object of three entries.
pub open spec fn object3(
    k1: Seq<char>,
    v1: JsonView,
    k2: Seq<char>,
    v2: JsonView,
    k3: Seq<char>,
    v3: JsonView,
) -> JsonView {
    JsonView::Object(with_entry(with_entry(with_entry(no_entries(), k1, v1), k2, v2), k3, v3))
}

/// The object of three entries.
pub fn make3(
    k1: &str,
    v1: Json,
    k2: &str,
    v2: Json,
    k3: &str,
    v3: Json,
) -> (r: Json)
    ensures
        r@ == object3(k1@, v1@, k2@, v2@, k3@, v3@),
{
    let mut o = Obj::new();
    o.set(k1, v1);
    o.set(k2, v2);
    o.set(k3, v3);
    o.done()
}

/// The object of four entries.
pub open spec fn object4(
    k1: Seq<char>,
    v1: JsonView,
    k2: Seq<char>,
    v2: JsonView,
    k3: Seq<char>,
    v3: JsonView,
    k4: Seq<char>,
    v4: JsonView,
) -> JsonView {
    JsonView::Object(with_entry(with_entry(with_entry(with_entry(no_entries(), k1, v1), k2, v2), k3, v3), k4, v4))
}

/// The object of four entries.
pub fn make4(
    k1: &str,
    v1: Json,
    k2: &str,
    v2: Json,
    k3: &str,
    v3: Json,
    k4: &str,
    v4: Json,
) -> (r: Json)
    ensures
        r@ == object4(k1@, v1@, k2@, v2@, k3@, v3@, k4@, v4@),
{
    let mut o = Obj::new();
    o.set(k1, v1);
    o.set(k2, v2);
    o.set(k3, v3);
    o.set(k4, v4);
    o.done()
}

/// The text that an object holds under `key`, if it is one.
pub open spec fn opt_text_at(v: JsonView, key: Seq<char>) -> Option<Seq<char>> {
    match member(v, key) {
        Some(JsonView::Text(t)) => Some(t),
        _ => None,
    }
}

/// The text that an object holds under `key`, else nothing.
pub open spec fn text_at(v: JsonView, key: Seq<char>) -> Seq<char> {
    match opt_text_at(v, key) {
        Some(t) => t,
        None => Seq::empty(),
    }
}

/// The text that the object holds under `key`, if it is one.
pub fn find_text<'a>(v: &'a Json, key: &str) -> (r: Option<&'a str>)
    ensures
        opt_str(r) == opt_text_at(v@, key@),
{
    match v.get(key) {
        Some(j) => j.as_str(),
        None => None,
    }
}

/// The text that the object holds under `key`, else nothing.
pub fn get_text(v: &Json, key: &str) -> (r: String)
    ensures
        r@ == text_at(v@, key@),
{
    match find_text(v, key) {
        Some(s) => owned(s),
        None => String::new(),
    }
}

/// The items of the array that `raw` holds under `key`.
pub open spec fn array_at(raw: JsonView, key: Seq<char>) -> Option<Seq<JsonView>> {
    match member(raw, key) {
        Some(JsonView::Array(items)) => Some(items),
        _ => None,
    }
}

/// A text entry of an object, with a text in place of any other value.
pub open spec fn text_or(v: JsonView, key: Seq<char>, fallback: Seq<char>) -> Seq<char> {
    match member(v, key) {
        Some(JsonView::Text(t)) => t,
        _ => fallback,
    }
}

/// A text entry of an object, with a text in place of any other value.
pub fn get_text_or(v: &Json, key: &str, fallback: &str) -> (r: String)
    ensures
        r@ == text_or(v@, key@, fallback@),
{
    match v.get(key) {
        Some(x) => match x.as_str() {
            Some(t) => owned(t),
            None => owned(fallback),
        },
        None => owned(fallback),
    }
}

/// A number that an object holds.
pub open spec fn number_at(v: JsonView, key: Seq<char>) -> Option<u64> {
    match member(v, key) {
        Some(JsonView::Unsigned(n)) => Some(n),
        _ => None,
    }
}

/// A number that an object holds.
pub fn get_number(v: &Json, key: &str) -> (r: Option<u64>)
    ensures
        r == number_at(v@, key@),
{
    match v.get(key) {
        Some(x) => x.as_u64(),
        None => None,
    }
}

/// A number that an object holds within another.
pub open spec fn inner_number(v: JsonView, outer: Seq<char>, key: Seq<char>) -> Option<u64> {
    match member(v, outer) {
        Some(u) => number_at(u, key),
        None => None,
    }
}

/// A number that an object holds within another.
pub fn get_inner_number(v: &Json, outer: &str, key: &str) -> (r: Option<u64>)
    ensures
        r == inner_number(v@, outer@, key@),
{
    match v.get(outer) {
        Some(u) => get_number(u, key),
        None => None,
    }
}

/// The value of a text.
pub open spec fn jtext(s: Seq<char>) -> JsonView {
    JsonView::Text(s)
}

// ---------------------------------------------------------------------------
// serde_json
// ---------------------------------------------------------------------------

/// The value type of `serde_json`.
#[verifier::external_type_specification]
#[verifier::external_body]
pub struct ExValue(serde_json::Value);

/// What `serde_json` reads from `text`: a value, or the message of its error.
pub uninterp spec fn json_parsed(text: Seq<char>) -> Result<JsonView, Seq<char>>;

/// The compact notation that `serde_json` writes for `value`.
pub uninterp spec fn json_compact(value: JsonView) -> Seq<char>;

/// Moves a `serde_json::Value` into the library's own type, one for one. An
/// object's entries come in the order in which `serde_json` hands them out.
#[verifier::external_body]
fn from_value(value: serde_json::Value) -> Json {
    match value {
        serde_json::Value::Null => Json::Null,
        serde_json::Value::Bool(b) => Json::Bool(b),
        serde_json::Value::Number(n) => Json::Number(match (n.as_u64(), n.as_i64()) {
            (Some(u), _) => JsonNumber::Unsigned(u),
            (None, Some(i)) => JsonNumber::Negative(i),
            (None, None) => JsonNumber::Float(n.to_string()),
        }),
        serde_json::Value::String(s) => Json::Text(s),
        serde_json::Value::Array(a) => Json::Array(a.into_iter().map(from_value).collect()),
        serde_json::Value::Object(m) => Json::Object(
            m.into_iter().map(|(k, v)| (k, from_value(v))).collect(),
        ),
    }
}

/// Moves a value of the library into a `serde_json::Value`, one for one.
#[verifier::external_body]
fn to_value(json: &Json) -> serde_json::Value {
    match json {
        Json::Null => serde_json::Value::Null,
        Json::Bool(b) => serde_json::Value::from(*b),
        Json::Number(JsonNumber::Unsigned(n)) => serde_json::Value::from(*n),
        Json::Number(JsonNumber::Negative(n)) => serde_json::Value::from(*n),
        Json::Number(JsonNumber::Float(s)) => serde_json::from_str(s).unwrap_or_default(),
        Json::Text(s) => serde_json::Value::from(s.as_str()),
        Json::Array(v) => serde_json::Value::Array(v.iter().map(to_value).collect()),
        Json::Object(v) => serde_json::Value::Object(
            v.iter().map(|e| (e.0.clone(), to_value(&e.1))).collect(),
        ),
    }
}

/// What an optional JSON value says.
pub open spec fn opt_json(o: Option<Json>) -> Option<JsonView> {
    match o {
        Some(j) => Some(j@),
        None => None,
    }
}

/// What a reading of JSON gave.
pub open spec fn json_outcome(r: Result<Json, String>) -> Result<JsonView, Seq<char>> {
    match r {
        Ok(j) => Ok(j@),
        Err(e) => Err(e@),
    }
}

/// Calls `serde_json::from_str` for a `serde_json::Value`. The outcome, a value
/// or the message of the error, depends on the text alone. The grammar itself
/// stays unsaid.
#[verifier::external_body]
pub(crate) fn parse(text: &str) -> (r: Result<Json, String>)
    ensures
        json_outcome(r) == json_parsed(text@),
{
    match serde_json::from_str::<serde_json::Value>(text) {
        Ok(value) => Ok(from_value(value)),
        Err(error) => Err(error.to_string()),
    }
}

/// A text or an unsigned number.
pub open spec fn is_flat(v: JsonView) -> bool {
    v is Text || v is Unsigned
}

/// The most bytes that an entry takes in the compact notation, where its value
/// is flat: six for each character of its key and of its text, twenty for a
/// number, and four quotes, a colon and a comma.
pub open spec fn flat_entry_limit(e: (Seq<char>, JsonView)) -> nat {
    6 * e.0.len() + 26 + (match e.1 {
        JsonView::Text(t) => 6 * t.len(),
        _ => 0,
    })
}

/// The most bytes that an object of flat values takes in the compact notation.
pub open spec fn flat_limit(entries: Seq<(Seq<char>, JsonView)>) -> nat
    decreases entries.len(),
{
    if entries.len() == 0 {
        2
    } else {
        flat_entry_limit(entries[0]) + flat_limit(entries.skip(1))
    }
}

/// Every value is flat.
pub open spec fn all_flat(entries: Seq<(Seq<char>, JsonView)>) -> bool {
    forall|i: int| 0 <= i < entries.len() ==> is_flat((#[trigger] entries[i]).1)
}

/// An entry that is set adds no more than its own limit.
pub proof fn lemma_flat_entry(
    entries: Seq<(Seq<char>, JsonView)>,
    key: Seq<char>,
    value: JsonView,
)
    requires
        all_flat(entries),
        is_flat(value),
    ensures
        all_flat(with_entry(entries, key, value)),
        flat_limit(with_entry(entries, key, value)) <= flat_limit(entries) + flat_entry_limit(
            (key, value),
        ),
    decreases entries.len(),
{
    let after = with_entry(entries, key, value);
    if entries.len() == 0 {
        assert(after.skip(1) =~= entries);
    } else if entries[0].0 == key {
        assert(after.skip(1) =~= entries.skip(1));
    } else if text_before(key, entries[0].0) {
        assert(after.skip(1) =~= entries);
    } else {
        let rest = entries.skip(1);
        assert forall|i: int| 0 <= i < rest.len() implies is_flat((#[trigger] rest[i]).1) by {
            assert(rest[i] == entries[i + 1]);
        }
        lemma_flat_entry(rest, key, value);
        let tail = with_entry(rest, key, value);
        assert(after.skip(1) =~= tail);
        assert(is_flat(entries[0].1));
        assert forall|i: int| 0 <= i < after.len() implies is_flat((#[trigger] after[i]).1) by {
            if i > 0 {
                assert(after[i] == tail[i - 1]);
            }
        }
    }
}

/// Calls `serde_json::Value::to_string`, which writes a value in the compact
/// notation. The text depends on the value alone. In an object of texts and
/// unsigned numbers no character takes more than the six bytes of an escape.
#[verifier::external_body]
pub(crate) fn compact(json: &Json) -> (r: String)
    ensures
        r@ == json_compact(json@),
        json@ is Object && all_flat(json@->Object_0) ==> byte_len(r@) <= flat_limit(
            json@->Object_0,
        ),
{
    to_value(json).to_string()
}

} // verus!
