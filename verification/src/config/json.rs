//! JSON values. The entries of an object are kept in ascending order of their
//! keys, each key once.
use vstd::prelude::*;
use crate::text::owned;
use crate::text::str_equal;
use crate::text::to_chars;

verus! {

// ---------------------------------------------------------------------------
// The order of keys
// ---------------------------------------------------------------------------
/// Whether `a` comes before `b`, character by character.
pub open spec fn before(a: Seq<char>, b: Seq<char>) -> bool
    decreases a.len(),
{
    if b.len() == 0 {
        false
    } else if a.len() == 0 {
        true
    } else if a[0] != b[0] {
        a[0] < b[0]
    } else {
        before(a.drop_first(), b.drop_first())
    }
}

pub proof fn lemma_before_irreflexive(a: Seq<char>)
    ensures
        !before(a, a),
    decreases a.len(),
{
    if a.len() > 0 {
        lemma_before_irreflexive(a.drop_first());
    }
}

pub proof fn lemma_before_transitive(a: Seq<char>, b: Seq<char>, c: Seq<char>)
    requires
        before(a, b),
        before(b, c),
    ensures
        before(a, c),
    decreases a.len(),
{
    if a.len() > 0 && a[0] == b[0] && b[0] == c[0] {
        lemma_before_transitive(a.drop_first(), b.drop_first(), c.drop_first());
    }
}

pub proof fn lemma_before_connected(a: Seq<char>, b: Seq<char>)
    ensures
        a == b || before(a, b) || before(b, a),
    decreases a.len(),
{
    if a.len() == 0 || b.len() == 0 {
        assert(a.len() == 0 && b.len() == 0 ==> a =~= b);
    } else if a[0] == b[0] {
        lemma_before_connected(a.drop_first(), b.drop_first());
        if a.drop_first() == b.drop_first() {
            assert(a =~= seq![a[0]] + a.drop_first());
            assert(b =~= seq![b[0]] + b.drop_first());
        }
    }
}

/// How two keys relate.
#[derive(Clone, Copy, PartialEq, Eq, Structural)]
pub enum KeyOrder {
    Before,
    Same,
    Behind,
}

/// Compares two keys.
pub fn order_keys(a: &str, b: &str) -> (r: KeyOrder)
    ensures
        match r {
            KeyOrder::Before => before(a@, b@),
            KeyOrder::Same => a@ == b@,
            KeyOrder::Behind => before(b@, a@),
        },
{
    let left = to_chars(a);
    let right = to_chars(b);
    let mut i: usize = 0;
    proof {
        assert(left@.skip(0) =~= left@);
        assert(right@.skip(0) =~= right@);
    }
    while i < left.len() && i < right.len()
        invariant
            i <= left@.len(),
            i <= right@.len(),
            left@ == a@,
            right@ == b@,
            left@.take(i as int) == right@.take(i as int),
            before(a@, b@) == before(left@.skip(i as int), right@.skip(i as int)),
            before(b@, a@) == before(right@.skip(i as int), left@.skip(i as int)),
        decreases left@.len() - i,
    {
        if left[i] < right[i] {
            return KeyOrder::Before;
        }
        if right[i] < left[i] {
            return KeyOrder::Behind;
        }
        proof {
            assert(left@.skip(i as int).drop_first() =~= left@.skip(i + 1));
            assert(right@.skip(i as int).drop_first() =~= right@.skip(i + 1));
            assert(left@.take(i + 1) =~= left@.take(i as int).push(left@[i as int]));
            assert(right@.take(i + 1) =~= right@.take(i as int).push(right@[i as int]));
        }
        i = i + 1;
    }
    if i < right.len() {
        KeyOrder::Before
    } else if i < left.len() {
        KeyOrder::Behind
    } else {
        proof {
            assert(left@.take(i as int) =~= left@);
            assert(right@.take(i as int) =~= right@);
        }
        KeyOrder::Same
    }
}

// ---------------------------------------------------------------------------
// Values
// ---------------------------------------------------------------------------
/// A number: not negative, negative, or the bits of a floating-point number
/// that is finite.
#[derive(Clone, Copy, Debug)]
pub enum JsonNumber {
    Unsigned(u64),
    Negative(i64),
    Float(u64),
}

/// The bits of the negative zero.
pub const NEGATIVE_ZERO: u64 = 0x8000_0000_0000_0000;

/// A JSON value.
#[derive(Debug)]
pub enum Json {
    Null,
    Bool(bool),
    Number(JsonNumber),
    String(String),
    Array(Vec<Json>),
    Object(Vec<(String, Json)>),
}

/// A JSON value, as plain values. Numbers that compare equal are the same here.
#[verifier::ext_equal]
pub enum JsonView {
    Null,
    Bool(bool),
    Number(JsonNumber),
    String(Seq<char>),
    Array(Seq<JsonView>),
    Object(Seq<(Seq<char>, JsonView)>),
}

/// A number with the two zeros of floating point taken for the same.
pub open spec fn number_view(n: JsonNumber) -> JsonNumber {
    match n {
        JsonNumber::Float(bits) => if bits == NEGATIVE_ZERO {
            JsonNumber::Float(0)
        } else {
            n
        },
        _ => n,
    }
}

/// What a JSON value says.
pub open spec fn json_view(j: Json) -> JsonView
    decreases j,
{
    match j {
        Json::Null => JsonView::Null,
        Json::Bool(b) => JsonView::Bool(b),
        Json::Number(n) => JsonView::Number(number_view(n)),
        Json::String(s) => JsonView::String(s@),
        Json::Array(items) => JsonView::Array(
            Seq::new(
                items@.len(),
                |i: int|
                    if 0 <= i < items@.len() {
                        json_view(items@[i])
                    } else {
                        JsonView::Null
                    },
            ),
        ),
        Json::Object(entries) => JsonView::Object(
            Seq::new(
                entries@.len(),
                |i: int|
                    if 0 <= i < entries@.len() {
                        (entries@[i].0@, json_view(entries@[i].1))
                    } else {
                        (Seq::empty(), JsonView::Null)
                    },
            ),
        ),
    }
}

impl View for Json {
    type V = JsonView;

    open spec fn view(&self) -> JsonView {
        json_view(*self)
    }
}

/// What the entries of an object say.
pub open spec fn entries_view(entries: Seq<(String, Json)>) -> Seq<(Seq<char>, JsonView)> {
    Seq::new(entries.len(), |i: int| (entries[i].0@, entries[i].1@))
}

/// What the items of an array say.
pub open spec fn items_view(items: Seq<Json>) -> Seq<JsonView> {
    Seq::new(items.len(), |i: int| items[i]@)
}

pub proof fn lemma_array_view(items: Vec<Json>)
    ensures
        Json::Array(items)@ == JsonView::Array(items_view(items@)),
{
    assert(Json::Array(items)@->Array_0 =~= items_view(items@));
}

pub proof fn lemma_object_view(entries: Vec<(String, Json)>)
    ensures
        Json::Object(entries)@ == JsonView::Object(entries_view(entries@)),
{
    assert(Json::Object(entries)@->Object_0 =~= entries_view(entries@));
}

/// Whether the keys ascend.
pub open spec fn keys_ascend(entries: Seq<(Seq<char>, JsonView)>) -> bool {
    forall|i: int, j: int| 0 <= i < j < entries.len() ==> before(entries[i].0, entries[j].0)
}

/// Whether all objects in a value have their keys in order.
pub open spec fn ordered(v: JsonView) -> bool
    decreases v,
{
    match v {
        JsonView::Array(items) => forall|i: int|
            0 <= i < items.len() ==> #[trigger] ordered(items[i]),
        JsonView::Object(entries) => keys_ascend(entries) && forall|i: int|
            0 <= i < entries.len() ==> ordered((#[trigger] entries[i]).1),
        _ => true,
    }
}

// ---------------------------------------------------------------------------
// Entries
// ---------------------------------------------------------------------------
/// The value under a key.
pub open spec fn lookup(entries: Seq<(Seq<char>, JsonView)>, key: Seq<char>) -> Option<JsonView>
    decreases entries.len(),
{
    if entries.len() == 0 {
        None
    } else if entries[0].0 == key {
        Some(entries[0].1)
    } else {
        lookup(entries.drop_first(), key)
    }
}

/// The entries with a value put under a key.
pub open spec fn put(
    entries: Seq<(Seq<char>, JsonView)>,
    key: Seq<char>,
    value: JsonView,
) -> Seq<(Seq<char>, JsonView)>
    decreases entries.len(),
{
    if entries.len() == 0 {
        seq![(key, value)]
    } else if entries[0].0 == key {
        seq![(key, value)] + entries.drop_first()
    } else if before(key, entries[0].0) {
        seq![(key, value)] + entries
    } else {
        seq![entries[0]] + put(entries.drop_first(), key, value)
    }
}

/// The entries without those of a key.
pub open spec fn without(entries: Seq<(Seq<char>, JsonView)>, key: Seq<char>) -> Seq<
    (Seq<char>, JsonView),
>
    decreases entries.len(),
{
    if entries.len() == 0 {
        Seq::empty()
    } else if entries[0].0 == key {
        without(entries.drop_first(), key)
    } else {
        seq![entries[0]] + without(entries.drop_first(), key)
    }
}

/// What is put under a key is found there, and nothing else changes.
pub proof fn law_put_then_lookup(
    entries: Seq<(Seq<char>, JsonView)>,
    key: Seq<char>,
    value: JsonView,
    other: Seq<char>,
)
    ensures
        lookup(put(entries, key, value), key) == Some(value),
        other != key ==> lookup(put(entries, key, value), other) == lookup(entries, other),
    decreases entries.len(),
{
    let after = put(entries, key, value);
    if entries.len() == 0 {
        assert(after.drop_first() =~= Seq::<(Seq<char>, JsonView)>::empty());
        assert(lookup(after.drop_first(), other) == None::<JsonView>);
    } else if entries[0].0 == key {
        assert(after.drop_first() =~= entries.drop_first());
    } else if before(key, entries[0].0) {
        assert(after.drop_first() =~= entries);
    } else {
        assert(after.drop_first() =~= put(entries.drop_first(), key, value));
        law_put_then_lookup(entries.drop_first(), key, value, other);
    }
}

/// What is taken out is found no more, and nothing else changes.
pub proof fn law_without_then_lookup(
    entries: Seq<(Seq<char>, JsonView)>,
    key: Seq<char>,
    other: Seq<char>,
)
    ensures
        lookup(without(entries, key), key) is None,
        other != key ==> lookup(without(entries, key), other) == lookup(entries, other),
    decreases entries.len(),
{
    let after = without(entries, key);
    if entries.len() > 0 {
        law_without_then_lookup(entries.drop_first(), key, other);
        if entries[0].0 != key {
            assert(after.drop_first() =~= without(entries.drop_first(), key));
        }
    }
}

/// Where a key is found, it stands there first.
pub proof fn lemma_lookup_at(entries: Seq<(Seq<char>, JsonView)>, key: Seq<char>, at: int)
    requires
        0 <= at < entries.len(),
        entries[at].0 == key,
        forall|j: int| 0 <= j < at ==> entries[j].0 != key,
    ensures
        lookup(entries, key) == Some(entries[at].1),
    decreases at,
{
    if at > 0 {
        let rest = entries.drop_first();
        assert(rest[at - 1] == entries[at]);
        assert forall|j: int| 0 <= j < at - 1 implies rest[j].0 != key by {
            assert(rest[j] == entries[j + 1]);
        }
        lemma_lookup_at(rest, key, at - 1);
    }
}

pub proof fn lemma_lookup_none(entries: Seq<(Seq<char>, JsonView)>, key: Seq<char>)
    requires
        forall|j: int| 0 <= j < entries.len() ==> entries[j].0 != key,
    ensures
        lookup(entries, key) is None,
    decreases entries.len(),
{
    if entries.len() > 0 {
        let rest = entries.drop_first();
        assert forall|j: int| 0 <= j < rest.len() implies rest[j].0 != key by {
            assert(rest[j] == entries[j + 1]);
        }
        lemma_lookup_none(rest, key);
    }
}

/// What is found under a key is one of the entries.
pub proof fn lemma_lookup_index(entries: Seq<(Seq<char>, JsonView)>, key: Seq<char>) -> (at: int)
    requires
        lookup(entries, key) is Some,
    ensures
        0 <= at < entries.len(),
        entries[at] == (key, lookup(entries, key)->0),
    decreases entries.len(),
{
    if entries[0].0 == key {
        0
    } else {
        let rest = entries.drop_first();
        let i = lemma_lookup_index(rest, key);
        assert(rest[i] == entries[i + 1]);
        i + 1
    }
}

/// Where the keys ascend, a key that stands before another is a different one.
pub proof fn lemma_ascending_differ(entries: Seq<(Seq<char>, JsonView)>, i: int, j: int)
    requires
        keys_ascend(entries),
        0 <= i < j < entries.len(),
    ensures
        entries[i].0 != entries[j].0,
{
    if entries[i].0 == entries[j].0 {
        lemma_before_irreflexive(entries[i].0);
    }
}

proof fn lemma_rest_ascends(entries: Seq<(Seq<char>, JsonView)>)
    requires
        keys_ascend(entries),
        entries.len() > 0,
    ensures
        keys_ascend(entries.drop_first()),
        forall|j: int|
            0 <= j < entries.len() - 1 ==> before(
                entries[0].0,
                (#[trigger] entries.drop_first()[j]).0,
            ),
{
    let rest = entries.drop_first();
    assert forall|i: int, j: int| 0 <= i < j < rest.len() implies before(
        rest[i].0,
        rest[j].0,
    ) by {
        assert(rest[i] == entries[i + 1]);
        assert(rest[j] == entries[j + 1]);
    }
    assert forall|j: int| 0 <= j < entries.len() - 1 implies before(
        entries[0].0,
        (#[trigger] rest[j]).0,
    ) by {
        assert(rest[j] == entries[j + 1]);
    }
}

/// Every entry after a put is the one put or one that was there.
pub proof fn lemma_put_entries(
    entries: Seq<(Seq<char>, JsonView)>,
    key: Seq<char>,
    value: JsonView,
)
    ensures
        forall|j: int|
            0 <= j < put(entries, key, value).len() ==> {
                ||| #[trigger] put(entries, key, value)[j] == (key, value)
                ||| entries.contains(put(entries, key, value)[j])
            },
    decreases entries.len(),
{
    let after = put(entries, key, value);
    assert forall|j: int| 0 <= j < after.len() implies {
        ||| #[trigger] after[j] == (key, value)
        ||| entries.contains(after[j])
    } by {
        if entries.len() == 0 {
        } else if entries[0].0 == key {
            if j > 0 {
                assert(after[j] == entries[j]);
            }
        } else if before(key, entries[0].0) {
            if j > 0 {
                assert(after[j] == entries[j - 1]);
            }
        } else {
            let rest = entries.drop_first();
            if j == 0 {
                assert(after[0] == entries[0]);
            } else {
                lemma_put_entries(rest, key, value);
                let later = put(rest, key, value);
                assert(after[j] == later[j - 1]);
                if later[j - 1] != (key, value) {
                    let k = choose|k: int| 0 <= k < rest.len() && rest[k] == later[j - 1];
                    assert(entries[k + 1] == after[j]);
                }
            }
        }
    }
}

/// A put keeps the keys in order.
pub proof fn lemma_put_ascends(
    entries: Seq<(Seq<char>, JsonView)>,
    key: Seq<char>,
    value: JsonView,
)
    requires
        keys_ascend(entries),
    ensures
        keys_ascend(put(entries, key, value)),
    decreases entries.len(),
{
    let after = put(entries, key, value);
    if entries.len() == 0 {
    } else if entries[0].0 == key {
        assert forall|i: int, j: int| 0 <= i < j < after.len() implies before(
            after[i].0,
            after[j].0,
        ) by {
            assert(after[i].0 == entries[i].0);
            assert(after[j].0 == entries[j].0);
        }
    } else if before(key, entries[0].0) {
        assert forall|i: int, j: int| 0 <= i < j < after.len() implies before(
            after[i].0,
            after[j].0,
        ) by {
            assert(after[j] == entries[j - 1]);
            if i > 0 {
                assert(after[i] == entries[i - 1]);
            } else if j > 1 {
                lemma_before_transitive(key, entries[0].0, entries[j - 1].0);
            }
        }
    } else {
        let rest = entries.drop_first();
        lemma_rest_ascends(entries);
        lemma_put_ascends(rest, key, value);
        lemma_put_entries(rest, key, value);
        lemma_before_connected(key, entries[0].0);
        let later = put(rest, key, value);
        assert forall|i: int, j: int| 0 <= i < j < after.len() implies before(
            after[i].0,
            after[j].0,
        ) by {
            assert(after[j] == later[j - 1]);
            if i > 0 {
                assert(after[i] == later[i - 1]);
            } else if later[j - 1] != (key, value) {
                let k = choose|k: int| 0 <= k < rest.len() && rest[k] == later[j - 1];
                assert(before(entries[0].0, rest[k].0));
            }
        }
    }
}

/// A put of a value in order keeps an object in order.
pub proof fn lemma_put_ordered(
    entries: Seq<(Seq<char>, JsonView)>,
    key: Seq<char>,
    value: JsonView,
)
    requires
        ordered(JsonView::Object(entries)),
        ordered(value),
    ensures
        ordered(JsonView::Object(put(entries, key, value))),
{
    lemma_put_ascends(entries, key, value);
    lemma_put_entries(entries, key, value);
    let after = put(entries, key, value);
    assert forall|i: int| 0 <= i < after.len() implies ordered((#[trigger] after[i]).1) by {
        if after[i] != (key, value) {
            let k = choose|k: int| 0 <= k < entries.len() && entries[k] == after[i];
            assert(ordered(entries[k].1));
        }
    }
}

/// Without a key the others stay in order.
pub proof fn lemma_without_ordered(entries: Seq<(Seq<char>, JsonView)>, key: Seq<char>)
    requires
        ordered(JsonView::Object(entries)),
    ensures
        ordered(JsonView::Object(without(entries, key))),
        forall|j: int|
            0 <= j < without(entries, key).len() ==> entries.contains(
                #[trigger] without(entries, key)[j],
            ),
    decreases entries.len(),
{
    let after = without(entries, key);
    if entries.len() > 0 {
        let rest = entries.drop_first();
        lemma_rest_ascends(entries);
        assert forall|i: int| 0 <= i < rest.len() implies ordered((#[trigger] rest[i]).1) by {
            assert(rest[i] == entries[i + 1]);
        }
        lemma_without_ordered(rest, key);
        let later = without(rest, key);
        assert forall|j: int| 0 <= j < later.len() implies entries.contains(
            #[trigger] later[j],
        ) && before(entries[0].0, later[j].0) by {
            let k = choose|k: int| 0 <= k < rest.len() && rest[k] == later[j];
            assert(entries[k + 1] == later[j]);
            assert(before(entries[0].0, rest[k].0));
        }
        if entries[0].0 != key {
            assert forall|j: int| 0 <= j < after.len() implies entries.contains(
                #[trigger] after[j],
            ) by {
                if j > 0 {
                    assert(after[j] == later[j - 1]);
                } else {
                    assert(after[0] == entries[0]);
                }
            }
            assert forall|i: int, j: int| 0 <= i < j < after.len() implies before(
                after[i].0,
                after[j].0,
            ) by {
                assert(after[j] == later[j - 1]);
                if i > 0 {
                    assert(after[i] == later[i - 1]);
                }
            }
            assert forall|i: int| 0 <= i < after.len() implies ordered(
                (#[trigger] after[i]).1,
            ) by {
                let k = choose|k: int| 0 <= k < entries.len() && entries[k] == after[i];
                assert(ordered(entries[k].1));
            }
        }
    }
}

/// Where a key is known at an index, a put changes the entry there.
pub proof fn lemma_put_at(
    entries: Seq<(Seq<char>, JsonView)>,
    key: Seq<char>,
    value: JsonView,
    at: int,
)
    requires
        keys_ascend(entries),
        0 <= at < entries.len(),
        entries[at].0 == key,
    ensures
        put(entries, key, value) == entries.update(at, (key, value)),
    decreases at,
{
    if at == 0 {
        assert(put(entries, key, value) =~= entries.update(at, (key, value)));
    } else {
        let rest = entries.drop_first();
        lemma_rest_ascends(entries);
        assert(rest[at - 1] == entries[at]);
        lemma_put_at(rest, key, value, at - 1);
        assert(before(entries[0].0, key));
        if before(key, entries[0].0) {
            lemma_before_transitive(key, entries[0].0, key);
        }
        lemma_before_irreflexive(key);
        assert(put(entries, key, value) =~= entries.update(at, (key, value)));
    }
}

/// Where a key is found.
pub fn position(entries: &Vec<(String, Json)>, key: &str) -> (r: Option<usize>)
    ensures
        match r {
            Some(i) => {
                &&& i < entries@.len()
                &&& entries@[i as int].0@ == key@
                &&& forall|j: int| 0 <= j < i ==> entries@[j].0@ != key@
                &&& lookup(entries_view(entries@), key@) == Some(entries@[i as int].1@)
            },
            None => {
                &&& forall|j: int| 0 <= j < entries@.len() ==> entries@[j].0@ != key@
                &&& lookup(entries_view(entries@), key@) is None
            },
        },
{
    let mut i: usize = 0;
    let ghost view = entries_view(entries@);
    while i < entries.len()
        invariant
            i <= entries@.len(),
            view == entries_view(entries@),
            forall|j: int| 0 <= j < i ==> entries@[j].0@ != key@,
        decreases entries@.len() - i,
    {
        if str_equal(entries[i].0.as_str(), key) {
            proof {
                assert(view[i as int].0 == key@);
                lemma_lookup_at(view, key@, i as int);
            }
            return Some(i);
        }
        i = i + 1;
    }
    proof {
        lemma_lookup_none(view, key@);
    }
    None
}

/// The value under a key.
pub fn get<'a>(entries: &'a Vec<(String, Json)>, key: &str) -> (r: Option<&'a Json>)
    ensures
        match r {
            Some(v) => lookup(entries_view(entries@), key@) == Some(v@),
            None => lookup(entries_view(entries@), key@) is None,
        },
        match r {
            Some(v) => exists|i: int| 0 <= i < entries@.len() && #[trigger] entries@[i].1 == *v,
            None => true,
        },
{
    match position(entries, key) {
        Some(i) => Some(&entries[i].1),
        None => None,
    }
}

proof fn lemma_put_after(
    entries: Seq<(Seq<char>, JsonView)>,
    key: Seq<char>,
    value: JsonView,
    at: int,
)
    requires
        0 <= at <= entries.len(),
        forall|j: int| 0 <= j < at ==> before(entries[j].0, key),
    ensures
        put(entries, key, value) == entries.take(at) + put(entries.skip(at), key, value),
    decreases at,
{
    if at == 0 {
        assert(entries.skip(0) =~= entries);
        assert(entries.take(0) + put(entries, key, value) =~= put(entries, key, value));
    } else {
        let rest = entries.drop_first();
        assert forall|j: int| 0 <= j < at - 1 implies before(rest[j].0, key) by {
            assert(rest[j] == entries[j + 1]);
        }
        lemma_put_after(rest, key, value, at - 1);
        assert(before(entries[0].0, key));
        if before(key, entries[0].0) {
            lemma_before_transitive(key, entries[0].0, key);
        }
        lemma_before_irreflexive(key);
        assert(rest.skip(at - 1) =~= entries.skip(at));
        assert(entries.take(at) =~= seq![entries[0]] + rest.take(at - 1));
        assert(put(entries, key, value) =~= entries.take(at) + put(entries.skip(at), key, value));
    }
}

/// Puts a value under a key.
pub fn insert(entries: &mut Vec<(String, Json)>, key: &str, value: Json)
    ensures
        entries_view(final(entries)@) == put(entries_view(old(entries)@), key@, value@),
{
    let ghost view = entries_view(entries@);
    let mut i: usize = 0;
    while i < entries.len()
        invariant
            i <= entries@.len(),
            entries@ == old(entries)@,
            view == entries_view(entries@),
            forall|j: int| 0 <= j < i ==> before(view[j].0, key@),
        decreases entries@.len() - i,
    {
        match order_keys(key, entries[i].0.as_str()) {
            KeyOrder::Same => {
                entries[i].1 = value;
                proof {
                    lemma_put_after(view, key@, value@, i as int);
                    let rest = view.skip(i as int);
                    assert(rest[0] == view[i as int]);
                    assert(entries_view(entries@) =~= view.take(i as int) + put(
                        rest,
                        key@,
                        value@,
                    ));
                }
                return ;
            },
            KeyOrder::Before => {
                entries.insert(i, (owned(key), value));
                proof {
                    lemma_put_after(view, key@, value@, i as int);
                    let rest = view.skip(i as int);
                    assert(rest[0] == view[i as int]);
                    if rest[0].0 == key@ {
                        lemma_before_irreflexive(key@);
                    }
                    assert(entries_view(entries@) =~= view.take(i as int) + put(
                        rest,
                        key@,
                        value@,
                    ));
                }
                return ;
            },
            KeyOrder::Behind => {},
        }
        i = i + 1;
    }
    entries.push((owned(key), value));
    proof {
        lemma_put_after(view, key@, value@, view.len() as int);
        assert(entries_view(entries@) =~= view.take(view.len() as int) + put(
            view.skip(view.len() as int),
            key@,
            value@,
        ));
    }
}

proof fn lemma_without_absent(entries: Seq<(Seq<char>, JsonView)>, key: Seq<char>)
    requires
        forall|j: int| 0 <= j < entries.len() ==> entries[j].0 != key,
    ensures
        without(entries, key) == entries,
    decreases entries.len(),
{
    if entries.len() > 0 {
        let rest = entries.drop_first();
        assert forall|j: int| 0 <= j < rest.len() implies rest[j].0 != key by {
            assert(rest[j] == entries[j + 1]);
        }
        lemma_without_absent(rest, key);
    }
    assert(without(entries, key) =~= entries);
}

proof fn lemma_without_at(entries: Seq<(Seq<char>, JsonView)>, key: Seq<char>, at: int)
    requires
        keys_ascend(entries),
        0 <= at < entries.len(),
        entries[at].0 == key,
    ensures
        without(entries, key) == entries.remove(at),
    decreases at,
{
    let rest = entries.drop_first();
    lemma_rest_ascends(entries);
    if at == 0 {
        assert forall|j: int| 0 <= j < rest.len() implies rest[j].0 != key by {
            assert(before(key, rest[j].0));
            lemma_before_irreflexive(key);
        }
        lemma_without_absent(rest, key);
        assert(without(entries, key) =~= entries.remove(at));
    } else {
        assert(rest[at - 1] == entries[at]);
        lemma_ascending_differ(entries, 0, at);
        lemma_without_at(rest, key, at - 1);
        assert(without(entries, key) =~= entries.remove(at));
    }
}

/// Takes out what stands under a key.
pub fn remove(entries: &mut Vec<(String, Json)>, key: &str)
    requires
        keys_ascend(entries_view(old(entries)@)),
    ensures
        entries_view(final(entries)@) == without(entries_view(old(entries)@), key@),
{
    let ghost view = entries_view(entries@);
    match position(entries, key) {
        Some(i) => {
            let taken = entries.remove(i);
            proof {
                lemma_without_at(view, key@, i as int);
                assert(entries_view(entries@) =~= view.remove(i as int));
            }
        },
        None => {
            proof {
                lemma_without_absent(view, key@);
            }
        },
    }
}

// ---------------------------------------------------------------------------
// Copies and equality
// ---------------------------------------------------------------------------
/// A copy of a number.
fn copy_number(n: &JsonNumber) -> (r: JsonNumber)
    ensures
        r == *n,
{
    *n
}

/// An item is smaller than its array.
pub proof fn lemma_item_smaller(j: Json, i: int)
    requires
        j is Array,
        0 <= i < j->Array_0@.len(),
    ensures
        decreases_to!(j => j->Array_0@[i]),
{
}

/// A value is smaller than its object.
pub proof fn lemma_entry_smaller(j: Json, i: int)
    requires
        j is Object,
        0 <= i < j->Object_0@.len(),
    ensures
        decreases_to!(j => j->Object_0@[i].1),
{
}

impl Clone for Json {
    fn clone(&self) -> (r: Self)
        ensures
            r@ == self@,
    {
        copy_json(self)
    }
}

/// A copy of a value.
pub fn copy_json(j: &Json) -> (r: Json)
    ensures
        r@ == j@,
    decreases *j,
{
    match j {
        Json::Null => Json::Null,
        Json::Bool(b) => Json::Bool(*b),
        Json::Number(n) => Json::Number(copy_number(n)),
        Json::String(s) => Json::String(s.clone()),
        Json::Array(items) => {
            let mut out: Vec<Json> = Vec::new();
            let mut i: usize = 0;
            while i < items.len()
                invariant
                    i <= items@.len(),
                    out@.len() == i,
                    *j == Json::Array(*items),
                    forall|k: int| 0 <= k < i ==> (#[trigger] out@[k])@ == items@[k]@,
                decreases items@.len() - i,
            {
                proof {
                    lemma_item_smaller(*j, i as int);
                }
                out.push(copy_json(&items[i]));
                i = i + 1;
            }
            proof {
                lemma_array_view(*items);
                lemma_array_view(out);
                assert(items_view(out@) =~= items_view(items@));
            }
            Json::Array(out)
        },
        Json::Object(entries) => {
            let mut out: Vec<(String, Json)> = Vec::new();
            let mut i: usize = 0;
            while i < entries.len()
                invariant
                    i <= entries@.len(),
                    out@.len() == i,
                    *j == Json::Object(*entries),
                    forall|k: int|
                        0 <= k < i ==> (#[trigger] out@[k]).0@ == entries@[k].0@ && out@[k].1@
                            == entries@[k].1@,
                decreases entries@.len() - i,
            {
                proof {
                    lemma_entry_smaller(*j, i as int);
                }
                out.push((entries[i].0.clone(), copy_json(&entries[i].1)));
                i = i + 1;
            }
            proof {
                lemma_object_view(*entries);
                lemma_object_view(out);
                assert(entries_view(out@) =~= entries_view(entries@));
            }
            Json::Object(out)
        },
    }
}

/// Whether two numbers are the same.
fn equal_numbers(a: JsonNumber, b: JsonNumber) -> (r: bool)
    ensures
        r == (number_view(a) == number_view(b)),
{
    match (a, b) {
        (JsonNumber::Unsigned(x), JsonNumber::Unsigned(y)) => x == y,
        (JsonNumber::Negative(x), JsonNumber::Negative(y)) => x == y,
        (JsonNumber::Float(x), JsonNumber::Float(y)) => {
            x == y || ((x == NEGATIVE_ZERO || x == 0) && (y == NEGATIVE_ZERO || y == 0))
        },
        _ => false,
    }
}

/// Whether two values are the same.
pub fn equal(a: &Json, b: &Json) -> (r: bool)
    ensures
        r == (a@ == b@),
    decreases *a,
{
    match (a, b) {
        (Json::Null, Json::Null) => true,
        (Json::Bool(x), Json::Bool(y)) => *x == *y,
        (Json::Number(x), Json::Number(y)) => equal_numbers(*x, *y),
        (Json::String(x), Json::String(y)) => str_equal(x.as_str(), y.as_str()),
        (Json::Array(x), Json::Array(y)) => {
            proof {
                lemma_array_view(*x);
                lemma_array_view(*y);
            }
            if x.len() != y.len() {
                assert(items_view(x@).len() != items_view(y@).len());
                return false;
            }
            let mut i: usize = 0;
            while i < x.len()
                invariant
                    i <= x@.len(),
                    x@.len() == y@.len(),
                    *a == Json::Array(*x),
                    a@ == JsonView::Array(items_view(x@)),
                    b@ == JsonView::Array(items_view(y@)),
                    forall|k: int| 0 <= k < i ==> (#[trigger] x@[k])@ == y@[k]@,
                decreases x@.len() - i,
            {
                proof {
                    lemma_item_smaller(*a, i as int);
                }
                if !equal(&x[i], &y[i]) {
                    assert(items_view(x@)[i as int] != items_view(y@)[i as int]);
                    return false;
                }
                i = i + 1;
            }
            assert(items_view(x@) =~= items_view(y@));
            true
        },
        (Json::Object(x), Json::Object(y)) => {
            proof {
                lemma_object_view(*x);
                lemma_object_view(*y);
            }
            if x.len() != y.len() {
                assert(entries_view(x@).len() != entries_view(y@).len());
                return false;
            }
            let mut i: usize = 0;
            while i < x.len()
                invariant
                    i <= x@.len(),
                    x@.len() == y@.len(),
                    *a == Json::Object(*x),
                    a@ == JsonView::Object(entries_view(x@)),
                    b@ == JsonView::Object(entries_view(y@)),
                    forall|k: int|
                        0 <= k < i ==> (#[trigger] x@[k]).0@ == y@[k].0@ && x@[k].1@ == y@[k].1@,
                decreases x@.len() - i,
            {
                proof {
                    lemma_entry_smaller(*a, i as int);
                }
                if !str_equal(x[i].0.as_str(), y[i].0.as_str()) || !equal(&x[i].1, &y[i].1) {
                    assert(entries_view(x@)[i as int] != entries_view(y@)[i as int]);
                    return false;
                }
                i = i + 1;
            }
            assert(entries_view(x@) =~= entries_view(y@));
            true
        },
        _ => false,
    }
}

// ---------------------------------------------------------------------------
// What holds of it
// ---------------------------------------------------------------------------
/// Keys are ordered as in a dictionary: by their first character that differs, and a key
/// before those that it begins.
pub proof fn law_order_of_keys(start: Seq<char>, a: Seq<char>, b: Seq<char>)
    ensures
        before(start + a, start + b) == before(a, b),
        a.len() > 0 && b.len() > 0 && a[0] != b[0] ==> before(a, b) == (a[0] < b[0]),
        b.len() > 0 ==> before(start, start + b),
        !before(start + b, start),
    decreases start.len(),
{
    let none = Seq::<char>::empty();
    if start.len() == 0 {
        assert(start + a =~= a);
        assert(start + b =~= b);
    } else {
        let rest = start.drop_first();
        law_order_of_keys(rest, a, b);
        assert((start + a).drop_first() =~= rest + a);
        assert((start + b).drop_first() =~= rest + b);
        assert((start + a)[0] == start[0]);
        assert((start + b)[0] == start[0]);
    }
}

/// What stands under a key is found under it; a key that is not there has nothing.
pub proof fn law_lookup(entries: Seq<(Seq<char>, JsonView)>, key: Seq<char>, at: int)
    ensures
        keys_ascend(entries) && 0 <= at < entries.len() ==> lookup(entries, entries[at].0) == Some(
            entries[at].1,
        ),
        (forall|i: int| 0 <= i < entries.len() ==> (#[trigger] entries[i]).0 != key) ==> lookup(
            entries,
            key,
        ) is None,
        lookup(entries, key) matches Some(value) ==> exists|i: int|
            0 <= i < entries.len() && (#[trigger] entries[i]) == (key, value),
{
    if keys_ascend(entries) && 0 <= at < entries.len() {
        lemma_found_first(entries, at);
    }
    lemma_lookup_where(entries, key);
}

proof fn lemma_found_first(entries: Seq<(Seq<char>, JsonView)>, at: int)
    requires
        keys_ascend(entries),
        0 <= at < entries.len(),
    ensures
        lookup(entries, entries[at].0) == Some(entries[at].1),
    decreases entries.len(),
{
    if at > 0 {
        assert(before(entries[0].0, entries[at].0));
        lemma_before_irreflexive(entries[0].0);
        let rest = entries.drop_first();
        assert(rest[at - 1] == entries[at]);
        assert forall|i: int, j: int| 0 <= i < j < rest.len() implies before(
            rest[i].0,
            rest[j].0,
        ) by {
            assert(rest[i] == entries[i + 1] && rest[j] == entries[j + 1]);
        }
        lemma_found_first(rest, at - 1);
    }
}

proof fn lemma_lookup_where(entries: Seq<(Seq<char>, JsonView)>, key: Seq<char>)
    ensures
        match lookup(entries, key) {
            Some(value) => exists|i: int|
                0 <= i < entries.len() && (#[trigger] entries[i]) == (key, value),
            None => forall|i: int| 0 <= i < entries.len() ==> (#[trigger] entries[i]).0 != key,
        },
    decreases entries.len(),
{
    if entries.len() > 0 && entries[0].0 != key {
        let rest = entries.drop_first();
        lemma_lookup_where(rest, key);
        match lookup(rest, key) {
            Some(value) => {
                let i = choose|i: int| 0 <= i < rest.len() && (#[trigger] rest[i]) == (key, value);
                assert(entries[i + 1] == rest[i]);
            },
            None => {
                assert forall|i: int| 0 <= i < entries.len() implies (#[trigger] entries[i]).0
                    != key by {
                    if i > 0 {
                        assert(rest[i - 1] == entries[i]);
                    }
                }
            },
        }
    } else if entries.len() > 0 {
        assert(entries[0] == (key, entries[0].1));
    }
}

} // verus!
