//! How documents and values stand for one another.

use crate::ast::ValueModel;
use crate::comparing::{precedes, text_order_is_the_dictionary};
use crate::document::parse_result;
use crate::draft::FailureModel;
use crate::json::{
    json_entries, json_round_trip, json_value, json_values, tidy, value_documents, value_json, value_members,
    JsonModel,
};
use crate::number::finite;
use crate::outcomes::{gives, throws};
use crate::show::same_value;
use crate::sort::{key_order, lemma_text_order, orders, sorted_entries, sorting_orders, sorting_permutes};
use crate::table::{keys, lemma_place, lookup, put, put_then_lookup};
use vstd::prelude::*;

verus! {

/// Whether the document nests no deeper than so many levels and each of its numbers is a
/// binary64 number.
pub open spec fn readable(j: JsonModel, levels: int) -> bool
    decreases j,
{
    levels >= 0 && match j {
        JsonModel::Unfit(_) => false,
        JsonModel::Array(items) => forall|i: int| 0 <= i < items.len() ==> readable(#[trigger] items[i], levels - 1),
        JsonModel::Object(items) => forall|i: int|
            0 <= i < items.len() ==> readable((#[trigger] items[i]).1, levels - 1),
        _ => true,
    }
}

/// Whether no member behind the one at `i` has its name.
pub open spec fn counts_last(items: Seq<(Seq<char>, JsonModel)>, i: int) -> bool {
    0 <= i < items.len() && forall|k: int| i < k < items.len() ==> (#[trigger] items[k]).0 != items[i].0
}

/// Whether the value is what the document says: item by item, and under each name what the
/// last member of that name says.
pub open spec fn says_value(j: JsonModel, v: ValueModel) -> bool
    decreases j,
{
    match (j, v) {
        (JsonModel::Null, ValueModel::Null) => true,
        (JsonModel::Bool(a), ValueModel::Logic(b)) => a == b,
        (JsonModel::Number(a), ValueModel::Number(b)) => a == b,
        (JsonModel::String(a), ValueModel::String(b)) => a == b,
        (JsonModel::Array(items), ValueModel::Array(values)) => items.len() == values.len() && forall|i: int|
            0 <= i < items.len() ==> says_value(#[trigger] items[i], values[i]),
        (JsonModel::Object(items), ValueModel::Object(t)) => {
            &&& forall|i: int|
                0 <= i < items.len() && counts_last(items, i) ==> lookup(t, (#[trigger] items[i]).0) is Some
                    && says_value(items[i].1, lookup(t, items[i].0)->0)
            &&& forall|name: Seq<char>| #[trigger]
                lookup(t, name) is Some ==> exists|i: int| 0 <= i < items.len() && (#[trigger] items[i]).0 == name
        },
        _ => false,
    }
}

proof fn lemma_values(items: Seq<JsonModel>, depth: int, i: int, done: Seq<ValueModel>)
    requires
        0 <= i <= items.len(),
        done.len() == i,
        forall|k: int| 0 <= k < i ==> json_value(items[k], depth) == Ok::<_, FailureModel>(#[trigger] done[k]),
    ensures
        json_values(items, depth, i, done) is Ok <==> forall|k: int|
            i <= k < items.len() ==> json_value(#[trigger] items[k], depth) is Ok,
        json_values(items, depth, i, done) matches Ok(v) ==> v.len() == items.len() && forall|k: int|
            0 <= k < v.len() ==> json_value(items[k], depth) == Ok::<_, FailureModel>(#[trigger] v[k]),
    decreases items.len() - i,
{
    if i < items.len() {
        match json_value(items[i], depth) {
            Ok(v) => {
                lemma_values(items, depth, i + 1, done.push(v));
            },
            Err(_) => {},
        }
    }
}

/// Whether the table holds what the first `n` members come to.
#[verifier::opaque]
spec fn holds_members(items: Seq<(Seq<char>, JsonModel)>, depth: int, n: int, t: Seq<(Seq<char>, ValueModel)>) -> bool {
    &&& forall|i: int|
        0 <= i < n && counts_last(items.take(n), i) ==> lookup(t, (#[trigger] items[i]).0) is Some && json_value(
            items[i].1,
            depth,
        ) == Ok::<_, FailureModel>(lookup(t, items[i].0)->0)
    &&& forall|name: Seq<char>| #[trigger]
        lookup(t, name) is Some ==> exists|i: int| 0 <= i < n && (#[trigger] items[i]).0 == name
}

proof fn lemma_entry(items: Seq<(Seq<char>, JsonModel)>, depth: int, i: int, done: Seq<(Seq<char>, ValueModel)>, v: ValueModel)
    requires
        0 <= i < items.len(),
        holds_members(items, depth, i, done),
        json_value(items[i].1, depth) == Ok::<_, FailureModel>(v),
    ensures
        holds_members(items, depth, i + 1, put(done, items[i].0, v)),
{
    reveal(holds_members);
    let name = items[i].0;
    let next = put(done, name, v);
    let n = i + 1;
    let shorter = items.take(i);
    let longer = items.take(n);
    assert forall|other: Seq<char>| #[trigger] lookup(next, other) == (if other == name {
        Some(v)
    } else {
        lookup(done, other)
    }) by {
        put_then_lookup(done, name, v, other);
    }
    assert forall|k: int| 0 <= k < n && counts_last(longer, k) implies lookup(next, (#[trigger] items[k]).0) is Some
        && json_value(items[k].1, depth) == Ok::<_, FailureModel>(lookup(next, items[k].0)->0) by {
        if k < i {
            assert(longer[i] == items[i]);
            assert(longer[k] == items[k]);
            assert forall|m: int| k < m < shorter.len() implies (#[trigger] shorter[m]).0 != shorter[k].0 by {
                assert(longer[m] == shorter[m]);
            }
            assert(counts_last(shorter, k));
        }
    }
    assert forall|other: Seq<char>| #[trigger] lookup(next, other) is Some implies exists|k: int|
        0 <= k < n && (#[trigger] items[k]).0 == other by {
        if other == name {
            assert(items[i].0 == other);
        }
    }
}

proof fn lemma_entries(items: Seq<(Seq<char>, JsonModel)>, depth: int, i: int, done: Seq<(Seq<char>, ValueModel)>)
    requires
        0 <= i <= items.len(),
        holds_members(items, depth, i, done),
    ensures
        json_entries(items, depth, i, done) is Ok <==> forall|k: int|
            i <= k < items.len() ==> json_value((#[trigger] items[k]).1, depth) is Ok,
        json_entries(items, depth, i, done) matches Ok(t) ==> holds_members(items, depth, items.len() as int, t),
    decreases items.len() - i,
{
    if i < items.len() {
        match json_value(items[i].1, depth) {
            Ok(v) => {
                lemma_entry(items, depth, i, done, v);
                lemma_entries(items, depth, i + 1, put(done, items[i].0, v));
            },
            Err(_) => {},
        }
    }
}

proof fn lemma_reading(j: JsonModel, depth: int)
    ensures
        json_value(j, depth) is Ok <==> readable(j, 128 - depth),
        json_value(j, depth) matches Ok(v) ==> says_value(j, v),
    decreases j,
{
    if depth <= 128 {
        match j {
            JsonModel::Array(items) => {
                lemma_values(items, depth + 1, 0, seq![]);
                assert forall|i: int| 0 <= i < items.len() implies {
                    &&& json_value(#[trigger] items[i], depth + 1) is Ok <==> readable(items[i], 128 - depth - 1)
                    &&& json_value(items[i], depth + 1) matches Ok(v) ==> says_value(items[i], v)
                } by {
                    lemma_reading(items[i], depth + 1);
                }
                if let Ok(values) = json_values(items, depth + 1, 0, seq![]) {
                    assert forall|i: int| 0 <= i < items.len() implies says_value(#[trigger] items[i], values[i]) by {
                        assert(json_value(items[i], depth + 1) == Ok::<_, FailureModel>(values[i]));
                    }
                    assert(says_value(j, ValueModel::Array(values)));
                }
            },
            JsonModel::Object(items) => {
                let start = Seq::<(Seq<char>, ValueModel)>::empty();
                assert forall|name: Seq<char>| lookup(start, name) is None by {
                    lemma_place(keys(start), name, 0);
                }
                assert(holds_members(items, depth + 1, 0, start)) by {
                    reveal(holds_members);
                }
                lemma_entries(items, depth + 1, 0, start);
                assert(seq![] =~= start);
                assert forall|i: int| 0 <= i < items.len() implies {
                    &&& json_value((#[trigger] items[i]).1, depth + 1) is Ok <==> readable(items[i].1, 128 - depth - 1)
                    &&& json_value(items[i].1, depth + 1) matches Ok(v) ==> says_value(items[i].1, v)
                } by {
                    lemma_reading(items[i].1, depth + 1);
                }
                if let Ok(t) = json_entries(items, depth + 1, 0, start) {
                    reveal(holds_members);
                    assert(items.take(items.len() as int) =~= items);
                    assert(says_value(j, ValueModel::Object(t)));
                }
            },
            _ => {},
        }
    }
}

/// `Parse` gives what the document says. A text that is no document is a `ValueError`, and so
/// is a document that nests deeper than 128 levels or has a number out of range.
pub proof fn documents_are_read(j: JsonModel, e: Seq<char>)
    ensures
        readable(j, 128) ==> exists|v: ValueModel| #[trigger]
            says_value(j, v) && gives(parse_result(Ok(j)), v),
        !readable(j, 128) ==> throws(parse_result(Ok(j)), "ValueError"@),
        throws(parse_result(Err(e)), "ValueError"@),
{
    lemma_reading(j, 0);
    match json_value(j, 0) {
        Ok(v) => {
            assert(says_value(j, v));
        },
        Err(_) => {
            lemma_refused(j, 0);
        },
    }
}

proof fn lemma_refused(j: JsonModel, depth: int)
    ensures
        json_value(j, depth) is Err ==> throws(json_value(j, depth), "ValueError"@),
    decreases j, 0int,
{
    match j {
        JsonModel::Array(items) => {
            lemma_refused_values(items, depth + 1, 0, seq![]);
        },
        JsonModel::Object(items) => {
            lemma_refused_entries(items, depth + 1, 0, seq![]);
        },
        _ => {},
    }
}

proof fn lemma_refused_values(items: Seq<JsonModel>, depth: int, i: int, done: Seq<ValueModel>)
    requires
        0 <= i <= items.len(),
    ensures
        json_values(items, depth, i, done) is Err ==> throws(json_values(items, depth, i, done), "ValueError"@),
    decreases items, items.len() - i,
{
    if i < items.len() {
        lemma_refused(items[i], depth);
        if let Ok(v) = json_value(items[i], depth) {
            lemma_refused_values(items, depth, i + 1, done.push(v));
        }
    }
}

proof fn lemma_refused_entries(
    items: Seq<(Seq<char>, JsonModel)>,
    depth: int,
    i: int,
    done: Seq<(Seq<char>, ValueModel)>,
)
    requires
        0 <= i <= items.len(),
    ensures
        json_entries(items, depth, i, done) is Err ==> throws(json_entries(items, depth, i, done), "ValueError"@),
    decreases items, items.len() - i,
{
    if i < items.len() {
        lemma_refused(items[i].1, depth);
        if let Ok(v) = json_value(items[i].1, depth) {
            lemma_refused_entries(items, depth, i + 1, put(done, items[i].0, v));
        }
    }
}

/// Whether a document can hold the value: it nests no deeper than so many levels, its numbers
/// are finite, and it is made of nulls, truth values, numbers, strings, arrays and objects.
pub open spec fn writable(v: ValueModel, levels: int) -> bool
    decreases v,
{
    levels >= 0 && match v {
        ValueModel::Null => true,
        ValueModel::Logic(_) => true,
        ValueModel::Number(n) => finite(n),
        ValueModel::String(_) => true,
        ValueModel::Array(items) => forall|i: int| 0 <= i < items.len() ==> writable(#[trigger] items[i], levels - 1),
        ValueModel::Object(t) => forall|i: int| 0 <= i < t.len() ==> writable((#[trigger] t[i]).1, levels - 1),
        _ => false,
    }
}

proof fn lemma_documents(items: Seq<ValueModel>, depth: int, i: int, done: Seq<JsonModel>)
    requires
        0 <= i <= items.len(),
    ensures
        value_documents(items, depth, i, done) is Ok <==> forall|k: int|
            i <= k < items.len() ==> value_json(#[trigger] items[k], depth) is Ok,
    decreases items.len() - i,
{
    if i < items.len() {
        if let Ok(d) = value_json(items[i], depth) {
            lemma_documents(items, depth, i + 1, done.push(d));
        }
    }
}

proof fn lemma_members(t: Seq<(Seq<char>, ValueModel)>, depth: int, i: int, done: Seq<(Seq<char>, JsonModel)>)
    requires
        0 <= i <= t.len(),
        done.len() == i,
        forall|k: int| 0 <= k < i ==> (#[trigger] done[k]).0 == t[k].0,
    ensures
        value_members(t, depth, i, done) is Ok <==> forall|k: int|
            i <= k < t.len() ==> value_json((#[trigger] t[k]).1, depth) is Ok,
        value_members(t, depth, i, done) matches Ok(m) ==> m.len() == t.len() && forall|k: int|
            0 <= k < m.len() ==> (#[trigger] m[k]).0 == t[k].0,
    decreases t.len() - i,
{
    if i < t.len() {
        if let Ok(d) = value_json(t[i].1, depth) {
            lemma_members(t, depth, i + 1, done.push((t[i].0, d)));
        }
    }
}

proof fn lemma_same_items(t: Seq<(Seq<char>, ValueModel)>)
    ensures
        sorted_entries(t).len() == t.len(),
        forall|k: int| 0 <= k < t.len() ==> t.contains(#[trigger] sorted_entries(t)[k]),
        forall|i: int| 0 <= i < t.len() ==> sorted_entries(t).contains(#[trigger] t[i]),
{
    let n = t.len() as int;
    let s = sorted_entries(t);
    sorting_permutes(t, key_order(), n);
    assert(t.take(n) =~= t);
    broadcast use vstd::seq_lib::group_to_multiset_ensures;
    assert(s.to_multiset() == t.to_multiset());
    assert(s.to_multiset().len() == s.len());
    assert forall|k: int| 0 <= k < t.len() implies t.contains(#[trigger] s[k]) by {
        assert(s.to_multiset().count(s[k]) > 0);
    }
    assert forall|i: int| 0 <= i < t.len() implies s.contains(#[trigger] t[i]) by {
        assert(t.to_multiset().count(t[i]) > 0);
    }
}

proof fn lemma_writing(v: ValueModel, depth: int)
    ensures
        value_json(v, depth) is Ok <==> writable(v, 128 - depth),
    decreases v,
{
    if depth <= 128 {
        match v {
            ValueModel::Array(items) => {
                lemma_documents(items, depth + 1, 0, seq![]);
                assert forall|i: int| 0 <= i < items.len() implies (value_json(#[trigger] items[i], depth + 1) is Ok
                    <==> writable(items[i], 128 - depth - 1)) by {
                    lemma_writing(items[i], depth + 1);
                }
            },
            ValueModel::Object(t) => {
                let s = sorted_entries(t);
                lemma_members(s, depth + 1, 0, seq![]);
                lemma_same_items(t);
                assert forall|i: int| 0 <= i < t.len() implies (value_json((#[trigger] t[i]).1, depth + 1) is Ok
                    <==> writable(t[i].1, 128 - depth - 1)) by {
                    lemma_writing(t[i].1, depth + 1);
                }
                if forall|k: int| 0 <= k < s.len() ==> value_json((#[trigger] s[k]).1, depth + 1) is Ok {
                    assert forall|i: int| 0 <= i < t.len() implies value_json((#[trigger] t[i]).1, depth + 1) is Ok by {
                        assert(s.contains(t[i]));
                        let k = choose|k: int| 0 <= k < s.len() && s[k] == t[i];
                        assert(value_json(s[k].1, depth + 1) is Ok);
                    }
                } else {
                    let k = choose|k: int| 0 <= k < s.len() && !(value_json((#[trigger] s[k]).1, depth + 1) is Ok);
                    assert(t.contains(s[k]));
                    let i = choose|i: int| 0 <= i < t.len() && t[i] == s[k];
                    assert(!writable(t[i].1, 128 - depth - 1));
                }
            },
            _ => {},
        }
    }
}

/// `Stringify` writes what a document can hold, as a document that says it again when it is
/// read; the rest is refused.
pub proof fn values_are_written(v: ValueModel)
    requires
        tidy(v),
    ensures
        writable(v, 128) <==> value_json(v, 0) is Ok,
        value_json(v, 0) matches Ok(j) ==> exists|w: ValueModel| #[trigger] says_value(j, w) && same_value(v, w),
{
    lemma_writing(v, 0);
    json_round_trip(v, 0);
    if let Ok(j) = value_json(v, 0) {
        lemma_reading(j, 0);
        assert(says_value(j, json_value(j, 0)->Ok_0));
    }
}

/// The members of an object are written in the order of the dictionary.
pub proof fn members_are_written_in_order(t: Seq<(Seq<char>, ValueModel)>, depth: int)
    ensures
        value_json(ValueModel::Object(t), depth) matches Ok(j) ==> j matches JsonModel::Object(m) && forall|i: int, k: int|
            0 <= i < k < m.len() ==> !precedes((#[trigger] m[k]).0, (#[trigger] m[i]).0),
{
    let n = t.len() as int;
    let s = sorted_entries(t);
    if depth <= 128 {
        lemma_members(s, depth + 1, 0, seq![]);
        let fit = |e: (Seq<char>, ValueModel)| true;
        assert(orders(key_order(), fit)) by {
            let before = key_order();
            assert forall|a: (Seq<char>, ValueModel), b: (Seq<char>, ValueModel), c: (Seq<char>, ValueModel)|
                fit(a) && fit(b) && fit(c) && #[trigger] before(a, b) && !(#[trigger] before(c, b)) implies before(a, c) by {
                lemma_text_order(a.0, b.0, c.0, 0);
            }
            assert forall|a: (Seq<char>, ValueModel), b: (Seq<char>, ValueModel)|
                fit(a) && fit(b) && #[trigger] before(a, b) implies !before(b, a) by {
                lemma_text_order(a.0, b.0, b.0, 0);
            }
        }
        sorting_orders(t, key_order(), fit, n);
        if let Ok(JsonModel::Object(m)) = value_json(ValueModel::Object(t), depth) {
            assert forall|i: int, k: int| 0 <= i < k < m.len() implies !precedes((#[trigger] m[k]).0, (#[trigger] m[i]).0) by {
                assert(!key_order()(s[k], s[i]));
                text_order_is_the_dictionary(s[k].0, s[i].0);
            }
        }
    }
}

} // verus!
