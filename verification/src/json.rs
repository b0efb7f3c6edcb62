//! JSON documents and values.

use crate::ast::{entries, values, Value, ValueModel};
use crate::draft::{
    pieces, text, text_1, text_2, text_3, throw_err, throw_model, throw_pieces, throw_text, Failure, FailureModel,
    Piece, PieceModel,
};
use crate::number::{finite, is_finite};
use crate::show::{same_table, same_value, same_values, type_of, value_type_name};
use crate::sort::{key_order, lemma_slot, slot, sort_entries, sorted, sorted_entries};
use crate::table::{distinct, keys, lemma_place, lemma_place_is, lookup, place, put, store};
use vstd::prelude::*;

verus! {

/// How deep a document may nest.
pub const MAX_JSON_DEPTH: usize = 128;

/// A JSON document. `Unfit` is a number that no binary64 number stands for.
#[derive(Debug, PartialEq)]
pub enum Json {
    Null,
    Bool(bool),
    Number(u64),
    Unfit(String),
    String(String),
    Array(Vec<Json>),
    Object(Vec<(String, Json)>),
}

#[verifier::ext_equal]
pub enum JsonModel {
    Null,
    Bool(bool),
    Number(u64),
    Unfit(Seq<char>),
    String(Seq<char>),
    Array(Seq<JsonModel>),
    Object(Seq<(Seq<char>, JsonModel)>),
}

impl Json {
    pub open spec fn view(&self) -> JsonModel
        decreases self,
    {
        match *self {
            Json::Null => JsonModel::Null,
            Json::Bool(b) => JsonModel::Bool(b),
            Json::Number(n) => JsonModel::Number(n),
            Json::Unfit(s) => JsonModel::Unfit(s@),
            Json::String(s) => JsonModel::String(s@),
            Json::Array(items) => JsonModel::Array(documents(items@)),
            Json::Object(items) => JsonModel::Object(members(items@)),
        }
    }
}

pub open spec fn documents(items: Seq<Json>) -> Seq<JsonModel>
    decreases items,
{
    Seq::new(
        items.len(),
        |i: int|
            if 0 <= i < items.len() {
                items[i].view()
            } else {
                arbitrary()
            },
    )
}

pub open spec fn members(items: Seq<(String, Json)>) -> Seq<(Seq<char>, JsonModel)>
    decreases items,
{
    Seq::new(
        items.len(),
        |i: int|
            if 0 <= i < items.len() {
                (items[i].0@, items[i].1.view())
            } else {
                arbitrary()
            },
    )
}

/// The value of a document that stands `depth` levels deep.
pub open spec fn json_value(j: JsonModel, depth: int) -> Result<ValueModel, FailureModel>
    decreases j, 0int,
{
    if depth > MAX_JSON_DEPTH {
        Err(throw_text("ValueError"@, "JSON nesting exceeds 128 levels"@))
    } else {
        match j {
            JsonModel::Null => Ok(ValueModel::Null),
            JsonModel::Bool(b) => Ok(ValueModel::Logic(b)),
            JsonModel::Number(n) => Ok(ValueModel::Number(n)),
            JsonModel::Unfit(s) => Err(
                throw_model(
                    "ValueError"@,
                    seq![PieceModel::Text("JSON number out of range: "@), PieceModel::Text(s)],
                ),
            ),
            JsonModel::String(s) => Ok(ValueModel::String(s)),
            JsonModel::Array(items) => match json_values(items, depth + 1, 0, seq![]) {
                Ok(v) => Ok(ValueModel::Array(v)),
                Err(e) => Err(e),
            },
            JsonModel::Object(items) => match json_entries(items, depth + 1, 0, seq![]) {
                Ok(v) => Ok(ValueModel::Object(v)),
                Err(e) => Err(e),
            },
        }
    }
}

/// The values of the documents from `i` on, behind those of `done`.
pub open spec fn json_values(items: Seq<JsonModel>, depth: int, i: int, done: Seq<ValueModel>) -> Result<
    Seq<ValueModel>,
    FailureModel,
>
    decreases items, items.len() - i,
{
    if i < 0 || i >= items.len() {
        Ok(done)
    } else {
        match json_value(items[i], depth) {
            Err(e) => Err(e),
            Ok(v) => json_values(items, depth, i + 1, done.push(v)),
        }
    }
}

/// The entries of the members from `i` on, put into `done`.
pub open spec fn json_entries(
    items: Seq<(Seq<char>, JsonModel)>,
    depth: int,
    i: int,
    done: Seq<(Seq<char>, ValueModel)>,
) -> Result<Seq<(Seq<char>, ValueModel)>, FailureModel>
    decreases items, items.len() - i,
{
    if i < 0 || i >= items.len() {
        Ok(done)
    } else {
        match json_value(items[i].1, depth) {
            Err(e) => Err(e),
            Ok(v) => json_entries(items, depth, i + 1, put(done, items[i].0, v)),
        }
    }
}

/// Turns a document into a value. Nesting is bounded.
pub fn json_to_value(j: &Json, depth: usize) -> (r: Result<Value, Failure>)
    ensures
        match r {
            Ok(v) => json_value(j@, depth as int) == Ok::<ValueModel, FailureModel>(v@),
            Err(e) => json_value(j@, depth as int) == Err::<ValueModel, FailureModel>(e@),
        },
    decreases j,
{
    if depth > MAX_JSON_DEPTH {
        return Err(throw_err("ValueError", "JSON nesting exceeds 128 levels"));
    }
    match j {
        Json::Null => Ok(Value::Null),
        Json::Bool(b) => Ok(Value::Logic(*b)),
        Json::Number(n) => Ok(Value::Number(*n)),
        Json::Unfit(s) => Err(
            throw_pieces("ValueError", text_2(text("JSON number out of range: "), text(s.as_str()))),
        ),
        Json::String(s) => Ok(Value::String(s.clone())),
        Json::Array(items) => {
            let ghost model = documents(items@);
            let mut done: Vec<Value> = Vec::new();
            let mut i: usize = 0;
            assert(values(done@) =~= seq![]);
            while i < items.len()
                invariant
                    i <= items@.len(),
                    depth <= MAX_JSON_DEPTH,
                    model == documents(items@),
                    j@ == JsonModel::Array(model),
                    decreases_to!(j => items),
                    json_values(model, depth + 1, i as int, values(done@)) == json_values(model, depth + 1, 0, seq![]),
                decreases items@.len() - i,
            {
                let ghost before = values(done@);
                let v = json_to_value(&items[i], depth + 1)?;
                done.push(v);
                assert(values(done@) =~= before.push(v@));
                i = i + 1;
            }
            Ok(Value::Array(done))
        },
        Json::Object(items) => {
            let ghost model = members(items@);
            let mut done: Vec<(String, Value)> = Vec::new();
            let mut i: usize = 0;
            assert(entries(done@) =~= seq![]);
            while i < items.len()
                invariant
                    i <= items@.len(),
                    depth <= MAX_JSON_DEPTH,
                    model == members(items@),
                    j@ == JsonModel::Object(model),
                    decreases_to!(j => items),
                    json_entries(model, depth + 1, i as int, entries(done@)) == json_entries(
                        model,
                        depth + 1,
                        0,
                        seq![],
                    ),
                decreases items@.len() - i,
            {
                let v = json_to_value(&items[i].1, depth + 1)?;
                store(&mut done, items[i].0.clone(), v);
                i = i + 1;
            }
            Ok(Value::Object(done))
        },
    }
}

/// The document of a value that stands `depth` levels deep. Keys are sorted.
pub open spec fn value_json(v: ValueModel, depth: int) -> Result<JsonModel, Seq<PieceModel>>
    decreases MAX_JSON_DEPTH + 1 - depth, 0int,
{
    if depth > MAX_JSON_DEPTH {
        Err(seq![PieceModel::Text("value nesting exceeds 128 levels"@)])
    } else {
        match v {
            ValueModel::Null => Ok(JsonModel::Null),
            ValueModel::Logic(b) => Ok(JsonModel::Bool(b)),
            ValueModel::Number(n) => if finite(n) {
                Ok(JsonModel::Number(n))
            } else {
                Err(seq![PieceModel::Text("cannot stringify non-finite number: "@), PieceModel::Number(n)])
            },
            ValueModel::String(s) => Ok(JsonModel::String(s)),
            ValueModel::Array(items) => match value_documents(items, depth + 1, 0, seq![]) {
                Ok(d) => Ok(JsonModel::Array(d)),
                Err(e) => Err(e),
            },
            ValueModel::Object(items) => match value_members(sorted_entries(items), depth + 1, 0, seq![]) {
                Ok(d) => Ok(JsonModel::Object(d)),
                Err(e) => Err(e),
            },
            other => Err(
                seq![
                    PieceModel::Text("cannot stringify "@),
                    PieceModel::Text(type_of(other)),
                    PieceModel::Text(
                        " to JSON (only string/number/logic/null/array/object cross the boundary)"@,
                    ),
                ],
            ),
        }
    }
}

/// The documents of the values from `i` on, behind those of `done`.
pub open spec fn value_documents(items: Seq<ValueModel>, depth: int, i: int, done: Seq<JsonModel>) -> Result<
    Seq<JsonModel>,
    Seq<PieceModel>,
>
    decreases MAX_JSON_DEPTH + 1 - depth, 1 + items.len() - i,
{
    if i < 0 || i >= items.len() {
        Ok(done)
    } else {
        match value_json(items[i], depth) {
            Err(e) => Err(e),
            Ok(d) => value_documents(items, depth, i + 1, done.push(d)),
        }
    }
}

/// The members of the entries from `i` on, behind those of `done`.
pub open spec fn value_members(
    items: Seq<(Seq<char>, ValueModel)>,
    depth: int,
    i: int,
    done: Seq<(Seq<char>, JsonModel)>,
) -> Result<Seq<(Seq<char>, JsonModel)>, Seq<PieceModel>>
    decreases MAX_JSON_DEPTH + 1 - depth, 1 + items.len() - i,
{
    if i < 0 || i >= items.len() {
        Ok(done)
    } else {
        match value_json(items[i].1, depth) {
            Err(e) => Err(e),
            Ok(d) => value_members(items, depth, i + 1, done.push((items[i].0, d))),
        }
    }
}

/// Turns a value into a document, with sorted keys. What cannot cross the
/// boundary is refused with a message.
pub fn value_to_json(v: &Value, depth: usize) -> (r: Result<Json, Vec<Piece>>)
    ensures
        match r {
            Ok(j) => value_json(v@, depth as int) == Ok::<JsonModel, Seq<PieceModel>>(j@),
            Err(e) => value_json(v@, depth as int) == Err::<JsonModel, Seq<PieceModel>>(pieces(e@)),
        },
    decreases MAX_JSON_DEPTH + 1 - depth,
{
    if depth > MAX_JSON_DEPTH {
        return Err(text_1(text("value nesting exceeds 128 levels")));
    }
    match v {
        Value::Null => Ok(Json::Null),
        Value::Logic(b) => Ok(Json::Bool(*b)),
        Value::Number(n) => if is_finite(*n) {
            Ok(Json::Number(*n))
        } else {
            Err(text_2(text("cannot stringify non-finite number: "), Piece::Number(*n)))
        },
        Value::String(s) => Ok(Json::String(s.clone())),
        Value::Array(items) => {
            let ghost model = values(items@);
            let mut done: Vec<Json> = Vec::new();
            let mut i: usize = 0;
            assert(documents(done@) =~= seq![]);
            while i < items.len()
                invariant
                    i <= items@.len(),
                    depth <= MAX_JSON_DEPTH,
                    model == values(items@),
                    v@ == ValueModel::Array(model),
                    value_documents(model, depth + 1, i as int, documents(done@)) == value_documents(
                        model,
                        depth + 1,
                        0,
                        seq![],
                    ),
                decreases items@.len() - i,
            {
                let ghost before = documents(done@);
                let d = value_to_json(&items[i], depth + 1)?;
                done.push(d);
                assert(documents(done@) =~= before.push(d@));
                i = i + 1;
            }
            Ok(Json::Array(done))
        },
        Value::Object(table) => {
            let items = sort_entries(table);
            let ghost model = entries(items@);
            let mut done: Vec<(String, Json)> = Vec::new();
            let mut i: usize = 0;
            assert(members(done@) =~= seq![]);
            while i < items.len()
                invariant
                    i <= items@.len(),
                    depth <= MAX_JSON_DEPTH,
                    model == entries(items@),
                    v@ == ValueModel::Object(entries(table@)),
                    model == sorted_entries(entries(table@)),
                    value_members(model, depth + 1, i as int, members(done@)) == value_members(
                        model,
                        depth + 1,
                        0,
                        seq![],
                    ),
                decreases items@.len() - i,
            {
                let ghost before = members(done@);
                let d = value_to_json(&items[i].1, depth + 1)?;
                done.push((items[i].0.clone(), d));
                assert(members(done@) =~= before.push((items@[i as int].0@, d@)));
                i = i + 1;
            }
            Ok(Json::Object(done))
        },
        other => Err(
            text_3(
                text("cannot stringify "),
                Piece::Text(value_type_name(other)),
                text(" to JSON (only string/number/logic/null/array/object cross the boundary)"),
            ),
        ),
    }
}

/// No table in the value has a key twice.
pub open spec fn tidy(v: ValueModel) -> bool
    decreases v,
{
    match v {
        ValueModel::Array(items) => forall|i: int| 0 <= i < items.len() ==> tidy(#[trigger] items[i]),
        ValueModel::Object(items) => distinct(keys(items)) && forall|i: int|
            0 <= i < items.len() ==> tidy((#[trigger] items[i]).1),
        _ => true,
    }
}

/// Sorted by key, a table has the same entries, and still no key twice.
proof fn lemma_sorted_table(s: Seq<(Seq<char>, ValueModel)>, n: int)
    requires
        0 <= n <= s.len(),
        distinct(keys(s)),
    ensures
        sorted(s, key_order(), n).len() == n,
        distinct(keys(sorted(s, key_order(), n))),
        forall|i: int| 0 <= i < n ==> sorted(s, key_order(), n).contains(#[trigger] s[i]),
        forall|k: int| 0 <= k < n ==> s.take(n).contains(#[trigger] sorted(s, key_order(), n)[k]),
    decreases n,
{
    if n > 0 {
        lemma_sorted_table(s, n - 1);
        let rest = sorted(s, key_order(), n - 1);
        let x = s[n - 1];
        let at = slot(rest, x, key_order(), rest.len() as int);
        lemma_slot(rest, x, key_order(), rest.len() as int);
        let all = sorted(s, key_order(), n);
        assert(all[at] == x);
        assert forall|i: int| 0 <= i < n implies all.contains(#[trigger] s[i]) by {
            if i < n - 1 {
                let k = choose|k: int| 0 <= k < rest.len() && rest[k] == s[i];
                if k < at {
                    assert(all[k] == s[i]);
                } else {
                    assert(all[k + 1] == s[i]);
                }
            }
        }
        assert forall|k: int| 0 <= k < n implies s.take(n).contains(#[trigger] all[k]) by {
            if k == at {
                assert(s.take(n)[n - 1] == x);
            } else {
                let r = if k < at {
                    k
                } else {
                    k - 1
                };
                assert(all[k] == rest[r]);
                let first = s.take(n - 1);
                let i = choose|i: int| 0 <= i < first.len() && first[i] == rest[r];
                assert(s.take(n)[i] == all[k]);
            }
        }
        assert forall|a: int, b: int| 0 <= a < b < all.len() implies #[trigger] keys(all)[a] != #[trigger] keys(all)[b] by {
            let ra = if a < at {
                a
            } else {
                a - 1
            };
            let rb = if b < at {
                b
            } else {
                b - 1
            };
            if a != at && b != at {
                assert(all[a] == rest[ra] && all[b] == rest[rb]);
                assert(keys(rest)[ra] != keys(rest)[rb]);
            } else {
                let o = if a == at {
                    rb
                } else {
                    ra
                };
                let first = s.take(n - 1);
                let i = choose|i: int| 0 <= i < first.len() && first[i] == rest[o];
                assert(keys(s)[i] != keys(s)[n - 1]);
            }
        }
    }
}

proof fn lemma_documents(items: Seq<ValueModel>, depth: int, i: int, done: Seq<JsonModel>)
    requires
        0 <= i <= items.len(),
        done.len() == i,
        forall|k: int| 0 <= k < i ==> value_json(items[k], depth) == Ok::<_, Seq<PieceModel>>(#[trigger] done[k]),
    ensures
        value_documents(items, depth, i, done) matches Ok(d) ==> {
            &&& d.len() == items.len()
            &&& forall|k: int|
                0 <= k < d.len() ==> value_json(items[k], depth) == Ok::<_, Seq<PieceModel>>(#[trigger] d[k])
        },
    decreases items.len() - i,
{
    if i < items.len() {
        match value_json(items[i], depth) {
            Ok(d) => {
                lemma_documents(items, depth, i + 1, done.push(d));
            },
            Err(e) => {},
        }
    }
}

proof fn lemma_members(items: Seq<(Seq<char>, ValueModel)>, depth: int, i: int, done: Seq<(Seq<char>, JsonModel)>)
    requires
        0 <= i <= items.len(),
        done.len() == i,
        forall|k: int|
            0 <= k < i ==> (#[trigger] done[k]).0 == items[k].0 && value_json(items[k].1, depth) == Ok::<
                _,
                Seq<PieceModel>,
            >(done[k].1),
    ensures
        value_members(items, depth, i, done) matches Ok(d) ==> {
            &&& d.len() == items.len()
            &&& forall|k: int|
                0 <= k < d.len() ==> (#[trigger] d[k]).0 == items[k].0 && value_json(items[k].1, depth) == Ok::<
                    _,
                    Seq<PieceModel>,
                >(d[k].1)
        },
    decreases items.len() - i,
{
    if i < items.len() {
        match value_json(items[i].1, depth) {
            Ok(d) => {
                lemma_members(items, depth, i + 1, done.push((items[i].0, d)));
            },
            Err(e) => {},
        }
    }
}

proof fn lemma_values(items: Seq<JsonModel>, depth: int, i: int, done: Seq<ValueModel>)
    requires
        0 <= i <= items.len(),
        done.len() == i,
        forall|k: int| 0 <= k < items.len() ==> json_value(#[trigger] items[k], depth) is Ok,
        forall|k: int| 0 <= k < i ==> json_value(items[k], depth) == Ok::<_, FailureModel>(#[trigger] done[k]),
    ensures
        json_values(items, depth, i, done) matches Ok(v) && {
            &&& v.len() == items.len()
            &&& forall|k: int|
                0 <= k < v.len() ==> json_value(items[k], depth) == Ok::<_, FailureModel>(#[trigger] v[k])
        },
    decreases items.len() - i,
{
    if i < items.len() {
        assert(json_value(items[i], depth) is Ok);
        lemma_values(items, depth, i + 1, done.push(json_value(items[i], depth)->Ok_0));
    }
}

proof fn lemma_entries(items: Seq<(Seq<char>, JsonModel)>, depth: int, i: int, done: Seq<(Seq<char>, ValueModel)>)
    requires
        0 <= i <= items.len(),
        distinct(keys(items)),
        done.len() == i,
        forall|k: int| 0 <= k < items.len() ==> json_value((#[trigger] items[k]).1, depth) is Ok,
        forall|k: int|
            0 <= k < i ==> (#[trigger] done[k]).0 == items[k].0 && json_value(items[k].1, depth) == Ok::<_, FailureModel>(
                done[k].1,
            ),
    ensures
        json_entries(items, depth, i, done) matches Ok(v) && {
            &&& v.len() == items.len()
            &&& forall|k: int|
                0 <= k < v.len() ==> (#[trigger] v[k]).0 == items[k].0 && json_value(items[k].1, depth) == Ok::<
                    _,
                    FailureModel,
                >(v[k].1)
        },
    decreases items.len() - i,
{
    if i < items.len() {
        assert(json_value(items[i].1, depth) is Ok);
        let w = json_value(items[i].1, depth)->Ok_0;
        lemma_place(keys(done), items[i].0, 0);
        if let Some(k) = place(keys(done), items[i].0) {
            assert(done[k].0 == items[k].0);
            assert(keys(items)[k] != keys(items)[i]);
        }
        lemma_entries(items, depth, i + 1, done.push((items[i].0, w)));
    }
}

/// What is written as a document and read back is the value that was written.
pub proof fn json_round_trip(v: ValueModel, depth: int)
    requires
        tidy(v),
    ensures
        value_json(v, depth) matches Ok(j) ==> json_value(j, depth) matches Ok(w) && same_value(v, w),
    decreases MAX_JSON_DEPTH + 1 - depth,
{
    if depth <= MAX_JSON_DEPTH {
        match v {
            ValueModel::Array(items) => {
                lemma_documents(items, depth + 1, 0, seq![]);
                if let Ok(d) = value_documents(items, depth + 1, 0, seq![]) {
                    assert forall|k: int| 0 <= k < d.len() implies json_value(#[trigger] d[k], depth + 1) is Ok
                        && same_value(items[k], json_value(d[k], depth + 1)->Ok_0) by {
                        json_round_trip(items[k], depth + 1);
                    }
                    lemma_values(d, depth + 1, 0, seq![]);
                    let w = json_values(d, depth + 1, 0, seq![])->Ok_0;
                    assert forall|k: int| 0 <= k < items.len() implies same_value(#[trigger] items[k], w[k]) by {
                        assert(json_value(d[k], depth + 1) == Ok::<_, FailureModel>(w[k]));
                    }
                    assert(same_values(items, w));
                    assert(json_value(JsonModel::Array(d), depth) == Ok::<_, FailureModel>(ValueModel::Array(w)));
                }
            },
            ValueModel::Object(items) => {
                let n = items.len() as int;
                let s = sorted_entries(items);
                lemma_sorted_table(items, n);
                assert(items.take(n) =~= items);
                lemma_members(s, depth + 1, 0, seq![]);
                if let Ok(d) = value_members(s, depth + 1, 0, seq![]) {
                    assert(keys(d) =~= keys(s));
                    assert forall|k: int| 0 <= k < d.len() implies json_value((#[trigger] d[k]).1, depth + 1) is Ok
                        && same_value(s[k].1, json_value(d[k].1, depth + 1)->Ok_0) by {
                        assert(items.contains(s[k]));
                        let i = choose|i: int| 0 <= i < items.len() && items[i] == s[k];
                        assert(tidy(items[i].1));
                        json_round_trip(s[k].1, depth + 1);
                    }
                    lemma_entries(d, depth + 1, 0, seq![]);
                    let w = json_entries(d, depth + 1, 0, seq![])->Ok_0;
                    assert(keys(w) =~= keys(s));
                    assert forall|i: int| 0 <= i < items.len() implies lookup(w, (#[trigger] items[i]).0) is Some
                        && same_value(items[i].1, lookup(w, items[i].0)->0) by {
                        assert(s.contains(items[i]));
                        let k = choose|k: int| 0 <= k < s.len() && s[k] == items[i];
                        assert(keys(w)[k] == items[i].0);
                        assert forall|m: int| 0 <= m < k implies keys(w)[m] != items[i].0 by {
                            assert(keys(s)[m] != keys(s)[k]);
                        }
                        lemma_place_is(keys(w), items[i].0, 0, k);
                        assert(w[k].0 == d[k].0);
                    }
                    assert(same_table(items, w));
                    assert(json_value(JsonModel::Object(d), depth) == Ok::<_, FailureModel>(ValueModel::Object(w)));
                }
            },
            ValueModel::Number(n) => {
                if finite(n) {
                    crate::number::order_is_by_value(n, n);
                }
            },
            _ => {},
        }
    }
}

} // verus!
