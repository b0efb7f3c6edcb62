//! The documents that `serde_json` reads.

use crate::builtins::{effect_result, give, now};
use crate::draft::{text, text_2, throw_model, throw_pieces, Failure, FailureModel, PieceModel};
use crate::json::{documents, json_to_value, json_value, members, Json, JsonModel};
use crate::request::{Effect, EffectModel};
use vstd::prelude::*;

verus! {

/// A document as `serde_json` holds it.
#[verifier::external_body]
pub struct Document {
    value: serde_json::Value,
}

/// What `serde_json::from_str` makes of a text: the document, or the message of
/// the error.
pub uninterp spec fn json_parsed(s: Seq<char>) -> Result<JsonModel, Seq<char>>;

/// What a document holds.
pub uninterp spec fn held(d: Document) -> JsonModel;

/// A document taken apart by one level. A number comes with its bits, where it is a
/// binary64 number, and with its text.
pub enum Shape {
    Null,
    Bool(bool),
    Number { bits: Option<u64>, shown: String },
    String(String),
    Array(Vec<Document>),
    Object(Vec<(String, Document)>),
}

/// What the document that was taken apart held.
pub open spec fn shape_held(s: Shape) -> JsonModel {
    match s {
        Shape::Null => JsonModel::Null,
        Shape::Bool(b) => JsonModel::Bool(b),
        Shape::Number { bits: Some(n), .. } => JsonModel::Number(n),
        Shape::Number { bits: None, shown } => JsonModel::Unfit(shown@),
        Shape::String(t) => JsonModel::String(t@),
        Shape::Array(items) => JsonModel::Array(Seq::new(items@.len(), |i: int| held(items@[i]))),
        Shape::Object(items) => JsonModel::Object(
            Seq::new(items@.len(), |i: int| (items@[i].0@, held(items@[i].1))),
        ),
    }
}

/// `serde_json::from_str` into `serde_json::Value`: the result depends on the text
/// alone; an error is handed on as its message.
#[verifier::external_body]
pub(crate) fn parse_text(s: &str) -> (r: Result<Document, String>)
    ensures
        match r {
            Ok(d) => json_parsed(s@) == Ok::<_, Seq<char>>(held(d)),
            Err(e) => json_parsed(s@) == Err::<JsonModel, _>(e@),
        },
{
    match serde_json::from_str::<serde_json::Value>(s) {
        Ok(value) => Ok(Document { value }),
        Err(e) => Err(e.to_string()),
    }
}

/// The variant of a `serde_json::Value` with what it carries: numbers by
/// `Number::as_f64` and their text, the entries of an object in the order of its
/// map.
#[verifier::external_body]
pub(crate) fn take_apart(d: Document) -> (r: Shape)
    ensures
        shape_held(r) == held(d),
{
    match d.value {
        serde_json::Value::Null => Shape::Null,
        serde_json::Value::Bool(b) => Shape::Bool(b),
        serde_json::Value::Number(n) => Shape::Number { bits: n.as_f64().map(|x| x.to_bits()), shown: n.to_string() },
        serde_json::Value::String(s) => Shape::String(s),
        serde_json::Value::Array(v) => Shape::Array(v.into_iter().map(|value| Document { value }).collect()),
        serde_json::Value::Object(m) => {
            Shape::Object(m.into_iter().map(|(k, value)| (k, Document { value })).collect())
        },
    }
}

/// The list with its last item first, so that the items can be taken out in order.
fn turn_round<T>(items: Vec<T>) -> (r: Vec<T>)
    ensures
        r@ == items@.reverse(),
{
    let ghost all = items@;
    let mut rest = items;
    let mut r: Vec<T> = Vec::new();
    while rest.len() > 0
        invariant
            r@.len() + rest@.len() == all.len(),
            rest@ == all.take(rest@.len() as int),
            forall|k: int| 0 <= k < r@.len() ==> #[trigger] r@[k] == all[all.len() - 1 - k],
        decreases rest@.len(),
    {
        let ghost before = rest@;
        match rest.pop() {
            Some(x) => {
                r.push(x);
                assert(rest@ =~= all.take(rest@.len() as int));
                assert(x == before.last());
            },
            None => {},
        }
    }
    assert(r@ =~= all.reverse());
    r
}

/// The document as plain values.
fn copy_document(d: Document) -> (r: Json)
    ensures
        r@ == held(d),
    decreases held(d),
{
    match take_apart(d) {
        Shape::Null => Json::Null,
        Shape::Bool(b) => Json::Bool(b),
        Shape::Number { bits, shown } => match bits {
            Some(n) => Json::Number(n),
            None => Json::Unfit(shown),
        },
        Shape::String(t) => Json::String(t),
        Shape::Array(items) => {
            let ghost all = items@;
            let ghost models = held(d)->Array_0;
            let mut rest = turn_round(items);
            let mut done: Vec<Json> = Vec::new();
            while rest.len() > 0
                invariant
                    decreases_to!(held(d) => models),
                    models.len() == all.len(),
                    forall|k: int| 0 <= k < all.len() ==> #[trigger] models[k] == held(all[k]),
                    done@.len() + rest@.len() == all.len(),
                    forall|k: int| 0 <= k < rest@.len() ==> #[trigger] rest@[k] == all[all.len() - 1 - k],
                    forall|k: int| 0 <= k < done@.len() ==> (#[trigger] done@[k])@ == models[k],
                decreases rest@.len(),
            {
                let ghost n = done@.len() as int;
                match rest.pop() {
                    Some(x) => {
                        assert(x == all[n]);
                        assert(models[n] == held(x));
                        assert(decreases_to!(models => models[n]));
                        let j = copy_document(x);
                        done.push(j);
                    },
                    None => {},
                }
            }
            assert(documents(done@) =~= models);
            Json::Array(done)
        },
        Shape::Object(items) => {
            let ghost all = items@;
            let ghost models = held(d)->Object_0;
            let mut rest = turn_round(items);
            let mut done: Vec<(String, Json)> = Vec::new();
            while rest.len() > 0
                invariant
                    decreases_to!(held(d) => models),
                    models.len() == all.len(),
                    forall|k: int|
                        0 <= k < all.len() ==> (#[trigger] models[k]).0 == all[k].0@ && models[k].1 == held(all[k].1),
                    done@.len() + rest@.len() == all.len(),
                    forall|k: int| 0 <= k < rest@.len() ==> #[trigger] rest@[k] == all[all.len() - 1 - k],
                    forall|k: int|
                        0 <= k < done@.len() ==> (#[trigger] done@[k]).0@ == models[k].0 && done@[k].1@ == models[k].1,
                decreases rest@.len(),
            {
                let ghost n = done@.len() as int;
                match rest.pop() {
                    Some((key, x)) => {
                        assert((key, x) == all[n]);
                        assert(models[n].1 == held(x));
                        assert(decreases_to!(models => models[n]));
                        assert(decreases_to!(models[n] => models[n].1));
                        let j = copy_document(x);
                        done.push((key, j));
                    },
                    None => {},
                }
            }
            assert(members(done@) =~= models);
            Json::Object(done)
        },
    }
}

/// What `r` is, as a model.
pub open spec fn json_outcome(r: Result<Json, String>) -> Result<JsonModel, Seq<char>> {
    match r {
        Ok(j) => Ok(j@),
        Err(e) => Err(e@),
    }
}

/// Reads a document from its text.
pub fn read_json(s: &str) -> (r: Result<Json, String>)
    ensures
        json_outcome(r) == json_parsed(s@),
{
    match parse_text(s) {
        Ok(d) => Ok(copy_document(d)),
        Err(e) => Err(e),
    }
}

/// What `json.Parse` gives for what was read.
pub open spec fn parse_result(r: Result<JsonModel, Seq<char>>) -> Result<EffectModel, FailureModel> {
    match r {
        Err(e) => Err(
            throw_model("ValueError"@, seq![PieceModel::Text("invalid JSON: "@), PieceModel::Text(e)]),
        ),
        Ok(j) => match json_value(j, 0) {
            Ok(v) => Ok(now(v)),
            Err(e) => Err(e),
        },
    }
}

/// Turns what was read into the value of `json.Parse`.
pub fn accept_json(r: Result<Json, String>) -> (e: Result<Effect, Failure>)
    ensures
        effect_result(e) == parse_result(json_outcome(r)),
{
    match r {
        Err(e) => Err(throw_pieces("ValueError", text_2(text("invalid JSON: "), text(e.as_str())))),
        Ok(j) => match json_to_value(&j, 0) {
            Ok(v) => give(v),
            Err(e) => Err(e),
        },
    }
}

} // verus!
