//! The `arr` namespace. Its functions give new arrays.

use crate::ast::{copy_values, entries, texts, values, Value, ValueModel};
use crate::builtins::{
    array_in, complain, complain_unknown, count, effect_result, expect_array, expect_int, give, give_count, int_in,
    invoke_join, join_args, now, string_values, text_values, unknown,
};
use crate::draft::{
    debug, text, text_2, throw_err, throw_model, throw_pieces, throw_text, Failure, FailureModel, Piece, PieceModel,
};
use crate::request::{Effect, EffectModel};
use crate::show::{int_text, same_value, values_equal, write_int};
use crate::sort::{sort_texts, sort_values, sorted_texts, sorted_values};
use crate::strlib::{find_window, opt_int, window};
use crate::table::{find, key_texts, keys, place};
use crate::text::same;
use vstd::prelude::*;

verus! {

pub open spec fn all_numbers(items: Seq<ValueModel>) -> bool {
    forall|i: int| 0 <= i < items.len() ==> (#[trigger] items[i]) is Number
}

pub open spec fn all_strings(items: Seq<ValueModel>) -> bool {
    forall|i: int| 0 <= i < items.len() ==> (#[trigger] items[i]) is String
}

fn is_all_numbers(items: &Vec<Value>) -> (r: bool)
    ensures
        r == all_numbers(values(items@)),
{
    let ghost model = values(items@);
    let mut i: usize = 0;
    while i < items.len()
        invariant
            i <= items@.len(),
            model == values(items@),
            forall|k: int| 0 <= k < i ==> (#[trigger] model[k]) is Number,
        decreases items@.len() - i,
    {
        if !matches!(&items[i], Value::Number(_)) {
            assert(!(model[i as int] is Number));
            return false;
        }
        i = i + 1;
    }
    true
}

fn is_all_strings(items: &Vec<Value>) -> (r: bool)
    ensures
        r == all_strings(values(items@)),
{
    let ghost model = values(items@);
    let mut i: usize = 0;
    while i < items.len()
        invariant
            i <= items@.len(),
            model == values(items@),
            forall|k: int| 0 <= k < i ==> (#[trigger] model[k]) is String,
        decreases items@.len() - i,
    {
        if !matches!(&items[i], Value::String(_)) {
            assert(!(model[i as int] is String));
            return false;
        }
        i = i + 1;
    }
    true
}

/// Whether one of the items is the same as `v`.
pub open spec fn holds(items: Seq<ValueModel>, v: ValueModel) -> bool {
    exists|i: int| 0 <= i < items.len() && same_value(#[trigger] items[i], v)
}

fn is_held(items: &Vec<Value>, v: &Value) -> (r: bool)
    ensures
        r == holds(values(items@), v@),
{
    let ghost model = values(items@);
    let mut i: usize = 0;
    while i < items.len()
        invariant
            i <= items@.len(),
            model == values(items@),
            forall|k: int| 0 <= k < i ==> !same_value(#[trigger] model[k], v@),
        decreases items@.len() - i,
    {
        if values_equal(&items[i], v) {
            assert(same_value(model[i as int], v@));
            return true;
        }
        i = i + 1;
    }
    false
}

/// The items in reverse.
fn reverse(items: &Vec<Value>) -> (r: Vec<Value>)
    ensures
        values(r@) == values(items@).reverse(),
{
    let mut r: Vec<Value> = Vec::new();
    let mut i: usize = items.len();
    while i > 0
        invariant
            i <= items@.len(),
            r@.len() == items@.len() - i,
            forall|k: int| 0 <= k < r@.len() ==> (#[trigger] r@[k])@ == items@[items@.len() - 1 - k]@,
        decreases i,
    {
        i = i - 1;
        r.push(items[i].copy());
    }
    assert(values(r@) =~= values(items@).reverse());
    r
}

/// The items from `from` up to `to`.
pub fn copy_range(items: &Vec<Value>, from: usize, to: usize) -> (r: Vec<Value>)
    requires
        from <= to <= items@.len(),
    ensures
        values(r@) == values(items@).subrange(from as int, to as int),
{
    let mut r: Vec<Value> = Vec::new();
    let mut i: usize = from;
    while i < to
        invariant
            from <= i <= to <= items@.len(),
            r@.len() == i - from,
            forall|k: int| 0 <= k < r@.len() ==> (#[trigger] r@[k])@ == items@[from + k]@,
        decreases to - i,
    {
        r.push(items[i].copy());
        i = i + 1;
    }
    assert(values(r@) =~= values(items@).subrange(from as int, to as int));
    r
}

/// The keys of a table.
fn table_keys(t: &Vec<(String, Value)>) -> (r: Vec<String>)
    ensures
        texts(r@) == keys(entries(t@)),
{
    let mut r: Vec<String> = Vec::new();
    let mut i: usize = 0;
    while i < t.len()
        invariant
            i <= t@.len(),
            r@.len() == i,
            forall|k: int| 0 <= k < i ==> (#[trigger] r@[k])@ == t@[k].0@,
        decreases t@.len() - i,
    {
        r.push(t[i].0.clone());
        i = i + 1;
    }
    assert(texts(r@) =~= keys(entries(t@)));
    r
}

/// The complaint that there is no item at `n`.
pub open spec fn out_of_bounds(n: int) -> FailureModel {
    throw_model("IndexError"@, seq![PieceModel::Text("Index out of bounds: "@), PieceModel::Text(int_text(n))])
}

/// The items from `start` on, at most `len` of them.
pub open spec fn slice_of(items: Seq<ValueModel>, start: int, len: Option<int>) -> Result<Seq<ValueModel>, FailureModel> {
    if start < 0 {
        Err(throw_text("ValueError"@, "Slice start must be >= 0"@))
    } else if len matches Some(n) && n < 0 {
        Err(throw_text("ValueError"@, "Slice length must be >= 0"@))
    } else {
        Ok(window(items, start, len))
    }
}

pub fn slice_array(items: &Vec<Value>, start: i64, len: Option<i64>) -> (r: Result<Vec<Value>, Failure>)
    ensures
        match r {
            Ok(v) => slice_of(values(items@), start as int, opt_int(len)) == Ok::<_, FailureModel>(values(v@)),
            Err(e) => slice_of(values(items@), start as int, opt_int(len)) == Err::<Seq<ValueModel>, _>(e@),
        },
{
    if start < 0 {
        return Err(throw_err("ValueError", "Slice start must be >= 0"));
    }
    match len {
        Some(n) => {
            if n < 0 {
                return Err(throw_err("ValueError", "Slice length must be >= 0"));
            }
        },
        None => {},
    }
    let (a, b) = find_window(items.len(), start, len);
    Ok(copy_range(items, a, b))
}

/// A function of one array.
pub open spec fn arr_one(function: Seq<char>, items: Seq<ValueModel>) -> Result<EffectModel, FailureModel> {
    if function == "Len"@ {
        Ok(count(items.len()))
    } else if function == "Pop"@ {
        if items.len() == 0 {
            Err(throw_text("IndexError"@, "Pop from empty array"@))
        } else {
            Ok(now(ValueModel::Array(items.drop_last())))
        }
    } else if function == "Reverse"@ {
        Ok(now(ValueModel::Array(items.reverse())))
    } else if all_numbers(items) || all_strings(items) {
        Ok(now(ValueModel::Array(sorted_values(items))))
    } else {
        Err(throw_text("TypeError"@, "Sort needs all numbers or all strings"@))
    }
}

fn evaluate_arr_one(function: &str, items: &Vec<Value>) -> (r: Result<Effect, Failure>)
    ensures
        effect_result(r) == arr_one(function@, values(items@)),
{
    if same(function, "Len") {
        return give_count(items.len());
    }
    if same(function, "Pop") {
        if items.len() == 0 {
            return complain("IndexError", "Pop from empty array");
        }
        let r = copy_range(items, 0, items.len() - 1);
        assert(values(r@) =~= values(items@).drop_last());
        return give(Value::Array(r));
    }
    if same(function, "Reverse") {
        return give(Value::Array(reverse(items)));
    }
    if is_all_numbers(items) || is_all_strings(items) {
        give(Value::Array(sort_values(items)))
    } else {
        complain("TypeError", "Sort needs all numbers or all strings")
    }
}

/// `Get`
pub open spec fn arr_get(args: Seq<ValueModel>) -> Result<EffectModel, FailureModel> {
    if args.len() == 2 {
        match array_in(args[0], "Get"@) {
            Err(e) => Err(e),
            Ok(items) => match int_in(args[1], "Get"@) {
                Err(e) => Err(e),
                Ok(i) => if 0 <= i < items.len() {
                    Ok(now(items[i]))
                } else {
                    Err(out_of_bounds(i))
                },
            },
        }
    } else {
        Err(throw_text("ValueError"@, "Get expects (array, index)"@))
    }
}

fn invoke_get(args: &Vec<Value>) -> (r: Result<Effect, Failure>)
    ensures
        effect_result(r) == arr_get(values(args@)),
{
    if args.len() != 2 {
        return complain("ValueError", "Get expects (array, index)");
    }
    let items = expect_array(&args[0], "Get")?;
    let i: i64 = expect_int(&args[1], "Get")?;
    if i >= 0 && (i as u64) < items.len() as u64 {
        give(items[i as usize].copy())
    } else {
        Err(throw_pieces("IndexError", text_2(text("Index out of bounds: "), Piece::Text(write_int(i)))))
    }
}

/// `Slice`
pub open spec fn arr_slice(args: Seq<ValueModel>) -> Result<EffectModel, FailureModel> {
    if args.len() == 2 || args.len() == 3 {
        match array_in(args[0], "Slice"@) {
            Err(e) => Err(e),
            Ok(items) => match int_in(args[1], "Slice"@) {
                Err(e) => Err(e),
                Ok(start) => if args.len() == 2 {
                    match slice_of(items, start, None) {
                        Err(e) => Err(e),
                        Ok(v) => Ok(now(ValueModel::Array(v))),
                    }
                } else {
                    match int_in(args[2], "Slice"@) {
                        Err(e) => Err(e),
                        Ok(len) => match slice_of(items, start, Some(len)) {
                            Err(e) => Err(e),
                            Ok(v) => Ok(now(ValueModel::Array(v))),
                        },
                    }
                },
            },
        }
    } else {
        Err(throw_text("ValueError"@, "Slice expects (array, start[, length])"@))
    }
}

fn invoke_slice(args: &Vec<Value>) -> (r: Result<Effect, Failure>)
    ensures
        effect_result(r) == arr_slice(values(args@)),
{
    if args.len() != 2 && args.len() != 3 {
        return complain("ValueError", "Slice expects (array, start[, length])");
    }
    let items = expect_array(&args[0], "Slice")?;
    let start: i64 = expect_int(&args[1], "Slice")?;
    let len: Option<i64> = if args.len() == 3 {
        let n: i64 = expect_int(&args[2], "Slice")?;
        Some(n)
    } else {
        None
    };
    let v = slice_array(items, start, len)?;
    give(Value::Array(v))
}

/// `Keys` and `Has`
pub open spec fn arr_lookup(function: Seq<char>, args: Seq<ValueModel>) -> Result<EffectModel, FailureModel> {
    if function == "Keys"@ {
        if args.len() == 1 {
            match args[0] {
                ValueModel::Object(t) => Ok(now(ValueModel::Array(text_values(sorted_texts(keys(t)))))),
                other => Err(
                    throw_model(
                        "TypeError"@,
                        seq![PieceModel::Text("Keys expects an object, got "@), PieceModel::Debug(other)],
                    ),
                ),
            }
        } else {
            Err(throw_text("ValueError"@, "Keys expects exactly one object"@))
        }
    } else if args.len() == 2 {
        match (args[0], args[1]) {
            (ValueModel::Array(items), v) => Ok(now(ValueModel::Logic(holds(items, v)))),
            (ValueModel::Object(t), ValueModel::String(key)) => Ok(
                now(ValueModel::Logic(place(keys(t), key) is Some)),
            ),
            (other, _) => Err(
                throw_model(
                    "TypeError"@,
                    seq![
                        PieceModel::Text("Has expects (array, value) or (object, key), got "@),
                        PieceModel::Debug(other),
                    ],
                ),
            ),
        }
    } else {
        Err(throw_text("ValueError"@, "Has expects two arguments"@))
    }
}

fn invoke_lookup(function: &str, args: &Vec<Value>) -> (r: Result<Effect, Failure>)
    ensures
        effect_result(r) == arr_lookup(function@, values(args@)),
{
    if same(function, "Keys") {
        if args.len() != 1 {
            return complain("ValueError", "Keys expects exactly one object");
        }
        return match &args[0] {
            Value::Object(t) => {
                let names = table_keys(t);
                give(Value::Array(string_values(sort_texts(&names))))
            },
            other => Err(throw_pieces("TypeError", text_2(text("Keys expects an object, got "), debug(other)))),
        };
    }
    if args.len() != 2 {
        return complain("ValueError", "Has expects two arguments");
    }
    match (&args[0], &args[1]) {
        (Value::Array(items), v) => give(Value::Logic(is_held(items, v))),
        (Value::Object(t), Value::String(key)) => {
            assert(keys(entries(t@)) =~= key_texts(t@));
            give(Value::Logic(find(t, key.as_str()).is_some()))
        },
        (other, _) => Err(
            throw_pieces(
                "TypeError",
                text_2(text("Has expects (array, value) or (object, key), got "), debug(other)),
            ),
        ),
    }
}

/// What a function of `arr` makes of its arguments.
pub open spec fn arr_function(function: Seq<char>, args: Seq<ValueModel>) -> Result<EffectModel, FailureModel> {
    if function == "Len"@ || function == "Pop"@ || function == "Reverse"@ || function == "Sort"@ {
        if args.len() == 1 {
            match array_in(args[0], function) {
                Err(e) => Err(e),
                Ok(items) => arr_one(function, items),
            }
        } else {
            Err(
                throw_model(
                    "ValueError"@,
                    seq![PieceModel::Text(function), PieceModel::Text(" expects exactly one array"@)],
                ),
            )
        }
    } else if function == "Push"@ {
        if args.len() == 2 {
            match array_in(args[0], "Push"@) {
                Err(e) => Err(e),
                Ok(items) => Ok(now(ValueModel::Array(items.push(args[1])))),
            }
        } else {
            Err(throw_text("ValueError"@, "Push expects (array, value)"@))
        }
    } else if function == "Join"@ {
        join_args(args)
    } else if function == "Keys"@ || function == "Has"@ {
        arr_lookup(function, args)
    } else if function == "Get"@ {
        arr_get(args)
    } else if function == "Slice"@ {
        arr_slice(args)
    } else {
        Err(unknown("Unknown arr function: "@, function))
    }
}

pub fn invoke_arr(function: &str, args: &Vec<Value>) -> (r: Result<Effect, Failure>)
    ensures
        effect_result(r) == arr_function(function@, values(args@)),
{
    if same(function, "Len") || same(function, "Pop") || same(function, "Reverse") || same(function, "Sort") {
        if args.len() != 1 {
            return Err(throw_pieces("ValueError", text_2(text(function), text(" expects exactly one array"))));
        }
        let items = expect_array(&args[0], function)?;
        return evaluate_arr_one(function, items);
    }
    if same(function, "Push") {
        if args.len() != 2 {
            return complain("ValueError", "Push expects (array, value)");
        }
        let items = expect_array(&args[0], "Push")?;
        let mut r = copy_values(items);
        r.push(args[1].copy());
        assert(values(r@) =~= values(items@).push(args@[1]@));
        return give(Value::Array(r));
    }
    if same(function, "Join") {
        return invoke_join(args);
    }
    if same(function, "Keys") || same(function, "Has") {
        return invoke_lookup(function, args);
    }
    if same(function, "Get") {
        return invoke_get(args);
    }
    if same(function, "Slice") {
        return invoke_slice(args);
    }
    complain_unknown("Unknown arr function: ", function)
}

} // verus!
