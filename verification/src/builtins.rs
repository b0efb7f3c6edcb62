//! The standard library, as far as it needs no host: what each builtin makes
//! of its arguments.

use crate::ast::{texts, values, Value, ValueModel};
use crate::draft::{
    debug, fatal_err, fatal_model, pieces, text, text_2, text_3, throw_err, throw_model, throw_pieces, throw_text,
    Arithmetic, Failure, FailureModel, Piece, PieceModel, Plan, PlanModel, RealFunction,
};
use crate::number::{abs, clamp, find_clamp, find_magnitude, find_max, find_min, is_less, is_nan, less, max, min, nan};
use crate::operators::{as_i64, integer};
use crate::request::{Effect, EffectModel, Request, RequestModel};
use crate::show::{show_list, shown_list};
use crate::text::same;
use vstd::prelude::*;

verus! {

/// What `r` is, as a model.
pub open spec fn effect_result(r: Result<Effect, Failure>) -> Result<EffectModel, FailureModel> {
    match r {
        Ok(e) => Ok(e@),
        Err(e) => Err(e@),
    }
}

/// A value that is there already.
pub open spec fn now(v: ValueModel) -> EffectModel {
    EffectModel::Plan(PlanModel::Ready(v))
}

pub fn give(v: Value) -> (r: Result<Effect, Failure>)
    ensures
        effect_result(r) == Ok::<_, FailureModel>(now(v@)),
{
    Ok(Effect::Plan(Plan::Ready(v)))
}

pub fn complain(error_type: &str, message: &str) -> (r: Result<Effect, Failure>)
    ensures
        effect_result(r) == Err::<EffectModel, _>(throw_text(error_type@, message@)),
{
    Err(throw_err(error_type, message))
}

/// `what`, a remark, and the value that was not fit.
pub open spec fn misfit(what: Seq<char>, remark: Seq<char>, v: ValueModel) -> FailureModel {
    throw_model("TypeError"@, seq![PieceModel::Text(what), PieceModel::Text(remark), PieceModel::Debug(v)])
}

pub fn complain_misfit(what: &str, remark: &str, v: &Value) -> (r: Failure)
    ensures
        r@ == misfit(what@, remark@, v@),
{
    throw_pieces("TypeError", text_3(text(what), text(remark), debug(v)))
}

pub open spec fn string_in(v: ValueModel, what: Seq<char>) -> Result<Seq<char>, FailureModel> {
    match v {
        ValueModel::String(s) => Ok(s),
        _ => Err(misfit(what, " expects a string, got "@, v)),
    }
}

pub fn expect_string(v: &Value, what: &str) -> (r: Result<String, Failure>)
    ensures
        match r {
            Ok(s) => string_in(v@, what@) == Ok::<Seq<char>, FailureModel>(s@),
            Err(e) => string_in(v@, what@) == Err::<Seq<char>, FailureModel>(e@),
        },
{
    match v {
        Value::String(s) => Ok(s.clone()),
        _ => Err(complain_misfit(what, " expects a string, got ", v)),
    }
}

pub open spec fn number_in(v: ValueModel, what: Seq<char>) -> Result<u64, FailureModel> {
    match v {
        ValueModel::Number(n) => Ok(n),
        _ => Err(misfit(what, " expects a number, got "@, v)),
    }
}

pub fn expect_number(v: &Value, what: &str) -> (r: Result<u64, Failure>)
    ensures
        match r {
            Ok(n) => number_in(v@, what@) == Ok::<u64, FailureModel>(n),
            Err(e) => number_in(v@, what@) == Err::<u64, FailureModel>(e@),
        },
{
    match v {
        Value::Number(n) => Ok(*n),
        _ => Err(complain_misfit(what, " expects a number, got ", v)),
    }
}

pub open spec fn array_in(v: ValueModel, what: Seq<char>) -> Result<Seq<ValueModel>, FailureModel> {
    match v {
        ValueModel::Array(items) => Ok(items),
        _ => Err(misfit(what, " expects an array, got "@, v)),
    }
}

pub fn expect_array<'a>(v: &'a Value, what: &str) -> (r: Result<&'a Vec<Value>, Failure>)
    ensures
        match r {
            Ok(items) => array_in(v@, what@) == Ok::<Seq<ValueModel>, FailureModel>(values(items@)),
            Err(e) => array_in(v@, what@) == Err::<Seq<ValueModel>, FailureModel>(e@),
        },
{
    match v {
        Value::Array(items) => Ok(items),
        _ => Err(complain_misfit(what, " expects an array, got ", v)),
    }
}

pub open spec fn int_in(v: ValueModel, what: Seq<char>) -> Result<int, FailureModel> {
    match v {
        ValueModel::Number(n) => match integer(n) {
            Ok(i) => Ok(i),
            Err(_) => Err(
                throw_model(
                    "ValueError"@,
                    seq![PieceModel::Text(what), PieceModel::Text(" expects an integer, got "@), PieceModel::Number(n)],
                ),
            ),
        },
        _ => Err(misfit(what, " expects a number, got "@, v)),
    }
}

pub fn expect_int(v: &Value, what: &str) -> (r: Result<i64, Failure>)
    ensures
        match r {
            Ok(i) => int_in(v@, what@) == Ok::<int, FailureModel>(i as int),
            Err(e) => int_in(v@, what@) == Err::<int, FailureModel>(e@),
        },
{
    match v {
        Value::Number(n) => match as_i64(*n) {
            Ok(i) => Ok(i),
            Err(_) => Err(
                throw_pieces("ValueError", text_3(text(what), text(" expects an integer, got "), Piece::Number(*n))),
            ),
        },
        _ => Err(complain_misfit(what, " expects a number, got ", v)),
    }
}

/// The complaint about a name that a namespace does not have.
pub open spec fn unknown(namespace: Seq<char>, function: Seq<char>) -> FailureModel {
    throw_model("NameError"@, seq![PieceModel::Text(namespace), PieceModel::Text(function)])
}

pub fn complain_unknown(namespace: &str, function: &str) -> (r: Result<Effect, Failure>)
    ensures
        effect_result(r) == Err::<EffectModel, _>(unknown(namespace@, function@)),
{
    Err(throw_pieces("NameError", text_2(text(namespace), text(function))))
}

/// The complaint that starts with the name of the function.
pub open spec fn arity(function: Seq<char>, remark: Seq<char>) -> FailureModel {
    throw_model("ValueError"@, seq![PieceModel::Text(function), PieceModel::Text(remark)])
}

pub fn complain_arity(function: &str, remark: &str) -> (r: Result<Effect, Failure>)
    ensures
        effect_result(r) == Err::<EffectModel, _>(arity(function@, remark@)),
{
    Err(throw_pieces("ValueError", text_2(text(function), text(remark))))
}

/// A function of one number.
pub open spec fn math_unary(function: Seq<char>, n: u64) -> Result<EffectModel, FailureModel> {
    if function == "Sin"@ {
        Ok(EffectModel::Plan(PlanModel::Function { function: RealFunction::Sin, of: n }))
    } else if function == "Cos"@ {
        Ok(EffectModel::Plan(PlanModel::Function { function: RealFunction::Cos, of: n }))
    } else if function == "Tan"@ {
        Ok(EffectModel::Plan(PlanModel::Function { function: RealFunction::Tan, of: n }))
    } else if function == "Sqrt"@ {
        if less(n, 0) {
            Err(throw_text("ValueError"@, "Sqrt of negative number"@))
        } else {
            Ok(EffectModel::Plan(PlanModel::Function { function: RealFunction::Sqrt, of: n }))
        }
    } else if function == "Floor"@ {
        Ok(EffectModel::Plan(PlanModel::Function { function: RealFunction::Floor, of: n }))
    } else if function == "Ceil"@ {
        Ok(EffectModel::Plan(PlanModel::Function { function: RealFunction::Ceil, of: n }))
    } else {
        Ok(now(ValueModel::Number(abs(n))))
    }
}

fn evaluate_math_unary(function: &str, n: u64) -> (r: Result<Effect, Failure>)
    ensures
        effect_result(r) == math_unary(function@, n),
{
    let f = if same(function, "Sin") {
        RealFunction::Sin
    } else if same(function, "Cos") {
        RealFunction::Cos
    } else if same(function, "Tan") {
        RealFunction::Tan
    } else if same(function, "Sqrt") {
        if is_less(n, 0) {
            return complain("ValueError", "Sqrt of negative number");
        }
        RealFunction::Sqrt
    } else if same(function, "Floor") {
        RealFunction::Floor
    } else if same(function, "Ceil") {
        RealFunction::Ceil
    } else {
        return give(Value::Number(find_magnitude(n)));
    };
    Ok(Effect::Plan(Plan::Function { function: f, of: n }))
}

/// The smallest or largest number of `args` from `i` on and `best`.
pub open spec fn extreme(args: Seq<ValueModel>, function: Seq<char>, i: int, best: u64) -> Result<u64, FailureModel>
    decreases args.len() - i,
{
    if i < 0 || i >= args.len() {
        Ok(best)
    } else {
        match number_in(args[i], function) {
            Err(e) => Err(e),
            Ok(n) => extreme(
                args,
                function,
                i + 1,
                if function == "Min"@ {
                    min(best, n)
                } else {
                    max(best, n)
                },
            ),
        }
    }
}

/// What a function of `math` makes of its arguments.
pub open spec fn math(function: Seq<char>, args: Seq<ValueModel>) -> Result<EffectModel, FailureModel> {
    if function == "Sin"@ || function == "Cos"@ || function == "Tan"@ || function == "Sqrt"@ || function == "Floor"@
        || function == "Ceil"@ || function == "Abs"@ {
        if args.len() == 1 {
            match number_in(args[0], function) {
                Err(e) => Err(e),
                Ok(n) => math_unary(function, n),
            }
        } else {
            Err(arity(function, " expects exactly one argument"@))
        }
    } else if function == "Pow"@ {
        if args.len() == 2 {
            match number_in(args[0], "Pow"@) {
                Err(e) => Err(e),
                Ok(a) => match number_in(args[1], "Pow"@) {
                    Err(e) => Err(e),
                    Ok(b) => Ok(
                        EffectModel::Plan(PlanModel::Arithmetic { op: Arithmetic::Power, left: a, right: b }),
                    ),
                },
            }
        } else {
            Err(throw_text("ValueError"@, "Pow expects exactly two arguments"@))
        }
    } else if function == "Min"@ || function == "Max"@ {
        if args.len() == 0 {
            Err(arity(function, " expects at least one argument"@))
        } else {
            match number_in(args[0], function) {
                Err(e) => Err(e),
                Ok(n) => match extreme(args, function, 1, n) {
                    Err(e) => Err(e),
                    Ok(best) => Ok(now(ValueModel::Number(best))),
                },
            }
        }
    } else if function == "Clamp"@ {
        if args.len() == 3 {
            match number_in(args[0], "Clamp"@) {
                Err(e) => Err(e),
                Ok(x) => match number_in(args[1], "Clamp"@) {
                    Err(e) => Err(e),
                    Ok(lo) => match number_in(args[2], "Clamp"@) {
                        Err(e) => Err(e),
                        Ok(hi) => if nan(lo) && nan(hi) {
                            Err(fatal_model("Clamp bounds are not numbers"@))
                        } else {
                            Ok(now(ValueModel::Number(clamp(x, min(lo, hi), max(lo, hi)))))
                        },
                    },
                },
            }
        } else {
            Err(throw_text("ValueError"@, "Clamp expects (value, low, high)"@))
        }
    } else if function == "Random"@ {
        if args.len() == 0 {
            Ok(EffectModel::Ask(RequestModel::Random))
        } else {
            Err(throw_text("ValueError"@, "Random expects no arguments"@))
        }
    } else {
        Err(unknown("Unknown math function: "@, function))
    }
}

pub fn invoke_math(function: &str, args: &Vec<Value>) -> (r: Result<Effect, Failure>)
    ensures
        effect_result(r) == math(function@, values(args@)),
{
    if same(function, "Sin") || same(function, "Cos") || same(function, "Tan") || same(function, "Sqrt") || same(
        function,
        "Floor",
    ) || same(function, "Ceil") || same(function, "Abs") {
        if args.len() != 1 {
            return complain_arity(function, " expects exactly one argument");
        }
        let n: u64 = expect_number(&args[0], function)?;
        return evaluate_math_unary(function, n);
    }
    if same(function, "Pow") {
        if args.len() != 2 {
            return complain("ValueError", "Pow expects exactly two arguments");
        }
        let a: u64 = expect_number(&args[0], "Pow")?;
        let b: u64 = expect_number(&args[1], "Pow")?;
        return Ok(Effect::Plan(Plan::Arithmetic { op: Arithmetic::Power, left: a, right: b }));
    }
    if same(function, "Min") || same(function, "Max") {
        if args.len() == 0 {
            return complain_arity(function, " expects at least one argument");
        }
        let ghost model = values(args@);
        let first: u64 = expect_number(&args[0], function)?;
        let smallest = same(function, "Min");
        let mut best: u64 = first;
        let mut i: usize = 1;
        while i < args.len()
            invariant
                1 <= i <= args@.len(),
                model == values(args@),
                smallest == (function@ == "Min"@),
                extreme(model, function@, i as int, best) == extreme(model, function@, 1, first),
                extreme(model, function@, 1, first) matches Err(e) ==> math(function@, model) == Err::<
                    EffectModel,
                    FailureModel,
                >(e),
            decreases args@.len() - i,
        {
            let n: u64 = expect_number(&args[i], function)?;
            best = if smallest {
                find_min(best, n)
            } else {
                find_max(best, n)
            };
            i = i + 1;
        }
        return give(Value::Number(best));
    }
    if same(function, "Clamp") {
        if args.len() != 3 {
            return complain("ValueError", "Clamp expects (value, low, high)");
        }
        let x: u64 = expect_number(&args[0], "Clamp")?;
        let lo: u64 = expect_number(&args[1], "Clamp")?;
        let hi: u64 = expect_number(&args[2], "Clamp")?;
        if is_nan(lo) && is_nan(hi) {
            return Err(fatal_err("Clamp bounds are not numbers"));
        }
        return give(Value::Number(find_clamp(x, find_min(lo, hi), find_max(lo, hi))));
    }
    if same(function, "Random") {
        if args.len() != 0 {
            return complain("ValueError", "Random expects no arguments");
        }
        return Ok(Effect::Ask(Request::Random));
    }
    complain_unknown("Unknown math function: ", function)
}

/// Texts as string values.
pub open spec fn text_values(parts: Seq<Seq<char>>) -> Seq<ValueModel> {
    Seq::new(parts.len(), |i: int| ValueModel::String(parts[i]))
}

/// Texts as string values.
pub fn string_values(parts: Vec<String>) -> (r: Vec<Value>)
    ensures
        values(r@) == text_values(texts(parts@)),
{
    let mut r: Vec<Value> = Vec::new();
    let mut i: usize = 0;
    while i < parts.len()
        invariant
            i <= parts@.len(),
            r@.len() == i,
            forall|k: int| 0 <= k < i ==> (#[trigger] r@[k])@ == ValueModel::String(parts@[k]@),
        decreases parts@.len() - i,
    {
        r.push(Value::String(parts[i].clone()));
        i = i + 1;
    }
    assert(values(r@) =~= text_values(texts(parts@)));
    r
}

/// The display of the items of an array with `sep` between them.
pub open spec fn joined_display(items: Seq<ValueModel>, sep: Seq<char>) -> EffectModel {
    EffectModel::Plan(PlanModel::Text(shown_list(items, sep, items.len() as int)))
}

pub fn join_display(items: &Vec<Value>, sep: &str) -> (r: Effect)
    ensures
        r@ == joined_display(values(items@), sep@),
{
    let mut out: Vec<Piece> = Vec::new();
    assert(pieces(out@) =~= seq![]);
    show_list(items, sep, &mut out);
    assert(seq![] + shown_list(values(items@), sep@, items@.len() as int) =~= shown_list(
        values(items@),
        sep@,
        items@.len() as int,
    ));
    Effect::Plan(Plan::Text(out))
}

/// `Join`, which `str` and `arr` share.
pub open spec fn join_args(args: Seq<ValueModel>) -> Result<EffectModel, FailureModel> {
    if args.len() == 2 {
        match array_in(args[0], "Join"@) {
            Err(e) => Err(e),
            Ok(items) => match string_in(args[1], "Join"@) {
                Err(e) => Err(e),
                Ok(sep) => Ok(joined_display(items, sep)),
            },
        }
    } else {
        Err(throw_text("ValueError"@, "Join expects (array, separator)"@))
    }
}

pub fn invoke_join(args: &Vec<Value>) -> (r: Result<Effect, Failure>)
    ensures
        effect_result(r) == join_args(values(args@)),
{
    if args.len() != 2 {
        return complain("ValueError", "Join expects (array, separator)");
    }
    let items = expect_array(&args[0], "Join")?;
    let sep = expect_string(&args[1], "Join")?;
    Ok(join_display(items, sep.as_str()))
}

/// A count, as a number.
pub open spec fn count(n: nat) -> EffectModel {
    EffectModel::Plan(PlanModel::Ratio { part: n as u64, whole: 1 })
}

pub fn give_count(n: usize) -> (r: Result<Effect, Failure>)
    ensures
        effect_result(r) == Ok::<_, FailureModel>(count(n as nat)),
{
    Ok(Effect::Plan(Plan::Ratio { part: n as u64, whole: 1 }))
}

} // verus!
