//! What the functions of `math` do.

use crate::ast::ValueModel;
use crate::builtins::{extreme, math};
use crate::comparing::{below, numbers_are_ordered_by_value};
use crate::draft::{Arithmetic, FailureModel, PlanModel, RealFunction};
use crate::number::{finite, magnitude, nan, negative, order_is_by_value, units, SIGN};
use crate::outcomes::{gives, throws};
use crate::request::{EffectModel, RequestModel};
use vstd::prelude::*;

verus! {

/// How the names of the functions of `math` are spelled, as far as it tells them apart.
proof fn lemma_names()
    ensures
        "Sin"@.len() == 3 && "Sin"@[0] == 'S',
        "Cos"@.len() == 3 && "Cos"@[0] == 'C',
        "Tan"@.len() == 3 && "Tan"@[0] == 'T',
        "Sqrt"@.len() == 4 && "Sqrt"@[0] == 'S',
        "Floor"@.len() == 5 && "Floor"@[0] == 'F',
        "Ceil"@.len() == 4 && "Ceil"@[0] == 'C',
        "Abs"@.len() == 3 && "Abs"@[0] == 'A',
        "Pow"@.len() == 3 && "Pow"@[0] == 'P',
        "Min"@.len() == 3 && "Min"@[0] == 'M' && "Min"@[1] == 'i',
        "Max"@.len() == 3 && "Max"@[0] == 'M' && "Max"@[1] == 'a',
        "Clamp"@.len() == 5 && "Clamp"@[0] == 'C',
        "Random"@.len() == 6,
{
    reveal_strlit("Sin");
    reveal_strlit("Cos");
    reveal_strlit("Tan");
    reveal_strlit("Sqrt");
    reveal_strlit("Floor");
    reveal_strlit("Ceil");
    reveal_strlit("Abs");
    reveal_strlit("Pow");
    reveal_strlit("Min");
    reveal_strlit("Max");
    reveal_strlit("Clamp");
    reveal_strlit("Random");
}

pub open spec fn figure(n: u64) -> ValueModel {
    ValueModel::Number(n)
}

/// Whether it asks the host for this function of a number.
pub open spec fn asks_for(r: Result<EffectModel, FailureModel>, function: RealFunction, of: u64) -> bool {
    r == Ok::<_, FailureModel>(EffectModel::Plan(PlanModel::Function { function, of }))
}

/// The functions of one number that need rounding are worked out by the host, each under
/// its own name.
pub proof fn real_functions_are_asked_for(n: u64)
    ensures
        asks_for(math("Sin"@, seq![figure(n)]), RealFunction::Sin, n),
        asks_for(math("Cos"@, seq![figure(n)]), RealFunction::Cos, n),
        asks_for(math("Tan"@, seq![figure(n)]), RealFunction::Tan, n),
        asks_for(math("Floor"@, seq![figure(n)]), RealFunction::Floor, n),
        asks_for(math("Ceil"@, seq![figure(n)]), RealFunction::Ceil, n),
{
    lemma_names();
}

/// A number below zero has no square root; for any other one the host is asked.
pub proof fn square_root_needs_no_negative(n: u64)
    ensures
        below(n, 0) ==> throws(math("Sqrt"@, seq![figure(n)]), "ValueError"@),
        !below(n, 0) ==> asks_for(math("Sqrt"@, seq![figure(n)]), RealFunction::Sqrt, n),
{
    lemma_names();
    numbers_are_ordered_by_value(n, 0);
}

/// `Abs` gives the number without its sign.
pub proof fn abs_is_the_distance_from_zero(n: u64)
    requires
        finite(n),
    ensures
        exists|r: u64|
            #![trigger figure(r)]
            gives(math("Abs"@, seq![figure(n)]), figure(r)) && finite(r) && units(r) == (if units(n) < 0 {
                -units(n)
            } else {
                units(n)
            }),
{
    lemma_names();
    let r = magnitude(n) as u64;
    order_is_by_value(n, 0);
    order_is_by_value(r, 0);
    order_is_by_value(0, SIGN);
    assert(units(0) == -units(SIGN));
    assert(magnitude(r) == r && !negative(r));
    assert(units(n) == (if negative(n) {
        -units(r)
    } else {
        units(r)
    }));
    assert(gives(math("Abs"@, seq![figure(n)]), figure(r)));
}

/// `Pow` has the host raise the first number to the power of the second.
pub proof fn pow_takes_base_then_exponent(a: u64, b: u64)
    ensures
        math("Pow"@, seq![figure(a), figure(b)]) == Ok::<_, FailureModel>(
            EffectModel::Plan(PlanModel::Arithmetic { op: Arithmetic::Power, left: a, right: b }),
        ),
{
    lemma_names();
}

/// Whether all are numbers that are numbers.
pub open spec fn proper(args: Seq<ValueModel>) -> bool {
    forall|i: int| 0 <= i < args.len() ==> (#[trigger] args[i] matches ValueModel::Number(n) && !nan(n))
}

proof fn lemma_least(args: Seq<ValueModel>, i: int, best: u64)
    requires
        proper(args),
        1 <= i <= args.len(),
        !nan(best),
        exists|k: int| 0 <= k < i && #[trigger] args[k] == figure(best),
        forall|k: int| 0 <= k < i ==> !below((#[trigger] args[k])->Number_0, best),
    ensures
        extreme(args, "Min"@, i, best) matches Ok(r) && (exists|k: int|
            0 <= k < args.len() && #[trigger] args[k] == figure(r)) && forall|k: int|
            0 <= k < args.len() ==> !below((#[trigger] args[k])->Number_0, r),
    decreases args.len() - i,
{
    lemma_names();
    if i < args.len() {
        let n = args[i]->Number_0;
        assert(args[i] == figure(n));
        let next = crate::number::min(best, n);
        numbers_are_ordered_by_value(n, best);
        numbers_are_ordered_by_value(best, n);
        assert forall|k: int| 0 <= k < i + 1 implies !below((#[trigger] args[k])->Number_0, next) by {
            let m = args[k]->Number_0;
            assert(!nan(m));
            numbers_are_ordered_by_value(m, next);
            numbers_are_ordered_by_value(m, best);
        }
        let k = choose|k: int| 0 <= k < i && #[trigger] args[k] == figure(best);
        assert(args[k] == figure(next) || args[i] == figure(next));
        lemma_least(args, i + 1, next);
    }
}

proof fn lemma_greatest(args: Seq<ValueModel>, i: int, best: u64)
    requires
        proper(args),
        1 <= i <= args.len(),
        !nan(best),
        exists|k: int| 0 <= k < i && #[trigger] args[k] == figure(best),
        forall|k: int| 0 <= k < i ==> !below(best, (#[trigger] args[k])->Number_0),
    ensures
        extreme(args, "Max"@, i, best) matches Ok(r) && (exists|k: int|
            0 <= k < args.len() && #[trigger] args[k] == figure(r)) && forall|k: int|
            0 <= k < args.len() ==> !below(r, (#[trigger] args[k])->Number_0),
    decreases args.len() - i,
{
    lemma_names();
    if i < args.len() {
        let n = args[i]->Number_0;
        assert(args[i] == figure(n));
        let next = crate::number::max(best, n);
        numbers_are_ordered_by_value(n, best);
        numbers_are_ordered_by_value(best, n);
        assert forall|k: int| 0 <= k < i + 1 implies !below(next, (#[trigger] args[k])->Number_0) by {
            let m = args[k]->Number_0;
            assert(!nan(m));
            numbers_are_ordered_by_value(next, m);
            numbers_are_ordered_by_value(best, m);
        }
        let k = choose|k: int| 0 <= k < i && #[trigger] args[k] == figure(best);
        assert(args[k] == figure(next) || args[i] == figure(next));
        lemma_greatest(args, i + 1, next);
    }
}

/// Whether `r` is one of the arguments and none of them lies below it.
pub open spec fn is_least(args: Seq<ValueModel>, r: u64) -> bool {
    (exists|k: int| 0 <= k < args.len() && #[trigger] args[k] == figure(r)) && forall|k: int|
        0 <= k < args.len() ==> !below((#[trigger] args[k])->Number_0, r)
}

/// Whether `r` is one of the arguments and lies below none of them.
pub open spec fn is_greatest(args: Seq<ValueModel>, r: u64) -> bool {
    (exists|k: int| 0 <= k < args.len() && #[trigger] args[k] == figure(r)) && forall|k: int|
        0 <= k < args.len() ==> !below(r, (#[trigger] args[k])->Number_0)
}

/// `Min` gives the least of its arguments, `Max` the greatest.
pub proof fn min_and_max_are_among_the_arguments(args: Seq<ValueModel>)
    requires
        proper(args),
        args.len() > 0,
    ensures
        exists|r: u64| gives(math("Min"@, args), figure(r)) && #[trigger] is_least(args, r),
        exists|r: u64| gives(math("Max"@, args), figure(r)) && #[trigger] is_greatest(args, r),
{
    lemma_names();
    let first = args[0]->Number_0;
    assert(args[0] == figure(first));
    lemma_least(args, 1, first);
    lemma_greatest(args, 1, first);
    assert(is_least(args, extreme(args, "Min"@, 1, first)->Ok_0));
    assert(is_greatest(args, extreme(args, "Max"@, 1, first)->Ok_0));
}

/// A number that is none gives way to the others.
pub proof fn no_number_gives_way(a: u64, b: u64)
    requires
        nan(a),
        !nan(b),
    ensures
        gives(math("Min"@, seq![figure(a), figure(b)]), figure(b)),
        gives(math("Min"@, seq![figure(b), figure(a)]), figure(b)),
        gives(math("Max"@, seq![figure(a), figure(b)]), figure(b)),
        gives(math("Max"@, seq![figure(b), figure(a)]), figure(b)),
{
    lemma_names();
    reveal_with_fuel(extreme, 3);
}

/// `Clamp` leaves a number between its bounds alone, and else gives the bound that lies
/// nearer. The bounds may come in either order.
pub proof fn clamp_keeps_within_bounds(x: u64, lo: u64, hi: u64)
    requires
        !nan(x),
        !nan(lo),
        !nan(hi),
        !below(hi, lo),
    ensures
        below(x, lo) ==> gives(math("Clamp"@, seq![figure(x), figure(lo), figure(hi)]), figure(lo)),
        below(hi, x) && below(lo, hi) ==> gives(math("Clamp"@, seq![figure(x), figure(lo), figure(hi)]), figure(hi)),
        below(hi, x) && !below(lo, hi) ==> gives(math("Clamp"@, seq![figure(x), figure(lo), figure(hi)]), figure(lo)),
        !below(x, lo) && !below(hi, x) ==> gives(
            math("Clamp"@, seq![figure(x), figure(lo), figure(hi)]),
            figure(x),
        ),
        below(lo, hi) ==> math("Clamp"@, seq![figure(x), figure(hi), figure(lo)]) == math(
            "Clamp"@,
            seq![figure(x), figure(lo), figure(hi)],
        ),
{
    lemma_names();
    numbers_are_ordered_by_value(x, lo);
    numbers_are_ordered_by_value(hi, x);
    numbers_are_ordered_by_value(hi, lo);
    numbers_are_ordered_by_value(lo, hi);
    numbers_are_ordered_by_value(x, hi);
}

/// `Random` asks the host for a number.
pub proof fn random_is_asked_for()
    ensures
        math("Random"@, seq![]) == Ok::<_, FailureModel>(EffectModel::Ask(RequestModel::Random)),
{
    lemma_names();
}

/// The functions of `math` want numbers, and so many as they have use for; every other name
/// is unknown.
pub proof fn math_refuses_the_rest(function: Seq<char>, args: Seq<ValueModel>, v: ValueModel, n: u64)
    requires
        !(v is Number),
    ensures
        throws(math("Sin"@, seq![v]), "TypeError"@),
        throws(math("Cos"@, seq![v]), "TypeError"@),
        throws(math("Tan"@, seq![v]), "TypeError"@),
        throws(math("Sqrt"@, seq![v]), "TypeError"@),
        throws(math("Floor"@, seq![v]), "TypeError"@),
        throws(math("Ceil"@, seq![v]), "TypeError"@),
        throws(math("Abs"@, seq![v]), "TypeError"@),
        throws(math("Pow"@, seq![figure(n), v]), "TypeError"@),
        throws(math("Pow"@, seq![v, figure(n)]), "TypeError"@),
        throws(math("Min"@, seq![v]), "TypeError"@),
        throws(math("Max"@, seq![v]), "TypeError"@),
        throws(math("Clamp"@, seq![v, figure(n), figure(n)]), "TypeError"@),
        args.len() != 1 ==> throws(math("Sin"@, args), "ValueError"@) && throws(math("Abs"@, args), "ValueError"@),
        args.len() != 2 ==> throws(math("Pow"@, args), "ValueError"@),
        args.len() == 0 ==> throws(math("Min"@, args), "ValueError"@) && throws(math("Max"@, args), "ValueError"@),
        args.len() != 3 ==> throws(math("Clamp"@, args), "ValueError"@),
        args.len() != 0 ==> throws(math("Random"@, args), "ValueError"@),
        function != "Sin"@ && function != "Cos"@ && function != "Tan"@ && function != "Sqrt"@ && function != "Floor"@
            && function != "Ceil"@ && function != "Abs"@ && function != "Pow"@ && function != "Min"@ && function != "Max"@
            && function != "Clamp"@ && function != "Random"@ ==> throws(math(function, args), "NameError"@),
{
    lemma_names();
}

} // verus!
