//! What holds of the operators.

use crate::ast::{BinaryOperator, UnaryOperator, ValueModel};
use crate::draft::{throw_text, FailureModel, PlanModel};
use crate::number::nan;
use crate::operators::{
    on_numbers, scalar_from, binary_result, bits, each_bits, each_number, integer, inverted, logic, loosely_equal,
    lower, pairs_from, same_ignoring_case, spread, spreads, unary_result,
};
use crate::show::{same_value, strictly_equal, truthy};
use vstd::prelude::*;

verus! {

/// `==` on strings ignores case and is an equivalence.
pub proof fn loose_text_equality_is_an_equivalence(a: Seq<char>, b: Seq<char>, c: Seq<char>)
    ensures
        same_ignoring_case(a, a),
        same_ignoring_case(a, b) ==> same_ignoring_case(b, a),
        same_ignoring_case(a, b) && same_ignoring_case(b, c) ==> same_ignoring_case(a, c),
{
    if same_ignoring_case(a, b) {
        assert forall|i: int| 0 <= i < b.len() implies lower(#[trigger] b[i]) == lower(a[i]) by {
            assert(lower(a[i]) == lower(b[i]));
        }
        if same_ignoring_case(b, c) {
            assert forall|i: int| 0 <= i < a.len() implies lower(#[trigger] a[i]) == lower(c[i]) by {
                assert(lower(b[i]) == lower(c[i]));
            }
        }
    }
}

/// What is `===` is `==` too.
pub proof fn strict_equality_implies_loose(l: ValueModel, r: ValueModel)
    requires
        same_value(l, r),
    ensures
        loosely_equal(l, r),
{
}

/// `!=` and `!==` say the opposite of `==` and `===`.
pub proof fn inequality_is_the_opposite(l: ValueModel, r: ValueModel)
    ensures
        binary_result(l, r, BinaryOperator::NotEqual) == Ok::<_, FailureModel>(logic(!loosely_equal(l, r))),
        binary_result(l, r, BinaryOperator::Equal) == Ok::<_, FailureModel>(logic(loosely_equal(l, r))),
        binary_result(l, r, BinaryOperator::StrictNotEqual) == Ok::<_, FailureModel>(logic(!same_value(l, r))),
        binary_result(l, r, BinaryOperator::StrictEqual) == Ok::<_, FailureModel>(logic(same_value(l, r))),
{
}

/// A value that stands for itself.
pub open spec fn literal(v: ValueModel) -> bool {
    v is Null || v is Number || v is String || v is Logic
}

/// Strict equality of plain values is symmetric, and every plain value equals
/// itself but for NaN.
pub proof fn plain_equality(a: ValueModel, b: ValueModel)
    requires
        literal(a),
        literal(b),
    ensures
        strictly_equal(a, b) == strictly_equal(b, a),
        strictly_equal(a, a) <==> !(a is Number && nan(a->Number_0)),
{
}

/// `not` says the opposite; twice, it says whether the value is truthy.
pub proof fn not_says_the_opposite(v: ValueModel)
    ensures
        unary_result(v, UnaryOperator::Not) == Ok::<_, FailureModel>(logic(!truthy(v))),
        unary_result(ValueModel::Logic(!truthy(v)), UnaryOperator::Not) == Ok::<_, FailureModel>(logic(truthy(v))),
{
}

/// `&`, `|` and `^` do not mind the order of their operands.
pub proof fn bitwise_operators_commute(x: i64, y: i64)
    ensures
        bits(BinaryOperator::BitAnd, x, y) == bits(BinaryOperator::BitAnd, y, x),
        bits(BinaryOperator::BitOr, x, y) == bits(BinaryOperator::BitOr, y, x),
        bits(BinaryOperator::BitXor, x, y) == bits(BinaryOperator::BitXor, y, x),
{
    assert(x & y == y & x) by (bit_vector);
    assert(x | y == y | x) by (bit_vector);
    assert(x ^ y == y ^ x) by (bit_vector);
}

/// `~` twice gives the integer back.
pub proof fn inverting_twice_gives_back(m: i64)
    ensures
        (-1 - ((-1 - m) as i64)) as i64 == m,
        (-1 - m) as i64 == !m,
{
    assert(!m == (-1 - m) as i64) by (bit_vector);
}

/// A range is no value of its own.
pub proof fn range_is_refused(l: ValueModel, r: ValueModel)
    ensures
        binary_result(l, r, BinaryOperator::Range) == Err::<PlanModel, _>(
            throw_text("TypeError"@, "ranges (..) can only be iterated with for-in"@),
        ),
{
}

/// The longer of two lengths.
pub open spec fn longer(a: nat, b: nat) -> nat {
    if a >= b {
        a
    } else {
        b
    }
}

proof fn lemma_pairs(op: BinaryOperator, x: Seq<ValueModel>, y: Seq<ValueModel>, i: int, done: Seq<PlanModel>)
    requires
        x.len() > 0,
        y.len() > 0,
        0 <= i <= longer(x.len(), y.len()),
        done.len() == i,
        forall|k: int|
            0 <= k < i ==> Ok::<_, FailureModel>(#[trigger] done[k]) == spread(
                op,
                x[k % (x.len() as int)],
                y[k % (y.len() as int)],
            ),
    ensures
        pairs_from(op, x, y, i, done) matches Ok(p) ==> {
            &&& p is List
            &&& p->List_0.len() == longer(x.len(), y.len())
            &&& forall|k: int|
                0 <= k < p->List_0.len() ==> Ok::<_, FailureModel>(#[trigger] p->List_0[k]) == spread(
                    op,
                    x[k % (x.len() as int)],
                    y[k % (y.len() as int)],
                )
        },
    decreases longer(x.len(), y.len()) - i,
{
    if i < longer(x.len(), y.len()) {
        match spread(op, x[i % (x.len() as int)], y[i % (y.len() as int)]) {
            Err(e) => {},
            Ok(p) => {
                lemma_pairs(op, x, y, i + 1, done.push(p));
            },
        }
    }
}

/// An operator that spreads takes two arrays item by item, as many as the longer
/// one has; the shorter one starts over.
pub proof fn arrays_pair_up(op: BinaryOperator, x: Seq<ValueModel>, y: Seq<ValueModel>)
    requires
        spreads(op),
        x.len() > 0,
        y.len() > 0,
    ensures
        binary_result(ValueModel::Array(x), ValueModel::Array(y), op) matches Ok(p) ==> {
            &&& p is List
            &&& p->List_0.len() == longer(x.len(), y.len())
            &&& forall|k: int|
                0 <= k < p->List_0.len() ==> Ok::<_, FailureModel>(#[trigger] p->List_0[k]) == spread(
                    op,
                    x[k % (x.len() as int)],
                    y[k % (y.len() as int)],
                )
        },
{
    lemma_pairs(op, x, y, 0, seq![]);
}

proof fn lemma_each(op: BinaryOperator, x: Seq<ValueModel>, s: u64, k: i64, i: int, done: Seq<PlanModel>)
    requires
        0 <= i <= x.len(),
        done.len() == i,
    ensures
        each_number(op, x, s, i, done) matches Ok(p) ==> p is List && p->List_0.len() == x.len(),
        each_bits(op, x, k, i, done) matches Ok(p) ==> p is List && p->List_0.len() == x.len(),
        inverted(x, i, done) matches Ok(p) ==> p is List && p->List_0.len() == x.len(),
    decreases x.len() - i,
{
    if i < x.len() {
        match x[i] {
            ValueModel::Number(n) => {
                let a = PlanModel::Arithmetic { op: crate::operators::arithmetic(op), left: n, right: s };
                lemma_each(op, x, s, k, i + 1, done.push(a));
                match integer(n) {
                    Ok(m) => {
                        lemma_each(op, x, s, k, i + 1, done.push(PlanModel::Integer(bits(op, m as i64, k))));
                        lemma_each(op, x, s, k, i + 1, done.push(PlanModel::Integer((-1 - m) as i64)));
                    },
                    Err(e) => {},
                }
            },
            _ => {},
        }
    }
}

proof fn lemma_scalar_from(op: BinaryOperator, s: u64, y: Seq<ValueModel>, i: int, done: Seq<PlanModel>)
    requires
        0 <= i <= y.len(),
        done.len() == i,
        forall|k: int|
            0 <= k < i ==> Ok::<_, FailureModel>(#[trigger] done[k]) == spread(op, ValueModel::Number(s), y[k]),
    ensures
        scalar_from(op, s, y, i, done) matches Ok(p) ==> {
            &&& p is List
            &&& p->List_0.len() == y.len()
            &&& forall|k: int|
                0 <= k < y.len() ==> Ok::<_, FailureModel>(#[trigger] p->List_0[k]) == spread(
                    op,
                    ValueModel::Number(s),
                    y[k],
                )
        },
    decreases y.len() - i,
{
    if i < y.len() {
        match y[i] {
            ValueModel::Number(n) => {
                if let Ok(p) = on_numbers(op, s, n) {
                    lemma_scalar_from(op, s, y, i + 1, done.push(p));
                }
            },
            _ => {},
        }
    }
}

/// A number and an array: the operator takes the number on its left and each item
/// on its right.
pub proof fn scalar_stays_on_the_left(op: BinaryOperator, s: u64, y: Seq<ValueModel>)
    requires
        spreads(op),
    ensures
        binary_result(ValueModel::Number(s), ValueModel::Array(y), op) matches Ok(p) ==> {
            &&& p is List
            &&& p->List_0.len() == y.len()
            &&& forall|k: int|
                0 <= k < y.len() ==> Ok::<_, FailureModel>(#[trigger] p->List_0[k]) == binary_result(
                    ValueModel::Number(s),
                    y[k],
                    op,
                )
        },
{
    lemma_scalar_from(op, s, y, 0, seq![]);
}

/// An array and a scalar give an array of the same length, and so does `~` of an
/// array.
pub proof fn array_operators_keep_length(op: BinaryOperator, x: Seq<ValueModel>, scalar: ValueModel)
    requires
        spreads(op),
        !(scalar is Array),
    ensures
        binary_result(ValueModel::Array(x), scalar, op) matches Ok(p) ==> p is List && p->List_0.len() == x.len(),
        binary_result(scalar, ValueModel::Array(x), op) matches Ok(p) ==> p is List && p->List_0.len() == x.len(),
        unary_result(ValueModel::Array(x), UnaryOperator::BitNot) matches Ok(p) ==> p is List && p->List_0.len()
            == x.len(),
{
    lemma_each(op, x, 0, 0, 0, seq![]);
    match scalar {
        ValueModel::Number(s) => {
            lemma_each(op, x, s, 0, 0, seq![]);
            scalar_stays_on_the_left(op, s, x);
            match integer(s) {
                Ok(k) => {
                    lemma_each(op, x, s, k as i64, 0, seq![]);
                },
                Err(e) => {},
            }
        },
        _ => {},
    }
}

} // verus!
