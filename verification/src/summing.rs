//! What the arithmetic and the bitwise operators do, on numbers, on texts and over arrays.

use crate::ast::{BinaryOperator, UnaryOperator, ValueModel};
use crate::draft::{settle, settled, Arithmetic, FailureModel, PieceModel, PlanModel};
use crate::number::{finite, order_is_by_value, truncated, units, SIGN};
use crate::operators::{
    binary_result, bits, bitwise, each_bits, each_number, inverted, on_numbers, pairs_from, scalar_from, spread,
    spreads, unary_result,
};
use crate::outcomes::throws;
use vstd::prelude::*;

verus! {

/// The host is asked for the sum, the difference, the product or the quotient of the two
/// numbers, the left operand first.
pub proof fn arithmetic_takes_operands_in_order(a: u64, b: u64)
    ensures
        binary_result(ValueModel::Number(a), ValueModel::Number(b), BinaryOperator::Add) == Ok::<_, FailureModel>(
            PlanModel::Arithmetic { op: Arithmetic::Add, left: a, right: b },
        ),
        binary_result(ValueModel::Number(a), ValueModel::Number(b), BinaryOperator::Subtract) == Ok::<
            _,
            FailureModel,
        >(PlanModel::Arithmetic { op: Arithmetic::Subtract, left: a, right: b }),
        binary_result(ValueModel::Number(a), ValueModel::Number(b), BinaryOperator::Multiply) == Ok::<
            _,
            FailureModel,
        >(PlanModel::Arithmetic { op: Arithmetic::Multiply, left: a, right: b }),
        !finite(b) || units(b) != 0 ==> binary_result(
            ValueModel::Number(a),
            ValueModel::Number(b),
            BinaryOperator::Divide,
        ) == Ok::<_, FailureModel>(PlanModel::Arithmetic { op: Arithmetic::Divide, left: a, right: b }),
{
    lemma_zero(b);
}

proof fn lemma_zero(n: u64)
    ensures
        crate::number::zero(n) <==> finite(n) && units(n) == 0,
{
    if finite(n) {
        order_is_by_value(n, 0);
        order_is_by_value(0, SIGN);
        assert(units(0) == -units(SIGN));
    }
}

/// Nothing is divided by zero.
pub proof fn division_by_zero_is_refused(a: u64, b: u64, x: Seq<ValueModel>)
    requires
        finite(b),
        units(b) == 0,
        x.len() > 0,
        x[0] is Number,
    ensures
        throws(binary_result(ValueModel::Number(a), ValueModel::Number(b), BinaryOperator::Divide), "DivZero"@),
        throws(binary_result(ValueModel::Array(x), ValueModel::Number(b), BinaryOperator::Divide), "DivZero"@),
{
    lemma_zero(b);
}

/// `+` on two strings is the one and then the other; a number beside a string is written
/// out in its place.
pub proof fn strings_are_joined(a: Seq<char>, b: Seq<char>, n: u64)
    ensures
        binary_result(ValueModel::String(a), ValueModel::String(b), BinaryOperator::Add) matches Ok(p) && settled(p)
            && settle(p) == ValueModel::String(a + b),
        binary_result(ValueModel::String(a), ValueModel::Number(n), BinaryOperator::Add) == Ok::<_, FailureModel>(
            PlanModel::Text(seq![PieceModel::Text(a), PieceModel::Number(n)]),
        ),
        binary_result(ValueModel::Number(n), ValueModel::String(b), BinaryOperator::Add) == Ok::<_, FailureModel>(
            PlanModel::Text(seq![PieceModel::Number(n), PieceModel::Text(b)]),
        ),
{
    let items = seq![PieceModel::Text(a), PieceModel::Text(b)];
    reveal_with_fuel(crate::draft::joined, 3);
    assert(items.drop_last() =~= seq![PieceModel::Text(a)]);
    assert(items.drop_last().drop_last() =~= Seq::<PieceModel>::empty());
    assert(crate::draft::joined(items) =~= a + b);
}

/// Truth values, null, objects and the like are no operands: nor are strings but for `+`.
pub proof fn unfit_operands_are_refused(l: ValueModel, r: ValueModel, op: BinaryOperator)
    requires
        spreads(op),
        !(l is Array),
        !(r is Array),
        !(l is Number && r is Number),
        !(op is Add && (l is Number || l is String) && (r is Number || r is String)),
    ensures
        op is Divide ==> throws(binary_result(l, r, op), "DivZero"@),
        !(op is Divide) ==> throws(binary_result(l, r, op), "TypeError"@),
{
}

/// The operators that spread over arrays are those of arithmetic and those on bits.
pub proof fn spreading_operators(op: BinaryOperator)
    ensures
        spreads(op) <==> op is Add || op is Subtract || op is Multiply || op is Divide || op is BitAnd || op is BitOr
            || op is BitXor || op is Shl || op is Shr,
{
}

/// Whether a bitwise operator can take a number for an integer.
pub open spec fn fits_in_bits(n: u64) -> bool {
    finite(n) && i64::MIN <= truncated(n) <= i64::MAX
}

/// The bitwise operators work on the integer parts, bit by bit.
pub proof fn bits_of_integer_parts(a: u64, b: u64)
    requires
        fits_in_bits(a),
        fits_in_bits(b),
    ensures
        ({
            let x = truncated(a) as i64;
            let y = truncated(b) as i64;
            let l = ValueModel::Number(a);
            let r = ValueModel::Number(b);
            &&& binary_result(l, r, BinaryOperator::BitAnd) == Ok::<_, FailureModel>(PlanModel::Integer(x & y))
            &&& binary_result(l, r, BinaryOperator::BitOr) == Ok::<_, FailureModel>(PlanModel::Integer(x | y))
            &&& binary_result(l, r, BinaryOperator::BitXor) == Ok::<_, FailureModel>(PlanModel::Integer(x ^ y))
        }),
        unary_result(ValueModel::Number(a), UnaryOperator::BitNot) == Ok::<_, FailureModel>(
            PlanModel::Integer(!(truncated(a) as i64)),
        ),
{
    let m = truncated(a) as i64;
    assert(!m == (-1 - m) as i64) by (bit_vector);
}

/// A number that is none, infinite or too large has no bits.
pub proof fn unfit_numbers_have_no_bits(a: u64, b: u64, op: BinaryOperator)
    requires
        bitwise(op),
        !fits_in_bits(a) || !fits_in_bits(b),
    ensures
        throws(binary_result(ValueModel::Number(a), ValueModel::Number(b), op), "ValueError"@),
        !fits_in_bits(a) ==> throws(unary_result(ValueModel::Number(a), UnaryOperator::BitNot), "ValueError"@),
{
}

/// A shift by zero keeps the integer. One place further to the left doubles it, as far as
/// 64 bits hold that; one place further to the right halves it, rounding down.
pub proof fn shifts_double_and_halve(x: i64, k: i64)
    requires
        0 <= k < 63,
    ensures
        bits(BinaryOperator::Shl, x, 0) == x,
        bits(BinaryOperator::Shr, x, 0) == x,
        bits(BinaryOperator::Shl, x, (k + 1) as i64) == (2 * bits(BinaryOperator::Shl, x, k)) as i64,
        bits(BinaryOperator::Shr, x, (k + 1) as i64) == bits(BinaryOperator::Shr, x, k) as int / 2,
{
    let u = k as u32;
    assert(x << 0u32 == x) by (bit_vector);
    assert(x >> 0u32 == x) by (bit_vector);
    assert(x << ((u + 1) as u32) == ((x << u) * 2) as i64) by (bit_vector)
        requires
            u < 63,
    ;
    let h = x >> u;
    let g = x >> ((u + 1) as u32);
    assert(g * 2 <= h && h <= g * 2 + 1) by (bit_vector)
        requires
            u < 63,
            h == x >> u,
            g == x >> ((u + 1) as u32),
    ;
}

/// The shifts take the integer on their left and the places on their right, from 0 to 63.
pub proof fn shift_takes_value_then_places(a: u64, b: u64)
    requires
        fits_in_bits(a),
        fits_in_bits(b),
    ensures
        0 <= truncated(b) < 64 ==> {
            let x = truncated(a) as i64;
            let k = truncated(b) as i64;
            let l = ValueModel::Number(a);
            let r = ValueModel::Number(b);
            &&& binary_result(l, r, BinaryOperator::Shl) == Ok::<_, FailureModel>(
                PlanModel::Integer(bits(BinaryOperator::Shl, x, k)),
            )
            &&& binary_result(l, r, BinaryOperator::Shr) == Ok::<_, FailureModel>(
                PlanModel::Integer(bits(BinaryOperator::Shr, x, k)),
            )
        },
        !(0 <= truncated(b) < 64) ==> throws(
            binary_result(ValueModel::Number(a), ValueModel::Number(b), BinaryOperator::Shl),
            "ValueError"@,
        ) && throws(binary_result(ValueModel::Number(a), ValueModel::Number(b), BinaryOperator::Shr), "ValueError"@),
{
}

/// Whether `p` is the list of what `each` comes to for each place below `n`.
pub open spec fn lists(p: Result<PlanModel, FailureModel>, n: nat, each: spec_fn(int) -> Result<PlanModel, FailureModel>) -> bool {
    &&& p matches Ok(PlanModel::List(items)) && items.len() == n && forall|k: int|
        0 <= k < n ==> Ok::<_, FailureModel>(#[trigger] items[k]) == each(k)
}

proof fn lemma_left_items(op: BinaryOperator, x: Seq<ValueModel>, s: u64, i: int, done: Seq<PlanModel>)
    requires
        spreads(op),
        0 <= i <= x.len(),
        done.len() == i,
        forall|k: int| 0 <= k < x.len() ==> (#[trigger] x[k]) is Number,
        forall|k: int|
            0 <= k < x.len() ==> binary_result(#[trigger] x[k], ValueModel::Number(s), op) is Ok,
        forall|k: int|
            0 <= k < i ==> Ok::<_, FailureModel>(#[trigger] done[k]) == binary_result(x[k], ValueModel::Number(s), op),
    ensures
        ({
            let each = |k: int| binary_result(x[k], ValueModel::Number(s), op);
            &&& !bitwise(op) ==> lists(each_number(op, x, s, i, done), x.len(), each)
            &&& bitwise(op) && fits_in_bits(s) ==> lists(each_bits(op, x, truncated(s) as i64, i, done), x.len(), each)
        }),
    decreases x.len() - i,
{
    if i < x.len() {
        let n = x[i]->Number_0;
        assert(binary_result(x[i], ValueModel::Number(s), op) is Ok);
        assert(binary_result(x[i], ValueModel::Number(s), op) == on_numbers(op, n, s));
        lemma_left_items(op, x, s, i + 1, done.push(on_numbers(op, n, s)->Ok_0));
    }
}

/// An array and a number: the operator takes each item on its left and the number on its
/// right. It succeeds where it does on every item.
pub proof fn scalar_stays_on_the_right(op: BinaryOperator, x: Seq<ValueModel>, s: u64)
    requires
        spreads(op),
        x.len() > 0,
        forall|k: int| 0 <= k < x.len() ==> (#[trigger] x[k]) is Number,
        forall|k: int| 0 <= k < x.len() ==> binary_result(#[trigger] x[k], ValueModel::Number(s), op) is Ok,
    ensures
        lists(
            binary_result(ValueModel::Array(x), ValueModel::Number(s), op),
            x.len(),
            |k: int| binary_result(x[k], ValueModel::Number(s), op),
        ),
{
    assert(x[0] is Number);
    assert(binary_result(x[0], ValueModel::Number(s), op) is Ok);
    lemma_left_items(op, x, s, 0, seq![]);
}

proof fn lemma_right_items(op: BinaryOperator, s: u64, y: Seq<ValueModel>, i: int, done: Seq<PlanModel>)
    requires
        spreads(op),
        0 <= i <= y.len(),
        done.len() == i,
        forall|k: int| 0 <= k < y.len() ==> (#[trigger] y[k]) is Number,
        forall|k: int|
            0 <= k < y.len() ==> binary_result(ValueModel::Number(s), #[trigger] y[k], op) is Ok,
        forall|k: int|
            0 <= k < i ==> Ok::<_, FailureModel>(#[trigger] done[k]) == binary_result(ValueModel::Number(s), y[k], op),
    ensures
        lists(scalar_from(op, s, y, i, done), y.len(), |k: int| binary_result(ValueModel::Number(s), y[k], op)),
    decreases y.len() - i,
{
    if i < y.len() {
        let n = y[i]->Number_0;
        assert(binary_result(ValueModel::Number(s), y[i], op) is Ok);
        assert(binary_result(ValueModel::Number(s), y[i], op) == on_numbers(op, s, n));
        lemma_right_items(op, s, y, i + 1, done.push(on_numbers(op, s, n)->Ok_0));
    }
}

/// A number and an array: the operator takes the number on its left and each item on its
/// right. It succeeds where it does on every item.
pub proof fn scalar_meets_every_item(op: BinaryOperator, s: u64, y: Seq<ValueModel>)
    requires
        spreads(op),
        y.len() > 0,
        forall|k: int| 0 <= k < y.len() ==> (#[trigger] y[k]) is Number,
        forall|k: int| 0 <= k < y.len() ==> binary_result(ValueModel::Number(s), #[trigger] y[k], op) is Ok,
    ensures
        lists(
            binary_result(ValueModel::Number(s), ValueModel::Array(y), op),
            y.len(),
            |k: int| binary_result(ValueModel::Number(s), y[k], op),
        ),
{
    assert(y[0] is Number);
    assert(binary_result(ValueModel::Number(s), y[0], op) is Ok);
    lemma_right_items(op, s, y, 0, seq![]);
}

proof fn lemma_pair_items(op: BinaryOperator, x: Seq<ValueModel>, y: Seq<ValueModel>, n: nat, i: int, done: Seq<PlanModel>)
    requires
        spreads(op),
        x.len() > 0,
        y.len() > 0,
        n >= x.len(),
        n >= y.len(),
        n == x.len() || n == y.len(),
        0 <= i <= n,
        done.len() == i,
        forall|k: int|
            0 <= k < n ==> (#[trigger] binary_result(x[k % (x.len() as int)], y[k % (y.len() as int)], op)) is Ok,
        forall|k: int|
            0 <= k < i ==> Ok::<_, FailureModel>(#[trigger] done[k]) == binary_result(
                x[k % (x.len() as int)],
                y[k % (y.len() as int)],
                op,
            ),
    ensures
        lists(
            pairs_from(op, x, y, i, done),
            n,
            |k: int| binary_result(x[k % (x.len() as int)], y[k % (y.len() as int)], op),
        ),
    decreases n - i,
{
    if i < n {
        let r = binary_result(x[i % (x.len() as int)], y[i % (y.len() as int)], op);
        assert(r is Ok);
        assert(r == spread(op, x[i % (x.len() as int)], y[i % (y.len() as int)]));
        lemma_pair_items(op, x, y, n, i + 1, done.push(r->Ok_0));
    }
}

/// Two arrays: the operator takes them place by place, as many as the longer one has, and
/// the shorter one starts over. It succeeds where it does on every pair.
pub proof fn every_pair_is_met(op: BinaryOperator, x: Seq<ValueModel>, y: Seq<ValueModel>, n: nat)
    requires
        spreads(op),
        x.len() > 0,
        y.len() > 0,
        n >= x.len(),
        n >= y.len(),
        n == x.len() || n == y.len(),
        forall|k: int|
            0 <= k < n ==> (#[trigger] binary_result(x[k % (x.len() as int)], y[k % (y.len() as int)], op)) is Ok,
    ensures
        lists(
            binary_result(ValueModel::Array(x), ValueModel::Array(y), op),
            n,
            |k: int| binary_result(x[k % (x.len() as int)], y[k % (y.len() as int)], op),
        ),
{
    reveal_with_fuel(spread, 2);
    lemma_pair_items(op, x, y, n, 0, seq![]);
}

/// Empty arrays come to an empty array.
pub proof fn empty_arrays_stay_empty(op: BinaryOperator, s: u64)
    requires
        spreads(op),
        !bitwise(op) || (fits_in_bits(s) && 0 <= truncated(s) < 64),
    ensures
        ({
            let none = ValueModel::Array(seq![]);
            let list = Ok::<_, FailureModel>(PlanModel::List(seq![]));
            &&& binary_result(none, none, op) == list
            &&& binary_result(none, ValueModel::Number(s), op) == list
            &&& binary_result(ValueModel::Number(s), none, op) == list
        }),
{
    reveal_with_fuel(spread, 2);
}

/// An array with an item that is no number is no operand beside a number, nor does any
/// array go with what is neither a number nor an array.
pub proof fn arrays_go_with_numbers(op: BinaryOperator, x: Seq<ValueModel>, s: u64, other: ValueModel)
    requires
        spreads(op),
        x.len() > 0,
        !(x[0] is Number),
        !bitwise(op) || (fits_in_bits(s) && 0 <= truncated(s) < 64),
        !(other is Number),
        !(other is Array),
    ensures
        throws(binary_result(ValueModel::Array(x), ValueModel::Number(s), op), "TypeError"@),
        throws(binary_result(ValueModel::Number(s), ValueModel::Array(x), op), "TypeError"@),
        throws(binary_result(ValueModel::Array(x), other, op), "TypeError"@),
        throws(binary_result(other, ValueModel::Array(x), op), "TypeError"@),
{
}

proof fn lemma_inverted_items(x: Seq<ValueModel>, i: int, done: Seq<PlanModel>)
    requires
        0 <= i <= x.len(),
        done.len() == i,
        forall|k: int|
            0 <= k < x.len() ==> (#[trigger] x[k]) is Number && unary_result(x[k], UnaryOperator::BitNot) is Ok,
        forall|k: int|
            0 <= k < i ==> Ok::<_, FailureModel>(#[trigger] done[k]) == unary_result(x[k], UnaryOperator::BitNot),
    ensures
        lists(inverted(x, i, done), x.len(), |k: int| unary_result(x[k], UnaryOperator::BitNot)),
    decreases x.len() - i,
{
    if i < x.len() {
        let r = unary_result(x[i], UnaryOperator::BitNot);
        assert(x[i] is Number);
        assert(r is Ok);
        lemma_inverted_items(x, i + 1, done.push(r->Ok_0));
    }
}

/// `~` of an array is `~` of each item.
pub proof fn inverting_meets_every_item(x: Seq<ValueModel>)
    requires
        forall|k: int|
            0 <= k < x.len() ==> (#[trigger] x[k]) is Number && unary_result(x[k], UnaryOperator::BitNot) is Ok,
    ensures
        lists(
            unary_result(ValueModel::Array(x), UnaryOperator::BitNot),
            x.len(),
            |k: int| unary_result(x[k], UnaryOperator::BitNot),
        ),
{
    lemma_inverted_items(x, 0, seq![]);
}

/// `~` is for numbers and arrays of them.
pub proof fn inverting_is_for_numbers(v: ValueModel)
    requires
        !(v is Number),
        !(v is Array),
    ensures
        throws(unary_result(v, UnaryOperator::BitNot), "TypeError"@),
{
}

} // verus!
