//! Unary and binary operators on values.
//!
//! Arithmetic and bitwise operators spread over arrays: an array and a scalar
//! item by item, each operand on its own side, two arrays pairwise with the shorter one repeated.

use crate::ast::{values, BinaryOperator, UnaryOperator, Value, ValueModel};
use crate::draft::{
    debug, fatal_err, fatal_model, plans, text, text_2, throw_err, throw_model, throw_pieces, throw_text, Arithmetic,
    Failure, FailureModel, Piece, PieceModel, Plan, PlanModel,
};
use crate::number::{finite, is_finite, is_less, is_less_equal, is_zero, less, less_equal, truncate, truncated, zero};
use crate::show::{int_text, is_truthy, same_value, truthy, values_equal, write_int};
use crate::text::{chars_of, upper_letter};
use vstd::prelude::*;

verus! {

/// An ASCII letter in lower case; any other character as it is.
pub open spec fn lower(c: char) -> char {
    if upper_letter(c) {
        ((c as u32 + 32) as u8) as char
    } else {
        c
    }
}

/// Whether two texts are the same but for the case of ASCII letters.
pub open spec fn same_ignoring_case(a: Seq<char>, b: Seq<char>) -> bool {
    a.len() == b.len() && forall|i: int| 0 <= i < a.len() ==> lower(#[trigger] a[i]) == lower(b[i])
}

fn to_lower(c: char) -> (r: char)
    ensures
        r == lower(c),
{
    if 'A' <= c && c <= 'Z' {
        ((c as u32 + 32) as u8) as char
    } else {
        c
    }
}

pub fn equal_ignoring_case(a: &str, b: &str) -> (r: bool)
    ensures
        r == same_ignoring_case(a@, b@),
{
    let x = chars_of(a);
    let y = chars_of(b);
    if x.len() != y.len() {
        return false;
    }
    let mut i: usize = 0;
    while i < x.len()
        invariant
            i <= x@.len() == y@.len(),
            x@ == a@,
            y@ == b@,
            forall|k: int| 0 <= k < i ==> lower(#[trigger] a@[k]) == lower(b@[k]),
        decreases x@.len() - i,
    {
        if to_lower(x[i]) != to_lower(y[i]) {
            assert(lower(a@[i as int]) != lower(b@[i as int]));
            return false;
        }
        i = i + 1;
    }
    true
}

/// Whether `a` comes before `b` in the order of the dictionary, character by
/// character from `i` on.
pub open spec fn text_before(a: Seq<char>, b: Seq<char>, i: int) -> bool
    decreases a.len() - i,
{
    if i < 0 || i >= b.len() {
        false
    } else if i >= a.len() {
        true
    } else if a[i] != b[i] {
        a[i] < b[i]
    } else {
        text_before(a, b, i + 1)
    }
}

/// Whether the text `a` is less than the text `b`.
pub open spec fn text_less(a: Seq<char>, b: Seq<char>) -> bool {
    text_before(a, b, 0)
}

pub fn is_text_less(a: &str, b: &str) -> (r: bool)
    ensures
        r == text_less(a@, b@),
{
    let x = chars_of(a);
    let y = chars_of(b);
    let mut i: usize = 0;
    while i < x.len() && i < y.len()
        invariant
            i <= x@.len(),
            i <= y@.len(),
            x@ == a@,
            y@ == b@,
            text_before(a@, b@, i as int) == text_less(a@, b@),
        decreases x@.len() - i,
    {
        if x[i] != y[i] {
            return x[i] < y[i];
        }
        i = i + 1;
    }
    i < y.len()
}

/// The integer that a bitwise operator takes a number for.
pub open spec fn integer(n: u64) -> Result<int, FailureModel> {
    if !finite(n) {
        Err(
            throw_model(
                "ValueError"@,
                seq![PieceModel::Text("bitwise requires a finite integer, got "@), PieceModel::Number(n)],
            ),
        )
    } else if truncated(n) < i64::MIN || truncated(n) > i64::MAX {
        Err(
            throw_model(
                "ValueError"@,
                seq![PieceModel::Text("bitwise operand out of i64 range: "@), PieceModel::Number(n)],
            ),
        )
    } else {
        Ok(truncated(n))
    }
}

/// Truncates a number towards zero for the bitwise operators.
pub fn as_i64(n: u64) -> (r: Result<i64, Failure>)
    ensures
        match r {
            Ok(i) => integer(n) == Ok::<int, FailureModel>(i as int),
            Err(e) => integer(n) == Err::<int, FailureModel>(e@),
        },
{
    if !is_finite(n) {
        return Err(
            throw_pieces("ValueError", text_2(text("bitwise requires a finite integer, got "), Piece::Number(n))),
        );
    }
    match truncate(n) {
        Some(i) => Ok(i),
        None => Err(throw_pieces("ValueError", text_2(text("bitwise operand out of i64 range: "), Piece::Number(n)))),
    }
}

/// The complaint that a shift amount is out of range.
pub open spec fn shift_complaint(n: PieceModel) -> FailureModel {
    throw_model("ValueError"@, seq![PieceModel::Text("shift amount must be 0..64, got "@), n])
}

/// The amount that a number shifts by.
pub open spec fn shift_amount(n: u64) -> Result<int, FailureModel> {
    match integer(n) {
        Err(e) => Err(e),
        Ok(i) => if 0 <= i < 64 {
            Ok(i)
        } else {
            Err(shift_complaint(PieceModel::Number(n)))
        },
    }
}

pub fn check_shift_amount(n: u64) -> (r: Result<u32, Failure>)
    ensures
        match r {
            Ok(i) => shift_amount(n) == Ok::<int, FailureModel>(i as int) && i < 64,
            Err(e) => shift_amount(n) == Err::<int, FailureModel>(e@),
        },
{
    let i: i64 = as_i64(n)?;
    if i < 0 || i >= 64 {
        return Err(throw_pieces("ValueError", text_2(text("shift amount must be 0..64, got "), Piece::Number(n))));
    }
    Ok(i as u32)
}

/// Whether the operator works on integers.
pub open spec fn bitwise(op: BinaryOperator) -> bool {
    op is BitAnd || op is BitOr || op is BitXor || shifting(op)
}

pub open spec fn shifting(op: BinaryOperator) -> bool {
    op is Shl || op is Shr
}

/// Whether the operator spreads over arrays.
pub open spec fn spreads(op: BinaryOperator) -> bool {
    op is Add || op is Subtract || op is Multiply || op is Divide || bitwise(op)
}

/// A bitwise operator on integers.
pub open spec fn bits(op: BinaryOperator, x: i64, y: i64) -> i64 {
    match op {
        BinaryOperator::BitAnd => x & y,
        BinaryOperator::BitOr => x | y,
        BinaryOperator::BitXor => x ^ y,
        BinaryOperator::Shl => x.wrapping_shl(y as u32),
        _ => x.wrapping_shr(y as u32),
    }
}

fn apply_bits(op: BinaryOperator, x: i64, y: i64) -> (r: i64)
    requires
        0 <= y < 64 || !shifting(op),
        bitwise(op),
    ensures
        r == bits(op, x, y),
{
    match op {
        BinaryOperator::BitAnd => x & y,
        BinaryOperator::BitOr => x | y,
        BinaryOperator::BitXor => x ^ y,
        BinaryOperator::Shl => x.wrapping_shl(y as u32),
        _ => x.wrapping_shr(y as u32),
    }
}

fn is_shifting(op: BinaryOperator) -> (r: bool)
    ensures
        r == shifting(op),
{
    matches!(op, BinaryOperator::Shl | BinaryOperator::Shr)
}

fn is_bitwise(op: BinaryOperator) -> (r: bool)
    ensures
        r == bitwise(op),
{
    matches!(op, BinaryOperator::BitAnd | BinaryOperator::BitOr | BinaryOperator::BitXor) || is_shifting(op)
}

fn is_spreading(op: BinaryOperator) -> (r: bool)
    ensures
        r == spreads(op),
{
    matches!(
        op,
        BinaryOperator::Add | BinaryOperator::Subtract | BinaryOperator::Multiply | BinaryOperator::Divide
    ) || is_bitwise(op)
}

/// The arithmetic that an operator stands for.
pub open spec fn arithmetic(op: BinaryOperator) -> Arithmetic {
    match op {
        BinaryOperator::Add => Arithmetic::Add,
        BinaryOperator::Subtract => Arithmetic::Subtract,
        BinaryOperator::Multiply => Arithmetic::Multiply,
        _ => Arithmetic::Divide,
    }
}

fn arithmetic_of(op: BinaryOperator) -> (r: Arithmetic)
    ensures
        r == arithmetic(op),
{
    match op {
        BinaryOperator::Add => Arithmetic::Add,
        BinaryOperator::Subtract => Arithmetic::Subtract,
        BinaryOperator::Multiply => Arithmetic::Multiply,
        _ => Arithmetic::Divide,
    }
}

/// An operator that spreads over arrays, on two numbers.
pub open spec fn on_numbers(op: BinaryOperator, a: u64, b: u64) -> Result<PlanModel, FailureModel> {
    if shifting(op) {
        match integer(a) {
            Err(e) => Err(e),
            Ok(x) => match shift_amount(b) {
                Err(e) => Err(e),
                Ok(y) => Ok(PlanModel::Integer(bits(op, x as i64, y as i64))),
            },
        }
    } else if bitwise(op) {
        match integer(a) {
            Err(e) => Err(e),
            Ok(x) => match integer(b) {
                Err(e) => Err(e),
                Ok(y) => Ok(PlanModel::Integer(bits(op, x as i64, y as i64))),
            },
        }
    } else if op is Divide && zero(b) {
        Err(throw_text("DivZero"@, "Division requires non-zero numbers"@))
    } else {
        Ok(PlanModel::Arithmetic { op: arithmetic(op), left: a, right: b })
    }
}

fn evaluate_numbers(op: BinaryOperator, a: u64, b: u64) -> (r: Result<Plan, Failure>)
    requires
        spreads(op),
    ensures
        match r {
            Ok(p) => on_numbers(op, a, b) == Ok::<PlanModel, FailureModel>(p@),
            Err(e) => on_numbers(op, a, b) == Err::<PlanModel, FailureModel>(e@),
        },
{
    if is_shifting(op) {
        let x: i64 = as_i64(a)?;
        let y: u32 = check_shift_amount(b)?;
        Ok(Plan::Integer(apply_bits(op, x, y as i64)))
    } else if is_bitwise(op) {
        let x: i64 = as_i64(a)?;
        let y: i64 = as_i64(b)?;
        Ok(Plan::Integer(apply_bits(op, x, y)))
    } else if matches!(op, BinaryOperator::Divide) && is_zero(b) {
        Err(throw_err("DivZero", "Division requires non-zero numbers"))
    } else {
        Ok(Plan::Arithmetic { op: arithmetic_of(op), left: a, right: b })
    }
}

/// The complaint about operands that fit no rule of an operator.
pub open spec fn operand_complaint(op: BinaryOperator) -> FailureModel {
    match op {
        BinaryOperator::Add => throw_text("TypeError"@, "Addition requires numbers or strings"@),
        BinaryOperator::Subtract => throw_text("TypeError"@, "Subtraction requires numbers"@),
        BinaryOperator::Multiply => throw_text("TypeError"@, "Multiplication requires numbers"@),
        BinaryOperator::Divide => throw_text("DivZero"@, "Division requires non-zero numbers"@),
        BinaryOperator::Shl => throw_text("TypeError"@, "shifts require numbers"@),
        BinaryOperator::Shr => throw_text("TypeError"@, "shifts require numbers"@),
        _ => throw_text("TypeError"@, "bitwise requires numbers"@),
    }
}

fn complain_operands(op: BinaryOperator) -> (r: Failure)
    ensures
        r@ == operand_complaint(op),
{
    match op {
        BinaryOperator::Add => throw_err("TypeError", "Addition requires numbers or strings"),
        BinaryOperator::Subtract => throw_err("TypeError", "Subtraction requires numbers"),
        BinaryOperator::Multiply => throw_err("TypeError", "Multiplication requires numbers"),
        BinaryOperator::Divide => throw_err("DivZero", "Division requires non-zero numbers"),
        BinaryOperator::Shl => throw_err("TypeError", "shifts require numbers"),
        BinaryOperator::Shr => throw_err("TypeError", "shifts require numbers"),
        _ => throw_err("TypeError", "bitwise requires numbers"),
    }
}

/// An operator that spreads over arrays.
pub open spec fn spread(op: BinaryOperator, l: ValueModel, r: ValueModel) -> Result<PlanModel, FailureModel>
    decreases l, 0int,
{
    match (l, r) {
        (ValueModel::Array(x), ValueModel::Array(y)) => pairwise(op, x, y),
        (ValueModel::Array(x), scalar) => each(op, x, scalar),
        (scalar, ValueModel::Array(y)) => scalar_each(op, scalar, y),
        (ValueModel::Number(a), ValueModel::Number(b)) => on_numbers(op, a, b),
        (ValueModel::String(a), ValueModel::String(b)) => if op is Add {
            Ok(PlanModel::Text(seq![PieceModel::Text(a), PieceModel::Text(b)]))
        } else {
            Err(operand_complaint(op))
        },
        (ValueModel::String(a), ValueModel::Number(b)) => if op is Add {
            Ok(PlanModel::Text(seq![PieceModel::Text(a), PieceModel::Number(b)]))
        } else {
            Err(operand_complaint(op))
        },
        (ValueModel::Number(a), ValueModel::String(b)) => if op is Add {
            Ok(PlanModel::Text(seq![PieceModel::Number(a), PieceModel::Text(b)]))
        } else {
            Err(operand_complaint(op))
        },
        _ => Err(operand_complaint(op)),
    }
}

/// Two arrays item by item, the shorter one repeated. An empty array cannot be
/// repeated to the length of one that is not.
pub open spec fn pairwise(op: BinaryOperator, x: Seq<ValueModel>, y: Seq<ValueModel>) -> Result<PlanModel, FailureModel>
    decreases x, y.len() + x.len() + 1,
{
    if (x.len() == 0) != (y.len() == 0) {
        Err(fatal_model("attempt to calculate the remainder with a divisor of zero"@))
    } else {
        pairs_from(op, x, y, 0, seq![])
    }
}

/// The pairs from `i` on, behind those of `done`.
pub open spec fn pairs_from(
    op: BinaryOperator,
    x: Seq<ValueModel>,
    y: Seq<ValueModel>,
    i: int,
    done: Seq<PlanModel>,
) -> Result<PlanModel, FailureModel>
    decreases x, y.len() + x.len() - i,
{
    if i < 0 || x.len() == 0 || y.len() == 0 || (i >= x.len() && i >= y.len()) {
        Ok(PlanModel::List(done))
    } else {
        match spread(op, x[i % (x.len() as int)], y[i % (y.len() as int)]) {
            Err(e) => Err(e),
            Ok(p) => pairs_from(op, x, y, i + 1, done.push(p)),
        }
    }
}

pub open spec fn scalar_complaint(scalar: ValueModel) -> FailureModel {
    throw_model(
        "TypeError"@,
        seq![PieceModel::Text("Array math requires a numeric scalar, got "@), PieceModel::Debug(scalar)],
    )
}

/// An array and a scalar: the operator on each item and the scalar, in that
/// order.
pub open spec fn each(op: BinaryOperator, x: Seq<ValueModel>, scalar: ValueModel) -> Result<PlanModel, FailureModel> {
    match scalar {
        ValueModel::Number(s) => if bitwise(op) {
            match integer(s) {
                Err(e) => Err(e),
                Ok(k) => if shifting(op) && !(0 <= k < 64) {
                    Err(shift_complaint(PieceModel::Text(int_text(k))))
                } else {
                    each_bits(op, x, k as i64, 0, seq![])
                },
            }
        } else {
            each_number(op, x, s, 0, seq![])
        },
        _ => Err(scalar_complaint(scalar)),
    }
}

/// A scalar and an array: the operator on the scalar and each item, in that
/// order. A bitwise operator needs an integer for its scalar even where there is
/// no item.
pub open spec fn scalar_each(op: BinaryOperator, scalar: ValueModel, y: Seq<ValueModel>) -> Result<
    PlanModel,
    FailureModel,
> {
    match scalar {
        ValueModel::Number(s) => match integer(s) {
            Err(e) => if bitwise(op) {
                Err(e)
            } else {
                scalar_from(op, s, y, 0, seq![])
            },
            Ok(_) => scalar_from(op, s, y, 0, seq![]),
        },
        _ => Err(scalar_complaint(scalar)),
    }
}

/// The operator on the scalar and the items from `i` on, behind those of `done`.
pub open spec fn scalar_from(
    op: BinaryOperator,
    s: u64,
    y: Seq<ValueModel>,
    i: int,
    done: Seq<PlanModel>,
) -> Result<PlanModel, FailureModel>
    decreases y.len() - i,
{
    if i < 0 || i >= y.len() {
        Ok(PlanModel::List(done))
    } else {
        match y[i] {
            ValueModel::Number(n) => match on_numbers(op, s, n) {
                Err(e) => Err(e),
                Ok(p) => scalar_from(op, s, y, i + 1, done.push(p)),
            },
            _ => Err(throw_text("TypeError"@, "Array math only works on numeric arrays"@)),
        }
    }
}

/// A bitwise operator on the items from `i` on, behind those of `done`.
pub open spec fn each_bits(
    op: BinaryOperator,
    x: Seq<ValueModel>,
    k: i64,
    i: int,
    done: Seq<PlanModel>,
) -> Result<PlanModel, FailureModel>
    decreases x.len() - i,
{
    if i < 0 || i >= x.len() {
        Ok(PlanModel::List(done))
    } else {
        match x[i] {
            ValueModel::Number(n) => match integer(n) {
                Err(e) => Err(e),
                Ok(m) => each_bits(op, x, k, i + 1, done.push(PlanModel::Integer(bits(op, m as i64, k)))),
            },
            _ => Err(throw_text("TypeError"@, "Array math only works on numeric arrays"@)),
        }
    }
}

/// Arithmetic on the items from `i` on, behind those of `done`.
pub open spec fn each_number(
    op: BinaryOperator,
    x: Seq<ValueModel>,
    s: u64,
    i: int,
    done: Seq<PlanModel>,
) -> Result<PlanModel, FailureModel>
    decreases x.len() - i,
{
    if i < 0 || i >= x.len() {
        Ok(PlanModel::List(done))
    } else {
        match x[i] {
            ValueModel::Number(n) => if op is Divide && zero(s) {
                Err(throw_text("DivZero"@, "Division by zero in array math"@))
            } else {
                each_number(
                    op,
                    x,
                    s,
                    i + 1,
                    done.push(PlanModel::Arithmetic { op: arithmetic(op), left: n, right: s }),
                )
            },
            _ => Err(throw_text("TypeError"@, "Array math only works on numeric arrays"@)),
        }
    }
}

/// What `r` is, as a model.
pub open spec fn plan_result(r: Result<Plan, Failure>) -> Result<PlanModel, FailureModel> {
    match r {
        Ok(p) => Ok(p@),
        Err(e) => Err(e@),
    }
}

fn apply_array_scalar_op(items: &Vec<Value>, scalar: &Value, op: BinaryOperator) -> (r: Result<Plan, Failure>)
    requires
        spreads(op),
    ensures
        plan_result(r) == each(op, values(items@), scalar@),
{
    let s: u64 = match scalar {
        Value::Number(s) => *s,
        _ => {
            return Err(
                throw_pieces(
                    "TypeError",
                    text_2(text("Array math requires a numeric scalar, got "), debug(scalar)),
                ),
            );
        },
    };
    let ghost x = values(items@);
    let mut done: Vec<Plan> = Vec::new();
    let mut i: usize = 0;
    assert(plans(done@) =~= seq![]);
    if is_bitwise(op) {
        let k: i64 = as_i64(s)?;
        if is_shifting(op) && (k < 0 || k >= 64) {
            return Err(
                throw_pieces(
                    "ValueError",
                    text_2(text("shift amount must be 0..64, got "), Piece::Text(write_int(k))),
                ),
            );
        }
        while i < items.len()
            invariant
                i <= items@.len(),
                x == values(items@),
                bitwise(op),
                0 <= k < 64 || !shifting(op),
                each_bits(op, x, k, i as int, plans(done@)) == each(op, x, scalar@),
            decreases items@.len() - i,
        {
            let n: u64 = match &items[i] {
                Value::Number(n) => *n,
                _ => {
                    return Err(throw_err("TypeError", "Array math only works on numeric arrays"));
                },
            };
            let ghost before = plans(done@);
            let m: i64 = as_i64(n)?;
            let p = Plan::Integer(apply_bits(op, m, k));
            done.push(p);
            assert(plans(done@) =~= before.push(p@));
            i = i + 1;
        }
        return Ok(Plan::List(done));
    }
    while i < items.len()
        invariant
            i <= items@.len(),
            x == values(items@),
            spreads(op),
            !bitwise(op),
            each_number(op, x, s, i as int, plans(done@)) == each(op, x, scalar@),
        decreases items@.len() - i,
    {
        let n: u64 = match &items[i] {
            Value::Number(n) => *n,
            _ => {
                return Err(throw_err("TypeError", "Array math only works on numeric arrays"));
            },
        };
        if matches!(op, BinaryOperator::Divide) && is_zero(s) {
            return Err(throw_err("DivZero", "Division by zero in array math"));
        }
        let ghost before = plans(done@);
        let p = Plan::Arithmetic { op: arithmetic_of(op), left: n, right: s };
        done.push(p);
        assert(plans(done@) =~= before.push(p@));
        i = i + 1;
    }
    Ok(Plan::List(done))
}

fn apply_scalar_array_op(scalar: &Value, items: &Vec<Value>, op: BinaryOperator) -> (r: Result<Plan, Failure>)
    requires
        spreads(op),
    ensures
        plan_result(r) == scalar_each(op, scalar@, values(items@)),
{
    let s: u64 = match scalar {
        Value::Number(s) => *s,
        _ => {
            return Err(
                throw_pieces(
                    "TypeError",
                    text_2(text("Array math requires a numeric scalar, got "), debug(scalar)),
                ),
            );
        },
    };
    if is_bitwise(op) {
        let _whole: i64 = as_i64(s)?;
    }
    let ghost y = values(items@);
    let mut done: Vec<Plan> = Vec::new();
    let mut i: usize = 0;
    assert(plans(done@) =~= seq![]);
    while i < items.len()
        invariant
            i <= items@.len(),
            y == values(items@),
            spreads(op),
            scalar_from(op, s, y, i as int, plans(done@)) == scalar_each(op, scalar@, y),
        decreases items@.len() - i,
    {
        let n: u64 = match &items[i] {
            Value::Number(n) => *n,
            _ => {
                return Err(throw_err("TypeError", "Array math only works on numeric arrays"));
            },
        };
        let ghost before = plans(done@);
        let p = evaluate_numbers(op, s, n)?;
        done.push(p);
        assert(plans(done@) =~= before.push(p@));
        i = i + 1;
    }
    Ok(Plan::List(done))
}

fn apply_array_array_op(left: &Vec<Value>, right: &Vec<Value>, op: BinaryOperator) -> (r: Result<Plan, Failure>)
    requires
        spreads(op),
    ensures
        plan_result(r) == pairwise(op, values(left@), values(right@)),
    decreases left, 0int,
{
    if (left.len() == 0) != (right.len() == 0) {
        return Err(fatal_err("attempt to calculate the remainder with a divisor of zero"));
    }
    let ghost x = values(left@);
    let ghost y = values(right@);
    let n: usize = if left.len() < right.len() {
        right.len()
    } else {
        left.len()
    };
    let mut done: Vec<Plan> = Vec::new();
    let mut i: usize = 0;
    assert(plans(done@) =~= seq![]);
    while i < n
        invariant
            i <= n,
            n == (if left@.len() < right@.len() {
                right@.len()
            } else {
                left@.len()
            }),
            (left@.len() == 0) == (right@.len() == 0),
            x == values(left@),
            y == values(right@),
            spreads(op),
            pairs_from(op, x, y, i as int, plans(done@)) == pairwise(op, x, y),
        decreases n - i,
    {
        let ghost before = plans(done@);
        let p = evaluate_spread(&left[i % left.len()], &right[i % right.len()], op)?;
        done.push(p);
        assert(plans(done@) =~= before.push(p@));
        i = i + 1;
    }
    Ok(Plan::List(done))
}

fn evaluate_spread(left: &Value, right: &Value, op: BinaryOperator) -> (r: Result<Plan, Failure>)
    requires
        spreads(op),
    ensures
        plan_result(r) == spread(op, left@, right@),
    decreases left, 0int,
{
    match (left, right) {
        (Value::Array(x), Value::Array(y)) => apply_array_array_op(x, y, op),
        (Value::Array(x), scalar) => apply_array_scalar_op(x, scalar, op),
        (scalar, Value::Array(y)) => apply_scalar_array_op(scalar, y, op),
        (Value::Number(a), Value::Number(b)) => evaluate_numbers(op, *a, *b),
        (Value::String(a), Value::String(b)) => if matches!(op, BinaryOperator::Add) {
            Ok(Plan::Text(text_2(text(a.as_str()), text(b.as_str()))))
        } else {
            Err(complain_operands(op))
        },
        (Value::String(a), Value::Number(b)) => if matches!(op, BinaryOperator::Add) {
            Ok(Plan::Text(text_2(text(a.as_str()), Piece::Number(*b))))
        } else {
            Err(complain_operands(op))
        },
        (Value::Number(a), Value::String(b)) => if matches!(op, BinaryOperator::Add) {
            Ok(Plan::Text(text_2(Piece::Number(*a), text(b.as_str()))))
        } else {
            Err(complain_operands(op))
        },
        _ => Err(complain_operands(op)),
    }
}

/// `==`: strings without regard to case, all else by value.
pub open spec fn loosely_equal(l: ValueModel, r: ValueModel) -> bool {
    match (l, r) {
        (ValueModel::String(a), ValueModel::String(b)) => same_ignoring_case(a, b),
        _ => same_value(l, r),
    }
}

fn is_loosely_equal(l: &Value, r: &Value) -> (b: bool)
    ensures
        b == loosely_equal(l@, r@),
{
    match (l, r) {
        (Value::String(a), Value::String(b)) => equal_ignoring_case(a.as_str(), b.as_str()),
        _ => values_equal(l, r),
    }
}

/// What an ordering operator says of two numbers.
pub open spec fn orders_numbers(op: BinaryOperator, a: u64, b: u64) -> bool {
    match op {
        BinaryOperator::Greater => less(b, a),
        BinaryOperator::Less => less(a, b),
        BinaryOperator::GreaterEqual => less_equal(b, a),
        _ => less_equal(a, b),
    }
}

/// What an ordering operator says of two strings.
pub open spec fn orders_texts(op: BinaryOperator, a: Seq<char>, b: Seq<char>) -> bool {
    match op {
        BinaryOperator::Greater => text_less(b, a),
        BinaryOperator::Less => text_less(a, b),
        BinaryOperator::GreaterEqual => !text_less(a, b),
        _ => !text_less(b, a),
    }
}

pub open spec fn order_complaint(op: BinaryOperator) -> FailureModel {
    match op {
        BinaryOperator::Greater => throw_text("TypeError"@, "Greater-than requires comparable values"@),
        BinaryOperator::Less => throw_text("TypeError"@, "Less-than requires comparable values"@),
        BinaryOperator::GreaterEqual => throw_text("TypeError"@, "Greater-or-equal requires comparable values"@),
        _ => throw_text("TypeError"@, "Less-or-equal requires comparable values"@),
    }
}

/// An ordering operator.
pub open spec fn ordered(op: BinaryOperator, l: ValueModel, r: ValueModel) -> Result<PlanModel, FailureModel> {
    match (l, r) {
        (ValueModel::Number(a), ValueModel::Number(b)) => Ok(logic(orders_numbers(op, a, b))),
        (ValueModel::String(a), ValueModel::String(b)) => Ok(logic(orders_texts(op, a, b))),
        _ => Err(order_complaint(op)),
    }
}

fn evaluate_order(left: &Value, right: &Value, op: BinaryOperator) -> (r: Result<Plan, Failure>)
    ensures
        plan_result(r) == ordered(op, left@, right@),
{
    match (left, right) {
        (Value::Number(a), Value::Number(b)) => Ok(
            Plan::Ready(
                Value::Logic(
                    match op {
                        BinaryOperator::Greater => is_less(*b, *a),
                        BinaryOperator::Less => is_less(*a, *b),
                        BinaryOperator::GreaterEqual => is_less_equal(*b, *a),
                        _ => is_less_equal(*a, *b),
                    },
                ),
            ),
        ),
        (Value::String(a), Value::String(b)) => Ok(
            Plan::Ready(
                Value::Logic(
                    match op {
                        BinaryOperator::Greater => is_text_less(b.as_str(), a.as_str()),
                        BinaryOperator::Less => is_text_less(a.as_str(), b.as_str()),
                        BinaryOperator::GreaterEqual => !is_text_less(a.as_str(), b.as_str()),
                        _ => !is_text_less(b.as_str(), a.as_str()),
                    },
                ),
            ),
        ),
        _ => Err(
            match op {
                BinaryOperator::Greater => throw_err("TypeError", "Greater-than requires comparable values"),
                BinaryOperator::Less => throw_err("TypeError", "Less-than requires comparable values"),
                BinaryOperator::GreaterEqual => throw_err("TypeError", "Greater-or-equal requires comparable values"),
                _ => throw_err("TypeError", "Less-or-equal requires comparable values"),
            },
        ),
    }
}

pub open spec fn logic(b: bool) -> PlanModel {
    PlanModel::Ready(ValueModel::Logic(b))
}

/// A binary operator on two values.
pub open spec fn binary_result(l: ValueModel, r: ValueModel, op: BinaryOperator) -> Result<PlanModel, FailureModel> {
    if spreads(op) {
        spread(op, l, r)
    } else {
        match op {
            BinaryOperator::Range => Err(
                throw_text("TypeError"@, "ranges (..) can only be iterated with for-in"@),
            ),
            BinaryOperator::Equal => Ok(logic(loosely_equal(l, r))),
            BinaryOperator::NotEqual => Ok(logic(!loosely_equal(l, r))),
            BinaryOperator::StrictEqual => Ok(logic(same_value(l, r))),
            BinaryOperator::StrictNotEqual => Ok(logic(!same_value(l, r))),
            BinaryOperator::And => Ok(logic(truthy(l) && truthy(r))),
            BinaryOperator::Or => Ok(logic(truthy(l) || truthy(r))),
            _ => ordered(op, l, r),
        }
    }
}

/// Applies a binary operator to two values.
pub fn evaluate_binary(left: &Value, right: &Value, op: BinaryOperator) -> (r: Result<Plan, Failure>)
    ensures
        plan_result(r) == binary_result(left@, right@, op),
{
    if is_spreading(op) {
        return evaluate_spread(left, right, op);
    }
    match op {
        BinaryOperator::Range => Err(throw_err("TypeError", "ranges (..) can only be iterated with for-in")),
        BinaryOperator::Equal => Ok(Plan::Ready(Value::Logic(is_loosely_equal(left, right)))),
        BinaryOperator::NotEqual => Ok(Plan::Ready(Value::Logic(!is_loosely_equal(left, right)))),
        BinaryOperator::StrictEqual => Ok(Plan::Ready(Value::Logic(values_equal(left, right)))),
        BinaryOperator::StrictNotEqual => Ok(Plan::Ready(Value::Logic(!values_equal(left, right)))),
        BinaryOperator::And => Ok(Plan::Ready(Value::Logic(is_truthy(left) && is_truthy(right)))),
        BinaryOperator::Or => Ok(Plan::Ready(Value::Logic(is_truthy(left) || is_truthy(right)))),
        _ => evaluate_order(left, right, op),
    }
}

/// `~` turns all bits of an integer `m` over, which gives `-1 - m`. Here it
/// is on the items of an array from `i` on, behind those of `done`.
pub open spec fn inverted(x: Seq<ValueModel>, i: int, done: Seq<PlanModel>) -> Result<PlanModel, FailureModel>
    decreases x.len() - i,
{
    if i < 0 || i >= x.len() {
        Ok(PlanModel::List(done))
    } else {
        match x[i] {
            ValueModel::Number(n) => match integer(n) {
                Err(e) => Err(e),
                Ok(m) => inverted(x, i + 1, done.push(PlanModel::Integer((-1 - m) as i64))),
            },
            other => Err(
                throw_model(
                    "TypeError"@,
                    seq![PieceModel::Text("~ requires numbers, got "@), PieceModel::Debug(other)],
                ),
            ),
        }
    }
}

/// A unary operator on a value.
pub open spec fn unary_result(v: ValueModel, op: UnaryOperator) -> Result<PlanModel, FailureModel> {
    match op {
        UnaryOperator::Not => Ok(logic(!truthy(v))),
        UnaryOperator::BitNot => match v {
            ValueModel::Number(n) => match integer(n) {
                Err(e) => Err(e),
                Ok(m) => Ok(PlanModel::Integer((-1 - m) as i64)),
            },
            ValueModel::Array(x) => inverted(x, 0, seq![]),
            other => Err(
                throw_model(
                    "TypeError"@,
                    seq![PieceModel::Text("~ requires a number, got "@), PieceModel::Debug(other)],
                ),
            ),
        },
    }
}

/// Applies a unary operator to a value.
pub fn evaluate_unary(v: &Value, op: UnaryOperator) -> (r: Result<Plan, Failure>)
    ensures
        plan_result(r) == unary_result(v@, op),
{
    if op == UnaryOperator::Not {
        return Ok(Plan::Ready(Value::Logic(!is_truthy(v))));
    }
    match v {
        Value::Number(n) => {
            let m: i64 = as_i64(*n)?;
            Ok(Plan::Integer(-1 - m))
        },
        Value::Array(items) => {
            let ghost x = values(items@);
            let mut done: Vec<Plan> = Vec::new();
            let mut i: usize = 0;
            assert(plans(done@) =~= seq![]);
            while i < items.len()
                invariant
                    i <= items@.len(),
                    x == values(items@),
                    inverted(x, i as int, plans(done@)) == unary_result(v@, op),
                decreases items@.len() - i,
            {
                match &items[i] {
                    Value::Number(n) => {
                        let ghost before = plans(done@);
                        let m: i64 = as_i64(*n)?;
                        let p = Plan::Integer(-1 - m);
                        done.push(p);
                        assert(plans(done@) =~= before.push(p@));
                    },
                    other => {
                        return Err(
                            throw_pieces("TypeError", text_2(text("~ requires numbers, got "), debug(other))),
                        );
                    },
                }
                i = i + 1;
            }
            Ok(Plan::List(done))
        },
        other => Err(throw_pieces("TypeError", text_2(text("~ requires a number, got "), debug(other)))),
    }
}

} // verus!
