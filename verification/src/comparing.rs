//! What the comparing and the logical operators say, and what `switch` takes for equal.

use crate::algebra::literal;
use crate::ast::{BinaryOperator, GuiKind, StatementModel, UnaryOperator, ValueModel};
use crate::number::{finite, magnitude, nan, negative, order_is_by_value, units, INFINITY, SIGN};
use crate::operators::{binary_result, text_before, text_less, unary_result};
use crate::outcomes::{says, throws};
use crate::show::{same_block, same_table, same_value, same_values, strictly_equal, truthy, type_of};
use crate::table::{distinct, keys, lemma_place, lemma_place_is, lookup};
use vstd::prelude::*;

verus! {

/// Whether the number `a` lies below the number `b` on the line from minus infinity to
/// infinity.
pub open spec fn below(a: u64, b: u64) -> bool {
    if nan(a) || nan(b) {
        false
    } else if finite(a) && finite(b) {
        units(a) < units(b)
    } else if a == INFINITY || b == INFINITY + SIGN {
        false
    } else {
        a == INFINITY + SIGN || b == INFINITY
    }
}

/// `<`, `>`, `<=` and `>=` order numbers by their values, and say no wherever one of the
/// two is not a number.
pub proof fn numbers_are_ordered_by_value(a: u64, b: u64)
    ensures
        says(binary_result(ValueModel::Number(a), ValueModel::Number(b), BinaryOperator::Less), below(a, b)),
        says(binary_result(ValueModel::Number(a), ValueModel::Number(b), BinaryOperator::Greater), below(b, a)),
        says(
            binary_result(ValueModel::Number(a), ValueModel::Number(b), BinaryOperator::GreaterEqual),
            !nan(a) && !nan(b) && !below(a, b),
        ),
        says(
            binary_result(ValueModel::Number(a), ValueModel::Number(b), BinaryOperator::LessEqual),
            !nan(a) && !nan(b) && !below(b, a),
        ),
{
    if finite(a) && finite(b) {
        order_is_by_value(a, b);
    }
}

/// What `>=` says of two numbers that are numbers is the opposite of what `<` says, `<=` the
/// opposite of `>`; `>` is `<` the other way round.
pub proof fn orders_are_opposites(a: u64, b: u64, less: bool, greater: bool)
    requires
        !nan(a),
        !nan(b),
        says(binary_result(ValueModel::Number(a), ValueModel::Number(b), BinaryOperator::Less), less),
        says(binary_result(ValueModel::Number(a), ValueModel::Number(b), BinaryOperator::Greater), greater),
    ensures
        says(binary_result(ValueModel::Number(a), ValueModel::Number(b), BinaryOperator::GreaterEqual), !less),
        says(binary_result(ValueModel::Number(a), ValueModel::Number(b), BinaryOperator::LessEqual), !greater),
        says(binary_result(ValueModel::Number(b), ValueModel::Number(a), BinaryOperator::Less), greater),
        !(less && greater),
{
    numbers_are_ordered_by_value(a, b);
    numbers_are_ordered_by_value(b, a);
}

/// Whether `a` comes before `b` in the dictionary: at the first place where they differ it
/// has the smaller character, or it ends there.
pub open spec fn precedes(a: Seq<char>, b: Seq<char>) -> bool {
    exists|k: int| #[trigger] parts_at(a, b, k) && k < b.len() && (k == a.len() || a[k] < b[k])
}

/// Whether two texts are alike in front of `k`, where one of them ends or they differ.
pub open spec fn parts_at(a: Seq<char>, b: Seq<char>, k: int) -> bool {
    &&& 0 <= k <= a.len()
    &&& k <= b.len()
    &&& forall|i: int| 0 <= i < k ==> a[i] == b[i]
    &&& k == a.len() || k == b.len() || a[k] != b[k]
}

proof fn lemma_precedes(a: Seq<char>, b: Seq<char>, i: int)
    requires
        0 <= i <= a.len(),
        i <= b.len(),
        forall|k: int| 0 <= k < i ==> a[k] == b[k],
    ensures
        text_before(a, b, i) == precedes(a, b),
    decreases a.len() - i,
{
    if i < a.len() && i < b.len() && a[i] == b[i] {
        lemma_precedes(a, b, i + 1);
    } else {
        assert(parts_at(a, b, i));
        if precedes(a, b) {
            let k = choose|k: int| #[trigger] parts_at(a, b, k) && k < b.len() && (k == a.len() || a[k] < b[k]);
            assert(k == i);
        }
    }
}

/// A text is less than another where it comes before it in the dictionary.
pub proof fn text_order_is_the_dictionary(a: Seq<char>, b: Seq<char>)
    ensures
        text_less(a, b) == precedes(a, b),
{
    lemma_precedes(a, b, 0);
}

/// `<`, `>`, `<=` and `>=` order strings as the dictionary does.
pub proof fn strings_are_ordered_by_dictionary(a: Seq<char>, b: Seq<char>)
    ensures
        says(binary_result(ValueModel::String(a), ValueModel::String(b), BinaryOperator::Less), precedes(a, b)),
        says(binary_result(ValueModel::String(a), ValueModel::String(b), BinaryOperator::Greater), precedes(b, a)),
        says(
            binary_result(ValueModel::String(a), ValueModel::String(b), BinaryOperator::GreaterEqual),
            !precedes(a, b),
        ),
        says(binary_result(ValueModel::String(a), ValueModel::String(b), BinaryOperator::LessEqual), !precedes(b, a)),
{
    lemma_precedes(a, b, 0);
    lemma_precedes(b, a, 0);
}

/// Whether the operator orders.
pub open spec fn ordering(op: BinaryOperator) -> bool {
    op is Less || op is Greater || op is LessEqual || op is GreaterEqual
}

/// Nothing but two numbers or two strings has an order.
pub proof fn other_values_have_no_order(l: ValueModel, r: ValueModel, op: BinaryOperator)
    requires
        ordering(op),
        !(l is Number && r is Number),
        !(l is String && r is String),
    ensures
        throws(binary_result(l, r, op), "TypeError"@),
{
}

/// What `===` says of two values.
pub open spec fn strict(l: ValueModel, r: ValueModel) -> bool {
    says(binary_result(l, r, BinaryOperator::StrictEqual), true)
}

/// What `==` says of two values.
pub open spec fn loose(l: ValueModel, r: ValueModel) -> bool {
    says(binary_result(l, r, BinaryOperator::Equal), true)
}

/// `===` and `==` say yes or no of any two values, and `!==` and `!=` the opposite.
pub proof fn equality_is_decided(l: ValueModel, r: ValueModel)
    ensures
        says(binary_result(l, r, BinaryOperator::StrictEqual), strict(l, r)),
        says(binary_result(l, r, BinaryOperator::StrictNotEqual), !strict(l, r)),
        says(binary_result(l, r, BinaryOperator::Equal), loose(l, r)),
        says(binary_result(l, r, BinaryOperator::NotEqual), !loose(l, r)),
{
}

/// Two numbers are strictly equal where neither lies below the other and both are numbers;
/// two strings where they have the same characters; two truth values where they are the
/// same; null equals null. What is of another kind is never equal.
pub proof fn plain_values_are_equal_by_content(x: u64, y: u64, a: Seq<char>, b: Seq<char>, p: bool, q: bool)
    ensures
        strict(ValueModel::Number(x), ValueModel::Number(y)) <==> !nan(x) && !nan(y) && !below(x, y) && !below(y, x),
        strict(ValueModel::String(a), ValueModel::String(b)) <==> a == b,
        strict(ValueModel::Logic(p), ValueModel::Logic(q)) <==> p == q,
        strict(ValueModel::Null, ValueModel::Null),
        !strict(ValueModel::Number(x), ValueModel::String(a)),
        !strict(ValueModel::String(a), ValueModel::Number(x)),
        !strict(ValueModel::Number(x), ValueModel::Logic(p)),
        !strict(ValueModel::Logic(p), ValueModel::Number(x)),
        !strict(ValueModel::String(a), ValueModel::Logic(p)),
        !strict(ValueModel::Logic(p), ValueModel::String(a)),
        !strict(ValueModel::Null, ValueModel::Number(x)),
        !strict(ValueModel::Null, ValueModel::String(a)),
        !strict(ValueModel::Null, ValueModel::Logic(p)),
        !strict(ValueModel::Number(x), ValueModel::Null),
        !strict(ValueModel::String(a), ValueModel::Null),
        !strict(ValueModel::Logic(p), ValueModel::Null),
{
    if finite(x) && finite(y) {
        order_is_by_value(x, y);
    }
}

/// A plain value equals no array, no object and no error.
pub proof fn plain_value_equals_no_collection(v: ValueModel, w: ValueModel)
    requires
        literal(v),
        w is Array || w is Object || w is Error || w is File || w is Db || w is Gui || w is Function,
    ensures
        !strict(v, w),
        !strict(w, v),
        !loose(v, w),
        !loose(w, v),
        !strictly_equal(v, w),
        !strictly_equal(w, v),
{
}

/// Two arrays are strictly equal where they have as many items and each item equals the one
/// in its place.
pub proof fn arrays_are_equal_item_by_item(x: Seq<ValueModel>, y: Seq<ValueModel>)
    ensures
        strict(ValueModel::Array(x), ValueModel::Array(y)) <==> x.len() == y.len() && (forall|i: int|
            0 <= i < x.len() ==> strict(#[trigger] x[i], y[i])),
{
    reveal_with_fuel(same_value, 2);
    assert(strict(ValueModel::Array(x), ValueModel::Array(y)) == same_values(x, y));
    assert forall|i: int| 0 <= i < x.len() implies strict(#[trigger] x[i], y[i]) == same_value(
        x[i],
        y[i],
    ) by {}
    if x.len() == y.len() && (forall|i: int| 0 <= i < x.len() ==> strict(#[trigger] x[i], y[i])) {
        assert forall|i: int| 0 <= i < x.len() implies same_value(#[trigger] x[i], y[i]) by {
            assert(strict(x[i], y[i]));
        }
    }
}

/// Whether some entry has this key and a value that equals `v`.
pub open spec fn has_equal_entry(t: Seq<(Seq<char>, ValueModel)>, key: Seq<char>, v: ValueModel) -> bool {
    exists|j: int| 0 <= j < t.len() && (#[trigger] t[j]).0 == key && strict(v, t[j].1)
}

/// Two objects are strictly equal where they have as many entries and each entry of the one
/// has its equal, under the same key, in the other, wherever it stands.
pub proof fn objects_are_equal_key_by_key(x: Seq<(Seq<char>, ValueModel)>, y: Seq<(Seq<char>, ValueModel)>)
    requires
        distinct(keys(y)),
    ensures
        strict(ValueModel::Object(x), ValueModel::Object(y)) <==> x.len() == y.len() && (forall|i: int|
            0 <= i < x.len() ==> has_equal_entry(y, (#[trigger] x[i]).0, x[i].1)),
{
    reveal_with_fuel(same_value, 2);
    assert(strict(ValueModel::Object(x), ValueModel::Object(y)) == same_table(x, y));
    assert forall|i: int| 0 <= i < x.len() implies has_equal_entry(y, (#[trigger] x[i]).0, x[i].1) == (lookup(
        y,
        x[i].0,
    ) is Some && same_value(x[i].1, lookup(y, x[i].0)->0)) by {
        let key = x[i].0;
        lemma_place(keys(y), key, 0);
        if has_equal_entry(y, key, x[i].1) {
            let j = choose|j: int| 0 <= j < y.len() && (#[trigger] y[j]).0 == key && strict(x[i].1, y[j].1);
            assert(keys(y)[j] == key);
            lemma_place_is(keys(y), key, 0, j);
        } else if let Some(k) = crate::table::place(keys(y), key) {
            assert(y[k].0 == key);
        }
    }
}

/// Two errors are strictly equal where type and message are.
pub proof fn errors_are_equal_by_type_and_message(
    t: Seq<char>,
    m: Seq<char>,
    u: Seq<char>,
    n: Seq<char>,
)
    ensures
        strict(
            ValueModel::Error { error_type: t, message: m },
            ValueModel::Error { error_type: u, message: n },
        ) <==> t == u && m == n,
{
}

/// Files are equal by their paths, databases and widgets by their handles, and functions by
/// their parameters, defaults and bodies.
pub proof fn handles_and_functions_are_equal_by_content(
    a: Seq<char>,
    b: Seq<char>,
    x: u64,
    y: u64,
    k: GuiKind,
    l: GuiKind,
    p: Seq<Seq<char>>,
    q: Seq<Seq<char>>,
    d: Seq<(Seq<char>, ValueModel)>,
    e: Seq<(Seq<char>, ValueModel)>,
    f: Seq<StatementModel>,
    g: Seq<StatementModel>,
)
    ensures
        strict(ValueModel::File { path: a }, ValueModel::File { path: b }) <==> a == b,
        strict(ValueModel::Db { id: x }, ValueModel::Db { id: y }) <==> x == y,
        strict(ValueModel::Gui { kind: k, id: x }, ValueModel::Gui { kind: l, id: y }) <==> k == l && x == y,
        ({
            let one = ValueModel::Function { params: p, defaults: d, body: f };
            let other = ValueModel::Function { params: q, defaults: e, body: g };
            &&& strict(one, other) ==> p == q && d.len() == e.len() && f.len() == g.len()
            &&& d.len() == 0 && e.len() == 0 && f.len() == 0 && g.len() == 0 ==> (strict(one, other) <==> p == q)
        }),
{
    reveal_with_fuel(same_value, 2);
    reveal_with_fuel(same_table, 2);
    reveal_with_fuel(same_block, 2);
}

/// Values of different types are never equal.
pub proof fn equal_values_have_one_type(l: ValueModel, r: ValueModel)
    ensures
        strict(l, r) || loose(l, r) || strictly_equal(l, r) ==> type_of(l) == type_of(r),
{
    reveal_with_fuel(same_value, 2);
}

/// What a case takes for equal is what `===` takes for equal, among plain values, arrays,
/// objects and errors; of other kinds no case matches.
pub proof fn cases_match_what_is_strictly_equal(subject: ValueModel, v: ValueModel)
    ensures
        literal(subject) || subject is Array || subject is Object || subject is Error ==> strictly_equal(subject, v)
            == strict(subject, v),
        !(literal(subject) || subject is Array || subject is Object || subject is Error) ==> !strictly_equal(
            subject,
            v,
        ),
{
}

/// A case for a truth value matches that truth value only; one for a string the same
/// characters only; one for a number the same number only.
pub proof fn cases_match_by_content(p: bool, q: bool, a: Seq<char>, b: Seq<char>, x: u64, y: u64)
    ensures
        strictly_equal(ValueModel::Logic(p), ValueModel::Logic(q)) <==> p == q,
        strictly_equal(ValueModel::String(a), ValueModel::String(b)) <==> a == b,
        finite(x) && finite(y) ==> (strictly_equal(ValueModel::Number(x), ValueModel::Number(y)) <==> units(x)
            == units(y)),
        nan(x) || nan(y) ==> !strictly_equal(ValueModel::Number(x), ValueModel::Number(y)),
        strictly_equal(ValueModel::Null, ValueModel::Null),
{
    if finite(x) && finite(y) {
        order_is_by_value(x, y);
    }
}

/// Whether two characters are the same, or the same ASCII letter in upper and lower case.
pub open spec fn same_letter(a: char, b: char) -> bool {
    a == b || ('A' <= a && a <= 'Z' && b as u32 == a as u32 + 32) || ('A' <= b && b <= 'Z' && a as u32 == b as u32 + 32)
}

proof fn lemma_same_letter(a: char, b: char)
    ensures
        (crate::operators::lower(a) == crate::operators::lower(b)) == same_letter(a, b),
{
}

/// `==` takes two strings for equal where they differ only in the case of ASCII letters; any
/// other values where they are strictly equal.
pub proof fn loose_equality_ignores_case_only(a: Seq<char>, b: Seq<char>, l: ValueModel, r: ValueModel)
    ensures
        loose(ValueModel::String(a), ValueModel::String(b)) <==> a.len() == b.len() && (forall|i: int|
            0 <= i < a.len() ==> same_letter(#[trigger] a[i], b[i])),
        !(l is String && r is String) ==> loose(l, r) == strict(l, r),
{
    assert forall|i: int| 0 <= i < a.len() && a.len() == b.len() implies (crate::operators::lower(#[trigger] a[i])
        == crate::operators::lower(b[i])) == same_letter(a[i], b[i]) by {
        lemma_same_letter(a[i], b[i]);
    }
    if a.len() == b.len() && (forall|i: int| 0 <= i < a.len() ==> same_letter(#[trigger] a[i], b[i])) {
        assert forall|i: int| 0 <= i < a.len() implies crate::operators::lower(#[trigger] a[i])
            == crate::operators::lower(b[i]) by {
            assert(same_letter(a[i], b[i]));
        }
        assert(loose(ValueModel::String(a), ValueModel::String(b)));
    } else if loose(ValueModel::String(a), ValueModel::String(b)) {
        assert forall|i: int| 0 <= i < a.len() implies same_letter(#[trigger] a[i], b[i]) by {
            assert(crate::operators::lower(a[i]) == crate::operators::lower(b[i]));
        }
    }
}

/// Whether a value counts as no: false, null, the empty string and zero.
pub open spec fn counts_as_no(v: ValueModel) -> bool {
    ||| v == ValueModel::Logic(false)
    ||| v is Null
    ||| v matches ValueModel::String(s) && s.len() == 0
    ||| v matches ValueModel::Number(n) && finite(n) && units(n) == 0
}

/// A condition holds for every value but false, null, the empty string and zero, and the
/// logical operators go by that.
pub proof fn conditions_fail_on_empty_values(l: ValueModel, r: ValueModel)
    ensures
        truthy(l) == !counts_as_no(l),
        says(binary_result(l, r, BinaryOperator::And), !counts_as_no(l) && !counts_as_no(r)),
        says(binary_result(l, r, BinaryOperator::Or), !counts_as_no(l) || !counts_as_no(r)),
        says(unary_result(l, UnaryOperator::Not), counts_as_no(l)),
{
    lemma_truthy(l);
    lemma_truthy(r);
}

proof fn lemma_truthy(v: ValueModel)
    ensures
        truthy(v) == !counts_as_no(v),
{
    if let ValueModel::Number(n) = v {
        if finite(n) {
            order_is_by_value(n, 0);
            assert(units(0) == 0) by {
                order_is_by_value(0, SIGN);
                assert(units(0) == -units(SIGN)) by {
                    assert(magnitude(0) == 0 && magnitude(SIGN) == 0);
                    assert(negative(SIGN) && !negative(0));
                }
            }
        }
    }
}

/// `not`, `and` and `or` hang together as in logic: what is not both is one or the other not.
pub proof fn logic_operators_are_dual(l: ValueModel, r: ValueModel, p: bool, q: bool)
    requires
        says(unary_result(l, UnaryOperator::Not), p),
        says(unary_result(r, UnaryOperator::Not), q),
    ensures
        says(binary_result(l, r, BinaryOperator::And), !(p || q)),
        says(binary_result(l, r, BinaryOperator::Or), !(p && q)),
{
    conditions_fail_on_empty_values(l, r);
}

} // verus!
