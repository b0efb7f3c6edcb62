//! Sorting: stable, by insertion.

use crate::ast::{entries, texts, values, Value, ValueModel};
use crate::number::{is_less, less, nan};
use crate::operators::{is_text_less, text_before, text_less};
use vstd::prelude::*;

verus! {

/// Where an item goes among the first `n` of a sorted list: behind all that are
/// not greater.
pub open spec fn slot<T>(s: Seq<T>, x: T, before: spec_fn(T, T) -> bool, n: int) -> int
    decreases n,
{
    if n <= 0 || n > s.len() {
        0
    } else if before(x, s[n - 1]) {
        slot(s, x, before, n - 1)
    } else {
        n
    }
}

/// The first `n` items in order.
pub open spec fn sorted<T>(s: Seq<T>, before: spec_fn(T, T) -> bool, n: int) -> Seq<T>
    decreases n,
{
    if n <= 0 || n > s.len() {
        seq![]
    } else {
        let rest = sorted(s, before, n - 1);
        rest.insert(slot(rest, s[n - 1], before, rest.len() as int), s[n - 1])
    }
}

pub open spec fn text_order() -> spec_fn(Seq<char>, Seq<char>) -> bool {
    |a: Seq<char>, b: Seq<char>| text_less(a, b)
}

/// The texts in order.
pub open spec fn sorted_texts(s: Seq<Seq<char>>) -> Seq<Seq<char>> {
    sorted(s, text_order(), s.len() as int)
}

pub open spec fn key_order() -> spec_fn((Seq<char>, ValueModel), (Seq<char>, ValueModel)) -> bool {
    |a: (Seq<char>, ValueModel), b: (Seq<char>, ValueModel)| text_less(a.0, b.0)
}

/// The entries in the order of their keys.
pub open spec fn sorted_entries(s: Seq<(Seq<char>, ValueModel)>) -> Seq<(Seq<char>, ValueModel)> {
    sorted(s, key_order(), s.len() as int)
}

/// The order of values of one kind: numbers by value, strings as in the
/// dictionary.
pub open spec fn value_order() -> spec_fn(ValueModel, ValueModel) -> bool {
    |a: ValueModel, b: ValueModel|
        match (a, b) {
            (ValueModel::Number(x), ValueModel::Number(y)) => less(x, y),
            (ValueModel::String(x), ValueModel::String(y)) => text_less(x, y),
            _ => false,
        }
}

/// The values in order.
pub open spec fn sorted_values(s: Seq<ValueModel>) -> Seq<ValueModel> {
    sorted(s, value_order(), s.len() as int)
}

pub proof fn lemma_slot<T>(s: Seq<T>, x: T, before: spec_fn(T, T) -> bool, n: int)
    requires
        0 <= n <= s.len(),
    ensures
        0 <= slot(s, x, before, n) <= n,
    decreases n,
{
    if n > 0 && before(x, s[n - 1]) {
        lemma_slot(s, x, before, n - 1);
    }
}

/// Sorting keeps every item, and the number of times it occurs.
pub proof fn sorting_permutes<T>(s: Seq<T>, before: spec_fn(T, T) -> bool, n: int)
    requires
        0 <= n <= s.len(),
    ensures
        sorted(s, before, n).to_multiset() == s.take(n).to_multiset(),
        sorted(s, before, n).len() == n,
    decreases n,
{
    broadcast use vstd::seq_lib::group_to_multiset_ensures;

    if n == 0 {
        assert(s.take(0) =~= seq![]);
    } else {
        sorting_permutes(s, before, n - 1);
        let rest = sorted(s, before, n - 1);
        let k = slot(rest, s[n - 1], before, rest.len() as int);
        lemma_slot(rest, s[n - 1], before, rest.len() as int);
        assert(s.take(n) =~= s.take(n - 1).push(s[n - 1]));
        lemma_insert(rest, k, s[n - 1]);
    }
}

proof fn lemma_insert<T>(s: Seq<T>, k: int, x: T)
    requires
        0 <= k <= s.len(),
    ensures
        s.insert(k, x).to_multiset() == s.to_multiset().insert(x),
{
    broadcast use vstd::seq_lib::group_to_multiset_ensures;

    assert(s.insert(k, x) =~= s.take(k).push(x) + s.skip(k));
    assert(s =~= s.take(k) + s.skip(k));
    vstd::seq_lib::lemma_multiset_commutative(s.take(k).push(x), s.skip(k));
    vstd::seq_lib::lemma_multiset_commutative(s.take(k), s.skip(k));
    assert(s.insert(k, x).to_multiset() =~= s.to_multiset().insert(x));
}

/// Whether `before` orders the items that are `fit`: what is before one item is
/// before all that are not before that one, and no two are each before the other.
pub open spec fn orders<T>(before: spec_fn(T, T) -> bool, fit: spec_fn(T) -> bool) -> bool {
    &&& forall|a: T, b: T, c: T|
        fit(a) && fit(b) && fit(c) && #[trigger] before(a, b) && !(#[trigger] before(c, b)) ==> before(a, c)
    &&& forall|a: T, b: T| fit(a) && fit(b) && #[trigger] before(a, b) ==> !before(b, a)
}

/// Sorting puts the items in order, for an order of these items.
pub proof fn sorting_orders<T>(s: Seq<T>, before: spec_fn(T, T) -> bool, fit: spec_fn(T) -> bool, n: int)
    requires
        0 <= n <= s.len(),
        orders(before, fit),
        forall|i: int| 0 <= i < s.len() ==> fit(#[trigger] s[i]),
    ensures
        forall|i: int| 0 <= i < sorted(s, before, n).len() ==> fit(#[trigger] sorted(s, before, n)[i]),
        forall|i: int, j: int|
            0 <= i < j < sorted(s, before, n).len() ==> !before(
                #[trigger] sorted(s, before, n)[j],
                #[trigger] sorted(s, before, n)[i],
            ),
    decreases n,
{
    if n > 0 {
        sorting_orders(s, before, fit, n - 1);
        let rest = sorted(s, before, n - 1);
        let x = s[n - 1];
        let k = slot(rest, x, before, rest.len() as int);
        let all = sorted(s, before, n);
        lemma_slot(rest, x, before, rest.len() as int);
        lemma_slot_splits(rest, x, before, fit, rest.len() as int);
        assert forall|i: int| 0 <= i < all.len() implies fit(#[trigger] all[i]) by {
            if i < k {
                assert(all[i] == rest[i]);
            } else if i > k {
                assert(all[i] == rest[i - 1]);
            }
        }
        assert forall|i: int, j: int| 0 <= i < j < all.len() implies !before(
            #[trigger] all[j],
            #[trigger] all[i],
        ) by {
            let ri = if i < k {
                i
            } else {
                i - 1
            };
            let rj = if j < k {
                j
            } else {
                j - 1
            };
            if j == k {
                assert(all[i] == rest[i]);
            } else if i == k {
                assert(all[j] == rest[rj]);
                assert(before(x, rest[rj]));
            } else {
                assert(all[i] == rest[ri]);
                assert(all[j] == rest[rj]);
            }
        }
    }
}

/// In a list in order, an item is not before those in front of its slot, and
/// before those behind it.
proof fn lemma_slot_splits<T>(s: Seq<T>, x: T, before: spec_fn(T, T) -> bool, fit: spec_fn(T) -> bool, n: int)
    requires
        0 <= n <= s.len(),
        orders(before, fit),
        fit(x),
        forall|i: int| 0 <= i < s.len() ==> fit(#[trigger] s[i]),
        forall|i: int, j: int| 0 <= i < j < s.len() ==> !before(#[trigger] s[j], #[trigger] s[i]),
        forall|i: int| n <= i < s.len() ==> before(x, #[trigger] s[i]),
    ensures
        forall|i: int| 0 <= i < slot(s, x, before, n) ==> !before(x, #[trigger] s[i]),
        forall|i: int| slot(s, x, before, n) <= i < s.len() ==> before(x, #[trigger] s[i]),
    decreases n,
{
    if n > 0 {
        if before(x, s[n - 1]) {
            lemma_slot_splits(s, x, before, fit, n - 1);
        } else {
            assert forall|i: int| 0 <= i < n implies !before(x, #[trigger] s[i]) by {
                if before(x, s[i]) && i < n - 1 {
                    assert(!before(s[n - 1], s[i]));
                    assert(before(x, s[n - 1]));
                }
            }
        }
    }
}

/// Sorts the texts.
pub fn sort_texts(items: &Vec<String>) -> (r: Vec<String>)
    ensures
        texts(r@) == sorted_texts(texts(items@)),
{
    let ghost all = texts(items@);
    let mut done: Vec<String> = Vec::new();
    let mut n: usize = 0;
    assert(texts(done@) =~= sorted(all, text_order(), 0));
    while n < items.len()
        invariant
            n <= items@.len(),
            all == texts(items@),
            texts(done@) == sorted(all, text_order(), n as int),
        decreases items@.len() - n,
    {
        let ghost rest = texts(done@);
        let x = items[n].clone();
        let mut k: usize = done.len();
        while k > 0 && is_text_less(x.as_str(), done[k - 1].as_str())
            invariant
                k <= done@.len(),
                rest == texts(done@),
                slot(rest, x@, text_order(), k as int) == slot(rest, x@, text_order(), rest.len() as int),
            decreases k,
        {
            k = k - 1;
        }
        done.insert(k, x);
        assert(texts(done@) =~= rest.insert(k as int, x@));
        n = n + 1;
    }
    done
}

pub open spec fn id_order() -> spec_fn(u64, u64) -> bool {
    |a: u64, b: u64| a < b
}

/// The numbers in order.
pub open spec fn sorted_ids(s: Seq<u64>) -> Seq<u64> {
    sorted(s, id_order(), s.len() as int)
}

/// Sorts the numbers.
pub fn sort_ids(items: &Vec<u64>) -> (r: Vec<u64>)
    ensures
        r@ == sorted_ids(items@),
{
    let mut done: Vec<u64> = Vec::new();
    let mut n: usize = 0;
    assert(done@ =~= sorted(items@, id_order(), 0));
    while n < items.len()
        invariant
            n <= items@.len(),
            done@ == sorted(items@, id_order(), n as int),
        decreases items@.len() - n,
    {
        let ghost rest = done@;
        let x: u64 = items[n];
        let mut k: usize = done.len();
        while k > 0 && x < done[k - 1]
            invariant
                k <= done@.len(),
                rest == done@,
                slot(rest, x, id_order(), k as int) == slot(rest, x, id_order(), rest.len() as int),
            decreases k,
        {
            k = k - 1;
        }
        done.insert(k, x);
        assert(done@ =~= rest.insert(k as int, x));
        n = n + 1;
    }
    done
}

/// Sorts the entries by their keys.
pub fn sort_entries(items: &Vec<(String, Value)>) -> (r: Vec<(String, Value)>)
    ensures
        entries(r@) == sorted_entries(entries(items@)),
{
    let ghost all = entries(items@);
    let mut done: Vec<(String, Value)> = Vec::new();
    let mut n: usize = 0;
    assert(entries(done@) =~= sorted(all, key_order(), 0));
    while n < items.len()
        invariant
            n <= items@.len(),
            all == entries(items@),
            entries(done@) == sorted(all, key_order(), n as int),
        decreases items@.len() - n,
    {
        let ghost rest = entries(done@);
        let x = (items[n].0.clone(), items[n].1.copy());
        let mut k: usize = done.len();
        while k > 0 && is_text_less(x.0.as_str(), done[k - 1].0.as_str())
            invariant
                k <= done@.len(),
                rest == entries(done@),
                slot(rest, (x.0@, x.1@), key_order(), k as int) == slot(
                    rest,
                    (x.0@, x.1@),
                    key_order(),
                    rest.len() as int,
                ),
            decreases k,
        {
            k = k - 1;
        }
        done.insert(k, x);
        assert(entries(done@) =~= rest.insert(k as int, (x.0@, x.1@)));
        n = n + 1;
    }
    done
}

fn comes_before(a: &Value, b: &Value) -> (r: bool)
    ensures
        r == value_order()(a@, b@),
{
    match (a, b) {
        (Value::Number(x), Value::Number(y)) => is_less(*x, *y),
        (Value::String(x), Value::String(y)) => is_text_less(x.as_str(), y.as_str()),
        _ => false,
    }
}

/// Sorts the values.
pub fn sort_values(items: &Vec<Value>) -> (r: Vec<Value>)
    ensures
        values(r@) == sorted_values(values(items@)),
{
    let ghost all = values(items@);
    let mut done: Vec<Value> = Vec::new();
    let mut n: usize = 0;
    assert(values(done@) =~= sorted(all, value_order(), 0));
    while n < items.len()
        invariant
            n <= items@.len(),
            all == values(items@),
            values(done@) == sorted(all, value_order(), n as int),
        decreases items@.len() - n,
    {
        let ghost rest = values(done@);
        let x = items[n].copy();
        let mut k: usize = done.len();
        while k > 0 && comes_before(&x, &done[k - 1])
            invariant
                k <= done@.len(),
                rest == values(done@),
                slot(rest, x@, value_order(), k as int) == slot(rest, x@, value_order(), rest.len() as int),
            decreases k,
        {
            k = k - 1;
        }
        done.insert(k, x);
        assert(values(done@) =~= rest.insert(k as int, x@));
        n = n + 1;
    }
    done
}

/// The dictionary orders the texts.
pub proof fn lemma_text_order(a: Seq<char>, b: Seq<char>, c: Seq<char>, i: int)
    requires
        0 <= i <= a.len(),
        i <= b.len(),
        i <= c.len(),
    ensures
        text_before(a, b, i) ==> !text_before(b, a, i),
        text_before(a, b, i) && !text_before(c, b, i) ==> text_before(a, c, i),
    decreases a.len() - i,
{
    if i < a.len() && i < b.len() && i < c.len() && a[i] == b[i] && b[i] == c[i] {
        lemma_text_order(a, b, c, i + 1);
    } else if i < a.len() && i < b.len() && a[i] == b[i] {
        lemma_text_order(a, b, b, i + 1);
    }
}

/// An array of numbers, none of them NaN, is sorted by value; an array of
/// strings as in the dictionary.
pub proof fn sorted_array_ascends(s: Seq<ValueModel>)
    requires
        (forall|i: int| 0 <= i < s.len() ==> (#[trigger] s[i] matches ValueModel::Number(n) && !nan(n))) || (forall|i: int|
            0 <= i < s.len() ==> (#[trigger] s[i]) is String),
    ensures
        forall|i: int, j: int|
            0 <= i < j < sorted_values(s).len() ==> !value_order()(
                #[trigger] sorted_values(s)[j],
                #[trigger] sorted_values(s)[i],
            ),
{
    if forall|i: int| 0 <= i < s.len() ==> (#[trigger] s[i]) is String {
        let fit = |v: ValueModel| v is String;
        assert forall|a: ValueModel, b: ValueModel, c: ValueModel|
            fit(a) && fit(b) && fit(c) && #[trigger] value_order()(a, b) && !(#[trigger] value_order()(c, b)) implies
            value_order()(a, c) by {
            lemma_text_order(a->String_0, b->String_0, c->String_0, 0);
        }
        assert forall|a: ValueModel, b: ValueModel| fit(a) && fit(b) && #[trigger] value_order()(a, b) implies
            !value_order()(b, a) by {
            lemma_text_order(a->String_0, b->String_0, b->String_0, 0);
        }
        sorting_orders(s, value_order(), fit, s.len() as int);
    } else {
        let fit = |v: ValueModel| v is Number && !nan(v->Number_0);
        assert(orders(value_order(), fit));
        sorting_orders(s, value_order(), fit, s.len() as int);
    }
}

} // verus!
