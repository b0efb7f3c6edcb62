//! What the functions of `arr` do.

use crate::arrlib::arr_function;
use crate::ast::ValueModel;
use crate::comparing::{below, numbers_are_ordered_by_value, precedes, strict, text_order_is_the_dictionary};
use crate::draft::{FailureModel, PlanModel};
use crate::number::{nan, truncated};
use crate::outcomes::{counts, gives, throws};
use crate::request::EffectModel;
use crate::show::shown;
use crate::sort::{
    orders, sorted_array_ascends, sorted_texts, sorted_values, sorting_orders, sorting_permutes, text_order,
    value_order,
};
use crate::summing::fits_in_bits;
use crate::table::{keys, lemma_place};
use vstd::prelude::*;

verus! {

/// How the names of the functions of `arr` are spelled, as far as it tells them apart.
pub proof fn lemma_names()
    ensures
        "Len"@.len() == 3 && "Len"@[0] == 'L',
        "Pop"@.len() == 3 && "Pop"@[0] == 'P',
        "Reverse"@.len() == 7,
        "Sort"@.len() == 4 && "Sort"@[0] == 'S',
        "Push"@.len() == 4 && "Push"@[0] == 'P',
        "Join"@.len() == 4 && "Join"@[0] == 'J',
        "Keys"@.len() == 4 && "Keys"@[0] == 'K',
        "Has"@.len() == 3 && "Has"@[0] == 'H',
        "Get"@.len() == 3 && "Get"@[0] == 'G',
        "Slice"@.len() == 5,
{
    reveal_strlit("Len");
    reveal_strlit("Pop");
    reveal_strlit("Reverse");
    reveal_strlit("Sort");
    reveal_strlit("Push");
    reveal_strlit("Join");
    reveal_strlit("Keys");
    reveal_strlit("Has");
    reveal_strlit("Get");
    reveal_strlit("Slice");
}

/// `Len` counts the items.
pub proof fn len_counts_items(xs: Seq<ValueModel>)
    ensures
        counts(arr_function("Len"@, seq![ValueModel::Array(xs)]), xs.len()),
{
    lemma_names();
}

/// `Push` puts the value behind all items and changes nothing else.
pub proof fn push_adds_at_the_end(xs: Seq<ValueModel>, v: ValueModel, ys: Seq<ValueModel>)
    requires
        ys.len() == xs.len() + 1,
        forall|k: int| 0 <= k < xs.len() ==> ys[k] == xs[k],
        ys[xs.len() as int] == v,
    ensures
        gives(arr_function("Push"@, seq![ValueModel::Array(xs), v]), ValueModel::Array(ys)),
{
    lemma_names();
    assert(ys =~= xs.push(v));
}

/// `Pop` takes the last item away and leaves the others in their places: it undoes `Push`.
pub proof fn pop_undoes_push(xs: Seq<ValueModel>, v: ValueModel, ys: Seq<ValueModel>)
    requires
        gives(arr_function("Push"@, seq![ValueModel::Array(xs), v]), ValueModel::Array(ys)),
    ensures
        gives(arr_function("Pop"@, seq![ValueModel::Array(ys)]), ValueModel::Array(xs)),
{
    lemma_names();
    assert(ys == xs.push(v));
    assert(ys.drop_last() =~= xs);
}

/// What `Pop` leaves: one item less, each in its place.
pub proof fn pop_removes_the_last_item(xs: Seq<ValueModel>, ys: Seq<ValueModel>)
    requires
        xs.len() == ys.len() + 1,
        forall|k: int| 0 <= k < ys.len() ==> ys[k] == xs[k],
    ensures
        gives(arr_function("Pop"@, seq![ValueModel::Array(xs)]), ValueModel::Array(ys)),
{
    lemma_names();
    assert(ys =~= xs.drop_last());
}

/// Nothing can be popped from an empty array.
pub proof fn pop_needs_an_item()
    ensures
        throws(arr_function("Pop"@, seq![ValueModel::Array(seq![])]), "IndexError"@),
{
    lemma_names();
}

/// `Reverse` puts the last item first, and so on; twice, it gives the array back.
pub proof fn reverse_turns_the_order(xs: Seq<ValueModel>, ys: Seq<ValueModel>)
    requires
        ys.len() == xs.len(),
        forall|k: int| 0 <= k < xs.len() ==> ys[k] == xs[xs.len() - 1 - k],
    ensures
        gives(arr_function("Reverse"@, seq![ValueModel::Array(xs)]), ValueModel::Array(ys)),
        gives(arr_function("Reverse"@, seq![ValueModel::Array(ys)]), ValueModel::Array(xs)),
{
    lemma_names();
    assert(ys =~= xs.reverse());
    assert(xs =~= ys.reverse());
}

/// Whether `ys` has the same items as `xs`, each as often.
pub open spec fn rearranged(xs: Seq<ValueModel>, ys: Seq<ValueModel>) -> bool {
    xs.len() == ys.len() && xs.to_multiset() == ys.to_multiset()
}

/// `Sort` keeps the items and puts smaller numbers first.
pub proof fn sort_orders_numbers(xs: Seq<ValueModel>)
    requires
        forall|i: int| 0 <= i < xs.len() ==> (#[trigger] xs[i] matches ValueModel::Number(n) && !nan(n)),
    ensures
        exists|ys: Seq<ValueModel>|
            {
                &&& gives(arr_function("Sort"@, seq![ValueModel::Array(xs)]), ValueModel::Array(ys))
                &&& #[trigger] rearranged(xs, ys)
                &&& forall|i: int, j: int|
                    0 <= i < j < ys.len() ==> (#[trigger] ys[i]) is Number && (#[trigger] ys[j]) is Number && !below(
                        ys[j]->Number_0,
                        ys[i]->Number_0,
                    )
            },
{
    lemma_names();
    let ys = sorted_values(xs);
    let n = xs.len() as int;
    sorting_permutes(xs, value_order(), n);
    assert(xs.take(n) =~= xs);
    sorted_array_ascends(xs);
    assert(forall|i: int| 0 <= i < xs.len() ==> (#[trigger] xs[i]) is Number);
    let fit = |v: ValueModel| v is Number && !nan(v->Number_0);
    assert(orders(value_order(), fit));
    sorting_orders(xs, value_order(), fit, n);
    assert forall|i: int, j: int| 0 <= i < j < ys.len() implies (#[trigger] ys[i]) is Number && (#[trigger] ys[j])
        is Number && !below(ys[j]->Number_0, ys[i]->Number_0) by {
        assert(fit(ys[i]));
        assert(fit(ys[j]));
        assert(!value_order()(ys[j], ys[i]));
        numbers_are_ordered_by_value(ys[j]->Number_0, ys[i]->Number_0);
    }
    assert(rearranged(xs, ys));
}

/// `Sort` keeps the items and puts strings in the order of the dictionary.
pub proof fn sort_orders_strings(xs: Seq<ValueModel>)
    requires
        forall|i: int| 0 <= i < xs.len() ==> (#[trigger] xs[i]) is String,
    ensures
        exists|ys: Seq<ValueModel>|
            {
                &&& gives(arr_function("Sort"@, seq![ValueModel::Array(xs)]), ValueModel::Array(ys))
                &&& #[trigger] rearranged(xs, ys)
                &&& forall|i: int, j: int|
                    0 <= i < j < ys.len() ==> (#[trigger] ys[i]) is String && (#[trigger] ys[j]) is String && !precedes(
                        ys[j]->String_0,
                        ys[i]->String_0,
                    )
            },
{
    broadcast use vstd::seq_lib::group_to_multiset_ensures;

    lemma_names();
    let ys = sorted_values(xs);
    let n = xs.len() as int;
    sorting_permutes(xs, value_order(), n);
    assert(xs.take(n) =~= xs);
    sorted_array_ascends(xs);
    assert forall|k: int| 0 <= k < ys.len() implies (#[trigger] ys[k]) is String by {
        assert(ys.contains(ys[k]));
        assert(ys.to_multiset().count(ys[k]) > 0);
        assert(xs.contains(ys[k]));
    }
    assert forall|i: int, j: int| 0 <= i < j < ys.len() implies (#[trigger] ys[i]) is String && (#[trigger] ys[j])
        is String && !precedes(ys[j]->String_0, ys[i]->String_0) by {
        assert(!value_order()(ys[j], ys[i]));
        text_order_is_the_dictionary(ys[j]->String_0, ys[i]->String_0);
    }
    assert(rearranged(xs, ys));
}

/// Only numbers among themselves and strings among themselves can be sorted.
pub proof fn sort_needs_one_kind(xs: Seq<ValueModel>, i: int, j: int)
    requires
        0 <= i < xs.len(),
        0 <= j < xs.len(),
        !(xs[i] is Number),
        !(xs[j] is String),
    ensures
        throws(arr_function("Sort"@, seq![ValueModel::Array(xs)]), "TypeError"@),
{
    lemma_names();
}

/// `Get` gives the item at an index, and refuses an index without an item.
pub proof fn get_gives_the_item(xs: Seq<ValueModel>, n: u64)
    requires
        fits_in_bits(n),
    ensures
        0 <= truncated(n) < xs.len() ==> gives(
            arr_function("Get"@, seq![ValueModel::Array(xs), ValueModel::Number(n)]),
            xs[truncated(n)],
        ),
        !(0 <= truncated(n) < xs.len()) ==> throws(
            arr_function("Get"@, seq![ValueModel::Array(xs), ValueModel::Number(n)]),
            "IndexError"@,
        ),
{
    lemma_names();
}

/// `Slice` gives the items from `start` on, in their order: all of them, or at most as many
/// as its third argument says.
pub proof fn slice_gives_a_stretch(xs: Seq<ValueModel>, start: u64, len: u64, ys: Seq<ValueModel>, zs: Seq<ValueModel>)
    requires
        fits_in_bits(start),
        fits_in_bits(len),
        truncated(start) >= 0,
        truncated(len) >= 0,
        ys.len() == (if truncated(start) < xs.len() {
            xs.len() - truncated(start)
        } else {
            0
        }),
        forall|k: int| 0 <= k < ys.len() ==> ys[k] == xs[truncated(start) + k],
        zs.len() == (if truncated(len) < ys.len() {
            truncated(len)
        } else {
            ys.len() as int
        }),
        forall|k: int| 0 <= k < zs.len() ==> zs[k] == ys[k],
    ensures
        gives(arr_function("Slice"@, seq![ValueModel::Array(xs), ValueModel::Number(start)]), ValueModel::Array(ys)),
        gives(
            arr_function("Slice"@, seq![ValueModel::Array(xs), ValueModel::Number(start), ValueModel::Number(len)]),
            ValueModel::Array(zs),
        ),
{
    lemma_names();
    assert(crate::strlib::window(xs, truncated(start), None) =~= ys);
    assert(crate::strlib::window(xs, truncated(start), Some(truncated(len))) =~= zs);
}

/// A slice starts nowhere in front of the array, and is never shorter than nothing.
pub proof fn slice_is_not_negative(xs: Seq<ValueModel>, start: u64, len: u64)
    requires
        fits_in_bits(start),
        fits_in_bits(len),
    ensures
        truncated(start) < 0 ==> throws(
            arr_function("Slice"@, seq![ValueModel::Array(xs), ValueModel::Number(start)]),
            "ValueError"@,
        ),
        truncated(start) < 0 || truncated(len) < 0 ==> throws(
            arr_function("Slice"@, seq![ValueModel::Array(xs), ValueModel::Number(start), ValueModel::Number(len)]),
            "ValueError"@,
        ),
{
    lemma_names();
}

/// `Has` says of an array whether some item strictly equals the value.
pub proof fn has_finds_equal_items(xs: Seq<ValueModel>, v: ValueModel)
    ensures
        gives(
            arr_function("Has"@, seq![ValueModel::Array(xs), v]),
            ValueModel::Logic(exists|i: int| 0 <= i < xs.len() && strict(#[trigger] xs[i], v)),
        ),
{
    lemma_names();
    assert((exists|i: int| 0 <= i < xs.len() && strict(#[trigger] xs[i], v)) == crate::arrlib::holds(xs, v)) by {
        if crate::arrlib::holds(xs, v) {
            let i = choose|i: int| 0 <= i < xs.len() && crate::show::same_value(#[trigger] xs[i], v);
            assert(strict(xs[i], v));
        }
    }
}

/// `Has` says of an object whether some entry has the key.
pub proof fn has_finds_keys(t: Seq<(Seq<char>, ValueModel)>, key: Seq<char>)
    ensures
        gives(
            arr_function("Has"@, seq![ValueModel::Object(t), ValueModel::String(key)]),
            ValueModel::Logic(exists|i: int| 0 <= i < t.len() && (#[trigger] t[i]).0 == key),
        ),
{
    lemma_names();
    lemma_place(keys(t), key, 0);
    if let Some(k) = crate::table::place(keys(t), key) {
        assert(t[k].0 == key);
    } else {
        assert forall|i: int| 0 <= i < t.len() implies (#[trigger] t[i]).0 != key by {
            assert(keys(t)[i] != key);
        }
    }
}

/// Whether `names` are the keys of a table, each as often as it has them.
pub open spec fn names_of(t: Seq<(Seq<char>, ValueModel)>, names: Seq<Seq<char>>) -> bool {
    names.len() == t.len() && names.to_multiset() == Seq::new(t.len(), |i: int| t[i].0).to_multiset()
}

pub proof fn lemma_text_order()
    ensures
        orders(text_order(), |s: Seq<char>| true),
{
    let before = text_order();
    let fit = |s: Seq<char>| true;
    assert forall|a: Seq<char>, b: Seq<char>, c: Seq<char>|
        fit(a) && fit(b) && fit(c) && #[trigger] before(a, b) && !(#[trigger] before(c, b)) implies before(a, c) by {
        crate::sort::lemma_text_order(a, b, c, 0);
    }
    assert forall|a: Seq<char>, b: Seq<char>| fit(a) && fit(b) && #[trigger] before(a, b) implies !before(b, a) by {
        crate::sort::lemma_text_order(a, b, b, 0);
    }
}

/// `Keys` gives the keys of an object as strings, in the order of the dictionary.
pub proof fn keys_are_listed_in_order(t: Seq<(Seq<char>, ValueModel)>)
    ensures
        exists|names: Seq<Seq<char>>|
            {
                &&& gives(
                    arr_function("Keys"@, seq![ValueModel::Object(t)]),
                    ValueModel::Array(Seq::new(names.len(), |i: int| ValueModel::String(names[i]))),
                )
                &&& #[trigger] names_of(t, names)
                &&& forall|i: int, j: int| 0 <= i < j < names.len() ==> !precedes(#[trigger] names[j], #[trigger] names[i])
            },
{
    lemma_names();
    let ks = keys(t);
    let names = sorted_texts(ks);
    let n = ks.len() as int;
    sorting_permutes(ks, text_order(), n);
    assert(ks.take(n) =~= ks);
    assert(ks =~= Seq::new(t.len(), |i: int| t[i].0));
    lemma_text_order();
    sorting_orders(ks, text_order(), |s: Seq<char>| true, n);
    assert forall|i: int, j: int| 0 <= i < j < names.len() implies !precedes(#[trigger] names[j], #[trigger] names[i]) by {
        assert(!text_order()(names[j], names[i]));
        text_order_is_the_dictionary(names[j], names[i]);
    }
    assert(crate::builtins::text_values(names) =~= Seq::new(names.len(), |i: int| ValueModel::String(names[i])));
    assert(names_of(t, names));
}

/// What is no object has no keys, and what is no array no items.
pub proof fn array_functions_need_arrays(v: ValueModel, w: ValueModel)
    requires
        !(v is Array),
    ensures
        throws(arr_function("Len"@, seq![v]), "TypeError"@),
        throws(arr_function("Pop"@, seq![v]), "TypeError"@),
        throws(arr_function("Reverse"@, seq![v]), "TypeError"@),
        throws(arr_function("Sort"@, seq![v]), "TypeError"@),
        throws(arr_function("Push"@, seq![v, w]), "TypeError"@),
        throws(arr_function("Join"@, seq![v, w]), "TypeError"@),
        throws(arr_function("Get"@, seq![v, w]), "TypeError"@),
        throws(arr_function("Slice"@, seq![v, w]), "TypeError"@),
        !(v is Object) ==> throws(arr_function("Has"@, seq![v, w]), "TypeError"@),
        !(v is Object) ==> throws(arr_function("Keys"@, seq![v]), "TypeError"@),
{
    lemma_names();
}

/// An array of nothing joined is the empty text; of one item it is the display of the item;
/// and one more item puts the separator and the display of that item behind.
pub proof fn join_goes_item_by_item(xs: Seq<ValueModel>, sep: Seq<char>, v: ValueModel, text: Seq<crate::draft::PieceModel>)
    requires
        arr_function("Join"@, seq![ValueModel::Array(xs), ValueModel::String(sep)]) == Ok::<_, FailureModel>(
            EffectModel::Plan(PlanModel::Text(text)),
        ),
    ensures
        xs.len() == 0 ==> text.len() == 0,
        arr_function("Join"@, seq![ValueModel::Array(xs.push(v)), ValueModel::String(sep)]) == Ok::<_, FailureModel>(
            EffectModel::Plan(
                PlanModel::Text(
                    if xs.len() == 0 {
                        shown(v)
                    } else {
                        text + seq![crate::draft::PieceModel::Text(sep)] + shown(v)
                    },
                ),
            ),
        ),
{
    lemma_names();
    lemma_shown_prefix(xs, v, sep, xs.len() as int);
    let n = xs.len() as int;
    if n > 0 {
        assert(crate::show::shown_list(xs.push(v), sep, n + 1) =~= text + seq![crate::draft::PieceModel::Text(sep)]
            + shown(v));
    }
}

/// Every array and separator can be joined.
pub proof fn join_never_fails(xs: Seq<ValueModel>, sep: Seq<char>)
    ensures
        arr_function("Join"@, seq![ValueModel::Array(xs), ValueModel::String(sep)]) matches Ok(
            EffectModel::Plan(PlanModel::Text(_)),
        ),
{
    lemma_names();
}

pub proof fn lemma_shown_prefix(xs: Seq<ValueModel>, v: ValueModel, sep: Seq<char>, n: int)
    requires
        0 <= n <= xs.len(),
    ensures
        crate::show::shown_list(xs.push(v), sep, n) == crate::show::shown_list(xs, sep, n),
    decreases n,
{
    if n > 1 {
        lemma_shown_prefix(xs, v, sep, n - 1);
    }
}

/// Every other name is unknown, and a wrong number of arguments is refused.
pub proof fn unknown_array_functions_are_refused(function: Seq<char>, args: Seq<ValueModel>)
    ensures
        function != "Len"@ && function != "Pop"@ && function != "Reverse"@ && function != "Sort"@ && function != "Push"@
            && function != "Join"@ && function != "Keys"@ && function != "Has"@ && function != "Get"@ && function
            != "Slice"@ ==> throws(arr_function(function, args), "NameError"@),
        args.len() != 1 ==> throws(arr_function("Len"@, args), "ValueError"@) && throws(
            arr_function("Pop"@, args),
            "ValueError"@,
        ) && throws(arr_function("Reverse"@, args), "ValueError"@) && throws(arr_function("Sort"@, args), "ValueError"@)
            && throws(arr_function("Keys"@, args), "ValueError"@),
        args.len() != 2 ==> throws(arr_function("Push"@, args), "ValueError"@) && throws(
            arr_function("Join"@, args),
            "ValueError"@,
        ) && throws(arr_function("Has"@, args), "ValueError"@) && throws(arr_function("Get"@, args), "ValueError"@),
        args.len() != 2 && args.len() != 3 ==> throws(arr_function("Slice"@, args), "ValueError"@),
{
    lemma_names();
}

} // verus!
