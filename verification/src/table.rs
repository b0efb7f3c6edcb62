//! Tables: lists of entries in which a key is looked up from the front.

use crate::ast::{entries, Value};
use crate::text::same;
use vstd::prelude::*;

verus! {

/// The keys of a table, in order.
pub open spec fn keys<K, T>(t: Seq<(K, T)>) -> Seq<K> {
    Seq::new(t.len(), |i: int| t[i].0)
}

/// The first place at or after `i` that holds `key`.
pub open spec fn place_from<K>(ks: Seq<K>, key: K, i: int) -> Option<int>
    decreases ks.len() - i,
{
    if i < 0 || i >= ks.len() {
        None
    } else if ks[i] == key {
        Some(i)
    } else {
        place_from(ks, key, i + 1)
    }
}

/// The first place that holds `key`.
pub open spec fn place<K>(ks: Seq<K>, key: K) -> Option<int> {
    place_from(ks, key, 0)
}

/// What the table has under `key`.
pub open spec fn lookup<K, T>(t: Seq<(K, T)>, key: K) -> Option<T> {
    match place(keys(t), key) {
        Some(i) => Some(t[i].1),
        None => None,
    }
}

/// The table with `v` under `key`: in the place that the key has, else at the
/// end.
pub open spec fn put<K, T>(t: Seq<(K, T)>, key: K, v: T) -> Seq<(K, T)> {
    match place(keys(t), key) {
        Some(i) => t.update(i, (key, v)),
        None => t.push((key, v)),
    }
}

/// The table without its entry under `key`.
pub open spec fn erase<K, T>(t: Seq<(K, T)>, key: K) -> Seq<(K, T)> {
    match place(keys(t), key) {
        Some(i) => t.remove(i),
        None => t,
    }
}

/// No key occurs twice.
pub open spec fn distinct<K>(ks: Seq<K>) -> bool {
    forall|i: int, j: int| 0 <= i < j < ks.len() ==> #[trigger] ks[i] != #[trigger] ks[j]
}

pub proof fn lemma_place<K>(ks: Seq<K>, key: K, i: int)
    requires
        0 <= i <= ks.len(),
    ensures
        match place_from(ks, key, i) {
            Some(k) => i <= k < ks.len() && ks[k] == key && forall|m: int| i <= m < k ==> ks[m] != key,
            None => forall|m: int| i <= m < ks.len() ==> ks[m] != key,
        },
    decreases ks.len() - i,
{
    if i < ks.len() && ks[i] != key {
        lemma_place(ks, key, i + 1);
    }
}

/// The place of a key is where it stands first.
pub proof fn lemma_place_is<K>(ks: Seq<K>, key: K, i: int, k: int)
    requires
        0 <= i <= k < ks.len(),
        ks[k] == key,
        forall|m: int| i <= m < k ==> ks[m] != key,
    ensures
        place_from(ks, key, i) == Some(k),
    decreases k - i,
{
    if i < k {
        lemma_place_is(ks, key, i + 1, k);
    }
}

/// What was put under a key is found there, and nothing else changes.
pub proof fn put_then_lookup<K, T>(t: Seq<(K, T)>, key: K, v: T, other: K)
    ensures
        lookup(put(t, key, v), key) == Some(v),
        other != key ==> lookup(put(t, key, v), other) == lookup(t, other),
{
    let p = put(t, key, v);
    lemma_place(keys(t), key, 0);
    lemma_place(keys(t), other, 0);
    lemma_place(keys(p), other, 0);
    match place(keys(t), key) {
        Some(i) => {
            assert(keys(p) =~= keys(t));
        },
        None => {
            assert(keys(p) =~= keys(t).push(key));
            lemma_place_is(keys(p), key, 0, t.len() as int);
            if other != key {
                if let Some(k) = place(keys(t), other) {
                    lemma_place_is(keys(p), other, 0, k);
                } else if let Some(k) = place(keys(p), other) {
                    assert(keys(p)[k] == other);
                }
            }
        },
    }
}

/// Putting an entry keeps the keys distinct.
pub proof fn put_keeps_distinct<K, T>(t: Seq<(K, T)>, key: K, v: T)
    requires
        distinct(keys(t)),
    ensures
        distinct(keys(put(t, key, v))),
{
    lemma_place(keys(t), key, 0);
    match place(keys(t), key) {
        Some(i) => {
            assert(keys(put(t, key, v)) =~= keys(t));
        },
        None => {
            assert(keys(put(t, key, v)) =~= keys(t).push(key));
        },
    }
}

/// An erased key is gone, and nothing else changes.
pub proof fn erase_then_lookup<K, T>(t: Seq<(K, T)>, key: K, other: K)
    requires
        distinct(keys(t)),
    ensures
        lookup(erase(t, key), key) is None,
        other != key ==> lookup(erase(t, key), other) == lookup(t, other),
        distinct(keys(erase(t, key))),
{
    lemma_place(keys(t), key, 0);
    lemma_place(keys(t), other, 0);
    if let Some(i) = place(keys(t), key) {
        let e = erase(t, key);
        assert(keys(e) =~= keys(t).remove(i));
        lemma_place(keys(e), key, 0);
        lemma_place(keys(e), other, 0);
        if other != key {
            if let Some(k) = place(keys(t), other) {
                if k < i {
                    assert(keys(e)[k] == other);
                    lemma_place_is(keys(e), other, 0, k);
                } else {
                    assert(keys(e)[k - 1] == other);
                    lemma_place_is(keys(e), other, 0, k - 1);
                }
            }
        }
    }
}

/// The keys of an executable table.
pub open spec fn key_texts<T>(t: Seq<(String, T)>) -> Seq<Seq<char>> {
    Seq::new(t.len(), |i: int| t[i].0@)
}

/// Finds the first entry under `key`.
pub fn find<T>(t: &Vec<(String, T)>, key: &str) -> (r: Option<usize>)
    ensures
        match r {
            Some(i) => place(key_texts(t@), key@) == Some(i as int) && i < t@.len() && t@[i as int].0@ == key@,
            None => place(key_texts(t@), key@) is None,
        },
{
    let mut i: usize = 0;
    while i < t.len()
        invariant
            i <= t@.len(),
            place_from(key_texts(t@), key@, i as int) == place(key_texts(t@), key@),
        decreases t@.len() - i,
    {
        if same(t[i].0.as_str(), key) {
            return Some(i);
        }
        i = i + 1;
    }
    None
}

/// What the table has under `key`.
pub fn get<'a>(t: &'a Vec<(String, Value)>, key: &str) -> (r: Option<&'a Value>)
    ensures
        match r {
            Some(v) => lookup(entries(t@), key@) == Some(v@),
            None => lookup(entries(t@), key@) is None,
        },
{
    assert(keys(entries(t@)) =~= key_texts(t@));
    match find(t, key) {
        Some(i) => Some(&t[i].1),
        None => None,
    }
}

/// Puts `v` under `key`.
pub fn store(t: &mut Vec<(String, Value)>, key: String, v: Value)
    ensures
        entries(final(t)@) == put(entries(old(t)@), key@, v@),
{
    assert(keys(entries(t@)) =~= key_texts(t@));
    let ghost was = entries(t@);
    match find(t, key.as_str()) {
        Some(i) => {
            t[i] = (key, v);
            assert(entries(t@) =~= was.update(i as int, (key@, v@)));
        },
        None => {
            t.push((key, v));
            assert(entries(t@) =~= was.push((key@, v@)));
        },
    }
}

/// Takes the entry under `key` out of the table.
pub fn discard(t: &mut Vec<(String, Value)>, key: &str)
    ensures
        entries(final(t)@) == erase(entries(old(t)@), key@),
{
    assert(keys(entries(t@)) =~= key_texts(t@));
    let ghost was = entries(t@);
    match find(t, key) {
        Some(i) => {
            t.remove(i);
            assert(entries(t@) =~= was.remove(i as int));
        },
        None => {},
    }
}

/// A table of texts as mathematical values.
pub open spec fn text_entries(t: Seq<(String, String)>) -> Seq<(Seq<char>, Seq<char>)> {
    Seq::new(t.len(), |i: int| (t[i].0@, t[i].1@))
}

/// What the table has under `key`.
pub fn get_text(t: &Vec<(String, String)>, key: &str) -> (r: Option<String>)
    ensures
        match r {
            Some(v) => lookup(text_entries(t@), key@) == Some(v@),
            None => lookup(text_entries(t@), key@) is None,
        },
{
    assert(keys(text_entries(t@)) =~= key_texts(t@));
    match find(t, key) {
        Some(i) => Some(t[i].1.clone()),
        None => None,
    }
}

/// Puts `v` under `key`.
pub fn store_text(t: &mut Vec<(String, String)>, key: String, v: String)
    ensures
        text_entries(final(t)@) == put(text_entries(old(t)@), key@, v@),
{
    assert(keys(text_entries(t@)) =~= key_texts(t@));
    let ghost was = text_entries(t@);
    match find(t, key.as_str()) {
        Some(i) => {
            t[i] = (key, v);
            assert(text_entries(t@) =~= was.update(i as int, (key@, v@)));
        },
        None => {
            t.push((key, v));
            assert(text_entries(t@) =~= was.push((key@, v@)));
        },
    }
}

/// A copy of a table of texts.
pub fn copy_text_entries(t: &Vec<(String, String)>) -> (r: Vec<(String, String)>)
    ensures
        text_entries(r@) == text_entries(t@),
{
    let mut r: Vec<(String, String)> = Vec::new();
    let mut i: usize = 0;
    while i < t.len()
        invariant
            i <= t@.len(),
            r@.len() == i,
            forall|k: int|
                #![trigger r@[k]]
                0 <= k < i ==> r@[k].0@ == t@[k].0@ && r@[k].1@ == t@[k].1@,
        decreases t@.len() - i,
    {
        r.push((t[i].0.clone(), t[i].1.clone()));
        i = i + 1;
    }
    assert(text_entries(r@) =~= text_entries(t@));
    r
}

/// Finds the first entry under the number `key`.
pub fn find_id<T>(t: &Vec<(u64, T)>, key: u64) -> (r: Option<usize>)
    ensures
        match r {
            Some(i) => place(keys(t@), key) == Some(i as int) && i < t@.len() && t@[i as int].0 == key,
            None => place(keys(t@), key) is None,
        },
{
    let mut i: usize = 0;
    while i < t.len()
        invariant
            i <= t@.len(),
            place_from(keys(t@), key, i as int) == place(keys(t@), key),
        decreases t@.len() - i,
    {
        if t[i].0 == key {
            return Some(i);
        }
        i = i + 1;
    }
    None
}

/// Whether one of the texts is `key`.
pub fn has_text(t: &Vec<String>, key: &str) -> (r: bool)
    ensures
        r == crate::ast::texts(t@).contains(key@),
{
    let ghost all = crate::ast::texts(t@);
    let mut i: usize = 0;
    while i < t.len()
        invariant
            i <= t@.len(),
            all == crate::ast::texts(t@),
            forall|k: int| 0 <= k < i ==> #[trigger] all[k] != key@,
        decreases t@.len() - i,
    {
        if same(t[i].as_str(), key) {
            assert(all[i as int] == key@);
            return true;
        }
        i = i + 1;
    }
    false
}

} // verus!
