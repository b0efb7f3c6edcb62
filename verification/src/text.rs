//! Strings as sequences of characters.

use vstd::prelude::*;

verus! {

/// `String::push` appends the character and changes nothing else.
pub assume_specification[ std::string::String::push ](s: &mut std::string::String, c: char)
    ensures
        final(s)@ == old(s)@.push(c),
;

/// `str::eq` compares the characters.
pub assume_specification[ <str as PartialEq>::eq ](a: &str, b: &str) -> (r: bool)
    ensures
        r == (a@ == b@),
;

/// The characters of `s`, in order.
pub fn chars_of(s: &str) -> (r: Vec<char>)
    ensures
        r@ == s@,
{
    let mut r: Vec<char> = Vec::new();
    for c in it: s.chars()
        invariant
            it.seq() == s@,
            r@ == s@.take(it.index() as int),
    {
        r.push(c);
        proof {
            assert(s@.take(it.index() as int + 1) =~= s@.take(it.index() as int).push(c));
        }
    }
    proof {
        assert(s@.take(s@.len() as int) =~= s@);
    }
    r
}

/// The string made of the characters of `v` from `from` up to, not including, `to`.
pub fn string_of(v: &Vec<char>, from: usize, to: usize) -> (r: String)
    requires
        from <= to <= v@.len(),
    ensures
        r@ == v@.subrange(from as int, to as int),
{
    let mut r: String = String::new();
    let mut i: usize = from;
    while i < to
        invariant
            from <= i <= to <= v@.len(),
            r@ == v@.subrange(from as int, i as int),
        decreases to - i,
    {
        r.push(v[i]);
        proof {
            assert(v@.subrange(from as int, i as int + 1) =~= v@.subrange(from as int, i as int).push(v@[i as int]));
        }
        i = i + 1;
    }
    r
}

/// Whether `a` and `b` hold the same characters.
pub fn same(a: &str, b: &str) -> (r: bool)
    ensures
        r == (a@ == b@),
{
    str::eq(a, b)
}

pub open spec fn lower_letter(c: char) -> bool {
    'a' <= c && c <= 'z'
}

pub open spec fn upper_letter(c: char) -> bool {
    'A' <= c && c <= 'Z'
}

pub open spec fn digit(c: char) -> bool {
    '0' <= c && c <= '9'
}

/// A character that can start a name.
pub open spec fn name_start(c: char) -> bool {
    lower_letter(c) || upper_letter(c) || c == '_'
}

/// A character that can continue a name.
pub open spec fn name_part(c: char) -> bool {
    name_start(c) || digit(c)
}

pub fn is_digit(c: char) -> (r: bool)
    ensures
        r == digit(c),
{
    '0' <= c && c <= '9'
}

pub fn is_name_start(c: char) -> (r: bool)
    ensures
        r == name_start(c),
{
    ('a' <= c && c <= 'z') || ('A' <= c && c <= 'Z') || c == '_'
}

pub fn is_name_part(c: char) -> (r: bool)
    ensures
        r == name_part(c),
{
    is_name_start(c) || is_digit(c)
}

/// The first place at or after `i` where `s` stops being a name.
pub open spec fn name_end(s: Seq<char>, i: int) -> int
    decreases s.len() - i,
{
    if 0 <= i < s.len() && name_part(s[i]) {
        name_end(s, i + 1)
    } else {
        i
    }
}

/// The first place at or after `i` where `s` stops being digits.
pub open spec fn digits_end(s: Seq<char>, i: int) -> int
    decreases s.len() - i,
{
    if 0 <= i < s.len() && digit(s[i]) {
        digits_end(s, i + 1)
    } else {
        i
    }
}

/// The number that a run of decimal digits writes down.
pub open spec fn decimal(s: Seq<char>) -> nat
    decreases s.len(),
{
    if s.len() == 0 {
        0
    } else {
        decimal(s.drop_last()) * 10 + digit_value(s.last())
    }
}

pub open spec fn digit_value(c: char) -> nat {
    (c as u32 - '0' as u32) as nat
}

pub proof fn lemma_name_end(s: Seq<char>, i: int)
    requires
        0 <= i <= s.len(),
    ensures
        i <= name_end(s, i) <= s.len(),
        i < s.len() && name_part(s[i]) ==> i < name_end(s, i),
    decreases s.len() - i,
{
    if i < s.len() && name_part(s[i]) {
        lemma_name_end(s, i + 1);
    }
}

pub proof fn lemma_digits_end(s: Seq<char>, i: int)
    requires
        0 <= i <= s.len(),
    ensures
        i <= digits_end(s, i) <= s.len(),
        i < s.len() && digit(s[i]) ==> i < digits_end(s, i),
        forall|k: int| i <= k < digits_end(s, i) ==> digit(#[trigger] s[k]),
    decreases s.len() - i,
{
    if i < s.len() && digit(s[i]) {
        lemma_digits_end(s, i + 1);
    }
}

/// Reading more digits never makes the number smaller.
pub proof fn lemma_decimal_prefix(s: Seq<char>, n: int)
    requires
        0 <= n <= s.len(),
    ensures
        decimal(s.take(n)) <= decimal(s),
    decreases s.len() - n,
{
    if n < s.len() {
        lemma_decimal_prefix(s, n + 1);
        assert(s.take(n + 1).drop_last() =~= s.take(n));
    } else {
        assert(s.take(n) =~= s);
    }
}

/// Finds where the name that starts at `i` ends.
pub fn find_name_end(s: &Vec<char>, i: usize) -> (r: usize)
    requires
        i <= s@.len(),
    ensures
        r == name_end(s@, i as int),
        i <= r <= s@.len(),
{
    let mut j: usize = i;
    proof {
        lemma_name_end(s@, i as int);
    }
    while j < s.len() && is_name_part(s[j])
        invariant
            i <= j <= s@.len(),
            name_end(s@, j as int) == name_end(s@, i as int),
        decreases s@.len() - j,
    {
        j = j + 1;
    }
    j
}

/// Finds where the digits that start at `i` end.
pub fn find_digits_end(s: &Vec<char>, i: usize) -> (r: usize)
    requires
        i <= s@.len(),
    ensures
        r == digits_end(s@, i as int),
        i <= r <= s@.len(),
{
    let mut j: usize = i;
    proof {
        lemma_digits_end(s@, i as int);
    }
    while j < s.len() && is_digit(s[j])
        invariant
            i <= j <= s@.len(),
            digits_end(s@, j as int) == digits_end(s@, i as int),
        decreases s@.len() - j,
    {
        j = j + 1;
    }
    j
}

} // verus!
