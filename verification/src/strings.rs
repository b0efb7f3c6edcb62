//! Searching, splitting and cutting strings.

use crate::ast::texts;
use crate::grammar::white;
use crate::text::{chars_of, decimal, digits_end, is_digit, string_of};
use vstd::prelude::*;

verus! {

/// What `str::to_uppercase` makes of a text.
pub uninterp spec fn uppercase(s: Seq<char>) -> Seq<char>;

/// What `str::to_lowercase` makes of a text.
pub uninterp spec fn lowercase(s: Seq<char>) -> Seq<char>;

/// `str::to_uppercase`: the result depends on the text alone.
#[verifier::external_body]
pub(crate) fn to_uppercase(s: &str) -> (r: String)
    ensures
        r@ == uppercase(s@),
{
    s.to_uppercase()
}

/// `str::to_lowercase`: the result depends on the text alone.
#[verifier::external_body]
pub(crate) fn to_lowercase(s: &str) -> (r: String)
    ensures
        r@ == lowercase(s@),
{
    s.to_lowercase()
}

/// Whether `part` stands in `s` at `i`.
pub open spec fn occurs_at(s: Seq<char>, part: Seq<char>, i: int) -> bool {
    0 <= i && i + part.len() <= s.len() && s.subrange(i, i + part.len()) == part
}

/// The first place at or after `i` where `part` stands in `s`.
pub open spec fn find_from(s: Seq<char>, part: Seq<char>, i: int) -> Option<int>
    decreases s.len() + 1 - i,
{
    if i < 0 || i > s.len() {
        None
    } else if occurs_at(s, part, i) {
        Some(i)
    } else {
        find_from(s, part, i + 1)
    }
}

/// Whether `part` stands anywhere in `s`.
pub open spec fn contains(s: Seq<char>, part: Seq<char>) -> bool {
    exists|i: int| occurs_at(s, part, i)
}

/// The pieces of `s` from `i` on between the places where `sep` stands.
pub open spec fn split_from(s: Seq<char>, sep: Seq<char>, i: int) -> Seq<Seq<char>>
    decreases s.len() - i,
{
    match find_from(s, sep, i) {
        None => seq![s.subrange(i, s.len() as int)],
        Some(k) => if sep.len() > 0 && i <= k && k + sep.len() <= s.len() {
            seq![s.subrange(i, k)] + split_from(s, sep, k + sep.len())
        } else {
            seq![]
        },
    }
}

/// Each character of `s` from `i` on as a text of its own.
pub open spec fn letters(s: Seq<char>) -> Seq<Seq<char>> {
    Seq::new(s.len(), |i: int| seq![s[i]])
}

/// The pieces of `s` between the places where `sep` stands. An empty separator
/// stands in front of, between and behind all characters.
pub open spec fn split(s: Seq<char>, sep: Seq<char>) -> Seq<Seq<char>> {
    if sep.len() == 0 {
        seq![Seq::<char>::empty()] + letters(s) + seq![Seq::<char>::empty()]
    } else {
        split_from(s, sep, 0)
    }
}

/// The texts with `sep` between them.
pub open spec fn joined_by(parts: Seq<Seq<char>>, sep: Seq<char>) -> Seq<char>
    decreases parts.len(),
{
    if parts.len() == 0 {
        seq![]
    } else if parts.len() == 1 {
        parts[0]
    } else {
        joined_by(parts.drop_last(), sep) + sep + parts.last()
    }
}

/// `s` with `new` for each `old`.
pub open spec fn replaced(s: Seq<char>, old_part: Seq<char>, new_part: Seq<char>) -> Seq<char> {
    joined_by(split(s, old_part), new_part)
}

/// The first place at or after `i` that holds no white space.
pub open spec fn skip_white(s: Seq<char>, i: int) -> int
    decreases s.len() - i,
{
    if 0 <= i < s.len() && white(s[i]) {
        skip_white(s, i + 1)
    } else {
        i
    }
}

/// The last place at or before `j`, not before `from`, with no white space in
/// front of it.
pub open spec fn drop_white(s: Seq<char>, j: int, from: int) -> int
    decreases j,
{
    if 0 <= from < j <= s.len() && white(s[j - 1]) {
        drop_white(s, j - 1, from)
    } else {
        j
    }
}

/// `s` without the white space at its ends.
pub open spec fn trimmed(s: Seq<char>) -> Seq<char> {
    let a = skip_white(s, 0);
    s.subrange(a, drop_white(s, s.len() as int, a))
}

/// The first line break at or after `i`, or the end.
pub open spec fn break_at(s: Seq<char>, i: int) -> int
    decreases s.len() - i,
{
    if 0 <= i < s.len() && s[i] != '\n' {
        break_at(s, i + 1)
    } else {
        i
    }
}

/// A line without the carriage return in front of its break.
pub open spec fn line_text(s: Seq<char>) -> Seq<char> {
    if s.len() > 0 && s.last() == '\r' {
        s.drop_last()
    } else {
        s
    }
}

/// The lines of `s` from `i` on, without their breaks.
pub open spec fn lines_from(s: Seq<char>, i: int) -> Seq<Seq<char>>
    decreases s.len() - i,
{
    if i < 0 || i >= s.len() {
        seq![]
    } else {
        let e = break_at(s, i);
        if i <= e < s.len() {
            seq![line_text(s.subrange(i, e))] + lines_from(s, e + 1)
        } else {
            seq![s.subrange(i, s.len() as int)]
        }
    }
}

/// `s` repeated `n` times.
pub open spec fn repeated(s: Seq<char>, n: int) -> Seq<char>
    decreases n,
{
    if n <= 0 {
        seq![]
    } else {
        repeated(s, n - 1) + s
    }
}

/// `s` without `prefix`, if it starts with it.
pub open spec fn without_prefix(s: Seq<char>, prefix: Seq<char>) -> Seq<char> {
    if occurs_at(s, prefix, 0) {
        s.subrange(prefix.len() as int, s.len() as int)
    } else {
        s
    }
}

/// `s` without `suffix`, if it ends with it.
pub open spec fn without_suffix(s: Seq<char>, suffix: Seq<char>) -> Seq<char> {
    if occurs_at(s, suffix, s.len() - suffix.len()) {
        s.subrange(0, s.len() - suffix.len())
    } else {
        s
    }
}

/// The integer that a text of digits, with a sign or without, writes down if
/// it fits in 64 bits.
pub open spec fn parsed_int(s: Seq<char>) -> Option<int> {
    let signed = s.len() > 0 && (s[0] == '-' || s[0] == '+');
    let digits = if signed {
        s.subrange(1, s.len() as int)
    } else {
        s
    };
    let n = decimal(digits) as int;
    let value = if signed && s[0] == '-' {
        -n
    } else {
        n
    };
    if digits.len() > 0 && digits_end(digits, 0) == digits.len() && i64::MIN <= value <= i64::MAX {
        Some(value)
    } else {
        None
    }
}

/// Whether `c` is white space.
pub fn is_white(c: char) -> (r: bool)
    ensures
        r == white(c),
{
    ('\u{9}' <= c && c <= '\u{d}') || c == ' ' || c == '\u{85}' || c == '\u{a0}' || c == '\u{1680}' || ('\u{2000}'
        <= c && c <= '\u{200a}') || c == '\u{2028}' || c == '\u{2029}' || c == '\u{202f}' || c == '\u{205f}' || c
        == '\u{3000}'
}

/// Whether `part` stands in `s` at `i`.
pub fn is_at(s: &Vec<char>, part: &Vec<char>, i: usize) -> (r: bool)
    requires
        i <= s@.len(),
    ensures
        r == occurs_at(s@, part@, i as int),
{
    if part.len() > s.len() - i {
        return false;
    }
    let ghost there = s@.subrange(i as int, i + part@.len());
    let len: usize = s.len();
    let mut k: usize = 0;
    while k < part.len()
        invariant
            k <= part@.len(),
            len == s@.len(),
            i + part@.len() <= s@.len(),
            there == s@.subrange(i as int, i + part@.len()),
            forall|m: int| 0 <= m < k ==> #[trigger] there[m] == part@[m],
        decreases part@.len() - k,
    {
        if s[i + k] != part[k] {
            assert(there[k as int] != part@[k as int]);
            return false;
        }
        assert(there[k as int] == part@[k as int]);
        k = k + 1;
    }
    assert(there =~= part@);
    true
}

/// Finds the first place at or after `i` where `part` stands in `s`.
pub fn find(s: &Vec<char>, part: &Vec<char>, i: usize) -> (r: Option<usize>)
    requires
        i <= s@.len(),
    ensures
        match r {
            Some(k) => find_from(s@, part@, i as int) == Some(k as int) && i <= k && k + part@.len() <= s@.len()
                && occurs_at(s@, part@, k as int),
            None => find_from(s@, part@, i as int) is None && forall|k: int| i <= k ==> !occurs_at(s@, part@, k),
        },
{
    let mut k: usize = i;
    loop
        invariant
            i <= k <= s@.len(),
            find_from(s@, part@, k as int) == find_from(s@, part@, i as int),
            forall|m: int| i <= m < k ==> !occurs_at(s@, part@, m),
        decreases s@.len() - k,
    {
        if is_at(s, part, k) {
            return Some(k);
        }
        if k >= s.len() {
            assert(find_from(s@, part@, k + 1) is None);
            return None;
        }
        k = k + 1;
    }
}

/// Whether `part` stands anywhere in `s`.
pub fn str_contains(s: &str, part: &str) -> (r: bool)
    ensures
        r == contains(s@, part@),
{
    find(&chars_of(s), &chars_of(part), 0).is_some()
}

/// Splits `s` where `sep` stands.
pub fn str_split(s: &str, sep: &str) -> (r: Vec<String>)
    ensures
        texts(r@) == split(s@, sep@),
{
    let c = chars_of(s);
    let p = chars_of(sep);
    let mut parts: Vec<String> = Vec::new();
    if p.len() == 0 {
        parts.push(String::new());
        let mut i: usize = 0;
        while i < c.len()
            invariant
                i <= c@.len(),
                c@ == s@,
                texts(parts@) == seq![Seq::<char>::empty()] + letters(s@).take(i as int),
            decreases c@.len() - i,
        {
            let ghost before = texts(parts@);
            let one = string_of(&c, i, i + 1);
            parts.push(one);
            proof {
                assert(one@ =~= seq![s@[i as int]]);
                assert(texts(parts@) =~= before.push(one@));
                assert(letters(s@).take(i as int + 1) =~= letters(s@).take(i as int).push(seq![s@[i as int]]));
            }
            i = i + 1;
        }
        let ghost before = texts(parts@);
        parts.push(String::new());
        proof {
            assert(letters(s@).take(s@.len() as int) =~= letters(s@));
            assert(texts(parts@) =~= split(s@, sep@));
        }
        return parts;
    }
    let len: usize = c.len();
    let mut i: usize = 0;
    assert(texts(parts@) + split_from(s@, sep@, 0) =~= split_from(s@, sep@, 0));
    loop
        invariant
            len == c@.len(),
            i <= c@.len(),
            c@ == s@,
            p@ == sep@,
            p@.len() > 0,
            texts(parts@) + split_from(s@, sep@, i as int) == split_from(s@, sep@, 0),
        decreases c@.len() - i,
    {
        let ghost before = texts(parts@);
        match find(&c, &p, i) {
            Some(k) => {
                let piece = string_of(&c, i, k);
                parts.push(piece);
                proof {
                    assert(texts(parts@) =~= before.push(piece@));
                    let rest = split_from(s@, sep@, k + sep@.len());
                    assert(texts(parts@) + rest =~= before + (seq![piece@] + rest));
                }
                i = k + p.len();
            },
            None => {
                let piece = string_of(&c, i, c.len());
                parts.push(piece);
                proof {
                    assert(texts(parts@) =~= before.push(piece@));
                    assert(texts(parts@) =~= before + seq![piece@]);
                }
                return parts;
            },
        }
    }
}

/// Joins the texts with `sep` between them.
pub fn str_join(parts: &Vec<String>, sep: &str) -> (r: String)
    ensures
        r@ == joined_by(texts(parts@), sep@),
{
    let ghost all = texts(parts@);
    let mut r = String::new();
    let mut i: usize = 0;
    assert(all.take(0) =~= seq![]);
    while i < parts.len()
        invariant
            i <= parts@.len(),
            all == texts(parts@),
            r@ == joined_by(all.take(i as int), sep@),
        decreases parts@.len() - i,
    {
        proof {
            assert(all.take(i as int + 1).drop_last() =~= all.take(i as int));
            assert(all.take(i as int + 1).last() == parts@[i as int]@);
        }
        if i > 0 {
            r.append(sep);
        }
        r.append(parts[i].as_str());
        proof {
            if i == 0 {
                assert(r@ =~= parts@[0]@);
            }
        }
        i = i + 1;
    }
    assert(all.take(parts@.len() as int) =~= all);
    r
}

/// `s` with `new_part` for each `old_part`.
pub fn str_replace(s: &str, old_part: &str, new_part: &str) -> (r: String)
    ensures
        r@ == replaced(s@, old_part@, new_part@),
{
    let parts = str_split(s, old_part);
    str_join(&parts, new_part)
}

/// `s` without the white space at its ends.
pub fn str_trim(s: &str) -> (r: String)
    ensures
        r@ == trimmed(s@),
{
    let c = chars_of(s);
    let mut a: usize = 0;
    while a < c.len() && is_white(c[a])
        invariant
            a <= c@.len(),
            c@ == s@,
            skip_white(s@, a as int) == skip_white(s@, 0),
        decreases c@.len() - a,
    {
        a = a + 1;
    }
    let mut b: usize = c.len();
    while b > a && is_white(c[b - 1])
        invariant
            a <= b <= c@.len(),
            c@ == s@,
            drop_white(s@, b as int, a as int) == drop_white(s@, s@.len() as int, a as int),
        decreases b,
    {
        b = b - 1;
    }
    string_of(&c, a, b)
}

/// The lines of `s`, without their breaks.
pub fn str_lines(s: &str) -> (r: Vec<String>)
    ensures
        texts(r@) == lines_from(s@, 0),
{
    let c = chars_of(s);
    let mut parts: Vec<String> = Vec::new();
    let mut i: usize = 0;
    assert(texts(parts@) + lines_from(s@, 0) =~= lines_from(s@, 0));
    while i < c.len()
        invariant
            i <= c@.len(),
            c@ == s@,
            texts(parts@) + lines_from(s@, i as int) == lines_from(s@, 0),
        decreases c@.len() - i,
    {
        let ghost before = texts(parts@);
        let mut e: usize = i;
        while e < c.len() && c[e] != '\n'
            invariant
                i <= e <= c@.len(),
                c@ == s@,
                break_at(s@, e as int) == break_at(s@, i as int),
            decreases c@.len() - e,
        {
            e = e + 1;
        }
        if e < c.len() {
            let mut end: usize = e;
            if e > i && c[e - 1] == '\r' {
                end = e - 1;
            }
            let piece = string_of(&c, i, end);
            parts.push(piece);
            proof {
                assert(piece@ =~= line_text(s@.subrange(i as int, e as int)));
                assert(texts(parts@) =~= before.push(piece@));
                let rest = lines_from(s@, e as int + 1);
                assert(texts(parts@) + rest =~= before + (seq![piece@] + rest));
            }
            i = e + 1;
        } else {
            let piece = string_of(&c, i, e);
            parts.push(piece);
            proof {
                assert(texts(parts@) =~= before + seq![piece@]);
            }
            return parts;
        }
    }
    assert(texts(parts@) + Seq::<Seq<char>>::empty() =~= texts(parts@));
    parts
}

/// Each character of `s` as a text of its own.
pub fn str_chars(s: &str) -> (r: Vec<String>)
    ensures
        texts(r@) == letters(s@),
{
    let c = chars_of(s);
    let mut parts: Vec<String> = Vec::new();
    let mut i: usize = 0;
    while i < c.len()
        invariant
            i <= c@.len(),
            c@ == s@,
            texts(parts@) == letters(s@).take(i as int),
        decreases c@.len() - i,
    {
        let ghost before = texts(parts@);
        let one = string_of(&c, i, i + 1);
        parts.push(one);
        proof {
            assert(one@ =~= seq![s@[i as int]]);
            assert(texts(parts@) =~= before.push(one@));
            assert(letters(s@).take(i as int + 1) =~= letters(s@).take(i as int).push(seq![s@[i as int]]));
        }
        i = i + 1;
    }
    assert(letters(s@).take(s@.len() as int) =~= letters(s@));
    parts
}

/// Whether `s` starts with `prefix`.
pub fn str_starts_with(s: &str, prefix: &str) -> (r: bool)
    ensures
        r == occurs_at(s@, prefix@, 0),
{
    is_at(&chars_of(s), &chars_of(prefix), 0)
}

/// Whether `s` ends with `suffix`.
pub fn str_ends_with(s: &str, suffix: &str) -> (r: bool)
    ensures
        r == occurs_at(s@, suffix@, s@.len() - suffix@.len()),
{
    let c = chars_of(s);
    let p = chars_of(suffix);
    if p.len() > c.len() {
        return false;
    }
    is_at(&c, &p, c.len() - p.len())
}

/// `s` without `prefix`, if it starts with it.
pub fn str_trim_prefix(s: &str, prefix: &str) -> (r: String)
    ensures
        r@ == without_prefix(s@, prefix@),
{
    let c = chars_of(s);
    let p = chars_of(prefix);
    if is_at(&c, &p, 0) {
        string_of(&c, p.len(), c.len())
    } else {
        s.to_string()
    }
}

/// `s` without `suffix`, if it ends with it.
pub fn str_trim_suffix(s: &str, suffix: &str) -> (r: String)
    ensures
        r@ == without_suffix(s@, suffix@),
{
    let c = chars_of(s);
    let p = chars_of(suffix);
    if p.len() <= c.len() && is_at(&c, &p, c.len() - p.len()) {
        string_of(&c, 0, c.len() - p.len())
    } else {
        s.to_string()
    }
}

/// `s` repeated `n` times.
pub fn str_repeat(s: &str, n: u64) -> (r: String)
    ensures
        r@ == repeated(s@, n as int),
{
    let mut r = String::new();
    let mut i: u64 = 0;
    while i < n
        invariant
            i <= n,
            r@ == repeated(s@, i as int),
        decreases n - i,
    {
        r.append(s);
        i = i + 1;
    }
    r
}

/// The integer that `s` writes down.
pub fn str_parse_int(s: &str) -> (r: Option<i64>)
    ensures
        match r {
            Some(n) => parsed_int(s@) == Some(n as int),
            None => parsed_int(s@) is None,
        },
{
    let c = chars_of(s);
    let negative = c.len() > 0 && c[0] == '-';
    let start: usize = if c.len() > 0 && (c[0] == '-' || c[0] == '+') {
        1
    } else {
        0
    };
    let ghost digits = s@.subrange(start as int, s@.len() as int);
    assert(start == 0 ==> digits =~= s@);
    if start == c.len() {
        return None;
    }
    let limit: u64 = if negative {
        0x8000_0000_0000_0000
    } else {
        0x7fff_ffff_ffff_ffff
    };
    let mut n: u64 = 0;
    let mut i: usize = start;
    while i < c.len()
        invariant
            start <= i <= c@.len(),
            start <= 1,
            c@ == s@,
            limit == (if negative {
                0x8000_0000_0000_0000u64
            } else {
                0x7fff_ffff_ffff_ffffu64
            }),
            negative == (s@.len() > 0 && s@[0] == '-'),
            start == (if s@.len() > 0 && (s@[0] == '-' || s@[0] == '+') {
                1int
            } else {
                0int
            }),
            digits == s@.subrange(start as int, s@.len() as int),
            start == 0 ==> digits == s@,
            digits_end(digits, i - start) == digits_end(digits, 0),
            n == decimal(digits.take(i - start)),
            n <= limit,
        decreases c@.len() - i,
    {
        assert(digits[i - start] == s@[i as int]);
        if !is_digit(c[i]) {
            return None;
        }
        let d: u64 = (c[i] as u32 - '0' as u32) as u64;
        proof {
            let next = digits.take(i - start + 1);
            assert(next.drop_last() =~= digits.take(i - start));
            crate::text::lemma_decimal_prefix(digits, i - start + 1);
        }
        if n > (limit - d) / 10 {
            assert(decimal(digits) > limit);
            return None;
        }
        n = n * 10 + d;
        i = i + 1;
    }
    assert(digits.take(digits.len() as int) =~= digits);
    if negative {
        if n == 0x8000_0000_0000_0000 {
            Some(i64::MIN)
        } else {
            Some(-(n as i64))
        }
    } else {
        Some(n as i64)
    }
}

/// Whatever text is split, joining the pieces with the separator gives it
/// back.
pub proof fn split_then_join(s: Seq<char>, sep: Seq<char>)
    ensures
        joined_by(split(s, sep), sep) == s,
{
    if sep.len() == 0 {
        let n = s.len() as int;
        let inner = seq![Seq::<char>::empty()] + letters(s).take(n);
        lemma_letters_join(s, sep, n);
        assert(letters(s).take(n) =~= letters(s));
        assert(split(s, sep).drop_last() =~= inner);
        assert(s.take(n) + sep + Seq::<char>::empty() =~= s);
    } else {
        lemma_split_join(s, sep, 0);
        assert(s.subrange(0, s.len() as int) =~= s);
    }
}

proof fn lemma_letters_join(s: Seq<char>, sep: Seq<char>, n: int)
    requires
        sep.len() == 0,
        0 <= n <= s.len(),
    ensures
        joined_by(seq![Seq::<char>::empty()] + letters(s).take(n), sep) == s.take(n),
    decreases n,
{
    let parts = seq![Seq::<char>::empty()] + letters(s).take(n);
    if n == 0 {
        assert(parts =~= seq![Seq::<char>::empty()]);
        assert(s.take(0) =~= Seq::<char>::empty());
    } else {
        lemma_letters_join(s, sep, n - 1);
        assert(parts.drop_last() =~= seq![Seq::<char>::empty()] + letters(s).take(n - 1));
        assert(parts.last() == seq![s[n - 1]]);
        assert(s.take(n - 1) + sep + seq![s[n - 1]] =~= s.take(n));
    }
}

proof fn lemma_find_from(s: Seq<char>, part: Seq<char>, i: int)
    requires
        0 <= i <= s.len(),
    ensures
        find_from(s, part, i) matches Some(k) ==> i <= k && occurs_at(s, part, k),
    decreases s.len() - i,
{
    if !occurs_at(s, part, i) {
        if i < s.len() {
            lemma_find_from(s, part, i + 1);
        }
    }
}

proof fn lemma_split_join(s: Seq<char>, sep: Seq<char>, i: int)
    requires
        sep.len() > 0,
        0 <= i <= s.len(),
    ensures
        joined_by(split_from(s, sep, i), sep) == s.subrange(i, s.len() as int),
        split_from(s, sep, i).len() > 0,
    decreases s.len() - i,
{
    lemma_find_from(s, sep, i);
    match find_from(s, sep, i) {
        None => {},
        Some(k) => {
            let rest = split_from(s, sep, k + sep.len());
            lemma_split_join(s, sep, k + sep.len());
            lemma_join_front(s.subrange(i, k), rest, sep);
            assert(s.subrange(i, k) + sep + s.subrange(k + sep.len(), s.len() as int) =~= s.subrange(
                i,
                s.len() as int,
            ));
        },
    }
}

proof fn lemma_join_front(first: Seq<char>, rest: Seq<Seq<char>>, sep: Seq<char>)
    requires
        rest.len() > 0,
    ensures
        joined_by(seq![first] + rest, sep) == first + sep + joined_by(rest, sep),
    decreases rest.len(),
{
    let all = seq![first] + rest;
    if rest.len() == 1 {
        assert(all.drop_last() =~= seq![first]);
        reveal_with_fuel(joined_by, 2);
    } else {
        lemma_join_front(first, rest.drop_last(), sep);
        assert(all.drop_last() =~= seq![first] + rest.drop_last());
        assert(joined_by(all, sep) =~= first + sep + joined_by(rest, sep));
    }
}

proof fn lemma_find_shift(s: Seq<char>, part: Seq<char>, i: int, j: int)
    requires
        0 <= i <= s.len(),
        0 <= j,
    ensures
        find_from(s, part, i + j) == (match find_from(s.skip(i), part, j) {
            Some(k) => Some(i + k),
            None => None,
        }),
    decreases s.len() + 1 - i - j,
{
    let t = s.skip(i);
    if j <= t.len() {
        assert(occurs_at(s, part, i + j) == occurs_at(t, part, j)) by {
            if i + j + part.len() <= s.len() {
                assert(s.subrange(i + j, i + j + part.len()) =~= t.subrange(j, j + part.len()));
            }
        }
        if !occurs_at(t, part, j) {
            lemma_find_shift(s, part, i, j + 1);
        }
    }
}

proof fn lemma_split_shift(s: Seq<char>, sep: Seq<char>, i: int, j: int)
    requires
        sep.len() > 0,
        0 <= i <= s.len(),
        0 <= j <= s.len() - i,
    ensures
        split_from(s, sep, i + j) == split_from(s.skip(i), sep, j),
    decreases s.len() - i - j,
{
    let t = s.skip(i);
    lemma_find_shift(s, sep, i, j);
    lemma_find_from(t, sep, j);
    match find_from(t, sep, j) {
        None => {
            assert(s.subrange(i + j, s.len() as int) =~= t.subrange(j, t.len() as int));
        },
        Some(k) => {
            assert(s.subrange(i + j, i + k) =~= t.subrange(j, k));
            lemma_split_shift(s, sep, i, k + sep.len());
        },
    }
}

/// Whether `part` stands in `s` at `k`, and nowhere in front of `k`.
pub open spec fn first_at(s: Seq<char>, part: Seq<char>, k: int) -> bool {
    &&& 0 <= k
    &&& k + part.len() <= s.len()
    &&& forall|j: int| 0 <= j < part.len() ==> #[trigger] s[k + j] == part[j]
    &&& forall|i: int| 0 <= i < k ==> !stands_at(s, part, i)
}

/// Whether `part` stands in `s` at `i`, character by character.
pub open spec fn stands_at(s: Seq<char>, part: Seq<char>, i: int) -> bool {
    &&& 0 <= i
    &&& i + part.len() <= s.len()
    &&& forall|j: int| 0 <= j < part.len() ==> #[trigger] s[i + j] == part[j]
}

pub proof fn lemma_stands_at(s: Seq<char>, part: Seq<char>, i: int)
    ensures
        stands_at(s, part, i) == occurs_at(s, part, i),
{
    if 0 <= i && i + part.len() <= s.len() {
        let there = s.subrange(i, i + part.len());
        if stands_at(s, part, i) {
            assert forall|j: int| 0 <= j < part.len() implies there[j] == part[j] by {
                assert(s[i + j] == part[j]);
            }
            assert(there =~= part);
        } else if there == part {
            assert forall|j: int| 0 <= j < part.len() implies #[trigger] s[i + j] == part[j] by {
                assert(there[j] == part[j]);
            }
        }
    }
}

proof fn lemma_first_at(s: Seq<char>, part: Seq<char>, k: int, i: int)
    requires
        first_at(s, part, k),
        0 <= i <= k,
    ensures
        find_from(s, part, i) == Some(k),
    decreases k - i,
{
    lemma_stands_at(s, part, i);
    lemma_stands_at(s, part, k);
    assert(stands_at(s, part, k));
    if i < k {
        lemma_first_at(s, part, k, i + 1);
    }
}

proof fn lemma_nowhere(s: Seq<char>, part: Seq<char>, i: int)
    requires
        forall|k: int| 0 <= k <= s.len() ==> !stands_at(s, part, k),
        0 <= i,
    ensures
        find_from(s, part, i) is None,
    decreases s.len() + 1 - i,
{
    if i <= s.len() {
        lemma_stands_at(s, part, i);
        lemma_nowhere(s, part, i + 1);
    }
}

/// A text is cut at the first place where the separator stands: what is in front is the
/// first piece, and the other pieces are those of what is behind. A text in which it stands
/// nowhere is one piece.
pub proof fn split_cuts_at_the_first(s: Seq<char>, sep: Seq<char>, k: int)
    requires
        sep.len() > 0,
    ensures
        first_at(s, sep, k) ==> split(s, sep) == seq![s.take(k)] + split(s.skip(k + sep.len()), sep),
        (forall|i: int| 0 <= i <= s.len() ==> !stands_at(s, sep, i)) ==> split(s, sep) == seq![s],
        split(s, sep).len() > 0,
{
    lemma_split_join(s, sep, 0);
    if first_at(s, sep, k) {
        lemma_first_at(s, sep, k, 0);
        lemma_split_shift(s, sep, k + sep.len(), 0);
        assert(s.subrange(0, k) =~= s.take(k));
    }
    if forall|i: int| 0 <= i <= s.len() ==> !stands_at(s, sep, i) {
        lemma_nowhere(s, sep, 0);
        assert(s.subrange(0, s.len() as int) =~= s);
    }
}

/// Replacing goes from the front: up to the first place where the old part stands the text
/// stays, there the new part comes, and the text behind is treated alike. A text in which
/// the old part stands nowhere stays as it is.
pub proof fn replace_goes_from_the_front(s: Seq<char>, old_part: Seq<char>, new_part: Seq<char>, k: int)
    requires
        old_part.len() > 0,
    ensures
        first_at(s, old_part, k) ==> replaced(s, old_part, new_part) == s.take(k) + new_part + replaced(
            s.skip(k + old_part.len()),
            old_part,
            new_part,
        ),
        (forall|i: int| 0 <= i <= s.len() ==> !stands_at(s, old_part, i)) ==> replaced(s, old_part, new_part) == s,
{
    split_cuts_at_the_first(s, old_part, k);
    if first_at(s, old_part, k) {
        let rest = s.skip(k + old_part.len());
        split_cuts_at_the_first(rest, old_part, 0);
        lemma_join_front(s.take(k), split(rest, old_part), new_part);
    }
}

/// Replacing a part by itself changes nothing.
pub proof fn replace_by_itself_changes_nothing(s: Seq<char>, part: Seq<char>)
    ensures
        replaced(s, part, part) == s,
{
    split_then_join(s, part);
}

/// An empty part stands in front of, between and behind all characters.
pub proof fn replace_of_nothing_goes_between(s: Seq<char>, c: char, new_part: Seq<char>)
    ensures
        replaced(seq![], seq![], new_part) == new_part,
        replaced(s.push(c), seq![], new_part) == replaced(s, seq![], new_part).push(c) + new_part,
{
    reveal_with_fuel(joined_by, 3);
    let none = Seq::<char>::empty();
    let empty = split(none, none);
    assert(empty =~= seq![none, none]);
    assert(empty.drop_last() =~= seq![none]);
    assert(joined_by(empty, new_part) =~= new_part);
    let a = seq![none] + letters(s);
    let p = split(s, none);
    let q = split(s.push(c), none);
    assert(p =~= a.push(none));
    assert(q =~= a.push(seq![c]).push(none)) by {
        assert(letters(s.push(c)) =~= letters(s).push(seq![c]));
    }
    assert(p.drop_last() =~= a);
    assert(q.drop_last() =~= a.push(seq![c]));
    assert(a.push(seq![c]).drop_last() =~= a);
    assert(joined_by(q, new_part) =~= joined_by(p, new_part).push(c) + new_part);
}

} // verus!
