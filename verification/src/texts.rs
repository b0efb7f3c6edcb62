//! What the functions of `str` do.

use crate::ast::ValueModel;
use crate::draft::{FailureModel, PieceModel, PlanModel};
use crate::glob::matches_glob;
use crate::grammar::white;
use crate::number::truncated;
use crate::outcomes::{counts, gives, throws};
use crate::request::{EffectModel, RequestModel};
use crate::show::{decimal_of_nat_text, int_text, nat_text, shown};
use crate::strings::{
    break_at, drop_white, lemma_stands_at, letters, lines_from, lowercase, occurs_at, parsed_int, repeated, replaced,
    skip_white, split, stands_at, trimmed, uppercase,
};
use crate::strlib::{str_function, window};
use crate::summing::fits_in_bits;
use crate::text::{digit, digits_end};
use vstd::prelude::*;

verus! {

/// How the names of the functions of `str` are spelled, as far as it tells them apart.
proof fn lemma_names()
    ensures
        "Len"@.len() == 3 && "Len"@[0] == 'L',
        "Upper"@.len() == 5 && "Upper"@[0] == 'U',
        "Lower"@.len() == 5 && "Lower"@[0] == 'L' && "Lower"@[1] == 'o',
        "Trim"@.len() == 4 && "Trim"@[0] == 'T',
        "ToNum"@.len() == 5 && "ToNum"@[0] == 'T',
        "ParseFloat"@.len() == 10 && "ParseFloat"@[0] == 'P',
        "Lines"@.len() == 5 && "Lines"@[0] == 'L' && "Lines"@[1] == 'i',
        "Chars"@.len() == 5 && "Chars"@[0] == 'C',
        "ParseInt"@.len() == 8 && "ParseInt"@[0] == 'P',
        "Split"@.len() == 5 && "Split"@[0] == 'S',
        "Contains"@.len() == 8 && "Contains"@[0] == 'C',
        "StartsWith"@.len() == 10 && "StartsWith"@[0] == 'S',
        "EndsWith"@.len() == 8 && "EndsWith"@[0] == 'E',
        "TrimPrefix"@.len() == 10 && "TrimPrefix"@[0] == 'T' && "TrimPrefix"@[4] == 'P',
        "TrimSuffix"@.len() == 10 && "TrimSuffix"@[0] == 'T' && "TrimSuffix"@[4] == 'S',
        "Match"@.len() == 5 && "Match"@[0] == 'M',
        "Join"@.len() == 4 && "Join"@[0] == 'J',
        "Replace"@.len() == 7,
        "Sub"@.len() == 3 && "Sub"@[0] == 'S',
        "From"@.len() == 4 && "From"@[0] == 'F',
        "Repeat"@.len() == 6,
{
    reveal_strlit("Len");
    reveal_strlit("Upper");
    reveal_strlit("Lower");
    reveal_strlit("Trim");
    reveal_strlit("ToNum");
    reveal_strlit("ParseFloat");
    reveal_strlit("Lines");
    reveal_strlit("Chars");
    reveal_strlit("ParseInt");
    reveal_strlit("Split");
    reveal_strlit("Contains");
    reveal_strlit("StartsWith");
    reveal_strlit("EndsWith");
    reveal_strlit("TrimPrefix");
    reveal_strlit("TrimSuffix");
    reveal_strlit("Match");
    reveal_strlit("Join");
    reveal_strlit("Replace");
    reveal_strlit("Sub");
    reveal_strlit("From");
    reveal_strlit("Repeat");
}

pub open spec fn text(s: Seq<char>) -> ValueModel {
    ValueModel::String(s)
}

/// Texts as an array of strings.
pub open spec fn strings(parts: Seq<Seq<char>>) -> ValueModel {
    ValueModel::Array(Seq::new(parts.len(), |i: int| ValueModel::String(parts[i])))
}

/// `Len` counts the characters; `Upper` and `Lower` turn the case of letters.
pub proof fn length_and_case(s: Seq<char>)
    ensures
        counts(str_function("Len"@, seq![text(s)]), s.len()),
        gives(str_function("Upper"@, seq![text(s)]), text(uppercase(s))),
        gives(str_function("Lower"@, seq![text(s)]), text(lowercase(s))),
{
    lemma_names();
}

/// White space are the blanks, breaks and separators of Unicode.
pub proof fn white_space(c: char)
    ensures
        white(c) <==> c == ' ' || c == '\t' || c == '\n' || c == '\u{b}' || c == '\u{c}' || c == '\r' || c == '\u{85}' || c
            == '\u{a0}' || c == '\u{1680}' || (0x2000 <= c as u32 <= 0x200a) || c == '\u{2028}' || c == '\u{2029}' || c
            == '\u{202f}' || c == '\u{205f}' || c == '\u{3000}',
{
}

/// Whether a text is nothing but white space.
pub open spec fn is_blank(s: Seq<char>) -> bool {
    forall|i: int| 0 <= i < s.len() ==> white(#[trigger] s[i])
}

/// Whether a text neither starts nor ends with white space.
pub open spec fn is_tight(s: Seq<char>) -> bool {
    s.len() == 0 || (!white(s[0]) && !white(s.last()))
}

proof fn lemma_skip_white(s: Seq<char>, a: int, i: int)
    requires
        0 <= i <= a <= s.len(),
        forall|k: int| 0 <= k < a ==> white(#[trigger] s[k]),
        a < s.len() ==> !white(s[a]),
    ensures
        skip_white(s, i) == a,
    decreases a - i,
{
    if i < a {
        assert(white(s[i]));
        lemma_skip_white(s, a, i + 1);
    }
}

proof fn lemma_drop_white(s: Seq<char>, b: int, j: int, from: int)
    requires
        0 <= from <= b <= j <= s.len(),
        forall|k: int| b <= k < s.len() ==> white(#[trigger] s[k]),
        from < b ==> !white(s[b - 1]),
    ensures
        drop_white(s, j, from) == b,
    decreases j - b,
{
    if b < j {
        assert(white(s[j - 1]));
        lemma_drop_white(s, b, j - 1, from);
    }
}

/// `Trim` takes the white space at both ends away, and nothing else.
pub proof fn trim_takes_white_ends_away(p: Seq<char>, r: Seq<char>, q: Seq<char>)
    requires
        is_blank(p),
        is_tight(r),
        is_blank(q),
    ensures
        trimmed(p + r + q) == r,
        gives(str_function("Trim"@, seq![text(p + r + q)]), text(r)),
{
    lemma_names();
    let s = p + r + q;
    if r.len() == 0 {
        assert forall|k: int| 0 <= k < s.len() implies white(#[trigger] s[k]) by {
            if k < p.len() {
                assert(s[k] == p[k]);
            } else {
                assert(s[k] == q[k - p.len()]);
            }
        }
        lemma_skip_white(s, s.len() as int, 0);
        lemma_drop_white(s, s.len() as int, s.len() as int, s.len() as int);
        assert(trimmed(s) =~= r);
    } else {
        let a = p.len() as int;
        let b = (p.len() + r.len()) as int;
        assert(s[a] == r[0]);
        assert(s[b - 1] == r.last());
        assert forall|k: int| 0 <= k < a implies white(#[trigger] s[k]) by {
            assert(s[k] == p[k]);
        }
        assert forall|k: int| b <= k < s.len() implies white(#[trigger] s[k]) by {
            assert(s[k] == q[k - b]);
        }
        lemma_skip_white(s, a, 0);
        lemma_drop_white(s, b, s.len() as int, a);
        assert(trimmed(s) =~= r);
    }
}

/// `ToNum` and `ParseFloat` have the trimmed text read as a number.
pub proof fn numbers_are_read_trimmed(p: Seq<char>, r: Seq<char>, q: Seq<char>)
    requires
        is_blank(p),
        is_tight(r),
        is_blank(q),
    ensures
        str_function("ToNum"@, seq![text(p + r + q)]) == Ok::<_, FailureModel>(
            EffectModel::Ask(RequestModel::ParseNumber { text: r, shown: p + r + q }),
        ),
        str_function("ParseFloat"@, seq![text(p + r + q)]) == Ok::<_, FailureModel>(
            EffectModel::Ask(RequestModel::ParseNumber { text: r, shown: p + r + q }),
        ),
{
    lemma_names();
    trim_takes_white_ends_away(p, r, q);
}

proof fn lemma_digit_run(s: Seq<char>, i: int)
    requires
        0 <= i <= s.len(),
        forall|k: int| i <= k < s.len() ==> digit(#[trigger] s[k]),
    ensures
        digits_end(s, i) == s.len(),
    decreases s.len() - i,
{
    if i < s.len() {
        lemma_digit_run(s, i + 1);
    }
}

proof fn lemma_nat_digits(n: nat)
    ensures
        nat_text(n).len() > 0,
        forall|k: int| 0 <= k < nat_text(n).len() ==> digit(#[trigger] nat_text(n)[k]),
    decreases n,
{
    if n >= 10 {
        lemma_nat_digits(n / 10);
    }
}

/// Reading the decimal text of an integer gives the integer back, with a plus sign in front
/// or without.
pub proof fn written_integers_read_back(n: int)
    requires
        i64::MIN <= n <= i64::MAX,
    ensures
        parsed_int(int_text(n)) == Some(n),
        n >= 0 ==> parsed_int(seq!['+'] + int_text(n)) == Some(n),
{
    let m = if n < 0 {
        (-n) as nat
    } else {
        n as nat
    };
    let d = nat_text(m);
    lemma_nat_digits(m);
    decimal_of_nat_text(m);
    lemma_digit_run(d, 0);
    assert(digit(d[0]));
    let signed = seq!['-'] + d;
    let plus = seq!['+'] + d;
    assert(signed.subrange(1, signed.len() as int) =~= d);
    assert(plus.subrange(1, plus.len() as int) =~= d);
}

/// `ParseInt` reads an integer with white space around it.
pub proof fn parse_int_reads_integers(p: Seq<char>, n: int, q: Seq<char>)
    requires
        i64::MIN <= n <= i64::MAX,
        is_blank(p),
        is_blank(q),
    ensures
        str_function("ParseInt"@, seq![text(p + int_text(n) + q)]) == Ok::<_, FailureModel>(
            EffectModel::Plan(PlanModel::Integer(n as i64)),
        ),
{
    lemma_names();
    written_integers_read_back(n);
    let r = int_text(n);
    let d = nat_text(
        if n < 0 {
            (-n) as nat
        } else {
            n as nat
        },
    );
    lemma_nat_digits(
        if n < 0 {
            (-n) as nat
        } else {
            n as nat
        },
    );
    assert(digit(d[0]) && digit(d.last()));
    assert(n < 0 ==> r =~= seq!['-'] + d);
    assert(r.last() == d.last());
    assert(is_tight(r));
    trim_takes_white_ends_away(p, r, q);
}

/// What is no integer in decimal is refused: a text without digits, and one with any other
/// character behind its sign.
pub proof fn parse_int_refuses_the_rest(r: Seq<char>, k: int)
    requires
        is_tight(r),
        r.len() == 0 || (1 <= k < r.len() && !digit(r[k])),
    ensures
        throws(str_function("ParseInt"@, seq![text(r)]), "ValueError"@),
{
    lemma_names();
    let none = Seq::<char>::empty();
    assert(none + r + none =~= r);
    trim_takes_white_ends_away(none, r, none);
    if r.len() > 0 {
        let signed = r[0] == '-' || r[0] == '+';
        let digits = if signed {
            r.subrange(1, r.len() as int)
        } else {
            r
        };
        let at = if signed {
            k - 1
        } else {
            k
        };
        assert(digits[at] == r[k]);
        crate::text::lemma_digits_end(digits, 0);
        if digits_end(digits, 0) == digits.len() {
            assert(digit(digits[at]));
        }
    }
}

proof fn lemma_break_shift(s: Seq<char>, i: int, j: int)
    requires
        0 <= i <= s.len(),
        0 <= j,
    ensures
        break_at(s, i + j) == i + break_at(s.skip(i), j),
    decreases s.len() - i - j,
{
    if i + j < s.len() {
        assert(s.skip(i)[j] == s[i + j]);
        lemma_break_shift(s, i, j + 1);
    }
}

proof fn lemma_break_bounds(s: Seq<char>, i: int)
    requires
        0 <= i <= s.len(),
    ensures
        i <= break_at(s, i) <= s.len(),
    decreases s.len() - i,
{
    if i < s.len() && s[i] != '\n' {
        lemma_break_bounds(s, i + 1);
    }
}

proof fn lemma_lines_shift(s: Seq<char>, i: int, j: int)
    requires
        0 <= i <= s.len(),
        0 <= j,
    ensures
        lines_from(s, i + j) == lines_from(s.skip(i), j),
    decreases s.len() - i - j,
{
    let t = s.skip(i);
    if i + j < s.len() {
        lemma_break_shift(s, i, j);
        let e = break_at(t, j);
        lemma_break_bounds(t, j);
        if e < t.len() {
            assert(s.subrange(i + j, i + e) =~= t.subrange(j, e));
            lemma_lines_shift(s, i, e + 1);
        } else {
            assert(s.subrange(i + j, s.len() as int) =~= t.subrange(j, t.len() as int));
        }
    }
}

proof fn lemma_break_at(s: Seq<char>, k: int, i: int)
    requires
        0 <= i <= k <= s.len(),
        forall|j: int| 0 <= j < k ==> #[trigger] s[j] != '\n',
        k < s.len() ==> s[k] == '\n',
    ensures
        break_at(s, i) == k,
    decreases k - i,
{
    if i < k {
        lemma_break_at(s, k, i + 1);
    }
}

/// `Lines` gives the lines of a text, without their breaks; a carriage return in front of a
/// break belongs to it. Behind the last break there is a line only if anything is there.
pub proof fn lines_end_at_breaks(line: Seq<char>, rest: Seq<char>)
    requires
        forall|i: int| 0 <= i < line.len() ==> #[trigger] line[i] != '\n',
        line.len() == 0 || line.last() != '\r',
    ensures
        lines_from(line + seq!['\n'] + rest, 0) == seq![line] + lines_from(rest, 0),
        lines_from(line + seq!['\r', '\n'] + rest, 0) == seq![line] + lines_from(rest, 0),
        lines_from(line, 0) == (if line.len() == 0 {
            seq![]
        } else {
            seq![line]
        }),
        gives(str_function("Lines"@, seq![text(line + rest)]), strings(lines_from(line + rest, 0))),
{
    lemma_names();
    assert(crate::builtins::text_values(lines_from(line + rest, 0)) =~= strings(lines_from(line + rest, 0))->Array_0);
    let k = line.len() as int;
    let a = line + seq!['\n'] + rest;
    assert forall|j: int| 0 <= j < k implies #[trigger] a[j] != '\n' by {
        assert(a[j] == line[j]);
    }
    lemma_break_at(a, k, 0);
    assert(a.subrange(0, k) =~= line);
    assert(a.skip(k + 1) =~= rest);
    lemma_lines_shift(a, k + 1, 0);
    let b = line + seq!['\r', '\n'] + rest;
    assert forall|j: int| 0 <= j < k + 1 implies #[trigger] b[j] != '\n' by {
        if j < k {
            assert(b[j] == line[j]);
        }
    }
    lemma_break_at(b, k + 1, 0);
    assert(b.subrange(0, k + 1) =~= line.push('\r'));
    assert(line.push('\r').drop_last() =~= line);
    assert(b.skip(k + 2) =~= rest);
    lemma_lines_shift(b, k + 2, 0);
    if k > 0 {
        lemma_break_at(line, k, 0);
        assert(line.subrange(0, k) =~= line);
    }
}

/// `Chars` gives each character as a string, in order.
pub proof fn chars_are_single_strings(s: Seq<char>)
    ensures
        gives(
            str_function("Chars"@, seq![text(s)]),
            ValueModel::Array(Seq::new(s.len(), |i: int| ValueModel::String(seq![s[i]]))),
        ),
{
    lemma_names();
    assert(crate::builtins::text_values(letters(s)) =~= Seq::new(s.len(), |i: int| ValueModel::String(seq![s[i]])));
}

/// `Split` gives the pieces of its first argument between the places where its second one
/// stands.
pub proof fn split_takes_text_then_separator(s: Seq<char>, sep: Seq<char>)
    ensures
        gives(str_function("Split"@, seq![text(s), text(sep)]), strings(split(s, sep))),
{
    lemma_names();
    assert(crate::builtins::text_values(split(s, sep)) =~= strings(split(s, sep))->Array_0);
}

/// `Contains` says whether the second text stands anywhere in the first, `StartsWith` whether
/// at its start, `EndsWith` whether at its end.
pub proof fn searching_says_where(s: Seq<char>, part: Seq<char>)
    ensures
        gives(
            str_function("Contains"@, seq![text(s), text(part)]),
            ValueModel::Logic(exists|i: int| #[trigger] stands_at(s, part, i)),
        ),
        gives(str_function("StartsWith"@, seq![text(s), text(part)]), ValueModel::Logic(stands_at(s, part, 0))),
        gives(
            str_function("EndsWith"@, seq![text(s), text(part)]),
            ValueModel::Logic(stands_at(s, part, s.len() - part.len())),
        ),
{
    lemma_names();
    lemma_stands_at(s, part, 0);
    lemma_stands_at(s, part, s.len() - part.len());
    assert((exists|i: int| #[trigger] stands_at(s, part, i)) == crate::strings::contains(s, part)) by {
        if exists|i: int| #[trigger] stands_at(s, part, i) {
            let i = choose|i: int| #[trigger] stands_at(s, part, i);
            lemma_stands_at(s, part, i);
        } else if crate::strings::contains(s, part) {
            let i = choose|i: int| occurs_at(s, part, i);
            lemma_stands_at(s, part, i);
        }
    }
}

/// `TrimPrefix` takes the second text away where the first starts with it, `TrimSuffix` where
/// it ends with it; else both leave it as it is.
pub proof fn affixes_are_taken_away(s: Seq<char>, part: Seq<char>)
    ensures
        gives(str_function("TrimPrefix"@, seq![text(part + s), text(part)]), text(s)),
        gives(str_function("TrimSuffix"@, seq![text(s + part), text(part)]), text(s)),
        !stands_at(s, part, 0) ==> gives(str_function("TrimPrefix"@, seq![text(s), text(part)]), text(s)),
        !stands_at(s, part, s.len() - part.len()) ==> gives(
            str_function("TrimSuffix"@, seq![text(s), text(part)]),
            text(s),
        ),
{
    lemma_names();
    lemma_stands_at(s, part, 0);
    lemma_stands_at(s, part, s.len() - part.len());
    let a = part + s;
    assert(a.subrange(0, part.len() as int) =~= part);
    assert(a.subrange(part.len() as int, a.len() as int) =~= s);
    let b = s + part;
    assert(b.subrange(s.len() as int, b.len() as int) =~= part);
    assert(b.subrange(0, s.len() as int) =~= s);
}

/// `Match` holds its first argument against the pattern that is its second.
pub proof fn match_takes_text_then_pattern(s: Seq<char>, pattern: Seq<char>)
    ensures
        match matches_glob(pattern, s) {
            Ok(b) => gives(str_function("Match"@, seq![text(s), text(pattern)]), ValueModel::Logic(b)),
            Err(e) => str_function("Match"@, seq![text(s), text(pattern)]) == Err::<EffectModel, _>(e),
        },
{
    lemma_names();
}

/// `Replace` puts its third argument in its first for each place where the second stands.
pub proof fn replace_takes_text_old_new(s: Seq<char>, a: Seq<char>, b: Seq<char>)
    ensures
        gives(str_function("Replace"@, seq![text(s), text(a), text(b)]), text(replaced(s, a, b))),
{
    lemma_names();
}

/// `Sub` gives the characters from `start` on, in their order: all of them, or at most as
/// many as its third argument says.
pub proof fn sub_gives_a_stretch(s: Seq<char>, start: u64, len: u64, t: Seq<char>, u: Seq<char>)
    requires
        fits_in_bits(start),
        fits_in_bits(len),
        truncated(start) >= 0,
        truncated(len) >= 0,
        t.len() == (if truncated(start) < s.len() {
            s.len() - truncated(start)
        } else {
            0
        }),
        forall|k: int| 0 <= k < t.len() ==> t[k] == s[truncated(start) + k],
        u.len() == (if truncated(len) < t.len() {
            truncated(len)
        } else {
            t.len() as int
        }),
        forall|k: int| 0 <= k < u.len() ==> u[k] == t[k],
    ensures
        gives(str_function("Sub"@, seq![text(s), ValueModel::Number(start)]), text(t)),
        gives(str_function("Sub"@, seq![text(s), ValueModel::Number(start), ValueModel::Number(len)]), text(u)),
{
    lemma_names();
    assert(window(s, truncated(start), None) =~= t);
    assert(window(s, truncated(start), Some(truncated(len))) =~= u);
}

/// A part starts nowhere in front of the text, and is never shorter than nothing.
pub proof fn sub_is_not_negative(s: Seq<char>, start: u64, len: u64)
    requires
        fits_in_bits(start),
        fits_in_bits(len),
    ensures
        truncated(start) < 0 ==> throws(
            str_function("Sub"@, seq![text(s), ValueModel::Number(start)]),
            "ValueError"@,
        ),
        truncated(start) < 0 || truncated(len) < 0 ==> throws(
            str_function("Sub"@, seq![text(s), ValueModel::Number(start), ValueModel::Number(len)]),
            "ValueError"@,
        ),
{
    lemma_names();
}

/// `From` gives what is displayed of any value.
pub proof fn from_displays(v: ValueModel)
    ensures
        str_function("From"@, seq![v]) == Ok::<_, FailureModel>(EffectModel::Plan(PlanModel::Text(shown(v)))),
{
    lemma_names();
}

proof fn lemma_repeated(s: Seq<char>, n: int)
    requires
        n >= 0,
    ensures
        repeated(s, n).len() == s.len() * n,
        forall|k: int| 0 <= k < s.len() * n ==> #[trigger] repeated(s, n)[k] == s[k % (s.len() as int)],
    decreases n,
{
    let m = s.len() as int;
    if n > 0 {
        lemma_repeated(s, n - 1);
        assert(m * n == m * (n - 1) + m) by (nonlinear_arith);
        assert forall|k: int| 0 <= k < m * n implies #[trigger] repeated(s, n)[k] == s[k % m] by {
            if k >= m * (n - 1) {
                let j = k - m * (n - 1);
                vstd::arithmetic::div_mod::lemma_fundamental_div_mod_converse(k, m, n - 1, j);
            }
        }
    } else {
        assert(m * n == 0) by (nonlinear_arith)
            requires
                n == 0,
        ;
    }
}

/// `Repeat` gives the text so many times over: the text starts again wherever it ends.
pub proof fn repeat_starts_over(s: Seq<char>, n: u64, r: Seq<char>)
    requires
        fits_in_bits(n),
        truncated(n) >= 0,
        s.len() * truncated(n) <= 10_000_000,
        r.len() == s.len() * truncated(n),
        forall|k: int| 0 <= k < r.len() ==> #[trigger] r[k] == s[k % (s.len() as int)],
    ensures
        gives(str_function("Repeat"@, seq![text(s), ValueModel::Number(n)]), text(r)),
{
    lemma_names();
    lemma_repeated(s, truncated(n));
    let x = repeated(s, truncated(n));
    assert(x =~= r) by {
        assert forall|k: int| 0 <= k < r.len() implies x[k] == r[k] by {
            assert(x[k] == s[k % (s.len() as int)]);
            assert(r[k] == s[k % (s.len() as int)]);
        }
    }
}

/// A negative count is refused, and so is a text of more than ten million characters.
pub proof fn repeat_has_bounds(s: Seq<char>, n: u64)
    requires
        fits_in_bits(n),
        truncated(n) < 0 || s.len() * truncated(n) > 10_000_000,
    ensures
        throws(str_function("Repeat"@, seq![text(s), ValueModel::Number(n)]), "ValueError"@),
{
    lemma_names();
}

/// `str` joins as `arr` does.
pub proof fn both_join_alike(args: Seq<ValueModel>)
    ensures
        str_function("Join"@, args) == crate::arrlib::arr_function("Join"@, args),
{
    lemma_names();
    crate::arrays::lemma_names();
}

/// The functions of `str` want strings.
pub proof fn string_functions_need_strings(v: ValueModel, w: ValueModel, s: Seq<char>)
    requires
        !(v is String),
    ensures
        throws(str_function("Len"@, seq![v]), "TypeError"@),
        throws(str_function("Upper"@, seq![v]), "TypeError"@),
        throws(str_function("Lower"@, seq![v]), "TypeError"@),
        throws(str_function("Trim"@, seq![v]), "TypeError"@),
        throws(str_function("ToNum"@, seq![v]), "TypeError"@),
        throws(str_function("Split"@, seq![v, w]), "TypeError"@),
        throws(str_function("Split"@, seq![text(s), v]), "TypeError"@),
        throws(str_function("Contains"@, seq![v, w]), "TypeError"@),
        throws(str_function("Contains"@, seq![text(s), v]), "TypeError"@),
        throws(str_function("Match"@, seq![v, w]), "TypeError"@),
        throws(str_function("Replace"@, seq![v, w, w]), "TypeError"@),
        throws(str_function("Replace"@, seq![text(s), v, w]), "TypeError"@),
        throws(str_function("Replace"@, seq![text(s), text(s), v]), "TypeError"@),
        throws(str_function("Sub"@, seq![v, w]), "TypeError"@),
        throws(str_function("Repeat"@, seq![v, w]), "TypeError"@),
{
    lemma_names();
}

/// Every other name is unknown, and a wrong number of arguments is refused.
pub proof fn unknown_string_functions_are_refused(function: Seq<char>, args: Seq<ValueModel>)
    ensures
        !crate::strlib::takes_one(function) && !crate::strlib::takes_two(function) && function != "Join"@ && function
            != "Replace"@ && function != "Sub"@ && function != "From"@ && function != "Repeat"@ ==> throws(
            str_function(function, args),
            "NameError"@,
        ),
        crate::strlib::takes_one(function) && args.len() != 1 ==> throws(str_function(function, args), "ValueError"@),
        crate::strlib::takes_two(function) && args.len() != 2 ==> throws(str_function(function, args), "ValueError"@),
        args.len() != 3 ==> throws(str_function("Replace"@, args), "ValueError"@),
        args.len() != 2 && args.len() != 3 ==> throws(str_function("Sub"@, args), "ValueError"@),
        args.len() != 1 ==> throws(str_function("From"@, args), "ValueError"@),
        args.len() != 2 ==> throws(str_function("Repeat"@, args), "ValueError"@),
{
    lemma_names();
}

/// What is displayed: numbers as numbers, strings as they are, truth values and null as
/// words, errors as type and message, files and handles with what they stand for.
pub proof fn plain_values_are_displayed(
    n: u64,
    s: Seq<char>,
    b: bool,
    t: Seq<char>,
    id: u64,
)
    ensures
        shown(ValueModel::Number(n)) == seq![PieceModel::Number(n)],
        shown(text(s)) == seq![PieceModel::Text(s)],
        shown(ValueModel::Logic(true)) == seq![PieceModel::Text("true"@)],
        shown(ValueModel::Logic(false)) == seq![PieceModel::Text("false"@)],
        shown(ValueModel::Null) == seq![PieceModel::Text("null"@)],
        shown(ValueModel::Error { error_type: t, message: s }) == seq![PieceModel::Text(t + ": "@ + s)],
        shown(ValueModel::File { path: s }) == seq![PieceModel::Text("file("@ + s + ")"@)],
        shown(ValueModel::Db { id }) == seq![PieceModel::Text("db("@ + nat_text(id as nat) + ")"@)],
        shown(ValueModel::Gui { kind: crate::ast::GuiKind::Window, id }) == seq![
            PieceModel::Text("window"@ + "("@ + nat_text(id as nat) + ")"@),
        ],
        shown(ValueModel::Gui { kind: crate::ast::GuiKind::Button, id }) == seq![
            PieceModel::Text("button"@ + "("@ + nat_text(id as nat) + ")"@),
        ],
{
}

/// An array is displayed between brackets, its items with a comma and a blank between them;
/// an object between braces, each entry as its key, a colon, a blank and its value.
pub proof fn collections_are_displayed(
    items: Seq<ValueModel>,
    v: ValueModel,
    t: Seq<(Seq<char>, ValueModel)>,
    key: Seq<char>,
)
    ensures
        shown(ValueModel::Array(seq![])) == seq![PieceModel::Text("["@), PieceModel::Text("]"@)],
        shown(ValueModel::Array(seq![v])) == seq![PieceModel::Text("["@)] + shown(v) + seq![PieceModel::Text("]"@)],
        items.len() > 0 ==> shown(ValueModel::Array(items.push(v))) == shown(ValueModel::Array(items)).drop_last()
            + seq![PieceModel::Text(", "@)] + shown(v) + seq![PieceModel::Text("]"@)],
        shown(ValueModel::Object(seq![])) == seq![PieceModel::Text("{"@), PieceModel::Text("}"@)],
        shown(ValueModel::Object(seq![(key, v)])) == seq![PieceModel::Text("{"@), PieceModel::Text(key + ": "@)]
            + shown(v) + seq![PieceModel::Text("}"@)],
        t.len() > 0 ==> shown(ValueModel::Object(t.push((key, v)))) == shown(ValueModel::Object(t)).drop_last() + seq![
            PieceModel::Text(", "@),
            PieceModel::Text(key + ": "@),
        ] + shown(v) + seq![PieceModel::Text("}"@)],
{
    reveal_with_fuel(shown, 3);
    lemma_shown_array(seq![], v);
    lemma_shown_array(items, v);
    lemma_shown_object(seq![], key, v);
    lemma_shown_object(t, key, v);
    assert(Seq::<ValueModel>::empty().push(v) =~= seq![v]);
    assert(Seq::<(Seq<char>, ValueModel)>::empty().push((key, v)) =~= seq![(key, v)]);
    assert(shown(ValueModel::Array(seq![])) =~= seq![PieceModel::Text("["@), PieceModel::Text("]"@)]);
    assert(shown(ValueModel::Object(seq![])) =~= seq![PieceModel::Text("{"@), PieceModel::Text("}"@)]);
}

proof fn lemma_shown_array(items: Seq<ValueModel>, v: ValueModel)
    ensures
        items.len() == 0 ==> shown(ValueModel::Array(items.push(v))) == seq![PieceModel::Text("["@)] + shown(v) + seq![
            PieceModel::Text("]"@),
        ],
        items.len() > 0 ==> shown(ValueModel::Array(items.push(v))) == shown(ValueModel::Array(items)).drop_last()
            + seq![PieceModel::Text(", "@)] + shown(v) + seq![PieceModel::Text("]"@)],
{
    let n = items.len() as int;
    let all = items.push(v);
    let open = seq![PieceModel::Text("["@)];
    let close = seq![PieceModel::Text("]"@)];
    let before = crate::show::shown_list(items, ", "@, n);
    crate::arrays::lemma_shown_prefix(items, v, ", "@, n);
    assert(shown(ValueModel::Array(all)) == open + crate::show::shown_list(all, ", "@, n + 1) + close);
    assert(shown(ValueModel::Array(items)) == open + before + close);
    if n > 0 {
        assert(crate::show::shown_list(all, ", "@, n + 1) == before.push(PieceModel::Text(", "@)) + shown(v));
        assert((open + before + close).drop_last() =~= open + before);
        assert(shown(ValueModel::Array(all)) =~= open + before + seq![PieceModel::Text(", "@)] + shown(v) + close);
    } else {
        assert(crate::show::shown_list(all, ", "@, 1) == shown(v));
    }
}

proof fn lemma_shown_entries(t: Seq<(Seq<char>, ValueModel)>, e: (Seq<char>, ValueModel), n: int)
    requires
        0 <= n <= t.len(),
    ensures
        crate::show::shown_entries(t.push(e), n) == crate::show::shown_entries(t, n),
    decreases n,
{
    if n > 1 {
        lemma_shown_entries(t, e, n - 1);
    }
}

proof fn lemma_shown_object(t: Seq<(Seq<char>, ValueModel)>, key: Seq<char>, v: ValueModel)
    ensures
        t.len() == 0 ==> shown(ValueModel::Object(t.push((key, v)))) == seq![
            PieceModel::Text("{"@),
            PieceModel::Text(key + ": "@),
        ] + shown(v) + seq![PieceModel::Text("}"@)],
        t.len() > 0 ==> shown(ValueModel::Object(t.push((key, v)))) == shown(ValueModel::Object(t)).drop_last() + seq![
            PieceModel::Text(", "@),
            PieceModel::Text(key + ": "@),
        ] + shown(v) + seq![PieceModel::Text("}"@)],
{
    let n = t.len() as int;
    let all = t.push((key, v));
    let open = seq![PieceModel::Text("{"@)];
    let close = seq![PieceModel::Text("}"@)];
    let entry = seq![PieceModel::Text(key + ": "@)] + shown(v);
    let before = crate::show::shown_entries(t, n);
    lemma_shown_entries(t, (key, v), n);
    assert(shown(ValueModel::Object(all)) == open + crate::show::shown_entries(all, n + 1) + close);
    assert(shown(ValueModel::Object(t)) == open + before + close);
    if n > 0 {
        assert(crate::show::shown_entries(all, n + 1) == before.push(PieceModel::Text(", "@)) + entry);
        assert((open + before + close).drop_last() =~= open + before);
        assert(shown(ValueModel::Object(all)) =~= open + before + seq![
            PieceModel::Text(", "@),
            PieceModel::Text(key + ": "@),
        ] + shown(v) + close);
    } else {
        assert(crate::show::shown_entries(all, 1) == entry);
        assert(shown(ValueModel::Object(all)) =~= seq![PieceModel::Text("{"@), PieceModel::Text(key + ": "@)] + shown(v)
            + close);
    }
}

} // verus!
