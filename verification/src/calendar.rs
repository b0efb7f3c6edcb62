//! What the dates and times are that are written out.

use crate::clock::{date_is_unique, date_of, formatted, is_date, padded, zeros, Date};
use crate::show::{decimal_of_nat_text, nat_text};
use crate::strings::{replace_goes_from_the_front, replaced, stands_at};
use crate::text::{decimal, digit};
use vstd::prelude::*;

verus! {

/// The days that a month has: January, March, May, July, August, October and December have
/// 31, the others 30, but for February, which has 29 in a leap year and else 28. Every
/// fourth year is a leap year, but of the full hundreds only every fourth.
pub open spec fn month_length(year: int, month: int) -> int {
    if month == 2 {
        if year % 400 == 0 || (year % 4 == 0 && year % 100 != 0) {
            29
        } else {
            28
        }
    } else if month == 4 || month == 6 || month == 9 || month == 11 {
        30
    } else {
        31
    }
}

/// The day after a date.
pub open spec fn next_day(d: Date) -> Date {
    if d.day < month_length(d.year as int, d.month as int) {
        Date { day: (d.day + 1) as i64, ..d }
    } else if d.month < 12 {
        Date { month: (d.month + 1) as i64, day: 1, ..d }
    } else {
        Date { year: (d.year + 1) as i64, month: 1, day: 1 }
    }
}

/// The days are counted from 1 January 1970, one by one as the calendar has them.
pub proof fn days_are_counted_one_by_one(d: Date)
    requires
        d.valid(),
        d.year < i64::MAX,
    ensures
        next_day(d).valid(),
        next_day(d).number() == d.number() + 1,
        (Date { year: 1970, month: 1, day: 1 }).valid(),
        (Date { year: 1970, month: 1, day: 1 }).number() == 0,
{
    reveal(crate::clock::days_before_year);
    reveal(crate::clock::leap);
    crate::clock::lemma_next_year(d.year as int);
}

/// A valid date has a month from 1 to 12 and a day that its month has.
pub proof fn dates_are_within_their_months(d: Date)
    ensures
        d.valid() <==> 1 <= d.month <= 12 && 1 <= d.day <= month_length(d.year as int, d.month as int),
{
    lemma_leap(d.year as int);
}

proof fn lemma_leap(y: int)
    ensures
        crate::clock::leap(y) == (y % 400 == 0 || (y % 4 == 0 && y % 100 != 0)),
{
    reveal(crate::clock::leap);
    assert(y % 400 == 0 ==> y % 4 == 0);
}

/// Whether `f` writes the number `n` with at least `width` digits, and zeros in front only
/// up to that width.
pub open spec fn writes(f: Seq<char>, n: int, width: int) -> bool {
    &&& forall|i: int| 0 <= i < f.len() ==> digit(#[trigger] f[i])
    &&& decimal(f) == n
    &&& f.len() >= width
    &&& f.len() > width ==> f[0] != '0'
}

proof fn lemma_nat_text(n: nat)
    ensures
        forall|i: int| 0 <= i < nat_text(n).len() ==> digit(#[trigger] nat_text(n)[i]),
        nat_text(n).len() > 0,
        n > 0 ==> nat_text(n)[0] != '0',
    decreases n,
{
    if n >= 10 {
        lemma_nat_text(n / 10);
    }
}

proof fn lemma_zeros(k: int, s: Seq<char>)
    ensures
        zeros(k).len() == (if k <= 0 {
            0
        } else {
            k
        }),
        forall|i: int| 0 <= i < zeros(k).len() ==> zeros(k)[i] == '0',
        decimal(zeros(k) + s) == decimal(s),
    decreases k, s.len(),
{
    if k > 0 {
        lemma_zeros(k - 1, seq!['0']);
    }
    if s.len() > 0 {
        lemma_zeros(k, s.drop_last());
        assert((zeros(k) + s).drop_last() =~= zeros(k) + s.drop_last());
    } else if k > 0 {
        lemma_zeros(k - 1, seq![]);
        assert((zeros(k) + s).drop_last() =~= zeros(k - 1) + Seq::<char>::empty());
    } else {
        assert(zeros(k) + s =~= s);
    }
}

/// A field of a date is the number in decimal, filled up with zeros in front; below zero it
/// has the sign in front of them.
pub proof fn fields_are_padded_numbers(n: int, width: int)
    requires
        width >= 1,
    ensures
        n >= 0 ==> writes(padded(n, width), n, width),
        n < 0 ==> padded(n, width).len() > 0 && padded(n, width)[0] == '-' && writes(
            padded(n, width).skip(1),
            -n,
            width - 1,
        ),
{
    let m = if n < 0 {
        (-n) as nat
    } else {
        n as nat
    };
    let w = if n < 0 {
        width - 1
    } else {
        width
    };
    let t = nat_text(m);
    lemma_nat_text(m);
    decimal_of_nat_text(m);
    lemma_zeros(w - t.len(), t);
    let f = zeros(w - t.len()) + t;
    assert(m == 0 ==> t.len() == 1);
    if n < 0 {
        assert(padded(n, width) =~= seq!['-'] + f);
        assert(padded(n, width).skip(1) =~= f);
    }
}

/// Whether a text has none of the letters that stand for parts of a date.
pub open spec fn plain(s: Seq<char>) -> bool {
    forall|i: int|
        0 <= i < s.len() ==> (#[trigger] s[i]) != 'Y' && s[i] != 'M' && s[i] != 'D' && s[i] != 'H' && s[i] != 'm'
            && s[i] != 'S'
}

/// Whether a text has no `c`.
spec fn lacks(s: Seq<char>, c: char) -> bool {
    forall|i: int| 0 <= i < s.len() ==> #[trigger] s[i] != c
}

proof fn lemma_lacks(x: Seq<char>, y: Seq<char>, z: Seq<char>, c: char)
    requires
        lacks(x, c),
        lacks(y, c),
        lacks(z, c),
    ensures
        lacks(x + y + z, c),
{
}

proof fn lemma_plain(s: Seq<char>)
    requires
        plain(s),
    ensures
        lacks(s, 'Y'),
        lacks(s, 'M'),
        lacks(s, 'D'),
        lacks(s, 'H'),
        lacks(s, 'm'),
        lacks(s, 'S'),
{
}

/// One more part is filled in, behind what has been done.
proof fn lemma_fill(done: Seq<char>, between: Seq<char>, part: Seq<char>, rest: Seq<char>, new_part: Seq<char>)
    requires
        part.len() > 0,
        lacks(done, part[0]),
        lacks(between, part[0]),
        lacks(rest, part[0]),
    ensures
        replaced(done + (between + part + rest), part, new_part) == done + between + new_part + rest,
{
    assert(done + (between + part + rest) =~= (done + between) + part + rest);
    lemma_once(done + between, part, rest, new_part);
}

proof fn lemma_absent(s: Seq<char>, part: Seq<char>, new_part: Seq<char>)
    requires
        part.len() > 0,
        forall|i: int| 0 <= i < s.len() ==> #[trigger] s[i] != part[0],
    ensures
        replaced(s, part, new_part) == s,
{
    assert forall|i: int| 0 <= i <= s.len() implies !stands_at(s, part, i) by {
        if stands_at(s, part, i) {
            assert(s[i + 0] == part[0]);
        }
    }
    replace_goes_from_the_front(s, part, new_part, 0);
}

proof fn lemma_once(x: Seq<char>, part: Seq<char>, y: Seq<char>, new_part: Seq<char>)
    requires
        part.len() > 0,
        forall|i: int| 0 <= i < x.len() ==> #[trigger] x[i] != part[0],
        forall|i: int| 0 <= i < y.len() ==> #[trigger] y[i] != part[0],
    ensures
        replaced(x + part + y, part, new_part) == x + new_part + y,
{
    let s = x + part + y;
    let k = x.len() as int;
    assert forall|j: int| 0 <= j < part.len() implies #[trigger] s[k + j] == part[j] by {}
    assert forall|i: int| 0 <= i < k implies !stands_at(s, part, i) by {
        if stands_at(s, part, i) {
            assert(s[i + 0] == part[0]);
            assert(s[i] == x[i]);
        }
    }
    replace_goes_from_the_front(s, part, new_part, k);
    assert(s.take(k) =~= x);
    assert(s.skip(k + part.len()) =~= y);
    lemma_absent(y, part, new_part);
}

proof fn lemma_padded_plain(n: int, width: int)
    requires
        width >= 1,
    ensures
        plain(padded(n, width)),
{
    fields_are_padded_numbers(n, width);
    let f = padded(n, width);
    assert forall|i: int| 0 <= i < f.len() implies (#[trigger] f[i]) != 'Y' && f[i] != 'M' && f[i] != 'D' && f[i] != 'H'
        && f[i] != 'm' && f[i] != 'S' by {
        if n < 0 {
            if i > 0 {
                assert(digit(f.skip(1)[i - 1]));
            }
        } else {
            assert(digit(f[i]));
        }
    }
}

/// Whether a moment, in milliseconds since the start of 1970, falls into this second of this
/// day.
pub open spec fn falls_into(millis: int, d: Date, h: int, m: int, s: int) -> bool {
    &&& d.valid()
    &&& 0 <= h < 24
    &&& 0 <= m < 60
    &&& 0 <= s < 60
    &&& 0 <= millis - 1000 * (86_400 * d.number() + 3600 * h + 60 * m + s) < 1000
}

proof fn lemma_moment(millis: int, d: Date, h: int, m: int, s: int)
    requires
        falls_into(millis, d, h, m, s),
    ensures
        ({
            let secs = millis / 1000;
            let time = secs % 86_400;
            &&& date_of(secs / 86_400) == d
            &&& time / 3600 == h
            &&& (time % 3600) / 60 == m
            &&& time % 60 == s
        }),
{
    let secs = millis / 1000;
    assert(secs == 86_400 * d.number() + 3600 * h + 60 * m + s);
    assert(secs / 86_400 == d.number());
    assert(is_date(d, secs / 86_400));
    date_is_unique(d, date_of(secs / 86_400));
}

proof fn lemma_parts()
    ensures
        "YYYY"@ =~= seq!['Y', 'Y', 'Y', 'Y'],
        "MM"@ =~= seq!['M', 'M'],
        "DD"@ =~= seq!['D', 'D'],
        "HH"@ =~= seq!['H', 'H'],
        "mm"@ =~= seq!['m', 'm'],
        "SS"@ =~= seq!['S', 'S'],
{
    reveal_strlit("YYYY");
    reveal_strlit("MM");
    reveal_strlit("DD");
    reveal_strlit("HH");
    reveal_strlit("mm");
    reveal_strlit("SS");
}

/// A pattern that holds year, month, day, hour, minute and second, with other text around
/// and between them, comes out with the numbers in their places and the other text as it is.
pub proof fn every_field_is_filled_in(
    millis: int,
    d: Date,
    h: int,
    m: int,
    s: int,
    a: Seq<char>,
    b: Seq<char>,
    c: Seq<char>,
    e: Seq<char>,
    f: Seq<char>,
    g: Seq<char>,
    z: Seq<char>,
)
    requires
        falls_into(millis, d, h, m, s),
        plain(a),
        plain(b),
        plain(c),
        plain(e),
        plain(f),
        plain(g),
        plain(z),
    ensures
        formatted(
            millis,
            a + "YYYY"@ + (b + "MM"@ + (c + "DD"@ + (e + "HH"@ + (f + "mm"@ + (g + "SS"@ + z))))),
        ) == a + padded(d.year as int, 4) + b + padded(d.month as int, 2) + c + padded(d.day as int, 2) + e + padded(
            h,
            2,
        ) + f + padded(m, 2) + g + padded(s, 2) + z,
{
    lemma_moment(millis, d, h, m, s);
    lemma_padded_plain(d.year as int, 4);
    lemma_padded_plain(d.month as int, 2);
    lemma_padded_plain(d.day as int, 2);
    lemma_padded_plain(h, 2);
    lemma_padded_plain(m, 2);
    lemma_padded_plain(s, 2);
    lemma_all_filled(
        seq![a, b, c, e, f, g, z],
        padded(d.year as int, 4),
        padded(d.month as int, 2),
        padded(d.day as int, 2),
        padded(h, 2),
        padded(m, 2),
        padded(s, 2),
    );
}

/// What a part lacks.
proof fn lemma_part_lacks()
    ensures
        lacks("MM"@, 'Y') && lacks("DD"@, 'Y') && lacks("HH"@, 'Y') && lacks("mm"@, 'Y') && lacks("SS"@, 'Y'),
        lacks("DD"@, 'M') && lacks("HH"@, 'M') && lacks("mm"@, 'M') && lacks("SS"@, 'M'),
        lacks("HH"@, 'D') && lacks("mm"@, 'D') && lacks("SS"@, 'D'),
        lacks("mm"@, 'H') && lacks("SS"@, 'H'),
        lacks("SS"@, 'm'),
{
    lemma_parts();
}

/// The texts behind each part lack the letters of the parts in front.
proof fn lemma_rests(p: Seq<Seq<char>>)
    requires
        p.len() == 7,
        forall|i: int| 0 <= i < 7 ==> plain(#[trigger] p[i]),
    ensures
        ({
            let r5 = p[5] + "SS"@ + p[6];
            let r4 = p[4] + "mm"@ + r5;
            let r3 = p[3] + "HH"@ + r4;
            let r2 = p[2] + "DD"@ + r3;
            let r1 = p[1] + "MM"@ + r2;
            lacks(r1, 'Y') && lacks(r2, 'M') && lacks(r3, 'D') && lacks(r4, 'H') && lacks(r5, 'm')
        }),
{
    lemma_part_lacks();
    let r5 = p[5] + "SS"@ + p[6];
    let r4 = p[4] + "mm"@ + r5;
    let r3 = p[3] + "HH"@ + r4;
    let r2 = p[2] + "DD"@ + r3;
    assert forall|i: int| 0 <= i < 7 implies lacks(#[trigger] p[i], 'Y') && lacks(p[i], 'M') && lacks(p[i], 'D')
        && lacks(p[i], 'H') && lacks(p[i], 'm') by {
        lemma_plain(p[i]);
    }
    lemma_lacks(p[5], "SS"@, p[6], 'Y');
    lemma_lacks(p[5], "SS"@, p[6], 'M');
    lemma_lacks(p[5], "SS"@, p[6], 'D');
    lemma_lacks(p[5], "SS"@, p[6], 'H');
    lemma_lacks(p[5], "SS"@, p[6], 'm');
    lemma_lacks(p[4], "mm"@, r5, 'Y');
    lemma_lacks(p[4], "mm"@, r5, 'M');
    lemma_lacks(p[4], "mm"@, r5, 'D');
    lemma_lacks(p[4], "mm"@, r5, 'H');
    lemma_lacks(p[3], "HH"@, r4, 'Y');
    lemma_lacks(p[3], "HH"@, r4, 'M');
    lemma_lacks(p[3], "HH"@, r4, 'D');
    lemma_lacks(p[2], "DD"@, r3, 'Y');
    lemma_lacks(p[2], "DD"@, r3, 'M');
    lemma_lacks(p[1], "MM"@, r2, 'Y');
}

proof fn lemma_plain_more(x: Seq<char>, y: Seq<char>, z: Seq<char>)
    requires
        plain(x),
        plain(y),
        plain(z),
    ensures
        plain(x + y + z),
{
}

proof fn lemma_all_filled(
    p: Seq<Seq<char>>,
    y4: Seq<char>,
    m2: Seq<char>,
    d2: Seq<char>,
    h2: Seq<char>,
    n2: Seq<char>,
    s2: Seq<char>,
)
    requires
        p.len() == 7,
        forall|i: int| 0 <= i < 7 ==> plain(#[trigger] p[i]),
        plain(y4) && plain(m2) && plain(d2) && plain(h2) && plain(n2),
    ensures
        ({
            let t = p[0] + "YYYY"@ + (p[1] + "MM"@ + (p[2] + "DD"@ + (p[3] + "HH"@ + (p[4] + "mm"@ + (p[5] + "SS"@
                + p[6])))));
            let a = replaced(t, "YYYY"@, y4);
            let b = replaced(a, "MM"@, m2);
            let c = replaced(b, "DD"@, d2);
            let e = replaced(c, "HH"@, h2);
            let f = replaced(e, "mm"@, n2);
            replaced(f, "SS"@, s2) == p[0] + y4 + p[1] + m2 + p[2] + d2 + p[3] + h2 + p[4] + n2 + p[5] + s2 + p[6]
        }),
{
    lemma_rests(p);
    lemma_parts();
    let r5 = p[5] + "SS"@ + p[6];
    let r4 = p[4] + "mm"@ + r5;
    let r3 = p[3] + "HH"@ + r4;
    let r2 = p[2] + "DD"@ + r3;
    let r1 = p[1] + "MM"@ + r2;
    lemma_plain(p[0]);
    lemma_once(p[0], "YYYY"@, r1, y4);
    let none = Seq::<char>::empty();
    let l1 = p[0] + y4;
    lemma_plain_more(p[0], y4, none);
    assert(l1 + none =~= l1);
    lemma_plain(l1);
    lemma_plain(p[1]);
    lemma_fill(l1, p[1], "MM"@, r2, m2);
    let l2 = l1 + p[1] + m2;
    lemma_plain_more(l1, p[1], m2);
    lemma_plain(l2);
    lemma_plain(p[2]);
    lemma_fill(l2, p[2], "DD"@, r3, d2);
    let l3 = l2 + p[2] + d2;
    lemma_plain_more(l2, p[2], d2);
    lemma_plain(l3);
    lemma_plain(p[3]);
    lemma_fill(l3, p[3], "HH"@, r4, h2);
    let l4 = l3 + p[3] + h2;
    lemma_plain_more(l3, p[3], h2);
    lemma_plain(l4);
    lemma_plain(p[4]);
    lemma_fill(l4, p[4], "mm"@, r5, n2);
    let l5 = l4 + p[4] + n2;
    lemma_plain_more(l4, p[4], n2);
    lemma_plain(l5);
    lemma_plain(p[5]);
    lemma_plain(p[6]);
    lemma_fill(l5, p[5], "SS"@, p[6], s2);
}

/// A pattern with one part of a date or time comes out with the number of that part in its
/// place; one without any comes out as it is.
pub proof fn each_field_stands_for_its_part(
    millis: int,
    d: Date,
    h: int,
    m: int,
    s: int,
    a: Seq<char>,
    z: Seq<char>,
)
    requires
        falls_into(millis, d, h, m, s),
        plain(a),
        plain(z),
    ensures
        formatted(millis, a + "YYYY"@ + z) == a + padded(d.year as int, 4) + z,
        formatted(millis, a + "MM"@ + z) == a + padded(d.month as int, 2) + z,
        formatted(millis, a + "DD"@ + z) == a + padded(d.day as int, 2) + z,
        formatted(millis, a + "HH"@ + z) == a + padded(h, 2) + z,
        formatted(millis, a + "mm"@ + z) == a + padded(m, 2) + z,
        formatted(millis, a + "SS"@ + z) == a + padded(s, 2) + z,
        formatted(millis, a) == a,
{
    lemma_moment(millis, d, h, m, s);
    lemma_parts();
    lemma_padded_plain(d.year as int, 4);
    lemma_padded_plain(d.month as int, 2);
    lemma_padded_plain(d.day as int, 2);
    lemma_padded_plain(h, 2);
    lemma_padded_plain(m, 2);
    lemma_padded_plain(s, 2);
    let v = seq![
        padded(d.year as int, 4),
        padded(d.month as int, 2),
        padded(d.day as int, 2),
        padded(h, 2),
        padded(m, 2),
        padded(s, 2),
    ];
    let t = seq!["YYYY"@, "MM"@, "DD"@, "HH"@, "mm"@, "SS"@];
    lemma_single(a, z, t, v, 0);
    lemma_single(a, z, t, v, 1);
    lemma_single(a, z, t, v, 2);
    lemma_single(a, z, t, v, 3);
    lemma_single(a, z, t, v, 4);
    lemma_single(a, z, t, v, 5);
    lemma_untouched(a, t, v);
}

proof fn lemma_untouched(s: Seq<char>, t: Seq<Seq<char>>, v: Seq<Seq<char>>)
    requires
        plain(s),
        t.len() == 6,
        v.len() == 6,
        t =~= seq!["YYYY"@, "MM"@, "DD"@, "HH"@, "mm"@, "SS"@],
    ensures
        replaced(s, t[0], v[0]) == s,
        replaced(s, t[1], v[1]) == s,
        replaced(s, t[2], v[2]) == s,
        replaced(s, t[3], v[3]) == s,
        replaced(s, t[4], v[4]) == s,
        replaced(s, t[5], v[5]) == s,
{
    lemma_parts();
    lemma_absent(s, t[0], v[0]);
    lemma_absent(s, t[1], v[1]);
    lemma_absent(s, t[2], v[2]);
    lemma_absent(s, t[3], v[3]);
    lemma_absent(s, t[4], v[4]);
    lemma_absent(s, t[5], v[5]);
}

/// The replacements in front of the `k`th leave its pattern alone, and those behind it what
/// it has been replaced by.
proof fn lemma_single(a: Seq<char>, z: Seq<char>, t: Seq<Seq<char>>, v: Seq<Seq<char>>, k: int)
    requires
        plain(a),
        plain(z),
        t.len() == 6,
        v.len() == 6,
        0 <= k < 6,
        t =~= seq!["YYYY"@, "MM"@, "DD"@, "HH"@, "mm"@, "SS"@],
        plain(v[k]),
    ensures
        ({
            let p = a + t[k] + z;
            let q = a + v[k] + z;
            &&& k > 0 ==> replaced(p, t[0], v[0]) == p
            &&& k > 1 ==> replaced(p, t[1], v[1]) == p
            &&& k > 2 ==> replaced(p, t[2], v[2]) == p
            &&& k > 3 ==> replaced(p, t[3], v[3]) == p
            &&& k > 4 ==> replaced(p, t[4], v[4]) == p
            &&& replaced(p, t[k], v[k]) == q
            &&& replaced(q, t[0], v[0]) == q
            &&& replaced(q, t[1], v[1]) == q
            &&& replaced(q, t[2], v[2]) == q
            &&& replaced(q, t[3], v[3]) == q
            &&& replaced(q, t[4], v[4]) == q
            &&& replaced(q, t[5], v[5]) == q
        }),
{
    lemma_parts();
    let p = a + t[k] + z;
    let q = a + v[k] + z;
    assert(plain(q));
    lemma_untouched(q, t, v);
    lemma_once(a, t[k], z, v[k]);
    if k > 0 {
        lemma_absent(p, t[0], v[0]);
    }
    if k > 1 {
        lemma_absent(p, t[1], v[1]);
    }
    if k > 2 {
        lemma_absent(p, t[2], v[2]);
    }
    if k > 3 {
        lemma_absent(p, t[3], v[3]);
    }
    if k > 4 {
        lemma_absent(p, t[4], v[4]);
    }
}

/// `HH:mm:SS` writes three numbers of two digits, and hours, minutes and seconds make up the
/// second of the day.
pub proof fn time_of_day_reads_back(millis: int, d: Date, h: int, m: int, s: int)
    requires
        falls_into(millis, d, h, m, s),
    ensures
        ({
            let t = formatted(millis, "HH:mm:SS"@);
            &&& t.len() == 8
            &&& t[2] == ':'
            &&& t[5] == ':'
            &&& decimal(t.subrange(0, 2)) < 24
            &&& decimal(t.subrange(3, 5)) < 60
            &&& decimal(t.subrange(6, 8)) < 60
            &&& 3600 * decimal(t.subrange(0, 2)) + 60 * decimal(t.subrange(3, 5)) + decimal(t.subrange(6, 8)) == (
            millis / 1000) % 86_400
        }),
{
    lemma_moment(millis, d, h, m, s);
    lemma_parts();
    reveal_strlit("HH:mm:SS");
    let h2 = padded(h, 2);
    let n2 = padded(m, 2);
    let s2 = padded(s, 2);
    lemma_two_digits(h);
    lemma_two_digits(m);
    lemma_two_digits(s);
    lemma_padded_plain(h, 2);
    lemma_padded_plain(m, 2);
    lemma_padded_plain(s, 2);
    let p = "HH:mm:SS"@;
    let none = Seq::<char>::empty();
    let colon = seq![':'];
    lemma_absent(p, "YYYY"@, padded(d.year as int, 4));
    lemma_absent(p, "MM"@, padded(d.month as int, 2));
    lemma_absent(p, "DD"@, padded(d.day as int, 2));
    let r1 = colon + "mm"@ + colon + "SS"@;
    assert(p =~= none + "HH"@ + r1);
    lemma_once(none, "HH"@, r1, h2);
    let r2 = colon + "SS"@;
    let l2 = h2 + colon;
    assert(none + h2 + r1 =~= l2 + "mm"@ + r2);
    lemma_once(l2, "mm"@, r2, n2);
    let l3 = l2 + n2 + colon;
    assert(l2 + n2 + r2 =~= l3 + "SS"@ + none);
    lemma_once(l3, "SS"@, none, s2);
    let t = formatted(millis, p);
    assert(t == l3 + s2 + none);
    assert(t.subrange(0, 2) =~= h2);
    assert(t.subrange(3, 5) =~= n2);
    assert(t.subrange(6, 8) =~= s2);
    assert((millis / 1000) % 86_400 == 3600 * h + 60 * m + s);
}

proof fn lemma_two_digits(n: int)
    requires
        0 <= n < 100,
    ensures
        padded(n, 2).len() == 2,
        decimal(padded(n, 2)) == n,
{
    fields_are_padded_numbers(n, 2);
    reveal_with_fuel(nat_text, 3);
    reveal_with_fuel(zeros, 3);
}

} // verus!
