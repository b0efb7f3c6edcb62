//! Dates from a count of milliseconds.

use crate::show::{nat_text, write_nat};
use crate::strings::{replaced, str_replace};
use vstd::prelude::*;

verus! {

/// The days from the start of year 1 to the start of year `y`.
#[verifier::opaque]
pub open spec fn days_before_year(y: int) -> int {
    365 * (y - 1) + (y - 1) / 4 - (y - 1) / 100 + (y - 1) / 400
}

#[verifier::opaque]
pub open spec fn leap(y: int) -> bool {
    y % 4 == 0 && (y % 100 != 0 || y % 400 == 0)
}

/// The days of year `y` in front of month `m`.
pub open spec fn days_before_month(y: int, m: int) -> int {
    (if m == 1 {
        0int
    } else if m == 2 {
        31
    } else if m == 3 {
        59
    } else if m == 4 {
        90
    } else if m == 5 {
        120
    } else if m == 6 {
        151
    } else if m == 7 {
        181
    } else if m == 8 {
        212
    } else if m == 9 {
        243
    } else if m == 10 {
        273
    } else if m == 11 {
        304
    } else {
        334
    }) + (if m > 2 && leap(y) {
        1int
    } else {
        0int
    })
}

/// The days of month `m` of year `y`.
pub open spec fn days_in_month(y: int, m: int) -> int {
    if m == 2 {
        if leap(y) {
            29
        } else {
            28
        }
    } else if m == 4 || m == 6 || m == 9 || m == 11 {
        30
    } else {
        31
    }
}

/// A date of the calendar.
pub struct Date {
    pub year: i64,
    pub month: i64,
    pub day: i64,
}

impl Date {
    pub open spec fn valid(self) -> bool {
        1 <= self.month <= 12 && 1 <= self.day <= days_in_month(self.year as int, self.month as int)
    }

    /// The days from 1 January 1970 to this date.
    pub open spec fn number(self) -> int {
        days_before_year(self.year as int) + days_before_month(self.year as int, self.month as int) + self.day - 1
            - 719162
    }
}

/// The quotient rounded down.
fn floor_div(a: i64, b: i64) -> (r: i64)
    requires
        b > 0,
    ensures
        r == a as int / b as int,
{
    if a >= 0 {
        a / b
    } else {
        let m: i64 = -(a + 1);
        let q: i64 = m / b;
        proof {
            lemma_floor(a as int, b as int, m as int, q as int);
        }
        -1 - q
    }
}

proof fn lemma_floor(a: int, b: int, m: int, q: int)
    requires
        b > 0,
        a < 0,
        m == -(a + 1),
        q == m / b,
    ensures
        a / b == -1 - q,
        0 <= q <= m,
{
    vstd::arithmetic::div_mod::lemma_fundamental_div_mod(m, b);
    let r = m % b;
    assert(0 <= r < b);
    // a == -(m + 1) == -(b * q + r + 1) == b * (-1 - q) + (b - 1 - r)
    assert(a == b * (-1 - q) + (b - 1 - r)) by (nonlinear_arith)
        requires
            m == -(a + 1),
            m == b * q + r,
    ;
    vstd::arithmetic::div_mod::lemma_fundamental_div_mod_converse(a, b, -1 - q, b - 1 - r);
    assert(0 <= q <= m) by (nonlinear_arith)
        requires
            m == b * q + r,
            0 <= r < b,
            b > 0,
            m >= 0,
    ;
}

/// The days from 1 March of year 0 to 1 March of year `y`.
#[verifier::opaque]
spec fn days_to_march(y: int) -> int {
    365 * y + y / 4 - y / 100 + y / 400
}

proof fn lemma_march(y: int)
    ensures
        days_before_year(y + 1) == days_to_march(y),
        days_before_year(y) + 59 + (if leap(y) {
            1int
        } else {
            0int
        }) == days_to_march(y) - 306,
{
    reveal(days_before_year);
    reveal(days_to_march);
    reveal(leap);
    assert((y - 1) / 4 == y / 4 - (if y % 4 == 0 {
        1int
    } else {
        0int
    }));
    assert((y - 1) / 100 == y / 100 - (if y % 100 == 0 {
        1int
    } else {
        0int
    }));
    assert((y - 1) / 400 == y / 400 - (if y % 400 == 0 {
        1int
    } else {
        0int
    }));
    assert(y % 400 == 0 ==> y % 100 == 0);
    assert(y % 100 == 0 ==> y % 4 == 0);
}

/// A day of the 400 years, as century, group of four years, year and day.
proof fn lemma_year(era: int, c: int, q: int, y: int)
    requires
        0 <= c <= 3,
        0 <= q <= 24,
        0 <= y <= 3,
    ensures
        days_to_march(400 * era + 100 * c + 4 * q + y) == 146_097 * era + 36_524 * c + 1_461 * q + 365 * y,
        y == 3 && (q < 24 || c == 3) ==> leap(400 * era + 100 * c + 4 * q + y + 1),
{
    reveal(days_to_march);
    reveal(leap);
    let n = 400 * era + 100 * c + 4 * q + y;
    assert(n / 4 == 100 * era + 25 * c + q);
    assert(n / 100 == 4 * era + c);
    assert(n / 400 == era);
    if y == 3 {
        assert((n + 1) % 4 == 0);
        if q < 24 {
            assert((n + 1) % 100 == 4 * q + 4);
        } else if c == 3 {
            assert(n + 1 == 400 * (era + 1));
        }
    }
}

/// The month and day of the day `doy` of a year that starts in March: the
/// month, the days in front of it, and whether it belongs to the next year.
fn month_of(doy: i64) -> (r: (i64, i64))
    requires
        0 <= doy <= 365,
    ensures
        1 <= r.0 <= 12,
        0 <= r.1 <= doy,
        r.0 > 2 ==> r.1 == days_before_month(1, r.0 as int) - 59 && doy - r.1 < days_in_month(1, r.0 as int),
        r.0 == 1 ==> r.1 == 306 && doy - r.1 < 31,
        r.0 == 2 ==> r.1 == 337,
{
    assert(!leap(1)) by {
        reveal(leap);
    }
    if doy < 31 {
        (3, 0)
    } else if doy < 61 {
        (4, 31)
    } else if doy < 92 {
        (5, 61)
    } else if doy < 122 {
        (6, 92)
    } else if doy < 153 {
        (7, 122)
    } else if doy < 184 {
        (8, 153)
    } else if doy < 214 {
        (9, 184)
    } else if doy < 245 {
        (10, 214)
    } else if doy < 275 {
        (11, 245)
    } else if doy < 306 {
        (12, 275)
    } else if doy < 337 {
        (1, 306)
    } else {
        (2, 337)
    }
}

/// The date that is `days` days after 1 January 1970.
pub fn civil_date(days: i64) -> (r: Date)
    requires
        -4_000_000_000_000_000 <= days <= 4_000_000_000_000_000,
    ensures
        r.valid(),
        r.number() == days,
{
    let z: i64 = days + 719_468;
    let era: i64 = floor_div(z, 146_097);
    let doe: i64 = z - era * 146_097;
    let c: i64 = if doe / 36_524 > 3 {
        3
    } else {
        doe / 36_524
    };
    let r1: i64 = doe - c * 36_524;
    let q: i64 = r1 / 1_461;
    let r2: i64 = r1 - q * 1_461;
    let y: i64 = if r2 / 365 > 3 {
        3
    } else {
        r2 / 365
    };
    let doy: i64 = r2 - y * 365;
    let n: i64 = era * 400 + c * 100 + q * 4 + y;
    let (month, before) = month_of(doy);
    let year: i64 = if month <= 2 {
        n + 1
    } else {
        n
    };
    proof {
        lemma_march(n as int);
        lemma_year(era as int, c as int, q as int, y as int);
        assert(!leap(1)) by {
            reveal(leap);
        }
        assert(doy == 365 ==> y == 3 && (q < 24 || c == 3));
    }
    Date { year, month, day: doy - before + 1 }
}

/// A number in decimal with zeros in front up to `width` characters.
pub open spec fn padded(n: int, width: int) -> Seq<char> {
    if n < 0 {
        seq!['-'] + zeros(width - 1 - nat_text((-n) as nat).len()) + nat_text((-n) as nat)
    } else {
        zeros(width - nat_text(n as nat).len()) + nat_text(n as nat)
    }
}

pub open spec fn zeros(n: int) -> Seq<char>
    decreases n,
{
    if n <= 0 {
        seq![]
    } else {
        zeros(n - 1).push('0')
    }
}

fn push_zeros(s: &mut String, width: usize, len: usize)
    ensures
        final(s)@ == old(s)@ + zeros(width - len),
{
    let ghost before = s@;
    let mut i: usize = len;
    assert(s@ =~= before + zeros(0));
    while i < width
        invariant
            len <= i,
            i <= width || i == len,
            s@ == before + zeros(i - len),
        decreases width - i,
    {
        s.push('0');
        i = i + 1;
        assert(s@ =~= before + zeros(i - len));
    }
    assert(width < len ==> zeros(width - len) =~= zeros(0));
}

fn write_padded(n: i64, width: usize) -> (r: String)
    requires
        width > 0,
        n > i64::MIN,
    ensures
        r@ == padded(n as int, width as int),
{
    let mut r = String::new();
    if n < 0 {
        let digits = write_nat((-n) as u64);
        r.push('-');
        let len: usize = crate::text::chars_of(digits.as_str()).len();
        push_zeros(&mut r, width - 1, len);
        r.append(digits.as_str());
        assert(r@ =~= padded(n as int, width as int));
    } else {
        let digits = write_nat(n as u64);
        let len: usize = crate::text::chars_of(digits.as_str()).len();
        push_zeros(&mut r, width, len);
        r.append(digits.as_str());
        assert(r@ =~= padded(n as int, width as int));
    }
    r
}

/// The date of a count of days since 1 January 1970.
pub open spec fn is_date(d: Date, days: int) -> bool {
    d.valid() && d.number() == days
}

/// The date that is `days` days after 1 January 1970.
pub open spec fn date_of(days: int) -> Date {
    choose|d: Date| is_date(d, days)
}

/// `pattern` with the parts of a date and a time of day, given in seconds, put
/// in for `YYYY`, `MM`, `DD`, `HH`, `mm` and `SS`, in this order.
pub open spec fn filled(pattern: Seq<char>, d: Date, time: int) -> Seq<char> {
    let a = replaced(pattern, "YYYY"@, padded(d.year as int, 4));
    let b = replaced(a, "MM"@, padded(d.month as int, 2));
    let c = replaced(b, "DD"@, padded(d.day as int, 2));
    let e = replaced(c, "HH"@, padded(time / 3600, 2));
    let f = replaced(e, "mm"@, padded((time % 3600) / 60, 2));
    replaced(f, "SS"@, padded(time % 60, 2))
}

/// The text of a moment, given in milliseconds since the start of 1970 in
/// universal time.
pub open spec fn formatted(millis: int, pattern: Seq<char>) -> Seq<char> {
    let secs = millis / 1000;
    filled(pattern, date_of(secs / 86_400), secs % 86_400)
}

pub proof fn lemma_next_year(y: int)
    ensures
        days_before_year(y + 1) == days_before_year(y) + 365 + (if leap(y) {
            1int
        } else {
            0int
        }),
{
    lemma_march(y);
}

proof fn lemma_year_bounds(d: Date)
    requires
        d.valid(),
    ensures
        days_before_year(d.year as int) <= d.number() + 719162 < days_before_year(d.year + 1),
{
    lemma_next_year(d.year as int);
}

/// A day has one date.
pub proof fn date_is_unique(a: Date, b: Date)
    requires
        a.valid(),
        b.valid(),
        a.number() == b.number(),
    ensures
        a == b,
{
    lemma_year_bounds(a);
    lemma_year_bounds(b);
    if a.year < b.year {
        lemma_years_grow(a.year + 1, b.year as int);
    } else if b.year < a.year {
        lemma_years_grow(b.year + 1, a.year as int);
    }
}

proof fn lemma_years_grow(a: int, b: int)
    requires
        a <= b,
    ensures
        days_before_year(a) <= days_before_year(b),
    decreases b - a,
{
    if a < b {
        lemma_years_grow(a, b - 1);
        lemma_next_year(b - 1);
    }
}

/// Writes a moment, given in milliseconds since the start of 1970 in
/// universal time, with the parts `YYYY MM DD HH mm SS` of the pattern.
pub fn format_unix_millis(millis: i64, pattern: &str) -> (r: String)
    ensures
        r@ == formatted(millis as int, pattern@),
{
    let secs: i64 = floor_div(millis, 1000);
    let days: i64 = floor_div(secs, 86_400);
    let time: i64 = secs - days * 86_400;
    let d = civil_date(days);
    proof {
        assert(is_date(d, days as int));
        date_is_unique(d, date_of(days as int));
        lemma_year_bounds(d);
        assert(d.year > i64::MIN) by {
            reveal(days_before_year);
        }
    }
    let a = str_replace(pattern, "YYYY", write_padded(d.year, 4).as_str());
    let b = str_replace(a.as_str(), "MM", write_padded(d.month, 2).as_str());
    let c = str_replace(b.as_str(), "DD", write_padded(d.day, 2).as_str());
    let e = str_replace(c.as_str(), "HH", write_padded(time / 3600, 2).as_str());
    let f = str_replace(e.as_str(), "mm", write_padded((time % 3600) / 60, 2).as_str());
    str_replace(f.as_str(), "SS", write_padded(time % 60, 2).as_str())
}

} // verus!
