//! Glob patterns: `*` any run, `?` one character, `[...]` a class, `\` escape.

use crate::draft::{throw_err, throw_text, Failure, FailureModel};
use crate::text::chars_of;
use vstd::prelude::*;

verus! {

/// Whether the class whose members start at `j` has `c` as a member, and the
/// place behind its bracket; none if it is never closed. A bracket in the
/// first place is a member.
pub open spec fn class(p: Seq<char>, j: int, c: char, first: bool) -> Option<(bool, int)>
    decreases p.len() - j,
{
    if j < 0 || j >= p.len() {
        None
    } else if p[j] == ']' && !first {
        Some((false, j + 1))
    } else if j + 2 < p.len() && p[j + 1] == '-' && p[j + 2] != ']' {
        match class(p, j + 3, c, false) {
            None => None,
            Some((hit, end)) => Some((hit || (p[j] <= c && c <= p[j + 2]), end)),
        }
    } else {
        match class(p, j + 1, c, false) {
            None => None,
            Some((hit, end)) => Some((hit || p[j] == c, end)),
        }
    }
}

/// The place behind the bracket that closes the class whose members start at
/// `j`; none if it is never closed.
pub open spec fn class_end(p: Seq<char>, j: int, first: bool) -> Option<int>
    decreases p.len() - j,
{
    if j < 0 || j >= p.len() {
        None
    } else if p[j] == ']' && !first {
        Some(j + 1)
    } else if j + 2 < p.len() && p[j + 1] == '-' && p[j + 2] != ']' {
        class_end(p, j + 3, false)
    } else {
        class_end(p, j + 1, false)
    }
}

/// Where the members of the class at `pi` start.
pub open spec fn members_at(p: Seq<char>, pi: int) -> int {
    if pi + 1 < p.len() && p[pi + 1] == '^' {
        pi + 2
    } else {
        pi + 1
    }
}

/// Whether a class of the pattern from `pi` on is never closed.
pub open spec fn flawed(p: Seq<char>, pi: int) -> bool
    decreases p.len() - pi,
{
    if pi < 0 || pi >= p.len() {
        false
    } else if p[pi] == '[' {
        match class_end(p, members_at(p, pi), true) {
            None => true,
            Some(end) => if pi < end <= p.len() {
                flawed(p, end)
            } else {
                false
            },
        }
    } else if p[pi] == '\\' {
        pi + 1 < p.len() && flawed(p, pi + 2)
    } else {
        flawed(p, pi + 1)
    }
}

pub open spec fn unclosed() -> FailureModel {
    throw_text("ValueError"@, "Match pattern has unclosed '['"@)
}

pub open spec fn dangling() -> FailureModel {
    throw_text("ValueError"@, "Match pattern ends with '\\'"@)
}

/// Whether the pattern from `pi` on matches the text from `ti` to its end. A
/// class that is never closed is an error, whatever the text.
pub open spec fn matches_from(p: Seq<char>, pi: int, t: Seq<char>, ti: int) -> Result<bool, FailureModel>
    decreases p.len() - pi, t.len() - ti, 0int,
{
    if pi < 0 || pi >= p.len() || ti < 0 || ti > t.len() {
        Ok(ti == t.len())
    } else if flawed(p, pi) {
        Err(unclosed())
    } else if p[pi] == '*' {
        any_run(p, pi + 1, t, ti)
    } else if p[pi] == '?' {
        if ti == t.len() {
            Ok(false)
        } else {
            matches_from(p, pi + 1, t, ti + 1)
        }
    } else if p[pi] == '[' {
        if ti == t.len() {
            Ok(false)
        } else {
            let negated = pi + 1 < p.len() && p[pi + 1] == '^';
            match class(p, members_at(p, pi), t[ti], true) {
                None => Err(unclosed()),
                Some((hit, end)) => if hit == negated {
                    Ok(false)
                } else if pi < end <= p.len() {
                    matches_from(p, end, t, ti + 1)
                } else {
                    Ok(false)
                },
            }
        }
    } else if p[pi] == '\\' {
        if pi + 1 >= p.len() {
            Err(dangling())
        } else if ti == t.len() || t[ti] != p[pi + 1] {
            Ok(false)
        } else {
            matches_from(p, pi + 2, t, ti + 1)
        }
    } else if ti == t.len() || t[ti] != p[pi] {
        Ok(false)
    } else {
        matches_from(p, pi + 1, t, ti + 1)
    }
}

/// Whether the pattern from `pi` on matches the text from some place at or
/// after `ti`.
pub open spec fn any_run(p: Seq<char>, pi: int, t: Seq<char>, ti: int) -> Result<bool, FailureModel>
    decreases p.len() - pi, t.len() - ti, 1int,
{
    match matches_from(p, pi, t, ti) {
        Err(e) => Err(e),
        Ok(true) => Ok(true),
        Ok(false) => if ti < 0 || ti >= t.len() {
            Ok(false)
        } else {
            any_run(p, pi, t, ti + 1)
        },
    }
}

/// Whether the whole text matches the pattern.
pub open spec fn matches_glob(p: Seq<char>, t: Seq<char>) -> Result<bool, FailureModel> {
    matches_from(p, 0, t, 0)
}

/// What is found of a class whose first members are known: whether one of them
/// is `c`, and what the rest gives.
spec fn class_after(hit: bool, rest: Option<(bool, int)>) -> Option<(bool, int)> {
    match rest {
        None => None,
        Some((h, end)) => Some((hit || h, end)),
    }
}

fn find_class(p: &Vec<char>, start: usize, c: char) -> (r: Option<(bool, usize)>)
    requires
        start <= p@.len(),
    ensures
        match r {
            Some((hit, end)) => class(p@, start as int, c, true) == Some((hit, end as int)) && start < end <= p@.len(),
            None => class(p@, start as int, c, true) is None,
        },
{
    let mut hit = false;
    let mut first = true;
    let mut j: usize = start;
    while j < p.len()
        invariant
            start <= j <= p@.len(),
            first == (j == start),
            class_after(hit, class(p@, j as int, c, first)) == class(p@, start as int, c, true),
        decreases p@.len() - j,
    {
        if p[j] == ']' && !first {
            return Some((hit, j + 1));
        }
        if p.len() - j > 2 && p[j + 1] == '-' && p[j + 2] != ']' {
            if p[j] <= c && c <= p[j + 2] {
                hit = true;
            }
            j = j + 3;
        } else {
            if p[j] == c {
                hit = true;
            }
            j = j + 1;
        }
        first = false;
    }
    None
}

/// What `r` is, as a model.
pub open spec fn verdict(r: Result<bool, Failure>) -> Result<bool, FailureModel> {
    match r {
        Ok(b) => Ok(b),
        Err(e) => Err(e@),
    }
}

/// The end of a class does not depend on the character that it is asked for.
proof fn lemma_class_end(p: Seq<char>, j: int, c: char, first: bool)
    ensures
        match class(p, j, c, first) {
            Some((_, end)) => class_end(p, j, first) == Some(end),
            None => class_end(p, j, first) is None,
        },
    decreases p.len() - j,
{
    if 0 <= j < p.len() && !(p[j] == ']' && !first) {
        if j + 2 < p.len() && p[j + 1] == '-' && p[j + 2] != ']' {
            lemma_class_end(p, j + 3, c, false);
        } else {
            lemma_class_end(p, j + 1, c, false);
        }
    }
}

proof fn lemma_class_bounds(p: Seq<char>, j: int, first: bool)
    ensures
        class_end(p, j, first) matches Some(end) ==> j < end <= p.len(),
    decreases p.len() - j,
{
    if 0 <= j < p.len() && !(p[j] == ']' && !first) {
        if j + 2 < p.len() && p[j + 1] == '-' && p[j + 2] != ']' {
            lemma_class_bounds(p, j + 3, false);
        } else {
            lemma_class_bounds(p, j + 1, false);
        }
    }
}

/// Finds out whether a class of the pattern from `from` on is never closed.
fn is_flawed(p: &Vec<char>, from: usize) -> (r: bool)
    requires
        from <= p@.len(),
    ensures
        r == flawed(p@, from as int),
{
    let mut i: usize = from;
    while i < p.len()
        invariant
            from <= i <= p@.len(),
            flawed(p@, i as int) == flawed(p@, from as int),
        decreases p@.len() - i,
    {
        if p[i] == '[' {
            let start: usize = if p.len() - i > 1 && p[i + 1] == '^' {
                i + 2
            } else {
                i + 1
            };
            proof {
                lemma_class_end(p@, start as int, 'x', true);
            }
            match find_class(p, start, 'x') {
                None => {
                    return true;
                },
                Some((_, end)) => {
                    i = end;
                },
            }
        } else if p[i] == '\\' {
            if p.len() - i <= 1 {
                return false;
            }
            i = i + 2;
        } else {
            i = i + 1;
        }
    }
    false
}

/// As `glob_here`, for a pattern whose classes are all closed.
fn glob_rest(p: &Vec<char>, pi: usize, t: &Vec<char>, ti: usize) -> (r: Result<bool, Failure>)
    requires
        pi <= p@.len(),
        ti <= t@.len(),
        !flawed(p@, pi as int),
    ensures
        verdict(r) == matches_from(p@, pi as int, t@, ti as int),
    decreases p@.len() - pi, t@.len() - ti,
{
    if pi == p.len() {
        return Ok(ti == t.len());
    }
    let len: usize = p.len();
    let c = p[pi];
    if c == '*' {
        let mut k: usize = ti;
        loop
            invariant
                ti <= k <= t@.len(),
                pi < p@.len(),
                len == p@.len(),
                !flawed(p@, pi + 1),
                any_run(p@, pi + 1, t@, k as int) == matches_from(p@, pi as int, t@, ti as int),
            decreases t@.len() - k,
        {
            if glob_rest(p, pi + 1, t, k)? {
                return Ok(true);
            }
            if k == t.len() {
                return Ok(false);
            }
            k = k + 1;
        }
    }
    if c == '?' {
        if ti == t.len() {
            return Ok(false);
        }
        return glob_rest(p, pi + 1, t, ti + 1);
    }
    if c == '[' {
        if ti == t.len() {
            return Ok(false);
        }
        let negated = p.len() - pi > 1 && p[pi + 1] == '^';
        let start: usize = if negated {
            pi + 2
        } else {
            pi + 1
        };
        proof {
            lemma_class_end(p@, start as int, t@[ti as int], true);
        }
        return match find_class(p, start, t[ti]) {
            None => Err(throw_err("ValueError", "Match pattern has unclosed '['")),
            Some((hit, end)) => if hit == negated {
                Ok(false)
            } else {
                glob_rest(p, end, t, ti + 1)
            },
        };
    }
    if c == '\\' {
        if p.len() - pi <= 1 {
            return Err(throw_err("ValueError", "Match pattern ends with '\\'"));
        }
        if ti == t.len() || t[ti] != p[pi + 1] {
            return Ok(false);
        }
        return glob_rest(p, pi + 2, t, ti + 1);
    }
    if ti == t.len() || t[ti] != c {
        return Ok(false);
    }
    glob_rest(p, pi + 1, t, ti + 1)
}

/// Whether the pattern from `pi` on matches the text from `ti` to its end.
pub fn glob_here(p: &Vec<char>, pi: usize, t: &Vec<char>, ti: usize) -> (r: Result<bool, Failure>)
    requires
        pi <= p@.len(),
        ti <= t@.len(),
    ensures
        verdict(r) == matches_from(p@, pi as int, t@, ti as int),
        verdict(r) == matches_glob(p@.skip(pi as int), t@.skip(ti as int)),
{
    proof {
        matching_goes_by_the_rests(p@, pi as int, t@, ti as int);
    }
    if is_flawed(p, pi) {
        Err(throw_err("ValueError", "Match pattern has unclosed '['"))
    } else {
        glob_rest(p, pi, t, ti)
    }
}

/// Whether the whole text matches the pattern.
pub fn glob_match(pattern: &str, text: &str) -> (r: Result<bool, Failure>)
    ensures
        match r {
            Ok(b) => matches_glob(pattern@, text@) == Ok::<bool, FailureModel>(b),
            Err(e) => matches_glob(pattern@, text@) == Err::<bool, FailureModel>(e@),
        },
{
    glob_here(&chars_of(pattern), 0, &chars_of(text), 0)
}

/// A lone star matches every text.
pub proof fn star_matches_everything(t: Seq<char>)
    ensures
        matches_glob(seq!['*'], t) == Ok::<bool, FailureModel>(true),
{
    assert(!flawed(seq!['*'], 1));
    assert(!flawed(seq!['*'], 0));
    lemma_star(t, 0);
}

proof fn lemma_star(t: Seq<char>, k: int)
    requires
        0 <= k <= t.len(),
    ensures
        any_run(seq!['*'], 1, t, k) == Ok::<bool, FailureModel>(true),
    decreases t.len() - k,
{
    assert(matches_from(seq!['*'], 1, t, k) == Ok::<bool, FailureModel>(k == t.len()));
    if k < t.len() {
        lemma_star(t, k + 1);
    }
}

/// A pattern without special characters matches itself and nothing else.
pub proof fn plain_pattern_matches_itself(p: Seq<char>, t: Seq<char>)
    requires
        forall|i: int|
            0 <= i < p.len() ==> #[trigger] p[i] != '*' && p[i] != '?' && p[i] != '[' && p[i] != '\\',
    ensures
        matches_glob(p, t) == Ok::<bool, FailureModel>(p == t),
{
    lemma_plain(p, t, 0);
    assert(p.subrange(0, p.len() as int) =~= p);
    assert(t.subrange(0, t.len() as int) =~= t);
}

proof fn lemma_plain_unflawed(p: Seq<char>, i: int)
    requires
        forall|i: int|
            0 <= i < p.len() ==> #[trigger] p[i] != '*' && p[i] != '?' && p[i] != '[' && p[i] != '\\',
    ensures
        !flawed(p, i),
    decreases p.len() - i,
{
    if 0 <= i < p.len() {
        lemma_plain_unflawed(p, i + 1);
    }
}

proof fn lemma_plain(p: Seq<char>, t: Seq<char>, i: int)
    requires
        0 <= i <= p.len(),
        0 <= i <= t.len(),
        forall|i: int|
            0 <= i < p.len() ==> #[trigger] p[i] != '*' && p[i] != '?' && p[i] != '[' && p[i] != '\\',
    ensures
        matches_from(p, i, t, i) == Ok::<bool, FailureModel>(
            p.subrange(i, p.len() as int) == t.subrange(i, t.len() as int),
        ),
    decreases p.len() - i,
{
    let ps = p.subrange(i, p.len() as int);
    let ts = t.subrange(i, t.len() as int);
    lemma_plain_unflawed(p, i);
    if i == p.len() {
        assert(ps.len() == 0);
        if i == t.len() {
            assert(ps =~= ts);
        }
    } else if i == t.len() {
        assert(ps.len() != ts.len());
    } else if t[i] != p[i] {
        assert(ps[0] != ts[0]);
    } else {
        lemma_plain(p, t, i + 1);
        let pr = p.subrange(i + 1, p.len() as int);
        let tr = t.subrange(i + 1, t.len() as int);
        if pr == tr {
            assert(ps =~= seq![p[i]] + pr);
            assert(ts =~= seq![t[i]] + tr);
        } else if ps == ts {
            assert(pr =~= ps.subrange(1, ps.len() as int));
            assert(tr =~= ts.subrange(1, ts.len() as int));
        }
    }
}

proof fn lemma_class_shift(p: Seq<char>, i: int, j: int, c: char, first: bool)
    requires
        0 <= i <= p.len(),
        i <= j,
    ensures
        class(p.skip(i), j - i, c, first) == (match class(p, j, c, first) {
            Some((hit, end)) => Some((hit, end - i)),
            None => None,
        }),
        class_end(p.skip(i), j - i, first) == (match class_end(p, j, first) {
            Some(end) => Some(end - i),
            None => None,
        }),
    decreases p.len() - j,
{
    if j < p.len() && !(p[j] == ']' && !first) {
        if j + 2 < p.len() && p[j + 1] == '-' && p[j + 2] != ']' {
            lemma_class_shift(p, i, j + 3, c, false);
        } else {
            lemma_class_shift(p, i, j + 1, c, false);
        }
    }
}

proof fn lemma_flawed_shift(p: Seq<char>, i: int, k: int)
    requires
        0 <= i <= k,
        i <= p.len(),
    ensures
        flawed(p.skip(i), k - i) == flawed(p, k),
    decreases p.len() - k,
{
    if k < p.len() {
        if p[k] == '[' {
            lemma_class_shift(p, i, members_at(p, k), 'x', true);
            lemma_class_bounds(p, members_at(p, k), true);
            if let Some(end) = class_end(p, members_at(p, k), true) {
                lemma_flawed_shift(p, i, end);
            }
        } else if p[k] == '\\' {
            if k + 1 < p.len() {
                lemma_flawed_shift(p, i, k + 2);
            }
        } else {
            lemma_flawed_shift(p, i, k + 1);
        }
    }
}

proof fn lemma_match_shift(p: Seq<char>, i: int, k: int, t: Seq<char>, j: int, m: int)
    requires
        0 <= i <= k,
        i <= p.len(),
        0 <= j <= m <= t.len(),
    ensures
        matches_from(p.skip(i), k - i, t.skip(j), m - j) == matches_from(p, k, t, m),
        any_run(p.skip(i), k - i, t.skip(j), m - j) == any_run(p, k, t, m),
    decreases p.len() - k, t.len() - m,
{
    lemma_flawed_shift(p, i, k);
    if k < p.len() && !flawed(p, k) {
        if p[k] == '*' {
            lemma_match_shift(p, i, k + 1, t, j, m);
        } else if m < t.len() {
            if p[k] == '[' {
                lemma_class_shift(p, i, members_at(p, k), t[m], true);
                if let Some((_, end)) = class(p, members_at(p, k), t[m], true) {
                    if k < end <= p.len() {
                        lemma_match_shift(p, i, end, t, j, m + 1);
                    }
                }
            } else if p[k] == '\\' {
                if k + 1 < p.len() {
                    lemma_match_shift(p, i, k + 2, t, j, m + 1);
                }
            } else {
                lemma_match_shift(p, i, k + 1, t, j, m + 1);
            }
        }
    }
    if m < t.len() {
        lemma_match_shift(p, i, k, t, j, m + 1);
    }
}

/// Matching from two places is matching of what is left from there on.
pub proof fn matching_goes_by_the_rests(p: Seq<char>, i: int, t: Seq<char>, j: int)
    requires
        0 <= i <= p.len(),
        0 <= j <= t.len(),
    ensures
        matches_from(p, i, t, j) == matches_glob(p.skip(i), t.skip(j)),
{
    lemma_match_shift(p, i, i, t, j, j);
}

/// A pattern with a class that is never closed is an error on every text.
pub proof fn unclosed_class_is_an_error(p: Seq<char>, t: Seq<char>)
    requires
        flawed(p, 0),
    ensures
        matches_glob(p, t) == Err::<bool, FailureModel>(unclosed()),
{
}

/// A question mark matches any one character, and a character that has no other meaning
/// matches itself; the pattern goes on behind it, and so does the text.
pub proof fn single_places_match_one_character(c: char, p: Seq<char>, t: Seq<char>)
    requires
        c != '*',
        c != '[',
        c != '\\',
        !flawed(seq![c] + p, 0),
    ensures
        t.len() == 0 ==> matches_glob(seq![c] + p, t) == Ok::<bool, FailureModel>(false),
        t.len() > 0 && (c == '?' || t[0] == c) ==> matches_glob(seq![c] + p, t) == matches_glob(p, t.skip(1)),
        t.len() > 0 && c != '?' && t[0] != c ==> matches_glob(seq![c] + p, t) == Ok::<bool, FailureModel>(false),
{
    let w = seq![c] + p;
    if t.len() > 0 {
        matching_goes_by_the_rests(w, 1, t, 1);
        assert(w.skip(1) =~= p);
    }
}

/// A character behind a backslash matches itself only, whatever it means elsewhere. A
/// backslash at the end is an error.
pub proof fn escaped_characters_match_themselves(c: char, p: Seq<char>, t: Seq<char>)
    requires
        !flawed(seq!['\\', c] + p, 0),
    ensures
        t.len() == 0 ==> matches_glob(seq!['\\', c] + p, t) == Ok::<bool, FailureModel>(false),
        t.len() > 0 && t[0] == c ==> matches_glob(seq!['\\', c] + p, t) == matches_glob(p, t.skip(1)),
        t.len() > 0 && t[0] != c ==> matches_glob(seq!['\\', c] + p, t) == Ok::<bool, FailureModel>(false),
        matches_glob(seq!['\\'], t) matches Err(FailureModel::Throw { error_type, .. }) && error_type == "ValueError"@,
{
    let w = seq!['\\', c] + p;
    if t.len() > 0 {
        matching_goes_by_the_rests(w, 2, t, 1);
        assert(w.skip(2) =~= p);
    }
    assert(!flawed(seq!['\\'], 0));
}

proof fn lemma_any_run(w: Seq<char>, p: Seq<char>, t: Seq<char>, i: int)
    requires
        w == seq!['*'] + p,
        0 <= i <= t.len(),
        forall|k: int| 0 <= k <= t.len() ==> matches_glob(p, #[trigger] t.skip(k)) is Ok,
    ensures
        any_run(w, 1, t, i) == Ok::<bool, FailureModel>(
            exists|k: int| i <= k <= t.len() && matches_glob(p, #[trigger] t.skip(k)) == Ok::<bool, FailureModel>(true),
        ),
    decreases t.len() - i,
{
    matching_goes_by_the_rests(w, 1, t, i);
    assert(w.skip(1) =~= p);
    assert(matches_glob(p, t.skip(i)) is Ok);
    if matches_glob(p, t.skip(i)) == Ok::<bool, FailureModel>(false) && i < t.len() {
        lemma_any_run(w, p, t, i + 1);
    }
}

/// A star matches any run of characters: the rest of the pattern has to match from some
/// place on.
pub proof fn star_matches_any_run(p: Seq<char>, t: Seq<char>)
    requires
        !flawed(seq!['*'] + p, 0),
        forall|k: int| 0 <= k <= t.len() ==> matches_glob(p, #[trigger] t.skip(k)) is Ok,
    ensures
        matches_glob(seq!['*'] + p, t) == Ok::<bool, FailureModel>(
            exists|k: int| 0 <= k <= t.len() && matches_glob(p, #[trigger] t.skip(k)) == Ok::<bool, FailureModel>(true),
        ),
{
    lemma_any_run(seq!['*'] + p, p, t, 0);
}

/// Whether the characters have no meaning of their own in a class.
pub open spec fn plain_members(m: Seq<char>) -> bool {
    m.len() > 0 && m[0] != '^' && forall|i: int| 0 <= i < m.len() ==> #[trigger] m[i] != ']' && m[i] != '-'
}

proof fn lemma_members(w: Seq<char>, start: int, m: Seq<char>, i: int, c: char)
    requires
        plain_members(m),
        0 <= i <= m.len(),
        start >= 0,
        start + m.len() < w.len(),
        forall|k: int| 0 <= k < m.len() ==> #[trigger] w[start + k] == m[k],
        w[start + m.len()] == ']',
    ensures
        class(w, start + i, c, i == 0) == Some((exists|k: int| i <= k < m.len() && m[k] == c, start + m.len() + 1)),
    decreases m.len() - i,
{
    if i < m.len() {
        assert(w[start + i] == m[i]);
        if i + 1 < m.len() {
            assert(w[start + (i + 1)] == m[i + 1]);
        }
        lemma_members(w, start, m, i + 1, c);
    }
}

/// A class matches one character that is among its members; with `^` in front, one that is
/// not among them.
pub proof fn classes_match_their_members(m: Seq<char>, p: Seq<char>, t: Seq<char>)
    requires
        plain_members(m),
        t.len() > 0,
        !flawed(seq!['['] + m + seq![']'] + p, 0),
        !flawed(seq!['[', '^'] + m + seq![']'] + p, 0),
    ensures
        m.contains(t[0]) ==> matches_glob(seq!['['] + m + seq![']'] + p, t) == matches_glob(p, t.skip(1)),
        !m.contains(t[0]) ==> matches_glob(seq!['['] + m + seq![']'] + p, t) == Ok::<bool, FailureModel>(false),
        m.contains(t[0]) ==> matches_glob(seq!['[', '^'] + m + seq![']'] + p, t) == Ok::<bool, FailureModel>(false),
        !m.contains(t[0]) ==> matches_glob(seq!['[', '^'] + m + seq![']'] + p, t) == matches_glob(p, t.skip(1)),
{
    let w = seq!['['] + m + seq![']'] + p;
    let v = seq!['[', '^'] + m + seq![']'] + p;
    let n = m.len() as int;
    assert forall|k: int| 0 <= k < n implies #[trigger] w[1 + k] == m[k] && v[2 + k] == m[k] by {}
    assert forall|k: int| 0 <= k < n implies #[trigger] v[2 + k] == m[k] by {}
    assert(w[1 + n] == ']' && v[2 + n] == ']');
    assert(w[1] == m[0]);
    lemma_members(w, 1, m, 0, t[0]);
    lemma_members(v, 2, m, 0, t[0]);
    assert(m.contains(t[0]) == exists|k: int| 0 <= k < m.len() && m[k] == t[0]);
    matching_goes_by_the_rests(w, n + 2, t, 1);
    matching_goes_by_the_rests(v, n + 3, t, 1);
    assert(w.skip(n + 2) =~= p);
    assert(v.skip(n + 3) =~= p);
    assert(members_at(w, 0) == 1);
    assert(members_at(v, 0) == 2);
}

/// A range in a class has all characters from its first to its last.
pub proof fn ranges_match_from_first_to_last(a: char, b: char, p: Seq<char>, t: Seq<char>)
    requires
        a != '^',
        b != ']',
        t.len() > 0,
        !flawed(seq!['[', a, '-', b, ']'] + p, 0),
    ensures
        a <= t[0] && t[0] <= b ==> matches_glob(seq!['[', a, '-', b, ']'] + p, t) == matches_glob(p, t.skip(1)),
        !(a <= t[0] && t[0] <= b) ==> matches_glob(seq!['[', a, '-', b, ']'] + p, t) == Ok::<bool, FailureModel>(false),
{
    let w = seq!['[', a, '-', b, ']'] + p;
    reveal_with_fuel(class, 3);
    assert(class(w, 4, t[0], false) == Some((false, 5int)));
    assert(class(w, 1, t[0], true) == Some((a <= t[0] && t[0] <= b, 5int)));
    matching_goes_by_the_rests(w, 5, t, 1);
    assert(w.skip(5) =~= p);
}

/// An empty pattern matches the empty text only, and a class matches no end of a text.
pub proof fn ends_meet(p: Seq<char>, t: Seq<char>)
    ensures
        matches_glob(seq![], t) == Ok::<bool, FailureModel>(t.len() == 0),
        p.len() > 0 && p[0] == '[' && !flawed(p, 0) ==> matches_glob(p, seq![]) == Ok::<bool, FailureModel>(false),
{
}

} // verus!
