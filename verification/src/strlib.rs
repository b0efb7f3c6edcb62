//! The `str` namespace.

use crate::ast::{values, Value, ValueModel};
use crate::builtins::{
    arity, complain, complain_arity, complain_unknown, count, effect_result, expect_int, expect_string, give,
    give_count, int_in, invoke_join, join_args, now, string_in, string_values, text_values, unknown,
};
use crate::draft::{
    text, text_3, throw_err, throw_model, throw_pieces, throw_text, Failure, FailureModel, PieceModel, Plan, PlanModel,
};
use crate::glob::{glob_match, matches_glob};
use crate::request::{Effect, EffectModel, Request, RequestModel};
use crate::show::{format_value, shown};
use crate::strings::{
    contains, letters, lines_from, lowercase, occurs_at, parsed_int, repeated, replaced, split, str_chars, str_contains,
    str_ends_with, str_lines, str_parse_int, str_repeat, str_replace, str_split, str_starts_with, str_trim,
    str_trim_prefix, str_trim_suffix, to_lowercase, to_uppercase, trimmed, uppercase, without_prefix, without_suffix,
};
use crate::text::{chars_of, same, string_of};
use vstd::prelude::*;

verus! {

/// The longest text that `Repeat` makes.
pub const MAX_REPEAT_CHARS: u64 = 10_000_000;

/// The part of a text that starts at `start`, at most `len` characters long.
pub open spec fn part_of(s: Seq<char>, start: int, len: Option<int>) -> Result<Seq<char>, FailureModel> {
    if start < 0 {
        Err(throw_text("ValueError"@, "Sub start must be >= 0"@))
    } else if len matches Some(n) && n < 0 {
        Err(throw_text("ValueError"@, "Sub length must be >= 0"@))
    } else {
        Ok(window(s, start, len))
    }
}

/// The items from `start` on, at most `len` of them, as far as there are any.
pub open spec fn window<T>(s: Seq<T>, start: int, len: Option<int>) -> Seq<T> {
    let a = if start <= s.len() {
        start
    } else {
        s.len() as int
    };
    let b = match len {
        Some(n) => if a + n <= s.len() {
            a + n
        } else {
            s.len() as int
        },
        None => s.len() as int,
    };
    s.subrange(a, b)
}

/// Where a window on `total` items begins and ends.
pub fn find_window(total: usize, start: i64, len: Option<i64>) -> (r: (usize, usize))
    requires
        start >= 0,
        len matches Some(n) ==> n >= 0,
    ensures
        r.0 <= r.1 <= total,
        r.0 == (if start <= total {
            start as int
        } else {
            total as int
        }),
        r.1 == (match len {
            Some(n) => if r.0 + n <= total {
                r.0 + n
            } else {
                total as int
            },
            None => total as int,
        }),
{
    let a: usize = if (start as u64) < total as u64 {
        start as usize
    } else {
        total
    };
    let b: usize = match len {
        Some(n) => if (n as u64) < (total - a) as u64 {
            a + n as usize
        } else {
            total
        },
        None => total,
    };
    (a, b)
}

pub open spec fn opt_int(n: Option<i64>) -> Option<int> {
    match n {
        Some(i) => Some(i as int),
        None => None,
    }
}

/// The part of a text that starts at `start`, at most `len` characters long.
pub fn substring(s: &str, start: i64, len: Option<i64>) -> (r: Result<String, Failure>)
    ensures
        match r {
            Ok(t) => part_of(s@, start as int, opt_int(len)) == Ok::<Seq<char>, FailureModel>(t@),
            Err(e) => part_of(s@, start as int, opt_int(len)) == Err::<Seq<char>, FailureModel>(e@),
        },
{
    if start < 0 {
        return Err(throw_err("ValueError", "Sub start must be >= 0"));
    }
    match len {
        Some(n) => {
            if n < 0 {
                return Err(throw_err("ValueError", "Sub length must be >= 0"));
            }
        },
        None => {},
    }
    let c = chars_of(s);
    let (a, b) = find_window(c.len(), start, len);
    Ok(string_of(&c, a, b))
}

/// The complaint that a text is no number of the kind wanted.
pub open spec fn no_number(remark: Seq<char>, s: Seq<char>) -> FailureModel {
    throw_model("ValueError"@, seq![PieceModel::Text(remark), PieceModel::Text(s), PieceModel::Text("'"@)])
}

/// A function of one string.
pub open spec fn str_one(function: Seq<char>, s: Seq<char>) -> Result<EffectModel, FailureModel> {
    if function == "Len"@ {
        Ok(count(s.len()))
    } else if function == "Upper"@ {
        Ok(now(ValueModel::String(uppercase(s))))
    } else if function == "Lower"@ {
        Ok(now(ValueModel::String(lowercase(s))))
    } else if function == "Trim"@ {
        Ok(now(ValueModel::String(trimmed(s))))
    } else if function == "ToNum"@ || function == "ParseFloat"@ {
        Ok(EffectModel::Ask(RequestModel::ParseNumber { text: trimmed(s), shown: s }))
    } else if function == "Lines"@ {
        Ok(now(ValueModel::Array(text_values(lines_from(s, 0)))))
    } else if function == "Chars"@ {
        Ok(now(ValueModel::Array(text_values(letters(s)))))
    } else {
        match parsed_int(trimmed(s)) {
            Some(n) => Ok(EffectModel::Plan(PlanModel::Integer(n as i64))),
            None => Err(no_number("cannot convert to integer: '"@, s)),
        }
    }
}

fn evaluate_str_one(function: &str, s: String) -> (r: Result<Effect, Failure>)
    ensures
        effect_result(r) == str_one(function@, s@),
{
    if same(function, "Len") {
        let n: usize = chars_of(s.as_str()).len();
        return give_count(n);
    }
    if same(function, "Upper") {
        return give(Value::String(to_uppercase(s.as_str())));
    }
    if same(function, "Lower") {
        return give(Value::String(to_lowercase(s.as_str())));
    }
    if same(function, "Trim") {
        return give(Value::String(str_trim(s.as_str())));
    }
    if same(function, "ToNum") || same(function, "ParseFloat") {
        let t = str_trim(s.as_str());
        return Ok(Effect::Ask(Request::ParseNumber { text: t, shown: s }));
    }
    if same(function, "Lines") {
        return give(Value::Array(string_values(str_lines(s.as_str()))));
    }
    if same(function, "Chars") {
        return give(Value::Array(string_values(str_chars(s.as_str()))));
    }
    match str_parse_int(str_trim(s.as_str()).as_str()) {
        Some(n) => Ok(Effect::Plan(Plan::Integer(n))),
        None => Err(
            throw_pieces("ValueError", text_3(text("cannot convert to integer: '"), text(s.as_str()), text("'"))),
        ),
    }
}

/// A function of two strings.
pub open spec fn str_two(function: Seq<char>, s: Seq<char>, t: Seq<char>) -> Result<EffectModel, FailureModel> {
    if function == "Split"@ {
        Ok(now(ValueModel::Array(text_values(split(s, t)))))
    } else if function == "Contains"@ {
        Ok(now(ValueModel::Logic(contains(s, t))))
    } else if function == "StartsWith"@ {
        Ok(now(ValueModel::Logic(occurs_at(s, t, 0))))
    } else if function == "EndsWith"@ {
        Ok(now(ValueModel::Logic(occurs_at(s, t, s.len() - t.len()))))
    } else if function == "TrimPrefix"@ {
        Ok(now(ValueModel::String(without_prefix(s, t))))
    } else if function == "TrimSuffix"@ {
        Ok(now(ValueModel::String(without_suffix(s, t))))
    } else {
        match matches_glob(t, s) {
            Err(e) => Err(e),
            Ok(b) => Ok(now(ValueModel::Logic(b))),
        }
    }
}

fn evaluate_str_two(function: &str, s: String, t: String) -> (r: Result<Effect, Failure>)
    ensures
        effect_result(r) == str_two(function@, s@, t@),
{
    if same(function, "Split") {
        return give(Value::Array(string_values(str_split(s.as_str(), t.as_str()))));
    }
    if same(function, "Contains") {
        return give(Value::Logic(str_contains(s.as_str(), t.as_str())));
    }
    if same(function, "StartsWith") {
        return give(Value::Logic(str_starts_with(s.as_str(), t.as_str())));
    }
    if same(function, "EndsWith") {
        return give(Value::Logic(str_ends_with(s.as_str(), t.as_str())));
    }
    if same(function, "TrimPrefix") {
        return give(Value::String(str_trim_prefix(s.as_str(), t.as_str())));
    }
    if same(function, "TrimSuffix") {
        return give(Value::String(str_trim_suffix(s.as_str(), t.as_str())));
    }
    let b = glob_match(t.as_str(), s.as_str())?;
    give(Value::Logic(b))
}

/// Whether the function takes one string.
pub open spec fn takes_one(function: Seq<char>) -> bool {
    function == "Len"@ || function == "Upper"@ || function == "Lower"@ || function == "Trim"@ || function == "ToNum"@
        || function == "ParseFloat"@ || function == "Lines"@ || function == "Chars"@ || function == "ParseInt"@
}

/// Whether the function takes two strings.
pub open spec fn takes_two(function: Seq<char>) -> bool {
    function == "Split"@ || function == "Contains"@ || function == "StartsWith"@ || function == "EndsWith"@ || function
        == "TrimPrefix"@ || function == "TrimSuffix"@ || function == "Match"@
}

/// What a function of two strings wants of its arguments.
pub open spec fn two_remark(function: Seq<char>) -> Seq<char> {
    if function == "Split"@ {
        " expects (string, separator)"@
    } else if function == "Contains"@ {
        " expects (string, substring)"@
    } else if function == "Match"@ {
        " expects (string, pattern)"@
    } else {
        " expects (string, affix)"@
    }
}

/// `Sub`
pub open spec fn str_sub(args: Seq<ValueModel>) -> Result<EffectModel, FailureModel> {
    if args.len() == 2 || args.len() == 3 {
        match string_in(args[0], "Sub"@) {
            Err(e) => Err(e),
            Ok(s) => match int_in(args[1], "Sub"@) {
                Err(e) => Err(e),
                Ok(start) => if args.len() == 2 {
                    match part_of(s, start, None) {
                        Err(e) => Err(e),
                        Ok(t) => Ok(now(ValueModel::String(t))),
                    }
                } else {
                    match int_in(args[2], "Sub"@) {
                        Err(e) => Err(e),
                        Ok(len) => match part_of(s, start, Some(len)) {
                            Err(e) => Err(e),
                            Ok(t) => Ok(now(ValueModel::String(t))),
                        },
                    }
                },
            },
        }
    } else {
        Err(throw_text("ValueError"@, "Sub expects (string, start[, length])"@))
    }
}

fn invoke_sub(args: &Vec<Value>) -> (r: Result<Effect, Failure>)
    ensures
        effect_result(r) == str_sub(values(args@)),
{
    if args.len() != 2 && args.len() != 3 {
        return complain("ValueError", "Sub expects (string, start[, length])");
    }
    let s = expect_string(&args[0], "Sub")?;
    let start: i64 = expect_int(&args[1], "Sub")?;
    let len: Option<i64> = if args.len() == 3 {
        let n: i64 = expect_int(&args[2], "Sub")?;
        Some(n)
    } else {
        None
    };
    let t = substring(s.as_str(), start, len)?;
    give(Value::String(t))
}

/// `Repeat`
pub open spec fn str_repeated(args: Seq<ValueModel>) -> Result<EffectModel, FailureModel> {
    if args.len() == 2 {
        match string_in(args[0], "Repeat"@) {
            Err(e) => Err(e),
            Ok(s) => match int_in(args[1], "Repeat"@) {
                Err(e) => Err(e),
                Ok(n) => if n < 0 {
                    Err(throw_text("ValueError"@, "Repeat count must be >= 0"@))
                } else if s.len() * n > MAX_REPEAT_CHARS {
                    Err(throw_text("ValueError"@, "Repeat result would exceed 10M characters"@))
                } else {
                    Ok(now(ValueModel::String(repeated(s, n))))
                },
            },
        }
    } else {
        Err(throw_text("ValueError"@, "Repeat expects (string, count)"@))
    }
}

fn invoke_repeat(args: &Vec<Value>) -> (r: Result<Effect, Failure>)
    ensures
        effect_result(r) == str_repeated(values(args@)),
{
    if args.len() != 2 {
        return complain("ValueError", "Repeat expects (string, count)");
    }
    let s = expect_string(&args[0], "Repeat")?;
    let n: i64 = expect_int(&args[1], "Repeat")?;
    if n < 0 {
        return complain("ValueError", "Repeat count must be >= 0");
    }
    let chars: usize = chars_of(s.as_str()).len();
    assert((chars as u128) * (n as u128) <= u128::MAX) by (nonlinear_arith)
        requires
            chars <= u64::MAX,
            0 <= n <= i64::MAX,
    ;
    let total: u128 = (chars as u128) * (n as u128);
    if total > MAX_REPEAT_CHARS as u128 {
        return complain("ValueError", "Repeat result would exceed 10M characters");
    }
    give(Value::String(str_repeat(s.as_str(), n as u64)))
}

/// What a function of `str` makes of its arguments.
pub open spec fn str_function(function: Seq<char>, args: Seq<ValueModel>) -> Result<EffectModel, FailureModel> {
    if takes_one(function) {
        if args.len() == 1 {
            match string_in(args[0], function) {
                Err(e) => Err(e),
                Ok(s) => str_one(function, s),
            }
        } else {
            Err(arity(function, " expects exactly one string"@))
        }
    } else if takes_two(function) {
        if args.len() == 2 {
            match string_in(args[0], function) {
                Err(e) => Err(e),
                Ok(s) => match string_in(args[1], function) {
                    Err(e) => Err(e),
                    Ok(t) => str_two(function, s, t),
                },
            }
        } else {
            Err(arity(function, two_remark(function)))
        }
    } else if function == "Join"@ {
        join_args(args)
    } else if function == "Replace"@ {
        if args.len() == 3 {
            match string_in(args[0], "Replace"@) {
                Err(e) => Err(e),
                Ok(s) => match string_in(args[1], "Replace"@) {
                    Err(e) => Err(e),
                    Ok(a) => match string_in(args[2], "Replace"@) {
                        Err(e) => Err(e),
                        Ok(b) => Ok(now(ValueModel::String(replaced(s, a, b)))),
                    },
                },
            }
        } else {
            Err(throw_text("ValueError"@, "Replace expects (string, old, new)"@))
        }
    } else if function == "Sub"@ {
        str_sub(args)
    } else if function == "From"@ {
        if args.len() == 1 {
            Ok(EffectModel::Plan(PlanModel::Text(shown(args[0]))))
        } else {
            Err(throw_text("ValueError"@, "From expects exactly one value"@))
        }
    } else if function == "Repeat"@ {
        str_repeated(args)
    } else {
        Err(unknown("Unknown str function: "@, function))
    }
}

fn is_takes_one(function: &str) -> (r: bool)
    ensures
        r == takes_one(function@),
{
    same(function, "Len") || same(function, "Upper") || same(function, "Lower") || same(function, "Trim") || same(
        function,
        "ToNum",
    ) || same(function, "ParseFloat") || same(function, "Lines") || same(function, "Chars") || same(
        function,
        "ParseInt",
    )
}

fn is_takes_two(function: &str) -> (r: bool)
    ensures
        r == takes_two(function@),
{
    same(function, "Split") || same(function, "Contains") || same(function, "StartsWith") || same(
        function,
        "EndsWith",
    ) || same(function, "TrimPrefix") || same(function, "TrimSuffix") || same(function, "Match")
}

pub fn invoke_str(function: &str, args: &Vec<Value>) -> (r: Result<Effect, Failure>)
    ensures
        effect_result(r) == str_function(function@, values(args@)),
{
    if is_takes_one(function) {
        if args.len() != 1 {
            return complain_arity(function, " expects exactly one string");
        }
        let s = expect_string(&args[0], function)?;
        return evaluate_str_one(function, s);
    }
    if is_takes_two(function) {
        if args.len() != 2 {
            if same(function, "Split") {
                return complain_arity(function, " expects (string, separator)");
            }
            if same(function, "Contains") {
                return complain_arity(function, " expects (string, substring)");
            }
            if same(function, "Match") {
                return complain_arity(function, " expects (string, pattern)");
            }
            return complain_arity(function, " expects (string, affix)");
        }
        let s = expect_string(&args[0], function)?;
        let t = expect_string(&args[1], function)?;
        return evaluate_str_two(function, s, t);
    }
    if same(function, "Join") {
        return invoke_join(args);
    }
    if same(function, "Replace") {
        if args.len() != 3 {
            return complain("ValueError", "Replace expects (string, old, new)");
        }
        let s = expect_string(&args[0], "Replace")?;
        let a = expect_string(&args[1], "Replace")?;
        let b = expect_string(&args[2], "Replace")?;
        return give(Value::String(str_replace(s.as_str(), a.as_str(), b.as_str())));
    }
    if same(function, "Sub") {
        return invoke_sub(args);
    }
    if same(function, "From") {
        if args.len() != 1 {
            return complain("ValueError", "From expects exactly one value");
        }
        return Ok(Effect::Plan(Plan::Text(format_value(&args[0]))));
    }
    if same(function, "Repeat") {
        return invoke_repeat(args);
    }
    complain_unknown("Unknown str function: ", function)
}

} // verus!
