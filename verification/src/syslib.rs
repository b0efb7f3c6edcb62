//! The namespaces whose work is the host's: what is asked of it.

use crate::ast::{texts, values, Value, ValueModel};
use crate::builtins::{
    array_in, complain, complain_unknown, effect_result, expect_array, expect_number, expect_string, give, now,
    number_in, string_in, unknown,
};
use crate::clock::{format_unix_millis, formatted};
use crate::document::{accept_json, json_parsed, parse_result, read_json};
use crate::draft::{
    debug, text, text_2, text_3, throw_model, throw_pieces, throw_text, Failure, FailureModel, Piece, PieceModel,
};
use crate::json::{value_json, value_to_json};
use crate::number::{finite, integral, is_finite, is_integral, is_less, less, truncate, truncated};
use crate::request::{sql_models, Buttons, Effect, EffectModel, Level, Request, RequestModel, Sql, SqlModel};
use crate::show::{format_value, is_truthy, shown, truthy, type_of, value_type_name};
use crate::strings::{str_trim, trimmed};
use crate::text::same;
use vstd::prelude::*;

verus! {

/// The integer part of a moment, as far as 64 bits reach.
pub open spec fn millis_of(n: u64) -> int {
    if truncated(n) > i64::MAX {
        i64::MAX as int
    } else {
        truncated(n)
    }
}

/// `time.Format`
pub open spec fn time_format(args: Seq<ValueModel>) -> Result<EffectModel, FailureModel> {
    if args.len() == 1 || args.len() == 2 {
        match number_in(args[0], "Format"@) {
            Err(e) => Err(e),
            Ok(n) => match if args.len() == 2 {
                string_in(args[1], "Format"@)
            } else {
                Ok("YYYY-MM-DD HH:mm:SS"@)
            } {
                Err(e) => Err(e),
                Ok(pattern) => if !finite(n) || less(n, 0) {
                    Err(
                        throw_model(
                            "ValueError"@,
                            seq![
                                PieceModel::Text("Format expects non-negative milliseconds, got "@),
                                PieceModel::Number(n),
                            ],
                        ),
                    )
                } else {
                    Ok(now(ValueModel::String(formatted(millis_of(n), pattern))))
                },
            },
        }
    } else {
        Err(throw_text("ValueError"@, "Format expects (milliseconds[, pattern])"@))
    }
}

pub fn invoke_time_format(args: &Vec<Value>) -> (r: Result<Effect, Failure>)
    ensures
        effect_result(r) == time_format(values(args@)),
{
    if args.len() != 1 && args.len() != 2 {
        return complain("ValueError", "Format expects (milliseconds[, pattern])");
    }
    let n: u64 = expect_number(&args[0], "Format")?;
    let pattern = if args.len() == 2 {
        expect_string(&args[1], "Format")?
    } else {
        "YYYY-MM-DD HH:mm:SS".to_string()
    };
    if !is_finite(n) || is_less(n, 0) {
        return Err(
            throw_pieces(
                "ValueError",
                text_2(text("Format expects non-negative milliseconds, got "), Piece::Number(n)),
            ),
        );
    }
    let millis: i64 = match truncate(n) {
        Some(m) => m,
        None => {
            proof {
                lemma_not_negative(n);
            }
            i64::MAX
        },
    };
    give(Value::String(format_unix_millis(millis, pattern.as_str())))
}

proof fn lemma_not_negative(n: u64)
    requires
        finite(n),
        !less(n, 0),
    ensures
        truncated(n) >= 0,
{
    vstd::arithmetic::power2::lemma_pow2_pos(crate::number::scale(n) as nat);
    vstd::arithmetic::power2::lemma_pow2_pos((-crate::number::scale(n)) as nat);
    let m = crate::number::mantissa(n);
    if crate::number::scale(n) >= 0 {
        let p = vstd::arithmetic::power2::pow2(crate::number::scale(n) as nat);
        assert(m * p >= 0) by (nonlinear_arith)
            requires
                m >= 0,
                p > 0,
        ;
        assert(crate::number::negative(n) ==> m * p == 0) by {
            if crate::number::negative(n) {
                assert(crate::number::magnitude(n) == 0);
                assert(m * p == 0) by (nonlinear_arith)
                    requires
                        m == 0,
                ;
            }
        }
    } else {
        let p = vstd::arithmetic::power2::pow2((-crate::number::scale(n)) as nat) as int;
        vstd::arithmetic::div_mod::lemma_div_pos_is_pos(m, p);
        if crate::number::negative(n) {
            assert(m == 0);
            vstd::arithmetic::div_mod::lemma_basic_div(0, p);
        }
    }
}

/// `json.Parse` and `json.Stringify`
pub open spec fn json_function(function: Seq<char>, args: Seq<ValueModel>) -> Result<EffectModel, FailureModel> {
    if function == "Parse"@ {
        if args.len() == 1 {
            match string_in(args[0], "Parse"@) {
                Err(e) => Err(e),
                Ok(s) => parse_result(json_parsed(s)),
            }
        } else {
            Err(throw_text("ValueError"@, "Parse expects (json_string)"@))
        }
    } else if function == "Stringify"@ {
        if args.len() == 1 {
            match value_json(args[0], 0) {
                Err(e) => Err(throw_model("ValueError"@, e)),
                Ok(j) => Ok(EffectModel::Ask(RequestModel::JsonText(j))),
            }
        } else {
            Err(throw_text("ValueError"@, "Stringify expects (value)"@))
        }
    } else {
        Err(unknown("Unknown json function: "@, function))
    }
}

pub fn invoke_json(function: &str, args: &Vec<Value>) -> (r: Result<Effect, Failure>)
    ensures
        effect_result(r) == json_function(function@, values(args@)),
{
    if same(function, "Parse") {
        if args.len() != 1 {
            return complain("ValueError", "Parse expects (json_string)");
        }
        let s = expect_string(&args[0], "Parse")?;
        return accept_json(read_json(s.as_str()));
    }
    if same(function, "Stringify") {
        if args.len() != 1 {
            return complain("ValueError", "Stringify expects (value)");
        }
        return match value_to_json(&args[0], 0) {
            Ok(j) => Ok(Effect::Ask(Request::JsonText(j))),
            Err(e) => Err(throw_pieces("ValueError", e)),
        };
    }
    complain_unknown("Unknown json function: ", function)
}

/// What a function of `sys` asks for.
pub open spec fn sys_function(function: Seq<char>, args: Seq<ValueModel>) -> Result<EffectModel, FailureModel> {
    if function == "Args"@ {
        if args.len() == 0 {
            Ok(EffectModel::Ask(RequestModel::Args))
        } else {
            Err(throw_text("ValueError"@, "Args expects no arguments"@))
        }
    } else if function == "Getenv"@ {
        if args.len() == 1 {
            match string_in(args[0], "Getenv"@) {
                Err(e) => Err(e),
                Ok(s) => Ok(EffectModel::Ask(RequestModel::Getenv(s))),
            }
        } else {
            Err(throw_text("ValueError"@, "Getenv expects (name)"@))
        }
    } else if function == "Cwd"@ {
        if args.len() == 0 {
            Ok(EffectModel::Ask(RequestModel::Cwd))
        } else {
            Err(throw_text("ValueError"@, "Cwd expects no arguments"@))
        }
    } else {
        Err(unknown("Unknown sys function: "@, function))
    }
}

pub fn invoke_sys(function: &str, args: &Vec<Value>) -> (r: Result<Effect, Failure>)
    ensures
        effect_result(r) == sys_function(function@, values(args@)),
{
    if same(function, "Args") {
        if args.len() != 0 {
            return complain("ValueError", "Args expects no arguments");
        }
        return Ok(Effect::Ask(Request::Args));
    }
    if same(function, "Getenv") {
        if args.len() != 1 {
            return complain("ValueError", "Getenv expects (name)");
        }
        let s = expect_string(&args[0], "Getenv")?;
        return Ok(Effect::Ask(Request::Getenv(s)));
    }
    if same(function, "Cwd") {
        if args.len() != 0 {
            return complain("ValueError", "Cwd expects no arguments");
        }
        return Ok(Effect::Ask(Request::Cwd));
    }
    complain_unknown("Unknown sys function: ", function)
}

/// The extensions from `i` on, behind those of `done`.
pub open spec fn extensions(items: Seq<ValueModel>, i: int, done: Seq<Seq<char>>) -> Result<Seq<Seq<char>>, FailureModel>
    decreases items.len() - i,
{
    if i < 0 || i >= items.len() {
        Ok(done)
    } else {
        match items[i] {
            ValueModel::String(s) => extensions(items, i + 1, done.push(s)),
            other => Err(
                throw_model(
                    "TypeError"@,
                    seq![PieceModel::Text("PickFile extensions must be strings, got "@), PieceModel::Debug(other)],
                ),
            ),
        }
    }
}

fn find_extensions(items: &Vec<Value>) -> (r: Result<Vec<String>, Failure>)
    ensures
        match r {
            Ok(t) => extensions(values(items@), 0, seq![]) == Ok::<_, FailureModel>(texts(t@)),
            Err(e) => extensions(values(items@), 0, seq![]) == Err::<Seq<Seq<char>>, _>(e@),
        },
{
    let ghost model = values(items@);
    let mut done: Vec<String> = Vec::new();
    let mut i: usize = 0;
    assert(texts(done@) =~= seq![]);
    while i < items.len()
        invariant
            i <= items@.len(),
            model == values(items@),
            extensions(model, i as int, texts(done@)) == extensions(model, 0, seq![]),
        decreases items@.len() - i,
    {
        let ghost before = texts(done@);
        match &items[i] {
            Value::String(s) => {
                done.push(s.clone());
                assert(texts(done@) =~= before.push(s@));
            },
            other => {
                return Err(
                    throw_pieces(
                        "TypeError",
                        text_2(text("PickFile extensions must be strings, got "), debug(other)),
                    ),
                );
            },
        }
        i = i + 1;
    }
    Ok(done)
}

/// The level that a kind of message stands for.
pub open spec fn level_of(kind: Seq<char>) -> Option<Level> {
    if kind == "info"@ {
        Some(Level::Info)
    } else if kind == "warn"@ || kind == "warning"@ {
        Some(Level::Warning)
    } else if kind == "error"@ {
        Some(Level::Error)
    } else {
        None
    }
}

/// The buttons that a name stands for.
pub open spec fn buttons_of(name: Seq<char>) -> Option<Buttons> {
    if name == "ok"@ {
        Some(Buttons::Confirm)
    } else if name == "okcancel"@ {
        Some(Buttons::OkCancel)
    } else if name == "yesno"@ {
        Some(Buttons::YesNo)
    } else if name == "yesnocancel"@ {
        Some(Buttons::YesNoCancel)
    } else {
        None
    }
}

/// The string at `i`, or `default` where there are fewer arguments.
pub open spec fn string_or(args: Seq<ValueModel>, i: int, default: Seq<char>) -> Result<Seq<char>, FailureModel> {
    if i < args.len() {
        string_in(args[i], "Message"@)
    } else {
        Ok(default)
    }
}

fn expect_string_or(args: &Vec<Value>, i: usize, default: &str) -> (r: Result<String, Failure>)
    ensures
        match r {
            Ok(s) => string_or(values(args@), i as int, default@) == Ok::<_, FailureModel>(s@),
            Err(e) => string_or(values(args@), i as int, default@) == Err::<Seq<char>, _>(e@),
        },
{
    if i < args.len() {
        expect_string(&args[i], "Message")
    } else {
        Ok(default.to_string())
    }
}

/// `gui.Message`
pub open spec fn gui_message(args: Seq<ValueModel>) -> Result<EffectModel, FailureModel> {
    if 2 <= args.len() <= 4 {
        match string_in(args[0], "Message"@) {
            Err(e) => Err(e),
            Ok(title) => match string_in(args[1], "Message"@) {
                Err(e) => Err(e),
                Ok(text) => match string_or(args, 2, "info"@) {
                    Err(e) => Err(e),
                    Ok(kind) => match string_or(args, 3, "ok"@) {
                        Err(e) => Err(e),
                        Ok(name) => match level_of(kind) {
                            None => Err(throw_text("ValueError"@, "Message kind must be info, warn, or error"@)),
                            Some(level) => match buttons_of(name) {
                                None => Err(
                                    throw_text(
                                        "ValueError"@,
                                        "Message buttons must be ok, okcancel, yesno, or yesnocancel"@,
                                    ),
                                ),
                                Some(buttons) => Ok(
                                    EffectModel::Ask(RequestModel::Message { title, text, level, buttons }),
                                ),
                            },
                        },
                    },
                },
            },
        }
    } else {
        Err(throw_text("ValueError"@, "Message expects (title, text[, kind[, buttons]])"@))
    }
}

fn invoke_message(args: &Vec<Value>) -> (r: Result<Effect, Failure>)
    ensures
        effect_result(r) == gui_message(values(args@)),
{
    if args.len() < 2 || args.len() > 4 {
        return complain("ValueError", "Message expects (title, text[, kind[, buttons]])");
    }
    let title = expect_string(&args[0], "Message")?;
    let body = expect_string(&args[1], "Message")?;
    let kind = expect_string_or(args, 2, "info")?;
    let name = expect_string_or(args, 3, "ok")?;
    let level = if same(kind.as_str(), "info") {
        Level::Info
    } else if same(kind.as_str(), "warn") || same(kind.as_str(), "warning") {
        Level::Warning
    } else if same(kind.as_str(), "error") {
        Level::Error
    } else {
        return complain("ValueError", "Message kind must be info, warn, or error");
    };
    let buttons = if same(name.as_str(), "ok") {
        Buttons::Confirm
    } else if same(name.as_str(), "okcancel") {
        Buttons::OkCancel
    } else if same(name.as_str(), "yesno") {
        Buttons::YesNo
    } else if same(name.as_str(), "yesnocancel") {
        Buttons::YesNoCancel
    } else {
        return complain("ValueError", "Message buttons must be ok, okcancel, yesno, or yesnocancel");
    };
    Ok(Effect::Ask(Request::Message { title, text: body, level, buttons }))
}

/// What a function of `gui` asks for.
pub open spec fn gui_function(function: Seq<char>, args: Seq<ValueModel>) -> Result<EffectModel, FailureModel> {
    if function == "PickFile"@ {
        if args.len() == 0 {
            Ok(EffectModel::Ask(RequestModel::PickFile(None)))
        } else if args.len() == 2 {
            match string_in(args[0], "PickFile"@) {
                Err(e) => Err(e),
                Ok(name) => match array_in(args[1], "PickFile"@) {
                    Err(e) => Err(e),
                    Ok(items) => match extensions(items, 0, seq![]) {
                        Err(e) => Err(e),
                        Ok(t) => Ok(EffectModel::Ask(RequestModel::PickFile(Some((name, t))))),
                    },
                },
            }
        } else {
            Err(throw_text("ValueError"@, "PickFile expects () or (filter_name, extensions)"@))
        }
    } else if function == "PickFolder"@ {
        if args.len() == 0 {
            Ok(EffectModel::Ask(RequestModel::PickFolder))
        } else {
            Err(throw_text("ValueError"@, "PickFolder expects no arguments"@))
        }
    } else if function == "SaveFile"@ {
        if args.len() == 0 {
            Ok(EffectModel::Ask(RequestModel::SaveFile(None)))
        } else if args.len() == 1 {
            match string_in(args[0], "SaveFile"@) {
                Err(e) => Err(e),
                Ok(name) => Ok(EffectModel::Ask(RequestModel::SaveFile(Some(name)))),
            }
        } else {
            Err(throw_text("ValueError"@, "SaveFile expects () or (default_name)"@))
        }
    } else if function == "Message"@ {
        gui_message(args)
    } else {
        Err(unknown("Unknown gui function: "@, function))
    }
}

pub fn invoke_gui(function: &str, args: &Vec<Value>) -> (r: Result<Effect, Failure>)
    ensures
        effect_result(r) == gui_function(function@, values(args@)),
{
    if same(function, "PickFile") {
        if args.len() == 0 {
            return Ok(Effect::Ask(Request::PickFile(None)));
        }
        if args.len() != 2 {
            return complain("ValueError", "PickFile expects () or (filter_name, extensions)");
        }
        let name = expect_string(&args[0], "PickFile")?;
        let items = expect_array(&args[1], "PickFile")?;
        let t = find_extensions(items)?;
        return Ok(Effect::Ask(Request::PickFile(Some((name, t)))));
    }
    if same(function, "PickFolder") {
        if args.len() != 0 {
            return complain("ValueError", "PickFolder expects no arguments");
        }
        return Ok(Effect::Ask(Request::PickFolder));
    }
    if same(function, "SaveFile") {
        if args.len() == 0 {
            return Ok(Effect::Ask(Request::SaveFile(None)));
        }
        if args.len() != 1 {
            return complain("ValueError", "SaveFile expects () or (default_name)");
        }
        let name = expect_string(&args[0], "SaveFile")?;
        return Ok(Effect::Ask(Request::SaveFile(Some(name))));
    }
    if same(function, "Message") {
        return invoke_message(args);
    }
    complain_unknown("Unknown gui function: ", function)
}

/// What a function of `http` asks for.
pub open spec fn http_function(function: Seq<char>, args: Seq<ValueModel>) -> Result<EffectModel, FailureModel> {
    if function == "Get"@ {
        if args.len() == 1 {
            match string_in(args[0], "Get"@) {
                Err(e) => Err(e),
                Ok(url) => Ok(EffectModel::Ask(RequestModel::HttpGet(url))),
            }
        } else {
            Err(throw_text("ValueError"@, "Get expects (url)"@))
        }
    } else if function == "Post"@ {
        if args.len() == 2 || args.len() == 3 {
            match string_in(args[0], "Post"@) {
                Err(e) => Err(e),
                Ok(url) => match if args.len() == 3 {
                    string_in(args[2], "Post"@)
                } else {
                    Ok("text/plain"@)
                } {
                    Err(e) => Err(e),
                    Ok(content_type) => Ok(
                        EffectModel::Ask(RequestModel::HttpPost { url, body: shown(args[1]), content_type }),
                    ),
                },
            }
        } else {
            Err(throw_text("ValueError"@, "Post expects (url, body[, content_type])"@))
        }
    } else {
        Err(unknown("Unknown http function: "@, function))
    }
}

pub fn invoke_http(function: &str, args: &Vec<Value>) -> (r: Result<Effect, Failure>)
    ensures
        effect_result(r) == http_function(function@, values(args@)),
{
    if same(function, "Get") {
        if args.len() != 1 {
            return complain("ValueError", "Get expects (url)");
        }
        let url = expect_string(&args[0], "Get")?;
        return Ok(Effect::Ask(Request::HttpGet(url)));
    }
    if same(function, "Post") {
        if args.len() != 2 && args.len() != 3 {
            return complain("ValueError", "Post expects (url, body[, content_type])");
        }
        let url = expect_string(&args[0], "Post")?;
        let content_type = if args.len() == 3 {
            expect_string(&args[2], "Post")?
        } else {
            "text/plain".to_string()
        };
        return Ok(Effect::Ask(Request::HttpPost { url, body: format_value(&args[1]), content_type }));
    }
    complain_unknown("Unknown http function: ", function)
}

/// The path that a path string or a file variable stands for.
pub open spec fn path_in(v: ValueModel) -> Result<Seq<char>, FailureModel> {
    match v {
        ValueModel::String(path) => Ok(path),
        ValueModel::File { path } => Ok(path),
        other => Err(
            throw_model(
                "TypeError"@,
                seq![PieceModel::Text("expected a path string or file variable, got "@), PieceModel::Debug(other)],
            ),
        ),
    }
}

pub fn resolve_file_target(v: &Value) -> (r: Result<String, Failure>)
    ensures
        match r {
            Ok(s) => path_in(v@) == Ok::<_, FailureModel>(s@),
            Err(e) => path_in(v@) == Err::<Seq<char>, _>(e@),
        },
{
    match v {
        Value::String(path) => Ok(path.clone()),
        Value::File { path } => Ok(path.clone()),
        other => Err(
            throw_pieces(
                "TypeError",
                text_2(text("expected a path string or file variable, got "), debug(other)),
            ),
        ),
    }
}

/// A function of `file` that takes a path alone.
pub open spec fn file_one(function: Seq<char>, path: Seq<char>) -> RequestModel {
    if function == "Read"@ {
        RequestModel::FileRead(path)
    } else if function == "Exists"@ {
        RequestModel::FileExists(path)
    } else if function == "Remove"@ {
        RequestModel::FileRemove(path)
    } else {
        RequestModel::FileMakeDir(path)
    }
}

/// What a function of `file` asks for.
pub open spec fn file_function(function: Seq<char>, args: Seq<ValueModel>) -> Result<EffectModel, FailureModel> {
    if function == "Read"@ || function == "Exists"@ || function == "Remove"@ || function == "MkDir"@ {
        if args.len() == 1 {
            match path_in(args[0]) {
                Err(e) => Err(e),
                Ok(path) => Ok(EffectModel::Ask(file_one(function, path))),
            }
        } else {
            Err(
                throw_model(
                    "ValueError"@,
                    seq![
                        PieceModel::Text(function),
                        PieceModel::Text(" expects a path string or file variable"@),
                    ],
                ),
            )
        }
    } else if function == "Write"@ || function == "Append"@ {
        if args.len() == 2 {
            match path_in(args[0]) {
                Err(e) => Err(e),
                Ok(path) => if function == "Write"@ {
                    Ok(EffectModel::Ask(RequestModel::FileWrite { path, content: shown(args[1]) }))
                } else {
                    Ok(EffectModel::Ask(RequestModel::FileAppend { path, content: shown(args[1]) }))
                },
            }
        } else {
            Err(
                throw_model(
                    "ValueError"@,
                    seq![
                        PieceModel::Text(function),
                        PieceModel::Text(" expects a path string or file variable, plus content"@),
                    ],
                ),
            )
        }
    } else if function == "ListDir"@ {
        if args.len() == 0 {
            Ok(EffectModel::Ask(RequestModel::FileList("."@)))
        } else if args.len() == 1 {
            match path_in(args[0]) {
                Err(e) => Err(e),
                Ok(path) => Ok(EffectModel::Ask(RequestModel::FileList(path))),
            }
        } else {
            Err(throw_text("ValueError"@, "ListDir expects zero or one path"@))
        }
    } else {
        Err(unknown("Unknown file function: "@, function))
    }
}

pub fn invoke_file(function: &str, args: &Vec<Value>) -> (r: Result<Effect, Failure>)
    ensures
        effect_result(r) == file_function(function@, values(args@)),
{
    if same(function, "Read") || same(function, "Exists") || same(function, "Remove") || same(function, "MkDir") {
        if args.len() != 1 {
            return Err(
                throw_pieces(
                    "ValueError",
                    text_2(text(function), text(" expects a path string or file variable")),
                ),
            );
        }
        let path = resolve_file_target(&args[0])?;
        return Ok(
            Effect::Ask(
                if same(function, "Read") {
                    Request::FileRead(path)
                } else if same(function, "Exists") {
                    Request::FileExists(path)
                } else if same(function, "Remove") {
                    Request::FileRemove(path)
                } else {
                    Request::FileMakeDir(path)
                },
            ),
        );
    }
    if same(function, "Write") || same(function, "Append") {
        if args.len() != 2 {
            return Err(
                throw_pieces(
                    "ValueError",
                    text_2(text(function), text(" expects a path string or file variable, plus content")),
                ),
            );
        }
        let path = resolve_file_target(&args[0])?;
        let content = format_value(&args[1]);
        return Ok(
            Effect::Ask(
                if same(function, "Write") {
                    Request::FileWrite { path, content }
                } else {
                    Request::FileAppend { path, content }
                },
            ),
        );
    }
    if same(function, "ListDir") {
        if args.len() == 0 {
            return Ok(Effect::Ask(Request::FileList(".".to_string())));
        }
        if args.len() != 1 {
            return complain("ValueError", "ListDir expects zero or one path");
        }
        let path = resolve_file_target(&args[0])?;
        return Ok(Effect::Ask(Request::FileList(path)));
    }
    complain_unknown("Unknown file function: ", function)
}

/// The value of a database that a value is bound as: integers stay integers. A value of a type
/// that no database holds is a `ValueError`, and so is a number that is not finite.
pub open spec fn sql_param(v: ValueModel) -> Result<SqlModel, FailureModel> {
    match v {
        ValueModel::Null => Ok(SqlModel::Null),
        ValueModel::Logic(b) => Ok(
            SqlModel::Integer(
                if b {
                    1
                } else {
                    0
                },
            ),
        ),
        ValueModel::String(s) => Ok(SqlModel::Text(s)),
        ValueModel::Number(n) => if !finite(n) {
            Err(
                throw_model(
                    "ValueError"@,
                    seq![
                        PieceModel::Text("cannot bind non-finite number "@),
                        PieceModel::Number(n),
                        PieceModel::Text(" to SQL"@),
                    ],
                ),
            )
        } else if integral(n) && i64::MIN <= truncated(n) <= i64::MAX {
            Ok(SqlModel::Integer(truncated(n) as i64))
        } else {
            Ok(SqlModel::Real(n))
        },
        other => Err(
            throw_model(
                "ValueError"@,
                seq![
                    PieceModel::Text("cannot bind "@),
                    PieceModel::Text(type_of(other)),
                    PieceModel::Text(" as a SQL parameter"@),
                ],
            ),
        ),
    }
}

pub fn db_param_value(v: &Value) -> (r: Result<Sql, Failure>)
    ensures
        match r {
            Ok(s) => sql_param(v@) == Ok::<_, FailureModel>(s@),
            Err(e) => sql_param(v@) == Err::<SqlModel, _>(e@),
        },
{
    match v {
        Value::Null => Ok(Sql::Null),
        Value::Logic(b) => Ok(
            Sql::Integer(
                if *b {
                    1
                } else {
                    0
                },
            ),
        ),
        Value::String(s) => Ok(Sql::Text(s.clone())),
        Value::Number(n) => {
            if !is_finite(*n) {
                return Err(
                    throw_pieces(
                        "ValueError",
                        text_3(text("cannot bind non-finite number "), Piece::Number(*n), text(" to SQL")),
                    ),
                );
            }
            if is_integral(*n) {
                match truncate(*n) {
                    Some(i) => Ok(Sql::Integer(i)),
                    None => Ok(Sql::Real(*n)),
                }
            } else {
                Ok(Sql::Real(*n))
            }
        },
        other => Err(
            throw_pieces(
                "ValueError",
                text_3(text("cannot bind "), Piece::Text(value_type_name(other)), text(" as a SQL parameter")),
            ),
        ),
    }
}

/// The parameters from `i` on, behind those of `done`.
pub open spec fn sql_params(items: Seq<ValueModel>, i: int, done: Seq<SqlModel>) -> Result<Seq<SqlModel>, FailureModel>
    decreases items.len() - i,
{
    if i < 0 || i >= items.len() {
        Ok(done)
    } else {
        match sql_param(items[i]) {
            Err(e) => Err(e),
            Ok(p) => sql_params(items, i + 1, done.push(p)),
        }
    }
}

fn bind_sql_params(items: &Vec<Value>) -> (r: Result<Vec<Sql>, Failure>)
    ensures
        match r {
            Ok(p) => sql_params(values(items@), 0, seq![]) == Ok::<_, FailureModel>(sql_models(p@)),
            Err(e) => sql_params(values(items@), 0, seq![]) == Err::<Seq<SqlModel>, _>(e@),
        },
{
    let ghost model = values(items@);
    let mut done: Vec<Sql> = Vec::new();
    let mut i: usize = 0;
    assert(sql_models(done@) =~= seq![]);
    while i < items.len()
        invariant
            i <= items@.len(),
            model == values(items@),
            sql_params(model, i as int, sql_models(done@)) == sql_params(model, 0, seq![]),
        decreases items@.len() - i,
    {
        let ghost before = sql_models(done@);
        let p = db_param_value(&items[i])?;
        done.push(p);
        assert(sql_models(done@) =~= before.push(p@));
        i = i + 1;
    }
    Ok(done)
}

/// The open database that a value is the handle of.
pub open spec fn open_db(open: Seq<u64>, v: ValueModel, what: Seq<char>) -> Result<u64, FailureModel> {
    match v {
        ValueModel::Db { id } => if open.contains(id) {
            Ok(id)
        } else {
            Err(
                throw_model(
                    "DbError"@,
                    seq![
                        PieceModel::Text(what),
                        PieceModel::Text(": unknown database handle (was it closed?)"@),
                    ],
                ),
            )
        },
        other => Err(
            throw_model(
                "TypeError"@,
                seq![
                    PieceModel::Text(what),
                    PieceModel::Text(" expects a db handle from db.Open, got "@),
                    PieceModel::Debug(other),
                ],
            ),
        ),
    }
}

fn has_id(open: &Vec<u64>, id: u64) -> (r: bool)
    ensures
        r == open@.contains(id),
{
    let mut i: usize = 0;
    while i < open.len()
        invariant
            i <= open@.len(),
            forall|k: int| 0 <= k < i ==> #[trigger] open@[k] != id,
        decreases open@.len() - i,
    {
        if open[i] == id {
            return true;
        }
        i = i + 1;
    }
    false
}

fn db_conn(open: &Vec<u64>, v: &Value, what: &str) -> (r: Result<u64, Failure>)
    ensures
        match r {
            Ok(id) => open_db(open@, v@, what@) == Ok::<_, FailureModel>(id),
            Err(e) => open_db(open@, v@, what@) == Err::<u64, _>(e@),
        },
{
    match v {
        Value::Db { id } => if has_id(open, *id) {
            Ok(*id)
        } else {
            Err(
                throw_pieces(
                    "DbError",
                    text_2(text(what), text(": unknown database handle (was it closed?)")),
                ),
            )
        },
        other => Err(
            throw_pieces(
                "TypeError",
                text_3(text(what), text(" expects a db handle from db.Open, got "), debug(other)),
            ),
        ),
    }
}

/// The ids without `id`.
pub open spec fn without_id(open: Seq<u64>, id: u64, n: int) -> Seq<u64>
    decreases n,
{
    if n <= 0 || n > open.len() {
        seq![]
    } else if open[n - 1] == id {
        without_id(open, id, n - 1)
    } else {
        without_id(open, id, n - 1).push(open[n - 1])
    }
}

pub fn remove_id(open: &Vec<u64>, id: u64) -> (r: Vec<u64>)
    ensures
        r@ == without_id(open@, id, open@.len() as int),
{
    let mut r: Vec<u64> = Vec::new();
    let mut i: usize = 0;
    while i < open.len()
        invariant
            i <= open@.len(),
            r@ == without_id(open@, id, i as int),
        decreases open@.len() - i,
    {
        if open[i] != id {
            r.push(open[i]);
        }
        i = i + 1;
    }
    r
}

/// `db.Exec` and `db.Query`: which database, the statement and its
/// parameters.
pub open spec fn db_statement(open: Seq<u64>, function: Seq<char>, args: Seq<ValueModel>) -> Result<
    (u64, Seq<char>, Seq<SqlModel>),
    FailureModel,
> {
    if args.len() == 2 {
        match string_in(args[1], function) {
            Err(e) => Err(e),
            Ok(sql) => match open_db(open, args[0], function) {
                Err(e) => Err(e),
                Ok(id) => Ok((id, sql, seq![])),
            },
        }
    } else if args.len() == 3 {
        match array_in(args[2], function) {
            Err(e) => Err(e),
            Ok(items) => match sql_params(items, 0, seq![]) {
                Err(e) => Err(e),
                Ok(params) => match string_in(args[1], function) {
                    Err(e) => Err(e),
                    Ok(sql) => match open_db(open, args[0], function) {
                        Err(e) => Err(e),
                        Ok(id) => Ok((id, sql, params)),
                    },
                },
            },
        }
    } else {
        Err(
            throw_model(
                "ValueError"@,
                seq![PieceModel::Text(function), PieceModel::Text(" expects (db, sql[, params])"@)],
            ),
        )
    }
}

fn find_statement(open: &Vec<u64>, function: &str, args: &Vec<Value>) -> (r: Result<(u64, String, Vec<Sql>), Failure>)
    ensures
        match r {
            Ok((id, sql, params)) => db_statement(open@, function@, values(args@)) == Ok::<_, FailureModel>(
                (id, sql@, sql_models(params@)),
            ),
            Err(e) => db_statement(open@, function@, values(args@)) == Err::<(u64, Seq<char>, Seq<SqlModel>), _>(e@),
        },
{
    if args.len() == 2 {
        let sql = expect_string(&args[1], function)?;
        let id: u64 = db_conn(open, &args[0], function)?;
        let params: Vec<Sql> = Vec::new();
        assert(sql_models(params@) =~= seq![]);
        return Ok((id, sql, params));
    }
    if args.len() == 3 {
        let items = expect_array(&args[2], function)?;
        let params = bind_sql_params(items)?;
        let sql = expect_string(&args[1], function)?;
        let id: u64 = db_conn(open, &args[0], function)?;
        return Ok((id, sql, params));
    }
    Err(throw_pieces("ValueError", text_2(text(function), text(" expects (db, sql[, params])"))))
}

/// What a function of `db` asks for, given which databases are open.
pub open spec fn db_function(open: Seq<u64>, function: Seq<char>, args: Seq<ValueModel>) -> Result<
    EffectModel,
    FailureModel,
> {
    if function == "Open"@ {
        if args.len() == 1 {
            match path_in(args[0]) {
                Err(e) => Err(e),
                Ok(path) => Ok(EffectModel::Ask(RequestModel::DbOpen(path))),
            }
        } else {
            Err(throw_text("ValueError"@, "Open expects a path string or file variable"@))
        }
    } else if function == "Close"@ {
        if args.len() == 1 {
            match args[0] {
                ValueModel::Db { id } => if open.contains(id) {
                    Ok(EffectModel::Ask(RequestModel::DbClose(id)))
                } else {
                    Err(throw_text("DbError"@, "Close: unknown database handle (was it closed?)"@))
                },
                other => Err(
                    throw_model(
                        "TypeError"@,
                        seq![PieceModel::Text("Close expects a db handle, got "@), PieceModel::Debug(other)],
                    ),
                ),
            }
        } else {
            Err(throw_text("ValueError"@, "Close expects (db)"@))
        }
    } else if function == "Exec"@ {
        match db_statement(open, function, args) {
            Err(e) => Err(e),
            Ok((id, sql, params)) => Ok(EffectModel::Ask(RequestModel::DbExec { id, sql, params })),
        }
    } else if function == "Query"@ {
        match db_statement(open, function, args) {
            Err(e) => Err(e),
            Ok((id, sql, params)) => Ok(EffectModel::Ask(RequestModel::DbQuery { id, sql, params })),
        }
    } else {
        Err(unknown("Unknown db function: "@, function))
    }
}

pub fn invoke_db(open: &Vec<u64>, function: &str, args: &Vec<Value>) -> (r: Result<Effect, Failure>)
    ensures
        effect_result(r) == db_function(open@, function@, values(args@)),
{
    if same(function, "Open") {
        if args.len() != 1 {
            return complain("ValueError", "Open expects a path string or file variable");
        }
        let path = resolve_file_target(&args[0])?;
        return Ok(Effect::Ask(Request::DbOpen(path)));
    }
    if same(function, "Close") {
        if args.len() != 1 {
            return complain("ValueError", "Close expects (db)");
        }
        return match &args[0] {
            Value::Db { id } => if has_id(open, *id) {
                Ok(Effect::Ask(Request::DbClose(*id)))
            } else {
                complain("DbError", "Close: unknown database handle (was it closed?)")
            },
            other => Err(throw_pieces("TypeError", text_2(text("Close expects a db handle, got "), debug(other)))),
        };
    }
    if same(function, "Exec") {
        let (id, sql, params) = find_statement(open, function, args)?;
        return Ok(Effect::Ask(Request::DbExec { id, sql, params }));
    }
    if same(function, "Query") {
        let (id, sql, params) = find_statement(open, function, args)?;
        return Ok(Effect::Ask(Request::DbQuery { id, sql, params }));
    }
    complain_unknown("Unknown db function: ", function)
}

/// Bare `selectFile(path)`: a path as a file value.
pub open spec fn select_file(args: Seq<ValueModel>) -> Result<EffectModel, FailureModel> {
    if args.len() == 1 {
        match args[0] {
            ValueModel::String(path) => if trimmed(path).len() == 0 {
                Err(throw_text("ValueError"@, "selectFile needs a non-empty path"@))
            } else {
                Ok(now(ValueModel::File { path }))
            },
            other => Err(
                throw_model(
                    "TypeError"@,
                    seq![PieceModel::Text("selectFile expects a path string, got "@), PieceModel::Debug(other)],
                ),
            ),
        }
    } else {
        Err(throw_text("ValueError"@, "selectFile expects exactly one path"@))
    }
}

pub fn select_file_builtin(args: &Vec<Value>) -> (r: Result<Effect, Failure>)
    ensures
        effect_result(r) == select_file(values(args@)),
{
    if args.len() != 1 {
        return complain("ValueError", "selectFile expects exactly one path");
    }
    match &args[0] {
        Value::String(path) => if str_trim(path.as_str()).as_str().is_empty() {
            complain("ValueError", "selectFile needs a non-empty path")
        } else {
            give(Value::File { path: path.clone() })
        },
        other => Err(
            throw_pieces("TypeError", text_2(text("selectFile expects a path string, got "), debug(other))),
        ),
    }
}

/// Bare `assert(cond[, msg])`: null where the condition holds, else an error.
pub open spec fn assertion(args: Seq<ValueModel>) -> Result<EffectModel, FailureModel> {
    if args.len() == 1 || args.len() == 2 {
        if truthy(args[0]) {
            Ok(now(ValueModel::Null))
        } else if args.len() == 1 {
            Err(throw_text("AssertError"@, "assertion failed"@))
        } else {
            Err(throw_model("AssertError"@, shown(args[1])))
        }
    } else {
        Err(throw_text("ValueError"@, "assert expects (condition[, message])"@))
    }
}

pub fn assert_builtin(args: &Vec<Value>) -> (r: Result<Effect, Failure>)
    ensures
        effect_result(r) == assertion(values(args@)),
{
    if args.len() != 1 && args.len() != 2 {
        return complain("ValueError", "assert expects (condition[, message])");
    }
    if is_truthy(&args[0]) {
        return give(Value::Null);
    }
    if args.len() == 1 {
        complain("AssertError", "assertion failed")
    } else {
        Err(throw_pieces("AssertError", format_value(&args[1])))
    }
}

} // verus!
