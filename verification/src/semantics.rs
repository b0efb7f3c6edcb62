//! What a script means: how the state of the machine goes on, step by step.

use crate::arrlib::arr_function;
use crate::ast::{BinaryOperator, CatchModel, GuiKind, StatementModel, TargetModel, ValueModel};
use crate::builtins::{math, unknown};
use crate::draft::{
    fatal_model, settle, settled, throw_model, throw_text, FailureModel, FaultModel, PieceModel, PlanModel,
};
use crate::gui::{
    assigned_widget, closed_complaint, declared_widget, kept, method_result, registered, widget_kind, MethodModel,
};
use crate::number::index_of;
use crate::operators::{integer, same_ignoring_case};
use crate::request::{EffectModel, RequestModel};
use crate::runtime::{
    exported, global_type, is_global, merged_env, merged_types, named_value, read_global, restored, restored_global,
    scoped, set_global, RuntimeModel, ScopeModel, MAX_CALL_DEPTH,
};
use crate::show::{nat_text, shown, shown_list, truthy};
use crate::state::{CallModel, FlowModel, FocusModel, FrameModel, MachineModel, PurposeModel, ShadowModel, WaitModel};
use crate::strlib::str_function;
use crate::syslib::{
    assertion, db_function, file_function, gui_function, http_function, json_function, select_file, sys_function,
    time_format,
};
use crate::table::{keys, lookup, put};
use crate::windows::window_run;
use vstd::prelude::*;

verus! {

/// How often the body of a `while` may run.
pub const MAX_LOOP_ITERS: usize = 1_000_000;

pub open spec fn focused(s: MachineModel, x: FocusModel) -> MachineModel {
    MachineModel { focus: x, ..s }
}

pub open spec fn pushed(s: MachineModel, f: FrameModel) -> MachineModel {
    MachineModel { stack: s.stack.push(f), ..s }
}

pub open spec fn given(s: MachineModel, v: ValueModel) -> MachineModel {
    focused(s, FocusModel::Value(v))
}

pub open spec fn evaluating(s: MachineModel, v: ValueModel) -> MachineModel {
    focused(s, FocusModel::Eval(v))
}

pub open spec fn flowing(s: MachineModel, f: FlowModel) -> MachineModel {
    focused(s, FocusModel::Flow(f))
}

pub open spec fn faulty(s: MachineModel, f: FaultModel) -> MachineModel {
    focused(s, FocusModel::Fault(f))
}

pub open spec fn asking(s: MachineModel, q: RequestModel) -> MachineModel {
    focused(s, FocusModel::Await(WaitModel::Request(q)))
}

/// The value of a plan, at once where the host is not needed.
pub open spec fn offered(s: MachineModel, p: PlanModel) -> MachineModel {
    if settled(p) {
        given(s, settle(p))
    } else {
        focused(s, FocusModel::Await(WaitModel::Plan(p)))
    }
}

/// A fault, once its message is written.
pub open spec fn failed(s: MachineModel, e: FailureModel) -> MachineModel {
    match e {
        FailureModel::Fatal(m) => faulty(s, FaultModel::Fatal(m)),
        FailureModel::Throw { error_type, message } => offered(
            pushed(s, FrameModel::Raise(error_type)),
            PlanModel::Text(message),
        ),
    }
}

pub open spec fn planned(s: MachineModel, r: Result<PlanModel, FailureModel>) -> MachineModel {
    match r {
        Ok(p) => offered(s, p),
        Err(e) => failed(s, e),
    }
}

pub open spec fn effected(s: MachineModel, r: Result<EffectModel, FailureModel>) -> MachineModel {
    match r {
        Ok(EffectModel::Plan(p)) => offered(s, p),
        Ok(EffectModel::Ask(q)) => asking(s, q),
        Err(e) => failed(s, e),
    }
}

/// A frame met something that it does not wait for.
pub open spec fn out_of_order(s: MachineModel) -> MachineModel {
    failed(s, fatal_model("machine out of order"@))
}

pub open spec fn unknown_variable(name: Seq<char>) -> FailureModel {
    throw_model("NameError"@, seq![PieceModel::Text("Unknown variable: "@), PieceModel::Text(name)])
}

pub open spec fn unknown_property(key: Seq<char>) -> FailureModel {
    throw_model("NameError"@, seq![PieceModel::Text("Unknown property: "@), PieceModel::Text(key)])
}

pub open spec fn unknown_module(alias: Seq<char>) -> FailureModel {
    throw_model("NameError"@, seq![PieceModel::Text("Unknown module: "@), PieceModel::Text(alias)])
}

pub open spec fn unknown_export(alias: Seq<char>, name: Seq<char>) -> FailureModel {
    throw_model(
        "NameError"@,
        seq![
            PieceModel::Text("Unknown variable: "@),
            PieceModel::Text(alias),
            PieceModel::Text(":var."@),
            PieceModel::Text(name),
        ],
    )
}

/// A complaint that shows the value in question.
pub open spec fn wrong_value(message: Seq<char>, v: ValueModel) -> FailureModel {
    throw_model("TypeError"@, seq![PieceModel::Text(message), PieceModel::Debug(v)])
}

// Values.
/// The start of the work on an expression.
pub open spec fn eval_step(s: MachineModel, v: ValueModel) -> MachineModel {
    match v {
        ValueModel::Variable(name) => match named_value(s.rt, s.scope, name) {
            Some(x) => given(s, x),
            None => failed(s, unknown_variable(name)),
        },
        ValueModel::ModuleVar { alias, name } => if lookup(s.rt.modules, alias) is None {
            failed(s, unknown_module(alias))
        } else {
            match read_global(s.rt, alias, name) {
                Some(x) => given(s, x),
                None => failed(s, unknown_export(alias, name)),
            }
        },
        ValueModel::FunctionCall { object, module, function, args } => invoked(s, object, module, function, args),
        ValueModel::Array(items) => listed(s, PurposeModel::Array, items),
        ValueModel::Object(t) => listed(s, PurposeModel::Object(keys(t)), contents(t)),
        ValueModel::Property { target, key } => evaluating(pushed(s, FrameModel::Property(key)), *target),
        ValueModel::Index { target, index } => evaluating(pushed(s, FrameModel::IndexTarget(*index)), *target),
        ValueModel::Binary { left, op, right } => evaluating(
            pushed(s, FrameModel::Left { op, right: *right }),
            *left,
        ),
        ValueModel::Unary { op, value } => evaluating(pushed(s, FrameModel::Unary(op)), *value),
        _ => given(s, v),
    }
}

/// The values of a table, in order.
pub open spec fn contents(t: Seq<(Seq<char>, ValueModel)>) -> Seq<ValueModel> {
    Seq::new(t.len(), |i: int| t[i].1)
}

/// A table from its keys and its values.
pub open spec fn zipped(names: Seq<Seq<char>>, vals: Seq<ValueModel>) -> Seq<(Seq<char>, ValueModel)> {
    Seq::new(
        if names.len() <= vals.len() {
            names.len()
        } else {
            vals.len()
        },
        |i: int| (names[i], vals[i]),
    )
}

/// The work on a list of expressions, from the first to the last.
pub open spec fn listed(s: MachineModel, purpose: PurposeModel, items: Seq<ValueModel>) -> MachineModel {
    list_step(s, purpose, items, 0, seq![])
}

pub open spec fn list_step(
    s: MachineModel,
    purpose: PurposeModel,
    items: Seq<ValueModel>,
    next: int,
    done: Seq<ValueModel>,
) -> MachineModel {
    if next < items.len() {
        evaluating(pushed(s, FrameModel::Args { purpose, items, next: next + 1, done }), items[next])
    } else {
        applied(s, purpose, done)
    }
}

/// What a list of values comes to.
pub open spec fn applied(s: MachineModel, purpose: PurposeModel, vals: Seq<ValueModel>) -> MachineModel {
    match purpose {
        PurposeModel::Array => given(s, ValueModel::Array(vals)),
        PurposeModel::Object(names) => given(s, ValueModel::Object(zipped(names, vals))),
        PurposeModel::Print => asking(s, RequestModel::Print(shown_list(vals, " "@, vals.len() as int))),
        PurposeModel::Input => asking(
            s,
            RequestModel::Input(
                if vals.len() == 0 {
                    seq![]
                } else {
                    shown(vals[0])
                },
            ),
        ),
        PurposeModel::Math(f) => effected(s, math(f, vals)),
        PurposeModel::Str(f) => effected(s, str_function(f, vals)),
        PurposeModel::Arr(f) => effected(s, arr_function(f, vals)),
        PurposeModel::TimeFormat => effected(s, time_format(vals)),
        PurposeModel::Json(f) => effected(s, json_function(f, vals)),
        PurposeModel::Sys(f) => effected(s, sys_function(f, vals)),
        PurposeModel::Gui(f) => effected(s, gui_function(f, vals)),
        PurposeModel::Http(f) => effected(s, http_function(f, vals)),
        PurposeModel::Db(f) => effected(s, db_function(s.rt.db_open, f, vals)),
        PurposeModel::File(f) => effected(s, file_function(f, vals)),
        PurposeModel::CaseEquals(target) => case_equal(s, target, vals),
        PurposeModel::Method { kind, id, method } => method_called(s, kind, id, method, vals),
        PurposeModel::SelectFile => effected(s, select_file(vals)),
        PurposeModel::Assert => effected(s, assertion(vals)),
        PurposeModel::Call(call) => bound(s, with_arguments(call, vals), 0),
    }
}

pub open spec fn case_equal(s: MachineModel, target: ValueModel, vals: Seq<ValueModel>) -> MachineModel {
    if vals.len() == 1 {
        match (target, vals[0]) {
            (ValueModel::String(a), ValueModel::String(b)) => given(s, ValueModel::Logic(a == b)),
            _ => failed(s, throw_text("TypeError"@, "case-sensitive equality requires two strings"@)),
        }
    } else {
        failed(s, throw_text("ValueError"@, "case-sensitive equality expects exactly one argument"@))
    }
}

pub open spec fn method_called(
    s: MachineModel,
    kind: GuiKind,
    id: u64,
    method: Seq<char>,
    vals: Seq<ValueModel>,
) -> MachineModel {
    match method_result(s.rt, kind, id, method, vals) {
        Ok(MethodModel::Done(rt)) => given(MachineModel { rt, ..s }, ValueModel::Null),
        Ok(MethodModel::Run) => window_run(s, id),
        Err(e) => failed(s, e),
    }
}

// Calls.
/// A call, by the name it goes by.
pub open spec fn invoked(
    s: MachineModel,
    object: Option<Seq<char>>,
    module: Option<Seq<char>>,
    function: Seq<char>,
    args: Seq<ValueModel>,
) -> MachineModel {
    match module {
        Some(alias) => module_invoked(s, object, alias, function, args),
        None => match object {
            Some(obj) => object_invoked(s, obj, function, args),
            None => plainly_invoked(s, None, function, args),
        },
    }
}

/// A call of a function that another module exports. It sees the tables of its
/// own module, never the scope of the caller.
pub open spec fn module_invoked(
    s: MachineModel,
    object: Option<Seq<char>>,
    alias: Seq<char>,
    function: Seq<char>,
    args: Seq<ValueModel>,
) -> MachineModel {
    if object is Some {
        failed(s, fatal_model("module call cannot have an object"@))
    } else if lookup(s.rt.modules, alias) is None {
        failed(s, unknown_module(alias))
    } else {
        match read_global(s.rt, alias, function) {
            None => failed(s, unknown_export(alias, function)),
            Some(ValueModel::Function { params, defaults, body }) => called(
                s,
                CallModel {
                    local: ScopeModel { env: merged_env(s.rt, alias), types: merged_types(s.rt, alias), cur: alias },
                    pass: ValueModel::Null,
                    params,
                    defaults,
                    body,
                    function,
                    args,
                },
            ),
            Some(_) => failed(
                s,
                throw_model(
                    "TypeError"@,
                    seq![
                        PieceModel::Text(alias),
                        PieceModel::Text(":"@),
                        PieceModel::Text(function),
                        PieceModel::Text(" is not callable"@),
                    ],
                ),
            ),
        }
    }
}

/// A call with an object: one of the built-in libraries, or what the object
/// holds.
pub open spec fn object_invoked(
    s: MachineModel,
    obj: Seq<char>,
    function: Seq<char>,
    args: Seq<ValueModel>,
) -> MachineModel {
    if obj == "con"@ && function == "Print"@ {
        listed(s, PurposeModel::Print, args)
    } else if obj == "con"@ && function == "Input"@ {
        if args.len() > 1 {
            failed(s, throw_text("ValueError"@, "Input expects zero or one argument"@))
        } else {
            listed(s, PurposeModel::Input, args)
        }
    } else if obj == "math"@ {
        listed(s, PurposeModel::Math(function), args)
    } else if obj == "str"@ {
        listed(s, PurposeModel::Str(function), args)
    } else if obj == "arr"@ {
        listed(s, PurposeModel::Arr(function), args)
    } else if obj == "time"@ {
        if function == "Now"@ {
            if args.len() > 0 {
                failed(s, throw_text("ValueError"@, "Now expects no arguments"@))
            } else {
                asking(s, RequestModel::Now)
            }
        } else if function == "Format"@ {
            listed(s, PurposeModel::TimeFormat, args)
        } else {
            failed(s, unknown("Unknown time function: "@, function))
        }
    } else if obj == "json"@ {
        listed(s, PurposeModel::Json(function), args)
    } else if obj == "sys"@ {
        listed(s, PurposeModel::Sys(function), args)
    } else if obj == "gui"@ {
        listed(s, PurposeModel::Gui(function), args)
    } else if obj == "http"@ {
        listed(s, PurposeModel::Http(function), args)
    } else if obj == "db"@ {
        listed(s, PurposeModel::Db(function), args)
    } else if obj == "file"@ {
        listed(s, PurposeModel::File(function), args)
    } else {
        plainly_invoked(s, Some(obj), function, args)
    }
}

/// What a name stands for, with or without its `var.`.
pub open spec fn either_name(s: MachineModel, name: Seq<char>) -> Option<ValueModel> {
    match named_value(s.rt, s.scope, name) {
        Some(v) => Some(v),
        None => scoped(s.rt, s.scope, name),
    }
}

pub open spec fn compares_case(function: Seq<char>) -> bool {
    same_ignoring_case(function, "EqualsCaseSensitive"@) || same_ignoring_case(function, "caseSensitiveEquals"@)
}

pub open spec fn is_widget_method(function: Seq<char>) -> bool {
    function == "Run"@ || function == "AttachToWindow"@ || function == "SetPos"@ || function == "OnClick"@
}

/// A call that no library answers.
pub open spec fn plainly_invoked(
    s: MachineModel,
    object: Option<Seq<char>>,
    function: Seq<char>,
    args: Seq<ValueModel>,
) -> MachineModel {
    match object {
        None => if compares_case(function) {
            failed(s, throw_text("ValueError"@, "case-sensitive equality requires a target value"@))
        } else {
            callee_invoked(s, false, ValueModel::Null, function, args)
        },
        Some(obj) => match either_name(s, obj) {
            None => failed(s, unknown_variable(obj)),
            Some(pass) => if compares_case(function) {
                if args.len() == 1 {
                    listed(s, PurposeModel::CaseEquals(pass), args)
                } else {
                    failed(s, throw_text("ValueError"@, "case-sensitive equality expects exactly one argument"@))
                }
            } else {
                match scoped(s.rt, s.scope, obj) {
                    Some(ValueModel::Gui { kind, id }) => if lookup(s.rt.gui, id) is None {
                        failed(s, closed_complaint(kind))
                    } else {
                        listed(s, PurposeModel::Method { kind, id, method: function }, args)
                    },
                    Some(ValueModel::Null) => if is_widget_method(function) {
                        failed(
                            s,
                            throw_model("GuiError"@, seq![PieceModel::Text(obj), PieceModel::Text(" was closed"@)]),
                        )
                    } else {
                        callee_invoked(s, true, pass, function, args)
                    },
                    _ => callee_invoked(s, true, pass, function, args),
                }
            },
        },
    }
}

/// A call of what the name of the function stands for. `selectFile` and
/// `assert` stand for themselves where no variable has their name.
pub open spec fn callee_invoked(
    s: MachineModel,
    has_object: bool,
    pass: ValueModel,
    function: Seq<char>,
    args: Seq<ValueModel>,
) -> MachineModel {
    match either_name(s, function) {
        None => if function == "selectFile"@ && !has_object {
            listed(s, PurposeModel::SelectFile, args)
        } else if function == "assert"@ && !has_object {
            listed(s, PurposeModel::Assert, args)
        } else {
            failed(s, unknown_variable(function))
        },
        Some(ValueModel::Function { params, defaults, body }) => called(
            s,
            CallModel { local: s.scope, pass, params, defaults, body, function, args },
        ),
        Some(_) => failed(
            s,
            throw_model("TypeError"@, seq![PieceModel::Text(function), PieceModel::Text(" is not callable"@)]),
        ),
    }
}

pub open spec fn with_depth(s: MachineModel, depth: int) -> MachineModel {
    MachineModel { rt: RuntimeModel { call_depth: depth, ..s.rt }, ..s }
}

/// One call deeper, or none at all where the calls are nested too deep already.
pub open spec fn entered(s: MachineModel) -> Option<MachineModel> {
    if s.rt.call_depth < MAX_CALL_DEPTH {
        Some(pushed(with_depth(s, s.rt.call_depth + 1), FrameModel::Guard))
    } else {
        None
    }
}

pub open spec fn too_deep() -> FailureModel {
    fatal_model("maximum call depth exceeded (possible infinite recursion)"@)
}

/// A call of a function of the script.
pub open spec fn called(s: MachineModel, call: CallModel) -> MachineModel {
    match entered(s) {
        None => failed(s, too_deep()),
        Some(t) => listed(t, PurposeModel::Call(call), call.args),
    }
}

/// The call with `pass`, `arg` and `args` in its scope.
pub open spec fn with_arguments(call: CallModel, vals: Seq<ValueModel>) -> CallModel {
    let env = put(
        put(put(call.local.env, "pass"@, call.pass), "arg"@, ValueModel::Array(vals)),
        "args"@,
        ValueModel::Array(vals),
    );
    CallModel { local: ScopeModel { env, ..call.local }, ..call }
}

/// Binds the parameters from `next` on, each to its argument, or else to its
/// default; both are worked out in the scope of the caller. Then the body runs.
pub open spec fn bound(s: MachineModel, call: CallModel, next: int) -> MachineModel {
    if next < call.params.len() {
        if next < call.args.len() {
            evaluating(pushed(s, FrameModel::Bind { call, next }), call.args[next])
        } else {
            match lookup(call.defaults, call.params[next]) {
                Some(v) => evaluating(pushed(s, FrameModel::Bind { call, next }), v),
                None => failed(
                    s,
                    throw_model(
                        "ValueError"@,
                        seq![
                            PieceModel::Text(call.function),
                            PieceModel::Text("() missing required argument '"@),
                            PieceModel::Text(call.params[next]),
                            PieceModel::Text("'"@),
                        ],
                    ),
                ),
            }
        }
    } else {
        running(MachineModel { scope: call.local, ..pushed(s, FrameModel::Body(s.scope)) }, call.body)
    }
}

pub open spec fn with_parameter(call: CallModel, name: Seq<char>, v: ValueModel) -> CallModel {
    CallModel { local: ScopeModel { env: put(call.local.env, "arg."@ + name, v), ..call.local }, ..call }
}

/// A block from its first statement on.
pub open spec fn running(s: MachineModel, body: Seq<StatementModel>) -> MachineModel {
    flowing(pushed(s, FrameModel::Block { statements: body, next: 0 }), FlowModel::Normal)
}

// Reading what a container holds.
pub open spec fn element(s: MachineModel, container: ValueModel, i: int) -> MachineModel {
    match container {
        ValueModel::Array(items) => if i < items.len() {
            given(s, items[i])
        } else {
            failed(s, no_index(i))
        },
        ValueModel::String(t) => if i < t.len() {
            given(s, ValueModel::String(seq![t[i]]))
        } else {
            failed(s, no_index(i))
        },
        other => failed(s, wrong_value("Index requires an array or string, got "@, other)),
    }
}

pub open spec fn no_index(i: int) -> FailureModel {
    throw_model("IndexError"@, seq![PieceModel::Text("Index out of bounds: "@), PieceModel::Text(nat_text(i as nat))])
}

pub open spec fn element_at(s: MachineModel, container: ValueModel, index: ValueModel) -> MachineModel {
    match index {
        ValueModel::Number(n) => match index_of(n) {
            Some(i) => element(s, container, i),
            None => failed(
                s,
                throw_model(
                    "TypeError"@,
                    seq![PieceModel::Text("index must be a non-negative integer, got "@), PieceModel::Number(n)],
                ),
            ),
        },
        other => failed(s, wrong_value("Index requires an array or string with a numeric index, got "@, other)),
    }
}

pub open spec fn property_of(s: MachineModel, target: ValueModel, key: Seq<char>) -> MachineModel {
    match target {
        ValueModel::Object(t) => match lookup(t, key) {
            Some(v) => given(s, v),
            None => failed(s, unknown_property(key)),
        },
        ValueModel::Error { error_type, message } => if key == "type"@ {
            given(s, ValueModel::String(error_type))
        } else if key == "message"@ {
            given(s, ValueModel::String(message))
        } else {
            failed(s, unknown_property(key))
        },
        ValueModel::Null => given(s, ValueModel::Null),
        other => failed(s, wrong_value("Property access requires an object, got "@, other)),
    }
}

// Assignment targets.
pub open spec fn undeclared(name: Seq<char>) -> FailureModel {
    throw_model(
        "NameError"@,
        seq![PieceModel::Text("Cannot assign to undeclared variable: var."@), PieceModel::Text(name)],
    )
}

/// Reads what a target holds.
pub open spec fn read_step(s: MachineModel, target: TargetModel) -> MachineModel {
    match target {
        TargetModel::Var(name) => match scoped(s.rt, s.scope, name) {
            Some(v) => given(s, v),
            None => failed(s, undeclared(name)),
        },
        TargetModel::Property { target: inner, key } => focused(
            pushed(s, FrameModel::TargetProperty(key)),
            FocusModel::Read(*inner),
        ),
        TargetModel::Index { target: inner, index } => focused(
            pushed(s, FrameModel::TargetIndex(*index)),
            FocusModel::Read(*inner),
        ),
    }
}

pub open spec fn target_property(s: MachineModel, container: ValueModel, key: Seq<char>) -> MachineModel {
    match container {
        ValueModel::Object(t) => match lookup(t, key) {
            Some(v) => given(s, v),
            None => failed(s, unknown_property(key)),
        },
        other => failed(s, wrong_value("Property access requires an object, got "@, other)),
    }
}

/// The place that an index names in a target.
pub open spec fn place_named(index: ValueModel) -> Option<int> {
    match index {
        ValueModel::Number(n) => index_of(n),
        _ => None,
    }
}

pub open spec fn no_place() -> FailureModel {
    throw_text("TypeError"@, "index must be a non-negative integer"@)
}

pub open spec fn target_at(s: MachineModel, container: ValueModel, index: ValueModel) -> MachineModel {
    match place_named(index) {
        Some(i) => element(s, container, i),
        None => failed(s, no_place()),
    }
}

/// Writes a value at a target. A container is changed as a whole and written
/// back to the variable that holds it.
pub open spec fn write_step(s: MachineModel, target: TargetModel, v: ValueModel) -> MachineModel {
    match target {
        TargetModel::Var(name) => variable_written(s, name, v),
        TargetModel::Property { target: inner, key } => focused(
            pushed(s, FrameModel::WriteProperty { inner: *inner, key, value: v }),
            FocusModel::Read(*inner),
        ),
        TargetModel::Index { target: inner, index } => evaluating(
            pushed(s, FrameModel::WriteIndex { inner: *inner, value: v }),
            *index,
        ),
    }
}

pub open spec fn property_written(
    s: MachineModel,
    inner: TargetModel,
    key: Seq<char>,
    v: ValueModel,
    container: ValueModel,
) -> MachineModel {
    match container {
        ValueModel::Object(t) => focused(s, FocusModel::Write(inner, ValueModel::Object(put(t, key, v)))),
        other => failed(s, wrong_value("Property access requires an object, got "@, other)),
    }
}

pub open spec fn index_written(s: MachineModel, inner: TargetModel, v: ValueModel, index: ValueModel) -> MachineModel {
    match place_named(index) {
        Some(i) => focused(
            pushed(s, FrameModel::WriteAt { inner, index: i as u64, value: v }),
            FocusModel::Read(inner),
        ),
        None => failed(s, no_place()),
    }
}

pub open spec fn element_written(
    s: MachineModel,
    inner: TargetModel,
    i: u64,
    v: ValueModel,
    container: ValueModel,
) -> MachineModel {
    match container {
        ValueModel::Array(items) => if i < items.len() {
            focused(s, FocusModel::Write(inner, ValueModel::Array(items.update(i as int, v))))
        } else {
            failed(s, no_index(i as int))
        },
        ValueModel::String(_) => failed(s, throw_text("TypeError"@, "cannot assign into string characters"@)),
        other => failed(s, wrong_value("Index requires an array or string, got "@, other)),
    }
}

/// The type that a variable was declared with.
pub open spec fn slot_type(s: MachineModel, key: Seq<char>) -> Option<Seq<char>> {
    match lookup(s.scope.types, key) {
        Some(t) => Some(t),
        None => global_type(s.rt, s.scope.cur, key),
    }
}

/// What comes to stand in a declared slot.
pub open spec fn slot_value(s: MachineModel, name: Seq<char>, v: ValueModel) -> Result<
    (RuntimeModel, ValueModel),
    FailureModel,
> {
    match slot_type(s, "var."@ + name) {
        Some(declared) => match widget_kind(declared) {
            Some(kind) => assigned_widget(s.rt, name, declared, kind, scoped(s.rt, s.scope, name), v),
            None => kept(s.rt, name, declared, v),
        },
        None => Ok((s.rt, v)),
    }
}

/// The variables with `v` under `key`, and the live store too where the name
/// is exported.
pub open spec fn variable_set(s: MachineModel, name: Seq<char>, live: bool, v: ValueModel) -> MachineModel {
    let key = "var."@ + name;
    MachineModel {
        scope: ScopeModel { env: put(s.scope.env, key, v), ..s.scope },
        rt: if live {
            set_global(s.rt, s.scope.cur, key, v)
        } else {
            s.rt
        },
        ..s
    }
}

/// An assignment to a variable.
pub open spec fn variable_written(s: MachineModel, name: Seq<char>, v: ValueModel) -> MachineModel {
    if scoped(s.rt, s.scope, name) is None {
        failed(s, undeclared(name))
    } else {
        match slot_value(s, name, v) {
            Err(e) => failed(s, e),
            Ok((rt, stored)) => flowing(
                variable_set(MachineModel { rt, ..s }, name, is_global(rt, s.scope.cur, name), stored),
                FlowModel::Normal,
            ),
        }
    }
}

// Statements.
/// The start of the work on a statement.
pub open spec fn exec_step(s: MachineModel, st: StatementModel) -> MachineModel {
    match st {
        StatementModel::VariableDecl { name, declared, value } => declaring(s, name, declared, false, value),
        StatementModel::GlobalDecl { name, declared, value } => declaring(s, name, declared, true, value),
        StatementModel::Declare { .. } => flowing(s, FlowModel::Normal),
        StatementModel::FunctionCall { object, module, function, args } => invoked(
            pushed(s, FrameModel::Discard),
            object,
            module,
            function,
            args,
        ),
        StatementModel::Return { value } => evaluating(pushed(s, FrameModel::Return), *value),
        StatementModel::Assign { target, op, value } => evaluating(
            pushed(s, FrameModel::Assign { target, op }),
            *value,
        ),
        StatementModel::Switch { scrutinee, cases, default } => evaluating(
            pushed(s, FrameModel::Switch { cases, default }),
            *scrutinee,
        ),
        StatementModel::Event { object, name, body } => event_met(s, object, name, body),
        StatementModel::If { condition, then_branch, else_if_branches, else_branch } => evaluating(
            pushed(
                s,
                FrameModel::Branch { body: then_branch, rest: else_if_branches, next: 0, otherwise: else_branch },
            ),
            condition,
        ),
        StatementModel::While { condition, body } => while_step(s, condition, body, 0),
        StatementModel::ForIn { var, iterable, body } => match iterable {
            ValueModel::Binary { left, op: BinaryOperator::Range, right } => evaluating(
                pushed(s, FrameModel::RangeStart { var, end: *right, body }),
                *left,
            ),
            _ => evaluating(pushed(s, FrameModel::EachStart { var, body }), iterable),
        },
        StatementModel::Break => flowing(s, FlowModel::Break),
        StatementModel::Continue => flowing(s, FlowModel::Continue),
        StatementModel::Throw { error_type, message } => evaluating(pushed(s, FrameModel::Throw(error_type)), *message),
        StatementModel::Try { body, catches } => running(pushed(s, FrameModel::Try(catches)), body),
    }
}

/// A declaration. A function is taken as it stands.
pub open spec fn declaring(
    s: MachineModel,
    name: Seq<char>,
    declared: Seq<char>,
    global: bool,
    v: ValueModel,
) -> MachineModel {
    match v {
        ValueModel::Function { .. } => defined(s, name, declared, global, v),
        _ => evaluating(pushed(s, FrameModel::Define { name, declared, global }), v),
    }
}

/// What comes to stand in a new slot.
pub open spec fn new_slot_value(s: MachineModel, name: Seq<char>, declared: Seq<char>, v: ValueModel) -> Result<
    (RuntimeModel, ValueModel),
    FailureModel,
> {
    match widget_kind(declared) {
        Some(kind) => declared_widget(s.rt, name, declared, kind, v),
        None => kept(s.rt, name, declared, v),
    }
}

/// The end of a declaration: value and type replace what the name had before.
pub open spec fn defined(
    s: MachineModel,
    name: Seq<char>,
    declared: Seq<char>,
    global: bool,
    v: ValueModel,
) -> MachineModel {
    match new_slot_value(s, name, declared, v) {
        Err(e) => failed(s, e),
        Ok((rt, stored)) => flowing(
            MachineModel {
                scope: ScopeModel {
                    env: put(s.scope.env, "var."@ + name, stored),
                    types: put(s.scope.types, "var."@ + name, declared),
                    ..s.scope
                },
                rt: if global {
                    exported(rt, s.scope.cur, name, declared, stored)
                } else {
                    rt
                },
                ..s
            },
            FlowModel::Normal,
        ),
    }
}

pub open spec fn event_met(s: MachineModel, object: Seq<char>, name: Seq<char>, body: Seq<StatementModel>) -> MachineModel {
    if object == "kal"@ {
        if name == "OnStart"@ {
            running(pushed(s, FrameModel::OnStart), body)
        } else {
            flowing(s, FlowModel::Normal)
        }
    } else {
        match registered(s.rt, s.scope, object, name, body) {
            Ok(rt) => flowing(MachineModel { rt, ..s }, FlowModel::Normal),
            Err(e) => failed(s, e),
        }
    }
}

/// The body of the first case that strictly equals the subject, else the
/// default. The cases after it are not worked out.
pub open spec fn case_step(
    s: MachineModel,
    subject: ValueModel,
    cases: Seq<(ValueModel, Seq<StatementModel>)>,
    next: int,
    default: Option<Seq<StatementModel>>,
) -> MachineModel {
    if next < cases.len() {
        evaluating(pushed(s, FrameModel::Case { subject, cases, next, default }), cases[next].0)
    } else {
        run_if_any(s, default)
    }
}

pub open spec fn run_if_any(s: MachineModel, body: Option<Seq<StatementModel>>) -> MachineModel {
    match body {
        Some(b) => running(s, b),
        None => flowing(s, FlowModel::Normal),
    }
}

pub open spec fn branch_taken(
    s: MachineModel,
    test: ValueModel,
    body: Seq<StatementModel>,
    rest: Seq<(ValueModel, Seq<StatementModel>)>,
    next: int,
    otherwise: Option<Seq<StatementModel>>,
) -> MachineModel {
    if truthy(test) {
        running(s, body)
    } else if next < rest.len() {
        evaluating(pushed(s, FrameModel::Branch { body: rest[next].1, rest, next: next + 1, otherwise }), rest[next].0)
    } else {
        run_if_any(s, otherwise)
    }
}

pub open spec fn while_step(s: MachineModel, condition: ValueModel, body: Seq<StatementModel>, count: int) -> MachineModel {
    if count < MAX_LOOP_ITERS {
        evaluating(pushed(s, FrameModel::WhileTest { condition, body, count }), condition)
    } else {
        failed(s, fatal_model("possible infinite loop: while exceeded iteration limit"@))
    }
}

// Variables that a loop or a handler borrows.
pub open spec fn shadow_of(s: MachineModel, var: Seq<char>) -> ShadowModel {
    ShadowModel {
        key: "var."@ + var,
        saved: lookup(s.scope.env, "var."@ + var),
        saved_global: if is_global(s.rt, s.scope.cur, var) {
            read_global(s.rt, s.scope.cur, var)
        } else {
            None
        },
        shadows: is_global(s.rt, s.scope.cur, var),
    }
}

pub open spec fn shadowed(s: MachineModel, shadow: ShadowModel, v: ValueModel) -> MachineModel {
    MachineModel {
        scope: ScopeModel { env: put(s.scope.env, shadow.key, v), ..s.scope },
        rt: if shadow.shadows {
            set_global(s.rt, s.scope.cur, shadow.key, v)
        } else {
            s.rt
        },
        ..s
    }
}

pub open spec fn unshadowed(s: MachineModel, shadow: ShadowModel) -> MachineModel {
    MachineModel {
        scope: ScopeModel { env: restored(s.scope.env, shadow.key, shadow.saved), ..s.scope },
        rt: restored_global(s.rt, s.scope.cur, shadow.key, shadow.saved_global),
        ..s
    }
}

/// The bound of a range.
pub open spec fn range_bound(v: ValueModel) -> Result<int, FailureModel> {
    match v {
        ValueModel::Number(n) => integer(n),
        other => Err(wrong_value("range bounds must be numbers, got "@, other)),
    }
}

pub open spec fn range_started(
    s: MachineModel,
    v: ValueModel,
    var: Seq<char>,
    end: ValueModel,
    body: Seq<StatementModel>,
) -> MachineModel {
    match range_bound(v) {
        Err(e) => failed(s, e),
        Ok(n) => evaluating(pushed(s, FrameModel::RangeEnd { var, start: n as i64, body }), end),
    }
}

pub open spec fn range_ended(
    s: MachineModel,
    v: ValueModel,
    var: Seq<char>,
    start: i64,
    body: Seq<StatementModel>,
) -> MachineModel {
    match range_bound(v) {
        Err(e) => failed(s, e),
        Ok(n) => range_step(s, shadow_of(s, var), body, start, n as i64),
    }
}

pub open spec fn range_step(s: MachineModel, shadow: ShadowModel, body: Seq<StatementModel>, at: i64, end: i64) -> MachineModel {
    if at < end {
        offered(pushed(s, FrameModel::RangeItem { shadow, body, at, end }), PlanModel::Integer(at))
    } else {
        flowing(unshadowed(s, shadow), FlowModel::Normal)
    }
}

pub open spec fn each_started(s: MachineModel, v: ValueModel, var: Seq<char>, body: Seq<StatementModel>) -> MachineModel {
    match v {
        ValueModel::Array(items) => each_step(s, shadow_of(s, var), body, items, 0),
        ValueModel::String(t) => each_step(s, shadow_of(s, var), body, characters(t), 0),
        other => failed(s, wrong_value("for-in requires an array or string, got "@, other)),
    }
}

/// The characters of a text, each as a value.
pub open spec fn characters(t: Seq<char>) -> Seq<ValueModel> {
    Seq::new(t.len(), |i: int| ValueModel::String(seq![t[i]]))
}

pub open spec fn each_step(
    s: MachineModel,
    shadow: ShadowModel,
    body: Seq<StatementModel>,
    items: Seq<ValueModel>,
    next: int,
) -> MachineModel {
    if next < items.len() {
        running(
            pushed(
                shadowed(s, shadow, items[next]),
                FrameModel::EachBody { shadow, body, items, next: next + 1 },
            ),
            body,
        )
    } else {
        flowing(unshadowed(s, shadow), FlowModel::Normal)
    }
}

// Faults.
pub open spec fn thrown_type(v: ValueModel) -> Seq<char> {
    match v {
        ValueModel::Error { error_type, .. } => error_type,
        _ => "Error"@,
    }
}

/// The first handler from `i` on that takes errors of the type.
pub open spec fn handler_for(catches: Seq<CatchModel>, error_type: Seq<char>, i: int) -> Option<int>
    decreases catches.len() - i,
{
    if 0 <= i < catches.len() {
        if catches[i].error_type == error_type || catches[i].error_type == "Error"@ {
            Some(i)
        } else {
            handler_for(catches, error_type, i + 1)
        }
    } else {
        None
    }
}

/// An error met by a `try`.
pub open spec fn caught(s: MachineModel, catches: Seq<CatchModel>, err: ValueModel) -> MachineModel {
    match handler_for(catches, thrown_type(err), 0) {
        Some(i) => {
            let shadow = shadow_of(s, "err"@);
            running(pushed(shadowed(s, shadow, err), FrameModel::Catch(shadow)), catches[i].body)
        },
        None => faulty(s, FaultModel::Throw(err)),
    }
}

/// An error with its message written.
pub open spec fn raised(s: MachineModel, error_type: Seq<char>, message: ValueModel) -> MachineModel {
    faulty(
        s,
        FaultModel::Throw(
            ValueModel::Error {
                error_type,
                message: match message {
                    ValueModel::String(m) => m,
                    _ => seq![],
                },
            },
        ),
    )
}

pub open spec fn stray_break() -> FailureModel {
    fatal_model("break outside loop"@)
}

pub open spec fn stray_continue() -> FailureModel {
    fatal_model("continue outside loop"@)
}

pub open spec fn stray_return() -> FailureModel {
    fatal_model("return can only be used inside a function body"@)
}

} // verus!
