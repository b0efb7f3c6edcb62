//! What an expression is worth, said directly, and that the machine finds it.

use crate::arrlib::arr_function;
use crate::ast::{StatementModel, ValueModel};
use crate::builtins::math;
use crate::draft::{settle, settled, PlanModel};
use crate::number::index_of;
use crate::operators::{binary_result, unary_result};
use crate::request::EffectModel;
use crate::runtime::{
    merged_env, merged_types, named_value, read_global, scoped, RuntimeModel, ScopeModel, MAX_CALL_DEPTH,
};
use crate::semantics::{
    callee_invoked, called, is_widget_method, plainly_invoked, applied, bound, compares_case, contents, either_name,
    entered, eval_step, evaluating, flowing, focused, given, list_step, offered, pushed, running, with_arguments,
    with_depth, with_parameter, zipped,
};
use crate::state::{CallModel, EventModel, FlowModel, FocusModel, FrameModel, MachineModel, PurposeModel, WaitModel};
use crate::steps::{answered, can_step, idle, popped, step, steps, value_step};
use crate::strlib::str_function;
use crate::table::{keys, lookup};
use vstd::prelude::*;

verus! {

/// What a property of a value is, if it has it.
pub open spec fn property_in(target: ValueModel, key: Seq<char>) -> Option<ValueModel> {
    match target {
        ValueModel::Object(t) => lookup(t, key),
        ValueModel::Error { error_type, message } => if key == "type"@ {
            Some(ValueModel::String(error_type))
        } else if key == "message"@ {
            Some(ValueModel::String(message))
        } else {
            None
        },
        ValueModel::Null => Some(ValueModel::Null),
        _ => None,
    }
}

/// What stands at an index of a value, if there is such a place.
pub open spec fn element_in(container: ValueModel, index: ValueModel) -> Option<ValueModel> {
    match index {
        ValueModel::Number(n) => match index_of(n) {
            Some(i) => match container {
                ValueModel::Array(items) => if i < items.len() {
                    Some(items[i])
                } else {
                    None
                },
                ValueModel::String(t) => if i < t.len() {
                    Some(ValueModel::String(seq![t[i]]))
                } else {
                    None
                },
                _ => None,
            },
            None => None,
        },
        _ => None,
    }
}

/// What a host makes of the plans that it is handed.
pub type Host = spec_fn(PlanModel) -> ValueModel;

/// What a plan comes to: at once where the host is not needed, else as the host
/// works it out.
pub open spec fn worked(h: Host, p: PlanModel) -> ValueModel {
    if settled(p) {
        settle(p)
    } else {
        h(p)
    }
}

/// What the function of a library that only computes gives for its arguments.
pub open spec fn library_result(object: Seq<char>, function: Seq<char>, vals: Seq<ValueModel>) -> Option<PlanModel> {
    let r = if object == "math"@ {
        math(function, vals)
    } else if object == "str"@ {
        str_function(function, vals)
    } else {
        arr_function(function, vals)
    };
    match r {
        Ok(EffectModel::Plan(p)) => Some(p),
        _ => None,
    }
}

pub open spec fn computes(object: Seq<char>) -> bool {
    object == "math"@ || object == "str"@ || object == "arr"@
}

/// The call with its parameters up to `n` bound.
pub open spec fn with_parameters(call: CallModel, vals: Seq<ValueModel>, n: int) -> CallModel
    decreases n,
{
    if n <= 0 || n > call.params.len() || n > vals.len() {
        call
    } else {
        let before = with_parameters(call, vals, n - 1);
        with_parameter(before, call.params[n - 1], vals[n - 1])
    }
}

/// The scope in which the body of a function runs, from the values of the arguments and
/// those of the parameters.
pub open spec fn body_scope(call: CallModel, args: Seq<ValueModel>, params: Seq<ValueModel>) -> ScopeModel {
    with_parameters(with_arguments(call, args), params, call.params.len() as int).local
}

/// One call deeper.
pub open spec fn deeper(rt: RuntimeModel) -> RuntimeModel {
    RuntimeModel { call_depth: rt.call_depth + 1, ..rt }
}

/// Whether a library answers a call on an object.
pub open spec fn names_library(object: Seq<char>, function: Seq<char>) -> bool {
    computes(object) || (object == "con"@ && (function == "Print"@ || function == "Input"@)) || object == "time"@ || object == "json"@ || object == "sys"@ || object
        == "gui"@ || object == "http"@ || object == "db"@ || object == "file"@
}

/// What a name stands for, with or without its `var.`.
pub open spec fn named_either_way(rt: RuntimeModel, scope: ScopeModel, name: Seq<char>) -> Option<ValueModel> {
    match named_value(rt, scope, name) {
        Some(v) => Some(v),
        None => scoped(rt, scope, name),
    }
}

/// The call of a function as it is made with a scope of its own.
pub open spec fn call_in(
    local: ScopeModel,
    pass: ValueModel,
    callee: Option<ValueModel>,
    function: Seq<char>,
    args: Seq<ValueModel>,
) -> Option<CallModel> {
    match callee {
        Some(ValueModel::Function { params, defaults, body }) => Some(
            CallModel { local, pass, params, defaults, body, function, args },
        ),
        _ => None,
    }
}

/// The call of a function of the script that an expression stands for: one that another
/// module exports, which sees the tables of its own module; one that is called on an
/// object, which it is passed; or one that is called by its name.
pub open spec fn script_call(
    rt: RuntimeModel,
    scope: ScopeModel,
    object: Option<Seq<char>>,
    module: Option<Seq<char>>,
    function: Seq<char>,
    args: Seq<ValueModel>,
) -> Option<CallModel> {
    match (module, object) {
        (Some(alias), None) => if lookup(rt.modules, alias) is Some {
            call_in(
                ScopeModel { env: merged_env(rt, alias), types: merged_types(rt, alias), cur: alias },
                ValueModel::Null,
                read_global(rt, alias, function),
                function,
                args,
            )
        } else {
            None
        },
        (Some(_), Some(_)) => None,
        (None, None) => if compares_case(function) {
            None
        } else {
            call_in(scope, ValueModel::Null, named_either_way(rt, scope, function), function, args)
        },
        (None, Some(obj)) => match named_either_way(rt, scope, obj) {
            Some(pass) => {
                let held = scoped(rt, scope, obj);
                if names_library(obj, function) || compares_case(function) || held matches Some(ValueModel::Gui { .. }) || (held
                    == Some(ValueModel::Null) && is_widget_method(function)) {
                    None
                } else {
                    call_in(scope, pass, named_either_way(rt, scope, function), function, args)
                }
            },
            None => None,
        },
    }
}

/// The expression that a parameter takes its value from: its argument, else its default.
pub open spec fn source_of(call: CallModel, k: int) -> Option<ValueModel> {
    if k < call.args.len() {
        Some(call.args[k])
    } else {
        lookup(call.defaults, call.params[k])
    }
}

/// Whether every parameter has an argument or a default.
pub open spec fn complete(call: CallModel) -> bool {
    forall|k: int| 0 <= k < call.params.len() ==> #[trigger] source_of(call, k) is Some
}

/// The expressions that the parameters take their values from.
pub open spec fn sources(call: CallModel) -> Seq<ValueModel> {
    Seq::new(call.params.len(), |k: int| source_of(call, k)->0)
}

/// The expression that a body returns, if it does nothing else.
pub open spec fn returned(body: Seq<StatementModel>) -> Option<ValueModel> {
    if body.len() == 1 {
        match body[0] {
            StatementModel::Return { value } => Some(*value),
            _ => None,
        }
    } else {
        None
    }
}

/// What an expression is worth, where the host works plans out as `h` says. A call
/// counts where a library answers it that asks for nothing, or where its function
/// returns an expression and has an argument or a default for each parameter: it is
/// then worth what that expression is worth with the parameters in place. Arguments and
/// defaults are worth what they are in the scope of the caller.
pub open spec fn value_of(
    h: Host,
    rt: RuntimeModel,
    scope: ScopeModel,
    v: ValueModel,
) -> Option<ValueModel>
    decreases MAX_CALL_DEPTH - rt.call_depth, v,
{
    match v {
        ValueModel::Variable(name) => named_value(rt, scope, name),
        ValueModel::ModuleVar { alias, name } => if lookup(rt.modules, alias) is Some {
            read_global(rt, alias, name)
        } else {
            None
        },
        ValueModel::FunctionCall { object, module, function, args } => if module is None && object is Some && computes(
            object->0,
        ) {
            if forall|i: int| 0 <= i < args.len() ==> value_of(h, rt, scope, #[trigger] args[i]) is Some {
                match library_result(object->0, function, values_of(h, rt, scope, args)) {
                    Some(p) => Some(worked(h, p)),
                    None => None,
                }
            } else {
                None
            }
        } else {
            match script_call(rt, scope, object, module, function, args) {
                Some(call) => match returned(call.body) {
                    Some(e) => if 0 <= rt.call_depth < MAX_CALL_DEPTH && complete(call) && (forall|i: int|
                        0 <= i < args.len() ==> value_of(h, deeper(rt), scope, #[trigger] args[i]) is Some) && (forall|
                        i: int,
                    |
                        0 <= i < call.params.len() ==> value_of(h, deeper(rt), scope, #[trigger] sources(call)[i])
                            is Some) {
                        value_of(
                            h,
                            deeper(rt),
                            body_scope(
                                call,
                                values_of(h, deeper(rt), scope, args),
                                values_of(h, deeper(rt), scope, sources(call)),
                            ),
                            e,
                        )
                    } else {
                        None
                    },
                    None => None,
                },
                None => None,
            }
        },
        ValueModel::Array(items) => if forall|i: int|
            0 <= i < items.len() ==> value_of(h, rt, scope, #[trigger] items[i]) is Some {
            Some(ValueModel::Array(values_of(h, rt, scope, items)))
        } else {
            None
        },
        ValueModel::Object(t) => if forall|i: int|
            0 <= i < t.len() ==> value_of(h, rt, scope, (#[trigger] t[i]).1) is Some {
            Some(
                ValueModel::Object(
                    Seq::new(
                        t.len(),
                        |i: int|
                            if 0 <= i < t.len() {
                                (t[i].0, value_of(h, rt, scope, t[i].1)->0)
                            } else {
                                arbitrary()
                            },
                    ),
                ),
            )
        } else {
            None
        },
        ValueModel::Property { target, key } => match value_of(h, rt, scope, *target) {
            Some(x) => property_in(x, key),
            None => None,
        },
        ValueModel::Index { target, index } => match (
            value_of(h, rt, scope, *target),
            value_of(h, rt, scope, *index),
        ) {
            (Some(x), Some(i)) => element_in(x, i),
            _ => None,
        },
        ValueModel::Binary { left, op, right } => match (
            value_of(h, rt, scope, *left),
            value_of(h, rt, scope, *right),
        ) {
            (Some(x), Some(y)) => match binary_result(x, y, op) {
                Ok(p) => Some(worked(h, p)),
                Err(_) => None,
            },
            _ => None,
        },
        ValueModel::Unary { op, value } => match value_of(h, rt, scope, *value) {
            Some(x) => match unary_result(x, op) {
                Ok(p) => Some(worked(h, p)),
                Err(_) => None,
            },
            None => None,
        },
        _ => Some(v),
    }
}

/// What expressions are worth that are all worth something.
pub open spec fn values_of(h: Host, rt: RuntimeModel, scope: ScopeModel, items: Seq<ValueModel>) -> Seq<ValueModel>
    decreases MAX_CALL_DEPTH - rt.call_depth, items,
{
    Seq::new(
        items.len(),
        |i: int|
            if 0 <= i < items.len() {
                value_of(h, rt, scope, items[i])->0
            } else {
                arbitrary()
            },
    )
}

/// One step with a host that works plans out as `h` says. A state that has ended,
/// or that waits for more than a plan, stays as it is.
pub open spec fn advance(h: Host, s: MachineModel) -> MachineModel {
    if can_step(s) {
        step(s)
    } else {
        match s.focus {
            FocusModel::Await(WaitModel::Plan(p)) => answered(s, EventModel::Value(h(p))),
            _ => s,
        }
    }
}

/// `n` such steps.
pub open spec fn advances(h: Host, s: MachineModel, n: nat) -> MachineModel
    decreases n,
{
    if n == 0 {
        s
    } else {
        advances(h, advance(h, s), (n - 1) as nat)
    }
}

/// Whether the machine and such a host come from one state to the other.
pub open spec fn reaches(h: Host, a: MachineModel, b: MachineModel) -> bool {
    exists|n: nat| #[trigger] advances(h, a, n) == b
}

pub proof fn lemma_start(h: Host, a: MachineModel)
    ensures
        reaches(h, a, a),
{
    assert(advances(h, a, 0) == a);
}

pub proof fn lemma_first_step(h: Host, a: MachineModel, b: MachineModel)
    requires
        can_step(a),
        reaches(h, step(a), b),
    ensures
        reaches(h, a, b),
{
    let n = choose|n: nat| #[trigger] advances(h, step(a), n) == b;
    assert(advances(h, a, n + 1) == b);
}

proof fn lemma_advances_add_up(h: Host, s: MachineModel, a: nat, b: nat)
    ensures
        advances(h, advances(h, s, a), b) == advances(h, s, a + b),
    decreases a,
{
    if a > 0 {
        lemma_advances_add_up(h, advance(h, s), (a - 1) as nat, b);
    }
}

/// One way after the other is a way.
pub proof fn ways_join(h: Host, a: MachineModel, b: MachineModel, c: MachineModel)
    requires
        reaches(h, a, b),
        reaches(h, b, c),
    ensures
        reaches(h, a, c),
{
    let n = choose|n: nat| #[trigger] advances(h, a, n) == b;
    let m = choose|m: nat| #[trigger] advances(h, b, m) == c;
    lemma_advances_add_up(h, a, n, m);
    assert(advances(h, a, n + m) == c);
}

/// What the machine does by itself it does with a host too.
pub proof fn own_steps_are_a_way(h: Host, s: MachineModel, n: nat)
    ensures
        reaches(h, s, steps(s, n)),
    decreases n,
{
    if n > 0 && can_step(s) {
        own_steps_are_a_way(h, step(s), (n - 1) as nat);
        lemma_first_step(h, s, steps(s, n));
    } else {
        lemma_start(h, s);
    }
}

/// A plan is worked out, by the machine or by the host.
pub proof fn lemma_offered(h: Host, s: MachineModel, p: PlanModel)
    ensures
        reaches(h, offered(s, p), given(s, worked(h, p))),
{
    let goal = given(s, worked(h, p));
    if settled(p) {
        lemma_start(h, goal);
    } else {
        let a = offered(s, p);
        assert(advance(h, a) == goal);
        assert(advances(h, goal, 0) == goal);
        assert(advances(h, a, 1) == goal);
    }
}

/// From an expression to what is left to do with its value.
proof fn lemma_value_met(
    h: Host,
    s: MachineModel,
    frame: FrameModel,
    x: ValueModel,
    goal: MachineModel,
)
    requires
        reaches(h, value_step(idle(s), frame, x), goal),
    ensures
        reaches(h, given(pushed(s, frame), x), goal),
{
    let a = given(pushed(s, frame), x);
    assert(a.stack.drop_last() =~= s.stack);
    assert(popped(idle(a)) == idle(s));
    lemma_first_step(h, a, goal);
}

/// An expression on top of a frame, up to the value that the frame gets.
pub proof fn lemma_under(
    h: Host,
    s: MachineModel,
    frame: FrameModel,
    v: ValueModel,
    x: ValueModel,
    goal: MachineModel,
)
    requires
        value_of(h, s.rt, s.scope, v) == Some(x),
        reaches(h, value_step(idle(s), frame, x), goal),
    ensures
        reaches(h, evaluating(pushed(s, frame), v), goal),
    decreases MAX_CALL_DEPTH - s.rt.call_depth, v, 3int,
{
    machine_finds_value(h, pushed(s, frame), v, x);
    lemma_value_met(h, s, frame, x, goal);
    ways_join(h, evaluating(pushed(s, frame), v), given(pushed(s, frame), x), goal);
}

/// A list of expressions, from the `k`th on, up to what their values are for.
pub proof fn lemma_items(
    h: Host,
    s: MachineModel,
    purpose: PurposeModel,
    items: Seq<ValueModel>,
    k: int,
    w: Seq<ValueModel>,
    goal: MachineModel,
)
    requires
        s.focus is Done,
        0 <= k <= items.len(),
        w.len() == items.len(),
        forall|i: int| 0 <= i < items.len() ==> value_of(h, s.rt, s.scope, #[trigger] items[i]) == Some(w[i]),
        reaches(h, applied(s, purpose, w), goal),
    ensures
        reaches(h, list_step(s, purpose, items, k, w.take(k)), goal),
    decreases MAX_CALL_DEPTH - s.rt.call_depth, items, items.len() - k,
{
    if k < items.len() {
        let frame = FrameModel::Args { purpose, items, next: k + 1, done: w.take(k) };
        assert(w.take(k).push(w[k]) =~= w.take(k + 1));
        assert(idle(s) == s);
        lemma_items(h, s, purpose, items, k + 1, w, goal);
        assert(value_step(s, frame, w[k]) == list_step(s, purpose, items, k + 1, w.take(k + 1)));
        lemma_under(h, s, frame, items[k], w[k], goal);
    } else {
        assert(w.take(k) =~= w);
    }
}

proof fn lemma_entries(
    h: Host,
    s: MachineModel,
    t: Seq<(Seq<char>, ValueModel)>,
    k: int,
    w: Seq<(Seq<char>, ValueModel)>,
)
    requires
        s.focus is Done,
        0 <= k <= t.len(),
        w.len() == t.len(),
        forall|i: int|
            0 <= i < t.len() ==> value_of(h, s.rt, s.scope, (#[trigger] t[i]).1) == Some(w[i].1) && w[i].0 == t[i].0,
    ensures
        reaches(
            h,
            list_step(s, PurposeModel::Object(keys(t)), contents(t), k, contents(w).take(k)),
            given(s, ValueModel::Object(w)),
        ),
    decreases MAX_CALL_DEPTH - s.rt.call_depth, t, t.len() - k,
{
    let goal = given(s, ValueModel::Object(w));
    let purpose = PurposeModel::Object(keys(t));
    let done = contents(w).take(k);
    if k < t.len() {
        let frame = FrameModel::Args { purpose, items: contents(t), next: k + 1, done };
        assert(done.push(w[k].1) =~= contents(w).take(k + 1));
        assert(idle(s) == s);
        lemma_entries(h, s, t, k + 1, w);
        lemma_under(h, s, frame, t[k].1, w[k].1, goal);
    } else {
        assert(zipped(keys(t), done) =~= w);
        lemma_start(h, goal);
    }
}

proof fn lemma_array(h: Host, s: MachineModel, v: ValueModel, w: ValueModel)
    requires
        s.focus is Done,
        v is Array,
        value_of(h, s.rt, s.scope, v) == Some(w),
    ensures
        reaches(h, eval_step(s, v), given(s, w)),
    decreases MAX_CALL_DEPTH - s.rt.call_depth, v, 1int,
{
    let goal = given(s, w);
    assert(idle(s) == s);
    lemma_start(h, goal);
    if let ValueModel::Array(items) = v {
        let all = values_of(h, s.rt, s.scope, items);
        assert(w == ValueModel::Array(all));
        assert(all.take(0) =~= seq![]);
        assert(applied(s, PurposeModel::Array, all) == goal);
        assert(eval_step(s, v) == list_step(s, PurposeModel::Array, items, 0, seq![]));
        lemma_items(h, s, PurposeModel::Array, items, 0, all, goal);
    }
}

proof fn lemma_object(h: Host, s: MachineModel, v: ValueModel, w: ValueModel)
    requires
        s.focus is Done,
        v is Object,
        value_of(h, s.rt, s.scope, v) == Some(w),
    ensures
        reaches(h, eval_step(s, v), given(s, w)),
    decreases MAX_CALL_DEPTH - s.rt.call_depth, v, 1int,
{
    let goal = given(s, w);
    assert(idle(s) == s);
    lemma_start(h, goal);
    if let ValueModel::Object(t) = v {
        let all = w->Object_0;
        assert(contents(all).take(0) =~= seq![]);
        lemma_entries(h, s, t, 0, all);
    }
}

proof fn lemma_call(h: Host, s: MachineModel, v: ValueModel, w: ValueModel)
    requires
        s.focus is Done,
        v is FunctionCall,
        value_of(h, s.rt, s.scope, v) == Some(w),
    ensures
        reaches(h, eval_step(s, v), given(s, w)),
    decreases MAX_CALL_DEPTH - s.rt.call_depth, v, 1int,
{
    if let ValueModel::FunctionCall { object, module, function, args } = v {
        if module is None && object is Some && computes(object->0) {
            lemma_library_call(h, s, object->0, function, args, w);
        } else {
            lemma_script_call(h, s, object, module, function, args, w);
        }
    }
}

proof fn lemma_library_call(
    h: Host,
    s: MachineModel,
    object: Seq<char>,
    function: Seq<char>,
    args: Seq<ValueModel>,
    w: ValueModel,
)
    requires
        s.focus is Done,
        computes(object),
        value_of(
            h,
            s.rt,
            s.scope,
            ValueModel::FunctionCall { object: Some(object), module: None, function, args },
        ) == Some(w),
    ensures
        reaches(
            h,
            eval_step(s, ValueModel::FunctionCall { object: Some(object), module: None, function, args }),
            given(s, w),
        ),
    decreases MAX_CALL_DEPTH - s.rt.call_depth, args, args.len() + 1,
{
    let goal = given(s, w);
    assert(idle(s) == s);
    let vals = values_of(h, s.rt, s.scope, args);
    assert(vals.take(0) =~= seq![]);
    let p = library_result(object, function, vals)->0;
    let purpose = library_purpose(object, function);
    lemma_offered(h, s, p);
    lemma_library(s, object, function, vals);
    assert(reaches(h, applied(s, purpose, vals), goal));
    lemma_items(h, s, purpose, args, 0, vals, goal);
    lemma_library_called(s, object, function, args);
}

proof fn lemma_with_parameters(call: CallModel, vals: Seq<ValueModel>, n: int)
    ensures
        ({
            let c = with_parameters(call, vals, n);
            c.params == call.params && c.args == call.args && c.defaults == call.defaults && c.body == call.body
                && c.function == call.function
        }),
    decreases n,
{
    if 0 < n <= call.params.len() && n <= vals.len() {
        lemma_with_parameters(call, vals, n - 1);
    }
}

proof fn lemma_bind(h: Host, s: MachineModel, call: CallModel, vals: Seq<ValueModel>, k: int)
    requires
        s.focus is Done,
        0 <= k <= call.params.len(),
        complete(call),
        vals.len() == call.params.len(),
        forall|i: int|
            0 <= i < call.params.len() ==> value_of(h, s.rt, s.scope, #[trigger] sources(call)[i]) == Some(vals[i]),
    ensures
        reaches(
            h,
            bound(s, with_parameters(call, vals, k), k),
            bound(s, with_parameters(call, vals, call.params.len() as int), call.params.len() as int),
        ),
    decreases MAX_CALL_DEPTH - s.rt.call_depth, sources(call), call.params.len() - k,
{
    let n = call.params.len() as int;
    let goal = bound(s, with_parameters(call, vals, n), n);
    lemma_with_parameters(call, vals, k);
    if k < n {
        let c = with_parameters(call, vals, k);
        let frame = FrameModel::Bind { call: c, next: k };
        let e = sources(call)[k];
        lemma_bind(h, s, call, vals, k + 1);
        assert(idle(s) == s);
        assert(value_step(s, frame, vals[k]) == bound(s, with_parameters(call, vals, k + 1), k + 1));
        assert(source_of(call, k) is Some);
        assert(bound(s, c, k) == evaluating(pushed(s, frame), e));
        lemma_under(h, s, frame, e, vals[k], goal);
    } else {
        lemma_start(h, goal);
    }
}

/// The first statement of a block is a `return` of an expression.
proof fn lemma_return(h: Host, s: MachineModel, e: ValueModel, w: ValueModel)
    requires
        s.focus is Done,
        value_of(h, s.rt, s.scope, e) == Some(w),
    ensures
        reaches(
            h,
            running(s, seq![StatementModel::Return { value: Box::new(e) }]),
            flowing(s, FlowModel::Return(w)),
        ),
    decreases MAX_CALL_DEPTH - s.rt.call_depth, e, 4int,
{
    let st = StatementModel::Return { value: Box::new(e) };
    let body = seq![st];
    let goal = flowing(s, FlowModel::Return(w));
    let last = FrameModel::Block { statements: body, next: 1 };
    let t = pushed(s, last);
    // After the value: the return leaves the block.
    let after = flowing(t, FlowModel::Return(w));
    assert(t.stack.drop_last() =~= s.stack);
    assert(popped(idle(after)) == s);
    lemma_start(h, goal);
    lemma_first_step(h, after, goal);
    assert(value_step(idle(t), FrameModel::Return, w) == after);
    lemma_under(h, t, FrameModel::Return, e, w, goal);
    // Before: the block starts its statement.
    let exec = focused(t, FocusModel::Exec(st));
    assert(step(exec) == evaluating(pushed(t, FrameModel::Return), e));
    lemma_first_step(h, exec, goal);
    let a = running(s, body);
    assert(a.stack.drop_last() =~= s.stack);
    assert(popped(idle(a)) == s);
    assert(step(a) == exec);
    lemma_first_step(h, a, goal);
}

/// The end of a call: value, scope and depth go back to the caller.
proof fn lemma_call_end(h: Host, s: MachineModel, scope: ScopeModel, w: ValueModel)
    requires
        s.focus is Done,
        0 <= s.rt.call_depth < MAX_CALL_DEPTH,
    ensures
        ({
            let inner = body_start(s, scope);
            reaches(h, flowing(inner, FlowModel::Return(w)), given(s, w))
        }),
{
    let t = entered(s)->0;
    let inner = body_start(s, scope);
    let a = flowing(inner, FlowModel::Return(w));
    let b = given(t, w);
    let goal = given(s, w);
    assert(inner.stack.drop_last() =~= t.stack);
    assert(t.stack.drop_last() =~= s.stack);
    assert(step(a) == b);
    assert(popped(idle(b)) == with_depth(s, s.rt.call_depth + 1));
    assert(step(b) == goal);
    lemma_start(h, goal);
    lemma_first_step(h, b, goal);
    lemma_first_step(h, a, goal);
}

/// The state in which the body of a function starts.
pub open spec fn body_start(s: MachineModel, scope: ScopeModel) -> MachineModel {
    MachineModel { scope, ..pushed(entered(s)->0, FrameModel::Body(s.scope)) }
}

/// A call, from its start to its body.
pub proof fn lemma_body_starts(h: Host, s: MachineModel, call: CallModel, goal: MachineModel)
    requires
        s.focus is Done,
        0 <= s.rt.call_depth < MAX_CALL_DEPTH,
        complete(call),
        forall|i: int|
            0 <= i < call.args.len() ==> value_of(h, deeper(s.rt), s.scope, #[trigger] call.args[i]) is Some,
        forall|i: int|
            0 <= i < call.params.len() ==> value_of(h, deeper(s.rt), s.scope, #[trigger] sources(call)[i]) is Some,
        reaches(
            h,
            running(
                body_start(
                    s,
                    body_scope(
                        call,
                        values_of(h, deeper(s.rt), s.scope, call.args),
                        values_of(h, deeper(s.rt), s.scope, sources(call)),
                    ),
                ),
                call.body,
            ),
            goal,
        ),
    ensures
        reaches(h, called(s, call), goal),
    decreases MAX_CALL_DEPTH - s.rt.call_depth, call.args, 0int,
{
    let t = entered(s)->0;
    let n = call.params.len() as int;
    assert(t.rt == deeper(s.rt));
    let vals = values_of(h, t.rt, s.scope, call.args);
    let own = values_of(h, t.rt, s.scope, sources(call));
    // The parameters.
    let c = with_arguments(call, vals);
    let d = with_parameters(c, own, n);
    lemma_with_parameters(c, own, n);
    assert(bound(t, d, n) == running(body_start(s, d.local), call.body));
    assert forall|k: int| 0 <= k < n implies #[trigger] source_of(c, k) is Some by {
        assert(source_of(call, k) is Some);
    }
    assert(sources(c) =~= sources(call));
    lemma_bind(h, t, c, own, 0);
    assert(with_parameters(c, own, 0) == c);
    ways_join(h, bound(t, c, 0), bound(t, d, n), goal);
    // The arguments.
    assert(applied(t, PurposeModel::Call(call), vals) == bound(t, c, 0));
    lemma_items(h, t, PurposeModel::Call(call), call.args, 0, vals, goal);
    assert(vals.take(0) =~= seq![]);
}

/// A call of a function that returns an expression, from its start to its value: the
/// caller finds its variables and its depth as they were.
proof fn lemma_script_call(
    h: Host,
    s: MachineModel,
    object: Option<Seq<char>>,
    module: Option<Seq<char>>,
    function: Seq<char>,
    args: Seq<ValueModel>,
    w: ValueModel,
)
    requires
        s.focus is Done,
        !(module is None && object is Some && computes(object->0)),
        value_of(h, s.rt, s.scope, ValueModel::FunctionCall { object, module, function, args }) == Some(w),
    ensures
        reaches(h, eval_step(s, ValueModel::FunctionCall { object, module, function, args }), given(s, w)),
    decreases MAX_CALL_DEPTH - s.rt.call_depth, args, 1int,
{
    let call = script_call(s.rt, s.scope, object, module, function, args)->0;
    let e = returned(call.body)->0;
    let goal = given(s, w);
    assert(call.args == args);
    let vals = values_of(h, deeper(s.rt), s.scope, args);
    let own = values_of(h, deeper(s.rt), s.scope, sources(call));
    let inner = body_start(s, body_scope(call, vals, own));
    assert(inner.rt == deeper(s.rt));
    assert(value_of(h, inner.rt, inner.scope, e) == Some(w));
    assert(call.body =~= seq![StatementModel::Return { value: Box::new(e) }]);
    lemma_call_end(h, s, inner.scope, w);
    lemma_return(h, inner, e, w);
    ways_join(h, running(inner, call.body), flowing(inner, FlowModel::Return(w)), goal);
    lemma_body_starts(h, s, call, goal);
    lemma_called(s, object, module, function, args);
}

/// The start of a call of a function of the script.
pub proof fn lemma_called(
    s: MachineModel,
    object: Option<Seq<char>>,
    module: Option<Seq<char>>,
    function: Seq<char>,
    args: Seq<ValueModel>,
)
    requires
        script_call(s.rt, s.scope, object, module, function, args) is Some,
    ensures
        eval_step(s, ValueModel::FunctionCall { object, module, function, args }) == called(
            s,
            script_call(s.rt, s.scope, object, module, function, args)->0,
        ),
{
    let call = script_call(s.rt, s.scope, object, module, function, args)->0;
    if module is None {
        assert(either_name(s, function) == named_either_way(s.rt, s.scope, function));
        if let Some(obj) = object {
            assert(either_name(s, obj) == named_either_way(s.rt, s.scope, obj));
            assert(plainly_invoked(s, object, function, args) == callee_invoked(s, true, call.pass, function, args));
        } else {
            assert(plainly_invoked(s, object, function, args) == callee_invoked(s, false, call.pass, function, args));
        }
    }
}

proof fn lemma_property(h: Host, s: MachineModel, v: ValueModel, w: ValueModel)
    requires
        s.focus is Done,
        v is Property,
        value_of(h, s.rt, s.scope, v) == Some(w),
    ensures
        reaches(h, eval_step(s, v), given(s, w)),
    decreases MAX_CALL_DEPTH - s.rt.call_depth, v, 1int,
{
    let goal = given(s, w);
    assert(idle(s) == s);
    lemma_start(h, goal);
    if let ValueModel::Property { target, key } = v {
        let x = value_of(h, s.rt, s.scope, *target)->0;
        assert(value_step(s, FrameModel::Property(key), x) == goal);
        lemma_under(h, s, FrameModel::Property(key), *target, x, goal);
    }
}

proof fn lemma_index(h: Host, s: MachineModel, v: ValueModel, w: ValueModel)
    requires
        s.focus is Done,
        v is Index,
        value_of(h, s.rt, s.scope, v) == Some(w),
    ensures
        reaches(h, eval_step(s, v), given(s, w)),
    decreases MAX_CALL_DEPTH - s.rt.call_depth, v, 1int,
{
    let goal = given(s, w);
    assert(idle(s) == s);
    lemma_start(h, goal);
    if let ValueModel::Index { target, index } = v {
        let x = value_of(h, s.rt, s.scope, *target)->0;
        let i = value_of(h, s.rt, s.scope, *index)->0;
        assert(value_step(s, FrameModel::IndexAt(x), i) == goal);
        lemma_under(h, s, FrameModel::IndexAt(x), *index, i, goal);
        lemma_under(h, s, FrameModel::IndexTarget(*index), *target, x, goal);
    }
}

proof fn lemma_binary(h: Host, s: MachineModel, v: ValueModel, w: ValueModel)
    requires
        s.focus is Done,
        v is Binary,
        value_of(h, s.rt, s.scope, v) == Some(w),
    ensures
        reaches(h, eval_step(s, v), given(s, w)),
    decreases MAX_CALL_DEPTH - s.rt.call_depth, v, 1int,
{
    let goal = given(s, w);
    assert(idle(s) == s);
    lemma_start(h, goal);
    if let ValueModel::Binary { left, op, right } = v {
        let x = value_of(h, s.rt, s.scope, *left)->0;
        let y = value_of(h, s.rt, s.scope, *right)->0;
        let p = binary_result(x, y, op)->Ok_0;
        lemma_offered(h, s, p);
        assert(value_step(s, FrameModel::Right { op, left: x }, y) == offered(s, p));
        lemma_under(h, s, FrameModel::Right { op, left: x }, *right, y, goal);
        lemma_under(h, s, FrameModel::Left { op, right: *right }, *left, x, goal);
    }
}

proof fn lemma_unary(h: Host, s: MachineModel, v: ValueModel, w: ValueModel)
    requires
        s.focus is Done,
        v is Unary,
        value_of(h, s.rt, s.scope, v) == Some(w),
    ensures
        reaches(h, eval_step(s, v), given(s, w)),
    decreases MAX_CALL_DEPTH - s.rt.call_depth, v, 1int,
{
    let goal = given(s, w);
    assert(idle(s) == s);
    lemma_start(h, goal);
    if let ValueModel::Unary { op, value } = v {
        let x = value_of(h, s.rt, s.scope, *value)->0;
        let p = unary_result(x, op)->Ok_0;
        lemma_offered(h, s, p);
        assert(value_step(s, FrameModel::Unary(op), x) == offered(s, p));
        lemma_under(h, s, FrameModel::Unary(op), *value, x, goal);
    }
}

/// What the arguments of a library that only computes are for.
spec fn library_purpose(object: Seq<char>, function: Seq<char>) -> PurposeModel {
    if object == "math"@ {
        PurposeModel::Math(function)
    } else if object == "str"@ {
        PurposeModel::Str(function)
    } else {
        PurposeModel::Arr(function)
    }
}

proof fn lemma_library(s: MachineModel, object: Seq<char>, function: Seq<char>, vals: Seq<ValueModel>)
    requires
        library_result(object, function, vals) is Some,
    ensures
        applied(s, library_purpose(object, function), vals) == offered(s, library_result(object, function, vals)->0),
{
}

proof fn lemma_library_called(s: MachineModel, object: Seq<char>, function: Seq<char>, args: Seq<ValueModel>)
    requires
        computes(object),
    ensures
        eval_step(s, ValueModel::FunctionCall { object: Some(object), module: None, function, args }) == list_step(
            s,
            library_purpose(object, function),
            args,
            0,
            seq![],
        ),
{
    reveal_strlit("con");
    reveal_strlit("math");
    reveal_strlit("str");
    reveal_strlit("arr");
    assert("con"@.len() == 3 && "math"@.len() == 4 && "str"@.len() == 3 && "arr"@.len() == 3);
    assert("con"@[0] == 'c' && "str"@[0] == 's' && "arr"@[0] == 'a');
}

/// The machine works an expression out to what it is worth, whatever else is left
/// to do, and changes nothing on the way.
pub proof fn machine_finds_value(
    h: Host,
    s: MachineModel,
    v: ValueModel,
    w: ValueModel,
)
    requires
        value_of(h, s.rt, s.scope, v) == Some(w),
    ensures
        reaches(h, evaluating(s, v), given(s, w)),
    decreases MAX_CALL_DEPTH - s.rt.call_depth, v, 2int,
{
    let a = evaluating(s, v);
    let q = idle(s);
    assert(given(q, w) == given(s, w));
    match v {
        ValueModel::Array(_) => {
            lemma_array(h, q, v, w);
        },
        ValueModel::Object(_) => {
            lemma_object(h, q, v, w);
        },
        ValueModel::FunctionCall { .. } => {
            lemma_call(h, q, v, w);
        },
        ValueModel::Property { .. } => {
            lemma_property(h, q, v, w);
        },
        ValueModel::Index { .. } => {
            lemma_index(h, q, v, w);
        },
        ValueModel::Binary { .. } => {
            lemma_binary(h, q, v, w);
        },
        ValueModel::Unary { .. } => {
            lemma_unary(h, q, v, w);
        },
        _ => {
            lemma_start(h, given(s, w));
        },
    }
    assert(idle(a) == q);
    lemma_first_step(h, a, given(s, w));
}

} // verus!
