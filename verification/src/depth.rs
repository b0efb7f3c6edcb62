//! How deep calls nest.

use crate::ast::{GuiKind, StatementModel, TargetModel, ValueModel};
use crate::draft::{FailureModel, FaultModel, PlanModel};
use crate::imports::{declares_step, located, source_read, started};
use crate::request::{AnswerModel, EffectModel, RequestModel};
use crate::runtime::MAX_CALL_DEPTH;
use crate::semantics::{
    applied, bound, called, callee_invoked, effected, eval_step, exec_step, failed, invoked, listed, list_step,
    method_called, plainly_invoked, planned, pushed, read_step, write_step,
};
use crate::state::{
    CallModel, EventModel, FlowModel, FocusModel, FrameModel, MachineModel, PurposeModel, WaitModel, WindowModel,
};
use crate::steps::{
    answered, can_step, fault_step, flow_step, frame_answered, idle, popped, request_answered, step, steps, value_step,
};
use crate::windows::{
    clicks_step, exiting, fired, handlers_step, window_answered, window_closing, window_faulted, window_run,
    window_valued, windows_closed,
};
use vstd::prelude::*;

verus! {

/// How many calls are open on a stack.
pub open spec fn guards(stack: Seq<FrameModel>) -> int
    decreases stack.len(),
{
    if stack.len() == 0 {
        0
    } else {
        guards(stack.drop_last()) + (if stack.last() is Guard {
            1int
        } else {
            0
        })
    }
}

/// The depth is the number of open calls, and within its limit.
pub open spec fn depth_sound(s: MachineModel) -> bool {
    s.rt.call_depth == guards(s.stack) && s.rt.call_depth <= MAX_CALL_DEPTH
}

proof fn lemma_guards_nonneg(stack: Seq<FrameModel>)
    ensures
        guards(stack) >= 0,
    decreases stack.len(),
{
    if stack.len() > 0 {
        lemma_guards_nonneg(stack.drop_last());
    }
}

broadcast proof fn lemma_guards_push(stack: Seq<FrameModel>, f: FrameModel)
    ensures
        #[trigger] guards(stack.push(f)) == guards(stack) + (if f is Guard {
            1int
        } else {
            0
        }),
{
    assert(stack.push(f).drop_last() =~= stack);
}

proof fn lemma_failed(s: MachineModel, e: FailureModel)
    requires
        depth_sound(s),
    ensures
        depth_sound(failed(s, e)),
{
    broadcast use lemma_guards_push;

}

proof fn lemma_bound(s: MachineModel, call: CallModel, next: int)
    requires
        depth_sound(s),
    ensures
        depth_sound(bound(s, call, next)),
{
    broadcast use lemma_guards_push;

}

proof fn lemma_handlers(s: MachineModel, list: Seq<ValueModel>, next: int, handle: ValueModel, event: Seq<char>)
    requires
        depth_sound(s),
    ensures
        depth_sound(handlers_step(s, list, next, handle, event)),
{
    broadcast use lemma_guards_push;

    if next < list.len() {
        match list[next] {
            ValueModel::Function { params, defaults, body } => {
                match crate::semantics::entered(
                    pushed(s, FrameModel::Handlers { list, next: next + 1, handle, event }),
                ) {
                    None => {},
                    Some(t) => {
                        assert(depth_sound(t));
                        lemma_bound(
                            t,
                            crate::semantics::with_arguments(
                                CallModel {
                                    local: s.scope,
                                    pass: handle,
                                    params,
                                    defaults,
                                    body,
                                    function: event,
                                    args: seq![],
                                },
                                seq![],
                            ),
                            0,
                        );
                    },
                }
            },
            _ => {},
        }
    }
}

proof fn lemma_fired(s: MachineModel, handle: ValueModel, event: Seq<char>)
    requires
        depth_sound(s),
    ensures
        depth_sound(fired(s, handle, event)),
{
    match handle {
        ValueModel::Gui { kind, id } => {
            lemma_handlers(s, crate::gui::handlers_of(s.rt, id, event), 0, handle, event);
        },
        _ => {},
    }
}

proof fn lemma_window_run(s: MachineModel, id: u64)
    requires
        depth_sound(s),
    ensures
        depth_sound(window_run(s, id)),
{
    broadcast use lemma_guards_push;

    let t = pushed(s, FrameModel::Window(crate::windows::new_run(id)));
    assert(depth_sound(t));
    lemma_fired(t, ValueModel::Gui { kind: GuiKind::Window, id }, "OnStart"@);
}

proof fn lemma_exiting(s: MachineModel, w: WindowModel)
    requires
        depth_sound(s),
    ensures
        depth_sound(exiting(s, w)),
{
    broadcast use lemma_guards_push;

    let t = pushed(s, FrameModel::Window(WindowModel { stage: crate::state::Stage::Exiting, ..w }));
    assert(depth_sound(t));
    lemma_fired(t, ValueModel::Gui { kind: GuiKind::Window, id: w.id }, "OnExit"@);
}

proof fn lemma_closing(s: MachineModel, w: WindowModel)
    requires
        depth_sound(s),
    ensures
        depth_sound(window_closing(s, w)),
{
    let failure = match w.failure {
        Some(f) => Some(f),
        None => w.pending,
    };
    lemma_exiting(s, WindowModel { failure, ..w });
}

proof fn lemma_clicks(s: MachineModel, w: WindowModel)
    requires
        depth_sound(s),
    ensures
        depth_sound(clicks_step(s, w)),
{
    broadcast use lemma_guards_push;

    let t = pushed(s, FrameModel::Window(WindowModel { next: w.next + 1, ..w }));
    assert(depth_sound(t));
    lemma_fired(t, ValueModel::Gui { kind: GuiKind::Button, id: w.clicks[w.next] }, "OnClick"@);
    lemma_closing(crate::windows::with_running(s, false), w);
}

proof fn lemma_window_faulted(s: MachineModel, w: WindowModel, f: FaultModel)
    requires
        depth_sound(s),
    ensures
        depth_sound(window_faulted(s, w, f)),
        depth_sound(window_valued(s, w)),
{
    broadcast use lemma_guards_push;

    lemma_clicks(s, w);
    lemma_clicks(s, WindowModel { pending: Some(f), ..w });
}

proof fn lemma_closed(rt: crate::runtime::RuntimeModel, closed: Seq<u64>, n: int)
    ensures
        windows_closed(rt, closed, n).call_depth == rt.call_depth,
    decreases n,
{
    if 0 < n <= closed.len() {
        lemma_closed(rt, closed, n - 1);
    }
}

proof fn lemma_window_answered(s: MachineModel, w: WindowModel, a: AnswerModel)
    requires
        depth_sound(s),
    ensures
        depth_sound(window_answered(s, w, a)),
{
    match a {
        AnswerModel::Window { closed, clicks, finished } => {
            lemma_closed(s.rt, closed, closed.len() as int);
            let t = MachineModel { rt: windows_closed(s.rt, closed, closed.len() as int), ..s };
            lemma_clicks(t, WindowModel { clicks, next: 0, finished: finished || closed.contains(w.id), ..w });
        },
        AnswerModel::Failed(e) => {
            lemma_exiting(crate::windows::with_running(s, false), WindowModel { trouble: Some(e), ..w });
        },
        _ => {
            lemma_failed(crate::windows::with_running(s, false), crate::draft::fatal_model("gui run lost its state"@));
        },
    }
}

proof fn lemma_effected(s: MachineModel, r: Result<EffectModel, FailureModel>)
    requires
        depth_sound(s),
    ensures
        depth_sound(effected(s, r)),
{
    broadcast use lemma_guards_push;

}

proof fn lemma_planned(s: MachineModel, r: Result<PlanModel, FailureModel>)
    requires
        depth_sound(s),
    ensures
        depth_sound(planned(s, r)),
{
    broadcast use lemma_guards_push;

}

proof fn lemma_method_called(s: MachineModel, kind: GuiKind, id: u64, method: Seq<char>, vals: Seq<ValueModel>)
    requires
        depth_sound(s),
    ensures
        depth_sound(method_called(s, kind, id, method, vals)),
{
    match crate::gui::method_result(s.rt, kind, id, method, vals) {
        Ok(crate::gui::MethodModel::Done(rt)) => {},
        Ok(crate::gui::MethodModel::Run) => {
            lemma_window_run(s, id);
        },
        Err(e) => {
            lemma_failed(s, e);
        },
    }
}

proof fn lemma_applied(s: MachineModel, purpose: PurposeModel, vals: Seq<ValueModel>)
    requires
        depth_sound(s),
    ensures
        depth_sound(applied(s, purpose, vals)),
{
    broadcast use lemma_guards_push;

    match purpose {
        PurposeModel::Method { kind, id, method } => {
            lemma_method_called(s, kind, id, method, vals);
        },
        PurposeModel::Call(call) => {
            lemma_bound(s, crate::semantics::with_arguments(call, vals), 0);
        },
        PurposeModel::CaseEquals(target) => {
            lemma_failed(
                s,
                crate::draft::throw_text("TypeError"@, "case-sensitive equality requires two strings"@),
            );
            lemma_failed(
                s,
                crate::draft::throw_text("ValueError"@, "case-sensitive equality expects exactly one argument"@),
            );
        },
        PurposeModel::Math(f) => {
            lemma_effected(s, crate::builtins::math(f, vals));
        },
        PurposeModel::Str(f) => {
            lemma_effected(s, crate::strlib::str_function(f, vals));
        },
        PurposeModel::Arr(f) => {
            lemma_effected(s, crate::arrlib::arr_function(f, vals));
        },
        PurposeModel::TimeFormat => {
            lemma_effected(s, crate::syslib::time_format(vals));
        },
        PurposeModel::Json(f) => {
            lemma_effected(s, crate::syslib::json_function(f, vals));
        },
        PurposeModel::Sys(f) => {
            lemma_effected(s, crate::syslib::sys_function(f, vals));
        },
        PurposeModel::Gui(f) => {
            lemma_effected(s, crate::syslib::gui_function(f, vals));
        },
        PurposeModel::Http(f) => {
            lemma_effected(s, crate::syslib::http_function(f, vals));
        },
        PurposeModel::Db(f) => {
            lemma_effected(s, crate::syslib::db_function(s.rt.db_open, f, vals));
        },
        PurposeModel::File(f) => {
            lemma_effected(s, crate::syslib::file_function(f, vals));
        },
        PurposeModel::SelectFile => {
            lemma_effected(s, crate::syslib::select_file(vals));
        },
        PurposeModel::Assert => {
            lemma_effected(s, crate::syslib::assertion(vals));
        },
        _ => {},
    }
}

proof fn lemma_list_step(s: MachineModel, purpose: PurposeModel, items: Seq<ValueModel>, next: int, done: Seq<ValueModel>)
    requires
        depth_sound(s),
    ensures
        depth_sound(list_step(s, purpose, items, next, done)),
{
    broadcast use lemma_guards_push;

    lemma_applied(s, purpose, done);
}

proof fn lemma_called(s: MachineModel, call: CallModel)
    requires
        depth_sound(s),
    ensures
        depth_sound(called(s, call)),
{
    broadcast use lemma_guards_push;

    match crate::semantics::entered(s) {
        None => {},
        Some(t) => {
            assert(depth_sound(t));
            lemma_list_step(t, PurposeModel::Call(call), call.args, 0, seq![]);
        },
    }
}

/// Every list that a call can start keeps the depth.
proof fn lemma_listed(s: MachineModel)
    requires
        depth_sound(s),
    ensures
        forall|purpose: PurposeModel, items: Seq<ValueModel>| depth_sound(#[trigger] listed(s, purpose, items)),
{
    assert forall|purpose: PurposeModel, items: Seq<ValueModel>| depth_sound(#[trigger] listed(s, purpose, items)) by {
        lemma_list_step(s, purpose, items, 0, seq![]);
    }
}

/// Every failure keeps the depth.
proof fn lemma_all_failed(s: MachineModel)
    requires
        depth_sound(s),
    ensures
        forall|e: FailureModel| depth_sound(#[trigger] failed(s, e)),
{
    assert forall|e: FailureModel| depth_sound(#[trigger] failed(s, e)) by {
        lemma_failed(s, e);
    }
}

proof fn lemma_callee(s: MachineModel, has_object: bool, pass: ValueModel, function: Seq<char>, args: Seq<ValueModel>)
    requires
        depth_sound(s),
    ensures
        depth_sound(callee_invoked(s, has_object, pass, function, args)),
{
    lemma_listed(s);
    lemma_all_failed(s);
    match crate::semantics::either_name(s, function) {
        Some(ValueModel::Function { params, defaults, body }) => {
            lemma_called(s, CallModel { local: s.scope, pass, params, defaults, body, function, args });
        },
        _ => {},
    }
}

proof fn lemma_plainly(s: MachineModel, object: Option<Seq<char>>, function: Seq<char>, args: Seq<ValueModel>)
    requires
        depth_sound(s),
    ensures
        depth_sound(plainly_invoked(s, object, function, args)),
{
    lemma_listed(s);
    lemma_all_failed(s);
    lemma_callee(s, false, ValueModel::Null, function, args);
    match object {
        Some(obj) => {
            match crate::semantics::either_name(s, obj) {
                Some(pass) => {
                    lemma_callee(s, true, pass, function, args);
                },
                None => {},
            }
        },
        None => {},
    }
}

proof fn lemma_object_invoked(s: MachineModel, obj: Seq<char>, function: Seq<char>, args: Seq<ValueModel>)
    requires
        depth_sound(s),
    ensures
        depth_sound(crate::semantics::object_invoked(s, obj, function, args)),
{
    lemma_listed(s);
    lemma_all_failed(s);
    lemma_plainly(s, Some(obj), function, args);
}

proof fn lemma_module_invoked(
    s: MachineModel,
    object: Option<Seq<char>>,
    alias: Seq<char>,
    function: Seq<char>,
    args: Seq<ValueModel>,
)
    requires
        depth_sound(s),
    ensures
        depth_sound(crate::semantics::module_invoked(s, object, alias, function, args)),
{
    lemma_all_failed(s);
    match crate::runtime::read_global(s.rt, alias, function) {
        Some(ValueModel::Function { params, defaults, body }) => {
            lemma_called(
                s,
                CallModel {
                    local: crate::runtime::ScopeModel {
                        env: crate::runtime::merged_env(s.rt, alias),
                        types: crate::runtime::merged_types(s.rt, alias),
                        cur: alias,
                    },
                    pass: ValueModel::Null,
                    params,
                    defaults,
                    body,
                    function,
                    args,
                },
            );
        },
        _ => {},
    }
}

proof fn lemma_invoked(
    s: MachineModel,
    object: Option<Seq<char>>,
    module: Option<Seq<char>>,
    function: Seq<char>,
    args: Seq<ValueModel>,
)
    requires
        depth_sound(s),
    ensures
        depth_sound(invoked(s, object, module, function, args)),
{
    match module {
        Some(alias) => {
            lemma_module_invoked(s, object, alias, function, args);
        },
        None => {
            match object {
                Some(obj) => {
                    lemma_object_invoked(s, obj, function, args);
                },
                None => {
                    lemma_plainly(s, None, function, args);
                },
            }
        },
    }
}

proof fn lemma_eval(s: MachineModel, v: ValueModel)
    requires
        depth_sound(s),
    ensures
        depth_sound(eval_step(s, v)),
{
    broadcast use lemma_guards_push;

    lemma_listed(s);
    lemma_all_failed(s);
    match v {
        ValueModel::FunctionCall { object, module, function, args } => {
            lemma_invoked(s, object, module, function, args);
        },
        _ => {},
    }
}

proof fn lemma_write(s: MachineModel, target: TargetModel, v: ValueModel)
    requires
        depth_sound(s),
    ensures
        depth_sound(write_step(s, target, v)),
        depth_sound(read_step(s, target)),
{
    broadcast use lemma_guards_push;

    lemma_all_failed(s);
}

proof fn lemma_exec(s: MachineModel, st: StatementModel)
    requires
        depth_sound(s),
    ensures
        depth_sound(exec_step(s, st)),
{
    broadcast use lemma_guards_push;

    lemma_all_failed(s);
    match st {
        StatementModel::FunctionCall { object, module, function, args } => {
            let t = pushed(s, FrameModel::Discard);
            assert(depth_sound(t));
            lemma_invoked(t, object, module, function, args);
        },
        _ => {},
    }
}

proof fn lemma_started(s: MachineModel, alias: Seq<char>, saved: crate::runtime::ScopeModel, loaded: bool)
    requires
        depth_sound(s),
    ensures
        depth_sound(started(s, alias, saved, loaded)),
{
    broadcast use lemma_guards_push;

}

proof fn lemma_module_step(s: MachineModel, m: crate::state::ImportModel)
    requires
        depth_sound(s),
    ensures
        depth_sound(crate::imports::module_step(s, m)),
{
    broadcast use lemma_guards_push;

    let t = MachineModel {
        rt: crate::runtime::snapshot(s.rt, m.alias, s.scope.env, s.scope.types),
        ..s
    };
    assert(depth_sound(t));
    lemma_started(t, m.alias, m.saved, true);
}

proof fn lemma_located(s: MachineModel, directory: Seq<char>, raw: Seq<char>, run: bool, a: AnswerModel)
    requires
        depth_sound(s),
    ensures
        depth_sound(located(s, directory, raw, run, a)),
{
    broadcast use lemma_guards_push;

    match a {
        AnswerModel::Located { canonical, directory: home, stem } => {
            match crate::table::lookup(s.rt.canonical_to_alias, canonical) {
                Some(existing) => {
                    lemma_started(s, existing, s.scope, false);
                },
                None => {},
            }
        },
        _ => {},
    }
}

proof fn lemma_source_read(
    s: MachineModel,
    canonical: Seq<char>,
    directory: Seq<char>,
    alias: Seq<char>,
    run: bool,
    a: AnswerModel,
)
    requires
        depth_sound(s),
    ensures
        depth_sound(source_read(s, canonical, directory, alias, run, a)),
{
    broadcast use lemma_guards_push;

}

/// The call that a guard frame stands for is over; the other frames count none.
proof fn lemma_popped(s: MachineModel)
    requires
        depth_sound(s),
        s.stack.len() > 0,
    ensures
        s.stack.last() is Guard ==> depth_sound(crate::steps::guard_left(popped(s))),
        !(s.stack.last() is Guard) ==> depth_sound(popped(s)),
{
    lemma_guards_nonneg(s.stack.drop_last());
}

/// The frames that read, write or take a branch.
proof fn lemma_plain_value(s: MachineModel, frame: FrameModel, v: ValueModel)
    requires
        depth_sound(s),
        frame is Property || frame is IndexTarget || frame is IndexAt || frame is Left || frame is Raise
            || frame is Define || frame is Discard || frame is Assign || frame is AssignWrite || frame is TargetProperty
            || frame is TargetIndex || frame is TargetAt || frame is WriteProperty || frame is WriteIndex
            || frame is WriteAt,
    ensures
        depth_sound(value_step(s, frame, v)),
{
    broadcast use lemma_guards_push;

    lemma_all_failed(s);
}

/// The frames of loops and branches.
proof fn lemma_loop_value(s: MachineModel, frame: FrameModel, v: ValueModel)
    requires
        depth_sound(s),
        frame is Switch || frame is Case || frame is Return || frame is Throw || frame is Branch || frame is WhileTest
            || frame is RangeStart || frame is RangeEnd || frame is RangeItem || frame is EachStart,
    ensures
        depth_sound(value_step(s, frame, v)),
{
    broadcast use lemma_guards_push;

    lemma_all_failed(s);
}

proof fn lemma_value(s: MachineModel, frame: FrameModel, v: ValueModel)
    requires
        depth_sound(s),
        !(frame is Guard),
    ensures
        depth_sound(value_step(s, frame, v)),
{
    match frame {
        FrameModel::Args { purpose, items, next, done } => {
            lemma_list_step(s, purpose, items, next, done.push(v));
        },
        FrameModel::Right { op, left } => {
            lemma_planned(s, crate::operators::binary_result(left, v, op));
        },
        FrameModel::Unary(op) => {
            lemma_planned(s, crate::operators::unary_result(v, op));
        },
        FrameModel::AssignRead { target, op, value } => {
            match op {
                Some(o) => {
                    lemma_guards_push(s.stack, FrameModel::AssignWrite(target));
                    lemma_planned(
                        pushed(s, FrameModel::AssignWrite(target)),
                        crate::operators::binary_result(v, value, o),
                    );
                },
                None => {},
            }
        },
        FrameModel::Bind { call, next } => {
            lemma_bound(s, crate::semantics::with_parameter(call, call.params[next], v), next + 1);
            lemma_all_failed(s);
        },
        FrameModel::Handlers { list, next, handle, event } => {
            lemma_handlers(s, list, next, handle, event);
        },
        FrameModel::Window(w) => {
            lemma_window_faulted(s, w, FaultModel::Throw(v));
        },
        FrameModel::Import(m) => {
            lemma_module_step(MachineModel { scope: crate::runtime::empty_scope(m.alias), ..s }, m);
        },
        FrameModel::Declares { list, next, directory } => {
            lemma_declares(s, list, next, directory);
        },
        FrameModel::Entry { statements, next } => {
            lemma_entry(s, statements);
        },
        _ => {
            lemma_all_failed(s);
            if frame is Switch || frame is Case || frame is Return || frame is Throw || frame is Branch
                || frame is WhileTest || frame is RangeStart || frame is RangeEnd || frame is RangeItem
                || frame is EachStart {
                lemma_loop_value(s, frame, v);
            } else if frame is Property || frame is IndexTarget || frame is IndexAt || frame is Left || frame is Raise
                || frame is Define || frame is Discard || frame is Assign || frame is AssignWrite
                || frame is TargetProperty || frame is TargetIndex || frame is TargetAt || frame is WriteProperty
                || frame is WriteIndex || frame is WriteAt {
                lemma_plain_value(s, frame, v);
            }
        },
    }
}

proof fn lemma_declares(s: MachineModel, list: Seq<(Seq<char>, bool)>, next: int, directory: Seq<char>)
    requires
        depth_sound(s),
    ensures
        depth_sound(declares_step(s, list, next, directory)),
{
    broadcast use lemma_guards_push;

}

proof fn lemma_entry(s: MachineModel, statements: Seq<StatementModel>)
    requires
        depth_sound(s),
    ensures
        depth_sound(crate::imports::entry_ready(s, statements)),
{
    broadcast use lemma_guards_push;

}

proof fn lemma_flow(s: MachineModel, frame: FrameModel, f: FlowModel)
    requires
        depth_sound(s),
        !(frame is Guard),
    ensures
        depth_sound(flow_step(s, frame, f)),
{
    broadcast use lemma_guards_push;

    lemma_all_failed(s);
    match frame {
        FrameModel::Body(saved) => {
            lemma_all_failed(MachineModel { scope: saved, ..s });
        },
        FrameModel::Module(m) => {
            lemma_module_step(s, m);
        },
        _ => {},
    }
}

proof fn lemma_fault(s: MachineModel, frame: FrameModel, f: FaultModel)
    requires
        depth_sound(s),
        !(frame is Guard),
    ensures
        depth_sound(fault_step(s, frame, f)),
{
    broadcast use lemma_guards_push;

    match frame {
        FrameModel::Window(w) => {
            lemma_window_faulted(s, w, f);
        },
        _ => {},
    }
}

/// The depth counts the calls that are open, and never exceeds its limit: no
/// step changes that, whether a call returns, fails or is given up.
pub proof fn step_keeps_depth(s: MachineModel)
    requires
        depth_sound(s),
    ensures
        depth_sound(step(s)),
{
    let q = idle(s);
    match s.focus {
        FocusModel::Eval(v) => {
            lemma_eval(q, v);
        },
        FocusModel::Exec(st) => {
            lemma_exec(q, st);
        },
        FocusModel::Read(target) => {
            lemma_write(q, target, ValueModel::Null);
        },
        FocusModel::Write(target, v) => {
            lemma_write(q, target, v);
        },
        FocusModel::Value(v) => {
            if s.stack.len() > 0 {
                lemma_popped(q);
                if !(s.stack.last() is Guard) {
                    lemma_value(popped(q), s.stack.last(), v);
                }
            }
        },
        FocusModel::Flow(f) => {
            if s.stack.len() > 0 {
                lemma_popped(q);
                if s.stack.last() is Guard {
                    lemma_all_failed(crate::steps::guard_left(popped(q)));
                } else {
                    lemma_flow(popped(q), s.stack.last(), f);
                }
            }
        },
        FocusModel::Fault(f) => {
            if s.stack.len() > 0 {
                lemma_popped(q);
                if !(s.stack.last() is Guard) {
                    lemma_fault(popped(q), s.stack.last(), f);
                }
            }
        },
        FocusModel::Abort(h) => {
            if s.stack.len() > 0 {
                lemma_popped(q);
            }
        },
        _ => {},
    }
}

/// However long the machine runs, its depth counts the calls that are open and
/// stays within its limit.
pub proof fn steps_keep_depth(s: MachineModel, n: nat)
    requires
        depth_sound(s),
    ensures
        depth_sound(steps(s, n)),
    decreases n,
{
    if n > 0 && can_step(s) {
        step_keeps_depth(s);
        steps_keep_depth(step(s), (n - 1) as nat);
    }
}

/// No answer of the host changes that.
pub proof fn answer_keeps_depth(s: MachineModel, e: EventModel)
    requires
        depth_sound(s),
    ensures
        depth_sound(answered(s, e)),
{
    let q = idle(s);
    lemma_all_failed(q);
    match (s.focus, e) {
        (FocusModel::Await(WaitModel::Request(r)), EventModel::Answer(a)) => {
            lemma_request_answered(q, r, a);
        },
        _ => {},
    }
}

proof fn lemma_request_answered(s: MachineModel, r: RequestModel, a: AnswerModel)
    requires
        depth_sound(s),
    ensures
        depth_sound(request_answered(s, r, a)),
{
    lemma_frame_answered(s, a);
    let (rt, result) = crate::answers::db_outcome(s.rt, r, a);
    assert(rt.call_depth == s.rt.call_depth);
    lemma_planned(MachineModel { rt, ..s }, result);
}

proof fn lemma_frame_answered(s: MachineModel, a: AnswerModel)
    requires
        depth_sound(s),
    ensures
        depth_sound(frame_answered(s, a)),
{
    lemma_all_failed(s);
    if s.stack.len() > 0 {
        lemma_popped(s);
        match s.stack.last() {
            FrameModel::Window(w) => {
                lemma_window_answered(popped(s), w, a);
            },
            FrameModel::Locating { directory, raw, run } => {
                lemma_located(popped(s), directory, raw, run, a);
            },
            FrameModel::Reading { canonical, directory, alias, run } => {
                lemma_source_read(popped(s), canonical, directory, alias, run, a);
            },
            _ => {},
        }
    }
}

/// A machine that has just been made has no open calls.
pub proof fn fresh_machine_has_no_calls(cur: Seq<char>)
    ensures
        depth_sound(crate::driver::fresh(cur)),
{
}

} // verus!
