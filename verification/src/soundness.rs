//! What every state of a run keeps.

use crate::ast::{GuiKind, StatementModel, TargetModel, ValueModel};
use crate::draft::{FailureModel, FaultModel, PlanModel};
use crate::imports::{declares_step, events_done, events_step, loading, located, source_read, started};
use crate::request::{AnswerModel, EffectModel, RequestModel};
use crate::runtime::{
    empty_module, empty_scope, ensured, exported, merged_env, merged_types, module_of, overlaid, restored_global,
    set_global, snapshot, with_module, written_back, ModuleModel, RuntimeModel, ScopeModel,
};
use crate::semantics::{
    applied, bound, branch_taken, called, callee_invoked, case_step, each_started, each_step, effected, element_at,
    element_written, eval_step, exec_step, failed, index_written, invoked, list_step, listed, method_called,
    plainly_invoked, planned, property_of, property_written, pushed, range_ended, range_started, range_step, read_step,
    running, shadow_of, shadowed, target_at, target_property, unshadowed, while_step, with_arguments, write_step,
};
use crate::state::{
    CallModel, EventModel, FlowModel, FocusModel, FrameModel, MachineModel, PurposeModel, ShadowModel, WaitModel,
    WindowModel,
};
use crate::steps::{
    answered, can_step, fault_step, flow_step, frame_answered, idle, popped, request_answered, step, steps, value_step,
};
use crate::table::{distinct, erase, erase_then_lookup, keys, lemma_place, lookup, place, put, put_keeps_distinct};
use crate::windows::{
    clicks_step, exiting, fired, handlers_step, window_answered, window_closing, window_faulted, window_run,
    window_valued, windows_closed,
};
use vstd::prelude::*;

verus! {

/// No variable occurs twice in a scope.
#[verifier::opaque]
pub open spec fn scope_sound(scope: ScopeModel) -> bool {
    distinct(keys(scope.env))
}

/// No variable occurs twice in the live store of a module.
#[verifier::opaque]
pub open spec fn modules_sound(modules: Seq<(Seq<char>, ModuleModel)>) -> bool {
    forall|i: int| 0 <= i < modules.len() ==> distinct(keys((#[trigger] modules[i]).1.globals))
}

/// The scopes that a frame keeps are sound.
pub open spec fn frame_sound(f: FrameModel) -> bool {
    match f {
        FrameModel::Body(saved) => scope_sound(saved),
        FrameModel::Import(m) => scope_sound(m.saved),
        FrameModel::Module(m) => scope_sound(m.saved),
        FrameModel::Events { saved, .. } => scope_sound(saved),
        FrameModel::Bind { call, .. } => scope_sound(call.local),
        FrameModel::Args { purpose, .. } => purpose_sound(purpose),
        _ => true,
    }
}

pub open spec fn purpose_sound(purpose: PurposeModel) -> bool {
    match purpose {
        PurposeModel::Call(call) => scope_sound(call.local),
        _ => true,
    }
}

/// The scopes that a stack keeps are sound.
pub open spec fn stack_sound(stack: Seq<FrameModel>) -> bool
    decreases stack.len(),
{
    stack.len() == 0 || stack_sound(stack.drop_last()) && frame_sound(stack.last())
}

/// No variable occurs twice, in the scope at hand, in those that wait on the
/// stack, or in a module.
pub open spec fn well_formed(s: MachineModel) -> bool {
    &&& scope_sound(s.scope)
    &&& modules_sound(s.rt.modules)
    &&& stack_sound(s.stack)
}

broadcast proof fn lemma_stack_push(stack: Seq<FrameModel>, f: FrameModel)
    ensures
        #[trigger] stack_sound(stack.push(f)) == (stack_sound(stack) && frame_sound(f)),
{
    assert(stack.push(f).drop_last() =~= stack);
}

/// Putting a sound module keeps all modules sound.
proof fn lemma_put_module(rt: RuntimeModel, alias: Seq<char>, m: ModuleModel)
    requires
        modules_sound(rt.modules),
        distinct(keys(m.globals)),
    ensures
        modules_sound(with_module(rt, alias, m).modules),
{
    reveal(modules_sound);
    lemma_place(keys(rt.modules), alias, 0);
}

proof fn lemma_module_of(rt: RuntimeModel, alias: Seq<char>)
    requires
        modules_sound(rt.modules),
    ensures
        distinct(keys(module_of(rt, alias).globals)),
{
    reveal(modules_sound);
    lemma_place(keys(rt.modules), alias, 0);
    if let Some(i) = place(keys(rt.modules), alias) {
        assert(distinct(keys(rt.modules[i].1.globals)));
    }
}

proof fn lemma_set_global(rt: RuntimeModel, alias: Seq<char>, key: Seq<char>, v: ValueModel)
    requires
        modules_sound(rt.modules),
    ensures
        modules_sound(set_global(rt, alias, key, v).modules),
{
    lemma_module_of(rt, alias);
    let m = module_of(rt, alias);
    put_keeps_distinct(m.globals, key, v);
    lemma_put_module(rt, alias, ModuleModel { globals: put(m.globals, key, v), ..m });
}

proof fn lemma_restored_global(rt: RuntimeModel, alias: Seq<char>, key: Seq<char>, saved: Option<ValueModel>)
    requires
        modules_sound(rt.modules),
    ensures
        modules_sound(restored_global(rt, alias, key, saved).modules),
{
    lemma_module_of(rt, alias);
    let m = module_of(rt, alias);
    erase_then_lookup(m.globals, key, key);
    lemma_put_module(rt, alias, ModuleModel { globals: erase(m.globals, key), ..m });
    if let Some(v) = saved {
        put_keeps_distinct(m.globals, key, v);
        lemma_put_module(rt, alias, ModuleModel { globals: put(m.globals, key, v), ..m });
    }
}

proof fn lemma_exported(rt: RuntimeModel, alias: Seq<char>, name: Seq<char>, declared: Seq<char>, v: ValueModel)
    requires
        modules_sound(rt.modules),
    ensures
        modules_sound(exported(rt, alias, name, declared, v).modules),
{
    lemma_module_of(rt, alias);
    let m = module_of(rt, alias);
    put_keeps_distinct(m.globals, "var."@ + name, v);
    lemma_put_module(
        rt,
        alias,
        ModuleModel {
            globals: put(m.globals, "var."@ + name, v),
            global_names: if m.global_names.contains(name) {
                m.global_names
            } else {
                m.global_names.push(name)
            },
            global_types: put(m.global_types, name, declared),
            ..m
        },
    );
}

proof fn lemma_snapshot(
    rt: RuntimeModel,
    alias: Seq<char>,
    env: Seq<(Seq<char>, ValueModel)>,
    types: Seq<(Seq<char>, Seq<char>)>,
)
    requires
        modules_sound(rt.modules),
    ensures
        modules_sound(snapshot(rt, alias, env, types).modules),
{
    lemma_module_of(rt, alias);
    let m = module_of(rt, alias);
    lemma_put_module(
        rt,
        alias,
        ModuleModel {
            top_locals: crate::runtime::top_locals_of(m, env, env.len() as int),
            top_local_types: crate::runtime::top_types_of(m, env, types, env.len() as int),
            ..m
        },
    );
}

proof fn lemma_ensured(rt: RuntimeModel, alias: Seq<char>)
    requires
        modules_sound(rt.modules),
    ensures
        modules_sound(ensured(rt, alias).modules),
{
    assert(distinct(keys(empty_module().globals)));
    lemma_put_module(rt, alias, empty_module());
}

proof fn lemma_overlaid(under: Seq<(Seq<char>, ValueModel)>, over: Seq<(Seq<char>, ValueModel)>, n: int)
    requires
        distinct(keys(under)),
    ensures
        distinct(keys(overlaid(under, over, n))),
    decreases n,
{
    if 0 < n <= over.len() {
        lemma_overlaid(under, over, n - 1);
        put_keeps_distinct(overlaid(under, over, n - 1), over[n - 1].0, over[n - 1].1);
    }
}

/// The scope in which the functions of a module run.
proof fn lemma_module_scope(rt: RuntimeModel, alias: Seq<char>)
    requires
        modules_sound(rt.modules),
    ensures
        scope_sound(ScopeModel { env: merged_env(rt, alias), types: merged_types(rt, alias), cur: alias }),
        scope_sound(empty_scope(alias)),
{
    reveal(scope_sound);
    lemma_module_of(rt, alias);
    let m = module_of(rt, alias);
    lemma_overlaid(m.globals, m.top_locals, m.top_locals.len() as int);
}

proof fn lemma_written_back(
    globals: Seq<(Seq<char>, ValueModel)>,
    names: Seq<Seq<char>>,
    env: Seq<(Seq<char>, ValueModel)>,
    n: int,
)
    requires
        distinct(keys(globals)),
    ensures
        distinct(keys(written_back(globals, names, env, n))),
    decreases n,
{
    if 0 < n <= names.len() {
        lemma_written_back(globals, names, env, n - 1);
        if let Some(v) = lookup(env, "var."@ + names[n - 1]) {
            put_keeps_distinct(written_back(globals, names, env, n - 1), "var."@ + names[n - 1], v);
        }
    }
}

proof fn lemma_events_done(rt: RuntimeModel, alias: Seq<char>, scope: ScopeModel)
    requires
        modules_sound(rt.modules),
    ensures
        modules_sound(events_done(rt, alias, scope).modules),
{
    lemma_module_of(rt, alias);
    let m = module_of(rt, alias);
    lemma_written_back(m.globals, m.global_names, scope.env, m.global_names.len() as int);
    let globals = written_back(m.globals, m.global_names, scope.env, m.global_names.len() as int);
    let a = with_module(rt, alias, ModuleModel { globals, ..m });
    lemma_put_module(rt, alias, ModuleModel { globals, ..m });
    lemma_snapshot(a, alias, scope.env, scope.types);
    let kept = snapshot(a, alias, scope.env, scope.types);
    lemma_module_of(kept, alias);
    lemma_put_module(kept, alias, ModuleModel { onstart_executed: true, ..module_of(kept, alias) });
}

proof fn lemma_loading(rt: RuntimeModel, canonical: Seq<char>, alias: Seq<char>, p: crate::ast::ProgramModel)
    requires
        modules_sound(rt.modules),
    ensures
        modules_sound(loading(rt, canonical, alias, p).modules),
{
    let m = ModuleModel { path: canonical, program: Some(p), ..empty_module() };
    assert(distinct(keys(m.globals)));
    lemma_put_module(rt, alias, m);
}

proof fn lemma_scope_put(scope: ScopeModel, key: Seq<char>, v: ValueModel, types: Seq<(Seq<char>, Seq<char>)>)
    requires
        scope_sound(scope),
    ensures
        scope_sound(ScopeModel { env: put(scope.env, key, v), types, ..scope }),
        scope_sound(ScopeModel { env: put(scope.env, key, v), ..scope }),
{
    reveal(scope_sound);
    put_keeps_distinct(scope.env, key, v);
}

proof fn lemma_shadowed(s: MachineModel, shadow: ShadowModel, v: ValueModel)
    requires
        well_formed(s),
    ensures
        well_formed(shadowed(s, shadow, v)),
        well_formed(unshadowed(s, shadow)),
{
    lemma_scope_put(s.scope, shadow.key, v, s.scope.types);
    lemma_set_global(s.rt, s.scope.cur, shadow.key, v);
    lemma_restored_global(s.rt, s.scope.cur, shadow.key, shadow.saved_global);
    match shadow.saved {
        Some(w) => {
            lemma_scope_put(s.scope, shadow.key, w, s.scope.types);
        },
        None => {
            reveal(scope_sound);
            erase_then_lookup(s.scope.env, shadow.key, shadow.key);
        },
    }
}

proof fn lemma_with_arguments(call: CallModel, vals: Seq<ValueModel>)
    requires
        scope_sound(call.local),
    ensures
        scope_sound(with_arguments(call, vals).local),
{
    let a = ScopeModel { env: put(call.local.env, "pass"@, call.pass), ..call.local };
    lemma_scope_put(call.local, "pass"@, call.pass, call.local.types);
    lemma_scope_put(a, "arg"@, ValueModel::Array(vals), a.types);
    let b = ScopeModel { env: put(a.env, "arg"@, ValueModel::Array(vals)), ..a };
    lemma_scope_put(b, "args"@, ValueModel::Array(vals), b.types);
}

proof fn lemma_failed(s: MachineModel, e: FailureModel)
    requires
        well_formed(s),
    ensures
        well_formed(failed(s, e)),
{
    broadcast use lemma_stack_push;

}

proof fn lemma_bound(s: MachineModel, call: CallModel, next: int)
    requires
        well_formed(s),
        scope_sound(call.local),
    ensures
        well_formed(bound(s, call, next)),
{
    broadcast use lemma_stack_push;

}

proof fn lemma_handlers(s: MachineModel, list: Seq<ValueModel>, next: int, handle: ValueModel, event: Seq<char>)
    requires
        well_formed(s),
    ensures
        well_formed(handlers_step(s, list, next, handle, event)),
{
    broadcast use lemma_stack_push;

    if next < list.len() {
        match list[next] {
            ValueModel::Function { params, defaults, body } => {
                match crate::semantics::entered(
                    pushed(s, FrameModel::Handlers { list, next: next + 1, handle, event }),
                ) {
                    None => {},
                    Some(t) => {
                        assert(well_formed(t));
                        let call = CallModel {
                            local: s.scope,
                            pass: handle,
                            params,
                            defaults,
                            body,
                            function: event,
                            args: seq![],
                        };
                        lemma_with_arguments(call, seq![]);
                        lemma_bound(t, with_arguments(call, seq![]), 0);
                    },
                }
            },
            _ => {},
        }
    }
}

proof fn lemma_fired(s: MachineModel, handle: ValueModel, event: Seq<char>)
    requires
        well_formed(s),
    ensures
        well_formed(fired(s, handle, event)),
{
    match handle {
        ValueModel::Gui { kind, id } => {
            lemma_handlers(s, crate::gui::handlers_of(s.rt, id, event), 0, handle, event);
        },
        _ => {},
    }
}

proof fn lemma_window_run(s: MachineModel, id: u64)
    requires
        well_formed(s),
    ensures
        well_formed(window_run(s, id)),
{
    broadcast use lemma_stack_push;

    let t = pushed(s, FrameModel::Window(crate::windows::new_run(id)));
    assert(well_formed(t));
    lemma_fired(t, ValueModel::Gui { kind: GuiKind::Window, id }, "OnStart"@);
}

proof fn lemma_exiting(s: MachineModel, w: WindowModel)
    requires
        well_formed(s),
    ensures
        well_formed(exiting(s, w)),
{
    broadcast use lemma_stack_push;

    let t = pushed(s, FrameModel::Window(WindowModel { stage: crate::state::Stage::Exiting, ..w }));
    assert(well_formed(t));
    lemma_fired(t, ValueModel::Gui { kind: GuiKind::Window, id: w.id }, "OnExit"@);
}

proof fn lemma_closing(s: MachineModel, w: WindowModel)
    requires
        well_formed(s),
    ensures
        well_formed(window_closing(s, w)),
{
    let failure = match w.failure {
        Some(f) => Some(f),
        None => w.pending,
    };
    lemma_exiting(s, WindowModel { failure, ..w });
}

proof fn lemma_clicks(s: MachineModel, w: WindowModel)
    requires
        well_formed(s),
    ensures
        well_formed(clicks_step(s, w)),
{
    broadcast use lemma_stack_push;

    let t = pushed(s, FrameModel::Window(WindowModel { next: w.next + 1, ..w }));
    assert(well_formed(t));
    lemma_fired(t, ValueModel::Gui { kind: GuiKind::Button, id: w.clicks[w.next] }, "OnClick"@);
    lemma_closing(crate::windows::with_running(s, false), w);
}

proof fn lemma_window_faulted(s: MachineModel, w: WindowModel, f: FaultModel)
    requires
        well_formed(s),
    ensures
        well_formed(window_faulted(s, w, f)),
        well_formed(window_valued(s, w)),
{
    broadcast use lemma_stack_push;

    lemma_clicks(s, w);
    lemma_clicks(s, WindowModel { pending: Some(f), ..w });
}

proof fn lemma_closed(rt: crate::runtime::RuntimeModel, closed: Seq<u64>, n: int)
    ensures
        windows_closed(rt, closed, n).modules == rt.modules,
    decreases n,
{
    if 0 < n <= closed.len() {
        lemma_closed(rt, closed, n - 1);
    }
}

proof fn lemma_window_answered(s: MachineModel, w: WindowModel, a: AnswerModel)
    requires
        well_formed(s),
    ensures
        well_formed(window_answered(s, w, a)),
{
    match a {
        AnswerModel::Window { closed, clicks, finished } => {
            lemma_closed(s.rt, closed, closed.len() as int);
            let t = MachineModel { rt: windows_closed(s.rt, closed, closed.len() as int), ..s };
            lemma_clicks(t, WindowModel { clicks, next: 0, finished: finished || closed.contains(w.id), ..w });
        },
        AnswerModel::Failed(e) => {
            lemma_exiting(crate::windows::with_running(s, false), WindowModel { trouble: Some(e), ..w });
        },
        _ => {
            lemma_failed(crate::windows::with_running(s, false), crate::draft::fatal_model("gui run lost its state"@));
        },
    }
}

proof fn lemma_effected(s: MachineModel, r: Result<EffectModel, FailureModel>)
    requires
        well_formed(s),
    ensures
        well_formed(effected(s, r)),
{
    broadcast use lemma_stack_push;

}

proof fn lemma_planned(s: MachineModel, r: Result<PlanModel, FailureModel>)
    requires
        well_formed(s),
    ensures
        well_formed(planned(s, r)),
{
    broadcast use lemma_stack_push;

}

proof fn lemma_method_called(s: MachineModel, kind: GuiKind, id: u64, method: Seq<char>, vals: Seq<ValueModel>)
    requires
        well_formed(s),
    ensures
        well_formed(method_called(s, kind, id, method, vals)),
{
    match crate::gui::method_result(s.rt, kind, id, method, vals) {
        Ok(crate::gui::MethodModel::Done(rt)) => {},
        Ok(crate::gui::MethodModel::Run) => {
            lemma_window_run(s, id);
        },
        Err(e) => {
            lemma_failed(s, e);
        },
    }
}

proof fn lemma_applied(s: MachineModel, purpose: PurposeModel, vals: Seq<ValueModel>)
    requires
        well_formed(s),
        purpose_sound(purpose),
    ensures
        well_formed(applied(s, purpose, vals)),
{
    broadcast use lemma_stack_push;

    match purpose {
        PurposeModel::Method { kind, id, method } => {
            lemma_method_called(s, kind, id, method, vals);
        },
        PurposeModel::Call(call) => {
            lemma_with_arguments(call, vals);
            lemma_bound(s, with_arguments(call, vals), 0);
        },
        PurposeModel::CaseEquals(target) => {
            lemma_failed(
                s,
                crate::draft::throw_text("TypeError"@, "case-sensitive equality requires two strings"@),
            );
            lemma_failed(
                s,
                crate::draft::throw_text("ValueError"@, "case-sensitive equality expects exactly one argument"@),
            );
        },
        PurposeModel::Math(f) => {
            lemma_effected(s, crate::builtins::math(f, vals));
        },
        PurposeModel::Str(f) => {
            lemma_effected(s, crate::strlib::str_function(f, vals));
        },
        PurposeModel::Arr(f) => {
            lemma_effected(s, crate::arrlib::arr_function(f, vals));
        },
        PurposeModel::TimeFormat => {
            lemma_effected(s, crate::syslib::time_format(vals));
        },
        PurposeModel::Json(f) => {
            lemma_effected(s, crate::syslib::json_function(f, vals));
        },
        PurposeModel::Sys(f) => {
            lemma_effected(s, crate::syslib::sys_function(f, vals));
        },
        PurposeModel::Gui(f) => {
            lemma_effected(s, crate::syslib::gui_function(f, vals));
        },
        PurposeModel::Http(f) => {
            lemma_effected(s, crate::syslib::http_function(f, vals));
        },
        PurposeModel::Db(f) => {
            lemma_effected(s, crate::syslib::db_function(s.rt.db_open, f, vals));
        },
        PurposeModel::File(f) => {
            lemma_effected(s, crate::syslib::file_function(f, vals));
        },
        PurposeModel::SelectFile => {
            lemma_effected(s, crate::syslib::select_file(vals));
        },
        PurposeModel::Assert => {
            lemma_effected(s, crate::syslib::assertion(vals));
        },
        _ => {},
    }
}

proof fn lemma_list_step(s: MachineModel, purpose: PurposeModel, items: Seq<ValueModel>, next: int, done: Seq<ValueModel>)
    requires
        well_formed(s),
        purpose_sound(purpose),
    ensures
        well_formed(list_step(s, purpose, items, next, done)),
{
    broadcast use lemma_stack_push;

    lemma_applied(s, purpose, done);
}

proof fn lemma_called(s: MachineModel, call: CallModel)
    requires
        well_formed(s),
        scope_sound(call.local),
    ensures
        well_formed(called(s, call)),
{
    broadcast use lemma_stack_push;

    match crate::semantics::entered(s) {
        None => {},
        Some(t) => {
            assert(well_formed(t));
            lemma_list_step(t, PurposeModel::Call(call), call.args, 0, seq![]);
        },
    }
}

/// Every list that a call can start keeps the depth.
proof fn lemma_listed(s: MachineModel)
    requires
        well_formed(s),
    ensures
        forall|purpose: PurposeModel, items: Seq<ValueModel>|
            purpose_sound(purpose) ==> well_formed(#[trigger] listed(s, purpose, items)),
{
    assert forall|purpose: PurposeModel, items: Seq<ValueModel>| purpose_sound(purpose) implies well_formed(
        #[trigger] listed(s, purpose, items),
    ) by {
        lemma_list_step(s, purpose, items, 0, seq![]);
    }
}

/// Every failure keeps the depth.
proof fn lemma_all_failed(s: MachineModel)
    requires
        well_formed(s),
    ensures
        forall|e: FailureModel| well_formed(#[trigger] failed(s, e)),
{
    assert forall|e: FailureModel| well_formed(#[trigger] failed(s, e)) by {
        lemma_failed(s, e);
    }
}

proof fn lemma_callee(s: MachineModel, has_object: bool, pass: ValueModel, function: Seq<char>, args: Seq<ValueModel>)
    requires
        well_formed(s),
    ensures
        well_formed(callee_invoked(s, has_object, pass, function, args)),
{
    lemma_listed(s);
    lemma_all_failed(s);
    match crate::semantics::either_name(s, function) {
        Some(ValueModel::Function { params, defaults, body }) => {
            lemma_called(s, CallModel { local: s.scope, pass, params, defaults, body, function, args });
        },
        _ => {},
    }
}

proof fn lemma_plainly(s: MachineModel, object: Option<Seq<char>>, function: Seq<char>, args: Seq<ValueModel>)
    requires
        well_formed(s),
    ensures
        well_formed(plainly_invoked(s, object, function, args)),
{
    lemma_listed(s);
    lemma_all_failed(s);
    lemma_callee(s, false, ValueModel::Null, function, args);
    match object {
        Some(obj) => {
            match crate::semantics::either_name(s, obj) {
                Some(pass) => {
                    lemma_callee(s, true, pass, function, args);
                },
                None => {},
            }
        },
        None => {},
    }
}

proof fn lemma_object_invoked(s: MachineModel, obj: Seq<char>, function: Seq<char>, args: Seq<ValueModel>)
    requires
        well_formed(s),
    ensures
        well_formed(crate::semantics::object_invoked(s, obj, function, args)),
{
    lemma_listed(s);
    lemma_all_failed(s);
    lemma_plainly(s, Some(obj), function, args);
}

proof fn lemma_module_invoked(
    s: MachineModel,
    object: Option<Seq<char>>,
    alias: Seq<char>,
    function: Seq<char>,
    args: Seq<ValueModel>,
)
    requires
        well_formed(s),
    ensures
        well_formed(crate::semantics::module_invoked(s, object, alias, function, args)),
{
    lemma_all_failed(s);
    lemma_module_scope(s.rt, alias);
    match crate::runtime::read_global(s.rt, alias, function) {
        Some(ValueModel::Function { params, defaults, body }) => {
            lemma_called(
                s,
                CallModel {
                    local: crate::runtime::ScopeModel {
                        env: crate::runtime::merged_env(s.rt, alias),
                        types: crate::runtime::merged_types(s.rt, alias),
                        cur: alias,
                    },
                    pass: ValueModel::Null,
                    params,
                    defaults,
                    body,
                    function,
                    args,
                },
            );
        },
        _ => {},
    }
}

proof fn lemma_invoked(
    s: MachineModel,
    object: Option<Seq<char>>,
    module: Option<Seq<char>>,
    function: Seq<char>,
    args: Seq<ValueModel>,
)
    requires
        well_formed(s),
    ensures
        well_formed(invoked(s, object, module, function, args)),
{
    match module {
        Some(alias) => {
            lemma_module_invoked(s, object, alias, function, args);
        },
        None => {
            match object {
                Some(obj) => {
                    lemma_object_invoked(s, obj, function, args);
                },
                None => {
                    lemma_plainly(s, None, function, args);
                },
            }
        },
    }
}

proof fn lemma_eval(s: MachineModel, v: ValueModel)
    requires
        well_formed(s),
    ensures
        well_formed(eval_step(s, v)),
{
    broadcast use lemma_stack_push;

    lemma_listed(s);
    lemma_all_failed(s);
    match v {
        ValueModel::FunctionCall { object, module, function, args } => {
            lemma_invoked(s, object, module, function, args);
        },
        _ => {},
    }
}

proof fn lemma_variable_set(s: MachineModel, name: Seq<char>, live: bool, v: ValueModel)
    requires
        well_formed(s),
    ensures
        well_formed(crate::semantics::variable_set(s, name, live, v)),
{
    lemma_scope_put(s.scope, "var."@ + name, v, s.scope.types);
    lemma_set_global(s.rt, s.scope.cur, "var."@ + name, v);
}

proof fn lemma_variable_written(s: MachineModel, name: Seq<char>, v: ValueModel)
    requires
        well_formed(s),
    ensures
        well_formed(crate::semantics::variable_written(s, name, v)),
{
    lemma_all_failed(s);
    if let Ok((rt, stored)) = crate::semantics::slot_value(s, name, v) {
        assert(rt.modules == s.rt.modules);
        lemma_variable_set(
            MachineModel { rt, ..s },
            name,
            crate::runtime::is_global(rt, s.scope.cur, name),
            stored,
        );
    }
}

proof fn lemma_write(s: MachineModel, target: TargetModel, v: ValueModel)
    requires
        well_formed(s),
    ensures
        well_formed(write_step(s, target, v)),
        well_formed(read_step(s, target)),
{
    broadcast use lemma_stack_push;

    lemma_all_failed(s);
    match target {
        TargetModel::Var(name) => {
            lemma_variable_written(s, name, v);
        },
        _ => {},
    }
}

proof fn lemma_defined(s: MachineModel, name: Seq<char>, declared: Seq<char>, global: bool, v: ValueModel)
    requires
        well_formed(s),
    ensures
        well_formed(crate::semantics::defined(s, name, declared, global, v)),
{
    lemma_all_failed(s);
    if let Ok((rt, stored)) = crate::semantics::new_slot_value(s, name, declared, v) {
        assert(rt.modules == s.rt.modules);
        lemma_scope_put(s.scope, "var."@ + name, stored, put(s.scope.types, "var."@ + name, declared));
        lemma_exported(rt, s.scope.cur, name, declared, stored);
    }
}

proof fn lemma_event_met(s: MachineModel, object: Seq<char>, name: Seq<char>, body: Seq<StatementModel>)
    requires
        well_formed(s),
    ensures
        well_formed(crate::semantics::event_met(s, object, name, body)),
{
    broadcast use lemma_stack_push;

    lemma_all_failed(s);
}

proof fn lemma_exec(s: MachineModel, st: StatementModel)
    requires
        well_formed(s),
    ensures
        well_formed(exec_step(s, st)),
{
    broadcast use lemma_stack_push;

    lemma_all_failed(s);
    match st {
        StatementModel::FunctionCall { object, module, function, args } => {
            let t = pushed(s, FrameModel::Discard);
            assert(well_formed(t));
            lemma_invoked(t, object, module, function, args);
        },
        StatementModel::VariableDecl { name, declared, value } => {
            lemma_defined(s, name, declared, false, value);
        },
        StatementModel::GlobalDecl { name, declared, value } => {
            lemma_defined(s, name, declared, true, value);
        },
        StatementModel::Event { object, name, body } => {
            lemma_event_met(s, object, name, body);
        },
        _ => {},
    }
}

proof fn lemma_events_step(
    s: MachineModel,
    alias: Seq<char>,
    path: Seq<char>,
    events: Seq<StatementModel>,
    next: int,
    saved: ScopeModel,
    loaded: bool,
)
    requires
        well_formed(s),
        scope_sound(saved),
    ensures
        well_formed(events_step(s, alias, path, events, next, saved, loaded)),
{
    broadcast use lemma_stack_push;

    lemma_events_done(s.rt, alias, s.scope);
}

proof fn lemma_started(s: MachineModel, alias: Seq<char>, saved: ScopeModel, loaded: bool)
    requires
        well_formed(s),
        scope_sound(saved),
    ensures
        well_formed(started(s, alias, saved, loaded)),
{
    lemma_module_scope(s.rt, alias);
    if let Some(m) = lookup(s.rt.modules, alias) {
        let scope = ScopeModel { env: merged_env(s.rt, alias), types: merged_types(s.rt, alias), cur: alias };
        let events = match m.program {
            Some(p) => crate::imports::events_of(p.statements, p.statements.len() as int),
            None => seq![],
        };
        lemma_events_step(MachineModel { scope, ..s }, alias, m.path, events, 0, saved, loaded);
    }
}

proof fn lemma_module_step(s: MachineModel, m: crate::state::ImportModel)
    requires
        well_formed(s),
        scope_sound(m.saved),
    ensures
        well_formed(crate::imports::module_step(s, m)),
{
    broadcast use lemma_stack_push;

    lemma_snapshot(s.rt, m.alias, s.scope.env, s.scope.types);
    let t = MachineModel { rt: snapshot(s.rt, m.alias, s.scope.env, s.scope.types), ..s };
    lemma_started(t, m.alias, m.saved, true);
}

proof fn lemma_located(s: MachineModel, directory: Seq<char>, raw: Seq<char>, run: bool, a: AnswerModel)
    requires
        well_formed(s),
    ensures
        well_formed(located(s, directory, raw, run, a)),
{
    broadcast use lemma_stack_push;

    match a {
        AnswerModel::Located { canonical, directory: home, stem } => {
            match crate::table::lookup(s.rt.canonical_to_alias, canonical) {
                Some(existing) => {
                    lemma_started(s, existing, s.scope, false);
                },
                None => {},
            }
        },
        _ => {},
    }
}

proof fn lemma_source_read(
    s: MachineModel,
    canonical: Seq<char>,
    directory: Seq<char>,
    alias: Seq<char>,
    run: bool,
    a: AnswerModel,
)
    requires
        well_formed(s),
    ensures
        well_formed(source_read(s, canonical, directory, alias, run, a)),
{
    broadcast use lemma_stack_push;

    if let AnswerModel::Text(source) = a {
        if let Ok(p) = crate::grammar::program(source) {
            lemma_loading(s.rt, canonical, alias, p);
            let m = crate::state::ImportModel {
                canonical,
                alias,
                run,
                statements: p.statements,
                next: 0,
                saved: s.scope,
            };
            let t = pushed(
                MachineModel { rt: loading(s.rt, canonical, alias, p), ..s },
                FrameModel::Import(m),
            );
            assert(well_formed(t));
            lemma_declares(
                t,
                crate::imports::imports_of(p.statements, p.statements.len() as int),
                0,
                directory,
            );
        }
    }
}

proof fn lemma_popped(s: MachineModel)
    requires
        well_formed(s),
        s.stack.len() > 0,
    ensures
        well_formed(popped(s)),
        frame_sound(s.stack.last()),
{
}

proof fn lemma_reads(s: MachineModel, v: ValueModel, key: Seq<char>, w: ValueModel)
    requires
        well_formed(s),
    ensures
        well_formed(property_of(s, v, key)),
        well_formed(element_at(s, v, w)),
        well_formed(target_property(s, v, key)),
        well_formed(target_at(s, v, w)),
{
    lemma_all_failed(s);
}

proof fn lemma_writes(s: MachineModel, inner: TargetModel, key: Seq<char>, i: u64, value: ValueModel, v: ValueModel)
    requires
        well_formed(s),
    ensures
        well_formed(property_written(s, inner, key, value, v)),
        well_formed(index_written(s, inner, value, v)),
        well_formed(element_written(s, inner, i, value, v)),
{
    broadcast use lemma_stack_push;

    lemma_all_failed(s);
}

proof fn lemma_cases(
    s: MachineModel,
    v: ValueModel,
    cases: Seq<(ValueModel, Seq<StatementModel>)>,
    next: int,
    default: Option<Seq<StatementModel>>,
    body: Seq<StatementModel>,
)
    requires
        well_formed(s),
    ensures
        well_formed(case_step(s, v, cases, next, default)),
        well_formed(branch_taken(s, v, body, cases, next, default)),
        well_formed(running(s, body)),
        well_formed(while_step(s, v, body, next)),
{
    broadcast use lemma_stack_push;

    lemma_all_failed(s);
}

proof fn lemma_range_step(s: MachineModel, shadow: ShadowModel, body: Seq<StatementModel>, i: i64, end: i64)
    requires
        well_formed(s),
    ensures
        well_formed(range_step(s, shadow, body, i, end)),
{
    broadcast use lemma_stack_push;

    lemma_shadowed(s, shadow, ValueModel::Null);
}

proof fn lemma_each_step(
    s: MachineModel,
    shadow: ShadowModel,
    body: Seq<StatementModel>,
    items: Seq<ValueModel>,
    next: int,
)
    requires
        well_formed(s),
    ensures
        well_formed(each_step(s, shadow, body, items, next)),
{
    broadcast use lemma_stack_push;

    lemma_shadowed(s, shadow, items[next]);
}

proof fn lemma_loops(
    s: MachineModel,
    v: ValueModel,
    var: Seq<char>,
    start: i64,
    end: ValueModel,
    body: Seq<StatementModel>,
)
    requires
        well_formed(s),
    ensures
        well_formed(range_started(s, v, var, end, body)),
        well_formed(range_ended(s, v, var, start, body)),
        well_formed(each_started(s, v, var, body)),
{
    broadcast use lemma_stack_push;

    lemma_all_failed(s);
    if let Ok(n) = crate::semantics::range_bound(v) {
        lemma_range_step(s, shadow_of(s, var), body, start, n as i64);
    }
    match v {
        ValueModel::Array(items) => {
            lemma_each_step(s, shadow_of(s, var), body, items, 0);
        },
        ValueModel::String(t) => {
            lemma_each_step(s, shadow_of(s, var), body, crate::semantics::characters(t), 0);
        },
        _ => {},
    }
}

proof fn lemma_range_item(
    s: MachineModel,
    shadow: ShadowModel,
    body: Seq<StatementModel>,
    i: i64,
    end: i64,
    v: ValueModel,
)
    requires
        well_formed(s),
    ensures
        well_formed(value_step(s, FrameModel::RangeItem { shadow, body, at: i, end }, v)),
{
    broadcast use lemma_stack_push;

    lemma_shadowed(s, shadow, v);
}

/// The frames that only push a frame or change the focus.
proof fn lemma_simple_value(s: MachineModel, frame: FrameModel, v: ValueModel)
    requires
        well_formed(s),
        frame is IndexTarget || frame is Left || frame is Raise || frame is Discard || frame is Assign
            || frame is AssignWrite || frame is TargetIndex || frame is Return || frame is Throw || frame is WhileTest,
    ensures
        well_formed(value_step(s, frame, v)),
{
    broadcast use lemma_stack_push;

}

proof fn lemma_value(s: MachineModel, frame: FrameModel, v: ValueModel)
    requires
        well_formed(s),
        frame_sound(frame),
    ensures
        well_formed(value_step(s, frame, v)),
{
    match frame {
        FrameModel::Args { purpose, items, next, done } => {
            lemma_list_step(s, purpose, items, next, done.push(v));
        },
        FrameModel::Property(key) => {
            lemma_reads(s, v, key, v);
        },
        FrameModel::IndexAt(target) => {
            lemma_reads(s, target, seq![], v);
        },
        FrameModel::TargetProperty(key) => {
            lemma_reads(s, v, key, v);
        },
        FrameModel::TargetAt(container) => {
            lemma_reads(s, container, seq![], v);
        },
        FrameModel::Right { op, left } => {
            lemma_planned(s, crate::operators::binary_result(left, v, op));
        },
        FrameModel::Unary(op) => {
            lemma_planned(s, crate::operators::unary_result(v, op));
        },
        FrameModel::Define { name, declared, global } => {
            lemma_defined(s, name, declared, global, v);
        },
        FrameModel::AssignRead { target, op, value } => {
            match op {
                Some(o) => {
                    lemma_stack_push(s.stack, FrameModel::AssignWrite(target));
                    lemma_planned(
                        pushed(s, FrameModel::AssignWrite(target)),
                        crate::operators::binary_result(v, value, o),
                    );
                },
                None => {},
            }
        },
        FrameModel::WriteProperty { inner, key, value } => {
            lemma_writes(s, inner, key, 0, value, v);
        },
        FrameModel::WriteIndex { inner, value } => {
            lemma_writes(s, inner, seq![], 0, value, v);
        },
        FrameModel::WriteAt { inner, index, value } => {
            lemma_writes(s, inner, seq![], index, value, v);
        },
        FrameModel::Switch { cases, default } => {
            lemma_cases(s, v, cases, 0, default, seq![]);
        },
        FrameModel::Case { subject, cases, next, default } => {
            lemma_cases(s, subject, cases, next + 1, default, cases[next].1);
        },
        FrameModel::Branch { body, rest, next, otherwise } => {
            lemma_cases(s, v, rest, next, otherwise, body);
        },
        FrameModel::RangeStart { var, end, body } => {
            lemma_loops(s, v, var, 0, end, body);
        },
        FrameModel::RangeEnd { var, start, body } => {
            lemma_loops(s, v, var, start, v, body);
        },
        FrameModel::RangeItem { shadow, body, at: i, end } => {
            lemma_range_item(s, shadow, body, i, end, v);
        },
        FrameModel::EachStart { var, body } => {
            lemma_loops(s, v, var, 0, v, body);
        },
        FrameModel::Guard => {},
        FrameModel::Bind { call, next } => {
            lemma_scope_put(call.local, "arg."@ + call.params[next], v, call.local.types);
            lemma_bound(s, crate::semantics::with_parameter(call, call.params[next], v), next + 1);
            lemma_all_failed(s);
        },
        FrameModel::Handlers { list, next, handle, event } => {
            lemma_handlers(s, list, next, handle, event);
        },
        FrameModel::Window(w) => {
            lemma_window_faulted(s, w, FaultModel::Throw(v));
        },
        FrameModel::Declares { list, next, directory } => {
            lemma_declares(s, list, next, directory);
        },
        FrameModel::Import(m) => {
            lemma_module_scope(s.rt, m.alias);
            lemma_module_step(MachineModel { scope: empty_scope(m.alias), ..s }, m);
        },
        FrameModel::Entry { statements, next } => {
            lemma_entry(s, statements);
        },
        _ => {
            lemma_all_failed(s);
            if frame is IndexTarget || frame is Left || frame is Raise || frame is Discard || frame is Assign
                || frame is AssignWrite || frame is TargetIndex || frame is Return || frame is Throw
                || frame is WhileTest {
                lemma_simple_value(s, frame, v);
            }
        },
    }
}

proof fn lemma_declares(s: MachineModel, list: Seq<(Seq<char>, bool)>, next: int, directory: Seq<char>)
    requires
        well_formed(s),
    ensures
        well_formed(declares_step(s, list, next, directory)),
{
    broadcast use lemma_stack_push;

}

proof fn lemma_entry_step(s: MachineModel, statements: Seq<StatementModel>, next: int)
    requires
        well_formed(s),
    ensures
        well_formed(crate::imports::entry_step(s, statements, next)),
{
    broadcast use lemma_stack_push;

    lemma_snapshot(s.rt, s.scope.cur, s.scope.env, s.scope.types);
}

proof fn lemma_entry(s: MachineModel, statements: Seq<StatementModel>)
    requires
        well_formed(s),
    ensures
        well_formed(crate::imports::entry_ready(s, statements)),
{
    lemma_ensured(s.rt, s.scope.cur);
    lemma_entry_step(MachineModel { rt: ensured(s.rt, s.scope.cur), ..s }, statements, 0);
}

proof fn lemma_flow(s: MachineModel, frame: FrameModel, f: FlowModel)
    requires
        well_formed(s),
        frame_sound(frame),
    ensures
        well_formed(flow_step(s, frame, f)),
{
    lemma_all_failed(s);
    match frame {
        FrameModel::Block { statements, next } => {
            lemma_stack_push(s.stack, FrameModel::Block { statements, next: next + 1 });
        },
        FrameModel::WhileBody { condition, body, count } => {
            lemma_cases(s, condition, seq![], count + 1, None, body);
        },
        FrameModel::RangeBody { shadow, body, at: i, end } => {
            lemma_shadowed(s, shadow, ValueModel::Null);
            lemma_range_step(s, shadow, body, (i + 1) as i64, end);
        },
        FrameModel::EachBody { shadow, body, items, next } => {
            lemma_shadowed(s, shadow, ValueModel::Null);
            lemma_each_step(s, shadow, body, items, next);
        },
        FrameModel::Catch(shadow) => {
            lemma_shadowed(s, shadow, ValueModel::Null);
        },
        FrameModel::Body(saved) => {
            lemma_all_failed(MachineModel { scope: saved, ..s });
        },
        FrameModel::Module(m) => {
            lemma_module_step(s, m);
        },
        FrameModel::Events { alias, path, events, next, saved, loaded } => {
            lemma_events_step(s, alias, path, events, next, saved, loaded);
        },
        FrameModel::Entry { statements, next } => {
            lemma_entry_step(s, statements, next);
        },
        FrameModel::Guard => {
            lemma_all_failed(crate::steps::guard_left(s));
        },
        _ => {},
    }
}

proof fn lemma_caught(s: MachineModel, catches: Seq<crate::ast::CatchModel>, err: ValueModel)
    requires
        well_formed(s),
    ensures
        well_formed(crate::semantics::caught(s, catches, err)),
{
    broadcast use lemma_stack_push;

    lemma_shadowed(s, shadow_of(s, "err"@), err);
}

proof fn lemma_fault(s: MachineModel, frame: FrameModel, f: FaultModel)
    requires
        well_formed(s),
        frame_sound(frame),
    ensures
        well_formed(fault_step(s, frame, f)),
{
    match frame {
        FrameModel::Try(catches) => {
            if let FaultModel::Throw(err) = f {
                lemma_caught(s, catches, err);
            }
        },
        FrameModel::Catch(shadow) => {
            lemma_shadowed(s, shadow, ValueModel::Null);
        },
        FrameModel::Window(w) => {
            lemma_window_faulted(s, w, f);
        },
        _ => {},
    }
}

/// No step makes a variable occur twice, in a scope or in a module.
pub proof fn step_keeps_tables(s: MachineModel)
    requires
        well_formed(s),
    ensures
        well_formed(step(s)),
{
    let q = idle(s);
    if s.stack.len() > 0 {
        lemma_popped(q);
    }
    match s.focus {
        FocusModel::Eval(v) => {
            lemma_eval(q, v);
        },
        FocusModel::Exec(st) => {
            lemma_exec(q, st);
        },
        FocusModel::Read(target) => {
            lemma_write(q, target, ValueModel::Null);
        },
        FocusModel::Write(target, v) => {
            lemma_write(q, target, v);
        },
        FocusModel::Value(v) => {
            if s.stack.len() > 0 {
                lemma_value(popped(q), s.stack.last(), v);
            }
        },
        FocusModel::Flow(f) => {
            if s.stack.len() > 0 {
                lemma_flow(popped(q), s.stack.last(), f);
            }
        },
        FocusModel::Fault(f) => {
            if s.stack.len() > 0 {
                lemma_fault(popped(q), s.stack.last(), f);
            }
        },
        _ => {},
    }
}

/// However long the machine runs, no variable comes to occur twice.
pub proof fn steps_keep_tables(s: MachineModel, n: nat)
    requires
        well_formed(s),
    ensures
        well_formed(steps(s, n)),
    decreases n,
{
    if n > 0 && can_step(s) {
        step_keeps_tables(s);
        steps_keep_tables(step(s), (n - 1) as nat);
    }
}

/// No answer of the host changes that.
pub proof fn answer_keeps_tables(s: MachineModel, e: EventModel)
    requires
        well_formed(s),
    ensures
        well_formed(answered(s, e)),
{
    let q = idle(s);
    lemma_all_failed(q);
    match (s.focus, e) {
        (FocusModel::Await(WaitModel::Request(r)), EventModel::Answer(a)) => {
            lemma_request_answered(q, r, a);
        },
        _ => {},
    }
}

proof fn lemma_request_answered(s: MachineModel, r: RequestModel, a: AnswerModel)
    requires
        well_formed(s),
    ensures
        well_formed(request_answered(s, r, a)),
{
    lemma_frame_answered(s, a);
    let (rt, result) = crate::answers::db_outcome(s.rt, r, a);
    assert(rt.modules == s.rt.modules);
    lemma_planned(MachineModel { rt, ..s }, result);
}

proof fn lemma_frame_answered(s: MachineModel, a: AnswerModel)
    requires
        well_formed(s),
    ensures
        well_formed(frame_answered(s, a)),
{
    lemma_all_failed(s);
    if s.stack.len() > 0 {
        lemma_popped(s);
        match s.stack.last() {
            FrameModel::Window(w) => {
                lemma_window_answered(popped(s), w, a);
            },
            FrameModel::Locating { directory, raw, run } => {
                lemma_located(popped(s), directory, raw, run, a);
            },
            FrameModel::Reading { canonical, directory, alias, run } => {
                lemma_source_read(popped(s), canonical, directory, alias, run, a);
            },
            _ => {},
        }
    }
}

/// A machine that has just been made is well formed.
pub proof fn fresh_machine_is_well_formed(cur: Seq<char>)
    ensures
        well_formed(crate::driver::fresh(cur)),
{
    reveal(scope_sound);
    reveal(modules_sound);
}

} // verus!
