//! What holds of variables, scopes, errors and modules, whatever a script does.

use crate::ast::{CatchModel, StatementModel, ValueModel};
use crate::draft::FaultModel;
use crate::driver::cleared;
use crate::gui::{handlers_of, kept, widget_kind, with_event, with_handler};
use crate::imports::{events_done, left, loading, located, locating, program_run, started};
use crate::request::AnswerModel;
use crate::runtime::{
    fits, is_global, module_of, read_global, scoped, type_complaint, with_module, RuntimeModel, ScopeModel,
};
use crate::semantics::{
    caught, defined, eval_step, evaluating, failed, faulty, flowing, given, handler_for, new_slot_value, pushed,
    range_step, shadow_of, slot_type, slot_value, unknown_variable, unshadowed, variable_written, with_arguments,
};
use crate::show::kind_name;
use crate::soundness::{scope_sound, well_formed};
use crate::state::{CallModel, EventModel, FlowModel, FocusModel, FrameModel, MachineModel, ShadowModel};
use crate::steps::{answered, can_step, fault_step, flow_step, idle, step, steps};
use crate::strings::occurs_at;
use crate::table::{erase, erase_then_lookup, keys, lemma_place, lookup, place, put, put_then_lookup};
use vstd::prelude::*;

verus! {

/// Null fits every slot.
pub proof fn null_fits_every_slot(declared: Seq<char>)
    ensures
        fits(declared, ValueModel::Null),
{
}

proof fn lemma_kind_name(declared: Seq<char>)
    ensures
        widget_kind(declared) matches Some(kind) ==> kind_name(kind) == declared,
{
}

/// What a declaration stores fits the declared type.
pub proof fn declared_value_fits(s: MachineModel, name: Seq<char>, declared: Seq<char>, v: ValueModel)
    ensures
        new_slot_value(s, name, declared, v) matches Ok((_, stored)) ==> fits(declared, stored),
{
    lemma_kind_name(declared);
}

/// What an assignment stores fits the type that the slot was declared with.
pub proof fn assigned_value_fits(s: MachineModel, name: Seq<char>, v: ValueModel, declared: Seq<char>)
    requires
        slot_type(s, "var."@ + name) == Some(declared),
    ensures
        slot_value(s, name, v) matches Ok((_, stored)) ==> fits(declared, stored),
{
    lemma_kind_name(declared);
}

/// A value of another type is refused, and nothing changes but for the error.
pub proof fn mismatch_is_type_error(s: MachineModel, name: Seq<char>, declared: Seq<char>, global: bool, v: ValueModel)
    requires
        widget_kind(declared) is None,
        !fits(declared, v),
    ensures
        defined(s, name, declared, global, v) == failed(s, type_complaint(name, declared, v)),
        scoped(s.rt, s.scope, name) is Some && slot_type(s, "var."@ + name) == Some(declared) ==> variable_written(
            s,
            name,
            v,
        ) == failed(s, type_complaint(name, declared, v)),
{
}

/// The key of a variable determines its name.
pub proof fn lemma_keys_differ(a: Seq<char>, b: Seq<char>)
    requires
        a != b,
    ensures
        "var."@ + a != "var."@ + b,
{
    let p = "var."@;
    if p + a == p + b {
        assert(a =~= (p + a).subrange(p.len() as int, (p + a).len() as int));
        assert(b =~= (p + b).subrange(p.len() as int, (p + b).len() as int));
    }
}

pub proof fn lemma_with_module(rt: RuntimeModel, alias: Seq<char>, m: crate::runtime::ModuleModel)
    ensures
        module_of(with_module(rt, alias, m), alias) == m,
{
    put_then_lookup(rt.modules, alias, m, alias);
}

/// A declaration is what the variable reads from then on, with the new type,
/// and no other variable changes. (Where the name is exported already, a
/// private declaration leaves the live store in front.)
pub proof fn declaration_then_read(
    s: MachineModel,
    name: Seq<char>,
    declared: Seq<char>,
    global: bool,
    v: ValueModel,
    other: Seq<char>,
)
    requires
        new_slot_value(s, name, declared, v) is Ok,
        global || !is_global(s.rt, s.scope.cur, name),
        other != name,
    ensures
        ({
            let t = defined(s, name, declared, global, v);
            let stored = new_slot_value(s, name, declared, v)->Ok_0.1;
            &&& t.focus == FocusModel::Flow(FlowModel::Normal)
            &&& scoped(t.rt, t.scope, name) == Some(stored)
            &&& slot_type(t, "var."@ + name) == Some(declared)
            &&& scoped(t.rt, t.scope, other) == scoped(s.rt, s.scope, other)
        }),
{
    let t = defined(s, name, declared, global, v);
    let (rt, stored) = new_slot_value(s, name, declared, v)->Ok_0;
    let key = "var."@ + name;
    let cur = s.scope.cur;
    lemma_keys_differ(name, other);
    put_then_lookup(s.scope.env, key, stored, "var."@ + other);
    put_then_lookup(s.scope.types, key, declared, key);
    assert(rt.modules == s.rt.modules);
    if global {
        let m = module_of(rt, cur);
        let n = module_of(t.rt, cur);
        put_then_lookup(m.globals, key, stored, "var."@ + other);
        lemma_exported(rt, cur, name, declared, stored, other);
    }
}

pub proof fn lemma_exported(
    rt: RuntimeModel,
    cur: Seq<char>,
    name: Seq<char>,
    declared: Seq<char>,
    v: ValueModel,
    other: Seq<char>,
)
    requires
        other != name,
    ensures
        ({
            let t = crate::runtime::exported(rt, cur, name, declared, v);
            &&& is_global(t, cur, name)
            &&& read_global(t, cur, name) == Some(v)
            &&& is_global(t, cur, other) == is_global(rt, cur, other)
            &&& read_global(t, cur, other) == read_global(rt, cur, other)
        }),
{
    let m = module_of(rt, cur);
    let names = if m.global_names.contains(name) {
        m.global_names
    } else {
        m.global_names.push(name)
    };
    let n = crate::runtime::ModuleModel {
        globals: put(m.globals, "var."@ + name, v),
        global_names: names,
        global_types: put(m.global_types, name, declared),
        ..m
    };
    lemma_with_module(rt, cur, n);
    lemma_keys_differ(name, other);
    put_then_lookup(m.globals, "var."@ + name, v, "var."@ + other);
    if !m.global_names.contains(name) {
        assert(m.global_names.push(name)[m.global_names.len() as int] == name);
        assert(names.contains(name));
        if m.global_names.contains(other) {
            let i = choose|i: int| 0 <= i < m.global_names.len() && m.global_names[i] == other;
            assert(names[i] == other);
        }
    }
}

pub proof fn lemma_set_global(rt: RuntimeModel, cur: Seq<char>, name: Seq<char>, v: ValueModel, other: Seq<char>)
    requires
        other != name,
    ensures
        ({
            let t = crate::runtime::set_global(rt, cur, "var."@ + name, v);
            &&& read_global(t, cur, name) == Some(v)
            &&& is_global(t, cur, name) == is_global(rt, cur, name)
            &&& is_global(t, cur, other) == is_global(rt, cur, other)
            &&& read_global(t, cur, other) == read_global(rt, cur, other)
        }),
{
    let m = module_of(rt, cur);
    lemma_with_module(
        rt,
        cur,
        crate::runtime::ModuleModel { globals: put(m.globals, "var."@ + name, v), ..m },
    );
    lemma_keys_differ(name, other);
    put_then_lookup(m.globals, "var."@ + name, v, "var."@ + other);
}

/// What was assigned is what the variable reads from then on, in its own file
/// and, where it is exported, through the module too; no other variable changes.
pub proof fn assignment_then_read(s: MachineModel, name: Seq<char>, v: ValueModel, other: Seq<char>)
    requires
        scoped(s.rt, s.scope, name) is Some,
        slot_value(s, name, v) is Ok,
        other != name,
    ensures
        ({
            let t = variable_written(s, name, v);
            let stored = slot_value(s, name, v)->Ok_0.1;
            &&& t.focus == FocusModel::Flow(FlowModel::Normal)
            &&& scoped(t.rt, t.scope, name) == Some(stored)
            &&& is_global(s.rt, s.scope.cur, name) ==> read_global(t.rt, s.scope.cur, name) == Some(stored)
            &&& scoped(t.rt, t.scope, other) == scoped(s.rt, s.scope, other)
        }),
{
    let (rt, stored) = slot_value(s, name, v)->Ok_0;
    lemma_keys_differ(name, other);
    put_then_lookup(s.scope.env, "var."@ + name, stored, "var."@ + other);
    assert(rt.modules == s.rt.modules);
    lemma_set_global(rt, s.scope.cur, name, stored, other);
}

/// A variable that was never declared cannot be assigned to.
pub proof fn assignment_needs_declaration(s: MachineModel, name: Seq<char>, v: ValueModel)
    requires
        scoped(s.rt, s.scope, name) is None,
    ensures
        variable_written(s, name, v) == failed(s, crate::semantics::undeclared(name)),
{
}

/// What a module exports is read through its alias at once.
pub proof fn export_is_live(s: MachineModel, name: Seq<char>, declared: Seq<char>, v: ValueModel)
    requires
        new_slot_value(s, name, declared, v) is Ok,
    ensures
        ({
            let t = defined(s, name, declared, true, v);
            let stored = new_slot_value(s, name, declared, v)->Ok_0.1;
            eval_step(t, ValueModel::ModuleVar { alias: s.scope.cur, name }) == given(t, stored)
        }),
{
    let (rt, stored) = new_slot_value(s, name, declared, v)->Ok_0;
    let m = module_of(rt, s.scope.cur);
    lemma_exported(rt, s.scope.cur, name, declared, stored, name.push('x'));
    put_then_lookup(
        rt.modules,
        s.scope.cur,
        module_of(crate::runtime::exported(rt, s.scope.cur, name, declared, stored), s.scope.cur),
        s.scope.cur,
    );
}

/// A variable of the own file is read from the scope and from the own module,
/// never from another one.
pub proof fn reads_stay_in_their_module(a: RuntimeModel, b: RuntimeModel, scope: ScopeModel, name: Seq<char>)
    requires
        module_of(a, scope.cur) == module_of(b, scope.cur),
    ensures
        scoped(a, scope, name) == scoped(b, scope, name),
{
}

/// A name without its prefix is unknown.
pub proof fn bare_name_is_unknown(s: MachineModel, name: Seq<char>)
    requires
        name != "pass"@,
        name != "arg"@,
        name != "args"@,
        !occurs_at(name, "var."@, 0),
        !occurs_at(name, "arg."@, 0),
    ensures
        eval_step(s, ValueModel::Variable(name)) == failed(s, unknown_variable(name)),
{
}

/// After a loop or a handler the borrowed variable is as it was before, and no
/// other variable has changed.
pub proof fn borrowed_variable_is_given_back(s: MachineModel, shadow: ShadowModel, other: Seq<char>)
    requires
        well_formed(s),
        other != shadow.key,
    ensures
        lookup(unshadowed(s, shadow).scope.env, shadow.key) == shadow.saved,
        lookup(unshadowed(s, shadow).scope.env, other) == lookup(s.scope.env, other),
{
    reveal(scope_sound);
    match shadow.saved {
        Some(v) => {
            put_then_lookup(s.scope.env, shadow.key, v, other);
        },
        None => {
            erase_then_lookup(s.scope.env, shadow.key, other);
        },
    }
}

proof fn lemma_put_same<T>(t: Seq<(Seq<char>, T)>, key: Seq<char>)
    ensures
        lookup(t, key) matches Some(v) ==> put(t, key, v) == t,
        lookup(t, key) is None ==> erase(t, key) == t,
{
    lemma_place(keys(t), key, 0);
    match place(keys(t), key) {
        Some(i) => {
            assert(t.update(i, (key, t[i].1)) =~= t);
        },
        None => {},
    }
}

/// Giving back a variable that was not used changes nothing.
proof fn lemma_unused_shadow(s: MachineModel, var: Seq<char>)
    requires
        is_global(s.rt, s.scope.cur, var) || read_global(s.rt, s.scope.cur, var) is None,
    ensures
        unshadowed(s, shadow_of(s, var)) == s,
{
    let cur = s.scope.cur;
    let m = module_of(s.rt, cur);
    lemma_put_same(s.scope.env, "var."@ + var);
    lemma_put_same(m.globals, "var."@ + var);
    lemma_put_same(s.rt.modules, cur);
}

/// A range whose start is not below its end runs nothing and changes nothing.
pub proof fn empty_range_does_nothing(
    s: MachineModel,
    var: Seq<char>,
    body: Seq<StatementModel>,
    start: i64,
    end: i64,
)
    requires
        start >= end,
        is_global(s.rt, s.scope.cur, var) || read_global(s.rt, s.scope.cur, var) is None,
    ensures
        range_step(s, shadow_of(s, var), body, start, end) == flowing(s, FlowModel::Normal),
{
    lemma_unused_shadow(s, var);
}

/// The first handler that takes the type wins.
pub proof fn first_handler_wins(catches: Seq<CatchModel>, error_type: Seq<char>, i: int)
    requires
        0 <= i <= catches.len(),
    ensures
        match handler_for(catches, error_type, i) {
            Some(k) => {
                &&& i <= k < catches.len()
                &&& catches[k].error_type == error_type || catches[k].error_type == "Error"@
                &&& forall|m: int|
                    i <= m < k ==> (#[trigger] catches[m]).error_type != error_type && catches[m].error_type != "Error"@
            },
            None => forall|m: int|
                i <= m < catches.len() ==> (#[trigger] catches[m]).error_type != error_type && catches[m].error_type
                    != "Error"@,
        },
    decreases catches.len() - i,
{
    if i < catches.len() && !(catches[i].error_type == error_type || catches[i].error_type == "Error"@) {
        first_handler_wins(catches, error_type, i + 1);
    }
}

/// A handler for `Error` takes errors of every type.
pub proof fn error_handler_takes_all(catches: Seq<CatchModel>, k: int, error_type: Seq<char>)
    requires
        0 <= k < catches.len(),
        catches[k].error_type == "Error"@,
    ensures
        handler_for(catches, error_type, 0) matches Some(i) && i <= k,
{
    first_handler_wins(catches, error_type, 0);
}

/// A fatal fault passes every `try`.
pub proof fn fatal_is_never_caught(s: MachineModel, catches: Seq<CatchModel>, m: Seq<char>)
    ensures
        fault_step(s, FrameModel::Try(catches), FaultModel::Fatal(m)) == faulty(s, FaultModel::Fatal(m)),
{
}

/// An error that no handler takes goes on as it was.
pub proof fn unhandled_error_goes_on(s: MachineModel, catches: Seq<CatchModel>, err: ValueModel)
    requires
        forall|m: int|
            0 <= m < catches.len() ==> (#[trigger] catches[m]).error_type != crate::semantics::thrown_type(err)
                && catches[m].error_type != "Error"@,
    ensures
        fault_step(s, FrameModel::Try(catches), FaultModel::Throw(err)) == faulty(s, FaultModel::Throw(err)),
{
    first_handler_wins(catches, crate::semantics::thrown_type(err), 0);
}

/// In a handler `var.err` is the error that was caught.
pub proof fn handler_sees_its_error(s: MachineModel, catches: Seq<CatchModel>, err: ValueModel)
    requires
        handler_for(catches, crate::semantics::thrown_type(err), 0) is Some,
    ensures
        ({
            let t = caught(s, catches, err);
            scoped(t.rt, t.scope, "err"@) == Some(err)
        }),
{
    put_then_lookup(s.scope.env, "var."@ + "err"@, err, "var."@ + "err"@);
    lemma_set_global(s.rt, s.scope.cur, "err"@, err, "err"@.push('x'));
}

/// However a body ends, the caller has its scope back, and a body that returns
/// nothing gives null.
pub proof fn call_gives_scope_back(s: MachineModel, saved: ScopeModel, f: FlowModel, e: FaultModel)
    ensures
        flow_step(s, FrameModel::Body(saved), f).scope == saved,
        fault_step(s, FrameModel::Body(saved), e) == faulty(MachineModel { scope: saved, ..s }, e),
        f is Normal ==> flow_step(s, FrameModel::Body(saved), f) == given(
            MachineModel { scope: saved, ..s },
            ValueModel::Null,
        ),
        f matches FlowModel::Return(v) ==> flow_step(s, FrameModel::Body(saved), f) == given(
            MachineModel { scope: saved, ..s },
            v,
        ),
{
}

/// A body sees all its arguments, declared or not, and what it was called on.
pub proof fn body_sees_all_arguments(call: CallModel, vals: Seq<ValueModel>)
    ensures
        ({
            let env = with_arguments(call, vals).local.env;
            &&& lookup(env, "arg"@) == Some(ValueModel::Array(vals))
            &&& lookup(env, "args"@) == Some(ValueModel::Array(vals))
            &&& lookup(env, "pass"@) == Some(call.pass)
        }),
{
    reveal_strlit("arg");
    reveal_strlit("args");
    reveal_strlit("pass");
    assert("arg"@.len() == 3 && "args"@.len() == 4 && "pass"@.len() == 4);
    assert("args"@[0] != "pass"@[0]);
    let a = put(call.local.env, "pass"@, call.pass);
    let b = put(a, "arg"@, ValueModel::Array(vals));
    put_then_lookup(call.local.env, "pass"@, call.pass, "arg"@);
    put_then_lookup(a, "arg"@, ValueModel::Array(vals), "pass"@);
    put_then_lookup(b, "args"@, ValueModel::Array(vals), "pass"@);
    put_then_lookup(b, "args"@, ValueModel::Array(vals), "arg"@);
}

/// A parameter without an argument takes its default; without a default the call
/// is refused.
pub proof fn missing_argument_takes_default(s: MachineModel, call: CallModel, next: int)
    requires
        call.args.len() <= next < call.params.len(),
    ensures
        match lookup(call.defaults, call.params[next]) {
            Some(v) => crate::semantics::bound(s, call, next) == evaluating(
                pushed(s, FrameModel::Bind { call, next }),
                v,
            ),
            None => exists|m: Seq<crate::draft::PieceModel>|
                crate::semantics::bound(s, call, next) == failed(
                    s,
                    #[trigger] crate::draft::throw_model("ValueError"@, m),
                ),
        },
{
    let m = seq![
        crate::draft::PieceModel::Text(call.function),
        crate::draft::PieceModel::Text("() missing required argument '"@),
        crate::draft::PieceModel::Text(call.params[next]),
        crate::draft::PieceModel::Text("'"@),
    ];
    assert(lookup(call.defaults, call.params[next]) is None ==> crate::semantics::bound(s, call, next) == failed(
        s,
        crate::draft::throw_model("ValueError"@, m),
    ));
}

// Runs.
/// A run can be cut anywhere: its steps add up.
pub proof fn steps_add_up(s: MachineModel, a: nat, b: nat)
    ensures
        steps(steps(s, a), b) == steps(s, a + b),
    decreases a,
{
    if a > 0 && can_step(s) {
        steps_add_up(step(s), (a - 1) as nat, b);
    } else if a > 0 {
        assert(steps(s, a + b) == s);
        assert(steps(s, b) == s);
    }
}

/// A machine that waits or has ended stays as it is.
pub proof fn waiting_machine_stays(s: MachineModel)
    requires
        !can_step(s),
    ensures
        step(s) == s,
{
}

/// A new chunk finds the variables and modules that the chunks before it left.
pub proof fn session_keeps_its_state(s: MachineModel, statements: Seq<StatementModel>, directory: Seq<char>)
    ensures
        program_run(cleared(s), statements, directory).scope == s.scope,
        program_run(cleared(s), statements, directory).rt == s.rt,
{
}

// Modules.
/// An import goes on with what the host says of its place.
pub proof fn import_goes_by_its_place(
    s: MachineModel,
    directory: Seq<char>,
    raw: Seq<char>,
    run: bool,
    a: AnswerModel,
)
    ensures
        answered(locating(s, directory, raw, run), EventModel::Answer(a)) == located(idle(s), directory, raw, run, a),
{
    assert(locating(s, directory, raw, run).stack.drop_last() =~= s.stack);
}

/// An import of a file that is being loaded is refused.
pub proof fn cycle_is_refused(
    s: MachineModel,
    directory: Seq<char>,
    raw: Seq<char>,
    run: bool,
    canonical: Seq<char>,
    home: Seq<char>,
    stem: Option<Seq<char>>,
)
    requires
        s.rt.loading.contains(canonical),
    ensures
        ({
            let t = located(s, directory, raw, run, AnswerModel::Located { canonical, directory: home, stem });
            t.focus is Abort && t.rt == s.rt
        }),
{
}

/// An import of a file that is loaded already does not read it again. Where its
/// event blocks are asked for and have not run, they run now, and after them no
/// import runs them again; else nothing happens at all.
pub proof fn loaded_file_is_not_loaded_again(
    s: MachineModel,
    directory: Seq<char>,
    raw: Seq<char>,
    run: bool,
    again: bool,
    canonical: Seq<char>,
    home: Seq<char>,
    stem: Option<Seq<char>>,
    alias: Seq<char>,
    m: crate::runtime::ModuleModel,
    scope: ScopeModel,
)
    requires
        !s.rt.loading.contains(canonical),
        lookup(s.rt.canonical_to_alias, canonical) == Some(alias),
        lookup(s.rt.modules, alias) == Some(m),
    ensures
        ({
            let a = AnswerModel::Located { canonical, directory: home, stem };
            let r = located(s, directory, raw, run, a);
            let events = match m.program {
                Some(p) => crate::imports::events_of(p.statements, p.statements.len() as int),
                None => seq![],
            };
            let own = ScopeModel {
                env: crate::runtime::merged_env(s.rt, alias),
                types: crate::runtime::merged_types(s.rt, alias),
                cur: alias,
            };
            let done = MachineModel { rt: events_done(s.rt, alias, scope), ..s };
            &&& !(run && !m.onstart_executed) ==> r == given(s, ValueModel::Null)
            &&& run && !m.onstart_executed ==> r == crate::imports::events_step(
                MachineModel { scope: own, ..s },
                alias,
                m.path,
                events,
                0,
                s.scope,
                false,
            )
            &&& crate::imports::events_step(
                MachineModel { scope, ..s },
                alias,
                m.path,
                events,
                events.len() as int,
                s.scope,
                false,
            ) == given(done, ValueModel::Null)
            &&& located(done, directory, raw, again, a) == given(done, ValueModel::Null)
        }),
{
    let done = MachineModel { rt: events_done(s.rt, alias, scope), ..s };
    start_runs_once(s, alias, scope, s.scope);
    assert(done.rt.loading == s.rt.loading);
    assert(done.rt.canonical_to_alias == s.rt.canonical_to_alias);
}

/// From the moment its loading begins, a module is known by its path and by its
/// alias.
pub proof fn loaded_module_is_known(
    rt: RuntimeModel,
    canonical: Seq<char>,
    alias: Seq<char>,
    p: crate::ast::ProgramModel,
)
    ensures
        lookup(loading(rt, canonical, alias, p).canonical_to_alias, canonical) == Some(alias),
        lookup(loading(rt, canonical, alias, p).modules, alias) is Some,
        loading(rt, canonical, alias, p).loading.contains(canonical),
{
    put_then_lookup(rt.canonical_to_alias, canonical, alias, canonical);
    let m = crate::runtime::ModuleModel {
        path: canonical,
        program: Some(p),
        ..crate::runtime::empty_module()
    };
    put_then_lookup(rt.modules, alias, m, alias);
    assert(rt.loading.push(canonical)[rt.loading.len() as int] == canonical);
}

/// The event blocks of a module run once: after them, asking again does nothing.
pub proof fn start_runs_once(s: MachineModel, alias: Seq<char>, scope: ScopeModel, saved: ScopeModel)
    ensures
        ({
            let t = MachineModel { rt: events_done(s.rt, alias, scope), ..s };
            started(t, alias, saved, false) == left(t, saved, false)
        }),
{
    let m = module_of(s.rt, alias);
    let globals = crate::runtime::written_back(m.globals, m.global_names, scope.env, m.global_names.len() as int);
    let kept = crate::runtime::snapshot(
        with_module(s.rt, alias, crate::runtime::ModuleModel { globals, ..m }),
        alias,
        scope.env,
        scope.types,
    );
    put_then_lookup(
        kept.modules,
        alias,
        crate::runtime::ModuleModel { onstart_executed: true, ..module_of(kept, alias) },
        alias,
    );
}

// Widgets.
/// Handlers fire in the order in which they were registered: a new one is the
/// last, and the other events keep theirs.
pub proof fn handlers_keep_their_order(rt: RuntimeModel, id: u64, event: Seq<char>, f: ValueModel, other: Seq<char>)
    requires
        lookup(rt.gui, id) is Some,
        other != event,
    ensures
        handlers_of(with_event(rt, id, event, f), id, event) == handlers_of(rt, id, event).push(f),
        handlers_of(with_event(rt, id, event, f), id, other) == handlers_of(rt, id, other),
{
    let w = lookup(rt.gui, id)->0;
    let list = match lookup(w.handlers, event) {
        Some(list) => list.push(f),
        None => seq![f],
    };
    put_then_lookup(w.handlers, event, list, other);
    put_then_lookup(
        rt.gui,
        id,
        crate::runtime::GuiModel { handlers: with_handler(w.handlers, event, f), ..w },
        id,
    );
    if lookup(w.handlers, event) is None {
        assert(seq![f] =~= Seq::<ValueModel>::empty().push(f));
    }
}

/// A handler that fails keeps the handlers after it from running.
pub proof fn failing_handler_ends_the_rest(
    s: MachineModel,
    list: Seq<ValueModel>,
    next: int,
    handle: ValueModel,
    event: Seq<char>,
    f: FaultModel,
)
    ensures
        fault_step(s, FrameModel::Handlers { list, next, handle, event }, f) == faulty(s, f),
{
}

/// When a window goes, its last handlers run, unless a fatal fault ended it.
pub proof fn exit_handlers_run_unless_fatal(s: MachineModel, w: crate::state::WindowModel)
    ensures
        ({
            let failure = if w.failure is Some {
                w.failure
            } else {
                w.pending
            };
            let t = crate::windows::window_closing(s, w);
            if failure matches Some(FaultModel::Fatal(m)) {
                t == faulty(s, failure->0)
            } else {
                t == crate::windows::exiting(s, crate::state::WindowModel { failure, ..w })
            }
        }),
{
}

/// A widget that was set to null is gone: a call on it is refused.
pub proof fn closed_widget_is_refused(
    s: MachineModel,
    obj: Seq<char>,
    function: Seq<char>,
    args: Seq<ValueModel>,
    kind: crate::ast::GuiKind,
    id: u64,
)
    requires
        scoped(s.rt, s.scope, obj) == Some(ValueModel::Gui { kind, id }),
        lookup(s.rt.gui, id) is None,
        !crate::semantics::compares_case(function),
    ensures
        crate::semantics::plainly_invoked(s, Some(obj), function, args) == failed(
            s,
            crate::gui::closed_complaint(kind),
        ),
{
}

} // verus!
