//! What calls and plain statements come to, from their start to their end.

use crate::ast::{StatementModel, TargetModel, ValueModel};
use crate::meaning::{
    body_scope, body_start, complete, deeper, lemma_body_starts, lemma_called, lemma_first_step, lemma_start,
    lemma_under, machine_finds_value, reaches, returned, script_call, sources, value_of, values_of, ways_join, Host,
};
use crate::runtime::MAX_CALL_DEPTH;
use crate::semantics::{
    case_step, defined, entered, eval_step, evaluating, flowing, focused, given, pushed, run_if_any, running,
    variable_written,
};
use crate::show::{strictly_equal, truthy};
use crate::state::{CallModel, FlowModel, FocusModel, FrameModel, MachineModel};
use crate::steps::{guard_left, idle, popped, step, value_step};
use vstd::prelude::*;

verus! {

pub open spec fn executing(s: MachineModel, st: StatementModel) -> MachineModel {
    focused(s, FocusModel::Exec(st))
}

/// What a call comes to once its body has ended: the caller's scope is back, and so is its
/// depth; what else the body changed stays.
pub open spec fn after_call(s: MachineModel, end: MachineModel) -> MachineModel {
    MachineModel { scope: s.scope, stack: s.stack, ..guard_left(end) }
}

/// A call of a function of the script runs its body with each parameter bound to its
/// argument, or else to its default, and is worth what the body returns, or null where
/// it returns nothing. It may stand for itself, on an object, or behind the name of a
/// module.
pub proof fn call_runs_its_body(
    h: Host,
    s: MachineModel,
    object: Option<Seq<char>>,
    module: Option<Seq<char>>,
    function: Seq<char>,
    args: Seq<ValueModel>,
    call: CallModel,
    end: MachineModel,
    f: FlowModel,
)
    requires
        script_call(s.rt, s.scope, object, module, function, args) == Some(call),
        0 <= s.rt.call_depth < MAX_CALL_DEPTH,
        complete(call),
        forall|i: int| 0 <= i < args.len() ==> value_of(h, deeper(s.rt), s.scope, #[trigger] args[i]) is Some,
        forall|i: int|
            0 <= i < call.params.len() ==> value_of(h, deeper(s.rt), s.scope, #[trigger] sources(call)[i]) is Some,
        ({
            let start = body_start(
                idle(s),
                body_scope(
                    call,
                    values_of(h, deeper(s.rt), s.scope, args),
                    values_of(h, deeper(s.rt), s.scope, sources(call)),
                ),
            );
            end.stack == start.stack && reaches(h, running(start, call.body), flowing(end, f))
        }),
        f is Normal || f is Return,
    ensures
        reaches(
            h,
            evaluating(s, ValueModel::FunctionCall { object, module, function, args }),
            given(
                after_call(s, end),
                match f {
                    FlowModel::Return(w) => w,
                    _ => ValueModel::Null,
                },
            ),
        ),
{
    let q = idle(s);
    let w = match f {
        FlowModel::Return(w) => w,
        _ => ValueModel::Null,
    };
    let goal = given(after_call(s, end), w);
    let start = body_start(
        q,
        body_scope(
            call,
            values_of(h, deeper(s.rt), s.scope, args),
            values_of(h, deeper(s.rt), s.scope, sources(call)),
        ),
    );
    let a = flowing(end, f);
    let t = entered(q)->0;
    let b = given(MachineModel { scope: s.scope, stack: t.stack, ..end }, w);
    assert(start.stack.drop_last() =~= t.stack);
    assert(t.stack.drop_last() =~= s.stack);
    assert(step(a) == b);
    assert(step(b) == goal);
    lemma_start(h, goal);
    lemma_first_step(h, b, goal);
    lemma_first_step(h, a, goal);
    ways_join(h, running(start, call.body), a, goal);
    assert(call.args == args);
    lemma_body_starts(h, q, call, goal);
    lemma_called(q, object, module, function, args);
    let v = ValueModel::FunctionCall { object, module, function, args };
    assert(step(evaluating(s, v)) == eval_step(q, v));
    lemma_first_step(h, evaluating(s, v), goal);
}

/// A call of a function that returns an expression is worth what the expression is worth
/// where each parameter stands for its argument, or else for its default; the caller
/// finds its variables and its depth as they were.
pub proof fn call_returns_value(
    h: Host,
    s: MachineModel,
    object: Option<Seq<char>>,
    module: Option<Seq<char>>,
    function: Seq<char>,
    args: Seq<ValueModel>,
    call: CallModel,
    e: ValueModel,
    w: ValueModel,
)
    requires
        script_call(s.rt, s.scope, object, module, function, args) == Some(call),
        returned(call.body) == Some(e),
        0 <= s.rt.call_depth < MAX_CALL_DEPTH,
        complete(call),
        forall|i: int| 0 <= i < args.len() ==> value_of(h, deeper(s.rt), s.scope, #[trigger] args[i]) is Some,
        forall|i: int|
            0 <= i < call.params.len() ==> value_of(h, deeper(s.rt), s.scope, #[trigger] sources(call)[i]) is Some,
        value_of(
            h,
            deeper(s.rt),
            body_scope(
                call,
                values_of(h, deeper(s.rt), s.scope, args),
                values_of(h, deeper(s.rt), s.scope, sources(call)),
            ),
            e,
        ) == Some(w),
    ensures
        reaches(h, evaluating(s, ValueModel::FunctionCall { object, module, function, args }), given(s, w)),
{
    machine_finds_value(h, s, ValueModel::FunctionCall { object, module, function, args }, w);
}

// Plain statements.
/// A declaration ends with the value of its expression in the slot.
pub proof fn declaration_runs(
    h: Host,
    s: MachineModel,
    name: Seq<char>,
    declared: Seq<char>,
    global: bool,
    v: ValueModel,
    w: ValueModel,
)
    requires
        value_of(h, s.rt, s.scope, v) == Some(w),
    ensures
        ({
            let st = if global {
                StatementModel::GlobalDecl { name, declared, value: v }
            } else {
                StatementModel::VariableDecl { name, declared, value: v }
            };
            reaches(h, executing(s, st), defined(idle(s), name, declared, global, w))
        }),
{
    let st = if global {
        StatementModel::GlobalDecl { name, declared, value: v }
    } else {
        StatementModel::VariableDecl { name, declared, value: v }
    };
    let q = idle(s);
    let goal = defined(q, name, declared, global, w);
    let frame = FrameModel::Define { name, declared, global };
    lemma_start(h, goal);
    assert(value_step(q, frame, w) == goal);
    lemma_under(h, q, frame, v, w, goal);
    lemma_first_step(h, executing(s, st), goal);
}

/// An assignment to a declared variable ends with the value of its expression in
/// the variable.
pub proof fn assignment_runs(h: Host, s: MachineModel, name: Seq<char>, v: ValueModel, w: ValueModel)
    requires
        value_of(h, s.rt, s.scope, v) == Some(w),
        crate::runtime::scoped(s.rt, s.scope, name) is Some,
    ensures
        reaches(
            h,
            executing(
                s,
                StatementModel::Assign { target: TargetModel::Var(name), op: None, value: Box::new(v) },
            ),
            variable_written(idle(s), name, w),
        ),
{
    let target = TargetModel::Var(name);
    let st = StatementModel::Assign { target, op: None, value: Box::new(v) };
    let q = idle(s);
    let goal = variable_written(q, name, w);
    lemma_start(h, goal);
    let write = focused(q, FocusModel::Write(target, w));
    assert(step(write) == goal);
    lemma_first_step(h, write, goal);
    let current = crate::runtime::scoped(s.rt, s.scope, name)->0;
    let frame = FrameModel::AssignRead { target, op: None, value: w };
    let read = given(pushed(q, frame), current);
    assert(read.stack.drop_last() =~= q.stack);
    assert(popped(idle(read)) == q);
    assert(step(read) == write);
    lemma_first_step(h, read, goal);
    let reading = focused(pushed(q, frame), FocusModel::Read(target));
    assert(step(reading) == read);
    lemma_first_step(h, reading, goal);
    assert(value_step(q, FrameModel::Assign { target, op: None }, w) == reading);
    lemma_under(h, q, FrameModel::Assign { target, op: None }, v, w, goal);
    lemma_first_step(h, executing(s, st), goal);
}

/// The branches of an `if`, its own first.
pub open spec fn branches(
    condition: ValueModel,
    body: Seq<StatementModel>,
    rest: Seq<(ValueModel, Seq<StatementModel>)>,
) -> Seq<(ValueModel, Seq<StatementModel>)> {
    seq![(condition, body)] + rest
}

/// An `if` runs the first of its branches whose condition is truthy; where none is, it
/// runs its last resort. Conditions behind the first truthy one need not be worth anything.
pub proof fn branch_runs(
    h: Host,
    s: MachineModel,
    condition: ValueModel,
    then_branch: Seq<StatementModel>,
    else_if_branches: Seq<(ValueModel, Seq<StatementModel>)>,
    else_branch: Option<Seq<StatementModel>>,
    tests: Seq<ValueModel>,
    k: int,
)
    requires
        ({
            let all = branches(condition, then_branch, else_if_branches);
            &&& 0 <= k <= all.len()
            &&& tests.len() == all.len()
            &&& forall|i: int|
                0 <= i < all.len() && i <= k ==> value_of(h, s.rt, s.scope, (#[trigger] all[i]).0) == Some(tests[i])
        }),
        forall|i: int| 0 <= i < k ==> !truthy(#[trigger] tests[i]),
        k < tests.len() ==> truthy(tests[k]),
    ensures
        reaches(
            h,
            executing(s, StatementModel::If { condition, then_branch, else_if_branches, else_branch }),
            if k < tests.len() {
                running(idle(s), branches(condition, then_branch, else_if_branches)[k].1)
            } else {
                run_if_any(idle(s), else_branch)
            },
        ),
{
    let st = StatementModel::If { condition, then_branch, else_if_branches, else_branch };
    let all = branches(condition, then_branch, else_if_branches);
    let goal = if k < tests.len() {
        running(idle(s), all[k].1)
    } else {
        run_if_any(idle(s), else_branch)
    };
    assert(all[0] == (condition, then_branch));
    lemma_branches(h, idle(s), all, else_if_branches, else_branch, tests, 0, k, goal);
    lemma_first_step(h, executing(s, st), goal);
}

proof fn lemma_branches(
    h: Host,
    s: MachineModel,
    all: Seq<(ValueModel, Seq<StatementModel>)>,
    rest: Seq<(ValueModel, Seq<StatementModel>)>,
    otherwise: Option<Seq<StatementModel>>,
    tests: Seq<ValueModel>,
    next: int,
    k: int,
    goal: MachineModel,
)
    requires
        s.focus is Done,
        0 <= next <= k <= all.len(),
        next < all.len(),
        all.len() == tests.len() == rest.len() + 1,
        forall|i: int| 0 < i < all.len() ==> (#[trigger] all[i]) == rest[i - 1],
        forall|i: int|
            0 <= i < all.len() && i <= k ==> value_of(h, s.rt, s.scope, (#[trigger] all[i]).0) == Some(tests[i]),
        forall|i: int| 0 <= i < k ==> !truthy(#[trigger] tests[i]),
        k < tests.len() ==> truthy(tests[k]),
        goal == (if k < tests.len() {
            running(s, all[k].1)
        } else {
            run_if_any(s, otherwise)
        }),
    ensures
        reaches(
            h,
            evaluating(pushed(s, FrameModel::Branch { body: all[next].1, rest, next, otherwise }), all[next].0),
            goal,
        ),
    decreases all.len() - next,
{
    let frame = FrameModel::Branch { body: all[next].1, rest, next, otherwise };
    assert(idle(s) == s);
    if next == k || next + 1 == all.len() {
        lemma_start(h, goal);
        assert(value_step(s, frame, tests[next]) == goal);
    } else {
        lemma_branches(h, s, all, rest, otherwise, tests, next + 1, k, goal);
        assert(all[next + 1] == rest[next]);
    }
    lemma_under(h, s, frame, all[next].0, tests[next], goal);
}

/// A `switch` runs the body of the first case that strictly equals its subject, and
/// nothing else; where no case does, it runs its default. Cases behind the first equal
/// one need not be worth anything.
pub proof fn switch_runs_first_match(
    h: Host,
    s: MachineModel,
    scrutinee: ValueModel,
    subject: ValueModel,
    cases: Seq<(ValueModel, Seq<StatementModel>)>,
    worths: Seq<ValueModel>,
    k: int,
    default: Option<Seq<StatementModel>>,
)
    requires
        value_of(h, s.rt, s.scope, scrutinee) == Some(subject),
        0 <= k <= cases.len() == worths.len(),
        forall|i: int|
            0 <= i < cases.len() && i <= k ==> value_of(h, s.rt, s.scope, (#[trigger] cases[i]).0) == Some(worths[i]),
        forall|i: int| 0 <= i < k ==> !strictly_equal(subject, #[trigger] worths[i]),
        k < cases.len() ==> strictly_equal(subject, worths[k]),
    ensures
        reaches(
            h,
            executing(s, StatementModel::Switch { scrutinee: Box::new(scrutinee), cases, default }),
            if k < cases.len() {
                running(idle(s), cases[k].1)
            } else {
                run_if_any(idle(s), default)
            },
        ),
{
    let st = StatementModel::Switch { scrutinee: Box::new(scrutinee), cases, default };
    let q = idle(s);
    let goal = if k < cases.len() {
        running(q, cases[k].1)
    } else {
        run_if_any(q, default)
    };
    lemma_cases(h, q, subject, cases, worths, 0, k, default, goal);
    lemma_under(h, q, FrameModel::Switch { cases, default }, scrutinee, subject, goal);
    lemma_first_step(h, executing(s, st), goal);
}

proof fn lemma_cases(
    h: Host,
    s: MachineModel,
    subject: ValueModel,
    cases: Seq<(ValueModel, Seq<StatementModel>)>,
    worths: Seq<ValueModel>,
    next: int,
    k: int,
    default: Option<Seq<StatementModel>>,
    goal: MachineModel,
)
    requires
        s.focus is Done,
        0 <= next <= k <= cases.len() == worths.len(),
        forall|i: int|
            0 <= i < cases.len() && i <= k ==> value_of(h, s.rt, s.scope, (#[trigger] cases[i]).0) == Some(worths[i]),
        forall|i: int| 0 <= i < k ==> !strictly_equal(subject, #[trigger] worths[i]),
        k < cases.len() ==> strictly_equal(subject, worths[k]),
        goal == (if k < cases.len() {
            running(s, cases[k].1)
        } else {
            run_if_any(s, default)
        }),
    ensures
        reaches(h, case_step(s, subject, cases, next, default), goal),
    decreases cases.len() - next,
{
    assert(idle(s) == s);
    if next < cases.len() {
        let frame = FrameModel::Case { subject, cases, next, default };
        if next == k {
            lemma_start(h, goal);
            assert(value_step(s, frame, worths[next]) == goal);
        } else {
            lemma_cases(h, s, subject, cases, worths, next + 1, k, default, goal);
        }
        lemma_under(h, s, frame, cases[next].0, worths[next], goal);
    } else {
        lemma_start(h, goal);
    }
}

/// A block runs its statements one after the other: the states that lie between
/// them join up.
pub proof fn block_runs_in_order(
    h: Host,
    states: Seq<MachineModel>,
    body: Seq<StatementModel>,
    k: int,
)
    requires
        0 <= k <= body.len(),
        states.len() == body.len() + 1,
        forall|i: int| 0 <= i < states.len() ==> (#[trigger] states[i]).focus is Done,
        forall|i: int|
            0 <= i < body.len() ==> reaches(
                h,
                executing(pushed(#[trigger] states[i], FrameModel::Block { statements: body, next: i + 1 }), body[i]),
                flowing(
                    pushed(states[i + 1], FrameModel::Block { statements: body, next: i + 1 }),
                    FlowModel::Normal,
                ),
            ),
    ensures
        reaches(
            h,
            flowing(pushed(states[k], FrameModel::Block { statements: body, next: k }), FlowModel::Normal),
            flowing(states[body.len() as int], FlowModel::Normal),
        ),
    decreases body.len() - k,
{
    let frame = FrameModel::Block { statements: body, next: k };
    let a = flowing(pushed(states[k], frame), FlowModel::Normal);
    let goal = flowing(states[body.len() as int], FlowModel::Normal);
    assert(a.stack.drop_last() =~= states[k].stack);
    assert(states[k].focus is Done);
    assert(popped(idle(a)) == states[k]);
    if k < body.len() {
        let next = FrameModel::Block { statements: body, next: k + 1 };
        let b = executing(pushed(states[k], next), body[k]);
        let c = flowing(pushed(states[k + 1], next), FlowModel::Normal);
        assert(step(a) == b);
        block_runs_in_order(h, states, body, k + 1);
        ways_join(h, b, c, goal);
        lemma_first_step(h, a, goal);
    } else {
        assert(step(a) == goal);
        lemma_start(h, goal);
        lemma_first_step(h, a, goal);
    }
}

} // verus!
