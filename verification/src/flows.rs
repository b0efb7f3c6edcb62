//! What loops and errors come to, from their start to their end.

use crate::ast::{BinaryOperator, CatchModel, StatementModel, ValueModel};
use crate::calling::executing;
use crate::draft::{FaultModel, PlanModel};
use crate::meaning::{
    lemma_first_step, lemma_offered, lemma_start, lemma_under, reaches, value_of, ways_join, worked, Host,
};
use crate::operators::integer;
use crate::semantics::{
    caught, each_step, evaluating, faulty, flowing, given, offered, pushed, range_step, running, shadow_of, shadowed,
    unshadowed, while_step, MAX_LOOP_ITERS,
};
use crate::show::truthy;
use crate::state::{FlowModel, FrameModel, MachineModel, ShadowModel};
use crate::steps::{fault_step, guard_left, idle, popped, step, value_step};
use vstd::prelude::*;

verus! {

/// A loop over items runs its body once for each, in order: the states that lie
/// between the turns join up, and the borrowed variable is given back.
pub proof fn loop_visits_every_item(
    h: Host,
    states: Seq<MachineModel>,
    shadow: ShadowModel,
    body: Seq<StatementModel>,
    items: Seq<ValueModel>,
    k: int,
)
    requires
        0 <= k <= items.len(),
        states.len() == items.len() + 1,
        forall|i: int| 0 <= i < states.len() ==> (#[trigger] states[i]).focus is Done,
        forall|i: int|
            0 <= i < items.len() ==> reaches(
                h,
                running(
                    pushed(
                        shadowed(#[trigger] states[i], shadow, items[i]),
                        FrameModel::EachBody { shadow, body, items, next: i + 1 },
                    ),
                    body,
                ),
                flowing(
                    pushed(states[i + 1], FrameModel::EachBody { shadow, body, items, next: i + 1 }),
                    FlowModel::Normal,
                ),
            ),
    ensures
        reaches(
            h,
            each_step(states[k], shadow, body, items, k),
            flowing(unshadowed(states[items.len() as int], shadow), FlowModel::Normal),
        ),
    decreases items.len() - k,
{
    let goal = flowing(unshadowed(states[items.len() as int], shadow), FlowModel::Normal);
    assert(states[k].focus is Done);
    if k < items.len() {
        let frame = FrameModel::EachBody { shadow, body, items, next: k + 1 };
        let a = each_step(states[k], shadow, body, items, k);
        let b = flowing(pushed(states[k + 1], frame), FlowModel::Normal);
        assert(b.stack.drop_last() =~= states[k + 1].stack);
        assert(states[k + 1].focus is Done);
        assert(popped(idle(b)) == states[k + 1]);
        loop_visits_every_item(h, states, shadow, body, items, k + 1);
        assert(step(b) == each_step(states[k + 1], shadow, body, items, k + 1));
        lemma_first_step(h, b, goal);
        ways_join(h, a, b, goal);
    } else {
        lemma_start(h, goal);
    }
}

/// A `while` runs its body as long as its condition is truthy, up to its limit.
pub proof fn while_runs_while_truthy(
    h: Host,
    states: Seq<MachineModel>,
    condition: ValueModel,
    tests: Seq<ValueModel>,
    body: Seq<StatementModel>,
    k: int,
)
    requires
        0 <= k < states.len() <= MAX_LOOP_ITERS,
        tests.len() == states.len(),
        forall|i: int| 0 <= i < states.len() ==> (#[trigger] states[i]).focus is Done,
        forall|i: int|
            0 <= i < states.len() ==> value_of(h, (#[trigger] states[i]).rt, states[i].scope, condition) == Some(tests[i]),
        forall|i: int| 0 <= i < tests.len() ==> (truthy(#[trigger] tests[i]) <==> i < tests.len() - 1),
        forall|i: int|
            0 <= i < states.len() - 1 ==> reaches(
                h,
                running(pushed(#[trigger] states[i], FrameModel::WhileBody { condition, body, count: i }), body),
                flowing(pushed(states[i + 1], FrameModel::WhileBody { condition, body, count: i }), FlowModel::Normal),
            ),
    ensures
        reaches(
            h,
            while_step(states[k], condition, body, k),
            flowing(states[states.len() - 1], FlowModel::Normal),
        ),
    decreases states.len() - k,
{
    let s = states[k];
    let goal = flowing(states[states.len() - 1], FlowModel::Normal);
    let test = FrameModel::WhileTest { condition, body, count: k };
    assert(s.focus is Done);
    assert(idle(s) == s);
    assert(value_of(h, s.rt, s.scope, condition) == Some(tests[k]));
    assert(truthy(tests[k]) <==> k < tests.len() - 1);
    if k < states.len() - 1 {
        let frame = FrameModel::WhileBody { condition, body, count: k };
        let a = running(pushed(s, frame), body);
        let b = flowing(pushed(states[k + 1], frame), FlowModel::Normal);
        assert(b.stack.drop_last() =~= states[k + 1].stack);
        assert(states[k + 1].focus is Done);
        assert(popped(idle(b)) == states[k + 1]);
        while_runs_while_truthy(h, states, condition, tests, body, k + 1);
        assert(step(b) == while_step(states[k + 1], condition, body, k + 1));
        lemma_first_step(h, b, goal);
        ways_join(h, a, b, goal);
        assert(value_step(s, test, tests[k]) == a);
    } else {
        assert(value_step(s, test, tests[k]) == goal);
        lemma_start(h, goal);
    }
    lemma_under(h, s, test, condition, tests[k], goal);
}

/// A loop over a range runs its body once for each integer from its start on, its
/// end left out.
pub proof fn range_visits_every_integer(
    h: Host,
    states: Seq<MachineModel>,
    shadow: ShadowModel,
    body: Seq<StatementModel>,
    start: i64,
    end: i64,
    k: int,
)
    requires
        start <= end,
        0 <= k <= end - start,
        states.len() == end - start + 1,
        forall|i: int| 0 <= i < states.len() ==> (#[trigger] states[i]).focus is Done,
        forall|i: int|
            0 <= i < end - start ==> reaches(
                h,
                running(
                    pushed(
                        shadowed(#[trigger] states[i], shadow, worked(h, PlanModel::Integer((start + i) as i64))),
                        FrameModel::RangeBody { shadow, body, at: (start + i) as i64, end },
                    ),
                    body,
                ),
                flowing(
                    pushed(states[i + 1], FrameModel::RangeBody { shadow, body, at: (start + i) as i64, end }),
                    FlowModel::Normal,
                ),
            ),
    ensures
        reaches(
            h,
            range_step(states[k], shadow, body, (start + k) as i64, end),
            flowing(unshadowed(states[end - start], shadow), FlowModel::Normal),
        ),
    decreases end - start - k,
{
    let goal = flowing(unshadowed(states[end - start], shadow), FlowModel::Normal);
    let s = states[k];
    let n = (start + k) as i64;
    assert(s.focus is Done);
    assert(idle(s) == s);
    if k < end - start {
        let p = PlanModel::Integer(n);
        let x = worked(h, p);
        let item = FrameModel::RangeItem { shadow, body, at: n, end };
        let frame = FrameModel::RangeBody { shadow, body, at: n, end };
        let t = pushed(s, item);
        // The turn.
        let a = running(pushed(shadowed(s, shadow, x), frame), body);
        let b = flowing(pushed(states[k + 1], frame), FlowModel::Normal);
        assert(b.stack.drop_last() =~= states[k + 1].stack);
        assert(states[k + 1].focus is Done);
        assert(popped(idle(b)) == states[k + 1]);
        range_visits_every_integer(h, states, shadow, body, start, end, k + 1);
        assert(step(b) == range_step(states[k + 1], shadow, body, (start + k + 1) as i64, end));
        lemma_first_step(h, b, goal);
        ways_join(h, a, b, goal);
        // The number of the turn.
        let c = given(t, x);
        assert(c.stack.drop_last() =~= s.stack);
        assert(popped(idle(c)) == s);
        assert(step(c) == a);
        lemma_first_step(h, c, goal);
        lemma_offered(h, t, p);
        ways_join(h, offered(t, p), c, goal);
    } else {
        lemma_start(h, goal);
    }
}

/// A `for` over a range works its bounds out once, from left to right, before its
/// first turn.
pub proof fn range_loop_starts(
    h: Host,
    s: MachineModel,
    var: Seq<char>,
    left: ValueModel,
    right: ValueModel,
    a: u64,
    b: u64,
    body: Seq<StatementModel>,
)
    requires
        value_of(h, s.rt, s.scope, left) == Some(ValueModel::Number(a)),
        value_of(h, s.rt, s.scope, right) == Some(ValueModel::Number(b)),
        integer(a) is Ok,
        integer(b) is Ok,
    ensures
        reaches(
            h,
            executing(
                s,
                StatementModel::ForIn {
                    var,
                    iterable: ValueModel::Binary {
                        left: Box::new(left),
                        op: BinaryOperator::Range,
                        right: Box::new(right),
                    },
                    body,
                },
            ),
            range_step(
                idle(s),
                shadow_of(s, var),
                body,
                integer(a)->Ok_0 as i64,
                integer(b)->Ok_0 as i64,
            ),
        ),
{
    let q = idle(s);
    assert(idle(q) == q);
    let x = integer(a)->Ok_0 as i64;
    let goal = range_step(q, shadow_of(s, var), body, x, integer(b)->Ok_0 as i64);
    assert(shadow_of(q, var) == shadow_of(s, var));
    let last = FrameModel::RangeEnd { var, start: x, body };
    assert(value_step(q, last, ValueModel::Number(b)) == goal);
    lemma_start(h, goal);
    lemma_under(h, q, last, right, ValueModel::Number(b), goal);
    let first = FrameModel::RangeStart { var, end: right, body };
    assert(value_step(q, first, ValueModel::Number(a)) == evaluating(pushed(q, last), right));
    lemma_under(h, q, first, left, ValueModel::Number(a), goal);
    let iterable = ValueModel::Binary { left: Box::new(left), op: BinaryOperator::Range, right: Box::new(right) };
    let st = StatementModel::ForIn { var, iterable, body };
    assert(step(executing(s, st)) == evaluating(pushed(q, first), left));
    lemma_first_step(h, executing(s, st), goal);
}

/// Whether an error passes a frame.
pub open spec fn passes(f: FrameModel) -> bool {
    !(f is Try || f is Window || f is Module || f is Events || f is Entry)
}

/// What a fault leaves behind in a frame that it passes.
pub open spec fn passed(s: MachineModel, f: FrameModel) -> MachineModel {
    match f {
        FrameModel::Guard => guard_left(s),
        FrameModel::Body(saved) => MachineModel { scope: saved, ..s },
        FrameModel::Catch(shadow) => unshadowed(s, shadow),
        _ => s,
    }
}

/// The state after a fault has passed the frames above the first `n`.
pub open spec fn unwound(s: MachineModel, n: int) -> MachineModel
    decreases s.stack.len(),
{
    if 0 <= n < s.stack.len() {
        unwound(MachineModel { stack: s.stack.drop_last(), ..passed(s, s.stack.last()) }, n)
    } else {
        s
    }
}

/// A fault passes every frame that does not hold it, leaving the calls and
/// handlers on its way.
pub proof fn fault_unwinds(h: Host, s: MachineModel, n: int, f: FaultModel)
    requires
        s.focus is Done,
        0 <= n <= s.stack.len(),
        forall|i: int| n <= i < s.stack.len() ==> passes(#[trigger] s.stack[i]),
    ensures
        reaches(h, faulty(s, f), faulty(unwound(s, n), f)),
        unwound(s, n).stack == s.stack.take(n),
        unwound(s, n).focus is Done,
    decreases s.stack.len(),
{
    let goal = faulty(unwound(s, n), f);
    if n < s.stack.len() {
        let last = s.stack.last();
        let t = MachineModel { stack: s.stack.drop_last(), ..passed(s, last) };
        assert(passes(s.stack[s.stack.len() - 1]));
        assert(t.stack.take(n) =~= s.stack.take(n));
        fault_unwinds(h, t, n, f);
        assert(step(faulty(s, f)) == faulty(t, f)) by {
            assert(popped(idle(faulty(s, f))) == popped(s));
            assert(fault_step(popped(s), last, f) == faulty(t, f));
        }
        lemma_first_step(h, faulty(s, f), goal);
    } else {
        assert(s.stack.take(n) =~= s.stack);
        lemma_start(h, goal);
    }
}

/// An error thrown inside a `try`, at whatever depth, comes to the handlers of
/// that `try`, in the scope of the `try`.
pub proof fn error_reaches_its_try(h: Host, s: MachineModel, n: int, catches: Seq<CatchModel>, err: ValueModel)
    requires
        s.focus is Done,
        0 <= n < s.stack.len(),
        s.stack[n] == FrameModel::Try(catches),
        forall|i: int| n < i < s.stack.len() ==> passes(#[trigger] s.stack[i]),
    ensures
        reaches(
            h,
            faulty(s, FaultModel::Throw(err)),
            caught(
                (MachineModel { stack: s.stack.take(n), ..unwound(s, n + 1) }),
                catches,
                err,
            ),
        ),
{
    let f = FaultModel::Throw(err);
    fault_unwinds(h, s, n + 1, f);
    let u = unwound(s, n + 1);
    let a = faulty(u, f);
    let base = MachineModel { stack: s.stack.take(n), ..u };
    let goal = caught(base, catches, err);
    assert(u.stack.last() == FrameModel::Try(catches));
    assert(u.stack.drop_last() =~= s.stack.take(n));
    assert(popped(idle(a)) == base);
    assert(step(a) == goal);
    lemma_start(h, goal);
    lemma_first_step(h, a, goal);
    ways_join(h, faulty(s, f), a, goal);
}

} // verus!
