//! What assignments to properties and elements come to.

use crate::ast::{BinaryOperator, StatementModel, TargetModel, ValueModel};
use crate::calling::executing;
use crate::draft::{FailureModel, FaultModel, PlanModel};
use crate::flows::{passed, passes};
use crate::meaning::{
    lemma_first_step, lemma_offered, lemma_start, lemma_under, reaches, value_of, ways_join, worked, Host,
};
use crate::operators::binary_result;
use crate::runtime::{scoped, RuntimeModel, ScopeModel};
use crate::semantics::{
    evaluating, failed, faulty, focused, given, no_index, no_place, place_named, pushed, slot_value, undeclared,
    unknown_property, variable_written, wrong_value,
};
use crate::state::{FlowModel, FocusModel, FrameModel, MachineModel};
use crate::steps::{fault_step, idle, popped, step, value_step};
use crate::table::{lookup, put, put_then_lookup};
use vstd::prelude::*;

verus! {

/// What stands at a place of a container.
pub open spec fn element_read(container: ValueModel, i: int) -> Result<ValueModel, FailureModel> {
    match container {
        ValueModel::Array(items) => if i < items.len() {
            Ok(items[i])
        } else {
            Err(no_index(i))
        },
        ValueModel::String(t) => if i < t.len() {
            Ok(ValueModel::String(seq![t[i]]))
        } else {
            Err(no_index(i))
        },
        other => Err(wrong_value("Index requires an array or string, got "@, other)),
    }
}

/// The place that an index expression names.
pub open spec fn place_of(h: Host, rt: RuntimeModel, scope: ScopeModel, index: ValueModel) -> Option<int> {
    match value_of(h, rt, scope, index) {
        Some(i) => place_named(i),
        None => None,
    }
}

/// What a target holds.
pub open spec fn target_read(h: Host, rt: RuntimeModel, scope: ScopeModel, target: TargetModel) -> Result<
    ValueModel,
    FailureModel,
>
    decreases target,
{
    match target {
        TargetModel::Var(name) => match scoped(rt, scope, name) {
            Some(v) => Ok(v),
            None => Err(undeclared(name)),
        },
        TargetModel::Property { target: inner, key } => match target_read(h, rt, scope, *inner) {
            Err(e) => Err(e),
            Ok(ValueModel::Object(t)) => match lookup(t, key) {
                Some(v) => Ok(v),
                None => Err(unknown_property(key)),
            },
            Ok(other) => Err(wrong_value("Property access requires an object, got "@, other)),
        },
        TargetModel::Index { target: inner, index } => match target_read(h, rt, scope, *inner) {
            Err(e) => Err(e),
            Ok(container) => match place_of(h, rt, scope, *index) {
                None => Err(no_place()),
                Some(i) => element_read(container, i),
            },
        },
    }
}

/// The variable that a write at a target comes to, and its new value as a whole.
pub open spec fn target_write(
    h: Host,
    rt: RuntimeModel,
    scope: ScopeModel,
    target: TargetModel,
    v: ValueModel,
) -> Result<(Seq<char>, ValueModel), FailureModel>
    decreases target,
{
    match target {
        TargetModel::Var(name) => Ok((name, v)),
        TargetModel::Property { target: inner, key } => match target_read(h, rt, scope, *inner) {
            Err(e) => Err(e),
            Ok(ValueModel::Object(t)) => target_write(h, rt, scope, *inner, ValueModel::Object(put(t, key, v))),
            Ok(other) => Err(wrong_value("Property access requires an object, got "@, other)),
        },
        TargetModel::Index { target: inner, index } => match place_of(h, rt, scope, *index) {
            None => Err(no_place()),
            Some(i) => match target_read(h, rt, scope, *inner) {
                Err(e) => Err(e),
                Ok(ValueModel::Array(items)) => if i < items.len() {
                    target_write(h, rt, scope, *inner, ValueModel::Array(items.update(i, v)))
                } else {
                    Err(no_index(i))
                },
                Ok(ValueModel::String(_)) => Err(
                    crate::draft::throw_text("TypeError"@, "cannot assign into string characters"@),
                ),
                Ok(other) => Err(wrong_value("Index requires an array or string, got "@, other)),
            },
        },
    }
}

/// Whether every index of a target is worth something.
pub open spec fn indices_worth(h: Host, rt: RuntimeModel, scope: ScopeModel, target: TargetModel) -> bool
    decreases target,
{
    match target {
        TargetModel::Var(_) => true,
        TargetModel::Property { target: inner, .. } => indices_worth(h, rt, scope, *inner),
        TargetModel::Index { target: inner, index } => indices_worth(h, rt, scope, *inner) && value_of(
            h,
            rt,
            scope,
            *index,
        ) is Some,
    }
}

/// Whether every index of a target is a number as it stands.
pub open spec fn steady(target: TargetModel) -> bool
    decreases target,
{
    match target {
        TargetModel::Var(_) => true,
        TargetModel::Property { target: inner, .. } => steady(*inner),
        TargetModel::Index { target: inner, index } => steady(*inner) && *index is Number,
    }
}

proof fn lemma_steady(h: Host, rt: RuntimeModel, scope: ScopeModel, target: TargetModel)
    requires
        steady(target),
    ensures
        indices_worth(h, rt, scope, target),
    decreases target,
{
    match target {
        TargetModel::Var(_) => {},
        TargetModel::Property { target: inner, .. } => {
            lemma_steady(h, rt, scope, *inner);
        },
        TargetModel::Index { target: inner, .. } => {
            lemma_steady(h, rt, scope, *inner);
        },
    }
}

/// The fault that a failure becomes when its message is written.
pub open spec fn fault_of(h: Host, e: FailureModel) -> FaultModel {
    match e {
        FailureModel::Fatal(m) => FaultModel::Fatal(m),
        FailureModel::Throw { error_type, message } => FaultModel::Throw(
            ValueModel::Error {
                error_type,
                message: match worked(h, PlanModel::Text(message)) {
                    ValueModel::String(m) => m,
                    _ => seq![],
                },
            },
        ),
    }
}

/// A failure becomes its fault and changes nothing else.
pub proof fn failure_becomes_fault(h: Host, s: MachineModel, e: FailureModel)
    ensures
        reaches(h, failed(s, e), faulty(s, fault_of(h, e))),
{
    let goal = faulty(s, fault_of(h, e));
    lemma_start(h, goal);
    if let FailureModel::Throw { error_type, message } = e {
        let p = PlanModel::Text(message);
        let t = pushed(s, FrameModel::Raise(error_type));
        let x = worked(h, p);
        lemma_offered(h, t, p);
        let a = given(t, x);
        assert(a.stack.drop_last() =~= s.stack);
        assert(popped(idle(a)) == idle(s));
        assert(step(a) == goal);
        lemma_first_step(h, a, goal);
        ways_join(h, failed(s, e), a, goal);
    }
}

/// A fault that meets a frame of an assignment drops it.
proof fn lemma_dropped(h: Host, s: MachineModel, frame: FrameModel, f: FaultModel)
    requires
        passes(frame),
        passed(s, frame) == s,
        !(frame is Guard || frame is Body || frame is Catch),
    ensures
        reaches(h, faulty(pushed(s, frame), f), faulty(s, f)),
{
    let a = faulty(pushed(s, frame), f);
    let goal = faulty(s, f);
    assert(a.stack.drop_last() =~= s.stack);
    assert(popped(idle(a)) == idle(s));
    assert(fault_step(idle(s), frame, f) == goal);
    assert(step(a) == goal);
    lemma_start(h, goal);
    lemma_first_step(h, a, goal);
}

/// A value meets the frame that waits for it.
proof fn lemma_meets(h: Host, s: MachineModel, frame: FrameModel, x: ValueModel, goal: MachineModel)
    requires
        s.focus is Done,
        reaches(h, value_step(s, frame, x), goal),
    ensures
        reaches(h, given(pushed(s, frame), x), goal),
{
    let a = given(pushed(s, frame), x);
    assert(a.stack.drop_last() =~= s.stack);
    assert(idle(s) == s);
    assert(popped(idle(a)) == s);
    lemma_first_step(h, a, goal);
}

/// The read of a target under a frame: what the frame gets, or the fault.
proof fn lemma_read_under(
    h: Host,
    s: MachineModel,
    frame: FrameModel,
    target: TargetModel,
    goal: MachineModel,
)
    requires
        s.focus is Done,
        indices_worth(h, s.rt, s.scope, target),
        passes(frame),
        !(frame is Guard || frame is Body || frame is Catch),
        match target_read(h, s.rt, s.scope, target) {
            Ok(x) => reaches(h, value_step(s, frame, x), goal),
            Err(e) => goal == faulty(s, fault_of(h, e)),
        },
    ensures
        reaches(h, focused(pushed(s, frame), FocusModel::Read(target)), goal),
    decreases target, 1int,
{
    let t = pushed(s, frame);
    target_is_read(h, t, target);
    let a = focused(t, FocusModel::Read(target));
    match target_read(h, s.rt, s.scope, target) {
        Ok(x) => {
            lemma_meets(h, s, frame, x, goal);
            ways_join(h, a, given(t, x), goal);
        },
        Err(e) => {
            lemma_dropped(h, s, frame, fault_of(h, e));
            ways_join(h, a, faulty(t, fault_of(h, e)), goal);
        },
    }
}

/// The machine reads what a target holds, or ends in the fault that says what is
/// wrong, and changes nothing on the way.
pub proof fn target_is_read(h: Host, s: MachineModel, target: TargetModel)
    requires
        s.focus is Done,
        indices_worth(h, s.rt, s.scope, target),
    ensures
        reaches(
            h,
            focused(s, FocusModel::Read(target)),
            match target_read(h, s.rt, s.scope, target) {
                Ok(v) => given(s, v),
                Err(e) => faulty(s, fault_of(h, e)),
            },
        ),
    decreases target, 0int,
{
    let goal = match target_read(h, s.rt, s.scope, target) {
        Ok(v) => given(s, v),
        Err(e) => faulty(s, fault_of(h, e)),
    };
    let a = focused(s, FocusModel::Read(target));
    assert(idle(a) == s);
    lemma_start(h, goal);
    match target {
        TargetModel::Var(name) => {
            failure_becomes_fault(h, s, undeclared(name));
        },
        TargetModel::Property { target: inner, key } => {
            let frame = FrameModel::TargetProperty(key);
            if let Ok(c) = target_read(h, s.rt, s.scope, *inner) {
                failure_becomes_fault(h, s, unknown_property(key));
                failure_becomes_fault(h, s, wrong_value("Property access requires an object, got "@, c));
            }
            lemma_read_under(h, s, frame, *inner, goal);
        },
        TargetModel::Index { target: inner, index } => {
            let frame = FrameModel::TargetIndex(*index);
            if let Ok(c) = target_read(h, s.rt, s.scope, *inner) {
                let i = value_of(h, s.rt, s.scope, *index)->0;
                lemma_element_read(h, s, c, i, goal);
                assert(value_step(s, frame, c) == evaluating(pushed(s, FrameModel::TargetAt(c)), *index));
                assert(idle(s) == s);
                lemma_under(h, s, FrameModel::TargetAt(c), *index, i, goal);
            }
            lemma_read_under(h, s, frame, *inner, goal);
        },
    }
    lemma_first_step(h, a, goal);
}

proof fn lemma_element_read(h: Host, s: MachineModel, c: ValueModel, i: ValueModel, goal: MachineModel)
    requires
        s.focus is Done,
        goal == (match place_named(i) {
            None => faulty(s, fault_of(h, no_place())),
            Some(k) => match element_read(c, k) {
                Ok(v) => given(s, v),
                Err(e) => faulty(s, fault_of(h, e)),
            },
        }),
    ensures
        reaches(h, value_step(s, FrameModel::TargetAt(c), i), goal),
{
    lemma_start(h, goal);
    failure_becomes_fault(h, s, no_place());
    if let Some(k) = place_named(i) {
        failure_becomes_fault(h, s, no_index(k));
        failure_becomes_fault(h, s, wrong_value("Index requires an array or string, got "@, c));
    }
}

/// Where a write at a target ends: in the write of the variable, or in the fault.
pub open spec fn write_goal(h: Host, s: MachineModel, target: TargetModel, v: ValueModel) -> MachineModel {
    match target_write(h, s.rt, s.scope, target, v) {
        Ok((name, w)) => variable_written(s, name, w),
        Err(e) => faulty(s, fault_of(h, e)),
    }
}

/// The place that an index names fits in 64 bits.
proof fn lemma_place_fits(index: ValueModel)
    ensures
        place_named(index) matches Some(i) ==> 0 <= i <= u64::MAX,
{
    if let ValueModel::Number(n) = index {
        if crate::number::index_of(n) is Some {
            crate::number::lemma_whole_size(n);
        }
    }
}

/// The machine writes at a target by writing the variable that holds it, as a
/// whole, or ends in the fault that says what is wrong, with nothing changed.
pub proof fn target_is_written(h: Host, s: MachineModel, target: TargetModel, v: ValueModel)
    requires
        s.focus is Done,
        indices_worth(h, s.rt, s.scope, target),
    ensures
        reaches(h, focused(s, FocusModel::Write(target, v)), write_goal(h, s, target, v)),
    decreases target, 0int,
{
    let goal = write_goal(h, s, target, v);
    let a = focused(s, FocusModel::Write(target, v));
    assert(idle(a) == s);
    lemma_start(h, goal);
    match target {
        TargetModel::Var(name) => {},
        TargetModel::Property { target: inner, key } => {
            let frame = FrameModel::WriteProperty { inner: *inner, key, value: v };
            if let Ok(c) = target_read(h, s.rt, s.scope, *inner) {
                failure_becomes_fault(h, s, wrong_value("Property access requires an object, got "@, c));
                if let ValueModel::Object(t) = c {
                    target_is_written(h, s, *inner, ValueModel::Object(put(t, key, v)));
                }
            }
            lemma_read_under(h, s, frame, *inner, goal);
        },
        TargetModel::Index { target: inner, index } => {
            let frame = FrameModel::WriteIndex { inner: *inner, value: v };
            let i = value_of(h, s.rt, s.scope, *index)->0;
            lemma_index_written(h, s, *inner, *index, i, v);
            assert(idle(s) == s);
            lemma_under(h, s, frame, *index, i, goal);
        },
    }
    lemma_first_step(h, a, goal);
}

proof fn lemma_index_written(
    h: Host,
    s: MachineModel,
    inner: TargetModel,
    index: ValueModel,
    i: ValueModel,
    v: ValueModel,
)
    requires
        s.focus is Done,
        indices_worth(h, s.rt, s.scope, inner),
        value_of(h, s.rt, s.scope, index) == Some(i),
    ensures
        reaches(
            h,
            value_step(s, FrameModel::WriteIndex { inner, value: v }, i),
            write_goal(h, s, TargetModel::Index { target: Box::new(inner), index: Box::new(index) }, v),
        ),
    decreases inner, 2int,
{
    let target = TargetModel::Index { target: Box::new(inner), index: Box::new(index) };
    let goal = write_goal(h, s, target, v);
    lemma_place_fits(i);
    match place_named(i) {
        None => {
            failure_becomes_fault(h, s, no_place());
            assert(value_step(s, FrameModel::WriteIndex { inner, value: v }, i) == failed(s, no_place()));
        },
        Some(k) => {
            let frame = FrameModel::WriteAt { inner, index: k as u64, value: v };
            assert(value_step(s, FrameModel::WriteIndex { inner, value: v }, i) == focused(
                pushed(s, frame),
                FocusModel::Read(inner),
            ));
            if let Ok(c) = target_read(h, s.rt, s.scope, inner) {
                lemma_element_written(h, s, inner, k, c, v);
                assert(goal == element_goal(h, s, inner, k, c, v));
            }
            lemma_read_under(h, s, frame, inner, goal);
        },
    }
}

/// Where the write of an element of a container ends.
spec fn element_goal(
    h: Host,
    s: MachineModel,
    inner: TargetModel,
    k: int,
    c: ValueModel,
    v: ValueModel,
) -> MachineModel {
    match c {
        ValueModel::Array(items) => if k < items.len() {
            write_goal(h, s, inner, ValueModel::Array(items.update(k, v)))
        } else {
            faulty(s, fault_of(h, no_index(k)))
        },
        ValueModel::String(_) => faulty(
            s,
            fault_of(h, crate::draft::throw_text("TypeError"@, "cannot assign into string characters"@)),
        ),
        other => faulty(s, fault_of(h, wrong_value("Index requires an array or string, got "@, other))),
    }
}

proof fn lemma_element_written(
    h: Host,
    s: MachineModel,
    inner: TargetModel,
    k: int,
    c: ValueModel,
    v: ValueModel,
)
    requires
        s.focus is Done,
        indices_worth(h, s.rt, s.scope, inner),
        0 <= k <= u64::MAX,
    ensures
        reaches(
            h,
            value_step(s, FrameModel::WriteAt { inner, index: k as u64, value: v }, c),
            element_goal(h, s, inner, k, c, v),
        ),
    decreases inner, 1int,
{
    let frame = FrameModel::WriteAt { inner, index: k as u64, value: v };
    let e = match c {
        ValueModel::Array(items) => no_index(k),
        ValueModel::String(_) => crate::draft::throw_text("TypeError"@, "cannot assign into string characters"@),
        other => wrong_value("Index requires an array or string, got "@, other),
    };
    failure_becomes_fault(h, s, e);
    match c {
        ValueModel::Array(items) => {
            if k < items.len() {
                target_is_written(h, s, inner, ValueModel::Array(items.update(k, v)));
                assert(value_step(s, frame, c) == focused(
                    s,
                    FocusModel::Write(inner, ValueModel::Array(items.update(k, v))),
                ));
            } else {
                assert(value_step(s, frame, c) == failed(s, e));
            }
        },
        _ => {
            assert(value_step(s, frame, c) == failed(s, e));
        },
    }
}

/// A target reads what was written at it, wherever its variable has the new value.
proof fn lemma_reads_back(
    h: Host,
    rt: RuntimeModel,
    scope: ScopeModel,
    rt2: RuntimeModel,
    scope2: ScopeModel,
    target: TargetModel,
    v: ValueModel,
)
    requires
        steady(target),
        target_write(h, rt, scope, target, v) matches Ok((name, w)) && scoped(rt2, scope2, name) == Some(w),
    ensures
        target_read(h, rt2, scope2, target) == Ok::<_, FailureModel>(v),
    decreases target,
{
    match target {
        TargetModel::Var(name) => {},
        TargetModel::Property { target: inner, key } => {
            if let Ok(ValueModel::Object(t)) = target_read(h, rt, scope, *inner) {
                lemma_reads_back(h, rt, scope, rt2, scope2, *inner, ValueModel::Object(put(t, key, v)));
                put_then_lookup(t, key, v, key);
            }
        },
        TargetModel::Index { target: inner, index } => {
            let k = place_of(h, rt, scope, *index)->0;
            lemma_place_fits(value_of(h, rt, scope, *index)->0);
            assert(value_of(h, rt, scope, *index) == value_of(h, rt2, scope2, *index));
            if let Ok(ValueModel::Array(items)) = target_read(h, rt, scope, *inner) {
                lemma_reads_back(h, rt, scope, rt2, scope2, *inner, ValueModel::Array(items.update(k, v)));
            }
        },
    }
}

/// After a write at a property or an element the same target reads the new value,
/// no variable but the one that holds it has changed, and no declared type has. The
/// variable is no widget slot, and the indices are numbers.
pub proof fn written_target_reads_back(
    h: Host,
    s: MachineModel,
    target: TargetModel,
    v: ValueModel,
    name: Seq<char>,
    w: ValueModel,
    other: Seq<char>,
)
    requires
        s.focus is Done,
        steady(target),
        target_write(h, s.rt, s.scope, target, v) == Ok::<_, FailureModel>((name, w)),
        scoped(s.rt, s.scope, name) is Some,
        slot_value(s, name, w) == Ok::<_, FailureModel>((s.rt, w)),
        other != "var."@ + name,
    ensures
        ({
            let t = variable_written(s, name, w);
            &&& reaches(h, focused(s, FocusModel::Write(target, v)), t)
            &&& t.focus == FocusModel::Flow(FlowModel::Normal)
            &&& t.stack == s.stack
            &&& reaches(h, focused(t, FocusModel::Read(target)), given(t, v))
            &&& lookup(t.scope.env, other) == lookup(s.scope.env, other)
            &&& forall|n: Seq<char>| n != name ==> #[trigger] scoped(t.rt, t.scope, n) == scoped(s.rt, s.scope, n)
            &&& t.scope.types == s.scope.types
        }),
{
    let t = variable_written(s, name, w);
    lemma_steady(h, s.rt, s.scope, target);
    target_is_written(h, s, target, v);
    crate::laws::assignment_then_read(s, name, w, name.push('x'));
    assert(name.push('x').len() != name.len());
    put_then_lookup(s.scope.env, "var."@ + name, w, other);
    assert forall|n: Seq<char>| n != name implies #[trigger] scoped(t.rt, t.scope, n) == scoped(s.rt, s.scope, n) by {
        crate::laws::assignment_then_read(s, name, w, n);
    }
    let q = idle(t);
    lemma_reads_back(h, s.rt, s.scope, q.rt, q.scope, target, v);
    lemma_steady(h, q.rt, q.scope, target);
    target_is_read(h, q, target);
    assert(focused(t, FocusModel::Read(target)) == focused(q, FocusModel::Read(target)));
    assert(given(t, v) == given(q, v));
}

/// A write that fails, whether the target is not there or the value does not fit,
/// changes nothing.
pub proof fn failed_write_changes_nothing(h: Host, s: MachineModel, target: TargetModel, v: ValueModel)
    requires
        s.focus is Done,
        indices_worth(h, s.rt, s.scope, target),
        match target_write(h, s.rt, s.scope, target, v) {
            Ok((name, w)) => scoped(s.rt, s.scope, name) is None || slot_value(s, name, w) is Err,
            Err(_) => true,
        },
    ensures
        exists|f: FaultModel| reaches(h, focused(s, FocusModel::Write(target, v)), #[trigger] faulty(s, f)),
{
    target_is_written(h, s, target, v);
    let a = focused(s, FocusModel::Write(target, v));
    match target_write(h, s.rt, s.scope, target, v) {
        Ok((name, w)) => {
            let e = if scoped(s.rt, s.scope, name) is None {
                undeclared(name)
            } else {
                slot_value(s, name, w)->Err_0
            };
            assert(variable_written(s, name, w) == failed(s, e));
            failure_becomes_fault(h, s, e);
            ways_join(h, a, failed(s, e), faulty(s, fault_of(h, e)));
        },
        Err(e) => {
            assert(reaches(h, a, faulty(s, fault_of(h, e))));
        },
    }
}

/// An assignment works its expression out, reads its target, combines the two where
/// it has an operator, and writes the result.
pub proof fn target_assignment_runs(
    h: Host,
    s: MachineModel,
    target: TargetModel,
    op: Option<BinaryOperator>,
    e: ValueModel,
    x: ValueModel,
    v: ValueModel,
)
    requires
        indices_worth(h, s.rt, s.scope, target),
        value_of(h, s.rt, s.scope, e) == Some(x),
        target_read(h, s.rt, s.scope, target) is Ok,
        match op {
            None => v == x,
            Some(o) => binary_result(target_read(h, s.rt, s.scope, target)->Ok_0, x, o) matches Ok(p) && v == worked(h, p),
        },
    ensures
        reaches(
            h,
            executing(s, StatementModel::Assign { target, op, value: Box::new(e) }),
            write_goal(h, idle(s), target, v),
        ),
{
    let st = StatementModel::Assign { target, op, value: Box::new(e) };
    let q = idle(s);
    assert(idle(q) == q);
    let goal = write_goal(h, q, target, v);
    let current = target_read(h, s.rt, s.scope, target)->Ok_0;
    target_is_written(h, q, target, v);
    let frame = FrameModel::AssignRead { target, op, value: x };
    if let Some(o) = op {
        let p = binary_result(current, x, o)->Ok_0;
        let t = pushed(q, FrameModel::AssignWrite(target));
        lemma_offered(h, t, p);
        lemma_meets(h, q, FrameModel::AssignWrite(target), v, goal);
        ways_join(h, crate::semantics::offered(t, p), given(t, v), goal);
        assert(value_step(q, frame, current) == crate::semantics::offered(t, p));
    } else {
        assert(value_step(q, frame, current) == focused(q, FocusModel::Write(target, v)));
    }
    lemma_read_under(h, q, frame, target, goal);
    let first = FrameModel::Assign { target, op };
    assert(value_step(q, first, x) == focused(pushed(q, frame), FocusModel::Read(target)));
    lemma_under(h, q, first, e, x, goal);
    assert(step(executing(s, st)) == evaluating(pushed(q, first), e));
    lemma_first_step(h, executing(s, st), goal);
}

} // verus!
