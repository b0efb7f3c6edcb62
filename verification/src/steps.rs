//! One step of the machine.

use crate::answers::db_outcome;
use crate::ast::ValueModel;
use crate::draft::{FaultModel, PlanModel};
use crate::imports::{
    declares_step, entry_flowed, entry_ready, events_step, fault_message, halted, import_ready, in_module, located,
    module_flowed, module_halted, source_read,
};
use crate::operators::{binary_result, unary_result};
use crate::request::{AnswerModel, RequestModel};
use crate::semantics::{
    bound, branch_taken, case_step, caught, defined, each_started, each_step, element_at, element_written, eval_step,
    evaluating, exec_step, failed, faulty, flowing, focused, given, index_written, list_step, offered, out_of_order,
    planned, property_of, property_written, pushed, raised, range_ended, range_started, range_step, read_step, running,
    shadowed, stray_break, stray_continue, stray_return, target_at, target_property, unshadowed, while_step, with_depth,
    with_parameter, write_step,
};
use crate::show::{shown, strictly_equal, truthy};
use crate::state::{EventModel, FlowModel, FocusModel, FrameModel, HaltModel, MachineModel, WaitModel};
use crate::windows::{handlers_step, window_answered, window_faulted, window_valued};
use vstd::prelude::*;

verus! {

/// One call less.
pub open spec fn guard_left(s: MachineModel) -> MachineModel {
    with_depth(
        s,
        if s.rt.call_depth > 0 {
            s.rt.call_depth - 1
        } else {
            0
        },
    )
}

/// A value meets the frame that waits for it.
pub open spec fn value_step(s: MachineModel, frame: FrameModel, v: ValueModel) -> MachineModel {
    match frame {
        FrameModel::Args { purpose, items, next, done } => list_step(s, purpose, items, next, done.push(v)),
        FrameModel::Property(key) => property_of(s, v, key),
        FrameModel::IndexTarget(index) => evaluating(pushed(s, FrameModel::IndexAt(v)), index),
        FrameModel::IndexAt(target) => element_at(s, target, v),
        FrameModel::Left { op, right } => evaluating(pushed(s, FrameModel::Right { op, left: v }), right),
        FrameModel::Right { op, left } => planned(s, binary_result(left, v, op)),
        FrameModel::Unary(op) => planned(s, unary_result(v, op)),
        FrameModel::Raise(error_type) => raised(s, error_type, v),
        FrameModel::Define { name, declared, global } => defined(s, name, declared, global, v),
        FrameModel::Discard => flowing(s, FlowModel::Normal),
        FrameModel::Assign { target, op } => focused(
            pushed(s, FrameModel::AssignRead { target, op, value: v }),
            FocusModel::Read(target),
        ),
        FrameModel::AssignRead { target, op, value } => match op {
            None => focused(s, FocusModel::Write(target, value)),
            Some(o) => planned(pushed(s, FrameModel::AssignWrite(target)), binary_result(v, value, o)),
        },
        FrameModel::AssignWrite(target) => focused(s, FocusModel::Write(target, v)),
        FrameModel::TargetProperty(key) => target_property(s, v, key),
        FrameModel::TargetIndex(index) => evaluating(pushed(s, FrameModel::TargetAt(v)), index),
        FrameModel::TargetAt(container) => target_at(s, container, v),
        FrameModel::WriteProperty { inner, key, value } => property_written(s, inner, key, value, v),
        FrameModel::WriteIndex { inner, value } => index_written(s, inner, value, v),
        FrameModel::WriteAt { inner, index, value } => element_written(s, inner, index, value, v),
        FrameModel::Switch { cases, default } => case_step(s, v, cases, 0, default),
        FrameModel::Case { subject, cases, next, default } => if 0 <= next < cases.len() && strictly_equal(subject, v) {
            running(s, cases[next].1)
        } else {
            case_step(s, subject, cases, next + 1, default)
        },
        FrameModel::Return => flowing(s, FlowModel::Return(v)),
        FrameModel::Throw(error_type) => offered(pushed(s, FrameModel::Raise(error_type)), PlanModel::Text(shown(v))),
        FrameModel::Branch { body, rest, next, otherwise } => branch_taken(s, v, body, rest, next, otherwise),
        FrameModel::WhileTest { condition, body, count } => if truthy(v) {
            running(pushed(s, FrameModel::WhileBody { condition, body, count }), body)
        } else {
            flowing(s, FlowModel::Normal)
        },
        FrameModel::RangeStart { var, end, body } => range_started(s, v, var, end, body),
        FrameModel::RangeEnd { var, start, body } => range_ended(s, v, var, start, body),
        FrameModel::RangeItem { shadow, body, at, end } => running(
            pushed(shadowed(s, shadow, v), FrameModel::RangeBody { shadow, body, at, end }),
            body,
        ),
        FrameModel::EachStart { var, body } => each_started(s, v, var, body),
        FrameModel::Guard => given(guard_left(s), v),
        FrameModel::Bind { call, next } => if 0 <= next < call.params.len() {
            bound(s, with_parameter(call, call.params[next], v), next + 1)
        } else {
            out_of_order(s)
        },
        FrameModel::Handlers { list, next, handle, event } => handlers_step(s, list, next, handle, event),
        FrameModel::Window(w) => window_valued(s, w),
        FrameModel::Declares { list, next, directory } => declares_step(s, list, next, directory),
        FrameModel::Import(m) => import_ready(s, m),
        FrameModel::Entry { statements, next } => entry_ready(s, statements),
        _ => out_of_order(s),
    }
}

/// What a loop does with the end of its body: the next turn, or its own end.
pub open spec fn loop_flow(f: FlowModel) -> Option<FlowModel> {
    match f {
        FlowModel::Normal => None,
        FlowModel::Continue => None,
        FlowModel::Break => Some(FlowModel::Normal),
        FlowModel::Return(v) => Some(FlowModel::Return(v)),
    }
}

/// The end of a statement meets the frame that waits for it.
pub open spec fn flow_step(s: MachineModel, frame: FrameModel, f: FlowModel) -> MachineModel {
    match frame {
        FrameModel::Block { statements, next } => if f is Normal && next < statements.len() {
            focused(
                pushed(s, FrameModel::Block { statements, next: next + 1 }),
                FocusModel::Exec(statements[next]),
            )
        } else {
            flowing(s, f)
        },
        FrameModel::WhileBody { condition, body, count } => match loop_flow(f) {
            None => while_step(s, condition, body, count + 1),
            Some(g) => flowing(s, g),
        },
        FrameModel::RangeBody { shadow, body, at, end } => match loop_flow(f) {
            None => if at < end {
                range_step(s, shadow, body, (at + 1) as i64, end)
            } else {
                out_of_order(s)
            },
            Some(g) => flowing(unshadowed(s, shadow), g),
        },
        FrameModel::EachBody { shadow, body, items, next } => match loop_flow(f) {
            None => each_step(s, shadow, body, items, next),
            Some(g) => flowing(unshadowed(s, shadow), g),
        },
        FrameModel::Try(_) => flowing(s, f),
        FrameModel::Catch(shadow) => flowing(unshadowed(s, shadow), f),
        FrameModel::OnStart => match f {
            FlowModel::Normal => flowing(s, f),
            FlowModel::Break => failed(s, stray_break()),
            FlowModel::Continue => failed(s, stray_continue()),
            FlowModel::Return(_) => failed(s, stray_return()),
        },
        FrameModel::Body(saved) => {
            let t = MachineModel { scope: saved, ..s };
            match f {
                FlowModel::Normal => given(t, ValueModel::Null),
                FlowModel::Break => failed(t, stray_break()),
                FlowModel::Continue => failed(t, stray_continue()),
                FlowModel::Return(v) => given(t, v),
            }
        },
        FrameModel::Module(m) => module_flowed(s, m, f),
        FrameModel::Events { alias, path, events, next, saved, loaded } => events_step(
            s,
            alias,
            path,
            events,
            next,
            saved,
            loaded,
        ),
        FrameModel::Entry { statements, next } => entry_flowed(s, statements, next, f),
        FrameModel::Guard => out_of_order(guard_left(s)),
        _ => out_of_order(s),
    }
}

/// A fault meets a frame: most let it pass.
pub open spec fn fault_step(s: MachineModel, frame: FrameModel, f: FaultModel) -> MachineModel {
    match frame {
        FrameModel::Try(catches) => match f {
            FaultModel::Throw(err) => caught(s, catches, err),
            FaultModel::Fatal(_) => faulty(s, f),
        },
        FrameModel::Catch(shadow) => faulty(unshadowed(s, shadow), f),
        FrameModel::Guard => faulty(guard_left(s), f),
        FrameModel::Body(saved) => faulty(MachineModel { scope: saved, ..s }, f),
        FrameModel::Window(w) => window_faulted(s, w, f),
        FrameModel::Module(m) => module_halted(s, m, fault_message(f)),
        FrameModel::Events { path, saved, .. } => halted(
            MachineModel { scope: saved, ..s },
            in_module(path, fault_message(f)),
        ),
        FrameModel::Entry { .. } => halted(s, fault_message(f)),
        _ => faulty(s, f),
    }
}

/// A run that is given up leaves the scopes that it had entered.
pub open spec fn abort_step(s: MachineModel, frame: FrameModel, h: HaltModel) -> MachineModel {
    let t = match frame {
        FrameModel::Import(m) => MachineModel { scope: m.saved, ..s },
        FrameModel::Module(m) => MachineModel { scope: m.saved, ..s },
        FrameModel::Events { saved, .. } => MachineModel { scope: saved, ..s },
        FrameModel::Guard => guard_left(s),
        _ => s,
    };
    focused(t, FocusModel::Abort(h))
}

/// Whether the machine can go on by itself.
pub open spec fn can_step(s: MachineModel) -> bool {
    match s.focus {
        FocusModel::Eval(_) => true,
        FocusModel::Exec(_) => true,
        FocusModel::Read(_) => true,
        FocusModel::Write(_, _) => true,
        FocusModel::Await(_) => false,
        FocusModel::Done => false,
        _ => s.stack.len() > 0,
    }
}

/// The state with nothing in view.
pub open spec fn idle(s: MachineModel) -> MachineModel {
    focused(s, FocusModel::Done)
}

/// The state without its topmost frame.
pub open spec fn popped(s: MachineModel) -> MachineModel {
    MachineModel { stack: s.stack.drop_last(), ..s }
}

/// One step.
pub open spec fn step(s: MachineModel) -> MachineModel {
    match s.focus {
        FocusModel::Eval(v) => eval_step(idle(s), v),
        FocusModel::Exec(st) => exec_step(idle(s), st),
        FocusModel::Read(target) => read_step(idle(s), target),
        FocusModel::Write(target, v) => write_step(idle(s), target, v),
        FocusModel::Value(v) => if s.stack.len() > 0 {
            value_step(popped(idle(s)), s.stack.last(), v)
        } else {
            s
        },
        FocusModel::Flow(f) => if s.stack.len() > 0 {
            flow_step(popped(idle(s)), s.stack.last(), f)
        } else {
            s
        },
        FocusModel::Fault(f) => if s.stack.len() > 0 {
            fault_step(popped(idle(s)), s.stack.last(), f)
        } else {
            s
        },
        FocusModel::Abort(h) => if s.stack.len() > 0 {
            abort_step(popped(idle(s)), s.stack.last(), h)
        } else {
            s
        },
        FocusModel::Await(_) => s,
        FocusModel::Done => s,
    }
}

/// At most `n` steps, up to where the machine cannot go on by itself.
pub open spec fn steps(s: MachineModel, n: nat) -> MachineModel
    decreases n,
{
    if n == 0 || !can_step(s) {
        s
    } else {
        steps(step(s), (n - 1) as nat)
    }
}

/// What the host handed back meets what was asked for.
pub open spec fn answered(s: MachineModel, e: EventModel) -> MachineModel {
    match (s.focus, e) {
        (FocusModel::Await(WaitModel::Plan(_)), EventModel::Value(v)) => given(idle(s), v),
        (FocusModel::Await(WaitModel::Request(q)), EventModel::Answer(a)) => request_answered(idle(s), q, a),
        (FocusModel::Await(_), _) => out_of_order(idle(s)),
        _ => s,
    }
}

pub open spec fn request_answered(s: MachineModel, q: RequestModel, a: AnswerModel) -> MachineModel {
    match q {
        RequestModel::ShowWindow(_) => frame_answered(s, a),
        RequestModel::Locate { .. } => frame_answered(s, a),
        RequestModel::ReadSource(_) => frame_answered(s, a),
        _ => {
            let (rt, r) = db_outcome(s.rt, q, a);
            planned(MachineModel { rt, ..s }, r)
        },
    }
}

/// An answer that the topmost frame waits for.
pub open spec fn frame_answered(s: MachineModel, a: AnswerModel) -> MachineModel {
    if s.stack.len() == 0 {
        out_of_order(s)
    } else {
        match s.stack.last() {
            FrameModel::Window(w) => window_answered(popped(s), w, a),
            FrameModel::Locating { directory, raw, run } => located(popped(s), directory, raw, run, a),
            FrameModel::Reading { canonical, directory, alias, run } => source_read(
                popped(s),
                canonical,
                directory,
                alias,
                run,
                a,
            ),
            _ => out_of_order(s),
        }
    }
}

} // verus!
