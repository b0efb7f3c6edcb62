//! Driving the machine: steps, answers, and the ways to start it.

use crate::answers::accept_db;
use crate::ast::{block, copy_block, text_opt, texts, values, ProgramModel, Statement, Value};
use crate::draft::{fatal_err, Plan, RuntimeFault};
use crate::grammar::{program, ParseError, ParseErrorModel};
use crate::imports::{message_of, name_module, program_run};
use crate::operators::{evaluate_binary, evaluate_unary};
use crate::parser::Parser;
use crate::request::{Answer, Request};
use crate::runtime::{empty_scope, fresh_runtime, ModuleRuntime, RuntimeModel, Scope};
use crate::semantics::{evaluating, focused};
use crate::show::{format_value, is_truthy, values_strict_equal};
use crate::state::{frames, Call, Event, Flow, Focus, FocusModel, Frame, FrameModel, Halt, Machine, MachineModel, Wait};
use crate::steps::{
    abort_step, answered, can_step, fault_step, flow_step, frame_answered, guard_left, idle, loop_flow, popped,
    request_answered, step, steps, value_step,
};
use crate::table::store;
use crate::windows::fired;
use vstd::prelude::*;

verus! {

impl Machine {
    fn leave_guard(&mut self)
        ensures
            final(self)@ == guard_left(old(self)@),
    {
        if self.rt.call_depth > 0 {
            self.rt.call_depth = self.rt.call_depth - 1;
        }
    }

    /// A value meets the frame that waits for it.
    fn take_value(&mut self, frame: Frame, v: Value)
        ensures
            final(self)@ == value_step(old(self)@, frame@, v@),
    {
        match frame {
            Frame::Args { purpose, items, next, done } => {
                let mut done = done;
                let ghost before = values(done@);
                let ghost model = v@;
                done.push(v);
                assert(values(done@) =~= before.push(model));
                self.list_on(purpose, items, next, done);
            },
            Frame::Property(key) => self.give_property(v, key),
            Frame::IndexTarget(index) => {
                self.push(Frame::IndexAt(v));
                self.evaluate(index);
            },
            Frame::IndexAt(target) => self.give_element_at(target, v),
            Frame::Left { op, right } => {
                self.push(Frame::Right { op, left: v });
                self.evaluate(right);
            },
            Frame::Right { op, left } => self.plan(evaluate_binary(&left, &v, op)),
            Frame::Unary(op) => self.plan(evaluate_unary(&v, op)),
            Frame::Raise(error_type) => self.raise(error_type, v),
            Frame::Define { name, declared, global } => self.define(name, declared, global, v),
            Frame::Discard => self.flow(Flow::Normal),
            Frame::Assign { target, op } => {
                let again = target.copy();
                self.push(Frame::AssignRead { target, op, value: v });
                self.turn(Focus::Read(again));
            },
            Frame::AssignRead { target, op, value } => match op {
                None => self.turn(Focus::Write(target, value)),
                Some(o) => {
                    self.push(Frame::AssignWrite(target));
                    self.plan(evaluate_binary(&v, &value, o));
                },
            },
            Frame::AssignWrite(target) => self.turn(Focus::Write(target, v)),
            Frame::TargetProperty(key) => self.read_property(v, key),
            Frame::TargetIndex(index) => {
                self.push(Frame::TargetAt(v));
                self.evaluate(index);
            },
            Frame::TargetAt(container) => self.read_element(container, v),
            Frame::WriteProperty { inner, key, value } => self.write_property(inner, key, value, v),
            Frame::WriteIndex { inner, value } => self.write_index(inner, value, v),
            Frame::WriteAt { inner, index, value } => self.write_element(inner, index, value, v),
            Frame::Switch { cases, default } => self.case_on(v, cases, 0, default),
            Frame::Case { subject, cases, next, default } => self.take_case(subject, cases, next, default, v),
            Frame::Return => self.flow(Flow::Return(v)),
            Frame::Throw(error_type) => {
                self.push(Frame::Raise(error_type));
                self.offer(Plan::Text(format_value(&v)));
            },
            Frame::Branch { body, rest, next, otherwise } => self.branch(v, body, rest, next, otherwise),
            Frame::WhileTest { condition, body, count } => {
                if is_truthy(&v) {
                    let again = copy_block(&body);
                    self.push(Frame::WhileBody { condition, body, count });
                    self.run(again);
                } else {
                    self.flow(Flow::Normal);
                }
            },
            Frame::RangeStart { var, end, body } => self.start_range(v, var, end, body),
            Frame::RangeEnd { var, start, body } => self.end_range(v, var, start, body),
            Frame::RangeItem { shadow, body, at, end } => {
                self.use_shadow(&shadow, v);
                let again = copy_block(&body);
                self.push(Frame::RangeBody { shadow, body, at, end });
                self.run(again);
            },
            Frame::EachStart { var, body } => self.start_each(v, var, body),
            Frame::Guard => {
                self.leave_guard();
                self.give(v);
            },
            Frame::Bind { call, next } => self.take_parameter(call, next, v),
            Frame::Handlers { list, next, handle, event } => self.handlers_on(list, next, handle, event),
            Frame::Window(w) => self.window_value(w),
            Frame::Declares { list, next, directory } => self.declares_on(list, next, directory),
            Frame::Import(m) => self.start_import(m),
            Frame::Entry { statements, .. } => self.start_entry(statements),
            _ => self.lose_order(),
        }
    }

    fn take_case(
        &mut self,
        subject: Value,
        cases: Vec<(Value, Vec<Statement>)>,
        next: usize,
        default: Option<Vec<Statement>>,
        v: Value,
    )
        ensures
            final(self)@ == value_step(
                old(self)@,
                (FrameModel::Case {
                    subject: subject@,
                    cases: crate::ast::arms(cases@),
                    next: next as int,
                    default: crate::ast::block_opt(default),
                }),
                v@,
            ),
    {
        assert(crate::ast::arms(cases@).len() == cases@.len());
        if next < cases.len() {
            if values_strict_equal(&subject, &v) {
                self.run(copy_block(&cases[next].1));
            } else {
                self.case_on(subject, cases, next + 1, default);
            }
        } else {
            let end: usize = cases.len();
            self.case_on(subject, cases, end, default);
        }
    }

    fn take_parameter(&mut self, call: Call, next: usize, v: Value)
        ensures
            final(self)@ == value_step(old(self)@, (FrameModel::Bind { call: call@, next: next as int }), v@),
    {
        let mut call = call;
        if next < call.params.len() {
            let name = call.params[next].as_str();
            let mut key = "arg.".to_string();
            key.append(name);
            store(&mut call.local.env, key, v);
            self.bind_params(call, next + 1);
        } else {
            self.lose_order();
        }
    }

    /// The end of a statement meets the frame that waits for it.
    fn take_flow(&mut self, frame: Frame, f: Flow)
        ensures
            final(self)@ == flow_step(old(self)@, frame@, f@),
    {
        match frame {
            Frame::Block { statements, next } => self.take_block(statements, next, f),
            Frame::WhileBody { condition, body, count } => match find_loop_flow(f) {
                None => {
                    if count < usize::MAX {
                        self.while_on(condition, body, count + 1);
                    } else {
                        self.while_on(condition, body, count);
                    }
                },
                Some(g) => self.flow(g),
            },
            Frame::RangeBody { shadow, body, at, end } => match find_loop_flow(f) {
                None => {
                    if at < end {
                        self.range_on(shadow, body, at + 1, end);
                    } else {
                        self.lose_order();
                    }
                },
                Some(g) => {
                    self.end_shadow(shadow);
                    self.flow(g);
                },
            },
            Frame::EachBody { shadow, body, items, next } => match find_loop_flow(f) {
                None => self.each_on(shadow, body, items, next),
                Some(g) => {
                    self.end_shadow(shadow);
                    self.flow(g);
                },
            },
            Frame::Try(_) => self.flow(f),
            Frame::Catch(shadow) => {
                self.end_shadow(shadow);
                self.flow(f);
            },
            Frame::OnStart => match f {
                Flow::Normal => self.flow(Flow::Normal),
                Flow::Break => self.fail(fatal_err("break outside loop")),
                Flow::Continue => self.fail(fatal_err("continue outside loop")),
                Flow::Return(_) => self.fail(fatal_err("return can only be used inside a function body")),
            },
            Frame::Body(saved) => {
                self.scope = saved;
                match f {
                    Flow::Normal => self.give(Value::Null),
                    Flow::Break => self.fail(fatal_err("break outside loop")),
                    Flow::Continue => self.fail(fatal_err("continue outside loop")),
                    Flow::Return(v) => self.give(v),
                }
            },
            Frame::Module(m) => self.module_flow(m, f),
            Frame::Events { alias, path, events, next, saved, loaded } => self.events_on(
                alias,
                path,
                events,
                next,
                saved,
                loaded,
            ),
            Frame::Entry { statements, next } => self.entry_flow(statements, next, f),
            Frame::Guard => {
                self.leave_guard();
                self.lose_order();
            },
            _ => self.lose_order(),
        }
    }

    /// The next statement of a block, or the end of the block.
    fn take_block(&mut self, statements: Vec<Statement>, next: usize, f: Flow)
        ensures
            final(self)@ == flow_step(
                old(self)@,
                (FrameModel::Block { statements: block(statements@), next: next as int }),
                f@,
            ),
    {
        assert(block(statements@).len() == statements@.len());
        match f {
            Flow::Normal => {
                if next < statements.len() {
                    let st = statements[next].copy();
                    self.push(Frame::Block { statements, next: next + 1 });
                    self.turn(Focus::Exec(st));
                } else {
                    self.flow(Flow::Normal);
                }
            },
            other => self.flow(other),
        }
    }

    /// A fault meets a frame: most let it pass.
    fn take_fault(&mut self, frame: Frame, f: RuntimeFault)
        ensures
            final(self)@ == fault_step(old(self)@, frame@, f@),
    {
        match frame {
            Frame::Try(catches) => match f {
                RuntimeFault::Throw(err) => self.catch(catches, err),
                RuntimeFault::Fatal(m) => self.fault(RuntimeFault::Fatal(m)),
            },
            Frame::Catch(shadow) => {
                self.end_shadow(shadow);
                self.fault(f);
            },
            Frame::Guard => {
                self.leave_guard();
                self.fault(f);
            },
            Frame::Body(saved) => {
                self.scope = saved;
                self.fault(f);
            },
            Frame::Window(w) => self.window_fault(w, f),
            Frame::Module(m) => self.halt_module(m, message_of(f)),
            Frame::Events { path, saved, .. } => {
                self.scope = saved;
                self.halt(name_module(path.as_str(), message_of(f)));
            },
            Frame::Entry { .. } => self.halt(message_of(f)),
            _ => self.fault(f),
        }
    }

    /// A run that is given up leaves the scopes that it had entered.
    fn take_abort(&mut self, frame: Frame, h: Halt)
        ensures
            final(self)@ == abort_step(old(self)@, frame@, h@),
    {
        match frame {
            Frame::Import(m) => {
                self.scope = m.saved;
            },
            Frame::Module(m) => {
                self.scope = m.saved;
            },
            Frame::Events { saved, .. } => {
                self.scope = saved;
            },
            Frame::Guard => self.leave_guard(),
            _ => {},
        }
        self.turn(Focus::Abort(h));
    }

    fn pop(&mut self) -> (r: Option<Frame>)
        ensures
            match r {
                Some(f) => {
                    &&& old(self)@.stack.len() > 0
                    &&& f@ == old(self)@.stack.last()
                    &&& final(self)@ == popped(old(self)@)
                },
                None => old(self)@.stack.len() == 0 && final(self)@ == old(self)@,
            },
    {
        let ghost before = frames(self.stack@);
        let r = self.stack.pop();
        assert(before.len() > 0 ==> frames(self.stack@) =~= before.drop_last());
        assert(before.len() == 0 ==> frames(self.stack@) =~= before);
        r
    }

    /// Whether the machine can go on by itself: it has not ended, and it waits
    /// for nothing.
    pub fn is_busy(&self) -> (r: bool)
        ensures
            r == can_step(self@),
    {
        match &self.focus {
            Focus::Eval(_) => true,
            Focus::Exec(_) => true,
            Focus::Read(_) => true,
            Focus::Write(_, _) => true,
            Focus::Await(_) => false,
            Focus::Done => false,
            _ => self.stack.len() > 0,
        }
    }

    /// One step.
    pub fn step(&mut self)
        ensures
            final(self)@ == step(old(self)@),
    {
        let mut focus = Focus::Done;
        std::mem::swap(&mut self.focus, &mut focus);
        assert(self@ == idle(old(self)@));
        match focus {
            Focus::Eval(v) => self.resolve_value(v),
            Focus::Exec(st) => self.execute_statement(st),
            Focus::Read(target) => self.read_assign_target(target),
            Focus::Write(target, v) => self.write_assign_target(target, v),
            Focus::Value(v) => match self.pop() {
                Some(frame) => self.take_value(frame, v),
                None => self.turn(Focus::Value(v)),
            },
            Focus::Flow(f) => match self.pop() {
                Some(frame) => self.take_flow(frame, f),
                None => self.turn(Focus::Flow(f)),
            },
            Focus::Fault(f) => match self.pop() {
                Some(frame) => self.take_fault(frame, f),
                None => self.turn(Focus::Fault(f)),
            },
            Focus::Abort(h) => match self.pop() {
                Some(frame) => self.take_abort(frame, h),
                None => self.turn(Focus::Abort(h)),
            },
            Focus::Await(w) => self.turn(Focus::Await(w)),
            Focus::Done => self.turn(Focus::Done),
        }
    }

    /// At most `fuel` steps, up to where the machine cannot go on by itself.
    pub fn run_steps(&mut self, fuel: usize)
        ensures
            final(self)@ == steps(old(self)@, fuel as nat),
    {
        let ghost was = self@;
        let mut left: usize = fuel;
        while left > 0 && self.is_busy()
            invariant
                was == old(self)@,
                left <= fuel,
                steps(self@, left as nat) == steps(was, fuel as nat),
            decreases left,
        {
            self.step();
            left = left - 1;
        }
    }

    /// Hands the machine what it waits for.
    pub fn answer(&mut self, e: Event)
        ensures
            final(self)@ == answered(old(self)@, e@),
    {
        let mut focus = Focus::Done;
        std::mem::swap(&mut self.focus, &mut focus);
        assert(self@ == idle(old(self)@));
        match focus {
            Focus::Await(Wait::Plan(_)) => match e {
                Event::Value(v) => self.give(v),
                Event::Answer(_) => self.lose_order(),
            },
            Focus::Await(Wait::Request(q)) => match e {
                Event::Answer(a) => self.answer_request(q, a),
                Event::Value(_) => self.lose_order(),
            },
            other => self.turn(other),
        }
    }

    fn answer_request(&mut self, q: Request, a: Answer)
        ensures
            final(self)@ == request_answered(old(self)@, q@, a@),
    {
        match &q {
            Request::ShowWindow(_) => self.answer_frame(a),
            Request::Locate { .. } => self.answer_frame(a),
            Request::ReadSource(_) => self.answer_frame(a),
            other => {
                let r = accept_db(&mut self.rt, other, a);
                self.plan(r);
            },
        }
    }

    fn answer_frame(&mut self, a: Answer)
        ensures
            final(self)@ == frame_answered(old(self)@, a@),
    {
        match self.pop() {
            None => self.lose_order(),
            Some(Frame::Window(w)) => self.window_answer(w, a),
            Some(Frame::Locating { directory, raw, run }) => self.locate(directory, raw, run, a),
            Some(Frame::Reading { canonical, directory, alias, run }) => self.load_module(
                canonical,
                directory,
                alias,
                run,
                a,
            ),
            Some(other) => {
                self.push(other);
                assert(self@.stack =~= old(self)@.stack);
                self.lose_order();
            },
        }
    }

    /// A machine with nothing to do, in an empty scope of the module `cur`.
    pub fn new(cur: &str) -> (r: Machine)
        ensures
            r@ == fresh(cur@),
    {
        let r = Machine { focus: Focus::Done, stack: Vec::new(), scope: Scope::new(cur), rt: ModuleRuntime::new() };
        assert(frames(r.stack@) =~= seq![]);
        r
    }

    fn clear(&mut self)
        ensures
            final(self)@ == cleared(old(self)@),
    {
        self.focus = Focus::Done;
        self.stack = Vec::new();
        assert(frames(self.stack@) =~= seq![]);
    }

    /// Starts the work on one expression, in place of any other work.
    pub fn start_value(&mut self, v: Value)
        ensures
            final(self)@ == evaluating(cleared(old(self)@), v@),
    {
        self.clear();
        self.evaluate(v);
    }

    /// Starts the work on one statement, in place of any other work.
    pub fn start_statement(&mut self, st: Statement)
        ensures
            final(self)@ == focused(cleared(old(self)@), FocusModel::Exec(st@)),
    {
        self.clear();
        self.turn(Focus::Exec(st));
    }

    /// Fires an event of a widget, in place of any other work.
    pub fn start_event(&mut self, handle: Value, event: &str)
        ensures
            final(self)@ == fired(cleared(old(self)@), handle@, event@),
    {
        self.clear();
        self.fire_gui_event(handle, event.to_string());
    }
}

/// The alias of the file that is run.
pub open spec fn entry_alias() -> Seq<char> {
    "__main__"@
}

pub open spec fn fresh(cur: Seq<char>) -> MachineModel {
    MachineModel { focus: FocusModel::Done, stack: seq![], scope: empty_scope(cur), rt: fresh_runtime() }
}

/// The state with no work left in it.
pub open spec fn cleared(s: MachineModel) -> MachineModel {
    MachineModel { focus: FocusModel::Done, stack: seq![], ..s }
}

/// The run of a source text, before its first step. The file itself, where its
/// path is known, counts as being loaded, so that nothing can import it.
pub open spec fn source_run(
    source: Seq<char>,
    directory: Seq<char>,
    canonical: Option<Seq<char>>,
) -> Result<MachineModel, ParseErrorModel> {
    match program(source) {
        Err(e) => Err(e),
        Ok(p) => {
            let s = fresh(entry_alias());
            let loading = match canonical {
                Some(path) => seq![path],
                None => seq![],
            };
            Ok(program_run(MachineModel { rt: RuntimeModel { loading, ..s.rt }, ..s }, p.statements, directory))
        },
    }
}

/// Parses a source text and sets up its run. `directory` anchors relative
/// imports.
pub fn run_source(source: &str, directory: &str, canonical: Option<String>) -> (r: Result<Machine, ParseError>)
    ensures
        match r {
            Ok(m) => source_run(source@, directory@, text_opt(canonical)) == Ok::<_, ParseErrorModel>(m@),
            Err(e) => source_run(source@, directory@, text_opt(canonical)) == Err::<MachineModel, _>(e@),
        },
{
    match Parser::parse(source) {
        Err(e) => Err(e),
        Ok(p) => {
            let mut m = Machine::new("__main__");
            match canonical {
                Some(path) => {
                    m.rt.loading.push(path);
                    assert(texts(m.rt.loading@) =~= seq![path@]);
                },
                None => {
                    assert(texts(m.rt.loading@) =~= seq![]);
                },
            }
            m.run_program(p, directory.to_string());
            Ok(m)
        },
    }
}

/// A session: one machine kept alive from chunk to chunk.
#[derive(Debug)]
pub struct Repl {
    pub machine: Machine,
    pub directory: String,
}

/// A chunk as a program of its own.
pub open spec fn wrapped(chunk: Seq<char>) -> Seq<char> {
    "[SCRIPTTYPE KALVITA VERSION 1]\n"@ + chunk + "\n"@
}

impl Repl {
    pub fn new(directory: String) -> (r: Repl)
        ensures
            r.machine@ == fresh(entry_alias()),
            r.directory@ == directory@,
    {
        Repl { machine: Machine::new("__main__"), directory }
    }

    /// Parses a chunk and sets up its run in the scope that the chunks before
    /// it have left.
    pub fn run_chunk(&mut self, chunk: &str) -> (r: Result<(), ParseError>)
        ensures
            final(self).directory@ == old(self).directory@,
            match r {
                Ok(_) => program(wrapped(chunk@)) is Ok && final(self).machine@ == program_run(
                    cleared(old(self).machine@),
                    program(wrapped(chunk@))->Ok_0.statements,
                    old(self).directory@,
                ),
                Err(e) => {
                    &&& program(wrapped(chunk@)) == Err::<ProgramModel, _>(e@)
                    &&& final(self).machine@ == old(self).machine@
                },
            },
    {
        let text = "[SCRIPTTYPE KALVITA VERSION 1]\n".to_string().concat(chunk).concat("\n");
        match Parser::parse(text.as_str()) {
            Err(e) => Err(e),
            Ok(p) => {
                self.machine.clear();
                self.machine.run_program(p, self.directory.clone());
                Ok(())
            },
        }
    }
}

fn find_loop_flow(f: Flow) -> (r: Option<Flow>)
    ensures
        match r {
            Some(g) => loop_flow(f@) == Some(g@),
            None => loop_flow(f@) is None,
        },
{
    match f {
        Flow::Normal => None,
        Flow::Continue => None,
        Flow::Break => Some(Flow::Normal),
        Flow::Return(v) => Some(Flow::Return(v)),
    }
}

} // verus!
