//! The machine at work on statements.

use crate::ast::{
    arms, block, block_opt, copy_block, handlers, values, BinaryOperator, CatchClause, Statement, Value, ValueModel,
};
use crate::draft::{fatal_err, Failure, Plan, RuntimeFault};
use crate::gui::{gui_declare_value, gui_kind_of, gui_register_event};
use crate::machine::complain_value;
use crate::operators::as_i64;
use crate::runtime::{check_type, restore_global, restore_saved, var_key};
use crate::semantics::{
    branch_taken, case_step, caught, characters, declaring, defined, each_started, each_step, event_met, exec_step,
    handler_for, raised, range_bound, range_ended, range_started, range_step, run_if_any, shadow_of, shadowed,
    thrown_type, unshadowed, while_step, MAX_LOOP_ITERS,
};
use crate::show::is_truthy;
use crate::state::{Flow, Frame, Machine, Shadow};
use crate::table::{get, store, store_text};
use crate::text::{chars_of, same, string_of};
use vstd::prelude::*;

verus! {

impl Machine {
    /// The start of the work on a statement.
    pub(crate) fn execute_statement(&mut self, st: Statement)
        ensures
            final(self)@ == exec_step(old(self)@, st@),
    {
        match st {
            Statement::VariableDecl { name, declared, value } => self.declare(name, declared, false, value),
            Statement::GlobalDecl { name, declared, value } => self.declare(name, declared, true, value),
            Statement::Declare { .. } => self.flow(Flow::Normal),
            Statement::FunctionCall { object, module, function, args } => {
                self.push(Frame::Discard);
                self.invoke_function(object, module, function, args);
            },
            Statement::Return { value } => {
                self.push(Frame::Return);
                self.evaluate(*value);
            },
            Statement::Assign { target, op, value } => {
                self.push(Frame::Assign { target, op });
                self.evaluate(*value);
            },
            Statement::Switch { scrutinee, cases, default } => {
                self.push(Frame::Switch { cases, default });
                self.evaluate(*scrutinee);
            },
            Statement::Event { object, name, body } => self.meet_event(object, name, body),
            Statement::If { condition, then_branch, else_if_branches, else_branch } => {
                self.push(
                    Frame::Branch { body: then_branch, rest: else_if_branches, next: 0, otherwise: else_branch },
                );
                self.evaluate(condition);
            },
            Statement::While { condition, body } => self.while_on(condition, body, 0),
            Statement::ForIn { var, iterable, body } => match iterable {
                Value::Binary { left, op: BinaryOperator::Range, right } => {
                    self.push(Frame::RangeStart { var, end: *right, body });
                    self.evaluate(*left);
                },
                other => {
                    self.push(Frame::EachStart { var, body });
                    self.evaluate(other);
                },
            },
            Statement::Break => self.flow(Flow::Break),
            Statement::Continue => self.flow(Flow::Continue),
            Statement::Throw { error_type, message } => {
                self.push(Frame::Throw(error_type));
                self.evaluate(*message);
            },
            Statement::Try { body, catches } => {
                self.push(Frame::Try(catches));
                self.run(body);
            },
        }
    }

    fn declare(&mut self, name: String, declared: String, global: bool, v: Value)
        ensures
            final(self)@ == declaring(old(self)@, name@, declared@, global, v@),
    {
        match v {
            Value::Function { params, defaults, body } => self.define(
                name,
                declared,
                global,
                Value::Function { params, defaults, body },
            ),
            other => {
                self.push(Frame::Define { name, declared, global });
                self.evaluate(other);
            },
        }
    }

    /// The end of a declaration.
    pub(crate) fn define(&mut self, name: String, declared: String, global: bool, v: Value)
        ensures
            final(self)@ == defined(old(self)@, name@, declared@, global, v@),
    {
        let r = match gui_kind_of(declared.as_str()) {
            Some(kind) => gui_declare_value(&mut self.rt, name.as_str(), declared.as_str(), kind, v),
            None => match check_type(name.as_str(), declared.as_str(), &v) {
                Ok(_) => Ok(v),
                Err(e) => Err(e),
            },
        };
        match r {
            Err(e) => self.fail(e),
            Ok(stored) => {
                store(&mut self.scope.env, var_key(name.as_str()), stored.copy());
                store_text(&mut self.scope.types, var_key(name.as_str()), declared.clone());
                if global {
                    self.rt.export(self.scope.cur.as_str(), name.as_str(), declared.as_str(), stored);
                }
                self.flow(Flow::Normal);
            },
        }
    }

    fn meet_event(&mut self, object: String, name: String, body: Vec<Statement>)
        ensures
            final(self)@ == event_met(old(self)@, object@, name@, block(body@)),
    {
        if same(object.as_str(), "kal") {
            if same(name.as_str(), "OnStart") {
                self.push(Frame::OnStart);
                self.run(body);
            } else {
                self.flow(Flow::Normal);
            }
        } else {
            match gui_register_event(&mut self.rt, &self.scope, object.as_str(), name.as_str(), body) {
                Ok(_) => self.flow(Flow::Normal),
                Err(e) => self.fail(e),
            }
        }
    }

    pub(crate) fn case_on(
        &mut self,
        subject: Value,
        cases: Vec<(Value, Vec<Statement>)>,
        next: usize,
        default: Option<Vec<Statement>>,
    )
        ensures
            final(self)@ == case_step(old(self)@, subject@, arms(cases@), next as int, block_opt(default)),
    {
        assert(arms(cases@).len() == cases@.len());
        if next < cases.len() {
            let expected = cases[next].0.copy();
            self.push(Frame::Case { subject, cases, next, default });
            self.evaluate(expected);
        } else {
            self.run_any(default);
        }
    }

    fn run_any(&mut self, body: Option<Vec<Statement>>)
        ensures
            final(self)@ == run_if_any(old(self)@, block_opt(body)),
    {
        match body {
            Some(b) => self.run(b),
            None => self.flow(Flow::Normal),
        }
    }

    pub(crate) fn branch(
        &mut self,
        test: Value,
        body: Vec<Statement>,
        rest: Vec<(Value, Vec<Statement>)>,
        next: usize,
        otherwise: Option<Vec<Statement>>,
    )
        ensures
            final(self)@ == branch_taken(
                old(self)@,
                test@,
                block(body@),
                arms(rest@),
                next as int,
                block_opt(otherwise),
            ),
    {
        assert(arms(rest@).len() == rest@.len());
        if is_truthy(&test) {
            self.run(body);
        } else if next < rest.len() {
            let condition = rest[next].0.copy();
            let body = copy_block(&rest[next].1);
            self.push(Frame::Branch { body, rest, next: next + 1, otherwise });
            self.evaluate(condition);
        } else {
            self.run_any(otherwise);
        }
    }

    pub(crate) fn while_on(&mut self, condition: Value, body: Vec<Statement>, count: usize)
        ensures
            final(self)@ == while_step(old(self)@, condition@, block(body@), count as int),
    {
        if count < MAX_LOOP_ITERS {
            let test = condition.copy();
            self.push(Frame::WhileTest { condition, body, count });
            self.evaluate(test);
        } else {
            self.fail(fatal_err("possible infinite loop: while exceeded iteration limit"));
        }
    }

    fn borrow_variable(&self, var: &str) -> (r: Shadow)
        ensures
            r@ == shadow_of(self@, var@),
    {
        let key = var_key(var);
        let saved = match get(&self.scope.env, key.as_str()) {
            Some(v) => Some(v.copy()),
            None => None,
        };
        let shadows = self.rt.is_global(self.scope.cur.as_str(), var);
        let saved_global = if shadows {
            self.rt.read_global(self.scope.cur.as_str(), var)
        } else {
            None
        };
        Shadow { key, saved, saved_global, shadows }
    }

    pub(crate) fn use_shadow(&mut self, shadow: &Shadow, v: Value)
        ensures
            final(self)@ == shadowed(old(self)@, shadow@, v@),
    {
        if shadow.shadows {
            self.rt.set_global(self.scope.cur.as_str(), shadow.key.clone(), v.copy());
        }
        store(&mut self.scope.env, shadow.key.clone(), v);
    }

    pub(crate) fn end_shadow(&mut self, shadow: Shadow)
        ensures
            final(self)@ == unshadowed(old(self)@, shadow@),
    {
        restore_global(&mut self.rt, self.scope.cur.as_str(), shadow.key.as_str(), shadow.saved_global);
        restore_saved(&mut self.scope.env, shadow.key.as_str(), shadow.saved);
    }

    pub(crate) fn start_range(&mut self, v: Value, var: String, end: Value, body: Vec<Statement>)
        ensures
            final(self)@ == range_started(old(self)@, v@, var@, end@, block(body@)),
    {
        match find_bound(&v) {
            Err(e) => self.fail(e),
            Ok(n) => {
                self.push(Frame::RangeEnd { var, start: n, body });
                self.evaluate(end);
            },
        }
    }

    pub(crate) fn end_range(&mut self, v: Value, var: String, start: i64, body: Vec<Statement>)
        ensures
            final(self)@ == range_ended(old(self)@, v@, var@, start, block(body@)),
    {
        match find_bound(&v) {
            Err(e) => self.fail(e),
            Ok(n) => {
                let shadow = self.borrow_variable(var.as_str());
                self.range_on(shadow, body, start, n);
            },
        }
    }

    pub(crate) fn range_on(&mut self, shadow: Shadow, body: Vec<Statement>, at: i64, end: i64)
        ensures
            final(self)@ == range_step(old(self)@, shadow@, block(body@), at, end),
    {
        if at < end {
            self.push(Frame::RangeItem { shadow, body, at, end });
            self.offer(Plan::Integer(at));
        } else {
            self.end_shadow(shadow);
            self.flow(Flow::Normal);
        }
    }

    pub(crate) fn start_each(&mut self, v: Value, var: String, body: Vec<Statement>)
        ensures
            final(self)@ == each_started(old(self)@, v@, var@, block(body@)),
    {
        match v {
            Value::Array(items) => {
                let shadow = self.borrow_variable(var.as_str());
                self.each_on(shadow, body, items, 0);
            },
            Value::String(t) => {
                let shadow = self.borrow_variable(var.as_str());
                let items = character_values(t.as_str());
                self.each_on(shadow, body, items, 0);
            },
            other => self.fail(complain_value("for-in requires an array or string, got ", &other)),
        }
    }

    pub(crate) fn each_on(&mut self, shadow: Shadow, body: Vec<Statement>, items: Vec<Value>, next: usize)
        ensures
            final(self)@ == each_step(old(self)@, shadow@, block(body@), values(items@), next as int),
    {
        assert(values(items@).len() == items@.len());
        if next < items.len() {
            let item = items[next].copy();
            self.use_shadow(&shadow, item);
            let again = copy_block(&body);
            self.push(Frame::EachBody { shadow, body, items, next: next + 1 });
            self.run(again);
        } else {
            self.end_shadow(shadow);
            self.flow(Flow::Normal);
        }
    }

    /// An error met by a `try`.
    pub(crate) fn catch(&mut self, catches: Vec<CatchClause>, err: Value)
        ensures
            final(self)@ == caught(old(self)@, handlers(catches@), err@),
    {
        match find_handler(&catches, find_thrown_type(&err).as_str()) {
            Some(i) => {
                let shadow = self.borrow_variable("err");
                self.use_shadow(&shadow, err);
                self.push(Frame::Catch(shadow));
                self.run(copy_block(&catches[i].body));
            },
            None => self.fault(RuntimeFault::Throw(err)),
        }
    }

    /// An error with its message written.
    pub(crate) fn raise(&mut self, error_type: String, message: Value)
        ensures
            final(self)@ == raised(old(self)@, error_type@, message@),
    {
        let message = match message {
            Value::String(m) => m,
            _ => {
                let none = String::new();
                assert(none@ =~= seq![]);
                none
            },
        };
        self.fault(RuntimeFault::Throw(Value::Error { error_type, message }));
    }
}

fn find_bound(v: &Value) -> (r: Result<i64, Failure>)
    ensures
        match r {
            Ok(i) => range_bound(v@) == Ok::<int, crate::draft::FailureModel>(i as int),
            Err(e) => range_bound(v@) == Err::<int, crate::draft::FailureModel>(e@),
        },
{
    match v {
        Value::Number(n) => as_i64(*n),
        other => Err(complain_value("range bounds must be numbers, got ", other)),
    }
}

fn character_values(t: &str) -> (r: Vec<Value>)
    ensures
        values(r@) == characters(t@),
{
    let chars = chars_of(t);
    let mut r: Vec<Value> = Vec::new();
    let mut i: usize = 0;
    while i < chars.len()
        invariant
            chars@ == t@,
            i <= chars@.len(),
            r@.len() == i,
            forall|k: int|
                #![trigger r@[k]]
                0 <= k < i ==> r@[k]@ == ValueModel::String(seq![t@[k]]),
        decreases chars@.len() - i,
    {
        let one = string_of(&chars, i, i + 1);
        assert(one@ =~= seq![t@[i as int]]);
        r.push(Value::String(one));
        i = i + 1;
    }
    assert(values(r@) =~= characters(t@));
    r
}

fn find_thrown_type(v: &Value) -> (r: String)
    ensures
        r@ == thrown_type(v@),
{
    match v {
        Value::Error { error_type, .. } => error_type.clone(),
        _ => "Error".to_string(),
    }
}

fn find_handler(catches: &Vec<CatchClause>, error_type: &str) -> (r: Option<usize>)
    ensures
        match r {
            Some(i) => i < catches@.len() && handler_for(handlers(catches@), error_type@, 0) == Some(i as int),
            None => handler_for(handlers(catches@), error_type@, 0) is None,
        },
{
    let ghost model = handlers(catches@);
    assert(model.len() == catches@.len());
    let mut i: usize = 0;
    while i < catches.len()
        invariant
            i <= catches@.len(),
            model == handlers(catches@),
            model.len() == catches@.len(),
            handler_for(model, error_type@, i as int) == handler_for(model, error_type@, 0),
        decreases catches@.len() - i,
    {
        assert(model[i as int].error_type == catches@[i as int].error_type@);
        if same(catches[i].error_type.as_str(), error_type) || same(catches[i].error_type.as_str(), "Error") {
            return Some(i);
        }
        i = i + 1;
    }
    None
}

} // verus!
