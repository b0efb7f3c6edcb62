//! The machine at work on assignment targets.

use crate::ast::{values, AssignTarget, Value};
use crate::draft::{text, text_2, throw_err, throw_pieces, Failure};
use crate::gui::{gui_assign_slot, gui_kind_of};
use crate::machine::{complain_index, complain_property, complain_value};
use crate::number::find_index;
use crate::runtime::{check_type, lookup_scoped, var_key};
use crate::semantics::{
    element_written, index_written, no_place, place_named, property_written, read_step, slot_type, target_at,
    target_property, undeclared, variable_set, variable_written, write_step,
};
use crate::state::{Flow, Focus, Frame, Machine};
use crate::table::{get, get_text, store};
use vstd::prelude::*;

verus! {

impl Machine {
    /// Reads what a target holds.
    pub(crate) fn read_assign_target(&mut self, target: AssignTarget)
        ensures
            final(self)@ == read_step(old(self)@, target@),
    {
        match target {
            AssignTarget::Var(name) => match lookup_scoped(name.as_str(), &self.rt, &self.scope) {
                Some(v) => self.give(v),
                None => self.fail(complain_undeclared(name.as_str())),
            },
            AssignTarget::Property { target: inner, key } => {
                self.push(Frame::TargetProperty(key));
                self.turn(Focus::Read(*inner));
            },
            AssignTarget::Index { target: inner, index } => {
                self.push(Frame::TargetIndex(*index));
                self.turn(Focus::Read(*inner));
            },
        }
    }

    pub(crate) fn read_property(&mut self, container: Value, key: String)
        ensures
            final(self)@ == target_property(old(self)@, container@, key@),
    {
        match container {
            Value::Object(t) => match get(&t, key.as_str()) {
                Some(v) => {
                    let v = v.copy();
                    self.give(v);
                },
                None => self.fail(complain_property(key.as_str())),
            },
            other => self.fail(complain_value("Property access requires an object, got ", &other)),
        }
    }

    pub(crate) fn read_element(&mut self, container: Value, index: Value)
        ensures
            final(self)@ == target_at(old(self)@, container@, index@),
    {
        match find_place(&index) {
            Some(i) => self.give_element(container, i),
            None => self.fail(complain_place()),
        }
    }

    /// Writes a value at a target.
    pub(crate) fn write_assign_target(&mut self, target: AssignTarget, v: Value)
        ensures
            final(self)@ == write_step(old(self)@, target@, v@),
    {
        match target {
            AssignTarget::Var(name) => self.write_variable(name, v),
            AssignTarget::Property { target: inner, key } => {
                let again = inner.copy();
                self.push(Frame::WriteProperty { inner: *inner, key, value: v });
                self.turn(Focus::Read(again));
            },
            AssignTarget::Index { target: inner, index } => {
                self.push(Frame::WriteIndex { inner: *inner, value: v });
                self.evaluate(*index);
            },
        }
    }

    pub(crate) fn write_property(&mut self, inner: AssignTarget, key: String, v: Value, container: Value)
        ensures
            final(self)@ == property_written(old(self)@, inner@, key@, v@, container@),
    {
        match container {
            Value::Object(t) => {
                let mut t = t;
                store(&mut t, key, v);
                self.turn(Focus::Write(inner, Value::Object(t)));
            },
            other => self.fail(complain_value("Property access requires an object, got ", &other)),
        }
    }

    pub(crate) fn write_index(&mut self, inner: AssignTarget, v: Value, index: Value)
        ensures
            final(self)@ == index_written(old(self)@, inner@, v@, index@),
    {
        match find_place(&index) {
            Some(i) => {
                let again = inner.copy();
                self.push(Frame::WriteAt { inner, index: i, value: v });
                self.turn(Focus::Read(again));
            },
            None => self.fail(complain_place()),
        }
    }

    pub(crate) fn write_element(&mut self, inner: AssignTarget, i: u64, v: Value, container: Value)
        ensures
            final(self)@ == element_written(old(self)@, inner@, i, v@, container@),
    {
        match container {
            Value::Array(items) => {
                let mut items = items;
                let ghost was = values(items@);
                assert(was.len() == items@.len());
                if i < items.len() as u64 {
                    let ghost model = v@;
                    items[i as usize] = v;
                    assert(values(items@) =~= was.update(i as int, model));
                    self.turn(Focus::Write(inner, Value::Array(items)));
                } else {
                    self.fail(complain_index(i));
                }
            },
            Value::String(_) => self.fail(throw_err("TypeError", "cannot assign into string characters")),
            other => self.fail(complain_value("Index requires an array or string, got ", &other)),
        }
    }

    fn find_slot_type(&self, key: &str) -> (r: Option<String>)
        ensures
            match r {
                Some(t) => slot_type(self@, key@) == Some(t@),
                None => slot_type(self@, key@) is None,
            },
    {
        match get_text(&self.scope.types, key) {
            Some(t) => Some(t),
            None => self.rt.lookup_type(self.scope.cur.as_str(), key),
        }
    }

    fn set_variable(&mut self, name: &str, live: bool, v: Value)
        ensures
            final(self)@ == variable_set(old(self)@, name@, live, v@),
    {
        if live {
            self.rt.set_global(self.scope.cur.as_str(), var_key(name), v.copy());
        }
        store(&mut self.scope.env, var_key(name), v);
    }

    /// An assignment to a variable.
    fn write_variable(&mut self, name: String, v: Value)
        ensures
            final(self)@ == variable_written(old(self)@, name@, v@),
    {
        let current = lookup_scoped(name.as_str(), &self.rt, &self.scope);
        if current.is_none() {
            self.fail(complain_undeclared(name.as_str()));
            return ;
        }
        let r = match self.find_slot_type(var_key(name.as_str()).as_str()) {
            Some(declared) => match gui_kind_of(declared.as_str()) {
                Some(kind) => gui_assign_slot(&mut self.rt, name.as_str(), declared.as_str(), kind, current, v),
                None => match check_type(name.as_str(), declared.as_str(), &v) {
                    Ok(_) => Ok(v),
                    Err(e) => Err(e),
                },
            },
            None => Ok(v),
        };
        match r {
            Err(e) => self.fail(e),
            Ok(stored) => {
                let live = self.rt.is_global(self.scope.cur.as_str(), name.as_str());
                self.set_variable(name.as_str(), live, stored);
                self.flow(Flow::Normal);
            },
        }
    }
}

fn complain_undeclared(name: &str) -> (r: Failure)
    ensures
        r@ == undeclared(name@),
{
    throw_pieces("NameError", text_2(text("Cannot assign to undeclared variable: var."), text(name)))
}

fn complain_place() -> (r: Failure)
    ensures
        r@ == no_place(),
{
    throw_err("TypeError", "index must be a non-negative integer")
}

fn find_place(index: &Value) -> (r: Option<u64>)
    ensures
        match r {
            Some(i) => place_named(index@) == Some(i as int),
            None => place_named(index@) is None,
        },
{
    match index {
        Value::Number(n) => find_index(*n),
        _ => None,
    }
}

} // verus!
