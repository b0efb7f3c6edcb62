//! The machine at work on values and calls.

use crate::arrlib::invoke_arr;
use crate::ast::{copy_values, entries, text_opt, texts, values, Value};
use crate::builtins::{complain_unknown, effect_result, invoke_math};
use crate::draft::{
    debug, fatal_err, pieces, text, text_2, text_4, throw_err, throw_pieces, try_settle, Failure, Piece, Plan,
    RuntimeFault,
};
use crate::gui::{complain_closed, gui_method, has_widget};
use crate::number::find_index;
use crate::operators::{equal_ignoring_case, plan_result};
use crate::request::{Effect, Request};
use crate::runtime::{lookup_scoped, resolve_variable_name, value_opt, Scope, MAX_CALL_DEPTH};
use crate::semantics::{
    applied, asking, bound, called, callee_invoked, case_equal, contents, effected, either_name, element, element_at,
    entered, eval_step, evaluating, failed, faulty, flowing, focused, given, invoked, list_step, listed, module_invoked,
    no_index, object_invoked, offered, out_of_order, plainly_invoked, planned, property_of, pushed, running, too_deep,
    unknown_export, unknown_module, unknown_property, unknown_variable, with_arguments, wrong_value, zipped,
};
use crate::show::{format_value, show_list, shown_list, write_nat};
use crate::state::{frames, Call, Flow, Focus, Frame, Machine, Purpose, Wait};
use crate::strlib::invoke_str;
use crate::syslib::{
    assert_builtin, invoke_db, invoke_file, invoke_gui, invoke_http, invoke_json, invoke_sys, invoke_time_format,
    select_file_builtin,
};
use crate::table::{get, keys, store};
use crate::text::{chars_of, same, string_of};
use vstd::prelude::*;

verus! {

impl Machine {
    pub(crate) fn push(&mut self, f: Frame)
        ensures
            final(self)@ == pushed(old(self)@, f@),
    {
        let ghost was = frames(self.stack@);
        self.stack.push(f);
        assert(frames(self.stack@) =~= was.push(f@));
    }

    pub(crate) fn turn(&mut self, x: Focus)
        ensures
            final(self)@ == focused(old(self)@, x@),
    {
        self.focus = x;
    }

    pub(crate) fn give(&mut self, v: Value)
        ensures
            final(self)@ == given(old(self)@, v@),
    {
        self.focus = Focus::Value(v);
    }

    pub(crate) fn evaluate(&mut self, v: Value)
        ensures
            final(self)@ == evaluating(old(self)@, v@),
    {
        self.focus = Focus::Eval(v);
    }

    pub(crate) fn flow(&mut self, f: Flow)
        ensures
            final(self)@ == flowing(old(self)@, f@),
    {
        self.focus = Focus::Flow(f);
    }

    pub(crate) fn fault(&mut self, f: RuntimeFault)
        ensures
            final(self)@ == faulty(old(self)@, f@),
    {
        self.focus = Focus::Fault(f);
    }

    pub(crate) fn ask(&mut self, q: Request)
        ensures
            final(self)@ == asking(old(self)@, q@),
    {
        self.focus = Focus::Await(Wait::Request(q));
    }

    pub(crate) fn offer(&mut self, p: Plan)
        ensures
            final(self)@ == offered(old(self)@, p@),
    {
        match try_settle(p) {
            Ok(v) => self.give(v),
            Err(q) => self.turn(Focus::Await(Wait::Plan(q))),
        }
    }

    pub(crate) fn fail(&mut self, e: Failure)
        ensures
            final(self)@ == failed(old(self)@, e@),
    {
        match e {
            Failure::Fatal(m) => self.fault(RuntimeFault::Fatal(m)),
            Failure::Throw { error_type, message } => {
                self.push(Frame::Raise(error_type));
                self.offer(Plan::Text(message));
            },
        }
    }

    pub(crate) fn plan(&mut self, r: Result<Plan, Failure>)
        ensures
            final(self)@ == planned(old(self)@, plan_result(r)),
    {
        match r {
            Ok(p) => self.offer(p),
            Err(e) => self.fail(e),
        }
    }

    pub(crate) fn effect(&mut self, r: Result<Effect, Failure>)
        ensures
            final(self)@ == effected(old(self)@, effect_result(r)),
    {
        match r {
            Ok(Effect::Plan(p)) => self.offer(p),
            Ok(Effect::Ask(q)) => self.ask(q),
            Err(e) => self.fail(e),
        }
    }

    pub(crate) fn lose_order(&mut self)
        ensures
            final(self)@ == out_of_order(old(self)@),
    {
        self.fail(fatal_err("machine out of order"));
    }

    pub(crate) fn run(&mut self, body: Vec<crate::ast::Statement>)
        ensures
            final(self)@ == running(old(self)@, crate::ast::block(body@)),
    {
        self.push(Frame::Block { statements: body, next: 0 });
        self.flow(Flow::Normal);
    }
}

pub(crate) fn complain_variable(name: &str) -> (r: Failure)
    ensures
        r@ == unknown_variable(name@),
{
    throw_pieces("NameError", text_2(text("Unknown variable: "), text(name)))
}

pub(crate) fn complain_property(key: &str) -> (r: Failure)
    ensures
        r@ == unknown_property(key@),
{
    throw_pieces("NameError", text_2(text("Unknown property: "), text(key)))
}

fn complain_module(alias: &str) -> (r: Failure)
    ensures
        r@ == unknown_module(alias@),
{
    throw_pieces("NameError", text_2(text("Unknown module: "), text(alias)))
}

fn complain_export(alias: &str, name: &str) -> (r: Failure)
    ensures
        r@ == unknown_export(alias@, name@),
{
    throw_pieces("NameError", text_4(text("Unknown variable: "), text(alias), text(":var."), text(name)))
}

pub(crate) fn complain_value(message: &str, v: &Value) -> (r: Failure)
    ensures
        r@ == wrong_value(message@, v@),
{
    throw_pieces("TypeError", text_2(text(message), debug(v)))
}

pub(crate) fn complain_index(i: u64) -> (r: Failure)
    ensures
        r@ == no_index(i as int),
{
    throw_pieces("IndexError", text_2(text("Index out of bounds: "), Piece::Text(write_nat(i))))
}

/// Parts a table into its keys and its values.
fn part_table(t: Vec<(String, Value)>) -> (r: (Vec<String>, Vec<Value>))
    ensures
        texts(r.0@) == keys(entries(t@)),
        values(r.1@) == contents(entries(t@)),
{
    let mut names: Vec<String> = Vec::new();
    let mut items: Vec<Value> = Vec::new();
    let mut i: usize = 0;
    while i < t.len()
        invariant
            i <= t@.len(),
            names@.len() == i,
            items@.len() == i,
            forall|k: int| #![trigger names@[k]] 0 <= k < i ==> names@[k]@ == t@[k].0@,
            forall|k: int| #![trigger items@[k]] 0 <= k < i ==> items@[k]@ == t@[k].1@,
        decreases t@.len() - i,
    {
        names.push(t[i].0.clone());
        items.push(t[i].1.copy());
        i = i + 1;
    }
    assert(texts(names@) =~= keys(entries(t@)));
    assert(values(items@) =~= contents(entries(t@)));
    (names, items)
}

/// Joins keys and values to a table.
fn join_table(names: Vec<String>, items: Vec<Value>) -> (r: Vec<(String, Value)>)
    ensures
        entries(r@) == zipped(texts(names@), values(items@)),
{
    let mut r: Vec<(String, Value)> = Vec::new();
    let mut i: usize = 0;
    while i < names.len() && i < items.len()
        invariant
            i <= names@.len(),
            i <= items@.len(),
            r@.len() == i,
            forall|k: int| #![trigger r@[k]] 0 <= k < i ==> r@[k].0@ == names@[k]@ && r@[k].1@ == items@[k]@,
        decreases names@.len() - i,
    {
        r.push((names[i].clone(), items[i].copy()));
        i = i + 1;
    }
    assert(entries(r@) =~= zipped(texts(names@), values(items@)));
    r
}

impl Machine {
    /// The start of the work on an expression.
    pub(crate) fn resolve_value(&mut self, v: Value)
        ensures
            final(self)@ == eval_step(old(self)@, v@),
    {
        match v {
            Value::Variable(name) => match resolve_variable_name(name.as_str(), &self.rt, &self.scope) {
                Some(x) => self.give(x),
                None => self.fail(complain_variable(name.as_str())),
            },
            Value::ModuleVar { alias, name } => {
                if self.rt.module(alias.as_str()).is_none() {
                    self.fail(complain_module(alias.as_str()));
                } else {
                    match self.rt.read_global(alias.as_str(), name.as_str()) {
                        Some(x) => self.give(x),
                        None => self.fail(complain_export(alias.as_str(), name.as_str())),
                    }
                }
            },
            Value::FunctionCall { object, module, function, args } => self.invoke_function(
                object,
                module,
                function,
                args,
            ),
            Value::Array(items) => self.list(Purpose::Array, items),
            Value::Object(t) => {
                let (names, items) = part_table(t);
                self.list(Purpose::Object(names), items);
            },
            Value::Property { target, key } => {
                self.push(Frame::Property(key));
                self.evaluate(*target);
            },
            Value::Index { target, index } => {
                self.push(Frame::IndexTarget(*index));
                self.evaluate(*target);
            },
            Value::Binary { left, op, right } => {
                self.push(Frame::Left { op, right: *right });
                self.evaluate(*left);
            },
            Value::Unary { op, value } => {
                self.push(Frame::Unary(op));
                self.evaluate(*value);
            },
            other => self.give(other),
        }
    }

    /// The work on a list of expressions, from the first to the last.
    pub(crate) fn list(&mut self, purpose: Purpose, items: Vec<Value>)
        ensures
            final(self)@ == listed(old(self)@, purpose@, values(items@)),
    {
        let none: Vec<Value> = Vec::new();
        assert(values(none@) =~= seq![]);
        self.list_on(purpose, items, 0, none);
    }

    pub(crate) fn list_on(&mut self, purpose: Purpose, items: Vec<Value>, next: usize, done: Vec<Value>)
        ensures
            final(self)@ == list_step(old(self)@, purpose@, values(items@), next as int, values(done@)),
    {
        if next < items.len() {
            let first = items[next].copy();
            self.push(Frame::Args { purpose, items, next: next + 1, done });
            self.evaluate(first);
        } else {
            self.apply(purpose, done);
        }
    }

    /// What a list of values comes to.
    pub(crate) fn apply(&mut self, purpose: Purpose, vals: Vec<Value>)
        ensures
            final(self)@ == applied(old(self)@, purpose@, values(vals@)),
    {
        match purpose {
            Purpose::Array => self.give(Value::Array(vals)),
            Purpose::Object(names) => self.give(Value::Object(join_table(names, vals))),
            Purpose::Print => {
                let mut out: Vec<Piece> = Vec::new();
                assert(pieces(out@) =~= seq![]);
                show_list(&vals, " ", &mut out);
                assert(pieces(out@) =~= shown_list(values(vals@), " "@, vals@.len() as int));
                self.ask(Request::Print(out));
            },
            Purpose::Input => {
                if vals.len() == 0 {
                    let out: Vec<Piece> = Vec::new();
                    assert(pieces(out@) =~= seq![]);
                    self.ask(Request::Input(out));
                } else {
                    self.ask(Request::Input(format_value(&vals[0])));
                }
            },
            Purpose::Math(f) => self.effect(invoke_math(f.as_str(), &vals)),
            Purpose::Str(f) => self.effect(invoke_str(f.as_str(), &vals)),
            Purpose::Arr(f) => self.effect(invoke_arr(f.as_str(), &vals)),
            Purpose::TimeFormat => self.effect(invoke_time_format(&vals)),
            Purpose::Json(f) => self.effect(invoke_json(f.as_str(), &vals)),
            Purpose::Sys(f) => self.effect(invoke_sys(f.as_str(), &vals)),
            Purpose::Gui(f) => self.effect(invoke_gui(f.as_str(), &vals)),
            Purpose::Http(f) => self.effect(invoke_http(f.as_str(), &vals)),
            Purpose::Db(f) => {
                let r = invoke_db(&self.rt.db_open, f.as_str(), &vals);
                self.effect(r);
            },
            Purpose::File(f) => self.effect(invoke_file(f.as_str(), &vals)),
            Purpose::CaseEquals(target) => self.compare_case(target, vals),
            Purpose::Method { kind, id, method } => match gui_method(&mut self.rt, kind, id, method.as_str(), &vals) {
                Ok(run) => {
                    if run {
                        self.gui_run_window(id);
                    } else {
                        self.give(Value::Null);
                    }
                },
                Err(e) => self.fail(e),
            },
            Purpose::SelectFile => self.effect(select_file_builtin(&vals)),
            Purpose::Assert => self.effect(assert_builtin(&vals)),
            Purpose::Call(call) => {
                let mut call = call;
                add_arguments(&mut call, vals);
                self.bind_params(call, 0);
            },
        }
    }

    fn compare_case(&mut self, target: Value, vals: Vec<Value>)
        ensures
            final(self)@ == case_equal(old(self)@, target@, values(vals@)),
    {
        if vals.len() == 1 {
            match (&target, &vals[0]) {
                (Value::String(a), Value::String(b)) => {
                    let r = same(a.as_str(), b.as_str());
                    self.give(Value::Logic(r));
                },
                _ => self.fail(throw_err("TypeError", "case-sensitive equality requires two strings")),
            }
        } else {
            self.fail(throw_err("ValueError", "case-sensitive equality expects exactly one argument"));
        }
    }

    /// A call, by the name it goes by.
    pub(crate) fn invoke_function(
        &mut self,
        object: Option<String>,
        module: Option<String>,
        function: String,
        args: Vec<Value>,
    )
        ensures
            final(self)@ == invoked(old(self)@, text_opt(object), text_opt(module), function@, values(args@)),
    {
        match module {
            Some(alias) => self.invoke_module(object, alias, function, args),
            None => match object {
                Some(obj) => self.invoke_object(obj, function, args),
                None => self.invoke_plain(None, function, args),
            },
        }
    }

    fn invoke_module(&mut self, object: Option<String>, alias: String, function: String, args: Vec<Value>)
        ensures
            final(self)@ == module_invoked(old(self)@, text_opt(object), alias@, function@, values(args@)),
    {
        if object.is_some() {
            self.fail(fatal_err("module call cannot have an object"));
            return ;
        }
        if self.rt.module(alias.as_str()).is_none() {
            self.fail(complain_module(alias.as_str()));
            return ;
        }
        match self.rt.read_global(alias.as_str(), function.as_str()) {
            None => self.fail(complain_export(alias.as_str(), function.as_str())),
            Some(Value::Function { params, defaults, body }) => {
                let env = self.rt.module_merged_env(alias.as_str());
                let types = self.rt.module_merged_types(alias.as_str());
                let local = Scope { env, types, cur: alias };
                self.call(Call { local, pass: Value::Null, params, defaults, body, function, args });
            },
            Some(_) => self.fail(
                throw_pieces(
                    "TypeError",
                    text_4(text(alias.as_str()), text(":"), text(function.as_str()), text(" is not callable")),
                ),
            ),
        }
    }

    /// A call with an object: one of the built-in libraries, or what the object
    /// holds.
    fn invoke_object(&mut self, obj: String, function: String, args: Vec<Value>)
        ensures
            final(self)@ == object_invoked(old(self)@, obj@, function@, values(args@)),
    {
        let o = obj.as_str();
        if same(o, "con") && same(function.as_str(), "Print") {
            self.list(Purpose::Print, args);
        } else if same(o, "con") && same(function.as_str(), "Input") {
            if args.len() > 1 {
                self.fail(throw_err("ValueError", "Input expects zero or one argument"));
            } else {
                self.list(Purpose::Input, args);
            }
        } else if same(o, "math") {
            self.list(Purpose::Math(function), args);
        } else if same(o, "str") {
            self.list(Purpose::Str(function), args);
        } else if same(o, "arr") {
            self.list(Purpose::Arr(function), args);
        } else if same(o, "time") {
            if same(function.as_str(), "Now") {
                if args.len() > 0 {
                    self.fail(throw_err("ValueError", "Now expects no arguments"));
                } else {
                    self.ask(Request::Now);
                }
            } else if same(function.as_str(), "Format") {
                self.list(Purpose::TimeFormat, args);
            } else {
                self.effect(complain_unknown("Unknown time function: ", function.as_str()));
            }
        } else if same(o, "json") {
            self.list(Purpose::Json(function), args);
        } else if same(o, "sys") {
            self.list(Purpose::Sys(function), args);
        } else if same(o, "gui") {
            self.list(Purpose::Gui(function), args);
        } else if same(o, "http") {
            self.list(Purpose::Http(function), args);
        } else if same(o, "db") {
            self.list(Purpose::Db(function), args);
        } else if same(o, "file") {
            self.list(Purpose::File(function), args);
        } else {
            self.invoke_plain(Some(obj), function, args);
        }
    }

    fn find_either(&self, name: &str) -> (r: Option<Value>)
        ensures
            value_opt(r) == either_name(self@, name@),
    {
        match resolve_variable_name(name, &self.rt, &self.scope) {
            Some(v) => Some(v),
            None => lookup_scoped(name, &self.rt, &self.scope),
        }
    }

    /// A call that no library answers.
    fn invoke_plain(&mut self, object: Option<String>, function: String, args: Vec<Value>)
        ensures
            final(self)@ == plainly_invoked(old(self)@, text_opt(object), function@, values(args@)),
    {
        let compares = equal_ignoring_case(function.as_str(), "EqualsCaseSensitive") || equal_ignoring_case(
            function.as_str(),
            "caseSensitiveEquals",
        );
        match object {
            None => {
                if compares {
                    self.fail(throw_err("ValueError", "case-sensitive equality requires a target value"));
                } else {
                    self.invoke_callee(false, Value::Null, function, args);
                }
            },
            Some(obj) => match self.find_either(obj.as_str()) {
                None => self.fail(complain_variable(obj.as_str())),
                Some(pass) => {
                    if compares {
                        if args.len() == 1 {
                            self.list(Purpose::CaseEquals(pass), args);
                        } else {
                            self.fail(
                                throw_err("ValueError", "case-sensitive equality expects exactly one argument"),
                            );
                        }
                    } else {
                        match lookup_scoped(obj.as_str(), &self.rt, &self.scope) {
                            Some(Value::Gui { kind, id }) => {
                                if !has_widget(&self.rt, id) {
                                    self.fail(complain_closed(kind));
                                } else {
                                    self.list(Purpose::Method { kind, id, method: function }, args);
                                }
                            },
                            Some(Value::Null) => {
                                let f = function.as_str();
                                if same(f, "Run") || same(f, "AttachToWindow") || same(f, "SetPos") || same(f, "OnClick") {
                                    self.fail(
                                        throw_pieces("GuiError", text_2(text(obj.as_str()), text(" was closed"))),
                                    );
                                } else {
                                    self.invoke_callee(true, pass, function, args);
                                }
                            },
                            _ => self.invoke_callee(true, pass, function, args),
                        }
                    }
                },
            },
        }
    }

    /// A call of what the name of the function stands for.
    fn invoke_callee(&mut self, has_object: bool, pass: Value, function: String, args: Vec<Value>)
        ensures
            final(self)@ == callee_invoked(old(self)@, has_object, pass@, function@, values(args@)),
    {
        match self.find_either(function.as_str()) {
            None => {
                if same(function.as_str(), "selectFile") && !has_object {
                    self.list(Purpose::SelectFile, args);
                } else if same(function.as_str(), "assert") && !has_object {
                    self.list(Purpose::Assert, args);
                } else {
                    self.fail(complain_variable(function.as_str()));
                }
            },
            Some(Value::Function { params, defaults, body }) => {
                let local = self.scope.copy();
                self.call(Call { local, pass, params, defaults, body, function, args });
            },
            Some(_) => self.fail(
                throw_pieces("TypeError", text_2(text(function.as_str()), text(" is not callable"))),
            ),
        }
    }

    /// Goes one call deeper, unless the calls are nested too deep already.
    pub(crate) fn enter_call(&mut self) -> (r: bool)
        ensures
            match entered(old(self)@) {
                Some(t) => r && final(self)@ == t,
                None => !r && final(self)@ == old(self)@,
            },
    {
        if self.rt.call_depth < MAX_CALL_DEPTH {
            self.rt.call_depth = self.rt.call_depth + 1;
            self.push(Frame::Guard);
            true
        } else {
            false
        }
    }

    /// A call of a function of the script.
    fn call(&mut self, call: Call)
        ensures
            final(self)@ == called(old(self)@, call@),
    {
        if self.enter_call() {
            let args = copy_values(&call.args);
            self.list(Purpose::Call(call), args);
        } else {
            self.fail(complain_depth());
        }
    }

    /// Binds the parameters from `next` on; then the body runs.
    pub(crate) fn bind_params(&mut self, call: Call, next: usize)
        ensures
            final(self)@ == bound(old(self)@, call@, next as int),
    {
        if next < call.params.len() {
            if next < call.args.len() {
                let v = call.args[next].copy();
                self.push(Frame::Bind { call, next });
                self.evaluate(v);
            } else {
                let found = match get(&call.defaults, call.params[next].as_str()) {
                    Some(v) => Some(v.copy()),
                    None => None,
                };
                match found {
                    Some(v) => {
                        self.push(Frame::Bind { call, next });
                        self.evaluate(v);
                    },
                    None => self.fail(
                        throw_pieces(
                            "ValueError",
                            text_4(
                                text(call.function.as_str()),
                                text("() missing required argument '"),
                                text(call.params[next].as_str()),
                                text("'"),
                            ),
                        ),
                    ),
                }
            }
        } else {
            let saved = self.scope.copy();
            self.push(Frame::Body(saved));
            self.scope = call.local;
            self.run(call.body);
        }
    }

    /// The element of a container.
    pub(crate) fn give_element(&mut self, container: Value, i: u64)
        ensures
            final(self)@ == element(old(self)@, container@, i as int),
    {
        match container {
            Value::Array(items) => {
                assert(values(items@).len() == items@.len());
                if i < items.len() as u64 {
                    let v = items[i as usize].copy();
                    self.give(v);
                } else {
                    self.fail(complain_index(i));
                }
            },
            Value::String(t) => {
                let chars = chars_of(t.as_str());
                if i < chars.len() as u64 {
                    let one = string_of(&chars, i as usize, i as usize + 1);
                    assert(one@ =~= seq![t@[i as int]]);
                    self.give(Value::String(one));
                } else {
                    self.fail(complain_index(i));
                }
            },
            other => self.fail(complain_value("Index requires an array or string, got ", &other)),
        }
    }

    pub(crate) fn give_element_at(&mut self, container: Value, index: Value)
        ensures
            final(self)@ == element_at(old(self)@, container@, index@),
    {
        match index {
            Value::Number(n) => match find_index(n) {
                Some(i) => self.give_element(container, i),
                None => self.fail(
                    throw_pieces(
                        "TypeError",
                        text_2(text("index must be a non-negative integer, got "), Piece::Number(n)),
                    ),
                ),
            },
            other => self.fail(
                complain_value("Index requires an array or string with a numeric index, got ", &other),
            ),
        }
    }

    pub(crate) fn give_property(&mut self, target: Value, key: String)
        ensures
            final(self)@ == property_of(old(self)@, target@, key@),
    {
        match target {
            Value::Object(t) => match get(&t, key.as_str()) {
                Some(v) => {
                    let v = v.copy();
                    self.give(v);
                },
                None => self.fail(complain_property(key.as_str())),
            },
            Value::Error { error_type, message } => {
                if same(key.as_str(), "type") {
                    self.give(Value::String(error_type));
                } else if same(key.as_str(), "message") {
                    self.give(Value::String(message));
                } else {
                    self.fail(complain_property(key.as_str()));
                }
            },
            Value::Null => self.give(Value::Null),
            other => self.fail(complain_value("Property access requires an object, got ", &other)),
        }
    }
}

pub(crate) fn complain_depth() -> (r: Failure)
    ensures
        r@ == too_deep(),
{
    fatal_err("maximum call depth exceeded (possible infinite recursion)")
}

/// Puts `pass`, `arg` and `args` into the scope of a call.
pub(crate) fn add_arguments(call: &mut Call, vals: Vec<Value>)
    ensures
        final(call)@ == with_arguments(old(call)@, values(vals@)),
{
    let pass = call.pass.copy();
    store(&mut call.local.env, "pass".to_string(), pass);
    store(&mut call.local.env, "arg".to_string(), Value::Array(copy_values(&vals)));
    store(&mut call.local.env, "args".to_string(), Value::Array(vals));
}

} // verus!
