//! What a script does as it runs.

use crate::arrlib::arr_function;
use crate::ast::{BinaryOperator, GuiKind, StatementModel, TargetModel, UnaryOperator, ValueModel};
use crate::builtins::math;
use crate::comparing::{conditions_fail_on_empty_values, counts_as_no};
use crate::draft::{FailureModel, FaultModel, PieceModel, PlanModel};
use crate::laws::lemma_set_global;
use crate::number::{finite, index_is_the_integer, integral, no_index_beyond_numbers, one, truncated, units};
use crate::operators::{binary_result, unary_result};
use crate::request::{EffectModel, RequestModel};
use crate::runtime::{fits, named_value, scoped, RuntimeModel, ScopeModel};
use crate::semantics::{
    applied, characters, compares_case, contents, each_step, effected, list_step, offered, shadow_of, unshadowed,
    zipped,
};
use crate::show::{shown, shown_list, type_of};
use crate::state::{FlowModel, FocusModel, FrameModel, MachineModel, PurposeModel, ShadowModel, WaitModel};
use crate::steps::{idle, popped, step};
use crate::strlib::str_function;
use crate::syslib::{
    assertion, db_function, file_function, gui_function, http_function, json_function, select_file, sys_function,
    time_format,
};
use crate::table::{keys, lookup, put_then_lookup};
use vstd::prelude::*;

verus! {

// States.
/// The machine with something in view.
pub open spec fn viewing(s: MachineModel, focus: FocusModel) -> MachineModel {
    MachineModel { focus, ..s }
}

/// The machine with something in view and a frame that waits for it.
pub open spec fn meeting(s: MachineModel, frame: FrameModel, focus: FocusModel) -> MachineModel {
    MachineModel { focus, stack: s.stack.push(frame), ..s }
}

/// Whether the machine is about to raise an error of this type, with nothing else changed.
pub open spec fn raises(t: MachineModel, s: MachineModel, error_type: Seq<char>) -> bool {
    &&& t.stack == s.stack.push(FrameModel::Raise(error_type))
    &&& t.scope == s.scope
    &&& t.rt == s.rt
    &&& t.focus is Value || t.focus is Await
}

/// Whether the machine met a fault that nothing catches.
pub open spec fn is_fatal(t: MachineModel) -> bool {
    t.focus matches FocusModel::Fault(FaultModel::Fatal(_))
}

/// Whether the machine goes on with a value that the plan comes to.
pub open spec fn goes_on_with(t: MachineModel, s: MachineModel, p: PlanModel) -> bool {
    t == offered(s, p)
}

proof fn lemma_meeting(s: MachineModel, frame: FrameModel, focus: FocusModel)
    ensures
        popped(idle(meeting(s, frame, focus))) == idle(s),
{
    assert(s.stack.push(frame).drop_last() =~= s.stack);
}

// Values.
/// An error that is raised has the type and the message that it was raised with.
pub proof fn raised_errors_have_type_and_message(s: MachineModel, error_type: Seq<char>, m: Seq<char>)
    ensures
        step(meeting(s, FrameModel::Raise(error_type), FocusModel::Value(ValueModel::String(m)))) == viewing(
            s,
            FocusModel::Fault(FaultModel::Throw(ValueModel::Error { error_type, message: m })),
        ),
{
    lemma_meeting(s, FrameModel::Raise(error_type), FocusModel::Value(ValueModel::String(m)));
}

/// `throw` takes what its message displays as.
pub proof fn thrown_messages_are_displayed(s: MachineModel, error_type: Seq<char>, e: ValueModel, v: ValueModel)
    ensures
        step(viewing(s, FocusModel::Exec(StatementModel::Throw { error_type, message: Box::new(e) }))) == meeting(
            s,
            FrameModel::Throw(error_type),
            FocusModel::Eval(e),
        ),
        goes_on_with(
            step(meeting(s, FrameModel::Throw(error_type), FocusModel::Value(v))),
            meeting(s, FrameModel::Raise(error_type), FocusModel::Done),
            PlanModel::Text(shown(v)),
        ),
{
    lemma_meeting(s, FrameModel::Throw(error_type), FocusModel::Value(v));
}

/// A property of an object is what it has under the key, and a missing one is a `NameError`.
/// An error has its type and its message, null has null for every property, and other values
/// have none.
pub proof fn properties_are_read(s: MachineModel, v: ValueModel, key: Seq<char>)
    ensures
        ({
            let t = step(meeting(s, FrameModel::Property(key), FocusModel::Value(v)));
            match v {
                ValueModel::Object(entries) => match lookup(entries, key) {
                    Some(x) => t == viewing(s, FocusModel::Value(x)),
                    None => raises(t, s, "NameError"@),
                },
                ValueModel::Error { error_type, message } => {
                    &&& key == "type"@ ==> t == viewing(s, FocusModel::Value(ValueModel::String(error_type)))
                    &&& key == "message"@ ==> t == viewing(s, FocusModel::Value(ValueModel::String(message)))
                    &&& key != "type"@ && key != "message"@ ==> raises(t, s, "NameError"@)
                },
                ValueModel::Null => t == viewing(s, FocusModel::Value(ValueModel::Null)),
                _ => raises(t, s, "TypeError"@),
            }
        }),
{
    lemma_meeting(s, FrameModel::Property(key), FocusModel::Value(v));
    reveal_strlit("type");
    reveal_strlit("message");
    assert("type"@.len() == 4 && "message"@.len() == 7);
}

/// Whether a number is the integer `i`.
pub open spec fn is_integer(n: u64, i: int) -> bool {
    finite(n) && units(n) == i * one()
}

/// What stands at an index of an array is its item there, and of a string its character,
/// counted from zero. Past the end it is an `IndexError`; what is no integer, or below zero,
/// is a `TypeError`, and so is a container of another kind.
pub proof fn elements_are_read(s: MachineModel, v: ValueModel, index: ValueModel, i: int)
    ensures
        ({
            let t = step(meeting(s, FrameModel::IndexAt(v), FocusModel::Value(index)));
            match index {
                ValueModel::Number(n) => {
                    &&& is_integer(n, i) && 0 <= i <= u64::MAX ==> match v {
                        ValueModel::Array(items) => if i < items.len() {
                            t == viewing(s, FocusModel::Value(items[i]))
                        } else {
                            raises(t, s, "IndexError"@)
                        },
                        ValueModel::String(text) => if i < text.len() {
                            t == viewing(s, FocusModel::Value(ValueModel::String(seq![text[i]])))
                        } else {
                            raises(t, s, "IndexError"@)
                        },
                        _ => raises(t, s, "TypeError"@),
                    }
                    &&& !finite(n) || !integral(n) || units(n) < 0 ==> raises(t, s, "TypeError"@)
                },
                _ => raises(t, s, "TypeError"@),
            }
        }),
{
    lemma_meeting(s, FrameModel::IndexAt(v), FocusModel::Value(index));
    if let ValueModel::Number(n) = index {
        if finite(n) {
            if i >= 0 {
                index_is_the_integer(n, i);
            }
            index_is_the_integer(n, 0);
        } else {
            no_index_beyond_numbers(n);
        }
    }
}

/// A number that is a value, a string, an array and the like is worth itself, and an operator
/// takes what is worth its left operand, and then its right one.
pub proof fn operands_are_worked_out_in_order(
    s: MachineModel,
    l: ValueModel,
    r: ValueModel,
    op: BinaryOperator,
    x: ValueModel,
    y: ValueModel,
)
    ensures
        step(viewing(s, FocusModel::Eval(ValueModel::Binary { left: Box::new(l), op, right: Box::new(r) }))) == meeting(
            s,
            FrameModel::Left { op, right: r },
            FocusModel::Eval(l),
        ),
        step(meeting(s, FrameModel::Left { op, right: r }, FocusModel::Value(x))) == meeting(
            s,
            FrameModel::Right { op, left: x },
            FocusModel::Eval(r),
        ),
        binary_result(x, y, op) matches Ok(p) ==> goes_on_with(
            step(meeting(s, FrameModel::Right { op, left: x }, FocusModel::Value(y))),
            idle(s),
            p,
        ),
        binary_result(x, y, op) matches Err(FailureModel::Throw { error_type, .. }) ==> raises(
            step(meeting(s, FrameModel::Right { op, left: x }, FocusModel::Value(y))),
            s,
            error_type,
        ),
{
    lemma_meeting(s, FrameModel::Left { op, right: r }, FocusModel::Value(x));
    lemma_meeting(s, FrameModel::Right { op, left: x }, FocusModel::Value(y));
}

/// A unary operator takes what its operand is worth.
pub proof fn unary_operators_take_their_operand(s: MachineModel, e: ValueModel, op: UnaryOperator, x: ValueModel)
    ensures
        step(viewing(s, FocusModel::Eval(ValueModel::Unary { op, value: Box::new(e) }))) == meeting(
            s,
            FrameModel::Unary(op),
            FocusModel::Eval(e),
        ),
        unary_result(x, op) matches Ok(p) ==> goes_on_with(
            step(meeting(s, FrameModel::Unary(op), FocusModel::Value(x))),
            idle(s),
            p,
        ),
        unary_result(x, op) matches Err(FailureModel::Throw { error_type, .. }) ==> raises(
            step(meeting(s, FrameModel::Unary(op), FocusModel::Value(x))),
            s,
            error_type,
        ),
{
    lemma_meeting(s, FrameModel::Unary(op), FocusModel::Value(x));
}

/// A plain value is worth itself, and so is a handle, an error or a function.
pub proof fn plain_values_are_worth_themselves(s: MachineModel, v: ValueModel)
    requires
        v is Null || v is Number || v is String || v is Logic || v is Error || v is File || v is Db || v is Gui
            || v is Function,
    ensures
        step(viewing(s, FocusModel::Eval(v))) == viewing(s, FocusModel::Value(v)),
{
}

/// An array is worth the array of what its items are worth, and an object has under each key
/// what the expression there is worth; both are worked out in order.
pub proof fn collections_are_worked_out_in_order(
    s: MachineModel,
    items: Seq<ValueModel>,
    t: Seq<(Seq<char>, ValueModel)>,
    vals: Seq<ValueModel>,
)
    ensures
        items.len() == vals.len() ==> calls_library(
            step(viewing(s, FocusModel::Eval(ValueModel::Array(items)))),
            s,
            items,
            vals,
            Ok(EffectModel::Plan(PlanModel::Ready(ValueModel::Array(vals)))),
        ),
        t.len() == vals.len() ==> calls_library(
            step(viewing(s, FocusModel::Eval(ValueModel::Object(t)))),
            s,
            Seq::new(t.len(), |i: int| t[i].1),
            vals,
            Ok(
                EffectModel::Plan(
                    PlanModel::Ready(ValueModel::Object(Seq::new(t.len(), |i: int| (t[i].0, vals[i])))),
                ),
            ),
        ),
{
    if items.len() == vals.len() {
        lemma_library(
            s,
            PurposeModel::Array,
            items,
            vals,
            Ok(EffectModel::Plan(PlanModel::Ready(ValueModel::Array(vals)))),
        );
    }
    if t.len() == vals.len() {
        let exprs = Seq::new(t.len(), |i: int| t[i].1);
        let made = Seq::new(t.len(), |i: int| (t[i].0, vals[i]));
        assert(contents(t) =~= exprs);
        assert(zipped(keys(t), vals) =~= made);
        lemma_library(
            s,
            PurposeModel::Object(keys(t)),
            exprs,
            vals,
            Ok(EffectModel::Plan(PlanModel::Ready(ValueModel::Object(made)))),
        );
    }
}

// Assignments.
/// A compound assignment takes what the target holds on the left of its operator and what
/// its expression is worth on the right, and writes the result; one without an operator
/// writes what its expression is worth.
pub proof fn assignments_combine_old_and_new(
    s: MachineModel,
    target: TargetModel,
    op: BinaryOperator,
    e: ValueModel,
    held: ValueModel,
    worth: ValueModel,
    result: ValueModel,
)
    ensures
        step(
            viewing(s, FocusModel::Exec(StatementModel::Assign { target, op: Some(op), value: Box::new(e) })),
        ) == meeting(s, FrameModel::Assign { target, op: Some(op) }, FocusModel::Eval(e)),
        step(meeting(s, FrameModel::Assign { target, op: Some(op) }, FocusModel::Value(worth))) == meeting(
            s,
            FrameModel::AssignRead { target, op: Some(op), value: worth },
            FocusModel::Read(target),
        ),
        binary_result(held, worth, op) matches Ok(p) ==> goes_on_with(
            step(meeting(s, FrameModel::AssignRead { target, op: Some(op), value: worth }, FocusModel::Value(held))),
            meeting(s, FrameModel::AssignWrite(target), FocusModel::Done),
            p,
        ),
        step(meeting(s, FrameModel::AssignWrite(target), FocusModel::Value(result))) == viewing(
            s,
            FocusModel::Write(target, result),
        ),
        step(meeting(s, FrameModel::AssignRead { target, op: None, value: worth }, FocusModel::Value(held)))
            == viewing(s, FocusModel::Write(target, worth)),
{
    lemma_meeting(s, FrameModel::Assign { target, op: Some(op) }, FocusModel::Value(worth));
    lemma_meeting(s, FrameModel::AssignRead { target, op: Some(op), value: worth }, FocusModel::Value(held));
    lemma_meeting(s, FrameModel::AssignRead { target, op: None, value: worth }, FocusModel::Value(held));
    lemma_meeting(s, FrameModel::AssignWrite(target), FocusModel::Value(result));
}

// Types.
/// How the names of the types are spelled, as far as it tells them apart.
proof fn lemma_type_names()
    ensures
        "null"@.len() == 4 && "null"@[0] == 'n',
        "number"@.len() == 6 && "number"@[0] == 'n',
        "string"@.len() == 6 && "string"@[0] == 's',
        "logic"@.len() == 5 && "logic"@[0] == 'l',
        "variable"@.len() == 8 && "variable"@[0] == 'v',
        "object"@.len() == 6 && "object"@[0] == 'o',
        "file"@.len() == 4 && "file"@[0] == 'f',
        "db"@.len() == 2,
        "array"@.len() == 5 && "array"@[0] == 'a',
        "index"@.len() == 5 && "index"@[0] == 'i',
        "function-call"@.len() == 13,
        "module-var"@.len() == 10 && "module-var"@[0] == 'm',
        "expression"@.len() == 10 && "expression"@[0] == 'e',
        "property"@.len() == 8 && "property"@[0] == 'p',
        "function"@.len() == 8 && "function"@[0] == 'f',
        "error"@.len() == 5 && "error"@[0] == 'e',
        "window"@.len() == 6 && "window"@[0] == 'w',
        "button"@.len() == 6 && "button"@[0] == 'b',
{
    reveal_strlit("null");
    reveal_strlit("number");
    reveal_strlit("string");
    reveal_strlit("logic");
    reveal_strlit("variable");
    reveal_strlit("object");
    reveal_strlit("file");
    reveal_strlit("db");
    reveal_strlit("array");
    reveal_strlit("index");
    reveal_strlit("function-call");
    reveal_strlit("module-var");
    reveal_strlit("expression");
    reveal_strlit("property");
    reveal_strlit("function");
    reveal_strlit("error");
    reveal_strlit("window");
    reveal_strlit("button");
}

/// Whether a value is of the type that the word names.
pub open spec fn is_of(v: ValueModel, word: Seq<char>) -> bool {
    ||| v is Number && word == "number"@
    ||| v is String && word == "string"@
    ||| v is Logic && word == "logic"@
    ||| v is Array && word == "array"@
    ||| v is Object && word == "object"@
    ||| v is File && word == "file"@
    ||| v is Db && word == "db"@
    ||| v is Function && word == "function"@
    ||| v matches ValueModel::Gui { kind: GuiKind::Window, .. } && word == "window"@
    ||| v matches ValueModel::Gui { kind: GuiKind::Button, .. } && word == "button"@
}

/// A variable takes null and values of the type that it was declared with, and no others;
/// messages name that type.
pub proof fn variables_take_their_type(v: ValueModel, word: Seq<char>)
    ensures
        fits(word, v) <==> v is Null || is_of(v, word),
        is_of(v, word) ==> type_of(v) == word,
        type_of(v) == "null"@ <==> v is Null,
        type_of(v) == "error"@ <==> v is Error,
{
    lemma_type_names();
}

// Loops and blocks.
/// A block goes on with its next statement as long as each ends normally; any other end is
/// the end of the block.
pub proof fn blocks_go_on(s: MachineModel, statements: Seq<StatementModel>, next: int, f: FlowModel)
    requires
        0 <= next <= statements.len(),
    ensures
        ({
            let t = step(meeting(s, FrameModel::Block { statements, next }, FocusModel::Flow(f)));
            if f is Normal && next < statements.len() {
                t == meeting(s, FrameModel::Block { statements, next: next + 1 }, FocusModel::Exec(statements[next]))
            } else {
                t == viewing(s, FocusModel::Flow(f))
            }
        }),
{
    lemma_meeting(s, FrameModel::Block { statements, next }, FocusModel::Flow(f));
}

/// `break`, `continue` and `return` end the block that they stand in.
pub proof fn jumps_are_ends(s: MachineModel, e: ValueModel, v: ValueModel)
    ensures
        step(viewing(s, FocusModel::Exec(StatementModel::Break))) == viewing(s, FocusModel::Flow(FlowModel::Break)),
        step(viewing(s, FocusModel::Exec(StatementModel::Continue))) == viewing(
            s,
            FocusModel::Flow(FlowModel::Continue),
        ),
        step(viewing(s, FocusModel::Exec(StatementModel::Return { value: Box::new(e) }))) == meeting(
            s,
            FrameModel::Return,
            FocusModel::Eval(e),
        ),
        step(meeting(s, FrameModel::Return, FocusModel::Value(v))) == viewing(s, FocusModel::Flow(FlowModel::Return(v))),
{
    lemma_meeting(s, FrameModel::Return, FocusModel::Value(v));
}

/// A `while` tests its condition before each turn and ends where it counts as no. `break` ends
/// it, `continue` goes on with the next test, and `return` ends what is around it too. After
/// a million turns it is taken for endless.
pub proof fn while_loops_turn(
    s: MachineModel,
    condition: ValueModel,
    body: Seq<StatementModel>,
    count: int,
    v: ValueModel,
    w: ValueModel,
)
    requires
        count >= 0,
    ensures
        step(viewing(s, FocusModel::Exec(StatementModel::While { condition, body }))) == meeting(
            s,
            FrameModel::WhileTest { condition, body, count: 0 },
            FocusModel::Eval(condition),
        ),
        counts_as_no(v) ==> step(meeting(s, FrameModel::WhileTest { condition, body, count }, FocusModel::Value(v)))
            == viewing(s, FocusModel::Flow(FlowModel::Normal)),
        !counts_as_no(v) ==> step(meeting(s, FrameModel::WhileTest { condition, body, count }, FocusModel::Value(v)))
            == meeting(
            meeting(s, FrameModel::WhileBody { condition, body, count }, FocusModel::Done),
            FrameModel::Block { statements: body, next: 0 },
            FocusModel::Flow(FlowModel::Normal),
        ),
        count + 1 < 1_000_000 ==> step(
            meeting(s, FrameModel::WhileBody { condition, body, count }, FocusModel::Flow(FlowModel::Normal)),
        ) == meeting(s, FrameModel::WhileTest { condition, body, count: count + 1 }, FocusModel::Eval(condition)),
        count + 1 >= 1_000_000 ==> is_fatal(
            step(meeting(s, FrameModel::WhileBody { condition, body, count }, FocusModel::Flow(FlowModel::Normal))),
        ),
        step(meeting(s, FrameModel::WhileBody { condition, body, count }, FocusModel::Flow(FlowModel::Continue)))
            == step(meeting(s, FrameModel::WhileBody { condition, body, count }, FocusModel::Flow(FlowModel::Normal))),
        step(meeting(s, FrameModel::WhileBody { condition, body, count }, FocusModel::Flow(FlowModel::Break)))
            == viewing(s, FocusModel::Flow(FlowModel::Normal)),
        step(meeting(s, FrameModel::WhileBody { condition, body, count }, FocusModel::Flow(FlowModel::Return(w))))
            == viewing(s, FocusModel::Flow(FlowModel::Return(w))),
{
    conditions_fail_on_empty_values(v, v);
    lemma_meeting(s, FrameModel::WhileTest { condition, body, count }, FocusModel::Value(v));
    lemma_meeting(s, FrameModel::WhileBody { condition, body, count }, FocusModel::Flow(FlowModel::Normal));
    lemma_meeting(s, FrameModel::WhileBody { condition, body, count }, FocusModel::Flow(FlowModel::Continue));
    lemma_meeting(s, FrameModel::WhileBody { condition, body, count }, FocusModel::Flow(FlowModel::Break));
    lemma_meeting(s, FrameModel::WhileBody { condition, body, count }, FocusModel::Flow(FlowModel::Return(w)));
}

/// Whether the machine is about to run the body with the first of the items in the variable,
/// and then with the others in their order, and will give the variable back.
pub open spec fn visits(
    t: MachineModel,
    s: MachineModel,
    var: Seq<char>,
    body: Seq<StatementModel>,
    items: Seq<ValueModel>,
) -> bool {
    let n = s.stack.len() as int;
    &&& t.stack.len() == n + 2
    &&& t.stack.take(n) == s.stack
    &&& t.stack[n] matches FrameModel::EachBody { shadow, body: b, items: xs, next } && b == body && xs == items
        && next == 1 && shadow.key == "var."@ + var && shadow.saved == lookup(s.scope.env, "var."@ + var)
    &&& t.stack[n + 1] == (FrameModel::Block { statements: body, next: 0 })
    &&& t.focus == FocusModel::Flow(FlowModel::Normal)
    &&& scoped(t.rt, t.scope, var) == Some(items[0])
}

proof fn lemma_visits(s: MachineModel, var: Seq<char>, body: Seq<StatementModel>, items: Seq<ValueModel>)
    requires
        items.len() > 0,
    ensures
        visits(each_step(s, shadow_of(s, var), body, items, 0), s, var, body, items),
{
    let t = each_step(s, shadow_of(s, var), body, items, 0);
    assert(t.stack.take(s.stack.len() as int) =~= s.stack);
    put_then_lookup(s.scope.env, "var."@ + var, items[0], "var."@ + var);
    lemma_set_global(s.rt, s.scope.cur, var, items[0], var.push('x'));
}

/// A `for` over an array takes its items and over a string its characters, from the first to
/// the last; other values are a `TypeError`.
pub proof fn for_loops_take_items(
    s: MachineModel,
    var: Seq<char>,
    body: Seq<StatementModel>,
    v: ValueModel,
)
    ensures
        ({
            let t = step(meeting(s, FrameModel::EachStart { var, body }, FocusModel::Value(v)));
            &&& v is Array && v->Array_0.len() == 0 || v is String && v->String_0.len() == 0 ==> t.focus
                == FocusModel::Flow(FlowModel::Normal)
            &&& v matches ValueModel::Array(items) ==> items.len() > 0 ==> visits(t, s, var, body, items)
            &&& v matches ValueModel::String(text) ==> text.len() > 0 ==> visits(
                t,
                s,
                var,
                body,
                Seq::new(text.len(), |i: int| ValueModel::String(seq![text[i]])),
            )
            &&& !(v is Array) && !(v is String) ==> raises(t, s, "TypeError"@)
        }),
{
    lemma_meeting(s, FrameModel::EachStart { var, body }, FocusModel::Value(v));
    if let ValueModel::Array(items) = v {
        if items.len() > 0 {
            lemma_visits(idle(s), var, body, items);
        }
    }
    if let ValueModel::String(text) = v {
        let items = Seq::new(text.len(), |i: int| ValueModel::String(seq![text[i]]));
        assert(characters(text) =~= items);
        if text.len() > 0 {
            lemma_visits(idle(s), var, body, items);
        }
    }
}

/// A `for` over items or over a range ends with a `break`, goes on after a `continue`, and
/// lets a `return` through; the variable that it used is given back.
pub proof fn for_loops_turn(
    s: MachineModel,
    shadow: ShadowModel,
    body: Seq<StatementModel>,
    items: Seq<ValueModel>,
    next: int,
    at: i64,
    end: i64,
    w: ValueModel,
)
    requires
        0 <= next,
        at < end,
    ensures
        ({
            let each = FrameModel::EachBody { shadow, body, items, next };
            let range = FrameModel::RangeBody { shadow, body, at, end };
            &&& step(meeting(s, each, FocusModel::Flow(FlowModel::Continue))) == step(
                meeting(s, each, FocusModel::Flow(FlowModel::Normal)),
            )
            &&& step(meeting(s, range, FocusModel::Flow(FlowModel::Continue))) == step(
                meeting(s, range, FocusModel::Flow(FlowModel::Normal)),
            )
            &&& step(meeting(s, each, FocusModel::Flow(FlowModel::Break))) == viewing(
                unshadowed(s, shadow),
                FocusModel::Flow(FlowModel::Normal),
            )
            &&& step(meeting(s, range, FocusModel::Flow(FlowModel::Break))) == viewing(
                unshadowed(s, shadow),
                FocusModel::Flow(FlowModel::Normal),
            )
            &&& step(meeting(s, each, FocusModel::Flow(FlowModel::Return(w)))) == viewing(
                unshadowed(s, shadow),
                FocusModel::Flow(FlowModel::Return(w)),
            )
            &&& step(meeting(s, range, FocusModel::Flow(FlowModel::Return(w)))) == viewing(
                unshadowed(s, shadow),
                FocusModel::Flow(FlowModel::Return(w)),
            )
            &&& next >= items.len() ==> step(meeting(s, each, FocusModel::Flow(FlowModel::Normal))) == viewing(
                unshadowed(s, shadow),
                FocusModel::Flow(FlowModel::Normal),
            )
            &&& next < items.len() ==> ({
                let t = step(meeting(s, each, FocusModel::Flow(FlowModel::Normal)));
                &&& t.focus == FocusModel::Flow(FlowModel::Normal)
                &&& t.stack == s.stack.push(FrameModel::EachBody { shadow, body, items, next: next + 1 }).push(
                    FrameModel::Block { statements: body, next: 0 },
                )
                &&& lookup(t.scope.env, shadow.key) == Some(items[next])
            })
            &&& at + 1 < end ==> step(meeting(s, range, FocusModel::Flow(FlowModel::Normal))) == meeting(
                s,
                FrameModel::RangeItem { shadow, body, at: (at + 1) as i64, end },
                FocusModel::Await(WaitModel::Plan(PlanModel::Integer((at + 1) as i64))),
            )
            &&& at + 1 == end ==> step(meeting(s, range, FocusModel::Flow(FlowModel::Normal))) == viewing(
                unshadowed(s, shadow),
                FocusModel::Flow(FlowModel::Normal),
            )
        }),
{
    let each = FrameModel::EachBody { shadow, body, items, next };
    let range = FrameModel::RangeBody { shadow, body, at, end };
    lemma_meeting(s, each, FocusModel::Flow(FlowModel::Normal));
    lemma_meeting(s, each, FocusModel::Flow(FlowModel::Continue));
    lemma_meeting(s, each, FocusModel::Flow(FlowModel::Break));
    lemma_meeting(s, each, FocusModel::Flow(FlowModel::Return(w)));
    lemma_meeting(s, range, FocusModel::Flow(FlowModel::Normal));
    lemma_meeting(s, range, FocusModel::Flow(FlowModel::Continue));
    lemma_meeting(s, range, FocusModel::Flow(FlowModel::Break));
    lemma_meeting(s, range, FocusModel::Flow(FlowModel::Return(w)));
    if next < items.len() {
        put_then_lookup(s.scope.env, shadow.key, items[next], shadow.key);
    }
}

/// The bounds of a range are integers: what lies behind the point does not count. A bound
/// that is not finite or too large is a `ValueError`, and what is no number a `TypeError`.
pub proof fn ranges_have_integer_bounds(
    s: MachineModel,
    var: Seq<char>,
    body: Seq<StatementModel>,
    e: ValueModel,
    v: ValueModel,
    start: i64,
)
    ensures
        ({
            let from = step(meeting(s, FrameModel::RangeStart { var, end: e, body }, FocusModel::Value(v)));
            let to = step(meeting(s, FrameModel::RangeEnd { var, start, body }, FocusModel::Value(v)));
            match v {
                ValueModel::Number(n) => if finite(n) && i64::MIN <= truncated(n) <= i64::MAX {
                    &&& from == meeting(
                        s,
                        FrameModel::RangeEnd { var, start: truncated(n) as i64, body },
                        FocusModel::Eval(e),
                    )
                    &&& start < truncated(n) ==> to.focus == FocusModel::Await(WaitModel::Plan(PlanModel::Integer(start)))
                    &&& start >= truncated(n) ==> to.focus == FocusModel::Flow(FlowModel::Normal)
                } else {
                    raises(from, s, "ValueError"@) && raises(to, s, "ValueError"@)
                },
                _ => raises(from, s, "TypeError"@) && raises(to, s, "TypeError"@),
            }
        }),
{
    lemma_meeting(s, FrameModel::RangeStart { var, end: e, body }, FocusModel::Value(v));
    lemma_meeting(s, FrameModel::RangeEnd { var, start, body }, FocusModel::Value(v));
}

// Calls.
/// What ends the body of a function: the value that it returns, null where it returns none. A
/// `break` or a `continue` that is in no loop is fatal.
pub proof fn bodies_end(s: MachineModel, saved: ScopeModel, v: ValueModel)
    ensures
        ({
            let back = MachineModel { scope: saved, ..s };
            let frame = FrameModel::Body(saved);
            &&& step(meeting(s, frame, FocusModel::Flow(FlowModel::Return(v)))) == viewing(back, FocusModel::Value(v))
            &&& step(meeting(s, frame, FocusModel::Flow(FlowModel::Normal))) == viewing(
                back,
                FocusModel::Value(ValueModel::Null),
            )
            &&& is_fatal(step(meeting(s, frame, FocusModel::Flow(FlowModel::Break))))
            &&& is_fatal(step(meeting(s, frame, FocusModel::Flow(FlowModel::Continue))))
        }),
{
    let frame = FrameModel::Body(saved);
    lemma_meeting(s, frame, FocusModel::Flow(FlowModel::Return(v)));
    lemma_meeting(s, frame, FocusModel::Flow(FlowModel::Normal));
    lemma_meeting(s, frame, FocusModel::Flow(FlowModel::Break));
    lemma_meeting(s, frame, FocusModel::Flow(FlowModel::Continue));
}

/// The start of a file may not end with a `break`, a `continue` or a `return`.
pub proof fn starts_end_normally(s: MachineModel, v: ValueModel)
    ensures
        step(meeting(s, FrameModel::OnStart, FocusModel::Flow(FlowModel::Normal))) == viewing(
            s,
            FocusModel::Flow(FlowModel::Normal),
        ),
        is_fatal(step(meeting(s, FrameModel::OnStart, FocusModel::Flow(FlowModel::Break)))),
        is_fatal(step(meeting(s, FrameModel::OnStart, FocusModel::Flow(FlowModel::Continue)))),
        is_fatal(step(meeting(s, FrameModel::OnStart, FocusModel::Flow(FlowModel::Return(v))))),
{
    lemma_meeting(s, FrameModel::OnStart, FocusModel::Flow(FlowModel::Normal));
    lemma_meeting(s, FrameModel::OnStart, FocusModel::Flow(FlowModel::Break));
    lemma_meeting(s, FrameModel::OnStart, FocusModel::Flow(FlowModel::Continue));
    lemma_meeting(s, FrameModel::OnStart, FocusModel::Flow(FlowModel::Return(v)));
}

/// The block `kal.OnStart` runs where it stands; other blocks of `kal` do nothing. A call as a
/// statement goes on after it, whatever it was worth.
pub proof fn start_blocks_run(s: MachineModel, name: Seq<char>, body: Seq<StatementModel>, v: ValueModel)
    ensures
        step(
            viewing(s, FocusModel::Exec(StatementModel::Event { object: "kal"@, name: "OnStart"@, body })),
        ) == meeting(
            meeting(s, FrameModel::OnStart, FocusModel::Done),
            FrameModel::Block { statements: body, next: 0 },
            FocusModel::Flow(FlowModel::Normal),
        ),
        name != "OnStart"@ ==> step(viewing(s, FocusModel::Exec(StatementModel::Event { object: "kal"@, name, body })))
            == viewing(s, FocusModel::Flow(FlowModel::Normal)),
        step(meeting(s, FrameModel::Discard, FocusModel::Value(v))) == viewing(s, FocusModel::Flow(FlowModel::Normal)),
{
    lemma_meeting(s, FrameModel::Discard, FocusModel::Value(v));
}

/// The expression that calls a function by its name, on an object if there is one.
pub open spec fn call_of(object: Option<Seq<char>>, function: Seq<char>, args: Seq<ValueModel>) -> ValueModel {
    ValueModel::FunctionCall { object, module: None, function, args }
}

/// Calls nest up to 64 deep; one more is fatal.
pub proof fn calls_nest_up_to_a_limit(
    s: MachineModel,
    function: Seq<char>,
    params: Seq<Seq<char>>,
    defaults: Seq<(Seq<char>, ValueModel)>,
    body: Seq<StatementModel>,
    args: Seq<ValueModel>,
)
    requires
        scoped(s.rt, s.scope, function) == Some(ValueModel::Function { params, defaults, body }),
        named_value(s.rt, s.scope, function) is None,
        !compares_case(function),
    ensures
        ({
            let t = step(viewing(s, FocusModel::Eval(call_of(None, function, args))));
            &&& s.rt.call_depth >= 64 ==> is_fatal(t)
            &&& s.rt.call_depth < 64 ==> !is_fatal(t) && t.rt.call_depth == s.rt.call_depth + 1
        }),
{
}

/// A call that is over counts no longer.
pub proof fn calls_are_left_again(s: MachineModel, v: ValueModel, f: FaultModel)
    requires
        s.rt.call_depth > 0,
    ensures
        ({
            let back = MachineModel { rt: RuntimeModel { call_depth: s.rt.call_depth - 1, ..s.rt }, ..s };
            &&& step(meeting(s, FrameModel::Guard, FocusModel::Value(v))) == viewing(back, FocusModel::Value(v))
            &&& step(meeting(s, FrameModel::Guard, FocusModel::Fault(f))) == viewing(back, FocusModel::Fault(f))
        }),
{
    lemma_meeting(s, FrameModel::Guard, FocusModel::Value(v));
    lemma_meeting(s, FrameModel::Guard, FocusModel::Fault(f));
}

// Libraries.
/// How the names of the libraries are spelled, as far as it tells them apart.
proof fn lemma_library_names()
    ensures
        "con"@.len() == 3 && "con"@[0] == 'c',
        "math"@.len() == 4 && "math"@[0] == 'm',
        "str"@.len() == 3 && "str"@[0] == 's' && "str"@[1] == 't',
        "arr"@.len() == 3 && "arr"@[0] == 'a',
        "time"@.len() == 4 && "time"@[0] == 't',
        "json"@.len() == 4 && "json"@[0] == 'j',
        "sys"@.len() == 3 && "sys"@[0] == 's' && "sys"@[1] == 'y',
        "gui"@.len() == 3 && "gui"@[0] == 'g',
        "http"@.len() == 4 && "http"@[0] == 'h',
        "db"@.len() == 2,
        "file"@.len() == 4 && "file"@[0] == 'f',
{
    reveal_strlit("con");
    reveal_strlit("math");
    reveal_strlit("str");
    reveal_strlit("arr");
    reveal_strlit("time");
    reveal_strlit("json");
    reveal_strlit("sys");
    reveal_strlit("gui");
    reveal_strlit("http");
    reveal_strlit("db");
    reveal_strlit("file");
}

/// The machine after it has been given the first `n` of the values, one after the other.
pub open spec fn fed(t: MachineModel, vals: Seq<ValueModel>, n: int) -> MachineModel
    decreases n,
{
    if n <= 0 {
        t
    } else {
        step(viewing(fed(t, vals, n - 1), FocusModel::Value(vals[n - 1])))
    }
}

/// Whether the machine works out all arguments from the first to the last, and then does with
/// their values what the function of the library does.
pub open spec fn calls_library(
    t: MachineModel,
    s: MachineModel,
    args: Seq<ValueModel>,
    vals: Seq<ValueModel>,
    r: Result<EffectModel, FailureModel>,
) -> bool {
    &&& forall|k: int|
        0 <= k < args.len() ==> (#[trigger] fed(t, vals, k)).focus == FocusModel::Eval(args[k]) && fed(t, vals, k).rt
            == s.rt && fed(t, vals, k).scope == s.scope
    &&& fed(t, vals, args.len() as int) == effected(idle(s), r)
}

proof fn lemma_fed(s: MachineModel, purpose: PurposeModel, args: Seq<ValueModel>, vals: Seq<ValueModel>, n: int)
    requires
        args.len() == vals.len(),
        0 <= n <= args.len(),
    ensures
        fed(list_step(idle(s), purpose, args, 0, seq![]), vals, n) == list_step(idle(s), purpose, args, n, vals.take(n)),
    decreases n,
{
    let t = list_step(idle(s), purpose, args, 0, seq![]);
    if n > 0 {
        lemma_fed(s, purpose, args, vals, n - 1);
        let frame = FrameModel::Args { purpose, items: args, next: n, done: vals.take(n - 1) };
        assert(fed(t, vals, n - 1) == meeting(s, frame, FocusModel::Eval(args[n - 1])));
        lemma_meeting(s, frame, FocusModel::Value(vals[n - 1]));
        assert(vals.take(n - 1).push(vals[n - 1]) =~= vals.take(n));
    } else {
        assert(vals.take(0) =~= seq![]);
    }
}

proof fn lemma_library(
    s: MachineModel,
    purpose: PurposeModel,
    args: Seq<ValueModel>,
    vals: Seq<ValueModel>,
    r: Result<EffectModel, FailureModel>,
)
    requires
        args.len() == vals.len(),
        applied(idle(s), purpose, vals) == effected(idle(s), r),
    ensures
        calls_library(list_step(idle(s), purpose, args, 0, seq![]), s, args, vals, r),
{
    let t = list_step(idle(s), purpose, args, 0, seq![]);
    assert forall|k: int| 0 <= k < args.len() implies (#[trigger] fed(t, vals, k)).focus == FocusModel::Eval(args[k])
        && fed(t, vals, k).rt == s.rt && fed(t, vals, k).scope == s.scope by {
        lemma_fed(s, purpose, args, vals, k);
    }
    lemma_fed(s, purpose, args, vals, args.len() as int);
    assert(vals.take(args.len() as int) =~= vals);
}

/// A call on the name of a library works its arguments out, from the first to the last, and
/// does what the function of that library does with them.
pub proof fn libraries_are_called_by_name(
    s: MachineModel,
    function: Seq<char>,
    args: Seq<ValueModel>,
    vals: Seq<ValueModel>,
)
    requires
        args.len() == vals.len(),
    ensures
        calls_library(
            step(viewing(s, FocusModel::Eval(call_of(Some("math"@), function, args)))),
            s,
            args,
            vals,
            math(function, vals),
        ),
        calls_library(
            step(viewing(s, FocusModel::Eval(call_of(Some("str"@), function, args)))),
            s,
            args,
            vals,
            str_function(function, vals),
        ),
        calls_library(
            step(viewing(s, FocusModel::Eval(call_of(Some("arr"@), function, args)))),
            s,
            args,
            vals,
            arr_function(function, vals),
        ),
        calls_library(
            step(viewing(s, FocusModel::Eval(call_of(Some("json"@), function, args)))),
            s,
            args,
            vals,
            json_function(function, vals),
        ),
        calls_library(
            step(viewing(s, FocusModel::Eval(call_of(Some("sys"@), function, args)))),
            s,
            args,
            vals,
            sys_function(function, vals),
        ),
        calls_library(
            step(viewing(s, FocusModel::Eval(call_of(Some("gui"@), function, args)))),
            s,
            args,
            vals,
            gui_function(function, vals),
        ),
        calls_library(
            step(viewing(s, FocusModel::Eval(call_of(Some("http"@), function, args)))),
            s,
            args,
            vals,
            http_function(function, vals),
        ),
        calls_library(
            step(viewing(s, FocusModel::Eval(call_of(Some("db"@), function, args)))),
            s,
            args,
            vals,
            db_function(s.rt.db_open, function, vals),
        ),
        calls_library(
            step(viewing(s, FocusModel::Eval(call_of(Some("file"@), function, args)))),
            s,
            args,
            vals,
            file_function(function, vals),
        ),
        calls_library(
            step(viewing(s, FocusModel::Eval(call_of(Some("time"@), "Format"@, args)))),
            s,
            args,
            vals,
            time_format(vals),
        ),
{
    lemma_library_names();
    reveal_strlit("Format");
    reveal_strlit("Now");
    assert("Format"@.len() == 6 && "Now"@.len() == 3);
    lemma_library(s, PurposeModel::Math(function), args, vals, math(function, vals));
    lemma_library(s, PurposeModel::Str(function), args, vals, str_function(function, vals));
    lemma_library(s, PurposeModel::Arr(function), args, vals, arr_function(function, vals));
    lemma_library(s, PurposeModel::Json(function), args, vals, json_function(function, vals));
    lemma_library(s, PurposeModel::Sys(function), args, vals, sys_function(function, vals));
    lemma_library(s, PurposeModel::Gui(function), args, vals, gui_function(function, vals));
    lemma_library(s, PurposeModel::Http(function), args, vals, http_function(function, vals));
    lemma_library(s, PurposeModel::Db(function), args, vals, db_function(s.rt.db_open, function, vals));
    lemma_library(s, PurposeModel::File(function), args, vals, file_function(function, vals));
    lemma_library(s, PurposeModel::TimeFormat, args, vals, time_format(vals));
}

/// What the values display as, with spaces between them.
pub open spec fn spaced(vals: Seq<ValueModel>) -> Seq<PieceModel>
    decreases vals.len(),
{
    if vals.len() == 0 {
        seq![]
    } else if vals.len() == 1 {
        shown(vals[0])
    } else {
        spaced(vals.drop_last()) + seq![PieceModel::Text(" "@)] + shown(vals.last())
    }
}

proof fn lemma_spaced(vals: Seq<ValueModel>, n: int)
    requires
        0 <= n <= vals.len(),
    ensures
        shown_list(vals, " "@, n) == spaced(vals.take(n)),
    decreases n,
{
    reveal_with_fuel(shown_list, 2);
    let front = vals.take(n);
    if n > 1 {
        lemma_spaced(vals, n - 1);
        assert(front.drop_last() =~= vals.take(n - 1));
        assert(shown_list(vals, " "@, n) =~= shown_list(vals, " "@, n - 1) + seq![PieceModel::Text(" "@)] + shown(
            vals[n - 1],
        ));
    }
}

/// Whether the machine works out all arguments and then asks this of the host.
pub open spec fn asks_with(
    t: MachineModel,
    s: MachineModel,
    args: Seq<ValueModel>,
    vals: Seq<ValueModel>,
    q: RequestModel,
) -> bool {
    calls_library(t, s, args, vals, Ok(EffectModel::Ask(q)))
}

/// `con.Print` prints what its arguments display as, with spaces between them. `con.Input`
/// asks with what its argument displays as, or with nothing.
pub proof fn the_console_is_called_by_name(s: MachineModel, args: Seq<ValueModel>, vals: Seq<ValueModel>)
    requires
        args.len() == vals.len(),
    ensures
        asks_with(
            step(viewing(s, FocusModel::Eval(call_of(Some("con"@), "Print"@, args)))),
            s,
            args,
            vals,
            RequestModel::Print(spaced(vals)),
        ),
        args.len() == 0 ==> asks_with(
            step(viewing(s, FocusModel::Eval(call_of(Some("con"@), "Input"@, args)))),
            s,
            args,
            vals,
            RequestModel::Input(seq![]),
        ),
        args.len() == 1 ==> asks_with(
            step(viewing(s, FocusModel::Eval(call_of(Some("con"@), "Input"@, args)))),
            s,
            args,
            vals,
            RequestModel::Input(shown(vals[0])),
        ),
        args.len() > 1 ==> raises(
            step(viewing(s, FocusModel::Eval(call_of(Some("con"@), "Input"@, args)))),
            s,
            "ValueError"@,
        ),
{
    lemma_library_names();
    reveal_strlit("Print");
    reveal_strlit("Input");
    assert("Print"@[0] == 'P' && "Input"@[0] == 'I');
    lemma_spaced(vals, vals.len() as int);
    assert(vals.take(vals.len() as int) =~= vals);
    lemma_library(s, PurposeModel::Print, args, vals, Ok(EffectModel::Ask(RequestModel::Print(spaced(vals)))));
    if args.len() == 0 {
        lemma_library(s, PurposeModel::Input, args, vals, Ok(EffectModel::Ask(RequestModel::Input(seq![]))));
    } else if args.len() == 1 {
        lemma_library(s, PurposeModel::Input, args, vals, Ok(EffectModel::Ask(RequestModel::Input(shown(vals[0])))));
    }
}

/// `time.Now` asks for the time and takes no arguments; `time` has no other functions than
/// this and `Format`.
pub proof fn the_clock_is_called_by_name(s: MachineModel, function: Seq<char>, args: Seq<ValueModel>)
    ensures
        step(viewing(s, FocusModel::Eval(call_of(Some("time"@), "Now"@, seq![])))) == viewing(
            s,
            FocusModel::Await(WaitModel::Request(RequestModel::Now)),
        ),
        args.len() > 0 ==> raises(
            step(viewing(s, FocusModel::Eval(call_of(Some("time"@), "Now"@, args)))),
            s,
            "ValueError"@,
        ),
        function != "Now"@ && function != "Format"@ ==> raises(
            step(viewing(s, FocusModel::Eval(call_of(Some("time"@), function, args)))),
            s,
            "NameError"@,
        ),
{
    lemma_library_names();
}

/// `selectFile` and `assert` stand for themselves, where no variable has their name.
pub proof fn bare_functions_are_called(
    s: MachineModel,
    args: Seq<ValueModel>,
    vals: Seq<ValueModel>,
)
    requires
        args.len() == vals.len(),
    ensures
        scoped(s.rt, s.scope, "selectFile"@) is None ==> calls_library(
            step(viewing(s, FocusModel::Eval(call_of(None, "selectFile"@, args)))),
            s,
            args,
            vals,
            select_file(vals),
        ),
        scoped(s.rt, s.scope, "assert"@) is None ==> calls_library(
            step(viewing(s, FocusModel::Eval(call_of(None, "assert"@, args)))),
            s,
            args,
            vals,
            assertion(vals),
        ),
{
    lemma_bare("selectFile"@);
    lemma_bare("assert"@);
    reveal_strlit("selectFile");
    reveal_strlit("assert");
    assert("selectFile"@.len() == 10 && "assert"@.len() == 6);
    lemma_library(s, PurposeModel::SelectFile, args, vals, select_file(vals));
    lemma_library(s, PurposeModel::Assert, args, vals, assertion(vals));
}

proof fn lemma_bare(name: Seq<char>)
    requires
        name == "selectFile"@ || name == "assert"@,
    ensures
        !compares_case(name),
        forall|rt: RuntimeModel, scope: ScopeModel| named_value(rt, scope, name) is None,
{
    reveal_strlit("selectFile");
    reveal_strlit("assert");
    reveal_strlit("EqualsCaseSensitive");
    reveal_strlit("caseSensitiveEquals");
    reveal_strlit("pass");
    reveal_strlit("arg");
    reveal_strlit("args");
    reveal_strlit("var.");
    reveal_strlit("arg.");
    assert(name[0] == 's' || name[0] == 'a');
    assert("var."@[0] == 'v');
    assert("arg."@[1] == 'r');
    assert(name[1] == 'e' || name[1] == 's');
    assert(name.len() == 10 || name.len() == 6);
}

/// What is called has to be a function: what is not is a `TypeError`, and a name that stands
/// for nothing a `NameError`.
pub proof fn only_functions_are_called(s: MachineModel, function: Seq<char>, args: Seq<ValueModel>, v: ValueModel)
    requires
        !compares_case(function),
        named_value(s.rt, s.scope, function) is None,
    ensures
        scoped(s.rt, s.scope, function) == Some(v) && !(v is Function) ==> raises(
            step(viewing(s, FocusModel::Eval(call_of(None, function, args)))),
            s,
            "TypeError"@,
        ),
        scoped(s.rt, s.scope, function) is None && function != "selectFile"@ && function != "assert"@ ==> raises(
            step(viewing(s, FocusModel::Eval(call_of(None, function, args)))),
            s,
            "NameError"@,
        ),
{
}

/// What a module exports is read and called by its alias and its name; an alias or a name that
/// stands for nothing is a `NameError`, and what is no function is not called.
pub proof fn modules_are_read_by_alias(
    s: MachineModel,
    alias: Seq<char>,
    name: Seq<char>,
    args: Seq<ValueModel>,
    v: ValueModel,
)
    ensures
        ({
            let read = step(viewing(s, FocusModel::Eval(ValueModel::ModuleVar { alias, name })));
            let call = step(
                viewing(
                    s,
                    FocusModel::Eval(
                        ValueModel::FunctionCall { object: None, module: Some(alias), function: name, args },
                    ),
                ),
            );
            &&& lookup(s.rt.modules, alias) is None ==> raises(read, s, "NameError"@) && raises(call, s, "NameError"@)
            &&& lookup(s.rt.modules, alias) matches Some(m) ==> {
                &&& lookup(m.globals, "var."@ + name) == Some(v) ==> read == viewing(s, FocusModel::Value(v))
                &&& lookup(m.globals, "var."@ + name) == Some(v) && !(v is Function) ==> raises(call, s, "TypeError"@)
                &&& lookup(m.globals, "var."@ + name) is None ==> raises(read, s, "NameError"@) && raises(
                    call,
                    s,
                    "NameError"@,
                )
            }
        }),
{
}

/// `EqualsCaseSensitive` on a string says whether its argument is the same string, letter by
/// letter; what is no string is a `TypeError`.
pub proof fn case_counts_where_asked(
    s: MachineModel,
    name: Seq<char>,
    a: ValueModel,
    e: ValueModel,
    b: ValueModel,
)
    requires
        !is_library(name),
        named_value(s.rt, s.scope, name) is None,
        scoped(s.rt, s.scope, name) == Some(a),
    ensures
        ({
            let t = step(viewing(s, FocusModel::Eval(call_of(Some(name), "EqualsCaseSensitive"@, seq![e]))));
            let r = fed(t, seq![b], 1);
            &&& t.focus == FocusModel::Eval(e)
            &&& a is String && b is String ==> r == viewing(
                s,
                FocusModel::Value(ValueModel::Logic(a->String_0 == b->String_0)),
            )
            &&& !(a is String) || !(b is String) ==> raises(r, s, "TypeError"@)
        }),
{
    lemma_library_names();
    reveal_strlit("EqualsCaseSensitive");
    assert(compares_case("EqualsCaseSensitive"@));
    reveal_with_fuel(fed, 2);
    let purpose = PurposeModel::CaseEquals(a);
    lemma_fed(s, purpose, seq![e], seq![b], 1);
    assert(seq![b].take(1) =~= seq![b]);
}

/// A variable whose widget was closed holds null: a method of widgets called on it is a
/// `GuiError`, and any other name is called as a function with null passed.
pub proof fn methods_of_closed_widgets_fail(
    s: MachineModel,
    name: Seq<char>,
    method: Seq<char>,
    args: Seq<ValueModel>,
)
    requires
        !is_library(name),
        scoped(s.rt, s.scope, name) == Some(ValueModel::Null),
        !compares_case(method),
    ensures
        method == "Run"@ || method == "AttachToWindow"@ || method == "SetPos"@ || method == "OnClick"@ ==> raises(
            step(viewing(s, FocusModel::Eval(call_of(Some(name), method, args)))),
            s,
            "GuiError"@,
        ),
        method != "Run"@ && method != "AttachToWindow"@ && method != "SetPos"@ && method != "OnClick"@ && named_value(
            s.rt,
            s.scope,
            method,
        ) is None && scoped(s.rt, s.scope, method) is None ==> raises(
            step(viewing(s, FocusModel::Eval(call_of(Some(name), method, args)))),
            s,
            "NameError"@,
        ),
{
    lemma_library_names();
}

/// Whether the name is that of a library.
pub open spec fn is_library(name: Seq<char>) -> bool {
    name == "con"@ || name == "math"@ || name == "str"@ || name == "arr"@ || name == "time"@ || name == "json"@ || name
        == "sys"@ || name == "gui"@ || name == "http"@ || name == "db"@ || name == "file"@
}

} // verus!
