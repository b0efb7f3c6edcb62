//! Equality of values, and their text.

use crate::ast::{
    arms, block, block_opt, entries, handlers, text_opt, texts, values, AssignTarget, CatchClause, CatchModel, GuiKind,
    Statement, StatementModel, TargetModel, Value, ValueModel,
};
use crate::draft::{pieces, text, Piece, PieceModel};
use crate::number::{equal, is_equal};
use crate::table::{get, lookup};
use crate::text::{decimal, same};
use vstd::prelude::*;

verus! {

/// Whether two values are the same: numbers by value, tables by what they
/// have under each key, all else part by part.
pub open spec fn same_value(a: ValueModel, b: ValueModel) -> bool
    decreases a,
{
    match (a, b) {
        (ValueModel::Null, ValueModel::Null) => true,
        (ValueModel::Number(x), ValueModel::Number(y)) => equal(x, y),
        (ValueModel::String(x), ValueModel::String(y)) => x == y,
        (ValueModel::Logic(x), ValueModel::Logic(y)) => x == y,
        (ValueModel::Variable(x), ValueModel::Variable(y)) => x == y,
        (ValueModel::Object(x), ValueModel::Object(y)) => same_table(x, y),
        (ValueModel::Array(x), ValueModel::Array(y)) => same_values(x, y),
        (
            ValueModel::Index { target: t1, index: i1 },
            ValueModel::Index { target: t2, index: i2 },
        ) => same_value(*t1, *t2) && same_value(*i1, *i2),
        (
            ValueModel::FunctionCall { object: o1, module: m1, function: f1, args: a1 },
            ValueModel::FunctionCall { object: o2, module: m2, function: f2, args: a2 },
        ) => o1 == o2 && m1 == m2 && f1 == f2 && same_values(a1, a2),
        (
            ValueModel::ModuleVar { alias: a1, name: n1 },
            ValueModel::ModuleVar { alias: a2, name: n2 },
        ) => a1 == a2 && n1 == n2,
        (
            ValueModel::Binary { left: l1, op: o1, right: r1 },
            ValueModel::Binary { left: l2, op: o2, right: r2 },
        ) => o1 == o2 && same_value(*l1, *l2) && same_value(*r1, *r2),
        (
            ValueModel::Property { target: t1, key: k1 },
            ValueModel::Property { target: t2, key: k2 },
        ) => k1 == k2 && same_value(*t1, *t2),
        (ValueModel::Unary { op: o1, value: v1 }, ValueModel::Unary { op: o2, value: v2 }) => o1 == o2 && same_value(
            *v1,
            *v2,
        ),
        (
            ValueModel::Function { params: p1, defaults: d1, body: b1 },
            ValueModel::Function { params: p2, defaults: d2, body: b2 },
        ) => p1 == p2 && same_table(d1, d2) && same_block(b1, b2),
        (
            ValueModel::Error { error_type: t1, message: m1 },
            ValueModel::Error { error_type: t2, message: m2 },
        ) => t1 == t2 && m1 == m2,
        (ValueModel::File { path: x }, ValueModel::File { path: y }) => x == y,
        (ValueModel::Db { id: x }, ValueModel::Db { id: y }) => x == y,
        (ValueModel::Gui { kind: k1, id: x }, ValueModel::Gui { kind: k2, id: y }) => k1 == k2 && x == y,
        _ => false,
    }
}

pub open spec fn same_values(a: Seq<ValueModel>, b: Seq<ValueModel>) -> bool
    decreases a,
{
    a.len() == b.len() && forall|i: int| 0 <= i < a.len() ==> same_value(#[trigger] a[i], b[i])
}

pub open spec fn same_table(a: Seq<(Seq<char>, ValueModel)>, b: Seq<(Seq<char>, ValueModel)>) -> bool
    decreases a,
{
    a.len() == b.len() && forall|i: int|
        0 <= i < a.len() ==> lookup(b, (#[trigger] a[i]).0) is Some && same_value(a[i].1, lookup(b, a[i].0)->0)
}

pub open spec fn same_block(a: Seq<StatementModel>, b: Seq<StatementModel>) -> bool
    decreases a,
{
    a.len() == b.len() && forall|i: int| 0 <= i < a.len() ==> same_statement(#[trigger] a[i], b[i])
}

pub open spec fn same_block_opt(a: Option<Seq<StatementModel>>, b: Option<Seq<StatementModel>>) -> bool
    decreases a,
{
    match (a, b) {
        (Some(x), Some(y)) => same_block(x, y),
        (None, None) => true,
        _ => false,
    }
}

pub open spec fn same_arms(
    a: Seq<(ValueModel, Seq<StatementModel>)>,
    b: Seq<(ValueModel, Seq<StatementModel>)>,
) -> bool
    decreases a,
{
    a.len() == b.len() && forall|i: int|
        0 <= i < a.len() ==> same_value((#[trigger] a[i]).0, b[i].0) && same_block(a[i].1, b[i].1)
}

pub open spec fn same_catches(a: Seq<CatchModel>, b: Seq<CatchModel>) -> bool
    decreases a,
{
    a.len() == b.len() && forall|i: int|
        0 <= i < a.len() ==> (#[trigger] a[i]).error_type == b[i].error_type && same_block(a[i].body, b[i].body)
}

pub open spec fn same_target(a: TargetModel, b: TargetModel) -> bool
    decreases a,
{
    match (a, b) {
        (TargetModel::Var(x), TargetModel::Var(y)) => x == y,
        (
            TargetModel::Property { target: t1, key: k1 },
            TargetModel::Property { target: t2, key: k2 },
        ) => k1 == k2 && same_target(*t1, *t2),
        (
            TargetModel::Index { target: t1, index: i1 },
            TargetModel::Index { target: t2, index: i2 },
        ) => same_target(*t1, *t2) && same_value(*i1, *i2),
        _ => false,
    }
}

pub open spec fn same_statement(a: StatementModel, b: StatementModel) -> bool
    decreases a,
{
    match (a, b) {
        (
            StatementModel::VariableDecl { name: n1, declared: d1, value: v1 },
            StatementModel::VariableDecl { name: n2, declared: d2, value: v2 },
        ) => n1 == n2 && d1 == d2 && same_value(v1, v2),
        (
            StatementModel::GlobalDecl { name: n1, declared: d1, value: v1 },
            StatementModel::GlobalDecl { name: n2, declared: d2, value: v2 },
        ) => n1 == n2 && d1 == d2 && same_value(v1, v2),
        (
            StatementModel::Declare { path: p1, run: r1 },
            StatementModel::Declare { path: p2, run: r2 },
        ) => p1 == p2 && r1 == r2,
        (
            StatementModel::FunctionCall { object: o1, module: m1, function: f1, args: a1 },
            StatementModel::FunctionCall { object: o2, module: m2, function: f2, args: a2 },
        ) => o1 == o2 && m1 == m2 && f1 == f2 && same_values(a1, a2),
        (StatementModel::Return { value: v1 }, StatementModel::Return { value: v2 }) => same_value(*v1, *v2),
        (
            StatementModel::Assign { target: t1, op: o1, value: v1 },
            StatementModel::Assign { target: t2, op: o2, value: v2 },
        ) => o1 == o2 && same_target(t1, t2) && same_value(*v1, *v2),
        (
            StatementModel::Switch { scrutinee: s1, cases: c1, default: d1 },
            StatementModel::Switch { scrutinee: s2, cases: c2, default: d2 },
        ) => same_value(*s1, *s2) && same_arms(c1, c2) && same_block_opt(d1, d2),
        (
            StatementModel::Event { object: o1, name: n1, body: b1 },
            StatementModel::Event { object: o2, name: n2, body: b2 },
        ) => o1 == o2 && n1 == n2 && same_block(b1, b2),
        (
            StatementModel::If { condition: c1, then_branch: t1, else_if_branches: e1, else_branch: f1 },
            StatementModel::If { condition: c2, then_branch: t2, else_if_branches: e2, else_branch: f2 },
        ) => same_value(c1, c2) && same_block(t1, t2) && same_arms(e1, e2) && same_block_opt(f1, f2),
        (
            StatementModel::While { condition: c1, body: b1 },
            StatementModel::While { condition: c2, body: b2 },
        ) => same_value(c1, c2) && same_block(b1, b2),
        (
            StatementModel::ForIn { var: v1, iterable: i1, body: b1 },
            StatementModel::ForIn { var: v2, iterable: i2, body: b2 },
        ) => v1 == v2 && same_value(i1, i2) && same_block(b1, b2),
        (StatementModel::Break, StatementModel::Break) => true,
        (StatementModel::Continue, StatementModel::Continue) => true,
        (
            StatementModel::Throw { error_type: t1, message: m1 },
            StatementModel::Throw { error_type: t2, message: m2 },
        ) => t1 == t2 && same_value(*m1, *m2),
        (
            StatementModel::Try { body: b1, catches: c1 },
            StatementModel::Try { body: b2, catches: c2 },
        ) => same_block(b1, b2) && same_catches(c1, c2),
        _ => false,
    }
}

fn text_opts_equal(a: &Option<String>, b: &Option<String>) -> (r: bool)
    ensures
        r == (text_opt(*a) == text_opt(*b)),
{
    match (a, b) {
        (Some(x), Some(y)) => same(x.as_str(), y.as_str()),
        (None, None) => true,
        _ => false,
    }
}

fn texts_equal(a: &Vec<String>, b: &Vec<String>) -> (r: bool)
    ensures
        r == (texts(a@) == texts(b@)),
{
    if a.len() != b.len() {
        assert(texts(a@).len() != texts(b@).len());
        return false;
    }
    let mut i: usize = 0;
    while i < a.len()
        invariant
            i <= a@.len() == b@.len(),
            forall|k: int| 0 <= k < i ==> (#[trigger] a@[k])@ == b@[k]@,
        decreases a@.len() - i,
    {
        if !same(a[i].as_str(), b[i].as_str()) {
            assert(texts(a@)[i as int] != texts(b@)[i as int]);
            return false;
        }
        i = i + 1;
    }
    assert(texts(a@) =~= texts(b@));
    true
}

/// Whether two values are the same.
pub fn values_equal(a: &Value, b: &Value) -> (r: bool)
    ensures
        r == same_value(a@, b@),
    decreases a,
{
    match (a, b) {
        (Value::Null, Value::Null) => true,
        (Value::Number(x), Value::Number(y)) => is_equal(*x, *y),
        (Value::String(x), Value::String(y)) => same(x.as_str(), y.as_str()),
        (Value::Logic(x), Value::Logic(y)) => *x == *y,
        (Value::Variable(x), Value::Variable(y)) => same(x.as_str(), y.as_str()),
        (Value::Object(x), Value::Object(y)) => tables_equal(x, y),
        (Value::Array(x), Value::Array(y)) => lists_equal(x, y),
        (Value::Index { target: t1, index: i1 }, Value::Index { target: t2, index: i2 }) => values_equal(t1, t2)
            && values_equal(i1, i2),
        (
            Value::FunctionCall { object: o1, module: m1, function: f1, args: a1 },
            Value::FunctionCall { object: o2, module: m2, function: f2, args: a2 },
        ) => text_opts_equal(o1, o2) && text_opts_equal(m1, m2) && same(f1.as_str(), f2.as_str()) && lists_equal(
            a1,
            a2,
        ),
        (Value::ModuleVar { alias: a1, name: n1 }, Value::ModuleVar { alias: a2, name: n2 }) => same(
            a1.as_str(),
            a2.as_str(),
        ) && same(n1.as_str(), n2.as_str()),
        (
            Value::Binary { left: l1, op: o1, right: r1 },
            Value::Binary { left: l2, op: o2, right: r2 },
        ) => *o1 == *o2 && values_equal(l1, l2) && values_equal(r1, r2),
        (Value::Property { target: t1, key: k1 }, Value::Property { target: t2, key: k2 }) => same(
            k1.as_str(),
            k2.as_str(),
        ) && values_equal(t1, t2),
        (Value::Unary { op: o1, value: v1 }, Value::Unary { op: o2, value: v2 }) => *o1 == *o2 && values_equal(v1, v2),
        (
            Value::Function { params: p1, defaults: d1, body: b1 },
            Value::Function { params: p2, defaults: d2, body: b2 },
        ) => texts_equal(p1, p2) && tables_equal(d1, d2) && blocks_equal(b1, b2),
        (Value::Error { error_type: t1, message: m1 }, Value::Error { error_type: t2, message: m2 }) => same(
            t1.as_str(),
            t2.as_str(),
        ) && same(m1.as_str(), m2.as_str()),
        (Value::File { path: x }, Value::File { path: y }) => same(x.as_str(), y.as_str()),
        (Value::Db { id: x }, Value::Db { id: y }) => *x == *y,
        (Value::Gui { kind: k1, id: x }, Value::Gui { kind: k2, id: y }) => *k1 == *k2 && *x == *y,
        _ => false,
    }
}

pub fn lists_equal(a: &Vec<Value>, b: &Vec<Value>) -> (r: bool)
    ensures
        r == same_values(values(a@), values(b@)),
    decreases a,
{
    let ghost x = values(a@);
    let ghost y = values(b@);
    if a.len() != b.len() {
        return false;
    }
    let mut i: usize = 0;
    while i < a.len()
        invariant
            i <= a@.len() == b@.len(),
            x == values(a@),
            y == values(b@),
            forall|k: int| 0 <= k < i ==> same_value(#[trigger] x[k], y[k]),
        decreases a@.len() - i,
    {
        if !values_equal(&a[i], &b[i]) {
            assert(!same_value(x[i as int], y[i as int]));
            return false;
        }
        i = i + 1;
    }
    true
}

pub fn tables_equal(a: &Vec<(String, Value)>, b: &Vec<(String, Value)>) -> (r: bool)
    ensures
        r == same_table(entries(a@), entries(b@)),
    decreases a,
{
    let ghost x = entries(a@);
    let ghost y = entries(b@);
    if a.len() != b.len() {
        return false;
    }
    let mut i: usize = 0;
    while i < a.len()
        invariant
            i <= a@.len() == b@.len(),
            x == entries(a@),
            y == entries(b@),
            forall|k: int|
                0 <= k < i ==> lookup(y, (#[trigger] x[k]).0) is Some && same_value(x[k].1, lookup(y, x[k].0)->0),
        decreases a@.len() - i,
    {
        assert(x[i as int] == (a@[i as int].0@, a@[i as int].1@));
        match get(b, a[i].0.as_str()) {
            Some(w) => {
                if !values_equal(&a[i].1, w) {
                    return false;
                }
            },
            None => {
                return false;
            },
        }
        i = i + 1;
    }
    true
}

fn blocks_equal(a: &Vec<Statement>, b: &Vec<Statement>) -> (r: bool)
    ensures
        r == same_block(block(a@), block(b@)),
    decreases a,
{
    let ghost x = block(a@);
    let ghost y = block(b@);
    if a.len() != b.len() {
        return false;
    }
    let mut i: usize = 0;
    while i < a.len()
        invariant
            i <= a@.len() == b@.len(),
            x == block(a@),
            y == block(b@),
            forall|k: int| 0 <= k < i ==> same_statement(#[trigger] x[k], y[k]),
        decreases a@.len() - i,
    {
        if !statements_equal(&a[i], &b[i]) {
            assert(!same_statement(x[i as int], y[i as int]));
            return false;
        }
        i = i + 1;
    }
    true
}

fn block_opts_equal(a: &Option<Vec<Statement>>, b: &Option<Vec<Statement>>) -> (r: bool)
    ensures
        r == same_block_opt(block_opt(*a), block_opt(*b)),
    decreases a,
{
    match (a, b) {
        (Some(x), Some(y)) => blocks_equal(x, y),
        (None, None) => true,
        _ => false,
    }
}

fn arms_equal(a: &Vec<(Value, Vec<Statement>)>, b: &Vec<(Value, Vec<Statement>)>) -> (r: bool)
    ensures
        r == same_arms(arms(a@), arms(b@)),
    decreases a,
{
    let ghost x = arms(a@);
    let ghost y = arms(b@);
    if a.len() != b.len() {
        return false;
    }
    let mut i: usize = 0;
    while i < a.len()
        invariant
            i <= a@.len() == b@.len(),
            x == arms(a@),
            y == arms(b@),
            forall|k: int| 0 <= k < i ==> same_value((#[trigger] x[k]).0, y[k].0) && same_block(x[k].1, y[k].1),
        decreases a@.len() - i,
    {
        assert(x[i as int] == (a@[i as int].0@, block(a@[i as int].1@)));
        if !values_equal(&a[i].0, &b[i].0) || !blocks_equal(&a[i].1, &b[i].1) {
            return false;
        }
        i = i + 1;
    }
    true
}

fn catches_equal(a: &Vec<CatchClause>, b: &Vec<CatchClause>) -> (r: bool)
    ensures
        r == same_catches(handlers(a@), handlers(b@)),
    decreases a,
{
    let ghost x = handlers(a@);
    let ghost y = handlers(b@);
    if a.len() != b.len() {
        return false;
    }
    let mut i: usize = 0;
    while i < a.len()
        invariant
            i <= a@.len() == b@.len(),
            x == handlers(a@),
            y == handlers(b@),
            forall|k: int|
                0 <= k < i ==> (#[trigger] x[k]).error_type == y[k].error_type && same_block(x[k].body, y[k].body),
        decreases a@.len() - i,
    {
        assert(x[i as int].error_type == a@[i as int].error_type@);
        if !same(a[i].error_type.as_str(), b[i].error_type.as_str()) || !blocks_equal(&a[i].body, &b[i].body) {
            return false;
        }
        i = i + 1;
    }
    true
}

fn targets_equal(a: &AssignTarget, b: &AssignTarget) -> (r: bool)
    ensures
        r == same_target(a@, b@),
    decreases a,
{
    match (a, b) {
        (AssignTarget::Var(x), AssignTarget::Var(y)) => same(x.as_str(), y.as_str()),
        (
            AssignTarget::Property { target: t1, key: k1 },
            AssignTarget::Property { target: t2, key: k2 },
        ) => same(k1.as_str(), k2.as_str()) && targets_equal(t1, t2),
        (
            AssignTarget::Index { target: t1, index: i1 },
            AssignTarget::Index { target: t2, index: i2 },
        ) => targets_equal(t1, t2) && values_equal(i1, i2),
        _ => false,
    }
}

fn statements_equal(a: &Statement, b: &Statement) -> (r: bool)
    ensures
        r == same_statement(a@, b@),
    decreases a,
{
    match (a, b) {
        (
            Statement::VariableDecl { name: n1, declared: d1, value: v1 },
            Statement::VariableDecl { name: n2, declared: d2, value: v2 },
        ) => same(n1.as_str(), n2.as_str()) && same(d1.as_str(), d2.as_str()) && values_equal(v1, v2),
        (
            Statement::GlobalDecl { name: n1, declared: d1, value: v1 },
            Statement::GlobalDecl { name: n2, declared: d2, value: v2 },
        ) => same(n1.as_str(), n2.as_str()) && same(d1.as_str(), d2.as_str()) && values_equal(v1, v2),
        (Statement::Declare { path: p1, run: r1 }, Statement::Declare { path: p2, run: r2 }) => same(
            p1.as_str(),
            p2.as_str(),
        ) && *r1 == *r2,
        (
            Statement::FunctionCall { object: o1, module: m1, function: f1, args: a1 },
            Statement::FunctionCall { object: o2, module: m2, function: f2, args: a2 },
        ) => text_opts_equal(o1, o2) && text_opts_equal(m1, m2) && same(f1.as_str(), f2.as_str()) && lists_equal(
            a1,
            a2,
        ),
        (Statement::Return { value: v1 }, Statement::Return { value: v2 }) => values_equal(v1, v2),
        (
            Statement::Assign { target: t1, op: o1, value: v1 },
            Statement::Assign { target: t2, op: o2, value: v2 },
        ) => {
            let ops_equal = match (o1, o2) {
                (Some(x), Some(y)) => *x == *y,
                (None, None) => true,
                _ => false,
            };
            ops_equal && targets_equal(t1, t2) && values_equal(v1, v2)
        },
        (
            Statement::Switch { scrutinee: s1, cases: c1, default: d1 },
            Statement::Switch { scrutinee: s2, cases: c2, default: d2 },
        ) => values_equal(s1, s2) && arms_equal(c1, c2) && block_opts_equal(d1, d2),
        (
            Statement::Event { object: o1, name: n1, body: b1 },
            Statement::Event { object: o2, name: n2, body: b2 },
        ) => same(o1.as_str(), o2.as_str()) && same(n1.as_str(), n2.as_str()) && blocks_equal(b1, b2),
        (
            Statement::If { condition: c1, then_branch: t1, else_if_branches: e1, else_branch: f1 },
            Statement::If { condition: c2, then_branch: t2, else_if_branches: e2, else_branch: f2 },
        ) => values_equal(c1, c2) && blocks_equal(t1, t2) && arms_equal(e1, e2) && block_opts_equal(f1, f2),
        (Statement::While { condition: c1, body: b1 }, Statement::While { condition: c2, body: b2 }) => values_equal(
            c1,
            c2,
        ) && blocks_equal(b1, b2),
        (
            Statement::ForIn { var: v1, iterable: i1, body: b1 },
            Statement::ForIn { var: v2, iterable: i2, body: b2 },
        ) => same(v1.as_str(), v2.as_str()) && values_equal(i1, i2) && blocks_equal(b1, b2),
        (Statement::Break, Statement::Break) => true,
        (Statement::Continue, Statement::Continue) => true,
        (
            Statement::Throw { error_type: t1, message: m1 },
            Statement::Throw { error_type: t2, message: m2 },
        ) => same(t1.as_str(), t2.as_str()) && values_equal(m1, m2),
        (Statement::Try { body: b1, catches: c1 }, Statement::Try { body: b2, catches: c2 }) => blocks_equal(b1, b2)
            && catches_equal(c1, c2),
        _ => false,
    }
}

/// Strict equality, as `switch` has it: only between values of one of the
/// plain kinds.
pub open spec fn strictly_equal(a: ValueModel, b: ValueModel) -> bool {
    match (a, b) {
        (ValueModel::Number(_), ValueModel::Number(_)) => same_value(a, b),
        (ValueModel::String(_), ValueModel::String(_)) => same_value(a, b),
        (ValueModel::Logic(_), ValueModel::Logic(_)) => same_value(a, b),
        (ValueModel::Null, ValueModel::Null) => true,
        (ValueModel::Array(_), ValueModel::Array(_)) => same_value(a, b),
        (ValueModel::Object(_), ValueModel::Object(_)) => same_value(a, b),
        (ValueModel::Error { .. }, ValueModel::Error { .. }) => same_value(a, b),
        _ => false,
    }
}

/// Strict (`===`) equality for `switch`/`case`: strings by case, no coercion.
pub fn values_strict_equal(a: &Value, b: &Value) -> (r: bool)
    ensures
        r == strictly_equal(a@, b@),
{
    match (a, b) {
        (Value::Number(_), Value::Number(_)) => values_equal(a, b),
        (Value::String(_), Value::String(_)) => values_equal(a, b),
        (Value::Logic(_), Value::Logic(_)) => values_equal(a, b),
        (Value::Null, Value::Null) => true,
        (Value::Array(_), Value::Array(_)) => values_equal(a, b),
        (Value::Object(_), Value::Object(_)) => values_equal(a, b),
        (Value::Error { .. }, Value::Error { .. }) => values_equal(a, b),
        _ => false,
    }
}

/// Whether a condition holds: false, zero, the empty string and null do not.
pub open spec fn truthy(v: ValueModel) -> bool {
    match v {
        ValueModel::Logic(b) => b,
        ValueModel::Number(n) => !crate::number::zero(n),
        ValueModel::String(s) => s.len() > 0,
        ValueModel::Null => false,
        _ => true,
    }
}

pub fn is_truthy(v: &Value) -> (r: bool)
    ensures
        r == truthy(v@),
{
    match v {
        Value::Logic(b) => *b,
        Value::Number(n) => !crate::number::is_zero(*n),
        Value::String(s) => !s.as_str().is_empty(),
        Value::Null => false,
        _ => true,
    }
}

/// The name of a widget kind as a type.
pub open spec fn kind_name(kind: GuiKind) -> Seq<char> {
    match kind {
        GuiKind::Window => "window"@,
        GuiKind::Button => "button"@,
    }
}

pub fn kind_text(kind: GuiKind) -> (r: String)
    ensures
        r@ == kind_name(kind),
{
    match kind {
        GuiKind::Window => "window".to_string(),
        GuiKind::Button => "button".to_string(),
    }
}

/// The name of the kind of a value.
pub open spec fn type_of(v: ValueModel) -> Seq<char> {
    match v {
        ValueModel::Null => "null"@,
        ValueModel::Number(_) => "number"@,
        ValueModel::String(_) => "string"@,
        ValueModel::Logic(_) => "logic"@,
        ValueModel::Variable(_) => "variable"@,
        ValueModel::Object(_) => "object"@,
        ValueModel::File { .. } => "file"@,
        ValueModel::Db { .. } => "db"@,
        ValueModel::Gui { kind, .. } => kind_name(kind),
        ValueModel::Array(_) => "array"@,
        ValueModel::Index { .. } => "index"@,
        ValueModel::FunctionCall { .. } => "function-call"@,
        ValueModel::ModuleVar { .. } => "module-var"@,
        ValueModel::Binary { .. } => "expression"@,
        ValueModel::Property { .. } => "property"@,
        ValueModel::Unary { .. } => "expression"@,
        ValueModel::Function { .. } => "function"@,
        ValueModel::Error { .. } => "error"@,
    }
}

pub fn value_type_name(v: &Value) -> (r: String)
    ensures
        r@ == type_of(v@),
{
    match v {
        Value::Null => "null".to_string(),
        Value::Number(_) => "number".to_string(),
        Value::String(_) => "string".to_string(),
        Value::Logic(_) => "logic".to_string(),
        Value::Variable(_) => "variable".to_string(),
        Value::Object(_) => "object".to_string(),
        Value::File { .. } => "file".to_string(),
        Value::Db { .. } => "db".to_string(),
        Value::Gui { kind, .. } => kind_text(*kind),
        Value::Array(_) => "array".to_string(),
        Value::Index { .. } => "index".to_string(),
        Value::FunctionCall { .. } => "function-call".to_string(),
        Value::ModuleVar { .. } => "module-var".to_string(),
        Value::Binary { .. } => "expression".to_string(),
        Value::Property { .. } => "property".to_string(),
        Value::Unary { .. } => "expression".to_string(),
        Value::Function { .. } => "function".to_string(),
        Value::Error { .. } => "error".to_string(),
    }
}

/// The decimal digit for a number below ten.
pub open spec fn digit_char(d: int) -> char {
    if d == 0 {
        '0'
    } else if d == 1 {
        '1'
    } else if d == 2 {
        '2'
    } else if d == 3 {
        '3'
    } else if d == 4 {
        '4'
    } else if d == 5 {
        '5'
    } else if d == 6 {
        '6'
    } else if d == 7 {
        '7'
    } else if d == 8 {
        '8'
    } else {
        '9'
    }
}

/// A number in decimal.
pub open spec fn nat_text(n: nat) -> Seq<char>
    decreases n,
{
    if n < 10 {
        seq![digit_char(n as int)]
    } else {
        nat_text(n / 10).push(digit_char((n % 10) as int))
    }
}

/// An integer in decimal.
pub open spec fn int_text(n: int) -> Seq<char> {
    if n < 0 {
        seq!['-'] + nat_text((-n) as nat)
    } else {
        nat_text(n as nat)
    }
}

/// Reading the decimal text of a number gives the number back.
pub proof fn decimal_of_nat_text(n: nat)
    ensures
        decimal(nat_text(n)) == n,
    decreases n,
{
    reveal_with_fuel(decimal, 2);
    if n < 10 {
        assert(nat_text(n).drop_last() =~= seq![]);
    } else {
        decimal_of_nat_text(n / 10);
        assert(nat_text(n).drop_last() =~= nat_text(n / 10));
    }
}

fn find_digit_char(d: u64) -> (r: char)
    ensures
        r == digit_char(d as int),
{
    if d == 0 {
        '0'
    } else if d == 1 {
        '1'
    } else if d == 2 {
        '2'
    } else if d == 3 {
        '3'
    } else if d == 4 {
        '4'
    } else if d == 5 {
        '5'
    } else if d == 6 {
        '6'
    } else if d == 7 {
        '7'
    } else if d == 8 {
        '8'
    } else {
        '9'
    }
}

/// Writes a number in decimal.
pub fn write_nat(n: u64) -> (r: String)
    ensures
        r@ == nat_text(n as nat),
    decreases n,
{
    if n < 10 {
        let mut r = String::new();
        r.push(find_digit_char(n));
        assert(r@ =~= seq![digit_char(n as int)]);
        r
    } else {
        let mut r = write_nat(n / 10);
        r.push(find_digit_char(n % 10));
        r
    }
}

/// Writes an integer in decimal.
pub fn write_int(n: i64) -> (r: String)
    ensures
        r@ == int_text(n as int),
{
    if n < 0 {
        let m: u64 = if n == i64::MIN {
            0x8000_0000_0000_0000
        } else {
            (-n) as u64
        };
        let mut r = String::new();
        r.push('-');
        r.append(write_nat(m).as_str());
        assert(r@ =~= seq!['-'] + nat_text(m as nat));
        r
    } else {
        write_nat(n as u64)
    }
}

/// How a value is displayed, as pieces of text.
pub open spec fn shown(v: ValueModel) -> Seq<PieceModel>
    decreases v,
{
    match v {
        ValueModel::Null => seq![PieceModel::Text("null"@)],
        ValueModel::Number(n) => seq![PieceModel::Number(n)],
        ValueModel::String(s) => seq![PieceModel::Text(s)],
        ValueModel::Logic(b) => seq![
            PieceModel::Text(
                if b {
                    "true"@
                } else {
                    "false"@
                },
            ),
        ],
        ValueModel::Variable(s) => seq![PieceModel::Text(s)],
        ValueModel::Error { error_type, message } => seq![PieceModel::Text(error_type + ": "@ + message)],
        ValueModel::File { path } => seq![PieceModel::Text("file("@ + path + ")"@)],
        ValueModel::Db { id } => seq![PieceModel::Text("db("@ + nat_text(id as nat) + ")"@)],
        ValueModel::Gui { kind, id } => seq![PieceModel::Text(kind_name(kind) + "("@ + nat_text(id as nat) + ")"@)],
        ValueModel::Array(items) => seq![PieceModel::Text("["@)] + shown_list(items, ", "@, items.len() as int)
            + seq![PieceModel::Text("]"@)],
        ValueModel::FunctionCall { .. } => seq![PieceModel::Text("<function-call>"@)],
        ValueModel::ModuleVar { .. } => seq![PieceModel::Text("<module-var>"@)],
        ValueModel::Index { .. } => seq![PieceModel::Text("<index>"@)],
        ValueModel::Binary { .. } => seq![PieceModel::Text("<expression>"@)],
        ValueModel::Property { .. } => seq![PieceModel::Text("<property>"@)],
        ValueModel::Object(items) => seq![PieceModel::Text("{"@)] + shown_entries(items, items.len() as int) + seq![
            PieceModel::Text("}"@),
        ],
        ValueModel::Unary { .. } => seq![PieceModel::Text("<expression>"@)],
        ValueModel::Function { .. } => seq![PieceModel::Text("<function>"@)],
    }
}

/// The first `n` values with `sep` between them.
pub open spec fn shown_list(items: Seq<ValueModel>, sep: Seq<char>, n: int) -> Seq<PieceModel>
    decreases items, n,
{
    if n <= 0 || n > items.len() {
        seq![]
    } else if n == 1 {
        shown(items[0])
    } else {
        shown_list(items, sep, n - 1).push(PieceModel::Text(sep)) + shown(items[n - 1])
    }
}

/// The first `n` entries with commas between them.
pub open spec fn shown_entries(items: Seq<(Seq<char>, ValueModel)>, n: int) -> Seq<PieceModel>
    decreases items, n,
{
    if n <= 0 || n > items.len() {
        seq![]
    } else if n == 1 {
        seq![PieceModel::Text(items[0].0 + ": "@)] + shown(items[0].1)
    } else {
        shown_entries(items, n - 1).push(PieceModel::Text(", "@)) + (seq![
            PieceModel::Text(items[n - 1].0 + ": "@),
        ] + shown(items[n - 1].1))
    }
}

/// Adds the display of a value to the pieces.
pub fn show_value(v: &Value, out: &mut Vec<Piece>)
    ensures
        pieces(final(out)@) == pieces(old(out)@) + shown(v@),
    decreases v,
{
    let ghost before = pieces(out@);
    match v {
        Value::Number(n) => {
            out.push(Piece::Number(*n));
        },
        Value::Array(items) => {
            out.push(text("["));
            assert(pieces(out@) =~= before.push(PieceModel::Text("["@)));
            show_list(items, ", ", out);
            let ghost listed = pieces(out@);
            out.push(text("]"));
            assert(pieces(out@) =~= listed.push(PieceModel::Text("]"@)));
        },
        Value::Object(items) => {
            out.push(text("{"));
            assert(pieces(out@) =~= before.push(PieceModel::Text("{"@)));
            show_entries(items, out);
            let ghost listed = pieces(out@);
            out.push(text("}"));
            assert(pieces(out@) =~= listed.push(PieceModel::Text("}"@)));
        },
        other => {
            out.push(Piece::Text(show_plain(other)));
        },
    }
    assert(pieces(out@) =~= before + shown(v@));
}

/// The display of a value that is neither a number nor a collection.
fn show_plain(v: &Value) -> (r: String)
    requires
        !(v is Number),
        !(v is Array),
        !(v is Object),
    ensures
        shown(v@) == seq![PieceModel::Text(r@)],
{
    match v {
        Value::Null => "null".to_string(),
        Value::String(s) => s.clone(),
        Value::Logic(b) => if *b {
            "true".to_string()
        } else {
            "false".to_string()
        },
        Value::Variable(s) => s.clone(),
        Value::Error { error_type, message } => error_type.clone().concat(": ").concat(message.as_str()),
        Value::File { path } => "file(".to_string().concat(path.as_str()).concat(")"),
        Value::Db { id } => "db(".to_string().concat(write_nat(*id).as_str()).concat(")"),
        Value::Gui { kind, id } => kind_text(*kind).concat("(").concat(write_nat(*id).as_str()).concat(")"),
        Value::FunctionCall { .. } => "<function-call>".to_string(),
        Value::ModuleVar { .. } => "<module-var>".to_string(),
        Value::Index { .. } => "<index>".to_string(),
        Value::Binary { .. } => "<expression>".to_string(),
        Value::Property { .. } => "<property>".to_string(),
        Value::Unary { .. } => "<expression>".to_string(),
        _ => "<function>".to_string(),
    }
}

/// Adds the display of the values, with `sep` between them, to the pieces.
pub fn show_list(items: &Vec<Value>, sep: &str, out: &mut Vec<Piece>)
    ensures
        pieces(final(out)@) == pieces(old(out)@) + shown_list(values(items@), sep@, items@.len() as int),
    decreases items,
{
    let ghost before = pieces(out@);
    let ghost model = values(items@);
    let mut i: usize = 0;
    assert(pieces(out@) =~= before + shown_list(model, sep@, 0));
    while i < items.len()
        invariant
            i <= items@.len(),
            model == values(items@),
            pieces(out@) == before + shown_list(model, sep@, i as int),
        decreases items@.len() - i,
    {
        let ghost now = pieces(out@);
        if i > 0 {
            out.push(text(sep));
            assert(pieces(out@) =~= now.push(PieceModel::Text(sep@)));
        }
        let ghost mid = pieces(out@);
        show_value(&items[i], out);
        i = i + 1;
        assert(pieces(out@) =~= before + shown_list(model, sep@, i as int));
    }
}

/// Adds the display of the entries to the pieces.
fn show_entries(items: &Vec<(String, Value)>, out: &mut Vec<Piece>)
    ensures
        pieces(final(out)@) == pieces(old(out)@) + shown_entries(entries(items@), items@.len() as int),
    decreases items,
{
    let ghost before = pieces(out@);
    let ghost model = entries(items@);
    let mut i: usize = 0;
    assert(pieces(out@) =~= before + shown_entries(model, 0));
    while i < items.len()
        invariant
            i <= items@.len(),
            model == entries(items@),
            pieces(out@) == before + shown_entries(model, i as int),
        decreases items@.len() - i,
    {
        let ghost now = pieces(out@);
        if i > 0 {
            out.push(text(", "));
            assert(pieces(out@) =~= now.push(PieceModel::Text(", "@)));
        }
        let ghost mid = pieces(out@);
        out.push(Piece::Text(items[i].0.clone().concat(": ")));
        assert(pieces(out@) =~= mid.push(PieceModel::Text(model[i as int].0 + ": "@)));
        show_value(&items[i].1, out);
        i = i + 1;
        assert(pieces(out@) =~= before + shown_entries(model, i as int));
    }
}

/// The display of a value.
pub fn format_value(v: &Value) -> (r: Vec<Piece>)
    ensures
        pieces(r@) == shown(v@),
{
    let mut r: Vec<Piece> = Vec::new();
    assert(pieces(r@) =~= seq![]);
    show_value(v, &mut r);
    assert(seq![] + shown(v@) =~= shown(v@));
    r
}

} // verus!
