//! When two pieces of a program are the same.

use crate::ast::{CatchModel, StatementModel, TargetModel, ValueModel};
use crate::comparing::strict;
use crate::show::{
    same_arms, same_block, same_block_opt, same_catches, same_statement, same_table, same_target, same_value,
    same_values,
};
use vstd::prelude::*;

verus! {

/// Whether a value holds no number and no table with anything in it.
pub open spec fn bare_value(v: ValueModel) -> bool
    decreases v,
{
    match v {
        ValueModel::Number(_) => false,
        ValueModel::Object(t) => t.len() == 0,
        ValueModel::Array(items) => bare_values(items),
        ValueModel::Index { target, index } => bare_value(*target) && bare_value(*index),
        ValueModel::FunctionCall { args, .. } => bare_values(args),
        ValueModel::Binary { left, right, .. } => bare_value(*left) && bare_value(*right),
        ValueModel::Property { target, .. } => bare_value(*target),
        ValueModel::Unary { value, .. } => bare_value(*value),
        ValueModel::Function { defaults, body, .. } => defaults.len() == 0 && bare_block(body),
        _ => true,
    }
}

pub open spec fn bare_values(items: Seq<ValueModel>) -> bool
    decreases items,
{
    forall|i: int| 0 <= i < items.len() ==> bare_value(#[trigger] items[i])
}

pub open spec fn bare_block(body: Seq<StatementModel>) -> bool
    decreases body,
{
    forall|i: int| 0 <= i < body.len() ==> bare_statement(#[trigger] body[i])
}

pub open spec fn bare_last(body: Option<Seq<StatementModel>>) -> bool
    decreases body,
{
    match body {
        Some(b) => bare_block(b),
        None => true,
    }
}

pub open spec fn bare_arms(arms: Seq<(ValueModel, Seq<StatementModel>)>) -> bool
    decreases arms,
{
    forall|i: int| 0 <= i < arms.len() ==> bare_value((#[trigger] arms[i]).0) && bare_block(arms[i].1)
}

pub open spec fn bare_catches(catches: Seq<CatchModel>) -> bool
    decreases catches,
{
    forall|i: int| 0 <= i < catches.len() ==> bare_block((#[trigger] catches[i]).body)
}

pub open spec fn bare_target(target: TargetModel) -> bool
    decreases target,
{
    match target {
        TargetModel::Var(_) => true,
        TargetModel::Property { target, .. } => bare_target(*target),
        TargetModel::Index { target, index } => bare_target(*target) && bare_value(*index),
    }
}

/// Whether a statement holds no number and no table with anything in it.
pub open spec fn bare_statement(st: StatementModel) -> bool
    decreases st,
{
    match st {
        StatementModel::VariableDecl { value, .. } => bare_value(value),
        StatementModel::GlobalDecl { value, .. } => bare_value(value),
        StatementModel::Declare { .. } => true,
        StatementModel::FunctionCall { args, .. } => bare_values(args),
        StatementModel::Return { value } => bare_value(*value),
        StatementModel::Assign { target, value, .. } => bare_target(target) && bare_value(*value),
        StatementModel::Switch { scrutinee, cases, default } => bare_value(*scrutinee) && bare_arms(cases) && bare_last(
            default,
        ),
        StatementModel::Event { body, .. } => bare_block(body),
        StatementModel::If { condition, then_branch, else_if_branches, else_branch } => bare_value(condition)
            && bare_block(then_branch) && bare_arms(else_if_branches) && bare_last(else_branch),
        StatementModel::While { condition, body } => bare_value(condition) && bare_block(body),
        StatementModel::ForIn { iterable, body, .. } => bare_value(iterable) && bare_block(body),
        StatementModel::Break => true,
        StatementModel::Continue => true,
        StatementModel::Throw { message, .. } => bare_value(*message),
        StatementModel::Try { body, catches } => bare_block(body) && bare_catches(catches),
    }
}

/// Values without numbers and tables are the same exactly where they are identical.
pub proof fn bare_values_are_the_same_or_not(a: ValueModel, b: ValueModel)
    requires
        bare_value(a),
    ensures
        same_value(a, b) <==> a == b,
    decreases a,
{
    match a {
        ValueModel::Object(x) => {
            if let ValueModel::Object(y) = b {
                assert(same_table(x, y) <==> y.len() == 0);
                assert(y.len() == 0 ==> x =~= y);
            }
        },
        ValueModel::Array(x) => {
            if let ValueModel::Array(y) = b {
                lemma_values(x, y);
            }
        },
        ValueModel::Index { target: t1, index: i1 } => {
            if let ValueModel::Index { target: t2, index: i2 } = b {
                bare_values_are_the_same_or_not(*t1, *t2);
                bare_values_are_the_same_or_not(*i1, *i2);
            }
        },
        ValueModel::FunctionCall { args: x, .. } => {
            if let ValueModel::FunctionCall { args: y, .. } = b {
                lemma_values(x, y);
            }
        },
        ValueModel::Binary { left: l1, right: r1, .. } => {
            if let ValueModel::Binary { left: l2, right: r2, .. } = b {
                bare_values_are_the_same_or_not(*l1, *l2);
                bare_values_are_the_same_or_not(*r1, *r2);
            }
        },
        ValueModel::Property { target: t1, .. } => {
            if let ValueModel::Property { target: t2, .. } = b {
                bare_values_are_the_same_or_not(*t1, *t2);
            }
        },
        ValueModel::Unary { value: v1, .. } => {
            if let ValueModel::Unary { value: v2, .. } = b {
                bare_values_are_the_same_or_not(*v1, *v2);
            }
        },
        ValueModel::Function { defaults: d1, body: b1, .. } => {
            if let ValueModel::Function { defaults: d2, body: b2, .. } = b {
                lemma_block(b1, b2);
                assert(same_table(d1, d2) <==> d2.len() == 0);
                assert(d2.len() == 0 ==> d1 =~= d2);
            }
        },
        _ => {},
    }
}

proof fn lemma_values(a: Seq<ValueModel>, b: Seq<ValueModel>)
    requires
        bare_values(a),
    ensures
        same_values(a, b) <==> a == b,
    decreases a,
{
    if a.len() == b.len() {
        assert forall|i: int| 0 <= i < a.len() implies (same_value(#[trigger] a[i], b[i]) <==> a[i] == b[i]) by {
            bare_values_are_the_same_or_not(a[i], b[i]);
        }
        if same_values(a, b) {
            assert(a =~= b);
        }
    }
}

proof fn lemma_block(a: Seq<StatementModel>, b: Seq<StatementModel>)
    requires
        bare_block(a),
    ensures
        same_block(a, b) <==> a == b,
    decreases a,
{
    if a.len() == b.len() {
        assert forall|i: int| 0 <= i < a.len() implies (same_statement(#[trigger] a[i], b[i]) <==> a[i] == b[i]) by {
            bare_statements_are_the_same_or_not(a[i], b[i]);
        }
        if same_block(a, b) {
            assert(a =~= b);
        }
    }
}

proof fn lemma_last(a: Option<Seq<StatementModel>>, b: Option<Seq<StatementModel>>)
    requires
        bare_last(a),
    ensures
        same_block_opt(a, b) <==> a == b,
    decreases a,
{
    if let Some(x) = a {
        if let Some(y) = b {
            lemma_block(x, y);
        }
    }
}

proof fn lemma_arms(a: Seq<(ValueModel, Seq<StatementModel>)>, b: Seq<(ValueModel, Seq<StatementModel>)>)
    requires
        bare_arms(a),
    ensures
        same_arms(a, b) <==> a == b,
    decreases a,
{
    if a.len() == b.len() {
        assert forall|i: int| 0 <= i < a.len() implies (same_value((#[trigger] a[i]).0, b[i].0) && same_block(
            a[i].1,
            b[i].1,
        ) <==> a[i] == b[i]) by {
            assert(decreases_to!(a => a[i]));
            assert(decreases_to!(a[i] => a[i].0));
            assert(decreases_to!(a[i] => a[i].1));
            bare_values_are_the_same_or_not(a[i].0, b[i].0);
            lemma_block(a[i].1, b[i].1);
        }
        if same_arms(a, b) {
            assert(a =~= b);
        }
    }
}

proof fn lemma_catches(a: Seq<CatchModel>, b: Seq<CatchModel>)
    requires
        bare_catches(a),
    ensures
        same_catches(a, b) <==> a == b,
    decreases a,
{
    if a.len() == b.len() {
        assert forall|i: int| 0 <= i < a.len() implies ((#[trigger] a[i]).error_type == b[i].error_type && same_block(
            a[i].body,
            b[i].body,
        ) <==> a[i] == b[i]) by {
            assert(decreases_to!(a => a[i]));
            assert(decreases_to!(a[i] => a[i].body));
            lemma_block(a[i].body, b[i].body);
        }
        if same_catches(a, b) {
            assert(a =~= b);
        }
    }
}

proof fn lemma_target(a: TargetModel, b: TargetModel)
    requires
        bare_target(a),
    ensures
        same_target(a, b) <==> a == b,
    decreases a,
{
    match (a, b) {
        (TargetModel::Property { target: t1, .. }, TargetModel::Property { target: t2, .. }) => {
            lemma_target(*t1, *t2);
        },
        (TargetModel::Index { target: t1, index: i1 }, TargetModel::Index { target: t2, index: i2 }) => {
            lemma_target(*t1, *t2);
            bare_values_are_the_same_or_not(*i1, *i2);
        },
        _ => {},
    }
}

/// Statements without numbers and tables are the same exactly where they are identical.
pub proof fn bare_statements_are_the_same_or_not(a: StatementModel, b: StatementModel)
    requires
        bare_statement(a),
    ensures
        same_statement(a, b) <==> a == b,
    decreases a,
{
    match (a, b) {
        (StatementModel::VariableDecl { value: v1, .. }, StatementModel::VariableDecl { value: v2, .. }) => {
            bare_values_are_the_same_or_not(v1, v2);
        },
        (StatementModel::GlobalDecl { value: v1, .. }, StatementModel::GlobalDecl { value: v2, .. }) => {
            bare_values_are_the_same_or_not(v1, v2);
        },
        (StatementModel::FunctionCall { args: x, .. }, StatementModel::FunctionCall { args: y, .. }) => {
            lemma_values(x, y);
        },
        (StatementModel::Return { value: v1 }, StatementModel::Return { value: v2 }) => {
            bare_values_are_the_same_or_not(*v1, *v2);
        },
        (
            StatementModel::Assign { target: t1, value: v1, .. },
            StatementModel::Assign { target: t2, value: v2, .. },
        ) => {
            lemma_target(t1, t2);
            bare_values_are_the_same_or_not(*v1, *v2);
        },
        (
            StatementModel::Switch { scrutinee: s1, cases: c1, default: d1 },
            StatementModel::Switch { scrutinee: s2, cases: c2, default: d2 },
        ) => {
            bare_values_are_the_same_or_not(*s1, *s2);
            lemma_arms(c1, c2);
            lemma_last(d1, d2);
        },
        (StatementModel::Event { body: b1, .. }, StatementModel::Event { body: b2, .. }) => {
            lemma_block(b1, b2);
        },
        (
            StatementModel::If { condition: c1, then_branch: t1, else_if_branches: e1, else_branch: f1 },
            StatementModel::If { condition: c2, then_branch: t2, else_if_branches: e2, else_branch: f2 },
        ) => {
            bare_values_are_the_same_or_not(c1, c2);
            lemma_block(t1, t2);
            lemma_arms(e1, e2);
            lemma_last(f1, f2);
        },
        (
            StatementModel::While { condition: c1, body: b1 },
            StatementModel::While { condition: c2, body: b2 },
        ) => {
            bare_values_are_the_same_or_not(c1, c2);
            lemma_block(b1, b2);
        },
        (
            StatementModel::ForIn { iterable: i1, body: b1, .. },
            StatementModel::ForIn { iterable: i2, body: b2, .. },
        ) => {
            bare_values_are_the_same_or_not(i1, i2);
            lemma_block(b1, b2);
        },
        (StatementModel::Throw { message: m1, .. }, StatementModel::Throw { message: m2, .. }) => {
            bare_values_are_the_same_or_not(*m1, *m2);
        },
        (StatementModel::Try { body: b1, catches: c1 }, StatementModel::Try { body: b2, catches: c2 }) => {
            lemma_block(b1, b2);
            lemma_catches(c1, c2);
        },
        _ => {},
    }
}

/// `===` takes functions without numbers and tables for equal exactly where they are
/// identical.
pub proof fn functions_are_equal_by_their_text(a: ValueModel, b: ValueModel)
    requires
        a is Function,
        bare_value(a),
    ensures
        strict(a, b) <==> a == b,
{
    bare_values_are_the_same_or_not(a, b);
}

} // verus!
