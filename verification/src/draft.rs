//! Results that still need the host.
//!
//! Arithmetic with rounding and the text of a number are the host's work. A
//! `Plan` says what is to be worked out; a message is a list of pieces, some of
//! which the host has to write out.

use crate::ast::{values, Value, ValueModel};
use vstd::prelude::*;

verus! {

/// A piece of a text: characters, a number in its shortest decimal form, or a
/// value in the form that shows its structure.
#[derive(Debug, PartialEq)]
pub enum Piece {
    Text(String),
    Number(u64),
    Debug(Value),
}

#[verifier::ext_equal]
pub enum PieceModel {
    Text(Seq<char>),
    Number(u64),
    Debug(ValueModel),
}

#[derive(Debug, PartialEq, Eq, Clone, Copy, Structural)]
pub enum Arithmetic {
    Add,
    Subtract,
    Multiply,
    Divide,
    Power,
}

#[derive(Debug, PartialEq, Eq, Clone, Copy, Structural)]
pub enum RealFunction {
    Sin,
    Cos,
    Tan,
    Sqrt,
    Floor,
    Ceil,
}

/// A value that is to be worked out: one that is there already, a number
/// from numbers, the number nearest to an integer or to a quotient of integers, a
/// text from pieces, or an array of such values.
#[derive(Debug, PartialEq)]
pub enum Plan {
    Ready(Value),
    Arithmetic { op: Arithmetic, left: u64, right: u64 },
    Function { function: RealFunction, of: u64 },
    Integer(i64),
    Ratio { part: u64, whole: u64 },
    Text(Vec<Piece>),
    List(Vec<Plan>),
}

#[verifier::ext_equal]
pub enum PlanModel {
    Ready(ValueModel),
    Arithmetic { op: Arithmetic, left: u64, right: u64 },
    Function { function: RealFunction, of: u64 },
    Integer(i64),
    Ratio { part: u64, whole: u64 },
    Text(Seq<PieceModel>),
    List(Seq<PlanModel>),
}

/// A fault in the making: its message may still need the host.
#[derive(Debug, PartialEq)]
pub enum Failure {
    Fatal(String),
    Throw { error_type: String, message: Vec<Piece> },
}

#[verifier::ext_equal]
pub enum FailureModel {
    Fatal(Seq<char>),
    Throw { error_type: Seq<char>, message: Seq<PieceModel> },
}

/// Catchable typed error, or fatal failure that nothing catches.
#[derive(Debug, PartialEq)]
pub enum RuntimeFault {
    Fatal(String),
    Throw(Value),
}

#[verifier::ext_equal]
pub enum FaultModel {
    Fatal(Seq<char>),
    Throw(ValueModel),
}

impl Piece {
    pub open spec fn view(&self) -> PieceModel {
        match *self {
            Piece::Text(s) => PieceModel::Text(s@),
            Piece::Number(n) => PieceModel::Number(n),
            Piece::Debug(v) => PieceModel::Debug(v@),
        }
    }
}

pub open spec fn pieces(items: Seq<Piece>) -> Seq<PieceModel> {
    Seq::new(items.len(), |i: int| items[i]@)
}

impl Plan {
    pub open spec fn view(&self) -> PlanModel
        decreases self,
    {
        match *self {
            Plan::Ready(v) => PlanModel::Ready(v@),
            Plan::Arithmetic { op, left, right } => PlanModel::Arithmetic { op, left, right },
            Plan::Function { function, of } => PlanModel::Function { function, of },
            Plan::Integer(n) => PlanModel::Integer(n),
            Plan::Ratio { part, whole } => PlanModel::Ratio { part, whole },
            Plan::Text(items) => PlanModel::Text(pieces(items@)),
            Plan::List(items) => PlanModel::List(plans(items@)),
        }
    }
}

pub open spec fn plans(items: Seq<Plan>) -> Seq<PlanModel>
    decreases items,
{
    Seq::new(
        items.len(),
        |i: int|
            if 0 <= i < items.len() {
                items[i].view()
            } else {
                arbitrary()
            },
    )
}

impl Failure {
    pub open spec fn view(&self) -> FailureModel {
        match *self {
            Failure::Fatal(s) => FailureModel::Fatal(s@),
            Failure::Throw { error_type, message } => FailureModel::Throw {
                error_type: error_type@,
                message: pieces(message@),
            },
        }
    }
}

impl RuntimeFault {
    pub open spec fn view(&self) -> FaultModel {
        match *self {
            RuntimeFault::Fatal(s) => FaultModel::Fatal(s@),
            RuntimeFault::Throw(v) => FaultModel::Throw(v@),
        }
    }

    /// A copy of the fault.
    pub fn copy(&self) -> (r: RuntimeFault)
        ensures
            r@ == self@,
    {
        match self {
            RuntimeFault::Fatal(s) => RuntimeFault::Fatal(s.clone()),
            RuntimeFault::Throw(v) => RuntimeFault::Throw(v.copy()),
        }
    }
}

/// Whether the pieces are all plain characters.
pub open spec fn all_text(items: Seq<PieceModel>) -> bool {
    forall|i: int| 0 <= i < items.len() ==> (#[trigger] items[i]) is Text
}

/// The characters of pieces that are all plain, one behind the other.
pub open spec fn joined(items: Seq<PieceModel>) -> Seq<char>
    decreases items.len(),
{
    if items.len() == 0 {
        seq![]
    } else {
        joined(items.drop_last()) + (match items.last() {
            PieceModel::Text(s) => s,
            _ => seq![],
        })
    }
}

/// Whether the value can be had without the host.
pub open spec fn settled(p: PlanModel) -> bool
    decreases p,
{
    match p {
        PlanModel::Ready(_) => true,
        PlanModel::Text(items) => all_text(items),
        PlanModel::List(items) => all_settled(items),
        _ => false,
    }
}

pub open spec fn all_settled(items: Seq<PlanModel>) -> bool
    decreases items,
{
    forall|i: int| 0 <= i < items.len() ==> settled(#[trigger] items[i])
}

/// The value of a plan that needs no host.
pub open spec fn settle(p: PlanModel) -> ValueModel
    decreases p,
{
    match p {
        PlanModel::Ready(v) => v,
        PlanModel::Text(items) => ValueModel::String(joined(items)),
        PlanModel::List(items) => ValueModel::Array(settle_all(items)),
        _ => ValueModel::Null,
    }
}

pub open spec fn settle_all(items: Seq<PlanModel>) -> Seq<ValueModel>
    decreases items,
{
    Seq::new(
        items.len(),
        |i: int|
            if 0 <= i < items.len() {
                settle(items[i])
            } else {
                arbitrary()
            },
    )
}

fn is_all_text(items: &Vec<Piece>) -> (r: bool)
    ensures
        r == all_text(pieces(items@)),
{
    let ghost model = pieces(items@);
    let mut i: usize = 0;
    while i < items.len()
        invariant
            i <= items@.len(),
            model == pieces(items@),
            forall|k: int| 0 <= k < i ==> (#[trigger] model[k]) is Text,
        decreases items@.len() - i,
    {
        match &items[i] {
            Piece::Text(_) => {},
            _ => {
                assert(!(model[i as int] is Text));
                return false;
            },
        }
        i = i + 1;
    }
    true
}

fn join_text(items: &Vec<Piece>) -> (r: String)
    ensures
        r@ == joined(pieces(items@)),
{
    let ghost model = pieces(items@);
    let mut r: String = String::new();
    let mut i: usize = 0;
    while i < items.len()
        invariant
            i <= items@.len(),
            model == pieces(items@),
            r@ == joined(model.take(i as int)),
        decreases items@.len() - i,
    {
        proof {
            assert(model.take(i as int + 1).drop_last() =~= model.take(i as int));
        }
        match &items[i] {
            Piece::Text(s) => {
                r.append(s.as_str());
            },
            _ => {},
        }
        i = i + 1;
    }
    proof {
        assert(model.take(items@.len() as int) =~= model);
    }
    r
}

fn is_settled(p: &Plan) -> (r: bool)
    ensures
        r == settled(p@),
    decreases p,
{
    match p {
        Plan::Ready(_) => true,
        Plan::Text(items) => is_all_text(items),
        Plan::List(items) => {
            let ghost model = plans(items@);
            let mut i: usize = 0;
            while i < items.len()
                invariant
                    i <= items@.len(),
                    model == plans(items@),
                    p@ == PlanModel::List(model),
                    forall|k: int| 0 <= k < i ==> settled(#[trigger] model[k]),
                    decreases_to!(p => items),
                decreases items@.len() - i,
            {
                if !is_settled(&items[i]) {
                    assert(!settled(model[i as int]));
                    return false;
                }
                i = i + 1;
            }
            true
        },
        _ => false,
    }
}

fn settle_now(p: &Plan) -> (r: Value)
    ensures
        r@ == settle(p@),
    decreases p,
{
    match p {
        Plan::Ready(v) => v.copy(),
        Plan::Text(items) => Value::String(join_text(items)),
        Plan::List(items) => {
            let mut done: Vec<Value> = Vec::new();
            let mut i: usize = 0;
            while i < items.len()
                invariant
                    i <= items@.len(),
                    done@.len() == i,
                    forall|k: int| 0 <= k < i ==> (#[trigger] done@[k])@ == settle(items@[k]@),
                    decreases_to!(p => items),
                decreases items@.len() - i,
            {
                done.push(settle_now(&items[i]));
                i = i + 1;
            }
            assert(values(done@) =~= settle_all(plans(items@)));
            Value::Array(done)
        },
        _ => Value::Null,
    }
}

/// The value of the plan if it needs no host, else the plan.
pub fn try_settle(p: Plan) -> (r: Result<Value, Plan>)
    ensures
        match r {
            Ok(v) => settled(p@) && v@ == settle(p@),
            Err(q) => !settled(p@) && q@ == p@,
        },
{
    match p {
        Plan::Ready(v) => Ok(v),
        other => if is_settled(&other) {
            Ok(settle_now(&other))
        } else {
            Err(other)
        },
    }
}

/// A fatal failure.
pub open spec fn fatal_model(message: Seq<char>) -> FailureModel {
    FailureModel::Fatal(message)
}

/// A catchable error.
pub open spec fn throw_model(error_type: Seq<char>, message: Seq<PieceModel>) -> FailureModel {
    FailureModel::Throw { error_type, message }
}

/// A catchable error with a plain message.
pub open spec fn throw_text(error_type: Seq<char>, message: Seq<char>) -> FailureModel {
    FailureModel::Throw { error_type, message: seq![PieceModel::Text(message)] }
}

pub fn fatal_err(message: &str) -> (r: Failure)
    ensures
        r@ == fatal_model(message@),
{
    Failure::Fatal(message.to_string())
}

pub fn throw_err(error_type: &str, message: &str) -> (r: Failure)
    ensures
        r@ == throw_text(error_type@, message@),
{
    throw_pieces(error_type, text_1(text(message)))
}

pub fn throw_pieces(error_type: &str, message: Vec<Piece>) -> (r: Failure)
    ensures
        r@ == throw_model(error_type@, pieces(message@)),
{
    Failure::Throw { error_type: error_type.to_string(), message }
}

/// A piece of plain characters.
pub fn text(s: &str) -> (r: Piece)
    ensures
        r@ == PieceModel::Text(s@),
{
    Piece::Text(s.to_string())
}

/// A piece that shows the structure of a value.
pub fn debug(v: &Value) -> (r: Piece)
    ensures
        r@ == PieceModel::Debug(v@),
{
    Piece::Debug(v.copy())
}

pub fn text_1(a: Piece) -> (r: Vec<Piece>)
    ensures
        pieces(r@) == seq![a@],
{
    let mut r: Vec<Piece> = Vec::new();
    r.push(a);
    assert(pieces(r@) =~= seq![a@]);
    r
}

pub fn text_2(a: Piece, b: Piece) -> (r: Vec<Piece>)
    ensures
        pieces(r@) == seq![a@, b@],
{
    let mut r: Vec<Piece> = Vec::new();
    r.push(a);
    r.push(b);
    assert(pieces(r@) =~= seq![a@, b@]);
    r
}

pub fn text_3(a: Piece, b: Piece, c: Piece) -> (r: Vec<Piece>)
    ensures
        pieces(r@) == seq![a@, b@, c@],
{
    let mut r: Vec<Piece> = Vec::new();
    r.push(a);
    r.push(b);
    r.push(c);
    assert(pieces(r@) =~= seq![a@, b@, c@]);
    r
}

pub fn text_4(a: Piece, b: Piece, c: Piece, d: Piece) -> (r: Vec<Piece>)
    ensures
        pieces(r@) == seq![a@, b@, c@, d@],
{
    let mut r: Vec<Piece> = Vec::new();
    r.push(a);
    r.push(b);
    r.push(c);
    r.push(d);
    assert(pieces(r@) =~= seq![a@, b@, c@, d@]);
    r
}

pub fn text_5(a: Piece, b: Piece, c: Piece, d: Piece, e: Piece) -> (r: Vec<Piece>)
    ensures
        pieces(r@) == seq![a@, b@, c@, d@, e@],
{
    let mut r: Vec<Piece> = Vec::new();
    r.push(a);
    r.push(b);
    r.push(c);
    r.push(d);
    r.push(e);
    assert(pieces(r@) =~= seq![a@, b@, c@, d@, e@]);
    r
}

pub fn text_6(a: Piece, b: Piece, c: Piece, d: Piece, e: Piece, f: Piece) -> (r: Vec<Piece>)
    ensures
        pieces(r@) == seq![a@, b@, c@, d@, e@, f@],
{
    let mut r: Vec<Piece> = Vec::new();
    r.push(a);
    r.push(b);
    r.push(c);
    r.push(d);
    r.push(e);
    r.push(f);
    assert(pieces(r@) =~= seq![a@, b@, c@, d@, e@, f@]);
    r
}

} // verus!
