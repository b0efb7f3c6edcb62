//! Where a `declare` may stand.

use crate::ast::{BinaryOperator, CatchModel, StatementModel, TargetModel, UnaryOperator, ValueModel};
use crate::grammar::{
    arms_declare, block_declares, block_opt_declares, catches_declare, declares, declares_at_top, entries_declare,
    guards_declare, header, program, target_declares, top_level, value_declares, values_declare, Complaint,
    ParseErrorModel,
};
use crate::scanner::scan;
use vstd::prelude::*;

verus! {

/// Whether one of the statements is a `declare` or has one inside.
pub open spec fn one_declares(body: Seq<StatementModel>) -> bool {
    exists|k: int| 0 <= k < body.len() && declares(#[trigger] body[k])
}

/// A `declare` in the body of an event, a loop, a branch, a case, a `try` or a handler is
/// inside that statement, and without one there is none.
pub proof fn bodies_have_declares_inside(
    body: Seq<StatementModel>,
    word: Seq<char>,
    v: ValueModel,
    none: Seq<StatementModel>,
)
    requires
        none.len() == 0,
        !value_declares(v),
    ensures
        ({
            let inside = one_declares(body);
            let no_arms = Seq::<(ValueModel, Seq<StatementModel>)>::empty();
            &&& declares(StatementModel::Event { object: word, name: word, body }) == inside
            &&& declares(StatementModel::While { condition: v, body }) == inside
            &&& declares(StatementModel::ForIn { var: word, iterable: v, body }) == inside
            &&& declares(
                StatementModel::If { condition: v, then_branch: body, else_if_branches: no_arms, else_branch: None },
            ) == inside
            &&& declares(
                StatementModel::If {
                    condition: v,
                    then_branch: none,
                    else_if_branches: seq![(v, body)],
                    else_branch: None,
                },
            ) == inside
            &&& declares(
                StatementModel::If {
                    condition: v,
                    then_branch: none,
                    else_if_branches: no_arms,
                    else_branch: Some(body),
                },
            ) == inside
            &&& declares(StatementModel::Switch { scrutinee: Box::new(v), cases: seq![(v, body)], default: None })
                == inside
            &&& declares(StatementModel::Switch { scrutinee: Box::new(v), cases: no_arms, default: Some(body) })
                == inside
            &&& declares(StatementModel::Try { body, catches: seq![] }) == inside
            &&& declares(StatementModel::Try { body: none, catches: seq![CatchModel { error_type: word, body }] })
                == inside
        }),
{
    let no_arms = Seq::<(ValueModel, Seq<StatementModel>)>::empty();
    let arms = seq![(v, body)];
    let catches = seq![CatchModel { error_type: word, body }];
    assert(block_declares(body) == one_declares(body));
    assert(!block_declares(none));
    assert(!arms_declare(no_arms));
    assert(!guards_declare(no_arms));
    assert(arms[0].1 == body && arms[0].0 == v);
    assert(arms_declare(arms) == block_declares(body));
    assert(!guards_declare(arms));
    assert(catches[0].body == body);
    assert(catches_declare(catches) == block_declares(body));
    assert(!catches_declare(seq![]));
    assert(block_opt_declares(Some(body)) == block_declares(body));
    assert(!block_opt_declares(None));
}

/// A `declare` in the body of a function is inside what the function stands in: a
/// declaration, an assignment, a subject or a case, an array, an object, an operand or an
/// argument.
pub proof fn functions_have_declares_inside(
    params: Seq<Seq<char>>,
    defaults: Seq<(Seq<char>, ValueModel)>,
    body: Seq<StatementModel>,
    word: Seq<char>,
    v: ValueModel,
    op: BinaryOperator,
    sign: UnaryOperator,
    target: TargetModel,
)
    requires
        !value_declares(v),
        !target_declares(target),
    ensures
        ({
            let inside = one_declares(body);
            let f = ValueModel::Function { params, defaults, body };
            let no_arms = Seq::<(ValueModel, Seq<StatementModel>)>::empty();
            &&& declares(StatementModel::VariableDecl { name: word, declared: word, value: f }) == inside
            &&& declares(StatementModel::GlobalDecl { name: word, declared: word, value: f }) == inside
            &&& declares(StatementModel::Assign { target, op: None, value: Box::new(f) }) == inside
            &&& declares(StatementModel::Switch { scrutinee: Box::new(f), cases: no_arms, default: None }) == inside
            &&& declares(StatementModel::Switch { scrutinee: Box::new(v), cases: seq![(f, seq![])], default: None })
                == inside
            &&& declares(
                StatementModel::Assign {
                    target: TargetModel::Index { target: Box::new(target), index: Box::new(f) },
                    op: None,
                    value: Box::new(v),
                },
            ) == inside
            &&& value_declares(ValueModel::Array(seq![f])) == inside
            &&& value_declares(ValueModel::Object(seq![(word, f)])) == inside
            &&& value_declares(ValueModel::Binary { left: Box::new(f), op, right: Box::new(v) }) == inside
            &&& value_declares(ValueModel::Binary { left: Box::new(v), op, right: Box::new(f) }) == inside
            &&& value_declares(ValueModel::Unary { op: sign, value: Box::new(f) }) == inside
            &&& value_declares(ValueModel::Property { target: Box::new(f), key: word }) == inside
            &&& value_declares(ValueModel::Index { target: Box::new(f), index: Box::new(v) }) == inside
            &&& value_declares(
                ValueModel::FunctionCall { object: None, module: None, function: word, args: seq![f] },
            ) == inside
        }),
{
    let f = ValueModel::Function { params, defaults, body };
    let no_arms = Seq::<(ValueModel, Seq<StatementModel>)>::empty();
    let cases = seq![(f, Seq::<StatementModel>::empty())];
    let items = seq![f];
    let entries = seq![(word, f)];
    let spot = TargetModel::Index { target: Box::new(target), index: Box::new(f) };
    assert(block_declares(body) == one_declares(body));
    assert(value_declares(f) == block_declares(body));
    assert(!arms_declare(no_arms) && !guards_declare(no_arms));
    assert(!block_declares(Seq::<StatementModel>::empty()));
    assert(cases[0].0 == f && cases[0].1 == Seq::<StatementModel>::empty());
    assert(guards_declare(cases) == value_declares(f));
    assert(!arms_declare(cases));
    assert(!block_opt_declares(None));
    assert(items[0] == f && entries[0].1 == f);
    assert(values_declare(items) == value_declares(f));
    assert(entries_declare(entries) == value_declares(f));
    assert(target_declares(spot) == value_declares(f));
}

/// A file is a program where its header and its statements can be read and every `declare`
/// in it is one of its own statements; one inside another statement is refused.
pub proof fn declares_stand_at_the_top(source: Seq<char>, s: Seq<StatementModel>, k: int)
    requires
        scan(source) is Ok,
        header(scan(source)->Ok_0, 0) is Ok,
        top_level(source.len(), scan(source)->Ok_0, header(scan(source)->Ok_0, 0)->Ok_0.1, seq![]) == Ok::<
            _,
            ParseErrorModel,
        >(s),
    ensures
        program(source) matches Ok(p) ==> p.statements == s,
        0 <= k < s.len() && !(s[k] is Declare) && declares(s[k]) ==> program(source) == Err::<
            crate::ast::ProgramModel,
            _,
        >(ParseErrorModel::Plain(Complaint::NestedDeclare)),
        (forall|i: int| 0 <= i < s.len() ==> (#[trigger] s[i]) is Declare || !declares(s[i])) ==> program(source) is Ok,
{
    if 0 <= k < s.len() && !(s[k] is Declare) && declares(s[k]) {
        assert(!declares_at_top(s));
    }
}

} // verus!
