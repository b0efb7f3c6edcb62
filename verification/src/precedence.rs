//! What holds of every program text.

use crate::ast::{BinaryOperator, ValueModel};
use crate::grammar::{
    at, binary, chain, declared_type, declares, fields, header, indices, links, operand, operator, operator_at, primary,
    program, unary, ParseErrorModel,
};
use crate::scanner::{scan, ScriptTokenModel, Symbol};
use vstd::prelude::*;

verus! {

/// Whether no operand goes on at `i`, nor an operator of `level` or tighter
/// stands there.
pub open spec fn stops(t: Seq<ScriptTokenModel>, i: int, level: int) -> bool {
    &&& !at(t, i, Symbol::Dot)
    &&& !at(t, i, Symbol::LBracket)
    &&& forall|l: int| level <= l <= 9 ==> #[trigger] operator_at(t, i, l) is None
}

/// Whether a numeral stands at `i`.
pub open spec fn numeral_at(t: Seq<ScriptTokenModel>, i: int, n: u64) -> bool {
    0 <= i < t.len() && t[i] == ScriptTokenModel::NumberLiteral(n)
}

/// Whether the operator `op` of `level` stands at `i`.
pub open spec fn joins(t: Seq<ScriptTokenModel>, i: int, level: int, op: BinaryOperator) -> bool {
    0 <= level <= 9 && operator_at(t, i, level) == Some(op)
}

/// An operator has one level only.
pub proof fn operators_have_one_level(m: Symbol, a: int, b: int)
    requires
        operator(a, m) is Some,
        operator(b, m) is Some,
    ensures
        a == b,
{
}

proof fn lemma_joins_stops(t: Seq<ScriptTokenModel>, i: int, level: int, op: BinaryOperator)
    requires
        joins(t, i, level, op),
    ensures
        stops(t, i, level + 1),
        forall|l: int| l < level ==> #[trigger] operator_at(t, i, l) is None,
{
}

proof fn lemma_numeral(b: nat, t: Seq<ScriptTokenModel>, i: int, level: int, n: u64)
    requires
        0 <= level <= 9,
        numeral_at(t, i, n),
        stops(t, i + 1, level + 1),
    ensures
        operand(b, t, i, level) == Ok::<_, ParseErrorModel>((ValueModel::Number(n), i + 1)),
        stops(t, i + 1, level) ==> chain(b, t, i, level) == Ok::<_, ParseErrorModel>((ValueModel::Number(n), i + 1)),
    decreases 9 - level,
{
    let v = ValueModel::Number(n);
    if level < 9 {
        lemma_numeral(b, t, i, level + 1, n);
    } else {
        assert(fields(b, t, i + 1, v) == Ok::<_, ParseErrorModel>((v, i + 1)));
        assert(indices(b, t, i + 1, v) == Ok::<_, ParseErrorModel>((v, i + 1)));
        assert(primary(b, t, i) == Ok::<_, ParseErrorModel>((v, i + 1)));
    }
    if stops(t, i + 1, level) {
        assert(operator_at(t, i + 1, level) is None);
        assert(links(b, t, i + 1, level, v) == Ok::<_, ParseErrorModel>((v, i + 1)));
    }
}

/// What an operand of `level` is, once it is known at the next level.
proof fn lemma_operand(b: nat, t: Seq<ScriptTokenModel>, i: int, level: int, n: u64)
    requires
        0 <= level < 9,
        numeral_at(t, i, n),
    ensures
        operand(b, t, i, level) == chain(b, t, i, level + 1),
{
    if level == 4 {
        assert(unary(b, t, i) == chain(b, t, i, 5));
    }
}

/// Two numerals with an operator between them.
proof fn lemma_pair(
    b: nat,
    t: Seq<ScriptTokenModel>,
    i: int,
    level: int,
    q: int,
    x: u64,
    op: BinaryOperator,
    y: u64,
)
    requires
        0 <= level <= q,
        numeral_at(t, i, x),
        joins(t, i + 1, q, op),
        numeral_at(t, i + 2, y),
        stops(t, i + 3, level),
    ensures
        chain(b, t, i, level) == Ok::<_, ParseErrorModel>(
            (binary(ValueModel::Number(x), op, ValueModel::Number(y)), i + 3),
        ),
    decreases q - level,
{
    let v = binary(ValueModel::Number(x), op, ValueModel::Number(y));
    lemma_joins_stops(t, i + 1, q, op);
    assert(operator_at(t, i + 3, level) is None);
    if level == q {
        lemma_numeral(b, t, i, level, x);
        lemma_numeral(b, t, i + 2, level, y);
        assert(links(b, t, i + 3, level, v) == Ok::<_, ParseErrorModel>((v, i + 3)));
        assert(links(b, t, i + 1, level, ValueModel::Number(x)) == Ok::<_, ParseErrorModel>((v, i + 3)));
    } else {
        lemma_pair(b, t, i, level + 1, q, x, op, y);
        lemma_operand(b, t, i, level, x);
        assert(links(b, t, i + 3, level, v) == Ok::<_, ParseErrorModel>((v, i + 3)));
    }
}

/// Of two operators, the one of the tighter level takes its operands first;
/// of two on one level, the one on the left.
pub proof fn tighter_operator_binds_first(
    b: nat,
    t: Seq<ScriptTokenModel>,
    i: int,
    level: int,
    p: int,
    q: int,
    x: u64,
    first: BinaryOperator,
    y: u64,
    second: BinaryOperator,
    z: u64,
)
    requires
        numeral_at(t, i, x),
        joins(t, i + 1, p, first),
        numeral_at(t, i + 2, y),
        joins(t, i + 3, q, second),
        numeral_at(t, i + 4, z),
        0 <= level <= p,
        level <= q,
        stops(t, i + 5, level),
    ensures
        ({
            let (a, m, c) = (ValueModel::Number(x), ValueModel::Number(y), ValueModel::Number(z));
            let v = if p < q {
                binary(a, first, binary(m, second, c))
            } else {
                binary(binary(a, first, m), second, c)
            };
            chain(b, t, i, level) == Ok::<_, ParseErrorModel>((v, i + 5))
        }),
    decreases p + q - 2 * level,
{
    let (a, m, c) = (ValueModel::Number(x), ValueModel::Number(y), ValueModel::Number(z));
    let v = if p < q {
        binary(a, first, binary(m, second, c))
    } else {
        binary(binary(a, first, m), second, c)
    };
    lemma_joins_stops(t, i + 1, p, first);
    lemma_joins_stops(t, i + 3, q, second);
    assert(operator_at(t, i + 5, level) is None);
    assert(links(b, t, i + 5, level, v) == Ok::<_, ParseErrorModel>((v, i + 5)));
    if level < p && level < q {
        tighter_operator_binds_first(b, t, i, level + 1, p, q, x, first, y, second, z);
        lemma_operand(b, t, i, level, x);
    } else if level == p && p < q {
        lemma_numeral(b, t, i, level, x);
        lemma_pair(b, t, i + 2, level + 1, q, y, second, z);
        lemma_operand(b, t, i + 2, level, y);
        assert(links(b, t, i + 1, level, a) == Ok::<_, ParseErrorModel>((v, i + 5)));
    } else if level == q && q < p {
        lemma_pair(b, t, i, level + 1, p, x, first, y);
        lemma_operand(b, t, i, level, x);
        lemma_numeral(b, t, i + 4, level, z);
        assert(links(b, t, i + 3, level, binary(a, first, m)) == Ok::<_, ParseErrorModel>((v, i + 5)));
    } else {
        lemma_numeral(b, t, i, level, x);
        lemma_numeral(b, t, i + 2, level, y);
        lemma_numeral(b, t, i + 4, level, z);
        assert(links(b, t, i + 3, level, binary(a, first, m)) == Ok::<_, ParseErrorModel>((v, i + 5)));
        assert(links(b, t, i + 1, level, a) == Ok::<_, ParseErrorModel>((v, i + 5)));
    }
}

/// In a program an import stands at the top level of its file only.
pub proof fn imports_stand_at_top(source: Seq<char>, i: int)
    requires
        program(source) is Ok,
        0 <= i < program(source)->Ok_0.statements.len(),
    ensures
        ({
            let st = program(source)->Ok_0.statements[i];
            st is Declare || !declares(st)
        }),
{
}

/// A text without a header is no program.
pub proof fn header_is_needed(source: Seq<char>)
    requires
        scan(source) is Ok,
        header(scan(source)->Ok_0, 0) is Err,
    ensures
        program(source) is Err,
{
}

/// A name that is no type cannot stand where a type is declared.
pub proof fn unknown_type_is_refused(t: Seq<ScriptTokenModel>, i: int, name: Seq<char>)
    requires
        0 <= i < t.len(),
        t[i] == ScriptTokenModel::Identifier(name),
        name != "file"@,
        name != "db"@,
        name != "window"@,
        name != "button"@,
    ensures
        declared_type(t, i) is Err,
{
}

} // verus!
