//! What the forms of the language stand for.

use crate::ast::{BinaryOperator, CatchModel, StatementModel, TargetModel, UnaryOperator, ValueModel};
use crate::grammar::{
    arguments, array, at, base, body, braced, catch_clause, chain, else_ifs, expression, fields, function_header,
    guarded, header, in_parens, indices, initial_value, links, list, object, object_entries, operand, operator,
    parameters_from, statement, statements, switch_items, target_suffixes, token, top_level, try_items, unary, Base,
    ParseErrorModel,
};
use crate::lexer::mark;
use crate::number::{finite, truncated, units};
use crate::scanner::{reading, ScriptTokenModel, Symbol};
use crate::table::put;
use vstd::prelude::*;

verus! {

// Marks.
/// The mark that starts a text, as the parser takes it, and how many characters it has.
pub open spec fn mark_read(a: char, b: char, c: char) -> Option<(ScriptTokenModel, int)> {
    match mark(a, b, c) {
        Some((m, n)) => Some((reading(m), n)),
        None => None,
    }
}

/// Whether the characters start with this mark.
pub open spec fn is_mark(a: char, b: char, c: char, m: Symbol, n: int) -> bool {
    mark_read(a, b, c) == Some((ScriptTokenModel::Symbol(m), n))
}

/// The longest mark counts: whatever follows a mark of three characters, of two that no
/// third one continues, or of one that no second one continues.
pub proof fn longest_mark_counts(b: char, c: char)
    ensures
        is_mark('=', '=', '=', Symbol::StrictEqual, 3),
        is_mark('!', '=', '=', Symbol::StrictNotEqual, 3),
        c != '=' ==> is_mark('=', '=', c, Symbol::Equal, 2) && is_mark('!', '=', c, Symbol::NotEqual, 2),
        is_mark('>', '=', c, Symbol::GreaterEqual, 2),
        is_mark('<', '=', c, Symbol::LessEqual, 2),
        is_mark('<', '<', c, Symbol::Shl, 2),
        is_mark('>', '>', c, Symbol::Shr, 2),
        is_mark('+', '=', c, Symbol::PlusAssign, 2),
        is_mark('-', '=', c, Symbol::MinusAssign, 2),
        is_mark('*', '=', c, Symbol::StarAssign, 2),
        is_mark('/', '=', c, Symbol::SlashAssign, 2),
        is_mark('.', '.', c, Symbol::DotDot, 2),
        is_mark('-', '>', c, Symbol::Arrow, 2),
        b != '=' ==> is_mark('=', b, c, Symbol::Assign, 1) && is_mark('!', b, c, Symbol::Not, 1) && is_mark(
            '+',
            b,
            c,
            Symbol::Plus,
            1,
        ) && is_mark('*', b, c, Symbol::Asterisk, 1) && is_mark('/', b, c, Symbol::Slash, 1),
        b != '=' && b != '>' ==> is_mark('-', b, c, Symbol::Minus, 1) && is_mark('>', b, c, Symbol::GreaterThan, 1),
        b != '=' && b != '<' ==> is_mark('<', b, c, Symbol::LessThan, 1),
        b != '.' ==> is_mark('.', b, c, Symbol::Dot, 1),
        is_mark('[', b, c, Symbol::LBracket, 1),
        is_mark(']', b, c, Symbol::RBracket, 1),
        is_mark('{', b, c, Symbol::LBrace, 1),
        is_mark('}', b, c, Symbol::RBrace, 1),
        is_mark('(', b, c, Symbol::LParen, 1),
        is_mark(')', b, c, Symbol::RParen, 1),
        is_mark(',', b, c, Symbol::Comma, 1),
        is_mark(':', b, c, Symbol::Colon, 1),
        is_mark(';', b, c, Symbol::Semicolon, 1),
        is_mark('|', b, c, Symbol::BitOr, 1),
        is_mark('^', b, c, Symbol::BitXor, 1),
        is_mark('&', b, c, Symbol::BitAnd, 1),
        is_mark('~', b, c, Symbol::BitNot, 1),
{
}

// Operators.
/// The operator that a mark or word between two operands stands for.
pub open spec fn stands_for(m: Symbol) -> Option<BinaryOperator> {
    match m {
        Symbol::Or => Some(BinaryOperator::Or),
        Symbol::And => Some(BinaryOperator::And),
        Symbol::BitOr => Some(BinaryOperator::BitOr),
        Symbol::BitXor => Some(BinaryOperator::BitXor),
        Symbol::BitAnd => Some(BinaryOperator::BitAnd),
        Symbol::Equal => Some(BinaryOperator::Equal),
        Symbol::StrictEqual => Some(BinaryOperator::StrictEqual),
        Symbol::NotEqual => Some(BinaryOperator::NotEqual),
        Symbol::StrictNotEqual => Some(BinaryOperator::StrictNotEqual),
        Symbol::GreaterThan => Some(BinaryOperator::Greater),
        Symbol::LessThan => Some(BinaryOperator::Less),
        Symbol::GreaterEqual => Some(BinaryOperator::GreaterEqual),
        Symbol::LessEqual => Some(BinaryOperator::LessEqual),
        Symbol::Shl => Some(BinaryOperator::Shl),
        Symbol::Shr => Some(BinaryOperator::Shr),
        Symbol::DotDot => Some(BinaryOperator::Range),
        Symbol::Plus => Some(BinaryOperator::Add),
        Symbol::Minus => Some(BinaryOperator::Subtract),
        Symbol::Asterisk => Some(BinaryOperator::Multiply),
        Symbol::Slash => Some(BinaryOperator::Divide),
        _ => None,
    }
}

/// A mark is an operator of one level, and it is the operator that it is written as.
pub proof fn marks_are_their_operators(m: Symbol, level: int)
    ensures
        operator(level, m) matches Some(op) ==> stands_for(m) == Some(op),
        stands_for(m) matches Some(op) ==> exists|l: int| 0 <= l <= 9 && #[trigger] operator(l, m) == Some(op),
{
    if let Some(op) = stands_for(m) {
        assert(operator(0, m) == Some(op) || operator(1, m) == Some(op) || operator(2, m) == Some(op) || operator(3, m)
            == Some(op) || operator(4, m) == Some(op) || operator(5, m) == Some(op) || operator(6, m) == Some(op)
            || operator(7, m) == Some(op) || operator(8, m) == Some(op) || operator(9, m) == Some(op));
    }
}

/// Whether the operator that `m` stands for binds looser than the one that `n` stands for.
pub open spec fn looser(m: Symbol, n: Symbol) -> bool {
    exists|k: int, l: int| k < l && #[trigger] operator(k, m) is Some && #[trigger] operator(l, n) is Some
}

/// From the loosest to the tightest: `or`, `and`, `|`, `^`, `&`, the comparisons, the shifts,
/// the range, sums, products.
pub proof fn operators_bind_in_this_order(m: Symbol)
    ensures
        looser(Symbol::Or, Symbol::And),
        looser(Symbol::And, Symbol::BitOr),
        looser(Symbol::BitOr, Symbol::BitXor),
        looser(Symbol::BitXor, Symbol::BitAnd),
        m is Equal || m is StrictEqual || m is NotEqual || m is StrictNotEqual || m is GreaterThan || m is LessThan || m
            is GreaterEqual || m is LessEqual ==> looser(Symbol::BitAnd, m) && looser(m, Symbol::Shl) && looser(
            m,
            Symbol::Shr,
        ),
        looser(Symbol::Shl, Symbol::DotDot),
        looser(Symbol::Shr, Symbol::DotDot),
        looser(Symbol::DotDot, Symbol::Plus),
        looser(Symbol::DotDot, Symbol::Minus),
        looser(Symbol::Plus, Symbol::Asterisk),
        looser(Symbol::Plus, Symbol::Slash),
        looser(Symbol::Minus, Symbol::Asterisk),
        looser(Symbol::Minus, Symbol::Slash),
{
    assert(operator(0, Symbol::Or) is Some && operator(1, Symbol::And) is Some && operator(2, Symbol::BitOr) is Some);
    assert(operator(3, Symbol::BitXor) is Some && operator(4, Symbol::BitAnd) is Some);
    assert(operator(6, Symbol::Shl) is Some && operator(6, Symbol::Shr) is Some && operator(7, Symbol::DotDot) is Some);
    assert(operator(8, Symbol::Plus) is Some && operator(8, Symbol::Minus) is Some);
    assert(operator(9, Symbol::Asterisk) is Some && operator(9, Symbol::Slash) is Some);
    if m is Equal || m is StrictEqual || m is NotEqual || m is StrictNotEqual || m is GreaterThan || m is LessThan || m
        is GreaterEqual || m is LessEqual {
        assert(operator(5, m) is Some);
    }
}

/// The comparisons bind alike, and so do the shifts, sum and difference, product and
/// quotient.
pub proof fn alike_operators_share_a_level(l: int)
    ensures
        operator(l, Symbol::Equal) is Some <==> operator(l, Symbol::StrictEqual) is Some,
        operator(l, Symbol::Equal) is Some <==> operator(l, Symbol::NotEqual) is Some,
        operator(l, Symbol::Equal) is Some <==> operator(l, Symbol::StrictNotEqual) is Some,
        operator(l, Symbol::Equal) is Some <==> operator(l, Symbol::GreaterThan) is Some,
        operator(l, Symbol::Equal) is Some <==> operator(l, Symbol::LessThan) is Some,
        operator(l, Symbol::Equal) is Some <==> operator(l, Symbol::GreaterEqual) is Some,
        operator(l, Symbol::Equal) is Some <==> operator(l, Symbol::LessEqual) is Some,
        operator(l, Symbol::Shl) is Some <==> operator(l, Symbol::Shr) is Some,
        operator(l, Symbol::Plus) is Some <==> operator(l, Symbol::Minus) is Some,
        operator(l, Symbol::Asterisk) is Some <==> operator(l, Symbol::Slash) is Some,
{
}

/// Whether something has been read, and where it ends.
pub open spec fn reads<T>(r: Result<(T, int), ParseErrorModel>, v: T, end: int) -> bool {
    r == Ok::<_, ParseErrorModel>((v, end))
}

/// Operators of one level take what is in front of them as a whole for their left operand
/// and the next tighter operand for their right one.
pub proof fn operators_chain_from_the_left(
    b: nat,
    t: Seq<ScriptTokenModel>,
    i: int,
    level: int,
    left: ValueModel,
    m: Symbol,
    op: BinaryOperator,
    right: ValueModel,
    j: int,
)
    requires
        at(t, i, m),
        operator(level, m) is Some,
        stands_for(m) == Some(op),
        reads(operand(b, t, i + 1, level), right, j),
        i + 1 < j <= t.len(),
    ensures
        links(b, t, i, level, left) == links(
            b,
            t,
            j,
            level,
            ValueModel::Binary { left: Box::new(left), op, right: Box::new(right) },
        ),
{
    marks_are_their_operators(m, level);
}

/// `not`, `!` and `~` stand in front of their operand, which they take with its own unary
/// operators. They bind tighter than `&` and looser than the comparisons.
pub proof fn unary_operators_stand_in_front(b: nat, t: Seq<ScriptTokenModel>, i: int, v: ValueModel, j: int)
    requires
        reads(unary(b, t, i + 1), v, j),
    ensures
        at(t, i, Symbol::Not) ==> reads(
            unary(b, t, i),
            ValueModel::Unary { op: UnaryOperator::Not, value: Box::new(v) },
            j,
        ),
        at(t, i, Symbol::BitNot) ==> reads(
            unary(b, t, i),
            ValueModel::Unary { op: UnaryOperator::BitNot, value: Box::new(v) },
            j,
        ),
        !at(t, i, Symbol::Not) && !at(t, i, Symbol::BitNot) ==> unary(b, t, i) == chain(b, t, i, 5),
        operand(b, t, i, 4) == unary(b, t, i),
        operator(4, Symbol::BitAnd) is Some,
        operator(5, Symbol::Equal) is Some,
{
}

// Values.
/// Literals stand for themselves.
pub proof fn literals_are_values(b: nat, t: Seq<ScriptTokenModel>, i: int, n: u64, p: bool)
    ensures
        token(t, i) == Some(ScriptTokenModel::NumberLiteral(n)) ==> reads(
            base(b, t, i),
            Base::Open(ValueModel::Number(n)),
            i + 1,
        ),
        token(t, i) == Some(ScriptTokenModel::BoolLiteral(p)) ==> reads(
            base(b, t, i),
            Base::Open(ValueModel::Logic(p)),
            i + 1,
        ),
        at(t, i, Symbol::Null) ==> reads(base(b, t, i), Base::Open(ValueModel::Null), i + 1),
{
}

/// Whether the identifier `name` stands at `i`.
pub open spec fn names(t: Seq<ScriptTokenModel>, i: int, name: Seq<char>) -> bool {
    token(t, i) == Some(ScriptTokenModel::Identifier(name))
}

/// `var.name` reads a variable, `arg.name` a parameter, `alias:var.name` what a module
/// exports.
pub proof fn names_are_read_by_their_prefix(
    b: nat,
    t: Seq<ScriptTokenModel>,
    i: int,
    name: Seq<char>,
    alias: Seq<char>,
)
    ensures
        at(t, i, Symbol::Var) && at(t, i + 1, Symbol::Dot) && names(t, i + 2, name) ==> reads(
            base(b, t, i),
            Base::Open(ValueModel::Variable("var."@ + name)),
            i + 3,
        ),
        names(t, i, "arg"@) && at(t, i + 1, Symbol::Dot) && names(t, i + 2, name) && !at(t, i + 3, Symbol::LParen)
            ==> reads(base(b, t, i), Base::Open(ValueModel::Variable("arg."@ + name)), i + 3),
        names(t, i, alias) && at(t, i + 1, Symbol::Colon) && at(t, i + 2, Symbol::Var) && at(t, i + 3, Symbol::Dot)
            && names(t, i + 4, name) ==> reads(
            base(b, t, i),
            Base::Open(ValueModel::ModuleVar { alias, name }),
            i + 5,
        ),
        names(t, i, name) && !at(t, i + 1, Symbol::Colon) && !at(t, i + 1, Symbol::Dot) && !at(t, i + 1, Symbol::LParen)
            ==> reads(base(b, t, i), Base::Open(ValueModel::Variable(name)), i + 1),
{
}

/// A name with arguments is a call; one in front of it with a dot is its object, one with a
/// colon its module.
pub proof fn calls_are_read_by_their_prefix(
    b: nat,
    t: Seq<ScriptTokenModel>,
    i: int,
    name: Seq<char>,
    function: Seq<char>,
    args: Seq<ValueModel>,
    j: int,
)
    ensures
        names(t, i, function) && at(t, i + 1, Symbol::LParen) && reads(arguments(b, t, i + 1), args, j) ==> reads(
            base(b, t, i),
            Base::Open(ValueModel::FunctionCall { object: None, module: None, function, args }),
            j,
        ) && reads(
            statement(b, t, i),
            StatementModel::FunctionCall { object: None, module: None, function, args },
            j,
        ),
        names(t, i, name) && at(t, i + 1, Symbol::Dot) && names(t, i + 2, function) && at(t, i + 3, Symbol::LParen)
            && reads(arguments(b, t, i + 3), args, j) ==> reads(
            base(b, t, i),
            Base::Closed(ValueModel::FunctionCall { object: Some(name), module: None, function, args }),
            j,
        ) && reads(
            statement(b, t, i),
            StatementModel::FunctionCall { object: Some(name), module: None, function, args },
            j,
        ),
        names(t, i, name) && at(t, i + 1, Symbol::Colon) && names(t, i + 2, function) && at(t, i + 3, Symbol::LParen)
            && reads(arguments(b, t, i + 3), args, j) ==> reads(
            base(b, t, i),
            Base::Closed(ValueModel::FunctionCall { object: None, module: Some(name), function, args }),
            j,
        ) && reads(
            statement(b, t, i),
            StatementModel::FunctionCall { object: None, module: Some(name), function, args },
            j,
        ),
{
}

/// Items stand between their marks with commas between them, in their order.
pub proof fn items_are_read_in_order(
    b: nat,
    t: Seq<ScriptTokenModel>,
    i: int,
    done: Seq<ValueModel>,
    v: ValueModel,
    j: int,
    items: Seq<ValueModel>,
    k: int,
)
    ensures
        reads(expression(b, t, i), v, j) && i < j <= t.len() && at(t, j, Symbol::Comma) ==> list(b, t, i, done) == list(
            b,
            t,
            j + 1,
            done.push(v),
        ),
        reads(expression(b, t, i), v, j) && i < j <= t.len() && !at(t, j, Symbol::Comma) ==> reads(
            list(b, t, i, done),
            done.push(v),
            j,
        ),
        at(t, i, Symbol::LParen) && at(t, i + 1, Symbol::RParen) ==> reads(arguments(b, t, i), seq![], i + 2),
        at(t, i, Symbol::LParen) && !at(t, i + 1, Symbol::RParen) && reads(list(b, t, i + 1, seq![]), items, k) && at(
            t,
            k,
            Symbol::RParen,
        ) ==> reads(arguments(b, t, i), items, k + 1),
        at(t, i, Symbol::LBracket) && at(t, i + 1, Symbol::RBracket) ==> reads(
            array(b, t, i),
            ValueModel::Array(seq![]),
            i + 2,
        ),
        at(t, i, Symbol::LBracket) && !at(t, i + 1, Symbol::RBracket) && reads(list(b, t, i + 1, seq![]), items, k)
            && at(t, k, Symbol::RBracket) ==> reads(array(b, t, i), ValueModel::Array(items), k + 1),
{
}

/// An object has each value under the key in front of its colon; a key is a name or a string.
pub proof fn entries_are_read_by_key(
    b: nat,
    t: Seq<ScriptTokenModel>,
    i: int,
    o: Seq<(Seq<char>, ValueModel)>,
    key: Seq<char>,
    v: ValueModel,
    j: int,
)
    requires
        names(t, i, key) || token(t, i) == Some(ScriptTokenModel::StringLiteral(key)),
        at(t, i + 1, Symbol::Colon),
        reads(expression(b, t, i + 2), v, j),
        i + 2 < j <= t.len(),
    ensures
        at(t, j, Symbol::RBrace) ==> reads(object_entries(b, t, i, o), put(o, key, v), j),
        at(t, j, Symbol::Comma) ==> object_entries(b, t, i, o) == object_entries(b, t, j + 1, put(o, key, v)),
        at(t, i - 1, Symbol::LBrace) && at(t, j, Symbol::RBrace) ==> reads(
            object(b, t, i - 1),
            ValueModel::Object(put(seq![], key, v)),
            j + 1,
        ),
{
}

/// Parentheses hold one expression together; `.key` reads a property and `[index]` an
/// element, from the left to the right.
pub proof fn suffixes_apply_from_the_left(
    b: nat,
    t: Seq<ScriptTokenModel>,
    i: int,
    v: ValueModel,
    key: Seq<char>,
    index: ValueModel,
    j: int,
)
    ensures
        at(t, i, Symbol::LParen) && reads(expression(b, t, i + 1), v, j) && at(t, j, Symbol::RParen) ==> reads(
            base(b, t, i),
            Base::Open(v),
            j + 1,
        ) && reads(in_parens(b, t, i), v, j + 1),
        at(t, i, Symbol::Dot) && names(t, i + 1, key) && !at(t, i + 2, Symbol::LParen) ==> fields(b, t, i, v) == fields(
            b,
            t,
            i + 2,
            ValueModel::Property { target: Box::new(v), key },
        ),
        !at(t, i, Symbol::Dot) ==> reads(fields(b, t, i, v), v, i),
        at(t, i, Symbol::LBracket) && reads(expression(b, t, i + 1), index, j) && at(t, j, Symbol::RBracket) && i < j
            ==> indices(b, t, i, v) == indices(
            b,
            t,
            j + 1,
            ValueModel::Index { target: Box::new(v), index: Box::new(index) },
        ),
        !at(t, i, Symbol::LBracket) ==> reads(indices(b, t, i, v), v, i),
{
}

// Statements.
/// `var.name = e` assigns; `+=`, `-=`, `*=` and `/=` add, subtract, multiply and divide.
pub proof fn assignments_are_read_by_their_mark(
    b: nat,
    t: Seq<ScriptTokenModel>,
    i: int,
    name: Seq<char>,
    target: TargetModel,
    l: int,
    v: ValueModel,
    n: int,
)
    requires
        at(t, i, Symbol::Var),
        at(t, i + 1, Symbol::Dot),
        names(t, i + 2, name),
        reads(target_suffixes(b, t, i + 3, TargetModel::Var(name)), target, l),
        reads(expression(b, t, l + 1), v, n),
    ensures
        at(t, l, Symbol::Assign) ==> reads(
            statement(b, t, i),
            StatementModel::Assign { target, op: None, value: Box::new(v) },
            n,
        ),
        at(t, l, Symbol::PlusAssign) ==> reads(
            statement(b, t, i),
            StatementModel::Assign { target, op: Some(BinaryOperator::Add), value: Box::new(v) },
            n,
        ),
        at(t, l, Symbol::MinusAssign) ==> reads(
            statement(b, t, i),
            StatementModel::Assign { target, op: Some(BinaryOperator::Subtract), value: Box::new(v) },
            n,
        ),
        at(t, l, Symbol::StarAssign) ==> reads(
            statement(b, t, i),
            StatementModel::Assign { target, op: Some(BinaryOperator::Multiply), value: Box::new(v) },
            n,
        ),
        at(t, l, Symbol::SlashAssign) ==> reads(
            statement(b, t, i),
            StatementModel::Assign { target, op: Some(BinaryOperator::Divide), value: Box::new(v) },
            n,
        ),
{
}

/// The operator that a compound assignment is written with: the mark without its `=`.
pub open spec fn without_equals(m: Symbol) -> Option<Symbol> {
    match m {
        Symbol::PlusAssign => Some(Symbol::Plus),
        Symbol::MinusAssign => Some(Symbol::Minus),
        Symbol::StarAssign => Some(Symbol::Asterisk),
        Symbol::SlashAssign => Some(Symbol::Slash),
        _ => None,
    }
}

/// `var.x OP= e` is read with the operator that `var.x OP e` is read with.
pub proof fn compound_assignment_has_its_operator(
    b: nat,
    t: Seq<ScriptTokenModel>,
    i: int,
    name: Seq<char>,
    m: Symbol,
    level: int,
    v: ValueModel,
    n: int,
)
    requires
        at(t, i, Symbol::Var),
        at(t, i + 1, Symbol::Dot),
        names(t, i + 2, name),
        at(t, i + 3, m),
        without_equals(m) is Some,
        operator(level, without_equals(m)->0) is Some,
        reads(expression(b, t, i + 4), v, n),
    ensures
        reads(
            statement(b, t, i),
            StatementModel::Assign {
                target: TargetModel::Var(name),
                op: operator(level, without_equals(m)->0),
                value: Box::new(v),
            },
            n,
        ),
{
    marks_are_their_operators(without_equals(m)->0, level);
}

/// A target goes on with `.key` for a property and `[index]` for an element.
pub proof fn targets_go_on_with_suffixes(
    b: nat,
    t: Seq<ScriptTokenModel>,
    i: int,
    target: TargetModel,
    key: Seq<char>,
    index: ValueModel,
    j: int,
)
    ensures
        at(t, i, Symbol::Dot) && names(t, i + 1, key) ==> target_suffixes(b, t, i, target) == target_suffixes(
            b,
            t,
            i + 2,
            TargetModel::Property { target: Box::new(target), key },
        ),
        at(t, i, Symbol::LBracket) && reads(expression(b, t, i + 1), index, j) && i < j && at(t, j, Symbol::RBracket)
            ==> target_suffixes(b, t, i, target) == target_suffixes(
            b,
            t,
            j + 1,
            TargetModel::Index { target: Box::new(target), index: Box::new(index) },
        ),
        !at(t, i, Symbol::Dot) && !at(t, i, Symbol::LBracket) ==> reads(target_suffixes(b, t, i, target), target, i),
{
}

/// The name of the type that a mark or word stands for.
pub open spec fn type_named(t: ScriptTokenModel) -> Option<Seq<char>> {
    match t {
        ScriptTokenModel::Symbol(Symbol::StringType) => Some("string"@),
        ScriptTokenModel::Symbol(Symbol::NumberType) => Some("number"@),
        ScriptTokenModel::Symbol(Symbol::LogicType) => Some("logic"@),
        ScriptTokenModel::Symbol(Symbol::Null) => Some("null"@),
        ScriptTokenModel::Symbol(Symbol::Function) => Some("function"@),
        ScriptTokenModel::Symbol(Symbol::ArrayType) => Some("array"@),
        ScriptTokenModel::Symbol(Symbol::ObjectType) => Some("object"@),
        ScriptTokenModel::Identifier(name) => if name == "file"@ || name == "db"@ || name == "window"@ || name
            == "button"@ {
            Some(name)
        } else {
            None
        },
        _ => None,
    }
}

/// `var local name type = value` declares a variable of its file, `var global` one that is
/// exported too, with the type that it names.
pub proof fn declarations_are_read_by_scope(
    b: nat,
    t: Seq<ScriptTokenModel>,
    i: int,
    name: Seq<char>,
    declared: Seq<char>,
    value: ValueModel,
    n: int,
)
    requires
        0 <= i + 3 < t.len(),
        at(t, i, Symbol::Var),
        names(t, i + 2, name),
        type_named(t[i + 3]) == Some(declared),
        at(t, i + 4, Symbol::Assign),
        reads(initial_value(b, t, i + 5), value, n),
    ensures
        at(t, i + 1, Symbol::Local) ==> reads(
            statement(b, t, i),
            StatementModel::VariableDecl { name, declared, value },
            n,
        ),
        at(t, i + 1, Symbol::Global) ==> reads(
            statement(b, t, i),
            StatementModel::GlobalDecl { name, declared, value },
            n,
        ),
{
}

/// `(a, b = e) { ... }` is a function with these parameters, defaults and body, where a
/// value is declared; what is no such thing there is an expression.
pub proof fn functions_are_read_where_declared(
    b: nat,
    t: Seq<ScriptTokenModel>,
    i: int,
    params: Seq<Seq<char>>,
    defaults: Seq<(Seq<char>, ValueModel)>,
    j: int,
    s: Seq<StatementModel>,
    k: int,
)
    ensures
        reads(function_header(b, t, i), (params, defaults), j) && i < j <= t.len() && reads(body(b, t, j), s, k) ==> reads(
            initial_value(b, t, i),
            ValueModel::Function { params, defaults, body: s },
            k,
        ),
        function_header(b, t, i) is Err ==> initial_value(b, t, i) == expression(b, t, i),
        at(t, i, Symbol::LParen) && at(t, i + 1, Symbol::RParen) && at(t, i + 2, Symbol::LBrace) ==> reads(
            function_header(b, t, i),
            (seq![], seq![]),
            i + 3,
        ),
        at(t, i, Symbol::LParen) && !at(t, i + 1, Symbol::RParen) && reads(
            parameters_from(b, t, i + 1, seq![], seq![]),
            (params, defaults),
            j,
        ) && at(t, j, Symbol::RParen) && at(t, j + 1, Symbol::LBrace) ==> reads(
            function_header(b, t, i),
            (params, defaults),
            j + 2,
        ),
{
}

/// Parameters are read in order; one with `= e` has `e` for its default, and none without
/// one may follow.
pub proof fn parameters_are_read_in_order(
    b: nat,
    t: Seq<ScriptTokenModel>,
    i: int,
    params: Seq<Seq<char>>,
    defaults: Seq<(Seq<char>, ValueModel)>,
    name: Seq<char>,
    v: ValueModel,
    j: int,
)
    requires
        names(t, i, name),
    ensures
        at(t, i + 1, Symbol::Comma) && defaults.len() == 0 ==> parameters_from(b, t, i, params, defaults)
            == parameters_from(b, t, i + 2, params.push(name), defaults),
        !at(t, i + 1, Symbol::Comma) && !at(t, i + 1, Symbol::Assign) && defaults.len() == 0 ==> reads(
            parameters_from(b, t, i, params, defaults),
            (params.push(name), defaults),
            i + 1,
        ),
        !at(t, i + 1, Symbol::Assign) && defaults.len() > 0 ==> parameters_from(b, t, i, params, defaults) is Err,
        at(t, i + 1, Symbol::Assign) && reads(expression(b, t, i + 2), v, j) && i + 1 < j <= t.len() && at(
            t,
            j,
            Symbol::Comma,
        ) ==> parameters_from(b, t, i, params, defaults) == parameters_from(
            b,
            t,
            j + 1,
            params.push(name),
            put(defaults, name, v),
        ),
        at(t, i + 1, Symbol::Assign) && reads(expression(b, t, i + 2), v, j) && i + 1 < j <= t.len() && !at(
            t,
            j,
            Symbol::Comma,
        ) ==> reads(parameters_from(b, t, i, params, defaults), (params.push(name), put(defaults, name, v)), j),
{
}

/// A block has its statements in the order in which they stand.
pub proof fn blocks_are_read_in_order(
    b: nat,
    t: Seq<ScriptTokenModel>,
    i: int,
    done: Seq<StatementModel>,
    s: StatementModel,
    j: int,
    all: Seq<StatementModel>,
)
    ensures
        !at(t, i, Symbol::RBrace) && !at(t, i, Symbol::Eof) && reads(statement(b, t, i), s, j) && i < j <= t.len()
            ==> statements(b, t, i, done) == statements(b, t, j, done.push(s)),
        at(t, i, Symbol::RBrace) ==> reads(statements(b, t, i, done), done, i),
        reads(statements(b, t, i, seq![]), all, j) && at(t, j, Symbol::RBrace) ==> reads(body(b, t, i), all, j + 1),
        at(t, i, Symbol::LBrace) ==> braced(b, t, i) == body(b, t, i + 1),
        !at(t, i, Symbol::Eof) && reads(statement(b, t, i), s, j) && i < j <= t.len() ==> top_level(b, t, i, done)
            == top_level(b, t, j, done.push(s)),
        at(t, i, Symbol::Eof) ==> top_level(b, t, i, done) == Ok::<_, ParseErrorModel>(done),
{
}

/// `if`, `elseif` and `else` are read with their conditions and blocks; `while` with its
/// condition and block.
pub proof fn branches_and_loops_are_read(
    b: nat,
    t: Seq<ScriptTokenModel>,
    i: int,
    condition: ValueModel,
    then_branch: Seq<StatementModel>,
    j: int,
    else_if_branches: Seq<(ValueModel, Seq<StatementModel>)>,
    k: int,
    last: Seq<StatementModel>,
    l: int,
)
    requires
        reads(guarded(b, t, i + 1), (condition, then_branch), j),
        i + 1 < j <= t.len(),
    ensures
        at(t, i, Symbol::While) ==> reads(statement(b, t, i), StatementModel::While { condition, body: then_branch }, j),
        at(t, i, Symbol::If) && reads(else_ifs(b, t, j, seq![]), else_if_branches, k) && j <= k <= t.len() && !at(
            t,
            k,
            Symbol::Else,
        ) ==> reads(
            statement(b, t, i),
            StatementModel::If { condition, then_branch, else_if_branches, else_branch: None },
            k,
        ),
        at(t, i, Symbol::If) && reads(else_ifs(b, t, j, seq![]), else_if_branches, k) && j <= k <= t.len() && at(
            t,
            k,
            Symbol::Else,
        ) && reads(braced(b, t, k + 1), last, l) ==> reads(
            statement(b, t, i),
            StatementModel::If { condition, then_branch, else_if_branches, else_branch: Some(last) },
            l,
        ),
        at(t, i, Symbol::ElseIf) ==> else_ifs(b, t, i, else_if_branches) == else_ifs(
            b,
            t,
            j,
            else_if_branches.push((condition, then_branch)),
        ),
        !at(t, i, Symbol::ElseIf) ==> reads(else_ifs(b, t, i, else_if_branches), else_if_branches, i),
{
}

/// A condition stands in parentheses, and its block behind it.
pub proof fn guards_are_read(
    b: nat,
    t: Seq<ScriptTokenModel>,
    i: int,
    v: ValueModel,
    j: int,
    s: Seq<StatementModel>,
    k: int,
)
    requires
        at(t, i, Symbol::LParen),
        reads(expression(b, t, i + 1), v, j),
        at(t, j, Symbol::RParen),
        i < j,
        reads(braced(b, t, j + 1), s, k),
    ensures
        reads(guarded(b, t, i), (v, s), k),
{
}

/// `for (name in e) { ... }` runs over `e` with `name`.
pub proof fn for_is_read(
    b: nat,
    t: Seq<ScriptTokenModel>,
    i: int,
    var: Seq<char>,
    iterable: ValueModel,
    j: int,
    s: Seq<StatementModel>,
    k: int,
)
    requires
        at(t, i, Symbol::For),
        at(t, i + 1, Symbol::LParen),
        names(t, i + 2, var),
        at(t, i + 3, Symbol::In),
        reads(expression(b, t, i + 4), iterable, j),
        at(t, j, Symbol::RParen),
        i < j,
        reads(braced(b, t, j + 1), s, k),
    ensures
        reads(statement(b, t, i), StatementModel::ForIn { var, iterable, body: s }, k),
{
}

/// `return(e)`, `throw(Type, e)`, `break` and `continue`.
pub proof fn jumps_are_read(b: nat, t: Seq<ScriptTokenModel>, i: int, name: Seq<char>, v: ValueModel, j: int)
    ensures
        at(t, i, Symbol::Break) ==> reads(statement(b, t, i), StatementModel::Break, i + 1),
        at(t, i, Symbol::Continue) ==> reads(statement(b, t, i), StatementModel::Continue, i + 1),
        at(t, i, Symbol::Return) && reads(in_parens(b, t, i + 1), v, j) ==> reads(
            statement(b, t, i),
            StatementModel::Return { value: Box::new(v) },
            j,
        ),
        at(t, i, Symbol::Throw) && at(t, i + 1, Symbol::LParen) && names(t, i + 2, name) && at(t, i + 3, Symbol::Comma)
            && reads(expression(b, t, i + 4), v, j) && at(t, j, Symbol::RParen) ==> reads(
            statement(b, t, i),
            StatementModel::Throw { error_type: name, message: Box::new(v) },
            j + 1,
        ),
{
}

/// A `try` has its statements and its handlers, each in their order.
pub proof fn try_is_read(
    b: nat,
    t: Seq<ScriptTokenModel>,
    i: int,
    done: Seq<StatementModel>,
    catches: Seq<CatchModel>,
    j: int,
)
    ensures
        at(t, i, Symbol::Try) && at(t, i + 1, Symbol::LBrace) && reads(
            try_items(b, t, i + 2, seq![], seq![]),
            (done, catches),
            j,
        ) && at(t, j, Symbol::RBrace) ==> reads(statement(b, t, i), StatementModel::Try { body: done, catches }, j + 1),
        at(t, i, Symbol::RBrace) ==> reads(try_items(b, t, i, done, catches), (done, catches), i),
        at(t, i, Symbol::Catch) ==> statement(b, t, i) is Err,
{
}

/// One more statement of a `try`.
pub proof fn try_goes_on_with_statements(
    b: nat,
    t: Seq<ScriptTokenModel>,
    i: int,
    done: Seq<StatementModel>,
    catches: Seq<CatchModel>,
    s: StatementModel,
    j: int,
)
    requires
        !at(t, i, Symbol::RBrace),
        !at(t, i, Symbol::Eof),
        !at(t, i, Symbol::Catch),
        reads(statement(b, t, i), s, j),
        i < j <= t.len(),
    ensures
        try_items(b, t, i, done, catches) == try_items(b, t, j, done.push(s), catches),
{
}

/// One more handler of a `try`: it takes the errors of the type that it names.
pub proof fn try_goes_on_with_handlers(
    b: nat,
    t: Seq<ScriptTokenModel>,
    i: int,
    done: Seq<StatementModel>,
    catches: Seq<CatchModel>,
    error_type: Seq<char>,
    handler: Seq<StatementModel>,
    j: int,
)
    requires
        at(t, i, Symbol::Catch),
        at(t, i + 1, Symbol::LParen),
        names(t, i + 2, error_type),
        at(t, i + 3, Symbol::RParen),
        reads(braced(b, t, i + 4), handler, j),
        i < j <= t.len(),
    ensures
        try_items(b, t, i, done, catches) == try_items(
            b,
            t,
            j,
            done,
            catches.push(CatchModel { error_type, body: handler }),
        ),
{
    let c = CatchModel { error_type, body: handler };
    assert(reads(catch_clause(b, t, i), c, j));
}

/// A `switch` has its subject, its cases in order and at most one default.
pub proof fn switch_is_read(
    b: nat,
    t: Seq<ScriptTokenModel>,
    i: int,
    scrutinee: ValueModel,
    j: int,
    cases: Seq<(ValueModel, Seq<StatementModel>)>,
    default: Option<Seq<StatementModel>>,
    k: int,
    v: ValueModel,
    s: Seq<StatementModel>,
)
    ensures
        at(t, i, Symbol::Switch) && reads(in_parens(b, t, i + 1), scrutinee, j) && i < j && at(t, j, Symbol::LBrace)
            && reads(switch_items(b, t, j + 1, seq![], None), (cases, default), k) && at(t, k, Symbol::RBrace) ==> reads(
            statement(b, t, i),
            StatementModel::Switch { scrutinee: Box::new(scrutinee), cases, default },
            k + 1,
        ),
        at(t, i, Symbol::RBrace) ==> reads(switch_items(b, t, i, cases, default), (cases, default), i),
        at(t, i, Symbol::Case) && reads(guarded(b, t, i + 1), (v, s), j) && i < j <= t.len() ==> switch_items(
            b,
            t,
            i,
            cases,
            default,
        ) == switch_items(b, t, j, cases.push((v, s)), default),
        at(t, i, Symbol::Default) && default is None && reads(braced(b, t, i + 1), s, j) && i < j <= t.len()
            ==> switch_items(b, t, i, cases, default) == switch_items(b, t, j, cases, Some(s)),
        at(t, i, Symbol::Default) && default is Some ==> switch_items(b, t, i, cases, default) is Err,
{
}

/// `declare(path)` asks for the module and its start, `declare(path, flag)` says whether it
/// starts; `name.Event { ... }` is a handler.
pub proof fn imports_and_events_are_read(
    b: nat,
    t: Seq<ScriptTokenModel>,
    i: int,
    path: Seq<char>,
    run: bool,
    object: Seq<char>,
    name: Seq<char>,
    s: Seq<StatementModel>,
    j: int,
)
    ensures
        at(t, i, Symbol::Declare) && at(t, i + 1, Symbol::LParen) && token(t, i + 2) == Some(
            ScriptTokenModel::StringLiteral(path),
        ) && at(t, i + 3, Symbol::RParen) ==> reads(statement(b, t, i), StatementModel::Declare { path, run: true }, i + 4),
        at(t, i, Symbol::Declare) && at(t, i + 1, Symbol::LParen) && token(t, i + 2) == Some(
            ScriptTokenModel::StringLiteral(path),
        ) && at(t, i + 3, Symbol::Comma) && token(t, i + 4) == Some(ScriptTokenModel::BoolLiteral(run)) && at(
            t,
            i + 5,
            Symbol::RParen,
        ) ==> reads(statement(b, t, i), StatementModel::Declare { path, run }, i + 6),
        names(t, i, object) && at(t, i + 1, Symbol::Dot) && names(t, i + 2, name) && at(t, i + 3, Symbol::LBrace)
            && reads(braced(b, t, i + 3), s, j) ==> reads(
            statement(b, t, i),
            StatementModel::Event { object, name, body: s },
            j,
        ),
{
}

/// The header names type, language and version; the version is the integer part of its
/// number.
pub proof fn header_is_read(t: Seq<ScriptTokenModel>, i: int, kind: Seq<char>, language: Seq<char>, n: u64)
    requires
        at(t, i, Symbol::LBracket),
        names(t, i + 1, kind),
        names(t, i + 2, language),
        names(t, i + 3, "VERSION"@),
        token(t, i + 4) == Some(ScriptTokenModel::NumberLiteral(n)),
        at(t, i + 5, Symbol::RBracket),
        finite(n),
        0 <= truncated(n) <= u64::MAX,
        units(n) >= 0,
    ensures
        header(t, i) matches Ok((h, j)) && h.script_type == kind && h.language == language && h.version == truncated(n)
            && j == i + 6,
{
    crate::number::lemma_whole_size(n);
    if crate::number::negative(n) {
        crate::number::truncation_drops_the_fraction(n);
    }
}

} // verus!
