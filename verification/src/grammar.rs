//! The grammar: what a sequence of tokens stands for.
//!
//! Each function takes the tokens and a place, and gives the tree that starts
//! there with the place behind it, or the complaint. `b` bounds the length of
//! string literals: an interpolated part is shorter than the literal it is in.

use crate::ast::{
    BinaryOperator, CatchModel, HeaderModel, ProgramModel, StatementModel, TargetModel, UnaryOperator, Value,
    ValueModel,
};
use crate::lexer::{char_at, ScanError};
use crate::number::{finite, nan, negative, whole_size};
use crate::scanner::{scan, ScriptToken, ScriptTokenModel, Symbol};
use crate::table::put;
use vstd::prelude::*;

verus! {

/// What was wanted where something else stood.
#[derive(Debug, PartialEq, Eq, Clone, Copy, Structural)]
pub enum Want {
    Identifier,
    Version,
    Number,
    Value,
    TypeName,
    ModulePath,
    RunFlag,
    AssignmentOperator,
    CaseOrDefault,
    Statement,
    Call,
}

/// A complaint that needs no further detail.
#[derive(Debug, PartialEq, Eq, Clone, Copy, Structural)]
pub enum Complaint {
    UnexpectedEnd,
    CatchOutsideTry,
    ModuleDataAsStatement,
    ModuleCallExpected,
    DuplicateDefault,
    UnclosedInterpolation,
    EmptyInterpolation,
    NestedDeclare,
}

/// Why a text is no program.
#[derive(Debug, PartialEq, Clone)]
pub enum ParseError {
    Scan(ScanError),
    Expected { symbol: Symbol, found: Option<ScriptToken> },
    Wanted { what: Want, found: Option<ScriptToken> },
    Plain(Complaint),
    RequiredParameter(String),
    MethodTarget(Value),
    BadInterpolation(String),
}

#[verifier::ext_equal]
pub enum ParseErrorModel {
    Scan(ScanError),
    Expected { symbol: Symbol, found: Option<ScriptTokenModel> },
    Wanted { what: Want, found: Option<ScriptTokenModel> },
    Plain(Complaint),
    RequiredParameter(Seq<char>),
    MethodTarget(ValueModel),
    BadInterpolation(Seq<char>),
}

impl ParseError {
    pub open spec fn view(&self) -> ParseErrorModel {
        match *self {
            ParseError::Scan(e) => ParseErrorModel::Scan(e),
            ParseError::Expected { symbol, found } => ParseErrorModel::Expected {
                symbol,
                found: match found {
                    Some(t) => Some(t@),
                    None => None,
                },
            },
            ParseError::Wanted { what, found } => ParseErrorModel::Wanted {
                what,
                found: match found {
                    Some(t) => Some(t@),
                    None => None,
                },
            },
            ParseError::Plain(c) => ParseErrorModel::Plain(c),
            ParseError::RequiredParameter(s) => ParseErrorModel::RequiredParameter(s@),
            ParseError::MethodTarget(v) => ParseErrorModel::MethodTarget(v@),
            ParseError::BadInterpolation(s) => ParseErrorModel::BadInterpolation(s@),
        }
    }
}

/// The token at `i`.
pub open spec fn token(t: Seq<ScriptTokenModel>, i: int) -> Option<ScriptTokenModel> {
    if 0 <= i < t.len() {
        Some(t[i])
    } else {
        None
    }
}

/// Whether `m` stands at `i`.
pub open spec fn at(t: Seq<ScriptTokenModel>, i: int, m: Symbol) -> bool {
    token(t, i) == Some(ScriptTokenModel::Symbol(m))
}

/// Whether a block ends at `i`, closed or not.
pub open spec fn block_ends(t: Seq<ScriptTokenModel>, i: int) -> bool {
    at(t, i, Symbol::RBrace) || at(t, i, Symbol::Eof)
}

pub open spec fn wanted(t: Seq<ScriptTokenModel>, i: int, what: Want) -> ParseErrorModel {
    ParseErrorModel::Wanted { what, found: token(t, i) }
}

/// The place behind `m`, if it stands at `i`.
pub open spec fn expect(t: Seq<ScriptTokenModel>, i: int, m: Symbol) -> Result<int, ParseErrorModel> {
    if at(t, i, m) {
        Ok(i + 1)
    } else {
        Err(ParseErrorModel::Expected { symbol: m, found: token(t, i) })
    }
}

pub open spec fn identifier(t: Seq<ScriptTokenModel>, i: int) -> Result<(Seq<char>, int), ParseErrorModel> {
    match token(t, i) {
        Some(ScriptTokenModel::Identifier(name)) => Ok((name, i + 1)),
        _ => Err(wanted(t, i, Want::Identifier)),
    }
}

/// The type that the token at `i` names.
pub open spec fn declared_type(t: Seq<ScriptTokenModel>, i: int) -> Result<(Seq<char>, int), ParseErrorModel> {
    match token(t, i) {
        Some(ScriptTokenModel::Symbol(Symbol::StringType)) => Ok(("string"@, i + 1)),
        Some(ScriptTokenModel::Symbol(Symbol::NumberType)) => Ok(("number"@, i + 1)),
        Some(ScriptTokenModel::Symbol(Symbol::LogicType)) => Ok(("logic"@, i + 1)),
        Some(ScriptTokenModel::Symbol(Symbol::Null)) => Ok(("null"@, i + 1)),
        Some(ScriptTokenModel::Symbol(Symbol::Function)) => Ok(("function"@, i + 1)),
        Some(ScriptTokenModel::Symbol(Symbol::ArrayType)) => Ok(("array"@, i + 1)),
        Some(ScriptTokenModel::Symbol(Symbol::ObjectType)) => Ok(("object"@, i + 1)),
        Some(ScriptTokenModel::Identifier(name)) => if name == "file"@ || name == "db"@ || name == "window"@ || name
            == "button"@ {
            Ok((name, i + 1))
        } else {
            Err(wanted(t, i, Want::TypeName))
        },
        _ => Err(wanted(t, i, Want::TypeName)),
    }
}

/// The binary operators, from the loosest level to the tightest. Unary
/// operators bind between levels 4 and 5.
pub open spec fn operator(level: int, m: Symbol) -> Option<BinaryOperator> {
    if level == 0 {
        if m == Symbol::Or {
            Some(BinaryOperator::Or)
        } else {
            None
        }
    } else if level == 1 {
        if m == Symbol::And {
            Some(BinaryOperator::And)
        } else {
            None
        }
    } else if level == 2 {
        if m == Symbol::BitOr {
            Some(BinaryOperator::BitOr)
        } else {
            None
        }
    } else if level == 3 {
        if m == Symbol::BitXor {
            Some(BinaryOperator::BitXor)
        } else {
            None
        }
    } else if level == 4 {
        if m == Symbol::BitAnd {
            Some(BinaryOperator::BitAnd)
        } else {
            None
        }
    } else if level == 5 {
        match m {
            Symbol::Equal => Some(BinaryOperator::Equal),
            Symbol::StrictEqual => Some(BinaryOperator::StrictEqual),
            Symbol::NotEqual => Some(BinaryOperator::NotEqual),
            Symbol::StrictNotEqual => Some(BinaryOperator::StrictNotEqual),
            Symbol::GreaterThan => Some(BinaryOperator::Greater),
            Symbol::LessThan => Some(BinaryOperator::Less),
            Symbol::GreaterEqual => Some(BinaryOperator::GreaterEqual),
            Symbol::LessEqual => Some(BinaryOperator::LessEqual),
            _ => None,
        }
    } else if level == 6 {
        match m {
            Symbol::Shl => Some(BinaryOperator::Shl),
            Symbol::Shr => Some(BinaryOperator::Shr),
            _ => None,
        }
    } else if level == 7 {
        if m == Symbol::DotDot {
            Some(BinaryOperator::Range)
        } else {
            None
        }
    } else if level == 8 {
        match m {
            Symbol::Plus => Some(BinaryOperator::Add),
            Symbol::Minus => Some(BinaryOperator::Subtract),
            _ => None,
        }
    } else if level == 9 {
        match m {
            Symbol::Asterisk => Some(BinaryOperator::Multiply),
            Symbol::Slash => Some(BinaryOperator::Divide),
            _ => None,
        }
    } else {
        None
    }
}

/// The binary operator of `level` that stands at `i`.
pub open spec fn operator_at(t: Seq<ScriptTokenModel>, i: int, level: int) -> Option<BinaryOperator> {
    match token(t, i) {
        Some(ScriptTokenModel::Symbol(m)) => operator(level, m),
        _ => None,
    }
}

/// The compound operator that the assignment mark at `i` stands for.
pub open spec fn assignment(t: Seq<ScriptTokenModel>, i: int) -> Result<(Option<BinaryOperator>, int), ParseErrorModel> {
    match token(t, i) {
        Some(ScriptTokenModel::Symbol(Symbol::Assign)) => Ok((None, i + 1)),
        Some(ScriptTokenModel::Symbol(Symbol::PlusAssign)) => Ok((Some(BinaryOperator::Add), i + 1)),
        Some(ScriptTokenModel::Symbol(Symbol::MinusAssign)) => Ok((Some(BinaryOperator::Subtract), i + 1)),
        Some(ScriptTokenModel::Symbol(Symbol::StarAssign)) => Ok((Some(BinaryOperator::Multiply), i + 1)),
        Some(ScriptTokenModel::Symbol(Symbol::SlashAssign)) => Ok((Some(BinaryOperator::Divide), i + 1)),
        _ => Err(wanted(t, i, Want::AssignmentOperator)),
    }
}

pub open spec fn binary(left: ValueModel, op: BinaryOperator, right: ValueModel) -> ValueModel {
    ValueModel::Binary { left: Box::new(left), op, right: Box::new(right) }
}

/// Whether `c` is white space.
pub open spec fn white(c: char) -> bool {
    ||| '\u{9}' <= c && c <= '\u{d}'
    ||| c == ' ' || c == '\u{85}' || c == '\u{a0}' || c == '\u{1680}'
    ||| '\u{2000}' <= c && c <= '\u{200a}'
    ||| c == '\u{2028}' || c == '\u{2029}' || c == '\u{202f}' || c == '\u{205f}' || c == '\u{3000}'
}

/// Whether a text is nothing but white space.
pub open spec fn all_white(s: Seq<char>) -> bool {
    forall|i: int| 0 <= i < s.len() ==> white(#[trigger] s[i])
}

/// The place behind the brace that closes `depth` open ones.
pub open spec fn brace_end(s: Seq<char>, i: int, depth: int) -> Option<int>
    decreases s.len() - i,
{
    if depth <= 0 {
        Some(i)
    } else if i < 0 || i >= s.len() {
        None
    } else if s[i] == '{' {
        brace_end(s, i + 1, depth + 1)
    } else if s[i] == '}' {
        brace_end(s, i + 1, depth - 1)
    } else {
        brace_end(s, i + 1, depth)
    }
}

/// A literal stretch of a string, unless it is empty.
pub open spec fn stretch(lit: Seq<char>) -> Seq<ValueModel> {
    if lit.len() == 0 {
        seq![]
    } else {
        seq![ValueModel::String(lit)]
    }
}

/// The parts of an interpolated string from `i` on; `lit` is the literal
/// stretch that is open there.
pub open spec fn parts(raw: Seq<char>, i: int, lit: Seq<char>) -> Result<Seq<ValueModel>, ParseErrorModel>
    decreases 2 * raw.len(), raw.len() - i, 0int,
{
    if i < 0 || i >= raw.len() {
        Ok(stretch(lit))
    } else if raw[i] == '$' && char_at(raw, i + 1) == '{' {
        match brace_end(raw, i + 2, 1) {
            None => Err(ParseErrorModel::Plain(Complaint::UnclosedInterpolation)),
            Some(j) => if i + 3 <= j <= raw.len() {
                let inner = raw.subrange(i + 2, j - 1);
                if all_white(inner) {
                    Err(ParseErrorModel::Plain(Complaint::EmptyInterpolation))
                } else {
                    match scan(inner) {
                        Err(e) => Err(ParseErrorModel::Scan(e)),
                        Ok(t) => match expression(inner.len(), t, 0) {
                            Err(e) => Err(e),
                            Ok((v, k)) => if at(t, k, Symbol::Eof) {
                                match parts(raw, j, seq![]) {
                                    Err(e) => Err(e),
                                    Ok(more) => Ok(stretch(lit) + seq![v] + more),
                                }
                            } else {
                                Err(ParseErrorModel::BadInterpolation(inner))
                            },
                        },
                    }
                }
            } else {
                arbitrary()
            },
        }
    } else {
        parts(raw, i + 1, lit.push(raw[i]))
    }
}

/// The sum of the first `n` parts, from the left.
pub open spec fn sum(ps: Seq<ValueModel>, n: int) -> ValueModel
    decreases n,
{
    if n <= 1 {
        ps[0]
    } else {
        binary(sum(ps, n - 1), BinaryOperator::Add, ps[n - 1])
    }
}

/// What a string literal stands for: its parts, added up.
pub open spec fn interpolated(raw: Seq<char>) -> Result<ValueModel, ParseErrorModel>
    decreases 2 * raw.len(), raw.len() + 1, 0int,
{
    match parts(raw, 0, seq![]) {
        Err(e) => Err(e),
        Ok(ps) => if ps.len() == 0 {
            Ok(ValueModel::String(seq![]))
        } else {
            Ok(sum(ps, ps.len() as int))
        },
    }
}

pub open spec fn expression(b: nat, t: Seq<ScriptTokenModel>, i: int) -> Result<(ValueModel, int), ParseErrorModel>
    decreases 2 * b + 1, t.len() - i, 80int,
{
    chain(b, t, i, 0)
}

/// An operand of `level` and what is chained to it.
pub open spec fn chain(b: nat, t: Seq<ScriptTokenModel>, i: int, level: int) -> Result<
    (ValueModel, int),
    ParseErrorModel,
>
    decreases 2 * b + 1, t.len() - i, 79 - 4 * level,
{
    if level < 0 || level > 9 {
        arbitrary()
    } else {
        match operand(b, t, i, level) {
            Err(e) => Err(e),
            Ok((left, j)) => if i < j <= t.len() {
                links(b, t, j, level, left)
            } else {
                arbitrary()
            },
        }
    }
}

/// What binds tighter than `level`.
pub open spec fn operand(b: nat, t: Seq<ScriptTokenModel>, i: int, level: int) -> Result<
    (ValueModel, int),
    ParseErrorModel,
>
    decreases 2 * b + 1, t.len() - i, 78 - 4 * level,
{
    if level < 0 || level > 9 {
        arbitrary()
    } else if level == 4 {
        unary(b, t, i)
    } else if level == 9 {
        primary(b, t, i)
    } else {
        chain(b, t, i, level + 1)
    }
}

/// The operators of `level` that follow `left`, with their right operands.
pub open spec fn links(b: nat, t: Seq<ScriptTokenModel>, i: int, level: int, left: ValueModel) -> Result<
    (ValueModel, int),
    ParseErrorModel,
>
    decreases 2 * b + 1, t.len() - i, 0int,
{
    match operator_at(t, i, level) {
        None => Ok((left, i)),
        Some(op) => match operand(b, t, i + 1, level) {
            Err(e) => Err(e),
            Ok((right, j)) => if i + 1 < j <= t.len() {
                links(b, t, j, level, binary(left, op, right))
            } else {
                arbitrary()
            },
        },
    }
}

/// The unary operator that stands at `i`.
pub open spec fn unary_at(t: Seq<ScriptTokenModel>, i: int) -> Option<UnaryOperator> {
    match token(t, i) {
        Some(ScriptTokenModel::Symbol(Symbol::Not)) => Some(UnaryOperator::Not),
        Some(ScriptTokenModel::Symbol(Symbol::BitNot)) => Some(UnaryOperator::BitNot),
        _ => None,
    }
}

pub open spec fn unary(b: nat, t: Seq<ScriptTokenModel>, i: int) -> Result<(ValueModel, int), ParseErrorModel>
    decreases 2 * b + 1, t.len() - i, 61int,
{
    match unary_at(t, i) {
        Some(op) => match unary(b, t, i + 1) {
            Err(e) => Err(e),
            Ok((v, j)) => Ok((ValueModel::Unary { op, value: Box::new(v) }, j)),
        },
        None => chain(b, t, i, 5),
    }
}

/// Whether a call or a module read that takes no suffix has been read, or a
/// value that does.
pub enum Base {
    Closed(ValueModel),
    Open(ValueModel),
}

/// A value without its suffixes.
pub open spec fn base(b: nat, t: Seq<ScriptTokenModel>, i: int) -> Result<(Base, int), ParseErrorModel>
    decreases 2 * b + 1, t.len() - i, 10int,
{
    match token(t, i) {
        Some(ScriptTokenModel::StringLiteral(raw)) => if raw.len() <= b {
            match interpolated(raw) {
                Err(e) => Err(e),
                Ok(v) => Ok((Base::Open(v), i + 1)),
            }
        } else {
            arbitrary()
        },
        Some(ScriptTokenModel::NumberLiteral(n)) => Ok((Base::Open(ValueModel::Number(n)), i + 1)),
        Some(ScriptTokenModel::BoolLiteral(v)) => Ok((Base::Open(ValueModel::Logic(v)), i + 1)),
        Some(ScriptTokenModel::Symbol(Symbol::Null)) => Ok((Base::Open(ValueModel::Null), i + 1)),
        Some(ScriptTokenModel::Symbol(Symbol::Var)) => match expect(t, i + 1, Symbol::Dot) {
            Err(e) => Err(e),
            Ok(j) => match identifier(t, j) {
                Err(e) => Err(e),
                Ok((name, k)) => Ok((Base::Open(ValueModel::Variable("var."@ + name)), k)),
            },
        },
        Some(ScriptTokenModel::Identifier(name)) => named(b, t, i + 1, name),
        Some(ScriptTokenModel::Symbol(Symbol::LBracket)) => match array(b, t, i) {
            Err(e) => Err(e),
            Ok((v, j)) => Ok((Base::Open(v), j)),
        },
        Some(ScriptTokenModel::Symbol(Symbol::LBrace)) => match object(b, t, i) {
            Err(e) => Err(e),
            Ok((v, j)) => Ok((Base::Open(v), j)),
        },
        Some(ScriptTokenModel::Symbol(Symbol::LParen)) => match expression(b, t, i + 1) {
            Err(e) => Err(e),
            Ok((v, j)) => match expect(t, j, Symbol::RParen) {
                Err(e) => Err(e),
                Ok(k) => Ok((Base::Open(v), k)),
            },
        },
        _ => Err(wanted(t, i, Want::Value)),
    }
}

/// What the identifier `name`, which ends at `i`, starts.
pub open spec fn named(b: nat, t: Seq<ScriptTokenModel>, i: int, name: Seq<char>) -> Result<(Base, int), ParseErrorModel>
    decreases 2 * b + 1, t.len() - i, 9int,
{
    if at(t, i, Symbol::Colon) {
        if at(t, i + 1, Symbol::Var) {
            match expect(t, i + 2, Symbol::Dot) {
                Err(e) => Err(e),
                Ok(j) => match identifier(t, j) {
                    Err(e) => Err(e),
                    Ok((field, k)) => Ok((Base::Open(ValueModel::ModuleVar { alias: name, name: field }), k)),
                },
            }
        } else {
            match identifier(t, i + 1) {
                Err(e) => Err(e),
                Ok((function, j)) => if at(t, j, Symbol::LParen) {
                    match arguments(b, t, j) {
                        Err(e) => Err(e),
                        Ok((args, k)) => Ok(
                            (
                                Base::Closed(
                                    ValueModel::FunctionCall { object: None, module: Some(name), function, args },
                                ),
                                k,
                            ),
                        ),
                    }
                } else {
                    Err(ParseErrorModel::Plain(Complaint::ModuleCallExpected))
                },
            }
        }
    } else if at(t, i, Symbol::Dot) {
        match identifier(t, i + 1) {
            Err(e) => Err(e),
            Ok((field, j)) => if at(t, j, Symbol::LParen) {
                match arguments(b, t, j) {
                    Err(e) => Err(e),
                    Ok((args, k)) => Ok(
                        (
                            Base::Closed(
                                ValueModel::FunctionCall { object: Some(name), module: None, function: field, args },
                            ),
                            k,
                        ),
                    ),
                }
            } else {
                Ok((Base::Open(ValueModel::Variable(scoped(name, field))), j))
            },
        }
    } else if at(t, i, Symbol::LParen) {
        match arguments(b, t, i) {
            Err(e) => Err(e),
            Ok((args, k)) => Ok(
                (Base::Open(ValueModel::FunctionCall { object: None, module: None, function: name, args }), k),
            ),
        }
    } else {
        Ok((Base::Open(ValueModel::Variable(name)), i))
    }
}

/// The variable that `name.field` reads where no call follows.
pub open spec fn scoped(name: Seq<char>, field: Seq<char>) -> Seq<char> {
    if name == "arg"@ {
        "arg."@ + field
    } else if name == "var"@ {
        "var."@ + field
    } else {
        name + "."@
    }
}

/// A value with its suffixes.
pub open spec fn primary(b: nat, t: Seq<ScriptTokenModel>, i: int) -> Result<(ValueModel, int), ParseErrorModel>
    decreases 2 * b + 1, t.len() - i, 11int,
{
    match base(b, t, i) {
        Err(e) => Err(e),
        Ok((Base::Closed(v), j)) => Ok((v, j)),
        Ok((Base::Open(v), j)) => if i < j <= t.len() {
            match fields(b, t, j, v) {
                Err(e) => Err(e),
                Ok((w, k)) => if j <= k <= t.len() {
                    indices(b, t, k, w)
                } else {
                    arbitrary()
                },
            }
        } else {
            arbitrary()
        },
    }
}

/// The `.key` suffixes of `v`. A call on a variable ends them.
pub open spec fn fields(b: nat, t: Seq<ScriptTokenModel>, i: int, v: ValueModel) -> Result<
    (ValueModel, int),
    ParseErrorModel,
>
    decreases 2 * b + 1, t.len() - i, 5int,
{
    if !at(t, i, Symbol::Dot) {
        Ok((v, i))
    } else {
        match identifier(t, i + 1) {
            Err(e) => Err(e),
            Ok((key, j)) => if at(t, j, Symbol::LParen) {
                match arguments(b, t, j) {
                    Err(e) => Err(e),
                    Ok((args, k)) => match v {
                        ValueModel::Variable(name) => Ok(
                            (ValueModel::FunctionCall { object: Some(name), module: None, function: key, args }, k),
                        ),
                        _ => Err(ParseErrorModel::MethodTarget(v)),
                    },
                }
            } else {
                fields(b, t, j, ValueModel::Property { target: Box::new(v), key })
            },
        }
    }
}

/// The `[index]` suffixes of `v`.
pub open spec fn indices(b: nat, t: Seq<ScriptTokenModel>, i: int, v: ValueModel) -> Result<
    (ValueModel, int),
    ParseErrorModel,
>
    decreases 2 * b + 1, t.len() - i, 5int,
{
    if !at(t, i, Symbol::LBracket) {
        Ok((v, i))
    } else {
        match expression(b, t, i + 1) {
            Err(e) => Err(e),
            Ok((index, j)) => match expect(t, j, Symbol::RBracket) {
                Err(e) => Err(e),
                Ok(k) => if i < k <= t.len() {
                    indices(b, t, k, ValueModel::Index { target: Box::new(v), index: Box::new(index) })
                } else {
                    arbitrary()
                },
            },
        }
    }
}

/// One value or more, with commas between them, behind those of `items`.
pub open spec fn list(b: nat, t: Seq<ScriptTokenModel>, i: int, items: Seq<ValueModel>) -> Result<
    (Seq<ValueModel>, int),
    ParseErrorModel,
>
    decreases 2 * b + 1, t.len() - i, 81int,
{
    match expression(b, t, i) {
        Err(e) => Err(e),
        Ok((v, j)) => if i < j <= t.len() {
            if at(t, j, Symbol::Comma) {
                list(b, t, j + 1, items.push(v))
            } else {
                Ok((items.push(v), j))
            }
        } else {
            arbitrary()
        },
    }
}

/// A list, possibly empty, between the marks `open` and `close`.
pub open spec fn enclosed(b: nat, t: Seq<ScriptTokenModel>, i: int, open: Symbol, close: Symbol) -> Result<
    (Seq<ValueModel>, int),
    ParseErrorModel,
>
    decreases 2 * b + 1, t.len() - i, 6int,
{
    match expect(t, i, open) {
        Err(e) => Err(e),
        Ok(j) => if at(t, j, close) {
            Ok((seq![], j + 1))
        } else {
            match list(b, t, j, seq![]) {
                Err(e) => Err(e),
                Ok((items, k)) => match expect(t, k, close) {
                    Err(e) => Err(e),
                    Ok(l) => Ok((items, l)),
                },
            }
        },
    }
}

pub open spec fn arguments(b: nat, t: Seq<ScriptTokenModel>, i: int) -> Result<
    (Seq<ValueModel>, int),
    ParseErrorModel,
>
    decreases 2 * b + 1, t.len() - i, 7int,
{
    enclosed(b, t, i, Symbol::LParen, Symbol::RParen)
}

pub open spec fn array(b: nat, t: Seq<ScriptTokenModel>, i: int) -> Result<(ValueModel, int), ParseErrorModel>
    decreases 2 * b + 1, t.len() - i, 7int,
{
    match enclosed(b, t, i, Symbol::LBracket, Symbol::RBracket) {
        Err(e) => Err(e),
        Ok((items, j)) => Ok((ValueModel::Array(items), j)),
    }
}

/// The key of an object entry: a string or an identifier.
pub open spec fn object_key(t: Seq<ScriptTokenModel>, i: int) -> Result<(Seq<char>, int), ParseErrorModel> {
    match token(t, i) {
        Some(ScriptTokenModel::StringLiteral(key)) => Ok((key, i + 1)),
        _ => identifier(t, i),
    }
}

/// One entry or more, put into `o` up to the closing brace; a comma between
/// two entries may be left out.
pub open spec fn object_entries(
    b: nat,
    t: Seq<ScriptTokenModel>,
    i: int,
    o: Seq<(Seq<char>, ValueModel)>,
) -> Result<(Seq<(Seq<char>, ValueModel)>, int), ParseErrorModel>
    decreases 2 * b + 1, t.len() - i, 5int,
{
    match object_key(t, i) {
        Err(e) => Err(e),
        Ok((key, j)) => match expect(t, j, Symbol::Colon) {
            Err(e) => Err(e),
            Ok(k) => match expression(b, t, k) {
                Err(e) => Err(e),
                Ok((v, l)) => if k < l <= t.len() {
                    if at(t, l, Symbol::Comma) {
                        object_entries(b, t, l + 1, put(o, key, v))
                    } else if at(t, l, Symbol::RBrace) {
                        Ok((put(o, key, v), l))
                    } else {
                        object_entries(b, t, l, put(o, key, v))
                    }
                } else {
                    arbitrary()
                },
            },
        },
    }
}

pub open spec fn object(b: nat, t: Seq<ScriptTokenModel>, i: int) -> Result<(ValueModel, int), ParseErrorModel>
    decreases 2 * b + 1, t.len() - i, 6int,
{
    match expect(t, i, Symbol::LBrace) {
        Err(e) => Err(e),
        Ok(j) => if at(t, j, Symbol::RBrace) {
            Ok((ValueModel::Object(seq![]), j + 1))
        } else {
            match object_entries(b, t, j, seq![]) {
                Err(e) => Err(e),
                Ok((o, k)) => match expect(t, k, Symbol::RBrace) {
                    Err(e) => Err(e),
                    Ok(l) => Ok((ValueModel::Object(o), l)),
                },
            }
        },
    }
}

/// An expression between parentheses.
pub open spec fn in_parens(b: nat, t: Seq<ScriptTokenModel>, i: int) -> Result<(ValueModel, int), ParseErrorModel> {
    match expect(t, i, Symbol::LParen) {
        Err(e) => Err(e),
        Ok(j) => match expression(b, t, j) {
            Err(e) => Err(e),
            Ok((v, k)) => match expect(t, k, Symbol::RParen) {
                Err(e) => Err(e),
                Ok(l) => Ok((v, l)),
            },
        },
    }
}

/// The statements from `i` to the end of the block, behind those of `done`.
pub open spec fn statements(b: nat, t: Seq<ScriptTokenModel>, i: int, done: Seq<StatementModel>) -> Result<
    (Seq<StatementModel>, int),
    ParseErrorModel,
>
    decreases t.len() - i, 30int,
{
    if block_ends(t, i) {
        Ok((done, i))
    } else {
        match statement(b, t, i) {
            Err(e) => Err(e),
            Ok((s, j)) => if i < j <= t.len() {
                statements(b, t, j, done.push(s))
            } else {
                arbitrary()
            },
        }
    }
}

/// The rest of a block whose brace is open, with the brace that closes it.
pub open spec fn body(b: nat, t: Seq<ScriptTokenModel>, i: int) -> Result<(Seq<StatementModel>, int), ParseErrorModel>
    decreases t.len() - i, 31int,
{
    match statements(b, t, i, seq![]) {
        Err(e) => Err(e),
        Ok((done, j)) => match expect(t, j, Symbol::RBrace) {
            Err(e) => Err(e),
            Ok(k) => Ok((done, k)),
        },
    }
}

/// A block with both its braces.
pub open spec fn braced(b: nat, t: Seq<ScriptTokenModel>, i: int) -> Result<(Seq<StatementModel>, int), ParseErrorModel>
    decreases t.len() - i, 10int,
{
    match expect(t, i, Symbol::LBrace) {
        Err(e) => Err(e),
        Ok(j) => body(b, t, j),
    }
}

/// A condition in parentheses and the block behind it.
pub open spec fn guarded(b: nat, t: Seq<ScriptTokenModel>, i: int) -> Result<
    ((ValueModel, Seq<StatementModel>), int),
    ParseErrorModel,
>
    decreases t.len() - i, 11int,
{
    match in_parens(b, t, i) {
        Err(e) => Err(e),
        Ok((v, j)) => if i < j <= t.len() {
            match braced(b, t, j) {
                Err(e) => Err(e),
                Ok((s, k)) => Ok(((v, s), k)),
            }
        } else {
            arbitrary()
        },
    }
}

pub open spec fn statement(b: nat, t: Seq<ScriptTokenModel>, i: int) -> Result<(StatementModel, int), ParseErrorModel>
    decreases t.len() - i, 20int,
{
    match token(t, i) {
        Some(ScriptTokenModel::Symbol(Symbol::Var)) => if at(t, i + 1, Symbol::Local) || at(t, i + 1, Symbol::Global) {
            variable_decl(b, t, i)
        } else {
            assign(b, t, i)
        },
        Some(ScriptTokenModel::Symbol(Symbol::Switch)) => switch_statement(b, t, i),
        Some(ScriptTokenModel::Symbol(Symbol::Return)) => match in_parens(b, t, i + 1) {
            Err(e) => Err(e),
            Ok((v, j)) => Ok((StatementModel::Return { value: Box::new(v) }, j)),
        },
        Some(ScriptTokenModel::Symbol(Symbol::Declare)) => declare(t, i),
        Some(ScriptTokenModel::Symbol(Symbol::If)) => if_statement(b, t, i + 1),
        Some(ScriptTokenModel::Symbol(Symbol::While)) => match guarded(b, t, i + 1) {
            Err(e) => Err(e),
            Ok(((condition, body), j)) => Ok((StatementModel::While { condition, body }, j)),
        },
        Some(ScriptTokenModel::Symbol(Symbol::For)) => for_statement(b, t, i),
        Some(ScriptTokenModel::Symbol(Symbol::Break)) => Ok((StatementModel::Break, i + 1)),
        Some(ScriptTokenModel::Symbol(Symbol::Continue)) => Ok((StatementModel::Continue, i + 1)),
        Some(ScriptTokenModel::Symbol(Symbol::Try)) => match expect(t, i + 1, Symbol::LBrace) {
            Err(e) => Err(e),
            Ok(j) => match try_items(b, t, j, seq![], seq![]) {
                Err(e) => Err(e),
                Ok(((body, catches), k)) => match expect(t, k, Symbol::RBrace) {
                    Err(e) => Err(e),
                    Ok(l) => Ok((StatementModel::Try { body, catches }, l)),
                },
            },
        },
        Some(ScriptTokenModel::Symbol(Symbol::Throw)) => throw_statement(b, t, i),
        Some(ScriptTokenModel::Symbol(Symbol::Catch)) => Err(ParseErrorModel::Plain(Complaint::CatchOutsideTry)),
        Some(ScriptTokenModel::Identifier(name)) => call_or_event(b, t, i + 1, name),
        Some(ScriptTokenModel::Symbol(Symbol::Eof)) => Err(ParseErrorModel::Plain(Complaint::UnexpectedEnd)),
        _ => Err(wanted(t, i, Want::Statement)),
    }
}

/// What the identifier `name`, which ends at `i`, starts as a statement.
pub open spec fn call_or_event(b: nat, t: Seq<ScriptTokenModel>, i: int, name: Seq<char>) -> Result<
    (StatementModel, int),
    ParseErrorModel,
>
    decreases t.len() - i, 12int,
{
    if at(t, i, Symbol::Colon) {
        if at(t, i + 1, Symbol::Var) {
            Err(ParseErrorModel::Plain(Complaint::ModuleDataAsStatement))
        } else {
            match identifier(t, i + 1) {
                Err(e) => Err(e),
                Ok((function, j)) => if at(t, j, Symbol::LParen) {
                    match arguments(b, t, j) {
                        Err(e) => Err(e),
                        Ok((args, k)) => Ok(
                            (StatementModel::FunctionCall { object: None, module: Some(name), function, args }, k),
                        ),
                    }
                } else {
                    Err(ParseErrorModel::Plain(Complaint::ModuleCallExpected))
                },
            }
        }
    } else if at(t, i, Symbol::Dot) {
        match identifier(t, i + 1) {
            Err(e) => Err(e),
            Ok((function, j)) => if at(t, j, Symbol::LBrace) {
                match braced(b, t, j) {
                    Err(e) => Err(e),
                    Ok((body, k)) => Ok((StatementModel::Event { object: name, name: function, body }, k)),
                }
            } else {
                match arguments(b, t, j) {
                    Err(e) => Err(e),
                    Ok((args, k)) => Ok(
                        (StatementModel::FunctionCall { object: Some(name), module: None, function, args }, k),
                    ),
                }
            },
        }
    } else if at(t, i, Symbol::LParen) {
        match arguments(b, t, i) {
            Err(e) => Err(e),
            Ok((args, k)) => Ok(
                (StatementModel::FunctionCall { object: None, module: None, function: name, args }, k),
            ),
        }
    } else {
        Err(wanted(t, i, Want::Call))
    }
}

pub open spec fn for_statement(b: nat, t: Seq<ScriptTokenModel>, i: int) -> Result<(StatementModel, int), ParseErrorModel>
    decreases t.len() - i, 19int,
{
    match expect(t, i + 1, Symbol::LParen) {
        Err(e) => Err(e),
        Ok(j) => match identifier(t, j) {
            Err(e) => Err(e),
            Ok((var, k)) => match expect(t, k, Symbol::In) {
                Err(e) => Err(e),
                Ok(l) => match expression(b, t, l) {
                    Err(e) => Err(e),
                    Ok((iterable, m)) => match expect(t, m, Symbol::RParen) {
                        Err(e) => Err(e),
                        Ok(n) => if i < n <= t.len() {
                            match braced(b, t, n) {
                                Err(e) => Err(e),
                                Ok((body, end)) => Ok((StatementModel::ForIn { var, iterable, body }, end)),
                            }
                        } else {
                            arbitrary()
                        },
                    },
                },
            },
        },
    }
}

pub open spec fn throw_statement(b: nat, t: Seq<ScriptTokenModel>, i: int) -> Result<
    (StatementModel, int),
    ParseErrorModel,
> {
    match expect(t, i + 1, Symbol::LParen) {
        Err(e) => Err(e),
        Ok(j) => match identifier(t, j) {
            Err(e) => Err(e),
            Ok((error_type, k)) => match expect(t, k, Symbol::Comma) {
                Err(e) => Err(e),
                Ok(l) => match expression(b, t, l) {
                    Err(e) => Err(e),
                    Ok((message, m)) => match expect(t, m, Symbol::RParen) {
                        Err(e) => Err(e),
                        Ok(n) => Ok((StatementModel::Throw { error_type, message: Box::new(message) }, n)),
                    },
                },
            },
        },
    }
}

/// An if statement, from behind its keyword on.
pub open spec fn if_statement(b: nat, t: Seq<ScriptTokenModel>, i: int) -> Result<(StatementModel, int), ParseErrorModel>
    decreases t.len() - i, 19int,
{
    match guarded(b, t, i) {
        Err(e) => Err(e),
        Ok(((condition, then_branch), j)) => if i < j <= t.len() {
            match else_ifs(b, t, j, seq![]) {
                Err(e) => Err(e),
                Ok((else_if_branches, k)) => if j <= k <= t.len() {
                    if at(t, k, Symbol::Else) {
                        match braced(b, t, k + 1) {
                            Err(e) => Err(e),
                            Ok((s, l)) => Ok(
                                (
                                    StatementModel::If {
                                        condition,
                                        then_branch,
                                        else_if_branches,
                                        else_branch: Some(s),
                                    },
                                    l,
                                ),
                            ),
                        }
                    } else {
                        Ok(
                            (
                                StatementModel::If { condition, then_branch, else_if_branches, else_branch: None },
                                k,
                            ),
                        )
                    }
                } else {
                    arbitrary()
                },
            }
        } else {
            arbitrary()
        },
    }
}

pub open spec fn else_ifs(
    b: nat,
    t: Seq<ScriptTokenModel>,
    i: int,
    done: Seq<(ValueModel, Seq<StatementModel>)>,
) -> Result<(Seq<(ValueModel, Seq<StatementModel>)>, int), ParseErrorModel>
    decreases t.len() - i, 12int,
{
    if !at(t, i, Symbol::ElseIf) {
        Ok((done, i))
    } else {
        match guarded(b, t, i + 1) {
            Err(e) => Err(e),
            Ok((arm, j)) => if i < j <= t.len() {
                else_ifs(b, t, j, done.push(arm))
            } else {
                arbitrary()
            },
        }
    }
}

/// A catch clause, from its keyword on.
pub open spec fn catch_clause(b: nat, t: Seq<ScriptTokenModel>, i: int) -> Result<(CatchModel, int), ParseErrorModel>
    decreases t.len() - i, 12int,
{
    match expect(t, i + 1, Symbol::LParen) {
        Err(e) => Err(e),
        Ok(j) => match identifier(t, j) {
            Err(e) => Err(e),
            Ok((error_type, k)) => match expect(t, k, Symbol::RParen) {
                Err(e) => Err(e),
                Ok(l) => match braced(b, t, l) {
                    Err(e) => Err(e),
                    Ok((body, m)) => Ok((CatchModel { error_type, body }, m)),
                },
            },
        },
    }
}

/// The statements and catch clauses of a try block, in any order.
pub open spec fn try_items(
    b: nat,
    t: Seq<ScriptTokenModel>,
    i: int,
    done: Seq<StatementModel>,
    catches: Seq<CatchModel>,
) -> Result<((Seq<StatementModel>, Seq<CatchModel>), int), ParseErrorModel>
    decreases t.len() - i, 30int,
{
    if block_ends(t, i) {
        Ok(((done, catches), i))
    } else if at(t, i, Symbol::Catch) {
        match catch_clause(b, t, i) {
            Err(e) => Err(e),
            Ok((c, j)) => if i < j <= t.len() {
                try_items(b, t, j, done, catches.push(c))
            } else {
                arbitrary()
            },
        }
    } else {
        match statement(b, t, i) {
            Err(e) => Err(e),
            Ok((s, j)) => if i < j <= t.len() {
                try_items(b, t, j, done.push(s), catches)
            } else {
                arbitrary()
            },
        }
    }
}

pub open spec fn declare(t: Seq<ScriptTokenModel>, i: int) -> Result<(StatementModel, int), ParseErrorModel> {
    match expect(t, i + 1, Symbol::LParen) {
        Err(e) => Err(e),
        Ok(j) => match token(t, j) {
            Some(ScriptTokenModel::StringLiteral(path)) => if at(t, j + 1, Symbol::Comma) {
                match token(t, j + 2) {
                    Some(ScriptTokenModel::BoolLiteral(run)) => match expect(t, j + 3, Symbol::RParen) {
                        Err(e) => Err(e),
                        Ok(k) => Ok((StatementModel::Declare { path, run }, k)),
                    },
                    _ => Err(wanted(t, j + 2, Want::RunFlag)),
                }
            } else {
                match expect(t, j + 1, Symbol::RParen) {
                    Err(e) => Err(e),
                    Ok(k) => Ok((StatementModel::Declare { path, run: true }, k)),
                }
            },
            _ => Err(wanted(t, j, Want::ModulePath)),
        },
    }
}

/// The parameters from `i` on, behind those of `params`. Once one has a
/// default, all that follow have one.
pub open spec fn parameters_from(
    b: nat,
    t: Seq<ScriptTokenModel>,
    i: int,
    params: Seq<Seq<char>>,
    defaults: Seq<(Seq<char>, ValueModel)>,
) -> Result<((Seq<Seq<char>>, Seq<(Seq<char>, ValueModel)>), int), ParseErrorModel>
    decreases t.len() - i,
{
    match identifier(t, i) {
        Err(e) => Err(e),
        Ok((name, j)) => if at(t, j, Symbol::Assign) {
            match expression(b, t, j + 1) {
                Err(e) => Err(e),
                Ok((v, k)) => if j < k <= t.len() {
                    if at(t, k, Symbol::Comma) {
                        parameters_from(b, t, k + 1, params.push(name), put(defaults, name, v))
                    } else {
                        Ok(((params.push(name), put(defaults, name, v)), k))
                    }
                } else {
                    arbitrary()
                },
            }
        } else if defaults.len() > 0 {
            Err(ParseErrorModel::RequiredParameter(name))
        } else if at(t, j, Symbol::Comma) {
            parameters_from(b, t, j + 1, params.push(name), defaults)
        } else {
            Ok(((params.push(name), defaults), j))
        },
    }
}

pub open spec fn parameters(b: nat, t: Seq<ScriptTokenModel>, i: int) -> Result<
    ((Seq<Seq<char>>, Seq<(Seq<char>, ValueModel)>), int),
    ParseErrorModel,
> {
    if at(t, i, Symbol::RParen) {
        Ok(((seq![], seq![]), i))
    } else {
        parameters_from(b, t, i, seq![], seq![])
    }
}

/// `(params) {`, which tells a function literal from a value in parentheses.
pub open spec fn function_header(b: nat, t: Seq<ScriptTokenModel>, i: int) -> Result<
    ((Seq<Seq<char>>, Seq<(Seq<char>, ValueModel)>), int),
    ParseErrorModel,
> {
    match expect(t, i, Symbol::LParen) {
        Err(e) => Err(e),
        Ok(j) => match parameters(b, t, j) {
            Err(e) => Err(e),
            Ok((p, k)) => match expect(t, k, Symbol::RParen) {
                Err(e) => Err(e),
                Ok(l) => match expect(t, l, Symbol::LBrace) {
                    Err(e) => Err(e),
                    Ok(m) => Ok((p, m)),
                },
            },
        },
    }
}

/// A function literal where its header stands, else an expression.
pub open spec fn initial_value(b: nat, t: Seq<ScriptTokenModel>, i: int) -> Result<(ValueModel, int), ParseErrorModel>
    decreases t.len() - i, 18int,
{
    match function_header(b, t, i) {
        Ok(((params, defaults), j)) => if i < j <= t.len() {
            match body(b, t, j) {
                Err(e) => Err(e),
                Ok((s, k)) => Ok((ValueModel::Function { params, defaults, body: s }, k)),
            }
        } else {
            arbitrary()
        },
        Err(_) => expression(b, t, i),
    }
}

pub open spec fn variable_decl(b: nat, t: Seq<ScriptTokenModel>, i: int) -> Result<(StatementModel, int), ParseErrorModel>
    decreases t.len() - i, 19int,
{
    match identifier(t, i + 2) {
        Err(e) => Err(e),
        Ok((name, j)) => match declared_type(t, j) {
            Err(e) => Err(e),
            Ok((declared, k)) => match expect(t, k, Symbol::Assign) {
                Err(e) => Err(e),
                Ok(l) => match initial_value(b, t, l) {
                    Err(e) => Err(e),
                    Ok((value, m)) => if at(t, i + 1, Symbol::Global) {
                        Ok((StatementModel::GlobalDecl { name, declared, value }, m))
                    } else {
                        Ok((StatementModel::VariableDecl { name, declared, value }, m))
                    },
                },
            },
        },
    }
}

/// The suffixes of an assignment target.
pub open spec fn target_suffixes(b: nat, t: Seq<ScriptTokenModel>, i: int, target: TargetModel) -> Result<
    (TargetModel, int),
    ParseErrorModel,
>
    decreases t.len() - i,
{
    if at(t, i, Symbol::Dot) {
        match identifier(t, i + 1) {
            Err(e) => Err(e),
            Ok((key, j)) => target_suffixes(b, t, j, TargetModel::Property { target: Box::new(target), key }),
        }
    } else if at(t, i, Symbol::LBracket) {
        match expression(b, t, i + 1) {
            Err(e) => Err(e),
            Ok((index, j)) => match expect(t, j, Symbol::RBracket) {
                Err(e) => Err(e),
                Ok(k) => if i < k <= t.len() {
                    target_suffixes(
                        b,
                        t,
                        k,
                        TargetModel::Index { target: Box::new(target), index: Box::new(index) },
                    )
                } else {
                    arbitrary()
                },
            },
        }
    } else {
        Ok((target, i))
    }
}

pub open spec fn assign(b: nat, t: Seq<ScriptTokenModel>, i: int) -> Result<(StatementModel, int), ParseErrorModel> {
    match expect(t, i + 1, Symbol::Dot) {
        Err(e) => Err(e),
        Ok(j) => match identifier(t, j) {
            Err(e) => Err(e),
            Ok((name, k)) => match target_suffixes(b, t, k, TargetModel::Var(name)) {
                Err(e) => Err(e),
                Ok((target, l)) => match assignment(t, l) {
                    Err(e) => Err(e),
                    Ok((op, m)) => match expression(b, t, m) {
                        Err(e) => Err(e),
                        Ok((v, n)) => Ok((StatementModel::Assign { target, op, value: Box::new(v) }, n)),
                    },
                },
            },
        },
    }
}

/// The cases of a switch up to its closing brace.
pub open spec fn switch_items(
    b: nat,
    t: Seq<ScriptTokenModel>,
    i: int,
    cases: Seq<(ValueModel, Seq<StatementModel>)>,
    default: Option<Seq<StatementModel>>,
) -> Result<((Seq<(ValueModel, Seq<StatementModel>)>, Option<Seq<StatementModel>>), int), ParseErrorModel>
    decreases t.len() - i, 12int,
{
    if block_ends(t, i) {
        Ok(((cases, default), i))
    } else if at(t, i, Symbol::Case) {
        match guarded(b, t, i + 1) {
            Err(e) => Err(e),
            Ok((arm, j)) => if i < j <= t.len() {
                switch_items(b, t, j, cases.push(arm), default)
            } else {
                arbitrary()
            },
        }
    } else if at(t, i, Symbol::Default) {
        if default is Some {
            Err(ParseErrorModel::Plain(Complaint::DuplicateDefault))
        } else {
            match braced(b, t, i + 1) {
                Err(e) => Err(e),
                Ok((s, j)) => if i < j <= t.len() {
                    switch_items(b, t, j, cases, Some(s))
                } else {
                    arbitrary()
                },
            }
        }
    } else {
        Err(wanted(t, i, Want::CaseOrDefault))
    }
}

pub open spec fn switch_statement(b: nat, t: Seq<ScriptTokenModel>, i: int) -> Result<
    (StatementModel, int),
    ParseErrorModel,
>
    decreases t.len() - i, 19int,
{
    match in_parens(b, t, i + 1) {
        Err(e) => Err(e),
        Ok((scrutinee, j)) => match expect(t, j, Symbol::LBrace) {
            Err(e) => Err(e),
            Ok(k) => if i < k <= t.len() {
                match switch_items(b, t, k, seq![], None) {
                    Err(e) => Err(e),
                    Ok(((cases, default), l)) => match expect(t, l, Symbol::RBrace) {
                        Err(e) => Err(e),
                        Ok(m) => Ok(
                            (StatementModel::Switch { scrutinee: Box::new(scrutinee), cases, default }, m),
                        ),
                    },
                }
            } else {
                arbitrary()
            },
        },
    }
}

/// The version that a number stands for: its integer part, as far as that fits in
/// 64 bits, and 0 for a number below zero.
pub open spec fn version(n: u64) -> int {
    if nan(n) || negative(n) {
        0
    } else if finite(n) && whole_size(n) <= u64::MAX {
        whole_size(n)
    } else {
        u64::MAX as int
    }
}

/// `[TYPE LANGUAGE VERSION n]`
pub open spec fn header(t: Seq<ScriptTokenModel>, i: int) -> Result<(HeaderModel, int), ParseErrorModel> {
    match expect(t, i, Symbol::LBracket) {
        Err(e) => Err(e),
        Ok(j) => match identifier(t, j) {
            Err(e) => Err(e),
            Ok((script_type, k)) => match identifier(t, k) {
                Err(e) => Err(e),
                Ok((language, l)) => if token(t, l) == Some(ScriptTokenModel::Identifier("VERSION"@)) {
                    match token(t, l + 1) {
                        Some(ScriptTokenModel::NumberLiteral(n)) => match expect(t, l + 2, Symbol::RBracket) {
                            Err(e) => Err(e),
                            Ok(m) => Ok((HeaderModel { script_type, language, version: version(n) }, m)),
                        },
                        _ => Err(wanted(t, l + 1, Want::Number)),
                    }
                } else {
                    Err(wanted(t, l, Want::Version))
                },
            },
        },
    }
}

/// The statements of a file from `i` to the end mark, behind those of `done`.
pub open spec fn top_level(b: nat, t: Seq<ScriptTokenModel>, i: int, done: Seq<StatementModel>) -> Result<
    Seq<StatementModel>,
    ParseErrorModel,
>
    decreases t.len() - i,
{
    if at(t, i, Symbol::Eof) {
        Ok(done)
    } else {
        match statement(b, t, i) {
            Err(e) => Err(e),
            Ok((s, j)) => if i < j <= t.len() {
                top_level(b, t, j, done.push(s))
            } else {
                arbitrary()
            },
        }
    }
}

/// Whether a `declare` stands in the block.
pub open spec fn block_declares(s: Seq<StatementModel>) -> bool
    decreases s,
{
    exists|i: int| 0 <= i < s.len() && declares(#[trigger] s[i])
}

pub open spec fn block_opt_declares(s: Option<Seq<StatementModel>>) -> bool
    decreases s,
{
    match s {
        Some(b) => block_declares(b),
        None => false,
    }
}

/// Whether a `declare` stands in a block of the arms.
pub open spec fn arms_declare(s: Seq<(ValueModel, Seq<StatementModel>)>) -> bool
    decreases s,
{
    exists|i: int| 0 <= i < s.len() && block_declares((#[trigger] s[i]).1)
}

/// Whether a `declare` stands in a guard of the arms.
pub open spec fn guards_declare(s: Seq<(ValueModel, Seq<StatementModel>)>) -> bool
    decreases s,
{
    exists|i: int| 0 <= i < s.len() && value_declares((#[trigger] s[i]).0)
}

pub open spec fn catches_declare(s: Seq<CatchModel>) -> bool
    decreases s,
{
    exists|i: int| 0 <= i < s.len() && block_declares((#[trigger] s[i]).body)
}

pub open spec fn values_declare(s: Seq<ValueModel>) -> bool
    decreases s,
{
    exists|i: int| 0 <= i < s.len() && value_declares(#[trigger] s[i])
}

pub open spec fn entries_declare(s: Seq<(Seq<char>, ValueModel)>) -> bool
    decreases s,
{
    exists|i: int| 0 <= i < s.len() && value_declares((#[trigger] s[i]).1)
}

/// Whether the statement is a `declare` or has one inside.
pub open spec fn declares(s: StatementModel) -> bool
    decreases s,
{
    match s {
        StatementModel::Declare { .. } => true,
        StatementModel::VariableDecl { value, .. } => value_declares(value),
        StatementModel::GlobalDecl { value, .. } => value_declares(value),
        StatementModel::Event { body, .. } => block_declares(body),
        StatementModel::If { then_branch, else_if_branches, else_branch, .. } => block_declares(then_branch)
            || arms_declare(else_if_branches) || block_opt_declares(else_branch),
        StatementModel::While { body, .. } => block_declares(body),
        StatementModel::ForIn { body, .. } => block_declares(body),
        StatementModel::Assign { target, value, .. } => target_declares(target) || value_declares(*value),
        StatementModel::Switch { scrutinee, cases, default } => value_declares(*scrutinee) || guards_declare(cases)
            || arms_declare(cases) || block_opt_declares(default),
        StatementModel::Try { body, catches } => block_declares(body) || catches_declare(catches),
        _ => false,
    }
}

pub open spec fn target_declares(t: TargetModel) -> bool
    decreases t,
{
    match t {
        TargetModel::Var(_) => false,
        TargetModel::Property { target, .. } => target_declares(*target),
        TargetModel::Index { target, index } => target_declares(*target) || value_declares(*index),
    }
}

/// Whether a `declare` stands in a function body inside the value.
pub open spec fn value_declares(v: ValueModel) -> bool
    decreases v,
{
    match v {
        ValueModel::Function { body, .. } => block_declares(body),
        ValueModel::Array(items) => values_declare(items),
        ValueModel::Object(items) => entries_declare(items),
        ValueModel::Binary { left, right, .. } => value_declares(*left) || value_declares(*right),
        ValueModel::Unary { value, .. } => value_declares(*value),
        ValueModel::Property { target, .. } => value_declares(*target),
        ValueModel::Index { target, .. } => value_declares(*target),
        ValueModel::FunctionCall { args, .. } => values_declare(args),
        _ => false,
    }
}

/// Whether every `declare` stands at the top level.
pub open spec fn declares_at_top(s: Seq<StatementModel>) -> bool {
    forall|i: int| 0 <= i < s.len() ==> (#[trigger] s[i]) is Declare || !declares(s[i])
}

/// The program that a text writes down.
pub open spec fn program(source: Seq<char>) -> Result<ProgramModel, ParseErrorModel> {
    match scan(source) {
        Err(e) => Err(ParseErrorModel::Scan(e)),
        Ok(t) => match header(t, 0) {
            Err(e) => Err(e),
            Ok((h, i)) => match top_level(source.len(), t, i, seq![]) {
                Err(e) => Err(e),
                Ok(s) => if declares_at_top(s) {
                    Ok(ProgramModel { header: h, statements: s })
                } else {
                    Err(ParseErrorModel::Plain(Complaint::NestedDeclare))
                },
            },
        },
    }
}

} // verus!
