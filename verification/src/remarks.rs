//! What is said of mistakes.

use crate::ast::ValueModel;
use crate::complaints::{wording, NoteModel};
use crate::draft::{FailureModel, PieceModel};
use crate::grammar::{Complaint, ParseErrorModel, Want};
use crate::lexer::ScanError;
use crate::runtime::type_complaint;
use crate::scanner::{ScriptTokenModel, Symbol};
use crate::show::type_of;
use vstd::prelude::*;

verus! {

/// A complaint of the parser says what it wanted and what it found instead.
pub proof fn wanted_things_are_told(symbol: Symbol, found: Option<ScriptTokenModel>)
    ensures
        wording(ParseErrorModel::Expected { symbol, found }) == seq![
            NoteModel::Text("Expected "@),
            NoteModel::Symbol(symbol),
            NoteModel::Text(", found "@),
            NoteModel::Found(found),
        ],
        wording(ParseErrorModel::Wanted { what: Want::Identifier, found }) == seq![
            NoteModel::Text("Expected identifier, found "@),
            NoteModel::Found(found),
        ],
        wording(ParseErrorModel::Wanted { what: Want::Version, found }) == seq![
            NoteModel::Text("Expected identifier 'VERSION' but found "@),
            NoteModel::Found(found),
        ],
        wording(ParseErrorModel::Wanted { what: Want::Number, found }) == seq![
            NoteModel::Text("Expected number literal, found "@),
            NoteModel::Found(found),
        ],
        wording(ParseErrorModel::Wanted { what: Want::Value, found }) == seq![
            NoteModel::Text("Expected value, found "@),
            NoteModel::Found(found),
        ],
        wording(ParseErrorModel::Wanted { what: Want::TypeName, found }) == seq![
            NoteModel::Text("Expected type name, found "@),
            NoteModel::Found(found),
        ],
        wording(ParseErrorModel::Wanted { what: Want::ModulePath, found }) == seq![
            NoteModel::Text("Expected module path string, found "@),
            NoteModel::Found(found),
        ],
        wording(ParseErrorModel::Wanted { what: Want::RunFlag, found }) == seq![
            NoteModel::Text("Expected true or false after module path, found "@),
            NoteModel::Found(found),
        ],
        wording(ParseErrorModel::Wanted { what: Want::AssignmentOperator, found }) == seq![
            NoteModel::Text("Expected assignment operator, found "@),
            NoteModel::Found(found),
        ],
        wording(ParseErrorModel::Wanted { what: Want::CaseOrDefault, found }) == seq![
            NoteModel::Text("Expected case or default in switch, found "@),
            NoteModel::Found(found),
        ],
        wording(ParseErrorModel::Wanted { what: Want::Statement, found }) == seq![
            NoteModel::Text("Unexpected statement start: "@),
            NoteModel::Found(found),
        ],
        wording(ParseErrorModel::Wanted { what: Want::Call, found }) == seq![
            NoteModel::Text("Unexpected syntax after identifier: "@),
            NoteModel::Found(found),
        ],
{
}

/// What else can be wrong with a text has a message of its own.
pub proof fn other_mistakes_are_told(c: char, name: Seq<char>, v: ValueModel)
    ensures
        wording(ParseErrorModel::Plain(Complaint::UnexpectedEnd)) == seq![
            NoteModel::Text("Unexpected end of file"@),
        ],
        wording(ParseErrorModel::Plain(Complaint::CatchOutsideTry)) == seq![
            NoteModel::Text("catch must be inside try"@),
        ],
        wording(ParseErrorModel::Plain(Complaint::ModuleDataAsStatement)) == seq![
            NoteModel::Text("module data cannot be used as a statement; use module:foo() to call a module function"@),
        ],
        wording(ParseErrorModel::Plain(Complaint::ModuleCallExpected)) == seq![
            NoteModel::Text("expected '(' after module function name; use module:foo(...) to call or module:var.foo for the value"@),
        ],
        wording(ParseErrorModel::Plain(Complaint::DuplicateDefault)) == seq![
            NoteModel::Text("switch allows only one default block"@),
        ],
        wording(ParseErrorModel::Plain(Complaint::UnclosedInterpolation)) == seq![
            NoteModel::Text("Unclosed ${ in string interpolation"@),
        ],
        wording(ParseErrorModel::Plain(Complaint::EmptyInterpolation)) == seq![
            NoteModel::Text("Empty ${} in string interpolation"@),
        ],
        wording(ParseErrorModel::Plain(Complaint::NestedDeclare)) == seq![
            NoteModel::Text("declare() must be at file top level"@),
        ],
        wording(ParseErrorModel::Scan(ScanError::UnexpectedCharacter(c))) == seq![
            NoteModel::Text("Unexpected character: "@),
            NoteModel::Character(c),
        ],
        wording(ParseErrorModel::Scan(ScanError::UnclosedString)) == seq![NoteModel::Text("Unclosed string"@)],
        wording(ParseErrorModel::Scan(ScanError::UnclosedComment)) == seq![NoteModel::Text("Unclosed comment"@)],
        wording(ParseErrorModel::RequiredParameter(name)) == seq![
            NoteModel::Text("Required parameter '"@),
            NoteModel::Text(name),
            NoteModel::Text("' must come before defaulted parameters"@),
        ],
        wording(ParseErrorModel::MethodTarget(v)) == seq![
            NoteModel::Text("Method call target is not resolvable: "@),
            NoteModel::Value(v),
        ],
        wording(ParseErrorModel::BadInterpolation(name)) == seq![
            NoteModel::Text("Invalid expression in string interpolation: '"@),
            NoteModel::Text(name),
            NoteModel::Text("'"@),
        ],
{
}

/// What is said of a value of the wrong type names the variable, its type and that of the
/// value.
pub proof fn wrong_types_are_told(name: Seq<char>, declared: Seq<char>, v: ValueModel)
    ensures
        type_complaint(name, declared, v) == (FailureModel::Throw {
            error_type: "TypeError"@,
            message: seq![
                PieceModel::Text("expected "@),
                PieceModel::Text(declared),
                PieceModel::Text(" for var."@),
                PieceModel::Text(name),
                PieceModel::Text(", got "@),
                PieceModel::Text(type_of(v)),
            ],
        }),
{
}

} // verus!
