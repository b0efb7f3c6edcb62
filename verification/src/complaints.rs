//! What is said of a text that is no program.

use crate::ast::{Value, ValueModel};
use crate::grammar::{Complaint, ParseError, ParseErrorModel, Want};
use crate::lexer::ScanError;
use crate::scanner::{ScriptToken, ScriptTokenModel, Symbol};
use vstd::prelude::*;

verus! {

/// A part of a message: characters, or something of the program that is shown
/// in the form that shows its structure.
#[derive(Debug, PartialEq)]
pub enum Note {
    Text(String),
    Character(char),
    Symbol(Symbol),
    Found(Option<ScriptToken>),
    Value(Value),
}

#[verifier::ext_equal]
pub enum NoteModel {
    Text(Seq<char>),
    Character(char),
    Symbol(Symbol),
    Found(Option<ScriptTokenModel>),
    Value(ValueModel),
}

impl Note {
    pub open spec fn view(&self) -> NoteModel {
        match *self {
            Note::Text(s) => NoteModel::Text(s@),
            Note::Character(c) => NoteModel::Character(c),
            Note::Symbol(m) => NoteModel::Symbol(m),
            Note::Found(t) => NoteModel::Found(
                match t {
                    Some(x) => Some(x@),
                    None => None,
                },
            ),
            Note::Value(v) => NoteModel::Value(v@),
        }
    }
}

pub open spec fn notes(items: Seq<Note>) -> Seq<NoteModel> {
    Seq::new(items.len(), |i: int| items[i]@)
}

/// What is said before the token that stood in the wrong place.
pub open spec fn wanted_text(what: Want) -> Seq<char> {
    match what {
        Want::Identifier => "Expected identifier, found "@,
        Want::Version => "Expected identifier 'VERSION' but found "@,
        Want::Number => "Expected number literal, found "@,
        Want::Value => "Expected value, found "@,
        Want::TypeName => "Expected type name, found "@,
        Want::ModulePath => "Expected module path string, found "@,
        Want::RunFlag => "Expected true or false after module path, found "@,
        Want::AssignmentOperator => "Expected assignment operator, found "@,
        Want::CaseOrDefault => "Expected case or default in switch, found "@,
        Want::Statement => "Unexpected statement start: "@,
        Want::Call => "Unexpected syntax after identifier: "@,
    }
}

pub open spec fn plain_text(c: Complaint) -> Seq<char> {
    match c {
        Complaint::UnexpectedEnd => "Unexpected end of file"@,
        Complaint::CatchOutsideTry => "catch must be inside try"@,
        Complaint::ModuleDataAsStatement =>
            "module data cannot be used as a statement; use module:foo() to call a module function"@,
        Complaint::ModuleCallExpected =>
            "expected '(' after module function name; use module:foo(...) to call or module:var.foo for the value"@,
        Complaint::DuplicateDefault => "switch allows only one default block"@,
        Complaint::UnclosedInterpolation => "Unclosed ${ in string interpolation"@,
        Complaint::EmptyInterpolation => "Empty ${} in string interpolation"@,
        Complaint::NestedDeclare => "declare() must be at file top level"@,
    }
}

pub open spec fn scan_notes(e: ScanError) -> Seq<NoteModel> {
    match e {
        ScanError::UnexpectedCharacter(c) => seq![
            NoteModel::Text("Unexpected character: "@),
            NoteModel::Character(c),
        ],
        ScanError::UnclosedString => seq![NoteModel::Text("Unclosed string"@)],
        ScanError::UnclosedComment => seq![NoteModel::Text("Unclosed comment"@)],
    }
}

/// The message of a complaint.
pub open spec fn wording(e: ParseErrorModel) -> Seq<NoteModel> {
    match e {
        ParseErrorModel::Scan(s) => scan_notes(s),
        ParseErrorModel::Expected { symbol, found } => seq![
            NoteModel::Text("Expected "@),
            NoteModel::Symbol(symbol),
            NoteModel::Text(", found "@),
            NoteModel::Found(found),
        ],
        ParseErrorModel::Wanted { what, found } => seq![NoteModel::Text(wanted_text(what)), NoteModel::Found(found)],
        ParseErrorModel::Plain(c) => seq![NoteModel::Text(plain_text(c))],
        ParseErrorModel::RequiredParameter(name) => seq![
            NoteModel::Text("Required parameter '"@),
            NoteModel::Text(name),
            NoteModel::Text("' must come before defaulted parameters"@),
        ],
        ParseErrorModel::MethodTarget(v) => seq![
            NoteModel::Text("Method call target is not resolvable: "@),
            NoteModel::Value(v),
        ],
        ParseErrorModel::BadInterpolation(s) => seq![
            NoteModel::Text("Invalid expression in string interpolation: '"@),
            NoteModel::Text(s),
            NoteModel::Text("'"@),
        ],
    }
}

fn note(s: &str) -> (r: Note)
    ensures
        r@ == NoteModel::Text(s@),
{
    Note::Text(s.to_string())
}

fn write_wanted(what: Want) -> (r: Note)
    ensures
        r@ == NoteModel::Text(wanted_text(what)),
{
    match what {
        Want::Identifier => note("Expected identifier, found "),
        Want::Version => note("Expected identifier 'VERSION' but found "),
        Want::Number => note("Expected number literal, found "),
        Want::Value => note("Expected value, found "),
        Want::TypeName => note("Expected type name, found "),
        Want::ModulePath => note("Expected module path string, found "),
        Want::RunFlag => note("Expected true or false after module path, found "),
        Want::AssignmentOperator => note("Expected assignment operator, found "),
        Want::CaseOrDefault => note("Expected case or default in switch, found "),
        Want::Statement => note("Unexpected statement start: "),
        Want::Call => note("Unexpected syntax after identifier: "),
    }
}

fn write_plain(c: Complaint) -> (r: Note)
    ensures
        r@ == NoteModel::Text(plain_text(c)),
{
    match c {
        Complaint::UnexpectedEnd => note("Unexpected end of file"),
        Complaint::CatchOutsideTry => note("catch must be inside try"),
        Complaint::ModuleDataAsStatement => note(
            "module data cannot be used as a statement; use module:foo() to call a module function",
        ),
        Complaint::ModuleCallExpected => note(
            "expected '(' after module function name; use module:foo(...) to call or module:var.foo for the value",
        ),
        Complaint::DuplicateDefault => note("switch allows only one default block"),
        Complaint::UnclosedInterpolation => note("Unclosed ${ in string interpolation"),
        Complaint::EmptyInterpolation => note("Empty ${} in string interpolation"),
        Complaint::NestedDeclare => note("declare() must be at file top level"),
    }
}

impl ParseError {
    /// The message of the complaint.
    pub fn message(self) -> (r: Vec<Note>)
        ensures
            notes(r@) == wording(self@),
    {
        let ghost want = wording(self@);
        let r = match self {
            ParseError::Scan(ScanError::UnexpectedCharacter(c)) => vec![
                note("Unexpected character: "),
                Note::Character(c),
            ],
            ParseError::Scan(ScanError::UnclosedString) => vec![note("Unclosed string")],
            ParseError::Scan(ScanError::UnclosedComment) => vec![note("Unclosed comment")],
            ParseError::Expected { symbol, found } => vec![
                note("Expected "),
                Note::Symbol(symbol),
                note(", found "),
                Note::Found(found),
            ],
            ParseError::Wanted { what, found } => vec![write_wanted(what), Note::Found(found)],
            ParseError::Plain(c) => vec![write_plain(c)],
            ParseError::RequiredParameter(name) => vec![
                note("Required parameter '"),
                Note::Text(name),
                note("' must come before defaulted parameters"),
            ],
            ParseError::MethodTarget(v) => vec![
                note("Method call target is not resolvable: "),
                Note::Value(v),
            ],
            ParseError::BadInterpolation(s) => vec![
                note("Invalid expression in string interpolation: '"),
                Note::Text(s),
                note("'"),
            ],
        };
        assert(notes(r@) =~= want);
        r
    }
}

} // verus!
