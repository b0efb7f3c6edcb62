//! The parser: recursive descent over the tokens of a file.

use crate::ast::{
    arms, block, block_opt, entries, handlers, texts, values, AssignTarget, BinaryOperator, CatchClause, Header,
    HeaderModel, Program, ProgramModel, Statement, StatementModel, TargetModel, UnaryOperator, Value, ValueModel,
};
use crate::grammar::{
    arms_declare, block_declares, catches_declare, declares, declares_at_top, entries_declare, guards_declare, program,
    target_declares, value_declares, values_declare, all_white, arguments, array, assign, at, base, block_ends, body,
    brace_end, braced, call_or_event, catch_clause, chain, declare, declared_type, else_ifs, enclosed, expect,
    expression, fields, for_statement, function_header, guarded, header, identifier, if_statement, in_parens, indices,
    initial_value, interpolated, links, list, named, object, object_entries, object_key, operand, operator, operator_at,
    parameters, parameters_from, parts, primary, scoped, statement, statements, stretch, sum, switch_items,
    switch_statement, target_suffixes, throw_statement, token, top_level, try_items, unary, variable_decl, version,
    wanted, white, Base, Complaint, ParseError, ParseErrorModel, Want,
};
use crate::lexer::{lemma_string_body, lex_one, tokens_from, ScanError, TokenView};
use crate::number::{find_whole_size, is_finite, is_nan, SIGN};
use crate::scanner::{reading, scan, token_models, tokenize, ScriptToken, ScriptTokenModel, Symbol};
use crate::strings::is_white;
use crate::table::store;
use crate::text::{chars_of, same, string_of};
use vstd::prelude::*;

verus! {

/// No string literal among the tokens is longer than `n`.
pub open spec fn literals_within(t: Seq<ScriptTokenModel>, n: nat) -> bool {
    forall|i: int|
        #![trigger t[i]]
        0 <= i < t.len() ==> (t[i] matches ScriptTokenModel::StringLiteral(s) ==> s.len() <= n)
}

/// A string literal is no longer than the text that it is in.
proof fn lemma_token_literals(s: Seq<char>, i: int)
    requires
        0 <= i <= s.len(),
    ensures
        tokens_from(s, i) matches Ok(t) ==> forall|k: int|
            #![trigger t[k]]
            0 <= k < t.len() ==> (t[k] matches TokenView::StringLiteral(x) ==> x.len() <= s.len()),
    decreases s.len() - i,
{
    if i < s.len() {
        lemma_string_body(s, i + 1);
        if let Ok((t, j)) = lex_one(s, i) {
            if i < j <= s.len() {
                lemma_token_literals(s, j);
            }
        }
    }
}

proof fn lemma_scan_literals(s: Seq<char>)
    ensures
        scan(s) matches Ok(t) ==> literals_within(t, s.len()),
{
    lemma_token_literals(s, 0);
    if let Ok(tokens) = tokens_from(s, 0) {
        assert forall|i: int| #![trigger scan(s)->Ok_0[i]] 0 <= i < tokens.len() implies (
        scan(s)->Ok_0[i] matches ScriptTokenModel::StringLiteral(x) ==> x.len() <= s.len()) by {
            assert(scan(s)->Ok_0[i] == reading(tokens[i]));
        }
    }
}

type Outcome<T> = Result<(T, int), ParseErrorModel>;

/// `r` is what the grammar gives where `was` stood, and the parser stands
/// behind it.
spec fn reads(r: Result<Value, ParseError>, was: &Parser, now: &Parser, want: Outcome<ValueModel>) -> bool {
    &&& now.well_formed()
    &&& now.onward(was)
    &&& match r {
        Ok(v) => want == Ok::<_, ParseErrorModel>((v@, now.i())) && was.i() < now.i(),
        Err(e) => want == Err::<(ValueModel, int), _>(e@),
    }
}

/// As `reads`, where nothing need have been read.
spec fn extends(r: Result<Value, ParseError>, was: &Parser, now: &Parser, want: Outcome<ValueModel>) -> bool {
    &&& now.well_formed()
    &&& now.onward(was)
    &&& match r {
        Ok(v) => want == Ok::<_, ParseErrorModel>((v@, now.i())),
        Err(e) => want == Err::<(ValueModel, int), _>(e@),
    }
}

/// As `reads`, for a list of values.
spec fn lists(r: Result<Vec<Value>, ParseError>, was: &Parser, now: &Parser, want: Outcome<Seq<ValueModel>>) -> bool {
    &&& now.well_formed()
    &&& now.onward(was)
    &&& match r {
        Ok(v) => want == Ok::<_, ParseErrorModel>((values(v@), now.i())) && was.i() < now.i(),
        Err(e) => want == Err::<(Seq<ValueModel>, int), _>(e@),
    }
}

/// As `reads`, for a value that may be closed to suffixes.
spec fn starts(r: Result<(Value, bool), ParseError>, was: &Parser, now: &Parser, want: Outcome<Base>) -> bool {
    &&& now.well_formed()
    &&& now.onward(was)
    &&& match r {
        Ok((v, open)) => want == Ok::<_, ParseErrorModel>(
            (
                if open {
                    Base::Open(v@)
                } else {
                    Base::Closed(v@)
                },
                now.i(),
            ),
        ),
        Err(e) => want == Err::<(Base, int), _>(e@),
    }
}

/// As `reads`, for a statement.
spec fn states(r: Result<Statement, ParseError>, was: &Parser, now: &Parser, want: Outcome<StatementModel>) -> bool {
    &&& now.well_formed()
    &&& now.onward(was)
    &&& match r {
        Ok(s) => want == Ok::<_, ParseErrorModel>((s@, now.i())),
        Err(e) => want == Err::<(StatementModel, int), _>(e@),
    }
}

/// As `reads`, for a block.
spec fn blocks(
    r: Result<Vec<Statement>, ParseError>,
    was: &Parser,
    now: &Parser,
    want: Outcome<Seq<StatementModel>>,
) -> bool {
    &&& now.well_formed()
    &&& now.onward(was)
    &&& match r {
        Ok(s) => want == Ok::<_, ParseErrorModel>((block(s@), now.i())) && was.i() < now.i(),
        Err(e) => want == Err::<(Seq<StatementModel>, int), _>(e@),
    }
}

#[derive(Debug)]
pub struct Parser {
    tokens: Vec<ScriptToken>,
    index: usize,
    /// No string literal among the tokens is longer.
    limit: usize,
}

impl Parser {
    /// Reads a program. `declare` is meaningful only before any code of the
    /// file runs, so it has to stand at the top level.
    pub fn parse(source: &str) -> (r: Result<Program, ParseError>)
        ensures
            match r {
                Ok(p) => program(source@) == Ok::<_, ParseErrorModel>(p@),
                Err(e) => program(source@) == Err::<ProgramModel, _>(e@),
            },
    {
        let tokens = match tokenize(source) {
            Ok(tokens) => tokens,
            Err(e) => {
                return Err(ParseError::Scan(e));
            },
        };
        proof {
            lemma_scan_literals(source@);
        }
        let limit: usize = chars_of(source).len();
        let mut parser = Parser::new(tokens, limit);
        let header = parser.parse_header()?;
        let ghost was = parser;
        let mut statements: Vec<Statement> = Vec::new();
        assert(block(statements@) =~= seq![]);
        while !parser.is_at_end()
            invariant
                parser.well_formed(),
                parser.onward(&was),
                top_level(was.b(), was.t(), parser.i(), block(statements@)) == top_level(
                    was.b(),
                    was.t(),
                    was.i(),
                    seq![],
                ),
                scan(source@) == Ok::<_, ScanError>(was.t()),
                crate::grammar::header(was.t(), 0) == Ok::<_, ParseErrorModel>((header@, was.i())),
                was.b() == source@.len(),
            decreases parser.tokens@.len() - parser.index,
        {
            let ghost before = block(statements@);
            let s = parser.parse_statement()?;
            statements.push(s);
            assert(block(statements@) =~= before.push(s@));
        }
        if validate_top_level_declares(&statements) {
            Ok(Program { header, statements })
        } else {
            Err(ParseError::Plain(Complaint::NestedDeclare))
        }
    }

    spec fn t(&self) -> Seq<ScriptTokenModel> {
        token_models(self.tokens@)
    }

    spec fn b(&self) -> nat {
        self.limit as nat
    }

    spec fn i(&self) -> int {
        self.index as int
    }

    spec fn well_formed(&self) -> bool {
        &&& self.index <= self.tokens@.len()
        &&& literals_within(self.t(), self.b())
    }

    /// The parser has read on from where `was` stood.
    spec fn onward(&self, was: &Parser) -> bool {
        &&& self.tokens == was.tokens
        &&& self.limit == was.limit
        &&& was.index <= self.index <= self.tokens@.len()
    }

    fn new(tokens: Vec<ScriptToken>, limit: usize) -> (r: Parser)
        requires
            literals_within(token_models(tokens@), limit as nat),
        ensures
            r.well_formed(),
            r.t() == token_models(tokens@),
            r.b() == limit,
            r.i() == 0,
    {
        Parser { tokens, index: 0, limit }
    }

    fn peek(&self) -> (r: Option<&ScriptToken>)
        requires
            self.well_formed(),
        ensures
            match r {
                Some(x) => token(self.t(), self.i()) == Some(x@) && self.index < self.tokens@.len(),
                None => token(self.t(), self.i()) is None,
            },
    {
        if self.index < self.tokens.len() {
            Some(&self.tokens[self.index])
        } else {
            None
        }
    }

    fn found(&self) -> (r: Option<ScriptToken>)
        requires
            self.well_formed(),
        ensures
            match r {
                Some(x) => token(self.t(), self.i()) == Some(x@),
                None => token(self.t(), self.i()) is None,
            },
    {
        match self.peek() {
            Some(x) => Some(x.copy()),
            None => None,
        }
    }

    fn wanted(&self, what: Want) -> (r: ParseError)
        requires
            self.well_formed(),
        ensures
            r@ == wanted(self.t(), self.i(), what),
    {
        ParseError::Wanted { what, found: self.found() }
    }

    /// Whether `m` stands `ahead` tokens further on.
    fn matches_at(&self, ahead: usize, m: Symbol) -> (r: bool)
        requires
            self.well_formed(),
        ensures
            r == at(self.t(), self.i() + ahead, m),
            r ==> self.index + ahead < self.tokens@.len(),
    {
        if ahead < self.tokens.len() - self.index {
            match &self.tokens[self.index + ahead] {
                ScriptToken::Symbol(x) => *x == m,
                _ => false,
            }
        } else {
            false
        }
    }

    fn matches(&self, m: Symbol) -> (r: bool)
        requires
            self.well_formed(),
        ensures
            r == at(self.t(), self.i(), m),
            r ==> self.index < self.tokens@.len(),
    {
        self.matches_at(0, m)
    }

    fn symbol(&self) -> (r: Option<Symbol>)
        requires
            self.well_formed(),
        ensures
            match r {
                Some(m) => token(self.t(), self.i()) == Some(ScriptTokenModel::Symbol(m)) && self.index
                    < self.tokens@.len(),
                None => !(token(self.t(), self.i()) matches Some(ScriptTokenModel::Symbol(_))),
            },
    {
        match self.peek() {
            Some(ScriptToken::Symbol(m)) => Some(*m),
            _ => None,
        }
    }

    fn advance(&mut self)
        requires
            old(self).well_formed(),
            old(self).index < old(self).tokens@.len(),
        ensures
            final(self).well_formed(),
            final(self).onward(old(self)),
            final(self).i() == old(self).i() + 1,
    {
        if self.index < self.tokens.len() {
            self.index = self.index + 1;
        }
    }

    fn match_symbol(&mut self, m: Symbol) -> (r: bool)
        requires
            old(self).well_formed(),
        ensures
            final(self).well_formed(),
            final(self).onward(old(self)),
            r == at(old(self).t(), old(self).i(), m),
            final(self).i() == old(self).i() + (if r {
                1int
            } else {
                0int
            }),
    {
        if self.matches(m) {
            self.advance();
            true
        } else {
            false
        }
    }

    fn is_at_end(&self) -> (r: bool)
        requires
            self.well_formed(),
        ensures
            r == at(self.t(), self.i(), Symbol::Eof),
    {
        self.matches(Symbol::Eof)
    }

    fn expect(&mut self, m: Symbol) -> (r: Result<(), ParseError>)
        requires
            old(self).well_formed(),
        ensures
            final(self).well_formed(),
            final(self).onward(old(self)),
            match r {
                Ok(_) => expect(old(self).t(), old(self).i(), m) == Ok::<int, ParseErrorModel>(final(self).i()),
                Err(e) => expect(old(self).t(), old(self).i(), m) == Err::<int, ParseErrorModel>(e@),
            },
            r is Ok ==> final(self).i() == old(self).i() + 1,
            r is Err ==> final(self).i() == old(self).i(),
    {
        if self.match_symbol(m) {
            Ok(())
        } else {
            Err(ParseError::Expected { symbol: m, found: self.found() })
        }
    }

    fn consume_identifier(&mut self) -> (r: Result<String, ParseError>)
        requires
            old(self).well_formed(),
        ensures
            final(self).well_formed(),
            final(self).onward(old(self)),
            match r {
                Ok(name) => identifier(old(self).t(), old(self).i()) == Ok::<_, ParseErrorModel>(
                    (name@, final(self).i()),
                ),
                Err(e) => identifier(old(self).t(), old(self).i()) == Err::<(Seq<char>, int), _>(e@),
            },
            r is Ok ==> final(self).i() == old(self).i() + 1,
            r is Err ==> final(self).i() == old(self).i(),
    {
        let name = match self.peek() {
            Some(ScriptToken::Identifier(name)) => name.clone(),
            _ => {
                return Err(self.wanted(Want::Identifier));
            },
        };
        self.advance();
        Ok(name)
    }

    fn consume_type_name(&mut self) -> (r: Result<String, ParseError>)
        requires
            old(self).well_formed(),
        ensures
            final(self).well_formed(),
            final(self).onward(old(self)),
            match r {
                Ok(name) => declared_type(old(self).t(), old(self).i()) == Ok::<_, ParseErrorModel>(
                    (name@, final(self).i()),
                ),
                Err(e) => declared_type(old(self).t(), old(self).i()) == Err::<(Seq<char>, int), _>(e@),
            },
            r is Ok ==> final(self).i() == old(self).i() + 1,
    {
        let name = match self.peek() {
            Some(ScriptToken::Symbol(Symbol::StringType)) => "string".to_string(),
            Some(ScriptToken::Symbol(Symbol::NumberType)) => "number".to_string(),
            Some(ScriptToken::Symbol(Symbol::LogicType)) => "logic".to_string(),
            Some(ScriptToken::Symbol(Symbol::Null)) => "null".to_string(),
            Some(ScriptToken::Symbol(Symbol::Function)) => "function".to_string(),
            Some(ScriptToken::Symbol(Symbol::ArrayType)) => "array".to_string(),
            Some(ScriptToken::Symbol(Symbol::ObjectType)) => "object".to_string(),
            Some(ScriptToken::Identifier(name)) => {
                if same(name.as_str(), "file") || same(name.as_str(), "db") || same(name.as_str(), "window")
                    || same(name.as_str(), "button") {
                    name.clone()
                } else {
                    return Err(self.wanted(Want::TypeName));
                }
            },
            _ => {
                return Err(self.wanted(Want::TypeName));
            },
        };
        self.advance();
        Ok(name)
    }

    fn parse_value(&mut self) -> (r: Result<Value, ParseError>)
        requires
            old(self).well_formed(),
        ensures
            reads(r, old(self), final(self), expression(old(self).b(), old(self).t(), old(self).i())),
        decreases 2 * self.limit + 1, self.tokens@.len() - self.index, 80int,
    {
        self.parse_chain(0)
    }

    fn parse_chain(&mut self, level: u8) -> (r: Result<Value, ParseError>)
        requires
            old(self).well_formed(),
            level <= 9,
        ensures
            reads(r, old(self), final(self), chain(old(self).b(), old(self).t(), old(self).i(), level as int)),
        decreases 2 * self.limit + 1, self.tokens@.len() - self.index, 79 - 4 * level,
    {
        let ghost was = *self;
        let mut left = self.parse_operand(level)?;
        let ghost from = *self;
        let ghost first = left@;
        loop
            invariant
                was == *old(self),
                self.well_formed(),
                self.onward(&from),
                from.onward(&was),
                was.i() < from.i(),
                level <= 9,
                links(was.b(), was.t(), self.i(), level as int, left@) == links(
                    was.b(),
                    was.t(),
                    from.i(),
                    level as int,
                    first,
                ),
                chain(was.b(), was.t(), was.i(), level as int) == links(
                    was.b(),
                    was.t(),
                    from.i(),
                    level as int,
                    first,
                ),
            decreases self.tokens@.len() - self.index,
        {
            let op = match self.peek_operator(level) {
                Some(op) => op,
                None => {
                    return Ok(left);
                },
            };
            self.advance();
            let right = self.parse_operand(level)?;
            left = Value::Binary { left: Box::new(left), op, right: Box::new(right) };
        }
    }

    fn parse_operand(&mut self, level: u8) -> (r: Result<Value, ParseError>)
        requires
            old(self).well_formed(),
            level <= 9,
        ensures
            reads(r, old(self), final(self), operand(old(self).b(), old(self).t(), old(self).i(), level as int)),
        decreases 2 * self.limit + 1, self.tokens@.len() - self.index, 78 - 4 * level,
    {
        if level == 4 {
            self.parse_unary()
        } else if level == 9 {
            self.parse_primary()
        } else {
            self.parse_chain(level + 1)
        }
    }

    fn peek_operator(&self, level: u8) -> (r: Option<BinaryOperator>)
        requires
            self.well_formed(),
        ensures
            r == operator_at(self.t(), self.i(), level as int),
            r is Some ==> self.index < self.tokens@.len(),
    {
        match self.symbol() {
            Some(m) => operator_of(level, m),
            None => None,
        }
    }

    fn parse_unary(&mut self) -> (r: Result<Value, ParseError>)
        requires
            old(self).well_formed(),
        ensures
            reads(r, old(self), final(self), unary(old(self).b(), old(self).t(), old(self).i())),
        decreases 2 * self.limit + 1, self.tokens@.len() - self.index, 61int,
    {
        let op = match self.symbol() {
            Some(Symbol::Not) => UnaryOperator::Not,
            Some(Symbol::BitNot) => UnaryOperator::BitNot,
            _ => {
                return self.parse_chain(5);
            },
        };
        self.advance();
        let value = self.parse_unary()?;
        Ok(Value::Unary { op, value: Box::new(value) })
    }

    fn parse_primary(&mut self) -> (r: Result<Value, ParseError>)
        requires
            old(self).well_formed(),
        ensures
            reads(r, old(self), final(self), primary(old(self).b(), old(self).t(), old(self).i())),
        decreases 2 * self.limit + 1, self.tokens@.len() - self.index, 11int,
    {
        let (value, open) = self.parse_base()?;
        if !open {
            return Ok(value);
        }
        let value = self.parse_fields(value)?;
        self.parse_indices(value)
    }

    fn parse_base(&mut self) -> (r: Result<(Value, bool), ParseError>)
        requires
            old(self).well_formed(),
        ensures
            starts(r, old(self), final(self), base(old(self).b(), old(self).t(), old(self).i())),
            r is Ok ==> old(self).i() < final(self).i(),
        decreases 2 * self.limit + 1, self.tokens@.len() - self.index, 10int,
    {
        let first = match self.peek() {
            Some(x) => x.copy(),
            None => {
                return Err(self.wanted(Want::Value));
            },
        };
        match first {
            ScriptToken::StringLiteral(raw) => {
                assert(self.t()[self.i()] == ScriptTokenModel::StringLiteral(raw@));
                let value = desugar_interpolated_string(raw.as_str(), self.limit)?;
                self.advance();
                Ok((value, true))
            },
            ScriptToken::NumberLiteral(n) => {
                self.advance();
                Ok((Value::Number(n), true))
            },
            ScriptToken::BoolLiteral(v) => {
                self.advance();
                Ok((Value::Logic(v), true))
            },
            ScriptToken::Identifier(name) => {
                self.advance();
                self.parse_named(name)
            },
            ScriptToken::Symbol(m) => {
                if m == Symbol::Null {
                    self.advance();
                    Ok((Value::Null, true))
                } else if m == Symbol::Var {
                    self.advance();
                    self.expect(Symbol::Dot)?;
                    let name = self.consume_identifier()?;
                    Ok((Value::Variable("var.".to_string().concat(name.as_str())), true))
                } else if m == Symbol::LBracket {
                    let items = self.parse_enclosed(Symbol::LBracket, Symbol::RBracket)?;
                    Ok((Value::Array(items), true))
                } else if m == Symbol::LBrace {
                    let value = self.parse_object_literal()?;
                    Ok((value, true))
                } else if m == Symbol::LParen {
                    self.advance();
                    let value = self.parse_value()?;
                    self.expect(Symbol::RParen)?;
                    Ok((value, true))
                } else {
                    Err(self.wanted(Want::Value))
                }
            },
        }
    }

    fn parse_named(&mut self, name: String) -> (r: Result<(Value, bool), ParseError>)
        requires
            old(self).well_formed(),
        ensures
            starts(r, old(self), final(self), named(old(self).b(), old(self).t(), old(self).i(), name@)),
        decreases 2 * self.limit + 1, self.tokens@.len() - self.index, 9int,
    {
        if self.match_symbol(Symbol::Colon) {
            if self.match_symbol(Symbol::Var) {
                self.expect(Symbol::Dot)?;
                let field = self.consume_identifier()?;
                return Ok((Value::ModuleVar { alias: name, name: field }, true));
            }
            let function = self.consume_identifier()?;
            if !self.matches(Symbol::LParen) {
                return Err(ParseError::Plain(Complaint::ModuleCallExpected));
            }
            let args = self.parse_arguments()?;
            Ok((Value::FunctionCall { object: None, module: Some(name), function, args }, false))
        } else if self.match_symbol(Symbol::Dot) {
            let field = self.consume_identifier()?;
            if self.matches(Symbol::LParen) {
                let args = self.parse_arguments()?;
                return Ok((Value::FunctionCall { object: Some(name), module: None, function: field, args }, false));
            }
            Ok((Value::Variable(scoped_name(name, field)), true))
        } else if self.matches(Symbol::LParen) {
            let args = self.parse_arguments()?;
            Ok((Value::FunctionCall { object: None, module: None, function: name, args }, true))
        } else {
            Ok((Value::Variable(name), true))
        }
    }

    fn parse_fields(&mut self, first: Value) -> (r: Result<Value, ParseError>)
        requires
            old(self).well_formed(),
        ensures
            extends(r, old(self), final(self), fields(old(self).b(), old(self).t(), old(self).i(), first@)),
        decreases 2 * self.limit + 1, self.tokens@.len() - self.index, 5int,
    {
        let ghost was = *self;
        let mut value = first;
        while self.matches(Symbol::Dot)
            invariant
                was == *old(self),
                self.well_formed(),
                self.onward(&was),
                fields(was.b(), was.t(), self.i(), value@) == fields(was.b(), was.t(), was.i(), first@),
            decreases self.tokens@.len() - self.index,
        {
            self.advance();
            let key = self.consume_identifier()?;
            if self.matches(Symbol::LParen) {
                let args = self.parse_arguments()?;
                return match value {
                    Value::Variable(name) => Ok(
                        Value::FunctionCall { object: Some(name), module: None, function: key, args },
                    ),
                    other => Err(ParseError::MethodTarget(other)),
                };
            }
            value = Value::Property { target: Box::new(value), key };
        }
        Ok(value)
    }

    fn parse_indices(&mut self, first: Value) -> (r: Result<Value, ParseError>)
        requires
            old(self).well_formed(),
        ensures
            extends(r, old(self), final(self), indices(old(self).b(), old(self).t(), old(self).i(), first@)),
        decreases 2 * self.limit + 1, self.tokens@.len() - self.index, 5int,
    {
        let ghost was = *self;
        let mut value = first;
        while self.matches(Symbol::LBracket)
            invariant
                was == *old(self),
                self.well_formed(),
                self.onward(&was),
                indices(was.b(), was.t(), self.i(), value@) == indices(was.b(), was.t(), was.i(), first@),
            decreases self.tokens@.len() - self.index,
        {
            self.advance();
            let index = self.parse_value()?;
            self.expect(Symbol::RBracket)?;
            value = Value::Index { target: Box::new(value), index: Box::new(index) };
        }
        Ok(value)
    }

    fn parse_list(&mut self) -> (r: Result<Vec<Value>, ParseError>)
        requires
            old(self).well_formed(),
        ensures
            lists(r, old(self), final(self), list(old(self).b(), old(self).t(), old(self).i(), seq![])),
        decreases 2 * self.limit + 1, self.tokens@.len() - self.index, 81int,
    {
        let ghost was = *self;
        let mut items: Vec<Value> = Vec::new();
        assert(values(items@) =~= seq![]);
        loop
            invariant
                was == *old(self),
                self.well_formed(),
                self.onward(&was),
                list(was.b(), was.t(), self.i(), values(items@)) == list(was.b(), was.t(), was.i(), seq![]),
            decreases self.tokens@.len() - self.index,
        {
            let ghost before = values(items@);
            let value = self.parse_value()?;
            items.push(value);
            assert(values(items@) =~= before.push(value@));
            if !self.match_symbol(Symbol::Comma) {
                return Ok(items);
            }
        }
    }

    fn parse_enclosed(&mut self, open: Symbol, close: Symbol) -> (r: Result<Vec<Value>, ParseError>)
        requires
            old(self).well_formed(),
        ensures
            lists(r, old(self), final(self), enclosed(old(self).b(), old(self).t(), old(self).i(), open, close)),
        decreases 2 * self.limit + 1, self.tokens@.len() - self.index, 6int,
    {
        self.expect(open)?;
        if self.match_symbol(close) {
            let items: Vec<Value> = Vec::new();
            assert(values(items@) =~= seq![]);
            return Ok(items);
        }
        let items = self.parse_list()?;
        self.expect(close)?;
        Ok(items)
    }

    fn parse_arguments(&mut self) -> (r: Result<Vec<Value>, ParseError>)
        requires
            old(self).well_formed(),
        ensures
            lists(r, old(self), final(self), arguments(old(self).b(), old(self).t(), old(self).i())),
        decreases 2 * self.limit + 1, self.tokens@.len() - self.index, 7int,
    {
        self.parse_enclosed(Symbol::LParen, Symbol::RParen)
    }

    fn parse_object_key(&mut self) -> (r: Result<String, ParseError>)
        requires
            old(self).well_formed(),
        ensures
            final(self).well_formed(),
            final(self).onward(old(self)),
            match r {
                Ok(key) => object_key(old(self).t(), old(self).i()) == Ok::<_, ParseErrorModel>(
                    (key@, final(self).i()),
                ),
                Err(e) => object_key(old(self).t(), old(self).i()) == Err::<(Seq<char>, int), _>(e@),
            },
            r is Ok ==> final(self).i() == old(self).i() + 1,
    {
        let key = match self.peek() {
            Some(ScriptToken::StringLiteral(key)) => key.clone(),
            _ => {
                return self.consume_identifier();
            },
        };
        self.advance();
        Ok(key)
    }

    fn parse_object_literal(&mut self) -> (r: Result<Value, ParseError>)
        requires
            old(self).well_formed(),
        ensures
            reads(r, old(self), final(self), object(old(self).b(), old(self).t(), old(self).i())),
        decreases 2 * self.limit + 1, self.tokens@.len() - self.index, 6int,
    {
        self.expect(Symbol::LBrace)?;
        let ghost was = *self;
        let mut o: Vec<(String, Value)> = Vec::new();
        assert(entries(o@) =~= seq![]);
        if self.match_symbol(Symbol::RBrace) {
            return Ok(Value::Object(o));
        }
        loop
            invariant
                self.well_formed(),
                self.onward(&was),
                was.onward(old(self)),
                was.i() == old(self).i() + 1,
                object_entries(was.b(), was.t(), self.i(), entries(o@)) == object_entries(
                    was.b(),
                    was.t(),
                    was.i(),
                    seq![],
                ),
                object(was.b(), was.t(), was.i() - 1) == (match object_entries(was.b(), was.t(), was.i(), seq![]) {
                    Err(e) => Err::<(ValueModel, int), ParseErrorModel>(e),
                    Ok((o, k)) => match expect(was.t(), k, Symbol::RBrace) {
                        Err(e) => Err(e),
                        Ok(l) => Ok((ValueModel::Object(o), l)),
                    },
                }),
            decreases self.tokens@.len() - self.index,
        {
            let key = self.parse_object_key()?;
            self.expect(Symbol::Colon)?;
            let value = self.parse_value()?;
            store(&mut o, key, value);
            if !self.match_symbol(Symbol::Comma) {
                if self.match_symbol(Symbol::RBrace) {
                    return Ok(Value::Object(o));
                }
            }
        }
    }

    fn parse_in_parens(&mut self) -> (r: Result<Value, ParseError>)
        requires
            old(self).well_formed(),
        ensures
            reads(r, old(self), final(self), in_parens(old(self).b(), old(self).t(), old(self).i())),
    {
        self.expect(Symbol::LParen)?;
        let value = self.parse_value()?;
        self.expect(Symbol::RParen)?;
        Ok(value)
    }

    fn block_ends(&self) -> (r: bool)
        requires
            self.well_formed(),
        ensures
            r == block_ends(self.t(), self.i()),
    {
        self.matches(Symbol::RBrace) || self.matches(Symbol::Eof)
    }

    fn parse_block_contents(&mut self) -> (r: Result<Vec<Statement>, ParseError>)
        requires
            old(self).well_formed(),
        ensures
            blocks(r, old(self), final(self), body(old(self).b(), old(self).t(), old(self).i())),
        decreases self.tokens@.len() - self.index, 31int,
    {
        let ghost was = *self;
        let mut done: Vec<Statement> = Vec::new();
        assert(block(done@) =~= seq![]);
        while !self.block_ends()
            invariant
                was == *old(self),
                self.well_formed(),
                self.onward(&was),
                statements(was.b(), was.t(), self.i(), block(done@)) == statements(was.b(), was.t(), was.i(), seq![]),
            decreases self.tokens@.len() - self.index,
        {
            let ghost before = block(done@);
            let s = self.parse_statement()?;
            done.push(s);
            assert(block(done@) =~= before.push(s@));
        }
        self.expect(Symbol::RBrace)?;
        Ok(done)
    }

    fn parse_braced(&mut self) -> (r: Result<Vec<Statement>, ParseError>)
        requires
            old(self).well_formed(),
        ensures
            blocks(r, old(self), final(self), braced(old(self).b(), old(self).t(), old(self).i())),
        decreases self.tokens@.len() - self.index, 10int,
    {
        self.expect(Symbol::LBrace)?;
        self.parse_block_contents()
    }

    fn parse_guarded(&mut self) -> (r: Result<(Value, Vec<Statement>), ParseError>)
        requires
            old(self).well_formed(),
        ensures
            final(self).well_formed(),
            final(self).onward(old(self)),
            match r {
                Ok((v, s)) => guarded(old(self).b(), old(self).t(), old(self).i()) == Ok::<_, ParseErrorModel>(
                    ((v@, block(s@)), final(self).i()),
                ) && old(self).i() < final(self).i(),
                Err(e) => guarded(old(self).b(), old(self).t(), old(self).i()) == Err::<
                    ((ValueModel, Seq<StatementModel>), int),
                    _,
                >(e@),
            },
        decreases self.tokens@.len() - self.index, 11int,
    {
        let condition = self.parse_in_parens()?;
        let body = self.parse_braced()?;
        Ok((condition, body))
    }

    fn parse_statement(&mut self) -> (r: Result<Statement, ParseError>)
        requires
            old(self).well_formed(),
        ensures
            states(r, old(self), final(self), statement(old(self).b(), old(self).t(), old(self).i())),
            r is Ok ==> old(self).i() < final(self).i(),
        decreases self.tokens@.len() - self.index, 20int,
    {
        let first = match self.peek() {
            Some(ScriptToken::Identifier(name)) => {
                let name = name.clone();
                self.advance();
                return self.parse_call_or_event(name);
            },
            Some(ScriptToken::Symbol(m)) => *m,
            _ => {
                return Err(self.wanted(Want::Statement));
            },
        };
        if first == Symbol::Var {
            if self.matches_at(1, Symbol::Local) || self.matches_at(1, Symbol::Global) {
                self.parse_variable_decl()
            } else {
                self.parse_assign_statement()
            }
        } else if first == Symbol::Switch {
            self.parse_switch_statement()
        } else if first == Symbol::Return {
            self.advance();
            let value = self.parse_in_parens()?;
            Ok(Statement::Return { value: Box::new(value) })
        } else if first == Symbol::Declare {
            self.parse_declare_statement()
        } else if first == Symbol::If {
            self.advance();
            self.parse_if_statement()
        } else if first == Symbol::While {
            self.advance();
            let (condition, body) = self.parse_guarded()?;
            Ok(Statement::While { condition, body })
        } else if first == Symbol::For {
            self.parse_for_statement()
        } else if first == Symbol::Break {
            self.advance();
            Ok(Statement::Break)
        } else if first == Symbol::Continue {
            self.advance();
            Ok(Statement::Continue)
        } else if first == Symbol::Try {
            self.parse_try_statement()
        } else if first == Symbol::Throw {
            self.parse_throw_statement()
        } else if first == Symbol::Catch {
            Err(ParseError::Plain(Complaint::CatchOutsideTry))
        } else if first == Symbol::Eof {
            Err(ParseError::Plain(Complaint::UnexpectedEnd))
        } else {
            Err(self.wanted(Want::Statement))
        }
    }

    fn parse_call_or_event(&mut self, name: String) -> (r: Result<Statement, ParseError>)
        requires
            old(self).well_formed(),
        ensures
            states(r, old(self), final(self), call_or_event(old(self).b(), old(self).t(), old(self).i(), name@)),
        decreases self.tokens@.len() - self.index, 12int,
    {
        if self.match_symbol(Symbol::Colon) {
            if self.matches(Symbol::Var) {
                return Err(ParseError::Plain(Complaint::ModuleDataAsStatement));
            }
            let function = self.consume_identifier()?;
            if !self.matches(Symbol::LParen) {
                return Err(ParseError::Plain(Complaint::ModuleCallExpected));
            }
            let args = self.parse_arguments()?;
            Ok(Statement::FunctionCall { object: None, module: Some(name), function, args })
        } else if self.match_symbol(Symbol::Dot) {
            let function = self.consume_identifier()?;
            if self.matches(Symbol::LBrace) {
                let body = self.parse_braced()?;
                return Ok(Statement::Event { object: name, name: function, body });
            }
            let args = self.parse_arguments()?;
            Ok(Statement::FunctionCall { object: Some(name), module: None, function, args })
        } else if self.matches(Symbol::LParen) {
            let args = self.parse_arguments()?;
            Ok(Statement::FunctionCall { object: None, module: None, function: name, args })
        } else {
            Err(self.wanted(Want::Call))
        }
    }

    fn parse_for_statement(&mut self) -> (r: Result<Statement, ParseError>)
        requires
            old(self).well_formed(),
            at(old(self).t(), old(self).i(), Symbol::For),
        ensures
            states(r, old(self), final(self), for_statement(old(self).b(), old(self).t(), old(self).i())),
            r is Ok ==> old(self).i() < final(self).i(),
        decreases self.tokens@.len() - self.index, 19int,
    {
        self.advance();
        self.expect(Symbol::LParen)?;
        let var = self.consume_identifier()?;
        self.expect(Symbol::In)?;
        let iterable = self.parse_value()?;
        self.expect(Symbol::RParen)?;
        let body = self.parse_braced()?;
        Ok(Statement::ForIn { var, iterable, body })
    }

    fn parse_throw_statement(&mut self) -> (r: Result<Statement, ParseError>)
        requires
            old(self).well_formed(),
            at(old(self).t(), old(self).i(), Symbol::Throw),
        ensures
            states(r, old(self), final(self), throw_statement(old(self).b(), old(self).t(), old(self).i())),
            r is Ok ==> old(self).i() < final(self).i(),
    {
        self.advance();
        self.expect(Symbol::LParen)?;
        let error_type = self.consume_identifier()?;
        self.expect(Symbol::Comma)?;
        let message = self.parse_value()?;
        self.expect(Symbol::RParen)?;
        Ok(Statement::Throw { error_type, message: Box::new(message) })
    }

    fn parse_else_ifs(&mut self) -> (r: Result<Vec<(Value, Vec<Statement>)>, ParseError>)
        requires
            old(self).well_formed(),
        ensures
            final(self).well_formed(),
            final(self).onward(old(self)),
            match r {
                Ok(a) => else_ifs(old(self).b(), old(self).t(), old(self).i(), seq![]) == Ok::<_, ParseErrorModel>(
                    (arms(a@), final(self).i()),
                ),
                Err(e) => else_ifs(old(self).b(), old(self).t(), old(self).i(), seq![]) == Err::<
                    (Seq<(ValueModel, Seq<StatementModel>)>, int),
                    _,
                >(e@),
            },
        decreases self.tokens@.len() - self.index, 12int,
    {
        let ghost was = *self;
        let mut done: Vec<(Value, Vec<Statement>)> = Vec::new();
        assert(arms(done@) =~= seq![]);
        while self.matches(Symbol::ElseIf)
            invariant
                was == *old(self),
                self.well_formed(),
                self.onward(&was),
                else_ifs(was.b(), was.t(), self.i(), arms(done@)) == else_ifs(was.b(), was.t(), was.i(), seq![]),
            decreases self.tokens@.len() - self.index,
        {
            let ghost before = arms(done@);
            self.advance();
            let arm = self.parse_guarded()?;
            done.push(arm);
            assert(arms(done@) =~= before.push((arm.0@, block(arm.1@))));
        }
        Ok(done)
    }

    fn parse_if_statement(&mut self) -> (r: Result<Statement, ParseError>)
        requires
            old(self).well_formed(),
        ensures
            states(r, old(self), final(self), if_statement(old(self).b(), old(self).t(), old(self).i())),
        decreases self.tokens@.len() - self.index, 19int,
    {
        let (condition, then_branch) = self.parse_guarded()?;
        let else_if_branches = self.parse_else_ifs()?;
        if self.match_symbol(Symbol::Else) {
            let body = self.parse_braced()?;
            Ok(Statement::If { condition, then_branch, else_if_branches, else_branch: Some(body) })
        } else {
            Ok(Statement::If { condition, then_branch, else_if_branches, else_branch: None })
        }
    }

    fn parse_catch_clause(&mut self) -> (r: Result<CatchClause, ParseError>)
        requires
            old(self).well_formed(),
            at(old(self).t(), old(self).i(), Symbol::Catch),
        ensures
            final(self).well_formed(),
            final(self).onward(old(self)),
            match r {
                Ok(c) => catch_clause(old(self).b(), old(self).t(), old(self).i()) == Ok::<_, ParseErrorModel>(
                    (crate::ast::CatchModel { error_type: c.error_type@, body: block(c.body@) }, final(self).i()),
                ) && old(self).i() < final(self).i(),
                Err(e) => catch_clause(old(self).b(), old(self).t(), old(self).i()) == Err::<
                    (crate::ast::CatchModel, int),
                    _,
                >(e@),
            },
        decreases self.tokens@.len() - self.index, 12int,
    {
        self.advance();
        self.expect(Symbol::LParen)?;
        let error_type = self.consume_identifier()?;
        self.expect(Symbol::RParen)?;
        let body = self.parse_braced()?;
        Ok(CatchClause { error_type, body })
    }

    fn parse_try_statement(&mut self) -> (r: Result<Statement, ParseError>)
        requires
            old(self).well_formed(),
            at(old(self).t(), old(self).i(), Symbol::Try),
        ensures
            states(r, old(self), final(self), statement(old(self).b(), old(self).t(), old(self).i())),
            r is Ok ==> old(self).i() < final(self).i(),
        decreases self.tokens@.len() - self.index, 19int,
    {
        self.advance();
        self.expect(Symbol::LBrace)?;
        let ghost was = *self;
        let mut body: Vec<Statement> = Vec::new();
        let mut catches: Vec<CatchClause> = Vec::new();
        assert(block(body@) =~= seq![]);
        assert(handlers(catches@) =~= seq![]);
        let ghost want = try_items(was.b(), was.t(), was.i(), seq![], seq![]);
        assert(want is Err ==> statement(was.b(), was.t(), old(self).i()) == Err::<(StatementModel, int), _>(want->Err_0));
        while !self.block_ends()
            invariant
                self.well_formed(),
                self.onward(&was),
                was.onward(old(self)),
                was.i() == old(self).i() + 2,
                try_items(was.b(), was.t(), self.i(), block(body@), handlers(catches@)) == want,
                want is Err ==> statement(was.b(), was.t(), old(self).i()) == Err::<(StatementModel, int), _>(
                    want->Err_0,
                ),
            decreases self.tokens@.len() - self.index,
        {
            if self.matches(Symbol::Catch) {
                let ghost before = handlers(catches@);
                let c = self.parse_catch_clause()?;
                catches.push(c);
                assert(handlers(catches@) =~= before.push(
                    crate::ast::CatchModel { error_type: c.error_type@, body: block(c.body@) },
                ));
            } else {
                let ghost before = block(body@);
                let s = self.parse_statement()?;
                body.push(s);
                assert(block(body@) =~= before.push(s@));
            }
        }
        self.expect(Symbol::RBrace)?;
        Ok(Statement::Try { body, catches })
    }

    fn parse_declare_statement(&mut self) -> (r: Result<Statement, ParseError>)
        requires
            old(self).well_formed(),
            at(old(self).t(), old(self).i(), Symbol::Declare),
        ensures
            states(r, old(self), final(self), declare(old(self).t(), old(self).i())),
            r is Ok ==> old(self).i() < final(self).i(),
    {
        self.advance();
        self.expect(Symbol::LParen)?;
        let path = match self.peek() {
            Some(ScriptToken::StringLiteral(path)) => path.clone(),
            _ => {
                return Err(self.wanted(Want::ModulePath));
            },
        };
        self.advance();
        let run = if self.match_symbol(Symbol::Comma) {
            let run = match self.peek() {
                Some(ScriptToken::BoolLiteral(run)) => *run,
                _ => {
                    return Err(self.wanted(Want::RunFlag));
                },
            };
            self.advance();
            run
        } else {
            true
        };
        self.expect(Symbol::RParen)?;
        Ok(Statement::Declare { path, run })
    }

    fn parse_parameter_list(&mut self) -> (r: Result<(Vec<String>, Vec<(String, Value)>), ParseError>)
        requires
            old(self).well_formed(),
        ensures
            final(self).well_formed(),
            final(self).onward(old(self)),
            match r {
                Ok((ps, ds)) => parameters(old(self).b(), old(self).t(), old(self).i()) == Ok::<_, ParseErrorModel>(
                    ((texts(ps@), entries(ds@)), final(self).i()),
                ),
                Err(e) => parameters(old(self).b(), old(self).t(), old(self).i()) == Err::<
                    ((Seq<Seq<char>>, Seq<(Seq<char>, ValueModel)>), int),
                    _,
                >(e@),
            },
    {
        let ghost was = *self;
        let mut params: Vec<String> = Vec::new();
        let mut defaults: Vec<(String, Value)> = Vec::new();
        assert(texts(params@) =~= seq![]);
        assert(entries(defaults@) =~= seq![]);
        if self.matches(Symbol::RParen) {
            return Ok((params, defaults));
        }
        loop
            invariant
                was == *old(self),
                !at(was.t(), was.i(), Symbol::RParen),
                self.well_formed(),
                self.onward(&was),
                parameters_from(was.b(), was.t(), self.i(), texts(params@), entries(defaults@)) == parameters_from(
                    was.b(),
                    was.t(),
                    was.i(),
                    seq![],
                    seq![],
                ),
            decreases self.tokens@.len() - self.index,
        {
            let ghost before = texts(params@);
            let name = self.consume_identifier()?;
            if self.match_symbol(Symbol::Assign) {
                let default = self.parse_value()?;
                store(&mut defaults, name.clone(), default);
            } else if defaults.len() > 0 {
                return Err(ParseError::RequiredParameter(name));
            }
            params.push(name);
            assert(texts(params@) =~= before.push(name@));
            if !self.match_symbol(Symbol::Comma) {
                return Ok((params, defaults));
            }
        }
    }

    /// Reads `(params) {`, or leaves the parser where it stands.
    fn try_function_header(&mut self) -> (r: Option<(Vec<String>, Vec<(String, Value)>)>)
        requires
            old(self).well_formed(),
        ensures
            final(self).well_formed(),
            final(self).onward(old(self)),
            match r {
                Some((ps, ds)) => {
                    &&& function_header(old(self).b(), old(self).t(), old(self).i()) == Ok::<_, ParseErrorModel>(
                        ((texts(ps@), entries(ds@)), final(self).i()),
                    )
                    &&& old(self).i() < final(self).i()
                },
                None => {
                    &&& function_header(old(self).b(), old(self).t(), old(self).i()) is Err
                    &&& *final(self) == *old(self)
                },
            },
    {
        let start: usize = self.index;
        match self.parse_function_header() {
            Ok(header) => Some(header),
            Err(_) => {
                self.index = start;
                None
            },
        }
    }

    fn parse_function_header(&mut self) -> (r: Result<(Vec<String>, Vec<(String, Value)>), ParseError>)
        requires
            old(self).well_formed(),
        ensures
            final(self).well_formed(),
            final(self).onward(old(self)),
            match r {
                Ok((ps, ds)) => {
                    &&& function_header(old(self).b(), old(self).t(), old(self).i()) == Ok::<_, ParseErrorModel>(
                        ((texts(ps@), entries(ds@)), final(self).i()),
                    )
                    &&& old(self).i() < final(self).i()
                },
                Err(e) => function_header(old(self).b(), old(self).t(), old(self).i()) is Err,
            },
    {
        self.expect(Symbol::LParen)?;
        let header = self.parse_parameter_list()?;
        self.expect(Symbol::RParen)?;
        self.expect(Symbol::LBrace)?;
        Ok(header)
    }

    fn parse_initial_value(&mut self) -> (r: Result<Value, ParseError>)
        requires
            old(self).well_formed(),
        ensures
            reads(r, old(self), final(self), initial_value(old(self).b(), old(self).t(), old(self).i())),
        decreases self.tokens@.len() - self.index, 18int,
    {
        match self.try_function_header() {
            Some((params, defaults)) => {
                let body = self.parse_block_contents()?;
                Ok(Value::Function { params, defaults, body })
            },
            None => self.parse_value(),
        }
    }

    fn parse_variable_decl(&mut self) -> (r: Result<Statement, ParseError>)
        requires
            old(self).well_formed(),
            at(old(self).t(), old(self).i(), Symbol::Var),
            at(old(self).t(), old(self).i() + 1, Symbol::Local) || at(old(self).t(), old(self).i() + 1, Symbol::Global),
        ensures
            states(r, old(self), final(self), variable_decl(old(self).b(), old(self).t(), old(self).i())),
            r is Ok ==> old(self).i() < final(self).i(),
        decreases self.tokens@.len() - self.index, 19int,
    {
        self.advance();
        let is_global = self.matches(Symbol::Global);
        self.advance();
        let name = self.consume_identifier()?;
        let declared = self.consume_type_name()?;
        self.expect(Symbol::Assign)?;
        let value = self.parse_initial_value()?;
        if is_global {
            Ok(Statement::GlobalDecl { name, declared, value })
        } else {
            Ok(Statement::VariableDecl { name, declared, value })
        }
    }

    fn parse_target_suffixes(&mut self, first: AssignTarget) -> (r: Result<AssignTarget, ParseError>)
        requires
            old(self).well_formed(),
        ensures
            final(self).well_formed(),
            final(self).onward(old(self)),
            match r {
                Ok(target) => target_suffixes(old(self).b(), old(self).t(), old(self).i(), first@) == Ok::<
                    _,
                    ParseErrorModel,
                >((target@, final(self).i())),
                Err(e) => target_suffixes(old(self).b(), old(self).t(), old(self).i(), first@) == Err::<
                    (TargetModel, int),
                    _,
                >(e@),
            },
    {
        let ghost was = *self;
        let mut target = first;
        loop
            invariant
                was == *old(self),
                self.well_formed(),
                self.onward(&was),
                target_suffixes(was.b(), was.t(), self.i(), target@) == target_suffixes(
                    was.b(),
                    was.t(),
                    was.i(),
                    first@,
                ),
            decreases self.tokens@.len() - self.index,
        {
            if self.match_symbol(Symbol::Dot) {
                let key = self.consume_identifier()?;
                target = AssignTarget::Property { target: Box::new(target), key };
            } else if self.match_symbol(Symbol::LBracket) {
                let index = self.parse_value()?;
                self.expect(Symbol::RBracket)?;
                target = AssignTarget::Index { target: Box::new(target), index: Box::new(index) };
            } else {
                return Ok(target);
            }
        }
    }

    fn parse_assign_statement(&mut self) -> (r: Result<Statement, ParseError>)
        requires
            old(self).well_formed(),
            at(old(self).t(), old(self).i(), Symbol::Var),
        ensures
            states(r, old(self), final(self), assign(old(self).b(), old(self).t(), old(self).i())),
            r is Ok ==> old(self).i() < final(self).i(),
    {
        self.advance();
        self.expect(Symbol::Dot)?;
        let name = self.consume_identifier()?;
        let target = self.parse_target_suffixes(AssignTarget::Var(name))?;
        let op = match self.symbol() {
            Some(Symbol::Assign) => None,
            Some(Symbol::PlusAssign) => Some(BinaryOperator::Add),
            Some(Symbol::MinusAssign) => Some(BinaryOperator::Subtract),
            Some(Symbol::StarAssign) => Some(BinaryOperator::Multiply),
            Some(Symbol::SlashAssign) => Some(BinaryOperator::Divide),
            _ => {
                return Err(self.wanted(Want::AssignmentOperator));
            },
        };
        self.advance();
        let value = self.parse_value()?;
        Ok(Statement::Assign { target, op, value: Box::new(value) })
    }

    fn parse_switch_statement(&mut self) -> (r: Result<Statement, ParseError>)
        requires
            old(self).well_formed(),
            at(old(self).t(), old(self).i(), Symbol::Switch),
        ensures
            states(r, old(self), final(self), switch_statement(old(self).b(), old(self).t(), old(self).i())),
            r is Ok ==> old(self).i() < final(self).i(),
        decreases self.tokens@.len() - self.index, 19int,
    {
        self.advance();
        let scrutinee = self.parse_in_parens()?;
        self.expect(Symbol::LBrace)?;
        let (cases, default) = self.parse_switch_items()?;
        self.expect(Symbol::RBrace)?;
        Ok(Statement::Switch { scrutinee: Box::new(scrutinee), cases, default })
    }

    fn parse_switch_items(&mut self) -> (r: Result<
        (Vec<(Value, Vec<Statement>)>, Option<Vec<Statement>>),
        ParseError,
    >)
        requires
            old(self).well_formed(),
        ensures
            final(self).well_formed(),
            final(self).onward(old(self)),
            match r {
                Ok((cases, default)) => switch_items(old(self).b(), old(self).t(), old(self).i(), seq![], None) == Ok::<
                    _,
                    ParseErrorModel,
                >(((arms(cases@), block_opt(default)), final(self).i())),
                Err(e) => switch_items(old(self).b(), old(self).t(), old(self).i(), seq![], None) == Err::<
                    ((Seq<(ValueModel, Seq<StatementModel>)>, Option<Seq<StatementModel>>), int),
                    _,
                >(e@),
            },
        decreases self.tokens@.len() - self.index, 12int,
    {
        let ghost was = *self;
        let mut cases: Vec<(Value, Vec<Statement>)> = Vec::new();
        let mut default: Option<Vec<Statement>> = None;
        assert(arms(cases@) =~= seq![]);
        while !self.block_ends()
            invariant
                was == *old(self),
                self.well_formed(),
                self.onward(&was),
                switch_items(was.b(), was.t(), self.i(), arms(cases@), block_opt(default)) == switch_items(
                    was.b(),
                    was.t(),
                    was.i(),
                    seq![],
                    None,
                ),
            decreases self.tokens@.len() - self.index,
        {
            if self.match_symbol(Symbol::Case) {
                let ghost before = arms(cases@);
                let arm = self.parse_guarded()?;
                cases.push(arm);
                assert(arms(cases@) =~= before.push((arm.0@, block(arm.1@))));
            } else if self.match_symbol(Symbol::Default) {
                if default.is_some() {
                    return Err(ParseError::Plain(Complaint::DuplicateDefault));
                }
                let body = self.parse_braced()?;
                default = Some(body);
            } else {
                return Err(self.wanted(Want::CaseOrDefault));
            }
        }
        Ok((cases, default))
    }

    fn parse_header(&mut self) -> (r: Result<Header, ParseError>)
        requires
            old(self).well_formed(),
        ensures
            final(self).well_formed(),
            final(self).onward(old(self)),
            match r {
                Ok(h) => header(old(self).t(), old(self).i()) == Ok::<_, ParseErrorModel>((h@, final(self).i())),
                Err(e) => header(old(self).t(), old(self).i()) == Err::<(HeaderModel, int), _>(e@),
            },
    {
        self.expect(Symbol::LBracket)?;
        let script_type = self.consume_identifier()?;
        let language = self.consume_identifier()?;
        match self.peek() {
            Some(ScriptToken::Identifier(name)) => {
                if !same(name.as_str(), "VERSION") {
                    return Err(self.wanted(Want::Version));
                }
            },
            _ => {
                return Err(self.wanted(Want::Version));
            },
        }
        self.advance();
        let version: u64 = match self.peek() {
            Some(ScriptToken::NumberLiteral(n)) => version_of(*n),
            _ => {
                return Err(self.wanted(Want::Number));
            },
        };
        self.advance();
        self.expect(Symbol::RBracket)?;
        Ok(Header { script_type, language, version })
    }
}

/// The version that a number stands for.
fn version_of(n: u64) -> (r: u64)
    ensures
        r == version(n),
{
    if is_nan(n) || n >= SIGN {
        0
    } else if is_finite(n) {
        match find_whole_size(n) {
            Some(w) => w,
            None => u64::MAX,
        }
    } else {
        u64::MAX
    }
}

/// The binary operator of `level` that `m` stands for.
fn operator_of(level: u8, m: Symbol) -> (r: Option<BinaryOperator>)
    ensures
        r == operator(level as int, m),
{
    match (level, m) {
        (0, Symbol::Or) => Some(BinaryOperator::Or),
        (1, Symbol::And) => Some(BinaryOperator::And),
        (2, Symbol::BitOr) => Some(BinaryOperator::BitOr),
        (3, Symbol::BitXor) => Some(BinaryOperator::BitXor),
        (4, Symbol::BitAnd) => Some(BinaryOperator::BitAnd),
        (5, Symbol::Equal) => Some(BinaryOperator::Equal),
        (5, Symbol::StrictEqual) => Some(BinaryOperator::StrictEqual),
        (5, Symbol::NotEqual) => Some(BinaryOperator::NotEqual),
        (5, Symbol::StrictNotEqual) => Some(BinaryOperator::StrictNotEqual),
        (5, Symbol::GreaterThan) => Some(BinaryOperator::Greater),
        (5, Symbol::LessThan) => Some(BinaryOperator::Less),
        (5, Symbol::GreaterEqual) => Some(BinaryOperator::GreaterEqual),
        (5, Symbol::LessEqual) => Some(BinaryOperator::LessEqual),
        (6, Symbol::Shl) => Some(BinaryOperator::Shl),
        (6, Symbol::Shr) => Some(BinaryOperator::Shr),
        (7, Symbol::DotDot) => Some(BinaryOperator::Range),
        (8, Symbol::Plus) => Some(BinaryOperator::Add),
        (8, Symbol::Minus) => Some(BinaryOperator::Subtract),
        (9, Symbol::Asterisk) => Some(BinaryOperator::Multiply),
        (9, Symbol::Slash) => Some(BinaryOperator::Divide),
        _ => None,
    }
}

/// The variable that `name.field` reads where no call follows.
fn scoped_name(name: String, field: String) -> (r: String)
    ensures
        r@ == scoped(name@, field@),
{
    if same(name.as_str(), "arg") {
        "arg.".to_string().concat(field.as_str())
    } else if same(name.as_str(), "var") {
        "var.".to_string().concat(field.as_str())
    } else {
        name.concat(".")
    }
}

/// Whether the characters from `from` up to `to` are all white space.
fn is_all_white(s: &Vec<char>, from: usize, to: usize) -> (r: bool)
    requires
        from <= to <= s@.len(),
    ensures
        r == all_white(s@.subrange(from as int, to as int)),
{
    let ghost inner = s@.subrange(from as int, to as int);
    let mut i: usize = from;
    while i < to
        invariant
            from <= i <= to <= s@.len(),
            inner == s@.subrange(from as int, to as int),
            forall|k: int| 0 <= k < i - from ==> white(#[trigger] inner[k]),
        decreases to - i,
    {
        if !is_white(s[i]) {
            assert(!white(inner[i - from]));
            return false;
        }
        assert(inner[i - from] == s@[i as int]);
        i = i + 1;
    }
    true
}

/// Finds the place behind the brace that closes the one in front of `i`.
fn find_brace_end(s: &Vec<char>, i: usize) -> (r: Option<usize>)
    requires
        0 < i <= s@.len(),
    ensures
        match r {
            Some(j) => brace_end(s@, i as int, 1) == Some(j as int) && i < j <= s@.len(),
            None => brace_end(s@, i as int, 1) is None,
        },
{
    let mut depth: usize = 1;
    let mut j: usize = i;
    while j < s.len() && depth > 0
        invariant
            0 < i <= j <= s@.len(),
            depth <= 1 + j - i,
            depth == 0 ==> i < j,
            brace_end(s@, j as int, depth as int) == brace_end(s@, i as int, 1),
        decreases s@.len() - j,
    {
        if s[j] == '{' {
            depth = depth + 1;
        } else if s[j] == '}' {
            depth = depth - 1;
        }
        j = j + 1;
    }
    if depth == 0 {
        Some(j)
    } else {
        None
    }
}

/// `ps` in front of what the parts of a string give.
spec fn parts_after(ps: Seq<ValueModel>, rest: Result<Seq<ValueModel>, ParseErrorModel>) -> Result<
    Seq<ValueModel>,
    ParseErrorModel,
> {
    match rest {
        Ok(more) => Ok(ps + more),
        Err(e) => Err(e),
    }
}

/// Adds the literal stretch to the parts, unless it is empty.
fn flush(parts: &mut Vec<Value>, literal: String)
    ensures
        values(final(parts)@) == values(old(parts)@) + stretch(literal@),
{
    let ghost before = values(parts@);
    if !literal.as_str().is_empty() {
        parts.push(Value::String(literal));
        assert(values(parts@) =~= before + stretch(literal@));
    } else {
        assert(values(parts@) =~= before + stretch(literal@));
    }
}

/// The value of the expression between the braces of an interpolation.
fn parse_inner(inner: String, len: usize) -> (r: Result<Value, ParseError>)
    requires
        len == inner@.len(),
    ensures
        match r {
            Ok(v) => scan(inner@) matches Ok(t) && expression(inner@.len(), t, 0) matches Ok((w, k)) && w == v@ && at(
                t,
                k,
                Symbol::Eof,
            ),
            Err(e) => match scan(inner@) {
                Err(s) => e@ == ParseErrorModel::Scan(s),
                Ok(t) => match expression(inner@.len(), t, 0) {
                    Err(x) => e@ == x,
                    Ok((w, k)) => !at(t, k, Symbol::Eof) && e@ == ParseErrorModel::BadInterpolation(inner@),
                },
            },
        },
    decreases 2 * len + 2, 0int, 0int,
{
    let tokens = match tokenize(inner.as_str()) {
        Ok(tokens) => tokens,
        Err(e) => {
            return Err(ParseError::Scan(e));
        },
    };
    proof {
        lemma_scan_literals(inner@);
    }
    let mut parser = Parser::new(tokens, len);
    let value = parser.parse_value()?;
    if parser.is_at_end() {
        Ok(value)
    } else {
        Err(ParseError::BadInterpolation(inner))
    }
}

/// `"hello ${var.name}!"` stands for `"hello " + var.name + "!"`.
fn desugar_interpolated_string(raw: &str, limit: usize) -> (r: Result<Value, ParseError>)
    requires
        raw@.len() <= limit,
    ensures
        match r {
            Ok(v) => interpolated(raw@) == Ok::<_, ParseErrorModel>(v@),
            Err(e) => interpolated(raw@) == Err::<ValueModel, _>(e@),
        },
    decreases 2 * raw@.len(), 0int, 0int,
{
    let s = chars_of(raw);
    let mut ps: Vec<Value> = Vec::new();
    let mut literal: String = String::new();
    let mut i: usize = 0;
    proof {
        assert(values(ps@) =~= seq![]);
        assert(literal@ =~= seq![]);
        if let Ok(more) = parts(s@, 0, seq![]) {
            assert(values(ps@) + more =~= more);
        }
    }
    while i < s.len()
        invariant
            i <= s@.len(),
            s@ == raw@,
            raw@.len() <= limit,
            parts_after(values(ps@), parts(s@, i as int, literal@)) == parts(s@, 0, seq![]),
        decreases s@.len() - i,
    {
        if s[i] == '$' && s.len() - i > 1 && s[i + 1] == '{' {
            let ghost before = values(ps@);
            let ghost lit = literal@;
            let j = match find_brace_end(&s, i + 2) {
                Some(j) => j,
                None => {
                    return Err(ParseError::Plain(Complaint::UnclosedInterpolation));
                },
            };
            if is_all_white(&s, i + 2, j - 1) {
                return Err(ParseError::Plain(Complaint::EmptyInterpolation));
            }
            let inner = string_of(&s, i + 2, j - 1);
            let value = parse_inner(inner, j - i - 3)?;
            flush(&mut ps, literal);
            let ghost flushed = values(ps@);
            ps.push(value);
            literal = String::new();
            proof {
                assert(values(ps@) =~= before + stretch(lit) + seq![value@]);
                assert(literal@ =~= seq![]);
                if let Ok(more) = parts(s@, j as int, seq![]) {
                    assert(values(ps@) + more =~= before + (stretch(lit) + seq![value@] + more));
                }
            }
            i = j;
        } else {
            literal.push(s[i]);
            i = i + 1;
        }
    }
    flush(&mut ps, literal);
    if ps.len() == 0 {
        let empty = String::new();
        assert(empty@ =~= seq![]);
        return Ok(Value::String(empty));
    }
    Ok(add_up(ps))
}

/// The sum of the parts, from the left.
fn add_up(ps: Vec<Value>) -> (r: Value)
    requires
        ps@.len() > 0,
    ensures
        r@ == sum(values(ps@), ps@.len() as int),
{
    let mut r = ps[0].copy();
    let mut n: usize = 1;
    while n < ps.len()
        invariant
            1 <= n <= ps@.len(),
            r@ == sum(values(ps@), n as int),
        decreases ps@.len() - n,
    {
        r = Value::Binary { left: Box::new(r), op: BinaryOperator::Add, right: Box::new(ps[n].copy()) };
        n = n + 1;
    }
    r
}

/// Whether a `declare` stands in the block.
fn nested_in_block(items: &Vec<Statement>) -> (r: bool)
    ensures
        r == block_declares(block(items@)),
    decreases items,
{
    let ghost model = block(items@);
    let mut i: usize = 0;
    while i < items.len()
        invariant
            i <= items@.len(),
            model == block(items@),
            forall|k: int| 0 <= k < i ==> !declares(#[trigger] model[k]),
        decreases items@.len() - i,
    {
        if nested_declare(&items[i]) {
            assert(declares(model[i as int]));
            return true;
        }
        i = i + 1;
    }
    false
}

/// Whether a `declare` stands in a block of the arms.
fn nested_in_arms(items: &Vec<(Value, Vec<Statement>)>) -> (r: bool)
    ensures
        r == arms_declare(arms(items@)),
    decreases items,
{
    let ghost model = arms(items@);
    let mut i: usize = 0;
    while i < items.len()
        invariant
            i <= items@.len(),
            model == arms(items@),
            forall|k: int| 0 <= k < i ==> !block_declares((#[trigger] model[k]).1),
        decreases items@.len() - i,
    {
        if nested_in_block(&items[i].1) {
            assert(block_declares((model[i as int]).1));
            return true;
        }
        i = i + 1;
    }
    false
}

/// Whether a `declare` stands in a guard of the arms.
fn nested_in_guards(items: &Vec<(Value, Vec<Statement>)>) -> (r: bool)
    ensures
        r == guards_declare(arms(items@)),
    decreases items,
{
    let ghost model = arms(items@);
    let mut i: usize = 0;
    while i < items.len()
        invariant
            i <= items@.len(),
            model == arms(items@),
            forall|k: int| 0 <= k < i ==> !value_declares((#[trigger] model[k]).0),
        decreases items@.len() - i,
    {
        if nested_in_value(&items[i].0) {
            assert(value_declares((model[i as int]).0));
            return true;
        }
        i = i + 1;
    }
    false
}

/// Whether a `declare` stands in a catch clause.
fn nested_in_catches(items: &Vec<CatchClause>) -> (r: bool)
    ensures
        r == catches_declare(handlers(items@)),
    decreases items,
{
    let ghost model = handlers(items@);
    let mut i: usize = 0;
    while i < items.len()
        invariant
            i <= items@.len(),
            model == handlers(items@),
            forall|k: int| 0 <= k < i ==> !block_declares((#[trigger] model[k]).body),
        decreases items@.len() - i,
    {
        if nested_in_block(&items[i].body) {
            assert(block_declares((model[i as int]).body));
            return true;
        }
        i = i + 1;
    }
    false
}

/// Whether a `declare` stands in one of the values.
fn nested_in_values(items: &Vec<Value>) -> (r: bool)
    ensures
        r == values_declare(values(items@)),
    decreases items,
{
    let ghost model = values(items@);
    let mut i: usize = 0;
    while i < items.len()
        invariant
            i <= items@.len(),
            model == values(items@),
            forall|k: int| 0 <= k < i ==> !value_declares(#[trigger] model[k]),
        decreases items@.len() - i,
    {
        if nested_in_value(&items[i]) {
            assert(value_declares(model[i as int]));
            return true;
        }
        i = i + 1;
    }
    false
}

/// Whether a `declare` stands in one of the entries.
fn nested_in_entries(items: &Vec<(String, Value)>) -> (r: bool)
    ensures
        r == entries_declare(entries(items@)),
    decreases items,
{
    let ghost model = entries(items@);
    let mut i: usize = 0;
    while i < items.len()
        invariant
            i <= items@.len(),
            model == entries(items@),
            forall|k: int| 0 <= k < i ==> !value_declares((#[trigger] model[k]).1),
        decreases items@.len() - i,
    {
        if nested_in_value(&items[i].1) {
            assert(value_declares((model[i as int]).1));
            return true;
        }
        i = i + 1;
    }
    false
}

/// Whether the statement is a `declare` or has one inside.
fn nested_declare(s: &Statement) -> (r: bool)
    ensures
        r == declares(s@),
    decreases s,
{
    match s {
        Statement::Declare { .. } => true,
        Statement::VariableDecl { value, .. } => nested_in_value(value),
        Statement::GlobalDecl { value, .. } => nested_in_value(value),
        Statement::Event { body, .. } => nested_in_block(body),
        Statement::If { then_branch, else_if_branches, else_branch, .. } => {
            nested_in_block(then_branch) || nested_in_arms(else_if_branches) || match else_branch {
                Some(body) => nested_in_block(body),
                None => false,
            }
        },
        Statement::While { body, .. } => nested_in_block(body),
        Statement::ForIn { body, .. } => nested_in_block(body),
        Statement::Assign { target, value, .. } => nested_in_target(target) || nested_in_value(value),
        Statement::Switch { scrutinee, cases, default } => {
            nested_in_value(scrutinee) || nested_in_guards(cases) || nested_in_arms(cases) || match default {
                Some(body) => nested_in_block(body),
                None => false,
            }
        },
        Statement::Try { body, catches } => nested_in_block(body) || nested_in_catches(catches),
        _ => false,
    }
}

fn nested_in_target(t: &AssignTarget) -> (r: bool)
    ensures
        r == target_declares(t@),
    decreases t,
{
    match t {
        AssignTarget::Var(_) => false,
        AssignTarget::Property { target, .. } => nested_in_target(target),
        AssignTarget::Index { target, index } => nested_in_target(target) || nested_in_value(index),
    }
}

/// Whether a `declare` stands in a function body inside the value.
fn nested_in_value(v: &Value) -> (r: bool)
    ensures
        r == value_declares(v@),
    decreases v,
{
    match v {
        Value::Function { body, .. } => nested_in_block(body),
        Value::Array(items) => nested_in_values(items),
        Value::Object(items) => nested_in_entries(items),
        Value::Binary { left, right, .. } => nested_in_value(left) || nested_in_value(right),
        Value::Unary { value, .. } => nested_in_value(value),
        Value::Property { target, .. } => nested_in_value(target),
        Value::Index { target, .. } => nested_in_value(target),
        Value::FunctionCall { args, .. } => nested_in_values(args),
        _ => false,
    }
}

/// Whether every `declare` stands at the top level.
fn validate_top_level_declares(s: &Vec<Statement>) -> (r: bool)
    ensures
        r == declares_at_top(block(s@)),
{
    let ghost model = block(s@);
    let mut i: usize = 0;
    while i < s.len()
        invariant
            i <= s@.len(),
            model == block(s@),
            forall|k: int| 0 <= k < i ==> (#[trigger] model[k]) is Declare || !declares(model[k]),
        decreases s@.len() - i,
    {
        let top = match &s[i] {
            Statement::Declare { .. } => true,
            other => !nested_declare(other),
        };
        if !top {
            assert(!(model[i as int] is Declare) && declares(model[i as int]));
            return false;
        }
        i = i + 1;
    }
    true
}

} // verus!