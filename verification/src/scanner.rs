//! The tokens of the scripting language: what the parser takes the tokens of a text as.

use crate::lexer::{read_tokens, tokens_from, views, ScanError, Token, TokenView};
use crate::numeral::{nearest, numeral, read_whole};
use crate::text::{chars_of, same};
use vstd::prelude::*;

verus! {

/// Marks and keywords: tokens that carry nothing but themselves.
#[derive(Debug, PartialEq, Eq, Clone, Copy, Structural)]
pub enum Symbol {
    LBracket,
    RBracket,
    LBrace,
    RBrace,
    LParen,
    RParen,
    Comma,
    Colon,
    Semicolon,
    Arrow,
    Dot,
    DotDot,
    Null,
    Var,
    Local,
    Global,
    Switch,
    Case,
    Default,
    Return,
    Declare,
    If,
    ElseIf,
    Else,
    While,
    For,
    In,
    Break,
    Continue,
    Try,
    Throw,
    Catch,
    Function,
    StringType,
    NumberType,
    LogicType,
    ArrayType,
    ObjectType,
    Or,
    And,
    Not,
    BitOr,
    BitXor,
    BitAnd,
    BitNot,
    Equal,
    StrictEqual,
    NotEqual,
    StrictNotEqual,
    GreaterThan,
    LessThan,
    GreaterEqual,
    LessEqual,
    Shl,
    Shr,
    Plus,
    Minus,
    Asterisk,
    Slash,
    Assign,
    PlusAssign,
    MinusAssign,
    StarAssign,
    SlashAssign,
    Eof,
}

/// A token as the parser takes it. A number is held as the bits of a binary64 number.
#[derive(Debug, PartialEq, Clone)]
pub enum ScriptToken {
    Symbol(Symbol),
    Identifier(String),
    StringLiteral(String),
    NumberLiteral(u64),
    BoolLiteral(bool),
}

#[verifier::ext_equal]
pub enum ScriptTokenModel {
    Symbol(Symbol),
    Identifier(Seq<char>),
    StringLiteral(Seq<char>),
    NumberLiteral(u64),
    BoolLiteral(bool),
}

impl ScriptToken {
    pub open spec fn view(&self) -> ScriptTokenModel {
        match *self {
            ScriptToken::Symbol(m) => ScriptTokenModel::Symbol(m),
            ScriptToken::Identifier(s) => ScriptTokenModel::Identifier(s@),
            ScriptToken::StringLiteral(s) => ScriptTokenModel::StringLiteral(s@),
            ScriptToken::NumberLiteral(n) => ScriptTokenModel::NumberLiteral(n),
            ScriptToken::BoolLiteral(b) => ScriptTokenModel::BoolLiteral(b),
        }
    }

    /// A copy of the token.
    pub fn copy(&self) -> (r: ScriptToken)
        ensures
            r@ == self@,
    {
        match self {
            ScriptToken::Symbol(m) => ScriptToken::Symbol(*m),
            ScriptToken::Identifier(s) => ScriptToken::Identifier(s.clone()),
            ScriptToken::StringLiteral(s) => ScriptToken::StringLiteral(s.clone()),
            ScriptToken::NumberLiteral(n) => ScriptToken::NumberLiteral(*n),
            ScriptToken::BoolLiteral(b) => ScriptToken::BoolLiteral(*b),
        }
    }
}

pub open spec fn token_models(tokens: Seq<ScriptToken>) -> Seq<ScriptTokenModel> {
    Seq::new(tokens.len(), |i: int| tokens[i]@)
}
/// What a word stands for: a keyword, a truth value or an identifier.
pub open spec fn word(w: Seq<char>) -> ScriptTokenModel {
    if w == "true"@ {
        ScriptTokenModel::BoolLiteral(true)
    } else if w == "false"@ {
        ScriptTokenModel::BoolLiteral(false)
    } else {
        match keyword(w) {
            Some(m) => ScriptTokenModel::Symbol(m),
            None => ScriptTokenModel::Identifier(w),
        }
    }
}

/// The keyword that a word is.
pub open spec fn keyword(w: Seq<char>) -> Option<Symbol> {
    if w == "null"@ {
        Some(Symbol::Null)
    } else if w == "var"@ {
        Some(Symbol::Var)
    } else if w == "local"@ {
        Some(Symbol::Local)
    } else if w == "global"@ {
        Some(Symbol::Global)
    } else if w == "switch"@ {
        Some(Symbol::Switch)
    } else if w == "case"@ {
        Some(Symbol::Case)
    } else if w == "default"@ {
        Some(Symbol::Default)
    } else if w == "return"@ {
        Some(Symbol::Return)
    } else if w == "declare"@ {
        Some(Symbol::Declare)
    } else if w == "if"@ {
        Some(Symbol::If)
    } else if w == "elseif"@ {
        Some(Symbol::ElseIf)
    } else if w == "else"@ {
        Some(Symbol::Else)
    } else if w == "while"@ {
        Some(Symbol::While)
    } else if w == "for"@ {
        Some(Symbol::For)
    } else if w == "in"@ {
        Some(Symbol::In)
    } else if w == "break"@ {
        Some(Symbol::Break)
    } else if w == "continue"@ {
        Some(Symbol::Continue)
    } else if w == "try"@ {
        Some(Symbol::Try)
    } else if w == "throw"@ {
        Some(Symbol::Throw)
    } else if w == "catch"@ {
        Some(Symbol::Catch)
    } else if w == "function"@ {
        Some(Symbol::Function)
    } else if w == "string"@ {
        Some(Symbol::StringType)
    } else if w == "number"@ {
        Some(Symbol::NumberType)
    } else if w == "logic"@ {
        Some(Symbol::LogicType)
    } else if w == "array"@ {
        Some(Symbol::ArrayType)
    } else if w == "object"@ {
        Some(Symbol::ObjectType)
    } else if w == "or"@ {
        Some(Symbol::Or)
    } else if w == "and"@ {
        Some(Symbol::And)
    } else if w == "not"@ {
        Some(Symbol::Not)
    } else {
        None
    }
}
/// What a token is to the parser. The types of the core syntax are names here, but for
/// the minus sign.
pub open spec fn reading(t: TokenView) -> ScriptTokenModel {
    match t {
        TokenView::Let => ScriptTokenModel::Identifier("let"@),
        TokenView::Fn => ScriptTokenModel::Identifier("fn"@),
        TokenView::Identifier(w) => word(w),
        TokenView::Number(n) => ScriptTokenModel::NumberLiteral(nearest(n as nat, 0)),
        TokenView::Assign => ScriptTokenModel::Symbol(Symbol::Assign),
        TokenView::Semicolon => ScriptTokenModel::Symbol(Symbol::Semicolon),
        TokenView::LParen => ScriptTokenModel::Symbol(Symbol::LParen),
        TokenView::RParen => ScriptTokenModel::Symbol(Symbol::RParen),
        TokenView::Comma => ScriptTokenModel::Symbol(Symbol::Comma),
        TokenView::Arrow => ScriptTokenModel::Symbol(Symbol::Arrow),
        TokenView::Type(w) => if w == "-"@ {
            ScriptTokenModel::Symbol(Symbol::Minus)
        } else {
            ScriptTokenModel::Identifier(w)
        },
        TokenView::LBrace => ScriptTokenModel::Symbol(Symbol::LBrace),
        TokenView::RBrace => ScriptTokenModel::Symbol(Symbol::RBrace),
        TokenView::Plus => ScriptTokenModel::Symbol(Symbol::Plus),
        TokenView::Eof => ScriptTokenModel::Symbol(Symbol::Eof),
        TokenView::LBracket => ScriptTokenModel::Symbol(Symbol::LBracket),
        TokenView::RBracket => ScriptTokenModel::Symbol(Symbol::RBracket),
        TokenView::Colon => ScriptTokenModel::Symbol(Symbol::Colon),
        TokenView::Dot => ScriptTokenModel::Symbol(Symbol::Dot),
        TokenView::DotDot => ScriptTokenModel::Symbol(Symbol::DotDot),
        TokenView::BitOr => ScriptTokenModel::Symbol(Symbol::BitOr),
        TokenView::BitXor => ScriptTokenModel::Symbol(Symbol::BitXor),
        TokenView::BitAnd => ScriptTokenModel::Symbol(Symbol::BitAnd),
        TokenView::BitNot => ScriptTokenModel::Symbol(Symbol::BitNot),
        TokenView::Not => ScriptTokenModel::Symbol(Symbol::Not),
        TokenView::Equal => ScriptTokenModel::Symbol(Symbol::Equal),
        TokenView::StrictEqual => ScriptTokenModel::Symbol(Symbol::StrictEqual),
        TokenView::NotEqual => ScriptTokenModel::Symbol(Symbol::NotEqual),
        TokenView::StrictNotEqual => ScriptTokenModel::Symbol(Symbol::StrictNotEqual),
        TokenView::GreaterThan => ScriptTokenModel::Symbol(Symbol::GreaterThan),
        TokenView::LessThan => ScriptTokenModel::Symbol(Symbol::LessThan),
        TokenView::GreaterEqual => ScriptTokenModel::Symbol(Symbol::GreaterEqual),
        TokenView::LessEqual => ScriptTokenModel::Symbol(Symbol::LessEqual),
        TokenView::Shl => ScriptTokenModel::Symbol(Symbol::Shl),
        TokenView::Shr => ScriptTokenModel::Symbol(Symbol::Shr),
        TokenView::PlusAssign => ScriptTokenModel::Symbol(Symbol::PlusAssign),
        TokenView::MinusAssign => ScriptTokenModel::Symbol(Symbol::MinusAssign),
        TokenView::StarAssign => ScriptTokenModel::Symbol(Symbol::StarAssign),
        TokenView::SlashAssign => ScriptTokenModel::Symbol(Symbol::SlashAssign),
        TokenView::Asterisk => ScriptTokenModel::Symbol(Symbol::Asterisk),
        TokenView::Slash => ScriptTokenModel::Symbol(Symbol::Slash),
        TokenView::StringLiteral(x) => ScriptTokenModel::StringLiteral(x),
        TokenView::NumberLiteral(x) => ScriptTokenModel::NumberLiteral(x),
    }
}

/// What tokens are to the parser.
pub open spec fn readings(tokens: Seq<TokenView>) -> Seq<ScriptTokenModel> {
    Seq::new(tokens.len(), |i: int| reading(tokens[i]))
}

/// The tokens of a text.
pub open spec fn scan(s: Seq<char>) -> Result<Seq<ScriptTokenModel>, ScanError> {
    match tokens_from(s, 0) {
        Ok(tokens) => Ok(readings(tokens)),
        Err(e) => Err(e),
    }
}

fn scan_keyword(w: &str) -> (r: Option<Symbol>)
    ensures
        r == keyword(w@),
{
    if same(w, "null") {
        Some(Symbol::Null)
    } else if same(w, "var") {
        Some(Symbol::Var)
    } else if same(w, "local") {
        Some(Symbol::Local)
    } else if same(w, "global") {
        Some(Symbol::Global)
    } else if same(w, "switch") {
        Some(Symbol::Switch)
    } else if same(w, "case") {
        Some(Symbol::Case)
    } else if same(w, "default") {
        Some(Symbol::Default)
    } else if same(w, "return") {
        Some(Symbol::Return)
    } else if same(w, "declare") {
        Some(Symbol::Declare)
    } else if same(w, "if") {
        Some(Symbol::If)
    } else if same(w, "elseif") {
        Some(Symbol::ElseIf)
    } else if same(w, "else") {
        Some(Symbol::Else)
    } else if same(w, "while") {
        Some(Symbol::While)
    } else if same(w, "for") {
        Some(Symbol::For)
    } else if same(w, "in") {
        Some(Symbol::In)
    } else if same(w, "break") {
        Some(Symbol::Break)
    } else if same(w, "continue") {
        Some(Symbol::Continue)
    } else if same(w, "try") {
        Some(Symbol::Try)
    } else if same(w, "throw") {
        Some(Symbol::Throw)
    } else if same(w, "catch") {
        Some(Symbol::Catch)
    } else if same(w, "function") {
        Some(Symbol::Function)
    } else if same(w, "string") {
        Some(Symbol::StringType)
    } else if same(w, "number") {
        Some(Symbol::NumberType)
    } else if same(w, "logic") {
        Some(Symbol::LogicType)
    } else if same(w, "array") {
        Some(Symbol::ArrayType)
    } else if same(w, "object") {
        Some(Symbol::ObjectType)
    } else if same(w, "or") {
        Some(Symbol::Or)
    } else if same(w, "and") {
        Some(Symbol::And)
    } else if same(w, "not") {
        Some(Symbol::Not)
    } else {
        None
    }
}

fn read_word(w: String) -> (r: ScriptToken)
    ensures
        r@ == word(w@),
{
    if same(w.as_str(), "true") {
        ScriptToken::BoolLiteral(true)
    } else if same(w.as_str(), "false") {
        ScriptToken::BoolLiteral(false)
    } else {
        match scan_keyword(w.as_str()) {
            Some(m) => ScriptToken::Symbol(m),
            None => ScriptToken::Identifier(w),
        }
    }
}
/// What a token is to the parser.
fn read_token(t: Token) -> (r: ScriptToken)
    requires
        t@ matches TokenView::Number(n) ==> n >= 0,
    ensures
        r@ == reading(t@),
{
    match t {
        Token::Let => ScriptToken::Identifier("let".to_string()),
        Token::Fn => ScriptToken::Identifier("fn".to_string()),
        Token::Identifier(w) => read_word(w),
        Token::Number(n) => ScriptToken::NumberLiteral(read_whole(n as u64)),
        Token::Assign => ScriptToken::Symbol(Symbol::Assign),
        Token::Semicolon => ScriptToken::Symbol(Symbol::Semicolon),
        Token::LParen => ScriptToken::Symbol(Symbol::LParen),
        Token::RParen => ScriptToken::Symbol(Symbol::RParen),
        Token::Comma => ScriptToken::Symbol(Symbol::Comma),
        Token::Arrow => ScriptToken::Symbol(Symbol::Arrow),
        Token::Type(w) => if same(w.as_str(), "-") {
            ScriptToken::Symbol(Symbol::Minus)
        } else {
            ScriptToken::Identifier(w)
        },
        Token::LBrace => ScriptToken::Symbol(Symbol::LBrace),
        Token::RBrace => ScriptToken::Symbol(Symbol::RBrace),
        Token::Plus => ScriptToken::Symbol(Symbol::Plus),
        Token::Eof => ScriptToken::Symbol(Symbol::Eof),
        Token::LBracket => ScriptToken::Symbol(Symbol::LBracket),
        Token::RBracket => ScriptToken::Symbol(Symbol::RBracket),
        Token::Colon => ScriptToken::Symbol(Symbol::Colon),
        Token::Dot => ScriptToken::Symbol(Symbol::Dot),
        Token::DotDot => ScriptToken::Symbol(Symbol::DotDot),
        Token::BitOr => ScriptToken::Symbol(Symbol::BitOr),
        Token::BitXor => ScriptToken::Symbol(Symbol::BitXor),
        Token::BitAnd => ScriptToken::Symbol(Symbol::BitAnd),
        Token::BitNot => ScriptToken::Symbol(Symbol::BitNot),
        Token::Not => ScriptToken::Symbol(Symbol::Not),
        Token::Equal => ScriptToken::Symbol(Symbol::Equal),
        Token::StrictEqual => ScriptToken::Symbol(Symbol::StrictEqual),
        Token::NotEqual => ScriptToken::Symbol(Symbol::NotEqual),
        Token::StrictNotEqual => ScriptToken::Symbol(Symbol::StrictNotEqual),
        Token::GreaterThan => ScriptToken::Symbol(Symbol::GreaterThan),
        Token::LessThan => ScriptToken::Symbol(Symbol::LessThan),
        Token::GreaterEqual => ScriptToken::Symbol(Symbol::GreaterEqual),
        Token::LessEqual => ScriptToken::Symbol(Symbol::LessEqual),
        Token::Shl => ScriptToken::Symbol(Symbol::Shl),
        Token::Shr => ScriptToken::Symbol(Symbol::Shr),
        Token::PlusAssign => ScriptToken::Symbol(Symbol::PlusAssign),
        Token::MinusAssign => ScriptToken::Symbol(Symbol::MinusAssign),
        Token::StarAssign => ScriptToken::Symbol(Symbol::StarAssign),
        Token::SlashAssign => ScriptToken::Symbol(Symbol::SlashAssign),
        Token::Asterisk => ScriptToken::Symbol(Symbol::Asterisk),
        Token::Slash => ScriptToken::Symbol(Symbol::Slash),
        Token::StringLiteral(x) => ScriptToken::StringLiteral(x),
        Token::NumberLiteral(x) => ScriptToken::NumberLiteral(x),
    }
}

/// Whether no number among the tokens is negative.
spec fn unsigned(tokens: Seq<TokenView>) -> bool {
    forall|i: int| #![trigger tokens[i]] 0 <= i < tokens.len() ==> (tokens[i] matches TokenView::Number(n) ==> n >= 0)
}

proof fn lemma_unsigned(s: Seq<char>, i: int)
    ensures
        tokens_from(s, i) matches Ok(t) ==> unsigned(t),
    decreases s.len() - i,
{
    if 0 <= i < s.len() {
        if let Ok((t, j)) = crate::lexer::lex_one(s, i) {
            if i < j <= s.len() {
                lemma_unsigned(s, j);
                assert(t matches Some(TokenView::Number(n)) ==> n >= 0);
            }
        }
    }
}

/// Reads a text as tokens, with the end mark behind them.
pub fn tokenize(source: &str) -> (r: Result<Vec<ScriptToken>, ScanError>)
    ensures
        match r {
            Ok(tokens) => scan(source@) == Ok::<_, ScanError>(token_models(tokens@)),
            Err(e) => scan(source@) == Err::<Seq<ScriptTokenModel>, _>(e),
        },
{
    let s = chars_of(source);
    let mut rest: Vec<Token> = match read_tokens(&s, 0) {
        Ok(tokens) => tokens,
        Err(e) => {
            return Err(e);
        },
    };
    let ghost all = rest@;
    let mut back: Vec<ScriptToken> = Vec::new();
    proof {
        lemma_unsigned(s@, 0);
    }
    while rest.len() > 0
        invariant
            rest@ == all.take(rest@.len() as int),
            rest@.len() + back@.len() == all.len(),
            unsigned(views(all)),
            forall|i: int| 0 <= i < back@.len() ==> (#[trigger] back@[i])@ == reading(all[all.len() - 1 - i]@),
        decreases rest@.len(),
    {
        proof {
            assert(views(all)[rest@.len() - 1] == all[rest@.len() - 1]@);
        }
        if let Some(t) = rest.pop() {
            back.push(read_token(t));
        }
    }
    let mut tokens: Vec<ScriptToken> = Vec::new();
    let ghost turned = back@;
    while back.len() > 0
        invariant
            back@ == turned.take(back@.len() as int),
            back@.len() + tokens@.len() == turned.len() == all.len(),
            forall|i: int| 0 <= i < turned.len() ==> (#[trigger] turned[i])@ == reading(all[all.len() - 1 - i]@),
            forall|i: int| 0 <= i < tokens@.len() ==> (#[trigger] tokens@[i])@ == reading(all[i]@),
        decreases back@.len(),
    {
        if let Some(t) = back.pop() {
            tokens.push(t);
        }
    }
    assert(token_models(tokens@) =~= readings(views(all)));
    Ok(tokens)
}

/// A numeral is to the parser the number that it writes down, whole or not.
pub proof fn numerals_are_numbers(text: Seq<char>)
    requires
        text.len() > 0,
    ensures
        reading(crate::lexer::number_token(text)) == ScriptTokenModel::NumberLiteral(numeral(text)),
{
}

} // verus!
