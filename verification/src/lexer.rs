//! The lexer: the tokens of a text.
//!
//! Comments run from `//` to the end of the line, or from `.//` to `//.`.

use crate::numeral::{numeral, read_numeral};
use crate::text::{
    chars_of, decimal, digit, digits_end, find_digits_end, find_name_end, is_digit, is_name_start, lemma_decimal_prefix,
    lemma_digits_end, lemma_name_end, name_end, name_start, same, string_of,
};
use vstd::prelude::*;

verus! {

/// A token. A whole number is a `Number` where it fits in 64 bits; any other numeral is a
/// `NumberLiteral` with the bits of its number. The minus sign is the type `-`.
#[derive(Debug, PartialEq, Clone)]
pub enum Token {
    Let,
    Fn,
    Identifier(String),
    Number(i64),
    Assign,
    Semicolon,
    LParen,
    RParen,
    Comma,
    Arrow,
    Type(String),
    LBrace,
    RBrace,
    Plus,
    Eof,
    LBracket,
    RBracket,
    Colon,
    Dot,
    DotDot,
    BitOr,
    BitXor,
    BitAnd,
    BitNot,
    Not,
    Equal,
    StrictEqual,
    NotEqual,
    StrictNotEqual,
    GreaterThan,
    LessThan,
    GreaterEqual,
    LessEqual,
    Shl,
    Shr,
    PlusAssign,
    MinusAssign,
    StarAssign,
    SlashAssign,
    Asterisk,
    Slash,
    StringLiteral(String),
    NumberLiteral(u64),
}

/// A token as a mathematical value.
#[verifier::ext_equal]
pub enum TokenView {
    Let,
    Fn,
    Identifier(Seq<char>),
    Number(int),
    Assign,
    Semicolon,
    LParen,
    RParen,
    Comma,
    Arrow,
    Type(Seq<char>),
    LBrace,
    RBrace,
    Plus,
    Eof,
    LBracket,
    RBracket,
    Colon,
    Dot,
    DotDot,
    BitOr,
    BitXor,
    BitAnd,
    BitNot,
    Not,
    Equal,
    StrictEqual,
    NotEqual,
    StrictNotEqual,
    GreaterThan,
    LessThan,
    GreaterEqual,
    LessEqual,
    Shl,
    Shr,
    PlusAssign,
    MinusAssign,
    StarAssign,
    SlashAssign,
    Asterisk,
    Slash,
    StringLiteral(Seq<char>),
    NumberLiteral(u64),
}

impl View for Token {
    type V = TokenView;

    open spec fn view(&self) -> TokenView {
        match *self {
            Token::Let => TokenView::Let,
            Token::Fn => TokenView::Fn,
            Token::Identifier(s) => TokenView::Identifier(s@),
            Token::Number(n) => TokenView::Number(n as int),
            Token::Assign => TokenView::Assign,
            Token::Semicolon => TokenView::Semicolon,
            Token::LParen => TokenView::LParen,
            Token::RParen => TokenView::RParen,
            Token::Comma => TokenView::Comma,
            Token::Arrow => TokenView::Arrow,
            Token::Type(s) => TokenView::Type(s@),
            Token::LBrace => TokenView::LBrace,
            Token::RBrace => TokenView::RBrace,
            Token::Plus => TokenView::Plus,
            Token::Eof => TokenView::Eof,
            Token::LBracket => TokenView::LBracket,
            Token::RBracket => TokenView::RBracket,
            Token::Colon => TokenView::Colon,
            Token::Dot => TokenView::Dot,
            Token::DotDot => TokenView::DotDot,
            Token::BitOr => TokenView::BitOr,
            Token::BitXor => TokenView::BitXor,
            Token::BitAnd => TokenView::BitAnd,
            Token::BitNot => TokenView::BitNot,
            Token::Not => TokenView::Not,
            Token::Equal => TokenView::Equal,
            Token::StrictEqual => TokenView::StrictEqual,
            Token::NotEqual => TokenView::NotEqual,
            Token::StrictNotEqual => TokenView::StrictNotEqual,
            Token::GreaterThan => TokenView::GreaterThan,
            Token::LessThan => TokenView::LessThan,
            Token::GreaterEqual => TokenView::GreaterEqual,
            Token::LessEqual => TokenView::LessEqual,
            Token::Shl => TokenView::Shl,
            Token::Shr => TokenView::Shr,
            Token::PlusAssign => TokenView::PlusAssign,
            Token::MinusAssign => TokenView::MinusAssign,
            Token::StarAssign => TokenView::StarAssign,
            Token::SlashAssign => TokenView::SlashAssign,
            Token::Asterisk => TokenView::Asterisk,
            Token::Slash => TokenView::Slash,
            Token::StringLiteral(s) => TokenView::StringLiteral(s@),
            Token::NumberLiteral(n) => TokenView::NumberLiteral(n),
        }
    }
}

/// The tokens in `tokens` as mathematical values.
pub open spec fn views(tokens: Seq<Token>) -> Seq<TokenView> {
    Seq::new(tokens.len(), |i: int| tokens[i]@)
}

/// Why a text is no sequence of tokens.
#[derive(Debug, PartialEq, Eq, Clone, Copy, Structural)]
pub enum ScanError {
    UnexpectedCharacter(char),
    UnclosedString,
    UnclosedComment,
}

/// The character at `i`, or NUL past the end of the text.
pub open spec fn char_at(s: Seq<char>, i: int) -> char {
    if 0 <= i < s.len() {
        s[i]
    } else {
        '\0'
    }
}

pub open spec fn blank(c: char) -> bool {
    c == ' ' || c == '\n' || c == '\r' || c == '\t'
}

/// The mark that the characters `a`, `b`, `c` start with, and its length.
pub open spec fn mark(a: char, b: char, c: char) -> Option<(TokenView, int)> {
    if a == '=' && b == '=' && c == '=' {
        Some((TokenView::StrictEqual, 3))
    } else if a == '!' && b == '=' && c == '=' {
        Some((TokenView::StrictNotEqual, 3))
    } else if a == '-' && b == '>' {
        Some((TokenView::Arrow, 2))
    } else if a == '=' && b == '=' {
        Some((TokenView::Equal, 2))
    } else if a == '!' && b == '=' {
        Some((TokenView::NotEqual, 2))
    } else if a == '>' && b == '=' {
        Some((TokenView::GreaterEqual, 2))
    } else if a == '<' && b == '=' {
        Some((TokenView::LessEqual, 2))
    } else if a == '<' && b == '<' {
        Some((TokenView::Shl, 2))
    } else if a == '>' && b == '>' {
        Some((TokenView::Shr, 2))
    } else if a == '+' && b == '=' {
        Some((TokenView::PlusAssign, 2))
    } else if a == '-' && b == '=' {
        Some((TokenView::MinusAssign, 2))
    } else if a == '*' && b == '=' {
        Some((TokenView::StarAssign, 2))
    } else if a == '/' && b == '=' {
        Some((TokenView::SlashAssign, 2))
    } else if a == '.' && b == '.' {
        Some((TokenView::DotDot, 2))
    } else {
        match single_mark(a) {
            Some(m) => Some((m, 1)),
            None => None,
        }
    }
}

/// The mark that one character is.
pub open spec fn single_mark(a: char) -> Option<TokenView> {
    if a == '-' {
        Some(TokenView::Type("-"@))
    } else if a == '[' {
        Some(TokenView::LBracket)
    } else if a == ']' {
        Some(TokenView::RBracket)
    } else if a == '{' {
        Some(TokenView::LBrace)
    } else if a == '}' {
        Some(TokenView::RBrace)
    } else if a == '(' {
        Some(TokenView::LParen)
    } else if a == ')' {
        Some(TokenView::RParen)
    } else if a == ',' {
        Some(TokenView::Comma)
    } else if a == ':' {
        Some(TokenView::Colon)
    } else if a == ';' {
        Some(TokenView::Semicolon)
    } else if a == '.' {
        Some(TokenView::Dot)
    } else if a == '|' {
        Some(TokenView::BitOr)
    } else if a == '^' {
        Some(TokenView::BitXor)
    } else if a == '&' {
        Some(TokenView::BitAnd)
    } else if a == '~' {
        Some(TokenView::BitNot)
    } else if a == '!' {
        Some(TokenView::Not)
    } else if a == '>' {
        Some(TokenView::GreaterThan)
    } else if a == '<' {
        Some(TokenView::LessThan)
    } else if a == '+' {
        Some(TokenView::Plus)
    } else if a == '*' {
        Some(TokenView::Asterisk)
    } else if a == '/' {
        Some(TokenView::Slash)
    } else if a == '=' {
        Some(TokenView::Assign)
    } else {
        None
    }
}

/// What a word stands for: a keyword, a type or an identifier.
pub open spec fn word(name: Seq<char>) -> TokenView {
    if name == "let"@ {
        TokenView::Let
    } else if name == "fn"@ {
        TokenView::Fn
    } else if name == "int"@ || name == "float"@ || name == "str"@ || name == "bool"@ {
        TokenView::Type(name)
    } else {
        TokenView::Identifier(name)
    }
}

/// What the character behind a backslash stands for; one that stands for
/// nothing special keeps its backslash.
pub open spec fn escape(c: char) -> Seq<char> {
    if c == 'n' {
        seq!['\n']
    } else if c == 't' {
        seq!['\t']
    } else if c == 'r' {
        seq!['\r']
    } else if c == '"' || c == '\\' {
        seq![c]
    } else {
        seq!['\\', c]
    }
}

/// The text of the string whose inside starts at `i`, and where the string
/// ends; none if it is never closed.
pub open spec fn string_body(s: Seq<char>, i: int) -> Option<(Seq<char>, int)>
    decreases s.len() - i,
{
    if i < 0 || i >= s.len() {
        None
    } else if s[i] == '"' {
        Some((seq![], i + 1))
    } else if s[i] == '\\' && i + 1 < s.len() {
        match string_body(s, i + 2) {
            Some((rest, end)) => Some((escape(s[i + 1]) + rest, end)),
            None => None,
        }
    } else {
        match string_body(s, i + 1) {
            Some((rest, end)) => Some((seq![s[i]] + rest, end)),
            None => None,
        }
    }
}

/// Where the line that holds `i` ends.
pub open spec fn line_end(s: Seq<char>, i: int) -> int
    decreases s.len() - i,
{
    if 0 <= i < s.len() && s[i] != '\n' {
        line_end(s, i + 1)
    } else {
        i
    }
}

/// The place behind the first `//.` at or after `i`.
pub open spec fn comment_end(s: Seq<char>, i: int) -> Option<int>
    decreases s.len() - i,
{
    if i < 0 || i >= s.len() {
        None
    } else if s[i] == '/' && char_at(s, i + 1) == '/' && char_at(s, i + 2) == '.' {
        Some(i + 3)
    } else {
        comment_end(s, i + 1)
    }
}

/// Where the number that starts at `i` ends: digits, and a fraction if a digit
/// stands behind the point.
pub open spec fn number_end(s: Seq<char>, i: int) -> int {
    let e = digits_end(s, i);
    if char_at(s, e) == '.' && digit(char_at(s, e + 1)) {
        digits_end(s, e + 1)
    } else {
        e
    }
}

/// The token that a numeral is.
pub open spec fn number_token(text: Seq<char>) -> TokenView {
    if digits_end(text, 0) == text.len() && decimal(text) <= i64::MAX {
        TokenView::Number(decimal(text) as int)
    } else {
        TokenView::NumberLiteral(numeral(text))
    }
}

/// The token at `i`, if there is one and not a blank or a comment, and the
/// place behind it.
pub open spec fn lex_one(s: Seq<char>, i: int) -> Result<(Option<TokenView>, int), ScanError> {
    let a = char_at(s, i);
    let b = char_at(s, i + 1);
    let c = char_at(s, i + 2);
    if blank(a) {
        Ok((None, i + 1))
    } else if a == '/' && b == '/' {
        Ok((None, line_end(s, i)))
    } else if a == '.' && b == '/' && c == '/' {
        match comment_end(s, i + 3) {
            Some(e) => Ok((None, e)),
            None => Err(ScanError::UnclosedComment),
        }
    } else if a == '"' {
        match string_body(s, i + 1) {
            Some((text, e)) => Ok((Some(TokenView::StringLiteral(text)), e)),
            None => Err(ScanError::UnclosedString),
        }
    } else if digit(a) {
        Ok((Some(number_token(s.subrange(i, number_end(s, i)))), number_end(s, i)))
    } else if name_start(a) {
        Ok((Some(word(s.subrange(i, name_end(s, i)))), name_end(s, i)))
    } else {
        match mark(a, b, c) {
            Some((m, n)) => Ok((Some(m), i + n)),
            None => Err(ScanError::UnexpectedCharacter(a)),
        }
    }
}

/// `tokens` in front of what a scan gives.
pub open spec fn after(
    tokens: Seq<TokenView>,
    rest: Result<Seq<TokenView>, ScanError>,
) -> Result<Seq<TokenView>, ScanError> {
    match rest {
        Ok(more) => Ok(tokens + more),
        Err(e) => Err(e),
    }
}

/// A token, if there is one, as a sequence.
pub open spec fn at_most_one(t: Option<TokenView>) -> Seq<TokenView> {
    match t {
        Some(token) => seq![token],
        None => seq![],
    }
}

/// The tokens of the text from `i` on, with the end mark behind them.
pub open spec fn tokens_from(s: Seq<char>, i: int) -> Result<Seq<TokenView>, ScanError>
    decreases s.len() - i,
{
    if 0 <= i < s.len() {
        match lex_one(s, i) {
            Err(e) => Err(e),
            Ok((t, j)) => if i < j <= s.len() {
                after(at_most_one(t), tokens_from(s, j))
            } else {
                Ok(seq![])
            },
        }
    } else {
        Ok(seq![TokenView::Eof])
    }
}

fn read_single_mark(a: char) -> (r: Option<Token>)
    ensures
        match r {
            Some(m) => single_mark(a) == Some(m@),
            None => single_mark(a) is None,
        },
{
    if a == '-' {
        Some(Token::Type("-".to_string()))
    } else if a == '[' {
        Some(Token::LBracket)
    } else if a == ']' {
        Some(Token::RBracket)
    } else if a == '{' {
        Some(Token::LBrace)
    } else if a == '}' {
        Some(Token::RBrace)
    } else if a == '(' {
        Some(Token::LParen)
    } else if a == ')' {
        Some(Token::RParen)
    } else if a == ',' {
        Some(Token::Comma)
    } else if a == ':' {
        Some(Token::Colon)
    } else if a == ';' {
        Some(Token::Semicolon)
    } else if a == '.' {
        Some(Token::Dot)
    } else if a == '|' {
        Some(Token::BitOr)
    } else if a == '^' {
        Some(Token::BitXor)
    } else if a == '&' {
        Some(Token::BitAnd)
    } else if a == '~' {
        Some(Token::BitNot)
    } else if a == '!' {
        Some(Token::Not)
    } else if a == '>' {
        Some(Token::GreaterThan)
    } else if a == '<' {
        Some(Token::LessThan)
    } else if a == '+' {
        Some(Token::Plus)
    } else if a == '*' {
        Some(Token::Asterisk)
    } else if a == '/' {
        Some(Token::Slash)
    } else if a == '=' {
        Some(Token::Assign)
    } else {
        None
    }
}

fn read_mark(a: char, b: char, c: char) -> (r: Option<(Token, usize)>)
    ensures
        match r {
            Some((m, n)) => mark(a, b, c) == Some((m@, n as int)) && 1 <= n <= 3,
            None => mark(a, b, c) is None,
        },
{
    if a == '=' && b == '=' && c == '=' {
        Some((Token::StrictEqual, 3))
    } else if a == '!' && b == '=' && c == '=' {
        Some((Token::StrictNotEqual, 3))
    } else if a == '-' && b == '>' {
        Some((Token::Arrow, 2))
    } else if a == '=' && b == '=' {
        Some((Token::Equal, 2))
    } else if a == '!' && b == '=' {
        Some((Token::NotEqual, 2))
    } else if a == '>' && b == '=' {
        Some((Token::GreaterEqual, 2))
    } else if a == '<' && b == '=' {
        Some((Token::LessEqual, 2))
    } else if a == '<' && b == '<' {
        Some((Token::Shl, 2))
    } else if a == '>' && b == '>' {
        Some((Token::Shr, 2))
    } else if a == '+' && b == '=' {
        Some((Token::PlusAssign, 2))
    } else if a == '-' && b == '=' {
        Some((Token::MinusAssign, 2))
    } else if a == '*' && b == '=' {
        Some((Token::StarAssign, 2))
    } else if a == '/' && b == '=' {
        Some((Token::SlashAssign, 2))
    } else if a == '.' && b == '.' {
        Some((Token::DotDot, 2))
    } else {
        match read_single_mark(a) {
            Some(m) => Some((m, 1)),
            None => None,
        }
    }
}

/// What a word stands for: a keyword, a type or an identifier.
fn keyword(ident: String) -> (r: Token)
    ensures
        r@ == word(ident@),
{
    if same(ident.as_str(), "let") {
        Token::Let
    } else if same(ident.as_str(), "fn") {
        Token::Fn
    } else if same(ident.as_str(), "int") || same(ident.as_str(), "float") || same(ident.as_str(), "str")
        || same(ident.as_str(), "bool") {
        Token::Type(ident)
    } else {
        Token::Identifier(ident)
    }
}

fn peek_at(s: &Vec<char>, i: usize, ahead: usize) -> (r: char)
    requires
        i <= s@.len(),
    ensures
        r == char_at(s@, i + ahead),
{
    if ahead < s.len() - i {
        s[i + ahead]
    } else {
        '\0'
    }
}

fn find_line_end(s: &Vec<char>, i: usize) -> (r: usize)
    requires
        i <= s@.len(),
    ensures
        r == line_end(s@, i as int),
        i <= r <= s@.len(),
        i < s@.len() && s@[i as int] != '\n' ==> i < r,
{
    let mut j: usize = i;
    while j < s.len() && s[j] != '\n'
        invariant
            i <= j <= s@.len(),
            line_end(s@, j as int) == line_end(s@, i as int),
        decreases s@.len() - j,
    {
        j = j + 1;
    }
    j
}

fn find_comment_end(s: &Vec<char>, i: usize) -> (r: Option<usize>)
    requires
        i <= s@.len(),
    ensures
        match r {
            Some(e) => comment_end(s@, i as int) == Some(e as int) && i < e <= s@.len(),
            None => comment_end(s@, i as int) is None,
        },
{
    let mut j: usize = i;
    while j < s.len()
        invariant
            i <= j <= s@.len(),
            comment_end(s@, j as int) == comment_end(s@, i as int),
        decreases s@.len() - j,
    {
        if s[j] == '/' && peek_at(s, j, 1) == '/' && peek_at(s, j, 2) == '.' {
            return Some(j + 3);
        }
        j = j + 1;
    }
    None
}

/// `text` in front of what a string body gives.
spec fn body_after(text: Seq<char>, rest: Option<(Seq<char>, int)>) -> Option<(Seq<char>, int)> {
    match rest {
        Some((more, end)) => Some((text + more, end)),
        None => None,
    }
}

fn read_string(s: &Vec<char>, i: usize) -> (r: Option<(String, usize)>)
    requires
        i <= s@.len(),
    ensures
        match r {
            Some((text, e)) => string_body(s@, i as int) == Some((text@, e as int)) && i < e <= s@.len(),
            None => string_body(s@, i as int) is None,
        },
{
    let mut text: String = String::new();
    let mut j: usize = i;
    assert(body_after(text@, string_body(s@, i as int)) =~= string_body(s@, i as int));
    while j < s.len()
        invariant
            i <= j <= s@.len(),
            body_after(text@, string_body(s@, j as int)) == string_body(s@, i as int),
        decreases s@.len() - j,
    {
        let ghost before = text@;
        let c = s[j];
        if c == '"' {
            assert(before + Seq::<char>::empty() =~= before);
            return Some((text, j + 1));
        } else if c == '\\' && s.len() - j > 1 {
            let e = s[j + 1];
            if e == 'n' {
                text.push('\n');
            } else if e == 't' {
                text.push('\t');
            } else if e == 'r' {
                text.push('\r');
            } else if e == '"' || e == '\\' {
                text.push(e);
            } else {
                text.push('\\');
                text.push(e);
            }
            proof {
                assert(text@ =~= before + escape(e));
                if let Some((rest, end)) = string_body(s@, j + 2) {
                    assert(text@ + rest =~= before + (escape(e) + rest));
                }
            }
            j = j + 2;
        } else {
            text.push(c);
            proof {
                if let Some((rest, end)) = string_body(s@, j + 1) {
                    assert(text@ + rest =~= before + (seq![c] + rest));
                }
            }
            j = j + 1;
        }
    }
    None
}

fn find_number_end(s: &Vec<char>, i: usize) -> (r: usize)
    requires
        i < s@.len(),
        digit(s@[i as int]),
    ensures
        r == number_end(s@, i as int),
        i < r <= s@.len(),
        digits_end(s@, i as int) <= r,
        forall|k: int| i <= k < r && k != digits_end(s@, i as int) ==> digit(#[trigger] s@[k]),
{
    proof {
        lemma_digits_end(s@, i as int);
    }
    let _len: usize = s.len();
    let e: usize = find_digits_end(s, i);
    if peek_at(s, e, 0) == '.' && is_digit(peek_at(s, e, 1)) {
        proof {
            lemma_digits_end(s@, e + 1);
        }
        find_digits_end(s, e + 1)
    } else {
        e
    }
}

/// The digits of a part of a text end where those of the text do, or with the part.
proof fn lemma_digits_within(s: Seq<char>, i: int, j: int, end: int)
    requires
        0 <= i <= j <= end <= s.len(),
        digits_end(s, j) <= end,
    ensures
        digits_end(s.subrange(i, end), j - i) == digits_end(s, j) - i,
    decreases end - j,
{
    lemma_digits_end(s, j);
    if j < end && digit(s[j]) {
        lemma_digits_within(s, i, j + 1, end);
    }
}

/// Reads a run of digits that stands for at most `i64::MAX`.
fn read_digits(text: &Vec<char>) -> (r: Option<i64>)
    requires
        forall|k: int| 0 <= k < text@.len() ==> digit(#[trigger] text@[k]),
    ensures
        match r {
            Some(n) => n == decimal(text@),
            None => decimal(text@) > i64::MAX,
        },
{
    let mut value: i64 = 0;
    let mut i: usize = 0;
    while i < text.len()
        invariant
            i <= text@.len(),
            forall|k: int| 0 <= k < text@.len() ==> digit(#[trigger] text@[k]),
            0 <= value == decimal(text@.take(i as int)),
        decreases text@.len() - i,
    {
        let d: i64 = (text[i] as u32 - '0' as u32) as i64;
        proof {
            assert(text@.take(i + 1).drop_last() =~= text@.take(i as int));
            lemma_decimal_prefix(text@, i + 1);
        }
        if value > (i64::MAX - d) / 10 {
            return None;
        }
        value = value * 10 + d;
        i = i + 1;
    }
    assert(text@.take(i as int) =~= text@);
    Some(value)
}

fn read_number(s: &Vec<char>, i: usize) -> (r: (Token, usize))
    requires
        i < s@.len(),
        digit(s@[i as int]),
    ensures
        r.1 == number_end(s@, i as int),
        i < r.1 <= s@.len(),
        r.0@ == number_token(s@.subrange(i as int, r.1 as int)),
{
    let end: usize = find_number_end(s, i);
    let ghost text = s@.subrange(i as int, end as int);
    let mut part: Vec<char> = Vec::new();
    let mut j: usize = i;
    while j < end
        invariant
            i <= j <= end <= s@.len(),
            part@ == s@.subrange(i as int, j as int),
        decreases end - j,
    {
        part.push(s[j]);
        j = j + 1;
    }
    let whole: usize = find_digits_end(&part, 0);
    proof {
        lemma_digits_end(s@, i as int);
        lemma_digits_within(s@, i as int, i as int, end as int);
        assert forall|k: int| 0 <= k < part@.len() && k != digits_end(part@, 0) implies digit(#[trigger] part@[k]) by {
            assert(part@[k] == s@[i + k]);
        }
    }
    if whole == part.len() {
        if let Some(n) = read_digits(&part) {
            return (Token::Number(n), end);
        }
    }
    (Token::NumberLiteral(read_numeral(&part)), end)
}

/// Reads the token at `i`, if there is one and not a blank or a comment.
fn read_one(s: &Vec<char>, i: usize) -> (r: Result<(Option<Token>, usize), ScanError>)
    requires
        i < s@.len(),
    ensures
        match r {
            Ok((t, j)) => {
                &&& lex_one(s@, i as int) == Ok::<_, ScanError>(
                    (
                        match t {
                            Some(token) => Some(token@),
                            None => None,
                        },
                        j as int,
                    ),
                )
                &&& i < j <= s@.len()
            },
            Err(e) => lex_one(s@, i as int) == Err::<(Option<TokenView>, int), _>(e),
        },
{
    let _len: usize = s.len();
    let a = peek_at(s, i, 0);
    let b = peek_at(s, i, 1);
    let c = peek_at(s, i, 2);
    if a == ' ' || a == '\n' || a == '\r' || a == '\t' {
        Ok((None, i + 1))
    } else if a == '/' && b == '/' {
        Ok((None, find_line_end(s, i)))
    } else if a == '.' && b == '/' && c == '/' {
        match find_comment_end(s, i + 3) {
            Some(e) => Ok((None, e)),
            None => Err(ScanError::UnclosedComment),
        }
    } else if a == '"' {
        match read_string(s, i + 1) {
            Some((text, e)) => Ok((Some(Token::StringLiteral(text)), e)),
            None => Err(ScanError::UnclosedString),
        }
    } else if is_digit(a) {
        let (token, e) = read_number(s, i);
        Ok((Some(token), e))
    } else if is_name_start(a) {
        proof {
            lemma_name_end(s@, i as int);
        }
        let e: usize = find_name_end(s, i);
        Ok((Some(keyword(string_of(s, i, e))), e))
    } else {
        match read_mark(a, b, c) {
            Some((m, n)) => Ok((Some(m), i + n)),
            None => Err(ScanError::UnexpectedCharacter(a)),
        }
    }
}

/// Reads the text from `start` on as tokens, with the end mark behind them.
pub fn read_tokens(s: &Vec<char>, start: usize) -> (r: Result<Vec<Token>, ScanError>)
    requires
        start <= s@.len(),
    ensures
        match r {
            Ok(tokens) => tokens_from(s@, start as int) == Ok::<_, ScanError>(views(tokens@)),
            Err(e) => tokens_from(s@, start as int) == Err::<Seq<TokenView>, _>(e),
        },
{
    let mut tokens: Vec<Token> = Vec::new();
    let mut i: usize = start;
    assert(after(views(tokens@), tokens_from(s@, start as int)) =~= tokens_from(s@, start as int)) by {
        if let Ok(more) = tokens_from(s@, start as int) {
            assert(views(tokens@) + more =~= more);
        }
    }
    while i < s.len()
        invariant
            i <= s@.len(),
            after(views(tokens@), tokens_from(s@, i as int)) == tokens_from(s@, start as int),
        decreases s@.len() - i,
    {
        let ghost before = tokens@;
        match read_one(s, i) {
            Err(e) => {
                return Err(e);
            },
            Ok((t, j)) => {
                match t {
                    Some(token) => {
                        tokens.push(token);
                        proof {
                            assert(views(tokens@) =~= views(before).push(token@));
                            if let Ok(more) = tokens_from(s@, j as int) {
                                assert(views(tokens@) + more =~= views(before) + (seq![token@] + more));
                            }
                        }
                    },
                    None => {
                        proof {
                            if let Ok(more) = tokens_from(s@, j as int) {
                                assert(Seq::<TokenView>::empty() + more =~= more);
                            }
                        }
                    },
                }
                i = j;
            },
        }
    }
    let ghost before = tokens@;
    tokens.push(Token::Eof);
    proof {
        assert(views(tokens@) =~= views(before) + seq![TokenView::Eof]);
    }
    Ok(tokens)
}

#[derive(Debug, Clone)]
pub struct Lexer {
    source: Vec<char>,
    position: usize,
}

impl Lexer {
    /// The text that is being read.
    pub closed spec fn text(&self) -> Seq<char> {
        self.source@
    }

    /// How much of the text has been read.
    pub closed spec fn at(&self) -> int {
        self.position as int
    }

    pub open spec fn well_formed(&self) -> bool {
        0 <= self.at() <= self.text().len()
    }

    pub fn new(source: &str) -> (r: Self)
        ensures
            r.well_formed(),
            r.text() == source@,
            r.at() == 0,
    {
        Self { source: chars_of(source), position: 0 }
    }

    /// Reads the rest of the text, which has to be made of tokens.
    pub fn tokenize(&mut self) -> (tokens: Vec<Token>)
        requires
            old(self).well_formed(),
            tokens_from(old(self).text(), old(self).at()) is Ok,
        ensures
            final(self).well_formed(),
            final(self).text() == old(self).text(),
            final(self).at() == old(self).text().len(),
            tokens_from(old(self).text(), old(self).at()) == Ok::<_, ScanError>(views(tokens@)),
    {
        let tokens = match read_tokens(&self.source, self.position) {
            Ok(tokens) => tokens,
            Err(_) => Vec::new(),
        };
        self.position = self.source.len();
        tokens
    }
}

/// The tokens of a text always close with the end mark.
pub proof fn tokens_end_with_eof(s: Seq<char>, i: int)
    requires
        tokens_from(s, i) is Ok,
    ensures
        tokens_from(s, i)->Ok_0.len() > 0,
        tokens_from(s, i)->Ok_0.last() == TokenView::Eof,
    decreases s.len() - i,
{
    if 0 <= i < s.len() {
        lemma_forward(s, i);
        let (t, j) = lex_one(s, i)->Ok_0;
        tokens_end_with_eof(s, j);
    }
}

/// A token takes up some of the text, and no more than there is.
pub proof fn lemma_forward(s: Seq<char>, i: int)
    requires
        0 <= i < s.len(),
    ensures
        lex_one(s, i) matches Ok((t, j)) ==> i < j <= s.len(),
{
    lemma_digits_end(s, i);
    lemma_name_end(s, i);
    let e = digits_end(s, i);
    if e + 1 < s.len() {
        lemma_digits_end(s, e + 1);
    }
    lemma_line_end(s, i);
    if i + 3 <= s.len() {
        lemma_comment_end(s, i + 3);
    }
    lemma_string_body(s, i + 1);
}

proof fn lemma_line_end(s: Seq<char>, i: int)
    requires
        0 <= i <= s.len(),
    ensures
        i <= line_end(s, i) <= s.len(),
        i < s.len() && s[i] != '\n' ==> i < line_end(s, i),
        line_end(s, i) < s.len() ==> s[line_end(s, i)] == '\n',
    decreases s.len() - i,
{
    if i < s.len() && s[i] != '\n' {
        lemma_line_end(s, i + 1);
    }
}

proof fn lemma_comment_end(s: Seq<char>, i: int)
    requires
        0 <= i <= s.len(),
    ensures
        comment_end(s, i) matches Some(e) ==> i < e <= s.len(),
    decreases s.len() - i,
{
    if i < s.len() {
        lemma_comment_end(s, i + 1);
    }
}

/// A string is closed within the text, and stands for no more characters than it is
/// written with.
pub proof fn lemma_string_body(s: Seq<char>, i: int)
    requires
        0 <= i,
    ensures
        string_body(s, i) matches Some((text, e)) ==> text.len() < e - i && e <= s.len(),
    decreases s.len() - i,
{
    if i < s.len() {
        lemma_string_body(s, i + 1);
        if i + 1 < s.len() {
            lemma_string_body(s, i + 2);
        }
    }
}

/// Places count from the start of the text: nothing depends on what stands in front.
proof fn lemma_parts_shift(front: Seq<char>, b: Seq<char>, j: int)
    requires
        0 <= j,
    ensures
        name_end(front + b, front.len() + j) == front.len() + name_end(b, j),
        digits_end(front + b, front.len() + j) == front.len() + digits_end(b, j),
        line_end(front + b, front.len() + j) == front.len() + line_end(b, j),
        match comment_end(b, j) {
            Some(e) => comment_end(front + b, front.len() + j) == Some(front.len() + e),
            None => comment_end(front + b, front.len() + j) is None,
        },
        match string_body(b, j) {
            Some((text, e)) => string_body(front + b, front.len() + j) == Some((text, front.len() + e)),
            None => string_body(front + b, front.len() + j) is None,
        },
    decreases b.len() - j,
{
    if j < b.len() {
        let w = front + b;
        let k = front.len() + j;
        assert(w[k] == b[j]);
        assert(char_at(w, k + 1) == char_at(b, j + 1));
        assert(char_at(w, k + 2) == char_at(b, j + 2));
        lemma_parts_shift(front, b, j + 1);
        if j + 1 < b.len() {
            lemma_parts_shift(front, b, j + 2);
        }
    }
}

proof fn lemma_one_shift(front: Seq<char>, b: Seq<char>, j: int)
    requires
        0 <= j < b.len(),
    ensures
        match lex_one(b, j) {
            Ok((t, e)) => lex_one(front + b, front.len() + j) == Ok::<_, ScanError>((t, front.len() + e)),
            Err(e) => lex_one(front + b, front.len() + j) == Err::<(Option<TokenView>, int), _>(e),
        },
{
    let w = front + b;
    let k = front.len() + j;
    assert(char_at(w, k) == char_at(b, j));
    assert(char_at(w, k + 1) == char_at(b, j + 1));
    assert(char_at(w, k + 2) == char_at(b, j + 2));
    lemma_parts_shift(front, b, j);
    lemma_parts_shift(front, b, j + 1);
    lemma_parts_shift(front, b, j + 3);
    lemma_digits_end(b, j);
    lemma_name_end(b, j);
    let e = digits_end(b, j);
    assert(char_at(w, front.len() + e) == char_at(b, e));
    assert(char_at(w, front.len() + e + 1) == char_at(b, e + 1));
    lemma_parts_shift(front, b, e + 1);
    if digit(b[j]) {
        let f = number_end(b, j);
        if e + 1 < b.len() {
            lemma_digits_end(b, e + 1);
        }
        assert(number_end(w, k) == front.len() + f);
        assert(w.subrange(k, front.len() + f) =~= b.subrange(j, f));
    } else if name_start(b[j]) {
        let f = name_end(b, j);
        assert(w.subrange(k, front.len() + f) =~= b.subrange(j, f));
    }
}

/// Tokens do not depend on what stands in front of them.
proof fn lemma_tokens_shift(front: Seq<char>, b: Seq<char>, j: int)
    requires
        0 <= j <= b.len(),
    ensures
        tokens_from(front + b, front.len() + j) == tokens_from(b, j),
    decreases b.len() - j,
{
    if j < b.len() {
        lemma_one_shift(front, b, j);
        lemma_forward(b, j);
        if let Ok((t, e)) = lex_one(b, j) {
            lemma_tokens_shift(front, b, e);
        }
    }
}

/// What is closed in front of a blank does not depend on what stands behind it.
proof fn lemma_parts_before(a: Seq<char>, c: char, b: Seq<char>, i: int)
    requires
        0 <= i <= a.len(),
        blank(c),
    ensures
        name_end(a + seq![c] + b, i) == name_end(a, i),
        digits_end(a + seq![c] + b, i) == digits_end(a, i),
        c == '\n' || line_end(a, i) < a.len() ==> line_end(a + seq![c] + b, i) == line_end(a, i),
        comment_end(a, i) is Some ==> comment_end(a + seq![c] + b, i) == comment_end(a, i),
        string_body(a, i) is Some ==> string_body(a + seq![c] + b, i) == string_body(a, i),
    decreases a.len() - i,
{
    let w = a + seq![c] + b;
    if i < a.len() {
        assert(w[i] == a[i]);
        lemma_parts_before(a, c, b, i + 1);
        if i + 1 < a.len() {
            assert(w[i + 1] == a[i + 1]);
            lemma_parts_before(a, c, b, i + 2);
        }
        if comment_end(a, i) is Some {
            lemma_comment_end(a, i + 1);
            assert(i + 2 < a.len());
            assert(w[i + 2] == a[i + 2]);
        }
    } else {
        assert(w[i] == c);
    }
}

/// Whether the text from `i` on ends within a line comment.
pub open spec fn ends_in_comment(s: Seq<char>, i: int) -> bool
    decreases s.len() - i,
{
    if 0 <= i < s.len() {
        match lex_one(s, i) {
            Ok((t, j)) => if i < j < s.len() {
                ends_in_comment(s, j)
            } else {
                s[i] == '/' && char_at(s, i + 1) == '/'
            },
            Err(_) => false,
        }
    } else {
        false
    }
}

proof fn lemma_one_before(a: Seq<char>, c: char, b: Seq<char>, i: int)
    requires
        0 <= i < a.len(),
        blank(c),
        lex_one(a, i) is Ok,
        c == '\n' || !ends_in_comment(a, i),
    ensures
        lex_one(a + seq![c] + b, i) == lex_one(a, i),
{
    let w = a + seq![c] + b;
    assert(w[i] == a[i]);
    assert(char_at(w, i + 1) == (if i + 1 < a.len() {
        a[i + 1]
    } else {
        c
    }));
    assert(i + 2 < a.len() ==> char_at(w, i + 2) == a[i + 2]);
    assert(i + 2 == a.len() ==> char_at(w, i + 2) == c);
    lemma_forward(a, i);
    lemma_parts_before(a, c, b, i);
    lemma_parts_before(a, c, b, i + 1);
    if i + 3 <= a.len() {
        lemma_parts_before(a, c, b, i + 3);
    }
    lemma_digits_end(a, i);
    lemma_name_end(a, i);
    lemma_line_end(a, i);
    let e = digits_end(a, i);
    assert(char_at(w, e) == (if e < a.len() {
        a[e]
    } else {
        c
    }));
    if e < a.len() {
        assert(char_at(w, e + 1) == (if e + 1 < a.len() {
            a[e + 1]
        } else {
            c
        }));
        lemma_parts_before(a, c, b, e + 1);
        lemma_digits_end(a, e + 1);
    }
    if digit(a[i]) {
        let f = number_end(a, i);
        assert(number_end(w, i) == f);
        assert(w.subrange(i, f) =~= a.subrange(i, f));
    } else if name_start(a[i]) {
        let f = name_end(a, i);
        assert(w.subrange(i, f) =~= a.subrange(i, f));
    }
}

proof fn lemma_tokens_before(a: Seq<char>, c: char, b: Seq<char>, i: int)
    requires
        0 <= i <= a.len(),
        blank(c),
        tokens_from(a, i) is Ok,
        c == '\n' || !ends_in_comment(a, i),
    ensures
        tokens_from(a + seq![c] + b, i) == after(tokens_from(a, i)->Ok_0.drop_last(), tokens_from(b, 0)),
    decreases a.len() - i,
{
    let w = a + seq![c] + b;
    if i < a.len() {
        lemma_one_before(a, c, b, i);
        lemma_forward(a, i);
        let (t, e) = lex_one(a, i)->Ok_0;
        lemma_tokens_before(a, c, b, e);
        tokens_end_with_eof(a, e);
        let one = at_most_one(t);
        let rest = tokens_from(a, e)->Ok_0;
        assert((one + rest).drop_last() =~= one + rest.drop_last());
        if let Ok(more) = tokens_from(b, 0) {
            assert(one + (rest.drop_last() + more) =~= (one + rest.drop_last()) + more);
        }
    } else {
        let front = a + seq![c];
        assert(w[i] == c);
        assert(w =~= front + b);
        lemma_tokens_shift(front, b, 0);
        assert(lex_one(w, i) == Ok::<_, ScanError>((None::<TokenView>, i + 1)));
        assert(tokens_from(a, i)->Ok_0.drop_last() =~= Seq::<TokenView>::empty());
    }
}

/// Two texts with a blank between them have the tokens of the one, without its end
/// mark, and then those of the other. Only the end of the line closes a line comment.
pub proof fn blank_parts_texts(a: Seq<char>, c: char, b: Seq<char>)
    requires
        blank(c),
        tokens_from(a, 0) is Ok,
        c == '\n' || !ends_in_comment(a, 0),
    ensures
        tokens_from(a + seq![c] + b, 0) == after(tokens_from(a, 0)->Ok_0.drop_last(), tokens_from(b, 0)),
{
    lemma_tokens_before(a, c, b, 0);
}

/// A line comment counts as nothing.
pub proof fn line_comment_is_skipped(s: Seq<char>, i: int)
    requires
        0 <= i,
        i + 1 < s.len(),
        s[i] == '/',
        s[i + 1] == '/',
    ensures
        tokens_from(s, i) == tokens_from(s, line_end(s, i)),
{
    lemma_forward(s, i);
    let e = line_end(s, i);
    assert(lex_one(s, i) == Ok::<_, ScanError>((None::<TokenView>, e)));
    if let Ok(rest) = tokens_from(s, e) {
        assert(Seq::<TokenView>::empty() + rest =~= rest);
    }
}

/// A block comment that is closed counts as nothing.
pub proof fn block_comment_is_skipped(s: Seq<char>, i: int)
    requires
        0 <= i,
        i + 2 < s.len(),
        s[i] == '.',
        s[i + 1] == '/',
        s[i + 2] == '/',
        comment_end(s, i + 3) is Some,
    ensures
        tokens_from(s, i) == tokens_from(s, comment_end(s, i + 3)->0),
{
    lemma_forward(s, i);
    let e = comment_end(s, i + 3)->0;
    assert(lex_one(s, i) == Ok::<_, ScanError>((None::<TokenView>, e)));
    if let Ok(rest) = tokens_from(s, e) {
        assert(Seq::<TokenView>::empty() + rest =~= rest);
    }
}

} // verus!
