//! How the words, strings and numbers of a script are read.

use crate::ast::{BinaryOperator, ValueModel};
use crate::grammar::{
    all_white, at, brace_end, expression, interpolated, parts, stretch, sum, Complaint, ParseErrorModel,
};
use crate::lexer::{char_at, comment_end, lex_one, line_end, number_end, string_body, ScanError, TokenView};
use crate::numeral::numeral;
use crate::scanner::{numerals_are_numbers, reading, scan, ScriptTokenModel, Symbol};
use crate::text::{digit, digits_end, name_end, name_part, name_start};
use vstd::prelude::*;

verus! {

/// Whether the text starts with this token, which takes up so many characters.
pub open spec fn starts_with(text: Seq<char>, t: ScriptTokenModel, n: int) -> bool {
    lex_one(text, 0) matches Ok((Some(token), end)) && reading(token) == t && end == n
}

/// Whether a text is a name: letters, digits and underscores, with no digit in front.
pub open spec fn is_name(w: Seq<char>) -> bool {
    w.len() > 0 && name_start(w[0]) && forall|i: int| 0 <= i < w.len() ==> name_part(#[trigger] w[i])
}

/// How the words that have a meaning of their own are spelled, as far as it tells them apart.
proof fn lemma_words()
    ensures
        "null"@.len() == 4 && "null"@[0] == 'n',
        "var"@.len() == 3 && "var"@[0] == 'v',
        "local"@.len() == 5 && "local"@[0] == 'l' && "local"@[2] == 'c',
        "global"@.len() == 6 && "global"@[0] == 'g',
        "switch"@.len() == 6 && "switch"@[0] == 's' && "switch"@[1] == 'w',
        "case"@.len() == 4 && "case"@[0] == 'c',
        "default"@.len() == 7 && "default"@[2] == 'f',
        "return"@.len() == 6 && "return"@[0] == 'r',
        "declare"@.len() == 7 && "declare"@[2] == 'c',
        "if"@.len() == 2 && "if"@[0] == 'i' && "if"@[1] == 'f',
        "elseif"@.len() == 6 && "elseif"@[0] == 'e',
        "else"@.len() == 4 && "else"@[0] == 'e',
        "while"@.len() == 5 && "while"@[0] == 'w',
        "for"@.len() == 3 && "for"@[0] == 'f',
        "in"@.len() == 2 && "in"@[0] == 'i' && "in"@[1] == 'n',
        "break"@.len() == 5 && "break"@[0] == 'b',
        "continue"@.len() == 8 && "continue"@[0] == 'c',
        "try"@.len() == 3 && "try"@[0] == 't',
        "throw"@.len() == 5 && "throw"@[0] == 't',
        "catch"@.len() == 5 && "catch"@[0] == 'c',
        "function"@.len() == 8 && "function"@[0] == 'f',
        "string"@.len() == 6 && "string"@[0] == 's' && "string"@[1] == 't',
        "number"@.len() == 6 && "number"@[0] == 'n',
        "logic"@.len() == 5 && "logic"@[0] == 'l' && "logic"@[2] == 'g',
        "array"@.len() == 5 && "array"@[0] == 'a',
        "object"@.len() == 6 && "object"@[0] == 'o',
        "or"@.len() == 2 && "or"@[0] == 'o',
        "and"@.len() == 3 && "and"@[0] == 'a',
        "not"@.len() == 3 && "not"@[0] == 'n',
        "true"@.len() == 4 && "true"@[0] == 't',
        "false"@.len() == 5 && "false"@[0] == 'f' && "false"@[1] == 'a',
        "let"@.len() == 3 && "let"@[0] == 'l',
        "fn"@.len() == 2 && "fn"@[0] == 'f',
        "int"@.len() == 3 && "int"@[0] == 'i',
        "float"@.len() == 5 && "float"@[0] == 'f' && "float"@[1] == 'l',
        "str"@.len() == 3 && "str"@[0] == 's',
        "bool"@.len() == 4 && "bool"@[0] == 'b',
{
    reveal_strlit("null");
    reveal_strlit("var");
    reveal_strlit("local");
    reveal_strlit("global");
    reveal_strlit("switch");
    reveal_strlit("case");
    reveal_strlit("default");
    reveal_strlit("return");
    reveal_strlit("declare");
    reveal_strlit("if");
    reveal_strlit("elseif");
    reveal_strlit("else");
    reveal_strlit("while");
    reveal_strlit("for");
    reveal_strlit("in");
    reveal_strlit("break");
    reveal_strlit("continue");
    reveal_strlit("try");
    reveal_strlit("throw");
    reveal_strlit("catch");
    reveal_strlit("function");
    reveal_strlit("string");
    reveal_strlit("number");
    reveal_strlit("logic");
    reveal_strlit("array");
    reveal_strlit("object");
    reveal_strlit("or");
    reveal_strlit("and");
    reveal_strlit("not");
    reveal_strlit("true");
    reveal_strlit("false");
    reveal_strlit("let");
    reveal_strlit("fn");
    reveal_strlit("int");
    reveal_strlit("float");
    reveal_strlit("str");
    reveal_strlit("bool");
}

proof fn lemma_name(w: Seq<char>, rest: Seq<char>, i: int)
    requires
        0 <= i <= w.len(),
        forall|k: int| 0 <= k < w.len() ==> name_part(#[trigger] w[k]),
        rest.len() > 0 ==> !name_part(rest[0]),
    ensures
        name_end(w + rest, i) == w.len(),
    decreases w.len() - i,
{
    let s = w + rest;
    if i < w.len() {
        assert(s[i] == w[i]);
        lemma_name(w, rest, i + 1);
    } else if i < s.len() {
        assert(s[i] == rest[0]);
    }
}

proof fn lemma_word(w: Seq<char>, rest: Seq<char>)
    requires
        is_name(w),
        rest.len() > 0 ==> !name_part(rest[0]),
    ensures
        lex_one(w + rest, 0) == Ok::<_, ScanError>((Some(crate::lexer::word(w)), w.len() as int)),
{
    let s = w + rest;
    assert(s[0] == w[0]);
    assert(name_part(w[0]));
    lemma_name(w, rest, 0);
    assert(s.subrange(0, w.len() as int) =~= w);
    assert(char_at(s, 0) == w[0]);
}

/// The symbol that a keyword stands for.
pub open spec fn is_keyword(w: Seq<char>, m: Symbol) -> bool {
    ||| w == "null"@ && m == Symbol::Null
    ||| w == "var"@ && m == Symbol::Var
    ||| w == "local"@ && m == Symbol::Local
    ||| w == "global"@ && m == Symbol::Global
    ||| w == "switch"@ && m == Symbol::Switch
    ||| w == "case"@ && m == Symbol::Case
    ||| w == "default"@ && m == Symbol::Default
    ||| w == "return"@ && m == Symbol::Return
    ||| w == "declare"@ && m == Symbol::Declare
    ||| w == "if"@ && m == Symbol::If
    ||| w == "elseif"@ && m == Symbol::ElseIf
    ||| w == "else"@ && m == Symbol::Else
    ||| w == "while"@ && m == Symbol::While
    ||| w == "for"@ && m == Symbol::For
    ||| w == "in"@ && m == Symbol::In
    ||| w == "break"@ && m == Symbol::Break
    ||| w == "continue"@ && m == Symbol::Continue
    ||| w == "try"@ && m == Symbol::Try
    ||| w == "throw"@ && m == Symbol::Throw
    ||| w == "catch"@ && m == Symbol::Catch
    ||| w == "function"@ && m == Symbol::Function
    ||| w == "string"@ && m == Symbol::StringType
    ||| w == "number"@ && m == Symbol::NumberType
    ||| w == "logic"@ && m == Symbol::LogicType
    ||| w == "array"@ && m == Symbol::ArrayType
    ||| w == "object"@ && m == Symbol::ObjectType
    ||| w == "or"@ && m == Symbol::Or
    ||| w == "and"@ && m == Symbol::And
    ||| w == "not"@ && m == Symbol::Not
}

/// Whether a word is a keyword or a truth value.
pub open spec fn is_reserved(w: Seq<char>) -> bool {
    w == "true"@ || w == "false"@ || exists|m: Symbol| is_keyword(w, m)
}

/// A word ends where a name does. A keyword is its symbol, `true` and `false` are the truth
/// values, and every other word is a name.
pub proof fn words_are_read(w: Seq<char>, m: Symbol, rest: Seq<char>)
    requires
        is_name(w),
        rest.len() > 0 ==> !name_part(rest[0]),
    ensures
        is_keyword(w, m) ==> starts_with(w + rest, ScriptTokenModel::Symbol(m), w.len() as int),
        w == "true"@ ==> starts_with(w + rest, ScriptTokenModel::BoolLiteral(true), w.len() as int),
        w == "false"@ ==> starts_with(w + rest, ScriptTokenModel::BoolLiteral(false), w.len() as int),
        !is_reserved(w) ==> starts_with(w + rest, ScriptTokenModel::Identifier(w), w.len() as int),
{
    lemma_words();
    lemma_word(w, rest);
    if !is_reserved(w) {
        assert(!is_keyword(w, Symbol::Null));
        assert(!is_keyword(w, Symbol::Var));
        assert(!is_keyword(w, Symbol::Local));
        assert(!is_keyword(w, Symbol::Global));
        assert(!is_keyword(w, Symbol::Switch));
        assert(!is_keyword(w, Symbol::Case));
        assert(!is_keyword(w, Symbol::Default));
        assert(!is_keyword(w, Symbol::Return));
        assert(!is_keyword(w, Symbol::Declare));
        assert(!is_keyword(w, Symbol::If));
        assert(!is_keyword(w, Symbol::ElseIf));
        assert(!is_keyword(w, Symbol::Else));
        assert(!is_keyword(w, Symbol::While));
        assert(!is_keyword(w, Symbol::For));
        assert(!is_keyword(w, Symbol::In));
        assert(!is_keyword(w, Symbol::Break));
        assert(!is_keyword(w, Symbol::Continue));
        assert(!is_keyword(w, Symbol::Try));
        assert(!is_keyword(w, Symbol::Throw));
        assert(!is_keyword(w, Symbol::Catch));
        assert(!is_keyword(w, Symbol::Function));
        assert(!is_keyword(w, Symbol::StringType));
        assert(!is_keyword(w, Symbol::NumberType));
        assert(!is_keyword(w, Symbol::LogicType));
        assert(!is_keyword(w, Symbol::ArrayType));
        assert(!is_keyword(w, Symbol::ObjectType));
        assert(!is_keyword(w, Symbol::Or));
        assert(!is_keyword(w, Symbol::And));
        assert(!is_keyword(w, Symbol::Not));
        reveal_strlit("-");
        reveal_strlit("int");
        reveal_strlit("float");
        reveal_strlit("str");
        reveal_strlit("bool");
    }
}

/// How a character is written in a string.
pub open spec fn spelled(c: char) -> Seq<char> {
    if c == '"' {
        seq!['\\', '"']
    } else if c == '\\' {
        seq!['\\', '\\']
    } else if c == '\n' {
        seq!['\\', 'n']
    } else if c == '\t' {
        seq!['\\', 't']
    } else if c == '\r' {
        seq!['\\', 'r']
    } else {
        seq![c]
    }
}

/// How a text is written in a string.
pub open spec fn quoted(t: Seq<char>) -> Seq<char>
    decreases t.len(),
{
    if t.len() == 0 {
        seq![]
    } else {
        spelled(t[0]) + quoted(t.skip(1))
    }
}

proof fn lemma_quoted(front: Seq<char>, t: Seq<char>, rest: Seq<char>)
    ensures
        string_body(front + quoted(t) + seq!['"'] + rest, front.len() as int) == Some(
            (t, (front.len() + quoted(t).len() + 1) as int),
        ),
    decreases t.len(),
{
    let s = front + quoted(t) + seq!['"'] + rest;
    let i = front.len() as int;
    if t.len() == 0 {
        assert(s[i] == '"');
        assert(t =~= seq![]);
    } else {
        let more = t.skip(1);
        let head = spelled(t[0]);
        lemma_quoted(front + head, more, rest);
        assert((front + head) + quoted(more) + seq!['"'] + rest =~= s);
        assert(s[i] == head[0]);
        assert(head.len() == 2 ==> s[i + 1] == head[1]);
        assert(seq![t[0]] + more =~= t);
    }
}

/// Every text can be written as a string: what is written between the quotes after the rules
/// is read as the text.
pub proof fn strings_are_read_as_written(t: Seq<char>, rest: Seq<char>)
    ensures
        starts_with(
            seq!['"'] + quoted(t) + seq!['"'] + rest,
            ScriptTokenModel::StringLiteral(t),
            (quoted(t).len() + 2) as int,
        ),
{
    lemma_quoted(seq!['"'], t, rest);
    let s = seq!['"'] + quoted(t) + seq!['"'] + rest;
    assert(char_at(s, 0) == '"');
}

/// A backslash in front of a character that needs none stays.
pub proof fn other_backslashes_stay(c: char, t: Seq<char>, rest: Seq<char>)
    requires
        c != 'n',
        c != 't',
        c != 'r',
        c != '"',
        c != '\\',
    ensures
        starts_with(
            seq!['"', '\\', c] + quoted(t) + seq!['"'] + rest,
            ScriptTokenModel::StringLiteral(seq!['\\', c] + t),
            (quoted(t).len() + 4) as int,
        ),
{
    let s = seq!['"', '\\', c] + quoted(t) + seq!['"'] + rest;
    lemma_quoted(seq!['"', '\\', c], t, rest);
    assert(char_at(s, 0) == '"');
    assert(s[1] == '\\' && s[2] == c);
}

proof fn lemma_unclosed(s: Seq<char>, i: int)
    requires
        0 <= i <= s.len(),
        forall|k: int| i <= k < s.len() ==> #[trigger] s[k] != '"',
    ensures
        string_body(s, i) is None,
    decreases s.len() - i,
{
    if i < s.len() {
        if s[i] == '\\' && i + 1 < s.len() {
            lemma_unclosed(s, i + 2);
        } else {
            lemma_unclosed(s, i + 1);
        }
    }
}

/// A string without a second quote is an error, and so is a character that starts nothing.
pub proof fn broken_texts_are_refused(t: Seq<char>, c: char)
    ensures
        (forall|k: int| 0 <= k < t.len() ==> #[trigger] t[k] != '"') ==> lex_one(seq!['"'] + t, 0) == Err::<
            (Option<TokenView>, int),
            _,
        >(ScanError::UnclosedString),
        c == '@' || c == '#' || c == '$' || c == '%' || c == '?' || c == '\\' || c == '`' || c == '\'' ==> lex_one(
            seq![c] + t,
            0,
        ) == Err::<(Option<TokenView>, int), _>(ScanError::UnexpectedCharacter(c)),
{
    let s = seq!['"'] + t;
    assert(char_at(s, 0) == '"');
    if forall|k: int| 0 <= k < t.len() ==> #[trigger] t[k] != '"' {
        assert forall|k: int| 1 <= k < s.len() implies #[trigger] s[k] != '"' by {
            assert(s[k] == t[k - 1]);
        }
        lemma_unclosed(s, 1);
    }
    let w = seq![c] + t;
    assert(char_at(w, 0) == c);
}

/// Whether a text is digits and nothing else.
pub open spec fn is_digits(d: Seq<char>) -> bool {
    d.len() > 0 && forall|i: int| 0 <= i < d.len() ==> digit(#[trigger] d[i])
}

proof fn lemma_digits(front: Seq<char>, d: Seq<char>, rest: Seq<char>, i: int)
    requires
        0 <= i <= d.len(),
        forall|k: int| 0 <= k < d.len() ==> digit(#[trigger] d[k]),
        rest.len() > 0 ==> !digit(rest[0]),
    ensures
        digits_end(front + d + rest, front.len() + i) == front.len() + d.len(),
    decreases d.len() - i,
{
    let s = front + d + rest;
    if i < d.len() {
        assert(s[front.len() + i] == d[i]);
        lemma_digits(front, d, rest, i + 1);
    } else if front.len() + i < s.len() {
        assert(s[front.len() + i] == rest[0]);
    }
}

/// A number goes on as long as digits do, and past a point where a digit follows it. A point
/// without a digit behind it does not belong to the number, so `1..3` is a range.
pub proof fn numbers_are_read(d: Seq<char>, f: Seq<char>, rest: Seq<char>)
    requires
        is_digits(d),
        is_digits(f),
        rest.len() > 0 ==> !digit(rest[0]),
    ensures
        !(rest.len() > 1 && rest[0] == '.' && digit(rest[1])) ==> starts_with(
            d + rest,
            ScriptTokenModel::NumberLiteral(numeral(d)),
            d.len() as int,
        ),
        starts_with(
            d + seq!['.'] + f + rest,
            ScriptTokenModel::NumberLiteral(numeral(d + seq!['.'] + f)),
            (d.len() + 1 + f.len()) as int,
        ),
{
    let s = d + rest;
    let none = Seq::<char>::empty();
    assert(none + d + rest =~= s);
    lemma_digits(none, d, rest, 0);
    assert(digit(d[0]));
    assert(char_at(s, 0) == d[0]);
    if !(rest.len() > 1 && rest[0] == '.' && digit(rest[1])) {
        assert(rest.len() > 0 ==> s[d.len() as int] == rest[0]);
        assert(rest.len() > 1 ==> s[1 + d.len() as int] == rest[1]);
        assert(!digit('\0'));
        assert(number_end(s, 0) == d.len());
        assert(s.subrange(0, d.len() as int) =~= d);
        numerals_are_numbers(d);
    }
    let w = d + seq!['.'] + f + rest;
    let tail = seq!['.'] + f + rest;
    assert(none + d + tail =~= w);
    assert(tail[0] == '.');
    assert(!digit('.'));
    lemma_digits(none, d, tail, 0);
    assert(digit(f[0]));
    assert(w[d.len() as int] == '.' && w[1 + d.len() as int] == f[0]);
    assert((d + seq!['.']) + f + rest =~= w);
    lemma_digits(d + seq!['.'], f, rest, 0);
    assert(char_at(w, 0) == d[0]);
    assert(w.subrange(0, (d.len() + 1 + f.len()) as int) =~= d + seq!['.'] + f);
    numerals_are_numbers(d + seq!['.'] + f);
}

proof fn lemma_line(s: Seq<char>, n: int, i: int)
    requires
        0 <= i <= n <= s.len(),
        forall|k: int| 0 <= k < n ==> #[trigger] s[k] != '\n',
        n < s.len() ==> s[n] == '\n',
    ensures
        line_end(s, i) == n,
    decreases n - i,
{
    if i < n {
        lemma_line(s, n, i + 1);
    }
}

proof fn lemma_comment(s: Seq<char>, n: int, i: int)
    requires
        0 <= i <= n,
        n + 3 <= s.len(),
        forall|k: int| i <= k < n ==> #[trigger] s[k] != '/',
        s[n] == '/',
        s[n + 1] == '/',
        s[n + 2] == '.',
    ensures
        comment_end(s, i) == Some(n + 3),
    decreases n - i,
{
    if i < n {
        lemma_comment(s, n, i + 1);
    }
}

/// Behind `//` the rest of the line counts for nothing, and from `.//` to `//.` everything.
pub proof fn comments_count_for_nothing(t: Seq<char>, rest: Seq<char>)
    ensures
        (forall|k: int| 0 <= k < t.len() ==> #[trigger] t[k] != '\n') && (rest.len() > 0 ==> rest[0] == '\n')
            ==> lex_one(seq!['/', '/'] + t + rest, 0) == Ok::<_, ScanError>(
            (None::<TokenView>, (t.len() + 2) as int),
        ),
        (forall|k: int| 0 <= k < t.len() ==> #[trigger] t[k] != '/') ==> lex_one(
            seq!['.', '/', '/'] + t + seq!['/', '/', '.'] + rest,
            0,
        ) == Ok::<_, ScanError>((None::<TokenView>, (t.len() + 6) as int)),
        (forall|k: int| 0 <= k < t.len() ==> #[trigger] t[k] != '/') ==> lex_one(seq!['.', '/', '/'] + t, 0) == Err::<
            (Option<TokenView>, int),
            _,
        >(ScanError::UnclosedComment),
{
    if (forall|k: int| 0 <= k < t.len() ==> #[trigger] t[k] != '\n') && (rest.len() > 0 ==> rest[0] == '\n') {
        let s = seq!['/', '/'] + t + rest;
        let n = (t.len() + 2) as int;
        assert forall|k: int| 0 <= k < n implies #[trigger] s[k] != '\n' by {
            if k >= 2 {
                assert(s[k] == t[k - 2]);
            }
        }
        assert(n < s.len() ==> s[n] == rest[0]);
        lemma_line(s, n, 0);
        assert(char_at(s, 0) == '/' && char_at(s, 1) == '/');
    }
    if forall|k: int| 0 <= k < t.len() ==> #[trigger] t[k] != '/' {
        let s = seq!['.', '/', '/'] + t + seq!['/', '/', '.'] + rest;
        let n = (t.len() + 3) as int;
        assert forall|k: int| 3 <= k < n implies #[trigger] s[k] != '/' by {
            assert(s[k] == t[k - 3]);
        }
        lemma_comment(s, n, 3);
        assert(char_at(s, 0) == '.' && char_at(s, 1) == '/' && char_at(s, 2) == '/');
        let w = seq!['.', '/', '/'] + t;
        assert forall|k: int| 3 <= k < w.len() implies #[trigger] w[k] != '/' by {
            assert(w[k] == t[k - 3]);
        }
        lemma_open_comment(w, 3);
        assert(char_at(w, 0) == '.' && char_at(w, 1) == '/' && char_at(w, 2) == '/');
    }
}

proof fn lemma_open_comment(s: Seq<char>, i: int)
    requires
        0 <= i <= s.len(),
        forall|k: int| i <= k < s.len() ==> #[trigger] s[k] != '/',
    ensures
        comment_end(s, i) is None,
    decreases s.len() - i,
{
    if i < s.len() {
        lemma_open_comment(s, i + 1);
    }
}

/// Whether a text holds nothing to be worked out.
pub open spec fn is_plain(t: Seq<char>) -> bool {
    forall|k: int| 0 <= k < t.len() ==> #[trigger] t[k] != '$'
}

proof fn lemma_plain_parts(a: Seq<char>, rest: Seq<char>, i: int)
    requires
        is_plain(a),
        0 <= i <= a.len(),
    ensures
        parts(a + rest, i, a.take(i)) == parts(a + rest, a.len() as int, a),
    decreases a.len() - i,
{
    let s = a + rest;
    if i < a.len() {
        assert(s[i] == a[i]);
        assert(a.take(i).push(a[i]) =~= a.take(i + 1));
        lemma_plain_parts(a, rest, i + 1);
    } else {
        assert(a.take(i) =~= a);
    }
}

/// A string without `$` is the text that it holds.
pub proof fn plain_strings_are_texts(t: Seq<char>)
    requires
        is_plain(t),
    ensures
        interpolated(t) == Ok::<_, ParseErrorModel>(ValueModel::String(t)),
{
    let none = Seq::<char>::empty();
    lemma_plain_parts(t, none, 0);
    assert(t + none =~= t);
    assert(t.take(0) =~= none);
    if t.len() == 0 {
        assert(t =~= none);
    }
}

/// Whether an expression is all that a text holds, and which.
pub open spec fn holds_expression(e: Seq<char>, v: ValueModel) -> bool {
    &&& forall|k: int| 0 <= k < e.len() ==> #[trigger] e[k] != '{' && e[k] != '}'
    &&& !all_white(e)
    &&& scan(e) matches Ok(t) && expression(e.len(), t, 0) matches Ok((w, k)) && w == v && at(t, k, Symbol::Eof)
}

proof fn lemma_brace(s: Seq<char>, n: int, i: int)
    requires
        0 <= i <= n < s.len(),
        forall|k: int| i <= k < n ==> #[trigger] s[k] != '{' && s[k] != '}',
        s[n] == '}',
    ensures
        brace_end(s, i, 1) == Some(n + 1),
    decreases n - i,
{
    if i < n {
        lemma_brace(s, n, i + 1);
    } else {
        assert(brace_end(s, n + 1, 0) == Some(n + 1));
    }
}

proof fn lemma_hole(a: Seq<char>, e: Seq<char>, v: ValueModel, z: Seq<char>)
    requires
        is_plain(a),
        holds_expression(e, v),
        is_plain(z),
    ensures
        parts(a + seq!['$', '{'] + e + seq!['}'] + z, 0, seq![]) == Ok::<_, ParseErrorModel>(
            stretch(a) + seq![v] + stretch(z),
        ),
{
    let s = a + seq!['$', '{'] + e + seq!['}'] + z;
    let tail = seq!['$', '{'] + e + seq!['}'] + z;
    let n = a.len() as int;
    let close = n + 2 + e.len();
    assert(a + tail =~= s);
    lemma_plain_parts(a, tail, 0);
    assert(a.take(0) =~= seq![]);
    assert(s[n] == '$' && s[n + 1] == '{' && s[close] == '}');
    assert forall|k: int| n + 2 <= k < close implies #[trigger] s[k] != '{' && s[k] != '}' by {
        assert(s[k] == e[k - n - 2]);
    }
    lemma_brace(s, close, n + 2);
    assert(s.subrange(n + 2, close) =~= e);
    assert(e.len() > 0) by {
        if e.len() == 0 {
            assert(all_white(e));
        }
    }
    lemma_tail(a + seq!['$', '{'] + e + seq!['}'], z, 0);
    assert(z.take(0) =~= seq![]);
}

proof fn lemma_tail(front: Seq<char>, z: Seq<char>, i: int)
    requires
        is_plain(z),
        0 <= i <= z.len(),
    ensures
        parts(front + z, front.len() + i, z.take(i)) == Ok::<_, ParseErrorModel>(stretch(z)),
    decreases z.len() - i,
{
    let s = front + z;
    if i < z.len() {
        assert(s[front.len() + i] == z[i]);
        assert(z.take(i).push(z[i]) =~= z.take(i + 1));
        lemma_tail(front, z, i + 1);
    } else {
        assert(z.take(i) =~= z);
    }
}

/// What stands between `${` and `}` is an expression, and the string is the sum of what
/// stands in front of it, the expression, and what stands behind it, in this order.
pub proof fn holes_are_worked_out(a: Seq<char>, e: Seq<char>, v: ValueModel, z: Seq<char>)
    requires
        is_plain(a),
        holds_expression(e, v),
        is_plain(z),
    ensures
        ({
            let r = interpolated(a + seq!['$', '{'] + e + seq!['}'] + z);
            &&& a.len() > 0 && z.len() > 0 ==> r == Ok::<_, ParseErrorModel>(
                plus(plus(ValueModel::String(a), v), ValueModel::String(z)),
            )
            &&& a.len() > 0 && z.len() == 0 ==> r == Ok::<_, ParseErrorModel>(plus(ValueModel::String(a), v))
            &&& a.len() == 0 && z.len() > 0 ==> r == Ok::<_, ParseErrorModel>(plus(v, ValueModel::String(z)))
            &&& a.len() == 0 && z.len() == 0 ==> r == Ok::<_, ParseErrorModel>(v)
        }),
{
    lemma_hole(a, e, v, z);
    let ps = stretch(a) + seq![v] + stretch(z);
    reveal_with_fuel(sum, 4);
    assert(ps.len() >= 1);
}

/// The sum of two values, as it is written.
pub open spec fn plus(left: ValueModel, right: ValueModel) -> ValueModel {
    ValueModel::Binary { left: Box::new(left), op: BinaryOperator::Add, right: Box::new(right) }
}

proof fn lemma_no_brace(s: Seq<char>, i: int, depth: int)
    requires
        0 <= i <= s.len(),
        depth > 0,
        forall|k: int| i <= k < s.len() ==> #[trigger] s[k] != '}',
    ensures
        brace_end(s, i, depth) is None,
    decreases s.len() - i,
{
    if i < s.len() {
        lemma_no_brace(s, i + 1, if s[i] == '{' { depth + 1 } else { depth });
    }
}

/// A hole that is never closed is an error, and so is one that holds nothing.
pub proof fn broken_holes_are_refused(a: Seq<char>, e: Seq<char>, z: Seq<char>)
    requires
        is_plain(a),
    ensures
        (forall|k: int| 0 <= k < e.len() ==> #[trigger] e[k] != '}') ==> interpolated(a + seq!['$', '{'] + e) == Err::<
            ValueModel,
            _,
        >(ParseErrorModel::Plain(Complaint::UnclosedInterpolation)),
        all_white(e) ==> interpolated(a + seq!['$', '{'] + e + seq!['}'] + z) == Err::<ValueModel, _>(
            ParseErrorModel::Plain(Complaint::EmptyInterpolation),
        ),
{
    let n = a.len() as int;
    assert(a.take(0) =~= seq![]);
    if forall|k: int| 0 <= k < e.len() ==> #[trigger] e[k] != '}' {
        let s = a + seq!['$', '{'] + e;
        let tail = seq!['$', '{'] + e;
        assert(a + tail =~= s);
        lemma_plain_parts(a, tail, 0);
        assert(s[n] == '$' && s[n + 1] == '{');
        assert forall|k: int| n + 2 <= k < s.len() implies #[trigger] s[k] != '}' by {
            assert(s[k] == e[k - n - 2]);
        }
        lemma_no_brace(s, n + 2, 1);
    }
    if all_white(e) {
        let s = a + seq!['$', '{'] + e + seq!['}'] + z;
        let tail = seq!['$', '{'] + e + seq!['}'] + z;
        let close = n + 2 + e.len();
        assert(a + tail =~= s);
        lemma_plain_parts(a, tail, 0);
        assert(s[n] == '$' && s[n + 1] == '{' && s[close] == '}');
        assert forall|k: int| n + 2 <= k < close implies #[trigger] s[k] != '{' && s[k] != '}' by {
            assert(s[k] == e[k - n - 2]);
            assert(crate::grammar::white(e[k - n - 2]));
        }
        lemma_brace(s, close, n + 2);
        assert(s.subrange(n + 2, close) =~= e);
    }
}

} // verus!
