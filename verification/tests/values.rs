//! Numbers, texts, operators and documents.

use kalvita::ast::{BinaryOperator, Statement, UnaryOperator, Value};
use kalvita::clock::format_unix_millis;
use kalvita::document::{accept_json, read_json};
use kalvita::draft::{Arithmetic, Failure, Piece, Plan, RealFunction, RuntimeFault};
use kalvita::glob::{glob_here, glob_match};
use kalvita::json::{json_to_value, value_to_json, Json};
use kalvita::number::{find_max, find_min, is_equal, is_less, is_nan, truncate};
use kalvita::numeral::read_numeral;
use kalvita::operators::{evaluate_binary, evaluate_unary};
use kalvita::parser::Parser;
use kalvita::request::{Anchor, Answer, Request};
use kalvita::runtime::check_type;
use kalvita::show::{values_equal, values_strict_equal};
use kalvita::sort::sort_texts;
use kalvita::state::{Event, Focus, Machine, Wait};
use kalvita::strings::{str_join, str_split};

const ALIAS: &str = "__test__";

type Env = Vec<(String, Value)>;

fn num(n: f64) -> Value {
    Value::Number(n.to_bits())
}

fn text(s: &str) -> Value {
    Value::String(s.to_string())
}

fn var(name: &str) -> Value {
    Value::Variable(name.to_string())
}

/// A host that works in memory: it computes, prints into a list, keeps files in
/// a table and takes other answers from a list.
struct Host {
    files: Vec<(String, String)>,
    dirs: Vec<String>,
    printed: Vec<String>,
    answers: Vec<Answer>,
    sources: Vec<(String, String)>,
    root: Option<String>,
}

fn host() -> Host {
    Host {
        files: Vec::new(),
        dirs: Vec::new(),
        printed: Vec::new(),
        answers: Vec::new(),
        sources: Vec::new(),
        root: None,
    }
}

fn number_text(bits: u64) -> String {
    format!("{}", f64::from_bits(bits))
}

fn debug_text(v: &Value) -> String {
    match v {
        Value::Number(n) => format!("Number({:?})", f64::from_bits(*n)),
        Value::Array(items) => {
            let parts: Vec<String> = items.iter().map(debug_text).collect();
            format!("Array([{}])", parts.join(", "))
        }
        other => format!("{:?}", other),
    }
}

fn pieces_text(pieces: &[Piece]) -> String {
    let parts: Vec<String> = pieces
        .iter()
        .map(|p| match p {
            Piece::Text(s) => s.clone(),
            Piece::Number(n) => number_text(*n),
            Piece::Debug(v) => debug_text(v),
        })
        .collect();
    parts.join("")
}

fn plan_value(p: &Plan) -> Value {
    match p {
        Plan::Ready(v) => v.clone(),
        Plan::Arithmetic { op, left, right } => {
            let (a, b) = (f64::from_bits(*left), f64::from_bits(*right));
            num(match op {
                Arithmetic::Add => a + b,
                Arithmetic::Subtract => a - b,
                Arithmetic::Multiply => a * b,
                Arithmetic::Divide => a / b,
                Arithmetic::Power => a.powf(b),
            })
        }
        Plan::Function { function, of } => {
            let x = f64::from_bits(*of);
            num(match function {
                RealFunction::Sin => x.sin(),
                RealFunction::Cos => x.cos(),
                RealFunction::Tan => x.tan(),
                RealFunction::Sqrt => x.sqrt(),
                RealFunction::Floor => x.floor(),
                RealFunction::Ceil => x.ceil(),
            })
        }
        Plan::Integer(n) => num(*n as f64),
        Plan::Ratio { part, whole } => num(*part as f64 / *whole as f64),
        Plan::Text(pieces) => Value::String(pieces_text(pieces)),
        Plan::List(items) => Value::Array(items.iter().map(plan_value).collect()),
    }
}

impl Host {
    fn perform(&mut self, q: &Request) -> Answer {
        match q {
            Request::Print(p) => {
                self.printed.push(pieces_text(p));
                Answer::Done
            }
            Request::ParseNumber { text, .. } => match text.parse::<f64>() {
                Ok(n) => Answer::Number(n.to_bits()),
                Err(e) => Answer::Failed(format!("{}", e)),
            },
            Request::Args => Answer::Texts(vec!["kalvita".to_string()]),
            Request::Getenv(_) => Answer::Nothing,
            Request::Cwd => Answer::Text("/here".to_string()),
            Request::FileRead(path) => match self.files.iter().find(|(p, _)| p == path) {
                Some((_, s)) => Answer::Text(s.clone()),
                None => Answer::Failed("no such file".to_string()),
            },
            Request::FileWrite { path, content } => {
                self.files.retain(|(p, _)| p != path);
                self.files.push((path.clone(), pieces_text(content)));
                Answer::Done
            }
            Request::FileAppend { path, content } => {
                let old = match self.files.iter().find(|(p, _)| p == path) {
                    Some((_, s)) => s.clone(),
                    None => String::new(),
                };
                self.files.retain(|(p, _)| p != path);
                self.files.push((path.clone(), format!("{}{}", old, pieces_text(content))));
                Answer::Done
            }
            Request::FileExists(path) => {
                Answer::Flag(self.files.iter().any(|(p, _)| p == path) || self.dirs.iter().any(|p| p == path))
            }
            Request::FileRemove(path) => {
                self.files.retain(|(p, _)| p != path);
                Answer::Done
            }
            Request::FileList(path) => {
                let prefix = format!("{}/", path);
                let names = self
                    .files
                    .iter()
                    .map(|(p, _)| p)
                    .chain(self.dirs.iter())
                    .filter(|p| p.starts_with(&prefix))
                    .map(|p| p[prefix.len()..].split('/').next().unwrap().to_string())
                    .collect();
                Answer::Texts(names)
            }
            Request::FileMakeDir(path) => {
                self.dirs.push(path.clone());
                Answer::Done
            }
            Request::Locate { anchor, importer, path } => {
                let base = match anchor {
                    Anchor::ProjectRoot => match &self.root {
                        Some(root) => root.clone(),
                        None => return Answer::Nothing,
                    },
                    Anchor::FileSystem => String::new(),
                    Anchor::Importer => importer.clone(),
                };
                let name = path.trim_start_matches("./").trim_start_matches('/').to_string();
                let canonical = format!("{}/{}", base, name);
                match self.sources.iter().find(|(p, _)| *p == canonical) {
                    Some(_) => {
                        let file = canonical.rsplit('/').next().unwrap();
                        let directory = canonical[..canonical.len() - file.len() - 1].to_string();
                        let stem = file.split('.').next().unwrap().to_string();
                        Answer::Located { canonical: canonical.clone(), directory, stem: Some(stem) }
                    }
                    None => Answer::Failed("no such file".to_string()),
                }
            }
            Request::ReadSource(path) => match self.sources.iter().find(|(p, _)| p == path) {
                Some((_, s)) => Answer::Text(s.clone()),
                None => Answer::Failed("no such file".to_string()),
            },
            _ => {
                if self.answers.is_empty() {
                    panic!("no answer to {:?}", q);
                }
                self.answers.remove(0)
            }
        }
    }

    fn drive(&mut self, m: &mut Machine) {
        loop {
            m.run_steps(10_000);
            if m.is_busy() {
                continue;
            }
            let event = match &m.focus {
                Focus::Await(Wait::Plan(p)) => Event::Value(plan_value(p)),
                Focus::Await(Wait::Request(q)) => Event::Answer(self.perform(q)),
                _ => return,
            };
            m.answer(event);
        }
    }
}

fn fault_text(f: &RuntimeFault) -> String {
    match f {
        RuntimeFault::Fatal(m) => format!("fatal: {}", m),
        RuntimeFault::Throw(Value::Error { error_type, message }) => format!("{}: {}", error_type, message),
        RuntimeFault::Throw(other) => format!("throw: {}", debug_text(other)),
    }
}

fn settle(p: Result<Plan, Failure>) -> Result<Value, String> {
    match p {
        Ok(p) => Ok(plan_value(&p)),
        Err(Failure::Fatal(m)) => Err(m),
        Err(Failure::Throw { error_type, message }) => Err(format!("{}: {}", error_type, pieces_text(&message))),
    }
}

fn value_of(m: &mut Machine, h: &mut Host, v: Value) -> Result<Value, RuntimeFault> {
    m.start_value(v);
    h.drive(m);
    match &m.focus {
        Focus::Value(v) => Ok(v.clone()),
        Focus::Fault(f) => Err(f.copy()),
        other => panic!("neither value nor fault: {:?}", other),
    }
}

fn eval(v: Value, env: &Env) -> Result<Value, RuntimeFault> {
    let mut m = Machine::new(ALIAS);
    m.scope.env = env.clone();
    value_of(&mut m, &mut host(), v)
}

fn call(object: Option<&str>, function: &str, args: Vec<Value>, env: &Env) -> Result<Value, RuntimeFault> {
    let call = Value::FunctionCall {
        object: object.map(|s| s.to_string()),
        module: None,
        function: function.to_string(),
        args,
    };
    eval(call, env)
}

fn number(r: Result<Value, RuntimeFault>) -> f64 {
    match r {
        Ok(Value::Number(n)) => f64::from_bits(n),
        other => panic!("expected a number, got {:?}", other),
    }
}

fn builtin(object: &str, function: &str, args: Vec<Value>) -> Result<Value, RuntimeFault> {
    call(Some(object), function, args, &Vec::new())
}

fn fault(object: &str, function: &str, args: Vec<Value>) -> String {
    fault_text(&builtin(object, function, args).unwrap_err())
}

#[test]
fn case_of_letters_changes() {
    assert_eq!(builtin("str", "Upper", vec![text("straße")]), Ok(text("STRASSE")));
    assert_eq!(builtin("str", "Lower", vec![text("ÄbC")]), Ok(text("äbc")));
}

#[test]
fn numbers_are_ordered_by_value() {
    let list = [f64::NEG_INFINITY, -2.5, -0.0, 0.0, 1e-300, 1.0, 2.0, 1e300, f64::INFINITY, f64::NAN];
    for a in list {
        for b in list {
            assert_eq!(is_less(a.to_bits(), b.to_bits()), a < b, "{} < {}", a, b);
            assert_eq!(is_equal(a.to_bits(), b.to_bits()), a == b, "{} == {}", a, b);
        }
        assert_eq!(is_nan(a.to_bits()), a.is_nan());
    }
    assert_eq!(f64::from_bits(find_min(1.0f64.to_bits(), 2.0f64.to_bits())), 1.0);
    assert_eq!(f64::from_bits(find_max(1.0f64.to_bits(), 2.0f64.to_bits())), 2.0);
}

#[test]
fn numbers_are_cut_to_integers() {
    for x in [0.0, 0.5, -0.5, 7.9, -7.9, 4503599627370497.5, 9007199254740993.0, 1e18, -9.223372036854775e18] {
        assert_eq!(truncate(f64::to_bits(x)), Some(x as i64), "{}", x);
    }
    assert_eq!(truncate(1e19f64.to_bits()), None);
}

#[test]
fn math_works_on_numbers() {
    assert_eq!(number(builtin("math", "Pow", vec![num(2.0), num(10.0)])), 1024.0);
    assert_eq!(number(builtin("math", "Abs", vec![num(-3.5)])), 3.5);
    assert_eq!(number(builtin("math", "Floor", vec![num(-1.5)])), -2.0);
    assert_eq!(number(builtin("math", "Ceil", vec![num(1.2)])), 2.0);
    assert_eq!(number(builtin("math", "Min", vec![num(3.0), num(1.0)])), 1.0);
    assert_eq!(number(builtin("math", "Clamp", vec![num(-4.0), num(0.0), num(10.0)])), 0.0);
    assert!(fault("math", "Nope", vec![]).starts_with("NameError"));
    assert!(fault("math", "Sqrt", vec![num(-1.0)]).starts_with("ValueError"));
}

#[test]
fn operators_follow_their_laws() {
    let list = |a: Vec<f64>| Value::Array(a.into_iter().map(num).collect());
    let apply = |l: &Value, r: &Value, op: BinaryOperator| settle(evaluate_binary(l, r, op));
    assert_eq!(
        apply(&list(vec![1.0, 2.0, 3.0]), &list(vec![10.0, 20.0]), BinaryOperator::Add),
        Ok(list(vec![11.0, 22.0, 13.0]))
    );
    assert_eq!(apply(&list(vec![]), &list(vec![]), BinaryOperator::Add), Ok(list(vec![])));
    assert_eq!(apply(&num(6.0), &num(3.0), BinaryOperator::BitXor), apply(&num(3.0), &num(6.0), BinaryOperator::BitXor));
    assert_eq!(
        settle(evaluate_unary(&list(vec![0.0, 5.0]), UnaryOperator::BitNot)),
        Ok(list(vec![-1.0, -6.0]))
    );
    assert_eq!(
        settle(evaluate_unary(&num(-6.0), UnaryOperator::BitNot)),
        Ok(num(5.0))
    );
    assert_eq!(
        apply(&num(1.0), &num(0.0), BinaryOperator::Divide),
        Err("DivZero: Division requires non-zero numbers".to_string())
    );
    assert_eq!(
        apply(&num(f64::NAN), &num(1.0), BinaryOperator::BitAnd),
        Err("ValueError: bitwise requires a finite integer, got NaN".to_string())
    );
    assert_eq!(
        apply(&num(1.0), &num(64.0), BinaryOperator::Shl),
        Err("ValueError: shift amount must be 0..64, got 64".to_string())
    );
    assert_eq!(
        apply(&num(0.0), &num(3.0), BinaryOperator::Range),
        Err("TypeError: ranges (..) can only be iterated with for-in".to_string())
    );
    assert_eq!(apply(&text("n="), &num(1.5), BinaryOperator::Add), Ok(text("n=1.5")));
    assert_eq!(apply(&text("a"), &text("b"), BinaryOperator::Less), Ok(Value::Logic(true)));
}

#[test]
fn scalar_keeps_its_side() {
    let list = |a: Vec<f64>| Value::Array(a.into_iter().map(num).collect());
    let apply = |l: &Value, r: &Value, op: BinaryOperator| settle(evaluate_binary(l, r, op));
    let ones = list(vec![1.0, 2.0]);
    assert_eq!(apply(&num(10.0), &ones, BinaryOperator::Subtract), Ok(list(vec![9.0, 8.0])));
    assert_eq!(apply(&ones, &num(10.0), BinaryOperator::Subtract), Ok(list(vec![-9.0, -8.0])));
    assert_eq!(apply(&num(10.0), &ones, BinaryOperator::Divide), Ok(list(vec![10.0, 5.0])));
    assert_eq!(apply(&num(10.0), &ones, BinaryOperator::Add), Ok(list(vec![11.0, 12.0])));
    assert_eq!(apply(&num(3.0), &ones, BinaryOperator::Shl), Ok(list(vec![6.0, 12.0])));
    assert_eq!(apply(&num(12.0), &ones, BinaryOperator::Shr), Ok(list(vec![6.0, 3.0])));
    assert!(apply(&num(10.0), &list(vec![0.0]), BinaryOperator::Divide).unwrap_err().starts_with("DivZero"));
    assert!(apply(&num(1.0), &list(vec![64.0]), BinaryOperator::Shl).unwrap_err().starts_with("ValueError"));
    assert!(apply(&num(f64::NAN), &list(vec![]), BinaryOperator::BitAnd).unwrap_err().starts_with("ValueError"));
    assert!(apply(&text("a"), &ones, BinaryOperator::Add).unwrap_err().starts_with("TypeError"));
    assert!(apply(&num(1.0), &Value::Array(vec![text("a")]), BinaryOperator::Add).unwrap_err().starts_with("TypeError"));
}

#[test]
fn json_is_read_from_text() {
    assert_eq!(
        read_json("{\"b\": [1, 2.5, null], \"a\": \"x\\n\", \"c\": true}"),
        Ok(Json::Object(vec![
            ("a".to_string(), Json::String("x\n".to_string())),
            (
                "b".to_string(),
                Json::Array(vec![Json::Number(1.0f64.to_bits()), Json::Number(2.5f64.to_bits()), Json::Null]),
            ),
            ("c".to_string(), Json::Bool(true)),
        ]))
    );
    assert!(read_json("{bad").is_err());
    assert_eq!(builtin("json", "Parse", vec![text("[1]")]), Ok(Value::Array(vec![num(1.0)])));
    assert!(fault("json", "Parse", vec![text("[1")]).starts_with("ValueError: invalid JSON: EOF"));
    assert!(matches!(
        accept_json(Ok(Json::Unfit("1e999".to_string()))),
        Err(Failure::Throw { error_type, .. }) if error_type == "ValueError"
    ));
    assert!(matches!(
        accept_json(Err("why".to_string())),
        Err(Failure::Throw { message, .. }) if pieces_text(&message) == "invalid JSON: why"
    ));
}

#[test]
fn equality_is_strict_or_loose() {
    assert!(values_strict_equal(&num(0.0), &num(-0.0)));
    assert!(!values_strict_equal(&num(f64::NAN), &num(f64::NAN)));
    assert!(!values_strict_equal(&num(1.0), &text("1")));
    assert!(values_equal(
        &Value::Object(vec![("a".to_string(), num(1.0)), ("b".to_string(), Value::Null)]),
        &Value::Object(vec![("b".to_string(), Value::Null), ("a".to_string(), num(1.0))]),
    ));
    assert!(!values_equal(
        &Value::Array(vec![num(1.0)]),
        &Value::Array(vec![num(1.0), num(2.0)]),
    ));
}

#[test]
fn texts_split_and_join() {
    let parts = str_split("a,b,,c", ",");
    assert_eq!(parts, vec!["a", "b", "", "c"]);
    assert_eq!(str_join(&parts, ","), "a,b,,c");
    assert_eq!(str_split("ab", ""), vec!["", "a", "b", ""]);
    assert_eq!(str_join(&str_split("ab", ""), ""), "ab");
    assert_eq!(builtin("str", "Replace", vec![text("aXbX"), text("X"), text("--")]), Ok(text("a--b--")));
    assert_eq!(builtin("str", "Trim", vec![text("\u{3000} x \n")]), Ok(text("x")));
    assert_eq!(builtin("str", "Sub", vec![text("hello"), num(1.0), num(3.0)]), Ok(text("ell")));
    assert_eq!(builtin("str", "Len", vec![text("häß")]), Ok(num(3.0)));
}

#[test]
fn arrays_are_built_anew() {
    let list = |a: Vec<f64>| Value::Array(a.into_iter().map(num).collect());
    assert_eq!(
        builtin("arr", "Sort", vec![list(vec![3.0, -1.0, 2.0])]),
        Ok(list(vec![-1.0, 2.0, 3.0]))
    );
    assert_eq!(
        builtin("arr", "Sort", vec![Value::Array(vec![text("b"), text("A"), text("a")])]),
        Ok(Value::Array(vec![text("A"), text("a"), text("b")]))
    );
    assert!(fault("arr", "Sort", vec![Value::Array(vec![text("b"), num(1.0)])]).starts_with("TypeError"));
    assert_eq!(builtin("arr", "Reverse", vec![list(vec![1.0, 2.0])]), Ok(list(vec![2.0, 1.0])));
    assert_eq!(
        builtin("arr", "Slice", vec![list(vec![1.0, 2.0, 3.0]), num(1.0)]),
        Ok(list(vec![2.0, 3.0]))
    );
    assert!(fault("arr", "Get", vec![list(vec![1.0]), num(4.0)]).starts_with("IndexError"));
}

#[test]
fn sorting_is_stable_and_total() {
    let items: Vec<String> = ["b", "a", "c", "a"].iter().map(|s| s.to_string()).collect();
    assert_eq!(sort_texts(&items), vec!["a", "a", "b", "c"]);
}

#[test]
fn globs_match() {
    assert!(matches!(glob_match("*", "x"), Ok(true)));
    assert!(matches!(glob_match("plain", "plain"), Ok(true)));
    assert!(matches!(glob_match("plain", "plainer"), Ok(false)));
    assert!(glob_match("[a", "a").is_err());
    // An unclosed class is an error whatever the text, wherever it stands.
    assert!(glob_match("[a", "").is_err());
    assert!(glob_match("x[a", "y").is_err());
    assert!(matches!(glob_match("\\[", "["), Ok(true)));
    assert!(matches!(glob_match("[]", "x"), Err(_)));
    assert!(matches!(glob_match("a*[b-d]", "axxc"), Ok(true)));
}

#[test]
fn dates_are_written() {
    assert_eq!(format_unix_millis(951_782_400_000, "YYYY-MM-DD"), "2000-02-29");
    assert_eq!(format_unix_millis(1_709_251_199_000, "YYYY-MM-DD HH:mm:SS"), "2024-02-29 23:59:59");
    assert_eq!(format_unix_millis(4_107_542_400_000, "DD.MM.YYYY"), "01.03.2100");
}

#[test]
fn documents_come_back_as_they_went() {
    let v = Value::Object(vec![
        ("z".to_string(), Value::Array(vec![num(1.0), Value::Null])),
        ("a".to_string(), Value::Logic(true)),
    ]);
    let j = value_to_json(&v, 0).unwrap();
    assert_eq!(
        j,
        Json::Object(vec![
            ("a".to_string(), Json::Bool(true)),
            ("z".to_string(), Json::Array(vec![Json::Number(1.0f64.to_bits()), Json::Null])),
        ])
    );
    assert!(values_equal(&json_to_value(&j, 0).unwrap(), &v));
    assert!(json_to_value(&Json::Unfit("1e999".to_string()), 0).is_err());
    assert!(value_to_json(&num(f64::INFINITY), 0).is_err());
    let mut deep = Value::Null;
    for _ in 0..129 {
        deep = Value::Array(vec![deep]);
    }
    assert!(value_to_json(&deep, 0).is_err());
    assert!(json_to_value(&Json::Null, 129).is_err());
}

#[test]
fn types_are_checked() {
    assert!(check_type("n", "number", &num(1.0)).is_ok());
    assert!(check_type("n", "number", &Value::Null).is_ok());
    match check_type("n", "number", &text("x")) {
        Err(Failure::Throw { error_type, message }) => {
            assert_eq!(error_type, "TypeError");
            assert_eq!(pieces_text(&message), "expected number for var.n, got string");
        }
        other => panic!("expected an error, got {:?}", other),
    }
}

#[test]
fn random_numbers_come_from_the_host() {
    let mut m = Machine::new(ALIAS);
    m.start_value(Value::FunctionCall {
        object: Some("math".to_string()),
        module: None,
        function: "Random".to_string(),
        args: vec![],
    });
    m.run_steps(100);
    assert!(matches!(&m.focus, Focus::Await(Wait::Request(Request::Random))));
    m.answer(Event::Answer(Answer::Time { secs: 1, nanos: 7 }));
    host().drive(&mut m);
    match &m.focus {
        Focus::Value(Value::Number(n)) => {
            let x = f64::from_bits(*n);
            assert!((0.0..1.0).contains(&x), "{}", x);
        }
        other => panic!("expected a number, got {:?}", other),
    }
}

#[test]
fn clock_reads_in_milliseconds() {
    let mut m = Machine::new(ALIAS);
    let mut h = host();
    h.answers = vec![Answer::Time { secs: 12, nanos: 345_678_901 }];
    let now = Value::FunctionCall {
        object: Some("time".to_string()),
        module: None,
        function: "Now".to_string(),
        args: vec![],
    };
    assert_eq!(value_of(&mut m, &mut h, now), Ok(num(12345.0)));
    assert!(fault("time", "Now", vec![num(1.0)]).starts_with("ValueError"));
    assert_eq!(fault("time", "Then", vec![]), "NameError: Unknown time function: Then");
}

#[test]
fn numeral_gives_the_nearest_number() {
    for s in [
        "0", "1", "1.0", "0.1", "0.1000000000000000055511151231257827", "9007199254740993", "9007199254740992",
        "9007199254740995", "123456789.123456789", "3.14159265358979323846264338327950288",
        "179769313486231570814527423731704356798070567525844996598917476803157260780028538760589558632766878171540458953514382464234321326889464182768467546703537516986049910576551282076245490090389328944075868508455133942304583236903222948165808559332123347747.5",
        "0.000000000000000000000000000000000000000000000000000000000000000000000000000000000000000000000001",
        "4503599627370496.5", "4503599627370497.5", "0.5", "0.25", "18446744073709551616",
    ] {
        let chars: Vec<char> = s.chars().collect();
        assert_eq!(read_numeral(&chars), s.parse::<f64>().unwrap().to_bits(), "{}", s);
    }
    // The smallest numbers, what lies below them, and what is too large.
    for (digits, text) in [(323, "5"), (323, "3"), (323, "2"), (307, "22250738585072014")] {
        let s = format!("0.{}{}", "0".repeat(digits), text);
        let chars: Vec<char> = s.chars().collect();
        assert_eq!(read_numeral(&chars), s.parse::<f64>().unwrap().to_bits(), "{}", s);
    }
    let large: Vec<char> = "9".repeat(309).chars().collect();
    assert_eq!(read_numeral(&large), f64::INFINITY.to_bits());
}

#[test]
fn functions_with_equal_numbers_are_equal() {
    let of = |numeral: &str| {
        let source = format!("[SCRIPTTYPE KALVITA VERSION 1]\nvar local f function = () {{ return({}) }}\n", numeral);
        match Parser::parse(&source).unwrap().statements.remove(0) {
            Statement::VariableDecl { value, .. } => Value::Array(vec![value]),
            other => panic!("{:?}", other),
        }
    };
    assert!(values_strict_equal(&of("1"), &of("1.0")));
    assert!(values_strict_equal(&of("0.1"), &of("0.1000000000000000055511151231257827")));
    assert!(!values_strict_equal(&of("1"), &of("2")));
}

#[test]
fn header_version_is_a_number() {
    let version = |v: &str| Parser::parse(&format!("[SCRIPTTYPE KALVITA VERSION {}]\n", v)).unwrap().header.version;
    assert_eq!(version("1"), 1);
    assert_eq!(version("2.9"), 2);
    assert_eq!(version("9007199254740993"), 9007199254740992);
    assert_eq!(version("99999999999999999999"), u64::MAX);
}

#[test]
fn matching_from_two_places_is_matching_of_the_rests() {
    let p: Vec<char> = "a*[bc]".chars().collect();
    let t: Vec<char> = "xaxc".chars().collect();
    for i in 0..=p.len() {
        for j in 0..=t.len() {
            let rest = |v: &[char]| v.iter().collect::<String>();
            match (glob_here(&p, i, &t, j), glob_match(&rest(&p[i..]), &rest(&t[j..]))) {
                (Ok(a), Ok(b)) => assert_eq!(a, b),
                (Err(_), Err(_)) => {}
                _ => panic!("{} {}", i, j),
            }
        }
    }
}
