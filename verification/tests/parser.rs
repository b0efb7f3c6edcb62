//! Programs, expressions and statements, in one machine.

use kalvita::ast::{BinaryOperator, Statement, UnaryOperator, Value};
use kalvita::draft::{Arithmetic, Failure, Piece, Plan, RealFunction, RuntimeFault};
use kalvita::lexer::{Lexer, Token};
use kalvita::operators::evaluate_binary;
use kalvita::parser::Parser;
use kalvita::request::{Anchor, Answer, Request};
use kalvita::runtime::{LoadedModule, ModuleRuntime};
use kalvita::state::{Event, Flow, Focus, Machine, Wait};

const ALIAS: &str = "__test__";

type Env = Vec<(String, Value)>;

fn num(n: f64) -> Value {
    Value::Number(n.to_bits())
}

fn text(s: &str) -> Value {
    Value::String(s.to_string())
}

fn var(name: &str) -> Value {
    Value::Variable(name.to_string())
}

fn get<'a>(env: &'a Env, key: &str) -> Option<&'a Value> {
    env.iter().find(|(k, _)| k == key).map(|(_, v)| v)
}

/// A host that works in memory: it computes, prints into a list, keeps files in
/// a table and takes other answers from a list.
struct Host {
    files: Vec<(String, String)>,
    dirs: Vec<String>,
    printed: Vec<String>,
    answers: Vec<Answer>,
    sources: Vec<(String, String)>,
    root: Option<String>,
}

fn host() -> Host {
    Host {
        files: Vec::new(),
        dirs: Vec::new(),
        printed: Vec::new(),
        answers: Vec::new(),
        sources: Vec::new(),
        root: None,
    }
}

fn number_text(bits: u64) -> String {
    format!("{}", f64::from_bits(bits))
}

fn debug_text(v: &Value) -> String {
    match v {
        Value::Number(n) => format!("Number({:?})", f64::from_bits(*n)),
        Value::Array(items) => {
            let parts: Vec<String> = items.iter().map(debug_text).collect();
            format!("Array([{}])", parts.join(", "))
        }
        other => format!("{:?}", other),
    }
}

fn pieces_text(pieces: &[Piece]) -> String {
    let parts: Vec<String> = pieces
        .iter()
        .map(|p| match p {
            Piece::Text(s) => s.clone(),
            Piece::Number(n) => number_text(*n),
            Piece::Debug(v) => debug_text(v),
        })
        .collect();
    parts.join("")
}

fn plan_value(p: &Plan) -> Value {
    match p {
        Plan::Ready(v) => v.clone(),
        Plan::Arithmetic { op, left, right } => {
            let (a, b) = (f64::from_bits(*left), f64::from_bits(*right));
            num(match op {
                Arithmetic::Add => a + b,
                Arithmetic::Subtract => a - b,
                Arithmetic::Multiply => a * b,
                Arithmetic::Divide => a / b,
                Arithmetic::Power => a.powf(b),
            })
        }
        Plan::Function { function, of } => {
            let x = f64::from_bits(*of);
            num(match function {
                RealFunction::Sin => x.sin(),
                RealFunction::Cos => x.cos(),
                RealFunction::Tan => x.tan(),
                RealFunction::Sqrt => x.sqrt(),
                RealFunction::Floor => x.floor(),
                RealFunction::Ceil => x.ceil(),
            })
        }
        Plan::Integer(n) => num(*n as f64),
        Plan::Ratio { part, whole } => num(*part as f64 / *whole as f64),
        Plan::Text(pieces) => Value::String(pieces_text(pieces)),
        Plan::List(items) => Value::Array(items.iter().map(plan_value).collect()),
    }
}

impl Host {
    fn perform(&mut self, q: &Request) -> Answer {
        match q {
            Request::Print(p) => {
                self.printed.push(pieces_text(p));
                Answer::Done
            }
            Request::ParseNumber { text, .. } => match text.parse::<f64>() {
                Ok(n) => Answer::Number(n.to_bits()),
                Err(e) => Answer::Failed(format!("{}", e)),
            },
            Request::Args => Answer::Texts(vec!["kalvita".to_string()]),
            Request::Getenv(_) => Answer::Nothing,
            Request::Cwd => Answer::Text("/here".to_string()),
            Request::FileRead(path) => match self.files.iter().find(|(p, _)| p == path) {
                Some((_, s)) => Answer::Text(s.clone()),
                None => Answer::Failed("no such file".to_string()),
            },
            Request::FileWrite { path, content } => {
                self.files.retain(|(p, _)| p != path);
                self.files.push((path.clone(), pieces_text(content)));
                Answer::Done
            }
            Request::FileAppend { path, content } => {
                let old = match self.files.iter().find(|(p, _)| p == path) {
                    Some((_, s)) => s.clone(),
                    None => String::new(),
                };
                self.files.retain(|(p, _)| p != path);
                self.files.push((path.clone(), format!("{}{}", old, pieces_text(content))));
                Answer::Done
            }
            Request::FileExists(path) => {
                Answer::Flag(self.files.iter().any(|(p, _)| p == path) || self.dirs.iter().any(|p| p == path))
            }
            Request::FileRemove(path) => {
                self.files.retain(|(p, _)| p != path);
                Answer::Done
            }
            Request::FileList(path) => {
                let prefix = format!("{}/", path);
                let names = self
                    .files
                    .iter()
                    .map(|(p, _)| p)
                    .chain(self.dirs.iter())
                    .filter(|p| p.starts_with(&prefix))
                    .map(|p| p[prefix.len()..].split('/').next().unwrap().to_string())
                    .collect();
                Answer::Texts(names)
            }
            Request::FileMakeDir(path) => {
                self.dirs.push(path.clone());
                Answer::Done
            }
            Request::Locate { anchor, importer, path } => {
                let base = match anchor {
                    Anchor::ProjectRoot => match &self.root {
                        Some(root) => root.clone(),
                        None => return Answer::Nothing,
                    },
                    Anchor::FileSystem => String::new(),
                    Anchor::Importer => importer.clone(),
                };
                let name = path.trim_start_matches("./").trim_start_matches('/').to_string();
                let canonical = format!("{}/{}", base, name);
                match self.sources.iter().find(|(p, _)| *p == canonical) {
                    Some(_) => {
                        let file = canonical.rsplit('/').next().unwrap();
                        let directory = canonical[..canonical.len() - file.len() - 1].to_string();
                        let stem = file.split('.').next().unwrap().to_string();
                        Answer::Located { canonical: canonical.clone(), directory, stem: Some(stem) }
                    }
                    None => Answer::Failed("no such file".to_string()),
                }
            }
            Request::ReadSource(path) => match self.sources.iter().find(|(p, _)| p == path) {
                Some((_, s)) => Answer::Text(s.clone()),
                None => Answer::Failed("no such file".to_string()),
            },
            _ => {
                if self.answers.is_empty() {
                    panic!("no answer to {:?}", q);
                }
                self.answers.remove(0)
            }
        }
    }

    fn drive(&mut self, m: &mut Machine) {
        loop {
            m.run_steps(10_000);
            if m.is_busy() {
                continue;
            }
            let event = match &m.focus {
                Focus::Await(Wait::Plan(p)) => Event::Value(plan_value(p)),
                Focus::Await(Wait::Request(q)) => Event::Answer(self.perform(q)),
                _ => return,
            };
            m.answer(event);
        }
    }
}

fn is_throw(r: &Result<Value, RuntimeFault>, want: &str) -> bool {
    matches!(r, Err(RuntimeFault::Throw(Value::Error { error_type, .. })) if error_type == want)
}

fn settle(p: Result<Plan, Failure>) -> Result<Value, String> {
    match p {
        Ok(p) => Ok(plan_value(&p)),
        Err(Failure::Fatal(m)) => Err(m),
        Err(Failure::Throw { error_type, message }) => Err(format!("{}: {}", error_type, pieces_text(&message))),
    }
}

fn value_of(m: &mut Machine, h: &mut Host, v: Value) -> Result<Value, RuntimeFault> {
    m.start_value(v);
    h.drive(m);
    match &m.focus {
        Focus::Value(v) => Ok(v.clone()),
        Focus::Fault(f) => Err(f.copy()),
        other => panic!("neither value nor fault: {:?}", other),
    }
}

fn execute(m: &mut Machine, h: &mut Host, st: &Statement) -> Result<(), RuntimeFault> {
    m.start_statement(st.clone());
    h.drive(m);
    match &m.focus {
        Focus::Flow(_) => Ok(()),
        Focus::Fault(f) => Err(f.copy()),
        other => panic!("neither flow nor fault: {:?}", other),
    }
}

fn eval(v: Value, env: &Env) -> Result<Value, RuntimeFault> {
    let mut m = Machine::new(ALIAS);
    m.scope.env = env.clone();
    value_of(&mut m, &mut host(), v)
}

fn call(object: Option<&str>, function: &str, args: Vec<Value>, env: &Env) -> Result<Value, RuntimeFault> {
    let call = Value::FunctionCall {
        object: object.map(|s| s.to_string()),
        module: None,
        function: function.to_string(),
        args,
    };
    eval(call, env)
}

fn event_body(source: &str) -> Vec<Statement> {
    let program = Parser::parse(source).unwrap();
    match &program.statements[0] {
        Statement::Event { body, .. } => body.clone(),
        _ => panic!("expected event"),
    }
}

/// Statements one by one in one machine.
struct Session {
    m: Machine,
}

fn session() -> Session {
    Session { m: Machine::new(ALIAS) }
}

impl Session {
    fn run(&mut self, st: &Statement) -> Result<(), RuntimeFault> {
        execute(&mut self.m, &mut host(), st)
    }

    fn env(&self) -> &Env {
        &self.m.scope.env
    }
}

#[test]
fn parser_parses_header_and_kal_event() {
    let source = "[SCRIPTTYPE KALVITA VERSION 1]\nkal.OnStart {\n    var local wow string = \"Hello world\"\n    con.Print(wow)\n}\n";

    let program = Parser::parse(source).unwrap();
    assert_eq!(program.header.version, 1);
    assert_eq!(program.header.script_type, "SCRIPTTYPE");
    assert_eq!(program.header.language, "KALVITA");
    assert!(matches!(
        &program.statements[0],
        Statement::Event { object, name, .. } if object == "kal" && name == "OnStart"
    ));
}

#[test]
fn parser_parses_null_variable_and_literal() {
    let source = "[SCRIPTTYPE KALVITA VERSION 1]\nkal.OnStart {\n    var local empty null = null\n    con.Print(empty)\n}\n";

    let program = Parser::parse(source).unwrap();
    assert!(matches!(
        &program.statements[0],
        Statement::Event { object, name, .. } if object == "kal" && name == "OnStart"
    ));
}

#[test]
fn parser_parses_function_as_variable_and_call() {
    let source = "[SCRIPTTYPE KALVITA VERSION 1]\nkal.OnStart {\n    var local add function = (a, b) {\n        con.Print(a, b)\n    }\n    add(\"hi\", 42)\n}\n";

    let program = Parser::parse(source).unwrap();
    assert!(matches!(
        &program.statements[0],
        Statement::Event { object, name, .. } if object == "kal" && name == "OnStart"
    ));
}

#[test]
fn parser_parses_math_and_if_else_if_else_blocks() {
    let source = "[SCRIPTTYPE KALVITA VERSION 1]\nkal.OnStart {\n    var local score number = 7\n    var local active logic = true\n    if (score > 5) {\n        con.Print(\"big\")\n    } elseif (active == true) {\n        con.Print(\"active\")\n    } else {\n        con.Print(\"small\")\n    }\n}\n";

    let program = Parser::parse(source).unwrap();
    assert!(matches!(
        &program.statements[0],
        Statement::Event { object, name, .. } if object == "kal" && name == "OnStart"
    ));

    let if_stmt = match &program.statements[0] {
        Statement::Event { body, .. } => body.iter().find(|stmt| matches!(stmt, Statement::If { .. })).unwrap(),
        _ => panic!("expected event body"),
    };

    assert!(matches!(
        if_stmt,
        Statement::If { else_if_branches, .. } if !else_if_branches.is_empty()
    ));
}

#[test]
fn parser_redeclaring_variable_updates_value() {
    let first = Statement::VariableDecl {
        name: "score".to_string(),
        declared: "number".to_string(),
        value: num(10.0),
    };
    let second = Statement::VariableDecl {
        name: "score".to_string(),
        declared: "number".to_string(),
        value: num(15.0),
    };

    let mut s = session();
    s.run(&first).unwrap();
    s.run(&second).unwrap();

    assert_eq!(get(s.env(), "var.score"), Some(&num(15.0)));
}

#[test]
fn parser_function_call_used_as_value_returns_result() {
    let environment = vec![(
        "var.add".to_string(),
        Value::Function {
            params: vec!["a".to_string(), "b".to_string()],
            defaults: Vec::new(),
            body: vec![Statement::Return {
                value: Box::new(Value::Binary {
                    left: Box::new(var("arg.a")),
                    op: BinaryOperator::Add,
                    right: Box::new(var("arg.b")),
                }),
            }],
        },
    )];

    let result = eval(
        Value::FunctionCall {
            object: None,
            module: None,
            function: "add".to_string(),
            args: vec![num(15.0), num(2.0)],
        },
        &environment,
    )
    .unwrap();

    assert_eq!(result, num(17.0));
}

#[test]
fn parser_namespaced_var_and_arg_access_parse_and_resolve() {
    let source = "[SCRIPTTYPE KALVITA VERSION 1]\nkal.OnStart {\n    var local score number = 15\n    var local add function = (a, b) {\n        return(arg.a + arg.b)\n    }\n    con.Print(var.score)\n    con.Print(add(15 + 2))\n}\n";

    let program = Parser::parse(source).unwrap();
    assert!(matches!(
        &program.statements[0],
        Statement::Event { object, name, .. } if object == "kal" && name == "OnStart"
    ));

    let environment = vec![
        ("var.score".to_string(), num(15.0)),
        ("arg.a".to_string(), num(7.0)),
        ("arg.b".to_string(), num(2.0)),
    ];

    let resolved = eval(var("var.score"), &environment).unwrap();
    assert_eq!(resolved, num(15.0));
    let arg_a = eval(var("arg.a"), &environment).unwrap();
    assert_eq!(arg_a, num(7.0));
}

#[test]
fn parser_naked_variables_are_rejected() {
    let environment = vec![("var.score".to_string(), num(15.0))];

    let result = eval(var("score"), &environment);
    assert!(result.is_err());
}

#[test]
fn parser_logic_gate_operations_work() {
    let environment = vec![
        ("var.active".to_string(), Value::Logic(true)),
        ("var.ready".to_string(), Value::Logic(true)),
        ("var.blocked".to_string(), Value::Logic(false)),
    ];

    let and_result = eval(
        Value::Binary {
            left: Box::new(var("var.active")),
            op: BinaryOperator::And,
            right: Box::new(var("var.ready")),
        },
        &environment,
    )
    .unwrap();
    assert_eq!(and_result, Value::Logic(true));

    let or_result = eval(
        Value::Binary {
            left: Box::new(var("var.blocked")),
            op: BinaryOperator::Or,
            right: Box::new(var("var.active")),
        },
        &environment,
    )
    .unwrap();
    assert_eq!(or_result, Value::Logic(true));

    let not_result = eval(
        Value::Unary { op: UnaryOperator::Not, value: Box::new(var("var.blocked")) },
        &environment,
    )
    .unwrap();
    assert_eq!(not_result, Value::Logic(true));
}

#[test]
fn parser_trigonometric_functions_work() {
    let environment = Vec::new();

    match call(Some("math"), "Sin", vec![num(0.0)], &environment).unwrap() {
        Value::Number(value) => assert!((f64::from_bits(value) - 0.0).abs() < 1e-9),
        _ => panic!("Sin should return a number"),
    }

    match call(Some("math"), "Cos", vec![num(0.0)], &environment).unwrap() {
        Value::Number(value) => assert!((f64::from_bits(value) - 1.0).abs() < 1e-9),
        _ => panic!("Cos should return a number"),
    }

    match call(Some("math"), "Tan", vec![num(0.0)], &environment).unwrap() {
        Value::Number(value) => assert!((f64::from_bits(value) - 0.0).abs() < 1e-9),
        _ => panic!("Tan should return a number"),
    }
}

#[test]
fn parser_object_values_and_pass_work() {
    let environment = vec![
        (
            "var.enemy".to_string(),
            Value::Object(vec![
                ("health".to_string(), num(40.0)),
                ("damage".to_string(), num(5.0)),
                ("speed".to_string(), num(10.0)),
            ]),
        ),
        (
            "var.attack".to_string(),
            Value::Function {
                params: vec![],
                defaults: Vec::new(),
                body: vec![Statement::Return {
                    value: Box::new(Value::Property { target: Box::new(var("pass")), key: "health".to_string() }),
                }],
            },
        ),
    ];

    let result = call(Some("enemy"), "attack", vec![], &environment).unwrap();
    assert_eq!(result, num(40.0));

    let null_result = call(None, "attack", vec![], &environment).unwrap();
    assert_eq!(null_result, Value::Null);
}

#[test]
fn parser_namespaced_function_calls_parse_as_method_calls() {
    let source = "[SCRIPTTYPE KALVITA VERSION 1]\nkal.OnStart {\n    var local enemy object = { health: 40, damage: 5 }\n    con.Print(math.Sin(0))\n    enemy.attack()\n}\n";

    let program = Parser::parse(source).unwrap();
    assert!(matches!(
        &program.statements[0],
        Statement::Event { object, name, .. } if object == "kal" && name == "OnStart"
    ));
}

#[test]
fn parser_case_insensitive_and_sensitive_string_equality_work() {
    let environment = vec![("var.name".to_string(), text("Hello"))];
    let compare = |op: BinaryOperator, other: &str| {
        eval(
            Value::Binary { left: Box::new(var("var.name")), op, right: Box::new(text(other)) },
            &environment,
        )
        .unwrap()
    };

    assert_eq!(compare(BinaryOperator::Equal, "hello"), Value::Logic(true));
    assert_eq!(compare(BinaryOperator::StrictEqual, "hello"), Value::Logic(false));
    assert_eq!(compare(BinaryOperator::NotEqual, "world"), Value::Logic(true));
    assert_eq!(compare(BinaryOperator::StrictNotEqual, "Hello"), Value::Logic(false));
}

#[test]
fn parser_function_arguments_are_stored_as_array() {
    let environment = vec![
        ("var.score".to_string(), num(42.0)),
        (
            "var.doSomething".to_string(),
            Value::Function {
                params: vec!["a".to_string()],
                defaults: Vec::new(),
                body: vec![Statement::Return { value: Box::new(var("arg")) }],
            },
        ),
    ];

    let result = eval(
        Value::FunctionCall {
            object: None,
            module: None,
            function: "doSomething".to_string(),
            args: vec![
                text("arg1"),
                var("var.score"),
                num(3.0),
                Value::Array(vec![text("you can"), text("also have")]),
            ],
        },
        &environment,
    )
    .unwrap();

    assert_eq!(
        result,
        Value::Array(vec![
            text("arg1"),
            num(42.0),
            num(3.0),
            Value::Array(vec![text("you can"), text("also have")]),
        ])
    );
}

#[test]
fn parser_array_numeric_math_broadcasts_and_string_arrays_error() {
    let nums = Value::Array(vec![num(12.0), num(64.0), num(9.0), num(747.0)]);

    let result = settle(evaluate_binary(&nums, &num(10.0), BinaryOperator::Add)).unwrap();
    assert_eq!(result, Value::Array(vec![num(22.0), num(74.0), num(19.0), num(757.0)]));

    let longer = Value::Array(vec![num(12.0), num(42.0), num(6.0), num(2.0)]);
    let shorter = Value::Array(vec![num(11.0), num(6.0)]);
    let repeated = settle(evaluate_binary(&longer, &shorter, BinaryOperator::Add)).unwrap();
    assert_eq!(repeated, Value::Array(vec![num(23.0), num(48.0), num(17.0), num(8.0)]));

    let strings = Value::Array(vec![text("apple"), text("banana")]);
    assert!(evaluate_binary(&strings, &num(10.0), BinaryOperator::Add).is_err());
}

#[test]
fn parser_array_indexing_and_comparison_work() {
    let environment = vec![(
        "var.items".to_string(),
        Value::Array(vec![text("apple"), text("banana"), text("orange")]),
    )];

    let first = eval(
        Value::Index { target: Box::new(var("var.items")), index: Box::new(num(0.0)) },
        &environment,
    )
    .unwrap();
    assert_eq!(first, text("apple"));

    let compare = settle(evaluate_binary(&num(15.0), &num(10.0), BinaryOperator::Greater)).unwrap();
    assert_eq!(compare, Value::Logic(true));
}

#[test]
fn parser_bitwise_truth_table_and_shifts() {
    let cases = vec![
        ("6 & 3", 2.0),
        ("6 | 3", 7.0),
        ("6 ^ 3", 5.0),
        ("~0", -1.0),
        ("~5", -6.0),
        ("1 << 10", 1024.0),
        ("(0 - 8) >> 2", -2.0),
        ("7.9 & 3.1", 3.0),
        ("2 + 1 << 2", 12.0),
        ("15 ^ 1 ^ 1", 15.0),
    ];
    for (source, expected) in cases {
        let full = format!(
            "[SCRIPTTYPE KALVITA VERSION 1]\nkal.OnStart {{\n    var local r number = {}\n}}\n",
            source
        );
        let body = event_body(&full);
        let mut s = session();
        s.run(&body[0]).unwrap();
        assert_eq!(get(s.env(), "var.r"), Some(&num(expected)), "failed for {}", source);
    }
}

#[test]
fn parser_bitwise_errors_are_catchable() {
    let env = Vec::new();
    // Non-number operand.
    assert!(matches!(
        eval(
            Value::Binary {
                left: Box::new(text("a")),
                op: BinaryOperator::BitAnd,
                right: Box::new(num(1.0)),
            },
            &env,
        ),
        Err(RuntimeFault::Throw(_))
    ));
    // Negative shift.
    assert!(matches!(
        eval(
            Value::Binary { left: Box::new(num(1.0)), op: BinaryOperator::Shl, right: Box::new(num(-1.0)) },
            &env,
        ),
        Err(RuntimeFault::Throw(_))
    ));
    // Bitwise broadcasts over arrays.
    let broadcast = eval(
        Value::Binary {
            left: Box::new(Value::Array(vec![num(12.0), num(10.0)])),
            op: BinaryOperator::BitAnd,
            right: Box::new(num(10.0)),
        },
        &env,
    )
    .unwrap();
    assert_eq!(broadcast, Value::Array(vec![num(8.0), num(10.0)]));
}

#[test]
fn parser_strict_equality_tokens_lex_and_parse() {
    let mut lexer = Lexer::new("a === b !== c");
    let tokens = lexer.tokenize();
    assert!(tokens.contains(&Token::StrictEqual));
    assert!(tokens.contains(&Token::StrictNotEqual));
    let source = "[SCRIPTTYPE KALVITA VERSION 1]\nkal.OnStart {\n    var local r logic = \"Hi\" === \"hi\"\n}\n";
    let body = event_body(source);
    let mut s = session();
    s.run(&body[0]).unwrap();
    assert_eq!(get(s.env(), "var.r"), Some(&Value::Logic(false)));
}

#[test]
fn parser_assignment_and_compound_ops() {
    let source = "[SCRIPTTYPE KALVITA VERSION 1]\nkal.OnStart {\n    var local x number = 10\n    var.x = 15\n    var.x += 5\n    var.x *= 2\n    var local pair array = [1, 2, 3]\n    var.pair[0] = 99\n    var local hero object = { health: 40 }\n    var.hero.health = 50\n}\n";
    let mut s = session();
    for stmt in &event_body(source) {
        s.run(stmt).unwrap();
    }
    assert_eq!(get(s.env(), "var.x"), Some(&num(40.0)));
    assert_eq!(
        get(s.env(), "var.pair"),
        Some(&Value::Array(vec![num(99.0), num(2.0), num(3.0)]))
    );
    match get(s.env(), "var.hero") {
        Some(Value::Object(map)) => assert_eq!(get(map, "health"), Some(&num(50.0))),
        other => panic!("expected hero object, got {:?}", other),
    }
}

#[test]
fn parser_assign_to_undeclared_is_name_error() {
    let source = "[SCRIPTTYPE KALVITA VERSION 1]\nkal.OnStart {\n    var.nope = 1\n}\n";
    let body = event_body(source);
    assert!(matches!(
        session().run(&body[0]),
        Err(RuntimeFault::Throw(Value::Error { error_type, .. })) if error_type == "NameError"
    ));
}

#[test]
fn parser_float_index_is_type_error() {
    let env = vec![("var.items".to_string(), Value::Array(vec![num(1.0)]))];
    let err = eval(
        Value::Index { target: Box::new(var("var.items")), index: Box::new(num(1.9)) },
        &env,
    );
    assert!(is_throw(&err, "TypeError"));
}

#[test]
fn parser_switch_first_match_and_default() {
    for (value, expected) in [(num(2.0), "two"), (num(9.0), "other"), (text("Hi"), "other")] {
        let source = "[SCRIPTTYPE KALVITA VERSION 1]\nkal.OnStart {\n    switch (var.v) {\n        case (1) { var local r string = \"one\" }\n        case (2) { var local r string = \"two\" }\n        default { var local r string = \"other\" }\n    }\n}\n";
        let mut s = session();
        s.m.scope.env.push(("var.v".to_string(), value));
        for stmt in &event_body(source) {
            s.run(stmt).unwrap();
        }
        assert_eq!(get(s.env(), "var.r"), Some(&text(expected)));
    }
}

#[test]
fn parser_range_for_iterates_and_range_value_errors() {
    let source = "[SCRIPTTYPE KALVITA VERSION 1]\nkal.OnStart {\n    var local total number = 0\n    for (i in 0..5) {\n        var local total number = var.total + var.i\n    }\n}\n";
    let mut s = session();
    for stmt in &event_body(source) {
        s.run(stmt).unwrap();
    }
    assert_eq!(get(s.env(), "var.total"), Some(&num(10.0)));
    // Bare range as a value is a TypeError outside for-in.
    assert!(matches!(
        eval(
            Value::Binary { left: Box::new(num(0.0)), op: BinaryOperator::Range, right: Box::new(num(3.0)) },
            &Vec::new(),
        ),
        Err(RuntimeFault::Throw(_))
    ));
}

#[test]
fn parser_string_interpolation_concats() {
    let source = "[SCRIPTTYPE KALVITA VERSION 1]\nkal.OnStart {\n    var local name string = \"Nova\"\n    var local msg string = \"hi ${var.name}!\"\n}\n";
    let mut s = session();
    for stmt in &event_body(source) {
        s.run(stmt).unwrap();
    }
    assert_eq!(get(s.env(), "var.msg"), Some(&text("hi Nova!")));
}

#[test]
fn parser_default_params_fill_and_missing_required_errors() {
    let source = "[SCRIPTTYPE KALVITA VERSION 1]\nkal.OnStart {\n    var local greet function = (name = \"World\") {\n        return(arg.name)\n    }\n    var local a string = greet()\n    var local b string = greet(\"Nova\")\n}\n";
    let mut s = session();
    for stmt in &event_body(source) {
        s.run(stmt).unwrap();
    }
    assert_eq!(get(s.env(), "var.a"), Some(&text("World")));
    assert_eq!(get(s.env(), "var.b"), Some(&text("Nova")));
    // Missing required param.
    let source = "[SCRIPTTYPE KALVITA VERSION 1]\nkal.OnStart {\n    var local f function = (x) {\n        return(arg.x)\n    }\n    var local r number = f()\n}\n";
    let mut s = session();
    let mut failed = false;
    for stmt in &event_body(source) {
        if let Err(RuntimeFault::Throw(_)) = s.run(stmt) {
            failed = true;
        }
    }
    assert!(failed);
}

#[test]
fn parser_infinite_recursion_is_fatal() {
    let source = "[SCRIPTTYPE KALVITA VERSION 1]\nkal.OnStart {\n    var local loop function = () {\n        return(loop())\n    }\n    var local r number = loop()\n}\n";
    let mut s = session();
    let mut saw_fatal = false;
    for stmt in &event_body(source) {
        if let Err(RuntimeFault::Fatal(_)) = s.run(stmt) {
            saw_fatal = true;
        }
    }
    assert!(saw_fatal);
}

#[test]
fn parser_stdlib_spot_checks() {
    let source = "[SCRIPTTYPE KALVITA VERSION 1]\nkal.OnStart {\n    var local a string = str.Upper(\"hey\")\n    var local b array = str.Split(\"x,y\", \",\")\n    var local c number = arr.Len(var.b)\n    var local d number = math.Sqrt(16)\n    var local e number = math.Clamp(99, 0, 10)\n    var local f array = arr.Sort([3, 1, 2])\n    var local g string = arr.Join(var.f, \"-\")\n    var local h logic = str.Contains(\"hello\", \"ell\")\n}\n";
    let mut s = session();
    for stmt in &event_body(source) {
        s.run(stmt).unwrap();
    }
    assert_eq!(get(s.env(), "var.a"), Some(&text("HEY")));
    assert_eq!(get(s.env(), "var.c"), Some(&num(2.0)));
    assert_eq!(get(s.env(), "var.d"), Some(&num(4.0)));
    assert_eq!(get(s.env(), "var.e"), Some(&num(10.0)));
    assert_eq!(
        get(s.env(), "var.f"),
        Some(&Value::Array(vec![num(1.0), num(2.0), num(3.0)]))
    );
    assert_eq!(get(s.env(), "var.g"), Some(&text("1-2-3")));
    assert_eq!(get(s.env(), "var.h"), Some(&Value::Logic(true)));
}

#[test]
fn parser_parses_global_decl_and_declare() {
    let source = "[SCRIPTTYPE KALVITA VERSION 1]\ndeclare(\"./math.kal\")\ndeclare(\"./quiet.kal\", false)\nvar global share number = 53\nkal.OnStart {\n    con.Print(var.share)\n}\n";

    let program = Parser::parse(source).unwrap();
    assert!(matches!(
        &program.statements[0],
        Statement::Declare { path, run } if path == "./math.kal" && *run
    ));
    assert!(matches!(
        &program.statements[1],
        Statement::Declare { path, run } if path == "./quiet.kal" && !*run
    ));
    assert!(matches!(
        &program.statements[2],
        Statement::GlobalDecl { name, .. } if name == "share"
    ));
}

#[test]
fn parser_parses_module_access_and_call() {
    let source = "[SCRIPTTYPE KALVITA VERSION 1]\nkal.OnStart {\n    con.Print(math:var.share)\n    con.Print(math:double(21))\n}\n";

    let body = event_body(source);
    assert!(matches!(
        &body[0],
        Statement::FunctionCall { object, function, args, .. }
            if object.as_deref() == Some("con")
                && function == "Print"
                && matches!(&args[0], Value::ModuleVar { alias, name } if alias == "math" && name == "share")
    ));
    assert!(matches!(
        &body[1],
        Statement::FunctionCall { object, args, .. }
            if object.as_deref() == Some("con")
                && matches!(&args[0], Value::FunctionCall { module, function, .. } if module.as_deref() == Some("math") && function == "double")
    ));
}

#[test]
fn parser_declare_must_be_top_level() {
    let source = "[SCRIPTTYPE KALVITA VERSION 1]\nkal.OnStart {\n    declare(\"./math.kal\")\n}\n";
    assert!(Parser::parse(source).is_err());
}

#[test]
fn parser_catch_must_be_inside_try_still_rejected() {
    let source = "[SCRIPTTYPE KALVITA VERSION 1]\nkal.OnStart {\n    catch (Error) {\n        con.Print(\"x\")\n    }\n}\n";
    assert!(Parser::parse(source).is_err());
}

fn module_test_runtime() -> ModuleRuntime {
    let mut rt = ModuleRuntime::new();
    rt.modules.push((
        "math".to_string(),
        LoadedModule {
            path: "math.kal".to_string(),
            top_locals: Vec::new(),
            top_local_types: Vec::new(),
            globals: vec![
                ("var.share".to_string(), num(53.0)),
                (
                    "var.double".to_string(),
                    Value::Function {
                        params: vec!["x".to_string()],
                        defaults: Vec::new(),
                        body: vec![Statement::Return {
                            value: Box::new(Value::Binary {
                                left: Box::new(var("arg.x")),
                                op: BinaryOperator::Multiply,
                                right: Box::new(num(2.0)),
                            }),
                        }],
                    },
                ),
            ],
            global_names: vec!["share".to_string(), "double".to_string()],
            global_types: vec![
                ("share".to_string(), "number".to_string()),
                ("double".to_string(), "function".to_string()),
            ],
            program: None,
            onstart_executed: true,
        },
    ));
    rt
}

fn module_var(alias: &str, name: &str) -> Value {
    Value::ModuleVar { alias: alias.to_string(), name: name.to_string() }
}

#[test]
fn parser_module_var_reads_live_globals() {
    let mut m = Machine::new(ALIAS);
    m.rt = module_test_runtime();
    let value = value_of(&mut m, &mut host(), module_var("math", "share")).unwrap();
    assert_eq!(value, num(53.0));
}

#[test]
fn parser_unknown_module_is_name_error() {
    let err = eval(module_var("nope", "share"), &Vec::new());
    assert!(is_throw(&err, "NameError"));
}

#[test]
fn parser_module_function_call_runs_against_module_tables() {
    let mut m = Machine::new(ALIAS);
    m.rt = module_test_runtime();
    let call = Value::FunctionCall {
        object: None,
        module: Some("math".to_string()),
        function: "double".to_string(),
        args: vec![num(21.0)],
    };
    assert_eq!(value_of(&mut m, &mut host(), call).unwrap(), num(42.0));
}

#[test]
fn parser_global_decl_writes_live_store_and_local_reads_win() {
    let mut m = Machine::new(ALIAS);
    let mut h = host();
    let decl = Statement::GlobalDecl {
        name: "share".to_string(),
        declared: "number".to_string(),
        value: num(53.0),
    };
    execute(&mut m, &mut h, &decl).unwrap();
    // Live store read.
    let env = m.scope.env.clone();
    m.scope.env = Vec::new();
    assert_eq!(value_of(&mut m, &mut h, module_var(ALIAS, "share")).unwrap(), num(53.0));
    m.scope.env = env;
    // Plain var read prefers the live global too.
    assert_eq!(value_of(&mut m, &mut h, var("var.share")).unwrap(), num(53.0));
    // A later global redeclare updates both views.
    let redecl = Statement::GlobalDecl {
        name: "share".to_string(),
        declared: "number".to_string(),
        value: num(99.0),
    };
    execute(&mut m, &mut h, &redecl).unwrap();
    assert_eq!(value_of(&mut m, &mut h, var("var.share")).unwrap(), num(99.0));
}
