//! Types, builtins, files, databases and widgets.

use kalvita::ast::{GuiKind, Statement, Value};
use kalvita::draft::{Arithmetic, Failure, Piece, Plan, RealFunction, RuntimeFault};
use kalvita::gui::gui_method;
use kalvita::json::Json;
use kalvita::parser::Parser;
use kalvita::render::snapshot;
use kalvita::request::{Anchor, Answer, Cell, Choice, Request, Sql};
use kalvita::runtime::ModuleRuntime;
use kalvita::state::{Event, Flow, Focus, Machine, Wait};
use kalvita::syslib::db_param_value;

const ALIAS: &str = "__test__";

type Env = Vec<(String, Value)>;

fn num(n: f64) -> Value {
    Value::Number(n.to_bits())
}

fn text(s: &str) -> Value {
    Value::String(s.to_string())
}

fn var(name: &str) -> Value {
    Value::Variable(name.to_string())
}

fn get<'a>(env: &'a Env, key: &str) -> Option<&'a Value> {
    env.iter().find(|(k, _)| k == key).map(|(_, v)| v)
}

/// A host that works in memory: it computes, prints into a list, keeps files in
/// a table and takes other answers from a list.
struct Host {
    files: Vec<(String, String)>,
    dirs: Vec<String>,
    printed: Vec<String>,
    answers: Vec<Answer>,
    sources: Vec<(String, String)>,
    root: Option<String>,
}

fn host() -> Host {
    Host {
        files: Vec::new(),
        dirs: Vec::new(),
        printed: Vec::new(),
        answers: Vec::new(),
        sources: Vec::new(),
        root: None,
    }
}

fn number_text(bits: u64) -> String {
    format!("{}", f64::from_bits(bits))
}

fn debug_text(v: &Value) -> String {
    match v {
        Value::Number(n) => format!("Number({:?})", f64::from_bits(*n)),
        Value::Array(items) => {
            let parts: Vec<String> = items.iter().map(debug_text).collect();
            format!("Array([{}])", parts.join(", "))
        }
        other => format!("{:?}", other),
    }
}

fn pieces_text(pieces: &[Piece]) -> String {
    let parts: Vec<String> = pieces
        .iter()
        .map(|p| match p {
            Piece::Text(s) => s.clone(),
            Piece::Number(n) => number_text(*n),
            Piece::Debug(v) => debug_text(v),
        })
        .collect();
    parts.join("")
}

fn plan_value(p: &Plan) -> Value {
    match p {
        Plan::Ready(v) => v.clone(),
        Plan::Arithmetic { op, left, right } => {
            let (a, b) = (f64::from_bits(*left), f64::from_bits(*right));
            num(match op {
                Arithmetic::Add => a + b,
                Arithmetic::Subtract => a - b,
                Arithmetic::Multiply => a * b,
                Arithmetic::Divide => a / b,
                Arithmetic::Power => a.powf(b),
            })
        }
        Plan::Function { function, of } => {
            let x = f64::from_bits(*of);
            num(match function {
                RealFunction::Sin => x.sin(),
                RealFunction::Cos => x.cos(),
                RealFunction::Tan => x.tan(),
                RealFunction::Sqrt => x.sqrt(),
                RealFunction::Floor => x.floor(),
                RealFunction::Ceil => x.ceil(),
            })
        }
        Plan::Integer(n) => num(*n as f64),
        Plan::Ratio { part, whole } => num(*part as f64 / *whole as f64),
        Plan::Text(pieces) => Value::String(pieces_text(pieces)),
        Plan::List(items) => Value::Array(items.iter().map(plan_value).collect()),
    }
}

impl Host {
    fn perform(&mut self, q: &Request) -> Answer {
        match q {
            Request::Print(p) => {
                self.printed.push(pieces_text(p));
                Answer::Done
            }
            Request::ParseNumber { text, .. } => match text.parse::<f64>() {
                Ok(n) => Answer::Number(n.to_bits()),
                Err(e) => Answer::Failed(format!("{}", e)),
            },
            Request::Args => Answer::Texts(vec!["kalvita".to_string()]),
            Request::Getenv(_) => Answer::Nothing,
            Request::Cwd => Answer::Text("/here".to_string()),
            Request::FileRead(path) => match self.files.iter().find(|(p, _)| p == path) {
                Some((_, s)) => Answer::Text(s.clone()),
                None => Answer::Failed("no such file".to_string()),
            },
            Request::FileWrite { path, content } => {
                self.files.retain(|(p, _)| p != path);
                self.files.push((path.clone(), pieces_text(content)));
                Answer::Done
            }
            Request::FileAppend { path, content } => {
                let old = match self.files.iter().find(|(p, _)| p == path) {
                    Some((_, s)) => s.clone(),
                    None => String::new(),
                };
                self.files.retain(|(p, _)| p != path);
                self.files.push((path.clone(), format!("{}{}", old, pieces_text(content))));
                Answer::Done
            }
            Request::FileExists(path) => {
                Answer::Flag(self.files.iter().any(|(p, _)| p == path) || self.dirs.iter().any(|p| p == path))
            }
            Request::FileRemove(path) => {
                self.files.retain(|(p, _)| p != path);
                Answer::Done
            }
            Request::FileList(path) => {
                let prefix = format!("{}/", path);
                let names = self
                    .files
                    .iter()
                    .map(|(p, _)| p)
                    .chain(self.dirs.iter())
                    .filter(|p| p.starts_with(&prefix))
                    .map(|p| p[prefix.len()..].split('/').next().unwrap().to_string())
                    .collect();
                Answer::Texts(names)
            }
            Request::FileMakeDir(path) => {
                self.dirs.push(path.clone());
                Answer::Done
            }
            Request::Locate { anchor, importer, path } => {
                let base = match anchor {
                    Anchor::ProjectRoot => match &self.root {
                        Some(root) => root.clone(),
                        None => return Answer::Nothing,
                    },
                    Anchor::FileSystem => String::new(),
                    Anchor::Importer => importer.clone(),
                };
                let name = path.trim_start_matches("./").trim_start_matches('/').to_string();
                let canonical = format!("{}/{}", base, name);
                match self.sources.iter().find(|(p, _)| *p == canonical) {
                    Some(_) => {
                        let file = canonical.rsplit('/').next().unwrap();
                        let directory = canonical[..canonical.len() - file.len() - 1].to_string();
                        let stem = file.split('.').next().unwrap().to_string();
                        Answer::Located { canonical: canonical.clone(), directory, stem: Some(stem) }
                    }
                    None => Answer::Failed("no such file".to_string()),
                }
            }
            Request::ReadSource(path) => match self.sources.iter().find(|(p, _)| p == path) {
                Some((_, s)) => Answer::Text(s.clone()),
                None => Answer::Failed("no such file".to_string()),
            },
            _ => {
                if self.answers.is_empty() {
                    panic!("no answer to {:?}", q);
                }
                self.answers.remove(0)
            }
        }
    }

    fn drive(&mut self, m: &mut Machine) {
        loop {
            m.run_steps(10_000);
            if m.is_busy() {
                continue;
            }
            let event = match &m.focus {
                Focus::Await(Wait::Plan(p)) => Event::Value(plan_value(p)),
                Focus::Await(Wait::Request(q)) => Event::Answer(self.perform(q)),
                _ => return,
            };
            m.answer(event);
        }
    }
}

fn fault_text(f: &RuntimeFault) -> String {
    match f {
        RuntimeFault::Fatal(m) => format!("fatal: {}", m),
        RuntimeFault::Throw(Value::Error { error_type, message }) => format!("{}: {}", error_type, message),
        RuntimeFault::Throw(other) => format!("throw: {}", debug_text(other)),
    }
}

fn is_throw(r: &Result<Value, RuntimeFault>, want: &str) -> bool {
    matches!(r, Err(RuntimeFault::Throw(Value::Error { error_type, .. })) if error_type == want)
}

fn value_of(m: &mut Machine, h: &mut Host, v: Value) -> Result<Value, RuntimeFault> {
    m.start_value(v);
    h.drive(m);
    match &m.focus {
        Focus::Value(v) => Ok(v.clone()),
        Focus::Fault(f) => Err(f.copy()),
        other => panic!("neither value nor fault: {:?}", other),
    }
}

fn execute(m: &mut Machine, h: &mut Host, st: &Statement) -> Result<(), RuntimeFault> {
    m.start_statement(st.clone());
    h.drive(m);
    match &m.focus {
        Focus::Flow(_) => Ok(()),
        Focus::Fault(f) => Err(f.copy()),
        other => panic!("neither flow nor fault: {:?}", other),
    }
}

fn eval(v: Value, env: &Env) -> Result<Value, RuntimeFault> {
    let mut m = Machine::new(ALIAS);
    m.scope.env = env.clone();
    value_of(&mut m, &mut host(), v)
}

fn call(object: Option<&str>, function: &str, args: Vec<Value>, env: &Env) -> Result<Value, RuntimeFault> {
    let call = Value::FunctionCall {
        object: object.map(|s| s.to_string()),
        module: None,
        function: function.to_string(),
        args,
    };
    eval(call, env)
}

fn event_body(source: &str) -> Vec<Statement> {
    let program = Parser::parse(source).unwrap();
    match &program.statements[0] {
        Statement::Event { body, .. } => body.clone(),
        _ => panic!("expected event"),
    }
}

fn run_gui(source: &str, h: &mut Host) -> (Machine, Option<String>) {
    let mut m = Machine::new(ALIAS);
    for stmt in &event_body(source) {
        if let Err(f) = execute(&mut m, h, stmt) {
            let text = fault_text(&f);
            return (m, Some(text));
        }
    }
    (m, None)
}

fn run_with_types(source: &str) -> (Env, Option<String>) {
    let (m, err) = run_gui(source, &mut host());
    (m.scope.env.clone(), err)
}

fn program(body: &str) -> String {
    format!("[SCRIPTTYPE KALVITA VERSION 1]\nkal.OnStart {{\n    {}\n}}\n", body)
}

#[test]
fn unknown_type_names_are_rejected() {
    let source = "[SCRIPTTYPE KALVITA VERSION 1]\nkal.OnStart {\n    var local x banana = 1\n}\n";
    assert!(Parser::parse(source).is_err());
}

#[test]
fn mismatched_declaration_is_type_error() {
    let source = "[SCRIPTTYPE KALVITA VERSION 1]\nkal.OnStart {\n    var local n number = \"huh\"\n}\n";
    let (_, err) = run_with_types(source);
    let err = err.expect("should fail");
    assert!(err.starts_with("TypeError"), "got: {}", err);
    // Same via try/catch in-language.
    let source = "[SCRIPTTYPE KALVITA VERSION 1]\nkal.OnStart {\n    try {\n        var local n number = \"huh\"\n        catch (TypeError) {\n            var local caught string = var.err.message\n        }\n    }\n    con.Print(var.caught)\n}\n";
    let (env, err) = run_with_types(source);
    assert!(err.is_none(), "unexpected: {:?}", err);
    assert_eq!(get(&env, "var.caught"), Some(&text("expected number for var.n, got string")));
}

#[test]
fn all_seven_types_accept_and_reject() {
    let good = vec![
        ("string", "\"s\""),
        ("number", "1"),
        ("logic", "true"),
        ("null", "null"),
        ("array", "[1]"),
        ("object", "{ a: 1 }"),
        ("function", "(x) { return(arg.x) }"),
    ];
    for (ty, expr) in good {
        let (_, err) = run_with_types(&program(&format!("var local v {} = {}", ty, expr)));
        assert!(err.is_none(), "{} = {} failed: {:?}", ty, expr, err);
    }
    let bad = vec![
        ("string", "1"),
        ("number", "\"s\""),
        ("logic", "1"),
        ("array", "{ a: 1 }"),
        ("object", "[1]"),
        ("function", "1"),
    ];
    for (ty, expr) in bad {
        let (_, err) = run_with_types(&program(&format!("var local v {} = {}", ty, expr)));
        let err = err.expect("should fail");
        assert!(err.starts_with("TypeError"), "{} = {}: got {}", ty, expr, err);
    }
}

#[test]
fn null_passes_every_type_and_redeclare_resets() {
    let source = "[SCRIPTTYPE KALVITA VERSION 1]\nkal.OnStart {\n    var local s string = null\n    var local n number = 1\n    var local n string = \"now a string\"\n    var local n number = 2\n}\n";
    let (env, err) = run_with_types(source);
    assert!(err.is_none(), "unexpected: {:?}", err);
    assert_eq!(get(&env, "var.s"), Some(&Value::Null));
    assert_eq!(get(&env, "var.n"), Some(&num(2.0)));
}

#[test]
fn assign_and_compound_respect_slot_types() {
    // Plain assign of wrong type fails; compound result is checked too.
    let source = "[SCRIPTTYPE KALVITA VERSION 1]\nkal.OnStart {\n    var local x number = 1\n    var.x = \"s\"\n}\n";
    let (_, err) = run_with_types(source);
    assert!(err.unwrap().starts_with("TypeError"));
    // Index assign into a number slot fails (root must stay consistent).
    let source = "[SCRIPTTYPE KALVITA VERSION 1]\nkal.OnStart {\n    var local xs array = [1]\n    var local xs number = 5\n}\n";
    let (env, err) = run_with_types(source);
    assert!(err.is_none(), "redeclare resets: {:?}", err);
    assert_eq!(get(&env, "var.xs"), Some(&num(5.0)));
}

#[test]
fn file_variables_round_trip() {
    let source = program("var local myfile file = selectFile(\"/tmp/note.txt\")\n    file.Write(var.myfile, \"hello file\")\n    var local back string = file.Read(var.myfile)\n    con.Print(var.back)");
    let (env, err) = run_with_types(&source);
    assert!(err.is_none(), "unexpected: {:?}", err);
    assert_eq!(get(&env, "var.back"), Some(&text("hello file")));
    assert!(matches!(get(&env, "var.myfile"), Some(Value::File { .. })));
}

#[test]
fn file_type_is_enforced_and_select_validates() {
    // Non-file value into a file slot.
    let source = "[SCRIPTTYPE KALVITA VERSION 1]\nkal.OnStart {\n    var local myfile file = \"nope\"\n}\n";
    let (_, err) = run_with_types(source);
    assert!(err.unwrap().starts_with("TypeError"));
    // selectFile arity + type errors.
    for call in ["selectFile()", "selectFile(1, 2)", "selectFile(42)"] {
        let (_, err) = run_with_types(&program(&format!("var local f file = {}", call)));
        assert!(err.is_some(), "{} should fail", call);
    }
    // String paths work too.
    let source = program("file.Write(\"/tmp/legacy.txt\", \"legacy\")\n    var local back string = file.Read(\"/tmp/legacy.txt\")");
    let (env, err) = run_with_types(&source);
    assert!(err.is_none(), "unexpected: {:?}", err);
    assert_eq!(get(&env, "var.back"), Some(&text("legacy")));
}

#[test]
fn sys_builtins_read_process() {
    let source = "[SCRIPTTYPE KALVITA VERSION 1]\nkal.OnStart {\n    var local argv array = sys.Args()\n    var local missing null = sys.Getenv(\"KALVITA_DEFINITELY_MISSING_XYZ\")\n    var local cwd string = sys.Cwd()\n}\n";
    let (env, err) = run_with_types(source);
    assert!(err.is_none(), "unexpected: {:?}", err);
    assert!(matches!(get(&env, "var.argv"), Some(Value::Array(_))));
    assert_eq!(get(&env, "var.missing"), Some(&Value::Null));
    assert!(matches!(get(&env, "var.cwd"), Some(Value::String(s)) if !s.is_empty()));
    // Arity errors.
    for stmt in ["sys.Args(1)", "sys.Getenv()", "sys.Getenv(1, 2)", "sys.Cwd(\".\")", "sys.Nope()"] {
        let (_, err) = run_with_types(&program(stmt));
        assert!(err.is_some(), "{} should fail", stmt);
    }
}

#[test]
fn time_format_known_dates() {
    let source = "[SCRIPTTYPE KALVITA VERSION 1]\nkal.OnStart {\n    var local epoch string = time.Format(0)\n    var local y2021 string = time.Format(1609459200000)\n    var local custom string = time.Format(0, \"DD/MM/YYYY HH:mm\")\n}\n";
    let (env, err) = run_with_types(source);
    assert!(err.is_none(), "unexpected: {:?}", err);
    assert_eq!(get(&env, "var.epoch"), Some(&text("1970-01-01 00:00:00")));
    assert_eq!(get(&env, "var.y2021"), Some(&text("2021-01-01 00:00:00")));
    assert_eq!(get(&env, "var.custom"), Some(&text("01/01/1970 00:00")));
    for stmt in ["time.Format(0 - 1)", "time.Format(\"x\")", "time.Format(0, \"x\", 1)"] {
        let (_, err) = run_with_types(&program(stmt));
        assert!(err.is_some(), "{} should fail", stmt);
    }
}

#[test]
fn str_new_builtins() {
    let source = "[SCRIPTTYPE KALVITA VERSION 1]\nkal.OnStart {\n    var local lines array = str.Lines(\"a\\nb\\nc\")\n    var local chars array = str.Chars(\"hey\")\n    var local sw logic = str.StartsWith(\"hello\", \"he\")\n    var local ew logic = str.EndsWith(\"hello\", \"lo\")\n    var local tp string = str.TrimPrefix(\"xxhey\", \"xx\")\n    var local ts string = str.TrimSuffix(\"heyzz\", \"zz\")\n    var local rep string = str.Repeat(\"ab\", 3)\n    var local pi number = str.ParseInt(\"  -42 \")\n    var local pf number = str.ParseFloat(\"3.5\")\n    var local m logic = str.Match(\"hello.txt\", \"*.txt\")\n}\n";
    let (env, err) = run_with_types(source);
    assert!(err.is_none(), "unexpected: {:?}", err);
    assert_eq!(
        get(&env, "var.lines"),
        Some(&Value::Array(vec![text("a"), text("b"), text("c")]))
    );
    assert_eq!(get(&env, "var.sw"), Some(&Value::Logic(true)));
    assert_eq!(get(&env, "var.ew"), Some(&Value::Logic(true)));
    assert_eq!(get(&env, "var.tp"), Some(&text("hey")));
    assert_eq!(get(&env, "var.ts"), Some(&text("hey")));
    assert_eq!(get(&env, "var.rep"), Some(&text("ababab")));
    assert_eq!(get(&env, "var.pi"), Some(&num(-42.0)));
    assert_eq!(get(&env, "var.pf"), Some(&num(3.5)));
    assert_eq!(get(&env, "var.m"), Some(&Value::Logic(true)));
    // Error cases leave no residue and report typed faults.
    let cases = [
        ("str.Repeat(\"x\", 0 - 1)", "ValueError"),
        ("str.Repeat(\"x\", 99999999999)", "ValueError"),
        ("str.ParseInt(\"12x\")", "ValueError"),
        ("str.ParseFloat(\"nan!\")", "ValueError"),
        ("str.Match(\"a\", \"[unclosed\")", "ValueError"),
        ("str.Match(\"trail\", \"trail\\\\\")", "ValueError"),
        ("str.Lines(1)", "TypeError"),
    ];
    for (stmt, want) in cases {
        let (_, err) = run_with_types(&program(stmt));
        let err = err.unwrap_or_else(|| panic!("{} should fail", stmt));
        assert!(err.starts_with(want), "{}: got {}", stmt, err);
    }
}

#[test]
fn str_match_glob_table() {
    let cases = [
        ("*", "anything", true),
        ("?.txt", "a.txt", true),
        ("?.txt", "ab.txt", false),
        ("h[ae]llo", "hello", true),
        ("h[ae]llo", "hallo", true),
        ("h[ae]llo", "hullo", false),
        ("h[^ae]llo", "hullo", true),
        ("[a-c]x", "bx", true),
        ("[]]x", "]x", true),
        ("a\\*b", "a*b", true),
        ("a\\*b", "axb", false),
        ("*.txt", "a.txt", true),
        ("*.txt", "a.txt.bak", false),
    ];
    for (pat, subject, want) in cases {
        // String literals process `\\` themselves, so a glob `\` needs `\\` in
        // the source text.
        let kal_pat = pat.replace('\\', "\\\\");
        let kal_text = subject.replace('\\', "\\\\");
        let source = program(&format!("var local m logic = str.Match(\"{}\", \"{}\")", kal_text, kal_pat));
        let (env, err) = run_with_types(&source);
        assert!(err.is_none(), "{:?} on {:?}: {:?}", pat, subject, err);
        assert_eq!(get(&env, "var.m"), Some(&Value::Logic(want)), "{:?} on {:?}", pat, subject);
    }
}

#[test]
fn file_new_builtins_round_trip() {
    let source = program("var local base string = \"/tmp/fileops\"\n    var local f string = \"${var.base}/note.txt\"\n    file.Write(var.f, \"hi\")\n    file.Append(var.f, \"-there\")\n    var local back string = file.Read(var.f)\n    var local here logic = file.Exists(var.f)\n    var local gone logic = file.Exists(\"${var.base}/nope.txt\")\n    file.MkDir(\"${var.base}/sub/deep\")\n    var local names array = file.ListDir(var.base)\n    var local has logic = arr.Has(var.names, \"note.txt\")\n    file.Remove(var.f)\n    var local gone2 logic = file.Exists(var.f)");
    let (env, err) = run_with_types(&source);
    assert!(err.is_none(), "unexpected: {:?}", err);
    assert_eq!(get(&env, "var.back"), Some(&text("hi-there")));
    assert_eq!(get(&env, "var.here"), Some(&Value::Logic(true)));
    assert_eq!(get(&env, "var.gone"), Some(&Value::Logic(false)));
    assert_eq!(get(&env, "var.has"), Some(&Value::Logic(true)));
    assert_eq!(get(&env, "var.gone2"), Some(&Value::Logic(false)));
    assert_eq!(get(&env, "var.names"), Some(&Value::Array(vec![text("note.txt"), text("sub")])));
    // Missing paths are catchable IOError, not fatal.
    let (_, err) = run_with_types(&program("file.Read(\"/definitely/missing/kalvita_xyz.txt\")"));
    assert_eq!(err.unwrap(), "IOError: cannot read '/definitely/missing/kalvita_xyz.txt': no such file");
}

#[test]
fn assert_passes_and_throws() {
    let source = "[SCRIPTTYPE KALVITA VERSION 1]\nkal.OnStart {\n    assert(1 + 1 == 2)\n    assert(\"x\", \"custom\")\n}\n";
    let (_, err) = run_with_types(source);
    assert!(err.is_none(), "unexpected: {:?}", err);
    let source = "[SCRIPTTYPE KALVITA VERSION 1]\nkal.OnStart {\n    assert(false, \"boom-msg\")\n}\n";
    let (_, err) = run_with_types(source);
    assert_eq!(err.unwrap(), "AssertError: boom-msg");
    let source = "[SCRIPTTYPE KALVITA VERSION 1]\nkal.OnStart {\n    try {\n        assert(0)\n        catch (AssertError) { con.Print(var.err.message) }\n    }\n}\n";
    let (_, err) = run_with_types(source);
    assert!(err.is_none(), "AssertError must be catchable: {:?}", err);
    let source = "[SCRIPTTYPE KALVITA VERSION 1]\nkal.OnStart {\n    assert()\n}\n";
    let (_, err) = run_with_types(source);
    assert!(err.unwrap().starts_with("ValueError"));
}

fn document_of(j: &Json) -> serde_json::Value {
    match j {
        Json::Null => serde_json::Value::Null,
        Json::Bool(b) => serde_json::Value::Bool(*b),
        Json::Number(n) => serde_json::Value::Number(serde_json::Number::from_f64(f64::from_bits(*n)).unwrap()),
        Json::Unfit(s) => panic!("unfit number {}", s),
        Json::String(s) => serde_json::Value::String(s.clone()),
        Json::Array(items) => serde_json::Value::Array(items.iter().map(document_of).collect()),
        Json::Object(items) => {
            serde_json::Value::Object(items.iter().map(|(k, v)| (k.clone(), document_of(v))).collect())
        }
    }
}

/// Runs a program whose requests are all about documents.
fn run_json(source: &str) -> (Env, Option<String>) {
    let mut m = Machine::new(ALIAS);
    for stmt in &event_body(source) {
        m.start_statement(stmt.clone());
        loop {
            m.run_steps(10_000);
            if m.is_busy() {
                continue;
            }
            let event = match &m.focus {
                Focus::Await(Wait::Plan(p)) => Event::Value(plan_value(p)),
                Focus::Await(Wait::Request(Request::JsonText(j))) => {
                    Event::Answer(Answer::Text(document_of(j).to_string()))
                }
                Focus::Fault(f) => {
                    let text = fault_text(f);
                    return (m.scope.env.clone(), Some(text));
                }
                _ => break,
            };
            m.answer(event);
        }
    }
    (m.scope.env.clone(), None)
}

#[test]
fn json_round_trip_and_errors() {
    let source = "[SCRIPTTYPE KALVITA VERSION 1]\nkal.OnStart {\n    var local cfg object = json.Parse(\"{\\\"name\\\": \\\"kal\\\", \\\"n\\\": 3, \\\"tags\\\": [\\\"a\\\"], \\\"ok\\\": true, \\\"x\\\": null}\")\n    var local out string = json.Stringify(var.cfg)\n    var local nums array = json.Parse(\"[1, 2.5]\")\n}\n";
    let (env, err) = run_json(source);
    assert!(err.is_none(), "unexpected: {:?}", err);
    assert_eq!(
        get(&env, "var.out"),
        Some(&text("{\"n\":3.0,\"name\":\"kal\",\"ok\":true,\"tags\":[\"a\"],\"x\":null}"))
    );
    assert_eq!(get(&env, "var.nums"), Some(&Value::Array(vec![num(1.0), num(2.5)])));
    for (stmt, want) in [
        ("json.Parse(\"{bad\")", "ValueError"),
        ("json.Parse(1)", "TypeError"),
        ("json.Stringify(1, 2)", "ValueError"),
    ] {
        let (_, err) = run_json(&program(stmt));
        let err = err.unwrap_or_else(|| panic!("{} should fail", stmt));
        assert!(err.starts_with(want), "{}: got {}", stmt, err);
    }
    // Functions cannot cross the JSON boundary.
    let source = "[SCRIPTTYPE KALVITA VERSION 1]\nkal.OnStart {\n    var local f function = (a) { return(arg.a) }\n    json.Stringify(var.f)\n}\n";
    let (_, err) = run_json(source);
    assert!(err.unwrap().starts_with("ValueError"));
}

fn sql_value(p: &Sql) -> rusqlite::types::Value {
    match p {
        Sql::Null => rusqlite::types::Value::Null,
        Sql::Integer(n) => rusqlite::types::Value::Integer(*n),
        Sql::Real(bits) => rusqlite::types::Value::Real(f64::from_bits(*bits)),
        Sql::Text(s) => rusqlite::types::Value::Text(s.clone()),
    }
}

fn query(conn: &rusqlite::Connection, sql: &str, params: &[Sql]) -> Result<Vec<Vec<(String, Cell)>>, rusqlite::Error> {
    let mut statement = conn.prepare(sql)?;
    let names: Vec<String> = statement.column_names().map(|s| s.to_string()).collect();
    let mut rows = statement.query(rusqlite::params_from_iter(params.iter().map(sql_value)))?;
    let mut all = Vec::new();
    while let Some(row) = rows.next()? {
        let mut one = Vec::new();
        for (i, name) in names.iter().enumerate() {
            let cell = match row.get_ref(i)? {
                rusqlite::types::ValueRef::Null => Cell::Null,
                rusqlite::types::ValueRef::Integer(n) => Cell::Number((n as f64).to_bits()),
                rusqlite::types::ValueRef::Real(x) => Cell::Number(x.to_bits()),
                rusqlite::types::ValueRef::Text(b) => Cell::Text(String::from_utf8_lossy(b).to_string()),
                rusqlite::types::ValueRef::Blob(b) => Cell::Text(String::from_utf8_lossy(b).to_string()),
            };
            one.push((name.clone(), cell));
        }
        all.push(one);
    }
    Ok(all)
}

/// Runs a program whose requests are all about databases, each of them in memory.
fn run_db(source: &str) -> (Machine, Option<String>) {
    let mut open: Vec<(u64, rusqlite::Connection)> = Vec::new();
    let mut m = Machine::new(ALIAS);
    for stmt in &event_body(source) {
        m.start_statement(stmt.clone());
        loop {
            m.run_steps(10_000);
            if m.is_busy() {
                continue;
            }
            let conn = |id: &u64| &open.iter().find(|(k, _)| k == id).unwrap().1;
            let event = match &m.focus {
                Focus::Await(Wait::Plan(p)) => Event::Value(plan_value(p)),
                Focus::Await(Wait::Request(Request::DbOpen(_))) => {
                    open.push((m.rt.db_next, rusqlite::Connection::open_in_memory().unwrap()));
                    Event::Answer(Answer::Done)
                }
                Focus::Await(Wait::Request(Request::DbClose(id))) => {
                    open.retain(|(k, _)| k != id);
                    Event::Answer(Answer::Done)
                }
                Focus::Await(Wait::Request(Request::DbExec { id, sql, params })) => Event::Answer(
                    match conn(id).execute(sql, rusqlite::params_from_iter(params.iter().map(sql_value))) {
                        Ok(_) => Answer::Done,
                        Err(e) => Answer::Failed(e.to_string()),
                    },
                ),
                Focus::Await(Wait::Request(Request::DbQuery { id, sql, params })) => {
                    Event::Answer(match query(conn(id), sql, params) {
                        Ok(rows) => Answer::Rows(rows),
                        Err(e) => Answer::Failed(e.to_string()),
                    })
                }
                Focus::Fault(f) => {
                    let text = fault_text(f);
                    return (m, Some(text));
                }
                _ => break,
            };
            m.answer(event);
        }
    }
    (m, None)
}

#[test]
fn db_open_exec_query_close() {
    let source = program("var local db db = db.Open(\"/tmp/t.db\")\n    db.Exec(var.db, \"CREATE TABLE u (id INTEGER PRIMARY KEY, name TEXT, score REAL)\")\n    db.Exec(var.db, \"INSERT INTO u (name, score) VALUES (?, ?)\", [\"nova\", 9.5])\n    db.Exec(var.db, \"INSERT INTO u (name, score) VALUES (?, ?)\", [\"kael\", 7])\n    var local rows array = db.Query(var.db, \"SELECT name, score FROM u WHERE score > ?\", [8])\n    var local count number = arr.Len(var.rows)\n    var local first object = var.rows[0]\n    var local who string = var.first.name\n    db.Close(var.db)");
    let (m, err) = run_db(&source);
    assert!(err.is_none(), "unexpected: {:?}", err);
    let env = &m.scope.env;
    assert_eq!(get(env, "var.count"), Some(&num(1.0)));
    assert_eq!(get(env, "var.who"), Some(&text("nova")));
    assert!(matches!(get(env, "var.db"), Some(Value::Db { .. })));
    assert!(m.rt.db_open.is_empty());
    // Bad SQL, closed handles, and mistyped binds are typed faults.
    let source = program("var local db db = db.Open(\"/tmp/t.db\")\n    db.Query(var.db, \"SELECT * FROM nope\")");
    let (_, err) = run_db(&source);
    assert!(err.unwrap().starts_with("DbError"));
    let source = program("var local db db = db.Open(\"/tmp/t.db\")\n    db.Close(var.db)\n    db.Query(var.db, \"SELECT 1\")");
    let (_, err) = run_db(&source);
    assert!(err.unwrap().starts_with("DbError"));
    let (_, err) = run_db(&program("var local db db = 1"));
    assert!(err.unwrap().starts_with("TypeError"));
}

#[test]
fn http_get_post_and_status_errors() {
    let source = program("var local body string = http.Get(\"http://127.0.0.1/ok\")\n    var local back string = http.Post(\"http://127.0.0.1/echo\", \"abc\")");
    let mut h = host();
    h.answers = vec![
        Answer::Text("{\"hello\":\"world\"}".to_string()),
        Answer::Text("echo:abc".to_string()),
    ];
    let (m, err) = run_gui(&source, &mut h);
    assert!(err.is_none(), "unexpected: {:?}", err);
    assert_eq!(get(&m.scope.env, "var.body"), Some(&text("{\"hello\":\"world\"}")));
    assert_eq!(get(&m.scope.env, "var.back"), Some(&text("echo:abc")));
    let mut h = host();
    h.answers = vec![Answer::Failed("http status: 404".to_string())];
    let (_, err) = run_gui(&program("http.Get(\"http://127.0.0.1/missing\")"), &mut h);
    assert!(err.unwrap().starts_with("IOError"));
}

fn gui_id(env: &Env, name: &str) -> u64 {
    match get(env, name) {
        Some(Value::Gui { id, .. }) => *id,
        other => panic!("{} is not a widget: {:?}", name, other),
    }
}

fn widget(rt: &ModuleRuntime, id: u64) -> &kalvita::runtime::GuiEntry {
    &rt.gui.iter().find(|(k, _)| *k == id).unwrap().1
}

fn handler_count(rt: &ModuleRuntime, id: u64, event: &str) -> usize {
    widget(rt, id).handlers.iter().find(|(k, _)| k == event).unwrap().1.len()
}

#[test]
fn gui_declare_attach_position_assign() {
    let source = "[SCRIPTTYPE KALVITA VERSION 1]\nkal.OnStart {\n    var local mywindow window = \"Window Title\"\n    var local mybutton button = \"Text\"\n    mybutton.AttachToWindow(var.mywindow)\n    mybutton.SetPos(10, 20)\n    var.mybutton = \"Clicked!\"\n    var.mywindow = \"New Title\"\n}\n";
    let (m, err) = run_gui(source, &mut host());
    assert!(err.is_none(), "unexpected: {:?}", err);
    let wid = gui_id(&m.scope.env, "var.mywindow");
    let bid = gui_id(&m.scope.env, "var.mybutton");
    assert_eq!(widget(&m.rt, wid).title, "New Title");
    assert_eq!(widget(&m.rt, bid).title, "Clicked!");
    assert_eq!(widget(&m.rt, bid).parent, Some(wid));
    assert_eq!(widget(&m.rt, bid).pos, Some((10, 20)));
    assert!(widget(&m.rt, wid).children.contains(&bid));
    // Null closes the widget; the slot keeps its type.
    let source = "[SCRIPTTYPE KALVITA VERSION 1]\nkal.OnStart {\n    var local w window = \"T\"\n    var local b button = \"B\"\n    b.AttachToWindow(var.w)\n    var.b = null\n}\n";
    let (m, err) = run_gui(source, &mut host());
    assert!(err.is_none(), "unexpected: {:?}", err);
    assert_eq!(get(&m.scope.env, "var.b"), Some(&Value::Null));
    assert!(m.rt.gui.iter().all(|(_, e)| e.kind != GuiKind::Button));
    // Reassigning a string to the nulled slot constructs anew.
    let source = "[SCRIPTTYPE KALVITA VERSION 1]\nkal.OnStart {\n    var local b button = \"B\"\n    var.b = null\n    var.b = \"Again\"\n}\n";
    let (m, err) = run_gui(source, &mut host());
    assert!(err.is_none(), "unexpected: {:?}", err);
    let bid = gui_id(&m.scope.env, "var.b");
    assert_eq!(widget(&m.rt, bid).title, "Again");
    // Error table: all headless, no display touch.
    let cases = [
        ("var local w window = 42", "TypeError"),
        ("var local b button = 42", "TypeError"),
        ("var local w window = \"T\"\n    var local b button = var.w", "TypeError"),
        ("var local w window = \"T\"\n    var local c window = var.w", "ok:copy"),
    ];
    for (stmt, want) in cases {
        let (_, err) = run_gui(&program(stmt), &mut host());
        if want == "ok:copy" {
            assert!(err.is_none(), "{} should pass: {:?}", stmt, err);
            continue;
        }
        let err = err.unwrap_or_else(|| panic!("{} should fail", stmt));
        assert!(err.starts_with(want), "{}: got {}", stmt, err);
    }
}

fn failure_type(r: Result<bool, Failure>) -> String {
    match r {
        Err(Failure::Throw { error_type, .. }) => error_type,
        other => panic!("expected an error, got {:?}", other),
    }
}

#[test]
fn gui_method_validation() {
    let source = "[SCRIPTTYPE KALVITA VERSION 1]\nkal.OnStart {\n    var local w window = \"T\"\n    var local b button = \"B\"\n}\n";
    let (mut m, err) = run_gui(source, &mut host());
    assert!(err.is_none(), "unexpected: {:?}", err);
    let w = gui_id(&m.scope.env, "var.w");
    let b = gui_id(&m.scope.env, "var.b");
    // Unknown methods are NameError; bad args are typed faults.
    let rt = &mut m.rt;
    assert_eq!(failure_type(gui_method(rt, GuiKind::Button, b, "Nope", &Vec::new())), "NameError");
    assert_eq!(failure_type(gui_method(rt, GuiKind::Window, w, "OnClick", &Vec::new())), "NameError");
    assert_eq!(
        failure_type(gui_method(rt, GuiKind::Button, b, "AttachToWindow", &vec![text("x")])),
        "TypeError"
    );
    assert_eq!(
        failure_type(gui_method(rt, GuiKind::Button, b, "SetPos", &vec![num(0.0 - 1.0), num(0.0)])),
        "ValueError"
    );
    assert_eq!(failure_type(gui_method(rt, GuiKind::Button, b, "OnClick", &vec![num(1.0)])), "TypeError");
}

fn fire(m: &mut Machine, handle: Value, event: &str) -> Result<(), RuntimeFault> {
    m.start_event(handle, event);
    host().drive(m);
    match &m.focus {
        Focus::Value(_) => Ok(()),
        Focus::Fault(f) => Err(f.copy()),
        other => panic!("neither value nor fault: {:?}", other),
    }
}

#[test]
fn gui_events_register_fire_in_order() {
    let source = "[SCRIPTTYPE KALVITA VERSION 1]\nkal.OnStart {\n    var global log array = []\n    var global seen button = null\n    var global nargs number = 0 - 1\n    var local w window = \"T\"\n    var local b button = \"B\"\n    b.AttachToWindow(var.w)\n    b.OnClick {\n        var global log array = arr.Push(var.log, \"first\")\n    }\n    var local extra function = () {\n        var global log array = arr.Push(var.log, \"second\")\n        var global seen button = pass\n        var global nargs number = arr.Len(arg)\n    }\n    b.OnClick(var.extra)\n    b.OnClick {\n        var global log array = arr.Push(var.log, \"third\")\n    }\n    w.OnStart {\n        var global log array = arr.Push(var.log, \"start\")\n    }\n    w.OnExit {\n        var global log array = arr.Push(var.log, \"exit\")\n    }\n}\n";
    let (mut m, err) = run_gui(source, &mut host());
    assert!(err.is_none(), "unexpected: {:?}", err);
    let bid = gui_id(&m.scope.env, "var.b");
    let wid = gui_id(&m.scope.env, "var.w");
    assert_eq!(handler_count(&m.rt, bid, "OnClick"), 3);
    assert_eq!(handler_count(&m.rt, wid, "OnStart"), 1);
    // Fire click: block, function, block, in order, with pass/arg.
    let handle = Value::Gui { kind: GuiKind::Button, id: bid };
    m.scope.types = Vec::new();
    fire(&mut m, handle.clone(), "OnClick").unwrap();
    let log = m.rt.read_global(ALIAS, "log").expect("log global");
    assert_eq!(log, Value::Array(vec![text("first"), text("second"), text("third")]));
    assert_eq!(m.rt.read_global(ALIAS, "seen"), Some(handle));
    assert_eq!(m.rt.read_global(ALIAS, "nargs"), Some(num(0.0)));
    // Start/exit fire on demand too.
    let whandle = Value::Gui { kind: GuiKind::Window, id: wid };
    fire(&mut m, whandle.clone(), "OnStart").unwrap();
    fire(&mut m, whandle, "OnExit").unwrap();
    let log = m.rt.read_global(ALIAS, "log").expect("log global");
    assert_eq!(
        log,
        Value::Array(vec![text("first"), text("second"), text("third"), text("start"), text("exit")])
    );
    // Unknown events and non-widget receivers are typed faults.
    let source = "[SCRIPTTYPE KALVITA VERSION 1]\nkal.OnStart {\n    var local w window = \"T\"\n    w.OnClick {\n    }\n}\n";
    let (_, err) = run_gui(source, &mut host());
    assert!(err.unwrap().starts_with("NameError"));
    let source = "[SCRIPTTYPE KALVITA VERSION 1]\nkal.OnStart {\n    var local s string = \"x\"\n    s.OnClick {\n    }\n}\n";
    let (_, err) = run_gui(source, &mut host());
    assert!(err.unwrap().starts_with("TypeError"));
    let source = "[SCRIPTTYPE KALVITA VERSION 1]\nkal.OnStart {\n    nosuch.OnClick {\n    }\n}\n";
    let (_, err) = run_gui(source, &mut host());
    assert!(err.unwrap().starts_with("NameError"));
}

#[test]
fn gui_handler_abort_stops_chain() {
    // An uncaught throw aborts the remaining handlers with its fault.
    let source = "[SCRIPTTYPE KALVITA VERSION 1]\nkal.OnStart {\n    var global log array = []\n    var local b button = \"B\"\n    b.OnClick {\n        var global log array = arr.Push(var.log, \"one\")\n    }\n    b.OnClick {\n        throw(Boom, \"bang\")\n    }\n    b.OnClick {\n        var global log array = arr.Push(var.log, \"three\")\n    }\n}\n";
    let (mut m, err) = run_gui(source, &mut host());
    assert!(err.is_none(), "unexpected: {:?}", err);
    let bid = gui_id(&m.scope.env, "var.b");
    m.scope.types = Vec::new();
    let err = fire(&mut m, Value::Gui { kind: GuiKind::Button, id: bid }, "OnClick").unwrap_err();
    assert!(matches!(err, RuntimeFault::Throw(Value::Error { error_type, .. }) if error_type == "Boom"));
    let log = m.rt.read_global(ALIAS, "log").expect("log global");
    assert_eq!(log, Value::Array(vec![text("one")]));
}

#[test]
fn gui_dialog_validation_needs_no_display() {
    let env = Vec::new();
    let err = call(Some("gui"), "PickFile", vec![num(1.0), num(2.0)], &env);
    assert!(is_throw(&err, "TypeError"));
    let err = call(Some("gui"), "Message", vec![text("t"), text("m"), text("bogus")], &env);
    assert!(is_throw(&err, "ValueError"));
    let err = call(Some("gui"), "Nope", vec![], &env);
    assert!(is_throw(&err, "NameError"));
}

#[test]
fn message_box_answers_in_words() {
    for (choice, word) in [
        (Choice::Yes, "yes"),
        (Choice::No, "no"),
        (Choice::Cancel, "cancel"),
        (Choice::Confirm, "ok"),
        (Choice::Other("Later".to_string()), "Later"),
    ] {
        let mut h = host();
        h.answers = vec![Answer::Choice(choice)];
        let (m, err) = run_gui(&program("var local a string = gui.Message(\"t\", \"m\")"), &mut h);
        assert!(err.is_none(), "unexpected: {:?}", err);
        assert_eq!(get(&m.scope.env, "var.a"), Some(&text(word)));
    }
}

#[test]
fn gui_run_without_display_is_ioerror() {
    let source = "[SCRIPTTYPE KALVITA VERSION 1]\nkal.OnStart {\n    var local w window = \"T\"\n    w.Run()\n}\n";
    let mut h = host();
    h.answers = vec![Answer::Failed("no display".to_string())];
    let (m, err) = run_gui(source, &mut h);
    assert_eq!(err.expect("Run without display should fail"), "IOError: cannot open window: no display");
    assert!(!m.rt.gui_running);
}

#[test]
fn gui_run_pumps_and_returns_with_hook() {
    let source = "[SCRIPTTYPE KALVITA VERSION 1]\nkal.OnStart {\n    var local w window = \"Hook\"\n    var local b button = \"B\"\n    b.AttachToWindow(var.w)\n    w.OnStart {\n        con.Print(\"hook-start\")\n    }\n    w.OnExit {\n        con.Print(\"hook-exit\")\n    }\n    w.Run()\n    con.Print(\"hook-after\")\n}\n";
    let mut h = host();
    h.answers = vec![
        Answer::Window { closed: vec![], clicks: vec![], finished: false },
        Answer::Window { closed: vec![], clicks: vec![], finished: true },
    ];
    let (_, err) = run_gui(source, &mut h);
    assert!(err.is_none(), "unexpected: {:?}", err);
    assert_eq!(h.printed, vec!["hook-start", "hook-exit", "hook-after"]);
}

#[test]
fn clicks_run_until_one_fails() {
    let source = program("var local w window = \"T\"\n    var local a button = \"A\"\n    var local b button = \"B\"\n    a.OnClick { con.Print(\"a\") }\n    b.OnClick { throw(Boom, \"bang\") }\n    w.OnExit { con.Print(\"exit\") }\n    w.Run()");
    let mut h = host();
    // The window has the first handle, the buttons the next two.
    h.answers = vec![Answer::Window { closed: vec![], clicks: vec![2, 3, 2], finished: false }];
    let (m, err) = run_gui(&source, &mut h);
    assert_eq!(err.unwrap(), "Boom: bang");
    assert_eq!(h.printed, vec!["a", "exit"]);
    assert!(!m.rt.gui_running);
}

#[test]
fn closing_the_window_ends_its_run() {
    let source = program("var local w window = \"T\"\n    w.OnExit { con.Print(\"exit\") }\n    w.Run()\n    w.SetPos(1, 2)");
    let mut h = host();
    h.answers = vec![Answer::Window { closed: vec![1], clicks: vec![], finished: false }];
    let (_, err) = run_gui(&source, &mut h);
    // The window is gone, and its handlers with it.
    assert_eq!(h.printed, Vec::<String>::new());
    assert_eq!(err.unwrap(), "GuiError: window was closed");
}

#[test]
fn windows_do_not_nest() {
    let source = program("var local w window = \"T\"\n    w.OnExit { con.Print(\"exit\") }\n    var local b button = \"B\"\n    b.OnClick { w.Run() }\n    w.Run()");
    let mut h = host();
    h.answers = vec![Answer::Window { closed: vec![], clicks: vec![2], finished: false }];
    let (_, err) = run_gui(&source, &mut h);
    assert_eq!(err.unwrap(), "GuiError: Run cannot nest inside a running window");
    assert_eq!(h.printed, vec!["exit"]);
}

#[test]
fn scene_shows_the_running_window_first() {
    let source = program("var local first window = \"One\"\n    var local second window = \"Two\"\n    var local a button = \"A\"\n    var local b button = \"B\"\n    b.AttachToWindow(var.first)\n    b.SetPos(3, 4)");
    let (m, err) = run_gui(&source, &mut host());
    assert!(err.is_none(), "unexpected: {:?}", err);
    let scene = snapshot(&m.rt, 2);
    assert_eq!(scene.len(), 2);
    assert_eq!((scene[0].id, scene[0].title.as_str()), (2, "Two"));
    assert_eq!(scene[0].buttons.len(), 1);
    assert_eq!((scene[0].buttons[0].id, scene[0].buttons[0].text.as_str()), (3, "A"));
    assert_eq!((scene[1].id, scene[1].title.as_str()), (1, "One"));
    assert_eq!(scene[1].buttons[0].pos, Some((3, 4)));
}

#[test]
fn bound_parameters_are_database_values() {
    assert!(matches!(db_param_value(&Value::Null), Ok(Sql::Null)));
    assert!(matches!(db_param_value(&Value::Logic(true)), Ok(Sql::Integer(1))));
    assert!(matches!(db_param_value(&Value::Number((-3.0f64).to_bits())), Ok(Sql::Integer(-3))));
    assert!(matches!(db_param_value(&Value::Number(9.5f64.to_bits())), Ok(Sql::Real(n)) if n == 9.5f64.to_bits()));
    assert!(matches!(db_param_value(&Value::String("a".to_string())), Ok(Sql::Text(s)) if s == "a"));
    // What no database holds is refused.
    assert_eq!(failure_type(db_param_value(&Value::Number(f64::NAN.to_bits())).map(|_| true)), "ValueError");
    assert_eq!(failure_type(db_param_value(&Value::Array(vec![])).map(|_| true)), "ValueError");
}
