//! Runs: errors, loops, calls, modules and sessions.

use kalvita::ast::{BinaryOperator, Statement, UnaryOperator, Value};
use kalvita::complaints::Note;
use kalvita::draft::{Arithmetic, Piece, Plan, RealFunction, RuntimeFault};
use kalvita::driver::{run_source, Repl};
use kalvita::imports::{is_valid_alias, nearest_root, uncaught_message};
use kalvita::parser::Parser;
use kalvita::request::{Anchor, Answer, Request};
use kalvita::runtime::MAX_CALL_DEPTH;
use kalvita::scanner::Symbol;
use kalvita::semantics::MAX_LOOP_ITERS;
use kalvita::state::{Event, Flow, Focus, Frame, Halt, Machine, Wait};

const ALIAS: &str = "__test__";

type Env = Vec<(String, Value)>;

fn num(n: f64) -> Value {
    Value::Number(n.to_bits())
}

fn text(s: &str) -> Value {
    Value::String(s.to_string())
}

fn var(name: &str) -> Value {
    Value::Variable(name.to_string())
}

fn get<'a>(env: &'a Env, key: &str) -> Option<&'a Value> {
    env.iter().find(|(k, _)| k == key).map(|(_, v)| v)
}

/// A host that works in memory: it computes, prints into a list, keeps files in
/// a table and takes other answers from a list.
struct Host {
    files: Vec<(String, String)>,
    dirs: Vec<String>,
    printed: Vec<String>,
    answers: Vec<Answer>,
    sources: Vec<(String, String)>,
    root: Option<String>,
}

fn host() -> Host {
    Host {
        files: Vec::new(),
        dirs: Vec::new(),
        printed: Vec::new(),
        answers: Vec::new(),
        sources: Vec::new(),
        root: None,
    }
}

fn number_text(bits: u64) -> String {
    format!("{}", f64::from_bits(bits))
}

fn debug_text(v: &Value) -> String {
    match v {
        Value::Number(n) => format!("Number({:?})", f64::from_bits(*n)),
        Value::Array(items) => {
            let parts: Vec<String> = items.iter().map(debug_text).collect();
            format!("Array([{}])", parts.join(", "))
        }
        other => format!("{:?}", other),
    }
}

fn pieces_text(pieces: &[Piece]) -> String {
    let parts: Vec<String> = pieces
        .iter()
        .map(|p| match p {
            Piece::Text(s) => s.clone(),
            Piece::Number(n) => number_text(*n),
            Piece::Debug(v) => debug_text(v),
        })
        .collect();
    parts.join("")
}

fn plan_value(p: &Plan) -> Value {
    match p {
        Plan::Ready(v) => v.clone(),
        Plan::Arithmetic { op, left, right } => {
            let (a, b) = (f64::from_bits(*left), f64::from_bits(*right));
            num(match op {
                Arithmetic::Add => a + b,
                Arithmetic::Subtract => a - b,
                Arithmetic::Multiply => a * b,
                Arithmetic::Divide => a / b,
                Arithmetic::Power => a.powf(b),
            })
        }
        Plan::Function { function, of } => {
            let x = f64::from_bits(*of);
            num(match function {
                RealFunction::Sin => x.sin(),
                RealFunction::Cos => x.cos(),
                RealFunction::Tan => x.tan(),
                RealFunction::Sqrt => x.sqrt(),
                RealFunction::Floor => x.floor(),
                RealFunction::Ceil => x.ceil(),
            })
        }
        Plan::Integer(n) => num(*n as f64),
        Plan::Ratio { part, whole } => num(*part as f64 / *whole as f64),
        Plan::Text(pieces) => Value::String(pieces_text(pieces)),
        Plan::List(items) => Value::Array(items.iter().map(plan_value).collect()),
    }
}

impl Host {
    fn perform(&mut self, q: &Request) -> Answer {
        match q {
            Request::Print(p) => {
                self.printed.push(pieces_text(p));
                Answer::Done
            }
            Request::ParseNumber { text, .. } => match text.parse::<f64>() {
                Ok(n) => Answer::Number(n.to_bits()),
                Err(e) => Answer::Failed(format!("{}", e)),
            },
            Request::Args => Answer::Texts(vec!["kalvita".to_string()]),
            Request::Getenv(_) => Answer::Nothing,
            Request::Cwd => Answer::Text("/here".to_string()),
            Request::FileRead(path) => match self.files.iter().find(|(p, _)| p == path) {
                Some((_, s)) => Answer::Text(s.clone()),
                None => Answer::Failed("no such file".to_string()),
            },
            Request::FileWrite { path, content } => {
                self.files.retain(|(p, _)| p != path);
                self.files.push((path.clone(), pieces_text(content)));
                Answer::Done
            }
            Request::FileAppend { path, content } => {
                let old = match self.files.iter().find(|(p, _)| p == path) {
                    Some((_, s)) => s.clone(),
                    None => String::new(),
                };
                self.files.retain(|(p, _)| p != path);
                self.files.push((path.clone(), format!("{}{}", old, pieces_text(content))));
                Answer::Done
            }
            Request::FileExists(path) => {
                Answer::Flag(self.files.iter().any(|(p, _)| p == path) || self.dirs.iter().any(|p| p == path))
            }
            Request::FileRemove(path) => {
                self.files.retain(|(p, _)| p != path);
                Answer::Done
            }
            Request::FileList(path) => {
                let prefix = format!("{}/", path);
                let names = self
                    .files
                    .iter()
                    .map(|(p, _)| p)
                    .chain(self.dirs.iter())
                    .filter(|p| p.starts_with(&prefix))
                    .map(|p| p[prefix.len()..].split('/').next().unwrap().to_string())
                    .collect();
                Answer::Texts(names)
            }
            Request::FileMakeDir(path) => {
                self.dirs.push(path.clone());
                Answer::Done
            }
            Request::Locate { anchor, importer, path } => {
                let base = match anchor {
                    Anchor::ProjectRoot => match &self.root {
                        Some(root) => root.clone(),
                        None => return Answer::Nothing,
                    },
                    Anchor::FileSystem => String::new(),
                    Anchor::Importer => importer.clone(),
                };
                let name = path.trim_start_matches("./").trim_start_matches('/').to_string();
                let canonical = format!("{}/{}", base, name);
                match self.sources.iter().find(|(p, _)| *p == canonical) {
                    Some(_) => {
                        let file = canonical.rsplit('/').next().unwrap();
                        let directory = canonical[..canonical.len() - file.len() - 1].to_string();
                        let stem = file.split('.').next().unwrap().to_string();
                        Answer::Located { canonical: canonical.clone(), directory, stem: Some(stem) }
                    }
                    None => Answer::Failed("no such file".to_string()),
                }
            }
            Request::ReadSource(path) => match self.sources.iter().find(|(p, _)| p == path) {
                Some((_, s)) => Answer::Text(s.clone()),
                None => Answer::Failed("no such file".to_string()),
            },
            _ => {
                if self.answers.is_empty() {
                    panic!("no answer to {:?}", q);
                }
                self.answers.remove(0)
            }
        }
    }

    fn drive(&mut self, m: &mut Machine) {
        loop {
            m.run_steps(10_000);
            if m.is_busy() {
                continue;
            }
            let event = match &m.focus {
                Focus::Await(Wait::Plan(p)) => Event::Value(plan_value(p)),
                Focus::Await(Wait::Request(q)) => Event::Answer(self.perform(q)),
                _ => return,
            };
            m.answer(event);
        }
    }
}

fn fault_text(f: &RuntimeFault) -> String {
    match f {
        RuntimeFault::Fatal(m) => format!("fatal: {}", m),
        RuntimeFault::Throw(Value::Error { error_type, message }) => format!("{}: {}", error_type, message),
        RuntimeFault::Throw(other) => format!("throw: {}", debug_text(other)),
    }
}

fn value_of(m: &mut Machine, h: &mut Host, v: Value) -> Result<Value, RuntimeFault> {
    m.start_value(v);
    h.drive(m);
    match &m.focus {
        Focus::Value(v) => Ok(v.clone()),
        Focus::Fault(f) => Err(f.copy()),
        other => panic!("neither value nor fault: {:?}", other),
    }
}

fn execute(m: &mut Machine, h: &mut Host, st: &Statement) -> Result<(), RuntimeFault> {
    m.start_statement(st.clone());
    h.drive(m);
    match &m.focus {
        Focus::Flow(_) => Ok(()),
        Focus::Fault(f) => Err(f.copy()),
        other => panic!("neither flow nor fault: {:?}", other),
    }
}

fn eval(v: Value, env: &Env) -> Result<Value, RuntimeFault> {
    let mut m = Machine::new(ALIAS);
    m.scope.env = env.clone();
    value_of(&mut m, &mut host(), v)
}

fn call(object: Option<&str>, function: &str, args: Vec<Value>, env: &Env) -> Result<Value, RuntimeFault> {
    let call = Value::FunctionCall {
        object: object.map(|s| s.to_string()),
        module: None,
        function: function.to_string(),
        args,
    };
    eval(call, env)
}

fn event_body(source: &str) -> Vec<Statement> {
    let program = Parser::parse(source).unwrap();
    match &program.statements[0] {
        Statement::Event { body, .. } => body.clone(),
        _ => panic!("expected event"),
    }
}

const HEADER: &str = "[SCRIPTTYPE KALVITA VERSION 1]\n";

fn body_of(source: &str) -> Vec<Statement> {
    event_body(&format!("{}kal.OnStart {{\n{}\n}}\n", HEADER, source))
}

/// Runs the statements one after the other in one machine.
fn run(source: &str) -> (Machine, Host, Option<String>) {
    let mut m = Machine::new(ALIAS);
    let mut h = host();
    for st in &body_of(source) {
        if let Err(f) = execute(&mut m, &mut h, st) {
            let text = fault_text(&f);
            return (m, h, Some(text));
        }
    }
    (m, h, None)
}

fn printed(source: &str) -> Vec<String> {
    let (_, h, err) = run(source);
    assert_eq!(err, None);
    h.printed
}

fn fails(source: &str, want: &str) {
    let (_, _, err) = run(source);
    assert_eq!(err.as_deref(), Some(want), "{}", source);
}

#[test]
fn first_handler_that_fits_runs() {
    assert_eq!(
        printed("try {\n throw(MyErr, \"boom\")\n catch (IndexError) { con.Print(\"index\") }\n catch (MyErr) { con.Print(var.err.type, var.err.message) }\n catch (Error) { con.Print(\"all\") }\n}"),
        vec!["MyErr boom"]
    );
    assert_eq!(
        printed("try {\n throw(Other, 7)\n catch (MyErr) { con.Print(\"mine\") }\n catch (Error) { con.Print(var.err.message) }\n}"),
        vec!["7"]
    );
}

#[test]
fn unhandled_error_passes_and_err_is_given_back() {
    fails("try {\n throw(Other, \"x\")\n catch (MyErr) { con.Print(\"mine\") }\n}", "Other: x");
    let (m, _, err) = run("var local err string = \"kept\"\ntry {\n throw(A, \"x\")\n catch (A) { con.Print(var.err.type) }\n}");
    assert_eq!(err, None);
    assert_eq!(get(&m.scope.env, "var.err"), Some(&text("kept")));
    // A fault in the handler gives it back too.
    let (m, _, err) = run("var local err string = \"kept\"\ntry {\n throw(A, \"x\")\n catch (A) { throw(B, \"y\") }\n}");
    assert_eq!(err.as_deref(), Some("B: y"));
    assert_eq!(get(&m.scope.env, "var.err"), Some(&text("kept")));
}

#[test]
fn fatal_faults_pass_every_handler() {
    fails(
        "try {\n var local f function = () { break }\n f()\n catch (Error) { con.Print(\"caught\") }\n}",
        "fatal: break outside loop",
    );
    fails("var local f function = () { continue }\nf()", "fatal: continue outside loop");
}

#[test]
fn loops_break_continue_and_give_back_their_variable() {
    let source = "var local x string = \"outer\"\nvar local seen array = []\nfor (x in [1, 2, 3, 4]) {\n if (var.x == 2) { continue }\n if (var.x == 4) { break }\n var.seen = arr.Push(var.seen, var.x)\n}";
    let (m, _, err) = run(source);
    assert_eq!(err, None);
    assert_eq!(get(&m.scope.env, "var.seen"), Some(&Value::Array(vec![num(1.0), num(3.0)])));
    assert_eq!(get(&m.scope.env, "var.x"), Some(&text("outer")));
    assert_eq!(printed("for (c in \"hey\") { con.Print(var.c) }"), vec!["h", "e", "y"]);
    assert_eq!(printed("for (i in 3..1) { con.Print(var.i) }"), Vec::<String>::new());
    assert_eq!(printed("for (i in 1.9..4) { con.Print(var.i) }"), vec!["1", "2", "3"]);
    fails("for (x in 5) { }", "TypeError: for-in requires an array or string, got Number(5.0)");
    fails("for (x in \"a\"..5) { }", "TypeError: range bounds must be numbers, got String(\"a\")");
    let (m, _, _) = run("for (fresh in [1]) { }");
    assert_eq!(get(&m.scope.env, "var.fresh"), None);
}

#[test]
fn exported_loop_variable_is_given_back() {
    let (m, h, err) = run("var global i number = 7\nfor (i in 0..2) { con.Print(var.i) }");
    assert_eq!(err, None);
    assert_eq!(h.printed, vec!["0", "1"]);
    assert_eq!(m.rt.read_global(ALIAS, "i"), Some(num(7.0)));
}

#[test]
fn while_stops_at_its_limit() {
    assert_eq!(
        printed("var local i number = 0\nwhile (var.i < 3) {\n var.i += 1\n if (var.i == 2) { continue }\n con.Print(var.i)\n}"),
        vec!["1", "3"]
    );
    let mut m = Machine::new(ALIAS);
    m.stack = vec![Frame::WhileBody { condition: Value::Logic(true), body: Vec::new(), count: MAX_LOOP_ITERS - 1 }];
    m.focus = Focus::Flow(Flow::Normal);
    host().drive(&mut m);
    assert!(matches!(
        &m.focus,
        Focus::Fault(RuntimeFault::Fatal(s)) if s == "possible infinite loop: while exceeded iteration limit"
    ));
}

#[test]
fn calls_nest_up_to_their_limit() {
    let source = |n: usize| {
        format!(
            "var local f function = (n) {{\n if (arg.n > 1) {{ return(f(arg.n - 1)) }}\n return(\"bottom\")\n}}\nvar local r string = f({})",
            n
        )
    };
    // Arguments are worked out twice, so the depth that counts is that of the calls.
    let (m, _, err) = run(&source(5));
    assert_eq!(err, None);
    assert_eq!(get(&m.scope.env, "var.r"), Some(&text("bottom")));
    assert_eq!(m.rt.call_depth, 0);
    let (m, _, err) = run(&source(MAX_CALL_DEPTH));
    assert_eq!(err, None);
    assert_eq!(m.rt.call_depth, 0);
    let (m, _, err) = run(&source(MAX_CALL_DEPTH + 1));
    assert_eq!(err.as_deref(), Some("fatal: maximum call depth exceeded (possible infinite recursion)"));
    assert_eq!(m.rt.call_depth, 0);
}

#[test]
fn calls_see_arguments_and_keep_their_variables() {
    let source = "var local x number = 1\nvar local f function = (a) {\n var local x number = 2\n con.Print(arg.a, arr.Len(args), var.x)\n}\nf(\"hi\", 9)\ncon.Print(var.x, f(0))";
    assert_eq!(printed(source), vec!["hi 2 2", "0 1 2", "1 null"]);
    fails("var local f function = (a) { return(arg.a) }\nf()", "ValueError: f() missing required argument 'a'");
    fails("nope()", "NameError: Unknown variable: nope");
    fails("var local n number = 1\nn()", "TypeError: n is not callable");
    fails("ghost.Run()", "NameError: Unknown variable: ghost");
    fails("m:f()", "NameError: Unknown module: m");
}

#[test]
fn own_functions_come_before_bare_builtins() {
    assert_eq!(
        printed("var local assert function = (x) { con.Print(\"mine\") }\nassert(false)"),
        vec!["mine"]
    );
}

#[test]
fn case_sensitive_equality_needs_two_strings() {
    assert_eq!(
        printed("var local s string = \"Hi\"\ncon.Print(s.EqualsCaseSensitive(\"Hi\"), s.equalscasesensitive(\"hi\"))"),
        vec!["true false"]
    );
    fails("CaseSensitiveEquals(1)", "ValueError: case-sensitive equality requires a target value");
    fails(
        "var local s string = \"Hi\"\ns.CaseSensitiveEquals()",
        "ValueError: case-sensitive equality expects exactly one argument",
    );
    fails(
        "var local s string = \"Hi\"\ns.CaseSensitiveEquals(1)",
        "TypeError: case-sensitive equality requires two strings",
    );
}

#[test]
fn reads_and_writes_name_what_is_wrong() {
    fails("con.Print(var.x)", "NameError: Unknown variable: var.x");
    fails("con.Print(x)", "NameError: Unknown variable: x");
    fails("var local a array = [1]\ncon.Print(var.a[1])", "IndexError: Index out of bounds: 1");
    fails("var local a array = [1]\ncon.Print(var.a[0 - 1])", "TypeError: index must be a non-negative integer, got -1");
    fails(
        "var local a array = [1]\ncon.Print(var.a[\"x\"])",
        "TypeError: Index requires an array or string with a numeric index, got String(\"x\")",
    );
    fails("var local o object = { a: 1 }\ncon.Print(var.o.b)", "NameError: Unknown property: b");
    fails("var local n number = 1\ncon.Print(var.n.b)", "TypeError: Property access requires an object, got Number(1.0)");
    fails("var.x = 1", "NameError: Cannot assign to undeclared variable: var.x");
    fails("var local a array = [1]\nvar.a[5] = 2", "IndexError: Index out of bounds: 5");
    fails("var local a array = [1]\nvar.a[0.5] = 2", "TypeError: index must be a non-negative integer");
    fails("var local s string = \"ab\"\nvar.s[0] = \"x\"", "TypeError: cannot assign into string characters");
    fails("var local n number = 1\nvar.n.k = 2", "TypeError: Property access requires an object, got Number(1.0)");
    assert_eq!(
        printed("var local o object = { a: [1, { b: 2 }] }\nvar.o.a[1].b += 5\nvar local last object = var.o.a[1]\ncon.Print(var.last.b, var.o.a[0], \"abc\"[1])"),
        vec!["7 1 b"]
    );
    assert_eq!(printed("var local n null = null\ncon.Print(var.n.anything)"), vec!["null"]);
}

#[test]
fn switch_takes_one_body() {
    assert_eq!(
        printed("switch (\"a\") {\n case (\"A\") { con.Print(\"loose\") }\n case (\"a\") { con.Print(\"strict\") }\n case (\"a\") { con.Print(\"again\") }\n default { con.Print(\"default\") }\n}"),
        vec!["strict"]
    );
}

#[test]
fn objects_show_and_build() {
    assert_eq!(
        printed("con.Print([1, \"a\", null, true], { k: 1.5 })"),
        vec!["[1, a, null, true] {k: 1.5}"]
    );
    assert_eq!(printed("con.Print()"), vec![""]);
}

#[test]
fn input_takes_one_prompt() {
    fails("con.Input(1, 2)", "ValueError: Input expects zero or one argument");
    let mut m = Machine::new(ALIAS);
    let mut h = host();
    h.answers = vec![Answer::Text("line\r\n".to_string())];
    for st in &body_of("var local s string = con.Input(\"> \")") {
        execute(&mut m, &mut h, st).unwrap();
    }
    assert_eq!(get(&m.scope.env, "var.s"), Some(&text("line")));
}

#[test]
fn run_can_be_cut_anywhere() {
    let st = &body_of("var local r number = 1 + 2 * 3")[0];
    let mut whole = Machine::new(ALIAS);
    execute(&mut whole, &mut host(), st).unwrap();
    let mut cut = Machine::new(ALIAS);
    cut.start_statement(st.clone());
    loop {
        cut.run_steps(1);
        if !cut.is_busy() {
            match &cut.focus {
                Focus::Await(Wait::Plan(p)) => {
                    let v = plan_value(p);
                    cut.answer(Event::Value(v));
                }
                _ => break,
            }
        }
    }
    assert_eq!(get(&whole.scope.env, "var.r"), Some(&num(7.0)));
    assert_eq!(cut.scope.env, whole.scope.env);
}

#[test]
fn unfit_answer_is_fatal() {
    let mut m = Machine::new(ALIAS);
    m.start_value(Value::Binary { left: Box::new(num(1.0)), op: BinaryOperator::Add, right: Box::new(num(2.0)) });
    m.run_steps(10);
    m.answer(Event::Answer(Answer::Done));
    host().drive(&mut m);
    assert!(matches!(&m.focus, Focus::Fault(RuntimeFault::Fatal(_))));
}

#[test]
fn error_in_a_call_comes_to_the_try_around_it() {
    let source = "var local x number = 1\nvar local inner function = () {\n var local x number = 2\n for (i in [1, 2]) { throw(Deep, \"d\") }\n}\nvar local outer function = () { inner() }\ntry {\n outer()\n catch (Deep) { con.Print(var.err.message, var.x) }\n}";
    let (m, h, err) = run(source);
    assert_eq!(err, None);
    assert_eq!(h.printed, vec!["d 1"]);
    assert_eq!(m.rt.call_depth, 0);
}

#[test]
fn no_variable_occurs_twice() {
    let (m, _, err) = run("var local a number = 1\nvar local b number = 2\nvar local a string = \"x\"\nfor (b in [1, 2]) { var.a = null }\nvar.a = \"y\"");
    assert_eq!(err, None);
    let names: Vec<&str> = m.scope.env.iter().map(|(k, _)| k.as_str()).collect();
    assert_eq!(names, vec!["var.a", "var.b"]);
    assert_eq!(get(&m.scope.env, "var.a"), Some(&text("y")));
}

#[test]
fn expressions_read_without_changing_anything() {
    let env = vec![
        ("var.o".to_string(), Value::Object(vec![("k".to_string(), Value::Array(vec![text("a"), text("b")]))])),
        ("var.s".to_string(), text("hey")),
    ];
    let mut m = Machine::new(ALIAS);
    m.scope.env = env.clone();
    // [var.o.k, var.s == "HEY", not var.s]
    let v = Value::Array(vec![
        Value::Property { target: Box::new(var("var.o")), key: "k".to_string() },
        Value::Binary { left: Box::new(var("var.s")), op: BinaryOperator::Equal, right: Box::new(text("HEY")) },
        Value::Unary { op: UnaryOperator::Not, value: Box::new(var("var.s")) },
    ]);
    // Nothing of this needs a host.
    m.start_value(v);
    m.run_steps(1000);
    match &m.focus {
        Focus::Value(w) => assert_eq!(
            w,
            &Value::Array(vec![
                Value::Array(vec![text("a"), text("b")]),
                Value::Logic(true),
                Value::Logic(false),
            ])
        ),
        other => panic!("expected a value, got {:?}", other),
    }
    assert_eq!(m.scope.env, env);
}

// Whole programs.
fn run_program(source: &str, h: &mut Host) -> Result<Machine, String> {
    let mut m = match run_source(source, "/app", Some("/app/main.kal".to_string())) {
        Ok(m) => m,
        Err(e) => return Err(notes_text(e.message())),
    };
    h.drive(&mut m);
    match &m.focus {
        Focus::Done => Ok(m),
        Focus::Abort(Halt::Message(p)) => Err(pieces_text(p)),
        Focus::Abort(Halt::Parse { canonical, .. }) => Err(format!("Module error: '{}': parse error", canonical)),
        other => panic!("not ended: {:?}", other),
    }
}

fn notes_text(notes: Vec<Note>) -> String {
    let parts: Vec<String> = notes
        .iter()
        .map(|n| match n {
            Note::Text(s) => s.clone(),
            Note::Character(c) => format!("{:?}", c),
            Note::Symbol(m) => format!("{:?}", m),
            Note::Found(t) => format!("{:?}", t),
            Note::Value(v) => debug_text(v),
        })
        .collect();
    parts.join("")
}

fn with_sources(sources: Vec<(&str, &str)>) -> Host {
    let mut h = host();
    h.sources = sources
        .iter()
        .map(|(p, s)| (p.to_string(), format!("{}{}", HEADER, s)))
        .collect();
    h
}

fn outcome(source: &str, h: &mut Host) -> Result<Vec<String>, String> {
    run_program(&format!("{}{}", HEADER, source), h)?;
    Ok(h.printed.clone())
}

#[test]
fn modules_load_once_and_are_live() {
    let math = "var global share number = 53\nvar local secret number = 5\nvar global bump function = () { var.share = var.share + var.secret\n return(var.share) }\nkal.OnStart { con.Print(\"math starts\") }\n";
    let mut h = with_sources(vec![("/app/math.kal", math), ("/app/other.kal", "declare(\"./math.kal\")\nvar global seen number = math:var.share\n")]);
    let source = "declare(\"./other.kal\")\ndeclare(\"./math.kal\")\nkal.OnStart {\n con.Print(math:var.share, other:var.seen)\n con.Print(math:bump())\n con.Print(math:var.share)\n}\n";
    assert_eq!(
        outcome(source, &mut h),
        Ok(vec!["math starts".to_string(), "53 53".to_string(), "58".to_string(), "58".to_string()])
    );
}

#[test]
fn plain_reads_stay_in_their_file() {
    let mut h = with_sources(vec![("/app/lib.kal", "var global hidden number = 1\nvar global f function = () { return(var.mine) }\n")]);
    assert_eq!(
        outcome("declare(\"./lib.kal\")\nvar local mine number = 2\ncon.Print(var.hidden)\n", &mut h),
        Err("Uncaught NameError: Unknown variable: var.hidden".to_string())
    );
    let mut h = with_sources(vec![("/app/lib.kal", "var global f function = () { return(var.mine) }\n")]);
    assert_eq!(
        outcome("declare(\"./lib.kal\")\nvar local mine number = 2\ncon.Print(lib:f())\n", &mut h),
        Err("Uncaught NameError: Unknown variable: var.mine".to_string())
    );
}

#[test]
fn quiet_module_starts_when_asked_later() {
    let quiet = "var global n number = 1\nkal.OnStart {\n con.Print(\"starts\")\n var.n = 2\n}\n";
    let mut h = with_sources(vec![("/app/quiet.kal", quiet)]);
    assert_eq!(
        outcome("declare(\"./quiet.kal\", false)\ncon.Print(quiet:var.n)\n", &mut h),
        Ok(vec!["1".to_string()])
    );
    let mut h = with_sources(vec![("/app/quiet.kal", quiet)]);
    assert_eq!(
        outcome(
            "declare(\"./quiet.kal\", false)\ndeclare(\"./quiet.kal\")\ndeclare(\"./quiet.kal\")\ncon.Print(quiet:var.n)\n",
            &mut h
        ),
        Ok(vec!["starts".to_string(), "2".to_string()])
    );
}

#[test]
fn module_errors_are_final() {
    let run = |sources: Vec<(&str, &str)>, source: &str| outcome(source, &mut with_sources(sources)).unwrap_err();
    assert_eq!(
        run(vec![], "declare(\"./gone.kal\")\n"),
        "Module error: cannot load './gone.kal' (imported from '/app'): no such file"
    );
    assert_eq!(
        run(vec![], "declare(\"@/x.kal\")\n"),
        "Module error: '@/...' needs a kal.toml project root (imported from '/app')"
    );
    assert_eq!(
        run(vec![("/app/bad-name.kal", "")], "declare(\"./bad-name.kal\")\n"),
        "Module error: cannot derive module alias from '/app/bad-name.kal': file stem must match [A-Za-z_][A-Za-z0-9_]*"
    );
    assert_eq!(
        run(vec![("/app/a.kal", ""), ("/app/sub/a.kal", "")], "declare(\"./a.kal\")\ndeclare(\"./sub/a.kal\")\n"),
        "Module error: duplicate module alias 'a' from '/app/sub/a.kal'"
    );
    assert_eq!(
        run(
            vec![("/app/a.kal", "declare(\"./b.kal\")\n"), ("/app/b.kal", "declare(\"./a.kal\")\n")],
            "declare(\"./a.kal\")\n"
        ),
        "Module error: circular import: /app/main.kal -> /app/a.kal -> /app/b.kal -> /app/a.kal"
    );
    assert_eq!(
        run(vec![("/app/a.kal", "throw(Boom, \"x\")\n")], "declare(\"./a.kal\")\n"),
        "Module error: '/app/a.kal': Uncaught Boom: x"
    );
    assert_eq!(
        run(vec![("/app/a.kal", "break\n")], "declare(\"./a.kal\")\n"),
        "Module error: '/app/a.kal': break outside loop"
    );
    assert_eq!(
        run(vec![("/app/a.kal", "kal.OnStart { return(1) }\n")], "declare(\"./a.kal\")\n"),
        "Module error: '/app/a.kal': return can only be used inside a function body"
    );
    assert_eq!(
        run(vec![("/app/a.kal", "var local 1\n")], "declare(\"./a.kal\")\n"),
        "Module error: '/app/a.kal': parse error"
    );
}

#[test]
fn project_root_anchors_imports() {
    let mut h = with_sources(vec![("/root/lib/x.kal", "var global v number = 4\n"), ("/abs/y.kal", "var global v number = 5\n")]);
    h.root = Some("/root".to_string());
    assert_eq!(
        outcome("declare(\"@/lib/x.kal\")\ndeclare(\"/abs/y.kal\")\ncon.Print(x:var.v, y:var.v)\n", &mut h),
        Ok(vec!["4 5".to_string()])
    );
}

#[test]
fn program_reports_what_nothing_caught() {
    let run = |source: &str| outcome(source, &mut host()).unwrap_err();
    assert_eq!(run("throw(Boom, \"x\")\n"), "Uncaught Boom: x");
    assert_eq!(run("break\n"), "break outside loop");
    assert_eq!(run("continue\n"), "continue outside loop");
    assert_eq!(run("return(1)\n"), "return can only be used inside a function body");
    assert_eq!(run("kal.OnStart { break }\n"), "break outside loop");
    assert_eq!(uncaught_message(&num(1.0)).len(), 2);
}

#[test]
fn program_keeps_its_locals() {
    let m = run_program(
        &format!("{}var local a number = 1\nvar global b number = 2\nkal.Later {{ con.Print(\"never\") }}\n", HEADER),
        &mut host(),
    )
    .unwrap();
    let module = m.rt.module("__main__").unwrap();
    assert_eq!(get(&module.top_locals, "var.a"), Some(&num(1.0)));
    assert_eq!(get(&module.top_locals, "var.b"), None);
    assert_eq!(get(&module.globals, "var.b"), Some(&num(2.0)));
}

#[test]
fn session_keeps_its_variables() {
    let mut repl = Repl::new("/app".to_string());
    let mut h = host();
    for chunk in ["var local x number = 1", "var.x += 4", "con.Print(var.x)"] {
        repl.run_chunk(chunk).unwrap();
        h.drive(&mut repl.machine);
        assert!(matches!(repl.machine.focus, Focus::Done));
    }
    assert_eq!(h.printed, vec!["5"]);
    assert!(repl.run_chunk("var local").is_err());
    // A chunk that fails keeps what it did before.
    repl.run_chunk("var.x = 9\nthrow(A, \"b\")").unwrap();
    h.drive(&mut repl.machine);
    assert!(matches!(repl.machine.focus, Focus::Abort(_)));
    repl.run_chunk("con.Print(var.x)").unwrap();
    h.drive(&mut repl.machine);
    assert_eq!(h.printed, vec!["5", "9"]);
}

#[test]
fn parse_errors_say_what_is_wrong() {
    let message = |body: &str| notes_text(Parser::parse(&format!("{}{}", HEADER, body)).unwrap_err().message());
    assert_eq!(message("catch (Error) { }"), "catch must be inside try");
    assert_eq!(message("kal.OnStart { declare(\"x\") }"), "declare() must be at file top level");
    assert_eq!(
        message("switch (1) {\n default { }\n default { }\n}"),
        "switch allows only one default block"
    );
    assert_eq!(message("con.Print(\"a ${\")"), "Unclosed ${ in string interpolation");
    assert_eq!(message("con.Print(\"a ${ }\")"), "Empty ${} in string interpolation");
    assert_eq!(
        message("con.Print(\"${1 2}\")"),
        "Invalid expression in string interpolation: '1 2'"
    );
    // A required parameter behind a default makes it no function, but a value in parentheses.
    assert!(message("var local f function = (a = 1, b) { }").starts_with("Expected RParen, found "));
    assert_eq!(
        message("m:var.x"),
        "module data cannot be used as a statement; use module:foo() to call a module function"
    );
    assert!(message("m:f").starts_with("expected '(' after module function name"));
    assert!(message("var local x banana = 1").starts_with("Expected type name, found "));
    assert!(message("var other x number = 1").starts_with("Expected Dot, found "));
    assert!(message("var local x number = ").starts_with("Expected value, found "));
    assert!(message("var.x 1").starts_with("Expected assignment operator, found "));
    assert!(message("declare(1)").starts_with("Expected module path string, found "));
    assert!(message("declare(\"a\", 1)").starts_with("Expected true or false after module path, found "));
    assert!(message("switch (1) { 2 }").starts_with("Expected case or default in switch, found "));
    assert!(message("+").starts_with("Unexpected statement start: "));
    assert!(message("foo").starts_with("Unexpected syntax after identifier: "));
    assert!(message("if (1 { }").starts_with("Expected RParen, found "));
    assert!(message("con.Print(1.f())").starts_with("Method call target is not resolvable: "));
    assert!(message("con.Print(\"open)").starts_with("Unclosed string"));
    assert!(notes_text(Parser::parse("[SCRIPTTYPE KALVITA VERSION x]").unwrap_err().message())
        .starts_with("Expected number literal, found "));
}

#[test]
fn tighter_operators_take_their_operands_first() {
    let value = |source: &str| {
        let (m, _, err) = run(&format!("var local r number = {}", source));
        assert_eq!(err, None);
        get(&m.scope.env, "var.r").unwrap().clone()
    };
    assert_eq!(value("1 + 2 * 3"), num(7.0));
    assert_eq!(value("2 * 3 + 1"), num(7.0));
    assert_eq!(value("10 - 4 - 3"), num(3.0));
    assert_eq!(value("1 | 2 ^ 2"), num(1.0));
    assert_eq!(value("1 << 2 + 1"), num(8.0));
    assert_eq!(printed("con.Print(1 + 1 == 2 and not false)"), vec!["true"]);
}

#[test]
fn nearest_directory_is_the_root() {
    assert_eq!(nearest_root(&vec![false, true, true]), Some(1));
    assert_eq!(nearest_root(&vec![false, false]), None);
    assert_eq!(nearest_root(&vec![]), None);
}

#[test]
fn written_places_read_back() {
    let (m, h, err) = run("var local o object = { a: [1, 2], b: \"kept\" }\nvar local other number = 5\nvar.o.a[1] = [7]\nvar.o.a[1][0] += 1\ncon.Print(var.o.a[1][0], var.o.b, var.other)");
    assert_eq!(err, None);
    assert_eq!(h.printed, vec!["8 kept 5"]);
    // What fails changes nothing.
    let before = m.scope.env.clone();
    let mut m = m;
    for source in ["var.o.a[9] = 1", "var.o.b[0] = 1", "var.o.zz[0] = 1", "var.o = 3", "var.o.a[0.5] = 1"] {
        assert!(execute(&mut m, &mut host(), &body_of(source)[0]).is_err(), "{}", source);
        assert_eq!(m.scope.env, before, "{}", source);
    }
}

#[test]
fn aliases_are_names() {
    for (name, want) in [("math", true), ("_x1", true), ("1x", false), ("a-b", false), ("", false)] {
        assert_eq!(is_valid_alias(name), want, "{}", name);
    }
}

#[test]
fn switch_works_its_cases_out_up_to_the_match() {
    let (_, h, err) = run("var local two function = () { con.Print(\"two\") return(2) }\nvar local x number = 3\nswitch (var.x - 1) {\n case (1 + 0) { con.Print(\"one\") }\n case (two()) { con.Print(\"match\") }\n case (var.missing) { con.Print(\"never\") }\n default { con.Print(\"default\") }\n}\nswitch (\"a\") {\n case (\"A\") { con.Print(\"upper\") }\n default { con.Print(\"none\") }\n}");
    assert_eq!(err, None);
    assert_eq!(h.printed, vec!["two", "match", "none"]);
}

#[test]
fn first_truthy_branch_runs() {
    let (_, h, err) = run("var local n number = 2\nif (var.n == 1) { con.Print(\"one\") } elseif (var.n == 2) { con.Print(\"two\") } elseif (var.missing) { con.Print(\"never\") } else { con.Print(\"else\") }\nif (0) { con.Print(\"a\") } elseif (\"\") { con.Print(\"b\") } else { con.Print(\"c\") }");
    assert_eq!(err, None);
    assert_eq!(h.printed, vec!["two", "c"]);
}

#[test]
fn call_takes_defaults_and_the_value_of_its_body() {
    let (m, h, err) = run("var local base number = 10\nvar local f function = (a, b = var.base + 1) { return(arg.a * arg.b) }\nvar local g function = (n) {\n var local s number = 0\n for (i in 0..arg.n) { var.s += var.i }\n return(var.s)\n}\nvar local quiet function = () { }\ncon.Print(f(2), f(2, 3), g(4), quiet())");
    assert_eq!(err, None);
    assert_eq!(h.printed, vec!["22 6 6 null"]);
    assert_eq!(m.rt.call_depth, 0);
}
