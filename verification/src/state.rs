//! The state of the machine: what it is about to do, and what is left to do
//! after that.

use crate::ast::{
    arms, block, block_opt, entries, handlers, texts, values, AssignTarget, BinaryOperator, CatchClause, CatchModel,
    GuiKind, Statement, StatementModel, TargetModel, UnaryOperator, Value, ValueModel,
};
use crate::draft::{pieces, FaultModel, Piece, PieceModel, Plan, PlanModel, RuntimeFault};
use crate::grammar::{ParseError, ParseErrorModel};
use crate::request::{Answer, AnswerModel, Request, RequestModel};
use crate::runtime::{value_opt, ModuleRuntime, RuntimeModel, Scope, ScopeModel};
use vstd::prelude::*;

verus! {

/// How a statement ends.
#[derive(Debug, PartialEq)]
pub enum Flow {
    Normal,
    Break,
    Continue,
    Return(Value),
}

#[verifier::ext_equal]
pub enum FlowModel {
    Normal,
    Break,
    Continue,
    Return(ValueModel),
}

/// What a list of values is for, once they have all been worked out.
#[derive(Debug)]
pub enum Purpose {
    Array,
    Object(Vec<String>),
    Print,
    Input,
    Math(String),
    Str(String),
    Arr(String),
    TimeFormat,
    Json(String),
    Sys(String),
    Gui(String),
    Http(String),
    Db(String),
    File(String),
    CaseEquals(Value),
    Method { kind: GuiKind, id: u64, method: String },
    SelectFile,
    Assert,
    Call(Call),
}

/// A call of a function of the script: the scope that its body will see, what
/// `pass` stands for, the function, the name it was called by and the arguments
/// as they were written.
#[derive(Debug)]
pub struct Call {
    pub local: Scope,
    pub pass: Value,
    pub params: Vec<String>,
    pub defaults: Vec<(String, Value)>,
    pub body: Vec<Statement>,
    pub function: String,
    pub args: Vec<Value>,
}

#[verifier::ext_equal]
pub enum PurposeModel {
    Array,
    Object(Seq<Seq<char>>),
    Print,
    Input,
    Math(Seq<char>),
    Str(Seq<char>),
    Arr(Seq<char>),
    TimeFormat,
    Json(Seq<char>),
    Sys(Seq<char>),
    Gui(Seq<char>),
    Http(Seq<char>),
    Db(Seq<char>),
    File(Seq<char>),
    CaseEquals(ValueModel),
    Method { kind: GuiKind, id: u64, method: Seq<char> },
    SelectFile,
    Assert,
    Call(CallModel),
}

#[verifier::ext_equal]
pub struct CallModel {
    pub local: ScopeModel,
    pub pass: ValueModel,
    pub params: Seq<Seq<char>>,
    pub defaults: Seq<(Seq<char>, ValueModel)>,
    pub body: Seq<StatementModel>,
    pub function: Seq<char>,
    pub args: Seq<ValueModel>,
}

/// A variable that a loop or a handler borrows: what it held, what the live
/// store held if the name is exported, and whether it is.
#[derive(Debug)]
pub struct Shadow {
    pub key: String,
    pub saved: Option<Value>,
    pub saved_global: Option<Value>,
    pub shadows: bool,
}

#[verifier::ext_equal]
pub struct ShadowModel {
    pub key: Seq<char>,
    pub saved: Option<ValueModel>,
    pub saved_global: Option<ValueModel>,
    pub shadows: bool,
}

/// How far the run of a window has come.
#[derive(Debug, PartialEq, Eq, Clone, Copy, Structural)]
pub enum Stage {
    Starting,
    Showing,
    Exiting,
}

/// A window that is being run: the error that its start gave, the one that a
/// click gave, the clicks that are still to be handled, whether it is to close,
/// and why it could not be shown.
#[derive(Debug)]
pub struct WindowRun {
    pub id: u64,
    pub stage: Stage,
    pub failure: Option<RuntimeFault>,
    pub pending: Option<RuntimeFault>,
    pub clicks: Vec<u64>,
    pub next: usize,
    pub finished: bool,
    pub trouble: Option<String>,
}

#[verifier::ext_equal]
pub struct WindowModel {
    pub id: u64,
    pub stage: Stage,
    pub failure: Option<FaultModel>,
    pub pending: Option<FaultModel>,
    pub clicks: Seq<u64>,
    pub next: int,
    pub finished: bool,
    pub trouble: Option<Seq<char>>,
}

/// A module that is being loaded: its file, its alias, whether its start event
/// runs, its statements, how many of them are done, and the scope to go back to.
#[derive(Debug)]
pub struct Import {
    pub canonical: String,
    pub alias: String,
    pub run: bool,
    pub statements: Vec<Statement>,
    pub next: usize,
    pub saved: Scope,
}

#[verifier::ext_equal]
pub struct ImportModel {
    pub canonical: Seq<char>,
    pub alias: Seq<char>,
    pub run: bool,
    pub statements: Seq<StatementModel>,
    pub next: int,
    pub saved: ScopeModel,
}

/// What is left to do once a value, or the end of a statement, is there.
#[derive(Debug)]
pub enum Frame {
    Args { purpose: Purpose, items: Vec<Value>, next: usize, done: Vec<Value> },
    Property(String),
    IndexTarget(Value),
    IndexAt(Value),
    Left { op: BinaryOperator, right: Value },
    Right { op: BinaryOperator, left: Value },
    Unary(UnaryOperator),
    Raise(String),
    Define { name: String, declared: String, global: bool },
    Discard,
    Assign { target: AssignTarget, op: Option<BinaryOperator> },
    AssignRead { target: AssignTarget, op: Option<BinaryOperator>, value: Value },
    AssignWrite(AssignTarget),
    TargetProperty(String),
    TargetIndex(Value),
    TargetAt(Value),
    WriteProperty { inner: AssignTarget, key: String, value: Value },
    WriteIndex { inner: AssignTarget, value: Value },
    WriteAt { inner: AssignTarget, index: u64, value: Value },
    Switch { cases: Vec<(Value, Vec<Statement>)>, default: Option<Vec<Statement>> },
    Case { subject: Value, cases: Vec<(Value, Vec<Statement>)>, next: usize, default: Option<Vec<Statement>> },
    Return,
    Throw(String),
    Branch {
        body: Vec<Statement>,
        rest: Vec<(Value, Vec<Statement>)>,
        next: usize,
        otherwise: Option<Vec<Statement>>,
    },
    WhileTest { condition: Value, body: Vec<Statement>, count: usize },
    WhileBody { condition: Value, body: Vec<Statement>, count: usize },
    RangeStart { var: String, end: Value, body: Vec<Statement> },
    RangeEnd { var: String, start: i64, body: Vec<Statement> },
    RangeItem { shadow: Shadow, body: Vec<Statement>, at: i64, end: i64 },
    RangeBody { shadow: Shadow, body: Vec<Statement>, at: i64, end: i64 },
    EachStart { var: String, body: Vec<Statement> },
    EachBody { shadow: Shadow, body: Vec<Statement>, items: Vec<Value>, next: usize },
    Try(Vec<CatchClause>),
    Catch(Shadow),
    OnStart,
    Block { statements: Vec<Statement>, next: usize },
    Guard,
    Bind { call: Call, next: usize },
    Body(Scope),
    Handlers { list: Vec<Value>, next: usize, handle: Value, event: String },
    Window(WindowRun),
    Declares { list: Vec<(String, bool)>, next: usize, directory: String },
    Locating { directory: String, raw: String, run: bool },
    Reading { canonical: String, directory: String, alias: String, run: bool },
    Import(Import),
    Module(Import),
    Events { alias: String, path: String, events: Vec<Statement>, next: usize, saved: Scope, loaded: bool },
    Entry { statements: Vec<Statement>, next: usize },
}

#[verifier::ext_equal]
pub enum FrameModel {
    Args { purpose: PurposeModel, items: Seq<ValueModel>, next: int, done: Seq<ValueModel> },
    Property(Seq<char>),
    IndexTarget(ValueModel),
    IndexAt(ValueModel),
    Left { op: BinaryOperator, right: ValueModel },
    Right { op: BinaryOperator, left: ValueModel },
    Unary(UnaryOperator),
    Raise(Seq<char>),
    Define { name: Seq<char>, declared: Seq<char>, global: bool },
    Discard,
    Assign { target: TargetModel, op: Option<BinaryOperator> },
    AssignRead { target: TargetModel, op: Option<BinaryOperator>, value: ValueModel },
    AssignWrite(TargetModel),
    TargetProperty(Seq<char>),
    TargetIndex(ValueModel),
    TargetAt(ValueModel),
    WriteProperty { inner: TargetModel, key: Seq<char>, value: ValueModel },
    WriteIndex { inner: TargetModel, value: ValueModel },
    WriteAt { inner: TargetModel, index: u64, value: ValueModel },
    Switch { cases: Seq<(ValueModel, Seq<StatementModel>)>, default: Option<Seq<StatementModel>> },
    Case {
        subject: ValueModel,
        cases: Seq<(ValueModel, Seq<StatementModel>)>,
        next: int,
        default: Option<Seq<StatementModel>>,
    },
    Return,
    Throw(Seq<char>),
    Branch {
        body: Seq<StatementModel>,
        rest: Seq<(ValueModel, Seq<StatementModel>)>,
        next: int,
        otherwise: Option<Seq<StatementModel>>,
    },
    WhileTest { condition: ValueModel, body: Seq<StatementModel>, count: int },
    WhileBody { condition: ValueModel, body: Seq<StatementModel>, count: int },
    RangeStart { var: Seq<char>, end: ValueModel, body: Seq<StatementModel> },
    RangeEnd { var: Seq<char>, start: i64, body: Seq<StatementModel> },
    RangeItem { shadow: ShadowModel, body: Seq<StatementModel>, at: i64, end: i64 },
    RangeBody { shadow: ShadowModel, body: Seq<StatementModel>, at: i64, end: i64 },
    EachStart { var: Seq<char>, body: Seq<StatementModel> },
    EachBody { shadow: ShadowModel, body: Seq<StatementModel>, items: Seq<ValueModel>, next: int },
    Try(Seq<CatchModel>),
    Catch(ShadowModel),
    OnStart,
    Block { statements: Seq<StatementModel>, next: int },
    Guard,
    Bind { call: CallModel, next: int },
    Body(ScopeModel),
    Handlers { list: Seq<ValueModel>, next: int, handle: ValueModel, event: Seq<char> },
    Window(WindowModel),
    Declares { list: Seq<(Seq<char>, bool)>, next: int, directory: Seq<char> },
    Locating { directory: Seq<char>, raw: Seq<char>, run: bool },
    Reading { canonical: Seq<char>, directory: Seq<char>, alias: Seq<char>, run: bool },
    Import(ImportModel),
    Module(ImportModel),
    Events {
        alias: Seq<char>,
        path: Seq<char>,
        events: Seq<StatementModel>,
        next: int,
        saved: ScopeModel,
        loaded: bool,
    },
    Entry { statements: Seq<StatementModel>, next: int },
}

/// What the machine waits for.
#[derive(Debug, PartialEq)]
pub enum Wait {
    Plan(Plan),
    Request(Request),
}

#[verifier::ext_equal]
pub enum WaitModel {
    Plan(PlanModel),
    Request(RequestModel),
}

/// What the host hands back: the value of a plan, or the answer to a request.
#[derive(Debug, PartialEq)]
pub enum Event {
    Value(Value),
    Answer(Answer),
}

#[verifier::ext_equal]
pub enum EventModel {
    Value(ValueModel),
    Answer(AnswerModel),
}

/// Why a run was given up: a message, or a file that is no program.
#[derive(Debug, PartialEq)]
pub enum Halt {
    Message(Vec<Piece>),
    Parse { canonical: String, error: ParseError },
}

#[verifier::ext_equal]
pub enum HaltModel {
    Message(Seq<PieceModel>),
    Parse { canonical: Seq<char>, error: ParseErrorModel },
}

/// What the machine is about to do.
#[derive(Debug)]
pub enum Focus {
    Eval(Value),
    Exec(Statement),
    Read(AssignTarget),
    Write(AssignTarget, Value),
    Value(Value),
    Flow(Flow),
    Fault(RuntimeFault),
    Await(Wait),
    Abort(Halt),
    Done,
}

#[verifier::ext_equal]
pub enum FocusModel {
    Eval(ValueModel),
    Exec(StatementModel),
    Read(TargetModel),
    Write(TargetModel, ValueModel),
    Value(ValueModel),
    Flow(FlowModel),
    Fault(FaultModel),
    Await(WaitModel),
    Abort(HaltModel),
    Done,
}

/// A running script.
#[derive(Debug)]
pub struct Machine {
    pub focus: Focus,
    pub stack: Vec<Frame>,
    pub scope: Scope,
    pub rt: ModuleRuntime,
}

#[verifier::ext_equal]
pub struct MachineModel {
    pub focus: FocusModel,
    pub stack: Seq<FrameModel>,
    pub scope: ScopeModel,
    pub rt: RuntimeModel,
}

impl Flow {
    pub open spec fn view(&self) -> FlowModel {
        match *self {
            Flow::Normal => FlowModel::Normal,
            Flow::Break => FlowModel::Break,
            Flow::Continue => FlowModel::Continue,
            Flow::Return(v) => FlowModel::Return(v@),
        }
    }
}

impl Call {
    pub open spec fn view(&self) -> CallModel {
        CallModel {
            local: self.local@,
            pass: self.pass@,
            params: texts(self.params@),
            defaults: entries(self.defaults@),
            body: block(self.body@),
            function: self.function@,
            args: values(self.args@),
        }
    }
}

impl Purpose {
    pub open spec fn view(&self) -> PurposeModel {
        match *self {
            Purpose::Array => PurposeModel::Array,
            Purpose::Object(keys) => PurposeModel::Object(texts(keys@)),
            Purpose::Print => PurposeModel::Print,
            Purpose::Input => PurposeModel::Input,
            Purpose::Math(f) => PurposeModel::Math(f@),
            Purpose::Str(f) => PurposeModel::Str(f@),
            Purpose::Arr(f) => PurposeModel::Arr(f@),
            Purpose::TimeFormat => PurposeModel::TimeFormat,
            Purpose::Json(f) => PurposeModel::Json(f@),
            Purpose::Sys(f) => PurposeModel::Sys(f@),
            Purpose::Gui(f) => PurposeModel::Gui(f@),
            Purpose::Http(f) => PurposeModel::Http(f@),
            Purpose::Db(f) => PurposeModel::Db(f@),
            Purpose::File(f) => PurposeModel::File(f@),
            Purpose::CaseEquals(v) => PurposeModel::CaseEquals(v@),
            Purpose::Method { kind, id, method } => PurposeModel::Method { kind, id, method: method@ },
            Purpose::SelectFile => PurposeModel::SelectFile,
            Purpose::Assert => PurposeModel::Assert,
            Purpose::Call(c) => PurposeModel::Call(c@),
        }
    }
}

impl Shadow {
    pub open spec fn view(&self) -> ShadowModel {
        ShadowModel {
            key: self.key@,
            saved: value_opt(self.saved),
            saved_global: value_opt(self.saved_global),
            shadows: self.shadows,
        }
    }
}

pub open spec fn fault_opt(f: Option<RuntimeFault>) -> Option<FaultModel> {
    match f {
        Some(x) => Some(x@),
        None => None,
    }
}

impl WindowRun {
    pub open spec fn view(&self) -> WindowModel {
        WindowModel {
            id: self.id,
            stage: self.stage,
            failure: fault_opt(self.failure),
            pending: fault_opt(self.pending),
            clicks: self.clicks@,
            next: self.next as int,
            finished: self.finished,
            trouble: crate::ast::text_opt(self.trouble),
        }
    }
}

impl Import {
    pub open spec fn view(&self) -> ImportModel {
        ImportModel {
            canonical: self.canonical@,
            alias: self.alias@,
            run: self.run,
            statements: block(self.statements@),
            next: self.next as int,
            saved: self.saved@,
        }
    }
}

pub open spec fn declare_list(items: Seq<(String, bool)>) -> Seq<(Seq<char>, bool)> {
    Seq::new(items.len(), |i: int| (items[i].0@, items[i].1))
}

impl Frame {
    pub open spec fn view(&self) -> FrameModel {
        match *self {
            Frame::Args { purpose, items, next, done } => FrameModel::Args {
                purpose: purpose@,
                items: values(items@),
                next: next as int,
                done: values(done@),
            },
            Frame::Property(key) => FrameModel::Property(key@),
            Frame::IndexTarget(v) => FrameModel::IndexTarget(v@),
            Frame::IndexAt(v) => FrameModel::IndexAt(v@),
            Frame::Left { op, right } => FrameModel::Left { op, right: right@ },
            Frame::Right { op, left } => FrameModel::Right { op, left: left@ },
            Frame::Unary(op) => FrameModel::Unary(op),
            Frame::Raise(t) => FrameModel::Raise(t@),
            Frame::Define { name, declared, global } => FrameModel::Define {
                name: name@,
                declared: declared@,
                global,
            },
            Frame::Discard => FrameModel::Discard,
            Frame::Assign { target, op } => FrameModel::Assign { target: target@, op },
            Frame::AssignRead { target, op, value } => FrameModel::AssignRead { target: target@, op, value: value@ },
            Frame::AssignWrite(target) => FrameModel::AssignWrite(target@),
            Frame::TargetProperty(key) => FrameModel::TargetProperty(key@),
            Frame::TargetIndex(v) => FrameModel::TargetIndex(v@),
            Frame::TargetAt(v) => FrameModel::TargetAt(v@),
            Frame::WriteProperty { inner, key, value } => FrameModel::WriteProperty {
                inner: inner@,
                key: key@,
                value: value@,
            },
            Frame::WriteIndex { inner, value } => FrameModel::WriteIndex { inner: inner@, value: value@ },
            Frame::WriteAt { inner, index, value } => FrameModel::WriteAt {
                inner: inner@,
                index,
                value: value@,
            },
            Frame::Switch { cases, default } => FrameModel::Switch { cases: arms(cases@), default: block_opt(default) },
            Frame::Case { subject, cases, next, default } => FrameModel::Case {
                subject: subject@,
                cases: arms(cases@),
                next: next as int,
                default: block_opt(default),
            },
            Frame::Return => FrameModel::Return,
            Frame::Throw(t) => FrameModel::Throw(t@),
            Frame::Branch { body, rest, next, otherwise } => FrameModel::Branch {
                body: block(body@),
                rest: arms(rest@),
                next: next as int,
                otherwise: block_opt(otherwise),
            },
            Frame::WhileTest { condition, body, count } => FrameModel::WhileTest {
                condition: condition@,
                body: block(body@),
                count: count as int,
            },
            Frame::WhileBody { condition, body, count } => FrameModel::WhileBody {
                condition: condition@,
                body: block(body@),
                count: count as int,
            },
            Frame::RangeStart { var, end, body } => FrameModel::RangeStart {
                var: var@,
                end: end@,
                body: block(body@),
            },
            Frame::RangeEnd { var, start, body } => FrameModel::RangeEnd {
                var: var@,
                start,
                body: block(body@),
            },
            Frame::RangeItem { shadow, body, at, end } => FrameModel::RangeItem {
                shadow: shadow@,
                body: block(body@),
                at,
                end,
            },
            Frame::RangeBody { shadow, body, at, end } => FrameModel::RangeBody {
                shadow: shadow@,
                body: block(body@),
                at,
                end,
            },
            Frame::EachStart { var, body } => FrameModel::EachStart { var: var@, body: block(body@) },
            Frame::EachBody { shadow, body, items, next } => FrameModel::EachBody {
                shadow: shadow@,
                body: block(body@),
                items: values(items@),
                next: next as int,
            },
            Frame::Try(catches) => FrameModel::Try(handlers(catches@)),
            Frame::Catch(shadow) => FrameModel::Catch(shadow@),
            Frame::OnStart => FrameModel::OnStart,
            Frame::Block { statements, next } => FrameModel::Block {
                statements: block(statements@),
                next: next as int,
            },
            Frame::Guard => FrameModel::Guard,
            Frame::Bind { call, next } => FrameModel::Bind { call: call@, next: next as int },
            Frame::Body(scope) => FrameModel::Body(scope@),
            Frame::Handlers { list, next, handle, event } => FrameModel::Handlers {
                list: values(list@),
                next: next as int,
                handle: handle@,
                event: event@,
            },
            Frame::Window(w) => FrameModel::Window(w@),
            Frame::Declares { list, next, directory } => FrameModel::Declares {
                list: declare_list(list@),
                next: next as int,
                directory: directory@,
            },
            Frame::Locating { directory, raw, run } => FrameModel::Locating { directory: directory@, raw: raw@, run },
            Frame::Reading { canonical, directory, alias, run } => FrameModel::Reading {
                canonical: canonical@,
                directory: directory@,
                alias: alias@,
                run,
            },
            Frame::Import(i) => FrameModel::Import(i@),
            Frame::Module(i) => FrameModel::Module(i@),
            Frame::Events { alias, path, events, next, saved, loaded } => FrameModel::Events {
                alias: alias@,
                path: path@,
                events: block(events@),
                next: next as int,
                saved: saved@,
                loaded,
            },
            Frame::Entry { statements, next } => FrameModel::Entry {
                statements: block(statements@),
                next: next as int,
            },
        }
    }
}

impl Wait {
    pub open spec fn view(&self) -> WaitModel {
        match *self {
            Wait::Plan(p) => WaitModel::Plan(p@),
            Wait::Request(q) => WaitModel::Request(q@),
        }
    }
}

impl Event {
    pub open spec fn view(&self) -> EventModel {
        match *self {
            Event::Value(v) => EventModel::Value(v@),
            Event::Answer(a) => EventModel::Answer(a@),
        }
    }
}

impl Halt {
    pub open spec fn view(&self) -> HaltModel {
        match *self {
            Halt::Message(m) => HaltModel::Message(pieces(m@)),
            Halt::Parse { canonical, error } => HaltModel::Parse { canonical: canonical@, error: error@ },
        }
    }
}

impl Focus {
    pub open spec fn view(&self) -> FocusModel {
        match *self {
            Focus::Eval(v) => FocusModel::Eval(v@),
            Focus::Exec(s) => FocusModel::Exec(s@),
            Focus::Read(t) => FocusModel::Read(t@),
            Focus::Write(t, v) => FocusModel::Write(t@, v@),
            Focus::Value(v) => FocusModel::Value(v@),
            Focus::Flow(f) => FocusModel::Flow(f@),
            Focus::Fault(f) => FocusModel::Fault(f@),
            Focus::Await(w) => FocusModel::Await(w@),
            Focus::Abort(h) => FocusModel::Abort(h@),
            Focus::Done => FocusModel::Done,
        }
    }
}

pub open spec fn frames(stack: Seq<Frame>) -> Seq<FrameModel> {
    Seq::new(stack.len(), |i: int| stack[i]@)
}

impl Machine {
    pub open spec fn view(&self) -> MachineModel {
        MachineModel { focus: self.focus@, stack: frames(self.stack@), scope: self.scope@, rt: self.rt@ }
    }
}

} // verus!
