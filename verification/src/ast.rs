//! The syntax tree. Values double as run-time values.
//!
//! Each type has a model: the same tree over sequences of characters and
//! mathematical sequences. Contracts speak of the models.

use vstd::prelude::*;

verus! {

#[derive(Debug, PartialEq, Eq, Clone, Copy, Structural)]
pub enum BinaryOperator {
    Add,
    Subtract,
    Multiply,
    Divide,
    BitAnd,
    BitOr,
    BitXor,
    Shl,
    Shr,
    Range,
    Equal,
    NotEqual,
    StrictEqual,
    StrictNotEqual,
    And,
    Or,
    Greater,
    Less,
    GreaterEqual,
    LessEqual,
}

#[derive(Debug, PartialEq, Eq, Clone, Copy, Structural)]
pub enum UnaryOperator {
    Not,
    BitNot,
}

/// The kinds of widget that a script can hold a handle to.
#[derive(Debug, PartialEq, Eq, Clone, Copy, Structural)]
pub enum GuiKind {
    Window,
    Button,
}

/// A value, or an expression that stands for one.
///
/// `Number` holds the bits of an IEEE 754 binary64 number. Tables are lists of
/// entries in which no key occurs twice.
#[derive(Debug, PartialEq)]
pub enum Value {
    Null,
    Number(u64),
    String(String),
    Logic(bool),
    Variable(String),
    Object(Vec<(String, Value)>),
    Array(Vec<Value>),
    Index { target: Box<Value>, index: Box<Value> },
    FunctionCall { object: Option<String>, module: Option<String>, function: String, args: Vec<Value> },
    ModuleVar { alias: String, name: String },
    Binary { left: Box<Value>, op: BinaryOperator, right: Box<Value> },
    Property { target: Box<Value>, key: String },
    Unary { op: UnaryOperator, value: Box<Value> },
    Function { params: Vec<String>, defaults: Vec<(String, Value)>, body: Vec<Statement> },
    Error { error_type: String, message: String },
    File { path: String },
    Db { id: u64 },
    Gui { kind: GuiKind, id: u64 },
}

#[derive(Debug, PartialEq)]
pub enum Statement {
    VariableDecl { name: String, declared: String, value: Value },
    GlobalDecl { name: String, declared: String, value: Value },
    Declare { path: String, run: bool },
    FunctionCall { object: Option<String>, module: Option<String>, function: String, args: Vec<Value> },
    Return { value: Box<Value> },
    Assign { target: AssignTarget, op: Option<BinaryOperator>, value: Box<Value> },
    Switch { scrutinee: Box<Value>, cases: Vec<(Value, Vec<Statement>)>, default: Option<Vec<Statement>> },
    Event { object: String, name: String, body: Vec<Statement> },
    If {
        condition: Value,
        then_branch: Vec<Statement>,
        else_if_branches: Vec<(Value, Vec<Statement>)>,
        else_branch: Option<Vec<Statement>>,
    },
    While { condition: Value, body: Vec<Statement> },
    ForIn { var: String, iterable: Value, body: Vec<Statement> },
    Break,
    Continue,
    Throw { error_type: String, message: Box<Value> },
    Try { body: Vec<Statement>, catches: Vec<CatchClause> },
}

#[derive(Debug, PartialEq)]
pub struct CatchClause {
    pub error_type: String,
    pub body: Vec<Statement>,
}

/// Assignment target: `var.x`, `var.obj.key`, `var.arr[i]` (chains nest).
#[derive(Debug, PartialEq)]
pub enum AssignTarget {
    Var(String),
    Property { target: Box<AssignTarget>, key: String },
    Index { target: Box<AssignTarget>, index: Box<Value> },
}

#[derive(Debug, PartialEq, Clone)]
pub struct Header {
    pub script_type: String,
    pub language: String,
    pub version: u64,
}

#[derive(Debug, PartialEq)]
pub struct Program {
    pub header: Header,
    pub statements: Vec<Statement>,
}

#[verifier::ext_equal]
pub enum ValueModel {
    Null,
    Number(u64),
    String(Seq<char>),
    Logic(bool),
    Variable(Seq<char>),
    Object(Seq<(Seq<char>, ValueModel)>),
    Array(Seq<ValueModel>),
    Index { target: Box<ValueModel>, index: Box<ValueModel> },
    FunctionCall { object: Option<Seq<char>>, module: Option<Seq<char>>, function: Seq<char>, args: Seq<ValueModel> },
    ModuleVar { alias: Seq<char>, name: Seq<char> },
    Binary { left: Box<ValueModel>, op: BinaryOperator, right: Box<ValueModel> },
    Property { target: Box<ValueModel>, key: Seq<char> },
    Unary { op: UnaryOperator, value: Box<ValueModel> },
    Function { params: Seq<Seq<char>>, defaults: Seq<(Seq<char>, ValueModel)>, body: Seq<StatementModel> },
    Error { error_type: Seq<char>, message: Seq<char> },
    File { path: Seq<char> },
    Db { id: u64 },
    Gui { kind: GuiKind, id: u64 },
}

#[verifier::ext_equal]
pub enum StatementModel {
    VariableDecl { name: Seq<char>, declared: Seq<char>, value: ValueModel },
    GlobalDecl { name: Seq<char>, declared: Seq<char>, value: ValueModel },
    Declare { path: Seq<char>, run: bool },
    FunctionCall { object: Option<Seq<char>>, module: Option<Seq<char>>, function: Seq<char>, args: Seq<ValueModel> },
    Return { value: Box<ValueModel> },
    Assign { target: TargetModel, op: Option<BinaryOperator>, value: Box<ValueModel> },
    Switch {
        scrutinee: Box<ValueModel>,
        cases: Seq<(ValueModel, Seq<StatementModel>)>,
        default: Option<Seq<StatementModel>>,
    },
    Event { object: Seq<char>, name: Seq<char>, body: Seq<StatementModel> },
    If {
        condition: ValueModel,
        then_branch: Seq<StatementModel>,
        else_if_branches: Seq<(ValueModel, Seq<StatementModel>)>,
        else_branch: Option<Seq<StatementModel>>,
    },
    While { condition: ValueModel, body: Seq<StatementModel> },
    ForIn { var: Seq<char>, iterable: ValueModel, body: Seq<StatementModel> },
    Break,
    Continue,
    Throw { error_type: Seq<char>, message: Box<ValueModel> },
    Try { body: Seq<StatementModel>, catches: Seq<CatchModel> },
}

#[verifier::ext_equal]
pub struct CatchModel {
    pub error_type: Seq<char>,
    pub body: Seq<StatementModel>,
}

#[verifier::ext_equal]
pub enum TargetModel {
    Var(Seq<char>),
    Property { target: Box<TargetModel>, key: Seq<char> },
    Index { target: Box<TargetModel>, index: Box<ValueModel> },
}

#[verifier::ext_equal]
pub struct HeaderModel {
    pub script_type: Seq<char>,
    pub language: Seq<char>,
    pub version: int,
}

#[verifier::ext_equal]
pub struct ProgramModel {
    pub header: HeaderModel,
    pub statements: Seq<StatementModel>,
}

pub open spec fn texts(items: Seq<String>) -> Seq<Seq<char>> {
    Seq::new(items.len(), |i: int| items[i]@)
}

pub open spec fn text_opt(item: Option<String>) -> Option<Seq<char>> {
    match item {
        Some(s) => Some(s@),
        None => None,
    }
}

pub open spec fn values(items: Seq<Value>) -> Seq<ValueModel>
    decreases items,
{
    Seq::new(
        items.len(),
        |i: int|
            if 0 <= i < items.len() {
                items[i].view()
            } else {
                arbitrary()
            },
    )
}

pub open spec fn entries(items: Seq<(String, Value)>) -> Seq<(Seq<char>, ValueModel)>
    decreases items,
{
    Seq::new(
        items.len(),
        |i: int|
            if 0 <= i < items.len() {
                (items[i].0@, items[i].1.view())
            } else {
                arbitrary()
            },
    )
}

pub open spec fn block(items: Seq<Statement>) -> Seq<StatementModel>
    decreases items,
{
    Seq::new(
        items.len(),
        |i: int|
            if 0 <= i < items.len() {
                items[i].view()
            } else {
                arbitrary()
            },
    )
}

pub open spec fn block_opt(item: Option<Vec<Statement>>) -> Option<Seq<StatementModel>>
    decreases item,
{
    match item {
        Some(b) => Some(block(b@)),
        None => None,
    }
}

pub open spec fn arms(items: Seq<(Value, Vec<Statement>)>) -> Seq<(ValueModel, Seq<StatementModel>)>
    decreases items,
{
    Seq::new(
        items.len(),
        |i: int|
            if 0 <= i < items.len() {
                (items[i].0.view(), block(items[i].1@))
            } else {
                arbitrary()
            },
    )
}

pub open spec fn handlers(items: Seq<CatchClause>) -> Seq<CatchModel>
    decreases items,
{
    Seq::new(
        items.len(),
        |i: int|
            if 0 <= i < items.len() {
                CatchModel { error_type: items[i].error_type@, body: block(items[i].body@) }
            } else {
                arbitrary()
            },
    )
}

impl Value {
    pub open spec fn view(&self) -> ValueModel
        decreases self,
    {
        match *self {
            Value::Null => ValueModel::Null,
            Value::Number(bits) => ValueModel::Number(bits),
            Value::String(s) => ValueModel::String(s@),
            Value::Logic(b) => ValueModel::Logic(b),
            Value::Variable(s) => ValueModel::Variable(s@),
            Value::Object(items) => ValueModel::Object(entries(items@)),
            Value::Array(items) => ValueModel::Array(values(items@)),
            Value::Index { target, index } => ValueModel::Index {
                target: Box::new(target.view()),
                index: Box::new(index.view()),
            },
            Value::FunctionCall { object, module, function, args } => ValueModel::FunctionCall {
                object: text_opt(object),
                module: text_opt(module),
                function: function@,
                args: values(args@),
            },
            Value::ModuleVar { alias, name } => ValueModel::ModuleVar { alias: alias@, name: name@ },
            Value::Binary { left, op, right } => ValueModel::Binary {
                left: Box::new(left.view()),
                op,
                right: Box::new(right.view()),
            },
            Value::Property { target, key } => ValueModel::Property { target: Box::new(target.view()), key: key@ },
            Value::Unary { op, value } => ValueModel::Unary { op, value: Box::new(value.view()) },
            Value::Function { params, defaults, body } => ValueModel::Function {
                params: texts(params@),
                defaults: entries(defaults@),
                body: block(body@),
            },
            Value::Error { error_type, message } => ValueModel::Error { error_type: error_type@, message: message@ },
            Value::File { path } => ValueModel::File { path: path@ },
            Value::Db { id } => ValueModel::Db { id },
            Value::Gui { kind, id } => ValueModel::Gui { kind, id },
        }
    }

    /// A copy of the value.
    pub fn copy(&self) -> (r: Value)
        ensures
            r@ == self@,
        decreases self,
    {
        match self {
            Value::Null => Value::Null,
            Value::Number(bits) => Value::Number(*bits),
            Value::String(s) => Value::String(s.clone()),
            Value::Logic(b) => Value::Logic(*b),
            Value::Variable(s) => Value::Variable(s.clone()),
            Value::Object(items) => Value::Object(copy_entries(items)),
            Value::Array(items) => Value::Array(copy_values(items)),
            Value::Index { target, index } => Value::Index {
                target: Box::new(target.copy()),
                index: Box::new(index.copy()),
            },
            Value::FunctionCall { object, module, function, args } => Value::FunctionCall {
                object: copy_text_opt(object),
                module: copy_text_opt(module),
                function: function.clone(),
                args: copy_values(args),
            },
            Value::ModuleVar { alias, name } => Value::ModuleVar { alias: alias.clone(), name: name.clone() },
            Value::Binary { left, op, right } => Value::Binary {
                left: Box::new(left.copy()),
                op: *op,
                right: Box::new(right.copy()),
            },
            Value::Property { target, key } => Value::Property { target: Box::new(target.copy()), key: key.clone() },
            Value::Unary { op, value } => Value::Unary { op: *op, value: Box::new(value.copy()) },
            Value::Function { params, defaults, body } => Value::Function {
                params: copy_texts(params),
                defaults: copy_entries(defaults),
                body: copy_block(body),
            },
            Value::Error { error_type, message } => Value::Error {
                error_type: error_type.clone(),
                message: message.clone(),
            },
            Value::File { path } => Value::File { path: path.clone() },
            Value::Db { id } => Value::Db { id: *id },
            Value::Gui { kind, id } => Value::Gui { kind: *kind, id: *id },
        }
    }
}

impl Statement {
    pub open spec fn view(&self) -> StatementModel
        decreases self,
    {
        match *self {
            Statement::VariableDecl { name, declared, value } => StatementModel::VariableDecl {
                name: name@,
                declared: declared@,
                value: value.view(),
            },
            Statement::GlobalDecl { name, declared, value } => StatementModel::GlobalDecl {
                name: name@,
                declared: declared@,
                value: value.view(),
            },
            Statement::Declare { path, run } => StatementModel::Declare { path: path@, run },
            Statement::FunctionCall { object, module, function, args } => StatementModel::FunctionCall {
                object: text_opt(object),
                module: text_opt(module),
                function: function@,
                args: values(args@),
            },
            Statement::Return { value } => StatementModel::Return { value: Box::new(value.view()) },
            Statement::Assign { target, op, value } => StatementModel::Assign {
                target: target.view(),
                op,
                value: Box::new(value.view()),
            },
            Statement::Switch { scrutinee, cases, default } => StatementModel::Switch {
                scrutinee: Box::new(scrutinee.view()),
                cases: arms(cases@),
                default: block_opt(default),
            },
            Statement::Event { object, name, body } => StatementModel::Event {
                object: object@,
                name: name@,
                body: block(body@),
            },
            Statement::If { condition, then_branch, else_if_branches, else_branch } => StatementModel::If {
                condition: condition.view(),
                then_branch: block(then_branch@),
                else_if_branches: arms(else_if_branches@),
                else_branch: block_opt(else_branch),
            },
            Statement::While { condition, body } => StatementModel::While {
                condition: condition.view(),
                body: block(body@),
            },
            Statement::ForIn { var, iterable, body } => StatementModel::ForIn {
                var: var@,
                iterable: iterable.view(),
                body: block(body@),
            },
            Statement::Break => StatementModel::Break,
            Statement::Continue => StatementModel::Continue,
            Statement::Throw { error_type, message } => StatementModel::Throw {
                error_type: error_type@,
                message: Box::new(message.view()),
            },
            Statement::Try { body, catches } => StatementModel::Try { body: block(body@), catches: handlers(catches@) },
        }
    }

    /// A copy of the statement.
    pub fn copy(&self) -> (r: Statement)
        ensures
            r@ == self@,
        decreases self,
    {
        match self {
            Statement::VariableDecl { name, declared, value } => Statement::VariableDecl {
                name: name.clone(),
                declared: declared.clone(),
                value: value.copy(),
            },
            Statement::GlobalDecl { name, declared, value } => Statement::GlobalDecl {
                name: name.clone(),
                declared: declared.clone(),
                value: value.copy(),
            },
            Statement::Declare { path, run } => Statement::Declare { path: path.clone(), run: *run },
            Statement::FunctionCall { object, module, function, args } => Statement::FunctionCall {
                object: copy_text_opt(object),
                module: copy_text_opt(module),
                function: function.clone(),
                args: copy_values(args),
            },
            Statement::Return { value } => Statement::Return { value: Box::new(value.copy()) },
            Statement::Assign { target, op, value } => Statement::Assign {
                target: target.copy(),
                op: *op,
                value: Box::new(value.copy()),
            },
            Statement::Switch { scrutinee, cases, default } => Statement::Switch {
                scrutinee: Box::new(scrutinee.copy()),
                cases: copy_arms(cases),
                default: match default {
                    Some(b) => Some(copy_block(b)),
                    None => None,
                },
            },
            Statement::Event { object, name, body } => Statement::Event {
                object: object.clone(),
                name: name.clone(),
                body: copy_block(body),
            },
            Statement::If { condition, then_branch, else_if_branches, else_branch } => Statement::If {
                condition: condition.copy(),
                then_branch: copy_block(then_branch),
                else_if_branches: copy_arms(else_if_branches),
                else_branch: match else_branch {
                    Some(b) => Some(copy_block(b)),
                    None => None,
                },
            },
            Statement::While { condition, body } => Statement::While {
                condition: condition.copy(),
                body: copy_block(body),
            },
            Statement::ForIn { var, iterable, body } => Statement::ForIn {
                var: var.clone(),
                iterable: iterable.copy(),
                body: copy_block(body),
            },
            Statement::Break => Statement::Break,
            Statement::Continue => Statement::Continue,
            Statement::Throw { error_type, message } => Statement::Throw {
                error_type: error_type.clone(),
                message: Box::new(message.copy()),
            },
            Statement::Try { body, catches } => Statement::Try {
                body: copy_block(body),
                catches: copy_catches(catches),
            },
        }
    }
}

impl AssignTarget {
    pub open spec fn view(&self) -> TargetModel
        decreases self,
    {
        match *self {
            AssignTarget::Var(name) => TargetModel::Var(name@),
            AssignTarget::Property { target, key } => TargetModel::Property {
                target: Box::new(target.view()),
                key: key@,
            },
            AssignTarget::Index { target, index } => TargetModel::Index {
                target: Box::new(target.view()),
                index: Box::new(index.view()),
            },
        }
    }

    /// A copy of the target.
    pub fn copy(&self) -> (r: AssignTarget)
        ensures
            r@ == self@,
        decreases self,
    {
        match self {
            AssignTarget::Var(name) => AssignTarget::Var(name.clone()),
            AssignTarget::Property { target, key } => AssignTarget::Property {
                target: Box::new(target.copy()),
                key: key.clone(),
            },
            AssignTarget::Index { target, index } => AssignTarget::Index {
                target: Box::new(target.copy()),
                index: Box::new(index.copy()),
            },
        }
    }
}

impl Header {
    pub open spec fn view(&self) -> HeaderModel {
        HeaderModel {
            script_type: self.script_type@,
            language: self.language@,
            version: self.version as int,
        }
    }
}

impl Program {
    pub open spec fn view(&self) -> ProgramModel {
        ProgramModel { header: self.header.view(), statements: block(self.statements@) }
    }

    /// A copy of the program.
    pub fn copy(&self) -> (r: Program)
        ensures
            r@ == self@,
    {
        let header = Header {
            script_type: self.header.script_type.clone(),
            language: self.header.language.clone(),
            version: self.header.version,
        };
        Program { header, statements: copy_block(&self.statements) }
    }
}

impl Clone for Value {
    fn clone(&self) -> (r: Value)
        ensures
            r@ == self@,
    {
        self.copy()
    }
}

impl Clone for Statement {
    fn clone(&self) -> (r: Statement)
        ensures
            r@ == self@,
    {
        self.copy()
    }
}

pub fn copy_text_opt(item: &Option<String>) -> (r: Option<String>)
    ensures
        text_opt(r) == text_opt(*item),
{
    match item {
        Some(s) => Some(s.clone()),
        None => None,
    }
}

/// A copy of a list of strings.
pub fn copy_texts(items: &Vec<String>) -> (r: Vec<String>)
    ensures
        texts(r@) == texts(items@),
{
    let mut r: Vec<String> = Vec::new();
    let mut i: usize = 0;
    while i < items.len()
        invariant
            i <= items@.len(),
            r@.len() == i,
            forall|k: int|
                #![trigger r@[k]]
                0 <= k < i ==> r@[k]@ == items@[k]@,
        decreases items@.len() - i,
    {
        r.push(items[i].clone());
        i = i + 1;
    }
    assert(texts(r@) =~= texts(items@));
    r
}

/// A copy of a list of values.
pub fn copy_values(items: &Vec<Value>) -> (r: Vec<Value>)
    ensures
        values(r@) == values(items@),
    decreases items,
{
    let mut r: Vec<Value> = Vec::new();
    let mut i: usize = 0;
    while i < items.len()
        invariant
            i <= items@.len(),
            r@.len() == i,
            forall|k: int|
                #![trigger r@[k]]
                0 <= k < i ==> r@[k]@ == items@[k]@,
        decreases items@.len() - i,
    {
        r.push(items[i].copy());
        i = i + 1;
    }
    assert(values(r@) =~= values(items@));
    r
}

/// A copy of a table of values.
pub fn copy_entries(items: &Vec<(String, Value)>) -> (r: Vec<(String, Value)>)
    ensures
        entries(r@) == entries(items@),
    decreases items,
{
    let mut r: Vec<(String, Value)> = Vec::new();
    let mut i: usize = 0;
    while i < items.len()
        invariant
            i <= items@.len(),
            r@.len() == i,
            forall|k: int|
                #![trigger r@[k]]
                0 <= k < i ==> r@[k].0@ == items@[k].0@ && r@[k].1@ == items@[k].1@,
        decreases items@.len() - i,
    {
        r.push((items[i].0.clone(), items[i].1.copy()));
        i = i + 1;
    }
    assert(entries(r@) =~= entries(items@));
    r
}

/// A copy of a block.
pub fn copy_block(items: &Vec<Statement>) -> (r: Vec<Statement>)
    ensures
        block(r@) == block(items@),
    decreases items,
{
    let mut r: Vec<Statement> = Vec::new();
    let mut i: usize = 0;
    while i < items.len()
        invariant
            i <= items@.len(),
            r@.len() == i,
            forall|k: int|
                #![trigger r@[k]]
                0 <= k < i ==> r@[k]@ == items@[k]@,
        decreases items@.len() - i,
    {
        r.push(items[i].copy());
        i = i + 1;
    }
    assert(block(r@) =~= block(items@));
    r
}

/// A copy of guarded blocks.
pub fn copy_arms(items: &Vec<(Value, Vec<Statement>)>) -> (r: Vec<(Value, Vec<Statement>)>)
    ensures
        arms(r@) == arms(items@),
    decreases items,
{
    let mut r: Vec<(Value, Vec<Statement>)> = Vec::new();
    let mut i: usize = 0;
    while i < items.len()
        invariant
            i <= items@.len(),
            r@.len() == i,
            forall|k: int|
                #![trigger r@[k]]
                0 <= k < i ==> r@[k].0@ == items@[k].0@ && block(r@[k].1@) == block(items@[k].1@),
        decreases items@.len() - i,
    {
        r.push((items[i].0.copy(), copy_block(&items[i].1)));
        i = i + 1;
    }
    assert(arms(r@) =~= arms(items@));
    r
}

/// A copy of catch clauses.
pub fn copy_catches(items: &Vec<CatchClause>) -> (r: Vec<CatchClause>)
    ensures
        handlers(r@) == handlers(items@),
    decreases items,
{
    let mut r: Vec<CatchClause> = Vec::new();
    let mut i: usize = 0;
    while i < items.len()
        invariant
            i <= items@.len(),
            r@.len() == i,
            forall|k: int|
                #![trigger r@[k]]
                0 <= k < i ==> r@[k].error_type@ == items@[k].error_type@ && block(r@[k].body@) == block(items@[k].body@),
        decreases items@.len() - i,
    {
        r.push(CatchClause { error_type: items[i].error_type.clone(), body: copy_block(&items[i].body) });
        i = i + 1;
    }
    assert(handlers(r@) =~= handlers(items@));
    r
}

} // verus!
