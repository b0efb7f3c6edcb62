//! What the machine asks of its host, and what the host answers.

use crate::ast::{texts, ValueModel};
use crate::draft::{pieces, Piece, PieceModel, Plan, PlanModel};
use crate::json::{Json, JsonModel};
use vstd::prelude::*;

verus! {

/// A value of a database.
#[derive(Debug, PartialEq)]
pub enum Sql {
    Null,
    Integer(i64),
    Real(u64),
    Text(String),
}

#[verifier::ext_equal]
pub enum SqlModel {
    Null,
    Integer(i64),
    Real(u64),
    Text(Seq<char>),
}

/// A cell of a row that a query gives; integers come as the nearest number.
#[derive(Debug, PartialEq)]
pub enum Cell {
    Null,
    Number(u64),
    Text(String),
}

impl Cell {
    pub open spec fn view(&self) -> ValueModel {
        match *self {
            Cell::Null => ValueModel::Null,
            Cell::Number(n) => ValueModel::Number(n),
            Cell::Text(s) => ValueModel::String(s@),
        }
    }
}

#[derive(Debug, PartialEq, Eq, Clone, Copy, Structural)]
pub enum Level {
    Info,
    Warning,
    Error,
}

#[derive(Debug, PartialEq, Eq, Clone, Copy, Structural)]
pub enum Buttons {
    Confirm,
    OkCancel,
    YesNo,
    YesNoCancel,
}

/// The button that a message box was closed with; `Other` has its own words.
#[derive(Debug, PartialEq)]
pub enum Choice {
    Yes,
    No,
    Cancel,
    Confirm,
    Other(String),
}

#[verifier::ext_equal]
pub enum ChoiceModel {
    Yes,
    No,
    Cancel,
    Confirm,
    Other(Seq<char>),
}

impl Choice {
    pub open spec fn view(&self) -> ChoiceModel {
        match *self {
            Choice::Yes => ChoiceModel::Yes,
            Choice::No => ChoiceModel::No,
            Choice::Cancel => ChoiceModel::Cancel,
            Choice::Confirm => ChoiceModel::Confirm,
            Choice::Other(s) => ChoiceModel::Other(s@),
        }
    }
}

/// Where the path of a `declare` starts.
#[derive(Debug, PartialEq, Eq, Clone, Copy, Structural)]
pub enum Anchor {
    ProjectRoot,
    FileSystem,
    Importer,
}

/// Work that only the host can do.
#[derive(Debug, PartialEq)]
pub enum Request {
    Print(Vec<Piece>),
    Input(Vec<Piece>),
    Random,
    Now,
    ParseNumber { text: String, shown: String },
    JsonText(Json),
    Args,
    Getenv(String),
    Cwd,
    PickFile(Option<(String, Vec<String>)>),
    PickFolder,
    SaveFile(Option<String>),
    Message { title: String, text: String, level: Level, buttons: Buttons },
    HttpGet(String),
    HttpPost { url: String, body: Vec<Piece>, content_type: String },
    FileRead(String),
    FileWrite { path: String, content: Vec<Piece> },
    FileAppend { path: String, content: Vec<Piece> },
    FileExists(String),
    FileRemove(String),
    FileList(String),
    FileMakeDir(String),
    DbOpen(String),
    DbClose(u64),
    DbExec { id: u64, sql: String, params: Vec<Sql> },
    DbQuery { id: u64, sql: String, params: Vec<Sql> },
    ShowWindow(u64),
    Locate { anchor: Anchor, importer: String, path: String },
    ReadSource(String),
}

#[verifier::ext_equal]
pub enum RequestModel {
    Print(Seq<PieceModel>),
    Input(Seq<PieceModel>),
    Random,
    Now,
    ParseNumber { text: Seq<char>, shown: Seq<char> },
    JsonText(JsonModel),
    Args,
    Getenv(Seq<char>),
    Cwd,
    PickFile(Option<(Seq<char>, Seq<Seq<char>>)>),
    PickFolder,
    SaveFile(Option<Seq<char>>),
    Message { title: Seq<char>, text: Seq<char>, level: Level, buttons: Buttons },
    HttpGet(Seq<char>),
    HttpPost { url: Seq<char>, body: Seq<PieceModel>, content_type: Seq<char> },
    FileRead(Seq<char>),
    FileWrite { path: Seq<char>, content: Seq<PieceModel> },
    FileAppend { path: Seq<char>, content: Seq<PieceModel> },
    FileExists(Seq<char>),
    FileRemove(Seq<char>),
    FileList(Seq<char>),
    FileMakeDir(Seq<char>),
    DbOpen(Seq<char>),
    DbClose(u64),
    DbExec { id: u64, sql: Seq<char>, params: Seq<SqlModel> },
    DbQuery { id: u64, sql: Seq<char>, params: Seq<SqlModel> },
    ShowWindow(u64),
    Locate { anchor: Anchor, importer: Seq<char>, path: Seq<char> },
    ReadSource(Seq<char>),
}

/// What the host says to a request: that it is done, what came of it, or why it
/// failed.
#[derive(Debug, PartialEq)]
pub enum Answer {
    Done,
    Nothing,
    Flag(bool),
    Text(String),
    Number(u64),
    Texts(Vec<String>),
    Time { secs: u64, nanos: u32 },
    Choice(Choice),
    Rows(Vec<Vec<(String, Cell)>>),
    Window { closed: Vec<u64>, clicks: Vec<u64>, finished: bool },
    Located { canonical: String, directory: String, stem: Option<String> },
    Failed(String),
    FailedBody(String),
}

#[verifier::ext_equal]
pub enum AnswerModel {
    Done,
    Nothing,
    Flag(bool),
    Text(Seq<char>),
    Number(u64),
    Texts(Seq<Seq<char>>),
    Time { secs: u64, nanos: u32 },
    Choice(ChoiceModel),
    Rows(Seq<Seq<(Seq<char>, ValueModel)>>),
    Window { closed: Seq<u64>, clicks: Seq<u64>, finished: bool },
    Located { canonical: Seq<char>, directory: Seq<char>, stem: Option<Seq<char>> },
    Failed(Seq<char>),
    FailedBody(Seq<char>),
}

/// What a builtin comes to: a value to be worked out, or a request.
#[derive(Debug, PartialEq)]
pub enum Effect {
    Plan(Plan),
    Ask(Request),
}

#[verifier::ext_equal]
pub enum EffectModel {
    Plan(PlanModel),
    Ask(RequestModel),
}

impl Sql {
    pub open spec fn view(&self) -> SqlModel {
        match *self {
            Sql::Null => SqlModel::Null,
            Sql::Integer(n) => SqlModel::Integer(n),
            Sql::Real(n) => SqlModel::Real(n),
            Sql::Text(s) => SqlModel::Text(s@),
        }
    }
}

pub open spec fn sql_models(items: Seq<Sql>) -> Seq<SqlModel> {
    Seq::new(items.len(), |i: int| items[i]@)
}

pub open spec fn row_model(items: Seq<(String, Cell)>) -> Seq<(Seq<char>, ValueModel)> {
    Seq::new(items.len(), |i: int| (items[i].0@, items[i].1@))
}

pub open spec fn row_models(items: Seq<Vec<(String, Cell)>>) -> Seq<Seq<(Seq<char>, ValueModel)>> {
    Seq::new(items.len(), |i: int| row_model(items[i]@))
}

impl Request {
    pub open spec fn view(&self) -> RequestModel {
        match *self {
            Request::Print(p) => RequestModel::Print(pieces(p@)),
            Request::Input(p) => RequestModel::Input(pieces(p@)),
            Request::Random => RequestModel::Random,
            Request::Now => RequestModel::Now,
            Request::ParseNumber { text, shown } => RequestModel::ParseNumber { text: text@, shown: shown@ },
            Request::JsonText(j) => RequestModel::JsonText(j@),
            Request::Args => RequestModel::Args,
            Request::Getenv(s) => RequestModel::Getenv(s@),
            Request::Cwd => RequestModel::Cwd,
            Request::PickFile(f) => RequestModel::PickFile(
                match f {
                    Some((name, extensions)) => Some((name@, texts(extensions@))),
                    None => None,
                },
            ),
            Request::PickFolder => RequestModel::PickFolder,
            Request::SaveFile(f) => RequestModel::SaveFile(
                match f {
                    Some(name) => Some(name@),
                    None => None,
                },
            ),
            Request::Message { title, text, level, buttons } => RequestModel::Message {
                title: title@,
                text: text@,
                level,
                buttons,
            },
            Request::HttpGet(s) => RequestModel::HttpGet(s@),
            Request::HttpPost { url, body, content_type } => RequestModel::HttpPost {
                url: url@,
                body: pieces(body@),
                content_type: content_type@,
            },
            Request::FileRead(s) => RequestModel::FileRead(s@),
            Request::FileWrite { path, content } => RequestModel::FileWrite { path: path@, content: pieces(content@) },
            Request::FileAppend { path, content } => RequestModel::FileAppend {
                path: path@,
                content: pieces(content@),
            },
            Request::FileExists(s) => RequestModel::FileExists(s@),
            Request::FileRemove(s) => RequestModel::FileRemove(s@),
            Request::FileList(s) => RequestModel::FileList(s@),
            Request::FileMakeDir(s) => RequestModel::FileMakeDir(s@),
            Request::DbOpen(s) => RequestModel::DbOpen(s@),
            Request::DbClose(id) => RequestModel::DbClose(id),
            Request::DbExec { id, sql, params } => RequestModel::DbExec { id, sql: sql@, params: sql_models(params@) },
            Request::DbQuery { id, sql, params } => RequestModel::DbQuery {
                id,
                sql: sql@,
                params: sql_models(params@),
            },
            Request::ShowWindow(id) => RequestModel::ShowWindow(id),
            Request::Locate { anchor, importer, path } => RequestModel::Locate {
                anchor,
                importer: importer@,
                path: path@,
            },
            Request::ReadSource(s) => RequestModel::ReadSource(s@),
        }
    }
}

impl Answer {
    pub open spec fn view(&self) -> AnswerModel {
        match *self {
            Answer::Done => AnswerModel::Done,
            Answer::Nothing => AnswerModel::Nothing,
            Answer::Flag(b) => AnswerModel::Flag(b),
            Answer::Text(s) => AnswerModel::Text(s@),
            Answer::Number(n) => AnswerModel::Number(n),
            Answer::Texts(t) => AnswerModel::Texts(texts(t@)),
            Answer::Time { secs, nanos } => AnswerModel::Time { secs, nanos },
            Answer::Choice(c) => AnswerModel::Choice(c@),
            Answer::Rows(r) => AnswerModel::Rows(row_models(r@)),
            Answer::Window { closed, clicks, finished } => AnswerModel::Window {
                closed: closed@,
                clicks: clicks@,
                finished,
            },
            Answer::Located { canonical, directory, stem } => AnswerModel::Located {
                canonical: canonical@,
                directory: directory@,
                stem: crate::ast::text_opt(stem),
            },
            Answer::Failed(s) => AnswerModel::Failed(s@),
            Answer::FailedBody(s) => AnswerModel::FailedBody(s@),
        }
    }
}

impl Effect {
    pub open spec fn view(&self) -> EffectModel {
        match *self {
            Effect::Plan(p) => EffectModel::Plan(p@),
            Effect::Ask(r) => EffectModel::Ask(r@),
        }
    }
}

} // verus!
