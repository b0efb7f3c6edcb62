//! What the functions that need a host ask of it, and what they make of its answer.

use crate::answers::{db_outcome, line_content, outcome, scrambled};
use crate::ast::ValueModel;
use crate::builtins::text_values;
use crate::clock::formatted;
use crate::comparing::{
    below, conditions_fail_on_empty_values, counts_as_no, numbers_are_ordered_by_value, precedes,
    text_order_is_the_dictionary,
};
use crate::document::{json_parsed, parse_result};
use crate::draft::{FailureModel, PieceModel, PlanModel};
use crate::json::value_json;
use crate::number::{finite, integral, truncated};
use crate::outcomes::{gives, throws};
use crate::request::{AnswerModel, Buttons, ChoiceModel, EffectModel, Level, RequestModel, SqlModel};
use crate::runtime::RuntimeModel;
use crate::show::shown;
use crate::sort::{lemma_text_order, sorted_texts, sorting_orders, sorting_permutes, text_order};
use crate::strings::trimmed;
use crate::syslib::{
    assertion, db_function, extensions, file_function, gui_function, http_function, json_function, select_file,
    sql_param, sql_params, sys_function, time_format, without_id,
};
use crate::table::{lookup, put_then_lookup};
use vstd::prelude::*;

verus! {

/// Whether it asks this of the host.
pub open spec fn asks(r: Result<EffectModel, FailureModel>, q: RequestModel) -> bool {
    r == Ok::<_, FailureModel>(EffectModel::Ask(q))
}

/// Whether it came to this value.
pub open spec fn comes_to(r: Result<PlanModel, FailureModel>, v: ValueModel) -> bool {
    r == Ok::<_, FailureModel>(PlanModel::Ready(v))
}

/// Whether it failed with a catchable error of this type whose message ends with a reason.
pub open spec fn blames(r: Result<PlanModel, FailureModel>, error_type: Seq<char>, why: Seq<char>) -> bool {
    &&& r matches Err(FailureModel::Throw { error_type: t, message })
    &&& t == error_type
    &&& message.len() > 0
    &&& message.last() == PieceModel::Text(why)
}

/// Whether a message says where it went wrong.
pub open spec fn names_place(r: Result<PlanModel, FailureModel>, place: Seq<char>) -> bool {
    r matches Err(FailureModel::Throw { message, .. }) && message.contains(PieceModel::Text(place))
}

/// Whether a value says where a file is: as a string, or as a file.
pub open spec fn leads_to(v: ValueModel, path: Seq<char>) -> bool {
    v == ValueModel::String(path) || v == (ValueModel::File { path })
}

/// How the names of the functions of `file` are spelled, as far as it tells them apart.
proof fn lemma_file_names()
    ensures
        "Read"@.len() == 4,
        "Exists"@.len() == 6 && "Exists"@[0] == 'E',
        "Remove"@.len() == 6 && "Remove"@[0] == 'R',
        "MkDir"@.len() == 5 && "MkDir"@[0] == 'M',
        "Write"@.len() == 5 && "Write"@[0] == 'W',
        "Append"@.len() == 6 && "Append"@[0] == 'A',
        "ListDir"@.len() == 7,
{
    reveal_strlit("Read");
    reveal_strlit("Exists");
    reveal_strlit("Remove");
    reveal_strlit("MkDir");
    reveal_strlit("Write");
    reveal_strlit("Append");
    reveal_strlit("ListDir");
}

/// The functions of `file` ask for what their names say, at the place that their first
/// argument names; without one, `ListDir` asks for the current directory.
pub proof fn files_are_asked_for(v: ValueModel, path: Seq<char>, w: ValueModel)
    requires
        leads_to(v, path),
    ensures
        asks(file_function("Read"@, seq![v]), RequestModel::FileRead(path)),
        asks(file_function("Exists"@, seq![v]), RequestModel::FileExists(path)),
        asks(file_function("Remove"@, seq![v]), RequestModel::FileRemove(path)),
        asks(file_function("MkDir"@, seq![v]), RequestModel::FileMakeDir(path)),
        asks(file_function("ListDir"@, seq![v]), RequestModel::FileList(path)),
        asks(file_function("ListDir"@, seq![]), RequestModel::FileList("."@)),
        asks(file_function("Write"@, seq![v, w]), RequestModel::FileWrite { path, content: shown(w) }),
        asks(file_function("Append"@, seq![v, w]), RequestModel::FileAppend { path, content: shown(w) }),
{
    lemma_file_names();
}

/// What is neither a string nor a file is no place for a file; too few or too many arguments
/// are refused, and so are functions that `file` does not have.
pub proof fn file_functions_have_limits(v: ValueModel, w: ValueModel, args: Seq<ValueModel>, function: Seq<char>)
    ensures
        !(v is String) && !(v is File) ==> throws(file_function("Read"@, seq![v]), "TypeError"@) && throws(
            file_function("Exists"@, seq![v]),
            "TypeError"@,
        ) && throws(file_function("Remove"@, seq![v]), "TypeError"@) && throws(
            file_function("MkDir"@, seq![v]),
            "TypeError"@,
        ) && throws(file_function("ListDir"@, seq![v]), "TypeError"@) && throws(
            file_function("Write"@, seq![v, w]),
            "TypeError"@,
        ) && throws(file_function("Append"@, seq![v, w]), "TypeError"@),
        args.len() != 1 ==> throws(file_function("Read"@, args), "ValueError"@) && throws(
            file_function("Exists"@, args),
            "ValueError"@,
        ) && throws(file_function("Remove"@, args), "ValueError"@) && throws(
            file_function("MkDir"@, args),
            "ValueError"@,
        ),
        args.len() != 2 ==> throws(file_function("Write"@, args), "ValueError"@) && throws(
            file_function("Append"@, args),
            "ValueError"@,
        ),
        args.len() > 1 ==> throws(file_function("ListDir"@, args), "ValueError"@),
        function != "Read"@ && function != "Exists"@ && function != "Remove"@ && function != "MkDir"@ && function
            != "ListDir"@ && function != "Write"@ && function != "Append"@ ==> throws(
            file_function(function, args),
            "NameError"@,
        ),
{
    lemma_file_names();
}

/// A file that was read comes as a string, a question as its answer, and work that is done as
/// null.
pub proof fn file_answers_come_through(path: Seq<char>, content: Seq<PieceModel>, text: Seq<char>, yes: bool)
    ensures
        comes_to(outcome(RequestModel::FileRead(path), AnswerModel::Text(text)), ValueModel::String(text)),
        comes_to(outcome(RequestModel::FileExists(path), AnswerModel::Flag(yes)), ValueModel::Logic(yes)),
        comes_to(outcome(RequestModel::FileWrite { path, content }, AnswerModel::Done), ValueModel::Null),
        comes_to(outcome(RequestModel::FileAppend { path, content }, AnswerModel::Done), ValueModel::Null),
        comes_to(outcome(RequestModel::FileRemove(path), AnswerModel::Done), ValueModel::Null),
        comes_to(outcome(RequestModel::FileMakeDir(path), AnswerModel::Done), ValueModel::Null),
{
}

/// Whether the request works on a file or an address.
pub open spec fn is_about(q: RequestModel, place: Seq<char>) -> bool {
    ||| q == RequestModel::FileRead(place)
    ||| q matches RequestModel::FileWrite { path, .. } && path == place
    ||| q matches RequestModel::FileAppend { path, .. } && path == place
    ||| q == RequestModel::FileRemove(place)
    ||| q == RequestModel::FileList(place)
    ||| q == RequestModel::FileMakeDir(place)
    ||| q == RequestModel::HttpGet(place)
    ||| q matches RequestModel::HttpPost { url, .. } && url == place
}

/// Work on a file or an address that fails is an `IOError` which says where and why.
pub proof fn failed_work_is_an_io_error(q: RequestModel, place: Seq<char>, why: Seq<char>)
    requires
        is_about(q, place),
    ensures
        blames(outcome(q, AnswerModel::Failed(why)), "IOError"@, why),
        names_place(outcome(q, AnswerModel::Failed(why)), place),
        q is HttpGet || q is HttpPost ==> blames(outcome(q, AnswerModel::FailedBody(why)), "IOError"@, why)
            && names_place(outcome(q, AnswerModel::FailedBody(why)), place),
{
    match outcome(q, AnswerModel::Failed(why)) {
        Err(FailureModel::Throw { message, .. }) => {
            assert(message[1] == PieceModel::Text(place));
        },
        _ => {},
    }
    match outcome(q, AnswerModel::FailedBody(why)) {
        Err(FailureModel::Throw { message, .. }) => {
            assert(message[1] == PieceModel::Text(place));
        },
        _ => {},
    }
}

/// Whether the values are these texts, in another order.
pub open spec fn holds_texts(values: Seq<ValueModel>, names: Seq<Seq<char>>, sorted: Seq<Seq<char>>) -> bool {
    &&& values == Seq::new(sorted.len(), |i: int| ValueModel::String(sorted[i]))
    &&& sorted.to_multiset() == names.to_multiset()
}

/// The names in a directory come in the order of the dictionary, each as often as the host
/// named it.
pub proof fn directories_are_listed_in_order(path: Seq<char>, names: Seq<Seq<char>>)
    ensures
        exists|values: Seq<ValueModel>, sorted: Seq<Seq<char>>|
            {
                &&& comes_to(outcome(RequestModel::FileList(path), AnswerModel::Texts(names)), ValueModel::Array(values))
                &&& #[trigger] holds_texts(values, names, sorted)
                &&& forall|i: int, j: int|
                    0 <= i < j < sorted.len() ==> !precedes(#[trigger] sorted[j], #[trigger] sorted[i])
            },
{
    let n = names.len() as int;
    let sorted = sorted_texts(names);
    sorting_permutes(names, text_order(), n);
    assert(names.take(n) =~= names);
    crate::arrays::lemma_text_order();
    sorting_orders(names, text_order(), |s: Seq<char>| true, n);
    assert forall|i: int, j: int| 0 <= i < j < sorted.len() implies !precedes(
        #[trigger] sorted[j],
        #[trigger] sorted[i],
    ) by {
        assert(!text_order()(sorted[j], sorted[i]));
        text_order_is_the_dictionary(sorted[j], sorted[i]);
    }
    assert(holds_texts(text_values(sorted), names, sorted));
}

/// How the names of the functions of `http` are spelled, as far as it tells them apart.
proof fn lemma_http_names()
    ensures
        "Get"@.len() == 3,
        "Post"@.len() == 4,
{
    reveal_strlit("Get");
    reveal_strlit("Post");
}

/// `Get` takes an address. `Post` takes an address, a body and the type of the body, which is
/// plain text where none is given.
pub proof fn addresses_are_asked_for(url: Seq<char>, body: ValueModel, content_type: Seq<char>)
    ensures
        asks(http_function("Get"@, seq![ValueModel::String(url)]), RequestModel::HttpGet(url)),
        asks(
            http_function("Post"@, seq![ValueModel::String(url), body]),
            RequestModel::HttpPost { url, body: shown(body), content_type: "text/plain"@ },
        ),
        asks(
            http_function("Post"@, seq![ValueModel::String(url), body, ValueModel::String(content_type)]),
            RequestModel::HttpPost { url, body: shown(body), content_type },
        ),
{
    lemma_http_names();
}

/// An address is a string; too few or too many arguments are refused, and so are functions
/// that `http` does not have. What comes back is the text of the reply.
pub proof fn http_functions_have_limits(
    v: ValueModel,
    url: Seq<char>,
    body: ValueModel,
    args: Seq<ValueModel>,
    function: Seq<char>,
    q: RequestModel,
    reply: Seq<char>,
)
    ensures
        !(v is String) ==> throws(http_function("Get"@, seq![v]), "TypeError"@) && throws(
            http_function("Post"@, seq![v, body]),
            "TypeError"@,
        ) && throws(http_function("Post"@, seq![ValueModel::String(url), body, v]), "TypeError"@),
        args.len() != 1 ==> throws(http_function("Get"@, args), "ValueError"@),
        args.len() != 2 && args.len() != 3 ==> throws(http_function("Post"@, args), "ValueError"@),
        function != "Get"@ && function != "Post"@ ==> throws(http_function(function, args), "NameError"@),
        q is HttpGet || q is HttpPost ==> comes_to(outcome(q, AnswerModel::Text(reply)), ValueModel::String(reply)),
{
    lemma_http_names();
}

/// How the names of the functions of `db` are spelled, as far as it tells them apart.
proof fn lemma_db_names()
    ensures
        "Open"@.len() == 4 && "Open"@[0] == 'O',
        "Close"@.len() == 5 && "Close"@[0] == 'C',
        "Exec"@.len() == 4 && "Exec"@[0] == 'E',
        "Query"@.len() == 5 && "Query"@[0] == 'Q',
{
    reveal_strlit("Open");
    reveal_strlit("Close");
    reveal_strlit("Exec");
    reveal_strlit("Query");
}

/// How a database holds a value: integers as integers, other numbers as they are, true as one
/// and false as zero.
pub open spec fn bound_as(v: ValueModel, p: SqlModel) -> bool {
    match v {
        ValueModel::Null => p is Null,
        ValueModel::Logic(b) => p == SqlModel::Integer(if b { 1 } else { 0 }),
        ValueModel::String(s) => p == SqlModel::Text(s),
        ValueModel::Number(n) => finite(n) && if integral(n) && -0x8000_0000_0000_0000 <= truncated(n)
            <= 0x7fff_ffff_ffff_ffff {
            p matches SqlModel::Integer(k) && k == truncated(n)
        } else {
            p == SqlModel::Real(n)
        },
        _ => false,
    }
}

proof fn lemma_params(items: Seq<ValueModel>, params: Seq<SqlModel>, i: int)
    requires
        items.len() == params.len(),
        0 <= i <= items.len(),
        forall|k: int| 0 <= k < items.len() ==> #[trigger] bound_as(items[k], params[k]),
    ensures
        sql_params(items, i, params.take(i)) == Ok::<_, FailureModel>(params),
    decreases items.len() - i,
{
    if i < items.len() {
        lemma_params(items, params, i + 1);
        assert(bound_as(items[i], params[i]));
        assert(params.take(i).push(params[i]) =~= params.take(i + 1));
    } else {
        assert(params.take(i) =~= params);
    }
}

/// `Exec` and `Query` take an open database, a statement and what stands for its marks, in
/// this order; without the last, nothing stands for them.
pub proof fn statements_are_asked_for(
    open: Seq<u64>,
    id: u64,
    sql: Seq<char>,
    items: Seq<ValueModel>,
    params: Seq<SqlModel>,
)
    requires
        open.contains(id),
        items.len() == params.len(),
        forall|k: int| 0 <= k < items.len() ==> #[trigger] bound_as(items[k], params[k]),
    ensures
        asks(
            db_function(open, "Exec"@, seq![ValueModel::Db { id }, ValueModel::String(sql)]),
            RequestModel::DbExec { id, sql, params: seq![] },
        ),
        asks(
            db_function(open, "Query"@, seq![ValueModel::Db { id }, ValueModel::String(sql)]),
            RequestModel::DbQuery { id, sql, params: seq![] },
        ),
        asks(
            db_function(
                open,
                "Exec"@,
                seq![ValueModel::Db { id }, ValueModel::String(sql), ValueModel::Array(items)],
            ),
            RequestModel::DbExec { id, sql, params },
        ),
        asks(
            db_function(
                open,
                "Query"@,
                seq![ValueModel::Db { id }, ValueModel::String(sql), ValueModel::Array(items)],
            ),
            RequestModel::DbQuery { id, sql, params },
        ),
{
    lemma_db_names();
    lemma_params(items, params, 0);
    assert(params.take(0) =~= seq![]);
}

/// `Open` takes a place and `Close` an open database.
pub proof fn databases_are_asked_for(open: Seq<u64>, v: ValueModel, path: Seq<char>, id: u64)
    ensures
        leads_to(v, path) ==> asks(db_function(open, "Open"@, seq![v]), RequestModel::DbOpen(path)),
        open.contains(id) ==> asks(db_function(open, "Close"@, seq![ValueModel::Db { id }]), RequestModel::DbClose(id)),
{
    lemma_db_names();
}

/// A database that is not open is a `DbError`, and what is no database a `TypeError`.
pub proof fn closed_databases_are_refused(open: Seq<u64>, v: ValueModel, id: u64, sql: Seq<char>)
    ensures
        !open.contains(id) ==> throws(
            db_function(open, "Exec"@, seq![ValueModel::Db { id }, ValueModel::String(sql)]),
            "DbError"@,
        ) && throws(
            db_function(open, "Query"@, seq![ValueModel::Db { id }, ValueModel::String(sql)]),
            "DbError"@,
        ) && throws(db_function(open, "Close"@, seq![ValueModel::Db { id }]), "DbError"@),
        !(v is Db) ==> throws(db_function(open, "Exec"@, seq![v, ValueModel::String(sql)]), "TypeError"@) && throws(
            db_function(open, "Query"@, seq![v, ValueModel::String(sql)]),
            "TypeError"@,
        ) && throws(db_function(open, "Close"@, seq![v]), "TypeError"@),
        !(v is String) ==> throws(db_function(open, "Exec"@, seq![ValueModel::Db { id }, v]), "TypeError"@)
            && throws(db_function(open, "Query"@, seq![ValueModel::Db { id }, v]), "TypeError"@),
        !(v is Array) ==> throws(
            db_function(open, "Exec"@, seq![ValueModel::Db { id }, ValueModel::String(sql), v]),
            "TypeError"@,
        ) && throws(
            db_function(open, "Query"@, seq![ValueModel::Db { id }, ValueModel::String(sql), v]),
            "TypeError"@,
        ),
        !(v is String) && !(v is File) ==> throws(db_function(open, "Open"@, seq![v]), "TypeError"@),
{
    lemma_db_names();
}

/// Too few or too many arguments are refused, and so are functions that `db` does not have.
pub proof fn database_functions_have_limits(open: Seq<u64>, args: Seq<ValueModel>, function: Seq<char>)
    ensures
        args.len() != 1 ==> throws(db_function(open, "Open"@, args), "ValueError"@) && throws(
            db_function(open, "Close"@, args),
            "ValueError"@,
        ),
        args.len() != 2 && args.len() != 3 ==> throws(db_function(open, "Exec"@, args), "ValueError"@) && throws(
            db_function(open, "Query"@, args),
            "ValueError"@,
        ),
        function != "Open"@ && function != "Close"@ && function != "Exec"@ && function != "Query"@ ==> throws(
            db_function(open, function, args),
            "NameError"@,
        ),
{
    lemma_db_names();
}

/// Whether a database can hold the value.
pub open spec fn bindable(v: ValueModel) -> bool {
    match v {
        ValueModel::Null => true,
        ValueModel::Logic(_) => true,
        ValueModel::String(_) => true,
        ValueModel::Number(n) => finite(n),
        _ => false,
    }
}

proof fn lemma_unfit_param(items: Seq<ValueModel>, k: int, i: int, done: Seq<SqlModel>)
    requires
        0 <= i <= k < items.len(),
        !bindable(items[k]),
        forall|j: int| 0 <= j < k ==> bindable(#[trigger] items[j]),
    ensures
        throws(sql_params(items, i, done), "ValueError"@),
    decreases k - i,
{
    if i < k {
        assert(bindable(items[i]));
        lemma_unfit_param(items, k, i + 1, done.push(sql_param(items[i])->Ok_0));
    }
}

/// A value that no database holds is a `ValueError`.
pub proof fn unfit_parameters_are_refused(open: Seq<u64>, db: ValueModel, sql: ValueModel, items: Seq<ValueModel>, k: int)
    requires
        0 <= k < items.len(),
        !bindable(items[k]),
        forall|j: int| 0 <= j < k ==> bindable(#[trigger] items[j]),
    ensures
        throws(db_function(open, "Exec"@, seq![db, sql, ValueModel::Array(items)]), "ValueError"@),
        throws(db_function(open, "Query"@, seq![db, sql, ValueModel::Array(items)]), "ValueError"@),
{
    lemma_db_names();
    lemma_unfit_param(items, k, 0, seq![]);
}

proof fn lemma_without(open: Seq<u64>, id: u64, n: int)
    requires
        0 <= n <= open.len(),
    ensures
        forall|other: u64| #[trigger]
            without_id(open, id, n).contains(other) <==> other != id && open.take(n).contains(other),
    decreases n,
{
    if n > 0 {
        lemma_without(open, id, n - 1);
        let before = without_id(open, id, n - 1);
        let after = without_id(open, id, n);
        assert(open.take(n) =~= open.take(n - 1).push(open[n - 1]));
        assert forall|other: u64| #[trigger] after.contains(other) <==> other != id && open.take(n).contains(other) by {
            if open.take(n - 1).contains(other) {
                let i = open.take(n - 1).index_of(other);
                assert(open.take(n)[i] == other);
            }
            if open[n - 1] == other {
                assert(open.take(n)[n - 1] == other);
            }
            if open[n - 1] != id {
                assert(after == before.push(open[n - 1]));
                if before.contains(other) {
                    let i = before.index_of(other);
                    assert(after[i] == other);
                }
                if other == open[n - 1] {
                    assert(after.last() == other);
                }
                if after.contains(other) {
                    let i = after.index_of(other);
                    assert(i < before.len() ==> before[i] == other);
                }
            }
            if open.take(n).contains(other) {
                let i = open.take(n).index_of(other);
                assert(i < n - 1 ==> open.take(n - 1)[i] == other);
            }
        }
    }
}

/// A database that was opened is open from then on under its handle, and the next one gets
/// another handle; a closed one is no longer open, and no other is affected.
pub proof fn databases_are_open_until_closed(rt: RuntimeModel, path: Seq<char>, id: u64, other: u64, a: AnswerModel)
    ensures
        ({
            let (after, r) = db_outcome(rt, RequestModel::DbOpen(path), AnswerModel::Done);
            &&& comes_to(r, ValueModel::Db { id: rt.db_next })
            &&& after.db_open.contains(other) <==> other == rt.db_next || rt.db_open.contains(other)
            &&& after.db_next != rt.db_next
            &&& rt.db_next < u64::MAX ==> after.db_next > rt.db_next
            &&& after == RuntimeModel { db_open: after.db_open, db_next: after.db_next, ..rt }
        }),
        ({
            let (after, r) = db_outcome(rt, RequestModel::DbClose(id), a);
            &&& comes_to(r, ValueModel::Null)
            &&& after.db_open.contains(other) <==> other != id && rt.db_open.contains(other)
            &&& after == RuntimeModel { db_open: after.db_open, ..rt }
        }),
{
    let (after, _) = db_outcome(rt, RequestModel::DbOpen(path), AnswerModel::Done);
    if rt.db_open.contains(other) {
        let i = rt.db_open.index_of(other);
        assert(after.db_open[i] == other);
    }
    if other == rt.db_next {
        assert(after.db_open.last() == other);
    }
    if after.db_open.contains(other) {
        let i = after.db_open.index_of(other);
        assert(i < rt.db_open.len() ==> rt.db_open[i] == other);
    }
    lemma_without(rt.db_open, id, rt.db_open.len() as int);
    assert(rt.db_open.take(rt.db_open.len() as int) =~= rt.db_open);
}

/// Work on a database that fails is a `DbError` with the reason, and changes nothing.
pub proof fn failed_statements_are_database_errors(
    rt: RuntimeModel,
    path: Seq<char>,
    id: u64,
    sql: Seq<char>,
    params: Seq<SqlModel>,
    why: Seq<char>,
)
    ensures
        blames(db_outcome(rt, RequestModel::DbOpen(path), AnswerModel::Failed(why)).1, "DbError"@, why),
        names_place(db_outcome(rt, RequestModel::DbOpen(path), AnswerModel::Failed(why)).1, path),
        db_outcome(rt, RequestModel::DbOpen(path), AnswerModel::Failed(why)).0 == rt,
        blames(db_outcome(rt, RequestModel::DbExec { id, sql, params }, AnswerModel::Failed(why)).1, "DbError"@, why),
        db_outcome(rt, RequestModel::DbExec { id, sql, params }, AnswerModel::Failed(why)).0 == rt,
        blames(db_outcome(rt, RequestModel::DbQuery { id, sql, params }, AnswerModel::Failed(why)).1, "DbError"@, why),
        db_outcome(rt, RequestModel::DbQuery { id, sql, params }, AnswerModel::Failed(why)).0 == rt,
        comes_to(db_outcome(rt, RequestModel::DbExec { id, sql, params }, AnswerModel::Done).1, ValueModel::Null),
{
    match db_outcome(rt, RequestModel::DbOpen(path), AnswerModel::Failed(why)).1 {
        Err(FailureModel::Throw { message, .. }) => {
            assert(message[1] == PieceModel::Text(path));
        },
        _ => {},
    }
}

/// Whether the object has what the last cell under each name holds, and nothing else.
pub open spec fn is_row(v: ValueModel, row: Seq<(Seq<char>, ValueModel)>) -> bool {
    &&& v matches ValueModel::Object(t)
    &&& forall|name: Seq<char>| #[trigger] lookup(t, name) is Some ==> exists|i: int|
            0 <= i < row.len() && (#[trigger] row[i]).0 == name
    &&& forall|i: int|
        0 <= i < row.len() && (forall|j: int| i < j < row.len() ==> (#[trigger] row[j]).0 != row[i].0) ==> lookup(
            t,
            (#[trigger] row[i]).0,
        ) == Some(row[i].1)
}

proof fn lemma_row(row: Seq<(Seq<char>, ValueModel)>, n: int)
    requires
        0 <= n <= row.len(),
    ensures
        is_row(ValueModel::Object(crate::answers::row_object(row, n)), row.take(n)),
    decreases n,
{
    let t = crate::answers::row_object(row, n);
    let w = row.take(n);
    if n > 0 {
        lemma_row(row, n - 1);
        let u = crate::answers::row_object(row, n - 1);
        let w0 = row.take(n - 1);
        let last = row[n - 1];
        assert(is_row(ValueModel::Object(u), w0));
        assert forall|name: Seq<char>| #[trigger] lookup(t, name) is Some implies exists|i: int|
            0 <= i < w.len() && (#[trigger] w[i]).0 == name by {
            put_then_lookup(u, last.0, last.1, name);
            if name == last.0 {
                assert(w[n - 1].0 == name);
            } else {
                assert(lookup(u, name) is Some);
                let i = choose|i: int| 0 <= i < w0.len() && (#[trigger] w0[i]).0 == name;
                assert(w[i].0 == name);
            }
        }
        assert forall|i: int|
            0 <= i < w.len() && (forall|j: int| i < j < w.len() ==> (#[trigger] w[j]).0 != w[i].0) implies lookup(
            t,
            (#[trigger] w[i]).0,
        ) == Some(w[i].1) by {
            put_then_lookup(u, last.0, last.1, w[i].0);
            if i < n - 1 {
                assert(w[n - 1] == last);
                assert(w0[i] == w[i]);
                assert forall|j: int| i < j < w0.len() implies (#[trigger] w0[j]).0 != w0[i].0 by {
                    assert(w0[j] == w[j]);
                }
            }
        }
    } else {
        assert(t =~= seq![]);
        assert forall|name: Seq<char>| lookup(t, name) is None by {
            crate::table::lemma_place(crate::table::keys(t), name, 0);
        }
    }
}

/// A query gives one object for each row, in the order of the rows, with the cells under the
/// names of their columns.
pub proof fn rows_come_as_objects(
    id: u64,
    sql: Seq<char>,
    params: Seq<SqlModel>,
    rows: Seq<Seq<(Seq<char>, ValueModel)>>,
)
    ensures
        outcome(RequestModel::DbQuery { id, sql, params }, AnswerModel::Rows(rows)) matches Ok(
            PlanModel::Ready(ValueModel::Array(items)),
        ) && items.len() == rows.len() && forall|i: int| 0 <= i < rows.len() ==> is_row(#[trigger] items[i], rows[i]),
{
    assert forall|i: int| 0 <= i < rows.len() implies is_row(
        #[trigger] crate::answers::row_objects(rows)[i],
        rows[i],
    ) by {
        lemma_row(rows[i], rows[i].len() as int);
        assert(rows[i].take(rows[i].len() as int) =~= rows[i]);
    }
}

/// How the names of the functions of `sys` are spelled, as far as it tells them apart.
proof fn lemma_sys_names()
    ensures
        "Args"@.len() == 4,
        "Getenv"@.len() == 6,
        "Cwd"@.len() == 3,
{
    reveal_strlit("Args");
    reveal_strlit("Getenv");
    reveal_strlit("Cwd");
}

/// The functions of `sys` ask for what their names say; a variable that is not set is null.
pub proof fn surroundings_are_asked_for(name: Seq<char>, text: Seq<char>, texts: Seq<Seq<char>>, why: Seq<char>)
    ensures
        asks(sys_function("Args"@, seq![]), RequestModel::Args),
        asks(sys_function("Getenv"@, seq![ValueModel::String(name)]), RequestModel::Getenv(name)),
        asks(sys_function("Cwd"@, seq![]), RequestModel::Cwd),
        outcome(RequestModel::Args, AnswerModel::Texts(texts)) matches Ok(PlanModel::Ready(ValueModel::Array(items)))
            && items.len() == texts.len() && forall|i: int|
            0 <= i < texts.len() ==> #[trigger] items[i] == ValueModel::String(texts[i]),
        comes_to(outcome(RequestModel::Getenv(name), AnswerModel::Text(text)), ValueModel::String(text)),
        comes_to(outcome(RequestModel::Getenv(name), AnswerModel::Nothing), ValueModel::Null),
        comes_to(outcome(RequestModel::Cwd, AnswerModel::Text(text)), ValueModel::String(text)),
        blames(outcome(RequestModel::Cwd, AnswerModel::Failed(why)), "IOError"@, why),
{
    lemma_sys_names();
}

/// Too few or too many arguments are refused, and so are functions that `sys` does not have
/// and names that are no strings.
pub proof fn sys_functions_have_limits(v: ValueModel, args: Seq<ValueModel>, function: Seq<char>)
    ensures
        !(v is String) ==> throws(sys_function("Getenv"@, seq![v]), "TypeError"@),
        args.len() != 1 ==> throws(sys_function("Getenv"@, args), "ValueError"@),
        args.len() != 0 ==> throws(sys_function("Args"@, args), "ValueError"@) && throws(
            sys_function("Cwd"@, args),
            "ValueError"@,
        ),
        function != "Args"@ && function != "Getenv"@ && function != "Cwd"@ ==> throws(
            sys_function(function, args),
            "NameError"@,
        ),
{
    lemma_sys_names();
}

/// How the names of the functions of `gui` are spelled, as far as it tells them apart.
proof fn lemma_gui_names()
    ensures
        "PickFile"@.len() == 8 && "PickFile"@[0] == 'P',
        "PickFolder"@.len() == 10,
        "SaveFile"@.len() == 8 && "SaveFile"@[0] == 'S',
        "Message"@.len() == 7,
{
    reveal_strlit("PickFile");
    reveal_strlit("PickFolder");
    reveal_strlit("SaveFile");
    reveal_strlit("Message");
}

/// How the words of a message box are spelled, as far as it tells them apart.
proof fn lemma_message_words()
    ensures
        "info"@.len() == 4 && "info"@[0] == 'i',
        "warn"@.len() == 4 && "warn"@[0] == 'w',
        "warning"@.len() == 7,
        "error"@.len() == 5 && "error"@[0] == 'e',
        "ok"@.len() == 2,
        "okcancel"@.len() == 8,
        "yesno"@.len() == 5 && "yesno"@[0] == 'y',
        "yesnocancel"@.len() == 11,
{
    reveal_strlit("info");
    reveal_strlit("warn");
    reveal_strlit("warning");
    reveal_strlit("error");
    reveal_strlit("ok");
    reveal_strlit("okcancel");
    reveal_strlit("yesno");
    reveal_strlit("yesnocancel");
}

proof fn lemma_extensions(names: Seq<Seq<char>>, items: Seq<ValueModel>, i: int)
    requires
        items == Seq::new(names.len(), |k: int| ValueModel::String(names[k])),
        0 <= i <= names.len(),
    ensures
        extensions(items, i, names.take(i)) == Ok::<_, FailureModel>(names),
    decreases names.len() - i,
{
    if i < names.len() {
        lemma_extensions(names, items, i + 1);
        assert(names.take(i).push(names[i]) =~= names.take(i + 1));
    } else {
        assert(names.take(i) =~= names);
    }
}

/// The functions of `gui` that let a user pick something ask for it, and give what was
/// picked, or null.
pub proof fn picks_are_asked_for(name: Seq<char>, names: Seq<Seq<char>>, text: Seq<char>, q: RequestModel)
    ensures
        asks(gui_function("PickFile"@, seq![]), RequestModel::PickFile(None)),
        asks(
            gui_function(
                "PickFile"@,
                seq![
                    ValueModel::String(name),
                    ValueModel::Array(Seq::new(names.len(), |k: int| ValueModel::String(names[k]))),
                ],
            ),
            RequestModel::PickFile(Some((name, names))),
        ),
        asks(gui_function("PickFolder"@, seq![]), RequestModel::PickFolder),
        asks(gui_function("SaveFile"@, seq![]), RequestModel::SaveFile(None)),
        asks(gui_function("SaveFile"@, seq![ValueModel::String(name)]), RequestModel::SaveFile(Some(name))),
        q is PickFile || q is PickFolder || q is SaveFile ==> comes_to(
            outcome(q, AnswerModel::Text(text)),
            ValueModel::String(text),
        ) && comes_to(outcome(q, AnswerModel::Nothing), ValueModel::Null),
{
    lemma_gui_names();
    lemma_extensions(names, Seq::new(names.len(), |k: int| ValueModel::String(names[k])), 0);
    assert(names.take(0) =~= seq![]);
}

/// The level that each word for one stands for.
pub open spec fn means_level(word: Seq<char>, level: Level) -> bool {
    ||| word == "info"@ && level == Level::Info
    ||| word == "warn"@ && level == Level::Warning
    ||| word == "warning"@ && level == Level::Warning
    ||| word == "error"@ && level == Level::Error
}

/// The buttons that each word for them stands for.
pub open spec fn means_buttons(word: Seq<char>, buttons: Buttons) -> bool {
    ||| word == "ok"@ && buttons == Buttons::Confirm
    ||| word == "okcancel"@ && buttons == Buttons::OkCancel
    ||| word == "yesno"@ && buttons == Buttons::YesNo
    ||| word == "yesnocancel"@ && buttons == Buttons::YesNoCancel
}

/// `Message` takes a title, a text, a level and buttons, in this order; the level is `info`
/// and the button `ok` where they are not given.
pub proof fn messages_are_asked_for(
    title: Seq<char>,
    text: Seq<char>,
    level_word: Seq<char>,
    level: Level,
    button_word: Seq<char>,
    buttons: Buttons,
)
    requires
        means_level(level_word, level),
        means_buttons(button_word, buttons),
    ensures
        asks(
            gui_function("Message"@, seq![ValueModel::String(title), ValueModel::String(text)]),
            RequestModel::Message { title, text, level: Level::Info, buttons: Buttons::Confirm },
        ),
        asks(
            gui_function(
                "Message"@,
                seq![ValueModel::String(title), ValueModel::String(text), ValueModel::String(level_word)],
            ),
            RequestModel::Message { title, text, level, buttons: Buttons::Confirm },
        ),
        asks(
            gui_function(
                "Message"@,
                seq![
                    ValueModel::String(title),
                    ValueModel::String(text),
                    ValueModel::String(level_word),
                    ValueModel::String(button_word),
                ],
            ),
            RequestModel::Message { title, text, level, buttons },
        ),
{
    lemma_gui_names();
    lemma_message_words();
}

/// A message box gives the word for the button that closed it.
pub proof fn buttons_have_words(title: Seq<char>, text: Seq<char>, level: Level, buttons: Buttons, word: Seq<char>)
    ensures
        ({
            let q = RequestModel::Message { title, text, level, buttons };
            &&& comes_to(outcome(q, AnswerModel::Choice(ChoiceModel::Yes)), ValueModel::String("yes"@))
            &&& comes_to(outcome(q, AnswerModel::Choice(ChoiceModel::No)), ValueModel::String("no"@))
            &&& comes_to(outcome(q, AnswerModel::Choice(ChoiceModel::Cancel)), ValueModel::String("cancel"@))
            &&& comes_to(outcome(q, AnswerModel::Choice(ChoiceModel::Confirm)), ValueModel::String("ok"@))
            &&& comes_to(outcome(q, AnswerModel::Choice(ChoiceModel::Other(word))), ValueModel::String(word))
        }),
{
}

/// Unknown words in a message are refused, and so are too few or too many arguments,
/// arguments that are no strings, and functions that `gui` does not have.
pub proof fn gui_functions_have_limits(
    title: ValueModel,
    text: ValueModel,
    word: Seq<char>,
    v: ValueModel,
    args: Seq<ValueModel>,
    function: Seq<char>,
)
    ensures
        title is String && text is String && (forall|level: Level| !means_level(word, level)) ==> throws(
            gui_function("Message"@, seq![title, text, ValueModel::String(word)]),
            "ValueError"@,
        ),
        title is String && text is String && (forall|buttons: Buttons| !means_buttons(word, buttons)) ==> throws(
            gui_function("Message"@, seq![title, text, ValueModel::String("info"@), ValueModel::String(word)]),
            "ValueError"@,
        ),
        !(v is String) ==> throws(gui_function("Message"@, seq![v, text]), "TypeError"@) && throws(
            gui_function("SaveFile"@, seq![v]),
            "TypeError"@,
        ) && throws(gui_function("PickFile"@, seq![v, text]), "TypeError"@) && (title is String ==> throws(
            gui_function("Message"@, seq![title, v]),
            "TypeError"@,
        ) && throws(gui_function("PickFile"@, seq![title, ValueModel::Array(seq![v])]), "TypeError"@)),
        title is String && !(v is Array) ==> throws(gui_function("PickFile"@, seq![title, v]), "TypeError"@),
        args.len() < 2 || args.len() > 4 ==> throws(gui_function("Message"@, args), "ValueError"@),
        args.len() != 0 && args.len() != 2 ==> throws(gui_function("PickFile"@, args), "ValueError"@),
        args.len() != 0 ==> throws(gui_function("PickFolder"@, args), "ValueError"@),
        args.len() > 1 ==> throws(gui_function("SaveFile"@, args), "ValueError"@),
        function != "PickFile"@ && function != "PickFolder"@ && function != "SaveFile"@ && function != "Message"@
            ==> throws(gui_function(function, args), "NameError"@),
{
    lemma_gui_names();
    lemma_message_words();
    assert("info"@ == word ==> means_level(word, Level::Info));
    assert("warn"@ == word || "warning"@ == word ==> means_level(word, Level::Warning));
    assert("error"@ == word ==> means_level(word, Level::Error));
    assert("ok"@ == word ==> means_buttons(word, Buttons::Confirm));
    assert("okcancel"@ == word ==> means_buttons(word, Buttons::OkCancel));
    assert("yesno"@ == word ==> means_buttons(word, Buttons::YesNo));
    assert("yesnocancel"@ == word ==> means_buttons(word, Buttons::YesNoCancel));
    reveal_with_fuel(extensions, 2);
}

proof fn lemma_chomp(line: Seq<char>, k: int, j: int)
    requires
        0 <= k <= j <= line.len(),
        k > 0 ==> line[k - 1] != '\n' && line[k - 1] != '\r',
        forall|i: int| k <= i < j ==> #[trigger] line[i] == '\n' || line[i] == '\r',
    ensures
        line_content(line, j) == k,
    decreases j,
{
    if j > k {
        assert(line[j - 1] == '\n' || line[j - 1] == '\r');
        lemma_chomp(line, k, j - 1);
    }
}

/// Input is the line that was typed, without the breaks at its end.
pub proof fn input_is_the_line(prompt: Seq<PieceModel>, line: Seq<char>, breaks: Seq<char>, why: Seq<char>)
    requires
        line.len() > 0 ==> line.last() != '\n' && line.last() != '\r',
        forall|i: int| 0 <= i < breaks.len() ==> #[trigger] breaks[i] == '\n' || breaks[i] == '\r',
    ensures
        comes_to(outcome(RequestModel::Input(prompt), AnswerModel::Text(line + breaks)), ValueModel::String(line)),
        blames(outcome(RequestModel::Input(prompt), AnswerModel::Failed(why)), "IOError"@, why),
{
    let t = line + breaks;
    assert forall|i: int| line.len() <= i < t.len() implies #[trigger] t[i] == '\n' || t[i] == '\r' by {
        assert(t[i] == breaks[i - line.len()]);
    }
    lemma_chomp(t, line.len() as int, t.len() as int);
    assert(t.subrange(0, line.len() as int) =~= line);
}

/// The time is counted in milliseconds.
pub proof fn time_is_in_milliseconds(secs: u64, nanos: u32, why: Seq<char>)
    requires
        secs <= 1_000_000_000_000_000,
        nanos < 1_000_000_000,
    ensures
        outcome(RequestModel::Now, AnswerModel::Time { secs, nanos }) matches Ok(PlanModel::Ratio { part, whole })
            && whole == 1 && part * 1_000_000 <= secs * 1_000_000_000 + nanos < (part + 1) * 1_000_000,
        blames(outcome(RequestModel::Now, AnswerModel::Failed(why)), "IOError"@, why),
{
}

/// A random number is a part of a whole of 53 bits: the moment, with its lowest bit set,
/// scrambled by three shifts and one product, of which the upper bits count. Without a clock
/// a fixed number stands for the moment.
pub proof fn random_parts_are_scrambled(secs: u64, nanos: u32, why: Seq<char>)
    ensures
        ({
            let a: u64 = (nanos as u64 ^ secs) | 1;
            let b: u64 = a ^ (a >> 12u64);
            let c: u64 = b ^ (b << 25u64);
            let d: u64 = c ^ (c >> 27u64);
            let n: int = (d * 0x2545_F491_4F6C_DD1D) % 0x1_0000_0000_0000_0000;
            outcome(RequestModel::Random, AnswerModel::Time { secs, nanos }) matches Ok(PlanModel::Ratio { part, whole })
                && part == n / 2048 && whole == 0x1f_ffff_ffff_ffff
        }),
        outcome(RequestModel::Random, AnswerModel::Failed(why)) == Ok::<_, FailureModel>(
            PlanModel::Ratio { part: scrambled(0x9E37_79B9_7F4A_7C15), whole: 0x1f_ffff_ffff_ffff },
        ),
{
    let a: u64 = (nanos as u64 ^ secs) | 1;
    let b: u64 = a ^ (a >> 12u64);
    let c: u64 = b ^ (b << 25u64);
    let d: u64 = c ^ (c >> 27u64);
    let w: u64 = d.wrapping_mul(0x2545_F491_4F6C_DD1D);
    assert(w >> 11u64 == w / 2048) by (bit_vector);
}

/// A number that the host could read comes as it is. A text that is none is a `ValueError`.
pub proof fn read_numbers_come_through(text: Seq<char>, written: Seq<char>, n: u64, why: Seq<char>)
    ensures
        comes_to(
            outcome(RequestModel::ParseNumber { text, shown: written }, AnswerModel::Number(n)),
            ValueModel::Number(n),
        ),
        throws(outcome(RequestModel::ParseNumber { text, shown: written }, AnswerModel::Failed(why)), "ValueError"@),
{
}

/// Printing gives null, and the text of a document is the string that the host wrote.
pub proof fn written_text_comes_through(p: Seq<PieceModel>, a: AnswerModel, j: crate::json::JsonModel, text: Seq<char>)
    ensures
        comes_to(outcome(RequestModel::Print(p), a), ValueModel::Null),
        comes_to(outcome(RequestModel::JsonText(j), AnswerModel::Text(text)), ValueModel::String(text)),
{
}

/// `Format` writes a moment after a pattern; without one, the date and the time of day. What
/// lies behind the point of the milliseconds does not count, and what is negative or not
/// finite is no moment.
pub proof fn moments_are_formatted(n: u64, pattern: Seq<char>, v: ValueModel, args: Seq<ValueModel>)
    ensures
        finite(n) && !below(n, 0) && truncated(n) <= 0x7fff_ffff_ffff_ffff ==> gives(
            time_format(seq![ValueModel::Number(n), ValueModel::String(pattern)]),
            ValueModel::String(formatted(truncated(n), pattern)),
        ) && gives(
            time_format(seq![ValueModel::Number(n)]),
            ValueModel::String(formatted(truncated(n), "YYYY-MM-DD HH:mm:SS"@)),
        ),
        !finite(n) || below(n, 0) ==> throws(
            time_format(seq![ValueModel::Number(n), ValueModel::String(pattern)]),
            "ValueError"@,
        ) && throws(time_format(seq![ValueModel::Number(n)]), "ValueError"@),
        !(v is Number) ==> throws(time_format(seq![v]), "TypeError"@),
        !(v is String) ==> throws(time_format(seq![ValueModel::Number(n), v]), "TypeError"@),
        args.len() != 1 && args.len() != 2 ==> throws(time_format(args), "ValueError"@),
{
    numbers_are_ordered_by_value(n, 0);
}

/// `Parse` takes a string and `Stringify` any value that a document can hold.
pub proof fn documents_are_asked_for(s: Seq<char>, v: ValueModel, args: Seq<ValueModel>, function: Seq<char>)
    ensures
        json_function("Parse"@, seq![ValueModel::String(s)]) == parse_result(json_parsed(s)),
        value_json(v, 0) matches Ok(j) ==> asks(json_function("Stringify"@, seq![v]), RequestModel::JsonText(j)),
        value_json(v, 0) is Err ==> throws(json_function("Stringify"@, seq![v]), "ValueError"@),
        !(v is String) ==> throws(json_function("Parse"@, seq![v]), "TypeError"@),
        args.len() != 1 ==> throws(json_function("Parse"@, args), "ValueError"@) && throws(
            json_function("Stringify"@, args),
            "ValueError"@,
        ),
        function != "Parse"@ && function != "Stringify"@ ==> throws(json_function(function, args), "NameError"@),
{
    reveal_strlit("Parse");
    reveal_strlit("Stringify");
    assert("Parse"@.len() == 5);
    assert("Stringify"@.len() == 9);
}

/// `selectFile` makes a file out of a path, unless the path is blank.
pub proof fn selected_files_have_their_path(path: Seq<char>, v: ValueModel, args: Seq<ValueModel>)
    ensures
        trimmed(path).len() > 0 ==> gives(select_file(seq![ValueModel::String(path)]), ValueModel::File { path }),
        trimmed(path).len() == 0 ==> throws(select_file(seq![ValueModel::String(path)]), "ValueError"@),
        !(v is String) ==> throws(select_file(seq![v]), "TypeError"@),
        args.len() != 1 ==> throws(select_file(args), "ValueError"@),
{
}

/// `assert` fails for what counts as no, with the message that it was given, and else gives
/// null.
pub proof fn assertions_hold_or_fail(v: ValueModel, message: ValueModel, args: Seq<ValueModel>)
    ensures
        !counts_as_no(v) ==> gives(assertion(seq![v]), ValueModel::Null) && gives(
            assertion(seq![v, message]),
            ValueModel::Null,
        ),
        counts_as_no(v) ==> throws(assertion(seq![v]), "AssertError"@) && assertion(seq![v, message]) == Err::<
            EffectModel,
            _,
        >(FailureModel::Throw { error_type: "AssertError"@, message: shown(message) }),
        args.len() != 1 && args.len() != 2 ==> throws(assertion(args), "ValueError"@),
{
    conditions_fail_on_empty_values(v, v);
}

} // verus!
