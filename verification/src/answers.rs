//! What the machine makes of the answers of its host.

use crate::ast::{entries, values, Value, ValueModel};
use crate::builtins::{string_values, text_values};
use crate::draft::{
    fatal_err, fatal_model, text, text_2, text_3, text_4, throw_model, throw_pieces, Failure, FailureModel, PieceModel,
    Plan, PlanModel,
};
use crate::operators::plan_result;
use crate::request::{row_model, row_models, Answer, AnswerModel, Cell, Choice, ChoiceModel, Request, RequestModel};
use crate::runtime::{ModuleRuntime, RuntimeModel};
use crate::sort::{sort_texts, sorted_texts};
use crate::strlib::no_number;
use crate::syslib::{remove_id, without_id};
use crate::table::{put, store};
use crate::text::{chars_of, string_of};
use vstd::prelude::*;

verus! {

/// Where the line breaks at the end of a line start.
pub open spec fn line_content(s: Seq<char>, j: int) -> int
    decreases j,
{
    if 0 < j <= s.len() && (s[j - 1] == '\n' || s[j - 1] == '\r') {
        line_content(s, j - 1)
    } else {
        j
    }
}

/// A line without the breaks at its end.
pub open spec fn chomped(s: Seq<char>) -> Seq<char> {
    s.subrange(0, line_content(s, s.len() as int))
}

fn chomp(s: &str) -> (r: String)
    ensures
        r@ == chomped(s@),
{
    let c = chars_of(s);
    let mut j: usize = c.len();
    while j > 0 && (c[j - 1] == '\n' || c[j - 1] == '\r')
        invariant
            j <= c@.len(),
            c@ == s@,
            line_content(s@, j as int) == line_content(s@, s@.len() as int),
        decreases j,
    {
        j = j - 1;
    }
    string_of(&c, 0, j)
}

/// The seed that stands in where there is no clock.
pub const FALLBACK_SEED: u64 = 0x9E37_79B9_7F4A_7C15;

/// The whole of which a random number is a part.
pub const RANDOM_WHOLE: u64 = 0x1f_ffff_ffff_ffff;

/// A seed scrambled by xorshift64*.
pub open spec fn scrambled(seed: u64) -> u64 {
    let a = seed | 1;
    let b = a ^ (a >> 12u64);
    let c = b ^ (b << 25u64);
    let d = c ^ (c >> 27u64);
    d.wrapping_mul(0x2545_F491_4F6C_DD1D) >> 11u64
}

fn scramble(seed: u64) -> (r: u64)
    ensures
        r == scrambled(seed),
{
    let a: u64 = seed | 1;
    let b: u64 = a ^ (a >> 12u64);
    let c: u64 = b ^ (b << 25u64);
    let d: u64 = c ^ (c >> 27u64);
    d.wrapping_mul(0x2545_F491_4F6C_DD1D) >> 11u64
}

/// A random number is a part of the whole.
pub proof fn random_part_is_within_whole(seed: u64)
    ensures
        scrambled(seed) <= RANDOM_WHOLE,
{
    let a = seed | 1;
    let b = a ^ (a >> 12u64);
    let c = b ^ (b << 25u64);
    let d = c ^ (c >> 27u64);
    let x = d.wrapping_mul(0x2545_F491_4F6C_DD1D);
    assert(x >> 11u64 <= 0x1f_ffff_ffff_ffffu64) by (bit_vector);
}

/// A moment in milliseconds, as far as 64 bits reach.
pub open spec fn millis(secs: u64, nanos: u32) -> u64 {
    let m = secs * 1000 + nanos as int / 1_000_000;
    if m <= u64::MAX {
        m as u64
    } else {
        u64::MAX
    }
}

/// A row as an object.
pub open spec fn row_object(row: Seq<(Seq<char>, ValueModel)>, n: int) -> Seq<(Seq<char>, ValueModel)>
    decreases n,
{
    if n <= 0 || n > row.len() {
        seq![]
    } else {
        put(row_object(row, n - 1), row[n - 1].0, row[n - 1].1)
    }
}

/// Rows as objects.
pub open spec fn row_objects(rows: Seq<Seq<(Seq<char>, ValueModel)>>) -> Seq<ValueModel> {
    Seq::new(rows.len(), |i: int| ValueModel::Object(row_object(rows[i], rows[i].len() as int)))
}

fn db_row_to_object(row: &Vec<(String, Cell)>) -> (r: Vec<(String, Value)>)
    ensures
        entries(r@) == row_object(row_model(row@), row@.len() as int),
{
    let ghost model = row_model(row@);
    let mut r: Vec<(String, Value)> = Vec::new();
    let mut i: usize = 0;
    assert(entries(r@) =~= seq![]);
    while i < row.len()
        invariant
            i <= row@.len(),
            model == row_model(row@),
            entries(r@) == row_object(model, i as int),
        decreases row@.len() - i,
    {
        let v = match &row[i].1 {
            Cell::Null => Value::Null,
            Cell::Number(n) => Value::Number(*n),
            Cell::Text(s) => Value::String(s.clone()),
        };
        store(&mut r, row[i].0.clone(), v);
        i = i + 1;
    }
    r
}

fn rows_to_objects(rows: &Vec<Vec<(String, Cell)>>) -> (r: Vec<Value>)
    ensures
        values(r@) == row_objects(row_models(rows@)),
{
    let mut r: Vec<Value> = Vec::new();
    let mut i: usize = 0;
    while i < rows.len()
        invariant
            i <= rows@.len(),
            r@.len() == i,
            forall|k: int|
                0 <= k < i ==> (#[trigger] r@[k])@ == ValueModel::Object(
                    row_object(row_model(rows@[k]@), rows@[k]@.len() as int),
                ),
        decreases rows@.len() - i,
    {
        r.push(Value::Object(db_row_to_object(&rows[i])));
        i = i + 1;
    }
    assert(values(r@) =~= row_objects(row_models(rows@)));
    r
}

pub open spec fn ready(v: ValueModel) -> Result<PlanModel, FailureModel> {
    Ok(PlanModel::Ready(v))
}

/// A failure of the host: its kind, what was tried, and why it failed.
pub open spec fn trouble(error_type: Seq<char>, what: Seq<char>, why: Seq<char>) -> Result<PlanModel, FailureModel> {
    Err(throw_model(error_type, seq![PieceModel::Text(what), PieceModel::Text(why)]))
}

/// A failure of the host with a path or an address.
pub open spec fn trouble_at(
    error_type: Seq<char>,
    what: Seq<char>,
    place: Seq<char>,
    link: Seq<char>,
    why: Seq<char>,
) -> Result<PlanModel, FailureModel> {
    Err(
        throw_model(
            error_type,
            seq![PieceModel::Text(what), PieceModel::Text(place), PieceModel::Text(link), PieceModel::Text(why)],
        ),
    )
}

fn report(error_type: &str, what: &str, why: &str) -> (r: Result<Plan, Failure>)
    ensures
        plan_result(r) == trouble(error_type@, what@, why@),
{
    Err(throw_pieces(error_type, text_2(text(what), text(why))))
}

fn report_at(error_type: &str, what: &str, place: &str, link: &str, why: &str) -> (r: Result<Plan, Failure>)
    ensures
        plan_result(r) == trouble_at(error_type@, what@, place@, link@, why@),
{
    Err(throw_pieces(error_type, text_4(text(what), text(place), text(link), text(why))))
}

/// What becomes of an answer that does not fit its request.
pub open spec fn unfit() -> Result<PlanModel, FailureModel> {
    Err(fatal_model("the host gave an unfit answer"@))
}

fn reject() -> (r: Result<Plan, Failure>)
    ensures
        plan_result(r) == unfit(),
{
    Err(fatal_err("the host gave an unfit answer"))
}

/// What a script sees of the button that closed a message box.
pub open spec fn choice_text(c: ChoiceModel) -> Seq<char> {
    match c {
        ChoiceModel::Yes => "yes"@,
        ChoiceModel::No => "no"@,
        ChoiceModel::Cancel => "cancel"@,
        ChoiceModel::Confirm => "ok"@,
        ChoiceModel::Other(s) => s,
    }
}

fn write_choice(c: Choice) -> (r: String)
    ensures
        r@ == choice_text(c@),
{
    match c {
        Choice::Yes => "yes".to_string(),
        Choice::No => "no".to_string(),
        Choice::Cancel => "cancel".to_string(),
        Choice::Confirm => "ok".to_string(),
        Choice::Other(s) => s,
    }
}

/// What an answer to a request comes to as a value.
pub open spec fn outcome(q: RequestModel, a: AnswerModel) -> Result<PlanModel, FailureModel> {
    match q {
        RequestModel::Print(_) => ready(ValueModel::Null),
        RequestModel::Input(_) => match a {
            AnswerModel::Text(line) => ready(ValueModel::String(chomped(line))),
            AnswerModel::Failed(e) => trouble("IOError"@, "Input failed: "@, e),
            _ => unfit(),
        },
        RequestModel::Random => match a {
            AnswerModel::Time { secs, nanos } => Ok(
                PlanModel::Ratio { part: scrambled(nanos as u64 ^ secs), whole: RANDOM_WHOLE },
            ),
            _ => Ok(PlanModel::Ratio { part: scrambled(FALLBACK_SEED), whole: RANDOM_WHOLE }),
        },
        RequestModel::Now => match a {
            AnswerModel::Time { secs, nanos } => Ok(PlanModel::Ratio { part: millis(secs, nanos), whole: 1 }),
            AnswerModel::Failed(e) => trouble("IOError"@, "clock failed: "@, e),
            _ => unfit(),
        },
        RequestModel::ParseNumber { shown, .. } => match a {
            AnswerModel::Number(n) => ready(ValueModel::Number(n)),
            AnswerModel::Failed(_) => Err(no_number("cannot convert to number: '"@, shown)),
            _ => unfit(),
        },
        RequestModel::JsonText(_) => match a {
            AnswerModel::Text(s) => ready(ValueModel::String(s)),
            _ => unfit(),
        },
        RequestModel::Args => match a {
            AnswerModel::Texts(t) => ready(ValueModel::Array(text_values(t))),
            _ => unfit(),
        },
        RequestModel::Cwd => match a {
            AnswerModel::Text(s) => ready(ValueModel::String(s)),
            AnswerModel::Failed(e) => trouble("IOError"@, "cannot read cwd: "@, e),
            _ => unfit(),
        },
        RequestModel::Getenv(_) => text_or_null(a),
        RequestModel::PickFile(_) => text_or_null(a),
        RequestModel::PickFolder => text_or_null(a),
        RequestModel::SaveFile(_) => text_or_null(a),
        RequestModel::Message { .. } => match a {
            AnswerModel::Choice(c) => ready(ValueModel::String(choice_text(c))),
            _ => unfit(),
        },
        RequestModel::HttpGet(url) => match a {
            AnswerModel::Text(s) => ready(ValueModel::String(s)),
            AnswerModel::Failed(e) => trouble_at("IOError"@, "GET '"@, url, "' failed: "@, e),
            AnswerModel::FailedBody(e) => trouble_at("IOError"@, "GET '"@, url, "' failed reading body: "@, e),
            _ => unfit(),
        },
        RequestModel::HttpPost { url, .. } => match a {
            AnswerModel::Text(s) => ready(ValueModel::String(s)),
            AnswerModel::Failed(e) => trouble_at("IOError"@, "POST '"@, url, "' failed: "@, e),
            AnswerModel::FailedBody(e) => trouble_at("IOError"@, "POST '"@, url, "' failed reading body: "@, e),
            _ => unfit(),
        },
        RequestModel::FileRead(path) => match a {
            AnswerModel::Text(s) => ready(ValueModel::String(s)),
            AnswerModel::Failed(e) => trouble_at("IOError"@, "cannot read '"@, path, "': "@, e),
            _ => unfit(),
        },
        RequestModel::FileWrite { path, .. } => match a {
            AnswerModel::Done => ready(ValueModel::Null),
            AnswerModel::Failed(e) => trouble_at("IOError"@, "cannot write '"@, path, "': "@, e),
            _ => unfit(),
        },
        RequestModel::FileAppend { path, .. } => match a {
            AnswerModel::Done => ready(ValueModel::Null),
            AnswerModel::Failed(e) => trouble_at("IOError"@, "cannot append '"@, path, "': "@, e),
            _ => unfit(),
        },
        RequestModel::FileExists(_) => match a {
            AnswerModel::Flag(b) => ready(ValueModel::Logic(b)),
            _ => unfit(),
        },
        RequestModel::FileRemove(path) => match a {
            AnswerModel::Done => ready(ValueModel::Null),
            AnswerModel::Failed(e) => trouble_at("IOError"@, "cannot remove '"@, path, "': "@, e),
            _ => unfit(),
        },
        RequestModel::FileList(path) => match a {
            AnswerModel::Texts(t) => ready(ValueModel::Array(text_values(sorted_texts(t)))),
            AnswerModel::Failed(e) => trouble_at("IOError"@, "cannot list '"@, path, "': "@, e),
            _ => unfit(),
        },
        RequestModel::FileMakeDir(path) => match a {
            AnswerModel::Done => ready(ValueModel::Null),
            AnswerModel::Failed(e) => trouble_at("IOError"@, "cannot create dir '"@, path, "': "@, e),
            _ => unfit(),
        },
        RequestModel::DbClose(_) => ready(ValueModel::Null),
        RequestModel::DbExec { .. } => match a {
            AnswerModel::Done => ready(ValueModel::Null),
            AnswerModel::Failed(e) => trouble("DbError"@, "Exec failed: "@, e),
            _ => unfit(),
        },
        RequestModel::DbQuery { .. } => match a {
            AnswerModel::Rows(rows) => ready(ValueModel::Array(row_objects(rows))),
            AnswerModel::Failed(e) => trouble("DbError"@, "Query failed: "@, e),
            _ => unfit(),
        },
        _ => unfit(),
    }
}

pub open spec fn text_or_null(a: AnswerModel) -> Result<PlanModel, FailureModel> {
    match a {
        AnswerModel::Text(s) => ready(ValueModel::String(s)),
        AnswerModel::Nothing => ready(ValueModel::Null),
        _ => unfit(),
    }
}

fn accept_text_or_null(a: Answer) -> (r: Result<Plan, Failure>)
    ensures
        plan_result(r) == text_or_null(a@),
{
    match a {
        Answer::Text(s) => Ok(Plan::Ready(Value::String(s))),
        Answer::Nothing => Ok(Plan::Ready(Value::Null)),
        _ => reject(),
    }
}

fn accept_file(what: &str, path: &str, a: Answer) -> (r: Result<Plan, Failure>)
    ensures
        plan_result(r) == (match a@ {
            AnswerModel::Done => ready(ValueModel::Null),
            AnswerModel::Failed(e) => trouble_at("IOError"@, what@, path@, "': "@, e),
            _ => unfit(),
        }),
{
    match a {
        Answer::Done => Ok(Plan::Ready(Value::Null)),
        Answer::Failed(e) => report_at("IOError", what, path, "': ", e.as_str()),
        _ => reject(),
    }
}

/// What an answer to a request comes to as a value.
pub fn accept(q: &Request, a: Answer) -> (r: Result<Plan, Failure>)
    ensures
        plan_result(r) == outcome(q@, a@),
{
    match q {
        Request::Print(_) => Ok(Plan::Ready(Value::Null)),
        Request::Input(_) => match a {
            Answer::Text(line) => Ok(Plan::Ready(Value::String(chomp(line.as_str())))),
            Answer::Failed(e) => report("IOError", "Input failed: ", e.as_str()),
            _ => reject(),
        },
        Request::Random => match a {
            Answer::Time { secs, nanos } => Ok(
                Plan::Ratio { part: scramble(nanos as u64 ^ secs), whole: RANDOM_WHOLE },
            ),
            _ => Ok(Plan::Ratio { part: scramble(FALLBACK_SEED), whole: RANDOM_WHOLE }),
        },
        Request::Now => match a {
            Answer::Time { secs, nanos } => {
                let m: u128 = (secs as u128) * 1000 + (nanos / 1_000_000) as u128;
                let part: u64 = if m <= u64::MAX as u128 {
                    m as u64
                } else {
                    u64::MAX
                };
                Ok(Plan::Ratio { part, whole: 1 })
            },
            Answer::Failed(e) => report("IOError", "clock failed: ", e.as_str()),
            _ => reject(),
        },
        Request::ParseNumber { shown, .. } => match a {
            Answer::Number(n) => Ok(Plan::Ready(Value::Number(n))),
            Answer::Failed(_) => Err(
                throw_pieces("ValueError", text_3(text("cannot convert to number: '"), text(shown.as_str()), text("'"))),
            ),
            _ => reject(),
        },
        Request::JsonText(_) => match a {
            Answer::Text(s) => Ok(Plan::Ready(Value::String(s))),
            _ => reject(),
        },
        Request::Args => match a {
            Answer::Texts(t) => Ok(Plan::Ready(Value::Array(string_values(t)))),
            _ => reject(),
        },
        Request::Cwd => match a {
            Answer::Text(s) => Ok(Plan::Ready(Value::String(s))),
            Answer::Failed(e) => report("IOError", "cannot read cwd: ", e.as_str()),
            _ => reject(),
        },
        Request::Getenv(_) => accept_text_or_null(a),
        Request::PickFile(_) => accept_text_or_null(a),
        Request::PickFolder => accept_text_or_null(a),
        Request::SaveFile(_) => accept_text_or_null(a),
        Request::Message { .. } => match a {
            Answer::Choice(c) => Ok(Plan::Ready(Value::String(write_choice(c)))),
            _ => reject(),
        },
        Request::HttpGet(url) => match a {
            Answer::Text(s) => Ok(Plan::Ready(Value::String(s))),
            Answer::Failed(e) => report_at("IOError", "GET '", url.as_str(), "' failed: ", e.as_str()),
            Answer::FailedBody(e) => report_at(
                "IOError",
                "GET '",
                url.as_str(),
                "' failed reading body: ",
                e.as_str(),
            ),
            _ => reject(),
        },
        Request::HttpPost { url, .. } => match a {
            Answer::Text(s) => Ok(Plan::Ready(Value::String(s))),
            Answer::Failed(e) => report_at("IOError", "POST '", url.as_str(), "' failed: ", e.as_str()),
            Answer::FailedBody(e) => report_at(
                "IOError",
                "POST '",
                url.as_str(),
                "' failed reading body: ",
                e.as_str(),
            ),
            _ => reject(),
        },
        Request::FileRead(path) => match a {
            Answer::Text(s) => Ok(Plan::Ready(Value::String(s))),
            Answer::Failed(e) => report_at("IOError", "cannot read '", path.as_str(), "': ", e.as_str()),
            _ => reject(),
        },
        Request::FileWrite { path, .. } => accept_file("cannot write '", path.as_str(), a),
        Request::FileAppend { path, .. } => accept_file("cannot append '", path.as_str(), a),
        Request::FileExists(_) => match a {
            Answer::Flag(b) => Ok(Plan::Ready(Value::Logic(b))),
            _ => reject(),
        },
        Request::FileRemove(path) => accept_file("cannot remove '", path.as_str(), a),
        Request::FileList(path) => match a {
            Answer::Texts(t) => Ok(Plan::Ready(Value::Array(string_values(sort_texts(&t))))),
            Answer::Failed(e) => report_at("IOError", "cannot list '", path.as_str(), "': ", e.as_str()),
            _ => reject(),
        },
        Request::FileMakeDir(path) => accept_file("cannot create dir '", path.as_str(), a),
        Request::DbClose(_) => Ok(Plan::Ready(Value::Null)),
        Request::DbExec { .. } => match a {
            Answer::Done => Ok(Plan::Ready(Value::Null)),
            Answer::Failed(e) => report("DbError", "Exec failed: ", e.as_str()),
            _ => reject(),
        },
        Request::DbQuery { .. } => match a {
            Answer::Rows(rows) => Ok(Plan::Ready(Value::Array(rows_to_objects(&rows)))),
            Answer::Failed(e) => report("DbError", "Query failed: ", e.as_str()),
            _ => reject(),
        },
        _ => reject(),
    }
}

/// What an answer to a request about the set of open databases changes, and
/// comes to.
pub open spec fn db_outcome(rt: RuntimeModel, q: RequestModel, a: AnswerModel) -> (
    RuntimeModel,
    Result<PlanModel, FailureModel>,
) {
    match q {
        RequestModel::DbOpen(path) => match a {
            AnswerModel::Done => (
                RuntimeModel {
                    db_next: rt.db_next.wrapping_add(1),
                    db_open: rt.db_open.push(rt.db_next),
                    ..rt
                },
                ready(ValueModel::Db { id: rt.db_next }),
            ),
            AnswerModel::Failed(e) => (rt, trouble_at("DbError"@, "cannot open '"@, path, "': "@, e)),
            _ => (rt, unfit()),
        },
        RequestModel::DbClose(id) => (
            RuntimeModel { db_open: without_id(rt.db_open, id, rt.db_open.len() as int), ..rt },
            outcome(q, a),
        ),
        _ => (rt, outcome(q, a)),
    }
}

/// As `accept`, with the set of open databases kept up to date.
pub fn accept_db(rt: &mut ModuleRuntime, q: &Request, a: Answer) -> (r: Result<Plan, Failure>)
    ensures
        (final(rt)@, plan_result(r)) == db_outcome(old(rt)@, q@, a@),
{
    match q {
        Request::DbOpen(path) => match a {
            Answer::Done => {
                let id: u64 = rt.db_next;
                rt.db_next = id.wrapping_add(1);
                rt.db_open.push(id);
                Ok(Plan::Ready(Value::Db { id }))
            },
            Answer::Failed(e) => report_at("DbError", "cannot open '", path.as_str(), "': ", e.as_str()),
            _ => reject(),
        },
        Request::DbClose(id) => {
            let open = remove_id(&rt.db_open, *id);
            rt.db_open = open;
            accept(q, a)
        },
        other => accept(other, a),
    }
}

/// Whether the request can fail for a reason that the host gives.
pub open spec fn can_fail(q: RequestModel) -> bool {
    q is Input || q is Now || q is ParseNumber || q is Cwd || q is HttpGet || q is HttpPost
        || q is FileRead || q is FileWrite || q is FileAppend || q is FileRemove || q is FileList || q is FileMakeDir
        || q is DbOpen || q is DbExec || q is DbQuery
}

/// A failure of the host is an error that a script can catch; it changes nothing
/// of the runtime.
pub proof fn host_failure_is_catchable(rt: RuntimeModel, q: RequestModel, e: Seq<char>)
    requires
        can_fail(q),
    ensures
        db_outcome(rt, q, AnswerModel::Failed(e)).1 matches Err(f) && f is Throw,
        db_outcome(rt, q, AnswerModel::Failed(e)).0 == rt,
{
}

} // verus!
