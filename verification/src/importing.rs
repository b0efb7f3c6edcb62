//! How files find, load and start one another.

use crate::ast::{StatementModel, ValueModel};
use crate::draft::{FaultModel, PieceModel};
use crate::driver::{source_run, wrapped};
use crate::grammar::program;
use crate::imports::{events_of, fault_message, imports_of, located, locating, next_own, source_read, valid_alias};
use crate::request::{Anchor, AnswerModel, RequestModel};
use crate::running::{meeting, viewing};
use crate::state::{FlowModel, FocusModel, FrameModel, HaltModel, ImportModel, MachineModel, WaitModel};
use crate::steps::step;
use crate::strings::occurs_at;
use crate::table::lookup;
use vstd::prelude::*;

verus! {

/// Whether the machine waits for this of its host.
pub open spec fn waits_for(t: MachineModel, q: RequestModel) -> bool {
    t.focus == FocusModel::Await(WaitModel::Request(q))
}

/// A path that starts with `@/` is one of the project, one that starts with `/` one of the
/// file system, and every other one starts where the importing file is.
pub proof fn paths_are_anchored(s: MachineModel, directory: Seq<char>, path: Seq<char>, run: bool)
    ensures
        waits_for(
            locating(s, directory, seq!['@', '/'] + path, run),
            RequestModel::Locate { anchor: Anchor::ProjectRoot, importer: directory, path },
        ),
        waits_for(
            locating(s, directory, seq!['/'] + path, run),
            RequestModel::Locate { anchor: Anchor::FileSystem, importer: directory, path: seq!['/'] + path },
        ),
        path.len() == 0 || path[0] != '/' && (path.len() < 2 || path[0] != '@' || path[1] != '/') ==> waits_for(
            locating(s, directory, path, run),
            RequestModel::Locate { anchor: Anchor::Importer, importer: directory, path },
        ),
{
    reveal_strlit("@/");
    reveal_strlit("/");
    let home = seq!['@', '/'] + path;
    let root = seq!['/'] + path;
    assert("@/"@[0] == '@' && "@/"@[1] == '/' && "/"@[0] == '/');
    assert(home.subrange(0, 2) =~= "@/"@);
    assert(home.subrange(2, home.len() as int) =~= path);
    assert(root.subrange(0, 1) =~= "/"@);
    if occurs_at(root, "@/"@, 0) {
        assert(root.subrange(0, 2)[0] == '@');
    }
    if occurs_at(path, "@/"@, 0) {
        assert(path.subrange(0, 2)[0] == '@' && path.subrange(0, 2)[1] == '/');
    }
    if occurs_at(path, "/"@, 0) {
        assert(path.subrange(0, 1)[0] == '/');
    }
}

/// Whether a character is a letter or an underscore.
pub open spec fn is_letter(c: char) -> bool {
    ('a' <= c && c <= 'z') || ('A' <= c && c <= 'Z') || c == '_'
}

/// A file that is new is read under the name of its stem, which has to be a name: a letter or
/// an underscore, and then letters, underscores and digits. A name that is taken, or none at
/// all, ends the run.
pub proof fn new_files_are_read(
    s: MachineModel,
    directory: Seq<char>,
    raw: Seq<char>,
    run: bool,
    canonical: Seq<char>,
    home: Seq<char>,
    alias: Seq<char>,
)
    requires
        !s.rt.loading.contains(canonical),
        lookup(s.rt.canonical_to_alias, canonical) is None,
    ensures
        ({
            let t = located(
                s,
                directory,
                raw,
                run,
                AnswerModel::Located { canonical, directory: home, stem: Some(alias) },
            );
            let fit = alias.len() > 0 && is_letter(alias[0]) && forall|i: int|
                0 < i < alias.len() ==> is_letter(#[trigger] alias[i]) || ('0' <= alias[i] && alias[i] <= '9');
            &&& fit && lookup(s.rt.modules, alias) is None ==> t == meeting(
                s,
                FrameModel::Reading { canonical, directory: home, alias, run },
                FocusModel::Await(WaitModel::Request(RequestModel::ReadSource(canonical))),
            )
            &&& !fit || lookup(s.rt.modules, alias) is Some ==> t.focus is Abort && t.rt == s.rt
        }),
        located(s, directory, raw, run, AnswerModel::Located { canonical, directory: home, stem: None }).focus is Abort,
{
    assert(valid_alias(alias) <==> alias.len() > 0 && is_letter(alias[0]) && forall|i: int|
        0 < i < alias.len() ==> is_letter(#[trigger] alias[i]) || ('0' <= alias[i] && alias[i] <= '9'));
}

/// A file that cannot be found or read ends the run, and nothing has changed.
pub proof fn missing_files_end_the_run(
    s: MachineModel,
    directory: Seq<char>,
    raw: Seq<char>,
    run: bool,
    why: Seq<char>,
    canonical: Seq<char>,
    alias: Seq<char>,
)
    ensures
        ends_with(located(s, directory, raw, run, AnswerModel::Failed(why)), s, why),
        located(s, directory, raw, run, AnswerModel::Nothing).focus is Abort,
        ends_with(source_read(s, canonical, directory, alias, run, AnswerModel::Failed(why)), s, why),
{
}

/// Whether the run ends for this reason, with nothing else changed.
pub open spec fn ends_with(t: MachineModel, s: MachineModel, why: Seq<char>) -> bool {
    &&& t.focus matches FocusModel::Abort(HaltModel::Message(m)) && m.len() > 0 && m.last() == PieceModel::Text(why)
    &&& t.stack == s.stack
    &&& t.scope == s.scope
    &&& t.rt == s.rt
}

/// A file counts as being loaded before its own imports are located, and those come before
/// its statements.
pub proof fn files_load_their_imports_first(
    s: MachineModel,
    canonical: Seq<char>,
    directory: Seq<char>,
    alias: Seq<char>,
    run: bool,
    source: Seq<char>,
    statements: Seq<StatementModel>,
)
    requires
        program(source) is Ok,
        program(source)->Ok_0.statements == statements,
    ensures
        ({
            let t = source_read(s, canonical, directory, alias, run, AnswerModel::Text(source));
            let list = imports_of(statements, statements.len() as int);
            let m = ImportModel { canonical, alias, run, statements, next: 0, saved: s.scope };
            &&& t.rt.loading == s.rt.loading.push(canonical)
            &&& t.scope == s.scope
            &&& list.len() == 0 ==> t.stack == s.stack.push(FrameModel::Import(m)) && t.focus == FocusModel::Value(
                ValueModel::Null,
            )
            &&& list.len() > 0 ==> t.stack.len() == s.stack.len() + 3 && t.stack[s.stack.len() as int]
                == FrameModel::Import(m) && t.focus is Await
        }),
{
}

/// The statements of a module run in a scope of their own, which is empty at first.
pub proof fn modules_have_their_own_scope(s: MachineModel, m: ImportModel, v: ValueModel, k: int)
    requires
        0 <= m.next <= m.statements.len(),
        comes_next(m.statements, true, m.next, k),
    ensures
        ({
            let t = step(meeting(s, FrameModel::Import(m), FocusModel::Value(v)));
            &&& t.scope.cur == m.alias
            &&& t.scope.env.len() == 0
            &&& t.scope.types.len() == 0
            &&& t.focus == FocusModel::Exec(m.statements[k])
        }),
{
    assert(s.stack.push(FrameModel::Import(m)).drop_last() =~= s.stack);
    lemma_next_own(m.statements, true, m.next);
    assert(next_own(m.statements, true, m.next) == k) by {
        let e = next_own(m.statements, true, m.next);
        if e < k {
            assert(m.statements[e] is Declare || m.statements[e] is Event);
        } else if k < e {
            assert(m.statements[k] is Declare || m.statements[k] is Event);
        }
    }
}

/// A text that cannot be parsed ends the run with its complaint.
pub proof fn broken_files_end_the_run(
    s: MachineModel,
    canonical: Seq<char>,
    directory: Seq<char>,
    alias: Seq<char>,
    run: bool,
    source: Seq<char>,
)
    ensures
        program(source) matches Err(error) ==> source_read(
            s,
            canonical,
            directory,
            alias,
            run,
            AnswerModel::Text(source),
        ) == viewing(s, FocusModel::Abort(HaltModel::Parse { canonical, error })),
{
}

proof fn lemma_imports(a: Seq<StatementModel>, b: Seq<StatementModel>, n: int)
    requires
        0 <= n <= a.len(),
        n <= b.len(),
        forall|i: int| 0 <= i < n ==> a[i] == b[i],
    ensures
        imports_of(a, n) == imports_of(b, n),
        events_of(a, n) == events_of(b, n),
    decreases n,
{
    if n > 0 {
        lemma_imports(a, b, n - 1);
        assert(a[n - 1] == b[n - 1]);
    }
}

/// The imports of a file are its `declare`s and its starts its event blocks, both in the order
/// in which they stand.
pub proof fn imports_and_events_keep_their_order(statements: Seq<StatementModel>, st: StatementModel)
    ensures
        ({
            let n = statements.len() as int;
            let all = statements.push(st);
            &&& imports_of(seq![], 0) == Seq::<(Seq<char>, bool)>::empty()
            &&& events_of(seq![], 0) == Seq::<StatementModel>::empty()
            &&& st matches StatementModel::Declare { path, run } ==> imports_of(all, n + 1) == imports_of(
                statements,
                n,
            ).push((path, run))
            &&& !(st is Declare) ==> imports_of(all, n + 1) == imports_of(statements, n)
            &&& st is Event ==> events_of(all, n + 1) == events_of(statements, n).push(st)
            &&& !(st is Event) ==> events_of(all, n + 1) == events_of(statements, n)
        }),
{
    let n = statements.len() as int;
    let all = statements.push(st);
    lemma_imports(all, statements, n);
    assert(all[n] == st);
}

/// The imports of a file are located one after the other.
pub proof fn imports_are_located_in_order(
    s: MachineModel,
    list: Seq<(Seq<char>, bool)>,
    next: int,
    directory: Seq<char>,
    v: ValueModel,
)
    requires
        0 <= next <= list.len(),
    ensures
        ({
            let t = step(meeting(s, FrameModel::Declares { list, next, directory }, FocusModel::Value(v)));
            &&& next < list.len() ==> t == locating(
                meeting(s, FrameModel::Declares { list, next: next + 1, directory }, FocusModel::Done),
                directory,
                list[next].0,
                list[next].1,
            )
            &&& next == list.len() ==> t == viewing(s, FocusModel::Value(ValueModel::Null))
        }),
{
    assert(s.stack.push(FrameModel::Declares { list, next, directory }).drop_last() =~= s.stack);
}

proof fn lemma_next_own(statements: Seq<StatementModel>, module: bool, i: int)
    requires
        0 <= i <= statements.len(),
    ensures
        i <= next_own(statements, module, i) <= statements.len(),
        forall|k: int|
            i <= k < next_own(statements, module, i) ==> (#[trigger] statements[k]) is Declare || module
                && statements[k] is Event,
        next_own(statements, module, i) < statements.len() ==> !(statements[next_own(statements, module, i)] is Declare)
            && !(module && statements[next_own(statements, module, i)] is Event),
    decreases statements.len() - i,
{
    if i < statements.len() && (statements[i] is Declare || module && statements[i] is Event) {
        lemma_next_own(statements, module, i + 1);
    }
}

/// Whether `k` is the next statement from `i` on that the file runs itself.
pub open spec fn comes_next(statements: Seq<StatementModel>, module: bool, i: int, k: int) -> bool {
    &&& i <= k < statements.len()
    &&& !(statements[k] is Declare) && !(module && statements[k] is Event)
    &&& forall|m: int| i <= m < k ==> (#[trigger] statements[m]) is Declare || module && statements[m] is Event
}

/// A file runs its statements in order, without its imports; a module runs them without its
/// event blocks, which come when it starts. A statement that ends with a jump ends the run.
pub proof fn files_run_their_statements(
    s: MachineModel,
    statements: Seq<StatementModel>,
    next: int,
    k: int,
    m: ImportModel,
    f: FlowModel,
)
    requires
        0 <= next <= statements.len(),
        m.statements == statements,
        m.next == next,
    ensures
        comes_next(statements, false, next, k) ==> step(
            meeting(s, FrameModel::Entry { statements, next }, FocusModel::Flow(FlowModel::Normal)),
        ) == meeting(s, FrameModel::Entry { statements, next: k + 1 }, FocusModel::Exec(statements[k])),
        comes_next(statements, true, next, k) ==> step(
            meeting(s, FrameModel::Module(m), FocusModel::Flow(FlowModel::Normal)),
        ) == meeting(s, FrameModel::Module(ImportModel { next: k + 1, ..m }), FocusModel::Exec(statements[k])),
        (forall|i: int| next <= i < statements.len() ==> (#[trigger] statements[i]) is Declare) ==> step(
            meeting(s, FrameModel::Entry { statements, next }, FocusModel::Flow(FlowModel::Normal)),
        ).focus is Done,
        !(f is Normal) ==> step(meeting(s, FrameModel::Entry { statements, next }, FocusModel::Flow(f))).focus is Abort
            && step(meeting(s, FrameModel::Module(m), FocusModel::Flow(f))).focus is Abort,
{
    lemma_next_own(statements, false, next);
    lemma_next_own(statements, true, next);
    assert(s.stack.push(FrameModel::Entry { statements, next }).drop_last() =~= s.stack);
    assert(s.stack.push(FrameModel::Module(m)).drop_last() =~= s.stack);
    if comes_next(statements, false, next, k) {
        assert(next_own(statements, false, next) == k) by {
            let e = next_own(statements, false, next);
            if e < k {
                assert(statements[e] is Declare);
            } else if k < e {
                assert(statements[k] is Declare);
            }
        }
    }
    if comes_next(statements, true, next, k) {
        assert(next_own(statements, true, next) == k) by {
            let e = next_own(statements, true, next);
            if e < k {
                assert(statements[e] is Declare || statements[e] is Event);
            } else if k < e {
                assert(statements[k] is Declare || statements[k] is Event);
            }
        }
    }
    if forall|i: int| next <= i < statements.len() ==> (#[trigger] statements[i]) is Declare {
        let e = next_own(statements, false, next);
        if e < statements.len() {
            assert(statements[e] is Declare);
        }
    }
}

/// A run starts with an empty scope of the file `__main__`, with no modules, no open databases
/// and no widgets, and with the file itself as the only one that is being loaded.
pub proof fn runs_start_fresh(source: Seq<char>, directory: Seq<char>, canonical: Seq<char>)
    ensures
        program(source) matches Err(e) ==> source_run(source, directory, Some(canonical)) == Err::<MachineModel, _>(e),
        program(source) is Ok ==> (source_run(source, directory, Some(canonical)) matches Ok(t) && {
            &&& t.scope.cur == "__main__"@
            &&& t.scope.env.len() == 0
            &&& t.scope.types.len() == 0
            &&& t.rt.modules.len() == 0
            &&& t.rt.loading == seq![canonical]
            &&& t.rt.call_depth == 0
            &&& t.rt.db_open.len() == 0
            &&& t.rt.gui.len() == 0
            &&& !t.rt.gui_running
        }),
{
}

/// A chunk of a session is run as a file whose first line is the header.
pub proof fn chunks_get_a_header(chunk: Seq<char>)
    ensures
        wrapped(chunk) == "[SCRIPTTYPE KALVITA VERSION 1]\n"@ + chunk + seq!['\n'],
{
    reveal_strlit("\n");
    assert("\n"@ =~= seq!['\n']);
}

/// What is said of an error that nothing caught names its type and its message; a fatal fault
/// speaks for itself.
pub proof fn uncaught_errors_are_told(error_type: Seq<char>, message: Seq<char>)
    ensures
        fault_message(FaultModel::Throw(ValueModel::Error { error_type, message })) == seq![
            PieceModel::Text("Uncaught "@),
            PieceModel::Text(error_type),
            PieceModel::Text(": "@),
            PieceModel::Text(message),
        ],
        fault_message(FaultModel::Fatal(message)) == seq![PieceModel::Text(message)],
{
}

/// An error that nothing caught ends the run of the file, with what is said of it.
pub proof fn uncaught_errors_end_the_run(s: MachineModel, statements: Seq<StatementModel>, next: int, f: FaultModel)
    ensures
        step(meeting(s, FrameModel::Entry { statements, next }, FocusModel::Fault(f))) == viewing(
            s,
            FocusModel::Abort(HaltModel::Message(fault_message(f))),
        ),
{
    assert(s.stack.push(FrameModel::Entry { statements, next }).drop_last() =~= s.stack);
}

} // verus!
