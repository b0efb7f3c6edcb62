//! How modules are found, loaded and started.

use crate::ast::{
    block, copy_texts, text_opt, texts, Program, ProgramModel, Statement, StatementModel, Value, ValueModel,
};
use crate::draft::{
    debug, pieces, text, text_1, text_2, text_3, text_4, text_5, text_6, FaultModel, Piece, PieceModel, RuntimeFault,
};
use crate::grammar::program;
use crate::parser::Parser;
use crate::request::{Anchor, Answer, AnswerModel, Request, RequestModel};
use crate::runtime::{
    empty_module, empty_scope, ensured, merged_env, merged_types, module_of, snapshot, with_module, written_back,
    LoadedModule, ModuleModel, RuntimeModel, Scope, ScopeModel,
};
use crate::semantics::{asking, focused, given, pushed};
use crate::state::{
    declare_list, Flow, FlowModel, Focus, FocusModel, Frame, FrameModel, Halt, HaltModel, Import, ImportModel, Machine,
    MachineModel,
};
use crate::strings::{joined_by, occurs_at, str_join, str_starts_with};
use crate::table::{get_text, has_text, lookup, put, store_text};
use crate::text::{chars_of, string_of};
use vstd::prelude::*;

verus! {

pub open spec fn alias_start(c: char) -> bool {
    'a' <= c <= 'z' || 'A' <= c <= 'Z' || c == '_'
}

/// Whether a name can stand before the colon of a module access.
pub open spec fn valid_alias(name: Seq<char>) -> bool {
    &&& name.len() > 0
    &&& alias_start(name[0])
    &&& forall|i: int| 0 < i < name.len() ==> alias_start(#[trigger] name[i]) || '0' <= name[i] <= '9'
}

pub open spec fn halted(s: MachineModel, message: Seq<PieceModel>) -> MachineModel {
    focused(s, FocusModel::Abort(HaltModel::Message(message)))
}

/// What is said of an error that nothing caught.
pub open spec fn uncaught(v: ValueModel) -> Seq<PieceModel> {
    match v {
        ValueModel::Error { error_type, message } => seq![
            PieceModel::Text("Uncaught "@),
            PieceModel::Text(error_type),
            PieceModel::Text(": "@),
            PieceModel::Text(message),
        ],
        other => seq![PieceModel::Text("Uncaught error: "@), PieceModel::Debug(other)],
    }
}

pub open spec fn fault_message(f: FaultModel) -> Seq<PieceModel> {
    match f {
        FaultModel::Fatal(m) => seq![PieceModel::Text(m)],
        FaultModel::Throw(v) => uncaught(v),
    }
}

pub open spec fn in_module(path: Seq<char>, message: Seq<PieceModel>) -> Seq<PieceModel> {
    seq![PieceModel::Text("Module error: '"@), PieceModel::Text(path), PieceModel::Text("': "@)] + message
}

/// What a statement that ends out of place is told; `None` if it ended well.
pub open spec fn stray(f: FlowModel) -> Option<Seq<PieceModel>> {
    match f {
        FlowModel::Normal => None,
        FlowModel::Break => Some(seq![PieceModel::Text("break outside loop"@)]),
        FlowModel::Continue => Some(seq![PieceModel::Text("continue outside loop"@)]),
        FlowModel::Return(_) => Some(seq![PieceModel::Text("return can only be used inside a function body"@)]),
    }
}

/// The imports among the first `n` statements.
pub open spec fn imports_of(statements: Seq<StatementModel>, n: int) -> Seq<(Seq<char>, bool)>
    decreases n,
{
    if n <= 0 || n > statements.len() {
        seq![]
    } else {
        match statements[n - 1] {
            StatementModel::Declare { path, run } => imports_of(statements, n - 1).push((path, run)),
            _ => imports_of(statements, n - 1),
        }
    }
}

/// The event blocks among the first `n` statements.
pub open spec fn events_of(statements: Seq<StatementModel>, n: int) -> Seq<StatementModel>
    decreases n,
{
    if n <= 0 || n > statements.len() {
        seq![]
    } else if statements[n - 1] is Event {
        events_of(statements, n - 1).push(statements[n - 1])
    } else {
        events_of(statements, n - 1)
    }
}

/// The first statement from `i` on that is no import and, in a module, no event
/// block.
pub open spec fn next_own(statements: Seq<StatementModel>, module: bool, i: int) -> int
    decreases statements.len() - i,
{
    if 0 <= i < statements.len() && (statements[i] is Declare || module && statements[i] is Event) {
        next_own(statements, module, i + 1)
    } else {
        i
    }
}

// The imports of a file, one after the other.
pub open spec fn declares_step(
    s: MachineModel,
    list: Seq<(Seq<char>, bool)>,
    next: int,
    directory: Seq<char>,
) -> MachineModel {
    if next < list.len() {
        locating(
            pushed(s, FrameModel::Declares { list, next: next + 1, directory }),
            directory,
            list[next].0,
            list[next].1,
        )
    } else {
        given(s, ValueModel::Null)
    }
}

pub open spec fn anchor_of(raw: Seq<char>) -> Anchor {
    if occurs_at(raw, "@/"@, 0) {
        Anchor::ProjectRoot
    } else if occurs_at(raw, "/"@, 0) {
        Anchor::FileSystem
    } else {
        Anchor::Importer
    }
}

/// The path behind the anchor.
pub open spec fn anchored_path(raw: Seq<char>) -> Seq<char> {
    if anchor_of(raw) is ProjectRoot {
        raw.subrange(2, raw.len() as int)
    } else {
        raw
    }
}

pub open spec fn locating(s: MachineModel, directory: Seq<char>, raw: Seq<char>, run: bool) -> MachineModel {
    asking(
        pushed(s, FrameModel::Locating { directory, raw, run }),
        RequestModel::Locate { anchor: anchor_of(raw), importer: directory, path: anchored_path(raw) },
    )
}

/// Where an import is: a cycle is refused, a module that is there already is
/// not loaded again, and the others are read.
pub open spec fn located(
    s: MachineModel,
    directory: Seq<char>,
    raw: Seq<char>,
    run: bool,
    a: AnswerModel,
) -> MachineModel {
    match a {
        AnswerModel::Located { canonical, directory: home, stem } => if s.rt.loading.contains(canonical) {
            halted(
                s,
                seq![
                    PieceModel::Text("Module error: circular import: "@),
                    PieceModel::Text(joined_by(s.rt.loading.push(canonical), " -> "@)),
                ],
            )
        } else {
            match lookup(s.rt.canonical_to_alias, canonical) {
                Some(existing) => if run {
                    started(s, existing, s.scope, false)
                } else {
                    given(s, ValueModel::Null)
                },
                None => aliased(s, canonical, home, stem, run),
            }
        },
        AnswerModel::Nothing => halted(
            s,
            seq![
                PieceModel::Text("Module error: '@/...' needs a kal.toml project root (imported from '"@),
                PieceModel::Text(directory),
                PieceModel::Text("')"@),
            ],
        ),
        AnswerModel::Failed(e) => halted(
            s,
            seq![
                PieceModel::Text("Module error: cannot load '"@),
                PieceModel::Text(raw),
                PieceModel::Text("' (imported from '"@),
                PieceModel::Text(directory),
                PieceModel::Text("'): "@),
                PieceModel::Text(e),
            ],
        ),
        _ => halted(s, seq![PieceModel::Text("Module error: no answer"@)]),
    }
}

/// A new module needs a name of its own.
pub open spec fn aliased(
    s: MachineModel,
    canonical: Seq<char>,
    home: Seq<char>,
    stem: Option<Seq<char>>,
    run: bool,
) -> MachineModel {
    match stem {
        Some(alias) => if !valid_alias(alias) {
            halted(s, no_alias(canonical))
        } else if lookup(s.rt.modules, alias) is Some {
            halted(
                s,
                seq![
                    PieceModel::Text("Module error: duplicate module alias '"@),
                    PieceModel::Text(alias),
                    PieceModel::Text("' from '"@),
                    PieceModel::Text(canonical),
                    PieceModel::Text("'"@),
                ],
            )
        } else {
            asking(
                pushed(s, FrameModel::Reading { canonical, directory: home, alias, run }),
                RequestModel::ReadSource(canonical),
            )
        },
        None => halted(s, no_alias(canonical)),
    }
}

pub open spec fn no_alias(canonical: Seq<char>) -> Seq<PieceModel> {
    seq![
        PieceModel::Text("Module error: cannot derive module alias from '"@),
        PieceModel::Text(canonical),
        PieceModel::Text("': file stem must match [A-Za-z_][A-Za-z0-9_]*"@),
    ]
}

/// The runtime with a module whose loading begins.
pub open spec fn loading(rt: RuntimeModel, canonical: Seq<char>, alias: Seq<char>, p: ProgramModel) -> RuntimeModel {
    RuntimeModel {
        loading: rt.loading.push(canonical),
        canonical_to_alias: put(rt.canonical_to_alias, canonical, alias),
        ..with_module(rt, alias, ModuleModel { path: canonical, program: Some(p), ..empty_module() })
    }
}

/// The text of a module: its own imports are loaded first.
pub open spec fn source_read(
    s: MachineModel,
    canonical: Seq<char>,
    directory: Seq<char>,
    alias: Seq<char>,
    run: bool,
    a: AnswerModel,
) -> MachineModel {
    match a {
        AnswerModel::Text(source) => match program(source) {
            Err(error) => focused(s, FocusModel::Abort(HaltModel::Parse { canonical, error })),
            Ok(p) => declares_step(
                pushed(
                    MachineModel { rt: loading(s.rt, canonical, alias, p), ..s },
                    FrameModel::Import(
                        ImportModel { canonical, alias, run, statements: p.statements, next: 0, saved: s.scope },
                    ),
                ),
                imports_of(p.statements, p.statements.len() as int),
                0,
                directory,
            ),
        },
        AnswerModel::Failed(e) => halted(
            s,
            seq![
                PieceModel::Text("Module error: cannot read '"@),
                PieceModel::Text(canonical),
                PieceModel::Text("': "@),
                PieceModel::Text(e),
            ],
        ),
        _ => halted(s, seq![PieceModel::Text("Module error: no answer"@)]),
    }
}

/// The imports of a module are there: its own statements run in a scope of
/// their own.
pub open spec fn import_ready(s: MachineModel, m: ImportModel) -> MachineModel {
    module_step(MachineModel { scope: empty_scope(m.alias), ..s }, m)
}

/// The next statement of a module; when there is none, its locals are kept, and
/// its event blocks run if that was asked for.
pub open spec fn module_step(s: MachineModel, m: ImportModel) -> MachineModel {
    let i = next_own(m.statements, true, m.next);
    if i < m.statements.len() {
        focused(pushed(s, FrameModel::Module(ImportModel { next: i + 1, ..m })), FocusModel::Exec(m.statements[i]))
    } else {
        let t = MachineModel { rt: snapshot(s.rt, m.alias, s.scope.env, s.scope.types), ..s };
        if m.run {
            started(t, m.alias, m.saved, true)
        } else {
            left(t, m.saved, true)
        }
    }
}

/// Back to the file that asked for the module.
pub open spec fn left(s: MachineModel, saved: ScopeModel, loaded: bool) -> MachineModel {
    given(
        MachineModel {
            scope: saved,
            rt: if loaded {
                unloaded(s.rt)
            } else {
                s.rt
            },
            ..s
        },
        ValueModel::Null,
    )
}

pub open spec fn unloaded(rt: RuntimeModel) -> RuntimeModel {
    RuntimeModel {
        loading: if rt.loading.len() > 0 {
            rt.loading.drop_last()
        } else {
            rt.loading
        },
        ..rt
    }
}

/// The event blocks of a module, which run once, on its live tables.
pub open spec fn started(s: MachineModel, alias: Seq<char>, saved: ScopeModel, loaded: bool) -> MachineModel {
    match lookup(s.rt.modules, alias) {
        Some(m) => if m.onstart_executed {
            left(s, saved, loaded)
        } else {
            let scope = ScopeModel { env: merged_env(s.rt, alias), types: merged_types(s.rt, alias), cur: alias };
            let events = match m.program {
                Some(p) => events_of(p.statements, p.statements.len() as int),
                None => seq![],
            };
            events_step(MachineModel { scope, ..s }, alias, m.path, events, 0, saved, loaded)
        },
        None => left(s, saved, loaded),
    }
}

pub open spec fn events_step(
    s: MachineModel,
    alias: Seq<char>,
    path: Seq<char>,
    events: Seq<StatementModel>,
    next: int,
    saved: ScopeModel,
    loaded: bool,
) -> MachineModel {
    if next < events.len() {
        focused(
            pushed(s, FrameModel::Events { alias, path, events, next: next + 1, saved, loaded }),
            FocusModel::Exec(events[next]),
        )
    } else {
        left(MachineModel { rt: events_done(s.rt, alias, s.scope), ..s }, saved, loaded)
    }
}

/// The runtime after the event blocks of a module.
pub open spec fn events_done(rt: RuntimeModel, alias: Seq<char>, scope: ScopeModel) -> RuntimeModel {
    let m = module_of(rt, alias);
    let globals = written_back(m.globals, m.global_names, scope.env, m.global_names.len() as int);
    let kept = snapshot(with_module(rt, alias, ModuleModel { globals, ..m }), alias, scope.env, scope.types);
    with_module(kept, alias, ModuleModel { onstart_executed: true, ..module_of(kept, alias) })
}

/// A statement of a module ended.
pub open spec fn module_flowed(s: MachineModel, m: ImportModel, f: FlowModel) -> MachineModel {
    match stray(f) {
        None => module_step(s, m),
        Some(message) => module_halted(s, m, message),
    }
}

pub open spec fn module_halted(s: MachineModel, m: ImportModel, message: Seq<PieceModel>) -> MachineModel {
    halted(MachineModel { scope: m.saved, rt: unloaded(s.rt), ..s }, in_module(m.canonical, message))
}

// The file that is run.
/// The imports of the file are there: its own statements run.
pub open spec fn entry_ready(s: MachineModel, statements: Seq<StatementModel>) -> MachineModel {
    entry_step(MachineModel { rt: ensured(s.rt, s.scope.cur), ..s }, statements, 0)
}

pub open spec fn entry_step(s: MachineModel, statements: Seq<StatementModel>, next: int) -> MachineModel {
    let i = next_own(statements, false, next);
    if i < statements.len() {
        focused(pushed(s, FrameModel::Entry { statements, next: i + 1 }), FocusModel::Exec(statements[i]))
    } else {
        focused(
            MachineModel { rt: snapshot(s.rt, s.scope.cur, s.scope.env, s.scope.types), ..s },
            FocusModel::Done,
        )
    }
}

pub open spec fn entry_flowed(
    s: MachineModel,
    statements: Seq<StatementModel>,
    next: int,
    f: FlowModel,
) -> MachineModel {
    match stray(f) {
        None => entry_step(s, statements, next),
        Some(message) => halted(s, message),
    }
}

/// The run of a program in the scope at hand: first its imports, then its own
/// statements.
pub open spec fn program_run(s: MachineModel, statements: Seq<StatementModel>, directory: Seq<char>) -> MachineModel {
    declares_step(
        pushed(s, FrameModel::Entry { statements, next: 0 }),
        imports_of(statements, statements.len() as int),
        0,
        directory,
    )
}

/// Which of the directories, from the importing file upwards, is the project root:
/// the nearest one that holds the project file.
pub fn nearest_root(holds: &Vec<bool>) -> (r: Option<usize>)
    ensures
        match r {
            Some(i) => i < holds@.len() && holds@[i as int] && forall|k: int| 0 <= k < i ==> !holds@[k],
            None => forall|k: int| 0 <= k < holds@.len() ==> !holds@[k],
        },
{
    let mut i: usize = 0;
    while i < holds.len()
        invariant
            i <= holds@.len(),
            forall|k: int| 0 <= k < i ==> !holds@[k],
        decreases holds@.len() - i,
    {
        if holds[i] {
            return Some(i);
        }
        i = i + 1;
    }
    None
}

/// Whether a name can stand before the colon of a module access.
pub fn is_valid_alias(name: &str) -> (r: bool)
    ensures
        r == valid_alias(name@),
{
    let chars = chars_of(name);
    if chars.len() == 0 || !is_alias_start(chars[0]) {
        return false;
    }
    let mut i: usize = 1;
    while i < chars.len()
        invariant
            chars@ == name@,
            1 <= i <= chars@.len(),
            forall|k: int| 0 < k < i ==> alias_start(#[trigger] name@[k]) || '0' <= name@[k] <= '9',
        decreases chars@.len() - i,
    {
        if !is_alias_start(chars[i]) && !('0' <= chars[i] && chars[i] <= '9') {
            return false;
        }
        i = i + 1;
    }
    true
}

fn is_alias_start(c: char) -> (r: bool)
    ensures
        r == alias_start(c),
{
    ('a' <= c && c <= 'z') || ('A' <= c && c <= 'Z') || c == '_'
}

/// The alias of a module: the stem of its file.
pub fn alias_from_path(canonical: &str, stem: Option<String>) -> (r: Result<String, Vec<Piece>>)
    ensures
        match r {
            Ok(alias) => text_opt(stem) == Some(alias@) && valid_alias(alias@),
            Err(message) => !(stem is Some && valid_alias(stem->0@)) && pieces(message@) == no_alias(canonical@),
        },
{
    match stem {
        Some(alias) => {
            if is_valid_alias(alias.as_str()) {
                return Ok(alias);
            }
        },
        None => {},
    }
    Err(
        text_3(
            text("Module error: cannot derive module alias from '"),
            text(canonical),
            text("': file stem must match [A-Za-z_][A-Za-z0-9_]*"),
        ),
    )
}

/// What is said of an error that nothing caught.
pub fn uncaught_message(err: &Value) -> (r: Vec<Piece>)
    ensures
        pieces(r@) == uncaught(err@),
{
    match err {
        Value::Error { error_type, message } => text_4(
            text("Uncaught "),
            text(error_type.as_str()),
            text(": "),
            text(message.as_str()),
        ),
        other => text_2(text("Uncaught error: "), debug(other)),
    }
}

pub(crate) fn message_of(f: RuntimeFault) -> (r: Vec<Piece>)
    ensures
        pieces(r@) == fault_message(f@),
{
    match f {
        RuntimeFault::Fatal(m) => text_1(Piece::Text(m)),
        RuntimeFault::Throw(v) => uncaught_message(&v),
    }
}

pub(crate) fn name_module(path: &str, message: Vec<Piece>) -> (r: Vec<Piece>)
    ensures
        pieces(r@) == in_module(path@, pieces(message@)),
{
    let mut r = text_3(text("Module error: '"), text(path), text("': "));
    let ghost head = pieces(r@);
    let ghost tail = pieces(message@);
    let mut message = message;
    let ghost whole = message@;
    r.append(&mut message);
    assert(pieces(r@) =~= head + tail);
    r
}

fn find_stray(f: Flow) -> (r: Option<Vec<Piece>>)
    ensures
        match r {
            Some(m) => stray(f@) == Some(pieces(m@)),
            None => stray(f@) is None,
        },
{
    match f {
        Flow::Normal => None,
        Flow::Break => Some(text_1(text("break outside loop"))),
        Flow::Continue => Some(text_1(text("continue outside loop"))),
        Flow::Return(_) => Some(text_1(text("return can only be used inside a function body"))),
    }
}

fn find_imports(statements: &Vec<Statement>) -> (r: Vec<(String, bool)>)
    ensures
        declare_list(r@) == imports_of(block(statements@), statements@.len() as int),
{
    let ghost model = block(statements@);
    assert(model.len() == statements@.len());
    let mut r: Vec<(String, bool)> = Vec::new();
    assert(declare_list(r@) =~= seq![]);
    let mut i: usize = 0;
    while i < statements.len()
        invariant
            i <= statements@.len(),
            model == block(statements@),
            model.len() == statements@.len(),
            declare_list(r@) == imports_of(model, i as int),
        decreases statements@.len() - i,
    {
        let ghost before = declare_list(r@);
        assert(model[i as int] == statements@[i as int]@);
        match &statements[i] {
            Statement::Declare { path, run } => {
                r.push((path.clone(), *run));
                assert(declare_list(r@) =~= before.push((path@, *run)));
            },
            _ => {},
        }
        i = i + 1;
    }
    r
}

fn find_events(statements: &Vec<Statement>) -> (r: Vec<Statement>)
    ensures
        block(r@) == events_of(block(statements@), statements@.len() as int),
{
    let ghost model = block(statements@);
    assert(model.len() == statements@.len());
    let mut r: Vec<Statement> = Vec::new();
    assert(block(r@) =~= seq![]);
    let mut i: usize = 0;
    while i < statements.len()
        invariant
            i <= statements@.len(),
            model == block(statements@),
            model.len() == statements@.len(),
            block(r@) == events_of(model, i as int),
        decreases statements@.len() - i,
    {
        let ghost before = block(r@);
        assert(model[i as int] == statements@[i as int]@);
        match &statements[i] {
            Statement::Event { .. } => {
                r.push(statements[i].copy());
                assert(block(r@) =~= before.push(model[i as int]));
            },
            _ => {},
        }
        i = i + 1;
    }
    r
}

fn find_next_own(statements: &Vec<Statement>, module: bool, from: usize) -> (r: usize)
    ensures
        r as int == next_own(block(statements@), module, from as int),
{
    let ghost model = block(statements@);
    assert(model.len() == statements@.len());
    let mut i: usize = from;
    while i < statements.len()
        invariant
            model == block(statements@),
            model.len() == statements@.len(),
            next_own(model, module, i as int) == next_own(model, module, from as int),
        decreases statements@.len() - i,
    {
        assert(model[i as int] == statements@[i as int]@);
        let skipped = match &statements[i] {
            Statement::Declare { .. } => true,
            Statement::Event { .. } => module,
            _ => false,
        };
        if !skipped {
            return i;
        }
        i = i + 1;
    }
    i
}

fn find_anchor(raw: &str) -> (r: (Anchor, String))
    ensures
        r.0 == anchor_of(raw@),
        r.1@ == anchored_path(raw@),
{
    if str_starts_with(raw, "@/") {
        let chars = chars_of(raw);
        assert("@/"@.len() == 2) by {
            reveal_strlit("@/");
        }
        (Anchor::ProjectRoot, string_of(&chars, 2, chars.len()))
    } else if str_starts_with(raw, "/") {
        (Anchor::FileSystem, raw.to_string())
    } else {
        (Anchor::Importer, raw.to_string())
    }
}

impl Machine {
    pub(crate) fn halt(&mut self, message: Vec<Piece>)
        ensures
            final(self)@ == halted(old(self)@, pieces(message@)),
    {
        self.turn(Focus::Abort(Halt::Message(message)));
    }

    pub(crate) fn declares_on(&mut self, list: Vec<(String, bool)>, next: usize, directory: String)
        ensures
            final(self)@ == declares_step(old(self)@, declare_list(list@), next as int, directory@),
    {
        if next < list.len() {
            let raw = list[next].0.clone();
            let run = list[next].1;
            let home = directory.clone();
            self.push(Frame::Declares { list, next: next + 1, directory });
            self.declare_module(home, raw, run);
        } else {
            self.give(Value::Null);
        }
    }

    /// Asks where an import is.
    pub fn declare_module(&mut self, directory: String, raw: String, run: bool)
        ensures
            final(self)@ == locating(old(self)@, directory@, raw@, run),
    {
        let (anchor, path) = find_anchor(raw.as_str());
        let importer = directory.clone();
        self.push(Frame::Locating { directory, raw, run });
        self.ask(Request::Locate { anchor, importer, path });
    }

    /// Takes the answer to where an import is.
    pub fn locate(&mut self, directory: String, raw: String, run: bool, a: Answer)
        ensures
            final(self)@ == located(old(self)@, directory@, raw@, run, a@),
    {
        match a {
            Answer::Located { canonical, directory: home, stem } => {
                if has_text(&self.rt.loading, canonical.as_str()) {
                    let mut chain = copy_texts(&self.rt.loading);
                    let ghost before = texts(chain@);
                    chain.push(canonical.clone());
                    assert(texts(chain@) =~= before.push(canonical@));
                    self.halt(
                        text_2(
                            text("Module error: circular import: "),
                            Piece::Text(str_join(&chain, " -> ")),
                        ),
                    );
                } else {
                    match get_text(&self.rt.canonical_to_alias, canonical.as_str()) {
                        Some(existing) => {
                            if run {
                                let saved = self.scope.copy();
                                self.run_module_onstart(existing, saved, false);
                            } else {
                                self.give(Value::Null);
                            }
                        },
                        None => self.name_import(canonical, home, stem, run),
                    }
                }
            },
            Answer::Nothing => self.halt(
                text_3(
                    text("Module error: '@/...' needs a kal.toml project root (imported from '"),
                    text(directory.as_str()),
                    text("')"),
                ),
            ),
            Answer::Failed(e) => self.halt(
                text_6(
                    text("Module error: cannot load '"),
                    text(raw.as_str()),
                    text("' (imported from '"),
                    text(directory.as_str()),
                    text("'): "),
                    text(e.as_str()),
                ),
            ),
            _ => self.halt(text_1(text("Module error: no answer"))),
        }
    }

    fn name_import(&mut self, canonical: String, home: String, stem: Option<String>, run: bool)
        ensures
            final(self)@ == aliased(old(self)@, canonical@, home@, text_opt(stem), run),
    {
        match alias_from_path(canonical.as_str(), stem) {
            Err(message) => self.halt(message),
            Ok(alias) => {
                if self.rt.module(alias.as_str()).is_some() {
                    self.halt(
                        text_5(
                            text("Module error: duplicate module alias '"),
                            text(alias.as_str()),
                            text("' from '"),
                            text(canonical.as_str()),
                            text("'"),
                        ),
                    );
                } else {
                    let path = canonical.clone();
                    self.push(Frame::Reading { canonical, directory: home, alias, run });
                    self.ask(Request::ReadSource(path));
                }
            },
        }
    }

    /// Loads a module from its text.
    pub(crate) fn load_module(&mut self, canonical: String, directory: String, alias: String, run: bool, a: Answer)
        ensures
            final(self)@ == source_read(old(self)@, canonical@, directory@, alias@, run, a@),
    {
        match a {
            Answer::Text(source) => match Parser::parse(source.as_str()) {
                Err(error) => self.turn(Focus::Abort(Halt::Parse { canonical, error })),
                Ok(p) => {
                    let list = find_imports(&p.statements);
                    assert(block(p.statements@).len() == p.statements@.len());
                    self.begin_loading(&canonical, &alias, p.copy());
                    let saved = self.scope.copy();
                    self.push(
                        Frame::Import(Import { canonical, alias, run, statements: p.statements, next: 0, saved }),
                    );
                    self.declares_on(list, 0, directory);
                },
            },
            Answer::Failed(e) => self.halt(
                text_4(
                    text("Module error: cannot read '"),
                    text(canonical.as_str()),
                    text("': "),
                    text(e.as_str()),
                ),
            ),
            _ => self.halt(text_1(text("Module error: no answer"))),
        }
    }

    fn begin_loading(&mut self, canonical: &String, alias: &String, p: Program)
        ensures
            final(self)@ == (MachineModel { rt: loading(old(self)@.rt, canonical@, alias@, p@), ..old(self)@ }),
    {
        let ghost before = texts(self.rt.loading@);
        self.rt.loading.push(canonical.clone());
        assert(texts(self.rt.loading@) =~= before.push(canonical@));
        store_text(&mut self.rt.canonical_to_alias, canonical.clone(), alias.clone());
        let mut m = LoadedModule::empty();
        m.path = canonical.clone();
        m.program = Some(p);
        self.rt.place_module(alias.as_str(), m);
    }

    pub(crate) fn start_import(&mut self, m: Import)
        ensures
            final(self)@ == import_ready(old(self)@, m@),
    {
        self.scope = Scope::new(m.alias.as_str());
        self.module_on(m);
    }

    pub(crate) fn module_on(&mut self, m: Import)
        ensures
            final(self)@ == module_step(old(self)@, m@),
    {
        let mut m = m;
        assert(block(m.statements@).len() == m.statements@.len());
        let i: usize = find_next_own(&m.statements, true, m.next);
        if i < m.statements.len() {
            let st = m.statements[i].copy();
            m.next = i + 1;
            self.push(Frame::Module(m));
            self.turn(Focus::Exec(st));
        } else {
            self.rt.snapshot_top_locals(m.alias.as_str(), &self.scope.env, &self.scope.types);
            if m.run {
                self.run_module_onstart(m.alias, m.saved, true);
            } else {
                self.leave(m.saved, true);
            }
        }
    }

    fn leave(&mut self, saved: Scope, loaded: bool)
        ensures
            final(self)@ == left(old(self)@, saved@, loaded),
    {
        self.scope = saved;
        if loaded {
            self.end_loading();
        }
        self.give(Value::Null);
    }

    fn end_loading(&mut self)
        ensures
            final(self)@ == (MachineModel { rt: unloaded(old(self)@.rt), ..old(self)@ }),
    {
        let ghost before = texts(self.rt.loading@);
        let _last = self.rt.loading.pop();
        assert(before.len() > 0 ==> texts(self.rt.loading@) =~= before.drop_last());
        assert(before.len() == 0 ==> texts(self.rt.loading@) =~= before);
    }

    /// Runs the event blocks of a module, once.
    fn run_module_onstart(&mut self, alias: String, saved: Scope, loaded: bool)
        ensures
            final(self)@ == started(old(self)@, alias@, saved@, loaded),
    {
        let found = match self.rt.module(alias.as_str()) {
            Some(m) => {
                if m.onstart_executed {
                    None
                } else {
                    let events = match &m.program {
                        Some(p) => {
                            assert(block(p.statements@).len() == p.statements@.len());
                            find_events(&p.statements)
                        },
                        None => {
                            let none: Vec<Statement> = Vec::new();
                            assert(block(none@) =~= seq![]);
                            none
                        },
                    };
                    Some((m.path.clone(), events))
                }
            },
            None => None,
        };
        match found {
            Some((path, events)) => {
                let env = self.rt.module_merged_env(alias.as_str());
                let types = self.rt.module_merged_types(alias.as_str());
                self.scope = Scope { env, types, cur: alias.clone() };
                self.events_on(alias, path, events, 0, saved, loaded);
            },
            None => self.leave(saved, loaded),
        }
    }

    pub(crate) fn events_on(
        &mut self,
        alias: String,
        path: String,
        events: Vec<Statement>,
        next: usize,
        saved: Scope,
        loaded: bool,
    )
        ensures
            final(self)@ == events_step(old(self)@, alias@, path@, block(events@), next as int, saved@, loaded),
    {
        assert(block(events@).len() == events@.len());
        if next < events.len() {
            let st = events[next].copy();
            self.push(Frame::Events { alias, path, events, next: next + 1, saved, loaded });
            self.turn(Focus::Exec(st));
        } else {
            self.rt.write_back(alias.as_str(), &self.scope.env);
            self.rt.snapshot_top_locals(alias.as_str(), &self.scope.env, &self.scope.types);
            self.rt.mark_started(alias.as_str());
            self.leave(saved, loaded);
        }
    }

    pub(crate) fn module_flow(&mut self, m: Import, f: Flow)
        ensures
            final(self)@ == module_flowed(old(self)@, m@, f@),
    {
        match find_stray(f) {
            None => self.module_on(m),
            Some(message) => self.halt_module(m, message),
        }
    }

    pub(crate) fn halt_module(&mut self, m: Import, message: Vec<Piece>)
        ensures
            final(self)@ == module_halted(old(self)@, m@, pieces(message@)),
    {
        self.scope = m.saved;
        self.end_loading();
        self.halt(name_module(m.canonical.as_str(), message));
    }

    pub(crate) fn start_entry(&mut self, statements: Vec<Statement>)
        ensures
            final(self)@ == entry_ready(old(self)@, block(statements@)),
    {
        let _place: usize = self.rt.ensure_module(self.scope.cur.as_str());
        self.entry_on(statements, 0);
    }

    pub(crate) fn entry_on(&mut self, statements: Vec<Statement>, next: usize)
        ensures
            final(self)@ == entry_step(old(self)@, block(statements@), next as int),
    {
        assert(block(statements@).len() == statements@.len());
        let i: usize = find_next_own(&statements, false, next);
        if i < statements.len() {
            let st = statements[i].copy();
            self.push(Frame::Entry { statements, next: i + 1 });
            self.turn(Focus::Exec(st));
        } else {
            self.rt.snapshot_top_locals(self.scope.cur.as_str(), &self.scope.env, &self.scope.types);
            self.turn(Focus::Done);
        }
    }

    pub(crate) fn entry_flow(&mut self, statements: Vec<Statement>, next: usize, f: Flow)
        ensures
            final(self)@ == entry_flowed(old(self)@, block(statements@), next as int, f@),
    {
        match find_stray(f) {
            None => self.entry_on(statements, next),
            Some(message) => self.halt(message),
        }
    }

    /// Starts a program in the scope at hand: first its imports, then its own
    /// statements.
    pub fn run_program(&mut self, p: Program, directory: String)
        ensures
            final(self)@ == program_run(old(self)@, p@.statements, directory@),
    {
        assert(block(p.statements@).len() == p.statements@.len());
        let list = find_imports(&p.statements);
        self.push(Frame::Entry { statements: p.statements, next: 0 });
        self.declares_on(list, 0, directory);
    }
}

} // verus!
