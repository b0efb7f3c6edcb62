//! The live state of a running script: modules, databases and widgets.

use crate::ast::{copy_entries, copy_texts, entries, texts, values, GuiKind, Program, ProgramModel, Value, ValueModel};
use crate::draft::{text, text_6, throw_model, throw_pieces, Failure, FailureModel, Piece, PieceModel};
use crate::show::{kind_name, kind_text, type_of, value_type_name};
use crate::strings::{occurs_at, str_starts_with};
use crate::table::{
    copy_text_entries, discard, erase, find, get, get_text, has_text, key_texts, keys, lookup, place, put, store,
    store_text, text_entries,
};
use crate::text::{chars_of, same, string_of};
use vstd::prelude::*;

verus! {

/// The deepest that calls can nest.
pub const MAX_CALL_DEPTH: usize = 64;

/// A loaded module: file-private top-level locals plus exported globals.
/// Globals are read live from here on every access.
#[derive(Debug)]
pub struct LoadedModule {
    pub path: String,
    pub top_locals: Vec<(String, Value)>,
    pub top_local_types: Vec<(String, String)>,
    pub globals: Vec<(String, Value)>,
    pub global_names: Vec<String>,
    pub global_types: Vec<(String, String)>,
    pub program: Option<Program>,
    pub onstart_executed: bool,
}

#[verifier::ext_equal]
pub struct ModuleModel {
    pub path: Seq<char>,
    pub top_locals: Seq<(Seq<char>, ValueModel)>,
    pub top_local_types: Seq<(Seq<char>, Seq<char>)>,
    pub globals: Seq<(Seq<char>, ValueModel)>,
    pub global_names: Seq<Seq<char>>,
    pub global_types: Seq<(Seq<char>, Seq<char>)>,
    pub program: Option<ProgramModel>,
    pub onstart_executed: bool,
}

/// A widget. It is pure data: nothing is displayed before it is run. Handlers
/// stand under the name of their event in the order in which they came.
#[derive(Debug)]
pub struct GuiEntry {
    pub kind: GuiKind,
    pub title: String,
    pub parent: Option<u64>,
    pub children: Vec<u64>,
    pub pos: Option<(i32, i32)>,
    pub handlers: Vec<(String, Vec<Value>)>,
    pub closed: bool,
}

#[verifier::ext_equal]
pub struct GuiModel {
    pub kind: GuiKind,
    pub title: Seq<char>,
    pub parent: Option<u64>,
    pub children: Seq<u64>,
    pub pos: Option<(i32, i32)>,
    pub handlers: Seq<(Seq<char>, Seq<ValueModel>)>,
    pub closed: bool,
}

/// Modules by alias and by path, the files being loaded, the depth of calls,
/// the open databases and the widgets.
#[derive(Debug)]
pub struct ModuleRuntime {
    pub modules: Vec<(String, LoadedModule)>,
    pub canonical_to_alias: Vec<(String, String)>,
    pub loading: Vec<String>,
    pub call_depth: usize,
    pub db_next: u64,
    pub db_open: Vec<u64>,
    pub gui_next: u64,
    pub gui: Vec<(u64, GuiEntry)>,
    pub gui_running: bool,
}

#[verifier::ext_equal]
pub struct RuntimeModel {
    pub modules: Seq<(Seq<char>, ModuleModel)>,
    pub canonical_to_alias: Seq<(Seq<char>, Seq<char>)>,
    pub loading: Seq<Seq<char>>,
    pub call_depth: int,
    pub db_next: u64,
    pub db_open: Seq<u64>,
    pub gui_next: u64,
    pub gui: Seq<(u64, GuiModel)>,
    pub gui_running: bool,
}

impl LoadedModule {
    pub open spec fn view(&self) -> ModuleModel {
        ModuleModel {
            path: self.path@,
            top_locals: entries(self.top_locals@),
            top_local_types: text_entries(self.top_local_types@),
            globals: entries(self.globals@),
            global_names: texts(self.global_names@),
            global_types: text_entries(self.global_types@),
            program: match self.program {
                Some(p) => Some(p@),
                None => None,
            },
            onstart_executed: self.onstart_executed,
        }
    }

    pub fn empty() -> (r: LoadedModule)
        ensures
            r@ == empty_module(),
    {
        let r = LoadedModule {
            path: String::new(),
            top_locals: Vec::new(),
            top_local_types: Vec::new(),
            globals: Vec::new(),
            global_names: Vec::new(),
            global_types: Vec::new(),
            program: None,
            onstart_executed: false,
        };
        assert(r@ =~= empty_module());
        r
    }
}

/// A module of which nothing is known yet.
pub open spec fn empty_module() -> ModuleModel {
    ModuleModel {
        path: seq![],
        top_locals: seq![],
        top_local_types: seq![],
        globals: seq![],
        global_names: seq![],
        global_types: seq![],
        program: None,
        onstart_executed: false,
    }
}

pub open spec fn handler_lists(t: Seq<(String, Vec<Value>)>) -> Seq<(Seq<char>, Seq<ValueModel>)> {
    Seq::new(t.len(), |i: int| (t[i].0@, values(t[i].1@)))
}

impl GuiEntry {
    pub open spec fn view(&self) -> GuiModel {
        GuiModel {
            kind: self.kind,
            title: self.title@,
            parent: self.parent,
            children: self.children@,
            pos: self.pos,
            handlers: handler_lists(self.handlers@),
            closed: self.closed,
        }
    }
}

pub open spec fn modules_model(t: Seq<(String, LoadedModule)>) -> Seq<(Seq<char>, ModuleModel)> {
    Seq::new(t.len(), |i: int| (t[i].0@, t[i].1@))
}

pub open spec fn gui_model(t: Seq<(u64, GuiEntry)>) -> Seq<(u64, GuiModel)> {
    Seq::new(t.len(), |i: int| (t[i].0, t[i].1@))
}

/// What a runtime starts with.
pub open spec fn fresh_runtime() -> RuntimeModel {
    RuntimeModel {
        modules: seq![],
        canonical_to_alias: seq![],
        loading: seq![],
        call_depth: 0,
        db_next: 1,
        db_open: seq![],
        gui_next: 1,
        gui: seq![],
        gui_running: false,
    }
}

/// The module under an alias; an empty one if there is none.
pub open spec fn module_of(rt: RuntimeModel, alias: Seq<char>) -> ModuleModel {
    match lookup(rt.modules, alias) {
        Some(m) => m,
        None => empty_module(),
    }
}

/// The runtime with a module in place.
pub open spec fn with_module(rt: RuntimeModel, alias: Seq<char>, m: ModuleModel) -> RuntimeModel {
    RuntimeModel { modules: put(rt.modules, alias, m), ..rt }
}

/// The runtime with a module, possibly empty, under the alias.
pub open spec fn ensured(rt: RuntimeModel, alias: Seq<char>) -> RuntimeModel {
    match lookup(rt.modules, alias) {
        Some(_) => rt,
        None => with_module(rt, alias, empty_module()),
    }
}

/// Whether the module exports the name.
pub open spec fn is_global(rt: RuntimeModel, alias: Seq<char>, short: Seq<char>) -> bool {
    module_of(rt, alias).global_names.contains(short)
}

/// The value of an exported name.
pub open spec fn read_global(rt: RuntimeModel, alias: Seq<char>, short: Seq<char>) -> Option<ValueModel> {
    lookup(module_of(rt, alias).globals, "var."@ + short)
}

/// The runtime with a value in the live store of a module.
pub open spec fn set_global(rt: RuntimeModel, alias: Seq<char>, key: Seq<char>, v: ValueModel) -> RuntimeModel {
    let m = module_of(rt, alias);
    with_module(rt, alias, ModuleModel { globals: put(m.globals, key, v), ..m })
}

/// The runtime with an exported name: its value, the name and its type.
pub open spec fn exported(
    rt: RuntimeModel,
    alias: Seq<char>,
    name: Seq<char>,
    declared: Seq<char>,
    v: ValueModel,
) -> RuntimeModel {
    let m = module_of(rt, alias);
    with_module(
        rt,
        alias,
        ModuleModel {
            globals: put(m.globals, "var."@ + name, v),
            global_names: if m.global_names.contains(name) {
                m.global_names
            } else {
                m.global_names.push(name)
            },
            global_types: put(m.global_types, name, declared),
            ..m
        },
    )
}

/// The runtime with the live store of a module as it was before a loop or a
/// handler used the name `key`.
pub open spec fn restored_global(
    rt: RuntimeModel,
    alias: Seq<char>,
    key: Seq<char>,
    saved: Option<ValueModel>,
) -> RuntimeModel {
    match lookup(rt.modules, alias) {
        None => rt,
        Some(m) => with_module(
            rt,
            alias,
            ModuleModel {
                globals: match saved {
                    Some(v) => put(m.globals, key, v),
                    None => erase(m.globals, key),
                },
                ..m
            },
        ),
    }
}

/// `over` laid on `under`, entry by entry.
pub open spec fn overlaid<T>(under: Seq<(Seq<char>, T)>, over: Seq<(Seq<char>, T)>, n: int) -> Seq<(Seq<char>, T)>
    decreases n,
{
    if n <= 0 || n > over.len() {
        under
    } else {
        put(overlaid(under, over, n - 1), over[n - 1].0, over[n - 1].1)
    }
}

/// What a function of the module sees: its globals, and its top-level locals
/// in front of them.
pub open spec fn merged_env(rt: RuntimeModel, alias: Seq<char>) -> Seq<(Seq<char>, ValueModel)> {
    let m = module_of(rt, alias);
    overlaid(m.globals, m.top_locals, m.top_locals.len() as int)
}

/// The declared types of the first `n` exported names, by variable.
pub open spec fn exported_types(m: ModuleModel, n: int) -> Seq<(Seq<char>, Seq<char>)>
    decreases n,
{
    if n <= 0 || n > m.global_names.len() {
        seq![]
    } else {
        let rest = exported_types(m, n - 1);
        match lookup(m.global_types, m.global_names[n - 1]) {
            Some(t) => put(rest, "var."@ + m.global_names[n - 1], t),
            None => rest,
        }
    }
}

/// The declared types, laid over each other as the values are.
pub open spec fn merged_types(rt: RuntimeModel, alias: Seq<char>) -> Seq<(Seq<char>, Seq<char>)> {
    let m = module_of(rt, alias);
    overlaid(exported_types(m, m.global_names.len() as int), m.top_local_types, m.top_local_types.len() as int)
}

/// The short name of a variable, if `key` is one.
pub open spec fn short_name(key: Seq<char>) -> Option<Seq<char>> {
    if occurs_at(key, "var."@, 0) {
        Some(key.subrange("var."@.len() as int, key.len() as int))
    } else {
        None
    }
}

/// The declared type of an exported variable.
pub open spec fn global_type(rt: RuntimeModel, alias: Seq<char>, key: Seq<char>) -> Option<Seq<char>> {
    match short_name(key) {
        None => None,
        Some(short) => if is_global(rt, alias, short) {
            lookup(module_of(rt, alias).global_types, short)
        } else {
            None
        },
    }
}

/// Whether a variable of a file is one of its top-level locals.
pub open spec fn is_top_local(m: ModuleModel, key: Seq<char>) -> bool {
    short_name(key) matches Some(short) && !m.global_names.contains(short)
}

/// The top-level locals among the first `n` variables.
pub open spec fn top_locals_of(m: ModuleModel, env: Seq<(Seq<char>, ValueModel)>, n: int) -> Seq<
    (Seq<char>, ValueModel),
>
    decreases n,
{
    if n <= 0 || n > env.len() {
        seq![]
    } else {
        let rest = top_locals_of(m, env, n - 1);
        if is_top_local(m, env[n - 1].0) {
            put(rest, env[n - 1].0, env[n - 1].1)
        } else {
            rest
        }
    }
}

/// The declared types of the top-level locals among the first `n` variables.
pub open spec fn top_types_of(
    m: ModuleModel,
    env: Seq<(Seq<char>, ValueModel)>,
    types: Seq<(Seq<char>, Seq<char>)>,
    n: int,
) -> Seq<(Seq<char>, Seq<char>)>
    decreases n,
{
    if n <= 0 || n > env.len() {
        seq![]
    } else {
        let rest = top_types_of(m, env, types, n - 1);
        match lookup(types, env[n - 1].0) {
            Some(t) => if is_top_local(m, env[n - 1].0) {
                put(rest, env[n - 1].0, t)
            } else {
                rest
            },
            None => rest,
        }
    }
}

/// The runtime with the file-scope locals of a module as they are now.
pub open spec fn snapshot(
    rt: RuntimeModel,
    alias: Seq<char>,
    env: Seq<(Seq<char>, ValueModel)>,
    types: Seq<(Seq<char>, Seq<char>)>,
) -> RuntimeModel {
    let m = module_of(rt, alias);
    with_module(
        rt,
        alias,
        ModuleModel {
            top_locals: top_locals_of(m, env, env.len() as int),
            top_local_types: top_types_of(m, env, types, env.len() as int),
            ..m
        },
    )
}

/// The exported variables as the first `n` names stand in `env`.
pub open spec fn written_back(
    globals: Seq<(Seq<char>, ValueModel)>,
    names: Seq<Seq<char>>,
    env: Seq<(Seq<char>, ValueModel)>,
    n: int,
) -> Seq<(Seq<char>, ValueModel)>
    decreases n,
{
    if n <= 0 || n > names.len() {
        globals
    } else {
        let before = written_back(globals, names, env, n - 1);
        match lookup(env, "var."@ + names[n - 1]) {
            Some(v) => put(before, "var."@ + names[n - 1], v),
            None => before,
        }
    }
}

/// `"var."` in front of a short name.
pub fn var_key(short: &str) -> (r: String)
    ensures
        r@ == "var."@ + short@,
{
    "var.".to_string().concat(short)
}

/// The short name of a variable, if `key` is one.
pub fn find_short_name(key: &str) -> (r: Option<String>)
    ensures
        match r {
            Some(s) => short_name(key@) == Some(s@),
            None => short_name(key@) is None,
        },
{
    if str_starts_with(key, "var.") {
        let c = chars_of(key);
        let n: usize = chars_of("var.").len();
        Some(string_of(&c, n, c.len()))
    } else {
        None
    }
}

impl ModuleRuntime {
    pub open spec fn view(&self) -> RuntimeModel {
        RuntimeModel {
            modules: modules_model(self.modules@),
            canonical_to_alias: text_entries(self.canonical_to_alias@),
            loading: texts(self.loading@),
            call_depth: self.call_depth as int,
            db_next: self.db_next,
            db_open: self.db_open@,
            gui_next: self.gui_next,
            gui: gui_model(self.gui@),
            gui_running: self.gui_running,
        }
    }

    pub fn new() -> (r: ModuleRuntime)
        ensures
            r@ == fresh_runtime(),
    {
        let r = ModuleRuntime {
            modules: Vec::new(),
            canonical_to_alias: Vec::new(),
            loading: Vec::new(),
            call_depth: 0,
            db_next: 1,
            db_open: Vec::new(),
            gui_next: 1,
            gui: Vec::new(),
            gui_running: false,
        };
        assert(r@ =~= fresh_runtime());
        r
    }

    /// The module under an alias.
    pub fn module(&self, alias: &str) -> (r: Option<&LoadedModule>)
        ensures
            match r {
                Some(m) => lookup(self@.modules, alias@) == Some(m@),
                None => lookup(self@.modules, alias@) is None,
            },
    {
        assert(keys(self@.modules) =~= key_texts(self.modules@));
        match find(&self.modules, alias) {
            Some(i) => Some(&self.modules[i].1),
            None => None,
        }
    }

    /// Makes sure that there is a module under the alias, and finds it.
    pub(crate) fn ensure_module(&mut self, alias: &str) -> (i: usize)
        ensures
            final(self)@ == ensured(old(self)@, alias@),
            place(keys(final(self)@.modules), alias@) == Some(i as int),
            i < final(self).modules@.len(),
            final(self).modules@[i as int].1@ == module_of(old(self)@, alias@),
            final(self).modules@[i as int].0@ == alias@,
    {
        assert(keys(self@.modules) =~= key_texts(self.modules@));
        match find(&self.modules, alias) {
            Some(i) => i,
            None => {
                let ghost was = self@;
                let i: usize = self.modules.len();
                self.modules.push((alias.to_string(), LoadedModule::empty()));
                proof {
                    assert(self@.modules =~= was.modules.push((alias@, empty_module())));
                    assert(keys(self@.modules) =~= keys(was.modules).push(alias@));
                    crate::table::lemma_place(keys(was.modules), alias@, 0);
                    crate::table::lemma_place_is(keys(self@.modules), alias@, 0, i as int);
                }
                i
            },
        }
    }

    /// Puts a module under its alias.
    pub(crate) fn place_module(&mut self, alias: &str, m: LoadedModule)
        ensures
            final(self)@ == with_module(old(self)@, alias@, m@),
    {
        let ghost was = self@;
        let i: usize = self.ensure_module(alias);
        let ghost mid = *self;
        self.modules[i].1 = m;
        proof {
            lemma_put_module(was, mid@, alias@, i as int, m@);
            assert(self@.modules =~= mid@.modules.update(i as int, (alias@, m@)));
            assert(self@ =~= with_module(was, alias@, m@));
        }
    }

    /// Notes that the event blocks of a module have run.
    pub(crate) fn mark_started(&mut self, alias: &str)
        ensures
            final(self)@ == with_module(
                old(self)@,
                alias@,
                (ModuleModel { onstart_executed: true, ..module_of(old(self)@, alias@) }),
            ),
    {
        let ghost was = self@;
        let i: usize = self.ensure_module(alias);
        let ghost mid = *self;
        self.modules[i].1.onstart_executed = true;
        proof {
            lemma_put_module(was, mid@, alias@, i as int, self.modules@[i as int].1@);
            assert(self@.modules =~= mid@.modules.update(i as int, (alias@, self.modules@[i as int].1@)));
            assert(self@ =~= with_module(
                was,
                alias@,
                ModuleModel { onstart_executed: true, ..module_of(was, alias@) },
            ));
        }
    }

    /// Takes the exported variables of a module from the scope that its event
    /// blocks have used.
    pub(crate) fn write_back(&mut self, alias: &str, env: &Vec<(String, Value)>)
        ensures
            final(self)@ == ({
                let m = module_of(old(self)@, alias@);
                with_module(
                    old(self)@,
                    alias@,
                    ModuleModel {
                        globals: written_back(m.globals, m.global_names, entries(env@), m.global_names.len() as int),
                        ..m
                    },
                )
            }),
    {
        let ghost was = self@;
        let k: usize = self.ensure_module(alias);
        let ghost mid = *self;
        let ghost m = module_of(was, alias@);
        let names = copy_texts(&self.modules[k].1.global_names);
        assert(texts(names@).len() == names@.len());
        let mut globals = copy_entries(&self.modules[k].1.globals);
        let mut i: usize = 0;
        while i < names.len()
            invariant
                i <= names@.len(),
                texts(names@) == m.global_names,
                texts(names@).len() == names@.len(),
                entries(globals@) == written_back(m.globals, m.global_names, entries(env@), i as int),
            decreases names@.len() - i,
        {
            let key = var_key(names[i].as_str());
            assert(key@ == "var."@ + m.global_names[i as int]);
            match get(env, key.as_str()) {
                Some(v) => {
                    store(&mut globals, key, v.copy());
                },
                None => {},
            }
            i = i + 1;
        }
        self.modules[k].1.globals = globals;
        proof {
            lemma_put_module(was, mid@, alias@, k as int, self.modules@[k as int].1@);
            assert(self@.modules =~= mid@.modules.update(k as int, (alias@, self.modules@[k as int].1@)));
        }
    }

    pub fn is_global(&self, alias: &str, short: &str) -> (r: bool)
        ensures
            r == is_global(self@, alias@, short@),
    {
        match self.module(alias) {
            Some(m) => has_text(&m.global_names, short),
            None => false,
        }
    }

    /// Live read of a global.
    pub fn read_global(&self, alias: &str, short: &str) -> (r: Option<Value>)
        ensures
            match r {
                Some(v) => read_global(self@, alias@, short@) == Some(v@),
                None => read_global(self@, alias@, short@) is None,
            },
    {
        match self.module(alias) {
            Some(m) => match get(&m.globals, var_key(short).as_str()) {
                Some(v) => Some(v.copy()),
                None => None,
            },
            None => None,
        }
    }

    /// Puts a value in the live store of a module.
    pub fn set_global(&mut self, alias: &str, key: String, v: Value)
        ensures
            final(self)@ == set_global(old(self)@, alias@, key@, v@),
    {
        let ghost was = self@;
        let i: usize = self.ensure_module(alias);
        let ghost mid = *self;
        store(&mut self.modules[i].1.globals, key, v);
        proof {
            lemma_put_module(was, mid@, alias@, i as int, self.modules@[i as int].1@);
            assert(self@.modules =~= mid@.modules.update(i as int, (alias@, self.modules@[i as int].1@)));
            assert(self@ =~= set_global(was, alias@, key@, v@));
        }
    }

    /// Takes a value out of the live store of a module, if there is one.
    fn unset_global(&mut self, alias: &str, key: &str)
        ensures
            final(self)@ == (match lookup(old(self)@.modules, alias@) {
                Some(m) => with_module(old(self)@, alias@, ModuleModel { globals: erase(m.globals, key@), ..m }),
                None => old(self)@,
            }),
    {
        if self.module(alias).is_none() {
            return ;
        }
        let ghost was = self@;
        let i: usize = self.ensure_module(alias);
        let ghost mid = *self;
        discard(&mut self.modules[i].1.globals, key);
        proof {
            lemma_put_module(was, mid@, alias@, i as int, self.modules@[i as int].1@);
            assert(self@.modules =~= mid@.modules.update(i as int, (alias@, self.modules@[i as int].1@)));
            assert(self@ =~= with_module(
                was,
                alias@,
                ModuleModel { globals: erase(module_of(was, alias@).globals, key@), ..module_of(was, alias@) },
            ));
        }
    }

    /// Exports a name: its value, the name and its declared type.
    pub fn export(&mut self, alias: &str, name: &str, declared: &str, v: Value)
        ensures
            final(self)@ == exported(old(self)@, alias@, name@, declared@, v@),
    {
        let ghost was = self@;
        let i: usize = self.ensure_module(alias);
        let ghost mid = *self;
        let ghost m = module_of(was, alias@);
        store(&mut self.modules[i].1.globals, var_key(name), v);
        if !has_text(&self.modules[i].1.global_names, name) {
            let ghost before = self.modules@[i as int].1.global_names@;
            self.modules[i].1.global_names.push(name.to_string());
            assert(texts(self.modules@[i as int].1.global_names@) =~= texts(before).push(name@));
        }
        store_text(&mut self.modules[i].1.global_types, name.to_string(), declared.to_string());
        proof {
            lemma_put_module(was, mid@, alias@, i as int, self.modules@[i as int].1@);
            assert(self@.modules =~= mid@.modules.update(i as int, (alias@, self.modules@[i as int].1@)));
            assert(self@ =~= exported(was, alias@, name@, declared@, v@));
        }
    }

    /// What a function of the module sees.
    pub fn module_merged_env(&self, alias: &str) -> (r: Vec<(String, Value)>)
        ensures
            entries(r@) == merged_env(self@, alias@),
    {
        match self.module(alias) {
            Some(m) => {
                let mut env = copy_entries(&m.globals);
                let ghost under = entries(m.globals@);
                let ghost over = entries(m.top_locals@);
                let mut i: usize = 0;
                while i < m.top_locals.len()
                    invariant
                        i <= m.top_locals@.len(),
                        over == entries(m.top_locals@),
                        entries(env@) == overlaid(under, over, i as int),
                    decreases m.top_locals@.len() - i,
                {
                    store(&mut env, m.top_locals[i].0.clone(), m.top_locals[i].1.copy());
                    i = i + 1;
                }
                env
            },
            None => {
                let env: Vec<(String, Value)> = Vec::new();
                assert(entries(env@) =~= merged_env(self@, alias@));
                env
            },
        }
    }

    /// The declared types, laid over each other as the values are.
    pub fn module_merged_types(&self, alias: &str) -> (r: Vec<(String, String)>)
        ensures
            text_entries(r@) == merged_types(self@, alias@),
    {
        let mut types: Vec<(String, String)> = Vec::new();
        match self.module(alias) {
            Some(m) => {
                let mut i: usize = 0;
                assert(text_entries(types@) =~= exported_types(m@, 0));
                while i < m.global_names.len()
                    invariant
                        i <= m.global_names@.len(),
                        text_entries(types@) == exported_types(m@, i as int),
                    decreases m.global_names@.len() - i,
                {
                    match get_text(&m.global_types, m.global_names[i].as_str()) {
                        Some(t) => {
                            store_text(&mut types, var_key(m.global_names[i].as_str()), t);
                        },
                        None => {},
                    }
                    i = i + 1;
                }
                let ghost under = text_entries(types@);
                let ghost over = text_entries(m.top_local_types@);
                let mut k: usize = 0;
                while k < m.top_local_types.len()
                    invariant
                        k <= m.top_local_types@.len(),
                        over == text_entries(m.top_local_types@),
                        text_entries(types@) == overlaid(under, over, k as int),
                    decreases m.top_local_types@.len() - k,
                {
                    store_text(&mut types, m.top_local_types[k].0.clone(), m.top_local_types[k].1.clone());
                    k = k + 1;
                }
            },
            None => {
                assert(text_entries(types@) =~= merged_types(self@, alias@));
            },
        }
        types
    }

    /// The declared type of an exported variable.
    pub fn lookup_type(&self, alias: &str, key: &str) -> (r: Option<String>)
        ensures
            match r {
                Some(t) => global_type(self@, alias@, key@) == Some(t@),
                None => global_type(self@, alias@, key@) is None,
            },
    {
        match find_short_name(key) {
            None => None,
            Some(short) => match self.module(alias) {
                Some(m) => if has_text(&m.global_names, short.as_str()) {
                    get_text(&m.global_types, short.as_str())
                } else {
                    None
                },
                None => None,
            },
        }
    }

    /// Remembers the file-scope locals of a module: every variable that is not
    /// exported.
    pub fn snapshot_top_locals(&mut self, alias: &str, env: &Vec<(String, Value)>, types: &Vec<(String, String)>)
        ensures
            final(self)@ == snapshot(old(self)@, alias@, entries(env@), text_entries(types@)),
    {
        let ghost was = self@;
        let k: usize = self.ensure_module(alias);
        let ghost mid = *self;
        let ghost m = module_of(was, alias@);
        let ghost e = entries(env@);
        let ghost t = text_entries(types@);
        let mut locals: Vec<(String, Value)> = Vec::new();
        let mut local_types: Vec<(String, String)> = Vec::new();
        assert(entries(locals@) =~= seq![]);
        assert(text_entries(local_types@) =~= seq![]);
        let mut i: usize = 0;
        while i < env.len()
            invariant
                i <= env@.len(),
                k < self.modules@.len(),
                *self == mid,
                mid.modules@[k as int].1@ == m,
                e == entries(env@),
                t == text_entries(types@),
                entries(locals@) == top_locals_of(m, e, i as int),
                text_entries(local_types@) == top_types_of(m, e, t, i as int),
            decreases env@.len() - i,
        {
            let top = match find_short_name(env[i].0.as_str()) {
                Some(short) => !has_text(&self.modules[k].1.global_names, short.as_str()),
                None => false,
            };
            if top {
                store(&mut locals, env[i].0.clone(), env[i].1.copy());
                match get_text(types, env[i].0.as_str()) {
                    Some(ty) => {
                        store_text(&mut local_types, env[i].0.clone(), ty);
                    },
                    None => {},
                }
            }
            i = i + 1;
        }
        self.modules[k].1.top_locals = locals;
        self.modules[k].1.top_local_types = local_types;
        proof {
            lemma_put_module(was, mid@, alias@, k as int, self.modules@[k as int].1@);
            assert(self@.modules =~= mid@.modules.update(k as int, (alias@, self.modules@[k as int].1@)));
            assert(self@ =~= snapshot(was, alias@, e, t));
        }
    }
}

/// Updating the module in its place is putting it under its alias.
proof fn lemma_put_module(was: RuntimeModel, mid: RuntimeModel, alias: Seq<char>, i: int, m: ModuleModel)
    requires
        mid == ensured(was, alias),
        place(keys(mid.modules), alias) == Some(i),
    ensures
        mid.modules.update(i, (alias, m)) == put(was.modules, alias, m),
{
    crate::table::lemma_place(keys(was.modules), alias, 0);
    crate::table::lemma_place(keys(mid.modules), alias, 0);
    if lookup(was.modules, alias) is None {
        assert(mid.modules =~= was.modules.push((alias, empty_module())));
        assert(keys(mid.modules)[i] == alias);
        assert(i == was.modules.len()) by {
            if i < was.modules.len() {
                assert(keys(was.modules)[i] == alias);
            }
        }
        assert(mid.modules.update(i, (alias, m)) =~= was.modules.push((alias, m)));
    }
}

/// Puts the live store of a module back as it was before `key` was used.
pub fn restore_global(rt: &mut ModuleRuntime, alias: &str, key: &str, saved: Option<Value>)
    ensures
        final(rt)@ == restored_global(old(rt)@, alias@, key@, value_opt(saved)),
{
    match saved {
        Some(v) => {
            if rt.module(alias).is_some() {
                rt.set_global(alias, key.to_string(), v);
            }
        },
        None => {
            rt.unset_global(alias, key);
        },
    }
}

pub open spec fn value_opt(v: Option<Value>) -> Option<ValueModel> {
    match v {
        Some(x) => Some(x@),
        None => None,
    }
}

/// The variables of a file or a call, their declared types, and the alias of
/// the file.
#[derive(Debug)]
pub struct Scope {
    pub env: Vec<(String, Value)>,
    pub types: Vec<(String, String)>,
    pub cur: String,
}

#[verifier::ext_equal]
pub struct ScopeModel {
    pub env: Seq<(Seq<char>, ValueModel)>,
    pub types: Seq<(Seq<char>, Seq<char>)>,
    pub cur: Seq<char>,
}

impl Scope {
    pub open spec fn view(&self) -> ScopeModel {
        ScopeModel { env: entries(self.env@), types: text_entries(self.types@), cur: self.cur@ }
    }

    /// An empty scope of the file with the alias.
    pub fn new(cur: &str) -> (r: Scope)
        ensures
            r@ == empty_scope(cur@),
    {
        let r = Scope { env: Vec::new(), types: Vec::new(), cur: cur.to_string() };
        assert(r@ =~= empty_scope(cur@));
        r
    }

    /// A copy of the scope.
    pub fn copy(&self) -> (r: Scope)
        ensures
            r@ == self@,
    {
        Scope { env: copy_entries(&self.env), types: copy_text_entries(&self.types), cur: self.cur.clone() }
    }
}

pub open spec fn empty_scope(cur: Seq<char>) -> ScopeModel {
    ScopeModel { env: seq![], types: seq![], cur }
}

/// The value of a variable of the own file: the live store wins where the name
/// is exported.
pub open spec fn scoped(rt: RuntimeModel, scope: ScopeModel, short: Seq<char>) -> Option<ValueModel> {
    if is_global(rt, scope.cur, short) && read_global(rt, scope.cur, short) is Some {
        read_global(rt, scope.cur, short)
    } else {
        lookup(scope.env, "var."@ + short)
    }
}

/// The value that a name stands for in an expression.
pub open spec fn named_value(rt: RuntimeModel, scope: ScopeModel, name: Seq<char>) -> Option<ValueModel> {
    if name == "pass"@ || name == "arg"@ || name == "args"@ {
        lookup(scope.env, name)
    } else {
        match short_name(name) {
            Some(short) => scoped(rt, scope, short),
            None => if occurs_at(name, "arg."@, 0) {
                lookup(scope.env, name)
            } else {
                None
            },
        }
    }
}

/// Own-file read of a variable: the live store wins where the name is
/// exported, otherwise the local scope.
pub fn lookup_scoped(short: &str, rt: &ModuleRuntime, scope: &Scope) -> (r: Option<Value>)
    ensures
        value_opt(r) == scoped(rt@, scope@, short@),
{
    if rt.is_global(scope.cur.as_str(), short) {
        match rt.read_global(scope.cur.as_str(), short) {
            Some(v) => {
                return Some(v);
            },
            None => {},
        }
    }
    match get(&scope.env, var_key(short).as_str()) {
        Some(v) => Some(v.copy()),
        None => None,
    }
}

/// The value that a name stands for in an expression.
pub fn resolve_variable_name(name: &str, rt: &ModuleRuntime, scope: &Scope) -> (r: Option<Value>)
    ensures
        value_opt(r) == named_value(rt@, scope@, name@),
{
    let plain = same(name, "pass") || same(name, "arg") || same(name, "args");
    if !plain {
        match find_short_name(name) {
            Some(short) => {
                return lookup_scoped(short.as_str(), rt, scope);
            },
            None => {
                if !str_starts_with(name, "arg.") {
                    return None;
                }
            },
        }
    }
    match get(&scope.env, name) {
        Some(v) => Some(v.copy()),
        None => None,
    }
}

/// The variables with `key` as it was before a loop or a handler used it.
pub open spec fn restored(env: Seq<(Seq<char>, ValueModel)>, key: Seq<char>, saved: Option<ValueModel>) -> Seq<
    (Seq<char>, ValueModel),
> {
    match saved {
        Some(v) => put(env, key, v),
        None => erase(env, key),
    }
}

/// Puts a variable back as it was before `key` was used.
pub fn restore_saved(env: &mut Vec<(String, Value)>, key: &str, saved: Option<Value>)
    ensures
        entries(final(env)@) == restored(entries(old(env)@), key@, value_opt(saved)),
{
    match saved {
        Some(v) => {
            store(env, key.to_string(), v);
        },
        None => {
            discard(env, key);
        },
    }
}

/// Whether a value fits a declared type. Null fits every type.
pub open spec fn fits(declared: Seq<char>, v: ValueModel) -> bool {
    match v {
        ValueModel::Null => true,
        ValueModel::String(_) => declared == "string"@,
        ValueModel::Number(_) => declared == "number"@,
        ValueModel::Logic(_) => declared == "logic"@,
        ValueModel::Array(_) => declared == "array"@,
        ValueModel::Object(_) => declared == "object"@,
        ValueModel::File { .. } => declared == "file"@,
        ValueModel::Db { .. } => declared == "db"@,
        ValueModel::Gui { kind, .. } => declared == kind_name(kind),
        ValueModel::Function { .. } => declared == "function"@,
        _ => false,
    }
}

pub open spec fn type_complaint(slot: Seq<char>, declared: Seq<char>, v: ValueModel) -> FailureModel {
    throw_model(
        "TypeError"@,
        seq![
            PieceModel::Text("expected "@),
            PieceModel::Text(declared),
            PieceModel::Text(" for var."@),
            PieceModel::Text(slot),
            PieceModel::Text(", got "@),
            PieceModel::Text(type_of(v)),
        ],
    )
}

fn is_fit(declared: &str, v: &Value) -> (r: bool)
    ensures
        r == fits(declared@, v@),
{
    match v {
        Value::Null => true,
        Value::String(_) => same(declared, "string"),
        Value::Number(_) => same(declared, "number"),
        Value::Logic(_) => same(declared, "logic"),
        Value::Array(_) => same(declared, "array"),
        Value::Object(_) => same(declared, "object"),
        Value::File { .. } => same(declared, "file"),
        Value::Db { .. } => same(declared, "db"),
        Value::Gui { kind, .. } => same(declared, kind_text(*kind).as_str()),
        Value::Function { .. } => same(declared, "function"),
        _ => false,
    }
}

/// Enforces a declared slot type. Null fits every type.
pub fn check_type(slot: &str, declared: &str, v: &Value) -> (r: Result<(), Failure>)
    ensures
        r is Ok <==> fits(declared@, v@),
        r matches Err(e) ==> e@ == type_complaint(slot@, declared@, v@),
{
    if is_fit(declared, v) {
        Ok(())
    } else {
        Err(
            throw_pieces(
                "TypeError",
                text_6(
                    text("expected "),
                    text(declared),
                    text(" for var."),
                    text(slot),
                    text(", got "),
                    Piece::Text(value_type_name(v)),
                ),
            ),
        )
    }
}

} // verus!
