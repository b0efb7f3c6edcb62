//! What the tables of a module hold.

use crate::ast::ValueModel;
use crate::laws::{lemma_exported, lemma_keys_differ, lemma_with_module};
use crate::runtime::{
    exported, exported_types, merged_env, merged_types, module_of, named_value, overlaid, restored, restored_global,
    scoped, short_name, snapshot, top_locals_of, top_types_of, with_module, written_back, ModuleModel, RuntimeModel,
    ScopeModel,
};
use crate::strings::occurs_at;
use crate::table::{
    distinct, erase, erase_then_lookup, keys, lemma_place, lemma_place_is, lookup, place, put, put_then_lookup,
};
use vstd::prelude::*;

verus! {

proof fn lemma_var(name: Seq<char>)
    ensures
        short_name("var."@ + name) == Some(name),
        "var."@ + name != "pass"@,
        "var."@ + name != "arg"@,
        "var."@ + name != "args"@,
{
    reveal_strlit("var.");
    reveal_strlit("pass");
    reveal_strlit("arg");
    reveal_strlit("args");
    let key = "var."@ + name;
    assert(key[0] == 'v');
    assert("pass"@[0] == 'p' && "arg"@[0] == 'a' && "args"@[0] == 'a');
    assert(key.subrange(0, 4) =~= "var."@);
    assert(key.subrange(4, key.len() as int) =~= name);
}

/// `var.name` stands for the variable `name`, and `arg.name`, `arg`, `args` and `pass` for
/// what the call put under these names.
pub proof fn names_stand_for_variables(rt: RuntimeModel, scope: ScopeModel, name: Seq<char>)
    ensures
        named_value(rt, scope, "var."@ + name) == scoped(rt, scope, name),
        named_value(rt, scope, "arg."@ + name) == lookup(scope.env, "arg."@ + name),
        named_value(rt, scope, "arg"@) == lookup(scope.env, "arg"@),
        named_value(rt, scope, "args"@) == lookup(scope.env, "args"@),
        named_value(rt, scope, "pass"@) == lookup(scope.env, "pass"@),
{
    lemma_var(name);
    reveal_strlit("var.");
    reveal_strlit("arg.");
    let key = "arg."@ + name;
    assert(key[0] == 'a');
    assert("var."@[0] == 'v');
    assert(key.subrange(0, 4) =~= "arg."@);
    if occurs_at(key, "var."@, 0) {
        assert(key.subrange(0, 4)[0] == 'v');
    }
}

/// A variable is looked up in its scope, unless its file exports it: then it is what the file
/// holds at the time.
pub proof fn exported_variables_are_live(rt: RuntimeModel, scope: ScopeModel, name: Seq<char>)
    ensures
        !module_of(rt, scope.cur).global_names.contains(name) ==> scoped(rt, scope, name) == lookup(
            scope.env,
            "var."@ + name,
        ),
        module_of(rt, scope.cur).global_names.contains(name) && lookup(
            module_of(rt, scope.cur).globals,
            "var."@ + name,
        ) is Some ==> scoped(rt, scope, name) == lookup(module_of(rt, scope.cur).globals, "var."@ + name),
{
}

proof fn lemma_entry<T>(t: Seq<(Seq<char>, T)>, i: int)
    requires
        distinct(keys(t)),
        0 <= i < t.len(),
    ensures
        lookup(t, t[i].0) == Some(t[i].1),
{
    let ks = keys(t);
    assert(ks[i] == t[i].0);
    assert forall|m: int| 0 <= m < i implies ks[m] != t[i].0 by {
        assert(ks[m] != ks[i]);
    }
    lemma_place_is(ks, t[i].0, 0, i);
}

proof fn lemma_missing<T>(t: Seq<(Seq<char>, T)>, key: Seq<char>)
    ensures
        lookup(t, key) is None <==> forall|i: int| 0 <= i < t.len() ==> (#[trigger] t[i]).0 != key,
{
    lemma_place(keys(t), key, 0);
    match place(keys(t), key) {
        Some(i) => {
            assert(t[i].0 == key);
        },
        None => {
            assert forall|i: int| 0 <= i < t.len() implies (#[trigger] t[i]).0 != key by {
                assert(keys(t)[i] != key);
            }
        },
    }
}

proof fn lemma_overlaid<T>(under: Seq<(Seq<char>, T)>, over: Seq<(Seq<char>, T)>, n: int, key: Seq<char>)
    requires
        distinct(keys(over)),
        0 <= n <= over.len(),
    ensures
        (exists|i: int| 0 <= i < n && (#[trigger] over[i]).0 == key) ==> lookup(overlaid(under, over, n), key) == lookup(
            over,
            key,
        ),
        (forall|i: int| 0 <= i < n ==> (#[trigger] over[i]).0 != key) ==> lookup(overlaid(under, over, n), key)
            == lookup(under, key),
    decreases n,
{
    if n > 0 {
        lemma_overlaid(under, over, n - 1, key);
        let before = overlaid(under, over, n - 1);
        put_then_lookup(before, over[n - 1].0, over[n - 1].1, key);
        lemma_entry(over, n - 1);
        if exists|i: int| 0 <= i < n && (#[trigger] over[i]).0 == key {
            let i = choose|i: int| 0 <= i < n && (#[trigger] over[i]).0 == key;
            if over[n - 1].0 != key {
                assert(i < n - 1);
            }
        }
    }
}

/// A function sees what its file exports, and in front of it the other variables of its file.
pub proof fn functions_see_their_file(rt: RuntimeModel, alias: Seq<char>, key: Seq<char>)
    requires
        distinct(keys(module_of(rt, alias).top_locals)),
    ensures
        ({
            let m = module_of(rt, alias);
            lookup(merged_env(rt, alias), key) == match lookup(m.top_locals, key) {
                Some(v) => Some(v),
                None => lookup(m.globals, key),
            }
        }),
{
    let m = module_of(rt, alias);
    lemma_overlaid(m.globals, m.top_locals, m.top_locals.len() as int, key);
    lemma_missing(m.top_locals, key);
}

proof fn lemma_locals(m: ModuleModel, env: Seq<(Seq<char>, ValueModel)>, n: int, name: Seq<char>)
    requires
        distinct(keys(env)),
        0 <= n <= env.len(),
    ensures
        lookup(top_locals_of(m, env, n), "var."@ + name) == (if !m.global_names.contains(name) && exists|i: int|
            0 <= i < n && (#[trigger] env[i]).0 == "var."@ + name {
            lookup(env, "var."@ + name)
        } else {
            None
        }),
    decreases n,
{
    let key = "var."@ + name;
    lemma_var(name);
    if n > 0 {
        lemma_locals(m, env, n - 1, name);
        let rest = top_locals_of(m, env, n - 1);
        put_then_lookup(rest, env[n - 1].0, env[n - 1].1, key);
        lemma_entry(env, n - 1);
        if exists|i: int| 0 <= i < n && (#[trigger] env[i]).0 == key {
            let i = choose|i: int| 0 <= i < n && (#[trigger] env[i]).0 == key;
            if env[n - 1].0 != key {
                assert(i < n - 1);
            }
        }
    } else {
        lemma_missing(top_locals_of(m, env, 0), key);
    }
}

/// When a file is through, it keeps those of its variables that it does not export.
pub proof fn files_keep_their_locals(
    rt: RuntimeModel,
    alias: Seq<char>,
    env: Seq<(Seq<char>, ValueModel)>,
    types: Seq<(Seq<char>, Seq<char>)>,
    name: Seq<char>,
)
    requires
        distinct(keys(env)),
    ensures
        ({
            let before = module_of(rt, alias);
            let after = module_of(snapshot(rt, alias, env, types), alias);
            &&& lookup(after.top_locals, "var."@ + name) == (if before.global_names.contains(name) {
                None
            } else {
                lookup(env, "var."@ + name)
            })
            &&& after.globals == before.globals
            &&& after.global_names == before.global_names
            &&& after.path == before.path
            &&& after.onstart_executed == before.onstart_executed
        }),
{
    let m = module_of(rt, alias);
    lemma_locals(m, env, env.len() as int, name);
    lemma_missing(env, "var."@ + name);
    lemma_with_module(
        rt,
        alias,
        ModuleModel {
            top_locals: top_locals_of(m, env, env.len() as int),
            top_local_types: top_types_of(m, env, types, env.len() as int),
            ..m
        },
    );
}

proof fn lemma_written_back(
    globals: Seq<(Seq<char>, ValueModel)>,
    names: Seq<Seq<char>>,
    env: Seq<(Seq<char>, ValueModel)>,
    n: int,
    name: Seq<char>,
)
    requires
        0 <= n <= names.len(),
    ensures
        lookup(written_back(globals, names, env, n), "var."@ + name) == (if names.take(n).contains(name) && lookup(
            env,
            "var."@ + name,
        ) is Some {
            lookup(env, "var."@ + name)
        } else {
            lookup(globals, "var."@ + name)
        }),
    decreases n,
{
    if n > 0 {
        lemma_written_back(globals, names, env, n - 1, name);
        let before = written_back(globals, names, env, n - 1);
        let last = names[n - 1];
        if last != name {
            lemma_keys_differ(last, name);
        }
        if let Some(v) = lookup(env, "var."@ + last) {
            put_then_lookup(before, "var."@ + last, v, "var."@ + name);
        }
        assert(names.take(n) =~= names.take(n - 1).push(last));
        if names.take(n - 1).contains(name) {
            let i = names.take(n - 1).index_of(name);
            assert(names.take(n)[i] == name);
        }
        if last == name {
            assert(names.take(n)[n - 1] == name);
        }
        if names.take(n).contains(name) {
            let i = names.take(n).index_of(name);
            assert(i < n - 1 ==> names.take(n - 1)[i] == name);
        }
    }
}

/// After its start a file exports its variables as the start left them.
pub proof fn starts_write_exports_back(rt: RuntimeModel, alias: Seq<char>, scope: ScopeModel, name: Seq<char>)
    ensures
        ({
            let before = module_of(rt, alias);
            let after = module_of(crate::imports::events_done(rt, alias, scope), alias);
            &&& after.onstart_executed
            &&& lookup(after.globals, "var."@ + name) == (if before.global_names.contains(name) && lookup(
                scope.env,
                "var."@ + name,
            ) is Some {
                lookup(scope.env, "var."@ + name)
            } else {
                lookup(before.globals, "var."@ + name)
            })
        }),
{
    let m = module_of(rt, alias);
    let names = m.global_names;
    let n = names.len() as int;
    lemma_written_back(m.globals, names, scope.env, n, name);
    assert(names.take(n) =~= names);
    let globals = written_back(m.globals, names, scope.env, n);
    let first = with_module(rt, alias, ModuleModel { globals, ..m });
    lemma_with_module(rt, alias, ModuleModel { globals, ..m });
    let kept = snapshot(first, alias, scope.env, scope.types);
    let k = module_of(first, alias);
    lemma_with_module(
        first,
        alias,
        ModuleModel {
            top_locals: top_locals_of(k, scope.env, scope.env.len() as int),
            top_local_types: top_types_of(k, scope.env, scope.types, scope.env.len() as int),
            ..k
        },
    );
    lemma_with_module(kept, alias, ModuleModel { onstart_executed: true, ..module_of(kept, alias) });
}

/// An exported name has its value and its type, and no other name changes.
pub proof fn exports_are_recorded(
    rt: RuntimeModel,
    alias: Seq<char>,
    name: Seq<char>,
    declared: Seq<char>,
    v: ValueModel,
    other: Seq<char>,
)
    requires
        other != name,
    ensures
        ({
            let before = module_of(rt, alias);
            let after = module_of(exported(rt, alias, name, declared, v), alias);
            &&& after.global_names.contains(name)
            &&& lookup(after.globals, "var."@ + name) == Some(v)
            &&& lookup(after.global_types, name) == Some(declared)
            &&& after.global_names.contains(other) == before.global_names.contains(other)
            &&& lookup(after.globals, "var."@ + other) == lookup(before.globals, "var."@ + other)
            &&& lookup(after.global_types, other) == lookup(before.global_types, other)
            &&& after.top_locals == before.top_locals
        }),
{
    let m = module_of(rt, alias);
    lemma_exported(rt, alias, name, declared, v, other);
    put_then_lookup(m.global_types, name, declared, name);
    put_then_lookup(m.global_types, name, declared, other);
    lemma_with_module(
        rt,
        alias,
        ModuleModel {
            globals: put(m.globals, "var."@ + name, v),
            global_names: if m.global_names.contains(name) {
                m.global_names
            } else {
                m.global_names.push(name)
            },
            global_types: put(m.global_types, name, declared),
            ..m
        },
    );
}

/// A name that was used for a while has again what it had, in the scope and in what the file
/// exports; no other name changes.
pub proof fn used_names_are_given_back(
    rt: RuntimeModel,
    env: Seq<(Seq<char>, ValueModel)>,
    alias: Seq<char>,
    m: ModuleModel,
    key: Seq<char>,
    saved: Option<ValueModel>,
    other: Seq<char>,
)
    requires
        other != key,
        distinct(keys(env)),
        lookup(rt.modules, alias) == Some(m),
        distinct(keys(m.globals)),
    ensures
        lookup(restored(env, key, saved), key) == saved,
        lookup(restored(env, key, saved), other) == lookup(env, other),
        lookup(module_of(restored_global(rt, alias, key, saved), alias).globals, key) == saved,
        lookup(module_of(restored_global(rt, alias, key, saved), alias).globals, other) == lookup(m.globals, other),
{
    erase_then_lookup(env, key, key);
    erase_then_lookup(env, key, other);
    erase_then_lookup(m.globals, key, key);
    erase_then_lookup(m.globals, key, other);
    let globals = match saved {
        Some(v) => put(m.globals, key, v),
        None => erase(m.globals, key),
    };
    lemma_with_module(rt, alias, ModuleModel { globals, ..m });
    if let Some(v) = saved {
        put_then_lookup(env, key, v, key);
        put_then_lookup(env, key, v, other);
        put_then_lookup(m.globals, key, v, key);
        put_then_lookup(m.globals, key, v, other);
    }
}

proof fn lemma_exported_types(m: ModuleModel, n: int, name: Seq<char>)
    requires
        0 <= n <= m.global_names.len(),
    ensures
        lookup(exported_types(m, n), "var."@ + name) == (if m.global_names.take(n).contains(name) {
            lookup(m.global_types, name)
        } else {
            None
        }),
    decreases n,
{
    let key = "var."@ + name;
    if n > 0 {
        lemma_exported_types(m, n - 1, name);
        let before = exported_types(m, n - 1);
        let names = m.global_names;
        let last = names[n - 1];
        if last != name {
            lemma_keys_differ(last, name);
        }
        if let Some(t) = lookup(m.global_types, last) {
            put_then_lookup(before, "var."@ + last, t, key);
        }
        assert(names.take(n) =~= names.take(n - 1).push(last));
        if names.take(n - 1).contains(name) {
            let i = names.take(n - 1).index_of(name);
            assert(names.take(n)[i] == name);
        }
        if last == name {
            assert(names.take(n)[n - 1] == name);
        }
        if names.take(n).contains(name) {
            let i = names.take(n).index_of(name);
            assert(i < n - 1 ==> names.take(n - 1)[i] == name);
        }
    } else {
        lemma_missing(exported_types(m, 0), key);
    }
}

/// A function knows the declared types of what it sees.
pub proof fn functions_know_types(rt: RuntimeModel, alias: Seq<char>, name: Seq<char>)
    requires
        distinct(keys(module_of(rt, alias).top_local_types)),
    ensures
        ({
            let m = module_of(rt, alias);
            lookup(merged_types(rt, alias), "var."@ + name) == match lookup(m.top_local_types, "var."@ + name) {
                Some(t) => Some(t),
                None => if m.global_names.contains(name) {
                    lookup(m.global_types, name)
                } else {
                    None
                },
            }
        }),
{
    let m = module_of(rt, alias);
    let n = m.global_names.len() as int;
    lemma_exported_types(m, n, name);
    assert(m.global_names.take(n) =~= m.global_names);
    lemma_overlaid(exported_types(m, n), m.top_local_types, m.top_local_types.len() as int, "var."@ + name);
    lemma_missing(m.top_local_types, "var."@ + name);
}

} // verus!
