//! Widgets: pure data until a window is run.

use crate::ast::{block, copy_values, entries, texts, values, GuiKind, Statement, StatementModel, Value, ValueModel};
use crate::builtins::{expect_int, int_in};
use crate::draft::{
    debug, text, text_2, text_3, text_4, text_5, throw_err, throw_model, throw_pieces, throw_text, Failure,
    FailureModel, Piece, PieceModel,
};
use crate::runtime::{
    check_type, fits, handler_lists, lookup_scoped, scoped, type_complaint, value_opt, GuiEntry, GuiModel,
    ModuleRuntime, RuntimeModel, Scope, ScopeModel,
};
use crate::show::{int_text, kind_name, kind_text, type_of, value_type_name, write_int};
use crate::table::{erase, find, find_id, key_texts, keys, lookup, place, put};
use crate::text::same;
use vstd::prelude::*;

verus! {

/// The kind of widget that a type stands for.
pub open spec fn widget_kind(declared: Seq<char>) -> Option<GuiKind> {
    if declared == "window"@ {
        Some(GuiKind::Window)
    } else if declared == "button"@ {
        Some(GuiKind::Button)
    } else {
        None
    }
}

pub fn gui_kind_of(declared: &str) -> (r: Option<GuiKind>)
    ensures
        r == widget_kind(declared@),
{
    if same(declared, "window") {
        Some(GuiKind::Window)
    } else if same(declared, "button") {
        Some(GuiKind::Button)
    } else {
        None
    }
}

/// A widget as it is made.
pub open spec fn new_widget(kind: GuiKind, title: Seq<char>) -> GuiModel {
    GuiModel { kind, title, parent: None, children: seq![], pos: None, handlers: seq![], closed: false }
}

/// The runtime with a new widget.
pub open spec fn constructed(rt: RuntimeModel, kind: GuiKind, title: Seq<char>) -> RuntimeModel {
    RuntimeModel {
        gui: put(rt.gui, rt.gui_next, new_widget(kind, title)),
        gui_next: rt.gui_next.wrapping_add(1),
        ..rt
    }
}

/// The runtime with a widget changed.
pub open spec fn with_widget(rt: RuntimeModel, id: u64, w: GuiModel) -> RuntimeModel {
    RuntimeModel { gui: put(rt.gui, id, w), ..rt }
}

/// The runtime without a widget.
pub open spec fn without_widget(rt: RuntimeModel, id: u64) -> RuntimeModel {
    RuntimeModel { gui: erase(rt.gui, id), ..rt }
}

fn find_widget(rt: &ModuleRuntime, id: u64) -> (r: Option<usize>)
    ensures
        match r {
            Some(i) => place(keys(rt@.gui), id) == Some(i as int) && i < rt.gui@.len() && lookup(rt@.gui, id) == Some(
                rt.gui@[i as int].1@,
            ) && rt.gui@[i as int].0 == id,
            None => lookup(rt@.gui, id) is None && place(keys(rt@.gui), id) is None,
        },
{
    assert(keys(rt@.gui) =~= keys(rt.gui@));
    find_id(&rt.gui, id)
}

/// Whether the widget is there.
pub fn has_widget(rt: &ModuleRuntime, id: u64) -> (r: bool)
    ensures
        r == (lookup(rt@.gui, id) is Some),
{
    find_widget(rt, id).is_some()
}

/// Whether the id names a window that can run.
pub fn can_run(rt: &ModuleRuntime, id: u64) -> (r: bool)
    ensures
        r == (match lookup(rt@.gui, id) {
            Some(w) => w.kind is Window && !w.closed,
            None => false,
        }),
{
    match find_widget(rt, id) {
        Some(i) => (match rt.gui[i].1.kind {
            GuiKind::Window => true,
            GuiKind::Button => false,
        }) && !rt.gui[i].1.closed,
        None => false,
    }
}

/// Makes a widget from its title.
pub fn gui_construct(rt: &mut ModuleRuntime, kind: GuiKind, title: String) -> (r: Value)
    ensures
        final(rt)@ == constructed(old(rt)@, kind, title@),
        r@ == (ValueModel::Gui { kind, id: old(rt)@.gui_next }),
{
    let ghost was = rt@;
    let id: u64 = rt.gui_next;
    let w = GuiEntry {
        kind,
        title,
        parent: None,
        children: Vec::new(),
        pos: None,
        handlers: Vec::new(),
        closed: false,
    };
    assert(w@ =~= new_widget(kind, title@));
    rt.gui_next = id.wrapping_add(1);
    match find_widget(rt, id) {
        Some(i) => {
            rt.gui[i] = (id, w);
            assert(rt@.gui =~= was.gui.update(i as int, (id, new_widget(kind, title@))));
        },
        None => {
            rt.gui.push((id, w));
            assert(rt@.gui =~= was.gui.push((id, new_widget(kind, title@))));
        },
    }
    Value::Gui { kind, id }
}

pub fn remove_widget(rt: &mut ModuleRuntime, id: u64)
    ensures
        final(rt)@ == without_widget(old(rt)@, id),
{
    let ghost was = rt@;
    match find_widget(rt, id) {
        Some(i) => {
            rt.gui.remove(i);
            assert(rt@.gui =~= was.gui.remove(i as int));
        },
        None => {},
    }
}

/// What a declaration of a widget variable stores: a string makes a widget,
/// anything else has to fit.
pub open spec fn declared_widget(
    rt: RuntimeModel,
    slot: Seq<char>,
    declared: Seq<char>,
    kind: GuiKind,
    v: ValueModel,
) -> Result<(RuntimeModel, ValueModel), FailureModel> {
    match v {
        ValueModel::String(title) => Ok((constructed(rt, kind, title), ValueModel::Gui { kind, id: rt.gui_next })),
        _ => if fits(declared, v) {
            Ok((rt, v))
        } else {
            Err(type_complaint(slot, declared, v))
        },
    }
}

/// `r` and the runtime behind it are what `want` says; nothing changes where it
/// fails.
pub open spec fn comes_to(
    r: Result<Value, Failure>,
    was: RuntimeModel,
    is: RuntimeModel,
    want: Result<(RuntimeModel, ValueModel), FailureModel>,
) -> bool {
    match r {
        Ok(v) => want == Ok::<_, FailureModel>((is, v@)),
        Err(e) => want == Err::<(RuntimeModel, ValueModel), _>(e@) && is == was,
    }
}

pub fn gui_declare_value(rt: &mut ModuleRuntime, slot: &str, declared: &str, kind: GuiKind, v: Value) -> (r: Result<
    Value,
    Failure,
>)
    ensures
        comes_to(r, old(rt)@, final(rt)@, declared_widget(old(rt)@, slot@, declared@, kind, v@)),
{
    match v {
        Value::String(title) => Ok(gui_construct(rt, kind, title)),
        other => {
            check_type(slot, declared, &other)?;
            Ok(other)
        },
    }
}

pub open spec fn slot_closed(slot: Seq<char>) -> FailureModel {
    throw_model(
        "GuiError"@,
        seq![PieceModel::Text("var."@), PieceModel::Text(slot), PieceModel::Text(": widget was closed"@)],
    )
}

fn complain_slot_closed(slot: &str) -> (r: Failure)
    ensures
        r@ == slot_closed(slot@),
{
    throw_pieces("GuiError", text_3(text("var."), text(slot), text(": widget was closed")))
}

/// What an assignment to a widget variable stores: a string retitles, null
/// closes, a handle of the same kind is swapped in.
pub open spec fn assigned_widget(
    rt: RuntimeModel,
    slot: Seq<char>,
    declared: Seq<char>,
    kind: GuiKind,
    current: Option<ValueModel>,
    v: ValueModel,
) -> Result<(RuntimeModel, ValueModel), FailureModel> {
    match (current, v) {
        (Some(ValueModel::Gui { id, .. }), ValueModel::String(title)) => match lookup(rt.gui, id) {
            Some(w) => Ok((with_widget(rt, id, GuiModel { title, ..w }), ValueModel::Gui { kind, id })),
            None => Err(slot_closed(slot)),
        },
        (Some(ValueModel::Gui { id, .. }), ValueModel::Null) => Ok((without_widget(rt, id), ValueModel::Null)),
        (_, ValueModel::String(title)) => Ok(
            (constructed(rt, kind, title), ValueModel::Gui { kind, id: rt.gui_next }),
        ),
        (_, ValueModel::Null) => Ok((rt, ValueModel::Null)),
        (Some(ValueModel::Gui { kind: ck, id: cid }), ValueModel::Gui { kind: nk, id: nid }) => if ck == kind && nk
            == kind {
            if lookup(rt.gui, nid) is Some {
                Ok((without_widget(rt, cid), ValueModel::Gui { kind, id: nid }))
            } else {
                Err(slot_closed(slot))
            }
        } else {
            kept(rt, slot, declared, v)
        },
        (None, ValueModel::Gui { kind: nk, id: nid }) => if nk == kind {
            if lookup(rt.gui, nid) is Some {
                Ok((rt, ValueModel::Gui { kind, id: nid }))
            } else {
                Err(slot_closed(slot))
            }
        } else {
            kept(rt, slot, declared, v)
        },
        _ => kept(rt, slot, declared, v),
    }
}

/// A value that is stored as it is if it fits.
pub open spec fn kept(rt: RuntimeModel, slot: Seq<char>, declared: Seq<char>, v: ValueModel) -> Result<
    (RuntimeModel, ValueModel),
    FailureModel,
> {
    if fits(declared, v) {
        Ok((rt, v))
    } else {
        Err(type_complaint(slot, declared, v))
    }
}

fn keep(slot: &str, declared: &str, v: Value) -> (r: Result<Value, Failure>)
    ensures
        match r {
            Ok(w) => fits(declared@, v@) && w@ == v@,
            Err(e) => !fits(declared@, v@) && e@ == type_complaint(slot@, declared@, v@),
        },
{
    check_type(slot, declared, &v)?;
    Ok(v)
}

fn retitle(rt: &mut ModuleRuntime, id: u64, title: String) -> (r: bool)
    ensures
        match lookup(old(rt)@.gui, id) {
            Some(w) => r && final(rt)@ == with_widget(old(rt)@, id, GuiModel { title: title@, ..w }),
            None => !r && final(rt)@ == old(rt)@,
        },
{
    let ghost was = rt@;
    match find_widget(rt, id) {
        Some(i) => {
            rt.gui[i].1.title = title;
            assert(rt@.gui =~= was.gui.update(i as int, (id, rt.gui@[i as int].1@)));
            true
        },
        None => false,
    }
}

pub fn gui_assign_slot(
    rt: &mut ModuleRuntime,
    slot: &str,
    declared: &str,
    kind: GuiKind,
    current: Option<Value>,
    v: Value,
) -> (r: Result<Value, Failure>)
    ensures
        comes_to(
            r,
            old(rt)@,
            final(rt)@,
            assigned_widget(old(rt)@, slot@, declared@, kind, value_opt(current), v@),
        ),
{
    match (current, v) {
        (Some(Value::Gui { id, .. }), Value::String(title)) => {
            if retitle(rt, id, title) {
                Ok(Value::Gui { kind, id })
            } else {
                Err(complain_slot_closed(slot))
            }
        },
        (Some(Value::Gui { id, .. }), Value::Null) => {
            remove_widget(rt, id);
            Ok(Value::Null)
        },
        (_, Value::String(title)) => Ok(gui_construct(rt, kind, title)),
        (_, Value::Null) => Ok(Value::Null),
        (Some(Value::Gui { kind: ck, id: cid }), Value::Gui { kind: nk, id: nid }) => {
            if ck == kind && nk == kind {
                if has_widget(rt, nid) {
                    remove_widget(rt, cid);
                    Ok(Value::Gui { kind, id: nid })
                } else {
                    Err(complain_slot_closed(slot))
                }
            } else {
                keep(slot, declared, Value::Gui { kind: nk, id: nid })
            }
        },
        (None, Value::Gui { kind: nk, id: nid }) => {
            if nk == kind {
                if has_widget(rt, nid) {
                    Ok(Value::Gui { kind, id: nid })
                } else {
                    Err(complain_slot_closed(slot))
                }
            } else {
                keep(slot, declared, Value::Gui { kind: nk, id: nid })
            }
        },
        (_, other) => keep(slot, declared, other),
    }
}

/// The handlers with one more for an event.
pub open spec fn with_handler(h: Seq<(Seq<char>, Seq<ValueModel>)>, event: Seq<char>, f: ValueModel) -> Seq<
    (Seq<char>, Seq<ValueModel>),
> {
    put(
        h,
        event,
        match lookup(h, event) {
            Some(list) => list.push(f),
            None => seq![f],
        },
    )
}

/// The handlers of an event, in the order in which they came.
pub open spec fn handlers_of(rt: RuntimeModel, id: u64, event: Seq<char>) -> Seq<ValueModel> {
    match lookup(rt.gui, id) {
        Some(w) => match lookup(w.handlers, event) {
            Some(list) => list,
            None => seq![],
        },
        None => seq![],
    }
}

/// The runtime with one more handler of a widget for an event.
pub open spec fn with_event(rt: RuntimeModel, id: u64, event: Seq<char>, f: ValueModel) -> RuntimeModel {
    match lookup(rt.gui, id) {
        Some(w) => with_widget(rt, id, GuiModel { handlers: with_handler(w.handlers, event, f), ..w }),
        None => rt,
    }
}

fn add_handler(rt: &mut ModuleRuntime, id: u64, event: &str, f: Value) -> (r: bool)
    ensures
        r == (lookup(old(rt)@.gui, id) is Some),
        final(rt)@ == with_event(old(rt)@, id, event@, f@),
{
    let ghost was = rt@;
    match find_widget(rt, id) {
        Some(i) => {
            let ghost h = handler_lists(rt.gui@[i as int].1.handlers@);
            assert(keys(h) =~= key_texts(rt.gui@[i as int].1.handlers@));
            match find(&rt.gui[i].1.handlers, event) {
                Some(k) => {
                    let ghost list = rt.gui@[i as int].1.handlers@[k as int].1@;
                    rt.gui[i].1.handlers[k].1.push(f);
                    proof {
                        assert(values(list.push(f)) =~= values(list).push(f@));
                        assert(handler_lists(rt.gui@[i as int].1.handlers@) =~= h.update(
                            k as int,
                            (event@, values(list).push(f@)),
                        ));
                    }
                },
                None => {
                    let mut list: Vec<Value> = Vec::new();
                    list.push(f);
                    assert(values(list@) =~= seq![f@]);
                    rt.gui[i].1.handlers.push((event.to_string(), list));
                    assert(handler_lists(rt.gui@[i as int].1.handlers@) =~= h.push((event@, seq![f@])));
                },
            }
            assert(rt@.gui =~= was.gui.update(i as int, (id, rt.gui@[i as int].1@)));
            true
        },
        None => false,
    }
}

/// The handlers of an event, in the order in which they came.
pub fn find_handlers(rt: &ModuleRuntime, id: u64, event: &str) -> (r: Vec<Value>)
    ensures
        values(r@) == handlers_of(rt@, id, event@),
{
    match find_widget(rt, id) {
        Some(i) => {
            let ghost h = handler_lists(rt.gui@[i as int].1.handlers@);
            assert(keys(h) =~= key_texts(rt.gui@[i as int].1.handlers@));
            match find(&rt.gui[i].1.handlers, event) {
                Some(k) => copy_values(&rt.gui[i].1.handlers[k].1),
                None => {
                    let r: Vec<Value> = Vec::new();
                    assert(values(r@) =~= seq![]);
                    r
                },
            }
        },
        None => {
            let r: Vec<Value> = Vec::new();
            assert(values(r@) =~= seq![]);
            r
        },
    }
}

/// Whether widgets of the kind have the event.
pub open spec fn has_event(kind: GuiKind, event: Seq<char>) -> bool {
    match kind {
        GuiKind::Window => event == "OnStart"@ || event == "OnExit"@,
        GuiKind::Button => event == "OnClick"@,
    }
}

/// The complaint that a widget is gone.
pub open spec fn closed_complaint(kind: GuiKind) -> FailureModel {
    throw_model("GuiError"@, seq![PieceModel::Text(kind_name(kind)), PieceModel::Text(" was closed"@)])
}

pub fn complain_closed(kind: GuiKind) -> (r: Failure)
    ensures
        r@ == closed_complaint(kind),
{
    throw_pieces("GuiError", text_2(Piece::Text(kind_text(kind)), text(" was closed")))
}

/// The runtime after an event block: its body is one more handler.
pub open spec fn registered(
    rt: RuntimeModel,
    scope: ScopeModel,
    object: Seq<char>,
    event: Seq<char>,
    body: Seq<StatementModel>,
) -> Result<RuntimeModel, FailureModel> {
    match scoped(rt, scope, object) {
        None => Err(
            throw_model("NameError"@, seq![PieceModel::Text("Unknown variable: "@), PieceModel::Text(object)]),
        ),
        Some(ValueModel::Gui { kind, id }) => if !has_event(kind, event) {
            Err(
                throw_model(
                    "NameError"@,
                    seq![
                        PieceModel::Text("Unknown "@),
                        PieceModel::Text(kind_name(kind)),
                        PieceModel::Text(" event: "@),
                        PieceModel::Text(event),
                    ],
                ),
            )
        } else if lookup(rt.gui, id) is None {
            Err(closed_complaint(kind))
        } else {
            Ok(
                with_event(rt, id, event, ValueModel::Function { params: seq![], defaults: seq![], body }),
            )
        },
        Some(other) => Err(
            throw_model(
                "TypeError"@,
                seq![
                    PieceModel::Text(object),
                    PieceModel::Text("."@),
                    PieceModel::Text(event),
                    PieceModel::Text(": "@),
                    PieceModel::Text(type_of(other) + " is not a widget"@),
                ],
            ),
        ),
    }
}

fn is_event(kind: GuiKind, event: &str) -> (r: bool)
    ensures
        r == has_event(kind, event@),
{
    match kind {
        GuiKind::Window => same(event, "OnStart") || same(event, "OnExit"),
        GuiKind::Button => same(event, "OnClick"),
    }
}

pub fn gui_register_event(rt: &mut ModuleRuntime, scope: &Scope, object: &str, event: &str, body: Vec<Statement>) -> (r:
    Result<(), Failure>)
    ensures
        match r {
            Ok(_) => registered(old(rt)@, scope@, object@, event@, block(body@)) == Ok::<_, FailureModel>(final(rt)@),
            Err(e) => registered(old(rt)@, scope@, object@, event@, block(body@)) == Err::<RuntimeModel, _>(e@)
                && final(rt)@ == old(rt)@,
        },
{
    match lookup_scoped(object, rt, scope) {
        None => Err(throw_pieces("NameError", text_2(text("Unknown variable: "), text(object)))),
        Some(Value::Gui { kind, id }) => {
            if !is_event(kind, event) {
                return Err(
                    throw_pieces(
                        "NameError",
                        text_4(text("Unknown "), Piece::Text(kind_text(kind)), text(" event: "), text(event)),
                    ),
                );
            }
            if !has_widget(rt, id) {
                return Err(complain_closed(kind));
            }
            let params: Vec<String> = Vec::new();
            let defaults: Vec<(String, Value)> = Vec::new();
            assert(texts(params@) =~= seq![]);
            assert(entries(defaults@) =~= seq![]);
            add_handler(rt, id, event, Value::Function { params, defaults, body });
            Ok(())
        },
        Some(other) => Err(
            throw_pieces(
                "TypeError",
                text_5(
                    text(object),
                    text("."),
                    text(event),
                    text(": "),
                    Piece::Text(value_type_name(&other).concat(" is not a widget")),
                ),
            ),
        ),
    }
}

/// What a method of a widget comes to: a changed runtime, or the wish to run the
/// window.
pub enum MethodModel {
    Done(RuntimeModel),
    Run,
}

/// `AttachToWindow`
pub open spec fn attached(rt: RuntimeModel, id: u64, window: u64) -> RuntimeModel {
    let a = match lookup(rt.gui, id) {
        Some(b) => with_widget(rt, id, GuiModel { parent: Some(window), ..b }),
        None => rt,
    };
    match lookup(a.gui, window) {
        Some(w) => if w.children.contains(id) {
            a
        } else {
            with_widget(a, window, GuiModel { children: w.children.push(id), ..w })
        },
        None => a,
    }
}

/// A method of a widget on its arguments.
pub open spec fn method_result(
    rt: RuntimeModel,
    kind: GuiKind,
    id: u64,
    method: Seq<char>,
    args: Seq<ValueModel>,
) -> Result<MethodModel, FailureModel> {
    if kind is Window && method == "Run"@ {
        if args.len() == 0 {
            Ok(MethodModel::Run)
        } else {
            Err(throw_text("ValueError"@, "Run expects no arguments"@))
        }
    } else if kind is Button && method == "AttachToWindow"@ {
        if args.len() == 1 {
            match args[0] {
                ValueModel::Gui { kind: GuiKind::Window, id: window } => if lookup(rt.gui, window) is None {
                    Err(throw_text("GuiError"@, "window was closed"@))
                } else {
                    Ok(MethodModel::Done(attached(rt, id, window)))
                },
                other => Err(
                    throw_model(
                        "TypeError"@,
                        seq![
                            PieceModel::Text("AttachToWindow expects a window handle, got "@),
                            PieceModel::Debug(other),
                        ],
                    ),
                ),
            }
        } else {
            Err(throw_text("ValueError"@, "AttachToWindow expects (window)"@))
        }
    } else if kind is Button && method == "SetPos"@ {
        if args.len() == 2 {
            match int_in(args[0], "SetPos"@) {
                Err(e) => Err(e),
                Ok(x) => match int_in(args[1], "SetPos"@) {
                    Err(e) => Err(e),
                    Ok(y) => if x < 0 || y < 0 {
                        Err(
                            throw_model(
                                "ValueError"@,
                                seq![
                                    PieceModel::Text("SetPos coordinates must be >= 0, got ("@),
                                    PieceModel::Text(int_text(x)),
                                    PieceModel::Text(", "@),
                                    PieceModel::Text(int_text(y)),
                                    PieceModel::Text(")"@),
                                ],
                            ),
                        )
                    } else {
                        match lookup(rt.gui, id) {
                            Some(w) => Ok(
                                MethodModel::Done(
                                    with_widget(
                                        rt,
                                        id,
                                        GuiModel { pos: Some(((x as i64) as i32, (y as i64) as i32)), ..w },
                                    ),
                                ),
                            ),
                            None => Err(throw_text("GuiError"@, "button was closed"@)),
                        }
                    },
                },
            }
        } else {
            Err(throw_text("ValueError"@, "SetPos expects (x, y)"@))
        }
    } else if kind is Button && method == "OnClick"@ {
        if args.len() == 1 {
            match args[0] {
                ValueModel::Function { .. } => if lookup(rt.gui, id) is None {
                    Err(throw_text("GuiError"@, "button was closed"@))
                } else {
                    Ok(MethodModel::Done(with_event(rt, id, "OnClick"@, args[0])))
                },
                other => Err(
                    throw_model(
                        "TypeError"@,
                        seq![PieceModel::Text("OnClick expects a function, got "@), PieceModel::Debug(other)],
                    ),
                ),
            }
        } else {
            Err(throw_text("ValueError"@, "OnClick expects (function)"@))
        }
    } else {
        Err(
            throw_model(
                "NameError"@,
                seq![
                    PieceModel::Text("Unknown "@),
                    PieceModel::Text(kind_name(kind)),
                    PieceModel::Text(" method: "@),
                    PieceModel::Text(method),
                ],
            ),
        )
    }
}

pub fn has_child(children: &Vec<u64>, id: u64) -> (r: bool)
    ensures
        r == children@.contains(id),
{
    let mut i: usize = 0;
    while i < children.len()
        invariant
            i <= children@.len(),
            forall|k: int| 0 <= k < i ==> #[trigger] children@[k] != id,
        decreases children@.len() - i,
    {
        if children[i] == id {
            return true;
        }
        i = i + 1;
    }
    false
}

fn attach(rt: &mut ModuleRuntime, id: u64, window: u64)
    ensures
        final(rt)@ == attached(old(rt)@, id, window),
{
    let ghost was = rt@;
    match find_widget(rt, id) {
        Some(i) => {
            rt.gui[i].1.parent = Some(window);
            assert(rt@.gui =~= was.gui.update(i as int, (id, rt.gui@[i as int].1@)));
        },
        None => {},
    }
    let ghost mid = rt@;
    match find_widget(rt, window) {
        Some(i) => {
            if !has_child(&rt.gui[i].1.children, id) {
                rt.gui[i].1.children.push(id);
                assert(rt@.gui =~= mid.gui.update(i as int, (window, rt.gui@[i as int].1@)));
            }
        },
        None => {},
    }
}

fn set_pos(rt: &mut ModuleRuntime, id: u64, x: i64, y: i64) -> (r: bool)
    ensures
        match lookup(old(rt)@.gui, id) {
            Some(w) => r && final(rt)@ == with_widget(
                old(rt)@,
                id,
                GuiModel { pos: Some((x as i32, y as i32)), ..w },
            ),
            None => !r && final(rt)@ == old(rt)@,
        },
{
    let ghost was = rt@;
    match find_widget(rt, id) {
        Some(i) => {
            rt.gui[i].1.pos = Some((x as i32, y as i32));
            assert(rt@.gui =~= was.gui.update(i as int, (id, rt.gui@[i as int].1@)));
            true
        },
        None => false,
    }
}

/// Calls a method of a widget; gives whether the window is to be run.
pub fn gui_method(rt: &mut ModuleRuntime, kind: GuiKind, id: u64, method: &str, args: &Vec<Value>) -> (r: Result<
    bool,
    Failure,
>)
    ensures
        match r {
            Ok(true) => method_result(old(rt)@, kind, id, method@, values(args@)) == Ok::<_, FailureModel>(
                MethodModel::Run,
            ) && final(rt)@ == old(rt)@,
            Ok(false) => method_result(old(rt)@, kind, id, method@, values(args@)) == Ok::<_, FailureModel>(
                MethodModel::Done(final(rt)@),
            ),
            Err(e) => method_result(old(rt)@, kind, id, method@, values(args@)) == Err::<MethodModel, _>(e@)
                && final(rt)@ == old(rt)@,
        },
{
    if kind == GuiKind::Window && same(method, "Run") {
        if args.len() != 0 {
            return Err(throw_err("ValueError", "Run expects no arguments"));
        }
        return Ok(true);
    }
    if kind == GuiKind::Button && same(method, "AttachToWindow") {
        if args.len() != 1 {
            return Err(throw_err("ValueError", "AttachToWindow expects (window)"));
        }
        return match &args[0] {
            Value::Gui { kind: GuiKind::Window, id: window } => {
                if !has_widget(rt, *window) {
                    return Err(throw_err("GuiError", "window was closed"));
                }
                attach(rt, id, *window);
                Ok(false)
            },
            other => Err(
                throw_pieces("TypeError", text_2(text("AttachToWindow expects a window handle, got "), debug(other))),
            ),
        };
    }
    if kind == GuiKind::Button && same(method, "SetPos") {
        if args.len() != 2 {
            return Err(throw_err("ValueError", "SetPos expects (x, y)"));
        }
        let x: i64 = expect_int(&args[0], "SetPos")?;
        let y: i64 = expect_int(&args[1], "SetPos")?;
        if x < 0 || y < 0 {
            return Err(
                throw_pieces(
                    "ValueError",
                    text_5(
                        text("SetPos coordinates must be >= 0, got ("),
                        Piece::Text(write_int(x)),
                        text(", "),
                        Piece::Text(write_int(y)),
                        text(")"),
                    ),
                ),
            );
        }
        if set_pos(rt, id, x, y) {
            return Ok(false);
        }
        return Err(throw_err("GuiError", "button was closed"));
    }
    if kind == GuiKind::Button && same(method, "OnClick") {
        if args.len() != 1 {
            return Err(throw_err("ValueError", "OnClick expects (function)"));
        }
        return match &args[0] {
            Value::Function { .. } => {
                if add_handler(rt, id, "OnClick", args[0].copy()) {
                    Ok(false)
                } else {
                    Err(throw_err("GuiError", "button was closed"))
                }
            },
            other => Err(throw_pieces("TypeError", text_2(text("OnClick expects a function, got "), debug(other)))),
        };
    }
    Err(
        throw_pieces(
            "NameError",
            text_4(text("Unknown "), Piece::Text(kind_text(kind)), text(" method: "), text(method)),
        ),
    )
}

} // verus!
