//! What widgets do and how they are drawn.

use crate::ast::{GuiKind, StatementModel, ValueModel};
use crate::gui::{assigned_widget, declared_widget, handlers_of, method_result, registered, widget_kind, MethodModel};
use crate::number::{finite, truncated};
use crate::outcomes::throws;
use crate::render::{
    all_drawn, attached_buttons, has_button, orphans, scene, windows_among, with_orphans, ButtonModel, DrawnModel,
};
use crate::runtime::{scoped, GuiModel, RuntimeModel, ScopeModel};
use crate::sort::{id_order, orders, sorted_ids, sorting_orders, sorting_permutes};
use crate::table::{distinct, erase_then_lookup, keys, lemma_place, lemma_place_is, lookup, put_then_lookup};
use vstd::prelude::*;

verus! {

/// Whether the runtimes differ in nothing but this widget.
pub open spec fn others_stay(a: RuntimeModel, b: RuntimeModel, id: u64) -> bool {
    &&& forall|other: u64| other != id ==> #[trigger] lookup(a.gui, other) == lookup(b.gui, other)
    &&& a.db_open == b.db_open
    &&& a.db_next == b.db_next
    &&& a.modules == b.modules
    &&& a.call_depth == b.call_depth
    &&& a.gui_running == b.gui_running
    &&& a.loading == b.loading
    &&& a.canonical_to_alias == b.canonical_to_alias
}

/// Whether a widget of this kind, with this title and nothing else, is new under the handle.
pub open spec fn is_new(a: RuntimeModel, b: RuntimeModel, kind: GuiKind, title: Seq<char>) -> bool {
    &&& lookup(b.gui, a.gui_next) matches Some(w) && w.kind == kind && w.title == title && w.parent is None
        && w.children.len() == 0 && w.pos is None && w.handlers.len() == 0 && !w.closed
    &&& b.gui_next != a.gui_next
    &&& a.gui_next < u64::MAX ==> b.gui_next > a.gui_next
    &&& others_stay(a, b, a.gui_next)
}

/// The words for the kinds of widgets.
pub proof fn widgets_have_types(declared: Seq<char>)
    ensures
        declared == "window"@ ==> widget_kind(declared) == Some(GuiKind::Window),
        declared == "button"@ ==> widget_kind(declared) == Some(GuiKind::Button),
        declared != "window"@ && declared != "button"@ ==> widget_kind(declared) is None,
{
    reveal_strlit("window");
    reveal_strlit("button");
    assert("window"@[0] == 'w' && "button"@[0] == 'b');
}

/// A string makes a new widget with that title, where a widget is declared.
pub proof fn declared_titles_make_widgets(
    rt: RuntimeModel,
    slot: Seq<char>,
    declared: Seq<char>,
    kind: GuiKind,
    title: Seq<char>,
)
    ensures
        declared_widget(rt, slot, declared, kind, ValueModel::String(title)) matches Ok((after, v)) && v
            == (ValueModel::Gui { kind, id: rt.gui_next }) && is_new(rt, after, kind, title),
{
    let (after, v) = declared_widget(rt, slot, declared, kind, ValueModel::String(title))->Ok_0;
    assert forall|other: u64| other != rt.gui_next implies #[trigger] lookup(rt.gui, other) == lookup(after.gui, other) by {
        put_then_lookup(rt.gui, rt.gui_next, crate::gui::new_widget(kind, title), other);
    }
    put_then_lookup(rt.gui, rt.gui_next, crate::gui::new_widget(kind, title), rt.gui_next);
}

/// A string that is assigned to a widget changes its title and nothing else. Null closes the
/// widget. Where there was none, a string makes one.
pub proof fn assigned_titles_rename(
    rt: RuntimeModel,
    slot: Seq<char>,
    declared: Seq<char>,
    kind: GuiKind,
    id: u64,
    w: GuiModel,
    title: Seq<char>,
)
    requires
        lookup(rt.gui, id) == Some(w),
        distinct(keys(rt.gui)),
    ensures
        assigned_widget(rt, slot, declared, kind, Some(ValueModel::Gui { kind, id }), ValueModel::String(title)) matches Ok(
            (after, v),
        ) && v == (ValueModel::Gui { kind, id }) && lookup(after.gui, id) == Some(GuiModel { title, ..w }) && others_stay(
            rt,
            after,
            id,
        ) && after.gui_next == rt.gui_next,
        assigned_widget(rt, slot, declared, kind, Some(ValueModel::Gui { kind, id }), ValueModel::Null) matches Ok(
            (after, v),
        ) && v is Null && lookup(after.gui, id) is None && others_stay(rt, after, id),
        assigned_widget(rt, slot, declared, kind, Some(ValueModel::Null), ValueModel::String(title)) matches Ok(
            (after, v),
        ) && v == (ValueModel::Gui { kind, id: rt.gui_next }) && is_new(rt, after, kind, title),
{
    let renamed = assigned_widget(
        rt,
        slot,
        declared,
        kind,
        Some(ValueModel::Gui { kind, id }),
        ValueModel::String(title),
    )->Ok_0.0;
    let closed = assigned_widget(rt, slot, declared, kind, Some(ValueModel::Gui { kind, id }), ValueModel::Null)->Ok_0.0;
    let made = assigned_widget(rt, slot, declared, kind, Some(ValueModel::Null), ValueModel::String(title))->Ok_0.0;
    assert forall|other: u64| other != id implies #[trigger] lookup(rt.gui, other) == lookup(renamed.gui, other)
        && lookup(rt.gui, other) == lookup(closed.gui, other) by {
        put_then_lookup(rt.gui, id, GuiModel { title, ..w }, other);
        erase_then_lookup(rt.gui, id, other);
    }
    put_then_lookup(rt.gui, id, GuiModel { title, ..w }, id);
    erase_then_lookup(rt.gui, id, id);
    assert forall|other: u64| other != rt.gui_next implies #[trigger] lookup(rt.gui, other) == lookup(made.gui, other) by {
        put_then_lookup(rt.gui, rt.gui_next, crate::gui::new_widget(kind, title), other);
    }
    put_then_lookup(rt.gui, rt.gui_next, crate::gui::new_widget(kind, title), rt.gui_next);
}

/// A handle that is assigned to a widget takes its place, which closes the old one. A handle
/// of a widget that was closed is a `GuiError`, and one of another kind a `TypeError`.
pub proof fn assigned_handles_take_over(
    rt: RuntimeModel,
    slot: Seq<char>,
    kind: GuiKind,
    id: u64,
    next: u64,
    other: GuiKind,
)
    requires
        id != next,
        other != kind,
        distinct(keys(rt.gui)),
    ensures
        ({
            let declared = if kind is Window { "window"@ } else { "button"@ };
            let old_one = Some(ValueModel::Gui { kind, id });
            &&& lookup(rt.gui, next) is Some ==> (assigned_widget(
                rt,
                slot,
                declared,
                kind,
                old_one,
                ValueModel::Gui { kind, id: next },
            ) matches Ok((after, v)) && v == (ValueModel::Gui { kind, id: next }) && lookup(after.gui, id) is None
                && others_stay(rt, after, id))
            &&& lookup(rt.gui, next) is None ==> throws(
                assigned_widget(rt, slot, declared, kind, old_one, ValueModel::Gui { kind, id: next }),
                "GuiError"@,
            )
            &&& throws(
                assigned_widget(rt, slot, declared, kind, old_one, ValueModel::Gui { kind: other, id: next }),
                "TypeError"@,
            )
        }),
{
    reveal_strlit("window");
    reveal_strlit("button");
    assert("window"@[0] == 'w' && "button"@[0] == 'b');
    erase_then_lookup(rt.gui, id, id);
    assert forall|k: u64| k != id implies lookup(crate::table::erase(rt.gui, id), k) == #[trigger] lookup(rt.gui, k) by {
        erase_then_lookup(rt.gui, id, k);
    }
}

/// How the names of the methods and events of widgets are spelled, as far as it tells them
/// apart.
proof fn lemma_method_names()
    ensures
        "Run"@.len() == 3,
        "AttachToWindow"@.len() == 14,
        "SetPos"@.len() == 6 && "SetPos"@[0] == 'S',
        "OnClick"@.len() == 7 && "OnClick"@[2] == 'C',
        "OnStart"@.len() == 7 && "OnStart"@[2] == 'S',
        "OnExit"@.len() == 6 && "OnExit"@[0] == 'O',
{
    reveal_strlit("Run");
    reveal_strlit("AttachToWindow");
    reveal_strlit("SetPos");
    reveal_strlit("OnClick");
    reveal_strlit("OnStart");
    reveal_strlit("OnExit");
}

/// Whether a method changed nothing but what it returns.
pub open spec fn changes(r: Result<MethodModel, crate::draft::FailureModel>, rt: RuntimeModel, id: u64) -> bool {
    r matches Ok(MethodModel::Done(after)) && others_stay(rt, after, id) && after.gui_next == rt.gui_next
}

/// `SetPos` places a button at the integers that it is given, first across and then down.
pub proof fn positions_are_set(rt: RuntimeModel, id: u64, w: GuiModel, x: u64, y: u64)
    requires
        lookup(rt.gui, id) == Some(w),
        finite(x),
        finite(y),
        i64::MIN <= truncated(x) <= i64::MAX,
        i64::MIN <= truncated(y) <= i64::MAX,
    ensures
        ({
            let r = method_result(
                rt,
                GuiKind::Button,
                id,
                "SetPos"@,
                seq![ValueModel::Number(x), ValueModel::Number(y)],
            );
            &&& 0 <= truncated(x) <= i32::MAX && 0 <= truncated(y) <= i32::MAX ==> changes(r, rt, id) && lookup(
                r->Ok_0->Done_0.gui,
                id,
            ) == Some(GuiModel { pos: Some((truncated(x) as i32, truncated(y) as i32)), ..w })
            &&& truncated(x) < 0 || truncated(y) < 0 ==> throws(r, "ValueError"@)
        }),
{
    lemma_method_names();
    let new_one = GuiModel {
        pos: Some(((truncated(x) as i64) as i32, (truncated(y) as i64) as i32)),
        ..w
    };
    put_then_lookup(rt.gui, id, new_one, id);
    assert forall|k: u64| k != id implies lookup(crate::table::put(rt.gui, id, new_one), k) == #[trigger] lookup(rt.gui, k) by {
        put_then_lookup(rt.gui, id, new_one, k);
    }
}

/// `AttachToWindow` makes the window the parent of the button and the button a child of the
/// window, once and behind those that it had.
pub proof fn buttons_are_attached(rt: RuntimeModel, id: u64, b: GuiModel, window: u64, w: GuiModel)
    requires
        id != window,
        lookup(rt.gui, id) == Some(b),
        lookup(rt.gui, window) == Some(w),
    ensures
        method_result(
            rt,
            GuiKind::Button,
            id,
            "AttachToWindow"@,
            seq![ValueModel::Gui { kind: GuiKind::Window, id: window }],
        ) matches Ok(MethodModel::Done(after)) && {
            &&& lookup(after.gui, id) == Some(GuiModel { parent: Some(window), ..b })
            &&& w.children.contains(id) ==> lookup(after.gui, window) == Some(w)
            &&& !w.children.contains(id) ==> lookup(after.gui, window) == Some(
                GuiModel { children: w.children.push(id), ..w },
            )
            &&& forall|other: u64|
                other != id && other != window ==> #[trigger] lookup(after.gui, other) == lookup(rt.gui, other)
        },
{
    lemma_method_names();
    let child = GuiModel { parent: Some(window), ..b };
    let first = crate::table::put(rt.gui, id, child);
    let parent = GuiModel { children: w.children.push(id), ..w };
    put_then_lookup(rt.gui, id, child, id);
    put_then_lookup(rt.gui, id, child, window);
    put_then_lookup(first, window, parent, id);
    put_then_lookup(first, window, parent, window);
    assert forall|k: u64| k != id && k != window implies lookup(first, k) == #[trigger] lookup(rt.gui, k) && lookup(
        crate::table::put(first, window, parent),
        k,
    ) == lookup(rt.gui, k) by {
        put_then_lookup(rt.gui, id, child, k);
        put_then_lookup(first, window, parent, k);
    }
}

/// `OnClick` adds a handler for clicks behind those that the button has, and so does an event
/// block; the other events of a widget are those of its kind.
pub proof fn handlers_are_added(
    rt: RuntimeModel,
    scope: ScopeModel,
    object: Seq<char>,
    kind: GuiKind,
    id: u64,
    event: Seq<char>,
    body: Seq<StatementModel>,
    f: ValueModel,
)
    requires
        lookup(rt.gui, id) is Some,
        f is Function,
    ensures
        method_result(rt, GuiKind::Button, id, "OnClick"@, seq![f]) matches Ok(MethodModel::Done(after)) && handlers_of(
            after,
            id,
            "OnClick"@,
        ) == handlers_of(rt, id, "OnClick"@).push(f),
        scoped(rt, scope, object) == Some(ValueModel::Gui { kind, id }) ==> {
            let known = (kind is Window && (event == "OnStart"@ || event == "OnExit"@)) || (kind is Button && event
                == "OnClick"@);
            &&& known ==> (registered(rt, scope, object, event, body) matches Ok(after) && handlers_of(after, id, event)
                == handlers_of(rt, id, event).push(ValueModel::Function { params: seq![], defaults: seq![], body }))
            &&& !known ==> throws(registered(rt, scope, object, event, body), "NameError"@)
        },
        scoped(rt, scope, object) is None ==> throws(registered(rt, scope, object, event, body), "NameError"@),
        scoped(rt, scope, object) matches Some(v) ==> !(v is Gui) ==> throws(
            registered(rt, scope, object, event, body),
            "TypeError"@,
        ),
{
    lemma_method_names();
    let other = event.push('x');
    assert(other.len() == event.len() + 1);
    let more = "OnClick"@.push('x');
    assert(more.len() == "OnClick"@.len() + 1);
    crate::laws::handlers_keep_their_order(rt, id, "OnClick"@, f, more);
    crate::laws::handlers_keep_their_order(
        rt,
        id,
        event,
        ValueModel::Function { params: seq![], defaults: seq![], body },
        other,
    );
}

/// A window runs; a button is attached, placed and clicked. Other methods are a `NameError`,
/// too few or too many arguments a `ValueError`, arguments of another type a `TypeError`, and
/// a widget that was closed a `GuiError`.
pub proof fn methods_have_limits(
    rt: RuntimeModel,
    kind: GuiKind,
    id: u64,
    method: Seq<char>,
    args: Seq<ValueModel>,
    v: ValueModel,
    n: ValueModel,
)
    ensures
        method_result(rt, GuiKind::Window, id, "Run"@, seq![]) == Ok::<_, crate::draft::FailureModel>(MethodModel::Run),
        args.len() != 0 ==> throws(method_result(rt, GuiKind::Window, id, "Run"@, args), "ValueError"@),
        args.len() != 1 ==> throws(method_result(rt, GuiKind::Button, id, "AttachToWindow"@, args), "ValueError"@),
        args.len() != 1 ==> throws(method_result(rt, GuiKind::Button, id, "OnClick"@, args), "ValueError"@),
        args.len() != 2 ==> throws(method_result(rt, GuiKind::Button, id, "SetPos"@, args), "ValueError"@),
        !(v is Function) ==> throws(method_result(rt, GuiKind::Button, id, "OnClick"@, seq![v]), "TypeError"@),
        !(v is Gui) ==> throws(method_result(rt, GuiKind::Button, id, "AttachToWindow"@, seq![v]), "TypeError"@),
        v matches ValueModel::Gui { kind: GuiKind::Button, .. } ==> throws(
            method_result(rt, GuiKind::Button, id, "AttachToWindow"@, seq![v]),
            "TypeError"@,
        ),
        v matches ValueModel::Gui { kind: GuiKind::Window, id: w } ==> lookup(rt.gui, w) is None ==> throws(
            method_result(rt, GuiKind::Button, id, "AttachToWindow"@, seq![v]),
            "GuiError"@,
        ),
        v is Function && lookup(rt.gui, id) is None ==> throws(
            method_result(rt, GuiKind::Button, id, "OnClick"@, seq![v]),
            "GuiError"@,
        ),
        !(v is Number) ==> throws(method_result(rt, GuiKind::Button, id, "SetPos"@, seq![v, n]), "TypeError"@),
        kind is Window && method != "Run"@ ==> throws(method_result(rt, kind, id, method, args), "NameError"@),
        kind is Button && method != "AttachToWindow"@ && method != "SetPos"@ && method != "OnClick"@ ==> throws(
            method_result(rt, kind, id, method, args),
            "NameError"@,
        ),
{
    lemma_method_names();
}

// Drawing.
/// Whether the entry at `i` is an open window.
pub open spec fn is_window(gui: Seq<(u64, GuiModel)>, i: int) -> bool {
    0 <= i < gui.len() && gui[i].1.kind is Window && !gui[i].1.closed
}

proof fn lemma_windows(gui: Seq<(u64, GuiModel)>, run: u64, own: bool, n: int)
    requires
        0 <= n <= gui.len(),
    ensures
        forall|id: u64| #[trigger]
            windows_among(gui, run, own, n).contains(id) <==> (id == run) == own && exists|i: int|
                0 <= i < n && is_window(gui, i) && (#[trigger] gui[i]).0 == id,
    decreases n,
{
    if n > 0 {
        lemma_windows(gui, run, own, n - 1);
        let before = windows_among(gui, run, own, n - 1);
        let after = windows_among(gui, run, own, n);
        assert forall|id: u64| #[trigger] after.contains(id) <==> (id == run) == own && exists|i: int|
            0 <= i < n && is_window(gui, i) && (#[trigger] gui[i]).0 == id by {
            if after.contains(id) {
                let k = after.index_of(id);
                if k < before.len() {
                    assert(before[k] == id);
                    assert(before.contains(id));
                    let i = choose|i: int| 0 <= i < n - 1 && is_window(gui, i) && (#[trigger] gui[i]).0 == id;
                    assert(gui[i].0 == id);
                } else {
                    assert(gui[n - 1].0 == id);
                }
            }
            if (id == run) == own && exists|i: int| 0 <= i < n && is_window(gui, i) && (#[trigger] gui[i]).0 == id {
                let i = choose|i: int| 0 <= i < n && is_window(gui, i) && (#[trigger] gui[i]).0 == id;
                if i < n - 1 {
                    assert(before.contains(id));
                    let k = before.index_of(id);
                    assert(after[k] == id);
                } else {
                    assert(after.last() == id);
                }
            }
        }
    }
}

proof fn lemma_drawn(gui: Seq<(u64, GuiModel)>, run: u64, ids: Seq<u64>, n: int)
    requires
        0 <= n <= ids.len(),
        forall|k: int| 0 <= k < ids.len() ==> lookup(gui, #[trigger] ids[k]) is Some,
    ensures
        all_drawn(gui, run, ids, n).len() == n,
        forall|k: int|
            0 <= k < n ==> (#[trigger] all_drawn(gui, run, ids, n)[k]).id == ids[k] && all_drawn(gui, run, ids, n)[k]
                == crate::render::drawn(gui, run, ids[k], lookup(gui, ids[k])->0),
    decreases n,
{
    if n > 0 {
        lemma_drawn(gui, run, ids, n - 1);
        assert(lookup(gui, ids[n - 1]) is Some);
    }
}

proof fn lemma_entry(gui: Seq<(u64, GuiModel)>, i: int)
    requires
        distinct(keys(gui)),
        0 <= i < gui.len(),
    ensures
        lookup(gui, gui[i].0) == Some(gui[i].1),
{
    let ks = keys(gui);
    assert(ks[i] == gui[i].0);
    assert forall|m: int| 0 <= m < i implies ks[m] != gui[i].0 by {
        assert(ks[m] != ks[i]);
    }
    lemma_place_is(ks, gui[i].0, 0, i);
}

/// Whether there is an open window under the handle.
pub open spec fn holds_window(gui: Seq<(u64, GuiModel)>, id: u64) -> bool {
    lookup(gui, id) matches Some(w) && w.kind is Window && !w.closed
}

/// Whether a window is drawn under the handle.
pub open spec fn is_drawn(all: Seq<DrawnModel>, id: u64) -> bool {
    exists|k: int| 0 <= k < all.len() && (#[trigger] all[k]).id == id
}

/// Whether a drawn window has the title of its widget.
pub open spec fn has_title(gui: Seq<(u64, GuiModel)>, d: DrawnModel) -> bool {
    lookup(gui, d.id) matches Some(w) && d.title == w.title
}

proof fn lemma_ids(gui: Seq<(u64, GuiModel)>, run: u64, own: bool, id: u64)
    requires
        distinct(keys(gui)),
    ensures
        windows_among(gui, run, own, gui.len() as int).contains(id) <==> (id == run) == own && holds_window(gui, id),
{
    let n = gui.len() as int;
    lemma_windows(gui, run, own, n);
    if windows_among(gui, run, own, n).contains(id) {
        let i = choose|i: int| 0 <= i < n && is_window(gui, i) && (#[trigger] gui[i]).0 == id;
        lemma_entry(gui, i);
    }
    if holds_window(gui, id) {
        lemma_place(keys(gui), id, 0);
        let i = crate::table::place(keys(gui), id)->0;
        assert(gui[i].0 == id);
        assert(is_window(gui, i));
    }
}

/// Every open window is drawn with its title, and nothing else is; the window that runs comes
/// first.
pub proof fn open_windows_are_drawn(gui: Seq<(u64, GuiModel)>, run: u64, id: u64)
    requires
        distinct(keys(gui)),
    ensures
        is_drawn(scene(gui, run), id) <==> holds_window(gui, id),
        forall|k: int|
            0 <= k < scene(gui, run).len() ==> has_title(gui, #[trigger] scene(gui, run)[k]),
        holds_window(gui, run) ==> scene(gui, run).len() > 0 && scene(gui, run)[0].id == run,
{
    let n = gui.len() as int;
    let first = windows_among(gui, run, true, n);
    let rest = windows_among(gui, run, false, n);
    let ids = first + rest;
    let all = scene(gui, run);
    assert forall|k: int| 0 <= k < ids.len() implies holds_window(gui, #[trigger] ids[k]) by {
        if k < first.len() {
            assert(first.contains(first[k]));
            lemma_ids(gui, run, true, first[k]);
        } else {
            assert(rest.contains(rest[k - first.len()]));
            lemma_ids(gui, run, false, rest[k - first.len()]);
        }
    }
    lemma_drawn(gui, run, ids, ids.len() as int);
    lemma_ids(gui, run, true, id);
    lemma_ids(gui, run, false, id);
    lemma_ids(gui, run, true, run);
    if holds_window(gui, id) {
        let k = if id == run {
            first.index_of(id)
        } else {
            rest.index_of(id) + first.len()
        };
        assert(ids[k] == id);
        assert(all[k].id == id);
    }
    if is_drawn(all, id) {
        let k = choose|k: int| 0 <= k < all.len() && (#[trigger] all[k]).id == id;
        assert(holds_window(gui, ids[k]));
    }
    assert forall|k: int| 0 <= k < all.len() implies has_title(gui, #[trigger] all[k]) by {
        assert(holds_window(gui, ids[k]));
    }
    if holds_window(gui, run) {
        assert(first.contains(run));
        assert(first.contains(first[0]));
        lemma_ids(gui, run, true, first[0]);
        assert(ids[0] == first[0]);
        assert(all[0].id == run);
    }
}

/// Whether the drawn button shows what the widgets say of it.
pub open spec fn shows_button(gui: Seq<(u64, GuiModel)>, b: ButtonModel) -> bool {
    lookup(gui, b.id) matches Some(w) && w.kind is Button && !w.closed && b.text == w.title && b.pos == w.pos
}

/// Whether there is an open button under the handle.
pub open spec fn is_button(gui: Seq<(u64, GuiModel)>, id: u64) -> bool {
    lookup(gui, id) matches Some(w) && w.kind is Button && !w.closed
}

proof fn lemma_attached(gui: Seq<(u64, GuiModel)>, children: Seq<u64>, n: int)
    requires
        0 <= n <= children.len(),
    ensures
        forall|k: int|
            0 <= k < attached_buttons(gui, children, n).len() ==> shows_button(
                gui,
                #[trigger] attached_buttons(gui, children, n)[k],
            ) && children.contains(attached_buttons(gui, children, n)[k].id),
        forall|i: int|
            0 <= i < n && is_button(gui, #[trigger] children[i]) ==> has_button(
                attached_buttons(gui, children, n),
                children[i],
            ),
    decreases n,
{
    if n > 0 {
        lemma_attached(gui, children, n - 1);
        let before = attached_buttons(gui, children, n - 1);
        let after = attached_buttons(gui, children, n);
        let id = children[n - 1];
        assert forall|k: int| 0 <= k < after.len() implies shows_button(gui, #[trigger] after[k]) && children.contains(
            after[k].id,
        ) by {
            if k < before.len() {
                assert(after[k] == before[k]);
            } else {
                assert(after[k].id == id);
                assert(children[n - 1] == id);
            }
        }
        assert forall|i: int| 0 <= i < n && is_button(gui, #[trigger] children[i]) implies has_button(
            after,
            children[i],
        ) by {
            if i < n - 1 {
                assert(has_button(before, children[i]));
                let k = choose|k: int| 0 <= k < before.len() && (#[trigger] before[k]).id == children[i];
                assert(after[k].id == children[i]);
            } else {
                assert(after.last().id == id);
            }
        }
    }
}

proof fn lemma_orphans(gui: Seq<(u64, GuiModel)>, n: int)
    requires
        0 <= n <= gui.len(),
    ensures
        forall|id: u64| #[trigger]
            orphans(gui, n).contains(id) <==> exists|i: int|
                0 <= i < n && (#[trigger] gui[i]).0 == id && gui[i].1.kind is Button && !gui[i].1.closed
                    && gui[i].1.parent is None,
    decreases n,
{
    if n > 0 {
        lemma_orphans(gui, n - 1);
        let before = orphans(gui, n - 1);
        let after = orphans(gui, n);
        assert forall|id: u64| #[trigger] after.contains(id) <==> exists|i: int|
            0 <= i < n && (#[trigger] gui[i]).0 == id && gui[i].1.kind is Button && !gui[i].1.closed
                && gui[i].1.parent is None by {
            if after.contains(id) {
                let k = after.index_of(id);
                if k < before.len() {
                    assert(before[k] == id);
                    assert(before.contains(id));
                } else {
                    assert(gui[n - 1].0 == id);
                }
            }
            if exists|i: int|
                0 <= i < n && (#[trigger] gui[i]).0 == id && gui[i].1.kind is Button && !gui[i].1.closed
                    && gui[i].1.parent is None {
                let i = choose|i: int|
                    0 <= i < n && (#[trigger] gui[i]).0 == id && gui[i].1.kind is Button && !gui[i].1.closed
                        && gui[i].1.parent is None;
                if i < n - 1 {
                    assert(before.contains(id));
                    let k = before.index_of(id);
                    assert(after[k] == id);
                } else {
                    assert(after.last() == id);
                }
            }
        }
    }
}

proof fn lemma_with_orphans(gui: Seq<(u64, GuiModel)>, buttons: Seq<ButtonModel>, ids: Seq<u64>, n: int)
    requires
        0 <= n <= ids.len(),
        forall|k: int| 0 <= k < ids.len() ==> is_button(gui, #[trigger] ids[k]),
    ensures
        ({
            let all = with_orphans(gui, buttons, ids, n);
            &&& all.len() >= buttons.len()
            &&& forall|k: int| 0 <= k < buttons.len() ==> #[trigger] all[k] == buttons[k]
            &&& forall|k: int|
                buttons.len() <= k < all.len() ==> shows_button(gui, #[trigger] all[k]) && ids.contains(all[k].id)
            &&& forall|k: int| 0 <= k < n ==> has_button(all, #[trigger] ids[k])
        }),
    decreases n,
{
    if n > 0 {
        lemma_with_orphans(gui, buttons, ids, n - 1);
        let before = with_orphans(gui, buttons, ids, n - 1);
        let all = with_orphans(gui, buttons, ids, n);
        assert(is_button(gui, ids[n - 1]));
        assert forall|k: int| buttons.len() <= k < all.len() implies shows_button(gui, #[trigger] all[k])
            && ids.contains(all[k].id) by {
            if k < before.len() {
                assert(all[k] == before[k]);
            } else {
                assert(all[k].id == ids[n - 1]);
            }
        }
        assert forall|k: int| 0 <= k < n implies has_button(all, #[trigger] ids[k]) by {
            if k < n - 1 {
                assert(has_button(before, ids[k]));
                let m = choose|m: int| 0 <= m < before.len() && (#[trigger] before[m]).id == ids[k];
                assert(all[m].id == ids[k]);
            } else if !has_button(before, ids[k]) {
                assert(all.last().id == ids[k]);
            }
        }
    }
}

/// A window shows its open buttons as the widgets say: those that are attached to it, and in
/// the window that runs also those without a window. No other buttons are shown.
pub proof fn open_buttons_are_drawn(gui: Seq<(u64, GuiModel)>, run: u64, id: u64, w: GuiModel, button: u64)
    requires
        distinct(keys(gui)),
    ensures
        ({
            let d = crate::render::drawn(gui, run, id, w);
            let lost = lookup(gui, button) matches Some(b) && b.parent is None;
            &&& has_button(d.buttons, button) <==> is_button(gui, button) && (w.children.contains(button) || id == run
                && lost)
            &&& forall|k: int| 0 <= k < d.buttons.len() ==> shows_button(gui, #[trigger] d.buttons[k])
            &&& d.title == w.title
            &&& d.id == id
        }),
{
    let own = attached_buttons(gui, w.children, w.children.len() as int);
    let n = gui.len() as int;
    let lost = orphans(gui, n);
    let ids = sorted_ids(lost);
    lemma_attached(gui, w.children, w.children.len() as int);
    lemma_orphans(gui, n);
    sorting_permutes(lost, id_order(), lost.len() as int);
    assert(lost.take(lost.len() as int) =~= lost);
    assert forall|x: u64| #[trigger] ids.contains(x) <==> lost.contains(x) by {
        broadcast use vstd::seq_lib::group_to_multiset_ensures;
        assert(ids.to_multiset().count(x) == lost.to_multiset().count(x));
    }
    assert forall|k: int| 0 <= k < ids.len() implies is_button(gui, #[trigger] ids[k]) by {
        assert(ids.contains(ids[k]));
        assert(lost.contains(ids[k]));
        let i = choose|i: int|
            0 <= i < n && (#[trigger] gui[i]).0 == ids[k] && gui[i].1.kind is Button && !gui[i].1.closed
                && gui[i].1.parent is None;
        lemma_entry(gui, i);
    }
    lemma_with_orphans(gui, own, ids, ids.len() as int);
    let all = with_orphans(gui, own, ids, ids.len() as int);
    let d = crate::render::drawn(gui, run, id, w);
    if w.children.contains(button) && is_button(gui, button) {
        let i = w.children.index_of(button);
        assert(is_button(gui, w.children[i]));
        assert(has_button(own, button));
        let k = choose|k: int| 0 <= k < own.len() && (#[trigger] own[k]).id == button;
        assert(all[k].id == button);
    }
    if id == run && is_button(gui, button) && lookup(gui, button)->0.parent is None {
        lemma_place(keys(gui), button, 0);
        let i = crate::table::place(keys(gui), button)->0;
        assert(gui[i].0 == button);
        assert(lost.contains(button));
        assert(ids.contains(button));
        let k = ids.index_of(button);
        assert(has_button(all, ids[k]));
    }
    if has_button(d.buttons, button) {
        let k = choose|k: int| 0 <= k < d.buttons.len() && (#[trigger] d.buttons[k]).id == button;
        if k < own.len() {
            assert(d.buttons[k] == own[k]);
            assert(shows_button(gui, own[k]));
        } else {
            assert(shows_button(gui, all[k]));
            assert(ids.contains(button));
            assert(lost.contains(button));
            let i = choose|i: int|
                0 <= i < n && (#[trigger] gui[i]).0 == button && gui[i].1.kind is Button && !gui[i].1.closed
                    && gui[i].1.parent is None;
            lemma_entry(gui, i);
        }
    }
    assert forall|k: int| 0 <= k < d.buttons.len() implies shows_button(gui, #[trigger] d.buttons[k]) by {
        if k < own.len() {
            assert(d.buttons[k] == own[k]);
        }
    }
}

proof fn lemma_children(gui: Seq<(u64, GuiModel)>, a: Seq<u64>, b: Seq<u64>, n: int)
    requires
        0 <= n <= a.len(),
        n <= b.len(),
        forall|i: int| 0 <= i < n ==> a[i] == b[i],
    ensures
        attached_buttons(gui, a, n) == attached_buttons(gui, b, n),
    decreases n,
{
    if n > 0 {
        lemma_children(gui, a, b, n - 1);
        assert(a[n - 1] == b[n - 1]);
    }
}

/// The buttons of a window stand in the order in which they were attached.
pub proof fn attached_buttons_keep_their_order(gui: Seq<(u64, GuiModel)>, run: u64, id: u64, w: GuiModel, child: u64)
    requires
        id != run,
    ensures
        ({
            let before = crate::render::drawn(gui, run, id, w).buttons;
            let after = crate::render::drawn(gui, run, id, GuiModel { children: w.children.push(child), ..w }).buttons;
            &&& is_button(gui, child) ==> after.len() == before.len() + 1 && after.drop_last() == before
                && after.last().id == child
            &&& !is_button(gui, child) ==> after == before
        }),
{
    let n = w.children.len() as int;
    let all = w.children.push(child);
    lemma_children(gui, all, w.children, n);
    let before = attached_buttons(gui, w.children, n);
    let after = attached_buttons(gui, all, n + 1);
    assert(all[n] == child);
    if is_button(gui, child) {
        assert(after.drop_last() =~= before);
    }
}

proof fn lemma_ascending(gui: Seq<(u64, GuiModel)>, ids: Seq<u64>, n: int)
    requires
        0 <= n <= ids.len(),
        forall|i: int, j: int| 0 <= i < j < ids.len() ==> #[trigger] ids[i] <= #[trigger] ids[j],
    ensures
        ({
            let all = with_orphans(gui, seq![], ids, n);
            &&& forall|k: int| 0 <= k < all.len() ==> exists|i: int| 0 <= i < n && ids[i] == (#[trigger] all[k]).id
            &&& forall|i: int, j: int| 0 <= i < j < all.len() ==> (#[trigger] all[i]).id <= (#[trigger] all[j]).id
        }),
    decreases n,
{
    if n > 0 {
        lemma_ascending(gui, ids, n - 1);
        let before = with_orphans(gui, seq![], ids, n - 1);
        let all = with_orphans(gui, seq![], ids, n);
        assert forall|k: int| 0 <= k < all.len() implies exists|i: int| 0 <= i < n && ids[i] == (#[trigger] all[k]).id by {
            if k < before.len() {
                assert(all[k] == before[k]);
                let i = choose|i: int| 0 <= i < n - 1 && ids[i] == before[k].id;
                assert(ids[i] == all[k].id);
            } else {
                assert(ids[n - 1] == all[k].id);
            }
        }
        assert forall|i: int, j: int| 0 <= i < j < all.len() implies (#[trigger] all[i]).id <= (#[trigger] all[j]).id by {
            assert(all[i] == before[i]);
            if j < before.len() {
                assert(all[j] == before[j]);
            } else {
                let m = choose|m: int| 0 <= m < n - 1 && ids[m] == before[i].id;
                assert(ids[m] <= ids[n - 1]);
            }
        }
    }
}

/// Buttons without a window stand in the order in which they were made.
pub proof fn lost_buttons_stand_in_order(gui: Seq<(u64, GuiModel)>, run: u64, w: GuiModel)
    requires
        w.children.len() == 0,
    ensures
        ({
            let buttons = crate::render::drawn(gui, run, run, w).buttons;
            forall|i: int, j: int| 0 <= i < j < buttons.len() ==> (#[trigger] buttons[i]).id <= (#[trigger] buttons[j]).id
        }),
{
    let lost = orphans(gui, gui.len() as int);
    let ids = sorted_ids(lost);
    let fit = |x: u64| true;
    assert(orders(id_order(), fit));
    sorting_orders(lost, id_order(), fit, lost.len() as int);
    assert forall|i: int, j: int| 0 <= i < j < ids.len() implies #[trigger] ids[i] <= #[trigger] ids[j] by {
        assert(!id_order()(ids[j], ids[i]));
    }
    lemma_ascending(gui, ids, ids.len() as int);
    assert(attached_buttons(gui, w.children, 0) =~= seq![]);
}

} // verus!
