//! What is to be seen of the widgets while a window runs.

use crate::ast::GuiKind;
use crate::runtime::{gui_model, GuiEntry, GuiModel, ModuleRuntime};
use crate::sort::{sort_ids, sorted_ids};
use crate::table::{find_id, keys, lookup};
use vstd::prelude::*;

verus! {

/// A button as it is drawn.
#[derive(Debug, PartialEq)]
pub struct ButtonView {
    pub id: u64,
    pub text: String,
    pub pos: Option<(i32, i32)>,
}

#[verifier::ext_equal]
pub struct ButtonModel {
    pub id: u64,
    pub text: Seq<char>,
    pub pos: Option<(i32, i32)>,
}

/// A window as it is drawn.
#[derive(Debug, PartialEq)]
pub struct WindowView {
    pub id: u64,
    pub title: String,
    pub buttons: Vec<ButtonView>,
}

#[verifier::ext_equal]
pub struct DrawnModel {
    pub id: u64,
    pub title: Seq<char>,
    pub buttons: Seq<ButtonModel>,
}

impl ButtonView {
    pub open spec fn view(&self) -> ButtonModel {
        ButtonModel { id: self.id, text: self.text@, pos: self.pos }
    }
}

pub open spec fn button_models(items: Seq<ButtonView>) -> Seq<ButtonModel> {
    Seq::new(items.len(), |i: int| items[i]@)
}

impl WindowView {
    pub open spec fn view(&self) -> DrawnModel {
        DrawnModel { id: self.id, title: self.title@, buttons: button_models(self.buttons@) }
    }
}

pub open spec fn drawn_models(items: Seq<WindowView>) -> Seq<DrawnModel> {
    Seq::new(items.len(), |i: int| items[i]@)
}

pub open spec fn open_window(w: GuiModel) -> bool {
    w.kind is Window && !w.closed
}

pub open spec fn open_button(w: GuiModel) -> bool {
    w.kind is Button && !w.closed
}

/// The open windows among the first `n` widgets: only the one that runs, or all
/// but that one.
pub open spec fn windows_among(gui: Seq<(u64, GuiModel)>, run: u64, own: bool, n: int) -> Seq<u64>
    decreases n,
{
    if n <= 0 || n > gui.len() {
        seq![]
    } else if open_window(gui[n - 1].1) && (gui[n - 1].0 == run) == own {
        windows_among(gui, run, own, n - 1).push(gui[n - 1].0)
    } else {
        windows_among(gui, run, own, n - 1)
    }
}

pub open spec fn drawn_button(id: u64, w: GuiModel) -> ButtonModel {
    ButtonModel { id, text: w.title, pos: w.pos }
}

/// The open buttons among the first `n` children of a window.
pub open spec fn attached_buttons(gui: Seq<(u64, GuiModel)>, children: Seq<u64>, n: int) -> Seq<ButtonModel>
    decreases n,
{
    if n <= 0 || n > children.len() {
        seq![]
    } else {
        let before = attached_buttons(gui, children, n - 1);
        match lookup(gui, children[n - 1]) {
            Some(w) => if open_button(w) {
                before.push(drawn_button(children[n - 1], w))
            } else {
                before
            },
            None => before,
        }
    }
}

/// The open buttons without a window among the first `n` widgets.
pub open spec fn orphans(gui: Seq<(u64, GuiModel)>, n: int) -> Seq<u64>
    decreases n,
{
    if n <= 0 || n > gui.len() {
        seq![]
    } else if open_button(gui[n - 1].1) && gui[n - 1].1.parent is None {
        orphans(gui, n - 1).push(gui[n - 1].0)
    } else {
        orphans(gui, n - 1)
    }
}

pub open spec fn has_button(buttons: Seq<ButtonModel>, id: u64) -> bool {
    exists|i: int| 0 <= i < buttons.len() && (#[trigger] buttons[i]).id == id
}

/// The buttons with the first `n` of `ids` behind them, each once.
pub open spec fn with_orphans(gui: Seq<(u64, GuiModel)>, buttons: Seq<ButtonModel>, ids: Seq<u64>, n: int) -> Seq<
    ButtonModel,
>
    decreases n,
{
    if n <= 0 || n > ids.len() {
        buttons
    } else {
        let before = with_orphans(gui, buttons, ids, n - 1);
        match lookup(gui, ids[n - 1]) {
            Some(w) => if has_button(before, ids[n - 1]) {
                before
            } else {
                before.push(drawn_button(ids[n - 1], w))
            },
            None => before,
        }
    }
}

/// A window as it is drawn. Buttons without a window stand in the one that runs.
pub open spec fn drawn(gui: Seq<(u64, GuiModel)>, run: u64, id: u64, w: GuiModel) -> DrawnModel {
    let own = attached_buttons(gui, w.children, w.children.len() as int);
    let ids = sorted_ids(orphans(gui, gui.len() as int));
    DrawnModel {
        id,
        title: w.title,
        buttons: if id == run {
            with_orphans(gui, own, ids, ids.len() as int)
        } else {
            own
        },
    }
}

/// The first `n` of the windows as they are drawn.
pub open spec fn all_drawn(gui: Seq<(u64, GuiModel)>, run: u64, ids: Seq<u64>, n: int) -> Seq<DrawnModel>
    decreases n,
{
    if n <= 0 || n > ids.len() {
        seq![]
    } else {
        let before = all_drawn(gui, run, ids, n - 1);
        match lookup(gui, ids[n - 1]) {
            Some(w) => before.push(drawn(gui, run, ids[n - 1], w)),
            None => before,
        }
    }
}

/// What is drawn: the window that runs comes first.
pub open spec fn scene(gui: Seq<(u64, GuiModel)>, run: u64) -> Seq<DrawnModel> {
    let n = gui.len() as int;
    let ids = windows_among(gui, run, true, n) + windows_among(gui, run, false, n);
    all_drawn(gui, run, ids, ids.len() as int)
}

fn find_entry<'a>(rt: &'a ModuleRuntime, id: u64) -> (r: Option<&'a GuiEntry>)
    ensures
        match r {
            Some(w) => lookup(rt@.gui, id) == Some(w@),
            None => lookup(rt@.gui, id) is None,
        },
{
    assert(keys(rt@.gui) =~= keys(rt.gui@));
    match find_id(&rt.gui, id) {
        Some(i) => Some(&rt.gui[i].1),
        None => None,
    }
}

fn is_open(w: &GuiEntry, kind: GuiKind) -> (r: bool)
    ensures
        r == (w@.kind == kind && !w@.closed),
{
    w.kind == kind && !w.closed
}

fn find_windows(rt: &ModuleRuntime, run: u64, own: bool, ids: &mut Vec<u64>)
    ensures
        final(ids)@ == old(ids)@ + windows_among(rt@.gui, run, own, rt@.gui.len() as int),
{
    let ghost gui = rt@.gui;
    let ghost before = ids@;
    let mut i: usize = 0;
    assert(ids@ =~= before + windows_among(gui, run, own, 0));
    while i < rt.gui.len()
        invariant
            i <= rt.gui@.len(),
            gui == gui_model(rt.gui@),
            ids@ == before + windows_among(gui, run, own, i as int),
        decreases rt.gui@.len() - i,
    {
        let ghost was = ids@;
        assert(gui[i as int] == (rt.gui@[i as int].0, rt.gui@[i as int].1@));
        if is_open(&rt.gui[i].1, GuiKind::Window) && (rt.gui[i].0 == run) == own {
            ids.push(rt.gui[i].0);
            assert(ids@ =~= before + windows_among(gui, run, own, i as int).push(gui[i as int].0));
        }
        i = i + 1;
    }
}

fn find_orphans(rt: &ModuleRuntime) -> (r: Vec<u64>)
    ensures
        r@ == orphans(rt@.gui, rt@.gui.len() as int),
{
    let ghost gui = rt@.gui;
    let mut r: Vec<u64> = Vec::new();
    let mut i: usize = 0;
    while i < rt.gui.len()
        invariant
            i <= rt.gui@.len(),
            gui == gui_model(rt.gui@),
            r@ == orphans(gui, i as int),
        decreases rt.gui@.len() - i,
    {
        assert(gui[i as int] == (rt.gui@[i as int].0, rt.gui@[i as int].1@));
        if is_open(&rt.gui[i].1, GuiKind::Button) && rt.gui[i].1.parent.is_none() {
            r.push(rt.gui[i].0);
        }
        i = i + 1;
    }
    r
}

fn draw_button(id: u64, w: &GuiEntry) -> (r: ButtonView)
    ensures
        r@ == drawn_button(id, w@),
{
    ButtonView { id, text: w.title.clone(), pos: w.pos }
}

fn find_buttons(rt: &ModuleRuntime, children: &Vec<u64>) -> (r: Vec<ButtonView>)
    ensures
        button_models(r@) == attached_buttons(rt@.gui, children@, children@.len() as int),
{
    let mut r: Vec<ButtonView> = Vec::new();
    let mut i: usize = 0;
    assert(button_models(r@) =~= seq![]);
    while i < children.len()
        invariant
            i <= children@.len(),
            button_models(r@) == attached_buttons(rt@.gui, children@, i as int),
        decreases children@.len() - i,
    {
        let ghost before = button_models(r@);
        match find_entry(rt, children[i]) {
            Some(w) => {
                if is_open(w, GuiKind::Button) {
                    r.push(draw_button(children[i], w));
                    assert(button_models(r@) =~= before.push(drawn_button(children@[i as int], w@)));
                }
            },
            None => {},
        }
        i = i + 1;
    }
    r
}

fn is_drawn(buttons: &Vec<ButtonView>, id: u64) -> (r: bool)
    ensures
        r == has_button(button_models(buttons@), id),
{
    let ghost all = button_models(buttons@);
    let mut i: usize = 0;
    while i < buttons.len()
        invariant
            i <= buttons@.len(),
            all == button_models(buttons@),
            forall|k: int| 0 <= k < i ==> (#[trigger] all[k]).id != id,
        decreases buttons@.len() - i,
    {
        if buttons[i].id == id {
            assert(all[i as int].id == id);
            return true;
        }
        assert(all[i as int].id != id);
        i = i + 1;
    }
    false
}

fn add_orphans(rt: &ModuleRuntime, buttons: Vec<ButtonView>, ids: &Vec<u64>) -> (r: Vec<ButtonView>)
    ensures
        button_models(r@) == with_orphans(rt@.gui, button_models(buttons@), ids@, ids@.len() as int),
{
    let ghost own = button_models(buttons@);
    let mut r = buttons;
    let mut i: usize = 0;
    while i < ids.len()
        invariant
            i <= ids@.len(),
            button_models(r@) == with_orphans(rt@.gui, own, ids@, i as int),
        decreases ids@.len() - i,
    {
        let ghost before = button_models(r@);
        match find_entry(rt, ids[i]) {
            Some(w) => {
                if !is_drawn(&r, ids[i]) {
                    r.push(draw_button(ids[i], w));
                    assert(button_models(r@) =~= before.push(drawn_button(ids@[i as int], w@)));
                }
            },
            None => {},
        }
        i = i + 1;
    }
    r
}

/// What is to be drawn while the window `run` is running.
pub fn snapshot(rt: &ModuleRuntime, run: u64) -> (r: Vec<WindowView>)
    ensures
        drawn_models(r@) == scene(rt@.gui, run),
{
    let ghost gui = rt@.gui;
    let mut ids: Vec<u64> = Vec::new();
    find_windows(rt, run, true, &mut ids);
    find_windows(rt, run, false, &mut ids);
    assert(ids@ =~= windows_among(gui, run, true, gui.len() as int) + windows_among(
        gui,
        run,
        false,
        gui.len() as int,
    ));
    let mut r: Vec<WindowView> = Vec::new();
    let mut i: usize = 0;
    assert(drawn_models(r@) =~= seq![]);
    while i < ids.len()
        invariant
            gui == rt@.gui,
            i <= ids@.len(),
            drawn_models(r@) == all_drawn(gui, run, ids@, i as int),
        decreases ids@.len() - i,
    {
        let ghost before = drawn_models(r@);
        let id: u64 = ids[i];
        match find_entry(rt, id) {
            Some(w) => {
                let own = find_buttons(rt, &w.children);
                let buttons = if id == run {
                    add_orphans(rt, own, &sort_ids(&find_orphans(rt)))
                } else {
                    own
                };
                let one = WindowView { id, title: w.title.clone(), buttons };
                assert(one@ == drawn(gui, run, id, w@));
                r.push(one);
                assert(drawn_models(r@) =~= before.push(one@));
            },
            None => {},
        }
        i = i + 1;
    }
    r
}

} // verus!
