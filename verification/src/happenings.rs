//! What happens to a window while it runs.

use crate::ast::{GuiKind, StatementModel, ValueModel};
use crate::draft::FaultModel;
use crate::gui::handlers_of;
use crate::request::{AnswerModel, RequestModel};
use crate::running::{is_fatal, meeting, raises, viewing};
use crate::runtime::{GuiModel, RuntimeModel};
use crate::state::{CallModel, FlowModel, FocusModel, FrameModel, MachineModel, Stage, WaitModel, WindowModel};
use crate::steps::step;
use crate::table::{distinct, erase_then_lookup, keys, lookup};
use crate::windows::{clicks_step, fired, window_answered, window_run, windows_closed};
use vstd::prelude::*;

verus! {

/// Whether nothing has happened to the window yet.
pub open spec fn is_untouched(w: WindowModel, id: u64) -> bool {
    w.id == id && w.stage is Starting && w.failure is None && w.pending is None && w.clicks.len() == 0 && !w.finished
        && w.trouble is None
}

/// A window that is there and open runs, unless one is running: first its handlers for the
/// start.
pub proof fn windows_run_one_at_a_time(s: MachineModel, id: u64)
    ensures
        ({
            let t = window_run(s, id);
            let there = lookup(s.rt.gui, id) matches Some(w) && w.kind is Window && !w.closed;
            &&& !there || s.rt.gui_running ==> raises(t, s, "GuiError"@)
            &&& there && !s.rt.gui_running && handlers_of(s.rt, id, "OnStart"@).len() == 0 ==> {
                &&& t.focus == FocusModel::Value(ValueModel::Null)
                &&& t.stack.len() == s.stack.len() + 1
                &&& t.stack.last() matches FrameModel::Window(w) && is_untouched(w, id)
                &&& t.rt == s.rt
            }
        }),
{
}

/// The handlers of an event run one after the other, in the order in which they came, each as
/// a call that is passed the widget and no arguments; calls of handlers count like others.
pub proof fn handlers_run_in_order(
    s: MachineModel,
    list: Seq<ValueModel>,
    next: int,
    handle: ValueModel,
    event: Seq<char>,
    body: Seq<StatementModel>,
    v: ValueModel,
)
    requires
        0 <= next <= list.len(),
        next < list.len() ==> list[next] == (ValueModel::Function { params: seq![], defaults: seq![], body }),
    ensures
        ({
            let t = step(meeting(s, FrameModel::Handlers { list, next, handle, event }, FocusModel::Value(v)));
            &&& next == list.len() ==> t == viewing(s, FocusModel::Value(ValueModel::Null))
            &&& next < list.len() && s.rt.call_depth >= 64 ==> is_fatal(t)
            &&& next < list.len() && s.rt.call_depth < 64 ==> {
                &&& t.focus == FocusModel::Flow(FlowModel::Normal)
                &&& t.stack == s.stack.push(FrameModel::Handlers { list, next: next + 1, handle, event }).push(
                    FrameModel::Guard,
                ).push(FrameModel::Body(s.scope)).push(FrameModel::Block { statements: body, next: 0 })
                &&& lookup(t.scope.env, "pass"@) == Some(handle)
                &&& lookup(t.scope.env, "args"@) == Some(ValueModel::Array(seq![]))
                &&& t.rt.call_depth == s.rt.call_depth + 1
            }
        }),
{
    assert(s.stack.push(FrameModel::Handlers { list, next, handle, event }).drop_last() =~= s.stack);
    if next < list.len() {
        let call = CallModel {
            local: s.scope,
            pass: handle,
            params: seq![],
            defaults: seq![],
            body,
            function: event,
            args: seq![],
        };
        crate::laws::body_sees_all_arguments(call, seq![]);
    }
}

/// Whether the window is on the screen and the machine waits for what happens to it.
pub open spec fn is_shown(t: MachineModel, s: MachineModel, id: u64) -> bool {
    &&& t.focus == FocusModel::Await(WaitModel::Request(RequestModel::ShowWindow(id)))
    &&& t.rt == RuntimeModel { gui_running: true, ..s.rt }
    &&& t.scope == s.scope
    &&& t.stack.len() == s.stack.len() + 1
    &&& t.stack.last() matches FrameModel::Window(w) && w.id == id && w.stage is Showing
}

/// After its start a window is shown, also where its start threw an error; a fatal fault ends
/// all at once.
pub proof fn windows_are_shown_after_their_start(s: MachineModel, w: WindowModel, v: ValueModel, err: ValueModel, m: Seq<char>)
    requires
        w.stage is Starting,
    ensures
        is_shown(step(meeting(s, FrameModel::Window(w), FocusModel::Value(v))), s, w.id),
        is_shown(step(meeting(s, FrameModel::Window(w), FocusModel::Fault(FaultModel::Throw(err)))), s, w.id),
        step(meeting(s, FrameModel::Window(w), FocusModel::Fault(FaultModel::Throw(err)))).stack.last() matches FrameModel::Window(
            kept,
        ) && kept.failure == Some(FaultModel::Throw(err)),
        step(meeting(s, FrameModel::Window(w), FocusModel::Fault(FaultModel::Fatal(m)))) == viewing(
            s,
            FocusModel::Fault(FaultModel::Fatal(m)),
        ),
{
    assert(s.stack.push(FrameModel::Window(w)).drop_last() =~= s.stack);
}

proof fn lemma_closed(rt: RuntimeModel, closed: Seq<u64>, n: int, id: u64)
    requires
        0 <= n <= closed.len(),
        distinct(keys(rt.gui)),
    ensures
        lookup(windows_closed(rt, closed, n).gui, id) == (if closed.take(n).contains(id) {
            None
        } else {
            lookup(rt.gui, id)
        }),
        distinct(keys(windows_closed(rt, closed, n).gui)),
        windows_closed(rt, closed, n).gui_running == rt.gui_running,
    decreases n,
{
    if n > 0 {
        lemma_closed(rt, closed, n - 1, id);
        let before = windows_closed(rt, closed, n - 1);
        let last = closed[n - 1];
        erase_then_lookup(before.gui, last, id);
        lemma_erase_distinct(before.gui, last);
        assert(closed.take(n) =~= closed.take(n - 1).push(last));
        if closed.take(n - 1).contains(id) {
            let i = closed.take(n - 1).index_of(id);
            assert(closed.take(n)[i] == id);
        }
        if last == id {
            assert(closed.take(n)[n - 1] == id);
        }
        if closed.take(n).contains(id) {
            let i = closed.take(n).index_of(id);
            assert(i < n - 1 ==> closed.take(n - 1)[i] == id);
        }
    } else {
        assert(!closed.take(0).contains(id));
    }
}

proof fn lemma_erase_distinct(t: Seq<(u64, GuiModel)>, key: u64)
    requires
        distinct(keys(t)),
    ensures
        distinct(keys(crate::table::erase(t, key))),
{
    let r = crate::table::erase(t, key);
    crate::table::lemma_place(keys(t), key, 0);
    if let Some(p) = crate::table::place(keys(t), key) {
        assert forall|a: int, b: int| 0 <= a < b < r.len() implies #[trigger] keys(r)[a] != #[trigger] keys(r)[b] by {
            let i = if a < p {
                a
            } else {
                a + 1
            };
            let j = if b < p {
                b
            } else {
                b + 1
            };
            assert(keys(r)[a] == keys(t)[i]);
            assert(keys(r)[b] == keys(t)[j]);
            assert(keys(t)[i] != keys(t)[j]);
        }
    }
}

/// Windows that the user closed are gone from then on, and only they.
pub proof fn closed_windows_are_gone(rt: RuntimeModel, closed: Seq<u64>, id: u64)
    requires
        distinct(keys(rt.gui)),
    ensures
        lookup(windows_closed(rt, closed, closed.len() as int).gui, id) == (if closed.contains(id) {
            None
        } else {
            lookup(rt.gui, id)
        }),
{
    lemma_closed(rt, closed, closed.len() as int, id);
    assert(closed.take(closed.len() as int) =~= closed);
}

/// The clicks are handled in order, each by the handlers of the button that was clicked. When
/// all are, the window is shown again; it ends when the user is done with it or it is gone,
/// and then nothing is running, and its handlers for the end run.
pub proof fn clicks_are_handled_in_order(s: MachineModel, w: WindowModel)
    requires
        w.stage is Showing,
        0 <= w.next <= w.clicks.len(),
        w.pending is None,
        w.failure is None,
    ensures
        w.next < w.clicks.len() ==> clicks_step(s, w) == fired(
            meeting(s, FrameModel::Window(WindowModel { next: w.next + 1, ..w }), s.focus),
            ValueModel::Gui { kind: GuiKind::Button, id: w.clicks[w.next] },
            "OnClick"@,
        ),
        w.next == w.clicks.len() && !w.finished && lookup(s.rt.gui, w.id) is Some ==> is_shown(clicks_step(s, w), s, w.id),
        w.next == w.clicks.len() && (w.finished || lookup(s.rt.gui, w.id) is None) ==> {
            let off = MachineModel { rt: RuntimeModel { gui_running: false, ..s.rt }, ..s };
            clicks_step(s, w) == fired(
                meeting(off, FrameModel::Window(WindowModel { stage: Stage::Exiting, ..w }), s.focus),
                ValueModel::Gui { kind: GuiKind::Window, id: w.id },
                "OnExit"@,
            )
        },
{
}

/// What the user did is taken up: the clicks from the first on, and the end where the user
/// closed this window or was done. A window that cannot be opened is an `IOError` in the end.
pub proof fn answers_are_taken_up(
    s: MachineModel,
    w: WindowModel,
    closed: Seq<u64>,
    clicks: Seq<u64>,
    finished: bool,
    why: Seq<char>,
)
    ensures
        window_answered(s, w, AnswerModel::Window { closed, clicks, finished }) == clicks_step(
            MachineModel { rt: windows_closed(s.rt, closed, closed.len() as int), ..s },
            WindowModel { clicks, next: 0, finished: finished || closed.contains(w.id), ..w },
        ),
        handlers_of(s.rt, w.id, "OnExit"@).len() == 0 ==> {
            let t = window_answered(s, w, AnswerModel::Failed(why));
            t.focus == FocusModel::Value(ValueModel::Null) && !t.rt.gui_running && t.stack == s.stack.push(
                FrameModel::Window(WindowModel { stage: Stage::Exiting, trouble: Some(why), ..w }),
            )
        },
        ({
            let last = WindowModel { stage: Stage::Exiting, trouble: Some(why), ..w };
            raises(
                step(meeting(s, FrameModel::Window(last), FocusModel::Value(ValueModel::Null))),
                s,
                "IOError"@,
            )
        }),
{
    let last = WindowModel { stage: Stage::Exiting, trouble: Some(why), ..w };
    assert(s.stack.push(FrameModel::Window(last)).drop_last() =~= s.stack);
}

/// The whole run is worth null, or ends with the first fault of its handlers; faults of the
/// handlers for the end do not count.
pub proof fn runs_end_with_their_first_fault(s: MachineModel, w: WindowModel, v: ValueModel, f: FaultModel, g: FaultModel)
    requires
        w.stage is Exiting,
        w.trouble is None,
    ensures
        ({
            let t = step(meeting(s, FrameModel::Window(w), FocusModel::Value(v)));
            &&& w.failure is None ==> t == viewing(s, FocusModel::Value(ValueModel::Null))
            &&& w.failure == Some(f) ==> t == viewing(s, FocusModel::Fault(f))
            &&& step(meeting(s, FrameModel::Window(w), FocusModel::Fault(g))) == t
        }),
{
    assert(s.stack.push(FrameModel::Window(w)).drop_last() =~= s.stack);
}

} // verus!
