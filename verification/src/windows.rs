//! How a window runs: its handlers, its clicks, its end.

use crate::ast::{values, GuiKind, Value, ValueModel};
use crate::draft::{
    fatal_err, fatal_model, text, text_2, throw_err, throw_model, throw_pieces, throw_text, FaultModel, Piece,
    PieceModel, RuntimeFault,
};
use crate::gui::{can_run, find_handlers, handlers_of, has_child, has_widget, remove_widget, without_widget};
use crate::machine::{add_arguments, complain_depth};
use crate::request::{Answer, AnswerModel, Request, RequestModel};
use crate::runtime::{ModuleRuntime, RuntimeModel, MAX_CALL_DEPTH};
use crate::semantics::{asking, bound, entered, failed, faulty, given, pushed, too_deep, with_arguments};
use crate::state::{Call, CallModel, Frame, FrameModel, Machine, MachineModel, Stage, WindowModel, WindowRun};
use crate::table::lookup;
use vstd::prelude::*;

verus! {

pub open spec fn with_running(s: MachineModel, running: bool) -> MachineModel {
    MachineModel { rt: RuntimeModel { gui_running: running, ..s.rt }, ..s }
}

/// A window before anything of it has run.
pub open spec fn new_run(id: u64) -> WindowModel {
    WindowModel {
        id,
        stage: Stage::Starting,
        failure: None,
        pending: None,
        clicks: seq![],
        next: 0,
        finished: false,
        trouble: None,
    }
}

/// The start of a run: the window has to be there, and no other may be running.
pub open spec fn window_run(s: MachineModel, id: u64) -> MachineModel {
    match lookup(s.rt.gui, id) {
        Some(w) => if w.kind is Window && !w.closed {
            if s.rt.gui_running {
                failed(s, throw_text("GuiError"@, "Run cannot nest inside a running window"@))
            } else {
                fired(
                    pushed(s, FrameModel::Window(new_run(id))),
                    ValueModel::Gui { kind: GuiKind::Window, id },
                    "OnStart"@,
                )
            }
        } else {
            failed(s, throw_text("GuiError"@, "cannot Run a closed or missing window"@))
        },
        None => failed(s, throw_text("GuiError"@, "cannot Run a closed or missing window"@)),
    }
}

/// The handlers of an event, in the order in which they were registered.
pub open spec fn fired(s: MachineModel, handle: ValueModel, event: Seq<char>) -> MachineModel {
    match handle {
        ValueModel::Gui { kind, id } => handlers_step(s, handlers_of(s.rt, id, event), 0, handle, event),
        _ => failed(s, fatal_model("gui handler fired on non-widget"@)),
    }
}

/// The next handler: a call in the scope around it, with the widget as `pass`
/// and no arguments.
pub open spec fn handlers_step(
    s: MachineModel,
    list: Seq<ValueModel>,
    next: int,
    handle: ValueModel,
    event: Seq<char>,
) -> MachineModel {
    if next < list.len() {
        match list[next] {
            ValueModel::Function { params, defaults, body } => match entered(
                pushed(s, FrameModel::Handlers { list, next: next + 1, handle, event }),
            ) {
                None => failed(s, too_deep()),
                Some(t) => bound(
                    t,
                    with_arguments(
                        CallModel {
                            local: s.scope,
                            pass: handle,
                            params,
                            defaults,
                            body,
                            function: event,
                            args: seq![],
                        },
                        seq![],
                    ),
                    0,
                ),
            },
            _ => failed(s, fatal_model("gui handler registry corrupted"@)),
        }
    } else {
        given(s, ValueModel::Null)
    }
}

/// The window on the screen, until something happens to it.
pub open spec fn showing(s: MachineModel, w: WindowModel) -> MachineModel {
    asking(
        pushed(
            with_running(s, true),
            FrameModel::Window(WindowModel { stage: Stage::Showing, clicks: seq![], next: 0, ..w }),
        ),
        RequestModel::ShowWindow(w.id),
    )
}

/// The handlers of the stage are through.
pub open spec fn window_valued(s: MachineModel, w: WindowModel) -> MachineModel {
    match w.stage {
        Stage::Starting => showing(s, w),
        Stage::Showing => clicks_step(s, w),
        Stage::Exiting => window_ended(s, w),
    }
}

/// A handler of the stage gave a fault. An error at the start is kept, and the
/// window still runs; a fatal fault ends all at once; at the end both are
/// ignored.
pub open spec fn window_faulted(s: MachineModel, w: WindowModel, f: FaultModel) -> MachineModel {
    match w.stage {
        Stage::Starting => match f {
            FaultModel::Throw(_) => showing(s, WindowModel { failure: Some(f), ..w }),
            FaultModel::Fatal(_) => faulty(s, f),
        },
        Stage::Showing => clicks_step(s, WindowModel { pending: Some(f), ..w }),
        Stage::Exiting => window_ended(s, w),
    }
}

/// The runtime without the first `n` of the windows that were closed.
pub open spec fn windows_closed(rt: RuntimeModel, closed: Seq<u64>, n: int) -> RuntimeModel
    decreases n,
{
    if n <= 0 || n > closed.len() {
        rt
    } else {
        without_widget(windows_closed(rt, closed, n - 1), closed[n - 1])
    }
}

/// What happened to the window: windows that were closed go first, then the
/// clicks are handled.
pub open spec fn window_answered(s: MachineModel, w: WindowModel, a: AnswerModel) -> MachineModel {
    match a {
        AnswerModel::Window { closed, clicks, finished } => clicks_step(
            MachineModel { rt: windows_closed(s.rt, closed, closed.len() as int), ..s },
            WindowModel { clicks, next: 0, finished: finished || closed.contains(w.id), ..w },
        ),
        AnswerModel::Failed(e) => exiting(with_running(s, false), WindowModel { trouble: Some(e), ..w }),
        _ => failed(with_running(s, false), fatal_model("gui run lost its state"@)),
    }
}

/// The next click, unless a handler failed; when there is none, the window is
/// shown again or ends.
pub open spec fn clicks_step(s: MachineModel, w: WindowModel) -> MachineModel {
    if w.pending is None && w.next < w.clicks.len() {
        fired(
            pushed(s, FrameModel::Window(WindowModel { next: w.next + 1, ..w })),
            ValueModel::Gui { kind: GuiKind::Button, id: w.clicks[w.next] },
            "OnClick"@,
        )
    } else if w.finished || w.pending is Some || lookup(s.rt.gui, w.id) is None {
        window_closing(with_running(s, false), w)
    } else {
        showing(s, w)
    }
}

/// The end of the screen part. A fatal fault skips the last handlers.
pub open spec fn window_closing(s: MachineModel, w: WindowModel) -> MachineModel {
    let failure = match w.failure {
        Some(f) => Some(f),
        None => w.pending,
    };
    match failure {
        Some(FaultModel::Fatal(m)) => faulty(s, FaultModel::Fatal(m)),
        _ => exiting(s, WindowModel { failure, ..w }),
    }
}

pub open spec fn exiting(s: MachineModel, w: WindowModel) -> MachineModel {
    fired(
        pushed(s, FrameModel::Window(WindowModel { stage: Stage::Exiting, ..w })),
        ValueModel::Gui { kind: GuiKind::Window, id: w.id },
        "OnExit"@,
    )
}

/// What the whole run comes to.
pub open spec fn window_ended(s: MachineModel, w: WindowModel) -> MachineModel {
    match w.trouble {
        Some(e) => failed(
            s,
            throw_model("IOError"@, seq![PieceModel::Text("cannot open window: "@), PieceModel::Text(e)]),
        ),
        None => match w.failure {
            Some(f) => faulty(s, f),
            None => given(s, ValueModel::Null),
        },
    }
}

impl Machine {
    /// The start of a run.
    pub(crate) fn gui_run_window(&mut self, id: u64)
        ensures
            final(self)@ == window_run(old(self)@, id),
    {
        if !can_run(&self.rt, id) {
            self.fail(throw_err("GuiError", "cannot Run a closed or missing window"));
        } else if self.rt.gui_running {
            self.fail(throw_err("GuiError", "Run cannot nest inside a running window"));
        } else {
            self.push(
                Frame::Window(
                    WindowRun {
                        id,
                        stage: Stage::Starting,
                        failure: None,
                        pending: None,
                        clicks: Vec::new(),
                        next: 0,
                        finished: false,
                        trouble: None,
                    },
                ),
            );
            self.fire_gui_event(Value::Gui { kind: GuiKind::Window, id }, "OnStart".to_string());
        }
    }

    /// Fires an event of a widget: its handlers run one after the other, in the
    /// scope at hand, with the widget as `pass`.
    pub fn fire_gui_event(&mut self, handle: Value, event: String)
        ensures
            final(self)@ == fired(old(self)@, handle@, event@),
    {
        match handle {
            Value::Gui { kind, id } => {
                let list = find_handlers(&self.rt, id, event.as_str());
                self.handlers_on(list, 0, Value::Gui { kind, id }, event);
            },
            _ => self.fail(fatal_err("gui handler fired on non-widget")),
        }
    }

    pub(crate) fn handlers_on(&mut self, list: Vec<Value>, next: usize, handle: Value, event: String)
        ensures
            final(self)@ == handlers_step(old(self)@, values(list@), next as int, handle@, event@),
    {
        assert(values(list@).len() == list@.len());
        if next >= list.len() {
            self.give(Value::Null);
            return ;
        }
        match list[next].copy() {
            Value::Function { params, defaults, body } => {
                if self.rt.call_depth >= MAX_CALL_DEPTH {
                    self.fail(complain_depth());
                    return ;
                }
                let none: Vec<Value> = Vec::new();
                assert(values(none@) =~= seq![]);
                let nothing: Vec<Value> = Vec::new();
                assert(values(nothing@) =~= seq![]);
                let mut call = Call {
                    local: self.scope.copy(),
                    pass: handle.copy(),
                    params,
                    defaults,
                    body,
                    function: event.clone(),
                    args: none,
                };
                add_arguments(&mut call, nothing);
                self.push(Frame::Handlers { list, next: next + 1, handle, event });
                let _deeper = self.enter_call();
                self.bind_params(call, 0);
            },
            _ => self.fail(fatal_err("gui handler registry corrupted")),
        }
    }

    fn show(&mut self, w: WindowRun)
        ensures
            final(self)@ == showing(old(self)@, w@),
    {
        let mut w = w;
        let id: u64 = w.id;
        w.stage = Stage::Showing;
        w.clicks = Vec::new();
        w.next = 0;
        self.rt.gui_running = true;
        self.push(Frame::Window(w));
        self.ask(Request::ShowWindow(id));
    }

    pub(crate) fn window_value(&mut self, w: WindowRun)
        ensures
            final(self)@ == window_valued(old(self)@, w@),
    {
        match w.stage {
            Stage::Starting => self.show(w),
            Stage::Showing => self.clicks_on(w),
            Stage::Exiting => self.end_window(w),
        }
    }

    pub(crate) fn window_fault(&mut self, w: WindowRun, f: RuntimeFault)
        ensures
            final(self)@ == window_faulted(old(self)@, w@, f@),
    {
        let mut w = w;
        match w.stage {
            Stage::Starting => match f {
                RuntimeFault::Throw(v) => {
                    w.failure = Some(RuntimeFault::Throw(v));
                    self.show(w);
                },
                RuntimeFault::Fatal(m) => self.fault(RuntimeFault::Fatal(m)),
            },
            Stage::Showing => {
                w.pending = Some(f);
                self.clicks_on(w);
            },
            Stage::Exiting => self.end_window(w),
        }
    }

    /// What happened to the window.
    pub(crate) fn window_answer(&mut self, w: WindowRun, a: Answer)
        ensures
            final(self)@ == window_answered(old(self)@, w@, a@),
    {
        let mut w = w;
        match a {
            Answer::Window { closed, clicks, finished } => {
                let own = has_child(&closed, w.id);
                close_windows(&mut self.rt, &closed);
                w.clicks = clicks;
                w.next = 0;
                w.finished = finished || own;
                self.clicks_on(w);
            },
            Answer::Failed(e) => {
                self.rt.gui_running = false;
                w.trouble = Some(e);
                self.exit(w);
            },
            _ => {
                self.rt.gui_running = false;
                self.fail(fatal_err("gui run lost its state"));
            },
        }
    }

    fn clicks_on(&mut self, w: WindowRun)
        ensures
            final(self)@ == clicks_step(old(self)@, w@),
    {
        let mut w = w;
        if w.pending.is_none() && w.next < w.clicks.len() {
            let id: u64 = w.clicks[w.next];
            w.next = w.next + 1;
            self.push(Frame::Window(w));
            self.fire_gui_event(Value::Gui { kind: GuiKind::Button, id }, "OnClick".to_string());
        } else if w.finished || w.pending.is_some() || !has_widget(&self.rt, w.id) {
            self.rt.gui_running = false;
            self.close_window(w);
        } else {
            self.show(w);
        }
    }

    fn close_window(&mut self, w: WindowRun)
        ensures
            final(self)@ == window_closing(old(self)@, w@),
    {
        let WindowRun { id, stage, failure, pending, clicks, next, finished, trouble } = w;
        let first = match failure {
            Some(f) => Some(f),
            None => match &pending {
                Some(f) => Some(f.copy()),
                None => None,
            },
        };
        match first {
            Some(RuntimeFault::Fatal(m)) => self.fault(RuntimeFault::Fatal(m)),
            other => self.exit(WindowRun { id, stage, failure: other, pending, clicks, next, finished, trouble }),
        }
    }

    fn exit(&mut self, w: WindowRun)
        ensures
            final(self)@ == exiting(old(self)@, w@),
    {
        let mut w = w;
        let id: u64 = w.id;
        w.stage = Stage::Exiting;
        self.push(Frame::Window(w));
        self.fire_gui_event(Value::Gui { kind: GuiKind::Window, id }, "OnExit".to_string());
    }

    fn end_window(&mut self, w: WindowRun)
        ensures
            final(self)@ == window_ended(old(self)@, w@),
    {
        match w.trouble {
            Some(e) => self.fail(
                throw_pieces("IOError", text_2(text("cannot open window: "), Piece::Text(e))),
            ),
            None => match w.failure {
                Some(f) => self.fault(f),
                None => self.give(Value::Null),
            },
        }
    }
}

fn close_windows(rt: &mut ModuleRuntime, closed: &Vec<u64>)
    ensures
        final(rt)@ == windows_closed(old(rt)@, closed@, closed@.len() as int),
{
    let ghost was = rt@;
    let mut i: usize = 0;
    while i < closed.len()
        invariant
            was == old(rt)@,
            i <= closed@.len(),
            rt@ == windows_closed(was, closed@, i as int),
        decreases closed@.len() - i,
    {
        remove_widget(rt, closed[i]);
        i = i + 1;
    }
}

} // verus!
