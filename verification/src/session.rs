//! The scoped raw-mode session around a widget. The library cannot touch
//! the terminal itself; the caller enables raw input (and hides the cursor)
//! when a session begins, feeds every event — each keystroke, and any
//! terminal write or query failure — into the step function, and mirrors
//! the session flags on the real terminal after each step. The contracts
//! guarantee that every path that ends a widget, confirmation, cancellation
//! or a failed write alike, has released the session first: raw mode off,
//! cursor shown. No exit path leaves the terminal in a broken state.

use vstd::prelude::*;
use crate::select::{Key, SelectOutcome, SelectState, spec_select_step};
use crate::pager::{PagerState, spec_pager_step};

verus! {

/// One event of the interactive loop: a keystroke, or the failure of a
/// terminal write or query mid-frame.
#[derive(Clone, Copy, Debug)]
pub enum UiEvent {
    Key(Key),
    IoFailure,
}

/// How a selection session step left the widget.
#[derive(Debug)]
pub enum SelectSessionStep {
    Running,
    Finished(SelectOutcome),
    Aborted,
}

/// A selection widget together with its raw-mode session flag, which
/// mirrors the terminal state the caller maintains: set while the widget
/// runs, cleared on every exit path.
pub struct SelectSession {
    pub widget: SelectState,
    pub raw_on: bool,
}

impl SelectSession {
    pub open spec fn wf(self) -> bool {
        self.widget.wf()
    }

    /// Open the session: the caller enables raw input now.
    pub fn begin(widget: SelectState) -> (s: SelectSession)
        requires
            widget.wf(),
        ensures
            s.wf(),
            s.raw_on,
            s.widget == widget,
    {
        SelectSession { widget, raw_on: true }
    }

    /// Feed one event. Whenever the step is not `Running` the session has
    /// been released: raw mode is off on every exit path, a failed
    /// terminal write included, before the outcome reaches the caller.
    pub fn step(&mut self, ev: UiEvent) -> (r: SelectSessionStep)
        requires
            old(self).wf(),
        ensures
            final(self).wf(),
            !(r is Running) ==> !final(self).raw_on,
            r is Running ==> final(self).raw_on == old(self).raw_on,
            (match ev {
                UiEvent::IoFailure => r is Aborted && final(self).widget == old(self).widget,
                UiEvent::Key(k) => {
                    &&& !(r is Aborted)
                    &&& (match r {
                        SelectSessionStep::Running => spec_select_step(
                            old(self).widget,
                            k,
                            final(self).widget,
                            None,
                        ),
                        SelectSessionStep::Finished(o) => spec_select_step(
                            old(self).widget,
                            k,
                            final(self).widget,
                            Some(o),
                        ),
                        SelectSessionStep::Aborted => false,
                    })
                },
            }),
    {
        match ev {
            UiEvent::IoFailure => {
                self.raw_on = false;
                SelectSessionStep::Aborted
            },
            UiEvent::Key(k) => {
                let out: Option<SelectOutcome> = self.widget.handle_key(k);
                match out {
                    Some(o) => {
                        self.raw_on = false;
                        SelectSessionStep::Finished(o)
                    },
                    None => SelectSessionStep::Running,
                }
            },
        }
    }
}

/// How a pager session step left the widget.
#[derive(Clone, Copy, Debug)]
pub enum PagerSessionStep {
    Running,
    Finished,
    Aborted,
}

/// A pager widget together with its session flags. The cursor is hidden
/// while the pager scrolls and shown while search text is being typed; on
/// every exit path raw mode is off and the cursor is shown again.
pub struct PagerSession {
    pub widget: PagerState,
    pub raw_on: bool,
    pub cursor_hidden: bool,
}

impl PagerSession {
    pub open spec fn wf(self) -> bool {
        self.widget.wf()
    }

    /// Open the session: the caller enables raw input and hides the cursor.
    pub fn begin(widget: PagerState) -> (s: PagerSession)
        requires
            widget.wf(),
        ensures
            s.wf(),
            s.raw_on,
            s.cursor_hidden,
            s.widget == widget,
    {
        PagerSession { widget, raw_on: true, cursor_hidden: true }
    }

    /// Feed one event. Whenever the step is not `Running` the session has
    /// been released — raw mode off and cursor shown — on every exit path,
    /// a failed terminal write included, before control returns.
    pub fn step(&mut self, ev: UiEvent) -> (r: PagerSessionStep)
        requires
            old(self).wf(),
        ensures
            final(self).wf(),
            !(r is Running) ==> !final(self).raw_on && !final(self).cursor_hidden,
            r is Running ==> final(self).raw_on == old(self).raw_on && final(self).cursor_hidden
                == !final(self).widget.entry_open,
            (match ev {
                UiEvent::IoFailure => r is Aborted && final(self).widget == old(self).widget,
                UiEvent::Key(k) => {
                    &&& !(r is Aborted)
                    &&& (match r {
                        PagerSessionStep::Running => spec_pager_step(
                            old(self).widget,
                            k,
                            final(self).widget,
                            false,
                        ),
                        PagerSessionStep::Finished => spec_pager_step(
                            old(self).widget,
                            k,
                            final(self).widget,
                            true,
                        ),
                        PagerSessionStep::Aborted => false,
                    })
                },
            }),
    {
        match ev {
            UiEvent::IoFailure => {
                self.raw_on = false;
                self.cursor_hidden = false;
                PagerSessionStep::Aborted
            },
            UiEvent::Key(k) => {
                let done: bool = self.widget.handle_key(k);
                if done {
                    self.raw_on = false;
                    self.cursor_hidden = false;
                    PagerSessionStep::Finished
                } else {
                    self.cursor_hidden = !self.widget.entry_open;
                    PagerSessionStep::Running
                }
            },
        }
    }
}

} // verus!
