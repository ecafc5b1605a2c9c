//! Hiding the window, and leaving the application.
use vstd::prelude::*;

use crate::app::{AppView, FileExchangeApp};
use crate::number;
use crate::number::decimal_text;
use crate::queue;
use crate::queue::CancelAllOutcome;

verus! {

/// What the tray's menu offers.
#[derive(Debug, Clone, Copy, PartialEq, Eq, Structural)]
pub enum TrayChoice {
    Open,
    Quit,
}

/// What is to be done with the window.
#[derive(Debug, Clone, Copy, PartialEq, Eq, Structural)]
pub enum WindowAction {
    Nothing,
    Show,
    Hide,
    Close,
}

/// What is to be done where another instance hands over so many paths: without
/// any, it asks for the window.
pub fn paths_arrived(count: usize) -> (action: WindowAction)
    ensures
        action == (if count == 0 {
            WindowAction::Show
        } else {
            WindowAction::Nothing
        }),
{
    if count == 0 {
        WindowAction::Show
    } else {
        WindowAction::Nothing
    }
}

/// The text at the icon in the tray.
pub open spec fn tooltip_of(active: nat) -> Seq<char> {
    if active == 0 {
        "文件交换助手"@
    } else {
        "文件交换助手 - "@ + number::decimal(active) + " 个活动任务"@
    }
}

impl AppView {
    /// How many tasks are active.
    pub open spec fn active(self) -> nat {
        queue::active_tasks(self.queue.tasks)
    }

    /// The state once the user has left though tasks were active.
    pub open spec fn left(self) -> AppView {
        AppView {
            queue: self.queue.all_cancelled(),
            exiting: true,
            confirm_exit: false,
            ..self
        }
    }

    /// What is to be done where the window is to be closed.
    pub open spec fn on_close(self) -> WindowAction {
        if self.exiting {
            WindowAction::Nothing
        } else {
            WindowAction::Hide
        }
    }

    /// What is to be done where the user wants to leave.
    pub open spec fn on_exit(self) -> WindowAction {
        if self.active() == 0 {
            WindowAction::Close
        } else {
            WindowAction::Nothing
        }
    }

    /// The state once the user wants to leave: at once where nothing is active,
    /// else after a question.
    pub open spec fn exit_requested(self) -> AppView {
        if self.active() > 0 {
            AppView { confirm_exit: true, ..self }
        } else {
            AppView { exiting: true, ..self }
        }
    }
}

impl FileExchangeApp {
    /// Takes note that the user wants to leave.
    pub fn request_exit(&mut self) -> (action: WindowAction)
        ensures
            final(self)@ == old(self)@.exit_requested(),
            action == (if old(self)@.active() > 0 {
                WindowAction::Nothing
            } else {
                WindowAction::Close
            }),
            action == old(self)@.on_exit(),
    {
        if self.queue.active_count() > 0 {
            self.confirm_exit = true;
            return WindowAction::Nothing;
        }
        self.exiting = true;
        WindowAction::Close
    }

    /// Takes note of a choice in the tray's menu.
    pub fn tray_chosen(&mut self, choice: TrayChoice) -> (action: WindowAction)
        ensures
            match choice {
                TrayChoice::Open => action == WindowAction::Show && final(self)@ == old(self)@,
                TrayChoice::Quit => {
                    &&& final(self)@ == old(self)@.exit_requested()
                    &&& action == (if old(self)@.active() > 0 {
                        WindowAction::Nothing
                    } else {
                        WindowAction::Close
                    })
                },
            },
    {
        match choice {
            TrayChoice::Open => WindowAction::Show,
            TrayChoice::Quit => self.request_exit(),
        }
    }

    /// Takes note that the user stays after all.
    pub fn stay(&mut self)
        ensures
            final(self)@ == (AppView { confirm_exit: false, ..old(self)@ }),
    {
        self.confirm_exit = false;
    }

    /// Leaves, though tasks are active: all are cancelled.
    pub fn leave(&mut self) -> (outcome: CancelAllOutcome)
        requires
            old(self)@.wf(),
        ensures
            final(self)@ == (AppView {
                queue: old(self)@.queue.all_cancelled(),
                exiting: true,
                confirm_exit: false,
                ..old(self)@
            }),
            final(self)@ == old(self)@.left(),
            outcome.abort == (old(self)@.queue.current is Some),
            outcome.discard@ == queue::temporary_ids(old(self)@.queue.tasks),
            final(self)@.wf(),
    {
        let outcome = self.queue.cancel_all();
        self.exiting = true;
        self.confirm_exit = false;
        outcome
    }

    /// What is to be done where the window is to be closed: it is hidden, unless
    /// the application is being left.
    pub fn close_requested(&self) -> (action: WindowAction)
        ensures
            action == (if self@.exiting {
                WindowAction::Nothing
            } else {
                WindowAction::Hide
            }),
            action == self@.on_close(),
    {
        if self.exiting {
            WindowAction::Nothing
        } else {
            WindowAction::Hide
        }
    }

    /// The text at the icon in the tray.
    pub fn tooltip(&self) -> (tooltip: String)
        ensures
            tooltip@ == tooltip_of(self@.active()),
    {
        let count = self.queue.active_count();
        if count == 0 {
            return "文件交换助手".to_owned();
        }
        "文件交换助手 - ".to_owned().concat(decimal_text(count as u64).as_str()).concat(
            " 个活动任务",
        )
    }
}

/// The application is not left over active tasks without a question, and once
/// the user has left, no task is active.
pub proof fn leaving_asks_first(app: AppView)
    requires
        app.wf(),
        !app.exiting,
    ensures
        app.exit_requested().exiting <==> app.active() == 0,
        app.exit_requested().confirm_exit <== app.active() > 0,
        queue::active_tasks(app.queue.all_cancelled().tasks) == 0,
{
    crate::queue_laws::cancelling_all_leaves_none_active(app.queue);
}

} // verus!
