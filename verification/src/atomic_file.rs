//! A file that appears at its destination only when it is committed: what
//! the writing side may do next, and what the task that holds the temporary
//! file does with what it is told.

use vstd::prelude::*;
use crate::error::Error;

verus! {

/// Where the writing side stands.
#[derive(Debug, Clone, Copy, PartialEq, Eq, Structural)]
pub enum WriterState {
    /// Data is taken.
    Open,
    /// The task has failed with this error, which nobody was told yet.
    Failed(Error),
    /// The error was handed out, or the file was committed or cancelled:
    /// nothing is taken any more.
    Poisoned,
}

/// What the writing side is asked to do.
#[derive(Debug, Clone, Copy, PartialEq, Eq, Structural)]
pub enum Operation {
    Write,
    Commit,
    Cancel,
}

/// What the caller has to do for an operation.
#[derive(Debug, Clone, Copy, PartialEq, Eq, Structural)]
pub enum Action {
    /// Hand the data to the task.
    SendData,
    /// Tell the task to finish, and wait for its result.
    SendFinish,
    /// Tell the task to cancel, and wait for its result.
    SendCancel,
    /// Return this error.
    Fail(Error),
}

/// The writing side of an atomic file.
#[derive(Debug, Clone, Copy, PartialEq, Eq, Structural)]
pub struct AtomicFile {
    state: WriterState,
}

/// What an operation meets in each state: an open file takes it, and a
/// commit or a cancel closes the file; a failure that nobody was told yet is
/// returned, once; after that, and after a commit or a cancel, every
/// operation fails as poisoned.
pub open spec fn spec_step(state: WriterState, op: Operation) -> (WriterState, Action) {
    match state {
        WriterState::Open => match op {
            Operation::Write => (WriterState::Open, Action::SendData),
            Operation::Commit => (WriterState::Poisoned, Action::SendFinish),
            Operation::Cancel => (WriterState::Poisoned, Action::SendCancel),
        },
        WriterState::Failed(e) => (WriterState::Poisoned, Action::Fail(e)),
        WriterState::Poisoned => (WriterState::Poisoned, Action::Fail(Error::AtomicFilePoisoned)),
    }
}

/// The state after the operations of `ops`, one after the other.
pub open spec fn spec_run(state: WriterState, ops: Seq<Operation>) -> WriterState
    decreases ops.len(),
{
    if ops.len() == 0 {
        state
    } else {
        spec_run(spec_step(state, ops[0]).0, ops.drop_first())
    }
}

impl AtomicFile {
    /// Where the writing side stands.
    pub closed spec fn state(&self) -> WriterState {
        self.state
    }

    /// A file that takes data.
    pub fn new() -> (f: AtomicFile)
        ensures
            f.state() == WriterState::Open,
    {
        AtomicFile { state: WriterState::Open }
    }

    /// Records that the task has ended with the error `e`. Only the first
    /// failure of an open file is kept.
    pub fn task_failed(&mut self, e: Error)
        ensures
            final(self).state() == if old(self).state() == WriterState::Open {
                WriterState::Failed(e)
            } else {
                old(self).state()
            },
    {
        match self.state {
            WriterState::Open => {
                self.state = WriterState::Failed(e);
            },
            _ => {},
        }
    }

    fn step(&mut self, op: Operation) -> (action: Action)
        ensures
            (final(self).state(), action) == spec_step(old(self).state(), op),
    {
        match self.state {
            WriterState::Open => match op {
                Operation::Write => Action::SendData,
                Operation::Commit => {
                    self.state = WriterState::Poisoned;
                    Action::SendFinish
                },
                Operation::Cancel => {
                    self.state = WriterState::Poisoned;
                    Action::SendCancel
                },
            },
            WriterState::Failed(e) => {
                self.state = WriterState::Poisoned;
                Action::Fail(e)
            },
            WriterState::Poisoned => Action::Fail(Error::AtomicFilePoisoned),
        }
    }

    /// Asks to write: the data goes to the task, unless the file has failed.
    pub fn write(&mut self) -> (action: Action)
        ensures
            (final(self).state(), action) == spec_step(old(self).state(), Operation::Write),
    {
        self.step(Operation::Write)
    }

    /// Asks to move the file to its destination.
    pub fn commit(&mut self) -> (action: Action)
        ensures
            (final(self).state(), action) == spec_step(old(self).state(), Operation::Commit),
    {
        self.step(Operation::Commit)
    }

    /// Asks to discard the file.
    pub fn cancel(&mut self) -> (action: Action)
        ensures
            (final(self).state(), action) == spec_step(old(self).state(), Operation::Cancel),
    {
        self.step(Operation::Cancel)
    }
}

/// After a failure, the next operation returns the error and every later
/// one fails as poisoned, whatever the operations are.
pub proof fn lemma_error_once_then_poisoned(e: Error, first: Operation, later: Seq<Operation>, op: Operation)
    ensures
        spec_step(WriterState::Failed(e), first).1 == Action::Fail(e),
        spec_step(
            spec_run(spec_step(WriterState::Failed(e), first).0, later),
            op,
        ).1 == Action::Fail(Error::AtomicFilePoisoned),
{
    lemma_poisoned_forever(later);
}

/// A poisoned file stays poisoned.
pub proof fn lemma_poisoned_forever(ops: Seq<Operation>)
    ensures
        spec_run(WriterState::Poisoned, ops) == WriterState::Poisoned,
    decreases ops.len(),
{
    if ops.len() > 0 {
        lemma_poisoned_forever(ops.drop_first());
    }
}

/// What the task that holds the temporary file is told.
#[derive(Debug, Clone, Copy, PartialEq, Eq, Structural)]
pub enum TaskEvent {
    /// Data to write; `written` says whether writing it succeeded.
    Data { written: bool },
    /// The file is committed.
    Finish,
    /// The file is cancelled.
    Cancel,
    /// The writing side is gone without commit or cancel.
    Dropped,
    /// No more data will come.
    DataClosed,
}

/// What the task does next.
#[derive(Debug, Clone, Copy, PartialEq, Eq, Structural)]
pub enum TaskAction {
    /// Go on waiting for what comes.
    Continue,
    /// Move the temporary file to the destination, report how that went,
    /// and end.
    Persist,
    /// Remove the temporary file, report success, and end.
    Discard,
    /// Remove the temporary file, report the failed write, and end.
    ReportFailure,
}

/// What each event asks of the task: only a commit moves the file to its
/// destination.
pub open spec fn spec_task_step(event: TaskEvent) -> TaskAction {
    match event {
        TaskEvent::Data { written } => if written {
            TaskAction::Continue
        } else {
            TaskAction::ReportFailure
        },
        TaskEvent::Finish => TaskAction::Persist,
        TaskEvent::Cancel => TaskAction::Discard,
        TaskEvent::Dropped => TaskAction::Discard,
        TaskEvent::DataClosed => TaskAction::Continue,
    }
}

/// Decides what the task does with an event.
pub fn blocking_task(event: TaskEvent) -> (action: TaskAction)
    ensures
        action == spec_task_step(event),
{
    match event {
        TaskEvent::Data { written } => if written {
            TaskAction::Continue
        } else {
            TaskAction::ReportFailure
        },
        TaskEvent::Finish => TaskAction::Persist,
        TaskEvent::Cancel => TaskAction::Discard,
        TaskEvent::Dropped => TaskAction::Discard,
        TaskEvent::DataClosed => TaskAction::Continue,
    }
}

/// Whether the task, fed the events of `events` until it ends, moves the
/// file to its destination.
pub open spec fn spec_persists(events: Seq<TaskEvent>) -> bool
    decreases events.len(),
{
    if events.len() == 0 {
        false
    } else {
        match spec_task_step(events[0]) {
            TaskAction::Continue => spec_persists(events.drop_first()),
            TaskAction::Persist => true,
            _ => false,
        }
    }
}

/// Without a commit nothing appears at the destination: not after a
/// cancel, not when the writing side is dropped, not after a failed write.
pub proof fn lemma_no_commit_no_file(events: Seq<TaskEvent>)
    requires
        forall|i: int| 0 <= i < events.len() ==> events[i] != TaskEvent::Finish,
    ensures
        !spec_persists(events),
    decreases events.len(),
{
    if events.len() > 0 {
        let rest = events.drop_first();
        assert forall|i: int| 0 <= i < rest.len() implies rest[i] != TaskEvent::Finish by {
            assert(rest[i] == events[i + 1]);
        }
        lemma_no_commit_no_file(rest);
    }
}

} // verus!
