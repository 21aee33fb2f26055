//! The control surface of the scheduler: the command that the owning context
//! gives to the worker, and the slot in which the machine rests while no
//! worker runs it.
//!
//! The command lives in a cell that both contexts reach, which is the
//! caller's, as are the worker, its mailbox and the lock around the keys.
//! The handle decides what may be done and what becomes of the command; the
//! caller takes the command out of the cell for it and wakes the worker where
//! the command changed.

use vstd::prelude::*;

use super::{Frontend, Poll};

verus! {

/// The number of messages that the mailbox of a worker holds.
pub const MESSAGE_BUFFER_SIZE: usize = 8;

/// What the owning context wants of the worker.
#[derive(Clone, Copy, Debug, PartialEq, Eq, Structural)]
pub enum Command {
    /// Run.
    Run,
    /// Wait until the command changes.
    Suspend,
    /// Leave the loop and give the machine back.
    Stop,
}

/// The owning context's hold on the machine. The machine rests in the handle
/// until a worker is started, which takes it along, and comes back when the
/// worker was stopped: at no time do both contexts have it.
pub struct FrontendHandle {
    /// The machine, while no worker runs it.
    pub frontend: Option<Frontend>,
}

impl FrontendHandle {
    /// Whether a worker has the machine.
    pub open spec fn spec_started(&self) -> bool {
        self.frontend is None
    }

    /// Whether the worker is told to wait.
    pub open spec fn spec_suspended(&self, command: Command) -> bool {
        command == Command::Suspend
    }

    /// The handle after the worker that was stopped gave `frontend` back.
    pub open spec fn spec_stop(self, frontend: Frontend) -> FrontendHandle {
        FrontendHandle { frontend: Some(frontend) }
    }

    /// The handle after a worker was started, and the machine that the
    /// worker took along.
    pub open spec fn spec_start(self) -> (FrontendHandle, Frontend) {
        (FrontendHandle { frontend: None }, self.frontend->0)
    }

    /// The machine that a worker gave back when it was stopped is the one
    /// that the next worker takes along, as the first worker left it and not
    /// reset, unless the owning context has changed it in between.
    pub proof fn lemma_stop_then_start(self, frontend: Frontend)
        requires
            self.spec_started(),
        ensures
            !self.spec_stop(frontend).spec_started(),
            self.spec_stop(frontend).spec_start().1 == frontend,
            self.spec_stop(frontend).spec_start().0.spec_started(),
    {
    }

    /// The command that `suspend` leaves makes the worker wait, and the
    /// command that `resume` leaves makes it run.
    pub proof fn lemma_suspend_then_resume(frontend: Frontend)
        ensures
            frontend.spec_poll(Command::Suspend) == Poll::Wait,
            frontend.spec_poll(Command::Run) is Run,
    {
    }

    /// Lets a waiting worker run on. The caller wakes the worker.
    pub fn resume(&self, command: &mut Command)
        requires
            self.spec_suspended(*old(command)),
        ensures
            *final(command) == Command::Run,
    {
        *command = Command::Run;
    }

    /// Takes the machine out of the handle for a worker, which the caller
    /// starts with it, along with a mailbox of `MESSAGE_BUFFER_SIZE`
    /// messages.
    pub fn start(&mut self) -> (frontend: Frontend)
        requires
            !old(self).spec_started(),
        ensures
            (*final(self), frontend) == old(self).spec_start(),
    {
        self.frontend.take().unwrap()
    }

    /// Tells the worker to leave its loop. The caller wakes the worker and
    /// waits for it, then hands the machine to `stop`.
    pub fn request_stop(&self, command: &mut Command)
        requires
            self.spec_started(),
        ensures
            *final(command) == Command::Stop,
    {
        *command = Command::Stop;
    }

    /// Puts the machine back that the worker has left, as the worker left
    /// it, and clears the command. The caller closes the mailbox.
    pub fn stop(&mut self, frontend: Frontend, command: &mut Command) -> (parked: &mut Frontend)
        requires
            old(self).spec_started(),
        ensures
            *parked == frontend,
            *final(self) == old(self).spec_stop(*final(parked)),
            *final(command) == Command::Run,
    {
        *command = Command::Run;
        self.frontend.insert(frontend)
    }

    /// Tells the worker to wait from its next round on.
    pub fn suspend(&self, command: &mut Command)
        requires
            self.spec_started(),
            !self.spec_suspended(*old(command)),
        ensures
            *final(command) == Command::Suspend,
    {
        *command = Command::Suspend;
    }

    /// The machine, while no worker runs it.
    #[inline]
    pub fn get(&mut self) -> (frontend: Option<&mut Frontend>)
        ensures
            match old(self).frontend {
                None => final(self).frontend is None && frontend is None,
                Some(parked) => frontend is Some && *frontend->0 == parked && final(self).frontend == Some(
                    *final(frontend->0),
                ),
            },
    {
        self.frontend.as_mut()
    }

    /// A handle in which `frontend` rests.
    #[inline]
    pub fn new(frontend: Frontend) -> (handle: Self)
        ensures
            handle.frontend == Some(frontend),
            !handle.spec_started(),
    {
        FrontendHandle { frontend: Some(frontend) }
    }

    /// Whether a worker has the machine.
    #[inline]
    #[verifier::when_used_as_spec(spec_started)]
    pub fn started(&self) -> (started: bool)
        ensures
            started == self.spec_started(),
    {
        self.frontend.is_none()
    }

    /// Whether the worker is told to wait, by the owning context or by
    /// itself.
    #[inline]
    #[verifier::when_used_as_spec(spec_suspended)]
    pub fn suspended(&self, command: Command) -> (suspended: bool)
        ensures
            suspended == self.spec_suspended(command),
    {
        command == Command::Suspend
    }
}

} // verus!
