//! The single-slot guard over the active test run.
//!
//! A session holds at most one handle to a running external process; the
//! presence of that handle is the sole source of truth for "a run is
//! active". Starting is a check followed, only after a successful spawn,
//! by storing the handle; cancelling takes the handle out (idempotently)
//! before the kill signal is sent. The host application wraps a session
//! in its mutual-exclusion primitive and keeps each critical section to
//! one of these calls.

use vstd::prelude::*;
use vstd::string::StringExecFns;

verus! {

/// Everything that can go wrong around a run.
#[derive(Debug, PartialEq, Eq)]
pub enum RunError {
    /// A run was requested while another one is active.
    AlreadyRunning,
    /// The external process could not be created.
    SpawnFailure { message: String },
    /// The termination signal for a cancelled run was rejected.
    KillFailure { message: String },
    /// No directory with the project marker file was found.
    WorkspaceNotFound,
}

impl RunError {
    /// The user-facing text of the error.
    pub fn describe(&self) -> (text: String)
        ensures
            self is AlreadyRunning ==> text@ == "Test suite is already running"@,
            self matches RunError::SpawnFailure { message } ==> text@ == message@,
            self matches RunError::KillFailure { message } ==> text@ == message@,
            self is WorkspaceNotFound ==> text@
                == "Unable to locate workspace directory for npm"@,
    {
        match self {
            RunError::AlreadyRunning => String::from_str("Test suite is already running"),
            RunError::SpawnFailure { message } => message.clone(),
            RunError::KillFailure { message } => message.clone(),
            RunError::WorkspaceNotFound => String::from_str(
                "Unable to locate workspace directory for npm",
            ),
        }
    }
}

/// The single active-run slot, generic over the host's process handle.
pub struct RunSession<H> {
    child: Option<H>,
}

impl<H> RunSession<H> {
    /// The handle of the active run, if one is active.
    pub closed spec fn child_handle(self) -> Option<H> {
        self.child
    }

    /// True when a run is active.
    pub open spec fn is_running(self) -> bool {
        self.child_handle() is Some
    }

    /// A fresh session with no active run.
    pub fn new() -> (session: Self)
        ensures
            !session.is_running(),
    {
        RunSession { child: None }
    }

    /// True when a run is active.
    pub fn is_active(&self) -> (active: bool)
        ensures
            active == self.is_running(),
    {
        self.child.is_some()
    }

    /// The guard check that precedes a spawn: a second run is refused
    /// while one is active, and the refusal changes nothing and gives
    /// the caller no license to spawn.
    pub fn check_can_start(&self) -> (r: Result<(), RunError>)
        ensures
            r is Ok <==> !self.is_running(),
            r is Err ==> r->Err_0 is AlreadyRunning,
    {
        if self.child.is_some() {
            Err(RunError::AlreadyRunning)
        } else {
            Ok(())
        }
    }

    /// Records the outcome of the spawn the guard check licensed: a
    /// handle makes the session active; a spawn error is passed back to
    /// the caller and leaves the session idle.
    pub fn note_spawned(&mut self, spawned: Result<H, String>) -> (r: Result<(), RunError>)
        requires
            !old(self).is_running(),
        ensures
            spawned is Ok ==> r is Ok && final(self).child_handle() == Some(spawned->Ok_0),
            spawned is Err ==> !final(self).is_running() && (r matches Err(RunError::SpawnFailure {
                message,
            }) && message == spawned->Err_0),
    {
        match spawned {
            Ok(handle) => {
                self.child = Some(handle);
                Ok(())
            },
            Err(message) => Err(RunError::SpawnFailure { message }),
        }
    }

    /// Takes the active handle out, leaving the session idle. Both the
    /// cancel path and the terminal-event path go through here. Taking
    /// from an idle session yields nothing and changes nothing.
    pub fn take_child(&mut self) -> (taken: Option<H>)
        ensures
            taken == old(self).child_handle(),
            !final(self).is_running(),
            !old(self).is_running() ==> *final(self) == *old(self),
    {
        self.child.take()
    }
}

/// Maps the host's answer to the termination signal of a cancelled run:
/// a rejected signal is reported as a kill failure, anything else is
/// quiet success. The guard was already cleared when this is reached.
pub fn kill_outcome(kill_result: Result<(), String>) -> (r: Result<(), RunError>)
    ensures
        kill_result is Ok ==> r is Ok,
        kill_result is Err ==> (r matches Err(RunError::KillFailure { message }) && message
            == kill_result->Err_0),
{
    match kill_result {
        Ok(()) => Ok(()),
        Err(message) => Err(RunError::KillFailure { message }),
    }
}

} // verus!
