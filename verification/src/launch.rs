//! The launcher as a machine that the host program drives.
//!
//! The machine decides; the host acts. It starts with [`begin`], which names
//! the first request to the operating system. The host performs each request,
//! reports what came of it as an [`Event`], and gets the next request from
//! [`advance`], until the request is to exit.
//!
//! A run goes through these requests, in this order: let go of the console,
//! join the parent's console, read the raw command line, then either print
//! the usage text or create the child, release its thread handle, wait for
//! it, ask for its exit code and release its process handle, and last exit.
//! A failure on the way ends the run with exit code 1, after the failure has
//! been written out, and after the process handle, if there is one, has been
//! released.

use vstd::prelude::*;
use vstd::string::StringExecFns;
use crate::split::{forward, forwarded_of, lemma_split_bounds, SplitError};
use crate::status::{read_status, status_result, OsError};
use crate::units::NULL;

verus! {

/// Why a run ends without the child's exit code.
#[derive(Clone, Copy, Debug, PartialEq, Eq)]
pub enum Failure {
    /// The console could not be let go of, or the parent's not be joined.
    Console(OsError),
    /// The raw command line has no split.
    Malformed(SplitError),
    /// The operating system did not create the child.
    Creation(OsError),
    /// The wait for the child did not end in success.
    Wait(OsError),
    /// The child's exit code could not be had.
    ExitCode(OsError),
    /// The host reported what the request it was given cannot bring about.
    Unexpected,
}

impl Failure {
    /// The error of the operating system behind the failure, where there is
    /// one. Its text is the operating system's to give.
    pub open spec fn os_error_of(self) -> Option<OsError> {
        match self {
            Failure::Console(error) => Some(error),
            Failure::Creation(error) => Some(error),
            Failure::Wait(error) => Some(error),
            Failure::ExitCode(error) => Some(error),
            Failure::Malformed(_) => None,
            Failure::Unexpected => None,
        }
    }

    /// The failure in words, where no error of the operating system is
    /// behind it.
    pub open spec fn message_of(self) -> Option<Seq<char>> {
        match self {
            Failure::Malformed(SplitError::NotTerminated) => Some(
                "malformed command line: it does not end in its one null unit"@,
            ),
            Failure::Malformed(SplitError::UnterminatedQuote) => Some(
                "malformed command line: the quoted program name is never closed"@,
            ),
            Failure::Malformed(SplitError::NoSeparator) => Some(
                "malformed command line: nothing follows the program name"@,
            ),
            Failure::Unexpected => Some("the request was answered by an event it cannot have"@),
            _ => None,
        }
    }

    /// The error of the operating system behind the failure, if any.
    pub fn os_error(&self) -> (error: Option<OsError>)
        ensures
            error == self.os_error_of(),
    {
        match *self {
            Failure::Console(error) => Some(error),
            Failure::Creation(error) => Some(error),
            Failure::Wait(error) => Some(error),
            Failure::ExitCode(error) => Some(error),
            Failure::Malformed(_) => None,
            Failure::Unexpected => None,
        }
    }

    /// The failure in words, if it is the launcher's own.
    pub fn message(&self) -> (text: Option<String>)
        ensures
            text matches Some(words) ==> self.message_of() == Some(words@),
            text is None ==> self.message_of() is None,
    {
        match *self {
            Failure::Malformed(SplitError::NotTerminated) => Some(
                String::from_str("malformed command line: it does not end in its one null unit"),
            ),
            Failure::Malformed(SplitError::UnterminatedQuote) => Some(
                String::from_str("malformed command line: the quoted program name is never closed"),
            ),
            Failure::Malformed(SplitError::NoSeparator) => Some(
                String::from_str("malformed command line: nothing follows the program name"),
            ),
            Failure::Unexpected => Some(
                String::from_str("the request was answered by an event it cannot have"),
            ),
            _ => None,
        }
    }
}

/// How a run with a child ends: with the child's exit code, or in a failure.
pub type Outcome = Result<u32, Failure>;

/// Where a run stands: the request that is with the host.
#[derive(Clone, Copy, Debug, PartialEq, Eq)]
pub enum Phase {
    /// Letting go of the console.
    Detaching,
    /// Joining the parent's console.
    Attaching,
    /// Reading the raw command line.
    Reading,
    /// Printing the usage text.
    Printing,
    /// Creating the child.
    Creating,
    /// Releasing the child's thread handle.
    ClosingThread,
    /// Waiting for the child to end.
    Waiting,
    /// Asking for the child's exit code.
    Querying,
    /// Releasing the child's process handle; the outcome is kept for later.
    Releasing(Outcome),
    /// Writing a failure to the error stream.
    Reporting,
    /// Exiting with this code.
    Finished(u32),
}

/// What the host reports of the request it performed.
#[derive(Debug, PartialEq, Eq)]
pub enum Event {
    /// It is done, and there is nothing to hand back.
    Done,
    /// The operating system refused it.
    Failed(OsError),
    /// The raw command line, terminating null included.
    CommandLine(Vec<u16>),
    /// The wait came back with this status.
    Waited(u32),
    /// The child ended with this exit code.
    ExitCode(u32),
}

/// An event as a mathematical value.
pub ghost enum EventView {
    Done,
    Failed(OsError),
    CommandLine(Seq<u16>),
    Waited(u32),
    ExitCode(u32),
}

impl View for Event {
    type V = EventView;

    open spec fn view(&self) -> EventView {
        match *self {
            Event::Done => EventView::Done,
            Event::Failed(error) => EventView::Failed(error),
            Event::CommandLine(line) => EventView::CommandLine(line@),
            Event::Waited(status) => EventView::Waited(status),
            Event::ExitCode(code) => EventView::ExitCode(code),
        }
    }
}

/// What the host is asked to do next.
#[derive(Debug, PartialEq, Eq)]
pub enum Action {
    /// Let go of the console that the process is bound to.
    DetachConsole,
    /// Join the console of the parent process.
    AttachParentConsole,
    /// Fetch the raw command line of the process.
    ReadCommandLine,
    /// Print the usage text to standard output.
    PrintUsage,
    /// Create a child with these units as its whole command line, and with
    /// everything else inherited or left at its default.
    CreateProcess(Vec<u16>),
    /// Release the child's thread handle.
    CloseThread,
    /// Wait for the child to end, without a time limit.
    Wait,
    /// Ask for the child's exit code.
    QueryExitCode,
    /// Release the child's process handle.
    CloseProcess,
    /// Write this failure to the error stream.
    Report(Failure),
    /// Exit with this code.
    Exit(u32),
}

/// A request as a mathematical value.
pub ghost enum ActionView {
    DetachConsole,
    AttachParentConsole,
    ReadCommandLine,
    PrintUsage,
    CreateProcess(Seq<u16>),
    CloseThread,
    Wait,
    QueryExitCode,
    CloseProcess,
    Report(Failure),
    Exit(u32),
}

impl View for Action {
    type V = ActionView;

    open spec fn view(&self) -> ActionView {
        match *self {
            Action::DetachConsole => ActionView::DetachConsole,
            Action::AttachParentConsole => ActionView::AttachParentConsole,
            Action::ReadCommandLine => ActionView::ReadCommandLine,
            Action::PrintUsage => ActionView::PrintUsage,
            Action::CreateProcess(command) => ActionView::CreateProcess(command@),
            Action::CloseThread => ActionView::CloseThread,
            Action::Wait => ActionView::Wait,
            Action::QueryExitCode => ActionView::QueryExitCode,
            Action::CloseProcess => ActionView::CloseProcess,
            Action::Report(failure) => ActionView::Report(failure),
            Action::Exit(code) => ActionView::Exit(code),
        }
    }
}

/// The exit code of a run that failed.
pub const FAILURE_CODE: u32 = 1;

/// A run without a child fails: the failure is written out next.
pub open spec fn reporting(failure: Failure) -> (Phase, ActionView) {
    (Phase::Reporting, ActionView::Report(failure))
}

/// A run with a child comes to its end: the process handle is released
/// next, whatever the outcome.
pub open spec fn releasing(outcome: Outcome) -> (Phase, ActionView) {
    (Phase::Releasing(outcome), ActionView::CloseProcess)
}

/// What follows the raw command line: the usage text where nothing is
/// forwarded, the child where something is, a failure where the line has no
/// split.
pub open spec fn launching(line: Seq<u16>) -> (Phase, ActionView) {
    match forwarded_of(line) {
        Err(e) => reporting(Failure::Malformed(e)),
        Ok(command) => if command[0] == NULL {
            (Phase::Printing, ActionView::PrintUsage)
        } else {
            (Phase::Creating, ActionView::CreateProcess(command))
        },
    }
}

/// The machine: from where the run stands and what the host reports to where
/// it stands next and what the host is asked to do.
///
/// Releasing a handle, printing and writing out a failure have no result
/// that the run depends on: whatever is reported of them, the run goes on.
pub open spec fn step(phase: Phase, event: EventView) -> (Phase, ActionView) {
    match phase {
        Phase::Detaching => match event {
            EventView::Done => (Phase::Attaching, ActionView::AttachParentConsole),
            EventView::Failed(error) => reporting(Failure::Console(error)),
            _ => reporting(Failure::Unexpected),
        },
        Phase::Attaching => match event {
            EventView::Done => (Phase::Reading, ActionView::ReadCommandLine),
            EventView::Failed(error) => reporting(Failure::Console(error)),
            _ => reporting(Failure::Unexpected),
        },
        Phase::Reading => match event {
            EventView::CommandLine(line) => launching(line),
            _ => reporting(Failure::Unexpected),
        },
        Phase::Printing => (Phase::Finished(0), ActionView::Exit(0)),
        Phase::Creating => match event {
            EventView::Done => (Phase::ClosingThread, ActionView::CloseThread),
            EventView::Failed(error) => reporting(Failure::Creation(error)),
            _ => reporting(Failure::Unexpected),
        },
        Phase::ClosingThread => (Phase::Waiting, ActionView::Wait),
        Phase::Waiting => match event {
            EventView::Waited(status) => match status_result(status) {
                Ok(_) => (Phase::Querying, ActionView::QueryExitCode),
                Err(error) => releasing(Err(Failure::Wait(error))),
            },
            _ => releasing(Err(Failure::Unexpected)),
        },
        Phase::Querying => match event {
            EventView::ExitCode(code) => releasing(Ok(code)),
            EventView::Failed(error) => releasing(Err(Failure::ExitCode(error))),
            _ => releasing(Err(Failure::Unexpected)),
        },
        Phase::Releasing(outcome) => match outcome {
            Ok(code) => (Phase::Finished(code), ActionView::Exit(code)),
            Err(failure) => reporting(failure),
        },
        Phase::Reporting => (Phase::Finished(FAILURE_CODE), ActionView::Exit(FAILURE_CODE)),
        Phase::Finished(code) => (Phase::Finished(code), ActionView::Exit(code)),
    }
}

/// Starts a run: the first request is to let go of the console.
pub fn begin() -> (first: (Phase, Action))
    ensures
        first.0 == Phase::Detaching,
        first.1@ == ActionView::DetachConsole,
{
    (Phase::Detaching, Action::DetachConsole)
}

fn report(failure: Failure) -> (next: (Phase, Action))
    ensures
        (next.0, next.1@) == reporting(failure),
{
    (Phase::Reporting, Action::Report(failure))
}

fn release(outcome: Outcome) -> (next: (Phase, Action))
    ensures
        (next.0, next.1@) == releasing(outcome),
{
    (Phase::Releasing(outcome), Action::CloseProcess)
}

/// Decides what follows the raw command line.
pub fn launch(line: &[u16]) -> (next: (Phase, Action))
    ensures
        (next.0, next.1@) == launching(line@),
{
    match forward(line) {
        Err(e) => report(Failure::Malformed(e)),
        Ok(command) => {
            proof {
                lemma_split_bounds(line@);
            }
            if command[0] == NULL {
                (Phase::Printing, Action::PrintUsage)
            } else {
                (Phase::Creating, Action::CreateProcess(command))
            }
        },
    }
}

/// Takes the run one step on.
pub fn advance(phase: Phase, event: Event) -> (next: (Phase, Action))
    ensures
        (next.0, next.1@) == step(phase, event@),
{
    match phase {
        Phase::Detaching => match event {
            Event::Done => (Phase::Attaching, Action::AttachParentConsole),
            Event::Failed(error) => report(Failure::Console(error)),
            _ => report(Failure::Unexpected),
        },
        Phase::Attaching => match event {
            Event::Done => (Phase::Reading, Action::ReadCommandLine),
            Event::Failed(error) => report(Failure::Console(error)),
            _ => report(Failure::Unexpected),
        },
        Phase::Reading => match event {
            Event::CommandLine(line) => launch(line.as_slice()),
            _ => report(Failure::Unexpected),
        },
        Phase::Printing => (Phase::Finished(0), Action::Exit(0)),
        Phase::Creating => match event {
            Event::Done => (Phase::ClosingThread, Action::CloseThread),
            Event::Failed(error) => report(Failure::Creation(error)),
            _ => report(Failure::Unexpected),
        },
        Phase::ClosingThread => (Phase::Waiting, Action::Wait),
        Phase::Waiting => match event {
            Event::Waited(status) => match read_status(status) {
                Ok(_) => (Phase::Querying, Action::QueryExitCode),
                Err(error) => release(Err(Failure::Wait(error))),
            },
            _ => release(Err(Failure::Unexpected)),
        },
        Phase::Querying => match event {
            Event::ExitCode(code) => release(Ok(code)),
            Event::Failed(error) => release(Err(Failure::ExitCode(error))),
            _ => release(Err(Failure::Unexpected)),
        },
        Phase::Releasing(outcome) => match outcome {
            Ok(code) => (Phase::Finished(code), Action::Exit(code)),
            Err(failure) => report(failure),
        },
        Phase::Reporting => (Phase::Finished(FAILURE_CODE), Action::Exit(FAILURE_CODE)),
        Phase::Finished(code) => (Phase::Finished(code), Action::Exit(code)),
    }
}

} // verus!
