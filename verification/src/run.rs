//! Whole runs of the launcher, and what holds of every one of them.
//!
//! A run is what the machine does with a sequence of events, whatever the
//! host reports and in whatever order. Nothing here is executed: these are
//! the statements about all runs that the machine was built to meet.

use vstd::prelude::*;
use crate::launch::{step, ActionView, EventView, Phase, FAILURE_CODE};
use crate::split::{
    forwarded_of, is_terminated, lemma_forwarded_is_terminated, lemma_forwarded_is_trimmed,
    SplitError,
};
use crate::units::{is_separator, NULL};

verus! {

/// The run that a sequence of events drives: entry `n` holds where the run
/// stands after the first `n` events, and the request that is then with the
/// host.
pub open spec fn run(events: Seq<EventView>) -> Seq<(Phase, ActionView)>
    decreases events.len(),
{
    if events.len() == 0 {
        seq![(Phase::Detaching, ActionView::DetachConsole)]
    } else {
        let before = run(events.drop_last());
        before.push(step(before.last().0, events.last()))
    }
}

/// The request asks for the usage text or for the child.
pub open spec fn is_launch(action: ActionView) -> bool {
    action is PrintUsage || action is CreateProcess
}

/// The request that a phase has with the host.
pub open spec fn awaits(phase: Phase, action: ActionView) -> bool {
    match phase {
        Phase::Detaching => action is DetachConsole,
        Phase::Attaching => action is AttachParentConsole,
        Phase::Reading => action is ReadCommandLine,
        Phase::Printing => action is PrintUsage,
        Phase::Creating => action is CreateProcess,
        Phase::ClosingThread => action is CloseThread,
        Phase::Waiting => action is Wait,
        Phase::Querying => action is QueryExitCode,
        Phase::Releasing(_) => action is CloseProcess,
        Phase::Reporting => action is Report,
        Phase::Finished(code) => action == ActionView::Exit(code),
    }
}

/// How far a run has come. Every step but the last takes it further.
pub open spec fn stage(phase: Phase) -> nat {
    match phase {
        Phase::Detaching => 0,
        Phase::Attaching => 1,
        Phase::Reading => 2,
        Phase::Printing => 3,
        Phase::Creating => 3,
        Phase::ClosingThread => 4,
        Phase::Waiting => 5,
        Phase::Querying => 6,
        Phase::Releasing(_) => 7,
        Phase::Reporting => 8,
        Phase::Finished(_) => 9,
    }
}

/// A run has one entry more than events; it starts by letting go of the
/// console, and each entry comes from the one before by one step of the
/// machine.
pub proof fn lemma_run_steps(events: Seq<EventView>)
    ensures
        run(events).len() == events.len() + 1,
        run(events)[0] == (Phase::Detaching, ActionView::DetachConsole),
        forall|i: int|
            0 <= i < events.len() ==> run(events)[i + 1] == step(
                run(events)[i].0,
                #[trigger] events[i],
            ),
    decreases events.len(),
{
    if events.len() > 0 {
        let shorter = events.drop_last();
        lemma_run_steps(shorter);
        assert forall|i: int| 0 <= i < events.len() implies run(events)[i + 1] == step(
            run(events)[i].0,
            #[trigger] events[i],
        ) by {
            if i < shorter.len() {
                assert(shorter[i] == events[i]);
            }
        }
    }
}

/// One step takes a run further, or leaves it finished as it was; and the
/// request it gives is the one that the new phase has with the host.
pub proof fn lemma_step_moves_on(phase: Phase, event: EventView)
    ensures
        awaits(step(phase, event).0, step(phase, event).1),
        phase is Finished ==> step(phase, event).0 == phase,
        !(phase is Finished) ==> stage(step(phase, event).0) > stage(phase),
{
}

/// At every point of a run the request with the host is the one that the
/// phase names.
pub proof fn lemma_request_fits_phase(events: Seq<EventView>, n: int)
    requires
        0 <= n <= events.len(),
    ensures
        awaits(run(events)[n].0, run(events)[n].1),
{
    lemma_run_steps(events);
    if n > 0 {
        assert(run(events)[n - 1 + 1] == step(run(events)[n - 1].0, events[n - 1]));
        lemma_step_moves_on(run(events)[n - 1].0, events[n - 1]);
    }
}

/// A run never goes back: between two of its points it has come further by
/// at least as many stages as there are steps between them, unless it is
/// finished by then.
pub proof fn lemma_run_moves_on(events: Seq<EventView>, i: int, j: int)
    requires
        0 <= i <= j <= events.len(),
    ensures
        run(events)[j].0 is Finished || stage(run(events)[j].0) >= stage(run(events)[i].0) + (j
            - i),
    decreases j - i,
{
    lemma_run_steps(events);
    if i < j {
        lemma_run_moves_on(events, i, j - 1);
        assert(run(events)[j - 1 + 1] == step(run(events)[j - 1].0, events[j - 1]));
        lemma_step_moves_on(run(events)[j - 1].0, events[j - 1]);
    }
}

/// Once a run is finished it stays so: every later request is to exit with
/// the same code.
pub proof fn lemma_finished_stays(events: Seq<EventView>, i: int, j: int)
    requires
        0 <= i <= j <= events.len(),
        run(events)[i].0 is Finished,
    ensures
        run(events)[j] == run(events)[i],
        run(events)[j].1 == ActionView::Exit(run(events)[i].0->Finished_0),
    decreases j - i,
{
    lemma_run_steps(events);
    lemma_request_fits_phase(events, i);
    if i < j {
        lemma_finished_stays(events, i, j - 1);
        assert(run(events)[j - 1 + 1] == step(run(events)[j - 1].0, events[j - 1]));
    }
}

/// A run asks at most once for the usage text or for the child, and never
/// for both.
pub proof fn lemma_usage_or_child(events: Seq<EventView>, i: int, j: int)
    requires
        0 <= i <= events.len(),
        0 <= j <= events.len(),
        is_launch(run(events)[i].1),
        is_launch(run(events)[j].1),
    ensures
        i == j,
{
    lemma_request_fits_phase(events, i);
    lemma_request_fits_phase(events, j);
    if i < j {
        lemma_run_moves_on(events, i, j);
    }
    if j < i {
        lemma_run_moves_on(events, j, i);
    }
}

/// Where the command line forwards nothing, the usage text is asked for,
/// the run then exits with code 0, and no child is ever created.
pub proof fn lemma_nothing_forwarded_prints_usage(events: Seq<EventView>, n: int)
    requires
        0 <= n < events.len(),
        run(events)[n].0 == Phase::Reading,
        events[n] matches EventView::CommandLine(line) && forwarded_of(line) matches Ok(command)
            && command[0] == NULL,
    ensures
        run(events)[n + 1].1 == ActionView::PrintUsage,
        forall|j: int| n + 1 < j <= events.len() ==> (#[trigger] run(events)[j]).1 == ActionView::Exit(0),
        forall|j: int| 0 <= j <= events.len() ==> !((#[trigger] run(events)[j]).1 is CreateProcess),
{
    lemma_run_steps(events);
    assert(run(events)[n + 1] == step(run(events)[n].0, events[n]));
    assert forall|j: int| n + 1 < j <= events.len() implies (#[trigger] run(events)[j]).1
        == ActionView::Exit(0) by {
        assert(run(events)[n + 1 + 1] == step(run(events)[n + 1].0, events[n + 1]));
        lemma_finished_stays(events, n + 2, j);
    }
    assert forall|j: int| 0 <= j <= events.len() implies !((#[trigger] run(events)[j]).1
        is CreateProcess) by {
        if run(events)[j].1 is CreateProcess {
            lemma_usage_or_child(events, n + 1, j);
        }
    }
}

/// Where the command line forwards a command, a child is asked for whose
/// command line is that command, unit for unit, and the usage text is never
/// printed.
pub proof fn lemma_forwarded_command_is_run(events: Seq<EventView>, n: int)
    requires
        0 <= n < events.len(),
        run(events)[n].0 == Phase::Reading,
        events[n] matches EventView::CommandLine(line) && forwarded_of(line) matches Ok(command)
            && command[0] != NULL,
    ensures
        events[n] matches EventView::CommandLine(line) && forwarded_of(line) matches Ok(command)
            && run(events)[n + 1].1 == ActionView::CreateProcess(command),
        forall|j: int| 0 <= j <= events.len() ==> !((#[trigger] run(events)[j]).1 is PrintUsage),
{
    lemma_run_steps(events);
    assert(run(events)[n + 1] == step(run(events)[n].0, events[n]));
    assert forall|j: int| 0 <= j <= events.len() implies !((#[trigger] run(events)[j]).1
        is PrintUsage) by {
        if run(events)[j].1 is PrintUsage {
            lemma_usage_or_child(events, n + 1, j);
        }
    }
}

/// A child is only ever asked for with what a command line forwards: the
/// request follows the reading of a line whose forwarded command it holds.
/// That command is a line of its own, ended by its one null unit, and it
/// starts with a unit that is neither that null nor a separator.
pub proof fn lemma_child_runs_what_was_forwarded(events: Seq<EventView>, n: int)
    requires
        0 <= n <= events.len(),
        run(events)[n].1 is CreateProcess,
    ensures
        n > 0,
        run(events)[n - 1].0 == Phase::Reading,
        events[n - 1] matches EventView::CommandLine(line) && forwarded_of(line) == Ok::<
            Seq<u16>,
            SplitError,
        >(run(events)[n].1->CreateProcess_0),
        is_terminated(run(events)[n].1->CreateProcess_0),
        run(events)[n].1->CreateProcess_0[0] != NULL,
        !is_separator(run(events)[n].1->CreateProcess_0[0]),
{
    lemma_run_steps(events);
    if n > 0 {
        assert(run(events)[n - 1 + 1] == step(run(events)[n - 1].0, events[n - 1]));
        let line = events[n - 1]->CommandLine_0;
        lemma_forwarded_is_terminated(line);
        lemma_forwarded_is_trimmed(line);
    }
}

/// Once the child is created, its thread handle is released at once and
/// the wait begins, whatever is reported of the release.
pub proof fn lemma_thread_handle_released(events: Seq<EventView>, n: int)
    requires
        0 <= n < events.len(),
        run(events)[n].0 == Phase::Creating,
        events[n] == EventView::Done,
    ensures
        run(events)[n + 1].1 == ActionView::CloseThread,
        n + 1 < events.len() ==> run(events)[n + 2].1 == ActionView::Wait,
{
    lemma_run_steps(events);
    assert(run(events)[n + 1] == step(run(events)[n].0, events[n]));
    if n + 1 < events.len() {
        assert(run(events)[n + 1 + 1] == step(run(events)[n + 1].0, events[n + 1]));
    }
}

/// The exit code of a run is the child's, wherever the child was created
/// and waited for and its exit code was had: the process handle is released
/// next, and every request after that is to exit with the child's code.
pub proof fn lemma_exit_code_is_the_childs(events: Seq<EventView>, n: int, code: u32)
    requires
        0 <= n,
        n + 3 < events.len(),
        run(events)[n].0 == Phase::Creating,
        events[n] == EventView::Done,
        events[n + 2] == EventView::Waited(0),
        events[n + 3] == EventView::ExitCode(code),
    ensures
        run(events)[n + 4].1 == ActionView::CloseProcess,
        forall|j: int| n + 4 < j <= events.len() ==> (#[trigger] run(events)[j]).1 == ActionView::Exit(code),
{
    lemma_run_steps(events);
    assert(run(events)[n + 1] == step(run(events)[n].0, events[n]));
    assert(run(events)[n + 1 + 1] == step(run(events)[n + 1].0, events[n + 1]));
    assert(run(events)[n + 2 + 1] == step(run(events)[n + 2].0, events[n + 2]));
    assert(run(events)[n + 3 + 1] == step(run(events)[n + 3].0, events[n + 3]));
    assert(run(events)[n + 4].0 == Phase::Releasing(Ok(code)));
    assert forall|j: int| n + 4 < j <= events.len() implies (#[trigger] run(events)[j]).1
        == ActionView::Exit(code) by {
        assert(run(events)[n + 4 + 1] == step(run(events)[n + 4].0, events[n + 4]));
        lemma_finished_stays(events, n + 5, j);
    }
}

/// A run that fails exits with code 1: once a failure is written out, every
/// later request is to exit with that code.
pub proof fn lemma_failure_exits_with_one(events: Seq<EventView>, n: int)
    requires
        0 <= n <= events.len(),
        run(events)[n].1 is Report,
    ensures
        forall|j: int| n < j <= events.len() ==> (#[trigger] run(events)[j]).1 == ActionView::Exit(FAILURE_CODE),
{
    lemma_run_steps(events);
    lemma_request_fits_phase(events, n);
    assert forall|j: int| n < j <= events.len() implies (#[trigger] run(events)[j]).1
        == ActionView::Exit(FAILURE_CODE) by {
        assert(run(events)[n + 1] == step(run(events)[n].0, events[n]));
        lemma_finished_stays(events, n + 1, j);
    }
}

/// The child's process handle is released on every path: between the
/// creation of the child and any later writing of a failure or exit, the run
/// asks for the release. The index of that request is returned.
pub proof fn lemma_process_handle_released(events: Seq<EventView>, n: int, end: int) -> (at: int)
    requires
        0 <= n < end <= events.len(),
        run(events)[n].0 == Phase::Creating,
        events[n] == EventView::Done,
        run(events)[end].1 is Report || run(events)[end].1 is Exit,
    ensures
        n + 2 < at < end,
        run(events)[at].1 == ActionView::CloseProcess,
{
    lemma_run_steps(events);
    lemma_request_fits_phase(events, end);
    assert(run(events)[n + 1] == step(run(events)[n].0, events[n]));
    assert(end > n + 1);
    assert(run(events)[n + 1 + 1] == step(run(events)[n + 1].0, events[n + 1]));
    assert(end > n + 2);
    assert(run(events)[n + 2 + 1] == step(run(events)[n + 2].0, events[n + 2]));
    if run(events)[n + 3].0 is Releasing {
        assert(end > n + 3);
        n + 3
    } else {
        assert(run(events)[n + 3].0 == Phase::Querying);
        assert(end > n + 3);
        assert(run(events)[n + 3 + 1] == step(run(events)[n + 3].0, events[n + 3]));
        assert(end > n + 4);
        n + 4
    }
}

/// The process handle is released at most once.
pub proof fn lemma_process_handle_released_once(events: Seq<EventView>, i: int, j: int)
    requires
        0 <= i <= events.len(),
        0 <= j <= events.len(),
        run(events)[i].1 is CloseProcess,
        run(events)[j].1 is CloseProcess,
    ensures
        i == j,
{
    lemma_request_fits_phase(events, i);
    lemma_request_fits_phase(events, j);
    if i < j {
        lemma_run_moves_on(events, i, j);
    }
    if j < i {
        lemma_run_moves_on(events, j, i);
    }
}

/// The process handle is only released where there is one: the request
/// comes after the child was created. The index of the creation is returned.
pub proof fn lemma_release_follows_creation(events: Seq<EventView>, at: int) -> (n: int)
    requires
        0 <= at <= events.len(),
        run(events)[at].1 is CloseProcess,
    ensures
        0 <= n,
        n + 2 < at,
        run(events)[n].0 == Phase::Creating,
        events[n] == EventView::Done,
{
    lemma_run_steps(events);
    lemma_request_fits_phase(events, at);
    assert(at > 0);
    assert(run(events)[at - 1 + 1] == step(run(events)[at - 1].0, events[at - 1]));
    lemma_request_fits_phase(events, at - 1);
    if run(events)[at - 1].0 == Phase::Waiting {
        assert(at > 1);
        assert(run(events)[at - 2 + 1] == step(run(events)[at - 2].0, events[at - 2]));
        assert(run(events)[at - 2].0 == Phase::ClosingThread);
        assert(at > 2);
        assert(run(events)[at - 3 + 1] == step(run(events)[at - 3].0, events[at - 3]));
        at - 3
    } else {
        assert(run(events)[at - 1].0 == Phase::Querying);
        assert(at > 1);
        assert(run(events)[at - 2 + 1] == step(run(events)[at - 2].0, events[at - 2]));
        assert(run(events)[at - 2].0 == Phase::Waiting);
        assert(at > 2);
        assert(run(events)[at - 3 + 1] == step(run(events)[at - 3].0, events[at - 3]));
        assert(run(events)[at - 3].0 == Phase::ClosingThread);
        assert(at > 3);
        assert(run(events)[at - 4 + 1] == step(run(events)[at - 4].0, events[at - 4]));
        at - 4
    }
}

/// A run is finished from some point on: the first at which it is.
proof fn lemma_first_finished(events: Seq<EventView>, end: int) -> (first: int)
    requires
        0 <= end <= events.len(),
        run(events)[end].0 is Finished,
    ensures
        0 < first <= end,
        run(events)[first].0 is Finished,
        !(run(events)[first - 1].0 is Finished),
    decreases end,
{
    lemma_run_steps(events);
    if run(events)[end - 1].0 is Finished {
        lemma_first_finished(events, end - 1)
    } else {
        end
    }
}

/// A run that exits without a failure written out before has asked for the
/// usage text or for the child. The index of that request is returned.
pub proof fn lemma_clean_exit_follows_launch(events: Seq<EventView>, end: int) -> (at: int)
    requires
        0 <= end <= events.len(),
        run(events)[end].1 is Exit,
        forall|k: int| 0 <= k < end ==> !((#[trigger] run(events)[k]).1 is Report),
    ensures
        0 <= at < end,
        is_launch(run(events)[at].1),
{
    lemma_run_steps(events);
    lemma_request_fits_phase(events, end);
    let first = lemma_first_finished(events, end);
    let before = first - 1;
    assert(run(events)[before + 1] == step(run(events)[before].0, events[before]));
    lemma_request_fits_phase(events, before);
    assert(!(run(events)[before].1 is Report));
    if run(events)[before].0 is Printing {
        before
    } else {
        assert(run(events)[before].0 is Releasing);
        let created = lemma_release_follows_creation(events, before);
        lemma_request_fits_phase(events, created);
        created
    }
}

} // verus!
