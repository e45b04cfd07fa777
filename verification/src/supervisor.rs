//! The run supervisor's state machine: one machine drives one matched
//! container from creation through timeout enforcement to cleanup and report.
//!
//! The machine is pure: `action` says what the caller must do next (write the
//! staging file, create, start, wait with the template's timeout, kill,
//! remove, report), the caller performs that one step against the outside
//! world, and `step` consumes the observed result. Runs for different matches
//! share nothing, so many machines can be driven concurrently; a slow or hung
//! container only delays its own machine.
//!
//! Per run the states are `Pending → Staged → Created → Running →
//! {Cleanup, Killing} → Cleanup → Reporting → Finished`, with every failure
//! routed to a `Failed` outcome: a staging or create failure ends the run with
//! no further container-engine interaction, a start failure still removes the
//! created container, a timeout issues one kill and still removes the
//! container, and removal is best-effort (its own failure never changes the
//! outcome).

use vstd::prelude::*;

use crate::config::ContainerConfig;

verus! {

/// The terminal outcome of one run.
#[derive(Clone, Copy, Debug, PartialEq, Eq, Structural)]
pub enum Outcome {
    /// The container exited on its own, with this exit code.
    Completed(i64),
    /// The timeout elapsed first and the run killed the container.
    TimedOut,
    /// Staging, creation or start failed; the container never ran to an exit.
    Failed,
}

/// Where one run stands.
#[derive(Clone, Copy, Debug, PartialEq, Eq, Structural)]
pub enum RunState {
    /// The event payload still has to be written for the container.
    Pending,
    /// Payload staged (or none wanted); the container has to be created.
    Staged,
    /// The container exists but has not been started.
    Created,
    /// The container is running; the run waits for exit or timeout.
    Running,
    /// The timeout fired; a kill has to be issued.
    Killing,
    /// The run has its outcome and the container still has to be removed.
    Cleanup(Outcome),
    /// Cleanup is done; the outcome still has to be reported.
    Reporting(Outcome),
    /// The run is over.
    Finished(Outcome),
}

/// What the outside world reported back for the last requested action.
#[derive(Clone, Copy, Debug, PartialEq, Eq, Structural)]
pub enum RunEvent {
    /// The staging file was written.
    StagedOk,
    /// The staging file could not be written.
    StagingFailed,
    /// The container was created.
    CreateOk,
    /// The container could not be created.
    CreateFailed,
    /// The container was started.
    StartOk,
    /// The container could not be started.
    StartFailed,
    /// The container exited on its own with this code.
    Exited(i64),
    /// The timeout elapsed before the container exited.
    TimeoutFired,
    /// The kill was issued, whether or not it succeeded promptly.
    KillAttempted,
    /// The removal was attempted, whether or not it succeeded.
    RemoveAttempted,
    /// The outcome was reported.
    Reported,
}

/// The one step the caller must perform next for this run.
#[derive(Clone, Copy, Debug, PartialEq, Eq)]
pub enum Action {
    /// Write this run's staging file with the event's payload.
    Stage,
    /// Create the container.
    Create,
    /// Start the container.
    Start,
    /// Wait for the container's exit, bounded by this many seconds if set.
    Wait(Option<u32>),
    /// Kill the container.
    Kill,
    /// Remove the container, best-effort.
    Remove,
    /// Report this outcome upward.
    Report(Outcome),
    /// Nothing: the run is over with this outcome.
    Done(Outcome),
}

/// One run's supervisor state machine.
#[derive(Clone, Copy, Debug)]
pub struct RunMachine {
    /// The template's timeout in seconds, if any.
    pub timeout: Option<u32>,
    /// Whether the template asks for the event payload to be staged.
    pub wants_payload: bool,
    /// Where the run stands.
    pub state: RunState,
}

/// The machine a template starts with: staging first when the template names
/// an event path, and straight to creation when it names none.
pub open spec fn machine_init(template: ContainerConfig) -> RunMachine {
    RunMachine {
        timeout: template.timeout,
        wants_payload: template.event_path is Some,
        state: if template.event_path is Some {
            RunState::Pending
        } else {
            RunState::Staged
        },
    }
}

/// The next action each state asks of the caller.
pub open spec fn state_action(machine: RunMachine) -> Action {
    match machine.state {
        RunState::Pending => Action::Stage,
        RunState::Staged => Action::Create,
        RunState::Created => Action::Start,
        RunState::Running => Action::Wait(machine.timeout),
        RunState::Killing => Action::Kill,
        RunState::Cleanup(_) => Action::Remove,
        RunState::Reporting(outcome) => Action::Report(outcome),
        RunState::Finished(outcome) => Action::Done(outcome),
    }
}

/// Whether this event is a possible answer to the action this state asks
/// for. A driver that performs each requested action and reports what it saw
/// only ever delivers answering events; `TimeoutFired` in particular only
/// answers a bounded wait.
pub open spec fn answers(machine: RunMachine, event: RunEvent) -> bool {
    match machine.state {
        RunState::Pending => event is StagedOk || event is StagingFailed,
        RunState::Staged => event is CreateOk || event is CreateFailed,
        RunState::Created => event is StartOk || event is StartFailed,
        RunState::Running => event is Exited || (event is TimeoutFired
            && machine.timeout is Some),
        RunState::Killing => event is KillAttempted,
        RunState::Cleanup(_) => event is RemoveAttempted,
        RunState::Reporting(_) => event is Reported,
        RunState::Finished(_) => false,
    }
}

/// The state after one observed result. An event that does not answer the
/// state's action leaves the state unchanged.
pub open spec fn state_step(state: RunState, event: RunEvent) -> RunState {
    match (state, event) {
        (RunState::Pending, RunEvent::StagedOk) => RunState::Staged,
        (RunState::Pending, RunEvent::StagingFailed) => RunState::Reporting(Outcome::Failed),
        (RunState::Staged, RunEvent::CreateOk) => RunState::Created,
        (RunState::Staged, RunEvent::CreateFailed) => RunState::Reporting(Outcome::Failed),
        (RunState::Created, RunEvent::StartOk) => RunState::Running,
        (RunState::Created, RunEvent::StartFailed) => RunState::Cleanup(Outcome::Failed),
        (RunState::Running, RunEvent::Exited(code)) => RunState::Cleanup(Outcome::Completed(code)),
        (RunState::Running, RunEvent::TimeoutFired) => RunState::Killing,
        (RunState::Killing, RunEvent::KillAttempted) => RunState::Cleanup(Outcome::TimedOut),
        (RunState::Cleanup(outcome), RunEvent::RemoveAttempted) => RunState::Reporting(outcome),
        (RunState::Reporting(outcome), RunEvent::Reported) => RunState::Finished(outcome),
        (s, _) => s,
    }
}

/// The machine after one observed result: the template's data never changes.
pub open spec fn machine_step(machine: RunMachine, event: RunEvent) -> RunMachine {
    RunMachine { state: state_step(machine.state, event), ..machine }
}

impl RunMachine {
    /// Starts a run for one matched container template.
    pub fn new(template: &ContainerConfig) -> (machine: RunMachine)
        ensures
            machine == machine_init(*template),
    {
        let wants_payload = match &template.event_path {
            Some(_) => true,
            None => false,
        };
        RunMachine {
            timeout: template.timeout,
            wants_payload,
            state: if wants_payload {
                RunState::Pending
            } else {
                RunState::Staged
            },
        }
    }

    /// The one step the caller must perform next.
    pub fn action(&self) -> (action: Action)
        ensures
            action == state_action(*self),
    {
        match self.state {
            RunState::Pending => Action::Stage,
            RunState::Staged => Action::Create,
            RunState::Created => Action::Start,
            RunState::Running => Action::Wait(self.timeout),
            RunState::Killing => Action::Kill,
            RunState::Cleanup(_) => Action::Remove,
            RunState::Reporting(outcome) => Action::Report(outcome),
            RunState::Finished(outcome) => Action::Done(outcome),
        }
    }

    /// Consumes one observed result and moves the run forward.
    pub fn step(&mut self, event: RunEvent)
        ensures
            *final(self) == machine_step(*old(self), event),
    {
        let next = match (self.state, event) {
            (RunState::Pending, RunEvent::StagedOk) => RunState::Staged,
            (RunState::Pending, RunEvent::StagingFailed) => RunState::Reporting(Outcome::Failed),
            (RunState::Staged, RunEvent::CreateOk) => RunState::Created,
            (RunState::Staged, RunEvent::CreateFailed) => RunState::Reporting(Outcome::Failed),
            (RunState::Created, RunEvent::StartOk) => RunState::Running,
            (RunState::Created, RunEvent::StartFailed) => RunState::Cleanup(Outcome::Failed),
            (RunState::Running, RunEvent::Exited(code)) => RunState::Cleanup(
                Outcome::Completed(code),
            ),
            (RunState::Running, RunEvent::TimeoutFired) => RunState::Killing,
            (RunState::Killing, RunEvent::KillAttempted) => RunState::Cleanup(Outcome::TimedOut),
            (RunState::Cleanup(outcome), RunEvent::RemoveAttempted) => RunState::Reporting(outcome),
            (RunState::Reporting(outcome), RunEvent::Reported) => RunState::Finished(outcome),
            (s, _) => s,
        };
        self.state = next;
    }

    /// Whether the run is over.
    pub fn is_finished(&self) -> (done: bool)
        ensures
            done == (self.state is Finished),
    {
        match self.state {
            RunState::Finished(_) => true,
            _ => false,
        }
    }
}

/// The machine after a whole sequence of observed results, oldest first.
pub open spec fn run_trace(machine: RunMachine, events: Seq<RunEvent>) -> RunMachine
    decreases events.len(),
{
    if events.len() == 0 {
        machine
    } else {
        run_trace(machine_step(machine, events[0]), events.skip(1))
    }
}

/// Whether every event in the sequence answers the action the machine asks
/// for when the event arrives. A driver that performs each requested action
/// and reports back what it saw produces exactly such sequences.
pub open spec fn valid_trace(machine: RunMachine, events: Seq<RunEvent>) -> bool
    decreases events.len(),
{
    if events.len() == 0 {
        true
    } else {
        answers(machine, events[0]) && valid_trace(machine_step(machine, events[0]), events.skip(1))
    }
}

/// How far a run has come. Every answered step strictly increases it, so no
/// state is ever visited twice.
pub open spec fn progress(state: RunState) -> nat {
    match state {
        RunState::Pending => 0,
        RunState::Staged => 1,
        RunState::Created => 2,
        RunState::Running => 3,
        RunState::Killing => 4,
        RunState::Cleanup(_) => 5,
        RunState::Reporting(_) => 6,
        RunState::Finished(_) => 7,
    }
}

/// How many of the states the machine passes through while consuming the
/// events stand at this progress level. The final state is not counted: only
/// states an event was consumed in.
pub open spec fn visits(machine: RunMachine, events: Seq<RunEvent>, level: nat) -> nat
    decreases events.len(),
{
    if events.len() == 0 {
        0
    } else {
        (if progress(machine.state) == level {
            1nat
        } else {
            0nat
        }) + visits(machine_step(machine, events[0]), events.skip(1), level)
    }
}

/// How often the run issued a kill: in a valid trace, each step taken in the
/// `Killing` state issues exactly one kill.
pub open spec fn kills_issued(machine: RunMachine, events: Seq<RunEvent>) -> nat {
    visits(machine, events, progress(RunState::Killing))
}

/// How often the run attempted to remove its container: in a valid trace,
/// each step taken in a `Cleanup` state attempts exactly one removal.
pub open spec fn removals_attempted(machine: RunMachine, events: Seq<RunEvent>) -> nat {
    visits(machine, events, progress(RunState::Cleanup(Outcome::Failed)))
}

/// How often the run asked for its staging file to be written: in a valid
/// trace, each step taken in the `Pending` state is one staging request.
pub open spec fn stagings_requested(machine: RunMachine, events: Seq<RunEvent>) -> nat {
    visits(machine, events, progress(RunState::Pending))
}

/// The outcome a state carries, once the run has one.
pub open spec fn outcome_of(state: RunState) -> Option<Outcome> {
    match state {
        RunState::Cleanup(outcome) => Some(outcome),
        RunState::Reporting(outcome) => Some(outcome),
        RunState::Finished(outcome) => Some(outcome),
        _ => None,
    }
}

/// Every answered step strictly increases progress.
proof fn lemma_step_progress(machine: RunMachine, event: RunEvent)
    requires
        answers(machine, event),
    ensures
        progress(machine_step(machine, event).state) > progress(machine.state),
{
}

/// Once a state carries an outcome, every answered step keeps it.
proof fn lemma_step_outcome(machine: RunMachine, event: RunEvent)
    requires
        answers(machine, event),
        outcome_of(machine.state) is Some,
    ensures
        outcome_of(machine_step(machine, event).state) == outcome_of(machine.state),
{
}

/// Along a valid trace, progress never decreases.
proof fn lemma_trace_progress(machine: RunMachine, events: Seq<RunEvent>)
    requires
        valid_trace(machine, events),
    ensures
        progress(run_trace(machine, events).state) >= progress(machine.state),
    decreases events.len(),
{
    if events.len() > 0 {
        let next = machine_step(machine, events[0]);
        lemma_step_progress(machine, events[0]);
        lemma_trace_progress(next, events.skip(1));
    }
}

/// Once a run has its outcome, the whole rest of a valid trace keeps it.
pub proof fn lemma_outcome_stable(machine: RunMachine, events: Seq<RunEvent>)
    requires
        valid_trace(machine, events),
        outcome_of(machine.state) is Some,
    ensures
        outcome_of(run_trace(machine, events).state) == outcome_of(machine.state),
    decreases events.len(),
{
    if events.len() > 0 {
        let next = machine_step(machine, events[0]);
        lemma_step_outcome(machine, events[0]);
        lemma_outcome_stable(next, events.skip(1));
    }
}

/// A valid trace that ends at or below a progress level never consumed an
/// event at that level: doing so would have pushed it strictly above.
proof fn lemma_visits_zero_by_end(machine: RunMachine, events: Seq<RunEvent>, level: nat)
    requires
        valid_trace(machine, events),
        progress(run_trace(machine, events).state) <= level,
    ensures
        visits(machine, events, level) == 0,
    decreases events.len(),
{
    if events.len() > 0 {
        let next = machine_step(machine, events[0]);
        lemma_step_progress(machine, events[0]);
        lemma_trace_progress(next, events.skip(1));
        lemma_visits_zero_by_end(next, events.skip(1), level);
    }
}

/// A valid trace that starts strictly above a progress level never comes
/// back down to it.
proof fn lemma_visits_zero_from_above(machine: RunMachine, events: Seq<RunEvent>, level: nat)
    requires
        valid_trace(machine, events),
        progress(machine.state) > level,
    ensures
        visits(machine, events, level) == 0,
    decreases events.len(),
{
    if events.len() > 0 {
        let next = machine_step(machine, events[0]);
        lemma_step_progress(machine, events[0]);
        lemma_visits_zero_from_above(next, events.skip(1), level);
    }
}

/// Running a trace in two parts is running it whole.
proof fn lemma_run_trace_concat(machine: RunMachine, a: Seq<RunEvent>, b: Seq<RunEvent>)
    ensures
        run_trace(machine, a + b) == run_trace(run_trace(machine, a), b),
    decreases a.len(),
{
    if a.len() == 0 {
        assert(a + b =~= b);
    } else {
        assert((a + b)[0] == a[0]);
        assert((a + b).skip(1) =~= a.skip(1) + b);
        lemma_run_trace_concat(machine_step(machine, a[0]), a.skip(1), b);
    }
}

/// A concatenated trace is valid exactly when its first part is and its
/// second part is from where the first part ends.
proof fn lemma_valid_trace_concat(machine: RunMachine, a: Seq<RunEvent>, b: Seq<RunEvent>)
    ensures
        valid_trace(machine, a + b) == (valid_trace(machine, a) && valid_trace(
            run_trace(machine, a),
            b,
        )),
    decreases a.len(),
{
    if a.len() == 0 {
        assert(a + b =~= b);
    } else {
        assert((a + b)[0] == a[0]);
        assert((a + b).skip(1) =~= a.skip(1) + b);
        lemma_valid_trace_concat(machine_step(machine, a[0]), a.skip(1), b);
    }
}

/// Visits add up over the two parts of a trace.
proof fn lemma_visits_concat(machine: RunMachine, a: Seq<RunEvent>, b: Seq<RunEvent>, level: nat)
    ensures
        visits(machine, a + b, level) == visits(machine, a, level) + visits(
            run_trace(machine, a),
            b,
            level,
        ),
    decreases a.len(),
{
    if a.len() == 0 {
        assert(a + b =~= b);
    } else {
        assert((a + b)[0] == a[0]);
        assert((a + b).skip(1) =~= a.skip(1) + b);
        lemma_visits_concat(machine_step(machine, a[0]), a.skip(1), b, level);
    }
}

/// A one-event trace is one step.
proof fn lemma_singleton_trace(machine: RunMachine, event: RunEvent)
    ensures
        run_trace(machine, seq![event]) == machine_step(machine, event),
        valid_trace(machine, seq![event]) == answers(machine, event),
        forall|level: nat|
            visits(machine, seq![event], level) == (if progress(machine.state) == level {
                1nat
            } else {
                0nat
            }),
{
    let next = machine_step(machine, event);
    assert(seq![event].skip(1) =~= Seq::<RunEvent>::empty());
    assert(run_trace(next, seq![event].skip(1)) == next);
    assert(valid_trace(next, seq![event].skip(1)));
    assert forall|level: nat|
        visits(machine, seq![event], level) == (if progress(machine.state) == level {
            1nat
        } else {
            0nat
        }) by {
        assert(visits(next, seq![event].skip(1), level) == 0);
    }
}

/// A run whose container exits on its own, before any timeout fires, ends
/// `Completed` with the container's exit code, never issues a kill, and
/// still removes its container exactly once.
///
/// `before` is everything observed until the run was `Running`; `after` is
/// everything observed once the exit was seen, through the end of the run.
pub proof fn lemma_exit_before_timeout(
    template: ContainerConfig,
    before: Seq<RunEvent>,
    code: i64,
    after: Seq<RunEvent>,
)
    requires
        valid_trace(machine_init(template), before + seq![RunEvent::Exited(code)] + after),
        run_trace(machine_init(template), before).state is Running,
        run_trace(
            machine_init(template),
            before + seq![RunEvent::Exited(code)] + after,
        ).state is Finished,
    ensures
        run_trace(machine_init(template), before + seq![RunEvent::Exited(code)] + after).state
            == RunState::Finished(Outcome::Completed(code)),
        kills_issued(machine_init(template), before + seq![RunEvent::Exited(code)] + after) == 0,
        removals_attempted(machine_init(template), before + seq![RunEvent::Exited(code)] + after)
            == 1,
{
    let m0 = machine_init(template);
    let exit = seq![RunEvent::Exited(code)];
    let events = before + exit + after;
    let running = run_trace(m0, before);
    lemma_valid_trace_concat(m0, before + exit, after);
    lemma_valid_trace_concat(m0, before, exit);
    lemma_run_trace_concat(m0, before, exit);
    lemma_run_trace_concat(m0, before + exit, after);
    lemma_singleton_trace(running, RunEvent::Exited(code));
    let cleaning = machine_step(running, RunEvent::Exited(code));
    assert(cleaning.state == RunState::Cleanup(Outcome::Completed(code)));
    lemma_outcome_stable(cleaning, after);
    assert(outcome_of(run_trace(m0, events).state) == Some(Outcome::Completed(code)));

    let kill_level = progress(RunState::Killing);
    lemma_visits_concat(m0, before + exit, after, kill_level);
    lemma_visits_concat(m0, before, exit, kill_level);
    lemma_visits_zero_by_end(m0, before, kill_level);
    lemma_visits_zero_from_above(cleaning, after, kill_level);

    let remove_level = progress(RunState::Cleanup(Outcome::Completed(code)));
    lemma_visits_concat(m0, before + exit, after, remove_level);
    lemma_visits_concat(m0, before, exit, remove_level);
    lemma_visits_zero_by_end(m0, before, remove_level);
    assert(after.len() > 0) by {
        if after.len() == 0 {
            assert(run_trace(m0, events) == cleaning);
        }
    }
    assert(answers(cleaning, after[0]));
    let reporting = machine_step(cleaning, after[0]);
    lemma_visits_zero_from_above(reporting, after.skip(1), remove_level);
    assert(visits(cleaning, after, remove_level) == 1nat + visits(
        reporting,
        after.skip(1),
        remove_level,
    ));
}

/// A run whose container has not exited when the timeout fires ends
/// `TimedOut`, issues exactly one kill, and still removes its container
/// exactly once.
///
/// `before` is everything observed until the run was `Running`; `after` is
/// everything observed once the timeout fired, through the end of the run.
pub proof fn lemma_timeout_kills_once(
    template: ContainerConfig,
    before: Seq<RunEvent>,
    after: Seq<RunEvent>,
)
    requires
        valid_trace(machine_init(template), before + seq![RunEvent::TimeoutFired] + after),
        run_trace(machine_init(template), before).state is Running,
        run_trace(
            machine_init(template),
            before + seq![RunEvent::TimeoutFired] + after,
        ).state is Finished,
    ensures
        run_trace(machine_init(template), before + seq![RunEvent::TimeoutFired] + after).state
            == RunState::Finished(Outcome::TimedOut),
        kills_issued(machine_init(template), before + seq![RunEvent::TimeoutFired] + after) == 1,
        removals_attempted(machine_init(template), before + seq![RunEvent::TimeoutFired] + after)
            == 1,
{
    let m0 = machine_init(template);
    let fired = seq![RunEvent::TimeoutFired];
    let events = before + fired + after;
    let running = run_trace(m0, before);
    lemma_valid_trace_concat(m0, before + fired, after);
    lemma_valid_trace_concat(m0, before, fired);
    lemma_run_trace_concat(m0, before, fired);
    lemma_run_trace_concat(m0, before + fired, after);
    lemma_singleton_trace(running, RunEvent::TimeoutFired);
    let killing = machine_step(running, RunEvent::TimeoutFired);
    assert(killing.state == RunState::Killing);

    assert(after.len() > 0) by {
        if after.len() == 0 {
            assert(run_trace(m0, events) == killing);
        }
    }
    assert(answers(killing, after[0]));
    assert(after[0] == RunEvent::KillAttempted);
    let cleaning = machine_step(killing, after[0]);
    assert(cleaning.state == RunState::Cleanup(Outcome::TimedOut));
    assert(valid_trace(cleaning, after.skip(1)));
    assert(run_trace(killing, after) == run_trace(cleaning, after.skip(1)));
    lemma_outcome_stable(cleaning, after.skip(1));
    assert(outcome_of(run_trace(m0, events).state) == Some(Outcome::TimedOut));

    let kill_level = progress(RunState::Killing);
    lemma_visits_concat(m0, before + fired, after, kill_level);
    lemma_visits_concat(m0, before, fired, kill_level);
    lemma_visits_zero_by_end(m0, before, kill_level);
    lemma_visits_zero_from_above(cleaning, after.skip(1), kill_level);
    assert(visits(killing, after, kill_level) == 1nat + visits(
        cleaning,
        after.skip(1),
        kill_level,
    ));

    let remove_level = progress(RunState::Cleanup(Outcome::TimedOut));
    lemma_visits_concat(m0, before + fired, after, remove_level);
    lemma_visits_concat(m0, before, fired, remove_level);
    lemma_visits_zero_by_end(m0, before, remove_level);
    assert(after.skip(1).len() > 0) by {
        if after.skip(1).len() == 0 {
            assert(run_trace(m0, events) == cleaning);
        }
    }
    assert(answers(cleaning, after.skip(1)[0]));
    let reporting = machine_step(cleaning, after.skip(1)[0]);
    lemma_visits_zero_from_above(reporting, after.skip(1).skip(1), remove_level);
    assert(visits(cleaning, after.skip(1), remove_level) == 1nat + visits(
        reporting,
        after.skip(1).skip(1),
        remove_level,
    ));
    assert(visits(killing, after, remove_level) == visits(cleaning, after.skip(1), remove_level));
}

/// A template that names no event path starts its run with nothing to stage,
/// and no valid trace of that run ever asks for staging.
pub proof fn lemma_no_event_path_never_stages(template: ContainerConfig, events: Seq<RunEvent>)
    requires
        template.event_path is None,
        valid_trace(machine_init(template), events),
    ensures
        machine_init(template).state == RunState::Staged,
        stagings_requested(machine_init(template), events) == 0,
{
    lemma_visits_zero_from_above(machine_init(template), events, progress(RunState::Pending));
}

} // verus!
