use repowatch::config::{
    CommitInterest, ContainerConfig, Interest, ReleaseInterest, RepositoryConfig,
};
use repowatch::event::{Event, EventKind};
use repowatch::matcher::match_event;
use repowatch::supervisor::{Action, Outcome, RunEvent, RunMachine, RunState};

fn template(event_path: Option<&str>, timeout: Option<u32>) -> ContainerConfig {
    ContainerConfig {
        image: String::from("acme/build"),
        event_path: event_path.map(String::from),
        timeout,
    }
}

/// Drives one machine to its end, answering every action from a fixed
/// script of wait outcomes, and returns the actions it asked for.
fn drive(machine: &mut RunMachine, wait_answer: RunEvent) -> Vec<Action> {
    let mut actions = Vec::new();
    let mut guard = 0;
    while !machine.is_finished() {
        let action = machine.action();
        actions.push(action);
        let answer = match action {
            Action::Stage => RunEvent::StagedOk,
            Action::Create => RunEvent::CreateOk,
            Action::Start => RunEvent::StartOk,
            Action::Wait(_) => wait_answer,
            Action::Kill => RunEvent::KillAttempted,
            Action::Remove => RunEvent::RemoveAttempted,
            Action::Report(_) => RunEvent::Reported,
            Action::Done(_) => unreachable!("a finished run asks for nothing"),
        };
        machine.step(answer);
        guard += 1;
        assert!(guard < 20, "the run must finish in a bounded number of steps");
    }
    actions
}

#[test]
fn prompt_exit_completes_without_kill() {
    let mut machine = RunMachine::new(&template(None, Some(30)));
    let actions = drive(&mut machine, RunEvent::Exited(0));
    assert_eq!(
        actions,
        vec![
            Action::Create,
            Action::Start,
            Action::Wait(Some(30)),
            Action::Remove,
            Action::Report(Outcome::Completed(0)),
        ]
    );
    assert!(!actions.contains(&Action::Kill));
    assert_eq!(machine.state, RunState::Finished(Outcome::Completed(0)));
}

#[test]
fn timeout_kills_exactly_once_and_still_removes() {
    let mut machine = RunMachine::new(&template(None, Some(30)));
    let actions = drive(&mut machine, RunEvent::TimeoutFired);
    assert_eq!(
        actions,
        vec![
            Action::Create,
            Action::Start,
            Action::Wait(Some(30)),
            Action::Kill,
            Action::Remove,
            Action::Report(Outcome::TimedOut),
        ]
    );
    assert_eq!(actions.iter().filter(|a| **a == Action::Kill).count(), 1);
    assert_eq!(machine.state, RunState::Finished(Outcome::TimedOut));
}

#[test]
fn unbounded_run_waits_without_timeout() {
    let mut machine = RunMachine::new(&template(None, None));
    machine.step(RunEvent::CreateOk);
    machine.step(RunEvent::StartOk);
    assert_eq!(machine.action(), Action::Wait(None));
    machine.step(RunEvent::Exited(7));
    assert_eq!(machine.state, RunState::Cleanup(Outcome::Completed(7)));
}

#[test]
fn no_event_path_never_stages() {
    let machine = RunMachine::new(&template(None, Some(30)));
    assert_eq!(machine.state, RunState::Staged);
    assert_eq!(machine.action(), Action::Create);
    let mut machine = machine;
    let actions = drive(&mut machine, RunEvent::Exited(0));
    assert!(!actions.contains(&Action::Stage));
}

#[test]
fn event_path_stages_before_creating() {
    let mut machine = RunMachine::new(&template(Some("/event.json"), Some(30)));
    assert_eq!(machine.state, RunState::Pending);
    assert_eq!(machine.action(), Action::Stage);
    machine.step(RunEvent::StagedOk);
    assert_eq!(machine.action(), Action::Create);
}

#[test]
fn staging_failure_fails_run_without_container_interaction() {
    let mut machine = RunMachine::new(&template(Some("/event.json"), None));
    machine.step(RunEvent::StagingFailed);
    assert_eq!(machine.state, RunState::Reporting(Outcome::Failed));
    machine.step(RunEvent::Reported);
    assert_eq!(machine.state, RunState::Finished(Outcome::Failed));
}

#[test]
fn create_failure_fails_run_without_removal() {
    let mut machine = RunMachine::new(&template(None, None));
    machine.step(RunEvent::CreateFailed);
    assert_eq!(machine.state, RunState::Reporting(Outcome::Failed));
    assert_eq!(machine.action(), Action::Report(Outcome::Failed));
}

#[test]
fn start_failure_still_removes_created_container() {
    let mut machine = RunMachine::new(&template(None, None));
    machine.step(RunEvent::CreateOk);
    machine.step(RunEvent::StartFailed);
    assert_eq!(machine.state, RunState::Cleanup(Outcome::Failed));
    assert_eq!(machine.action(), Action::Remove);
    machine.step(RunEvent::RemoveAttempted);
    machine.step(RunEvent::Reported);
    assert_eq!(machine.state, RunState::Finished(Outcome::Failed));
}

#[test]
fn release_scenario_two_independent_runs() {
    let config = vec![RepositoryConfig {
        owner: String::from("acme"),
        name: String::from("widgets"),
        interests: vec![Interest::Release(ReleaseInterest {
            containers: vec![template(None, Some(30)), template(None, Some(30))],
        })],
    }];
    let event = Event {
        owner: String::from("acme"),
        name: String::from("widgets"),
        kind: EventKind::Release,
        payload: vec![123, 125],
    };
    let matches = match_event(&event, &config);
    assert_eq!(matches.len(), 2);

    let mut machines: Vec<RunMachine> = matches
        .iter()
        .map(|m| {
            let interest = &config[m.repo].interests[m.interest];
            RunMachine::new(&interest.containers()[m.container])
        })
        .collect();
    let slow = drive(&mut machines[0], RunEvent::TimeoutFired);
    let fast = drive(&mut machines[1], RunEvent::Exited(0));
    assert_eq!(machines[0].state, RunState::Finished(Outcome::TimedOut));
    assert_eq!(machines[1].state, RunState::Finished(Outcome::Completed(0)));
    assert_eq!(slow.iter().filter(|a| **a == Action::Kill).count(), 1);
    assert!(!fast.contains(&Action::Kill));
}

#[test]
fn commit_interest_ignores_release_even_when_driving() {
    let config = vec![RepositoryConfig {
        owner: String::from("acme"),
        name: String::from("widgets"),
        interests: vec![Interest::Commit(CommitInterest {
            branch: Some(String::from("main")),
            containers: vec![template(None, None)],
        })],
    }];
    let event = Event {
        owner: String::from("acme"),
        name: String::from("widgets"),
        kind: EventKind::Release,
        payload: Vec::new(),
    };
    assert!(match_event(&event, &config).is_empty());
}
