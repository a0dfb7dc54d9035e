use wg_mesh::dispatch::{next_cycle_step, Action, CycleNext, CycleStep, Dispatcher, Phase, Trigger};

#[test]
fn startup_cycle_runs_first() {
    let mut d = Dispatcher::new();
    assert!(d.in_cycle);
    assert_eq!(d.on_trigger(Trigger::Notification), Action::Wait);
    assert_eq!(d.on_cycle_done(true), Action::RunCycle);
    assert_eq!(d.on_cycle_done(true), Action::Wait);
    assert_eq!(d.started, 2);
    assert_eq!(d.phase, Phase::Running);
}

#[test]
fn startup_failure_exits() {
    let mut d = Dispatcher::new();
    assert_eq!(d.on_cycle_done(false), Action::Exit(1));
    assert_eq!(d.on_trigger(Trigger::Notification), Action::Wait);
    assert_eq!(d.started, 1);
}

#[test]
fn later_failure_keeps_running() {
    let mut d = Dispatcher::new();
    assert_eq!(d.on_cycle_done(true), Action::Wait);
    assert_eq!(d.on_trigger(Trigger::Reload), Action::RunCycle);
    assert_eq!(d.on_cycle_done(false), Action::Wait);
    assert_eq!(d.on_trigger(Trigger::Notification), Action::RunCycle);
    assert_eq!(d.phase, Phase::Running);
}

#[test]
fn burst_of_notifications_one_cycle_each() {
    let mut d = Dispatcher::new();
    d.on_cycle_done(true);
    let n = 5;
    let mut cycles = 0;
    let mut actions = vec![];
    for _ in 0..n {
        actions.push(d.on_trigger(Trigger::Notification));
    }
    cycles += actions.iter().filter(|a| **a == Action::RunCycle).count();
    while d.in_cycle {
        if d.on_cycle_done(true) == Action::RunCycle {
            cycles += 1;
        }
    }
    assert_eq!(cycles, n);
    assert!(cycles >= 1 && cycles <= n);
    assert_eq!(d.started as usize, 1 + n);
    assert_eq!(d.pending, 0);
}

#[test]
fn shutdown_tears_down() {
    let mut d = Dispatcher::new();
    d.on_cycle_done(true);
    assert_eq!(d.on_trigger(Trigger::Shutdown), Action::Teardown);
    assert_eq!(d.on_trigger(Trigger::Notification), Action::Wait);
    assert_eq!(d.on_teardown_done(true), Action::Exit(0));
    assert_eq!(d.on_teardown_done(false), Action::Exit(1));
}

#[test]
fn cycle_steps_in_order() {
    let mut step = CycleStep::EnsureInterface;
    let mut seen = vec![step];
    while let CycleNext::Step(s) = next_cycle_step(step, true) {
        step = s;
        seen.push(s);
    }
    assert_eq!(
        seen,
        vec![
            CycleStep::EnsureInterface,
            CycleStep::FetchState,
            CycleStep::ApplyWireguard,
            CycleStep::EnsureAddress,
            CycleStep::ApplyDns,
        ]
    );
    assert_eq!(next_cycle_step(CycleStep::ApplyDns, true), CycleNext::Finished);
    assert_eq!(next_cycle_step(CycleStep::FetchState, false), CycleNext::Abandoned);
}
