//! The decisions of the reconciliation loop: which trigger runs a cycle, when,
//! and how the process ends. The caller waits for events, runs cycles and
//! tears the device down; it asks here what to do next.
use vstd::prelude::*;

verus! {

/// What wakes the loop.
#[derive(Clone, Copy, Debug, PartialEq, Eq, Structural)]
pub enum Trigger {
    /// The database reported a change of the mesh.
    Notification,
    /// An operator asked for a reload.
    Reload,
    /// The process is asked to stop.
    Shutdown,
}

/// What the loop does next.
#[derive(Clone, Copy, Debug, PartialEq, Eq, Structural)]
pub enum Action {
    /// Run one reconciliation cycle.
    RunCycle,
    /// Wait for the next event.
    Wait,
    /// Tear the device down, then exit.
    Teardown,
    /// Exit with this status.
    Exit(i32),
}

/// The life of the process.
#[derive(Clone, Copy, Debug, PartialEq, Eq, Structural)]
pub enum Phase {
    /// The startup cycle has not yet succeeded.
    Starting,
    /// Serving triggers.
    Running,
    /// Shutting down: no cycle starts any more.
    Stopping,
}

/// The state of the loop.
#[derive(Clone, Copy, Debug, PartialEq, Eq, Structural)]
pub struct Dispatcher {
    pub phase: Phase,
    /// Whether a cycle is running.
    pub in_cycle: bool,
    /// Triggers received while a cycle ran, each owed a cycle of its own.
    pub pending: u64,
    /// Notifications and reloads received.
    pub triggers: u64,
    /// Cycles started, the startup one included.
    pub started: u64,
}

impl Dispatcher {
    /// Every trigger received has had its cycle or waits for it; until the
    /// loop stops, none waits while no cycle runs.
    pub open spec fn wf(self) -> bool {
        &&& self.triggers < u64::MAX
        &&& self.pending <= self.triggers
        &&& self.started as int == 1 + self.triggers - self.pending
        &&& (!self.in_cycle && !(self.phase is Stopping) ==> self.pending == 0)
        &&& (self.phase is Starting ==> self.in_cycle)
    }

    /// The state and action after a trigger.
    pub open spec fn after_trigger(self, t: Trigger) -> (Dispatcher, Action) {
        if self.phase is Stopping {
            (self, Action::Wait)
        } else if t is Shutdown {
            (Dispatcher { phase: Phase::Stopping, ..self }, Action::Teardown)
        } else if self.in_cycle {
            (Dispatcher { pending: (self.pending + 1) as u64, triggers: (self.triggers + 1) as u64, ..self }, Action::Wait)
        } else {
            (
                Dispatcher {
                    in_cycle: true,
                    triggers: (self.triggers + 1) as u64,
                    started: (self.started + 1) as u64,
                    ..self
                },
                Action::RunCycle,
            )
        }
    }

    /// The state and action after the running cycle ended. A failed startup
    /// cycle ends the process; a later failed cycle is only reported. A
    /// trigger that waited runs next.
    pub open spec fn after_cycle(self, ok: bool) -> (Dispatcher, Action) {
        if self.phase is Starting && !ok {
            (Dispatcher { phase: Phase::Stopping, in_cycle: false, ..self }, Action::Exit(1))
        } else if self.phase is Stopping {
            (Dispatcher { in_cycle: false, ..self }, Action::Wait)
        } else if self.pending > 0 {
            (
                Dispatcher {
                    phase: Phase::Running,
                    pending: (self.pending - 1) as u64,
                    started: (self.started + 1) as u64,
                    ..self
                },
                Action::RunCycle,
            )
        } else {
            (Dispatcher { phase: Phase::Running, in_cycle: false, ..self }, Action::Wait)
        }
    }

    /// The loop at process start: the startup cycle runs before anything else.
    pub fn new() -> (r: Dispatcher)
        ensures
            r.wf(),
            r == (Dispatcher { phase: Phase::Starting, in_cycle: true, pending: 0, triggers: 0, started: 1 }),
    {
        Dispatcher { phase: Phase::Starting, in_cycle: true, pending: 0, triggers: 0, started: 1 }
    }

    /// Takes a trigger. A cycle starts only where none runs: a trigger that
    /// comes during a cycle waits for it to end.
    pub fn on_trigger(&mut self, t: Trigger) -> (r: Action)
        requires
            old(self).wf(),
            old(self).triggers + 1 < u64::MAX,
        ensures
            (*final(self), r) == old(self).after_trigger(t),
            final(self).wf(),
            r is RunCycle ==> !old(self).in_cycle,
    {
        if self.phase == Phase::Stopping {
            return Action::Wait;
        }
        match t {
            Trigger::Shutdown => {
                self.phase = Phase::Stopping;
                Action::Teardown
            },
            _ => {
                self.triggers = self.triggers + 1;
                if self.in_cycle {
                    self.pending = self.pending + 1;
                    Action::Wait
                } else {
                    self.in_cycle = true;
                    self.started = self.started + 1;
                    Action::RunCycle
                }
            },
        }
    }

    /// Takes the end of the running cycle.
    pub fn on_cycle_done(&mut self, ok: bool) -> (r: Action)
        requires
            old(self).wf(),
            old(self).in_cycle,
        ensures
            (*final(self), r) == old(self).after_cycle(ok),
            final(self).wf(),
    {
        if self.phase == Phase::Starting && !ok {
            self.phase = Phase::Stopping;
            self.in_cycle = false;
            return Action::Exit(1);
        }
        if self.phase == Phase::Stopping {
            self.in_cycle = false;
            return Action::Wait;
        }
        self.phase = Phase::Running;
        if self.pending > 0 {
            self.pending = self.pending - 1;
            self.started = self.started + 1;
            Action::RunCycle
        } else {
            self.in_cycle = false;
            Action::Wait
        }
    }

    /// The exit status once the device was torn down, or failed to be.
    pub fn on_teardown_done(&self, ok: bool) -> (r: Action)
        ensures
            r == Action::Exit(if ok { 0i32 } else { 1i32 }),
    {
        if ok {
            Action::Exit(0)
        } else {
            Action::Exit(1)
        }
    }
}

/// `n` notifications delivered one after another.
pub open spec fn deliver(d: Dispatcher, n: nat) -> Dispatcher
    decreases n,
{
    if n == 0 {
        d
    } else {
        deliver(d, (n - 1) as nat).after_trigger(Trigger::Notification).0
    }
}

/// `n` cycles ending one after another, each successfully.
pub open spec fn finish(d: Dispatcher, n: nat) -> Dispatcher
    decreases n,
{
    if n == 0 {
        d
    } else {
        finish(d, (n - 1) as nat).after_cycle(true).0
    }
}

/// Once no cycle runs, every notification and reload received has had exactly
/// one cycle of its own, besides the startup one: of N triggers, none is lost
/// and none is merged with another.
pub proof fn lemma_idle_means_all_served(d: Dispatcher)
    requires
        d.wf(),
        !d.in_cycle,
        !(d.phase is Stopping),
    ensures
        d.started == 1 + d.triggers,
{
}

/// A burst of N notifications (N at least one) that reaches a running loop
/// while it is idle gives N cycles, run one after another: the first starts at
/// once, the others wait, and after the N cycles end the loop is idle again.
/// So the burst runs at least one cycle and at most N.
pub proof fn lemma_burst_runs_one_cycle_each(d: Dispatcher, n: nat)
    requires
        d.wf(),
        d.phase is Running,
        !d.in_cycle,
        n >= 1,
        d.triggers + n < u64::MAX,
    ensures
        deliver(d, n).in_cycle,
        deliver(d, n).pending == n - 1,
        finish(deliver(d, n), n).started == d.started + n,
        !finish(deliver(d, n), n).in_cycle,
        finish(deliver(d, n), n).wf(),
{
    lemma_deliver(d, n);
    lemma_finish(deliver(d, n), n);
}

proof fn lemma_deliver(d: Dispatcher, n: nat)
    requires
        d.wf(),
        d.phase is Running,
        !d.in_cycle,
        n >= 1,
        d.triggers + n < u64::MAX,
    ensures
        deliver(d, n).wf(),
        deliver(d, n).phase is Running,
        deliver(d, n).in_cycle,
        deliver(d, n).pending == n - 1,
        deliver(d, n).triggers == d.triggers + n,
        deliver(d, n).started == d.started + 1,
    decreases n,
{
    if n > 1 {
        lemma_deliver(d, (n - 1) as nat);
    } else {
        assert(deliver(d, 0) == d);
    }
}

proof fn lemma_finish(d: Dispatcher, n: nat)
    requires
        d.wf(),
        d.phase is Running,
        d.in_cycle,
        d.pending == n - 1,
        n >= 1,
    ensures
        finish(d, n).wf(),
        finish(d, n).phase is Running,
        !finish(d, n).in_cycle,
        finish(d, n).started == d.started + n - 1,
        finish(d, n).triggers == d.triggers,
    decreases n,
{
    lemma_finish_partial(d, (n - 1) as nat);
    assert(finish(d, n) == finish(d, (n - 1) as nat).after_cycle(true).0);
}

proof fn lemma_finish_partial(d: Dispatcher, k: nat)
    requires
        d.wf(),
        d.phase is Running,
        d.in_cycle,
        k <= d.pending,
    ensures
        finish(d, k).wf(),
        finish(d, k).phase is Running,
        finish(d, k).in_cycle,
        finish(d, k).pending == d.pending - k,
        finish(d, k).started == d.started + k,
        finish(d, k).triggers == d.triggers,
    decreases k,
{
    if k > 0 {
        lemma_finish_partial(d, (k - 1) as nat);
    } else {
        assert(finish(d, 0) == d);
    }
}

/// The steps of one reconciliation cycle, in the order they run.
#[derive(Clone, Copy, Debug, PartialEq, Eq, Structural)]
pub enum CycleStep {
    /// Make sure the device exists and is up.
    EnsureInterface,
    /// Read the servers and the local server's clients from the database.
    FetchState,
    /// Render the WireGuard configuration and load it into the device.
    ApplyWireguard,
    /// Converge the addresses of the device.
    EnsureAddress,
    /// Render the hosts file and write it.
    ApplyDns,
}

/// What follows a step of a cycle.
#[derive(Clone, Copy, Debug, PartialEq, Eq, Structural)]
pub enum CycleNext {
    Step(CycleStep),
    /// Every step succeeded.
    Finished,
    /// A step failed: the steps after it do not run.
    Abandoned,
}

/// The first step of every cycle.
pub open spec fn first_step() -> CycleStep {
    CycleStep::EnsureInterface
}

/// What follows `step`: the next step in the fixed order where it succeeded,
/// the end of the cycle where it failed.
pub open spec fn step_after(step: CycleStep, ok: bool) -> CycleNext {
    if !ok {
        CycleNext::Abandoned
    } else {
        match step {
            CycleStep::EnsureInterface => CycleNext::Step(CycleStep::FetchState),
            CycleStep::FetchState => CycleNext::Step(CycleStep::ApplyWireguard),
            CycleStep::ApplyWireguard => CycleNext::Step(CycleStep::EnsureAddress),
            CycleStep::EnsureAddress => CycleNext::Step(CycleStep::ApplyDns),
            CycleStep::ApplyDns => CycleNext::Finished,
        }
    }
}

/// Where a cycle goes after a step ended, well or not.
pub fn next_cycle_step(step: CycleStep, ok: bool) -> (r: CycleNext)
    ensures
        r == step_after(step, ok),
{
    if !ok {
        return CycleNext::Abandoned;
    }
    match step {
        CycleStep::EnsureInterface => CycleNext::Step(CycleStep::FetchState),
        CycleStep::FetchState => CycleNext::Step(CycleStep::ApplyWireguard),
        CycleStep::ApplyWireguard => CycleNext::Step(CycleStep::EnsureAddress),
        CycleStep::EnsureAddress => CycleNext::Step(CycleStep::ApplyDns),
        CycleStep::ApplyDns => CycleNext::Finished,
    }
}

} // verus!
