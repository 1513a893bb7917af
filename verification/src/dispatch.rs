//! Sending a control signal to every process of an application and
//! aggregating the per-process outcomes into one tiered report.
use vstd::prelude::*;

use crate::apps::App;

verus! {

/// The control signals an application can be sent.
#[derive(Clone, Copy, Debug, PartialEq, Eq, Structural)]
pub enum AppSignal {
    /// Ask the processes to end (may be refused or delayed).
    Term,
    /// Halt the processes until continued.
    Stop,
    /// End the processes immediately.
    Kill,
    /// Continue halted processes.
    Cont,
}

/// Relies on nix's `kill`: delivers the signal to the process with the
/// given id, `Err` carrying the OS errno — among else when the process no
/// longer exists or may not be signalled. Nothing is assumed of which
/// processes accept a signal.
#[verifier::external_body]
fn send_signal_raw(pid: i32, sig: AppSignal) -> (r: Result<(), i32>) {
    let s = match sig {
        AppSignal::Term => nix::sys::signal::Signal::SIGTERM,
        AppSignal::Stop => nix::sys::signal::Signal::SIGSTOP,
        AppSignal::Kill => nix::sys::signal::Signal::SIGKILL,
        AppSignal::Cont => nix::sys::signal::Signal::SIGCONT,
    };
    match nix::sys::signal::kill(nix::unistd::Pid::from_raw(pid), s) {
        Ok(()) => Ok(()),
        Err(e) => Err(e as i32),
    }
}

impl App {
    /// Sends the signal independently to every owned process, reporting
    /// one success flag per process, in the order of the owned set. The
    /// OS decides each delivery; a process that exited since the last
    /// refresh simply reports a failure here.
    pub fn signal(&self, sig: AppSignal) -> (r: Vec<bool>)
        ensures
            r@.len() == self.processes@.len(),
    {
        let mut r: Vec<bool> = Vec::new();
        let mut i: usize = 0;
        while i < self.processes.len()
            invariant
                i <= self.processes@.len(),
                r@.len() == i,
            decreases self.processes@.len() - i,
        {
            let ok = match send_signal_raw(self.processes[i], sig) {
                Ok(()) => true,
                Err(_) => false,
            };
            r.push(ok);
            i += 1;
        }
        r
    }
}

/// How a dispatch is reported to the caller. A single failure is common
/// (a process exit race) and reported generically; two or more suggest a
/// systemic problem and report the count.
#[derive(Clone, Copy, Debug, PartialEq, Eq, Structural)]
pub enum SignalOutcome {
    AllSucceeded,
    OneFailure,
    ManyFailures(usize),
}

/// How many outcomes report failure.
pub open spec fn count_failures(outcomes: Seq<bool>) -> int
    decreases outcomes.len(),
{
    if outcomes.len() == 0 {
        0
    } else {
        count_failures(outcomes.drop_last()) + if outcomes.last() {
            0int
        } else {
            1int
        }
    }
}

pub proof fn lemma_count_failures_bounds(outcomes: Seq<bool>)
    ensures
        0 <= count_failures(outcomes) <= outcomes.len(),
    decreases outcomes.len(),
{
    if outcomes.len() > 0 {
        lemma_count_failures_bounds(outcomes.drop_last());
    }
}

/// Folds per-process outcomes into the tiered report: full success, a
/// generic single failure, or the count of failed processes.
pub fn aggregate_outcomes(outcomes: &Vec<bool>) -> (r: SignalOutcome)
    ensures
        match r {
            SignalOutcome::AllSucceeded => count_failures(outcomes@) == 0,
            SignalOutcome::OneFailure => count_failures(outcomes@) == 1,
            SignalOutcome::ManyFailures(n) => count_failures(outcomes@) == n && n >= 2,
        },
{
    let mut failed: usize = 0;
    let mut i: usize = 0;
    assert(outcomes@.subrange(0, 0) =~= Seq::<bool>::empty());
    while i < outcomes.len()
        invariant
            i <= outcomes@.len(),
            failed == count_failures(outcomes@.subrange(0, i as int)),
            failed <= i,
        decreases outcomes@.len() - i,
    {
        let ghost pre = outcomes@.subrange(0, i as int);
        let ghost pre1 = outcomes@.subrange(0, i + 1 as int);
        assert(pre1.drop_last() =~= pre);
        assert(pre1.last() == outcomes@[i as int]);
        if !outcomes[i] {
            failed = failed + 1;
        }
        i += 1;
    }
    assert(outcomes@.subrange(0, outcomes@.len() as int) =~= outcomes@);
    if failed == 0 {
        SignalOutcome::AllSucceeded
    } else if failed == 1 {
        SignalOutcome::OneFailure
    } else {
        SignalOutcome::ManyFailures(failed)
    }
}

/// The dispatch entry point: signals every owned process and reports the
/// tiered outcome. Which deliveries succeed is the OS's decision; whatever
/// comes back, a reported failure count is exact and never exceeds the
/// number of owned processes.
pub fn dispatch_signal(app: &App, sig: AppSignal) -> (r: SignalOutcome)
    ensures
        match r {
            SignalOutcome::AllSucceeded => true,
            SignalOutcome::OneFailure => app.processes@.len() >= 1,
            SignalOutcome::ManyFailures(n) => 2 <= n <= app.processes@.len(),
        },
{
    let outcomes = app.signal(sig);
    proof {
        lemma_count_failures_bounds(outcomes@);
    }
    aggregate_outcomes(&outcomes)
}

/// The verb naming the action of each signal.
pub fn get_action_name(signal: AppSignal) -> (r: &'static str)
    ensures
        match signal {
            AppSignal::Term => r@ == "End"@,
            AppSignal::Stop => r@ == "Halt"@,
            AppSignal::Kill => r@ == "Kill"@,
            AppSignal::Cont => r@ == "Continue"@,
        },
{
    match signal {
        AppSignal::Term => "End",
        AppSignal::Stop => "Halt",
        AppSignal::Kill => "Kill",
        AppSignal::Cont => "Continue",
    }
}

/// The warning shown before the action is confirmed. Continuing is
/// low-risk and carries none.
pub fn get_action_warning(signal: AppSignal) -> (r: &'static str)
    ensures
        match signal {
            AppSignal::Term => r@ == "Unsaved work might be lost."@,
            AppSignal::Stop => r@
                == "Halting an application can come with serious risks such as losing data and security implications. Use with caution."@,
            AppSignal::Kill => r@
                == "Killing an application can come with serious risks such as losing data and security implications. Use with caution."@,
            AppSignal::Cont => r@ == ""@,
        },
{
    match signal {
        AppSignal::Term => "Unsaved work might be lost.",
        AppSignal::Stop => "Halting an application can come with serious risks such as losing data and security implications. Use with caution.",
        AppSignal::Kill => "Killing an application can come with serious risks such as losing data and security implications. Use with caution.",
        AppSignal::Cont => "",
    }
}

/// The label of the confirming choice for each signal.
pub fn get_action_description(signal: AppSignal) -> (r: &'static str)
    ensures
        match signal {
            AppSignal::Term => r@ == "End application"@,
            AppSignal::Stop => r@ == "Halt application"@,
            AppSignal::Kill => r@ == "Kill application"@,
            AppSignal::Cont => r@ == "Continue application"@,
        },
{
    match signal {
        AppSignal::Term => "End application",
        AppSignal::Stop => "Halt application",
        AppSignal::Kill => "Kill application",
        AppSignal::Cont => "Continue application",
    }
}

/// The notice reported on full success.
pub fn get_action_success(signal: AppSignal) -> (r: &'static str)
    ensures
        match signal {
            AppSignal::Term => r@ == "Successfully ended"@,
            AppSignal::Stop => r@ == "Successfully halted"@,
            AppSignal::Kill => r@ == "Successfully killed"@,
            AppSignal::Cont => r@ == "Successfully continued"@,
        },
{
    match signal {
        AppSignal::Term => "Successfully ended",
        AppSignal::Stop => "Successfully halted",
        AppSignal::Kill => "Successfully killed",
        AppSignal::Cont => "Successfully continued",
    }
}

/// The notice reported on a single failed process.
pub fn get_action_failure(signal: AppSignal) -> (r: &'static str)
    ensures
        match signal {
            AppSignal::Term => r@ == "There was a problem ending a process"@,
            AppSignal::Stop => r@ == "There was a problem halting a process"@,
            AppSignal::Kill => r@ == "There was a problem killing a process"@,
            AppSignal::Cont => r@ == "There was a problem continuing a process"@,
        },
{
    match signal {
        AppSignal::Term => "There was a problem ending a process",
        AppSignal::Stop => "There was a problem halting a process",
        AppSignal::Kill => "There was a problem killing a process",
        AppSignal::Cont => "There was a problem continuing a process",
    }
}

/// The notice reported when several processes failed; the caller appends
/// the count.
pub fn get_action_failure_multiple(signal: AppSignal) -> (r: &'static str)
    ensures
        match signal {
            AppSignal::Term => r@ == "There were problems ending"@,
            AppSignal::Stop => r@ == "There were problems halting"@,
            AppSignal::Kill => r@ == "There were problems killing"@,
            AppSignal::Cont => r@ == "There were problems continuing"@,
        },
{
    match signal {
        AppSignal::Term => "There were problems ending",
        AppSignal::Stop => "There were problems halting",
        AppSignal::Kill => "There were problems killing",
        AppSignal::Cont => "There were problems continuing",
    }
}

} // verus!
