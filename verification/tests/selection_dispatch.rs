use procmon::apps::{App, ProcessRecord};
use procmon::dispatch::{
    aggregate_outcomes, dispatch_signal, get_action_description, get_action_failure,
    get_action_failure_multiple, get_action_name, get_action_success, get_action_warning,
    AppSignal, SignalOutcome,
};
use procmon::monitor::{relocate_selection, Monitor};

fn rec(pid: i32, name: &str, app_id: Option<&str>, cpu_time: u64, memory: u64) -> ProcessRecord {
    ProcessRecord {
        pid,
        parent_pid: 1,
        name: name.to_string(),
        app_id: app_id.map(|s| s.to_string()),
        cpu_time,
        memory,
    }
}

const STAT_A: &str = "cpu  100 0 50 800 50 0 0 0 0 0\n";
const STAT_B: &str = "cpu  150 0 50 850 50 0 0 0 0 0\n";

#[test]
fn selection_is_preserved_when_the_app_survives() {
    let mut m = Monitor::new(vec![
        rec(10, "editor", Some("ed"), 0, 0),
        rec(12, "player", Some("pl"), 0, 0),
    ]);
    m.refresh_cycle(STAT_A, vec![
        rec(10, "editor", Some("ed"), 0, 0),
        rec(12, "player", Some("pl"), 0, 0),
    ])
    .unwrap();
    m.set_selection(Some(Some("ed".to_string())));
    m.refresh_cycle(STAT_B, vec![
        rec(10, "editor", Some("ed"), 10, 0),
        rec(12, "player", Some("pl"), 10, 0),
    ])
    .unwrap();
    assert_eq!(m.selection, Some(Some("ed".to_string())));
}

#[test]
fn selection_becomes_none_when_the_app_exits() {
    let mut m = Monitor::new(vec![
        rec(10, "editor", Some("ed"), 0, 0),
        rec(12, "player", Some("pl"), 0, 0),
    ]);
    m.set_selection(Some(Some("ed".to_string())));
    m.refresh_cycle(STAT_A, vec![rec(12, "player", Some("pl"), 0, 0)])
        .unwrap();
    assert_eq!(m.selection, None);
}

#[test]
fn empty_selection_stays_empty() {
    let items = Vec::new();
    assert_eq!(relocate_selection(&items, &None), None);
}

#[test]
fn fallback_bucket_selection_is_preserved_too() {
    let mut m = Monitor::new(vec![rec(1, "kworker", None, 0, 0)]);
    m.set_selection(Some(None));
    m.refresh_cycle(STAT_A, vec![rec(1, "kworker", None, 0, 0)])
        .unwrap();
    assert_eq!(m.selection, Some(None));
}

#[test]
fn failed_cycle_leaves_state_untouched() {
    let mut m = Monitor::new(vec![rec(10, "editor", Some("ed"), 0, 7)]);
    m.set_selection(Some(Some("ed".to_string())));
    // The idle field is missing: the sample is rejected as a whole.
    let r = m.refresh_cycle("cpu  100 0 50 50 0 0 0 0 0\n", vec![]);
    assert!(r.is_err());
    assert_eq!(m.selection, Some(Some("ed".to_string())));
    assert!(m.prev_cpu.is_none());
    assert_eq!(m.apps.records.len(), 1);
    assert_eq!(m.apps.summaries[0].memory_usage, 7);
}

#[test]
fn monitor_publishes_the_busy_ratio_of_the_cycle() {
    let mut m = Monitor::new(vec![rec(10, "editor", Some("ed"), 0, 0)]);
    m.refresh_cycle(STAT_A, vec![rec(10, "editor", Some("ed"), 0, 0)])
        .unwrap();
    // Between the two stat samples 100 ticks elapse and the process
    // consumes 50 of them.
    let items = m
        .refresh_cycle(STAT_B, vec![rec(10, "editor", Some("ed"), 50, 0)])
        .unwrap();
    let r = items[0].cpu_time_ratio;
    assert_eq!(r.num, 50);
    assert_eq!(r.den, 100);
}

#[test]
fn no_failures_reports_full_success() {
    let outcomes = vec![true, true, true];
    assert_eq!(aggregate_outcomes(&outcomes), SignalOutcome::AllSucceeded);
}

#[test]
fn one_failure_among_three_reports_the_single_failure_message() {
    let outcomes = vec![true, false, true];
    assert_eq!(aggregate_outcomes(&outcomes), SignalOutcome::OneFailure);
}

#[test]
fn two_failures_among_three_report_the_count() {
    let outcomes = vec![false, true, false];
    assert_eq!(aggregate_outcomes(&outcomes), SignalOutcome::ManyFailures(2));
}

#[test]
fn all_failures_report_the_full_count() {
    let outcomes = vec![false, false, false, false];
    assert_eq!(aggregate_outcomes(&outcomes), SignalOutcome::ManyFailures(4));
}

#[test]
fn empty_dispatch_reports_success() {
    let outcomes = Vec::new();
    assert_eq!(aggregate_outcomes(&outcomes), SignalOutcome::AllSucceeded);
}

#[test]
fn continue_signal_to_own_process_succeeds() {
    let me = nix::unistd::getpid().as_raw();
    let app = App {
        id: Some("self".to_string()),
        display_name: "self".to_string(),
        processes: vec![me, me],
    };
    assert_eq!(dispatch_signal(&app, AppSignal::Cont), SignalOutcome::AllSucceeded);
}

#[test]
fn vanished_process_counts_as_a_single_failure() {
    let me = nix::unistd::getpid().as_raw();
    // A pid far beyond the kernel's default pid range: delivery fails.
    let app = App {
        id: Some("mixed".to_string()),
        display_name: "mixed".to_string(),
        processes: vec![me, 99_999_999, me],
    };
    assert_eq!(dispatch_signal(&app, AppSignal::Cont), SignalOutcome::OneFailure);
}

#[test]
fn two_vanished_processes_report_their_count() {
    let me = nix::unistd::getpid().as_raw();
    let app = App {
        id: Some("mixed".to_string()),
        display_name: "mixed".to_string(),
        processes: vec![99_999_998, me, 99_999_999],
    };
    assert_eq!(
        dispatch_signal(&app, AppSignal::Cont),
        SignalOutcome::ManyFailures(2)
    );
}

#[test]
fn action_messages_name_each_signal() {
    assert_eq!(get_action_name(AppSignal::Term), "End");
    assert_eq!(get_action_name(AppSignal::Stop), "Halt");
    assert_eq!(get_action_name(AppSignal::Kill), "Kill");
    assert_eq!(get_action_name(AppSignal::Cont), "Continue");
    assert_eq!(get_action_description(AppSignal::Term), "End application");
    assert_eq!(get_action_success(AppSignal::Kill), "Successfully killed");
    assert_eq!(get_action_warning(AppSignal::Cont), "");
    assert_eq!(
        get_action_failure(AppSignal::Stop),
        "There was a problem halting a process"
    );
    assert_eq!(
        get_action_failure_multiple(AppSignal::Term),
        "There were problems ending"
    );
}
