use procmon::apps::{group_processes, Apps, ProcessRecord};

fn rec(pid: i32, name: &str, app_id: Option<&str>, cpu_time: u64, memory: u64) -> ProcessRecord {
    ProcessRecord {
        pid,
        parent_pid: 1,
        name: name.to_string(),
        app_id: app_id.map(|s| s.to_string()),
        cpu_time,
        memory,
    }
}

#[test]
fn every_pid_lands_in_exactly_one_app() {
    let procs = vec![
        rec(10, "editor", Some("org.example.Editor"), 0, 0),
        rec(11, "editor-helper", Some("org.example.Editor"), 0, 0),
        rec(12, "player", Some("org.example.Player"), 0, 0),
        rec(13, "kworker", None, 0, 0),
        rec(14, "kswapd", None, 0, 0),
    ];
    let apps = group_processes(&procs);
    assert_eq!(apps.len(), 3);
    for p in &procs {
        let owners: Vec<_> = apps
            .iter()
            .filter(|a| a.processes.contains(&p.pid))
            .collect();
        assert_eq!(owners.len(), 1, "pid {} must have one owner", p.pid);
        assert_eq!(owners[0].id.as_deref(), p.app_id.as_deref());
    }
}

#[test]
fn fallback_bucket_collects_unattributed_processes() {
    let procs = vec![
        rec(1, "init", None, 0, 0),
        rec(2, "kthreadd", None, 0, 0),
    ];
    let apps = group_processes(&procs);
    assert_eq!(apps.len(), 1);
    assert_eq!(apps[0].id, None);
    assert_eq!(apps[0].processes, vec![1, 2]);
}

#[test]
fn display_name_comes_from_a_member_process() {
    let procs = vec![rec(5, "terminal", Some("org.example.Terminal"), 0, 0)];
    let apps = group_processes(&procs);
    assert_eq!(apps[0].display_name, "terminal");
}

#[test]
fn empty_enumeration_gives_no_apps() {
    let apps = group_processes(&Vec::new());
    assert!(apps.is_empty());
}

#[test]
fn memory_is_summed_per_app() {
    let procs = vec![
        rec(10, "editor", Some("ed"), 0, 1000),
        rec(11, "editor-io", Some("ed"), 0, 234),
        rec(12, "other", None, 0, 50),
    ];
    let apps = Apps::new(procs);
    let items = apps.simple();
    let ed = items.iter().find(|s| s.id.as_deref() == Some("ed")).unwrap();
    assert_eq!(ed.memory_usage, 1234);
    assert_eq!(ed.processes_amount, 2);
    let sys = items.iter().find(|s| s.id.is_none()).unwrap();
    assert_eq!(sys.memory_usage, 50);
    assert_eq!(sys.processes_amount, 1);
}

#[test]
fn first_sample_reports_zero_cpu_ratio() {
    let apps = Apps::new(vec![rec(10, "editor", Some("ed"), 700, 0)]);
    let items = apps.simple();
    assert_eq!(items[0].cpu_time_ratio.num, 0);
}

#[test]
fn refresh_computes_cpu_ratio_from_per_process_deltas() {
    let mut apps = Apps::new(vec![
        rec(10, "editor", Some("ed"), 100, 0),
        rec(11, "editor-io", Some("ed"), 40, 0),
    ]);
    // Over 200 elapsed ticks the two processes consume 30 + 20 ticks.
    let items = apps.refresh(
        vec![
            rec(10, "editor", Some("ed"), 130, 0),
            rec(11, "editor-io", Some("ed"), 60, 0),
        ],
        200,
    );
    let r = items[0].cpu_time_ratio;
    assert_eq!(r.num, 50);
    assert_eq!(r.den, 200);
}

#[test]
fn newly_appeared_process_contributes_zero_delta() {
    let mut apps = Apps::new(vec![rec(10, "editor", Some("ed"), 100, 0)]);
    let items = apps.refresh(
        vec![
            rec(10, "editor", Some("ed"), 150, 0),
            // pid 99 was not in the previous sample: no baseline, no delta.
            rec(99, "editor-new", Some("ed"), 10_000, 0),
        ],
        100,
    );
    let r = items[0].cpu_time_ratio;
    assert_eq!(r.num, 50);
    assert_eq!(r.den, 100);
}

#[test]
fn exited_process_drops_out_of_the_grouping() {
    let mut apps = Apps::new(vec![
        rec(10, "editor", Some("ed"), 0, 0),
        rec(12, "player", Some("pl"), 0, 0),
    ]);
    let items = apps.refresh(vec![rec(12, "player", Some("pl"), 5, 0)], 10);
    assert_eq!(items.len(), 1);
    assert_eq!(items[0].id.as_deref(), Some("pl"));
}

#[test]
fn zero_elapsed_refresh_reports_zero_ratio() {
    let mut apps = Apps::new(vec![rec(10, "editor", Some("ed"), 100, 0)]);
    let items = apps.refresh(vec![rec(10, "editor", Some("ed"), 900, 0)], 0);
    assert_eq!(items[0].cpu_time_ratio.num, 0);
}

#[test]
fn app_delta_is_clamped_to_elapsed_time() {
    let mut apps = Apps::new(vec![rec(10, "editor", Some("ed"), 0, 0)]);
    let items = apps.refresh(vec![rec(10, "editor", Some("ed"), 500, 0)], 100);
    let r = items[0].cpu_time_ratio;
    assert_eq!(r.num, 100);
    assert_eq!(r.den, 100);
}

#[test]
fn simple_returns_the_published_summaries() {
    let mut apps = Apps::new(vec![rec(10, "editor", Some("ed"), 0, 10)]);
    let published = apps.refresh(vec![rec(10, "editor", Some("ed"), 5, 20)], 10);
    let again = apps.simple();
    assert_eq!(published.len(), again.len());
    assert_eq!(published[0].memory_usage, again[0].memory_usage);
    assert_eq!(again[0].memory_usage, 20);
}
