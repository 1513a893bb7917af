use procmon::cpu::CpuTimes;
use procmon::rates::{busy_ratio, counter_rate, Rate, Ratio};

fn times(
    user: u64,
    nice: u64,
    system: u64,
    idle: u64,
    iowait: u64,
) -> CpuTimes {
    CpuTimes {
        user,
        nice,
        system,
        idle,
        iowait,
        irq: 0,
        softirq: 0,
        steal: 0,
        guest: 0,
        guest_nice: 0,
    }
}

fn as_f64(r: Ratio) -> f64 {
    r.num as f64 / r.den as f64
}

#[test]
fn worked_example_gives_one_half() {
    // A = (user=100, nice=0, system=50, idle=800, iowait=50, others=0);
    // B adds 50 user ticks and 50 idle ticks: delta total = 100, delta
    // idle = 50, so the busy ratio is exactly 0.5.
    let a = times(100, 0, 50, 800, 50);
    let b = times(150, 0, 50, 850, 50);
    let r = busy_ratio(&a, &b);
    assert_eq!(r.num, 50);
    assert_eq!(r.den, 100);
    assert_eq!(as_f64(r), 0.5);
}

#[test]
fn identical_snapshots_give_zero_not_nan() {
    let a = times(100, 0, 50, 800, 50);
    let r = busy_ratio(&a, &a);
    assert_eq!(r.num, 0);
    assert!(r.den >= 1);
    assert_eq!(as_f64(r), 0.0);
}

#[test]
fn counter_reset_gives_zero() {
    // The current snapshot is behind the previous one, as after a reboot.
    let a = times(1000, 0, 500, 8000, 500);
    let b = times(10, 0, 5, 80, 5);
    let r = busy_ratio(&a, &b);
    assert_eq!(r.num, 0);
    assert_eq!(as_f64(r), 0.0);
}

#[test]
fn ratio_stays_within_unit_interval() {
    let pairs = [
        (times(0, 0, 0, 0, 0), times(7, 3, 2, 0, 0)),
        (times(5, 5, 5, 5, 5), times(6, 6, 6, 1000, 6)),
        (times(1, 2, 3, 4, 5), times(100, 200, 300, 400, 500)),
        (times(0, 0, 0, 100, 0), times(0, 0, 0, 200, 0)),
    ];
    for (a, b) in pairs {
        let r = busy_ratio(&a, &b);
        assert!(r.den >= 1);
        assert!(r.num <= r.den);
        let v = as_f64(r);
        assert!((0.0..=1.0).contains(&v), "ratio {v} out of range");
    }
}

#[test]
fn fully_busy_interval_gives_one() {
    let a = times(100, 0, 0, 500, 0);
    let b = times(200, 0, 0, 500, 0);
    let r = busy_ratio(&a, &b);
    assert_eq!(as_f64(r), 1.0);
}

#[test]
fn fully_idle_interval_gives_zero() {
    let a = times(100, 0, 0, 500, 0);
    let b = times(100, 0, 0, 900, 0);
    let r = busy_ratio(&a, &b);
    assert_eq!(as_f64(r), 0.0);
}

#[test]
fn iowait_counts_as_idle_time() {
    // 50 busy ticks, 25 idle ticks, 25 iowait ticks: busy ratio 0.5.
    let a = times(0, 0, 0, 0, 0);
    let b = times(50, 0, 0, 25, 25);
    let r = busy_ratio(&a, &b);
    assert_eq!(as_f64(r), 0.5);
}

#[test]
fn counter_rate_reports_advance_over_elapsed() {
    let r = counter_rate(1000, 1500, 20, 30);
    assert_eq!(r, Rate { delta: 500, elapsed: 10 });
}

#[test]
fn counter_rate_defends_against_zero_or_negative_elapsed() {
    assert_eq!(counter_rate(10, 20, 5, 5), Rate { delta: 0, elapsed: 1 });
    assert_eq!(counter_rate(10, 20, 9, 5), Rate { delta: 0, elapsed: 1 });
}

#[test]
fn counter_rate_treats_counter_reset_as_zero_advance() {
    assert_eq!(counter_rate(500, 20, 5, 9), Rate { delta: 0, elapsed: 4 });
}
