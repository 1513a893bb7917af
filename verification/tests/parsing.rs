use procmon::cpu::{get_cpu_usage, parse_proc_stat_line, parse_scaling_cur_freq};
use procmon::drive::{get_sector_size, sys_stat};
use procmon::ParseError;

#[test]
fn parses_aggregate_cpu_line() {
    let c = parse_proc_stat_line("cpu  100 0 50 800 50 0 0 0 0 0").unwrap();
    assert_eq!(c.user, 100);
    assert_eq!(c.nice, 0);
    assert_eq!(c.system, 50);
    assert_eq!(c.idle, 800);
    assert_eq!(c.iowait, 50);
    assert_eq!(c.irq, 0);
    assert_eq!(c.softirq, 0);
    assert_eq!(c.steal, 0);
    assert_eq!(c.guest, 0);
    assert_eq!(c.guest_nice, 0);
}

#[test]
fn parses_per_core_cpu_line() {
    let c = parse_proc_stat_line("cpu7 1 2 3 4 5 6 7 8 9 10").unwrap();
    assert_eq!(c.user, 1);
    assert_eq!(c.guest_nice, 10);
}

#[test]
fn cpu_line_missing_idle_field_fails() {
    // Nine numeric fields instead of ten: the idle column is gone, and the
    // whole read must fail rather than default it to zero.
    let r = parse_proc_stat_line("cpu  100 0 50 50 0 0 0 0 0");
    assert_eq!(r, Err(ParseError::Malformed));
}

#[test]
fn cpu_line_non_numeric_field_fails() {
    let r = parse_proc_stat_line("cpu  100 0 abc 800 50 0 0 0 0 0");
    assert_eq!(r, Err(ParseError::Malformed));
}

#[test]
fn cpu_line_wrong_label_fails() {
    let r = parse_proc_stat_line("intr 100 0 50 800 50 0 0 0 0 0");
    assert_eq!(r, Err(ParseError::Malformed));
}

#[test]
fn get_cpu_usage_selects_aggregate_and_core_lines() {
    let stat = "cpu  10 0 0 100 0 0 0 0 0 0\n\
                cpu0 4 0 0 50 0 0 0 0 0 0\n\
                cpu1 6 0 0 50 0 0 0 0 0 0\n\
                intr 12345\n";
    let agg = get_cpu_usage(stat, None).unwrap();
    assert_eq!(agg.user, 10);
    let core0 = get_cpu_usage(stat, Some(0)).unwrap();
    assert_eq!(core0.user, 4);
    let core1 = get_cpu_usage(stat, Some(1)).unwrap();
    assert_eq!(core1.user, 6);
}

#[test]
fn get_cpu_usage_core_beyond_reported_lines_fails() {
    let stat = "cpu  10 0 0 100 0 0 0 0 0 0\n\
                cpu0 4 0 0 50 0 0 0 0 0 0\n";
    assert_eq!(get_cpu_usage(stat, Some(1)), Err(ParseError::CoreOutOfRange));
    assert_eq!(get_cpu_usage(stat, Some(100)), Err(ParseError::CoreOutOfRange));
}

#[test]
fn get_cpu_usage_empty_text_fails() {
    assert_eq!(get_cpu_usage("", None), Err(ParseError::CoreOutOfRange));
}

#[test]
fn scaling_freq_is_converted_from_khz_to_hz() {
    assert_eq!(parse_scaling_cur_freq("2400000\n"), Ok(2_400_000_000));
}

#[test]
fn scaling_freq_rejects_garbage() {
    assert_eq!(parse_scaling_cur_freq("fast\n"), Err(ParseError::Malformed));
    assert_eq!(parse_scaling_cur_freq(""), Err(ParseError::Malformed));
}

#[test]
fn scaling_freq_conversion_overflow_is_reported() {
    // 2^64 / 1000 < 18446744073709552: converting this to Hz cannot fit.
    assert_eq!(
        parse_scaling_cur_freq("18446744073709552\n"),
        Err(ParseError::Overflow)
    );
}

#[test]
fn disk_stat_round_trips_all_seventeen_fields() {
    let line = " 1 2 3 4 5 6 7 8 9 10 11 12 13 14 15 16 17\n";
    let d = sys_stat(line).unwrap();
    let names = [
        "read_ios",
        "read_merges",
        "read_sectors",
        "read_ticks",
        "write_ios",
        "write_merges",
        "write_sectors",
        "write_ticks",
        "in_flight",
        "io_ticks",
        "time_in_queue",
        "discard_ios",
        "discard_merges",
        "discard_sectors",
        "discard_ticks",
        "flush_ios",
        "flush_ticks",
    ];
    for (i, name) in names.iter().enumerate() {
        assert_eq!(d.field(name), Some((i + 1) as u64), "field {name}");
    }
    let in_order = d.fields_in_order();
    assert_eq!(in_order, (1..=17).collect::<Vec<u64>>());
}

#[test]
fn disk_stat_realistic_line() {
    let line = "    8836     1404   509896     3343     4942    10382   399242     4694        0     7312     8671      761        0  1369784      303     1686      632\n";
    let d = sys_stat(line).unwrap();
    assert_eq!(d.read_ios, 8836);
    assert_eq!(d.read_sectors, 509896);
    assert_eq!(d.write_ticks, 4694);
    assert_eq!(d.in_flight, 0);
    assert_eq!(d.flush_ticks, 632);
}

#[test]
fn disk_stat_unknown_field_name_is_absent() {
    let line = " 1 2 3 4 5 6 7 8 9 10 11 12 13 14 15 16 17";
    let d = sys_stat(line).unwrap();
    assert_eq!(d.field("sectors"), None);
    assert_eq!(d.field(""), None);
}

#[test]
fn disk_stat_with_missing_field_fails() {
    // Sixteen fields: one short of the required seventeen.
    let line = " 1 2 3 4 5 6 7 8 9 10 11 12 13 14 15 16";
    assert_eq!(sys_stat(line), Err(ParseError::Malformed));
}

#[test]
fn disk_stat_with_non_numeric_field_fails() {
    let line = " 1 2 3 4 5 6 7 8 x 10 11 12 13 14 15 16 17";
    assert_eq!(sys_stat(line), Err(ParseError::Malformed));
}

#[test]
fn sector_size_parses_with_trailing_newline() {
    assert_eq!(get_sector_size("512\n"), Ok(512));
    assert_eq!(get_sector_size("4096"), Ok(4096));
}

#[test]
fn sector_size_rejects_garbage() {
    assert_eq!(get_sector_size("512b\n"), Err(ParseError::Malformed));
    assert_eq!(get_sector_size("\n"), Err(ParseError::Malformed));
}
