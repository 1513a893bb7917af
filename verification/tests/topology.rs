use procmon::topology::cpu_info;

const SAMPLE: &str = "Architecture:                       x86_64\n\
CPU op-mode(s):                     32-bit, 64-bit\n\
CPU(s):                             8\n\
Vendor ID:                          GenuineIntel\n\
Model name:                         Intel(R) Core(TM) i7-10510U CPU @ 1.80GHz\n\
Socket(s):                          1\n\
Core(s) per socket:                 4\n\
Virtualization:                     VT-x\n\
CPU max MHz:                        4900.0000\n\
CPU min MHz:                        400.0000\n";

#[test]
fn reads_text_fields() {
    let info = cpu_info(SAMPLE);
    assert_eq!(info.vendor_id.as_deref(), Some("GenuineIntel"));
    assert_eq!(
        info.model_name.as_deref(),
        Some("Intel(R) Core(TM) i7-10510U CPU @ 1.80GHz")
    );
    assert_eq!(info.architecture.as_deref(), Some("x86_64"));
    assert_eq!(info.virtualization.as_deref(), Some("VT-x"));
}

#[test]
fn reads_counts_and_multiplies_cores_by_sockets() {
    let info = cpu_info(SAMPLE);
    assert_eq!(info.logical_cpus, Some(8));
    assert_eq!(info.sockets, Some(1));
    assert_eq!(info.physical_cpus, Some(4));
}

#[test]
fn two_sockets_double_the_physical_count() {
    let text = "Socket(s): 2\nCore(s) per socket: 12\n";
    let info = cpu_info(text);
    assert_eq!(info.sockets, Some(2));
    assert_eq!(info.physical_cpus, Some(24));
}

#[test]
fn missing_socket_count_defaults_to_one() {
    let text = "Core(s) per socket: 6\n";
    let info = cpu_info(text);
    assert_eq!(info.sockets, None);
    assert_eq!(info.physical_cpus, Some(6));
}

#[test]
fn max_mhz_is_converted_to_hz() {
    let info = cpu_info(SAMPLE);
    assert_eq!(info.max_speed_hz, Some(4_900_000_000));
}

#[test]
fn fractional_mhz_converts_exactly() {
    let info = cpu_info("CPU max MHz: 1234.5678\n");
    assert_eq!(info.max_speed_hz, Some(1_234_567_800));
    let info = cpu_info("CPU max MHz: 800\n");
    assert_eq!(info.max_speed_hz, Some(800_000_000));
    let info = cpu_info("CPU max MHz: 0.5\n");
    assert_eq!(info.max_speed_hz, Some(500_000));
}

#[test]
fn absent_fields_stay_absent() {
    let info = cpu_info("Architecture: riscv64\n");
    assert_eq!(info.architecture.as_deref(), Some("riscv64"));
    assert_eq!(info.vendor_id, None);
    assert_eq!(info.model_name, None);
    assert_eq!(info.logical_cpus, None);
    assert_eq!(info.physical_cpus, None);
    assert_eq!(info.sockets, None);
    assert_eq!(info.virtualization, None);
    assert_eq!(info.max_speed_hz, None);
}

#[test]
fn unparsable_numbers_stay_absent() {
    let info = cpu_info("CPU(s): many\nCPU max MHz: fast\n");
    assert_eq!(info.logical_cpus, None);
    assert_eq!(info.max_speed_hz, None);
}

#[test]
fn first_matching_line_wins() {
    let info = cpu_info("CPU(s): 4\nCPU(s): 8\n");
    assert_eq!(info.logical_cpus, Some(4));
}

#[test]
fn lines_without_a_colon_are_skipped() {
    let info = cpu_info("garbage line\nCPU(s): 2\n");
    assert_eq!(info.logical_cpus, Some(2));
}
