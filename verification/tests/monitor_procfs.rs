use trueno_viz::monitor::collectors::cpu::{
    average_frequency_mhz, frequency_from_sysfs, mhz_from_khz_text, CpuFrequency,
};
use trueno_viz::monitor::collectors::cpu_simd::present_core_count;
use trueno_viz::monitor::collectors::disk::{disk_deltas, parse_df_output, DiskStats};
use trueno_viz::monitor::collectors::network::{net_deltas, NetStats};
use trueno_viz::monitor::collectors::memory::{parse_meminfo_content, MemInfo};
use trueno_viz::monitor::collectors::sensors::is_cpu_sensor;
use trueno_viz::monitor::collectors::process::{
    build_tree, format_cmdline, parse_mem_total, parse_pid_stat, parse_statm_bytes, parse_total_cpu_ticks,
    parse_u32, ProcessState,
};

const STAT_LINE: &str = "1234 (test_process) S 1 1234 1234 0 -1 4194304 100 0 0 0 10 5 0 0 20 0 1 0 123456 12345678 1234 18446744073709551615 0 0 0 0 0 0 0 0 0 0 0 0 17 0 0 0 0 0 0";

#[test]
fn process_test_build_tree() {
    let tree = build_tree(&[(1, 0), (100, 1)]);
    assert!(tree.get(&1).is_some_and(|children| children.contains(&100)));
}

#[test]
fn process_simd_test_build_tree() {
    let tree = build_tree(&[(1, 0), (100, 1)]);
    assert!(tree.get(&1).is_some_and(|children| children.contains(&100)));
}

#[test]
fn build_tree_groups_children_in_entry_order() {
    let tree = build_tree(&[(1, 0), (5, 1), (7, 1), (9, 5), (11, 1)]);
    assert_eq!(tree.len(), 3);
    assert_eq!(tree.get(&0), Some(&vec![1]));
    assert_eq!(tree.get(&1), Some(&vec![5, 7, 11]));
    assert_eq!(tree.get(&5), Some(&vec![9]));
    assert_eq!(tree.get(&7), None);
}

#[test]
fn build_tree_of_nothing_is_empty() {
    assert!(build_tree(&[]).is_empty());
}

#[test]
fn parse_pid_stat_reads_name_state_and_fields() {
    let p = parse_pid_stat(STAT_LINE);
    assert_eq!(p.name, "test_process");
    assert_eq!(p.state, ProcessState::Sleeping);
    assert_eq!(p.ppid, 1);
    assert_eq!(p.utime, 10);
    assert_eq!(p.stime, 5);
    assert_eq!(p.threads, 1);
    assert_eq!(p.cpu_time(), 15);
}

#[test]
fn parse_pid_stat_name_runs_to_the_last_parenthesis() {
    let p = parse_pid_stat("42 (a (b) c) R 7");
    assert_eq!(p.name, "a (b) c");
    assert_eq!(p.state, ProcessState::Running);
    assert_eq!(p.ppid, 7);
    assert_eq!(p.utime, 0);
    assert_eq!(p.stime, 0);
    assert_eq!(p.threads, 1);
}

#[test]
fn parse_pid_stat_defaults_when_fields_are_missing() {
    let p = parse_pid_stat("9 (zombie) ");
    assert_eq!(p.name, "zombie");
    assert_eq!(p.state, ProcessState::Unknown);
    assert_eq!(p.ppid, 0);
    assert_eq!(p.threads, 1);
}

#[test]
fn parse_pid_stat_without_open_parenthesis_skips_one_character() {
    let p = parse_pid_stat("xname) Z 3");
    assert_eq!(p.name, "name");
    assert_eq!(p.state, ProcessState::Zombie);
    assert_eq!(p.ppid, 3);
}

#[test]
fn parse_u32_rejects_what_does_not_fit() {
    assert_eq!(parse_u32("4294967295"), Some(u32::MAX));
    assert_eq!(parse_u32("4294967296"), None);
    assert_eq!(parse_u32("+17"), Some(17));
    assert_eq!(parse_u32("-1"), None);
    assert_eq!(parse_u32(""), None);
}

#[test]
fn parse_statm_bytes_reads_resident_pages() {
    assert_eq!(parse_statm_bytes("1000 250 100 10 0 200 0\n"), 250 * 4096);
    assert_eq!(parse_statm_bytes("1000"), 0);
    assert_eq!(parse_statm_bytes("1000 x"), 0);
    assert_eq!(parse_statm_bytes(""), 0);
}

#[test]
fn format_cmdline_joins_arguments() {
    assert_eq!(format_cmdline("/usr/bin/app\0--flag\0value\0"), "/usr/bin/app --flag value");
    assert_eq!(format_cmdline(""), "");
    assert_eq!(format_cmdline("\0\0"), "");
}

#[test]
fn parse_total_cpu_ticks_sums_the_aggregate_line() {
    let content = "cpu  10 20 30 40 50 60 70 80 0 0\ncpu0 1 2 3 4 5 6 7 8 0 0\n";
    assert_eq!(parse_total_cpu_ticks(content), 360);
    assert_eq!(parse_total_cpu_ticks("intr 5\n"), 0);
    assert_eq!(parse_total_cpu_ticks("cpu0 1 2\ncpu 4 x 6\n"), 10);
}

#[test]
fn present_core_count_reads_the_range() {
    assert_eq!(present_core_count("0-7\n"), 8);
    assert_eq!(present_core_count("0\n"), 1);
    assert_eq!(present_core_count("0-x"), 1);
    assert_eq!(present_core_count("0-3,5-11"), 12);
    assert_eq!(present_core_count("  0-15  "), 16);
}

#[test]
fn parse_df_output_reads_the_second_line() {
    let out = "     1B-blocks         Used        Avail\n 100000 40000 60000\n";
    assert_eq!(parse_df_output(out), Some((100000, 40000, 60000)));
    assert_eq!(parse_df_output("header only\n"), None);
    assert_eq!(parse_df_output("h\n1 2\n"), None);
}

#[test]
fn parse_mem_total_reads_kib() {
    assert_eq!(parse_mem_total("MemFree: 5 kB\nMemTotal:       16384 kB\n"), 16384 * 1024);
    assert_eq!(parse_mem_total("MemFree: 5 kB\n"), 8 * 1024 * 1024 * 1024);
    assert_eq!(parse_mem_total("MemTotal: lots\n"), 8 * 1024 * 1024 * 1024);
}

#[test]
fn cpu_sensors_are_recognised_by_chip_or_label() {
    assert!(is_cpu_sensor("coretemp", "Package id 0"));
    assert!(is_cpu_sensor("k10temp", "Tctl"));
    assert!(is_cpu_sensor("acpitz", "Core 3"));
    assert!(is_cpu_sensor("nct6775", "CPU Temp"));
    assert!(!is_cpu_sensor("nvme", "Composite"));
    assert!(!is_cpu_sensor("amdgpu", "edge"));
}

#[test]
fn parse_meminfo_content_reads_known_keys() {
    let content = "MemTotal:       16000 kB\nMemFree:         2000 kB\nMemAvailable:    6000 kB\nBuffers:          100 kB\nCached:          3000 kB\nSwapCached:        50 kB\nSwapTotal:       4000 kB\nSwapFree:        1000 kB\nDirty: 5 kB\n";
    let m = parse_meminfo_content(content);
    assert_eq!(m.total, 16000 * 1024);
    assert_eq!(m.free, 2000 * 1024);
    assert_eq!(m.available, 6000 * 1024);
    assert_eq!(m.buffers, 100 * 1024);
    assert_eq!(m.cached, 3000 * 1024);
    assert_eq!(m.swap_total, 4000 * 1024);
    assert_eq!(m.swap_free, 1000 * 1024);
    assert_eq!(m.used(), 10000 * 1024);
    assert_eq!(m.swap_used(), 3000 * 1024);
}

#[test]
fn parse_meminfo_content_later_lines_win_and_bad_values_read_zero() {
    let m = parse_meminfo_content("MemTotal: 10 kB\nMemTotal: x kB\nMemFree:\nBuffers: 7\n");
    assert_eq!(m.total, 0);
    assert_eq!(m.free, 0);
    assert_eq!(m.buffers, 7 * 1024);
    assert_eq!(m.used(), 0);
    assert_eq!(MemInfo::default().swap_used(), 0);
}

#[test]
fn cpu_frequencies_read_in_mhz() {
    assert_eq!(mhz_from_khz_text("2400000\n"), 2400);
    assert_eq!(mhz_from_khz_text("999"), 0);
    assert_eq!(mhz_from_khz_text(""), 0);
    let f = frequency_from_sysfs("3600000\n", "800000\n", "");
    assert_eq!(f.current_mhz, 3600);
    assert_eq!(f.min_mhz, 800);
    assert_eq!(f.max_mhz, 0);
}

#[test]
fn average_frequency_divides_by_core_count() {
    let f = |mhz: u64| CpuFrequency { current_mhz: mhz, min_mhz: 0, max_mhz: 0 };
    assert_eq!(average_frequency_mhz(&[f(1000), f(2000), f(3001)], 3), 2000);
    assert_eq!(average_frequency_mhz(&[f(1000), f(2000)], 0), 0);
    assert_eq!(average_frequency_mhz(&[], 4), 0);
}

#[test]
fn disk_deltas_count_sectors_in_bytes() {
    let prev = DiskStats {
        name: "sda".to_string(),
        reads_completed: 10,
        sectors_read: 100,
        writes_completed: 5,
        sectors_written: 40,
        io_time_ms: 900,
        ..DiskStats::default()
    };
    let curr = DiskStats {
        name: "sda".to_string(),
        reads_completed: 15,
        sectors_read: 300,
        writes_completed: 4,
        sectors_written: 50,
        io_time_ms: 1000,
        ..DiskStats::default()
    };
    let d = disk_deltas(&prev, &curr, 512);
    assert_eq!(d.read_bytes, 200 * 512);
    assert_eq!(d.write_bytes, 10 * 512);
    assert_eq!(d.read_ops, 5);
    assert_eq!(d.write_ops, 0);
    assert_eq!(d.io_time_ms, 100);
}

#[test]
fn net_deltas_floor_counters_that_went_backwards() {
    let prev = NetStats { name: "eth0".to_string(), rx_bytes: 1000, tx_bytes: 500, rx_packets: 10, tx_packets: 9, ..NetStats::default() };
    let curr = NetStats { name: "eth0".to_string(), rx_bytes: 1500, tx_bytes: 100, rx_packets: 12, tx_packets: 9, ..NetStats::default() };
    let d = net_deltas(&prev, &curr);
    assert_eq!(d.rx_bytes, 500);
    assert_eq!(d.tx_bytes, 0);
    assert_eq!(d.rx_packets, 2);
    assert_eq!(d.tx_packets, 0);
}
