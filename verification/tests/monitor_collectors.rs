use std::time::Duration;
use trueno_viz::monitor::collectors::battery::{BatteryCollector, BatteryInfo, BatteryState};
use trueno_viz::monitor::collectors::cpu::{
    count_core_lines, parse_cpu_line, parse_proc_stat_content, usage_deltas, CpuFrequency,
    CpuStats,
};
use trueno_viz::monitor::collectors::disk::{mount_candidates, parse_diskstats, DiskStats};
use trueno_viz::monitor::collectors::memory_simd::{
    parse_kb_value, parse_meminfo_buffer, MemoryFields,
};
use trueno_viz::monitor::collectors::network::{parse_net_dev, NetStats};
use trueno_viz::monitor::collectors::process::ProcessState;
use trueno_viz::monitor::collectors::process_simd::ProcessState as SimdProcessState;
use trueno_viz::monitor::collectors::sensors::TempScale;
use trueno_viz::monitor::error::MonitorError;
use trueno_viz::monitor::types::Collector;

fn info(name: &str, capacity: u8, state: BatteryState) -> BatteryInfo {
    BatteryInfo {
        name: name.to_string(),
        capacity,
        state,
        energy_now: None,
        energy_full: None,
        energy_full_design: None,
        power_now: None,
        voltage_now: None,
        time_to_empty: None,
        time_to_full: None,
    }
}

#[test]
fn test_battery_state_from_str() {
    assert_eq!(BatteryState::from_str("Charging"), BatteryState::Charging);
    assert_eq!(BatteryState::from_str("Discharging"), BatteryState::Discharging);
    assert_eq!(BatteryState::from_str("Full"), BatteryState::Full);
    assert_eq!(BatteryState::from_str("Not charging"), BatteryState::NotCharging);
    assert_eq!(BatteryState::from_str("random"), BatteryState::Unknown);
}

#[test]
fn battery_state_from_str_ignores_white_space_and_case() {
    assert_eq!(BatteryState::from_str("  CHARGING\n"), BatteryState::Charging);
    assert_eq!(BatteryState::from_str("\tnot Charging "), BatteryState::NotCharging);
    assert_eq!(BatteryState::from_str("not  charging"), BatteryState::Unknown);
    assert_eq!(BatteryState::from_str(""), BatteryState::Unknown);
}

#[test]
fn test_battery_state_symbol() {
    assert_eq!(BatteryState::Charging.symbol(), '⚡');
    assert_eq!(BatteryState::Discharging.symbol(), '🔋');
    assert_eq!(BatteryState::Full.symbol(), '✓');
}

#[test]
fn test_battery_state_is_charging() {
    assert!(BatteryState::Charging.is_charging());
    assert!(!BatteryState::Discharging.is_charging());
    assert!(!BatteryState::Full.is_charging());
}

#[test]
fn test_battery_state_default() {
    assert_eq!(BatteryState::default(), BatteryState::Unknown);
}

#[test]
fn test_battery_info_time_remaining_formatted() {
    let mut b = info("BAT0", 50, BatteryState::Discharging);
    b.time_to_empty = Some(5400); // 1h 30m
    let formatted = b.time_remaining_formatted().expect("Should have formatted time");
    assert_eq!(formatted, "1h 30m");
}

#[test]
fn test_battery_info_time_remaining_minutes_only() {
    let mut b = info("BAT0", 50, BatteryState::Discharging);
    b.time_to_empty = Some(1800); // 30m
    let formatted = b.time_remaining_formatted().expect("Should have formatted time");
    assert_eq!(formatted, "30m");
}

#[test]
fn time_remaining_follows_the_direction_of_charge() {
    let mut b = info("BAT0", 50, BatteryState::Charging);
    b.time_to_empty = Some(60);
    b.time_to_full = Some(7260);
    assert_eq!(b.time_remaining_formatted().as_deref(), Some("2h 1m"));
    b.state = BatteryState::Full;
    assert_eq!(b.time_remaining_formatted(), None);
    b.state = BatteryState::Discharging;
    b.time_to_empty = None;
    assert_eq!(b.time_remaining_formatted(), None);
}

#[test]
fn test_battery_collector_new() {
    let collector = BatteryCollector::new();
    assert!(collector.batteries.is_empty());
}

#[test]
fn test_battery_collector_default() {
    let collector = BatteryCollector::default();
    assert!(collector.batteries.is_empty());
}

#[test]
fn test_battery_collector_interval() {
    let collector = BatteryCollector::new();
    assert_eq!(collector.interval_hint(), Duration::from_millis(5000));
}

#[test]
fn test_battery_collector_display_name() {
    let collector = BatteryCollector::new();
    assert_eq!(collector.display_name(), "Battery");
}

#[test]
fn test_battery_collector_id() {
    let collector = BatteryCollector::new();
    assert_eq!(collector.id(), "battery");
}

#[test]
fn test_battery_collector_is_charging() {
    let mut collector = BatteryCollector::new();
    collector.batteries.push(info("BAT0", 50, BatteryState::Discharging));
    assert!(!collector.is_charging());
    collector.batteries[0].state = BatteryState::Charging;
    assert!(collector.is_charging());
}

#[test]
fn battery_totals_and_average() {
    let mut collector = BatteryCollector::new();
    assert_eq!(collector.average_capacity(), None);
    assert!(collector.primary().is_none());
    let mut b0 = info("BAT0", 80, BatteryState::Discharging);
    b0.energy_now = Some(40_000_000);
    b0.energy_full = Some(50_000_000);
    let mut b1 = info("BAT1", 61, BatteryState::Discharging);
    b1.energy_now = Some(30_000_000);
    b1.energy_full = Some(50_000_000);
    let mut b2 = info("BAT2", 20, BatteryState::Discharging);
    b2.energy_now = Some(1);
    collector.batteries.push(b0);
    collector.batteries.push(b1);
    collector.batteries.push(b2);
    assert_eq!(collector.energy_totals(), (70_000_000, 100_000_000));
    assert_eq!(collector.average_capacity(), Some(53));
    assert_eq!(collector.primary().unwrap().name, "BAT0");
    assert_eq!(collector.batteries().len(), 3);
}

#[test]
fn test_cpu_stats_total() {
    let stats = CpuStats {
        user: 100,
        nice: 10,
        system: 50,
        idle: 800,
        iowait: 20,
        irq: 5,
        softirq: 5,
        steal: 10,
    };
    assert_eq!(stats.total(), 1000);
    assert_eq!(stats.idle_time(), 820);
}

#[test]
fn test_cpu_stats_default() {
    let stats = CpuStats::default();
    assert_eq!(stats.total(), 0);
    assert_eq!(stats.idle_time(), 0);
}

#[test]
fn test_cpu_frequency_default() {
    let freq = CpuFrequency::default();
    assert_eq!(freq.current_mhz, 0);
    assert_eq!(freq.min_mhz, 0);
    assert_eq!(freq.max_mhz, 0);
}

#[test]
fn test_cpu_stats_all_fields() {
    let stats = CpuStats {
        user: 1000,
        nice: 200,
        system: 300,
        idle: 5000,
        iowait: 100,
        irq: 50,
        softirq: 30,
        steal: 20,
    };
    // Total should be sum of all fields
    assert_eq!(stats.total(), 6700);
    // Idle time is idle + iowait
    assert_eq!(stats.idle_time(), 5100);
}

#[test]
fn test_cpu_stats_clone() {
    let stats = CpuStats {
        user: 100,
        nice: 10,
        system: 50,
        idle: 800,
        iowait: 20,
        irq: 5,
        softirq: 5,
        steal: 10,
    };
    let cloned = stats.clone();
    assert_eq!(stats.total(), cloned.total());
    assert_eq!(stats.idle_time(), cloned.idle_time());
}

#[test]
fn test_cpu_frequency_values() {
    let freq = CpuFrequency {
        current_mhz: 2400,
        min_mhz: 800,
        max_mhz: 3600,
    };
    assert_eq!(freq.current_mhz, 2400);
    assert_eq!(freq.min_mhz, 800);
    assert_eq!(freq.max_mhz, 3600);
}

#[test]
fn cpu_line_parsing() {
    let s = parse_cpu_line("cpu  10 20 30 40 50 60 70 80 90 100").unwrap();
    assert_eq!((s.user, s.nice, s.system, s.idle), (10, 20, 30, 40));
    assert_eq!((s.iowait, s.irq, s.softirq, s.steal), (50, 60, 70, 80));
    let short = parse_cpu_line("cpu0 1 2 3 4 5 6 7").unwrap();
    assert_eq!(short.steal, 0);
    let bad = parse_cpu_line("cpu0 1 x 3 4 5 6 7").unwrap();
    assert_eq!(bad.nice, 0);
    match parse_cpu_line("cpu 1 2 3") {
        Err(MonitorError::CollectionFailed { collector, message }) => {
            assert_eq!(collector, "cpu");
            assert_eq!(message, "Invalid /proc/stat format");
        }
        _ => panic!("expected a format error"),
    }
}

#[test]
fn proc_stat_content_parsing() {
    let content = "cpu  100 0 50 800 20 0 0 0\ncpu0 60 0 30 400 10 0 0 0\ncpu1 40 0 20 400 10 0 0 0\nintr 12345\nctxt 99\n";
    let (total, cores) = parse_proc_stat_content(content).unwrap();
    assert_eq!(total.total(), 970);
    assert_eq!(cores.len(), 2);
    assert_eq!(cores[1].user, 40);
    assert_eq!(count_core_lines(content), 2);
    assert!(parse_proc_stat_content("cpu 1 2\n").is_err());
    let (busy, all) = usage_deltas(&cores[1], &cores[0]);
    assert_eq!((busy, all), (30, 30));
}

#[test]
fn test_disk_stats_default() {
    let stats = DiskStats::default();
    assert!(stats.name.is_empty());
    assert_eq!(stats.reads_completed, 0);
    assert_eq!(stats.writes_completed, 0);
}

#[test]
fn diskstats_parsing_keeps_disks_and_active_partitions() {
    let content = "   8       0 sda 100 2 300 4 50 6 70 8 0 10 11\n   8       1 sda1 0 0 0 0 0 0 0 0 0 0 0\n   8       2 sda2 5 0 0 0 0 0 0 0 0 0 0\n 259       0 nvme0n1 1 2 3 4 5 6 7 8 9 10 11\n 259       1 nvme0n1p1 0 0 0 0 0 0 0 0 0 0 0\nshort line\n";
    let stats = parse_diskstats(content);
    let names: Vec<&str> = stats.iter().map(|d| d.name.as_str()).collect();
    assert_eq!(names, vec!["sda", "sda2", "nvme0n1"]);
    assert_eq!(stats[0].reads_completed, 100);
    assert_eq!(stats[0].writes_completed, 50);
    assert_eq!(stats[0].weighted_io_time_ms, 11);
}

#[test]
fn mount_selection_skips_virtual_special_and_remote() {
    let content = "/dev/sda1 / ext4 rw 0 0\nproc /proc proc rw 0 0\n/dev/sda2 /run/x ext4 rw 0 0\nserver:/x /mnt nfs rw 0 0\n/dev/sdb1 /data xfs rw 0 0\n/dev/sdc1 /net nfs4 rw 0 0\n";
    let m = mount_candidates(content);
    assert_eq!(m.len(), 2);
    assert_eq!(m[0], ("/dev/sda1".to_string(), "/".to_string(), "ext4".to_string()));
    assert_eq!(m[1].1, "/data");
}

#[test]
fn test_net_stats_default() {
    let stats = NetStats::default();
    assert!(stats.name.is_empty());
    assert_eq!(stats.rx_bytes, 0);
    assert_eq!(stats.tx_bytes, 0);
}

#[test]
fn net_dev_parsing() {
    let content = "Inter-|   Receive                                                |  Transmit\n face |bytes    packets errs drop fifo frame compressed multicast|bytes    packets errs drop fifo colls carrier compressed\n    lo: 100 1 0 0 0 0 0 0 100 1 0 0 0 0 0 0\n  eth0: 2000 20 1 2 0 0 0 0 3000 30 3 4 0 0 0 0\n  bad: 1 2 3\n";
    let stats = parse_net_dev(content);
    assert_eq!(stats.len(), 1);
    assert_eq!(stats[0].name, "eth0");
    assert_eq!(stats[0].rx_bytes, 2000);
    assert_eq!(stats[0].rx_drops, 2);
    assert_eq!(stats[0].tx_bytes, 3000);
    assert_eq!(stats[0].tx_drops, 4);
}

#[test]
fn test_simd_memory_parse_buffer() {
    let mut metrics = MemoryFields::default();
    let test_data = b"MemTotal:       16000000 kB\nMemFree:         4000000 kB\nMemAvailable:    8000000 kB\nBuffers:          500000 kB\nCached:          2000000 kB\nSwapTotal:       8000000 kB\nSwapFree:        7000000 kB\nDirty:              1000 kB\nSlab:             500000 kB\n";

    parse_meminfo_buffer(&mut metrics, test_data);

    assert_eq!(metrics.total, 16_000_000 * 1024);
    assert_eq!(metrics.free, 4_000_000 * 1024);
    assert_eq!(metrics.available, 8_000_000 * 1024);
    assert_eq!(metrics.buffers, 500_000 * 1024);
    assert_eq!(metrics.cached, 2_000_000 * 1024);
    assert_eq!(metrics.swap_total, 8_000_000 * 1024);
    assert_eq!(metrics.swap_free, 7_000_000 * 1024);
}

#[test]
fn meminfo_ignores_unknown_keys_and_unterminated_lines() {
    let mut metrics = MemoryFields::default();
    metrics.dirty = 5;
    parse_meminfo_buffer(&mut metrics, b"SwapCached: 10 kB\nSlab: 3 kB\nMemTotal: 7 kB");
    assert_eq!(metrics.cached, 0);
    assert_eq!(metrics.slab, 3 * 1024);
    assert_eq!(metrics.total, 0);
    assert_eq!(metrics.dirty, 5);
}

#[test]
fn test_parse_kb_value() {
    let line = b"MemTotal:       16000000 kB";
    assert_eq!(parse_kb_value(line), 16000000);

    let line2 = b"Cached:          2000000 kB";
    assert_eq!(parse_kb_value(line2), 2000000);
}

#[test]
fn parse_kb_value_edge_cases() {
    assert_eq!(parse_kb_value(b"no colon 123"), 0);
    assert_eq!(parse_kb_value(b"Key: kB"), 0);
    assert_eq!(parse_kb_value(b"Key:12:34"), 12);
    assert_eq!(parse_kb_value(b"Key: 18446744073709551617"), 1);
}

#[test]
fn process_test_process_state_from_char() {
    assert_eq!(ProcessState::from_char('R'), ProcessState::Running);
    assert_eq!(ProcessState::from_char('S'), ProcessState::Sleeping);
    assert_eq!(ProcessState::from_char('D'), ProcessState::DiskWait);
    assert_eq!(ProcessState::from_char('Z'), ProcessState::Zombie);
    assert_eq!(ProcessState::from_char('?'), ProcessState::Unknown);
}

#[test]
fn process_test_process_state_as_char() {
    assert_eq!(ProcessState::Running.as_char(), 'R');
    assert_eq!(ProcessState::Sleeping.as_char(), 'S');
}

#[test]
fn process_simd_test_process_state_from_char() {
    assert_eq!(SimdProcessState::from_char('R'), SimdProcessState::Running);
    assert_eq!(SimdProcessState::from_char('S'), SimdProcessState::Sleeping);
    assert_eq!(SimdProcessState::from_char('D'), SimdProcessState::DiskWait);
    assert_eq!(SimdProcessState::from_char('Z'), SimdProcessState::Zombie);
    assert_eq!(SimdProcessState::from_char('?'), SimdProcessState::Unknown);
}

#[test]
fn process_simd_test_process_state_as_char() {
    assert_eq!(SimdProcessState::Running.as_char(), 'R');
    assert_eq!(SimdProcessState::Sleeping.as_char(), 'S');
}

#[test]
fn process_state_round_trips_through_its_character() {
    for c in ['R', 'S', 'D', 'Z', 'T', 't', 'X'] {
        assert_eq!(ProcessState::from_char(c).as_char(), c);
    }
    assert_eq!(ProcessState::from_char('x'), ProcessState::Dead);
    assert_eq!(SimdProcessState::default(), SimdProcessState::Sleeping);
}

#[test]
fn test_temp_scale_suffix() {
    assert_eq!(TempScale::Celsius.suffix(), "°C");
    assert_eq!(TempScale::Fahrenheit.suffix(), "°F");
    assert_eq!(TempScale::Kelvin.suffix(), "K");
}

#[test]
fn test_temp_scale_default() {
    assert_eq!(TempScale::default(), TempScale::Celsius);
}

#[test]
fn test_parse_cpu_line() {
    let line = "cpu0 100 10 50 800 20 5 5 10 0 0";
    let stats = parse_cpu_line(line).unwrap();

    assert_eq!(stats.user, 100);
    assert_eq!(stats.nice, 10);
    assert_eq!(stats.system, 50);
    assert_eq!(stats.idle, 800);
    assert_eq!(stats.iowait, 20);
    assert_eq!(stats.irq, 5);
    assert_eq!(stats.softirq, 5);
    assert_eq!(stats.steal, 10);
}

#[test]
fn test_parse_cpu_line_total() {
    let line = "cpu  12345 678 9012 345678 901 23 45 67 0 0";
    let stats = parse_cpu_line(line).unwrap();

    assert_eq!(stats.user, 12345);
    assert_eq!(stats.nice, 678);
    assert_eq!(stats.system, 9012);
    assert_eq!(stats.idle, 345678);
}

#[test]
fn test_parse_cpu_line_minimal() {
    let line = "cpu0 1 2 3 4 5 6 7 8";
    let stats = parse_cpu_line(line).unwrap();

    assert_eq!(stats.user, 1);
    assert_eq!(stats.nice, 2);
    assert_eq!(stats.system, 3);
    assert_eq!(stats.idle, 4);
}

#[test]
fn test_parse_cpu_line_invalid() {
    let line = "not a cpu line";
    let result = parse_cpu_line(line);
    assert!(result.is_err());
}

#[test]
fn test_parse_cpu_line_too_few_fields() {
    let line = "cpu0 1 2 3";
    let result = parse_cpu_line(line);
    assert!(result.is_err());
}

#[test]
fn test_parse_cpu_line_with_extra_fields() {
    let line = "cpu0 100 10 50 800 20 5 5 10 100 200";
    let stats = parse_cpu_line(line).unwrap();

    assert_eq!(stats.user, 100);
    assert_eq!(stats.steal, 10);
}
