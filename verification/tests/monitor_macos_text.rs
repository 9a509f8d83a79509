use trueno_viz::color::Rgba;
use trueno_viz::framebuffer::{is_simd_aligned_at, Framebuffer};
use trueno_viz::monitor::collectors::cpu::cpu_stats_from_load_ticks;
use trueno_viz::monitor::collectors::disk::{parse_df_k_line, parse_df_k_output};
use trueno_viz::monitor::collectors::network::{parse_netstat_ib, parse_netstat_line};
use trueno_viz::monitor::collectors::process::{
    parse_ps_line, parse_ps_output, parse_u32, ps_state_from_char, ProcessState,
};
use trueno_viz::monitor::kernels::simd_find_newlines;
use trueno_viz::monitor::collectors::memory::parse_meminfo_content;

const PS_OUTPUT: &str = "  PID  PPID STAT  %CPU %MEM    RSS USER             COMM\n\
    1     0 Ss    0.0  0.1  12345 root             /sbin/launchd\n\
  420     1 R    12.5  1.0   2048 alice            /Applications/My App.app/Contents/MacOS/My App\n\
  bad     1 S     0.0  0.0    100 bob              junk\n\
  421     1 Z\n\
  422   xyz I     0.0  0.0    abc carol            idle\n";

#[test]
fn ps_output_skips_header_and_malformed_lines() {
    let entries = parse_ps_output(PS_OUTPUT);
    assert_eq!(entries.len(), 3);

    assert_eq!(entries[0].pid, 1);
    assert_eq!(entries[0].ppid, 0);
    assert_eq!(entries[0].state, ProcessState::Sleeping);
    assert_eq!(entries[0].cpu_percent_text, "0.0");
    assert_eq!(entries[0].mem_percent_text, "0.1");
    assert_eq!(entries[0].mem_bytes, 12345 * 1024);
    assert_eq!(entries[0].user, "root");
    assert_eq!(entries[0].name, "/sbin/launchd");

    assert_eq!(entries[1].pid, 420);
    assert_eq!(entries[1].state, ProcessState::Running);
    assert_eq!(entries[1].mem_bytes, 2048 * 1024);
    assert_eq!(entries[1].name, "/Applications/My App.app/Contents/MacOS/My App");

    assert_eq!(entries[2].pid, 422);
    assert_eq!(entries[2].ppid, 0);
    assert_eq!(entries[2].state, ProcessState::Sleeping);
    assert_eq!(entries[2].mem_bytes, 0);
    assert_eq!(entries[2].user, "carol");
}

#[test]
fn ps_line_needs_eight_words_and_a_pid() {
    assert!(parse_ps_line("1 0 S 0.0 0.0 1 root").is_none());
    assert!(parse_ps_line("x 0 S 0.0 0.0 1 root cmd").is_none());
    let e = parse_ps_line("7 1 U 1.5 2.5 4 root cmd").unwrap();
    assert_eq!(e.state, ProcessState::DiskWait);
    assert_eq!(e.mem_bytes, 4096);
}

#[test]
fn ps_state_letters() {
    assert_eq!(ps_state_from_char('R'), ProcessState::Running);
    assert_eq!(ps_state_from_char('S'), ProcessState::Sleeping);
    assert_eq!(ps_state_from_char('I'), ProcessState::Sleeping);
    assert_eq!(ps_state_from_char('U'), ProcessState::DiskWait);
    assert_eq!(ps_state_from_char('Z'), ProcessState::Zombie);
    assert_eq!(ps_state_from_char('T'), ProcessState::Stopped);
    assert_eq!(ps_state_from_char('D'), ProcessState::Unknown);
}

#[test]
fn ps_output_empty() {
    assert!(parse_ps_output("").is_empty());
    assert!(parse_ps_output("  PID  PPID STAT  %CPU %MEM    RSS USER COMM").is_empty());
}

const NETSTAT_OUTPUT: &str = "Name       Mtu   Network       Address            Ipkts Ierrs     Ibytes    Opkts Oerrs     Obytes  Coll\n\
lo0        16384 <Link#1>                         1000     0     200000     1000     0     200000     0\n\
en0        1500  <Link#6>      aa:bb:cc:dd:ee:ff  123456     1  123456789   654321     2  987654321     0\n\
en0        1500  192.168.1     192.168.1.10       123456     -  123456789   654321     -  987654321     -\n\
en1        1500  <Link#7>      aa:bb:cc:dd:ee:00       0     0          0        0     0          0     0\n\
gif0*      1280  <Link#2>                              5     0        100        5     0        100     0\n\
utun0      1380  <Link#9>                             10     0       1400       12     0       1600     0\n";

#[test]
fn netstat_keeps_link_rows_with_traffic() {
    let stats = parse_netstat_ib(NETSTAT_OUTPUT);
    assert_eq!(stats.len(), 1);

    assert_eq!(stats[0].name, "en0");
    assert_eq!(stats[0].rx_packets, 123456);
    assert_eq!(stats[0].rx_errors, 1);
    assert_eq!(stats[0].rx_bytes, 123456789);
    assert_eq!(stats[0].tx_packets, 654321);
    assert_eq!(stats[0].tx_errors, 2);
    assert_eq!(stats[0].tx_bytes, 987654321);
    assert_eq!(stats[0].rx_drops, 0);
    assert_eq!(stats[0].tx_drops, 0);

    // A row without an address column has only ten words and is dropped.
    assert!(stats.iter().all(|s| s.name != "utun0"));
}

#[test]
fn netstat_line_filters() {
    assert!(parse_netstat_line("en0 1500 <Link#6> a 1 0 5 1 0 5").is_none());
    assert!(parse_netstat_line("stf0 1280 <Link#3> a 1 0 5 1 0 5 0").is_none());
    assert!(parse_netstat_line("en2 1500 10.0.0 a 1 0 5 1 0 5 0").is_none());
    assert!(parse_netstat_line("en2 1500 <Link#4> a 1 0 5 1 0 5 0").is_some());
    assert!(parse_netstat_line("en2 1500 <Link#4> a 1 0 0 1 0 0 0").is_none());
    assert!(parse_netstat_ib("").is_empty());
}

#[test]
fn load_ticks_sum_per_core() {
    let ticks = [10u64, 20, 30, 40, 1, 2, 3, 4, 99];
    let (total, cores) = cpu_stats_from_load_ticks(&ticks);
    assert_eq!(cores.len(), 2);
    assert_eq!(cores[0].user, 10);
    assert_eq!(cores[0].system, 20);
    assert_eq!(cores[0].idle, 30);
    assert_eq!(cores[0].nice, 40);
    assert_eq!(cores[1].nice, 4);
    assert_eq!(cores[1].iowait, 0);
    assert_eq!(total.user, 11);
    assert_eq!(total.system, 22);
    assert_eq!(total.idle, 33);
    assert_eq!(total.nice, 44);
    assert_eq!(total.steal, 0);
    let (empty_total, empty_cores) = cpu_stats_from_load_ticks(&[]);
    assert!(empty_cores.is_empty());
    assert_eq!(empty_total.user, 0);
}

#[test]
fn newline_mask_looks_at_the_first_64_bytes() {
    let mut bytes = vec![b'a'; 100];
    bytes[3] = b'\n';
    bytes[63] = b'\n';
    bytes[64] = b'\n';
    bytes[99] = b'\n';
    assert_eq!(simd_find_newlines(&bytes), (1u64 << 3) | (1u64 << 63));
}

#[test]
fn fill_rect_with_far_edges_past_u32() {
    let mut fb = Framebuffer::new(8, 8).unwrap();
    fb.fill_rect(6, 7, u32::MAX, u32::MAX, Rgba::RED());
    assert_eq!(fb.get_pixel(6, 7), Some(Rgba::RED()));
    assert_eq!(fb.get_pixel(7, 7), Some(Rgba::RED()));
    assert_eq!(fb.get_pixel(5, 7), Some(Rgba::TRANSPARENT()));
    assert_eq!(fb.get_pixel(6, 6), Some(Rgba::TRANSPARENT()));
    fb.fill_rect(u32::MAX, 0, u32::MAX, 8, Rgba::BLUE());
    assert_eq!(fb.get_pixel(7, 0), Some(Rgba::TRANSPARENT()));
}

#[test]
fn alignment_test_on_addresses() {
    assert!(is_simd_aligned_at(0, 0));
    assert!(is_simd_aligned_at(128, 0));
    assert!(is_simd_aligned_at(130, 62));
    assert!(!is_simd_aligned_at(130, 0));
    assert!(!is_simd_aligned_at(63, 2));
}

#[test]
fn framebuffers_start_on_a_64_byte_boundary() {
    for (w, h) in [(1u32, 1u32), (3, 7), (17, 5), (100, 100)] {
        let fb = Framebuffer::new(w, h).unwrap();
        assert!(fb.is_aligned());
        assert_eq!(fb.pixels().as_ptr() as usize % 64, 0);
        let copy = fb.clone();
        assert!(copy.is_aligned());
        assert_eq!(copy.pixels(), fb.pixels());
    }
}

#[test]
fn meminfo_tolerates_carriage_returns() {
    // `\r` ends a line before `\n` and is white space inside a line.
    let info = parse_meminfo_content("MemTotal: 100 kB\r\nMemFree: 40 kB\r\nBuffers: 7\r");
    assert_eq!(info.total, 100 * 1024);
    assert_eq!(info.free, 40 * 1024);
    assert_eq!(info.buffers, 7 * 1024);
}

#[test]
fn number_words_follow_the_standard_parser() {
    assert_eq!(parse_u32("0"), Some(0));
    assert_eq!(parse_u32("007"), Some(7));
    assert_eq!(parse_u32("+"), None);
    assert_eq!(parse_u32("++1"), None);
    assert_eq!(parse_u32("12a"), None);
    assert_eq!(parse_u32(" 12"), None);
    assert_eq!(parse_u32("99999999999999999999999"), None);
    for n in [0u32, 9, 10, 99, 100, 65535, 4000000000] {
        assert_eq!(parse_u32(&n.to_string()), Some(n));
    }
}

#[test]
fn default_color_is_transparent_black() {
    assert_eq!(Rgba::default(), Rgba::new(0, 0, 0, 0));
    assert_eq!(Rgba::default(), Rgba::TRANSPARENT());
}

const DF_K_OUTPUT: &str = "Filesystem     1024-blocks      Used Available Capacity  Mounted on\n\
/dev/disk3s1s1   971350180  10216168 490458036     3%    /\n\
devfs                  210       210         0   100%    /dev\n\
/dev/disk3s6     971350180   1048600 490458036     1%    /System/Volumes/VM\n\
/dev/disk3s2     971350180   4914104 490458036     2%    /System/Volumes/Preboot\n\
/dev/disk3s5     971350180 464510332 490458036    49%    /Users/me/My Volume\n\
/dev/sda1              100       abc        20     1%    /mnt/usb\n\
/dev/disk1s2        512000     20000    480000     5%\n";

#[test]
fn df_k_keeps_dev_volumes_outside_the_system() {
    let mounts = parse_df_k_output(DF_K_OUTPUT);
    assert_eq!(mounts.len(), 3);
    assert_eq!(mounts[0].device, "/dev/disk3s1s1");
    assert_eq!(mounts[0].mount_point, "/");
    assert_eq!(mounts[0].fs_type, "apfs");
    assert_eq!(mounts[0].total_bytes, 971350180 * 1024);
    assert_eq!(mounts[0].used_bytes, 10216168 * 1024);
    assert_eq!(mounts[0].available_bytes, 490458036 * 1024);
    // The mount point is the last word.
    assert_eq!(mounts[1].mount_point, "Volume");
    assert_eq!(mounts[2].device, "/dev/sda1");
    assert_eq!(mounts[2].fs_type, "unknown");
    assert_eq!(mounts[2].used_bytes, 0);
    assert_eq!(mounts[2].available_bytes, 20 * 1024);
    assert!(parse_df_k_line("/dev/disk1s2 512000 20000 480000 5%").is_none());
    assert!(parse_df_k_output("").is_empty());
}
