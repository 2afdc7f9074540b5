use podmon::host::{parse_btime, parse_host_cpu, parse_host_memory};
use podmon::net::net_snapshot;

#[test]
fn aggregate_cpu_line_is_found_and_split() {
    let text = b"intr 1 2 3\ncpu  100 20 30 4000 50 6 7 8 9 10\ncpu0 50 10 15 2000 25 3 3 4 4 5\n";
    let c = parse_host_cpu(text).unwrap();
    assert_eq!(c.user, 100);
    assert_eq!(c.nice, 20);
    assert_eq!(c.system, 30);
    assert_eq!(c.idle, 4000);
    assert_eq!(c.iowait, 50);
    assert_eq!(c.irq, 6);
    assert_eq!(c.softirq, 7);
    assert_eq!(c.steal, 8);
    assert_eq!(c.guest, 9);
    assert_eq!(c.guest_nice, 10);
}

#[test]
fn missing_trailing_modes_read_zero() {
    let c = parse_host_cpu(b"cpu  100 20 30 4000\n").unwrap();
    assert_eq!(c.idle, 4000);
    assert_eq!(c.iowait, 0);
    assert_eq!(c.guest_nice, 0);
}

#[test]
fn per_core_lines_alone_are_no_aggregate() {
    assert_eq!(parse_host_cpu(b"cpu0 1 2 3 4\ncpu1 1 2 3 4\n"), None);
    assert_eq!(parse_host_cpu(b""), None);
}

#[test]
fn boot_time_is_read_from_its_line() {
    let text = b"cpu  1 2 3\nbtime 1700000000\nprocesses 4242\n";
    assert_eq!(parse_btime(text), 1700000000);
    assert_eq!(parse_btime(b"processes 4242\n"), 0);
    assert_eq!(parse_btime(b"btime soon\n"), 0);
}

#[test]
fn meminfo_keys_scale_to_bytes() {
    let text = b"MemTotal:       16384 kB\nMemFree:         1024 kB\nMemAvailable:    2048 kB\nBuffers:          100 kB\nCached:           300 kB\nSwapTotal:       4096 kB\nSwapFree:        4000 kB\n";
    let m = parse_host_memory(text);
    assert_eq!(m.total_bytes, 16384 * 1024);
    assert_eq!(m.free_bytes, 1024 * 1024);
    assert_eq!(m.available_bytes, 2048 * 1024);
    assert_eq!(m.buffers_bytes, 100 * 1024);
    assert_eq!(m.cached_bytes, 300 * 1024);
    assert_eq!(m.swap_total_bytes, 4096 * 1024);
    assert_eq!(m.swap_free_bytes, 4000 * 1024);
}

#[test]
fn absent_meminfo_key_reads_zero_this_cycle() {
    let m = parse_host_memory(b"MemTotal: 100 kB\n");
    assert_eq!(m.total_bytes, 100 * 1024);
    assert_eq!(m.available_bytes, 0);
    assert_eq!(m.swap_total_bytes, 0);
}

#[test]
fn missing_interface_is_a_silent_noop() {
    let snap = net_snapshot(
        b"does-not-exist",
        false,
        Some(b"1"),
        Some(b"2"),
        None,
        None,
        None,
        None,
        None,
        None,
    );
    assert_eq!(snap.rx_bytes, None);
    assert_eq!(snap.tx_bytes, None);
    assert_eq!(snap.rx_packets, None);
    assert_eq!(snap.tx_packets, None);
    assert_eq!(snap.rx_errors, None);
    assert_eq!(snap.tx_errors, None);
    assert_eq!(snap.rx_dropped, None);
    assert_eq!(snap.tx_dropped, None);
}

#[test]
fn empty_interface_name_disables_monitoring() {
    let snap = net_snapshot(b"", true, Some(b"1"), None, None, None, None, None, None, None);
    assert_eq!(snap.rx_bytes, None);
}

#[test]
fn present_interface_reads_its_counters() {
    let snap = net_snapshot(
        b"eth0",
        true,
        Some(b"123\n"),
        Some(b" 456 "),
        Some(b"7"),
        None,
        Some(b"oops"),
        Some(b"0"),
        None,
        Some(b"9"),
    );
    assert_eq!(snap.rx_bytes, Some(123));
    assert_eq!(snap.tx_bytes, Some(456));
    assert_eq!(snap.rx_packets, Some(7));
    assert_eq!(snap.tx_packets, None);
    assert_eq!(snap.rx_errors, None);
    assert_eq!(snap.tx_errors, Some(0));
    assert_eq!(snap.rx_dropped, None);
    assert_eq!(snap.tx_dropped, Some(9));
}
