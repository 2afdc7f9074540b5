use podmon::aggregate::{aggregate, AggregatedSample};
use podmon::proc::{grab_kb, parse_stat_ticks, proc_sample, ProcSample};

fn stat_line(utime: u64, stime: u64, starttime: u64) -> Vec<u8> {
    // Fields 14, 15 and 22 of the flat accounting file (proc(5)).
    let line = format!(
        "1234 (worker) S 1 1234 1234 0 -1 4194304 500 0 0 0 {} {} 3 1 20 0 1 0 {} 176128000 1000 18446744073709551615",
        utime, stime, starttime
    );
    line.into_bytes()
}

fn zero_sample() -> ProcSample {
    proc_sample(b"", b"", b"", 0, 100)
}

#[test]
fn stat_positions_are_read() {
    assert_eq!(parse_stat_ticks(&stat_line(100, 50, 7777)), Some((100, 50, 7777)));
}

#[test]
fn short_stat_yields_nothing() {
    assert_eq!(parse_stat_ticks(b"1234 (worker) S 1"), None);
}

#[test]
fn grab_kb_reads_the_figure() {
    assert_eq!(grab_kb(b"VmRSS:\t    2048 kB"), 2048);
    assert_eq!(grab_kb(b"VmRSS:"), 0);
    assert_eq!(grab_kb(b"VmRSS: lots kB"), 0);
}

#[test]
fn sample_combines_the_three_files() {
    let status = b"Name:\tworker\nVmSize:\t  300 kB\nVmRSS:\t  200 kB\nVmSwap:\t  10 kB\n";
    let io = b"rchar: 100\nwchar: 200\nsyscr: 3\nsyscw: 4\nread_bytes: 500\nwrite_bytes: 600\ncancelled_write_bytes: 7\n";
    let s = proc_sample(&stat_line(100, 50, 7777), status, io, 1000, 100);
    assert_eq!(s.cpu_user_ticks, 100);
    assert_eq!(s.cpu_system_ticks, 50);
    // 1000 s boot time + 7777 ticks at 100 ticks/s.
    assert_eq!(s.start_time, Some(1077));
    assert_eq!(s.mem_rss_bytes, 200 * 1024);
    assert_eq!(s.mem_vms_bytes, 300 * 1024);
    assert_eq!(s.mem_swap_bytes, 10 * 1024);
    assert_eq!(s.io_rchar, 100);
    assert_eq!(s.io_wchar, 200);
    assert_eq!(s.io_syscr, 3);
    assert_eq!(s.io_syscw, 4);
    assert_eq!(s.io_read_bytes, 500);
    assert_eq!(s.io_write_bytes, 600);
    assert_eq!(s.io_cancelled_write_bytes, 7);
}

#[test]
fn unreadable_io_file_reads_as_zeroes() {
    let s = proc_sample(&stat_line(1, 1, 1), b"VmRSS: 5 kB", b"", 0, 100);
    assert_eq!(s.io_rchar, 0);
    assert_eq!(s.io_write_bytes, 0);
    assert_eq!(s.mem_rss_bytes, 5 * 1024);
}

#[test]
fn empty_pid_set_aggregates_to_all_zero() {
    let r = aggregate(&vec![], 123456);
    assert_eq!(
        r,
        AggregatedSample {
            cpu_user_ticks: 0,
            cpu_system_ticks: 0,
            mem_rss_bytes: 0,
            mem_vms_bytes: 0,
            mem_swap_bytes: 0,
            io_rchar: 0,
            io_wchar: 0,
            io_syscr: 0,
            io_syscw: 0,
            io_read_bytes: 0,
            io_write_bytes: 0,
            io_cancelled_write_bytes: 0,
            start_time: 0,
            uptime: 0,
        }
    );
}

#[test]
fn oldest_start_time_wins() {
    let mut a = zero_sample();
    a.start_time = Some(100);
    let mut b = zero_sample();
    b.start_time = Some(50);
    let r = aggregate(&vec![a, b], 1000);
    assert_eq!(r.start_time, 50);
    assert_eq!(r.uptime, 1000 - 50);
}

#[test]
fn members_without_start_time_do_not_count_for_it() {
    let mut a = zero_sample();
    a.start_time = Some(100);
    let b = zero_sample();
    let r = aggregate(&vec![b, a], 400);
    assert_eq!(r.start_time, 100);
    assert_eq!(r.uptime, 300);
}

#[test]
fn counters_sum_elementwise() {
    let mut a = zero_sample();
    a.cpu_user_ticks = 10;
    a.io_rchar = 5;
    a.mem_rss_bytes = 100;
    let mut b = zero_sample();
    b.cpu_user_ticks = 7;
    b.io_rchar = 3;
    b.mem_rss_bytes = 200;
    let r = aggregate(&vec![a, b], 0);
    assert_eq!(r.cpu_user_ticks, 17);
    assert_eq!(r.io_rchar, 8);
    assert_eq!(r.mem_rss_bytes, 300);
}

#[test]
fn sums_clamp_instead_of_wrapping() {
    let mut a = zero_sample();
    a.io_wchar = u64::MAX;
    let mut b = zero_sample();
    b.io_wchar = 5;
    let r = aggregate(&vec![a, b], 0);
    assert_eq!(r.io_wchar, u64::MAX);
}
