use podmon::cgroup::{
    cgroup_snapshot, parse_cpu_limit, parse_cpu_stat, parse_mem_events, parse_mem_value, CpuLimit,
    LimitValue,
};

#[test]
fn cpu_limit_max_is_unlimited() {
    assert_eq!(parse_cpu_limit(b"max 100000"), Some(CpuLimit::Unlimited));
}

#[test]
fn cpu_limit_max_with_odd_period_is_still_unlimited() {
    assert_eq!(parse_cpu_limit(b"max 0"), Some(CpuLimit::Unlimited));
}

#[test]
fn cpu_limit_half_core() {
    let r = parse_cpu_limit(b"50000 100000");
    assert_eq!(
        r,
        Some(CpuLimit::Cores {
            quota: 50000,
            period: 100000
        })
    );
    match r.unwrap() {
        CpuLimit::Cores { quota, period } => {
            assert_eq!(quota as f64 / period as f64, 0.5);
        }
        CpuLimit::Unlimited => panic!("expected a finite limit"),
    }
}

#[test]
fn cpu_limit_zero_period_is_ignored() {
    assert_eq!(parse_cpu_limit(b"50000 0"), None);
}

#[test]
fn cpu_limit_single_token_is_ignored() {
    assert_eq!(parse_cpu_limit(b"100000"), None);
}

#[test]
fn cpu_limit_malformed_quota_is_ignored() {
    assert_eq!(parse_cpu_limit(b"abc 100000"), None);
}

#[test]
fn cpu_stat_reads_all_keys() {
    let text = b"usage_usec 1000000\nuser_usec 600000\nsystem_usec 400000\nnr_periods 7\nnr_throttled 2\nthrottled_usec 1234\n";
    let s = parse_cpu_stat(text);
    assert_eq!(s.usage_usec, Some(1000000));
    assert_eq!(s.user_usec, Some(600000));
    assert_eq!(s.system_usec, Some(400000));
    assert_eq!(s.nr_periods, Some(7));
    assert_eq!(s.nr_throttled, Some(2));
    assert_eq!(s.throttled_usec, Some(1234));
}

#[test]
fn cpu_stat_missing_key_stays_unobserved() {
    let s = parse_cpu_stat(b"usage_usec 5\n");
    assert_eq!(s.usage_usec, Some(5));
    assert_eq!(s.user_usec, None);
    assert_eq!(s.nr_periods, None);
}

#[test]
fn cpu_stat_malformed_line_does_not_spoil_others() {
    let text = b"usage_usec notanumber\ngarbage line here\nuser_usec 42\n\nsystem_usec 7\n";
    let s = parse_cpu_stat(text);
    // A matching key with an unreadable figure reads as 0, exactly as the
    // kernel-side `unwrap_or(0)` convention has it.
    assert_eq!(s.usage_usec, Some(0));
    assert_eq!(s.user_usec, Some(42));
    assert_eq!(s.system_usec, Some(7));
    assert_eq!(s.nr_periods, None);
}

#[test]
fn cpu_stat_last_occurrence_wins() {
    let s = parse_cpu_stat(b"usage_usec 1\nusage_usec 2\n");
    assert_eq!(s.usage_usec, Some(2));
}

#[test]
fn mem_value_max_is_unlimited() {
    assert_eq!(parse_mem_value(b"max"), Some(LimitValue::Unlimited));
    assert_eq!(parse_mem_value(b"  max\n"), Some(LimitValue::Unlimited));
}

#[test]
fn mem_value_number_is_finite() {
    assert_eq!(parse_mem_value(b"4294967296\n"), Some(LimitValue::Finite(4294967296)));
    assert_eq!(
        parse_mem_value(b"18446744073709551615"),
        Some(LimitValue::Finite(u64::MAX))
    );
}

#[test]
fn mem_value_garbage_is_ignored() {
    assert_eq!(parse_mem_value(b"maximum"), None);
    assert_eq!(parse_mem_value(b""), None);
    assert_eq!(parse_mem_value(b"18446744073709551616"), None);
}

#[test]
fn mem_events_pairs_in_order() {
    let evs = parse_mem_events(b"low 0\nhigh 3\nmax 7\noom 1\noom_kill 1\n");
    let named: Vec<(&[u8], u64)> = evs.iter().map(|e| (e.0.as_slice(), e.1)).collect();
    assert_eq!(
        named,
        vec![
            (&b"low"[..], 0),
            (&b"high"[..], 3),
            (&b"max"[..], 7),
            (&b"oom"[..], 1),
            (&b"oom_kill"[..], 1)
        ]
    );
}

#[test]
fn mem_events_malformed_count_reads_zero() {
    let evs = parse_mem_events(b"oom x\n");
    assert_eq!(evs.len(), 1);
    assert_eq!(evs[0].0.as_slice(), b"oom");
    assert_eq!(evs[0].1, 0);
}

#[test]
fn snapshot_keeps_absent_files_unobserved() {
    let snap = cgroup_snapshot(
        Some(b"usage_usec 9\n"),
        None,
        Some(b"1024"),
        None,
        Some(b"max"),
        None,
        None,
        None,
    );
    assert_eq!(snap.cpu.usage_usec, Some(9));
    assert_eq!(snap.cpu_limit, None);
    assert_eq!(snap.mem_current, Some(LimitValue::Finite(1024)));
    assert_eq!(snap.mem_peak, None);
    assert_eq!(snap.mem_max, Some(LimitValue::Unlimited));
    assert_eq!(snap.mem_high, None);
    assert_eq!(snap.mem_low, None);
    assert!(snap.mem_events.is_empty());
}
