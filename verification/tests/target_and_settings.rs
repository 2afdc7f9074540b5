use podmon::settings::{effective_tick_rate, normalize_prefix, parse_static_labels, update_interval};
use podmon::target::{
    candidate_matches, parse_pid_list, resolve_pids, select_process_target, should_log_regex_match,
    LogThrottle, ProcEntry, ProcessTarget, TargetError,
};

fn entry(name: &[u8], cmdline: &[u8], comm: &[u8]) -> ProcEntry {
    ProcEntry {
        name: name.to_vec(),
        cmdline: cmdline.to_vec(),
        comm: comm.to_vec(),
    }
}

#[test]
fn static_labels_are_parsed_and_trimmed() {
    let pairs = parse_static_labels(b"a=1, b = 2 ,,c,=x, d=");
    let named: Vec<(&[u8], &[u8])> = pairs.iter().map(|p| (p.0.as_slice(), p.1.as_slice())).collect();
    assert_eq!(
        named,
        vec![(&b"a"[..], &b"1"[..]), (&b"b"[..], &b"2"[..]), (&b"d"[..], &b""[..])]
    );
}

#[test]
fn empty_label_string_yields_no_pairs() {
    assert!(parse_static_labels(b"").is_empty());
    assert!(parse_static_labels(b"   ").is_empty());
}

#[test]
fn label_value_may_contain_an_equals_sign() {
    let pairs = parse_static_labels(b"k=a=b");
    assert_eq!(pairs.len(), 1);
    assert_eq!(pairs[0].0.as_slice(), b"k");
    assert_eq!(pairs[0].1.as_slice(), b"a=b");
}

#[test]
fn prefix_is_trimmed_and_loses_trailing_underscores() {
    assert_eq!(normalize_prefix(b" nac_ ").unwrap(), b"nac".to_vec());
    assert_eq!(normalize_prefix(b"a_b__").unwrap(), b"a_b".to_vec());
    assert_eq!(normalize_prefix(b"___"), None);
    assert_eq!(normalize_prefix(b"  "), None);
    assert_eq!(normalize_prefix(b""), None);
}

#[test]
fn interval_defaults_and_floors() {
    assert_eq!(update_interval(None), 5);
    assert_eq!(update_interval(Some(b"abc")), 5);
    assert_eq!(update_interval(Some(b"0")), 1);
    assert_eq!(update_interval(Some(b"30")), 30);
}

#[test]
fn tick_rate_falls_back_to_100() {
    assert_eq!(effective_tick_rate(-1), 100);
    assert_eq!(effective_tick_rate(0), 100);
    assert_eq!(effective_tick_rate(250), 250);
}

#[test]
fn pid_list_skips_blanks_and_rejects_garbage() {
    assert_eq!(parse_pid_list(b"1, 2,,3").unwrap(), vec![1, 2, 3]);
    assert_eq!(parse_pid_list(b" , ,").unwrap(), Vec::<i32>::new());
    assert_eq!(parse_pid_list(b"1,x,3"), None);
}

#[test]
fn single_pid_takes_precedence() {
    let r = select_process_target(Some(b"123"), Some(b"4,5"), Some(b"nginx.*")).unwrap();
    assert!(matches!(r, Some(ProcessTarget::Single(123))));
}

#[test]
fn bad_single_pid_is_fatal() {
    assert_eq!(
        select_process_target(Some(b"12a"), None, None).unwrap_err(),
        TargetError::InvalidPid
    );
}

#[test]
fn pid_list_comes_second() {
    let r = select_process_target(None, Some(b"4,5"), Some(b"nginx.*")).unwrap();
    match r {
        Some(ProcessTarget::PidList(v)) => assert_eq!(v, vec![4, 5]),
        _ => panic!("expected a PID list"),
    }
}

#[test]
fn effectively_empty_pid_list_disables_process_metrics() {
    let r = select_process_target(None, Some(b" , "), None).unwrap();
    assert!(r.is_none());
}

#[test]
fn bad_pid_list_is_fatal() {
    assert_eq!(
        select_process_target(None, Some(b"1,zz"), None).unwrap_err(),
        TargetError::InvalidPidList
    );
}

#[test]
fn invalid_regex_is_fatal() {
    assert_eq!(
        select_process_target(None, None, Some(b"(")).unwrap_err(),
        TargetError::InvalidRegex
    );
}

#[test]
fn nothing_configured_means_no_target() {
    assert!(select_process_target(None, None, None).unwrap().is_none());
    assert!(select_process_target(Some(b"  "), Some(b""), None).unwrap().is_none());
}

#[test]
fn cmdline_matches_and_comm_is_the_fallback() {
    let re = regex::bytes::Regex::new("nginx.*").unwrap();
    // The command line matches directly.
    assert!(candidate_matches(&re, b"nginx: worker", b"other"));
    // An empty command line falls back to the trimmed comm name.
    assert!(candidate_matches(&re, b"", b"nginx\n"));
    // Neither matches.
    assert!(!candidate_matches(&re, b"bash", b"bash\n"));
}

#[test]
fn nul_bytes_read_as_spaces_for_matching() {
    let re = regex::bytes::Regex::new("worker one").unwrap();
    assert!(candidate_matches(&re, b"worker\0one\0", b""));
    // On the raw bytes the NUL would keep the pattern from matching.
    assert!(!re.is_match(b"worker\0one\0"));
}

#[test]
fn regex_target_selects_matching_numeric_entries() {
    let target = select_process_target(None, None, Some(b"nginx.*")).unwrap().unwrap();
    let entries = vec![
        entry(b"101", b"nginx: worker", b"foo"),
        entry(b"102", b"", b"nginx"),
        entry(b"abc", b"nginx: master", b"nginx"),
        entry(b"103", b"bash", b"bash"),
    ];
    let pids = resolve_pids(&target, &entries);
    assert_eq!(pids, vec![101, 102]);
}

#[test]
fn single_and_list_targets_resolve_verbatim() {
    let single = ProcessTarget::Single(7);
    assert_eq!(resolve_pids(&single, &vec![]), vec![7]);
    let list = ProcessTarget::PidList(vec![3, 1, 2]);
    assert_eq!(resolve_pids(&list, &vec![]), vec![3, 1, 2]);
}

#[test]
fn match_log_fires_at_most_once_per_cooldown() {
    let mut th = LogThrottle::new();
    assert!(should_log_regex_match(&mut th, 1000));
    assert!(!should_log_regex_match(&mut th, 1001));
    assert!(!should_log_regex_match(&mut th, 1299));
    assert!(should_log_regex_match(&mut th, 1300));
    assert!(!should_log_regex_match(&mut th, 1300));
    assert!(!should_log_regex_match(&mut th, 1599));
    assert!(should_log_regex_match(&mut th, 1600));
}

#[test]
fn a_fresh_throttle_fires_immediately() {
    let mut th = LogThrottle::new();
    assert!(should_log_regex_match(&mut th, 0));
    assert!(!should_log_regex_match(&mut th, 299));
}
