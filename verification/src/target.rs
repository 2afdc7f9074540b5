//! Resolution of the configured process target: a single PID, an explicit
//! PID list, or a live regular-expression scan over the process table.
//!
//! The regular expression itself is the `regex` crate's; what this module
//! proves is everything around it: which candidates are tested with which
//! bytes, how the match outcome selects PIDs, and that the informational
//! match log can fire at most once per cooldown window.

use vstd::prelude::*;

use crate::settings::segments;
use crate::text::{all_digits, parse_i32, parse_i32_bytes, trim, trim_slice};

verus! {

// ---------------------------------------------------------------------------
// The compiled regular expression (trusted boundary)
// ---------------------------------------------------------------------------

#[verifier::external_type_specification]
#[verifier::external_body]
pub struct ExRegex(regex::bytes::Regex);

/// The pattern a compiled regular expression was built from, as UTF-8
/// bytes: what `as_str` reports, and the sole input (besides the haystack)
/// its matching depends on.
pub uninterp spec fn regex_pattern_of(re: regex::bytes::Regex) -> Seq<u8>;

/// Whether `pattern` matches anywhere in `haystack`.
pub uninterp spec fn regex_match(pattern: Seq<u8>, haystack: Seq<u8>) -> bool;

/// Relies on `regex::bytes::Regex::new`: a successfully compiled regex
/// holds exactly the pattern string it was built from (what `as_str`
/// returns), here encoded as UTF-8 bytes.  A pattern that is not valid
/// UTF-8 or does not compile yields nothing.
#[verifier::external_body]
fn regex_new(pat: &[u8]) -> (r: Option<regex::bytes::Regex>)
    ensures
        r matches Some(re) ==> regex_pattern_of(re) == pat@,
{
    match std::str::from_utf8(pat) {
        Ok(s) => regex::bytes::Regex::new(s).ok(),
        Err(_) => None,
    }
}

/// Relies on `regex::bytes::Regex::is_match`: true iff the pattern matches
/// somewhere in the haystack, a pure function of the compiled pattern and
/// the haystack bytes.
#[verifier::external_body]
fn regex_is_match(re: &regex::bytes::Regex, haystack: &[u8]) -> (r: bool)
    ensures
        r == regex_match(regex_pattern_of(*re), haystack@),
{
    re.is_match(haystack)
}

// ---------------------------------------------------------------------------
// The target specification
// ---------------------------------------------------------------------------

/// The resolved target, fixed at startup: one PID, an explicit list, or a
/// pattern matched against live processes every cycle.
#[derive(Debug)]
pub enum ProcessTarget {
    Single(i32),
    PidList(Vec<i32>),
    Regex(regex::bytes::Regex),
}

/// Why a target specification was rejected at startup.
#[derive(Debug, Clone, Copy, PartialEq, Eq, Structural)]
pub enum TargetError {
    InvalidPid,
    InvalidPidList,
    InvalidRegex,
}

/// Whether a configuration value is present and not just whitespace.
pub open spec fn configured(o: Option<&[u8]>) -> bool {
    match o {
        Some(s) => trim(s@).len() > 0,
        None => false,
    }
}

/// The PIDs a comma-separated list denotes, from segment `i` on: blank
/// segments are skipped, any unreadable one spoils the whole list.
pub open spec fn pid_list_from(segs: Seq<Seq<u8>>, i: int) -> Option<Seq<i32>>
    decreases segs.len() - i,
{
    if !(0 <= i < segs.len()) {
        Some(Seq::empty())
    } else {
        let t = trim(segs[i]);
        if t.len() == 0 {
            pid_list_from(segs, i + 1)
        } else {
            match parse_i32(t) {
                Some(p) => match pid_list_from(segs, i + 1) {
                    Some(rest) => Some(seq![p] + rest),
                    None => None,
                },
                None => None,
            }
        }
    }
}

pub open spec fn pid_list_of(s: Seq<u8>) -> Option<Seq<i32>> {
    pid_list_from(segments(s), 0)
}

/// Reads a comma-separated PID list; nothing when any entry is unreadable.
pub fn parse_pid_list(s: &[u8]) -> (r: Option<Vec<i32>>)
    ensures
        match r {
            Some(v) => pid_list_of(s@) == Some(v@),
            None => pid_list_of(s@) is None,
        },
{
    let segs = crate::settings::split_commas(s);
    let ghost sv = segments(s@);
    let mut acc: Vec<i32> = Vec::new();
    let mut i: usize = 0;
    while i < segs.len()
        invariant
            i <= segs@.len(),
            crate::text::views_of(segs@) == sv,
            sv == segments(s@),
            pid_list_from(sv, 0) == (match pid_list_from(sv, i as int) {
                Some(rest) => Some(acc@ + rest),
                None => None::<Seq<i32>>,
            }),
        decreases segs@.len() - i,
    {
        proof {
            assert(crate::text::views_of(segs@)[i as int] == segs@[i as int]@);
        }
        let t = trim_slice(segs[i].as_slice());
        if t.len() > 0 {
            match parse_i32_bytes(t) {
                Some(p) => {
                    let ghost prev = acc@;
                    acc.push(p);
                    proof {
                        assert(prev + (seq![p] + match pid_list_from(sv, i + 1) {
                            Some(rest) => rest,
                            None => Seq::empty(),
                        }) =~= acc@ + match pid_list_from(sv, i + 1) {
                            Some(rest) => rest,
                            None => Seq::empty(),
                        });
                    }
                },
                None => {
                    return None;
                },
            }
        }
        i += 1;
    }
    proof {
        assert(acc@ + Seq::<i32>::empty() =~= acc@);
    }
    Some(acc)
}

/// Picks the process target from the three configuration values, in their
/// order of precedence: a single PID, then the PID list, then the pattern.
/// An unreadable value of the winning kind is fatal; a list that comes out
/// empty disables process metrics rather than failing.
pub fn select_process_target(
    pid: Option<&[u8]>,
    list: Option<&[u8]>,
    regexp: Option<&[u8]>,
) -> (r: Result<Option<ProcessTarget>, TargetError>)
    ensures
        configured(pid) ==> (pid matches Some(ps) && match parse_i32(ps@) {
            Some(p) => r matches Ok(Some(ProcessTarget::Single(q))) && q == p,
            None => r == Err::<Option<ProcessTarget>, TargetError>(TargetError::InvalidPid),
        }),
        !configured(pid) && configured(list) ==> (list matches Some(ls) && match pid_list_of(
            ls@,
        ) {
            Some(pids) => if pids.len() == 0 {
                r matches Ok(None)
            } else {
                r matches Ok(Some(ProcessTarget::PidList(v))) && v@ == pids
            },
            None => r == Err::<Option<ProcessTarget>, TargetError>(TargetError::InvalidPidList),
        }),
        !configured(pid) && !configured(list) && configured(regexp) ==> (regexp matches Some(rs)
            && match r {
            Ok(Some(ProcessTarget::Regex(re))) => regex_pattern_of(re) == rs@,
            Err(e) => e == TargetError::InvalidRegex,
            _ => false,
        }),
        !configured(pid) && !configured(list) && !configured(regexp) ==> r matches Ok(None),
{
    let pid_set = match pid {
        Some(s) => trim_slice(s).len() > 0,
        None => false,
    };
    let list_set = match list {
        Some(s) => trim_slice(s).len() > 0,
        None => false,
    };
    let regexp_set = match regexp {
        Some(s) => trim_slice(s).len() > 0,
        None => false,
    };
    if pid_set {
        match parse_i32_bytes(pid.unwrap()) {
            Some(p) => Ok(Some(ProcessTarget::Single(p))),
            None => Err(TargetError::InvalidPid),
        }
    } else if list_set {
        match parse_pid_list(list.unwrap()) {
            Some(v) => if v.len() == 0 {
                Ok(None)
            } else {
                Ok(Some(ProcessTarget::PidList(v)))
            },
            None => Err(TargetError::InvalidPidList),
        }
    } else if regexp_set {
        match regex_new(regexp.unwrap()) {
            Some(re) => Ok(Some(ProcessTarget::Regex(re))),
            None => Err(TargetError::InvalidRegex),
        }
    } else {
        Ok(None)
    }
}

// ---------------------------------------------------------------------------
// Candidate matching
// ---------------------------------------------------------------------------

/// A command line's NUL separators shown as spaces.
pub open spec fn nul_to_space(s: Seq<u8>) -> Seq<u8> {
    s.map_values(|b: u8| if b == 0 { 32u8 } else { b })
}

/// Replaces NUL bytes with spaces.
pub fn replace_nul(s: &[u8]) -> (r: Vec<u8>)
    ensures
        r@ == nul_to_space(s@),
{
    let mut r: Vec<u8> = Vec::new();
    let mut i: usize = 0;
    while i < s.len()
        invariant
            i <= s@.len(),
            r@.len() == i,
            forall|j: int| 0 <= j < i ==> r@[j] == nul_to_space(s@)[j],
        decreases s@.len() - i,
    {
        let b = s[i];
        if b == 0 {
            r.push(32);
        } else {
            r.push(b);
        }
        i += 1;
    }
    proof {
        assert(r@ =~= nul_to_space(s@));
    }
    r
}

/// Whether a candidate process matches the pattern: first its command line
/// with NUL bytes as spaces, and — for processes whose command line gives no
/// match, such as kernel threads with an empty one — its trimmed `comm`
/// name as the fallback.
pub open spec fn candidate_matches_pat(pat: Seq<u8>, cmdline: Seq<u8>, comm: Seq<u8>) -> bool {
    regex_match(pat, nul_to_space(cmdline)) || regex_match(pat, trim(comm))
}

/// Tests one candidate against the pattern.
pub fn candidate_matches(re: &regex::bytes::Regex, cmdline: &[u8], comm: &[u8]) -> (r: bool)
    ensures
        r == candidate_matches_pat(regex_pattern_of(*re), cmdline@, comm@),
{
    let pretty = replace_nul(cmdline);
    if regex_is_match(re, pretty.as_slice()) {
        true
    } else {
        regex_is_match(re, trim_slice(comm))
    }
}

// ---------------------------------------------------------------------------
// Selection over the scanned process table
// ---------------------------------------------------------------------------

/// One process-table entry as the scanner hands it over: the directory
/// name, the raw command line, and the `comm` name.
pub struct ProcEntry {
    pub name: Vec<u8>,
    pub cmdline: Vec<u8>,
    pub comm: Vec<u8>,
}

/// The PID a directory name denotes: only purely numeric names count, and
/// only when the number fits a PID.
pub open spec fn numeric_pid(name: Seq<u8>) -> Option<i32> {
    if all_digits(name) {
        parse_i32(name)
    } else {
        None
    }
}

/// Reads a directory name as a candidate PID.
pub fn numeric_pid_of(name: &[u8]) -> (r: Option<i32>)
    ensures
        r == numeric_pid(name@),
{
    let mut i: usize = 0;
    while i < name.len()
        invariant
            i <= name@.len(),
            forall|j: int| 0 <= j < i ==> crate::text::is_digit(#[trigger] name@[j]),
        decreases name@.len() - i,
    {
        let b = name[i];
        if !(48 <= b && b <= 57) {
            proof {
                assert(!crate::text::is_digit(name@[i as int]));
            }
            return None;
        }
        i += 1;
    }
    parse_i32_bytes(name)
}

/// The PIDs selected from the entries from `i` on: every entry with a
/// numeric name whose candidate matches the pattern, in table order.
pub open spec fn selected_pids_from(es: Seq<ProcEntry>, pat: Seq<u8>, i: int) -> Seq<i32>
    decreases es.len() - i,
{
    if !(0 <= i < es.len()) {
        Seq::empty()
    } else {
        match numeric_pid(es[i].name@) {
            Some(p) => if candidate_matches_pat(pat, es[i].cmdline@, es[i].comm@) {
                seq![p] + selected_pids_from(es, pat, i + 1)
            } else {
                selected_pids_from(es, pat, i + 1)
            },
            None => selected_pids_from(es, pat, i + 1),
        }
    }
}

pub open spec fn selected_pids(es: Seq<ProcEntry>, pat: Seq<u8>) -> Seq<i32> {
    selected_pids_from(es, pat, 0)
}

/// Scans the entries and selects the PIDs whose candidate matches.  An
/// entry that is not a numeric directory contributes nothing; a process
/// that vanished mid-scan simply arrives with empty texts and is judged
/// like any other.
pub fn select_matching_pids(entries: &Vec<ProcEntry>, re: &regex::bytes::Regex) -> (r: Vec<i32>)
    ensures
        r@ == selected_pids(entries@, regex_pattern_of(*re)),
{
    let ghost pat = regex_pattern_of(*re);
    let mut r: Vec<i32> = Vec::new();
    let mut i: usize = 0;
    while i < entries.len()
        invariant
            i <= entries@.len(),
            pat == regex_pattern_of(*re),
            selected_pids(entries@, pat) == r@ + selected_pids_from(entries@, pat, i as int),
        decreases entries@.len() - i,
    {
        let e = &entries[i];
        match numeric_pid_of(e.name.as_slice()) {
            Some(p) => {
                if candidate_matches(re, e.cmdline.as_slice(), e.comm.as_slice()) {
                    let ghost prev = r@;
                    r.push(p);
                    proof {
                        assert(prev + (seq![p] + selected_pids_from(entries@, pat, i + 1)) =~= r@
                            + selected_pids_from(entries@, pat, i + 1));
                    }
                }
            },
            None => {
            },
        }
        i += 1;
    }
    proof {
        assert(r@ + Seq::<i32>::empty() =~= r@);
    }
    r
}

/// Resolves the target to the PID set of this cycle: a single PID is that
/// PID, a list is taken verbatim, and a pattern selects from the scanned
/// entries.
pub fn resolve_pids(target: &ProcessTarget, entries: &Vec<ProcEntry>) -> (r: Vec<i32>)
    ensures
        (*target) matches ProcessTarget::Single(p) ==> r@ == seq![p],
        (*target) matches ProcessTarget::PidList(v) ==> r@ == v@,
        (*target) matches ProcessTarget::Regex(re) ==> r@ == selected_pids(
            entries@,
            regex_pattern_of(re),
        ),
{
    match target {
        ProcessTarget::Single(p) => {
            let mut r: Vec<i32> = Vec::new();
            r.push(*p);
            proof {
                assert(r@ =~= seq![*p]);
            }
            r
        },
        ProcessTarget::PidList(v) => {
            let mut r: Vec<i32> = Vec::new();
            let mut i: usize = 0;
            while i < v.len()
                invariant
                    i <= v@.len(),
                    r@ == v@.subrange(0, i as int),
                decreases v@.len() - i,
            {
                r.push(v[i]);
                proof {
                    assert(v@.subrange(0, i + 1) =~= v@.subrange(0, i as int).push(v@[i as int]));
                }
                i += 1;
            }
            proof {
                assert(v@.subrange(0, v@.len() as int) =~= v@);
            }
            r
        },
        ProcessTarget::Regex(re) => select_matching_pids(entries, re),
    }
}

// ---------------------------------------------------------------------------
// The match-log throttle
// ---------------------------------------------------------------------------

/// How long the informational match log stays quiet after firing.
pub const REGEX_LOG_COOLDOWN_SECS: u64 = 300;

/// Whether a log decision at `now` fires given the last firing time.
pub open spec fn throttle_fires(last: Option<u64>, now: u64) -> bool {
    match last {
        None => true,
        Some(t) => now >= t + REGEX_LOG_COOLDOWN_SECS,
    }
}

/// The shared last-emitted timestamp of the match log.  The regex scan runs
/// every cycle; without this, a short refresh interval would flood the log.
pub struct LogThrottle {
    last: Option<u64>,
}

impl LogThrottle {
    /// The last time the log fired.
    pub closed spec fn spec_last(&self) -> Option<u64> {
        self.last
    }

    /// A throttle that has never fired.
    pub fn new() -> (r: LogThrottle)
        ensures
            r.spec_last() is None,
    {
        LogThrottle { last: None }
    }
}

/// Decides whether the informational match log may fire at `now` (seconds
/// on a monotonic clock): yes when it never fired, or when the cooldown has
/// passed since it last did; firing records `now`.
pub fn should_log_regex_match(th: &mut LogThrottle, now: u64) -> (r: bool)
    ensures
        r == throttle_fires(old(th).spec_last(), now),
        final(th).spec_last() == (if r {
            Some(now)
        } else {
            old(th).spec_last()
        }),
{
    let fire = match th.last {
        None => true,
        Some(t) => now >= t && now - t >= REGEX_LOG_COOLDOWN_SECS,
    };
    if fire {
        th.last = Some(now);
    }
    fire
}

/// The throttle's last-fired time after a run of decisions at the given
/// times.
pub open spec fn throttle_last_after(last0: Option<u64>, times: Seq<u64>) -> Option<u64>
    decreases times.len(),
{
    if times.len() == 0 {
        last0
    } else {
        let prev = throttle_last_after(last0, times.drop_last());
        if throttle_fires(prev, times.last()) {
            Some(times.last())
        } else {
            prev
        }
    }
}

/// Whether the `k`-th decision of a run fires.
pub open spec fn throttle_fires_at(last0: Option<u64>, times: Seq<u64>, k: int) -> bool {
    throttle_fires(throttle_last_after(last0, times.subrange(0, k)), times[k])
}

proof fn lemma_throttle_last_ge(last0: Option<u64>, times: Seq<u64>, i: int, k: int)
    requires
        0 <= i < k <= times.len(),
        forall|a: int, b: int| 0 <= a <= b < times.len() ==> times[a] <= times[b],
        throttle_fires_at(last0, times, i),
    ensures
        throttle_last_after(last0, times.subrange(0, k)) matches Some(t) && t >= times[i],
    decreases k,
{
    if k == i + 1 {
        assert(times.subrange(0, k).drop_last() =~= times.subrange(0, i));
        assert(times.subrange(0, k).last() == times[i]);
    } else {
        lemma_throttle_last_ge(last0, times, i, k - 1);
        assert(times.subrange(0, k).drop_last() =~= times.subrange(0, k - 1));
        assert(times.subrange(0, k).last() == times[k - 1]);
    }
}

/// However often the scan runs, the informational match log fires at most
/// once within any window shorter than the cooldown: any two firing
/// decisions of one run over a nondecreasing clock lie at least the
/// cooldown apart.
pub proof fn lemma_throttle_min_gap(last0: Option<u64>, times: Seq<u64>, i: int, j: int)
    requires
        0 <= i < j < times.len(),
        forall|a: int, b: int| 0 <= a <= b < times.len() ==> times[a] <= times[b],
        throttle_fires_at(last0, times, i),
        throttle_fires_at(last0, times, j),
    ensures
        times[j] >= times[i] + REGEX_LOG_COOLDOWN_SECS,
{
    lemma_throttle_last_ge(last0, times, i, j);
}

} // verus!
