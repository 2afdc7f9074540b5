//! Interpretation of a cgroup-v2 directory's accounting and limit files.
//!
//! Every function takes a file's raw content; whether a file could be read at
//! all is the caller's knowledge and arrives as an `Option`.  A field parsed
//! from an absent or malformed source stays `None`, so the caller keeps the
//! prior value instead of zeroing it.  The textual sentinel `max` maps to
//! `Unlimited` and never to a finite number.

use vstd::prelude::*;

use crate::text::{
    bytes_eq, kv_last, line_val_or_zero, lines, parse_u64, parse_u64_bytes, scan_kv, split_lines,
    tokenize, tokens, trim, trim_slice, views_of,
};
use vstd::string::StringSliceAdditionalSpecFns;

verus! {

/// A byte or core limit that a cgroup file reports: either a number or the
/// sentinel `max`, meaning no limit at all.
#[derive(Debug, Clone, Copy, PartialEq, Eq)]
pub enum LimitValue {
    Finite(u64),
    Unlimited,
}

/// The CPU limit from `cpu.max`: unlimited, or `quota` microseconds of
/// runtime per `period` microseconds (so `quota / period` cores).
#[derive(Debug, Clone, Copy, PartialEq, Eq)]
pub enum CpuLimit {
    Unlimited,
    Cores { quota: u64, period: u64 },
}

/// The six counters of the CPU accounting file.  A key that does not occur
/// in the file reads as `None` and leaves the previously reported value
/// untouched.
#[derive(Debug, Clone, Copy, PartialEq, Eq)]
pub struct CpuStat {
    pub usage_usec: Option<u64>,
    pub user_usec: Option<u64>,
    pub system_usec: Option<u64>,
    pub nr_periods: Option<u64>,
    pub nr_throttled: Option<u64>,
    pub throttled_usec: Option<u64>,
}

/// What the CPU accounting file's text denotes, key by key.
pub open spec fn cpu_stat_of(text: Seq<u8>) -> CpuStat {
    CpuStat {
        usage_usec: kv_last(lines(text), "usage_usec".spec_bytes()),
        user_usec: kv_last(lines(text), "user_usec".spec_bytes()),
        system_usec: kv_last(lines(text), "system_usec".spec_bytes()),
        nr_periods: kv_last(lines(text), "nr_periods".spec_bytes()),
        nr_throttled: kv_last(lines(text), "nr_throttled".spec_bytes()),
        throttled_usec: kv_last(lines(text), "throttled_usec".spec_bytes()),
    }
}

/// The CPU accounting file when it could not be read: no key observed.
pub open spec fn cpu_stat_empty() -> CpuStat {
    CpuStat {
        usage_usec: None,
        user_usec: None,
        system_usec: None,
        nr_periods: None,
        nr_throttled: None,
        throttled_usec: None,
    }
}

/// Reads the CPU accounting file: whitespace key/value lines, unknown keys
/// ignored, the last occurrence of a key winning.  A malformed line never
/// keeps another key's valid line from being used.
pub fn parse_cpu_stat(text: &[u8]) -> (r: CpuStat)
    ensures
        r == cpu_stat_of(text@),
{
    CpuStat {
        usage_usec: scan_kv(text, "usage_usec".as_bytes()),
        user_usec: scan_kv(text, "user_usec".as_bytes()),
        system_usec: scan_kv(text, "system_usec".as_bytes()),
        nr_periods: scan_kv(text, "nr_periods".as_bytes()),
        nr_throttled: scan_kv(text, "nr_throttled".as_bytes()),
        throttled_usec: scan_kv(text, "throttled_usec".as_bytes()),
    }
}

/// What the `cpu.max` text denotes.  Two tokens are required: `max <period>`
/// means unlimited; two numbers mean `quota / period` cores, rejected if the
/// period is zero; anything else leaves the reported limit unchanged.
pub open spec fn cpu_limit_of(text: Seq<u8>) -> Option<CpuLimit> {
    let ts = tokens(text);
    if ts.len() >= 2 {
        if ts[0] == "max".spec_bytes() {
            Some(CpuLimit::Unlimited)
        } else {
            match parse_u64(ts[0]) {
                Some(quota) => match parse_u64(ts[1]) {
                    Some(period) => if period > 0 {
                        Some(CpuLimit::Cores { quota, period })
                    } else {
                        None
                    },
                    None => None,
                },
                None => None,
            }
        }
    } else {
        None
    }
}

/// Reads the `cpu.max` file.
pub fn parse_cpu_limit(text: &[u8]) -> (r: Option<CpuLimit>)
    ensures
        r == cpu_limit_of(text@),
{
    let ts = tokenize(text);
    if ts.len() < 2 {
        return None;
    }
    proof {
        assert(views_of(ts@)[0] == ts@[0]@);
        assert(views_of(ts@)[1] == ts@[1]@);
    }
    if bytes_eq(ts[0].as_slice(), "max".as_bytes()) {
        return Some(CpuLimit::Unlimited);
    }
    match parse_u64_bytes(ts[0].as_slice()) {
        Some(quota) => match parse_u64_bytes(ts[1].as_slice()) {
            Some(period) => if period > 0 {
                Some(CpuLimit::Cores { quota, period })
            } else {
                None
            },
            None => None,
        },
        None => None,
    }
}

/// A CPU-limit file whose first token is the word `max` always reads as
/// unlimited, never as a finite core count.
pub proof fn lemma_cpu_limit_max_unlimited(text: Seq<u8>)
    requires
        tokens(text).len() >= 2,
        tokens(text)[0] == "max".spec_bytes(),
    ensures
        cpu_limit_of(text) == Some(CpuLimit::Unlimited),
{
}

/// What a memory scalar file's text denotes: the trimmed word `max` means
/// unlimited, a number means that many bytes, anything else leaves the
/// reported value unchanged.
pub open spec fn mem_value_of(text: Seq<u8>) -> Option<LimitValue> {
    let t = trim(text);
    if t == "max".spec_bytes() {
        Some(LimitValue::Unlimited)
    } else {
        match parse_u64(t) {
            Some(v) => Some(LimitValue::Finite(v)),
            None => None,
        }
    }
}

/// Reads one memory scalar file (`memory.current`, `memory.peak`,
/// `memory.max`, `memory.high` or `memory.low`).
pub fn parse_mem_value(text: &[u8]) -> (r: Option<LimitValue>)
    ensures
        r == mem_value_of(text@),
{
    let t = trim_slice(text);
    if bytes_eq(t, "max".as_bytes()) {
        return Some(LimitValue::Unlimited);
    }
    match parse_u64_bytes(t) {
        Some(v) => Some(LimitValue::Finite(v)),
        None => None,
    }
}

/// A memory scalar file holding the word `max` always reads as unlimited,
/// never as a finite byte count.
pub proof fn lemma_mem_value_max_unlimited(text: Seq<u8>)
    requires
        trim(text) == "max".spec_bytes(),
    ensures
        mem_value_of(text) == Some(LimitValue::Unlimited),
{
}

// ---------------------------------------------------------------------------
// Memory events
// ---------------------------------------------------------------------------

/// The event counters of `memory.events` from line `i` on: one
/// `(name, count)` pair per line with a key, in file order.
pub open spec fn events_from(ls: Seq<Seq<u8>>, i: int) -> Seq<(Seq<u8>, u64)>
    decreases ls.len() - i,
{
    if !(0 <= i < ls.len()) {
        Seq::empty()
    } else if tokens(ls[i]).len() > 0 {
        seq![(tokens(ls[i])[0], line_val_or_zero(ls[i]))] + events_from(ls, i + 1)
    } else {
        events_from(ls, i + 1)
    }
}

pub open spec fn events_of(ls: Seq<Seq<u8>>) -> Seq<(Seq<u8>, u64)> {
    events_from(ls, 0)
}

/// The views of a list of event pairs.
pub open spec fn event_views(es: Seq<(Vec<u8>, u64)>) -> Seq<(Seq<u8>, u64)> {
    es.map_values(|e: (Vec<u8>, u64)| (e.0@, e.1))
}

/// Reads `memory.events`: every line with a key yields that event's
/// cumulative count, 0 when the count is missing or malformed.  The counts
/// overwrite whatever was reported before; they are never added up.
pub fn parse_mem_events(text: &[u8]) -> (r: Vec<(Vec<u8>, u64)>)
    ensures
        event_views(r@) == events_of(lines(text@)),
{
    let ls = split_lines(text);
    let mut r: Vec<(Vec<u8>, u64)> = Vec::new();
    let mut i: usize = 0;
    while i < ls.len()
        invariant
            i <= ls@.len(),
            views_of(ls@) == lines(text@),
            events_of(lines(text@)) == event_views(r@) + events_from(
                lines(text@),
                i as int,
            ),
        decreases ls@.len() - i,
    {
        let ghost l = lines(text@)[i as int];
        proof {
            assert(views_of(ls@)[i as int] == ls@[i as int]@);
        }
        let mut toks = tokenize(ls[i].as_slice());
        if toks.len() > 0 {
            proof {
                assert(views_of(toks@)[0] == toks@[0]@);
                if toks@.len() > 1 {
                    assert(views_of(toks@)[1] == toks@[1]@);
                }
            }
            let v: u64 = if toks.len() > 1 {
                match parse_u64_bytes(toks[1].as_slice()) {
                    Some(v) => v,
                    None => 0,
                }
            } else {
                0
            };
            let name = toks.swap_remove(0);
            let ghost prev = r@;
            r.push((name, v));
            proof {
                assert(event_views(r@) =~= event_views(prev).push((first_token(l), v)));
                assert(event_views(prev) + (seq![(first_token(l), v)] + events_from(
                    lines(text@),
                    i + 1,
                )) =~= event_views(r@) + events_from(lines(text@), i + 1));
            }
        }
        i += 1;
    }
    r
}

/// The first token of a line that has one.
pub open spec fn first_token(l: Seq<u8>) -> Seq<u8> {
    tokens(l)[0]
}

// ---------------------------------------------------------------------------
// Whole snapshot
// ---------------------------------------------------------------------------

/// Everything one sampling cycle learns from the cgroup directory.  Each
/// field carries `None` (or no pairs) where its source file was absent or
/// malformed, so the caller can leave the corresponding gauge untouched.
#[derive(Debug, PartialEq, Eq)]
pub struct CgroupSnapshot {
    pub cpu: CpuStat,
    pub cpu_limit: Option<CpuLimit>,
    pub mem_current: Option<LimitValue>,
    pub mem_peak: Option<LimitValue>,
    pub mem_max: Option<LimitValue>,
    pub mem_high: Option<LimitValue>,
    pub mem_low: Option<LimitValue>,
    pub mem_events: Vec<(Vec<u8>, u64)>,
}

/// Folds the cgroup files of one cycle into a snapshot.  Each argument is
/// the content of the named file, `None` where it could not be read; one
/// unreadable or malformed file never affects what the others yield.
pub fn cgroup_snapshot(
    cpu_stat: Option<&[u8]>,
    cpu_max: Option<&[u8]>,
    mem_current: Option<&[u8]>,
    mem_peak: Option<&[u8]>,
    mem_max: Option<&[u8]>,
    mem_high: Option<&[u8]>,
    mem_low: Option<&[u8]>,
    mem_events: Option<&[u8]>,
) -> (r: CgroupSnapshot)
    ensures
        r.cpu == (match cpu_stat {
            Some(t) => cpu_stat_of(t@),
            None => cpu_stat_empty(),
        }),
        r.cpu_limit == (match cpu_max {
            Some(t) => cpu_limit_of(t@),
            None => None::<CpuLimit>,
        }),
        r.mem_current == (match mem_current {
            Some(t) => mem_value_of(t@),
            None => None::<LimitValue>,
        }),
        r.mem_peak == (match mem_peak {
            Some(t) => mem_value_of(t@),
            None => None::<LimitValue>,
        }),
        r.mem_max == (match mem_max {
            Some(t) => mem_value_of(t@),
            None => None::<LimitValue>,
        }),
        r.mem_high == (match mem_high {
            Some(t) => mem_value_of(t@),
            None => None::<LimitValue>,
        }),
        r.mem_low == (match mem_low {
            Some(t) => mem_value_of(t@),
            None => None::<LimitValue>,
        }),
        event_views(r.mem_events@) == (match mem_events {
            Some(t) => events_of(lines(t@)),
            None => Seq::<(Seq<u8>, u64)>::empty(),
        }),
{
    let cpu = match cpu_stat {
        Some(t) => parse_cpu_stat(t),
        None => CpuStat {
            usage_usec: None,
            user_usec: None,
            system_usec: None,
            nr_periods: None,
            nr_throttled: None,
            throttled_usec: None,
        },
    };
    let cpu_limit = match cpu_max {
        Some(t) => parse_cpu_limit(t),
        None => None,
    };
    let mem_current = match mem_current {
        Some(t) => parse_mem_value(t),
        None => None,
    };
    let mem_peak = match mem_peak {
        Some(t) => parse_mem_value(t),
        None => None,
    };
    let mem_max = match mem_max {
        Some(t) => parse_mem_value(t),
        None => None,
    };
    let mem_high = match mem_high {
        Some(t) => parse_mem_value(t),
        None => None,
    };
    let mem_low = match mem_low {
        Some(t) => parse_mem_value(t),
        None => None,
    };
    let evs = match mem_events {
        Some(t) => parse_mem_events(t),
        None => Vec::new(),
    };
    proof {
        if mem_events is None {
            assert(event_views(evs@) =~= Seq::<(Seq<u8>, u64)>::empty());
        }
    }
    CgroupSnapshot {
        cpu,
        cpu_limit,
        mem_current,
        mem_peak,
        mem_max,
        mem_high,
        mem_low,
        mem_events: evs,
    }
}

} // verus!
