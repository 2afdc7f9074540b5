//! Host-wide accounting: the aggregate CPU line of the system-wide stat
//! file, the host's boot time from the same file, and the memory totals of
//! the meminfo file.

use vstd::prelude::*;

use crate::proc::kb_to_bytes;
use crate::num::sat_mul_u64;
use crate::text::{
    bytes_eq, first_line_with_prefix, line_val_or_zero, lines, parse_u64_bytes, split_lines,
    strip_trailing, strip_trailing_slice, token_u64_or_zero, tokenize, tokens, views_of,
};
use vstd::string::StringSliceAdditionalSpecFns;

verus! {

/// The host's CPU ticks for the ten documented modes, in their fixed order.
/// Modes a kernel omits at the end of the line read as 0.
#[derive(Debug, Clone, Copy, PartialEq, Eq)]
pub struct HostCpu {
    pub user: u64,
    pub nice: u64,
    pub system: u64,
    pub idle: u64,
    pub iowait: u64,
    pub irq: u64,
    pub softirq: u64,
    pub steal: u64,
    pub guest: u64,
    pub guest_nice: u64,
}

/// Token `k` of the CPU line read as a tick count: 0 when the line is too
/// short or the token is not a number.
pub open spec fn cpu_mode_ticks(l: Seq<u8>, k: int) -> u64 {
    if tokens(l).len() > k {
        token_u64_or_zero(l, k)
    } else {
        0
    }
}

/// What the system-wide stat file's aggregate CPU line denotes: the first
/// line beginning `cpu ` (never a per-core line), its ten mode fields in
/// order; nothing when there is no such line or it has no fields at all.
pub open spec fn host_cpu_of(text: Seq<u8>) -> Option<HostCpu> {
    match first_line_with_prefix(lines(text), "cpu ".spec_bytes()) {
        Some(l) => if tokens(l).len() >= 2 {
            Some(
                HostCpu {
                    user: cpu_mode_ticks(l, 1),
                    nice: cpu_mode_ticks(l, 2),
                    system: cpu_mode_ticks(l, 3),
                    idle: cpu_mode_ticks(l, 4),
                    iowait: cpu_mode_ticks(l, 5),
                    irq: cpu_mode_ticks(l, 6),
                    softirq: cpu_mode_ticks(l, 7),
                    steal: cpu_mode_ticks(l, 8),
                    guest: cpu_mode_ticks(l, 9),
                    guest_nice: cpu_mode_ticks(l, 10),
                },
            )
        } else {
            None
        },
        None => None,
    }
}

fn mode_ticks_at(toks: &Vec<Vec<u8>>, k: usize, Ghost(l): Ghost<Seq<u8>>) -> (r: u64)
    requires
        views_of(toks@) == tokens(l),
    ensures
        r == cpu_mode_ticks(l, k as int),
{
    if toks.len() > k {
        proof {
            assert(views_of(toks@)[k as int] == toks@[k as int]@);
        }
        match parse_u64_bytes(toks[k].as_slice()) {
            Some(v) => v,
            None => 0,
        }
    } else {
        0
    }
}

/// Reads the aggregate CPU line of the system-wide stat file.
pub fn parse_host_cpu(text: &[u8]) -> (r: Option<HostCpu>)
    ensures
        r == host_cpu_of(text@),
{
    let l = match crate::text::find_line_with_prefix(text, "cpu ".as_bytes()) {
        Some(l) => l,
        None => {
            return None;
        },
    };
    let toks = tokenize(l.as_slice());
    if toks.len() < 2 {
        return None;
    }
    let ghost lv = l@;
    Some(
        HostCpu {
            user: mode_ticks_at(&toks, 1, Ghost(lv)),
            nice: mode_ticks_at(&toks, 2, Ghost(lv)),
            system: mode_ticks_at(&toks, 3, Ghost(lv)),
            idle: mode_ticks_at(&toks, 4, Ghost(lv)),
            iowait: mode_ticks_at(&toks, 5, Ghost(lv)),
            irq: mode_ticks_at(&toks, 6, Ghost(lv)),
            softirq: mode_ticks_at(&toks, 7, Ghost(lv)),
            steal: mode_ticks_at(&toks, 8, Ghost(lv)),
            guest: mode_ticks_at(&toks, 9, Ghost(lv)),
            guest_nice: mode_ticks_at(&toks, 10, Ghost(lv)),
        },
    )
}

/// The host's boot time in seconds, from the `btime` line of the
/// system-wide stat file; 0 when the line or its figure is missing or
/// malformed.
pub open spec fn btime_of(text: Seq<u8>) -> u64 {
    match first_line_with_prefix(lines(text), "btime ".spec_bytes()) {
        Some(l) => line_val_or_zero(l),
        None => 0,
    }
}

/// Reads the boot time from the system-wide stat file.
pub fn parse_btime(text: &[u8]) -> (r: u64)
    ensures
        r == btime_of(text@),
{
    match crate::text::find_line_with_prefix(text, "btime ".as_bytes()) {
        Some(l) => crate::proc::grab_kb(l.as_slice()),
        None => 0,
    }
}

// ---------------------------------------------------------------------------
// Memory totals
// ---------------------------------------------------------------------------

/// Whether a meminfo line reports `key`: at least a key and a figure, the
/// key compared with its trailing colons removed.
pub open spec fn meminfo_line_matches(l: Seq<u8>, key: Seq<u8>) -> bool {
    tokens(l).len() >= 2 && strip_trailing(tokens(l)[0], 58) == key
}

/// The kilobyte figure `key` reports in the meminfo text: the last matching
/// line's figure (0 when malformed), or 0 when the key is absent from this
/// dump.
pub open spec fn meminfo_kb(ls: Seq<Seq<u8>>, key: Seq<u8>) -> u64
    decreases ls.len(),
{
    if ls.len() == 0 {
        0
    } else if meminfo_line_matches(ls.last(), key) {
        line_val_or_zero(ls.last())
    } else {
        meminfo_kb(ls.drop_last(), key)
    }
}

/// Scans the meminfo text for `key` and returns its kilobyte figure.
pub fn scan_meminfo_kb(text: &[u8], key: &[u8]) -> (r: u64)
    ensures
        r == meminfo_kb(lines(text@), key@),
{
    let ls = split_lines(text);
    let mut r: u64 = 0;
    let mut i: usize = 0;
    proof {
        assert(lines(text@).subrange(0, 0) =~= Seq::<Seq<u8>>::empty());
    }
    while i < ls.len()
        invariant
            i <= ls@.len(),
            views_of(ls@) == lines(text@),
            r == meminfo_kb(lines(text@).subrange(0, i as int), key@),
        decreases ls@.len() - i,
    {
        let ghost l = lines(text@)[i as int];
        proof {
            assert(views_of(ls@)[i as int] == ls@[i as int]@);
            let pre = lines(text@).subrange(0, i as int);
            let post = lines(text@).subrange(0, i + 1);
            assert(post.drop_last() =~= pre);
            assert(post.last() == l);
        }
        let toks = tokenize(ls[i].as_slice());
        if toks.len() >= 2 {
            proof {
                assert(views_of(toks@)[0] == toks@[0]@);
                assert(views_of(toks@)[1] == toks@[1]@);
            }
            let stripped = strip_trailing_slice(toks[0].as_slice(), 58);
            if bytes_eq(stripped, key) {
                r = match parse_u64_bytes(toks[1].as_slice()) {
                    Some(v) => v,
                    None => 0,
                };
            }
        }
        i += 1;
    }
    proof {
        assert(lines(text@).subrange(0, lines(text@).len() as int) =~= lines(text@));
    }
    r
}

/// The host's memory totals in bytes, scaled from the meminfo kilobyte
/// figures; a key absent from a dump reads as 0 for that cycle.
#[derive(Debug, Clone, Copy, PartialEq, Eq)]
pub struct HostMemory {
    pub total_bytes: u64,
    pub free_bytes: u64,
    pub available_bytes: u64,
    pub cached_bytes: u64,
    pub buffers_bytes: u64,
    pub swap_total_bytes: u64,
    pub swap_free_bytes: u64,
}

/// What the meminfo text denotes, key by key.
pub open spec fn host_memory_of(text: Seq<u8>) -> HostMemory {
    HostMemory {
        total_bytes: kb_to_bytes(meminfo_kb(lines(text), "MemTotal".spec_bytes())),
        free_bytes: kb_to_bytes(meminfo_kb(lines(text), "MemFree".spec_bytes())),
        available_bytes: kb_to_bytes(meminfo_kb(lines(text), "MemAvailable".spec_bytes())),
        cached_bytes: kb_to_bytes(meminfo_kb(lines(text), "Cached".spec_bytes())),
        buffers_bytes: kb_to_bytes(meminfo_kb(lines(text), "Buffers".spec_bytes())),
        swap_total_bytes: kb_to_bytes(meminfo_kb(lines(text), "SwapTotal".spec_bytes())),
        swap_free_bytes: kb_to_bytes(meminfo_kb(lines(text), "SwapFree".spec_bytes())),
    }
}

/// Reads the memory totals from the meminfo text.
pub fn parse_host_memory(text: &[u8]) -> (r: HostMemory)
    ensures
        r == host_memory_of(text@),
{
    HostMemory {
        total_bytes: sat_mul_u64(scan_meminfo_kb(text, "MemTotal".as_bytes()), 1024),
        free_bytes: sat_mul_u64(scan_meminfo_kb(text, "MemFree".as_bytes()), 1024),
        available_bytes: sat_mul_u64(scan_meminfo_kb(text, "MemAvailable".as_bytes()), 1024),
        cached_bytes: sat_mul_u64(scan_meminfo_kb(text, "Cached".as_bytes()), 1024),
        buffers_bytes: sat_mul_u64(scan_meminfo_kb(text, "Buffers".as_bytes()), 1024),
        swap_total_bytes: sat_mul_u64(scan_meminfo_kb(text, "SwapTotal".as_bytes()), 1024),
        swap_free_bytes: sat_mul_u64(scan_meminfo_kb(text, "SwapFree".as_bytes()), 1024),
    }
}

} // verus!
