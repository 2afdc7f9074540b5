//! Per-PID accounting from the kernel's process files: CPU tick counters and
//! the start tick at their documented positions in the flat accounting file,
//! memory sizes from the status file, and the seven I/O counters.
//!
//! Counters stay in the kernel's own units (clock ticks, kilobytes become
//! bytes); dividing ticks by the clock rate is the caller's last step.

use vstd::prelude::*;

use crate::num::{sat_mul_u64, sat_u64};
use crate::text::{
    has_prefix, kv_last, line_val_or_zero, lines, parse_u64_bytes, scan_kv, split_lines,
    starts_with, token_u64_or_zero, tokenize, tokens, views_of,
};
use vstd::string::StringSliceAdditionalSpecFns;

verus! {

/// One process's counters for one cycle.  `start_time` is in whole seconds
/// since the epoch and absent when the accounting file is too short to carry
/// a start tick.
#[derive(Debug, Clone, Copy, PartialEq, Eq)]
pub struct ProcSample {
    pub cpu_user_ticks: u64,
    pub cpu_system_ticks: u64,
    pub start_time: Option<u64>,
    pub mem_rss_bytes: u64,
    pub mem_vms_bytes: u64,
    pub mem_swap_bytes: u64,
    pub io_rchar: u64,
    pub io_wchar: u64,
    pub io_syscr: u64,
    pub io_syscw: u64,
    pub io_read_bytes: u64,
    pub io_write_bytes: u64,
    pub io_cancelled_write_bytes: u64,
}

// ---------------------------------------------------------------------------
// The flat accounting file (utime, stime, starttime)
// ---------------------------------------------------------------------------

/// The user ticks, system ticks and start ticks of the flat per-PID
/// accounting file, at their documented positions (fields 14, 15 and 22);
/// nothing when the file is too short.
pub open spec fn stat_ticks_of(text: Seq<u8>) -> Option<(u64, u64, u64)> {
    if tokens(text).len() > 21 {
        Some(
            (token_u64_or_zero(text, 13), token_u64_or_zero(text, 14), token_u64_or_zero(text, 21)),
        )
    } else {
        None
    }
}

/// Reads the CPU fields of the flat accounting file.
pub fn parse_stat_ticks(text: &[u8]) -> (r: Option<(u64, u64, u64)>)
    ensures
        r == stat_ticks_of(text@),
{
    let toks = tokenize(text);
    if toks.len() > 21 {
        proof {
            assert(views_of(toks@)[13] == toks@[13]@);
            assert(views_of(toks@)[14] == toks@[14]@);
            assert(views_of(toks@)[21] == toks@[21]@);
        }
        let utime = match parse_u64_bytes(toks[13].as_slice()) {
            Some(v) => v,
            None => 0,
        };
        let stime = match parse_u64_bytes(toks[14].as_slice()) {
            Some(v) => v,
            None => 0,
        };
        let start = match parse_u64_bytes(toks[21].as_slice()) {
            Some(v) => v,
            None => 0,
        };
        Some((utime, stime, start))
    } else {
        None
    }
}

/// A process's absolute start time in whole seconds: the host's boot time
/// plus its start tick converted at `rate` ticks per second, clamped at the
/// `u64` range.
pub open spec fn start_time_of(btime: u64, start_ticks: u64, rate: u64) -> u64 {
    sat_u64(btime as nat + (start_ticks as nat / rate as nat))
}

pub fn start_time_seconds(btime: u64, start_ticks: u64, rate: u64) -> (r: u64)
    requires
        rate >= 1,
    ensures
        r == start_time_of(btime, start_ticks, rate),
{
    let q = start_ticks / rate;
    match btime.checked_add(q) {
        Some(v) => v,
        None => u64::MAX,
    }
}

// ---------------------------------------------------------------------------
// The status file (memory sizes)
// ---------------------------------------------------------------------------

/// The kilobyte figure of the last line that begins with `p`, 0 when no
/// line does or the figure is missing or malformed.
pub open spec fn status_kb(ls: Seq<Seq<u8>>, p: Seq<u8>) -> u64
    decreases ls.len(),
{
    if ls.len() == 0 {
        0
    } else if has_prefix(ls.last(), p) {
        line_val_or_zero(ls.last())
    } else {
        status_kb(ls.drop_last(), p)
    }
}

/// The second whitespace token of a status line read as a number, 0 when it
/// is missing or not a number.
pub fn grab_kb(line: &[u8]) -> (r: u64)
    ensures
        r == line_val_or_zero(line@),
{
    let toks = tokenize(line);
    if toks.len() > 1 {
        proof {
            assert(views_of(toks@)[1] == toks@[1]@);
        }
        match parse_u64_bytes(toks[1].as_slice()) {
            Some(v) => v,
            None => 0,
        }
    } else {
        0
    }
}

/// Scans the status file for the last line beginning with `prefix` and
/// returns its kilobyte figure, 0 when there is none.
pub fn scan_prefix_kb(text: &[u8], prefix: &[u8]) -> (r: u64)
    ensures
        r == status_kb(lines(text@), prefix@),
{
    let ls = split_lines(text);
    let mut r: u64 = 0;
    let mut i: usize = 0;
    proof {
        assert(lines(text@).subrange(0, 0) =~= Seq::<Seq<u8>>::empty());
    }
    while i < ls.len()
        invariant
            i <= ls@.len(),
            views_of(ls@) == lines(text@),
            r == status_kb(lines(text@).subrange(0, i as int), prefix@),
        decreases ls@.len() - i,
    {
        let ghost l = lines(text@)[i as int];
        proof {
            assert(views_of(ls@)[i as int] == ls@[i as int]@);
            let pre = lines(text@).subrange(0, i as int);
            let post = lines(text@).subrange(0, i + 1);
            assert(post.drop_last() =~= pre);
            assert(post.last() == l);
        }
        if starts_with(ls[i].as_slice(), prefix) {
            r = grab_kb(ls[i].as_slice());
        }
        i += 1;
    }
    proof {
        assert(lines(text@).subrange(0, lines(text@).len() as int) =~= lines(text@));
    }
    r
}

/// Kilobytes as bytes, clamped at the `u64` range.
pub open spec fn kb_to_bytes(kb: u64) -> u64 {
    sat_u64(kb as nat * 1024)
}

// ---------------------------------------------------------------------------
// The I/O accounting file
// ---------------------------------------------------------------------------

/// The value of `key` in a key/value accounting file, 0 when the key never
/// occurs.
pub open spec fn kv_or_zero(text: Seq<u8>, key: Seq<u8>) -> u64 {
    match kv_last(lines(text), key) {
        Some(v) => v,
        None => 0,
    }
}

fn scan_kv_or_zero(text: &[u8], key: &[u8]) -> (r: u64)
    ensures
        r == kv_or_zero(text@, key@),
{
    match scan_kv(text, key) {
        Some(v) => v,
        None => 0,
    }
}

// ---------------------------------------------------------------------------
// The whole sample
// ---------------------------------------------------------------------------

/// What one process's three files denote.  The I/O text is empty when that
/// file could not be read (some kernels withhold it), which reads as seven
/// zero counters rather than a failed sample.
pub open spec fn proc_sample_of(
    stat: Seq<u8>,
    status: Seq<u8>,
    io: Seq<u8>,
    btime: u64,
    rate: u64,
) -> ProcSample {
    let cpu = stat_ticks_of(stat);
    ProcSample {
        cpu_user_ticks: match cpu {
            Some(t) => t.0,
            None => 0,
        },
        cpu_system_ticks: match cpu {
            Some(t) => t.1,
            None => 0,
        },
        start_time: match cpu {
            Some(t) => Some(start_time_of(btime, t.2, rate)),
            None => None,
        },
        mem_rss_bytes: kb_to_bytes(status_kb(lines(status), "VmRSS:".spec_bytes())),
        mem_vms_bytes: kb_to_bytes(status_kb(lines(status), "VmSize:".spec_bytes())),
        mem_swap_bytes: kb_to_bytes(status_kb(lines(status), "VmSwap:".spec_bytes())),
        io_rchar: kv_or_zero(io, "rchar:".spec_bytes()),
        io_wchar: kv_or_zero(io, "wchar:".spec_bytes()),
        io_syscr: kv_or_zero(io, "syscr:".spec_bytes()),
        io_syscw: kv_or_zero(io, "syscw:".spec_bytes()),
        io_read_bytes: kv_or_zero(io, "read_bytes:".spec_bytes()),
        io_write_bytes: kv_or_zero(io, "write_bytes:".spec_bytes()),
        io_cancelled_write_bytes: kv_or_zero(io, "cancelled_write_bytes:".spec_bytes()),
    }
}

/// Builds one process's sample from the contents of its three accounting
/// files, the host's boot time in seconds, and the clock rate in ticks per
/// second.  A malformed field reads as 0 without spoiling its siblings.
pub fn proc_sample(stat: &[u8], status: &[u8], io: &[u8], btime: u64, rate: u64) -> (r: ProcSample)
    requires
        rate >= 1,
    ensures
        r == proc_sample_of(stat@, status@, io@, btime, rate),
{
    let cpu = parse_stat_ticks(stat);
    let (cpu_user_ticks, cpu_system_ticks, start_time) = match cpu {
        Some((u, s, st)) => (u, s, Some(start_time_seconds(btime, st, rate))),
        None => (0, 0, None),
    };
    ProcSample {
        cpu_user_ticks,
        cpu_system_ticks,
        start_time,
        mem_rss_bytes: sat_mul_u64(scan_prefix_kb(status, "VmRSS:".as_bytes()), 1024),
        mem_vms_bytes: sat_mul_u64(scan_prefix_kb(status, "VmSize:".as_bytes()), 1024),
        mem_swap_bytes: sat_mul_u64(scan_prefix_kb(status, "VmSwap:".as_bytes()), 1024),
        io_rchar: scan_kv_or_zero(io, "rchar:".as_bytes()),
        io_wchar: scan_kv_or_zero(io, "wchar:".as_bytes()),
        io_syscr: scan_kv_or_zero(io, "syscr:".as_bytes()),
        io_syscw: scan_kv_or_zero(io, "syscw:".as_bytes()),
        io_read_bytes: scan_kv_or_zero(io, "read_bytes:".as_bytes()),
        io_write_bytes: scan_kv_or_zero(io, "write_bytes:".as_bytes()),
        io_cancelled_write_bytes: scan_kv_or_zero(io, "cancelled_write_bytes:".as_bytes()),
    }
}

} // verus!
