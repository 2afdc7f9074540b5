//! Folding the samples of a multi-process target into one logical sample:
//! counters are summed (clamped at the `u64` range), the start time is the
//! oldest among the members that report one, and the uptime is measured from
//! that oldest start.  An empty member set yields the explicit all-zero
//! sample, never a stale carry-over.

use vstd::prelude::*;

use crate::num::{lemma_sat_u64_absorb, sat_add_u64, sat_u64};
use crate::proc::ProcSample;

verus! {

/// The element-wise sum of all counters over the member set.
#[derive(Debug, Clone, Copy, PartialEq, Eq)]
pub struct AggregatedSample {
    pub cpu_user_ticks: u64,
    pub cpu_system_ticks: u64,
    pub mem_rss_bytes: u64,
    pub mem_vms_bytes: u64,
    pub mem_swap_bytes: u64,
    pub io_rchar: u64,
    pub io_wchar: u64,
    pub io_syscr: u64,
    pub io_syscw: u64,
    pub io_read_bytes: u64,
    pub io_write_bytes: u64,
    pub io_cancelled_write_bytes: u64,
    /// The oldest member's start time; 0 when no member reports one.
    pub start_time: u64,
    /// `now` less the oldest start time; 0 when no member reports one.
    pub uptime: u64,
}

/// The mathematical (unclamped) sums of the members' counters.
pub ghost struct SampleTotals {
    pub cpu_user_ticks: nat,
    pub cpu_system_ticks: nat,
    pub mem_rss_bytes: nat,
    pub mem_vms_bytes: nat,
    pub mem_swap_bytes: nat,
    pub io_rchar: nat,
    pub io_wchar: nat,
    pub io_syscr: nat,
    pub io_syscw: nat,
    pub io_read_bytes: nat,
    pub io_write_bytes: nat,
    pub io_cancelled_write_bytes: nat,
}

pub open spec fn totals_of(ss: Seq<ProcSample>) -> SampleTotals
    decreases ss.len(),
{
    if ss.len() == 0 {
        SampleTotals {
            cpu_user_ticks: 0,
            cpu_system_ticks: 0,
            mem_rss_bytes: 0,
            mem_vms_bytes: 0,
            mem_swap_bytes: 0,
            io_rchar: 0,
            io_wchar: 0,
            io_syscr: 0,
            io_syscw: 0,
            io_read_bytes: 0,
            io_write_bytes: 0,
            io_cancelled_write_bytes: 0,
        }
    } else {
        let p = totals_of(ss.drop_last());
        let x = ss.last();
        SampleTotals {
            cpu_user_ticks: p.cpu_user_ticks + x.cpu_user_ticks as nat,
            cpu_system_ticks: p.cpu_system_ticks + x.cpu_system_ticks as nat,
            mem_rss_bytes: p.mem_rss_bytes + x.mem_rss_bytes as nat,
            mem_vms_bytes: p.mem_vms_bytes + x.mem_vms_bytes as nat,
            mem_swap_bytes: p.mem_swap_bytes + x.mem_swap_bytes as nat,
            io_rchar: p.io_rchar + x.io_rchar as nat,
            io_wchar: p.io_wchar + x.io_wchar as nat,
            io_syscr: p.io_syscr + x.io_syscr as nat,
            io_syscw: p.io_syscw + x.io_syscw as nat,
            io_read_bytes: p.io_read_bytes + x.io_read_bytes as nat,
            io_write_bytes: p.io_write_bytes + x.io_write_bytes as nat,
            io_cancelled_write_bytes: p.io_cancelled_write_bytes + x.io_cancelled_write_bytes as nat,
        }
    }
}

/// The oldest start time reported by any member.
pub open spec fn min_start(ss: Seq<ProcSample>) -> Option<u64>
    decreases ss.len(),
{
    if ss.len() == 0 {
        None
    } else {
        let rest = min_start(ss.drop_last());
        match (rest, ss.last().start_time) {
            (None, cur) => cur,
            (Some(m), None) => Some(m),
            (Some(m), Some(x)) => if x < m {
                Some(x)
            } else {
                Some(m)
            },
        }
    }
}

/// The sample reported for an empty member set.
pub open spec fn zero_aggregate() -> AggregatedSample {
    AggregatedSample {
        cpu_user_ticks: 0,
        cpu_system_ticks: 0,
        mem_rss_bytes: 0,
        mem_vms_bytes: 0,
        mem_swap_bytes: 0,
        io_rchar: 0,
        io_wchar: 0,
        io_syscr: 0,
        io_syscw: 0,
        io_read_bytes: 0,
        io_write_bytes: 0,
        io_cancelled_write_bytes: 0,
        start_time: 0,
        uptime: 0,
    }
}

/// What the start-time and uptime gauges read given the oldest member start
/// and the current time.
pub open spec fn uptime_of(start: Option<u64>, now: u64) -> u64 {
    match start {
        Some(m) => if now >= m {
            (now - m) as u64
        } else {
            0
        },
        None => 0,
    }
}

/// Folds per-PID samples into one.  Every counter is the clamped sum of the
/// members' counters; the start time is the oldest reported one and the
/// uptime is `now` less that start (0 when `now` lies before it); an empty
/// member set yields exactly the all-zero sample.
pub fn aggregate(samples: &Vec<ProcSample>, now: u64) -> (r: AggregatedSample)
    ensures
        r.cpu_user_ticks == sat_u64(totals_of(samples@).cpu_user_ticks),
        r.cpu_system_ticks == sat_u64(totals_of(samples@).cpu_system_ticks),
        r.mem_rss_bytes == sat_u64(totals_of(samples@).mem_rss_bytes),
        r.mem_vms_bytes == sat_u64(totals_of(samples@).mem_vms_bytes),
        r.mem_swap_bytes == sat_u64(totals_of(samples@).mem_swap_bytes),
        r.io_rchar == sat_u64(totals_of(samples@).io_rchar),
        r.io_wchar == sat_u64(totals_of(samples@).io_wchar),
        r.io_syscr == sat_u64(totals_of(samples@).io_syscr),
        r.io_syscw == sat_u64(totals_of(samples@).io_syscw),
        r.io_read_bytes == sat_u64(totals_of(samples@).io_read_bytes),
        r.io_write_bytes == sat_u64(totals_of(samples@).io_write_bytes),
        r.io_cancelled_write_bytes == sat_u64(totals_of(samples@).io_cancelled_write_bytes),
        r.start_time == (match min_start(samples@) {
            Some(m) => m,
            None => 0,
        }),
        r.uptime == uptime_of(min_start(samples@), now),
        samples@.len() == 0 ==> r == zero_aggregate(),
{
    let mut r = AggregatedSample {
        cpu_user_ticks: 0,
        cpu_system_ticks: 0,
        mem_rss_bytes: 0,
        mem_vms_bytes: 0,
        mem_swap_bytes: 0,
        io_rchar: 0,
        io_wchar: 0,
        io_syscr: 0,
        io_syscw: 0,
        io_read_bytes: 0,
        io_write_bytes: 0,
        io_cancelled_write_bytes: 0,
        start_time: 0,
        uptime: 0,
    };
    let mut oldest: Option<u64> = None;
    let mut i: usize = 0;
    proof {
        assert(samples@.subrange(0, 0) =~= Seq::<ProcSample>::empty());
    }
    while i < samples.len()
        invariant
            i <= samples@.len(),
            r.cpu_user_ticks == sat_u64(totals_of(samples@.subrange(0, i as int)).cpu_user_ticks),
            r.cpu_system_ticks == sat_u64(
                totals_of(samples@.subrange(0, i as int)).cpu_system_ticks,
            ),
            r.mem_rss_bytes == sat_u64(totals_of(samples@.subrange(0, i as int)).mem_rss_bytes),
            r.mem_vms_bytes == sat_u64(totals_of(samples@.subrange(0, i as int)).mem_vms_bytes),
            r.mem_swap_bytes == sat_u64(totals_of(samples@.subrange(0, i as int)).mem_swap_bytes),
            r.io_rchar == sat_u64(totals_of(samples@.subrange(0, i as int)).io_rchar),
            r.io_wchar == sat_u64(totals_of(samples@.subrange(0, i as int)).io_wchar),
            r.io_syscr == sat_u64(totals_of(samples@.subrange(0, i as int)).io_syscr),
            r.io_syscw == sat_u64(totals_of(samples@.subrange(0, i as int)).io_syscw),
            r.io_read_bytes == sat_u64(totals_of(samples@.subrange(0, i as int)).io_read_bytes),
            r.io_write_bytes == sat_u64(totals_of(samples@.subrange(0, i as int)).io_write_bytes),
            r.io_cancelled_write_bytes == sat_u64(
                totals_of(samples@.subrange(0, i as int)).io_cancelled_write_bytes,
            ),
            oldest == min_start(samples@.subrange(0, i as int)),
            r.start_time == 0,
            r.uptime == 0,
        decreases samples@.len() - i,
    {
        let s = samples[i];
        proof {
            let pre = samples@.subrange(0, i as int);
            let post = samples@.subrange(0, i + 1);
            assert(post.drop_last() =~= pre);
            assert(post.last() == samples@[i as int]);
            lemma_sat_u64_absorb(
                totals_of(pre).cpu_user_ticks,
                samples@[i as int].cpu_user_ticks as nat,
            );
            lemma_sat_u64_absorb(
                totals_of(pre).cpu_system_ticks,
                samples@[i as int].cpu_system_ticks as nat,
            );
            lemma_sat_u64_absorb(
                totals_of(pre).mem_rss_bytes,
                samples@[i as int].mem_rss_bytes as nat,
            );
            lemma_sat_u64_absorb(
                totals_of(pre).mem_vms_bytes,
                samples@[i as int].mem_vms_bytes as nat,
            );
            lemma_sat_u64_absorb(
                totals_of(pre).mem_swap_bytes,
                samples@[i as int].mem_swap_bytes as nat,
            );
            lemma_sat_u64_absorb(totals_of(pre).io_rchar, samples@[i as int].io_rchar as nat);
            lemma_sat_u64_absorb(totals_of(pre).io_wchar, samples@[i as int].io_wchar as nat);
            lemma_sat_u64_absorb(totals_of(pre).io_syscr, samples@[i as int].io_syscr as nat);
            lemma_sat_u64_absorb(totals_of(pre).io_syscw, samples@[i as int].io_syscw as nat);
            lemma_sat_u64_absorb(
                totals_of(pre).io_read_bytes,
                samples@[i as int].io_read_bytes as nat,
            );
            lemma_sat_u64_absorb(
                totals_of(pre).io_write_bytes,
                samples@[i as int].io_write_bytes as nat,
            );
            lemma_sat_u64_absorb(
                totals_of(pre).io_cancelled_write_bytes,
                samples@[i as int].io_cancelled_write_bytes as nat,
            );
        }
        r.cpu_user_ticks = sat_add_u64(r.cpu_user_ticks, s.cpu_user_ticks);
        r.cpu_system_ticks = sat_add_u64(r.cpu_system_ticks, s.cpu_system_ticks);
        r.mem_rss_bytes = sat_add_u64(r.mem_rss_bytes, s.mem_rss_bytes);
        r.mem_vms_bytes = sat_add_u64(r.mem_vms_bytes, s.mem_vms_bytes);
        r.mem_swap_bytes = sat_add_u64(r.mem_swap_bytes, s.mem_swap_bytes);
        r.io_rchar = sat_add_u64(r.io_rchar, s.io_rchar);
        r.io_wchar = sat_add_u64(r.io_wchar, s.io_wchar);
        r.io_syscr = sat_add_u64(r.io_syscr, s.io_syscr);
        r.io_syscw = sat_add_u64(r.io_syscw, s.io_syscw);
        r.io_read_bytes = sat_add_u64(r.io_read_bytes, s.io_read_bytes);
        r.io_write_bytes = sat_add_u64(r.io_write_bytes, s.io_write_bytes);
        r.io_cancelled_write_bytes = sat_add_u64(r.io_cancelled_write_bytes, s.io_cancelled_write_bytes);
        oldest = match (oldest, s.start_time) {
            (None, cur) => cur,
            (Some(m), None) => Some(m),
            (Some(m), Some(x)) => if x < m {
                Some(x)
            } else {
                Some(m)
            },
        };
        i += 1;
    }
    proof {
        assert(samples@.subrange(0, samples@.len() as int) =~= samples@);
    }
    match oldest {
        Some(m) => {
            r.start_time = m;
            r.uptime = if now >= m {
                now - m
            } else {
                0
            };
        },
        None => {
        },
    }
    r
}

} // verus!
