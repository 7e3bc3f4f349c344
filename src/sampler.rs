//! Metrics over a fixed process set: aggregate memory, per-process CPU ticks, and the CPU
//! share of an interval.
use vstd::prelude::*;

use crate::record::{sat_add, ProcessRecord};

verus! {

/// Memory in kilobytes of one process, from the text of its accounting entry, or 0 where
/// the entry could not be read.
pub open spec fn memory_of(stat: Option<Seq<char>>) -> u64 {
    match stat {
        Some(t) => ProcessRecord::of_text(t).memory_kb(),
        None => 0,
    }
}

/// The views of accounting entries as read, one per process.
pub open spec fn stat_views(stats: Seq<Option<String>>) -> Seq<Option<Seq<char>>> {
    stats.map_values(|s: Option<String>| match s {
        Some(t) => Some(t@),
        None => None,
    })
}

/// The sum of the memory of each process.
pub open spec fn total_memory(stats: Seq<Option<Seq<char>>>) -> nat
    decreases stats.len(),
{
    if stats.len() == 0 {
        0
    } else {
        total_memory(stats.drop_last()) + memory_of(stats.last()) as nat
    }
}

/// Memory in kilobytes of the process whose accounting entry is `stat`; 0 where it
/// could not be read.
pub fn get_mem_usage(stat: &Option<String>) -> (r: u64)
    ensures
        r == memory_of(
            match stat {
                Some(t) => Some(t@),
                None => None,
            },
        ),
{
    match stat {
        Some(t) => ProcessRecord::parse(t.as_str()).memory_usage_kb(),
        None => 0,
    }
}

/// Memory in kilobytes of a process set, one accounting entry per process; an entry that
/// could not be read counts 0. The sum is held at `u64::MAX`.
pub fn get_mem_usage_pids(stats: &Vec<Option<String>>) -> (r: u64)
    ensures
        r == sat_add(total_memory(stat_views(stats@)), 0),
        stats@.len() == 0 ==> r == 0,
{
    let ghost all = stat_views(stats@);
    let mut mem: u64 = 0;
    let mut i: usize = 0;
    while i < stats.len()
        invariant
            i <= stats.len(),
            all == stat_views(stats@),
            mem == sat_add(total_memory(all.take(i as int)), 0),
        decreases stats.len() - i,
    {
        assert(all.take(i + 1).drop_last() =~= all.take(i as int));
        let m = get_mem_usage(&stats[i]);
        mem = mem.saturating_add(m);
        i = i + 1;
    }
    assert(all.take(i as int) =~= all);
    mem
}

/// CPU ticks of each process of a set, from its accounting entry; none where any entry
/// could not be read.
pub fn get_cpu_tick(stats: &Vec<Option<String>>) -> (r: Option<Vec<u64>>)
    ensures
        r.is_none() <==> exists|i: int| 0 <= i < stats@.len() && stats@[i].is_none(),
        r matches Some(v) ==> v@.len() == stats@.len() && forall|i: int|
            0 <= i < stats@.len() ==> #[trigger] v@[i] == ProcessRecord::of_text(
                stats@[i]->Some_0@,
            ).ticks(),
{
    let mut data: Vec<u64> = Vec::new();
    let mut i: usize = 0;
    while i < stats.len()
        invariant
            i <= stats.len(),
            data@.len() == i,
            forall|k: int| 0 <= k < i ==> stats@[k].is_some(),
            forall|k: int|
                0 <= k < i ==> #[trigger] data@[k] == ProcessRecord::of_text(
                    stats@[k]->Some_0@,
                ).ticks(),
        decreases stats.len() - i,
    {
        match &stats[i] {
            Some(t) => {
                let ticks = ProcessRecord::parse(t.as_str()).cpu_ticks();
                data.push(ticks);
            },
            None => {
                return None;
            },
        }
        i = i + 1;
    }
    Some(data)
}

/// `after - before`, held at 0 where the counter went backward.
pub open spec fn tick_delta(before: u64, after: u64) -> u64 {
    if after >= before {
        (after - before) as u64
    } else {
        0
    }
}

/// The CPU ticks that each process spent between two samples of one process set, index
/// by index, over the indices that both samples hold.
pub fn tick_deltas(before: &Vec<u64>, after: &Vec<u64>) -> (r: Vec<u64>)
    ensures
        r@.len() == if before@.len() <= after@.len() {
            before@.len()
        } else {
            after@.len()
        },
        forall|i: int| 0 <= i < r@.len() ==> #[trigger] r@[i] == tick_delta(before@[i], after@[i]),
{
    let n = if before.len() <= after.len() {
        before.len()
    } else {
        after.len()
    };
    let mut r: Vec<u64> = Vec::new();
    let mut i: usize = 0;
    while i < n
        invariant
            n <= before.len(),
            n <= after.len(),
            i <= n,
            r@.len() == i,
            forall|k: int| 0 <= k < i ==> #[trigger] r@[k] == tick_delta(before@[k], after@[k]),
        decreases n - i,
    {
        r.push(after[i].saturating_sub(before[i]));
        i = i + 1;
    }
    r
}

/// The sum of the first `n` deltas.
pub open spec fn busy_ticks(before: Seq<u64>, after: Seq<u64>, n: int) -> nat
    decreases n,
{
    if n <= 0 {
        0
    } else {
        busy_ticks(before, after, n - 1) + tick_delta(before[n - 1], after[n - 1]) as nat
    }
}

/// The smaller of two lengths.
pub open spec fn common_len(a: Seq<u64>, b: Seq<u64>) -> int {
    if a.len() <= b.len() {
        a.len() as int
    } else {
        b.len() as int
    }
}

/// CPU share of a process set over an interval, in hundredths of a percent of the
/// system's CPU time, rounded to the nearest (halves up): the ticks that the processes
/// spent (held at `u64::MAX`) over the system's elapsed ticks, times 100. Zero where no
/// system time elapsed (or the system counter went backward): then every process's share
/// is passed over.
pub open spec fn percent_hundredths(
    before: Seq<u64>,
    after: Seq<u64>,
    sys_before: u64,
    sys_after: u64,
) -> nat {
    let sys = tick_delta(sys_before, sys_after) as nat;
    let busy = sat_add(busy_ticks(before, after, common_len(before, after)), 0) as nat;
    if sys == 0 {
        0
    } else {
        (busy * 10000 + sys / 2) / sys
    }
}

/// The CPU share of a process set between two samples, in hundredths of a percent: see
/// `percent_hundredths`.
pub fn cpu_percent_hundredths(
    before: &Vec<u64>,
    after: &Vec<u64>,
    sys_before: u64,
    sys_after: u64,
) -> (r: u128)
    ensures
        r == percent_hundredths(before@, after@, sys_before, sys_after),
        tick_delta(sys_before, sys_after) == 0 ==> r == 0,
{
    let sys = sys_after.saturating_sub(sys_before);
    let deltas = tick_deltas(before, after);
    let mut busy: u64 = 0;
    let mut i: usize = 0;
    while i < deltas.len()
        invariant
            i <= deltas.len(),
            deltas@.len() == common_len(before@, after@),
            forall|k: int|
                0 <= k < deltas@.len() ==> #[trigger] deltas@[k] == tick_delta(
                    before@[k],
                    after@[k],
                ),
            busy == sat_add(busy_ticks(before@, after@, i as int), 0),
        decreases deltas.len() - i,
    {
        if deltas[i] != 0 {
            busy = busy.saturating_add(deltas[i]);
        }
        i = i + 1;
    }
    if sys == 0 {
        return 0;
    }
    proof {
        assert((busy as nat) * 10000 + (sys as nat) / 2 <= u128::MAX) by (nonlinear_arith)
            requires
                busy <= u64::MAX,
                sys <= u64::MAX,
        ;
    }
    ((busy as u128) * 10000 + (sys as u128) / 2) / (sys as u128)
}

/// A counter that went backward between two samples gives a delta of 0, never a negative
/// or wrapped value; otherwise the delta is the difference.
pub proof fn lemma_backward_counter_saturates(before: u64, after: u64)
    ensures
        before > after ==> tick_delta(before, after) == 0,
        before <= after ==> tick_delta(before, after) == after - before,
{
}

/// Where no system time elapsed, the CPU share is 0 whatever the processes spent: the
/// result is always a finite number.
pub proof fn lemma_no_system_time_gives_zero(
    before: Seq<u64>,
    after: Seq<u64>,
    sys_before: u64,
    sys_after: u64,
)
    requires
        sys_after <= sys_before,
    ensures
        percent_hundredths(before, after, sys_before, sys_after) == 0,
{
}

} // verus!
