//! Process CPU usage between two samples, kept as an exact fraction.
use vstd::prelude::*;

verus! {

/// Usage above this percentage counts as activity.
pub const CPU_IDLE_THRESHOLD_PERCENT: u32 = 1;

/// A process's total CPU time (in 100 ns units) at an instant (in
/// nanoseconds on a monotonic clock).
#[derive(Clone, Copy, Debug, PartialEq, Eq)]
pub struct ProcessCpuSample {
    pub cpu_time_100ns: u64,
    pub sampled_at: u128,
}

/// CPU usage between two samples as an exact fraction: the CPU time used
/// over the CPU time that all processors offered, both in nanoseconds.
#[derive(Clone, Copy, Debug, PartialEq, Eq)]
pub struct CpuUsage {
    pub busy_nanos: u128,
    pub capacity_nanos: u128,
}

impl CpuUsage {
    /// Whether the usage is above `percent` percent.
    pub open spec fn above_percent(self, percent: nat) -> bool {
        self.busy_nanos * 100 > percent * self.capacity_nanos
    }

    /// Usage in thousandths of a percent, rounded down.
    pub fn percent_thousandths(&self) -> (r: u128)
        requires
            self.capacity_nanos > 0,
            self.busy_nanos <= u64::MAX as u128 * 100,
        ensures
            r == self.busy_nanos * 100_000 / self.capacity_nanos as int,
    {
        assert(self.busy_nanos * 100_000 <= u128::MAX) by (nonlinear_arith)
            requires
                self.busy_nanos <= u64::MAX as u128 * 100,
        ;
        self.busy_nanos * 100_000 / self.capacity_nanos
    }

    /// Whether the usage is above the idle threshold of one percent.
    pub fn is_active(&self) -> (r: bool)
        requires
            self.busy_nanos <= u64::MAX as u128 * 100,
        ensures
            r == self.above_percent(CPU_IDLE_THRESHOLD_PERCENT as nat),
    {
        self.busy_nanos * 100 > self.capacity_nanos
    }
}

/// The usage between two samples of a process on `processor_count`
/// processors, when the later sample is later, its CPU time did not go back
/// and the capacity fits in 128 bits.
pub open spec fn usage_between(previous: ProcessCpuSample, current: ProcessCpuSample, processor_count: u32) -> Option<
    CpuUsage,
> {
    if previous.sampled_at < current.sampled_at && previous.cpu_time_100ns <= current.cpu_time_100ns && (
    current.sampled_at - previous.sampled_at) * processor_count <= u128::MAX {
        Some(
            CpuUsage {
                busy_nanos: ((current.cpu_time_100ns - previous.cpu_time_100ns) * 100) as u128,
                capacity_nanos: ((current.sampled_at - previous.sampled_at) * processor_count) as u128,
            },
        )
    } else {
        None
    }
}

/// The CPU usage of a process between two samples, spread over
/// `processor_count` processors; `None` when no time passed, the CPU time
/// went back, or the interval times the processor count exceeds 128 bits.
pub fn process_cpu_usage_percent(
    previous: ProcessCpuSample,
    current: ProcessCpuSample,
    processor_count: u32,
) -> (r: Option<CpuUsage>)
    requires
        processor_count >= 1,
    ensures
        r.is_some() <==> previous.sampled_at < current.sampled_at && previous.cpu_time_100ns
            <= current.cpu_time_100ns && (current.sampled_at - previous.sampled_at) * processor_count
            <= u128::MAX,
        r matches Some(u) ==> u.busy_nanos == (current.cpu_time_100ns - previous.cpu_time_100ns) * 100
            && u.capacity_nanos == (current.sampled_at - previous.sampled_at) * processor_count
            && u.capacity_nanos > 0 && u.busy_nanos <= u64::MAX as u128 * 100,
        r == usage_between(previous, current, processor_count),
{
    if current.sampled_at <= previous.sampled_at || current.cpu_time_100ns < previous.cpu_time_100ns {
        return None;
    }
    let elapsed = current.sampled_at - previous.sampled_at;
    let busy = (current.cpu_time_100ns - previous.cpu_time_100ns) as u128;
    match elapsed.checked_mul(processor_count as u128) {
        Some(capacity) => {
            assert(elapsed * processor_count >= 1) by (nonlinear_arith)
                requires
                    elapsed >= 1,
                    processor_count >= 1,
            ;
            Some(CpuUsage { busy_nanos: busy * 100, capacity_nanos: capacity })
        },
        None => None,
    }
}

/// The CPU demand of a process between two samples, measured against the
/// capacity of one logical processor.
pub fn process_cpu_demand_percent(previous: ProcessCpuSample, current: ProcessCpuSample) -> (r: Option<CpuUsage>)
    ensures
        r.is_some() <==> previous.sampled_at < current.sampled_at && previous.cpu_time_100ns
            <= current.cpu_time_100ns,
        r matches Some(u) ==> u.busy_nanos == (current.cpu_time_100ns - previous.cpu_time_100ns) * 100
            && u.capacity_nanos == current.sampled_at - previous.sampled_at && u.capacity_nanos > 0
            && u.busy_nanos <= u64::MAX as u128 * 100,
{
    process_cpu_usage_percent(previous, current, 1)
}

/// The usage as tenths of a percent, clamped to 0..=100% and rounded to the
/// nearest tenth (halves up).
pub open spec fn percent_tenths_spec(u: CpuUsage) -> int {
    if u.busy_nanos * 100 >= 100 * u.capacity_nanos {
        1000
    } else {
        let scaled = u.busy_nanos * 1000;
        scaled / (u.capacity_nanos as int) + if 2 * (scaled % (u.capacity_nanos as int)) >= u.capacity_nanos {
            1int
        } else {
            0int
        }
    }
}

/// The usage in tenths of a percent, clamped to 100% and rounded.
pub fn percent_tenths(usage: CpuUsage) -> (r: u16)
    requires
        usage.capacity_nanos > 0,
        usage.busy_nanos <= u64::MAX as u128 * 100,
    ensures
        r == percent_tenths_spec(usage),
        r <= 1000,
{
    if usage.busy_nanos >= usage.capacity_nanos {
        return 1000;
    }
    let b = usage.busy_nanos;
    let c = usage.capacity_nanos;
    let scaled = b * 1000;
    let q = scaled / c;
    let rem = scaled % c;
    assert(q < 1000) by (nonlinear_arith)
        requires
            b < c,
            c > 0,
            q == scaled / c,
            scaled == b * 1000,
    ;
    let t = if rem >= c - rem {
        q + 1
    } else {
        q
    };
    t as u16
}

/// Whether the usage is at least `percent` percent.
pub open spec fn usage_at_least(u: CpuUsage, percent: int) -> bool {
    u.busy_nanos * 100 >= percent * u.capacity_nanos
}

/// Whether the usage is above `percent` percent.
pub open spec fn usage_above(u: CpuUsage, percent: int) -> bool {
    u.busy_nanos * 100 > percent * u.capacity_nanos
}

pub fn usage_at_least_exec(u: CpuUsage, percent: u8) -> (r: bool)
    requires
        u.busy_nanos <= u64::MAX as u128 * 100,
    ensures
        r == usage_at_least(u, percent as int),
{
    match (percent as u128).checked_mul(u.capacity_nanos) {
        Some(t) => u.busy_nanos * 100 >= t,
        None => false,
    }
}

pub fn usage_above_exec(u: CpuUsage, percent: u8) -> (r: bool)
    requires
        u.busy_nanos <= u64::MAX as u128 * 100,
    ensures
        r == usage_above(u, percent as int),
{
    match (percent as u128).checked_mul(u.capacity_nanos) {
        Some(t) => u.busy_nanos * 100 > t,
        None => false,
    }
}

/// `now - since`, or zero when the clock reads earlier.
pub open spec fn elapsed_since(now: u128, since: u128) -> int {
    if now >= since {
        now - since
    } else {
        0
    }
}

/// `now - since`, or zero when the clock reads earlier.
pub fn elapsed_nanos(now: u128, since: u128) -> (r: u128)
    ensures
        r == elapsed_since(now, since),
{
    if now >= since {
        now - since
    } else {
        0
    }
}

/// The last CPU sample of a group of processes (their ids in increasing
/// order), from which the next one's usage is measured.
pub struct GroupCpuSample {
    pub process_ids: Vec<u32>,
    pub sample: ProcessCpuSample,
}

/// A group sample as plain values.
pub open spec fn group_sample_view(s: Option<GroupCpuSample>) -> Option<(Seq<u32>, ProcessCpuSample)> {
    match s {
        Some(g) => Some((g.process_ids@, g.sample)),
        None => None,
    }
}

fn same_ids(a: &Vec<u32>, b: &Vec<u32>) -> (r: bool)
    ensures
        r == (a@ == b@),
{
    if a.len() != b.len() {
        return false;
    }
    let mut i: usize = 0;
    while i < a.len()
        invariant
            i <= a@.len(),
            a@.len() == b@.len(),
            forall|j: int| 0 <= j < i ==> a@[j] == b@[j],
        decreases a@.len() - i,
    {
        if a[i] != b[i] {
            return false;
        }
        i = i + 1;
    }
    assert(a@ =~= b@);
    true
}

/// Takes the CPU sample just read for a group of processes (`None` when it
/// could not be read) and gives the group's usage since the last sample,
/// when the last sample was of the same group. An empty group forgets the
/// last sample; an unreadable sample keeps it; otherwise the new sample
/// replaces it.
pub fn group_cpu_usage_step(
    last: &mut Option<GroupCpuSample>,
    process_ids: &Vec<u32>,
    current: Option<ProcessCpuSample>,
    processor_count: u32,
) -> (r: Option<CpuUsage>)
    requires
        processor_count >= 1,
    ensures
        process_ids@.len() == 0 ==> group_sample_view(*final(last)) is None && r is None,
        process_ids@.len() > 0 && current is None ==> group_sample_view(*final(last)) == group_sample_view(*old(last))
            && r is None,
        process_ids@.len() > 0 ==> (current matches Some(c) ==> {
            &&& group_sample_view(*final(last)) == Some((process_ids@, c))
            &&& r == match group_sample_view(*old(last)) {
                Some((ids, previous)) => if ids == process_ids@ {
                    usage_between(previous, c, processor_count)
                } else {
                    None
                },
                None => None,
            }
        }),
{
    if process_ids.len() == 0 {
        *last = None;
        return None;
    }
    let c = match current {
        Some(c) => c,
        None => {
            return None;
        },
    };
    let usage = match last {
        Some(g) => if same_ids(&g.process_ids, process_ids) {
            process_cpu_usage_percent(g.sample, c, processor_count)
        } else {
            None
        },
        None => None,
    };
    *last = Some(GroupCpuSample { process_ids: process_ids.clone(), sample: c });
    usage
}

} // verus!
