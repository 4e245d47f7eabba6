//! Logical-processor topology and the processor masks that restrained
//! processes are confined to.
use vstd::prelude::*;

verus! {

/// The class of a logical processor on a hybrid (or uniform) CPU.
#[derive(Debug, Clone, Copy, PartialEq, Eq, Structural)]
pub enum LogicalProcessorKind {
    Standard,
    Performance,
    Efficiency,
}

/// One logical processor: its index in the affinity mask, its physical core
/// and its class.
#[derive(Debug, Clone, Copy, PartialEq, Eq, Structural)]
pub struct LogicalProcessorInfo {
    pub index: usize,
    pub core_index: u32,
    pub kind: LogicalProcessorKind,
    pub efficiency_class: u8,
}

/// How a processor restriction is applied: preferred CPU sets, or a hard
/// affinity mask.
#[derive(Debug, Clone, Copy, PartialEq, Eq, Structural)]
pub enum CpuAllocationMode {
    SoftCpuSets,
    HardAffinity,
}

/// The mask bit of a processor index; indices past 63 have none.
pub open spec fn index_bit(i: int) -> u64 {
    if 0 <= i < 64 {
        1u64 << (i as u64)
    } else {
        0
    }
}

/// The bits of every listed processor.
pub open spec fn all_mask(ps: Seq<LogicalProcessorInfo>) -> u64
    decreases ps.len(),
{
    if ps.len() == 0 {
        0
    } else {
        all_mask(ps.drop_last()) | index_bit(ps.last().index as int)
    }
}

/// The bits of the listed processors of one kind.
pub open spec fn kind_mask(ps: Seq<LogicalProcessorInfo>, kind: LogicalProcessorKind) -> u64
    decreases ps.len(),
{
    if ps.len() == 0 {
        0
    } else {
        kind_mask(ps.drop_last(), kind) | if ps.last().kind == kind {
            index_bit(ps.last().index as int)
        } else {
            0
        }
    }
}

/// Whether `ps[j]` is the first listed processor of its core.
pub open spec fn first_of_core(ps: Seq<LogicalProcessorInfo>, j: int) -> bool {
    forall|k: int| 0 <= k < j ==> ps[k].core_index != ps[j].core_index
}

/// The bits of one logical processor per physical core (the first listed).
pub open spec fn no_smt_mask(ps: Seq<LogicalProcessorInfo>) -> u64
    decreases ps.len(),
{
    if ps.len() == 0 {
        0
    } else {
        no_smt_mask(ps.drop_last()) | if first_of_core(ps, ps.len() - 1) {
            index_bit(ps.last().index as int)
        } else {
            0
        }
    }
}

/// The bits of a list of processor indices.
pub open spec fn indices_mask(ids: Seq<u8>) -> u64
    decreases ids.len(),
{
    if ids.len() == 0 {
        0
    } else {
        indices_mask(ids.drop_last()) | index_bit(ids.last() as int)
    }
}

fn bit_of(index: usize) -> (r: u64)
    ensures
        r == index_bit(index as int),
{
    if index < 64 {
        1u64 << (index as u64)
    } else {
        0
    }
}

/// The mask of every listed processor.
pub fn logical_processor_mask(processors: &Vec<LogicalProcessorInfo>) -> (r: u64)
    ensures
        r == all_mask(processors@),
{
    let mut mask: u64 = 0;
    let mut i: usize = 0;
    while i < processors.len()
        invariant
            i <= processors@.len(),
            mask == all_mask(processors@.subrange(0, i as int)),
        decreases processors@.len() - i,
    {
        mask = mask | bit_of(processors[i].index);
        proof {
            let next = processors@.subrange(0, i + 1);
            assert(next.drop_last() =~= processors@.subrange(0, i as int));
        }
        i = i + 1;
    }
    assert(processors@.subrange(0, processors@.len() as int) =~= processors@);
    mask
}

/// The mask of the listed processors of one kind.
pub fn logical_processor_kind_mask(processors: &Vec<LogicalProcessorInfo>, kind: LogicalProcessorKind) -> (r: u64)
    ensures
        r == kind_mask(processors@, kind),
{
    let mut mask: u64 = 0;
    let mut i: usize = 0;
    while i < processors.len()
        invariant
            i <= processors@.len(),
            mask == kind_mask(processors@.subrange(0, i as int), kind),
        decreases processors@.len() - i,
    {
        if processors[i].kind == kind {
            mask = mask | bit_of(processors[i].index);
        } else {
            mask = mask | 0;
        }
        proof {
            let next = processors@.subrange(0, i + 1);
            assert(next.drop_last() =~= processors@.subrange(0, i as int));
        }
        i = i + 1;
    }
    assert(processors@.subrange(0, processors@.len() as int) =~= processors@);
    mask
}

/// The mask of one logical processor per physical core.
pub fn logical_processor_no_smt_mask(processors: &Vec<LogicalProcessorInfo>) -> (r: u64)
    ensures
        r == no_smt_mask(processors@),
{
    let mut mask: u64 = 0;
    let mut i: usize = 0;
    while i < processors.len()
        invariant
            i <= processors@.len(),
            mask == no_smt_mask(processors@.subrange(0, i as int)),
        decreases processors@.len() - i,
    {
        let mut first = true;
        let mut k: usize = 0;
        while k < i
            invariant
                i < processors@.len(),
                k <= i,
                first == forall|t: int| 0 <= t < k ==> processors@[t].core_index != processors@[i as int].core_index,
            decreases i - k,
        {
            if processors[k].core_index == processors[i].core_index {
                first = false;
            }
            k = k + 1;
        }
        let ghost next = processors@.subrange(0, i + 1);
        proof {
            assert(next.drop_last() =~= processors@.subrange(0, i as int));
            assert(first == first_of_core(next, next.len() - 1)) by {
                if !first {
                    let t = choose|t: int| 0 <= t < i && processors@[t].core_index == processors@[i as int].core_index;
                    assert(next[t] == processors@[t]);
                }
            }
        }
        if first {
            mask = mask | bit_of(processors[i].index);
        } else {
            mask = mask | 0;
        }
        proof {
            lemma_no_smt_prefix(next);
        }
        i = i + 1;
    }
    assert(processors@.subrange(0, processors@.len() as int) =~= processors@);
    mask
}

proof fn lemma_no_smt_prefix(ps: Seq<LogicalProcessorInfo>)
    requires
        ps.len() > 0,
    ensures
        no_smt_mask(ps) == no_smt_mask(ps.drop_last()) | if first_of_core(ps, ps.len() - 1) {
            index_bit(ps.last().index as int)
        } else {
            0
        },
{
}

/// The mask of a list of processor indices.
pub fn logical_processor_indices_mask(indices: &Vec<u8>) -> (r: u64)
    ensures
        r == indices_mask(indices@),
{
    let mut mask: u64 = 0;
    let mut i: usize = 0;
    while i < indices.len()
        invariant
            i <= indices@.len(),
            mask == indices_mask(indices@.subrange(0, i as int)),
        decreases indices@.len() - i,
    {
        mask = mask | bit_of(indices[i] as usize);
        proof {
            let next = indices@.subrange(0, i + 1);
            assert(next.drop_last() =~= indices@.subrange(0, i as int));
        }
        i = i + 1;
    }
    assert(indices@.subrange(0, indices@.len() as int) =~= indices@);
    mask
}

/// A processor and its load (thousandths of a percent).
pub type LoadedProcessor = (usize, i64);

/// Lower load first; on equal load, lower index first.
pub open spec fn load_lt(a: LoadedProcessor, b: LoadedProcessor) -> bool {
    a.1 < b.1 || (a.1 == b.1 && a.0 < b.0)
}

/// How many entries of `cs` come strictly before `c` in load order.
pub open spec fn load_rank(cs: Seq<LoadedProcessor>, c: LoadedProcessor) -> nat
    decreases cs.len(),
{
    if cs.len() == 0 {
        0
    } else {
        load_rank(cs.drop_last(), c) + if load_lt(cs.last(), c) {
            1nat
        } else {
            0nat
        }
    }
}

/// The bits of the entries of `cs` whose load rank in `all` is below
/// `limit`: the `limit` least-loaded processors.
pub open spec fn least_loaded_mask(cs: Seq<LoadedProcessor>, all: Seq<LoadedProcessor>, limit: nat) -> u64
    decreases cs.len(),
{
    if cs.len() == 0 {
        0
    } else {
        least_loaded_mask(cs.drop_last(), all, limit) | if load_rank(all, cs.last()) < limit {
            index_bit(cs.last().0 as int)
        } else {
            0
        }
    }
}

/// The number of entries of `cs` before `c` in load order.
pub fn count_less_loaded(cs: &Vec<LoadedProcessor>, c: LoadedProcessor) -> (r: usize)
    ensures
        r == load_rank(cs@, c),
{
    let mut n: usize = 0;
    let mut i: usize = 0;
    while i < cs.len()
        invariant
            i <= cs@.len(),
            n == load_rank(cs@.subrange(0, i as int), c),
            n <= i,
        decreases cs@.len() - i,
    {
        let e = cs[i];
        if e.1 < c.1 || (e.1 == c.1 && e.0 < c.0) {
            n = n + 1;
        }
        proof {
            let next = cs@.subrange(0, i + 1);
            assert(next.drop_last() =~= cs@.subrange(0, i as int));
        }
        i = i + 1;
    }
    assert(cs@.subrange(0, cs@.len() as int) =~= cs@);
    n
}

/// The mask of the `limit` least-loaded processors of `cs` (ties by index).
pub fn least_loaded_processor_mask(cs: &Vec<LoadedProcessor>, limit: usize) -> (r: u64)
    ensures
        r == least_loaded_mask(cs@, cs@, limit as nat),
{
    let mut mask: u64 = 0;
    let mut i: usize = 0;
    while i < cs.len()
        invariant
            i <= cs@.len(),
            mask == least_loaded_mask(cs@.subrange(0, i as int), cs@, limit as nat),
        decreases cs@.len() - i,
    {
        let rank = count_less_loaded(cs, cs[i]);
        if rank < limit {
            mask = mask | bit_of(cs[i].0);
        } else {
            mask = mask | 0;
        }
        proof {
            let next = cs@.subrange(0, i + 1);
            assert(next.drop_last() =~= cs@.subrange(0, i as int));
        }
        i = i + 1;
    }
    assert(cs@.subrange(0, cs@.len() as int) =~= cs@);
    mask
}

/// How long a core selection stays before a rebalance, in nanoseconds.
pub const CORE_REBALANCE_INTERVAL_NANOS: u128 = 3_000_000_000;

/// How much lower the average load of a new selection must be to replace a
/// recent one, in thousandths of a percent (15 percent).
pub const CORE_REBALANCE_IMPROVEMENT_THOUSANDTHS: i64 = 15_000;

/// The processors a restraint was last confined to, for which kind of
/// processor, and since when.
#[derive(Debug, Clone, Copy, PartialEq, Eq, Structural)]
pub struct CoreSelection {
    pub mask: u64,
    pub kind: Option<LogicalProcessorKind>,
    pub selected_at: u128,
}

/// Whether bit `i` of the mask is set.
pub open spec fn mask_has(mask: u64, i: int) -> bool {
    0 <= i < 64 && (mask >> (i as u64)) & 1 == 1
}

/// How many of the first `n` bits of the mask are set.
pub open spec fn bit_count(mask: u64, n: nat) -> nat
    decreases n,
{
    if n == 0 {
        0
    } else {
        bit_count(mask, (n - 1) as nat) + if mask_has(mask, n - 1) { 1nat } else { 0 }
    }
}

/// How many bits of the mask are set.
pub fn mask_bit_count(mask: u64) -> (r: u32)
    ensures
        r == bit_count(mask, 64),
{
    let mut count: u32 = 0;
    let mut i: u64 = 0;
    while i < 64
        invariant
            i <= 64,
            count == bit_count(mask, i as nat),
            count <= i,
        decreases 64 - i,
    {
        if (mask >> i) & 1 == 1 {
            count = count + 1;
        }
        i = i + 1;
    }
    count
}

/// The sum and number of the loads of the mask's processors among the first
/// `n` readings.
pub open spec fn masked_load(mask: u64, loads: Seq<i64>, n: nat) -> (int, nat)
    decreases n,
{
    if n == 0 {
        (0, 0)
    } else {
        let (sum, count) = masked_load(mask, loads, (n - 1) as nat);
        if mask_has(mask, n - 1) && n - 1 < loads.len() {
            (sum + loads[n - 1], count + 1)
        } else {
            (sum, count)
        }
    }
}

proof fn lemma_masked_load_bounds(mask: u64, loads: Seq<i64>, n: nat)
    ensures
        masked_load(mask, loads, n).1 <= if n < 64 { n } else { 64 },
        -(masked_load(mask, loads, n).1 * 0x8000_0000_0000_0000) <= masked_load(mask, loads, n).0 <= masked_load(
            mask,
            loads,
            n,
        ).1 * 0x7FFF_FFFF_FFFF_FFFF,
    decreases n,
{
    if n > 0 {
        lemma_masked_load_bounds(mask, loads, (n - 1) as nat);
    }
}

/// The sum and number of the loads of the mask's processors.
pub fn masked_load_sum(mask: u64, loads: &Vec<i64>) -> (r: (i128, u32))
    ensures
        r.0 == masked_load(mask, loads@, loads@.len()).0,
        r.1 == masked_load(mask, loads@, loads@.len()).1,
        r.1 <= 64,
{
    let mut sum: i128 = 0;
    let mut count: u32 = 0;
    let mut i: usize = 0;
    while i < loads.len()
        invariant
            i <= loads@.len(),
            sum == masked_load(mask, loads@, i as nat).0,
            count == masked_load(mask, loads@, i as nat).1,
            count <= 64,
        decreases loads@.len() - i,
    {
        proof {
            lemma_masked_load_bounds(mask, loads@, i as nat);
            lemma_masked_load_bounds(mask, loads@, (i + 1) as nat);
        }
        if i < 64 && (mask >> (i as u64)) & 1 == 1 {
            sum = sum + loads[i] as i128;
            count = count + 1;
        }
        i = i + 1;
    }
    (sum, count)
}

/// Whether a recent selection is kept over a new mask: same kind, as many
/// processors, chosen less than the rebalance interval ago, and the new mask
/// not lowering the average load by the rebalance improvement (or either
/// average unknown, having no readings).
pub open spec fn keep_selection(
    previous: CoreSelection,
    next_mask: u64,
    kind: Option<LogicalProcessorKind>,
    loads: Seq<i64>,
    now: u128,
) -> bool {
    let (ps, pc) = masked_load(previous.mask, loads, loads.len());
    let (ns, nc) = masked_load(next_mask, loads, loads.len());
    &&& previous.kind == kind
    &&& bit_count(previous.mask, 64) == bit_count(next_mask, 64)
    &&& (if now >= previous.selected_at { now - previous.selected_at } else { 0 }) < CORE_REBALANCE_INTERVAL_NANOS
    &&& (pc == 0 || nc == 0 || ps * nc - ns * pc < CORE_REBALANCE_IMPROVEMENT_THOUSANDTHS * pc * nc)
}

/// The mask a restraint uses and the selection it keeps: a recent selection
/// (see `keep_selection`) stays, else the new mask is taken; the selection is
/// renewed, from `now`, when its mask or kind changes.
pub open spec fn core_choice(
    previous: Option<CoreSelection>,
    next_mask: u64,
    kind: Option<LogicalProcessorKind>,
    loads: Seq<i64>,
    now: u128,
) -> (u64, CoreSelection) {
    let mask = match previous {
        Some(p) => if keep_selection(p, next_mask, kind, loads, now) {
            p.mask
        } else {
            next_mask
        },
        None => next_mask,
    };
    match previous {
        Some(p) => if p.mask == mask && p.kind == kind {
            (mask, p)
        } else {
            (mask, CoreSelection { mask, kind, selected_at: now })
        },
        None => (mask, CoreSelection { mask, kind, selected_at: now }),
    }
}

/// The selection kept after a choice is for the mask and kind chosen; it
/// keeps its start while mask and kind stay, and starts now when either
/// changes; and within the rebalance interval a same-sized choice of the
/// same kind moves only for a load gain of at least the rebalance
/// improvement.
pub proof fn law_core_choice_is_stable(
    previous: Option<CoreSelection>,
    next_mask: u64,
    kind: Option<LogicalProcessorKind>,
    loads: Seq<i64>,
    now: u128,
)
    ensures
        ({
            let (mask, selection) = core_choice(previous, next_mask, kind, loads, now);
            &&& selection.mask == mask
            &&& selection.kind == kind
            &&& (previous matches Some(p) && p.mask == mask && p.kind == kind) ==> selection == previous->0
            &&& !(previous matches Some(p) && p.mask == mask && p.kind == kind) ==> selection.selected_at == now
            &&& mask == next_mask || (previous matches Some(p) && mask == p.mask && keep_selection(
                p,
                next_mask,
                kind,
                loads,
                now,
            ))
        }),
{
}

/// The mask a restraint uses now, and the selection to keep (see
/// `core_choice`). Loads are in thousandths of a percent, indexed by
/// processor.
pub fn choose_core_mask(
    previous: Option<CoreSelection>,
    next_mask: u64,
    kind: Option<LogicalProcessorKind>,
    loads: &Vec<i64>,
    now: u128,
) -> (r: (u64, CoreSelection))
    ensures
        r == core_choice(previous, next_mask, kind, loads@, now),
{
    let mask = match previous {
        Some(p) => {
            let elapsed = if now >= p.selected_at {
                now - p.selected_at
            } else {
                0
            };
            let (ps, pc) = masked_load_sum(p.mask, loads);
            let (ns, nc) = masked_load_sum(next_mask, loads);
            let small_gain = if pc == 0 || nc == 0 {
                true
            } else {
                assert(-(64 * 0x8000_0000_0000_0000) <= ps <= 64 * 0x7FFF_FFFF_FFFF_FFFF) by {
                    lemma_masked_load_bounds(p.mask, loads@, loads@.len());
                }
                assert(-(64 * 0x8000_0000_0000_0000) <= ns <= 64 * 0x7FFF_FFFF_FFFF_FFFF) by {
                    lemma_masked_load_bounds(next_mask, loads@, loads@.len());
                }
                assert(-(64 * 64 * 0x8000_0000_0000_0000) <= ps * (nc as i128) <= 64 * 64 * 0x8000_0000_0000_0000)
                    by (nonlinear_arith)
                    requires
                        -(64 * 0x8000_0000_0000_0000) <= ps <= 64 * 0x7FFF_FFFF_FFFF_FFFF,
                        0 <= nc <= 64,
                ;
                assert(-(64 * 64 * 0x8000_0000_0000_0000) <= ns * (pc as i128) <= 64 * 64 * 0x8000_0000_0000_0000)
                    by (nonlinear_arith)
                    requires
                        -(64 * 0x8000_0000_0000_0000) <= ns <= 64 * 0x7FFF_FFFF_FFFF_FFFF,
                        0 <= pc <= 64,
                ;
                assert(0 <= (pc as i128) * (nc as i128) <= 64 * 64) by (nonlinear_arith)
                    requires
                        0 <= pc <= 64,
                        0 <= nc <= 64,
                ;
                ps * (nc as i128) - ns * (pc as i128) < (CORE_REBALANCE_IMPROVEMENT_THOUSANDTHS as i128) * ((pc as i128)
                    * (nc as i128))
            };
            proof {
                assert(CORE_REBALANCE_IMPROVEMENT_THOUSANDTHS * pc * nc == CORE_REBALANCE_IMPROVEMENT_THOUSANDTHS * (pc
                    * nc)) by (nonlinear_arith);
            }
            if p.kind == kind && mask_bit_count(p.mask) == mask_bit_count(next_mask) && elapsed
                < CORE_REBALANCE_INTERVAL_NANOS && small_gain {
                p.mask
            } else {
                next_mask
            }
        },
        None => next_mask,
    };
    match previous {
        Some(p) => if p.mask == mask && p.kind == kind {
            (mask, p)
        } else {
            (mask, CoreSelection { mask, kind, selected_at: now })
        },
        None => (mask, CoreSelection { mask, kind, selected_at: now }),
    }
}

} // verus!
