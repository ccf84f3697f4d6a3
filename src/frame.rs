use crate::history::CpuFrequencyHistory;
use vstd::prelude::*;

verus! {

/// Number of labelled ticks on the frequency axis.
pub const TICK_COUNT: u32 = 5;

/// Number of distinct colours cycled through for the cores (colour 0, black, is skipped).
pub const PALETTE_SIZE: u32 = 8;

/// The sum of a sequence of samples.
pub open spec fn total_of(s: Seq<u32>) -> int
    decreases s.len(),
{
    if s.len() == 0 {
        0
    } else {
        total_of(s.drop_last()) + s.last() as int
    }
}

/// The newest sample of every core.
pub open spec fn newest_of(series: Seq<Seq<u32>>) -> Seq<u32> {
    Seq::new(series.len(), |i: int| series[i].last())
}

/// Five times the raw value of tick `k` (1-based): tick `k` is the lower
/// bound plus exactly `k` fifths of the span between the bounds, so the ticks
/// are evenly spaced and scaling by five keeps them whole.
pub open spec fn tick_value(min_value: u32, max_value: u32, k: int) -> int {
    TICK_COUNT * min_value + k * (max_value - min_value)
}

/// The colour index of a core: cycles through 1..=8, never 0.
pub open spec fn palette_of(core: u32) -> int {
    (core % PALETTE_SIZE) as int + 1
}

/// The newest sample of each core, in core order.
pub fn current_values(h: &CpuFrequencyHistory) -> (r: Vec<u32>)
    requires
        h.wf(),
        h@.capacity > 0,
    ensures
        r@ == newest_of(h@.series),
{
    let n = h.core_count();
    let last = h.capacity() - 1;
    let mut out: Vec<u32> = Vec::new();
    let mut i: usize = 0;
    while i < n
        invariant
            n == h@.series.len(),
            last + 1 == h@.capacity,
            h.wf(),
            i <= n,
            out@ == newest_of(h@.series).take(i as int),
        decreases n - i,
    {
        let ring = h.series(i);
        assert(ring@.len() == h@.capacity);
        out.push(ring[last]);
        i = i + 1;
        assert(out@ =~= newest_of(h@.series).take(i as int));
    }
    assert(out@ =~= newest_of(h@.series));
    out
}

/// The sum of the given samples, without overflow.
pub fn total(values: &Vec<u32>) -> (r: u128)
    ensures
        r as int == total_of(values@),
{
    let mut sum: u128 = 0;
    let mut i: usize = 0;
    while i < values.len()
        invariant
            i <= values@.len(),
            sum as int == total_of(values@.take(i as int)),
            sum as int <= i as int * 0xFFFF_FFFF,
        decreases values@.len() - i,
    {
        assert(values@.take(i as int + 1).drop_last() =~= values@.take(i as int));
        assert(i < 0x1_0000_0000_0000_0000) by {
            assert(values@.len() <= usize::MAX);
        }
        sum = sum + values[i] as u128;
        i = i + 1;
        assert((i as int) * 0xFFFF_FFFF == (i as int - 1) * 0xFFFF_FFFF + 0xFFFF_FFFF) by (nonlinear_arith);
    }
    assert(values@.take(i as int) =~= values@);
    sum
}

/// The axis labels, each as five times its raw value: ticks 1 to 5 divide
/// `[min_value, max_value]` into five equal steps, the last at `max_value`.
/// Dividing by `TICK_COUNT` gives the exact tick.
pub fn axis_ticks(min_value: u32, max_value: u32) -> (r: Vec<u64>)
    requires
        min_value <= max_value,
    ensures
        r@.len() == TICK_COUNT,
        forall|k: int| 0 <= k < TICK_COUNT ==> r@[k] as int == tick_value(min_value, max_value, k + 1),
        forall|k: int|
            0 <= k < TICK_COUNT ==> TICK_COUNT * min_value <= #[trigger] r@[k] <= TICK_COUNT * max_value,
        r@[TICK_COUNT - 1] == TICK_COUNT * max_value,
{
    let span: u64 = (max_value - min_value) as u64;
    let base: u64 = 5 * (min_value as u64);
    let mut out: Vec<u64> = Vec::new();
    let mut k: u64 = 1;
    while k <= 5
        invariant
            1 <= k <= TICK_COUNT + 1,
            span == max_value - min_value,
            base == TICK_COUNT * min_value,
            out@.len() == k - 1,
            forall|j: int| 0 <= j < k - 1 ==> out@[j] as int == tick_value(min_value, max_value, j + 1),
            forall|j: int|
                0 <= j < k - 1 ==> TICK_COUNT * min_value <= #[trigger] out@[j] <= TICK_COUNT * max_value,
        decreases TICK_COUNT + 1 - k,
    {
        assert(k * span <= 5 * span) by (nonlinear_arith)
            requires
                k <= 5,
        ;
        out.push(base + k * span);
        k = k + 1;
    }
    out
}

/// The colour index of a core's line and label: one of 1 to 8, by core number.
pub fn palette_index(core: u32) -> (r: u8)
    ensures
        r as int == palette_of(core),
{
    (core % PALETTE_SIZE) as u8 + 1
}

} // verus!
