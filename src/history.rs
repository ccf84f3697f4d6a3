use std::collections::VecDeque;
use vstd::prelude::*;

verus! {

/// Why an operation on the history or the sampling session failed.
#[derive(Debug, Clone, Copy, PartialEq, Eq, Structural)]
pub enum MonitorError {
    /// The set of cores could not be determined.
    CoreEnumeration,
    /// A per-core value could not be read or parsed.
    SampleRead,
    /// A batch of samples did not hold exactly one value per core.
    ShapeMismatch,
    /// The terminal could not be set up, drawn on or restored.
    Terminal,
    /// The input device could not be polled or read.
    Input,
}

/// The abstract state of a frequency history.
pub struct HistoryView {
    pub running: bool,
    pub failed: bool,
    pub capacity: nat,
    pub min_value: u32,
    pub max_value: u32,
    pub series: Seq<Seq<u32>>,
}

/// A ring of `capacity` zero samples.
pub open spec fn zero_ring(capacity: nat) -> Seq<u32> {
    Seq::new(capacity, |j: int| 0u32)
}

/// The state of a freshly created history.
pub open spec fn created(cores: nat, capacity: nat, min_value: u32, max_value: u32) -> HistoryView {
    HistoryView {
        running: true,
        failed: false,
        capacity,
        min_value,
        max_value,
        series: Seq::new(cores, |i: int| zero_ring(capacity)),
    }
}

/// One ring after `value` is inserted as the newest sample and the oldest one leaves.
pub open spec fn rotate_in(ring: Seq<u32>, value: u32) -> Seq<u32> {
    ring.push(value).drop_first()
}

/// The state after one batch of samples, one per core, is appended.
pub open spec fn appended(h: HistoryView, values: Seq<u32>) -> HistoryView {
    HistoryView {
        series: Seq::new(h.series.len(), |i: int| rotate_in(h.series[i], values[i])),
        ..h
    }
}

/// The state after the stop request.
pub open spec fn stopped(h: HistoryView) -> HistoryView {
    HistoryView { running: false, ..h }
}

/// The state after the sampling has reported a failure.
pub open spec fn failed(h: HistoryView) -> HistoryView {
    HistoryView { failed: true, ..h }
}

/// Every ring holds exactly `capacity` samples, and the bounds are ordered.
pub open spec fn view_wf(h: HistoryView) -> bool {
    &&& h.min_value <= h.max_value
    &&& forall|i: int| 0 <= i < h.series.len() ==> (#[trigger] h.series[i]).len() == h.capacity
}

/// The state after a batch is offered to `append`: a batch of the wrong
/// shape is refused and changes nothing.
pub open spec fn append_batch(h: HistoryView, values: Seq<u32>) -> HistoryView {
    if values.len() == h.series.len() {
        appended(h, values)
    } else {
        h
    }
}

/// The state after each batch of `batches` is offered to `append`, in order.
pub open spec fn append_all(h: HistoryView, batches: Seq<Seq<u32>>) -> HistoryView
    decreases batches.len(),
{
    if batches.len() == 0 {
        h
    } else {
        append_batch(append_all(h, batches.drop_last()), batches.last())
    }
}

/// The samples that `batches` hold for core `c`, in order.
pub open spec fn column(batches: Seq<Seq<u32>>, c: int) -> Seq<u32> {
    Seq::new(batches.len(), |k: int| batches[k][c])
}

/// Whatever batches are appended, every ring keeps exactly `capacity`
/// samples, the number of rings stays the same, and so do the bounds and the
/// running flag.
pub proof fn lemma_rings_keep_capacity(h: HistoryView, batches: Seq<Seq<u32>>)
    ensures
        view_wf(h) ==> view_wf(append_all(h, batches)),
        append_all(h, batches).series.len() == h.series.len(),
        append_all(h, batches).capacity == h.capacity,
        append_all(h, batches).running == h.running,
    decreases batches.len(),
{
    if batches.len() > 0 {
        lemma_rings_keep_capacity(h, batches.drop_last());
    }
}

proof fn lemma_rings_after(h: HistoryView, batches: Seq<Seq<u32>>, c: int)
    requires
        0 <= c < h.series.len(),
        forall|k: int| 0 <= k < batches.len() ==> (#[trigger] batches[k]).len() == h.series.len(),
    ensures
        append_all(h, batches).series.len() == h.series.len(),
        append_all(h, batches).series[c] == (h.series[c] + column(batches, c)).skip(
            batches.len() as int,
        ),
    decreases batches.len(),
{
    if batches.len() == 0 {
        assert((h.series[c] + column(batches, c)).skip(0) =~= h.series[c]);
    } else {
        let prev = batches.drop_last();
        lemma_rings_after(h, prev, c);
        let n = batches.len() as int;
        let v = batches.last()[c];
        assert(column(batches, c) =~= column(prev, c).push(v));
        assert((h.series[c] + column(prev, c)).skip(n - 1).push(v).drop_first() =~= (h.series[c]
            + column(batches, c)).skip(n));
    }
}

/// Appending at least `capacity` batches, one value per core each, to a new
/// history leaves in each ring exactly the last `capacity` values appended
/// for that core, oldest first.
pub proof fn lemma_fifo_eviction(
    cores: nat,
    capacity: nat,
    min_value: u32,
    max_value: u32,
    batches: Seq<Seq<u32>>,
)
    requires
        batches.len() >= capacity,
        forall|k: int| 0 <= k < batches.len() ==> (#[trigger] batches[k]).len() == cores,
    ensures
        append_all(created(cores, capacity, min_value, max_value), batches).series.len() == cores,
        forall|c: int|
            0 <= c < cores ==> (#[trigger] append_all(
                created(cores, capacity, min_value, max_value),
                batches,
            ).series[c]) == Seq::new(capacity, |j: int| batches[batches.len() - capacity + j][c]),
{
    let h = created(cores, capacity, min_value, max_value);
    assert forall|c: int| 0 <= c < cores implies (#[trigger] append_all(h, batches).series[c])
        == Seq::new(capacity, |j: int| batches[batches.len() - capacity + j][c]) by {
        lemma_rings_after(h, batches, c);
        assert((zero_ring(capacity) + column(batches, c)).skip(batches.len() as int) =~= Seq::new(
            capacity,
            |j: int| batches[batches.len() - capacity + j][c],
        ));
    }
    if cores > 0 {
        lemma_rings_after(h, batches, 0);
    } else {
        lemma_rings_keep_capacity(h, batches);
    }
}

/// An append updates every core's ring in one step: in the state right after
/// it, each ring is the ring before it without its oldest sample, followed by
/// that core's new value.
pub proof fn lemma_snapshot_isolation(h: HistoryView, values: Seq<u32>)
    requires
        view_wf(h),
        h.capacity > 0,
        values.len() == h.series.len(),
    ensures
        forall|c: int|
            0 <= c < h.series.len() ==> (#[trigger] appended(h, values).series[c]) == h.series[c].drop_first().push(
                values[c],
            ),
        forall|c: int| 0 <= c < h.series.len() ==> (#[trigger] appended(h, values).series[c]).last() == values[c],
{
    assert forall|c: int| 0 <= c < h.series.len() implies (#[trigger] appended(h, values).series[c])
        == h.series[c].drop_first().push(values[c]) by {
        assert(h.series[c].len() == h.capacity);
        assert(h.series[c].push(values[c]).drop_first() =~= h.series[c].drop_first().push(values[c]));
    }
}

/// Stopping twice is the same as stopping once; once stopped, appends and
/// further stops leave the history stopped.
pub proof fn lemma_stop_idempotent(h: HistoryView, batches: Seq<Seq<u32>>)
    ensures
        stopped(stopped(h)) == stopped(h),
        !stopped(h).running,
        !append_all(stopped(h), batches).running,
    decreases batches.len(),
{
    if batches.len() > 0 {
        lemma_stop_idempotent(h, batches.drop_last());
    }
}

/// Rolling per-core frequency samples, with the flag that keeps sampling alive
/// and the display bounds fixed at creation.
pub struct CpuFrequencyHistory {
    running: bool,
    failed: bool,
    capacity: usize,
    min_value: u32,
    max_value: u32,
    data: Vec<VecDeque<u32>>,
}

impl View for CpuFrequencyHistory {
    type V = HistoryView;

    closed spec fn view(&self) -> HistoryView {
        HistoryView {
            running: self.running,
            failed: self.failed,
            capacity: self.capacity as nat,
            min_value: self.min_value,
            max_value: self.max_value,
            series: self.data@.map_values(|d: VecDeque<u32>| d@),
        }
    }
}

impl CpuFrequencyHistory {
    pub open spec fn wf(&self) -> bool {
        view_wf(self@)
    }

    /// Builds a running history of `cpu_count` rings, each holding `history` zeros.
    pub fn new(cpu_count: usize, history: usize, min_value: u32, max_value: u32) -> (r: Self)
        requires
            min_value <= max_value,
        ensures
            r.wf(),
            r@ == created(cpu_count as nat, history as nat, min_value, max_value),
    {
        let mut data: Vec<VecDeque<u32>> = Vec::new();
        let mut i: usize = 0;
        while i < cpu_count
            invariant
                i <= cpu_count,
                data@.len() == i,
                forall|k: int| 0 <= k < i ==> (#[trigger] data@[k])@ == zero_ring(history as nat),
            decreases cpu_count - i,
        {
            let mut ring: VecDeque<u32> = VecDeque::new();
            let mut j: usize = 0;
            while j < history
                invariant
                    j <= history,
                    ring@ == Seq::new(j as nat, |x: int| 0u32),
                decreases history - j,
            {
                ring.push_back(0);
                j = j + 1;
                assert(ring@ =~= Seq::new(j as nat, |x: int| 0u32));
            }
            assert(ring@ =~= zero_ring(history as nat));
            data.push(ring);
            i = i + 1;
        }
        let r = CpuFrequencyHistory {
            running: true,
            failed: false,
            capacity: history, min_value, max_value, data };
        assert(r@.series =~= created(cpu_count as nat, history as nat, min_value, max_value).series);
        r
    }

    /// Inserts `values[c]` as the newest sample of core `c`, evicting each
    /// core's oldest one. A batch whose length is not the number of cores is
    /// refused and leaves the history as it was.
    pub fn append(&mut self, values: Vec<u32>) -> (r: Result<(), MonitorError>)
        ensures
            values@.len() == old(self)@.series.len() ==> r is Ok && final(self)@ == appended(
                old(self)@,
                values@,
            ),
            values@.len() != old(self)@.series.len() ==> r == Err::<(), MonitorError>(
                MonitorError::ShapeMismatch,
            ) && final(self)@ == old(self)@,
            old(self).wf() ==> final(self).wf(),
    {
        if values.len() != self.data.len() {
            return Err(MonitorError::ShapeMismatch);
        }
        let ghost before = self@;
        let mut rest: Vec<VecDeque<u32>> = Vec::new();
        std::mem::swap(&mut rest, &mut self.data);
        let mut done: Vec<VecDeque<u32>> = Vec::new();
        let n = values.len();
        let mut i: usize = 0;
        while i < n
            invariant
                n == values@.len(),
                n == before.series.len(),
                i <= n,
                done@.len() == i,
                rest@.len() == n - i,
                forall|k: int| 0 <= k < i ==> (#[trigger] done@[k])@ == rotate_in(before.series[k], values@[k]),
                forall|k: int| 0 <= k < n - i ==> (#[trigger] rest@[k])@ == before.series[k + i],
            decreases n - i,
        {
            let mut ring = rest.remove(0);
            ring.push_back(values[i]);
            ring.pop_front();
            assert(ring@ =~= rotate_in(before.series[i as int], values@[i as int]));
            done.push(ring);
            i = i + 1;
        }
        self.data = done;
        assert(self@.series =~= appended(before, values@).series);
        Ok(())
    }

    /// An independent copy of the whole state.
    pub fn snapshot(&self) -> (r: Self)
        ensures
            r@ == self@,
    {
        let mut data: Vec<VecDeque<u32>> = Vec::new();
        let mut i: usize = 0;
        while i < self.data.len()
            invariant
                i <= self.data@.len(),
                data@.len() == i,
                forall|k: int| 0 <= k < i ==> (#[trigger] data@[k])@ == self.data@[k]@,
            decreases self.data@.len() - i,
        {
            let src = &self.data[i];
            let mut ring: VecDeque<u32> = VecDeque::new();
            let mut j: usize = 0;
            while j < src.len()
                invariant
                    j <= src@.len(),
                    ring@ == src@.take(j as int),
                decreases src@.len() - j,
            {
                ring.push_back(src[j]);
                j = j + 1;
                assert(ring@ =~= src@.take(j as int));
            }
            assert(ring@ =~= src@);
            data.push(ring);
            i = i + 1;
        }
        let r = CpuFrequencyHistory {
            running: self.running,
            failed: self.failed,
            capacity: self.capacity,
            min_value: self.min_value,
            max_value: self.max_value,
            data,
        };
        assert(r@.series =~= self@.series);
        r
    }

    /// Asks the sampling to end; the flag never turns back on.
    pub fn stop(&mut self)
        ensures
            final(self)@ == stopped(old(self)@),
    {
        self.running = false;
    }

    /// Records that the sampling failed, so that the session ends.
    pub fn record_failure(&mut self)
        ensures
            final(self)@ == failed(old(self)@),
    {
        self.failed = true;
    }

    /// Whether the sampling has reported a failure.
    pub fn has_failed(&self) -> (r: bool)
        ensures
            r == self@.failed,
    {
        self.failed
    }

    /// Whether sampling should go on.
    pub fn is_running(&self) -> (r: bool)
        ensures
            r == self@.running,
    {
        self.running
    }
    /// The number of samples kept per core.
    pub fn capacity(&self) -> (r: usize)
        ensures
            r as nat == self@.capacity,
    {
        self.capacity
    }

    /// The lower display bound, fixed at creation.
    pub fn min_value(&self) -> (r: u32)
        ensures
            r == self@.min_value,
    {
        self.min_value
    }

    /// The upper display bound, fixed at creation.
    pub fn max_value(&self) -> (r: u32)
        ensures
            r == self@.max_value,
    {
        self.max_value
    }

    /// The number of cores that are sampled.
    pub fn core_count(&self) -> (r: usize)
        ensures
            r as nat == self@.series.len(),
    {
        self.data.len()
    }

    /// The samples of one core, oldest first.
    pub fn series(&self, core: usize) -> (r: Vec<u32>)
        requires
            core < self@.series.len(),
        ensures
            r@ == self@.series[core as int],
    {
        let src = &self.data[core];
        let mut out: Vec<u32> = Vec::new();
        let mut j: usize = 0;
        while j < src.len()
            invariant
                j <= src@.len(),
                src@ == self@.series[core as int],
                out@ == src@.take(j as int),
            decreases src@.len() - j,
        {
            out.push(src[j]);
            j = j + 1;
            assert(out@ =~= src@.take(j as int));
        }
        assert(out@ =~= src@);
        out
    }
}

} // verus!
