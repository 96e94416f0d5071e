use vstd::prelude::*;
use std::collections::VecDeque;
use std::time::SystemTime;
use crate::models::{ProcessedData, ProcessedDataView, data_views};
use crate::pipeline::history::{history_push, newest_first, take_count};
use crate::time::system_time_now;

verus! {

/// The memory budget of the history, in bytes (10 MiB).
pub const MAX_MEMORY: usize = 10485760;

/// Collection counters of a processed-data buffer.
#[derive(Debug, Clone, Copy)]
pub struct BufferStats {
    /// Collections attempted (successes and errors).
    pub total_collections: u64,
    /// Samples recorded.
    pub success_count: u64,
    /// Failed collections.
    pub error_count: u64,
    /// When the last sample was recorded.
    pub last_update_time: Option<SystemTime>,
}

impl Default for BufferStats {
    fn default() -> (r: Self)
        ensures
            r.total_collections == 0,
            r.success_count == 0,
            r.error_count == 0,
            r.last_update_time is None,
    {
        BufferStats { total_collections: 0, success_count: 0, error_count: 0, last_update_time: None }
    }
}

/// A counter after one more event; it wraps around as `u64` does.
pub open spec fn tick_count(c: u64) -> u64 {
    if c == u64::MAX { 0 } else { (c + 1) as u64 }
}

/// The estimated memory, in bytes, of `n` processed samples, saturating at `usize::MAX`.
pub open spec fn memory_for(n: nat) -> nat {
    if n * vstd::layout::size_of::<ProcessedData>() <= usize::MAX {
        n * vstd::layout::size_of::<ProcessedData>()
    } else {
        usize::MAX as nat
    }
}

/// The history after dropping the oldest samples while it exceeds the memory budget.
pub open spec fn trim_to_memory(h: Seq<ProcessedDataView>) -> Seq<ProcessedDataView>
    decreases h.len(),
{
    if h.len() > 0 && memory_for(h.len()) > MAX_MEMORY {
        trim_to_memory(h.drop_first())
    } else {
        h
    }
}

/// Whether the collection count is the successes plus the errors, counted
/// modulo 2^64 as the wrapping counters do.
pub open spec fn counts_add_up(st: BufferStats) -> bool {
    st.total_collections as int == (st.success_count as int + st.error_count as int) % 0x1_0000_0000_0000_0000
}

/// Recording a sample or an error keeps the collection count equal to the
/// successes plus the errors; a new buffer starts with all three at zero.
pub proof fn law_counts_add_up(st: BufferStats)
    requires
        counts_add_up(st),
    ensures
        counts_add_up(BufferStats {
            total_collections: tick_count(st.total_collections),
            success_count: tick_count(st.success_count),
            ..st
        }),
        counts_add_up(BufferStats {
            total_collections: tick_count(st.total_collections),
            error_count: tick_count(st.error_count),
            ..st
        }),
{
    let m: int = 0x1_0000_0000_0000_0000;
    let s = st.success_count as int;
    let e = st.error_count as int;
    let t = st.total_collections as int;
    assert(t == (s + e) % m);
    let s1: int = if s == m - 1 { 0 } else { s + 1 };
    let e1: int = if e == m - 1 { 0 } else { e + 1 };
    let t1: int = if t == m - 1 { 0 } else { t + 1 };
    assert(t1 == (s1 + e) % m) by (nonlinear_arith)
        requires
            0 <= s < m,
            0 <= e < m,
            t == (s + e) % m,
            s1 == (if s == m - 1 { 0 } else { s + 1 }),
            t1 == (if t == m - 1 { 0 } else { t + 1 }),
            m == 0x1_0000_0000_0000_0000,
    ;
    assert(t1 == (s + e1) % m) by (nonlinear_arith)
        requires
            0 <= s < m,
            0 <= e < m,
            t == (s + e) % m,
            e1 == (if e == m - 1 { 0 } else { e + 1 }),
            t1 == (if t == m - 1 { 0 } else { t + 1 }),
            m == 0x1_0000_0000_0000_0000,
    ;
}

/// After trimming, the history fits the memory budget (or is empty), and it
/// is the newest part of what it was.
pub proof fn law_memory_within_budget(h: Seq<ProcessedDataView>)
    ensures
        trim_to_memory(h).len() <= h.len(),
        trim_to_memory(h).len() == 0 || memory_for(trim_to_memory(h).len()) <= MAX_MEMORY,
        trim_to_memory(h) == h.skip(h.len() - trim_to_memory(h).len()),
    decreases h.len(),
{
    if h.len() > 0 && memory_for(h.len()) > MAX_MEMORY {
        law_memory_within_budget(h.drop_first());
        let t = trim_to_memory(h.drop_first());
        assert(t.len() <= h.drop_first().len());
        assert(h.drop_first().skip(h.drop_first().len() - t.len()) =~= h.skip(h.len() - t.len()));
    } else {
        assert(h.skip(0) =~= h);
    }
}

/// The latest processed sample, a bounded history and collection counters.
#[derive(Debug)]
pub struct ProcessedDataBuffer {
    latest: Option<ProcessedData>,
    history: VecDeque<ProcessedData>,
    max_history_size: usize,
    stats: BufferStats,
}

impl ProcessedDataBuffer {
    /// The most recent sample, if any.
    pub closed spec fn latest_sample(&self) -> Option<ProcessedDataView> {
        match self.latest {
            Some(d) => Some(d@),
            None => None,
        }
    }

    /// The recorded samples, oldest first.
    pub closed spec fn samples(&self) -> Seq<ProcessedDataView> {
        data_views(self.history@)
    }

    /// The history bound the buffer was made with.
    pub closed spec fn spec_max_history(&self) -> nat {
        self.max_history_size as nat
    }

    /// The collection counters.
    pub closed spec fn spec_stats(&self) -> BufferStats {
        self.stats
    }

    /// An empty buffer keeping at most `max_history_size` samples.
    pub fn new(max_history_size: usize) -> (r: Self)
        ensures
            r.latest_sample() is None,
            r.samples() == Seq::<ProcessedDataView>::empty(),
            r.spec_max_history() == max_history_size,
            r.spec_stats().total_collections == 0,
            r.spec_stats().success_count == 0,
            r.spec_stats().error_count == 0,
            r.spec_stats().last_update_time is None,
    {
        ProcessedDataBuffer {
            latest: None,
            history: VecDeque::with_capacity(max_history_size),
            max_history_size,
            stats: BufferStats::default(),
        }
    }

    /// Records a sample: it becomes the latest, joins the bounded history
    /// (the oldest dropped when full, then more while over the memory budget),
    /// and counts as a collection and a success.
    pub fn push(&mut self, data: ProcessedData)
        ensures
            final(self).latest_sample() == Some(data@),
            final(self).samples() == trim_to_memory(
                history_push(old(self).samples(), old(self).spec_max_history(), data@),
            ),
            final(self).spec_max_history() == old(self).spec_max_history(),
            final(self).spec_stats().total_collections == tick_count(old(self).spec_stats().total_collections),
            final(self).spec_stats().success_count == tick_count(old(self).spec_stats().success_count),
            final(self).spec_stats().error_count == old(self).spec_stats().error_count,
            final(self).spec_stats().last_update_time is Some,
    {
        let ghost h0 = data_views(self.history@);
        self.latest = Some(data.clone());
        if self.history.len() >= self.max_history_size && self.history.len() > 0 {
            let ghost before = self.history@;
            let _ = self.history.pop_front();
            assert(data_views(self.history@) =~= data_views(before).drop_first());
        }
        let ghost mid = self.history@;
        self.history.push_back(data);
        assert(data_views(self.history@) =~= data_views(mid).push(data@));
        assert(data_views(self.history@) == history_push(h0, self.max_history_size as nat, data@));
        let ghost pushed = data_views(self.history@);
        let ghost latest = self.latest;
        let ghost stats = self.stats;
        let ghost max = self.max_history_size;
        while self.estimated_memory_usage() > MAX_MEMORY && self.history.len() > 0
            invariant
                trim_to_memory(data_views(self.history@)) == trim_to_memory(pushed),
                self.latest == latest,
                self.stats == stats,
                self.max_history_size == max,
            decreases self.history@.len(),
        {
            let ghost before = self.history@;
            let _ = self.history.pop_front();
            assert(data_views(self.history@) =~= data_views(before).drop_first());
        }
        assert(data_views(self.history@) == trim_to_memory(pushed));
        self.stats.total_collections = self.stats.total_collections.wrapping_add(1);
        self.stats.success_count = self.stats.success_count.wrapping_add(1);
        self.stats.last_update_time = Some(system_time_now());
    }

    pub fn get_latest(&self) -> (r: Option<ProcessedData>)
        ensures
            match r {
                Some(d) => self.latest_sample() == Some(d@),
                None => self.latest_sample() is None,
            },
    {
        match &self.latest {
            Some(d) => Some(d.clone()),
            None => None,
        }
    }

    /// Up to `count` recorded samples, newest first.
    pub fn get_history(&self, count: usize) -> (r: Vec<ProcessedData>)
        ensures
            data_views(r@) == newest_first(self.samples(), count as nat),
    {
        let len = self.history.len();
        let n = if count <= len { count } else { len };
        let mut r: Vec<ProcessedData> = Vec::new();
        let mut i: usize = 0;
        while i < n
            invariant
                n <= len,
                len == self.history@.len(),
                i <= n,
                r@.len() == i,
                data_views(r@) == data_views(self.history@).reverse().take(i as int),
            decreases n - i,
        {
            let x = self.history[len - 1 - i].clone();
            let ghost old_r = r@;
            r.push(x);
            assert forall|j: int| 0 <= j < i implies data_views(r@)[j] == data_views(old_r)[j] by {
                assert(r@[j] == old_r[j]);
            }
            assert(data_views(r@) =~= data_views(self.history@).reverse().take(i + 1));
            i = i + 1;
        }
        assert(n as int == take_count(data_views(self.history@), count as nat));
        r
    }

    /// Counts a failed collection.
    pub fn record_error(&mut self)
        ensures
            final(self).latest_sample() == old(self).latest_sample(),
            final(self).samples() == old(self).samples(),
            final(self).spec_max_history() == old(self).spec_max_history(),
            final(self).spec_stats().error_count == tick_count(old(self).spec_stats().error_count),
            final(self).spec_stats().total_collections == tick_count(old(self).spec_stats().total_collections),
            final(self).spec_stats().success_count == old(self).spec_stats().success_count,
            final(self).spec_stats().last_update_time == old(self).spec_stats().last_update_time,
    {
        self.stats.error_count = self.stats.error_count.wrapping_add(1);
        self.stats.total_collections = self.stats.total_collections.wrapping_add(1);
    }

    pub fn get_stats(&self) -> (r: &BufferStats)
        ensures
            *r == self.spec_stats(),
    {
        &self.stats
    }

    /// The estimated memory of the history: its length times the size of one
    /// sample, saturating at `usize::MAX`.
    pub fn estimated_memory_usage(&self) -> (r: usize)
        ensures
            r as nat == memory_for(self.samples().len()),
    {
        match self.history.len().checked_mul(std::mem::size_of::<ProcessedData>()) {
            Some(m) => m,
            None => usize::MAX,
        }
    }
}

} // verus!
