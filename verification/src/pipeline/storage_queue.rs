use vstd::prelude::*;
use std::collections::VecDeque;
use crate::models::{ProcessedData, ProcessedDataView, data_views};

verus! {

/// The queue after offering `d`: a sample whose sequence number is not above
/// `last_stored` is skipped; otherwise, when the queue is full, the oldest
/// sample makes room, and `d` is appended.
pub open spec fn queue_after_push(
    q: Seq<ProcessedDataView>,
    max_size: nat,
    last_stored: u64,
    d: ProcessedDataView,
) -> Seq<ProcessedDataView> {
    if d.sequence_number <= last_stored {
        q
    } else if q.len() >= max_size && q.len() > 0 {
        q.drop_first().push(d)
    } else {
        q.push(d)
    }
}

/// The most items the queue can hold: its maximum size, but at least one.
pub open spec fn queue_capacity(max_size: nat) -> nat {
    if max_size == 0 { 1 } else { max_size }
}

/// Samples waiting to be written, in arrival order, without samples already stored.
pub struct StorageQueue {
    queue: VecDeque<ProcessedData>,
    max_size: usize,
    last_stored_sequence: u64,
}

impl StorageQueue {
    /// The samples waiting, oldest first.
    pub closed spec fn items(&self) -> Seq<ProcessedDataView> {
        data_views(self.queue@)
    }

    /// The maximum size the queue was made with.
    pub closed spec fn spec_max_size(&self) -> nat {
        self.max_size as nat
    }

    /// The highest sequence number recorded as stored.
    pub closed spec fn last_stored(&self) -> u64 {
        self.last_stored_sequence
    }

    pub fn new(max_size: usize) -> (r: Self)
        ensures
            r.items() == Seq::<ProcessedDataView>::empty(),
            r.spec_max_size() == max_size,
            r.last_stored() == 0,
    {
        StorageQueue { queue: VecDeque::with_capacity(max_size), max_size, last_stored_sequence: 0 }
    }

    /// Offers a sample. Samples at or below the last stored sequence number are
    /// skipped; a full queue drops its oldest sample. Always succeeds.
    pub fn push(&mut self, data: ProcessedData) -> (r: Result<(), String>)
        ensures
            r is Ok,
            final(self).items() == queue_after_push(
                old(self).items(),
                old(self).spec_max_size(),
                old(self).last_stored(),
                data@,
            ),
            final(self).spec_max_size() == old(self).spec_max_size(),
            final(self).last_stored() == old(self).last_stored(),
    {
        if data.sequence_number <= self.last_stored_sequence {
            return Ok(());
        }
        let ghost before = self.queue@;
        if self.queue.len() >= self.max_size && self.queue.len() > 0 {
            let _ = self.queue.pop_front();
            assert(data_views(self.queue@) =~= data_views(before).drop_first());
        }
        let ghost mid = self.queue@;
        self.queue.push_back(data);
        assert(data_views(self.queue@) =~= data_views(mid).push(data@));
        Ok(())
    }

    /// Copies of the oldest `count` samples (fewer when the queue is shorter);
    /// the queue is unchanged.
    pub fn peek_batch(&self, count: usize) -> (r: Vec<ProcessedData>)
        ensures
            data_views(r@) == self.items().take(
                if count <= self.items().len() { count as int } else { self.items().len() as int },
            ),
    {
        let n = if count <= self.queue.len() { count } else { self.queue.len() };
        let mut r: Vec<ProcessedData> = Vec::new();
        let mut i: usize = 0;
        while i < n
            invariant
                n <= self.queue@.len(),
                i <= n,
                r@.len() == i,
                data_views(r@) == data_views(self.queue@).take(i as int),
            decreases n - i,
        {
            let x = self.queue[i].clone();
            assert(x@ == self.queue@[i as int]@);
            let ghost old_r = r@;
            r.push(x);
            assert(r@ == old_r.push(x));
            assert forall|j: int| 0 <= j < i implies data_views(r@)[j] == data_views(old_r)[j] by {
                assert(r@[j] == old_r[j]);
            }
            assert(data_views(r@) =~= data_views(self.queue@).take(i + 1));
            i = i + 1;
        }
        r
    }

    /// Drops the oldest `count` samples (all, when fewer) and records
    /// `max_sequence` as the last stored sequence number. Always succeeds.
    pub fn remove_stored(&mut self, count: usize, max_sequence: u64) -> (r: Result<(), String>)
        ensures
            r is Ok,
            final(self).items() == old(self).items().skip(
                if count <= old(self).items().len() { count as int } else { old(self).items().len() as int },
            ),
            final(self).last_stored() == max_sequence,
            final(self).spec_max_size() == old(self).spec_max_size(),
    {
        let n = if count <= self.queue.len() { count } else { self.queue.len() };
        let ghost start = self.queue@;
        let mut i: usize = 0;
        while i < n
            invariant
                n <= start.len(),
                i <= n,
                self.queue@ == start.skip(i as int),
                self.max_size == old(self).max_size,
            decreases n - i,
        {
            let _ = self.queue.pop_front();
            assert(self.queue@ =~= start.skip(i + 1));
            i = i + 1;
        }
        assert(data_views(self.queue@) =~= data_views(start).skip(n as int));
        self.last_stored_sequence = max_sequence;
        Ok(())
    }

    pub fn len(&self) -> (r: usize)
        ensures
            r == self.items().len(),
    {
        self.queue.len()
    }

    pub fn is_empty(&self) -> (r: bool)
        ensures
            r == (self.items().len() == 0),
    {
        self.queue.len() == 0
    }

    pub fn last_stored_sequence(&self) -> (r: u64)
        ensures
            r == self.last_stored(),
    {
        self.last_stored_sequence
    }
}

/// A sample whose sequence number is not above the last stored one is never queued.
pub proof fn law_stored_sequence_not_requeued(
    q: Seq<ProcessedDataView>,
    max_size: nat,
    last_stored: u64,
    d: ProcessedDataView,
)
    requires
        d.sequence_number <= last_stored,
    ensures
        queue_after_push(q, max_size, last_stored, d) == q,
{
}

/// The queue never holds more than its capacity: a queue within capacity stays
/// within it after any push.
pub proof fn law_queue_within_capacity(
    q: Seq<ProcessedDataView>,
    max_size: nat,
    last_stored: u64,
    d: ProcessedDataView,
)
    requires
        q.len() <= queue_capacity(max_size),
    ensures
        queue_after_push(q, max_size, last_stored, d).len() <= queue_capacity(max_size),
{
}

/// Accepted samples keep their arrival order and the newest is always last.
pub proof fn law_queue_keeps_order(
    q: Seq<ProcessedDataView>,
    max_size: nat,
    last_stored: u64,
    d: ProcessedDataView,
)
    requires
        d.sequence_number > last_stored,
    ensures
        queue_after_push(q, max_size, last_stored, d).last() == d,
        queue_after_push(q, max_size, last_stored, d).drop_last().is_suffix_of(q),
{
    let r = queue_after_push(q, max_size, last_stored, d);
    if q.len() >= max_size && q.len() > 0 {
        assert(r.drop_last() =~= q.subrange(1, q.len() as int));
    } else {
        assert(r.drop_last() =~= q);
        assert(q.subrange(0, q.len() as int) =~= q);
    }
}

} // verus!
