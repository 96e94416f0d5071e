use vstd::prelude::*;
use std::collections::VecDeque;
use crate::models::SensorData;
use crate::pipeline::history::{history_push, newest_first, take_count};

verus! {

/// The latest raw sample and a bounded history of raw samples.
#[derive(Debug)]
pub struct SensorDataBuffer {
    latest: Option<SensorData>,
    history: VecDeque<SensorData>,
    max_history: usize,
}

impl SensorDataBuffer {
    /// The most recent sample, if any.
    pub closed spec fn latest_sample(&self) -> Option<SensorData> {
        self.latest
    }

    /// The recorded samples, oldest first.
    pub closed spec fn samples(&self) -> Seq<SensorData> {
        self.history@
    }

    /// The history bound the buffer was made with.
    pub closed spec fn spec_max_history(&self) -> nat {
        self.max_history as nat
    }

    /// The history bound fits a `usize`, as it was given as one.
    pub proof fn lemma_max_history_fits(&self)
        ensures
            self.spec_max_history() <= usize::MAX,
    {
    }

    /// An empty buffer keeping at most `max_history` samples.
    pub fn new(max_history: usize) -> (r: Self)
        ensures
            r.latest_sample() is None,
            r.samples() == Seq::<SensorData>::empty(),
            r.spec_max_history() == max_history,
    {
        SensorDataBuffer { latest: None, history: VecDeque::with_capacity(max_history), max_history }
    }

    /// Records a sample as the latest and appends it to the history, dropping
    /// the oldest when the history is full.
    pub fn push(&mut self, data: SensorData)
        ensures
            final(self).latest_sample() == Some(data),
            final(self).samples() == history_push(old(self).samples(), old(self).spec_max_history(), data),
            final(self).spec_max_history() == old(self).spec_max_history(),
    {
        self.latest = Some(data);
        if self.history.len() >= self.max_history && self.history.len() > 0 {
            let _ = self.history.pop_front();
        }
        self.history.push_back(data);
    }

    pub fn get_latest(&self) -> (r: Option<SensorData>)
        ensures
            r == self.latest_sample(),
    {
        self.latest
    }

    /// The three analogue readings of the most recent sample, as bit patterns.
    pub fn get_latest_raw(&self) -> (r: Option<(u64, u64, u64)>)
        ensures
            match self.latest_sample() {
                Some(d) => r == Some((d.ad1_load, d.ad2_radius, d.ad3_angle)),
                None => r is None,
            },
    {
        match self.latest {
            Some(d) => Some((d.ad1_load, d.ad2_radius, d.ad3_angle)),
            None => None,
        }
    }

    /// Up to `count` recorded samples, newest first.
    pub fn get_history(&self, count: usize) -> (r: Vec<SensorData>)
        ensures
            r@ == newest_first(self.samples(), count as nat),
    {
        let len = self.history.len();
        let n = if count <= len { count } else { len };
        let mut r: Vec<SensorData> = Vec::new();
        let mut i: usize = 0;
        while i < n
            invariant
                n <= len,
                len == self.history@.len(),
                i <= n,
                r@ == self.history@.reverse().take(i as int),
            decreases n - i,
        {
            r.push(self.history[len - 1 - i]);
            assert(r@ =~= self.history@.reverse().take(i + 1));
            i = i + 1;
        }
        assert(n as int == take_count(self.history@, count as nat));
        r
    }
}

} // verus!
