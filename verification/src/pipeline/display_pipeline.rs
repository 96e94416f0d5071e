use vstd::prelude::*;
use std::collections::VecDeque;
use crate::config::DisplayConfig;
use crate::models::{ProcessedData, ProcessedDataView, data_views};
use crate::pipeline::history::{history_capacity, history_push, take_count};
use crate::pipeline::shared_buffer::ProcessedDataBuffer;

verus! {

/// Settings of the display pipeline.
#[derive(Debug, Clone, Copy, PartialEq, Eq, Structural)]
pub struct DisplayPipelineConfig {
    /// Least time between two refreshes, in milliseconds.
    pub interval_ms: u64,
    /// How many samples the display keeps.
    pub pipeline_size: usize,
    /// Samples fetched per refresh.
    pub batch_size: usize,
}

impl Default for DisplayPipelineConfig {
    fn default() -> (r: Self)
        ensures
            r == (DisplayPipelineConfig { interval_ms: 500, pipeline_size: 10, batch_size: 1 }),
    {
        DisplayPipelineConfig { interval_ms: 500, pipeline_size: 10, batch_size: 1 }
    }
}

impl DisplayPipelineConfig {
    /// The display settings of the pipeline configuration.
    pub fn from_display_config(config: &DisplayConfig) -> (r: Self)
        ensures
            r.interval_ms == config.interval_ms,
            r.pipeline_size == config.pipeline_size,
            r.batch_size == config.batch_size,
    {
        DisplayPipelineConfig {
            interval_ms: config.interval_ms,
            pipeline_size: config.pipeline_size,
            batch_size: config.batch_size,
        }
    }
}

/// The milliseconds from `last` to `now`; a reading earlier than `last`
/// counts as none.
pub open spec fn elapsed_ms(last: u64, now: u64) -> nat {
    if now >= last { (now - last) as nat } else { 0 }
}

/// Whether a refresh is due at `now`: always for the first one, and afterwards
/// once at least `interval` milliseconds have passed since the last.
pub open spec fn refresh_due(last: Option<u64>, now: u64, interval: u64) -> bool {
    match last {
        None => true,
        Some(l) => elapsed_ms(l, now) >= interval,
    }
}

/// The samples shown on screen, refreshed from a processed-data buffer on the
/// main loop's clock.
///
/// The loop calls `tick` with a monotonic clock reading in milliseconds and
/// the buffer it shares with the processing pipeline.
pub struct DisplayPipeline {
    config: DisplayPipelineConfig,
    display_buffer: VecDeque<ProcessedData>,
    last_update: Option<u64>,
    running: bool,
}

impl DisplayPipeline {
    #[verifier::type_invariant]
    spec fn within_capacity(&self) -> bool {
        self.display_buffer@.len() <= history_capacity(self.config.pipeline_size as nat)
    }

    /// The settings the pipeline was made with.
    pub closed spec fn spec_config(&self) -> DisplayPipelineConfig {
        self.config
    }

    /// The samples on display, oldest first.
    pub closed spec fn displayed(&self) -> Seq<ProcessedDataView> {
        data_views(self.display_buffer@)
    }

    /// The clock reading of the last refresh, if any.
    pub closed spec fn last_refresh(&self) -> Option<u64> {
        self.last_update
    }

    /// Whether the pipeline is running.
    pub closed spec fn spec_running(&self) -> bool {
        self.running
    }

    pub fn new(config: DisplayPipelineConfig) -> (r: Self)
        ensures
            r.spec_config() == config,
            r.displayed() == Seq::<ProcessedDataView>::empty(),
            r.last_refresh() is None,
            !r.spec_running(),
    {
        let r = DisplayPipeline {
            config,
            display_buffer: VecDeque::with_capacity(config.pipeline_size),
            last_update: None,
            running: false,
        };
        assert(data_views(r.display_buffer@) =~= Seq::<ProcessedDataView>::empty());
        r
    }

    pub fn start(&mut self)
        ensures
            final(self).spec_running(),
            final(self).spec_config() == old(self).spec_config(),
            final(self).displayed() == old(self).displayed(),
            final(self).last_refresh() == old(self).last_refresh(),
    {
        proof {
            use_type_invariant(&*self);
        }
        self.running = true;
    }

    pub fn stop(&mut self)
        ensures
            !final(self).spec_running(),
            final(self).spec_config() == old(self).spec_config(),
            final(self).displayed() == old(self).displayed(),
            final(self).last_refresh() == old(self).last_refresh(),
    {
        proof {
            use_type_invariant(&*self);
        }
        self.running = false;
    }

    pub fn is_running(&self) -> (r: bool)
        ensures
            r == self.spec_running(),
    {
        self.running
    }

    /// One step of the main loop at clock reading `now_ms`. When the pipeline
    /// runs and a refresh is due, the refresh time becomes `now_ms` and the
    /// latest sample of `source`, if there is one, joins the display (the
    /// oldest dropped when the display is full). Returns whether a sample was
    /// added, that is whether the screen needs repainting.
    pub fn tick(&mut self, now_ms: u64, source: &ProcessedDataBuffer) -> (r: bool)
        ensures
            final(self).spec_config() == old(self).spec_config(),
            final(self).spec_running() == old(self).spec_running(),
            final(self).displayed().len() <= history_capacity(old(self).spec_config().pipeline_size as nat),
            !old(self).spec_running() || !refresh_due(old(self).last_refresh(), now_ms, old(self).spec_config().interval_ms) ==> {
                &&& !r
                &&& final(self).displayed() == old(self).displayed()
                &&& final(self).last_refresh() == old(self).last_refresh()
            },
            old(self).spec_running() && refresh_due(old(self).last_refresh(), now_ms, old(self).spec_config().interval_ms) ==> {
                &&& final(self).last_refresh() == Some(now_ms)
                &&& match source.latest_sample() {
                    Some(d) => r && final(self).displayed() == history_push(
                        old(self).displayed(),
                        old(self).spec_config().pipeline_size as nat,
                        d,
                    ),
                    None => !r && final(self).displayed() == old(self).displayed(),
                }
            },
    {
        proof {
            use_type_invariant(&*self);
        }
        if !self.running {
            return false;
        }
        match self.last_update {
            Some(last) => {
                let elapsed = now_ms.saturating_sub(last);
                if elapsed < self.config.interval_ms {
                    return false;
                }
            },
            None => {},
        }
        self.last_update = Some(now_ms);
        match source.get_latest() {
            Some(latest) => {
                let mut buffer: VecDeque<ProcessedData> = VecDeque::new();
                std::mem::swap(&mut buffer, &mut self.display_buffer);
                let ghost before = buffer@;
                if buffer.len() >= self.config.pipeline_size && buffer.len() > 0 {
                    let ghost full = buffer@;
                    let _ = buffer.pop_front();
                    assert(data_views(buffer@) =~= data_views(full).drop_first());
                }
                let ghost mid = buffer@;
                let ghost lv = latest@;
                buffer.push_back(latest);
                assert(data_views(buffer@) =~= data_views(mid).push(lv));
                assert(data_views(buffer@) == history_push(
                    data_views(before),
                    self.config.pipeline_size as nat,
                    lv,
                ));
                self.display_buffer = buffer;
                true
            },
            None => false,
        }
    }

    /// The sample shown last, if any.
    pub fn get_latest(&self) -> (r: Option<ProcessedData>)
        ensures
            match r {
                Some(d) => self.displayed().len() > 0 && d@ == self.displayed().last(),
                None => self.displayed().len() == 0,
            },
    {
        let n = self.display_buffer.len();
        if n == 0 {
            None
        } else {
            let d = self.display_buffer[n - 1].clone();
            Some(d)
        }
    }

    /// The last `count` samples on display (all of them when there are
    /// fewer), oldest first.
    pub fn get_history(&self, count: usize) -> (r: Vec<ProcessedData>)
        ensures
            data_views(r@) == self.displayed().skip(self.displayed().len() - take_count(self.displayed(), count as nat)),
    {
        let len = self.display_buffer.len();
        let start = len.saturating_sub(count);
        let mut r: Vec<ProcessedData> = Vec::new();
        let mut i: usize = start;
        while i < len
            invariant
                start <= i <= len,
                len == self.display_buffer@.len(),
                r@.len() == i - start,
                data_views(r@) == data_views(self.display_buffer@).subrange(start as int, i as int),
            decreases len - i,
        {
            let x = self.display_buffer[i].clone();
            let ghost old_r = r@;
            r.push(x);
            assert forall|j: int| 0 <= j < old_r.len() implies data_views(r@)[j] == data_views(old_r)[j] by {
                assert(r@[j] == old_r[j]);
            }
            assert(data_views(r@) =~= data_views(self.display_buffer@).subrange(start as int, i + 1));
            i = i + 1;
        }
        assert(data_views(self.display_buffer@).subrange(start as int, len as int)
            =~= data_views(self.display_buffer@).skip(start as int));
        r
    }

    /// How many samples are on display.
    pub fn len(&self) -> (r: usize)
        ensures
            r == self.displayed().len(),
    {
        self.display_buffer.len()
    }

    pub fn is_empty(&self) -> (r: bool)
        ensures
            r == (self.displayed().len() == 0),
    {
        self.display_buffer.len() == 0
    }
}

} // verus!
