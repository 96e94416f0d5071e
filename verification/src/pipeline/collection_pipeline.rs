use vstd::prelude::*;

verus! {

/// Settings of the collection pipeline.
#[derive(Debug, Clone, Copy, PartialEq, Eq, Structural)]
pub struct CollectionPipelineConfig {
    /// Time between two collections, in milliseconds.
    pub interval_ms: u64,
    /// Retries of a failed read within one collection.
    pub max_retries: u32,
    /// Delay between two reads of one collection, in milliseconds.
    pub retry_delay_ms: u64,
    /// Consecutive failed collections after which the sensor counts as disconnected.
    pub disconnect_threshold: u32,
    /// Whether a panicking collection task is recovered.
    pub enable_panic_recovery: bool,
    /// How many times the collection task may be restarted.
    pub max_restarts: usize,
}

impl Default for CollectionPipelineConfig {
    fn default() -> (r: Self)
        ensures
            r == (CollectionPipelineConfig {
                interval_ms: 100,
                max_retries: 3,
                retry_delay_ms: 10,
                disconnect_threshold: 10,
                enable_panic_recovery: true,
                max_restarts: 5,
            }),
    {
        CollectionPipelineConfig {
            interval_ms: 100,
            max_retries: 3,
            retry_delay_ms: 10,
            disconnect_threshold: 10,
            enable_panic_recovery: true,
            max_restarts: 5,
        }
    }
}

/// Whether read number `attempt` (counted from 0) of a collection is followed
/// by another after failing: reads go on until `max_retries` retries are made.
pub open spec fn read_again(config: CollectionPipelineConfig, attempt: u32) -> bool {
    attempt < config.max_retries
}

/// Whether another read follows the failure of read `attempt` of one
/// collection (after the retry delay).
pub fn should_retry_read(config: &CollectionPipelineConfig, attempt: u32) -> (r: bool)
    ensures
        r == read_again(*config, attempt),
{
    attempt < config.max_retries
}

/// A collection makes at most `max_retries + 1` reads: the reads numbered
/// below `max_retries` are retried, the one numbered `max_retries` is the last.
pub proof fn law_reads_bounded(config: CollectionPipelineConfig)
    ensures
        forall|a: u32| a < config.max_retries ==> read_again(config, a),
        !read_again(config, config.max_retries),
{
}

/// A change of the danger state between two consecutive samples.
#[derive(Debug, Clone, Copy, PartialEq, Eq, Structural)]
pub enum DangerEdge {
    /// Safe before, dangerous now: the alarm callback runs.
    Raised,
    /// Dangerous before, safe now: the danger-cleared callback runs.
    Cleared,
    /// No change.
    Unchanged,
}

/// The edge between the previous danger state and the current one.
pub open spec fn danger_edge(previous: bool, current: bool) -> DangerEdge {
    if current && !previous {
        DangerEdge::Raised
    } else if !current && previous {
        DangerEdge::Cleared
    } else {
        DangerEdge::Unchanged
    }
}

/// The counter after one more event; it wraps around as `u32` does.
pub open spec fn failures_after(c: u32) -> u32 {
    if c == u32::MAX { 0 } else { (c + 1) as u32 }
}

/// The state the collection loop keeps between samples: the run of failed
/// collections and the danger state of the previous sample.
#[derive(Debug, Clone, Copy, PartialEq, Eq, Structural)]
pub struct CollectionLoopState {
    pub consecutive_failures: u32,
    pub previous_danger: bool,
}

impl CollectionLoopState {
    pub fn new() -> (r: Self)
        ensures
            r == (CollectionLoopState { consecutive_failures: 0, previous_danger: false }),
    {
        CollectionLoopState { consecutive_failures: 0, previous_danger: false }
    }

    /// A collection succeeded: the run of failures ends.
    pub fn record_success(&mut self)
        ensures
            *final(self) == (CollectionLoopState { consecutive_failures: 0, ..*old(self) }),
    {
        self.consecutive_failures = 0;
    }

    /// A collection failed. Returns whether the run of failures has reached
    /// the disconnect threshold.
    pub fn record_failure(&mut self, config: &CollectionPipelineConfig) -> (disconnected: bool)
        ensures
            *final(self) == (CollectionLoopState {
                consecutive_failures: failures_after(old(self).consecutive_failures),
                ..*old(self)
            }),
            disconnected == (final(self).consecutive_failures >= config.disconnect_threshold),
    {
        self.consecutive_failures = self.consecutive_failures.wrapping_add(1);
        self.consecutive_failures >= config.disconnect_threshold
    }

    /// Compares a sample's danger flag with the previous sample's and
    /// remembers it.
    pub fn check_alarm_state(&mut self, current_danger: bool) -> (r: DangerEdge)
        ensures
            r == danger_edge(old(self).previous_danger, current_danger),
            *final(self) == (CollectionLoopState { previous_danger: current_danger, ..*old(self) }),
    {
        let edge = if current_danger && !self.previous_danger {
            DangerEdge::Raised
        } else if !current_danger && self.previous_danger {
            DangerEdge::Cleared
        } else {
            DangerEdge::Unchanged
        };
        self.previous_danger = current_danger;
        edge
    }
}

/// The danger edges of a run of samples, each compared with the one before,
/// starting from `previous`.
pub open spec fn danger_edges(previous: bool, flags: Seq<bool>) -> Seq<DangerEdge>
    decreases flags.len(),
{
    if flags.len() == 0 {
        Seq::empty()
    } else {
        let before = danger_edges(previous, flags.drop_last());
        let prev = if flags.len() == 1 { previous } else { flags[flags.len() - 2] };
        before.push(danger_edge(prev, flags.last()))
    }
}

/// Raised and cleared edges alternate: between two raises there is a clear,
/// and between two clears a raise.
pub proof fn law_edges_alternate(previous: bool, flags: Seq<bool>, i: int, j: int)
    requires
        0 <= i < j < flags.len(),
        danger_edges(previous, flags)[i] != DangerEdge::Unchanged,
        danger_edges(previous, flags)[j] == danger_edges(previous, flags)[i],
    ensures
        exists|k: int| i < k < j && danger_edges(previous, flags)[k] != DangerEdge::Unchanged
            && danger_edges(previous, flags)[k] != danger_edges(previous, flags)[i],
{
    lemma_edges_index(previous, flags);
    let e = danger_edges(previous, flags);
    let prev_of = |k: int| if k == 0 { previous } else { flags[k - 1] };
    // After edge i the danger state is flags[i]; edge j needs the opposite
    // state just before it, so the state changed in between.
    assert(e[i] == danger_edge(prev_of(i), flags[i]));
    assert(e[j] == danger_edge(prev_of(j), flags[j]));
    assert(prev_of(j) == flags[j - 1]);
    assert(flags[j - 1] != flags[i]);
    lemma_change_has_edge(previous, flags, i, j - 1);
}

proof fn lemma_edges_index(previous: bool, flags: Seq<bool>)
    ensures
        danger_edges(previous, flags).len() == flags.len(),
        forall|k: int| 0 <= k < flags.len() ==> #[trigger] danger_edges(previous, flags)[k]
            == danger_edge(if k == 0 { previous } else { flags[k - 1] }, flags[k]),
    decreases flags.len(),
{
    if flags.len() > 0 {
        let p = flags.drop_last();
        lemma_edges_index(previous, p);
        assert forall|k: int| 0 <= k < flags.len() implies #[trigger] danger_edges(previous, flags)[k]
            == danger_edge(if k == 0 { previous } else { flags[k - 1] }, flags[k]) by {
            if k < p.len() {
                assert(danger_edges(previous, flags)[k] == danger_edges(previous, p)[k]);
                assert(p[k] == flags[k]);
                if k > 0 {
                    assert(p[k - 1] == flags[k - 1]);
                }
            }
        }
    }
}

/// If the danger state differs between samples `a` and `b` (a < b), some
/// sample after `a` and up to `b` has an edge in the direction of the change.
proof fn lemma_change_has_edge(previous: bool, flags: Seq<bool>, a: int, b: int)
    requires
        0 <= a < b < flags.len(),
        flags[a] != flags[b],
    ensures
        exists|k: int| a < k <= b && danger_edges(previous, flags)[k] == (if flags[b] {
            DangerEdge::Raised
        } else {
            DangerEdge::Cleared
        }),
    decreases b - a,
{
    lemma_edges_index(previous, flags);
    if flags[b - 1] == flags[b] {
        lemma_change_has_edge(previous, flags, a, b - 1);
    } else {
        assert(danger_edges(previous, flags)[b] == danger_edge(flags[b - 1], flags[b]));
    }
}

} // verus!
