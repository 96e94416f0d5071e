use vstd::prelude::*;
use crate::models::{AlarmSource, ProcessedData, ProcessedDataView};
use vstd::std_specs::cmp::PartialEqSpecImpl;

verus! {

/// The decision taken on one sample after debouncing.
#[derive(Debug)]
pub enum AlarmAction {
    /// A new alarm is raised (safe to danger), carrying the sample that raised it.
    TriggerAlarm(ProcessedData),
    /// The alarm is cleared (danger to safe).
    ClearAlarm,
    /// Nothing changes (still in danger, or still safe).
    NoAction,
}

fn same_sources(a: &Vec<AlarmSource>, b: &Vec<AlarmSource>) -> (r: bool)
    ensures
        r == (a@ == b@),
{
    if a.len() != b.len() {
        return false;
    }
    let mut i: usize = 0;
    while i < a.len()
        invariant
            a.len() == b.len(),
            i <= a.len(),
            forall|j: int| 0 <= j < i ==> a@[j] == b@[j],
        decreases a.len() - i,
    {
        if a[i] != b[i] {
            return false;
        }
        i = i + 1;
    }
    assert(a@ =~= b@);
    true
}

impl PartialEq for AlarmAction {
    fn eq(&self, other: &Self) -> (r: bool) {
        match (self, other) {
            (AlarmAction::ClearAlarm, AlarmAction::ClearAlarm) => true,
            (AlarmAction::NoAction, AlarmAction::NoAction) => true,
            (AlarmAction::TriggerAlarm(a), AlarmAction::TriggerAlarm(b)) => {
                a.sequence_number == b.sequence_number && a.is_danger == b.is_danger
                    && same_sources(&a.alarm_sources, &b.alarm_sources)
            },
            _ => false,
        }
    }
}

impl PartialEqSpecImpl for AlarmAction {
    open spec fn obeys_eq_spec() -> bool {
        true
    }

    open spec fn eq_spec(&self, other: &AlarmAction) -> bool {
        match (self, other) {
            (AlarmAction::ClearAlarm, AlarmAction::ClearAlarm) => true,
            (AlarmAction::NoAction, AlarmAction::NoAction) => true,
            (AlarmAction::TriggerAlarm(a), AlarmAction::TriggerAlarm(b)) => {
                &&& a.sequence_number == b.sequence_number
                &&& a.is_danger == b.is_danger
                &&& a.alarm_sources@ == b.alarm_sources@
            },
            _ => false,
        }
    }
}

/// Debounce thresholds.
#[derive(Debug, Clone, Copy)]
pub struct AlarmDebounceConfig {
    /// Consecutive alarming samples needed to raise an alarm (0: raise at once).
    pub alarm_debounce_count: u32,
    /// Consecutive safe samples needed to clear an alarm (0: clear at once).
    pub alarm_clear_debounce_count: u32,
}

impl Default for AlarmDebounceConfig {
    fn default() -> (r: Self)
        ensures
            r.alarm_debounce_count == 5,
            r.alarm_clear_debounce_count == 10,
    {
        AlarmDebounceConfig { alarm_debounce_count: 5, alarm_clear_debounce_count: 10 }
    }
}

/// A snapshot of the debouncer's counters.
#[derive(Debug, Clone, Copy, PartialEq, Eq, Structural)]
pub struct AlarmDebouncerState {
    pub danger_count: u32,
    pub safe_count: u32,
    pub last_was_danger: bool,
}

/// The counter after one more sample; the counters wrap around as `u32` does.
pub open spec fn count_up(c: u32) -> u32 {
    if c == u32::MAX { 0 } else { (c + 1) as u32 }
}

/// Whether the alarming run has reached its threshold.
pub open spec fn alarm_reached(cfg: AlarmDebounceConfig, danger: u32) -> bool {
    cfg.alarm_debounce_count == 0 || danger >= cfg.alarm_debounce_count
}

/// Whether the safe run has reached its threshold.
pub open spec fn clear_reached(cfg: AlarmDebounceConfig, safe: u32) -> bool {
    cfg.alarm_clear_debounce_count == 0 || safe >= cfg.alarm_clear_debounce_count
}

/// The counters after one sample that is alarming (`alarm`) or safe.
pub open spec fn debounce_next(
    s: AlarmDebouncerState,
    cfg: AlarmDebounceConfig,
    alarm: bool,
) -> AlarmDebouncerState {
    if alarm {
        let d = count_up(s.danger_count);
        AlarmDebouncerState {
            danger_count: d,
            safe_count: 0,
            last_was_danger: s.last_was_danger || alarm_reached(cfg, d),
        }
    } else {
        let c = count_up(s.safe_count);
        AlarmDebouncerState {
            danger_count: 0,
            safe_count: c,
            last_was_danger: s.last_was_danger && !clear_reached(cfg, c),
        }
    }
}

/// Whether one sample raises the alarm.
pub open spec fn debounce_raises(s: AlarmDebouncerState, cfg: AlarmDebounceConfig, alarm: bool) -> bool {
    alarm && !s.last_was_danger && alarm_reached(cfg, count_up(s.danger_count))
}

/// Whether one sample clears the alarm.
pub open spec fn debounce_clears(s: AlarmDebouncerState, cfg: AlarmDebounceConfig, alarm: bool) -> bool {
    !alarm && s.last_was_danger && clear_reached(cfg, count_up(s.safe_count))
}

/// The alarm state machine: it raises an alarm after a run of alarming samples
/// and clears it after a run of safe samples.
pub struct AlarmDebouncer {
    danger_count: u32,
    safe_count: u32,
    last_was_danger: bool,
    config: AlarmDebounceConfig,
}

impl AlarmDebouncer {
    /// The counters of this debouncer.
    pub closed spec fn state(&self) -> AlarmDebouncerState {
        AlarmDebouncerState {
            danger_count: self.danger_count,
            safe_count: self.safe_count,
            last_was_danger: self.last_was_danger,
        }
    }

    /// The thresholds of this debouncer.
    pub closed spec fn debounce_config(&self) -> AlarmDebounceConfig {
        self.config
    }

    pub fn new(config: AlarmDebounceConfig) -> (r: Self)
        ensures
            r.state() == (AlarmDebouncerState { danger_count: 0, safe_count: 0, last_was_danger: false }),
            r.debounce_config() == config,
    {
        AlarmDebouncer { danger_count: 0, safe_count: 0, last_was_danger: false, config }
    }

    /// Feeds one sample. A sample is alarming when it is flagged dangerous or
    /// carries an alarm source.
    pub fn process(&mut self, data: &ProcessedData) -> (action: AlarmAction)
        ensures
            final(self).debounce_config() == old(self).debounce_config(),
            final(self).state() == debounce_next(
                old(self).state(),
                old(self).debounce_config(),
                data@.has_any_alarm(),
            ),
            (action is TriggerAlarm) == debounce_raises(
                old(self).state(),
                old(self).debounce_config(),
                data@.has_any_alarm(),
            ),
            (action is ClearAlarm) == debounce_clears(
                old(self).state(),
                old(self).debounce_config(),
                data@.has_any_alarm(),
            ),
            action matches AlarmAction::TriggerAlarm(d) ==> d@ == data@,
    {
        let has_any_alarm = data.is_danger || data.alarm_sources.len() > 0;
        if has_any_alarm {
            let current_danger_count = self.danger_count.wrapping_add(1);
            self.danger_count = current_danger_count;
            self.safe_count = 0;
            if self.config.alarm_debounce_count == 0
                || current_danger_count >= self.config.alarm_debounce_count {
                if !self.last_was_danger {
                    self.last_was_danger = true;
                    return AlarmAction::TriggerAlarm(data.clone());
                }
            }
            AlarmAction::NoAction
        } else {
            let current_safe_count = self.safe_count.wrapping_add(1);
            self.safe_count = current_safe_count;
            self.danger_count = 0;
            if self.config.alarm_clear_debounce_count == 0
                || current_safe_count >= self.config.alarm_clear_debounce_count {
                if self.last_was_danger {
                    self.last_was_danger = false;
                    return AlarmAction::ClearAlarm;
                }
            }
            AlarmAction::NoAction
        }
    }

    /// Clears both counters and the alarm flag.
    pub fn reset(&mut self)
        ensures
            final(self).debounce_config() == old(self).debounce_config(),
            final(self).state() == (AlarmDebouncerState {
                danger_count: 0,
                safe_count: 0,
                last_was_danger: false,
            }),
    {
        self.danger_count = 0;
        self.safe_count = 0;
        self.last_was_danger = false;
    }

    /// Records that the danger has been cleared elsewhere: the alarm flag drops,
    /// the counters stay.
    pub fn notify_danger_cleared(&mut self)
        ensures
            final(self).debounce_config() == old(self).debounce_config(),
            final(self).state() == (AlarmDebouncerState {
                last_was_danger: false,
                ..old(self).state()
            }),
    {
        self.last_was_danger = false;
    }

    /// A snapshot of the counters.
    pub fn clone_state(&self) -> (r: AlarmDebouncerState)
        ensures
            r == self.state(),
    {
        AlarmDebouncerState {
            danger_count: self.danger_count,
            safe_count: self.safe_count,
            last_was_danger: self.last_was_danger,
        }
    }
}

/// The counters after a run of samples, `inputs[i]` telling whether sample `i` is alarming.
pub open spec fn debounce_run(
    s: AlarmDebouncerState,
    cfg: AlarmDebounceConfig,
    inputs: Seq<bool>,
) -> AlarmDebouncerState
    decreases inputs.len(),
{
    if inputs.len() == 0 {
        s
    } else {
        debounce_next(debounce_run(s, cfg, inputs.drop_last()), cfg, inputs.last())
    }
}

/// Whether sample `i` of a run raises the alarm.
pub open spec fn raised_at(s: AlarmDebouncerState, cfg: AlarmDebounceConfig, inputs: Seq<bool>, i: int) -> bool {
    0 <= i < inputs.len() && debounce_raises(debounce_run(s, cfg, inputs.take(i)), cfg, inputs[i])
}

/// Whether sample `i` of a run clears the alarm.
pub open spec fn cleared_at(s: AlarmDebouncerState, cfg: AlarmDebounceConfig, inputs: Seq<bool>, i: int) -> bool {
    0 <= i < inputs.len() && debounce_clears(debounce_run(s, cfg, inputs.take(i)), cfg, inputs[i])
}

/// The counters after `k` alarming samples.
pub open spec fn after_alarms(s: AlarmDebouncerState, cfg: AlarmDebounceConfig, k: nat) -> AlarmDebouncerState
    decreases k,
{
    if k == 0 {
        s
    } else {
        debounce_next(after_alarms(s, cfg, (k - 1) as nat), cfg, true)
    }
}

proof fn lemma_after_alarms_quiet(s: AlarmDebouncerState, cfg: AlarmDebounceConfig, k: nat)
    requires
        s.danger_count == 0,
        !s.last_was_danger,
        cfg.alarm_debounce_count >= 1,
        k < cfg.alarm_debounce_count,
    ensures
        after_alarms(s, cfg, k).danger_count == k,
        !after_alarms(s, cfg, k).last_was_danger,
    decreases k,
{
    if k > 0 {
        lemma_after_alarms_quiet(s, cfg, (k - 1) as nat);
    }
}

proof fn lemma_after_alarms_count(s: AlarmDebouncerState, cfg: AlarmDebounceConfig, k: nat)
    requires
        s.danger_count == 0,
        k < cfg.alarm_debounce_count,
    ensures
        after_alarms(s, cfg, k).danger_count == k,
    decreases k,
{
    if k > 0 {
        lemma_after_alarms_count(s, cfg, (k - 1) as nat);
    }
}

/// A safe sample ends any alarming run: from any state, after a safe sample
/// the danger count is 0, the `k`-th alarming sample that follows it has
/// counted exactly `k`, and none of the first `alarm_debounce_count - 1`
/// alarming samples after it raises the alarm.
pub proof fn law_safe_sample_breaks_run(s: AlarmDebouncerState, cfg: AlarmDebounceConfig, k: nat)
    requires
        k < cfg.alarm_debounce_count,
    ensures
        debounce_next(s, cfg, false).danger_count == 0,
        after_alarms(debounce_next(s, cfg, false), cfg, k).danger_count == k,
        k + 1 < cfg.alarm_debounce_count ==> !debounce_raises(after_alarms(debounce_next(s, cfg, false), cfg, k), cfg, true),
{
    lemma_after_alarms_count(debounce_next(s, cfg, false), cfg, k);
}

/// From a quiet state (no alarm, no alarming run), with a threshold of `n >= 1`
/// samples, the first `n - 1` consecutive alarming samples raise nothing and
/// the `n`-th raises the alarm.
pub proof fn law_alarm_raised_after_threshold(s: AlarmDebouncerState, cfg: AlarmDebounceConfig, k: nat)
    requires
        s.danger_count == 0,
        !s.last_was_danger,
        cfg.alarm_debounce_count >= 1,
        k < cfg.alarm_debounce_count,
    ensures
        k + 1 < cfg.alarm_debounce_count ==> !debounce_raises(after_alarms(s, cfg, k), cfg, true),
        k + 1 == cfg.alarm_debounce_count ==> debounce_raises(after_alarms(s, cfg, k), cfg, true),
{
    lemma_after_alarms_quiet(s, cfg, k);
}

/// With a zero threshold, the first alarming sample in a quiet state raises the
/// alarm, and with a zero clear threshold the first safe sample clears it.
pub proof fn law_zero_thresholds_act_at_once(s: AlarmDebouncerState, cfg: AlarmDebounceConfig)
    requires
        cfg.alarm_debounce_count == 0,
        cfg.alarm_clear_debounce_count == 0,
    ensures
        !s.last_was_danger ==> debounce_raises(s, cfg, true),
        s.last_was_danger ==> debounce_clears(s, cfg, false),
{
}

proof fn lemma_run_step(s: AlarmDebouncerState, cfg: AlarmDebounceConfig, inputs: Seq<bool>, m: int)
    requires
        0 <= m < inputs.len(),
    ensures
        debounce_run(s, cfg, inputs.take(m + 1)) == debounce_next(
            debounce_run(s, cfg, inputs.take(m)),
            cfg,
            inputs[m],
        ),
{
    assert(inputs.take(m + 1).drop_last() =~= inputs.take(m));
}

proof fn lemma_flag_holds_until_cleared(
    s: AlarmDebouncerState,
    cfg: AlarmDebounceConfig,
    inputs: Seq<bool>,
    i: int,
    m: int,
)
    requires
        raised_at(s, cfg, inputs, i),
        i < m <= inputs.len(),
        forall|k: int| i < k < m ==> !cleared_at(s, cfg, inputs, k),
    ensures
        debounce_run(s, cfg, inputs.take(m)).last_was_danger,
    decreases m - i,
{
    lemma_run_step(s, cfg, inputs, m - 1);
    if m - 1 > i {
        lemma_flag_holds_until_cleared(s, cfg, inputs, i, m - 1);
        assert(!cleared_at(s, cfg, inputs, m - 1));
    }
}

proof fn lemma_flag_down_until_raised(
    s: AlarmDebouncerState,
    cfg: AlarmDebounceConfig,
    inputs: Seq<bool>,
    i: int,
    m: int,
)
    requires
        cleared_at(s, cfg, inputs, i),
        i < m <= inputs.len(),
        forall|k: int| i < k < m ==> !raised_at(s, cfg, inputs, k),
    ensures
        !debounce_run(s, cfg, inputs.take(m)).last_was_danger,
    decreases m - i,
{
    lemma_run_step(s, cfg, inputs, m - 1);
    if m - 1 > i {
        lemma_flag_down_until_raised(s, cfg, inputs, i, m - 1);
        assert(!raised_at(s, cfg, inputs, m - 1));
    }
}

/// Over any run of samples, two raised alarms always have a clearing between them.
pub proof fn law_raises_separated_by_clear(
    s: AlarmDebouncerState,
    cfg: AlarmDebounceConfig,
    inputs: Seq<bool>,
    i: int,
    j: int,
)
    requires
        i < j,
        raised_at(s, cfg, inputs, i),
        raised_at(s, cfg, inputs, j),
    ensures
        exists|k: int| i < k < j && cleared_at(s, cfg, inputs, k),
{
    if forall|k: int| i < k < j ==> !cleared_at(s, cfg, inputs, k) {
        lemma_flag_holds_until_cleared(s, cfg, inputs, i, j);
    }
}

/// Over any run of samples, two clearings always have a raised alarm between them.
pub proof fn law_clears_separated_by_raise(
    s: AlarmDebouncerState,
    cfg: AlarmDebounceConfig,
    inputs: Seq<bool>,
    i: int,
    j: int,
)
    requires
        i < j,
        cleared_at(s, cfg, inputs, i),
        cleared_at(s, cfg, inputs, j),
    ensures
        exists|k: int| i < k < j && raised_at(s, cfg, inputs, k),
{
    if forall|k: int| i < k < j ==> !raised_at(s, cfg, inputs, k) {
        lemma_flag_down_until_raised(s, cfg, inputs, i, j);
    }
}

/// A debouncer that starts quiet never clears before it has raised.
pub proof fn law_no_clear_before_raise(
    s: AlarmDebouncerState,
    cfg: AlarmDebounceConfig,
    inputs: Seq<bool>,
    j: int,
)
    requires
        !s.last_was_danger,
        cleared_at(s, cfg, inputs, j),
    ensures
        exists|k: int| 0 <= k < j && raised_at(s, cfg, inputs, k),
{
    if forall|k: int| 0 <= k < j ==> !raised_at(s, cfg, inputs, k) {
        lemma_quiet_until_raised(s, cfg, inputs, j);
    }
}

proof fn lemma_quiet_until_raised(s: AlarmDebouncerState, cfg: AlarmDebounceConfig, inputs: Seq<bool>, m: int)
    requires
        !s.last_was_danger,
        0 <= m <= inputs.len(),
        forall|k: int| 0 <= k < m ==> !raised_at(s, cfg, inputs, k),
    ensures
        !debounce_run(s, cfg, inputs.take(m)).last_was_danger,
    decreases m,
{
    if m == 0 {
        assert(inputs.take(0) =~= Seq::<bool>::empty());
    } else {
        lemma_run_step(s, cfg, inputs, m - 1);
        lemma_quiet_until_raised(s, cfg, inputs, m - 1);
        assert(!raised_at(s, cfg, inputs, m - 1));
    }
}

} // verus!
