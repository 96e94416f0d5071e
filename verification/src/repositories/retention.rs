use vstd::prelude::*;
use vstd::string::StringExecFns;
use crate::time::{system_time_now, secs_since_epoch};

verus! {

/// `n`, or `usize::MAX` when it is larger.
pub open spec fn saturated(n: nat) -> nat {
    if n <= usize::MAX { n } else { usize::MAX as nat }
}

/// The record count above which old records are purged: the configured
/// threshold, or else 110% of the limit (rounded down) but at most `slack`
/// records over it, both saturating at `usize::MAX`.
pub open spec fn purge_threshold_for(max_records: nat, purge_threshold: nat, slack: nat) -> nat {
    if purge_threshold > 0 {
        purge_threshold
    } else {
        let tenth_over = saturated(max_records + max_records / 10);
        let capped = saturated(max_records + slack);
        if tenth_over <= capped { tenth_over } else { capped }
    }
}

/// Whether a purge computation stays within range: when the count exceeds
/// the threshold it is at least the limit, so the records to delete can be
/// counted.
pub open spec fn purge_computable(count: nat, max_records: nat, purge_threshold: nat, slack: nat) -> bool {
    max_records == 0 || count <= purge_threshold_for(max_records, purge_threshold, slack) || count >= max_records
}

/// How many of the oldest records a purge deletes when the table holds
/// `count`: none when purging is disabled (`max_records == 0`) or the count
/// does not exceed the threshold, else enough to come back to `max_records`.
pub open spec fn purge_amount(count: nat, max_records: nat, purge_threshold: nat, slack: nat) -> nat {
    if max_records == 0 || count <= purge_threshold_for(max_records, purge_threshold, slack) {
        0
    } else {
        (count - max_records) as nat
    }
}

/// The purge threshold: `purge_threshold` when set, else the smaller of 110%
/// of `max_records` and `max_records + slack` (saturating).
pub fn purge_threshold(max_records: usize, configured: usize, slack: usize) -> (r: usize)
    ensures
        r == purge_threshold_for(max_records as nat, configured as nat, slack as nat),
{
    if configured > 0 {
        configured
    } else {
        let tenth_over = max_records.saturating_add(max_records / 10);
        let capped = max_records.saturating_add(slack);
        if tenth_over <= capped { tenth_over } else { capped }
    }
}

/// How many of the oldest records to delete from a table holding `count`.
/// Runtime records use a slack of 1000, alarm records of 100.
pub fn purge_plan(count: usize, max_records: usize, purge_threshold_setting: usize, slack: usize) -> (r: usize)
    requires
        purge_computable(count as nat, max_records as nat, purge_threshold_setting as nat, slack as nat),
    ensures
        r == purge_amount(count as nat, max_records as nat, purge_threshold_setting as nat, slack as nat),
{
    if max_records == 0 {
        return 0;
    }
    let threshold = purge_threshold(max_records, purge_threshold_setting, slack);
    if count <= threshold {
        return 0;
    }
    count - max_records
}

/// After a purge the table holds exactly `max_records` records, and purging
/// never removes more records than there are.
pub proof fn law_purge_restores_limit(count: usize, max_records: usize, purge_threshold: usize, slack: usize)
    requires
        purge_amount(count as nat, max_records as nat, purge_threshold as nat, slack as nat) > 0,
        purge_threshold == 0 || purge_threshold >= max_records,
    ensures
        count - purge_amount(count as nat, max_records as nat, purge_threshold as nat, slack as nat) == max_records,
        purge_amount(count as nat, max_records as nat, purge_threshold as nat, slack as nat) <= count,
{
}

/// A table at or below its threshold is left alone.
pub proof fn law_purge_idle_below_threshold(count: nat, max_records: nat, purge_threshold: nat, slack: nat)
    requires
        count <= purge_threshold_for(max_records, purge_threshold, slack),
    ensures
        purge_amount(count, max_records, purge_threshold, slack) == 0,
{
}

/// A configured threshold (greater than 0) is the threshold used, whatever
/// the limit and the slack: a table at or below it is left alone, and a table
/// above it (and at least at the limit) is purged back to the limit.
pub proof fn law_configured_threshold_used(count: nat, max_records: nat, configured: nat, slack: nat)
    requires
        configured > 0,
    ensures
        purge_threshold_for(max_records, configured, slack) == configured,
        count <= configured ==> purge_amount(count, max_records, configured, slack) == 0,
        max_records > 0 && count > configured && count >= max_records ==> purge_amount(count, max_records, configured, slack) == count - max_records,
{
}

/// Seconds in a day.
pub const DAY_SECS: i64 = 86400;

/// The remainder of `a` divided by `b` rounded toward zero, as Rust's `%`
/// computes it: it takes the sign of `a`.
pub open spec fn truncated_rem(a: int, b: int) -> int {
    if a >= 0 { a % b } else { -((-a) % b) }
}

/// The time span, in Unix seconds, that a history filter selects at `now`:
/// "today" from the start of the day (UTC), "week" the last 7 days, "month"
/// the last 30 days; "all" and unknown filters select everything (`None`).
pub open spec fn time_range_at(filter: Seq<char>, now: i64) -> Option<(i64, i64)> {
    if filter == "today"@ {
        Some(((now - truncated_rem(now as int, DAY_SECS as int)) as i64, now))
    } else if filter == "week"@ {
        Some(((now - 7 * DAY_SECS) as i64, now))
    } else if filter == "month"@ {
        Some(((now - 30 * DAY_SECS) as i64, now))
    } else {
        None
    }
}

fn same_text(a: &str, b: &str) -> (r: bool)
    ensures
        r == (a@ == b@),
{
    let x = String::from_str(a);
    let y = String::from_str(b);
    x == y
}

/// The time span a history filter selects at Unix second `now`.
pub fn time_range_for(filter: &str, now: i64) -> (r: Option<(i64, i64)>)
    requires
        now >= i64::MIN + 30 * DAY_SECS,
    ensures
        r == time_range_at(filter@, now),
{
    if same_text(filter, "today") {
        let rem = now % DAY_SECS;
        proof {
            assert(rem == truncated_rem(now as int, DAY_SECS as int));
        }
        Some((now - rem, now))
    } else if same_text(filter, "week") {
        Some((now - 7 * DAY_SECS, now))
    } else if same_text(filter, "month") {
        Some((now - 30 * DAY_SECS, now))
    } else {
        None
    }
}

/// The time span a history filter selects now, by the system clock. A clock
/// before 1970, or beyond the seconds an `i64` holds, counts as second 0.
pub fn calculate_time_range(filter: &str) -> (r: Option<(i64, i64)>)
    ensures
        exists|now: i64| 0 <= now && r == #[trigger] time_range_at(filter@, now),
        r is Some <==> (filter@ == "today"@ || filter@ == "week"@ || filter@ == "month"@),
        r matches Some((start, end)) ==> start <= end && end - start <= 30 * DAY_SECS,
{
    let secs = secs_since_epoch(system_time_now());
    let now: i64 = if secs <= 9223372036854775807u64 { secs as i64 } else { 0 };
    let r = time_range_for(filter, now);
    proof {
        reveal_strlit("today");
        reveal_strlit("week");
        reveal_strlit("month");
        assert(0 <= now && r == time_range_at(filter@, now));
    }
    r
}

} // verus!
