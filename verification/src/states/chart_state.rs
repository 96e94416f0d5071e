use vstd::prelude::*;
use std::time::SystemTime;
use crate::time::{system_time_now, secs_between};

verus! {

/// One point of the load chart.
///
/// The values are IEEE-754 bit patterns of `f64` values (`f64::to_bits`).
#[derive(Debug, Clone, Copy)]
pub struct ChartDataPoint {
    pub timestamp: SystemTime,
    pub load: u64,
    pub moment_percentage: u64,
    pub radius: u64,
}

/// The chart's points after adding `p`: when there are then more than `max`,
/// the oldest is dropped.
pub open spec fn chart_push(points: Seq<ChartDataPoint>, max: nat, p: ChartDataPoint) -> Seq<ChartDataPoint> {
    if points.len() + 1 > max {
        points.push(p).drop_first()
    } else {
        points.push(p)
    }
}

/// The points whose age in whole seconds, as given in `ages`, is known and
/// at most `seconds`, in order.
pub open spec fn points_within(points: Seq<ChartDataPoint>, ages: Seq<Option<u64>>, seconds: u32) -> Seq<ChartDataPoint>
    decreases points.len(),
{
    if points.len() == 0 || ages.len() != points.len() {
        Seq::empty()
    } else {
        let before = points_within(points.drop_last(), ages.drop_last(), seconds);
        if ages.last() matches Some(a) && a <= seconds {
            before.push(points.last())
        } else {
            before
        }
    }
}

/// The state of the load chart.
#[derive(Debug, Clone)]
pub struct ChartState {
    pub data_points: Vec<ChartDataPoint>,
    /// The span shown, in seconds.
    pub time_range: u32,
    pub is_loading: bool,
    pub error_message: Option<String>,
    pub max_data_points: usize,
}

impl Default for ChartState {
    fn default() -> (r: Self)
        ensures
            r.data_points@ == Seq::<ChartDataPoint>::empty(),
            r.time_range == 60,
            !r.is_loading,
            r.error_message is None,
            r.max_data_points == 100,
    {
        ChartState {
            data_points: Vec::new(),
            time_range: 60,
            is_loading: false,
            error_message: None,
            max_data_points: 100,
        }
    }
}

impl ChartState {
    pub fn new() -> (r: Self)
        ensures
            r.data_points@ == Seq::<ChartDataPoint>::empty(),
            r.time_range == 60,
            !r.is_loading,
            r.error_message is None,
            r.max_data_points == 100,
    {
        ChartState::default()
    }

    /// Adds a point, dropping the oldest when there are then too many.
    pub fn add_data_point(&mut self, point: ChartDataPoint)
        ensures
            final(self).data_points@ == chart_push(old(self).data_points@, old(self).max_data_points as nat, point),
            final(self).time_range == old(self).time_range,
            final(self).is_loading == old(self).is_loading,
            final(self).error_message == old(self).error_message,
            final(self).max_data_points == old(self).max_data_points,
    {
        self.data_points.push(point);
        if self.data_points.len() > self.max_data_points {
            let ghost full = self.data_points@;
            let _ = self.data_points.remove(0);
            assert(self.data_points@ =~= full.drop_first());
        }
    }

    pub fn clear_data_points(&mut self)
        ensures
            final(self).data_points@ == Seq::<ChartDataPoint>::empty(),
            final(self).time_range == old(self).time_range,
            final(self).is_loading == old(self).is_loading,
            final(self).error_message == old(self).error_message,
            final(self).max_data_points == old(self).max_data_points,
    {
        self.data_points.clear();
    }

    /// The points at most `seconds` old, given each point's age in whole
    /// seconds (`None` for a point stamped in the future).
    pub fn points_in_range(&self, ages: &Vec<Option<u64>>, seconds: u32) -> (r: Vec<ChartDataPoint>)
        requires
            ages@.len() == self.data_points@.len(),
        ensures
            r@ == points_within(self.data_points@, ages@, seconds),
    {
        let mut r: Vec<ChartDataPoint> = Vec::new();
        let mut i: usize = 0;
        while i < self.data_points.len()
            invariant
                i <= self.data_points@.len(),
                ages@.len() == self.data_points@.len(),
                r@ == points_within(self.data_points@.take(i as int), ages@.take(i as int), seconds),
            decreases self.data_points@.len() - i,
        {
            proof {
                let t = self.data_points@.take(i + 1);
                let a = ages@.take(i + 1);
                assert(t.drop_last() =~= self.data_points@.take(i as int));
                assert(a.drop_last() =~= ages@.take(i as int));
                assert(t.last() == self.data_points@[i as int]);
                assert(a.last() == ages@[i as int]);
            }
            match ages[i] {
                Some(age) => {
                    if age <= seconds as u64 {
                        r.push(self.data_points[i]);
                    }
                },
                None => {},
            }
            i = i + 1;
        }
        proof {
            assert(self.data_points@.take(self.data_points@.len() as int) =~= self.data_points@);
            assert(ages@.take(ages@.len() as int) =~= ages@);
        }
        r
    }

    /// The points at most `seconds` old by the system clock now.
    pub fn get_data_points_in_range(&self, seconds: u32) -> (r: Vec<ChartDataPoint>)
        ensures
            exists|ages: Seq<Option<u64>>| ages.len() == self.data_points@.len()
                && r@ == points_within(self.data_points@, ages, seconds),
    {
        let now = system_time_now();
        let mut ages: Vec<Option<u64>> = Vec::new();
        let mut i: usize = 0;
        while i < self.data_points.len()
            invariant
                i <= self.data_points@.len(),
                ages@.len() == i,
            decreases self.data_points@.len() - i,
        {
            ages.push(secs_between(self.data_points[i].timestamp, now));
            i = i + 1;
        }
        self.points_in_range(&ages, seconds)
    }
}

/// The chart never holds more points than its limit once it has reached it:
/// adding to a chart within its limit keeps it within.
pub proof fn law_chart_bounded(points: Seq<ChartDataPoint>, max: nat, p: ChartDataPoint)
    requires
        points.len() <= max,
    ensures
        chart_push(points, max, p).len() <= max,
        max > 0 ==> chart_push(points, max, p).last() == p,
{
}

} // verus!
