use vstd::prelude::*;
use vstd::string::StringExecFns;
use crate::models::{AlarmRecord, ProcessedData, ProcessedDataView, data_views};
use crate::pipeline::history::{newest_first, take_count};
use crate::time::system_time_now;

verus! {

/// The alarms not yet acknowledged, in storage order.
pub open spec fn unacknowledged(alarms: Seq<AlarmRecord>) -> Seq<AlarmRecord> {
    alarms.filter(|a: AlarmRecord| !a.acknowledged)
}

/// An in-memory storage, for tests: it keeps what it is given and can be
/// told to fail.
#[derive(Debug)]
pub struct MockStorageRepository {
    runtime_data: Vec<ProcessedData>,
    alarm_records: Vec<AlarmRecord>,
    should_fail: bool,
}

impl MockStorageRepository {
    /// The stored samples, oldest first.
    pub closed spec fn stored(&self) -> Seq<ProcessedDataView> {
        data_views(self.runtime_data@)
    }

    /// The stored alarms, oldest first; alarm `id` is at index `id - 1`.
    pub closed spec fn alarms(&self) -> Seq<AlarmRecord> {
        self.alarm_records@
    }

    /// Whether operations are made to fail.
    pub closed spec fn failing(&self) -> bool {
        self.should_fail
    }

    /// An empty storage that does not fail.
    pub fn new() -> (r: Self)
        ensures
            r.stored() == Seq::<ProcessedDataView>::empty(),
            r.alarms() == Seq::<AlarmRecord>::empty(),
            !r.failing(),
    {
        let r = MockStorageRepository { runtime_data: Vec::new(), alarm_records: Vec::new(), should_fail: false };
        assert(data_views(r.runtime_data@) =~= Seq::<ProcessedDataView>::empty());
        r
    }

    pub fn set_should_fail(&mut self, should_fail: bool)
        ensures
            final(self).failing() == should_fail,
            final(self).stored() == old(self).stored(),
            final(self).alarms() == old(self).alarms(),
    {
        self.should_fail = should_fail;
    }

    pub fn get_runtime_data_count(&self) -> (r: usize)
        ensures
            r == self.stored().len(),
    {
        self.runtime_data.len()
    }

    pub fn get_alarm_count(&self) -> (r: usize)
        ensures
            r == self.alarms().len(),
    {
        self.alarm_records.len()
    }

    /// Forgets every sample and alarm.
    pub fn clear(&mut self)
        ensures
            final(self).stored() == Seq::<ProcessedDataView>::empty(),
            final(self).alarms() == Seq::<AlarmRecord>::empty(),
            final(self).failing() == old(self).failing(),
    {
        self.runtime_data.clear();
        self.alarm_records.clear();
        assert(data_views(self.runtime_data@) =~= Seq::<ProcessedDataView>::empty());
    }

    /// Appends the samples; fails, storing nothing, when told to fail.
    pub fn save_runtime_data_batch(&mut self, data: &[ProcessedData]) -> (r: Result<usize, String>)
        ensures
            old(self).failing() ==> (r matches Err(m) && m@ == "Mock failure"@) && final(self).stored() == old(self).stored(),
            !old(self).failing() ==> r == Ok::<usize, String>(data@.len() as usize)
                && final(self).stored() == old(self).stored() + data_views(data@),
            final(self).alarms() == old(self).alarms(),
            final(self).failing() == old(self).failing(),
    {
        if self.should_fail {
            return Err(String::from_str("Mock failure"));
        }
        let ghost before = self.runtime_data@;
        let mut i: usize = 0;
        while i < data.len()
            invariant
                i <= data@.len(),
                data_views(self.runtime_data@) == data_views(before) + data_views(data@).take(i as int),
                self.alarm_records@ == old(self).alarms(),
                self.should_fail == old(self).failing(),
                before == old(self).runtime_data@,
            decreases data@.len() - i,
        {
            let d = data[i].clone();
            let ghost prev = self.runtime_data@;
            self.runtime_data.push(d);
            assert(data_views(self.runtime_data@) =~= data_views(prev).push(data@[i as int]@));
            assert(data_views(data@).take(i + 1) =~= data_views(data@).take(i as int).push(data@[i as int]@));
            i = i + 1;
        }
        assert(data_views(data@).take(data@.len() as int) =~= data_views(data@));
        Ok(data.len())
    }

    /// Stores the alarm raised by a sample and returns its id, counted from
    /// 1; fails, storing nothing, when told to fail.
    pub fn save_alarm_record(&mut self, data: &ProcessedData) -> (r: Result<i64, String>)
        requires
            old(self).alarms().len() < i64::MAX,
        ensures
            old(self).failing() ==> (r matches Err(m) && m@ == "Mock failure"@) && final(self).alarms() == old(self).alarms(),
            !old(self).failing() ==> {
                &&& r == Ok::<i64, String>((old(self).alarms().len() + 1) as i64)
                &&& final(self).alarms().len() == old(self).alarms().len() + 1
                &&& final(self).alarms().drop_last() == old(self).alarms()
                &&& final(self).alarms().last().is_alarm_of(*data)
            },
            final(self).stored() == old(self).stored(),
            final(self).failing() == old(self).failing(),
    {
        if self.should_fail {
            return Err(String::from_str("Mock failure"));
        }
        let alarm = AlarmRecord::from_processed_data(data);
        let ghost before = self.alarm_records@;
        self.alarm_records.push(alarm);
        assert(self.alarm_records@.drop_last() =~= before);
        Ok(self.alarm_records.len() as i64)
    }

    /// Up to `limit` stored samples, newest first.
    pub fn query_recent_runtime_data(&self, limit: usize) -> (r: Result<Vec<ProcessedData>, String>)
        ensures
            r matches Ok(v) && data_views(v@) == newest_first(self.stored(), limit as nat),
    {
        let len = self.runtime_data.len();
        let n = if limit <= len { limit } else { len };
        let mut r: Vec<ProcessedData> = Vec::new();
        let mut i: usize = 0;
        while i < n
            invariant
                n <= len,
                len == self.runtime_data@.len(),
                i <= n,
                r@.len() == i,
                data_views(r@) == data_views(self.runtime_data@).reverse().take(i as int),
            decreases n - i,
        {
            let x = self.runtime_data[len - 1 - i].clone();
            let ghost old_r = r@;
            r.push(x);
            assert forall|j: int| 0 <= j < i implies data_views(r@)[j] == data_views(old_r)[j] by {
                assert(r@[j] == old_r[j]);
            }
            assert(data_views(r@) =~= data_views(self.runtime_data@).reverse().take(i + 1));
            i = i + 1;
        }
        assert(n as int == take_count(data_views(self.runtime_data@), limit as nat));
        Ok(r)
    }

    /// The alarms not acknowledged yet, oldest first.
    pub fn query_unacknowledged_alarms(&self) -> (r: Result<Vec<AlarmRecord>, String>)
        ensures
            r matches Ok(v) && v@ == unacknowledged(self.alarms()),
    {
        let ghost pred = |a: AlarmRecord| !a.acknowledged;
        let mut r: Vec<AlarmRecord> = Vec::new();
        let mut i: usize = 0;
        while i < self.alarm_records.len()
            invariant
                i <= self.alarm_records@.len(),
                pred == (|a: AlarmRecord| !a.acknowledged),
                r@ == self.alarm_records@.take(i as int).filter(pred),
            decreases self.alarm_records@.len() - i,
        {
            proof {
                let t = self.alarm_records@.take(i + 1);
                assert(t.drop_last() =~= self.alarm_records@.take(i as int));
                assert(t.last() == self.alarm_records@[i as int]);
                reveal(Seq::filter);
            }
            if !self.alarm_records[i].acknowledged {
                let a = self.alarm_records[i].clone();
                r.push(a);
            }
            i = i + 1;
        }
        assert(self.alarm_records@.take(self.alarm_records@.len() as int) =~= self.alarm_records@);
        Ok(r)
    }

    /// Acknowledges alarm `alarm_id` (ids count from 1), stamping it now.
    pub fn acknowledge_alarm(&mut self, alarm_id: i64) -> (r: Result<(), String>)
        ensures
            1 <= alarm_id <= old(self).alarms().len() ==> {
                &&& r is Ok
                &&& final(self).alarms().len() == old(self).alarms().len()
                &&& forall|k: int| 0 <= k < old(self).alarms().len() && k != alarm_id - 1
                    ==> #[trigger] final(self).alarms()[k] == old(self).alarms()[k]
                &&& final(self).alarms()[alarm_id - 1].acknowledged
                &&& final(self).alarms()[alarm_id - 1].acknowledged_at is Some
                &&& final(self).alarms()[alarm_id - 1] == (AlarmRecord {
                    acknowledged: true,
                    acknowledged_at: final(self).alarms()[alarm_id - 1].acknowledged_at,
                    ..old(self).alarms()[alarm_id - 1]
                })
            },
            !(1 <= alarm_id <= old(self).alarms().len()) ==> (r matches Err(m) && m@ == "Alarm not found"@)
                && final(self).alarms() == old(self).alarms(),
            final(self).stored() == old(self).stored(),
            final(self).failing() == old(self).failing(),
    {
        if alarm_id < 1 || alarm_id as u64 > self.alarm_records.len() as u64 {
            return Err(String::from_str("Alarm not found"));
        }
        let idx = (alarm_id - 1) as usize;
        let mut a = self.alarm_records[idx].clone();
        a.acknowledged = true;
        a.acknowledged_at = Some(system_time_now());
        self.alarm_records.set(idx, a);
        Ok(())
    }

    /// The sequence number of the sample stored last, 0 when none is.
    pub fn get_last_stored_sequence(&self) -> (r: Result<u64, String>)
        ensures
            r == Ok::<u64, String>(if self.stored().len() == 0 { 0 } else { self.stored().last().sequence_number }),
    {
        let n = self.runtime_data.len();
        if n == 0 {
            Ok(0)
        } else {
            Ok(self.runtime_data[n - 1].sequence_number)
        }
    }

    /// Fails when told to fail.
    pub fn health_check(&self) -> (r: Result<(), String>)
        ensures
            self.failing() ==> (r matches Err(m) && m@ == "Mock health check failed"@),
            !self.failing() ==> r is Ok,
    {
        if self.should_fail {
            Err(String::from_str("Mock health check failed"))
        } else {
            Ok(())
        }
    }
}

impl Default for MockStorageRepository {
    fn default() -> (r: Self)
        ensures
            r.stored() == Seq::<ProcessedDataView>::empty(),
            r.alarms() == Seq::<AlarmRecord>::empty(),
            !r.failing(),
    {
        MockStorageRepository::new()
    }
}

/// Creates storage back ends.
#[derive(Debug, Clone, Copy)]
pub struct StorageFactory;

impl StorageFactory {
    /// An empty in-memory storage, for tests.
    pub fn create_mock() -> (r: MockStorageRepository)
        ensures
            r.stored() == Seq::<ProcessedDataView>::empty(),
            r.alarms() == Seq::<AlarmRecord>::empty(),
            !r.failing(),
    {
        MockStorageRepository::new()
    }
}

/// What the storage reports as stored last is the sequence number of the
/// last sample of the last successful batch.
pub proof fn law_last_stored_after_save(stored: Seq<ProcessedDataView>, batch: Seq<ProcessedDataView>)
    requires
        batch.len() > 0,
    ensures
        (stored + batch).last().sequence_number == batch.last().sequence_number,
{
}

} // verus!
