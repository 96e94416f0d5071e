use vstd::prelude::*;
use vstd::string::StringExecFns;
use std::time::SystemTime;
use crate::time::system_time_now;

verus! {

/// Severity of an alarm.
#[derive(Debug, Clone, Copy, PartialEq, Eq, Structural)]
pub enum AlarmType {
    /// Load moment between 90% and 100%.
    Warning,
    /// Load moment above 100%.
    Danger,
}

impl AlarmType {
    /// The label shown for the alarm type.
    pub fn display_text(&self) -> (r: &str)
        ensures
            r@ == match *self {
                AlarmType::Warning => "预警"@,
                AlarmType::Danger => "危险"@,
            },
    {
        match self {
            AlarmType::Warning => "预警",
            AlarmType::Danger => "危险",
        }
    }

    /// The name under which the type is stored: "warning" or "danger".
    pub fn storage_name(&self) -> (r: &str)
        ensures
            r@ == match *self {
                AlarmType::Warning => "warning"@,
                AlarmType::Danger => "danger"@,
            },
    {
        match self {
            AlarmType::Warning => "warning",
            AlarmType::Danger => "danger",
        }
    }

    /// The type stored under `name`, if it is one of the storage names.
    pub fn from_storage_name(name: &str) -> (r: Option<AlarmType>)
        ensures
            name@ == "warning"@ ==> r == Some(AlarmType::Warning),
            name@ == "danger"@ ==> r == Some(AlarmType::Danger),
            name@ != "warning"@ && name@ != "danger"@ ==> r is None,
    {
        let n = String::from_str(name);
        let w = String::from_str("warning");
        let d = String::from_str("danger");
        proof {
            reveal_strlit("warning");
            reveal_strlit("danger");
            assert("warning"@.len() != "danger"@.len());
        }
        if n == w {
            Some(AlarmType::Warning)
        } else if n == d {
            Some(AlarmType::Danger)
        } else {
            None
        }
    }

    /// The numeric severity: 1 for a warning, 2 for danger.
    pub fn level(&self) -> (r: u8)
        ensures
            r == match *self {
                AlarmType::Warning => 1u8,
                AlarmType::Danger => 2u8,
            },
    {
        match self {
            AlarmType::Warning => 1,
            AlarmType::Danger => 2,
        }
    }
}

/// One recorded alarm.
///
/// The measurements are IEEE-754 bit patterns of `f64` values (`f64::to_bits`).
#[derive(Debug, Clone, Copy)]
pub struct AlarmRecord {
    pub id: u64,
    pub timestamp: SystemTime,
    pub alarm_type: AlarmType,
    pub moment_percentage: u64,
    pub current_load: u64,
    pub working_radius: u64,
    pub boom_angle: u64,
    pub is_read: bool,
}

impl AlarmRecord {
    /// An unread alarm recorded now.
    pub fn new(
        id: u64,
        alarm_type: AlarmType,
        moment_percentage: u64,
        current_load: u64,
        working_radius: u64,
        boom_angle: u64,
    ) -> (r: Self)
        ensures
            r.id == id,
            r.alarm_type == alarm_type,
            r.moment_percentage == moment_percentage,
            r.current_load == current_load,
            r.working_radius == working_radius,
            r.boom_angle == boom_angle,
            !r.is_read,
    {
        AlarmRecord {
            id,
            timestamp: system_time_now(),
            alarm_type,
            moment_percentage,
            current_load,
            working_radius,
            boom_angle,
            is_read: false,
        }
    }

    pub fn mark_as_read(&mut self)
        ensures
            *final(self) == (AlarmRecord { is_read: true, ..*old(self) }),
    {
        self.is_read = true;
    }
}

/// Whether a record is unread.
pub open spec fn unread() -> spec_fn(AlarmRecord) -> bool {
    |r: AlarmRecord| !r.is_read
}

/// Whether a record has the given type.
pub open spec fn has_type(t: AlarmType) -> spec_fn(AlarmRecord) -> bool {
    |r: AlarmRecord| r.alarm_type == t
}

/// Whether a record passes the view's filters: the type filter, when set,
/// and the unread-only switch.
pub open spec fn passes_filters(filter_type: Option<AlarmType>, unread_only: bool) -> spec_fn(AlarmRecord) -> bool {
    |r: AlarmRecord| {
        &&& (filter_type matches Some(t) ==> r.alarm_type == t)
        &&& (unread_only ==> !r.is_read)
    }
}

/// The record with `id` that comes first in `records`, by index.
pub open spec fn first_with_id(records: Seq<AlarmRecord>, id: u64, i: int) -> bool {
    &&& 0 <= i < records.len()
    &&& records[i].id == id
    &&& forall|j: int| 0 <= j < i ==> records[j].id != id
}

/// The predicate counted by `count_where`: unread records, danger records or warning records.
spec fn counted(which: u8) -> spec_fn(AlarmRecord) -> bool {
    if which == 0 {
        unread()
    } else if which == 1 {
        has_type(AlarmType::Danger)
    } else {
        has_type(AlarmType::Warning)
    }
}

/// How many of `records` satisfy `counted(which)`.
fn count_where(records: &Vec<AlarmRecord>, which: u8) -> (r: usize)
    ensures
        r == records@.filter(counted(which)).len(),
{
    let ghost pred = counted(which);
    let mut n: usize = 0;
    let mut i: usize = 0;
    while i < records.len()
        invariant
            i <= records@.len(),
            n == records@.take(i as int).filter(pred).len(),
            n <= i,
            pred == counted(which),
        decreases records@.len() - i,
    {
        let rec = &records[i];
        let hit = if which == 0 {
            !rec.is_read
        } else if which == 1 {
            rec.alarm_type == AlarmType::Danger
        } else {
            rec.alarm_type == AlarmType::Warning
        };
        proof {
            let t = records@.take(i + 1);
            assert(t.drop_last() =~= records@.take(i as int));
            assert(t.last() == records@[i as int]);
            reveal(Seq::filter);
            assert(hit == pred(records@[i as int]));
        }
        if hit {
            n = n + 1;
        }
        i = i + 1;
    }
    assert(records@.take(records@.len() as int) =~= records@);
    n
}

/// Every record is either a warning or a danger: the two counts add up to the
/// number of records.
pub proof fn law_counts_partition(records: Seq<AlarmRecord>)
    ensures
        records.filter(has_type(AlarmType::Danger)).len() + records.filter(has_type(AlarmType::Warning)).len()
            == records.len(),
    decreases records.len(),
{
    reveal(Seq::filter);
    if records.len() > 0 {
        law_counts_partition(records.drop_last());
    }
}

/// Once every record has been read, none is counted as unread.
pub proof fn law_all_read_none_unread(records: Seq<AlarmRecord>)
    requires
        forall|i: int| 0 <= i < records.len() ==> #[trigger] records[i].is_read,
    ensures
        records.filter(unread()).len() == 0,
    decreases records.len(),
{
    reveal(Seq::filter);
    if records.len() > 0 {
        let rest = records.drop_last();
        assert forall|i: int| 0 <= i < rest.len() implies #[trigger] rest[i].is_read by {
            assert(rest[i] == records[i]);
        }
        law_all_read_none_unread(rest);
        assert(records.last().is_read);
    }
}

/// The alarm list of the alarm view.
#[derive(Debug, Clone)]
pub struct AlarmState {
    pub records: Vec<AlarmRecord>,
    pub selected_record_id: Option<u64>,
    pub filter_type: Option<AlarmType>,
    pub show_unread_only: bool,
    pub is_loading: bool,
    pub error_message: Option<String>,
    pub total_count: usize,
}

impl Default for AlarmState {
    fn default() -> (r: Self)
        ensures
            r.records@ == Seq::<AlarmRecord>::empty(),
            r.selected_record_id is None,
            r.filter_type is None,
            !r.show_unread_only,
            !r.is_loading,
            r.error_message is None,
            r.total_count == 0,
    {
        AlarmState {
            records: Vec::new(),
            selected_record_id: None,
            filter_type: None,
            show_unread_only: false,
            is_loading: false,
            error_message: None,
            total_count: 0,
        }
    }
}

impl AlarmState {
    pub fn new() -> (r: Self)
        ensures
            r.records@ == Seq::<AlarmRecord>::empty(),
            r.selected_record_id is None,
            r.filter_type is None,
            !r.show_unread_only,
            !r.is_loading,
            r.error_message is None,
            r.total_count == 0,
    {
        AlarmState::default()
    }

    /// Appends a record; the total becomes the number of records.
    pub fn add_record(&mut self, record: AlarmRecord)
        ensures
            final(self).records@ == old(self).records@.push(record),
            final(self).total_count == final(self).records@.len(),
            final(self).selected_record_id == old(self).selected_record_id,
            final(self).filter_type == old(self).filter_type,
            final(self).show_unread_only == old(self).show_unread_only,
    {
        self.records.push(record);
        self.total_count = self.records.len();
    }

    pub fn unread_count(&self) -> (r: usize)
        ensures
            r == self.records@.filter(unread()).len(),
    {
        count_where(&self.records, 0)
    }

    pub fn danger_count(&self) -> (r: usize)
        ensures
            r == self.records@.filter(has_type(AlarmType::Danger)).len(),
    {
        count_where(&self.records, 1)
    }

    pub fn warning_count(&self) -> (r: usize)
        ensures
            r == self.records@.filter(has_type(AlarmType::Warning)).len(),
    {
        count_where(&self.records, 2)
    }

    /// Marks every record as read, leaving everything else as it was.
    pub fn mark_all_as_read(&mut self)
        ensures
            final(self).records@.len() == old(self).records@.len(),
            forall|i: int| 0 <= i < old(self).records@.len() ==>
                #[trigger] final(self).records@[i] == (AlarmRecord { is_read: true, ..old(self).records@[i] }),
            final(self).total_count == old(self).total_count,
            final(self).selected_record_id == old(self).selected_record_id,
            final(self).filter_type == old(self).filter_type,
            final(self).show_unread_only == old(self).show_unread_only,
    {
        let mut i: usize = 0;
        while i < self.records.len()
            invariant
                i <= self.records@.len(),
                self.records@.len() == old(self).records@.len(),
                forall|j: int| 0 <= j < i ==>
                    #[trigger] self.records@[j] == (AlarmRecord { is_read: true, ..old(self).records@[j] }),
                forall|j: int| i <= j < self.records@.len() ==> #[trigger] self.records@[j] == old(self).records@[j],
                self.total_count == old(self).total_count,
                self.selected_record_id == old(self).selected_record_id,
                self.filter_type == old(self).filter_type,
                self.show_unread_only == old(self).show_unread_only,
            decreases self.records@.len() - i,
        {
            let mut rec = self.records[i];
            rec.is_read = true;
            self.records.set(i, rec);
            i = i + 1;
        }
    }

    /// The first record with `id`, if any.
    pub fn find_record(&self, id: u64) -> (r: Option<&AlarmRecord>)
        ensures
            match r {
                Some(rec) => exists|i: int| first_with_id(self.records@, id, i) && *rec == self.records@[i],
                None => forall|i: int| 0 <= i < self.records@.len() ==> self.records@[i].id != id,
            },
    {
        match self.position_of(id) {
            Some(i) => Some(&self.records[i]),
            None => None,
        }
    }

    /// The index of the first record with `id`, if any.
    fn position_of(&self, id: u64) -> (r: Option<usize>)
        ensures
            match r {
                Some(i) => first_with_id(self.records@, id, i as int),
                None => forall|i: int| 0 <= i < self.records@.len() ==> self.records@[i].id != id,
            },
    {
        let mut i: usize = 0;
        while i < self.records.len()
            invariant
                i <= self.records@.len(),
                forall|j: int| 0 <= j < i ==> self.records@[j].id != id,
            decreases self.records@.len() - i,
        {
            if self.records[i].id == id {
                return Some(i);
            }
            i = i + 1;
        }
        None
    }

    /// The first record with `id`, for changing it in place.
    pub fn find_record_mut(&mut self, id: u64) -> (r: Option<&mut AlarmRecord>)
        ensures
            match r {
                Some(rec) => exists|i: int| {
                    &&& first_with_id(old(self).records@, id, i)
                    &&& *rec == old(self).records@[i]
                    &&& final(self).records@ == old(self).records@.update(i, *final(rec))
                },
                None => {
                    &&& forall|i: int| 0 <= i < old(self).records@.len() ==> old(self).records@[i].id != id
                    &&& final(self).records@ == old(self).records@
                },
            },
            final(self).total_count == old(self).total_count,
            final(self).selected_record_id == old(self).selected_record_id,
            final(self).filter_type == old(self).filter_type,
            final(self).show_unread_only == old(self).show_unread_only,
    {
        match self.position_of(id) {
            Some(i) => Some(&mut self.records[i]),
            None => None,
        }
    }

    /// The records that pass the type filter, when set, and the unread-only
    /// switch, in list order.
    pub fn filtered_records(&self) -> (r: Vec<&AlarmRecord>)
        ensures
            r@.map_values(|x: &AlarmRecord| *x) == self.records@.filter(
                passes_filters(self.filter_type, self.show_unread_only),
            ),
    {
        let ghost pred = passes_filters(self.filter_type, self.show_unread_only);
        let mut r: Vec<&AlarmRecord> = Vec::new();
        let mut i: usize = 0;
        while i < self.records.len()
            invariant
                i <= self.records@.len(),
                pred == passes_filters(self.filter_type, self.show_unread_only),
                r@.map_values(|x: &AlarmRecord| *x) == self.records@.take(i as int).filter(pred),
            decreases self.records@.len() - i,
        {
            let rec = &self.records[i];
            let type_ok = match self.filter_type {
                Some(t) => rec.alarm_type == t,
                None => true,
            };
            let keep = type_ok && !(self.show_unread_only && rec.is_read);
            let ghost before = r@;
            proof {
                let t = self.records@.take(i + 1);
                assert(t.drop_last() =~= self.records@.take(i as int));
                assert(t.last() == self.records@[i as int]);
                reveal(Seq::filter);
                assert(keep == pred(self.records@[i as int]));
            }
            if keep {
                r.push(rec);
                assert(r@.map_values(|x: &AlarmRecord| *x) =~= before.map_values(|x: &AlarmRecord| *x).push(*rec));
            }
            i = i + 1;
        }
        assert(self.records@.take(self.records@.len() as int) =~= self.records@);
        r
    }

    /// Removes every record and the selection.
    pub fn clear_records(&mut self)
        ensures
            final(self).records@ == Seq::<AlarmRecord>::empty(),
            final(self).total_count == 0,
            final(self).selected_record_id is None,
            final(self).filter_type == old(self).filter_type,
            final(self).show_unread_only == old(self).show_unread_only,
    {
        self.records.clear();
        self.total_count = 0;
        self.selected_record_id = None;
    }
}

} // verus!
