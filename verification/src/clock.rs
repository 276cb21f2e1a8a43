//! The clock and the calendar: the present moment, and the local date of a
//! timestamp.

use vstd::prelude::*;
use chrono::TimeZone;
use crate::model::{initial, ClassView, Data, Timestamp};

verus! {

/// Timestamps this many seconds or fewer from the epoch, either way, lie well
/// inside the calendar, whatever the time zone.
pub const DATE_RANGE_SECS: i64 = 8_000_000_000_000;

/// Reads the system clock with `chrono::Local::now` and hands back the moment
/// as seconds and nanoseconds since the epoch (`DateTime::timestamp`,
/// `DateTime::timestamp_subsec_nanos`). Nothing is claimed of the moment: it
/// is whatever the clock says.
#[verifier::external_body]
pub(crate) fn clock_now() -> (stamp: Timestamp) {
    let now = chrono::Local::now();
    Timestamp { secs: now.timestamp(), nanos: now.timestamp_subsec_nanos() }
}

/// The date on which the moment falls in the machine's time zone, as
/// `DateTime::date_naive` of `Local.timestamp_opt(secs, nanos)` writes it.
/// There is a date unless `timestamp_opt` rejects the nanoseconds: they must
/// stay under a second, or under two in the last second of a minute, which a
/// leap second may follow. Nothing is claimed of the text: it depends on the
/// time zone. The bound on `secs` keeps the moment, and its local date, well
/// inside the calendar, where neither call fails.
#[verifier::external_body]
fn local_date(secs: i64, nanos: u32) -> (date: Option<String>)
    requires
        -DATE_RANGE_SECS <= secs <= DATE_RANGE_SECS,
    ensures
        date.is_some() == (nanos < 1_000_000_000 || (nanos < 2_000_000_000 && (secs as int) % 60
            == 59)),
{
    match chrono::Local.timestamp_opt(secs, nanos).single() {
        Some(moment) => Some(moment.date_naive().to_string()),
        None => None,
    }
}

impl Timestamp {
    /// The moment has a date: it lies in the span for which one can be asked,
    /// and its nanoseconds stay under a second, or under two in the last
    /// second of a minute.
    pub open spec fn has_date(self) -> bool {
        &&& -DATE_RANGE_SECS <= self.secs <= DATE_RANGE_SECS
        &&& self.nanos < 1_000_000_000 || (self.nanos < 2_000_000_000 && (self.secs as int) % 60
            == 59)
    }

    /// The local date of this moment as text, where it has one.
    pub fn date_label(&self) -> (label: Option<String>)
        ensures
            label.is_some() == self.has_date(),
    {
        if -DATE_RANGE_SECS <= self.secs && self.secs <= DATE_RANGE_SECS {
            local_date(self.secs, self.nanos)
        } else {
            None
        }
    }
}

/// Every row of the first class has a date.
pub open spec fn datable(classes: Seq<ClassView>) -> bool {
    forall|n: int|
        0 <= n < classes[0].entries.len() ==> (#[trigger] classes[0].entries[n]).stamp.has_date()
}

impl Data {
    /// The grid a tracker starts with, its one row at the present moment.
    pub fn new() -> (data: Data)
        ensures
            exists|stamp: Timestamp| data@ == initial(stamp),
    {
        let stamp = clock_now();
        let data = Data::starting_at(stamp);
        assert(data@ == initial(stamp));
        data
    }

    /// The local date of every row, read from the first class. There is a
    /// result exactly if every row has a date.
    pub fn row_dates(&self) -> (dates: Option<Vec<String>>)
        requires
            self@.len() > 0,
        ensures
            dates.is_some() == datable(self@),
            dates matches Some(labels) ==> labels@.len() == self@[0].entries.len(),
    {
        let mut labels: Vec<String> = Vec::new();
        let mut n: usize = 0;
        while n < self.classes[0].entries.len()
            invariant
                self.classes@.len() > 0,
                n <= self.classes@[0].entries@.len(),
                labels@.len() == n,
                forall|k: int| 0 <= k < n ==> (#[trigger] self@[0].entries[k]).stamp.has_date(),
            decreases self.classes@[0].entries@.len() - n,
        {
            match self.classes[0].entries[n].stamp.date_label() {
                Some(label) => {
                    labels.push(label);
                },
                None => {
                    assert(!self@[0].entries[n as int].stamp.has_date());
                    return None;
                },
            }
            n += 1;
        }
        Some(labels)
    }
}

} // verus!
