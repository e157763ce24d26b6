//! Work still open from an earlier day is closed at that day's end.
use vstd::prelude::*;

use crate::calendar::{zone_civil_date, zone_local_instant, CivilDate, Zone};
use crate::same_day::{civil_date, end_of_day};
use crate::time::Timestamp;

verus! {

/// The local day of `now` comes after the day the work started on.
pub open spec fn past_start_day(zone: Seq<char>, started_on: CivilDate, now: Timestamp) -> bool {
    started_on.earlier_than(zone_civil_date(zone, now))
}

/// Whether work started on `started_on` must be closed because `now` falls on a later day.
pub fn needs_midnight_close(started_on: CivilDate, now: Timestamp, zone: &Zone) -> (r: bool)
    requires
        now.has_local_day(),
    ensures
        r == past_start_day(zone@, started_on, now),
{
    started_on.is_before(&civil_date(now, zone))
}

/// The instant at which work of `started_on` is closed: the last second of that day.
pub fn close_timestamp(started_on: CivilDate, zone: &Zone) -> (r: Option<Timestamp>)
    ensures
        r == zone_local_instant(zone@, started_on, 23, 59, 59),
        r matches Some(t) ==> t.wf(),
{
    end_of_day(started_on, zone)
}

} // verus!
