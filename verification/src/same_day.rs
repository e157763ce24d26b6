//! Local calendar days of instants and the instants that bound a day.
use vstd::prelude::*;

use crate::calendar::{
    local_date, local_instant, zone_civil_date, zone_local_instant, CivilDate, Zone,
};
use crate::time::Timestamp;

verus! {

/// The local day of an instant in a zone.
pub fn civil_date(at: Timestamp, zone: &Zone) -> (r: CivilDate)
    requires
        at.has_local_day(),
    ensures
        r == zone_civil_date(zone@, at),
        r.valid(),
{
    local_date(at, zone)
}

/// Both instants fall on the same local day.
pub open spec fn on_same_day(zone: Seq<char>, start: Timestamp, end: Timestamp) -> bool {
    zone_civil_date(zone, start) == zone_civil_date(zone, end)
}

/// Whether both instants fall on the same local day of the zone.
pub fn same_civil_day(start: Timestamp, end: Timestamp, zone: &Zone) -> (r: bool)
    requires
        start.has_local_day(),
        end.has_local_day(),
    ensures
        r == on_same_day(zone@, start, end),
{
    let a = civil_date(start, zone);
    let b = civil_date(end, zone);
    a.year == b.year && a.month == b.month && a.day == b.day
}

/// The instant at which the day begins (00:00:00 local time), when the local
/// clock shows that time exactly once.
pub fn start_of_day(date: CivilDate, zone: &Zone) -> (r: Option<Timestamp>)
    ensures
        r == zone_local_instant(zone@, date, 0, 0, 0),
        r matches Some(t) ==> t.wf(),
{
    local_instant(date, 0, 0, 0, zone)
}

/// The last second of the day (23:59:59 local time), when the local clock shows
/// that time exactly once.
pub fn end_of_day(date: CivilDate, zone: &Zone) -> (r: Option<Timestamp>)
    ensures
        r == zone_local_instant(zone@, date, 23, 59, 59),
        r matches Some(t) ==> t.wf(),
{
    local_instant(date, 23, 59, 59, zone)
}

} // verus!
