//! The oracle boundary: price announcements and their hourly schedule.

use vstd::prelude::*;

use crate::model::{BitMexPriceEventId, Timestamp};

verus! {

/// A price announcement the oracle will attest to.
#[derive(Clone, Copy, PartialEq, Eq, Structural, Debug)]
pub struct Announcement {
    pub id: BitMexPriceEventId,
    /// When the attested outcome is expected, seconds since the epoch.
    pub expected_outcome_time: Timestamp,
}

/// The oracle announces one price event per full hour: the next
/// announcement after `timestamp` is the first full hour strictly after
/// it. `None` only when that hour would not fit the clock's range.
pub fn next_announcement_after(timestamp: Timestamp) -> (r: Option<BitMexPriceEventId>)
    ensures
        timestamp.0 + 3600 <= u64::MAX ==> r == Some(
            BitMexPriceEventId(((timestamp.0 / 3600 + 1) * 3600) as u64),
        ),
        timestamp.0 + 3600 > u64::MAX ==> r is None,
{
    if timestamp.0 > u64::MAX - 3600 {
        return None;
    }
    let hour = timestamp.0 / 3600;
    proof {
        assert(hour * 3600 <= timestamp.0) by (nonlinear_arith)
            requires
                hour == timestamp.0 / 3600,
                timestamp.0 >= 0,
        ;
    }
    Some(BitMexPriceEventId((hour + 1) * 3600))
}

} // verus!
