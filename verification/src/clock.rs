//! The local wall-clock reading of a capture timestamp.

use chrono::{Local, TimeZone};
use vstd::prelude::*;

verus! {

/// A moment as the local time zone shows it, already written out: the time
/// of day as `HH:MM:SS`, and the full date and time with its offset.
#[derive(Debug)]
pub struct LocalTime {
    pub clock: String,
    pub stamp: String,
}

/// Whether a sub-second part can stand beside `secs`: it stays under one
/// second, or under two where `secs` is the last second of a minute, which
/// is how a leap second is written.
pub open spec fn spec_valid_subsec(secs: u32, nanos: u32) -> bool {
    nanos < 1_000_000_000 || (nanos < 2_000_000_000 && secs % 60 == 59)
}

/// chrono's `Local.timestamp_opt(secs, nanos).earliest()`, written out with
/// `format("%H:%M:%S")` and with `Debug`.
///
/// The conversion gives no moment exactly when the sub-second part is not
/// valid beside `secs`. What the two texts hold depends on the time zone of
/// the machine, so nothing is claimed of them.
#[verifier::external_body]
pub(crate) fn local_time(secs: u32, nanos: u32) -> (r: Option<LocalTime>)
    ensures
        r is Some <==> spec_valid_subsec(secs, nanos),
{
    let t = Local.timestamp_opt(secs as i64, nanos).earliest()?;
    Some(LocalTime { clock: t.format("%H:%M:%S").to_string(), stamp: format!("{:?}", t) })
}

} // verus!
