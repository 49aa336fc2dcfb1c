//! Points in time. The service sends a timestamp as seconds and nanoseconds
//! since the Unix epoch; the caches keep it as a `SystemTime`.

use std::time::SystemTime;
use vstd::prelude::*;

verus! {

/// `std::time::SystemTime`, made known as a type; a value of it is carried
/// along and never looked into.
#[verifier::external_type_specification]
#[verifier::external_body]
pub struct ExSystemTime(SystemTime);

/// `SystemTime` is `Copy`: its clone is the same point in time.
pub assume_specification[ <SystemTime as Clone>::clone ](time: &SystemTime) -> (copy: SystemTime)
    ensures
        copy == *time,
;

/// A timestamp as the service sends it.
#[derive(Clone, Copy, Debug, PartialEq, Eq, Structural)]
pub struct WireTimestamp {
    pub seconds: i64,
    pub nanos: i32,
}

/// The conversion that `prost_types` gives from its `Timestamp` to
/// `SystemTime`. Which timestamps the clock of the machine can hold differs
/// from one platform to the next, so nothing is claimed of the outcome.
#[verifier::external_body]
pub(crate) fn system_time_of(stamp: WireTimestamp) -> (time: Option<SystemTime>) {
    let wire = prost_types::Timestamp { seconds: stamp.seconds, nanos: stamp.nanos };
    match SystemTime::try_from(wire) {
        Ok(time) => Some(time),
        Err(_) => None,
    }
}

} // verus!
