//! Timestamps, measured in whole milliseconds since the Unix epoch.

use vstd::prelude::*;

verus! {

/// An instant in time, in whole milliseconds since the Unix epoch.
#[derive(Clone, Copy, Debug, PartialEq, Eq, Structural)]
pub struct Timestamp {
    /// Milliseconds since the Unix epoch.
    pub millis: u64,
}

/// An error raised when asking for the time elapsed since a later timestamp.
#[derive(Clone, Copy, Debug, PartialEq, Eq, Structural)]
pub struct TimestampError;

impl Timestamp {
    /// Construct a timestamp from a number of milliseconds since the Unix epoch.
    pub fn from_millis(millis: u64) -> (r: Self)
        ensures
            r.millis == millis,
    {
        Timestamp { millis }
    }

    /// Construct a timestamp for now.
    ///
    /// Relies on std::time::SystemTime::now; a clock before the Unix epoch is
    /// reported as the epoch itself.
    #[verifier::external_body]
    pub fn now() -> Self {
        let millis = match std::time::SystemTime::now().duration_since(std::time::UNIX_EPOCH) {
            Ok(duration) => duration.as_millis(),
            Err(_) => 0,
        };
        Timestamp { millis: if millis > u64::MAX as u128 { u64::MAX } else { millis as u64 } }
    }

    /// The duration, in milliseconds, since another timestamp.
    ///
    /// Fails exactly when the other timestamp is later than this one.
    pub fn duration_since(self, other: Self) -> (r: Result<u64, TimestampError>)
        ensures
            other.millis <= self.millis ==> r == Result::<u64, TimestampError>::Ok(
                (self.millis - other.millis) as u64,
            ),
            other.millis > self.millis ==> r == Result::<u64, TimestampError>::Err(
                TimestampError,
            ),
    {
        if other.millis <= self.millis {
            Ok(self.millis - other.millis)
        } else {
            Err(TimestampError)
        }
    }
}

} // verus!
