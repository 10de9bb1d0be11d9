use vstd::prelude::*;

verus! {

/// Source of the current time, as whole seconds since the Unix epoch.
pub struct DateTime {}

impl DateTime {
    /// Relies on time::OffsetDateTime::now_utc and time::OffsetDateTime::unix_timestamp:
    /// reads the system clock and converts it to whole seconds since the Unix epoch.
    /// Nothing is promised of the returned value: it depends on the machine's clock.
    #[verifier::external_body]
    pub fn now() -> i64 {
        time::OffsetDateTime::now_utc().unix_timestamp()
    }
}

} // verus!
