//! Fresh identifiers and the current time, which records of the service carry.

use vstd::prelude::*;

verus! {

/// A point in time: whole seconds since 1970-01-01 00:00:00 UTC and the
/// nanoseconds past that second.
#[derive(Clone, Copy, Debug, PartialEq, Eq, Structural)]
pub struct Timestamp {
    pub secs: i64,
    pub nanos: u32,
}

/// Whether `c` is one of `0`-`9`, `a`-`f`.
pub open spec fn is_lower_hex(c: char) -> bool {
    ('0' <= c <= '9') || ('a' <= c <= 'f')
}

/// Whether `s` has the form of a random (version 4) UUID in lower-case
/// hyphenated text: `xxxxxxxx-xxxx-4xxx-yxxx-xxxxxxxxxxxx` with `y` one of
/// `8`, `9`, `a`, `b`.
pub open spec fn is_uuid_v4_text(s: Seq<char>) -> bool {
    &&& s.len() == 36
    &&& forall|i: int|
        0 <= i < 36 ==> (if i == 8 || i == 13 || i == 18 || i == 23 {
            #[trigger] s[i] == '-'
        } else {
            is_lower_hex(s[i])
        })
    &&& s[14] == '4'
    &&& (s[19] == '8' || s[19] == '9' || s[19] == 'a' || s[19] == 'b')
}

/// A new random identifier: `uuid::Uuid::new_v4()` rendered by `to_string`.
/// The crate sets the version nibble to 4 and the variant bits to `10`, and
/// its `Display` writes the lower-case hyphenated form; the other 122 bits
/// come from the operating system's random source, so nothing more is
/// claimed of them. (The call panics if that source fails.)
#[verifier::external_body]
pub(crate) fn new_id() -> (r: String)
    ensures
        is_uuid_v4_text(r@),
{
    uuid::Uuid::new_v4().to_string()
}

/// The current time: `chrono::Utc::now()`, taken apart into its Unix
/// timestamp and the nanoseconds past it. chrono builds it from the system
/// clock's duration since the epoch, so the seconds are not negative and the
/// nanoseconds stay below one second; which instant it is, is not claimed.
/// (chrono panics if the clock is set before 1970.)
#[verifier::external_body]
pub(crate) fn now() -> (r: Timestamp)
    ensures
        r.secs >= 0,
        r.nanos < 1_000_000_000,
{
    let t = chrono::Utc::now();
    Timestamp { secs: t.timestamp(), nanos: t.timestamp_subsec_nanos() }
}


/// Whether `t` is a time that the system clock gave: a result that a call of
/// [`now`] can return.
pub closed spec fn is_clock_reading(t: Timestamp) -> bool {
    call_ensures(now, (), t)
}

/// A time that the system clock gives is a valid instant: not before 1970,
/// with less than a second of nanoseconds.
pub proof fn law_clock_readings_are_valid(t: Timestamp)
    requires
        is_clock_reading(t),
    ensures
        t.secs >= 0,
        t.nanos < 1_000_000_000,
{
}

/// Reads the system clock.
pub(crate) fn current_time() -> (r: Timestamp)
    ensures
        is_clock_reading(r),
        r.secs >= 0,
        r.nanos < 1_000_000_000,
{
    now()
}

} // verus!
