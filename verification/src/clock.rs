//! Points in time: the age of a timestamp, read by the `chrono` crate.

use vstd::prelude::*;

verus! {

/// The current time: seconds and nanoseconds since the Unix epoch, and the nanoseconds that a
/// monotonic clock shows.
#[derive(Clone, Copy, PartialEq, Eq, Debug, Structural)]
pub struct Now {
    pub unix_secs: i64,
    pub unix_nanos: u32,
    pub monotonic: u64,
}

/// The age of an RFC 3339 timestamp at a time: what `signed_duration_since` returns for the
/// time and the parsed timestamp, as its whole seconds and the nanoseconds beside them. Nothing
/// where the text is no timestamp or the time is outside the range of `chrono`.
pub uninterp spec fn timestamp_age(timestamp: Seq<char>, unix_secs: i64, unix_nanos: u32) -> Option<
    (i64, i32),
>;

/// Calls `chrono::DateTime::parse_from_rfc3339` and `signed_duration_since`, whose results
/// depend on the text and the given time alone.
#[verifier::external_body]
pub(crate) fn read_age(timestamp: &str, unix_secs: i64, unix_nanos: u32) -> (r: Option<(i64, i32)>)
    ensures
        r == timestamp_age(timestamp@, unix_secs, unix_nanos),
{
    let then = chrono::DateTime::parse_from_rfc3339(timestamp).ok()?;
    let now = chrono::DateTime::from_timestamp(unix_secs, unix_nanos)?;
    let age = now.signed_duration_since(then);
    Some((age.num_seconds(), age.subsec_nanos()))
}

/// The age is more than this many seconds.
pub open spec fn older_than(age: (i64, i32), secs: int) -> bool {
    age.0 > secs || (age.0 == secs && age.1 > 0)
}

/// The timestamp can be read and is at most this many seconds old.
pub open spec fn is_fresh(timestamp: Seq<char>, now: Now, secs: int) -> bool {
    match timestamp_age(timestamp, now.unix_secs, now.unix_nanos) {
        Some(age) => !older_than(age, secs),
        None => false,
    }
}

/// Whether an age, where there is one, is at most this many seconds.
pub fn within(age: Option<(i64, i32)>, secs: i64) -> (r: bool)
    ensures
        r == (age is Some && !older_than(age->0, secs as int)),
{
    match age {
        Some((s, n)) => !(s > secs || (s == secs && n > 0)),
        None => false,
    }
}

/// An age is too much exactly if its nanoseconds, all told, are more than those of the seconds:
/// one of that many seconds sharp is not.
pub proof fn law_age_is_compared_to_the_nanosecond(age: (i64, i32), secs: int)
    requires
        -1_000_000_000 < age.1 < 1_000_000_000,
    ensures
        older_than(age, secs) <==> age.0 * 1_000_000_000 + age.1 > secs * 1_000_000_000,
{
}

/// A timestamp that cannot be read is never fresh; one that can is fresh until it is older than the
/// seconds, and whatever is fresh for fewer seconds is fresh for more.
pub proof fn law_freshness(timestamp: Seq<char>, now: Now, secs: int, more: int)
    requires
        secs <= more,
    ensures
        timestamp_age(timestamp, now.unix_secs, now.unix_nanos) is None ==> !is_fresh(
            timestamp,
            now,
            secs,
        ),
        timestamp_age(timestamp, now.unix_secs, now.unix_nanos) matches Some(age) ==> is_fresh(
            timestamp,
            now,
            secs,
        ) == !(age.0 > secs || age.0 == secs && age.1 > 0),
        is_fresh(timestamp, now, secs) ==> is_fresh(timestamp, now, more),
{
}

} // verus!
