//! Instants with a UTC offset, and their calendar days, computed with `time`.

use crate::keyed::Duplicate;
use vstd::prelude::*;

verus! {

/// Smallest local second that `time` represents (-9999-01-01T00:00:00).
pub const MIN_LOCAL_SECONDS: i64 = -377705116800i64;

/// Largest local second that `time` represents (9999-12-31T23:59:59).
pub const MAX_LOCAL_SECONDS: i64 = 253402300799i64;

/// Largest offset magnitude that `time` represents (25:59:59).
pub const MAX_OFFSET_SECONDS: i32 = 93599i32;

/// Julian day number of 1970-01-01.
pub const UNIX_EPOCH_JULIAN_DAY: i32 = 2440588i32;

/// Whole seconds of an instant, rounded towards negative infinity.
pub open spec fn unix_seconds_of(nanos: int) -> int {
    nanos / 1_000_000_000
}

/// Local wall-clock seconds of an instant at an offset.
pub open spec fn local_seconds_of(nanos: int, offset: int) -> int {
    unix_seconds_of(nanos) + offset
}

/// An instant (nanoseconds since the Unix epoch) seen at a UTC offset, as
/// `time::OffsetDateTime` holds it.
#[derive(Clone, Copy, Debug)]
pub struct Timestamp {
    unix_nanos: i128,
    offset_seconds: i32,
}

impl Duplicate for Timestamp {
    fn duplicate(&self) -> (r: Self) {
        *self
    }
}

impl Timestamp {
    /// Nanoseconds since the Unix epoch.
    pub closed spec fn nanos(self) -> int {
        self.unix_nanos as int
    }

    /// UTC offset in seconds.
    pub closed spec fn offset(self) -> int {
        self.offset_seconds as int
    }

    /// The local date lies in the range that `time` represents.
    #[verifier::type_invariant]
    pub open spec fn well_formed(self) -> bool {
        &&& -MAX_OFFSET_SECONDS <= self.offset() <= MAX_OFFSET_SECONDS
        &&& MIN_LOCAL_SECONDS <= local_seconds_of(self.nanos(), self.offset()) <= MAX_LOCAL_SECONDS
    }

    /// Local wall-clock seconds.
    pub open spec fn local_seconds(self) -> int {
        local_seconds_of(self.nanos(), self.offset())
    }

    /// The timestamp with these nanoseconds and offset.
    pub closed spec fn of(nanos: int, offset: int) -> Timestamp {
        Timestamp { unix_nanos: nanos as i128, offset_seconds: offset as i32 }
    }

    /// Nanoseconds and offset lie in the range that `time` represents.
    pub open spec fn representable(nanos: int, offset: int) -> bool {
        &&& -MAX_OFFSET_SECONDS <= offset <= MAX_OFFSET_SECONDS
        &&& MIN_LOCAL_SECONDS <= local_seconds_of(nanos, offset) <= MAX_LOCAL_SECONDS
    }

    /// Instant from nanoseconds and an offset, if `time` can represent it.
    pub fn new(unix_nanos: i128, offset_seconds: i32) -> (r: Option<Timestamp>)
        ensures
            r is Some <==> (-MAX_OFFSET_SECONDS <= offset_seconds <= MAX_OFFSET_SECONDS
                && MIN_LOCAL_SECONDS <= local_seconds_of(unix_nanos as int, offset_seconds as int)
                <= MAX_LOCAL_SECONDS),
            r matches Some(t) ==> t.nanos() == unix_nanos && t.offset() == offset_seconds && t
                == Timestamp::of(unix_nanos as int, offset_seconds as int),
    {
        if offset_seconds < -MAX_OFFSET_SECONDS || offset_seconds > MAX_OFFSET_SECONDS {
            return None;
        }
        let floor_secs = floor_seconds(unix_nanos);
        if floor_secs < MIN_LOCAL_SECONDS as i128 - offset_seconds as i128 || floor_secs
            > MAX_LOCAL_SECONDS as i128 - offset_seconds as i128 {
            return None;
        }
        Some(Timestamp { unix_nanos, offset_seconds })
    }

    /// The Unix epoch, in UTC.
    pub fn unix_epoch() -> (r: Timestamp)
        ensures
            r.nanos() == 0,
            r.offset() == 0,
    {
        Timestamp { unix_nanos: 0, offset_seconds: 0 }
    }

    /// Nanoseconds since the Unix epoch.
    pub fn unix_nanos(&self) -> (r: i128)
        ensures
            r == self.nanos(),
    {
        self.unix_nanos
    }

    /// UTC offset in seconds.
    pub fn offset_seconds(&self) -> (r: i32)
        ensures
            r == self.offset(),
    {
        self.offset_seconds
    }

    /// Local wall-clock seconds.
    pub fn local_unix_seconds(&self) -> (r: i64)
        ensures
            r == self.local_seconds(),
    {
        proof {
            use_type_invariant(self);
        }
        let floor_secs = floor_seconds(self.unix_nanos);
        (floor_secs + self.offset_seconds as i128) as i64
    }

    /// Julian day number of the local calendar date (what `OffsetDateTime::date` gives).
    pub fn calendar_day(&self) -> (r: i32)
        ensures
            r == self.local_seconds() / 86400 + UNIX_EPOCH_JULIAN_DAY,
    {
        proof {
            use_type_invariant(self);
        }
        julian_day_of_seconds(self.local_unix_seconds() as i128)
    }

    /// Julian day number of the UTC calendar date (the date of the instant moved to UTC).
    pub fn utc_day(&self) -> (r: i32)
        ensures
            r == unix_seconds_of(self.nanos()) / 86400 + UNIX_EPOCH_JULIAN_DAY,
    {
        proof {
            use_type_invariant(self);
        }
        julian_day_of_seconds(floor_seconds(self.unix_nanos))
    }
}

/// Julian day of the date at `seconds` after 1970-01-01T00:00:00: the Julian day of
/// 1970-01-01 is 2440588 and each day has 86400 seconds.
fn julian_day_of_seconds(seconds: i128) -> (r: i32)
    requires
        MIN_LOCAL_SECONDS - MAX_OFFSET_SECONDS <= seconds <= MAX_LOCAL_SECONDS + MAX_OFFSET_SECONDS,
    ensures
        r == seconds / 86400 + UNIX_EPOCH_JULIAN_DAY,
{
    let days: i128 = if seconds >= 0 {
        seconds / 86400i128
    } else {
        let p: i128 = -(seconds + 1);
        let q: i128 = p / 86400i128;
        assert(-q - 1 == seconds / 86400) by (nonlinear_arith)
            requires
                p == -(seconds + 1),
                p >= 0,
                q == p / 86400,
        {
        }
        -q - 1
    };
    assert(-5000000 < days < 5000000) by (nonlinear_arith)
        requires
            days == seconds / 86400,
            -377705210399 <= seconds <= 253402394398,
    {
    }
    (days + 2440588i128) as i32
}

/// Whole seconds of `nanos`, rounded towards negative infinity.
fn floor_seconds(nanos: i128) -> (r: i128)
    ensures
        r == unix_seconds_of(nanos as int),
{
    if nanos >= 0 {
        nanos / 1_000_000_000i128
    } else {
        let p: i128 = -(nanos + 1);
        let q: i128 = p / 1_000_000_000i128;
        assert(-q - 1 == unix_seconds_of(nanos as int)) by (nonlinear_arith)
            requires
                p == -(nanos + 1),
                p >= 0,
                q == p / 1_000_000_000,
        {
        }
        -q - 1
    }
}

/// The current time, through `OffsetDateTime::now_utc`.
/// Trusted: the instant is taken in UTC (offset 0); nothing is stated of the instant itself,
/// which the clock decides.
#[verifier::external_body]
pub(crate) fn now_utc() -> (r: Timestamp)
    ensures
        r.offset() == 0,
{
    let t = time::OffsetDateTime::now_utc();
    Timestamp { unix_nanos: t.unix_timestamp_nanos(), offset_seconds: 0 }
}

} // verus!
