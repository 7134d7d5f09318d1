use vstd::prelude::*;

verus! {

/// Earliest instant, in seconds since the Unix epoch, that the calendar
/// backend can represent (well inside chrono's year range).
pub const MIN_TIMESTAMP: i64 = -8_000_000_000_000;

/// Latest instant, in seconds since the Unix epoch, that the calendar
/// backend can represent (well inside chrono's year range).
pub const MAX_TIMESTAMP: i64 = 8_000_000_000_000;

/// Anchor used when the system clock cannot be read:
/// 2020-04-28 22:51:28 UTC.
pub const FALLBACK_NOW: i64 = 1_588_114_288;

/// Two weeks, in seconds.
pub const TWO_WEEKS: i64 = 1_209_600;

/// One day, in seconds.
pub const ONE_DAY: i64 = 86_400;

/// `secs` can be shown as a calendar date and time.
pub open spec fn representable(secs: int) -> bool {
    MIN_TIMESTAMP <= secs <= MAX_TIMESTAMP
}

/// The window of time searched for work, `from` up to `to`, both ends in
/// whole seconds since the Unix epoch (UTC). An instant lies in the window
/// when it is strictly between the two ends.
#[derive(Clone, Copy, Debug, PartialEq, Eq)]
pub struct SearchInterval {
    pub from: i64,
    pub to: i64,
}

/// The clock reading `clock` as an instant, or `FALLBACK_NOW` when the
/// clock could not be read or lies beyond the representable range.
pub fn clock_or_fallback(clock: Option<u64>) -> (r: i64)
    ensures
        representable(r as int),
        r >= 0,
        r == match clock {
            Some(secs) => if secs <= MAX_TIMESTAMP { secs as int } else { FALLBACK_NOW as int },
            None => FALLBACK_NOW as int,
        },
{
    match clock {
        Some(secs) => if secs <= MAX_TIMESTAMP as u64 {
            secs as i64
        } else {
            FALLBACK_NOW
        },
        None => FALLBACK_NOW,
    }
}

/// The current instant, or `FALLBACK_NOW` when the system clock cannot be
/// read.
pub fn today() -> (r: i64)
    ensures
        representable(r as int),
        r >= 0,
{
    clock_or_fallback(seconds_since_epoch())
}

impl SearchInterval {
    /// Both ends can be shown as calendar dates and the window is not empty.
    pub open spec fn wf(&self) -> bool {
        &&& representable(self.from as int)
        &&& representable(self.to as int)
        &&& self.from < self.to
    }

    /// Strictly between the two ends: the comparison used for commits and
    /// branch tips alike.
    pub open spec fn contains_spec(&self, secs: int) -> bool {
        self.from < secs < self.to
    }

    /// The window of length `duration` seconds that ends at `at`; it is
    /// well formed when `duration` is positive.
    pub fn starting(at: i64, duration: i64) -> (r: SearchInterval)
        requires
            representable(at as int),
            representable(at - duration),
        ensures
            r.to == at,
            r.to - r.from == duration,
            duration > 0 ==> r.wf(),
    {
        SearchInterval { from: at - duration, to: at }
    }

    /// The window of length `duration` that ends at the clock reading
    /// `clock` (seconds since the epoch), or at `FALLBACK_NOW` when the clock
    /// could not be read or lies beyond the representable range.
    pub fn from_clock(clock: Option<u64>, duration: i64) -> (r: SearchInterval)
        requires
            0 < duration <= MAX_TIMESTAMP,
        ensures
            r.wf(),
            r.to - r.from == duration,
            r.to == match clock {
                Some(secs) => if secs <= MAX_TIMESTAMP { secs as int } else { FALLBACK_NOW as int },
                None => FALLBACK_NOW as int,
            },
    {
        SearchInterval::starting(clock_or_fallback(clock), duration)
    }

    /// The window of length `duration` that ends now.
    pub fn start_now(duration: i64) -> (r: SearchInterval)
        requires
            0 < duration <= MAX_TIMESTAMP,
        ensures
            r.wf(),
            r.to - r.from == duration,
    {
        SearchInterval::from_clock(seconds_since_epoch(), duration)
    }

    /// The two ends as the integer timestamps that commit times are
    /// compared with.
    pub fn get_git_time(&self) -> (r: (i64, i64))
        ensures
            r.0 == self.from,
            r.1 == self.to,
    {
        (self.from, self.to)
    }

    pub fn contains(&self, secs: i64) -> (r: bool)
        ensures
            r == self.contains_spec(secs as int),
    {
        self.from < secs && secs < self.to
    }
}

/// The calendar date and time of `secs` seconds after the epoch, in UTC, as
/// chrono writes a `NaiveDateTime` (`2020-05-24 22:51:28`).
pub uninterp spec fn datetime_text(secs: int) -> Seq<char>;

/// Relies on `chrono::DateTime::from_timestamp` (which gives `Some` for every
/// whole second in the representable range) and the `Display` of
/// `chrono::NaiveDateTime`.
#[verifier::external_body]
pub(crate) fn format_datetime(secs: i64) -> (r: String)
    requires
        representable(secs as int),
    ensures
        r@ == datetime_text(secs as int),
{
    chrono::DateTime::from_timestamp(secs, 0).map(|d| d.naive_utc().to_string()).unwrap_or_default()
}

#[verifier::external_type_specification]
#[verifier::external_body]
pub struct ExSystemTime(std::time::SystemTime);

/// Relies on `SystemTime::now`: the system clock's reading. Nothing is known
/// of it.
#[verifier::external_body]
fn system_now() -> (r: std::time::SystemTime) {
    std::time::SystemTime::now()
}

/// Relies on `SystemTime::duration_since(UNIX_EPOCH)`: whole seconds from
/// the epoch to `t`, or `None` when `t` is before the epoch.
#[verifier::external_body]
fn seconds_after_epoch(t: &std::time::SystemTime) -> (r: Option<u64>) {
    t.duration_since(std::time::UNIX_EPOCH).ok().map(|d| d.as_secs())
}

/// The system clock in whole seconds since the epoch, `None` where it is
/// set before the epoch.
fn seconds_since_epoch() -> (r: Option<u64>) {
    seconds_after_epoch(&system_now())
}

} // verus!
