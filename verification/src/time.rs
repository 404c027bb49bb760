use vstd::prelude::*;
use vstd::arithmetic::div_mod::lemma_fundamental_div_mod_converse;

verus! {

/// A point in UTC time: whole seconds since the Unix epoch and the nanoseconds within
/// that second.
#[derive(Clone, Copy, Debug, PartialEq, Eq)]
pub struct UtcTime {
    pub secs: i64,
    pub nanos: u32,
}

impl UtcTime {
    /// The instant as a count of nanoseconds since the epoch.
    pub open spec fn total_nanos(self) -> int {
        self.secs * 1_000_000_000 + self.nanos
    }

    /// The calendar order of two instants (seconds first, then nanoseconds).
    pub open spec fn before(self, other: UtcTime) -> bool {
        self.secs < other.secs || (self.secs == other.secs && self.nanos < other.nanos)
    }

    pub fn is_before(&self, other: &UtcTime) -> (r: bool)
        ensures r == self.before(*other),
    {
        self.secs < other.secs || (self.secs == other.secs && self.nanos < other.nanos)
    }
}

/// The current UTC time, from `chrono::Utc::now()`.
///
/// Trusted: chrono builds `now` from the system clock's duration since the epoch, whose
/// sub-second part is below one second, so the nanosecond field is below 1_000_000_000;
/// every `DateTime<Utc>` lies in chrono's representable range, so its second does too; and
/// `Utc::now` measures the time since the epoch (a clock before it panics), so it is not
/// negative.
/// Nothing else is claimed: the value depends on the clock. `Utc::now` panics when the
/// system clock reads before 1970, a fault of the machine that no precondition can rule out.
#[verifier::external_body]
pub(crate) fn current_time() -> (t: UtcTime)
    ensures
        t.nanos < 1_000_000_000,
        MIN_UTC_SECS <= t.secs <= MAX_UTC_SECS,
        t.secs >= 0,
{
    let now = chrono::Utc::now();
    UtcTime { secs: now.timestamp(), nanos: now.timestamp_subsec_nanos() }
}

/// The first second (since the epoch) of the range that chrono's `DateTime<Utc>` covers:
/// 1 January of the year -262143.
pub const MIN_UTC_SECS: i64 = -8334601315200;

/// The last second (since the epoch) of the range that chrono's `DateTime<Utc>` covers:
/// 31 December 23:59:59 of the year 262142.
pub const MAX_UTC_SECS: i64 = 8210266876799;

/// A whole second that lies in the representable range.
pub open spec fn in_utc_range(secs: int) -> bool {
    MIN_UTC_SECS <= secs <= MAX_UTC_SECS
}

/// The instant `secs` seconds after the epoch when that second is representable, and `now`
/// otherwise (a block time converted with a fallback to the current time).
pub open spec fn time_from_secs_or(secs: i64, now: UtcTime) -> UtcTime {
    if in_utc_range(secs as int) {
        UtcTime { secs, nanos: 0 }
    } else {
        now
    }
}

/// The instant `secs` seconds after the epoch when that second is representable, and `now`
/// otherwise.
pub fn from_secs_or(secs: i64, now: UtcTime) -> (t: UtcTime)
    ensures
        t == time_from_secs_or(secs, now),
{
    if MIN_UTC_SECS <= secs && secs <= MAX_UTC_SECS {
        UtcTime { secs, nanos: 0 }
    } else {
        now
    }
}

/// Division that rounds toward zero.
pub open spec fn trunc_div(a: int, d: int) -> int {
    if a >= 0 {
        a / d
    } else {
        -((-a) / d)
    }
}

/// `x`, held to the range of `i64`.
pub open spec fn clamp_i64(x: int) -> i64 {
    if x > i64::MAX {
        i64::MAX
    } else if x < i64::MIN {
        i64::MIN
    } else {
        x as i64
    }
}

/// The whole milliseconds from `earlier` to `later` (negative when `later` comes first),
/// rounded toward zero. For instants in the representable range the count always fits in
/// an `i64`, so the clamp never takes effect there.
pub open spec fn millis_between(later: UtcTime, earlier: UtcTime) -> i64 {
    clamp_i64(trunc_div(later.total_nanos() - earlier.total_nanos(), 1_000_000))
}

/// The whole milliseconds from `earlier` to `later`, rounded toward zero.
pub fn millis_since(later: UtcTime, earlier: UtcTime) -> (r: i64)
    ensures
        r == millis_between(later, earlier),
{
    let d: i128 = (later.secs as i128 - earlier.secs as i128) * 1_000_000_000 + (
    later.nanos as i128 - earlier.nanos as i128);
    assert(d == later.total_nanos() - earlier.total_nanos());
    let q: i128 = if d >= 0 {
        ((d as u128) / 1_000_000) as i128
    } else {
        -((((-d) as u128) / 1_000_000) as i128)
    };
    assert(q == trunc_div(d as int, 1_000_000));
    if q > i64::MAX as i128 {
        i64::MAX
    } else if q < i64::MIN as i128 {
        i64::MIN
    } else {
        q as i64
    }
}

/// The instant `ms` milliseconds after `t`, in normal form, when its second is representable.
pub open spec fn shifted_time(t: UtcTime, ms: int) -> Option<UtcTime> {
    let total = t.total_nanos() + ms * 1_000_000;
    let secs = total / 1_000_000_000;
    if in_utc_range(secs) {
        Some(UtcTime { secs: secs as i64, nanos: (total % 1_000_000_000) as u32 })
    } else {
        None
    }
}

/// The instant `ms` milliseconds after `t`, when its second is representable.
pub fn add_millis(t: UtcTime, ms: u64) -> (r: Option<UtcTime>)
    requires
        ms <= i64::MAX,
    ensures
        r == shifted_time(t, ms as int),
{
    let total: i128 = t.secs as i128 * 1_000_000_000 + t.nanos as i128 + ms as i128 * 1_000_000;
    assert(total == t.total_nanos() + ms * 1_000_000);
    let q: i128;
    let rem: i128;
    if total >= 0 {
        let p = total as u128;
        q = (p / 1_000_000_000) as i128;
        rem = (p % 1_000_000_000) as i128;
        proof {
            lemma_fundamental_div_mod_converse(total as int, 1_000_000_000, q as int, rem as int);
        }
    } else {
        let p = (-total) as u128;
        let q0 = (p / 1_000_000_000) as i128;
        let r0 = (p % 1_000_000_000) as i128;
        if r0 == 0 {
            q = -q0;
            rem = 0;
        } else {
            q = -q0 - 1;
            rem = 1_000_000_000 - r0;
        }
        proof {
            assert(p == q0 * 1_000_000_000 + r0);
            assert(total == q * 1_000_000_000 + rem);
            lemma_fundamental_div_mod_converse(total as int, 1_000_000_000, q as int, rem as int);
        }
    }
    if MIN_UTC_SECS as i128 <= q && q <= MAX_UTC_SECS as i128 {
        Some(UtcTime { secs: q as i64, nanos: rem as u32 })
    } else {
        None
    }
}

} // verus!
