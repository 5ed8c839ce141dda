//! The wall clock, and how long a player may stay away from a game.
use std::time::{Duration, SystemTimeError, UNIX_EPOCH};
use vstd::prelude::*;

use crate::text;

verus! {

/// Seconds that a player may stay away where nothing else is set.
pub const DEFAULT_GRACE: u64 = 60;

/// `std::time::SystemTimeError`, which says that a clock stands before another; not read.
#[verifier::external_type_specification]
#[verifier::external_body]
pub struct ExSystemTimeError(SystemTimeError);

/// The whole seconds of a duration, as `Duration::as_secs` counts them.
pub uninterp spec fn whole_secs(elapsed: Duration) -> u64;

/// `Duration::as_secs`: the whole seconds of the duration, which depend on it alone.
pub assume_specification[ Duration::as_secs ](elapsed: &Duration) -> (secs: u64)
    ensures
        secs == whole_secs(*elapsed),
;

/// `SystemTime::elapsed` on `UNIX_EPOCH`: the time from the epoch to what the system clock
/// shows now, or an error where the clock stands before the epoch. Nothing is claimed of
/// what the clock shows.
#[verifier::external_body]
fn since_epoch() -> (elapsed: Result<Duration, SystemTimeError>) {
    UNIX_EPOCH.elapsed()
}

/// A count of seconds as a signed number, counting on from the least one past the greatest.
pub open spec fn signed_secs(secs: u64) -> int {
    if secs <= i64::MAX {
        secs as int
    } else {
        secs - 0x1_0000_0000_0000_0000
    }
}

/// A count of seconds as a signed number, counting on from the least one past the greatest.
pub fn as_signed(secs: u64) -> (signed: i64)
    ensures
        signed == signed_secs(secs),
{
    proof {
        assert(secs > 0x7fff_ffff_ffff_ffffu64 ==> secs as i64 == secs - 0x1_0000_0000_0000_0000)
            by (bit_vector);
    }
    secs as i64
}

/// The time stamp of a moment that lies the given time after the epoch.
pub fn unix_stamp(elapsed: Duration) -> (stamp: i64)
    ensures
        stamp == signed_secs(whole_secs(elapsed)),
{
    as_signed(elapsed.as_secs())
}

/// Whether a time stamp is the one of a reading of the clock: that of the moment shown, and
/// none exactly where the clock stands before the epoch.
pub open spec fn stamps(reading: Result<Duration, SystemTimeError>, stamp: Option<i64>) -> bool {
    match reading {
        Ok(elapsed) => stamp is Some && stamp->0 == signed_secs(whole_secs(elapsed)),
        Err(_) => stamp is None,
    }
}

/// The time stamp of a reading of the clock.
pub fn reading_stamp(reading: Result<Duration, SystemTimeError>) -> (stamp: Option<i64>)
    ensures
        stamps(reading, stamp),
{
    match reading {
        Ok(elapsed) => Some(unix_stamp(elapsed)),
        Err(_) => None,
    }
}

/// What the clock shows, in seconds since the epoch; nothing where it stands before the epoch.
pub fn now_unix() -> (stamp: Option<i64>)
    ensures
        exists|reading: Result<Duration, SystemTimeError>| #[trigger] stamps(reading, stamp),
{
    reading_stamp(since_epoch())
}

/// The seconds that a setting grants: a decimal number, after which any letters `s` may
/// stand, else the default.
pub open spec fn grace_secs(setting: Option<Seq<char>>) -> u64 {
    match setting {
        Some(s) => match text::parsed(text::trimmed_end(s, 's')) {
            Some(secs) => secs,
            None => DEFAULT_GRACE,
        },
        None => DEFAULT_GRACE,
    }
}

/// The seconds that a player may stay away, from the setting for it.
pub fn grace_period(setting: Option<&str>) -> (secs: u64)
    ensures
        secs == grace_secs(text::opt_text(setting)),
{
    match setting {
        Some(s) => match text::parse_trimmed(s, 's') {
            Some(secs) => secs,
            None => DEFAULT_GRACE,
        },
        None => DEFAULT_GRACE,
    }
}

/// Whether the moment `secs` after `now` has a time stamp.
pub open spec fn has_deadline(now: i64, secs: u64) -> bool {
    i64::MIN <= now + signed_secs(secs) <= i64::MAX
}

/// The time stamp `secs` after `now`, where there is one.
pub fn deadline(now: i64, secs: u64) -> (until: Option<i64>)
    ensures
        match until {
            Some(u) => has_deadline(now, secs) && u == now + signed_secs(secs),
            None => !has_deadline(now, secs),
        },
{
    now.checked_add(as_signed(secs))
}

/// A setting means the same with and without a letter `s` at its end.
pub proof fn law_seconds_suffix(s: Seq<char>)
    ensures
        grace_secs(Some(s.push('s'))) == grace_secs(Some(s)),
{
    assert(s.push('s').drop_last() =~= s);
}

/// A setting that is a number in decimal grants that number of seconds.
pub proof fn law_decimal_setting(n: u64)
    ensures
        grace_secs(Some(text::decimal(n as nat))) == n,
{
    let s = text::decimal(n as nat);
    text::lemma_decimal(n as nat);
}

}
