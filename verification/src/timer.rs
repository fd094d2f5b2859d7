//! The timers of cron triggers: the time zone a schedule is read in, and
//! each round of a timer, from the current time to its decision.

use vstd::prelude::*;
use crate::schedule::{cron_wait, cron_wait_spec, CronWait};

verus! {

/// The first time after `now` (seconds since the epoch) at which the cron
/// expression `expression` fires when read in the time zone named
/// `timezone`; nothing when the expression or the zone name does not parse,
/// or when the expression never fires again.
pub uninterp spec fn cron_next_fire(expression: Seq<char>, timezone: Seq<char>, now: i64) -> Option<i64>;

/// Whether `name` names a zone of the tz database.
pub uninterp spec fn known_timezone(name: Seq<char>) -> bool;

/// The last second that chrono can represent, 262142-12-31 23:59:59 UTC,
/// in seconds since the epoch.
pub const LAST_TIMESTAMP: i64 = 8210266876799;

/// When a cron expression next fires.
///
/// Wraps `cron::Schedule::from_str`, `chrono_tz::Tz::from_str`,
/// `chrono::DateTime::from_timestamp` and `Schedule::after(..).next()`. The
/// result is a function of the arguments alone (the tz database is built
/// into `chrono_tz`); `cron_next_fire` stands for it. The search starts one
/// second after `now`, which chrono must be able to represent.
#[verifier::external_body]
fn next_fire(expression: &str, timezone: &str, now: i64) -> (r: Option<i64>)
    requires
        now < LAST_TIMESTAMP,
    ensures
        r == cron_next_fire(expression@, timezone@, now),
{
    let schedule = match <cron::Schedule as std::str::FromStr>::from_str(expression) {
        Ok(schedule) => schedule,
        Err(_) => return None,
    };
    let zone = match <chrono_tz::Tz as std::str::FromStr>::from_str(timezone) {
        Ok(zone) => zone,
        Err(_) => return None,
    };
    let start = chrono::DateTime::from_timestamp(now, 0)?.with_timezone(&zone);
    schedule.after(&start).next().map(|fire| fire.timestamp())
}

/// Whether a zone name is known.
///
/// Wraps `chrono_tz::Tz::from_str`; the answer depends on the name alone,
/// and `known_timezone` stands for it.
#[verifier::external_body]
fn timezone_known(name: &str) -> (r: bool)
    ensures
        r == known_timezone(name@),
{
    <chrono_tz::Tz as std::str::FromStr>::from_str(name).is_ok()
}

/// The zone a server's schedules are read in: the container's zone when
/// one is set, else the system's; `UTC` when that name is not a known zone.
pub open spec fn chosen_timezone(container: Option<Seq<char>>, system: Seq<char>) -> Seq<char> {
    let name = match container {
        Some(c) => c,
        None => system,
    };
    if known_timezone(name) {
        name
    } else {
        "UTC"@
    }
}

/// Chooses the zone a server's schedules are read in.
pub fn schedule_timezone(container: Option<&str>, system: &str) -> (r: String)
    ensures
        r@ == chosen_timezone(
            match container {
                Some(c) => Some(c@),
                None => None,
            },
            system@,
        ),
{
    let name = match container {
        Some(c) => c,
        None => system,
    };
    let mut out = String::new();
    if timezone_known(name) {
        out.append(name);
    } else {
        out.append("UTC");
    }
    out
}

/// Whether the wait until `next_fire` fits in `i64` seconds.
pub open spec fn wait_fits(next_fire: Option<i64>, now: i64) -> bool {
    match next_fire {
        Some(target) => i64::MIN <= target - now <= i64::MAX,
        None => true,
    }
}

/// One round of the timer of a cron trigger at time `now`, the schedule read
/// in the zone `timezone`: stop when the expression never fires again, look
/// again after a second when the next time is not in the future, else sleep
/// until it and trigger the schedule. Nothing when the wait does not fit in
/// `i64` seconds. `now` lies before the last second that chrono can
/// represent.
pub fn cron_timer_step(expression: &str, timezone: &str, now: i64) -> (r: Option<CronWait>)
    requires
        now < LAST_TIMESTAMP,
    ensures
        r == (if wait_fits(cron_next_fire(expression@, timezone@, now), now) {
            Some(cron_wait_spec(cron_next_fire(expression@, timezone@, now), now))
        } else {
            None
        }),
{
    let next = next_fire(expression, timezone, now);
    match next {
        Some(target) => {
            if (now >= 0 && target < i64::MIN + now) || (now < 0 && target > i64::MAX + now) {
                return None;
            }
        },
        None => {},
    }
    Some(cron_wait(next, now))
}

} // verus!
