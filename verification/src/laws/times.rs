//! Laws on the bounds and the intervals of a dial, and on what is said of an upstream
//! that is absent.

use std::time::Duration;

use vstd::prelude::*;

use crate::address::AddressSet;
use crate::error::BalanceError;
use crate::resolve::{
    bounded_lookup, resolve_timeout, still_absent, Absence, Level, Lookup, NEVER_RESOLVED,
    RESOLUTION_BLIP,
};
use crate::system::nanoseconds;
use crate::{default_request_timeout, reresolve_interval};

verus! {

/// A host is resolved again every 5 seconds, a lookup is given up after 5, and a request
/// after 30 where the caller names no bound.
pub proof fn the_intervals_of_a_dial(interval: Duration, lookup: Duration, request: Duration)
    requires
        call_ensures(reresolve_interval, (), interval),
        call_ensures(resolve_timeout, (), lookup),
        call_ensures(default_request_timeout, (), request),
    ensures
        nanoseconds(interval) == 5_000_000_000,
        nanoseconds(lookup) == 5_000_000_000,
        nanoseconds(request) == 30_000_000_000,
{
}

/// A lookup that runs out of time says what was looked up, and after how long it was
/// given up.
pub proof fn a_lookup_that_is_given_up_says_so(
    target: String,
    res: Result<AddressSet, BalanceError>,
)
    requires
        call_ensures(bounded_lookup, (target, Lookup::TimedOut), res),
    ensures
        res matches Err(BalanceError::DnsTimedOut { host, after }) && host == target
            && nanoseconds(after) == 5_000_000_000,
{
}

/// An upstream without an address is said to have never resolved exactly where nothing
/// has been given yet; that alone is an error, and that alone says how often it will be
/// said again: every 5 seconds.
pub proof fn an_absence_is_an_error_where_nothing_was_given(
    nothing_given_yet: bool,
    absence: Absence,
    level: Level,
    message: &'static str,
    interval: Option<u64>,
)
    requires
        call_ensures(still_absent, (nothing_given_yet,), absence),
        call_ensures(Absence::level, (&absence,), level),
        call_ensures(Absence::message, (&absence,), message),
        call_ensures(Absence::interval_secs, (&absence,), interval),
    ensures
        absence is NeverResolved <==> nothing_given_yet,
        level is Error <==> nothing_given_yet,
        interval == if nothing_given_yet {
            Some(5u64)
        } else {
            None
        },
        nothing_given_yet ==> message@ == NEVER_RESOLVED@,
        !nothing_given_yet ==> message@ == RESOLUTION_BLIP@,
{
}

} // verus!
