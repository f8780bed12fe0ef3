//! Resource age as shown in the lists.
use crate::text::{decimal, push_decimal, push_str};
use vstd::prelude::*;

verus! {

/// The age text for `secs` seconds: whole days, else hours, else minutes,
/// else seconds, each followed by its unit letter. A negative age (a
/// creation time ahead of the clock) shows as signed seconds.
pub open spec fn age_text(secs: int) -> Seq<char> {
    if secs >= 86400 {
        decimal((secs / 86400) as nat) + "d"@
    } else if secs >= 3600 {
        decimal((secs / 3600) as nat) + "h"@
    } else if secs >= 60 {
        decimal((secs / 60) as nat) + "m"@
    } else if secs >= 0 {
        decimal(secs as nat) + "s"@
    } else {
        "-"@ + decimal((-secs) as nat) + "s"@
    }
}

/// Formats an age of `secs` seconds.
pub fn format_age(secs: i128) -> (r: String)
    requires
        -18446744073709551615 <= secs <= 18446744073709551615,
    ensures
        r@ == age_text(secs as int),
{
    let mut s = String::new();
    if secs >= 86400 {
        push_decimal(&mut s, (secs / 86400) as u64);
        push_str(&mut s, "d");
    } else if secs >= 3600 {
        push_decimal(&mut s, (secs / 3600) as u64);
        push_str(&mut s, "h");
    } else if secs >= 60 {
        push_decimal(&mut s, (secs / 60) as u64);
        push_str(&mut s, "m");
    } else if secs >= 0 {
        push_decimal(&mut s, secs as u64);
        push_str(&mut s, "s");
    } else {
        push_str(&mut s, "-");
        push_decimal(&mut s, (-secs) as u64);
        push_str(&mut s, "s");
    }
    assert(s@ =~= age_text(secs as int));
    s
}

/// Relies on jiff's `Timestamp::try_from(SystemTime)`: the current Unix
/// time in whole seconds, or nothing when the clock is out of jiff's range.
/// Nothing is promised of its value.
#[verifier::external_body]
fn unix_now() -> (r: Option<i64>) {
    jiff::Timestamp::try_from(std::time::SystemTime::now()).ok().map(|t| t.as_second())
}

/// The age of a resource created at Unix second `created`, or "?" when the
/// creation time or the current time is unknown. A creation time in the
/// future counts as age 0.
pub fn get_resource_age(created: Option<i64>) -> (r: String)
    ensures
        created is None ==> r@ == "?"@,
        r@ == "?"@ || exists|secs: int| r@ == age_text(secs),
{
    match created {
        None => "?".to_owned(),
        Some(t) => match unix_now() {
            Some(now) => age_of(now, t),
            None => "?".to_owned(),
        },
    }
}

/// The age text for a resource created at second `created` seen at `now`.
pub fn age_of(now: i64, created: i64) -> (r: String)
    ensures
        r@ == age_text(now - created),
{
    format_age(now as i128 - created as i128)
}

} // verus!
