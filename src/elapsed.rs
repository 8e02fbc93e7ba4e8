//! How long ago a reply was published, as a short label.
use vstd::prelude::*;
use vstd::string::*;
use chrono::TimeZone;

verus! {

pub open spec fn digit_char(d: nat) -> char {
    if d == 0 { '0' }
    else if d == 1 { '1' }
    else if d == 2 { '2' }
    else if d == 3 { '3' }
    else if d == 4 { '4' }
    else if d == 5 { '5' }
    else if d == 6 { '6' }
    else if d == 7 { '7' }
    else if d == 8 { '8' }
    else { '9' }
}

/// Decimal digits of `n`, most significant first, without leading zeros.
pub open spec fn decimal(n: nat) -> Seq<char>
    decreases n,
{
    if n < 10 {
        seq![digit_char(n)]
    } else {
        decimal(n / 10) + seq![digit_char(n % 10)]
    }
}

fn digit_str(d: u64) -> (r: &'static str)
    requires
        d < 10,
    ensures
        r@ == seq![digit_char(d as nat)],
{
    proof {
        reveal_strlit("0");
        reveal_strlit("1");
        reveal_strlit("2");
        reveal_strlit("3");
        reveal_strlit("4");
        reveal_strlit("5");
        reveal_strlit("6");
        reveal_strlit("7");
        reveal_strlit("8");
        reveal_strlit("9");
    }
    if d == 0 {
        "0"
    } else if d == 1 {
        "1"
    } else if d == 2 {
        "2"
    } else if d == 3 {
        "3"
    } else if d == 4 {
        "4"
    } else if d == 5 {
        "5"
    } else if d == 6 {
        "6"
    } else if d == 7 {
        "7"
    } else if d == 8 {
        "8"
    } else {
        "9"
    }
}

/// `n` written in decimal.
pub fn decimal_string(n: u64) -> (r: String)
    ensures
        r@ == decimal(n as nat),
    decreases n,
{
    if n < 10 {
        String::from_str(digit_str(n))
    } else {
        let mut r = decimal_string(n / 10);
        r.append(digit_str(n % 10));
        r
    }
}

pub open spec fn unit_label(count: nat, unit: char) -> Seq<char> {
    decimal(count) + seq![unit]
}

/// The coarsest whole unit among weeks, days, hours and minutes that has
/// passed in `secs` seconds; "1m" when not even a minute has.
pub open spec fn age_label(secs: nat) -> Seq<char> {
    if secs / 604800 > 0 {
        unit_label(secs / 604800, 'w')
    } else if secs / 86400 > 0 {
        unit_label(secs / 86400, 'd')
    } else if secs / 3600 > 0 {
        unit_label(secs / 3600, 'h')
    } else if secs / 60 > 0 {
        unit_label(secs / 60, 'm')
    } else {
        seq!['1', 'm']
    }
}

fn with_unit(count: u64, unit: &str) -> (r: String)
    ensures
        r@ == decimal(count as nat) + unit@,
{
    let mut r = decimal_string(count);
    r.append(unit);
    r
}

/// Label for an age of `secs` seconds: "3w", "2d", "5h", "12m", at least "1m".
pub fn published_at_format(secs: u64) -> (r: String)
    ensures
        r@ == age_label(secs as nat),
{
    proof {
        reveal_strlit("w");
        reveal_strlit("d");
        reveal_strlit("h");
        reveal_strlit("m");
        reveal_strlit("1m");
    }
    let weeks = secs / 604800;
    let days = secs / 86400;
    let hours = secs / 3600;
    let minutes = secs / 60;
    if weeks > 0 {
        with_unit(weeks, "w")
    } else if days > 0 {
        with_unit(days, "d")
    } else if hours > 0 {
        with_unit(hours, "h")
    } else if minutes > 0 {
        with_unit(minutes, "m")
    } else {
        String::from_str("1m")
    }
}

/// Seconds from `published` to `now`; zero when the time could not be read or
/// lies ahead of `now`.
pub open spec fn age_between(published: Option<i64>, now: i64) -> nat {
    match published {
        Some(t) => if now > t {
            (now - t) as nat
        } else {
            0
        },
        None => 0,
    }
}

/// Seconds from `published` to `now`, zero when the time could not be read or
/// lies ahead of `now`.
pub fn age_seconds(published: Option<i64>, now: i64) -> (r: u64)
    ensures
        r == age_between(published, now),
{
    match published {
        Some(t) => if now > t {
            let d: i128 = now as i128 - t as i128;
            d as u64
        } else {
            0
        },
        None => 0,
    }
}

/// Relies on chrono's `Local::now`: the current local time, as seconds since
/// the Unix epoch.
#[verifier::external_body]
fn now_timestamp() -> (r: i64) {
    chrono::Local::now().timestamp()
}

/// Relies on chrono's `TimeZone::datetime_from_str` for `Local`: reads `s` as
/// a local time in the layout `fmt`, as seconds since the Unix epoch; none
/// when `s` does not fit the layout.
#[verifier::external_body]
#[allow(deprecated)]
fn parse_local_timestamp(s: &str, fmt: &str) -> (r: Option<i64>) {
    chrono::Local.datetime_from_str(s, fmt).ok().map(|d| d.timestamp())
}

/// Seconds since the reply time `published_at`, written "day/month/year
/// hour:minute" in local time; zero when it cannot be read.
pub fn published_age(published_at: &str) -> u64 {
    let now = now_timestamp();
    let t = parse_local_timestamp(published_at, "%d/%m/%Y %H:%M");
    age_seconds(t, now)
}

} // verus!
