//! The time of day at which a transfer will be finished.
//!
//! Instants are whole seconds since 1970-01-01 00:00:00 UTC.  All times of day
//! are UTC: a fixed offset from the epoch, with no daylight-saving shifts.

use vstd::prelude::*;
use vstd::arithmetic::div_mod::{
    lemma_fundamental_div_mod, lemma_fundamental_div_mod_converse, lemma_mod_multiples_vanish,
};
use crate::error::EstimateError;

verus! {

/// Seconds in a day.
pub const SECONDS_PER_DAY: i64 = 86_400;

/// The earliest instant the calendar can hold: the first second of the year
/// -262143.
pub const MIN_TIMESTAMP: i64 = -8_334_601_228_800;

/// The latest instant the calendar can hold: the last second of the year
/// 262142.
pub const MAX_TIMESTAMP: i64 = 8_210_266_876_799;

/// The longest span, in seconds, that can be added to an instant in one step:
/// the whole seconds contained in `i64::MAX` milliseconds.
pub const MAX_SHIFT: i64 = 9_223_372_036_854_775;

/// The pattern of the finish time: hour, minute and second, two digits each.
pub const CLOCK_PATTERN: &'static str = "%H:%M:%S";

/// Whether `t` is an instant the calendar can hold.
pub open spec fn representable(t: int) -> bool {
    MIN_TIMESTAMP <= t <= MAX_TIMESTAMP
}

/// Seconds since the last midnight (UTC) at instant `t`.
pub open spec fn second_of_day(t: int) -> int {
    t % (SECONDS_PER_DAY as int)
}

/// The hour of the day at instant `t`, from 0 to 23.
pub open spec fn hour_at(t: int) -> int {
    second_of_day(t) / 3600
}

/// The minute of the hour at instant `t`, from 0 to 59.
pub open spec fn minute_at(t: int) -> int {
    second_of_day(t) % 3600 / 60
}

/// The second of the minute at instant `t`, from 0 to 59.
pub open spec fn second_at(t: int) -> int {
    second_of_day(t) % 60
}

/// The decimal digit `d` as a character.
pub open spec fn digit(d: int) -> char {
    if d == 0 {
        '0'
    } else if d == 1 {
        '1'
    } else if d == 2 {
        '2'
    } else if d == 3 {
        '3'
    } else if d == 4 {
        '4'
    } else if d == 5 {
        '5'
    } else if d == 6 {
        '6'
    } else if d == 7 {
        '7'
    } else if d == 8 {
        '8'
    } else {
        '9'
    }
}

/// A number below one hundred written with two digits.
pub open spec fn two_digits(n: int) -> Seq<char> {
    seq![digit(n / 10), digit(n % 10)]
}

/// The time of day at instant `t`, written `HH:MM:SS` on a 24-hour clock.
pub open spec fn clock_text(t: int) -> Seq<char> {
    two_digits(hour_at(t)) + seq![':'] + two_digits(minute_at(t)) + seq![':'] + two_digits(
        second_at(t),
    )
}

/// Reads the system clock through `chrono::Utc::now` and returns the instant
/// as whole seconds since the epoch.
///
/// Trusted: every `DateTime<Utc>` lies between `DateTime::MIN_UTC` and
/// `DateTime::MAX_UTC`, so its timestamp is representable.  Nothing is claimed
/// about which instant comes back.  `Utc::now` itself gives up on a system
/// clock that stands before the epoch.
#[verifier::external_body]
fn utc_now() -> (now: i64)
    ensures
        representable(now as int),
{
    chrono::Utc::now().timestamp()
}

/// Adds `delta` seconds to the instant `start` with
/// `chrono::DateTime::checked_add_signed`.
///
/// Trusted: the sum comes back when it is representable, and `None` when it
/// is not.  The bounds asked of the arguments are those outside of which
/// `DateTime::from_timestamp` has no value and `TimeDelta::seconds` panics.
#[verifier::external_body]
fn checked_shift(start: i64, delta: i64) -> (shifted: Option<i64>)
    requires
        representable(start as int),
        -MAX_SHIFT <= delta <= MAX_SHIFT,
    ensures
        representable(start + delta) ==> shifted == Some((start + delta) as i64),
        !representable(start + delta) ==> shifted.is_none(),
{
    let start = chrono::DateTime::from_timestamp(start, 0).unwrap();
    match start.checked_add_signed(chrono::TimeDelta::seconds(delta)) {
        Some(end) => Some(end.timestamp()),
        None => None,
    }
}

/// Writes the instant `t` with `chrono::DateTime::format`.
///
/// Trusted, for the one pattern admitted: `%H`, `%M` and `%S` are the hour,
/// minute and second of the UTC time of day, each zero-padded to two digits.
#[verifier::external_body]
fn format_utc(t: i64, pattern: &str) -> (text: String)
    requires
        representable(t as int),
        pattern@ == CLOCK_PATTERN@,
    ensures
        text@ == clock_text(t as int),
{
    chrono::DateTime::from_timestamp(t, 0).unwrap().format(pattern).to_string()
}

/// What [`finish_time_at`] answers for a start and a shift: the clock text at
/// their sum when both the start and the sum are representable, and
/// [`EstimateError::Overflow`] when either is not.
pub open spec fn finish_time_outcome(now: int, download_time: int) -> Result<
    Seq<char>,
    EstimateError,
> {
    if representable(now) && representable(now + download_time) {
        Ok(clock_text(now + download_time))
    } else {
        Err(EstimateError::Overflow)
    }
}

/// A result with its text taken as a sequence of characters.
pub open spec fn shown(r: Result<String, EstimateError>) -> Result<Seq<char>, EstimateError> {
    match r {
        Ok(text) => Ok(text@),
        Err(e) => Err(e),
    }
}

/// The widest gap between two representable instants.
pub open spec fn calendar_span() -> int {
    MAX_TIMESTAMP - MIN_TIMESTAMP
}

/// The time of day, `download_time` seconds after the instant `now`.
///
/// `download_time` may be negative, for a transfer that began in the past.
/// Succeeds exactly when `now` and `now + download_time` are both
/// representable; otherwise fails with [`EstimateError::Overflow`].
pub fn finish_time_at(now: i64, download_time: i64) -> (r: Result<String, EstimateError>)
    ensures
        shown(r) == finish_time_outcome(now as int, download_time as int),
{
    if now < MIN_TIMESTAMP || now > MAX_TIMESTAMP {
        return Err(EstimateError::Overflow);
    }
    if download_time < -MAX_SHIFT || download_time > MAX_SHIFT {
        return Err(EstimateError::Overflow);
    }
    match checked_shift(now, download_time) {
        Some(finish) => Ok(format_utc(finish, CLOCK_PATTERN)),
        None => Err(EstimateError::Overflow),
    }
}

/// The time of day, `download_time` seconds from now.
///
/// The clock is read once.  Whatever instant it shows, the result is what
/// [`finish_time_at`] answers for that instant; so a shift of zero always
/// succeeds, and one wider than the calendar always fails.
pub fn calculate_finish_time(download_time: i64) -> (r: Result<String, EstimateError>)
    ensures
        exists|now: int|
            representable(now) && shown(r) == #[trigger] finish_time_outcome(
                now,
                download_time as int,
            ),
        download_time == 0 ==> r is Ok,
        download_time > calendar_span() || download_time < -calendar_span() ==> shown(r) == Err::<
            Seq<char>,
            EstimateError,
        >(EstimateError::Overflow),
{
    let now: i64 = utc_now();
    finish_time_at(now, download_time)
}

/// With no delay the finish time is the time at the start.
pub proof fn lemma_no_delay_shows_start(now: int)
    requires
        representable(now),
    ensures
        finish_time_outcome(now, 0) == Ok::<Seq<char>, EstimateError>(clock_text(now)),
{
}

/// A shift wider than the whole calendar overflows from every start.
pub proof fn lemma_shift_beyond_calendar_overflows(now: int, download_time: int)
    requires
        download_time > calendar_span() || download_time < -calendar_span(),
    ensures
        finish_time_outcome(now, download_time) == Err::<Seq<char>, EstimateError>(
            EstimateError::Overflow,
        ),
{
}

/// The text is eight characters long: three two-digit fields, the hour below
/// 24 and minute and second below 60, with a colon between them.
pub proof fn lemma_clock_text_shape(t: int)
    ensures
        0 <= hour_at(t) < 24,
        0 <= minute_at(t) < 60,
        0 <= second_at(t) < 60,
        second_of_day(t) == hour_at(t) * 3600 + minute_at(t) * 60 + second_at(t),
        clock_text(t).len() == 8,
        clock_text(t)[2] == ':',
        clock_text(t)[5] == ':',
        forall|i: int|
            0 <= i < 8 && i != 2 && i != 5 ==> '0' <= #[trigger] clock_text(t)[i] <= '9',
{
    let text = clock_text(t);
    assert(text =~= seq![
        digit(hour_at(t) / 10),
        digit(hour_at(t) % 10),
        ':',
        digit(minute_at(t) / 10),
        digit(minute_at(t) % 10),
        ':',
        digit(second_at(t) / 10),
        digit(second_at(t) % 10),
    ]);
}

/// The clock shows the same time a whole number of days earlier or later.
pub proof fn lemma_clock_repeats_daily(t: int, days: int)
    ensures
        clock_text(t + days * SECONDS_PER_DAY) == clock_text(t),
{
    lemma_mod_multiples_vanish(days, t, SECONDS_PER_DAY as int);
    assert(days * SECONDS_PER_DAY == SECONDS_PER_DAY * days) by (nonlinear_arith);
}

/// Shifting an instant by `delta` seconds moves the clock as counting does:
/// seconds carry into minutes at sixty, minutes into hours at sixty, and hours
/// start again from zero at twenty-four.
pub proof fn lemma_shift_carries(t: int, delta: int)
    ensures
        second_at(t + delta) == (second_at(t) + delta) % 60,
        minute_at(t + delta) == (minute_at(t) + (second_at(t) + delta) / 60) % 60,
        hour_at(t + delta) == (hour_at(t) + (minute_at(t) + (second_at(t) + delta) / 60) / 60)
            % 24,
{
    let day: int = SECONDS_PER_DAY as int;
    let start: int = second_of_day(t);
    let (h, m, c) = (hour_at(t), minute_at(t), second_at(t));
    assert(start == 3600 * h + 60 * m + c);
    // carry by carry, from the seconds upwards
    let (q1, r1) = ((c + delta) / 60, (c + delta) % 60);
    let (q2, r2) = ((m + q1) / 60, (m + q1) % 60);
    let (q3, r3) = ((h + q2) / 24, (h + q2) % 24);
    let end: int = 3600 * r3 + 60 * r2 + r1;
    assert(start + delta == day * q3 + end);
    lemma_fundamental_div_mod(t, day);
    lemma_fundamental_div_mod_converse(t + delta, day, t / day + q3, end);
    assert(second_of_day(t + delta) == end);
    lemma_fundamental_div_mod_converse(end, 3600, r3, 60 * r2 + r1);
    lemma_fundamental_div_mod_converse(60 * r2 + r1, 60, r2, r1);
    lemma_fundamental_div_mod_converse(end, 60, 60 * r3 + r2, r1);
}

} // verus!
