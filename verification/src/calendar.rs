//! Logical days. A logical day is a date key, written year-month-day, that
//! rolls over four hours after local midnight, so that work late at night
//! counts for the day before.
//!
//! The calendar itself is `chrono`'s. What is taken on trust about it stands in
//! the functions marked `external_body`, in `date_read` and in
//! `calendar_holds`. The calls that read the system clock or the local time
//! zone panic where the machine fails them: where the clock stands before
//! 1970 or beyond the calendar, and where the zone data gives no offset. No
//! argument causes that, so no `requires` can leave it out.

use crate::task::text_option;
use chrono::{Local, NaiveDate, TimeZone};
use vstd::prelude::*;

verus! {

/// The seconds by which the logical day lags behind the clock.
pub const DAY_SHIFT_SECONDS: i64 = 14400;

/// The seconds of one day.
pub const DAY_SECONDS: i64 = 86400;

/// An instant before 1970 that lies within the calendar: the first day of
/// `chrono::NaiveDate` lies more than ten thousand years before it.
pub const CALENDAR_FLOOR: i64 = -8_000_000_000_000;

/// The number of days that one can surely go back from the logical day of
/// any reading of the clock: the instant so reached is not before
/// `CALENDAR_FLOOR`.
pub const DAYS_BACK_MAX: i64 = 90_000_000;

/// What `chrono::NaiveDate::parse_from_str` reads from `input` under the
/// format `format`: the date, written year-month-day as
/// `NaiveDate::format("%Y-%m-%d")` writes it, or `None` where `input` is no
/// date in that format.
pub uninterp spec fn date_read(input: Seq<char>, format: Seq<char>) -> Option<Seq<char>>;

/// Calls `chrono::NaiveDate::parse_from_str` on `input` and `format` and
/// writes the date that it returns with `NaiveDate::format("%Y-%m-%d")`. The
/// result is a function of the two texts alone; the contract gives it the name
/// `date_read` and says nothing more of it.
#[verifier::external_body]
fn read_date(input: &str, format: &str) -> (r: Option<String>)
    ensures
        text_option(r) == date_read(input@, format@),
{
    match NaiveDate::parse_from_str(input, format) {
        Ok(date) => Some(date.format("%Y-%m-%d").to_string()),
        Err(_) => None,
    }
}

/// Whether `chrono::TimeZone::timestamp_opt` finds a moment for the instant
/// `instant`, whole seconds since the first of January 1970, 0:00 UTC. It
/// does where `chrono::DateTime::from_timestamp` does, that is where the day
/// of the instant lies within the range of `chrono::NaiveDate`, whatever the
/// time zone. That range is one stretch of days, from the first day of the
/// year 262144 before the common era to the last day of the year 262142.
pub uninterp spec fn calendar_holds(instant: int) -> bool;

/// What holds of every reading of the clock: it is not before 1970, and the
/// calendar holds it.
pub open spec fn clock_reading(now: int) -> bool {
    0 <= now <= i64::MAX && calendar_holds(now)
}

/// Calls `chrono::Local::now` and returns its `timestamp`: the seconds since
/// the first of January 1970, 0:00 UTC, by the system clock. `Local::now`
/// takes the time that has passed since then from the system, which is not
/// negative, and makes a moment of it with `DateTime::from_timestamp`; so the
/// reading is not negative and the calendar holds it. Where the system clock
/// stands before 1970 or beyond the calendar, or the zone data gives no
/// offset, `Local::now` panics.
#[verifier::external_body]
fn now_instant() -> (now: i64)
    ensures
        clock_reading(now as int),
{
    Local::now().timestamp()
}

/// Whether the character at `i` is a decimal digit.
pub open spec fn digit_at(text: Seq<char>, i: int) -> bool {
    0 <= i < text.len() && 48 <= text[i] as u32 <= 57
}

/// A date written year-month-day, as `chrono` writes `%Y-%m-%d`: the text
/// ends in a hyphen, two digits of the month, a hyphen and two digits of the
/// day, and before them stands the year, with four digits at least.
pub open spec fn day_shaped(text: Seq<char>) -> bool {
    let n = text.len() as int;
    &&& n >= 10
    &&& text[n - 6] == '-'
    &&& text[n - 3] == '-'
    &&& forall|i: int|
        n - 10 <= i < n && i != n - 6 && i != n - 3 ==> #[trigger] digit_at(text, i)
}

/// A moment written as `chrono` writes `%Y-%m-%d %H:%M:%S`: a date written
/// year-month-day, a space, and two digits each of the hour, the minute and
/// the second, with colons between them.
pub open spec fn clock_shaped(text: Seq<char>) -> bool {
    let n = text.len() as int;
    &&& n >= 19
    &&& day_shaped(text.take(n - 9))
    &&& text[n - 9] == ' '
    &&& text[n - 6] == ':'
    &&& text[n - 3] == ':'
    &&& forall|i: int|
        n - 8 <= i < n && i != n - 6 && i != n - 3 ==> #[trigger] digit_at(text, i)
}

/// Calls `chrono::Local.timestamp_opt` on `instant` and writes the local
/// date of the moment that it returns with `DateTime::format("%Y-%m-%d")`.
/// Which date is written depends on the time zone of the machine, so the
/// contract says only this: there is a date where `chrono` finds a moment for
/// the instant, which the contract calls `calendar_holds`; the date is
/// written year-month-day; and, the instants that the calendar holds being
/// one stretch that begins before `CALENDAR_FLOOR`, there is a date for an
/// instant that lies between `CALENDAR_FLOOR` and any instant that the
/// calendar holds. Where the zone data of the machine gives no offset for the
/// moment, the call panics.
#[verifier::external_body]
fn local_day(instant: i64) -> (day: Option<String>)
    ensures
        day is Some <==> calendar_holds(instant as int),
        day matches Some(text) ==> day_shaped(text@),
        forall|later: int|
            calendar_holds(later) && CALENDAR_FLOOR <= instant <= later ==> day is Some,
{
    Local.timestamp_opt(instant, 0).single().map(|moment| moment.format("%Y-%m-%d").to_string())
}

/// Calls `chrono::Local::now` and writes the moment that it returns with
/// `DateTime::format("%Y-%m-%d %H:%M:%S")`: date and time by the system clock
/// in the local time zone. Which moment is written depends on the clock and
/// the time zone, so the contract says only how it is written. Where the
/// system clock stands before 1970 or beyond the calendar, or the zone data
/// gives no offset, `Local::now` panics.
#[verifier::external_body]
pub(crate) fn local_clock_text() -> (text: String)
    ensures
        clock_shaped(text@),
{
    Local::now().format("%Y-%m-%d %H:%M:%S").to_string()
}

/// The first date that one of `formats`, tried in order, reads from `input`.
pub open spec fn first_read(input: Seq<char>, formats: Seq<Seq<char>>) -> Option<Seq<char>>
    decreases formats.len(),
{
    if formats.len() == 0 {
        None
    } else {
        match date_read(input, formats[0]) {
            Some(date) => Some(date),
            None => first_read(input, formats.drop_first()),
        }
    }
}

/// The formats in which a date may be given, in the order in which they are
/// tried: month/day/year with a long or a short year, year-month-day, and
/// month-day-year with a long or a short year. The first format that reads a
/// date decides, so a format further down is reached only by what the ones
/// before it refuse.
pub open spec fn date_formats() -> Seq<Seq<char>> {
    seq!["%m/%d/%Y"@, "%m/%d/%y"@, "%Y-%m-%d"@, "%m-%d-%Y"@, "%m-%d-%y"@]
}

/// The date that `input` gives, as a day key.
pub open spec fn parsed_date(input: Seq<char>) -> Option<Seq<char>> {
    first_read(input, date_formats())
}

/// Reads `input` as a date in one of the accepted formats and returns it as a
/// day key; `None` where it is a date in none of them.
pub fn try_parse_date(input: &str) -> (r: Option<String>)
    ensures
        text_option(r) == parsed_date(input@),
{
    let ghost formats = date_formats();
    proof {
        reveal_with_fuel(first_read, 6);
        assert(formats.drop_first().drop_first().drop_first().drop_first().drop_first().len() == 0);
    }
    if let Some(day) = read_date(input, "%m/%d/%Y") {
        return Some(day);
    }
    if let Some(day) = read_date(input, "%m/%d/%y") {
        return Some(day);
    }
    if let Some(day) = read_date(input, "%Y-%m-%d") {
        return Some(day);
    }
    if let Some(day) = read_date(input, "%m-%d-%Y") {
        return Some(day);
    }
    if let Some(day) = read_date(input, "%m-%d-%y") {
        return Some(day);
    }
    None
}

/// The instant whose local date is the logical day `days_offset` days before
/// the logical day of the instant `now`.
pub open spec fn logical_instant(now: int, days_offset: int) -> int {
    now - DAY_SHIFT_SECONDS - days_offset * DAY_SECONDS
}

/// Computes `logical_instant`; `None` where it does not fit the machine's
/// integers.
pub fn logical_day_instant(now: i64, days_offset: i64) -> (r: Option<i64>)
    ensures
        r is Some <==> i64::MIN <= logical_instant(now as int, days_offset as int) <= i64::MAX,
        r matches Some(t) ==> t == logical_instant(now as int, days_offset as int),
{
    let shift: i128 = (days_offset as i128) * (DAY_SECONDS as i128);
    let instant: i128 = (now as i128) - (DAY_SHIFT_SECONDS as i128) - shift;
    if instant < (i64::MIN as i128) || instant > (i64::MAX as i128) {
        None
    } else {
        Some(instant as i64)
    }
}

/// Whether the logical day `days_offset` days before the logical day of the
/// instant `now` has a key: its instant fits the machine's integers and the
/// calendar holds it.
pub open spec fn day_owed(now: int, days_offset: int) -> bool {
    &&& i64::MIN <= logical_instant(now, days_offset) <= i64::MAX
    &&& calendar_holds(logical_instant(now, days_offset))
}

/// The days that `days_offset` asks to go back: none where it is not given.
pub open spec fn offset_or_zero(days_offset: Option<i64>) -> int {
    match days_offset {
        Some(offset) => offset as int,
        None => 0,
    }
}

/// Whether going back `days_offset` days finds a day whatever the clock
/// reads: the current logical day and the `DAYS_BACK_MAX` days before it.
pub open spec fn day_sure(days_offset: int) -> bool {
    0 <= days_offset <= DAYS_BACK_MAX
}

/// What `today_key` returns for `days_offset`. There is a reading of the
/// clock for which `day` is what `day_key_at` returns: a key where the
/// logical day of that reading, `days_offset` days back, has one, and then a
/// date written year-month-day. Within `DAYS_BACK_MAX` days back there is a
/// key.
pub open spec fn today_key_of(day: Option<Seq<char>>, days_offset: int) -> bool {
    &&& exists|now: int|
        clock_reading(now) && (day is Some <==> #[trigger] day_owed(now, days_offset))
    &&& day matches Some(text) ==> day_shaped(text)
    &&& day_sure(days_offset) ==> day is Some
}

/// The key, in the local time zone, of the logical day `days_offset` days
/// before the logical day of the instant `now`: the local date of the instant
/// four hours and `days_offset` days before `now`, written year-month-day;
/// `None` where the calendar does not reach that far. It does reach the
/// logical day of a reading of the clock and the `DAYS_BACK_MAX` days before
/// it.
pub fn day_key_at(now: i64, days_offset: i64) -> (day: Option<String>)
    ensures
        day is Some <==> day_owed(now as int, days_offset as int),
        day matches Some(text) ==> day_shaped(text@),
        clock_reading(now as int) && day_sure(days_offset as int) ==> day is Some,
{
    match logical_day_instant(now, days_offset) {
        Some(instant) => local_day(instant),
        None => None,
    }
}

/// The key of the logical day `days_offset` days ago, by the system clock and
/// the local time zone: what `day_key_at` returns for the reading of the
/// clock. There is a key for the current logical day and for the
/// `DAYS_BACK_MAX` days before it; further back, and for days to come, `None`
/// where the calendar does not reach that far.
pub fn today_key(days_offset: i64) -> (day: Option<String>)
    ensures
        today_key_of(text_option(day), days_offset as int),
        day_sure(days_offset as int) ==> day is Some,
{
    let now = now_instant();
    let day = day_key_at(now, days_offset);
    proof {
        assert(day_owed(now as int, days_offset as int) <==> day is Some);
    }
    day
}

/// The key of the current logical day, by the system clock and the local
/// time zone. There always is one.
pub fn current_day_key() -> (day: String)
    ensures
        today_key_of(Some(day@), 0),
{
    today_key(0).unwrap()
}

/// The key of the current logical day, or of the one `days_offset` days ago:
/// what `today_key` returns for `days_offset`, or for no days back where it is
/// not given.
pub fn get_current_logical_day_key(days_offset: Option<i64>) -> (day: Option<String>)
    ensures
        today_key_of(text_option(day), offset_or_zero(days_offset)),
        day_sure(offset_or_zero(days_offset)) ==> day is Some,
{
    let offset = match days_offset {
        Some(offset) => offset,
        None => 0,
    };
    today_key(offset)
}

} // verus!
