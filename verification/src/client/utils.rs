//! Names, times and dates as the client shows them.

use vstd::prelude::*;
use vstd::string::*;

use crate::text::{decimal, digit, same_text};

verus! {

/// The first second that a date can be told for.
pub const FIRST_SECOND: i64 = -8_334_601_228_800;

/// The last second that a date can be told for.
pub const LAST_SECOND: i64 = 8_210_266_876_799;

pub const SECONDS_PER_DAY: i64 = 86_400;

/// The pattern of a time of day: hours and minutes.
pub const TIME_PATTERN: &'static str = "%H:%M";

/// The pattern of a date: day, month and year.
pub const DATE_PATTERN: &'static str = "%d/%m/%Y";

/// Whether a date can be told for a second.
pub open spec fn has_date(timestamp: i64) -> bool {
    FIRST_SECOND <= timestamp <= LAST_SECOND
}

/// A number below a hundred in two digits.
pub open spec fn two_digits(n: int) -> Seq<char> {
    seq![digit((n / 10) as nat), digit((n % 10) as nat)]
}

/// The hour and the minute of a second in UTC.
pub open spec fn clock_text(timestamp: int) -> Seq<char> {
    let of_day = timestamp % 86_400;
    two_digits(of_day / 3_600) + seq![':'] + two_digits(of_day / 60 % 60)
}

// ── The calendar ────────────────────────────────────────────────────────

/// The day that a second lies in, counted from the Unix epoch.
pub open spec fn day_number(timestamp: int) -> int {
    timestamp / 86_400
}

/// Whether a year of the Gregorian calendar has a leap day.
pub open spec fn is_leap(year: int) -> bool {
    year % 4 == 0 && (year % 100 != 0 || year % 400 == 0)
}

/// The number of the first of January of a year, counted from the Unix epoch:
/// 365 days for each year since the year 1, and the leap days among them.
pub open spec fn first_day(year: int) -> int {
    365 * (year - 1) + (year - 1) / 4 - (year - 1) / 100 + (year - 1) / 400 - 719_162
}

/// The year that a day lies in.
pub open spec fn year_of(day: int) -> int {
    choose|year: int| #[trigger] first_day(year) <= day < first_day(year + 1)
}

/// The days of a year before a month, which is counted from 1.
pub open spec fn days_before_month(year: int, month: int) -> int {
    let leap: int = if is_leap(year) {
        1
    } else {
        0
    };
    if month <= 1 {
        0
    } else if month == 2 {
        31
    } else if month == 3 {
        59 + leap
    } else if month == 4 {
        90 + leap
    } else if month == 5 {
        120 + leap
    } else if month == 6 {
        151 + leap
    } else if month == 7 {
        181 + leap
    } else if month == 8 {
        212 + leap
    } else if month == 9 {
        243 + leap
    } else if month == 10 {
        273 + leap
    } else if month == 11 {
        304 + leap
    } else if month == 12 {
        334 + leap
    } else {
        365 + leap
    }
}

/// The month that a day lies in, counted from 1.
pub open spec fn month_of(day: int) -> int {
    let year = year_of(day);
    let passed = day - first_day(year);
    choose|month: int|
        1 <= month <= 12 && #[trigger] days_before_month(year, month) <= passed < days_before_month(
            year,
            month + 1,
        )
}

/// The day of the month that a day is, counted from 1.
pub open spec fn day_of_month(day: int) -> int {
    day - first_day(year_of(day)) - days_before_month(year_of(day), month_of(day)) + 1
}

/// A year in at least four digits, with a sign where it has more or lies
/// before the year 0.
pub open spec fn year_text(year: int) -> Seq<char> {
    if 0 <= year <= 9_999 {
        two_digits(year / 100) + two_digits(year % 100)
    } else if -9_999 <= year < 0 {
        seq!['-'] + two_digits(-year / 100) + two_digits(-year % 100)
    } else if year < 0 {
        seq!['-'] + decimal((-year) as nat)
    } else {
        seq!['+'] + decimal(year as nat)
    }
}

/// The day, the month and the year of a second in UTC.
pub open spec fn date_text(timestamp: int) -> Seq<char> {
    let day = day_number(timestamp);
    two_digits(day_of_month(day)) + seq!['/'] + two_digits(month_of(day)) + seq!['/'] + year_text(
        year_of(day),
    )
}

/// A year begins after the one before it, by its length.
proof fn lemma_year_len(year: int)
    ensures
        first_day(year + 1) == first_day(year) + days_before_month(year, 13),
{
}

/// A later year begins later.
proof fn lemma_years_in_order(year: int, later: int)
    requires
        year <= later,
    ensures
        first_day(year) <= first_day(later),
    decreases later - year,
{
    if year < later {
        lemma_year_len(year);
        lemma_years_in_order(year + 1, later);
    }
}

/// A day that a year has not ended before lies in that year or a later one.
proof fn lemma_some_year_from(day: int, year: int)
    requires
        first_day(year) <= day,
    ensures
        exists|y: int| #[trigger] first_day(y) <= day < first_day(y + 1),
    decreases day - first_day(year),
{
    lemma_year_len(year);
    if first_day(year + 1) <= day {
        lemma_some_year_from(day, year + 1);
    }
}

/// Every day is one day of one month of one year: `year_of`, `month_of` and
/// `day_of_month` tell the one date that the day has.
pub proof fn law_every_day_has_one_date(day: int, year: int, month: int, of_month: int)
    ensures
        ({
            let y = year_of(day);
            let m = month_of(day);
            let d = day_of_month(day);
            &&& 1 <= m <= 12
            &&& 1 <= d <= days_before_month(y, m + 1) - days_before_month(y, m)
            &&& first_day(y) + days_before_month(y, m) + d - 1 == day
        }),
        1 <= month <= 12 && 1 <= of_month <= days_before_month(year, month + 1) - days_before_month(
            year,
            month,
        ) && first_day(year) + days_before_month(year, month) + of_month - 1 == day ==> year
            == year_of(day) && month == month_of(day) && of_month == day_of_month(day),
{
    // A year early enough: each has 365 days at least.
    let early = if day >= 0 {
        1970
    } else {
        1970 + day
    };
    assert(first_day(early) <= day);
    lemma_some_year_from(day, early);
    let y = year_of(day);
    assert(first_day(y) <= day < first_day(y + 1));
    lemma_year_len(y);
    let passed = day - first_day(y);
    assert(exists|m: int|
        1 <= m <= 12 && #[trigger] days_before_month(y, m) <= passed < days_before_month(y, m + 1))
        by {
        let m: int = if passed < days_before_month(y, 2) {
            1
        } else if passed < days_before_month(y, 3) {
            2
        } else if passed < days_before_month(y, 4) {
            3
        } else if passed < days_before_month(y, 5) {
            4
        } else if passed < days_before_month(y, 6) {
            5
        } else if passed < days_before_month(y, 7) {
            6
        } else if passed < days_before_month(y, 8) {
            7
        } else if passed < days_before_month(y, 9) {
            8
        } else if passed < days_before_month(y, 10) {
            9
        } else if passed < days_before_month(y, 11) {
            10
        } else if passed < days_before_month(y, 12) {
            11
        } else {
            12
        };
        assert(days_before_month(y, m) <= passed < days_before_month(y, m + 1));
    }
    if 1 <= month <= 12 && 1 <= of_month <= days_before_month(year, month + 1) - days_before_month(
        year,
        month,
    ) && first_day(year) + days_before_month(year, month) + of_month - 1 == day {
        lemma_year_len(year);
        assert(first_day(year) <= day < first_day(year + 1));
        if year < y {
            lemma_years_in_order(year + 1, y);
        }
        if y < year {
            lemma_years_in_order(y + 1, year);
        }
    }
}

// ── Outside ─────────────────────────────────────────────────────────────

/// A second in UTC as text.
///
/// Calls `chrono::DateTime::from_timestamp`, which fails on the seconds before
/// the year -262143 and after the year 262142 only, and formats what it returns
/// with `chrono::DateTime::format`. The pattern of a time of day gives hours and
/// minutes in two digits each. The pattern of a date gives day and month in two
/// digits each and the year in four or more, of the Gregorian calendar; a year
/// before 0 or after 9999 has a sign.
#[verifier::external_body]
fn utc_format(timestamp: i64, pattern: &str) -> (r: Option<String>)
    requires
        pattern@ == "%H:%M"@ || pattern@ == "%d/%m/%Y"@,
    ensures
        r is Some <==> has_date(timestamp),
        r matches Some(t) ==> pattern@ == "%H:%M"@ ==> t@ == clock_text(timestamp as int),
        r matches Some(t) ==> pattern@ == "%d/%m/%Y"@ ==> t@ == date_text(timestamp as int),
{
    chrono::DateTime::<chrono::Utc>::from_timestamp(timestamp, 0)
        .map(|at| at.format(pattern).to_string())
}

/// The seconds since the Unix epoch now.
///
/// Calls `chrono::Utc::now`, which returns no time before the Unix epoch: it
/// panics where the clock of the machine shows one. Nothing else is known of
/// the time.
#[verifier::external_body]
fn utc_now() -> (now: i64)
    ensures
        0 <= now,
{
    chrono::Utc::now().timestamp()
}

// ── Names and labels ────────────────────────────────────────────────────

/// The name under which a sender is shown.
pub open spec fn shown_sender(current_login: Seq<char>, remote_login: Seq<char>) -> Seq<char> {
    if current_login == remote_login {
        "You"@
    } else {
        remote_login
    }
}

/// Resolve sender name for display.
pub fn resolve_sender(current_login: &str, remote_login: &str) -> (name: String)
    ensures
        name@ == shown_sender(current_login@, remote_login@),
{
    if same_text(current_login, remote_login) {
        "You".to_owned()
    } else {
        remote_login.to_owned()
    }
}

/// The time that stands in a message bubble.
pub open spec fn bubble_time(timestamp: i64) -> Seq<char> {
    if has_date(timestamp) {
        clock_text(timestamp as int)
    } else {
        "??:??"@
    }
}

/// Format a Unix timestamp as "HH:MM" for use inside chat message bubbles.
pub fn format_timestamp_bubble(timestamp: i64) -> (t: String)
    ensures
        t@ == bubble_time(timestamp),
{
    match utc_format(timestamp, TIME_PATTERN) {
        Some(t) => t,
        None => "??:??".to_owned(),
    }
}

/// The day that a second lies in.
pub fn day_of(timestamp: i64) -> (day: i64)
    ensures
        day == day_number(timestamp as int),
{
    if timestamp >= 0 {
        timestamp / SECONDS_PER_DAY
    } else {
        -((-(timestamp + 1)) / SECONDS_PER_DAY) - 1
    }
}

/// The label over the messages of a day, as seen at a given time: the day by
/// its name for today and yesterday, and by its date for any other. A time
/// without a date counts as today.
pub open spec fn separator_text(timestamp: i64, now: i64) -> Seq<char> {
    if !has_date(timestamp) || day_number(timestamp as int) == day_number(now as int) {
        "Today"@
    } else if day_number(timestamp as int) + 1 == day_number(now as int) {
        "Yesterday"@
    } else {
        date_text(timestamp as int)
    }
}

/// The label over the messages of a day, as seen at a given time.
pub fn date_separator_at(timestamp: i64, now: i64) -> (t: String)
    ensures
        t@ == separator_text(timestamp, now),
{
    match utc_format(timestamp, DATE_PATTERN) {
        Some(date) => {
            let day: i64 = day_of(timestamp);
            let today: i64 = day_of(now);
            if day == today {
                "Today".to_owned()
            } else if day + 1 == today {
                "Yesterday".to_owned()
            } else {
                date
            }
        },
        None => "Today".to_owned(),
    }
}

/// Return a date separator label for chat messages.
/// - "Today" if the timestamp is today
/// - "Yesterday" if the timestamp is yesterday
/// - "DD/MM/YYYY" for any other date
pub fn format_date_separator(timestamp: i64) -> (t: String)
    ensures
        exists|now: i64| 0 <= now && t@ == #[trigger] separator_text(timestamp, now),
        !has_date(timestamp) ==> t@ == "Today"@,
        has_date(timestamp) && timestamp < -86_400 ==> t@ == date_text(timestamp as int),
{
    let now: i64 = utc_now();
    date_separator_at(timestamp, now)
}

} // verus!
