//! Dates and times of day, as they are written to the log and read back, and the
//! clock and time zone of the machine.

use crate::number::{decimal, decimal_is_digits, decimal_of, decimal_padded, zero_padded};
use chrono::{Datelike, TimeZone, Timelike};
use vstd::prelude::*;

verus! {

/// A date and a time of day without a time zone.
#[derive(Debug, Clone, Copy, PartialEq, Eq, Structural)]
pub struct CivilTime {
    pub year: i32,
    pub month: u32,
    pub day: u32,
    pub hour: u32,
    pub minute: u32,
    pub second: u32,
}

pub open spec fn is_leap_year(year: int) -> bool {
    year % 4 == 0 && (year % 100 != 0 || year % 400 == 0)
}

pub open spec fn days_in_month(year: int, month: int) -> int {
    if month == 2 {
        if is_leap_year(year) {
            29
        } else {
            28
        }
    } else if month == 4 || month == 6 || month == 9 || month == 11 {
        30
    } else {
        31
    }
}

impl CivilTime {
    /// Whether the date is in the calendar and the time in the day.
    pub open spec fn is_valid(self) -> bool {
        &&& is_date(self.year as int, self.month as int, self.day as int)
        &&& self.hour < 24
        &&& self.minute < 60
        &&& self.second < 60
    }
}

/// The number of nanoseconds in a second.
pub const SECOND_NANOS: u32 = 1_000_000_000;

/// A date and a time of day to the nanosecond, without a time zone. The nanoseconds count on
/// beyond the second in a leap second, which follows the last second of a minute.
#[derive(Debug, Clone, Copy, PartialEq, Eq, Structural)]
pub struct WallTime {
    pub civil: CivilTime,
    pub nanos: u32,
}

impl WallTime {
    /// Whether the date is in the calendar, and the time in the day or a leap second of it.
    pub open spec fn is_valid(self) -> bool {
        self.civil.is_valid() && (self.nanos < SECOND_NANOS || (self.nanos < 2 * SECOND_NANOS
            && self.civil.second == 59))
    }

    /// Whether the year is one of those that `chrono::NaiveDate` covers.
    pub open spec fn has_chrono_year(self) -> bool {
        FIRST_YEAR <= self.civil.year <= LAST_YEAR
    }

    /// The time without what goes beyond whole seconds.
    pub open spec fn on_the_second(self) -> WallTime {
        WallTime { nanos: (self.nanos / SECOND_NANOS * SECOND_NANOS) as u32, ..self }
    }
}

/// A time in a time zone: what a clock on the wall shows there, and by how many seconds it
/// is ahead of universal time.
#[derive(Debug, Clone, Copy, PartialEq, Eq, Structural)]
pub struct LocalTime {
    pub wall: WallTime,
    pub offset: i32,
}

/// A year of at least four digits, with a sign where it has more or is negative.
pub open spec fn year_text(year: i32) -> Seq<char> {
    if 0 <= year <= 9999 {
        zero_padded(decimal(year as nat), 4)
    } else if year > 9999 {
        "+"@ + decimal(year as nat)
    } else {
        "-"@ + zero_padded(decimal((-year) as nat), 4)
    }
}

pub open spec fn two_digits(n: u32) -> Seq<char> {
    zero_padded(decimal(n as nat), 2)
}

/// A time in the form `2024-01-31 09:05:00`. A leap second is second 60.
pub open spec fn time_text(t: WallTime) -> Seq<char> {
    year_text(t.civil.year) + "-"@ + two_digits(t.civil.month) + "-"@ + two_digits(t.civil.day)
        + " "@ + two_digits(t.civil.hour) + ":"@ + two_digits(t.civil.minute) + ":"@ + zero_padded(
        decimal((t.civil.second + t.nanos / SECOND_NANOS) as nat),
        2,
    )
}

fn year_string(year: i32) -> (r: String)
    ensures
        r@ == year_text(year),
{
    if year >= 0 && year <= 9999 {
        decimal_padded(year as u64, 4)
    } else if year > 9999 {
        "+".to_string().concat(decimal_of(year as u64).as_str())
    } else {
        let n: u64 = (-(year as i64)) as u64;
        "-".to_string().concat(decimal_padded(n, 4).as_str())
    }
}

/// A time in the form `2024-01-31 09:05:00`. A leap second is second 60.
pub fn time_string(t: &WallTime) -> (r: String)
    ensures
        r@ == time_text(*t),
{
    let second: u64 = t.civil.second as u64 + (t.nanos / SECOND_NANOS) as u64;
    year_string(t.civil.year).concat("-").concat(
        decimal_padded(t.civil.month as u64, 2).as_str(),
    ).concat("-").concat(decimal_padded(t.civil.day as u64, 2).as_str()).concat(" ").concat(
        decimal_padded(t.civil.hour as u64, 2).as_str(),
    ).concat(":").concat(decimal_padded(t.civil.minute as u64, 2).as_str()).concat(":").concat(
        decimal_padded(second, 2).as_str(),
    )
}

/// The form of times in the log.
pub const TIME_FORMAT: &'static str = "%Y-%m-%d %H:%M:%S";

/// The date and time that `chrono::NaiveDateTime::parse_from_str` reads from a text
/// by a format.
pub uninterp spec fn parsed_time(text: Seq<char>, format: Seq<char>) -> Option<WallTime>;

/// Calls `chrono::NaiveDateTime::parse_from_str` and takes the result's fields.
/// The outcome depends on the text and the format alone; and a valid time of any year
/// of `chrono::NaiveDate` is read back to the second from the text in which it is written:
/// years beyond four digits and before the year 0 carry a sign, by which they are read
/// whole, and second 60 is read as a leap second.
#[verifier::external_body]
fn parse_wall_time(text: &str, format: &str) -> (r: Option<WallTime>)
    ensures
        r == parsed_time(text@, format@),
        r matches Some(t) ==> t.is_valid(),
        forall|t: WallTime|
            t.is_valid() && t.has_chrono_year() && format@ == TIME_FORMAT@ && text@
                == #[trigger] time_text(t) ==> r == Some(t.on_the_second()),
{
    let t = chrono::NaiveDateTime::parse_from_str(text, format).ok()?;
    let civil = CivilTime {
        year: t.year(),
        month: t.month(),
        day: t.day(),
        hour: t.hour(),
        minute: t.minute(),
        second: t.second(),
    };
    Some(WallTime { civil, nanos: t.nanosecond() })
}

/// The time in a text of the log.
pub fn parse_time(text: &str) -> (r: Option<WallTime>)
    ensures
        r == parsed_time(text@, TIME_FORMAT@),
        r matches Some(t) ==> t.is_valid(),
        forall|t: WallTime|
            t.is_valid() && t.has_chrono_year() && text@ == #[trigger] time_text(t) ==> r == Some(
                t.on_the_second(),
            ),
{
    parse_wall_time(text, TIME_FORMAT)
}

/// Calls `chrono::Local.from_local_datetime` for the seconds by which the machine's time
/// zone is ahead of universal time when a clock there shows a time, the first time where it
/// shows it twice. Nothing is claimed of the answer.
#[verifier::external_body]
fn find_offset(t: &WallTime) -> (r: Option<i32>) {
    let c = &t.civil;
    let day = chrono::NaiveDate::from_ymd_opt(c.year, c.month, c.day)?;
    let wall = day.and_hms_nano_opt(c.hour, c.minute, c.second, t.nanos)?;
    chrono::Local.from_local_datetime(&wall).earliest().map(|m| m.offset().local_minus_utc())
}

/// By how many seconds the machine's time zone is ahead of universal time when a clock there
/// shows a time; none where none does. Nothing is claimed of the answer.
pub fn local_offset(t: WallTime) -> Option<i32> {
    find_offset(&t)
}

/// Calls `chrono::Local::now` and takes the fields of the time that it gives, which
/// is a valid one. Which time it is is left open.
#[verifier::external_body]
fn read_local_clock() -> (r: LocalTime)
    ensures
        r.wall.is_valid(),
{
    let t = chrono::Local::now();
    let civil = CivilTime {
        year: t.year(),
        month: t.month(),
        day: t.day(),
        hour: t.hour(),
        minute: t.minute(),
        second: t.second(),
    };
    let wall = WallTime { civil, nanos: t.nanosecond() };
    LocalTime { wall, offset: t.offset().local_minus_utc() }
}

/// The time by the machine's clock and time zone.
pub fn local_now() -> (r: LocalTime)
    ensures
        r.wall.is_valid(),
{
    read_local_clock()
}

/// A date and its day of the week, counted from Sunday.
#[derive(Debug, Clone, Copy, PartialEq, Eq, Structural)]
pub struct Day {
    pub year: i32,
    pub month: u32,
    pub day: u32,
    pub weekday: u32,
}

/// Whether there is such a date in the Gregorian calendar.
pub open spec fn is_date(year: int, month: int, day: int) -> bool {
    1 <= month <= 12 && 1 <= day <= days_in_month(year, month)
}

/// The number of days in the years before a year, from the first year on.
pub open spec fn days_before_year(year: int) -> int {
    365 * (year - 1) + (year - 1) / 4 - (year - 1) / 100 + (year - 1) / 400
}

/// The number of days in the months of a year before a month.
pub open spec fn days_before_month(year: int, month: int) -> int
    decreases month,
{
    if month <= 1 {
        0
    } else {
        days_before_month(year, month - 1) + days_in_month(year, month - 1)
    }
}

/// The number of a date: the first day of the first year, a Monday, has number one.
pub open spec fn day_number(year: int, month: int, day: int) -> int {
    days_before_year(year) + days_before_month(year, month) + day
}

/// The first and the last year of `chrono::NaiveDate`.
pub const FIRST_YEAR: i32 = -262143;

pub const LAST_YEAR: i32 = 262142;

impl Day {
    pub open spec fn number(self) -> int {
        day_number(self.year as int, self.month as int, self.day as int)
    }

    /// Whether there is such a date, and the day of the week is the one of the date.
    pub open spec fn is_valid(self) -> bool {
        is_date(self.year as int, self.month as int, self.day as int) && self.weekday
            == self.number() % 7
    }
}

/// Whether there is a date, and the day that comes `offset` days after it is not beyond
/// the years that are covered.
pub open spec fn has_day_after(year: i32, month: u32, day: u32, offset: u64) -> bool {
    &&& is_date(year as int, month as int, day as int)
    &&& FIRST_YEAR <= year <= LAST_YEAR
    &&& day_number(year as int, month as int, day as int) + offset <= day_number(
        LAST_YEAR as int,
        12,
        31,
    )
}

/// Calls `chrono::NaiveDate::from_ymd_opt` and `NaiveDate::checked_add_days`. There is a
/// result where the date exists and both it and the day that is looked for lie in the
/// years of `NaiveDate`; it is the day whose number is larger by the offset, with its day
/// of the week.
#[verifier::external_body]
fn add_days(year: i32, month: u32, day: u32, offset: u64) -> (r: Option<Day>)
    ensures
        r is Some <==> has_day_after(year, month, day, offset),
        r matches Some(d) ==> d.is_valid() && d.number() == day_number(
            year as int,
            month as int,
            day as int,
        ) + offset,
{
    let first = chrono::NaiveDate::from_ymd_opt(year, month, day)?;
    let d = first.checked_add_days(chrono::Days::new(offset))?;
    let weekday = d.weekday().num_days_from_sunday();
    Some(Day { year: d.year(), month: d.month(), day: d.day(), weekday })
}

proof fn lemma_year_length(year: int)
    ensures
        days_before_year(year + 1) == days_before_year(year) + days_before_month(year, 12) + 31,
{
    reveal_with_fuel(days_before_month, 13);
}

proof fn lemma_year_lengths(a: int, b: int)
    requires
        a < b,
    ensures
        days_before_year(b) >= days_before_year(a) + days_before_month(a, 12) + 31,
    decreases b - a,
{
    lemma_year_length(b - 1);
    if a + 1 < b {
        lemma_year_lengths(a, b - 1);
        reveal_with_fuel(days_before_month, 13);
    }
}

proof fn lemma_month_lengths(year: int, a: int, b: int)
    requires
        1 <= a < b,
    ensures
        days_before_month(year, b) >= days_before_month(year, a) + days_in_month(year, a),
        days_before_month(year, a) >= 0,
    decreases b,
{
    if a + 1 < b {
        lemma_month_lengths(year, a, b - 1);
    } else if a > 1 {
        lemma_month_lengths(year, a - 1, a);
    }
}

/// A date comes before another where its year, or else its month, or else its day does.
pub open spec fn date_before(
    year_a: int,
    month_a: int,
    day_a: int,
    year_b: int,
    month_b: int,
    day_b: int,
) -> bool {
    year_a < year_b || (year_a == year_b && (month_a < month_b || (month_a == month_b && day_a
        < day_b)))
}

/// Earlier dates have smaller numbers.
pub proof fn day_numbers_rise(
    year_a: int,
    month_a: int,
    day_a: int,
    year_b: int,
    month_b: int,
    day_b: int,
)
    requires
        is_date(year_a, month_a, day_a),
        is_date(year_b, month_b, day_b),
    ensures
        date_before(year_a, month_a, day_a, year_b, month_b, day_b) <==> day_number(
            year_a,
            month_a,
            day_a,
        ) < day_number(year_b, month_b, day_b),
{
    if date_before(year_a, month_a, day_a, year_b, month_b, day_b) {
        lemma_dates_rise(year_a, month_a, day_a, year_b, month_b, day_b);
    } else if date_before(year_b, month_b, day_b, year_a, month_a, day_a) {
        lemma_dates_rise(year_b, month_b, day_b, year_a, month_a, day_a);
    }
}

proof fn lemma_dates_rise(
    year_a: int,
    month_a: int,
    day_a: int,
    year_b: int,
    month_b: int,
    day_b: int,
)
    requires
        is_date(year_a, month_a, day_a),
        is_date(year_b, month_b, day_b),
        date_before(year_a, month_a, day_a, year_b, month_b, day_b),
    ensures
        day_number(year_a, month_a, day_a) < day_number(year_b, month_b, day_b),
{
    if year_a < year_b {
        lemma_year_lengths(year_a, year_b);
        if month_a < 12 {
            lemma_month_lengths(year_a, month_a, 12);
        }
        lemma_month_lengths(year_b, month_b, month_b + 1);
    } else if month_a < month_b {
        lemma_month_lengths(year_a, month_a, month_b);
    }
}

/// The day with a number.
pub open spec fn day_with_number(n: int) -> Day {
    choose|d: Day| d.is_valid() && d.number() == n
}

/// A day is told by its number.
pub proof fn day_has_its_number(d: Day)
    requires
        d.is_valid(),
    ensures
        day_with_number(d.number()) == d,
{
    let e = day_with_number(d.number());
    assert(e.is_valid() && e.number() == d.number());
    day_numbers_rise(
        d.year as int,
        d.month as int,
        d.day as int,
        e.year as int,
        e.month as int,
        e.day as int,
    );
    day_numbers_rise(
        e.year as int,
        e.month as int,
        e.day as int,
        d.year as int,
        d.month as int,
        d.day as int,
    );
}

proof fn lemma_next_day(d: Day) -> (next: Day)
    requires
        d.is_valid(),
        d.year < i32::MAX,
    ensures
        next.is_valid(),
        next.number() == d.number() + 1,
{
    let weekday: u32 = ((d.number() + 1) % 7) as u32;
    if d.day < days_in_month(d.year as int, d.month as int) {
        Day { day: (d.day + 1) as u32, weekday, ..d }
    } else if d.month < 12 {
        Day { month: (d.month + 1) as u32, day: 1, weekday, ..d }
    } else {
        lemma_year_length(d.year as int);
        Day { year: (d.year + 1) as i32, month: 1, day: 1, weekday }
    }
}

proof fn lemma_day_exists(year: i32, month: u32, day: u32, offset: u64) -> (d: Day)
    requires
        has_day_after(year, month, day, offset),
    ensures
        d.is_valid(),
        d.number() == day_number(year as int, month as int, day as int) + offset,
    decreases offset,
{
    let n: int = day_number(year as int, month as int, day as int);
    if offset == 0 {
        Day { year, month, day, weekday: (n % 7) as u32 }
    } else {
        let before = lemma_day_exists(year, month, day, (offset - 1) as u64);
        day_numbers_rise(
            before.year as int,
            before.month as int,
            before.day as int,
            LAST_YEAR as int,
            12,
            31,
        );
        lemma_next_day(before)
    }
}

/// The day that comes `offset` days after a date; none where there is no such date or
/// the day lies beyond the years that are covered.
pub open spec fn day_after(year: i32, month: u32, day: u32, offset: u64) -> Option<Day> {
    if has_day_after(year, month, day, offset) {
        Some(day_with_number(day_number(year as int, month as int, day as int) + offset))
    } else {
        None
    }
}

/// Days are counted by their numbers: the day after some days has a number that is
/// larger by as many.
pub proof fn days_are_counted(year: i32, month: u32, day: u32, offset: u64)
    ensures
        day_after(year, month, day, offset) is Some <==> has_day_after(year, month, day, offset),
        day_after(year, month, day, offset) matches Some(d) ==> d.is_valid() && d.number()
            == day_number(year as int, month as int, day as int) + offset,
{
    if has_day_after(year, month, day, offset) {
        let d = lemma_day_exists(year, month, day, offset);
        day_has_its_number(d);
    }
}

/// Whether a time comes before another.
pub open spec fn time_before(a: CivilTime, b: CivilTime) -> bool {
    ||| date_before(
        a.year as int,
        a.month as int,
        a.day as int,
        b.year as int,
        b.month as int,
        b.day as int,
    )
    ||| (a.year == b.year && a.month == b.month && a.day == b.day && clock_before(
        (a.hour, a.minute, a.second),
        (b.hour, b.minute, b.second),
    ))
}

/// Whether a time of day comes before another.
pub open spec fn clock_before(a: (u32, u32, u32), b: (u32, u32, u32)) -> bool {
    a.0 < b.0 || (a.0 == b.0 && (a.1 < b.1 || (a.1 == b.1 && a.2 < b.2)))
}

/// The day that comes `offset` days after a date.
pub fn find_day(year: i32, month: u32, day: u32, offset: u64) -> (r: Option<Day>)
    ensures
        r == day_after(year, month, day, offset),
        r matches Some(d) ==> d.is_valid() && d.number() == day_number(
            year as int,
            month as int,
            day as int,
        ) + offset,
{
    let r: Option<Day> = add_days(year, month, day, offset);
    proof {
        if let Some(d) = r {
            day_has_its_number(d);
        }
    }
    r
}

/// A moment by the machine's clock: the seconds since the epoch and the date in the
/// machine's time zone.
#[derive(Debug, Clone, Copy, PartialEq, Eq, Structural)]
pub struct LocalClock {
    pub seconds: i64,
    pub year: i32,
    pub month: u32,
    pub day: u32,
}

/// Calls `chrono::Local::now` and takes the seconds and the date, which is one of the
/// calendar. Which moment it is is left open.
#[verifier::external_body]
fn local_clock() -> (r: LocalClock)
    ensures
        is_date(r.year as int, r.month as int, r.day as int),
{
    let t = chrono::Local::now();
    LocalClock { seconds: t.timestamp(), year: t.year(), month: t.month(), day: t.day() }
}

/// The moment by the machine's clock and the date in its time zone. Which moment it is
/// is left open.
pub fn clock_now() -> (r: LocalClock)
    ensures
        is_date(r.year as int, r.month as int, r.day as int),
{
    local_clock()
}

/// Calls `chrono::Local.with_ymd_and_hms` for the seconds since the epoch at which
/// the machine's time zone has a time, where it has it exactly once. Nothing is
/// claimed of the answer.
#[verifier::external_body]
fn resolve_local(t: &CivilTime) -> (r: Option<i64>) {
    chrono::Local.with_ymd_and_hms(t.year, t.month, t.day, t.hour, t.minute, t.second)
        .single()
        .map(|moment| moment.timestamp())
}

/// The seconds since the epoch at which the machine's time zone has a time, where it has
/// it exactly once. Nothing is claimed of the answer.
pub fn moment_of(t: CivilTime) -> Option<i64> {
    resolve_local(&t)
}

proof fn lemma_padded_plain(n: nat, width: nat)
    ensures
        forall|i: int|
            0 <= i < zero_padded(decimal(n), width).len() ==> '0' <= #[trigger] zero_padded(
                decimal(n),
                width,
            )[i] <= '9',
{
    decimal_is_digits(n);
}

/// The text of a time holds no bracket.
pub proof fn time_text_has_no_bracket(t: WallTime)
    ensures
        forall|i: int| 0 <= i < time_text(t).len() ==> #[trigger] time_text(t)[i] != '[',
{
    reveal_strlit("-");
    reveal_strlit("+");
    reveal_strlit(":");
    reveal_strlit(" ");
    let c = t.civil;
    if c.year >= 0 {
        lemma_padded_plain(c.year as nat, 4);
        decimal_is_digits(c.year as nat);
    } else {
        lemma_padded_plain((-c.year) as nat, 4);
    }
    lemma_padded_plain(c.month as nat, 2);
    lemma_padded_plain(c.day as nat, 2);
    lemma_padded_plain(c.hour as nat, 2);
    lemma_padded_plain(c.minute as nat, 2);
    lemma_padded_plain((c.second + t.nanos / SECOND_NANOS) as nat, 2);
}

/// The day after a day has the next number, over the ends of months and years, and with it
/// the next weekday.
pub proof fn next_day_has_the_next_number(year: int, month: int, day: int)
    requires
        is_date(year, month, day),
    ensures
        is_date(year, month, day + 1) ==> day_number(year, month, day + 1) == day_number(
            year,
            month,
            day,
        ) + 1,
        !is_date(year, month, day + 1) && month < 12 ==> day_number(year, month + 1, 1)
            == day_number(year, month, day) + 1,
        !is_date(year, month, day + 1) && month == 12 ==> day_number(year + 1, 1, 1) == day_number(
            year,
            month,
            day,
        ) + 1,
{
    if month == 12 {
        lemma_year_length(year);
        assert(days_before_month(year + 1, 1) == 0);
    } else {
        assert(days_before_month(year, month + 1) == days_before_month(year, month) + days_in_month(
            year,
            month,
        ));
    }
}

} // verus!
