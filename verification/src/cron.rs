//! Cron expressions: which times they name, and the next of them.

use crate::calendar::{
    clock_before, day_after, day_has_its_number, day_number, day_numbers_rise, days_are_counted,
    clock_now, find_day, has_day_after, is_date, moment_of, time_before, CivilTime, Day,
    LocalClock,
};
use crate::number::{decimal, decimal_is_digits, decimal_reads_back, parse_u32, u32_in};
use crate::text::{
    chars_eq, chars_of, cut, lemma_index_of, pieces, split, split_at_char, split_once, split_white, trim, trimmed,
    words,
};
use vstd::prelude::*;

verus! {

/// Every `step`-th number from `first` to `last`.
#[derive(Debug, Clone, Copy, PartialEq, Eq, Structural)]
pub struct CronRange {
    pub first: u32,
    pub last: u32,
    pub step: u32,
}

impl CronRange {
    pub open spec fn has(self, x: u32) -> bool {
        self.first <= x <= self.last && (x - self.first) % (self.step as int) == 0
    }

    fn contains(&self, x: u32) -> (r: bool)
        requires
            self.step > 0,
        ensures
            r == self.has(x),
    {
        self.first <= x && x <= self.last && (x - self.first) % self.step == 0
    }
}

/// The bounds of a range without its step: `*`, `first-last` or a single number.
pub open spec fn cron_bounds(text: Seq<char>, min: u32, max: u32) -> Option<(u32, u32)> {
    if text == "*"@ {
        Some((min, max))
    } else {
        match cut(text, '-') {
            Some((a, b)) => match (u32_in(a), u32_in(b)) {
                (Some(first), Some(last)) => Some((first, last)),
                _ => None,
            },
            None => match u32_in(text) {
                Some(n) => Some((n, n)),
                None => None,
            },
        }
    }
}

/// A range within limits, if it is one.
pub open spec fn range_within(bounds: Option<(u32, u32)>, step: u32, min: u32, max: u32) -> Option<
    CronRange,
> {
    match bounds {
        Some((first, last)) => if step > 0 && min <= first <= last <= max {
            Some(CronRange { first, last, step })
        } else {
            None
        },
        None => None,
    }
}

/// What a part of a field between commas stands for.
pub open spec fn cron_range(part: Seq<char>, min: u32, max: u32) -> Option<CronRange> {
    let text = trimmed(part);
    if text.len() == 0 {
        None
    } else {
        match cut(text, '/') {
            Some((bounds, step)) => match u32_in(step) {
                Some(n) => range_within(cron_bounds(bounds, min, max), n, min, max),
                None => None,
            },
            None => range_within(cron_bounds(text, min, max), 1, min, max),
        }
    }
}

/// Whether every part of a field can be read.
pub open spec fn is_cron_field(field: Seq<char>, min: u32, max: u32) -> bool {
    forall|i: int|
        0 <= i < split_at_char(field, ',').len() ==> cron_range(
            #[trigger] split_at_char(field, ',')[i],
            min,
            max,
        ) is Some
}

/// Whether a field names a number.
pub open spec fn cron_names(field: Seq<char>, min: u32, max: u32, x: u32) -> bool {
    exists|i: int|
        0 <= i < split_at_char(field, ',').len() && (cron_range(
            #[trigger] split_at_char(field, ',')[i],
            min,
            max,
        ) matches Some(r) && r.has(x))
}

/// Whether numbers rise from each to the next.
pub open spec fn increasing(v: Seq<u32>) -> bool {
    forall|i: int, j: int| 0 <= i < j < v.len() ==> v[i] < v[j]
}

/// Whether a list holds the numbers that a field names, each once and in order.
pub open spec fn lists_field(v: Seq<u32>, field: Seq<char>, min: u32, max: u32) -> bool {
    &&& is_cron_field(field, min, max)
    &&& increasing(v)
    &&& forall|x: u32| #[trigger] v.contains(x) <==> cron_names(field, min, max, x)
}

fn read_bounds(text: &[char], min: u32, max: u32) -> (r: Option<(u32, u32)>)
    ensures
        r == cron_bounds(text@, min, max),
{
    let star: Vec<char> = chars_of("*");
    if chars_eq(text, star.as_slice()) {
        return Some((min, max));
    }
    match split_once(text, '-') {
        Some((a, b)) => match (parse_u32(a), parse_u32(b)) {
            (Some(first), Some(last)) => Some((first, last)),
            _ => None,
        },
        None => match parse_u32(text) {
            Some(n) => Some((n, n)),
            None => None,
        },
    }
}

fn check_range(bounds: Option<(u32, u32)>, step: u32, min: u32, max: u32) -> (r: Option<CronRange>)
    ensures
        r == range_within(bounds, step, min, max),
{
    match bounds {
        Some((first, last)) => if step > 0 && min <= first && first <= last && last <= max {
            Some(CronRange { first, last, step })
        } else {
            None
        },
        None => None,
    }
}

fn read_range(part: &[char], min: u32, max: u32) -> (r: Option<CronRange>)
    ensures
        r == cron_range(part@, min, max),
{
    let text: &[char] = trim(part);
    if text.len() == 0 {
        return None;
    }
    match split_once(text, '/') {
        Some((bounds, step)) => match parse_u32(step) {
            Some(n) => check_range(read_bounds(bounds, min, max), n, min, max),
            None => None,
        },
        None => check_range(read_bounds(text, min, max), 1, min, max),
    }
}

fn in_any(ranges: &Vec<CronRange>, x: u32) -> (r: bool)
    requires
        forall|i: int| 0 <= i < ranges@.len() ==> (#[trigger] ranges@[i]).step > 0,
    ensures
        r == (exists|i: int| 0 <= i < ranges@.len() && (#[trigger] ranges@[i]).has(x)),
{
    let mut i: usize = 0;
    while i < ranges.len()
        invariant
            i <= ranges@.len(),
            forall|k: int| 0 <= k < ranges@.len() ==> (#[trigger] ranges@[k]).step > 0,
            forall|k: int| 0 <= k < i ==> !(#[trigger] ranges@[k]).has(x),
        decreases ranges@.len() - i,
    {
        if ranges[i].contains(x) {
            return true;
        }
        i = i + 1;
    }
    false
}

/// The numbers that a field names, each once and in order; none where a part of the
/// field cannot be read or is beyond the limits.
pub fn parse_cron_field(field: &[char], min: u32, max: u32) -> (r: Option<Vec<u32>>)
    ensures
        r is Some <==> is_cron_field(field@, min, max),
        r matches Some(v) ==> lists_field(v@, field@, min, max),
{
    let ghost all = split_at_char(field@, ',');
    let parts: Vec<&[char]> = split(field, ',');
    let mut ranges: Vec<CronRange> = Vec::new();
    let mut i: usize = 0;
    while i < parts.len()
        invariant
            i <= parts@.len(),
            pieces(parts@) == all,
            all == split_at_char(field@, ','),
            ranges@.len() == i,
            forall|k: int|
                0 <= k < i ==> cron_range(#[trigger] all[k], min, max) == Some(ranges@[k]),
        decreases parts@.len() - i,
    {
        assert(all[i as int] == parts@[i as int]@);
        match read_range(parts[i], min, max) {
            Some(range) => {
                ranges.push(range);
            },
            None => {
                return None;
            },
        }
        i = i + 1;
    }
    assert(all.len() == parts@.len());
    assert forall|k: int| 0 <= k < ranges@.len() implies (#[trigger] ranges@[k]).step > 0
        && ranges@[k].last <= max && min <= ranges@[k].first by {
        assert(cron_range(all[k], min, max) == Some(ranges@[k]));
    }
    let mut out: Vec<u32> = Vec::new();
    let mut x: u64 = min as u64;
    while x <= max as u64
        invariant
            min <= x,
            x <= max + 1 || out@.len() == 0,
            ranges@.len() == all.len(),
            all == split_at_char(field@, ','),
            forall|k: int|
                0 <= k < all.len() ==> cron_range(#[trigger] all[k], min, max) == Some(ranges@[k]),
            forall|k: int| 0 <= k < ranges@.len() ==> (#[trigger] ranges@[k]).step > 0,
            increasing(out@),
            forall|y: u32| #[trigger]
                out@.contains(y) <==> min <= y < x && cron_names(field@, min, max, y),
        decreases max + 1 - x,
    {
        let n: u32 = x as u32;
        let named: bool = in_any(&ranges, n);
        proof {
            if named {
                let k = choose|k: int| 0 <= k < ranges@.len() && (#[trigger] ranges@[k]).has(n);
                assert(cron_range(all[k], min, max) == Some(ranges@[k]));
                assert(cron_names(field@, min, max, n));
            } else if cron_names(field@, min, max, n) {
                let k = choose|k: int|
                    0 <= k < all.len() && (cron_range(#[trigger] all[k], min, max) matches Some(
                        r,
                    ) && r.has(n));
                assert(ranges@[k].has(n));
            }
        }
        let ghost before = out@;
        if named {
            proof {
                assert forall|i: int| 0 <= i < before.len() implies before[i] < n by {
                    assert(before.contains(before[i]));
                }
            }
            out.push(n);
            assert(out@[before.len() as int] == n);
        }
        proof {
            assert forall|y: u32| #[trigger]
                out@.contains(y) <==> min <= y < x + 1 && cron_names(field@, min, max, y) by {
                if before.contains(y) {
                    let k = choose|k: int| 0 <= k < before.len() && before[k] == y;
                    assert(out@[k] == y);
                }
                if out@.contains(y) && !before.contains(y) {
                    let k = choose|k: int| 0 <= k < out@.len() && out@[k] == y;
                    if k < before.len() {
                        assert(before[k] == y);
                    }
                    assert(y == n);
                }
            }
        }
        x = x + 1;
    }
    proof {
        assert forall|y: u32| #[trigger] out@.contains(y) <==> cron_names(field@, min, max, y) by {
            if cron_names(field@, min, max, y) {
                let k = choose|k: int|
                    0 <= k < all.len() && (cron_range(#[trigger] all[k], min, max) matches Some(
                        r,
                    ) && r.has(y));
                assert(min <= y <= max);
            }
        }
    }
    Some(out)
}

/// What a field names lies within its limits.
pub proof fn cron_field_is_bounded(v: Seq<u32>, field: Seq<char>, min: u32, max: u32)
    requires
        lists_field(v, field, min, max),
    ensures
        forall|i: int| 0 <= i < v.len() ==> min <= #[trigger] v[i] <= max,
{
    assert forall|i: int| 0 <= i < v.len() implies min <= #[trigger] v[i] <= max by {
        assert(v.contains(v[i]));
        let all = split_at_char(field, ',');
        let k = choose|k: int|
            0 <= k < all.len() && (cron_range(#[trigger] all[k], min, max) matches Some(r) && r.has(
                v[i],
            ));
        assert(cron_range(all[k], min, max) is Some);
    }
}

/// A cron expression: the numbers that each of its fields names.
#[derive(Debug)]
pub struct CronSpec {
    pub seconds: Vec<u32>,
    pub minutes: Vec<u32>,
    pub hours: Vec<u32>,
    pub days: Vec<u32>,
    pub months: Vec<u32>,
    pub weekdays: Vec<u32>,
}

/// The six fields of an expression; the seconds may be left out and are then zero.
pub open spec fn cron_fields(expr: Seq<char>) -> Option<Seq<Seq<char>>> {
    if words(expr).len() == 5 {
        Some(seq!["0"@] + words(expr))
    } else if words(expr).len() == 6 {
        Some(words(expr))
    } else {
        None
    }
}

/// Whether an expression can be read.
pub open spec fn is_cron(expr: Seq<char>) -> bool {
    match cron_fields(expr) {
        Some(f) => {
            &&& is_cron_field(f[0], 0, 59)
            &&& is_cron_field(f[1], 0, 59)
            &&& is_cron_field(f[2], 0, 23)
            &&& is_cron_field(f[3], 1, 31)
            &&& is_cron_field(f[4], 1, 12)
            &&& is_cron_field(f[5], 0, 7)
        },
        None => false,
    }
}

impl CronSpec {
    /// Whether the fields hold what an expression names.
    pub open spec fn reads(self, expr: Seq<char>) -> bool {
        match cron_fields(expr) {
            Some(f) => {
                &&& lists_field(self.seconds@, f[0], 0, 59)
                &&& lists_field(self.minutes@, f[1], 0, 59)
                &&& lists_field(self.hours@, f[2], 0, 23)
                &&& lists_field(self.days@, f[3], 1, 31)
                &&& lists_field(self.months@, f[4], 1, 12)
                &&& lists_field(self.weekdays@, f[5], 0, 7)
            },
            None => false,
        }
    }

    /// Reads an expression of five or six fields.
    pub fn parse(expr: &str) -> (r: Option<CronSpec>)
        ensures
            r is Some <==> is_cron(expr@),
            r matches Some(c) ==> c.reads(expr@),
    {
        let chars: Vec<char> = chars_of(expr);
        let zero: Vec<char> = chars_of("0");
        let mut fields: Vec<&[char]> = split_white(chars.as_slice());
        let ghost found = pieces(fields@);
        assert(found.len() == fields@.len());
        if fields.len() == 5 {
            fields.insert(0, zero.as_slice());
            assert(pieces(fields@) =~= seq!["0"@] + found);
        } else if fields.len() != 6 {
            return None;
        }
        let ghost f = pieces(fields@);
        assert(cron_fields(expr@) == Some(f));
        assert(forall|i: int| 0 <= i < 6 ==> f[i] == #[trigger] fields@[i]@);
        Some(
            CronSpec {
                seconds: parse_cron_field(fields[0], 0, 59)?,
                minutes: parse_cron_field(fields[1], 0, 59)?,
                hours: parse_cron_field(fields[2], 0, 23)?,
                days: parse_cron_field(fields[3], 1, 31)?,
                months: parse_cron_field(fields[4], 1, 12)?,
                weekdays: parse_cron_field(fields[5], 0, 7)?,
            },
        )
    }

    /// Whether the expression names a date; Sunday is both day 0 and day 7.
    pub open spec fn names_date(self, month: u32, day: u32, weekday: u32) -> bool {
        &&& self.months@.contains(month)
        &&& self.days@.contains(day)
        &&& self.weekdays@.contains(weekday) || (weekday == 0 && self.weekdays@.contains(7))
    }

    /// Whether the expression names a date.
    pub fn matches_date(&self, month: u32, day: u32, weekday: u32) -> (r: bool)
        ensures
            r == self.names_date(month, day, weekday),
    {
        let weekday_matches: bool = holds(&self.weekdays, weekday) || (weekday == 0 && holds(
            &self.weekdays,
            7,
        ));
        holds(&self.months, month) && holds(&self.days, day) && weekday_matches
    }
}

fn holds(list: &Vec<u32>, x: u32) -> (r: bool)
    ensures
        r == list@.contains(x),
{
    let mut i: usize = 0;
    while i < list.len()
        invariant
            i <= list@.len(),
            forall|k: int| 0 <= k < i ==> list@[k] != x,
        decreases list@.len() - i,
    {
        if list[i] == x {
            return true;
        }
        i = i + 1;
    }
    false
}

/// Two expressions that differ only in writing Sunday as 0 or as 7 name the same
/// dates.
pub proof fn sunday_is_zero_or_seven(a: CronSpec, b: CronSpec, month: u32, day: u32, weekday: u32)
    requires
        a.months@ == b.months@,
        a.days@ == b.days@,
        weekday < 7,
        forall|x: u32| 0 < x < 7 ==> (a.weekdays@.contains(x) <==> b.weekdays@.contains(x)),
        a.weekdays@.contains(0) || a.weekdays@.contains(7) <==> b.weekdays@.contains(0)
            || b.weekdays@.contains(7),
    ensures
        a.names_date(month, day, weekday) == b.names_date(month, day, weekday),
{
}

proof fn lemma_number_field(n: u32)
    ensures
        split_at_char(decimal(n as nat), ',') == seq![decimal(n as nat)],
        trimmed(decimal(n as nat)) == decimal(n as nat),
        cut(decimal(n as nat), '/') is None,
        cut(decimal(n as nat), '-') is None,
        decimal(n as nat) != "*"@,
        u32_in(decimal(n as nat)) == Some(n),
{
    let d = decimal(n as nat);
    decimal_is_digits(n as nat);
    reveal_strlit("*");
    assert("*"@[0] == '*');
    assert('0' <= d[0] <= '9' && '0' <= d[d.len() - 1] <= '9');
    lemma_index_of(d, ',');
    lemma_index_of(d, '/');
    lemma_index_of(d, '-');
    decimal_reads_back(n as nat, 0xffff_ffff);
}

/// A field that is a plain number names that number alone.
pub proof fn number_field_names_itself(v: Seq<u32>, n: u32, min: u32, max: u32)
    requires
        lists_field(v, decimal(n as nat), min, max),
    ensures
        forall|x: u32| #[trigger] v.contains(x) <==> x == n,
{
    let field = decimal(n as nat);
    lemma_number_field(n);
    assert(split_at_char(field, ',')[0] == field);
    assert(cron_range(field, min, max) == Some(CronRange { first: n, last: n, step: 1 }));
    assert forall|x: u32| #[trigger] v.contains(x) <==> x == n by {
        assert((CronRange { first: n, last: n, step: 1 }).has(n));
        assert(cron_names(field, min, max, n));
        assert(v.contains(n));
        if v.contains(x) {
            assert(cron_names(field, min, max, x));
        }
    }
}

/// A field that is an asterisk names every number within its limits.
pub proof fn asterisk_names_all(v: Seq<u32>, min: u32, max: u32)
    requires
        lists_field(v, "*"@, min, max),
    ensures
        forall|x: u32| #[trigger] v.contains(x) <==> min <= x <= max,
{
    let field = "*"@;
    reveal_strlit("*");
    assert(field.len() == 1 && field[0] == '*');
    lemma_index_of(field, ',');
    lemma_index_of(field, '/');
    assert(trimmed(field) == field);
    assert(split_at_char(field, ',')[0] == field);
    assert(cron_range(field, min, max) == Some(CronRange { first: min, last: max, step: 1 }));
    assert forall|x: u32| #[trigger] v.contains(x) <==> min <= x <= max by {
        if min <= x <= max {
            assert((CronRange { first: min, last: max, step: 1 }).has(x));
            assert(cron_names(field, min, max, x));
        }
        if v.contains(x) {
            assert(cron_names(field, min, max, x));
        }
    }
}

/// Whether an expression is for Sundays, by either number of that day.
pub open spec fn is_for_sundays(expr: Seq<char>) -> bool {
    cron_fields(expr) matches Some(f) && (f[5] == decimal(0) || f[5] == decimal(7))
}

/// An expression for Sundays names the Sundays among the days and months that it names,
/// whichever number of that day it uses.
pub proof fn sundays_are_named_by_either_number(
    c: CronSpec,
    expr: Seq<char>,
    month: u32,
    day: u32,
    weekday: u32,
)
    requires
        c.reads(expr),
        is_for_sundays(expr),
        weekday < 7,
    ensures
        c.names_date(month, day, weekday) <==> (c.months@.contains(month) && c.days@.contains(day)
            && weekday == 0),
{
    let f = cron_fields(expr)->0;
    if f[5] == decimal(0) {
        number_field_names_itself(c.weekdays@, 0, 0, 7);
    } else {
        number_field_names_itself(c.weekdays@, 7, 0, 7);
    }
}

/// An expression for Sundays that leaves day and month open names every Sunday and no other
/// date, so that two such expressions name the same dates.
pub proof fn every_sunday_is_named(
    c: CronSpec,
    expr: Seq<char>,
    month: u32,
    day: u32,
    weekday: u32,
)
    requires
        c.reads(expr),
        is_for_sundays(expr),
        cron_fields(expr)->0[3] == "*"@,
        cron_fields(expr)->0[4] == "*"@,
        1 <= month <= 12,
        1 <= day <= 31,
        weekday < 7,
    ensures
        c.names_date(month, day, weekday) <==> weekday == 0,
{
    sundays_are_named_by_either_number(c, expr, month, day, weekday);
    asterisk_names_all(c.days@, 1, 31);
    asterisk_names_all(c.months@, 1, 12);
}

/// The times of an hour and a minute.
pub open spec fn times_of_minute(hour: u32, minute: u32, seconds: Seq<u32>) -> Seq<
    (u32, u32, u32),
> {
    seconds.map_values(|second: u32| (hour, minute, second))
}

/// The times of an hour, minute by minute.
pub open spec fn times_of_hour(hour: u32, minutes: Seq<u32>, seconds: Seq<u32>) -> Seq<
    (u32, u32, u32),
>
    decreases minutes.len(),
{
    if minutes.len() == 0 {
        Seq::empty()
    } else {
        times_of_hour(hour, minutes.drop_last(), seconds) + times_of_minute(
            hour,
            minutes.last(),
            seconds,
        )
    }
}

/// The times of a day, hour by hour.
pub open spec fn times_of_day(hours: Seq<u32>, minutes: Seq<u32>, seconds: Seq<u32>) -> Seq<
    (u32, u32, u32),
>
    decreases hours.len(),
{
    if hours.len() == 0 {
        Seq::empty()
    } else {
        times_of_day(hours.drop_last(), minutes, seconds) + times_of_hour(
            hours.last(),
            minutes,
            seconds,
        )
    }
}

/// A time of day on a date.
pub open spec fn time_on(d: Day, t: (u32, u32, u32)) -> CivilTime {
    CivilTime { year: d.year, month: d.month, day: d.day, hour: t.0, minute: t.1, second: t.2 }
}

/// How many days ahead an expression is looked at.
pub const CRON_DAYS: u64 = 367;

/// The number of days from `from` on that the calendar knows, up to the limit.
pub open spec fn known_days(year: i32, month: u32, day: u32, from: u64) -> u64
    decreases CRON_DAYS - from,
{
    if from >= CRON_DAYS || day_after(year, month, day, from) is None {
        from
    } else {
        known_days(year, month, day, (from + 1) as u64)
    }
}

impl CronSpec {
    pub open spec fn times(self) -> Seq<(u32, u32, u32)> {
        times_of_day(self.hours@, self.minutes@, self.seconds@)
    }

    /// The times that the expression names on a day.
    pub open spec fn times_on(self, d: Option<Day>) -> Seq<CivilTime> {
        match d {
            Some(d) => if self.names_date(d.month, d.day, d.weekday) {
                self.times().map_values(|t: (u32, u32, u32)| time_on(d, t))
            } else {
                Seq::empty()
            },
            None => Seq::empty(),
        }
    }

    /// The times that the expression names on the first `days` days from a date on.
    pub open spec fn times_within(self, year: i32, month: u32, day: u32, days: int) -> Seq<
        CivilTime,
    >
        decreases days,
    {
        if days <= 0 {
            Seq::empty()
        } else {
            self.times_within(year, month, day, days - 1) + self.times_on(
                day_after(year, month, day, (days - 1) as u64),
            )
        }
    }

    /// All times that are considered from a date on, in order.
    pub open spec fn candidates(self, year: i32, month: u32, day: u32) -> Seq<CivilTime> {
        self.times_within(year, month, day, known_days(year, month, day, 0) as int)
    }

    fn list_times(&self) -> (r: Vec<(u32, u32, u32)>)
        ensures
            r@ == self.times(),
    {
        let mut out: Vec<(u32, u32, u32)> = Vec::new();
        let mut i: usize = 0;
        assert(self.hours@.take(0) =~= Seq::<u32>::empty());
        while i < self.hours.len()
            invariant
                i <= self.hours@.len(),
                out@ == times_of_day(self.hours@.take(i as int), self.minutes@, self.seconds@),
            decreases self.hours@.len() - i,
        {
            let hour: u32 = self.hours[i];
            let ghost done = out@;
            let mut k: usize = 0;
            assert(self.minutes@.take(0) =~= Seq::<u32>::empty());
            assert(done + times_of_hour(hour, self.minutes@.take(0), self.seconds@) =~= done);
            while k < self.minutes.len()
                invariant
                    k <= self.minutes@.len(),
                    out@ == done + times_of_hour(hour, self.minutes@.take(k as int), self.seconds@),
                decreases self.minutes@.len() - k,
            {
                let minute: u32 = self.minutes[k];
                let ghost base = out@;
                let ghost want = times_of_minute(hour, minute, self.seconds@);
                let mut n: usize = 0;
                assert(base + want.take(0) =~= base);
                while n < self.seconds.len()
                    invariant
                        n <= self.seconds@.len(),
                        want == times_of_minute(hour, minute, self.seconds@),
                        out@ == base + want.take(n as int),
                    decreases self.seconds@.len() - n,
                {
                    out.push((hour, minute, self.seconds[n]));
                    assert(out@ =~= base + want.take(n + 1));
                    n = n + 1;
                }
                assert(want.take(n as int) =~= want);
                assert(self.minutes@.take(k + 1).drop_last() =~= self.minutes@.take(k as int));
                assert(self.minutes@.take(k + 1).last() == minute);
                assert(out@ =~= done + times_of_hour(
                    hour,
                    self.minutes@.take(k + 1),
                    self.seconds@,
                ));
                k = k + 1;
            }
            assert(self.minutes@.take(k as int) =~= self.minutes@);
            assert(self.hours@.take(i + 1).drop_last() =~= self.hours@.take(i as int));
            assert(self.hours@.take(i + 1).last() == hour);
            i = i + 1;
        }
        assert(self.hours@.take(i as int) =~= self.hours@);
        out
    }
}

/// Whether `answers` are what `resolve` may answer for each of `times`.
pub open spec fn answered<F: Fn(CivilTime) -> Option<i64>>(
    resolve: F,
    times: Seq<CivilTime>,
    answers: Seq<Option<i64>>,
) -> bool {
    answers.len() == times.len() && forall|i: int|
        0 <= i < times.len() ==> call_ensures(resolve, (times[i],), #[trigger] answers[i])
}

/// Whether an answer is a moment after `now`.
pub open spec fn is_later(answer: Option<i64>, now: i64) -> bool {
    answer matches Some(s) && s > now
}

/// Whether no answer is a moment after `now`.
pub open spec fn none_later(answers: Seq<Option<i64>>, now: i64) -> bool {
    forall|i: int| 0 <= i < answers.len() ==> !is_later(#[trigger] answers[i], now)
}

/// Whether a run is the first of `times` that `resolve` puts after `now`, and none
/// where there is no such time.
pub open spec fn is_next_run<F: Fn(CivilTime) -> Option<i64>>(
    run: Option<(CivilTime, i64)>,
    resolve: F,
    times: Seq<CivilTime>,
    now: i64,
) -> bool {
    match run {
        Some((t, s)) => exists|answers: Seq<Option<i64>>|
            0 <= answers.len() < times.len() && t == times[answers.len() as int] && s > now
                && call_ensures(resolve, (t,), Some(s)) && #[trigger] answered(
                resolve,
                times.take(answers.len() as int),
                answers,
            ) && none_later(answers, now),
        None => exists|answers: Seq<Option<i64>>| #[trigger]
            answered(resolve, times, answers) && none_later(answers, now),
    }
}

impl CronSpec {
    /// The first time after now that the expression names, looking a year ahead, and
    /// the moment at which it is; `resolve` tells the moment of a time of the time
    /// zone, where there is exactly one.
    pub fn next_after<F: Fn(CivilTime) -> Option<i64>>(&self, now: &LocalClock, resolve: F) -> (r:
        Option<(CivilTime, i64)>)
        requires
            forall|t: CivilTime| #[trigger] call_requires(resolve, (t,)),
        ensures
            is_next_run(
                r,
                resolve,
                self.candidates(now.year, now.month, now.day),
                now.seconds,
            ),
    {
        let times: Vec<(u32, u32, u32)> = self.list_times();
        let ghost all = self.candidates(now.year, now.month, now.day);
        let ghost last = known_days(now.year, now.month, now.day, 0);
        let ghost mut answers: Seq<Option<i64>> = Seq::empty();
        let mut offset: u64 = 0;
        assert(all.take(0) =~= Seq::<CivilTime>::empty());
        while offset < CRON_DAYS
            invariant
                forall|t: CivilTime| #[trigger] call_requires(resolve, (t,)),
                times@ == self.times(),
                all == self.candidates(now.year, now.month, now.day),
                last == known_days(now.year, now.month, now.day, 0),
                last == known_days(now.year, now.month, now.day, offset),
                offset <= CRON_DAYS,
                answered(
                    resolve,
                    self.times_within(now.year, now.month, now.day, offset as int),
                    answers,
                ),
                none_later(answers, now.seconds),
            decreases CRON_DAYS - offset,
        {
            let ghost before = self.times_within(now.year, now.month, now.day, offset as int);
            let found: Option<Day> = find_day(now.year, now.month, now.day, offset);
            match found {
                None => {
                    assert(last == offset);
                    assert(answered(resolve, all, answers));
                    return None;
                },
                Some(d) => {
                    let ghost after = self.times_within(now.year, now.month, now.day, offset + 1);
                    proof {
                        lemma_known_days(now.year, now.month, now.day, (offset + 1) as u64);
                        self.lemma_within(now.year, now.month, now.day, offset + 1, last as int);
                    }
                    if self.matches_date(d.month, d.day, d.weekday) {
                        let ghost named = self.times_on(found);
                        let mut k: usize = 0;
                        assert(before + named.take(0) =~= before);
                        while k < times.len()
                            invariant
                                forall|t: CivilTime| #[trigger] call_requires(resolve, (t,)),
                                times@ == self.times(),
                                all == self.candidates(now.year, now.month, now.day),
                                named == times@.map_values(|t: (u32, u32, u32)| time_on(d, t)),
                                after == before + named,
                                after.is_prefix_of(all),
                                k <= times@.len(),
                                answered(resolve, before + named.take(k as int), answers),
                                none_later(answers, now.seconds),
                            decreases times@.len() - k,
                        {
                            let t: CivilTime = CivilTime {
                                year: d.year,
                                month: d.month,
                                day: d.day,
                                hour: times[k].0,
                                minute: times[k].1,
                                second: times[k].2,
                            };
                            let ghost asked = before + named.take(k as int);
                            assert(t == named[k as int]);
                            assert(before + named.take(k + 1) =~= asked.push(t));
                            assert(asked =~= all.take(asked.len() as int));
                            assert(all[asked.len() as int] == after[asked.len() as int]);
                            assert(all[asked.len() as int] == t);
                            let answer: Option<i64> = resolve(t);
                            if let Some(s) = answer {
                                if s > now.seconds {
                                    assert(answered(
                                        resolve,
                                        all.take(answers.len() as int),
                                        answers,
                                    ));
                                    return Some((t, s));
                                }
                            }
                            proof {
                                let old_answers = answers;
                                answers = answers.push(answer);
                                assert forall|i: int|
                                    0 <= i < asked.push(t).len() implies call_ensures(
                                    resolve,
                                    (asked.push(t)[i],),
                                    #[trigger] answers[i],
                                ) by {
                                    if i < asked.len() {
                                        assert(answers[i] == old_answers[i]);
                                    }
                                }
                                assert forall|i: int| 0 <= i < answers.len() implies !is_later(
                                    #[trigger] answers[i],
                                    now.seconds,
                                ) by {
                                    if i < old_answers.len() {
                                        assert(answers[i] == old_answers[i]);
                                    }
                                }
                            }
                            k = k + 1;
                        }
                        assert(named.take(k as int) =~= named);
                        assert(before + named =~= after);
                    } else {
                        assert(after =~= before);
                    }
                },
            }
            offset = offset + 1;
        }
        assert(last == CRON_DAYS);
        assert(answered(resolve, all, answers));
        None
    }

    proof fn lemma_within(self, year: i32, month: u32, day: u32, few: int, many: int)
        requires
            0 <= few <= many,
        ensures
            self.times_within(year, month, day, few).is_prefix_of(
                self.times_within(year, month, day, many),
            ),
        decreases many,
    {
        if few < many {
            self.lemma_within(year, month, day, few, many - 1);
        }
    }
}

proof fn lemma_known_days(year: i32, month: u32, day: u32, from: u64)
    ensures
        known_days(year, month, day, from) >= from,
        from <= CRON_DAYS ==> known_days(year, month, day, from) <= CRON_DAYS,
    decreases CRON_DAYS - from,
{
    if from < CRON_DAYS && day_after(year, month, day, from) is Some {
        lemma_known_days(year, month, day, (from + 1) as u64);
    }
}

/// The next time that an expression names by the machine's clock and time zone, and
/// the moment at which it is; none where the expression cannot be read or names no
/// time within a year. The moment that is gone by is one that `clock_now` gives, and the
/// moments of the times are those that `moment_of` answers. What these say is left open.
pub fn next_run_from_cron(expr: &str) -> (r: Option<(CivilTime, i64)>)
    ensures
        !is_cron(expr@) ==> r is None,
        is_cron(expr@) ==> exists|c: CronSpec, now: LocalClock|
            c.reads(expr@) && call_ensures(clock_now, (), now) && is_date(
                now.year as int,
                now.month as int,
                now.day as int,
            ) && #[trigger] is_next_run(
                r,
                moment_of,
                c.candidates(now.year, now.month, now.day),
                now.seconds,
            ),
{
    match CronSpec::parse(expr) {
        None => None,
        Some(c) => {
            let now: LocalClock = clock_now();
            c.next_after(&now, moment_of)
        },
    }
}

proof fn lemma_zero_field()
    ensures
        split_at_char("0"@, ',') == seq!["0"@],
        cron_range("0"@, 0, 59) == Some(CronRange { first: 0, last: 0, step: 1 }),
{
    reveal_strlit("0");
    assert(decimal(0) =~= "0"@);
    lemma_number_field(0);
}

/// An expression of five fields runs at the first second of a minute.
pub proof fn five_fields_mean_second_zero(expr: Seq<char>, c: CronSpec)
    requires
        words(expr).len() == 5,
        c.reads(expr),
    ensures
        c.seconds@ == seq![0u32],
{
    lemma_zero_field();
    let f = cron_fields(expr)->0;
    assert(f[0] == "0"@);
    let v = c.seconds@;
    assert forall|x: u32| #[trigger] v.contains(x) <==> x == 0 by {
        assert(split_at_char(f[0], ',')[0] == "0"@);
        if v.contains(x) {
            assert(cron_names(f[0], 0, 59, x));
        }
        if x == 0 {
            assert((CronRange { first: 0, last: 0, step: 1 }).has(0));
            assert(cron_names(f[0], 0, 59, 0));
        }
    }
    assert(v.contains(0));
    let k = choose|k: int| 0 <= k < v.len() && v[k] == 0;
    assert(v.len() == 1) by {
        if v.len() > 1 {
            assert(v.contains(v[0]) && v.contains(v[1]));
            assert(v[0] < v[1]);
        }
    }
    assert(v =~= seq![0u32]);
}

proof fn lemma_times_of_hour(hour: u32, minutes: Seq<u32>, seconds: Seq<u32>, k: int)
    requires
        0 <= k < times_of_hour(hour, minutes, seconds).len(),
    ensures
        times_of_hour(hour, minutes, seconds)[k].0 == hour,
        minutes.contains(times_of_hour(hour, minutes, seconds)[k].1),
        seconds.contains(times_of_hour(hour, minutes, seconds)[k].2),
    decreases minutes.len(),
{
    let head = minutes.drop_last();
    let n = times_of_hour(hour, head, seconds).len();
    if k < n {
        lemma_times_of_hour(hour, head, seconds, k);
        let m = times_of_hour(hour, head, seconds)[k].1;
        let j = choose|j: int| 0 <= j < head.len() && head[j] == m;
        assert(minutes[j] == m);
    } else {
        assert(minutes[minutes.len() - 1] == minutes.last());
        assert(seconds[k - n] == times_of_hour(hour, minutes, seconds)[k].2);
    }
}

proof fn lemma_times_of_day(hours: Seq<u32>, minutes: Seq<u32>, seconds: Seq<u32>, k: int)
    requires
        0 <= k < times_of_day(hours, minutes, seconds).len(),
    ensures
        hours.contains(times_of_day(hours, minutes, seconds)[k].0),
        minutes.contains(times_of_day(hours, minutes, seconds)[k].1),
        seconds.contains(times_of_day(hours, minutes, seconds)[k].2),
    decreases hours.len(),
{
    let head = hours.drop_last();
    let n = times_of_day(head, minutes, seconds).len();
    if k < n {
        lemma_times_of_day(head, minutes, seconds, k);
        let h = times_of_day(head, minutes, seconds)[k].0;
        let j = choose|j: int| 0 <= j < head.len() && head[j] == h;
        assert(hours[j] == h);
    } else {
        lemma_times_of_hour(hours.last(), minutes, seconds, k - n);
        assert(hours[hours.len() - 1] == hours.last());
    }
}

proof fn lemma_hour_rises(hour: u32, minutes: Seq<u32>, seconds: Seq<u32>, i: int, j: int)
    requires
        increasing(minutes),
        increasing(seconds),
        0 <= i < j < times_of_hour(hour, minutes, seconds).len(),
    ensures
        clock_before(
            times_of_hour(hour, minutes, seconds)[i],
            times_of_hour(hour, minutes, seconds)[j],
        ),
    decreases minutes.len(),
{
    let all = times_of_hour(hour, minutes, seconds);
    let head = minutes.drop_last();
    let n: int = times_of_hour(hour, head, seconds).len() as int;
    if j < n {
        lemma_hour_rises(hour, head, seconds, i, j);
    } else if i >= n {
        assert(all[i] == (hour, minutes.last(), seconds[i - n]));
        assert(all[j] == (hour, minutes.last(), seconds[j - n]));
    } else {
        lemma_times_of_hour(hour, head, seconds, i);
        let m = choose|m: int| 0 <= m < head.len() && head[m] == all[i].1;
        assert(minutes[m] < minutes[minutes.len() - 1]);
        assert(all[j] == (hour, minutes.last(), seconds[j - n]));
    }
}

proof fn lemma_day_rises(hours: Seq<u32>, minutes: Seq<u32>, seconds: Seq<u32>, i: int, j: int)
    requires
        increasing(hours),
        increasing(minutes),
        increasing(seconds),
        0 <= i < j < times_of_day(hours, minutes, seconds).len(),
    ensures
        clock_before(
            times_of_day(hours, minutes, seconds)[i],
            times_of_day(hours, minutes, seconds)[j],
        ),
    decreases hours.len(),
{
    let all = times_of_day(hours, minutes, seconds);
    let head = hours.drop_last();
    let n: int = times_of_day(head, minutes, seconds).len() as int;
    if j < n {
        lemma_day_rises(head, minutes, seconds, i, j);
    } else if i >= n {
        lemma_hour_rises(hours.last(), minutes, seconds, i - n, j - n);
    } else {
        lemma_times_of_day(head, minutes, seconds, i);
        let m = choose|m: int| 0 <= m < head.len() && head[m] == all[i].0;
        assert(hours[m] < hours[hours.len() - 1]);
        lemma_times_of_hour(hours.last(), minutes, seconds, j - n);
    }
}

proof fn lemma_hour_holds(hour: u32, minutes: Seq<u32>, seconds: Seq<u32>, minute: u32, second: u32)
    requires
        minutes.contains(minute),
        seconds.contains(second),
    ensures
        times_of_hour(hour, minutes, seconds).contains((hour, minute, second)),
    decreases minutes.len(),
{
    let all = times_of_hour(hour, minutes, seconds);
    let head = minutes.drop_last();
    let first = times_of_hour(hour, head, seconds);
    let m = choose|m: int| 0 <= m < minutes.len() && minutes[m] == minute;
    if m < head.len() {
        assert(head[m] == minute);
        lemma_hour_holds(hour, head, seconds, minute, second);
        let k = choose|k: int| 0 <= k < first.len() && first[k] == (hour, minute, second);
        assert(all[k] == (hour, minute, second));
    } else {
        let s = choose|s: int| 0 <= s < seconds.len() && seconds[s] == second;
        assert(all[first.len() + s] == (hour, minute, second));
    }
}

proof fn lemma_day_holds(hours: Seq<u32>, minutes: Seq<u32>, seconds: Seq<u32>, t: (u32, u32, u32))
    requires
        hours.contains(t.0),
        minutes.contains(t.1),
        seconds.contains(t.2),
    ensures
        times_of_day(hours, minutes, seconds).contains(t),
    decreases hours.len(),
{
    let all = times_of_day(hours, minutes, seconds);
    let head = hours.drop_last();
    let first = times_of_day(head, minutes, seconds);
    let h = choose|h: int| 0 <= h < hours.len() && hours[h] == t.0;
    if h < head.len() {
        assert(head[h] == t.0);
        lemma_day_holds(head, minutes, seconds, t);
        let k = choose|k: int| 0 <= k < first.len() && first[k] == t;
        assert(all[k] == t);
    } else {
        lemma_hour_holds(t.0, minutes, seconds, t.1, t.2);
        let last = times_of_hour(hours.last(), minutes, seconds);
        let k = choose|k: int| 0 <= k < last.len() && last[k] == t;
        assert(all[first.len() + k] == t);
    }
}

impl CronSpec {
    /// Whether the numbers of the times of day rise, as they do where an expression was
    /// read.
    pub open spec fn rises(self) -> bool {
        increasing(self.hours@) && increasing(self.minutes@) && increasing(self.seconds@)
    }

    /// Whether the expression names a time.
    pub open spec fn names_time(self, t: CivilTime) -> bool {
        &&& self.names_date(
            t.month,
            t.day,
            (day_number(t.year as int, t.month as int, t.day as int) % 7) as u32,
        )
        &&& self.hours@.contains(t.hour)
        &&& self.minutes@.contains(t.minute)
        &&& self.seconds@.contains(t.second)
    }

    proof fn lemma_times_within(self, year: i32, month: u32, day: u32, days: int, k: int)
        requires
            0 <= k < self.times_within(year, month, day, days).len(),
            days <= CRON_DAYS,
        ensures
            ({
                let t = self.times_within(year, month, day, days)[k];
                let first = day_number(year as int, month as int, day as int);
                &&& self.names_time(t)
                &&& is_date(t.year as int, t.month as int, t.day as int)
                &&& first <= day_number(t.year as int, t.month as int, t.day as int) < first + days
            }),
        decreases days,
    {
        let before = self.times_within(year, month, day, days - 1);
        if k < before.len() {
            self.lemma_times_within(year, month, day, days - 1, k);
        } else {
            let d = day_after(year, month, day, (days - 1) as u64);
            let named = self.times_on(d);
            days_are_counted(year, month, day, (days - 1) as u64);
            assert(self.times_within(year, month, day, days)[k] == named[k - before.len()]);
            lemma_times_of_day(self.hours@, self.minutes@, self.seconds@, k - before.len());
        }
    }

    proof fn lemma_within_rises(
        self,
        year: i32,
        month: u32,
        day: u32,
        days: int,
        i: int,
        j: int,
    )
        requires
            self.rises(),
            0 <= i < j < self.times_within(year, month, day, days).len(),
            days <= CRON_DAYS,
        ensures
            time_before(
                self.times_within(year, month, day, days)[i],
                self.times_within(year, month, day, days)[j],
            ),
        decreases days,
    {
        let all = self.times_within(year, month, day, days);
        let before = self.times_within(year, month, day, days - 1);
        let n: int = before.len() as int;
        let d = day_after(year, month, day, (days - 1) as u64);
        let named = self.times_on(d);
        days_are_counted(year, month, day, (days - 1) as u64);
        if j < n {
            self.lemma_within_rises(year, month, day, days - 1, i, j);
        } else if i >= n {
            assert(all[i] == named[i - n] && all[j] == named[j - n]);
            lemma_day_rises(self.hours@, self.minutes@, self.seconds@, i - n, j - n);
        } else {
            self.lemma_times_within(year, month, day, days - 1, i);
            assert(all[i] == before[i]);
            assert(all[j] == named[j - n]);
            day_numbers_rise(
                all[i].year as int,
                all[i].month as int,
                all[i].day as int,
                all[j].year as int,
                all[j].month as int,
                all[j].day as int,
            );
        }
    }
}

/// The numbers of an expression that was read rise.
pub proof fn read_expressions_rise(c: CronSpec, expr: Seq<char>)
    requires
        c.reads(expr),
    ensures
        c.rises(),
{
}

/// Every time that is considered is one that the expression names.
pub proof fn scheduled_times_are_named(c: CronSpec, year: i32, month: u32, day: u32, t: CivilTime)
    requires
        c.candidates(year, month, day).contains(t),
    ensures
        c.names_time(t),
{
    let all = c.candidates(year, month, day);
    let k = choose|k: int| 0 <= k < all.len() && all[k] == t;
    lemma_known_days(year, month, day, 0);
    c.lemma_times_within(year, month, day, known_days(year, month, day, 0) as int, k);
}

/// The times are considered in their order.
pub proof fn scheduled_times_rise(
    c: CronSpec,
    year: i32,
    month: u32,
    day: u32,
    i: int,
    j: int,
)
    requires
        c.rises(),
        0 <= i < j < c.candidates(year, month, day).len(),
    ensures
        time_before(c.candidates(year, month, day)[i], c.candidates(year, month, day)[j]),
{
    lemma_known_days(year, month, day, 0);
    c.lemma_within_rises(year, month, day, known_days(year, month, day, 0) as int, i, j);
}

/// Whether a date comes on or after another, within the days that are looked at.
pub open spec fn is_within_days(year: i32, month: u32, day: u32, t: CivilTime) -> bool {
    let offset = day_number(t.year as int, t.month as int, t.day as int) - day_number(
        year as int,
        month as int,
        day as int,
    );
    0 <= offset < CRON_DAYS && has_day_after(year, month, day, offset as u64)
}

proof fn lemma_days_are_known(year: i32, month: u32, day: u32, from: u64, offset: u64)
    requires
        from <= offset < CRON_DAYS,
        has_day_after(year, month, day, offset),
    ensures
        offset < known_days(year, month, day, from),
    decreases CRON_DAYS - from,
{
    days_are_counted(year, month, day, from);
    if from < offset {
        lemma_days_are_known(year, month, day, (from + 1) as u64, offset);
    } else {
        lemma_known_days(year, month, day, (from + 1) as u64);
    }
}

/// Every time that the expression names within a year from a date on is considered.
pub proof fn named_times_are_scheduled(c: CronSpec, year: i32, month: u32, day: u32, t: CivilTime)
    requires
        is_date(t.year as int, t.month as int, t.day as int),
        is_within_days(year, month, day, t),
        c.names_time(t),
    ensures
        c.candidates(year, month, day).contains(t),
{
    let number: int = day_number(t.year as int, t.month as int, t.day as int);
    let offset: u64 = (number - day_number(year as int, month as int, day as int)) as u64;
    let d = Day { year: t.year, month: t.month, day: t.day, weekday: (number % 7) as u32 };
    day_has_its_number(d);
    assert(day_after(year, month, day, offset) == Some(d));
    lemma_days_are_known(year, month, day, 0, offset);
    let all = c.candidates(year, month, day);
    let before = c.times_within(year, month, day, offset as int);
    let named = c.times_on(Some(d));
    c.lemma_within(
        year,
        month,
        day,
        offset + 1,
        known_days(year, month, day, 0) as int,
    );
    lemma_day_holds(c.hours@, c.minutes@, c.seconds@, (t.hour, t.minute, t.second));
    let k = choose|k: int|
        0 <= k < c.times().len() && c.times()[k] == (t.hour, t.minute, t.second);
    assert(named[k] == t);
    assert(c.times_within(year, month, day, offset + 1)[before.len() + k] == t);
    assert(all[before.len() + k] == t);
}

/// The next run is the first time after now that the expression names: each earlier one
/// within the days that are looked at has no moment in the time zone, or one that is not
/// after now.
pub proof fn next_run_is_the_first<F: Fn(CivilTime) -> Option<i64>>(
    c: CronSpec,
    now: LocalClock,
    resolve: F,
    run: (CivilTime, i64),
    t: CivilTime,
)
    requires
        c.rises(),
        is_next_run(
            Some(run),
            resolve,
            c.candidates(now.year, now.month, now.day),
            now.seconds,
        ),
        is_date(t.year as int, t.month as int, t.day as int),
        is_within_days(now.year, now.month, now.day, t),
        c.names_time(t),
        time_before(t, run.0),
    ensures
        exists|answer: Option<i64>| #[trigger]
            call_ensures(resolve, (t,), answer) && !is_later(answer, now.seconds),
{
    let all = c.candidates(now.year, now.month, now.day);
    let answers = choose|answers: Seq<Option<i64>>|
        0 <= answers.len() < all.len() && run.0 == all[answers.len() as int] && run.1 > now.seconds
            && call_ensures(resolve, (run.0,), Some(run.1)) && #[trigger] answered(
            resolve,
            all.take(answers.len() as int),
            answers,
        ) && none_later(answers, now.seconds);
    named_times_are_scheduled(c, now.year, now.month, now.day, t);
    let k = choose|k: int| 0 <= k < all.len() && all[k] == t;
    let n: int = answers.len() as int;
    if k > n {
        scheduled_times_rise(c, now.year, now.month, now.day, n, k);
    }
    assert(k < n);
    assert(all.take(n)[k] == t);
    assert(call_ensures(resolve, (t,), answers[k]));
    assert(!is_later(answers[k], now.seconds));
}

/// Where there is no next run, no time that the expression names within the days that are
/// looked at has a moment after now.
pub proof fn no_run_means_no_time<F: Fn(CivilTime) -> Option<i64>>(
    c: CronSpec,
    now: LocalClock,
    resolve: F,
    t: CivilTime,
)
    requires
        is_next_run(None, resolve, c.candidates(now.year, now.month, now.day), now.seconds),
        is_date(t.year as int, t.month as int, t.day as int),
        is_within_days(now.year, now.month, now.day, t),
        c.names_time(t),
    ensures
        exists|answer: Option<i64>| #[trigger]
            call_ensures(resolve, (t,), answer) && !is_later(answer, now.seconds),
{
    let all = c.candidates(now.year, now.month, now.day);
    let answers = choose|answers: Seq<Option<i64>>| #[trigger]
        answered(resolve, all, answers) && none_later(answers, now.seconds);
    named_times_are_scheduled(c, now.year, now.month, now.day, t);
    let k = choose|k: int| 0 <= k < all.len() && all[k] == t;
    assert(call_ensures(resolve, (t,), answers[k]));
    assert(!is_later(answers[k], now.seconds));
}

/// Every time that an expression names is one of the clock and the calendar.
pub proof fn read_fields_are_of_the_clock(c: CronSpec, expr: Seq<char>)
    requires
        c.reads(expr),
    ensures
        forall|x: u32| #[trigger] c.seconds@.contains(x) ==> x <= 59,
        forall|x: u32| #[trigger] c.minutes@.contains(x) ==> x <= 59,
        forall|x: u32| #[trigger] c.hours@.contains(x) ==> x <= 23,
        forall|x: u32| #[trigger] c.days@.contains(x) ==> 1 <= x <= 31,
        forall|x: u32| #[trigger] c.months@.contains(x) ==> 1 <= x <= 12,
        forall|x: u32| #[trigger] c.weekdays@.contains(x) ==> x <= 7,
{
    let f = cron_fields(expr)->0;
    cron_field_is_bounded(c.seconds@, f[0], 0, 59);
    cron_field_is_bounded(c.minutes@, f[1], 0, 59);
    cron_field_is_bounded(c.hours@, f[2], 0, 23);
    cron_field_is_bounded(c.days@, f[3], 1, 31);
    cron_field_is_bounded(c.months@, f[4], 1, 12);
    cron_field_is_bounded(c.weekdays@, f[5], 0, 7);
    assert forall|x: u32| #[trigger] c.seconds@.contains(x) implies x <= 59 by {
        let i = choose|i: int| 0 <= i < c.seconds@.len() && c.seconds@[i] == x;
        assert(0 <= c.seconds@[i] <= 59);
    }
    assert forall|x: u32| #[trigger] c.minutes@.contains(x) implies x <= 59 by {
        let i = choose|i: int| 0 <= i < c.minutes@.len() && c.minutes@[i] == x;
        assert(0 <= c.minutes@[i] <= 59);
    }
    assert forall|x: u32| #[trigger] c.hours@.contains(x) implies x <= 23 by {
        let i = choose|i: int| 0 <= i < c.hours@.len() && c.hours@[i] == x;
        assert(0 <= c.hours@[i] <= 23);
    }
    assert forall|x: u32| #[trigger] c.days@.contains(x) implies 1 <= x <= 31 by {
        let i = choose|i: int| 0 <= i < c.days@.len() && c.days@[i] == x;
        assert(1 <= c.days@[i] <= 31);
    }
    assert forall|x: u32| #[trigger] c.months@.contains(x) implies 1 <= x <= 12 by {
        let i = choose|i: int| 0 <= i < c.months@.len() && c.months@[i] == x;
        assert(1 <= c.months@[i] <= 12);
    }
    assert forall|x: u32| #[trigger] c.weekdays@.contains(x) implies x <= 7 by {
        let i = choose|i: int| 0 <= i < c.weekdays@.len() && c.weekdays@[i] == x;
        assert(0 <= c.weekdays@[i] <= 7);
    }
}

/// The fields of an expression come in the order second, minute, hour, day, month and weekday:
/// an expression of six numbers names just that time.
pub proof fn six_numbers_name_one_time(c: CronSpec, expr: Seq<char>, n: Seq<u32>)
    requires
        c.reads(expr),
        n.len() == 6,
        words(expr).len() == 6,
        forall|i: int| 0 <= i < 6 ==> #[trigger] words(expr)[i] == decimal(n[i] as nat),
    ensures
        forall|x: u32| #[trigger] c.seconds@.contains(x) <==> x == n[0],
        forall|x: u32| #[trigger] c.minutes@.contains(x) <==> x == n[1],
        forall|x: u32| #[trigger] c.hours@.contains(x) <==> x == n[2],
        forall|x: u32| #[trigger] c.days@.contains(x) <==> x == n[3],
        forall|x: u32| #[trigger] c.months@.contains(x) <==> x == n[4],
        forall|x: u32| #[trigger] c.weekdays@.contains(x) <==> x == n[5],
{
    let f = cron_fields(expr)->0;
    assert(f[0] == words(expr)[0]);
    assert(f[1] == words(expr)[1]);
    assert(f[2] == words(expr)[2]);
    assert(f[3] == words(expr)[3]);
    assert(f[4] == words(expr)[4]);
    assert(f[5] == words(expr)[5]);
    number_field_names_itself(c.seconds@, n[0], 0, 59);
    number_field_names_itself(c.minutes@, n[1], 0, 59);
    number_field_names_itself(c.hours@, n[2], 0, 23);
    number_field_names_itself(c.days@, n[3], 1, 31);
    number_field_names_itself(c.months@, n[4], 1, 12);
    number_field_names_itself(c.weekdays@, n[5], 0, 7);
}

proof fn lemma_one_part(field: Seq<char>)
    requires
        !field.contains(','),
    ensures
        split_at_char(field, ',').len() == 1,
        split_at_char(field, ',')[0] == field,
{
    crate::text::lemma_index_of(field, ',');
    let k = crate::text::index_of(field, ',');
    if k < field.len() {
        assert(field.contains(field[k]));
    }
}

proof fn lemma_plain_number(n: u32)
    ensures
        u32_in(decimal(n as nat)) == Some(n),
        decimal(n as nat).len() > 0,
        forall|i: int|
            0 <= i < decimal(n as nat).len() ==> '0' <= #[trigger] decimal(n as nat)[i] <= '9',
{
    crate::number::decimal_reads_back(n as nat, u32::MAX as int);
    crate::number::decimal_is_digits(n as nat);
}

/// A field of two numbers with a hyphen between them names what lies between the two.
pub proof fn hyphen_names_what_lies_between(v: Seq<u32>, a: u32, b: u32, min: u32, max: u32)
    requires
        lists_field(v, decimal(a as nat) + "-"@ + decimal(b as nat), min, max),
    ensures
        min <= a <= b <= max,
        forall|x: u32| #[trigger] v.contains(x) <==> a <= x <= b,
{
    reveal_strlit("-");
    reveal_strlit("*");
    lemma_plain_number(a);
    lemma_plain_number(b);
    let da = decimal(a as nat);
    let db = decimal(b as nat);
    let field = da + "-"@ + db;
    let n = da.len() as int;
    assert forall|i: int| 0 <= i < field.len() implies (#[trigger] field[i]) == '-' || '0'
        <= field[i] <= '9' by {
        if i < n {
            assert(field[i] == da[i]);
        } else if i > n {
            assert(field[i] == db[i - n - 1]);
        }
    }
    if field.contains(',') {
        let i = choose|i: int| 0 <= i < field.len() && field[i] == ',';
        assert(field[i] == '-' || '0' <= field[i] <= '9');
    }
    lemma_one_part(field);
    assert(!crate::text::white(field[0]) && !crate::text::white(field[field.len() - 1]));
    crate::text::trimming_keeps_what_is_bare(field);
    crate::text::lemma_index_of(field, '/');
    let k = crate::text::index_of(field, '/');
    if k < field.len() {
        assert(field[k] == '-' || '0' <= field[k] <= '9');
    }
    assert(field != "*"@) by {
        assert(field[0] == da[0]);
    }
    assert forall|j: int| 0 <= j < n implies field[j] != '-' by {
        assert(field[j] == da[j]);
    }
    assert(field[n] == '-');
    crate::text::lemma_index_of_is(field, '-', n);
    assert(field.take(n) =~= da);
    assert(field.skip(n + 1) =~= db);
    let parts = split_at_char(field, ',');
    assert(cron_range(parts[0], min, max) is Some);
    let r = cron_range(parts[0], min, max)->0;
    assert(r == CronRange { first: a, last: b, step: 1 });
    assert forall|x: u32| #[trigger] v.contains(x) <==> a <= x <= b by {
        if a <= x <= b {
            assert(r.has(x));
            assert(cron_names(field, min, max, x));
        }
    }
}

/// A field of an asterisk with a step names every so-manieth of all, from the first on.
pub proof fn step_names_every_so_many(v: Seq<u32>, n: u32, min: u32, max: u32)
    requires
        lists_field(v, "*/"@ + decimal(n as nat), min, max),
    ensures
        n > 0,
        forall|x: u32| #[trigger]
            v.contains(x) <==> min <= x <= max && (x - min) % (n as int) == 0,
{
    reveal_strlit("*/");
    reveal_strlit("*");
    lemma_plain_number(n);
    let d = decimal(n as nat);
    let field = "*/"@ + d;
    assert forall|i: int| 2 <= i < field.len() implies '0' <= (#[trigger] field[i]) <= '9' by {
        assert(field[i] == d[i - 2]);
    }
    if field.contains(',') {
        let i = choose|i: int| 0 <= i < field.len() && field[i] == ',';
        if i >= 2 {
            assert('0' <= field[i] <= '9');
        }
    }
    lemma_one_part(field);
    assert(field[0] == '*' && field[1] == '/');
    assert(field.last() == d[d.len() - 1]);
    assert(!crate::text::white(field[0]) && !crate::text::white(field.last()));
    crate::text::trimming_keeps_what_is_bare(field);
    crate::text::lemma_index_of_is(field, '/', 1);
    assert(field.take(1) =~= "*"@);
    assert(field.skip(2) =~= d);
    let parts = split_at_char(field, ',');
    assert(cron_range(parts[0], min, max) is Some);
    let r = cron_range(parts[0], min, max)->0;
    assert(r == CronRange { first: min, last: max, step: n });
    assert forall|x: u32| #[trigger] v.contains(x) <==> min <= x <= max && (x - min) % (n as int)
        == 0 by {
        if min <= x <= max && (x - min) % (n as int) == 0 {
            assert(r.has(x));
            assert(cron_names(field, min, max, x));
        }
    }
}

/// A list names what its parts name, and each of its parts has to be a field itself.
pub proof fn list_names_what_its_parts_name(a: Seq<char>, b: Seq<char>, min: u32, max: u32, x: u32)
    requires
        !a.contains(','),
    ensures
        is_cron_field(a + ","@ + b, min, max) <==> is_cron_field(a, min, max) && is_cron_field(
            b,
            min,
            max,
        ),
        cron_names(a + ","@ + b, min, max, x) <==> cron_names(a, min, max, x) || cron_names(
            b,
            min,
            max,
            x,
        ),
{
    reveal_strlit(",");
    let field = a + ","@ + b;
    let n = a.len() as int;
    lemma_one_part(a);
    assert forall|j: int| 0 <= j < n implies field[j] != ',' by {
        assert(field[j] == a[j]);
        assert(a.contains(a[j]));
    }
    assert(field[n] == ',');
    crate::text::lemma_index_of_is(field, ',', n);
    assert(field.take(n) =~= a);
    assert(field.skip(n + 1) =~= b);
    let pa = split_at_char(a, ',');
    let pb = split_at_char(b, ',');
    let all = split_at_char(field, ',');
    assert(all =~= seq![a] + pb);
    assert(all[0] == a && pa[0] == a);
    assert forall|i: int| 0 <= i < pb.len() implies #[trigger] all[i + 1] == pb[i] by {}
    if is_cron_field(field, min, max) {
        assert(cron_range(all[0], min, max) is Some);
        assert forall|i: int| 0 <= i < pb.len() implies cron_range(
            #[trigger] pb[i],
            min,
            max,
        ) is Some by {
            assert(cron_range(all[i + 1], min, max) is Some);
        }
    }
    if is_cron_field(a, min, max) && is_cron_field(b, min, max) {
        assert forall|i: int| 0 <= i < all.len() implies cron_range(
            #[trigger] all[i],
            min,
            max,
        ) is Some by {
            if i == 0 {
                assert(cron_range(pa[0], min, max) is Some);
            } else {
                assert(cron_range(pb[i - 1], min, max) is Some);
            }
        }
    }
    if cron_names(field, min, max, x) {
        let i = choose|i: int|
            0 <= i < all.len() && (cron_range(#[trigger] all[i], min, max) matches Some(r)
                && r.has(x));
        if i == 0 {
            assert(cron_range(pa[0], min, max) is Some);
        } else {
            assert(cron_range(pb[i - 1], min, max) is Some);
        }
    }
    if cron_names(a, min, max, x) {
        assert(cron_range(all[0], min, max) is Some);
    }
    if cron_names(b, min, max, x) {
        let i = choose|i: int|
            0 <= i < pb.len() && (cron_range(#[trigger] pb[i], min, max) matches Some(r)
                && r.has(x));
        assert(cron_range(all[i + 1], min, max) is Some);
    }
}

} // verus!
