use pt_manager::auth::{code_of_digest, current_totp, totp_at, unix_now};
use pt_manager::calendar::{
    clock_now, find_day, local_now, local_offset, moment_of, parse_time, time_string, CivilTime,
    Day, LocalClock, WallTime,
};
use pt_manager::chance::draw;
use pt_manager::cron::{next_run_from_cron, parse_cron_field, CronSpec};
use pt_manager::scheduler::{
    begin_run, end_run, ended_run_text, schedule_step, skipped_run_text, sleep_with_cancel,
    wait_time, ScheduleStep, SleepTurn,
};
use pt_manager::text::chars_of;

const SECRET: &str = "GEZDGNBVGY3TQOJQGEZDGNBVGY3TQOJQ";

fn time(year: i32, month: u32, day: u32, hour: u32, minute: u32, second: u32) -> CivilTime {
    CivilTime { year, month, day, hour, minute, second }
}

fn wall(civil: CivilTime, nanos: u32) -> WallTime {
    WallTime { civil, nanos }
}

fn field(text: &str, min: u32, max: u32) -> Option<Vec<u32>> {
    parse_cron_field(&chars_of(text), min, max)
}

#[test]
fn one_time_codes_are_those_of_the_standard() {
    assert_eq!(totp_at(SECRET, 59), Ok("287082".to_string()));
    assert_eq!(totp_at(SECRET, 1111111109), Ok("081804".to_string()));
    assert_eq!(totp_at(SECRET, 1111111111), Ok("050471".to_string()));
    assert_eq!(totp_at(SECRET, 2000000000), Ok("279037".to_string()));
}

#[test]
fn secrets_may_be_written_with_blanks_and_in_lower_case() {
    assert_eq!(totp_at("gezd gnbv gy3t qojq gezd gnbv gy3t qojq", 59), totp_at(SECRET, 59));
    assert_eq!(totp_at("1!", 59), Err("2FA 密钥不是有效的 Base32 格式".to_string()));
}

#[test]
fn codes_last_for_thirty_seconds() {
    assert_eq!(totp_at(SECRET, 30), totp_at(SECRET, 59));
    assert_ne!(totp_at(SECRET, 59), totp_at(SECRET, 60));
    let now = current_totp(SECRET).unwrap();
    assert_eq!(now.len(), 6);
    assert!(now.chars().all(|c| c.is_ascii_digit()));
    let moment = unix_now().unwrap();
    assert!(moment > 1_700_000_000);
    let late = current_totp(SECRET).unwrap();
    assert!((moment..moment + 60).any(|t| totp_at(SECRET, t) == Ok(late.clone())));
    assert_eq!(current_totp("0"), Err("2FA 密钥不是有效的 Base32 格式".to_string()));
}

#[test]
fn digests_are_truncated_dynamically() {
    let digest = [
        0x1f, 0x86, 0x98, 0x69, 0x0e, 0x02, 0xca, 0x16, 0x61, 0x85, 0x50, 0xef, 0x7f, 0x19, 0xda,
        0x8e, 0x94, 0x5b, 0x55, 0x5a,
    ];
    assert_eq!(code_of_digest(&digest), 872921);
}

#[test]
fn times_are_written_and_read_back() {
    let t = wall(time(2026, 2, 3, 4, 5, 6), 0);
    assert_eq!(time_string(&t), "2026-02-03 04:05:06");
    assert_eq!(parse_time("2026-02-03 04:05:06"), Some(t));
    for (year, text) in [(-262143, "-262143"), (-1, "-0001"), (0, "0000"), (10000, "+10000"), (262142, "+262142")] {
        let t = wall(time(year, 1, 1, 4, 5, 6), 0);
        assert_eq!(time_string(&t), format!("{text}-01-01 04:05:06"));
        assert_eq!(parse_time(&time_string(&t)), Some(t));
        let t = wall(time(year, 12, 31, 23, 59, 59), 0);
        assert_eq!(parse_time(&time_string(&t)), Some(t));
    }
    let part = wall(time(2026, 2, 3, 4, 5, 6), 999_999_999);
    assert_eq!(time_string(&part), "2026-02-03 04:05:06");
    let leap = wall(time(2016, 12, 31, 23, 59, 59), 1_000_000_000);
    assert_eq!(time_string(&leap), "2016-12-31 23:59:60");
    assert_eq!(parse_time("2016-12-31 23:59:60"), Some(leap));
    assert_eq!(time_string(&wall(leap.civil, 1_500_000_000)), "2016-12-31 23:59:60");
    assert_eq!(parse_time("2016-12-31 23:59:61"), None);
    assert_eq!(parse_time("2026-02-30 04:05:06"), None);
    assert_eq!(parse_time("nonsense"), None);
}

#[test]
fn the_present_is_a_time_of_the_time_zone() {
    let now = local_now();
    assert!(now.wall.civil.year >= 2024);
    assert_eq!(parse_time(&time_string(&now.wall)), Some(wall(now.wall.civil, 0)));
    let noon = wall(time(2026, 6, 15, 12, 0, 0), 0);
    let offset = local_offset(noon).unwrap();
    let moment = moment_of(noon.civil).unwrap();
    assert_eq!((moment + offset as i64) % 86_400, 43_200);
    assert!(local_offset(wall(time(2026, 6, 15, 12, 0, 59), 1_000_000_000)).is_some());
    assert_eq!(local_offset(wall(time(2026, 6, 15, 12, 0, 0), 1_000_000_000)), None);
    assert_eq!(local_offset(wall(time(2026, 2, 30, 12, 0, 0), 0)), None);
    let clock = clock_now();
    assert!((clock.year - now.wall.civil.year).abs() <= 1);
    assert!(clock.seconds > 1_700_000_000);
    let noon = moment_of(time(2026, 6, 15, 12, 0, 0)).unwrap();
    assert_eq!(moment_of(time(2026, 6, 16, 12, 0, 0)), Some(noon + 86_400));
}

#[test]
fn cron_fields_name_their_numbers() {
    assert_eq!(field("*", 0, 3), Some(vec![0, 1, 2, 3]));
    assert_eq!(field("*/15", 0, 59), Some(vec![0, 15, 30, 45]));
    assert_eq!(field("1,3,5", 0, 7), Some(vec![1, 3, 5]));
    assert_eq!(field("5,1-3,2", 0, 7), Some(vec![1, 2, 3, 5]));
    assert_eq!(field("10-20/5", 0, 59), Some(vec![10, 15, 20]));
    assert_eq!(field(" 4 , 2 ", 0, 7), Some(vec![2, 4]));
}

#[test]
fn cron_fields_beyond_their_limits_are_refused() {
    for text in ["", ",", "1,", "a", "60", "5-1", "*/0", "1-", "-1", "1-2-3", "1/2/3"] {
        assert_eq!(field(text, 0, 59), None);
    }
    assert_eq!(field("0", 1, 31), None);
}

#[test]
fn expressions_have_five_or_six_fields() {
    let five = CronSpec::parse("0 9 * * *").unwrap();
    assert_eq!((five.seconds, five.minutes, five.hours), (vec![0], vec![0], vec![9]));
    let six = CronSpec::parse("0 30 8 * * *").unwrap();
    assert_eq!((six.seconds, six.minutes, six.hours), (vec![0], vec![30], vec![8]));
    assert!(CronSpec::parse("0 9 * *").is_none());
    assert!(CronSpec::parse("0 0 0 9 * * *").is_none());
    assert!(CronSpec::parse("0 25 * * *").is_none());
}

#[test]
fn sunday_is_day_zero_and_day_seven() {
    for text in ["0 9 * * 0", "0 9 * * 7"] {
        let spec = CronSpec::parse(text).unwrap();
        for (month, day) in [(1, 1), (3, 2), (12, 31)] {
            for weekday in 0..7 {
                assert_eq!(spec.matches_date(month, day, weekday), weekday == 0);
            }
        }
    }
}

fn plain_seconds(t: CivilTime) -> Option<i64> {
    Some(
        (((t.day as i64 * 24 + t.hour as i64) * 60 + t.minute as i64) * 60 + t.second as i64)
            + t.month as i64 * 31 * 86400
            + t.year as i64 * 12 * 31 * 86400,
    )
}

fn clock_at(t: CivilTime) -> LocalClock {
    LocalClock {
        seconds: plain_seconds(t).unwrap(),
        year: t.year,
        month: t.month,
        day: t.day,
    }
}

#[test]
fn the_next_run_comes_after_now() {
    let spec = CronSpec::parse("0 9 * * *").unwrap();
    let before = clock_at(time(2026, 3, 10, 8, 59, 59));
    let (t, s) = spec.next_after(&before, plain_seconds).unwrap();
    assert_eq!(t, time(2026, 3, 10, 9, 0, 0));
    assert_eq!(Some(s), plain_seconds(t));
    let at = clock_at(time(2026, 3, 10, 9, 0, 0));
    assert_eq!(
        spec.next_after(&at, plain_seconds).unwrap().0,
        time(2026, 3, 11, 9, 0, 0)
    );
}

#[test]
fn months_and_weekdays_are_waited_for() {
    let yearly = CronSpec::parse("0 0 29 2 *").unwrap();
    let leap = clock_at(time(2027, 3, 1, 0, 0, 0));
    assert_eq!(
        yearly.next_after(&leap, plain_seconds).unwrap().0,
        time(2028, 2, 29, 0, 0, 0)
    );
    let too_far = clock_at(time(2025, 3, 1, 0, 0, 0));
    assert!(yearly.next_after(&too_far, plain_seconds).is_none());
    let monday = CronSpec::parse("30 6 * * 1").unwrap();
    let sunday = clock_at(time(2026, 3, 15, 12, 0, 0));
    assert_eq!(
        monday.next_after(&sunday, plain_seconds).unwrap().0,
        time(2026, 3, 16, 6, 30, 0)
    );
}

#[test]
fn times_that_do_not_exist_are_passed_over() {
    let spec = CronSpec::parse("0 2 * * *").unwrap();
    let now = clock_at(time(2026, 3, 10, 3, 0, 0));
    let skip = |t: CivilTime| {
        if t.day == 11 {
            None
        } else {
            plain_seconds(t)
        }
    };
    assert_eq!(spec.next_after(&now, skip).unwrap().0, time(2026, 3, 12, 2, 0, 0));
}

#[test]
fn expressions_are_looked_up_by_the_machines_clock() {
    assert!(next_run_from_cron("nonsense").is_none());
    let (t, _) = next_run_from_cron("* * * * *").unwrap();
    assert_eq!(t.second, 0);
    assert!(parse_time(&time_string(&wall(t, 0))).is_some());
}

#[test]
fn the_schedule_waits_or_reports() {
    assert_eq!(wait_time(100, 40, 0), (60, 0));
    assert_eq!(wait_time(100, 40, 250_000_000), (59, 750_000_000));
    assert_eq!(wait_time(40, 40, 1), (0, 0));
    assert_eq!(wait_time(40, 100, 0), (0, 0));
    assert_eq!(wait_time(i64::MAX, i64::MIN, 0), (u64::MAX, 0));
    assert!(matches!(
        schedule_step(Some(100), 40, 250_000_000, "0 9 * * *"),
        ScheduleStep::Run { seconds: 59, nanos: 750_000_000 }
    ));
    match schedule_step(None, 40, 0, "bad") {
        ScheduleStep::Invalid { message, seconds } => {
            assert_eq!(message, "Cron 表达式无效：bad");
            assert_eq!(seconds, 60);
        }
        other => panic!("{:?}", other),
    }
}

#[test]
fn one_round_runs_at_a_time() {
    let mut running = false;
    let mut cancel = true;
    assert!(begin_run(&mut running, &mut cancel));
    assert!(running && !cancel);
    cancel = true;
    assert!(!begin_run(&mut running, &mut cancel));
    assert!(running && cancel);
    end_run(&mut running, &mut cancel);
    assert!(!running && !cancel);
    assert_eq!(skipped_run_text(), "已有保活任务正在执行，跳过本次触发");
    assert_eq!(ended_run_text(true), Some("保活任务已终止"));
    assert_eq!(ended_run_text(false), None);
}

#[test]
fn waits_end_early_when_stopped() {
    assert_eq!(sleep_with_cancel(0, 3, false), SleepTurn::Second);
    assert_eq!(sleep_with_cancel(1, 3, true), SleepTurn::Interrupt);
    assert_eq!(sleep_with_cancel(3, 3, false), SleepTurn::Over { interrupted: false });
    assert_eq!(sleep_with_cancel(3, 3, true), SleepTurn::Over { interrupted: true });
}

#[test]
fn draws_stay_within_their_limits() {
    let mut seen = [false; 4];
    for _ in 0..400 {
        let n = draw(5, 8);
        assert!((5..=8).contains(&n));
        seen[(n - 5) as usize] = true;
    }
    assert!(seen.iter().all(|s| *s));
    assert_eq!(draw(7, 7), 7);
}

#[test]
fn days_follow_the_calendar() {
    let day = |year: i32, month: u32, day: u32, weekday: u32| Day { year, month, day, weekday };
    assert_eq!(find_day(2026, 2, 28, 1), Some(day(2026, 3, 1, 0)));
    assert_eq!(find_day(2024, 2, 28, 1), Some(day(2024, 2, 29, 4)));
    assert_eq!(find_day(2024, 2, 29, 366), Some(day(2025, 3, 1, 6)));
    assert_eq!(find_day(2025, 12, 31, 1), Some(day(2026, 1, 1, 4)));
    assert_eq!(find_day(1, 1, 1, 0), Some(day(1, 1, 1, 1)));
    assert_eq!(find_day(2026, 2, 29, 0), None);
    assert_eq!(find_day(2026, 13, 1, 0), None);
}

fn number(d: Day) -> i64 {
    let y = d.year as i64 - 1;
    let before = y * 365 + y.div_euclid(4) - y.div_euclid(100) + y.div_euclid(400);
    let lengths = [31, 28, 31, 30, 31, 30, 31, 31, 30, 31, 30, 31];
    let leap = d.year % 4 == 0 && (d.year % 100 != 0 || d.year % 400 == 0);
    let mut days = before + d.day as i64;
    for month in 1..d.month {
        days += lengths[month as usize - 1];
        if month == 2 && leap {
            days += 1;
        }
    }
    days
}

#[test]
fn days_are_numbered_one_by_one() {
    for (year, month, day) in [(2026, 1, 1), (1899, 12, 30), (-1, 12, 31), (-262143, 1, 1)] {
        let first = number(find_day(year, month, day, 0).unwrap());
        for offset in [0u64, 1, 28, 59, 60, 365, 366, 1461, 36524, 146097, 1000000] {
            let d = find_day(year, month, day, offset).unwrap();
            assert_eq!(number(d), first + offset as i64);
            assert_eq!(d.weekday as i64, number(d).rem_euclid(7));
        }
    }
}

#[test]
fn the_calendar_has_a_first_and_a_last_year() {
    assert!(find_day(262142, 12, 31, 0).is_some());
    assert!(find_day(262142, 12, 31, 1).is_none());
    assert!(find_day(262142, 12, 30, 1).is_some());
    assert!(find_day(262143, 1, 1, 0).is_none());
    assert!(find_day(-262144, 12, 31, 0).is_none());
    assert!(find_day(2026, 1, 1, u64::MAX).is_none());
}
