use oper::calendar::{format_date_time, DateTimeParts};
use oper::commit_time::CommitTime;
use oper::model::{CommitMeta, RepoCommit};
use oper::utils::{as_datetime, as_datetime_utc};

fn kept_at(seconds: i64, offset_minutes: i32) -> RepoCommit {
    let commit = CommitMeta {
        id: "1".to_string(),
        time: CommitTime::new(seconds, offset_minutes),
        summary: None,
        author_name: None,
        author_email: None,
        committer_name: None,
        message: None,
    };
    RepoCommit::from(0, &commit)
}

#[test]
fn age_in_whole_days() {
    let now = 1_700_000_000;
    assert_eq!(CommitTime::new(now, 0).age_days(now), 0);
    assert_eq!(CommitTime::new(now - 86_399, 0).age_days(now), 0);
    assert_eq!(CommitTime::new(now - 86_400, 0).age_days(now), 1);
    assert_eq!(CommitTime::new(now - 40 * 86_400 - 5, 0).age_days(now), 40);
    assert_eq!(CommitTime::new(0, 0).age_days(now), 19_675);
}

#[test]
fn age_of_a_commit_ahead_of_now() {
    let now = 1_700_000_000;
    assert_eq!(CommitTime::new(now + 1, 0).age_days(now), 0);
    assert_eq!(CommitTime::new(now + 86_399, 0).age_days(now), 0);
    assert_eq!(CommitTime::new(now + 86_400, 0).age_days(now), -1);
    assert_eq!(CommitTime::new(now + 2 * 86_400, 0).age_days(now), -2);
    assert_eq!(CommitTime::new(now + 2 * 86_400 + 86_399, 0).age_days(now), -2);
}

#[test]
fn age_at_the_ends_of_the_range() {
    assert_eq!(CommitTime::new(i64::MIN, 0).age_days(i64::MAX), 213_503_982_334_601);
    assert_eq!(CommitTime::new(i64::MAX, 0).age_days(i64::MIN), -213_503_982_334_601);
    assert_eq!(CommitTime::new(0, 0).age_days(4_294_967_296 * 86_400), 4_294_967_296);
    assert_eq!(CommitTime::new(0, 0).age_days(-4_294_967_296 * 86_400), -4_294_967_296);
    assert_eq!(CommitTime::new(i64::MAX, 0).age_days(i64::MAX), 0);
}

#[test]
fn later_seconds_come_first_and_then_the_greater_offset() {
    let early = CommitTime::new(100, 600);
    let late = CommitTime::new(101, -600);
    assert!(late.is_at_or_after(&early));
    assert!(!early.is_at_or_after(&late));
    assert!(early.is_at_or_after(&early));
    let west = CommitTime::new(100, -60);
    assert!(early.is_at_or_after(&west));
    assert!(!west.is_at_or_after(&early));
}

#[test]
fn comparison_agrees_with_the_derived_order() {
    let times = [
        CommitTime::new(-5, 0),
        CommitTime::new(0, -60),
        CommitTime::new(0, 0),
        CommitTime::new(0, 60),
        CommitTime::new(7, -1),
    ];
    for a in times {
        for b in times {
            assert_eq!(a.is_at_or_after(&b), a >= b);
        }
    }
}

#[test]
fn calendar_fields_in_utc() {
    let parts = as_datetime(&CommitTime::new(1_431_648_000, 0)).unwrap();
    assert_eq!(parts, DateTimeParts { year: 2015, month: 5, day: 15, hour: 0, minute: 0 });
    let parts = as_datetime(&CommitTime::new(1_700_000_000, 0)).unwrap();
    assert_eq!(parts, DateTimeParts { year: 2023, month: 11, day: 14, hour: 22, minute: 13 });
}

#[test]
fn calendar_fields_where_the_commit_was_made() {
    let parts = as_datetime(&CommitTime::new(1_431_648_000, -330)).unwrap();
    assert_eq!(parts, DateTimeParts { year: 2015, month: 5, day: 14, hour: 18, minute: 30 });
    let parts = as_datetime(&CommitTime::new(1_700_000_000, 120)).unwrap();
    assert_eq!(parts, DateTimeParts { year: 2023, month: 11, day: 15, hour: 0, minute: 13 });
}

#[test]
fn calendar_fields_converted_to_utc() {
    let parts = as_datetime_utc(&CommitTime::new(1_700_000_000, 120)).unwrap();
    assert_eq!(parts, DateTimeParts { year: 2023, month: 11, day: 14, hour: 22, minute: 13 });
}

#[test]
fn no_calendar_fields_for_an_offset_of_a_day() {
    assert_eq!(as_datetime(&CommitTime::new(0, 1440)), None);
    assert_eq!(as_datetime(&CommitTime::new(0, -1440)), None);
    assert_eq!(as_datetime(&CommitTime::new(0, i32::MAX)), None);
    assert_eq!(as_datetime_utc(&CommitTime::new(0, 1440)), None);
    assert!(as_datetime(&CommitTime::new(0, 1439)).is_some());
    assert!(as_datetime(&CommitTime::new(0, -1439)).is_some());
}

#[test]
fn no_calendar_fields_beyond_the_calendar() {
    assert_eq!(as_datetime(&CommitTime::new(i64::MAX, 0)), None);
    assert_eq!(as_datetime(&CommitTime::new(i64::MIN, 0)), None);
    assert_eq!(as_datetime_utc(&CommitTime::new(i64::MAX, 0)), None);
}

#[test]
fn commit_time_as_text() {
    assert_eq!(kept_at(1_431_648_000, 0).time_as_str(), "2015-05-15 00:00 +0000");
    assert_eq!(kept_at(1_700_000_000, 120).time_as_str(), "2023-11-15 00:13 +0200");
    assert_eq!(kept_at(1_431_648_000, -330).time_as_str(), "2015-05-14 18:30 -0530");
    assert_eq!(kept_at(1_431_648_000, 60).time_as_str(), "2015-05-15 01:00 +0100");
    assert_eq!(kept_at(1_431_648_000, -1).time_as_str(), "2015-05-14 23:59 -0001");
    assert_eq!(kept_at(1_431_648_000, 1439).time_as_str(), "2015-05-15 23:59 +2359");
}

#[test]
fn commit_time_as_text_if_there_is_a_date() {
    assert_eq!(
        kept_at(1_431_648_000, 0).try_time_as_str(),
        Some("2015-05-15 00:00 +0000".to_string())
    );
    assert_eq!(kept_at(1_431_648_000, 1440).try_time_as_str(), None);
    assert_eq!(kept_at(i64::MAX, 0).try_time_as_str(), None);
}

#[test]
fn years_of_fewer_or_more_than_four_digits() {
    assert_eq!(kept_at(-62_135_596_800, 0).time_as_str(), "0001-01-01 00:00 +0000");
    assert_eq!(kept_at(-62_167_219_200, 0).time_as_str(), "0000-01-01 00:00 +0000");
    assert_eq!(kept_at(-62_198_755_200, 0).time_as_str(), "-001-01-01 00:00 +0000");
    assert_eq!(kept_at(253_402_300_800, 0).time_as_str(), "10000-01-01 00:00 +0000");
}

#[test]
fn date_and_time_written_from_fields() {
    let parts = DateTimeParts { year: 987, month: 6, day: 5, hour: 4, minute: 3 };
    assert_eq!(format_date_time(&parts, 0), "0987-06-05 04:03 +0000");
    assert_eq!(format_date_time(&parts, -61), "0987-06-05 04:03 -0101");
    let parts = DateTimeParts { year: -12345, month: 12, day: 31, hour: 23, minute: 59 };
    assert_eq!(format_date_time(&parts, 600), "-12345-12-31 23:59 +1000");
    assert_eq!(format_date_time(&parts, 6000), "-12345-12-31 23:59 +10000");
    assert_eq!(format_date_time(&parts, i32::MIN), "-12345-12-31 23:59 -3579139408");
    let parts = DateTimeParts { year: i32::MIN, month: 1, day: 1, hour: 0, minute: 0 };
    assert_eq!(format_date_time(&parts, 0), "-2147483648-01-01 00:00 +0000");
}

fn last_moment_with_a_date(forwards: bool) -> i64 {
    // the greatest distance from the epoch at which the calendar still has a date
    let has_date = |distance: i64| {
        let seconds = if forwards { distance } else { -distance };
        as_datetime(&CommitTime::new(seconds, 0)).is_some()
    };
    let (mut low, mut high) = (0i64, i64::MAX);
    assert!(has_date(low) && !has_date(high));
    while high - low > 1 {
        let middle = low + (high - low) / 2;
        if has_date(middle) {
            low = middle;
        } else {
            high = middle;
        }
    }
    if forwards {
        low
    } else {
        -low
    }
}

#[test]
fn calendar_fields_stay_in_range_up_to_the_ends_of_the_calendar() {
    let ends = [last_moment_with_a_date(true), last_moment_with_a_date(false)];
    assert!(ends[0] > 8_000_000_000_000 && ends[1] < -8_000_000_000_000);
    let mut moments = vec![0, 1, -1, 86_399, 86_400, -86_400, -86_401, 951_782_400, 1_700_000_000];
    for end in ends {
        for step in 0..3 {
            moments.push(end - step);
            moments.push(end - step * 86_400);
            moments.push(end + step);
            moments.push(end + step * 86_400);
        }
    }
    for seconds in moments {
        for offset_minutes in [-1439, -720, -1, 0, 1, 330, 1439] {
            let time = CommitTime::new(seconds, offset_minutes);
            let shown = kept_at(seconds, offset_minutes).try_time_as_str();
            match as_datetime(&time) {
                Some(parts) => {
                    assert!((1..=12).contains(&parts.month));
                    assert!((1..=31).contains(&parts.day));
                    assert!(parts.hour <= 23 && parts.minute <= 59);
                    assert_eq!(shown, Some(format_date_time(&parts, offset_minutes)));
                    assert!(as_datetime_utc(&time).is_some());
                }
                None => {
                    assert_eq!(shown, None);
                    assert_eq!(as_datetime_utc(&time), None);
                }
            }
        }
    }
}

#[test]
fn leap_day_has_a_date() {
    assert_eq!(
        as_datetime(&CommitTime::new(951_782_400, 0)),
        Some(DateTimeParts { year: 2000, month: 2, day: 29, hour: 0, minute: 0 })
    );
    assert_eq!(
        as_datetime(&CommitTime::new(951_782_400, -1)),
        Some(DateTimeParts { year: 2000, month: 2, day: 28, hour: 23, minute: 59 })
    );
}
