use kdi_alignment::kdi::error::AlignError;
use kdi_alignment::kdi::gtfs::GtfsDate;
use kdi_alignment::kdi::time::{format_date, format_service_time};

fn date(year: i32, month: u32, day: u32) -> GtfsDate {
    GtfsDate { year, month, day }
}

#[test]
fn service_time_within_the_first_day() {
    assert_eq!(format_service_time(0), Ok("0000-01-01T00:00:00".to_string()));
    assert_eq!(format_service_time(1), Ok("0000-01-01T00:00:01".to_string()));
    assert_eq!(format_service_time(59), Ok("0000-01-01T00:00:59".to_string()));
    assert_eq!(format_service_time(60), Ok("0000-01-01T00:01:00".to_string()));
    assert_eq!(format_service_time(3599), Ok("0000-01-01T00:59:59".to_string()));
    assert_eq!(format_service_time(45296), Ok("0000-01-01T12:34:56".to_string()));
    assert_eq!(format_service_time(86399), Ok("0000-01-01T23:59:59".to_string()));
}

#[test]
fn service_time_of_ninety_thousand_seconds_is_one_on_the_second_day() {
    assert_eq!(format_service_time(90000), Ok("0000-01-02T01:00:00".to_string()));
}

#[test]
fn service_time_rolls_over_days() {
    assert_eq!(format_service_time(86400), Ok("0000-01-02T00:00:00".to_string()));
    assert_eq!(format_service_time(2 * 86400 + 3661), Ok("0000-01-03T01:01:01".to_string()));
    assert_eq!(format_service_time(9 * 86400), Ok("0000-01-10T00:00:00".to_string()));
    assert_eq!(format_service_time(31 * 86400 - 1), Ok("0000-01-31T23:59:59".to_string()));
}

#[test]
fn service_time_past_the_first_month_is_refused() {
    assert_eq!(format_service_time(31 * 86400), Err(AlignError::InvalidDate));
    assert_eq!(format_service_time(31 * 86400 + 1), Err(AlignError::InvalidDate));
    assert_eq!(format_service_time(u32::MAX), Err(AlignError::InvalidDate));
}

#[test]
fn date_is_written_as_its_midnight() {
    assert_eq!(format_date(&date(2021, 3, 4)), Ok("2021-03-04T00:00:00".to_string()));
    assert_eq!(format_date(&date(1999, 12, 31)), Ok("1999-12-31T00:00:00".to_string()));
    assert_eq!(format_date(&date(2020, 2, 29)), Ok("2020-02-29T00:00:00".to_string()));
    assert_eq!(format_date(&date(2000, 2, 29)), Ok("2000-02-29T00:00:00".to_string()));
}

#[test]
fn years_are_written_in_four_digits_or_with_their_sign() {
    assert_eq!(format_date(&date(0, 1, 1)), Ok("0000-01-01T00:00:00".to_string()));
    assert_eq!(format_date(&date(5, 6, 7)), Ok("0005-06-07T00:00:00".to_string()));
    assert_eq!(format_date(&date(987, 6, 7)), Ok("0987-06-07T00:00:00".to_string()));
    assert_eq!(format_date(&date(9999, 12, 31)), Ok("9999-12-31T00:00:00".to_string()));
    assert_eq!(format_date(&date(10000, 1, 1)), Ok("+10000-01-01T00:00:00".to_string()));
    assert_eq!(format_date(&date(262142, 12, 31)), Ok("+262142-12-31T00:00:00".to_string()));
    assert_eq!(format_date(&date(-1, 1, 1)), Ok("-0001-01-01T00:00:00".to_string()));
    assert_eq!(format_date(&date(-44, 3, 15)), Ok("-0044-03-15T00:00:00".to_string()));
    assert_eq!(format_date(&date(-9999, 3, 15)), Ok("-9999-03-15T00:00:00".to_string()));
    assert_eq!(format_date(&date(-10000, 3, 15)), Ok("-10000-03-15T00:00:00".to_string()));
    assert_eq!(format_date(&date(-262143, 1, 1)), Ok("-262143-01-01T00:00:00".to_string()));
    assert_eq!(format_date(&date(-4, 2, 29)), Ok("-0004-02-29T00:00:00".to_string()));
}

#[test]
fn days_that_do_not_exist_are_refused() {
    for (y, m, d) in [
        (2021, 2, 29),
        (1900, 2, 29),
        (2100, 2, 29),
        (2021, 4, 31),
        (2021, 6, 31),
        (2021, 9, 31),
        (2021, 11, 31),
        (2021, 1, 32),
        (2021, 0, 1),
        (2021, 13, 1),
        (2021, 1, 0),
        (2021, u32::MAX, 1),
        (2021, 1, u32::MAX),
        (262143, 1, 1),
        (-262144, 1, 1),
        (i32::MAX, 1, 1),
        (i32::MIN, 1, 1),
        (-1, 2, 29),
    ] {
        assert_eq!(format_date(&date(y, m, d)), Err(AlignError::InvalidDate), "{}-{}-{}", y, m, d);
    }
}

#[test]
fn last_days_of_months_exist() {
    let lengths = [31, 28, 31, 30, 31, 30, 31, 31, 30, 31, 30, 31];
    for (i, n) in lengths.iter().enumerate() {
        let month = i as u32 + 1;
        assert!(format_date(&date(2021, month, *n)).is_ok());
        assert_eq!(format_date(&date(2021, month, *n + 1)), Err(AlignError::InvalidDate));
    }
    assert!(format_date(&date(2024, 2, 29)).is_ok());
    assert_eq!(format_date(&date(2024, 2, 30)), Err(AlignError::InvalidDate));
}

fn days_in_month(year: i64, month: i64) -> i64 {
    let leap = year.rem_euclid(4) == 0 && (year.rem_euclid(100) != 0 || year.rem_euclid(400) == 0);
    match month {
        2 => {
            if leap {
                29
            } else {
                28
            }
        }
        4 | 6 | 9 | 11 => 30,
        _ => 31,
    }
}

fn expected_date(year: i32, month: u32, day: u32) -> Result<String, AlignError> {
    let (y, m, d) = (year as i64, month as i64, day as i64);
    if y < -262143 || y > 262142 || m < 1 || m > 12 || d < 1 || d > days_in_month(y, m) {
        return Err(AlignError::InvalidDate);
    }
    let year_text = if y < 0 {
        format!("-{:04}", -y)
    } else if y <= 9999 {
        format!("{:04}", y)
    } else {
        format!("+{}", y)
    };
    Ok(format!("{}-{:02}-{:02}T00:00:00", year_text, m, d))
}

#[test]
fn dates_are_written_as_described_on_many_dates() {
    let mut seed: u64 = 23;
    let mut next = || {
        seed = seed.wrapping_mul(6364136223846793005).wrapping_add(1442695040888963407);
        (seed >> 33) as i64
    };
    let mut valid = 0;
    for _ in 0..20000 {
        let year = match next() % 4 {
            0 => next() % 3000,
            1 => next() % 600000 - 300000,
            2 => -(next() % 12000),
            _ => 9990 + next() % 20,
        } as i32;
        let month = (next() % 14) as u32;
        let day = (next() % 33) as u32;
        let expected = expected_date(year, month, day);
        if expected.is_ok() {
            valid += 1;
        }
        assert_eq!(format_date(&date(year, month, day)), expected, "{}-{}-{}", year, month, day);
    }
    assert!(valid > 5000);
}

#[test]
fn service_times_are_written_as_described_on_many_times() {
    for step in 0..30000u32 {
        let seconds = step.wrapping_mul(89) % (32 * 86400);
        let day = 1 + seconds / 86400;
        let rest = seconds % 86400;
        let expected = if day > 31 {
            Err(AlignError::InvalidDate)
        } else {
            Ok(format!(
                "0000-01-{:02}T{:02}:{:02}:{:02}",
                day,
                rest / 3600,
                rest / 60 % 60,
                rest % 60
            ))
        };
        assert_eq!(format_service_time(seconds), expected, "{}", seconds);
    }
}
