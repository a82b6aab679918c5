use termhost::calendar::{civil_from_days, Date};
use termhost::decimal::{push_decimal, push_padded};
use termhost::panic_log::{
    log_entry, log_file_name, log_line, panic_line, timestamp, timestamp_at, LOG_DIRECTORY,
};
use termhost::text_order::not_after;

#[test]
fn timestamp_is_well_formed() {
    let t = timestamp();
    assert_eq!(t.len(), 20, "unexpected timestamp {t}");
    assert!(t.ends_with('Z'));
    let year: i32 = t[..4].parse().expect("year");
    assert!((2024..2100).contains(&year), "implausible year in {t}");
}

#[test]
fn timestamp_follows_the_clock() {
    let seconds = || {
        std::time::SystemTime::now()
            .duration_since(std::time::UNIX_EPOCH)
            .expect("a clock after 1970")
            .as_secs()
    };
    let before = seconds();
    let now = timestamp();
    let after = seconds();
    assert!((before..=after).any(|s| timestamp_at(Some(s)) == now), "{now}");
}

#[test]
fn known_times_are_written_out() {
    assert_eq!(timestamp_at(Some(0)), "1970-01-01T00:00:00Z");
    assert_eq!(timestamp_at(Some(951_782_399)), "2000-02-28T23:59:59Z");
    assert_eq!(timestamp_at(Some(951_782_400)), "2000-02-29T00:00:00Z");
    assert_eq!(timestamp_at(Some(1_709_210_096)), "2024-02-29T12:34:56Z");
    assert_eq!(timestamp_at(Some(4_107_542_399)), "2100-02-28T23:59:59Z");
    assert_eq!(timestamp_at(Some(4_107_542_400)), "2100-03-01T00:00:00Z");
    assert_eq!(timestamp_at(Some(253_402_300_799)), "9999-12-31T23:59:59Z");
    assert_eq!(timestamp_at(Some(253_402_300_800)), "10000-01-01T00:00:00Z");
    assert_eq!(timestamp_at(Some(u64::MAX)), "1969-12-31T23:59:59Z");
    assert_eq!(timestamp_at(None), "????-??-??T??:??:??Z");
}

#[test]
fn neighbouring_seconds_differ() {
    for s in [0u64, 59, 3599, 86_399, 951_868_799, 1_700_000_000] {
        assert_ne!(timestamp_at(Some(s)), timestamp_at(Some(s + 1)));
    }
}

#[test]
fn timestamps_are_in_the_order_of_time() {
    let seconds = [
        0u64, 1, 59, 60, 3599, 3600, 86_399, 86_400, 951_782_399, 951_782_400, 1_709_210_096,
        4_107_542_399, 4_107_542_400, 253_402_300_799,
    ];
    for a in seconds {
        for b in seconds {
            let (x, y) = (timestamp_at(Some(a)), timestamp_at(Some(b)));
            assert_eq!(not_after(&x, &y), a <= b, "{x} {y}");
            assert!(x.is_ascii());
        }
    }
    // The year 10000 is where that ends.
    assert!(timestamp_at(Some(253_402_300_800)) < timestamp_at(Some(253_402_300_799)));
}

#[test]
fn days_run_through_the_calendar() {
    let leap = |y: i64| y % 4 == 0 && (y % 100 != 0 || y % 400 == 0);
    let mut expected = Date { year: 1899, month: 12, day: 31 };
    // 1 January 1900 is day -25567.
    for days in -25_567i64..=200_000 {
        let len = match expected.month {
            2 => 28 + leap(expected.year) as i64,
            4 | 6 | 9 | 11 => 30,
            _ => 31,
        };
        expected = if expected.day < len {
            Date { day: expected.day + 1, ..expected }
        } else if expected.month < 12 {
            Date { year: expected.year, month: expected.month + 1, day: 1 }
        } else {
            Date { year: expected.year + 1, month: 1, day: 1 }
        };
        assert_eq!(civil_from_days(days), expected, "day {days}");
    }
    assert_eq!(civil_from_days(-719_468), Date { year: 0, month: 3, day: 1 });
    assert_eq!(civil_from_days(-719_469), Date { year: 0, month: 2, day: 29 });
}

#[test]
fn numbers_are_padded_as_in_std() {
    for n in [0i64, 7, 42, 999, 1000, 123_456, -1, -42, -1234, i64::MAX, i64::MIN] {
        let mut text = String::new();
        push_padded(&mut text, n, 4);
        assert_eq!(text, format!("{n:04}"));
        let mut text = String::from("x");
        push_padded(&mut text, n, 0);
        assert_eq!(text, format!("x{n}"));
    }
    for n in [0u64, 9, 10, 65535, u64::MAX] {
        let mut text = String::new();
        push_decimal(&mut text, n);
        assert_eq!(text, n.to_string());
    }
}

#[test]
fn log_lines_bear_the_time() {
    assert_eq!(
        log_entry("1970-01-01T00:00:00Z", "hello"),
        "[1970-01-01T00:00:00Z] hello\n"
    );
    let line = log_line("lost");
    assert_eq!(line.len(), 28);
    assert!(line.starts_with("[2") && line.ends_with("Z] lost\n"));
}

#[test]
fn logs_are_named_after_their_program() {
    assert_eq!(log_file_name("termhostd"), "termhostd.log");
    assert_eq!(LOG_DIRECTORY, "TermHost");
}

#[test]
fn panics_are_told_with_all_that_is_known() {
    assert_eq!(
        panic_line(Some("main"), Some(("src/main.rs", 42)), Some("boom")),
        "PANIC in thread 'main' at src/main.rs:42: boom"
    );
    assert_eq!(
        panic_line(None, None, None),
        "PANIC in thread '<unnamed>' at <unknown location>: <non-string panic payload>"
    );
}
