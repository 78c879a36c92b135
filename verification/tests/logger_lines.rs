use iface_proxy::clock::{now, now_sec};
use iface_proxy::logger::{
    current_timestamp_prefix, format_line, log_throttled, suppressed_message, Level, LocalTime,
    LogLine, RateWindow, Stream, Throttle, LOGS_PER_SEC,
};
use iface_proxy::shared::{verdict_on, Seen, SharedWindow};

fn at(year: i32, month: i32, day: i32, hour: i32, minute: i32, second: i32) -> LocalTime {
    LocalTime { year: year - 1900, month: month - 1, day, hour, minute, second }
}

#[test]
fn timestamp_is_zero_padded() {
    let t = at(2024, 3, 7, 9, 5, 1);
    assert_eq!(current_timestamp_prefix(&t, 42), b"[2024-03-07 09:05:01.042]".to_vec());
}

#[test]
fn timestamp_with_full_fields() {
    let t = at(1999, 12, 31, 23, 59, 59);
    assert_eq!(current_timestamp_prefix(&t, 999), b"[1999-12-31 23:59:59.999]".to_vec());
    assert_eq!(current_timestamp_prefix(&t, 0), b"[1999-12-31 23:59:59.000]".to_vec());
}

#[test]
fn timestamp_matches_the_standard_formatting() {
    let cases = [
        (70, 0, 1, 0, 0, 0, 0u32),
        (-1900, 0, 1, 0, 0, 60, 7),
        (-1905, 11, 31, 23, 59, 59, 1000),
        (8100, 0, 1, 0, 0, 0, 12345),
        (i32::MAX, i32::MAX, i32::MIN, -1, -9, -10, u32::MAX),
        (i32::MIN, i32::MIN, 0, 0, 0, 0, 0),
    ];
    for (year, month, day, hour, minute, second, millis) in cases {
        let t = LocalTime { year, month, day, hour, minute, second };
        let y = year as i64 + 1900;
        let mo = month as i64 + 1;
        let expected =
            format!("[{y:04}-{mo:02}-{day:02} {hour:02}:{minute:02}:{second:02}.{millis:03}]");
        assert_eq!(current_timestamp_prefix(&t, millis), expected.into_bytes());
    }
}

#[test]
fn lines_carry_level_in_colour() {
    let stamp = b"[2024-03-07 09:05:01.042]";
    assert_eq!(
        format_line(Level::Info, true, stamp, b"hello"),
        b"[2024-03-07 09:05:01.042] \x1b[32mINFO\x1b[0m hello".to_vec()
    );
    assert_eq!(
        format_line(Level::Log, true, stamp, b"hello"),
        b"[2024-03-07 09:05:01.042] \x1b[36mLOG\x1b[0m hello".to_vec()
    );
    assert_eq!(
        format_line(Level::Error, true, stamp, b"hello"),
        b"[2024-03-07 09:05:01.042] \x1b[31mERROR\x1b[0m hello".to_vec()
    );
}

#[test]
fn lines_carry_level_without_colour() {
    let stamp = b"[2024-03-07 09:05:01.042]";
    assert_eq!(
        format_line(Level::Info, false, stamp, b"a b"),
        b"[2024-03-07 09:05:01.042] INFO a b".to_vec()
    );
    assert_eq!(Level::Log.tag(false), b"LOG".to_vec());
    assert_eq!(Level::Error.tag(false), b"ERROR".to_vec());
}

#[test]
fn errors_go_to_the_diagnostic_stream() {
    assert_eq!(Level::Error.stream(), Stream::Diagnostic);
    assert_eq!(Level::Info.stream(), Stream::Standard);
    assert_eq!(Level::Log.stream(), Stream::Standard);
}

#[test]
fn suppressed_message_names_the_count() {
    assert_eq!(suppressed_message(7), b"suppressed 7 messages in last 1s".to_vec());
    assert_eq!(suppressed_message(1250), b"suppressed 1250 messages in last 1s".to_vec());
    assert_eq!(
        suppressed_message(u64::MAX),
        b"suppressed 18446744073709551615 messages in last 1s".to_vec()
    );
}

#[test]
fn fifty_lines_a_second_and_no_more() {
    let mut w = RateWindow::new();
    let mut emitted = 0;
    for _ in 0..120 {
        if log_throttled(&mut w, 1000).emit {
            emitted += 1;
        }
    }
    assert_eq!(emitted, 50);
    assert_eq!(LOGS_PER_SEC, 50);
    assert_eq!(w, RateWindow { window_second: 1000, count_in_window: 120, suppressed_in_window: 70 });
}

#[test]
fn first_fifty_lines_are_the_ones_written() {
    let mut w = RateWindow::new();
    for i in 0..60 {
        let t = log_throttled(&mut w, 5);
        assert_eq!(t.emit, i < 50);
    }
}

#[test]
fn suppressed_lines_are_reported_once_in_the_next_window() {
    let mut w = RateWindow::new();
    for _ in 0..53 {
        log_throttled(&mut w, 10);
    }
    assert_eq!(log_throttled(&mut w, 11), Throttle { emit: true, suppressed_before: 3 });
    assert_eq!(log_throttled(&mut w, 11), Throttle { emit: true, suppressed_before: 0 });
    assert_eq!(log_throttled(&mut w, 12), Throttle { emit: true, suppressed_before: 0 });
}

#[test]
fn report_is_worded_for_the_log() {
    let t = Throttle { emit: true, suppressed_before: 3 };
    assert_eq!(
        t.notice(),
        Some(LogLine {
            level: Level::Log,
            throttled: false,
            message: b"suppressed 3 messages in last 1s".to_vec()
        })
    );
    let t = Throttle { emit: false, suppressed_before: 0 };
    assert_eq!(t.notice(), None);
}

#[test]
fn nothing_is_reported_when_nothing_was_suppressed() {
    let mut w = RateWindow::new();
    for _ in 0..50 {
        assert!(log_throttled(&mut w, 10).emit);
    }
    assert_eq!(log_throttled(&mut w, 11), Throttle { emit: true, suppressed_before: 0 });
}

#[test]
fn a_new_second_opens_a_new_window() {
    let mut w = RateWindow::new();
    for _ in 0..80 {
        log_throttled(&mut w, 10);
    }
    assert!(!log_throttled(&mut w, 10).emit);
    let t = log_throttled(&mut w, 11);
    assert!(t.emit);
    assert_eq!(t.suppressed_before, 31);
    assert_eq!(w, RateWindow { window_second: 11, count_in_window: 1, suppressed_in_window: 0 });
}

#[test]
fn second_zero_is_the_initial_window() {
    let mut w = RateWindow::new();
    assert_eq!(w, RateWindow { window_second: 0, count_in_window: 0, suppressed_in_window: 0 });
    assert_eq!(log_throttled(&mut w, 0), Throttle { emit: true, suppressed_before: 0 });
    assert_eq!(w.count_in_window, 1);
}

#[test]
fn counters_stop_at_the_largest_number() {
    let mut w = RateWindow {
        window_second: 3,
        count_in_window: u64::MAX,
        suppressed_in_window: u64::MAX,
    };
    assert!(!log_throttled(&mut w, 3).emit);
    assert_eq!(w.count_in_window, u64::MAX);
    assert_eq!(w.suppressed_in_window, u64::MAX);
}

#[test]
fn clock_reads_a_time_after_the_epoch() {
    let (secs, millis) = now();
    assert!(millis < 1000);
    assert!(secs > 1_600_000_000);
    let s = now_sec();
    assert!(s >= secs);
    assert!(s - secs < 60);
}

#[test]
fn shared_window_answers_like_the_window_in_turn() {
    let shared = SharedWindow::new();
    let mut in_turn = RateWindow::new();
    let seconds = [0u64, 0, 7, 7, 7, 8, 9, 9];
    for second in seconds {
        for _ in 0..40 {
            let (_, got) = shared.throttle(second);
            assert_eq!(got, log_throttled(&mut in_turn, second));
        }
    }
}

#[test]
fn shared_window_lets_fifty_lines_through() {
    let shared = SharedWindow::new();
    let mut emitted = 0;
    for _ in 0..130 {
        if shared.throttle(12).1.emit {
            emitted += 1;
        }
    }
    assert_eq!(emitted, 50);
    let (seen, verdict) = shared.throttle(13);
    assert_eq!(seen, Seen { window_second: 12, opened: true, suppressed: 80, count: 0 });
    assert_eq!(verdict, Throttle { emit: true, suppressed_before: 80 });
    let (seen, verdict) = shared.throttle(13);
    assert_eq!(seen, Seen { window_second: 13, opened: false, suppressed: 0, count: 1 });
    assert_eq!(verdict, Throttle { emit: true, suppressed_before: 0 });
}

#[test]
fn verdict_follows_what_was_seen() {
    let seen = Seen { window_second: 3, opened: false, suppressed: 9, count: 49 };
    assert_eq!(verdict_on(seen), Throttle { emit: true, suppressed_before: 0 });
    let seen = Seen { window_second: 3, opened: true, suppressed: 9, count: 50 };
    assert_eq!(verdict_on(seen), Throttle { emit: false, suppressed_before: 9 });
}
