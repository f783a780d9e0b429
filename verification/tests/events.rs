use rall::event::{event_at, event_from_stamp, event_style};
use rall::stamp::{is_stamp, stamp_at};
use rall::{Level, Style};

fn without_escapes(text: &str) -> String {
    let mut out = String::new();
    let mut inside = false;
    for c in text.chars() {
        if inside {
            inside = c != 'm';
        } else if c == '\x1b' {
            inside = true;
        } else {
            out.push(c);
        }
    }
    out
}

/// Checks `[<stamp> <label>] <message>` and a line feed, with a stamp of the
/// shape that `is_stamp` accepts.
fn check_stamped(text: &str, label: &str, message: &str) {
    assert!(text.starts_with('['));
    let stamp = &text[1..25];
    assert!(is_stamp(stamp), "stamp {:?}", stamp);
    assert_eq!(&text[25..], format!(" {}] {}\n", label, message));
}

#[test]
fn event_from_stamp_styles_all_but_info() {
    assert_eq!(
        event_from_stamp(Level::TRACE, "S", "m"),
        "\x1b[0m\x1b[1m\x1b[34m[S TRACE] m\n\x1b[0m"
    );
    assert_eq!(
        event_from_stamp(Level::DEBUG, "S", "m"),
        "\x1b[0m\x1b[1m\x1b[32m[S DEBUG] m\n\x1b[0m"
    );
    assert_eq!(event_from_stamp(Level::INFO, "S", "m"), "[S INFO] m\n");
    assert_eq!(
        event_from_stamp(Level::WARN, "S", "m"),
        "\x1b[0m\x1b[1m\x1b[33m[S WARN] m\n\x1b[0m"
    );
    assert_eq!(
        event_from_stamp(Level::ERROR, "S", "m"),
        "\x1b[0m\x1b[38;5;9m[S ERROR] m\n\x1b[0m"
    );
    assert_eq!(
        event_from_stamp(Level::FATAL, "S", "m"),
        "\x1b[0m\x1b[1m\x1b[31m[S FATAL] m\n\x1b[0m"
    );
}

#[test]
fn info_event_has_no_escape_at_all() {
    let text = event_from_stamp(Level::INFO, "2001-07-08T00:34:59+0000", "quiet");
    assert!(!text.contains('\x1b'));
    assert_eq!(text, "[2001-07-08T00:34:59+0000 INFO] quiet\n");
}

#[test]
fn event_at_the_epoch() {
    assert_eq!(
        event_at(Level::INFO, 0, "x"),
        Some(String::from("[1970-01-01T00:00:00+0000 INFO] x\n"))
    );
    assert_eq!(
        event_at(Level::ERROR, 0, "x"),
        Some(String::from("\x1b[0m\x1b[38;5;9m[1970-01-01T00:00:00+0000 ERROR] x\n\x1b[0m"))
    );
}

#[test]
fn event_at_writes_month_before_day() {
    assert_eq!(
        event_at(Level::INFO, 1431648000, "x"),
        Some(String::from("[2015-05-15T00:00:00+0000 INFO] x\n"))
    );
    assert_eq!(
        event_at(Level::INFO, 994552499, "x"),
        Some(String::from("[2001-07-08T00:34:59+0000 INFO] x\n"))
    );
}

#[test]
fn event_at_before_the_epoch() {
    assert_eq!(
        event_at(Level::INFO, -1, "x"),
        Some(String::from("[1969-12-31T23:59:59+0000 INFO] x\n"))
    );
}

#[test]
fn event_at_beyond_the_calendar_is_none() {
    assert_eq!(event_at(Level::WARN, i64::MAX, "x"), None);
    assert_eq!(event_at(Level::WARN, i64::MIN, "x"), None);
}

#[test]
fn error_event_now_has_the_stamped_shape() {
    let now = chrono::Utc::now().timestamp();
    let text = rall::error(now, "x").unwrap();
    assert!(text.starts_with("\x1b[0m\x1b[38;5;9m["));
    assert!(text.ends_with("\n\x1b[0m"));
    check_stamped(&without_escapes(&text), "ERROR", "x");
}

#[test]
fn each_call_site_uses_its_level() {
    let now = chrono::Utc::now().timestamp();
    check_stamped(&without_escapes(&rall::trace(now, "a").unwrap()), "TRACE", "a");
    check_stamped(&without_escapes(&rall::debug(now, "b").unwrap()), "DEBUG", "b");
    check_stamped(&rall::info(now, "c").unwrap(), "INFO", "c");
    check_stamped(&without_escapes(&rall::warn(now, "d").unwrap()), "WARN", "d");
    check_stamped(&without_escapes(&rall::error(now, "e").unwrap()), "ERROR", "e");
    check_stamped(&without_escapes(&rall::fatal(now, "f").unwrap()), "FATAL", "f");
}

#[test]
fn call_sites_give_the_exact_event() {
    assert_eq!(
        rall::trace(0, "m"),
        Some(String::from("\x1b[0m\x1b[1m\x1b[34m[1970-01-01T00:00:00+0000 TRACE] m\n\x1b[0m"))
    );
    assert_eq!(
        rall::debug(0, "m"),
        Some(String::from("\x1b[0m\x1b[1m\x1b[32m[1970-01-01T00:00:00+0000 DEBUG] m\n\x1b[0m"))
    );
    assert_eq!(rall::info(0, "m"), Some(String::from("[1970-01-01T00:00:00+0000 INFO] m\n")));
    assert_eq!(
        rall::warn(0, "m"),
        Some(String::from("\x1b[0m\x1b[1m\x1b[33m[1970-01-01T00:00:00+0000 WARN] m\n\x1b[0m"))
    );
    assert_eq!(
        rall::error(0, "m"),
        Some(String::from("\x1b[0m\x1b[38;5;9m[1970-01-01T00:00:00+0000 ERROR] m\n\x1b[0m"))
    );
    assert_eq!(
        rall::fatal(0, "m"),
        Some(String::from("\x1b[0m\x1b[1m\x1b[31m[1970-01-01T00:00:00+0000 FATAL] m\n\x1b[0m"))
    );
}

#[test]
fn call_sites_equal_event_at() {
    let secs = 1431648000;
    assert_eq!(rall::trace(secs, "m"), event_at(Level::TRACE, secs, "m"));
    assert_eq!(rall::debug(secs, "m"), event_at(Level::DEBUG, secs, "m"));
    assert_eq!(rall::info(secs, "m"), event_at(Level::INFO, secs, "m"));
    assert_eq!(rall::warn(secs, "m"), event_at(Level::WARN, secs, "m"));
    assert_eq!(rall::error(secs, "m"), event_at(Level::ERROR, secs, "m"));
    assert_eq!(rall::fatal(secs, "m"), event_at(Level::FATAL, secs, "m"));
}

#[test]
fn call_sites_beyond_the_calendar_are_none() {
    assert_eq!(rall::trace(i64::MAX, "m"), None);
    assert_eq!(rall::info(i64::MIN, "m"), None);
}

#[test]
fn stamp_at_writes_year_month_day_hour_minute_second_offset() {
    assert_eq!(stamp_at(0), Some(String::from("1970-01-01T00:00:00+0000")));
    assert_eq!(stamp_at(994552499), Some(String::from("2001-07-08T00:34:59+0000")));
    assert_eq!(stamp_at(1709210096), Some(String::from("2024-02-29T12:34:56+0000")));
    assert_eq!(stamp_at(-1), Some(String::from("1969-12-31T23:59:59+0000")));
}

#[test]
fn stamp_at_does_not_hand_back_its_format() {
    let stamp = stamp_at(86400).unwrap();
    assert_eq!(stamp, "1970-01-02T00:00:00+0000");
    assert!(!stamp.contains('%'));
    assert!(is_stamp(&stamp));
}

#[test]
fn stamp_at_beyond_the_calendar_is_none() {
    assert_eq!(stamp_at(i64::MAX), None);
    assert_eq!(stamp_at(i64::MIN), None);
}

#[test]
fn stamp_of_the_present_has_the_shape() {
    let stamp = stamp_at(chrono::Utc::now().timestamp()).unwrap();
    assert!(is_stamp(&stamp));
    let year: u32 = stamp[0..4].parse().unwrap();
    assert!(year >= 2024);
    assert_eq!(&stamp[19..], "+0000");
}

#[test]
fn event_style_is_none_for_info_only() {
    assert_eq!(event_style(Level::INFO), None);
    for level in Level::all() {
        if level != Level::INFO {
            assert_eq!(event_style(level), Some(level.style()));
        }
    }
    assert_eq!(
        event_style(Level::ERROR),
        Some(Style { fg: rall::Foreground::Red, bold: false, intense: true, dimmed: false })
    );
}

#[test]
fn is_stamp_accepts_the_shape() {
    assert!(is_stamp("1970-01-01T00:00:00+0000"));
    assert!(is_stamp("2024-02-29T23:59:60-0930"));
    assert!(is_stamp("0000-00-00T00:00:00+0000"));
}

#[test]
fn is_stamp_refuses_other_texts() {
    assert!(!is_stamp(""));
    assert!(!is_stamp("1970-01-01T00:00:00+000"));
    assert!(!is_stamp("1970-01-01T00:00:00+00000"));
    assert!(!is_stamp("1970-01-01 00:00:00+0000"));
    assert!(!is_stamp("1970/01/01T00:00:00+0000"));
    assert!(!is_stamp("1970-01-01T00.00.00+0000"));
    assert!(!is_stamp("1970-01-01T00:00:00Z0000"));
    assert!(!is_stamp("197o-01-01T00:00:00+0000"));
    assert!(!is_stamp("1970-01-01T00:00:00+00\u{e9}0"));
    assert!(!is_stamp("+10000-01-01T00:00:00+0000"));
}

#[test]
fn event_at_the_last_second_of_a_four_digit_year() {
    assert_eq!(
        event_at(Level::INFO, 253402300799, "x"),
        Some(String::from("[9999-12-31T23:59:59+0000 INFO] x\n"))
    );
}

#[test]
fn event_at_passes_on_a_longer_year_as_it_comes() {
    let text = event_at(Level::INFO, 253402300800, "x").unwrap();
    assert_eq!(text, "[+10000-01-01T00:00:00+0000 INFO] x\n");
    assert!(!is_stamp(&text[1..text.find(' ').unwrap()]));
}

#[test]
fn event_keeps_newlines_and_escapes_of_the_message() {
    let message = "a\nb \x1b[32mgreen\x1b[0m";
    for level in Level::all() {
        let text = event_from_stamp(level, "1970-01-01T00:00:00+0000", message);
        let start = text.find("] ").unwrap() + 2;
        assert_eq!(&text[start..start + message.len()], message);
        let tail = &text[start + message.len()..];
        if level == Level::INFO {
            assert_eq!(tail, "\n");
        } else {
            assert_eq!(tail, "\n\x1b[0m");
        }
    }
}
