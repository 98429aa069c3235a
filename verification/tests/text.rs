use vod2pod_rss::dates::{comes_after, Moment};
use vod2pod_rss::duration::{
    clock_counts, duration_to_seconds, iso_duration_to_hms, parse_duration, read_clock,
    read_printed_duration, write_clock, write_seconds, IsoDuration,
};
use vod2pod_rss::numerals::{read_number, write_number, write_two_digits};
use vod2pod_rss::text::{
    comes_before, contains, ends_with, equal_but_case, first_filled_line, lines, split,
    starts_with, trim, utf8_or_empty,
};

#[test]
fn bytes_that_are_no_text_decode_to_nothing() {
    assert_eq!(utf8_or_empty("h\u{e9}".as_bytes()), "h\u{e9}");
    assert_eq!(utf8_or_empty(&[0x68, 0xff]), "");
}

#[test]
fn white_space_is_cut_off_like_std_does() {
    for s in ["", "  ", "\u{a0}a b\u{3000}\n", "x", "\u{200b}x\u{85}"] {
        assert_eq!(trim(s), s.trim());
    }
}

#[test]
fn lines_are_cut_like_std_does() {
    for s in ["", "\n", "a\r\nb\n\nc", "a\rb\r", "\r\n\r\n", "last\n"] {
        let expected: Vec<String> = s.lines().map(str::to_string).collect();
        assert_eq!(lines(s), expected);
    }
}

#[test]
fn texts_are_split_like_std_does() {
    for s in ["", ":", "1:02:03", "a::b:"] {
        let expected: Vec<String> = s.split(':').map(str::to_string).collect();
        assert_eq!(split(s, ':'), expected);
    }
}

#[test]
fn texts_are_searched_like_std_does() {
    for (whole, part) in [("abcab", "ab"), ("abcab", "ca"), ("ab", "abc"), ("", ""), ("x", "")] {
        assert_eq!(starts_with(whole, part), whole.starts_with(part));
        assert_eq!(ends_with(whole, part), whole.ends_with(part));
        assert_eq!(contains(whole, part), whole.contains(part));
    }
}

#[test]
fn case_does_not_count_for_ascii_letters_only() {
    assert!(equal_but_case("FaLse", "false"));
    assert!(!equal_but_case("\u{c9}", "\u{e9}"));
    assert!(!equal_but_case("[", "{"));
}

#[test]
fn texts_are_ordered_like_std_does() {
    for (a, b) in [("a", "b"), ("b", "a"), ("a", "a"), ("a", "aa"), ("\u{e9}", "z"), ("", "a")] {
        assert_eq!(comes_before(a, b), a < b);
    }
}

#[test]
fn the_first_filled_line_is_found_and_trimmed() {
    assert_eq!(first_filled_line(" \n\t\n  http://a \nhttp://b"), Some("http://a".to_string()));
    assert_eq!(first_filled_line("\n \n"), None);
}

#[test]
fn numbers_are_read_like_std_does() {
    for s in ["0", "7", "+7", "-7", "", "+", "007", "18446744073709551615", "18446744073709551616", "1x"] {
        assert_eq!(read_number(s, u64::MAX), s.parse::<u64>().ok(), "{s}");
    }
    assert_eq!(read_number("256", 255), None);
}

#[test]
fn numbers_are_written_like_std_does() {
    for n in [0, 7, 10, 100, 65535, u64::MAX] {
        assert_eq!(write_number(n), n.to_string());
        assert_eq!(write_two_digits(n), format!("{n:02}"));
        assert_eq!(read_number(&write_number(n), u64::MAX), Some(n));
    }
}

#[test]
fn clocks_are_read_from_their_end() {
    assert_eq!(parse_duration("1:02:03"), Ok(3723));
    assert_eq!(parse_duration("2:03"), Ok(123));
    assert_eq!(parse_duration("3"), Ok(3));
    assert_eq!(parse_duration("9:1:02:03"), Ok(3723));
    assert_eq!(parse_duration("x:1:02:03"), Ok(3723));
    assert_eq!(parse_duration("1:75"), Ok(135));
}

#[test]
fn what_is_no_clock_is_refused() {
    for s in ["", "1:", ":3", "a", "1:-2", "x:02:03"] {
        assert_eq!(parse_duration(s), Err("Invalid format".to_string()), "{s}");
    }
}

#[test]
fn clocks_that_overflow_are_told() {
    assert!(clock_counts("18446744073709551615"));
    assert!(!clock_counts("1:18446744073709551615"));
    assert!(!clock_counts("18446744073709551615:0:0"));
    assert!(clock_counts("nothing"));
    assert!(clock_counts("999999999999999:9"));
    assert!(clock_counts("9999999999999:9:9"));
    assert_eq!(read_clock("1:18446744073709551615"), Some((0, 1, u64::MAX)));
}

#[test]
fn durations_are_carried_over() {
    let d = |hour, minute, second| IsoDuration { hour, minute, second };
    assert_eq!(iso_duration_to_hms(&d(0, 0, 3725)), (1, 2, 5));
    assert_eq!(iso_duration_to_hms(&d(1, 75, 61)), (2, 16, 1));
    assert_eq!(iso_duration_to_hms(&d(-1, -5, -3)), (0, 0, 0));
    assert_eq!(duration_to_seconds(&d(1, 2, 3)), 3723);
    assert!(d(0, 0, i64::MAX).counts());
    assert!(!d(i64::MAX, 60, 0).counts());
    assert!(!d(i64::MAX, 0, 0).counts());
    assert!(d(i64::MAX, 0, 0).carrying_fits());
    assert!(!d(0, i64::MAX, 60).carrying_fits());
}

#[test]
fn clocks_are_written_with_two_digits() {
    assert_eq!(write_clock(1, 2, 3), "01:02:03");
    assert_eq!(write_clock(100, 0, 59), "100:00:59");
    assert_eq!(write_seconds(0), "00:00:00");
    assert_eq!(write_seconds(359_999), "99:59:59");
    assert_eq!(parse_duration(&write_seconds(86_399)), Ok(86_399));
}

#[test]
fn printed_durations_are_read() {
    assert_eq!(read_printed_duration(b" 10:01\n"), 601);
    assert_eq!(read_printed_duration(b"ERROR"), 0);
    assert_eq!(read_printed_duration(&[0xff]), 0);
}

#[test]
fn dates_are_written_as_rfc_2822() {
    let at = |secs, nanos| Moment { secs, nanos };
    assert_eq!(
        at(1_700_000_000, 0).write_date(),
        Some("Tue, 14 Nov 2023 22:13:20 +0000".to_string())
    );
    assert_eq!(at(0, 999_999_999).write_date(), Some("Thu, 1 Jan 1970 00:00:00 +0000".to_string()));
    assert_eq!(at(i64::MIN, 0).write_date(), None);
    assert_eq!(at(0, 2_000_000_000).write_date(), None);
}

#[test]
fn dates_of_far_years_are_told() {
    let at = |secs| Moment { secs, nanos: 0 };
    assert!(at(253_402_300_799).dates());
    assert_eq!(
        at(253_402_300_799).write_date(),
        Some("Fri, 31 Dec 9999 23:59:59 +0000".to_string())
    );
    assert!(!at(253_402_300_800).dates());
    assert!(at(-62_167_219_200).dates());
    assert!(at(-62_167_219_200).write_date().is_some());
    assert!(!at(-62_167_219_201).dates());
    assert!(!at(8_210_266_876_799).dates());
    assert!(!at(-8_334_601_228_800).dates());
    assert!(at(-8_334_601_228_801).dates());
    assert_eq!(at(-8_334_601_228_801).write_date(), None);
    assert!(at(8_210_266_876_800).dates());
    assert_eq!(at(8_210_266_876_800).write_date(), None);
}

#[test]
fn leap_seconds_are_those_of_a_minutes_end() {
    let leap = |secs| Moment { secs, nanos: 1_500_000_000 };
    assert_eq!(leap(59).write_date(), Some("Thu, 1 Jan 1970 00:00:60 +0000".to_string()));
    assert_eq!(leap(58).write_date(), None);
    assert_eq!(leap(-1).write_date(), Some("Wed, 31 Dec 1969 23:59:60 +0000".to_string()));
}

#[test]
fn things_without_a_date_come_first() {
    let at = |secs, nanos| Some(Moment { secs, nanos });
    assert!(comes_after(&at(2, 0), &at(1, 9)));
    assert!(comes_after(&at(1, 9), &at(1, 8)));
    assert!(!comes_after(&at(1, 8), &at(1, 8)));
    assert!(comes_after(&at(-5, 0), &None));
    assert!(!comes_after(&None, &None));
    assert!(!comes_after(&None, &at(-5, 0)));
}
