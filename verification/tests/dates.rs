//! Dates and clock times.
use pro_logue::calendar::{is_earlier, read_stamp, Moment, TimeOfDay, FIRST_YEAR, LAST_YEAR};
use pro_logue::state::{hours_of, write_clock_entry};
use pro_logue::text::is_before;

fn at(year: i32, month: u32, day: u32, hour: u32, minute: u32, second: u32) -> Moment {
    Moment { year, month, day, hour, minute, second }
}

#[test]
fn key_of_a_day() {
    assert_eq!(at(2025, 12, 18, 9, 0, 0).key(), "2025_12_18");
    assert_eq!(at(2025, 1, 2, 9, 0, 0).key(), "2025_01_02");
    assert_eq!(at(987, 6, 5, 0, 0, 0).key(), "0987_06_05");
    assert_eq!(at(0, 1, 1, 0, 0, 0).key(), "0000_01_01");
    assert_eq!(at(10000, 1, 1, 0, 0, 0).key(), "+10000_01_01");
    assert_eq!(at(-5, 1, 1, 0, 0, 0).key(), "-0005_01_01");
    assert_eq!(at(FIRST_YEAR, 1, 1, 0, 0, 0).key(), "-262143_01_01");
    assert_eq!(at(LAST_YEAR, 12, 31, 0, 0, 0).key(), "+262142_12_31");
}

#[test]
fn clock_of_a_moment() {
    assert_eq!(at(2025, 12, 18, 9, 5, 59).clock(), "09:05");
    assert_eq!(at(2025, 12, 18, 23, 59, 0).clock(), "23:59");
}

#[test]
fn stamp_of_a_moment() {
    assert_eq!(at(2025, 12, 18, 10, 0, 7).stamp(), "2025-12-18T10:00:07");
}

#[test]
fn date_in_words() {
    assert_eq!(at(2025, 12, 18, 0, 0, 0).in_words(), "Thursday,18 December");
    assert_eq!(at(2025, 12, 1, 0, 0, 0).in_words(), "Monday, 1 December");
    assert_eq!(at(2024, 2, 29, 0, 0, 0).in_words(), "Thursday,29 February");
}

#[test]
fn names_of_days_and_months() {
    let days = ["Monday", "Tuesday", "Wednesday", "Thursday", "Friday", "Saturday", "Sunday"];
    for i in 0..7 {
        let words = at(2025, 12, 15 + i, 0, 0, 0).in_words();
        assert!(words.starts_with(days[i as usize]), "{}", words);
    }
    let months = [
        "January", "February", "March", "April", "May", "June", "July", "August", "September",
        "October", "November", "December",
    ];
    for i in 0..12 {
        let words = at(2025, i + 1, 15, 0, 0, 0).in_words();
        assert!(words.ends_with(months[i as usize]), "{}", words);
    }
}

#[test]
fn stamps_are_read_back() {
    for m in [
        at(2025, 12, 18, 10, 0, 7),
        at(0, 2, 29, 23, 59, 59),
        at(-1, 1, 1, 0, 0, 0),
        at(10000, 3, 4, 5, 6, 7),
        at(FIRST_YEAR, 1, 1, 0, 0, 0),
        at(LAST_YEAR, 12, 31, 23, 59, 59),
    ] {
        assert_eq!(read_stamp(&m.stamp()), Some((m.year, m.month, m.day)));
    }
}

#[test]
fn what_is_no_stamp_is_not_read() {
    assert_eq!(read_stamp(""), None);
    assert_eq!(read_stamp("2025-12-18"), None);
    assert_eq!(read_stamp("2025-02-30T10:00:00"), None);
    assert_eq!(read_stamp("2025-12-18T25:00:00"), None);
    assert_eq!(read_stamp("2025-12-18T10:00:00Z"), None);
}

#[test]
fn dates_have_an_order() {
    assert!(is_earlier((2025, 12, 17), (2025, 12, 18)));
    assert!(is_earlier((2025, 11, 30), (2025, 12, 1)));
    assert!(is_earlier((2024, 12, 31), (2025, 1, 1)));
    assert!(!is_earlier((2025, 12, 18), (2025, 12, 18)));
    assert!(!is_earlier((2025, 12, 1), (2025, 11, 30)));
}

#[test]
fn keys_are_chronological() {
    let days = [
        at(0, 12, 31, 0, 0, 0),
        at(999, 1, 1, 0, 0, 0),
        at(2024, 12, 31, 0, 0, 0),
        at(2025, 1, 1, 0, 0, 0),
        at(2025, 1, 2, 0, 0, 0),
        at(2025, 10, 1, 0, 0, 0),
        at(9999, 12, 31, 0, 0, 0),
    ];
    for i in 0..days.len() {
        for j in 0..days.len() {
            assert_eq!(is_before(&days[i].key(), &days[j].key()), i < j);
        }
    }
    // a sign comes before the digits
    assert!(is_before(&at(10000, 1, 1, 0, 0, 0).key(), &at(9999, 12, 31, 0, 0, 0).key()));
}

#[test]
fn clock_texts_are_chronological() {
    assert!(is_before(&at(2025, 1, 1, 9, 59, 0).clock(), &at(2025, 1, 1, 10, 0, 0).clock()));
    assert!(!is_before(&at(2025, 1, 1, 10, 0, 0).clock(), &at(2025, 1, 1, 10, 0, 30).clock()));
}

#[test]
fn hours_of_work_by_day_of_the_week() {
    let expected = [9, 9, 8, 8, 8, 8, 8];
    for i in 0..7 {
        assert_eq!(hours_of(&at(2025, 12, 15 + i, 9, 0, 0)), expected[i as usize]);
    }
    assert_eq!(hours_of(&at(1970, 1, 1, 0, 0, 0)), 8);
    assert_eq!(hours_of(&at(2000, 2, 28, 0, 0, 0)), 9);
    assert_eq!(hours_of(&at(2000, 2, 29, 0, 0, 0)), 9);
    assert_eq!(hours_of(&at(2000, 3, 1, 0, 0, 0)), 8);
    assert_eq!(hours_of(&at(1, 1, 1, 0, 0, 0)), 9);
}

#[test]
fn text_of_a_clock_entry() {
    let text = write_clock_entry(&at(2025, 12, 18, 9, 0, 0), &TimeOfDay { hour: 17, minute: 5 });
    assert_eq!(text, "Clock-in: 09:00, Clock-out: 17:05");
}
