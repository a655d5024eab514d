use crossword_server::services::util::{
    chars_of, count_string, date_in_words, decimal_string, ends_with, human_readable_date,
    matches_at, remove_all, series_number, starts_with, string_of, to_human_readable_date,
};

fn chars(s: &str) -> Vec<char> {
    s.chars().collect()
}

#[test]
fn decimal_form_of_integers() {
    assert_eq!(decimal_string(0), "0");
    assert_eq!(decimal_string(7), "7");
    assert_eq!(decimal_string(10), "10");
    assert_eq!(decimal_string(-1), "-1");
    assert_eq!(decimal_string(1234567890), "1234567890");
    assert_eq!(decimal_string(i64::MAX), "9223372036854775807");
    assert_eq!(decimal_string(i64::MIN), "-9223372036854775808");
}

#[test]
fn decimal_form_agrees_with_the_standard_library() {
    for n in [-1000i64, -99, -10, -9, 9, 99, 100, 101, 909, 1000, 65535, 4294967296] {
        assert_eq!(decimal_string(n), n.to_string());
    }
    for n in [0usize, 5, 10, 12345, usize::MAX] {
        assert_eq!(count_string(n), n.to_string());
    }
}

#[test]
fn date_in_words_of_a_timestamp() {
    assert_eq!(to_human_readable_date(1431648000000), "15 May 2015");
    assert_eq!(to_human_readable_date(0), "1 January 1970");
    assert_eq!(to_human_readable_date(1709164800000), "29 February 2024");
    assert_eq!(to_human_readable_date(1735689599999), "31 December 2024");
    assert_eq!(to_human_readable_date(1735689600000), "1 January 2025");
}

#[test]
fn milliseconds_are_rounded_towards_zero() {
    assert_eq!(to_human_readable_date(-1), "1 January 1970");
    assert_eq!(to_human_readable_date(-999), "1 January 1970");
    assert_eq!(to_human_readable_date(-1000), "31 December 1969");
    assert_eq!(to_human_readable_date(86399999), "1 January 1970");
    assert_eq!(to_human_readable_date(86400000), "2 January 1970");
}

#[test]
fn dates_before_year_one_keep_their_sign() {
    assert_eq!(to_human_readable_date(-62198755200000), "1 January -1");
}

#[test]
fn every_month_has_its_name() {
    let names = [
        "January", "February", "March", "April", "May", "June", "July", "August", "September",
        "October", "November", "December",
    ];
    for month in 1u32..=12 {
        let expected = format!("3 {} 2001", names[(month - 1) as usize]);
        assert_eq!(date_in_words(2001, month, 3), expected);
    }
}

#[test]
fn dates_out_of_the_calendars_reach_are_none() {
    assert_eq!(human_readable_date(i64::MAX), None);
    assert_eq!(human_readable_date(i64::MIN), None);
    assert_eq!(human_readable_date(1431648000000), Some("15 May 2015".to_string()));
}

#[test]
fn characters_and_strings_convert_both_ways() {
    assert_eq!(chars_of("héllo"), chars("héllo"));
    assert_eq!(chars_of(""), Vec::<char>::new());
    assert_eq!(string_of(&chars("héllo")), "héllo");
    assert_eq!(string_of(&Vec::new()), "");
}

#[test]
fn prefix_and_suffix_tests() {
    assert!(starts_with(&chars("/crosswords/quick/1"), &chars("/crosswords/quick")));
    assert!(!starts_with(&chars("/crosswords/quic"), &chars("/crosswords/quick")));
    assert!(starts_with(&chars("abc"), &chars("")));
    assert!(starts_with(&chars(""), &chars("")));
    assert!(!starts_with(&chars(""), &chars("a")));
    assert!(ends_with(&chars("/crosswords/quick/1#comments"), &chars("#comments")));
    assert!(!ends_with(&chars("/crosswords/quick/1"), &chars("#comments")));
    assert!(ends_with(&chars("abc"), &chars("")));
    assert!(!ends_with(&chars("bc"), &chars("abc")));
    assert!(matches_at(&chars("abcabc"), &chars("bc"), 4));
    assert!(!matches_at(&chars("abcabc"), &chars("bc"), 5));
    assert!(!matches_at(&chars("abcabc"), &chars("bc"), 7));
    assert!(matches_at(&chars("abc"), &chars(""), 3));
}

#[test]
fn occurrences_are_removed_from_the_left() {
    assert_eq!(remove_all(&chars("/crosswords/quick/123"), &chars("/crosswords/quick")), chars("/123"));
    assert_eq!(remove_all(&chars("/1/2/3/"), &chars("/")), chars("123"));
    assert_eq!(remove_all(&chars("aaa"), &chars("aa")), chars("a"));
    assert_eq!(remove_all(&chars("ababa"), &chars("aba")), chars("ba"));
    assert_eq!(remove_all(&chars("abc"), &chars("")), chars("abc"));
    assert_eq!(remove_all(&chars(""), &chars("a")), chars(""));
    assert_eq!(remove_all(&chars("ab"), &chars("abc")), chars("ab"));
    assert_eq!(remove_all(&chars("xabcabcx"), &chars("abc")), chars("xx"));
}

#[test]
fn removal_agrees_with_the_standard_library() {
    for (text, pattern) in [
        ("/crosswords/quick/1/crosswords/quick", "/crosswords/quick"),
        ("aaaa", "aa"),
        ("abababab", "bab"),
        ("mississippi", "ss"),
        ("mississippi", "issi"),
        ("héé", "é"),
    ] {
        assert_eq!(string_of(&remove_all(&chars(text), &chars(pattern))), text.replace(pattern, ""));
    }
}

#[test]
fn series_numbers_are_read_from_decimal_text() {
    assert_eq!(series_number("123"), Some(123));
    assert_eq!(series_number("-45"), Some(-45));
    assert_eq!(series_number("+45"), Some(45));
    assert_eq!(series_number("007"), Some(7));
    assert_eq!(series_number("-0"), Some(0));
    assert_eq!(series_number("9223372036854775807"), Some(i64::MAX));
    assert_eq!(series_number("-9223372036854775808"), Some(i64::MIN));
}

#[test]
fn text_that_is_no_integer_is_refused() {
    assert_eq!(series_number(""), None);
    assert_eq!(series_number("-"), None);
    assert_eq!(series_number("+"), None);
    assert_eq!(series_number(" 1"), None);
    assert_eq!(series_number("1 "), None);
    assert_eq!(series_number("12a"), None);
    assert_eq!(series_number("1_000"), None);
    assert_eq!(series_number("--1"), None);
    assert_eq!(series_number("٣"), None);
    assert_eq!(series_number("9223372036854775808"), None);
    assert_eq!(series_number("-9223372036854775809"), None);
}
