use discord_vc_statsmaster::text::cut_fits;
use discord_vc_statsmaster::text::{
    has_prefix, hours_minutes, i64_text, parse_i64, remove_occurrences, shorten, split_char,
    text_before, trim, u64_text,
};

#[test]
fn decimal_texts() {
    assert_eq!(i64_text(0), "0");
    assert_eq!(i64_text(-42), "-42");
    assert_eq!(i64_text(i64::MIN), "-9223372036854775808");
    assert_eq!(i64_text(i64::MAX), "9223372036854775807");
    assert_eq!(u64_text(u64::MAX), "18446744073709551615");
}

#[test]
fn parsing_integers_like_from_str() {
    assert_eq!(parse_i64("123"), Some(123));
    assert_eq!(parse_i64("+7"), Some(7));
    assert_eq!(parse_i64("-9223372036854775808"), Some(i64::MIN));
    assert_eq!(parse_i64("9223372036854775807"), Some(i64::MAX));
    assert_eq!(parse_i64("9223372036854775808"), None);
    assert_eq!(parse_i64("-9223372036854775809"), None);
    assert_eq!(parse_i64(""), None);
    assert_eq!(parse_i64("-"), None);
    assert_eq!(parse_i64("1 2"), None);
    assert_eq!(parse_i64("00012"), Some(12));
    for s in ["0", "-1", "42x", "+-1", " 5", "99999999999999999999"] {
        assert_eq!(parse_i64(s), s.parse::<i64>().ok());
    }
}

#[test]
fn hours_and_minutes_truncate_toward_zero() {
    assert_eq!(hours_minutes(3725), (1, 2));
    assert_eq!(hours_minutes(-3725), (-1, -2));
    assert_eq!(hours_minutes(59), (0, 0));
    assert_eq!(hours_minutes(i64::MIN), (i64::MIN / 3600, (i64::MIN % 3600) / 60));
}

#[test]
fn searches_and_splits() {
    assert!(has_prefix("task_select_1", "task_select_"));
    assert!(!has_prefix("task", "task_select_"));
    assert_eq!(remove_occurrences("aXbXXc", "X"), "abc");
    assert_eq!(remove_occurrences("abab", "ab"), "");
    assert_eq!(text_before("12 - a - b", " - "), "12");
    assert_eq!(text_before("12", " - "), "12");
    assert_eq!(split_char("a_b__c", '_'), vec!["a", "b", "", "c"]);
    assert_eq!(split_char("", '_'), vec![""]);
    assert_eq!(trim("\u{3000} x y\t\n"), "x y");
}

#[test]
fn shortening_counts_bytes() {
    assert_eq!(shorten("héllo", 5, 3), "hé...");
    assert_eq!(shorten("hello", 5, 3), "hello");
}

#[test]
fn cut_checks() {
    assert!(cut_fits("héllo", 5, 3));
    assert!(!cut_fits("héllo", 5, 2));
    assert!(cut_fits("héllo", 6, 2));
}
