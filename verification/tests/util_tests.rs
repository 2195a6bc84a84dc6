use campus_dual::dates::{Date, date_key, find_date_after, parse_date, sentinel_date};
use campus_dual::status::{ExamStatus, classify_icon, status_symbol};
use campus_dual::text::{
    concat_texts, contains_str, parse_i32_opt, replace_all, strip_prefix_else, strip_suffix_else,
    trim, trim_start,
};
use campus_dual::timeline::{CampusTimelineEvent, _events_by_color};

#[test]
fn parse_date_reads_day_first_dates() {
    assert_eq!(parse_date("18.07.2024"), Date { year: 2024, month: 7, day: 18 });
    assert_eq!(parse_date("01.01.1970"), Date { year: 1970, month: 1, day: 1 });
    assert_eq!(parse_date("29.02.2024"), Date { year: 2024, month: 2, day: 29 });
}

#[test]
fn parse_date_sentinels_invalid_input() {
    let sentinel = sentinel_date();
    assert_eq!(parse_date(""), sentinel);
    assert_eq!(parse_date("kaputt"), sentinel);
    assert_eq!(parse_date("31.02.2024"), sentinel);
    assert_eq!(parse_date("29.02.2023"), sentinel);
    assert_eq!(parse_date("18/07/2024"), sentinel);
    assert_eq!(parse_date("3.4.2020"), sentinel);
    assert_eq!(parse_date("18.07.20245"), sentinel);
}

#[test]
fn date_key_orders_chronologically() {
    let a = parse_date("18.07.2024");
    let b = parse_date("19.06.2024");
    let c = parse_date("31.12.2023");
    assert!(date_key(&a) > date_key(&b));
    assert!(date_key(&b) > date_key(&c));
    assert_eq!(date_key(&sentinel_date()), 19700101);
}

#[test]
fn find_date_after_captures_leftmost_match() {
    assert_eq!(
        find_date_after("noch bis 31.12.2024 Zeit", "bis "),
        Some("31.12.2024".to_string())
    );
    assert_eq!(
        find_date_after("bis 01.01.2020 und bis 02.02.2021", "bis "),
        Some("01.01.2020".to_string())
    );
    assert_eq!(find_date_after("bis zum 31.12.2024", "bis zum "), Some("31.12.2024".to_string()));
    assert_eq!(find_date_after("bis morgen", "bis "), None);
    assert_eq!(find_date_after("bis 31.12.24", "bis "), None);
    assert_eq!(find_date_after("", "bis "), None);
}

#[test]
fn classify_icon_covers_every_state() {
    let cases = [
        ("/images/missed.png", ExamStatus::Missed),
        ("/images/yellow.png", ExamStatus::PendingRegistration),
        ("/images/exclamation.jpg", ExamStatus::Warning),
        ("/images/blue.png", ExamStatus::Unclassified),
        ("", ExamStatus::Unclassified),
    ];
    for (src, expected) in cases {
        assert_eq!(classify_icon(&Some(src.to_string())), expected);
    }
    assert_eq!(classify_icon(&None), ExamStatus::Unclassified);
}

#[test]
fn status_symbols_are_distinct() {
    assert_eq!(status_symbol(&ExamStatus::Missed), "🚫");
    assert_eq!(status_symbol(&ExamStatus::PendingRegistration), "📝");
    assert_eq!(status_symbol(&ExamStatus::Warning), "⚠️");
    assert_eq!(status_symbol(&ExamStatus::Unclassified), "⁉️");
}

#[test]
fn parse_i32_matches_std_semantics() {
    assert_eq!(parse_i32_opt("42"), Some(42));
    assert_eq!(parse_i32_opt("+7"), Some(7));
    assert_eq!(parse_i32_opt("-13"), Some(-13));
    assert_eq!(parse_i32_opt("007"), Some(7));
    assert_eq!(parse_i32_opt("2147483647"), Some(2147483647));
    assert_eq!(parse_i32_opt("-2147483648"), Some(-2147483648));
    assert_eq!(parse_i32_opt("2147483648"), None);
    assert_eq!(parse_i32_opt("-2147483649"), None);
    assert_eq!(parse_i32_opt("12a"), None);
    assert_eq!(parse_i32_opt("1 "), None);
    assert_eq!(parse_i32_opt(""), None);
    assert_eq!(parse_i32_opt("+"), None);
}

#[test]
fn text_utilities_match_their_contracts() {
    assert_eq!(trim_start("  \u{a0}ab "), "ab ");
    assert_eq!(trim("  ab  "), "ab");
    assert!(contains_str("abcdef", "cde"));
    assert!(!contains_str("abcdef", "ce"));
    assert_eq!(strip_prefix_else(", Raum", ", "), "Raum");
    assert_eq!(strip_prefix_else("Raum", ", "), "Raum");
    assert_eq!(strip_suffix_else("a, Prüfungstermin: ", ", Prüfungstermin: "), "a");
    assert_eq!(strip_suffix_else("abc", "x"), "abc");
    assert_eq!(replace_all("a   :  b   :  c", "   :  ", ""), "abc");
    assert_eq!(replace_all("a<br>b", "<br>", " "), "a b");
    assert_eq!(concat_texts(&vec!["a".to_string(), "".to_string(), "bc".to_string()]), "abc");
}

fn t_event(color: &str, title: &str, description: &str, start: &str, end: &str) -> CampusTimelineEvent {
    CampusTimelineEvent {
        title: title.to_string(),
        description: description.to_string(),
        color: color.to_string(),
        start: start.to_string(),
        end: end.to_string(),
    }
}

#[test]
fn events_by_color_filters_and_converts() {
    let events = vec![
        t_event(
            "#fcbe04",
            "1. FS",
            "1. Fachsemester<br><strong>Theorie</strong>",
            "Mon, 01 Jan 2024 10:00:00 +0100",
            "Mon, 01 Jan 2024 11:30:00 +0100",
        ),
        t_event(
            "#119911",
            "Praxis",
            "anders gefärbt",
            "Mon, 01 Jan 2024 10:00:00 +0100",
            "Mon, 01 Jan 2024 11:00:00 +0100",
        ),
        t_event("#fcbe04", "kaputt", "unlesbares Datum", "irgendwann", "nie"),
    ];
    let exported = _events_by_color("#fcbe04", &events);
    assert_eq!(exported.len(), 1);
    let e = &exported[0];
    assert_eq!(e.name, "1. FS");
    assert_eq!(e.description, "1. Fachsemester Theorie");
    assert_eq!(e.color, "#fcbe04");
    assert_eq!(e.start, "2024-01-01T10:00:00+01:00");
    assert_eq!(e.end, "2024-01-01T11:30:00+01:00");
}
