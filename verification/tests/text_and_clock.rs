use smil_animation::clock::{parse_clock_value, ClockUnit, ClockValue};
use smil_animation::text::{is_whitespace, keep_non_empty, split, text_ends_with, trim, trim_all};
use smil_animation::timing::parse_begin_value;

fn timecount(number: &str, unit: ClockUnit) -> Option<ClockValue> {
    Some(ClockValue::Timecount { number: number.to_string(), unit })
}

#[test]
fn trims_unicode_white_space() {
    assert_eq!(trim("  \t 1.5s \n"), "1.5s");
    assert_eq!(trim("\u{3000}a b\u{a0}"), "a b");
    assert_eq!(trim("   "), "");
    assert_eq!(trim(""), "");
    assert!(is_whitespace('\u{2028}'));
    assert!(!is_whitespace('x'));
}

#[test]
fn trimming_twice_is_trimming_once() {
    for text in ["  a  ", "\t\tb c\n", "", "   ", "x"] {
        assert_eq!(trim(trim(text)), trim(text));
    }
}

#[test]
fn splits_like_str_split() {
    for (text, separators) in [("a;b;;c", vec![';']), ("", vec![';']), (";", vec![';']), ("1 2,3\t4", vec![' ', ',', '\t', '\n'])] {
        let expected: Vec<String> = text.split(separators.as_slice()).map(|piece| piece.to_string()).collect();
        assert_eq!(split(text, &separators), expected);
    }
}

#[test]
fn split_then_join_restores_text() {
    let text = "0;0.8; 1 ;";
    assert_eq!(split(text, &[';']).join(";"), text);
}

#[test]
fn trims_and_drops_empty_pieces() {
    let pieces = trim_all(&split(" a ; ;b;", &[';']));
    assert_eq!(pieces, vec!["a", "", "b", ""]);
    assert_eq!(keep_non_empty(pieces), vec!["a", "b"]);
}

#[test]
fn suffix_test_compares_last_characters() {
    assert!(text_ends_with("250ms", &['m', 's']));
    assert!(!text_ends_with("s", &['m', 's']));
    assert!(text_ends_with("x", &[]));
}

#[test]
fn clock_value_units() {
    assert_eq!(parse_clock_value("1s"), timecount("1", ClockUnit::Seconds));
    assert_eq!(parse_clock_value("250ms"), timecount("250", ClockUnit::Milliseconds));
    assert_eq!(parse_clock_value("1.5"), timecount("1.5", ClockUnit::Seconds));
    assert_eq!(parse_clock_value("2min"), timecount("2", ClockUnit::Minutes));
    assert_eq!(parse_clock_value("1h"), timecount("1", ClockUnit::Hours));
    assert_eq!(parse_clock_value(" 3 ms "), timecount("3", ClockUnit::Milliseconds));
    assert_eq!(parse_clock_value("garbage"), timecount("garbage", ClockUnit::Seconds));
    assert_eq!(parse_clock_value("   "), None);
}

#[test]
fn clock_value_fields() {
    let fields = |list: &[&str]| Some(ClockValue::Clock { fields: list.iter().map(|f| f.to_string()).collect() });
    assert_eq!(parse_clock_value("00:00:02"), fields(&["00", "00", "02"]));
    assert_eq!(parse_clock_value("01: 30.5"), fields(&["01", "30.5"]));
    assert_eq!(parse_clock_value("1:"), fields(&["1", ""]));
}

#[test]
fn clock_value_ignores_surrounding_space() {
    for text in ["1s", "250ms", "00:00:02", "x"] {
        let padded = format!(" \t{text}\n");
        assert_eq!(parse_clock_value(&padded), parse_clock_value(text));
    }
}

#[test]
fn begin_lists_every_entry() {
    assert_eq!(
        parse_begin_value("2s; 1s"),
        vec![timecount("2", ClockUnit::Seconds), timecount("1", ClockUnit::Seconds)]
    );
    assert_eq!(parse_begin_value(" 0.5s "), vec![timecount("0.5", ClockUnit::Seconds)]);
    assert_eq!(parse_begin_value(""), vec![None]);
    assert_eq!(parse_begin_value(";1s"), vec![None, timecount("1", ClockUnit::Seconds)]);
}

/// Seconds of a clock value, as the float side reads them.
fn seconds(value: Option<ClockValue>) -> Option<f64> {
    match value? {
        ClockValue::Timecount { number, unit } => {
            let number = number.parse::<f64>().ok()?;
            Some(match unit {
                ClockUnit::Milliseconds => number / 1000.0,
                ClockUnit::Seconds => number,
                ClockUnit::Minutes => number * 60.0,
                ClockUnit::Hours => number * 3600.0,
            })
        }
        ClockValue::Clock { fields } => {
            let mut total = 0.0;
            for field in fields {
                total = total * 60.0 + field.parse::<f64>().ok()?;
            }
            Some(total)
        }
    }
}

#[test]
fn parses_clock_values() {
    assert_eq!(seconds(parse_clock_value("1s")), Some(1.0));
    assert_eq!(seconds(parse_clock_value("250ms")), Some(0.25));
    assert_eq!(seconds(parse_clock_value("1.5")), Some(1.5));
    assert_eq!(seconds(parse_clock_value("2min")), Some(120.0));
    assert_eq!(seconds(parse_clock_value("00:00:02")), Some(2.0));
    assert_eq!(seconds(parse_clock_value("garbage")), None);
}
