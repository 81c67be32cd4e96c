//! Numbers, texts and dates.
use georuggine::calendar::{
    civil_from_days, days_from_civil, fmt_duration, now_secs, stats_interval,
};
use georuggine::cpu_log::log_line;
use georuggine::double::{
    Double, FIVE, FORTY_FIVE, HALF_TURN, MINUS_HALF_TURN, MINUS_NINETY, NINE, NINETY, ZERO,
};
use georuggine::number::{append_decimal, append_signed, append_two_digits, parse_i64};
use georuggine::text::{cut_blank, cut_white, holds_text, same_text, split_words, trim, white};
use georuggine::text_map::TextMap;

fn dbl(v: f64) -> Double {
    Double { bits: v.to_bits() }
}

#[test]
fn constants_are_the_numbers_they_are_named_after() {
    assert_eq!(f64::from_bits(ZERO), 0.0);
    assert_eq!(f64::from_bits(FIVE), 5.0);
    assert_eq!(f64::from_bits(NINE), 9.0);
    assert_eq!(f64::from_bits(FORTY_FIVE), 45.0);
    assert_eq!(f64::from_bits(NINETY), 90.0);
    assert_eq!(f64::from_bits(MINUS_NINETY), -90.0);
    assert_eq!(f64::from_bits(HALF_TURN), 180.0);
    assert_eq!(f64::from_bits(MINUS_HALF_TURN), -180.0);
}

#[test]
fn doubles_are_ordered_as_numbers() {
    let values = [
        f64::NEG_INFINITY,
        f64::MIN,
        -180.0,
        -1.0,
        -f64::MIN_POSITIVE,
        -5e-324,
        -0.0,
        0.0,
        5e-324,
        f64::MIN_POSITIVE,
        1e-9,
        4.999999999999999,
        5.0,
        5.000000000000001,
        1e300,
        f64::MAX,
        f64::INFINITY,
        f64::NAN,
        -f64::NAN,
    ];
    for a in values {
        for b in values {
            assert_eq!(dbl(a).le(dbl(b)), a <= b, "{a} <= {b}");
            assert_eq!(dbl(a).lt(dbl(b)), a < b, "{a} < {b}");
            assert_eq!(dbl(a) == dbl(b), a == b, "{a} == {b}");
        }
    }
}

#[test]
fn white_is_what_unicode_calls_white() {
    for u in 0..=0x10_ffff_u32 {
        if let Some(c) = char::from_u32(u) {
            assert_eq!(white(c), c.is_whitespace(), "{u:x}");
        }
    }
}

#[test]
fn texts_are_trimmed_and_cut() {
    for t in ["", " ", "  a b \t", "\u{2003}x\u{3000}", "é à", "a", "\n\n"] {
        assert_eq!(trim(t), t.trim());
        assert_eq!(cut_blank(t), t.split_once(' '));
        assert_eq!(cut_white(t), t.split_once(char::is_whitespace));
        let words: Vec<&str> = t.split_whitespace().collect();
        assert_eq!(split_words(t), words);
    }
    assert_eq!(cut_white("a\tb c"), Some(("a", "b c")));
    assert_eq!(cut_blank("a\tb c"), Some(("a\tb", "c")));
    assert_eq!(split_words(" 45.0\t 9.0  17 "), vec!["45.0", "9.0", "17"]);
}

#[test]
fn texts_are_compared() {
    assert!(same_text("day", "day"));
    assert!(!same_text("day", "Day"));
    assert!(!same_text("day", "days"));
    assert!(same_text("", ""));
    assert!(holds_text(&Some("mario".to_string()), "mario"));
    assert!(!holds_text(&Some("mario".to_string()), "luigi"));
    assert!(!holds_text(&None, ""));
}

#[test]
fn numbers_are_written_and_read() {
    for i in [0, 7, 10, -1, -10, 1_700_000_000, i64::MAX, i64::MIN, i64::MIN + 1] {
        let mut t = String::from("n=");
        append_signed(&mut t, i);
        assert_eq!(t, format!("n={i}"));
        assert_eq!(parse_i64(&t[2..]), Some(i));
    }
    let mut t = String::new();
    append_decimal(&mut t, u64::MAX);
    assert_eq!(t, "18446744073709551615");
    let mut t = String::new();
    append_two_digits(&mut t, 7);
    append_two_digits(&mut t, 42);
    append_two_digits(&mut t, 123);
    assert_eq!(t, "0742123");
}

#[test]
fn numbers_are_read_as_the_standard_library_reads_them() {
    for t in [
        "", "+", "-", "0", "-0", "+5", "007", "1_000", " 1", "1 ", "1.0", "0x10", "--1", "+-1",
        "9223372036854775807", "9223372036854775808", "-9223372036854775808",
        "-9223372036854775809", "99999999999999999999999", "\u{0663}",
    ] {
        assert_eq!(parse_i64(t), t.parse::<i64>().ok(), "{t:?}");
    }
}

#[test]
fn dates_and_days() {
    assert_eq!(civil_from_days(0), (1970, 1, 1));
    assert_eq!(civil_from_days(-1), (1969, 12, 31));
    assert_eq!(civil_from_days(11_016), (2000, 2, 29));
    assert_eq!(civil_from_days(19_675), (2023, 11, 14));
    assert_eq!(civil_from_days(-719_468), (0, 3, 1));
    assert_eq!(days_from_civil(1970, 1, 1), 0);
    assert_eq!(days_from_civil(2000, 2, 29), 11_016);
    assert_eq!(days_from_civil(2024, 12, 31), 20_088);
    // Counted on beyond the end of the month.
    assert_eq!(days_from_civil(2024, 12, 32), days_from_civil(2025, 1, 1));
    for day in (-800_000..800_000).step_by(97) {
        let (y, m, d) = civil_from_days(day);
        assert_eq!(days_from_civil(y, m, d), day);
    }
}

#[test]
fn intervals_around_a_time() {
    // 2023-11-14 22:13:20 UTC, a Tuesday.
    let now = 1_700_000_000;
    assert_eq!(stats_interval("day", now), Some((1_699_920_000, 1_700_006_399, "current day")));
    assert_eq!(stats_interval("week", now), Some((1_699_833_600, 1_700_438_399, "current week")));
    assert_eq!(stats_interval("month", now), Some((1_698_796_800, 1_701_388_799, "current month")));
    assert_eq!(stats_interval("year", now), None);
    assert_eq!(stats_interval("", now), None);
    // The last second of December, and one before 1970.
    assert_eq!(
        stats_interval("month", 1_704_067_199),
        Some((1_701_388_800, 1_704_067_199, "current month"))
    );
    assert_eq!(stats_interval("day", -1), Some((-86_400, -1, "current day")));
    assert_eq!(stats_interval("week", -1), Some((-259_200, 345_599, "current week")));
}

#[test]
fn intervals_hold_their_time() {
    for now in (-4_000_000_000_i64..4_000_000_000).step_by(9_999_991) {
        for kind in ["day", "week", "month"] {
            let (from, to, _) = stats_interval(kind, now).unwrap();
            assert!(from <= now && now <= to);
        }
    }
}

#[test]
fn durations_in_words() {
    assert_eq!(fmt_duration(0), "0h 0m 0s");
    assert_eq!(fmt_duration(59), "0h 0m 59s");
    assert_eq!(fmt_duration(3_661), "1h 1m 1s");
    assert_eq!(fmt_duration(90_000), "25h 0m 0s");
    assert_eq!(fmt_duration(-3_661), "-1h -1m -1s");
    assert_eq!(fmt_duration(i64::MIN), "-2562047788015215h -30m -8s");
}

#[test]
fn clocks() {
    assert_eq!(now_secs(Some(1_700_000_000)), 1_700_000_000);
    assert_eq!(now_secs(None), 0);
    assert_eq!(now_secs(Some(u64::MAX)), -1);
}

#[test]
fn lines_of_the_log() {
    assert_eq!(
        log_line(1_700_000_000, "1.500", "0.250", "0.21", 8),
        "[1700000000] [22:13:20 UTC]  cpu_total=1.500s  cpu_interval_2min=0.250s  cpu_pct=0.21%  cores=8\n"
    );
    assert_eq!(
        log_line(3_661, "0.000", "0.000", "0.00", 1),
        "[3661] [01:01:01 UTC]  cpu_total=0.000s  cpu_interval_2min=0.000s  cpu_pct=0.00%  cores=1\n"
    );
}

#[test]
fn maps_keyed_by_texts() {
    let mut m: TextMap<u64> = TextMap::new();
    assert_eq!(m.len(), 0);
    m.insert("a", 1);
    m.insert("b", 2);
    m.insert("a", 3);
    assert_eq!(m.len(), 2);
    assert_eq!(m.get("a"), Some(&3));
    assert_eq!(m.get("c"), None);
    assert!(m.contains_key("b"));
    let mut keys = m.keys();
    keys.sort();
    assert_eq!(keys, vec!["a", "b"]);
    assert_eq!(m.remove("a"), Some(3));
    assert_eq!(m.remove("a"), None);
    assert_eq!(m.entries().len(), 1);
    m.clear();
    assert_eq!(m.len(), 0);
}
