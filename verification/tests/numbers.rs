use perseval_app::offsets::leading_bytes_of;
use perseval_app::screens::evals::studio::format_cost;
use perseval_app::screens::failure_inbox::components::{
    change_label_of, humanize, kv, milliseconds_text, recurrence_totals,
};
use perseval_app::screens::failure_inbox::inspector::payload_text;
use perseval_app::screens::failure_inbox::model::FailureRecurrenceBucketV1;
use perseval_app::sorting::distinct_sorted_texts;
use perseval_app::text::{
    after_last_of, decimal_text, distinct_texts, is_white_space, parse_number, replace_all, shorten,
    signed_text, split_text, trim,
};
use perseval_app::timestamps::display_timestamp;

#[test]
fn otlp_nanoseconds_and_rfc3339_are_humanized() {
    assert_eq!(
        display_timestamp("1767225600000000000"),
        "Jan 01 · 00:00 UTC"
    );
    assert_eq!(
        display_timestamp("2026-07-12T14:30:00Z"),
        "Jul 12 · 14:30 UTC"
    );
    assert_eq!(display_timestamp("unknown"), "unknown");
}

#[test]
fn offsets_from_utc_are_taken_into_account() {
    assert_eq!(display_timestamp("2026-07-12T01:30:00+02:00"), "Jul 11 · 23:30 UTC");
    assert_eq!(display_timestamp("18446744073709551615"), "Jul 21 · 23:34 UTC");
    assert_eq!(display_timestamp("18446744073709551616"), "18446744073709551616");
    assert_eq!(display_timestamp(""), "");
}

#[test]
fn durations_are_rounded_as_floating_point_does() {
    for nanoseconds in [
        0u64,
        1,
        49_999,
        50_000,
        150_000,
        250_000,
        350_000,
        1_450_000,
        999_949_999,
        123_456_789_012,
        9_007_199_254_740_993,
        u64::MAX - 1,
        u64::MAX,
    ] {
        assert_eq!(
            milliseconds_text(nanoseconds),
            format!("{:.1}", nanoseconds as f64 / 1_000_000.0)
        );
    }
}

#[test]
fn costs_are_rounded_as_floating_point_does() {
    assert_eq!(format_cost(1_250_000), "$1.250000");
    for micros in [
        0u64,
        1,
        7,
        999_999,
        1_000_000,
        123_456_789,
        9_007_199_254_740_993,
        18_014_398_509_481_987,
        u64::MAX,
    ] {
        assert_eq!(
            format_cost(micros),
            format!("${:.6}", micros as f64 / 1_000_000.0)
        );
    }
}

#[test]
fn changes_have_a_sign_and_a_colour() {
    assert_eq!(change_label_of(14, false).0, "+14%");
    assert_eq!(change_label_of(-50, false).0, "-50%");
    assert_eq!(change_label_of(0, true).0, "Intermittent");
}

#[test]
fn totals_stop_at_the_largest_number() {
    let bucket = FailureRecurrenceBucketV1 {
        started_at_unix_nano: 0,
        ended_at_unix_nano: 1,
        eligible_run_count: u64::MAX,
        affected_run_count: 3,
        finding_count: 0,
        recurrence_rate_basis_points: None,
    };
    assert_eq!(recurrence_totals(&[bucket, bucket]), (6, u64::MAX));
}

#[test]
fn identifiers_become_words() {
    assert_eq!(humanize("tool_call_loop"), "Tool Call Loop");
    assert_eq!(humanize("ßtart"), "SStart");
    assert_eq!(humanize("a__b"), "A  B");
    assert_eq!(kv("Straße", "x").heading, "STRASSE");
}

#[test]
fn numbers_are_read_as_they_are_written() {
    for value in [0u64, 9, 10, 1_234_567, u64::MAX] {
        assert_eq!(decimal_text(value), value.to_string());
        assert_eq!(parse_number(&value.to_string()), Some(value));
    }
    for text in ["", "+", "-1", "1.0", " 1", "18446744073709551616", "١"] {
        assert_eq!(parse_number(text), text.parse::<u64>().ok());
    }
    assert_eq!(parse_number("+5"), Some(5));
    assert_eq!(signed_text(i64::MIN), i64::MIN.to_string());
    assert_eq!(signed_text(-7), "-7");
}

#[test]
fn surrounding_white_space_is_cut_off() {
    for text in ["  a b\t\n", "\u{2003}x\u{a0}", "", " \u{85} ", "none"] {
        assert_eq!(trim(text), text.trim());
    }
    for character in '\0'..=char::MAX {
        assert_eq!(is_white_space(character), character.is_whitespace());
    }
}

#[test]
fn texts_are_taken_apart() {
    assert_eq!(after_last_of("a:b:c", ':'), "c");
    assert_eq!(after_last_of("abc", ':'), "abc");
    assert_eq!(split_text("a_b_", '_'), vec!["a", "b", ""]);
    assert_eq!(replace_all("aaa", "aa", "b"), "ba");
    assert_eq!(shorten("abc", 2), "ab");
    assert_eq!(leading_bytes_of("abcdef", 3), "abc");
    assert_eq!(leading_bytes_of("aéz", 2), "aéz");
}

#[test]
fn each_text_is_kept_once() {
    let texts = || vec!["b".to_string(), "a".to_string(), "b".to_string(), "ab".to_string()];
    assert_eq!(distinct_texts(texts()), vec!["b", "a", "ab"]);
    assert_eq!(distinct_sorted_texts(texts()), vec!["a", "ab", "b"]);
}

#[test]
fn payloads_are_shown_as_compact_json_or_text() {
    assert_eq!(
        payload_text(&b"{ \"b\": [1, 2],\n \"a\": null }".to_vec()),
        "{\"a\":null,\"b\":[1,2]}"
    );
    assert_eq!(payload_text(&b"plain".to_vec()), "plain");
    assert_eq!(payload_text(&b"a\xffb".to_vec()), "a\u{fffd}b");
}
