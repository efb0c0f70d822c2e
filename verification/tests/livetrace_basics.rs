use otlp_forwarder::livetrace::duration::{format_millis_to_duration_string, parse_duration_to_millis};
use otlp_forwarder::livetrace::theme::{ColoringMode, Theme};
use otlp_forwarder::pairs::{insert_pair, merge_pairs};

#[test]
fn durations_format_and_parse_back() {
    assert_eq!(format_millis_to_duration_string(0), "0ms");
    assert_eq!(format_millis_to_duration_string(1500), "1500ms");
    assert_eq!(format_millis_to_duration_string(30_000), "30s");
    assert_eq!(format_millis_to_duration_string(2_700_000), "45m");
    assert_eq!(format_millis_to_duration_string(3_600_000), "1h");
    for ms in [0u64, 1, 999, 1000, 60_000, 61_000, 3_600_000, 7_200_001] {
        let text = format_millis_to_duration_string(ms);
        assert_eq!(parse_duration_to_millis(&text), Ok(ms));
    }
    assert_eq!(parse_duration_to_millis("10S"), Ok(10_000));
    assert!(parse_duration_to_millis("10").is_err());
    assert!(parse_duration_to_millis("ms").is_err());
}

#[test]
fn themes_and_colors() {
    assert_eq!(Theme::default(), Theme::Default);
    assert_eq!(Theme::ColorBrewer.as_str(), "color-brewer");
    assert_eq!(ColoringMode::default(), ColoringMode::Span);
    let palette = Theme::Tableau.get_palette();
    assert_eq!(palette.len(), 12);
    let c = Theme::Tableau.get_color_for_service("checkout");
    assert!(palette.contains(&c));
    assert_eq!(c, Theme::Tableau.get_color_for_service("checkout"));
    assert_eq!(Theme::fnv1a_hash_str(""), 2166136261);
}

#[test]
fn pairs_insert_in_place_or_append() {
    let mut m = vec![("a".to_string(), "1".to_string())];
    insert_pair(&mut m, "b".to_string(), "2".to_string());
    insert_pair(&mut m, "a".to_string(), "3".to_string());
    assert_eq!(
        m,
        vec![
            ("a".to_string(), "3".to_string()),
            ("b".to_string(), "2".to_string()),
        ]
    );
    let merged = merge_pairs(&m, &vec![("b".to_string(), "x".to_string()), ("b".to_string(), "y".to_string())]);
    assert_eq!(merged[1], ("b".to_string(), "y".to_string()));
}

#[test]
fn duration_errors_name_the_unit_or_ask_for_one() {
    assert_eq!(
        parse_duration_to_millis("30"),
        Err("Invalid duration string '30'. Must end with 'ms', 's', 'm', or 'h'. Bare numbers are not allowed."
            .to_string())
    );
    assert_eq!(
        parse_duration_to_millis("1.5S"),
        Err("Invalid seconds value '1.5': invalid digit found in string".to_string())
    );
    assert_eq!(
        parse_duration_to_millis("ms"),
        Err("Invalid milliseconds value '': cannot parse integer from empty string".to_string())
    );
    assert_eq!(
        parse_duration_to_millis("-1m"),
        Err("Invalid minutes value '-1': invalid digit found in string".to_string())
    );
    assert_eq!(
        parse_duration_to_millis("99999999999999999999h"),
        Err("Invalid hours value '99999999999999999999': number too large to fit in target type".to_string())
    );
}
