use macdisp::{parse_config, DisplayConfig, DisplayError, Hertz};

fn blank(id: &str) -> DisplayConfig {
    DisplayConfig {
        id: id.to_string(),
        mode: None,
        resolution: None,
        hz: None,
        color_depth: None,
        scaling: None,
        origin: None,
        degree: None,
        mirror: None,
        enabled: None,
    }
}

#[test]
fn parses_resolution_and_refresh_rate() {
    let config = parse_config("id:1 res:1920x1080 hz:60").unwrap();
    let mut expected = blank("1");
    expected.resolution = Some((1920, 1080));
    expected.hz = Some(Hertz { millis: 60_000 });
    assert_eq!(config, expected);
    assert_eq!(config.mode, None);
    assert_eq!(config.color_depth, None);
    assert_eq!(config.scaling, None);
    assert_eq!(config.origin, None);
    assert_eq!(config.degree, None);
    assert_eq!(config.mirror, None);
    assert_eq!(config.enabled, None);
}

#[test]
fn parses_origin_with_parentheses() {
    let config = parse_config("id:1 origin:(100,200)").unwrap();
    let mut expected = blank("1");
    expected.origin = Some((100, 200));
    assert_eq!(config, expected);
}

#[test]
fn parses_origin_without_parentheses() {
    let with = parse_config("id:1 origin:(100,200)").unwrap();
    let without = parse_config("id:1 origin:100,200").unwrap();
    assert_eq!(without.origin, Some((100, 200)));
    assert_eq!(with, without);
}

#[test]
fn strips_any_run_of_parentheses() {
    let config = parse_config("id:1 origin:((-5,+7)))").unwrap();
    assert_eq!(config.origin, Some((-5, 7)));
    let inner = parse_config("id:1 origin:1(,2").unwrap();
    assert_eq!(inner.origin, None);
}

#[test]
fn parses_every_key() {
    let config = parse_config(
        "id:37D8832A-2D66 mode:12 res:2560x1440 hz:59.94 color_depth:8 scaling:on origin:(-1920,0) degree:90 mirror:2 enabled:false",
    )
    .unwrap();
    let expected = DisplayConfig {
        id: "37D8832A-2D66".to_string(),
        mode: Some("12".to_string()),
        resolution: Some((2560, 1440)),
        hz: Some(Hertz { millis: 59_940 }),
        color_depth: Some(8),
        scaling: Some(true),
        origin: Some((-1920, 0)),
        degree: Some(90),
        mirror: Some("2".to_string()),
        enabled: Some(false),
    };
    assert_eq!(config, expected);
}

#[test]
fn scaling_is_off_unless_on() {
    assert_eq!(parse_config("id:1 scaling:on").unwrap().scaling, Some(true));
    assert_eq!(parse_config("id:1 scaling:off").unwrap().scaling, Some(false));
    assert_eq!(parse_config("id:1 scaling:ON").unwrap().scaling, Some(false));
    assert_eq!(parse_config("id:1 scaling:").unwrap().scaling, Some(false));
}

#[test]
fn unreadable_values_leave_fields_unset() {
    let config = parse_config(
        "id:1 res:1920by1080 hz:fast color_depth:deep origin:(a,b) degree:-90 enabled:yes",
    )
    .unwrap();
    assert_eq!(config, blank("1"));
    assert_eq!(parse_config("id:1 res:x1080").unwrap().resolution, None);
    assert_eq!(parse_config("id:1 res:1920x").unwrap().resolution, None);
    assert_eq!(parse_config("id:1 res:4294967296x1").unwrap().resolution, None);
    assert_eq!(parse_config("id:1 res:4294967295x1").unwrap().resolution, Some((4294967295, 1)));
    assert_eq!(parse_config("id:1 origin:2147483648,0").unwrap().origin, None);
    assert_eq!(
        parse_config("id:1 origin:-2147483648,2147483647").unwrap().origin,
        Some((-2147483648, 2147483647))
    );
}

#[test]
fn later_tokens_override_earlier_ones() {
    let config = parse_config("id:1 hz:60 hz:oops res:800x600 res:bad id:2").unwrap();
    assert_eq!(config.id, "2");
    assert_eq!(config.hz, None);
    assert_eq!(config.resolution, Some((800, 600)));
}

#[test]
fn tokens_without_colon_are_passed_over() {
    let config = parse_config("  id:7 \t verbose\nres:10x20  ").unwrap();
    let mut expected = blank("7");
    expected.resolution = Some((10, 20));
    assert_eq!(config, expected);
}

#[test]
fn value_keeps_later_colons() {
    let config = parse_config("id:a:b:c mirror::x").unwrap();
    assert_eq!(config.id, "a:b:c");
    assert_eq!(config.mirror, Some(":x".to_string()));
}

#[test]
fn splits_on_unicode_whitespace() {
    let config = parse_config("id:1\u{00A0}degree:180\u{3000}enabled:true\u{2003}mode:é").unwrap();
    assert_eq!(config.id, "1");
    assert_eq!(config.degree, Some(180));
    assert_eq!(config.enabled, Some(true));
    assert_eq!(config.mode, Some("é".to_string()));
}

#[test]
fn rejects_unknown_key() {
    assert_eq!(
        parse_config("id:1 colour:blue"),
        Err(DisplayError::InvalidConfig("colour".to_string()))
    );
    assert_eq!(parse_config(":5 id:1"), Err(DisplayError::InvalidConfig("".to_string())));
    assert_eq!(parse_config("ID:1"), Err(DisplayError::InvalidConfig("ID".to_string())));
}

#[test]
fn unknown_key_is_reported_before_missing_identifier() {
    assert_eq!(
        parse_config("res:1x1 bogus:1"),
        Err(DisplayError::InvalidConfig("bogus".to_string()))
    );
}

#[test]
fn rejects_missing_identifier() {
    assert_eq!(parse_config("res:1920x1080"), Err(DisplayError::MissingIdentifier));
    assert_eq!(parse_config(""), Err(DisplayError::MissingIdentifier));
    assert_eq!(parse_config("id:"), Err(DisplayError::MissingIdentifier));
    assert_eq!(parse_config("id:1 id:"), Err(DisplayError::MissingIdentifier));
}

#[test]
fn recognised_identifier_never_counts_as_missing() {
    let inputs = [
        "id:1",
        "id:x hz:60",
        "hz:60 id:x",
        "id: id:3",
        "id:1 bogus:2",
        "stray id:A-B scaling:on",
    ];
    for input in inputs {
        assert_ne!(parse_config(input), Err(DisplayError::MissingIdentifier), "{}", input);
    }
}

#[test]
fn batch_stops_at_the_first_string_that_does_not_parse() {
    let good = vec!["id:1 hz:60".to_string(), "id:2 degree:90".to_string()];
    let parsed = macdisp::parse_batch(&good).unwrap();
    assert_eq!(parsed.len(), 2);
    assert_eq!(parsed[0], parse_config("id:1 hz:60").unwrap());
    assert_eq!(parsed[1], parse_config("id:2 degree:90").unwrap());
    let bad = vec![
        "id:1".to_string(),
        "hz:60".to_string(),
        "id:3 bogus:1".to_string(),
    ];
    assert_eq!(macdisp::parse_batch(&bad), Err(DisplayError::MissingIdentifier));
    let worse = vec!["id:3 bogus:1".to_string(), "hz:60".to_string()];
    assert_eq!(
        macdisp::parse_batch(&worse),
        Err(DisplayError::InvalidConfig("bogus".to_string()))
    );
    assert_eq!(macdisp::parse_batch(&Vec::new()), Ok(Vec::new()));
}
