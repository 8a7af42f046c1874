use slacker_slayer::codec::{encode_config_code, parse_config_code, Config, Interval};

fn schedule(
    interval: Interval,
    time: u8,
    weekday: Option<u8>,
    day: Option<u8>,
    channel_id: Option<u64>,
) -> Config {
    Config { interval, time, weekday, day, channel_id }
}

fn default_schedule() -> Config {
    schedule(Interval::Daily, 9, None, None, None)
}

#[test]
fn decodes_daily_code() {
    assert_eq!(
        parse_config_code("ssc.daily.09".to_string()),
        schedule(Interval::Daily, 9, None, None, None)
    );
}

#[test]
fn decodes_weekly_code() {
    assert_eq!(
        parse_config_code("ssc.weekly.09.1".to_string()),
        schedule(Interval::Weekly, 9, Some(1), None, None)
    );
}

#[test]
fn garbage_and_empty_give_default() {
    assert_eq!(parse_config_code("garbage".to_string()), default_schedule());
    assert_eq!(parse_config_code("".to_string()), default_schedule());
}

#[test]
fn unreadable_time_falls_back() {
    let c = parse_config_code("ssc.daily.xx".to_string());
    assert_eq!(c.time, 9);
    assert_eq!(c, default_schedule());
}

#[test]
fn decodes_monthly_code_with_channel() {
    assert_eq!(
        parse_config_code("ssc.monthly.10..15.123456789012".to_string()),
        schedule(Interval::Monthly, 10, None, Some(15), Some(123456789012))
    );
}

#[test]
fn too_few_fields_give_default() {
    assert_eq!(parse_config_code("ssc.weekly.09".to_string()), default_schedule());
    assert_eq!(parse_config_code("ssc.monthly.10.15".to_string()), default_schedule());
    assert_eq!(parse_config_code("ssc.daily".to_string()), default_schedule());
}

#[test]
fn wrong_marker_or_interval_gives_default() {
    assert_eq!(parse_config_code("abc.daily.07".to_string()), default_schedule());
    assert_eq!(parse_config_code("ssc.hourly.07".to_string()), default_schedule());
    assert_eq!(parse_config_code("SSC.daily.07".to_string()), default_schedule());
}

#[test]
fn surrounding_white_space_is_ignored() {
    assert_eq!(
        parse_config_code("  ssc.daily.07 \n".to_string()),
        schedule(Interval::Daily, 7, None, None, None)
    );
    assert_eq!(
        parse_config_code("\u{3000}ssc.daily.07\u{a0}".to_string()),
        schedule(Interval::Daily, 7, None, None, None)
    );
}

#[test]
fn numbers_read_as_unsigned_integers() {
    assert_eq!(parse_config_code("ssc.daily.+7".to_string()).time, 7);
    assert_eq!(parse_config_code("ssc.daily.255".to_string()).time, 255);
    assert_eq!(parse_config_code("ssc.daily.256".to_string()).time, 9);
    assert_eq!(parse_config_code("ssc.daily.-1".to_string()).time, 9);
    assert_eq!(parse_config_code("ssc.daily.+".to_string()).time, 9);
    assert_eq!(parse_config_code("ssc.daily.".to_string()).time, 9);
}

#[test]
fn unreadable_optional_fields_give_none() {
    assert_eq!(
        parse_config_code("ssc.weekly.08.x.y.z".to_string()),
        schedule(Interval::Weekly, 8, None, None, None)
    );
    assert_eq!(parse_config_code("ssc.daily.08...0".to_string()).channel_id, None);
    assert_eq!(
        parse_config_code("ssc.daily.08...18446744073709551615".to_string()).channel_id,
        Some(u64::MAX)
    );
    assert_eq!(
        parse_config_code("ssc.daily.08...18446744073709551616".to_string()).channel_id,
        None
    );
}

#[test]
fn fields_after_the_channel_are_ignored() {
    assert_eq!(
        parse_config_code("ssc.monthly.23.2.31.77.extra".to_string()),
        schedule(Interval::Monthly, 23, Some(2), Some(31), Some(77))
    );
}

#[test]
fn encodes_exact_codes() {
    assert_eq!(encode_config_code(&default_schedule()), "ssc.daily.9");
    assert_eq!(
        encode_config_code(&schedule(Interval::Weekly, 9, Some(1), None, None)),
        "ssc.weekly.9.1"
    );
    assert_eq!(
        encode_config_code(&schedule(Interval::Monthly, 18, None, Some(15), None)),
        "ssc.monthly.18..15"
    );
    assert_eq!(
        encode_config_code(&schedule(Interval::Daily, 0, None, None, Some(42))),
        "ssc.daily.0...42"
    );
}

#[test]
fn encoding_then_decoding_gives_the_schedule() {
    let cases = vec![
        schedule(Interval::Daily, 9, None, None, None),
        schedule(Interval::Daily, 23, Some(3), None, Some(1)),
        schedule(Interval::Weekly, 0, Some(7), None, None),
        schedule(Interval::Weekly, 12, Some(1), Some(4), Some(987654321987654321)),
        schedule(Interval::Monthly, 5, None, Some(31), None),
        schedule(Interval::Monthly, 17, Some(2), Some(1), Some(u64::MAX)),
    ];
    for c in cases {
        assert_eq!(parse_config_code(encode_config_code(&c)), c);
    }
}
