use pipeline_engine::time::error::Error;
use pipeline_engine::time::timeunit::{Duration, DurationUnit, TimeUnit};

#[test]
fn test_building_time_unit_from_string() {
    {
        let value = "ns";
        let result = value.parse::<TimeUnit>();
        assert!(result.is_ok());
        assert_eq!(result.unwrap(), TimeUnit::Nanosecond);
    }
    {
        let value = "us";
        let result = value.parse::<TimeUnit>();
        assert!(result.is_ok());
        assert_eq!(result.unwrap(), TimeUnit::Microsecond);
    }
    {
        let value = "ms";
        let result = value.parse::<TimeUnit>();
        assert!(result.is_ok());
        assert_eq!(result.unwrap(), TimeUnit::Millisecond);
    }
    {
        let value = "s";
        let result = value.parse::<TimeUnit>();
        assert!(result.is_ok());
        assert_eq!(result.unwrap(), TimeUnit::Second);
    }
    {
        let value = "m";
        let result = value.parse::<TimeUnit>();
        assert!(result.is_ok());
        assert_eq!(result.unwrap(), TimeUnit::Minute);
    }
    {
        let value = "h";
        let result = value.parse::<TimeUnit>();
        assert!(result.is_ok());
        assert_eq!(result.unwrap(), TimeUnit::Hour);
    }
    {
        let value = "d";
        let result = value.parse::<TimeUnit>();
        assert!(result.is_ok());
        assert_eq!(result.unwrap(), TimeUnit::Day);
    }
}

#[test]
fn test_conversion_duration_unit_to_duration() {
    let value = "200ms";
    let unit = value.parse::<DurationUnit>().unwrap();
    let result: Duration = unit.into();

    assert_eq!(result, Duration::from_millis(200));
}

#[test]
fn duration_literals_of_every_unit() {
    let nanos = |text: &str| DurationUnit::from_str(text).unwrap().into_duration().nanos;
    assert_eq!(nanos("7ns"), 7);
    assert_eq!(nanos("7us"), 7_000);
    assert_eq!(nanos("200ms"), 200_000_000);
    assert_eq!(nanos("3s"), 3_000_000_000);
    assert_eq!(nanos("2m"), 120_000_000_000);
    assert_eq!(nanos("2h"), 7_200_000_000_000);
    assert_eq!(nanos("1d"), 86_400_000_000_000);
    assert_eq!(nanos("0s"), 0);
    assert_eq!(nanos("007s"), 7_000_000_000);
    assert_eq!(nanos("18446744073709551615d"), 18446744073709551615u128 * 86_400_000_000_000);
    assert_eq!(DurationUnit::from_str("2h").unwrap().into_duration(), Duration::from_secs(7200));
}

#[test]
fn other_texts_are_no_duration_literals() {
    let syntax = Err(Error::Syntax("Current string is not correct duration unit value".to_owned()));
    for text in ["200xx", "", "ms", "200", "200 ms", " 200ms", "200ms ", "-1s", "1.5s", "1S", "2hours", "18446744073709551616s", "٣s", "1sé"] {
        assert_eq!(DurationUnit::from_str(text), syntax, "{}", text);
    }
}

#[test]
fn unit_names_in_every_spelling() {
    for (names, unit) in [
        (vec!["ns", "nanosecond", "nanos", "nanoseconds"], TimeUnit::Nanosecond),
        (vec!["us", "microsecond", "micros", "microseconds"], TimeUnit::Microsecond),
        (vec!["ms", "millisecond", "millis", "milliseconds"], TimeUnit::Millisecond),
        (vec!["s", "second", "secs", "seconds"], TimeUnit::Second),
        (vec!["m", "minute", "mins", "minutes"], TimeUnit::Minute),
        (vec!["h", "hour", "hours"], TimeUnit::Hour),
        (vec!["d", "day", "days"], TimeUnit::Day),
    ] {
        for name in names {
            assert_eq!(TimeUnit::from_str(name), Ok(unit));
        }
    }
    assert_eq!(
        TimeUnit::from_str("weeks"),
        Err(Error::UnitNotSupported("Unit 'weeks' not supported".to_owned()))
    );
    assert_eq!(TimeUnit::from_str(""), Err(Error::UnitNotSupported("Unit '' not supported".to_owned())));
}

#[test]
fn errors_show_their_message() {
    let error = Error::Syntax("bad".to_owned());
    assert_eq!(error.to_string(), "bad");
    assert_eq!(error.description(), "bad");
    let rule = "~".repeat(79);
    assert_eq!(error.debug_string(), format!("Syntax(\n{}\nbad\n{}\n)", rule, rule));
}
