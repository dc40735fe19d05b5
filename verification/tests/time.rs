use chrono::{DateTime, Utc};
use foxbox_taxonomy::json::JSON;
use foxbox_taxonomy::parse::{ParseError, Parser, Path};
use foxbox_taxonomy::serialize::{MultiPart, ToJSON};
use foxbox_taxonomy::time::{MAX_SECONDS, MIN_SECONDS};
use foxbox_taxonomy::values::TimeStamp;

fn text(s: &str) -> JSON {
    JSON::String(s.to_owned())
}

#[test]
fn the_bounds_are_those_of_the_calendar() {
    assert_eq!(DateTime::<Utc>::MIN_UTC.timestamp(), MIN_SECONDS);
    assert_eq!(DateTime::<Utc>::MAX_UTC.timestamp(), MAX_SECONDS);
    assert!(DateTime::from_timestamp(MIN_SECONDS, 0).is_some());
    assert!(DateTime::from_timestamp(MIN_SECONDS - 1, 0).is_none());
    assert!(DateTime::from_timestamp(MAX_SECONDS, 999_999_999).is_some());
    assert!(DateTime::from_timestamp(MAX_SECONDS + 1, 0).is_none());
}

#[test]
fn a_timestamp_is_made_of_what_the_calendar_can_hold() {
    let cases: Vec<(i64, u32)> = vec![
        (0, 0),
        (0, 999_999_999),
        (0, 1_000_000_000),
        (59, 1_000_000_000),
        (59, 1_999_999_999),
        (59, 2_000_000_000),
        (-1, 1_500_000_000),
        (-2, 1_500_000_000),
        (-61, 1_000_000_000),
        (119, 1_000_000_000),
        (120, 1_000_000_000),
        (MIN_SECONDS, 0),
        (MIN_SECONDS - 1, 0),
        (MAX_SECONDS, 1_999_999_999),
        (MAX_SECONDS + 1, 0),
        (i64::MAX, 0),
        (i64::MIN, 0),
        (1_417_178_759, u32::MAX),
    ];
    for (secs, nanos) in cases {
        let held = DateTime::from_timestamp(secs, nanos).is_some();
        match TimeStamp::new(secs, nanos) {
            Some(stamp) => {
                assert!(held, "{} {}", secs, nanos);
                assert_eq!(stamp.secs(), secs);
                assert_eq!(stamp.nanos(), nanos);
            }
            None => assert!(!held, "{} {}", secs, nanos),
        }
    }
}

#[test]
fn from_s_counts_whole_seconds() {
    let stamp = TimeStamp::from_s(1_431_648_000);
    assert_eq!(stamp.secs(), 1_431_648_000);
    assert_eq!(stamp.nanos(), 0);
    assert_eq!(Some(stamp), TimeStamp::new(1_431_648_000, 0));
    assert_eq!(TimeStamp::from_s(MIN_SECONDS).secs(), MIN_SECONDS);
    assert_eq!(TimeStamp::from_s(MAX_SECONDS).secs(), MAX_SECONDS);
}

#[test]
fn a_date_string_is_read_as_its_instant() {
    let cases = [
        ("1970-01-01T00:00:00Z", 0, 0),
        ("1970-01-01T00:00:00+00:00", 0, 0),
        ("1970-01-01T01:00:00+01:00", 0, 0),
        ("1969-12-31T23:59:59.5Z", -1, 500_000_000),
        ("2014-11-28T21:45:59.324310806+09:00", 1_417_178_759, 324_310_806),
        ("2015-05-15T00:00:00Z", 1_431_648_000, 0),
        ("9999-12-31T23:59:59Z", 253_402_300_799, 0),
        ("0000-01-01T00:00:00Z", -62_167_219_200, 0),
        ("2015-06-30T23:59:60Z", 1_435_708_799, 1_000_000_000),
    ];
    for (source, secs, nanos) in cases {
        let stamp = TimeStamp::parse(&Path::new(), text(source)).unwrap();
        assert_eq!((stamp.secs(), stamp.nanos()), (secs, nanos), "{}", source);
        let expected = DateTime::parse_from_rfc3339(source).unwrap();
        assert_eq!(stamp.secs(), expected.timestamp());
        assert_eq!(stamp.nanos(), expected.timestamp_subsec_nanos());
    }
}

#[test]
fn a_timestamp_is_written_as_its_date_string() {
    let cases = [
        (0, 0, "1970-01-01T00:00:00+00:00"),
        (-1, 500_000_000, "1969-12-31T23:59:59.500+00:00"),
        (1_417_178_759, 324_310_806, "2014-11-28T12:45:59.324310806+00:00"),
        (253_402_300_799, 0, "9999-12-31T23:59:59+00:00"),
        (253_402_300_800, 0, "+10000-01-01T00:00:00+00:00"),
    ];
    for (secs, nanos, expected) in cases {
        let stamp = TimeStamp::new(secs, nanos).unwrap();
        let node = stamp.to_json(&mut MultiPart::new());
        assert_eq!(node.as_string().unwrap(), expected);
    }
}

#[test]
fn a_timestamp_of_the_common_era_is_read_back_from_its_date_string() {
    for (secs, nanos) in [
        (0, 0),
        (-1, 999_999_999),
        (1_417_178_759, 324_310_806),
        (253_402_300_799, 999_999_999),
        (-62_167_219_200, 0),
        (1_435_708_799, 1_000_000_000),
    ] {
        let stamp = TimeStamp::new(secs, nanos).unwrap();
        let node = stamp.to_json(&mut MultiPart::new());
        assert_eq!(TimeStamp::parse(&Path::new(), node).unwrap(), stamp);
    }
}

#[test]
fn a_timestamp_beyond_four_digits_of_years_is_not_read_back() {
    let stamp = TimeStamp::new(253_402_300_800, 0).unwrap();
    let node = stamp.to_json(&mut MultiPart::new());
    assert!(TimeStamp::parse(&Path::new(), node).is_err());
    let stamp = TimeStamp::from_s(MIN_SECONDS);
    let node = stamp.to_json(&mut MultiPart::new());
    assert!(TimeStamp::parse(&Path::new(), node).is_err());
}

#[test]
fn from_parsed_takes_the_instant_or_reports_the_path() {
    let path = Path::new().push("when");
    let stamp = TimeStamp::from_parsed(&path, Some((5, 6))).unwrap();
    assert_eq!((stamp.secs(), stamp.nanos()), (5, 6));
    match TimeStamp::from_parsed(&path, None) {
        Err(ParseError::TypeError { name, at, expected }) => {
            assert_eq!(name, "TimeStamp");
            assert_eq!(at.to_string(), "when");
            assert_eq!(expected, "date string");
        }
        other => panic!("unexpected result {:?}", other),
    }
}

#[test]
fn is_read_back_tells_the_instants_that_a_date_string_keeps() {
    for (secs, nanos) in [
        (0, 0),
        (-1, 999_999_999),
        (1_417_178_759, 324_310_806),
        (253_402_300_799, 999_999_999),
        (-62_167_219_200, 0),
        (1_435_708_799, 1_000_000_000),
    ] {
        assert!(TimeStamp::new(secs, nanos).unwrap().is_read_back());
    }
    assert!(!TimeStamp::new(253_402_300_800, 0).unwrap().is_read_back());
    assert!(!TimeStamp::new(-62_167_219_201, 0).unwrap().is_read_back());
    assert!(!TimeStamp::from_s(MIN_SECONDS).is_read_back());
    assert!(!TimeStamp::from_s(MAX_SECONDS).is_read_back());
}
