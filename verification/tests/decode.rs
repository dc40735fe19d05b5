use foxbox_taxonomy::decode::kind_of_name;
use foxbox_taxonomy::json::JSON;
use foxbox_taxonomy::number::Number;
use foxbox_taxonomy::parse::{take, take_opt, ParseError, Parser, Path, Segment};
use foxbox_taxonomy::util::{Id, KindId};
use foxbox_taxonomy::values::{
    Binary, Color, Duration, ExtValue, Json, OnOff, OpenClosed, Range, Temperature,
    ThinkerbellRule, TimeStamp, Type, Value,
};

fn text(s: &str) -> JSON {
    JSON::String(s.to_owned())
}

fn num(digits: u64, exponent: i32) -> JSON {
    JSON::Number(Number::new(false, digits, exponent))
}

fn obj(members: Vec<(&str, JSON)>) -> JSON {
    JSON::Object(members.into_iter().map(|(k, v)| (k.to_owned(), v)).collect())
}

fn fields(path: &Path) -> Vec<String> {
    let mut out = Vec::new();
    for i in 0..path.len() {
        match path.segment(i) {
            Segment::Field(name) => out.push(name.clone()),
            Segment::Index(index) => out.push(format!("[{}]", index)),
        }
    }
    out
}

#[test]
fn on_off_is_read_from_its_two_words() {
    assert_eq!(OnOff::parse(&Path::new(), text("On")).unwrap(), OnOff::On);
    assert_eq!(OnOff::parse(&Path::new(), text("Off")).unwrap(), OnOff::Off);
}

#[test]
fn on_off_rejects_another_word() {
    match OnOff::parse(&Path::new(), text("on")) {
        Err(ParseError::UnknownConstant { value, at }) => {
            assert_eq!(value, "on");
            assert_eq!(at.len(), 0);
        }
        other => panic!("unexpected result {:?}", other),
    }
}

#[test]
fn on_off_rejects_what_is_no_string() {
    match OnOff::parse(&Path::new(), JSON::Bool(true)) {
        Err(ParseError::TypeError { name, expected, .. }) => {
            assert_eq!(name, "OnOff");
            assert_eq!(expected, "string");
        }
        other => panic!("unexpected result {:?}", other),
    }
}

#[test]
fn open_closed_is_read_from_its_two_words() {
    assert_eq!(OpenClosed::parse(&Path::new(), text("Open")).unwrap(), OpenClosed::Open);
    assert_eq!(OpenClosed::parse(&Path::new(), text("Closed")).unwrap(), OpenClosed::Closed);
    assert!(matches!(
        OpenClosed::parse(&Path::new(), text("open")),
        Err(ParseError::UnknownConstant { .. })
    ));
    assert!(matches!(
        OpenClosed::parse(&Path::new(), JSON::Null),
        Err(ParseError::TypeError { .. })
    ));
}

#[test]
fn every_kind_is_read_from_its_name() {
    let kinds = vec![
        Type::Unit,
        Type::OnOff,
        Type::OpenClosed,
        Type::Duration,
        Type::TimeStamp,
        Type::Temperature,
        Type::ThinkerbellRule,
        Type::String,
        Type::Color,
        Type::Json,
        Type::Binary,
        Type::ExtBool,
        Type::ExtNumeric,
    ];
    for kind in kinds {
        assert_eq!(Type::parse(&Path::new(), text(kind.name())).unwrap(), kind);
    }
    assert!(matches!(
        Type::parse(&Path::new(), text("Units")),
        Err(ParseError::UnknownConstant { .. })
    ));
    assert!(matches!(Type::parse(&Path::new(), num(1, 0)), Err(ParseError::TypeError { .. })));
}

#[test]
fn temperature_in_fahrenheit() {
    let parsed = Temperature::parse(&Path::new(), obj(vec![("F", num(100, 0))])).unwrap();
    match parsed {
        Temperature::F(degrees) => assert_eq!(degrees, Number::new(false, 100, 0)),
        other => panic!("unexpected result {:?}", other),
    }
}

#[test]
fn temperature_in_celsius() {
    let parsed = Temperature::parse(&Path::new(), obj(vec![("C", num(100, 0))])).unwrap();
    match parsed {
        Temperature::C(degrees) => assert_eq!(degrees, Number::new(false, 100, 0)),
        other => panic!("unexpected result {:?}", other),
    }
}

#[test]
fn temperature_with_both_scales_is_fahrenheit() {
    let parsed =
        Temperature::parse(&Path::new(), obj(vec![("C", num(1, 0)), ("F", num(2, 0))])).unwrap();
    assert!(matches!(parsed, Temperature::F(_)));
}

#[test]
fn temperature_without_a_scale_misses_a_field() {
    match Temperature::parse(&Path::new().push("t"), obj(vec![("K", num(1, 0))])) {
        Err(ParseError::MissingField { name, at }) => {
            assert_eq!(name, "C|F");
            assert_eq!(fields(&at), vec!["t".to_owned()]);
        }
        other => panic!("unexpected result {:?}", other),
    }
}

#[test]
fn temperature_that_is_no_object_is_a_type_error() {
    match Temperature::parse(&Path::new(), num(1, 0)) {
        Err(ParseError::TypeError { name, expected, .. }) => {
            assert_eq!(name, "Temperature");
            assert_eq!(expected, "object");
        }
        other => panic!("unexpected result {:?}", other),
    }
}

#[test]
fn temperature_whose_degrees_are_no_number_names_the_scale() {
    match Temperature::parse(&Path::new(), obj(vec![("F", text("hot"))])) {
        Err(ParseError::TypeError { at, .. }) => assert_eq!(fields(&at), vec!["F".to_owned()]),
        other => panic!("unexpected result {:?}", other),
    }
}

#[test]
fn color_with_four_channels() {
    let source = obj(vec![
        ("r", num(1, -1)),
        ("g", num(2, -1)),
        ("b", num(4, -1)),
        ("a", num(8, -1)),
    ]);
    let Color::RGBA(r, g, b, a) = Color::parse(&Path::new(), source).unwrap();
    assert_eq!(r, Number::new(false, 1, -1));
    assert_eq!(g, Number::new(false, 2, -1));
    assert_eq!(b, Number::new(false, 4, -1));
    assert_eq!(a, Number::new(false, 8, -1));
}

#[test]
fn color_without_alpha_has_alpha_zero() {
    let source = obj(vec![("r", num(1, -1)), ("g", num(2, -1)), ("b", num(4, -1))]);
    let Color::RGBA(r, g, b, a) = Color::parse(&Path::new(), source).unwrap();
    assert_eq!(r, Number::new(false, 1, -1));
    assert_eq!(g, Number::new(false, 2, -1));
    assert_eq!(b, Number::new(false, 4, -1));
    assert_eq!(a, Number::zero());
}

#[test]
fn color_out_of_range_names_the_channel() {
    let source = obj(vec![("r", num(15, -1)), ("g", num(0, 0)), ("b", num(0, 0))]);
    match Color::parse(&Path::new(), source) {
        Err(ParseError::TypeError { name, expected, at }) => {
            assert_eq!(name, "r");
            assert_eq!(expected, "a number in [0, 1]");
            assert_eq!(at.len(), 0);
        }
        other => panic!("unexpected result {:?}", other),
    }
}

#[test]
fn color_of_a_hundred_is_out_of_range() {
    let source = obj(vec![
        ("r", num(100, 0)),
        ("g", num(2, -1)),
        ("b", num(4, -1)),
        ("a", num(9, -1)),
    ]);
    assert!(matches!(Color::parse(&Path::new(), source), Err(ParseError::TypeError { .. })));
}

#[test]
fn color_names_the_first_channel_out_of_range() {
    let source = obj(vec![
        ("r", num(1, 0)),
        ("g", num(0, 0)),
        ("b", JSON::Number(Number::new(true, 1, -3))),
        ("a", num(2, 0)),
    ]);
    match Color::parse(&Path::new(), source) {
        Err(ParseError::TypeError { name, .. }) => assert_eq!(name, "b"),
        other => panic!("unexpected result {:?}", other),
    }
}

#[test]
fn color_reads_all_channels_before_it_holds_any_to_its_range() {
    // Red is out of range, but blue is missing: the missing field is found first.
    let source = obj(vec![("r", num(5, 0)), ("g", num(0, 0))]);
    match Color::parse(&Path::new(), source) {
        Err(ParseError::MissingField { name, .. }) => assert_eq!(name, "b"),
        other => panic!("unexpected result {:?}", other),
    }
}

#[test]
fn color_without_blue_misses_a_field() {
    let source = obj(vec![("r", num(1, -1)), ("g", num(2, -1))]);
    match Color::parse(&Path::new(), source) {
        Err(ParseError::MissingField { name, at }) => {
            assert_eq!(name, "b");
            assert_eq!(fields(&at), vec!["b".to_owned()]);
        }
        other => panic!("unexpected result {:?}", other),
    }
}

#[test]
fn color_at_its_bounds_is_accepted() {
    let source = obj(vec![
        ("r", num(0, 0)),
        ("g", num(1, 0)),
        ("b", num(10, -1)),
        ("a", JSON::Number(Number::new(true, 0, 5))),
    ]);
    assert!(Color::parse(&Path::new(), source).is_ok());
}

#[test]
fn rule_has_a_name_and_a_source() {
    let source = obj(vec![("source", text("when x")), ("name", text("rule 1"))]);
    let rule = ThinkerbellRule::parse(&Path::new(), source).unwrap();
    assert_eq!(rule.name, "rule 1");
    assert_eq!(rule.source, "when x");
    let incomplete = obj(vec![("name", text("rule 1"))]);
    match ThinkerbellRule::parse(&Path::new(), incomplete) {
        Err(ParseError::MissingField { name, .. }) => assert_eq!(name, "source"),
        other => panic!("unexpected result {:?}", other),
    }
}

#[test]
fn any_node_is_a_free_form_value() {
    let source = obj(vec![("foo", text("bar"))]);
    let Json(node) = Json::parse(&Path::new(), source).unwrap();
    assert_eq!(node.find("foo").unwrap().as_string().unwrap(), "bar");
}

#[test]
fn extension_value_reads_its_four_members() {
    let source = obj(vec![
        ("value", JSON::Bool(true)),
        ("vendor", text("foxlink@mozilla.com")),
        ("adapter", text("an adapter")),
        ("kind", text("PresenceDetected")),
    ]);
    let parsed = ExtValue::<bool>::parse(&Path::new(), source).unwrap();
    assert!(parsed.value);
    assert_eq!(parsed.vendor.as_str(), "foxlink@mozilla.com");
    assert_eq!(parsed.adapter.as_str(), "an adapter");
    assert_eq!(parsed.kind, Id::<KindId>::new("PresenceDetected"));
}

#[test]
fn extension_value_reports_the_vendor_first() {
    let source = obj(vec![("value", JSON::Bool(true))]);
    match ExtValue::<bool>::parse(&Path::new(), source) {
        Err(ParseError::MissingField { name, .. }) => assert_eq!(name, "vendor"),
        other => panic!("unexpected result {:?}", other),
    }
    let source = obj(vec![
        ("value", text("yes")),
        ("vendor", text("v")),
        ("adapter", text("a")),
        ("kind", text("k")),
    ]);
    match ExtValue::<Number>::parse(&Path::new(), source) {
        Err(ParseError::TypeError { at, .. }) => assert_eq!(fields(&at), vec!["value".to_owned()]),
        other => panic!("unexpected result {:?}", other),
    }
}

#[test]
fn binary_is_read_from_its_bytes() {
    let source = obj(vec![
        ("data", JSON::Array(vec![num(0, 0), num(255, 0), num(12, 1)])),
        ("mimetype", text("image/png")),
    ]);
    let parsed = Binary::parse(&Path::new(), source).unwrap();
    assert_eq!(*parsed.data, vec![0u8, 255, 120]);
    assert_eq!(parsed.mimetype.as_str(), "image/png");
}

#[test]
fn binary_rejects_what_is_no_byte() {
    let source = obj(vec![
        ("data", JSON::Array(vec![num(0, 0), num(256, 0)])),
        ("mimetype", text("image/png")),
    ]);
    match Binary::parse(&Path::new(), source) {
        Err(ParseError::TypeError { name, at, .. }) => {
            assert_eq!(name, "byte");
            assert_eq!(fields(&at), vec!["data".to_owned(), "[1]".to_owned()]);
        }
        other => panic!("unexpected result {:?}", other),
    }
    let source = obj(vec![
        ("data", JSON::Array(vec![num(5, -1)])),
        ("mimetype", text("image/png")),
    ]);
    assert!(Binary::parse(&Path::new(), source).is_err());
}

#[test]
fn duration_cuts_off_what_is_less_than_a_millisecond() {
    let parsed = Duration::parse(&Path::new(), num(6001, -2)).unwrap();
    assert_eq!(parsed.num_milliseconds(), 60010);
    let parsed = Duration::parse(&Path::new(), num(60_010_999, -6)).unwrap();
    assert_eq!(parsed.num_milliseconds(), 60010);
    let parsed =
        Duration::parse(&Path::new(), JSON::Number(Number::new(true, 19_999, -4))).unwrap();
    assert_eq!(parsed.num_milliseconds(), -1999);
    let parsed = Duration::parse(&Path::new(), num(3, 0)).unwrap();
    assert_eq!(parsed.num_milliseconds(), 3000);
}

#[test]
fn duration_beyond_what_can_be_counted_is_the_longest() {
    let parsed = Duration::parse(&Path::new(), num(1, 300)).unwrap();
    assert_eq!(parsed.num_milliseconds(), i64::MAX);
    let parsed = Duration::parse(&Path::new(), JSON::Number(Number::new(true, 1, 16))).unwrap();
    assert_eq!(parsed.num_milliseconds(), i64::MIN);
    let parsed = Duration::parse(&Path::new(), num(1, -300)).unwrap();
    assert_eq!(parsed.num_milliseconds(), 0);
}

#[test]
fn duration_that_is_no_number_is_a_type_error() {
    assert!(matches!(
        Duration::parse(&Path::new(), text("1")),
        Err(ParseError::TypeError { .. })
    ));
}

#[test]
fn timestamp_is_read_from_a_date_string() {
    let parsed =
        TimeStamp::parse(&Path::new(), text("2014-11-28T21:45:59.324310806+09:00")).unwrap();
    assert_eq!(parsed.secs(), 1_417_178_759);
    assert_eq!(parsed.nanos(), 324_310_806);
}

#[test]
fn timestamp_rejects_what_is_no_date_string() {
    for bad in ["yesterday", "2014-11-28", "2014-11-28 21:45:59", ""] {
        match TimeStamp::parse(&Path::new(), text(bad)) {
            Err(ParseError::TypeError { name, expected, .. }) => {
                assert_eq!(name, "TimeStamp");
                assert_eq!(expected, "date string");
            }
            other => panic!("unexpected result {:?}", other),
        }
    }
    assert!(TimeStamp::parse(&Path::new(), num(1, 0)).is_err());
}

#[test]
fn value_is_read_from_null() {
    assert_eq!(Value::parse(&Path::new(), JSON::Null).unwrap(), Value::Unit);
}

#[test]
fn value_is_read_from_the_word_unit() {
    assert_eq!(Value::parse(&Path::new(), text("Unit")).unwrap(), Value::Unit);
    assert!(matches!(
        Value::parse(&Path::new(), text("OnOff")),
        Err(ParseError::TypeError { .. })
    ));
}

#[test]
fn unit_takes_any_payload() {
    let source = obj(vec![("Unit", JSON::Array(vec![]))]);
    assert_eq!(Value::parse(&Path::new(), source).unwrap(), Value::Unit);
}

#[test]
fn value_on() {
    let source = obj(vec![("OnOff", text("On"))]);
    assert_eq!(Value::parse(&Path::new(), source).unwrap(), Value::OnOff(OnOff::On));
}

#[test]
fn value_open() {
    let source = obj(vec![("OpenClosed", text("Open"))]);
    assert_eq!(Value::parse(&Path::new(), source).unwrap(), Value::OpenClosed(OpenClosed::Open));
}

#[test]
fn value_duration() {
    let source = obj(vec![("Duration", num(6001, -2))]);
    match Value::parse(&Path::new(), source).unwrap() {
        Value::Duration(d) => assert_eq!(d.num_milliseconds(), 60010),
        other => panic!("unexpected result {:?}", other),
    }
}

#[test]
fn value_temperature() {
    let source = obj(vec![("Temperature", obj(vec![("C", num(20, -1))]))]);
    match Value::parse(&Path::new(), source).unwrap() {
        Value::Temperature(Temperature::C(degrees)) => {
            assert_eq!(degrees, Number::new(false, 2, 0))
        }
        other => panic!("unexpected result {:?}", other),
    }
}

#[test]
fn value_color() {
    let source =
        obj(vec![("Color", obj(vec![("r", num(1, -1)), ("g", num(2, -1)), ("b", num(4, -1))]))]);
    let expected = Color::RGBA(
        Number::new(false, 1, -1),
        Number::new(false, 2, -1),
        Number::new(false, 4, -1),
        Number::zero(),
    );
    assert_eq!(Value::parse(&Path::new(), source).unwrap(), Value::Color(expected));
}

#[test]
fn value_string() {
    let source = obj(vec![("String", text("foobar"))]);
    match Value::parse(&Path::new(), source).unwrap() {
        Value::String(s) => assert_eq!(&*s as &str, "foobar"),
        other => panic!("unexpected result {:?}", other),
    }
}

#[test]
fn value_json() {
    let source = obj(vec![("Json", obj(vec![("foo", text("bar"))]))]);
    match Value::parse(&Path::new(), source).unwrap() {
        Value::Json(node) => assert_eq!(node.0.find("foo").unwrap().as_string().unwrap(), "bar"),
        other => panic!("unexpected result {:?}", other),
    }
}

#[test]
fn every_kind_is_a_name_that_a_value_may_have() {
    let kinds = vec![
        Type::Unit,
        Type::OnOff,
        Type::OpenClosed,
        Type::Duration,
        Type::TimeStamp,
        Type::Temperature,
        Type::ThinkerbellRule,
        Type::String,
        Type::Color,
        Type::Json,
        Type::Binary,
        Type::ExtBool,
        Type::ExtNumeric,
    ];
    let listed = match Value::parse(&Path::new(), obj(vec![("OnOf", text("On"))])) {
        Err(ParseError::TypeError { expected, .. }) => expected,
        other => panic!("unexpected result {:?}", other),
    };
    for kind in kinds {
        assert_eq!(kind_of_name(kind.name()), Some(kind));
        assert!(listed.contains(&format!("\"{}\"", kind.name())));
        // The name is known: what fails, if anything, is the payload.
        match Value::from_member(&Path::new(), kind.name(), JSON::Bool(true)) {
            Ok(value) => assert_eq!(value.get_type(), kind),
            Err(error) => assert!(error.path().len() >= 2),
        }
    }
    assert_eq!(kind_of_name("unit"), None);
    assert_eq!(kind_of_name(""), None);
    assert_eq!(listed.matches('"').count(), 26);
}

#[test]
fn value_with_a_misspelt_name_lists_the_names() {
    let source = obj(vec![("OnOf", text("On"))]);
    match Value::parse(&Path::new(), source) {
        Err(ParseError::TypeError { name, expected, at }) => {
            assert_eq!(name, "Value");
            assert_eq!(at.len(), 0);
            for kind in ["\"Unit\"", "\"OnOff\"", "\"Binary\"", "\"ExtNumeric\"", "\"Json\""] {
                assert!(expected.contains(kind), "{} is not listed", kind);
            }
        }
        other => panic!("unexpected result {:?}", other),
    }
}

#[test]
fn value_with_an_unknown_constant() {
    let source = obj(vec![("OnOff", text("Maybe"))]);
    match Value::parse(&Path::new(), source) {
        Err(ParseError::UnknownConstant { value, at }) => {
            assert_eq!(value, "Maybe");
            assert_eq!(fields(&at), vec!["OnOff".to_owned(), "OnOff".to_owned()]);
        }
        other => panic!("unexpected result {:?}", other),
    }
}

#[test]
fn value_of_another_shape_is_a_type_error() {
    let two = obj(vec![("OnOff", text("On")), ("Unit", JSON::Null)]);
    let none = obj(vec![]);
    for source in vec![two, none, JSON::Bool(true), num(1, 0), JSON::Array(vec![])] {
        match Value::parse(&Path::new(), source) {
            Err(ParseError::TypeError { name, expected, .. }) => {
                assert_eq!(name, "Value");
                assert!(expected.starts_with("object with a single field"));
                for kind in ["\"Unit\"", "\"OnOff\"", "\"Color\"", "\"Binary\""] {
                    assert!(expected.contains(kind), "{} is not listed", kind);
                }
            }
            other => panic!("unexpected result {:?}", other),
        }
    }
}

#[test]
fn value_error_inside_a_color_names_the_whole_path() {
    let source = obj(vec![("Color", obj(vec![("r", num(1, -1)), ("g", text("green"))]))]);
    match Value::parse(&Path::new().push("reading"), source) {
        Err(error) => {
            assert_eq!(error.path().to_string(), "reading.Color.Color.g");
            assert_eq!(
                error.to_string(),
                "Invalid type for Number at reading.Color.Color.g, expected number"
            );
        }
        other => panic!("unexpected result {:?}", other),
    }
}

#[test]
fn range_leq() {
    let source = obj(vec![("Leq", obj(vec![("OnOff", text("On"))]))]);
    assert_eq!(Range::parse(&Path::new(), source).unwrap(), Range::Leq(Value::OnOff(OnOff::On)));
}

#[test]
fn range_geq_and_eq() {
    let source = obj(vec![("Geq", obj(vec![("OnOff", text("Off"))]))]);
    assert_eq!(Range::parse(&Path::new(), source).unwrap(), Range::Geq(Value::OnOff(OnOff::Off)));
    let source = obj(vec![("Eq", JSON::Null)]);
    assert_eq!(Range::parse(&Path::new(), source).unwrap(), Range::Eq(Value::Unit));
}

#[test]
fn range_between() {
    let bounds = JSON::Array(vec![
        obj(vec![("Duration", num(1, 0))]),
        obj(vec![("Duration", num(5, 0))]),
    ]);
    let parsed = Range::parse(&Path::new(), obj(vec![("BetweenEq", bounds)])).unwrap();
    assert_eq!(
        parsed,
        Range::BetweenEq {
            min: Value::Duration(Duration::from_millis(1000)),
            max: Value::Duration(Duration::from_millis(5000)),
        }
    );
}

#[test]
fn range_out_of() {
    let bounds = JSON::Array(vec![
        obj(vec![("OnOff", text("Off"))]),
        obj(vec![("OnOff", text("On"))]),
    ]);
    let parsed = Range::parse(&Path::new(), obj(vec![("OutOfStrict", bounds)])).unwrap();
    assert_eq!(
        parsed,
        Range::OutOfStrict { min: Value::OnOff(OnOff::Off), max: Value::OnOff(OnOff::On) }
    );
}

#[test]
fn range_needs_two_bounds() {
    for (key, count) in [("BetweenEq", 1), ("BetweenEq", 3), ("OutOfStrict", 0)] {
        let bounds = JSON::Array((0..count).map(|_| JSON::Null).collect());
        match Range::parse(&Path::new(), obj(vec![(key, bounds)])) {
            Err(ParseError::TypeError { name, expected, at }) => {
                assert_eq!(name, key);
                assert_eq!(expected, "an array of two values");
                assert_eq!(at.len(), 0);
            }
            other => panic!("unexpected result {:?}", other),
        }
    }
}

#[test]
fn range_error_in_a_bound_names_its_place() {
    let bounds =
        JSON::Array(vec![obj(vec![("OnOff", text("On"))]), obj(vec![("OnOff", text("Maybe"))])]);
    match Range::parse(&Path::new().push("Range"), obj(vec![("BetweenEq", bounds)])) {
        Err(error) => {
            assert_eq!(error.path().to_string(), "Range.BetweenEq[1].OnOff.OnOff");
        }
        other => panic!("unexpected result {:?}", other),
    }
}

#[test]
fn range_error_under_one_bound_begins_with_the_member_as_written() {
    for key in ["Eq", "Leq", "Geq"] {
        let source = obj(vec![(key, obj(vec![("OnOff", text("Maybe"))]))]);
        match Range::parse(&Path::new(), source) {
            Err(ParseError::UnknownConstant { value, at }) => {
                assert_eq!(value, "Maybe");
                assert_eq!(fields(&at), vec![key.to_owned(), "OnOff".to_owned(), "OnOff".to_owned()]);
            }
            other => panic!("unexpected result {:?}", other),
        }
    }
    let source = obj(vec![("Eq", obj(vec![("OnOff", text("Maybe"))]))]);
    let error = Range::parse(&Path::new().push("Range"), source).unwrap_err();
    assert_eq!(error.path().to_string(), "Range.Eq.OnOff.OnOff");
}

#[test]
fn range_bounds_that_are_no_array() {
    match Range::parse(&Path::new(), obj(vec![("BetweenEq", JSON::Null)])) {
        Err(ParseError::TypeError { name, expected, at }) => {
            assert_eq!(name, "Array");
            assert_eq!(expected, "array");
            assert_eq!(fields(&at), vec!["BetweenEq".to_owned()]);
        }
        other => panic!("unexpected result {:?}", other),
    }
}

#[test]
fn range_of_another_shape_is_a_type_error() {
    match Range::parse(&Path::new(), obj(vec![("Lt", JSON::Null)])) {
        Err(ParseError::TypeError { name, expected, .. }) => {
            assert_eq!(name, "Range");
            assert_eq!(expected, "a field Eq, Leq, Geq, BetweenEq or OutOfStrict");
        }
        other => panic!("unexpected result {:?}", other),
    }
    for source in vec![JSON::Null, obj(vec![]), obj(vec![("Leq", JSON::Null), ("Geq", JSON::Null)])]
    {
        match Range::parse(&Path::new(), source) {
            Err(ParseError::TypeError { name, expected, .. }) => {
                assert_eq!(name, "Range");
                assert_eq!(expected, "object");
            }
            other => panic!("unexpected result {:?}", other),
        }
    }
}

#[test]
fn take_removes_the_member_that_it_reads() {
    let mut source = obj(vec![("a", JSON::Bool(true)), ("b", JSON::Bool(false))]);
    let taken: bool = take(&Path::new(), &mut source, "a").unwrap();
    assert!(taken);
    assert_eq!(source, obj(vec![("b", JSON::Bool(false))]));
    let again: Result<bool, ParseError> = take(&Path::new().push("a"), &mut source, "a");
    match again {
        Err(ParseError::MissingField { name, at }) => {
            assert_eq!(name, "a");
            assert_eq!(fields(&at), vec!["a".to_owned()]);
        }
        other => panic!("unexpected result {:?}", other),
    }
}

#[test]
fn take_removes_the_member_even_where_it_does_not_fit() {
    let mut source = obj(vec![("a", JSON::Null), ("b", JSON::Bool(false))]);
    let taken: Result<bool, ParseError> = take(&Path::new(), &mut source, "a");
    assert!(matches!(taken, Err(ParseError::TypeError { .. })));
    assert_eq!(source, obj(vec![("b", JSON::Bool(false))]));
}

#[test]
fn take_opt_tells_absence_from_failure() {
    let mut source = obj(vec![("a", JSON::Null)]);
    let absent: Option<Result<bool, ParseError>> = take_opt(&Path::new(), &mut source, "b");
    assert!(absent.is_none());
    let failed: Option<Result<bool, ParseError>> = take_opt(&Path::new(), &mut source, "a");
    assert!(matches!(failed, Some(Err(ParseError::TypeError { .. }))));
    let mut no_object = JSON::Null;
    let absent: Option<Result<bool, ParseError>> = take_opt(&Path::new(), &mut no_object, "a");
    assert!(absent.is_none());
    assert_eq!(no_object, JSON::Null);
}

#[test]
fn take_finds_the_first_of_two_members_of_one_name() {
    let mut source = obj(vec![("a", JSON::Bool(true)), ("a", JSON::Bool(false))]);
    let first: bool = take(&Path::new(), &mut source, "a").unwrap();
    assert!(first);
    let second: bool = take(&Path::new(), &mut source, "a").unwrap();
    assert!(!second);
}

#[test]
fn a_path_is_not_changed_by_a_step_from_it() {
    let path = Path::new().push("Range");
    let further = path.push("BetweenEq").push_index(1);
    assert_eq!(path.to_string(), "Range");
    assert_eq!(further.to_string(), "Range.BetweenEq[1]");
    assert_eq!(Path::new().to_string(), "");
    assert_eq!(Path::new().push_index(10).push_index(0).to_string(), "[10][0]");
    assert_eq!(Path::new().push("Temperature").push("F").to_string(), "Temperature.F");
    assert_eq!(Path::new().push_index(1234567890).to_string(), "[1234567890]");
}

#[test]
fn descriptions() {
    assert_eq!(Type::description(), "Type");
    assert_eq!(OnOff::description(), "OnOff");
    assert_eq!(OpenClosed::description(), "OpenClosed");
    assert_eq!(Temperature::description(), "Temperature");
    assert_eq!(Color::description(), "Color");
    assert_eq!(ThinkerbellRule::description(), "ThinkerbellRuleSource");
    assert_eq!(Json::description(), "Json value");
    assert_eq!(ExtValue::<bool>::description(), "ExtValue<bool>");
    assert_eq!(ExtValue::<Number>::description(), "ExtValue<Number>");
    assert_eq!(Binary::description(), "Binary");
    assert_eq!(Value::description(), "Value");
    assert_eq!(TimeStamp::description(), "TimeStamp");
    assert_eq!(Range::description(), "Range");
    assert_eq!(Duration::description(), "Duration");
    assert_eq!(Vec::<Value>::description(), "Array<Value>");
}

#[test]
fn messages() {
    let at = Path::new().push("a").push_index(2);
    assert_eq!(
        ParseError::type_error("Color", &at, "object").to_string(),
        "Invalid type for Color at a[2], expected object"
    );
    assert_eq!(ParseError::missing_field("b", &at).to_string(), "Missing field b at a[2]");
    assert_eq!(
        ParseError::unknown_constant("Maybe", &at).to_string(),
        "Unknown constant Maybe at a[2]"
    );
}
