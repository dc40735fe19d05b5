use foxbox_taxonomy::json::JSON;
use foxbox_taxonomy::number::Number;

fn text(s: &str) -> JSON {
    JSON::String(s.to_owned())
}

fn num(digits: u64, exponent: i32) -> JSON {
    JSON::Number(Number::new(false, digits, exponent))
}

fn obj(members: Vec<(&str, JSON)>) -> JSON {
    JSON::Object(members.into_iter().map(|(k, v)| (k.to_owned(), v)).collect())
}

fn tree() -> JSON {
    obj(vec![
        ("null", JSON::Null),
        ("flag", JSON::Bool(true)),
        ("number", num(15, -1)),
        ("text", text("x")),
        ("list", JSON::Array(vec![JSON::Null, obj(vec![("deep", text("y"))])])),
        ("object", obj(vec![("a", num(1, 0)), ("b", JSON::Array(vec![]))])),
    ])
}

#[test]
fn a_copy_holds_the_same() {
    let first = tree();
    let copy = first.clone();
    assert_eq!(copy, first);
    assert!(copy.same(&first));
}

#[test]
fn nodes_that_differ_anywhere_are_not_the_same() {
    let first = tree();
    let mut other = tree();
    if let JSON::Object(members) = &mut other {
        if let JSON::Array(items) = &mut members[4].1 {
            items[1] = obj(vec![("deep", text("z"))]);
        }
    }
    assert!(first != other);
    assert!(JSON::Null != JSON::Bool(false));
    assert!(num(1, 0) != num(10, -1));
    assert!(JSON::Array(vec![JSON::Null]) != JSON::Array(vec![]));
    assert!(obj(vec![("a", JSON::Null)]) != obj(vec![("b", JSON::Null)]));
    assert!(
        obj(vec![("a", JSON::Null), ("b", JSON::Null)])
            != obj(vec![("b", JSON::Null), ("a", JSON::Null)])
    );
}

#[test]
fn find_gives_the_first_member_of_a_name() {
    let node = obj(vec![("a", num(1, 0)), ("b", num(2, 0)), ("a", num(3, 0))]);
    assert_eq!(node.find("a"), Some(&num(1, 0)));
    assert_eq!(node.find("b"), Some(&num(2, 0)));
    assert_eq!(node.find("c"), None);
    assert_eq!(JSON::Null.find("a"), None);
    assert_eq!(JSON::Array(vec![node]).find("a"), None);
}

#[test]
fn take_field_removes_the_first_member_of_a_name() {
    let mut node = obj(vec![("a", num(1, 0)), ("b", num(2, 0)), ("a", num(3, 0))]);
    assert_eq!(node.take_field("a"), Some(num(1, 0)));
    assert_eq!(node, obj(vec![("b", num(2, 0)), ("a", num(3, 0))]));
    assert_eq!(node.take_field("c"), None);
    assert_eq!(node, obj(vec![("b", num(2, 0)), ("a", num(3, 0))]));
    assert_eq!(node.take_field("a"), Some(num(3, 0)));
    assert_eq!(node.take_field("b"), Some(num(2, 0)));
    assert_eq!(node, obj(vec![]));
    let mut other = text("a");
    assert_eq!(other.take_field("a"), None);
    assert_eq!(other, text("a"));
}

#[test]
fn into_single_gives_the_one_member() {
    assert_eq!(obj(vec![("a", num(1, 0))]).into_single(), Ok(("a".to_owned(), num(1, 0))));
    assert_eq!(obj(vec![]).into_single(), Err(obj(vec![])));
    let two = obj(vec![("a", JSON::Null), ("b", JSON::Null)]);
    assert_eq!(two.clone().into_single(), Err(two));
    assert_eq!(JSON::Null.into_single(), Err(JSON::Null));
}

#[test]
fn the_shapes_of_nodes() {
    assert!(JSON::Null.is_null());
    assert!(!JSON::Bool(false).is_null());
    assert!(obj(vec![]).is_object());
    assert!(!JSON::Array(vec![]).is_object());
    assert_eq!(text("x").as_string(), Some("x"));
    assert_eq!(JSON::Null.as_string(), None);
    assert_eq!(num(5, 1).as_number(), Some(Number::new(false, 5, 1)));
    assert_eq!(text("5").as_number(), None);
    assert_eq!(JSON::single("k", JSON::Null), obj(vec![("k", JSON::Null)]));
    assert_eq!(JSON::object(vec![("k".to_owned(), JSON::Null)]), obj(vec![("k", JSON::Null)]));
    assert_eq!(JSON::array(vec![JSON::Null]), JSON::Array(vec![JSON::Null]));
}
