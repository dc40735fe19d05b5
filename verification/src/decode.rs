//! How the values are read from JSON nodes.
use crate::json::{JsonView, JSON};
use crate::number::{Number, Sign};
use crate::parse::{
    lemma_taken_after, outcome, take, take_opt, taken, taken_opt, ParseError, ParseErrorView,
    Parser, Path, SegmentView,
};
use crate::text::same_text;
use crate::time::{Duration, TimeStamp};
use crate::util::{AdapterId, Id, KindId, MimeTypeId, VendorId};
use crate::values::{
    in_unit_range, Binary, BinaryView, Color, ExtValue, ExtView, Json, OnOff, OpenClosed, Range,
    RangeView, RuleView, Temperature, ThinkerbellRule, Type, Value, ValueView,
};
use std::sync::Arc;
use vstd::prelude::*;
use vstd::string::StringExecFns;

verus! {

/// The path that leads one step further than `path`, into the member
/// named `name`.
pub open spec fn into_field(path: Seq<SegmentView>, name: Seq<char>) -> Seq<SegmentView> {
    path.push(SegmentView::Field(name))
}

/// The report that the node that `path` leads to, called `name`, is not
/// of the shape `expected`.
pub open spec fn mismatch(name: Seq<char>, path: Seq<SegmentView>, expected: Seq<char>) -> ParseErrorView {
    ParseErrorView::TypeError { name, at: path, expected }
}

impl Parser for OnOff {
    open spec fn described() -> Seq<char> {
        "OnOff"@
    }

    open spec fn decoded(path: Seq<SegmentView>, source: JsonView) -> Result<OnOff, ParseErrorView> {
        match source {
            JsonView::String(text) => if text == "On"@ {
                Ok(OnOff::On)
            } else if text == "Off"@ {
                Ok(OnOff::Off)
            } else {
                Err(ParseErrorView::UnknownConstant { value: text, at: path })
            },
            _ => Err(mismatch("OnOff"@, path, "string"@)),
        }
    }

    fn description() -> (text: String) {
        "OnOff".to_owned()
    }

    fn parse(path: &Path, source: JSON) -> (r: Result<Self, ParseError>) {
        match source.as_string() {
            Some(text) => if same_text(text, "On") {
                Ok(OnOff::On)
            } else if same_text(text, "Off") {
                Ok(OnOff::Off)
            } else {
                Err(ParseError::unknown_constant(text, path))
            },
            None => Err(ParseError::type_error("OnOff", path, "string")),
        }
    }
}

impl Parser for OpenClosed {
    open spec fn described() -> Seq<char> {
        "OpenClosed"@
    }

    open spec fn decoded(path: Seq<SegmentView>, source: JsonView) -> Result<
        OpenClosed,
        ParseErrorView,
    > {
        match source {
            JsonView::String(text) => if text == "Open"@ {
                Ok(OpenClosed::Open)
            } else if text == "Closed"@ {
                Ok(OpenClosed::Closed)
            } else {
                Err(ParseErrorView::UnknownConstant { value: text, at: path })
            },
            _ => Err(mismatch("OpenClosed"@, path, "string"@)),
        }
    }

    fn description() -> (text: String) {
        "OpenClosed".to_owned()
    }

    fn parse(path: &Path, source: JSON) -> (r: Result<Self, ParseError>) {
        match source.as_string() {
            Some(text) => if same_text(text, "Open") {
                Ok(OpenClosed::Open)
            } else if same_text(text, "Closed") {
                Ok(OpenClosed::Closed)
            } else {
                Err(ParseError::unknown_constant(text, path))
            },
            None => Err(ParseError::type_error("OpenClosed", path, "string")),
        }
    }
}

/// The kind that the word `name` stands for.
pub open spec fn kind_named(name: Seq<char>) -> Option<Type> {
    if name == "Unit"@ {
        Some(Type::Unit)
    } else if name == "OnOff"@ {
        Some(Type::OnOff)
    } else if name == "OpenClosed"@ {
        Some(Type::OpenClosed)
    } else if name == "Duration"@ {
        Some(Type::Duration)
    } else if name == "TimeStamp"@ {
        Some(Type::TimeStamp)
    } else if name == "Temperature"@ {
        Some(Type::Temperature)
    } else if name == "ThinkerbellRule"@ {
        Some(Type::ThinkerbellRule)
    } else if name == "String"@ {
        Some(Type::String)
    } else if name == "Color"@ {
        Some(Type::Color)
    } else if name == "Json"@ {
        Some(Type::Json)
    } else if name == "Binary"@ {
        Some(Type::Binary)
    } else if name == "ExtBool"@ {
        Some(Type::ExtBool)
    } else if name == "ExtNumeric"@ {
        Some(Type::ExtNumeric)
    } else {
        None
    }
}

/// The kind that the word `name` stands for.
pub fn kind_of_name(name: &str) -> (kind: Option<Type>)
    ensures
        kind == kind_named(name@),
{
    if same_text(name, "Unit") {
        Some(Type::Unit)
    } else if same_text(name, "OnOff") {
        Some(Type::OnOff)
    } else if same_text(name, "OpenClosed") {
        Some(Type::OpenClosed)
    } else if same_text(name, "Duration") {
        Some(Type::Duration)
    } else if same_text(name, "TimeStamp") {
        Some(Type::TimeStamp)
    } else if same_text(name, "Temperature") {
        Some(Type::Temperature)
    } else if same_text(name, "ThinkerbellRule") {
        Some(Type::ThinkerbellRule)
    } else if same_text(name, "String") {
        Some(Type::String)
    } else if same_text(name, "Color") {
        Some(Type::Color)
    } else if same_text(name, "Json") {
        Some(Type::Json)
    } else if same_text(name, "Binary") {
        Some(Type::Binary)
    } else if same_text(name, "ExtBool") {
        Some(Type::ExtBool)
    } else if same_text(name, "ExtNumeric") {
        Some(Type::ExtNumeric)
    } else {
        None
    }
}

/// No two kinds share a name: the word for a kind stands for that kind.
pub proof fn lemma_kind_names(kind: Type)
    ensures
        kind_named(kind.named()) == Some(kind),
{
    reveal_strlit("Unit");
    reveal_strlit("OnOff");
    reveal_strlit("OpenClosed");
    reveal_strlit("Duration");
    reveal_strlit("TimeStamp");
    reveal_strlit("Temperature");
    reveal_strlit("ThinkerbellRule");
    reveal_strlit("String");
    reveal_strlit("Color");
    reveal_strlit("Json");
    reveal_strlit("Binary");
    reveal_strlit("ExtBool");
    reveal_strlit("ExtNumeric");
    assert("Unit"@.len() == 4 && "Unit"@[0] == 'U');
    assert("OnOff"@.len() == 5 && "OnOff"@[0] == 'O');
    assert("OpenClosed"@.len() == 10 && "OpenClosed"@[0] == 'O');
    assert("Duration"@.len() == 8);
    assert("TimeStamp"@.len() == 9);
    assert("Temperature"@.len() == 11);
    assert("ThinkerbellRule"@.len() == 15);
    assert("String"@.len() == 6 && "String"@[0] == 'S');
    assert("Color"@.len() == 5 && "Color"@[0] == 'C');
    assert("Json"@.len() == 4 && "Json"@[0] == 'J');
    assert("Binary"@.len() == 6 && "Binary"@[0] == 'B');
    assert("ExtBool"@.len() == 7);
    assert("ExtNumeric"@.len() == 10 && "ExtNumeric"@[0] == 'E');
}

impl Parser for Type {
    open spec fn described() -> Seq<char> {
        "Type"@
    }

    open spec fn decoded(path: Seq<SegmentView>, source: JsonView) -> Result<Type, ParseErrorView> {
        match source {
            JsonView::String(text) => match kind_named(text) {
                Some(kind) => Ok(kind),
                None => Err(ParseErrorView::UnknownConstant { value: text, at: path }),
            },
            _ => Err(mismatch("Type"@, path, "string"@)),
        }
    }

    fn description() -> (text: String) {
        "Type".to_owned()
    }

    fn parse(path: &Path, source: JSON) -> (r: Result<Self, ParseError>) {
        match source.as_string() {
            Some(text) => match kind_of_name(text) {
                Some(kind) => Ok(kind),
                None => Err(ParseError::unknown_constant(text, path)),
            },
            None => Err(ParseError::type_error("Type", path, "string")),
        }
    }
}

/// A temperature is an object with the member `F` or the member `C`.
/// Where it has both, `F` is the one that counts.
impl Parser for Temperature {
    open spec fn described() -> Seq<char> {
        "Temperature"@
    }

    open spec fn decoded(path: Seq<SegmentView>, source: JsonView) -> Result<
        Temperature,
        ParseErrorView,
    > {
        if !(source is Object) {
            Err(mismatch("Temperature"@, path, "object"@))
        } else {
            match taken_opt::<Number>(into_field(path, "F"@), source, "F"@) {
                Some(Ok(degrees)) => Ok(Temperature::F(degrees)),
                Some(Err(error)) => Err(error),
                None => match taken_opt::<Number>(into_field(path, "C"@), source, "C"@) {
                    Some(Ok(degrees)) => Ok(Temperature::C(degrees)),
                    Some(Err(error)) => Err(error),
                    None => Err(ParseErrorView::MissingField { name: "C|F"@, at: path }),
                },
            }
        }
    }

    fn description() -> (text: String) {
        "Temperature".to_owned()
    }

    fn parse(path: &Path, source: JSON) -> (r: Result<Self, ParseError>) {
        let mut source = source;
        if !source.is_object() {
            return Err(ParseError::type_error("Temperature", path, "object"));
        }
        match take_opt::<Number>(&path.push("F"), &mut source, "F") {
            Some(Ok(degrees)) => {
                return Ok(Temperature::F(degrees));
            },
            Some(Err(error)) => {
                return Err(error);
            },
            None => {},
        }
        match take_opt::<Number>(&path.push("C"), &mut source, "C") {
            Some(Ok(degrees)) => Ok(Temperature::C(degrees)),
            Some(Err(error)) => Err(error),
            None => Err(ParseError::missing_field("C|F", path)),
        }
    }
}

/// The color of the four channels, if each lies between 0 and 1; else
/// the report on the first that does not, in the order red, green,
/// blue, alpha.
pub open spec fn checked_color(
    path: Seq<SegmentView>,
    r: Number,
    g: Number,
    b: Number,
    a: Number,
) -> Result<Color, ParseErrorView> {
    if !in_unit_range(r) {
        Err(mismatch("r"@, path, "a number in [0, 1]"@))
    } else if !in_unit_range(g) {
        Err(mismatch("g"@, path, "a number in [0, 1]"@))
    } else if !in_unit_range(b) {
        Err(mismatch("b"@, path, "a number in [0, 1]"@))
    } else if !in_unit_range(a) {
        Err(mismatch("a"@, path, "a number in [0, 1]"@))
    } else {
        Ok(Color::RGBA(r, g, b, a))
    }
}

/// The number zero, which stands for a channel that is not given.
pub open spec fn zero() -> Number {
    Number { negative: false, digits: 0, exponent: 0 }
}

/// Whether the channel lies between 0 and 1.
pub fn channel_in_range(channel: &Number) -> (r: bool)
    ensures
        r == in_unit_range(*channel),
{
    let low = Number::zero();
    let high = Number::one();
    let below = match channel.sign_of_difference(&low) {
        Sign::Negative => true,
        _ => false,
    };
    let above = match channel.sign_of_difference(&high) {
        Sign::Positive => true,
        _ => false,
    };
    !below && !above
}

impl Color {
    /// The color of the four channels, if each lies between 0 and 1.
    pub fn checked(path: &Path, r: Number, g: Number, b: Number, a: Number) -> (c: Result<
        Color,
        ParseError,
    >)
        ensures
            outcome(c) == checked_color(path@, r, g, b, a),
    {
        if !channel_in_range(&r) {
            Err(ParseError::type_error("r", path, "a number in [0, 1]"))
        } else if !channel_in_range(&g) {
            Err(ParseError::type_error("g", path, "a number in [0, 1]"))
        } else if !channel_in_range(&b) {
            Err(ParseError::type_error("b", path, "a number in [0, 1]"))
        } else if !channel_in_range(&a) {
            Err(ParseError::type_error("a", path, "a number in [0, 1]"))
        } else {
            Ok(Color::RGBA(r, g, b, a))
        }
    }
}

pub(crate) proof fn lemma_channel_names()
    ensures
        "r"@ != "g"@,
        "r"@ != "b"@,
        "r"@ != "a"@,
        "g"@ != "b"@,
        "g"@ != "a"@,
        "b"@ != "a"@,
{
    reveal_strlit("r");
    reveal_strlit("g");
    reveal_strlit("b");
    reveal_strlit("a");
    assert("r"@[0] == 'r' && "g"@[0] == 'g' && "b"@[0] == 'b' && "a"@[0] == 'a');
}

/// A color is an object with the members `r`, `g`, `b` and, where it
/// is given, `a`. All of them are read before any is held to its range.
impl Parser for Color {
    open spec fn described() -> Seq<char> {
        "Color"@
    }

    open spec fn decoded(path: Seq<SegmentView>, source: JsonView) -> Result<Color, ParseErrorView> {
        match taken::<Number>(into_field(path, "r"@), source, "r"@) {
            Err(error) => Err(error),
            Ok(r) => match taken::<Number>(into_field(path, "g"@), source, "g"@) {
                Err(error) => Err(error),
                Ok(g) => match taken::<Number>(into_field(path, "b"@), source, "b"@) {
                    Err(error) => Err(error),
                    Ok(b) => match taken_opt::<Number>(into_field(path, "a"@), source, "a"@) {
                        Some(Err(error)) => Err(error),
                        Some(Ok(a)) => checked_color(path, r, g, b, a),
                        None => checked_color(path, r, g, b, zero()),
                    },
                },
            },
        }
    }

    fn description() -> (text: String) {
        "Color".to_owned()
    }

    fn parse(path: &Path, source: JSON) -> (r: Result<Self, ParseError>) {
        let ghost whole = source@;
        let mut source = source;
        proof {
            lemma_channel_names();
            let after_r = whole.without("r"@);
            let after_g = after_r.without("g"@);
            let after_b = after_g.without("b"@);
            lemma_taken_after::<Number>(into_field(path@, "g"@), whole, "r"@, "g"@);
            lemma_taken_after::<Number>(into_field(path@, "b"@), whole, "r"@, "b"@);
            lemma_taken_after::<Number>(into_field(path@, "b"@), after_r, "g"@, "b"@);
            lemma_taken_after::<Number>(into_field(path@, "a"@), whole, "r"@, "a"@);
            lemma_taken_after::<Number>(into_field(path@, "a"@), after_r, "g"@, "a"@);
            lemma_taken_after::<Number>(into_field(path@, "a"@), after_g, "b"@, "a"@);
        }
        let r = match take::<Number>(&path.push("r"), &mut source, "r") {
            Ok(value) => value,
            Err(error) => {
                return Err(error);
            },
        };
        let g = match take::<Number>(&path.push("g"), &mut source, "g") {
            Ok(value) => value,
            Err(error) => {
                return Err(error);
            },
        };
        let b = match take::<Number>(&path.push("b"), &mut source, "b") {
            Ok(value) => value,
            Err(error) => {
                return Err(error);
            },
        };
        let a = match take_opt::<Number>(&path.push("a"), &mut source, "a") {
            None => Number::zero(),
            Some(Ok(value)) => value,
            Some(Err(error)) => {
                return Err(error);
            },
        };
        Color::checked(path, r, g, b, a)
    }
}

pub(crate) proof fn lemma_rule_names()
    ensures
        "name"@ != "source"@,
{
    reveal_strlit("name");
    reveal_strlit("source");
    assert("name"@.len() == 4 && "source"@.len() == 6);
}

impl Parser for ThinkerbellRule {
    open spec fn described() -> Seq<char> {
        "ThinkerbellRuleSource"@
    }

    open spec fn decoded(path: Seq<SegmentView>, source: JsonView) -> Result<
        RuleView,
        ParseErrorView,
    > {
        match taken::<String>(into_field(path, "name"@), source, "name"@) {
            Err(error) => Err(error),
            Ok(name) => match taken::<String>(into_field(path, "source"@), source, "source"@) {
                Err(error) => Err(error),
                Ok(script) => Ok(RuleView { name, source: script }),
            },
        }
    }

    fn description() -> (text: String) {
        "ThinkerbellRuleSource".to_owned()
    }

    fn parse(path: &Path, source: JSON) -> (r: Result<Self, ParseError>) {
        let ghost whole = source@;
        let mut source = source;
        proof {
            lemma_rule_names();
            lemma_taken_after::<String>(into_field(path@, "source"@), whole, "name"@, "source"@);
        }
        let name = match take::<String>(&path.push("name"), &mut source, "name") {
            Ok(value) => value,
            Err(error) => {
                return Err(error);
            },
        };
        let script = match take::<String>(&path.push("source"), &mut source, "source") {
            Ok(value) => value,
            Err(error) => {
                return Err(error);
            },
        };
        Ok(ThinkerbellRule { name, source: script })
    }
}

/// Any node is a free-form value.
impl Parser for Json {
    open spec fn described() -> Seq<char> {
        "Json value"@
    }

    open spec fn decoded(path: Seq<SegmentView>, source: JsonView) -> Result<
        JsonView,
        ParseErrorView,
    > {
        Ok(source)
    }

    fn description() -> (text: String) {
        "Json value".to_owned()
    }

    fn parse(path: &Path, source: JSON) -> (r: Result<Self, ParseError>) {
        Ok(Json(source))
    }
}

pub(crate) proof fn lemma_extension_names()
    ensures
        "vendor"@ != "adapter"@,
        "vendor"@ != "kind"@,
        "vendor"@ != "value"@,
        "adapter"@ != "kind"@,
        "adapter"@ != "value"@,
        "kind"@ != "value"@,
{
    reveal_strlit("vendor");
    reveal_strlit("adapter");
    reveal_strlit("kind");
    reveal_strlit("value");
    assert("vendor"@.len() == 6 && "adapter"@.len() == 7 && "kind"@.len() == 4 && "value"@.len()
        == 5);
}

/// An extension value is an object with the members `vendor`,
/// `adapter`, `kind` and `value`, which are read in this order.
impl<T: Parser> Parser for ExtValue<T> {
    open spec fn described() -> Seq<char> {
        "ExtValue<"@ + T::described() + ">"@
    }

    open spec fn decoded(path: Seq<SegmentView>, source: JsonView) -> Result<
        ExtView<<T as DeepView>::V>,
        ParseErrorView,
    > {
        match taken::<Id<VendorId>>(into_field(path, "vendor"@), source, "vendor"@) {
            Err(error) => Err(error),
            Ok(vendor) => match taken::<Id<AdapterId>>(
                into_field(path, "adapter"@),
                source,
                "adapter"@,
            ) {
                Err(error) => Err(error),
                Ok(adapter) => match taken::<Id<KindId>>(
                    into_field(path, "kind"@),
                    source,
                    "kind"@,
                ) {
                    Err(error) => Err(error),
                    Ok(kind) => match taken::<T>(into_field(path, "value"@), source, "value"@) {
                        Err(error) => Err(error),
                        Ok(value) => Ok(ExtView { value, vendor, adapter, kind }),
                    },
                },
            },
        }
    }

    fn description() -> (text: String) {
        let mut text = "ExtValue<".to_owned();
        let inner = T::description();
        text.append(inner.as_str());
        text.append(">");
        text
    }

    fn parse(path: &Path, source: JSON) -> (r: Result<Self, ParseError>) {
        let ghost whole = source@;
        let mut source = source;
        proof {
            lemma_extension_names();
            let after_vendor = whole.without("vendor"@);
            let after_adapter = after_vendor.without("adapter"@);
            lemma_taken_after::<Id<AdapterId>>(
                into_field(path@, "adapter"@),
                whole,
                "vendor"@,
                "adapter"@,
            );
            lemma_taken_after::<Id<KindId>>(into_field(path@, "kind"@), whole, "vendor"@, "kind"@);
            lemma_taken_after::<Id<KindId>>(
                into_field(path@, "kind"@),
                after_vendor,
                "adapter"@,
                "kind"@,
            );
            lemma_taken_after::<T>(into_field(path@, "value"@), whole, "vendor"@, "value"@);
            lemma_taken_after::<T>(into_field(path@, "value"@), after_vendor, "adapter"@, "value"@);
            lemma_taken_after::<T>(into_field(path@, "value"@), after_adapter, "kind"@, "value"@);
        }
        let vendor = match take::<Id<VendorId>>(&path.push("vendor"), &mut source, "vendor") {
            Ok(value) => value,
            Err(error) => {
                return Err(error);
            },
        };
        let adapter = match take::<Id<AdapterId>>(&path.push("adapter"), &mut source, "adapter") {
            Ok(value) => value,
            Err(error) => {
                return Err(error);
            },
        };
        let kind = match take::<Id<KindId>>(&path.push("kind"), &mut source, "kind") {
            Ok(value) => value,
            Err(error) => {
                return Err(error);
            },
        };
        let value = match take::<T>(&path.push("value"), &mut source, "value") {
            Ok(value) => value,
            Err(error) => {
                return Err(error);
            },
        };
        Ok(ExtValue { value, vendor, adapter, kind })
    }
}

proof fn lemma_binary_names()
    ensures
        "data"@ != "mimetype"@,
{
    reveal_strlit("data");
    reveal_strlit("mimetype");
    assert("data"@.len() == 4 && "mimetype"@.len() == 8);
}

/// Binary data is read from an object that holds the bytes themselves,
/// as the array `data`, and their MIME type.
impl Parser for Binary {
    open spec fn described() -> Seq<char> {
        "Binary"@
    }

    open spec fn decoded(path: Seq<SegmentView>, source: JsonView) -> Result<
        BinaryView,
        ParseErrorView,
    > {
        match taken::<Vec<u8>>(into_field(path, "data"@), source, "data"@) {
            Err(error) => Err(error),
            Ok(data) => match taken::<Id<MimeTypeId>>(
                into_field(path, "mimetype"@),
                source,
                "mimetype"@,
            ) {
                Err(error) => Err(error),
                Ok(mimetype) => Ok(BinaryView { data, mimetype }),
            },
        }
    }

    fn description() -> (text: String) {
        "Binary".to_owned()
    }

    fn parse(path: &Path, source: JSON) -> (r: Result<Self, ParseError>) {
        let ghost whole = source@;
        let mut source = source;
        proof {
            lemma_binary_names();
            lemma_taken_after::<Id<MimeTypeId>>(
                into_field(path@, "mimetype"@),
                whole,
                "data"@,
                "mimetype"@,
            );
        }
        let data = match take::<Vec<u8>>(&path.push("data"), &mut source, "data") {
            Ok(value) => value,
            Err(error) => {
                return Err(error);
            },
        };
        let mimetype = match take::<Id<MimeTypeId>>(
            &path.push("mimetype"),
            &mut source,
            "mimetype",
        ) {
            Ok(value) => value,
            Err(error) => {
                return Err(error);
            },
        };
        assert(data.deep_view() =~= data@);
        Ok(Binary { data: Arc::new(data), mimetype })
    }
}

/// The words that may stand as the one name in the object that a value
/// is written as.
pub const DISCRIMINATORS: &'static str = "[\"Unit\", \"OnOff\", \"OpenClosed\", \"Duration\", \"TimeStamp\", \"Temperature\", \"ThinkerbellRule\", \"Color\", \"String\", \"Json\", \"ExtBool\", \"ExtNumeric\", \"Binary\"]";

/// What is expected where a value is of no shape that a value has: an
/// object with one member, named as one of the variants is.
pub open spec fn single_member() -> Seq<char> {
    "object with a single field, one of "@ + DISCRIMINATORS@
}

/// A decoded payload, as the value of the variant that `wrap` makes.
pub open spec fn wrapped<T, W>(payload: Result<T, ParseErrorView>, wrap: spec_fn(T) -> W) -> Result<
    W,
    ParseErrorView,
> {
    match payload {
        Ok(inner) => Ok(wrap(inner)),
        Err(error) => Err(error),
    }
}

/// What decoding the one member of a value's object gives. The name of
/// the member chooses the variant, and the payload is decoded two steps
/// further along the path: into the member, and into the variant.
pub open spec fn decoded_variant(path: Seq<SegmentView>, key: Seq<char>, payload: JsonView) -> Result<
    ValueView,
    ParseErrorView,
> {
    let inner = into_field(into_field(path, key), key);
    match kind_named(key) {
        None => Err(mismatch("Value"@, path, DISCRIMINATORS@)),
        Some(Type::Unit) => Ok(ValueView::Unit),
        Some(Type::OnOff) => wrapped(
            OnOff::decoded(inner, payload),
            |v: OnOff| ValueView::OnOff(v),
        ),
        Some(Type::OpenClosed) => wrapped(
            OpenClosed::decoded(inner, payload),
            |v: OpenClosed| ValueView::OpenClosed(v),
        ),
        Some(Type::Duration) => wrapped(
            Duration::decoded(inner, payload),
            |v: Duration| ValueView::Duration(v),
        ),
        Some(Type::TimeStamp) => wrapped(
            TimeStamp::decoded(inner, payload),
            |v: TimeStamp| ValueView::TimeStamp(v),
        ),
        Some(Type::Temperature) => wrapped(
            Temperature::decoded(inner, payload),
            |v: Temperature| ValueView::Temperature(v),
        ),
        Some(Type::ThinkerbellRule) => wrapped(
            ThinkerbellRule::decoded(inner, payload),
            |v: RuleView| ValueView::ThinkerbellRule(v),
        ),
        Some(Type::Color) => wrapped(
            Color::decoded(inner, payload),
            |v: Color| ValueView::Color(v),
        ),
        Some(Type::String) => wrapped(
            String::decoded(inner, payload),
            |v: Seq<char>| ValueView::String(v),
        ),
        Some(Type::Json) => wrapped(
            Json::decoded(inner, payload),
            |v: JsonView| ValueView::Json(v),
        ),
        Some(Type::ExtBool) => wrapped(
            ExtValue::<bool>::decoded(inner, payload),
            |v: ExtView<bool>| ValueView::ExtBool(v),
        ),
        Some(Type::ExtNumeric) => wrapped(
            ExtValue::<Number>::decoded(inner, payload),
            |v: ExtView<Number>| ValueView::ExtNumeric(v),
        ),
        Some(Type::Binary) => wrapped(
            Binary::decoded(inner, payload),
            |v: BinaryView| ValueView::Binary(v),
        ),
    }
}

impl Value {
    /// Decodes the one member of a value's object: `key` chooses the
    /// variant, and `payload` is what the variant holds.
    pub fn from_member(path: &Path, key: &str, payload: JSON) -> (r: Result<Value, ParseError>)
        ensures
            outcome(r) == decoded_variant(path@, key@, payload@),
    {
        let inner = path.push(key).push(key);
        match kind_of_name(key) {
            None => Err(ParseError::type_error("Value", path, DISCRIMINATORS)),
            Some(Type::Unit) => Ok(Value::Unit),
            Some(Type::OnOff) => match OnOff::parse(&inner, payload) {
                Ok(v) => Ok(Value::OnOff(v)),
                Err(error) => Err(error),
            },
            Some(Type::OpenClosed) => match OpenClosed::parse(&inner, payload) {
                Ok(v) => Ok(Value::OpenClosed(v)),
                Err(error) => Err(error),
            },
            Some(Type::Duration) => match Duration::parse(&inner, payload) {
                Ok(v) => Ok(Value::Duration(v)),
                Err(error) => Err(error),
            },
            Some(Type::TimeStamp) => match TimeStamp::parse(&inner, payload) {
                Ok(v) => Ok(Value::TimeStamp(v)),
                Err(error) => Err(error),
            },
            Some(Type::Temperature) => match Temperature::parse(&inner, payload) {
                Ok(v) => Ok(Value::Temperature(v)),
                Err(error) => Err(error),
            },
            Some(Type::ThinkerbellRule) => match ThinkerbellRule::parse(&inner, payload) {
                Ok(v) => Ok(Value::ThinkerbellRule(v)),
                Err(error) => Err(error),
            },
            Some(Type::Color) => match Color::parse(&inner, payload) {
                Ok(v) => Ok(Value::Color(v)),
                Err(error) => Err(error),
            },
            Some(Type::String) => match String::parse(&inner, payload) {
                Ok(v) => Ok(Value::String(Arc::new(v))),
                Err(error) => Err(error),
            },
            Some(Type::Json) => match Json::parse(&inner, payload) {
                Ok(v) => Ok(Value::Json(Arc::new(v))),
                Err(error) => Err(error),
            },
            Some(Type::ExtBool) => match ExtValue::<bool>::parse(&inner, payload) {
                Ok(v) => Ok(Value::ExtBool(v)),
                Err(error) => Err(error),
            },
            Some(Type::ExtNumeric) => match ExtValue::<Number>::parse(&inner, payload) {
                Ok(v) => Ok(Value::ExtNumeric(v)),
                Err(error) => Err(error),
            },
            Some(Type::Binary) => match Binary::parse(&inner, payload) {
                Ok(v) => Ok(Value::Binary(v)),
                Err(error) => Err(error),
            },
        }
    }
}

/// A value is written as `null`, as the word `Unit`, or as an object
/// with one member, whose name says which variant it is.
impl Parser for Value {
    open spec fn described() -> Seq<char> {
        "Value"@
    }

    open spec fn decoded(path: Seq<SegmentView>, source: JsonView) -> Result<
        ValueView,
        ParseErrorView,
    > {
        match source {
            JsonView::Null => Ok(ValueView::Unit),
            JsonView::String(text) => if text == "Unit"@ {
                Ok(ValueView::Unit)
            } else {
                Err(mismatch("Value"@, path, single_member()))
            },
            _ => match source.only_member() {
                Some(member) => decoded_variant(path, member.0, member.1),
                None => Err(mismatch("Value"@, path, single_member())),
            },
        }
    }

    fn description() -> (text: String) {
        "Value".to_owned()
    }

    fn parse(path: &Path, source: JSON) -> (r: Result<Self, ParseError>) {
        if source.is_null() {
            return Ok(Value::Unit);
        }
        let unit = match source.as_string() {
            Some(text) => same_text(text, "Unit"),
            None => false,
        };
        if unit {
            return Ok(Value::Unit);
        }
        match source.into_single() {
            Ok(member) => Value::from_member(path, member.0.as_str(), member.1),
            Err(_) => {
                let mut expected = "object with a single field, one of ".to_owned();
                expected.append(DISCRIMINATORS);
                Err(ParseError::type_error("Value", path, expected.as_str()))
            },
        }
    }
}

/// The range that two bounds make, where there are exactly two.
pub open spec fn bounded(
    path: Seq<SegmentView>,
    name: Seq<char>,
    bounds: Result<Seq<ValueView>, ParseErrorView>,
    wrap: spec_fn(ValueView, ValueView) -> RangeView,
) -> Result<RangeView, ParseErrorView> {
    match bounds {
        Err(error) => Err(error),
        Ok(values) => if values.len() == 2 {
            Ok(wrap(values[0], values[1]))
        } else {
            Err(mismatch(name, path, "an array of two values"@))
        },
    }
}

/// What decoding the one member of a range's object gives.
pub open spec fn decoded_bound(path: Seq<SegmentView>, key: Seq<char>, payload: JsonView) -> Result<
    RangeView,
    ParseErrorView,
> {
    if key == "Leq"@ {
        wrapped(Value::decoded(into_field(path, "Leq"@), payload), |v: ValueView| RangeView::Leq(v))
    } else if key == "Geq"@ {
        wrapped(Value::decoded(into_field(path, "Geq"@), payload), |v: ValueView| RangeView::Geq(v))
    } else if key == "Eq"@ {
        wrapped(Value::decoded(into_field(path, "Eq"@), payload), |v: ValueView| RangeView::Eq(v))
    } else if key == "BetweenEq"@ {
        bounded(
            path,
            "BetweenEq"@,
            Vec::<Value>::decoded(into_field(path, "BetweenEq"@), payload),
            |min: ValueView, max: ValueView| RangeView::BetweenEq { min, max },
        )
    } else if key == "OutOfStrict"@ {
        bounded(
            path,
            "OutOfStrict"@,
            Vec::<Value>::decoded(into_field(path, "OutOfStrict"@), payload),
            |min: ValueView, max: ValueView| RangeView::OutOfStrict { min, max },
        )
    } else {
        Err(mismatch("Range"@, path, "a field Eq, Leq, Geq, BetweenEq or OutOfStrict"@))
    }
}

/// The two bounds of `values`, lower first, where there are exactly two.
fn two_bounds(values: Vec<Value>) -> (r: Option<(Value, Value)>)
    ensures
        match r {
            Some(pair) => values.deep_view().len() == 2 && pair.0@ == values.deep_view()[0]
                && pair.1@ == values.deep_view()[1],
            None => values.deep_view().len() != 2,
        },
{
    let mut values = values;
    if values.len() == 2 {
        let max = values.pop().unwrap();
        let min = values.pop().unwrap();
        Some((min, max))
    } else {
        None
    }
}

impl Range {
    /// Decodes the one member of a range's object: `key` says which
    /// comparison it is, and `payload` holds its bound or bounds.
    pub fn from_member(path: &Path, key: &str, payload: JSON) -> (r: Result<Range, ParseError>)
        ensures
            outcome(r) == decoded_bound(path@, key@, payload@),
    {
        if same_text(key, "Leq") {
            match Value::parse(&path.push("Leq"), payload) {
                Ok(v) => Ok(Range::Leq(v)),
                Err(error) => Err(error),
            }
        } else if same_text(key, "Geq") {
            match Value::parse(&path.push("Geq"), payload) {
                Ok(v) => Ok(Range::Geq(v)),
                Err(error) => Err(error),
            }
        } else if same_text(key, "Eq") {
            match Value::parse(&path.push("Eq"), payload) {
                Ok(v) => Ok(Range::Eq(v)),
                Err(error) => Err(error),
            }
        } else if same_text(key, "BetweenEq") {
            match Vec::<Value>::parse(&path.push("BetweenEq"), payload) {
                Err(error) => Err(error),
                Ok(values) => match two_bounds(values) {
                    Some((min, max)) => Ok(Range::BetweenEq { min, max }),
                    None => Err(
                        ParseError::type_error("BetweenEq", path, "an array of two values"),
                    ),
                },
            }
        } else if same_text(key, "OutOfStrict") {
            match Vec::<Value>::parse(&path.push("OutOfStrict"), payload) {
                Err(error) => Err(error),
                Ok(values) => match two_bounds(values) {
                    Some((min, max)) => Ok(Range::OutOfStrict { min, max }),
                    None => Err(
                        ParseError::type_error("OutOfStrict", path, "an array of two values"),
                    ),
                },
            }
        } else {
            Err(
                ParseError::type_error(
                    "Range",
                    path,
                    "a field Eq, Leq, Geq, BetweenEq or OutOfStrict",
                ),
            )
        }
    }
}

/// A range is an object with one member: `Leq`, `Geq` or `Eq` with a
/// value, or `BetweenEq` or `OutOfStrict` with an array of the lower
/// and the upper bound.
impl Parser for Range {
    open spec fn described() -> Seq<char> {
        "Range"@
    }

    open spec fn decoded(path: Seq<SegmentView>, source: JsonView) -> Result<
        RangeView,
        ParseErrorView,
    > {
        match source.only_member() {
            Some(member) => decoded_bound(path, member.0, member.1),
            None => Err(mismatch("Range"@, path, "object"@)),
        }
    }

    fn description() -> (text: String) {
        "Range".to_owned()
    }

    fn parse(path: &Path, source: JSON) -> (r: Result<Self, ParseError>) {
        match source.into_single() {
            Ok(member) => Range::from_member(path, member.0.as_str(), member.1),
            Err(_) => Err(ParseError::type_error("Range", path, "object")),
        }
    }
}

} // verus!
