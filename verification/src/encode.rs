//! How the values are written as JSON nodes.
use crate::json::{item_views, member_views, JsonView, JSON};
use crate::number::Number;
use crate::serialize::{part_reference, BinaryParts, PartView, ToJSON};
use crate::values::{
    Binary, Color, ExtValue, Json, OnOff, OpenClosed, Range, Temperature, ThinkerbellRule, Type,
    Value,
};
use vstd::prelude::*;

verus! {

impl ToJSON for Type {
    open spec fn encoded(&self, before: nat) -> JsonView {
        JsonView::String(self.named())
    }

    open spec fn pushed(&self) -> Seq<PartView> {
        Seq::empty()
    }

    fn to_json<P: BinaryParts>(&self, parts: &mut P) -> (json: JSON) {
        assert(parts.parts() + Seq::<PartView>::empty() =~= parts.parts());
        JSON::String(self.name().to_owned())
    }
}

impl ToJSON for OnOff {
    open spec fn encoded(&self, before: nat) -> JsonView {
        match self {
            OnOff::On => JsonView::String("On"@),
            OnOff::Off => JsonView::String("Off"@),
        }
    }

    open spec fn pushed(&self) -> Seq<PartView> {
        Seq::empty()
    }

    fn to_json<P: BinaryParts>(&self, parts: &mut P) -> (json: JSON) {
        assert(parts.parts() + Seq::<PartView>::empty() =~= parts.parts());
        match *self {
            OnOff::On => JSON::String("On".to_owned()),
            OnOff::Off => JSON::String("Off".to_owned()),
        }
    }
}

impl ToJSON for OpenClosed {
    open spec fn encoded(&self, before: nat) -> JsonView {
        match self {
            OpenClosed::Open => JsonView::String("Open"@),
            OpenClosed::Closed => JsonView::String("Closed"@),
        }
    }

    open spec fn pushed(&self) -> Seq<PartView> {
        Seq::empty()
    }

    fn to_json<P: BinaryParts>(&self, parts: &mut P) -> (json: JSON) {
        assert(parts.parts() + Seq::<PartView>::empty() =~= parts.parts());
        match *self {
            OpenClosed::Open => JSON::String("Open".to_owned()),
            OpenClosed::Closed => JSON::String("Closed".to_owned()),
        }
    }
}

impl ToJSON for Temperature {
    open spec fn encoded(&self, before: nat) -> JsonView {
        match self {
            Temperature::C(degrees) => JsonView::single("C"@, JsonView::Number(*degrees)),
            Temperature::F(degrees) => JsonView::single("F"@, JsonView::Number(*degrees)),
        }
    }

    open spec fn pushed(&self) -> Seq<PartView> {
        Seq::empty()
    }

    fn to_json<P: BinaryParts>(&self, parts: &mut P) -> (json: JSON) {
        assert(parts.parts() + Seq::<PartView>::empty() =~= parts.parts());
        match *self {
            Temperature::C(degrees) => JSON::single("C", JSON::Number(degrees)),
            Temperature::F(degrees) => JSON::single("F", JSON::Number(degrees)),
        }
    }
}

impl ToJSON for Color {
    open spec fn encoded(&self, before: nat) -> JsonView {
        let Color::RGBA(r, g, b, a) = *self;
        JsonView::Object(
            seq![
                ("r"@, JsonView::Number(r)),
                ("g"@, JsonView::Number(g)),
                ("b"@, JsonView::Number(b)),
                ("a"@, JsonView::Number(a)),
            ],
        )
    }

    open spec fn pushed(&self) -> Seq<PartView> {
        Seq::empty()
    }

    fn to_json<P: BinaryParts>(&self, parts: &mut P) -> (json: JSON) {
        assert(parts.parts() + Seq::<PartView>::empty() =~= parts.parts());
        let Color::RGBA(r, g, b, a) = *self;
        let mut members: Vec<(String, JSON)> = Vec::new();
        members.push(("r".to_owned(), JSON::Number(r)));
        members.push(("g".to_owned(), JSON::Number(g)));
        members.push(("b".to_owned(), JSON::Number(b)));
        members.push(("a".to_owned(), JSON::Number(a)));
        assert(member_views(members@) =~= seq![
            ("r"@, JsonView::Number(r)),
            ("g"@, JsonView::Number(g)),
            ("b"@, JsonView::Number(b)),
            ("a"@, JsonView::Number(a)),
        ]);
        JSON::object(members)
    }
}

impl ToJSON for ThinkerbellRule {
    open spec fn encoded(&self, before: nat) -> JsonView {
        JsonView::Object(
            seq![
                ("name"@, JsonView::String(self.name@)),
                ("source"@, JsonView::String(self.source@)),
            ],
        )
    }

    open spec fn pushed(&self) -> Seq<PartView> {
        Seq::empty()
    }

    fn to_json<P: BinaryParts>(&self, parts: &mut P) -> (json: JSON) {
        assert(parts.parts() + Seq::<PartView>::empty() =~= parts.parts());
        let mut members: Vec<(String, JSON)> = Vec::new();
        members.push(("name".to_owned(), JSON::String(self.name.clone())));
        members.push(("source".to_owned(), JSON::String(self.source.clone())));
        assert(member_views(members@) =~= seq![
            ("name"@, JsonView::String(self.name@)),
            ("source"@, JsonView::String(self.source@)),
        ]);
        JSON::object(members)
    }
}

impl ToJSON for Json {
    open spec fn encoded(&self, before: nat) -> JsonView {
        self@
    }

    open spec fn pushed(&self) -> Seq<PartView> {
        Seq::empty()
    }

    fn to_json<P: BinaryParts>(&self, parts: &mut P) -> (json: JSON) {
        assert(parts.parts() + Seq::<PartView>::empty() =~= parts.parts());
        self.0.clone()
    }
}

impl<T: ToJSON> ToJSON for ExtValue<T> {
    open spec fn encoded(&self, before: nat) -> JsonView {
        JsonView::Object(
            seq![
                ("value"@, self.value.encoded(before)),
                ("vendor"@, JsonView::String(self.vendor@)),
                ("adapter"@, JsonView::String(self.adapter@)),
                ("kind"@, JsonView::String(self.kind@)),
            ],
        )
    }

    open spec fn pushed(&self) -> Seq<PartView> {
        self.value.pushed()
    }

    fn to_json<P: BinaryParts>(&self, parts: &mut P) -> (json: JSON) {
        let ghost before = parts.parts().len();
        let value = self.value.to_json(parts);
        let mut members: Vec<(String, JSON)> = Vec::new();
        members.push(("value".to_owned(), value));
        members.push(("vendor".to_owned(), JSON::String(self.vendor.to_string())));
        members.push(("adapter".to_owned(), JSON::String(self.adapter.to_string())));
        members.push(("kind".to_owned(), JSON::String(self.kind.to_string())));
        assert(member_views(members@) =~= seq![
            ("value"@, self.value.encoded(before)),
            ("vendor"@, JsonView::String(self.vendor@)),
            ("adapter"@, JsonView::String(self.adapter@)),
            ("kind"@, JsonView::String(self.kind@)),
        ]);
        JSON::object(members)
    }
}

/// The bytes go to the store, and the node that is left in the tree
/// gives their number there.
impl ToJSON for Binary {
    open spec fn encoded(&self, before: nat) -> JsonView {
        part_reference(before + 1)
    }

    open spec fn pushed(&self) -> Seq<PartView> {
        seq![(self.mimetype@, self.data@)]
    }

    fn to_json<P: BinaryParts>(&self, parts: &mut P) -> (json: JSON) {
        let ghost start = parts.parts();
        let json = parts.push(self.mimetype.clone(), self.data.as_slice());
        assert(parts.parts() =~= start + seq![(self.mimetype@, self.data@)]);
        json
    }
}

/// A value is written as the object whose one member is named after
/// the variant. The empty value is written with `null` for its payload.
impl ToJSON for Value {
    open spec fn encoded(&self, before: nat) -> JsonView {
        match self {
            Value::Unit => JsonView::single("Unit"@, JsonView::Null),
            Value::OnOff(v) => JsonView::single("OnOff"@, v.encoded(before)),
            Value::OpenClosed(v) => JsonView::single("OpenClosed"@, v.encoded(before)),
            Value::Duration(v) => JsonView::single("Duration"@, v.encoded(before)),
            Value::TimeStamp(v) => JsonView::single("TimeStamp"@, v.encoded(before)),
            Value::Color(v) => JsonView::single("Color"@, v.encoded(before)),
            Value::String(v) => JsonView::single("String"@, JsonView::String(v@)),
            Value::Json(v) => JsonView::single("Json"@, v@),
            Value::Binary(v) => JsonView::single("Binary"@, v.encoded(before)),
            Value::Temperature(v) => JsonView::single("Temperature"@, v.encoded(before)),
            Value::ThinkerbellRule(v) => JsonView::single("ThinkerbellRule"@, v.encoded(before)),
            Value::ExtBool(v) => JsonView::single("ExtBool"@, v.encoded(before)),
            Value::ExtNumeric(v) => JsonView::single("ExtNumeric"@, v.encoded(before)),
        }
    }

    open spec fn pushed(&self) -> Seq<PartView> {
        match self {
            Value::Binary(v) => v.pushed(),
            _ => Seq::empty(),
        }
    }

    fn to_json<P: BinaryParts>(&self, parts: &mut P) -> (json: JSON) {
        let ghost start = parts.parts();
        assert(start + Seq::<PartView>::empty() =~= start);
        match self {
            Value::Unit => JSON::single("Unit", JSON::Null),
            Value::OnOff(v) => JSON::single("OnOff", v.to_json(parts)),
            Value::OpenClosed(v) => JSON::single("OpenClosed", v.to_json(parts)),
            Value::Duration(v) => JSON::single("Duration", v.to_json(parts)),
            Value::TimeStamp(v) => JSON::single("TimeStamp", v.to_json(parts)),
            Value::Color(v) => JSON::single("Color", v.to_json(parts)),
            Value::String(v) => JSON::single("String", JSON::String(v.as_str().to_owned())),
            Value::Json(v) => JSON::single("Json", v.0.clone()),
            Value::Binary(v) => JSON::single("Binary", v.to_json(parts)),
            Value::Temperature(v) => JSON::single("Temperature", v.to_json(parts)),
            Value::ThinkerbellRule(v) => JSON::single("ThinkerbellRule", v.to_json(parts)),
            Value::ExtBool(v) => JSON::single("ExtBool", v.to_json(parts)),
            Value::ExtNumeric(v) => JSON::single("ExtNumeric", v.to_json(parts)),
        }
    }
}

/// The array of the two bounds of a range, the lower first. The upper
/// bound finds in the store what the lower has put there.
pub open spec fn encoded_bounds(min: Value, max: Value, before: nat) -> JsonView {
    JsonView::Array(seq![min.encoded(before), max.encoded(before + min.pushed().len())])
}

fn bounds_to_json<P: BinaryParts>(min: &Value, max: &Value, parts: &mut P) -> (json: JSON)
    ensures
        json@ == encoded_bounds(*min, *max, old(parts).parts().len()),
        final(parts).parts() == old(parts).parts() + (min.pushed() + max.pushed()),
{
    let ghost start = parts.parts();
    let lower = min.to_json(parts);
    let upper = max.to_json(parts);
    assert(parts.parts() =~= start + (min.pushed() + max.pushed()));
    let mut items: Vec<JSON> = Vec::new();
    items.push(lower);
    items.push(upper);
    assert(item_views(items@) =~= seq![
        min.encoded(start.len()),
        max.encoded(start.len() + min.pushed().len()),
    ]);
    JSON::array(items)
}

impl ToJSON for Range {
    open spec fn encoded(&self, before: nat) -> JsonView {
        match self {
            Range::Eq(v) => JsonView::single("Eq"@, v.encoded(before)),
            Range::Geq(v) => JsonView::single("Geq"@, v.encoded(before)),
            Range::Leq(v) => JsonView::single("Leq"@, v.encoded(before)),
            Range::BetweenEq { min, max } => JsonView::single(
                "BetweenEq"@,
                encoded_bounds(*min, *max, before),
            ),
            Range::OutOfStrict { min, max } => JsonView::single(
                "OutOfStrict"@,
                encoded_bounds(*min, *max, before),
            ),
        }
    }

    open spec fn pushed(&self) -> Seq<PartView> {
        match self {
            Range::Eq(v) | Range::Geq(v) | Range::Leq(v) => v.pushed(),
            Range::BetweenEq { min, max } | Range::OutOfStrict { min, max } => min.pushed()
                + max.pushed(),
        }
    }

    fn to_json<P: BinaryParts>(&self, parts: &mut P) -> (json: JSON) {
        match self {
            Range::Eq(v) => JSON::single("Eq", v.to_json(parts)),
            Range::Geq(v) => JSON::single("Geq", v.to_json(parts)),
            Range::Leq(v) => JSON::single("Leq", v.to_json(parts)),
            Range::BetweenEq { min, max } => JSON::single(
                "BetweenEq",
                bounds_to_json(min, max, parts),
            ),
            Range::OutOfStrict { min, max } => JSON::single(
                "OutOfStrict",
                bounds_to_json(min, max, parts),
            ),
        }
    }
}

} // verus!
