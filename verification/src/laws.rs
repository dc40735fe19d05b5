//! What holds of the values whatever they are.
use crate::decode::{
    into_field, lemma_channel_names, lemma_extension_names, lemma_kind_names, lemma_rule_names,
};
use crate::json::first_named;
use crate::number::{lemma_millis_come_back, Number, Sign};
use crate::order::{at_most, before};
use crate::parse::{decoded_items, ParseErrorView, Parser, SegmentView};
use crate::serialize::{part_reference, ToJSON};
use crate::text::{lemma_lexical_chain, lemma_lexical_flip};
use crate::time::{Duration, TimeStamp};
use crate::values::{
    Binary, Color, ExtValue, ExtView, OnOff, OpenClosed, Range, RangeView, RuleView, Temperature,
    ThinkerbellRule, Value, ValueView,
};
use vstd::prelude::*;
use vstd::utf8::encode_utf8;

verus! {

/// Two values of different kinds do not stand to each other.
pub proof fn lemma_kinds_apart(a: ValueView, b: ValueView)
    requires
        a.kind() != b.kind(),
    ensures
        a.sign(b) is None,
{
}

/// The empty value is level with itself.
pub proof fn lemma_unit_level()
    ensures
        ValueView::Unit.sign(ValueView::Unit) == Some(Sign::Zero),
{
}

/// As `a` stands to `b`, so `b` stands to `a` the other way round.
pub proof fn lemma_sign_flips(a: ValueView, b: ValueView)
    ensures
        match a.sign(b) {
            Some(sign) => b.sign(a) == Some(sign.flipped()),
            None => b.sign(a) is None,
        },
{
    match (a, b) {
        (ValueView::String(x), ValueView::String(y)) => {
            lemma_lexical_flip(encode_utf8(x), encode_utf8(y), 0);
        },
        (ValueView::ThinkerbellRule(x), ValueView::ThinkerbellRule(y)) => {
            lemma_lexical_flip(encode_utf8(x.name), encode_utf8(y.name), 0);
        },
        (ValueView::Binary(x), ValueView::Binary(y)) => {
            lemma_lexical_flip(x.data, y.data, 0);
        },
        _ => {},
    }
}

/// Where `a` does not come after `b`, nor `b` after `c`, `a` does not
/// come after `c`.
pub proof fn lemma_at_most_chains(a: ValueView, b: ValueView, c: ValueView)
    requires
        at_most(a, b),
        at_most(b, c),
    ensures
        at_most(a, c),
{
    match (a, b, c) {
        (ValueView::String(x), ValueView::String(y), ValueView::String(z)) => {
            lemma_lexical_chain(encode_utf8(x), encode_utf8(y), encode_utf8(z), 0);
        },
        (
            ValueView::ThinkerbellRule(x),
            ValueView::ThinkerbellRule(y),
            ValueView::ThinkerbellRule(z),
        ) => {
            lemma_lexical_chain(encode_utf8(x.name), encode_utf8(y.name), encode_utf8(z.name), 0);
        },
        (ValueView::Binary(x), ValueView::Binary(y), ValueView::Binary(z)) => {
            lemma_lexical_chain(x.data, y.data, z.data, 0);
        },
        _ => {},
    }
}

/// A range between two bounds of which the upper comes before the
/// lower accepts nothing.
pub proof fn lemma_between_vacuous(min: ValueView, max: ValueView, value: ValueView)
    requires
        before(max, min),
    ensures
        !(RangeView::BetweenEq { min, max }).accepts(value),
{
    if at_most(min, value) && at_most(value, max) {
        lemma_at_most_chains(min, value, max);
        lemma_sign_flips(max, min);
    }
}

proof fn lemma_member_names()
    ensures
        "On"@ != "Off"@,
        "Open"@ != "Closed"@,
        "C"@ != "F"@,
{
    reveal_strlit("On");
    reveal_strlit("Off");
    reveal_strlit("Open");
    reveal_strlit("Closed");
    reveal_strlit("C");
    reveal_strlit("F");
    assert("On"@.len() == 2 && "Off"@.len() == 3);
    assert("Open"@.len() == 4 && "Closed"@.len() == 6);
    assert("C"@[0] == 'C' && "F"@[0] == 'F');
}

/// What is read from the node that was written for a switch is the
/// switch.
pub proof fn lemma_on_off_round_trip(value: OnOff, path: Seq<SegmentView>, before: nat)
    ensures
        OnOff::decoded(path, value.encoded(before)) == Ok::<OnOff, ParseErrorView>(value),
{
    lemma_member_names();
}

pub proof fn lemma_open_closed_round_trip(value: OpenClosed, path: Seq<SegmentView>, before: nat)
    ensures
        OpenClosed::decoded(path, value.encoded(before)) == Ok::<OpenClosed, ParseErrorView>(
            value,
        ),
{
    lemma_member_names();
}

/// A duration is written as the very number of seconds that is read as
/// it again, however long it is.
pub proof fn lemma_duration_round_trip(value: Duration, path: Seq<SegmentView>, before: nat)
    ensures
        Duration::decoded(path, value.encoded(before)) == Ok::<Duration, ParseErrorView>(value),
{
    lemma_millis_come_back(value.milliseconds());
    value.lemma_whole();
}

/// A timestamp whose date string is read as the same instant is read
/// back from the node that was written for it.
pub proof fn lemma_timestamp_round_trip(value: TimeStamp, path: Seq<SegmentView>, before: nat)
    requires
        value.reads_back(),
    ensures
        TimeStamp::decoded(path, value.encoded(before)) == Ok::<TimeStamp, ParseErrorView>(value),
{
    value.lemma_whole();
}

pub proof fn lemma_temperature_round_trip(value: Temperature, path: Seq<SegmentView>, before: nat)
    ensures
        Temperature::decoded(path, value.encoded(before)) == Ok::<Temperature, ParseErrorView>(
            value,
        ),
{
    lemma_member_names();
    reveal_with_fuel(first_named, 3);
}

/// A color whose channels lie between 0 and 1 is read back from the
/// node that was written for it.
pub proof fn lemma_color_round_trip(value: Color, path: Seq<SegmentView>, before: nat)
    requires
        value.wf(),
    ensures
        Color::decoded(path, value.encoded(before)) == Ok::<Color, ParseErrorView>(value),
{
    lemma_channel_names();
    reveal_with_fuel(first_named, 6);
}

pub proof fn lemma_rule_round_trip(value: ThinkerbellRule, path: Seq<SegmentView>, before: nat)
    ensures
        ThinkerbellRule::decoded(path, value.encoded(before)) == Ok::<
            RuleView,
            ParseErrorView,
        >(value@),
{
    lemma_rule_names();
    reveal_with_fuel(first_named, 4);
}

pub proof fn lemma_ext_bool_round_trip(value: ExtValue<bool>, path: Seq<SegmentView>, before: nat)
    ensures
        ExtValue::<bool>::decoded(path, value.encoded(before)) == Ok::<
            ExtView<bool>,
            ParseErrorView,
        >(value.deep_view()),
{
    lemma_extension_names();
    reveal_with_fuel(first_named, 6);
}

pub proof fn lemma_ext_numeric_round_trip(
    value: ExtValue<Number>,
    path: Seq<SegmentView>,
    before: nat,
)
    ensures
        ExtValue::<Number>::decoded(path, value.encoded(before)) == Ok::<
            ExtView<Number>,
            ParseErrorView,
        >(value.deep_view()),
{
    lemma_extension_names();
    reveal_with_fuel(first_named, 6);
}

impl Value {
    /// Whether the value is one that is read back from what was written
    /// for it: the channels of a color lie between 0 and 1, and the
    /// date string of a timestamp is read as the same instant.
    pub open spec fn comes_back(self) -> bool {
        match self {
            Value::Color(color) => color.wf(),
            Value::TimeStamp(stamp) => stamp.reads_back(),
            _ => true,
        }
    }
}

/// Decoding the node that encoding wrote gives the value back, wherever
/// in a tree the node stands and whatever the store holds. Binary data
/// is not written into the tree and so is not read back from it.
pub proof fn lemma_value_round_trip(value: Value, path: Seq<SegmentView>, before: nat)
    requires
        !(value is Binary),
        value.comes_back(),
    ensures
        Value::decoded(path, value.encoded(before)) == Ok::<ValueView, ParseErrorView>(value@),
{
    let kind = value@.kind();
    lemma_kind_names(kind);
    let inner = into_field(into_field(path, kind.named()), kind.named());
    match value {
        Value::Unit => {},
        Value::OnOff(v) => {
            lemma_on_off_round_trip(v, inner, before);
        },
        Value::OpenClosed(v) => {
            lemma_open_closed_round_trip(v, inner, before);
        },
        Value::Duration(v) => {
            lemma_duration_round_trip(v, inner, before);
        },
        Value::TimeStamp(v) => {
            lemma_timestamp_round_trip(v, inner, before);
        },
        Value::Temperature(v) => {
            lemma_temperature_round_trip(v, inner, before);
        },
        Value::Color(v) => {
            lemma_color_round_trip(v, inner, before);
        },
        Value::String(v) => {},
        Value::ThinkerbellRule(v) => {
            lemma_rule_round_trip(v, inner, before);
        },
        Value::ExtBool(v) => {
            lemma_ext_bool_round_trip(v, inner, before);
        },
        Value::ExtNumeric(v) => {
            lemma_ext_numeric_round_trip(v, inner, before);
        },
        Value::Json(v) => {},
        Value::Binary(v) => {},
    }
}

/// The node that is written for binary data gives the number that the
/// data has in the store, counted from one: one more than the store
/// held before. Of two that are written one after the other, the
/// second has the number after the first's.
pub proof fn lemma_binary_numbers(first: Binary, second: Binary, before: nat)
    ensures
        first.encoded(before) == part_reference(before + 1),
        first.pushed().len() == 1,
        second.encoded(before + first.pushed().len()) == part_reference(before + 2),
{
}

proof fn lemma_comparison_names()
    ensures
        "Leq"@ != "Geq"@,
        "Leq"@ != "Eq"@,
        "Leq"@ != "BetweenEq"@,
        "Leq"@ != "OutOfStrict"@,
        "Geq"@ != "Eq"@,
        "Geq"@ != "BetweenEq"@,
        "Geq"@ != "OutOfStrict"@,
        "Eq"@ != "BetweenEq"@,
        "Eq"@ != "OutOfStrict"@,
        "BetweenEq"@ != "OutOfStrict"@,
{
    reveal_strlit("Leq");
    reveal_strlit("Geq");
    reveal_strlit("Eq");
    reveal_strlit("BetweenEq");
    reveal_strlit("OutOfStrict");
    assert("Leq"@.len() == 3 && "Leq"@[0] == 'L');
    assert("Geq"@.len() == 3 && "Geq"@[0] == 'G');
    assert("Eq"@.len() == 2);
    assert("BetweenEq"@.len() == 9);
    assert("OutOfStrict"@.len() == 11);
}

impl Range {
    /// Whether the range is one that is read back from what was written
    /// for it: its bounds are, and none of them is binary data.
    pub open spec fn comes_back(self) -> bool {
        match self {
            Range::Leq(v) | Range::Geq(v) | Range::Eq(v) => !(v is Binary) && v.comes_back(),
            Range::BetweenEq { min, max } | Range::OutOfStrict { min, max } => !(min is Binary)
                && min.comes_back() && !(max is Binary) && max.comes_back(),
        }
    }
}

proof fn lemma_bounds_round_trip(min: Value, max: Value, path: Seq<SegmentView>, before: nat)
    requires
        !(min is Binary),
        min.comes_back(),
        !(max is Binary),
        max.comes_back(),
    ensures
        Vec::<Value>::decoded(path, crate::encode::encoded_bounds(min, max, before)) == Ok::<
            Seq<ValueView>,
            ParseErrorView,
        >(seq![min@, max@]),
{
    let items = seq![min.encoded(before), max.encoded(before + min.pushed().len())];
    lemma_value_round_trip(min, path.push(SegmentView::Index(0)), before);
    lemma_value_round_trip(max, path.push(SegmentView::Index(1)), before + min.pushed().len());
    reveal_with_fuel(decoded_items, 3);
    assert(decoded_items::<Value>(path, items, 0) == Ok::<Seq<ValueView>, ParseErrorView>(
        Seq::empty(),
    ));
    assert(decoded_items::<Value>(path, items, 1) == Ok::<Seq<ValueView>, ParseErrorView>(
        Seq::<ValueView>::empty().push(min@),
    ));
    assert(Seq::<ValueView>::empty().push(min@).push(max@) =~= seq![min@, max@]);
}

/// Decoding the node that encoding wrote for a range gives the range
/// back.
pub proof fn lemma_range_round_trip(range: Range, path: Seq<SegmentView>, before: nat)
    requires
        range.comes_back(),
    ensures
        Range::decoded(path, range.encoded(before)) == Ok::<RangeView, ParseErrorView>(range@),
{
    lemma_comparison_names();
    match range {
        Range::Leq(v) => {
            lemma_value_round_trip(v, into_field(path, "Leq"@), before);
        },
        Range::Geq(v) => {
            lemma_value_round_trip(v, into_field(path, "Geq"@), before);
        },
        Range::Eq(v) => {
            lemma_value_round_trip(v, into_field(path, "Eq"@), before);
        },
        Range::BetweenEq { min, max } => {
            lemma_bounds_round_trip(min, max, into_field(path, "BetweenEq"@), before);
        },
        Range::OutOfStrict { min, max } => {
            lemma_bounds_round_trip(min, max, into_field(path, "OutOfStrict"@), before);
        },
    }
}

} // verus!
