//! How values stand to each other: which comes first, and which are
//! the same. Values of different variants do not stand to each other at
//! all.
use crate::number::{pow10, sign_of, sign_of_sum, unit_shift, Number, Sign, Term};
use crate::text::{
    compare_bytes, compare_text, lexical_sign, same_bytes, same_text, text_sign,
};
use crate::time::{instant_sign, span_sign};
use crate::values::{
    BinaryView, Color, ExtValue, ExtView, Range, RangeView, Temperature, ThinkerbellRule, Value,
    ValueView,
};
use vstd::prelude::*;

verus! {

/// How a switch that is `a` stands to one that is `b`: off comes before
/// on.
pub open spec fn flag_sign(a: bool, b: bool) -> Sign {
    if a == b {
        Sign::Zero
    } else if b {
        Sign::Negative
    } else {
        Sign::Positive
    }
}

pub fn compare_flags(a: bool, b: bool) -> (s: Sign)
    ensures
        s == flag_sign(a, b),
{
    if a == b {
        Sign::Zero
    } else if b {
        Sign::Negative
    } else {
        Sign::Positive
    }
}

/// How the number `a` stands to the number `b`.
pub open spec fn number_sign(a: Number, b: Number) -> Sign {
    sign_of(a.units() - b.units())
}

impl Temperature {
    /// Nine times the temperature in degrees Celsius, counted in the
    /// units of its number: a temperature of `f` degrees Fahrenheit is
    /// one of `(f - 32) * 5 / 9` degrees Celsius.
    pub open spec fn ninths(self) -> int {
        match self {
            Temperature::C(degrees) => 9 * degrees.units(),
            Temperature::F(degrees) => 5 * degrees.units() - 160 * pow10(unit_shift()),
        }
    }

    /// How this temperature stands to `other`: colder, as warm or
    /// warmer, whatever the scales.
    pub fn sign_against(&self, other: &Temperature) -> (s: Sign)
        ensures
            s == sign_of(self.ninths() - other.ninths()),
    {
        let zero = Term { amount: 0, shift: 0 };
        assert(zero.value() == 0) by {
            assert(0 * pow10(0) == 0);
        }
        match (*self, *other) {
            (Temperature::C(a), Temperature::C(b)) => sign_of_sum(a.term(9), b.term(-9), zero),
            (Temperature::F(a), Temperature::F(b)) => sign_of_sum(a.term(5), b.term(-5), zero),
            (Temperature::C(a), Temperature::F(b)) => {
                let freezing = Term { amount: 160, shift: 0x8000_0000 };
                assert(freezing.value() == 160 * pow10(unit_shift()));
                sign_of_sum(a.term(9), b.term(-5), freezing)
            },
            (Temperature::F(a), Temperature::C(b)) => {
                let freezing = Term { amount: -160, shift: 0x8000_0000 };
                assert(freezing.value() == -(160 * pow10(unit_shift()))) by {
                    let unit = pow10(unit_shift()) as int;
                    assert((-160) * unit == -(160 * unit)) by (nonlinear_arith);
                }
                sign_of_sum(a.term(5), b.term(-9), freezing)
            },
        }
    }

    /// Whether the two temperatures are the same number on the same
    /// scale.
    pub open spec fn same_as(self, other: Temperature) -> bool {
        match (self, other) {
            (Temperature::C(a), Temperature::C(b)) => a.units() == b.units(),
            (Temperature::F(a), Temperature::F(b)) => a.units() == b.units(),
            _ => false,
        }
    }

    pub fn same(&self, other: &Temperature) -> (r: bool)
        ensures
            r == self.same_as(*other),
    {
        match (*self, *other) {
            (Temperature::C(a), Temperature::C(b)) => a.same(&b),
            (Temperature::F(a), Temperature::F(b)) => a.same(&b),
            _ => false,
        }
    }
}

/// The first of the signs that is not zero.
pub open spec fn first_sign(first: Sign, rest: Sign) -> Sign {
    if first == Sign::Zero {
        rest
    } else {
        first
    }
}

impl Color {
    /// How this color stands to `other`: the first channel in which
    /// they differ decides, in the order red, green, blue, alpha.
    pub open spec fn sign(self, other: Color) -> Sign {
        let Color::RGBA(r, g, b, a) = self;
        let Color::RGBA(s, h, c, d) = other;
        first_sign(
            number_sign(r, s),
            first_sign(number_sign(g, h), first_sign(number_sign(b, c), number_sign(a, d))),
        )
    }

    pub fn sign_against(&self, other: &Color) -> (s: Sign)
        ensures
            s == self.sign(*other),
    {
        let Color::RGBA(r, g, b, a) = *self;
        let Color::RGBA(s, h, c, d) = *other;
        let red = r.sign_of_difference(&s);
        if red != Sign::Zero {
            return red;
        }
        let green = g.sign_of_difference(&h);
        if green != Sign::Zero {
            return green;
        }
        let blue = b.sign_of_difference(&c);
        if blue != Sign::Zero {
            return blue;
        }
        a.sign_of_difference(&d)
    }

    /// Whether the two colors have the same channels.
    pub open spec fn same_as(self, other: Color) -> bool {
        self.sign(other) == Sign::Zero
    }

    pub fn same(&self, other: &Color) -> (r: bool)
        ensures
            r == self.same_as(*other),
    {
        self.sign_against(other) == Sign::Zero
    }
}

/// Whether two extension values are of the same vendor and kind, so
/// that what they hold can be held against each other.
pub open spec fn akin<V>(a: ExtView<V>, b: ExtView<V>) -> bool {
    a.vendor == b.vendor && a.kind == b.kind
}

/// How the extension switch `a` stands to `b`.
pub open spec fn ext_flag_sign(a: ExtView<bool>, b: ExtView<bool>) -> Option<Sign> {
    if akin(a, b) {
        Some(flag_sign(a.value, b.value))
    } else {
        None
    }
}

/// How the extension number `a` stands to `b`.
pub open spec fn ext_number_sign(a: ExtView<Number>, b: ExtView<Number>) -> Option<Sign> {
    if akin(a, b) {
        Some(number_sign(a.value, b.value))
    } else {
        None
    }
}

impl ExtValue<bool> {
    pub fn sign_against(&self, other: &ExtValue<bool>) -> (s: Option<Sign>)
        ensures
            s == ext_flag_sign(self.deep_view(), other.deep_view()),
    {
        if self.vendor != other.vendor || self.kind != other.kind {
            None
        } else {
            Some(compare_flags(self.value, other.value))
        }
    }

    /// Whether the two are of the same vendor and kind and hold the
    /// same. The adapter that brought a value in does not count.
    pub fn same(&self, other: &ExtValue<bool>) -> (r: bool)
        ensures
            r == (ext_flag_sign(self.deep_view(), other.deep_view()) == Some(Sign::Zero)),
    {
        if self.vendor != other.vendor || self.kind != other.kind {
            false
        } else {
            self.value == other.value
        }
    }
}

impl ExtValue<Number> {
    pub fn sign_against(&self, other: &ExtValue<Number>) -> (s: Option<Sign>)
        ensures
            s == ext_number_sign(self.deep_view(), other.deep_view()),
    {
        if self.vendor != other.vendor || self.kind != other.kind {
            None
        } else {
            Some(self.value.sign_of_difference(&other.value))
        }
    }

    /// Whether the two are of the same vendor and kind and hold the
    /// same. The adapter that brought a value in does not count.
    pub fn same(&self, other: &ExtValue<Number>) -> (r: bool)
        ensures
            r == (ext_number_sign(self.deep_view(), other.deep_view()) == Some(Sign::Zero)),
    {
        if self.vendor != other.vendor || self.kind != other.kind {
            false
        } else {
            self.value.same(&other.value)
        }
    }
}

/// How the bytes `a` of one MIME type stand to the bytes `b` of
/// another.
pub open spec fn binary_sign(a: BinaryView, b: BinaryView) -> Option<Sign> {
    if a.mimetype == b.mimetype {
        Some(lexical_sign(a.data, b.data, 0))
    } else {
        None
    }
}

impl ThinkerbellRule {
    pub fn same(&self, other: &ThinkerbellRule) -> (r: bool)
        ensures
            r == (self@ == other@),
    {
        same_text(self.name.as_str(), other.name.as_str()) && same_text(
            self.source.as_str(),
            other.source.as_str(),
        )
    }
}

impl ValueView {
    /// How this value stands to `other`: before it, level with it or
    /// after it. Values of different variants do not stand to each
    /// other, nor do free-form values, nor extension values of different
    /// vendors or kinds, nor bytes of different MIME types.
    pub open spec fn sign(self, other: ValueView) -> Option<Sign> {
        match (self, other) {
            (ValueView::Unit, ValueView::Unit) => Some(Sign::Zero),
            (ValueView::OnOff(a), ValueView::OnOff(b)) => Some(flag_sign(a.is_on(), b.is_on())),
            (ValueView::OpenClosed(a), ValueView::OpenClosed(b)) => Some(
                flag_sign(a.is_open(), b.is_open()),
            ),
            (ValueView::Duration(a), ValueView::Duration(b)) => Some(span_sign(a, b)),
            (ValueView::TimeStamp(a), ValueView::TimeStamp(b)) => Some(instant_sign(a, b)),
            (ValueView::Temperature(a), ValueView::Temperature(b)) => Some(
                sign_of(a.ninths() - b.ninths()),
            ),
            (ValueView::Color(a), ValueView::Color(b)) => Some(a.sign(b)),
            (ValueView::ExtBool(a), ValueView::ExtBool(b)) => ext_flag_sign(a, b),
            (ValueView::ExtNumeric(a), ValueView::ExtNumeric(b)) => ext_number_sign(a, b),
            (ValueView::String(a), ValueView::String(b)) => Some(text_sign(a, b)),
            (ValueView::ThinkerbellRule(a), ValueView::ThinkerbellRule(b)) => Some(
                text_sign(a.name, b.name),
            ),
            (ValueView::Binary(a), ValueView::Binary(b)) => binary_sign(a, b),
            _ => None,
        }
    }

    /// Whether this value is the same as `other`. Numbers are the same
    /// where their values are, however they are written.
    pub open spec fn same_as(self, other: ValueView) -> bool {
        match (self, other) {
            (ValueView::Unit, ValueView::Unit) => true,
            (ValueView::OnOff(a), ValueView::OnOff(b)) => a == b,
            (ValueView::OpenClosed(a), ValueView::OpenClosed(b)) => a == b,
            (ValueView::Duration(a), ValueView::Duration(b)) => a == b,
            (ValueView::TimeStamp(a), ValueView::TimeStamp(b)) => a == b,
            (ValueView::Temperature(a), ValueView::Temperature(b)) => a.same_as(b),
            (ValueView::Color(a), ValueView::Color(b)) => a.same_as(b),
            (ValueView::ExtBool(a), ValueView::ExtBool(b)) => ext_flag_sign(a, b) == Some(
                Sign::Zero,
            ),
            (ValueView::ExtNumeric(a), ValueView::ExtNumeric(b)) => ext_number_sign(a, b) == Some(
                Sign::Zero,
            ),
            (ValueView::String(a), ValueView::String(b)) => a == b,
            (ValueView::ThinkerbellRule(a), ValueView::ThinkerbellRule(b)) => a == b,
            (ValueView::Json(a), ValueView::Json(b)) => a == b,
            (ValueView::Binary(a), ValueView::Binary(b)) => a == b,
            _ => false,
        }
    }
}

impl Value {
    /// How this value stands to `other`, where it does.
    pub fn sign_against(&self, other: &Value) -> (s: Option<Sign>)
        ensures
            s == self@.sign(other@),
    {
        match (self, other) {
            (Value::Unit, Value::Unit) => Some(Sign::Zero),
            (Value::OnOff(a), Value::OnOff(b)) => Some(compare_flags(a.as_bool(), b.as_bool())),
            (Value::OpenClosed(a), Value::OpenClosed(b)) => Some(
                compare_flags(a.as_bool(), b.as_bool()),
            ),
            (Value::Duration(a), Value::Duration(b)) => Some(a.sign_against(b)),
            (Value::TimeStamp(a), Value::TimeStamp(b)) => Some(a.sign_against(b)),
            (Value::Temperature(a), Value::Temperature(b)) => Some(a.sign_against(b)),
            (Value::Color(a), Value::Color(b)) => Some(a.sign_against(b)),
            (Value::ExtBool(a), Value::ExtBool(b)) => a.sign_against(b),
            (Value::ExtNumeric(a), Value::ExtNumeric(b)) => a.sign_against(b),
            (Value::String(a), Value::String(b)) => Some(
                compare_text(a.as_str(), b.as_str()),
            ),
            (Value::ThinkerbellRule(a), Value::ThinkerbellRule(b)) => Some(
                compare_text(a.name.as_str(), b.name.as_str()),
            ),
            (Value::Binary(a), Value::Binary(b)) => {
                if a.mimetype == b.mimetype {
                    Some(compare_bytes(a.data.as_slice(), b.data.as_slice()))
                } else {
                    None
                }
            },
            _ => None,
        }
    }

    /// Whether this value is the same as `other`.
    pub fn same(&self, other: &Value) -> (r: bool)
        ensures
            r == self@.same_as(other@),
    {
        match (self, other) {
            (Value::Unit, Value::Unit) => true,
            (Value::OnOff(a), Value::OnOff(b)) => *a == *b,
            (Value::OpenClosed(a), Value::OpenClosed(b)) => *a == *b,
            (Value::Duration(a), Value::Duration(b)) => *a == *b,
            (Value::TimeStamp(a), Value::TimeStamp(b)) => *a == *b,
            (Value::Temperature(a), Value::Temperature(b)) => a.same(b),
            (Value::Color(a), Value::Color(b)) => a.same(b),
            (Value::ExtBool(a), Value::ExtBool(b)) => a.same(b),
            (Value::ExtNumeric(a), Value::ExtNumeric(b)) => a.same(b),
            (Value::String(a), Value::String(b)) => same_text(a.as_str(), b.as_str()),
            (Value::ThinkerbellRule(a), Value::ThinkerbellRule(b)) => a.same(b),
            (Value::Json(a), Value::Json(b)) => a.0.same(&b.0),
            (Value::Binary(a), Value::Binary(b)) => a.mimetype == b.mimetype && same_bytes(
                a.data.as_slice(),
                b.data.as_slice(),
            ),
            _ => false,
        }
    }
}

/// Whether `a` stands to `b` and does not come after it.
pub open spec fn at_most(a: ValueView, b: ValueView) -> bool {
    a.sign(b) == Some(Sign::Negative) || a.sign(b) == Some(Sign::Zero)
}

/// Whether `a` stands to `b` and comes before it.
pub open spec fn before(a: ValueView, b: ValueView) -> bool {
    a.sign(b) == Some(Sign::Negative)
}

impl RangeView {
    /// Whether the range accepts `value`.
    pub open spec fn accepts(self, value: ValueView) -> bool {
        match self {
            RangeView::Leq(max) => at_most(value, max),
            RangeView::Geq(min) => at_most(min, value),
            RangeView::BetweenEq { min, max } => at_most(min, value) && at_most(value, max),
            RangeView::OutOfStrict { min, max } => before(value, min) || before(max, value),
            RangeView::Eq(same) => value.same_as(same),
        }
    }
}

fn not_after(a: &Value, b: &Value) -> (r: bool)
    ensures
        r == at_most(a@, b@),
{
    match a.sign_against(b) {
        Some(Sign::Negative) | Some(Sign::Zero) => true,
        _ => false,
    }
}

fn comes_before(a: &Value, b: &Value) -> (r: bool)
    ensures
        r == before(a@, b@),
{
    match a.sign_against(b) {
        Some(Sign::Negative) => true,
        _ => false,
    }
}

impl Range {
    /// Determine if a value is accepted by this range.
    pub fn contains(&self, value: &Value) -> (r: bool)
        ensures
            r == self@.accepts(value@),
    {
        match self {
            Range::Leq(max) => not_after(value, max),
            Range::Geq(min) => not_after(min, value),
            Range::BetweenEq { min, max } => not_after(min, value) && not_after(value, max),
            Range::OutOfStrict { min, max } => comes_before(value, min) || comes_before(
                max,
                value,
            ),
            Range::Eq(same) => value.same(same),
        }
    }
}

} // verus!
