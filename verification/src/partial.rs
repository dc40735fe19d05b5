//! The comparison operators of the values.
use crate::number::{sign_of, Number, Sign};
use crate::order::{ext_flag_sign, ext_number_sign, flag_sign, number_sign, compare_flags};
use crate::text::same_bytes;
use crate::time::{instant_sign, span_sign, Duration, TimeStamp};
use crate::values::{
    Binary, Color, ExtValue, Json, OnOff, OpenClosed, Range, RangeView, Temperature,
    ThinkerbellRule, Value,
};
use std::cmp::Ordering;
use vstd::prelude::*;
use vstd::std_specs::cmp::{PartialEqSpec, PartialEqSpecImpl, PartialOrdSpec, PartialOrdSpecImpl};
use vstd::std_specs::convert::FromSpecImpl;

verus! {

/// The result of a comparison that says what `sign` says.
pub open spec fn ordering_for(sign: Option<Sign>) -> Option<Ordering> {
    match sign {
        Some(Sign::Negative) => Some(Ordering::Less),
        Some(Sign::Zero) => Some(Ordering::Equal),
        Some(Sign::Positive) => Some(Ordering::Greater),
        None => None,
    }
}

pub fn ordering_of(sign: Option<Sign>) -> (r: Option<Ordering>)
    ensures
        r == ordering_for(sign),
{
    match sign {
        Some(Sign::Negative) => Some(Ordering::Less),
        Some(Sign::Zero) => Some(Ordering::Equal),
        Some(Sign::Positive) => Some(Ordering::Greater),
        None => None,
    }
}

impl PartialEq for Number {
    fn eq(&self, other: &Self) -> (r: bool) {
        self.same(other)
    }
}

impl PartialEqSpecImpl for Number {
    open spec fn obeys_eq_spec() -> bool {
        true
    }

    open spec fn eq_spec(&self, other: &Self) -> bool {
        self.units() == other.units()
    }
}

impl PartialOrd for Number {
    fn partial_cmp(&self, other: &Self) -> (r: Option<Ordering>) {
        ordering_of(Some(self.sign_of_difference(other)))
    }
}

impl PartialOrdSpecImpl for Number {
    open spec fn obeys_partial_cmp_spec() -> bool {
        true
    }

    open spec fn partial_cmp_spec(&self, other: &Self) -> Option<Ordering> {
        ordering_for(Some(number_sign(*self, *other)))
    }
}

impl PartialOrd for OnOff {
    fn partial_cmp(&self, other: &Self) -> (r: Option<Ordering>) {
        ordering_of(Some(compare_flags(self.as_bool(), other.as_bool())))
    }
}

impl PartialOrdSpecImpl for OnOff {
    open spec fn obeys_partial_cmp_spec() -> bool {
        true
    }

    open spec fn partial_cmp_spec(&self, other: &Self) -> Option<Ordering> {
        ordering_for(Some(flag_sign(self.is_on(), other.is_on())))
    }
}

impl PartialOrd for OpenClosed {
    fn partial_cmp(&self, other: &Self) -> (r: Option<Ordering>) {
        ordering_of(Some(compare_flags(self.as_bool(), other.as_bool())))
    }
}

impl PartialOrdSpecImpl for OpenClosed {
    open spec fn obeys_partial_cmp_spec() -> bool {
        true
    }

    open spec fn partial_cmp_spec(&self, other: &Self) -> Option<Ordering> {
        ordering_for(Some(flag_sign(self.is_open(), other.is_open())))
    }
}

impl PartialOrd for TimeStamp {
    fn partial_cmp(&self, other: &Self) -> (r: Option<Ordering>) {
        ordering_of(Some(self.sign_against(other)))
    }
}

impl PartialOrdSpecImpl for TimeStamp {
    open spec fn obeys_partial_cmp_spec() -> bool {
        true
    }

    open spec fn partial_cmp_spec(&self, other: &Self) -> Option<Ordering> {
        ordering_for(Some(instant_sign(*self, *other)))
    }
}

impl PartialOrd for Duration {
    fn partial_cmp(&self, other: &Self) -> (r: Option<Ordering>) {
        ordering_of(Some(self.sign_against(other)))
    }
}

impl PartialOrdSpecImpl for Duration {
    open spec fn obeys_partial_cmp_spec() -> bool {
        true
    }

    open spec fn partial_cmp_spec(&self, other: &Self) -> Option<Ordering> {
        ordering_for(Some(span_sign(*self, *other)))
    }
}

impl PartialEq for Temperature {
    fn eq(&self, other: &Self) -> (r: bool) {
        self.same(other)
    }
}

impl PartialEqSpecImpl for Temperature {
    open spec fn obeys_eq_spec() -> bool {
        true
    }

    open spec fn eq_spec(&self, other: &Self) -> bool {
        self.same_as(*other)
    }
}

impl PartialOrd for Temperature {
    fn partial_cmp(&self, other: &Self) -> (r: Option<Ordering>) {
        ordering_of(Some(self.sign_against(other)))
    }
}

impl PartialOrdSpecImpl for Temperature {
    open spec fn obeys_partial_cmp_spec() -> bool {
        true
    }

    open spec fn partial_cmp_spec(&self, other: &Self) -> Option<Ordering> {
        ordering_for(Some(sign_of(self.ninths() - other.ninths())))
    }
}

impl PartialEq for Color {
    fn eq(&self, other: &Self) -> (r: bool) {
        self.same(other)
    }
}

impl PartialEqSpecImpl for Color {
    open spec fn obeys_eq_spec() -> bool {
        true
    }

    open spec fn eq_spec(&self, other: &Self) -> bool {
        self.same_as(*other)
    }
}

impl PartialOrd for Color {
    fn partial_cmp(&self, other: &Self) -> (r: Option<Ordering>) {
        ordering_of(Some(self.sign_against(other)))
    }
}

impl PartialOrdSpecImpl for Color {
    open spec fn obeys_partial_cmp_spec() -> bool {
        true
    }

    open spec fn partial_cmp_spec(&self, other: &Self) -> Option<Ordering> {
        ordering_for(Some(self.sign(*other)))
    }
}

impl PartialEq for ThinkerbellRule {
    fn eq(&self, other: &Self) -> (r: bool) {
        self.same(other)
    }
}

impl PartialEqSpecImpl for ThinkerbellRule {
    open spec fn obeys_eq_spec() -> bool {
        true
    }

    open spec fn eq_spec(&self, other: &Self) -> bool {
        self@ == other@
    }
}

impl PartialEq for Json {
    fn eq(&self, other: &Self) -> (r: bool) {
        self.0.same(&other.0)
    }
}

impl PartialEqSpecImpl for Json {
    open spec fn obeys_eq_spec() -> bool {
        true
    }

    open spec fn eq_spec(&self, other: &Self) -> bool {
        self@ == other@
    }
}

/// Two free-form values never stand to each other.
impl PartialOrd for Json {
    fn partial_cmp(&self, other: &Self) -> (r: Option<Ordering>) {
        None
    }
}

impl PartialOrdSpecImpl for Json {
    open spec fn obeys_partial_cmp_spec() -> bool {
        true
    }

    open spec fn partial_cmp_spec(&self, other: &Self) -> Option<Ordering> {
        None
    }
}

impl PartialEq for ExtValue<bool> {
    fn eq(&self, other: &Self) -> (r: bool) {
        self.same(other)
    }
}

impl PartialEqSpecImpl for ExtValue<bool> {
    open spec fn obeys_eq_spec() -> bool {
        true
    }

    open spec fn eq_spec(&self, other: &Self) -> bool {
        ext_flag_sign(self.deep_view(), other.deep_view()) == Some(Sign::Zero)
    }
}

impl PartialOrd for ExtValue<bool> {
    fn partial_cmp(&self, other: &Self) -> (r: Option<Ordering>) {
        ordering_of(self.sign_against(other))
    }
}

impl PartialOrdSpecImpl for ExtValue<bool> {
    open spec fn obeys_partial_cmp_spec() -> bool {
        true
    }

    open spec fn partial_cmp_spec(&self, other: &Self) -> Option<Ordering> {
        ordering_for(ext_flag_sign(self.deep_view(), other.deep_view()))
    }
}

impl PartialEq for ExtValue<Number> {
    fn eq(&self, other: &Self) -> (r: bool) {
        self.same(other)
    }
}

impl PartialEqSpecImpl for ExtValue<Number> {
    open spec fn obeys_eq_spec() -> bool {
        true
    }

    open spec fn eq_spec(&self, other: &Self) -> bool {
        ext_number_sign(self.deep_view(), other.deep_view()) == Some(Sign::Zero)
    }
}

impl PartialOrd for ExtValue<Number> {
    fn partial_cmp(&self, other: &Self) -> (r: Option<Ordering>) {
        ordering_of(self.sign_against(other))
    }
}

impl PartialOrdSpecImpl for ExtValue<Number> {
    open spec fn obeys_partial_cmp_spec() -> bool {
        true
    }

    open spec fn partial_cmp_spec(&self, other: &Self) -> Option<Ordering> {
        ordering_for(ext_number_sign(self.deep_view(), other.deep_view()))
    }
}

impl PartialEq for Binary {
    fn eq(&self, other: &Self) -> (r: bool) {
        self.mimetype == other.mimetype && same_bytes(self.data.as_slice(), other.data.as_slice())
    }
}

impl PartialEqSpecImpl for Binary {
    open spec fn obeys_eq_spec() -> bool {
        true
    }

    open spec fn eq_spec(&self, other: &Self) -> bool {
        self@ == other@
    }
}

impl PartialEq for Value {
    fn eq(&self, other: &Self) -> (r: bool) {
        self.same(other)
    }
}

impl PartialEqSpecImpl for Value {
    open spec fn obeys_eq_spec() -> bool {
        true
    }

    open spec fn eq_spec(&self, other: &Self) -> bool {
        self@.same_as(other@)
    }
}

/// Two values of the same variant stand to each other as what they
/// hold does. Two values of different variants do not stand to each
/// other.
impl PartialOrd for Value {
    fn partial_cmp(&self, other: &Self) -> (r: Option<Ordering>) {
        ordering_of(self.sign_against(other))
    }
}

impl PartialOrdSpecImpl for Value {
    open spec fn obeys_partial_cmp_spec() -> bool {
        true
    }

    open spec fn partial_cmp_spec(&self, other: &Self) -> Option<Ordering> {
        ordering_for(self@.sign(other@))
    }
}

/// Two values of different kinds do not stand to each other, whichever
/// of the comparison operators asks.
pub proof fn lemma_partial_cmp_of_kinds_apart(a: Value, b: Value)
    requires
        a@.kind() != b@.kind(),
    ensures
        PartialOrdSpec::partial_cmp_spec(&a, &b) is None,
        !PartialEqSpec::eq_spec(&a, &b),
{
}

/// The empty value is equal to itself.
pub proof fn lemma_partial_cmp_of_unit()
    ensures
        PartialOrdSpec::partial_cmp_spec(&Value::Unit, &Value::Unit) == Some(Ordering::Equal),
        PartialEqSpec::eq_spec(&Value::Unit, &Value::Unit),
{
}

impl RangeView {
    /// Whether the two ranges are the same comparison with the same
    /// bounds.
    pub open spec fn same_as(self, other: RangeView) -> bool {
        match (self, other) {
            (RangeView::Leq(a), RangeView::Leq(b)) => a.same_as(b),
            (RangeView::Geq(a), RangeView::Geq(b)) => a.same_as(b),
            (RangeView::Eq(a), RangeView::Eq(b)) => a.same_as(b),
            (
                RangeView::BetweenEq { min: a, max: b },
                RangeView::BetweenEq { min: c, max: d },
            ) => a.same_as(c) && b.same_as(d),
            (
                RangeView::OutOfStrict { min: a, max: b },
                RangeView::OutOfStrict { min: c, max: d },
            ) => a.same_as(c) && b.same_as(d),
            _ => false,
        }
    }
}

impl PartialEq for Range {
    fn eq(&self, other: &Self) -> (r: bool) {
        match (self, other) {
            (Range::Leq(a), Range::Leq(b)) => a.same(b),
            (Range::Geq(a), Range::Geq(b)) => a.same(b),
            (Range::Eq(a), Range::Eq(b)) => a.same(b),
            (Range::BetweenEq { min: a, max: b }, Range::BetweenEq { min: c, max: d }) => a.same(
                c,
            ) && b.same(d),
            (
                Range::OutOfStrict { min: a, max: b },
                Range::OutOfStrict { min: c, max: d },
            ) => a.same(c) && b.same(d),
            _ => false,
        }
    }
}

impl PartialEqSpecImpl for Range {
    open spec fn obeys_eq_spec() -> bool {
        true
    }

    open spec fn eq_spec(&self, other: &Self) -> bool {
        self@.same_as(other@)
    }
}

impl From<OnOff> for Value {
    fn from(state: OnOff) -> (value: Value) {
        Value::OnOff(state)
    }
}

impl FromSpecImpl<OnOff> for Value {
    open spec fn obeys_from_spec() -> bool {
        true
    }

    open spec fn from_spec(state: OnOff) -> Value {
        Value::OnOff(state)
    }
}

impl From<OpenClosed> for Value {
    fn from(state: OpenClosed) -> (value: Value) {
        Value::OpenClosed(state)
    }
}

impl FromSpecImpl<OpenClosed> for Value {
    open spec fn obeys_from_spec() -> bool {
        true
    }

    open spec fn from_spec(state: OpenClosed) -> Value {
        Value::OpenClosed(state)
    }
}

impl From<Duration> for Value {
    fn from(duration: Duration) -> (value: Value) {
        Value::Duration(duration)
    }
}

impl FromSpecImpl<Duration> for Value {
    open spec fn obeys_from_spec() -> bool {
        true
    }

    open spec fn from_spec(duration: Duration) -> Value {
        Value::Duration(duration)
    }
}

} // verus!
