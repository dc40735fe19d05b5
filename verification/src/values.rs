//! Values manipulated by services.
use crate::json::{JsonView, JSON};
use crate::number::{pow10, unit_shift, Number};
pub use crate::time::{Duration, TimeStamp};
use crate::util::{AdapterId, Id, KindId, MimeTypeId, VendorId};
use std::sync::Arc;
use vstd::prelude::*;
use vstd::string::StringExecFns;

verus! {

/// The kind of a value.
#[derive(Debug, Clone, Copy, PartialEq, Eq, Structural, PartialOrd, Ord, Hash)]
pub enum Type {
    /// An empty value. Used for instance to inform that a countdown has
    /// reached 0 or that a device is ready.
    Unit,
    /// An on/off state. Used for various two-states switches.
    OnOff,
    /// An open/closed state. Used for instance for doors and windows.
    OpenClosed,
    /// A duration. Used for instance in countdowns.
    Duration,
    /// A precise timestamp. Used for instance to determine when an event
    /// has taken place.
    TimeStamp,
    ThinkerbellRule,
    Temperature,
    String,
    Color,
    Json,
    Binary,
    ExtBool,
    ExtNumeric,
}

impl DeepView for Type {
    type V = Type;

    open spec fn deep_view(&self) -> Type {
        *self
    }
}

/// Two kinds that should have been the same.
#[derive(Debug, Clone, Copy, PartialEq, Eq, Structural)]
pub struct TypeError {
    /// The kind we expected.
    pub expected: Type,
    /// The kind we actually got.
    pub got: Type,
}

impl Type {
    /// The name of the kind, which is also the word that stands for it on
    /// the wire.
    pub open spec fn named(self) -> Seq<char> {
        match self {
            Type::Unit => "Unit"@,
            Type::OnOff => "OnOff"@,
            Type::OpenClosed => "OpenClosed"@,
            Type::Duration => "Duration"@,
            Type::TimeStamp => "TimeStamp"@,
            Type::Temperature => "Temperature"@,
            Type::ThinkerbellRule => "ThinkerbellRule"@,
            Type::String => "String"@,
            Type::Color => "Color"@,
            Type::Json => "Json"@,
            Type::Binary => "Binary"@,
            Type::ExtBool => "ExtBool"@,
            Type::ExtNumeric => "ExtNumeric"@,
        }
    }

    pub fn name(&self) -> (text: &'static str)
        ensures
            text@ == self.named(),
    {
        match self {
            Type::Unit => "Unit",
            Type::OnOff => "OnOff",
            Type::OpenClosed => "OpenClosed",
            Type::Duration => "Duration",
            Type::TimeStamp => "TimeStamp",
            Type::Temperature => "Temperature",
            Type::ThinkerbellRule => "ThinkerbellRule",
            Type::String => "String",
            Type::Color => "Color",
            Type::Json => "Json",
            Type::Binary => "Binary",
            Type::ExtBool => "ExtBool",
            Type::ExtNumeric => "ExtNumeric",
        }
    }

    /// Whether asking for a value that equals a given one makes sense for
    /// this kind. It does not where near values are told apart by
    /// accidents of measurement.
    pub open spec fn eq_supported(self) -> bool {
        match self {
            Type::Duration | Type::TimeStamp | Type::Temperature | Type::Color
            | Type::ThinkerbellRule => false,
            _ => true,
        }
    }

    /// Determine whether using `Range::Eq` for this kind is appropriate.
    pub fn supports_eq(&self) -> (r: bool)
        ensures
            r == self.eq_supported(),
    {
        match *self {
            Type::Duration | Type::TimeStamp | Type::Temperature | Type::Color
            | Type::ThinkerbellRule => false,
            Type::Unit | Type::String | Type::Json | Type::Binary | Type::OnOff
            | Type::OpenClosed | Type::ExtBool | Type::ExtNumeric => true,
        }
    }

    /// Succeeds where `other` is this kind, and else says which kind was
    /// expected and which was found.
    pub fn ensure_eq(&self, other: &Self) -> (r: Result<(), TypeError>)
        ensures
            r == if *self == *other {
                Ok::<(), TypeError>(())
            } else {
                Err::<(), TypeError>(TypeError { expected: *self, got: *other })
            },
    {
        if *self == *other {
            Ok(())
        } else {
            Err(TypeError { expected: *self, got: *other })
        }
    }
}

impl TypeError {
    /// The message, as it is shown to a reader.
    pub open spec fn message(self) -> Seq<char> {
        "Expected "@ + self.expected.named() + " but got "@ + self.got.named()
    }

    pub fn to_string(&self) -> (text: String)
        ensures
            text@ == self.message(),
    {
        let mut text = "Expected ".to_owned();
        text.append(self.expected.name());
        text.append(" but got ");
        text.append(self.got.name());
        text
    }

    pub fn description(&self) -> (text: &'static str)
        ensures
            text@ == "Expected a type but got another type"@,
    {
        "Expected a type but got another type"
    }
}

/// An on/off state. Off comes before on.
#[derive(Debug, Clone, Copy, PartialEq, Eq, Structural, Ord)]
pub enum OnOff {
    Off,
    On,
}

impl OnOff {
    pub open spec fn is_on(self) -> bool {
        self is On
    }

    pub fn as_bool(&self) -> (r: bool)
        ensures
            r == self.is_on(),
    {
        match *self {
            OnOff::On => true,
            OnOff::Off => false,
        }
    }
}

impl DeepView for OnOff {
    type V = OnOff;

    open spec fn deep_view(&self) -> OnOff {
        *self
    }
}

/// An open/closed state. Closed comes before open.
#[derive(Debug, Clone, Copy, PartialEq, Eq, Structural, Ord)]
pub enum OpenClosed {
    Closed,
    Open,
}

impl OpenClosed {
    pub open spec fn is_open(self) -> bool {
        self is Open
    }

    pub fn as_bool(&self) -> (r: bool)
        ensures
            r == self.is_open(),
    {
        match *self {
            OpenClosed::Open => true,
            OpenClosed::Closed => false,
        }
    }
}

impl DeepView for OpenClosed {
    type V = OpenClosed;

    open spec fn deep_view(&self) -> OpenClosed {
        *self
    }
}

/// A temperature, in degrees Fahrenheit or in degrees Celsius.
#[derive(Debug, Clone, Copy)]
pub enum Temperature {
    /// Fahrenheit
    F(Number),
    /// Celsius
    C(Number),
}

impl DeepView for Temperature {
    type V = Temperature;

    open spec fn deep_view(&self) -> Temperature {
        *self
    }
}

/// A color. Each of red, green, blue and alpha lies between 0 and 1.
#[derive(Debug, Clone, Copy)]
pub enum Color {
    RGBA(Number, Number, Number, Number),
}

impl DeepView for Color {
    type V = Color;

    open spec fn deep_view(&self) -> Color {
        *self
    }
}

/// The value of a channel that lies in the range of a color.
pub open spec fn in_unit_range(channel: Number) -> bool {
    0 <= channel.units() <= pow10(unit_shift())
}

impl Color {
    /// Whether every channel lies between 0 and 1.
    pub open spec fn wf(self) -> bool {
        let Color::RGBA(r, g, b, a) = self;
        in_unit_range(r) && in_unit_range(g) && in_unit_range(b) && in_unit_range(a)
    }
}

#[derive(Debug)]
pub struct ThinkerbellRule {
    pub name: String,
    pub source: String,
}

pub struct RuleView {
    pub name: Seq<char>,
    pub source: Seq<char>,
}

impl View for ThinkerbellRule {
    type V = RuleView;

    open spec fn view(&self) -> RuleView {
        RuleView { name: self.name@, source: self.source@ }
    }
}

impl DeepView for ThinkerbellRule {
    type V = RuleView;

    open spec fn deep_view(&self) -> RuleView {
        self@
    }
}

/// Representation of an object in JSON. It is often (albeit not always)
/// possible to choose a more precise data structure for representing
/// values sent to or accepted by a service. If possible, adapters should
/// rather pick such a more precise data structure.
#[derive(Debug)]
pub struct Json(pub JSON);

impl View for Json {
    type V = JsonView;

    open spec fn view(&self) -> JsonView {
        self.0@
    }
}

impl DeepView for Json {
    type V = JsonView;

    open spec fn deep_view(&self) -> JsonView {
        self@
    }
}

/// A data structure holding a value of a type that has not been
/// standardized yet.
#[derive(Debug)]
pub struct ExtValue<T> {
    pub value: T,
    /// The vendor. Used for namespacing purposes, to avoid confusing two
    /// incompatible extensions with similar names.
    pub vendor: Id<VendorId>,
    /// Identification of the adapter introducing this value. Designed to
    /// aid with tracing and debugging.
    pub adapter: Id<AdapterId>,
    /// A string describing the nature of the value, designed to aid with
    /// type-checking.
    pub kind: Id<KindId>,
}

pub struct ExtView<V> {
    pub value: V,
    pub vendor: Seq<char>,
    pub adapter: Seq<char>,
    pub kind: Seq<char>,
}

impl<T: DeepView> DeepView for ExtValue<T> {
    type V = ExtView<T::V>;

    open spec fn deep_view(&self) -> ExtView<T::V> {
        ExtView {
            value: self.value.deep_view(),
            vendor: self.vendor@,
            adapter: self.adapter@,
            kind: self.kind@,
        }
    }
}

#[derive(Debug)]
pub struct Binary {
    /// The actual data. We put it behind an `Arc` to make sure that
    /// cloning remains inexpensive.
    pub data: Arc<Vec<u8>>,
    /// The MIME type.
    pub mimetype: Id<MimeTypeId>,
}

pub struct BinaryView {
    pub data: Seq<u8>,
    pub mimetype: Seq<char>,
}

impl View for Binary {
    type V = BinaryView;

    open spec fn view(&self) -> BinaryView {
        BinaryView { data: self.data@, mimetype: self.mimetype@ }
    }
}

impl DeepView for Binary {
    type V = BinaryView;

    open spec fn deep_view(&self) -> BinaryView {
        self@
    }
}

/// Representation of an actual value that can be sent to/received from a
/// service.
#[derive(Debug)]
pub enum Value {
    /// An empty value.
    Unit,
    /// An on/off value.
    OnOff(OnOff),
    /// An open/closed value.
    OpenClosed(OpenClosed),
    /// An absolute time and date.
    TimeStamp(TimeStamp),
    /// A duration, also used to represent a time of day.
    Duration(Duration),
    /// A temperature.
    Temperature(Temperature),
    /// A color.
    Color(Color),
    /// A string. We put it behind an `Arc` to make sure that cloning
    /// remains inexpensive.
    String(Arc<String>),
    ThinkerbellRule(ThinkerbellRule),
    /// A boolean value representing a unit that has not been standardized
    /// yet.
    ExtBool(ExtValue<bool>),
    /// A numeric value representing a unit that has not been
    /// standardized yet.
    ExtNumeric(ExtValue<Number>),
    /// A Json value. We put it behind an `Arc` to make sure that cloning
    /// remains inexpensive.
    Json(Arc<Json>),
    /// Binary data.
    Binary(Binary),
}

pub enum ValueView {
    Unit,
    OnOff(OnOff),
    OpenClosed(OpenClosed),
    TimeStamp(TimeStamp),
    Duration(Duration),
    Temperature(Temperature),
    Color(Color),
    String(Seq<char>),
    ThinkerbellRule(RuleView),
    ExtBool(ExtView<bool>),
    ExtNumeric(ExtView<Number>),
    Json(JsonView),
    Binary(BinaryView),
}

impl View for Value {
    type V = ValueView;

    open spec fn view(&self) -> ValueView {
        match self {
            Value::Unit => ValueView::Unit,
            Value::OnOff(v) => ValueView::OnOff(*v),
            Value::OpenClosed(v) => ValueView::OpenClosed(*v),
            Value::TimeStamp(v) => ValueView::TimeStamp(*v),
            Value::Duration(v) => ValueView::Duration(*v),
            Value::Temperature(v) => ValueView::Temperature(*v),
            Value::Color(v) => ValueView::Color(*v),
            Value::String(v) => ValueView::String(v@),
            Value::ThinkerbellRule(v) => ValueView::ThinkerbellRule(v@),
            Value::ExtBool(v) => ValueView::ExtBool(v.deep_view()),
            Value::ExtNumeric(v) => ValueView::ExtNumeric(v.deep_view()),
            Value::Json(v) => ValueView::Json(v@),
            Value::Binary(v) => ValueView::Binary(v@),
        }
    }
}

impl DeepView for Value {
    type V = ValueView;

    open spec fn deep_view(&self) -> ValueView {
        self@
    }
}

impl ValueView {
    /// The kind of the value.
    pub open spec fn kind(self) -> Type {
        match self {
            ValueView::Unit => Type::Unit,
            ValueView::OnOff(_) => Type::OnOff,
            ValueView::OpenClosed(_) => Type::OpenClosed,
            ValueView::String(_) => Type::String,
            ValueView::Duration(_) => Type::Duration,
            ValueView::TimeStamp(_) => Type::TimeStamp,
            ValueView::Temperature(_) => Type::Temperature,
            ValueView::Color(_) => Type::Color,
            ValueView::Json(_) => Type::Json,
            ValueView::Binary(_) => Type::Binary,
            ValueView::ExtBool(_) => Type::ExtBool,
            ValueView::ExtNumeric(_) => Type::ExtNumeric,
            ValueView::ThinkerbellRule(_) => Type::ThinkerbellRule,
        }
    }
}

impl Value {
    pub fn get_type(&self) -> (kind: Type)
        ensures
            kind == self@.kind(),
    {
        match *self {
            Value::Unit => Type::Unit,
            Value::OnOff(_) => Type::OnOff,
            Value::OpenClosed(_) => Type::OpenClosed,
            Value::String(_) => Type::String,
            Value::Duration(_) => Type::Duration,
            Value::TimeStamp(_) => Type::TimeStamp,
            Value::Temperature(_) => Type::Temperature,
            Value::Color(_) => Type::Color,
            Value::Json(_) => Type::Json,
            Value::Binary(_) => Type::Binary,
            Value::ExtBool(_) => Type::ExtBool,
            Value::ExtNumeric(_) => Type::ExtNumeric,
            Value::ThinkerbellRule(_) => Type::ThinkerbellRule,
        }
    }

    pub fn as_timestamp(&self) -> (r: Result<&TimeStamp, TypeError>)
        ensures
            match r {
                Ok(stamp) => self@ == ValueView::TimeStamp(*stamp),
                Err(error) => !(self@ is TimeStamp) && error == (TypeError {
                    expected: Type::TimeStamp,
                    got: self@.kind(),
                }),
            },
    {
        match *self {
            Value::TimeStamp(ref x) => Ok(x),
            _ => Err(TypeError { expected: Type::TimeStamp, got: self.get_type() }),
        }
    }

    pub fn as_duration(&self) -> (r: Result<&Duration, TypeError>)
        ensures
            match r {
                Ok(duration) => self@ == ValueView::Duration(*duration),
                Err(error) => !(self@ is Duration) && error == (TypeError {
                    expected: Type::Duration,
                    got: self@.kind(),
                }),
            },
    {
        match *self {
            Value::Duration(ref x) => Ok(x),
            _ => Err(TypeError { expected: Type::Duration, got: self.get_type() }),
        }
    }
}

/// A comparison between two values.
#[derive(Debug)]
pub enum Range {
    /// Leq(x) accepts any value v such that v <= x.
    Leq(Value),
    /// Geq(x) accepts any value v such that v >= x.
    Geq(Value),
    /// BetweenEq {min, max} accepts any value v such that `min <= v` and
    /// `v <= max`. If `max < min`, it never accepts anything.
    BetweenEq { min: Value, max: Value },
    /// OutOfStrict {min, max} accepts any value v such that `v < min` or
    /// `max < v`
    OutOfStrict { min: Value, max: Value },
    /// Eq(x) accepts any value v such that v == x
    Eq(Value),
}

pub enum RangeView {
    Leq(ValueView),
    Geq(ValueView),
    BetweenEq { min: ValueView, max: ValueView },
    OutOfStrict { min: ValueView, max: ValueView },
    Eq(ValueView),
}

impl View for Range {
    type V = RangeView;

    open spec fn view(&self) -> RangeView {
        match self {
            Range::Leq(v) => RangeView::Leq(v@),
            Range::Geq(v) => RangeView::Geq(v@),
            Range::BetweenEq { min, max } => RangeView::BetweenEq { min: min@, max: max@ },
            Range::OutOfStrict { min, max } => RangeView::OutOfStrict { min: min@, max: max@ },
            Range::Eq(v) => RangeView::Eq(v@),
        }
    }
}

impl DeepView for Range {
    type V = RangeView;

    open spec fn deep_view(&self) -> RangeView {
        self@
    }
}

impl RangeView {
    /// The kind of the values that the range speaks of, where its bounds
    /// agree on one.
    pub open spec fn kind(self) -> Result<Type, TypeError> {
        match self {
            RangeView::Leq(v) | RangeView::Geq(v) | RangeView::Eq(v) => Ok(v.kind()),
            RangeView::BetweenEq { min, max } | RangeView::OutOfStrict { min, max } => {
                if min.kind() == max.kind() {
                    Ok(min.kind())
                } else {
                    Err(TypeError { expected: min.kind(), got: max.kind() })
                }
            },
        }
    }
}

impl Range {
    /// Get the type associated to this range.
    ///
    /// If this range has a `min` and a `max` with conflicting types,
    /// produce an error.
    pub fn get_type(&self) -> (r: Result<Type, TypeError>)
        ensures
            r == self@.kind(),
    {
        match *self {
            Range::Leq(ref v) | Range::Geq(ref v) | Range::Eq(ref v) => Ok(v.get_type()),
            Range::BetweenEq { ref min, ref max } | Range::OutOfStrict { ref min, ref max } => {
                let min_typ = min.get_type();
                let max_typ = max.get_type();
                if min_typ == max_typ {
                    Ok(min_typ)
                } else {
                    Err(TypeError { expected: min_typ, got: max_typ })
                }
            },
        }
    }
}

/// `Arc::clone` of std: another handle to the same shared value.
#[verifier::external_body]
fn share<T>(shared: &Arc<T>) -> (r: Arc<T>)
    ensures
        r == *shared,
{
    Arc::clone(shared)
}

impl Clone for ThinkerbellRule {
    fn clone(&self) -> (r: Self)
        ensures
            r@ == self@,
    {
        ThinkerbellRule { name: self.name.clone(), source: self.source.clone() }
    }
}

impl Clone for Json {
    fn clone(&self) -> (r: Self)
        ensures
            r@ == self@,
    {
        Json(self.0.clone())
    }
}

impl Clone for ExtValue<bool> {
    fn clone(&self) -> (r: Self)
        ensures
            r.deep_view() == self.deep_view(),
    {
        ExtValue {
            value: self.value,
            vendor: self.vendor.clone(),
            adapter: self.adapter.clone(),
            kind: self.kind.clone(),
        }
    }
}

impl Clone for ExtValue<Number> {
    fn clone(&self) -> (r: Self)
        ensures
            r.deep_view() == self.deep_view(),
    {
        ExtValue {
            value: self.value,
            vendor: self.vendor.clone(),
            adapter: self.adapter.clone(),
            kind: self.kind.clone(),
        }
    }
}

/// The copy shares the bytes with the binary data that it was made of.
impl Clone for Binary {
    fn clone(&self) -> (r: Self)
        ensures
            r@ == self@,
    {
        Binary { data: share(&self.data), mimetype: self.mimetype.clone() }
    }
}

/// The copy shares with the value what the value holds of texts and of
/// free-form nodes: it is made in the same time however large they are.
impl Clone for Value {
    fn clone(&self) -> (r: Self)
        ensures
            r@ == self@,
    {
        match self {
            Value::Unit => Value::Unit,
            Value::OnOff(v) => Value::OnOff(*v),
            Value::OpenClosed(v) => Value::OpenClosed(*v),
            Value::TimeStamp(v) => Value::TimeStamp(*v),
            Value::Duration(v) => Value::Duration(*v),
            Value::Temperature(v) => Value::Temperature(*v),
            Value::Color(v) => Value::Color(*v),
            Value::String(v) => Value::String(share(v)),
            Value::ThinkerbellRule(v) => Value::ThinkerbellRule(v.clone()),
            Value::ExtBool(v) => Value::ExtBool(v.clone()),
            Value::ExtNumeric(v) => Value::ExtNumeric(v.clone()),
            Value::Json(v) => Value::Json(share(v)),
            Value::Binary(v) => Value::Binary(v.clone()),
        }
    }
}

impl Clone for Range {
    fn clone(&self) -> (r: Self)
        ensures
            r@ == self@,
    {
        match self {
            Range::Leq(v) => Range::Leq(v.clone()),
            Range::Geq(v) => Range::Geq(v.clone()),
            Range::BetweenEq { min, max } => Range::BetweenEq {
                min: min.clone(),
                max: max.clone(),
            },
            Range::OutOfStrict { min, max } => Range::OutOfStrict {
                min: min.clone(),
                max: max.clone(),
            },
            Range::Eq(v) => Range::Eq(v.clone()),
        }
    }
}

} // verus!
