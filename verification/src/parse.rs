//! Strict decoding from JSON nodes, with errors that say where they arose.
use crate::json::{item_views, lemma_array_view, lemma_without_keeps, JsonView, JSON};
use crate::number::Number;
use crate::util::Id;
use vstd::prelude::*;
use vstd::string::StringExecFns;

verus! {

/// One step from a node to a node inside it.
#[derive(Debug)]
pub enum Segment {
    /// Into the member of this name.
    Field(String),
    /// Into the item at this place.
    Index(usize),
}

pub enum SegmentView {
    Field(Seq<char>),
    Index(usize),
}

impl View for Segment {
    type V = SegmentView;

    open spec fn view(&self) -> SegmentView {
        match self {
            Segment::Field(name) => SegmentView::Field(name@),
            Segment::Index(index) => SegmentView::Index(*index),
        }
    }
}

impl DeepView for Segment {
    type V = SegmentView;

    open spec fn deep_view(&self) -> SegmentView {
        self@
    }
}

impl Clone for Segment {
    fn clone(&self) -> (r: Self)
        ensures
            r@ == self@,
    {
        match self {
            Segment::Field(name) => Segment::Field(name.clone()),
            Segment::Index(index) => Segment::Index(*index),
        }
    }
}

/// The steps from the node that decoding began at to the node at hand.
#[derive(Debug)]
pub struct Path {
    segments: Vec<Segment>,
}

impl View for Path {
    type V = Seq<SegmentView>;

    closed spec fn view(&self) -> Seq<SegmentView> {
        self.segments.deep_view()
    }
}

impl DeepView for Path {
    type V = Seq<SegmentView>;

    open spec fn deep_view(&self) -> Seq<SegmentView> {
        self@
    }
}

impl Path {
    /// The path of the node that decoding begins at.
    pub fn new() -> (r: Path)
        ensures
            r@ == Seq::<SegmentView>::empty(),
    {
        let r = Path { segments: Vec::new() };
        assert(r@ =~= Seq::<SegmentView>::empty());
        r
    }

    fn extended(&self, last: Segment) -> (r: Path)
        ensures
            r@ == self@.push(last@),
    {
        let mut segments: Vec<Segment> = Vec::new();
        let mut i: usize = 0;
        while i < self.segments.len()
            invariant
                i <= self.segments.len(),
                segments.len() == i,
                forall|j: int| 0 <= j < i ==> (#[trigger] segments@[j])@ == self.segments@[j]@,
            decreases self.segments.len() - i,
        {
            segments.push(self.segments[i].clone());
            i = i + 1;
        }
        segments.push(last);
        let r = Path { segments };
        assert(r@ =~= self@.push(last@));
        r
    }

    /// This path, one step further into the member named `segment`. The
    /// path itself stays as it is, so a step never outlives the
    /// decoding of the member that it was taken for.
    pub fn push(&self, segment: &str) -> (r: Path)
        ensures
            r@ == self@.push(SegmentView::Field(segment@)),
    {
        self.extended(Segment::Field(segment.to_owned()))
    }

    /// This path, one step further into the item at `index`.
    pub fn push_index(&self, index: usize) -> (r: Path)
        ensures
            r@ == self@.push(SegmentView::Index(index)),
    {
        self.extended(Segment::Index(index))
    }

    /// The number of steps.
    pub fn len(&self) -> (n: usize)
        ensures
            n == self@.len(),
    {
        self.segments.len()
    }

    /// The step at `index`.
    pub fn segment(&self, index: usize) -> (s: &Segment)
        requires
            index < self@.len(),
        ensures
            s@ == self@[index as int],
    {
        &self.segments[index]
    }
}

/// The text of one digit.
pub open spec fn digit_text(digit: nat) -> Seq<char> {
    if digit == 0 {
        "0"@
    } else if digit == 1 {
        "1"@
    } else if digit == 2 {
        "2"@
    } else if digit == 3 {
        "3"@
    } else if digit == 4 {
        "4"@
    } else if digit == 5 {
        "5"@
    } else if digit == 6 {
        "6"@
    } else if digit == 7 {
        "7"@
    } else if digit == 8 {
        "8"@
    } else {
        "9"@
    }
}

/// The decimal numeral of `n`.
pub open spec fn decimal_text(n: nat) -> Seq<char>
    decreases n,
{
    if n < 10 {
        digit_text(n)
    } else {
        decimal_text(n / 10) + digit_text(n % 10)
    }
}

/// The text of one step: a name, or a place in square brackets.
pub open spec fn segment_text(segment: SegmentView) -> Seq<char> {
    match segment {
        SegmentView::Field(name) => name,
        SegmentView::Index(index) => "["@ + decimal_text(index as nat) + "]"@,
    }
}

/// The text of a path: its steps in their order, with a dot before each
/// name but the first.
pub open spec fn path_text(path: Seq<SegmentView>) -> Seq<char>
    decreases path.len(),
{
    if path.len() == 0 {
        Seq::empty()
    } else if path.len() > 1 && path.last() is Field {
        path_text(path.drop_last()) + "."@ + segment_text(path.last())
    } else {
        path_text(path.drop_last()) + segment_text(path.last())
    }
}

fn digit(d: usize) -> (text: &'static str)
    requires
        d < 10,
    ensures
        text@ == digit_text(d as nat),
{
    if d == 0 {
        "0"
    } else if d == 1 {
        "1"
    } else if d == 2 {
        "2"
    } else if d == 3 {
        "3"
    } else if d == 4 {
        "4"
    } else if d == 5 {
        "5"
    } else if d == 6 {
        "6"
    } else if d == 7 {
        "7"
    } else if d == 8 {
        "8"
    } else {
        "9"
    }
}

/// The decimal numeral of `n`.
pub fn decimal(n: usize) -> (text: String)
    ensures
        text@ == decimal_text(n as nat),
    decreases n,
{
    if n < 10 {
        digit(n).to_owned()
    } else {
        let mut text = decimal(n / 10);
        text.append(digit(n % 10));
        text
    }
}

impl Path {
    /// The path as it is shown to a reader, such as `Range.BetweenEq[1]`.
    pub fn to_string(&self) -> (text: String)
        ensures
            text@ == path_text(self@),
    {
        let mut text = String::new();
        let mut i: usize = 0;
        assert(self@.subrange(0, 0) =~= Seq::<SegmentView>::empty());
        while i < self.segments.len()
            invariant
                i <= self.segments.len(),
                self@.len() == self.segments.len(),
                text@ == path_text(self@.subrange(0, i as int)),
            decreases self.segments.len() - i,
        {
            let ghost so_far = self@.subrange(0, i as int);
            let ghost next = self@.subrange(0, i + 1);
            assert(next.drop_last() =~= so_far);
            assert(next.last() == self@[i as int]);
            match &self.segments[i] {
                Segment::Field(name) => {
                    if i > 0 {
                        text.append(".");
                    }
                    text.append(name.as_str());
                },
                Segment::Index(index) => {
                    text.append("[");
                    let numeral = decimal(*index);
                    text.append(numeral.as_str());
                    text.append("]");
                    assert(text@ =~= path_text(so_far) + ("["@ + decimal_text(*index as nat)
                        + "]"@));
                },
            }
            i = i + 1;
        }
        assert(self@.subrange(0, i as int) =~= self@);
        text
    }
}

impl Clone for Path {
    fn clone(&self) -> (r: Self)
        ensures
            r@ == self@,
    {
        let mut segments: Vec<Segment> = Vec::new();
        let mut i: usize = 0;
        while i < self.segments.len()
            invariant
                i <= self.segments.len(),
                segments.len() == i,
                forall|j: int| 0 <= j < i ==> (#[trigger] segments@[j])@ == self.segments@[j]@,
            decreases self.segments.len() - i,
        {
            segments.push(self.segments[i].clone());
            i = i + 1;
        }
        let r = Path { segments };
        assert(r@ =~= self@);
        r
    }
}

/// Why a node could not be decoded. Each kind carries the path of the
/// node at which decoding failed.
#[derive(Debug)]
pub enum ParseError {
    /// The node `name` is not of the shape `expected`.
    TypeError { name: String, at: Path, expected: String },
    /// The member `name` is required and absent.
    MissingField { name: String, at: Path },
    /// The text `value` is none of the constants that may stand here.
    UnknownConstant { value: String, at: Path },
}

pub enum ParseErrorView {
    TypeError { name: Seq<char>, at: Seq<SegmentView>, expected: Seq<char> },
    MissingField { name: Seq<char>, at: Seq<SegmentView> },
    UnknownConstant { value: Seq<char>, at: Seq<SegmentView> },
}

impl View for ParseError {
    type V = ParseErrorView;

    open spec fn view(&self) -> ParseErrorView {
        match self {
            ParseError::TypeError { name, at, expected } => ParseErrorView::TypeError {
                name: name@,
                at: at@,
                expected: expected@,
            },
            ParseError::MissingField { name, at } => ParseErrorView::MissingField {
                name: name@,
                at: at@,
            },
            ParseError::UnknownConstant { value, at } => ParseErrorView::UnknownConstant {
                value: value@,
                at: at@,
            },
        }
    }
}

impl DeepView for ParseError {
    type V = ParseErrorView;

    open spec fn deep_view(&self) -> ParseErrorView {
        self@
    }
}

impl ParseError {
    pub fn type_error(name: &str, at: &Path, expected: &str) -> (e: ParseError)
        ensures
            e@ == (ParseErrorView::TypeError { name: name@, at: at@, expected: expected@ }),
    {
        ParseError::TypeError { name: name.to_owned(), at: at.clone(), expected: expected.to_owned() }
    }

    pub fn missing_field(name: &str, at: &Path) -> (e: ParseError)
        ensures
            e@ == (ParseErrorView::MissingField { name: name@, at: at@ }),
    {
        ParseError::MissingField { name: name.to_owned(), at: at.clone() }
    }

    pub fn unknown_constant(value: &str, at: &Path) -> (e: ParseError)
        ensures
            e@ == (ParseErrorView::UnknownConstant { value: value@, at: at@ }),
    {
        ParseError::UnknownConstant { value: value.to_owned(), at: at.clone() }
    }

    /// The failure as it is shown to a reader.
    pub open spec fn message(self) -> Seq<char> {
        match self@ {
            ParseErrorView::TypeError { name, at, expected } => "Invalid type for "@ + name
                + " at "@ + path_text(at) + ", expected "@ + expected,
            ParseErrorView::MissingField { name, at } => "Missing field "@ + name + " at "@
                + path_text(at),
            ParseErrorView::UnknownConstant { value, at } => "Unknown constant "@ + value
                + " at "@ + path_text(at),
        }
    }

    pub fn to_string(&self) -> (text: String)
        ensures
            text@ == self.message(),
    {
        match self {
            ParseError::TypeError { name, at, expected } => {
                let mut text = "Invalid type for ".to_owned();
                text.append(name.as_str());
                text.append(" at ");
                let place = at.to_string();
                text.append(place.as_str());
                text.append(", expected ");
                text.append(expected.as_str());
                text
            },
            ParseError::MissingField { name, at } => {
                let mut text = "Missing field ".to_owned();
                text.append(name.as_str());
                text.append(" at ");
                let place = at.to_string();
                text.append(place.as_str());
                text
            },
            ParseError::UnknownConstant { value, at } => {
                let mut text = "Unknown constant ".to_owned();
                text.append(value.as_str());
                text.append(" at ");
                let place = at.to_string();
                text.append(place.as_str());
                text
            },
        }
    }

    /// The path of the node at which decoding failed.
    pub fn path(&self) -> (at: &Path)
        ensures
            at@ == match self@ {
                ParseErrorView::TypeError { at, .. } => at,
                ParseErrorView::MissingField { at, .. } => at,
                ParseErrorView::UnknownConstant { at, .. } => at,
            },
    {
        match self {
            ParseError::TypeError { at, .. } => at,
            ParseError::MissingField { at, .. } => at,
            ParseError::UnknownConstant { at, .. } => at,
        }
    }
}

/// What a decoding gave, as the views of the value or of the error.
pub open spec fn outcome<T: DeepView>(r: Result<T, ParseError>) -> Result<T::V, ParseErrorView> {
    match r {
        Ok(value) => Ok(value.deep_view()),
        Err(error) => Err(error@),
    }
}

/// What an optional decoding gave.
pub open spec fn outcome_opt<T: DeepView>(r: Option<Result<T, ParseError>>) -> Option<
    Result<T::V, ParseErrorView>,
> {
    match r {
        Some(inner) => Some(outcome(inner)),
        None => None,
    }
}

/// A type that can be decoded from a JSON node.
pub trait Parser: Sized + DeepView {
    /// How the type is called in messages.
    spec fn described() -> Seq<char>;

    /// What decoding `source` gives, where `path` leads to `source`.
    spec fn decoded(path: Seq<SegmentView>, source: JsonView) -> Result<
        <Self as DeepView>::V,
        ParseErrorView,
    >;

    fn description() -> (text: String)
        ensures
            text@ == Self::described(),
    ;

    /// Decodes `source`, which is used up. A failure names the node that
    /// did not fit and the path to it.
    fn parse(path: &Path, source: JSON) -> (r: Result<Self, ParseError>)
        ensures
            outcome(r) == Self::decoded(path@, source@),
    ;
}

/// What taking the member `field` out of `source` and decoding it gives,
/// where the member may be absent.
pub open spec fn taken_opt<T: Parser>(
    path: Seq<SegmentView>,
    source: JsonView,
    field: Seq<char>,
) -> Option<Result<<T as DeepView>::V, ParseErrorView>> {
    match source.field(field) {
        Some(value) => Some(T::decoded(path, value)),
        None => None,
    }
}

/// What taking the required member `field` out of `source` and decoding
/// it gives.
pub open spec fn taken<T: Parser>(path: Seq<SegmentView>, source: JsonView, field: Seq<char>) -> Result<
    <T as DeepView>::V,
    ParseErrorView,
> {
    match source.field(field) {
        Some(value) => T::decoded(path, value),
        None => Err(ParseErrorView::MissingField { name: field, at: path }),
    }
}

/// A member that was taken before does not change what taking a member
/// of another name gives.
pub proof fn lemma_taken_after<T: Parser>(
    path: Seq<SegmentView>,
    source: JsonView,
    gone: Seq<char>,
    field: Seq<char>,
)
    requires
        gone != field,
    ensures
        taken::<T>(path, source.without(gone), field) == taken::<T>(path, source, field),
        taken_opt::<T>(path, source.without(gone), field) == taken_opt::<T>(path, source, field),
{
    lemma_without_keeps(source, gone, field);
}

/// Takes the member `field` out of `source` and decodes it. Where
/// `source` has no such member, nothing is taken and nothing is
/// decoded.
pub fn take_opt<T: Parser>(path: &Path, source: &mut JSON, field: &str) -> (r: Option<
    Result<T, ParseError>,
>)
    ensures
        outcome_opt(r) == taken_opt::<T>(path@, old(source)@, field@),
        final(source)@ == old(source)@.without(field@),
{
    match source.take_field(field) {
        Some(value) => Some(T::parse(path, value)),
        None => None,
    }
}

/// Takes the member `field` out of `source` and decodes it. Where
/// `source` has no such member, the member is reported as missing.
pub fn take<T: Parser>(path: &Path, source: &mut JSON, field: &str) -> (r: Result<T, ParseError>)
    ensures
        outcome(r) == taken::<T>(path@, old(source)@, field@),
        final(source)@ == old(source)@.without(field@),
{
    match source.take_field(field) {
        Some(value) => T::parse(path, value),
        None => Err(ParseError::missing_field(field, path)),
    }
}

impl Parser for bool {
    open spec fn described() -> Seq<char> {
        "bool"@
    }

    open spec fn decoded(path: Seq<SegmentView>, source: JsonView) -> Result<bool, ParseErrorView> {
        match source {
            JsonView::Bool(b) => Ok(b),
            _ => Err(
                ParseErrorView::TypeError { name: "bool"@, at: path, expected: "boolean"@ },
            ),
        }
    }

    fn description() -> (text: String) {
        "bool".to_owned()
    }

    fn parse(path: &Path, source: JSON) -> (r: Result<Self, ParseError>) {
        match source {
            JSON::Bool(b) => Ok(b),
            _ => Err(ParseError::type_error("bool", path, "boolean")),
        }
    }
}

impl DeepView for Number {
    type V = Number;

    open spec fn deep_view(&self) -> Number {
        *self
    }
}

impl Parser for Number {
    open spec fn described() -> Seq<char> {
        "Number"@
    }

    open spec fn decoded(path: Seq<SegmentView>, source: JsonView) -> Result<
        Number,
        ParseErrorView,
    > {
        match source {
            JsonView::Number(n) => Ok(n),
            _ => Err(
                ParseErrorView::TypeError { name: "Number"@, at: path, expected: "number"@ },
            ),
        }
    }

    fn description() -> (text: String) {
        "Number".to_owned()
    }

    fn parse(path: &Path, source: JSON) -> (r: Result<Self, ParseError>) {
        match source {
            JSON::Number(n) => Ok(n),
            _ => Err(ParseError::type_error("Number", path, "number")),
        }
    }
}

impl Parser for u8 {
    open spec fn described() -> Seq<char> {
        "byte"@
    }

    open spec fn decoded(path: Seq<SegmentView>, source: JsonView) -> Result<u8, ParseErrorView> {
        match source {
            JsonView::Number(n) => match n.as_u64() {
                Some(v) => if v <= 255 {
                    Ok(v as u8)
                } else {
                    Err(
                        ParseErrorView::TypeError {
                            name: "byte"@,
                            at: path,
                            expected: "an integer in [0, 255]"@,
                        },
                    )
                },
                None => Err(
                    ParseErrorView::TypeError {
                        name: "byte"@,
                        at: path,
                        expected: "an integer in [0, 255]"@,
                    },
                ),
            },
            _ => Err(
                ParseErrorView::TypeError {
                    name: "byte"@,
                    at: path,
                    expected: "an integer in [0, 255]"@,
                },
            ),
        }
    }

    fn description() -> (text: String) {
        "byte".to_owned()
    }

    fn parse(path: &Path, source: JSON) -> (r: Result<Self, ParseError>) {
        if let JSON::Number(n) = source {
            if let Some(v) = n.to_u64() {
                if v <= 255 {
                    return Ok(v as u8);
                }
            }
        }
        Err(ParseError::type_error("byte", path, "an integer in [0, 255]"))
    }
}

impl Parser for String {
    open spec fn described() -> Seq<char> {
        "String"@
    }

    open spec fn decoded(path: Seq<SegmentView>, source: JsonView) -> Result<
        Seq<char>,
        ParseErrorView,
    > {
        match source {
            JsonView::String(s) => Ok(s),
            _ => Err(
                ParseErrorView::TypeError { name: "String"@, at: path, expected: "string"@ },
            ),
        }
    }

    fn description() -> (text: String) {
        "String".to_owned()
    }

    fn parse(path: &Path, source: JSON) -> (r: Result<Self, ParseError>) {
        match source {
            JSON::String(s) => Ok(s),
            _ => Err(ParseError::type_error("String", path, "string")),
        }
    }
}

impl<K> Parser for Id<K> {
    open spec fn described() -> Seq<char> {
        "Id"@
    }

    open spec fn decoded(path: Seq<SegmentView>, source: JsonView) -> Result<
        Seq<char>,
        ParseErrorView,
    > {
        match source {
            JsonView::String(s) => Ok(s),
            _ => Err(ParseErrorView::TypeError { name: "Id"@, at: path, expected: "string"@ }),
        }
    }

    fn description() -> (text: String) {
        "Id".to_owned()
    }

    fn parse(path: &Path, source: JSON) -> (r: Result<Self, ParseError>) {
        match source {
            JSON::String(s) => Ok(Id::from_string(s)),
            _ => Err(ParseError::type_error("Id", path, "string")),
        }
    }
}

/// What decoding the first `count` of `items` gives: the first failure,
/// or the values in their order.
pub open spec fn decoded_items<T: Parser>(
    path: Seq<SegmentView>,
    items: Seq<JsonView>,
    count: nat,
) -> Result<Seq<<T as DeepView>::V>, ParseErrorView>
    decreases count,
{
    if count == 0 {
        Ok(Seq::empty())
    } else {
        match decoded_items::<T>(path, items, (count - 1) as nat) {
            Err(error) => Err(error),
            Ok(values) => match T::decoded(
                path.push(SegmentView::Index((count - 1) as usize)),
                items[count - 1],
            ) {
                Ok(value) => Ok(values.push(value)),
                Err(error) => Err(error),
            },
        }
    }
}

impl<T: Parser> Parser for Vec<T> {
    open spec fn described() -> Seq<char> {
        "Array<"@ + T::described() + ">"@
    }

    open spec fn decoded(path: Seq<SegmentView>, source: JsonView) -> Result<
        Seq<<T as DeepView>::V>,
        ParseErrorView,
    > {
        match source {
            JsonView::Array(items) => decoded_items::<T>(path, items, items.len()),
            _ => Err(ParseErrorView::TypeError { name: "Array"@, at: path, expected: "array"@ }),
        }
    }

    fn description() -> (text: String) {
        let mut text = "Array<".to_owned();
        let inner = T::description();
        text.append(inner.as_str());
        text.append(">");
        text
    }

    #[verifier::loop_isolation(false)]
    fn parse(path: &Path, source: JSON) -> (r: Result<Self, ParseError>) {
        let ghost node = source@;
        match source {
            JSON::Array(mut items) => {
                proof {
                    lemma_array_view(items);
                }
                let ghost views = item_views(items@);
                let mut values: Vec<T> = Vec::new();
                let total = items.len();
                let mut rest: Vec<JSON> = Vec::new();
                // The items are taken from the back, so turn them round first.
                while items.len() > 0
                    invariant
                        items.len() + rest.len() == total,
                        views.len() == total,
                        forall|j: int|
                            0 <= j < items.len() ==> (#[trigger] items@[j])@ == views[j],
                        forall|j: int|
                            0 <= j < rest.len() ==> (#[trigger] rest@[j])@ == views[total - 1
                                - j],
                    decreases items.len(),
                {
                    let item = items.pop().unwrap();
                    rest.push(item);
                }
                let mut i: usize = 0;
                assert(values.deep_view() =~= Seq::<<T as DeepView>::V>::empty());
                while i < total
                    invariant
                        i <= total,
                        rest.len() == total - i,
                        views.len() == total,
                        node == JsonView::Array(views),
                        Self::decoded(path@, node) == decoded_items::<T>(path@, views, total as nat),
                        forall|j: int|
                            0 <= j < rest.len() ==> (#[trigger] rest@[j])@ == views[total - 1
                                - j],
                        decoded_items::<T>(path@, views, i as nat) == Ok::<
                            Seq<<T as DeepView>::V>,
                            ParseErrorView,
                        >(values.deep_view()),
                    decreases total - i,
                {
                    let item = rest.pop().unwrap();
                    let ghost before = values.deep_view();
                    assert(item@ == views[i as int]);
                    match T::parse(&path.push_index(i), item) {
                        Ok(value) => {
                            values.push(value);
                            assert(values.deep_view() =~= before.push(value.deep_view()));
                        },
                        Err(error) => {
                            proof {
                                assert(decoded_items::<T>(path@, views, (i + 1) as nat) == Err::<
                                    Seq<<T as DeepView>::V>,
                                    ParseErrorView,
                                >(error@));
                                lemma_decoded_items_fails::<T>(
                                    path@,
                                    views,
                                    (i + 1) as nat,
                                    total as nat,
                                );
                            }
                            return Err(error);
                        },
                    }
                    i = i + 1;
                }
                Ok(values)
            },
            _ => Err(ParseError::type_error("Array", path, "array")),
        }
    }
}

/// Once the decoding of a first part of the items has failed, so has the
/// decoding of every longer part, with the same error.
pub proof fn lemma_decoded_items_fails<T: Parser>(
    path: Seq<SegmentView>,
    items: Seq<JsonView>,
    count: nat,
    more: nat,
)
    requires
        count <= more,
        decoded_items::<T>(path, items, count) is Err,
    ensures
        decoded_items::<T>(path, items, more) == decoded_items::<T>(path, items, count),
    decreases more,
{
    if count < more {
        lemma_decoded_items_fails::<T>(path, items, count, (more - 1) as nat);
    }
}

} // verus!
