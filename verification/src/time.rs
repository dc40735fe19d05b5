//! Instants, as the calendar library reads and writes them.
use crate::json::{JsonView, JSON};
use crate::number::{clamp_i64, magnitude_of, Number, Sign};
use crate::parse::{ParseError, ParseErrorView, Parser, Path, SegmentView};
use crate::serialize::{BinaryParts, PartView, ToJSON};
use chrono::DateTime;
use vstd::prelude::*;

verus! {

/// The first second that the calendar library can hold: the beginning
/// of the year -262143.
pub const MIN_SECONDS: i64 = -8_334_601_228_800;

/// The last second that the calendar library can hold: the end of the
/// year 262142.
pub const MAX_SECONDS: i64 = 8_210_266_876_799;

/// Whether the calendar library can hold the instant `nanos`
/// nanoseconds after the second `secs` of the Unix epoch. A count of a
/// thousand million nanoseconds or more stands for a leap second, and
/// only the last second of a minute can be followed by one.
pub open spec fn representable(secs: i64, nanos: u32) -> bool {
    &&& MIN_SECONDS <= secs <= MAX_SECONDS
    &&& (nanos < 1_000_000_000 || (nanos < 2_000_000_000 && secs as int % 60 == 59))
}

/// The instant that the date string `text` names, as
/// `DateTime::parse_from_rfc3339` of chrono reads it: the seconds since
/// the Unix epoch and the nanoseconds after them. There is none where
/// the text is no date string of RFC 3339.
pub uninterp spec fn rfc3339_instant(text: Seq<char>) -> Option<(i64, u32)>;

/// The date string of RFC 3339 for an instant, as `DateTime::to_rfc3339`
/// of chrono writes it in universal time.
pub uninterp spec fn rfc3339_text(secs: i64, nanos: u32) -> Seq<char>;

/// `DateTime::parse_from_rfc3339` of chrono, followed by its
/// `timestamp` and `timestamp_subsec_nanos` on what was parsed. The
/// result depends on the text alone. An instant that chrono hands out is
/// one that it can hold: it lies between its `MIN_UTC` and `MAX_UTC`,
/// and it counts a leap second only after the last second of a minute.
#[verifier::external_body]
pub(crate) fn parse_instant(text: &str) -> (r: Option<(i64, u32)>)
    ensures
        r == rfc3339_instant(text@),
        r matches Some(instant) ==> representable(instant.0, instant.1),
{
    match DateTime::parse_from_rfc3339(text) {
        Ok(datetime) => Some((datetime.timestamp(), datetime.timestamp_subsec_nanos())),
        Err(_) => None,
    }
}

/// `DateTime::from_timestamp` of chrono, followed by its `to_rfc3339`.
/// The result depends on the instant alone. `from_timestamp` gives a
/// date for every instant that chrono can hold, and writing a date
/// does not fail.
#[verifier::external_body]
pub(crate) fn format_instant(secs: i64, nanos: u32) -> (text: String)
    requires
        representable(secs, nanos),
    ensures
        text@ == rfc3339_text(secs, nanos),
{
    match DateTime::from_timestamp(secs, nanos) {
        Some(datetime) => datetime.to_rfc3339(),
        None => String::new(),
    }
}

/// An absolute time and date: an instant, counted from the Unix epoch.
/// Every instant that is held is one that a calendar date stands for.
#[derive(Debug, Clone, Copy, PartialEq, Eq, Structural, Ord)]
pub struct TimeStamp {
    secs: i64,
    nanos: u32,
}

impl DeepView for TimeStamp {
    type V = TimeStamp;

    open spec fn deep_view(&self) -> TimeStamp {
        *self
    }
}

impl TimeStamp {
    #[verifier::type_invariant]
    spec fn held(self) -> bool {
        representable(self.secs, self.nanos)
    }

    /// The instant `nanos` nanoseconds after the second `secs` of the
    /// Unix epoch.
    pub closed spec fn at(secs: i64, nanos: u32) -> TimeStamp {
        TimeStamp { secs, nanos }
    }

    /// The whole seconds since the Unix epoch.
    pub closed spec fn seconds(self) -> i64 {
        self.secs
    }

    /// The nanoseconds since the last whole second.
    pub closed spec fn nanoseconds(self) -> u32 {
        self.nanos
    }

    /// Whether the instant is one that a calendar date stands for.
    pub open spec fn wf(self) -> bool {
        representable(self.seconds(), self.nanoseconds())
    }

    /// Whether the date string that is written for the instant is read
    /// as the same instant again.
    pub open spec fn reads_back(self) -> bool {
        rfc3339_instant(rfc3339_text(self.seconds(), self.nanoseconds())) == Some(
            (self.seconds(), self.nanoseconds()),
        )
    }

    /// An instant has the seconds and the nanoseconds that it was made
    /// of.
    pub proof fn lemma_parts(secs: i64, nanos: u32)
        ensures
            Self::at(secs, nanos).seconds() == secs,
            Self::at(secs, nanos).nanoseconds() == nanos,
    {
    }

    /// An instant is known by its seconds and its nanoseconds.
    pub proof fn lemma_whole(self)
        ensures
            Self::at(self.seconds(), self.nanoseconds()) == self,
    {
    }

    /// The instant `s` seconds after the Unix epoch.
    pub fn from_s(s: i64) -> (r: TimeStamp)
        requires
            MIN_SECONDS <= s <= MAX_SECONDS,
        ensures
            r == Self::at(s, 0),
    {
        TimeStamp { secs: s, nanos: 0 }
    }

    /// The instant `nanos` nanoseconds after the second `secs` of the
    /// Unix epoch, if a calendar date stands for it.
    pub fn new(secs: i64, nanos: u32) -> (r: Option<TimeStamp>)
        ensures
            r == if representable(secs, nanos) {
                Some(Self::at(secs, nanos))
            } else {
                None
            },
    {
        if secs < MIN_SECONDS || secs > MAX_SECONDS {
            return None;
        }
        if nanos >= 2_000_000_000 {
            return None;
        }
        // The first second is the first of a minute, so the seconds from it
        // on tell the place in the minute.
        let since_first = secs - MIN_SECONDS;
        assert(since_first as int % 60 == secs as int % 60) by {
            assert(MIN_SECONDS == -138_910_020_480 * 60);
            vstd::arithmetic::div_mod::lemma_mod_multiples_vanish(
                138_910_020_480,
                secs as int,
                60,
            );
        }
        if nanos >= 1_000_000_000 && since_first % 60 != 59 {
            return None;
        }
        Some(TimeStamp { secs, nanos })
    }

    pub fn secs(&self) -> (s: i64)
        ensures
            s == self.seconds(),
            self.wf(),
    {
        proof {
            use_type_invariant(self);
        }
        self.secs
    }

    pub fn nanos(&self) -> (n: u32)
        ensures
            n == self.nanoseconds(),
            self.wf(),
    {
        proof {
            use_type_invariant(self);
        }
        self.nanos
    }

    /// What the reading of a date string comes to: the instant that was
    /// read, or the report that `path` does not lead to a date string.
    pub open spec fn read(path: Seq<SegmentView>, instant: Option<(i64, u32)>) -> Result<
        TimeStamp,
        ParseErrorView,
    > {
        match instant {
            Some(instant) => Ok(Self::at(instant.0, instant.1)),
            None => Err(
                ParseErrorView::TypeError {
                    name: "TimeStamp"@,
                    at: path,
                    expected: "date string"@,
                },
            ),
        }
    }

    /// Makes a timestamp of what the reading of a date string gave.
    pub fn from_parsed(path: &Path, instant: Option<(i64, u32)>) -> (r: Result<
        TimeStamp,
        ParseError,
    >)
        requires
            instant matches Some(found) ==> representable(found.0, found.1),
        ensures
            crate::parse::outcome(r) == Self::read(path@, instant),
    {
        match instant {
            Some((secs, nanos)) => Ok(TimeStamp { secs, nanos }),
            None => Err(ParseError::type_error("TimeStamp", path, "date string")),
        }
    }

    /// Whether the date string that is written for the instant is read
    /// as the same instant again. The string is written and read, and
    /// what was read is held against the instant.
    pub fn is_read_back(&self) -> (ok: bool)
        ensures
            ok == self.reads_back(),
    {
        proof {
            use_type_invariant(self);
        }
        let text = format_instant(self.secs, self.nanos);
        match parse_instant(text.as_str()) {
            Some((secs, nanos)) => secs == self.secs && nanos == self.nanos,
            None => false,
        }
    }

    /// How this instant stands to `other`: before, at or after it.
    pub fn sign_against(&self, other: &TimeStamp) -> (s: Sign)
        ensures
            s == instant_sign(*self, *other),
    {
        if self.secs < other.secs {
            Sign::Negative
        } else if self.secs > other.secs {
            Sign::Positive
        } else if self.nanos < other.nanos {
            Sign::Negative
        } else if self.nanos > other.nanos {
            Sign::Positive
        } else {
            Sign::Zero
        }
    }
}

/// How the instant `a` stands to the instant `b`.
pub open spec fn instant_sign(a: TimeStamp, b: TimeStamp) -> Sign {
    if a.seconds() < b.seconds() {
        Sign::Negative
    } else if a.seconds() > b.seconds() {
        Sign::Positive
    } else if a.nanoseconds() < b.nanoseconds() {
        Sign::Negative
    } else if a.nanoseconds() > b.nanoseconds() {
        Sign::Positive
    } else {
        Sign::Zero
    }
}

impl Parser for TimeStamp {
    open spec fn described() -> Seq<char> {
        "TimeStamp"@
    }

    open spec fn decoded(path: Seq<SegmentView>, source: JsonView) -> Result<
        TimeStamp,
        ParseErrorView,
    > {
        match source {
            JsonView::String(text) => Self::read(path, rfc3339_instant(text)),
            _ => Self::read(path, None),
        }
    }

    fn description() -> (text: String) {
        "TimeStamp".to_owned()
    }

    fn parse(path: &Path, source: JSON) -> (r: Result<Self, ParseError>) {
        match source.as_string() {
            Some(text) => Self::from_parsed(path, parse_instant(text)),
            None => Self::from_parsed(path, None),
        }
    }
}

impl ToJSON for TimeStamp {
    open spec fn encoded(&self, before: nat) -> JsonView {
        JsonView::String(rfc3339_text(self.seconds(), self.nanoseconds()))
    }

    open spec fn pushed(&self) -> Seq<PartView> {
        Seq::empty()
    }

    fn to_json<P: BinaryParts>(&self, parts: &mut P) -> (json: JSON) {
        proof {
            use_type_invariant(self);
        }
        assert(parts.parts() + Seq::<PartView>::empty() =~= parts.parts());
        JSON::String(format_instant(self.secs, self.nanos))
    }
}

/// A duration, also used to represent a time of day. It is counted in
/// whole milliseconds.
#[derive(Debug, Clone, Copy, PartialEq, Eq, Structural, Ord)]
pub struct Duration {
    millis: i64,
}

impl DeepView for Duration {
    type V = Duration;

    open spec fn deep_view(&self) -> Duration {
        *self
    }
}

impl Duration {
    /// The duration of `millis` milliseconds.
    pub closed spec fn of(millis: i64) -> Duration {
        Duration { millis }
    }

    pub closed spec fn milliseconds(self) -> i64 {
        self.millis
    }

    /// A duration has the milliseconds that it was made of.
    pub proof fn lemma_parts(millis: i64)
        ensures
            Self::of(millis).milliseconds() == millis,
    {
    }

    /// A duration is known by its milliseconds.
    pub proof fn lemma_whole(self)
        ensures
            Self::of(self.milliseconds()) == self,
    {
    }

    pub fn from_millis(millis: i64) -> (r: Duration)
        ensures
            r == Self::of(millis),
    {
        Duration { millis }
    }

    pub fn num_milliseconds(&self) -> (millis: i64)
        ensures
            millis == self.milliseconds(),
    {
        self.millis
    }

    /// How this duration stands to `other`: shorter, as long or longer.
    pub fn sign_against(&self, other: &Duration) -> (s: Sign)
        ensures
            s == span_sign(*self, *other),
    {
        if self.millis < other.millis {
            Sign::Negative
        } else if self.millis > other.millis {
            Sign::Positive
        } else {
            Sign::Zero
        }
    }
}

/// How the duration `a` stands to the duration `b`.
pub open spec fn span_sign(a: Duration, b: Duration) -> Sign {
    if a.milliseconds() < b.milliseconds() {
        Sign::Negative
    } else if a.milliseconds() > b.milliseconds() {
        Sign::Positive
    } else {
        Sign::Zero
    }
}

/// A duration is a number of seconds on the wire. What is less than a
/// millisecond is cut off, and a number of seconds beyond what can be
/// counted becomes the longest duration of its sign.
impl Parser for Duration {
    open spec fn described() -> Seq<char> {
        "Duration"@
    }

    open spec fn decoded(path: Seq<SegmentView>, source: JsonView) -> Result<
        Duration,
        ParseErrorView,
    > {
        match Number::decoded(path, source) {
            Ok(seconds) => Ok(Self::of(clamp_i64(seconds.thousandths()))),
            Err(error) => Err(error),
        }
    }

    fn description() -> (text: String) {
        "Duration".to_owned()
    }

    fn parse(path: &Path, source: JSON) -> (r: Result<Self, ParseError>) {
        match Number::parse(path, source) {
            Ok(seconds) => Ok(Duration { millis: seconds.to_thousandths() }),
            Err(error) => Err(error),
        }
    }
}

impl ToJSON for Duration {
    open spec fn encoded(&self, before: nat) -> JsonView {
        JsonView::Number(
            Number {
                negative: self.milliseconds() < 0,
                digits: magnitude_of(self.milliseconds()),
                exponent: -3i32,
            },
        )
    }

    open spec fn pushed(&self) -> Seq<PartView> {
        Seq::empty()
    }

    fn to_json<P: BinaryParts>(&self, parts: &mut P) -> (json: JSON) {
        assert(parts.parts() + Seq::<PartView>::empty() =~= parts.parts());
        JSON::Number(Number::from_millis(self.millis))
    }
}

} // verus!
