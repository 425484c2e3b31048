//! Time as plain numbers: spans, monotonic readings and calendar stamps.

use crate::text;
use crate::text::{decimal_text, digit};
use vstd::prelude::*;
use vstd::string::*;

verus! {

/// Nanoseconds in one second.
pub const NANOS_PER_SEC: u128 = 1_000_000_000;

/// Nanoseconds in one millisecond.
pub const NANOS_PER_MILLI: u128 = 1_000_000;

/// Nanoseconds in one microsecond.
pub const NANOS_PER_MICRO: u128 = 1_000;

/// A span of time.
#[derive(Clone, Copy, Debug, PartialEq, Eq, Structural)]
pub struct Duration {
    /// Its length in nanoseconds.
    pub nanos: u128,
}

impl Duration {
    /// A span of `secs` seconds.
    pub fn from_secs(secs: u64) -> (r: Self)
        ensures
            r.nanos == secs * 1_000_000_000,
    {
        Duration { nanos: secs as u128 * NANOS_PER_SEC }
    }

    /// A span of `millis` milliseconds.
    pub fn from_millis(millis: u64) -> (r: Self)
        ensures
            r.nanos == millis * 1_000_000,
    {
        Duration { nanos: millis as u128 * NANOS_PER_MILLI }
    }

    /// A span of `micros` microseconds.
    pub fn from_micros(micros: u64) -> (r: Self)
        ensures
            r.nanos == micros * 1_000,
    {
        Duration { nanos: micros as u128 * NANOS_PER_MICRO }
    }

    /// A span of `nanos` nanoseconds.
    pub fn from_nanos(nanos: u64) -> (r: Self)
        ensures
            r.nanos == nanos,
    {
        Duration { nanos: nanos as u128 }
    }

    /// The whole seconds of the span.
    pub fn as_secs(&self) -> (r: u128)
        ensures
            r == self.nanos / 1_000_000_000,
    {
        self.nanos / NANOS_PER_SEC
    }

    /// The whole milliseconds of the span.
    pub fn as_millis(&self) -> (r: u128)
        ensures
            r == self.nanos / 1_000_000,
    {
        self.nanos / NANOS_PER_MILLI
    }

    /// The whole microseconds of the span.
    pub fn as_micros(&self) -> (r: u128)
        ensures
            r == self.nanos / 1_000,
    {
        self.nanos / NANOS_PER_MICRO
    }

    /// The length of the span in nanoseconds.
    pub fn as_nanos(&self) -> (r: u128)
        ensures
            r == self.nanos,
    {
        self.nanos
    }
}

/// The last `width` decimal digits of `n`, with leading zeros.
pub open spec fn padded(n: nat, width: nat) -> Seq<char>
    decreases width,
{
    if width == 0 {
        Seq::empty()
    } else {
        padded(n / 10, (width - 1) as nat).push(text::digit_char(n % 10))
    }
}

/// A decimal point and the digits of a fraction of `width` digits, without
/// trailing zeros; nothing for zero.
pub open spec fn fraction(n: nat, width: nat) -> Seq<char>
    decreases n,
{
    if n == 0 {
        Seq::empty()
    } else if n % 10 == 0 && width > 0 {
        fraction(n / 10, (width - 1) as nat)
    } else {
        seq!['.'] + padded(n, width)
    }
}

/// A span in the largest unit that leaves a whole part, such as `1.5ms`.
pub open spec fn readable(nanos: nat) -> Seq<char> {
    if nanos >= 1_000_000_000 {
        text::decimal(nanos / 1_000_000_000) + fraction(nanos % 1_000_000_000, 9) + "s"@
    } else if nanos >= 1_000_000 {
        text::decimal(nanos / 1_000_000) + fraction(nanos % 1_000_000, 6) + "ms"@
    } else if nanos >= 1_000 {
        text::decimal(nanos / 1_000) + fraction(nanos % 1_000, 3) + "µs"@
    } else {
        text::decimal(nanos) + "ns"@
    }
}

/// The last `width` decimal digits of `n`, with leading zeros.
fn padded_text(n: u128, width: u32) -> (r: String)
    ensures
        r@ == padded(n as nat, width as nat),
    decreases width,
{
    if width == 0 {
        let r = String::new();
        assert(r@ =~= Seq::<char>::empty());
        r
    } else {
        let mut r = padded_text(n / 10, width - 1);
        r.push(digit(n % 10));
        r
    }
}

/// A decimal point and the digits of a fraction without trailing zeros.
fn fraction_text(n: u128, width: u32) -> (r: String)
    ensures
        r@ == fraction(n as nat, width as nat),
    decreases n,
{
    if n == 0 {
        let r = String::new();
        assert(r@ =~= Seq::<char>::empty());
        r
    } else if n % 10 == 0 && width > 0 {
        fraction_text(n / 10, width - 1)
    } else {
        let mut r = String::new();
        r.push('.');
        assert(r@ =~= seq!['.']);
        let digits = padded_text(n, width);
        r.append(digits.as_str());
        r
    }
}

impl Duration {
    /// The span in the largest unit that leaves a whole part.
    pub fn readable_text(&self) -> (r: String)
        ensures
            r@ == readable(self.nanos as nat),
    {
        let n: u128 = self.nanos;
        if n >= 1_000_000_000 {
            Self::in_unit(n / 1_000_000_000, n % 1_000_000_000, 9, "s")
        } else if n >= 1_000_000 {
            Self::in_unit(n / 1_000_000, n % 1_000_000, 6, "ms")
        } else if n >= 1_000 {
            Self::in_unit(n / 1_000, n % 1_000, 3, "µs")
        } else {
            let r = Self::in_unit(n, 0, 0, "ns");
            assert(r@ =~= readable(n as nat));
            r
        }
    }

    /// A whole part, a fraction and a unit.
    fn in_unit(whole: u128, part: u128, width: u32, unit: &str) -> (r: String)
        ensures
            r@ == text::decimal(whole as nat) + fraction(part as nat, width as nat) + unit@,
    {
        let mut r = decimal_text(whole);
        let tail = fraction_text(part, width);
        r.append(tail.as_str());
        r.append(unit);
        r
    }
}

/// A reading of a monotonic clock.
#[derive(Clone, Copy, Debug, PartialEq, Eq, Structural)]
pub struct Instant {
    /// Nanoseconds since the clock's origin.
    pub nanos: u128,
}

/// The nanoseconds from `earlier` to `later`, zero when `later` comes first.
pub open spec fn elapsed_nanos(earlier: Instant, later: Instant) -> nat {
    if later.nanos >= earlier.nanos {
        (later.nanos - earlier.nanos) as nat
    } else {
        0
    }
}

impl Instant {
    /// The span from `earlier` to this reading, zero when `earlier` is later.
    pub fn duration_since(&self, earlier: Instant) -> (r: Duration)
        ensures
            r.nanos == elapsed_nanos(earlier, *self),
    {
        if self.nanos >= earlier.nanos {
            Duration { nanos: self.nanos - earlier.nanos }
        } else {
            Duration { nanos: 0 }
        }
    }
}

/// The standard library's monotonic reading, carried without looking inside.
#[verifier::external_type_specification]
#[verifier::external_body]
pub struct ExStdInstant(std::time::Instant);

/// Trusted: `std::time::Instant::now` reads the monotonic clock. Nothing is
/// claimed of the reading.
pub assume_specification[ std::time::Instant::now ]() -> std::time::Instant;

/// Trusted: `std::time::Instant::elapsed` measures the time since a reading.
/// Nothing is claimed of the span, which depends on the machine.
pub assume_specification[ std::time::Instant::elapsed ](
    origin: &std::time::Instant,
) -> core::time::Duration;

/// Trusted: `Duration::as_nanos` converts a span to nanoseconds. The spans it
/// is applied to are unknown, and so is the number.
pub assume_specification[ core::time::Duration::as_nanos ](d: &core::time::Duration) -> u128;

/// A monotonic clock that counts from the moment it was made.
pub struct Clock {
    origin: std::time::Instant,
}

impl Clock {
    /// A clock whose origin is now.
    pub fn new() -> Self {
        Clock { origin: std::time::Instant::now() }
    }

    /// The present reading. Nothing is known of it: it depends on the machine.
    pub fn now(&self) -> (r: Instant) {
        Instant { nanos: self.origin.elapsed().as_nanos() }
    }
}

/// A moment in universal time.
#[derive(Clone, Copy, Debug, PartialEq, Eq, Structural)]
pub struct Timestamp {
    /// Seconds since the start of 1970.
    pub secs: i64,
    /// Nanoseconds into that second.
    pub nanos: u32,
}

impl Timestamp {
    /// Whether this moment comes before `other`.
    pub open spec fn before(self, other: Timestamp) -> bool {
        self.secs < other.secs || (self.secs == other.secs && self.nanos < other.nanos)
    }

    /// Whether this moment comes before `other`.
    pub fn is_before(&self, other: &Timestamp) -> (r: bool)
        ensures
            r == self.before(*other),
    {
        self.secs < other.secs || (self.secs == other.secs && self.nanos < other.nanos)
    }

    /// A number that grows with the moment.
    pub open spec fn moment(self) -> i128 {
        (self.secs * 0x1_0000_0000 + self.nanos) as i128
    }

    /// A number that grows with the moment.
    pub fn order_key(&self) -> (r: i128)
        ensures
            r == self.moment(),
    {
        self.secs as i128 * 0x1_0000_0000 + self.nanos as i128
    }

    /// The present moment. Nothing is known of it: it depends on the machine.
    pub fn now() -> (r: Timestamp) {
        let (secs, nanos) = utc_now();
        Timestamp { secs, nanos }
    }
}

/// The numbers of two moments are ordered as the moments are.
pub proof fn law_moments_are_ordered(a: Timestamp, b: Timestamp)
    ensures
        a.before(b) <==> a.moment() < b.moment(),
        a == b <==> a.moment() == b.moment(),
{
}

/// Trusted: `chrono::Utc::now`, split into whole seconds and the nanoseconds
/// of the running second. Nothing is claimed of the moment.
#[verifier::external_body]
fn utc_now() -> (i64, u32) {
    let t = chrono::Utc::now();
    (t.timestamp(), t.timestamp_subsec_nanos())
}

/// A fresh identifier.
///
/// Trusted: `uuid::Uuid::new_v4` draws a random identifier, which is written
/// in its hyphenated form of 36 characters. Nothing else is claimed of it.
#[verifier::external_body]
pub(crate) fn fresh_id() -> (r: String)
    ensures
        r@.len() == 36,
{
    uuid::Uuid::new_v4().to_string()
}

/// A fresh identifier for a record.
pub fn identifier() -> (r: String)
    ensures
        r@.len() == 36,
{
    fresh_id()
}

/// The calendar day of a moment, written as year, month and day; `None` for a
/// moment outside the calendar's range.
pub uninterp spec fn calendar_day(secs: i64, nanos: u32) -> Option<Seq<char>>;

/// The calendar day of a moment.
///
/// Trusted: `chrono::DateTime::format` with year, month and day. Its text is a
/// function of the moment alone; `from_timestamp` refuses moments outside the
/// calendar's range.
#[verifier::external_body]
fn day_text(secs: i64, nanos: u32) -> (r: Option<String>)
    ensures
        match r {
            Some(s) => calendar_day(secs, nanos) == Some(s@),
            None => calendar_day(secs, nanos) is None,
        },
{
    chrono::DateTime::from_timestamp(secs, nanos).map(|t| t.format("%Y-%m-%d").to_string())
}

impl Timestamp {
    /// The calendar day of the moment; empty for a moment outside the
    /// calendar's range.
    pub open spec fn day(self) -> Seq<char> {
        match calendar_day(self.secs, self.nanos) {
            Some(d) => d,
            None => Seq::empty(),
        }
    }

    /// The calendar day of the moment.
    pub fn day_label(&self) -> (r: String)
        ensures
            r@ == self.day(),
    {
        match day_text(self.secs, self.nanos) {
            Some(s) => s,
            None => String::new(),
        }
    }
}

/// The moment that an RFC 3339 text denotes, in seconds and nanoseconds of
/// universal time.
pub uninterp spec fn rfc3339_moment(s: Seq<char>) -> Option<(i64, u32)>;

/// The RFC 3339 text of a moment in universal time.
pub uninterp spec fn rfc3339_text(secs: i64, nanos: u32) -> Option<Seq<char>>;

/// Whether a moment lies in the years 0 to 9999, which RFC 3339 can write.
pub open spec fn four_digit_year(secs: i64, nanos: u32) -> bool {
    -62_167_219_200 <= secs <= 253_402_300_799 && nanos < 1_000_000_000
}

/// The moment that an RFC 3339 text denotes.
///
/// Trusted: `chrono::DateTime::parse_from_rfc3339`, whose result is a function
/// of the text alone.
#[verifier::external_body]
fn parse_moment(s: &str) -> (r: Option<(i64, u32)>)
    ensures
        r == rfc3339_moment(s@),
{
    let parsed = chrono::DateTime::parse_from_rfc3339(s).ok();
    parsed.map(|t| (t.timestamp(), t.timestamp_subsec_nanos()))
}

/// The RFC 3339 text of a moment.
///
/// Trusted: `chrono::DateTime::to_rfc3339`, whose text is a function of the
/// moment alone. Moments of the years 0 to 9999 have a text, which is read
/// back as the same moment.
#[verifier::external_body]
fn write_moment(secs: i64, nanos: u32) -> (r: Option<String>)
    ensures
        match r {
            Some(s) => rfc3339_text(secs, nanos) == Some(s@),
            None => rfc3339_text(secs, nanos) is None,
        },
        four_digit_year(secs, nanos) ==> r is Some && rfc3339_moment(r->0@) == Some(
            (secs, nanos),
        ),
{
    chrono::DateTime::from_timestamp(secs, nanos).map(|t| t.to_rfc3339())
}

impl Timestamp {
    /// The moment that an RFC 3339 text denotes.
    pub open spec fn parsed(s: Seq<char>) -> Option<Timestamp> {
        match rfc3339_moment(s) {
            Some((secs, nanos)) => Some(Timestamp { secs, nanos }),
            None => None,
        }
    }

    /// The moment that an RFC 3339 text denotes.
    pub fn parse_rfc3339(s: &str) -> (r: Option<Timestamp>)
        ensures
            r == Self::parsed(s@),
    {
        match parse_moment(s) {
            Some((secs, nanos)) => Some(Timestamp { secs, nanos }),
            None => None,
        }
    }

    /// The RFC 3339 text of the moment; empty for a moment outside the
    /// calendar's range.
    pub open spec fn rfc3339(self) -> Seq<char> {
        match rfc3339_text(self.secs, self.nanos) {
            Some(s) => s,
            None => Seq::empty(),
        }
    }

    /// The RFC 3339 text of the moment. Moments of the years 0 to 9999 are read
    /// back exactly.
    pub fn to_rfc3339(&self) -> (r: String)
        ensures
            r@ == self.rfc3339(),
            four_digit_year(self.secs, self.nanos) ==> Self::parsed(r@) == Some(*self),
    {
        match write_moment(self.secs, self.nanos) {
            Some(s) => s,
            None => String::new(),
        }
    }
}

/// What has elapsed between two readings is their difference, and never less
/// than nothing.
pub proof fn law_elapsed_is_the_difference(a: Instant, b: Instant)
    ensures
        a.nanos <= b.nanos ==> elapsed_nanos(a, b) == b.nanos - a.nanos,
        b.nanos <= a.nanos ==> elapsed_nanos(a, b) == 0,
{
}

/// A span is written in the largest unit of which it holds one: seconds,
/// milliseconds, microseconds or nanoseconds. A whole number of units has no
/// fraction.
pub proof fn law_span_is_written_in_its_unit(n: nat)
    requires
        0 < n < 1_000,
    ensures
        readable(n) == text::decimal(n) + "ns"@,
        readable(n * 1_000) == text::decimal(n) + "µs"@,
        readable(n * 1_000_000) == text::decimal(n) + "ms"@,
        readable(n * 1_000_000_000) == text::decimal(n) + "s"@,
{
    assert(text::decimal(n) + Seq::<char>::empty() =~= text::decimal(n));
    assert(fraction(0, 3) == Seq::<char>::empty());
}

/// The years with four digits begin with the year 0 and end with the year 9999: the
/// seconds on either side of them are outside.
pub proof fn law_four_digit_years(secs: i64, nanos: u32)
    ensures
        secs == -62_167_219_200 ==> four_digit_year(secs, 0),
        secs < -62_167_219_200 ==> !four_digit_year(secs, nanos),
        four_digit_year(253_402_300_799, 999_999_999),
        !four_digit_year(253_402_300_800, nanos),
        nanos >= 1_000_000_000 ==> !four_digit_year(secs, nanos),
        0 <= secs <= 253_402_300_799 && nanos < 1_000_000_000 ==> four_digit_year(secs, nanos),
{
}

} // verus!
