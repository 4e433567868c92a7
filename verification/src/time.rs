//! Points in time, and their rendering by `chrono`.

use crate::text::opt_view;
use std::fmt::Write;
use vstd::prelude::*;

verus! {

/// A point in time: whole seconds since the Unix epoch in UTC, and the
/// nanoseconds into that second.
#[derive(Clone, Copy, Debug, PartialEq, Eq, PartialOrd, Ord, Hash, Structural)]
pub struct Timestamp {
    pub seconds: i64,
    pub nanos: u32,
}

/// What `chrono` writes for the moment `nanos` nanoseconds into the second
/// `seconds` after the Unix epoch in UTC, under the `strftime` pattern
/// `format`. `None` where `chrono` has no such moment or the pattern cannot
/// be rendered.
pub uninterp spec fn formatted_time(seconds: int, nanos: int, format: Seq<char>) -> Option<
    Seq<char>,
>;

/// `DateTime::<Utc>::from_timestamp`, then `DateTime::format` with
/// `format`, written into a string. The result depends on the three
/// arguments alone: UTC has no time zone rules and no locale is involved.
#[verifier::external_body]
pub(crate) fn format_time(seconds: i64, nanos: u32, format: &str) -> (r: Option<String>)
    ensures
        opt_view(r) == formatted_time(seconds as int, nanos as int, format@),
{
    let moment = chrono::DateTime::<chrono::Utc>::from_timestamp(seconds, nanos)?;
    let mut out = String::new();
    match write!(out, "{}", moment.format(format)) {
        Ok(()) => Some(out),
        Err(_) => None,
    }
}

impl Timestamp {
    /// Strictly earlier than `other`.
    pub open spec fn before(self, other: Timestamp) -> bool {
        self.seconds < other.seconds || (self.seconds == other.seconds && self.nanos
            < other.nanos)
    }

    /// Earlier than `other`, or the same moment.
    pub open spec fn at_or_before(self, other: Timestamp) -> bool {
        !other.before(self)
    }

    pub fn is_before(&self, other: &Timestamp) -> (r: bool)
        ensures
            r == self.before(*other),
    {
        self.seconds < other.seconds || (self.seconds == other.seconds && self.nanos
            < other.nanos)
    }

    pub fn is_at_or_before(&self, other: &Timestamp) -> (r: bool)
        ensures
            r == self.at_or_before(*other),
    {
        !other.is_before(self)
    }

    /// The millisecond that the moment lies in: its second, and the whole
    /// milliseconds into it.
    pub open spec fn millisecond(self) -> (int, int) {
        (self.seconds as int, self.nanos as int / 1_000_000)
    }

    /// The start of the millisecond that the moment lies in.
    pub open spec fn spec_to_millisecond(self) -> Timestamp {
        Timestamp { seconds: self.seconds, nanos: ((self.nanos / 1_000_000) * 1_000_000) as u32 }
    }

    #[verifier::when_used_as_spec(spec_to_millisecond)]
    pub fn to_millisecond(self) -> (r: Timestamp)
        ensures
            r == self.spec_to_millisecond(),
            r.millisecond() == self.millisecond(),
    {
        Timestamp { seconds: self.seconds, nanos: (self.nanos / 1_000_000) * 1_000_000 }
    }
}

} // verus!
