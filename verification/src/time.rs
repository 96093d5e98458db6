//! Instants on the UTC time line, instants seen at an offset, and their text.

use vstd::prelude::*;
use crate::timedelta::TimeDeltaValue;
use crate::timezone::{valid_offset, TimezoneOffset};

verus! {

/// Nanoseconds in a second.
pub const NANOS_PER_SEC: u32 = 1_000_000_000;

/// Seconds from the epoch to the first representable instant, the start of the
/// year -262143.
pub const MIN_TIMESTAMP: i64 = -8_334_601_228_800;

/// Seconds from the epoch to the last representable second, the end of the
/// year 262142.
pub const MAX_TIMESTAMP: i64 = 8_210_266_876_799;

/// An instant, counted from 1970-01-01T00:00:00 UTC.
#[derive(Clone, Copy, Debug, PartialEq, Eq, Structural)]
pub struct Timestamp {
    secs: i64,
    nanos: u32,
}

/// An instant together with the offset at which it is shown.
#[derive(Clone, Copy, Debug, PartialEq, Eq, Structural)]
pub struct OffsetDateTime {
    /// The instant.
    pub utc: Timestamp,
    /// The offset of the wall clock that shows it.
    pub offset: TimezoneOffset,
}

/// Whether the instant `nanos` nanoseconds after the epoch is representable.
pub open spec fn instant_in_range(nanos: int) -> bool {
    MIN_TIMESTAMP * NANOS_PER_SEC <= nanos < (MAX_TIMESTAMP + 1) * NANOS_PER_SEC
}

/// The whole seconds in a span of `nanos` nanoseconds, rounded towards zero.
pub open spec fn whole_seconds(nanos: int) -> int {
    if nanos >= 0 {
        nanos / (NANOS_PER_SEC as int)
    } else {
        -((-nanos) / (NANOS_PER_SEC as int))
    }
}

/// An instant and the offset at which it is shown, as numbers.
pub ghost struct OffsetDateTimeView {
    /// Nanoseconds since the epoch.
    pub instant: int,
    /// Seconds east of UTC.
    pub offset: int,
}

/// The text of an instant at an offset in the RFC 3339 profile of ISO 8601, as
/// `chrono` writes it: `secs` whole seconds and `nanos` nanoseconds after the
/// epoch, shown `offset` seconds east of UTC.
pub uninterp spec fn rfc3339_text(secs: int, nanos: int, offset: int) -> Seq<char>;

/// The RFC 3339 text of the instant `instant` nanoseconds after the epoch,
/// shown `offset` seconds east of UTC.
pub open spec fn rfc3339_at(instant: int, offset: int) -> Seq<char> {
    rfc3339_text(
        instant / (NANOS_PER_SEC as int),
        instant % (NANOS_PER_SEC as int),
        offset,
    )
}

impl View for OffsetDateTime {
    type V = OffsetDateTimeView;

    open spec fn view(&self) -> OffsetDateTimeView {
        OffsetDateTimeView { instant: self.utc@, offset: self.offset@ }
    }
}

impl View for Timestamp {
    type V = int;

    /// Nanoseconds since the epoch.
    closed spec fn view(&self) -> int {
        self.secs * NANOS_PER_SEC + self.nanos
    }
}

impl Timestamp {
    /// The second is one that can be written, and the nanoseconds are less
    /// than a second.
    #[verifier::type_invariant]
    pub closed spec fn wf(self) -> bool {
        MIN_TIMESTAMP <= self.secs <= MAX_TIMESTAMP && self.nanos < NANOS_PER_SEC
    }

    /// Whole seconds since the epoch, rounded down.
    pub open spec fn spec_timestamp(self) -> int {
        self@ / (NANOS_PER_SEC as int)
    }

    /// Nanoseconds since the last whole second.
    pub open spec fn spec_subsec_nanos(self) -> int {
        self@ % (NANOS_PER_SEC as int)
    }

    /// A well-formed timestamp is an instant in range.
    pub proof fn lemma_in_range(self)
        requires
            self.wf(),
        ensures
            instant_in_range(self@),
    {
    }

    /// The instant `nsecs` nanoseconds after the second `secs`, where that is in
    /// range.
    pub fn from_timestamp(secs: i64, nsecs: u32) -> (r: Option<Timestamp>)
        ensures
            r is Some <==> MIN_TIMESTAMP <= secs <= MAX_TIMESTAMP && nsecs < NANOS_PER_SEC,
            r matches Some(t) ==> t@ == secs * NANOS_PER_SEC + nsecs && t.wf(),
    {
        if MIN_TIMESTAMP <= secs && secs <= MAX_TIMESTAMP && nsecs < NANOS_PER_SEC {
            Some(Timestamp { secs, nanos: nsecs })
        } else {
            None
        }
    }

    /// Whole seconds since the epoch, rounded down.
    pub fn timestamp(&self) -> (secs: i64)
        ensures
            secs == self.spec_timestamp(),
            MIN_TIMESTAMP <= secs <= MAX_TIMESTAMP,
    {
        proof {
            use_type_invariant(self);
        }
        self.secs
    }

    /// Nanoseconds since the last whole second.
    pub fn timestamp_subsec_nanos(&self) -> (nanos: u32)
        ensures
            nanos == self.spec_subsec_nanos(),
            nanos < NANOS_PER_SEC,
    {
        proof {
            use_type_invariant(self);
        }
        self.nanos
    }

    /// Whether this instant comes strictly before `other`.
    pub fn lt(&self, other: &Timestamp) -> (b: bool)
        ensures
            b == (self@ < other@),
    {
        proof {
            use_type_invariant(self);
            use_type_invariant(other);
        }
        self.secs < other.secs || (self.secs == other.secs && self.nanos < other.nanos)
    }

    /// Whether this instant comes before `other` or is the same.
    pub fn le(&self, other: &Timestamp) -> (b: bool)
        ensures
            b == (self@ <= other@),
    {
        proof {
            use_type_invariant(self);
            use_type_invariant(other);
        }
        self.secs < other.secs || (self.secs == other.secs && self.nanos <= other.nanos)
    }

    /// The whole seconds from `earlier` to this instant, rounded towards zero;
    /// negative where this instant comes first.
    pub fn whole_seconds_since(&self, earlier: &Timestamp) -> (secs: i64)
        ensures
            secs == whole_seconds(self@ - earlier@),
    {
        proof {
            use_type_invariant(self);
            use_type_invariant(earlier);
        }
        let d: i64 = self.secs - earlier.secs;
        if d > 0 && self.nanos < earlier.nanos {
            d - 1
        } else if d < 0 && self.nanos > earlier.nanos {
            d + 1
        } else {
            d
        }
    }

    /// This instant moved by `delta`, where that is still in range.
    pub fn checked_add_signed(&self, delta: &TimeDeltaValue) -> (r: Option<Timestamp>)
        ensures
            r is Some <==> instant_in_range(self@ + delta@ * NANOS_PER_SEC),
            r matches Some(t) ==> t@ == self@ + delta@ * NANOS_PER_SEC && t.wf(),
    {
        proof {
            use_type_invariant(self);
        }
        let secs: i64 = self.secs + delta.num_seconds();
        if MIN_TIMESTAMP <= secs && secs <= MAX_TIMESTAMP {
            Some(Timestamp { secs, nanos: self.nanos })
        } else {
            None
        }
    }
}

/// Calls `chrono::DateTime::to_rfc3339` on the instant `nanos` nanoseconds
/// after the second `secs`, seen at the offset `offset`. The result is taken
/// to depend on these three numbers alone; nothing else is claimed of it.
#[verifier::external_body]
fn format_rfc3339(secs: i64, nanos: u32, offset: i32) -> (text: String)
    requires
        MIN_TIMESTAMP <= secs <= MAX_TIMESTAMP,
        nanos < NANOS_PER_SEC,
        valid_offset(offset as int),
    ensures
        text@ == rfc3339_text(secs as int, nanos as int, offset as int),
{
    let utc = chrono::DateTime::from_timestamp(secs, nanos).unwrap();
    let zone = chrono::FixedOffset::east_opt(offset).unwrap();
    utc.with_timezone(&zone).to_rfc3339()
}

impl OffsetDateTime {
    /// The text of this instant at its offset, such as
    /// `2024-01-01T12:00:00+02:00`.
    pub fn to_rfc3339(&self) -> (text: String)
        ensures
            text@ == rfc3339_at(self@.instant, self@.offset),
    {
        format_rfc3339(
            self.utc.timestamp(),
            self.utc.timestamp_subsec_nanos(),
            self.offset.local_minus_utc(),
        )
    }
}

} // verus!
