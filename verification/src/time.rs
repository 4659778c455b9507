//! Time values: instants and spans, both in whole milliseconds.

use vstd::prelude::*;

verus! {

/// Milliseconds in one second.
pub const MILLIS_PER_SECOND: i64 = 1000;

/// Milliseconds in one minute.
pub const MILLIS_PER_MINUTE: i64 = 60000;

/// Milliseconds in one hour.
pub const MILLIS_PER_HOUR: i64 = 3600000;

/// Instants lie at most this many milliseconds from the Unix epoch, so that
/// the span between any two of them is a `Duration`.
pub const TIMESTAMP_LIMIT: i64 = 0x3FFF_FFFF_FFFF_FFFF;

/// A signed span of time in whole milliseconds.
#[derive(Clone, Copy, Debug, PartialEq, Eq, Structural)]
pub struct Duration {
    pub millis: i64,
}

/// Whether a number of milliseconds can be held by a `Duration`.
pub open spec fn representable(millis: int) -> bool {
    i64::MIN <= millis <= i64::MAX
}

impl Duration {
    /// The empty span.
    pub fn zero() -> (d: Duration)
        ensures
            d.millis == 0,
    {
        Duration { millis: 0 }
    }

    /// The longest span there is.
    pub fn max_value() -> (d: Duration)
        ensures
            d.millis == i64::MAX,
    {
        Duration { millis: i64::MAX }
    }

    /// A span of `millis` milliseconds.
    pub fn milliseconds(millis: i64) -> (d: Duration)
        ensures
            d.millis == millis,
    {
        Duration { millis }
    }

    /// A span of `seconds` seconds.
    pub fn seconds(seconds: i64) -> (d: Duration)
        requires
            representable(seconds * MILLIS_PER_SECOND),
        ensures
            d.millis == seconds * MILLIS_PER_SECOND,
    {
        Duration { millis: seconds * MILLIS_PER_SECOND }
    }

    /// A span of `minutes` minutes.
    pub fn minutes(minutes: i64) -> (d: Duration)
        requires
            representable(minutes * MILLIS_PER_MINUTE),
        ensures
            d.millis == minutes * MILLIS_PER_MINUTE,
    {
        Duration { millis: minutes * MILLIS_PER_MINUTE }
    }

    /// The span in milliseconds.
    pub fn num_milliseconds(&self) -> (millis: i64)
        ensures
            millis == self.millis,
    {
        self.millis
    }
}

/// An instant, in milliseconds since the Unix epoch.
#[derive(Clone, Copy, Debug, PartialEq, Eq, Structural)]
pub struct Timestamp {
    millis: i64,
}

impl Timestamp {
    #[verifier::type_invariant]
    spec fn within_limit(self) -> bool {
        -TIMESTAMP_LIMIT <= self.millis <= TIMESTAMP_LIMIT
    }

    /// The instant as a number of milliseconds since the Unix epoch.
    pub closed spec fn view(&self) -> int {
        self.millis as int
    }

    /// Instants the same number of milliseconds after the epoch are the same.
    pub proof fn lemma_same_instant(self, other: Timestamp)
        requires
            self@ == other@,
        ensures
            self == other,
    {
    }

    /// The instant `millis` milliseconds after the Unix epoch, where that is
    /// within `TIMESTAMP_LIMIT` of it.
    pub fn from_millis(millis: i64) -> (t: Option<Timestamp>)
        ensures
            t is Some <==> -TIMESTAMP_LIMIT <= millis <= TIMESTAMP_LIMIT,
            t is Some ==> t.unwrap()@ == millis,
    {
        if -TIMESTAMP_LIMIT <= millis && millis <= TIMESTAMP_LIMIT {
            Some(Timestamp { millis })
        } else {
            None
        }
    }

    /// Milliseconds since the Unix epoch.
    pub fn millis(&self) -> (millis: i64)
        ensures
            millis == self@,
            -TIMESTAMP_LIMIT <= millis <= TIMESTAMP_LIMIT,
    {
        proof {
            use_type_invariant(self);
        }
        self.millis
    }

    /// The span from `earlier` to this instant; negative where `earlier`
    /// is the later of the two.
    pub fn since(&self, earlier: &Timestamp) -> (d: Duration)
        ensures
            d.millis == self@ - earlier@,
    {
        proof {
            use_type_invariant(self);
            use_type_invariant(earlier);
        }
        Duration { millis: self.millis - earlier.millis }
    }

    /// The instant that lies `span` after this one, where that is within
    /// `TIMESTAMP_LIMIT` of the epoch.
    pub fn plus(&self, span: Duration) -> (t: Option<Timestamp>)
        ensures
            t is Some <==> -TIMESTAMP_LIMIT <= self@ + span.millis <= TIMESTAMP_LIMIT,
            t is Some ==> t.unwrap()@ == self@ + span.millis,
    {
        proof {
            use_type_invariant(self);
        }
        match self.millis.checked_add(span.millis) {
            Some(millis) => Timestamp::from_millis(millis),
            None => None,
        }
    }
}

} // verus!
