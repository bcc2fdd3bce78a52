//! Simulated time.

use vstd::prelude::*;

verus! {

/// A point or a span of simulated time, counted in whole ticks.
///
/// `Infinite` lies beyond every finite time.  It is the time of an event that is
/// never scheduled, and it is also where a sum goes that no tick count can hold,
/// so that arithmetic on times never wraps around.
#[derive(Clone, Copy, Debug, PartialEq, Eq, PartialOrd, Ord, Hash, Structural)]
pub enum Time {
    Finite(u64),
    Infinite,
}

impl Time {
    /// The start of simulated time, and the empty span.
    pub open spec fn spec_zero() -> Time {
        Time::Finite(0)
    }

    /// `self` is not later than `other`.
    pub open spec fn spec_le(self, other: Time) -> bool {
        match (self, other) {
            (_, Time::Infinite) => true,
            (Time::Infinite, Time::Finite(_)) => false,
            (Time::Finite(a), Time::Finite(b)) => a <= b,
        }
    }

    /// `self` is strictly earlier than `other`.
    pub open spec fn spec_lt(self, other: Time) -> bool {
        self.spec_le(other) && self != other
    }

    /// The earlier of two times.
    pub open spec fn spec_min(self, other: Time) -> Time {
        if self.spec_le(other) {
            self
        } else {
            other
        }
    }

    /// The time `span` after `self`; `Infinite` where either is infinite or the
    /// tick count would pass `u64::MAX`.
    pub open spec fn spec_plus(self, span: Time) -> Time {
        match (self, span) {
            (Time::Finite(a), Time::Finite(b)) => if a + b <= u64::MAX {
                Time::Finite((a + b) as u64)
            } else {
                Time::Infinite
            },
            _ => Time::Infinite,
        }
    }

    #[verifier::when_used_as_spec(spec_zero)]
    pub fn zero() -> (t: Time)
        ensures
            t == Time::spec_zero(),
    {
        Time::Finite(0)
    }

    /// A finite time of `ticks` ticks.
    pub fn from_ticks(ticks: u64) -> (t: Time)
        ensures
            t == Time::Finite(ticks),
    {
        Time::Finite(ticks)
    }

    /// The tick count of a finite time.
    pub fn ticks(self) -> (n: Option<u64>)
        ensures
            n == match self {
                Time::Finite(a) => Some(a),
                Time::Infinite => None::<u64>,
            },
    {
        match self {
            Time::Finite(a) => Some(a),
            Time::Infinite => None,
        }
    }

    pub fn is_zero(self) -> (b: bool)
        ensures
            b == (self == Time::zero()),
    {
        match self {
            Time::Finite(a) => a == 0,
            Time::Infinite => false,
        }
    }

    pub fn is_finite(self) -> (b: bool)
        ensures
            b == (self is Finite),
    {
        match self {
            Time::Finite(_) => true,
            Time::Infinite => false,
        }
    }

    #[verifier::when_used_as_spec(spec_le)]
    pub fn le(self, other: Time) -> (b: bool)
        ensures
            b == self.spec_le(other),
    {
        match (self, other) {
            (_, Time::Infinite) => true,
            (Time::Infinite, Time::Finite(_)) => false,
            (Time::Finite(a), Time::Finite(b)) => a <= b,
        }
    }

    #[verifier::when_used_as_spec(spec_lt)]
    pub fn lt(self, other: Time) -> (b: bool)
        ensures
            b == self.spec_lt(other),
    {
        match (self, other) {
            (Time::Infinite, _) => false,
            (Time::Finite(_), Time::Infinite) => true,
            (Time::Finite(a), Time::Finite(b)) => a < b,
        }
    }

    #[verifier::when_used_as_spec(spec_min)]
    pub fn min(self, other: Time) -> (t: Time)
        ensures
            t == self.spec_min(other),
    {
        if self.le(other) {
            self
        } else {
            other
        }
    }

    #[verifier::when_used_as_spec(spec_plus)]
    pub fn plus(self, span: Time) -> (t: Time)
        ensures
            t == self.spec_plus(span),
    {
        match (self, span) {
            (Time::Finite(a), Time::Finite(b)) => match a.checked_add(b) {
                Some(sum) => Time::Finite(sum),
                None => Time::Infinite,
            },
            _ => Time::Infinite,
        }
    }
}

/// The order on times is total, and `min` and `plus` agree with it: adding a
/// span never moves a time backwards.
pub proof fn lemma_time_order(a: Time, b: Time, c: Time)
    ensures
        a.spec_le(a),
        a.spec_le(b) || b.spec_le(a),
        a.spec_le(b) && b.spec_le(a) ==> a == b,
        a.spec_le(b) && b.spec_le(c) ==> a.spec_le(c),
        a.spec_min(b).spec_le(a),
        a.spec_min(b).spec_le(b),
        a.spec_min(b) == a || a.spec_min(b) == b,
        a.spec_le(a.spec_plus(b)),
        a.spec_plus(Time::spec_zero()) == a,
        Time::spec_zero().spec_le(a),
        a.spec_le(Time::Infinite),
{
}

} // verus!
