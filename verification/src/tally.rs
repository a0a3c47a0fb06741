//! The tally of a participation's segment times: a segment counts as
//! matched when the participant's time through it is not negative, and the
//! participation is finished when every segment of the event is matched.
use vstd::prelude::*;

verus! {

/// The largest span that chrono's `TimeDelta` can hold, `i64::MAX`
/// milliseconds, in nanoseconds.
pub const MAX_SPAN_NANOS: i128 = 9_223_372_036_854_775_807_000_000i128;

/// Matched segments so far and the sum of their times in nanoseconds.
pub struct SegmentTally {
    matched: usize,
    total_nanos: i128,
}

/// Mathematical model of a tally.
pub struct TallyModel {
    pub matched: nat,
    pub total_nanos: int,
}

impl View for SegmentTally {
    type V = TallyModel;

    closed spec fn view(&self) -> TallyModel {
        TallyModel { matched: self.matched as nat, total_nanos: self.total_nanos as int }
    }
}

/// A time is accepted for a segment where it is not negative.
pub open spec fn accepts(elapsed_nanos: int) -> bool {
    elapsed_nanos >= 0
}

/// Whole seconds of a span, rounded toward zero (chrono's
/// `TimeDelta::num_seconds`).
pub open spec fn whole_seconds(nanos: int) -> int {
    if nanos >= 0 {
        nanos / 1_000_000_000
    } else {
        -((-nanos) / 1_000_000_000)
    }
}

impl SegmentTally {
    #[verifier::type_invariant]
    spec fn inv(self) -> bool {
        0 <= self.total_nanos <= MAX_SPAN_NANOS
    }

    /// A tally with nothing matched.
    pub fn new() -> (res: SegmentTally)
        ensures
            res@ == (TallyModel { matched: 0, total_nanos: 0 }),
    {
        SegmentTally { matched: 0, total_nanos: 0 }
    }

    /// Number of matched segments.
    pub fn matched(&self) -> (res: usize)
        ensures
            res == self@.matched,
    {
        self.matched
    }

    /// Sum of the matched segments' times in nanoseconds. Every tally holds
    /// a total that is not negative and that chrono can hold.
    pub fn total_nanos(&self) -> (res: i128)
        ensures
            res == self@.total_nanos,
            0 <= res <= MAX_SPAN_NANOS,
    {
        proof {
            use_type_invariant(self);
        }
        self.total_nanos
    }

    /// Offers the time through one segment; it is counted where it is not
    /// negative. Answers whether it was counted.
    pub fn record(&mut self, elapsed_nanos: i128) -> (accepted: bool)
        requires
            accepts(elapsed_nanos as int) ==> old(self)@.total_nanos + elapsed_nanos
                <= MAX_SPAN_NANOS,
            accepts(elapsed_nanos as int) ==> old(self)@.matched < usize::MAX,
        ensures
            accepted == accepts(elapsed_nanos as int),
            accepted ==> final(self)@ == (TallyModel {
                matched: old(self)@.matched + 1,
                total_nanos: old(self)@.total_nanos + elapsed_nanos,
            }),
            !accepted ==> final(self)@ == old(self)@,
    {
        proof {
            use_type_invariant(&*self);
        }
        if elapsed_nanos >= 0 {
            *self = SegmentTally {
                matched: self.matched + 1,
                total_nanos: self.total_nanos + elapsed_nanos,
            };
            true
        } else {
            false
        }
    }

    /// The total in whole seconds where all `num_segments` segments are
    /// matched, else `None`.
    pub fn finish(&self, num_segments: usize) -> (res: Option<i64>)
        ensures
            self@.matched == num_segments ==> res == Some(whole_seconds(self@.total_nanos) as i64),
            self@.matched != num_segments ==> res is None,
            res matches Some(s) ==> s == whole_seconds(self@.total_nanos),
    {
        proof {
            use_type_invariant(self);
        }
        if self.matched == num_segments {
            Some((self.total_nanos / 1_000_000_000) as i64)
        } else {
            None
        }
    }
}

} // verus!
