//! Time ranges over a media file, in milliseconds.

use vstd::prelude::*;

verus! {

/// Upper bound (exclusive) on any instant that is turned into a
/// `HH:MM:SS.mmm` timestamp: 100 hours in milliseconds. Keeping instants
/// below this bound keeps the hour field at two digits, so that timestamps
/// of equal width compare lexicographically like the instants themselves.
pub const MAX_TIME_MS: u64 = 360_000_000;

/// Upper bound on a padding factor handed to [`TimeRange::grow`], in
/// thousandths: a factor of at most 1000 times the range's own duration.
pub const MAX_GROW_FACTOR_MILLI: u64 = 1_000_000;

/// A half-open interval `[begin_ms, end_ms)` over a media file's timeline,
/// in milliseconds.
#[derive(Clone, Copy, Debug, PartialEq, Eq, Structural)]
pub struct TimeRange {
    pub begin_ms: u64,
    pub end_ms: u64,
}

/// Proportional padding, in milliseconds: the range's duration scaled by a
/// factor given in thousandths, rounded down.
pub open spec fn spec_padding(duration: int, factor_milli: int) -> int {
    duration * factor_milli / 1000
}

/// The begin instant of a range padded on the left, clamped at the start of
/// the timeline.
pub open spec fn spec_grown_begin(t: TimeRange, before_milli: int) -> int {
    let pad = spec_padding(t.end_ms - t.begin_ms, before_milli);
    if t.begin_ms >= pad {
        t.begin_ms - pad
    } else {
        0
    }
}

/// The end instant of a range padded on the right.
pub open spec fn spec_grown_end(t: TimeRange, after_milli: int) -> int {
    t.end_ms + spec_padding(t.end_ms - t.begin_ms, after_milli)
}

impl TimeRange {
    /// A range is well formed when it does not end before it begins.
    pub open spec fn wf(self) -> bool {
        self.begin_ms <= self.end_ms
    }

    pub fn new(begin_ms: u64, end_ms: u64) -> (t: TimeRange)
        requires
            begin_ms <= end_ms,
        ensures
            t.begin_ms == begin_ms,
            t.end_ms == end_ms,
            t.wf(),
    {
        TimeRange { begin_ms, end_ms }
    }

    pub fn begin(self) -> (r: u64)
        ensures
            r == self.begin_ms,
    {
        self.begin_ms
    }

    pub fn duration_ms(self) -> (d: u64)
        requires
            self.wf(),
        ensures
            d == self.end_ms - self.begin_ms,
    {
        self.end_ms - self.begin_ms
    }

    /// Returns a new range padded proportionally to its own duration: by
    /// `before_milli` thousandths of the duration on the left and
    /// `after_milli` thousandths on the right. The left padding never
    /// reaches below the start of the timeline.
    pub fn grow(self, before_milli: u64, after_milli: u64) -> (r: TimeRange)
        requires
            self.wf(),
            self.end_ms < MAX_TIME_MS,
            before_milli <= MAX_GROW_FACTOR_MILLI,
            after_milli <= MAX_GROW_FACTOR_MILLI,
        ensures
            r.begin_ms == spec_grown_begin(self, before_milli as int),
            r.end_ms == spec_grown_end(self, after_milli as int),
            r.wf(),
            r.begin_ms <= self.begin_ms,
    {
        let duration = self.end_ms - self.begin_ms;
        proof {
            vstd::arithmetic::mul::lemma_mul_upper_bound(
                duration as int,
                MAX_TIME_MS as int,
                before_milli as int,
                MAX_GROW_FACTOR_MILLI as int,
            );
            vstd::arithmetic::mul::lemma_mul_upper_bound(
                duration as int,
                MAX_TIME_MS as int,
                after_milli as int,
                MAX_GROW_FACTOR_MILLI as int,
            );
        }
        let pad_before = duration * before_milli / 1000;
        let pad_after = duration * after_milli / 1000;
        let begin_ms = if self.begin_ms >= pad_before {
            self.begin_ms - pad_before
        } else {
            0
        };
        TimeRange { begin_ms, end_ms: self.end_ms + pad_after }
    }

    /// The instant halfway between begin and end, rounded down.
    pub fn midpoint(self) -> (m: u64)
        requires
            self.wf(),
        ensures
            m == (self.begin_ms + self.end_ms) / 2,
            self.begin_ms <= m <= self.end_ms,
    {
        self.begin_ms + (self.end_ms - self.begin_ms) / 2
    }
}

} // verus!
