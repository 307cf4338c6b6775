//! The subtitle model consumed by the deck builder: one line of text with
//! its time range, and pairs of optional lines produced by an outside
//! temporal aligner.

use vstd::prelude::*;
use crate::time_range::{TimeRange, MAX_TIME_MS};

verus! {

/// One subtitle line: its period on the timeline and its plain text, with
/// any markup already stripped by whatever decoded the track.
#[derive(Debug)]
pub struct Subtitle {
    pub period: TimeRange,
    pub text: String,
}

impl Subtitle {
    /// A subtitle is usable when its period is well formed and ends early
    /// enough that instants derived from it fit a fixed-width timestamp.
    pub open spec fn wf(self) -> bool {
        self.period.wf() && self.period.end_ms < MAX_TIME_MS
    }

    pub fn new(period: TimeRange, text: String) -> (s: Subtitle)
        ensures
            s.period == period,
            s.text == text,
    {
        Subtitle { period, text }
    }

    /// The line's text free of markup. Subtitles carry plain text already,
    /// so this is the text itself.
    pub fn plain_text(&self) -> (r: String)
        ensures
            r@ == self.text@,
    {
        self.text.clone()
    }

    /// An owned copy equal to this subtitle.
    pub fn duplicate(&self) -> (r: Subtitle)
        ensures
            r == *self,
    {
        Subtitle { period: self.period, text: self.text.clone() }
    }
}

/// One aligned position over the two tracks: either slot may be absent,
/// because the tracks need not line up one to one.
#[derive(Debug)]
pub struct AlignedPair {
    pub foreign: Option<Subtitle>,
    pub native: Option<Subtitle>,
}

impl AlignedPair {
    /// A pair is usable when whatever subtitles it holds are.
    pub open spec fn wf(self) -> bool {
        &&& (self.foreign matches Some(s) ==> s.wf())
        &&& (self.native matches Some(s) ==> s.wf())
    }

    pub fn new(foreign: Option<Subtitle>, native: Option<Subtitle>) -> (p: AlignedPair)
        ensures
            p.foreign == foreign,
            p.native == native,
    {
        AlignedPair { foreign, native }
    }

    /// An owned copy equal to this pair.
    pub fn duplicate(&self) -> (r: AlignedPair)
        ensures
            r == *self,
    {
        let foreign = match self.foreign.as_ref() {
            Some(s) => Some(s.duplicate()),
            None => None,
        };
        let native = match self.native.as_ref() {
            Some(s) => Some(s.duplicate()),
            None => None,
        };
        AlignedPair { foreign, native }
    }
}

} // verus!
