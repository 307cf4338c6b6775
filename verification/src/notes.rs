//! Assembling one output record per usable aligned position.
//!
//! A position is usable exactly when its foreign slot is present; rows
//! without foreign text are dropped. For each surviving position the
//! foreign period is padded by one and a half times its own duration on
//! each side, media references for that padded period are taken from the
//! caller, and the record's six context text fields are filled from the
//! previous, current and next surviving positions.

use vstd::prelude::*;
use vstd::arithmetic::div_mod::lemma_div_pos_is_pos;
use crate::context::{context_views, deref_opt, ContextView};
use crate::subtitle::{AlignedPair, Subtitle};
use crate::time_range::{spec_grown_begin, spec_grown_end, TimeRange, MAX_TIME_MS};
use crate::timestamp::{format_timestamp, lemma_lex_le_prepend, lemma_timestamp_le, lex_le, timestamp_chars};

verus! {

/// Padding factor for a subtitle's period before media extraction, in
/// thousandths of the period's duration: one and a half durations on each
/// side, to catch lead-in and lead-out around the spoken line.
pub const GROW_FACTOR_MILLI: u64 = 1500;

/// One row of the deck: media references, sort key, source title and the
/// six optional context text fields.
#[derive(Debug)]
pub struct AnkiNote {
    pub sound: String,
    pub time: String,
    pub source: String,
    pub image: String,
    pub foreign_curr: Option<String>,
    pub native_curr: Option<String>,
    pub foreign_prev: Option<String>,
    pub native_prev: Option<String>,
    pub foreign_next: Option<String>,
    pub native_next: Option<String>,
}

/// Media references for one row, handed back by the outside exporter when
/// the extraction work was scheduled.
#[derive(Debug)]
pub struct MediaRefs {
    pub audio: String,
    pub image: String,
}

pub open spec fn has_foreign(p: AlignedPair) -> bool {
    p.foreign is Some
}

/// The aligned positions that survive filtering: those with foreign text.
pub open spec fn surviving(aligned: Seq<AlignedPair>) -> Seq<AlignedPair> {
    aligned.filter(|p: AlignedPair| has_foreign(p))
}

pub open spec fn aligned_ok(aligned: Seq<AlignedPair>) -> bool {
    forall|i: int| 0 <= i < aligned.len() ==> (#[trigger] aligned[i]).wf()
}

/// The padded period of a surviving position's foreign subtitle.
pub open spec fn grown_begin_of(p: AlignedPair) -> int
    recommends
        has_foreign(p),
{
    spec_grown_begin(p.foreign->0.period, GROW_FACTOR_MILLI as int)
}

pub open spec fn grown_end_of(p: AlignedPair) -> int
    recommends
        has_foreign(p),
{
    spec_grown_end(p.foreign->0.period, GROW_FACTOR_MILLI as int)
}

pub open spec fn sound_field(audio: Seq<char>) -> Seq<char> {
    "[sound:"@ + audio + "]"@
}

pub open spec fn image_field(image: Seq<char>) -> Seq<char> {
    "<img src=\""@ + image + "\" />"@
}

/// The sort key: episode prefix, then the padded period's begin instant.
pub open spec fn sort_key(prefix: Seq<char>, begin_ms: int) -> Seq<char> {
    prefix + timestamp_chars(begin_ms)
}

pub open spec fn opt_text(o: Option<String>) -> Option<Seq<char>> {
    match o {
        Some(s) => Some(s@),
        None => None,
    }
}

pub open spec fn sub_text(o: Option<Subtitle>) -> Option<Seq<char>> {
    match o {
        Some(s) => Some(s.text@),
        None => None,
    }
}

/// The foreign text visible at offset `j` of the surviving sequence.
pub open spec fn foreign_text_at(surv: Seq<AlignedPair>, j: int) -> Option<Seq<char>> {
    if 0 <= j < surv.len() {
        sub_text(surv[j].foreign)
    } else {
        None
    }
}

/// The native text visible at offset `j` of the surviving sequence.
pub open spec fn native_text_at(surv: Seq<AlignedPair>, j: int) -> Option<Seq<char>> {
    if 0 <= j < surv.len() {
        sub_text(surv[j].native)
    } else {
        None
    }
}

/// What the record at position `j` of one export must hold.
pub open spec fn note_matches(
    n: AnkiNote,
    surv: Seq<AlignedPair>,
    j: int,
    m: MediaRefs,
    prefix: Seq<char>,
    title: Seq<char>,
) -> bool {
    &&& n.sound@ == sound_field(m.audio@)
    &&& n.time@ == sort_key(prefix, grown_begin_of(surv[j]))
    &&& n.source@ == title
    &&& n.image@ == image_field(m.image@)
    &&& opt_text(n.foreign_curr) == foreign_text_at(surv, j)
    &&& opt_text(n.native_curr) == native_text_at(surv, j)
    &&& opt_text(n.foreign_prev) == foreign_text_at(surv, j - 1)
    &&& opt_text(n.native_prev) == native_text_at(surv, j - 1)
    &&& opt_text(n.foreign_next) == foreign_text_at(surv, j + 1)
    &&& opt_text(n.native_next) == native_text_at(surv, j + 1)
}

/// How many positions of `aligned` have their foreign slot present.
pub open spec fn foreign_count(aligned: Seq<AlignedPair>) -> int
    decreases aligned.len(),
{
    if aligned.len() == 0 {
        0
    } else {
        foreign_count(aligned.drop_last()) + if has_foreign(aligned.last()) {
            1int
        } else {
            0int
        }
    }
}

/// One record is emitted per position whose foreign slot is present: the
/// surviving sequence — whose length every emitted deck matches — has
/// exactly `foreign_count` elements.
pub proof fn lemma_emitted_count(aligned: Seq<AlignedPair>)
    ensures
        surviving(aligned).len() == foreign_count(aligned),
    decreases aligned.len(),
{
    if aligned.len() == 0 {
        reveal(Seq::filter);
    } else {
        let head = aligned.drop_last();
        lemma_emitted_count(head);
        lemma_surviving_push(head, aligned.last());
        assert(head.push(aligned.last()) =~= aligned);
    }
}

/// Filtering keeps an element exactly when its foreign slot is present.
proof fn lemma_surviving_push(s: Seq<AlignedPair>, p: AlignedPair)
    ensures
        surviving(s.push(p)) == if has_foreign(p) {
            surviving(s).push(p)
        } else {
            surviving(s)
        },
{
    reveal(Seq::filter);
    assert(s.push(p).drop_last() =~= s);
    assert(s.push(p).last() == p);
}

/// The aligned positions with foreign text, in order, as owned copies.
pub fn filter_foreign(aligned: &Vec<AlignedPair>) -> (surv: Vec<AlignedPair>)
    ensures
        surv@ == surviving(aligned@),
{
    let n = aligned.len();
    let mut surv: Vec<AlignedPair> = Vec::new();
    let mut i: usize = 0;
    while i < n
        invariant
            i <= n,
            n == aligned@.len(),
            surv@ == surviving(aligned@.subrange(0, i as int)),
        decreases n - i,
    {
        proof {
            assert(aligned@.subrange(0, i + 1) =~= aligned@.subrange(0, i as int).push(
                aligned@[i as int],
            ));
            lemma_surviving_push(aligned@.subrange(0, i as int), aligned@[i as int]);
        }
        let p = &aligned[i];
        if p.foreign.is_some() {
            surv.push(p.duplicate());
        }
        i = i + 1;
    }
    proof {
        assert(aligned@.subrange(0, n as int) =~= aligned@);
    }
    surv
}

/// Every surviving position has foreign text and inherits well-formedness.
pub proof fn lemma_surviving_wf(aligned: Seq<AlignedPair>)
    requires
        aligned_ok(aligned),
    ensures
        forall|j: int| 0 <= j < surviving(aligned).len() ==> has_foreign(
            #[trigger] surviving(aligned)[j],
        ) && surviving(aligned)[j].wf(),
    decreases aligned.len(),
{
    if aligned.len() == 0 {
        reveal(Seq::filter);
    } else {
        let head = aligned.drop_last();
        let last = aligned.last();
        assert(aligned_ok(head)) by {
            assert(forall|i: int| 0 <= i < head.len() ==> head[i] == aligned[i]);
        }
        lemma_surviving_wf(head);
        lemma_surviving_push(head, last);
        assert(head.push(last) =~= aligned);
        assert(last.wf());
    }
}

/// The padded periods to extract media for, one per surviving position,
/// in emission order.
pub fn media_requests(aligned: &Vec<AlignedPair>) -> (r: Vec<TimeRange>)
    requires
        aligned_ok(aligned@),
    ensures
        r@.len() == surviving(aligned@).len(),
        forall|j: int| 0 <= j < r@.len() ==> {
            &&& (#[trigger] r@[j]).begin_ms == grown_begin_of(surviving(aligned@)[j])
            &&& r@[j].end_ms == grown_end_of(surviving(aligned@)[j])
            &&& r@[j].wf()
        },
{
    let surv = filter_foreign(aligned);
    proof {
        lemma_surviving_wf(aligned@);
    }
    let n = surv.len();
    let mut r: Vec<TimeRange> = Vec::new();
    let mut j: usize = 0;
    while j < n
        invariant
            j <= n,
            n == surv@.len(),
            surv@ == surviving(aligned@),
            forall|k: int| 0 <= k < n ==> has_foreign(#[trigger] surv@[k]) && surv@[k].wf(),
            r@.len() == j,
            forall|k: int| 0 <= k < j ==> {
                &&& (#[trigger] r@[k]).begin_ms == grown_begin_of(surv@[k])
                &&& r@[k].end_ms == grown_end_of(surv@[k])
                &&& r@[k].wf()
            },
        decreases n - j,
    {
        let p = &surv[j];
        let period = match p.foreign.as_ref() {
            Some(s) => s.period,
            None => TimeRange::new(0, 0),
        };
        r.push(period.grow(GROW_FACTOR_MILLI, GROW_FACTOR_MILLI));
        j = j + 1;
    }
    r
}

/// Builds one record per surviving position of `aligned`, in order.
///
/// `media` holds the exporter's references for exactly those positions, in
/// the same order; `prefix` is the episode prefix of the source filename
/// and `title` the source title. Each record carries the wrapped media
/// references, the sort key made of `prefix` and the padded period's begin
/// timestamp, and the context text fields of the surviving neighbors.
pub fn assemble_notes(
    aligned: &Vec<AlignedPair>,
    media: &Vec<MediaRefs>,
    prefix: &str,
    title: &str,
) -> (notes: Vec<AnkiNote>)
    requires
        aligned_ok(aligned@),
        media@.len() == surviving(aligned@).len(),
    ensures
        notes@.len() == surviving(aligned@).len(),
        forall|j: int| 0 <= j < notes@.len() ==> note_matches(
            #[trigger] notes@[j],
            surviving(aligned@),
            j,
            media@[j],
            prefix@,
            title@,
        ),
{
    let surv = filter_foreign(aligned);
    proof {
        lemma_surviving_wf(aligned@);
    }
    let n = surv.len();

    let mut foreigns: Vec<Option<Subtitle>> = Vec::new();
    let mut natives: Vec<Option<Subtitle>> = Vec::new();
    let mut i: usize = 0;
    while i < n
        invariant
            i <= n,
            n == surv@.len(),
            foreigns@.len() == i,
            natives@.len() == i,
            forall|k: int| 0 <= k < i ==> #[trigger] foreigns@[k] == surv@[k].foreign,
            forall|k: int| 0 <= k < i ==> #[trigger] natives@[k] == surv@[k].native,
        decreases n - i,
    {
        let p = &surv[i];
        let f = match p.foreign.as_ref() {
            Some(s) => Some(s.duplicate()),
            None => None,
        };
        let nv = match p.native.as_ref() {
            Some(s) => Some(s.duplicate()),
            None => None,
        };
        foreigns.push(f);
        natives.push(nv);
        i = i + 1;
    }

    let fctx = context_views(&foreigns);
    let nctx = context_views(&natives);

    let mut notes: Vec<AnkiNote> = Vec::new();
    let mut j: usize = 0;
    while j < n
        invariant
            j <= n,
            n == surv@.len(),
            surv@ == surviving(aligned@),
            media@.len() == n,
            foreigns@.len() == n,
            natives@.len() == n,
            fctx@.len() == n,
            nctx@.len() == n,
            forall|k: int| 0 <= k < n ==> #[trigger] foreigns@[k] == surv@[k].foreign,
            forall|k: int| 0 <= k < n ==> #[trigger] natives@[k] == surv@[k].native,
            forall|k: int| 0 <= k < n ==> (#[trigger] fctx@[k]).wf_at(foreigns@, k),
            forall|k: int| 0 <= k < n ==> (#[trigger] nctx@[k]).wf_at(natives@, k),
            forall|k: int| 0 <= k < n ==> has_foreign(#[trigger] surv@[k]) && surv@[k].wf(),
            notes@.len() == j,
            forall|k: int| 0 <= k < j ==> note_matches(
                #[trigger] notes@[k],
                surv@,
                k,
                media@[k],
                prefix@,
                title@,
            ),
        decreases n - j,
    {
        let fc: &ContextView<Subtitle> = &fctx[j];
        let nc: &ContextView<Subtitle> = &nctx[j];
        let m: &MediaRefs = &media[j];

        let curr: &Subtitle = fc.curr.unwrap();
        let period = curr.period.grow(GROW_FACTOR_MILLI, GROW_FACTOR_MILLI);

        let stamp = format_timestamp(period.begin());
        let mut time = String::from_str(prefix);
        time.append(stamp.as_str());

        let mut sound = String::from_str("[sound:");
        sound.append(m.audio.as_str());
        sound.append("]");

        let mut image = String::from_str("<img src=\"");
        image.append(m.image.as_str());
        image.append("\" />");

        let note = AnkiNote {
            sound,
            time,
            source: String::from_str(title),
            image,
            foreign_curr: Some(curr.plain_text()),
            native_curr: opt_plain_text(nc.curr),
            foreign_prev: opt_plain_text(fc.prev),
            native_prev: opt_plain_text(nc.prev),
            foreign_next: opt_plain_text(fc.next),
            native_next: opt_plain_text(nc.next),
        };
        notes.push(note);
        j = j + 1;
    }
    notes
}

/// A padded period begins on the timeline and before the subtitle it was
/// grown from, so its begin instant still fits a fixed-width timestamp.
pub proof fn lemma_grown_begin_bounds(p: AlignedPair)
    requires
        has_foreign(p),
        p.wf(),
    ensures
        0 <= grown_begin_of(p) <= p.foreign->0.period.begin_ms,
        grown_begin_of(p) < MAX_TIME_MS,
{
    let period = p.foreign->0.period;
    let pad = (period.end_ms - period.begin_ms) * (GROW_FACTOR_MILLI as int);
    lemma_div_pos_is_pos(pad, 1000);
}

/// Non-decreasing adjacent padded begins order every pair of positions.
proof fn lemma_grown_begins_pairwise(surv: Seq<AlignedPair>, j: int, k: int)
    requires
        0 <= j <= k < surv.len(),
        forall|i: int| 0 <= i < surv.len() - 1 ==> grown_begin_of(#[trigger] surv[i])
            <= grown_begin_of(surv[i + 1]),
    ensures
        grown_begin_of(surv[j]) <= grown_begin_of(surv[k]),
    decreases k - j,
{
    if j < k {
        lemma_grown_begins_pairwise(surv, j, k - 1);
        assert(grown_begin_of(surv[k - 1]) <= grown_begin_of(surv[k]));
    }
}

/// Within one export, when the padded foreign periods begin in
/// non-decreasing order, the records' sort keys are lexicographically
/// non-decreasing in emission order.
pub proof fn lemma_sort_keys_monotone(
    notes: Seq<AnkiNote>,
    surv: Seq<AlignedPair>,
    media: Seq<MediaRefs>,
    prefix: Seq<char>,
    title: Seq<char>,
)
    requires
        notes.len() == surv.len(),
        media.len() == surv.len(),
        forall|j: int| 0 <= j < notes.len() ==> note_matches(
            #[trigger] notes[j],
            surv,
            j,
            media[j],
            prefix,
            title,
        ),
        forall|j: int| 0 <= j < surv.len() ==> has_foreign(#[trigger] surv[j]) && surv[j].wf(),
        forall|j: int| 0 <= j < surv.len() - 1 ==> grown_begin_of(#[trigger] surv[j])
            <= grown_begin_of(surv[j + 1]),
    ensures
        forall|j: int, k: int| 0 <= j <= k < notes.len() ==> lex_le(
            #[trigger] notes[j].time@,
            #[trigger] notes[k].time@,
        ),
{
    assert forall|j: int, k: int| 0 <= j <= k < notes.len() implies lex_le(
        #[trigger] notes[j].time@,
        #[trigger] notes[k].time@,
    ) by {
        lemma_grown_begins_pairwise(surv, j, k);
        lemma_grown_begin_bounds(surv[j]);
        lemma_grown_begin_bounds(surv[k]);
        lemma_timestamp_le(grown_begin_of(surv[j]), grown_begin_of(surv[k]));
        lemma_lex_le_prepend(
            prefix,
            timestamp_chars(grown_begin_of(surv[j])),
            timestamp_chars(grown_begin_of(surv[k])),
        );
    }
}

/// The plain text behind an optional borrowed subtitle, where present.
fn opt_plain_text(o: Option<&Subtitle>) -> (r: Option<String>)
    ensures
        opt_text(r) == sub_text(deref_opt(o)),
{
    match o {
        Some(s) => Some(s.plain_text()),
        None => None,
    }
}

} // verus!
