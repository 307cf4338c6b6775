use subdeck::episode::episode_prefix;
use subdeck::notes::{assemble_notes, filter_foreign, media_requests, AnkiNote, MediaRefs};
use subdeck::subtitle::{AlignedPair, Subtitle};
use subdeck::time_range::TimeRange;

fn sub(begin_ms: u64, end_ms: u64, text: &str) -> Subtitle {
    Subtitle::new(TimeRange::new(begin_ms, end_ms), text.to_string())
}

fn media_for(count: usize) -> Vec<MediaRefs> {
    (0..count)
        .map(|i| MediaRefs { audio: format!("clip_{}.mp3", i), image: format!("shot_{}.jpg", i) })
        .collect()
}

#[test]
fn rows_without_foreign_text_are_dropped() {
    let aligned = vec![
        AlignedPair::new(Some(sub(0, 1_000, "eins")), None),
        AlignedPair::new(None, Some(sub(1_000, 2_000, "orphan"))),
        AlignedPair::new(Some(sub(2_000, 3_000, "zwei")), Some(sub(2_000, 3_000, "two"))),
        AlignedPair::new(None, None),
    ];
    let surviving = filter_foreign(&aligned);
    assert_eq!(2, surviving.len());

    let notes = assemble_notes(&aligned, &media_for(2), "", "Film");
    assert_eq!(2, notes.len());
    assert_eq!(Some("eins".to_string()), notes[0].foreign_curr);
    assert_eq!(Some("zwei".to_string()), notes[1].foreign_curr);
    // The native-only row vanished entirely: it is nobody's neighbor, and
    // the surviving rows became adjacent.
    assert_eq!(None, notes[0].native_curr);
    assert_eq!(Some("two".to_string()), notes[0].native_next);
    assert_eq!(Some("zwei".to_string()), notes[0].foreign_next);
}

#[test]
fn media_requests_cover_exactly_the_surviving_rows() {
    let aligned = vec![
        AlignedPair::new(Some(sub(10_000, 12_000, "a")), None),
        AlignedPair::new(None, Some(sub(12_000, 13_000, "skip"))),
        AlignedPair::new(Some(sub(20_000, 21_000, "b")), None),
    ];
    let requests = media_requests(&aligned);
    assert_eq!(2, requests.len());
    // Each period is padded by one and a half durations on each side.
    assert_eq!(7_000, requests[0].begin_ms);
    assert_eq!(15_000, requests[0].end_ms);
    assert_eq!(18_500, requests[1].begin_ms);
    assert_eq!(22_500, requests[1].end_ms);
}

#[test]
fn context_fields_round_trip_the_aligned_texts() {
    let aligned = vec![
        AlignedPair::new(Some(sub(0, 1_000, "f0")), Some(sub(0, 1_000, "n0"))),
        AlignedPair::new(Some(sub(1_000, 2_000, "f1")), Some(sub(1_000, 2_000, "n1"))),
        AlignedPair::new(Some(sub(2_000, 3_000, "f2")), Some(sub(2_000, 3_000, "n2"))),
    ];
    let notes = assemble_notes(&aligned, &media_for(3), "", "T");
    assert_eq!(3, notes.len());
    for (j, note) in notes.iter().enumerate() {
        assert_eq!(Some(format!("f{}", j)), note.foreign_curr);
        assert_eq!(Some(format!("n{}", j)), note.native_curr);
    }
    assert_eq!(None, notes[0].foreign_prev);
    assert_eq!(Some("f0".to_string()), notes[1].foreign_prev);
    assert_eq!(Some("n2".to_string()), notes[1].native_next);
    assert_eq!(None, notes[2].foreign_next);
}

#[test]
fn two_track_lesson_scenario() {
    // Three aligned positions, foreign present at all three, native only at
    // the middle one; the stem "lesson_03" gives every key the prefix "03 ".
    let aligned = vec![
        AlignedPair::new(Some(sub(1_000, 2_000, "ichi")), None),
        AlignedPair::new(Some(sub(5_000, 6_000, "ni")), Some(sub(5_000, 6_000, "two"))),
        AlignedPair::new(Some(sub(9_000, 10_000, "san")), None),
    ];
    let prefix = episode_prefix("lesson_03");
    assert_eq!("03 ", prefix);

    let notes = assemble_notes(&aligned, &media_for(3), &prefix, "Lesson");
    assert_eq!(3, notes.len());

    let middle: &AnkiNote = &notes[1];
    assert_eq!(Some("ichi".to_string()), middle.foreign_prev);
    assert_eq!(Some("san".to_string()), middle.foreign_next);
    assert_eq!(None, middle.native_prev);
    assert_eq!(None, middle.native_next);
    assert_eq!(Some("two".to_string()), middle.native_curr);
    assert_eq!(None, notes[0].native_curr);
    assert_eq!(None, notes[2].native_curr);

    for note in &notes {
        assert!(note.time.starts_with("03 "));
        assert_eq!("Lesson", note.source);
    }
    // Padded begins: 1000 -> 0 (clamped), 5000 -> 3500, 9000 -> 7500.
    assert_eq!("03 00:00:00.000", notes[0].time);
    assert_eq!("03 00:00:03.500", notes[1].time);
    assert_eq!("03 00:00:07.500", notes[2].time);
    // Emission order and lexicographic key order agree.
    assert!(notes[0].time < notes[1].time);
    assert!(notes[1].time < notes[2].time);

    assert_eq!("[sound:clip_1.mp3]", notes[1].sound);
    assert_eq!("<img src=\"shot_1.jpg\" />", notes[1].image);
}
