use subdeck::csv_out::encode_csv;
use subdeck::notes::AnkiNote;
use subdeck::session::{ExportAction, ExportSession};

fn note(sound: &str, time: &str, source: &str, image: &str, foreign: &str) -> AnkiNote {
    AnkiNote {
        sound: sound.to_string(),
        time: time.to_string(),
        source: source.to_string(),
        image: image.to_string(),
        foreign_curr: Some(foreign.to_string()),
        native_curr: None,
        foreign_prev: None,
        native_prev: None,
        foreign_next: None,
        native_next: None,
    }
}

const HEADER: &str = "sound,time,source,image,foreign_curr,native_curr,foreign_prev,native_prev,foreign_next,native_next\n";

#[test]
fn empty_deck_is_just_the_header() {
    let notes: Vec<AnkiNote> = Vec::new();
    assert_eq!(HEADER, encode_csv(&notes));
}

#[test]
fn plain_fields_stay_bare_and_absent_fields_stay_empty() {
    let notes = vec![note("[sound:a.mp3]", "03 00:00:00.000", "Film", "<img src=\"a.jpg\" />", "hallo")];
    let expected = format!(
        "{}[sound:a.mp3],03 00:00:00.000,Film,\"<img src=\"\"a.jpg\"\" />\",hallo,,,,,\n",
        HEADER
    );
    assert_eq!(expected, encode_csv(&notes));
}

#[test]
fn special_characters_force_quoting() {
    let mut n = note("s", "t", "A, B", "i", "he said \"hi\"");
    n.native_curr = Some("line\nbreak".to_string());
    n.foreign_prev = Some("a\rb".to_string());
    let notes = vec![n];
    let expected = format!(
        "{}s,t,\"A, B\",i,\"he said \"\"hi\"\"\",\"line\nbreak\",\"a\rb\",,,\n",
        HEADER
    );
    assert_eq!(expected, encode_csv(&notes));
}

#[test]
fn rows_come_out_in_order() {
    let notes = vec![note("s1", "t1", "x", "i1", "one"), note("s2", "t2", "x", "i2", "two")];
    let text = encode_csv(&notes);
    let lines: Vec<&str> = text.lines().collect();
    assert_eq!(3, lines.len());
    assert_eq!("s1,t1,x,i1,one,,,,,", lines[1]);
    assert_eq!("s2,t2,x,i2,two,,,,,", lines[2]);
}

#[test]
fn successful_run_writes_then_finishes() {
    let notes = vec![note("s", "t", "x", "i", "one")];
    let mut session = ExportSession::new(&notes);
    assert_eq!("cards.csv", session.data_file_name());
    assert!(session.csv.starts_with(HEADER));

    assert_eq!(Some(ExportAction::WriteDataFile), session.next_action());
    session.record_outcome(true);
    assert_eq!(Some(ExportAction::FinishExports), session.next_action());
    session.record_outcome(true);
    assert_eq!(None, session.next_action());
    assert!(session.is_finished());
}

#[test]
fn failed_data_write_prevents_finalization() {
    let notes: Vec<AnkiNote> = Vec::new();
    let mut session = ExportSession::new(&notes);
    assert_eq!(Some(ExportAction::WriteDataFile), session.next_action());
    // The exporter reports that the data file could not be written.
    session.record_outcome(false);
    // No media finalization is ever requested and the run is not a success.
    assert_eq!(None, session.next_action());
    assert!(!session.is_finished());
}

#[test]
fn failed_finalization_fails_the_run() {
    let notes: Vec<AnkiNote> = Vec::new();
    let mut session = ExportSession::new(&notes);
    session.record_outcome(true);
    assert_eq!(Some(ExportAction::FinishExports), session.next_action());
    session.record_outcome(false);
    assert_eq!(None, session.next_action());
    assert!(!session.is_finished());
}
