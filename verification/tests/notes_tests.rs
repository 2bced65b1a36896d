use stickies::notes::{
    add_note_at, apply_external_edit_at, create_note, delete_note, get_note, merge_notes,
    new_note_origin, note_ids, note_label, note_page, notes_from_stored, position_of,
    set_color, set_color_at, update_bounds, update_bounds_at, update_content, update_content_at,
    Frame, Note, NoteError, NEW_NOTE_SIZE,
};

fn frame(n: u64) -> Frame {
    Frame { x: n, y: n + 1, width: n + 2, height: n + 3 }
}

fn note(id: &str, content: &str) -> Note {
    Note {
        id: id.to_string(),
        content: content.to_string(),
        frame: frame(0),
        color: "#fff7a8".to_string(),
        updated_at: 1,
    }
}

fn sample() -> Vec<Note> {
    vec![note("a", "first"), note("b", "second"), note("a", "shadow")]
}

#[test]
fn lookup_finds_the_first_note_with_the_id() {
    let notes = sample();
    assert_eq!(position_of(&notes, "a"), Some(0));
    assert_eq!(position_of(&notes, "b"), Some(1));
    assert_eq!(position_of(&notes, "c"), None);
    assert_eq!(get_note(&notes, "a").unwrap().content, "first");
    assert!(get_note(&notes, "zz").is_none());
}

#[test]
fn delete_removes_every_note_with_the_id() {
    let mut notes = sample();
    delete_note(&mut notes, "a");
    assert_eq!(notes.len(), 1);
    assert_eq!(notes[0].id, "b");
    delete_note(&mut notes, "missing");
    assert_eq!(notes.len(), 1);
    assert!(get_note(&notes, "a").is_none());
}

#[test]
fn update_bounds_changes_frame_and_time_of_first_match() {
    let mut notes = sample();
    assert_eq!(update_bounds_at(&mut notes, "a", frame(40), 77), Ok(()));
    assert_eq!(notes[0].frame, frame(40));
    assert_eq!(notes[0].updated_at, 77);
    assert_eq!(notes[0].content, "first");
    assert_eq!(notes[2].frame, frame(0));
    assert_eq!(update_bounds_at(&mut notes, "zz", frame(1), 5), Err(NoteError::NotFound));
}

#[test]
fn update_bounds_stamps_the_present() {
    let mut notes = sample();
    assert!(update_bounds(&mut notes, "b", frame(9)).is_ok());
    assert!(notes[1].updated_at > 1_577_836_800);
    assert_eq!(notes[1].frame, frame(9));
}

#[test]
fn update_content_returns_the_updated_note() {
    let mut notes = sample();
    let n = update_content_at(&mut notes, "b", "new text".to_string(), 9).unwrap();
    assert_eq!(n.content, "new text");
    assert_eq!(n.updated_at, 9);
    assert_eq!(n.id, "b");
    assert_eq!(notes[1].content, "new text");
    assert_eq!(get_note(&notes, "b").unwrap().content, "new text");
    assert_eq!(
        update_content_at(&mut notes, "nope", "x".to_string(), 9).unwrap_err(),
        NoteError::NotFound
    );
    let m = update_content(&mut notes, "a", "hey".to_string()).unwrap();
    assert_eq!(m.content, "hey");
    assert!(m.updated_at > 1_577_836_800);
}

#[test]
fn external_edit_skips_unchanged_content() {
    let mut notes = sample();
    assert!(apply_external_edit_at(&mut notes, "a", "first".to_string(), 5).is_none());
    assert_eq!(notes[0].updated_at, 1);
    let n = apply_external_edit_at(&mut notes, "a", "edited".to_string(), 5).unwrap();
    assert_eq!(n.content, "edited");
    assert_eq!(notes[0].updated_at, 5);
    assert!(apply_external_edit_at(&mut notes, "q", "edited".to_string(), 5).is_none());
}

#[test]
fn set_color_checks_then_trims() {
    let mut notes = sample();
    let n = set_color_at(&mut notes, "b", "  #ABCDEF ", 3).unwrap();
    assert_eq!(n.color, "#ABCDEF");
    assert_eq!(notes[1].color, "#ABCDEF");
    assert_eq!(notes[1].updated_at, 3);
    assert_eq!(set_color_at(&mut notes, "b", "#abc", 4).unwrap().color, "#abc");
    for bad in ["abc", "#ab", "#abcd", "#ggg", "", "#abcdeg", "#abc\u{e9}"] {
        assert_eq!(set_color_at(&mut notes, "b", bad, 5).unwrap_err(), NoteError::BadColor);
    }
    assert_eq!(notes[1].updated_at, 4);
    assert_eq!(set_color_at(&mut notes, "zz", "#fff", 5).unwrap_err(), NoteError::NotFound);
    assert_eq!(set_color_at(&mut notes, "zz", "#ff", 5).unwrap_err(), NoteError::BadColor);
    assert_eq!(set_color(&mut notes, "a", "#123").unwrap().color, "#123");
}

#[test]
fn error_messages() {
    assert_eq!(NoteError::NotFound.message(), "note not found");
    assert_eq!(NoteError::BadColor.message(), "bad color, use #rgb or #rrggbb");
}

#[test]
fn new_notes_get_defaults() {
    let mut notes = sample();
    let n = add_note_at(&mut notes, "c".to_string(), "hi".to_string(), frame(5), 42);
    assert_eq!(notes.len(), 4);
    assert_eq!(n.color, "#fff7a8");
    assert_eq!(n.updated_at, 42);
    assert_eq!(get_note(&notes, "c").unwrap().content, "hi");
}

#[test]
fn created_notes_have_uuid_ids() {
    let mut notes: Vec<Note> = vec![];
    let n = create_note(&mut notes, None, frame(1));
    let m = create_note(&mut notes, Some("body".to_string()), frame(2));
    assert_eq!(notes.len(), 2);
    assert_eq!(n.content, "");
    assert_eq!(m.content, "body");
    assert_ne!(n.id, m.id);
    for id in [&n.id, &m.id] {
        assert_eq!(id.len(), 36);
        let b = id.as_bytes();
        assert_eq!(b[8], b'-');
        assert_eq!(b[14], b'4');
        assert!(matches!(b[19], b'8' | b'9' | b'a' | b'b'));
    }
    assert_eq!(n.color, "#fff7a8");
}

#[test]
fn new_notes_cascade() {
    assert_eq!(new_note_origin(0), 120);
    assert_eq!(new_note_origin(1), 148);
    assert_eq!(new_note_origin(9), 372);
    assert_eq!(new_note_origin(10), 120);
    assert_eq!(new_note_origin(23), 204);
    assert_eq!(NEW_NOTE_SIZE, 280);
}

#[test]
fn merge_prefers_our_notes() {
    let theirs = vec![note("x", "their x"), note("a", "their a")];
    let ours = vec![note("a", "our a"), note("b", "our b")];
    let m = merge_notes(theirs, &ours);
    let got: Vec<(String, String)> = m.iter().map(|n| (n.id.clone(), n.content.clone())).collect();
    assert_eq!(
        got,
        vec![
            ("x".to_string(), "their x".to_string()),
            ("a".to_string(), "our a".to_string()),
            ("b".to_string(), "our b".to_string()),
        ]
    );
}

#[test]
fn merge_with_repeated_ids_keeps_the_last_of_ours() {
    let ours = vec![note("a", "one"), note("a", "two")];
    let m = merge_notes(vec![], &ours);
    assert_eq!(m.len(), 1);
    assert_eq!(m[0].content, "two");
}

#[test]
fn ids_labels_and_pages() {
    assert_eq!(note_ids(&sample()), vec!["a", "b", "a"]);
    assert_eq!(note_label("k1"), "note-k1");
    assert_eq!(note_page("k1"), "note.html?id=k1");
}

#[test]
fn stored_notes() {
    assert!(notes_from_stored("  \n", Some(sample())).is_empty());
    assert!(notes_from_stored("[oops", None).is_empty());
    assert_eq!(notes_from_stored("[..]", Some(sample())).len(), 3);
}
