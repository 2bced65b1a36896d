//! The note store: a sequence of notes looked up by id, where the first
//! note with a given id is the one every operation reads and changes.

use vstd::prelude::*;

use crate::clock::now_ts;
use crate::color::{checked_color, valid_color};
use crate::text::{all_white, is_blank, owned, push_text, same_text, trim};

verus! {

/// Where a note window stands on screen. Each field holds the bit pattern of
/// an `f64` (as `f64::to_bits` gives it); the store carries these values and
/// never computes with them.
#[derive(Clone, Copy, Debug, PartialEq, Eq, Structural)]
pub struct Frame {
    pub x: u64,
    pub y: u64,
    pub width: u64,
    pub height: u64,
}

/// One sticky note.
#[derive(Debug)]
pub struct Note {
    pub id: String,
    pub content: String,
    pub frame: Frame,
    pub color: String,
    /// Seconds since the Unix epoch of the last change.
    pub updated_at: i64,
}

/// Why an operation on one note failed.
#[derive(Clone, Copy, Debug, PartialEq, Eq, Structural)]
pub enum NoteError {
    NotFound,
    BadColor,
}

impl NoteError {
    /// The text shown to the user for this error.
    pub fn message(&self) -> (r: String)
        ensures
            *self == NoteError::NotFound ==> r@ == "note not found"@,
            *self == NoteError::BadColor ==> r@ == "bad color, use #rgb or #rrggbb"@,
    {
        match self {
            NoteError::NotFound => owned("note not found"),
            NoteError::BadColor => owned("bad color, use #rgb or #rrggbb"),
        }
    }
}

impl Note {
    /// A copy of this note, equal to it.
    pub fn duplicate(&self) -> (r: Note)
        ensures
            r == *self,
    {
        Note {
            id: self.id.clone(),
            content: self.content.clone(),
            frame: self.frame,
            color: self.color.clone(),
            updated_at: self.updated_at,
        }
    }
}

/// Index of the first note of `s` whose id is `id`.
pub open spec fn find_note(s: Seq<Note>, id: Seq<char>) -> Option<int>
    decreases s.len(),
{
    if s.len() == 0 {
        None
    } else {
        match find_note(s.drop_last(), id) {
            Some(i) => Some(i),
            None => if s.last().id@ == id {
                Some(s.len() - 1)
            } else {
                None
            },
        }
    }
}

/// The note that a lookup of `id` in `s` gives.
pub open spec fn lookup(s: Seq<Note>, id: Seq<char>) -> Option<Note> {
    match find_note(s, id) {
        Some(i) => Some(s[i]),
        None => None,
    }
}

/// `s` without any note whose id is `id`, the others in their order.
pub open spec fn without_id(s: Seq<Note>, id: Seq<char>) -> Seq<Note>
    decreases s.len(),
{
    if s.len() == 0 {
        s
    } else if s.last().id@ == id {
        without_id(s.drop_last(), id)
    } else {
        without_id(s.drop_last(), id).push(s.last())
    }
}

/// `n` placed into `s`: over the first note with the same id, else at the end.
pub open spec fn upsert(s: Seq<Note>, n: Note) -> Seq<Note> {
    match find_note(s, n.id@) {
        Some(i) => s.update(i, n),
        None => s.push(n),
    }
}

/// `ours` placed one by one, in order, into `theirs`.
pub open spec fn merged(theirs: Seq<Note>, ours: Seq<Note>) -> Seq<Note>
    decreases ours.len(),
{
    if ours.len() == 0 {
        theirs
    } else {
        upsert(merged(theirs, ours.drop_last()), ours.last())
    }
}

/// What `find_note` means: the first match, or no match at all.
pub proof fn lemma_find_note(s: Seq<Note>, id: Seq<char>)
    ensures
        match find_note(s, id) {
            Some(i) => 0 <= i < s.len() && s[i].id@ == id && forall|j: int|
                0 <= j < i ==> (#[trigger] s[j]).id@ != id,
            None => forall|j: int| 0 <= j < s.len() ==> (#[trigger] s[j]).id@ != id,
        },
    decreases s.len(),
{
    if s.len() > 0 {
        lemma_find_note(s.drop_last(), id);
        let p = s.drop_last();
        match find_note(p, id) {
            Some(i) => {
                assert forall|j: int| 0 <= j < i implies (#[trigger] s[j]).id@ != id by {
                    assert(s[j] == p[j]);
                }
                assert(s[i] == p[i]);
            },
            None => {
                assert forall|j: int| 0 <= j < s.len() - 1 implies (#[trigger] s[j]).id@ != id by {
                    assert(s[j] == p[j]);
                }
            },
        }
    }
}

/// A first match is what `find_note` gives.
pub proof fn lemma_find_note_unique(s: Seq<Note>, id: Seq<char>, i: int)
    requires
        0 <= i < s.len(),
        s[i].id@ == id,
        forall|j: int| 0 <= j < i ==> (#[trigger] s[j]).id@ != id,
    ensures
        find_note(s, id) == Some(i),
{
    lemma_find_note(s, id);
    match find_note(s, id) {
        Some(k) => {
            if k < i {
                assert(s[k].id@ != id);
            }
            if k > i {
                assert(s[i].id@ != id);
            }
        },
        None => {
            assert(s[i].id@ != id);
        },
    }
}

/// No match means `find_note` gives nothing.
pub proof fn lemma_find_note_none(s: Seq<Note>, id: Seq<char>)
    requires
        forall|j: int| 0 <= j < s.len() ==> (#[trigger] s[j]).id@ != id,
    ensures
        find_note(s, id) is None,
{
    lemma_find_note(s, id);
    if let Some(k) = find_note(s, id) {
        assert(s[k].id@ != id);
    }
}

/// Position of the first note with id `id`.
pub fn position_of(notes: &Vec<Note>, id: &str) -> (r: Option<usize>)
    ensures
        match r {
            Some(i) => i < notes.len() && find_note(notes@, id@) == Some(i as int),
            None => find_note(notes@, id@) is None,
        },
{
    let mut i: usize = 0;
    while i < notes.len()
        invariant
            i <= notes.len(),
            forall|j: int| 0 <= j < i ==> (#[trigger] notes@[j]).id@ != id@,
        decreases notes.len() - i,
    {
        if same_text(notes[i].id.as_str(), id) {
            proof {
                lemma_find_note_unique(notes@, id@, i as int);
            }
            return Some(i);
        }
        i = i + 1;
    }
    proof {
        lemma_find_note_none(notes@, id@);
    }
    None
}

/// The first note with id `id` (`get_note`).
pub fn get_note(notes: &Vec<Note>, id: &str) -> (r: Option<Note>)
    ensures
        r == lookup(notes@, id@),
{
    match position_of(notes, id) {
        Some(i) => Some(notes[i].duplicate()),
        None => None,
    }
}

/// Colour of a note when it is created.
pub open spec fn default_note_color() -> Seq<char> {
    "#fff7a8"@
}

/// `notes` with the note at `i` given frame `frame` and timestamp `now`.
pub open spec fn with_frame(notes: Seq<Note>, i: int, frame: Frame, now: i64) -> Seq<Note> {
    notes.update(i, Note { frame, updated_at: now, ..notes[i] })
}

/// Removes every note whose id is `id` (`delete_note`); the others keep their order.
pub fn delete_note(notes: &mut Vec<Note>, id: &str)
    ensures
        final(notes)@ == without_id(old(notes)@, id@),
{
    let mut kept: Vec<Note> = Vec::new();
    let mut i: usize = 0;
    assert(notes@.take(0) =~= Seq::<Note>::empty());
    while i < notes.len()
        invariant
            i <= notes.len(),
            kept@ == without_id(notes@.take(i as int), id@),
        decreases notes.len() - i,
    {
        assert(notes@.take(i + 1).drop_last() =~= notes@.take(i as int));
        assert(notes@.take(i + 1).last() == notes@[i as int]);
        if !same_text(notes[i].id.as_str(), id) {
            kept.push(notes[i].duplicate());
        }
        i = i + 1;
    }
    assert(notes@.take(notes.len() as int) =~= notes@);
    *notes = kept;
}

/// Gives the first note with id `id` the frame `frame`, stamped `now`.
pub fn update_bounds_at(notes: &mut Vec<Note>, id: &str, frame: Frame, now: i64) -> (r: Result<
    (),
    NoteError,
>)
    ensures
        match find_note(old(notes)@, id@) {
            Some(i) => r is Ok && final(notes)@ == with_frame(old(notes)@, i, frame, now),
            None => r == Err::<(), NoteError>(NoteError::NotFound) && final(notes)@ == old(
                notes,
            )@,
        },
{
    match position_of(notes, id) {
        Some(i) => {
            let mut n = notes[i].duplicate();
            n.frame = frame;
            n.updated_at = now;
            notes.set(i, n);
            Ok(())
        },
        None => Err(NoteError::NotFound),
    }
}

/// Gives the first note with id `id` the frame `frame`, stamped with the
/// present time (`update_bounds`). The stamp is the clock's reading, of which
/// nothing is stated; `update_bounds_at` states the rest for a given stamp.
pub fn update_bounds(notes: &mut Vec<Note>, id: &str, frame: Frame) -> (r: Result<(), NoteError>)
    ensures
        match find_note(old(notes)@, id@) {
            Some(i) => r is Ok && final(notes)@ == with_frame(
                old(notes)@,
                i,
                frame,
                final(notes)@[i].updated_at,
            ),
            None => r == Err::<(), NoteError>(NoteError::NotFound) && final(notes)@ == old(
                notes,
            )@,
        },
{
    let now = now_ts();
    proof {
        lemma_find_note(notes@, id@);
    }
    update_bounds_at(notes, id, frame, now)
}

/// Replaces the content of the first note with id `id`, stamped `now`, and
/// returns that note as it now stands.
pub fn update_content_at(notes: &mut Vec<Note>, id: &str, content: String, now: i64) -> (r: Result<
    Note,
    NoteError,
>)
    ensures
        match find_note(old(notes)@, id@) {
            Some(i) => {
                let n = Note { content, updated_at: now, ..old(notes)@[i] };
                &&& r == Ok::<Note, NoteError>(n)
                &&& final(notes)@ == old(notes)@.update(i, n)
            },
            None => r == Err::<Note, NoteError>(NoteError::NotFound) && final(notes)@ == old(
                notes,
            )@,
        },
{
    match position_of(notes, id) {
        Some(i) => {
            let mut n = notes[i].duplicate();
            n.content = content;
            n.updated_at = now;
            let out = n.duplicate();
            notes.set(i, n);
            Ok(out)
        },
        None => Err(NoteError::NotFound),
    }
}

/// Replaces the content of the first note with id `id`, stamped with the
/// present time (`update_content`). The stamp is the clock's reading, of
/// which nothing is stated; `update_content_at` states the rest for a given
/// stamp.
pub fn update_content(notes: &mut Vec<Note>, id: &str, content: String) -> (r: Result<
    Note,
    NoteError,
>)
    ensures
        match find_note(old(notes)@, id@) {
            Some(i) => r matches Ok(n) && n == Note {
                content,
                updated_at: n.updated_at,
                ..old(notes)@[i]
            } && final(notes)@ == old(notes)@.update(i, n),
            None => r == Err::<Note, NoteError>(NoteError::NotFound) && final(notes)@ == old(
                notes,
            )@,
        },
{
    let now = now_ts();
    update_content_at(notes, id, content, now)
}

/// Takes content saved by an external editor into the first note with id
/// `id`, stamped `now`. Nothing changes, and `None` comes back, when no note
/// has that id or its content is already `content`.
pub fn apply_external_edit_at(notes: &mut Vec<Note>, id: &str, content: String, now: i64) -> (r:
    Option<Note>)
    ensures
        match find_note(old(notes)@, id@) {
            Some(i) => if old(notes)@[i].content@ == content@ {
                r is None && final(notes)@ == old(notes)@
            } else {
                let n = Note { content, updated_at: now, ..old(notes)@[i] };
                &&& r == Some(n)
                &&& final(notes)@ == old(notes)@.update(i, n)
            },
            None => r is None && final(notes)@ == old(notes)@,
        },
{
    match position_of(notes, id) {
        Some(i) => {
            if same_text(notes[i].content.as_str(), content.as_str()) {
                return None;
            }
            let mut n = notes[i].duplicate();
            n.content = content;
            n.updated_at = now;
            let out = n.duplicate();
            notes.set(i, n);
            Some(out)
        },
        None => None,
    }
}

/// Sets the colour of the first note with id `id` to `color` without
/// surrounding white space, stamped `now`. A colour that is not `#rgb` or
/// `#rrggbb` is refused before any note is looked at.
pub fn set_color_at(notes: &mut Vec<Note>, id: &str, color: &str, now: i64) -> (r: Result<
    Note,
    NoteError,
>)
    ensures
        !valid_color(trim(color@)) ==> r == Err::<Note, NoteError>(NoteError::BadColor)
            && final(notes)@ == old(notes)@,
        valid_color(trim(color@)) ==> match find_note(old(notes)@, id@) {
            Some(i) => {
                let n = old(notes)@[i];
                &&& r matches Ok(m) && m.color@ == trim(color@) && m == Note {
                    color: m.color,
                    updated_at: now,
                    ..n
                }
                &&& final(notes)@ == old(notes)@.update(i, r->Ok_0)
            },
            None => r == Err::<Note, NoteError>(NoteError::NotFound) && final(notes)@ == old(
                notes,
            )@,
        },
{
    let c = match checked_color(color) {
        Some(c) => c,
        None => return Err(NoteError::BadColor),
    };
    match position_of(notes, id) {
        Some(i) => {
            let mut n = notes[i].duplicate();
            n.color = c;
            n.updated_at = now;
            let out = n.duplicate();
            notes.set(i, n);
            Ok(out)
        },
        None => Err(NoteError::NotFound),
    }
}

/// Sets the colour of the first note with id `id`, stamped with the
/// present time (`set_color`). The stamp is the clock's reading, of which
/// nothing is stated; `set_color_at` states the rest for a given stamp.
pub fn set_color(notes: &mut Vec<Note>, id: &str, color: &str) -> (r: Result<Note, NoteError>)
    ensures
        !valid_color(trim(color@)) ==> r == Err::<Note, NoteError>(NoteError::BadColor)
            && final(notes)@ == old(notes)@,
        valid_color(trim(color@)) ==> match find_note(old(notes)@, id@) {
            Some(i) => {
                let n = old(notes)@[i];
                &&& r matches Ok(m) && m.color@ == trim(color@) && m == Note {
                    color: m.color,
                    updated_at: m.updated_at,
                    ..n
                }
                &&& final(notes)@ == old(notes)@.update(i, r->Ok_0)
            },
            None => r == Err::<Note, NoteError>(NoteError::NotFound) && final(notes)@ == old(
                notes,
            )@,
        },
{
    let now = now_ts();
    set_color_at(notes, id, color, now)
}

/// Left and top position, in logical pixels, of a note created when `count`
/// notes exist: notes cascade in ten steps of 28 pixels from 120.
pub fn new_note_origin(count: usize) -> (r: u32)
    ensures
        r == 120 + (count % 10) * 28,
{
    let step = (count % 10) as u32;
    120 + step * 28
}

/// Width and height, in logical pixels, of a new note.
pub const NEW_NOTE_SIZE: u32 = 280;

/// `s` is the text form of a random (version 4) UUID: 36 characters,
/// hyphens at 8, 13, 18 and 23, lowercase hexadecimal digits elsewhere,
/// `4` at 14 and one of `8`, `9`, `a`, `b` at 19.
pub open spec fn is_v4_uuid_text(s: Seq<char>) -> bool {
    &&& s.len() == 36
    &&& forall|i: int|
        0 <= i < 36 ==> if i == 8 || i == 13 || i == 18 || i == 23 {
            #[trigger] s[i] == '-'
        } else {
            ('0' <= s[i] <= '9') || ('a' <= s[i] <= 'f')
        }
    &&& s[14] == '4'
    &&& s[19] == '8' || s[19] == '9' || s[19] == 'a' || s[19] == 'b'
}

/// A fresh random id (`Uuid::new_v4`, written out by its `Display`): the
/// hyphenated lowercase form, with the version and variant digits that
/// `new_v4` sets. The other digits come from the random generator, so
/// nothing more is stated of them.
#[verifier::external_body]
fn new_note_id() -> (r: String)
    ensures
        is_v4_uuid_text(r@),
{
    uuid::Uuid::new_v4().to_string()
}

/// Appends a new note with id `id`, content `content`, frame `frame`, the
/// default colour and timestamp `now`, and returns it.
pub fn add_note_at(notes: &mut Vec<Note>, id: String, content: String, frame: Frame, now: i64) -> (r:
    Note)
    ensures
        r.id == id,
        r.content == content,
        r.frame == frame,
        r.color@ == default_note_color(),
        r.color@ == "#fff7a8"@,
        r.updated_at == now,
        final(notes)@ == old(notes)@.push(r),
{
    let n = Note { id, content, frame, color: owned("#fff7a8"), updated_at: now };
    let out = n.duplicate();
    notes.push(n);
    out
}

/// Appends a new note with a fresh random id, content `content` (empty when
/// absent), frame `frame`, the default colour and the present time
/// (`create_note`). The random digits of the id and the clock's reading are
/// not stated; `add_note_at` states the rest for a given id and stamp.
pub fn create_note(notes: &mut Vec<Note>, content: Option<String>, frame: Frame) -> (r: Note)
    ensures
        is_v4_uuid_text(r.id@),
        r.content@ == match content {
            Some(c) => c@,
            None => Seq::<char>::empty(),
        },
        r.frame == frame,
        r.color@ == default_note_color(),
        r.color@ == "#fff7a8"@,
        final(notes)@ == old(notes)@.push(r),
{
    let id = new_note_id();
    let body = match content {
        Some(c) => c,
        None => String::new(),
    };
    let now = now_ts();
    add_note_at(notes, id, body, frame, now)
}

/// Places `n` over the first note with the same id, or appends it.
pub fn upsert_note(notes: &mut Vec<Note>, n: Note)
    ensures
        final(notes)@ == upsert(old(notes)@, n),
{
    match position_of(notes, n.id.as_str()) {
        Some(i) => notes.set(i, n),
        None => notes.push(n),
    }
}

/// `theirs` with each of `ours` placed into it in order: a note of ours
/// replaces the first of theirs with the same id, or is appended.
pub fn merge_notes(theirs: Vec<Note>, ours: &Vec<Note>) -> (r: Vec<Note>)
    ensures
        r@ == merged(theirs@, ours@),
{
    let mut acc = theirs;
    let mut i: usize = 0;
    assert(ours@.take(0) =~= Seq::<Note>::empty());
    while i < ours.len()
        invariant
            i <= ours.len(),
            acc@ == merged(theirs@, ours@.take(i as int)),
        decreases ours.len() - i,
    {
        assert(ours@.take(i + 1).drop_last() =~= ours@.take(i as int));
        assert(ours@.take(i + 1).last() == ours@[i as int]);
        upsert_note(&mut acc, ours[i].duplicate());
        i = i + 1;
    }
    assert(ours@.take(ours.len() as int) =~= ours@);
    acc
}

/// The ids of all notes, in order (the windows `show_all_notes` opens).
pub fn note_ids(notes: &Vec<Note>) -> (r: Vec<String>)
    ensures
        r@.len() == notes@.len(),
        forall|i: int| 0 <= i < notes@.len() ==> #[trigger] r@[i] == notes@[i].id,
{
    let mut out: Vec<String> = Vec::new();
    let mut i: usize = 0;
    while i < notes.len()
        invariant
            i <= notes.len(),
            out@.len() == i,
            forall|k: int| 0 <= k < i ==> #[trigger] out@[k] == notes@[k].id,
        decreases notes.len() - i,
    {
        out.push(notes[i].id.clone());
        i = i + 1;
    }
    out
}

/// Label of the window that shows note `id`.
pub fn note_label(id: &str) -> (r: String)
    ensures
        r@ == "note-"@ + id@,
{
    let mut s = owned("note-");
    push_text(&mut s, id);
    s
}

/// Page, relative to the application, that a note window loads.
pub fn note_page(id: &str) -> (r: String)
    ensures
        r@ == "note.html?id="@ + id@,
{
    let mut s = owned("note.html?id=");
    push_text(&mut s, id);
    s
}

/// The last note of `s` whose id is `id`.
pub open spec fn last_with_id(s: Seq<Note>, id: Seq<char>) -> Option<Note>
    decreases s.len(),
{
    if s.len() == 0 {
        None
    } else if s.last().id@ == id {
        Some(s.last())
    } else {
        last_with_id(s.drop_last(), id)
    }
}

/// Replacing the note that a lookup finds by another with the same id: a
/// lookup of that id gives the new note, and lookups of other ids give
/// what they gave before.
pub proof fn law_lookup_after_replace(s: Seq<Note>, id: Seq<char>, n: Note, other: Seq<char>)
    requires
        find_note(s, id) is Some,
        n.id@ == id,
    ensures
        lookup(s.update(find_note(s, id)->0, n), id) == Some(n),
        other != id ==> lookup(s.update(find_note(s, id)->0, n), other) == lookup(s, other),
{
    let i = find_note(s, id)->0;
    let t = s.update(i, n);
    lemma_find_note(s, id);
    assert forall|j: int| 0 <= j < i implies (#[trigger] t[j]).id@ != id by {
        assert(t[j] == s[j]);
    }
    lemma_find_note_unique(t, id, i);
    if other != id {
        lemma_find_note(s, other);
        match find_note(s, other) {
            Some(k) => {
                assert forall|j: int| 0 <= j < k implies (#[trigger] t[j]).id@ != other by {
                    if j != i {
                        assert(t[j] == s[j]);
                    }
                }
                assert(k != i);
                assert(t[k] == s[k]);
                lemma_find_note_unique(t, other, k);
            },
            None => {
                assert forall|j: int| 0 <= j < t.len() implies (#[trigger] t[j]).id@ != other by {
                    if j != i {
                        assert(t[j] == s[j]);
                    }
                }
                lemma_find_note_none(t, other);
            },
        }
    }
}

/// Appending a note whose id no note has yet: a lookup of that id gives it,
/// and lookups of other ids give what they gave before.
pub proof fn law_lookup_after_append(s: Seq<Note>, n: Note, other: Seq<char>)
    requires
        find_note(s, n.id@) is None,
    ensures
        lookup(s.push(n), n.id@) == Some(n),
        other != n.id@ ==> lookup(s.push(n), other) == lookup(s, other),
{
    assert(s.push(n).drop_last() =~= s);
    if other != n.id@ {
        lemma_find_note(s, other);
        if let Some(k) = find_note(s, other) {
            assert(s.push(n)[k] == s[k]);
        }
    }
}

/// Deleting by id: no note with that id is left, and lookups of other ids
/// give what they gave before.
pub proof fn law_lookup_after_delete(s: Seq<Note>, id: Seq<char>, other: Seq<char>)
    ensures
        lookup(without_id(s, id), id) is None,
        other != id ==> lookup(without_id(s, id), other) == lookup(s, other),
    decreases s.len(),
{
    if s.len() > 0 {
        let p = s.drop_last();
        law_lookup_after_delete(p, id, other);
        let w = without_id(p, id);
        if s.last().id@ == id {
            if other != id {
                lemma_lookup_of_push_last(s, other);
            }
        } else {
            assert(w.push(s.last()).drop_last() =~= w);
            if other != id {
                lemma_find_note(p, other);
                lemma_lookup_of_push_last(s, other);
                lemma_lookup_push_same_prefix(w, s.last(), other);
            }
        }
    }
}

/// A lookup in `s` goes to its prefix unless only the last note matches.
proof fn lemma_lookup_of_push_last(s: Seq<Note>, id: Seq<char>)
    requires
        s.len() > 0,
    ensures
        lookup(s.drop_last(), id) is Some ==> lookup(s, id) == lookup(s.drop_last(), id),
        lookup(s.drop_last(), id) is None ==> lookup(s, id) == if s.last().id@ == id {
            Some(s.last())
        } else {
            None
        },
{
    let p = s.drop_last();
    lemma_find_note(p, id);
    if let Some(k) = find_note(p, id) {
        assert(s[k] == p[k]);
    }
}

/// Lookup in `w.push(n)` through the same split as in `lemma_lookup_of_push_last`.
proof fn lemma_lookup_push_same_prefix(w: Seq<Note>, n: Note, id: Seq<char>)
    ensures
        lookup(w, id) is Some ==> lookup(w.push(n), id) == lookup(w, id),
        lookup(w, id) is None ==> lookup(w.push(n), id) == if n.id@ == id {
            Some(n)
        } else {
            None
        },
{
    assert(w.push(n).drop_last() =~= w);
    lemma_lookup_of_push_last(w.push(n), id);
}

/// A lookup after `upsert` of `n`: `n` for its own id, unchanged for others.
pub proof fn lemma_lookup_upsert(s: Seq<Note>, n: Note, id: Seq<char>)
    ensures
        lookup(upsert(s, n), id) == if n.id@ == id {
            Some(n)
        } else {
            lookup(s, id)
        },
{
    match find_note(s, n.id@) {
        Some(i) => {
            law_lookup_after_replace(s, n.id@, n, id);
        },
        None => {
            law_lookup_after_append(s, n, id);
        },
    }
}

/// Merging keeps our notes over theirs: a lookup in the merge gives the
/// last of our notes with that id, and where we have none, their note.
pub proof fn law_merge_ours_win(theirs: Seq<Note>, ours: Seq<Note>, id: Seq<char>)
    ensures
        lookup(merged(theirs, ours), id) == match last_with_id(ours, id) {
            Some(n) => Some(n),
            None => lookup(theirs, id),
        },
    decreases ours.len(),
{
    if ours.len() > 0 {
        law_merge_ours_win(theirs, ours.drop_last(), id);
        lemma_lookup_upsert(merged(theirs, ours.drop_last()), ours.last(), id);
    }
}

/// The notes read from the stored text `text`: none when the text is blank
/// or did not parse (`parsed` is what parsing it gave), else the parsed ones.
pub fn notes_from_stored(text: &str, parsed: Option<Vec<Note>>) -> (r: Vec<Note>)
    ensures
        all_white(text@) ==> r@ == Seq::<Note>::empty(),
        !all_white(text@) ==> r@ == match parsed {
            Some(p) => p@,
            None => Seq::<Note>::empty(),
        },
{
    if is_blank(text) {
        return Vec::new();
    }
    match parsed {
        Some(p) => p,
        None => Vec::new(),
    }
}

/// Some note of `s` has id `id`.
pub open spec fn has_id(s: Seq<Note>, id: Seq<char>) -> bool {
    exists|j: int| 0 <= j < s.len() && (#[trigger] s[j]).id@ == id
}

/// No two notes of `s` share an id.
pub open spec fn unique_ids(s: Seq<Note>) -> bool {
    forall|i: int, j: int| 0 <= i < s.len() && 0 <= j < s.len() && i != j ==> (#[trigger] s[i]).id@
        != (#[trigger] s[j]).id@
}

/// Placing a note: when a note with its id exists, the store keeps its
/// length and only the first such note is replaced, every other position
/// unchanged; otherwise the note is appended after all the others.
pub proof fn law_upsert_shape(s: Seq<Note>, n: Note)
    ensures
        has_id(s, n.id@) ==> upsert(s, n).len() == s.len() && forall|j: int|
            0 <= j < s.len() ==> #[trigger] upsert(s, n)[j] == if s[j].id@ == n.id@ && forall|k: int|
                0 <= k < j ==> s[k].id@ != n.id@ {
                n
            } else {
                s[j]
            },
        !has_id(s, n.id@) ==> upsert(s, n).len() == s.len() + 1 && upsert(s, n)[s.len() as int]
            == n && forall|j: int| 0 <= j < s.len() ==> #[trigger] upsert(s, n)[j] == s[j],
{
    lemma_find_note(s, n.id@);
    match find_note(s, n.id@) {
        Some(i) => {
            assert forall|j: int| 0 <= j < s.len() implies #[trigger] upsert(s, n)[j] == if s[j].id@
                == n.id@ && forall|k: int| 0 <= k < j ==> s[k].id@ != n.id@ {
                n
            } else {
                s[j]
            } by {
                if j < i {
                } else if j > i {
                    assert(s[i].id@ == n.id@);
                }
            }
        },
        None => {
            if has_id(s, n.id@) {
                let j = choose|j: int| 0 <= j < s.len() && (#[trigger] s[j]).id@ == n.id@;
                assert(s[j].id@ != n.id@);
            }
        },
    }
}

/// `upsert` keeps the id at every position it had.
proof fn lemma_upsert_keeps_ids(s: Seq<Note>, n: Note)
    ensures
        upsert(s, n).len() >= s.len(),
        forall|j: int| 0 <= j < s.len() ==> (#[trigger] upsert(s, n)[j]).id@ == s[j].id@,
        forall|j: int| 0 <= j < upsert(s, n).len() ==> ((#[trigger] upsert(s, n)[j]) == n || (
            j < s.len() && upsert(s, n)[j] == s[j])),
        has_id(upsert(s, n), n.id@),
{
    lemma_find_note(s, n.id@);
    match find_note(s, n.id@) {
        Some(i) => {
            assert(upsert(s, n)[i] == n);
        },
        None => {
            assert(upsert(s, n)[s.len() as int] == n);
        },
    }
}

/// Merging keeps their notes' ids at their places: the merge is at least as
/// long as their store, and position `j` of it has the id their note `j` had.
pub proof fn law_merge_keeps_their_places(theirs: Seq<Note>, ours: Seq<Note>)
    ensures
        merged(theirs, ours).len() >= theirs.len(),
        forall|j: int| 0 <= j < theirs.len() ==> (#[trigger] merged(theirs, ours)[j]).id@
            == theirs[j].id@,
    decreases ours.len(),
{
    if ours.len() > 0 {
        let m = merged(theirs, ours.drop_last());
        law_merge_keeps_their_places(theirs, ours.drop_last());
        lemma_upsert_keeps_ids(m, ours.last());
        assert forall|j: int| 0 <= j < theirs.len() implies (#[trigger] merged(
            theirs,
            ours,
        )[j]).id@ == theirs[j].id@ by {
            assert(upsert(m, ours.last())[j].id@ == m[j].id@);
        }
    }
}

/// Placing a note keeps ids distinct.
proof fn lemma_upsert_unique(s: Seq<Note>, n: Note)
    requires
        unique_ids(s),
    ensures
        unique_ids(upsert(s, n)),
{
    law_upsert_shape(s, n);
    lemma_upsert_keeps_ids(s, n);
    let u = upsert(s, n);
    if !has_id(s, n.id@) {
        assert forall|i: int, j: int| 0 <= i < u.len() && 0 <= j < u.len() && i != j implies (
        #[trigger] u[i]).id@ != (#[trigger] u[j]).id@ by {
            if i == s.len() {
                assert(u[j] == s[j]);
            } else if j == s.len() {
                assert(u[i] == s[i]);
            } else {
                assert(u[i] == s[i] && u[j] == s[j]);
            }
        }
    } else {
        assert forall|i: int, j: int| 0 <= i < u.len() && 0 <= j < u.len() && i != j implies (
        #[trigger] u[i]).id@ != (#[trigger] u[j]).id@ by {
            assert(u[i].id@ == s[i].id@);
            assert(u[j].id@ == s[j].id@);
        }
    }
}

/// Merging adds no duplicate: when their ids are distinct, so are the ids
/// of the merge.
pub proof fn law_merge_no_duplicates(theirs: Seq<Note>, ours: Seq<Note>)
    requires
        unique_ids(theirs),
    ensures
        unique_ids(merged(theirs, ours)),
    decreases ours.len(),
{
    if ours.len() > 0 {
        law_merge_no_duplicates(theirs, ours.drop_last());
        lemma_upsert_unique(merged(theirs, ours.drop_last()), ours.last());
    }
}

/// Every note of the merge is one of theirs or one of ours, and every id of
/// either store is in the merge.
pub proof fn law_merge_contents(theirs: Seq<Note>, ours: Seq<Note>)
    ensures
        forall|j: int| 0 <= j < merged(theirs, ours).len() ==> theirs.contains(
            #[trigger] merged(theirs, ours)[j],
        ) || ours.contains(merged(theirs, ours)[j]),
        forall|id: Seq<char>| has_id(theirs, id) || has_id(ours, id) ==> #[trigger] has_id(
            merged(theirs, ours),
            id,
        ),
    decreases ours.len(),
{
    if ours.len() > 0 {
        let p = ours.drop_last();
        let m = merged(theirs, p);
        let n = ours.last();
        law_merge_contents(theirs, p);
        lemma_upsert_keeps_ids(m, n);
        let u = merged(theirs, ours);
        assert forall|j: int| 0 <= j < u.len() implies theirs.contains(#[trigger] u[j])
            || ours.contains(u[j]) by {
            if u[j] == n {
                assert(ours[ours.len() - 1] == n);
            } else {
                assert(u[j] == m[j]);
                if p.contains(m[j]) {
                    let k = choose|k: int| 0 <= k < p.len() && p[k] == m[j];
                    assert(ours[k] == p[k]);
                }
            }
        }
        assert forall|id: Seq<char>| has_id(theirs, id) || has_id(ours, id) implies #[trigger] has_id(
            u,
            id,
        ) by {
            if id == n.id@ {
            } else if has_id(theirs, id) || has_id(p, id) {
                assert(has_id(m, id));
                let k = choose|k: int| 0 <= k < m.len() && (#[trigger] m[k]).id@ == id;
                assert(u[k].id@ == id);
            } else {
                let k = choose|k: int| 0 <= k < ours.len() && (#[trigger] ours[k]).id@ == id;
                if k < p.len() {
                    assert(p[k] == ours[k]);
                }
            }
        }
    }
}

} // verus!
