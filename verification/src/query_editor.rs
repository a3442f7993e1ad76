//! The single-line text field behind the command palette and Quick Open.
//!
//! The smallest editor that behaves the way a macOS text field is expected to: a
//! caret, a selection anchor, and word and line motion. Offsets are byte indices
//! into the text and always land on `char` boundaries.

use std::ops::Range;

use vstd::prelude::*;
use vstd::string::*;

use crate::controls;
use crate::editor_laws;
use crate::segments;
use crate::utf8;

verus! {

/// How far a motion or deletion reaches.
#[derive(Clone, Copy, Debug, PartialEq, Eq, Structural)]
pub enum Motion {
    /// One grapheme: what an unmodified arrow or backspace does.
    Character,
    /// To the next word boundary.
    Word,
    /// To the start or end of the line.
    Line,
}

/// An edit a query field can apply on its own.
#[derive(Clone, Debug, PartialEq, Eq)]
pub enum LocalEdit {
    Insert(String),
    SelectAll,
    DeleteBackward(Motion),
    DeleteForward(Motion),
    MoveLeft(Motion, bool),
    MoveRight(Motion, bool),
}

/// What a `LocalEdit` asks for.
pub enum FieldEdit {
    Insert(Seq<char>),
    SelectAll,
    DeleteBackward(Motion),
    DeleteForward(Motion),
    MoveLeft(Motion, bool),
    MoveRight(Motion, bool),
}

impl View for LocalEdit {
    type V = FieldEdit;

    open spec fn view(&self) -> FieldEdit {
        match *self {
            LocalEdit::Insert(text) => FieldEdit::Insert(text@),
            LocalEdit::SelectAll => FieldEdit::SelectAll,
            LocalEdit::DeleteBackward(motion) => FieldEdit::DeleteBackward(motion),
            LocalEdit::DeleteForward(motion) => FieldEdit::DeleteForward(motion),
            LocalEdit::MoveLeft(motion, extend) => FieldEdit::MoveLeft(motion, extend),
            LocalEdit::MoveRight(motion, extend) => FieldEdit::MoveRight(motion, extend),
        }
    }
}

/// Where a motion to the left from byte offset `from` of `text` arrives.
pub open spec fn offset_before(text: Seq<char>, from: int, motion: Motion) -> int {
    match motion {
        Motion::Line => 0,
        Motion::Character => match segments::last_grapheme_start_of(utf8::before(text, from)) {
            Some(start) => start,
            None => 0,
        },
        Motion::Word => segments::word_start_in(
            segments::word_bounds_from_back_of(utf8::before(text, from)),
        ),
    }
}

/// Where a motion to the right from byte offset `from` of `text` arrives.
pub open spec fn offset_after(text: Seq<char>, from: int, motion: Motion) -> int {
    let rest = utf8::after(text, from);
    match motion {
        Motion::Line => utf8::utf8_len(text) as int,
        Motion::Character => from + segments::first_len_in(segments::graphemes_of(rest)),
        Motion::Word => from + segments::word_end_in(
            segments::word_bounds_of(rest),
            utf8::utf8_len(rest) as int,
        ),
    }
}

/// `at` is where the last word in front of `from` starts: it holds an alphanumeric
/// `char`, and nothing but separators lies between its end and `from`. It is the
/// start of the text where there is no such word.
pub open spec fn is_word_start_before(text: Seq<char>, at: int, from: int) -> bool {
    ||| at == 0 && segments::separates(utf8::before(text, from))
    ||| exists|end: int| #[trigger]
        utf8::is_cut(text, at, end) && end <= from && !segments::separates(
            utf8::between(text, at, end),
        ) && segments::separates(utf8::between(text, end, from))
}

/// `at` is where the first word behind `from` ends: it holds an alphanumeric
/// `char`, and nothing but separators lies between `from` and its start. It is the
/// end of the text where there is no such word.
pub open spec fn is_word_end_after(text: Seq<char>, at: int, from: int) -> bool {
    ||| at == utf8::utf8_len(text) && segments::separates(utf8::after(text, from))
    ||| exists|start: int| #[trigger]
        utf8::is_cut(text, start, at) && from <= start && !segments::separates(
            utf8::between(text, start, at),
        ) && segments::separates(utf8::between(text, from, start))
}

/// The two ends of `range`.
pub open spec fn span_of(range: Option<Range<usize>>) -> Option<(int, int)> {
    match range {
        Some(range) => Some((range.start as int, range.end as int)),
        None => None,
    }
}

/// A text field: its text, the byte offset of the caret, and the fixed end of
/// the selection, equal to the caret when nothing is selected.
#[verifier::ext_equal]
pub struct FieldState {
    pub text: Seq<char>,
    pub cursor: int,
    pub anchor: int,
}

impl FieldState {
    /// Both ends of the selection lie on `char` boundaries of the text.
    pub open spec fn wf(self) -> bool {
        utf8::is_boundary(self.text, self.cursor) && utf8::is_boundary(self.text, self.anchor)
    }

    /// The left end of the selection; the caret when nothing is selected.
    pub open spec fn start(self) -> int {
        if self.cursor <= self.anchor {
            self.cursor
        } else {
            self.anchor
        }
    }

    /// The right end of the selection; the caret when nothing is selected.
    pub open spec fn end(self) -> int {
        if self.cursor <= self.anchor {
            self.anchor
        } else {
            self.cursor
        }
    }

    pub open spec fn has_selection(self) -> bool {
        self.cursor != self.anchor
    }

    pub open spec fn selection(self) -> Option<(int, int)> {
        if self.has_selection() {
            Some((self.start(), self.end()))
        } else {
            None
        }
    }

    pub open spec fn selected_text(self) -> Option<Seq<char>> {
        if self.has_selection() {
            Some(utf8::between(self.text, self.start(), self.end()))
        } else {
            None
        }
    }

    /// The text that is drawn: with `caret` in it, unless something is selected.
    pub open spec fn drawn(self, caret: Seq<char>) -> Seq<char> {
        if self.has_selection() {
            self.text
        } else {
            utf8::splice(self.text, self.cursor, self.cursor, caret)
        }
    }

    /// The field with nothing in it.
    pub open spec fn empty() -> FieldState {
        FieldState { text: Seq::empty(), cursor: 0, anchor: 0 }
    }

    /// The field with `from..to` replaced by `insertion` and the caret behind it.
    pub open spec fn with_replaced(self, from: int, to: int, insertion: Seq<char>) -> FieldState {
        let caret = from + utf8::utf8_len(insertion);
        FieldState {
            text: utf8::splice(self.text, from, to, insertion),
            cursor: caret,
            anchor: caret,
        }
    }

    /// The field without `from..to` and the caret where that was.
    pub open spec fn with_removed(self, from: int, to: int) -> FieldState {
        self.with_replaced(from, to, Seq::empty())
    }

    /// The field without what is selected.
    pub open spec fn without_selection(self) -> FieldState {
        self.with_removed(self.start(), self.end())
    }

    /// The field with the caret at `to`; the anchor stays put while `extend` holds.
    pub open spec fn with_caret(self, to: int, extend: bool) -> FieldState {
        FieldState {
            text: self.text,
            cursor: to,
            anchor: if extend {
                self.anchor
            } else {
                to
            },
        }
    }

    pub open spec fn all_selected(self) -> FieldState {
        FieldState {
            text: self.text,
            cursor: utf8::utf8_len(self.text) as int,
            anchor: 0,
        }
    }

    /// What the field takes of `insertion`, in place of the selection.
    pub open spec fn inserted(self, insertion: Seq<char>, multiline: bool) -> FieldState {
        self.with_replaced(self.start(), self.end(), controls::taken(insertion, multiline))
    }

    /// Without the selection, else without what `motion` reaches backwards.
    pub open spec fn deleted_backward(self, motion: Motion) -> FieldState {
        if self.has_selection() {
            self.without_selection()
        } else {
            self.with_removed(offset_before(self.text, self.cursor, motion), self.cursor)
        }
    }

    /// Without the selection, else without what `motion` reaches forwards.
    pub open spec fn deleted_forward(self, motion: Motion) -> FieldState {
        if self.has_selection() {
            self.without_selection()
        } else {
            self.with_removed(self.cursor, offset_after(self.text, self.cursor, motion))
        }
    }

    /// Without the selection, else without what lies between the caret and the
    /// boundary at or before `offset`.
    pub open spec fn deleted_to(self, offset: nat) -> FieldState {
        let to = utf8::floor_boundary(self.text, offset);
        if self.has_selection() {
            self.without_selection()
        } else if to <= self.cursor {
            self.with_removed(to, self.cursor)
        } else {
            self.with_removed(self.cursor, to)
        }
    }

    /// The caret moved left. A selection that is not extended collapses to its
    /// left end first, which is as far as a motion by one grapheme goes.
    pub open spec fn moved_left(self, motion: Motion, extend: bool) -> FieldState {
        if extend {
            self.with_caret(offset_before(self.text, self.cursor, motion), true)
        } else if self.has_selection() && motion == Motion::Character {
            self.with_caret(self.start(), false)
        } else {
            self.with_caret(offset_before(self.text, self.start(), motion), false)
        }
    }

    /// The caret moved right. A selection that is not extended collapses to its
    /// right end first, which is as far as a motion by one grapheme goes.
    pub open spec fn moved_right(self, motion: Motion, extend: bool) -> FieldState {
        if extend {
            self.with_caret(offset_after(self.text, self.cursor, motion), true)
        } else if self.has_selection() && motion == Motion::Character {
            self.with_caret(self.end(), false)
        } else {
            self.with_caret(offset_after(self.text, self.end(), motion), false)
        }
    }

    /// The caret moved to the boundary at or before `offset`.
    pub open spec fn moved_to(self, offset: nat, extend: bool) -> FieldState {
        self.with_caret(utf8::floor_boundary(self.text, offset), extend)
    }

    /// The field after `edit`.
    pub open spec fn applied(self, edit: FieldEdit) -> FieldState {
        match edit {
            FieldEdit::Insert(text) => self.inserted(text, false),
            FieldEdit::SelectAll => self.all_selected(),
            FieldEdit::DeleteBackward(motion) => self.deleted_backward(motion),
            FieldEdit::DeleteForward(motion) => self.deleted_forward(motion),
            FieldEdit::MoveLeft(motion, extend) => self.moved_left(motion, extend),
            FieldEdit::MoveRight(motion, extend) => self.moved_right(motion, extend),
        }
    }

    /// Whether an insertion is reported as a change: what the field takes of it is
    /// not what it replaces.
    pub open spec fn reports_insert(self, insertion: Seq<char>, multiline: bool) -> bool {
        controls::taken(insertion, multiline) != utf8::between(
            self.text,
            self.start(),
            self.end(),
        )
    }

    /// Whether `edit` is reported as a change of the text.
    pub open spec fn reports(self, edit: FieldEdit) -> bool {
        match edit {
            FieldEdit::Insert(text) => self.reports_insert(text, false),
            FieldEdit::DeleteBackward(motion) => self.has_selection() || self.cursor > 0,
            FieldEdit::DeleteForward(motion) => self.has_selection() || self.cursor
                < utf8::utf8_len(self.text),
            _ => false,
        }
    }
}

/// Replacing a cut of a field leaves a field whose caret is on a boundary, and
/// changes the text unless the cut is put in its own place.
pub proof fn lemma_with_replaced(field: FieldState, from: int, to: int, insertion: Seq<char>)
    requires
        utf8::is_cut(field.text, from, to),
    ensures
        field.with_replaced(from, to, insertion).wf(),
        utf8::utf8_len(field.with_replaced(from, to, insertion).text) == utf8::utf8_len(field.text)
            - (to - from) + utf8::utf8_len(insertion),
        field.with_replaced(from, to, insertion).cursor <= utf8::utf8_len(
            field.with_replaced(from, to, insertion).text,
        ),
        field.with_replaced(from, to, insertion).text == field.text <==> insertion
            == utf8::between(field.text, from, to),
        from == to ==> utf8::between(field.text, from, to) == Seq::<char>::empty(),
{
    utf8::lemma_splice(field.text, from, to, insertion);
    utf8::lemma_boundary(field.with_replaced(from, to, insertion).text, from);
    utf8::lemma_boundary(
        field.with_replaced(from, to, insertion).text,
        from + utf8::utf8_len(insertion),
    );
    utf8::lemma_between(field.text, from, to);
    utf8::lemma_len_zero(utf8::between(field.text, from, to));
    let front = utf8::before(field.text, from);
    let spliced = field.with_replaced(from, to, insertion).text;
    if spliced == field.text {
        let old = utf8::between(field.text, from, to);
        assert(insertion =~= spliced.subrange(front.len() as int, (front + insertion).len() as int));
        assert(old =~= field.text.subrange(front.len() as int, (front + old).len() as int));
    }
}

/// The editor of a query field.
#[derive(Clone, Debug, PartialEq, Eq)]
pub struct QueryEditor {
    text: String,
    cursor: usize,
    /// The fixed end of the selection. Equal to `cursor` when nothing is
    /// selected, which is the only state the caret is drawn in.
    anchor: usize,
}

impl View for QueryEditor {
    type V = FieldState;

    closed spec fn view(&self) -> FieldState {
        FieldState { text: self.text@, cursor: self.cursor as int, anchor: self.anchor as int }
    }
}

impl Default for QueryEditor {
    fn default() -> (editor: QueryEditor)
        ensures
            editor.wf(),
            editor@ == FieldState::empty(),
    {
        let editor = QueryEditor { text: String::new(), cursor: 0, anchor: 0 };
        proof {
            utf8::lemma_boundary(editor.text@, 0);
        }
        editor
    }
}

impl QueryEditor {
    /// The caret and the anchor lie on `char` boundaries of the text.
    pub open spec fn wf(&self) -> bool {
        self@.wf()
    }

    pub fn text(&self) -> (text: &str)
        ensures
            text@ == self@.text,
    {
        self.text.as_str()
    }

    pub fn is_empty(&self) -> (empty: bool)
        ensures
            empty == (self@.text.len() == 0),
    {
        self.text.as_str().is_empty()
    }

    pub fn cursor(&self) -> (cursor: usize)
        ensures
            cursor == self@.cursor,
    {
        self.cursor
    }

    /// The selected byte range, or `None` when the selection is empty.
    pub fn selection(&self) -> (range: Option<Range<usize>>)
        ensures
            span_of(range) == self@.selection(),
    {
        if self.cursor == self.anchor {
            None
        } else if self.cursor < self.anchor {
            Some(Range { start: self.cursor, end: self.anchor })
        } else {
            Some(Range { start: self.anchor, end: self.cursor })
        }
    }

    pub fn selected_text(&self) -> (text: Option<&str>)
        requires
            self.wf(),
        ensures
            match text {
                Some(text) => self@.selected_text() == Some(text@),
                None => self@.selected_text() is None,
            },
    {
        match self.selection() {
            Some(range) => Some(utf8::slice(self.text.as_str(), range.start, range.end)),
            None => None,
        }
    }

    /// What to draw: the text with `caret` spliced in at the cursor, plus the
    /// byte range to paint as a selection. The caret is hidden while a selection
    /// exists: the selection is the cursor, and callers never have to decide.
    pub fn display(&self, caret: &str) -> (drawn: (String, Option<Range<usize>>))
        requires
            self.wf(),
        ensures
            span_of(drawn.1) == self@.selection(),
            drawn.0@ == self@.drawn(caret@),
            self@.has_selection() ==> drawn.0@ == self@.text,
            !self@.has_selection() ==> drawn.0@ == utf8::splice(
                self@.text,
                self@.cursor,
                self@.cursor,
                caret@,
            ),
    {
        match self.selection() {
            Some(range) => (self.text.clone(), Some(range)),
            None => (utf8::spliced(self.text.as_str(), self.cursor, self.cursor, caret), None),
        }
    }

    pub fn clear(&mut self)
        ensures
            final(self).wf(),
            final(self)@ == FieldState::empty(),
    {
        *self = QueryEditor::default();
    }

    pub fn select_all(&mut self)
        ensures
            final(self).wf(),
            final(self)@ == old(self)@.all_selected(),
    {
        self.anchor = 0;
        self.cursor = utf8::byte_len(self.text.as_str());
        proof {
            utf8::lemma_boundary(self.text@, 0);
        }
    }

    /// Replace the selection (if any) with `insertion`, leaving the caret after
    /// it. Control characters are dropped so that a stray paste cannot corrupt
    /// the single line. Reports whether the text changed: callers use that to avoid
    /// ranking anew on a keystroke that did nothing.
    pub fn insert(&mut self, insertion: &str) -> (changed: bool)
        requires
            old(self).wf(),
        ensures
            final(self).wf(),
            final(self)@ == old(self)@.inserted(insertion@, false),
            changed == (final(self)@.text != old(self)@.text),
            changed == old(self)@.reports_insert(insertion@, false),
            !changed && !old(self)@.has_selection() ==> final(self)@ == old(self)@,
            forall|multiline: bool| #[trigger]
                controls::clean(old(self)@.text, multiline) ==> controls::clean(
                    final(self)@.text,
                    multiline,
                ),
    {
        let filtered = controls::take_text(insertion, false);
        proof {
            assert forall|multiline: bool| #[trigger]
                controls::clean(self@.text, multiline) implies controls::clean(
                self@.inserted(insertion@, false).text,
                multiline,
            ) by {
                editor_laws::law_insert_admits_no_control_characters(
                    self@,
                    insertion@,
                    multiline,
                );
            }
        }
        self.replace_selection(filtered.as_str())
    }

    /// Insert composer text while preserving line breaks. Search fields call
    /// `insert` and stay strictly single-line; prompt composers use this variant
    /// so that pasted paragraphs retain their shape. Reports whether the text changed.
    pub fn insert_multiline(&mut self, insertion: &str) -> (changed: bool)
        requires
            old(self).wf(),
        ensures
            final(self).wf(),
            final(self)@ == old(self)@.inserted(insertion@, true),
            changed == (final(self)@.text != old(self)@.text),
            changed == old(self)@.reports_insert(insertion@, true),
            !changed && !old(self)@.has_selection() ==> final(self)@ == old(self)@,
            controls::clean(old(self)@.text, true) ==> controls::clean(final(self)@.text, true),
    {
        let filtered = controls::take_text(insertion, true);
        proof {
            if controls::clean(self@.text, true) {
                editor_laws::law_insert_admits_no_control_characters(self@, insertion@, true);
            }
        }
        self.replace_selection(filtered.as_str())
    }

    fn replace_selection(&mut self, filtered: &str) -> (changed: bool)
        requires
            old(self).wf(),
        ensures
            final(self).wf(),
            final(self)@ == old(self)@.with_replaced(
                old(self)@.start(),
                old(self)@.end(),
                filtered@,
            ),
            changed == (final(self)@.text != old(self)@.text),
            changed == (filtered@ != utf8::between(
                old(self)@.text,
                old(self)@.start(),
                old(self)@.end(),
            )),
            !changed && !old(self)@.has_selection() ==> final(self)@ == old(self)@,
    {
        let ghost before = self@;
        proof {
            lemma_with_replaced(before, before.start(), before.end(), filtered@);
            if filtered@.len() == 0 {
                assert(filtered@ =~= Seq::empty());
                utf8::lemma_len_zero(filtered@);
            }
        }
        let (start, end) = match self.selection() {
            Some(range) => (range.start, range.end),
            None => {
                if filtered.is_empty() {
                    return false;
                }
                (self.cursor, self.cursor)
            },
        };
        let same: bool = utf8::same_text(
            utf8::slice(self.text.as_str(), start, end),
            filtered,
        );
        self.replace(start, end, filtered);
        !same
    }

    /// Put `insertion` in the place of `from..to`, and the caret behind it.
    fn replace(&mut self, from: usize, to: usize, insertion: &str)
        requires
            utf8::is_cut(old(self)@.text, from as int, to as int),
        ensures
            final(self).wf(),
            final(self)@ == old(self)@.with_replaced(from as int, to as int, insertion@),
    {
        let ghost before = self@;
        proof {
            lemma_with_replaced(before, from as int, to as int, insertion@);
        }
        self.text = utf8::spliced(self.text.as_str(), from, to, insertion);
        // The text has a length, so every offset into it fits.
        let _len: usize = utf8::byte_len(self.text.as_str());
        let added: usize = utf8::byte_len(insertion);
        self.cursor = from + added;
        self.anchor = self.cursor;
    }

    /// Remove `from..to`, leaving the caret where it was.
    fn remove(&mut self, from: usize, to: usize)
        requires
            utf8::is_cut(old(self)@.text, from as int, to as int),
            from < to,
        ensures
            final(self).wf(),
            final(self)@ == old(self)@.with_removed(from as int, to as int),
            final(self)@.text != old(self)@.text,
            forall|multiline: bool| #[trigger]
                controls::clean(old(self)@.text, multiline) ==> controls::clean(
                    final(self)@.text,
                    multiline,
                ),
    {
        let ghost before = self@;
        proof {
            assert forall|multiline: bool| #[trigger]
                controls::clean(before.text, multiline) implies controls::clean(
                utf8::splice(before.text, from as int, to as int, Seq::empty()),
                multiline,
            ) by {
                controls::lemma_splice_is_clean(
                    before.text,
                    from as int,
                    to as int,
                    Seq::empty(),
                    multiline,
                );
            }
            reveal_strlit("");
            assert(""@ =~= Seq::<char>::empty());
            lemma_with_replaced(before, from as int, to as int, Seq::empty());
            utf8::lemma_len_zero(Seq::empty());
        }
        self.replace(from, to, "");
    }

    /// Backspace: delete the selection, else reach backwards by `motion`. Reports
    /// whether the text changed: always, save at the start of the text.
    pub fn delete_backward(&mut self, motion: Motion) -> (changed: bool)
        requires
            old(self).wf(),
        ensures
            final(self).wf(),
            final(self)@ == old(self)@.deleted_backward(motion),
            changed == (old(self)@.has_selection() || old(self)@.cursor > 0),
            changed == (final(self)@.text != old(self)@.text),
            !changed ==> final(self)@ == old(self)@,
            !old(self)@.has_selection() ==> final(self)@ == old(self)@.moved_left(
                motion,
                true,
            ).without_selection(),
            forall|multiline: bool| #[trigger]
                controls::clean(old(self)@.text, multiline) ==> controls::clean(
                    final(self)@.text,
                    multiline,
                ),
    {
        if let Some(range) = self.selection() {
            self.remove(range.start, range.end);
            return true;
        }
        let target: usize = self.offset_before(self.cursor, motion);
        if target == self.cursor {
            proof {
                lemma_with_replaced(self@, self@.cursor, self@.cursor, Seq::empty());
                utf8::lemma_len_zero(Seq::empty());
            }
            return false;
        }
        self.remove(target, self.cursor);
        true
    }

    /// Forward delete, mirroring `delete_backward`. Reports whether the text
    /// changed: always, save at the end of the text.
    pub fn delete_forward(&mut self, motion: Motion) -> (changed: bool)
        requires
            old(self).wf(),
        ensures
            final(self).wf(),
            final(self)@ == old(self)@.deleted_forward(motion),
            changed == (old(self)@.has_selection() || old(self)@.cursor < utf8::utf8_len(
                old(self)@.text,
            )),
            changed == (final(self)@.text != old(self)@.text),
            !changed ==> final(self)@ == old(self)@,
            !old(self)@.has_selection() ==> final(self)@ == old(self)@.moved_right(
                motion,
                true,
            ).without_selection(),
            forall|multiline: bool| #[trigger]
                controls::clean(old(self)@.text, multiline) ==> controls::clean(
                    final(self)@.text,
                    multiline,
                ),
    {
        if self.selection().is_some() {
            return self.delete_backward(motion);
        }
        let target: usize = self.offset_after(self.cursor, motion);
        if target == self.cursor {
            proof {
                lemma_with_replaced(self@, self@.cursor, self@.cursor, Seq::empty());
                utf8::lemma_len_zero(Seq::empty());
            }
            return false;
        }
        self.remove(self.cursor, target);
        true
    }

    /// Move the caret left. `extend` keeps the anchor put, growing the selection;
    /// otherwise a collapsing selection drops the caret at its near edge.
    pub fn move_left(&mut self, motion: Motion, extend: bool)
        requires
            old(self).wf(),
        ensures
            final(self).wf(),
            final(self)@ == old(self)@.moved_left(motion, extend),
            final(self)@.cursor <= old(self)@.cursor,
            extend || !old(self)@.has_selection() ==> (final(self)@.cursor == old(self)@.cursor
                <==> old(self)@.cursor == 0),
            motion == Motion::Word ==> is_word_start_before(
                old(self)@.text,
                final(self)@.cursor,
                if extend {
                    old(self)@.cursor
                } else {
                    old(self)@.start()
                },
            ),
    {
        let mut from: usize = self.cursor;
        if !extend {
            if let Some(range) = self.selection() {
                self.cursor = range.start;
                self.anchor = range.start;
                if motion == Motion::Character {
                    return;
                }
                from = range.start;
            }
        }
        self.cursor = self.offset_before(from, motion);
        if !extend {
            self.anchor = self.cursor;
        }
    }

    /// Move the caret right, mirroring `move_left`.
    pub fn move_right(&mut self, motion: Motion, extend: bool)
        requires
            old(self).wf(),
        ensures
            final(self).wf(),
            final(self)@ == old(self)@.moved_right(motion, extend),
            final(self)@.cursor >= old(self)@.cursor,
            extend || !old(self)@.has_selection() ==> (final(self)@.cursor == old(self)@.cursor
                <==> old(self)@.cursor == utf8::utf8_len(old(self)@.text)),
            motion == Motion::Word ==> is_word_end_after(
                old(self)@.text,
                final(self)@.cursor,
                if extend {
                    old(self)@.cursor
                } else {
                    old(self)@.end()
                },
            ),
    {
        let mut from: usize = self.cursor;
        if !extend {
            if let Some(range) = self.selection() {
                self.cursor = range.end;
                self.anchor = range.end;
                if motion == Motion::Character {
                    return;
                }
                from = range.end;
            }
        }
        self.cursor = self.offset_after(from, motion);
        if !extend {
            self.anchor = self.cursor;
        }
    }

    /// Puts the caret at an arbitrary offset. Multi-line callers compute offsets
    /// from a wrapped layout this type knows nothing about.
    pub fn move_to(&mut self, offset: usize, extend: bool)
        requires
            old(self).wf(),
        ensures
            final(self).wf(),
            final(self)@ == old(self)@.moved_to(offset as nat, extend),
    {
        proof {
            utf8::lemma_floor_boundary(self.text@, offset as nat);
        }
        self.cursor = self.floor_boundary(offset);
        if !extend {
            self.anchor = self.cursor;
        }
    }

    /// Deletes between the caret and `offset` (or the selection, if there is
    /// one), leaving the caret at the near edge. Reports whether the text changed.
    pub fn delete_to(&mut self, offset: usize) -> (changed: bool)
        requires
            old(self).wf(),
        ensures
            final(self).wf(),
            final(self)@ == old(self)@.deleted_to(offset as nat),
            changed == (old(self)@.has_selection() || old(self)@.cursor != utf8::floor_boundary(
                old(self)@.text,
                offset as nat,
            )),
            changed == (final(self)@.text != old(self)@.text),
            !changed ==> final(self)@ == old(self)@,
            !old(self)@.has_selection() ==> final(self)@ == old(self)@.moved_to(
                offset as nat,
                true,
            ).without_selection(),
            forall|multiline: bool| #[trigger]
                controls::clean(old(self)@.text, multiline) ==> controls::clean(
                    final(self)@.text,
                    multiline,
                ),
    {
        if let Some(range) = self.selection() {
            self.remove(range.start, range.end);
            return true;
        }
        proof {
            utf8::lemma_floor_boundary(self.text@, offset as nat);
        }
        let offset: usize = self.floor_boundary(offset);
        if offset == self.cursor {
            proof {
                lemma_with_replaced(self@, self@.cursor, self@.cursor, Seq::empty());
                utf8::lemma_len_zero(Seq::empty());
            }
            return false;
        }
        if offset < self.cursor {
            self.remove(offset, self.cursor);
        } else {
            self.remove(self.cursor, offset);
        }
        true
    }

    /// Nearest character boundary at or before `offset`, so that a caller can
    /// never split a multibyte character.
    fn floor_boundary(&self, offset: usize) -> (at: usize)
        ensures
            at == utf8::floor_boundary(self@.text, offset as nat),
    {
        utf8::floor(self.text.as_str(), offset)
    }

    fn offset_before(&self, from: usize, motion: Motion) -> (at: usize)
        requires
            utf8::is_boundary(self@.text, from as int),
        ensures
            at == offset_before(self@.text, from as int, motion),
            utf8::is_boundary(self@.text, at as int),
            at <= from,
            at == from <==> from == 0,
            motion == Motion::Word ==> is_word_start_before(self@.text, at as int, from as int),
    {
        let text = utf8::head(self.text.as_str(), from);
        proof {
            utf8::lemma_boundary(self@.text, 0);
            utf8::lemma_cut(self@.text, from as int);
            utf8::lemma_len_zero(text@);
        }
        match motion {
            Motion::Line => 0,
            Motion::Character => match segments::last_grapheme_start(text) {
                Some(at) => {
                    proof {
                        utf8::lemma_boundary_before(self@.text, from as int, at as int);
                    }
                    at
                },
                None => 0,
            },
            Motion::Word => {
                let pieces = segments::word_bounds_from_back(text);
                let at: usize = segments::word_start(&pieces);
                proof {
                    let model = segments::pieces_of(pieces@);
                    segments::lemma_separators_before_word(model);
                    let i = segments::separators_before_word(model);
                    let turned = model.reverse();
                    if i < model.len() {
                        let k = model.len() - 1 - i;
                        assert(turned[k] == model[i]);
                        segments::lemma_piece(turned, text@, k);
                        let end = at + utf8::utf8_len(turned[k].1);
                        let behind = turned.skip(k + 1);
                        assert forall|j: int| 0 <= j < behind.len() implies segments::separates(
                            (#[trigger] behind[j]).1,
                        ) by {
                            assert(behind[j] == model[i - 1 - j]);
                        }
                        segments::lemma_joined_separators(behind);
                        utf8::lemma_boundary_before(self@.text, from as int, at as int);
                        utf8::lemma_boundary_before(self@.text, from as int, end);
                        utf8::lemma_between_before(self@.text, from as int, at as int, end);
                        utf8::lemma_between(self@.text, end, from as int);
                        assert(utf8::is_cut(self@.text, at as int, end));
                    } else {
                        assert forall|j: int| 0 <= j < turned.len() implies segments::separates(
                            (#[trigger] turned[j]).1,
                        ) by {
                            assert(turned[j] == model[model.len() - 1 - j]);
                        }
                        segments::lemma_joined_separators(turned);
                    }
                }
                at
            },
        }
    }

    fn offset_after(&self, from: usize, motion: Motion) -> (at: usize)
        requires
            utf8::is_boundary(self@.text, from as int),
        ensures
            at == offset_after(self@.text, from as int, motion),
            utf8::is_boundary(self@.text, at as int),
            from <= at <= utf8::utf8_len(self@.text),
            at == from <==> from == utf8::utf8_len(self@.text),
            motion == Motion::Word ==> is_word_end_after(self@.text, at as int, from as int),
    {
        let text = utf8::tail(self.text.as_str(), from);
        let len: usize = utf8::byte_len(self.text.as_str());
        proof {
            utf8::lemma_boundary(self@.text, 0);
            utf8::lemma_cut(self@.text, from as int);
            utf8::lemma_len_zero(text@);
        }
        match motion {
            Motion::Line => len,
            Motion::Character => {
                let pieces = segments::graphemes(text);
                proof {
                    let model = segments::pieces_of(pieces@);
                    if model.len() > 0 {
                        segments::lemma_piece(model, text@, 0);
                        utf8::lemma_boundary_after(
                            self@.text,
                            from as int,
                            utf8::utf8_len(model[0].1) as int,
                        );
                        assert(model.take(0) =~= Seq::empty());
                        utf8::lemma_len_zero(Seq::empty());
                    }
                }
                let width: usize = segments::first_len(&pieces);
                from + width
            },
            Motion::Word => {
                let pieces = segments::word_bounds(text);
                proof {
                    let model = segments::pieces_of(pieces@);
                    segments::lemma_separators_before_word(model);
                    let i = segments::separators_before_word(model);
                    assert forall|j: int| 0 <= j < pieces.len() implies (#[trigger] pieces@[j]).0
                        + utf8::utf8_len(pieces@[j].1@) <= utf8::utf8_len(text@) by {
                        segments::lemma_piece(model, text@, j);
                        assert(model[j].0 == pieces@[j].0);
                    }
                    if i < model.len() {
                        segments::lemma_piece(model, text@, i);
                        let start = model[i].0;
                        let end = start + utf8::utf8_len(model[i].1);
                        let front = model.take(i);
                        assert forall|j: int| 0 <= j < front.len() implies segments::separates(
                            (#[trigger] front[j]).1,
                        ) by {
                            assert(front[j] == model[j]);
                        }
                        segments::lemma_joined_separators(front);
                        utf8::lemma_boundary_after(self@.text, from as int, start);
                        utf8::lemma_boundary_after(self@.text, from as int, end);
                        utf8::lemma_between_after(self@.text, from as int, start, end);
                        utf8::lemma_between_after(self@.text, from as int, 0, start);
                        utf8::lemma_boundary(text@, 0);
                        assert(utf8::between(text@, 0, start) == utf8::before(text@, start));
                        assert(utf8::is_cut(self@.text, from + start, from + end));
                    } else {
                        segments::lemma_joined_separators(model);
                    }
                }
                let end: usize = segments::word_end(&pieces, len - from);
                from + end
            },
        }
    }

    /// Apply an edit that needs no host services. Reports whether the text
    /// changed; a pure caret move reports false but still needs a repaint.
    pub fn apply(&mut self, edit: LocalEdit) -> (changed: bool)
        requires
            old(self).wf(),
        ensures
            final(self).wf(),
            final(self)@ == old(self)@.applied(edit@),
            changed == (final(self)@.text != old(self)@.text),
            changed == old(self)@.reports(edit@),
            forall|multiline: bool| #[trigger]
                controls::clean(old(self)@.text, multiline) ==> controls::clean(
                    final(self)@.text,
                    multiline,
                ),
    {
        match edit {
            LocalEdit::Insert(text) => self.insert(text.as_str()),
            LocalEdit::DeleteBackward(motion) => self.delete_backward(motion),
            LocalEdit::DeleteForward(motion) => self.delete_forward(motion),
            LocalEdit::SelectAll => {
                self.select_all();
                false
            },
            LocalEdit::MoveLeft(motion, extend) => {
                self.move_left(motion, extend);
                false
            },
            LocalEdit::MoveRight(motion, extend) => {
                self.move_right(motion, extend);
                false
            },
        }
    }
}

/// The text to put on the pasteboard for a copy: the selection, if there is one.
pub fn copy_selection(editor: &QueryEditor) -> (text: Option<String>)
    requires
        editor.wf(),
    ensures
        match text {
            Some(text) => editor@.selected_text() == Some(text@),
            None => editor@.selected_text() is None,
        },
{
    match editor.selected_text() {
        Some(text) => Some(text.to_owned()),
        None => None,
    }
}

/// Take the selection out of the field and hand it over for the pasteboard. A cut
/// with no selection is a no-op rather than an alias for backspace.
pub fn cut_selection(editor: &mut QueryEditor) -> (text: Option<String>)
    requires
        old(editor).wf(),
    ensures
        final(editor).wf(),
        match text {
            Some(text) => old(editor)@.selected_text() == Some(text@) && final(editor)@ == old(
                editor,
            )@.without_selection(),
            None => old(editor)@.selected_text() is None && final(editor)@ == old(editor)@,
        },
{
    match copy_selection(editor) {
        Some(text) => {
            editor.delete_backward(Motion::Character);
            Some(text)
        },
        None => None,
    }
}

} // verus!
