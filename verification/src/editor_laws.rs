//! What holds of a query field whatever is done to it.

use vstd::prelude::*;

use crate::controls;
use crate::query_editor;
use crate::query_editor::{FieldEdit, FieldState, Motion};
use crate::segments;
use crate::utf8;

verus! {

/// Moving the caret and selecting never change the text.
pub proof fn law_moving_keeps_the_text(
    field: FieldState,
    motion: Motion,
    offset: nat,
    extend: bool,
)
    ensures
        field.moved_left(motion, extend).text == field.text,
        field.moved_right(motion, extend).text == field.text,
        field.moved_to(offset, extend).text == field.text,
        field.all_selected().text == field.text,
{
}

/// An extending motion keeps the anchor put; any other leaves nothing selected.
pub proof fn law_extending_keeps_the_anchor(
    field: FieldState,
    motion: Motion,
    offset: nat,
)
    ensures
        field.moved_left(motion, true).anchor == field.anchor,
        field.moved_right(motion, true).anchor == field.anchor,
        field.moved_to(offset, true).anchor == field.anchor,
        !field.moved_left(motion, false).has_selection(),
        !field.moved_right(motion, false).has_selection(),
        !field.moved_to(offset, false).has_selection(),
{
}

/// Inserting and deleting leave nothing selected.
pub proof fn law_changes_leave_nothing_selected(
    field: FieldState,
    insertion: Seq<char>,
    multiline: bool,
    motion: Motion,
    offset: nat,
)
    ensures
        !field.inserted(insertion, multiline).has_selection(),
        !field.deleted_backward(motion).has_selection(),
        !field.deleted_forward(motion).has_selection(),
        !field.deleted_to(offset).has_selection(),
{
}

/// Collapsing a selection by one grapheme parks the caret at its near edge.
pub proof fn law_collapsing_parks_at_the_near_edge(field: FieldState)
    requires
        field.has_selection(),
    ensures
        field.moved_left(Motion::Character, false).cursor == field.start(),
        field.moved_right(Motion::Character, false).cursor == field.end(),
{
}

/// Line motion reaches the two ends of the text, and line deletion takes all that
/// lies between the caret and that end.
pub proof fn law_line_motion_reaches_both_ends(field: FieldState, extend: bool)
    requires
        field.wf(),
    ensures
        field.moved_left(Motion::Line, extend).cursor == 0,
        field.moved_right(Motion::Line, extend).cursor == utf8::utf8_len(field.text),
        !field.has_selection() ==> field.deleted_backward(Motion::Line) == (FieldState {
            text: utf8::after(field.text, field.cursor),
            cursor: 0,
            anchor: 0,
        }),
        !field.has_selection() ==> field.deleted_forward(Motion::Line) == (FieldState {
            text: utf8::before(field.text, field.cursor),
            cursor: field.cursor,
            anchor: field.cursor,
        }),
{
    utf8::lemma_boundary(field.text, field.cursor);
    utf8::lemma_cut(field.text, 0);
    utf8::lemma_cut(field.text, utf8::utf8_len(field.text) as int);
    utf8::lemma_len_zero(utf8::before(field.text, 0));
    utf8::lemma_len_zero(utf8::after(field.text, utf8::utf8_len(field.text) as int));
    utf8::lemma_len_zero(Seq::empty());
    if !field.has_selection() {
        assert(field.deleted_backward(Motion::Line).text =~= utf8::after(field.text, field.cursor));
        assert(field.deleted_forward(Motion::Line).text =~= utf8::before(field.text, field.cursor));
    }
}

/// The caret goes to the last boundary at or before the offset that is asked for,
/// so that no character is ever split.
pub proof fn law_move_to_never_splits_a_character(field: FieldState, offset: nat, extend: bool)
    ensures
        ({
            let caret = field.moved_to(offset, extend).cursor;
            &&& utf8::is_boundary(field.text, caret)
            &&& caret <= offset
            &&& forall|at: int|
                caret < at <= offset ==> !#[trigger] utf8::is_boundary(field.text, at)
        }),
{
    utf8::lemma_floor_boundary(field.text, offset);
}

/// Typing over a field that is selected as a whole leaves what was typed.
pub proof fn law_select_all_then_insert_replaces_everything(
    field: FieldState,
    insertion: Seq<char>,
    multiline: bool,
)
    ensures
        ({
            let taken = controls::taken(insertion, multiline);
            field.all_selected().inserted(insertion, multiline) == (FieldState {
                text: taken,
                cursor: utf8::utf8_len(taken) as int,
                anchor: utf8::utf8_len(taken) as int,
            })
        }),
{
    let taken = controls::taken(insertion, multiline);
    let len = utf8::utf8_len(field.text) as int;
    utf8::lemma_boundary(field.text, 0);
    utf8::lemma_cut(field.text, 0);
    utf8::lemma_cut(field.text, len);
    utf8::lemma_len_zero(utf8::before(field.text, 0));
    utf8::lemma_len_zero(utf8::after(field.text, len));
    assert(utf8::splice(field.text, 0, len, taken) =~= taken);
}

/// Deleting in a field that is selected as a whole, and not empty, empties it.
pub proof fn law_select_all_then_delete_clears(field: FieldState, motion: Motion)
    requires
        field.text.len() > 0,
    ensures
        field.all_selected().selected_text() == Some(field.text),
        field.all_selected().deleted_backward(motion) == FieldState::empty(),
        field.all_selected().deleted_forward(motion) == FieldState::empty(),
{
    let len = utf8::utf8_len(field.text) as int;
    utf8::lemma_len_zero(field.text);
    utf8::lemma_len_zero(Seq::empty());
    utf8::lemma_boundary(field.text, 0);
    utf8::lemma_between(field.text, 0, len);
    utf8::lemma_cut(field.text, 0);
    utf8::lemma_cut(field.text, len);
    utf8::lemma_len_zero(utf8::before(field.text, 0));
    utf8::lemma_len_zero(utf8::after(field.text, len));
    assert(utf8::between(field.text, 0, len) =~= field.text);
    assert(utf8::splice(field.text, 0, len, Seq::empty()) =~= Seq::empty());
}

/// Deleting a selection removes exactly what was selected.
pub proof fn law_deleting_removes_the_selection(field: FieldState, motion: Motion, offset: nat)
    requires
        field.wf(),
        field.has_selection(),
    ensures
        field.deleted_backward(motion) == field.without_selection(),
        field.deleted_forward(motion) == field.without_selection(),
        field.deleted_to(offset) == field.without_selection(),
        field.without_selection().cursor == field.start(),
        field.text == utf8::before(field.text, field.start()) + field.selected_text()->Some_0
            + utf8::after(field.text, field.end()),
        field.without_selection().text == utf8::before(field.text, field.start()) + utf8::after(
            field.text,
            field.end(),
        ),
{
    utf8::lemma_between(field.text, field.start(), field.end());
    utf8::lemma_len_zero(Seq::empty());
    assert(field.without_selection().text =~= utf8::before(field.text, field.start())
        + utf8::after(field.text, field.end()));
}

/// Pasting back what a cut took out restores the text, with the caret behind it,
/// as long as the field takes all of it.
pub proof fn law_paste_undoes_cut(field: FieldState, multiline: bool)
    requires
        field.wf(),
        field.has_selection(),
        controls::clean(field.selected_text()->Some_0, multiline),
    ensures
        ({
            let pasted = field.without_selection().inserted(
                field.selected_text()->Some_0,
                multiline,
            );
            pasted == field.with_caret(field.end(), false)
        }),
{
    let (from, to) = (field.start(), field.end());
    let cut = field.selected_text()->Some_0;
    let rest = field.without_selection();
    controls::lemma_taken_of_clean(cut, multiline);
    utf8::lemma_len_zero(Seq::empty());
    utf8::lemma_between(field.text, from, to);
    utf8::lemma_splice(field.text, from, to, Seq::empty());
    assert(utf8::splice(rest.text, from, from, cut) =~= field.text);
}

/// An insertion is reported as a change exactly when it changes the text, which it
/// does unless it puts the selected text in its own place.
pub proof fn law_insert_reports_a_change(
    field: FieldState,
    insertion: Seq<char>,
    multiline: bool,
)
    requires
        field.wf(),
    ensures
        field.reports_insert(insertion, multiline) == (field.inserted(insertion, multiline).text
            != field.text),
        field.has_selection() ==> field.reports_insert(insertion, multiline) == (
        field.selected_text() != Some(controls::taken(insertion, multiline))),
        !field.has_selection() ==> field.reports_insert(insertion, multiline) == (controls::taken(
            insertion,
            multiline,
        ).len() > 0),
{
    let (from, to) = (field.start(), field.end());
    let taken = controls::taken(insertion, multiline);
    query_editor::lemma_with_replaced(field, from, to, taken);
    if !field.has_selection() && taken.len() == 0 {
        assert(taken =~= utf8::between(field.text, from, to));
    }
}

/// What a field does not take never gets into it: a field that holds a single line
/// keeps holding one, and a field of several lines takes no other control character
/// than a line break, whichever way text is inserted into it.
pub proof fn law_insert_admits_no_control_characters(
    field: FieldState,
    insertion: Seq<char>,
    multiline: bool,
)
    requires
        field.wf(),
        controls::clean(field.text, multiline),
    ensures
        controls::clean(field.inserted(insertion, multiline).text, multiline),
        controls::clean(field.inserted(insertion, false).text, multiline),
{
    let (from, to) = (field.start(), field.end());
    let taken = controls::taken(insertion, multiline);
    controls::lemma_taken_is_clean(insertion, multiline);
    controls::lemma_splice_is_clean(field.text, from, to, taken, multiline);
    let strict = controls::taken(insertion, false);
    controls::lemma_taken_is_clean(insertion, false);
    assert forall|i: int| 0 <= i < strict.len() implies controls::takes(
        #[trigger] strict[i],
        multiline,
    ) by {
        assert(controls::takes(strict[i], false));
    }
    controls::lemma_splice_is_clean(field.text, from, to, strict, multiline);
}

/// What is selected lies between the caret and the anchor, whichever comes first, and
/// something is selected exactly when they differ.
pub proof fn law_selection_lies_between_caret_and_anchor(field: FieldState)
    requires
        field.wf(),
    ensures
        field.has_selection() <==> field.cursor != field.anchor,
        field.cursor == field.anchor ==> field.selection() is None && field.selected_text() is None,
        field.cursor < field.anchor ==> field.selection() == Some((field.cursor, field.anchor)),
        field.cursor > field.anchor ==> field.selection() == Some((field.anchor, field.cursor)),
        field.selection() matches Some((from, to)) ==> field.selected_text() matches Some(selected)
            && utf8::before(field.text, from) + selected + utf8::after(field.text, to)
            == field.text && utf8::utf8_len(selected) == to - from,
{
    utf8::lemma_between(field.text, field.start(), field.end());
}

/// Selecting everything puts the anchor at the start of the text and the caret at its
/// end. An empty field holds no text and has its caret at the start.
pub proof fn law_select_all_reaches_from_start_to_end(field: FieldState)
    ensures
        field.all_selected().anchor == 0,
        field.all_selected().cursor == utf8::utf8_len(field.text),
        field.all_selected().text == field.text,
        FieldState::empty().text.len() == 0,
        FieldState::empty().cursor == 0,
        FieldState::empty().anchor == 0,
{
}

/// An insertion stands where the selection was, between what stood in front of it and
/// what stood behind it, and the caret stands behind it.
pub proof fn law_insertion_takes_the_place_of_the_selection(
    field: FieldState,
    insertion: Seq<char>,
    multiline: bool,
    from: int,
    to: int,
)
    requires
        from <= to,
        (from == field.cursor && to == field.anchor) || (from == field.anchor && to
            == field.cursor),
    ensures
        ({
            let after = field.inserted(insertion, multiline);
            let taken = controls::taken(insertion, multiline);
            &&& after.text == utf8::before(field.text, from) + taken + utf8::after(field.text, to)
            &&& after.cursor == from + utf8::utf8_len(taken)
            &&& after.anchor == after.cursor
        }),
{
}

/// A motion by one grapheme goes to where the last grapheme in front of the caret
/// starts, or over the first one behind it; at an end of the text it stays.
pub proof fn law_character_motion_crosses_one_grapheme(field: FieldState, extend: bool)
    requires
        extend || field.cursor == field.anchor,
    ensures
        ({
            let left = field.moved_left(Motion::Character, extend).cursor;
            match segments::last_grapheme_start_of(utf8::before(field.text, field.cursor)) {
                Some(start) => left == start,
                None => left == 0,
            }
        }),
        ({
            let right = field.moved_right(Motion::Character, extend).cursor;
            let clusters = segments::graphemes_of(utf8::after(field.text, field.cursor));
            if clusters.len() > 0 {
                right - field.cursor == utf8::utf8_len(clusters[0].1)
            } else {
                right == field.cursor
            }
        }),
{
}

/// A motion by a word to the left starts from the caret, or from the left end of a
/// selection that it does not extend. It passes over pieces that separate words and
/// stops where the first other piece starts, or at the start of the text.
pub proof fn law_word_motion_left_stops_at_a_word(field: FieldState, extend: bool, from: int)
    requires
        extend ==> from == field.cursor,
        !extend ==> (from == field.cursor || from == field.anchor) && from <= field.cursor && from
            <= field.anchor,
    ensures
        ({
            let at = field.moved_left(Motion::Word, extend).cursor;
            let pieces = segments::word_bounds_from_back_of(utf8::before(field.text, from));
            ||| exists|i: int|
                0 <= i < pieces.len() && at == (#[trigger] pieces[i]).0 && !segments::separates(
                    pieces[i].1,
                ) && forall|j: int|
                    0 <= j < i ==> segments::separates((#[trigger] pieces[j]).1)
            ||| at == 0 && forall|j: int|
                0 <= j < pieces.len() ==> segments::separates((#[trigger] pieces[j]).1)
        }),
{
    let pieces = segments::word_bounds_from_back_of(utf8::before(field.text, from));
    segments::law_first_word_decides(pieces, 0);
}

/// A motion by a word to the right starts from the caret, or from the right end of a
/// selection that it does not extend. It passes over pieces that separate words and
/// stops where the first other piece ends, or at the end of the text.
pub proof fn law_word_motion_right_stops_at_a_word(field: FieldState, extend: bool, from: int)
    requires
        utf8::is_boundary(field.text, from),
        extend ==> from == field.cursor,
        !extend ==> (from == field.cursor || from == field.anchor) && from >= field.cursor && from
            >= field.anchor,
    ensures
        ({
            let at = field.moved_right(Motion::Word, extend).cursor;
            let pieces = segments::word_bounds_of(utf8::after(field.text, from));
            ||| exists|i: int|
                0 <= i < pieces.len() && at == from + (#[trigger] pieces[i]).0 + utf8::utf8_len(
                    pieces[i].1,
                ) && !segments::separates(pieces[i].1) && forall|j: int|
                    0 <= j < i ==> segments::separates((#[trigger] pieces[j]).1)
            ||| at == utf8::utf8_len(field.text) && forall|j: int|
                0 <= j < pieces.len() ==> segments::separates((#[trigger] pieces[j]).1)
        }),
{
    let rest = utf8::after(field.text, from);
    utf8::lemma_cut(field.text, from);
    segments::law_first_word_decides(segments::word_bounds_of(rest), utf8::utf8_len(rest) as int);
}

/// With nothing selected, a deletion takes out what a motion of the same reach would
/// cross, keeps the rest, and leaves the caret in the gap.
pub proof fn law_deletion_takes_what_the_motion_crosses(
    field: FieldState,
    motion: Motion,
    offset: nat,
)
    requires
        field.wf(),
        field.cursor == field.anchor,
    ensures
        ({
            let left = field.moved_left(motion, true).cursor;
            let after = field.deleted_backward(motion);
            &&& after.text == utf8::before(field.text, left) + utf8::after(field.text, field.cursor)
            &&& after.cursor == left && after.anchor == left
        }),
        ({
            let right = field.moved_right(motion, true).cursor;
            let after = field.deleted_forward(motion);
            &&& after.text == utf8::before(field.text, field.cursor) + utf8::after(
                field.text,
                right,
            )
            &&& after.cursor == field.cursor && after.anchor == field.cursor
        }),
        ({
            let to = field.moved_to(offset, true).cursor;
            let after = field.deleted_to(offset);
            &&& to <= field.cursor ==> after.text == utf8::before(field.text, to) + utf8::after(
                field.text,
                field.cursor,
            ) && after.cursor == to && after.anchor == to
            &&& to >= field.cursor ==> after.text == utf8::before(field.text, field.cursor)
                + utf8::after(field.text, to) && after.cursor == field.cursor && after.anchor
                == field.cursor
        }),
{
    utf8::lemma_len_zero(Seq::empty());
    let text = field.text;
    let left = field.moved_left(motion, true).cursor;
    let right = field.moved_right(motion, true).cursor;
    let to = field.moved_to(offset, true).cursor;
    let nothing = Seq::<char>::empty();
    assert(utf8::before(text, left) + nothing =~= utf8::before(text, left));
    assert(utf8::before(text, field.cursor) + nothing =~= utf8::before(text, field.cursor));
    assert(utf8::before(text, to) + nothing =~= utf8::before(text, to));
}

/// An edit does to a field what the operation of its name does, and a motion or a
/// selection changes no text.
pub proof fn law_edits_do_what_their_names_say(field: FieldState, edit: FieldEdit)
    ensures
        match edit {
            FieldEdit::Insert(text) => field.applied(edit) == field.inserted(text, false),
            FieldEdit::SelectAll => field.applied(edit) == field.all_selected(),
            FieldEdit::DeleteBackward(motion) => field.applied(edit) == field.deleted_backward(
                motion,
            ),
            FieldEdit::DeleteForward(motion) => field.applied(edit) == field.deleted_forward(
                motion,
            ),
            FieldEdit::MoveLeft(motion, extend) => field.applied(edit) == field.moved_left(
                motion,
                extend,
            ) && field.applied(edit).text == field.text,
            FieldEdit::MoveRight(motion, extend) => field.applied(edit) == field.moved_right(
                motion,
                extend,
            ) && field.applied(edit).text == field.text,
        },
{
}

/// With nothing selected, a field is drawn as its text in front of the cursor, the
/// caret, and its text behind the cursor; with something selected, as its text alone.
pub proof fn law_field_is_drawn_with_caret_or_selection(field: FieldState, caret: Seq<char>)
    requires
        field.wf(),
    ensures
        field.cursor == field.anchor ==> field.drawn(caret) == utf8::before(
            field.text,
            field.cursor,
        ) + caret + utf8::after(field.text, field.cursor),
        field.cursor == field.anchor ==> utf8::utf8_len(field.drawn(caret)) == utf8::utf8_len(
            field.text,
        ) + utf8::utf8_len(caret),
        field.cursor != field.anchor ==> field.drawn(caret) == field.text,
{
    utf8::lemma_splice(field.text, field.cursor, field.cursor, caret);
}

} // verus!
