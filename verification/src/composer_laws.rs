//! What holds of a prompt field whatever is done to it.

use vstd::prelude::*;

use crate::composer;
use crate::composer::ComposerState;
use crate::editor_laws;
use crate::query_editor::{FieldEdit, FieldState, Motion};
use crate::segments;
use crate::utf8;
use crate::wrap;

verus! {

/// A field that was laid out since its text last changed can be drawn, and its
/// caret can move up and down.
pub proof fn law_laid_out_field_can_be_drawn(composer: ComposerState, width: u32, down: bool)
    requires
        composer.wf(),
        composer.is_laid_out(width),
    ensures
        composer.lines.len() > 0,
        composer.lines_fit(),
        composer.can_move_vertically(down),
{
    let text = composer.field.text;
    assert forall|i: int| 0 <= i < composer.lines.len() implies utf8::is_cut(
        text,
        (#[trigger] composer.lines[i]).start,
        composer.lines[i].end,
    ) by {
        assert(wrap::is_line(text, composer.lines[i]));
    }
    composer::lemma_caret_line(composer.lines, composer.field.cursor);
}

/// The caret sits on the last line that starts at or before it; in a field that is
/// laid out it lies inside that line, and never at the soft break that ends it.
pub proof fn law_caret_sits_on_the_last_line_before_it(composer: ComposerState, width: u32)
    requires
        composer.wf(),
        composer.lines.len() > 0,
    ensures
        composer.caret_line() matches Some(index) && {
            let line = composer.lines[index];
            &&& 0 <= index < composer.lines.len()
            &&& line.start <= composer.field.cursor
            &&& forall|j: int|
                index < j < composer.lines.len() ==> (#[trigger] composer.lines[j]).start
                    > composer.field.cursor
            &&& composer.is_laid_out(width) ==> composer.field.cursor <= line.end
            &&& composer.is_laid_out(width) && line.soft ==> composer.field.cursor < line.end
        },
{
    let lines = composer.lines;
    let cursor = composer.field.cursor;
    composer::lemma_caret_line(lines, cursor);
    utf8::lemma_boundary(composer.field.text, cursor);
    let index = composer.caret_line()->Some_0;
    let text = composer.wrapped_from->Some_0.0;
    if index + 1 < lines.len() {
        assert(wrap::follows(text, lines[index], lines[index + 1]));
    }
}

/// A run of vertical motion keeps its column: after any line that it passes
/// through, however short, it aims for the column that it started with.
pub proof fn law_vertical_run_keeps_its_column(
    composer: ComposerState,
    index: int,
    down: bool,
    extend: bool,
    down_again: bool,
    extend_again: bool,
)
    requires
        composer.caret_line() == Some(index),
        composer.is_line_index(composer.next_line(index, down)),
        composer.moved_vertically(down, extend).caret_line() == Some(
            composer.next_line(index, down),
        ),
        composer.is_line_index(
            composer.next_line(composer.next_line(index, down), down_again),
        ),
    ensures
        ({
            let once = composer.moved_vertically(down, extend);
            let twice = once.moved_vertically(down_again, extend_again);
            let target = composer.next_line(composer.next_line(index, down), down_again);
            &&& once.goal_column == Some(composer.column(index))
            &&& twice.goal_column == Some(composer.column(index))
            &&& twice.field == once.field.moved_to(
                composer::offset_in_line(
                    composer.field.text,
                    composer.lines[target],
                    composer.column(index),
                ) as nat,
                extend_again,
            )
        }),
{
}

/// Moving a line up or down and back again returns the caret to where it was, at any
/// point of a run, as long as it stands where its column counts to. At the start of
/// a run any place between two clusters of a line is such a place, which `move_up`
/// and `move_down` state of going back on it.
pub proof fn law_vertical_motion_returns(
    composer: ComposerState,
    index: int,
    down: bool,
    extend: bool,
    extend_back: bool,
)
    requires
        composer.wf(),
        composer.caret_line() == Some(index),
        composer.is_line_index(composer.next_line(index, down)),
        composer.moved_vertically(down, extend).caret_line() == Some(
            composer.next_line(index, down),
        ),
        composer.field.cursor == composer::offset_in_line(
            composer.field.text,
            composer.lines[index],
            composer.column(index),
        ),
    ensures
        composer.moved_vertically(down, extend).moved_vertically(!down, extend_back).field.cursor
            == composer.field.cursor,
{
    composer::lemma_caret_line(composer.lines, composer.field.cursor);
    law_vertical_run_keeps_its_column(composer, index, down, extend, !down, extend_back);
    utf8::lemma_boundary(composer.field.text, composer.field.cursor);
    utf8::lemma_floor_of_boundary(composer.field.text, composer.field.cursor as nat);
}

/// Moving past the first or last line parks the caret at that end of the text.
pub proof fn law_moving_past_the_edge_parks(composer: ComposerState, extend: bool)
    requires
        composer.caret_line() is Some,
    ensures
        composer.caret_line() == Some(0int) ==> composer.moved_vertically(
            false,
            extend,
        ).field.cursor == 0 && composer.moved_vertically(false, extend).goal_column is None,
        composer.caret_line() == Some(composer.lines.len() - 1) ==> composer.moved_vertically(
            true,
            extend,
        ).field.cursor == utf8::utf8_len(composer.field.text) && composer.moved_vertically(
            true,
            extend,
        ).goal_column is None,
{
    utf8::lemma_boundary(composer.field.text, 0);
    utf8::lemma_floor_of_boundary(composer.field.text, 0);
    utf8::lemma_floor_of_boundary(composer.field.text, utf8::utf8_len(composer.field.text));
}

/// Vertical motion changes neither the text nor the layout.
pub proof fn law_vertical_motion_keeps_the_text(composer: ComposerState, down: bool, extend: bool)
    ensures
        ({
            let moved = composer.moved_vertically(down, extend);
            &&& moved.field.text == composer.field.text
            &&& moved.lines == composer.lines
            &&& moved.wrapped_from == composer.wrapped_from
            &&& moved.reveal_caret
        }),
{
}

/// Any edit ends a run of vertical motion and asks for the caret to be shown, and
/// keeps the layout as it was.
pub proof fn law_edits_end_a_vertical_run(
    composer: ComposerState,
    edit: FieldEdit,
    field: FieldState,
)
    ensures
        composer.applied(edit).goal_column is None && composer.applied(edit).reveal_caret,
        composer.with_field(field).goal_column is None && composer.with_field(field).reveal_caret,
        composer.with_field(field).lines == composer.lines,
        composer.wf() && field.wf() ==> composer.with_field(field).wf(),
        composer.cleared().goal_column is None && composer.cleared().reveal_caret,
{
}

/// Line motion goes to the ends of the caret's visual line, and line deletion
/// removes what lies between the caret and that end, and nothing outside the line.
pub proof fn law_line_edits_stop_at_the_visual_line(
    composer: ComposerState,
    width: u32,
    index: int,
    extend: bool,
)
    requires
        composer.wf(),
        composer.is_laid_out(width),
        composer.caret_line() == Some(index),
    ensures
        ({
            let line = composer.lines[index];
            let field = composer.field;
            &&& line.start <= field.cursor <= line.end
            &&& composer.applied(FieldEdit::MoveLeft(Motion::Line, extend)).field
                == field.with_caret(line.start, extend)
            &&& composer.applied(FieldEdit::MoveRight(Motion::Line, extend)).field
                == field.with_caret(line.end, extend)
            &&& !field.has_selection() ==> composer.applied(
                FieldEdit::DeleteBackward(Motion::Line),
            ).field == field.with_removed(line.start, field.cursor)
            &&& !field.has_selection() ==> composer.applied(
                FieldEdit::DeleteForward(Motion::Line),
            ).field == field.with_removed(field.cursor, line.end)
        }),
{
    let field = composer.field;
    law_caret_sits_on_the_last_line_before_it(composer, width);
    let line = composer.lines[index];
    assert(wrap::is_line(field.text, line));
    utf8::lemma_boundary(field.text, line.start);
    utf8::lemma_floor_of_boundary(field.text, line.start as nat);
    utf8::lemma_floor_of_boundary(field.text, line.end as nat);
}

/// Laying a field out a second time at the same width changes nothing, and once it
/// is laid out the caret no longer waits to be shown.
pub proof fn law_layout_is_kept(
    composer: ComposerState,
    width: u32,
    breaks: Seq<Seq<usize>>,
    other_breaks: Seq<Seq<usize>>,
)
    requires
        composer.wf(),
        !composer.is_laid_out(width) ==> wrap::breaks_fit(composer.field.text, breaks),
    ensures
        ({
            let laid_out = composer.rewrapped(width, breaks);
            &&& laid_out.wf()
            &&& laid_out.is_laid_out(width)
            &&& laid_out.rewrapped(width, other_breaks) == laid_out
            &&& laid_out.revealed().scroll_target() is None
            &&& composer.reveal_caret ==> laid_out.scroll_target() is Some
        }),
{
    if !composer.is_laid_out(width) {
        wrap::law_wrapped_lines_show_the_text(composer.field.text, breaks);
    }
    composer::lemma_caret_line(composer.rewrapped(width, breaks).lines, composer.field.cursor);
}

/// A selection is clipped to each line it crosses: a place in a line is painted
/// exactly when it is selected.
pub proof fn law_selection_is_clipped_to_each_line(composer: ComposerState, index: int, at: int)
    requires
        composer.is_line_index(index),
        composer.lines[index].start <= at < composer.lines[index].end,
    ensures
        ({
            let painted = composer.line_highlight(index) matches Some((start, end)) && start <= at
                - composer.lines[index].start < end;
            painted <==> composer.field.has_selection() && composer.field.start() <= at
                < composer.field.end()
        }),
{
}

/// The caret is drawn on one line, its own, unless something is selected, and a
/// line that it is drawn on has nothing painted as selected.
pub proof fn law_caret_is_drawn_once(
    composer: ComposerState,
    caret: Option<Seq<char>>,
    index: int,
    other: int,
)
    ensures
        composer.draws_caret(index, caret) && composer.draws_caret(other, caret) ==> index == other,
        composer.draws_caret(index, caret) ==> composer.line_highlight(index) is None,
        caret is Some && !composer.field.has_selection() && composer.caret_line() == Some(index)
            ==> composer.draws_caret(index, caret),
        composer.field.has_selection() ==> !composer.draws_caret(index, caret),
{
}

/// A vertical motion in either direction puts the caret as many clusters into the next
/// line as it stood into its own when the run began, or at that line's end where it
/// has fewer. What the clusters of that line are known to satisfy is taken as given.
pub proof fn law_vertical_motion_keeps_the_column(
    composer: ComposerState,
    index: int,
    target: int,
    down: bool,
    extend: bool,
    at: int,
    wanted: int,
)
    requires
        composer.caret_line() == Some(index),
        0 <= target < composer.lines.len(),
        target == (if down {
            index + 1
        } else {
            index - 1
        }),
        utf8::is_cut(
            composer.field.text,
            composer.lines[target].start,
            composer.lines[target].end,
        ),
        // The caret, held inside its line.
        composer.lines[index].start <= composer.lines[index].end,
        composer.lines[index].start <= at <= composer.lines[index].end,
        composer.lines[index].start <= composer.field.cursor <= composer.lines[index].end ==> at
            == composer.field.cursor,
        composer.field.cursor > composer.lines[index].end ==> at == composer.lines[index].end,
        composer.field.cursor < composer.lines[index].start ==> at == composer.lines[index].start,
        // The column of the run.
        wanted >= 0,
        composer.goal_column is Some ==> composer.goal_column == Some(wanted),
        composer.goal_column is None ==> wanted == segments::graphemes_of(
            utf8::between(composer.field.text, composer.lines[index].start, at),
        ).len(),
        ({
            let part = utf8::between(
                composer.field.text,
                composer.lines[target].start,
                composer.lines[target].end,
            );
            segments::tiles(segments::graphemes_of(part), part)
                && segments::prefixes_keep_clusters(segments::graphemes_of(part))
        }),
    ensures
        ({
            let moved = composer.moved_vertically(down, extend);
            let text = composer.field.text;
            let next = composer.lines[target];
            let clusters = segments::graphemes_of(utf8::between(text, next.start, next.end));
            let passed = utf8::between(text, next.start, moved.field.cursor);
            &&& next.start <= moved.field.cursor <= next.end
            &&& wanted >= clusters.len() ==> moved.field.cursor == next.end
                && segments::graphemes_of(passed).len() == clusters.len()
            &&& wanted < clusters.len() ==> passed == segments::joined(clusters.take(wanted))
                && segments::graphemes_of(passed).len() == wanted
            &&& moved.goal_column == Some(wanted)
            &&& moved.field.text == text
            &&& moved.field.anchor == (if extend {
                composer.field.anchor
            } else {
                moved.field.cursor
            })
        }),
{
    let text = composer.field.text;
    let next = composer.lines[target];
    let clusters = segments::graphemes_of(utf8::between(text, next.start, next.end));
    utf8::lemma_between(text, next.start, next.end);
    utf8::lemma_floor_of_boundary(text, next.end as nat);
    if wanted < clusters.len() {
        composer::lemma_column(text, next, wanted);
        utf8::lemma_floor_of_boundary(text, (next.start + clusters[wanted].0) as nat);
    }
}

/// Vertical motion extends the selection or leaves nothing selected, as any motion
/// does; before the first layout it moves nothing.
pub proof fn law_vertical_motion_extends_or_collapses(
    composer: ComposerState,
    down: bool,
    extend: bool,
)
    ensures
        ({
            let moved = composer.moved_vertically(down, extend);
            &&& composer.lines.len() > 0 && extend ==> moved.field.anchor == composer.field.anchor
            &&& composer.lines.len() > 0 && !extend ==> moved.field.anchor == moved.field.cursor
            &&& composer.lines.len() == 0 ==> moved.field == composer.field && moved.goal_column
                == composer.goal_column
        }),
{
    composer::lemma_caret_line(composer.lines, composer.field.cursor);
}

/// An edit that does not go by lines does to the prompt what it does to a field of one
/// line with the same text, caret and anchor; so does every edit before the first
/// layout. A line edit moves the caret to an end of its visual line, or deletes up to
/// it. None of them touches the layout.
pub proof fn law_prompt_edits_are_field_edits(composer: ComposerState, edit: FieldEdit)
    ensures
        ({
            let after = composer.applied(edit);
            let field = composer.field;
            &&& after.lines == composer.lines
            &&& after.wrapped_from == composer.wrapped_from
            &&& match edit {
                FieldEdit::Insert(text) => after.field == field.inserted(text, false),
                FieldEdit::SelectAll => after.field == field.all_selected(),
                FieldEdit::DeleteBackward(motion) => motion != Motion::Line ==> after.field
                    == field.deleted_backward(motion),
                FieldEdit::DeleteForward(motion) => motion != Motion::Line ==> after.field
                    == field.deleted_forward(motion),
                FieldEdit::MoveLeft(motion, extend) => motion != Motion::Line ==> after.field
                    == field.moved_left(motion, extend),
                FieldEdit::MoveRight(motion, extend) => motion != Motion::Line ==> after.field
                    == field.moved_right(motion, extend),
            }
            &&& composer.lines.len() == 0 ==> after.field == field.applied(edit)
            &&& composer.caret_line() matches Some(index) ==> match edit {
                FieldEdit::MoveLeft(Motion::Line, extend) => after.field == field.moved_to(
                    composer.lines[index].start as nat,
                    extend,
                ),
                FieldEdit::MoveRight(Motion::Line, extend) => after.field == field.moved_to(
                    composer.lines[index].end as nat,
                    extend,
                ),
                FieldEdit::DeleteBackward(Motion::Line) => after.field == field.deleted_to(
                    composer.lines[index].start as nat,
                ),
                FieldEdit::DeleteForward(Motion::Line) => after.field == field.deleted_to(
                    composer.lines[index].end as nat,
                ),
                _ => true,
            }
        }),
{
    composer::lemma_caret_line(composer.lines, composer.field.cursor);
}

/// Backspace in a prompt with nothing selected takes out what stands between the start
/// of the last grapheme in front of the caret and the caret, and nothing else.
pub proof fn law_prompt_backspace_takes_one_grapheme(composer: ComposerState)
    requires
        composer.wf(),
        composer.field.cursor == composer.field.anchor,
    ensures
        ({
            let field = composer.field;
            let after = composer.applied(FieldEdit::DeleteBackward(Motion::Character)).field;
            let last = segments::last_grapheme_start_of(utf8::before(field.text, field.cursor));
            let start = match last {
                Some(start) => start,
                None => 0,
            };
            &&& after.text == utf8::before(field.text, start) + utf8::after(
                field.text,
                field.cursor,
            )
            &&& after.cursor == start
            &&& after.anchor == start
        }),
{
    law_prompt_edits_are_field_edits(composer, FieldEdit::DeleteBackward(Motion::Character));
    editor_laws::law_deletion_takes_what_the_motion_crosses(
        composer.field,
        Motion::Character,
        0,
    );
    editor_laws::law_character_motion_crosses_one_grapheme(composer.field, true);
}

/// Clearing a prompt leaves no text and no layout, and replacing its field replaces
/// nothing else that is drawn.
pub proof fn law_clearing_leaves_nothing(composer: ComposerState, field: FieldState, width: u32)
    ensures
        ({
            let cleared = composer.cleared();
            &&& cleared.field.text.len() == 0
            &&& cleared.field.cursor == 0 && cleared.field.anchor == 0
            &&& cleared.lines.len() == 0
            &&& cleared.caret_line() is None
            &&& !cleared.is_laid_out(width)
        }),
        composer.with_field(field).field == field,
        composer.with_field(field).wrapped_from == composer.wrapped_from,
{
}

/// In a field that is laid out, the line with the caret shows its text up to the
/// cursor, then the caret, then its text from the cursor on. Every other line, and
/// every line while something is selected or no caret is drawn, shows its text.
pub proof fn law_caret_is_drawn_at_the_cursor(
    composer: ComposerState,
    width: u32,
    index: int,
    caret: Option<Seq<char>>,
)
    requires
        composer.wf(),
        composer.is_laid_out(width),
        0 <= index < composer.lines.len(),
    ensures
        ({
            let text = composer.field.text;
            let cursor = composer.field.cursor;
            let line = composer.lines[index];
            let shown = composer.line_display(index, caret);
            let draws = caret is Some && composer.caret_line() == Some(index) && cursor
                == composer.field.anchor;
            &&& draws ==> shown == utf8::between(text, line.start, cursor) + caret->Some_0
                + utf8::between(text, cursor, line.end)
            &&& !draws ==> shown == utf8::between(text, line.start, line.end)
        }),
{
    let text = composer.field.text;
    let cursor = composer.field.cursor;
    let line = composer.lines[index];
    assert(wrap::is_line(text, line));
    if composer.caret_line() == Some(index) {
        law_caret_sits_on_the_last_line_before_it(composer, width);
        lemma_line_parts(text, line, cursor);
    }
}

/// A line cut in two at a boundary.
proof fn lemma_line_parts(text: Seq<char>, line: wrap::LineSpan, at: int)
    requires
        utf8::is_cut(text, line.start, line.end),
        utf8::is_boundary(text, at),
        line.start <= at <= line.end,
    ensures
        ({
            let part = utf8::between(text, line.start, line.end);
            &&& utf8::before(part, at - line.start) == utf8::between(text, line.start, at)
            &&& utf8::after(part, at - line.start) == utf8::between(text, at, line.end)
        }),
{
    let (start, end) = (line.start, line.end);
    let front = utf8::before(text, end);
    let part = utf8::between(text, start, end);
    utf8::lemma_between(text, start, end);
    utf8::lemma_boundary_before(text, end, start);
    utf8::lemma_cut(text, end);
    utf8::lemma_between_after(front, start, 0, at - start);
    utf8::lemma_between_before(text, end, start, at);
    utf8::lemma_between_after(front, start, at - start, end - start);
    utf8::lemma_between_before(text, end, at, end);
}

/// Over a layout of an older text, too, the caret is drawn at the cursor where that
/// lies in its line, and at the near end of the line where it does not.
pub proof fn law_caret_is_drawn_inside_its_line(
    composer: ComposerState,
    index: int,
    caret: Option<Seq<char>>,
    at: int,
)
    requires
        composer.wf(),
        0 <= index < composer.lines.len(),
        utf8::is_cut(composer.field.text, composer.lines[index].start, composer.lines[index].end),
        composer.lines[index].start <= at <= composer.lines[index].end,
        composer.lines[index].start <= composer.field.cursor <= composer.lines[index].end ==> at
            == composer.field.cursor,
        composer.field.cursor > composer.lines[index].end ==> at == composer.lines[index].end,
        composer.field.cursor < composer.lines[index].start ==> at == composer.lines[index].start,
    ensures
        ({
            let text = composer.field.text;
            let line = composer.lines[index];
            let shown = composer.line_display(index, caret);
            let draws = caret is Some && composer.caret_line() == Some(index)
                && composer.field.cursor == composer.field.anchor;
            &&& draws ==> shown == utf8::between(text, line.start, at) + caret->Some_0
                + utf8::between(text, at, line.end)
            &&& !draws ==> shown == utf8::between(text, line.start, line.end)
        }),
{
    lemma_line_parts(composer.field.text, composer.lines[index], at);
}

/// What is painted as selected lies inside the line and is never empty.
pub proof fn law_highlight_lies_inside_its_line(composer: ComposerState, index: int)
    requires
        composer.is_line_index(index),
    ensures
        composer.line_highlight(index) matches Some((start, end)) ==> 0 <= start < end
            <= composer.lines[index].end - composer.lines[index].start,
{
}

/// Two ranges overlap in the places that lie in both, and what they overlap in is
/// never empty.
pub proof fn law_overlap_holds_what_lies_in_both(left: (int, int), right: (int, int), at: int)
    ensures
        (composer::overlap(left, right) matches Some((start, end)) && start <= at < end) <==> left.0
            <= at < left.1 && right.0 <= at < right.1,
        composer::overlap(left, right) matches Some((start, end)) ==> start < end,
{
}

/// A layout is redone exactly where the text or the width is another, and then holds
/// the lines of the text as it is; the rest of the field stays as it was.
pub proof fn law_layout_is_redone_for_another_text_or_width(
    composer: ComposerState,
    width: u32,
    other: u32,
    breaks: Seq<Seq<usize>>,
    field: FieldState,
)
    ensures
        ({
            let laid_out = composer.rewrapped(width, breaks);
            &&& laid_out.is_laid_out(width)
            &&& laid_out.is_laid_out(other) <==> width == other
            &&& laid_out.with_field(field).is_laid_out(width) <==> field.text
                == composer.field.text
            &&& laid_out.lines == composer.lines || laid_out.lines == wrap::wrapped(
                composer.field.text,
                breaks,
            )
            &&& composer.wrapped_from == Some((composer.field.text, width)) ==> laid_out.lines
                == composer.lines
            &&& composer.wrapped_from != Some((composer.field.text, width)) ==> laid_out.lines
                == wrap::wrapped(composer.field.text, breaks)
            &&& laid_out.field == composer.field
            &&& laid_out.goal_column == composer.goal_column
            &&& laid_out.reveal_caret == composer.reveal_caret
        }),
{
}

/// The line to scroll to is the caret's, and there is one exactly while the caret
/// waits to be shown; handing it out changes nothing but that.
pub proof fn law_scrolling_follows_the_caret(composer: ComposerState)
    ensures
        composer.reveal_caret ==> composer.scroll_target() == composer.caret_line(),
        !composer.reveal_caret ==> composer.scroll_target() is None,
        ({
            let shown = composer.revealed();
            &&& shown.scroll_target() is None
            &&& shown.field == composer.field
            &&& shown.lines == composer.lines
            &&& shown.wrapped_from == composer.wrapped_from
            &&& shown.goal_column == composer.goal_column
            &&& shown.reveal_caret ==> composer.reveal_caret && composer.lines.len() == 0
            &&& composer.reveal_caret && composer.lines.len() == 0 ==> shown.reveal_caret
        }),
{
    composer::lemma_caret_line(composer.lines, composer.field.cursor);
}

/// A field whose lines can all be drawn can move its caret up and down, also over a
/// layout of an older text, and one without lines always can.
pub proof fn law_what_can_be_drawn_can_be_moved_over(composer: ComposerState, down: bool)
    requires
        composer.wf(),
        forall|i: int|
            0 <= i < composer.lines.len() ==> utf8::is_cut(
                composer.field.text,
                (#[trigger] composer.lines[i]).start,
                composer.lines[i].end,
            ),
    ensures
        composer.can_move_vertically(down),
        composer.lines_fit(),
{
    composer::lemma_caret_line(composer.lines, composer.field.cursor);
}

} // verus!
