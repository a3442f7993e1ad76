//! The multi-line prompt field.
//!
//! A query editor is a buffer: it knows where the caret is in bytes and nothing
//! about where that lands on screen. This adds the missing half: the buffer broken
//! into visual lines, which is what makes "the line the caret is on" a thing that
//! exists. From that follow caret-following scroll, vertical motion that keeps its
//! column, and line edits that stop at the visual line.

use std::ops::Range;

use vstd::prelude::*;
use vstd::string::*;

use crate::controls;
use crate::query_editor;
use crate::query_editor::{FieldEdit, FieldState, LocalEdit, Motion, QueryEditor};
use crate::segments;
use crate::utf8;
use crate::wrap;
use crate::wrap::{LineSpan, VisualLine};

verus! {

/// The line that a caret at `cursor` sits on: the last that starts at or before
/// it, so that at a soft break the caret shows at the head of the new line.
pub open spec fn caret_line_in(lines: Seq<LineSpan>, cursor: int) -> Option<int>
    decreases lines.len(),
{
    if lines.len() == 0 {
        None
    } else if lines.last().start <= cursor || lines.len() == 1 {
        Some(lines.len() - 1)
    } else {
        caret_line_in(lines.drop_last(), cursor)
    }
}

/// The byte offset `column` graphemes into `line`, clamped to its end.
pub open spec fn offset_in_line(text: Seq<char>, line: LineSpan, column: int) -> int {
    line.start + segments::column_start_in(
        segments::graphemes_of(utf8::between(text, line.start, line.end)),
        column,
        line.end - line.start,
    )
}

/// How many graphemes `from..to` of `text` holds.
pub open spec fn graphemes_between(text: Seq<char>, from: int, to: int) -> int {
    segments::graphemes_of(utf8::between(text, from, to)).len() as int
}

/// Byte offset `at` lies in `line`, in front of one of its clusters or at its end.
pub open spec fn is_cluster_boundary(text: Seq<char>, line: LineSpan, at: int) -> bool {
    let clusters = segments::graphemes_of(utf8::between(text, line.start, line.end));
    ||| at == line.end
    ||| exists|k: int| 0 <= k < clusters.len() && at == line.start + (#[trigger] clusters[k]).0
}

/// The part of `left` that lies in `right`, if any does.
pub open spec fn overlap(left: (int, int), right: (int, int)) -> Option<(int, int)> {
    let start = if left.0 >= right.0 {
        left.0
    } else {
        right.0
    };
    let end = if left.1 <= right.1 {
        left.1
    } else {
        right.1
    };
    if start < end {
        Some((start, end))
    } else {
        None
    }
}

/// A prompt field: its text field, the lines that it was last broken into and what
/// they were computed from, whether the caret still has to be scrolled into view,
/// and the column that vertical motion returns to.
#[verifier::ext_equal]
pub struct ComposerState {
    pub field: FieldState,
    pub lines: Seq<LineSpan>,
    pub wrapped_from: Option<(Seq<char>, u32)>,
    pub reveal_caret: bool,
    pub goal_column: Option<int>,
}

impl ComposerState {
    /// The text field is well formed, and the lines show the text they were
    /// computed from.
    pub open spec fn wf(self) -> bool {
        &&& self.field.wf()
        &&& match self.wrapped_from {
            Some((text, _)) => wrap::lines_show(text, self.lines),
            None => self.lines.len() == 0,
        }
    }

    /// The lines are those of the text as it is now, at this width.
    pub open spec fn is_laid_out(self, width: u32) -> bool {
        self.wrapped_from == Some((self.field.text, width))
    }

    /// Every line can be cut out of the text as it is now.
    pub open spec fn lines_fit(self) -> bool {
        forall|i: int|
            0 <= i < self.lines.len() ==> utf8::is_cut(
                self.field.text,
                (#[trigger] self.lines[i]).start,
                self.lines[i].end,
            )
    }

    pub open spec fn caret_line(self) -> Option<int> {
        caret_line_in(self.lines, self.field.cursor)
    }

    /// The field after a change that ends a run of vertical motion.
    pub open spec fn with_field(self, field: FieldState) -> ComposerState {
        ComposerState { field, goal_column: None, reveal_caret: true, ..self }
    }

    pub open spec fn cleared(self) -> ComposerState {
        ComposerState {
            field: FieldState::empty(),
            lines: Seq::empty(),
            wrapped_from: None,
            reveal_caret: true,
            goal_column: None,
        }
    }

    /// The field after `edit`: line edits act on the caret's visual line, if there
    /// is a layout, and everything else on the whole text.
    pub open spec fn field_applied(self, edit: FieldEdit) -> FieldState {
        match self.caret_line() {
            Some(index) => {
                let line = self.lines[index];
                match edit {
                    FieldEdit::MoveLeft(Motion::Line, extend) => self.field.moved_to(
                        line.start as nat,
                        extend,
                    ),
                    FieldEdit::MoveRight(Motion::Line, extend) => self.field.moved_to(
                        line.end as nat,
                        extend,
                    ),
                    FieldEdit::DeleteBackward(Motion::Line) => self.field.deleted_to(
                        line.start as nat,
                    ),
                    FieldEdit::DeleteForward(Motion::Line) => self.field.deleted_to(line.end as nat),
                    _ => self.field.applied(edit),
                }
            },
            None => self.field.applied(edit),
        }
    }

    pub open spec fn applied(self, edit: FieldEdit) -> ComposerState {
        self.with_field(self.field_applied(edit))
    }

    /// The caret, held inside line `index`.
    pub open spec fn caret_in_line(self, index: int) -> int {
        let line = self.lines[index];
        if self.field.cursor < line.start {
            line.start
        } else if self.field.cursor > line.end {
            line.end
        } else {
            self.field.cursor
        }
    }

    /// The column that vertical motion from line `index` aims for: the one of the
    /// run it continues, else that of the caret.
    pub open spec fn column(self, index: int) -> int {
        match self.goal_column {
            Some(column) => column,
            None => graphemes_between(
                self.field.text,
                self.lines[index].start,
                self.caret_in_line(index),
            ),
        }
    }

    /// The line above or below line `index`.
    pub open spec fn next_line(self, index: int, down: bool) -> int {
        if down {
            index + 1
        } else {
            index - 1
        }
    }

    pub open spec fn is_line_index(self, index: int) -> bool {
        0 <= index < self.lines.len()
    }

    /// What vertical motion has to cut out of the text can be cut out of it: the
    /// part of the caret's line in front of the caret, where the column is not
    /// known yet, and the line that the motion goes to.
    pub open spec fn can_move_vertically(self, down: bool) -> bool {
        self.caret_line() matches Some(index) ==> {
            &&& self.goal_column is None ==> utf8::is_cut(
                self.field.text,
                self.lines[index].start,
                self.caret_in_line(index),
            )
            &&& self.is_line_index(self.next_line(index, down)) ==> utf8::is_cut(
                self.field.text,
                self.lines[self.next_line(index, down)].start,
                self.lines[self.next_line(index, down)].end,
            )
        }
    }

    /// The caret one visual line further, at the column of the run. Past the first
    /// or last line it parks at that end of the text and the run is over. Before
    /// the first layout nothing moves.
    pub open spec fn moved_vertically(self, down: bool, extend: bool) -> ComposerState {
        match self.caret_line() {
            None => ComposerState { reveal_caret: true, ..self },
            Some(index) => {
                let target = self.next_line(index, down);
                if self.is_line_index(target) {
                    let offset = offset_in_line(
                        self.field.text,
                        self.lines[target],
                        self.column(index),
                    );
                    ComposerState {
                        field: self.field.moved_to(offset as nat, extend),
                        reveal_caret: true,
                        goal_column: Some(self.column(index)),
                        ..self
                    }
                } else if down {
                    self.with_field(
                        self.field.moved_to(utf8::utf8_len(self.field.text), extend),
                    )
                } else {
                    self.with_field(self.field.moved_to(0, extend))
                }
            },
        }
    }

    /// Where there is a line above or below, the caret of `moved` lies inside it. It
    /// sits on that line too, unless it is at a soft break, which belongs to the
    /// line behind.
    pub open spec fn lands_on_line(self, down: bool, moved: ComposerState) -> bool {
        self.caret_line() matches Some(index) ==> {
            let target = self.next_line(index, down);
            self.is_line_index(target) ==> {
                &&& self.lines[target].start <= moved.field.cursor <= self.lines[target].end
                &&& moved.caret_line() == Some(target) || (self.lines[target].soft
                    && moved.field.cursor == self.lines[target].end)
            }
        }
    }

    /// Where there is a line above or below, the text between its start and the caret of
    /// `moved` is made of as many of its clusters as the run aims for, or of all that it
    /// has: as many as stood between the caret and the start of its own line when the
    /// run began.
    pub open spec fn keeps_column(self, down: bool, moved: ComposerState) -> bool {
        self.caret_line() matches Some(index) ==> {
            let target = if down {
                index + 1
            } else {
                index - 1
            };
            0 <= target < self.lines.len() ==> {
                let text = self.field.text;
                let line = self.lines[index];
                let next = self.lines[target];
                let at = if self.field.cursor < line.start {
                    line.start
                } else if self.field.cursor > line.end {
                    line.end
                } else {
                    self.field.cursor
                };
                let wanted: int = match self.goal_column {
                    Some(column) => column,
                    None => segments::graphemes_of(
                        utf8::between(text, line.start, at),
                    ).len() as int,
                };
                let clusters = segments::graphemes_of(utf8::between(text, next.start, next.end));
                let count: int = if wanted < clusters.len() {
                    wanted
                } else {
                    clusters.len() as int
                };
                let passed = utf8::between(text, next.start, moved.field.cursor);
                &&& passed == segments::joined(clusters.take(count))
                &&& segments::graphemes_of(passed).len() == count
                &&& moved.goal_column == Some(wanted)
            }
        }
    }

    /// `moved` is what the first motion of a vertical run made of this field: the
    /// caret stood between two clusters of its line, and now sits on the next line.
    pub open spec fn starts_run(self, down: bool, extend: bool, moved: ComposerState) -> bool {
        &&& self.goal_column is None
        &&& moved == self.moved_vertically(down, extend)
        &&& self.caret_line() matches Some(index) && {
            let line = self.lines[index];
            &&& line.start <= self.field.cursor <= line.end
            &&& is_cluster_boundary(self.field.text, line, self.field.cursor)
            &&& self.is_line_index(self.next_line(index, down))
            &&& moved.caret_line() == Some(self.next_line(index, down))
        }
    }

    /// Whatever run away from `down` this field is the first step of, `moved` has its
    /// caret back where the run began, in the same text.
    pub open spec fn undoes_run(self, down: bool, moved: ComposerState) -> bool {
        forall|before: ComposerState, away: bool, extend: bool| #[trigger]
            before.starts_run(away, extend, self) && away != down ==> moved.field.cursor
                == before.field.cursor && moved.field.text == before.field.text
    }

    /// The field laid out at `width`: as it was if that is what it was laid out
    /// for, else broken into lines at `breaks`.
    pub open spec fn rewrapped(self, width: u32, breaks: Seq<Seq<usize>>) -> ComposerState {
        if self.is_laid_out(width) {
            self
        } else {
            ComposerState {
                lines: wrap::wrapped(self.field.text, breaks),
                wrapped_from: Some((self.field.text, width)),
                ..self
            }
        }
    }

    /// The line to scroll to: the caret's, if it still has to be brought into view.
    pub open spec fn scroll_target(self) -> Option<int> {
        if self.reveal_caret {
            self.caret_line()
        } else {
            None
        }
    }

    /// The field once its scroll target has been handed out.
    pub open spec fn revealed(self) -> ComposerState {
        ComposerState { reveal_caret: self.reveal_caret && self.caret_line() is None, ..self }
    }

    /// Whether line `index` is drawn with the caret in it.
    pub open spec fn draws_caret(self, index: int, caret: Option<Seq<char>>) -> bool {
        caret is Some && self.caret_line() == Some(index) && !self.field.has_selection()
    }

    /// What line `index` shows: its text, with the caret spliced in where it is drawn.
    pub open spec fn line_display(self, index: int, caret: Option<Seq<char>>) -> Seq<char> {
        let line = self.lines[index];
        let text = utf8::between(self.field.text, line.start, line.end);
        if self.draws_caret(index, caret) {
            let at = self.caret_in_line(index) - line.start;
            utf8::splice(text, at, at, caret->Some_0)
        } else {
            text
        }
    }

    /// The part of the selection that line `index` shows, counted from its start.
    pub open spec fn line_highlight(self, index: int) -> Option<(int, int)> {
        let line = self.lines[index];
        match self.field.selection() {
            Some(selection) => match overlap(selection, (line.start, line.end)) {
                Some((start, end)) => Some((start - line.start, end - line.start)),
                None => None,
            },
            None => None,
        }
    }
}

/// Where a caret's line is found, no later line starts at or before the caret; and
/// the caret is not in front of it when the first line starts the text.
pub proof fn lemma_caret_line(lines: Seq<LineSpan>, cursor: int)
    ensures
        caret_line_in(lines, cursor) is None <==> lines.len() == 0,
        caret_line_in(lines, cursor) matches Some(index) ==> 0 <= index < lines.len() && (
        lines[index].start <= cursor || index == 0) && forall|j: int|
            index < j < lines.len() ==> (#[trigger] lines[j]).start > cursor,
    decreases lines.len(),
{
    if lines.len() > 1 && lines.last().start > cursor {
        lemma_caret_line(lines.drop_last(), cursor);
        let index = caret_line_in(lines, cursor)->Some_0;
        assert forall|j: int| index < j < lines.len() implies (#[trigger] lines[j]).start
            > cursor by {
            if j < lines.len() - 1 {
                assert(lines[j] == lines.drop_last()[j]);
            }
        }
    }
}

/// A caret inside a line sits on it, unless it is at the soft break that ends it.
proof fn lemma_caret_sits_on(text: Seq<char>, lines: Seq<LineSpan>, index: int, cursor: int)
    requires
        wrap::lines_show(text, lines),
        0 <= index < lines.len(),
        lines[index].start <= cursor <= lines[index].end,
        lines[index].soft ==> cursor < lines[index].end,
    ensures
        caret_line_in(lines, cursor) == Some(index),
{
    lemma_caret_line(lines, cursor);
    let found = caret_line_in(lines, cursor)->Some_0;
    let len = utf8::utf8_len(text) as int;
    if found < index {
        assert(lines[index].start > cursor);
    }
    if index < found {
        assert(wrap::follows(text, lines[index], lines[index + 1]));
        if index + 1 < found {
            wrap::lemma_lines_ascend(text, lines, 0, len, index + 1, found);
        }
    }
}

/// The part of `left` that lies in `right`, if any does.
pub fn intersect(left: &Range<usize>, right: &Range<usize>) -> (common: Option<Range<usize>>)
    ensures
        query_editor::span_of(common) == overlap(
            (left.start as int, left.end as int),
            (right.start as int, right.end as int),
        ),
{
    let start: usize = if left.start >= right.start {
        left.start
    } else {
        right.start
    };
    let end: usize = if left.end <= right.end {
        left.end
    } else {
        right.end
    };
    if start < end {
        Some(Range { start, end })
    } else {
        None
    }
}

/// How many graphemes `text` holds.
fn grapheme_count(text: &str) -> (count: usize)
    ensures
        count == segments::graphemes_of(text@).len(),
{
    let pieces = segments::graphemes(text);
    assert(segments::pieces_of(pieces@).len() == pieces.len());
    pieces.len()
}

/// The byte offset `column` graphemes into `line`, clamped to its end.
fn offset_at_column(text: &str, line: &VisualLine, column: usize) -> (offset: usize)
    requires
        utf8::is_cut(text@, line@.start, line@.end),
    ensures
        offset == offset_in_line(text@, line@, column as int),
        utf8::is_boundary(text@, offset as int),
        line@.start <= offset <= line@.end,
        forall|at: int| #[trigger]
            is_cluster_boundary(text@, line@, at) && column == graphemes_between(
                text@,
                line@.start,
                at,
            ) ==> offset == at,
        ({
            let clusters = segments::graphemes_of(utf8::between(text@, line@.start, line@.end));
            let count: int = if column < clusters.len() {
                column as int
            } else {
                clusters.len() as int
            };
            let passed = utf8::between(text@, line@.start, offset as int);
            &&& passed == segments::joined(clusters.take(count))
            &&& segments::graphemes_of(passed).len() == count
        }),
{
    let start: usize = line.range.start;
    let end: usize = line.range.end;
    let part = utf8::slice(text, start, end);
    let pieces = segments::graphemes(part);
    let ghost model = segments::pieces_of(pieces@);
    proof {
        utf8::lemma_between(text@, start as int, end as int);
        assert(model.take(model.len() as int) =~= model);
        if column < model.len() {
            lemma_column(text@, line@, column as int);
        }
    }
    proof {
        assert forall|at: int| #[trigger]
            is_cluster_boundary(text@, line@, at) && column == graphemes_between(
                text@,
                line@.start,
                at,
            ) implies at == offset_in_line(text@, line@, column as int) by {
            if exists|k: int| 0 <= k < model.len() && at == start + (#[trigger] model[k]).0 {
                let k = choose|k: int| 0 <= k < model.len() && at == start + (#[trigger] model[k]).0;
                lemma_column(text@, line@, k);
            }
        }
    }
    let at: usize = segments::column_start(&pieces, column, end - start);
    start + at
}

/// The text in front of cluster `column` of a line is made of that many clusters.
pub proof fn lemma_column(text: Seq<char>, line: LineSpan, column: int)
    requires
        utf8::is_cut(text, line.start, line.end),
        ({
            let part = utf8::between(text, line.start, line.end);
            let clusters = segments::graphemes_of(part);
            &&& segments::tiles(clusters, part)
            &&& segments::prefixes_keep_clusters(clusters)
            &&& 0 <= column < clusters.len()
        }),
    ensures
        ({
            let clusters = segments::graphemes_of(utf8::between(text, line.start, line.end));
            let at = line.start + clusters[column].0;
            &&& line.start <= at < line.end
            &&& utf8::is_cut(text, line.start, at)
            &&& utf8::between(text, line.start, at) == segments::joined(clusters.take(column))
            &&& segments::graphemes_of(utf8::between(text, line.start, at)) == clusters.take(column)
        }),
{
    let (start, end) = (line.start, line.end);
    let part = utf8::between(text, start, end);
    let clusters = segments::graphemes_of(part);
    let within = clusters[column].0;
    let front = utf8::before(text, end);
    utf8::lemma_between(text, start, end);
    segments::lemma_piece(clusters, part, column);
    utf8::lemma_boundary_before(text, end, start);
    utf8::lemma_boundary_after(front, start, within);
    utf8::lemma_boundary_before(text, end, start + within);
    utf8::lemma_cut(text, end);
    utf8::lemma_between_after(front, start, 0, within);
    utf8::lemma_between_before(text, end, start, start + within);
    assert(utf8::between(text, start, start + within) == segments::joined(clusters.take(column)));
    assert(segments::graphemes_of(segments::joined(clusters.take(column))) == clusters.take(column));
}

/// One visual line, ready to be drawn: what it shows, and the byte range of that
/// to paint as selected.
#[derive(Debug, PartialEq, Eq)]
pub struct RenderedLine {
    pub display: String,
    pub highlight: Option<Range<usize>>,
}

/// A prompt buffer plus everything needed to draw and navigate it as a multi-line
/// field.
pub struct PromptComposer {
    editor: QueryEditor,
    lines: Vec<VisualLine>,
    /// The text and width that `lines` were computed from.
    wrapped_from: Option<(String, u32)>,
    /// Set by any edit; cleared once the caret has been scrolled into view.
    reveal_caret: bool,
    /// Column the caret returns to when vertical motion passes through a short
    /// line, in graphemes. `None` outside a run of vertical motion.
    goal_column: Option<usize>,
}

impl View for PromptComposer {
    type V = ComposerState;

    closed spec fn view(&self) -> ComposerState {
        ComposerState {
            field: self.editor@,
            lines: wrap::spans(self.lines@),
            wrapped_from: match self.wrapped_from {
                Some((text, width)) => Some((text@, width)),
                None => None,
            },
            reveal_caret: self.reveal_caret,
            goal_column: match self.goal_column {
                Some(column) => Some(column as int),
                None => None,
            },
        }
    }
}

impl Default for PromptComposer {
    fn default() -> (composer: PromptComposer)
        ensures
            composer.wf(),
            composer@ == (ComposerState {
                field: FieldState::empty(),
                lines: Seq::empty(),
                wrapped_from: None,
                reveal_caret: false,
                goal_column: None,
            }),
    {
        PromptComposer {
            editor: QueryEditor::default(),
            lines: Vec::new(),
            wrapped_from: None,
            reveal_caret: false,
            goal_column: None,
        }
    }
}

impl PromptComposer {
    pub open spec fn wf(&self) -> bool {
        self@.wf()
    }

    pub fn text(&self) -> (text: &str)
        ensures
            text@ == self@.field.text,
    {
        self.editor.text()
    }

    pub fn is_empty(&self) -> (empty: bool)
        ensures
            empty == (self@.field.text.len() == 0),
    {
        self.editor.is_empty()
    }

    pub fn editor(&self) -> (editor: &QueryEditor)
        ensures
            editor@ == self@.field,
    {
        &self.editor
    }

    /// The editor, to be changed. Whatever is done to it ends a run of vertical
    /// motion and brings the caret into view.
    pub fn editor_mut(&mut self) -> (editor: &mut QueryEditor)
        ensures
            editor@ == old(self)@.field,
            final(self)@ == old(self)@.with_field(final(editor)@),
    {
        self.reveal_caret = true;
        self.goal_column = None;
        &mut self.editor
    }

    pub fn clear(&mut self)
        ensures
            final(self).wf(),
            final(self)@ == old(self)@.cleared(),
    {
        self.editor.clear();
        self.lines = Vec::new();
        self.wrapped_from = None;
        self.goal_column = None;
        self.reveal_caret = true;
        assert(wrap::spans(self.lines@) =~= Seq::empty());
    }

    /// How many visual lines the prompt occupies, as last wrapped. One even when
    /// empty: the field is always at least a line tall.
    pub fn line_count(&self) -> (count: usize)
        ensures
            count == (if self@.lines.len() > 0 {
                self@.lines.len()
            } else {
                1
            }),
    {
        if self.lines.len() > 0 {
            self.lines.len()
        } else {
            1
        }
    }

    /// Applies an edit from the shared key map, keeping the caret in view. Line
    /// edits act on the caret's visual line rather than the whole buffer, so that
    /// deleting the third line of a prompt deletes that line and not the prompt.
    pub fn apply(&mut self, edit: LocalEdit)
        requires
            old(self).wf(),
        ensures
            final(self).wf(),
            final(self)@ == old(self)@.applied(edit@),
            controls::clean(old(self)@.field.text, true) ==> controls::clean(
                final(self)@.field.text,
                true,
            ),
    {
        proof {
            lemma_caret_line(self@.lines, self@.field.cursor);
        }
        self.goal_column = None;
        self.reveal_caret = true;
        match self.caret_line() {
            Some(index) => {
                let start: usize = self.lines[index].range.start;
                let end: usize = self.lines[index].range.end;
                match edit {
                    LocalEdit::MoveLeft(Motion::Line, extend) => {
                        self.editor.move_to(start, extend);
                    },
                    LocalEdit::MoveRight(Motion::Line, extend) => {
                        self.editor.move_to(end, extend);
                    },
                    LocalEdit::DeleteBackward(Motion::Line) => {
                        self.editor.delete_to(start);
                    },
                    LocalEdit::DeleteForward(Motion::Line) => {
                        self.editor.delete_to(end);
                    },
                    edit => {
                        self.editor.apply(edit);
                    },
                }
            },
            None => {
                self.editor.apply(edit);
            },
        }
    }

    /// Up one visual line. The caret keeps its column across a run, so going back on
    /// the first motion of one returns it to where it was, however short the line in
    /// between. Kept off the shared key map on purpose: only a field
    /// that has visual lines can answer it at all.
    pub fn move_up(&mut self, extend: bool)
        requires
            old(self).wf(),
            old(self)@.can_move_vertically(false),
        ensures
            final(self).wf(),
            final(self)@ == old(self)@.moved_vertically(false, extend),
            old(self)@.lands_on_line(false, final(self)@),
            old(self)@.keeps_column(false, final(self)@),
            old(self)@.undoes_run(false, final(self)@),
    {
        self.move_vertically(false, extend);
    }

    /// Down one visual line.
    pub fn move_down(&mut self, extend: bool)
        requires
            old(self).wf(),
            old(self)@.can_move_vertically(true),
        ensures
            final(self).wf(),
            final(self)@ == old(self)@.moved_vertically(true, extend),
            old(self)@.lands_on_line(true, final(self)@),
            old(self)@.keeps_column(true, final(self)@),
            old(self)@.undoes_run(true, final(self)@),
    {
        self.move_vertically(true, extend);
    }

    pub fn insert_multiline(&mut self, text: &str)
        requires
            old(self).wf(),
        ensures
            final(self).wf(),
            final(self)@ == old(self)@.with_field(old(self)@.field.inserted(text@, true)),
            controls::clean(old(self)@.field.text, true) ==> controls::clean(
                final(self)@.field.text,
                true,
            ),
    {
        self.editor.insert_multiline(text);
        self.goal_column = None;
        self.reveal_caret = true;
    }

    /// Index of the visual line the caret sits on. `None` before the first layout,
    /// when there are no lines to consult.
    pub fn caret_line(&self) -> (index: Option<usize>)
        ensures
            match index {
                Some(index) => self@.caret_line() == Some(index as int) && index < self@.lines.len(),
                None => self@.caret_line() is None,
            },
    {
        let cursor: usize = self.editor.cursor();
        let ghost all = self@.lines;
        let mut count: usize = self.lines.len();
        proof {
            assert(all.take(all.len() as int) =~= all);
        }
        while count > 1 && self.lines[count - 1].range.start > cursor
            invariant
                count <= self.lines.len(),
                all == wrap::spans(self.lines@),
                all == self@.lines,
                cursor == self@.field.cursor,
                caret_line_in(all.take(count as int), cursor as int) == caret_line_in(
                    all,
                    cursor as int,
                ),
            decreases count,
        {
            proof {
                assert(all.take(count as int).last() == self.lines@[count - 1]@);
                assert(all.take(count as int).drop_last() =~= all.take(count - 1));
            }
            count = count - 1;
        }
        if count == 0 {
            None
        } else {
            assert(all.take(count as int).last() == self.lines@[count - 1]@);
            Some(count - 1)
        }
    }

    /// Whether vertical motion can cut what it needs out of the text as it is now.
    /// It always can when the field has been laid out since the text last changed.
    pub fn can_move(&self, down: bool) -> (answer: bool)
        requires
            self.wf(),
        ensures
            answer == self@.can_move_vertically(down),
    {
        let index: usize = match self.caret_line() {
            Some(index) => index,
            None => {
                return true;
            },
        };
        let text = self.editor.text();
        if self.goal_column.is_none() {
            let caret: usize = self.caret_in(index);
            if !Self::cuts(text, self.lines[index].range.start, caret) {
                return false;
            }
        }
        match self.neighbour(index, down) {
            Some(target) => Self::cuts(
                text,
                self.lines[target].range.start,
                self.lines[target].range.end,
            ),
            None => true,
        }
    }

    /// Whether `from..to` can be cut out of `text`.
    fn cuts(text: &str, from: usize, to: usize) -> (answer: bool)
        ensures
            answer == utf8::is_cut(text@, from as int, to as int),
    {
        from <= to && text.is_char_boundary(from) && text.is_char_boundary(to)
    }

    /// The caret, held inside line `index`.
    fn caret_in(&self, index: usize) -> (caret: usize)
        requires
            index < self@.lines.len(),
        ensures
            caret == self@.caret_in_line(index as int),
    {
        let start: usize = self.lines[index].range.start;
        let end: usize = self.lines[index].range.end;
        let cursor: usize = self.editor.cursor();
        if cursor < start {
            start
        } else if cursor > end {
            end
        } else {
            cursor
        }
    }

    /// The line below or above line `index`, if there is one.
    fn neighbour(&self, index: usize, down: bool) -> (target: Option<usize>)
        requires
            index < self@.lines.len(),
        ensures
            match target {
                Some(target) => target == self@.next_line(index as int, down)
                    && self@.is_line_index(target as int),
                None => !self@.is_line_index(self@.next_line(index as int, down)),
            },
    {
        if down {
            if index < self.lines.len() - 1 {
                Some(index + 1)
            } else {
                None
            }
        } else if index > 0 {
            Some(index - 1)
        } else {
            None
        }
    }

    fn move_vertically(&mut self, down: bool, extend: bool)
        requires
            old(self).wf(),
            old(self)@.can_move_vertically(down),
        ensures
            final(self).wf(),
            final(self)@ == old(self)@.moved_vertically(down, extend),
            old(self)@.lands_on_line(down, final(self)@),
            old(self)@.keeps_column(down, final(self)@),
            old(self)@.undoes_run(down, final(self)@),
    {
        let ghost before = self@;
        self.reveal_caret = true;
        let current: usize = match self.caret_line() {
            Some(index) => index,
            None => {
                return;
            },
        };
        let column: usize = match self.goal_column {
            Some(column) => column,
            None => {
                let caret: usize = self.caret_in(current);
                grapheme_count(
                    utf8::slice(self.editor.text(), self.lines[current].range.start, caret),
                )
            },
        };
        assert(column == before.column(current as int));
        self.goal_column = Some(column);
        match self.neighbour(current, down) {
            Some(target) => {
                let offset: usize = offset_at_column(
                    self.editor.text(),
                    &self.lines[target],
                    column,
                );
                self.editor.move_to(offset, extend);
                proof {
                    let line = before.lines[target as int];
                    utf8::lemma_floor_of_boundary(before.field.text, offset as nat);
                    if !line.soft || offset < line.end {
                        lemma_caret_sits_on(
                            before.wrapped_from->Some_0.0,
                            before.lines,
                            target as int,
                            offset as int,
                        );
                    }
                    assert forall|start: ComposerState, away: bool, extended: bool| #[trigger]
                        start.starts_run(away, extended, before) && away != down implies offset
                        == start.field.cursor && before.field.text == start.field.text by {
                        lemma_caret_line(start.lines, start.field.cursor);
                        assert(is_cluster_boundary(before.field.text, line, start.field.cursor));
                    }
                }
            },
            None => {
                let offset: usize = if down {
                    utf8::byte_len(self.editor.text())
                } else {
                    0
                };
                self.editor.move_to(offset, extend);
                self.goal_column = None;
                proof {
                    assert forall|start: ComposerState, away: bool, extended: bool| #[trigger]
                        start.starts_run(away, extended, before) implies away == down by {
                        lemma_caret_line(start.lines, start.field.cursor);
                    }
                }
            },
        }
    }

    /// Whether the field has to be measured anew before `layout` at `width`: its
    /// text or width is not what the lines were computed from.
    pub fn needs_layout(&self, width: u32) -> (answer: bool)
        ensures
            answer == !self@.is_laid_out(width),
    {
        match &self.wrapped_from {
            Some((text, cached)) => !(utf8::same_text(text.as_str(), self.editor.text()) && *cached
                == width),
            None => true,
        }
    }

    /// Lays the field out at `width`, given where its paragraphs have to be broken
    /// to fit, which is looked at only where `needs_layout` says that it is needed.
    /// Hands back the line to scroll to, if an edit asked for the caret to be
    /// brought into view.
    pub fn layout(&mut self, width: u32, breaks: &Vec<Vec<usize>>) -> (scroll_to: Option<usize>)
        requires
            old(self).wf(),
            !old(self)@.is_laid_out(width) ==> wrap::breaks_fit(
                old(self)@.field.text,
                wrap::break_offsets(breaks@),
            ),
        ensures
            final(self).wf(),
            final(self)@.is_laid_out(width),
            final(self)@ == old(self)@.rewrapped(
                width,
                wrap::break_offsets(breaks@),
            ).revealed(),
            match scroll_to {
                Some(index) => old(self)@.rewrapped(
                    width,
                    wrap::break_offsets(breaks@),
                ).scroll_target() == Some(index as int) && index < final(self)@.lines.len(),
                None => old(self)@.rewrapped(
                    width,
                    wrap::break_offsets(breaks@),
                ).scroll_target() is None,
            },
    {
        if self.needs_layout(width) {
            self.lines = wrap::wrap(self.editor.text(), breaks);
            self.wrapped_from = Some((self.editor.text().to_owned(), width));
        }
        self.bring_into_view()
    }

    fn bring_into_view(&mut self) -> (scroll_to: Option<usize>)
        ensures
            final(self)@ == old(self)@.revealed(),
            match scroll_to {
                Some(index) => old(self)@.scroll_target() == Some(index as int) && index < old(
                    self,
                )@.lines.len(),
                None => old(self)@.scroll_target() is None,
            },
    {
        if !self.reveal_caret {
            return None;
        }
        let line = self.caret_line();
        if line.is_some() {
            self.reveal_caret = false;
        }
        line
    }

    /// Whether every line can be cut out of the text as it is now. It always can
    /// when the field has been laid out since the text last changed.
    pub fn can_render(&self) -> (answer: bool)
        ensures
            answer == self@.lines_fit(),
    {
        let text = self.editor.text();
        let mut i: usize = 0;
        while i < self.lines.len()
            invariant
                i <= self.lines.len(),
                text@ == self@.field.text,
                forall|j: int|
                    0 <= j < i ==> utf8::is_cut(
                        text@,
                        (#[trigger] self@.lines[j]).start,
                        self@.lines[j].end,
                    ),
            decreases self.lines.len() - i,
        {
            assert(self@.lines[i as int] == self.lines@[i as int]@);
            if !Self::cuts(text, self.lines[i].range.start, self.lines[i].range.end) {
                return false;
            }
            i = i + 1;
        }
        true
    }

    /// What to draw for each visual line. `caret` is drawn only when the field has
    /// focus, and only while nothing is selected. Before the first layout there is
    /// one blank line.
    pub fn render_lines(&self, caret: Option<&str>) -> (rendered: Vec<RenderedLine>)
        requires
            self.wf(),
            self@.lines_fit(),
        ensures
            self@.lines.len() == 0 ==> rendered.len() == 1 && rendered@[0].display@.len() == 0
                && rendered@[0].highlight is None,
            self@.lines.len() > 0 ==> rendered.len() == self@.lines.len(),
            forall|i: int|
                0 <= i < self@.lines.len() ==> (#[trigger] rendered@[i]).display@
                    == self@.line_display(i, caret_text(caret)) && query_editor::span_of(
                    rendered@[i].highlight,
                ) == self@.line_highlight(i),
    {
        let mut rendered: Vec<RenderedLine> = Vec::new();
        if self.lines.len() == 0 {
            rendered.push(RenderedLine { display: String::new(), highlight: None });
            return rendered;
        }
        let mut i: usize = 0;
        while i < self.lines.len()
            invariant
                i <= self.lines.len(),
                self.wf(),
                self@.lines_fit(),
                rendered.len() == i,
                forall|j: int|
                    0 <= j < i ==> (#[trigger] rendered@[j]).display@ == self@.line_display(
                        j,
                        caret_text(caret),
                    ) && query_editor::span_of(rendered@[j].highlight) == self@.line_highlight(j),
            decreases self.lines.len() - i,
        {
            let line = self.render_line(i, caret);
            rendered.push(line);
            i = i + 1;
        }
        rendered
    }

    fn render_line(&self, index: usize, caret: Option<&str>) -> (rendered: RenderedLine)
        requires
            self.wf(),
            self@.lines_fit(),
            index < self@.lines.len(),
        ensures
            rendered.display@ == self@.line_display(index as int, caret_text(caret)),
            query_editor::span_of(rendered.highlight) == self@.line_highlight(index as int),
    {
        let line = &self.lines[index];
        let start: usize = line.range.start;
        let end: usize = line.range.end;
        assert(self@.lines[index as int] == line@);
        let text = self.editor.text();
        let part = utf8::slice(text, start, end);
        proof {
            utf8::lemma_between(text@, start as int, end as int);
        }
        match self.editor.selection() {
            Some(selection) => {
                let highlight = match intersect(&selection, &line.range) {
                    Some(common) => Some(
                        Range { start: common.start - start, end: common.end - start },
                    ),
                    None => None,
                };
                RenderedLine { display: part.to_owned(), highlight }
            },
            None => {
                let holds_caret: bool = match self.caret_line() {
                    Some(caret_line) => caret_line == index,
                    None => false,
                };
                match caret {
                    Some(caret) if holds_caret => {
                        let at: usize = self.caret_in(index) - start;
                        proof {
                            utf8::lemma_boundary_before(text@, end as int, start as int);
                            utf8::lemma_boundary_before(text@, end as int, start + at);
                            utf8::lemma_boundary_after(
                                utf8::before(text@, end as int),
                                start as int,
                                at as int,
                            );
                        }
                        RenderedLine {
                            display: utf8::spliced(part, at, at, caret),
                            highlight: None,
                        }
                    },
                    _ => RenderedLine { display: part.to_owned(), highlight: None },
                }
            },
        }
    }
}

/// The text that draws the caret, if it is drawn.
pub open spec fn caret_text(caret: Option<&str>) -> Option<Seq<char>> {
    match caret {
        Some(caret) => Some(caret@),
        None => None,
    }
}

} // verus!
