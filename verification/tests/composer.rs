use diri_app::composer::{intersect, PromptComposer, RenderedLine};
use diri_app::query_editor::{LocalEdit, Motion};
use diri_app::wrap::{fits, paragraphs, wrap, VisualLine};

const WIDTH: u32 = 640;

/// Where the host would have broken the paragraphs to get these lines.
fn breaks(spans: &[(usize, usize, bool)]) -> Vec<Vec<usize>> {
    let mut breaks = Vec::new();
    let mut paragraph = Vec::new();
    let mut paragraph_start = 0;
    for (_, end, soft) in spans {
        if *soft {
            paragraph.push(*end - paragraph_start);
        } else {
            breaks.push(paragraph);
            paragraph = Vec::new();
            paragraph_start = *end + 1;
        }
    }
    breaks
}

fn lines(spans: &[(usize, usize, bool)]) -> Vec<VisualLine> {
    spans
        .iter()
        .map(|(start, end, soft)| VisualLine {
            range: *start..*end,
            soft_wrapped: *soft,
        })
        .collect()
}

fn composer(text: &str, spans: &[(usize, usize, bool)]) -> PromptComposer {
    let mut composer = PromptComposer::default();
    composer.insert_multiline(text);
    assert!(fits(text, &breaks(spans)));
    assert_eq!(wrap(text, &breaks(spans)), lines(spans));
    composer.layout(WIDTH, &breaks(spans));
    composer
}

#[test]
fn the_caret_belongs_to_the_last_line_that_starts_before_it() {
    // "abcdef" wrapped as "abc" / "def".
    let mut composer = composer("abcdef", &[(0, 3, true), (3, 6, false)]);
    assert_eq!(composer.caret_line(), Some(1)); // caret at 6, end of text
    composer.editor_mut().move_to(3, false);
    // At a soft break the caret shows at the head of the wrapped line,
    // where the next character typed will appear.
    assert_eq!(composer.caret_line(), Some(1));
    composer.editor_mut().move_to(1, false);
    assert_eq!(composer.caret_line(), Some(0));
}

#[test]
fn vertical_motion_keeps_its_column_across_a_short_line() {
    // "abcdef" / "gh" / "ijklmn"
    let mut composer = composer(
        "abcdef\ngh\nijklmn",
        &[(0, 6, false), (7, 9, false), (10, 16, false)],
    );
    composer.editor_mut().move_to(5, false); // column 5 of "abcdef"
    composer.move_down(false);
    assert_eq!(composer.editor().cursor(), 9); // "gh" has no column 5
    composer.move_down(false);
    assert_eq!(composer.editor().cursor(), 15); // column 5 of "ijklmn"
    composer.move_up(false);
    assert_eq!(composer.editor().cursor(), 9);
    composer.move_up(false);
    assert_eq!(composer.editor().cursor(), 5); // back where it started
}

#[test]
fn line_granular_edits_stop_at_the_visual_line() {
    let mut composer = composer("first\nsecond", &[(0, 5, false), (6, 12, false)]);
    composer.editor_mut().move_to(12, false);
    composer.apply(LocalEdit::DeleteBackward(Motion::Line));
    // Only the caret's own line is gone, not the whole prompt.
    assert_eq!(composer.editor().text(), "first\n");
}

#[test]
fn line_granular_motion_stops_at_the_visual_line() {
    let mut composer = composer("first\nsecond", &[(0, 5, false), (6, 12, false)]);
    composer.editor_mut().move_to(9, false);
    composer.apply(LocalEdit::MoveLeft(Motion::Line, false));
    assert_eq!(composer.editor().cursor(), 6); // start of "second", not 0
    composer.apply(LocalEdit::MoveRight(Motion::Line, false));
    assert_eq!(composer.editor().cursor(), 12);
}

#[test]
fn moving_past_the_last_line_parks_at_the_end_of_the_buffer() {
    let mut composer = composer("ab\ncd", &[(0, 2, false), (3, 5, false)]);
    composer.editor_mut().move_to(4, false);
    composer.move_down(false);
    assert_eq!(composer.editor().cursor(), 5);
    composer.move_up(false);
    composer.move_up(false);
    assert_eq!(composer.editor().cursor(), 0);
}

#[test]
fn a_selection_is_clipped_to_each_line_it_crosses() {
    assert_eq!(intersect(&(2..9), &(0..5)), Some(2..5));
    assert_eq!(intersect(&(2..9), &(5..12)), Some(5..9));
    assert_eq!(intersect(&(2..9), &(12..14)), None);
}

#[test]
fn a_trailing_line_break_has_a_row_of_its_own() {
    assert_eq!(paragraphs(""), vec![0..0]);
    assert_eq!(paragraphs("é\n"), vec![0..2, 3..3]);
    assert_eq!(paragraphs("\n\na"), vec![0..0, 1..1, 2..3]);
    assert_eq!(wrap("", &vec![vec![]]), lines(&[(0, 0, false)]));
    assert_eq!(
        wrap("a\n", &vec![vec![], vec![]]),
        lines(&[(0, 1, false), (2, 2, false)])
    );
}

#[test]
fn breaks_that_do_not_advance_are_skipped() {
    let breaks = vec![vec![0, 2, 2, 1, 4], vec![1]];
    assert!(fits("abcdef\ngh", &breaks));
    assert_eq!(
        wrap("abcdef\ngh", &breaks),
        lines(&[(0, 2, true), (2, 4, true), (4, 6, false), (7, 8, true), (8, 9, false)])
    );
}

#[test]
fn breaks_have_to_fit_the_text() {
    assert!(!fits("abc", &vec![]));
    assert!(!fits("abc", &vec![vec![4]]));
    assert!(!fits("é", &vec![vec![1]]));
    assert!(!fits("a\nb", &vec![vec![2], vec![]]));
    assert!(fits("é", &vec![vec![2]]));
}

fn line(display: &str, highlight: Option<std::ops::Range<usize>>) -> RenderedLine {
    RenderedLine {
        display: display.to_owned(),
        highlight,
    }
}

#[test]
fn lines_are_drawn_with_the_caret_or_the_selection() {
    let mut composer = composer("abcdef\ngh", &[(0, 3, true), (3, 6, false), (7, 9, false)]);
    composer.editor_mut().move_to(3, false);
    assert!(composer.can_render());
    assert_eq!(
        composer.render_lines(Some("|")),
        vec![line("abc", None), line("|def", None), line("gh", None)]
    );
    assert_eq!(
        composer.render_lines(None),
        vec![line("abc", None), line("def", None), line("gh", None)]
    );
    composer.editor_mut().move_to(2, false);
    composer.editor_mut().move_to(8, true);
    assert_eq!(
        composer.render_lines(Some("|")),
        vec![
            line("abc", Some(2..3)),
            line("def", Some(0..3)),
            line("gh", Some(0..1))
        ]
    );
}

#[test]
fn an_empty_field_has_one_line() {
    let mut composer = PromptComposer::default();
    assert_eq!(composer.line_count(), 1);
    assert_eq!(composer.caret_line(), None);
    assert_eq!(composer.render_lines(Some("|")), vec![line("", None)]);
    composer.move_down(false);
    composer.layout(WIDTH, &vec![vec![]]);
    assert_eq!(composer.line_count(), 1);
    assert_eq!(composer.render_lines(Some("|")), vec![line("|", None)]);
}

#[test]
fn layout_is_cached_and_brings_the_caret_into_view_once() {
    let mut composer = PromptComposer::default();
    composer.insert_multiline("one\ntwo");
    assert!(composer.needs_layout(WIDTH));
    assert_eq!(composer.layout(WIDTH, &vec![vec![], vec![]]), Some(1));
    assert!(!composer.needs_layout(WIDTH));
    assert!(composer.needs_layout(WIDTH + 1));
    assert_eq!(composer.layout(WIDTH, &vec![]), None);
    assert_eq!(composer.line_count(), 2);
    composer.apply(LocalEdit::MoveLeft(Motion::Character, false));
    assert_eq!(composer.layout(WIDTH, &vec![]), Some(1));
    composer.apply(LocalEdit::Insert("x".to_owned()));
    assert!(composer.needs_layout(WIDTH));
    composer.clear();
    assert!(composer.is_empty());
    assert_eq!(composer.line_count(), 1);
}

#[test]
fn motion_over_an_outdated_layout_is_announced() {
    let mut composer = composer("one\ntwo", &[(0, 3, false), (4, 7, false)]);
    composer.editor_mut().clear();
    assert!(!composer.can_move(true));
    assert!(composer.can_move(false));
    assert!(!composer.can_render());
    composer.layout(WIDTH, &vec![vec![]]);
    assert!(composer.can_move(true));
    assert!(composer.can_render());
}

#[test]
fn columns_count_graphemes() {
    let mut composer = composer(
        "e\u{301}xy\nabc",
        &[(0, 5, false), (6, 9, false)],
    );
    composer.editor_mut().move_to(4, false); // behind "éx": two graphemes
    composer.move_down(false);
    assert_eq!(composer.editor().cursor(), 8);
    composer.move_up(true);
    assert_eq!(composer.editor().cursor(), 4);
    assert_eq!(composer.editor().selected_text(), Some("y\nab"));
}

#[test]
fn line_deletion_forward_and_a_whole_buffer_edit() {
    let mut composer = composer("first\nsecond", &[(0, 5, false), (6, 12, false)]);
    composer.editor_mut().move_to(2, false);
    composer.apply(LocalEdit::DeleteForward(Motion::Line));
    assert_eq!(composer.text(), "fi\nsecond");
    composer.apply(LocalEdit::SelectAll);
    composer.apply(LocalEdit::DeleteBackward(Motion::Line));
    assert_eq!(composer.text(), "");
}

#[test]
fn going_back_on_a_vertical_motion_returns_the_caret() {
    // A combining accent, two flags, a joined emoji, a conjunct and a letter.
    let text = "e\u{301}🇩🇪🇫🇷👩\u{200d}💻क्षx\ng";
    let mut composer = composer(text, &[(0, 40, false), (41, 42, false)]);
    for at in [0, 3, 11, 19, 30, 39, 40] {
        composer.editor_mut().move_to(at, false);
        composer.move_down(false);
        assert_eq!(composer.editor().cursor(), if at == 0 { 41 } else { 42 });
        composer.move_up(false);
        assert_eq!(composer.editor().cursor(), at);
        assert_eq!(composer.text(), text);
    }
    // Inside a cluster there is no column to return to.
    composer.editor_mut().move_to(15, false);
    composer.move_down(false);
    composer.move_up(false);
    assert_eq!(composer.editor().cursor(), 19);
}
