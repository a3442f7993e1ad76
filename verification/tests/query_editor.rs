use diri_app::controls;
use diri_app::keymap::{edit_for, ClipboardEdit, Edit, Keystroke, Modifiers};
use diri_app::query_editor::{copy_selection, cut_selection, LocalEdit, Motion, QueryEditor};

fn seeded(text: &str) -> QueryEditor {
    let mut editor = QueryEditor::default();
    editor.insert(text);
    editor
}

#[test]
fn typing_appends_and_backspace_removes_one_grapheme() {
    let mut editor = seeded("diri");
    assert_eq!(editor.text(), "diri");
    assert_eq!(editor.cursor(), 4);
    editor.delete_backward(Motion::Character);
    assert_eq!(editor.text(), "dir");
    assert!(editor.selection().is_none());
}

#[test]
fn select_all_then_typing_replaces_the_whole_query() {
    let mut editor = seeded("kairoskraft");
    editor.select_all();
    assert_eq!(editor.selected_text(), Some("kairoskraft"));
    editor.insert("diri");
    assert_eq!(editor.text(), "diri");
    assert_eq!(editor.cursor(), 4);
    assert!(editor.selection().is_none());
}

#[test]
fn multiline_insert_preserves_paragraphs_without_admitting_other_controls() {
    let mut editor = QueryEditor::default();
    assert!(editor.insert_multiline("first\nsecond\tthird"));
    assert_eq!(editor.text(), "first\nsecondthird");
}

#[test]
fn select_all_then_backspace_clears() {
    let mut editor = seeded("anara");
    editor.select_all();
    editor.delete_backward(Motion::Character);
    assert_eq!(editor.text(), "");
    assert_eq!(editor.cursor(), 0);
}

#[test]
fn command_and_option_deletion_reach_line_and_word() {
    let mut editor = seeded("new clover code");
    editor.delete_backward(Motion::Word);
    assert_eq!(editor.text(), "new clover ");
    editor.delete_backward(Motion::Word);
    assert_eq!(editor.text(), "new ");
    editor.delete_backward(Motion::Line);
    assert_eq!(editor.text(), "");

    let mut editor = seeded("fun/kairoskraft");
    editor.delete_backward(Motion::Word);
    assert_eq!(editor.text(), "fun/");
}

#[test]
fn arrows_move_the_caret_and_shift_extends_the_selection() {
    let mut editor = seeded("abc");
    editor.move_left(Motion::Character, false);
    assert_eq!(editor.cursor(), 2);
    editor.insert("X");
    assert_eq!(editor.text(), "abXc");

    let mut editor = seeded("abc");
    editor.move_left(Motion::Character, true);
    assert_eq!(editor.selected_text(), Some("c"));
    editor.move_left(Motion::Character, true);
    assert_eq!(editor.selected_text(), Some("bc"));
    // Collapsing a selection leftward parks the caret at its near edge.
    editor.move_left(Motion::Character, false);
    assert_eq!(editor.cursor(), 1);
    assert!(editor.selection().is_none());
}

#[test]
fn line_motion_reaches_both_ends_and_clamps() {
    let mut editor = seeded("diri");
    editor.move_left(Motion::Line, false);
    assert_eq!(editor.cursor(), 0);
    editor.move_left(Motion::Character, false);
    assert_eq!(editor.cursor(), 0);
    editor.move_right(Motion::Line, false);
    assert_eq!(editor.cursor(), 4);
    editor.move_right(Motion::Character, false);
    assert_eq!(editor.cursor(), 4);
}

#[test]
fn forward_delete_removes_the_character_after_the_caret() {
    let mut editor = seeded("abc");
    editor.move_left(Motion::Line, false);
    editor.delete_forward(Motion::Character);
    assert_eq!(editor.text(), "bc");
    assert_eq!(editor.cursor(), 0);
}

#[test]
fn offsets_stay_on_character_boundaries_for_multibyte_text() {
    let mut editor = seeded("café-naïve");
    editor.delete_backward(Motion::Word);
    assert_eq!(editor.text(), "café-");
    editor.delete_backward(Motion::Character);
    assert_eq!(editor.text(), "café");
    editor.delete_backward(Motion::Character);
    assert_eq!(editor.text(), "caf");
}

fn keystroke(key: &str, modifiers: &str) -> Keystroke {
    Keystroke {
        modifiers: Modifiers {
            control: modifiers.contains('^'),
            alt: modifiers.contains('~'),
            shift: modifiers.contains('$'),
            platform: modifiers.contains('@'),
            function: false,
        },
        key: key.to_owned(),
        key_char: (key.len() == 1).then(|| key.to_owned()),
    }
}

/// Drive an editor the way a surface does: map the keystroke, apply it.
fn press(editor: &mut QueryEditor, key: &str, modifiers: &str) {
    match edit_for(&keystroke(key, modifiers)) {
        Some(Edit::Local(local)) => {
            editor.apply(local);
        }
        other => panic!("{key:?} mapped to {other:?}"),
    }
}

#[test]
fn readline_keys_match_what_a_shell_does() {
    let mut editor = seeded("new clover code");
    press(&mut editor, "w", "^");
    assert_eq!(editor.text(), "new clover ");
    press(&mut editor, "u", "^");
    assert_eq!(editor.text(), "");

    let mut editor = seeded("kairoskraft");
    press(&mut editor, "a", "^"); // to line start
    assert_eq!(editor.cursor(), 0);
    press(&mut editor, "e", "^"); // to line end
    assert_eq!(editor.cursor(), 11);
    press(&mut editor, "b", "^"); // back one
    assert_eq!(editor.cursor(), 10);
    press(&mut editor, "h", "^"); // backspace
    assert_eq!(editor.text(), "kairoskrat");

    let mut editor = seeded("diri");
    press(&mut editor, "a", "^");
    press(&mut editor, "d", "^"); // forward delete
    assert_eq!(editor.text(), "iri");
    press(&mut editor, "k", "^"); // kill to end
    assert_eq!(editor.text(), "");
}

#[test]
fn the_key_map_separates_macos_clipboard_from_local_edits() {
    assert_eq!(
        edit_for(&keystroke("a", "@")),
        Some(Edit::Local(LocalEdit::SelectAll))
    );
    assert_eq!(
        edit_for(&keystroke("v", "@")),
        Some(Edit::Clipboard(ClipboardEdit::Paste))
    );
    // The platform key and alt change the granularity of the same key.
    assert_eq!(
        edit_for(&keystroke("backspace", "@")),
        Some(Edit::Local(LocalEdit::DeleteBackward(Motion::Line)))
    );
    assert_eq!(
        edit_for(&keystroke("backspace", "~")),
        Some(Edit::Local(LocalEdit::DeleteBackward(Motion::Word)))
    );
    // Shift extends instead of collapsing.
    assert_eq!(
        edit_for(&keystroke("left", "$")),
        Some(Edit::Local(LocalEdit::MoveLeft(Motion::Character, true)))
    );
    // Keys the field has no business claiming stay with the caller.
    assert_eq!(edit_for(&keystroke("enter", "")), None);
    assert_eq!(edit_for(&keystroke("escape", "")), None);
    assert_eq!(edit_for(&keystroke("n", "^")), None);
    assert_eq!(edit_for(&keystroke("p", "^")), None);
}

#[test]
fn pasted_control_characters_never_reach_the_query() {
    let mut editor = seeded("a");
    editor.insert("b\nc\td\r");
    assert_eq!(editor.text(), "abcd");
}

#[test]
fn every_key_of_the_map_has_its_edit() {
    let local = |key: &str, modifiers: &str| match edit_for(&keystroke(key, modifiers)) {
        Some(Edit::Local(edit)) => edit,
        other => panic!("{key:?} mapped to {other:?}"),
    };
    assert_eq!(edit_for(&keystroke("c", "@")), Some(Edit::Clipboard(ClipboardEdit::Copy)));
    assert_eq!(edit_for(&keystroke("x", "@")), Some(Edit::Clipboard(ClipboardEdit::Cut)));
    assert_eq!(local("a", "^"), LocalEdit::MoveLeft(Motion::Line, false));
    assert_eq!(local("a", "^$"), LocalEdit::MoveLeft(Motion::Line, true));
    assert_eq!(local("a", "^@"), LocalEdit::SelectAll);
    assert_eq!(local("e", "^$"), LocalEdit::MoveRight(Motion::Line, true));
    assert_eq!(local("k", "^"), LocalEdit::DeleteForward(Motion::Line));
    assert_eq!(local("d", "^"), LocalEdit::DeleteForward(Motion::Character));
    assert_eq!(local("f", "^"), LocalEdit::MoveRight(Motion::Character, false));
    assert_eq!(local("delete", ""), LocalEdit::DeleteForward(Motion::Character));
    assert_eq!(local("delete", "~"), LocalEdit::DeleteForward(Motion::Word));
    assert_eq!(local("right", "@$"), LocalEdit::MoveRight(Motion::Line, true));
    assert_eq!(local("home", ""), LocalEdit::MoveLeft(Motion::Line, false));
    assert_eq!(local("end", "$"), LocalEdit::MoveRight(Motion::Line, true));
    assert_eq!(local("left", "^"), LocalEdit::MoveLeft(Motion::Character, false));
    assert_eq!(local("q", ""), LocalEdit::Insert("q".to_owned()));
    assert_eq!(local("q", "~"), LocalEdit::Insert("q".to_owned()));
    assert_eq!(edit_for(&keystroke("q", "@")), None);
}

#[test]
fn a_function_key_types_no_text() {
    let mut pressed = keystroke("q", "");
    pressed.modifiers.function = true;
    assert_eq!(edit_for(&pressed), None);
}

#[test]
fn control_characters_are_those_of_the_standard_library() {
    for code in 0..=0x10_ffffu32 {
        if let Some(c) = char::from_u32(code) {
            assert_eq!(controls::is_control(c), c.is_control(), "U+{code:04X}");
        }
    }
}

#[test]
fn display_draws_the_caret_or_the_selection() {
    let mut editor = seeded("café");
    assert_eq!(editor.display("|"), ("café|".to_owned(), None));
    editor.move_left(Motion::Character, false);
    assert_eq!(editor.display("|"), ("caf|é".to_owned(), None));
    editor.move_left(Motion::Character, true);
    assert_eq!(editor.display("|"), ("café".to_owned(), Some(2..3)));
}

#[test]
fn move_to_and_delete_to_never_split_a_character() {
    let mut editor = seeded("aé日🎉z");
    editor.move_to(2, false);
    assert_eq!(editor.cursor(), 1);
    editor.move_to(9, false);
    assert_eq!(editor.cursor(), 6);
    editor.move_to(1000, false);
    assert_eq!(editor.cursor(), 11);
    assert!(editor.delete_to(7));
    assert_eq!(editor.text(), "aé日");
    assert_eq!(editor.cursor(), 6);
    assert!(!editor.delete_to(6));
    editor.move_to(1, false);
    assert!(editor.delete_to(5));
    assert_eq!(editor.text(), "a日");
    editor.select_all();
    assert!(editor.delete_to(0));
    assert!(editor.is_empty());
}

#[test]
fn graphemes_move_and_go_as_one() {
    let mut editor = seeded("e\u{301}🇷🇺👨‍👩‍👧");
    let len = editor.text().len();
    editor.move_left(Motion::Character, false);
    assert_eq!(editor.cursor(), len - "👨‍👩‍👧".len());
    editor.move_left(Motion::Character, false);
    assert_eq!(editor.cursor(), "e\u{301}".len());
    editor.move_left(Motion::Character, false);
    assert_eq!(editor.cursor(), 0);
    editor.move_right(Motion::Character, false);
    assert_eq!(editor.cursor(), "e\u{301}".len());
    assert!(editor.delete_forward(Motion::Character));
    assert_eq!(editor.text(), "e\u{301}👨‍👩‍👧");
}

#[test]
fn word_motion_skips_separators_in_both_directions() {
    let mut editor = seeded("foo, bar  baz!");
    editor.move_left(Motion::Word, false);
    assert_eq!(editor.cursor(), 10);
    editor.move_left(Motion::Word, false);
    assert_eq!(editor.cursor(), 5);
    editor.move_left(Motion::Word, false);
    assert_eq!(editor.cursor(), 0);
    editor.move_right(Motion::Word, false);
    assert_eq!(editor.cursor(), 3);
    editor.move_right(Motion::Word, true);
    assert_eq!(editor.selected_text(), Some(", bar"));
    editor.move_right(Motion::Word, false);
    assert_eq!(editor.cursor(), 13);
    editor.move_right(Motion::Word, false);
    assert_eq!(editor.cursor(), 14);
    assert!(!editor.delete_forward(Motion::Word));

    let mut editor = seeded("--- ");
    assert!(editor.delete_backward(Motion::Word));
    assert_eq!(editor.text(), "");
    assert!(!editor.delete_backward(Motion::Word));
}

#[test]
fn an_insertion_reports_what_it_did() {
    let mut editor = QueryEditor::default();
    assert!(!editor.insert("\u{7f}\n"));
    assert!(editor.insert("ab"));
    editor.select_all();
    assert!(editor.insert(""));
    assert!(editor.is_empty());
    assert!(editor.insert("ab"));
    editor.select_all();
    // Putting the selection in its own place collapses it and changes no text.
    assert!(!editor.insert("a\tb"));
    assert_eq!(editor.text(), "ab");
    assert_eq!(editor.cursor(), 2);
    assert!(editor.selection().is_none());
    editor.select_all();
    assert!(!editor.insert_multiline("ab"));
    editor.select_all();
    assert!(!editor.apply(LocalEdit::Insert("ab".to_owned())));
    editor.select_all();
    assert!(editor.apply(LocalEdit::Insert("ba".to_owned())));
    assert_eq!(editor.text(), "ba");
}

#[test]
fn cut_takes_the_selection_and_paste_puts_it_back() {
    let mut editor = seeded("new clover code");
    assert_eq!(copy_selection(&editor), None);
    assert_eq!(cut_selection(&mut editor), None);
    assert_eq!(editor.text(), "new clover code");
    editor.move_left(Motion::Word, true);
    assert_eq!(copy_selection(&editor), Some("code".to_owned()));
    assert_eq!(editor.text(), "new clover code");
    let cut = cut_selection(&mut editor).unwrap();
    assert_eq!(cut, "code");
    assert_eq!(editor.text(), "new clover ");
    editor.insert(&cut);
    assert_eq!(editor.text(), "new clover code");
    assert_eq!(editor.cursor(), 15);
}

#[test]
fn edits_report_whether_the_text_changed() {
    let mut editor = seeded("ab");
    assert!(!editor.apply(LocalEdit::SelectAll));
    assert!(!editor.apply(LocalEdit::MoveRight(Motion::Character, false)));
    assert_eq!(editor.cursor(), 2);
    assert!(!editor.apply(LocalEdit::DeleteForward(Motion::Character)));
    assert!(!editor.apply(LocalEdit::MoveLeft(Motion::Line, true)));
    assert!(editor.apply(LocalEdit::DeleteForward(Motion::Line)));
    assert!(editor.is_empty());
    assert!(!editor.apply(LocalEdit::DeleteBackward(Motion::Line)));
    assert!(editor.apply(LocalEdit::Insert("x".to_owned())));
    editor.clear();
    assert_eq!(editor, QueryEditor::default());
}
