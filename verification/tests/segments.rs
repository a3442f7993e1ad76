use diri_app::segments::{column_start, first_len, is_separator, word_end, word_start};

#[test]
fn separators_hold_nothing_alphanumeric() {
    assert!(is_separator(" "));
    assert!(is_separator(", !"));
    assert!(is_separator(""));
    assert!(!is_separator("-a-"));
    assert!(!is_separator("٣"));
    assert!(!is_separator("é"));
}

#[test]
fn the_first_word_decides_where_a_motion_ends() {
    let pieces = vec![(10, " "), (7, "-"), (3, "bar1"), (0, "foo")];
    assert_eq!(word_start(&pieces), 3);
    assert_eq!(word_end(&pieces, 99), 7);
    let blank = vec![(5, " "), (6, "..")];
    assert_eq!(word_start(&blank), 0);
    assert_eq!(word_end(&blank, 99), 99);
}

#[test]
fn columns_are_clamped() {
    let pieces = vec![(0, "a"), (1, "é"), (3, "z")];
    assert_eq!(column_start(&pieces, 0, 4), 0);
    assert_eq!(column_start(&pieces, 2, 4), 3);
    assert_eq!(column_start(&pieces, 3, 4), 4);
    assert_eq!(first_len(&pieces), 1);
    assert_eq!(first_len(&vec![]), 0);
}
