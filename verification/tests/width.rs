use termview::width::pad_to_width;

#[test]
fn pad_appends_spaces_to_target() {
    assert_eq!(pad_to_width("ab", 5), "ab   ");
    assert_eq!(pad_to_width("", 3), "   ");
}

#[test]
fn pad_leaves_wide_enough_strings_unchanged() {
    assert_eq!(pad_to_width("abcdef", 3), "abcdef");
    assert_eq!(pad_to_width("abc", 3), "abc");
    assert_eq!(pad_to_width("", 0), "");
}

#[test]
fn pad_counts_wide_characters_as_two_columns() {
    // Two CJK characters occupy four columns, so only one space is added.
    assert_eq!(pad_to_width("\u{6c49}\u{5b57}", 5), "\u{6c49}\u{5b57} ");
}

#[test]
fn pad_is_idempotent() {
    let once = pad_to_width("ab", 7);
    let twice = pad_to_width(&once, 7);
    assert_eq!(once, twice);
    let wide_once = pad_to_width("\u{6c49}", 4);
    let wide_twice = pad_to_width(&wide_once, 4);
    assert_eq!(wide_once, wide_twice);
}
