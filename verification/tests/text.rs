use rcsv::text::{fill, join, pad, push_repeated};

#[test]
fn pad_fills_with_spaces_on_the_right() {
    assert_eq!(pad("ab", 5), "ab   ");
    assert_eq!(pad("", 3), "   ");
    assert_eq!(pad("7", 1), "7");
}

#[test]
fn pad_never_clips() {
    assert_eq!(pad("abcdef", 3), "abcdef");
    assert_eq!(pad("abc", 0), "abc");
}

#[test]
fn pad_counts_terminal_columns() {
    assert_eq!(pad("é", 2), "é ");
    assert_eq!(pad("naïve", 7), "naïve  ");
    assert_eq!(pad("日本", 4), "日本");
    assert_eq!(pad("日本", 3), "日本");
    assert_eq!(pad("日本", 6), "日本  ");
    assert_eq!(pad("e\u{301}", 3), "e\u{301}  ");
}

#[test]
fn fill_adds_the_missing_columns() {
    assert_eq!(fill("ab", 2, 5), "ab   ");
    assert_eq!(fill("日本", 4, 5), "日本 ");
    assert_eq!(fill("ab", 5, 5), "ab");
    assert_eq!(fill("ab", 7, 5), "ab");
    assert_eq!(fill("", 0, 0), "");
    assert_eq!(fill("", 0, 2), "  ");
}

#[test]
fn push_repeated_appends_that_many_glyphs() {
    let mut out = String::from("x");
    push_repeated(&mut out, '─', 3);
    assert_eq!(out, "x───");
    push_repeated(&mut out, '!', 0);
    assert_eq!(out, "x───");
}

#[test]
fn join_puts_the_separator_between_neighbours() {
    let parts = vec![String::from("a"), String::from("bb"), String::from("")];
    assert_eq!(join(&parts, " │ "), "a │ bb │ ");
    assert_eq!(join(&parts, " │ "), parts.join(" │ "));
    assert_eq!(join(&vec![String::from("only")], ","), "only");
    assert_eq!(join(&Vec::new(), ","), "");
}
