use frontend::error::format_error_message_inline;

#[test]
fn caret_under_the_offending_character() {
    let rendered = format_error_message_inline("1 + @", "Unexpected character '@'", 4);
    assert_eq!(rendered, "1:5: Unexpected character '@'\n1 + @\n    ^");
}

#[test]
fn later_lines_and_columns() {
    let source = "first\nsecond line\r\nthird";
    assert_eq!(format_error_message_inline(source, "m", 9), "2:4: m\nsecond line\n   ^");
    assert_eq!(format_error_message_inline(source, "m", 19), "3:1: m\nthird\n^");
}

#[test]
fn position_at_or_past_the_end() {
    assert_eq!(format_error_message_inline("ab", "m", 2), "1:3: m\nab\n  ^");
    assert_eq!(format_error_message_inline("ab", "m", 99), "1:3: m\nab\n  ^");
    assert_eq!(format_error_message_inline("", "m", 0), "1:1: m\n\n^");
    assert_eq!(format_error_message_inline("a\n", "m", 2), "2:1: m\n\n^");
}

#[test]
fn columns_count_characters() {
    assert_eq!(format_error_message_inline("éé@", "m", 2), "1:3: m\néé@\n  ^");
    let long = format!("{}x", " ".repeat(12));
    assert_eq!(format_error_message_inline(&long, "m", 12), format!("1:13: m\n{}\n{}^", long, " ".repeat(12)));
}
