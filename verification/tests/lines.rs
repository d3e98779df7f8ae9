use srg_core::lines::{frame, is_blank, is_white_space, keep_rows, split_lines};

fn lines(items: &[&str]) -> Vec<String> {
    items.iter().map(|s| (*s).to_owned()).collect()
}

#[test]
fn every_line_ends_in_a_line_feed() {
    assert_eq!(frame(&lines(&[])), "");
    assert_eq!(frame(&lines(&["a"])), "a\n");
    assert_eq!(frame(&lines(&["a", "", "ü"])), "a\n\nü\n");
}

#[test]
fn lines_are_split_at_line_ends() {
    for text in [
        "", "\n", "a", "a\n", "a\r\nb", "a\rb\n", "\r\n\r\n", "a\r", "a\n\nb\r\r\n", "ä€\n𝄞",
    ] {
        let expected: Vec<String> = text.lines().map(str::to_owned).collect();
        assert_eq!(split_lines(text), expected, "{text:?}");
    }
    assert_eq!(split_lines("a\r\nb\n\nc"), lines(&["a", "b", "", "c"]));
    assert_eq!(split_lines("a\r"), lines(&["a\r"]));
}

#[test]
fn white_space_is_that_of_unicode() {
    for c in '\0'..=char::MAX {
        assert_eq!(is_white_space(c), c.is_whitespace(), "{c:?}");
    }
}

#[test]
fn blank_lines_are_white_space() {
    assert!(is_blank(""));
    assert!(is_blank(" \t\u{a0}\u{3000}\r"));
    assert!(!is_blank(" x "));
    assert!(!is_blank("\u{200b}"));
}

#[test]
fn rows_keep_their_order() {
    assert_eq!(
        keep_rows(&lines(&["", "b", " ", "a", "\t", "b"])),
        lines(&["b", "a", "b"])
    );
}

#[test]
fn splitting_gives_back_what_was_framed() {
    let l = lines(&["{\"a\":1}", "", "x y", "ß"]);
    assert_eq!(split_lines(&frame(&l)), l);
}
