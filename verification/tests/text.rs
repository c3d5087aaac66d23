use deploynest_worker::text::{
    begins_with, blank, i32_text, join_path, lines, same_text, spaced, strings, trim, trim_slashes,
    u16_text, with_newlines,
};
use std::path::Path;

#[test]
fn numbers_are_written_in_base_ten() {
    for i in [0, 1, 9, 10, 42, 100, 65535, -1, -10, i32::MAX, i32::MIN] {
        assert_eq!(i32_text(i), i.to_string());
    }
    for n in [0, 7, 80, 3000, u16::MAX] {
        assert_eq!(u16_text(n), n.to_string());
    }
}

#[test]
fn different_numbers_have_different_texts() {
    let texts: Vec<String> = (-200..200).map(i32_text).collect();
    for (i, a) in texts.iter().enumerate() {
        for b in &texts[i + 1..] {
            assert_ne!(a, b);
        }
    }
}

#[test]
fn white_space_is_trimmed_as_std_does() {
    for c in (0..=0x10ffffu32).filter_map(char::from_u32) {
        let text = format!("{c}x{c}");
        assert_eq!(trim(&text), text.trim());
    }
    for text in ["", " ", "\n\t", " a b ", "a", "\u{3000}id\n", "x \r\n"] {
        assert_eq!(trim(text), text.trim());
    }
}

#[test]
fn blank_text_is_all_white_space() {
    assert!(blank(""));
    assert!(blank(" \n\u{2003}\t"));
    assert!(!blank("  x "));
    assert!(!blank("\u{200b}"));
}

#[test]
fn slashes_are_trimmed_at_the_end_only() {
    assert_eq!(trim_slashes("http://h:2019//"), "http://h:2019");
    assert_eq!(trim_slashes("/a/b"), "/a/b");
    assert_eq!(trim_slashes("///"), "");
    assert_eq!(trim_slashes(""), "");
}

#[test]
fn lines_are_split_as_std_does() {
    for text in [
        "", "a", "a\n", "a\nb", "a\r\nb\r\n", "a\r", "\n", "\n\n", "\r\n", "a\n\nb", "x\ry\n", "a\r\r\n",
    ] {
        let expected: Vec<String> = text.lines().map(|l| l.to_string()).collect();
        assert_eq!(lines(text), expected);
    }
}

#[test]
fn prefixes_are_found() {
    assert!(begins_with("abc", "ab"));
    assert!(begins_with("abc", ""));
    assert!(begins_with("abc", "abc"));
    assert!(!begins_with("abc", "abcd"));
    assert!(!begins_with("abc", "b"));
    assert!(begins_with("\u{e9}t\u{e9}", "\u{e9}"));
}

#[test]
fn texts_are_compared() {
    assert!(same_text("mysql", "mysql"));
    assert!(!same_text("mysql", "MySQL"));
    assert!(!same_text("mysql", ""));
}

#[test]
fn parts_are_spaced() {
    assert_eq!(spaced(&strings(&["a", "b c", ""])), "a b c ");
    assert_eq!(spaced(&strings(&[])), "");
}

#[test]
fn each_line_gets_a_line_feed() {
    assert_eq!(with_newlines(&strings(&["id", ""])), "id\n\n");
    assert_eq!(with_newlines(&strings(&[])), "");
}

#[test]
fn paths_are_joined_as_std_does() {
    for dir in ["/tmp/deploynest", "/tmp/", "/", "", "rel", "a//"] {
        for name in ["deployment-7", "artisan", ".deploynest"] {
            assert_eq!(join_path(dir, name), Path::new(dir).join(name).to_str().unwrap());
        }
    }
}
