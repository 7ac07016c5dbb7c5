use reedline_lsp::lsp::time::millis_within_u64;
use reedline_lsp::lsp::{hash_str, prompt_width};
use std::hash::{Hash, Hasher};
use reedline_lsp::text::{
    is_white_space_char, padding, replace_range, slice, str_eq, strip_ansi, LineBuffer,
};

#[test]
fn a_range_is_replaced() {
    assert_eq!(replace_range("abcdef", 1, 3, "XY"), Some("aXYdef".to_string()));
    assert_eq!(replace_range("abcdef", 2, 2, "-"), Some("ab-cdef".to_string()));
    assert_eq!(replace_range("abcdef", 0, 6, ""), Some(String::new()));
    assert_eq!(replace_range("", 0, 0, "x"), Some("x".to_string()));
}

#[test]
fn a_range_that_cannot_be_cut_is_not_replaced() {
    assert_eq!(replace_range("abc", 2, 1, "x"), None);
    assert_eq!(replace_range("abc", 0, 4, "x"), None);
    assert_eq!(replace_range("\u{e9}", 1, 2, "x"), None);
    assert_eq!(replace_range("\u{e9}", 0, 1, "x"), None);
    assert_eq!(replace_range("\u{e9}", 0, 2, "x"), Some("x".to_string()));
}

#[test]
fn a_part_is_cut_out() {
    assert_eq!(slice("hello world", 6, 11), Some("world"));
    assert_eq!(slice("hello", 2, 2), Some(""));
    assert_eq!(slice("h\u{e9}llo", 1, 3), Some("\u{e9}"));
    assert_eq!(slice("h\u{e9}llo", 2, 3), None);
    assert_eq!(slice("hello", 3, 9), None);
    assert_eq!(slice("hello", 4, 3), None);
}

#[test]
fn strings_are_compared_by_their_text() {
    assert!(str_eq("", ""));
    assert!(str_eq("textDocument/didOpen", "textDocument/didOpen"));
    assert!(!str_eq("abc", "abd"));
    assert!(!str_eq("abc", "ab"));
    assert!(!str_eq("e\u{301}", "\u{e9}"));
}

#[test]
fn padding_is_spaces() {
    assert_eq!(padding(0), "");
    assert_eq!(padding(3), "   ");
}

#[test]
fn escape_sequences_are_taken_out() {
    assert_eq!(strip_ansi("\u{1b}[32mok\u{1b}[0m"), "ok");
    assert_eq!(strip_ansi("plain"), "plain");
    assert_eq!(strip_ansi(""), "");
}

#[test]
fn the_width_of_a_prompt_leaves_escape_sequences_out() {
    assert_eq!(prompt_width("\u{1b}[32m~/src\u{1b}[0m", "> "), 7);
    assert_eq!(prompt_width("", ""), 0);
    assert_eq!(prompt_width("\u{4e16}\u{754c}", "\u{3009}"), 6);
}

#[test]
fn the_fingerprint_tells_texts_apart() {
    assert_eq!(hash_str("let x = 1"), hash_str("let x = 1"));
    assert_ne!(hash_str("let x = 1"), hash_str("let x = 2"));
    assert_ne!(hash_str(""), hash_str(" "));
}

#[test]
fn the_fingerprint_is_that_of_the_default_hasher() {
    let mut hasher = std::collections::hash_map::DefaultHasher::new();
    "let x = 1".hash(&mut hasher);
    assert_eq!(hash_str("let x = 1"), hasher.finish());
}

#[test]
fn a_line_buffer_keeps_text_and_cursor() {
    let mut buffer = LineBuffer::new("abc".to_string(), 1);
    assert_eq!(buffer.get_buffer(), "abc");
    assert_eq!(buffer.insertion_point(), 1);
    buffer.set_buffer("hello".to_string());
    assert_eq!(buffer.get_buffer(), "hello");
    assert_eq!(buffer.insertion_point(), 5);
    buffer.set_insertion_point(2);
    assert_eq!(buffer.insertion_point(), 2);
    assert_eq!(buffer.get_buffer(), "hello");
}

#[test]
fn milliseconds_stop_at_the_largest_count() {
    assert_eq!(millis_within_u64(0), 0);
    assert_eq!(millis_within_u64(99), 99);
    assert_eq!(millis_within_u64(u64::MAX as u128), u64::MAX);
    assert_eq!(millis_within_u64(u64::MAX as u128 + 1), u64::MAX);
    assert_eq!(millis_within_u64(u128::MAX), u64::MAX);
}

#[test]
fn white_space_is_what_the_standard_library_calls_so() {
    for code in 0..0x11_0000u32 {
        if let Some(character) = char::from_u32(code) {
            assert_eq!(is_white_space_char(character), character.is_whitespace(), "U+{:04X}", code);
        }
    }
}
